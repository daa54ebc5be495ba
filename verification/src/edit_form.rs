//! The editable form: its fields, the popup that edits many values, and what of it differs from
//! the directory.

use vstd::prelude::*;
use vstd::string::*;

use crate::attrs::{
    ascending, get_after_put, put, put_ascending, values_of, values_or_none, Attr, AttrMap,
};
use crate::changes::EditEntry;
use crate::order::{text_less, text_lt, text_lt_asymmetric, text_lt_transitive};
use crate::text::{
    contains_ignore_case, contains_text, copy_texts, eq_ignore_case, has_ci, lowercase, same_ci,
    texts, trim, trimmed,
};
use crate::text_input::TextInput;
use crate::widgets::{FieldKind, PasswordWidget, ResolvedWidget, WidgetKind, WidgetSpec};

verus! {

/// One field of the editable form.
pub struct EditField {
    /// The attribute's name.
    pub label: String,
    /// Whether the entry must have the attribute.
    pub must: bool,
    /// Whether the field takes edits.
    pub editable: bool,
    /// Whether the attribute can have many values, which the popup edits.
    pub multi: bool,
    /// Whether the attribute holds a secret.
    pub secret: bool,
    /// Whether the order of the values matters.
    pub ordered: bool,
    /// The values.
    pub values: Vec<String>,
    /// The attribute's syntax.
    pub kind: FieldKind,
    /// How the field shows where it cannot be edited.
    pub widget: WidgetSpec,
    /// The inline edit of a single value.
    pub editor: TextInput,
    /// The configured widget.
    pub widget_binding: Option<WidgetKind>,
    /// Whether the entry's object classes no longer allow the attribute.
    pub orphaned: bool,
}

/// The values of a field as edited: none of an orphaned field, the trimmed inline edit of an
/// editable single value (none when nothing is left of it), and otherwise the field's values.
pub open spec fn current(f: EditField) -> Seq<Seq<char>> {
    if f.orphaned {
        Seq::empty()
    } else if f.multi || !f.editable {
        texts(f.values@)
    } else if trimmed(f.editor.value@).len() == 0 {
        Seq::empty()
    } else {
        seq![trimmed(f.editor.value@)]
    }
}

/// The attribute of the chosen entries that a field's choice is written to, if it is.
pub open spec fn fanout_of(f: EditField) -> Option<Seq<char>> {
    match f.widget_binding {
        Some(WidgetKind::Picker(b)) => match b.fanout_attr {
            Some(a) => Some(a@),
            None => None,
        },
        _ => None,
    }
}

impl EditField {
    /// The field's values as edited.
    pub fn current_values(&self) -> (r: Vec<String>)
        ensures
            texts(r@) == current(*self),
    {
        if self.orphaned {
            let r: Vec<String> = Vec::new();
            assert(texts(r@) =~= Seq::empty());
            return r;
        }
        if self.multi || !self.editable {
            copy_texts(&self.values)
        } else {
            let v: String = trim(self.editor.value());
            let mut r: Vec<String> = Vec::new();
            if v.as_str().is_empty() {
                assert(texts(r@) =~= Seq::empty());
            } else {
                let ghost t = v@;
                r.push(v);
                assert(texts(r@) =~= seq![t]);
            }
            r
        }
    }
}

/// The attribute of the chosen entries that a field's choice is written to, if it is.
pub fn fanout_attr_of(f: &EditField) -> (r: Option<String>)
    ensures
        match r {
            Some(a) => fanout_of(*f) == Some(a@),
            None => fanout_of(*f) is None,
        },
{
    match &f.widget_binding {
        Some(WidgetKind::Picker(b)) => match &b.fanout_attr {
            Some(a) => Some(a.clone()),
            None => None,
        },
        _ => None,
    }
}

/// Whether a form edits an entry or composes a new one.
pub enum FormMode {
    /// Editing an entry of the directory.
    Edit,
    /// Composing a new entry of a profile, to be added under a container.
    Create { profile_idx: usize, container: String },
}

/// The editable form of one entry.
pub struct EditForm {
    /// The entry's name.
    pub dn: String,
    /// The fields, in order.
    pub fields: Vec<EditField>,
    /// The values as the directory had them.
    pub baseline: AttrMap,
    /// Whether the entry exists or is being composed.
    pub mode: FormMode,
    /// A password change that waits for the next save.
    pub pending_password: Option<String>,
}

/// Whether two lists hold the same values: as many, and each value of either in the other.
pub open spec fn same_values(a: Seq<Seq<char>>, b: Seq<Seq<char>>) -> bool {
    &&& a.len() == b.len()
    &&& forall|i: int| 0 <= i < a.len() ==> b.contains(#[trigger] a[i])
    &&& forall|i: int| 0 <= i < b.len() ==> a.contains(#[trigger] b[i])
}

/// Whether a field's values differ from those of the directory.
pub open spec fn field_changed(f: EditField, baseline: Seq<Attr>) -> bool {
    !same_values(current(f), values_or_none(baseline, f.label@))
}

/// Whether a form holds unsaved edits: a staged password, or a field that differs.
pub open spec fn dirty(form: EditForm) -> bool {
    form.pending_password is Some || exists|i: int|
        0 <= i < form.fields@.len() && field_changed(#[trigger] form.fields@[i], form.baseline@)
}

/// The attributes that the form writes to its own entry: those whose choice is not written
/// elsewhere, each with its values as edited.
pub open spec fn own_attrs(fields: Seq<EditField>) -> Seq<Attr>
    decreases fields.len(),
{
    if fields.len() == 0 {
        Seq::empty()
    } else {
        let before = own_attrs(fields.drop_last());
        if fanout_of(fields.last()) is Some {
            before
        } else {
            put(before, fields.last().label@, current(fields.last()))
        }
    }
}

/// The labels of the fields whose choice is written elsewhere.
pub open spec fn fanout_names(fields: Seq<EditField>) -> Seq<Seq<char>>
    decreases fields.len(),
{
    if fields.len() == 0 {
        Seq::empty()
    } else if fanout_of(fields.last()) is Some {
        fanout_names(fields.drop_last()).push(fields.last().label@)
    } else {
        fanout_names(fields.drop_last())
    }
}

/// The labels of the orphaned fields.
pub open spec fn orphaned_names(fields: Seq<EditField>) -> Seq<Seq<char>>
    decreases fields.len(),
{
    if fields.len() == 0 {
        Seq::empty()
    } else if fields.last().orphaned {
        orphaned_names(fields.drop_last()).push(fields.last().label@)
    } else {
        orphaned_names(fields.drop_last())
    }
}

impl EditForm {
    /// Whether the form composes a new entry.
    pub open spec fn composes(self) -> bool {
        self.mode is Create
    }

    /// Whether the form composes a new entry.
    pub fn is_new(&self) -> (b: bool)
        ensures
            b == self.composes(),
    {
        match self.mode {
            FormMode::Create { .. } => true,
            FormMode::Edit => false,
        }
    }

    /// The entry as edited. Fields whose choice is written to other entries are left out; an
    /// emptied field stays, with no values, so that it reads as a deletion.
    pub fn to_edit_entry(&self) -> (r: EditEntry)
        ensures
            r.dn@ == self.dn@,
            r.attrs@ == own_attrs(self.fields@),
    {
        let mut attrs: AttrMap = AttrMap::new();
        let mut i: usize = 0;
        assert(self.fields@.take(0) =~= Seq::empty());
        while i < self.fields.len()
            invariant
                i <= self.fields@.len(),
                attrs@ == own_attrs(self.fields@.take(i as int)),
            decreases self.fields@.len() - i,
        {
            proof {
                assert(self.fields@.take(i + 1).drop_last() =~= self.fields@.take(i as int));
            }
            if fanout_attr_of(&self.fields[i]).is_none() {
                attrs.insert(self.fields[i].label.clone(), self.fields[i].current_values());
            }
            i += 1;
        }
        assert(self.fields@.take(self.fields@.len() as int) =~= self.fields@);
        EditEntry { dn: self.dn.clone(), attrs }
    }

    /// The labels of the fields whose choice is written to other entries.
    pub fn fanout_labels(&self) -> (r: Vec<String>)
        ensures
            texts(r@) == fanout_names(self.fields@),
    {
        let mut r: Vec<String> = Vec::new();
        let mut i: usize = 0;
        assert(texts(r@) =~= fanout_names(self.fields@.take(0)));
        while i < self.fields.len()
            invariant
                i <= self.fields@.len(),
                texts(r@) == fanout_names(self.fields@.take(i as int)),
            decreases self.fields@.len() - i,
        {
            proof {
                assert(self.fields@.take(i + 1).drop_last() =~= self.fields@.take(i as int));
            }
            if fanout_attr_of(&self.fields[i]).is_some() {
                let ghost r0 = r@;
                r.push(self.fields[i].label.clone());
                assert(texts(r@) =~= texts(r0).push(self.fields@[i as int].label@));
            }
            i += 1;
        }
        assert(self.fields@.take(self.fields@.len() as int) =~= self.fields@);
        r
    }

    /// The labels of the orphaned fields; a save deletes them.
    pub fn orphaned_labels(&self) -> (r: Vec<String>)
        ensures
            texts(r@) == orphaned_names(self.fields@),
    {
        let mut r: Vec<String> = Vec::new();
        let mut i: usize = 0;
        assert(texts(r@) =~= orphaned_names(self.fields@.take(0)));
        while i < self.fields.len()
            invariant
                i <= self.fields@.len(),
                texts(r@) == orphaned_names(self.fields@.take(i as int)),
            decreases self.fields@.len() - i,
        {
            proof {
                assert(self.fields@.take(i + 1).drop_last() =~= self.fields@.take(i as int));
            }
            if self.fields[i].orphaned {
                let ghost r0 = r@;
                r.push(self.fields[i].label.clone());
                assert(texts(r@) =~= texts(r0).push(self.fields@[i as int].label@));
            }
            i += 1;
        }
        assert(self.fields@.take(self.fields@.len() as int) =~= self.fields@);
        r
    }

    /// Whether the form holds unsaved edits. A mere reordering of values is none.
    pub fn is_dirty(&self) -> (b: bool)
        ensures
            b == dirty(*self),
    {
        if self.pending_password.is_some() {
            return true;
        }
        let mut i: usize = 0;
        while i < self.fields.len()
            invariant
                i <= self.fields@.len(),
                self.pending_password is None,
                forall|j: int|
                    0 <= j < i ==> !field_changed(#[trigger] self.fields@[j], self.baseline@),
            decreases self.fields@.len() - i,
        {
            let now: Vec<String> = self.fields[i].current_values();
            let base: Vec<String> = self.baseline.get_or_none(&self.fields[i].label);
            if !value_set_eq(&now, &base) {
                assert(field_changed(self.fields@[i as int], self.baseline@));
                return true;
            }
            i += 1;
        }
        false
    }
}

fn all_in(a: &Vec<String>, b: &Vec<String>) -> (r: bool)
    ensures
        r == (forall|i: int| 0 <= i < a@.len() ==> texts(b@).contains(#[trigger] texts(a@)[i])),
{
    let mut i: usize = 0;
    while i < a.len()
        invariant
            i <= a@.len(),
            forall|j: int| 0 <= j < i ==> texts(b@).contains(#[trigger] texts(a@)[j]),
        decreases a@.len() - i,
    {
        assert(texts(a@)[i as int] == a@[i as int]@);
        if !contains_text(b, &a[i]) {
            return false;
        }
        i += 1;
    }
    true
}

/// Whether two lists hold the same values, in any order: as many, and each value of either in the
/// other.
pub fn value_set_eq(a: &Vec<String>, b: &Vec<String>) -> (r: bool)
    ensures
        r == same_values(texts(a@), texts(b@)),
{
    a.len() == b.len() && all_in(a, b) && all_in(b, a)
}

/// Having the same values is reflexive and symmetric.
pub proof fn same_values_is_symmetric(a: Seq<Seq<char>>, b: Seq<Seq<char>>)
    ensures
        same_values(a, a),
        same_values(a, b) == same_values(b, a),
{
    assert forall|i: int| 0 <= i < a.len() implies a.contains(#[trigger] a[i]) by {}
}

/// Reordering values does not change them as a set.
pub proof fn reordering_keeps_values(a: Seq<Seq<char>>, b: Seq<Seq<char>>)
    requires
        a.to_multiset() == b.to_multiset(),
    ensures
        same_values(a, b),
{
    broadcast use vstd::seq_lib::group_to_multiset_ensures;

    assert(a.to_multiset().len() == a.len());
    assert(b.to_multiset().len() == b.len());
    assert forall|i: int| 0 <= i < a.len() implies b.contains(#[trigger] a[i]) by {
        assert(a.to_multiset().count(a[i]) > 0);
        assert(b.to_multiset().count(a[i]) > 0);
    }
    assert forall|i: int| 0 <= i < b.len() implies a.contains(#[trigger] b[i]) by {
        assert(b.to_multiset().count(b[i]) > 0);
        assert(a.to_multiset().count(b[i]) > 0);
    }
}

/// The place of the first field whose label equals `attr` up to ASCII case.
pub open spec fn field_named(fields: Seq<EditField>, attr: Seq<char>) -> Option<int>
    decreases fields.len(),
{
    if fields.len() == 0 {
        None
    } else {
        match field_named(fields.drop_last(), attr) {
            Some(i) => Some(i),
            None => if same_ci(fields.last().label@, attr) {
                Some(fields.len() - 1)
            } else {
                None
            },
        }
    }
}

proof fn field_named_prefix(fields: Seq<EditField>, attr: Seq<char>, n: int)
    requires
        0 <= n <= fields.len(),
        field_named(fields.take(n), attr) is Some,
    ensures
        field_named(fields, attr) == field_named(fields.take(n), attr),
    decreases fields.len() - n,
{
    if n < fields.len() {
        assert(fields.take(n + 1).drop_last() =~= fields.take(n));
        field_named_prefix(fields, attr, n + 1);
    } else {
        assert(fields.take(n) =~= fields);
    }
}

/// The place of the first field whose label equals `attr` up to ASCII case.
pub fn find_field(fields: &Vec<EditField>, attr: &str) -> (r: Option<usize>)
    ensures
        match r {
            Some(i) => field_named(fields@, attr@) == Some(i as int) && i < fields@.len(),
            None => field_named(fields@, attr@) is None,
        },
{
    let mut i: usize = 0;
    while i < fields.len()
        invariant
            i <= fields@.len(),
            field_named(fields@.take(i as int), attr@) is None,
        decreases fields@.len() - i,
    {
        proof {
            assert(fields@.take(i + 1).drop_last() =~= fields@.take(i as int));
        }
        if eq_ignore_case(&fields[i].label, attr) {
            proof {
                field_named_prefix(fields@, attr@, i + 1);
            }
            return Some(i);
        }
        i += 1;
    }
    assert(fields@.take(fields@.len() as int) =~= fields@);
    None
}

/// Whether entries of the object classes have the widget.
pub open spec fn widget_applies(rw: ResolvedWidget, object_classes: Seq<Seq<char>>) -> bool {
    exists|i: int|
        0 <= i < rw.owner_object_classes@.len() && has_ci(
            object_classes,
            #[trigger] texts(rw.owner_object_classes@)[i],
        )
}

/// The attributes that a password widget covers: the one that holds the password, and those
/// derived from it.
pub open spec fn password_targets(pw: PasswordWidget) -> Seq<Seq<char>> {
    seq![pw.primary@] + texts(pw.derived@)
}

/// A field with a widget.
pub open spec fn bound(f: EditField, kind: WidgetKind) -> EditField {
    EditField { widget_binding: Some(kind), ..f }
}

/// The fields once one widget is attached. A picker goes to the field of its attribute: one that
/// is written elsewhere makes the field editable (unless all is read-only), any other needs an
/// editable field. A choice makes its field editable. A password goes to every field that it
/// covers. Choices and passwords are left out when all is read-only.
pub open spec fn tagged_one(fields: Seq<EditField>, rw: ResolvedWidget, read_only: bool) -> Seq<
    EditField,
> {
    match rw.kind {
        WidgetKind::Picker(b) => match field_named(fields, rw.attr@) {
            Some(i) => if b.fanout_attr is Some {
                fields.update(i, EditField { editable: !read_only, ..bound(fields[i], rw.kind) })
            } else if fields[i].editable {
                fields.update(i, bound(fields[i], rw.kind))
            } else {
                fields
            },
            None => fields,
        },
        WidgetKind::Choice(_) => if read_only {
            fields
        } else {
            match field_named(fields, rw.attr@) {
                Some(i) => fields.update(
                    i,
                    EditField { editable: true, ..bound(fields[i], rw.kind) },
                ),
                None => fields,
            }
        },
        WidgetKind::Password(pw) => if read_only {
            fields
        } else {
            fields.map_values(
                |f: EditField|
                    if has_ci(password_targets(*pw), f.label@) {
                        bound(f, rw.kind)
                    } else {
                        f
                    },
            )
        },
        _ => fields,
    }
}

/// The fields once the widgets that apply are attached, in order.
pub open spec fn tagged(
    fields: Seq<EditField>,
    widgets: Seq<ResolvedWidget>,
    object_classes: Seq<Seq<char>>,
    read_only: bool,
) -> Seq<EditField>
    decreases widgets.len(),
{
    if widgets.len() == 0 {
        fields
    } else {
        let before = tagged(fields, widgets.drop_last(), object_classes, read_only);
        if widget_applies(widgets.last(), object_classes) {
            tagged_one(before, widgets.last(), read_only)
        } else {
            before
        }
    }
}

fn applies(rw: &ResolvedWidget, object_classes: &Vec<String>) -> (r: bool)
    ensures
        r == widget_applies(*rw, texts(object_classes@)),
{
    let mut i: usize = 0;
    while i < rw.owner_object_classes.len()
        invariant
            i <= rw.owner_object_classes@.len(),
            forall|j: int|
                0 <= j < i ==> !has_ci(
                    texts(object_classes@),
                    #[trigger] texts(rw.owner_object_classes@)[j],
                ),
        decreases rw.owner_object_classes@.len() - i,
    {
        if contains_ignore_case(object_classes, &rw.owner_object_classes[i]) {
            assert(has_ci(texts(object_classes@), texts(rw.owner_object_classes@)[i as int]));
            return true;
        }
        i += 1;
    }
    false
}

fn covered(pw: &PasswordWidget, label: &str) -> (r: bool)
    ensures
        r == has_ci(password_targets(*pw), label@),
{
    let ghost t = password_targets(*pw);
    if eq_ignore_case(&pw.primary, label) {
        assert(same_ci(t[0], label@));
        return true;
    }
    let r: bool = contains_ignore_case(&pw.derived, label);
    proof {
        let d = texts(pw.derived@);
        if r {
            let i = choose|i: int| 0 <= i < d.len() && same_ci(#[trigger] d[i], label@);
            assert(t[i + 1] == d[i]);
            assert(same_ci(t[i + 1], label@));
        } else if has_ci(t, label@) {
            let i = choose|i: int| 0 <= i < t.len() && same_ci(#[trigger] t[i], label@);
            assert(i > 0);
            assert(t[i] == d[i - 1]);
            assert(same_ci(d[i - 1], label@));
        }
    }
    r
}

fn tag_one(fields: &mut Vec<EditField>, rw: &ResolvedWidget, read_only: bool)
    ensures
        final(fields)@ == tagged_one(old(fields)@, *rw, read_only),
{
    let ghost start = fields@;
    match &rw.kind {
        WidgetKind::Picker(binding) => match find_field(fields, &rw.attr) {
            Some(i) => {
                if binding.fanout_attr.is_some() {
                    fields[i].editable = !read_only;
                    fields[i].widget_binding = Some(rw.kind.copy());
                } else if fields[i].editable {
                    fields[i].widget_binding = Some(rw.kind.copy());
                }
                assert(fields@ =~= tagged_one(start, *rw, read_only));
            },
            None => {},
        },
        WidgetKind::Choice(_) => {
            if !read_only {
                match find_field(fields, &rw.attr) {
                    Some(i) => {
                        fields[i].widget_binding = Some(rw.kind.copy());
                        fields[i].editable = true;
                        assert(fields@ =~= tagged_one(start, *rw, read_only));
                    },
                    None => {},
                }
            }
        },
        WidgetKind::Password(pw) => {
            if !read_only {
                let ghost goal = tagged_one(start, *rw, read_only);
                let mut i: usize = 0;
                while i < fields.len()
                    invariant
                        i <= fields@.len(),
                        fields@.len() == start.len(),
                        rw.kind == WidgetKind::Password(*pw),
                        !read_only,
                        goal == tagged_one(start, *rw, read_only),
                        forall|j: int| 0 <= j < i ==> fields@[j] == #[trigger] goal[j],
                        forall|j: int| i <= j < start.len() ==> fields@[j] == #[trigger] start[j],
                    decreases fields@.len() - i,
                {
                    assert(goal[i as int] == if has_ci(
                        password_targets(**pw),
                        start[i as int].label@,
                    ) {
                        bound(start[i as int], rw.kind)
                    } else {
                        start[i as int]
                    });
                    if covered(pw, &fields[i].label) {
                        fields[i].widget_binding = Some(rw.kind.copy());
                    }
                    i += 1;
                }
                assert(fields@ =~= goal);
            }
        },
        WidgetKind::Lookup(_) => {},
        WidgetKind::ObjectClassPicker => {},
        WidgetKind::SambaSid => {},
        WidgetKind::NextNumber { .. } => {},
        WidgetKind::Readonly => {},
        WidgetKind::XOrdered => {},
    }
}

/// Attaches each widget that applies to entries of the object classes to its field or fields.
pub fn tag_widget_fields(
    form: &mut EditForm,
    widgets: &Vec<ResolvedWidget>,
    object_classes: &Vec<String>,
    read_only: bool,
)
    ensures
        final(form).fields@ == tagged(
            old(form).fields@,
            widgets@,
            texts(object_classes@),
            read_only,
        ),
        *final(form) == (EditForm { fields: final(form).fields, ..*old(form) }),
{
    let ghost start = form.fields@;
    let ghost form0 = *form;
    let mut i: usize = 0;
    while i < widgets.len()
        invariant
            i <= widgets@.len(),
            *form == (EditForm { fields: form.fields, ..form0 }),
            form.fields@ == tagged(
                start,
                widgets@.take(i as int),
                texts(object_classes@),
                read_only,
            ),
        decreases widgets@.len() - i,
    {
        proof {
            assert(widgets@.take(i + 1).drop_last() =~= widgets@.take(i as int));
        }
        if applies(&widgets[i], object_classes) {
            tag_one(&mut form.fields, &widgets[i], read_only);
        }
        i += 1;
    }
    assert(widgets@.take(widgets@.len() as int) =~= widgets@);
}

/// Where a field stands: first what the entry must have, then what has a value, is secret or is
/// picked, then the rest.
pub open spec fn bucket_of(f: EditField) -> int {
    if f.must {
        0
    } else if current(f).len() > 0 || f.secret || is_picked(f) {
        1
    } else {
        2
    }
}

/// Whether a picker is bound to the field.
pub open spec fn is_picked(f: EditField) -> bool {
    f.widget_binding matches Some(WidgetKind::Picker(_))
}

/// Whether `a` may stand before `b`: in an earlier bucket, or in the same one with a label that
/// does not come later in the alphabet.
pub open spec fn field_le(a: EditField, b: EditField) -> bool {
    bucket_of(a) < bucket_of(b) || (bucket_of(a) == bucket_of(b) && !text_lt(
        lowercase(b.label@),
        lowercase(a.label@),
    ))
}

/// A list in order with one more field: behind every field that may stand before it.
pub open spec fn inserted_field(l: Seq<EditField>, f: EditField) -> Seq<EditField>
    decreases l.len(),
{
    if l.len() == 0 {
        seq![f]
    } else if field_le(l.last(), f) {
        l.push(f)
    } else {
        inserted_field(l.drop_last(), f).push(l.last())
    }
}

/// The fields in order; fields that may stand either way keep their order.
pub open spec fn ordered_fields(fields: Seq<EditField>) -> Seq<EditField>
    decreases fields.len(),
{
    if fields.len() == 0 {
        fields
    } else {
        inserted_field(ordered_fields(fields.drop_last()), fields.last())
    }
}

fn bucket(f: &EditField) -> (b: u8)
    ensures
        b == bucket_of(*f),
{
    if f.must {
        return 0;
    }
    let picked: bool = match &f.widget_binding {
        Some(WidgetKind::Picker(_)) => true,
        _ => false,
    };
    let values: Vec<String> = f.current_values();
    assert(texts(values@).len() == values@.len());
    if values.len() > 0 || f.secret || picked {
        1
    } else {
        2
    }
}

fn may_precede(a: &EditField, b: &EditField) -> (r: bool)
    ensures
        r == field_le(*a, *b),
{
    let x: u8 = bucket(a);
    let y: u8 = bucket(b);
    x < y || (x == y && !text_less(
        &b.label.as_str().to_lowercase(),
        &a.label.as_str().to_lowercase(),
    ))
}

fn insert_field(l: &mut Vec<EditField>, f: EditField)
    ensures
        final(l)@ == inserted_field(old(l)@, f),
{
    let ghost whole = l@;
    let mut i: usize = l.len();
    let ghost goal = inserted_field(whole, f);
    assert(whole.take(whole.len() as int) =~= whole);
    assert(goal + whole.skip(whole.len() as int) =~= goal);
    while i > 0 && !may_precede(&l[i - 1], &f)
        invariant
            i <= whole.len(),
            l@ == whole,
            goal == inserted_field(whole.take(i as int), f) + whole.skip(i as int),
        decreases i,
    {
        proof {
            assert(whole.take(i as int).drop_last() =~= whole.take(i - 1));
            let p = inserted_field(whole.take(i - 1), f);
            assert(p.push(whole[i - 1]) + whole.skip(i as int) =~= p + whole.skip(i - 1));
        }
        i -= 1;
    }
    proof {
        if i > 0 {
            assert(whole.take(i as int).last() == whole[i - 1]);
        }
        assert(whole.insert(i as int, f) =~= goal);
    }
    l.insert(i, f);
}

/// Puts the fields in order: what the entry must have, then what has a value, is secret or is
/// picked, then the rest; each group by label, regardless of case.
pub fn order_fields(form: &mut EditForm)
    ensures
        final(form).fields@ == ordered_fields(old(form).fields@),
        *final(form) == (EditForm { fields: final(form).fields, ..*old(form) }),
{
    let ghost start = form.fields@;
    let mut rest: Vec<EditField> = Vec::new();
    core::mem::swap(&mut rest, &mut form.fields);
    let mut sorted: Vec<EditField> = Vec::new();
    let ghost mut n: int = 0;
    assert(start.take(0) =~= Seq::empty());
    assert(start.skip(0) =~= start);
    while rest.len() > 0
        invariant
            0 <= n <= start.len(),
            rest@ == start.skip(n),
            sorted@ == ordered_fields(start.take(n)),
        decreases rest@.len(),
    {
        let f: EditField = rest.remove(0);
        proof {
            assert(f == start[n]);
            assert(rest@ =~= start.skip(n + 1));
            assert(start.take(n + 1).drop_last() =~= start.take(n));
            assert(start.take(n + 1).last() == start[n]);
        }
        insert_field(&mut sorted, f);
        proof {
            n = n + 1;
        }
    }
    assert(n == start.len());
    assert(start.take(n) =~= start);
    form.fields = sorted;
}

/// Whether the fields of a list are in order.
pub open spec fn in_order(l: Seq<EditField>) -> bool {
    forall|i: int, j: int| 0 <= i < j < l.len() ==> field_le(#[trigger] l[i], #[trigger] l[j])
}

proof fn field_le_total(a: EditField, b: EditField)
    ensures
        field_le(a, b) || field_le(b, a),
{
    if text_lt(lowercase(b.label@), lowercase(a.label@)) {
        text_lt_asymmetric(lowercase(b.label@), lowercase(a.label@));
    }
}

proof fn field_le_transitive(a: EditField, b: EditField, c: EditField)
    requires
        field_le(a, b),
        field_le(b, c),
    ensures
        field_le(a, c),
{
    let x = lowercase(a.label@);
    let y = lowercase(b.label@);
    let z = lowercase(c.label@);
    if bucket_of(a) == bucket_of(c) && text_lt(z, x) {
        crate::order::text_lt_total(y, z);
        crate::order::text_lt_total(x, y);
        if text_lt(y, z) {
            text_lt_transitive(y, z, x);
        }
    }
}

proof fn inserted_in_order(l: Seq<EditField>, f: EditField)
    requires
        in_order(l),
    ensures
        in_order(inserted_field(l, f)),
        inserted_field(l, f).to_multiset() == l.to_multiset().insert(f),
        inserted_field(l, f).len() == l.len() + 1,
        forall|i: int|
            0 <= i < inserted_field(l, f).len() ==> #[trigger] inserted_field(l, f)[i] == f
                || exists|j: int| 0 <= j < l.len() && l[j] == inserted_field(l, f)[i],
    decreases l.len(),
{
    broadcast use vstd::seq_lib::group_to_multiset_ensures;

    let r = inserted_field(l, f);
    if l.len() == 0 {
        assert(l =~= Seq::<EditField>::empty());
        assert(l.push(f) =~= r);
    } else {
        let head = l.drop_last();
        let last = l.last();
        assert(head.push(last) =~= l);
        assert(forall|j: int| 0 <= j < head.len() ==> head[j] == l[j]);
        if field_le(last, f) {
            assert forall|i: int| 0 <= i < r.len() implies #[trigger] r[i] == f || exists|j: int|
                0 <= j < l.len() && l[j] == r[i] by {
                if i < l.len() {
                    assert(l[i] == r[i]);
                }
            }
            assert forall|i: int, j: int| 0 <= i < j < r.len() implies field_le(
                #[trigger] r[i],
                #[trigger] r[j],
            ) by {
                if j < l.len() {
                    assert(field_le(l[i], l[j]));
                } else if i < l.len() - 1 {
                    assert(field_le(l[i], l[l.len() - 1]));
                    field_le_transitive(l[i], last, f);
                }
            }
        } else {
            let h = inserted_field(head, f);
            inserted_in_order(head, f);
            field_le_total(last, f);
            assert forall|i: int| 0 <= i < r.len() implies #[trigger] r[i] == f || exists|j: int|
                0 <= j < l.len() && l[j] == r[i] by {
                if i < h.len() {
                    assert(r[i] == h[i]);
                    if h[i] != f {
                        let j = choose|j: int| 0 <= j < head.len() && head[j] == h[i];
                        assert(l[j] == r[i]);
                    }
                } else {
                    assert(l[l.len() - 1] == r[i]);
                }
            }
            assert forall|i: int, j: int| 0 <= i < j < r.len() implies field_le(
                #[trigger] r[i],
                #[trigger] r[j],
            ) by {
                assert(r[i] == h[i]);
                if j < h.len() {
                    assert(r[j] == h[j]);
                } else if h[i] != f {
                    let k = choose|k: int| 0 <= k < head.len() && head[k] == h[i];
                    assert(field_le(l[k], l[l.len() - 1]));
                }
            }
            assert(r.to_multiset() =~= l.to_multiset().insert(f));
        }
    }
}

/// Ordering only reorders: it neither drops nor adds a field, and leaves the fields in order.
pub proof fn ordering_sorts(fields: Seq<EditField>)
    ensures
        in_order(ordered_fields(fields)),
        ordered_fields(fields).to_multiset() == fields.to_multiset(),
        ordered_fields(fields).len() == fields.len(),
    decreases fields.len(),
{
    broadcast use vstd::seq_lib::group_to_multiset_ensures;

    if fields.len() > 0 {
        ordering_sorts(fields.drop_last());
        inserted_in_order(ordered_fields(fields.drop_last()), fields.last());
        assert(fields.drop_last().push(fields.last()) =~= fields);
    }
}

/// Ordering fields that are in order changes nothing.
pub proof fn ordering_is_stable(fields: Seq<EditField>)
    requires
        in_order(fields),
    ensures
        ordered_fields(fields) == fields,
    decreases fields.len(),
{
    if fields.len() > 0 {
        let head = fields.drop_last();
        assert(forall|j: int| 0 <= j < head.len() ==> head[j] == fields[j]);
        ordering_is_stable(head);
        if head.len() > 0 {
            assert(field_le(fields[fields.len() - 2], fields[fields.len() - 1]));
            assert(head.last() == fields[fields.len() - 2]);
        }
        assert(head.push(fields.last()) =~= fields);
        assert(inserted_field(head, fields.last()) =~= fields);
    }
}

/// An attribute of an entry as read: its values, and what the schema and the naming rules say of
/// it.
pub struct FormField {
    pub label: String,
    pub is_must: bool,
    pub values: Vec<String>,
    pub kind: FieldKind,
    pub widget: WidgetSpec,
    /// Whether the schema allows one value only.
    pub single_valued: bool,
    /// Whether the attribute holds a secret.
    pub secret: bool,
    /// Whether the order of the values matters.
    pub ordered: bool,
}

/// An entry as read: its name and its attributes.
pub struct FormModel {
    pub title: String,
    pub fields: Vec<FormField>,
}

/// Whether an attribute can be edited in the form: not the memberships that the server keeps, not
/// a secret, and no binary data or checkbox.
pub open spec fn editable_kind(f: FormField) -> bool {
    &&& !same_ci(f.label@, "memberOf"@)
    &&& !f.secret
    &&& f.widget is ReadOnlyText
}

/// Whether an attribute can be edited in the form.
pub fn field_is_editable(field: &FormField) -> (b: bool)
    ensures
        b == editable_kind(*field),
{
    if eq_ignore_case(&field.label, "memberOf") {
        return false;
    }
    if field.secret {
        return false;
    }
    match field.widget {
        WidgetSpec::BinaryNote(_) => false,
        WidgetSpec::DisabledCheckBox(_) => false,
        WidgetSpec::ReadOnlyText => true,
    }
}

/// The first of some values, or the empty text.
pub open spec fn first_or_empty(v: Seq<Seq<char>>) -> Seq<char> {
    if v.len() == 0 {
        Seq::empty()
    } else {
        v[0]
    }
}

/// A copy of the first of some values, or the empty text.
pub fn first_value(v: &Vec<String>) -> (r: String)
    ensures
        r@ == first_or_empty(texts(v@)),
{
    if v.len() == 0 {
        String::new()
    } else {
        v[0].clone()
    }
}

/// Whether a field of the form was made from an attribute as read.
pub open spec fn made_from(f: EditField, m: FormField, read_only: bool) -> bool {
    &&& f.label@ == m.label@
    &&& f.must == m.is_must
    &&& f.editable == (!read_only && editable_kind(m))
    &&& f.multi == !m.single_valued
    &&& f.secret == m.secret
    &&& f.ordered == m.ordered
    &&& texts(f.values@) == texts(m.values@)
    &&& f.kind == m.kind
    &&& f.widget == m.widget
    &&& f.editor.model() == (first_or_empty(texts(m.values@)), 0int)
    &&& f.widget_binding is None
    &&& !f.orphaned
}

/// The values of the fields by label.
pub open spec fn baseline_of(fields: Seq<EditField>) -> Seq<Attr>
    decreases fields.len(),
{
    if fields.len() == 0 {
        Seq::empty()
    } else {
        put(
            baseline_of(fields.drop_last()),
            fields.last().label@,
            texts(fields.last().values@),
        )
    }
}

/// Makes the form of an entry as read. The inline edit of each field starts from its first value,
/// and the values as read are kept as the baseline.
pub fn build_edit_form(model: &FormModel, read_only: bool) -> (form: EditForm)
    ensures
        form.dn@ == model.title@,
        form.fields@.len() == model.fields@.len(),
        forall|i: int|
            0 <= i < form.fields@.len() ==> made_from(
                #[trigger] form.fields@[i],
                model.fields@[i],
                read_only,
            ),
        form.baseline@ == baseline_of(form.fields@),
        form.mode is Edit,
        form.pending_password is None,
{
    let mut fields: Vec<EditField> = Vec::new();
    let mut baseline: AttrMap = AttrMap::new();
    let mut i: usize = 0;
    while i < model.fields.len()
        invariant
            i <= model.fields@.len(),
            fields@.len() == i,
            forall|j: int|
                0 <= j < i ==> made_from(#[trigger] fields@[j], model.fields@[j], read_only),
            baseline@ == baseline_of(fields@),
        decreases model.fields@.len() - i,
    {
        let m: &FormField = &model.fields[i];
        let f: EditField = EditField {
            label: m.label.clone(),
            must: m.is_must,
            editable: !read_only && field_is_editable(m),
            multi: !m.single_valued,
            secret: m.secret,
            ordered: m.ordered,
            values: copy_texts(&m.values),
            kind: m.kind,
            widget: m.widget,
            editor: TextInput::with_value(first_value(&m.values)),
            widget_binding: None,
            orphaned: false,
        };
        baseline.insert(m.label.clone(), copy_texts(&m.values));
        let ghost f0 = fields@;
        fields.push(f);
        assert(fields@.drop_last() =~= f0);
        i += 1;
    }
    EditForm {
        dn: model.title.clone(),
        fields,
        baseline,
        mode: FormMode::Edit,
        pending_password: None,
    }
}

/// Whether no two fields have the same label.
pub open spec fn distinct_labels(fields: Seq<EditField>) -> bool {
    forall|i: int, j: int|
        0 <= i < j < fields.len() ==> (#[trigger] fields[i]).label@ != (#[trigger] fields[j]).label@
}

proof fn baseline_holds(fields: Seq<EditField>, i: int)
    requires
        distinct_labels(fields),
        0 <= i < fields.len(),
    ensures
        ascending(baseline_of(fields)),
        values_of(baseline_of(fields), fields[i].label@) == Some(texts(fields[i].values@)),
    decreases fields.len(),
{
    let head = fields.drop_last();
    assert(forall|j: int| 0 <= j < head.len() ==> head[j] == fields[j]);
    let b = baseline_of(head);
    if head.len() > 0 {
        baseline_holds(head, if i < head.len() { i } else { 0 });
    }
    let last = fields.last();
    put_ascending(b, last.label@, texts(last.values@));
    get_after_put(b, last.label@, texts(last.values@), fields[i].label@);
    assert(last == fields[fields.len() - 1]);
}

/// Whether a field shows its values as it has them: a single value that is edited inline stands
/// alone, is not empty, and has no whitespace around it.
pub open spec fn shown_as_is(f: EditField) -> bool {
    f.multi || !f.editable || texts(f.values@).len() == 0 || (texts(f.values@).len() == 1
        && trimmed(texts(f.values@)[0]) == texts(f.values@)[0] && texts(f.values@)[0].len() > 0)
}

/// A form just made from an entry holds no unsaved edits, as long as its labels are distinct and
/// the single values show as they are.
pub proof fn fresh_form_is_clean(form: EditForm, model: FormModel, read_only: bool)
    requires
        form.fields@.len() == model.fields@.len(),
        forall|i: int|
            0 <= i < form.fields@.len() ==> made_from(
                #[trigger] form.fields@[i],
                model.fields@[i],
                read_only,
            ),
        form.baseline@ == baseline_of(form.fields@),
        form.pending_password is None,
        distinct_labels(form.fields@),
        forall|i: int| 0 <= i < form.fields@.len() ==> shown_as_is(#[trigger] form.fields@[i]),
    ensures
        !dirty(form),
{
    assert forall|i: int| 0 <= i < form.fields@.len() implies !field_changed(
        #[trigger] form.fields@[i],
        form.baseline@,
    ) by {
        let f = form.fields@[i];
        baseline_holds(form.fields@, i);
        assert(made_from(f, model.fields@[i], read_only));
        assert(shown_as_is(f));
        same_values_is_symmetric(current(f), current(f));
        if !f.multi && f.editable {
            if texts(f.values@).len() == 0 {
                assert(trimmed(Seq::<char>::empty()) =~= Seq::<char>::empty());
            }
        }
        assert(current(f) =~= texts(f.values@));
    }
}

/// What a field holds as edited: nothing once its attribute is no longer allowed; all its values
/// where there may be many or where it takes no edits; and otherwise what was typed, without the
/// whitespace around it, unless that leaves nothing.
pub proof fn fields_hold_what_was_entered(f: EditField)
    ensures
        f.orphaned ==> current(f).len() == 0,
        !f.orphaned && (f.multi || !f.editable) ==> current(f) == texts(f.values@),
        !f.orphaned && !f.multi && f.editable && trimmed(f.editor.value@).len() > 0 ==> current(f)
            == seq![trimmed(f.editor.value@)],
        !f.orphaned && !f.multi && f.editable && trimmed(f.editor.value@).len() == 0 ==> current(
            f,
        ).len() == 0,
{
}

/// A field is written to other entries exactly when a picker with an attribute of theirs is bound to
/// it.
pub proof fn only_pickers_fan_out(f: EditField, a: Seq<char>)
    ensures
        fanout_of(f) == Some(a) <==> (f.widget_binding matches Some(WidgetKind::Picker(b))
            && b.fanout_attr is Some && b.fanout_attr->0@ == a),
{
}

/// The labels of the fields that are written to other entries, and those of the orphaned fields, are
/// the fields' own, in their order.
pub proof fn labels_are_listed_in_order(fields: Seq<EditField>)
    ensures
        fanout_names(fields) == fields.filter(|f: EditField| fanout_of(f) is Some).map_values(
            |f: EditField| f.label@,
        ),
        orphaned_names(fields) == fields.filter(|f: EditField| f.orphaned).map_values(
            |f: EditField| f.label@,
        ),
    decreases fields.len(),
{
    reveal(Seq::filter);
    let fan = |f: EditField| fanout_of(f) is Some;
    let orphan = |f: EditField| f.orphaned;
    let label = |f: EditField| f.label@;
    if fields.len() > 0 {
        let head = fields.drop_last();
        labels_are_listed_in_order(head);
        assert(head.filter(fan).push(fields.last()).map_values(label) =~= head.filter(
            fan,
        ).map_values(label).push(fields.last().label@));
        assert(head.filter(orphan).push(fields.last()).map_values(label) =~= head.filter(
            orphan,
        ).map_values(label).push(fields.last().label@));
    } else {
        assert(fields.filter(fan).map_values(label) =~= Seq::empty());
        assert(fields.filter(orphan).map_values(label) =~= Seq::empty());
    }
}

/// A label is among those written to other entries exactly when a field has it that is.
pub proof fn fanout_labels_are_found(fields: Seq<EditField>, label: Seq<char>)
    ensures
        fanout_names(fields).contains(label) <==> exists|i: int|
            0 <= i < fields.len() && fanout_of(#[trigger] fields[i]) is Some && fields[i].label@
                == label,
    decreases fields.len(),
{
    let names = fanout_names(fields);
    if fields.len() > 0 {
        let head = fields.drop_last();
        let n = fields.len() - 1;
        let before = fanout_names(head);
        fanout_labels_are_found(head, label);
        assert(fields.last() == fields[n]);
        if names.contains(label) {
            let k = choose|k: int| 0 <= k < names.len() && names[k] == label;
            if k < before.len() {
                assert(before[k] == label);
                let i = choose|i: int|
                    0 <= i < head.len() && fanout_of(#[trigger] head[i]) is Some && head[i].label@
                        == label;
                assert(fanout_of(fields[i]) is Some);
            } else {
                assert(fanout_of(fields[n]) is Some);
            }
        }
        if exists|i: int|
            0 <= i < fields.len() && fanout_of(#[trigger] fields[i]) is Some && fields[i].label@
                == label {
            let i = choose|i: int|
                0 <= i < fields.len() && fanout_of(#[trigger] fields[i]) is Some && fields[i].label@
                    == label;
            if i < n {
                assert(fanout_of(head[i]) is Some);
                let k = choose|k: int| 0 <= k < before.len() && before[k] == label;
                assert(names[k] == label);
            } else {
                assert(names[before.len() as int] == label);
            }
        }
    }
}

proof fn own_attrs_ascend(fields: Seq<EditField>)
    ensures
        ascending(own_attrs(fields)),
    decreases fields.len(),
{
    if fields.len() > 0 {
        own_attrs_ascend(fields.drop_last());
        put_ascending(
            own_attrs(fields.drop_last()),
            fields.last().label@,
            current(fields.last()),
        );
    }
}

/// The entry as edited holds every field under its label with what was entered; where fields share a
/// label, the last one counts. A field that is written to other entries is none of them.
pub proof fn edited_entry_holds_the_fields(fields: Seq<EditField>, i: int)
    requires
        0 <= i < fields.len(),
        fanout_of(fields[i]) is None,
        forall|j: int|
            i < j < fields.len() && fanout_of(#[trigger] fields[j]) is None ==> fields[j].label@
                != fields[i].label@,
    ensures
        values_of(own_attrs(fields), fields[i].label@) == Some(current(fields[i])),
    decreases fields.len(),
{
    let head = fields.drop_last();
    let last = fields.last();
    assert(forall|j: int| 0 <= j < head.len() ==> head[j] == fields[j]);
    assert(last == fields[fields.len() - 1]);
    own_attrs_ascend(head);
    get_after_put(own_attrs(head), last.label@, current(last), fields[i].label@);
    if i < head.len() {
        assert forall|j: int|
            i < j < head.len() && fanout_of(#[trigger] head[j]) is None implies head[j].label@
            != head[i].label@ by {
            assert(head[j] == fields[j]);
        }
        edited_entry_holds_the_fields(head, i);
    }
}

/// The entry as edited holds nothing but its fields.
pub proof fn edited_entry_holds_nothing_else(fields: Seq<EditField>, name: Seq<char>)
    requires
        forall|j: int|
            0 <= j < fields.len() && fanout_of(#[trigger] fields[j]) is None ==> fields[j].label@
                != name,
    ensures
        values_of(own_attrs(fields), name) is None,
    decreases fields.len(),
{
    if fields.len() > 0 {
        let head = fields.drop_last();
        let last = fields.last();
        assert forall|j: int|
            0 <= j < head.len() && fanout_of(#[trigger] head[j]) is None implies head[j].label@
            != name by {
            assert(head[j] == fields[j]);
        }
        assert(last == fields[fields.len() - 1]);
        edited_entry_holds_nothing_else(head, name);
        own_attrs_ascend(head);
        get_after_put(own_attrs(head), last.label@, current(last), name);
    }
}

/// Any value that came, any that went, and any change of their number is an unsaved edit; so is a
/// waiting password.
pub proof fn edits_are_seen(form: EditForm, i: int, v: Seq<char>)
    requires
        0 <= i < form.fields@.len(),
    ensures
        ({
            let now = current(form.fields@[i]);
            let was = values_or_none(form.baseline@, form.fields@[i].label@);
            now.contains(v) != was.contains(v) || now.len() != was.len() || form.pending_password is Some
        }) ==> dirty(form),
{
    let f = form.fields@[i];
    let now = current(f);
    let was = values_or_none(form.baseline@, f.label@);
    if now.contains(v) && !was.contains(v) {
        let k = choose|k: int| 0 <= k < now.len() && now[k] == v;
        assert(!was.contains(now[k]));
        assert(field_changed(f, form.baseline@));
    } else if was.contains(v) && !now.contains(v) {
        let k = choose|k: int| 0 <= k < was.len() && was[k] == v;
        assert(!now.contains(was[k]));
        assert(field_changed(f, form.baseline@));
    } else if now.len() != was.len() {
        assert(field_changed(f, form.baseline@));
    }
}

/// A form whose fields hold the directory's values, in whatever order, has no unsaved edits.
pub proof fn reordered_values_are_no_edit(form: EditForm)
    requires
        form.pending_password is None,
        forall|i: int|
            0 <= i < form.fields@.len() ==> current(#[trigger] form.fields@[i]).to_multiset()
                == values_or_none(form.baseline@, form.fields@[i].label@).to_multiset(),
    ensures
        !dirty(form),
{
    assert forall|i: int| 0 <= i < form.fields@.len() implies !field_changed(
        #[trigger] form.fields@[i],
        form.baseline@,
    ) by {
        reordering_keeps_values(
            current(form.fields@[i]),
            values_or_none(form.baseline@, form.fields@[i].label@),
        );
    }
}

/// A field found by its label has it, up to case, and is the first that does.
pub proof fn fields_are_found_by_label(fields: Seq<EditField>, attr: Seq<char>)
    ensures
        match field_named(fields, attr) {
            Some(i) => 0 <= i < fields.len() && same_ci(fields[i].label@, attr) && forall|j: int|
                0 <= j < i ==> !same_ci((#[trigger] fields[j]).label@, attr),
            None => forall|j: int| 0 <= j < fields.len() ==> !same_ci((#[trigger] fields[j]).label@, attr),
        },
    decreases fields.len(),
{
    if fields.len() > 0 {
        fields_are_found_by_label(fields.drop_last(), attr);
        assert forall|j: int| 0 <= j < fields.len() - 1 implies fields.drop_last()[j]
            == #[trigger] fields[j] by {}
    }
}

/// A widget concerns an entry exactly when the entry has one of the widget's object classes, in any
/// letter case.
pub proof fn widgets_go_by_object_class(rw: ResolvedWidget, object_classes: Seq<Seq<char>>)
    ensures
        widget_applies(rw, object_classes) <==> exists|i: int, j: int|
            0 <= i < rw.owner_object_classes@.len() && 0 <= j < object_classes.len() && same_ci(
                #[trigger] object_classes[j],
                (#[trigger] rw.owner_object_classes@[i])@,
            ),
{
    let own = texts(rw.owner_object_classes@);
    if widget_applies(rw, object_classes) {
        let i = choose|i: int|
            0 <= i < rw.owner_object_classes@.len() && has_ci(object_classes, #[trigger] own[i]);
        let j = choose|j: int| 0 <= j < object_classes.len() && same_ci(#[trigger] object_classes[j], own[i]);
        assert(same_ci(object_classes[j], rw.owner_object_classes@[i]@));
    }
    if exists|i: int, j: int|
        0 <= i < rw.owner_object_classes@.len() && 0 <= j < object_classes.len() && same_ci(
            #[trigger] object_classes[j],
            (#[trigger] rw.owner_object_classes@[i])@,
        ) {
        let (i, j) = choose|i: int, j: int|
            0 <= i < rw.owner_object_classes@.len() && 0 <= j < object_classes.len() && same_ci(
                #[trigger] object_classes[j],
                (#[trigger] rw.owner_object_classes@[i])@,
            );
        assert(same_ci(object_classes[j], own[i]));
        assert(has_ci(object_classes, own[i]));
    }
}

/// Attaching a widget touches which widget a field has and whether it takes edits, and nothing else of
/// it.
pub proof fn widgets_keep_values(fields: Seq<EditField>, rw: ResolvedWidget, read_only: bool, i: int)
    requires
        0 <= i < fields.len(),
    ensures
        tagged_one(fields, rw, read_only).len() == fields.len(),
        tagged_one(fields, rw, read_only)[i] == (EditField {
            widget_binding: tagged_one(fields, rw, read_only)[i].widget_binding,
            editable: tagged_one(fields, rw, read_only)[i].editable,
            ..fields[i]
        }),
        tagged_one(fields, rw, read_only)[i].widget_binding == fields[i].widget_binding
            || tagged_one(fields, rw, read_only)[i].widget_binding == Some(rw.kind),
{
    fields_are_found_by_label(fields, rw.attr@);
}

/// A choice is bound to the field of its attribute, which then takes edits; where nothing may be
/// edited it is bound to none.
pub proof fn choices_are_bound(fields: Seq<EditField>, rw: ResolvedWidget, read_only: bool, i: int)
    requires
        rw.kind is Choice,
        0 <= i < fields.len(),
        same_ci(fields[i].label@, rw.attr@),
        forall|j: int| 0 <= j < i ==> !same_ci((#[trigger] fields[j]).label@, rw.attr@),
    ensures
        read_only ==> tagged_one(fields, rw, read_only) == fields,
        !read_only ==> tagged_one(fields, rw, read_only)[i].widget_binding == Some(rw.kind)
            && tagged_one(fields, rw, read_only)[i].editable,
        forall|j: int|
            0 <= j < fields.len() && j != i ==> #[trigger] tagged_one(fields, rw, read_only)[j]
                == fields[j],
{
    fields_are_found_by_label(fields, rw.attr@);
}

/// A picker is bound to the field of its attribute: one that is written to other entries always, and
/// the field then takes edits unless nothing may be edited; any other one only where the field takes
/// edits.
pub proof fn pickers_are_bound(fields: Seq<EditField>, rw: ResolvedWidget, read_only: bool, i: int)
    requires
        rw.kind is Picker,
        0 <= i < fields.len(),
        same_ci(fields[i].label@, rw.attr@),
        forall|j: int| 0 <= j < i ==> !same_ci((#[trigger] fields[j]).label@, rw.attr@),
    ensures
        ({
            let f = tagged_one(fields, rw, read_only)[i];
            let fans = rw.kind->Picker_0.fanout_attr is Some;
            &&& fans ==> f.widget_binding == Some(rw.kind) && f.editable == !read_only
            &&& !fans && fields[i].editable ==> f.widget_binding == Some(rw.kind) && f.editable
            &&& !fans && !fields[i].editable ==> f == fields[i]
        }),
        forall|j: int|
            0 <= j < fields.len() && j != i ==> #[trigger] tagged_one(fields, rw, read_only)[j]
                == fields[j],
{
    fields_are_found_by_label(fields, rw.attr@);
}

/// A password widget is bound to the field that holds the password and to every field derived from
/// it, in any letter case, and to no other; whether a field takes edits stays as it was.
pub proof fn passwords_are_bound(fields: Seq<EditField>, rw: ResolvedWidget, read_only: bool, i: int)
    requires
        rw.kind is Password,
        0 <= i < fields.len(),
    ensures
        ({
            let f = tagged_one(fields, rw, read_only)[i];
            let pw = *rw.kind->Password_0;
            let covered = same_ci(pw.primary@, fields[i].label@) || exists|k: int|
                0 <= k < pw.derived@.len() && same_ci(
                    (#[trigger] pw.derived@[k])@,
                    fields[i].label@,
                );
            &&& f.editable == fields[i].editable
            &&& covered && !read_only ==> f.widget_binding == Some(rw.kind)
            &&& !covered || read_only ==> f == fields[i]
        }),
{
    let pw = *rw.kind->Password_0;
    let label = fields[i].label@;
    let t = password_targets(pw);
    let d = texts(pw.derived@);
    if has_ci(t, label) {
        let k = choose|k: int| 0 <= k < t.len() && same_ci(#[trigger] t[k], label);
        if k > 0 {
            assert(t[k] == d[k - 1]);
            assert(same_ci(pw.derived@[k - 1]@, label));
        } else {
            assert(t[0] == pw.primary@);
        }
    }
    if same_ci(pw.primary@, label) {
        assert(same_ci(t[0], label));
    }
    if exists|k: int| 0 <= k < pw.derived@.len() && same_ci((#[trigger] pw.derived@[k])@, label) {
        let k = choose|k: int|
            0 <= k < pw.derived@.len() && same_ci((#[trigger] pw.derived@[k])@, label);
        assert(t[k + 1] == d[k]);
        assert(same_ci(t[k + 1], label));
    }
}

/// Widgets without a field, and kinds that are bound elsewhere, change nothing.
pub proof fn other_widgets_change_nothing(
    fields: Seq<EditField>,
    rw: ResolvedWidget,
    read_only: bool,
)
    requires
        !(rw.kind is Password),
        rw.kind is Picker || rw.kind is Choice ==> forall|j: int|
            0 <= j < fields.len() ==> !same_ci((#[trigger] fields[j]).label@, rw.attr@),
    ensures
        tagged_one(fields, rw, read_only) == fields,
{
    fields_are_found_by_label(fields, rw.attr@);
}

/// Widgets are attached one after the other, each that concerns the entry and no other.
pub proof fn widgets_are_attached_in_turn(
    fields: Seq<EditField>,
    widgets: Seq<ResolvedWidget>,
    rw: ResolvedWidget,
    object_classes: Seq<Seq<char>>,
    read_only: bool,
)
    ensures
        tagged(fields, Seq::<ResolvedWidget>::empty(), object_classes, read_only) == fields,
        widget_applies(rw, object_classes) ==> tagged(
            fields,
            widgets.push(rw),
            object_classes,
            read_only,
        ) == tagged_one(tagged(fields, widgets, object_classes, read_only), rw, read_only),
        !widget_applies(rw, object_classes) ==> tagged(
            fields,
            widgets.push(rw),
            object_classes,
            read_only,
        ) == tagged(fields, widgets, object_classes, read_only),
{
    assert(widgets.push(rw).drop_last() =~= widgets);
}

/// In order, the fields that an entry must have come first; of the others those that have a value, are
/// secret or are picked; and among equals the labels ascend regardless of case.
pub proof fn required_fields_come_first(fields: Seq<EditField>, i: int, j: int)
    requires
        0 <= i < j < fields.len(),
    ensures
        ({
            let a = ordered_fields(fields)[i];
            let b = ordered_fields(fields)[j];
            let used = |f: EditField|
                current(f).len() > 0 || f.secret || (f.widget_binding matches Some(WidgetKind::Picker(_)));
            &&& b.must ==> a.must
            &&& !a.must && !b.must && used(b) ==> used(a)
            &&& a.must == b.must && (a.must || used(a) == used(b)) ==> !text_lt(
                lowercase(b.label@),
                lowercase(a.label@),
            )
        }),
{
    ordering_sorts(fields);
    let l = ordered_fields(fields);
    assert(field_le(l[i], l[j]));
}

/// The fields that may stand either way with `key`, in order.
pub open spec fn level_with(fields: Seq<EditField>, key: EditField) -> Seq<EditField> {
    fields.filter(|x: EditField| field_le(x, key) && field_le(key, x))
}

proof fn level_with_push(l: Seq<EditField>, f: EditField, key: EditField)
    ensures
        level_with(l.push(f), key) == if field_le(f, key) && field_le(key, f) {
            level_with(l, key).push(f)
        } else {
            level_with(l, key)
        },
{
    reveal(Seq::filter);
    assert(l.push(f).drop_last() =~= l);
}

proof fn inserting_keeps_equals(l: Seq<EditField>, f: EditField, key: EditField)
    requires
        in_order(l),
    ensures
        level_with(inserted_field(l, f), key) == level_with(l.push(f), key),
    decreases l.len(),
{
    level_with_push(l, f, key);
    if l.len() == 0 {
        assert(l.push(f) =~= seq![f]);
    } else if !field_le(l.last(), f) {
        let head = l.drop_last();
        assert(forall|j: int| 0 <= j < head.len() ==> head[j] == l[j]);
        inserting_keeps_equals(head, f, key);
        assert(head.push(l.last()) =~= l);
        level_with_push(head, l.last(), key);
        level_with_push(head, f, key);
        level_with_push(inserted_field(head, f), l.last(), key);
        if field_le(l.last(), key) && field_le(key, f) {
            field_le_transitive(l.last(), key, f);
        }
    }
}

/// Fields that may stand either way keep their order.
pub proof fn equal_fields_keep_their_order(fields: Seq<EditField>, key: EditField)
    ensures
        level_with(ordered_fields(fields), key) == level_with(fields, key),
    decreases fields.len(),
{
    if fields.len() > 0 {
        let head = fields.drop_last();
        let sorted = ordered_fields(head);
        equal_fields_keep_their_order(head, key);
        ordering_sorts(head);
        inserting_keeps_equals(sorted, fields.last(), key);
        level_with_push(sorted, fields.last(), key);
        level_with_push(head, fields.last(), key);
        assert(head.push(fields.last()) =~= fields);
    }
}

/// The form of an entry as read shows each attribute in a field of its own: under its name, with its
/// values, the first of them in the inline edit, open to edits unless all is read-only or the
/// attribute is kept by the server, a secret, binary or a checkbox.
pub proof fn fresh_fields_show_the_attributes(f: EditField, m: FormField, read_only: bool)
    requires
        made_from(f, m, read_only),
    ensures
        f.label@ == m.label@,
        f.values@.len() == m.values@.len(),
        forall|i: int| 0 <= i < m.values@.len() ==> (#[trigger] f.values@[i])@ == m.values@[i]@,
        m.values@.len() > 0 ==> f.editor.value@ == m.values@[0]@,
        m.values@.len() == 0 ==> f.editor.value@.len() == 0,
        f.editable <==> !read_only && !same_ci(f.label@, "memberOf"@) && !f.secret
            && m.widget is ReadOnlyText,
        f.multi <==> !m.single_valued,
        f.must <==> m.is_must,
        f.secret <==> m.secret,
        f.ordered <==> m.ordered,
        f.widget == m.widget && f.kind == m.kind,
        f.widget_binding is None && !f.orphaned,
{
    assert forall|i: int| 0 <= i < m.values@.len() implies (#[trigger] f.values@[i])@
        == m.values@[i]@ by {
        assert(texts(f.values@)[i] == f.values@[i]@);
        assert(texts(m.values@)[i] == m.values@[i]@);
    }
    assert(texts(f.values@).len() == f.values@.len());
    assert(texts(m.values@).len() == m.values@.len());
}

/// The baseline of a fresh form holds each field's values under its label.
pub proof fn baseline_holds_the_values(fields: Seq<EditField>, i: int)
    requires
        distinct_labels(fields),
        0 <= i < fields.len(),
    ensures
        values_of(baseline_of(fields), fields[i].label@) == Some(texts(fields[i].values@)),
{
    baseline_holds(fields, i);
}

} // verus!
