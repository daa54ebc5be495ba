//! Composing a new entry: its form, filling in defaults, and the confirmation before it is added.
use vstd::prelude::*;
use vstd::string::*;

use crate::app::{App, Overlay, Pane, PendingAction};
use crate::attrs::{put, values_ci, values_of, Attr, AttrEntry, AttrMap};
use crate::changes::{error_message, format_validation_errors, EditEntry, ValidationError};
use crate::edit_form::{
    baseline_of, bound, build_edit_form, field_named, fields_are_found_by_label, find_field,
    first_or_empty, first_value, made_from, order_fields, ordered_fields, own_attrs,
    tag_widget_fields, tagged, widgets_keep_values, EditField, EditForm, FormMode, FormModel,
};
use crate::passwords::{all_hidden, mask_password_attrs};
use crate::profiles::EntryProfile;
use crate::text::{
    concat3, copy_texts, decimal, decimal_of, eq_ignore_case, same_ci, texts, trim, trimmed,
};
use crate::widgets::{ResolvedWidget, WidgetKind};

verus! {

/// The fields of a new entry: each editable one holds one value, so that it is typed inline.
pub open spec fn single_valued(fields: Seq<EditField>) -> Seq<EditField> {
    fields.map_values(
        |f: EditField|
            if f.editable {
                EditField { multi: false, ..f }
            } else {
                f
            },
    )
}

/// The place of the first field of the object classes that takes edits.
pub open spec fn class_field(fields: Seq<EditField>) -> Option<int>
    decreases fields.len(),
{
    if fields.len() == 0 {
        None
    } else {
        match class_field(fields.drop_last()) {
            Some(i) => Some(i),
            None => if same_ci(fields.last().label@, "objectClass"@) && fields.last().editable {
                Some(fields.len() - 1)
            } else {
                None
            },
        }
    }
}

/// The fields with the list of object classes bound to the field that holds them.
pub open spec fn with_class_picker(fields: Seq<EditField>) -> Seq<EditField> {
    match class_field(fields) {
        Some(i) => fields.update(i, bound(fields[i], WidgetKind::ObjectClassPicker)),
        None => fields,
    }
}

proof fn class_field_prefix(fields: Seq<EditField>, n: int)
    requires
        0 <= n <= fields.len(),
        class_field(fields.take(n)) is Some,
    ensures
        class_field(fields) == class_field(fields.take(n)),
    decreases fields.len() - n,
{
    if n < fields.len() {
        assert(fields.take(n + 1).drop_last() =~= fields.take(n));
        class_field_prefix(fields, n + 1);
    } else {
        assert(fields.take(n) =~= fields);
    }
}

fn bind_class_picker(fields: &mut Vec<EditField>)
    ensures
        final(fields)@ == with_class_picker(old(fields)@),
{
    let ghost start = fields@;
    let mut i: usize = 0;
    while i < fields.len()
        invariant
            i <= fields@.len(),
            fields@ == start,
            start == old(fields)@,
            class_field(start.take(i as int)) is None,
        decreases fields@.len() - i,
    {
        proof {
            assert(start.take(i + 1).drop_last() =~= start.take(i as int));
        }
        if eq_ignore_case(&fields[i].label, "objectClass") && fields[i].editable {
            proof {
                class_field_prefix(start, i + 1);
            }
            fields[i].widget_binding = Some(WidgetKind::ObjectClassPicker);
            assert(fields@ =~= with_class_picker(start));
            return;
        }
        i += 1;
    }
    assert(start.take(start.len() as int) =~= start);
}

fn make_single(fields: &mut Vec<EditField>)
    ensures
        final(fields)@ == single_valued(old(fields)@),
{
    let ghost start = fields@;
    let ghost goal = single_valued(start);
    let mut i: usize = 0;
    while i < fields.len()
        invariant
            i <= fields@.len(),
            fields@.len() == start.len(),
            goal == single_valued(start),
            forall|j: int| 0 <= j < i ==> fields@[j] == #[trigger] goal[j],
            forall|j: int| i <= j < start.len() ==> fields@[j] == #[trigger] start[j],
        decreases fields@.len() - i,
    {
        assert(goal[i as int] == if start[i as int].editable {
            EditField { multi: false, ..start[i as int] }
        } else {
            start[i as int]
        });
        if fields[i].editable {
            fields[i].multi = false;
        }
        i += 1;
    }
    assert(fields@ =~= goal);
}

/// The widget that a list gives to an attribute: the first one under its name, in any letter case.
pub open spec fn kind_for(kinds: Seq<(String, WidgetKind)>, label: Seq<char>) -> Option<WidgetKind>
    decreases kinds.len(),
{
    if kinds.len() == 0 {
        None
    } else {
        match kind_for(kinds.drop_last(), label) {
            Some(k) => Some(k),
            None => if same_ci(kinds.last().0@, label) {
                Some(kinds.last().1)
            } else {
                None
            },
        }
    }
}

/// The fields with each that has no widget yet bound to the one that a list gives to its attribute.
pub open spec fn with_kinds(fields: Seq<EditField>, kinds: Seq<(String, WidgetKind)>) -> Seq<EditField> {
    fields.map_values(
        |f: EditField|
            match (f.widget_binding, kind_for(kinds, f.label@)) {
                (None, Some(k)) => bound(f, k),
                _ => f,
            },
    )
}

proof fn kind_for_prefix(kinds: Seq<(String, WidgetKind)>, label: Seq<char>, n: int)
    requires
        0 <= n <= kinds.len(),
        kind_for(kinds.take(n), label) is Some,
    ensures
        kind_for(kinds, label) == kind_for(kinds.take(n), label),
    decreases kinds.len() - n,
{
    if n < kinds.len() {
        assert(kinds.take(n + 1).drop_last() =~= kinds.take(n));
        kind_for_prefix(kinds, label, n + 1);
    } else {
        assert(kinds.take(n) =~= kinds);
    }
}

fn find_kind(kinds: &Vec<(String, WidgetKind)>, label: &str) -> (r: Option<WidgetKind>)
    ensures
        r == kind_for(kinds@, label@),
{
    let mut i: usize = 0;
    while i < kinds.len()
        invariant
            i <= kinds@.len(),
            kind_for(kinds@.take(i as int), label@) is None,
        decreases kinds@.len() - i,
    {
        proof {
            assert(kinds@.take(i + 1).drop_last() =~= kinds@.take(i as int));
        }
        if eq_ignore_case(&kinds[i].0, label) {
            proof {
                kind_for_prefix(kinds@, label@, i + 1);
            }
            return Some(kinds[i].1.copy());
        }
        i += 1;
    }
    assert(kinds@.take(kinds@.len() as int) =~= kinds@);
    None
}

fn bind_kinds(fields: &mut Vec<EditField>, kinds: &Vec<(String, WidgetKind)>)
    ensures
        final(fields)@ == with_kinds(old(fields)@, kinds@),
{
    let ghost start = fields@;
    let ghost goal = with_kinds(start, kinds@);
    let mut i: usize = 0;
    while i < fields.len()
        invariant
            i <= fields@.len(),
            fields@.len() == start.len(),
            goal == with_kinds(start, kinds@),
            forall|j: int| 0 <= j < i ==> fields@[j] == #[trigger] goal[j],
            forall|j: int| i <= j < start.len() ==> fields@[j] == #[trigger] start[j],
        decreases fields@.len() - i,
    {
        assert(fields@[i as int] == start[i as int]);
        if fields[i].widget_binding.is_none() {
            match find_kind(kinds, &fields[i].label) {
                Some(k) => {
                    fields[i].widget_binding = Some(k);
                },
                None => {},
            }
        }
        assert(fields@[i as int] == goal[i as int]);
        i += 1;
    }
    assert(fields@ =~= goal);
}

/// The fields with the next free number of a range bound to the field of each attribute that is
/// numbered.
pub open spec fn with_numbers(fields: Seq<EditField>, numbers: Seq<(String, u64, u64)>) -> Seq<
    EditField,
>
    decreases numbers.len(),
{
    if numbers.len() == 0 {
        fields
    } else {
        let before = with_numbers(fields, numbers.drop_last());
        let (attr, min, max) = numbers.last();
        match field_named(before, attr@) {
            Some(i) => before.update(i, bound(before[i], WidgetKind::NextNumber { min, max })),
            None => before,
        }
    }
}

fn bind_numbers(fields: &mut Vec<EditField>, numbers: &Vec<(String, u64, u64)>)
    ensures
        final(fields)@ == with_numbers(old(fields)@, numbers@),
{
    let ghost start = fields@;
    let mut k: usize = 0;
    assert(numbers@.take(0) =~= Seq::empty());
    while k < numbers.len()
        invariant
            k <= numbers@.len(),
            fields@ == with_numbers(start, numbers@.take(k as int)),
        decreases numbers@.len() - k,
    {
        let ghost before = fields@;
        proof {
            assert(numbers@.take(k + 1).drop_last() =~= numbers@.take(k as int));
        }
        match find_field(fields, &numbers[k].0) {
            Some(i) => {
                let (min, max) = (numbers[k].1, numbers[k].2);
                fields[i].widget_binding = Some(WidgetKind::NextNumber { min, max });
                assert(fields@ =~= before.update(
                    i as int,
                    bound(before[i as int], WidgetKind::NextNumber { min, max }),
                ));
            },
            None => {},
        }
        k += 1;
    }
    assert(numbers@.take(numbers@.len() as int) =~= numbers@);
}

/// What the schema says of an attribute never replaces a widget that its field already has.
pub proof fn configured_widgets_stay(
    fields: Seq<EditField>,
    kinds: Seq<(String, WidgetKind)>,
    i: int,
)
    requires
        0 <= i < fields.len(),
        fields[i].widget_binding is Some,
    ensures
        with_kinds(fields, kinds)[i] == fields[i],
{
}

proof fn field_named_same(a: Seq<EditField>, b: Seq<EditField>, attr: Seq<char>)
    requires
        a.len() == b.len(),
        forall|i: int| 0 <= i < a.len() ==> (#[trigger] a[i]).label == b[i].label,
    ensures
        field_named(a, attr) == field_named(b, attr),
        field_named(a, attr) is Some ==> 0 <= field_named(a, attr)->0 < a.len(),
    decreases a.len(),
{
    if a.len() > 0 {
        let x = a.drop_last();
        let y = b.drop_last();
        assert forall|i: int| 0 <= i < x.len() implies (#[trigger] x[i]).label == y[i].label by {
            assert(x[i] == a[i]);
        }
        field_named_same(x, y, attr);
        assert(a[a.len() - 1].label == b[b.len() - 1].label);
    }
}

proof fn numbers_only_bind(fields: Seq<EditField>, numbers: Seq<(String, u64, u64)>)
    ensures
        with_numbers(fields, numbers).len() == fields.len(),
        forall|i: int|
            0 <= i < fields.len() ==> (#[trigger] with_numbers(fields, numbers)[i]) == fields[i] || (
            with_numbers(fields, numbers)[i].label == fields[i].label && with_numbers(
                fields,
                numbers,
            )[i].widget_binding matches Some(WidgetKind::NextNumber { .. })),
    decreases numbers.len(),
{
    if numbers.len() > 0 {
        let head = numbers.drop_last();
        numbers_only_bind(fields, head);
        field_named_same(
            with_numbers(fields, head),
            with_numbers(fields, head),
            numbers.last().0@,
        );
    }
}

/// The field of every attribute that is numbered is bound to the next free number, so that Enter
/// finds it.
pub proof fn numbered_fields_are_bound(
    fields: Seq<EditField>,
    numbers: Seq<(String, u64, u64)>,
    k: int,
    i: int,
)
    requires
        0 <= k < numbers.len(),
        field_named(fields, numbers[k].0@) == Some(i),
    ensures
        0 <= i < fields.len(),
        with_numbers(fields, numbers)[i].widget_binding matches Some(WidgetKind::NextNumber { .. }),
    decreases numbers.len(),
{
    let head = numbers.drop_last();
    let before = with_numbers(fields, head);
    numbers_only_bind(fields, head);
    assert forall|j: int| 0 <= j < before.len() implies (#[trigger] before[j]).label
        == fields[j].label by {}
    field_named_same(before, fields, numbers[k].0@);
    field_named_same(before, before, numbers.last().0@);
    if k < head.len() {
        numbered_fields_are_bound(fields, head, k, i);
    }
}

/// Whether a form is the one just made from an entry as read.
pub open spec fn built_from(form: EditForm, model: FormModel, read_only: bool) -> bool {
    &&& form.dn@ == model.title@
    &&& form.fields@.len() == model.fields@.len()
    &&& forall|i: int|
        0 <= i < form.fields@.len() ==> made_from(
            #[trigger] form.fields@[i],
            model.fields@[i],
            read_only,
        )
    &&& form.baseline@ == baseline_of(form.fields@)
    &&& form.mode is Edit
    &&& form.pending_password is None
}

/// What the fields of a new entry are bound to beside the configured widgets: what the schema says of
/// an attribute, and the ranges of the numbers that defaults call for.
pub struct NewEntryBindings {
    pub kinds: Vec<(String, WidgetKind)>,
    pub numbers: Vec<(String, u64, u64)>,
}

/// The fields of a new entry of a profile, from those just made. A configured widget goes before
/// what the schema says of the attribute; the list of object classes and the numbers go before
/// both.
pub open spec fn new_entry_fields(
    fields: Seq<EditField>,
    widgets: Seq<ResolvedWidget>,
    bindings: NewEntryBindings,
    object_classes: Seq<Seq<char>>,
) -> Seq<EditField> {
    let configured = tagged(single_valued(fields), widgets, object_classes, false);
    ordered_fields(
        with_numbers(
            with_class_picker(with_kinds(configured, bindings.kinds@)),
            bindings.numbers@,
        ),
    )
}

/// Whether a form composes a new entry of a profile: `base` is the form just made from the
/// profile's empty entry.
pub open spec fn composed_from(
    form: EditForm,
    base: EditForm,
    widgets: Seq<ResolvedWidget>,
    bindings: NewEntryBindings,
    object_classes: Seq<Seq<char>>,
    profile_idx: usize,
    container: Seq<char>,
) -> bool {
    &&& form == (EditForm { fields: form.fields, mode: form.mode, ..base })
    &&& form.fields@ == new_entry_fields(base.fields@, widgets, bindings, object_classes)
    &&& form.mode matches FormMode::Create { profile_idx: i, container: c } && i == profile_idx && c@
        == container
}

/// Makes the form that composes a new entry of a profile, to be added under `container`. `model` is
/// the profile's empty entry. Widgets go by the object classes of the profile; a field whose number
/// is to be found is bound to the range, so that Enter finds it.
pub fn build_new_entry_form(
    model: &FormModel,
    profile: &EntryProfile,
    widgets: &Vec<ResolvedWidget>,
    bindings: &NewEntryBindings,
    profile_idx: usize,
    container: String,
) -> (form: EditForm)
    ensures
        exists|base: EditForm|
            built_from(base, *model, false) && #[trigger] composed_from(
                form,
                base,
                widgets@,
                *bindings,
                texts(profile.object_classes@),
                profile_idx,
                container@,
            ),
{
    let mut form: EditForm = build_edit_form(model, false);
    let ghost base = form;
    make_single(&mut form.fields);
    form.mode = FormMode::Create { profile_idx, container };
    tag_widget_fields(&mut form, widgets, &profile.object_classes, false);
    bind_kinds(&mut form.fields, &bindings.kinds);
    bind_class_picker(&mut form.fields);
    bind_numbers(&mut form.fields, &bindings.numbers);
    order_fields(&mut form);
    proof {
        assert(built_from(base, *model, false));
        assert(composed_from(
            form,
            base,
            widgets@,
            *bindings,
            texts(profile.object_classes@),
            profile_idx,
            container@,
        ));
    }
    form
}

/// Makes the form of an entry as read, with the widgets that apply to its object classes.
pub fn build_loaded_form(model: &FormModel, read_only: bool, widgets: &Vec<ResolvedWidget>) -> (form:
    EditForm)
    ensures
        loaded_from(form, *model, read_only, widgets@),
{
    let mut form: EditForm = build_edit_form(model, read_only);
    let ghost base = form;
    let ocs: Vec<String> = crate::app::object_classes_of(&form);
    tag_widget_fields(&mut form, widgets, &ocs, read_only);
    order_fields(&mut form);
    proof {
        assert(built_from(base, *model, read_only));
        assert(dressed(form, base, read_only, widgets@));
    }
    form
}

/// Whether a form is another with its widgets attached and its fields in order.
pub open spec fn dressed(
    form: EditForm,
    base: EditForm,
    read_only: bool,
    widgets: Seq<ResolvedWidget>,
) -> bool {
    &&& form == (EditForm { fields: form.fields, ..base })
    &&& form.fields@ == ordered_fields(
        tagged(base.fields@, widgets, crate::app::object_classes(base), read_only),
    )
}

/// Whether a form is the one that an entry as read is shown in.
pub open spec fn loaded_from(
    form: EditForm,
    model: FormModel,
    read_only: bool,
    widgets: Seq<ResolvedWidget>,
) -> bool {
    exists|base: EditForm|
        built_from(base, model, read_only) && #[trigger] dressed(form, base, read_only, widgets)
}

/// Where a new entry of a profile goes: its home, or the base where it has none.
pub open spec fn container_of(profile: EntryProfile, base_dn: Seq<char>) -> Seq<char> {
    if profile.search_base@.len() == 0 {
        base_dn
    } else {
        profile.search_base@
    }
}

/// Whether `new` is `old` with a form that composes a new entry of a profile.
pub open spec fn create_opened(
    old: App,
    new: App,
    profiles: Seq<EntryProfile>,
    i: usize,
    base_dn: Seq<char>,
    model: FormModel,
    bindings: NewEntryBindings,
) -> bool {
    if i >= profiles.len() {
        new == old
    } else {
        let p = profiles[i as int];
        &&& new == (App {
            form: new.form,
            form_focus: 0,
            form_scroll: 0,
            overlay: None,
            focus: Pane::Form,
            status: new.status,
            ..old
        })
        &&& new.form is Some
        &&& exists|base: EditForm|
            built_from(base, model, false) && #[trigger] composed_from(
                new.form->0,
                base,
                old.widgets@,
                bindings,
                texts(p.object_classes@),
                i,
                container_of(p, base_dn),
            )
        &&& new.status@ == "New "@ + p.name@
            + " — fill fields, Alt+S to create, Esc to cancel."@
    }
}

/// Opens a form that composes a new entry of a profile, and moves the focus to it. `model` is the
/// profile's empty entry, and `bindings` what its fields are bound to.
pub fn open_create_form(
    app: &mut App,
    profiles: &Vec<EntryProfile>,
    i: usize,
    base_dn: &str,
    model: &FormModel,
    bindings: &NewEntryBindings,
)
    ensures
        create_opened(*old(app), *final(app), profiles@, i, base_dn@, *model, *bindings),
{
    if i >= profiles.len() {
        return;
    }
    let profile: &EntryProfile = &profiles[i];
    let container: String = if profile.search_base.as_str().is_empty() {
        base_dn.to_owned()
    } else {
        profile.search_base.clone()
    };
    assert(container@ == container_of(*profile, base_dn@));
    let form: EditForm = build_new_entry_form(
        model,
        profile,
        &app.widgets,
        bindings,
        i,
        container,
    );
    let ghost made = form;
    app.form = Some(form);
    app.form_focus = 0;
    app.form_scroll = 0;
    app.overlay = None;
    app.focus = Pane::Form;
    app.status = concat3(
        "New ",
        &profile.name,
        " — fill fields, Alt+S to create, Esc to cancel.",
    );
    proof {
        let p = profiles@[i as int];
        let base = choose|base: EditForm|
            built_from(base, *model, false) && #[trigger] composed_from(
                made,
                base,
                old(app).widgets@,
                *bindings,
                texts(p.object_classes@),
                i,
                container_of(p, base_dn@),
            );
        assert(composed_from(
            app.form->0,
            base,
            old(app).widgets@,
            *bindings,
            texts(p.object_classes@),
            i,
            container_of(p, base_dn@),
        ));
    }
}

/// A new entry that is ready to be filled in and checked.
pub struct CreateDraft {
    pub profile_idx: usize,
    pub container: String,
    pub edited: EditEntry,
    pub password: Option<String>,
}

/// What the start of a creation comes to.
pub enum CreateStart {
    /// The form composes no new entry of a profile.
    Nothing,
    /// It was refused, and a message says why.
    Refused,
    /// The entry as typed.
    Draft(CreateDraft),
}

/// Whether a form composes an entry of one of the profiles.
pub open spec fn composes_of(form: Option<EditForm>, profiles: int) -> bool {
    match form {
        Some(f) => match f.mode {
            FormMode::Create { profile_idx, container } => profile_idx < profiles,
            FormMode::Edit => false,
        },
        None => false,
    }
}

/// Whether `new`, with the draft, is `old` at the start of a creation. A waiting password is
/// refused over a connection that is not encrypted.
pub open spec fn create_started(old: App, new: App, profiles: int, r: CreateStart) -> bool {
    if !composes_of(old.form, profiles) {
        new == old && r is Nothing
    } else {
        let f = old.form->0;
        if f.pending_password is Some && !old.connection_encrypted {
            &&& r is Refused
            &&& new == (App { overlay: new.overlay, ..old })
            &&& new.overlay matches Some(Overlay::Error { text }) && text@
                == "password change requires an encrypted connection"@
        } else {
            &&& new == old
            &&& r matches CreateStart::Draft(d) && {
                &&& f.mode matches FormMode::Create { profile_idx, container } && d.profile_idx
                    == profile_idx && d.container@ == container@
                &&& d.edited.dn@ == f.dn@
                &&& d.edited.attrs@ == own_attrs(f.fields@)
                &&& match (d.password, f.pending_password) {
                    (Some(a), Some(b)) => a@ == b@,
                    (None, None) => true,
                    _ => false,
                }
            }
        }
    }
}

/// Starts the creation of the entry that the form composes.
pub fn start_create(app: &mut App, profiles: usize) -> (r: CreateStart)
    ensures
        create_started(*old(app), *final(app), profiles as int, r),
{
    let mut refused: bool = false;
    let mut start: CreateStart = CreateStart::Nothing;
    match &app.form {
        None => {},
        Some(form) => match &form.mode {
            FormMode::Edit => {},
            FormMode::Create { profile_idx, container } => {
                if *profile_idx < profiles {
                    if form.pending_password.is_some() && !app.connection_encrypted {
                        refused = true;
                        start = CreateStart::Refused;
                    } else {
                        start =
                        CreateStart::Draft(
                            CreateDraft {
                                profile_idx: *profile_idx,
                                container: container.clone(),
                                edited: form.to_edit_entry(),
                                password: match &form.pending_password {
                                    Some(p) => Some(p.clone()),
                                    None => None,
                                },
                            },
                        );
                    }
                }
            },
        },
    }
    if refused {
        app.overlay = Some(
            Overlay::Error {
                text: "password change requires an encrypted connection".to_owned(),
            },
        );
    }
    start
}

/// What a profile's default comes to for an attribute that is still empty.
pub enum Resolution {
    /// A value to fill in.
    Fill { attr: String, value: String },
    /// The next free number in a range.
    NeedsAutonumber { attr: String, min: u64, max: u64 },
}

/// The attributes with the values of the defaults filled in.
pub open spec fn filled_in(l: Seq<Attr>, res: Seq<Resolution>) -> Seq<Attr>
    decreases res.len(),
{
    if res.len() == 0 {
        l
    } else {
        let before = filled_in(l, res.drop_last());
        match res.last() {
            Resolution::Fill { attr, value } => put(before, attr@, seq![value@]),
            Resolution::NeedsAutonumber { .. } => before,
        }
    }
}

/// The numbers that defaults call for: attribute and range.
pub open spec fn numbers_wanted(res: Seq<Resolution>) -> Seq<(Seq<char>, u64, u64)>
    decreases res.len(),
{
    if res.len() == 0 {
        Seq::empty()
    } else {
        let before = numbers_wanted(res.drop_last());
        match res.last() {
            Resolution::Fill { .. } => before,
            Resolution::NeedsAutonumber { attr, min, max } => before.push((attr@, min, max)),
        }
    }
}

/// Attributes and ranges as mathematical values.
pub open spec fn ranges(v: Seq<(String, u64, u64)>) -> Seq<(Seq<char>, u64, u64)> {
    v.map_values(|t: (String, u64, u64)| (t.0@, t.1, t.2))
}

fn one(value: &str) -> (r: Vec<String>)
    ensures
        texts(r@) == seq![value@],
{
    let mut r: Vec<String> = Vec::new();
    r.push(value.to_owned());
    assert(texts(r@) =~= seq![value@]);
    r
}

/// Fills in the values of a profile's defaults, and gives back the numbers that still have to be
/// found.
pub fn apply_static_defaults(res: &Vec<Resolution>, attrs: &mut AttrMap) -> (r: Vec<
    (String, u64, u64),
>)
    ensures
        final(attrs)@ == filled_in(old(attrs)@, res@),
        ranges(r@) == numbers_wanted(res@),
{
    let ghost start = attrs@;
    let mut out: Vec<(String, u64, u64)> = Vec::new();
    let mut i: usize = 0;
    assert(res@.take(0) =~= Seq::empty());
    assert(ranges(out@) =~= Seq::empty());
    while i < res.len()
        invariant
            i <= res@.len(),
            attrs@ == filled_in(start, res@.take(i as int)),
            ranges(out@) == numbers_wanted(res@.take(i as int)),
        decreases res@.len() - i,
    {
        proof {
            assert(res@.take(i + 1).drop_last() =~= res@.take(i as int));
        }
        match &res[i] {
            Resolution::Fill { attr, value } => {
                attrs.insert(attr.clone(), one(value));
            },
            Resolution::NeedsAutonumber { attr, min, max } => {
                let ghost o0 = out@;
                out.push((attr.clone(), *min, *max));
                assert(ranges(out@) =~= ranges(o0).push((attr@, *min, *max)));
            },
        }
        i += 1;
    }
    assert(res@.take(res@.len() as int) =~= res@);
    out
}

/// Fills in a number that was found.
pub fn fill_number(attrs: &mut AttrMap, attr: String, n: u64)
    ensures
        final(attrs)@ == put(old(attrs)@, attr@, seq![decimal_of(n as nat)]),
{
    attrs.insert(attr, one(&decimal(n)));
}

/// The trimmed value of the attribute that names an entry; empty when there is none.
pub open spec fn naming_value(l: Seq<Attr>, rdn_attr: Seq<char>) -> Seq<char> {
    match values_ci(l, rdn_attr) {
        Some(v) => trimmed(first_or_empty(v)),
        None => Seq::empty(),
    }
}

/// The value that names a new entry. An entry without one cannot be created.
pub fn rdn_value(attrs: &AttrMap, rdn_attr: &str) -> (r: Result<String, String>)
    ensures
        ({
            let v = naming_value(attrs@, rdn_attr@);
            if v.len() == 0 {
                r matches Err(e) && e@ == "The RDN attribute must have a value."@
            } else {
                r matches Ok(s) && s@ == v
            }
        }),
{
    let v: String = match attrs.get_ci(rdn_attr) {
        Some(vs) => trim(&first_value(vs)),
        None => String::new(),
    };
    if v.as_str().is_empty() {
        Err("The RDN attribute must have a value.".to_owned())
    } else {
        Ok(v)
    }
}

/// The attributes with those of a password put in.
pub open spec fn with_added(l: Seq<Attr>, added: Seq<AttrEntry>) -> Seq<Attr>
    decreases added.len(),
{
    if added.len() == 0 {
        l
    } else {
        put(
            with_added(l, added.drop_last()),
            added.last().name@,
            texts(added.last().values@),
        )
    }
}

/// Puts the attributes of a password into a new entry, and gives back the entry as the preview shows
/// it: the password, its Samba hash and the time that was set are hidden.
pub fn fold_create_password(attrs: &mut AttrMap, added: &Vec<AttrEntry>, primary: &str) -> (preview:
    AttrMap)
    ensures
        final(attrs)@ == with_added(old(attrs)@, added@),
        preview@ == all_hidden(final(attrs)@, primary@),
{
    let ghost start = attrs@;
    let mut i: usize = 0;
    assert(added@.take(0) =~= Seq::empty());
    while i < added.len()
        invariant
            i <= added@.len(),
            attrs@ == with_added(start, added@.take(i as int)),
        decreases added@.len() - i,
    {
        proof {
            assert(added@.take(i + 1).drop_last() =~= added@.take(i as int));
        }
        attrs.insert(added[i].name.clone(), copy_texts(&added[i].values));
        i += 1;
    }
    assert(added@.take(added@.len() as int) =~= added@);
    mask_password_attrs(attrs, primary)
}

/// A new entry that passed or failed validation.
pub enum CreatePrep {
    /// It can be confirmed.
    Confirm { dn: String, attrs: AttrMap, container: String },
    /// It cannot be created.
    Error(String),
}

/// Whether a plan is that of a composed entry in which these problems were found.
pub open spec fn create_checked(
    r: CreatePrep,
    full: EditEntry,
    errors: Seq<ValidationError>,
    container: Seq<char>,
) -> bool {
    if errors.len() > 0 {
        r matches CreatePrep::Error(text) && text@ == error_message(errors)
    } else {
        r matches CreatePrep::Confirm { dn, attrs, container: c } && dn == full.dn && attrs
            == full.attrs && c@ == container
    }
}

/// Plans the creation of a composed entry from what its validation found.
pub fn check_create(full: EditEntry, errors: &Vec<ValidationError>, container: &str) -> (r: CreatePrep)
    ensures
        create_checked(r, full, errors@, container@),
{
    if errors.len() > 0 {
        return CreatePrep::Error(format_validation_errors(errors));
    }
    CreatePrep::Confirm { dn: full.dn, attrs: full.attrs, container: container.to_owned() }
}

/// Whether a plan is that of an entry with these edited attributes: without a naming value nothing
/// is composed.
pub open spec fn create_planned<
    B: Fn(&EntryProfile, &str, &str, &EditEntry) -> EditEntry,
    V: Fn(&EditEntry, &Vec<String>) -> Vec<ValidationError>,
>(
    r: CreatePrep,
    profile: &EntryProfile,
    container: &str,
    edited: &EditEntry,
    build: B,
    validate: V,
) -> bool {
    let v = naming_value(edited.attrs@, profile.rdn_attr@);
    if v.len() == 0 {
        r matches CreatePrep::Error(text) && text@ == "The RDN attribute must have a value."@
    } else {
        exists|rdn: &str, full: EditEntry, errors: Vec<ValidationError>|
            {
                &&& rdn@ == v
                &&& #[trigger] call_ensures(build, (profile, container, rdn, edited), full)
                &&& #[trigger] call_ensures(validate, (&full, &profile.object_classes), errors)
                &&& create_checked(r, full, errors@, container@)
            }
    }
}

/// Plans the creation of an entry from its edited attributes: `build` composes the entry with the
/// value that names it, and `validate` checks it against the object classes of the profile.
pub fn plan_create<
    B: Fn(&EntryProfile, &str, &str, &EditEntry) -> EditEntry,
    V: Fn(&EditEntry, &Vec<String>) -> Vec<ValidationError>,
>(
    profile: &EntryProfile,
    container: &str,
    edited: &EditEntry,
    build: B,
    validate: V,
) -> (r: CreatePrep)
    requires
        forall|v: &str| call_requires(build, (profile, container, v, edited)),
        forall|e: &EditEntry| call_requires(validate, (e, &profile.object_classes)),
    ensures
        create_planned(r, profile, container, edited, build, validate),
{
    let rdn: String = match rdn_value(&edited.attrs, &profile.rdn_attr) {
        Ok(v) => v,
        Err(e) => return CreatePrep::Error(e),
    };
    let full: EditEntry = build(profile, container, rdn.as_str(), edited);
    let errors: Vec<ValidationError> = validate(&full, &profile.object_classes);
    check_create(full, &errors, container)
}

/// Whether `new` is `old` with the dialog for a planned creation.
pub open spec fn create_shown(old: App, new: App, prep: CreatePrep, body: String) -> bool {
    &&& new == (App { overlay: new.overlay, ..old })
    &&& match prep {
        CreatePrep::Confirm { dn, attrs, container } => new.overlay matches Some(
            Overlay::Confirm { title, body: b, action },
        ) && title@ == "Create this entry?"@ && b == body && action == (PendingAction::Create {
            dn,
            attrs,
            parent: container,
        }),
        CreatePrep::Error(text) => new.overlay == Some(Overlay::Error { text }),
    }
}

/// Shows the dialog for a planned creation; `body` is its preview in words.
pub fn show_create(app: &mut App, prep: CreatePrep, body: String)
    ensures
        create_shown(*old(app), *final(app), prep, body),
{
    match prep {
        CreatePrep::Confirm { dn, attrs, container } => {
            app.overlay = Some(
                Overlay::Confirm {
                    title: "Create this entry?".to_owned(),
                    body,
                    action: PendingAction::Create { dn, attrs, parent: container },
                },
            );
        },
        CreatePrep::Error(text) => {
            app.overlay = Some(Overlay::Error { text });
        },
    }
}

/// In the form of a new entry every field that takes edits is typed inline; nothing else of a field
/// changes for that.
pub proof fn new_entries_are_typed_inline(fields: Seq<EditField>, i: int)
    requires
        0 <= i < fields.len(),
    ensures
        single_valued(fields).len() == fields.len(),
        fields[i].editable ==> single_valued(fields)[i] == (EditField { multi: false, ..fields[i] }),
        !fields[i].editable ==> single_valued(fields)[i] == fields[i],
{
}

/// The list of object classes is bound to the first field of that name that takes edits, and to no
/// other.
pub proof fn object_classes_get_their_list(fields: Seq<EditField>, i: int)
    requires
        0 <= i < fields.len(),
    ensures
        with_class_picker(fields).len() == fields.len(),
        same_ci(fields[i].label@, "objectClass"@) && fields[i].editable && (forall|j: int|
            0 <= j < i ==> !(same_ci((#[trigger] fields[j]).label@, "objectClass"@)
                && fields[j].editable)) ==> with_class_picker(fields)[i].widget_binding == Some(
            WidgetKind::ObjectClassPicker,
        ),
        !(same_ci(fields[i].label@, "objectClass"@) && fields[i].editable) ==> with_class_picker(
            fields,
        )[i] == fields[i],
        with_class_picker(fields)[i] == (EditField {
            widget_binding: with_class_picker(fields)[i].widget_binding,
            ..fields[i]
        }),
{
    class_field_found(fields);
    match class_field(fields) {
        Some(k) => {
            assert(same_ci(fields[k].label@, "objectClass"@) && fields[k].editable);
        },
        None => {},
    }
}

proof fn class_field_found(fields: Seq<EditField>)
    ensures
        match class_field(fields) {
            Some(i) => 0 <= i < fields.len() && same_ci(fields[i].label@, "objectClass"@)
                && fields[i].editable && forall|j: int|
                0 <= j < i ==> !(same_ci((#[trigger] fields[j]).label@, "objectClass"@)
                    && fields[j].editable),
            None => forall|j: int|
                0 <= j < fields.len() ==> !(same_ci((#[trigger] fields[j]).label@, "objectClass"@)
                    && fields[j].editable),
        },
    decreases fields.len(),
{
    if fields.len() > 0 {
        class_field_found(fields.drop_last());
        assert forall|j: int| 0 <= j < fields.len() - 1 implies fields.drop_last()[j]
            == #[trigger] fields[j] by {}
    }
}

/// What the schema says of an attribute is bound to its field, under the first name that fits in any
/// letter case, where the field has no widget yet; nothing else changes.
pub proof fn the_schema_binds_what_is_free(
    fields: Seq<EditField>,
    kinds: Seq<(String, WidgetKind)>,
    i: int,
    k: int,
)
    requires
        0 <= i < fields.len(),
    ensures
        with_kinds(fields, kinds).len() == fields.len(),
        with_kinds(fields, kinds)[i] == (EditField {
            widget_binding: with_kinds(fields, kinds)[i].widget_binding,
            ..fields[i]
        }),
        fields[i].widget_binding is None && 0 <= k < kinds.len() && same_ci(
            kinds[k].0@,
            fields[i].label@,
        ) && (forall|j: int| 0 <= j < k ==> !same_ci((#[trigger] kinds[j]).0@, fields[i].label@))
            ==> with_kinds(fields, kinds)[i].widget_binding == Some(kinds[k].1),
        (forall|j: int| 0 <= j < kinds.len() ==> !same_ci((#[trigger] kinds[j]).0@, fields[i].label@))
            ==> with_kinds(fields, kinds)[i] == fields[i],
{
    let label = fields[i].label@;
    if 0 <= k < kinds.len() && same_ci(kinds[k].0@, label) && (forall|j: int|
        0 <= j < k ==> !same_ci((#[trigger] kinds[j]).0@, label)) {
        kind_found(kinds, label, k);
    }
    if forall|j: int| 0 <= j < kinds.len() ==> !same_ci((#[trigger] kinds[j]).0@, label) {
        no_kind(kinds, label);
    }
}

proof fn kind_found(kinds: Seq<(String, WidgetKind)>, label: Seq<char>, k: int)
    requires
        0 <= k < kinds.len(),
        same_ci(kinds[k].0@, label),
        forall|j: int| 0 <= j < k ==> !same_ci((#[trigger] kinds[j]).0@, label),
    ensures
        kind_for(kinds, label) == Some(kinds[k].1),
    decreases kinds.len(),
{
    let head = kinds.drop_last();
    assert(forall|j: int| 0 <= j < head.len() ==> head[j] == kinds[j]);
    if k < head.len() {
        kind_found(head, label, k);
    } else {
        no_kind(head, label);
    }
}

proof fn no_kind(kinds: Seq<(String, WidgetKind)>, label: Seq<char>)
    requires
        forall|j: int| 0 <= j < kinds.len() ==> !same_ci((#[trigger] kinds[j]).0@, label),
    ensures
        kind_for(kinds, label) is None,
    decreases kinds.len(),
{
    if kinds.len() > 0 {
        let head = kinds.drop_last();
        assert(kinds.last() == kinds[kinds.len() - 1]);
        assert(forall|j: int| 0 <= j < head.len() ==> head[j] == kinds[j]);
        no_kind(head, label);
    }
}

/// A numbered field is bound to the range that is given for its attribute, the last one where there are
/// several; a field whose attribute is not numbered stays as it is.
pub proof fn numbered_fields_know_their_range(
    fields: Seq<EditField>,
    numbers: Seq<(String, u64, u64)>,
    k: int,
    i: int,
)
    requires
        0 <= i < fields.len(),
    ensures
        with_numbers(fields, numbers).len() == fields.len(),
        with_numbers(fields, numbers)[i] == (EditField {
            widget_binding: with_numbers(fields, numbers)[i].widget_binding,
            ..fields[i]
        }),
        0 <= k < numbers.len() && field_named(fields, numbers[k].0@) == Some(i) && (forall|m: int|
            k < m < numbers.len() ==> !same_ci(fields[i].label@, (#[trigger] numbers[m]).0@))
            ==> with_numbers(fields, numbers)[i].widget_binding == Some(
            WidgetKind::NextNumber { min: numbers[k].1, max: numbers[k].2 },
        ),
        (forall|m: int|
            0 <= m < numbers.len() ==> !same_ci(fields[i].label@, (#[trigger] numbers[m]).0@))
            ==> with_numbers(fields, numbers)[i] == fields[i],
    decreases numbers.len(),
{
    if numbers.len() > 0 {
        let head = numbers.drop_last();
        let last = numbers.last();
        let n = numbers.len() - 1;
        let before = with_numbers(fields, head);
        assert(last == numbers[n]);
        assert(forall|m: int| 0 <= m < n ==> head[m] == numbers[m]);
        numbered_fields_know_their_range(fields, head, k, i);
        numbers_only_bind(fields, head);
        assert forall|j: int| 0 <= j < before.len() implies (#[trigger] before[j]).label
            == fields[j].label by {}
        field_named_same(before, fields, last.0@);
        fields_are_found_by_label(fields, last.0@);
    }
}

/// The form of a new entry has every field of the profile's empty entry, with its label, its values and
/// its text, in order; only widgets, and how a field takes edits, are added.
pub proof fn new_entry_forms_have_every_field(
    fields: Seq<EditField>,
    widgets: Seq<ResolvedWidget>,
    bindings: NewEntryBindings,
    object_classes: Seq<Seq<char>>,
)
    ensures
        exists|all: Seq<EditField>|
            {
                &&& all.len() == fields.len()
                &&& #[trigger] all.to_multiset() == new_entry_fields(
                    fields,
                    widgets,
                    bindings,
                    object_classes,
                ).to_multiset()
                &&& forall|i: int|
                    0 <= i < all.len() ==> (#[trigger] all[i]) == (EditField {
                        multi: all[i].multi,
                        editable: all[i].editable,
                        widget_binding: all[i].widget_binding,
                        ..fields[i]
                    })
            },
        crate::edit_form::in_order(new_entry_fields(fields, widgets, bindings, object_classes)),
{
    let a = single_valued(fields);
    let b = tagged(a, widgets, object_classes, false);
    let c = with_kinds(b, bindings.kinds@);
    let d = with_class_picker(c);
    let e = with_numbers(d, bindings.numbers@);
    crate::edit_form::ordering_sorts(e);
    tagging_keeps_fields(a, widgets, object_classes, false);
    numbers_only_bind(d, bindings.numbers@);
    class_field_found(c);
    assert(e.len() == fields.len());
    assert forall|i: int| 0 <= i < e.len() implies (#[trigger] e[i]) == (EditField {
        multi: e[i].multi,
        editable: e[i].editable,
        widget_binding: e[i].widget_binding,
        ..fields[i]
    }) by {
        assert(b[i] == (EditField {
            editable: b[i].editable,
            widget_binding: b[i].widget_binding,
            ..a[i]
        }));
        object_classes_get_their_list(c, i);
        the_schema_binds_what_is_free(b, bindings.kinds@, i, 0);
        numbered_fields_know_their_range(d, bindings.numbers@, 0, i);
    }
    assert(e.to_multiset() == ordered_fields(e).to_multiset());
}

proof fn tagging_keeps_fields(
    fields: Seq<EditField>,
    widgets: Seq<ResolvedWidget>,
    object_classes: Seq<Seq<char>>,
    read_only: bool,
)
    ensures
        tagged(fields, widgets, object_classes, read_only).len() == fields.len(),
        forall|i: int|
            0 <= i < fields.len() ==> (#[trigger] tagged(fields, widgets, object_classes, read_only)[i])
                == (EditField {
                editable: tagged(fields, widgets, object_classes, read_only)[i].editable,
                widget_binding: tagged(fields, widgets, object_classes, read_only)[i].widget_binding,
                ..fields[i]
            }),
    decreases widgets.len(),
{
    if widgets.len() > 0 {
        let head = widgets.drop_last();
        let before = tagged(fields, head, object_classes, read_only);
        tagging_keeps_fields(fields, head, object_classes, read_only);
        assert forall|i: int| 0 <= i < fields.len() implies (#[trigger] tagged(
            fields,
            widgets,
            object_classes,
            read_only,
        )[i]) == (EditField {
            editable: tagged(fields, widgets, object_classes, read_only)[i].editable,
            widget_binding: tagged(fields, widgets, object_classes, read_only)[i].widget_binding,
            ..fields[i]
        }) by {
            assert(before[i] == before[i]);
            widgets_keep_values(before, widgets.last(), read_only, i);
        }
        if fields.len() > 0 {
            widgets_keep_values(before, widgets.last(), read_only, 0);
        } else {
            fields_are_found_by_label(before, widgets.last().attr@);
        }
    }
}

/// The form that composes a new entry knows its profile and its container, starts from the empty
/// entry's values, and has no password waiting.
pub proof fn new_entry_forms_know_their_profile(
    old: App,
    new: App,
    profiles: Seq<EntryProfile>,
    i: usize,
    base_dn: Seq<char>,
    model: FormModel,
    bindings: NewEntryBindings,
)
    requires
        create_opened(old, new, profiles, i, base_dn, model, bindings),
    ensures
        i >= profiles.len() ==> new == old,
        i < profiles.len() ==> {
            &&& new.form is Some && new.focus == Pane::Form && new.overlay is None
            &&& new.form_focus == 0 && new.form_scroll == 0
            &&& new.form->0.mode matches FormMode::Create { profile_idx, container } && profile_idx == i
                && container@ == (if profiles[i as int].search_base@.len() > 0 {
                profiles[i as int].search_base@
            } else {
                base_dn
            })
            &&& new.form->0.dn@ == model.title@ && new.form->0.pending_password is None
            &&& new.form->0.fields@.len() == model.fields@.len()
            &&& new.status@ == "New "@ + profiles[i as int].name@
                + " — fill fields, Alt+S to create, Esc to cancel."@
            &&& new.should_quit == old.should_quit && new.rows == old.rows
        },
{
    if i < profiles.len() {
        let p = profiles[i as int];
        let ocs = texts(p.object_classes@);
        let base = choose|base: EditForm|
            built_from(base, model, false) && #[trigger] composed_from(
                new.form->0,
                base,
                old.widgets@,
                bindings,
                ocs,
                i,
                container_of(p, base_dn),
            );
        new_entry_forms_have_every_field(base.fields@, old.widgets@, bindings, ocs);
        let a = single_valued(base.fields@);
        let b = tagged(a, old.widgets@, ocs, false);
        let d = with_class_picker(with_kinds(b, bindings.kinds@));
        tagging_keeps_fields(a, old.widgets@, ocs, false);
        numbers_only_bind(d, bindings.numbers@);
        class_field_found(with_kinds(b, bindings.kinds@));
        crate::edit_form::ordering_sorts(with_numbers(d, bindings.numbers@));
    }
}

/// The form of an entry as read keeps the entry's name and every attribute, in order, with what the
/// directory gave as its baseline; a form just read waits for no password and composes nothing.
pub proof fn loaded_forms_have_every_field(
    form: EditForm,
    model: FormModel,
    read_only: bool,
    widgets: Seq<ResolvedWidget>,
)
    requires
        loaded_from(form, model, read_only, widgets),
    ensures
        form.dn@ == model.title@,
        form.fields@.len() == model.fields@.len(),
        form.mode is Edit && form.pending_password is None,
        crate::edit_form::in_order(form.fields@),
        exists|all: Seq<EditField>|
            {
                &&& all.len() == model.fields@.len()
                &&& #[trigger] all.to_multiset() == form.fields@.to_multiset()
                &&& forall|i: int|
                    0 <= i < all.len() ==> (#[trigger] all[i]).label@ == model.fields@[i].label@
                        && texts(all[i].values@) == texts(model.fields@[i].values@) && all[i].must
                        == model.fields@[i].is_must && all[i].multi == !model.fields@[i].single_valued
            },
{
    let base = choose|base: EditForm|
        built_from(base, model, read_only) && #[trigger] dressed(form, base, read_only, widgets);
    let ocs = crate::app::object_classes(base);
    let all = tagged(base.fields@, widgets, ocs, read_only);
    tagging_keeps_fields(base.fields@, widgets, ocs, read_only);
    crate::edit_form::ordering_sorts(all);
    assert forall|i: int| 0 <= i < all.len() implies (#[trigger] all[i]).label@
        == model.fields@[i].label@ && texts(all[i].values@) == texts(model.fields@[i].values@)
        && all[i].must == model.fields@[i].is_must && all[i].multi
        == !model.fields@[i].single_valued by {
        assert(all[i] == (EditField {
            editable: all[i].editable,
            widget_binding: all[i].widget_binding,
            ..base.fields@[i]
        }));
        assert(made_from(base.fields@[i], model.fields@[i], read_only));
    }
    assert(all.to_multiset() == form.fields@.to_multiset());
}

/// A creation starts from what was typed into the form, for its profile and container, with the waiting
/// password; over a plain connection a password is refused, and a form that composes no entry of a
/// profile starts nothing.
pub proof fn creations_start_from_the_form(old: App, new: App, profiles: int, r: CreateStart)
    requires
        create_started(old, new, profiles, r),
    ensures
        r is Nothing <==> !(old.form is Some && (old.form->0.mode matches FormMode::Create {
            profile_idx,
            container,
        } && profile_idx < profiles)),
        r is Refused ==> old.form is Some && old.form->0.pending_password is Some
            && !old.connection_encrypted && (new.overlay matches Some(Overlay::Error { text }) && text@
            == "password change requires an encrypted connection"@),
        r matches CreateStart::Draft(d) ==> new == old && old.form is Some && (
        old.form->0.pending_password is None || old.connection_encrypted) && d.edited.attrs@
            == own_attrs(old.form->0.fields@) && (old.form->0.mode matches FormMode::Create {
            profile_idx,
            container,
        } && d.profile_idx == profile_idx && d.container@ == container@) && (d.password is Some
            <==> old.form->0.pending_password is Some) && (d.password matches Some(p) ==> p@
            == old.form->0.pending_password->0@),
        new.form == old.form,
{
}

/// Filling in defaults keeps the attributes in order.
pub proof fn filled_keeps_order(l: Seq<Attr>, res: Seq<Resolution>)
    requires
        crate::attrs::ascending(l),
    ensures
        crate::attrs::ascending(filled_in(l, res)),
    decreases res.len(),
{
    if res.len() > 0 {
        filled_keeps_order(l, res.drop_last());
        if let Resolution::Fill { attr, value } = res.last() {
            crate::attrs::put_ascending(filled_in(l, res.drop_last()), attr@, seq![value@]);
        }
    }
}

/// A default that comes to a value is what the attribute then holds, the last one where there are
/// several; attributes without such a default keep what they have.
pub proof fn defaults_fill_their_attribute(l: Seq<Attr>, res: Seq<Resolution>, k: int, name: Seq<char>)
    requires
        crate::attrs::ascending(l),
    ensures
        0 <= k < res.len() && (res[k] matches Resolution::Fill { attr, value } && attr@ == name) && (
        forall|m: int|
            k < m < res.len() ==> !((#[trigger] res[m]) matches Resolution::Fill { attr, value } && attr@
                == name)) ==> values_of(filled_in(l, res), name) == Some(seq![res[k]->value@]),
        (forall|m: int|
            0 <= m < res.len() ==> !((#[trigger] res[m]) matches Resolution::Fill { attr, value } && attr@
                == name)) ==> values_of(filled_in(l, res), name) == values_of(l, name),
    decreases res.len(),
{
    if res.len() > 0 {
        let head = res.drop_last();
        let n = res.len() - 1;
        assert(res.last() == res[n]);
        assert(forall|m: int| 0 <= m < n ==> head[m] == res[m]);
        defaults_fill_their_attribute(l, head, k, name);
        filled_keeps_order(l, head);
        if let Resolution::Fill { attr, value } = res.last() {
            crate::attrs::get_after_put(filled_in(l, head), attr@, seq![value@], name);
        }
    }
}

/// The numbers that are still to be found are those that defaults call for, each with its attribute
/// and its range, in order.
pub proof fn numbers_are_asked_for_in_order(res: Seq<Resolution>)
    ensures
        numbers_wanted(res) == res.filter_map(
            |r: Resolution|
                match r {
                    Resolution::NeedsAutonumber { attr, min, max } => Some((attr@, min, max)),
                    Resolution::Fill { .. } => None,
                },
        ),
    decreases res.len(),
{
    reveal(Seq::filter_map);
    if res.len() > 0 {
        numbers_are_asked_for_in_order(res.drop_last());
    }
}

/// The value that names an entry is the first one of the naming attribute, in any letter case, without
/// the whitespace around it; without one there is no name.
pub proof fn entries_are_named_by_their_first_value(l: Seq<Attr>, rdn_attr: Seq<char>, i: int)
    ensures
        0 <= i < l.len() && same_ci(l[i].0, rdn_attr) && (forall|j: int|
            0 <= j < i ==> !same_ci((#[trigger] l[j]).0, rdn_attr)) && l[i].1.len() > 0 ==> naming_value(
            l,
            rdn_attr,
        ) == trimmed(l[i].1[0]),
        (forall|j: int| 0 <= j < l.len() ==> !same_ci((#[trigger] l[j]).0, rdn_attr)) ==> naming_value(
            l,
            rdn_attr,
        ).len() == 0,
{
    crate::attrs::first_ci_found(l, rdn_attr);
    match crate::attrs::first_ci(l, rdn_attr) {
        Some(k) => {
            assert(same_ci(l[k].0, rdn_attr));
        },
        None => {},
    }
}

proof fn added_ascends(l: Seq<Attr>, added: Seq<AttrEntry>)
    requires
        crate::attrs::ascending(l),
    ensures
        crate::attrs::ascending(with_added(l, added)),
    decreases added.len(),
{
    if added.len() > 0 {
        let last = added.last();
        added_ascends(l, added.drop_last());
        crate::attrs::put_ascending(
            with_added(l, added.drop_last()),
            last.name@,
            texts(last.values@),
        );
    }
}

/// A new entry holds every attribute of its password, with its values, and every other attribute as it
/// was.
pub proof fn passwords_are_added(l: Seq<Attr>, added: Seq<AttrEntry>, k: int, name: Seq<char>)
    requires
        crate::attrs::ascending(l),
    ensures
        0 <= k < added.len() && added[k].name@ == name && (forall|m: int|
            k < m < added.len() ==> (#[trigger] added[m]).name@ != name) ==> values_of(
            with_added(l, added),
            name,
        ) == Some(texts(added[k].values@)),
        (forall|m: int| 0 <= m < added.len() ==> (#[trigger] added[m]).name@ != name) ==> values_of(
            with_added(l, added),
            name,
        ) == values_of(l, name),
    decreases added.len(),
{
    if added.len() > 0 {
        let head = added.drop_last();
        let n = added.len() - 1;
        assert(added.last() == added[n]);
        assert(forall|m: int| 0 <= m < n ==> head[m] == added[m]);
        passwords_are_added(l, head, k, name);
        added_ascends(l, head);
        crate::attrs::get_after_put(
            with_added(l, head),
            added.last().name@,
            texts(added.last().values@),
            name,
        );
    }
}

/// An entry is composed only with a name. Composed as `full`, it is confirmed as it is where it is
/// valid, and otherwise its problems are told.
pub proof fn composed_entries_are_checked<
    B: Fn(&EntryProfile, &str, &str, &EditEntry) -> EditEntry,
    V: Fn(&EditEntry, &Vec<String>) -> Vec<ValidationError>,
>(
    r: CreatePrep,
    profile: &EntryProfile,
    container: &str,
    edited: &EditEntry,
    build: B,
    validate: V,
)
    requires
        create_planned(r, profile, container, edited, build, validate),
    ensures
        naming_value(edited.attrs@, profile.rdn_attr@).len() == 0 ==> (r matches CreatePrep::Error(text)
            && text@ == "The RDN attribute must have a value."@),
        r matches CreatePrep::Confirm { dn, attrs, container: c } ==> c@ == container@ && naming_value(
            edited.attrs@,
            profile.rdn_attr@,
        ).len() > 0 && exists|rdn: &str, full: EditEntry, errors: Vec<ValidationError>|
            {
                &&& #[trigger] call_ensures(build, (profile, container, rdn, edited), full)
                &&& #[trigger] call_ensures(validate, (&full, &profile.object_classes), errors)
                &&& rdn@ == naming_value(edited.attrs@, profile.rdn_attr@)
                &&& errors@.len() == 0
                &&& dn@ == full.dn@ && attrs@ == full.attrs@
            },
        naming_value(edited.attrs@, profile.rdn_attr@).len() > 0 ==> (r matches CreatePrep::Error(text)
            ==> exists|full: EditEntry, errors: Vec<ValidationError>|
            {
                &&& #[trigger] call_ensures(validate, (&full, &profile.object_classes), errors)
                &&& errors@.len() > 0
                &&& text@ == error_message(errors@)
            }),
{
}

/// A planned creation asks first, with its preview, and a yes adds the entry as it was planned; one that
/// cannot be made is explained.
pub proof fn creations_are_asked_about(old: App, new: App, prep: CreatePrep, body: String)
    requires
        create_shown(old, new, prep, body),
    ensures
        new.form == old.form && new.status == old.status,
        prep matches CreatePrep::Confirm { dn, attrs, container } ==> (new.overlay matches Some(
            Overlay::Confirm { title, body: b, action },
        ) && title@ == "Create this entry?"@ && b@ == body@ && (action matches PendingAction::Create {
            dn: d,
            attrs: a,
            parent,
        } && d@ == dn@ && a@ == attrs@ && parent@ == container@)),
        prep matches CreatePrep::Error(text) ==> new.overlay == Some(Overlay::Error { text }),
{
}

/// The form of an entry as read compares edits with the values that were read: under each label that no
/// other field has, the baseline holds that field's values.
pub proof fn edits_start_from_what_was_read(form: EditForm, model: FormModel, read_only: bool, i: int)
    requires
        built_from(form, model, read_only),
        crate::edit_form::distinct_labels(form.fields@),
        0 <= i < model.fields@.len(),
    ensures
        values_of(form.baseline@, model.fields@[i].label@) == Some(texts(model.fields@[i].values@)),
{
    crate::edit_form::baseline_holds_the_values(form.fields@, i);
    assert(made_from(form.fields@[i], model.fields@[i], read_only));
}

/// Widgets change nothing about what edits are compared with.
pub proof fn widgets_keep_the_baseline(
    form: EditForm,
    base: EditForm,
    read_only: bool,
    widgets: Seq<ResolvedWidget>,
)
    requires
        dressed(form, base, read_only, widgets),
    ensures
        form.baseline == base.baseline && form.dn == base.dn && form.mode == base.mode
            && form.pending_password == base.pending_password,
{
}

} // verus!
