//! Composing a new entry: choosing its profile and container, its form, and adding it.
use vstd::prelude::*;
use vstd::string::*;

use crate::attrs::{values_of, without, Attr, AttrMap};
use crate::edit_form::FormMode;
use crate::profiles::EntryProfile;
use crate::session::{told, Field, Form, Session};
use crate::text::{concat2, contains_text, eq_ignore_case, is_blank, same_ci, texts, trimmed};

verus! {

/// The profile that was chosen among those offered, if the choice was accepted.
pub fn profile_chosen(st: &mut Session, accepted: bool, offer: &Vec<usize>) -> (r: Option<usize>)
    ensures
        *final(st) == (Session { chosen_profile: None, ..*old(st) }),
        r == match old(st).chosen_profile {
            Some(i) => if accepted && i < offer@.len() {
                Some(offer@[i as int])
            } else {
                None
            },
            None => None,
        },
{
    let chosen: Option<usize> = st.chosen_profile.take();
    match chosen {
        Some(i) => if accepted && i < offer.len() {
            Some(offer[i])
        } else {
            None
        },
        None => None,
    }
}

/// The container that was chosen, if the choice was accepted: the current branch, or the profile's
/// home.
pub fn container_chosen(st: &mut Session, accepted: bool, here: String, home: String) -> (r: Option<
    String,
>)
    ensures
        *final(st) == (Session { chosen_container: None, ..*old(st) }),
        r == if accepted && old(st).chosen_container == Some(0usize) {
            Some(here)
        } else if accepted && old(st).chosen_container == Some(1usize) {
            Some(home)
        } else {
            None
        },
{
    let chosen: Option<usize> = st.chosen_container.take();
    match chosen {
        Some(i) => if !accepted {
            None
        } else if i == 0 {
            Some(here)
        } else if i == 1 {
            Some(home)
        } else {
            None
        },
        None => None,
    }
}

/// The container of the new entry that the start asked for.
pub open spec fn start_container(
    container: Option<String>,
    profiles: Seq<EntryProfile>,
    idx: usize,
) -> Seq<char> {
    match container {
        Some(c) => c@,
        None => profiles[idx as int].search_base@,
    }
}

/// Whether `new`, with the profile and the container, is `old` after a profile was chosen at the
/// start. Without a container the profile's home is taken; where that is blank nothing is composed.
pub open spec fn start_chosen(
    old: Session,
    new: Session,
    accepted: bool,
    container: Option<String>,
    profiles: Seq<EntryProfile>,
    r: Option<(usize, String)>,
) -> bool {
    let reset = (Session { chosen_profile: None, ..old });
    match old.chosen_profile {
        Some(idx) => if !accepted {
            new == reset && r is None
        } else if trimmed(start_container(container, profiles, idx)).len() == 0 {
            told(reset, new, "Profile has no search_base; pass --container."@) && r is None
        } else {
            &&& new == reset
            &&& r matches Some(p) && p.0 == idx && p.1@ == start_container(container, profiles, idx)
        },
        None => new == reset && r is None,
    }
}

/// The profile that was chosen at the start, with the container of the new entry.
pub fn start_profile_chosen(
    st: &mut Session,
    accepted: bool,
    container: Option<String>,
    profiles: &Vec<EntryProfile>,
) -> (r: Option<(usize, String)>)
    requires
        accepted && container is None && old(st).chosen_profile is Some
            ==> old(st).chosen_profile->0 < profiles@.len(),
    ensures
        start_chosen(*old(st), *final(st), accepted, container, profiles@, r),
{
    let chosen: Option<usize> = st.chosen_profile.take();
    match chosen {
        Some(idx) => {
            if !accepted {
                return None;
            }
            let dn: String = match container {
                Some(c) => c,
                None => profiles[idx].search_base.clone(),
            };
            if is_blank(&dn) {
                st.status = "Profile has no search_base; pass --container.".to_owned();
                return None;
            }
            Some((idx, dn))
        },
        None => None,
    }
}

/// The place of the first field whose label equals `attr` up to ASCII case.
pub open spec fn first_labelled(fields: Seq<Field>, attr: Seq<char>) -> Option<int>
    decreases fields.len(),
{
    if fields.len() == 0 {
        None
    } else {
        match first_labelled(fields.drop_last(), attr) {
            Some(i) => Some(i),
            None => if same_ci(fields.last().label@, attr) {
                Some(fields.len() - 1)
            } else {
                None
            },
        }
    }
}

proof fn first_labelled_prefix(fields: Seq<Field>, attr: Seq<char>, n: int)
    requires
        0 <= n <= fields.len(),
        first_labelled(fields.take(n), attr) is Some,
    ensures
        first_labelled(fields, attr) == first_labelled(fields.take(n), attr),
    decreases fields.len() - n,
{
    if n < fields.len() {
        assert(fields.take(n + 1).drop_last() =~= fields.take(n));
        first_labelled_prefix(fields, attr, n + 1);
    } else {
        assert(fields.take(n) =~= fields);
    }
}

fn find_labelled(fields: &Vec<Field>, attr: &str) -> (r: Option<usize>)
    ensures
        match r {
            Some(i) => first_labelled(fields@, attr@) == Some(i as int) && i < fields@.len(),
            None => first_labelled(fields@, attr@) is None,
        },
{
    let mut i: usize = 0;
    while i < fields.len()
        invariant
            i <= fields@.len(),
            first_labelled(fields@.take(i as int), attr@) is None,
        decreases fields@.len() - i,
    {
        proof {
            assert(fields@.take(i + 1).drop_last() =~= fields@.take(i as int));
        }
        if eq_ignore_case(&fields[i].label, attr) {
            proof {
                first_labelled_prefix(fields@, attr@, i + 1);
            }
            return Some(i);
        }
        i += 1;
    }
    assert(fields@.take(fields@.len() as int) =~= fields@);
    None
}

/// Whether `new` are the fields `old` with the field of an attribute holding one text.
pub open spec fn one_set(old: Seq<Field>, new: Seq<Field>, attr: Seq<char>, text: Seq<char>) -> bool {
    match first_labelled(old, attr) {
        Some(at) => {
            &&& new.len() == old.len()
            &&& forall|i: int| 0 <= i < old.len() && i != at ==> #[trigger] new[i] == old[i]
            &&& new[at] == (Field { values: new[at].values, ..old[at] })
            &&& texts(new[at].values@) == seq![text]
        },
        None => new == old,
    }
}

/// Marks the field of an attribute as waiting for its number: until the number is found it holds
/// the placeholder.
pub fn mark_allocating(fields: &mut Vec<Field>, attr: &str, placeholder: &str)
    ensures
        one_set(old(fields)@, final(fields)@, attr@, placeholder@),
{
    match find_labelled(fields, attr) {
        Some(i) => {
            let mut values: Vec<String> = Vec::new();
            values.push(placeholder.to_owned());
            assert(texts(values@) =~= seq![placeholder@]);
            fields[i].values = values;
        },
        None => {},
    }
}

/// Whether some attribute of the list is that of a field, up to ASCII case, and the field is the
/// first of its label.
pub open spec fn waits(fields: Seq<Field>, wanted: Seq<(String, u64, u64)>, i: int) -> bool {
    exists|k: int| 0 <= k < wanted.len() && first_labelled(fields, (#[trigger] wanted[k]).0@) == Some(i)
}

/// Whether two lists of fields have the same labels.
pub open spec fn same_labels(a: Seq<Field>, b: Seq<Field>) -> bool {
    a.len() == b.len() && forall|i: int|
        0 <= i < a.len() ==> (#[trigger] a[i]).label == b[i].label
}

proof fn first_labelled_same(a: Seq<Field>, b: Seq<Field>, attr: Seq<char>)
    requires
        same_labels(a, b),
    ensures
        first_labelled(a, attr) == first_labelled(b, attr),
        first_labelled(a, attr) is Some ==> 0 <= first_labelled(a, attr)->0 < a.len(),
    decreases a.len(),
{
    if a.len() > 0 {
        let x = a.drop_last();
        let y = b.drop_last();
        assert forall|i: int| 0 <= i < x.len() implies (#[trigger] x[i]).label == y[i].label by {
            assert(x[i] == a[i]);
        }
        first_labelled_same(x, y, attr);
        assert(a[a.len() - 1].label == b[b.len() - 1].label);
    }
}

/// Whether `new` are the fields `old` with every field that waits for a number holding the
/// placeholder.
pub open spec fn all_marked(
    old: Seq<Field>,
    new: Seq<Field>,
    wanted: Seq<(String, u64, u64)>,
    placeholder: Seq<char>,
) -> bool {
    &&& new.len() == old.len()
    &&& forall|i: int|
        0 <= i < old.len() ==> if waits(old, wanted, i) {
            (#[trigger] new[i]) == (Field { values: new[i].values, ..old[i] }) && texts(
                new[i].values@,
            ) == seq![placeholder]
        } else {
            new[i] == old[i]
        }
}

fn mark_all(fields: &mut Vec<Field>, wanted: &Vec<(String, u64, u64)>, placeholder: &str)
    ensures
        all_marked(old(fields)@, final(fields)@, wanted@, placeholder@),
{
    let ghost start = fields@;
    let mut k: usize = 0;
    assert(wanted@.take(0) =~= Seq::empty());
    while k < wanted.len()
        invariant
            k <= wanted@.len(),
            all_marked(start, fields@, wanted@.take(k as int), placeholder@),
        decreases wanted@.len() - k,
    {
        let ghost before = fields@;
        proof {
            assert(same_labels(before, start)) by {
                assert forall|i: int| 0 <= i < before.len() implies (#[trigger] before[i]).label
                    == start[i].label by {}
            }
            first_labelled_same(before, start, wanted@[k as int].0@);
        }
        mark_allocating(fields, &wanted[k].0, placeholder);
        proof {
            let w0 = wanted@.take(k as int);
            let w1 = wanted@.take(k + 1);
            assert forall|i: int| 0 <= i < start.len() implies if waits(start, w1, i) {
                (#[trigger] fields@[i]) == (Field { values: fields@[i].values, ..start[i] })
                    && texts(fields@[i].values@) == seq![placeholder@]
            } else {
                fields@[i] == start[i]
            } by {
                assert(before[i] == before[i]);
                if waits(start, w0, i) {
                    let m = choose|m: int|
                        0 <= m < w0.len() && first_labelled(start, (#[trigger] w0[m]).0@) == Some(i);
                    assert(w1[m] == w0[m]);
                    assert(waits(start, w1, i));
                }
                if first_labelled(start, wanted@[k as int].0@) == Some(i) {
                    assert(w1[k as int] == wanted@[k as int]);
                    assert(waits(start, w1, i));
                }
                if waits(start, w1, i) && !waits(start, w0, i) {
                    let m = choose|m: int|
                        0 <= m < w1.len() && first_labelled(start, (#[trigger] w1[m]).0@) == Some(i);
                    if m < k {
                        assert(w0[m] == w1[m]);
                    }
                }
            }
        }
        k += 1;
    }
    assert(wanted@.take(wanted@.len() as int) =~= wanted@);
}

/// Shows the form of a new entry and asks for the focus. Fields whose number is still to be found
/// hold the placeholder meanwhile.
pub fn open_create(st: &mut Session, form: Form, wanted: &Vec<(String, u64, u64)>, placeholder: &str)
    ensures
        *final(st) == (Session {
            edit_form: final(st).edit_form,
            form_needs_render: true,
            focus_form_request: true,
            ..*old(st)
        }),
        match final(st).edit_form {
            Some(g) => g == (Form { fields: g.fields, ..form }) && all_marked(
                form.fields@,
                g.fields@,
                wanted@,
                placeholder@,
            ),
            None => false,
        },
{
    let mut form: Form = form;
    mark_all(&mut form.fields, wanted, placeholder);
    st.edit_form = Some(form);
    st.form_needs_render = true;
    st.focus_form_request = true;
}

/// The attributes without those of the list that hold the sentinel.
pub open spec fn without_sentinel(
    l: Seq<Attr>,
    staged: Seq<Seq<char>>,
    sentinel: Seq<char>,
) -> Seq<Attr>
    decreases staged.len(),
{
    if staged.len() == 0 {
        l
    } else {
        let before = without_sentinel(l, staged.drop_last(), sentinel);
        match values_of(before, staged.last()) {
            Some(v) => if v.contains(sentinel) {
                without(before, staged.last())
            } else {
                before
            },
            None => before,
        }
    }
}

/// Drops the attributes of a staged password that still hold the sentinel which stands for it. No
/// other attribute is touched, whatever it holds.
pub fn strip_sentinel_from_attrs(attrs: &mut AttrMap, staged: &Vec<String>, sentinel: &str)
    ensures
        final(attrs)@ == without_sentinel(old(attrs)@, texts(staged@), sentinel@),
{
    let ghost start = attrs@;
    let ghost names = texts(staged@);
    let mut i: usize = 0;
    assert(names.take(0) =~= Seq::empty());
    while i < staged.len()
        invariant
            i <= staged@.len(),
            names == texts(staged@),
            attrs@ == without_sentinel(start, names.take(i as int), sentinel@),
        decreases staged@.len() - i,
    {
        proof {
            assert(names.take(i + 1).drop_last() =~= names.take(i as int));
            assert(names.take(i + 1).last() == staged@[i as int]@);
        }
        let holds: bool = match attrs.get(&staged[i]) {
            Some(v) => contains_text(v, sentinel),
            None => false,
        };
        if holds {
            attrs.remove(&staged[i]);
        }
        i += 1;
    }
    assert(names.take(names.len() as int) =~= names);
}

/// An attribute that is not of the staged password keeps its values.
pub proof fn only_staged_attributes_are_stripped(
    l: Seq<Attr>,
    staged: Seq<Seq<char>>,
    sentinel: Seq<char>,
    name: Seq<char>,
)
    requires
        !staged.contains(name),
    ensures
        values_of(without_sentinel(l, staged, sentinel), name) == values_of(l, name),
    decreases staged.len(),
{
    if staged.len() > 0 {
        let head = staged.drop_last();
        assert(!head.contains(name)) by {
            if head.contains(name) {
                let i = choose|i: int| 0 <= i < head.len() && head[i] == name;
                assert(staged[i] == name);
            }
        }
        only_staged_attributes_are_stripped(l, head, sentinel, name);
        assert(staged[staged.len() - 1] == staged.last());
        crate::attrs::get_after_without(without_sentinel(l, head, sentinel), staged.last(), name);
    }
}

/// After stripping, no attribute of the staged password holds the sentinel.
pub proof fn no_sentinel_is_left(
    l: Seq<Attr>,
    staged: Seq<Seq<char>>,
    sentinel: Seq<char>,
    k: int,
)
    requires
        0 <= k < staged.len(),
    ensures
        match values_of(without_sentinel(l, staged, sentinel), staged[k]) {
            Some(v) => !v.contains(sentinel),
            None => true,
        },
    decreases staged.len(),
{
    let head = staged.drop_last();
    let before = without_sentinel(l, head, sentinel);
    crate::attrs::get_after_without(before, staged.last(), staged[k]);
    if k < head.len() {
        assert(head[k] == staged[k]);
        no_sentinel_is_left(l, head, sentinel, k);
    }
}

/// The profile and the container of the entry that the form composes.
pub open spec fn composed(st: Session) -> Option<(usize, Seq<char>)> {
    match st.edit_form {
        Some(f) => match f.mode {
            FormMode::Create { profile_idx, container } => Some((profile_idx, container@)),
            FormMode::Edit => None,
        },
        None => None,
    }
}

/// The profile and the container of the entry that the form composes, if it composes one.
pub fn composed_entry(st: &Session) -> (r: Option<(usize, String)>)
    ensures
        match composed(*st) {
            Some(p) => r matches Some(q) && q.0 == p.0 && q.1@ == p.1,
            None => r is None,
        },
{
    match &st.edit_form {
        Some(f) => match &f.mode {
            FormMode::Create { profile_idx, container } => Some((*profile_idx, container.clone())),
            FormMode::Edit => None,
        },
        None => None,
    }
}

/// The preview of a new entry. `masked` is the preview with the password hidden, where one was put
/// in. Where a password was staged and nothing put it in, the sentinel that stands for it goes.
pub fn create_body(
    st: &Session,
    attrs: &mut AttrMap,
    masked: Option<String>,
    ldif: String,
    sentinel: &str,
) -> (body: String)
    ensures
        final(attrs)@ == if masked is None && st.pending_password is Some {
            without_sentinel(old(attrs)@, texts(st.pending_password_attrs@), sentinel@)
        } else {
            old(attrs)@
        },
        body == match masked {
            Some(m) => m,
            None => ldif,
        },
{
    if masked.is_none() && st.pending_password.is_some() {
        strip_sentinel_from_attrs(attrs, &st.pending_password_attrs, sentinel);
    }
    match masked {
        Some(m) => m,
        None => ldif,
    }
}

/// Whether a new entry may be confirmed: a waiting password may not go over a connection that is not
/// encrypted.
pub fn create_allowed(st: &Session) -> (b: bool)
    ensures
        b == (st.pending_password is None || st.connection_encrypted),
{
    st.pending_password.is_none() || st.connection_encrypted
}

/// The preview of a new entry, with that of its companion where it has one.
pub fn create_preview(ldif: &str, companion: Option<&str>) -> (r: String)
    ensures
        r@ == match companion {
            Some(c) => "# New entry\n"@ + ldif@ + "\n# Companion entry\n"@ + c@,
            None => ldif@,
        },
{
    match companion {
        Some(c) => {
            let mut r: String = concat2("# New entry\n", ldif);
            r.append("\n# Companion entry\n");
            r.append(c);
            r
        },
        None => ldif.to_owned(),
    }
}

/// An entry to add.
pub struct NewEntry {
    pub dn: String,
    pub attrs: AttrMap,
}

/// How a new entry, and its companion, are added.
pub enum CreateSubmit {
    /// The entry alone.
    Single(NewEntry),
    /// Both at once, the companion first.
    Atomic { first: NewEntry, last: NewEntry },
    /// One after the other, the companion first.
    Sequential { first: NewEntry, last: NewEntry },
}

/// Takes a confirmed creation on its way: the waiting password is used up, and the companion, where
/// there is one, comes first.
pub fn confirm_create(st: &mut Session, entry: NewEntry, companion: Option<NewEntry>) -> (r:
    CreateSubmit)
    ensures
        *final(st) == (Session { pending_password: None, ..*old(st) }),
        r == match companion {
            Some(c) => if old(st).server_supports_txn {
                CreateSubmit::Atomic { first: c, last: entry }
            } else {
                CreateSubmit::Sequential { first: c, last: entry }
            },
            None => CreateSubmit::Single(entry),
        },
{
    st.pending_password = None;
    match companion {
        Some(c) => if st.server_supports_txn {
            CreateSubmit::Atomic { first: c, last: entry }
        } else {
            CreateSubmit::Sequential { first: c, last: entry }
        },
        None => CreateSubmit::Single(entry),
    }
}

/// A field found by its label has it, up to case, and is the first that does.
pub proof fn fields_are_found_by_their_label(fields: Seq<Field>, attr: Seq<char>)
    ensures
        match first_labelled(fields, attr) {
            Some(i) => 0 <= i < fields.len() && same_ci(fields[i].label@, attr) && forall|j: int|
                0 <= j < i ==> !same_ci((#[trigger] fields[j]).label@, attr),
            None => forall|j: int| 0 <= j < fields.len() ==> !same_ci((#[trigger] fields[j]).label@, attr),
        },
    decreases fields.len(),
{
    if fields.len() > 0 {
        fields_are_found_by_their_label(fields.drop_last(), attr);
        assert forall|j: int| 0 <= j < fields.len() - 1 implies fields.drop_last()[j]
            == #[trigger] fields[j] by {}
    }
}

/// Every field that waits for a number shows the placeholder and nothing else; every other field stays
/// as it is. A field waits when it is the first of an attribute that is wanted.
pub proof fn waiting_fields_show_the_placeholder(
    old: Seq<Field>,
    new: Seq<Field>,
    wanted: Seq<(String, u64, u64)>,
    placeholder: Seq<char>,
    i: int,
    k: int,
)
    requires
        all_marked(old, new, wanted, placeholder),
        0 <= i < old.len(),
    ensures
        new.len() == old.len(),
        new[i].label == old[i].label && new[i].baseline == old[i].baseline && new[i].widget_binding
            == old[i].widget_binding,
        0 <= k < wanted.len() && same_ci(old[i].label@, wanted[k].0@) && (forall|j: int|
            0 <= j < i ==> !same_ci((#[trigger] old[j]).label@, wanted[k].0@)) ==> new[i].values@.len()
            == 1 && new[i].values@[0]@ == placeholder,
        (forall|m: int| 0 <= m < wanted.len() ==> !same_ci(old[i].label@, (#[trigger] wanted[m]).0@))
            ==> new[i] == old[i],
{
    let x = new[i];
    if 0 <= k < wanted.len() && same_ci(old[i].label@, wanted[k].0@) && (forall|j: int|
        0 <= j < i ==> !same_ci((#[trigger] old[j]).label@, wanted[k].0@)) {
        fields_are_found_by_their_label(old, wanted[k].0@);
        assert(first_labelled(old, wanted[k].0@) == Some(i));
        assert(waits(old, wanted, i));
        assert(texts(x.values@).len() == x.values@.len());
        assert(texts(x.values@)[0] == x.values@[0]@);
    }
    if forall|m: int| 0 <= m < wanted.len() ==> !same_ci(old[i].label@, (#[trigger] wanted[m]).0@) {
        if waits(old, wanted, i) {
            let m = choose|m: int|
                0 <= m < wanted.len() && first_labelled(old, (#[trigger] wanted[m]).0@) == Some(i);
            fields_are_found_by_their_label(old, wanted[m].0@);
        }
    }
}

/// A composed entry is that of the profile and the container that its form was made for.
pub proof fn composed_entries_know_their_profile(st: Session)
    ensures
        composed(st) is Some <==> st.edit_form is Some && st.edit_form->0.mode is Create,
        st.edit_form is Some ==> (st.edit_form->0.mode matches FormMode::Create {
            profile_idx,
            container,
        } ==> composed(st) == Some((profile_idx, container@))),
{
}

/// A new entry of the start goes to the container that was given, and without one to the profile's home;
/// a choice that was not accepted, or a blank place, composes nothing.
pub proof fn start_entries_need_a_place(
    old: Session,
    new: Session,
    accepted: bool,
    container: Option<String>,
    profiles: Seq<EntryProfile>,
    r: Option<(usize, String)>,
)
    requires
        start_chosen(old, new, accepted, container, profiles, r),
    ensures
        new.chosen_profile is None && new.edit_form == old.edit_form,
        !accepted || old.chosen_profile is None ==> r is None && new.status == old.status,
        r matches Some(p) ==> accepted && old.chosen_profile == Some(p.0) && trimmed(p.1@).len() > 0 && (
        container matches Some(c) ==> p.1@ == c@) && (container is None ==> p.1@
            == profiles[p.0 as int].search_base@),
        accepted && old.chosen_profile is Some && (container matches Some(c) && trimmed(c@).len() > 0)
            ==> r is Some,
        accepted && old.chosen_profile is Some && (container matches Some(c) && trimmed(c@).len() == 0)
            ==> r is None && new.status@ == "Profile has no search_base; pass --container."@,
{
}

} // verus!
