//! Passwords in forms: taking them out of what is compared, and hiding them in what is shown.
use vstd::prelude::*;
use vstd::string::*;

use crate::attrs::{
    ascending, first_ci, first_ci_found, other_cases_are_dropped, put, put_in_place, values_ci,
    values_of, without_ci, without_ci_absent, Attr, AttrEntry, AttrMap,
};
use crate::changes::{masked_values, mods_model, Mod, ModKind, ModOp};
use crate::edit_form::{first_or_empty, first_value};
use crate::text::{
    concat2, contains_ignore_case, copy_texts, has_ci, same_ci, same_text, texts, trim, trimmed,
};

verus! {

/// How a profile keeps passwords: the attribute, and whether a Samba hash goes with it.
#[derive(Debug)]
pub struct PasswordSpec {
    pub ldap_attribute: String,
    pub samba: bool,
}

/// The label of the field that repeats a password.
pub open spec fn confirm_label(attr: Seq<char>) -> Seq<char> {
    attr + " (confirm)"@
}

/// The labels of the password field and of the field that repeats it.
pub fn password_field_labels(spec: &PasswordSpec) -> (r: (String, String))
    ensures
        r.0@ == spec.ldap_attribute@,
        r.1@ == confirm_label(spec.ldap_attribute@),
{
    (spec.ldap_attribute.clone(), concat2(&spec.ldap_attribute, " (confirm)"))
}

/// The trimmed first value under a label, regardless of case; empty when there is none.
pub open spec fn typed_under(l: Seq<Attr>, label: Seq<char>) -> Seq<char> {
    match values_ci(l, label) {
        Some(v) => trimmed(first_or_empty(v)),
        None => Seq::empty(),
    }
}

/// The attributes without a password field and the field that repeats it.
pub open spec fn without_password(l: Seq<Attr>, attr: Seq<char>) -> Seq<Attr> {
    without_ci(without_ci(l, attr), confirm_label(attr))
}

/// The attributes without those that hold the Samba hash and the time it was set.
pub open spec fn without_samba(l: Seq<Attr>) -> Seq<Attr> {
    without_ci(without_ci(l, "sambaNTPassword"@), "sambaPwdLastSet"@)
}

/// The password that was typed, and whether it was repeated: nothing when none was typed.
pub open spec fn confirmed(l: Seq<Attr>, attr: Seq<char>) -> Result<Option<Seq<char>>, ()> {
    let pw = typed_under(l, attr);
    if pw.len() == 0 {
        Ok(None)
    } else if pw != typed_under(l, confirm_label(attr)) {
        Err(())
    } else {
        Ok(Some(pw))
    }
}

fn typed(attrs: &AttrMap, label: &str) -> (r: String)
    ensures
        r@ == typed_under(attrs@, label@),
{
    match attrs.get_ci(label) {
        Some(v) => trim(&first_value(v)),
        None => String::new(),
    }
}

/// Takes the password out of edited attributes, with the field that repeats it: neither is an
/// attribute of the entry. Nothing typed is no password; two different entries are an error.
pub fn stage_password(spec: &PasswordSpec, attrs: &mut AttrMap) -> (r: Result<
    Option<String>,
    String,
>)
    ensures
        final(attrs)@ == without_password(old(attrs)@, spec.ldap_attribute@),
        match confirmed(old(attrs)@, spec.ldap_attribute@) {
            Ok(None) => r matches Ok(None),
            Ok(Some(pw)) => r matches Ok(Some(p)) && p@ == pw,
            Err(_) => r matches Err(e) && e@ == "Passwords do not match."@,
        },
{
    let (primary, confirm) = password_field_labels(spec);
    let pw: String = typed(attrs, &primary);
    let cf: String = typed(attrs, &confirm);
    attrs.remove_ci(&primary);
    attrs.remove_ci(&confirm);
    if pw.as_str().is_empty() {
        return Ok(None);
    }
    if !same_text(&pw, &cf) {
        return Err("Passwords do not match.".to_owned());
    }
    Ok(Some(pw))
}

/// A password change taken out of an edited entry: the password, the attribute that holds it,
/// whether a Samba hash goes with it, and the attributes that a preview hides.
pub struct StagedPassword {
    pub clear: String,
    pub attr: String,
    pub samba: bool,
    pub mask: Vec<String>,
}

/// Whether a Samba hash goes with the password of an entry.
pub open spec fn with_samba(spec: PasswordSpec, object_classes: Seq<Seq<char>>) -> bool {
    spec.samba && has_ci(object_classes, "sambaSamAccount"@)
}

/// The attributes that the preview of a password change hides.
pub open spec fn mask_of(attr: Seq<char>, samba: bool) -> Seq<Seq<char>> {
    if samba {
        seq![attr, "sambaNTPassword"@]
    } else {
        seq![attr]
    }
}

/// Whether both sides of an edited entry, the values as read and the values as typed, become `new` once
/// the password is taken out, and which password that is.
pub open spec fn edit_password_staged(
    spec: PasswordSpec,
    object_classes: Seq<Seq<char>>,
    old: (Seq<Attr>, Seq<Attr>),
    new: (Seq<Attr>, Seq<Attr>),
    r: Result<Option<StagedPassword>, String>,
) -> bool {
    let attr = spec.ldap_attribute@;
    let samba = with_samba(spec, object_classes);
    let b = without_password(old.0, attr);
    let e = without_password(old.1, attr);
    match confirmed(old.1, attr) {
        Ok(None) => {
            &&& r matches Ok(None)
            &&& new.0 == b
            &&& new.1 == e
        },
        Ok(Some(pw)) => {
            &&& r matches Ok(Some(s)) && s.clear@ == pw && s.attr@ == attr && s.samba == samba
                && texts(s.mask@) == mask_of(attr, samba)
            &&& new.0 == if samba { without_samba(b) } else { b }
            &&& new.1 == if samba { without_samba(e) } else { e }
        },
        Err(_) => {
            &&& r matches Err(t) && t@ == "Passwords do not match."@
            &&& new.0 == b
            &&& new.1 == e
        },
    }
}

/// Takes the password out of both sides of an edited entry, so that it never shows as a changed
/// attribute. With a new password the Samba attributes go too: they are written along with it.
pub fn stage_edit_password(
    spec: &PasswordSpec,
    object_classes: &Vec<String>,
    baseline: &mut AttrMap,
    edited: &mut AttrMap,
) -> (r: Result<Option<StagedPassword>, String>)
    ensures
        edit_password_staged(
            *spec,
            texts(object_classes@),
            (old(baseline)@, old(edited)@),
            (final(baseline)@, final(edited)@),
            r,
        ),
{
    let (primary, confirm) = password_field_labels(spec);
    baseline.remove_ci(&primary);
    baseline.remove_ci(&confirm);
    let clear: String = match stage_password(spec, edited) {
        Err(e) => return Err(e),
        Ok(None) => return Ok(None),
        Ok(Some(pw)) => pw,
    };
    let samba: bool = spec.samba && contains_ignore_case(object_classes, "sambaSamAccount");
    if samba {
        baseline.remove_ci("sambaNTPassword");
        baseline.remove_ci("sambaPwdLastSet");
        edited.remove_ci("sambaNTPassword");
        edited.remove_ci("sambaPwdLastSet");
    }
    let mut mask: Vec<String> = Vec::new();
    mask.push(spec.ldap_attribute.clone());
    if samba {
        mask.push("sambaNTPassword".to_owned());
    }
    assert(texts(mask@) =~= mask_of(spec.ldap_attribute@, samba));
    Ok(Some(StagedPassword { clear, attr: spec.ldap_attribute.clone(), samba, mask }))
}

/// Once a password is taken out, no attribute has its name or the name of the field that repeats
/// it, in any letter case.
pub proof fn no_password_is_left(l: Seq<Attr>, attr: Seq<char>, i: int)
    requires
        0 <= i < without_password(l, attr).len(),
    ensures
        !same_ci(without_password(l, attr)[i].0, attr),
        !same_ci(without_password(l, attr)[i].0, confirm_label(attr)),
        l.contains(without_password(l, attr)[i]),
{
    let first = without_ci(l, attr);
    without_ci_absent(first, confirm_label(attr), i);
    let a = without_password(l, attr)[i];
    let j = choose|j: int| 0 <= j < first.len() && first[j] == a;
    without_ci_absent(l, attr, j);
}

/// The changes that put a password's attributes in place of what the entry has.
pub open spec fn replaced(added: Seq<AttrEntry>) -> Seq<Mod> {
    added.map_values(|e: AttrEntry| (ModKind::Replace, e.name@, texts(e.values@)))
}

/// The changes that put a password's attributes in place of what the entry has.
pub fn password_replace_mods(added: &Vec<AttrEntry>) -> (r: Vec<ModOp>)
    ensures
        mods_model(r@) == replaced(added@),
{
    let mut r: Vec<ModOp> = Vec::new();
    let mut i: usize = 0;
    let ghost goal = replaced(added@);
    while i < added.len()
        invariant
            i <= added@.len(),
            goal == replaced(added@),
            mods_model(r@) == goal.take(i as int),
        decreases added@.len() - i,
    {
        let ghost r0 = r@;
        let m: ModOp = ModOp::Replace {
            attr: added[i].name.clone(),
            values: copy_texts(&added[i].values),
        };
        assert(m.model() == goal[i as int]);
        r.push(m);
        i += 1;
        proof {
            assert(mods_model(r@) =~= mods_model(r0).push(goal[i - 1]));
            assert(mods_model(r@) =~= goal.take(i as int));
        }
    }
    assert(goal.take(goal.len() as int) =~= goal);
    r
}

/// The attributes with the values of one hidden.
pub open spec fn hidden(l: Seq<Attr>, key: Seq<char>) -> Seq<Attr> {
    match first_ci(l, key) {
        Some(i) => put(l, l[i].0, masked_values()),
        None => l,
    }
}

/// The attributes with the password, its Samba hash and the time that was set hidden.
pub open spec fn all_hidden(l: Seq<Attr>, attr: Seq<char>) -> Seq<Attr> {
    hidden(hidden(hidden(l, attr), "sambaNTPassword"@), "sambaPwdLastSet"@)
}

fn cover(attrs: &mut AttrMap, key: &str)
    ensures
        final(attrs)@ == hidden(old(attrs)@, key@),
{
    match attrs.find_ci(key) {
        Some(i) => {
            let name: String = attrs.entry(i).name.clone();
            let mut stars: Vec<String> = Vec::new();
            stars.push("********".to_owned());
            assert(texts(stars@) =~= masked_values());
            attrs.insert(name, stars);
        },
        None => {},
    }
}

/// A copy of an entry's attributes for the preview: the values of the password, of its Samba hash
/// and of the time that was set read `********`.
pub fn mask_password_attrs(attrs: &AttrMap, ldap_attribute: &str) -> (r: AttrMap)
    ensures
        r@ == all_hidden(attrs@, ldap_attribute@),
{
    let mut out: AttrMap = attrs.copy();
    cover(&mut out, ldap_attribute);
    cover(&mut out, "sambaNTPassword");
    cover(&mut out, "sambaPwdLastSet");
    out
}

/// Hiding replaces the values of the attribute that is found, and leaves every other one alone.
pub proof fn hiding_is_in_place(l: Seq<Attr>, key: Seq<char>)
    requires
        ascending(l),
    ensures
        match first_ci(l, key) {
            Some(i) => hidden(l, key) == l.update(i, (l[i].0, masked_values())),
            None => hidden(l, key) == l,
        },
{
    first_ci_found(l, key);
    match first_ci(l, key) {
        Some(i) => put_in_place(l, i, masked_values()),
        None => {},
    }
}

/// A password is taken exactly when one was typed and typed again; a blank one is none, whatever
/// stands in the other field, and any difference is an error.
pub proof fn passwords_are_typed_twice(l: Seq<Attr>, attr: Seq<char>)
    ensures
        ({
            let typed = typed_under(l, attr);
            let again = typed_under(l, attr + " (confirm)"@);
            &&& typed.len() == 0 <==> confirmed(l, attr) == Ok::<Option<Seq<char>>, ()>(None)
            &&& typed.len() > 0 && typed == again <==> confirmed(l, attr) == Ok::<
                Option<Seq<char>>,
                (),
            >(Some(typed)) && typed.len() > 0
            &&& typed.len() > 0 && typed != again <==> confirmed(l, attr) is Err
        }),
{
}

/// What was typed under a label is the first value of the first attribute of that name, in any letter
/// case, without the whitespace around it; and nothing where there is none.
pub proof fn typed_text_is_the_first_value(l: Seq<Attr>, label: Seq<char>, i: int)
    ensures
        0 <= i < l.len() && same_ci(l[i].0, label) && (forall|j: int|
            0 <= j < i ==> !same_ci((#[trigger] l[j]).0, label)) && l[i].1.len() > 0 ==> typed_under(
            l,
            label,
        ) == trimmed(l[i].1[0]),
        (forall|j: int| 0 <= j < l.len() ==> !same_ci((#[trigger] l[j]).0, label)) ==> typed_under(
            l,
            label,
        ).len() == 0,
{
    first_ci_found(l, label);
    match first_ci(l, label) {
        Some(k) => {
            assert(same_ci(l[k].0, label));
        },
        None => {},
    }
}

/// Without a password, every attribute but its own and the one that repeats it keeps its values;
/// without the Samba attributes, every attribute but those two.
pub proof fn other_attributes_stay(l: Seq<Attr>, attr: Seq<char>, name: Seq<char>)
    ensures
        values_of(without_password(l, attr), name) == if same_ci(name, attr) || same_ci(
            name,
            attr + " (confirm)"@,
        ) {
            None
        } else {
            values_of(l, name)
        },
        values_of(without_samba(l), name) == if same_ci(name, "sambaNTPassword"@) || same_ci(
            name,
            "sambaPwdLastSet"@,
        ) {
            None
        } else {
            values_of(l, name)
        },
{
    other_cases_are_dropped(l, attr, name);
    other_cases_are_dropped(without_ci(l, attr), confirm_label(attr), name);
    other_cases_are_dropped(l, "sambaNTPassword"@, name);
    other_cases_are_dropped(without_ci(l, "sambaNTPassword"@), "sambaPwdLastSet"@, name);
}

/// A preview hides the attribute of the password, and its Samba hash exactly when one goes with it;
/// that takes both a profile that asks for it and a Samba account.
pub proof fn samba_hashes_are_hidden(spec: PasswordSpec, ocs: Seq<Seq<char>>, attr: Seq<char>, samba: bool)
    ensures
        mask_of(attr, samba).contains(attr),
        samba ==> mask_of(attr, samba).contains("sambaNTPassword"@),
        mask_of(attr, samba).len() == if samba { 2nat } else { 1nat },
        with_samba(spec, ocs) <==> spec.samba && has_ci(ocs, "sambaSamAccount"@),
{
    assert(mask_of(attr, samba)[0] == attr);
    if samba {
        assert(mask_of(attr, samba)[1] == "sambaNTPassword"@);
    }
}

/// A password is written by putting its attributes in place of what the entry has: one replacement for
/// each, in order, under its name and with its values.
pub proof fn passwords_replace_what_was_there(added: Seq<AttrEntry>, i: int)
    requires
        0 <= i < added.len(),
    ensures
        replaced(added).len() == added.len(),
        replaced(added)[i].0 == ModKind::Replace,
        replaced(added)[i].1 == added[i].name@,
        replaced(added)[i].2 == texts(added[i].values@),
{
}

proof fn hiding_ascends(l: Seq<Attr>, key: Seq<char>)
    requires
        ascending(l),
    ensures
        ascending(hidden(l, key)),
        hidden(l, key).len() == l.len(),
        forall|i: int| 0 <= i < l.len() ==> (#[trigger] hidden(l, key)[i]).0 == l[i].0,
        forall|i: int|
            0 <= i < l.len() ==> (#[trigger] hidden(l, key)[i]) == l[i] || (same_ci(l[i].0, key)
                && hidden(l, key)[i].1 == masked_values()),
        forall|i: int|
            0 <= i < l.len() && same_ci((#[trigger] l[i]).0, key) && (forall|j: int|
                0 <= j < i ==> !same_ci((#[trigger] l[j]).0, key)) ==> hidden(l, key)[i].1
                == masked_values(),
{
    hiding_is_in_place(l, key);
    first_ci_found(l, key);
    let h = hidden(l, key);
    match first_ci(l, key) {
        Some(k) => {
            assert(h == l.update(k, (l[k].0, masked_values())));
            assert forall|i: int, j: int| 0 <= i < j < h.len() implies crate::order::text_lt(
                (#[trigger] h[i]).0,
                (#[trigger] h[j]).0,
            ) by {
                assert(crate::order::text_lt(l[i].0, l[j].0));
            }
            assert forall|i: int|
                0 <= i < l.len() && same_ci((#[trigger] l[i]).0, key) && (forall|j: int|
                    0 <= j < i ==> !same_ci((#[trigger] l[j]).0, key)) implies h[i].1
                == masked_values() by {
                if i < k {
                    assert(!same_ci(l[i].0, key));
                }
                if k < i {
                    assert(same_ci(l[k].0, key));
                }
            }
        },
        None => {},
    }
}

/// The preview of a new entry has all its attributes, in their places and under their names. Only the
/// values of the password, of its Samba hash and of the time that was set are hidden; the password
/// always is.
pub proof fn previews_hide_the_password(l: Seq<Attr>, attr: Seq<char>, i: int)
    requires
        ascending(l),
        0 <= i < l.len(),
    ensures
        all_hidden(l, attr).len() == l.len(),
        all_hidden(l, attr)[i].0 == l[i].0,
        all_hidden(l, attr)[i].1 == l[i].1 || all_hidden(l, attr)[i].1 == masked_values(),
        !same_ci(l[i].0, attr) && !same_ci(l[i].0, "sambaNTPassword"@) && !same_ci(
            l[i].0,
            "sambaPwdLastSet"@,
        ) ==> all_hidden(l, attr)[i] == l[i],
        (same_ci(l[i].0, attr) && (forall|j: int| 0 <= j < i ==> !same_ci((#[trigger] l[j]).0, attr)))
            || (same_ci(l[i].0, "sambaNTPassword"@) && (forall|j: int|
            0 <= j < i ==> !same_ci((#[trigger] l[j]).0, "sambaNTPassword"@))) || (same_ci(
            l[i].0,
            "sambaPwdLastSet"@,
        ) && (forall|j: int| 0 <= j < i ==> !same_ci((#[trigger] l[j]).0, "sambaPwdLastSet"@)))
            ==> all_hidden(l, attr)[i].1 == masked_values(),
{
    let a = hidden(l, attr);
    let b = hidden(a, "sambaNTPassword"@);
    let c = hidden(b, "sambaPwdLastSet"@);
    hiding_ascends(l, attr);
    hiding_ascends(a, "sambaNTPassword"@);
    hiding_ascends(b, "sambaPwdLastSet"@);
    assert(a[i].0 == l[i].0 && b[i].0 == a[i].0 && c[i].0 == b[i].0);
    assert(forall|j: int| 0 <= j < l.len() ==> (#[trigger] b[j]).0 == a[j].0);
    assert(forall|j: int| 0 <= j < l.len() ==> (#[trigger] a[j]).0 == l[j].0);
    if same_ci(l[i].0, "sambaNTPassword"@) && (forall|j: int|
        0 <= j < i ==> !same_ci((#[trigger] l[j]).0, "sambaNTPassword"@)) {
        assert forall|j: int| 0 <= j < i implies !same_ci((#[trigger] a[j]).0, "sambaNTPassword"@) by {
            assert(a[j].0 == l[j].0);
        }
        assert(b[i].1 == masked_values());
    }
    if same_ci(l[i].0, "sambaPwdLastSet"@) && (forall|j: int|
        0 <= j < i ==> !same_ci((#[trigger] l[j]).0, "sambaPwdLastSet"@)) {
        assert forall|j: int| 0 <= j < i implies !same_ci((#[trigger] b[j]).0, "sambaPwdLastSet"@) by {
            assert(b[j].0 == a[j].0);
            assert(a[j].0 == l[j].0);
        }
        assert(c[i].1 == masked_values());
    }
}

/// The password and the field that repeats it leave both sides of an edited entry, whatever was typed.
/// A new password is handed on as it was typed; with one, the Samba attributes of a Samba account leave
/// both sides too. Every other attribute keeps its values on its own side.
pub proof fn passwords_leave_both_sides(
    spec: PasswordSpec,
    object_classes: Seq<Seq<char>>,
    old: (Seq<Attr>, Seq<Attr>),
    new: (Seq<Attr>, Seq<Attr>),
    r: Result<Option<StagedPassword>, String>,
    name: Seq<char>,
)
    requires
        edit_password_staged(spec, object_classes, old, new, r),
    ensures
        ({
            let attr = spec.ldap_attribute@;
            let typed = typed_under(old.1, attr);
            let samba = spec.samba && has_ci(object_classes, "sambaSamAccount"@);
            let of_samba = same_ci(name, "sambaNTPassword"@) || same_ci(name, "sambaPwdLastSet"@);
            let of_password = same_ci(name, attr) || same_ci(name, attr + " (confirm)"@);
            &&& (r is Ok && r->Ok_0 is None) <==> typed.len() == 0
            &&& r is Err <==> typed.len() > 0 && typed != typed_under(old.1, attr + " (confirm)"@)
            &&& r matches Err(text) ==> text@ == "Passwords do not match."@
            &&& (r is Ok && r->Ok_0 is Some) ==> r->Ok_0->0.clear@ == typed && r->Ok_0->0.attr@ == attr
                && r->Ok_0->0.samba == samba && r->Ok_0->0.mask@[0]@ == attr && (samba
                ==> r->Ok_0->0.mask@.len() == 2 && r->Ok_0->0.mask@[1]@ == "sambaNTPassword"@)
            &&& of_password ==> values_of(new.0, name) is None && values_of(new.1, name) is None
            &&& !of_password && !of_samba ==> values_of(new.0, name) == values_of(old.0, name)
                && values_of(new.1, name) == values_of(old.1, name)
            &&& !of_password && of_samba && !(r is Ok && r->Ok_0 is Some && samba) ==> values_of(
                new.0,
                name,
            ) == values_of(old.0, name) && values_of(new.1, name) == values_of(old.1, name)
            &&& of_samba && r is Ok && r->Ok_0 is Some && samba ==> values_of(new.0, name) is None
                && values_of(new.1, name) is None
        }),
{
    let attr = spec.ldap_attribute@;
    let b = without_password(old.0, attr);
    let e = without_password(old.1, attr);
    other_attributes_stay(old.0, attr, name);
    other_attributes_stay(old.1, attr, name);
    other_attributes_stay(b, attr, name);
    other_attributes_stay(e, attr, name);
    passwords_are_typed_twice(old.1, attr);
    if let Ok(Some(s)) = r {
        assert(texts(s.mask@) == mask_of(attr, s.samba));
        assert(texts(s.mask@).len() == s.mask@.len());
        assert(texts(s.mask@)[0] == s.mask@[0]@);
        if s.samba {
            assert(texts(s.mask@)[1] == s.mask@[1]@);
        }
    }
}

} // verus!
