//! Saving: what of a form is compared with the directory, what a save writes to the entry and to
//! its groups, and what the answers lead to.
use vstd::prelude::*;
use vstd::string::*;

use crate::app::{object_classes, object_classes_of, GuardIntent, Overlay, PendingAction};
use crate::attrs::{
    get_after_without_all, other_cases_are_dropped, other_names_are_kept, values_of, values_or_none,
    without_all, without_ci, without_ci_absent, Attr, AttrEntry, AttrMap,
};
use crate::changes::{
    changes_are_told_apart, error_message, fanout, fanout_is_the_difference,
    fanout_joins_before_it_leaves, fanout_model, format_validation_errors, mask_changeset_secrets,
    masked_mods, masked_previews_hide_secrets, masking_keeps_the_rest, membership_fanout,
    mods_model, opt_rename, opt_text, sets_model, single_mod, ChangeSet, Changes, EditEntry,
    GroupMod, Mod, ModKind, ModOp, ModRdn, ValidationError,
};
use crate::edit_form::{
    current, edited_entry_holds_nothing_else, edited_entry_holds_the_fields, fanout_attr_of,
    fanout_labels_are_found, fanout_names, fanout_of, field_changed, own_attrs, password_targets,
    reordering_keeps_values, value_set_eq, EditForm,
};
use crate::passwords::{
    confirm_label, confirmed, mask_of, no_password_is_left, other_attributes_stay,
    password_replace_mods, replaced, stage_edit_password, with_samba, without_password,
    without_samba, PasswordSpec, StagedPassword,
};
use crate::profiles::{
    is_instance, password_profile, profile_for_entry, the_first_fitting_profile_counts,
    EntryProfile,
};
use crate::text::{contains_text, has_ci, same_ci, texts};
use crate::widgets::PasswordWidget;

verus! {

/// The two sides of a save, to be validated and compared: the entry as the directory had it and as
/// edited, and its object classes.
pub struct StagedSave {
    pub original: EditEntry,
    pub edited: EditEntry,
    pub object_classes: Vec<String>,
}

/// The attributes without every name of `targets`, in any letter case.
pub open spec fn without_targets(l: Seq<Attr>, targets: Seq<Seq<char>>) -> Seq<Attr>
    decreases targets.len(),
{
    if targets.len() == 0 {
        l
    } else {
        without_ci(without_targets(l, targets.drop_last()), targets.last())
    }
}

/// The attributes without those of a password, where there is one.
pub open spec fn without_widget(l: Seq<Attr>, pw: Option<PasswordWidget>) -> Seq<Attr> {
    match pw {
        Some(w) => without_targets(l, password_targets(w)),
        None => l,
    }
}

/// An optional password widget behind a reference.
pub open spec fn opt_widget(pw: Option<&PasswordWidget>) -> Option<PasswordWidget> {
    match pw {
        Some(w) => Some(*w),
        None => None,
    }
}

fn strip_password(attrs: &mut AttrMap, pw: &PasswordWidget)
    ensures
        final(attrs)@ == without_targets(old(attrs)@, password_targets(*pw)),
{
    let ghost start = attrs@;
    let ghost t = password_targets(*pw);
    attrs.remove_ci(&pw.primary);
    let mut i: usize = 0;
    proof {
        assert(t.take(1).drop_last() =~= t.take(0));
        assert(t.take(0) =~= Seq::empty());
        assert(t.take(1).last() == pw.primary@);
        assert(without_targets(start, t.take(0)) == start);
    }
    while i < pw.derived.len()
        invariant
            i <= pw.derived@.len(),
            t == password_targets(*pw),
            attrs@ == without_targets(start, t.take(i + 1)),
        decreases pw.derived@.len() - i,
    {
        attrs.remove_ci(&pw.derived[i]);
        i += 1;
        proof {
            assert(t.take(i + 1).drop_last() =~= t.take(i as int));
            assert(t.take(i + 1).last() == pw.derived@[i - 1]@);
        }
    }
    assert(t.take(t.len() as int) =~= t);
}

/// Whether `s` holds the two sides of the save of one entry: without what is written to other
/// entries, and without the password attributes, which are written separately.
pub open spec fn edit_staged(form: EditForm, pw: Option<PasswordWidget>, s: StagedSave) -> bool {
    &&& s.original.dn@ == form.dn@
    &&& s.edited.dn@ == form.dn@
    &&& s.original.attrs@ == without_widget(
        without_all(form.baseline@, fanout_names(form.fields@)),
        pw,
    )
    &&& s.edited.attrs@ == without_widget(own_attrs(form.fields@), pw)
    &&& texts(s.object_classes@) == object_classes(form)
}

/// Prepares the two sides of the save of one entry. A waiting password is refused over a connection
/// that is not encrypted.
pub fn stage_edit_save(
    form: &EditForm,
    pw: Option<&PasswordWidget>,
    connection_encrypted: bool,
) -> (r: Result<StagedSave, String>)
    ensures
        match r {
            Err(e) => form.pending_password is Some && !connection_encrypted && e@
                == "password change requires an encrypted connection"@,
            Ok(s) => (form.pending_password is None || connection_encrypted) && edit_staged(
                *form,
                opt_widget(pw),
                s,
            ),
        },
{
    if form.pending_password.is_some() && !connection_encrypted {
        return Err("password change requires an encrypted connection".to_owned());
    }
    let labels: Vec<String> = form.fanout_labels();
    let mut original: EditEntry = EditEntry { dn: form.dn.clone(), attrs: form.baseline.copy() };
    original.attrs.remove_all(&labels);
    let mut edited: EditEntry = form.to_edit_entry();
    match pw {
        Some(w) => {
            strip_password(&mut original.attrs, w);
            strip_password(&mut edited.attrs, w);
        },
        None => {},
    }
    Ok(StagedSave { original, edited, object_classes: object_classes_of(form) })
}

/// What preparing a save comes to.
pub enum PrepareSave {
    /// The edited entry is not valid.
    Invalid(Vec<ValidationError>),
    /// The two sides could not be compared.
    DiffError(String),
    /// There is nothing to write.
    NoChanges,
    /// The changes to write, and as the confirmation shows them.
    Ready { changes: ChangeSet, preview: ChangeSet },
}

/// Whether a change set of the entry `dn` holds a comparison's changes followed by those of a
/// password.
pub open spec fn with_password(
    cs: ChangeSet,
    dn: Seq<char>,
    found: ChangeSet,
    password: Seq<Mod>,
) -> bool {
    cs.model() == (dn, opt_rename(found.modrdn), mods_model(found.mods@) + password)
}

/// A change set as the confirmation shows it.
pub open spec fn preview_of(cs: Changes, mask: Seq<Seq<char>>) -> Changes {
    (cs.0, cs.1, masked_mods(cs.2, mask))
}

fn append_mods(mods: &mut Vec<ModOp>, more: Vec<ModOp>)
    ensures
        mods_model(final(mods)@) == mods_model(old(mods)@) + mods_model(more@),
{
    let mut more: Vec<ModOp> = more;
    let ghost m0 = mods@;
    let ghost m1 = more@;
    mods.append(&mut more);
    assert(mods_model(mods@) =~= mods_model(m0) + mods_model(m1));
}

/// Whether `r` is what a save of the entry `dn` comes to whose validation and comparison found these
/// errors and changes. The changes of a password join the others, so that a password alone is a
/// change too; the preview hides the values of `mask`.
pub open spec fn save_settled(
    r: PrepareSave,
    dn: Seq<char>,
    errors: Vec<ValidationError>,
    found: Result<ChangeSet, String>,
    password: Seq<Mod>,
    mask: Seq<Seq<char>>,
) -> bool {
    if errors@.len() > 0 {
        r == PrepareSave::Invalid(errors)
    } else {
        match found {
            Err(e) => r == PrepareSave::DiffError(e),
            Ok(c) => if c.modrdn is None && c.mods@.len() == 0 && password.len() == 0 {
                r is NoChanges
            } else {
                match r {
                    PrepareSave::Ready { changes, preview } => {
                        &&& with_password(changes, dn, c, password)
                        &&& preview.model() == preview_of(changes.model(), mask)
                    },
                    _ => false,
                }
            },
        }
    }
}

/// What a save of the entry `dn` comes to, from what validation and comparison found.
pub fn settle_save(
    dn: &str,
    errors: Vec<ValidationError>,
    found: Result<ChangeSet, String>,
    password_mods: Vec<ModOp>,
    mask_attrs: &Vec<String>,
) -> (r: PrepareSave)
    ensures
        save_settled(r, dn@, errors, found, mods_model(password_mods@), texts(mask_attrs@)),
{
    if errors.len() > 0 {
        return PrepareSave::Invalid(errors);
    }
    let mut cs: ChangeSet = match found {
        Ok(c) => c,
        Err(e) => return PrepareSave::DiffError(e),
    };
    cs.dn = dn.to_owned();
    let ghost n0 = mods_model(cs.mods@).len();
    let ghost n1 = mods_model(password_mods@).len();
    append_mods(&mut cs.mods, password_mods);
    assert(mods_model(cs.mods@).len() == n0 + n1);
    if cs.is_empty() {
        return PrepareSave::NoChanges;
    }
    let preview: ChangeSet = mask_changeset_secrets(&cs, mask_attrs);
    PrepareSave::Ready { changes: cs, preview }
}

/// Whether `r` is what a save of `s` comes to: the edited side is validated, and only a valid one is
/// compared with the original side.
pub open spec fn save_prepared<
    V: Fn(&EditEntry, &Vec<String>) -> Vec<ValidationError>,
    D: Fn(&EditEntry, &EditEntry) -> Result<ChangeSet, String>,
>(r: PrepareSave, s: StagedSave, validate: V, diff: D, password: Seq<Mod>, mask: Seq<Seq<char>>) -> bool {
    exists|errors: Vec<ValidationError>, found: Result<ChangeSet, String>|
        {
            &&& #[trigger] call_ensures(validate, (&s.edited, &s.object_classes), errors)
            &&& errors@.len() == 0 ==> call_ensures(diff, (&s.original, &s.edited), found)
            &&& #[trigger] save_settled(r, s.original.dn@, errors, found, password, mask)
        }
}

/// Prepares a save: `validate` checks the edited side, and `diff` compares it with the original
/// one.
pub fn prepare_save<
    V: Fn(&EditEntry, &Vec<String>) -> Vec<ValidationError>,
    D: Fn(&EditEntry, &EditEntry) -> Result<ChangeSet, String>,
>(
    s: &StagedSave,
    password_mods: Vec<ModOp>,
    mask_attrs: &Vec<String>,
    validate: V,
    diff: D,
) -> (r: PrepareSave)
    requires
        call_requires(validate, (&s.edited, &s.object_classes)),
        call_requires(diff, (&s.original, &s.edited)),
    ensures
        save_prepared(r, *s, validate, diff, mods_model(password_mods@), texts(mask_attrs@)),
        r matches PrepareSave::Ready { changes, preview } ==> changes.dn@ == s.original.dn@
            && preview.dn@ == s.original.dn@,
{
    let errors: Vec<ValidationError> = validate(&s.edited, &s.object_classes);
    let found: Result<ChangeSet, String> = if errors.len() > 0 {
        Err(String::new())
    } else {
        diff(&s.original, &s.edited)
    };
    let ghost e = errors;
    let ghost f = found;
    let r: PrepareSave = settle_save(&s.original.dn, errors, found, password_mods, mask_attrs);
    proof {
        let dn = s.original.dn@;
        assert(save_settled(r, dn, e, f, mods_model(password_mods@), texts(mask_attrs@)));
        if r is Ready {
            assert(r->Ready_changes.model().0 == dn);
            assert(r->Ready_preview.model().0 == dn);
        }
    }
    r
}

/// Whether these are the changes of a waiting password, with the attributes that a preview hides.
/// There are none where no password waits, or where the entry has no password attribute.
pub open spec fn password_staged<S: Fn(&str, &PasswordWidget) -> (Vec<ModOp>, Vec<String>)>(
    stage: S,
    pending: Option<String>,
    pw: Option<PasswordWidget>,
    password: Seq<Mod>,
    mask: Seq<Seq<char>>,
) -> bool {
    if pending is Some && pw is Some {
        exists|text: &str, w: &PasswordWidget, out: (Vec<ModOp>, Vec<String>)|
            {
                &&& text@ == pending->0@
                &&& *w == pw->0
                &&& #[trigger] call_ensures(stage, (text, w), out)
                &&& password == mods_model(out.0@)
                &&& mask == texts(out.1@)
            }
    } else {
        password == Seq::<Mod>::empty() && mask == Seq::<Seq<char>>::empty()
    }
}

fn stage_password<S: Fn(&str, &PasswordWidget) -> (Vec<ModOp>, Vec<String>)>(
    form: &EditForm,
    pw: Option<&PasswordWidget>,
    stage: S,
) -> (r: (Vec<ModOp>, Vec<String>))
    requires
        forall|text: &str, w: &PasswordWidget|
            opt_text(form.pending_password) == Some(text@) && opt_widget(pw) == Some(*w)
                ==> #[trigger] call_requires(stage, (text, w)),
    ensures
        password_staged(
            stage,
            form.pending_password,
            opt_widget(pw),
            mods_model(r.0@),
            texts(r.1@),
        ),
{
    if let Some(p) = &form.pending_password {
        if let Some(w) = pw {
            let text: &str = p.as_str();
            let out: (Vec<ModOp>, Vec<String>) = stage(text, w);
            assert(call_ensures(stage, (text, w), out));
            return out;
        }
    }
    let mods: Vec<ModOp> = Vec::new();
    let mask: Vec<String> = Vec::new();
    proof {
        assert(mods_model(mods@) =~= Seq::empty());
        assert(texts(mask@) =~= Seq::empty());
    }
    (mods, mask)
}

/// Prepares the save of one entry. `stage` gives the changes of a waiting password, and the
/// attributes that the preview hides. A waiting password is refused over a connection that is not
/// encrypted, before `stage` sees it.
pub fn prepare_edit_save<
    S: Fn(&str, &PasswordWidget) -> (Vec<ModOp>, Vec<String>),
    V: Fn(&EditEntry, &Vec<String>) -> Vec<ValidationError>,
    D: Fn(&EditEntry, &EditEntry) -> Result<ChangeSet, String>,
>(
    form: &EditForm,
    pw: Option<&PasswordWidget>,
    connection_encrypted: bool,
    stage: S,
    validate: V,
    diff: D,
) -> (r: Result<PrepareSave, String>)
    requires
        forall|text: &str, w: &PasswordWidget|
            connection_encrypted && opt_text(form.pending_password) == Some(text@) && opt_widget(pw)
                == Some(*w) ==> #[trigger] call_requires(stage, (text, w)),
        forall|e: &EditEntry, ocs: &Vec<String>| call_requires(validate, (e, ocs)),
        forall|a: &EditEntry, b: &EditEntry| call_requires(diff, (a, b)),
    ensures
        match r {
            Err(e) => form.pending_password is Some && !connection_encrypted && e@
                == "password change requires an encrypted connection"@,
            Ok(p) => {
                &&& form.pending_password is None || connection_encrypted
                &&& exists|s: StagedSave, password: Seq<Mod>, mask: Seq<Seq<char>>|
                    {
                        &&& edit_staged(*form, opt_widget(pw), s)
                        &&& password_staged(
                            stage,
                            form.pending_password,
                            opt_widget(pw),
                            password,
                            mask,
                        )
                        &&& #[trigger] save_prepared(p, s, validate, diff, password, mask)
                    }
                &&& p matches PrepareSave::Ready { changes, preview } ==> changes.dn@ == form.dn@
                    && preview.dn@ == form.dn@
            },
        },
{
    match stage_edit_save(form, pw, connection_encrypted) {
        Err(e) => Err(e),
        Ok(s) => {
            let (password_mods, mask_attrs) = stage_password(form, pw, stage);
            let ghost password = mods_model(password_mods@);
            let p: PrepareSave = prepare_save(&s, password_mods, &mask_attrs, validate, diff);
            assert(save_prepared(p, s, validate, diff, password, texts(mask_attrs@)));
            Ok(p)
        },
    }
}

/// Whether a field that is written to other entries has changed.
pub open spec fn membership_changed(form: EditForm) -> bool {
    exists|i: int|
        0 <= i < form.fields@.len() && fanout_names(form.fields@).contains(
            (#[trigger] form.fields@[i]).label@,
        ) && field_changed(form.fields@[i], form.baseline@)
}

/// What preparing a save together with its groups comes to at first.
pub enum CombinedStage {
    /// No field that is written to other entries has changed: the plain save applies.
    NoMembershipChange,
    /// The save is refused.
    Blocked(String),
    /// The two sides of the entry's own changes.
    Staged(StagedSave),
}

fn groups_changed(form: &EditForm, labels: &Vec<String>) -> (b: bool)
    requires
        texts(labels@) == fanout_names(form.fields@),
    ensures
        b == membership_changed(*form),
{
    let mut i: usize = 0;
    while i < form.fields.len()
        invariant
            i <= form.fields@.len(),
            texts(labels@) == fanout_names(form.fields@),
            forall|j: int|
                0 <= j < i ==> !(fanout_names(form.fields@).contains(
                    (#[trigger] form.fields@[j]).label@,
                ) && field_changed(form.fields@[j], form.baseline@)),
        decreases form.fields@.len() - i,
    {
        if contains_text(labels, &form.fields[i].label) {
            let base: Vec<String> = form.baseline.get_or_none(&form.fields[i].label);
            if !value_set_eq(&form.fields[i].current_values(), &base) {
                assert(field_changed(form.fields@[i as int], form.baseline@));
                return true;
            }
        }
        i += 1;
    }
    false
}

/// The refusal of a password change over a plain connection, in a save with groups.
pub open spec fn plain_link_text() -> Seq<char> {
    "Password change requires an encrypted connection (ldaps:// or start_tls)."@
}

/// Prepares the save of an entry together with its groups: the two sides of the entry's own
/// changes, without what is written to the groups and without the password attributes.
pub fn stage_combined_save(
    form: &EditForm,
    pw: Option<&PasswordWidget>,
    connection_encrypted: bool,
) -> (r: CombinedStage)
    ensures
        match r {
            CombinedStage::NoMembershipChange => !membership_changed(*form),
            CombinedStage::Blocked(text) => {
                &&& membership_changed(*form)
                &&& pw is Some && form.pending_password is Some && !connection_encrypted
                &&& text@ == plain_link_text()
            },
            CombinedStage::Staged(s) => {
                &&& membership_changed(*form)
                &&& pw is None || form.pending_password is None || connection_encrypted
                &&& combined_staged(*form, opt_widget(pw), s)
            },
        },
{
    let labels: Vec<String> = form.fanout_labels();
    if labels.len() == 0 {
        assert(fanout_names(form.fields@).len() == 0);
        return CombinedStage::NoMembershipChange;
    }
    if !groups_changed(form, &labels) {
        return CombinedStage::NoMembershipChange;
    }
    let mut original: EditEntry = EditEntry { dn: form.dn.clone(), attrs: form.baseline.copy() };
    let mut edited: EditEntry = form.to_edit_entry();
    original.attrs.remove_all(&labels);
    edited.attrs.remove_all(&labels);
    match pw {
        Some(w) => {
            if form.pending_password.is_some() && !connection_encrypted {
                return CombinedStage::Blocked(
                    "Password change requires an encrypted connection (ldaps:// or start_tls).".to_owned(),
                );
            }
            strip_password(&mut original.attrs, w);
            strip_password(&mut edited.attrs, w);
        },
        None => {},
    }
    CombinedStage::Staged(
        StagedSave { original, edited, object_classes: object_classes_of(form) },
    )
}

/// Whether `s` holds the two sides of the entry's own changes in a save with groups.
pub open spec fn combined_staged(form: EditForm, pw: Option<PasswordWidget>, s: StagedSave) -> bool {
    &&& s.original.dn@ == form.dn@
    &&& s.edited.dn@ == form.dn@
    &&& s.original.attrs@ == own_side(form, form.baseline@, pw)
    &&& s.edited.attrs@ == own_side(form, own_attrs(form.fields@), pw)
    &&& texts(s.object_classes@) == object_classes(form)
}

/// One side of an entry's own changes.
pub open spec fn own_side(form: EditForm, l: Seq<Attr>, pw: Option<PasswordWidget>) -> Seq<Attr> {
    without_widget(without_all(l, fanout_names(form.fields@)), pw)
}

proof fn absent_stays_absent(l: Seq<Attr>, gone: Seq<char>, name: Seq<char>)
    requires
        values_of(l, name) is None,
    ensures
        values_of(without_ci(l, gone), name) is None,
    decreases l.len(),
{
    if l.len() > 0 {
        absent_stays_absent(l.drop_last(), gone, name);
        if !same_ci(l.last().0, gone) {
            assert(without_ci(l, gone).drop_last() =~= without_ci(l.drop_last(), gone));
        }
    }
}

proof fn absent_without_targets(l: Seq<Attr>, targets: Seq<Seq<char>>, name: Seq<char>)
    requires
        values_of(l, name) is None,
    ensures
        values_of(without_targets(l, targets), name) is None,
    decreases targets.len(),
{
    if targets.len() > 0 {
        absent_without_targets(l, targets.drop_last(), name);
        absent_stays_absent(without_targets(l, targets.drop_last()), targets.last(), name);
    }
}

/// What is written to the groups is on neither side of the entry's own changes, so that it never
/// shows as a change of the entry.
pub proof fn groups_are_not_own_changes(
    form: EditForm,
    l: Seq<Attr>,
    pw: Option<PasswordWidget>,
    label: Seq<char>,
)
    requires
        fanout_names(form.fields@).contains(label),
    ensures
        values_of(own_side(form, l, pw), label) is None,
{
    get_after_without_all(l, fanout_names(form.fields@), label);
    match pw {
        Some(w) => absent_without_targets(
            without_all(l, fanout_names(form.fields@)),
            password_targets(w),
            label,
        ),
        None => {},
    }
}

proof fn targets_are_gone(l: Seq<Attr>, targets: Seq<Seq<char>>, t: int, i: int)
    requires
        0 <= t < targets.len(),
        0 <= i < without_targets(l, targets).len(),
    ensures
        !same_ci(without_targets(l, targets)[i].0, targets[t]),
    decreases targets.len(),
{
    let head = targets.drop_last();
    let before = without_targets(l, head);
    without_ci_absent(before, targets.last(), i);
    let a = without_targets(l, targets)[i];
    if t < head.len() {
        let j = choose|j: int| 0 <= j < before.len() && before[j] == a;
        targets_are_gone(l, head, t, j);
    }
}

/// No attribute of a password is on either side of a save, in any letter case, so that a password
/// field left alone never shows as a deletion.
pub proof fn passwords_are_not_compared(l: Seq<Attr>, pw: PasswordWidget, t: int, i: int)
    requires
        0 <= t < password_targets(pw).len(),
        0 <= i < without_widget(l, Some(pw)).len(),
    ensures
        !same_ci(without_widget(l, Some(pw))[i].0, password_targets(pw)[t]),
{
    targets_are_gone(l, password_targets(pw), t, i);
}

/// What preparing a save together with its groups comes to.
pub enum CombinedPlan {
    /// No field that is written to other entries has changed: the plain save applies.
    NoMembershipChange,
    /// The entry's own changes, those of the groups, and all of them as the confirmation shows
    /// them.
    Ready {
        entry_dn: String,
        own_mods: Vec<ModOp>,
        fanout: Vec<(String, ModOp)>,
        preview: Vec<ChangeSet>,
    },
    /// The save is refused.
    Blocked(String),
    /// The edited entry is not valid.
    Invalid(Vec<ValidationError>),
    /// The two sides could not be compared.
    DiffError(String),
}

/// The changes of the groups, field by field.
pub open spec fn all_fanout(form: EditForm, n: int) -> Seq<GroupMod>
    decreases n,
{
    if n <= 0 {
        Seq::empty()
    } else {
        let f = form.fields@[n - 1];
        let before = all_fanout(form, n - 1);
        match fanout_of(f) {
            Some(attr) => before + fanout(
                form.dn@,
                values_or_none(form.baseline@, f.label@),
                current(f),
                attr,
            ),
            None => before,
        }
    }
}

/// Each change of a group as a change set of its own.
pub open spec fn group_sets(ops: Seq<GroupMod>) -> Seq<Changes> {
    ops.map_values(|g: GroupMod| (g.0, None, seq![g.1]))
}

/// The changes as the confirmation shows them: the entry's own ones if there are any, then those of
/// the groups.
pub open spec fn combined_preview(own: Changes, mask: Seq<Seq<char>>, ops: Seq<GroupMod>) -> Seq<
    Changes,
> {
    if own.2.len() == 0 {
        group_sets(ops)
    } else {
        seq![preview_of(own, mask)] + group_sets(ops)
    }
}

/// The refusal of a rename together with a change of groups.
pub open spec fn rename_text() -> Seq<char> {
    "Rename and membership changes can't be saved together — do them in separate saves."@
}

fn all_group_mods(form: &EditForm) -> (r: Vec<(String, ModOp)>)
    ensures
        fanout_model(r@) == all_fanout(*form, form.fields@.len() as int),
{
    let mut out: Vec<(String, ModOp)> = Vec::new();
    let mut i: usize = 0;
    assert(fanout_model(out@) =~= all_fanout(*form, 0));
    while i < form.fields.len()
        invariant
            i <= form.fields@.len(),
            fanout_model(out@) == all_fanout(*form, i as int),
        decreases form.fields@.len() - i,
    {
        match fanout_attr_of(&form.fields[i]) {
            Some(attr) => {
                let base: Vec<String> = form.baseline.get_or_none(&form.fields[i].label);
                let now: Vec<String> = form.fields[i].current_values();
                let mut ops: Vec<(String, ModOp)> = membership_fanout(&form.dn, &base, &now, &attr);
                let ghost o0 = out@;
                let ghost o1 = ops@;
                out.append(&mut ops);
                assert(fanout_model(out@) =~= fanout_model(o0) + fanout_model(o1));
            },
            None => {},
        }
        i += 1;
    }
    out
}

fn push_group_sets(sets: &mut Vec<ChangeSet>, ops: &Vec<(String, ModOp)>)
    ensures
        sets_model(final(sets)@) == sets_model(old(sets)@) + group_sets(fanout_model(ops@)),
{
    let ghost start = sets_model(sets@);
    let ghost goal = group_sets(fanout_model(ops@));
    let mut i: usize = 0;
    assert(start =~= start + goal.take(0));
    while i < ops.len()
        invariant
            i <= ops@.len(),
            goal == group_sets(fanout_model(ops@)),
            sets_model(sets@) == start + goal.take(i as int),
        decreases ops@.len() - i,
    {
        let cs: ChangeSet = ChangeSet { dn: ops[i].0.clone(), modrdn: None, mods: single_mod(ops[i].1.copy()) };
        let ghost s0 = sets@;
        proof {
            assert(fanout_model(ops@)[i as int] == (ops@[i as int].0@, ops@[i as int].1.model()));
            assert(cs.model() == goal[i as int]);
        }
        sets.push(cs);
        i += 1;
        proof {
            assert(sets_model(sets@) =~= sets_model(s0).push(goal[i - 1]));
            assert(sets_model(sets@) =~= start + goal.take(i as int));
        }
    }
    assert(goal.take(goal.len() as int) =~= goal);
}

/// Whether `r` is what a save with groups comes to whose validation and comparison found these
/// errors and changes of the entry itself. A rename is refused here. The preview hides the values
/// of `mask`; what is written does not.
pub open spec fn combined_settled(
    r: CombinedPlan,
    form: EditForm,
    errors: Vec<ValidationError>,
    found: Result<ChangeSet, String>,
    password: Seq<Mod>,
    mask: Seq<Seq<char>>,
) -> bool {
    if errors@.len() > 0 {
        r == CombinedPlan::Invalid(errors)
    } else {
        match found {
            Err(e) => r == CombinedPlan::DiffError(e),
            Ok(c) => if c.modrdn is Some {
                r matches CombinedPlan::Blocked(text) && text@ == rename_text()
            } else {
                match r {
                    CombinedPlan::Ready { entry_dn, own_mods, fanout: ops, preview } => {
                        let own = mods_model(c.mods@) + password;
                        let groups = all_fanout(form, form.fields@.len() as int);
                        &&& entry_dn@ == form.dn@
                        &&& mods_model(own_mods@) == own
                        &&& fanout_model(ops@) == groups
                        &&& sets_model(preview@) == combined_preview(
                            (form.dn@, None, own),
                            mask,
                            groups,
                        )
                    },
                    _ => false,
                }
            },
        }
    }
}

/// What a save with groups comes to, from what validation and comparison found of the entry itself.
pub fn settle_combined_save(
    form: &EditForm,
    errors: Vec<ValidationError>,
    found: Result<ChangeSet, String>,
    password_mods: Vec<ModOp>,
    mask_attrs: &Vec<String>,
) -> (r: CombinedPlan)
    ensures
        combined_settled(r, *form, errors, found, mods_model(password_mods@), texts(mask_attrs@)),
{
    if errors.len() > 0 {
        return CombinedPlan::Invalid(errors);
    }
    let mut own: ChangeSet = match found {
        Ok(c) => c,
        Err(e) => return CombinedPlan::DiffError(e),
    };
    if own.modrdn.is_some() {
        return CombinedPlan::Blocked(
            "Rename and membership changes can't be saved together — do them in separate saves.".to_owned(),
        );
    }
    own.dn = form.dn.clone();
    append_mods(&mut own.mods, password_mods);
    let ops: Vec<(String, ModOp)> = all_group_mods(form);
    let mut preview: Vec<ChangeSet> = Vec::new();
    assert(mods_model(own.mods@).len() == own.mods@.len());
    if !own.is_empty() {
        let shown: ChangeSet = mask_changeset_secrets(&own, mask_attrs);
        let ghost m = shown.model();
        preview.push(shown);
        assert(sets_model(preview@) =~= seq![m]);
    } else {
        assert(sets_model(preview@) =~= Seq::empty());
    }
    push_group_sets(&mut preview, &ops);
    proof {
        let g = group_sets(fanout_model(ops@));
        assert(Seq::<Changes>::empty() + g =~= g);
    }
    CombinedPlan::Ready { entry_dn: form.dn.clone(), own_mods: own.mods, fanout: ops, preview }
}

/// Whether `r` is what a save of `s` with its groups comes to: the edited side is validated, and only
/// a valid one is compared with the original side.
pub open spec fn combined_planned<
    V: Fn(&EditEntry, &Vec<String>) -> Vec<ValidationError>,
    D: Fn(&EditEntry, &EditEntry) -> Result<ChangeSet, String>,
>(
    r: CombinedPlan,
    form: EditForm,
    s: StagedSave,
    validate: V,
    diff: D,
    password: Seq<Mod>,
    mask: Seq<Seq<char>>,
) -> bool {
    exists|errors: Vec<ValidationError>, found: Result<ChangeSet, String>|
        {
            &&& #[trigger] call_ensures(validate, (&s.edited, &s.object_classes), errors)
            &&& errors@.len() == 0 ==> call_ensures(diff, (&s.original, &s.edited), found)
            &&& #[trigger] combined_settled(r, form, errors, found, password, mask)
        }
}

fn plan_staged<
    V: Fn(&EditEntry, &Vec<String>) -> Vec<ValidationError>,
    D: Fn(&EditEntry, &EditEntry) -> Result<ChangeSet, String>,
>(
    form: &EditForm,
    s: &StagedSave,
    password_mods: Vec<ModOp>,
    mask_attrs: &Vec<String>,
    validate: V,
    diff: D,
) -> (r: CombinedPlan)
    requires
        call_requires(validate, (&s.edited, &s.object_classes)),
        call_requires(diff, (&s.original, &s.edited)),
    ensures
        combined_planned(
            r,
            *form,
            *s,
            validate,
            diff,
            mods_model(password_mods@),
            texts(mask_attrs@),
        ),
{
    let errors: Vec<ValidationError> = validate(&s.edited, &s.object_classes);
    let found: Result<ChangeSet, String> = if errors.len() > 0 {
        Err(String::new())
    } else {
        diff(&s.original, &s.edited)
    };
    let ghost e = errors;
    let ghost f = found;
    let r: CombinedPlan = settle_combined_save(form, errors, found, password_mods, mask_attrs);
    assert(combined_settled(r, *form, e, f, mods_model(password_mods@), texts(mask_attrs@)));
    r
}

/// Plans the save of an entry together with its groups: `validate` checks the edited side of the
/// entry's own changes, and `diff` compares it with the original one. `stage` gives the changes of a
/// waiting password, and the attributes that the preview hides; over a connection that is not
/// encrypted it never sees one.
pub fn plan_combined_save<
    S: Fn(&str, &PasswordWidget) -> (Vec<ModOp>, Vec<String>),
    V: Fn(&EditEntry, &Vec<String>) -> Vec<ValidationError>,
    D: Fn(&EditEntry, &EditEntry) -> Result<ChangeSet, String>,
>(
    form: &EditForm,
    pw: Option<&PasswordWidget>,
    connection_encrypted: bool,
    stage: S,
    validate: V,
    diff: D,
) -> (r: CombinedPlan)
    requires
        forall|text: &str, w: &PasswordWidget|
            connection_encrypted && opt_text(form.pending_password) == Some(text@) && opt_widget(pw)
                == Some(*w) ==> #[trigger] call_requires(stage, (text, w)),
        forall|e: &EditEntry, ocs: &Vec<String>| call_requires(validate, (e, ocs)),
        forall|a: &EditEntry, b: &EditEntry| call_requires(diff, (a, b)),
    ensures
        if !membership_changed(*form) {
            r is NoMembershipChange
        } else if pw is Some && form.pending_password is Some && !connection_encrypted {
            r matches CombinedPlan::Blocked(text) && text@ == plain_link_text()
        } else {
            exists|s: StagedSave, password: Seq<Mod>, mask: Seq<Seq<char>>|
                {
                    &&& combined_staged(*form, opt_widget(pw), s)
                    &&& password_staged(stage, form.pending_password, opt_widget(pw), password, mask)
                    &&& #[trigger] combined_planned(r, *form, s, validate, diff, password, mask)
                }
        },
        r matches CombinedPlan::Ready { fanout: groups, .. } ==> groups_follow_the_form(
            *form,
            groups@,
        ),
{
    match stage_combined_save(form, pw, connection_encrypted) {
        CombinedStage::NoMembershipChange => CombinedPlan::NoMembershipChange,
        CombinedStage::Blocked(text) => CombinedPlan::Blocked(text),
        CombinedStage::Staged(s) => {
            let (password_mods, mask_attrs) = stage_password(form, pw, stage);
            let ghost pm = mods_model(password_mods@);
            let r: CombinedPlan = plan_staged(form, &s, password_mods, &mask_attrs, validate, diff);
            proof {
                assert(combined_planned(r, *form, s, validate, diff, pm, texts(mask_attrs@)));
                if r is Ready {
                    saves_change_the_groups_that_changed(
                        r,
                        *form,
                        s,
                        validate,
                        diff,
                        pm,
                        texts(mask_attrs@),
                    );
                }
            }
            r
        },
    }
}

/// How the password of a form's entry is kept, where it is typed into the form: as the first profile
/// says that keeps passwords and that the entry is an instance of.
pub open spec fn typed_spec(form: EditForm, profiles: Seq<EntryProfile>) -> Option<PasswordSpec> {
    match password_profile(profiles, object_classes(form)) {
        Some(i) => profiles[i].password,
        None => None,
    }
}

/// The password that was typed into edited attributes: none where the entry takes none, an error
/// where it was not repeated.
pub open spec fn typed_password(l: Seq<Attr>, spec: Option<PasswordSpec>) -> Result<
    Option<Seq<char>>,
    (),
> {
    match spec {
        Some(s) => confirmed(l, s.ldap_attribute@),
        None => Ok(None),
    }
}

/// One side of a save without the typed password: its two fields go, and with a new password the
/// Samba attributes that are written along with it.
pub open spec fn without_typed(
    l: Seq<Attr>,
    spec: Option<PasswordSpec>,
    ocs: Seq<Seq<char>>,
    typed: Option<Seq<char>>,
) -> Seq<Attr> {
    match spec {
        Some(s) => {
            let rest = without_password(l, s.ldap_attribute@);
            if typed is Some && with_samba(s, ocs) {
                without_samba(rest)
            } else {
                rest
            }
        },
        None => l,
    }
}

/// Whether `p` is the change of a typed password.
pub open spec fn typed_change(
    p: Option<StagedPassword>,
    spec: Option<PasswordSpec>,
    ocs: Seq<Seq<char>>,
    typed: Option<Seq<char>>,
) -> bool {
    match (p, typed) {
        (Some(x), Some(pw)) => {
            &&& x.clear@ == pw
            &&& spec matches Some(s) && x.attr@ == s.ldap_attribute@ && x.samba == with_samba(s, ocs)
                && texts(x.mask@) == mask_of(s.ldap_attribute@, x.samba)
        },
        (None, None) => true,
        _ => false,
    }
}

/// Whether `s` and `p` are the two sides of a save, from those that are given, without the typed
/// password, and the change of that password.
pub open spec fn typed_staged(
    form: EditForm,
    spec: Option<PasswordSpec>,
    original: Seq<Attr>,
    edited: Seq<Attr>,
    typed: Option<Seq<char>>,
    s: StagedSave,
    p: Option<StagedPassword>,
) -> bool {
    &&& s.original.dn@ == form.dn@
    &&& s.edited.dn@ == form.dn@
    &&& s.original.attrs@ == without_typed(original, spec, object_classes(form), typed)
    &&& s.edited.attrs@ == without_typed(edited, spec, object_classes(form), typed)
    &&& texts(s.object_classes@) == object_classes(form)
    &&& typed_change(p, spec, object_classes(form), typed)
}

fn take_typed(form: &EditForm, profiles: &Vec<EntryProfile>, original: AttrMap, edited: EditEntry) -> (r:
    Result<(StagedSave, Option<StagedPassword>), String>)
    requires
        edited.dn@ == form.dn@,
    ensures
        match typed_password(edited.attrs@, typed_spec(*form, profiles@)) {
            Err(_) => r matches Err(e) && e@ == "Passwords do not match."@,
            Ok(typed) => r matches Ok(x) && typed_staged(
                *form,
                typed_spec(*form, profiles@),
                original@,
                edited.attrs@,
                typed,
                x.0,
                x.1,
            ),
        },
{
    let object_classes: Vec<String> = object_classes_of(form);
    let mut original: EditEntry = EditEntry { dn: form.dn.clone(), attrs: original };
    let mut edited: EditEntry = edited;
    let spec: Option<&PasswordSpec> = match profile_for_entry(profiles, &object_classes) {
        Some(p) => p.password.as_ref(),
        None => None,
    };
    let password: Option<StagedPassword> = match spec {
        Some(spec) => {
            match stage_edit_password(spec, &object_classes, &mut original.attrs, &mut edited.attrs) {
                Ok(p) => p,
                Err(e) => return Err(e),
            }
        },
        None => None,
    };
    Ok((StagedSave { original, edited, object_classes }, password))
}

/// Prepares the two sides of the save of one entry whose password is typed into the form, with the
/// change of that password if there is one. The password field and the field that repeats it are no
/// attributes of the entry: they are on neither side. Two different entries are an error.
pub fn stage_typed_save(form: &EditForm, profiles: &Vec<EntryProfile>) -> (r: Result<
    (StagedSave, Option<StagedPassword>),
    String,
>)
    ensures
        match typed_password(own_attrs(form.fields@), typed_spec(*form, profiles@)) {
            Err(_) => r matches Err(e) && e@ == "Passwords do not match."@,
            Ok(typed) => r matches Ok(x) && typed_staged(
                *form,
                typed_spec(*form, profiles@),
                without_all(form.baseline@, fanout_names(form.fields@)),
                own_attrs(form.fields@),
                typed,
                x.0,
                x.1,
            ),
        },
{
    let labels: Vec<String> = form.fanout_labels();
    let mut original: AttrMap = form.baseline.copy();
    original.remove_all(&labels);
    take_typed(form, profiles, original, form.to_edit_entry())
}

/// Whether these are the changes that write a typed password, with the attributes that a preview
/// hides. There are none without a password.
pub open spec fn typed_written<W: Fn(&str, &str, bool) -> Vec<AttrEntry>>(
    write: W,
    p: Option<StagedPassword>,
    password: Seq<Mod>,
    mask: Seq<Seq<char>>,
) -> bool {
    match p {
        Some(x) => exists|text: &str, attr: &str, added: Vec<AttrEntry>|
            {
                &&& text@ == x.clear@
                &&& attr@ == x.attr@
                &&& #[trigger] call_ensures(write, (text, attr, x.samba), added)
                &&& password == replaced(added@)
                &&& mask == texts(x.mask@)
            },
        None => password == Seq::<Mod>::empty() && mask == Seq::<Seq<char>>::empty(),
    }
}

fn write_typed<W: Fn(&str, &str, bool) -> Vec<AttrEntry>>(p: Option<StagedPassword>, write: W) -> (r: (
    Vec<ModOp>,
    Vec<String>,
))
    requires
        forall|text: &str, attr: &str, samba: bool| call_requires(write, (text, attr, samba)),
    ensures
        typed_written(write, p, mods_model(r.0@), texts(r.1@)),
{
    match p {
        Some(x) => {
            let text: &str = x.clear.as_str();
            let attr: &str = x.attr.as_str();
            let added: Vec<AttrEntry> = write(text, attr, x.samba);
            assert(call_ensures(write, (text, attr, x.samba), added));
            let mods: Vec<ModOp> = password_replace_mods(&added);
            (mods, x.mask)
        },
        None => {
            let mods: Vec<ModOp> = Vec::new();
            let mask: Vec<String> = Vec::new();
            proof {
                assert(mods_model(mods@) =~= Seq::empty());
                assert(texts(mask@) =~= Seq::empty());
            }
            (mods, mask)
        },
    }
}

/// Prepares the save of one entry whose password is typed into the form. `write` gives the
/// attributes that write a password: the password itself under its attribute, and the Samba ones
/// where they go with it. A password that was not repeated is an error, and nothing is prepared.
pub fn prepare_typed_save<
    W: Fn(&str, &str, bool) -> Vec<AttrEntry>,
    V: Fn(&EditEntry, &Vec<String>) -> Vec<ValidationError>,
    D: Fn(&EditEntry, &EditEntry) -> Result<ChangeSet, String>,
>(form: &EditForm, profiles: &Vec<EntryProfile>, write: W, validate: V, diff: D) -> (r: Result<
    PrepareSave,
    String,
>)
    requires
        forall|text: &str, attr: &str, samba: bool| call_requires(write, (text, attr, samba)),
        forall|e: &EditEntry, ocs: &Vec<String>| call_requires(validate, (e, ocs)),
        forall|a: &EditEntry, b: &EditEntry| call_requires(diff, (a, b)),
    ensures
        match typed_password(own_attrs(form.fields@), typed_spec(*form, profiles@)) {
            Err(_) => r matches Err(e) && e@ == "Passwords do not match."@,
            Ok(typed) => r matches Ok(p) && exists|
                s: StagedSave,
                change: Option<StagedPassword>,
                password: Seq<Mod>,
                mask: Seq<Seq<char>>,
            |
                {
                    &&& typed_staged(
                        *form,
                        typed_spec(*form, profiles@),
                        without_all(form.baseline@, fanout_names(form.fields@)),
                        own_attrs(form.fields@),
                        typed,
                        s,
                        change,
                    )
                    &&& #[trigger] typed_written(write, change, password, mask)
                    &&& #[trigger] save_prepared(p, s, validate, diff, password, mask)
                },
        },
{
    match stage_typed_save(form, profiles) {
        Err(e) => Err(e),
        Ok((s, change)) => {
            let ghost c = change;
            let (password_mods, mask_attrs) = write_typed(change, write);
            let ghost password = mods_model(password_mods@);
            let p: PrepareSave = prepare_save(&s, password_mods, &mask_attrs, validate, diff);
            proof {
                assert(typed_written(write, c, password, texts(mask_attrs@)));
                assert(save_prepared(p, s, validate, diff, password, texts(mask_attrs@)));
            }
            Ok(p)
        },
    }
}

/// Whether `r` is the plan of a save with groups from a form that a password is typed into.
pub open spec fn typed_save_planned<
    W: Fn(&str, &str, bool) -> Vec<AttrEntry>,
    V: Fn(&EditEntry, &Vec<String>) -> Vec<ValidationError>,
    D: Fn(&EditEntry, &EditEntry) -> Result<ChangeSet, String>,
>(
    form: EditForm,
    profiles: Seq<EntryProfile>,
    write: W,
    validate: V,
    diff: D,
    r: CombinedPlan,
) -> bool {
    let names = fanout_names(form.fields@);
    let edited = without_all(own_attrs(form.fields@), names);
    if !membership_changed(form) {
        r is NoMembershipChange
    } else {
        match typed_password(edited, typed_spec(form, profiles)) {
            Err(_) => r matches CombinedPlan::Blocked(text) && text@ == "Passwords do not match."@,
            Ok(typed) => exists|
                s: StagedSave,
                change: Option<StagedPassword>,
                password: Seq<Mod>,
                mask: Seq<Seq<char>>,
            |
                {
                    &&& typed_staged(
                        form,
                        typed_spec(form, profiles),
                        without_all(form.baseline@, names),
                        edited,
                        typed,
                        s,
                        change,
                    )
                    &&& #[trigger] typed_written(write, change, password, mask)
                    &&& #[trigger] combined_planned(r, form, s, validate, diff, password, mask)
                },
        }
    }
}

/// Plans the save of an entry together with its groups, where its password is typed into the form.
/// A password that was not repeated refuses the whole save, groups and all.
pub fn plan_typed_save<
    W: Fn(&str, &str, bool) -> Vec<AttrEntry>,
    V: Fn(&EditEntry, &Vec<String>) -> Vec<ValidationError>,
    D: Fn(&EditEntry, &EditEntry) -> Result<ChangeSet, String>,
>(form: &EditForm, profiles: &Vec<EntryProfile>, write: W, validate: V, diff: D) -> (r: CombinedPlan)
    requires
        forall|text: &str, attr: &str, samba: bool| call_requires(write, (text, attr, samba)),
        forall|e: &EditEntry, ocs: &Vec<String>| call_requires(validate, (e, ocs)),
        forall|a: &EditEntry, b: &EditEntry| call_requires(diff, (a, b)),
    ensures
        typed_save_planned(*form, profiles@, write, validate, diff, r),
        r matches CombinedPlan::Ready { fanout: groups, .. } ==> groups_follow_the_form(
            *form,
            groups@,
        ),
{
    let labels: Vec<String> = form.fanout_labels();
    if !groups_changed(form, &labels) {
        return CombinedPlan::NoMembershipChange;
    }
    let mut original: AttrMap = form.baseline.copy();
    let mut edited: EditEntry = form.to_edit_entry();
    original.remove_all(&labels);
    edited.attrs.remove_all(&labels);
    match take_typed(form, profiles, original, edited) {
        Err(e) => CombinedPlan::Blocked(e),
        Ok((s, change)) => {
            let ghost c = change;
            let (password_mods, mask_attrs) = write_typed(change, write);
            let ghost password = mods_model(password_mods@);
            let r: CombinedPlan = plan_staged(form, &s, password_mods, &mask_attrs, validate, diff);
            proof {
                assert(typed_written(write, c, password, texts(mask_attrs@)));
                assert(combined_planned(
                    r,
                    *form,
                    s,
                    validate,
                    diff,
                    password,
                    texts(mask_attrs@),
                ));
                if r is Ready {
                    saves_change_the_groups_that_changed(
                        r,
                        *form,
                        s,
                        validate,
                        diff,
                        password,
                        texts(mask_attrs@),
                    );
                }
            }
            r
        },
    }
}

/// Neither the field of a typed password nor the one that repeats it is on a side of a save, in any
/// letter case: a blank field deletes no password, and the repeated one never becomes an attribute.
pub proof fn typed_fields_are_not_compared(
    l: Seq<Attr>,
    spec: PasswordSpec,
    ocs: Seq<Seq<char>>,
    typed: Option<Seq<char>>,
    i: int,
)
    requires
        0 <= i < without_typed(l, Some(spec), ocs, typed).len(),
    ensures
        !same_ci(without_typed(l, Some(spec), ocs, typed)[i].0, spec.ldap_attribute@),
        !same_ci(
            without_typed(l, Some(spec), ocs, typed)[i].0,
            confirm_label(spec.ldap_attribute@),
        ),
{
    let rest = without_password(l, spec.ldap_attribute@);
    let side = without_typed(l, Some(spec), ocs, typed);
    let mut at = i;
    if typed is Some && with_samba(spec, ocs) {
        let half = without_ci(rest, "sambaNTPassword"@);
        without_ci_absent(half, "sambaPwdLastSet"@, i);
        let j = choose|j: int| 0 <= j < half.len() && half[j] == side[i];
        without_ci_absent(rest, "sambaNTPassword"@, j);
        at = choose|k: int| 0 <= k < rest.len() && rest[k] == side[i];
    }
    no_password_is_left(l, spec.ldap_attribute@, at);
}

/// Whether `r` is the dialog for a save with groups as it was planned: the question with the preview,
/// or a message where it cannot be made.
pub open spec fn combined_asked(
    plan: CombinedPlan,
    ldif: String,
    then_intent: Option<GuardIntent>,
    r: Option<Overlay>,
) -> bool {
    match plan {
        CombinedPlan::NoMembershipChange => r is None,
        CombinedPlan::Ready { entry_dn, own_mods, fanout, preview } => match r {
            Some(Overlay::Confirm { title, body, action }) => {
                &&& title@ == "Apply these changes?"@
                &&& body == ldif
                &&& action == (PendingAction::CombinedSave {
                    entry_dn,
                    own_mods,
                    fanout,
                    then_intent,
                })
            },
            _ => false,
        },
        CombinedPlan::Blocked(msg) => r == Some(Overlay::Error { text: msg }),
        CombinedPlan::Invalid(errs) => r matches Some(Overlay::Error { text }) && text@
            == error_message(errs@),
        CombinedPlan::DiffError(e) => r == Some(Overlay::Error { text: e }),
    }
}

/// The dialog for a planned save with groups; `ldif` is its preview in words. There is none where
/// the plain save applies.
pub fn combined_save_overlay(
    plan: CombinedPlan,
    ldif: String,
    then_intent: Option<GuardIntent>,
) -> (r: Option<Overlay>)
    ensures
        combined_asked(plan, ldif, then_intent, r),
{
    match plan {
        CombinedPlan::NoMembershipChange => None,
        CombinedPlan::Ready { entry_dn, own_mods, fanout, preview } => Some(
            Overlay::Confirm {
                title: "Apply these changes?".to_owned(),
                body: ldif,
                action: PendingAction::CombinedSave { entry_dn, own_mods, fanout, then_intent },
            },
        ),
        CombinedPlan::Blocked(msg) => Some(Overlay::Error { text: msg }),
        CombinedPlan::Invalid(errs) => Some(
            Overlay::Error { text: format_validation_errors(&errs) },
        ),
        CombinedPlan::DiffError(e) => Some(Overlay::Error { text: e }),
    }
}

proof fn other_targets_are_kept(l: Seq<Attr>, targets: Seq<Seq<char>>, name: Seq<char>)
    requires
        forall|t: int| 0 <= t < targets.len() ==> !same_ci(name, #[trigger] targets[t]),
    ensures
        values_of(without_targets(l, targets), name) == values_of(l, name),
    decreases targets.len(),
{
    if targets.len() > 0 {
        let head = targets.drop_last();
        assert forall|t: int| 0 <= t < head.len() implies !same_ci(name, #[trigger] head[t]) by {
            assert(head[t] == targets[t]);
        }
        assert(targets.last() == targets[targets.len() - 1]);
        other_targets_are_kept(l, head, name);
        other_cases_are_dropped(without_targets(l, head), targets.last(), name);
    }
}

/// Whether a name is that of a password or of what is derived from it, in any letter case.
pub open spec fn is_password_name(pw: Option<PasswordWidget>, name: Seq<char>) -> bool {
    match pw {
        Some(w) => same_ci(name, w.primary@) || exists|k: int|
            0 <= k < w.derived@.len() && same_ci(name, (#[trigger] w.derived@[k])@),
        None => false,
    }
}

proof fn password_names_alone_are_dropped(
    l: Seq<Attr>,
    pw: Option<PasswordWidget>,
    name: Seq<char>,
)
    ensures
        values_of(without_widget(l, pw), name) == if is_password_name(pw, name) {
            None
        } else {
            values_of(l, name)
        },
{
    match pw {
        Some(w) => {
            let t = password_targets(w);
            let d = texts(w.derived@);
            if is_password_name(pw, name) {
                let k: int = if same_ci(name, w.primary@) {
                    0
                } else {
                    1 + choose|k: int|
                        0 <= k < w.derived@.len() && same_ci(name, (#[trigger] w.derived@[k])@)
                };
                assert(k > 0 ==> t[k] == d[k - 1]);
                assert(same_ci(name, t[k]));
                dropped_target(l, t, k, name);
            } else {
                assert forall|k: int| 0 <= k < t.len() implies !same_ci(name, #[trigger] t[k]) by {
                    if k > 0 {
                        assert(t[k] == d[k - 1]);
                        assert(!same_ci(name, w.derived@[k - 1]@));
                    }
                }
                other_targets_are_kept(l, t, name);
            }
        },
        None => {},
    }
}

proof fn dropped_target(l: Seq<Attr>, targets: Seq<Seq<char>>, k: int, name: Seq<char>)
    requires
        0 <= k < targets.len(),
        same_ci(name, targets[k]),
    ensures
        values_of(without_targets(l, targets), name) is None,
    decreases targets.len(),
{
    let head = targets.drop_last();
    other_cases_are_dropped(without_targets(l, head), targets.last(), name);
    if k < head.len() {
        assert(head[k] == targets[k]);
        dropped_target(l, head, k, name);
    }
}

/// The edited side of a save holds every field of the entry itself with what was entered, under its
/// label; the fields of a password alone are left to the password.
pub proof fn edits_are_compared(form: EditForm, pw: Option<PasswordWidget>, s: StagedSave, i: int)
    requires
        edit_staged(form, pw, s) || (combined_staged(form, pw, s) && !fanout_names(
            form.fields@,
        ).contains(form.fields@[i].label@)),
        0 <= i < form.fields@.len(),
        fanout_of(form.fields@[i]) is None,
        forall|j: int|
            i < j < form.fields@.len() && fanout_of(#[trigger] form.fields@[j]) is None
                ==> form.fields@[j].label@ != form.fields@[i].label@,
    ensures
        values_of(s.edited.attrs@, form.fields@[i].label@) == if is_password_name(
            pw,
            form.fields@[i].label@,
        ) {
            None
        } else {
            Some(current(form.fields@[i]))
        },
        s.edited.dn@ == form.dn@,
        s.original.dn@ == form.dn@,
{
    let label = form.fields@[i].label@;
    let names = fanout_names(form.fields@);
    edited_entry_holds_the_fields(form.fields@, i);
    if edit_staged(form, pw, s) {
        password_names_alone_are_dropped(own_attrs(form.fields@), pw, label);
    } else {
        other_names_are_kept(own_attrs(form.fields@), names, label);
        password_names_alone_are_dropped(without_all(own_attrs(form.fields@), names), pw, label);
    }
}

/// The original side of a save holds every attribute as the directory had it; what is written to
/// other entries, and the attributes of a password, are left out.
pub proof fn edits_are_compared_with_the_directory(
    form: EditForm,
    pw: Option<PasswordWidget>,
    s: StagedSave,
    name: Seq<char>,
)
    requires
        edit_staged(form, pw, s) || combined_staged(form, pw, s),
    ensures
        values_of(s.original.attrs@, name) == if is_password_name(pw, name) || exists|i: int|
            0 <= i < form.fields@.len() && fanout_of(#[trigger] form.fields@[i]) is Some
                && form.fields@[i].label@ == name {
            None
        } else {
            values_of(form.baseline@, name)
        },
{
    let names = fanout_names(form.fields@);
    fanout_labels_are_found(form.fields@, name);
    password_names_alone_are_dropped(without_all(form.baseline@, names), pw, name);
    if names.contains(name) {
        get_after_without_all(form.baseline@, names, name);
    } else {
        other_names_are_kept(form.baseline@, names, name);
    }
}

/// Nothing but the fields of the entry itself is on the edited side of a save.
pub proof fn only_fields_are_compared(
    form: EditForm,
    pw: Option<PasswordWidget>,
    s: StagedSave,
    name: Seq<char>,
)
    requires
        edit_staged(form, pw, s) || combined_staged(form, pw, s),
        forall|j: int|
            0 <= j < form.fields@.len() && fanout_of(#[trigger] form.fields@[j]) is None
                ==> form.fields@[j].label@ != name,
    ensures
        values_of(s.edited.attrs@, name) is None,
{
    edited_entry_holds_nothing_else(form.fields@, name);
    if edit_staged(form, pw, s) {
        password_names_alone_are_dropped(own_attrs(form.fields@), pw, name);
    } else {
        let names = fanout_names(form.fields@);
        get_after_without_all(own_attrs(form.fields@), names, name);
        password_names_alone_are_dropped(without_all(own_attrs(form.fields@), names), pw, name);
    }
}

/// Whether two renames are the same: the new first component, whether the old value goes, and the new
/// parent.
pub open spec fn same_rename(a: Option<ModRdn>, b: Option<ModRdn>) -> bool {
    match (a, b) {
        (Some(x), Some(y)) => {
            &&& x.new_rdn@ == y.new_rdn@
            &&& x.delete_old == y.delete_old
            &&& match (x.new_superior, y.new_superior) {
                (Some(p), Some(q)) => p@ == q@,
                (None, None) => true,
                _ => false,
            }
        },
        (None, None) => true,
        _ => false,
    }
}

/// Whether two changes are the same: what they do, to which attribute, with which values.
pub open spec fn same_change(a: ModOp, b: ModOp) -> bool {
    match (a, b) {
        (ModOp::Add { attr: x, values: v }, ModOp::Add { attr: y, values: w }) => x@ == y@ && texts(v@)
            == texts(w@),
        (ModOp::Delete { attr: x, values: v }, ModOp::Delete { attr: y, values: w }) => x@ == y@
            && texts(v@) == texts(w@),
        (ModOp::Replace { attr: x, values: v }, ModOp::Replace { attr: y, values: w }) => x@ == y@
            && texts(v@) == texts(w@),
        _ => false,
    }
}

/// Where the edited side is valid and the comparison can only find `c`, the save renames exactly as
/// `c` does and writes exactly the changes of `c`, in order, followed by those of the password. It
/// comes to nothing exactly when there is nothing of the kind; what it comes to otherwise always
/// changes something.
pub proof fn saves_write_what_the_comparison_found<
    V: Fn(&EditEntry, &Vec<String>) -> Vec<ValidationError>,
    D: Fn(&EditEntry, &EditEntry) -> Result<ChangeSet, String>,
>(
    r: PrepareSave,
    s: StagedSave,
    validate: V,
    diff: D,
    password: Seq<Mod>,
    mask: Seq<Seq<char>>,
    c: ChangeSet,
)
    requires
        save_prepared(r, s, validate, diff, password, mask),
        forall|e: Vec<ValidationError>|
            #[trigger] call_ensures(validate, (&s.edited, &s.object_classes), e) ==> e@.len() == 0,
        forall|f: Result<ChangeSet, String>|
            #[trigger] call_ensures(diff, (&s.original, &s.edited), f) ==> f == Ok::<ChangeSet, String>(c),
    ensures
        r is NoChanges <==> c.modrdn is None && c.mods@.len() == 0 && password.len() == 0,
        !(r is NoChanges) ==> r is Ready,
        r matches PrepareSave::Ready { changes, preview } ==> {
            &&& changes.dn@ == s.original.dn@ && preview.dn@ == s.original.dn@
            &&& same_rename(changes.modrdn, c.modrdn)
            &&& same_rename(preview.modrdn, c.modrdn)
            &&& changes.mods@.len() == c.mods@.len() + password.len()
            &&& forall|i: int|
                0 <= i < c.mods@.len() ==> same_change(#[trigger] changes.mods@[i], c.mods@[i])
            &&& forall|i: int|
                0 <= i < password.len() ==> changes.mods@[c.mods@.len() + i].model()
                    == #[trigger] password[i]
            &&& changes.modrdn is Some || changes.mods@.len() > 0
        },
{
    let (errors, found) = choose|errors: Vec<ValidationError>, found: Result<ChangeSet, String>|
        {
            &&& #[trigger] call_ensures(validate, (&s.edited, &s.object_classes), errors)
            &&& errors@.len() == 0 ==> call_ensures(diff, (&s.original, &s.edited), found)
            &&& #[trigger] save_settled(r, s.original.dn@, errors, found, password, mask)
        };
    if let PrepareSave::Ready { changes, preview } = r {
        let all = changes.model().2;
        assert(changes.model() == (
            s.original.dn@,
            opt_rename(c.modrdn),
            mods_model(c.mods@) + password,
        ));
        assert(all.len() == changes.mods@.len());
        assert(mods_model(c.mods@).len() == c.mods@.len());
        assert forall|i: int| 0 <= i < c.mods@.len() implies same_change(
            #[trigger] changes.mods@[i],
            c.mods@[i],
        ) by {
            assert(all[i] == changes.mods@[i].model());
            assert(all[i] == mods_model(c.mods@)[i]);
            changes_are_told_apart(changes.mods@[i]);
            changes_are_told_apart(c.mods@[i]);
        }
        assert forall|i: int| 0 <= i < password.len() implies changes.mods@[c.mods@.len() + i].model()
            == #[trigger] password[i] by {
            assert(all[c.mods@.len() + i] == changes.mods@[c.mods@.len() + i].model());
        }
        assert(preview.model().1 == opt_rename(c.modrdn));
    }
}

/// A preview shows every change of a save, and in place of the values of a hidden attribute only
/// asterisks.
pub proof fn previews_show_every_change<
    V: Fn(&EditEntry, &Vec<String>) -> Vec<ValidationError>,
    D: Fn(&EditEntry, &EditEntry) -> Result<ChangeSet, String>,
>(
    r: PrepareSave,
    s: StagedSave,
    validate: V,
    diff: D,
    password: Seq<Mod>,
    mask: Seq<Seq<char>>,
    i: int,
)
    requires
        save_prepared(r, s, validate, diff, password, mask),
        r is Ready,
        0 <= i < r->Ready_changes.mods@.len(),
    ensures
        r->Ready_preview.mods@.len() == r->Ready_changes.mods@.len(),
        r->Ready_preview.mods@[i].model().0 == r->Ready_changes.mods@[i].model().0,
        r->Ready_preview.mods@[i].model().1 == r->Ready_changes.mods@[i].model().1,
        has_ci(mask, r->Ready_changes.mods@[i].model().1) && !(r->Ready_changes.mods@[i] is Delete)
            ==> r->Ready_preview.mods@[i].model().2 == seq!["********"@],
        !has_ci(mask, r->Ready_changes.mods@[i].model().1) ==> same_change(
            r->Ready_preview.mods@[i],
            r->Ready_changes.mods@[i],
        ),
{
    let a = r->Ready_changes;
    let b = r->Ready_preview;
    assert(a.model().2.len() == a.mods@.len());
    assert(b.model().2.len() == b.mods@.len());
    assert(a.model().2[i] == a.mods@[i].model());
    masking_keeps_the_rest(a.model().2, mask, i);
    assert(b.model().2 == masked_mods(a.model().2, mask));
    assert(b.model().2[i] == b.mods@[i].model());
    changes_are_told_apart(a.mods@[i]);
    changes_are_told_apart(b.mods@[i]);
    if has_ci(mask, a.mods@[i].model().1) && !(a.mods@[i] is Delete) {
        masked_previews_hide_secrets(a.model().2, mask, i);
    }
}

/// An entry that is not valid is not saved: its problems are reported, all of them. A comparison that
/// fails is reported too.
pub proof fn invalid_entries_are_not_saved<
    V: Fn(&EditEntry, &Vec<String>) -> Vec<ValidationError>,
    D: Fn(&EditEntry, &EditEntry) -> Result<ChangeSet, String>,
>(
    r: PrepareSave,
    s: StagedSave,
    validate: V,
    diff: D,
    password: Seq<Mod>,
    mask: Seq<Seq<char>>,
)
    requires
        save_prepared(r, s, validate, diff, password, mask),
    ensures
        (forall|e: Vec<ValidationError>|
            #[trigger] call_ensures(validate, (&s.edited, &s.object_classes), e) ==> e@.len() > 0)
            ==> r is Invalid,
        r matches PrepareSave::Invalid(errors) ==> errors@.len() > 0 && call_ensures(
            validate,
            (&s.edited, &s.object_classes),
            errors,
        ),
        !(r is Invalid) ==> exists|e: Vec<ValidationError>|
            #[trigger] call_ensures(validate, (&s.edited, &s.object_classes), e) && e@.len() == 0,
        r matches PrepareSave::DiffError(text) ==> call_ensures(
            diff,
            (&s.original, &s.edited),
            Err::<ChangeSet, String>(text),
        ),
        r is Ready || r is NoChanges ==> exists|c: ChangeSet|
            #[trigger] call_ensures(diff, (&s.original, &s.edited), Ok::<ChangeSet, String>(c)),
{
}

/// A password is written exactly when one waits and the entry has a place for it: then it is what
/// staging gives, and otherwise nothing.
pub proof fn waiting_passwords_are_written<
    S: Fn(&str, &PasswordWidget) -> (Vec<ModOp>, Vec<String>),
>(
    stage: S,
    pending: Option<String>,
    pw: Option<PasswordWidget>,
    password: Seq<Mod>,
    mask: Seq<Seq<char>>,
)
    requires
        password_staged(stage, pending, pw, password, mask),
    ensures
        pending is None || pw is None ==> password.len() == 0 && mask.len() == 0,
        pending is Some && pw is Some ==> exists|
            text: &str,
            w: &PasswordWidget,
            out: (Vec<ModOp>, Vec<String>),
        |
            {
                &&& #[trigger] call_ensures(stage, (text, w), out)
                &&& text@ == pending->0@ && *w == pw->0
                &&& out.0@.len() == password.len() && out.1@.len() == mask.len()
                &&& forall|i: int| 0 <= i < password.len() ==> out.0@[i].model() == #[trigger] password[i]
                &&& forall|i: int| 0 <= i < mask.len() ==> out.1@[i]@ == #[trigger] mask[i]
            },
{
    if pending is Some && pw is Some {
        let (text, w, out) = choose|text: &str, w: &PasswordWidget, out: (Vec<ModOp>, Vec<String>)|
            {
                &&& text@ == pending->0@
                &&& *w == pw->0
                &&& #[trigger] call_ensures(stage, (text, w), out)
                &&& password == mods_model(out.0@)
                &&& mask == texts(out.1@)
            };
        assert(call_ensures(stage, (text, w), out));
        assert(password.len() == out.0@.len());
        assert(mask.len() == out.1@.len());
    }
}

/// Whether a field that is written to the attribute `a` of other entries makes the entry join the
/// group `g`: the group is chosen now, and was none before, in any letter case.
pub open spec fn joins(form: EditForm, i: int, a: Seq<char>, g: Seq<char>) -> bool {
    &&& 0 <= i < form.fields@.len()
    &&& fanout_of(form.fields@[i]) == Some(a)
    &&& current(form.fields@[i]).contains(g)
    &&& !has_ci(values_or_none(form.baseline@, form.fields@[i].label@), g)
}

/// Whether such a field makes the entry leave the group `g`: it was one before, and is no longer
/// chosen, in any letter case.
pub open spec fn leaves(form: EditForm, i: int, a: Seq<char>, g: Seq<char>) -> bool {
    &&& 0 <= i < form.fields@.len()
    &&& fanout_of(form.fields@[i]) == Some(a)
    &&& values_or_none(form.baseline@, form.fields@[i].label@).contains(g)
    &&& !has_ci(current(form.fields@[i]), g)
}

proof fn all_fanout_found(form: EditForm, n: int, a: Seq<char>, g: Seq<char>)
    requires
        0 <= n <= form.fields@.len(),
    ensures
        all_fanout(form, n).contains((g, (ModKind::Add, a, seq![form.dn@]))) <==> exists|i: int|
            i < n && #[trigger] joins(form, i, a, g),
        all_fanout(form, n).contains((g, (ModKind::Delete, a, seq![form.dn@]))) <==> exists|i: int|
            i < n && #[trigger] leaves(form, i, a, g),
    decreases n,
{
    let add = (g, (ModKind::Add, a, seq![form.dn@]));
    let del = (g, (ModKind::Delete, a, seq![form.dn@]));
    let all = all_fanout(form, n);
    if n > 0 {
        let f = form.fields@[n - 1];
        let before = all_fanout(form, n - 1);
        all_fanout_found(form, n - 1, a, g);
        let held = values_or_none(form.baseline@, f.label@);
        match fanout_of(f) {
            Some(b) => {
                let more = fanout(form.dn@, held, current(f), b);
                fanout_is_the_difference(form.dn@, held, current(f), b, g);
                fanout_names_the_holder(form.dn@, held, current(f), b);
                in_either(before, more, add);
                in_either(before, more, del);
                if a != b {
                    if more.contains(add) {
                        let k = choose|k: int| 0 <= k < more.len() && more[k] == add;
                        assert(more[k].1.1 == b);
                    }
                    if more.contains(del) {
                        let k = choose|k: int| 0 <= k < more.len() && more[k] == del;
                        assert(more[k].1.1 == b);
                    }
                }
            },
            None => {},
        }
        if joins(form, n - 1, a, g) {
            assert(exists|i: int| i < n && #[trigger] joins(form, i, a, g));
        }
        if leaves(form, n - 1, a, g) {
            assert(exists|i: int| i < n && #[trigger] leaves(form, i, a, g));
        }
        if exists|i: int| i < n && #[trigger] joins(form, i, a, g) {
            let i = choose|i: int| i < n && #[trigger] joins(form, i, a, g);
            assert(i == n - 1 || i < n - 1);
        }
        if exists|i: int| i < n && #[trigger] leaves(form, i, a, g) {
            let i = choose|i: int| i < n && #[trigger] leaves(form, i, a, g);
            assert(i == n - 1 || i < n - 1);
        }
    }
}

proof fn in_either(a: Seq<GroupMod>, b: Seq<GroupMod>, x: GroupMod)
    ensures
        (a + b).contains(x) <==> a.contains(x) || b.contains(x),
{
    let all = a + b;
    if a.contains(x) {
        let k = choose|k: int| 0 <= k < a.len() && a[k] == x;
        assert(all[k] == x);
    }
    if b.contains(x) {
        let k = choose|k: int| 0 <= k < b.len() && b[k] == x;
        assert(all[a.len() + k] == x);
    }
    if all.contains(x) {
        let k = choose|k: int| 0 <= k < all.len() && all[k] == x;
        if k < a.len() {
            assert(a[k] == x);
        } else {
            assert(b[k - a.len()] == x);
        }
    }
}

proof fn fanout_names_the_holder(
    dn: Seq<char>,
    held: Seq<Seq<char>>,
    chosen: Seq<Seq<char>>,
    attr: Seq<char>,
)
    ensures
        forall|k: int|
            0 <= k < fanout(dn, held, chosen, attr).len() ==> {
                let m = (#[trigger] fanout(dn, held, chosen, attr)[k]).1;
                m == (ModKind::Add, attr, seq![dn]) || m == (ModKind::Delete, attr, seq![dn])
            },
{
    fanout_joins_before_it_leaves(dn, held, chosen, attr);
}

proof fn all_fanout_names_the_entry(form: EditForm, n: int, k: int)
    requires
        0 <= n <= form.fields@.len(),
        0 <= k < all_fanout(form, n).len(),
    ensures
        ({
            let m = all_fanout(form, n)[k].1;
            m == (ModKind::Add, m.1, seq![form.dn@]) || m == (ModKind::Delete, m.1, seq![form.dn@])
        }),
    decreases n,
{
    let f = form.fields@[n - 1];
    let before = all_fanout(form, n - 1);
    if k < before.len() {
        all_fanout_names_the_entry(form, n - 1, k);
        assert(all_fanout(form, n)[k] == before[k]);
    } else {
        let attr = fanout_of(f)->0;
        let held = values_or_none(form.baseline@, f.label@);
        fanout_names_the_holder(form.dn@, held, current(f), attr);
        assert(all_fanout(form, n)[k] == fanout(form.dn@, held, current(f), attr)[k - before.len()]);
    }
}

/// Whether a change of a group adds the entry to it, under the attribute `a`.
pub open spec fn adds_member(change: (String, ModOp), g: Seq<char>, a: Seq<char>, dn: Seq<char>) -> bool {
    change.0@ == g && (change.1 matches ModOp::Add { attr, values } && attr@ == a && values@.len() == 1
        && values@[0]@ == dn)
}

/// Whether a change of a group takes the entry out of it, under the attribute `a`.
pub open spec fn removes_member(
    change: (String, ModOp),
    g: Seq<char>,
    a: Seq<char>,
    dn: Seq<char>,
) -> bool {
    change.0@ == g && (change.1 matches ModOp::Delete { attr, values } && attr@ == a
        && values@.len() == 1 && values@[0]@ == dn)
}

/// Whether a form calls for a change of a group.
pub open spec fn called_for(form: EditForm, change: (String, ModOp)) -> bool {
    ||| exists|a: Seq<char>, i: int|
        adds_member(change, change.0@, a, form.dn@) && #[trigger] joins(form, i, a, change.0@)
    ||| exists|a: Seq<char>, i: int|
        removes_member(change, change.0@, a, form.dn@) && #[trigger] leaves(form, i, a, change.0@)
}

/// Whether changes of groups are those that a form calls for: each group that the entry joins gets an
/// addition of it, each that it leaves a deletion, and no group anything else.
pub open spec fn groups_follow_the_form(form: EditForm, changes: Seq<(String, ModOp)>) -> bool {
    &&& forall|a: Seq<char>, g: Seq<char>, i: int|
        #[trigger] joins(form, i, a, g) ==> exists|k: int|
            0 <= k < changes.len() && adds_member(#[trigger] changes[k], g, a, form.dn@)
    &&& forall|a: Seq<char>, g: Seq<char>, i: int|
        #[trigger] leaves(form, i, a, g) ==> exists|k: int|
            0 <= k < changes.len() && removes_member(#[trigger] changes[k], g, a, form.dn@)
    &&& forall|k: int| 0 <= k < changes.len() ==> called_for(form, #[trigger] changes[k])
}

proof fn change_is_told(change: (String, ModOp), g: Seq<char>, a: Seq<char>, dn: Seq<char>)
    ensures
        adds_member(change, g, a, dn) <==> (change.0@, change.1.model()) == (
            g,
            (ModKind::Add, a, seq![dn]),
        ),
        removes_member(change, g, a, dn) <==> (change.0@, change.1.model()) == (
            g,
            (ModKind::Delete, a, seq![dn]),
        ),
{
    changes_are_told_apart(change.1);
    match change.1 {
        ModOp::Add { attr, values } => {
            assert(texts(values@).len() == values@.len());
            if values@.len() == 1 && values@[0]@ == dn {
                assert(texts(values@) =~= seq![dn]);
            }
            if texts(values@) == seq![dn] {
                assert(texts(values@)[0] == values@[0]@);
            }
        },
        ModOp::Delete { attr, values } => {
            assert(texts(values@).len() == values@.len());
            if values@.len() == 1 && values@[0]@ == dn {
                assert(texts(values@) =~= seq![dn]);
            }
            if texts(values@) == seq![dn] {
                assert(texts(values@)[0] == values@[0]@);
            }
        },
        _ => {},
    }
}

/// A save with groups makes the entry join the groups that are newly chosen and leave those that are
/// no longer chosen, field by field, and changes no other group.
pub proof fn saves_change_the_groups_that_changed<
    V: Fn(&EditEntry, &Vec<String>) -> Vec<ValidationError>,
    D: Fn(&EditEntry, &EditEntry) -> Result<ChangeSet, String>,
>(
    r: CombinedPlan,
    form: EditForm,
    s: StagedSave,
    validate: V,
    diff: D,
    password: Seq<Mod>,
    mask: Seq<Seq<char>>,
)
    requires
        combined_planned(r, form, s, validate, diff, password, mask),
        r is Ready,
    ensures
        groups_follow_the_form(form, r->Ready_fanout@),
        r->Ready_entry_dn@ == form.dn@,
{
    let n = form.fields@.len() as int;
    let changes = r->Ready_fanout@;
    let all = all_fanout(form, n);
    assert(fanout_model(changes) == all);
    assert(changes.len() == fanout_model(changes).len());
    assert forall|a: Seq<char>, g: Seq<char>, i: int| #[trigger]
        joins(form, i, a, g) implies exists|k: int|
        0 <= k < changes.len() && adds_member(#[trigger] changes[k], g, a, form.dn@) by {
        all_fanout_found(form, n, a, g);
        let x = (g, (ModKind::Add, a, seq![form.dn@]));
        assert(all.contains(x));
        let k = choose|k: int| 0 <= k < all.len() && all[k] == x;
        assert(fanout_model(changes)[k] == (changes[k].0@, changes[k].1.model()));
        change_is_told(changes[k], g, a, form.dn@);
    }
    assert forall|a: Seq<char>, g: Seq<char>, i: int| #[trigger]
        leaves(form, i, a, g) implies exists|k: int|
        0 <= k < changes.len() && removes_member(#[trigger] changes[k], g, a, form.dn@) by {
        all_fanout_found(form, n, a, g);
        let x = (g, (ModKind::Delete, a, seq![form.dn@]));
        assert(all.contains(x));
        let k = choose|k: int| 0 <= k < all.len() && all[k] == x;
        assert(fanout_model(changes)[k] == (changes[k].0@, changes[k].1.model()));
        change_is_told(changes[k], g, a, form.dn@);
    }
    assert forall|k: int| 0 <= k < changes.len() implies called_for(form, #[trigger] changes[k]) by {
        let g = changes[k].0@;
        assert(fanout_model(changes)[k] == (g, changes[k].1.model()));
        all_fanout_names_the_entry(form, n, k);
        let a = all[k].1.1;
        change_is_told(changes[k], g, a, form.dn@);
        all_fanout_found(form, n, a, g);
        assert(all.contains(all[k]));
        if all[k].1.0 == ModKind::Add {
            let i = choose|i: int| i < n && #[trigger] joins(form, i, a, g);
            assert(adds_member(changes[k], g, a, form.dn@) && joins(form, i, a, g));
        } else {
            let i = choose|i: int| i < n && #[trigger] leaves(form, i, a, g);
            assert(removes_member(changes[k], g, a, form.dn@) && leaves(form, i, a, g));
        }
    }
}

/// Where the edited side is valid and the comparison can only find `c`, a save with groups is refused
/// exactly when `c` renames the entry. Otherwise the entry's own changes are those of `c`, in order,
/// followed by those of the password.
pub proof fn combined_saves_write_what_the_comparison_found<
    V: Fn(&EditEntry, &Vec<String>) -> Vec<ValidationError>,
    D: Fn(&EditEntry, &EditEntry) -> Result<ChangeSet, String>,
>(
    r: CombinedPlan,
    form: EditForm,
    s: StagedSave,
    validate: V,
    diff: D,
    password: Seq<Mod>,
    mask: Seq<Seq<char>>,
    c: ChangeSet,
)
    requires
        combined_planned(r, form, s, validate, diff, password, mask),
        forall|e: Vec<ValidationError>|
            #[trigger] call_ensures(validate, (&s.edited, &s.object_classes), e) ==> e@.len() == 0,
        forall|f: Result<ChangeSet, String>|
            #[trigger] call_ensures(diff, (&s.original, &s.edited), f) ==> f == Ok::<ChangeSet, String>(c),
    ensures
        c.modrdn is Some ==> (r matches CombinedPlan::Blocked(text) && text@
            == "Rename and membership changes can't be saved together — do them in separate saves."@),
        c.modrdn is None ==> r is Ready,
        r is Ready ==> {
            let own = r->Ready_own_mods@;
            &&& own.len() == c.mods@.len() + password.len()
            &&& forall|i: int| 0 <= i < c.mods@.len() ==> same_change(#[trigger] own[i], c.mods@[i])
            &&& forall|i: int|
                0 <= i < password.len() ==> own[c.mods@.len() + i].model() == #[trigger] password[i]
        },
{
    if r is Ready {
        let own = r->Ready_own_mods@;
        let all = mods_model(own);
        assert(all == mods_model(c.mods@) + password);
        assert(all.len() == own.len());
        assert(mods_model(c.mods@).len() == c.mods@.len());
        assert forall|i: int| 0 <= i < c.mods@.len() implies same_change(
            #[trigger] own[i],
            c.mods@[i],
        ) by {
            assert(all[i] == own[i].model());
            assert(all[i] == mods_model(c.mods@)[i]);
            changes_are_told_apart(own[i]);
            changes_are_told_apart(c.mods@[i]);
        }
        assert forall|i: int| 0 <= i < password.len() implies own[c.mods@.len() + i].model()
            == #[trigger] password[i] by {
            assert(all[c.mods@.len() + i] == own[c.mods@.len() + i].model());
        }
    }
}

/// An invalid entry is not saved with its groups either, and neither is one that cannot be compared.
pub proof fn invalid_entries_keep_their_groups<
    V: Fn(&EditEntry, &Vec<String>) -> Vec<ValidationError>,
    D: Fn(&EditEntry, &EditEntry) -> Result<ChangeSet, String>,
>(
    r: CombinedPlan,
    form: EditForm,
    s: StagedSave,
    validate: V,
    diff: D,
    password: Seq<Mod>,
    mask: Seq<Seq<char>>,
)
    requires
        combined_planned(r, form, s, validate, diff, password, mask),
    ensures
        r matches CombinedPlan::Invalid(errors) ==> errors@.len() > 0 && call_ensures(
            validate,
            (&s.edited, &s.object_classes),
            errors,
        ),
        (forall|e: Vec<ValidationError>|
            #[trigger] call_ensures(validate, (&s.edited, &s.object_classes), e) ==> e@.len() > 0)
            ==> r is Invalid,
        r matches CombinedPlan::DiffError(text) ==> call_ensures(
            diff,
            (&s.original, &s.edited),
            Err::<ChangeSet, String>(text),
        ),
        r is Ready ==> exists|c: ChangeSet|
            #[trigger] call_ensures(diff, (&s.original, &s.edited), Ok::<ChangeSet, String>(c))
                && c.modrdn is None,
        !(r is NoMembershipChange),
{
}

/// The preview of a save with groups shows the entry's own changes first, if it has any, and then each
/// change of a group by itself, in order.
pub proof fn combined_previews_show_every_change<
    V: Fn(&EditEntry, &Vec<String>) -> Vec<ValidationError>,
    D: Fn(&EditEntry, &EditEntry) -> Result<ChangeSet, String>,
>(
    r: CombinedPlan,
    form: EditForm,
    s: StagedSave,
    validate: V,
    diff: D,
    password: Seq<Mod>,
    mask: Seq<Seq<char>>,
)
    requires
        combined_planned(r, form, s, validate, diff, password, mask),
        r is Ready,
    ensures
        ({
            let own = r->Ready_own_mods@;
            let groups = r->Ready_fanout@;
            let shown = r->Ready_preview@;
            let lead: int = if own.len() > 0 {
                1
            } else {
                0
            };
            &&& shown.len() == lead + groups.len()
            &&& lead == 1 ==> shown[0].dn@ == form.dn@ && shown[0].modrdn is None
                && shown[0].mods@.len() == own.len() && forall|i: int|
                0 <= i < own.len() ==> (#[trigger] shown[0].mods@[i]).model().0 == own[i].model().0
                    && shown[0].mods@[i].model().1 == own[i].model().1 && (if has_ci(
                    mask,
                    own[i].model().1,
                ) && !(own[i] is Delete) {
                    shown[0].mods@[i].model().2 == seq!["********"@]
                } else {
                    shown[0].mods@[i].model().2 == own[i].model().2
                })
            &&& forall|k: int|
                0 <= k < groups.len() ==> (#[trigger] shown[lead + k]).dn@ == groups[k].0@
                    && shown[lead + k].modrdn is None && shown[lead + k].mods@.len() == 1
                    && same_change(shown[lead + k].mods@[0], groups[k].1)
        }),
{
    let own = r->Ready_own_mods@;
    let groups = r->Ready_fanout@;
    let shown = r->Ready_preview@;
    let lead: int = if own.len() > 0 {
        1
    } else {
        0
    };
    let ops = fanout_model(groups);
    let sets = sets_model(shown);
    assert(mods_model(own).len() == own.len());
    assert(ops.len() == groups.len());
    assert(sets == combined_preview((form.dn@, None, mods_model(own)), mask, ops));
    assert(sets.len() == shown.len());
    assert(group_sets(ops).len() == ops.len());
    if lead == 1 {
        assert(sets[0] == shown[0].model());
        assert(sets[0] == preview_of((form.dn@, None, mods_model(own)), mask));
        let m = shown[0].mods@;
        assert(mods_model(m).len() == m.len());
        assert(mods_model(m) == masked_mods(mods_model(own), mask));
        assert(masked_mods(mods_model(own), mask).len() == own.len());
        assert forall|i: int| 0 <= i < own.len() implies (#[trigger] m[i]).model().0
            == own[i].model().0 && m[i].model().1 == own[i].model().1 && (if has_ci(
            mask,
            own[i].model().1,
        ) && !(own[i] is Delete) {
            m[i].model().2 == seq!["********"@]
        } else {
            m[i].model().2 == own[i].model().2
        }) by {
            assert(mods_model(m)[i] == m[i].model());
            assert(mods_model(own)[i] == own[i].model());
            changes_are_told_apart(own[i]);
        }
    }
    assert forall|k: int| 0 <= k < groups.len() implies (#[trigger] shown[lead + k]).dn@
        == groups[k].0@ && shown[lead + k].modrdn is None && shown[lead + k].mods@.len() == 1
        && same_change(shown[lead + k].mods@[0], groups[k].1) by {
        let x = shown[lead + k];
        assert(sets[lead + k] == x.model());
        assert(ops[k] == (groups[k].0@, groups[k].1.model()));
        assert(group_sets(ops)[k] == (ops[k].0, None::<crate::changes::Rename>, seq![ops[k].1]));
        assert(mods_model(x.mods@).len() == x.mods@.len());
        assert(mods_model(x.mods@)[0] == x.mods@[0].model());
        changes_are_told_apart(x.mods@[0]);
        changes_are_told_apart(groups[k].1);
    }
}

/// A save touches groups exactly when a field under the label of one that is written to other entries
/// holds other values than the directory: any that came, any that went, or another number of them.
pub proof fn changed_memberships_are_seen(form: EditForm, i: int, k: int, v: Seq<char>)
    requires
        0 <= i < form.fields@.len(),
        0 <= k < form.fields@.len(),
        fanout_of(form.fields@[k]) is Some,
        form.fields@[k].label@ == form.fields@[i].label@,
    ensures
        ({
            let now = current(form.fields@[i]);
            let was = values_or_none(form.baseline@, form.fields@[i].label@);
            now.contains(v) != was.contains(v) || now.len() != was.len()
        }) ==> membership_changed(form),
{
    let f = form.fields@[i];
    let now = current(f);
    let was = values_or_none(form.baseline@, f.label@);
    fanout_labels_are_found(form.fields@, f.label@);
    assert(fanout_of(form.fields@[k]) is Some);
    if now.contains(v) && !was.contains(v) {
        let j = choose|j: int| 0 <= j < now.len() && now[j] == v;
        assert(!was.contains(now[j]));
        assert(field_changed(f, form.baseline@));
    } else if was.contains(v) && !now.contains(v) {
        let j = choose|j: int| 0 <= j < was.len() && was[j] == v;
        assert(!now.contains(was[j]));
        assert(field_changed(f, form.baseline@));
    }
}

/// A form without a field that is written to other entries, or whose such fields hold what the
/// directory had, in whatever order, changes no group.
pub proof fn unchanged_memberships_stay(form: EditForm)
    requires
        forall|i: int, k: int|
            0 <= i < form.fields@.len() && 0 <= k < form.fields@.len() && fanout_of(
                #[trigger] form.fields@[k],
            ) is Some && form.fields@[k].label@ == (#[trigger] form.fields@[i]).label@ ==> current(
                form.fields@[i],
            ).to_multiset() == values_or_none(
                form.baseline@,
                form.fields@[i].label@,
            ).to_multiset(),
    ensures
        !membership_changed(form),
{
    assert forall|i: int|
        0 <= i < form.fields@.len() && fanout_names(form.fields@).contains(
            (#[trigger] form.fields@[i]).label@,
        ) implies !field_changed(form.fields@[i], form.baseline@) by {
        let f = form.fields@[i];
        fanout_labels_are_found(form.fields@, f.label@);
        let k = choose|k: int|
            0 <= k < form.fields@.len() && fanout_of(#[trigger] form.fields@[k]) is Some
                && form.fields@[k].label@ == f.label@;
        assert(form.fields@[k].label@ == form.fields@[i].label@);
        reordering_keeps_values(current(f), values_or_none(form.baseline@, f.label@));
    }
}

/// Whether a name is that of a typed password, of the field that repeats it or, where a new password
/// takes Samba along, of a Samba attribute.
pub open spec fn is_typed_name(
    spec: Option<PasswordSpec>,
    ocs: Seq<Seq<char>>,
    typed: Option<Seq<char>>,
    name: Seq<char>,
) -> bool {
    match spec {
        Some(s) => {
            ||| same_ci(name, s.ldap_attribute@)
            ||| same_ci(name, s.ldap_attribute@ + " (confirm)"@)
            ||| typed is Some && s.samba && has_ci(ocs, "sambaSamAccount"@) && (same_ci(
                name,
                "sambaNTPassword"@,
            ) || same_ci(name, "sambaPwdLastSet"@))
        },
        None => false,
    }
}

/// Both sides of a save with a typed password hold every attribute as it was given to them, but for
/// those of the password; its change is exactly what was typed, under the attribute that the profile
/// names.
pub proof fn typed_saves_keep_the_rest(
    form: EditForm,
    spec: Option<PasswordSpec>,
    original: Seq<Attr>,
    edited: Seq<Attr>,
    typed: Option<Seq<char>>,
    s: StagedSave,
    p: Option<StagedPassword>,
    name: Seq<char>,
)
    requires
        typed_staged(form, spec, original, edited, typed, s, p),
    ensures
        s.original.dn@ == form.dn@,
        s.edited.dn@ == form.dn@,
        ({
            let gone = is_typed_name(spec, object_classes(form), typed, name);
            &&& gone ==> values_of(s.original.attrs@, name) is None && values_of(
                s.edited.attrs@,
                name,
            ) is None
            &&& !gone ==> values_of(s.original.attrs@, name) == values_of(original, name)
                && values_of(s.edited.attrs@, name) == values_of(edited, name)
        }),
        p is Some <==> typed is Some,
        p matches Some(x) ==> x.clear@ == typed->0 && spec is Some && x.attr@
            == spec->0.ldap_attribute@ && (x.samba <==> spec->0.samba && has_ci(
            object_classes(form),
            "sambaSamAccount"@,
        )) && has_ci(texts(x.mask@), x.attr@),
{
    match spec {
        Some(w) => {
            other_attributes_stay(original, w.ldap_attribute@, name);
            other_attributes_stay(edited, w.ldap_attribute@, name);
            other_attributes_stay(
                without_password(original, w.ldap_attribute@),
                w.ldap_attribute@,
                name,
            );
            other_attributes_stay(
                without_password(edited, w.ldap_attribute@),
                w.ldap_attribute@,
                name,
            );
        },
        None => {},
    }
    if let Some(x) = p {
        assert(texts(x.mask@) == mask_of(x.attr@, x.samba));
        assert(same_ci(texts(x.mask@)[0], x.attr@));
    }
}

/// The password of a form goes by the first profile that keeps passwords and that the entry fits.
pub proof fn typed_passwords_go_by_the_profile(form: EditForm, profiles: Seq<EntryProfile>, i: int)
    requires
        0 <= i < profiles.len(),
        profiles[i].password is Some,
        is_instance(profiles[i], object_classes(form)),
        forall|j: int|
            0 <= j < i ==> (#[trigger] profiles[j]).password is None || !is_instance(
                profiles[j],
                object_classes(form),
            ),
    ensures
        typed_spec(form, profiles) == profiles[i].password,
        typed_password(own_attrs(form.fields@), typed_spec(form, profiles)) == confirmed(
            own_attrs(form.fields@),
            profiles[i].password->0.ldap_attribute@,
        ),
{
    the_first_fitting_profile_counts(profiles, object_classes(form));
    let k = password_profile(profiles, object_classes(form));
    if k is None {
        assert(profiles[i].password is None || !is_instance(profiles[i], object_classes(form)));
    } else {
        let k = k->0;
        if k < i {
            assert(profiles[k].password is None || !is_instance(profiles[k], object_classes(form)));
        }
        if i < k {
            assert(profiles[i].password is None || !is_instance(profiles[i], object_classes(form)));
        }
    }
}

/// A typed password is written as the attributes that `write` gives for it, each put in place of what
/// the entry has; without one nothing is written.
pub proof fn typed_passwords_are_written<W: Fn(&str, &str, bool) -> Vec<AttrEntry>>(
    write: W,
    p: Option<StagedPassword>,
    password: Seq<Mod>,
    mask: Seq<Seq<char>>,
)
    requires
        typed_written(write, p, password, mask),
    ensures
        p is None ==> password.len() == 0 && mask.len() == 0,
        p matches Some(x) ==> mask == texts(x.mask@) && exists|
            text: &str,
            attr: &str,
            added: Vec<AttrEntry>,
        |
            {
                &&& #[trigger] call_ensures(write, (text, attr, x.samba), added)
                &&& text@ == x.clear@ && attr@ == x.attr@
                &&& added@.len() == password.len()
                &&& forall|i: int|
                    0 <= i < password.len() ==> #[trigger] password[i] == (
                        ModKind::Replace,
                        added@[i].name@,
                        texts(added@[i].values@),
                    )
            },
{
    if let Some(x) = p {
        let (text, attr, added) = choose|text: &str, attr: &str, added: Vec<AttrEntry>|
            {
                &&& text@ == x.clear@
                &&& attr@ == x.attr@
                &&& #[trigger] call_ensures(write, (text, attr, x.samba), added)
                &&& password == replaced(added@)
                &&& mask == texts(x.mask@)
            };
        assert(call_ensures(write, (text, attr, x.samba), added));
        assert(password.len() == added@.len());
    }
}

/// Whatever is typed as a password, a save with groups is planned only where a membership changed; the
/// groups then follow the form, and a password that was not repeated holds the save up.
pub proof fn typed_saves_change_the_groups_that_changed<
    W: Fn(&str, &str, bool) -> Vec<AttrEntry>,
    V: Fn(&EditEntry, &Vec<String>) -> Vec<ValidationError>,
    D: Fn(&EditEntry, &EditEntry) -> Result<ChangeSet, String>,
>(form: EditForm, profiles: Seq<EntryProfile>, write: W, validate: V, diff: D, r: CombinedPlan)
    requires
        typed_save_planned(form, profiles, write, validate, diff, r),
    ensures
        !membership_changed(form) <==> r is NoMembershipChange,
        r matches CombinedPlan::Ready { fanout: groups, .. } ==> groups_follow_the_form(form, groups@),
        r matches CombinedPlan::Ready { entry_dn, .. } ==> entry_dn@ == form.dn@,
{
    if r is Ready {
        let names = fanout_names(form.fields@);
        let edited = without_all(own_attrs(form.fields@), names);
        let spec = typed_spec(form, profiles);
        let typed = typed_password(edited, spec)->Ok_0;
        let (s, change, password, mask) = choose|
            s: StagedSave,
            change: Option<StagedPassword>,
            password: Seq<Mod>,
            mask: Seq<Seq<char>>,
        |
            {
                &&& typed_staged(
                    form,
                    spec,
                    without_all(form.baseline@, names),
                    edited,
                    typed,
                    s,
                    change,
                )
                &&& #[trigger] typed_written(write, change, password, mask)
                &&& #[trigger] combined_planned(r, form, s, validate, diff, password, mask)
            };
        saves_change_the_groups_that_changed(r, form, s, validate, diff, password, mask);
    }
}

/// A planned save with groups is asked about with its preview, and a yes makes every change that was
/// planned before the waiting step is taken; a plan that cannot be made is explained.
pub proof fn group_saves_are_asked_about(
    plan: CombinedPlan,
    ldif: String,
    then_intent: Option<GuardIntent>,
    r: Option<Overlay>,
)
    requires
        combined_asked(plan, ldif, then_intent, r),
    ensures
        r is None <==> plan is NoMembershipChange,
        (r is Some && r->0 is Confirm) <==> plan is Ready,
        (r is Some && r->0 is Error) <==> plan is Blocked || plan is Invalid || plan is DiffError,
        plan is Ready ==> r->0->Confirm_body == ldif && (r->0->Confirm_action matches
            PendingAction::CombinedSave { entry_dn, own_mods, fanout, then_intent: step } && entry_dn
            == plan->Ready_entry_dn && own_mods == plan->Ready_own_mods && fanout
            == plan->Ready_fanout && step == then_intent),
        plan matches CombinedPlan::Blocked(text) ==> r == Some(Overlay::Error { text }),
        plan matches CombinedPlan::DiffError(text) ==> r == Some(Overlay::Error { text }),
{
}

/// The edited entry is checked against the object classes that the directory gave for it, with or
/// without groups.
pub proof fn entries_are_checked_by_their_classes(
    form: EditForm,
    pw: Option<PasswordWidget>,
    s: StagedSave,
    i: int,
)
    requires
        edit_staged(form, pw, s) || combined_staged(form, pw, s),
    ensures
        s.object_classes@.len() == object_classes(form).len(),
        0 <= i < s.object_classes@.len() ==> s.object_classes@[i]@ == object_classes(form)[i],
        s.original.dn@ == form.dn@ && s.edited.dn@ == form.dn@,
{
    assert(texts(s.object_classes@).len() == s.object_classes@.len());
    if 0 <= i < s.object_classes@.len() {
        assert(texts(s.object_classes@)[i] == s.object_classes@[i]@);
    }
}

} // verus!
