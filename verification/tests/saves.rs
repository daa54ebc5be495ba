use std::rc::Rc;

use edaptor::app::combined::{
    apply_combined_save, blocked_removals, check_removals, combined_requests, finish_combined,
    reload_form, removal_read, write_failure, write_failures, WriteAnswer,
};
use edaptor::app::create::{
    apply_static_defaults, fill_number, fold_create_password, plan_create, start_create,
    rdn_value, show_create, CreatePrep, CreateStart, Resolution,
};
use edaptor::app::creation::{prepare_create, PasswordAttrs};
use edaptor::app::save::{
    combined_save_overlay, plan_combined_save, plan_typed_save, prepare_edit_save, prepare_save,
    prepare_typed_save, stage_typed_save, CombinedPlan, PrepareSave, StagedSave,
};
use edaptor::app::typed::prepare_typed_create;
use edaptor::app::{App, GuardIntent, Overlay, Pane, PendingAction};
use edaptor::attrs::{AttrEntry, AttrMap};
use edaptor::changes::{
    format_validation_errors, mask_changeset_secrets, membership_fanout, would_empty, ChangeSet,
    EditEntry, ModOp, ModRdn, ValidationError, WriteIds,
};
use edaptor::directory::{
    allocate_number, decide_allocation, parse_number, read_group_members, scanned_numbers,
    LdapEntry, ReadAnswer, ScanAnswer,
};
use edaptor::dn::{compose_renamed_dn, parent_dn};
use edaptor::edit_form::{EditField, EditForm, FormMode};
use edaptor::passwords::{
    mask_password_attrs, password_replace_mods, stage_edit_password, stage_password, PasswordSpec,
    StagedPassword,
};
use edaptor::profiles::{profile_for_entry, EntryProfile};
use edaptor::text_input::TextInput;
use edaptor::widgets::{
    CandidateScope, FieldKind, PasswordWidget, PickerBinding, StoreKey, WidgetKind, WidgetSpec,
};
use edaptor::writes::Request;
use tui_tree_widget::TreeState;

fn strings(v: &[&str]) -> Vec<String> {
    v.iter().map(|s| s.to_string()).collect()
}

fn attrs_of(pairs: &[(&str, &[&str])]) -> AttrMap {
    let mut m = AttrMap::new();
    for (k, v) in pairs {
        m.insert(k.to_string(), strings(v));
    }
    m
}

fn replace(attr: &str, values: &[&str]) -> ModOp {
    ModOp::Replace {
        attr: attr.into(),
        values: strings(values),
    }
}

/// Compares two sides the plain way: a changed naming value is a rename, any other changed
/// attribute is replaced, and one that is gone is deleted.
fn compare(original: &EditEntry, edited: &EditEntry) -> Result<ChangeSet, String> {
    let rdn_attr = original.dn.split('=').next().unwrap().to_string();
    let mut cs = ChangeSet {
        dn: original.dn.clone(),
        modrdn: None,
        mods: vec![],
    };
    for i in 0..edited.attrs.len() {
        let e = edited.attrs.entry(i);
        if original.attrs.get(&e.name) == Some(&e.values) {
            continue;
        }
        if e.name == rdn_attr {
            cs.modrdn = Some(ModRdn {
                new_rdn: format!("{}={}", e.name, e.values[0]),
                delete_old: true,
                new_superior: None,
            });
        } else {
            cs.mods.push(ModOp::Replace {
                attr: e.name.clone(),
                values: e.values.clone(),
            });
        }
    }
    for i in 0..original.attrs.len() {
        let o = original.attrs.entry(i);
        if !edited.attrs.contains_key(&o.name) && o.name != "objectClass" {
            cs.mods.push(ModOp::Delete {
                attr: o.name.clone(),
                values: vec![],
            });
        }
    }
    Ok(cs)
}

fn valid(_: &EditEntry, _: &Vec<String>) -> Vec<ValidationError> {
    vec![]
}

/// The change sets in words.
fn shown(sets: &[ChangeSet]) -> String {
    sets.iter()
        .map(|cs| format!("{} {:?}\n", cs.dn, cs.mods))
        .collect()
}

#[test]
fn compose_renamed_dn_replaces_rdn() {
    assert_eq!(
        compose_renamed_dn("cn=Alice,ou=people,dc=org", "cn=Bob"),
        "cn=Bob,ou=people,dc=org"
    );
    assert_eq!(compose_renamed_dn("dc=org", "dc=net"), "dc=net");
}

#[test]
fn renaming_twice_keeps_the_last_name_and_the_parent() {
    let once = compose_renamed_dn("cn=a,dc=x", "cn=b");
    assert_eq!(compose_renamed_dn(&once, "cn=c"), "cn=c,dc=x");
    assert_eq!(parent_dn(&once).as_deref(), Some("dc=x"));
    assert_eq!(parent_dn("dc=x"), None);
}

#[test]
fn next_id_is_monotonic_and_high() {
    let mut ids = WriteIds::new();
    let a = ids.next_id();
    let b = ids.next_id();
    assert!(b > a && a >= 1_000_000);
}

#[test]
fn validation_errors_format_as_bullets() {
    let errs = vec![
        ValidationError::MissingMust("sn".into()),
        ValidationError::MultiValueOnSingle("cn".into()),
    ];
    let out = format_validation_errors(&errs);
    assert!(out.contains("missing required attribute: sn"));
    assert!(out.contains("attribute is single-valued: cn"));
}

#[test]
fn fanout_adds_and_removes_per_group() {
    let out = membership_fanout(
        "uid=ann,ou=people",
        &vec!["cn=g1,ou=groups".to_string(), "cn=g2,ou=groups".to_string()],
        &vec!["cn=g2,ou=groups".to_string(), "cn=g3,ou=groups".to_string()],
        "member",
    );
    assert_eq!(
        out,
        vec![
            (
                "cn=g3,ou=groups".to_string(),
                ModOp::Add {
                    attr: "member".into(),
                    values: vec!["uid=ann,ou=people".into()]
                }
            ),
            (
                "cn=g1,ou=groups".to_string(),
                ModOp::Delete {
                    attr: "member".into(),
                    values: vec!["uid=ann,ou=people".into()]
                }
            ),
        ]
    );
}

#[test]
fn fanout_is_case_insensitive_on_dns() {
    let out = membership_fanout(
        "uid=ann,ou=people",
        &vec!["CN=G1,OU=GROUPS".into()],
        &vec!["cn=g1,ou=groups".into()],
        "member",
    );
    assert!(
        out.is_empty(),
        "same DN in different case must not produce add/delete"
    );
}

#[test]
fn would_empty_only_when_sole_member() {
    assert!(would_empty(
        &vec!["uid=ann,ou=people".to_string()],
        "uid=ann,ou=people"
    ));
    assert!(!would_empty(
        &vec![
            "uid=ann,ou=people".to_string(),
            "uid=bob,ou=people".to_string()
        ],
        "uid=ann,ou=people"
    ));
    assert!(!would_empty(&vec![], "uid=ann,ou=people"));
}

// --- saves with groups --------------------------------------------------------

fn plain(label: &str, must: bool, multi: bool, values: &[&str], typed: &str) -> EditField {
    EditField {
        label: label.into(),
        must,
        editable: true,
        multi,
        secret: false,
        ordered: false,
        values: strings(values),
        kind: FieldKind::Text,
        widget: WidgetSpec::ReadOnlyText,
        editor: TextInput::with_value(typed.to_string()),
        widget_binding: None,
        orphaned: false,
    }
}

fn memberof_field() -> EditField {
    let mut f = plain("memberOf", false, true, &["cn=g2,ou=groups,dc=x"], "");
    f.widget_binding = Some(WidgetKind::Picker(Rc::new(PickerBinding {
        attr: "memberOf".into(),
        scope: CandidateScope {
            base: "ou=groups,dc=x".into(),
            object_classes: strings(&["groupOfNames"]),
            search_attrs: strings(&["cn"]),
            label_attrs: None,
        },
        store: StoreKey::Dn,
        select: None,
        fanout_attr: Some("member".into()),
    })));
    f
}

/// A changed description, and one group in place of another.
fn user_form_own_and_memberof_change() -> EditForm {
    EditForm {
        dn: "uid=ann,ou=people,dc=x".into(),
        fields: vec![
            plain("uid", true, false, &["ann"], "ann"),
            plain("description", false, true, &["new desc"], ""),
            memberof_field(),
        ],
        baseline: attrs_of(&[
            ("objectClass", &["testUser"]),
            ("uid", &["ann"]),
            ("description", &["old desc"]),
            ("memberOf", &["cn=g1,ou=groups,dc=x"]),
        ]),
        mode: FormMode::Edit,
        pending_password: None,
    }
}

/// A changed naming value, and one group in place of another.
fn user_form_rename_and_memberof_change() -> EditForm {
    EditForm {
        dn: "uid=ann,ou=people,dc=x".into(),
        fields: vec![
            plain("uid", true, false, &["ann"], "bob"),
            memberof_field(),
        ],
        baseline: attrs_of(&[
            ("objectClass", &["testUser"]),
            ("uid", &["ann"]),
            ("memberOf", &["cn=g1,ou=groups,dc=x"]),
        ]),
        mode: FormMode::Edit,
        pending_password: None,
    }
}

fn pw_user_form_with_memberof_change(pending: Option<&str>) -> EditForm {
    let mut form = user_form_own_and_memberof_change();
    form.baseline
        .insert("userPassword".into(), strings(&["{SSHA}old"]));
    form.pending_password = pending.map(|s| s.to_string());
    form
}

fn password_widget() -> PasswordWidget {
    PasswordWidget {
        primary: "userPassword".into(),
        derived: vec![],
        samba: false,
    }
}

/// The changes that write a password, and the attributes that a preview hides.
fn stage(clear: &str, w: &PasswordWidget) -> (Vec<ModOp>, Vec<String>) {
    (
        vec![replace(&w.primary, &[clear])],
        vec![w.primary.clone()],
    )
}

/// A password that must not be staged.
fn unstaged(_: &str, _: &PasswordWidget) -> (Vec<ModOp>, Vec<String>) {
    panic!("no password is staged")
}

fn plan(form: &EditForm, pw: Option<&PasswordWidget>, encrypted: bool) -> CombinedPlan {
    plan_combined_save(form, pw, encrypted, stage, valid, compare)
}

/// Puts the masked password field and the one that repeats it into a form, in place of a field of
/// that name.
fn with_typed_fields(form: &mut EditForm, typed: &str, repeated: &str) {
    form.fields
        .retain(|f| !f.label.eq_ignore_ascii_case("userPassword"));
    for (label, text) in [("userPassword", typed), ("userPassword (confirm)", repeated)] {
        let mut f = plain(label, false, false, &[], text);
        f.secret = true;
        form.fields.push(f);
    }
}

/// A changed group and description of an entry of a profile that keeps passwords, with the two
/// password fields as typed.
fn typed_user_form(typed: &str, repeated: &str) -> (EditForm, Vec<EntryProfile>) {
    let mut form = pw_user_form_with_memberof_change(None);
    with_typed_fields(&mut form, typed, repeated);
    let mut profile = create_user_profile();
    profile.password = Some(pw_spec(false));
    (form, vec![profile])
}

/// The attributes that write a password.
fn written(clear: &str, attr: &str, samba: bool) -> Vec<AttrEntry> {
    let mut added = vec![AttrEntry {
        name: attr.into(),
        values: strings(&[clear]),
    }];
    if samba {
        added.push(AttrEntry {
            name: "sambaNTPassword".into(),
            values: strings(&["HASH"]),
        });
    }
    added
}

/// A password that must not be written.
fn unwritten(_: &str, _: &str, _: bool) -> Vec<AttrEntry> {
    panic!("no password is written")
}

fn touches(mods: &[ModOp], attr: &str) -> bool {
    mods.iter().any(|m| {
        let a = match m {
            ModOp::Add { attr, .. }
            | ModOp::Delete { attr, .. }
            | ModOp::Replace { attr, .. } => attr,
        };
        a.eq_ignore_ascii_case(attr)
    })
}

fn own_and_fanout_are_split() {
    let form = user_form_own_and_memberof_change();
    match plan(&form, None, true) {
        CombinedPlan::Ready {
            own_mods,
            fanout,
            entry_dn,
            ..
        } => {
            assert!(
                !touches(&own_mods, "memberOf"),
                "own_mods must not contain memberOf"
            );
            assert_eq!(own_mods, vec![replace("description", &["new desc"])]);
            assert_eq!(fanout.len(), 2, "expected 2 fanout ops (add g2, delete g1)");
            assert_eq!(entry_dn, "uid=ann,ou=people,dc=x");
        }
        _ => panic!("expected Ready"),
    }
}

#[test]
fn mod_plan_combined_save_splits_own_and_fanout() {
    own_and_fanout_are_split();
}

#[test]
fn save_plan_combined_save_splits_own_and_fanout() {
    own_and_fanout_are_split();
}

fn rename_with_groups_is_blocked() {
    let form = user_form_rename_and_memberof_change();
    assert!(
        matches!(plan(&form, None, true), CombinedPlan::Blocked(_)),
        "rename + membership change must be Blocked"
    );
}

#[test]
fn mod_rename_plus_membership_is_blocked() {
    rename_with_groups_is_blocked();
}

#[test]
fn save_rename_plus_membership_is_blocked() {
    rename_with_groups_is_blocked();
}

#[test]
fn combined_save_blank_password_does_not_clobber_or_leak() {
    let (form, profiles) = typed_user_form("", "");
    match plan_typed_save(&form, &profiles, unwritten, valid, compare) {
        CombinedPlan::Ready {
            own_mods, preview, ..
        } => {
            assert!(
                !touches(&own_mods, "userPassword"),
                "blank password must not emit a userPassword mod (clobber!)"
            );
            assert!(
                !touches(&own_mods, "userPassword (confirm)"),
                "confirm pseudo-field must never become a real attribute"
            );
            assert!(
                !shown(&preview).contains("(confirm)"),
                "confirm field must not leak to preview"
            );
        }
        _ => panic!("expected Ready"),
    }
}

#[test]
fn combined_save_no_pending_password_does_not_clobber() {
    let form = pw_user_form_with_memberof_change(None);
    match plan(&form, Some(&password_widget()), true) {
        CombinedPlan::Ready { own_mods, .. } => assert!(
            !touches(&own_mods, "userPassword"),
            "no staged password must not emit a userPassword mod (clobber!)"
        ),
        _ => panic!("expected Ready"),
    }
}

fn password_is_replaced_and_masked(plan: CombinedPlan) {
    match plan {
        CombinedPlan::Ready {
            own_mods, preview, ..
        } => {
            assert!(
                own_mods.contains(&replace("userPassword", &["hunter2"])),
                "new password must be a REPLACE in own_mods"
            );
            assert!(
                !touches(&own_mods, "userPassword (confirm)"),
                "confirm pseudo-field must never become a real attribute"
            );
            let ldif = shown(&preview);
            assert!(ldif.contains("********"), "preview masks the password");
            assert!(
                !ldif.contains("hunter2"),
                "cleartext must not appear in preview"
            );
        }
        _ => panic!("expected Ready"),
    }
}

#[test]
fn mod_combined_save_sets_password_as_replace_and_masks_preview() {
    let (form, profiles) = typed_user_form("hunter2", "hunter2");
    password_is_replaced_and_masked(plan_typed_save(&form, &profiles, written, valid, compare));
}

#[test]
fn save_combined_save_sets_password_as_replace_and_masks_preview() {
    let form = pw_user_form_with_memberof_change(Some("hunter2"));
    password_is_replaced_and_masked(plan(&form, Some(&password_widget()), true));
}

#[test]
fn a_password_that_was_not_repeated_blocks_the_save() {
    let (form, profiles) = typed_user_form("hunter2", "hunter3");
    match plan_typed_save(&form, &profiles, unwritten, valid, compare) {
        CombinedPlan::Blocked(text) => assert_eq!(text, "Passwords do not match."),
        _ => panic!("the whole save is refused"),
    }
    match stage_typed_save(&form, &profiles) {
        Err(text) => assert_eq!(text, "Passwords do not match."),
        Ok(_) => panic!("the plain save is refused"),
    }
    match prepare_typed_save(&form, &profiles, unwritten, valid, compare) {
        Err(text) => assert_eq!(text, "Passwords do not match."),
        Ok(_) => panic!("the plain save is refused"),
    }
    // Where no profile keeps passwords, the two fields are attributes like any other.
    let (staged, password) = stage_typed_save(&form, &vec![create_user_profile()])
        .ok()
        .expect("nothing to repeat");
    assert!(password.is_none());
    assert!(staged.edited.attrs.contains_key("userPassword (confirm)"));
    let mut form = form;
    form.baseline
        .insert("memberOf".into(), strings(&["cn=g2,ou=groups,dc=x"]));
    assert!(matches!(
        plan_typed_save(&form, &profiles, unwritten, valid, compare),
        CombinedPlan::NoMembershipChange
    ));
}

#[test]
fn a_typed_password_is_saved_and_hidden() {
    let mut form = pw_user_form_pending(None);
    with_typed_fields(&mut form, " hunter2 ", "hunter2");
    form.baseline.insert(
        "objectClass".into(),
        strings(&["testUser", "SAMBASAMACCOUNT"]),
    );
    form.baseline
        .insert("sambaPwdLastSet".into(), strings(&["1"]));
    let mut profile = create_user_profile();
    profile.password = Some(pw_spec(true));
    let profiles = vec![profile];
    let (staged, password) = stage_typed_save(&form, &profiles).ok().expect("repeated");
    let password = password.expect("typed");
    assert_eq!(
        (password.clear.as_str(), password.attr.as_str()),
        ("hunter2", "userPassword")
    );
    assert!(password.samba);
    assert_eq!(password.mask, vec!["userPassword", "sambaNTPassword"]);
    assert!(!staged.original.attrs.contains_key("userPassword"));
    assert!(!staged.original.attrs.contains_key("sambaPwdLastSet"));
    assert_eq!(staged.object_classes.len(), 2);
    form.fields[0].values = strings(&["testUser", "SAMBASAMACCOUNT"]);
    match prepare_typed_save(&form, &profiles, written, valid, compare) {
        Ok(PrepareSave::Ready { changes, preview }) => {
            assert_eq!(changes.dn, "uid=ann,ou=people,dc=x");
            assert_eq!(
                changes.mods,
                vec![
                    replace("userPassword", &["hunter2"]),
                    replace("sambaNTPassword", &["HASH"]),
                ]
            );
            assert!(!shown(&[preview]).contains("HASH"));
        }
        _ => panic!("expected Ready"),
    }

    let mut form = pw_user_form_pending(None);
    with_typed_fields(&mut form, " ", "anything");
    assert!(matches!(
        prepare_typed_save(&form, &profiles, unwritten, valid, compare),
        Ok(PrepareSave::NoChanges)
    ));
}

#[test]
fn combined_save_pending_password_on_plain_connection_is_blocked() {
    let form = pw_user_form_with_memberof_change(Some("hunter2"));
    match plan(&form, Some(&password_widget()), false) {
        CombinedPlan::Blocked(text) => assert_eq!(
            text,
            "Password change requires an encrypted connection (ldaps:// or start_tls)."
        ),
        _ => panic!("a staged password over a plain connection must be Blocked"),
    }
}

#[test]
fn combined_saves_without_group_changes_or_with_errors() {
    let mut form = user_form_own_and_memberof_change();
    form.fields[2].values = strings(&["CN=g1,ou=groups,dc=x"]);
    form.baseline
        .insert("memberOf".into(), strings(&["CN=g1,ou=groups,dc=x"]));
    assert!(matches!(
        plan(&form, None, true),
        CombinedPlan::NoMembershipChange
    ));
    assert!(combined_save_overlay(plan(&form, None, true), String::new(), None).is_none());

    let form = user_form_own_and_memberof_change();
    let invalid = |_: &EditEntry, ocs: &Vec<String>| -> Vec<ValidationError> {
        assert_eq!(ocs, &vec!["testUser".to_string()]);
        vec![ValidationError::MissingMust("sn".into())]
    };
    let p = plan_combined_save(&form, None, true, unstaged, invalid, compare);
    match combined_save_overlay(p, String::new(), None) {
        Some(Overlay::Error { text }) => assert!(text.contains("missing required attribute: sn")),
        _ => panic!("errors are shown"),
    }
    let incomparable =
        |_: &EditEntry, _: &EditEntry| -> Result<ChangeSet, String> { Err("bad".into()) };
    let p = plan_combined_save(&form, None, true, unstaged, valid, incomparable);
    match combined_save_overlay(p, String::new(), None) {
        Some(Overlay::Error { text }) => assert_eq!(text, "bad"),
        _ => panic!("errors are shown"),
    }
    match combined_save_overlay(plan(&form, None, true), "L".into(), Some(GuardIntent::Quit)) {
        Some(Overlay::Confirm {
            title,
            body,
            action:
                PendingAction::CombinedSave {
                    fanout,
                    then_intent: Some(GuardIntent::Quit),
                    ..
                },
        }) => {
            assert_eq!((title.as_str(), body.as_str()), ("Apply these changes?", "L"));
            assert_eq!(fanout.len(), 2);
        }
        _ => panic!("a ready plan is confirmed"),
    }
}

// --- saves of one entry ---------------------------------------------------------

fn pw_user_form_pending(pending: Option<&str>) -> EditForm {
    let mut oc = plain("objectClass", true, true, &["testUser"], "");
    oc.editable = false;
    EditForm {
        dn: "uid=ann,ou=people,dc=x".into(),
        fields: vec![oc, plain("uid", true, false, &["ann"], "ann")],
        baseline: attrs_of(&[
            ("objectClass", &["testUser"]),
            ("uid", &["ann"]),
            ("userPassword", &["{SSHA}old"]),
        ]),
        mode: FormMode::Edit,
        pending_password: pending.map(|s| s.to_string()),
    }
}

fn prepare(form: &EditForm, encrypted: bool) -> Result<PrepareSave, String> {
    prepare_edit_save(
        form,
        Some(&password_widget()),
        encrypted,
        stage,
        valid,
        compare,
    )
}

#[test]
fn prepare_edit_save_pending_password_replaces_and_masks() {
    let form = pw_user_form_pending(Some("hunter2"));
    match prepare(&form, true).expect("encrypted: ok") {
        PrepareSave::Ready { changes, preview } => {
            let ldif = shown(&[preview]);
            assert!(ldif.contains("********"), "preview masks the password");
            assert!(!ldif.contains("hunter2"), "cleartext must not appear");
            assert!(changes.modrdn.is_none());
            assert!(
                changes.mods.contains(&replace("userPassword", &["hunter2"])),
                "new password is a REPLACE in the plan"
            );
        }
        _ => panic!("expected Ready"),
    }
}

#[test]
fn prepare_edit_save_no_pending_strips_baseline_hash_no_change() {
    let form = pw_user_form_pending(None);
    assert!(
        matches!(prepare(&form, true).expect("ok"), PrepareSave::NoChanges),
        "blank password + no other edit is NoChanges (baseline hash stripped)"
    );
}

#[test]
fn prepare_edit_save_pending_on_plain_connection_is_rejected() {
    let form = pw_user_form_pending(Some("hunter2"));
    match prepare(&form, false) {
        Err(err) => assert!(err.contains("encrypted"), "TLS guard message: {err}"),
        Ok(_) => panic!("plain connection must be rejected"),
    }
}

#[test]
fn a_password_is_staged_only_where_it_may_be_written() {
    let form = pw_user_form_pending(Some("hunter2"));
    assert!(prepare_edit_save(
        &form,
        Some(&password_widget()),
        false,
        unstaged,
        valid,
        compare
    )
    .is_err());
    match prepare_edit_save(&form, None, true, unstaged, valid, compare) {
        Ok(PrepareSave::Ready { changes, .. }) => assert_eq!(
            changes.mods,
            vec![ModOp::Delete {
                attr: "userPassword".into(),
                values: vec![],
            }]
        ),
        _ => panic!("the entry is compared as it is"),
    }
    let form = pw_user_form_with_memberof_change(Some("hunter2"));
    assert!(matches!(
        plan_combined_save(
            &form,
            Some(&password_widget()),
            false,
            unstaged,
            valid,
            compare
        ),
        CombinedPlan::Blocked(_)
    ));
    let form = pw_user_form_with_memberof_change(None);
    assert!(matches!(
        plan_combined_save(
            &form,
            Some(&password_widget()),
            true,
            unstaged,
            valid,
            compare
        ),
        CombinedPlan::Ready { .. }
    ));
}

#[test]
fn a_save_writes_the_entry_it_was_staged_for() {
    let renamed = |_: &EditEntry, _: &EditEntry| -> Result<ChangeSet, String> {
        Ok(ChangeSet {
            dn: "uid=other".into(),
            modrdn: None,
            mods: vec![replace("sn", &["s"])],
        })
    };
    match prepare_save(&alice(), vec![], &vec![], valid, renamed) {
        PrepareSave::Ready { changes, preview } => {
            assert_eq!(changes.dn, "uid=alice,ou=people,dc=example,dc=org");
            assert_eq!(preview.dn, changes.dn);
            assert_eq!(changes.mods, vec![replace("sn", &["s"])]);
        }
        _ => panic!("expected Ready"),
    }
    let form = user_form_own_and_memberof_change();
    match plan_combined_save(&form, None, true, unstaged, valid, renamed) {
        CombinedPlan::Ready { preview, .. } => assert_eq!(preview[0].dn, form.dn),
        _ => panic!("expected Ready"),
    }
}

fn alice() -> StagedSave {
    let side = || EditEntry {
        dn: "uid=alice,ou=people,dc=example,dc=org".into(),
        attrs: attrs_of(&[("uid", &["alice"])]),
    };
    StagedSave {
        original: side(),
        edited: side(),
        object_classes: strings(&["testUser"]),
    }
}

#[test]
fn prepare_save_folds_password_mods_and_masks_preview() {
    let pw_mods = vec![
        replace("userPassword", &["hunter2"]),
        replace("sambaNTPassword", &["DEADBEEF"]),
    ];
    let mask = strings(&["userPassword", "sambaNTPassword"]);
    match prepare_save(&alice(), pw_mods, &mask, valid, compare) {
        PrepareSave::Ready { changes, preview } => {
            let ldif = shown(&[preview]);
            assert!(ldif.contains("********"), "preview must mask secrets");
            assert!(!ldif.contains("hunter2"), "cleartext must not appear");
            assert!(!ldif.contains("DEADBEEF"), "NT hash must not appear");
            assert!(changes.modrdn.is_none());
            assert!(changes.mods.contains(&replace("userPassword", &["hunter2"])));
            assert!(changes
                .mods
                .contains(&replace("sambaNTPassword", &["DEADBEEF"])));
        }
        _ => panic!("expected Ready"),
    }
}

#[test]
fn prepare_save_no_password_no_diff_is_no_changes() {
    assert!(matches!(
        prepare_save(&alice(), vec![], &vec![], valid, compare),
        PrepareSave::NoChanges
    ));
}

#[test]
fn prepare_save_tells_what_is_wrong() {
    let invalid = |_: &EditEntry, _: &Vec<String>| -> Vec<ValidationError> {
        vec![ValidationError::MultiValueOnSingle("cn".into())]
    };
    match prepare_save(&alice(), vec![], &vec![], invalid, compare) {
        PrepareSave::Invalid(errs) => assert_eq!(
            errs,
            vec![ValidationError::MultiValueOnSingle("cn".into())]
        ),
        _ => panic!("expected Invalid"),
    }
    let incomparable =
        |_: &EditEntry, _: &EditEntry| -> Result<ChangeSet, String> { Err("bad".into()) };
    assert!(matches!(
        prepare_save(&alice(), vec![], &vec![], valid, incomparable),
        PrepareSave::DiffError(e) if e == "bad"
    ));
}

#[test]
fn masking_hides_the_named_values_only() {
    let cs = ChangeSet {
        dn: "cn=x".into(),
        modrdn: None,
        mods: vec![
            replace("USERPASSWORD", &["a", "b"]),
            ModOp::Delete {
                attr: "userPassword".into(),
                values: strings(&["c"]),
            },
            replace("cn", &["x"]),
        ],
    };
    let m = mask_changeset_secrets(&cs, &strings(&["userPassword"]));
    assert_eq!(m.mods[0], replace("USERPASSWORD", &["********"]));
    assert!(!shown(&[m]).contains("\"a\""));
    assert_eq!(cs.mods[0], replace("USERPASSWORD", &["a", "b"]));
}

// --- passwords and profiles -----------------------------------------------------

fn create_user_profile() -> EntryProfile {
    EntryProfile {
        name: "User".into(),
        object_classes: strings(&["testUser"]),
        rdn_attr: "uid".into(),
        search_base: "ou=people,dc=example,dc=org".into(),
        password: None,
    }
}

fn pw_spec(samba: bool) -> PasswordSpec {
    PasswordSpec {
        ldap_attribute: "userPassword".into(),
        samba,
    }
}

#[test]
fn profile_for_entry_requires_oc_subset_and_password_spec() {
    let mut pw_user = create_user_profile();
    pw_user.object_classes = strings(&["inetOrgPerson", "posixAccount"]);
    pw_user.password = Some(pw_spec(false));
    let mut plain = create_user_profile();
    plain.object_classes = strings(&["inetOrgPerson"]);
    plain.password = None;
    let profiles = vec![plain, pw_user];

    let ocs = strings(&["top", "inetOrgPerson", "posixAccount"]);
    let m = profile_for_entry(&profiles, &ocs).expect("password profile matches");
    assert!(m.password.is_some());
    assert_eq!(m.object_classes.len(), 2);
    assert!(profile_for_entry(&profiles, &strings(&["inetOrgPerson"])).is_none());
}

#[test]
fn stage_password_strips_fields_validates_match_and_empty() {
    let spec = pw_spec(false);
    let mut attrs = attrs_of(&[
        ("userPassword", &["hunter2"]),
        ("userPassword (confirm)", &["hunter2"]),
        ("cn", &["Alice"]),
    ]);
    assert_eq!(
        stage_password(&spec, &mut attrs).unwrap(),
        Some("hunter2".to_string())
    );
    assert!(!attrs.contains_key("userPassword"));
    assert!(!attrs.contains_key("userPassword (confirm)"));
    assert!(attrs.contains_key("cn"));
    let mut a2 = attrs_of(&[("userPassword", &["a"]), ("userPassword (confirm)", &["b"])]);
    assert!(stage_password(&spec, &mut a2).is_err());
    let mut a3 = attrs_of(&[("userPassword", &[""]), ("userPassword (confirm)", &[""])]);
    assert_eq!(stage_password(&spec, &mut a3).unwrap(), None);
}

#[test]
fn mask_password_attrs_masks_secret_values_only() {
    let attrs = attrs_of(&[
        ("userPassword", &["hunter2"]),
        ("sambaNTPassword", &["DEADBEEF"]),
        ("cn", &["Alice"]),
    ]);
    let m = mask_password_attrs(&attrs, "userPassword");
    assert_eq!(m.get("userPassword"), Some(&vec!["********".to_string()]));
    assert_eq!(
        m.get("sambaNTPassword"),
        Some(&vec!["********".to_string()])
    );
    assert_eq!(m.get("cn"), Some(&vec!["Alice".to_string()]));
}

/// The changes that write a staged password, with a hash where one goes with it.
fn staged_mods(staged: &StagedPassword, hash: &str) -> Vec<ModOp> {
    let mut added = vec![AttrEntry {
        name: "userPassword".into(),
        values: vec![staged.clear.clone()],
    }];
    if staged.samba {
        added.push(AttrEntry {
            name: "sambaNTPassword".into(),
            values: strings(&[hash]),
        });
    }
    password_replace_mods(&added)
}

#[test]
fn stage_edit_password_blank_yields_no_mods_and_strips_pseudo_fields() {
    let mut baseline = attrs_of(&[("userPassword", &["{SSHA}deadbeef"]), ("cn", &["Alice"])]);
    let mut edited = attrs_of(&[
        ("userPassword", &[""]),
        ("userPassword (confirm)", &[""]),
        ("cn", &["Alice"]),
    ]);
    let staged =
        stage_edit_password(&pw_spec(false), &vec![], &mut baseline, &mut edited).unwrap();
    assert!(staged.is_none(), "blank password produces no mods");
    assert!(
        !baseline.contains_key("userPassword"),
        "baseline hash stripped"
    );
    assert!(!edited.contains_key("userPassword"));
    assert!(!edited.contains_key("userPassword (confirm)"));
    assert!(baseline.contains_key("cn") && edited.contains_key("cn"));
}

#[test]
fn stage_edit_password_set_yields_replace_and_strips_baseline_hash() {
    let mut baseline = attrs_of(&[("userPassword", &["{SSHA}old"])]);
    let mut edited = attrs_of(&[
        ("userPassword", &["hunter2"]),
        ("userPassword (confirm)", &["hunter2"]),
    ]);
    let staged = stage_edit_password(&pw_spec(false), &vec![], &mut baseline, &mut edited)
        .unwrap()
        .unwrap();
    assert_eq!(
        staged_mods(&staged, ""),
        vec![replace("userPassword", &["hunter2"])]
    );
    assert_eq!(staged.mask, vec!["userPassword".to_string()]);
    assert!(!baseline.contains_key("userPassword"), "old hash stripped");
}

#[test]
fn stage_edit_password_samba_includes_nt_hash_and_strips_samba_attrs() {
    let mut baseline = attrs_of(&[("sambaNTPassword", &["OLDHASH"]), ("sambaPwdLastSet", &["1"])]);
    let mut edited = attrs_of(&[
        ("userPassword", &["hunter2"]),
        ("userPassword (confirm)", &["hunter2"]),
    ]);
    let ocs = strings(&["sambaSamAccount"]);
    let staged = stage_edit_password(&pw_spec(true), &ocs, &mut baseline, &mut edited)
        .unwrap()
        .unwrap();
    assert_eq!(staged.clear, "hunter2");
    assert!(staged_mods(&staged, "NEWHASH").contains(&replace("sambaNTPassword", &["NEWHASH"])));
    assert!(staged.mask.contains(&"sambaNTPassword".to_string()));
    assert!(
        !baseline.contains_key("sambaNTPassword"),
        "old NT hash stripped"
    );
    assert!(!baseline.contains_key("sambaPwdLastSet"));
}

#[test]
fn stage_edit_password_mismatch_errors() {
    let mut baseline = AttrMap::new();
    let mut edited = attrs_of(&[("userPassword", &["a"]), ("userPassword (confirm)", &["b"])]);
    assert!(
        stage_edit_password(&pw_spec(false), &vec![], &mut baseline, &mut edited).is_err(),
        "confirm mismatch must error"
    );
}

// --- new entries ----------------------------------------------------------------

fn compose(profile: &EntryProfile, container: &str, rdn: &str, edited: &EditEntry) -> EditEntry {
    let mut attrs = edited.attrs.copy();
    attrs.insert("objectClass".into(), profile.object_classes.clone());
    EditEntry {
        dn: format!("{}={},{}", profile.rdn_attr, rdn, container),
        attrs,
    }
}

#[test]
fn plan_create_builds_confirm_with_composed_dn() {
    let edited = EditEntry {
        dn: String::new(),
        attrs: attrs_of(&[("uid", &["alice"])]),
    };
    match plan_create(
        &create_user_profile(),
        "ou=people,dc=example,dc=org",
        &edited,
        compose,
        valid,
    ) {
        CreatePrep::Confirm { dn, .. } => {
            assert_eq!(dn, "uid=alice,ou=people,dc=example,dc=org")
        }
        CreatePrep::Error(e) => panic!("unexpected error: {e}"),
    }
}

#[test]
fn plan_create_errors_when_rdn_missing() {
    let edited = EditEntry {
        dn: String::new(),
        attrs: AttrMap::new(),
    };
    let never = |_: &EntryProfile, _: &str, _: &str, _: &EditEntry| -> EditEntry {
        panic!("nothing is composed without a name")
    };
    match plan_create(
        &create_user_profile(),
        "ou=people,dc=example,dc=org",
        &edited,
        never,
        valid,
    ) {
        CreatePrep::Error(e) => assert_eq!(e, "The RDN attribute must have a value."),
        CreatePrep::Confirm { .. } => panic!("an entry without a name"),
    }
}

#[test]
fn plan_create_reports_what_validation_found() {
    let edited = EditEntry {
        dn: String::new(),
        attrs: attrs_of(&[("UID", &[" alice "])]),
    };
    let invalid = |full: &EditEntry, ocs: &Vec<String>| -> Vec<ValidationError> {
        assert_eq!(full.dn, "uid=alice,dc=x");
        assert_eq!(ocs, &vec!["testUser".to_string()]);
        vec![ValidationError::MissingMust("sn".into())]
    };
    match plan_create(&create_user_profile(), "dc=x", &edited, compose, invalid) {
        CreatePrep::Error(e) => assert!(e.contains("missing required attribute: sn")),
        CreatePrep::Confirm { .. } => panic!("an invalid entry"),
    }
    assert!(rdn_value(&attrs_of(&[("uid", &[" \t"])]), "uid").is_err());
}

#[test]
fn apply_static_defaults_fills_literals_templates_and_surfaces_autonumber() {
    let planned = vec![
        Resolution::Fill {
            attr: "homeDirectory".into(),
            value: "/home/alice".into(),
        },
        Resolution::Fill {
            attr: "loginShell".into(),
            value: "/bin/bash".into(),
        },
        Resolution::NeedsAutonumber {
            attr: "uidNumber".into(),
            min: 10000,
            max: 60000,
        },
    ];
    let mut attrs = attrs_of(&[("uid", &["alice"])]);
    let autonum = apply_static_defaults(&planned, &mut attrs);
    assert_eq!(
        attrs.get("loginShell"),
        Some(&vec!["/bin/bash".to_string()])
    );
    assert_eq!(
        attrs.get("homeDirectory"),
        Some(&vec!["/home/alice".to_string()])
    );
    assert_eq!(autonum, vec![("uidNumber".to_string(), 10000, 60000)]);
    assert!(!attrs.contains_key("uidNumber"));
    fill_number(&mut attrs, "uidNumber".into(), 10007);
    assert_eq!(attrs.get("uidNumber"), Some(&strings(&["10007"])));
}

/// The lowest number above all taken ones of a range.
fn next_in_range(values: &Vec<u64>, min: u64, max: u64) -> Result<u64, String> {
    let next = values
        .iter()
        .filter(|v| min <= **v && **v <= max)
        .max()
        .map_or(min, |m| m + 1);
    if next > max {
        Err("range exhausted".into())
    } else {
        Ok(next)
    }
}

#[test]
fn allocation_refuses_on_truncation() {
    assert!(decide_allocation(&vec![10000], true, 10000, 60000, next_in_range).is_err());
    assert_eq!(
        decide_allocation(&vec![10000], false, 10000, 60000, next_in_range).unwrap(),
        10001
    );
    assert_eq!(
        decide_allocation(&vec![], false, 10000, 60000, next_in_range).unwrap(),
        10000
    );
}

fn numbered(dn: &str, values: &[&str]) -> LdapEntry {
    LdapEntry {
        dn: dn.into(),
        attrs: attrs_of(&[("UIDNUMBER", values)]),
    }
}

#[test]
fn numbers_are_scanned_and_allocated() {
    assert_eq!(parse_number("+07"), Some(7));
    assert_eq!(parse_number("18446744073709551615"), Some(u64::MAX));
    assert_eq!(parse_number("18446744073709551616"), None);
    assert_eq!(parse_number(""), None);
    assert_eq!(parse_number("+"), None);
    assert_eq!(parse_number("-1"), None);
    assert_eq!(parse_number("1x"), None);
    let entries = vec![
        numbered("a", &[" 10005 ", "x"]),
        LdapEntry {
            dn: "b".into(),
            attrs: AttrMap::new(),
        },
    ];
    assert_eq!(scanned_numbers(&entries, "uidNumber"), vec![10005]);
    let n = allocate_number(
        ScanAnswer::Entries {
            entries,
            truncated: false,
        },
        "uidNumber",
        10000,
        60000,
        next_in_range,
    );
    assert_eq!(n, Ok(10006));
    assert_eq!(
        allocate_number(
            ScanAnswer::Refused("no".into()),
            "uidNumber",
            1,
            2,
            next_in_range
        ),
        Err("no".to_string())
    );
    assert_eq!(
        allocate_number(ScanAnswer::Unexpected, "uidNumber", 1, 2, next_in_range),
        Err("unexpected response while allocating".to_string())
    );
}

fn bare_app() -> App {
    App {
        focus: Pane::Tree,
        should_quit: false,
        read_only: false,
        connection_encrypted: false,
        tree_state: TreeState::default(),
        current_branch: String::new(),
        last_search: String::new(),
        rows: vec![],
        leaf_sel: 0,
        search: TextInput::new(),
        last_seen_leaf: None,
        form: None,
        form_focus: 0,
        form_scroll: 0,
        overlay: None,
        status: String::new(),
        widgets: vec![],
        picker_search_id: None,
        picker_last_query: String::new(),
    }
}

#[test]
fn a_composed_entry_is_drafted_and_confirmed() {
    let mut app = bare_app();
    assert!(matches!(start_create(&mut app, 1), CreateStart::Nothing));
    app.form = Some(pw_user_form_pending(Some("p")));
    assert!(matches!(start_create(&mut app, 1), CreateStart::Nothing));
    app.form.as_mut().unwrap().mode = FormMode::Create {
        profile_idx: 0,
        container: "dc=x".into(),
    };
    assert!(matches!(start_create(&mut app, 0), CreateStart::Nothing));
    assert!(matches!(start_create(&mut app, 1), CreateStart::Refused));
    assert!(matches!(
        &app.overlay,
        Some(Overlay::Error { text }) if text == "password change requires an encrypted connection"
    ));
    app.connection_encrypted = true;
    match start_create(&mut app, 1) {
        CreateStart::Draft(d) => {
            assert_eq!((d.profile_idx, d.container.as_str()), (0, "dc=x"));
            assert_eq!(d.password.as_deref(), Some("p"));
            assert_eq!(d.edited.attrs.get("uid"), Some(&strings(&["ann"])));
        }
        _ => panic!("drafted"),
    }
    let mut attrs = attrs_of(&[("uid", &["ann"])]);
    let added = vec![AttrEntry {
        name: "userPassword".into(),
        values: strings(&["p"]),
    }];
    let preview = fold_create_password(&mut attrs, &added, "userPassword");
    assert_eq!(attrs.get("userPassword"), Some(&strings(&["p"])));
    assert_eq!(preview.get("userPassword"), Some(&strings(&["********"])));
    show_create(
        &mut app,
        CreatePrep::Confirm {
            dn: "uid=ann,dc=x".into(),
            attrs,
            container: "dc=x".into(),
        },
        "L".into(),
    );
    assert!(matches!(
        &app.overlay,
        Some(Overlay::Confirm { title, body, action: PendingAction::Create { .. } })
            if title == "Create this entry?" && body == "L"
    ));
    show_create(&mut app, CreatePrep::Error("no".into()), "L".into());
    assert!(matches!(&app.overlay, Some(Overlay::Error { text }) if text == "no"));
}

fn composing(profile_idx: usize, password: Option<&str>) -> App {
    let mut app = bare_app();
    app.connection_encrypted = true;
    let mut form = pw_user_form_pending(password);
    form.mode = FormMode::Create {
        profile_idx,
        container: "dc=x".into(),
    };
    app.form = Some(form);
    app
}

/// Prepares the creation of the entry that the form composes, with one number wanted.
fn prepare_composed(app: &mut App, number: Result<u64, String>) {
    prepare_create(
        app,
        &vec![create_user_profile()],
        |_: &EntryProfile, typed: &AttrMap| -> Vec<Resolution> {
            assert_eq!(typed.get("uid"), Some(&strings(&["ann"])));
            vec![Resolution::NeedsAutonumber {
                attr: "uidNumber".into(),
                min: 1,
                max: 9,
            }]
        },
        |attr: &str, min: u64, max: u64| -> Result<u64, String> {
            assert_eq!((attr, min, max), ("uidNumber", 1, 9));
            number.clone()
        },
        compose,
        valid,
        |clear: &str, _: &AttrMap| -> Option<PasswordAttrs> {
            Some(PasswordAttrs {
                primary: "userPassword".into(),
                added: vec![AttrEntry {
                    name: "userPassword".into(),
                    values: strings(&[clear]),
                }],
            })
        },
        |dn: &str, attrs: &AttrMap| -> String {
            format!("{dn} {:?}", attrs.get("userPassword"))
        },
    );
}

#[test]
fn a_creation_is_prepared_up_to_the_question() {
    let mut app = composing(0, Some("p"));
    prepare_composed(&mut app, Ok(7));
    match &app.overlay {
        Some(Overlay::Confirm {
            body,
            action: PendingAction::Create { dn, attrs, parent },
            ..
        }) => {
            assert_eq!(body, "uid=ann,dc=x Some([\"********\"])");
            assert_eq!((dn.as_str(), parent.as_str()), ("uid=ann,dc=x", "dc=x"));
            assert_eq!(attrs.get("uidNumber"), Some(&strings(&["7"])));
            assert_eq!(attrs.get("userPassword"), Some(&strings(&["p"])));
        }
        _ => panic!("the entry is asked about"),
    }
    let mut app = composing(0, None);
    prepare_composed(&mut app, Ok(7));
    assert!(matches!(
        &app.overlay,
        Some(Overlay::Confirm { body, .. }) if body == "uid=ann,dc=x None"
    ));
    let mut app = composing(0, None);
    prepare_composed(&mut app, Err("full".into()));
    assert!(matches!(&app.overlay, Some(Overlay::Error { text }) if text == "full"));
    let mut app = composing(1, None);
    prepare_composed(&mut app, Ok(7));
    assert!(app.overlay.is_none());
    let mut app = composing(0, Some("p"));
    app.connection_encrypted = false;
    prepare_composed(&mut app, Ok(7));
    assert!(matches!(&app.overlay, Some(Overlay::Error { .. })));
}

/// Prepares the creation of a composed entry whose password is typed into the form.
fn prepare_typed(app: &mut App, samba: bool, object_classes: &[&str]) {
    let mut profile = create_user_profile();
    profile.object_classes = strings(object_classes);
    profile.password = Some(pw_spec(samba));
    prepare_typed_create(
        app,
        &vec![profile],
        |_: &EntryProfile, typed: &AttrMap| -> Vec<Resolution> {
            assert!(typed.contains_key("userPassword"));
            vec![Resolution::Fill {
                attr: "sn".into(),
                value: "s".into(),
            }]
        },
        |_: &str, _: u64, _: u64| -> Result<u64, String> { panic!("no number is wanted") },
        written,
        compose,
        |e: &EditEntry, _: &Vec<String>| -> Vec<ValidationError> {
            assert!(!e.attrs.contains_key("userPassword"));
            assert!(!e.attrs.contains_key("userPassword (confirm)"));
            vec![]
        },
        |dn: &str, attrs: &AttrMap| -> String {
            format!("{dn} {:?}", attrs.get("userPassword"))
        },
    );
}

#[test]
fn a_creation_takes_the_typed_password() {
    let typed = |pw: &str, repeated: &str| {
        let mut app = composing(0, None);
        with_typed_fields(app.form.as_mut().unwrap(), pw, repeated);
        app
    };
    let mut app = typed("p", "p");
    prepare_typed(&mut app, true, &["testUser", "sambaSamAccount"]);
    match &app.overlay {
        Some(Overlay::Confirm {
            body,
            action: PendingAction::Create { dn, attrs, .. },
            ..
        }) => {
            assert_eq!(body, "uid=ann,dc=x Some([\"********\"])");
            assert_eq!(dn, "uid=ann,dc=x");
            assert_eq!(attrs.get("userPassword"), Some(&strings(&["p"])));
            assert_eq!(attrs.get("sambaNTPassword"), Some(&strings(&["HASH"])));
            assert_eq!(attrs.get("sn"), Some(&strings(&["s"])));
        }
        _ => panic!("the entry is asked about"),
    }
    let mut app = typed("p", "p");
    prepare_typed(&mut app, true, &["testUser"]);
    assert!(matches!(
        &app.overlay,
        Some(Overlay::Confirm { action: PendingAction::Create { attrs, .. }, .. })
            if !attrs.contains_key("sambaNTPassword")
    ));
    let mut app = typed("p", "q");
    prepare_typed(&mut app, false, &["testUser"]);
    assert!(matches!(
        &app.overlay,
        Some(Overlay::Error { text }) if text == "Passwords do not match."
    ));
    let mut app = composing(1, None);
    prepare_typed(&mut app, false, &["testUser"]);
    assert!(app.overlay.is_none());
}

// --- carrying out a save with groups ----------------------------------------------

fn group_changes() -> Vec<(String, ModOp)> {
    membership_fanout(
        "uid=ann",
        &strings(&["cn=g1"]),
        &strings(&["cn=g2"]),
        "member",
    )
}

#[test]
fn groups_are_read_before_a_member_is_removed() {
    let changes = group_changes();
    let mut ids = WriteIds::new();
    assert!(removal_read(&changes[0], &mut ids).is_none());
    match removal_read(&changes[1], &mut ids) {
        Some(Request::ReadAttr { id, dn, attr }) => assert_eq!(
            (id, dn.as_str(), attr.as_str()),
            (1_000_000, "cn=g1", "member")
        ),
        _ => panic!("the group is read"),
    }
    let found = ReadAnswer::Entries(vec![LdapEntry {
        dn: "cn=g1".into(),
        attrs: attrs_of(&[("MEMBER", &["UID=ANN"])]),
    }]);
    let members = read_group_members(&found, "member");
    assert_eq!(members, Some(strings(&["UID=ANN"])));
    assert_eq!(
        read_group_members(&ReadAnswer::Entries(vec![]), "member"),
        Some(vec![])
    );
    assert_eq!(read_group_members(&ReadAnswer::Failed, "member"), None);

    assert_eq!(
        blocked_removals(&changes, &vec![None, members.clone()]),
        vec!["cn=g1: would remove last member"]
    );
    let mut app = bare_app();
    assert!(!check_removals(&mut app, &changes, &vec![None, None]));
    assert!(matches!(
        &app.overlay,
        Some(Overlay::Error { text })
            if text == "Cannot save — membership change blocked:\n- cn=g1: could not verify members"
    ));
    let mut app = bare_app();
    let two = Some(strings(&["uid=ann", "uid=bob"]));
    assert!(check_removals(&mut app, &changes, &vec![None, two]));
    assert!(app.overlay.is_none());
}

#[test]
fn the_entry_is_written_first_then_its_groups() {
    let mut ids = WriteIds::new();
    let reqs = combined_requests(
        "uid=ann",
        vec![replace("sn", &["s"])],
        group_changes(),
        &mut ids,
    );
    let heads: Vec<(u64, String, usize)> = reqs
        .into_iter()
        .map(|r| match r {
            Request::Modify { id, dn, changes } => (id, dn, changes.len()),
            _ => panic!("only changes are written"),
        })
        .collect();
    assert_eq!(
        heads,
        vec![
            (1_000_000, "uid=ann".to_string(), 1),
            (1_000_001, "cn=g2".to_string(), 1),
            (1_000_002, "cn=g1".to_string(), 1),
        ]
    );
    assert_eq!(
        combined_requests("uid=ann", vec![], group_changes(), &mut ids).len(),
        2
    );
}

#[test]
fn failures_are_reported_and_keep_the_user_there() {
    assert_eq!(write_failure(WriteAnswer::Written), None);
    assert_eq!(
        write_failure(WriteAnswer::Unexpected).as_deref(),
        Some("unexpected response")
    );
    let failed = vec![
        None,
        write_failure(WriteAnswer::Refused("no".into())),
        write_failure(WriteAnswer::Failed("gone".into())),
    ];
    let lines = write_failures(&strings(&["uid=ann", "cn=g2", "cn=g1"]), &failed);
    assert_eq!(lines, vec!["cn=g2: no", "cn=g1: gone"]);

    let mut app = bare_app();
    app.rows = vec![("ann".to_string(), "uid=old".to_string())];
    reload_form(&mut app, "uid=ann", Some(pw_user_form_pending(None)));
    assert_eq!(app.rows[0].1, "uid=ann");
    assert_eq!(app.last_seen_leaf.as_deref(), Some("uid=ann"));
    assert!(app.form.is_some());
    assert!(finish_combined(&mut app, &lines, Some(GuardIntent::Quit)).is_none());
    assert!(!app.should_quit);
    assert!(matches!(
        &app.overlay,
        Some(Overlay::Error { text }) if text == "Saved with errors:\n- cn=g2: no\n- cn=g1: gone"
    ));
    app.overlay = None;
    finish_combined(&mut app, &vec![], Some(GuardIntent::Quit));
    assert!(app.should_quit);
    assert_eq!(app.status, "Saved.");
}

/// Carries out a save that moves an entry from one group to another, where the old group has the
/// given members. Gives back the entry to read, the entries written, the ids of all requests, and
/// the next id.
fn apply(
    app: &mut App,
    members: &[&str],
    refuse: &str,
) -> (Option<String>, Vec<String>, Vec<u64>, u64) {
    let sent = std::cell::RefCell::new(Vec::new());
    let used = std::cell::RefCell::new(Vec::new());
    let mut ids = WriteIds::new();
    let read = apply_combined_save(
        app,
        &mut ids,
        "uid=ann",
        vec![replace("sn", &["s"])],
        group_changes(),
        Some(GuardIntent::Nav(Some("uid=bob".into()))),
        |req: &Request| -> ReadAnswer {
            match req {
                Request::ReadAttr { id, dn, attr } => {
                    assert_eq!((dn.as_str(), attr.as_str()), ("cn=g1", "member"));
                    used.borrow_mut().push(*id);
                    ReadAnswer::Entries(vec![LdapEntry {
                        dn: dn.clone(),
                        attrs: attrs_of(&[("member", members)]),
                    }])
                }
                _ => panic!("only members are read"),
            }
        },
        |req: &Request| -> WriteAnswer {
            match req {
                Request::Modify { id, dn, .. } => {
                    used.borrow_mut().push(*id);
                    sent.borrow_mut().push(dn.clone());
                    if dn == refuse {
                        WriteAnswer::Refused("no".into())
                    } else {
                        WriteAnswer::Written
                    }
                }
                _ => panic!("only changes are written"),
            }
        },
        |id: u64, dn: &str| -> Option<EditForm> {
            used.borrow_mut().push(id);
            assert_eq!(dn, "uid=ann");
            None
        },
    );
    (read, sent.into_inner(), used.into_inner(), ids.next)
}

#[test]
fn a_save_with_groups_is_carried_out_or_held_up() {
    let mut app = bare_app();
    let (read, sent, used, next) = apply(&mut app, &["uid=ann"], "");
    assert_eq!((read, sent.len()), (None, 0));
    assert_eq!((used, next), (vec![1_000_000], 1_000_001));
    assert!(matches!(&app.overlay, Some(Overlay::Error { text }) if text.contains("last member")));

    let mut app = bare_app();
    let (read, sent, used, next) = apply(&mut app, &["uid=ann", "uid=bob"], "");
    assert_eq!(sent, vec!["uid=ann", "cn=g2", "cn=g1"]);
    assert_eq!(used, vec![1_000_000, 1_000_001, 1_000_002, 1_000_003, 1_000_004]);
    assert_eq!(next, 1_000_005);
    assert_eq!(read.as_deref(), Some("uid=bob"));
    assert_eq!(app.status, "Saved.");

    let mut app = bare_app();
    let (read, sent, _, _) = apply(&mut app, &["uid=ann", "uid=bob"], "cn=g2");
    assert_eq!((read, sent.len()), (None, 3));
    assert!(matches!(
        &app.overlay,
        Some(Overlay::Error { text }) if text == "Saved with errors:\n- cn=g2: no"
    ));
}
