use std::rc::Rc;

use edaptor::app::action::PlannedSave;
use edaptor::attrs::AttrMap;
use edaptor::changes::{ModOp, SavePlan, ValidationError};
use edaptor::dialog::GuardDecision;
use edaptor::edit_form::FormMode;
use edaptor::profiles::EntryProfile;
use edaptor::session::create::{
    container_chosen, create_preview, mark_allocating, open_create, profile_chosen,
    start_profile_chosen, strip_sentinel_from_attrs, CreateSubmit, NewEntry,
};
use edaptor::session::flow::{
    create_step, save_step, Companion, CreateDo, CreateEvent, CreateFlow, SaveDo, SaveEvent,
    SaveFlow,
};
use edaptor::session::save::{
    combined_flow_action, save_flow_action, start_save, Batch, GroupReads, PlanCombined,
    SaveAction, SaveStart, NO_ASSERTION,
};
use edaptor::session::{
    apply_branch_guard_stay, apply_cancelled_guard_save, conflict_answered, discard_edits,
    dispatch, editor_closed, guard_answered, guard_save_done, quit_answered, CommitOutcome,
    ConflictPrompt, ConflictStep, DispatchStep, Field, Form, GuardStep, GuardTarget, QuitStep,
    SaveOutcome, Session, StartupAction,
};
use edaptor::widgets::{CandidateScope, PickerBinding, StoreKey, WidgetKind};
use tvision_rs::Command;

const SENTINEL: &str = "\u{0}staged";

fn strings(v: &[&str]) -> Vec<String> {
    v.iter().map(|s| s.to_string()).collect()
}

fn bare() -> Session {
    Session {
        edit_form: None,
        activate_field: None,
        staged_commit: None,
        guard_target: None,
        pending_nav: None,
        current_branch: None,
        status: String::new(),
        chosen_profile: None,
        chosen_container: None,
        last_conflict: None,
        last_write_error: None,
        pending_startup: None,
        pending_password: None,
        pending_password_attrs: vec![],
        connection_encrypted: true,
        assertion_supported: true,
        concurrency_warned: false,
        server_supports_txn: false,
        list_dirty: false,
        form_needs_render: false,
        focus_form_request: false,
        set_tree_row: None,
    }
}

fn field(label: &str, values: &[&str], baseline: &[&str]) -> Field {
    Field {
        label: label.into(),
        values: strings(values),
        baseline: strings(baseline),
        widget_binding: None,
        orphaned: false,
    }
}

fn form(fields: Vec<Field>) -> Form {
    Form {
        dn: "cn=a,ou=p,dc=x".into(),
        fields,
        mode: FormMode::Edit,
        object_classes: strings(&["person"]),
        baseline_csn: Some("v1".into()),
    }
}

fn dirty() -> Session {
    let mut st = bare();
    st.edit_form = Some(form(vec![field("sn", &["new"], &["old"])]));
    st
}

fn memberships() -> Field {
    let mut f = field("memberOf", &["cn=g2"], &["cn=g1"]);
    f.widget_binding = Some(WidgetKind::Picker(Rc::new(PickerBinding {
        attr: "memberOf".into(),
        scope: CandidateScope {
            base: "ou=groups".into(),
            object_classes: vec![],
            search_attrs: vec![],
            label_attrs: None,
        },
        store: StoreKey::Dn,
        select: None,
        fanout_attr: Some("member".into()),
    })));
    f
}

fn command(name: &'static str) -> Command {
    Command::custom(name)
}

#[test]
fn guard_stay_on_branch_target_reverts_tree() {
    let mut st = bare();
    let branches = ["dc=x", "ou=p,dc=x", "ou=q,dc=x"];
    st.current_branch = Some("ou=p,dc=x".into());
    st.guard_target = Some(GuardTarget::Branch("ou=q,dc=x".into()));
    let row = branches
        .iter()
        .position(|b| Some(*b) == st.current_branch.as_deref());

    apply_branch_guard_stay(&mut st, row);

    assert_eq!(st.set_tree_row, row, "revert tree to current branch");
    assert_eq!(st.set_tree_row, Some(1));
    assert!(st.guard_target.is_none());
}

#[test]
fn cancelled_guard_save_snaps_highlight_back() {
    let mut st = bare();
    st.current_branch = Some("ou=p,dc=x".into());
    st.guard_target = Some(GuardTarget::Leaf("cn=b,ou=p,dc=x".into(), vec![]));
    st.pending_nav = Some(("cn=b,ou=p,dc=x".into(), vec![]));

    apply_cancelled_guard_save(&mut st);

    assert!(
        st.list_dirty,
        "a rebuild is requested so the pane re-resolves the highlight"
    );
    assert!(st.guard_target.is_none());
    assert!(st.pending_nav.is_none());
}

#[test]
fn strip_sentinel_removes_only_staged_sentinel_attrs() {
    let mut attrs = AttrMap::new();
    attrs.insert("userPassword".into(), strings(&[SENTINEL]));
    attrs.insert("cn".into(), strings(&["Alice"]));

    strip_sentinel_from_attrs(&mut attrs, &strings(&["userPassword"]), SENTINEL);

    assert!(
        !attrs.contains_key("userPassword"),
        "sentinel attr must be stripped from attrs"
    );
    assert_eq!(
        attrs.get("cn"),
        Some(&strings(&["Alice"])),
        "cn must be untouched"
    );
}

#[test]
fn strip_sentinel_preserves_real_password_value() {
    let mut attrs = AttrMap::new();
    attrs.insert("userPassword".into(), strings(&["{SSHA}realhash"]));

    strip_sentinel_from_attrs(&mut attrs, &strings(&["userPassword"]), SENTINEL);

    assert!(
        attrs.contains_key("userPassword"),
        "real hash must not be stripped"
    );
    assert_eq!(
        attrs.get("userPassword"),
        Some(&strings(&["{SSHA}realhash"]))
    );
}

#[test]
fn save_flow_action_classifies_prepare() {
    assert!(matches!(
        save_flow_action(&PlannedSave::NoChanges),
        SaveAction::Status(_)
    ));
    assert!(matches!(
        save_flow_action(&PlannedSave::Invalid(vec![ValidationError::MissingMust(
            "cn".into()
        )])),
        SaveAction::Error(_)
    ));
    assert!(matches!(
        save_flow_action(&PlannedSave::DiffError("bad".into())),
        SaveAction::Error(_)
    ));
    let ready = PlannedSave::Ready {
        plan: SavePlan::Nothing,
        dn: "d".into(),
        ldif: "L".into(),
    };
    assert!(matches!(save_flow_action(&ready), SaveAction::Confirm(_)));
}

/// A change of the entry itself, and one of a group.
fn batch() -> Batch {
    Batch {
        own_dn: "cn=a".into(),
        own_mods: vec![ModOp::Replace {
            attr: "sn".into(),
            values: strings(&["s"]),
        }],
        fanout: vec![(
            "cn=g1".to_string(),
            ModOp::Delete {
                attr: "member".into(),
                values: strings(&["cn=a"]),
            },
        )],
    }
}

fn ready_batch() -> PlanCombined {
    PlanCombined::Ready {
        batch: batch(),
        ldif: "L".into(),
    }
}

fn groups() -> GroupReads {
    GroupReads {
        members: vec![("cn=g1".to_string(), strings(&["cn=a", "cn=b"]))],
        versions: vec![("cn=g1".to_string(), "v7".to_string())],
    }
}

#[test]
fn combined_plans_are_refused_before_anything_is_asked() {
    match combined_flow_action(ready_batch()) {
        Ok((b, ldif)) => assert_eq!((b.own_dn.as_str(), ldif.as_str()), ("cn=a", "L")),
        Err(_) => panic!("the plan is ready"),
    }
    assert!(matches!(
        combined_flow_action(PlanCombined::RenameWithMembershipUnsupported),
        Err(SaveAction::Error(e)) if e == "Rename and membership changes can't be saved together — do them as separate saves."
    ));
    assert!(matches!(
        combined_flow_action(PlanCombined::NoChanges),
        Err(SaveAction::Status(s)) if s == "No changes."
    ));
    assert!(matches!(
        combined_flow_action(PlanCombined::DiffError("bad".into())),
        Err(SaveAction::Error(e)) if e == "bad"
    ));
    assert!(matches!(
        combined_flow_action(PlanCombined::Invalid(vec![ValidationError::MissingMust(
            "cn".into()
        )])),
        Err(SaveAction::Error(e)) if e.contains("missing required attribute: cn")
    ));
}

#[test]
fn commands_lead_to_their_steps() {
    let mut st = bare();
    assert!(matches!(
        dispatch(&mut st, command("edaptor.request_quit"), &vec![], 0),
        DispatchStep::Quit
    ));
    let mut st = dirty();
    assert!(matches!(
        dispatch(&mut st, command("edaptor.request_quit"), &vec![], 0),
        DispatchStep::AskQuit
    ));
    assert!(matches!(
        dispatch(&mut st, command("edaptor.save"), &vec![], 0),
        DispatchStep::SaveEntry
    ));
    st.edit_form.as_mut().unwrap().mode = FormMode::Create {
        profile_idx: 0,
        container: "dc=x".into(),
    };
    assert!(matches!(
        dispatch(&mut st, command("edaptor.save"), &vec![], 0),
        DispatchStep::CreateEntry
    ));
    st.activate_field = Some(0);
    assert!(matches!(
        dispatch(&mut st, command("edaptor.activate_field"), &vec![], 0),
        DispatchStep::EditField(0)
    ));
    assert_eq!(st.activate_field, None);
    assert!(matches!(
        dispatch(&mut st, command("edaptor.activate_field"), &vec![], 0),
        DispatchStep::Done
    ));
    st.edit_form.as_mut().unwrap().fields[0].widget_binding = Some(WidgetKind::SambaSid);
    st.activate_field = Some(0);
    assert!(matches!(
        dispatch(&mut st, command("edaptor.activate_field"), &vec![], 0),
        DispatchStep::ComputeSid(0)
    ));
    assert!(matches!(
        dispatch(&mut st, command("edaptor.guard_nav"), &vec![], 0),
        DispatchStep::AskGuard
    ));
    assert!(matches!(
        dispatch(&mut st, command("edaptor.reload"), &vec![], 0),
        DispatchStep::Reload
    ));
    assert!(matches!(
        dispatch(&mut st, Command::OK, &vec![], 0),
        DispatchStep::Done
    ));
}

#[test]
fn a_new_entry_needs_a_branch_and_a_profile() {
    let mut st = bare();
    dispatch(&mut st, command("edaptor.create"), &vec![1], 2);
    assert_eq!(st.status, "Select a container first.");
    st.current_branch = Some("ou=p,dc=x".into());
    dispatch(&mut st, command("edaptor.create"), &vec![], 2);
    assert_eq!(st.status, "No profile for this container.");
    assert!(matches!(
        dispatch(&mut st, command("edaptor.create"), &vec![1], 2),
        DispatchStep::OpenCreate { profile_idx: 1, branch } if branch == "ou=p,dc=x"
    ));
    assert!(matches!(
        dispatch(&mut st, command("edaptor.create"), &vec![0, 1], 2),
        DispatchStep::ChooseProfile { offer, .. } if offer == vec![0, 1]
    ));
}

fn conflict() -> ConflictPrompt {
    ConflictPrompt {
        text: "t".into(),
        dn: "cn=a,ou=p,dc=x".into(),
        quit_after: true,
        fresh_csn: Some("v2".into()),
    }
}

#[test]
fn failures_and_the_start_are_shown_once() {
    let mut st = bare();
    st.last_conflict = Some(conflict());
    st.last_write_error = Some("no".into());
    let show = || command("edaptor.show_error");
    assert!(matches!(
        dispatch(&mut st, show(), &vec![], 0),
        DispatchStep::ShowConflict(_)
    ));
    assert!(matches!(
        dispatch(&mut st, show(), &vec![], 0),
        DispatchStep::ShowError(m) if m == "no"
    ));
    assert!(matches!(
        dispatch(&mut st, show(), &vec![], 0),
        DispatchStep::Done
    ));
    st.pending_startup = Some(StartupAction::ChooseThenCreate { container: None });
    dispatch(&mut st, command("edaptor.startup"), &vec![], 0);
    assert_eq!(st.status, "No profiles configured.");
    st.pending_startup = Some(StartupAction::Create {
        profile_idx: 3,
        container: "dc=x".into(),
    });
    assert!(matches!(
        dispatch(&mut st, command("edaptor.startup"), &vec![], 4),
        DispatchStep::StartCreate { profile_idx: 3, .. }
    ));
    assert!(st.pending_startup.is_none());
}

#[test]
fn the_guard_saves_discards_or_stays() {
    let mut st = dirty();
    st.guard_target = Some(GuardTarget::Leaf("cn=b".into(), strings(&["person"])));
    match guard_answered(&mut st, GuardDecision::Save, None) {
        GuardStep::Save {
            target: Some(GuardTarget::Leaf(dn, _)),
            nav: Some((nav, ocs)),
        } => {
            assert_eq!((dn.as_str(), nav.as_str()), ("cn=b", "cn=b"));
            assert_eq!(ocs, vec!["person"]);
        }
        _ => panic!("saves first"),
    }
    assert!(st.edit_form.as_ref().unwrap().is_dirty());
    assert!(matches!(
        guard_answered(&mut st, GuardDecision::Stay, Some(4)),
        GuardStep::Done
    ));
    assert!(st.list_dirty && st.set_tree_row.is_none());
    st.guard_target = Some(GuardTarget::Branch("ou=q".into()));
    assert!(matches!(
        guard_answered(&mut st, GuardDecision::Discard, None),
        GuardStep::CommitBranch(dn) if dn == "ou=q"
    ));
    assert!(!st.edit_form.as_ref().unwrap().is_dirty());
    assert_eq!(quit_answered(GuardDecision::Save), QuitStep::SaveThenQuit);
    assert_eq!(quit_answered(GuardDecision::Discard), QuitStep::Quit);
    assert_eq!(quit_answered(GuardDecision::Stay), QuitStep::Stay);
}

#[test]
fn the_guard_moves_on_after_a_submitted_save() {
    let mut st = bare();
    let branch = || Some(GuardTarget::Branch("ou=q".into()));
    assert_eq!(
        guard_save_done(&mut st, branch(), SaveOutcome::Submitted, None).as_deref(),
        Some("ou=q")
    );
    assert!(guard_save_done(&mut st, branch(), SaveOutcome::NotSubmitted, Some(2)).is_none());
    assert_eq!(st.set_tree_row, Some(2));
}

#[test]
fn discarding_gives_the_values_back() {
    let mut st = dirty();
    discard_edits(&mut st);
    assert_eq!(st.edit_form.as_ref().unwrap().fields[0].values, vec!["old"]);
    assert!(st.form_needs_render);
    st.staged_commit = Some(CommitOutcome::SetValues(strings(&["x"])));
    assert_eq!(
        editor_closed(&mut st, true),
        Some(CommitOutcome::SetValues(strings(&["x"])))
    );
    st.staged_commit = Some(CommitOutcome::SetValues(strings(&["x"])));
    assert_eq!(editor_closed(&mut st, false), None);
    assert_eq!(st.staged_commit, None);
}

#[test]
fn concurrent_changes_are_overwritten_or_read() {
    let mut st = dirty();
    assert!(matches!(
        conflict_answered(&mut st, command("edaptor.conflict.overwrite"), conflict()),
        ConflictStep::Save { quit_after: true }
    ));
    assert_eq!(
        st.edit_form.as_ref().unwrap().baseline_csn.as_deref(),
        Some("v2")
    );
    assert!(matches!(
        conflict_answered(&mut st, Command::NO, conflict()),
        ConflictStep::Done
    ));
    assert!(st.edit_form.is_some());
    assert!(matches!(
        conflict_answered(&mut st, Command::CANCEL, conflict()),
        ConflictStep::Reread(dn, ocs) if dn == "cn=a,ou=p,dc=x" && ocs == vec!["person"]
    ));
    assert!(st.edit_form.is_none());
}

// --- saving ----------------------------------------------------------------------

fn ready() -> PlannedSave {
    PlannedSave::Ready {
        plan: SavePlan::Nothing,
        dn: "cn=a".into(),
        ldif: "L".into(),
    }
}

fn begun(st: &mut Session) -> (SaveFlow, SaveDo) {
    save_step(
        st,
        SaveFlow::Start {
            nav: Some(("cn=b".into(), vec![])),
            quit_after: false,
        },
        SaveEvent::Begin,
    )
}

#[test]
fn a_save_is_planned_asked_about_and_submitted() {
    let mut st = dirty();
    st.pending_password = Some("p".into());
    let (flow, act) = begun(&mut st);
    assert!(matches!(act, SaveDo::Plan));
    let (flow, act) = save_step(&mut st, flow, SaveEvent::Planned(ready()));
    assert!(matches!(act, SaveDo::Ask(l) if l == "L"));
    let (flow, act) = save_step(&mut st, flow, SaveEvent::Answered(Command::OK));
    match act {
        SaveDo::Submit { dn, csn, .. } => {
            assert_eq!(dn, "cn=a");
            assert_eq!(csn.as_deref(), Some("v1"));
        }
        _ => panic!("submitted"),
    }
    assert_eq!(st.pending_password, None);
    assert_eq!(st.pending_nav.as_ref().unwrap().0, "cn=b");
    let (flow, act) = save_step(&mut st, flow, SaveEvent::Submitted(Some(Ok(()))));
    assert!(matches!(act, SaveDo::Finish(SaveOutcome::Submitted)));
    assert!(matches!(flow, SaveFlow::Finished(SaveOutcome::Submitted)));
}

#[test]
fn a_save_can_be_declined_or_fail() {
    let mut st = dirty();
    let (flow, _) = begun(&mut st);
    let (flow, _) = save_step(&mut st, flow, SaveEvent::Planned(ready()));
    let (flow, act) = save_step(&mut st, flow, SaveEvent::Dismissed);
    assert!(matches!(act, SaveDo::Ignore));
    let (_, act) = save_step(&mut st, flow, SaveEvent::Answered(Command::CANCEL));
    assert!(matches!(act, SaveDo::Finish(SaveOutcome::NotSubmitted)));
    assert!(st.pending_nav.is_none());

    let failed = || SaveEvent::Submitted(Some(Err("no".into())));
    let (_, act) = save_step(&mut st, SaveFlow::Submitting, failed());
    assert!(matches!(act, SaveDo::Finish(SaveOutcome::NotSubmitted)));
    let (flow, act) = save_step(&mut st, SaveFlow::SubmittingCombined, failed());
    assert!(matches!(act, SaveDo::Show(m) if m == "no"));
    let (_, act) = save_step(&mut st, flow, SaveEvent::Dismissed);
    assert!(matches!(act, SaveDo::Finish(SaveOutcome::NotSubmitted)));
    let (_, act) = save_step(&mut st, SaveFlow::Submitting, SaveEvent::Submitted(None));
    assert!(matches!(act, SaveDo::Finish(SaveOutcome::NotSubmitted)));

    let (flow, _) = begun(&mut st);
    let (_, act) = save_step(&mut st, flow, SaveEvent::Planned(PlannedSave::NoChanges));
    assert!(matches!(act, SaveDo::Finish(SaveOutcome::NotSubmitted)));
    assert_eq!(st.status, "No changes.");
}

#[test]
fn a_password_does_not_leave_in_the_clear() {
    let mut st = dirty();
    st.pending_password = Some("p".into());
    st.connection_encrypted = false;
    assert_eq!(start_save(&st), SaveStart::Refused);
    let (_, act) = begun(&mut st);
    assert!(matches!(
        act,
        SaveDo::Show(m) if m == "Changing a password requires an encrypted connection."
    ));
    assert_eq!(st.pending_password.as_deref(), Some("p"));
}

#[test]
fn changed_groups_take_the_save_of_several_entries() {
    let mut st = bare();
    assert_eq!(start_save(&st), SaveStart::NoForm);
    st.edit_form = Some(form(vec![memberships()]));
    st.assertion_supported = false;
    assert_eq!(start_save(&st), SaveStart::Combined);
    let (flow, act) = begun(&mut st);
    assert!(matches!(act, SaveDo::PlanCombined));
    let (flow, act) = save_step(&mut st, flow, SaveEvent::PlannedCombined(ready_batch()));
    assert!(matches!(
        act,
        SaveDo::ReadGroups { own_dn, fanout, versions: false }
            if own_dn == "cn=a" && fanout == batch().fanout
    ));
    let (flow, act) = save_step(
        &mut st,
        flow,
        SaveEvent::GroupsRead {
            groups: groups(),
            block: None,
        },
    );
    assert!(matches!(act, SaveDo::Ask(l) if l == "L"));
    let (_, act) = save_step(&mut st, flow, SaveEvent::Answered(Command::OK));
    match act {
        SaveDo::SubmitCombined {
            batch: b,
            groups: g,
            csn: None,
            quit_after: false,
        } => {
            assert_eq!(b.own_dn, "cn=a");
            assert_eq!((b.own_mods, b.fanout), (batch().own_mods, batch().fanout));
            assert_eq!(g.members, groups().members);
            assert!(g.versions.is_empty(), "the directory cannot check versions");
        }
        _ => panic!("submitted"),
    }
    assert_eq!(st.pending_nav.as_ref().unwrap().0, "cn=b");
}

#[test]
fn a_save_of_several_entries_asserts_versions_where_it_can() {
    let mut st = bare();
    st.edit_form = Some(form(vec![memberships()]));
    let (flow, _) = begun(&mut st);
    let (flow, act) = save_step(&mut st, flow, SaveEvent::PlannedCombined(ready_batch()));
    assert!(matches!(act, SaveDo::ReadGroups { versions: true, .. }));
    let (flow, _) = save_step(
        &mut st,
        flow,
        SaveEvent::GroupsRead {
            groups: groups(),
            block: None,
        },
    );
    let (_, act) = save_step(&mut st, flow, SaveEvent::Answered(Command::OK));
    match act {
        SaveDo::SubmitCombined { groups: g, csn, .. } => {
            assert_eq!(csn.as_deref(), Some("v1"));
            assert_eq!(g.versions, groups().versions);
        }
        _ => panic!("submitted"),
    }
}

#[test]
fn a_group_that_would_be_emptied_holds_up_the_save() {
    let mut st = bare();
    st.edit_form = Some(form(vec![memberships()]));
    let (flow, _) = begun(&mut st);
    let (flow, _) = save_step(&mut st, flow, SaveEvent::PlannedCombined(ready_batch()));
    let (flow, act) = save_step(
        &mut st,
        flow,
        SaveEvent::GroupsRead {
            groups: groups(),
            block: Some("no".into()),
        },
    );
    assert!(matches!(act, SaveDo::Show(m) if m == "no"));
    let (_, act) = save_step(&mut st, flow, SaveEvent::Answered(Command::OK));
    assert!(matches!(act, SaveDo::Ignore));
    let (flow, _) = begun(&mut st);
    let (_, act) = save_step(
        &mut st,
        flow,
        SaveEvent::PlannedCombined(PlanCombined::NoChanges),
    );
    assert!(matches!(act, SaveDo::Finish(SaveOutcome::NotSubmitted)));
    assert_eq!(st.status, "No changes.");
}

#[test]
fn the_user_is_warned_once_of_lost_updates() {
    let mut st = dirty();
    st.assertion_supported = false;
    for warned in [true, false] {
        st.status = String::new();
        let (flow, _) = begun(&mut st);
        let (flow, _) = save_step(&mut st, flow, SaveEvent::Planned(ready()));
        save_step(&mut st, flow, SaveEvent::Answered(Command::OK));
        assert_eq!(st.status == NO_ASSERTION, warned);
    }
}

// --- creating --------------------------------------------------------------------

fn composing() -> Session {
    let mut st = bare();
    let mut f = form(vec![field("uidNumber", &[], &[])]);
    f.mode = FormMode::Create {
        profile_idx: 2,
        container: "ou=p".into(),
    };
    open_create(
        &mut st,
        f,
        &vec![("UIDNUMBER".to_string(), 1, 2)],
        "<allocating>",
    );
    st
}

#[test]
fn a_new_form_waits_for_its_numbers() {
    let st = composing();
    assert!(st.focus_form_request && st.form_needs_render);
    assert_eq!(
        st.edit_form.as_ref().unwrap().fields[0].values,
        vec!["<allocating>"]
    );
    let mut fields = vec![field("sn", &["s"], &[])];
    mark_allocating(&mut fields, "uidNumber", "x");
    assert_eq!(fields[0].values, vec!["s"]);
}

#[test]
fn profiles_and_containers_are_chosen() {
    let mut st = bare();
    st.chosen_profile = Some(1);
    assert_eq!(profile_chosen(&mut st, true, &vec![4, 7]), Some(7));
    assert_eq!(st.chosen_profile, None);
    st.chosen_profile = Some(1);
    assert_eq!(profile_chosen(&mut st, false, &vec![4, 7]), None);
    st.chosen_container = Some(1);
    assert_eq!(
        container_chosen(&mut st, true, "here".into(), "home".into()).as_deref(),
        Some("home")
    );
    st.chosen_container = Some(0);
    assert_eq!(
        container_chosen(&mut st, true, "here".into(), "home".into()).as_deref(),
        Some("here")
    );
    let profiles = vec![EntryProfile {
        name: "User".into(),
        object_classes: vec![],
        rdn_attr: "uid".into(),
        search_base: "  ".into(),
        password: None,
    }];
    st.chosen_profile = Some(0);
    assert_eq!(start_profile_chosen(&mut st, true, None, &profiles), None);
    assert_eq!(st.status, "Profile has no search_base; pass --container.");
    st.chosen_profile = Some(0);
    assert_eq!(
        start_profile_chosen(&mut st, true, Some("dc=x".into()), &profiles),
        Some((0, "dc=x".to_string()))
    );
}

fn attrs() -> AttrMap {
    let mut m = AttrMap::new();
    m.insert("uid".into(), strings(&["a"]));
    m.insert("userPassword".into(), strings(&[SENTINEL]));
    m
}

#[test]
fn a_creation_is_planned_asked_about_and_submitted() {
    let mut st = composing();
    st.pending_password = Some("p".into());
    st.pending_password_attrs = strings(&["userPassword"]);
    st.server_supports_txn = true;
    let (flow, act) = create_step(&mut st, CreateFlow::Start, CreateEvent::Begin, SENTINEL);
    assert!(matches!(
        act,
        CreateDo::Plan { profile_idx: 2, container } if container == "ou=p"
    ));
    let (flow, act) = create_step(
        &mut st,
        flow,
        CreateEvent::Planned(Ok(("uid=a".into(), attrs(), "L".into()))),
        SENTINEL,
    );
    assert!(matches!(act, CreateDo::Fold { .. }));
    let (flow, act) = create_step(
        &mut st,
        flow,
        CreateEvent::Folded {
            attrs: attrs(),
            masked: None,
        },
        SENTINEL,
    );
    match act {
        CreateDo::Pair { attrs } => {
            assert_eq!(attrs.get("uid"), Some(&strings(&["a"])));
            assert!(!attrs.contains_key("userPassword"), "as the entry is added");
        }
        _ => panic!("the companion is planned"),
    }
    let companion = Companion {
        entry: NewEntry {
            dn: "cn=a".into(),
            attrs: AttrMap::new(),
        },
        ldif: "M".into(),
    };
    let (flow, act) = create_step(
        &mut st,
        flow,
        CreateEvent::Paired(Ok(Some(companion))),
        SENTINEL,
    );
    assert!(matches!(
        act,
        CreateDo::Ask(p) if p == "# New entry\nL\n# Companion entry\nM"
    ));
    assert_eq!(st.pending_password.as_deref(), Some("p"));
    let (_, act) = create_step(
        &mut st,
        flow,
        CreateEvent::Answered(Command::OK),
        SENTINEL,
    );
    match act {
        CreateDo::Submit(CreateSubmit::Atomic { first, last }) => {
            assert_eq!((first.dn.as_str(), last.dn.as_str()), ("cn=a", "uid=a"));
            assert!(!last.attrs.contains_key("userPassword"));
        }
        _ => panic!("both at once"),
    }
    assert_eq!(st.pending_password, None);
}

#[test]
fn a_creation_is_refused_or_declined() {
    let mut st = composing();
    st.pending_password = Some("p".into());
    st.connection_encrypted = false;
    let planned = || CreateEvent::Planned(Ok(("uid=a".into(), attrs(), "L".into())));
    let (_, act) = create_step(&mut st, CreateFlow::Planning, planned(), SENTINEL);
    assert!(matches!(
        act,
        CreateDo::Show(m) if m == "Changing a password requires an encrypted connection."
    ));
    let (flow, act) = create_step(
        &mut st,
        CreateFlow::Planning,
        CreateEvent::Planned(Err("bad".into())),
        SENTINEL,
    );
    assert!(matches!(act, CreateDo::Show(m) if m == "bad"));
    let (_, act) = create_step(&mut st, flow, CreateEvent::Dismissed, SENTINEL);
    assert!(matches!(act, CreateDo::Finish));
    let confirming = CreateFlow::Confirming {
        entry: NewEntry {
            dn: "uid=a".into(),
            attrs: AttrMap::new(),
        },
        companion: None,
    };
    let (_, act) = create_step(
        &mut st,
        confirming,
        CreateEvent::Answered(Command::CANCEL),
        SENTINEL,
    );
    assert!(matches!(act, CreateDo::Finish));
    let mut edit = dirty();
    let (_, act) = create_step(&mut edit, CreateFlow::Start, CreateEvent::Begin, SENTINEL);
    assert!(matches!(act, CreateDo::Finish));
    assert_eq!(create_preview("L", None), "L");
}
