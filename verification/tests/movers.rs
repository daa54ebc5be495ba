use std::rc::Rc;

use edaptor::dual_list::{
    clamp_cursor, command_input, dual_layout, key_input, DualEvent, DualInput, DualList, DualRow,
    CMD_DUAL_IN, CMD_DUAL_OUT,
};
use edaptor::keys::KeyCode;
use edaptor::layout::Rect;
use edaptor::membership::{
    candidate_rows, membership_binding, membership_step, present, search_scope, seed_rows,
    MembershipStep,
};
use edaptor::multi_picker::{
    multi_binding, offered_rows, shuttle_step, staged_values, sync_results, ShuttleNotice,
    ShuttleRow, ShuttleStep,
};
use edaptor::widgets::{
    Candidate, CandidateScope, Cardinality, PickerBinding, StoreKey, WidgetKind,
};
use tvision_rs::Command;

const G1: &str = "cn=devs,ou=groups,dc=example,dc=org";
const G2: &str = "cn=ops,ou=groups,dc=example,dc=org";

fn strings(v: &[&str]) -> Vec<String> {
    v.iter().map(|s| s.to_string()).collect()
}

fn row(key: &str) -> DualRow {
    DualRow {
        key: key.into(),
        label: key.into(),
        removable: true,
    }
}

fn locked(key: &str) -> DualRow {
    DualRow {
        key: key.into(),
        label: key.into(),
        removable: false,
    }
}

fn keys(rows: &[DualRow]) -> Vec<&str> {
    rows.iter().map(|r| r.key.as_str()).collect()
}

fn list(available: Vec<DualRow>, selected: Vec<DualRow>) -> DualList {
    let mut dl = DualList::new(10, true);
    dl.available = available;
    dl.selected = selected;
    dl
}

#[test]
fn move_in_appends_to_selected_and_reports() {
    let mut dl = list(vec![row("a"), row("b")], vec![]);
    let ev = dl.do_move_in(0);
    assert!(matches!(ev, DualEvent::MovedIn(ref k) if k == "a"));
    assert_eq!(keys(&dl.selected), ["a"]);
}

#[test]
fn dual_list_move_in_is_deduped() {
    let mut dl = list(vec![row("a")], vec![row("a")]);
    let ev = dl.do_move_in(0);
    assert_eq!(
        ev,
        DualEvent::Nothing,
        "already-selected row must not duplicate"
    );
    assert_eq!(keys(&dl.selected), ["a"]);
}

#[test]
fn move_out_respects_removable_flag() {
    let mut dl = list(vec![], vec![locked("top")]);
    let ev = dl.do_move_out(0);
    assert_eq!(ev, DualEvent::Nothing, "non-removable row stays");
    assert_eq!(dl.selected.len(), 1);
}

#[test]
fn move_out_removes_removable_and_reports() {
    let mut dl = list(vec![], vec![row("x"), row("y")]);
    let ev = dl.do_move_out(0);
    assert!(matches!(ev, DualEvent::MovedOut(ref k) if k == "x"));
    assert_eq!(keys(&dl.selected), ["y"]);
}

#[test]
fn out_of_range_moves_are_noops() {
    let mut dl = list(vec![row("a")], vec![]);
    assert_eq!(dl.do_move_in(9), DualEvent::Nothing);
    assert_eq!(dl.do_move_out(9), DualEvent::Nothing);
}

#[test]
fn selected_on_left_does_not_change_move_semantics() {
    let mut dl = list(vec![row("a")], vec![]);
    let ev = dl.do_move_in(0);
    assert!(matches!(ev, DualEvent::MovedIn(ref k) if k == "a"));
    assert_eq!(keys(&dl.selected), ["a"]);
}

#[test]
fn moving_out_undoes_moving_in_a_row() {
    let mut dl = list(vec![row("b")], vec![row("a")]);
    dl.do_move_in(0);
    assert_eq!(dl.do_move_out(1), DualEvent::MovedOut("b".into()));
    assert_eq!(dl.selected_keys(), vec!["a"]);
}

#[test]
fn rows_carry_their_marks_and_are_found_by_them() {
    let dl = list(vec![row("a"), row("b")], vec![row("B"), locked("top")]);
    assert_eq!(dl.avail_rows(), vec!["  a", "✓ b"]);
    assert_eq!(dl.selected_rows(), vec!["  B", "* top"]);
    assert_eq!(dl.avail_highlight("✓ b"), Some(1));
    assert_eq!(dl.avail_highlight("b"), None);
    assert_eq!(dl.selected_highlight("* top"), Some(1));
    assert!(dl.is_selected("b"));
    assert!(!dl.is_selected("a"));
    assert_eq!(dl.bars(), (false, false));
    assert_eq!(clamp_cursor(7, 3), 2);
    assert_eq!(clamp_cursor(-1, 3), 0);
    assert_eq!(clamp_cursor(5, 0), 0);
}

#[test]
fn a_changed_search_text_is_reported_once() {
    let mut dl = list(vec![], vec![]);
    assert_eq!(
        dl.settle(DualEvent::Nothing, "de"),
        DualEvent::SearchChanged("de".into())
    );
    assert_eq!(dl.settle(DualEvent::Nothing, "de"), DualEvent::Nothing);
    assert_eq!(
        dl.settle(DualEvent::MovedIn("a".into()), "dev"),
        DualEvent::MovedIn("a".into())
    );
    assert_eq!(dl.last_search, "dev");
    let mut plain = DualList::new(10, false);
    assert_eq!(plain.settle(DualEvent::Nothing, "x"), DualEvent::Nothing);
}

#[test]
fn buttons_send_the_move_commands() {
    assert_eq!(
        command_input(Command::custom(CMD_DUAL_IN)),
        DualInput::MoveIn
    );
    assert_eq!(
        command_input(Command::custom(CMD_DUAL_OUT)),
        DualInput::MoveOut
    );
    assert_eq!(command_input(Command::OK), DualInput::Other);
}

#[test]
fn the_columns_stand_side_by_side() {
    let area = Rect {
        ax: 0,
        ay: 0,
        bx: 60,
        by: 20,
    };
    let l = dual_layout(area, true, false);
    assert_eq!(
        l.avail_list,
        Rect {
            ax: 2,
            ay: 4,
            bx: 27,
            by: 16
        }
    );
    assert_eq!(
        l.selected_list,
        Rect {
            ax: 32,
            ay: 4,
            bx: 57,
            by: 16
        }
    );
    assert_eq!(l.list_page, 12);
    let m = dual_layout(area, false, true);
    assert_eq!(m.avail_list, l.selected_list);
    assert_eq!(m.selected_list, l.avail_list);
    assert_eq!(m.search, None);
}

// --- membership -----------------------------------------------------------------

fn fanout_binding() -> PickerBinding {
    PickerBinding {
        attr: "memberOf".into(),
        scope: CandidateScope {
            base: "ou=groups,dc=example,dc=org".into(),
            object_classes: strings(&["groupOfNames"]),
            search_attrs: strings(&["cn"]),
            label_attrs: None,
        },
        store: StoreKey::Dn,
        select: Some(Cardinality::Multi),
        fanout_attr: Some("member".into()),
    }
}

fn cand(dn: &str) -> Candidate {
    Candidate {
        dn: dn.into(),
        label: dn.into(),
        store_value: dn.into(),
    }
}

fn summarised() {
    assert_eq!(present(&vec![]), "\u{2039}none\u{203a}");
    assert_eq!(present(&strings(&[G1])), G1);
    assert_eq!(
        present(&strings(&[G1, G2])),
        "\u{2039}2 members\u{203a}"
    );
}

#[test]
fn membership_present_summarises_member_count() {
    summarised();
}

#[test]
fn multi_picker_present_summarises_member_count() {
    summarised();
}

#[test]
fn membership_fanout_picker_activates_modal() {
    let widget = Some(WidgetKind::Picker(Rc::new(fanout_binding())));
    assert!(membership_binding(&widget).is_some());
    let mut plain = fanout_binding();
    plain.fanout_attr = None;
    assert!(membership_binding(&Some(WidgetKind::Picker(Rc::new(plain)))).is_none());
    assert!(membership_binding(&None).is_none());
}

fn mover() -> DualList {
    list(
        candidate_rows(&vec![cand(G1), cand(G2)]),
        seed_rows(&strings(&[G1])),
    )
}

/// Presses a key with a row of either side highlighted.
fn press(dl: &mut DualList, code: KeyCode, avail: usize, sel: usize) -> DualEvent {
    let a = dl.avail_rows();
    let s = dl.selected_rows();
    let ev = dl.perform_move(
        key_input(code),
        a.get(avail).map(|t| t.as_str()),
        s.get(sel).map(|t| t.as_str()),
    );
    let search = dl.last_search.clone();
    dl.settle(ev, &search)
}

#[test]
fn membership_move_in_and_out_updates_staged() {
    let mut dl = mover();
    assert_eq!(dl.selected_keys(), vec![G1.to_string()]);

    let ev = press(&mut dl, KeyCode::Right, 1, 0);
    assert!(matches!(membership_step(ev), MembershipStep::Stage));
    let mut got = dl.selected_keys();
    got.sort();
    assert_eq!(got, vec![G1.to_string(), G2.to_string()]);

    let ev = press(&mut dl, KeyCode::Delete, 1, 0);
    assert!(matches!(membership_step(ev), MembershipStep::Stage));
    assert_eq!(dl.selected_keys(), vec![G2.to_string()]);
}

#[test]
fn membership_move_in_is_deduped() {
    let mut dl = mover();
    press(&mut dl, KeyCode::Insert, 0, 0);
    assert_eq!(
        dl.selected_keys(),
        vec![G1.to_string()],
        "moving an existing member must not duplicate it"
    );
}

#[test]
fn enter_does_not_move_a_row() {
    let mut dl = mover();
    press(&mut dl, KeyCode::Enter, 1, 0);
    assert_eq!(
        dl.selected_keys(),
        vec![G1.to_string()],
        "Enter must not move a candidate — it is reserved for the default OK button"
    );
}

#[test]
fn space_does_not_move_a_row() {
    let mut dl = mover();
    let ev = press(&mut dl, KeyCode::Char(' '), 1, 0);
    assert!(matches!(membership_step(ev), MembershipStep::Done));
    assert_eq!(
        dl.selected_keys(),
        vec![G1.to_string()],
        "Space must not move a candidate — it belongs to the search box"
    );
}

#[test]
fn candidates_are_searched_where_the_binding_says() {
    let mut b = fanout_binding();
    b.scope.search_attrs = strings(&["CN", "mail"]);
    b.store = StoreKey::Attr("gidNumber".into());
    let s = search_scope(&b);
    assert_eq!(s.base, "ou=groups,dc=example,dc=org");
    assert_eq!(s.oc, "groupOfNames");
    assert_eq!(s.attrs, vec!["cn", "uid", "mail", "gidNumber"]);
    assert_eq!(s.store_attr.as_deref(), Some("gidNumber"));
    assert!(matches!(
        membership_step(DualEvent::SearchChanged("x".into())),
        MembershipStep::Search(t) if t == "x"
    ));
}

// --- the picker of several --------------------------------------------------------

fn members(values: &[&str]) -> Vec<ShuttleRow> {
    edaptor::multi_picker::seed_rows(&strings(values))
}

fn labels(rows: &[ShuttleRow]) -> Vec<&str> {
    rows.iter().map(|r| r.label.as_str()).collect()
}

#[test]
fn multi_picker_fanout_picker_activates_modal() {
    let widget = Some(WidgetKind::Picker(Rc::new(fanout_binding())));
    assert!(multi_binding(&widget, true).is_some());
    let mut plain = fanout_binding();
    plain.fanout_attr = None;
    plain.select = None;
    let widget = Some(WidgetKind::Picker(Rc::new(plain)));
    assert!(multi_binding(&widget, true).is_some());
    assert!(multi_binding(&widget, false).is_none());
}

#[test]
fn multi_picker_move_in_and_out_updates_staged() {
    let results = vec![cand(G1), cand(G2)];
    let (mut chosen, mut offer) = sync_results(&members(&[G1]), &results);
    assert_eq!(staged_values(&chosen), vec![G1.to_string()]);

    // the lists move the highlighted row over, then the results are taken in again
    chosen.push(offer.remove(0));
    assert_eq!(
        shuttle_step(ShuttleNotice::Moved),
        ShuttleStep::SyncAndStage
    );
    let (mut chosen, offer) = sync_results(&chosen, &results);
    assert!(offer.is_empty());
    let mut got = staged_values(&chosen);
    got.sort();
    assert_eq!(got, vec![G1.to_string(), G2.to_string()]);

    chosen.remove(0);
    let (chosen, offer) = sync_results(&chosen, &results);
    assert_eq!(staged_values(&chosen), vec![G2.to_string()]);
    assert_eq!(labels(&offer), [G1]);
}

#[test]
fn seeded_member_adopts_friendly_label_from_matching_candidate() {
    let results = vec![Candidate {
        dn: G1.into(),
        label: "devs (developers)".into(),
        store_value: G1.into(),
    }];
    let (chosen, _) = sync_results(&members(&[G1]), &results);
    let shown = labels(&chosen);
    assert!(
        shown.iter().any(|s| s.contains("devs (developers)")),
        "the seeded member must adopt the candidate's friendly label, got {shown:?}"
    );
    assert!(
        !shown.iter().any(|s| s.contains(G1)),
        "the raw DN must no longer be shown once a label is known, got {shown:?}"
    );
}

#[test]
fn already_member_is_filtered_from_available() {
    let offer = offered_rows(&vec![cand(G1), cand(G2)], &members(&[G1]));
    let avail = labels(&offer);
    assert!(
        !avail.iter().any(|s| s.eq_ignore_ascii_case(G1)),
        "the existing member g1 must not appear in Available, got {avail:?}"
    );
    assert!(
        avail.iter().any(|s| s.eq_ignore_ascii_case(G2)),
        "the non-member g2 must appear in Available, got {avail:?}"
    );
}

#[test]
fn members_are_told_by_their_lower_case() {
    let results = vec![cand("CN=ÄRZTE,dc=x"), cand("cn=b,dc=x")];
    let offer = offered_rows(&results, &members(&["cn=ärzte,dc=x"]));
    assert_eq!(labels(&offer), ["cn=b,dc=x"]);
}

#[test]
fn nonfanout_scalar_picker_seeds_moves_and_stages_uid() {
    let binding = PickerBinding {
        attr: "memberUid".into(),
        scope: CandidateScope {
            base: "ou=people,dc=example,dc=org".into(),
            object_classes: strings(&["inetOrgPerson"]),
            search_attrs: strings(&["uid"]),
            label_attrs: None,
        },
        store: StoreKey::Attr("uid".into()),
        select: Some(Cardinality::Multi),
        fanout_attr: None,
    };
    assert!(multi_binding(&Some(WidgetKind::Picker(Rc::new(binding))), true).is_some());
    let results = vec![Candidate {
        dn: "uid=ann,ou=people,dc=example,dc=org".into(),
        label: "Ann Smith".into(),
        store_value: "ann".into(),
    }];
    let (mut chosen, mut offer) = sync_results(&members(&[]), &results);
    assert_eq!(labels(&offer), ["Ann Smith"]);
    chosen.push(offer.remove(0));
    assert_eq!(
        staged_values(&chosen),
        vec!["ann".to_string()],
        "moving the scalar candidate in must stage its uid, not its DN"
    );
}

#[test]
fn only_the_candidates_search_text_starts_a_search() {
    assert_eq!(
        shuttle_step(ShuttleNotice::AvailableFind),
        ShuttleStep::Search
    );
    assert_eq!(shuttle_step(ShuttleNotice::MembersFind), ShuttleStep::Done);
    assert_eq!(shuttle_step(ShuttleNotice::Refresh), ShuttleStep::Sync);
    assert_eq!(shuttle_step(ShuttleNotice::Other), ShuttleStep::Done);
}
