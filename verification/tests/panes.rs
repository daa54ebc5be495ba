use edaptor::attrs::AttrMap;
use edaptor::config_picker::{picker_key, PickStep};
use edaptor::edit_form::{FormField, FormModel};
use edaptor::form_pane::{
    collect_edit_entry, dialog_rows, entered_values, entry_to_edit, field_display,
    field_is_editable, loop_step, preview_body, Binding, FormPane, LeafHandles, LoopCommand,
    LoopStep, PaneEvent, PaneStep,
};
use edaptor::form_state::{guard_decision, GuardChoice, GuardOutcome};
use edaptor::keys::{KeyCode, KeyPress};
use edaptor::layout::{
    clamp_dividers, clamp_scroll, initial_dividers, pane_at, pane_rects, PaneRect, Split,
    SplitEvent,
};
use edaptor::structure::{branch_outline, find_node, StructureNode};
use edaptor::widgets::{FieldKind, WidgetSpec};

fn strings(v: &[&str]) -> Vec<String> {
    v.iter().map(|s| s.to_string()).collect()
}

fn rect(ax: i16, ay: i16, bx: i16, by: i16) -> PaneRect {
    PaneRect { ax, ay, bx, by }
}

#[test]
fn dividers_clamp_and_panes_tile() {
    let (d0, d1) = clamp_dividers(0, 60, -100, 1000);
    assert!(d0 >= 8 && d1 > d0 && d1 <= 52);
    let panes = pane_rects(rect(0, 0, 60, 10), d0, d1);
    assert_eq!(panes.0.ax, 0);
    assert_eq!(panes.1.ax, d0 + 1);
    assert_eq!(panes.2.bx, 60);
    assert!(panes.0.bx <= panes.1.ax);
    assert!(panes.1.bx <= panes.2.ax);
}

#[test]
fn every_pane_keeps_its_least_width() {
    for (a, b) in [(-100, 1000), (1000, -100), (30, 30), (1000, 1000)] {
        let (d0, d1) = clamp_dividers(0, 26, a, b);
        assert_eq!((d0, d1), (8, 17));
        let (p, q, r) = pane_rects(rect(0, 0, 26, 1), d0, d1);
        assert_eq!(
            (p.bx - p.ax, q.bx - q.ax, r.bx - r.ax),
            (8, 8, 8)
        );
        assert_eq!(clamp_dividers(0, 26, d0, d1), (d0, d1));
    }
}

#[test]
fn narrow_panes_give_way_on_the_left() {
    assert_eq!(clamp_dividers(0, 20, 10, 15), (3, 12));
    assert_eq!(clamp_dividers(0, 20, 3, 12), (3, 12));
    assert_eq!(clamp_dividers(0, 25, -100, 1000), (8, 17));
    assert_eq!(clamp_dividers(0, 10, 0, 0), (-7, 2));
}

#[test]
fn dividers_are_dragged_with_the_mouse() {
    assert_eq!(initial_dividers(rect(0, 0, 60, 10)), (20, 40));
    let mut s = Split::new(rect(0, 0, 60, 10));
    assert_eq!((s.d0, s.d1), (20, 40));
    assert!(!s.handle_mouse(SplitEvent::Move { x: 30 }));
    assert!(!s.handle_mouse(SplitEvent::Down { x: 20, y: 10 }));
    assert!(s.handle_mouse(SplitEvent::Down { x: 20, y: 3 }));
    assert!(s.handle_mouse(SplitEvent::Move { x: 25 }));
    assert_eq!((s.d0, s.d1), (25, 40));
    assert!(s.handle_mouse(SplitEvent::Move { x: 59 }));
    assert_eq!((s.d0, s.d1), (42, 51));
    assert!(s.handle_mouse(SplitEvent::Up));
    assert!(!s.handle_mouse(SplitEvent::Up));
    assert_eq!(s.dragging, None);
}

#[test]
fn a_cell_belongs_to_one_pane() {
    let panes = pane_rects(rect(0, 0, 60, 10), 20, 40);
    assert_eq!(pane_at(&panes, 0, 0), Some(0));
    assert_eq!(pane_at(&panes, 19, 9), Some(0));
    assert_eq!(pane_at(&panes, 20, 5), None);
    assert_eq!(pane_at(&panes, 21, 5), Some(1));
    assert_eq!(pane_at(&panes, 59, 9), Some(2));
    assert_eq!(pane_at(&panes, 59, 10), None);
}

#[test]
fn scroll_clamps_to_content() {
    assert_eq!(clamp_scroll(-5, 20, 10), 0);
    assert_eq!(clamp_scroll(100, 20, 10), 10);
    assert_eq!(clamp_scroll(3, 20, 10), 3);
    assert_eq!(clamp_scroll(5, 8, 10), 0);
}

#[test]
fn field_display_renders_read_only_values() {
    assert_eq!(
        field_display(&WidgetSpec::DisabledCheckBox(true), &vec![]),
        "[x]"
    );
    assert_eq!(
        field_display(&WidgetSpec::DisabledCheckBox(false), &vec![]),
        "[ ]"
    );
    assert_eq!(
        field_display(&WidgetSpec::BinaryNote(12), &vec![]),
        "<12 bytes>"
    );
    assert_eq!(
        field_display(
            &WidgetSpec::ReadOnlyText,
            &vec!["a".to_string(), "b".to_string()]
        ),
        "a, b"
    );
}

#[test]
fn clean_form_always_proceeds() {
    assert_eq!(guard_decision(false, None), GuardOutcome::Proceed);
    assert_eq!(
        guard_decision(false, Some(GuardChoice::Stay)),
        GuardOutcome::Proceed
    );
}

#[test]
fn dirty_routes_by_choice() {
    assert_eq!(
        guard_decision(true, Some(GuardChoice::Save)),
        GuardOutcome::SaveThenProceed
    );
    assert_eq!(
        guard_decision(true, Some(GuardChoice::Discard)),
        GuardOutcome::Proceed
    );
    assert_eq!(
        guard_decision(true, Some(GuardChoice::Stay)),
        GuardOutcome::Cancel
    );
    assert_eq!(guard_decision(true, None), GuardOutcome::Cancel);
}

// --- the tree -------------------------------------------------------------------

fn node(dn: &str, branch: bool, children: &[usize]) -> StructureNode {
    StructureNode {
        dn: dn.into(),
        label: dn.split(',').next().unwrap().into(),
        branch,
        children: children.to_vec(),
    }
}

#[test]
fn tree_items_contain_only_branches() {
    let nodes = vec![
        node("dc=example,dc=org", true, &[1]),
        node("ou=users,dc=example,dc=org", true, &[2]),
        node("uid=jane,ou=users,dc=example,dc=org", false, &[]),
    ];
    let rows = branch_outline(&nodes, "dc=example,dc=org");
    let shown: Vec<(usize, &str)> = rows.iter().map(|r| (r.depth, r.label.as_str())).collect();
    assert_eq!(shown, vec![(0, "dc=example"), (1, "ou=users")]);
    assert_eq!(find_node(&rows, "OU=users,dc=example,dc=ORG"), Some(1));
    assert_eq!(find_node(&rows, "uid=jane,ou=users,dc=example,dc=org"), None);
}

#[test]
fn an_unknown_root_stands_alone() {
    let rows = branch_outline(&vec![], " dc=example ,dc=org");
    assert_eq!(rows.len(), 1);
    assert_eq!(rows[0].dn, " dc=example ,dc=org");
    assert_eq!(rows[0].label, "dc=example");
}

// --- the form pane --------------------------------------------------------------

fn field(label: &str, must: bool, values: &[&str]) -> FormField {
    FormField {
        label: label.into(),
        is_must: must,
        values: strings(values),
        kind: FieldKind::Text,
        widget: WidgetSpec::ReadOnlyText,
        single_valued: false,
        secret: false,
        ordered: false,
    }
}

fn ann() -> FormModel {
    let mut photo = field("jpegPhoto", false, &[]);
    photo.widget = WidgetSpec::BinaryNote(7);
    FormModel {
        title: "uid=ann,dc=x".into(),
        fields: vec![
            field("uid", true, &["ann"]),
            field("mail", false, &["a@x", "b@x"]),
            field("memberOf", false, &["cn=g"]),
            photo,
        ],
    }
}

#[test]
fn a_pane_edits_what_can_be_edited() {
    let mut p = FormPane::new(false, 3);
    assert!(p.take_edit().is_none());
    p.set_model(&ann());
    assert_eq!(p.rows[0].label, "uid *");
    assert_eq!(p.rows[1].binding, Some(1));
    assert_eq!(p.rows[2].binding, None);
    assert_eq!(p.rows[2].display, "cn=g");
    assert_eq!(p.rows[3].display, "<7 bytes>");
    assert_eq!(p.content_h, 7);
    assert!(!p.is_dirty());
    p.bindings[1].text = "a@x\n\n c@x ".into();
    assert!(p.is_dirty());
    let h = p.publish();
    assert!(h.dirty);
    assert_eq!(h.dn, "uid=ann,dc=x");
    let e = p.take_edit().unwrap();
    assert_eq!(e.attrs.get("mail"), Some(&strings(&["a@x", "c@x"])));
    assert_eq!(e.attrs.get("memberOf"), Some(&strings(&["cn=g"])));
    p.revert();
    assert!(!p.is_dirty());
    p.clear();
    assert!(p.take_edit().is_none());

    let mut ro = FormPane::new(true, 3);
    ro.set_model(&ann());
    assert!(ro.bindings.is_empty());
    assert_eq!(ro.content_h, 4);
    assert_eq!(ro.rows[1].display, "a@x, b@x");
}

#[test]
fn reordered_lines_are_no_edit() {
    let mut p = FormPane::new(false, 3);
    p.set_model(&ann());
    p.bindings[1].text = "b@x\na@x".into();
    assert!(!p.is_dirty());
    assert!(!p.publish().dirty);
    p.bindings[1].text = "b@x\nb@x".into();
    assert!(p.is_dirty());
    p.bindings[1].text = "a@x".into();
    assert!(p.is_dirty());
}

#[test]
fn a_pane_scrolls_within_its_content() {
    let mut p = FormPane::new(false, 3);
    p.set_model(&ann());
    assert_eq!(p.scroll_target(PaneEvent::WheelDown), Some(1));
    assert_eq!(p.scroll_target(PaneEvent::PageUp), Some(-3));
    assert_eq!(p.apply_scroll(100), 4);
    assert_eq!(p.scroll, 4);
    assert_eq!(p.apply_scroll(-3), -4);
    assert_eq!(p.pane_step(PaneEvent::SaveKey), PaneStep::Save);
    assert_eq!(p.pane_step(PaneEvent::Refresh), PaneStep::Reload);
    let ro = FormPane::new(true, 3);
    assert_eq!(ro.pane_step(PaneEvent::SaveKey), PaneStep::Fields);
    assert_eq!(ro.pane_step(PaneEvent::CancelKey), PaneStep::Fields);
}

#[test]
fn lines_are_values() {
    assert_eq!(entered_values(" a \n\n\tb"), vec!["a", "b"]);
    assert!(entered_values(" \n ").is_empty());
    assert_eq!(entered_values("\u{3000}a\u{a0}\n\u{200b}"), vec!["a", "\u{200b}"]);
    let model = ann();
    let base = entry_to_edit("dn", &model);
    assert_eq!(base.attrs.get("mail"), Some(&strings(&["a@x", "b@x"])));
    let cleared = collect_edit_entry(
        "dn",
        &model,
        &vec![Binding {
            label: "mail".into(),
            text: " ".into(),
        }],
    );
    assert_eq!(cleared.attrs.get("mail"), Some(&vec![]));
    assert!(!field_is_editable(&field("MEMBEROF", false, &[])));
    assert!(field_is_editable(&field("sn", false, &[])));
}

#[test]
fn the_list_publishes_its_highlighted_entry() {
    let mut h = LeafHandles {
        rows: vec![
            ("a".to_string(), "cn=a".to_string()),
            ("b".to_string(), "cn=b".to_string()),
        ],
        search: String::new(),
        selected: None,
    };
    assert_eq!(h.labels(), vec!["a", "b"]);
    h.publish_selection(Some(1));
    assert_eq!(h.selected.as_deref(), Some("cn=b"));
    h.publish_selection(Some(2));
    assert_eq!(h.selected, None);
}

#[test]
fn dialogs_grow_with_their_rows() {
    assert_eq!(dialog_rows(1, 8), (8, 1));
    assert_eq!(dialog_rows(10, 8), (15, 10));
    assert_eq!(dialog_rows(100, 8), (24, 20));
    assert_eq!(preview_body(" \n"), "(no changes)");
    assert_eq!(preview_body("dn: x"), "dn: x");
    assert!(matches!(
        loop_step(LoopCommand::Activate, None),
        LoopStep::Nothing
    ));
    assert!(matches!(
        loop_step(LoopCommand::Activate, Some(("d".into(), true))),
        LoopStep::Activate { loaded: true, .. }
    ));
}

#[test]
fn the_picker_of_configurations_wraps_around() {
    let key = |code| KeyPress { code, modifiers: 0 };
    assert_eq!(picker_key(0, 3, key(KeyCode::Up)), PickStep::Highlight(2));
    assert_eq!(picker_key(2, 3, key(KeyCode::Down)), PickStep::Highlight(0));
    assert_eq!(picker_key(1, 3, key(KeyCode::Enter)), PickStep::Chosen(1));
    assert_eq!(picker_key(1, 3, key(KeyCode::Esc)), PickStep::Quit);
    assert_eq!(picker_key(1, 3, key(KeyCode::Char('q'))), PickStep::Quit);
    assert_eq!(
        picker_key(1, 3, key(KeyCode::Char('x'))),
        PickStep::Highlight(1)
    );
}

#[test]
fn attributes_are_kept_by_name() {
    let mut m = AttrMap::new();
    m.insert("sn".into(), strings(&["s"]));
    m.insert("cn".into(), strings(&["c"]));
    assert_eq!(m.entry(0).name, "cn");
    assert_eq!(m.get_ci("SN"), Some(&strings(&["s"])));
    assert_eq!(m.get("SN"), None);
    m.insert("sn".into(), strings(&["t"]));
    assert_eq!((m.len(), m.get("sn")), (2, Some(&strings(&["t"]))));
    m.remove_ci("CN");
    assert!(!m.contains_key("cn"));
    m.remove("sn");
    assert!(m.is_empty());
}
