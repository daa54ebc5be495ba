use std::rc::Rc;

use edaptor::app::action::{
    execute_pending, fill_allocated, finish_guard_save, handle_action, next_rows, number_wanted,
    reconcile, refresh_structure, show_planned_save, ActionStep, PendingStep, PlannedSave,
    RefreshAnswer,
};
use edaptor::app::create::{build_new_entry_form, open_create_form, NewEntryBindings};
use edaptor::app::input::{
    choose_profile_key, dispatch_key, guard_key, next_index, next_pane, overlay_key, prev_pane,
    OverlayStep,
};
use edaptor::app::password_editor::{open_password_editor, password_editor_key};
use edaptor::app::picker::{
    commit_choice, open_value_editor, picker_editor_key, service_picker_search, value_editor_key,
    EditorStep, PICKER_INIT_QUERY,
};
use edaptor::app::response::{
    handle_worker_response, set_rows, ReadOutcome, Response, ResponseStep,
};
use edaptor::app::{
    guard_if_dirty, navigate_to, perform_guard_intent, revert_form, should_install_form, App,
    GuardIntent, Overlay, Pane, PendingAction, UiAction,
};
use edaptor::attrs::AttrMap;
use edaptor::changes::{ModOp, ModRdn, SavePlan, ValidationError, WriteIds};
use edaptor::edit_form::{EditField, EditForm, FormField, FormMode, FormModel};
use edaptor::keys::{KeyCode, KeyPress, ALT, CONTROL};
use edaptor::profiles::EntryProfile;
use edaptor::text_input::TextInput;
use edaptor::tree::selected_node;
use edaptor::value_editor::{
    dedupe_ci, membership_candidate_label, FoundEntry, ValueEditor,
};
use edaptor::widgets::{
    Candidate, CandidateScope, Cardinality, ChoiceOption, ChoiceWidget, FieldKind, PasswordWidget,
    PickerBinding, PickerState, ResolvedWidget, StoreKey, WidgetKind, WidgetSpec,
};
use edaptor::writes::{PostWrite, Request, Writes};
use ratatui::buffer::Buffer;
use ratatui::layout::Rect;
use ratatui::widgets::StatefulWidget;
use tui_tree_widget::{Tree, TreeItem, TreeState};

fn strings(v: &[&str]) -> Vec<String> {
    v.iter().map(|s| s.to_string()).collect()
}

fn key(code: KeyCode) -> KeyPress {
    KeyPress { code, modifiers: 0 }
}

fn alt(code: KeyCode) -> KeyPress {
    KeyPress {
        code,
        modifiers: ALT,
    }
}

fn none() -> Vec<String> {
    Vec::new()
}

fn bare_app(read_only: bool) -> App {
    App {
        focus: Pane::Tree,
        should_quit: false,
        read_only,
        connection_encrypted: false,
        tree_state: TreeState::default(),
        current_branch: String::new(),
        last_search: String::new(),
        rows: vec![],
        leaf_sel: 0,
        search: TextInput::new(),
        last_seen_leaf: None,
        form: None,
        form_focus: 0,
        form_scroll: 0,
        overlay: None,
        status: String::new(),
        widgets: vec![],
        picker_search_id: None,
        picker_last_query: String::new(),
    }
}

fn field(label: &str, value: &str) -> EditField {
    EditField {
        label: label.to_string(),
        must: true,
        editable: true,
        multi: false,
        secret: false,
        ordered: false,
        values: vec![value.to_string()],
        kind: FieldKind::Text,
        widget: WidgetSpec::ReadOnlyText,
        editor: TextInput::with_value(value.to_string()),
        widget_binding: None,
        orphaned: false,
    }
}

fn form_of(dn: &str, fields: Vec<EditField>) -> EditForm {
    EditForm {
        dn: dn.to_string(),
        fields,
        baseline: AttrMap::new(),
        mode: FormMode::Edit,
        pending_password: None,
    }
}

fn with_form(mut app: App, dn: &str) -> App {
    app.form = Some(form_of(dn, vec![field("cn", "x")]));
    app
}

fn user_profile() -> EntryProfile {
    EntryProfile {
        name: "User".into(),
        object_classes: strings(&["testUser"]),
        rdn_attr: "uid".into(),
        search_base: "ou=people,dc=example,dc=org".into(),
        password: None,
    }
}

fn empty_user() -> FormModel {
    let attr = |label: &str, must: bool, single: bool| FormField {
        label: label.into(),
        is_must: must,
        values: vec![],
        kind: FieldKind::Text,
        widget: WidgetSpec::ReadOnlyText,
        single_valued: single,
        secret: false,
        ordered: false,
    };
    FormModel {
        title: String::new(),
        fields: vec![
            attr("uid", true, true),
            attr("description", false, false),
            attr("objectClass", true, false),
        ],
    }
}

fn unbound() -> NewEntryBindings {
    NewEntryBindings {
        kinds: vec![],
        numbers: vec![],
    }
}

fn new_entry_form() -> EditForm {
    build_new_entry_form(
        &empty_user(),
        &user_profile(),
        &vec![],
        &unbound(),
        0,
        "ou=people,dc=example,dc=org".to_string(),
    )
}

#[test]
fn focus_cycles_tree_leaf_form() {
    assert_eq!(next_pane(Pane::Tree), Pane::Leaf);
    assert_eq!(next_pane(Pane::Leaf), Pane::Form);
    assert_eq!(next_pane(Pane::Form), Pane::Tree);
}

#[test]
fn alt_r_refreshes_even_in_read_only() {
    for read_only in [true, false] {
        assert!(matches!(
            dispatch_key(&mut bare_app(read_only), alt(KeyCode::Char('r')), &none()),
            Some(UiAction::Refresh)
        ));
    }
}

#[test]
fn alt_n_opens_the_profile_chooser_when_writable_only() {
    assert!(matches!(
        dispatch_key(&mut bare_app(false), alt(KeyCode::Char('n')), &none()),
        Some(UiAction::NewEntryChoose)
    ));
    assert!(dispatch_key(&mut bare_app(true), alt(KeyCode::Char('n')), &none()).is_none());
}

#[test]
fn choose_profile_key_navigates_and_resolves_to_open_create() {
    let mut app = bare_app(false);
    app.overlay = Some(Overlay::ChooseProfile {
        entries: vec![(0, "User".into()), (2, "Group".into())],
        sel: 0,
    });
    assert!(choose_profile_key(&mut app, key(KeyCode::Down)).is_none());
    match &app.overlay {
        Some(Overlay::ChooseProfile { sel, .. }) => assert_eq!(*sel, 1),
        _ => panic!("chooser still open"),
    }
    match choose_profile_key(&mut app, key(KeyCode::Enter)) {
        Some(PendingAction::OpenCreate { profile_idx }) => assert_eq!(profile_idx, 2),
        _ => panic!("expected OpenCreate"),
    }
    assert!(app.overlay.is_none());
}

#[test]
fn choose_profile_key_esc_dismisses() {
    let mut app = bare_app(false);
    app.overlay = Some(Overlay::ChooseProfile {
        entries: vec![(0, "User".into())],
        sel: 0,
    });
    assert!(choose_profile_key(&mut app, key(KeyCode::Esc)).is_none());
    assert!(app.overlay.is_none());
}

#[test]
fn alt_d_deletes_the_form_entry_when_writable() {
    let mut app = with_form(bare_app(false), "cn=Alice,dc=example,dc=org");
    match dispatch_key(&mut app, alt(KeyCode::Char('d')), &none()) {
        Some(UiAction::DeleteEntry(dn)) => assert_eq!(dn, "cn=Alice,dc=example,dc=org"),
        other => panic!("expected a deletion, got {other:?}"),
    }
    assert!(dispatch_key(&mut bare_app(false), alt(KeyCode::Char('d')), &none()).is_none());
    let mut ro = with_form(bare_app(true), "cn=Alice,dc=example,dc=org");
    assert!(dispatch_key(&mut ro, alt(KeyCode::Char('d')), &none()).is_none());
}

#[test]
fn focus_cycles_both_directions() {
    assert_eq!(prev_pane(Pane::Tree), Pane::Form);
    assert_eq!(prev_pane(Pane::Form), Pane::Leaf);
    assert_eq!(prev_pane(Pane::Leaf), Pane::Tree);
    let mut app = bare_app(false); // no form, no guard
    dispatch_key(&mut app, key(KeyCode::Tab), &none());
    assert_eq!(app.focus, Pane::Leaf);
    dispatch_key(&mut app, key(KeyCode::BackTab), &none());
    assert_eq!(app.focus, Pane::Tree);
    dispatch_key(&mut app, key(KeyCode::BackTab), &none());
    assert_eq!(app.focus, Pane::Form);
}

#[test]
fn tab_off_a_dirty_form_opens_the_focus_guard() {
    let mut app = with_form(bare_app(false), "cn=Alice,dc=example,dc=org");
    app.focus = Pane::Form;
    dispatch_key(&mut app, key(KeyCode::Tab), &none());
    assert_eq!(app.focus, Pane::Form);
    assert!(matches!(
        app.overlay,
        Some(Overlay::Guard {
            intent: GuardIntent::Focus(Pane::Tree)
        })
    ));
}

#[test]
fn quit_while_dirty_opens_the_guard_else_quits() {
    let mut clean = bare_app(false);
    dispatch_key(&mut clean, alt(KeyCode::Char('x')), &none());
    assert!(clean.should_quit);
    let mut dirty = with_form(bare_app(false), "cn=Alice,dc=example,dc=org");
    dispatch_key(&mut dirty, alt(KeyCode::Char('x')), &none());
    assert!(!dirty.should_quit);
    assert!(matches!(
        dirty.overlay,
        Some(Overlay::Guard {
            intent: GuardIntent::Quit
        })
    ));
}

#[test]
fn control_c_and_q_in_the_tree_quit_too() {
    let ctrl = KeyPress {
        code: KeyCode::Char('C'),
        modifiers: CONTROL,
    };
    let mut app = bare_app(true);
    dispatch_key(&mut app, ctrl, &none());
    assert!(app.should_quit);
    let mut tree = bare_app(false);
    dispatch_key(&mut tree, key(KeyCode::Char('q')), &none());
    assert!(tree.should_quit);
    let mut leaf = bare_app(false);
    leaf.focus = Pane::Leaf;
    dispatch_key(&mut leaf, key(KeyCode::Char('q')), &none());
    assert!(!leaf.should_quit);
    assert_eq!(leaf.search.value(), "q");
}

#[test]
fn guard_key_maps_choices_to_intents() {
    let nav_guard = || Overlay::Guard {
        intent: GuardIntent::Nav(Some("cn=next".to_string())),
    };
    let mut app = bare_app(false);
    app.overlay = Some(nav_guard());
    assert!(guard_key(&mut app, key(KeyCode::Char('c'))).is_none());
    assert_eq!(app.last_seen_leaf.as_deref(), Some("cn=next"));
    assert!(app.overlay.is_none());

    let mut app = bare_app(false);
    app.overlay = Some(nav_guard());
    assert!(matches!(
        guard_key(&mut app, key(KeyCode::Char('d'))),
        Some(PendingAction::ResolveGuard {
            intent: GuardIntent::Nav(Some(t)),
            save: false,
        }) if t == "cn=next"
    ));

    let mut app = bare_app(false);
    app.overlay = Some(nav_guard());
    assert!(matches!(
        guard_key(&mut app, key(KeyCode::Char('s'))),
        Some(PendingAction::ResolveGuard { save: true, .. })
    ));

    let mut app = bare_app(false);
    app.overlay = Some(nav_guard());
    assert!(guard_key(&mut app, key(KeyCode::Enter)).is_none());
    assert!(app.overlay.is_some(), "unrelated keys leave the guard open");
}

#[test]
fn next_index_clamps_at_end() {
    assert_eq!(next_index(0, 3), 1);
    assert_eq!(next_index(2, 3), 2);
    assert_eq!(next_index(0, 0), 0);
}

#[test]
fn list_keys_move_the_highlight_and_other_keys_search() {
    let mut app = bare_app(false);
    app.focus = Pane::Leaf;
    app.rows = (0..25).map(|i| (format!("l{i}"), format!("dn{i}"))).collect();
    dispatch_key(&mut app, key(KeyCode::Down), &none());
    assert_eq!(app.leaf_sel, 1);
    dispatch_key(&mut app, key(KeyCode::PageDown), &none());
    assert_eq!(app.leaf_sel, 11);
    dispatch_key(&mut app, key(KeyCode::PageDown), &none());
    dispatch_key(&mut app, key(KeyCode::PageDown), &none());
    assert_eq!(app.leaf_sel, 24);
    dispatch_key(&mut app, key(KeyCode::PageUp), &none());
    assert_eq!(app.leaf_sel, 14);
    dispatch_key(&mut app, key(KeyCode::Up), &none());
    assert_eq!(app.leaf_sel, 13);
    for c in "añb".chars() {
        dispatch_key(&mut app, key(KeyCode::Char(c)), &none());
    }
    assert_eq!(app.search.value(), "añb");
    dispatch_key(&mut app, key(KeyCode::Backspace), &none());
    dispatch_key(&mut app, key(KeyCode::Home), &none());
    dispatch_key(&mut app, key(KeyCode::Delete), &none());
    assert_eq!(app.search.value(), "ñ");
}

#[test]
fn choice_field_ignores_inline_key_input() {
    let mut choice = field("loginShell", "/bin/bash");
    choice.widget_binding = Some(WidgetKind::Choice(Rc::new(shells("sh"))));
    let mut app = bare_app(false);
    app.focus = Pane::Form;
    app.form = Some(form_of(
        "cn=Alice,dc=example,dc=org",
        vec![choice, field("sn", "Smith")],
    ));
    app.form_focus = 0;
    dispatch_key(&mut app, key(KeyCode::Char('x')), &none());
    assert_eq!(
        app.form.as_ref().unwrap().fields[0].editor.value(),
        "/bin/bash",
        "choice field must NOT accept inline key input"
    );
    app.form_focus = 1;
    dispatch_key(&mut app, key(KeyCode::Char('!')), &none());
    assert_ne!(
        app.form.as_ref().unwrap().fields[1].editor.value(),
        "Smith",
        "plain editable field MUST accept inline key input"
    );
}

fn app_with_next_number_field() -> App {
    let mut f = field("uidNumber", "");
    f.values = vec![];
    f.widget_binding = Some(WidgetKind::NextNumber {
        min: 10000,
        max: 60000,
    });
    let mut app = bare_app(false);
    app.focus = Pane::Form;
    let mut form = form_of("uid=new,ou=people,dc=example,dc=org", vec![f]);
    form.mode = FormMode::Create {
        profile_idx: 0,
        container: "ou=people,dc=example,dc=org".into(),
    };
    app.form = Some(form);
    app.form_focus = 0;
    app
}

#[test]
fn enter_on_empty_next_number_field_requests_allocation() {
    let mut app = app_with_next_number_field();
    assert!(
        matches!(
            dispatch_key(&mut app, key(KeyCode::Enter), &none()),
            Some(UiAction::AllocateNextNumber { field_idx: 0 })
        ),
        "Enter on an empty next-number field requests allocation"
    );
}

#[test]
fn enter_on_filled_next_number_field_does_not_reallocate() {
    let mut app = app_with_next_number_field();
    if let Some(f) = app.form.as_mut().and_then(|fm| fm.fields.get_mut(0)) {
        f.editor = TextInput::with_value("10001".to_string());
    }
    assert!(
        dispatch_key(&mut app, key(KeyCode::Enter), &none()).is_none(),
        "a filled next-number field does not re-allocate on Enter"
    );
}

#[test]
fn typing_overrides_a_next_number_field_inline() {
    let mut app = app_with_next_number_field();
    dispatch_key(&mut app, key(KeyCode::Char('7')), &none());
    assert_eq!(
        app.form.as_ref().unwrap().fields[0].editor.value(),
        "7",
        "typing edits the next-number field inline (manual override)"
    );
}

#[test]
fn esc_cancels_a_create_form_but_is_a_noop_on_an_edit_form() {
    let mut app = bare_app(false);
    app.focus = Pane::Form;
    app.form = Some(new_entry_form());
    assert!(matches!(
        dispatch_key(&mut app, key(KeyCode::Esc), &none()),
        Some(UiAction::FormCancel)
    ));
    let mut app2 = with_form(bare_app(false), "cn=Alice,dc=example,dc=org");
    app2.focus = Pane::Form;
    assert!(dispatch_key(&mut app2, key(KeyCode::Esc), &none()).is_none());
}

#[test]
fn tree_keys_close_open_and_climb() {
    let mut app = bare_app(false);
    app.tree_state = edaptor::tree::tree_at_root("dc=x");
    assert_eq!(selected_node(&app.tree_state).as_deref(), Some("dc=x"));
    dispatch_key(&mut app, key(KeyCode::Left), &none()); // open: closes
    assert!(app.tree_state.opened().is_empty());
    assert_eq!(selected_node(&app.tree_state).as_deref(), Some("dc=x"));
    dispatch_key(&mut app, key(KeyCode::Right), &none());
    assert_eq!(app.tree_state.opened().len(), 1);
    dispatch_key(&mut app, key(KeyCode::Char(' ')), &none());
    assert!(app.tree_state.opened().is_empty());
    dispatch_key(&mut app, key(KeyCode::Left), &none()); // closed: climbs
    assert_eq!(selected_node(&app.tree_state), None);
    dispatch_key(&mut app, key(KeyCode::Right), &none());
    assert!(app.tree_state.opened().is_empty());
    dispatch_key(&mut app, key(KeyCode::Down), &none()); // nothing was drawn
    assert_eq!(selected_node(&app.tree_state), None);
}

#[test]
fn tree_keys_move_among_the_rows_drawn() {
    let items = vec![TreeItem::new(
        "dc=x".to_string(),
        "x",
        vec![
            TreeItem::new_leaf("ou=p".to_string(), "p"),
            TreeItem::new_leaf("ou=q".to_string(), "q"),
        ],
    )
    .unwrap()];
    let mut app = bare_app(false);
    app.tree_state = edaptor::tree::tree_at_root("dc=x");
    let area = Rect::new(0, 0, 20, 5);
    let tree = Tree::new(&items).unwrap();
    tree.render(area, &mut Buffer::empty(area), &mut app.tree_state);
    dispatch_key(&mut app, key(KeyCode::Down), &none());
    assert_eq!(selected_node(&app.tree_state).as_deref(), Some("ou=p"));
    dispatch_key(&mut app, key(KeyCode::Char('j')), &none());
    assert_eq!(selected_node(&app.tree_state).as_deref(), Some("ou=q"));
    dispatch_key(&mut app, key(KeyCode::Down), &none());
    assert_eq!(selected_node(&app.tree_state).as_deref(), Some("ou=q"));
    dispatch_key(&mut app, key(KeyCode::Up), &none());
    assert_eq!(selected_node(&app.tree_state).as_deref(), Some("ou=p"));
    dispatch_key(&mut app, key(KeyCode::Left), &none());
    assert_eq!(selected_node(&app.tree_state).as_deref(), Some("dc=x"));
}

#[test]
fn confirmations_run_on_yes_and_messages_go_on_any_key() {
    let confirm = || Overlay::Confirm {
        title: "t".into(),
        body: "b".into(),
        action: PendingAction::Delete { dn: "cn=x".into() },
    };
    let mut app = bare_app(false);
    app.overlay = Some(confirm());
    assert!(matches!(
        overlay_key(&mut app, key(KeyCode::Char('x')), &vec![]),
        OverlayStep::Done
    ));
    assert!(app.overlay.is_some());
    assert!(matches!(
        overlay_key(&mut app, key(KeyCode::Char('Y')), &vec![]),
        OverlayStep::Run(PendingAction::Delete { .. })
    ));
    assert!(app.overlay.is_none());
    app.overlay = Some(confirm());
    assert!(matches!(
        overlay_key(&mut app, key(KeyCode::Esc), &vec![]),
        OverlayStep::Done
    ));
    assert!(app.overlay.is_none());
    app.overlay = Some(Overlay::Error { text: "x".into() });
    overlay_key(&mut app, key(KeyCode::Other), &vec![]);
    assert!(app.overlay.is_none());
}

// --- the popup over a field ---------------------------------------------------

fn app_with_value_editor(rows: usize) -> App {
    let ve = ValueEditor {
        field: 0,
        label: "mail".into(),
        ordered: false,
        secret: false,
        rows: (0..rows)
            .map(|i| TextInput::with_value(format!("v{i}")))
            .collect(),
        sel: 0,
        scroll: 0,
        picker: None,
        search: TextInput::new(),
        binding: None,
        choice: None,
        choice_original: String::new(),
        objectclass: false,
    };
    let mut app = bare_app(false);
    app.focus = Pane::Form;
    app.overlay = Some(Overlay::ValueEditor(ve));
    app
}

fn popup(app: &App) -> &ValueEditor {
    match &app.overlay {
        Some(Overlay::ValueEditor(ve)) => ve,
        _ => panic!("popup should still be open"),
    }
}

fn popup_mut(app: &mut App) -> &mut ValueEditor {
    match app.overlay.as_mut() {
        Some(Overlay::ValueEditor(ve)) => ve,
        _ => panic!("popup should still be open"),
    }
}

#[test]
fn value_editor_delete_all_then_navigate_does_not_panic() {
    let mut app = app_with_value_editor(1);
    value_editor_key(&mut app, alt(KeyCode::Char('d')), &vec![]);
    value_editor_key(&mut app, key(KeyCode::Down), &vec![]);
    value_editor_key(&mut app, alt(KeyCode::Up), &vec![]);
    value_editor_key(&mut app, alt(KeyCode::Down), &vec![]);
    value_editor_key(&mut app, alt(KeyCode::Char('a')), &vec![]);
    let ve = popup(&app);
    assert_eq!(ve.rows.len(), 1);
    assert!(ve.sel < ve.rows.len());
}

#[test]
fn value_editor_reorder_after_delete_is_bounded() {
    let mut app = app_with_value_editor(3);
    value_editor_key(&mut app, key(KeyCode::Down), &vec![]);
    value_editor_key(&mut app, key(KeyCode::Down), &vec![]);
    value_editor_key(&mut app, alt(KeyCode::Char('d')), &vec![]);
    value_editor_key(&mut app, alt(KeyCode::Down), &vec![]);
    value_editor_key(&mut app, alt(KeyCode::Up), &vec![]);
    let ve = popup(&app);
    assert!(ve.sel < ve.rows.len());
}

#[test]
fn rows_are_moved_added_typed_and_committed() {
    let mut app = app_with_value_editor(2);
    let mut mail = field("mail", "");
    mail.multi = true;
    app.form = Some(form_of("cn=x", vec![mail]));
    let texts = |app: &App| -> Vec<String> {
        popup(app).rows.iter().map(|r| r.value().to_string()).collect()
    };
    value_editor_key(&mut app, alt(KeyCode::Down), &vec![]);
    assert_eq!(texts(&app), vec!["v1", "v0"]);
    assert_eq!(popup(&app).sel, 1);
    value_editor_key(&mut app, alt(KeyCode::Up), &vec![]);
    assert_eq!(texts(&app), vec!["v0", "v1"]);
    value_editor_key(&mut app, key(KeyCode::Insert), &vec![]);
    value_editor_key(&mut app, key(KeyCode::Char('n')), &vec![]);
    assert_eq!(texts(&app), vec!["v0", "n", "v1"]);
    value_editor_key(&mut app, alt(KeyCode::Char('S')), &vec![]);
    assert!(app.overlay.is_none());
    assert_eq!(
        app.form.as_ref().unwrap().fields[0].values,
        vec!["v0", "n", "v1"]
    );
}

fn member_dn_binding(select: Option<Cardinality>) -> PickerBinding {
    PickerBinding {
        attr: "member".into(),
        scope: CandidateScope {
            base: "ou=people".into(),
            object_classes: strings(&["inetOrgPerson"]),
            search_attrs: strings(&["uid"]),
            label_attrs: None,
        },
        store: StoreKey::Dn,
        select,
        fanout_attr: None,
    }
}

fn test_app_with_form_field_member() -> App {
    let mut f = field("member", "");
    f.multi = true;
    f.values = vec![];
    f.widget_binding = Some(WidgetKind::Picker(Rc::new(member_dn_binding(Some(
        Cardinality::Multi,
    )))));
    let mut app = bare_app(false);
    app.form = Some(form_of("cn=g1,ou=groups", vec![f]));
    app
}

fn make_picker_ve(idx: usize, select: Option<Cardinality>) -> ValueEditor {
    ValueEditor {
        field: idx,
        label: "member".into(),
        ordered: false,
        secret: false,
        rows: vec![],
        sel: 0,
        scroll: 0,
        picker: Some(PickerState {
            selected: vec![],
            results: vec![],
            cursor: 0,
            search_active: false,
            truncated: false,
            key_ci: true,
        }),
        search: TextInput::new(),
        binding: Some(Rc::new(member_dn_binding(select))),
        choice: None,
        choice_original: String::new(),
        objectclass: false,
    }
}

fn candidate(dn: &str, label: &str, store: &str) -> Candidate {
    Candidate {
        dn: dn.into(),
        label: label.into(),
        store_value: store.into(),
    }
}

#[test]
fn picker_enter_toggles_and_alt_s_commits_dns() {
    let mut app = test_app_with_form_field_member();
    app.overlay = Some(Overlay::ValueEditor(make_picker_ve(
        0,
        Some(Cardinality::Multi),
    )));
    let visible = vec![candidate("uid=a,ou=people", "a", "uid=a,ou=people")];
    value_editor_key(&mut app, key(KeyCode::Enter), &visible);
    value_editor_key(&mut app, alt(KeyCode::Char('s')), &visible);
    let f = &app.form.as_ref().unwrap().fields[0];
    assert_eq!(f.values, vec!["uid=a,ou=people".to_string()]);
    assert!(app.overlay.is_none());
}

#[test]
fn open_value_editor_arms_initial_search() {
    let mut app = test_app_with_form_field_member();
    app.form_focus = 0;
    open_value_editor(&mut app, &none());
    assert!(
        matches!(&app.overlay, Some(Overlay::ValueEditor(ve)) if ve.picker.is_some()),
        "membership picker installed"
    );
    assert_eq!(app.picker_last_query, "\u{0}");
}

#[test]
fn membership_candidate_label_template_blank_and_fallback() {
    let dn = "uid=bob,ou=people,dc=test";
    assert_eq!(
        membership_candidate_label(Some("Bob Baker (bob)"), "Bob Baker"),
        "Bob Baker (bob)"
    );
    assert_eq!(membership_candidate_label(Some(" \t"), "bobby"), "bobby");
    assert_eq!(membership_candidate_label(None, "bobby"), "bobby");
    assert_eq!(membership_candidate_label(None, dn), dn);
}

fn gid_picker_binding(select: Option<Cardinality>) -> PickerBinding {
    PickerBinding {
        attr: "gidNumber".into(),
        scope: CandidateScope {
            base: "ou=groups,dc=test".into(),
            object_classes: strings(&["posixGroup"]),
            search_attrs: strings(&["cn"]),
            label_attrs: None,
        },
        store: StoreKey::Attr("gidNumber".into()),
        select,
        fanout_attr: None,
    }
}

fn app_with_lookup_field(select: Option<Cardinality>) -> App {
    let mut f = field("gidNumber", "");
    f.values = vec![];
    f.widget_binding = Some(WidgetKind::Picker(Rc::new(gid_picker_binding(select))));
    let mut app = bare_app(false);
    app.form = Some(form_of("uid=alice,ou=people,dc=test", vec![f]));
    app.form_focus = 0;
    app
}

#[test]
fn open_value_editor_opens_picker_on_single_value_lookup_field() {
    let mut app = app_with_lookup_field(Some(Cardinality::Single));
    open_value_editor(&mut app, &none());
    let ve = popup(&app);
    let binding = ve.binding.as_deref().expect("binding installed");
    assert!(
        matches!(binding.select, Some(Cardinality::Single)),
        "single-select binding"
    );
    assert!(ve.picker.is_some(), "picker state present");
    assert_eq!(binding.scope.base, "ou=groups,dc=test");
    assert!(ve.picker.as_ref().unwrap().selected.is_empty());
}

fn staff(store: &str) -> Vec<Candidate> {
    vec![candidate("cn=staff,ou=groups,dc=test", "staff", store)]
}

#[test]
fn lookup_alt_s_commits_scalar_to_field_editor() {
    let mut app = app_with_lookup_field(Some(Cardinality::Single));
    open_value_editor(&mut app, &none());
    picker_editor_key(&mut app, alt(KeyCode::Char('s')), &staff("5001"));
    assert!(app.overlay.is_none(), "overlay closes on commit");
    let f = &app.form.as_ref().unwrap().fields[0];
    assert_eq!(f.editor.value(), "5001");
    assert_eq!(f.current_values(), vec!["5001".to_string()]);
}

#[test]
fn single_select_enter_then_alt_s_also_commits() {
    let mut app = app_with_lookup_field(Some(Cardinality::Single));
    open_value_editor(&mut app, &none());
    let visible = staff("5001");
    picker_editor_key(&mut app, key(KeyCode::Enter), &visible);
    let p = popup(&app).picker.as_ref().unwrap();
    assert_eq!(p.selected.len(), 1, "Enter radio-selects exactly one row");
    assert_eq!(p.selected[0].store_value, "5001");
    picker_editor_key(&mut app, alt(KeyCode::Char('s')), &visible);
    assert!(app.overlay.is_none(), "overlay closes on commit");
    let f = &app.form.as_ref().unwrap().fields[0];
    assert_eq!(f.editor.value(), "5001");
    assert_eq!(f.current_values(), vec!["5001".to_string()]);
}

#[test]
fn lookup_enter_radio_selects_then_alt_s_commits() {
    let mut app = app_with_lookup_field(Some(Cardinality::Single));
    open_value_editor(&mut app, &none());
    let visible = vec![
        candidate("cn=staff,ou=groups,dc=test", "staff", "5000"),
        candidate("cn=dev,ou=groups,dc=test", "dev", "5001"),
    ];
    picker_editor_key(&mut app, key(KeyCode::Enter), &visible);
    let p = popup(&app).picker.as_ref().unwrap();
    assert_eq!(p.selected.len(), 1, "single-select holds exactly one");
    assert_eq!(p.selected[0].store_value, "5000");
    picker_editor_key(&mut app, alt(KeyCode::Char('s')), &visible);
    assert!(app.overlay.is_none());
    assert_eq!(app.form.as_ref().unwrap().fields[0].editor.value(), "5000");
}

#[test]
fn lookup_alt_s_with_no_value_leaves_field_unchanged() {
    let mut app = app_with_lookup_field(Some(Cardinality::Single));
    open_value_editor(&mut app, &none());
    picker_editor_key(&mut app, alt(KeyCode::Char('s')), &staff(""));
    assert!(app.overlay.is_none());
    let f = &app.form.as_ref().unwrap().fields[0];
    assert_eq!(f.editor.value(), "");
    assert!(f.values.is_empty(), "empty value commits nothing");
}

#[test]
fn a_pick_without_a_value_keeps_what_the_field_held() {
    let mut app = app_with_lookup_field(Some(Cardinality::Single));
    {
        let f = &mut app.form.as_mut().unwrap().fields[0];
        f.editor = TextInput::with_value("4000".into());
        f.values = strings(&["4000"]);
    }
    open_value_editor(&mut app, &none());
    popup_mut(&mut app).picker.as_mut().unwrap().selected.clear();
    picker_editor_key(&mut app, alt(KeyCode::Char('s')), &staff(""));
    assert!(app.overlay.is_none());
    let f = &app.form.as_ref().unwrap().fields[0];
    assert_eq!(f.editor.value(), "4000");
    assert_eq!(f.values, vec!["4000"]);

    open_value_editor(&mut app, &none());
    popup_mut(&mut app).picker.as_mut().unwrap().selected.clear();
    picker_editor_key(&mut app, alt(KeyCode::Char('s')), &vec![]);
    assert!(app.overlay.is_none());
    assert_eq!(app.form.as_ref().unwrap().fields[0].values, vec!["4000"]);
}

#[test]
fn select_auto_derives_cardinality_from_field_arity() {
    {
        let mut app = test_app_with_form_field_member(); // many values
        app.overlay = Some(Overlay::ValueEditor(make_picker_ve(0, None)));
        let visible = vec![candidate("uid=a,ou=people", "a", "uid=a,ou=people")];
        picker_editor_key(&mut app, key(KeyCode::Enter), &visible);
        assert_eq!(
            popup(&app).picker.as_ref().unwrap().selected.len(),
            1,
            "multi/auto: first Enter toggles candidate in"
        );
        picker_editor_key(&mut app, key(KeyCode::Enter), &visible);
        assert!(
            popup(&app).picker.as_ref().unwrap().selected.is_empty(),
            "multi/auto: second Enter toggles candidate back out"
        );
    }
    {
        let mut app = app_with_lookup_field(None); // one value
        open_value_editor(&mut app, &none());
        let visible = vec![
            candidate("cn=row0,ou=groups,dc=test", "row0", "1000"),
            candidate("cn=row1,ou=groups,dc=test", "row1", "2000"),
        ];
        picker_editor_key(&mut app, key(KeyCode::Enter), &visible);
        let p = popup(&app).picker.as_ref().unwrap();
        assert_eq!(
            p.selected.len(),
            1,
            "single/auto: Enter radio-selects one row"
        );
        assert_eq!(p.selected[0].store_value, "1000");
        popup_mut(&mut app).picker.as_mut().unwrap().cursor = 1;
        picker_editor_key(&mut app, key(KeyCode::Enter), &visible);
        let p = popup(&app).picker.as_ref().unwrap();
        assert_eq!(
            p.selected.len(),
            1,
            "single/auto: second Enter replaces, not appends"
        );
        assert_eq!(
            p.selected[0].store_value, "2000",
            "single/auto: second Enter selects the new row"
        );
    }
}

#[test]
fn lookup_bare_space_types_into_search_and_alt_space_is_ignored() {
    let mut app = app_with_lookup_field(Some(Cardinality::Single));
    open_value_editor(&mut app, &none());
    let visible = vec![candidate(
        "cn=staff group,ou=groups,dc=test",
        "staff group",
        "5001",
    )];
    picker_editor_key(&mut app, key(KeyCode::Char(' ')), &visible);
    assert_eq!(
        popup(&app).search.value(),
        " ",
        "bare Space is typed into the search box"
    );
    assert!(
        popup(&app).picker.as_ref().unwrap().selected.is_empty(),
        "bare Space must not toggle a selection in lookup mode"
    );
    picker_editor_key(&mut app, alt(KeyCode::Char(' ')), &visible);
    assert!(
        popup(&app).picker.as_ref().unwrap().selected.is_empty(),
        "Alt+Space must not toggle a selection in lookup mode"
    );
    assert_eq!(popup(&app).search.value(), " ");
    let f = &app.form.as_ref().unwrap().fields[0];
    assert_eq!(
        f.editor.value(),
        "",
        "Alt+Space must not write a DN into a scalar field"
    );
    assert!(
        f.values.is_empty(),
        "Alt+Space must not populate values with a DN"
    );
}

#[test]
fn alt_space_toggles_where_several_can_be_chosen() {
    let mut app = test_app_with_form_field_member();
    app.overlay = Some(Overlay::ValueEditor(make_picker_ve(0, None)));
    let visible = vec![candidate("uid=a,ou=people", "a", "uid=a,ou=people")];
    picker_editor_key(&mut app, alt(KeyCode::Char(' ')), &visible);
    assert_eq!(popup(&app).picker.as_ref().unwrap().selected.len(), 1);
    picker_editor_key(&mut app, alt(KeyCode::Char(' ')), &visible);
    assert!(popup(&app).picker.as_ref().unwrap().selected.is_empty());
    picker_editor_key(&mut app, key(KeyCode::Char(' ')), &visible);
    assert_eq!(popup(&app).search.value(), " ");
}

fn shells(second_label: &str) -> ChoiceWidget {
    ChoiceWidget {
        select: Cardinality::Single,
        options: vec![
            ChoiceOption {
                value: "/bin/bash".into(),
                label: "Bash".into(),
            },
            ChoiceOption {
                value: "/bin/sh".into(),
                label: second_label.into(),
            },
        ],
    }
}

fn app_with_choice_field(attr: &str, value: &str, widget: ChoiceWidget) -> App {
    let mut f = field(attr, value);
    f.widget_binding = Some(WidgetKind::Choice(Rc::new(widget)));
    let mut app = bare_app(false);
    app.form = Some(form_of("uid=alice,ou=people,dc=test", vec![f]));
    app.focus = Pane::Form;
    app.form_focus = 0;
    app
}

fn options(app: &App) -> Vec<Candidate> {
    popup(app)
        .picker
        .as_ref()
        .unwrap()
        .results
        .iter()
        .map(|c| c.copy())
        .collect()
}

#[test]
fn choice_commit_writes_assembled_string_to_editor() {
    let widget = ChoiceWidget {
        select: Cardinality::Multi,
        options: vec![ChoiceOption {
            value: "D".into(),
            label: "Disabled".into(),
        }],
    };
    let mut app = app_with_choice_field("sambaAcctFlags", "[U          ]", widget);
    open_value_editor(&mut app, &none());
    assert_eq!(popup(&app).choice_original, "[U          ]");
    let visible = options(&app);
    value_editor_key(&mut app, key(KeyCode::Enter), &visible); // toggle D in
    match value_editor_key(&mut app, alt(KeyCode::Char('s')), &visible) {
        EditorStep::CommitChoice { checked } => assert_eq!(checked, vec!["D"]),
        _ => panic!("a choice assembles its value first"),
    }
    commit_choice(&mut app, "[DU         ]");
    assert!(app.overlay.is_none(), "overlay closes on commit");
    let f = &app.form.as_ref().unwrap().fields[0];
    assert_eq!(f.editor.value(), "[DU         ]");
    assert_eq!(f.current_values(), vec!["[DU         ]".to_string()]);
}

#[test]
fn choice_single_select_radio_replaces_and_commits_to_editor() {
    let mut app = app_with_choice_field("loginShell", "/bin/bash", shells("POSIX sh"));
    open_value_editor(&mut app, &strings(&["/bin/bash"]));
    assert_eq!(
        popup(&app).picker.as_ref().unwrap().selected[0].label,
        "Bash"
    );
    let visible = options(&app);
    assert!(matches!(
        value_editor_key(&mut app, key(KeyCode::Down), &visible),
        EditorStep::MoveDown
    ));
    popup_mut(&mut app).picker.as_mut().unwrap().cursor = 1;
    value_editor_key(&mut app, key(KeyCode::Enter), &visible);
    value_editor_key(&mut app, key(KeyCode::Char('z')), &visible);
    assert_eq!(popup(&app).search.value(), "", "a choice has no search box");
    match value_editor_key(&mut app, alt(KeyCode::Char('s')), &visible) {
        EditorStep::CommitChoice { checked } => {
            assert_eq!(checked, vec!["/bin/sh"]);
            commit_choice(&mut app, &checked[0]);
        }
        _ => panic!("a choice assembles its value first"),
    }
    let f = &app.form.as_ref().unwrap().fields[0];
    assert_eq!(f.editor.value(), "/bin/sh");
    assert_eq!(f.current_values(), vec!["/bin/sh".to_string()]);
}

#[test]
fn dedupe_ci_drops_empties_and_case_dups() {
    let mut attrs = vec![
        "gidNumber".to_string(),
        "cn".to_string(),
        "CN".to_string(),
        String::new(),
        "gidnumber".to_string(),
    ];
    dedupe_ci(&mut attrs);
    assert_eq!(attrs, vec!["gidNumber".to_string(), "cn".to_string()]);
}

#[test]
fn an_opened_picker_searches_once_per_term() {
    let mut app = app_with_lookup_field(Some(Cardinality::Single));
    open_value_editor(&mut app, &none());
    assert_eq!(app.picker_last_query, PICKER_INIT_QUERY);
    let mut ids = WriteIds::new();
    let first = service_picker_search(&mut app, &mut ids).expect("searches on opening");
    assert_eq!(first.id, 1_000_000);
    assert_eq!(first.base, "ou=groups,dc=test");
    assert_eq!(first.query, "");
    assert_eq!(first.attrs, vec!["cn", "gidNumber"]);
    assert_eq!(app.picker_search_id, Some(1_000_000));
    assert!(service_picker_search(&mut app, &mut ids).is_none());
    picker_editor_key(&mut app, key(KeyCode::Char('d')), &vec![]);
    let second = service_picker_search(&mut app, &mut ids).expect("searches for a new term");
    assert_eq!((second.id, second.query.as_str()), (1_000_001, "d"));
    picker_editor_key(&mut app, key(KeyCode::Esc), &vec![]);
    assert!(app.overlay.is_none());
    assert_eq!(app.picker_search_id, None);
    assert!(service_picker_search(&mut app, &mut ids).is_none());
}

#[test]
fn search_results_fill_the_list_and_relabel_what_is_chosen() {
    let mut app = app_with_lookup_field(Some(Cardinality::Single));
    app.form.as_mut().unwrap().fields[0].values = strings(&["5001"]);
    open_value_editor(&mut app, &none());
    app.picker_search_id = Some(7);
    let mut ids = WriteIds::new();
    let mut writes = Writes::new();
    let found = |id: u64| Response::Entries {
        id,
        found: vec![
            FoundEntry {
                dn: "cn=dev,ou=groups".into(),
                label: "dev".into(),
                value: Some("5001".into()),
            },
            FoundEntry {
                dn: "cn=none,ou=groups".into(),
                label: "none".into(),
                value: None,
            },
        ],
        cap: 2,
    };
    assert!(matches!(
        handle_worker_response(&mut app, found(6), &mut ids, &mut writes),
        ResponseStep::ReadFlow
    ));
    assert!(popup(&app).picker.as_ref().unwrap().results.is_empty());
    assert!(matches!(
        handle_worker_response(&mut app, found(7), &mut ids, &mut writes),
        ResponseStep::Done
    ));
    let p = popup(&app).picker.as_ref().unwrap();
    assert_eq!(p.results.len(), 1);
    assert!(p.truncated);
    assert!(!p.search_active);
    assert_eq!(p.selected[0].label, "dev");
    assert_eq!(p.selected[0].dn, "cn=dev,ou=groups");
    assert_eq!(p.selected[0].store_value, "5001");
}

// --- passwords ----------------------------------------------------------------

fn app_with_password_field(encrypted: bool) -> App {
    let f = EditField {
        label: "userPassword".into(),
        must: false,
        editable: false,
        multi: false,
        secret: true,
        ordered: false,
        values: vec![],
        kind: FieldKind::Text,
        widget: WidgetSpec::ReadOnlyText,
        editor: TextInput::new(),
        widget_binding: Some(WidgetKind::Password(Rc::new(PasswordWidget {
            primary: "userPassword".into(),
            derived: vec![],
            samba: false,
        }))),
        orphaned: false,
    };
    let mut app = bare_app(false);
    app.connection_encrypted = encrypted;
    app.focus = Pane::Form;
    app.form_focus = 0;
    app.form = Some(form_of("uid=alice,ou=people,dc=test", vec![f]));
    app
}

fn type_str(app: &mut App, s: &str) {
    for c in s.chars() {
        password_editor_key(app, key(KeyCode::Char(c)));
    }
}

#[test]
fn open_refuses_when_not_encrypted() {
    let mut app = app_with_password_field(false);
    open_password_editor(&mut app);
    assert!(matches!(app.overlay, Some(Overlay::Error { .. })));
}

#[test]
fn open_then_matching_commit_stages_pending_password() {
    let mut app = app_with_password_field(true);
    open_password_editor(&mut app);
    match &app.overlay {
        Some(Overlay::PasswordEditor(ed)) => assert_eq!(ed.affected, vec!["userPassword"]),
        _ => panic!("popup opens"),
    }
    type_str(&mut app, "hunter2");
    password_editor_key(&mut app, key(KeyCode::Tab));
    type_str(&mut app, "hunter2");
    password_editor_key(&mut app, alt(KeyCode::Char('s')));
    assert!(app.overlay.is_none());
    assert_eq!(
        app.form.as_ref().unwrap().pending_password.as_deref(),
        Some("hunter2")
    );
}

#[test]
fn mismatch_does_not_commit() {
    let mut app = app_with_password_field(true);
    open_password_editor(&mut app);
    type_str(&mut app, "aaa");
    password_editor_key(&mut app, key(KeyCode::Tab));
    type_str(&mut app, "bbb");
    password_editor_key(&mut app, alt(KeyCode::Char('s')));
    match &app.overlay {
        Some(Overlay::PasswordEditor(ed)) => assert_eq!(ed.message, "passwords do not match"),
        _ => panic!("stays open on mismatch"),
    }
    assert!(app.form.as_ref().unwrap().pending_password.is_none());
}

#[test]
fn empty_new_password_cancels() {
    let mut app = app_with_password_field(true);
    open_password_editor(&mut app);
    password_editor_key(&mut app, alt(KeyCode::Char('s')));
    assert!(app.overlay.is_none(), "empty new == cancel, closes popup");
    assert!(app.form.as_ref().unwrap().pending_password.is_none());
}

// --- forms in place of each other ----------------------------------------------

fn new_form_is_create_mode_and_single_value() {
    let form = new_entry_form();
    assert!(form.is_new());
    match &form.mode {
        FormMode::Create {
            profile_idx,
            container,
        } => {
            assert_eq!(*profile_idx, 0);
            assert_eq!(container, "ou=people,dc=example,dc=org");
        }
        _ => panic!("expected Create mode"),
    }
    assert!(form.fields.iter().all(|f| !(f.editable && f.multi)));
}

#[test]
fn create_build_new_entry_form_is_create_mode_and_single_value() {
    new_form_is_create_mode_and_single_value();
    let form = new_entry_form();
    let classes = form
        .fields
        .iter()
        .find(|f| f.label == "objectClass")
        .unwrap();
    assert!(matches!(
        classes.widget_binding,
        Some(WidgetKind::ObjectClassPicker)
    ));
}

#[test]
fn mod_build_new_entry_form_is_create_mode_and_single_value() {
    new_form_is_create_mode_and_single_value();
}

fn late_read_is_blocked_over_a_create_form() {
    let mut app = bare_app(false);
    app.last_seen_leaf = Some("uid=bob,ou=people,dc=example,dc=org".to_string());
    app.form = Some(new_entry_form());
    assert!(!should_install_form(
        &app,
        "uid=bob,ou=people,dc=example,dc=org"
    ));
}

#[test]
fn action_should_install_blocks_a_late_read_over_a_create_form() {
    late_read_is_blocked_over_a_create_form();
}

#[test]
fn mod_should_install_blocks_a_late_read_over_a_create_form() {
    late_read_is_blocked_over_a_create_form();
}

fn matching_edit_form_is_installed_without_overlay() {
    let mut app = with_form(bare_app(false), "cn=Alice,dc=example,dc=org");
    app.last_seen_leaf = Some("cn=Alice,dc=example,dc=org".to_string());
    assert!(should_install_form(&app, "cn=Alice,dc=example,dc=org"));
    app.overlay = Some(Overlay::Error {
        text: "x".to_string(),
    });
    assert!(!should_install_form(&app, "cn=Alice,dc=example,dc=org"));
}

#[test]
fn action_should_install_allows_matching_edit_form_without_overlay() {
    matching_edit_form_is_installed_without_overlay();
}

#[test]
fn mod_should_install_allows_matching_edit_form_without_overlay() {
    matching_edit_form_is_installed_without_overlay();
}

fn create_form_is_discarded_on_revert() {
    let mut app = bare_app(false);
    app.form = Some(new_entry_form());
    revert_form(&mut app);
    assert!(app.form.is_none(), "create form discarded on cancel");
}

#[test]
fn action_revert_discards_an_unsaved_create_form() {
    create_form_is_discarded_on_revert();
}

#[test]
fn mod_revert_discards_an_unsaved_create_form() {
    create_form_is_discarded_on_revert();
}

#[test]
fn reverting_restores_the_baseline_and_drops_the_password() {
    let mut app = with_form(bare_app(false), "cn=x");
    {
        let form = app.form.as_mut().unwrap();
        form.baseline.insert("cn".into(), strings(&["old"]));
        form.pending_password = Some("p".into());
    }
    assert!(guard_if_dirty(&mut app, GuardIntent::Quit));
    app.overlay = None;
    revert_form(&mut app);
    let form = app.form.as_ref().unwrap();
    assert_eq!(form.fields[0].editor.value(), "old");
    assert_eq!(form.fields[0].values, vec!["old"]);
    assert!(!form.is_dirty());
    assert_eq!(app.status, "Reverted.");
    assert!(!guard_if_dirty(&mut app, GuardIntent::Quit));
}

#[test]
fn guard_intents_navigate_focus_and_quit() {
    let mut app = bare_app(false);
    app.form = Some(new_entry_form());
    assert_eq!(
        navigate_to(&mut app, Some("cn=a".into())).as_deref(),
        Some("cn=a")
    );
    assert!(app.form.is_none());
    assert_eq!(app.last_seen_leaf.as_deref(), Some("cn=a"));

    let mut app = with_form(bare_app(false), "cn=x");
    assert!(perform_guard_intent(&mut app, GuardIntent::Focus(Pane::Leaf)).is_none());
    assert_eq!(app.focus, Pane::Leaf);
    assert!(!app.form.as_ref().unwrap().is_dirty());
    assert!(perform_guard_intent(&mut app, GuardIntent::Nav(None)).is_none());
    assert!(app.form.is_none());
    perform_guard_intent(&mut app, GuardIntent::Quit);
    assert!(app.should_quit);
}

#[test]
fn reconcile_follows_branch_search_and_highlight() {
    let mut app = bare_app(false);
    app.current_branch = "dc=x".into();
    app.tree_state = edaptor::tree::tree_at_root("ou=p,dc=x");
    let (branch, search) = next_rows(&app, true).expect("another branch is selected");
    assert_eq!((branch.as_str(), search.as_str()), ("ou=p,dc=x", ""));
    assert!(next_rows(&app, false).is_none());
    let rows = vec![
        ("a".to_string(), "cn=a".to_string()),
        ("b".to_string(), "cn=b".to_string()),
    ];
    let read = reconcile(&mut app, true, rows);
    assert_eq!(read.as_deref(), Some("cn=a"));
    assert_eq!(app.current_branch, "ou=p,dc=x");
    assert_eq!(app.last_seen_leaf.as_deref(), Some("cn=a"));
    assert!(next_rows(&app, true).is_none());
    assert!(reconcile(&mut app, true, vec![]).is_none());
    assert_eq!(app.rows.len(), 2);

    app.leaf_sel = 1;
    app.search = TextInput::with_value("a".into());
    let read = reconcile(&mut app, true, vec![("a".to_string(), "cn=a".to_string())]);
    assert_eq!(app.leaf_sel, 0);
    assert_eq!(app.last_search, "a");
    assert!(read.is_none(), "the highlighted entry is the one shown");

    let mut dirty = with_form(bare_app(false), "cn=x");
    dirty.last_seen_leaf = Some("cn=x".into());
    dirty.rows = vec![("a".to_string(), "cn=a".to_string())];
    assert!(reconcile(&mut dirty, false, vec![]).is_none());
    assert!(matches!(
        dirty.overlay,
        Some(Overlay::Guard {
            intent: GuardIntent::Nav(Some(_))
        })
    ));
    assert!(dirty.form.is_some());
}

#[test]
fn refreshing_falls_back_to_the_base() {
    let mut app = bare_app(false);
    app.current_branch = "ou=gone".into();
    app.leaf_sel = 4;
    refresh_structure(
        &mut app,
        "dc=x",
        RefreshAnswer::Loaded {
            branch_known: false,
            rows: vec![],
        },
    );
    assert_eq!(app.current_branch, "dc=x");
    assert_eq!((app.leaf_sel, app.status.as_str()), (0, "Refreshed."));
    refresh_structure(&mut app, "dc=x", RefreshAnswer::Refused("no".into()));
    assert!(matches!(&app.overlay, Some(Overlay::Error { text }) if text == "no"));
    refresh_structure(&mut app, "dc=x", RefreshAnswer::Failed);
    assert!(matches!(&app.overlay, Some(Overlay::Error { text }) if text == "refresh failed"));
}

#[test]
fn actions_ask_before_they_write() {
    let profiles = vec![user_profile(), user_profile()];
    let mut app = bare_app(false);
    assert!(matches!(
        handle_action(&mut app, UiAction::FormSave, &vec![], &profiles),
        ActionStep::Done
    ));
    app.form = Some(new_entry_form());
    assert!(matches!(
        handle_action(&mut app, UiAction::FormSave, &vec![], &profiles),
        ActionStep::PrepareCreate
    ));
    let mut app = with_form(bare_app(false), "cn=x");
    assert!(matches!(
        handle_action(&mut app, UiAction::FormSave, &vec![], &profiles),
        ActionStep::PlanSave
    ));
    assert!(matches!(
        handle_action(
            &mut app,
            UiAction::DeleteEntry("cn=x".into()),
            &vec![],
            &profiles
        ),
        ActionStep::Done
    ));
    assert!(matches!(
        &app.overlay,
        Some(Overlay::Confirm { body, action: PendingAction::Delete { .. }, .. }) if body == "cn=x"
    ));
    handle_action(&mut app, UiAction::NewEntryChoose, &vec![], &profiles);
    match &app.overlay {
        Some(Overlay::ChooseProfile { entries, sel }) => {
            assert_eq!(
                *entries,
                vec![(0, "User".to_string()), (1, "User".to_string())]
            );
            assert_eq!(*sel, 0);
        }
        _ => panic!("all profiles are offered where none has its home here"),
    }
    assert!(matches!(
        handle_action(&mut app, UiAction::NewEntryChoose, &vec![1], &profiles),
        ActionStep::OpenCreate(1)
    ));
}

#[test]
fn planned_saves_are_shown() {
    let mut app = bare_app(false);
    show_planned_save(
        &mut app,
        None,
        PlannedSave::Invalid(vec![ValidationError::MissingMust("sn".into())]),
    );
    assert!(
        matches!(&app.overlay, Some(Overlay::Error { text }) if text.contains("attribute: sn"))
    );
    show_planned_save(&mut app, None, PlannedSave::NoChanges);
    assert_eq!(app.status, "No changes.");
    show_planned_save(
        &mut app,
        None,
        PlannedSave::Ready {
            plan: SavePlan::Nothing,
            dn: "cn=x".into(),
            ldif: "L".into(),
        },
    );
    assert!(matches!(
        &app.overlay,
        Some(Overlay::Confirm { body, action: PendingAction::Save { nav: None, .. }, .. }) if body == "L"
    ));
}

fn replace(attr: &str, value: &str) -> ModOp {
    ModOp::Replace {
        attr: attr.into(),
        values: vec![value.into()],
    }
}

#[test]
fn a_rename_is_followed_by_its_changes_under_the_new_name() {
    let mut app = with_form(bare_app(false), "cn=old,dc=x");
    app.rows = vec![("old".to_string(), "cn=old,dc=x".to_string())];
    let mut ids = WriteIds::new();
    let mut writes = Writes::new();
    let plan = SavePlan::Rename {
        modrdn: ModRdn {
            new_rdn: "cn=new".into(),
            delete_old: true,
            new_superior: None,
        },
        then_mods: vec![replace("sn", "s")],
    };
    let step = execute_pending(
        &mut app,
        PendingAction::Save {
            plan,
            dn: "cn=old,dc=x".into(),
            nav: None,
        },
        &mut ids,
        &mut writes,
    );
    match step {
        PendingStep::Submit(Some(Request::ModRdn { id, dn, modrdn })) => {
            assert_eq!((id, dn.as_str()), (1_000_000, "cn=old,dc=x"));
            assert_eq!(modrdn.new_rdn, "cn=new");
        }
        _ => panic!("the rename goes out first"),
    }
    assert_eq!(app.status, "Saving…");
    assert!(writes.post.is_empty());
    match handle_worker_response(
        &mut app,
        Response::WriteOk { id: 1_000_000 },
        &mut ids,
        &mut writes,
    ) {
        ResponseStep::FollowUp {
            request: Request::Modify { id, dn, changes },
            read,
        } => {
            assert_eq!((id, dn.as_str()), (1_000_001, "cn=new,dc=x"));
            assert_eq!(changes.len(), 1);
            assert_eq!(read, "cn=new,dc=x");
        }
        _ => panic!("the changes follow"),
    }
    assert!(writes.followups.is_empty());
    assert_eq!(app.rows[0].1, "cn=new,dc=x");
    assert_eq!(app.last_seen_leaf.as_deref(), Some("cn=new,dc=x"));
}

#[test]
fn writes_lead_to_what_was_noted_for_them() {
    let mut ids = WriteIds::new();
    let mut writes = Writes::new();
    let mut app = with_form(bare_app(false), "cn=x,dc=y");
    execute_pending(
        &mut app,
        PendingAction::Delete {
            dn: "cn=x,dc=y".into(),
        },
        &mut ids,
        &mut writes,
    );
    assert!(matches!(
        writes.post.get(&1_000_000),
        Some(PostWrite::Deleted { .. })
    ));
    assert!(matches!(
        handle_worker_response(&mut app, Response::WriteOk { id: 1_000_000 }, &mut ids, &mut writes),
        ResponseStep::Deleted { dn } if dn == "cn=x,dc=y"
    ));
    assert!(app.form.is_none());
    set_rows(&mut app, vec![("l".to_string(), "d".to_string())]);
    assert_eq!(app.rows.len(), 1);

    let mut app = bare_app(false);
    app.form = Some(new_entry_form());
    execute_pending(
        &mut app,
        PendingAction::Create {
            dn: "uid=n,dc=y".into(),
            attrs: AttrMap::new(),
            parent: "dc=y".into(),
        },
        &mut ids,
        &mut writes,
    );
    assert!(matches!(
        handle_worker_response(&mut app, Response::WriteOk { id: 1_000_001 }, &mut ids, &mut writes),
        ResponseStep::Created { dn, parent, .. } if dn == "uid=n,dc=y" && parent == "dc=y"
    ));
    assert!(app.form.is_none());
    assert_eq!(app.status, "Created.");

    let mut app = with_form(bare_app(false), "cn=x,dc=y");
    app.last_seen_leaf = Some("cn=other".into());
    assert!(matches!(
        handle_worker_response(
            &mut app,
            Response::WriteError {
                id: 5,
                msg: "no".into()
            },
            &mut ids,
            &mut writes
        ),
        ResponseStep::Done
    ));
    assert_eq!(app.last_seen_leaf.as_deref(), Some("cn=x,dc=y"));
    assert!(matches!(&app.overlay, Some(Overlay::Error { text }) if text == "no"));
}

#[test]
fn a_guard_told_to_save_defers_its_step() {
    let mut ids = WriteIds::new();
    let mut writes = Writes::new();
    let ready = || PlannedSave::Ready {
        plan: SavePlan::Modify(vec![replace("sn", "s")]),
        dn: "cn=x".into(),
        ldif: "L".into(),
    };
    let mut app = with_form(bare_app(false), "cn=x");
    assert!(matches!(
        execute_pending(
            &mut app,
            PendingAction::ResolveGuard {
                intent: GuardIntent::Quit,
                save: true
            },
            &mut ids,
            &mut writes
        ),
        PendingStep::PlanGuardSave(GuardIntent::Quit)
    ));
    finish_guard_save(
        &mut app,
        GuardIntent::Quit,
        None,
        ready(),
        &mut ids,
        &mut writes,
    );
    assert!(!app.should_quit, "quitting waits for the write");
    handle_worker_response(
        &mut app,
        Response::WriteOk { id: 1_000_000 },
        &mut ids,
        &mut writes,
    );
    assert!(app.should_quit);

    let mut app = with_form(bare_app(false), "cn=x");
    finish_guard_save(
        &mut app,
        GuardIntent::Nav(Some("cn=next".into())),
        None,
        PlannedSave::DiffError("bad".into()),
        &mut ids,
        &mut writes,
    );
    assert_eq!(app.last_seen_leaf, None, "a failed save does not move on");
    assert!(matches!(&app.overlay, Some(Overlay::Error { text }) if text == "bad"));

    let mut app = with_form(bare_app(false), "cn=x");
    finish_guard_save(
        &mut app,
        GuardIntent::Nav(Some("cn=next".into())),
        None,
        ready(),
        &mut ids,
        &mut writes,
    );
    assert_eq!(app.last_seen_leaf.as_deref(), Some("cn=next"));
    assert!(matches!(
        handle_worker_response(&mut app, Response::WriteOk { id: 1_000_001 }, &mut ids, &mut writes),
        ResponseStep::Read(dn) if dn == "cn=next"
    ));
}

#[test]
fn an_awaited_entry_is_shown_and_failures_are_told() {
    let mut ids = WriteIds::new();
    let mut writes = Writes::new();
    let mut app = bare_app(false);
    app.last_seen_leaf = Some("CN=x".into());
    let mut model = empty_user();
    model.title = "cn=X".into();
    handle_worker_response(
        &mut app,
        Response::Read(ReadOutcome::Form(model)),
        &mut ids,
        &mut writes,
    );
    assert_eq!(app.form.as_ref().unwrap().dn, "cn=X");
    handle_worker_response(
        &mut app,
        Response::Read(ReadOutcome::Error("gone".into())),
        &mut ids,
        &mut writes,
    );
    assert!(matches!(&app.overlay, Some(Overlay::Error { text }) if text == "gone"));
    handle_worker_response(
        &mut app,
        Response::Read(ReadOutcome::Error("later".into())),
        &mut ids,
        &mut writes,
    );
    assert_eq!(app.status, "later");
}

#[test]
fn opening_a_new_entry_moves_the_focus_to_its_form() {
    let mut app = bare_app(false);
    open_create_form(&mut app, &vec![user_profile()], 1, "dc=x", &empty_user(), &unbound());
    assert!(app.form.is_none());
    open_create_form(&mut app, &vec![user_profile()], 0, "dc=x", &empty_user(), &unbound());
    assert_eq!(app.focus, Pane::Form);
    assert_eq!(
        app.status,
        "New User — fill fields, Alt+S to create, Esc to cancel."
    );
    let mut homeless = user_profile();
    homeless.search_base = String::new();
    open_create_form(&mut app, &vec![homeless], 0, "dc=x", &empty_user(), &unbound());
    assert!(matches!(
        &app.form.as_ref().unwrap().mode,
        FormMode::Create { container, .. } if container == "dc=x"
    ));
}

fn binding_of<'a>(app: &'a App, label: &str) -> &'a Option<WidgetKind> {
    let fields = &app.form.as_ref().unwrap().fields;
    &fields.iter().find(|f| f.label == label).unwrap().widget_binding
}

#[test]
fn enter_on_a_new_form_finds_the_number_of_a_default() {
    let mut app = bare_app(false);
    let bindings = NewEntryBindings {
        kinds: vec![
            ("DESCRIPTION".to_string(), WidgetKind::Readonly),
            ("description".to_string(), WidgetKind::XOrdered),
            ("objectClass".to_string(), WidgetKind::Readonly),
        ],
        numbers: vec![
            ("UID".to_string(), 1, 9),
            ("uidNumber".to_string(), 10000, 60000),
        ],
    };
    open_create_form(
        &mut app,
        &vec![user_profile()],
        0,
        "dc=x",
        &empty_user(),
        &bindings,
    );
    assert!(matches!(
        binding_of(&app, "uid"),
        Some(WidgetKind::NextNumber { min: 1, max: 9 })
    ));
    assert!(matches!(
        binding_of(&app, "description"),
        Some(WidgetKind::Readonly)
    ));
    assert!(matches!(
        binding_of(&app, "objectClass"),
        Some(WidgetKind::ObjectClassPicker)
    ));
    let at = app
        .form
        .as_ref()
        .unwrap()
        .fields
        .iter()
        .position(|f| f.label == "uid")
        .unwrap();
    app.form_focus = at;
    assert!(matches!(
        dispatch_key(&mut app, key(KeyCode::Enter), &none()),
        Some(UiAction::AllocateNextNumber { field_idx }) if field_idx == at
    ));
}

#[test]
fn a_configured_widget_goes_before_the_schema() {
    let widgets = vec![ResolvedWidget {
        attr: "uid".into(),
        kind: WidgetKind::Choice(Rc::new(ChoiceWidget {
            select: Cardinality::Single,
            options: vec![],
        })),
        owner_object_classes: strings(&["testUser"]),
    }];
    let bindings = NewEntryBindings {
        kinds: vec![
            ("uid".to_string(), WidgetKind::Readonly),
            ("description".to_string(), WidgetKind::SambaSid),
        ],
        numbers: vec![],
    };
    let form = build_new_entry_form(
        &empty_user(),
        &user_profile(),
        &widgets,
        &bindings,
        0,
        "dc=x".into(),
    );
    for f in &form.fields {
        match f.label.as_str() {
            "uid" => assert!(matches!(f.widget_binding, Some(WidgetKind::Choice(_)))),
            "description" => assert!(matches!(f.widget_binding, Some(WidgetKind::SambaSid))),
            _ => {}
        }
    }
}

#[test]
fn a_number_that_was_found_stands_in_its_field() {
    let mut app = app_with_next_number_field();
    assert_eq!(
        number_wanted(&app, 0),
        Some(("uidNumber".to_string(), 10000, 60000))
    );
    assert_eq!(number_wanted(&app, 1), None);
    fill_allocated(&mut app, 0, Ok(10007));
    assert_eq!(app.form.as_ref().unwrap().fields[0].editor.value(), "10007");
    fill_allocated(&mut app, 0, Err("full".into()));
    assert!(matches!(&app.overlay, Some(Overlay::Error { text }) if text == "full"));
    assert_eq!(app.form.as_ref().unwrap().fields[0].editor.value(), "10007");
}
