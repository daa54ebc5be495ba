use edaptor::help_ctx::{
    hint_for, FIELD_LAUNCH_PASSWORD, FIELD_LAUNCH_PICKER, FIELD_LIST, FIELD_LIST_HANDLE,
    FIELD_LIST_ORDERED, FIELD_TEXT,
};
use std::rc::Rc;

use edaptor::lookup::{
    highlight_index, input_after_pick, label_attrs, leading_number, list_rows, lookup_binding,
    lookup_step, mirrored_input, ok_enabled, row_display, Lookup, LookupEvent, LookupStep,
};
use edaptor::widgets::{Candidate, LookupBinding, WidgetKind};
use tvision_rs::HelpCtx;

fn candidates(of: &[(&str, &str)]) -> Vec<Candidate> {
    of.iter()
        .map(|(v, l)| Candidate {
            dn: format!("cn={l},dc=x"),
            label: l.to_string(),
            store_value: v.to_string(),
        })
        .collect()
}

#[test]
fn typing_after_pick_narrows_the_list_immediately() {
    let mut l = Lookup::new(String::new());
    let (rows, highlight) = l.take_candidates(&candidates(&[("100", "users"), ("5000", "staff")]));
    assert_eq!(rows.len(), 2, "both candidates visible before pick");
    assert_eq!(highlight, None);

    assert_eq!(l.mirror(&rows[0]).as_deref(), Some("100 (users)"));
    assert!(
        !l.typed("100 (users)"),
        "what a pick puts into the input is no query"
    );
    assert!(
        l.typed("staff"),
        "typed query must narrow the list immediately after a pick, no lag"
    );
    assert!(!l.typed("staff"));
}

#[test]
fn seeded_numeric_input_stages_commit_and_enables_ok() {
    let mut l = Lookup::new("5000".to_string());
    let (_, highlight) = l.take_candidates(&candidates(&[("100", "users"), ("5000", "staff")]));
    assert_eq!(highlight, Some(1));
    assert!(ok_enabled(&l.last_input));
    assert_eq!(
        leading_number(&l.last_input),
        Some("5000".to_string()),
        "seeded numeric input stages its value"
    );
    assert_eq!(l.mirror("nobody (1)"), None);
    assert_eq!(l.last_input, "5000");
}

#[test]
fn lookup_fields_open_the_combobox() {
    let b = Rc::new(LookupBinding {
        attr: "gidNumber".into(),
        base: "ou=groups,dc=x".into(),
        object_class: "posixGroup".into(),
        store: "gidNumber".into(),
        template_attrs: vec!["cn".into()],
    });
    assert!(lookup_binding(&Some(WidgetKind::Lookup(b))).is_some());
    assert!(lookup_binding(&Some(WidgetKind::SambaSid)).is_none());
    assert!(lookup_binding(&None).is_none());
}

#[test]
fn leading_number_extracts_prefix_digits() {
    assert_eq!(leading_number("5000"), Some("5000".into()));
    assert_eq!(leading_number("5000 (staff)"), Some("5000".into()));
    assert_eq!(leading_number("staff"), None);
    assert_eq!(leading_number(""), None);
    assert_eq!(leading_number("  42x"), Some("42".into()));
}

#[test]
fn ok_enabled_requires_leading_number() {
    assert!(ok_enabled("5000"));
    assert!(ok_enabled("5000 (staff)"));
    assert!(!ok_enabled("staff"));
    assert!(!ok_enabled(""));
}

#[test]
fn display_helpers_use_opposite_orders() {
    assert_eq!(row_display("5000", "staff"), "staff (5000)");
    assert_eq!(input_after_pick("5000", "staff"), "5000 (staff)");
}

fn groups() -> Vec<(String, String)> {
    vec![
        ("100".to_string(), "users".to_string()),
        ("5000".to_string(), "staff".to_string()),
    ]
}

#[test]
fn highlight_matches_exact_value() {
    let rows = groups();
    assert_eq!(highlight_index(&rows, "5000"), Some(1));
    assert_eq!(highlight_index(&rows, "5000 (staff)"), Some(1));
    assert_eq!(highlight_index(&rows, "50"), None); // prefix, not exact
    assert_eq!(highlight_index(&rows, "staff"), None); // no leading number
}

#[test]
fn picking_a_row_commits_and_highlights_it() {
    let rows = groups();
    assert_eq!(list_rows(&rows), vec!["users (100)", "staff (5000)"]);
    let input = mirrored_input(&rows, "staff (5000)").unwrap();
    assert_eq!(input, "5000 (staff)");
    assert_eq!(leading_number(&input), Some("5000".to_string()));
    assert_eq!(highlight_index(&rows, &input), Some(1));
    assert_eq!(mirrored_input(&rows, "staff"), None);
}

#[test]
fn whitespace_before_the_number_is_any_unicode_whitespace() {
    assert_eq!(leading_number("\u{a0}\t7"), Some("7".to_string()));
    assert_eq!(leading_number("\u{200b}7"), None);
    assert_eq!(leading_number("٣"), None);
}

#[test]
fn label_attrs_always_fetch_store_and_cn() {
    let attrs = |v: &[&str]| v.iter().map(|s| s.to_string()).collect::<Vec<_>>();
    assert_eq!(
        label_attrs(&attrs(&["description"]), "gidNumber"),
        vec!["description", "gidNumber", "cn"]
    );
    assert_eq!(
        label_attrs(&attrs(&["CN", "GIDNUMBER"]), "gidNumber"),
        vec!["CN", "GIDNUMBER"]
    );
}

#[test]
fn list_keys_mirror_and_choosing_a_row_is_no_acceptance() {
    assert_eq!(lookup_step(LookupEvent::RowChosen), LookupStep::Mirror);
    assert_eq!(lookup_step(LookupEvent::ListKey), LookupStep::MoveAndMirror);
    assert_eq!(
        lookup_step(LookupEvent::Refresh),
        LookupStep::TakeCandidates
    );
    assert_eq!(lookup_step(LookupEvent::Other), LookupStep::Dialog);
}

#[test]
fn hint_for_returns_correct_string_per_constant() {
    let cases = [
        (FIELD_TEXT, "↑↓ move · Enter next field"),
        (
            FIELD_LIST,
            "Enter add · Ctrl-Enter newline · Backspace empties→removes · ↑↓ move",
        ),
        (
            FIELD_LIST_ORDERED,
            "Enter add · Ctrl-Enter newline · Ctrl-↑↓ or ← handle to reorder",
        ),
        (FIELD_LIST_HANDLE, "↑↓ reorder · → back to text"),
        (FIELD_LAUNCH_PICKER, "any key: open picker · ↑↓ move"),
        (FIELD_LAUNCH_PASSWORD, "any key: edit password"),
    ];
    for (name, expected) in cases {
        let hint = hint_for(HelpCtx::custom(name))
            .unwrap_or_else(|| panic!("hint_for({name}) returned None"));
        assert_eq!(hint, expected, "wrong hint for context {name}");
    }
}

#[test]
fn hint_for_returns_none_for_unknown_context() {
    let unknown = HelpCtx::custom("unknown.context");
    assert_eq!(hint_for(unknown), None, "unknown context must return None");
}

#[test]
fn hint_for_returns_none_for_no_context() {
    assert_eq!(
        hint_for(HelpCtx::NO_CONTEXT),
        None,
        "NO_CONTEXT must return None"
    );
}

#[test]
fn constants_have_expected_names() {
    assert_eq!(HelpCtx::custom(FIELD_TEXT).name(), "edaptor.field.text");
    assert_eq!(HelpCtx::custom(FIELD_LIST).name(), "edaptor.field.list");
    assert_eq!(
        HelpCtx::custom(FIELD_LIST_ORDERED).name(),
        "edaptor.field.list.ordered"
    );
    assert_eq!(
        HelpCtx::custom(FIELD_LIST_HANDLE).name(),
        "edaptor.field.list.handle"
    );
    assert_eq!(
        HelpCtx::custom(FIELD_LAUNCH_PICKER).name(),
        "edaptor.field.launch.picker"
    );
    assert_eq!(
        HelpCtx::custom(FIELD_LAUNCH_PASSWORD).name(),
        "edaptor.field.launch.password"
    );
}
