use edaptor::dialog::confirm::{
    dialog_height_for, text_end_row, MAX_DIALOG_H, MIN_DIALOG_H,
};
use edaptor::dialog::container_chooser::{height, rows, staged_row};
use edaptor::dialog::error::{layout, wrap, MAX_TEXT_W};
use edaptor::dialog::{guard_decision, GuardDecision};
use tvision_rs::Command;

fn lines(n: usize) -> String {
    (0..n)
        .map(|i| format!("line{i}"))
        .collect::<Vec<_>>()
        .join("\n")
}

#[test]
fn wraps_on_spaces() {
    assert_eq!(
        wrap("the quick brown fox jumps", 10),
        vec!["the quick", "brown fox", "jumps"]
    );
}

#[test]
fn honours_explicit_newlines() {
    assert_eq!(wrap("a\n\nb", 10), vec!["a", "", "b"]);
}

#[test]
fn hard_breaks_a_token_wider_than_the_column() {
    let dn = "cn=cedric,ou=users,ou=groups,dc=carbo-link,dc=com";
    let lines = wrap(dn, 20);
    assert!(
        lines.iter().all(|l| l.chars().count() <= 20),
        "no line may exceed the column: {lines:?}"
    );
    assert_eq!(lines.concat(), dn, "chopping must not lose characters");
}

#[test]
fn no_line_exceeds_the_column_for_a_real_write_failure() {
    let msg = "Constraint violation (LDAP 19)\n\nThe server rejected the whole \
               change and wrote nothing.\n\nWhile adding:\n  \
               cn=cedric,ou=users,ou=groups,dc=carbo-link,dc=com\n\nReason: \
               non-unique attributes found with (|(gidNumber=1211))";
    let lines = wrap(msg, MAX_TEXT_W as usize);
    assert!(lines
        .iter()
        .all(|l| l.chars().count() <= MAX_TEXT_W as usize));
}

#[test]
fn an_empty_column_takes_only_blank_text() {
    assert_eq!(wrap("", 0), vec![""]);
    assert_eq!(wrap("  \n ", 0), vec!["", ""]);
}

#[test]
fn repeated_spaces_are_kept_where_the_line_has_room() {
    assert_eq!(wrap("a  b", 10), vec!["a  b"]);
    assert_eq!(wrap("ab cd", 2), vec!["ab", "cd"]);
    assert_eq!(wrap("abcde f", 2), vec!["ab", "cd", "e", "f"]);
}

#[test]
fn wrapping_keeps_every_visible_character() {
    let text = "the entry cn=a,dc=b was\nnot written";
    let visible = |s: &str| -> String { s.chars().filter(|c| *c != ' ' && *c != '\n').collect() };
    for width in 1..12 {
        assert_eq!(visible(&wrap(text, width).concat()), visible(text));
    }
}

#[test]
fn error_layout_is_sized_to_its_message() {
    let short = layout("boom");
    assert_eq!((short.text_w, short.text_h), (34, 1));
    assert_eq!(short.body, "boom");
    let long = layout(&lines(40));
    assert_eq!(long.text_h, 18);
    assert_eq!(long.body, lines(18));
    let wide = layout(&"x".repeat(100));
    assert_eq!((wide.text_w, wide.text_h), (68, 2));
    let medium = layout(&"y".repeat(40));
    assert_eq!(medium.text_w, 40);
}

#[test]
fn short_ldif_clamps_to_min_height() {
    assert_eq!(dialog_height_for(""), MIN_DIALOG_H);
    assert_eq!(
        dialog_height_for("dn: uid=x,dc=example,dc=com"),
        MIN_DIALOG_H
    );
}

#[test]
fn typical_single_entry_ldif_fits() {
    assert_eq!(dialog_height_for(&lines(14)), 20);
}

#[test]
fn combined_ldif_grows_beyond_old_fixed_height() {
    assert_eq!(dialog_height_for(&lines(30)), 36);
}

#[test]
fn very_long_ldif_caps_at_max_height() {
    assert_eq!(dialog_height_for(&lines(100)), MAX_DIALOG_H);
}

#[test]
fn more_lines_produce_taller_dialog() {
    assert!(
        dialog_height_for(&lines(25)) > dialog_height_for(&lines(5)),
        "longer LDIF must produce a taller dialog"
    );
}

#[test]
fn a_trailing_line_feed_opens_no_line() {
    assert_eq!(dialog_height_for(&format!("{}\n", lines(14))), 20);
    assert_eq!(dialog_height_for("a\n\nb\n"), 9);
    assert_eq!(text_end_row(20), 16);
}

#[test]
fn yes_is_save_no_is_discard_else_stay() {
    assert_eq!(guard_decision(Command::YES), GuardDecision::Save);
    assert_eq!(guard_decision(Command::NO), GuardDecision::Discard);
    assert_eq!(guard_decision(Command::CANCEL), GuardDecision::Stay);
    assert_eq!(
        guard_decision(Command::custom("whatever")),
        GuardDecision::Stay
    );
}

#[test]
fn container_chooser_offers_branch_and_home() {
    assert_eq!(
        rows("dc=example,dc=org", "ou=people,dc=example,dc=org"),
        vec![
            "Here — dc=example,dc=org",
            "In ou=people,dc=example,dc=org"
        ]
    );
    assert_eq!(height(2), 8);
    assert_eq!(staged_row(Some(1), Some(0)), Some(1));
    assert_eq!(staged_row(Some(-1), Some(0)), Some(0));
    assert_eq!(staged_row(None, None), None);
}

#[test]
fn wrapping_wrapped_lines_changes_nothing() {
    for text in [
        "the quick  brown fox jumps ",
        " leading\n\nuid=averylongname,ou=people and more",
        "",
        "   ",
    ] {
        for width in [1, 5, 10] {
            let first = wrap(text, width);
            assert_eq!(wrap(&first.join("\n"), width), first);
        }
    }
}
