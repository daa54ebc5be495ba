//! The help contexts of form fields, and the hints that the status line shows for them.
use tvision_rs::HelpCtx;
use vstd::prelude::*;

use crate::names::context_name;
use crate::text::same_text;

verus! {

/// A plain field of one value.
pub const FIELD_TEXT: &'static str = "edaptor.field.text";

/// A list of values.
pub const FIELD_LIST: &'static str = "edaptor.field.list";

/// A list of values whose order matters.
pub const FIELD_LIST_ORDERED: &'static str = "edaptor.field.list.ordered";

/// The column by which an ordered list is reordered.
pub const FIELD_LIST_HANDLE: &'static str = "edaptor.field.list.handle";

/// A field that opens a picker.
pub const FIELD_LAUNCH_PICKER: &'static str = "edaptor.field.launch.picker";

/// A field that opens the password editor.
pub const FIELD_LAUNCH_PASSWORD: &'static str = "edaptor.field.launch.password";

/// The hint for a help context of the given name, if there is one.
pub open spec fn hint(name: Seq<char>) -> Option<Seq<char>> {
    if name == "edaptor.field.text"@ {
        Some("↑↓ move · Enter next field"@)
    } else if name == "edaptor.field.list"@ {
        Some("Enter add · Ctrl-Enter newline · Backspace empties→removes · ↑↓ move"@)
    } else if name == "edaptor.field.list.ordered"@ {
        Some("Enter add · Ctrl-Enter newline · Ctrl-↑↓ or ← handle to reorder"@)
    } else if name == "edaptor.field.list.handle"@ {
        Some("↑↓ reorder · → back to text"@)
    } else if name == "edaptor.field.launch.picker"@ {
        Some("any key: open picker · ↑↓ move"@)
    } else if name == "edaptor.field.launch.password"@ {
        Some("any key: edit password"@)
    } else {
        None
    }
}

/// The hint that the status line shows for a help context; none for one that is not a field's.
pub fn hint_for(ctx: HelpCtx) -> (r: Option<String>)
    ensures
        match r {
            Some(h) => hint(context_name(ctx)) == Some(h@),
            None => hint(context_name(ctx)) is None,
        },
{
    let name: &str = ctx.name();
    let text: &str = if same_text(name, "edaptor.field.text") {
        "↑↓ move · Enter next field"
    } else if same_text(name, "edaptor.field.list") {
        "Enter add · Ctrl-Enter newline · Backspace empties→removes · ↑↓ move"
    } else if same_text(name, "edaptor.field.list.ordered") {
        "Enter add · Ctrl-Enter newline · Ctrl-↑↓ or ← handle to reorder"
    } else if same_text(name, "edaptor.field.list.handle") {
        "↑↓ reorder · → back to text"
    } else if same_text(name, "edaptor.field.launch.picker") {
        "any key: open picker · ↑↓ move"
    } else if same_text(name, "edaptor.field.launch.password") {
        "any key: edit password"
    } else {
        return None;
    };
    Some(text.to_owned())
}

/// Every kind of field has a hint of its own, and nothing else has one.
pub proof fn every_field_has_a_hint(name: Seq<char>)
    ensures
        hint(name) is Some <==> name == FIELD_TEXT@ || name == FIELD_LIST@ || name
            == FIELD_LIST_ORDERED@ || name == FIELD_LIST_HANDLE@ || name == FIELD_LAUNCH_PICKER@
            || name == FIELD_LAUNCH_PASSWORD@,
        hint(FIELD_TEXT@) == Some("↑↓ move · Enter next field"@),
        hint(FIELD_LIST@) == Some(
            "Enter add · Ctrl-Enter newline · Backspace empties→removes · ↑↓ move"@,
        ),
        hint(FIELD_LIST_ORDERED@) == Some(
            "Enter add · Ctrl-Enter newline · Ctrl-↑↓ or ← handle to reorder"@,
        ),
        hint(FIELD_LIST_HANDLE@) == Some("↑↓ reorder · → back to text"@),
        hint(FIELD_LAUNCH_PICKER@) == Some("any key: open picker · ↑↓ move"@),
        hint(FIELD_LAUNCH_PASSWORD@) == Some("any key: edit password"@),
{
    reveal_strlit("edaptor.field.text");
    reveal_strlit("edaptor.field.list");
    reveal_strlit("edaptor.field.list.ordered");
    reveal_strlit("edaptor.field.list.handle");
    reveal_strlit("edaptor.field.launch.picker");
    reveal_strlit("edaptor.field.launch.password");
    assert("edaptor.field.text"@[14] != "edaptor.field.list"@[14]);
    assert("edaptor.field.text"@.len() == 18 && "edaptor.field.list"@.len() == 18);
    assert("edaptor.field.list.ordered"@.len() == 26);
    assert("edaptor.field.list.handle"@.len() == 25);
    assert("edaptor.field.launch.picker"@.len() == 27);
    assert("edaptor.field.launch.password"@.len() == 29);
}

} // verus!
