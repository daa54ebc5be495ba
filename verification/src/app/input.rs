//! The keys of the three panes and of the dialogs on top of them.
use vstd::prelude::*;
use vstd::string::*;

use crate::app::password_editor::{
    focused_field, password_editor_key, password_keyed, password_takes_key,
};
use crate::app::picker::{
    editor_opened, is_picking, only_field_differs, open_value_editor, picker_keyed,
    popup_takes_key, rows_popup_keyed, value_editor_key, EditorStep,
};
use crate::app::{guard_if_dirty, App, GuardIntent, Overlay, Pane, PendingAction, UiAction};
use crate::edit_form::EditField;
use crate::form_state::{guard_decision, GuardChoice, GuardOutcome};
use crate::keys::{KeyCode, KeyPress};
use crate::text::{is_blank, texts, trimmed};
use crate::text_input::{can_press, pressed};
use crate::tree::{
    opened, path_above, path_below, same_rows, selected, tree_key_down, tree_key_left,
    tree_key_right, tree_key_up, tree_toggle,
};
use crate::widgets::{Candidate, WidgetKind};

verus! {

/// The pane behind a pane in the focus cycle.
pub open spec fn pane_after(p: Pane) -> Pane {
    match p {
        Pane::Tree => Pane::Leaf,
        Pane::Leaf => Pane::Form,
        Pane::Form => Pane::Tree,
    }
}

/// The pane before a pane in the focus cycle.
pub open spec fn pane_before(p: Pane) -> Pane {
    match p {
        Pane::Tree => Pane::Form,
        Pane::Form => Pane::Leaf,
        Pane::Leaf => Pane::Tree,
    }
}

/// The forward focus cycle: tree, list, form, tree.
pub fn next_pane(focus: Pane) -> (r: Pane)
    ensures
        r == pane_after(focus),
{
    match focus {
        Pane::Tree => Pane::Leaf,
        Pane::Leaf => Pane::Form,
        Pane::Form => Pane::Tree,
    }
}

/// The backward focus cycle: tree, form, list, tree.
pub fn prev_pane(focus: Pane) -> (r: Pane)
    ensures
        r == pane_before(focus),
{
    match focus {
        Pane::Tree => Pane::Form,
        Pane::Form => Pane::Leaf,
        Pane::Leaf => Pane::Tree,
    }
}

/// The two focus cycles undo each other, and three steps forward lead back.
pub proof fn focus_cycles_are_inverse(p: Pane)
    ensures
        pane_before(pane_after(p)) == p,
        pane_after(pane_before(p)) == p,
        pane_after(pane_after(pane_after(p))) == p,
{
}

/// The place `step` further down a list, at most its last place.
pub open spec fn further(cur: int, step: int, len: int) -> int {
    let last = if len > 0 { len - 1 } else { 0 };
    if cur + step < last {
        cur + step
    } else {
        last
    }
}

/// The place `step` further up a list, at least its first place.
pub open spec fn back(cur: int, step: int) -> int {
    if cur > step {
        cur - step
    } else {
        0
    }
}

fn step_down(cur: usize, step: usize, len: usize) -> (r: usize)
    requires
        cur + step <= usize::MAX,
    ensures
        r == further(cur as int, step as int, len as int),
{
    let last: usize = if len > 0 {
        len - 1
    } else {
        0
    };
    if cur + step < last {
        cur + step
    } else {
        last
    }
}

/// The next place in a list, at most its last one.
pub fn next_index(cur: usize, len: usize) -> (r: usize)
    requires
        cur < usize::MAX,
    ensures
        r == further(cur as int, 1, len as int),
{
    step_down(cur, 1, len)
}

/// What a key means to the editor, whatever pane has the focus.
pub enum Meaning {
    Quit,
    Focus(Pane),
    Refresh,
    Save,
    Cancel,
    NewEntry,
    Delete,
    /// The key goes to the focused pane.
    PaneKey,
}

/// What a key means. Keys that write count only where writing is allowed.
pub open spec fn meaning(app: App, key: KeyPress) -> Meaning {
    if key.is_alt('x', 'X') || (key.has_control() && key.is_letter('c', 'C')) {
        Meaning::Quit
    } else if key.code == KeyCode::BackTab {
        Meaning::Focus(pane_before(app.focus))
    } else if key.code == KeyCode::Tab {
        Meaning::Focus(pane_after(app.focus))
    } else if key.is_alt('r', 'R') {
        Meaning::Refresh
    } else if app.focus == Pane::Tree && key.code == KeyCode::Char('q') {
        Meaning::Quit
    } else if app.read_only || !key.has_alt() {
        Meaning::PaneKey
    } else if key.is_letter('s', 'S') {
        Meaning::Save
    } else if key.is_letter('c', 'C') {
        Meaning::Cancel
    } else if key.is_letter('n', 'N') {
        Meaning::NewEntry
    } else if key.is_letter('d', 'D') {
        Meaning::Delete
    } else {
        Meaning::PaneKey
    }
}

fn key_meaning(app: &App, key: KeyPress) -> (r: Meaning)
    ensures
        r == meaning(*app, key),
{
    let alt: bool = key.alt();
    if key.alt_letter('x', 'X') || (key.control() && key.letter('c', 'C')) {
        return Meaning::Quit;
    }
    if key.code == KeyCode::BackTab {
        return Meaning::Focus(prev_pane(app.focus));
    }
    if key.code == KeyCode::Tab {
        return Meaning::Focus(next_pane(app.focus));
    }
    if key.alt_letter('r', 'R') {
        return Meaning::Refresh;
    }
    if app.focus == Pane::Tree && key.code == KeyCode::Char('q') {
        return Meaning::Quit;
    }
    if !app.read_only && alt {
        if key.letter('s', 'S') {
            return Meaning::Save;
        }
        if key.letter('c', 'C') {
            return Meaning::Cancel;
        }
        if key.letter('n', 'N') {
            return Meaning::NewEntry;
        }
        if key.letter('d', 'D') {
            return Meaning::Delete;
        }
    }
    Meaning::PaneKey
}

/// Whether `new` is `old` after a key in the tree: the arrows move, close and open; Enter and the
/// space bar open or close.
pub open spec fn tree_keyed(old: App, new: App, key: KeyPress) -> bool {
    let t = old.tree_state;
    let u = new.tree_state;
    if key.code == KeyCode::Up || key.code == KeyCode::Char('k') {
        &&& new == (App { tree_state: u, ..old })
        &&& selected(u) == path_above(t) && opened(u) == opened(t) && same_rows(u, t)
    } else if key.code == KeyCode::Down || key.code == KeyCode::Char('j') {
        &&& new == (App { tree_state: u, ..old })
        &&& selected(u) == path_below(t) && opened(u) == opened(t) && same_rows(u, t)
    } else if key.code == KeyCode::Left {
        &&& new == (App { tree_state: u, ..old })
        &&& opened(u) == opened(t).remove(selected(t)) && same_rows(u, t)
        &&& selected(u) == if opened(t).contains(selected(t)) || selected(t).len() == 0 {
            selected(t)
        } else {
            selected(t).drop_last()
        }
    } else if key.code == KeyCode::Right {
        &&& new == (App { tree_state: u, ..old })
        &&& selected(u) == selected(t) && same_rows(u, t)
        &&& opened(u) == if selected(t).len() == 0 {
            opened(t)
        } else {
            opened(t).insert(selected(t))
        }
    } else if key.code == KeyCode::Enter || key.code == KeyCode::Char(' ') {
        &&& new == (App { tree_state: u, ..old })
        &&& selected(u) == selected(t) && same_rows(u, t)
        &&& opened(u) == if selected(t).len() == 0 {
            opened(t)
        } else if opened(t).contains(selected(t)) {
            opened(t).remove(selected(t))
        } else {
            opened(t).insert(selected(t))
        }
    } else {
        new == old
    }
}

fn tree_pane_key(app: &mut App, key: KeyPress)
    ensures
        tree_keyed(*old(app), *final(app), key),
{
    match key.code {
        KeyCode::Up => tree_key_up(&mut app.tree_state),
        KeyCode::Down => tree_key_down(&mut app.tree_state),
        KeyCode::Left => tree_key_left(&mut app.tree_state),
        KeyCode::Right => tree_key_right(&mut app.tree_state),
        KeyCode::Enter => tree_toggle(&mut app.tree_state),
        KeyCode::Char(c) => {
            if c == 'k' {
                tree_key_up(&mut app.tree_state);
            } else if c == 'j' {
                tree_key_down(&mut app.tree_state);
            } else if c == ' ' {
                tree_toggle(&mut app.tree_state);
            }
        },
        _ => {},
    }
}

/// Whether `new` is `old` after a key in the list: the arrows and the page keys move the highlight,
/// any other key edits the search box.
pub open spec fn leaf_keyed(old: App, new: App, key: KeyPress) -> bool {
    let sel = old.leaf_sel as int;
    let n = old.rows@.len() as int;
    match key.code {
        KeyCode::Up => new == (App { leaf_sel: back(sel, 1) as usize, ..old }),
        KeyCode::Down => new == (App { leaf_sel: further(sel, 1, n) as usize, ..old }),
        KeyCode::PageUp => new == (App { leaf_sel: back(sel, 10) as usize, ..old }),
        KeyCode::PageDown => new == (App { leaf_sel: further(sel, 10, n) as usize, ..old }),
        _ => {
            &&& new == (App { search: new.search, ..old })
            &&& new.search.model() == pressed(old.search.model(), key)
        },
    }
}

fn leaf_pane_key(app: &mut App, key: KeyPress)
    requires
        old(app).leaf_sel <= usize::MAX - 10,
        can_press(old(app).search.model(), key),
    ensures
        leaf_keyed(*old(app), *final(app), key),
{
    let n: usize = app.rows.len();
    match key.code {
        KeyCode::Up => {
            app.leaf_sel = app.leaf_sel.saturating_sub(1);
        },
        KeyCode::Down => {
            app.leaf_sel = next_index(app.leaf_sel, n);
        },
        KeyCode::PageUp => {
            app.leaf_sel = app.leaf_sel.saturating_sub(10);
        },
        KeyCode::PageDown => {
            app.leaf_sel = step_down(app.leaf_sel, 10, n);
        },
        _ => {
            app.search.handle_key(key);
        },
    }
}

/// Whether a field takes keys itself: it is editable, holds one value, and has no widget but one
/// that fills it in.
pub open spec fn edits_inline(f: EditField) -> bool {
    &&& f.editable
    &&& !f.multi
    &&& match f.widget_binding {
        None => true,
        Some(WidgetKind::SambaSid) => true,
        Some(WidgetKind::NextNumber { .. }) => true,
        _ => false,
    }
}

/// Whether `new` is `old` after a key edited the focused field, if that takes keys itself.
pub open spec fn field_keyed(old: App, new: App, key: KeyPress) -> bool {
    match focused_field(old) {
        Some(f) => if edits_inline(f) {
            let at = old.form_focus as int;
            &&& new == (App { form: new.form, ..old })
            &&& only_field_differs(old.form, new.form, at)
            &&& new.form->0.fields@[at] == (EditField {
                editor: new.form->0.fields@[at].editor,
                ..f
            })
            &&& new.form->0.fields@[at].editor.model() == pressed(f.editor.model(), key)
        } else {
            new == old
        },
        None => new == old,
    }
}

/// Whether the focused field, if it takes keys itself, can handle a key.
pub open spec fn field_takes_key(app: App, key: KeyPress) -> bool {
    match focused_field(app) {
        Some(f) => edits_inline(f) ==> can_press(f.editor.model(), key),
        None => true,
    }
}

/// Whether a field takes keys itself.
pub fn takes_typing(f: &EditField) -> (b: bool)
    ensures
        b == edits_inline(*f),
{
    let plain: bool = match &f.widget_binding {
        None => true,
        Some(WidgetKind::SambaSid) => true,
        Some(WidgetKind::NextNumber { .. }) => true,
        _ => false,
    };
    f.editable && !f.multi && plain
}

/// Hands a key to the focused field, if that takes keys itself.
pub fn edit_focused_field(app: &mut App, key: KeyPress)
    requires
        field_takes_key(*old(app), key),
    ensures
        field_keyed(*old(app), *final(app), key),
{
    let focus: usize = app.form_focus;
    match &mut app.form {
        Some(form) => {
            if focus < form.fields.len() {
                if takes_typing(&form.fields[focus]) {
                    form.fields[focus].editor.handle_key(key);
                }
            }
        },
        None => {},
    }
}

/// Whether the focused field is to be filled with the next free number: it is bound to one, takes
/// edits, and is blank.
pub open spec fn wants_number(app: App) -> bool {
    match focused_field(app) {
        Some(f) => f.widget_binding matches Some(WidgetKind::NextNumber { .. }) && f.editable
            && trimmed(f.editor.value@).len() == 0,
        None => false,
    }
}

/// The place of the focused field, if it is to be filled with the next free number. A field that
/// holds something is left alone.
pub fn next_number_field_focused(app: &App) -> (r: Option<usize>)
    ensures
        r == if wants_number(*app) {
            Some(app.form_focus)
        } else {
            None
        },
{
    match &app.form {
        None => None,
        Some(form) => {
            if app.form_focus < form.fields.len() {
                let f: &EditField = &form.fields[app.form_focus];
                let bound: bool = match &f.widget_binding {
                    Some(WidgetKind::NextNumber { .. }) => true,
                    _ => false,
                };
                if bound && f.editable && is_blank(f.editor.value()) {
                    Some(app.form_focus)
                } else {
                    None
                }
            } else {
                None
            }
        },
    }
}

/// The number of fields of the form.
pub open spec fn field_count(app: App) -> int {
    match app.form {
        Some(f) => f.fields@.len() as int,
        None => 0,
    }
}

/// Whether `new`, with the step asked for, is `old` after a key in the form: the arrows and the
/// page keys move the focus, Enter asks for a number or opens the field's popup, Esc gives up a
/// new entry, and any other key edits the field.
pub open spec fn form_keyed(
    old: App,
    new: App,
    key: KeyPress,
    checked: Seq<Seq<char>>,
    r: Option<UiAction>,
) -> bool {
    let at = old.form_focus as int;
    let n = field_count(old);
    match key.code {
        KeyCode::Up => r is None && new == (App { form_focus: back(at, 1) as usize, ..old }),
        KeyCode::Down => r is None && new == (App { form_focus: further(at, 1, n) as usize, ..old }),
        KeyCode::PageUp => r is None && new == (App { form_focus: back(at, 10) as usize, ..old }),
        KeyCode::PageDown => r is None && new == (App {
            form_focus: further(at, 10, n) as usize,
            ..old
        }),
        KeyCode::Enter => if wants_number(old) {
            new == old && r == Some(UiAction::AllocateNextNumber { field_idx: old.form_focus })
        } else {
            r is None && editor_opened(old, new, checked)
        },
        _ => if key.code == KeyCode::Esc && old.composes() {
            new == old && r == Some(UiAction::FormCancel)
        } else {
            r is None && field_keyed(old, new, key)
        },
    }
}

fn form_pane_key(app: &mut App, key: KeyPress, checked: &Vec<String>) -> (r: Option<UiAction>)
    requires
        old(app).form_focus <= usize::MAX - 10,
        field_takes_key(*old(app), key),
    ensures
        form_keyed(*old(app), *final(app), key, texts(checked@), r),
{
    let n: usize = match &app.form {
        Some(f) => f.fields.len(),
        None => 0,
    };
    match key.code {
        KeyCode::Up => {
            app.form_focus = app.form_focus.saturating_sub(1);
            None
        },
        KeyCode::Down => {
            app.form_focus = next_index(app.form_focus, n);
            None
        },
        KeyCode::PageUp => {
            app.form_focus = app.form_focus.saturating_sub(10);
            None
        },
        KeyCode::PageDown => {
            app.form_focus = step_down(app.form_focus, 10, n);
            None
        },
        KeyCode::Enter => match next_number_field_focused(app) {
            Some(field_idx) => Some(UiAction::AllocateNextNumber { field_idx }),
            None => {
                open_value_editor(app, checked);
                None
            },
        },
        _ => {
            if key.code == KeyCode::Esc && app.composing() {
                Some(UiAction::FormCancel)
            } else {
                edit_focused_field(app, key);
                None
            }
        },
    }
}

/// Whether `new`, with the step asked for, is `old` after a key without a dialog open. Quitting,
/// and moving the focus off the form, open the guard where there are unsaved edits.
pub open spec fn dispatched(
    old: App,
    new: App,
    key: KeyPress,
    checked: Seq<Seq<char>>,
    r: Option<UiAction>,
) -> bool {
    match meaning(old, key) {
        Meaning::Quit => r is None && new == if old.has_edits() {
            (App { overlay: Some(Overlay::Guard { intent: GuardIntent::Quit }), ..old })
        } else {
            (App { should_quit: true, ..old })
        },
        Meaning::Focus(dest) => r is None && new == if old.focus == Pane::Form && old.has_edits() {
            (App { overlay: Some(Overlay::Guard { intent: GuardIntent::Focus(dest) }), ..old })
        } else {
            (App { focus: dest, ..old })
        },
        Meaning::Refresh => new == old && r == Some(UiAction::Refresh),
        Meaning::Save => new == old && r == Some(UiAction::FormSave),
        Meaning::Cancel => new == old && r == Some(UiAction::FormCancel),
        Meaning::NewEntry => new == old && r == Some(UiAction::NewEntryChoose),
        Meaning::Delete => new == old && match old.form {
            Some(f) => if f.dn@.len() > 0 {
                r matches Some(UiAction::DeleteEntry(dn)) && dn@ == f.dn@
            } else {
                r is None
            },
            None => r is None,
        },
        Meaning::PaneKey => match old.focus {
            Pane::Tree => r is None && tree_keyed(old, new, key),
            Pane::Leaf => r is None && leaf_keyed(old, new, key),
            Pane::Form => form_keyed(old, new, key, checked, r),
        },
    }
}

/// Whether the focused pane can handle a key: places do not run out of numbers, and no text is cut
/// within a character.
pub open spec fn takes_key(app: App, key: KeyPress) -> bool {
    match app.focus {
        Pane::Tree => true,
        Pane::Leaf => app.leaf_sel <= usize::MAX - 10 && can_press(app.search.model(), key),
        Pane::Form => app.form_focus <= usize::MAX - 10 && field_takes_key(app, key),
    }
}

/// Handles a key without a dialog open, and gives back the step that it asks for. `checked` are
/// the options that the focused field's value stands for, where that is a choice.
pub fn dispatch_key(app: &mut App, key: KeyPress, checked: &Vec<String>) -> (r: Option<UiAction>)
    requires
        takes_key(*old(app), key),
    ensures
        dispatched(*old(app), *final(app), key, texts(checked@), r),
{
    match key_meaning(app, key) {
        Meaning::Quit => {
            if !guard_if_dirty(app, GuardIntent::Quit) {
                app.should_quit = true;
            }
            None
        },
        Meaning::Focus(dest) => {
            if app.focus == Pane::Form && guard_if_dirty(app, GuardIntent::Focus(dest)) {
                return None;
            }
            app.focus = dest;
            None
        },
        Meaning::Refresh => Some(UiAction::Refresh),
        Meaning::Save => Some(UiAction::FormSave),
        Meaning::Cancel => Some(UiAction::FormCancel),
        Meaning::NewEntry => Some(UiAction::NewEntryChoose),
        Meaning::Delete => match &app.form {
            Some(f) => if f.dn.as_str().is_empty() {
                None
            } else {
                Some(UiAction::DeleteEntry(f.dn.clone()))
            },
            None => None,
        },
        Meaning::PaneKey => match app.focus {
            Pane::Tree => {
                tree_pane_key(app, key);
                None
            },
            Pane::Leaf => {
                leaf_pane_key(app, key);
                None
            },
            Pane::Form => form_pane_key(app, key, checked),
        },
    }
}

/// With unsaved edits no key quits, drops the form, or moves the focus off it: the guard opens
/// instead.
pub proof fn no_key_loses_edits(
    old: App,
    new: App,
    key: KeyPress,
    checked: Seq<Seq<char>>,
    r: Option<UiAction>,
)
    requires
        dispatched(old, new, key, checked, r),
        old.has_edits(),
    ensures
        new.should_quit == old.should_quit,
        new.form is Some,
        new.form->0.baseline == old.form->0.baseline,
        old.focus == Pane::Form ==> new.focus == Pane::Form,
        meaning(old, key) is Quit ==> new.overlay == Some(
            Overlay::Guard { intent: GuardIntent::Quit },
        ),
{
}

/// Where nothing may be written, no key asks to save, create or delete.
pub proof fn read_only_never_writes(
    old: App,
    new: App,
    key: KeyPress,
    checked: Seq<Seq<char>>,
    r: Option<UiAction>,
)
    requires
        dispatched(old, new, key, checked, r),
        old.read_only,
    ensures
        match r {
            None => true,
            Some(UiAction::Refresh) => true,
            Some(UiAction::FormCancel) => old.composes(),
            Some(UiAction::AllocateNextNumber { .. }) => wants_number(old),
            _ => false,
        },
{
}

/// What a key in a dialog leads to.
pub enum OverlayStep {
    /// Nothing more.
    Done,
    /// The confirmed or resolved step.
    Run(PendingAction),
    /// What the popup over a field leaves to the holder of the candidate list.
    Editor(EditorStep),
}

/// What a key chooses in the guard.
pub open spec fn guard_choice(key: KeyPress) -> Option<GuardChoice> {
    if key.is_letter('s', 'S') {
        Some(GuardChoice::Save)
    } else if key.is_letter('d', 'D') {
        Some(GuardChoice::Discard)
    } else if key.is_letter('c', 'C') || key.code == KeyCode::Esc {
        Some(GuardChoice::Stay)
    } else {
        None
    }
}

/// Whether `new`, with the step asked for, is `old` after a key in the guard. Staying keeps the
/// edits, and takes the entry moved to as seen, so that the guard does not open again at once.
pub open spec fn guard_keyed(old: App, new: App, key: KeyPress, r: Option<PendingAction>) -> bool {
    match old.overlay {
        Some(Overlay::Guard { intent }) => match guard_choice(key) {
            None => new == old && r is None,
            Some(GuardChoice::Save) => {
                &&& new == (App { overlay: None, ..old })
                &&& r == Some(PendingAction::ResolveGuard { intent, save: true })
            },
            Some(GuardChoice::Discard) => {
                &&& new == (App { overlay: None, ..old })
                &&& r == Some(PendingAction::ResolveGuard { intent, save: false })
            },
            Some(GuardChoice::Stay) => {
                &&& r is None
                &&& new == match intent {
                    GuardIntent::Nav(target) => (App {
                        overlay: None,
                        last_seen_leaf: target,
                        ..old
                    }),
                    _ => (App { overlay: None, ..old }),
                }
            },
        },
        _ => new == old && r is None,
    }
}

/// Handles a key in the guard over unsaved edits: `s` saves, `d` discards, `c` and Esc stay.
pub fn guard_key(app: &mut App, key: KeyPress) -> (r: Option<PendingAction>)
    ensures
        guard_keyed(*old(app), *final(app), key, r),
{
    let choice: GuardChoice = if key.letter('s', 'S') {
        GuardChoice::Save
    } else if key.letter('d', 'D') {
        GuardChoice::Discard
    } else if key.letter('c', 'C') || key.code == KeyCode::Esc {
        GuardChoice::Stay
    } else {
        return None;
    };
    let guarding: bool = match &app.overlay {
        Some(Overlay::Guard { .. }) => true,
        _ => false,
    };
    if !guarding {
        return None;
    }
    let taken: Option<Overlay> = app.overlay.take();
    match taken {
        Some(Overlay::Guard { intent }) => match guard_decision(true, Some(choice)) {
            GuardOutcome::Cancel => {
                match intent {
                    GuardIntent::Nav(target) => {
                        app.last_seen_leaf = target;
                    },
                    _ => {},
                }
                None
            },
            GuardOutcome::Proceed => Some(PendingAction::ResolveGuard { intent, save: false }),
            GuardOutcome::SaveThenProceed => Some(
                PendingAction::ResolveGuard { intent, save: true },
            ),
        },
        _ => None,
    }
}

/// Whether `new`, with the step asked for, is `old` after a key in the choice of a profile.
pub open spec fn profile_keyed(old: App, new: App, key: KeyPress, r: Option<PendingAction>) -> bool {
    match old.overlay {
        Some(Overlay::ChooseProfile { entries, sel }) => {
            let n = entries@.len() as int;
            if key.code == KeyCode::Up || key.code == KeyCode::Char('k') {
                r is None && new == (App {
                    overlay: Some(
                        Overlay::ChooseProfile { entries, sel: back(sel as int, 1) as usize },
                    ),
                    ..old
                })
            } else if key.code == KeyCode::Down || key.code == KeyCode::Char('j') {
                r is None && new == (App {
                    overlay: Some(
                        Overlay::ChooseProfile { entries, sel: further(sel as int, 1, n) as usize },
                    ),
                    ..old
                })
            } else if key.code == KeyCode::Enter {
                &&& new == (App { overlay: None, ..old })
                &&& r == if sel < n {
                    Some(PendingAction::OpenCreate { profile_idx: entries@[sel as int].0 })
                } else {
                    None
                }
            } else if key.code == KeyCode::Esc || key.is_alt('c', 'C') {
                r is None && new == (App { overlay: None, ..old })
            } else {
                r is None && new == old
            }
        },
        _ => r is None && new == old,
    }
}

/// Whether the choice of a profile, if that is open, can handle a key.
pub open spec fn profile_takes_key(app: App) -> bool {
    match app.overlay {
        Some(Overlay::ChooseProfile { entries, sel }) => sel < usize::MAX,
        _ => true,
    }
}

/// Handles a key in the choice of a profile: the arrows move, Enter opens a form for a new entry
/// of the profile, Esc and Alt+C dismiss.
pub fn choose_profile_key(app: &mut App, key: KeyPress) -> (r: Option<PendingAction>)
    requires
        profile_takes_key(*old(app)),
    ensures
        profile_keyed(*old(app), *final(app), key, r),
{
    let closes: bool = key.code == KeyCode::Esc || key.alt_letter('c', 'C');
    let mut chosen: Option<PendingAction> = None;
    let mut done: bool = false;
    match &mut app.overlay {
        Some(Overlay::ChooseProfile { entries, sel }) => {
            if key.code == KeyCode::Up || key.code == KeyCode::Char('k') {
                *sel = sel.saturating_sub(1);
            } else if key.code == KeyCode::Down || key.code == KeyCode::Char('j') {
                *sel = next_index(*sel, entries.len());
            } else if key.code == KeyCode::Enter {
                if *sel < entries.len() {
                    chosen = Some(PendingAction::OpenCreate { profile_idx: entries[*sel].0 });
                }
                done = true;
            } else if closes {
                done = true;
            }
        },
        _ => {},
    }
    if done {
        app.overlay = None;
    }
    chosen
}

/// Whether the dialog on top, if there is one, can handle a key.
pub open spec fn overlay_takes_key(app: App, key: KeyPress) -> bool {
    popup_takes_key(app, key) && password_takes_key(app, key) && profile_takes_key(app)
}

/// Whether `new`, with what is left to do, is `old` after a key in the dialog on top.
pub open spec fn overlay_keyed(
    old: App,
    new: App,
    key: KeyPress,
    visible: Seq<Candidate>,
    r: OverlayStep,
) -> bool {
    match old.overlay {
        Some(Overlay::Confirm { title, body, action }) => if key.is_letter('y', 'Y') || key.code
            == KeyCode::Enter {
            new == (App { overlay: None, ..old }) && r == OverlayStep::Run(action)
        } else if key.is_letter('n', 'N') || key.code == KeyCode::Esc {
            new == (App { overlay: None, ..old }) && r is Done
        } else {
            new == old && r is Done
        },
        Some(Overlay::Error { .. }) => new == (App { overlay: None, ..old }) && r is Done,
        Some(Overlay::ValueEditor(_)) => match r {
            OverlayStep::Editor(step) => if is_picking(old) {
                picker_keyed(old, new, key, visible, step)
            } else {
                rows_popup_keyed(old, new, key) && step is Done
            },
            _ => false,
        },
        Some(Overlay::PasswordEditor(_)) => password_keyed(old, new, key) && r is Done,
        Some(Overlay::Guard { .. }) => match r {
            OverlayStep::Run(a) => guard_keyed(old, new, key, Some(a)),
            OverlayStep::Done => guard_keyed(old, new, key, None),
            _ => false,
        },
        Some(Overlay::ChooseProfile { .. }) => match r {
            OverlayStep::Run(a) => profile_keyed(old, new, key, Some(a)),
            OverlayStep::Done => profile_keyed(old, new, key, None),
            _ => false,
        },
        None => new == old && r is Done,
    }
}

enum Dialog {
    Nothing,
    Confirm,
    Message,
    Value,
    Password,
    Guard,
    Profile,
}

fn run_or_done(a: Option<PendingAction>) -> (r: OverlayStep)
    ensures
        r == match a {
            Some(x) => OverlayStep::Run(x),
            None => OverlayStep::Done,
        },
{
    match a {
        Some(x) => OverlayStep::Run(x),
        None => OverlayStep::Done,
    }
}

/// Handles a key while a dialog is open. A confirmation runs its step on `y` and Enter, and is
/// dropped on `n` and Esc; a message goes on any key; the popups, the guard and the choice of a
/// profile have their own keys.
pub fn overlay_key(app: &mut App, key: KeyPress, visible: &Vec<Candidate>) -> (r: OverlayStep)
    requires
        overlay_takes_key(*old(app), key),
    ensures
        overlay_keyed(*old(app), *final(app), key, visible@, r),
{
    let dialog: Dialog = match &app.overlay {
        Some(Overlay::Confirm { .. }) => Dialog::Confirm,
        Some(Overlay::Error { .. }) => Dialog::Message,
        Some(Overlay::ValueEditor(_)) => Dialog::Value,
        Some(Overlay::PasswordEditor(_)) => Dialog::Password,
        Some(Overlay::Guard { .. }) => Dialog::Guard,
        Some(Overlay::ChooseProfile { .. }) => Dialog::Profile,
        None => Dialog::Nothing,
    };
    match dialog {
        Dialog::Confirm => {
            if key.letter('y', 'Y') || key.code == KeyCode::Enter {
                let taken: Option<Overlay> = app.overlay.take();
                return match taken {
                    Some(Overlay::Confirm { action, .. }) => OverlayStep::Run(action),
                    _ => OverlayStep::Done,
                };
            }
            if key.letter('n', 'N') || key.code == KeyCode::Esc {
                app.overlay = None;
            }
            OverlayStep::Done
        },
        Dialog::Message => {
            app.overlay = None;
            OverlayStep::Done
        },
        Dialog::Value => OverlayStep::Editor(value_editor_key(app, key, visible)),
        Dialog::Password => {
            password_editor_key(app, key);
            OverlayStep::Done
        },
        Dialog::Guard => run_or_done(guard_key(app, key)),
        Dialog::Profile => run_or_done(choose_profile_key(app, key)),
        Dialog::Nothing => OverlayStep::Done,
    }
}

/// No key in a dialog runs a write unless a confirmation was answered with yes, or the guard was
/// resolved.
pub proof fn nothing_runs_unconfirmed(
    old: App,
    new: App,
    key: KeyPress,
    visible: Seq<Candidate>,
    action: PendingAction,
)
    requires
        overlay_keyed(old, new, key, visible, OverlayStep::Run(action)),
    ensures
        match old.overlay {
            Some(Overlay::Confirm { title, body, action: a }) => a == action && (key.is_letter(
                'y',
                'Y',
            ) || key.code == KeyCode::Enter),
            Some(Overlay::Guard { .. }) => guard_choice(key) is Some && guard_choice(key) != Some(
                GuardChoice::Stay,
            ),
            Some(Overlay::ChooseProfile { .. }) => action is OpenCreate,
            _ => false,
        },
{
}

/// Moving down a list goes by the step and stops at the last place, moving up stops at the first; a
/// place in the list leads to a place in the list.
pub proof fn places_stay_in_the_list(cur: int, step: int, len: int)
    requires
        0 <= cur < len,
        0 <= step,
    ensures
        0 <= further(cur, step, len) < len,
        cur + step < len ==> further(cur, step, len) == cur + step,
        cur + step >= len ==> further(cur, step, len) == len - 1,
        0 <= back(cur, step) <= cur,
        step <= cur ==> back(cur, step) == cur - step,
        step > cur ==> back(cur, step) == 0,
{
}

/// Tab moves the focus from the tree to the list, from there to the form and back to the tree; Shift
/// and Tab go the other way round.
pub proof fn tab_goes_around_the_panes(
    old: App,
    new: App,
    key: KeyPress,
    checked: Seq<Seq<char>>,
    r: Option<UiAction>,
)
    requires
        dispatched(old, new, key, checked, r),
        key.code is Tab || key.code is BackTab,
    ensures
        r is None,
        !(old.focus == Pane::Form && old.has_edits()) ==> new == (App { focus: new.focus, ..old })
            && new.focus == (match (key.code, old.focus) {
            (KeyCode::Tab, Pane::Tree) => Pane::Leaf,
            (KeyCode::Tab, Pane::Leaf) => Pane::Form,
            (KeyCode::Tab, Pane::Form) => Pane::Tree,
            (_, Pane::Tree) => Pane::Form,
            (_, Pane::Leaf) => Pane::Tree,
            (_, Pane::Form) => Pane::Leaf,
        }),
        old.focus == Pane::Form && old.has_edits() ==> new.focus == old.focus && new.form == old.form
            && (new.overlay matches Some(Overlay::Guard { intent: GuardIntent::Focus(pane) }) && pane
            == (if key.code is Tab {
            Pane::Tree
        } else {
            Pane::Leaf
        })),
{
}

/// Alt+X, Ctrl+C and, in the tree, `q` quit: at once without edits, and otherwise through the guard.
/// No other key does.
pub proof fn keys_that_quit(
    old: App,
    new: App,
    key: KeyPress,
    checked: Seq<Seq<char>>,
    r: Option<UiAction>,
)
    requires
        dispatched(old, new, key, checked, r),
        !old.should_quit,
        old.overlay is None,
    ensures
        ({
            let quits = (key.has_alt() && (key.code == KeyCode::Char('x') || key.code == KeyCode::Char(
                'X',
            ))) || (key.has_control() && (key.code == KeyCode::Char('c') || key.code
                == KeyCode::Char('C'))) || (old.focus == Pane::Tree && key.code == KeyCode::Char('q'));
            &&& quits && !old.has_edits() ==> new == (App { should_quit: true, ..old }) && r is None
            &&& quits && old.has_edits() ==> new == (App {
                overlay: Some(Overlay::Guard { intent: GuardIntent::Quit }),
                ..old
            }) && r is None
            &&& !quits ==> !new.should_quit && !(new.overlay matches Some(
                Overlay::Guard { intent: GuardIntent::Quit },
            ))
        }),
{
}

/// With alt held, `s` asks to save, `c` to cancel, `n` for a new entry and `d` to delete the entry
/// shown, wherever the focus is, as long as something may be written; `r` loads the tree again in any
/// case. The state stays until that is done.
pub proof fn alt_keys_ask_for_their_step(
    old: App,
    new: App,
    key: KeyPress,
    checked: Seq<Seq<char>>,
    r: Option<UiAction>,
)
    requires
        dispatched(old, new, key, checked, r),
        key.has_alt(),
        !key.has_control(),
    ensures
        key.is_letter('r', 'R') ==> new == old && r == Some(UiAction::Refresh),
        key.is_letter('s', 'S') && !old.read_only ==> new == old && r == Some(UiAction::FormSave),
        key.is_letter('c', 'C') && !old.read_only ==> new == old && r == Some(UiAction::FormCancel),
        key.is_letter('n', 'N') && !old.read_only ==> new == old && r == Some(
            UiAction::NewEntryChoose,
        ),
        key.is_letter('d', 'D') && !old.read_only ==> new == old && (if old.form is Some
            && old.form->0.dn@.len() > 0 {
            r matches Some(UiAction::DeleteEntry(dn)) && dn@ == old.form->0.dn@
        } else {
            r is None
        }),
{
}

/// In the tree and the list no key without alt asks for a step: a save, a deletion or a number is never
/// asked for by mere typing.
pub proof fn typing_asks_for_nothing(
    old: App,
    new: App,
    key: KeyPress,
    checked: Seq<Seq<char>>,
    r: Option<UiAction>,
)
    requires
        dispatched(old, new, key, checked, r),
        !key.has_alt(),
    ensures
        old.focus != Pane::Form ==> r is None,
        r is Some ==> r->0 is AllocateNextNumber || (r->0 is FormCancel && key.code is Esc
            && old.composes()),
{
}

/// In the tree the arrows, `k` and `j` move over the rows; the left arrow closes a branch, or goes to
/// the one above it, and the right one opens it; Enter and space open what is closed and close what is
/// open. Nothing else of the editor changes.
pub proof fn keys_of_the_tree(old: App, new: App, key: KeyPress)
    requires
        tree_keyed(old, new, key),
    ensures
        new == (App { tree_state: new.tree_state, ..old }),
        key.code is Up || key.code == KeyCode::Char('k') ==> selected(new.tree_state) == path_above(
            old.tree_state,
        ) && opened(new.tree_state) == opened(old.tree_state),
        key.code is Down || key.code == KeyCode::Char('j') ==> selected(new.tree_state) == path_below(
            old.tree_state,
        ) && opened(new.tree_state) == opened(old.tree_state),
        key.code is Left ==> !opened(new.tree_state).contains(selected(old.tree_state)),
        key.code is Left && opened(old.tree_state).contains(selected(old.tree_state)) ==> selected(
            new.tree_state,
        ) == selected(old.tree_state),
        key.code is Left && !opened(old.tree_state).contains(selected(old.tree_state)) && selected(
            old.tree_state,
        ).len() > 0 ==> selected(new.tree_state).push(selected(old.tree_state).last()) == selected(
            old.tree_state,
        ),
        key.code is Right && selected(old.tree_state).len() > 0 ==> opened(new.tree_state).contains(
            selected(old.tree_state),
        ) && selected(new.tree_state) == selected(old.tree_state),
        (key.code is Enter || key.code == KeyCode::Char(' ')) && selected(old.tree_state).len() > 0
            ==> opened(new.tree_state).contains(selected(old.tree_state)) != opened(
            old.tree_state,
        ).contains(selected(old.tree_state)) && selected(new.tree_state) == selected(old.tree_state),
{
    let s = selected(old.tree_state);
    if s.len() > 0 {
        assert(s.drop_last().push(s.last()) =~= s);
    }
}

/// In the list the arrows move the highlight by one row and the page keys by ten, within the list;
/// every other key goes to the search box, and the rows stay.
pub proof fn keys_of_the_list(old: App, new: App, key: KeyPress)
    requires
        leaf_keyed(old, new, key),
        old.leaf_sel < old.rows@.len(),
        old.rows@.len() <= usize::MAX,
    ensures
        new.leaf_sel < new.rows@.len(),
        new.rows == old.rows && new.form == old.form && new.overlay == old.overlay,
        key.code is Up ==> new.leaf_sel == (if old.leaf_sel > 0 {
            old.leaf_sel - 1
        } else {
            0
        }) && new.search == old.search,
        key.code is Down && old.leaf_sel + 1 < old.rows@.len() ==> new.leaf_sel == old.leaf_sel + 1
            && new.search == old.search,
        key.code is Down && old.leaf_sel + 1 == old.rows@.len() ==> new.leaf_sel == old.leaf_sel,
        key.code is PageDown ==> new.leaf_sel >= old.leaf_sel && (new.leaf_sel == old.leaf_sel + 10
            || new.leaf_sel + 1 == old.rows@.len()) && new.leaf_sel <= old.leaf_sel + 10,
        key.code is PageUp ==> new.leaf_sel <= old.leaf_sel && (new.leaf_sel + 10 == old.leaf_sel
            || new.leaf_sel == 0) && new.leaf_sel + 10 >= old.leaf_sel,
        !(key.code is Up) && !(key.code is Down) && !(key.code is PageUp) && !(key.code is PageDown)
            ==> new.leaf_sel == old.leaf_sel && new.search.model() == pressed(old.search.model(), key),
{
}

/// In the form the arrows move the focus by one field and the page keys by ten, within the form, and
/// change no field.
pub proof fn arrows_move_between_fields(
    old: App,
    new: App,
    key: KeyPress,
    checked: Seq<Seq<char>>,
    r: Option<UiAction>,
)
    requires
        form_keyed(old, new, key, checked, r),
        old.form is Some,
        old.form_focus < old.form->0.fields@.len() <= usize::MAX,
        key.code is Up || key.code is Down || key.code is PageUp || key.code is PageDown,
    ensures
        r is None,
        new == (App { form_focus: new.form_focus, ..old }),
        new.form_focus < old.form->0.fields@.len(),
        key.code is Up ==> new.form_focus == (if old.form_focus > 0 {
            old.form_focus - 1
        } else {
            0
        }),
        key.code is Down && old.form_focus + 1 < old.form->0.fields@.len() ==> new.form_focus
            == old.form_focus + 1,
        key.code is Down && old.form_focus + 1 == old.form->0.fields@.len() ==> new.form_focus
            == old.form_focus,
        key.code is PageDown ==> (new.form_focus == old.form_focus + 10 || new.form_focus + 1
            == old.form->0.fields@.len()) && old.form_focus <= new.form_focus <= old.form_focus + 10,
        key.code is PageUp ==> (new.form_focus + 10 == old.form_focus || new.form_focus == 0)
            && new.form_focus <= old.form_focus <= new.form_focus + 10,
{
}

/// Typing in the form edits the focused field and no other, and only where it takes edits, holds one
/// value, and has no widget but one that fills it in.
pub proof fn typing_edits_the_focused_field(
    old: App,
    new: App,
    key: KeyPress,
    checked: Seq<Seq<char>>,
    r: Option<UiAction>,
    i: int,
)
    requires
        form_keyed(old, new, key, checked, r),
        key.code is Char || key.code is Backspace || key.code is Delete || key.code is Left
            || key.code is Right || key.code is Home || key.code is End,
        old.form is Some,
        0 <= i < old.form->0.fields@.len(),
    ensures
        r is None,
        new.form is Some && new.form->0.fields@.len() == old.form->0.fields@.len(),
        new == (App { form: new.form, ..old }),
        new.form->0.baseline == old.form->0.baseline && new.form->0.pending_password
            == old.form->0.pending_password,
        ({
            let f = old.form->0.fields@[i];
            let g = new.form->0.fields@[i];
            let typed = i == old.form_focus && f.editable && !f.multi && (f.widget_binding is None
                || f.widget_binding->0 is SambaSid || f.widget_binding->0 is NextNumber);
            &&& typed ==> g.editor.model() == pressed(f.editor.model(), key) && g.values == f.values
                && g.label == f.label && g.widget_binding == f.widget_binding
            &&& !typed ==> g == f
        }),
{
}

/// Enter on a field asks for its number where it is bound to one and blank, and otherwise opens the
/// field's popup; Esc gives up a new entry.
pub proof fn enter_and_esc_in_the_form(
    old: App,
    new: App,
    key: KeyPress,
    checked: Seq<Seq<char>>,
    r: Option<UiAction>,
)
    requires
        form_keyed(old, new, key, checked, r),
    ensures
        key.code is Esc && old.form is Some && old.form->0.mode is Create ==> new == old && r == Some(
            UiAction::FormCancel,
        ),
        key.code is Enter ==> ({
            let here = old.form is Some && old.form_focus < old.form->0.fields@.len();
            let f = old.form->0.fields@[old.form_focus as int];
            let number = here && f.widget_binding is Some && f.widget_binding->0 is NextNumber
                && f.editable && trimmed(f.editor.value@).len() == 0;
            &&& number ==> new == old && r == Some(
                UiAction::AllocateNextNumber { field_idx: old.form_focus },
            )
            &&& !number ==> r is None && editor_opened(old, new, checked)
        }),
{
}

/// A question is answered by `y` or Enter, which run exactly the step it asked about, or by `n` or
/// Esc, which run nothing; other keys leave it open. A message goes on any key.
pub proof fn questions_are_answered(
    old: App,
    new: App,
    key: KeyPress,
    visible: Seq<Candidate>,
    r: OverlayStep,
)
    requires
        overlay_keyed(old, new, key, visible, r),
        old.overlay is Some,
    ensures
        old.overlay->0 matches Overlay::Confirm { title, body, action } ==> {
            let yes = key.code is Enter || key.code == KeyCode::Char('y') || key.code == KeyCode::Char(
                'Y',
            );
            let no = key.code is Esc || key.code == KeyCode::Char('n') || key.code == KeyCode::Char(
                'N',
            );
            &&& yes ==> r == OverlayStep::Run(action) && new.overlay is None
            &&& no ==> r is Done && new.overlay is None
            &&& !yes && !no ==> r is Done && new == old
            &&& new == (App { overlay: new.overlay, ..old })
        },
        old.overlay->0 is Error ==> r is Done && new == (App { overlay: None, ..old }),
{
}

/// In the guard `s` saves first and goes on, `d` goes on without saving, `c` and Esc stay and keep the
/// edits, and no other key counts. The step that goes on is the one that was held up.
pub proof fn the_guard_is_answered(
    old: App,
    new: App,
    key: KeyPress,
    visible: Seq<Candidate>,
    r: OverlayStep,
)
    requires
        overlay_keyed(old, new, key, visible, r),
        old.overlay is Some,
        old.overlay->0 is Guard,
    ensures
        ({
            let intent = old.overlay->0->Guard_intent;
            &&& key.is_letter('s', 'S') ==> r == OverlayStep::Run(
                PendingAction::ResolveGuard { intent, save: true },
            ) && new.overlay is None
            &&& key.is_letter('d', 'D') ==> r == OverlayStep::Run(
                PendingAction::ResolveGuard { intent, save: false },
            ) && new.overlay is None
            &&& key.is_letter('c', 'C') || key.code is Esc ==> r is Done && new.overlay is None && (
            intent matches GuardIntent::Nav(target) ==> new.last_seen_leaf == target)
            &&& !key.is_letter('s', 'S') && !key.is_letter('d', 'D') && !key.is_letter('c', 'C') && !(
            key.code is Esc) ==> r is Done && new == old
        }),
        new.form == old.form && new.should_quit == old.should_quit && new.focus == old.focus,
{
}

/// In the choice of a profile the arrows, `k` and `j` move within the profiles offered, Enter opens a
/// new entry of the highlighted one, and Esc or Alt+C leave without one.
pub proof fn profiles_are_chosen(
    old: App,
    new: App,
    key: KeyPress,
    visible: Seq<Candidate>,
    r: OverlayStep,
)
    requires
        overlay_keyed(old, new, key, visible, r),
        old.overlay is Some,
        old.overlay->0 is ChooseProfile,
        old.overlay->0->sel < old.overlay->0->entries@.len() <= usize::MAX,
    ensures
        ({
            let entries = old.overlay->0->entries;
            let sel = old.overlay->0->sel;
            let up = key.code is Up || key.code == KeyCode::Char('k');
            let down = key.code is Down || key.code == KeyCode::Char('j');
            &&& key.code is Enter ==> new.overlay is None && r == OverlayStep::Run(
                PendingAction::OpenCreate { profile_idx: entries@[sel as int].0 },
            )
            &&& key.code is Esc || key.is_alt('c', 'C') ==> new.overlay is None && r is Done
            &&& up || down ==> r is Done && (new.overlay matches Some(
                Overlay::ChooseProfile { entries: e, sel: s },
            ) && e == entries && s < entries@.len() && s == (if up && sel > 0 {
                sel - 1
            } else if down && sel + 1 < entries@.len() {
                sel + 1
            } else {
                sel as int
            }))
            &&& !(key.code is Enter) ==> r is Done
        }),
        new.form == old.form,
{
}

} // verus!
