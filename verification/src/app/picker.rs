//! The popup over a field within the editor: opening it, its keys, and the search for candidates.
use std::rc::Rc;
use vstd::prelude::*;
use vstd::string::*;

use crate::app::password_editor::{focused_field, open_password_editor, popup_opened};
use crate::app::{App, Overlay};
use crate::changes::{id_after, WriteIds};
use crate::edit_form::{current, first_or_empty, EditField, EditForm};
use crate::keys::{KeyCode, KeyPress};
use crate::text::{copy_texts, has_ci, same_text, texts};
use crate::text_input::{can_press, pressed, TextInput};
use crate::value_editor::{
    dedupe_ci, deduped, every_name_is_kept, inputs, kept_rows, option_picks, picked_among, picks,
    rows_keyed, self_picks, toggled, ValueEditor,
};
use crate::widgets::{
    store_values, Candidate, Cardinality, ChoiceWidget, PickerBinding, PickerState, StoreKey,
    WidgetKind,
};

verus! {

/// What stands for the last search term when a candidate list opens: no text that can be typed,
/// so that the first look at the search box starts a search.
pub const PICKER_INIT_QUERY: &'static str = "\u{0}";

/// Whether `new` is `old` with the popup that belongs to the focused field: the password popup,
/// the options of a choice (`checked` are chosen), the candidates of a picker, edit rows for many
/// values, or nothing.
pub open spec fn editor_opened(old: App, new: App, checked: Seq<Seq<char>>) -> bool {
    match focused_field(old) {
        None => new == old,
        Some(f) => match f.widget_binding {
            Some(WidgetKind::Password(_)) => popup_opened(old, new),
            Some(WidgetKind::Choice(w)) if f.editable => {
                &&& new == (App { overlay: new.overlay, ..old })
                &&& match new.overlay {
                    Some(Overlay::ValueEditor(ve)) => choice_popup(
                        ve,
                        old.form_focus as int,
                        f,
                        w,
                        checked,
                    ),
                    _ => false,
                }
            },
            Some(WidgetKind::Picker(b)) if f.editable => {
                &&& new == (App {
                    overlay: new.overlay,
                    picker_last_query: new.picker_last_query,
                    picker_search_id: None,
                    ..old
                })
                &&& new.picker_last_query@ == PICKER_INIT_QUERY@
                &&& match new.overlay {
                    Some(Overlay::ValueEditor(ve)) => picker_popup(ve, old.form_focus as int, f, b),
                    _ => false,
                }
            },
            _ => if f.multi && f.editable {
                &&& new == (App { overlay: new.overlay, ..old })
                &&& match new.overlay {
                    Some(Overlay::ValueEditor(ve)) => rows_popup(ve, old.form_focus as int, f),
                    _ => false,
                }
            } else {
                new == old
            },
        },
    }
}

/// Whether a popup holds edit rows for the values of a field.
pub open spec fn rows_popup(ve: ValueEditor, at: int, f: EditField) -> bool {
    &&& ve.field == at
    &&& ve.label@ == f.label@
    &&& ve.ordered == f.ordered
    &&& ve.secret == f.secret
    &&& inputs(ve.rows@) == texts(f.values@).map_values(|v: Seq<char>| (v, 0int))
    &&& ve.sel == 0
    &&& ve.scroll == 0
    &&& ve.picker is None
    &&& ve.search.model() == (Seq::<char>::empty(), 0int)
    &&& ve.binding is None
    &&& ve.choice is None
    &&& ve.choice_original@.len() == 0
    &&& !ve.objectclass
}

/// Whether a popup holds no edit rows, and does not offer object classes.
pub open spec fn no_rows(ve: ValueEditor) -> bool {
    ve.rows@.len() == 0 && ve.sel == 0 && ve.scroll == 0 && !ve.objectclass
}

/// Whether a popup is the candidate list of a picker over a field.
pub open spec fn picker_popup(ve: ValueEditor, at: int, f: EditField, b: Rc<PickerBinding>) -> bool {
    &&& ve.field == at
    &&& ve.label@ == f.label@
    &&& ve.ordered == f.ordered
    &&& ve.secret == f.secret
    &&& no_rows(ve)
    &&& ve.binding == Some(b)
    &&& ve.choice is None
    &&& ve.choice_original@.len() == 0
    &&& ve.search.model() == (Seq::<char>::empty(), 0int)
    &&& ve.picker is Some
    &&& picks(ve.picker->0.selected@) == self_picks(texts(f.values@))
    &&& ve.picker->0.results@.len() == 0
    &&& ve.picker->0.cursor == 0
    &&& !ve.picker->0.search_active
    &&& !ve.picker->0.truncated
    &&& ve.picker->0.key_ci == b.store is Dn
}

/// Whether a popup offers the options of a choice over a field.
pub open spec fn choice_popup(
    ve: ValueEditor,
    at: int,
    f: EditField,
    w: Rc<ChoiceWidget>,
    checked: Seq<Seq<char>>,
) -> bool {
    &&& ve.field == at
    &&& ve.label@ == f.label@
    &&& !ve.ordered
    &&& ve.secret == f.secret
    &&& no_rows(ve)
    &&& ve.search.model() == (Seq::<char>::empty(), 0int)
    &&& ve.binding is None
    &&& ve.choice == Some(w)
    &&& ve.choice_original@ == first_or_empty(current(f))
    &&& ve.picker is Some
    &&& picks(ve.picker->0.results@) == option_picks(w.options@)
    &&& picks(ve.picker->0.selected@) == picked_among(option_picks(w.options@), checked)
    &&& ve.picker->0.cursor == 0
    &&& !ve.picker->0.search_active
    &&& !ve.picker->0.truncated
    &&& !ve.picker->0.key_ci
}

/// Opens the popup that belongs to the focused field. `checked` are the options that the field's
/// value stands for, where the field is a choice.
pub fn open_value_editor(app: &mut App, checked: &Vec<String>)
    ensures
        editor_opened(*old(app), *final(app), texts(checked@)),
{
    let focus: usize = app.form_focus;
    let mut password: bool = false;
    let mut searches: bool = false;
    let mut popup: Option<ValueEditor> = None;
    match &app.form {
        None => {},
        Some(form) => {
            if focus < form.fields.len() {
                let field: &EditField = &form.fields[focus];
                match &field.widget_binding {
                    Some(WidgetKind::Password(_)) => {
                        password = true;
                    },
                    Some(WidgetKind::Choice(w)) if field.editable => {
                        popup = Some(ValueEditor::open_choice(focus, field, w, checked));
                    },
                    Some(WidgetKind::Picker(b)) if field.editable => {
                        popup = Some(ValueEditor::open(focus, field, b));
                        searches = true;
                    },
                    _ => {
                        if field.multi && field.editable {
                            popup = Some(ValueEditor::open_plain(focus, field));
                        }
                    },
                }
            }
        },
    }
    if password {
        open_password_editor(app);
        return;
    }
    match popup {
        Some(ve) => {
            app.overlay = Some(Overlay::ValueEditor(ve));
            if searches {
                app.picker_last_query = PICKER_INIT_QUERY.to_owned();
                app.picker_search_id = None;
            }
        },
        None => {},
    }
}

/// What a key in a popup leaves to the holder of the candidate list.
pub enum EditorStep {
    /// Nothing.
    Done,
    /// Move the highlight up.
    MoveUp,
    /// Move the highlight down.
    MoveDown,
    /// Assemble the value of a choice from what it started with and the chosen options, and commit
    /// it.
    CommitChoice { checked: Vec<String> },
}

/// Whether one candidate only can be chosen: as the binding says, and where it says nothing, as
/// the field allows one value.
pub open spec fn single_pick(select: Option<Cardinality>, field_single: bool) -> bool {
    match select {
        Some(Cardinality::Single) => true,
        Some(Cardinality::Multi) => false,
        None => field_single,
    }
}

/// Whether a field exists and holds one value only.
pub open spec fn single_field(form: Option<EditForm>, at: int) -> bool {
    form is Some && at < form->0.fields@.len() && !form->0.fields@[at].multi
}

/// Whether `new` is `old` with one value.
pub open spec fn one_value_set(old: EditField, new: EditField, v: Seq<char>) -> bool {
    &&& new == (EditField { values: new.values, editor: new.editor, ..old })
    &&& new.editor.model() == (v, 0int)
    &&& texts(new.values@) == if v.len() == 0 {
        Seq::<Seq<char>>::empty()
    } else {
        seq![v]
    }
}

/// Whether `new` is `old` with the values.
pub open spec fn values_set(old: EditField, new: EditField, values: Seq<Seq<char>>) -> bool {
    new == (EditField { values: new.values, ..old }) && texts(new.values@) == values
}

/// Whether `new` is `old` up to the field at a place.
pub open spec fn only_field_differs(old: Option<EditForm>, new: Option<EditForm>, at: int) -> bool {
    match (old, new) {
        (Some(f), Some(g)) => {
            &&& g == (EditForm { fields: g.fields, ..f })
            &&& g.fields@.len() == f.fields@.len()
            &&& forall|i: int|
                0 <= i < f.fields@.len() && i != at ==> #[trigger] g.fields@[i] == f.fields@[i]
        },
        (None, None) => true,
        _ => false,
    }
}

/// Whether a form has a field at a place.
pub open spec fn has_field(form: Option<EditForm>, at: int) -> bool {
    form is Some && at < form->0.fields@.len()
}

/// The value that a single pick commits: the chosen candidate's, else the highlighted one's.
pub open spec fn picked_value(p: PickerState, visible: Seq<Candidate>) -> Seq<char> {
    if p.selected@.len() > 0 {
        p.selected@[0].store_value@
    } else if p.cursor < visible.len() {
        visible[p.cursor as int].store_value@
    } else {
        Seq::empty()
    }
}

/// Whether `new` is the form `old` with what a candidate list commits. A single pick without a value
/// commits nothing.
pub open spec fn pick_committed(
    old: Option<EditForm>,
    new: Option<EditForm>,
    ve: ValueEditor,
    visible: Seq<Candidate>,
) -> bool {
    let at = ve.field as int;
    if ve.binding is Some && ve.picker is Some && has_field(old, at) {
        if single_pick(ve.binding->0.select, single_field(old, at)) {
            let v = picked_value(ve.picker->0, visible);
            if v.len() == 0 {
                new == old
            } else {
                only_field_differs(old, new, at) && one_value_set(
                    old->0.fields@[at],
                    new->0.fields@[at],
                    v,
                )
            }
        } else {
            only_field_differs(old, new, at) && values_set(
                old->0.fields@[at],
                new->0.fields@[at],
                store_values(ve.picker->0.selected@),
            )
        }
    } else {
        new == old
    }
}

/// Whether `new` is `old` with the candidate list closed and its search forgotten.
pub open spec fn picker_closed(old: App, new: App) -> bool {
    &&& new == (App {
        overlay: None,
        picker_search_id: None,
        picker_last_query: new.picker_last_query,
        ..old
    })
    &&& new.picker_last_query@.len() == 0
}

/// Whether a popup lets one only be chosen: a choice by its own rule, a picker by its binding.
pub open spec fn popup_single(app: App, ve: ValueEditor) -> bool {
    match ve.choice {
        Some(w) => w.select == Cardinality::Single,
        None => single_pick(
            match ve.binding {
                Some(b) => b.select,
                None => None,
            },
            single_field(app.form, ve.field as int),
        ),
    }
}

/// Whether `new`, with what is left to do, is `old` after a key in a candidate list that shows
/// `visible`.
pub open spec fn picker_keyed(
    old: App,
    new: App,
    key: KeyPress,
    visible: Seq<Candidate>,
    step: EditorStep,
) -> bool {
    if key.code == KeyCode::Esc || key.is_alt('c', 'C') {
        picker_closed(old, new) && step is Done
    } else {
        match old.overlay {
            Some(Overlay::ValueEditor(ve)) => if key.is_alt('s', 'S') {
                if ve.choice is Some {
                    &&& new == old
                    &&& match step {
                        EditorStep::CommitChoice { checked } => texts(checked@) == match ve.picker {
                            Some(p) => store_values(p.selected@),
                            None => Seq::empty(),
                        },
                        _ => false,
                    }
                } else {
                    &&& step is Done
                    &&& picker_closed((App { form: new.form, ..old }), new)
                    &&& pick_committed(old.form, new.form, ve, visible)
                }
            } else if key.code == KeyCode::Enter || (key.is_alt(' ', ' ') && !popup_single(old, ve)) {
                &&& step is Done
                &&& new == (App { overlay: new.overlay, ..old })
                &&& match new.overlay {
                    Some(Overlay::ValueEditor(v)) => entered(ve, v, popup_single(old, ve), visible),
                    _ => false,
                }
            } else if key.code == KeyCode::Up {
                new == old && if ve.picker is Some {
                    step is MoveUp
                } else {
                    step is Done
                }
            } else if key.code == KeyCode::Down {
                new == old && if ve.picker is Some {
                    step is MoveDown
                } else {
                    step is Done
                }
            } else if ve.choice is Some {
                new == old && step is Done
            } else {
                &&& step is Done
                &&& new == (App { overlay: new.overlay, ..old })
                &&& match new.overlay {
                    Some(Overlay::ValueEditor(v)) => v == (ValueEditor { search: v.search, ..ve })
                        && v.search.model() == pressed(ve.search.model(), key),
                    _ => false,
                }
            },
            _ => step is Done && new == if key.is_alt('s', 'S') {
                (App { overlay: None, ..old })
            } else {
                old
            },
        }
    }
}

/// Whether `new` is `old` after the highlighted candidate was entered: as the only chosen one where
/// one only can be chosen, and otherwise chosen or dropped.
pub open spec fn entered(
    old: ValueEditor,
    new: ValueEditor,
    single: bool,
    visible: Seq<Candidate>,
) -> bool {
    match old.picker {
        Some(p) => if p.cursor < visible.len() {
            let c = visible[p.cursor as int];
            &&& new == (ValueEditor { picker: new.picker, ..old })
            &&& new.picker is Some
            &&& new.picker->0 == (PickerState { selected: new.picker->0.selected, ..p })
            &&& new.picker->0.selected@ == if single {
                seq![c]
            } else {
                toggled(p.selected@, c, p.key_ci)
            }
        } else {
            new == old
        },
        None => new == old,
    }
}

fn set_one_value(field: &mut EditField, v: &str)
    ensures
        one_value_set(*old(field), *final(field), v@),
{
    let mut values: Vec<String> = Vec::new();
    if !v.is_empty() {
        values.push(v.to_owned());
        assert(texts(values@) =~= seq![v@]);
    } else {
        assert(texts(values@) =~= Seq::<Seq<char>>::empty());
    }
    field.editor = TextInput::with_value(v.to_owned());
    field.values = values;
}

fn is_single_field(form: &Option<EditForm>, at: usize) -> (b: bool)
    ensures
        b == single_field(*form, at as int),
{
    match form {
        Some(f) => at < f.fields.len() && !f.fields[at].multi,
        None => false,
    }
}

fn is_single(select: Option<Cardinality>, field_single: bool) -> (b: bool)
    ensures
        b == single_pick(select, field_single),
{
    match select {
        Some(Cardinality::Single) => true,
        Some(Cardinality::Multi) => false,
        None => field_single,
    }
}

fn commit_pick(form: &mut Option<EditForm>, ve: &ValueEditor, visible: &Vec<Candidate>)
    ensures
        pick_committed(*old(form), *final(form), *ve, visible@),
{
    match (&ve.binding, &ve.picker) {
        (Some(binding), Some(picker)) => {
            let at: usize = ve.field;
            let single: bool = is_single(binding.select, is_single_field(form, at));
            match form {
                Some(f) => {
                    if at < f.fields.len() {
                        if single {
                            let v: String = if picker.selected.len() > 0 {
                                picker.selected[0].store_value.clone()
                            } else if picker.cursor < visible.len() {
                                visible[picker.cursor].store_value.clone()
                            } else {
                                String::new()
                            };
                            if !v.as_str().is_empty() {
                                set_one_value(&mut f.fields[at], &v);
                            }
                        } else {
                            f.fields[at].values = picker.selected_values();
                        }
                    }
                },
                None => {},
            }
        },
        _ => {},
    }
}

fn close_picker(app: &mut App)
    ensures
        picker_closed(*old(app), *final(app)),
{
    app.overlay = None;
    app.picker_search_id = None;
    app.picker_last_query = String::new();
}

/// Whether the search box of the popup, if that is open, can handle a key.
pub open spec fn search_takes_key(app: App, key: KeyPress) -> bool {
    match app.overlay {
        Some(Overlay::ValueEditor(ve)) => can_press(ve.search.model(), key),
        _ => true,
    }
}

fn commit_candidates(app: &mut App, visible: &Vec<Candidate>) -> (step: EditorStep)
    ensures
        match old(app).overlay {
            Some(Overlay::ValueEditor(ve)) => if ve.choice is Some {
                &&& *final(app) == *old(app)
                &&& match step {
                    EditorStep::CommitChoice { checked } => texts(checked@) == match ve.picker {
                        Some(p) => store_values(p.selected@),
                        None => Seq::empty(),
                    },
                    _ => false,
                }
            } else {
                &&& step is Done
                &&& picker_closed((App { form: final(app).form, ..*old(app) }), *final(app))
                &&& pick_committed(old(app).form, final(app).form, ve, visible@)
            },
            _ => step is Done && *final(app) == (App { overlay: None, ..*old(app) }),
        },
{
    let taken: Option<Overlay> = app.overlay.take();
    match taken {
        Some(Overlay::ValueEditor(ve)) => {
            if ve.choice.is_some() {
                let checked: Vec<String> = match &ve.picker {
                    Some(p) => p.selected_values(),
                    None => {
                        let none: Vec<String> = Vec::new();
                        assert(texts(none@) =~= Seq::empty());
                        none
                    },
                };
                app.overlay = Some(Overlay::ValueEditor(ve));
                EditorStep::CommitChoice { checked }
            } else {
                commit_pick(&mut app.form, &ve, visible);
                close_picker(app);
                EditorStep::Done
            }
        },
        _ => EditorStep::Done,
    }
}

fn is_popup_single(app: &App, ve: &ValueEditor) -> (b: bool)
    ensures
        b == popup_single(*app, *ve),
{
    match &ve.choice {
        Some(w) => match w.select {
            Cardinality::Single => true,
            Cardinality::Multi => false,
        },
        None => {
            let field_single: bool = is_single_field(&app.form, ve.field);
            match &ve.binding {
                Some(b) => is_single(b.select, field_single),
                None => field_single,
            }
        },
    }
}

/// Whether the popup over a field lets several be chosen.
pub open spec fn popup_multi(app: App) -> bool {
    match app.overlay {
        Some(Overlay::ValueEditor(ve)) => !popup_single(app, ve),
        _ => false,
    }
}

fn is_popup_multi(app: &App) -> (b: bool)
    ensures
        b == popup_multi(*app),
{
    match &app.overlay {
        Some(Overlay::ValueEditor(ve)) => !is_popup_single(app, ve),
        _ => false,
    }
}

fn enter_candidate(app: &mut App, visible: &Vec<Candidate>) -> (step: EditorStep)
    ensures
        match old(app).overlay {
            Some(Overlay::ValueEditor(ve)) => {
                &&& step is Done
                &&& *final(app) == (App { overlay: final(app).overlay, ..*old(app) })
                &&& match final(app).overlay {
                    Some(Overlay::ValueEditor(v)) => entered(
                        ve,
                        v,
                        popup_single(*old(app), ve),
                        visible@,
                    ),
                    _ => false,
                }
            },
            _ => step is Done && *final(app) == *old(app),
        },
{
    let single: bool = !is_popup_multi(app);
    match &mut app.overlay {
        Some(Overlay::ValueEditor(ve)) => {
            match &mut ve.picker {
                Some(p) => {
                    if p.cursor < visible.len() {
                        if single {
                            let mut chosen: Vec<Candidate> = Vec::new();
                            chosen.push(visible[p.cursor].copy());
                            assert(chosen@ =~= seq![visible@[p.cursor as int]]);
                            p.selected = chosen;
                        } else {
                            p.toggle(&visible[p.cursor]);
                        }
                    }
                },
                None => {},
            }
        },
        _ => {},
    }
    EditorStep::Done
}

/// Handles a key in a candidate list that shows `visible`. Alt+S commits what is chosen. Enter
/// chooses the highlighted candidate: alone where one only can be chosen; otherwise Enter and
/// Alt+Space choose it, or drop it where it is chosen. The arrows move the highlight; Esc and Alt+C
/// cancel; any other key edits the search box, which a choice has not.
pub fn picker_editor_key(app: &mut App, key: KeyPress, visible: &Vec<Candidate>) -> (step:
    EditorStep)
    requires
        search_takes_key(*old(app), key),
    ensures
        picker_keyed(*old(app), *final(app), key, visible@, step),
{
    if key.code == KeyCode::Esc || key.alt_letter('c', 'C') {
        close_picker(app);
        return EditorStep::Done;
    }
    if key.alt_letter('s', 'S') {
        return commit_candidates(app, visible);
    }
    if key.alt_letter(' ', ' ') && is_popup_multi(app) {
        return enter_candidate(app, visible);
    }
    match key.code {
        KeyCode::Enter => enter_candidate(app, visible),
        KeyCode::Up => match &app.overlay {
            Some(Overlay::ValueEditor(ve)) => if ve.picker.is_some() {
                EditorStep::MoveUp
            } else {
                EditorStep::Done
            },
            _ => EditorStep::Done,
        },
        KeyCode::Down => match &app.overlay {
            Some(Overlay::ValueEditor(ve)) => if ve.picker.is_some() {
                EditorStep::MoveDown
            } else {
                EditorStep::Done
            },
            _ => EditorStep::Done,
        },
        _ => {
            match &mut app.overlay {
                Some(Overlay::ValueEditor(ve)) => {
                    if ve.choice.is_none() {
                        ve.search.handle_key(key);
                    }
                },
                _ => {},
            }
            EditorStep::Done
        },
    }
}

/// Whether `new` is `old` with the assembled value of a choice committed to its field.
pub open spec fn choice_committed(old: App, new: App, value: Seq<char>) -> bool {
    &&& new == (App { overlay: None, form: new.form, ..old })
    &&& match old.overlay {
        Some(Overlay::ValueEditor(ve)) => if has_field(old.form, ve.field as int) {
            &&& only_field_differs(old.form, new.form, ve.field as int)
            &&& one_value_set(
                old.form->0.fields@[ve.field as int],
                new.form->0.fields@[ve.field as int],
                value,
            )
        } else {
            new.form == old.form
        },
        _ => new.form == old.form,
    }
}

/// Commits the assembled value of a choice to its field, and closes the popup.
pub fn commit_choice(app: &mut App, value: &str)
    ensures
        choice_committed(*old(app), *final(app), value@),
{
    let taken: Option<Overlay> = app.overlay.take();
    match taken {
        Some(Overlay::ValueEditor(ve)) => match &mut app.form {
            Some(f) => {
                if ve.field < f.fields.len() {
                    set_one_value(&mut f.fields[ve.field], value);
                }
            },
            None => {},
        },
        _ => {},
    }
}

/// Whether `new` is `old` after a key in the edit rows: Esc and Alt+C cancel, Alt+S commits the
/// rows to the field, and any other key goes to the rows.
pub open spec fn rows_popup_keyed(old: App, new: App, key: KeyPress) -> bool {
    if key.code == KeyCode::Esc || key.is_alt('c', 'C') {
        new == (App { overlay: None, ..old })
    } else {
        match old.overlay {
            Some(Overlay::ValueEditor(ve)) => if key.is_alt('s', 'S') {
                &&& new == (App { overlay: None, form: new.form, ..old })
                &&& if has_field(old.form, ve.field as int) {
                    &&& only_field_differs(old.form, new.form, ve.field as int)
                    &&& values_set(
                        old.form->0.fields@[ve.field as int],
                        new.form->0.fields@[ve.field as int],
                        kept_rows(inputs(ve.rows@)),
                    )
                } else {
                    new.form == old.form
                }
            } else {
                &&& new == (App { overlay: new.overlay, ..old })
                &&& match new.overlay {
                    Some(Overlay::ValueEditor(v)) => {
                        &&& v == (ValueEditor { rows: v.rows, sel: v.sel, ..ve })
                        &&& (inputs(v.rows@), v.sel as int) == rows_keyed(
                            inputs(ve.rows@),
                            ve.sel as int,
                            key,
                        )
                    },
                    _ => false,
                }
            },
            _ => new == if key.is_alt('s', 'S') {
                (App { overlay: None, ..old })
            } else {
                old
            },
        }
    }
}

/// Whether the popup over a field is a candidate list.
pub open spec fn is_picking(app: App) -> bool {
    match app.overlay {
        Some(Overlay::ValueEditor(ve)) => ve.picker is Some,
        _ => false,
    }
}

/// Whether the popup over a field can handle a key.
pub open spec fn popup_takes_key(app: App, key: KeyPress) -> bool {
    match app.overlay {
        Some(Overlay::ValueEditor(ve)) => if ve.picker is Some {
            can_press(ve.search.model(), key)
        } else {
            ve.rows@.len() < usize::MAX && ve.takes_key(key)
        },
        _ => true,
    }
}

/// Handles a key in the popup over a field: a candidate list has keys of its own, any other popup
/// holds edit rows.
pub fn value_editor_key(app: &mut App, key: KeyPress, visible: &Vec<Candidate>) -> (step:
    EditorStep)
    requires
        popup_takes_key(*old(app), key),
    ensures
        is_picking(*old(app)) ==> picker_keyed(*old(app), *final(app), key, visible@, step),
        !is_picking(*old(app)) ==> rows_popup_keyed(*old(app), *final(app), key) && step is Done,
{
    let picking: bool = match &app.overlay {
        Some(Overlay::ValueEditor(ve)) => ve.picker.is_some(),
        _ => false,
    };
    if picking {
        return picker_editor_key(app, key, visible);
    }
    if key.code == KeyCode::Esc || key.alt_letter('c', 'C') {
        app.overlay = None;
        return EditorStep::Done;
    }
    if key.alt_letter('s', 'S') {
        let taken: Option<Overlay> = app.overlay.take();
        match taken {
            Some(Overlay::ValueEditor(ve)) => {
                let values: Vec<String> = ve.committed_values();
                match &mut app.form {
                    Some(f) => {
                        if ve.field < f.fields.len() {
                            f.fields[ve.field].values = values;
                        }
                    },
                    None => {},
                }
            },
            _ => {},
        }
        return EditorStep::Done;
    }
    match &mut app.overlay {
        Some(Overlay::ValueEditor(ve)) => {
            ve.row_key(key);
        },
        _ => {},
    }
    EditorStep::Done
}

/// A search for candidates: its id, where it starts, the term, the attributes to read, and the
/// binding whose object classes and search attributes make up the filter.
pub struct CandidateSearch {
    pub id: u64,
    pub base: String,
    pub query: String,
    pub attrs: Vec<String>,
    pub binding: Rc<PickerBinding>,
}

/// The attributes that a candidate search reads: those of the label template, the common name, and
/// the stored attribute.
pub open spec fn search_attrs(b: PickerBinding) -> Seq<Seq<char>> {
    let label = match b.scope.label_attrs {
        Some(a) => texts(a@),
        None => Seq::empty(),
    };
    deduped(
        match b.store {
            StoreKey::Attr(a) => label.push("cn"@).push(a@),
            StoreKey::Dn => label.push("cn"@),
        },
    )
}

fn attrs_to_read(b: &PickerBinding) -> (r: Vec<String>)
    ensures
        texts(r@) == search_attrs(*b),
{
    let mut attrs: Vec<String> = match &b.scope.label_attrs {
        Some(a) => copy_texts(a),
        None => {
            let none: Vec<String> = Vec::new();
            assert(texts(none@) =~= Seq::empty());
            none
        },
    };
    let ghost a0 = attrs@;
    attrs.push("cn".to_owned());
    assert(texts(attrs@) =~= texts(a0).push("cn"@));
    let ghost a1 = attrs@;
    match &b.store {
        StoreKey::Attr(a) => {
            attrs.push(a.clone());
            assert(texts(attrs@) =~= texts(a1).push(a@));
        },
        StoreKey::Dn => {},
    }
    dedupe_ci(&mut attrs);
    attrs
}

/// The binding of an open candidate list whose search term is not the one last submitted.
pub open spec fn search_due(app: App) -> Option<Rc<PickerBinding>> {
    match app.overlay {
        Some(Overlay::ValueEditor(ve)) => if ve.picker is Some && ve.search.value@
            != app.picker_last_query@ {
            ve.binding
        } else {
            None
        },
        _ => None,
    }
}

/// The search term of an open popup.
pub open spec fn search_term(app: App) -> Seq<char> {
    match app.overlay {
        Some(Overlay::ValueEditor(ve)) => ve.search.value@,
        _ => Seq::empty(),
    }
}

/// Starts a search for candidates when the search term of an open candidate list has changed. An
/// empty term searches too, so that the list is filled when it opens.
pub fn service_picker_search(app: &mut App, ids: &mut WriteIds) -> (r: Option<CandidateSearch>)
    ensures
        match search_due(*old(app)) {
            None => r is None && *final(app) == *old(app) && *final(ids) == *old(ids),
            Some(b) => {
                &&& r is Some
                &&& r->0.id == old(ids).next
                &&& r->0.base@ == b.scope.base@
                &&& r->0.query@ == search_term(*old(app))
                &&& texts(r->0.attrs@) == search_attrs(*b)
                &&& r->0.binding == b
                &&& *final(app) == (App {
                    picker_last_query: final(app).picker_last_query,
                    picker_search_id: Some(old(ids).next),
                    ..*old(app)
                })
                &&& final(app).picker_last_query@ == search_term(*old(app))
                &&& final(ids).next == id_after(old(ids).next)
            },
        },
{
    let found: Option<(Rc<PickerBinding>, String)> = match &app.overlay {
        Some(Overlay::ValueEditor(ve)) => match &ve.binding {
            Some(b) => if ve.picker.is_some() && !same_text(
                ve.search.value(),
                &app.picker_last_query,
            ) {
                Some((b.clone(), ve.search.value.clone()))
            } else {
                None
            },
            None => None,
        },
        _ => None,
    };
    match found {
        None => None,
        Some((binding, query)) => {
            app.picker_last_query = query.clone();
            let attrs: Vec<String> = attrs_to_read(&binding);
            let id: u64 = ids.next_id();
            app.picker_search_id = Some(id);
            Some(CandidateSearch { id, base: binding.scope.base.clone(), query, attrs, binding })
        },
    }
}

/// One candidate only can be chosen where the binding says so; where it says nothing, the field decides.
pub proof fn bindings_decide_how_many(select: Option<Cardinality>, field_single: bool)
    ensures
        select == Some(Cardinality::Single) ==> single_pick(select, field_single),
        select == Some(Cardinality::Multi) ==> !single_pick(select, field_single),
        select is None ==> single_pick(select, field_single) == field_single,
{
}

/// What a list of candidates commits to its field, and to no other: where several can be chosen, all
/// that are, in order; where one only can be, the chosen one, or the highlighted one without a choice;
/// and without either the field keeps what it has.
pub proof fn picks_are_committed(
    old: App,
    new: App,
    key: KeyPress,
    visible: Seq<Candidate>,
    step: EditorStep,
    i: int,
)
    requires
        picker_keyed(old, new, key, visible, step),
        key.is_alt('s', 'S'),
        !(key.code is Esc),
        old.overlay is Some,
        old.overlay->0 is ValueEditor,
        old.overlay->0->ValueEditor_0.choice is None,
        old.overlay->0->ValueEditor_0.binding is Some,
        old.overlay->0->ValueEditor_0.picker is Some,
        old.form is Some,
        0 <= i < old.form->0.fields@.len(),
        old.overlay->0->ValueEditor_0.field < old.form->0.fields@.len(),
    ensures
        step is Done && new.overlay is None && new.picker_search_id is None,
        new.form is Some && new.form->0.fields@.len() == old.form->0.fields@.len(),
        new.form->0.baseline == old.form->0.baseline && new.form->0.dn == old.form->0.dn,
        ({
            let ve = old.overlay->0->ValueEditor_0;
            let p = ve.picker->0;
            let f = old.form->0.fields@[i];
            let g = new.form->0.fields@[i];
            let one = match ve.binding->0.select {
                Some(Cardinality::Single) => true,
                Some(Cardinality::Multi) => false,
                None => !f.multi,
            };
            &&& i != ve.field ==> g == f
            &&& g.label == f.label && g.widget_binding == f.widget_binding && g.editable == f.editable
            &&& i == ve.field && !one ==> g.values@.len() == p.selected@.len() && forall|k: int|
                0 <= k < p.selected@.len() ==> (#[trigger] g.values@[k])@
                    == p.selected@[k].store_value@
            &&& i == ve.field && one && p.selected@.len() > 0 && p.selected@[0].store_value@.len() > 0
                ==> g.values@.len() == 1 && g.values@[0]@ == p.selected@[0].store_value@
                && g.editor.value@ == p.selected@[0].store_value@
            &&& i == ve.field && one && p.selected@.len() == 0 && p.cursor < visible.len()
                && visible[p.cursor as int].store_value@.len() > 0 ==> g.values@.len() == 1
                && g.values@[0]@ == visible[p.cursor as int].store_value@ && g.editor.value@
                == visible[p.cursor as int].store_value@
            &&& i == ve.field && one && p.selected@.len() == 0 && p.cursor >= visible.len() ==> g == f
        }),
{
    let ve = old.overlay->0->ValueEditor_0;
    let p = ve.picker->0;
    let g = new.form->0.fields@[i];
    assert(pick_committed(old.form, new.form, ve, visible));
    if i == ve.field {
        assert(texts(g.values@).len() == g.values@.len());
        assert(store_values(p.selected@).len() == p.selected@.len());
        if texts(g.values@) == store_values(p.selected@) {
            assert forall|k: int| 0 <= k < p.selected@.len() implies (#[trigger] g.values@[k])@
                == p.selected@[k].store_value@ by {
                assert(texts(g.values@)[k] == g.values@[k]@);
                assert(store_values(p.selected@)[k] == p.selected@[k].store_value@);
            }
        }
        if g.values@.len() == 1 {
            assert(texts(g.values@)[0] == g.values@[0]@);
        }
    }
}

/// Esc and Alt+C close a list of candidates and leave the form and what it holds alone.
pub proof fn cancelled_picks_change_nothing(
    old: App,
    new: App,
    key: KeyPress,
    visible: Seq<Candidate>,
    step: EditorStep,
)
    requires
        picker_keyed(old, new, key, visible, step),
        key.code is Esc || key.is_alt('c', 'C'),
    ensures
        new.form == old.form && new.overlay is None && step is Done && new.picker_search_id is None,
{
}

/// Enter chooses the highlighted candidate: alone where one only can be chosen, and otherwise added to
/// the chosen ones, or dropped where it is one. What the list shows, its highlight and the form stay.
pub proof fn enter_chooses_the_highlighted(
    old: App,
    new: App,
    key: KeyPress,
    visible: Seq<Candidate>,
    step: EditorStep,
)
    requires
        picker_keyed(old, new, key, visible, step),
        key.code is Enter,
        old.overlay is Some,
        old.overlay->0 is ValueEditor,
        old.overlay->0->ValueEditor_0.picker is Some,
        old.overlay->0->ValueEditor_0.picker->0.cursor < visible.len(),
    ensures
        step is Done && new.form == old.form,
        ({
            let ve = old.overlay->0->ValueEditor_0;
            let p = ve.picker->0;
            let c = visible[p.cursor as int];
            &&& new.overlay matches Some(Overlay::ValueEditor(v)) && v.picker is Some && v.field
                == ve.field && v.picker->0.results == p.results && v.picker->0.cursor == p.cursor && (
            if popup_single(old, ve) {
                v.picker->0.selected@.len() == 1 && v.picker->0.selected@[0] == c
            } else {
                v.picker->0.selected@ == toggled(p.selected@, c, p.key_ci)
            })
        }),
{
}

/// The arrows move the highlight only; typing goes to the search box of a picker, and is lost on a
/// choice. Nothing of it is committed.
pub proof fn typing_searches_candidates(
    old: App,
    new: App,
    key: KeyPress,
    visible: Seq<Candidate>,
    step: EditorStep,
)
    requires
        picker_keyed(old, new, key, visible, step),
        old.overlay is Some,
        old.overlay->0 is ValueEditor,
        old.overlay->0->ValueEditor_0.picker is Some,
        !key.has_alt(),
    ensures
        new.form == old.form || key.code is Esc,
        key.code is Up ==> new == old && step is MoveUp,
        key.code is Down ==> new == old && step is MoveDown,
        key.code is Char && old.overlay->0->ValueEditor_0.choice is Some ==> new == old && step is Done,
        key.code is Char && old.overlay->0->ValueEditor_0.choice is None ==> step is Done && (
        new.overlay matches Some(Overlay::ValueEditor(v)) && v.picker
            == old.overlay->0->ValueEditor_0.picker && v.search.model() == pressed(
            old.overlay->0->ValueEditor_0.search.model(),
            key,
        )),
{
}

/// A choice hands what is chosen, in order, to be put together, and what comes of it is then the value
/// of its field; an empty one clears it.
pub proof fn choices_are_committed(old: App, new: App, value: Seq<char>, i: int)
    requires
        choice_committed(old, new, value),
        old.overlay is Some,
        old.overlay->0 is ValueEditor,
        old.form is Some,
        old.overlay->0->ValueEditor_0.field < old.form->0.fields@.len(),
        0 <= i < old.form->0.fields@.len(),
    ensures
        new.overlay is None && new.form is Some,
        new.form->0.fields@.len() == old.form->0.fields@.len(),
        i != old.overlay->0->ValueEditor_0.field ==> new.form->0.fields@[i] == old.form->0.fields@[i],
        i == old.overlay->0->ValueEditor_0.field ==> new.form->0.fields@[i].editor.value@ == value
            && new.form->0.fields@[i].label == old.form->0.fields@[i].label && (value.len() == 0
            ==> new.form->0.fields@[i].values@.len() == 0) && (value.len() > 0
            ==> new.form->0.fields@[i].values@.len() == 1 && new.form->0.fields@[i].values@[0]@
            == value),
{
    if i == old.overlay->0->ValueEditor_0.field {
        let g = new.form->0.fields@[i];
        assert(texts(g.values@).len() == g.values@.len());
        if value.len() > 0 {
            assert(texts(g.values@)[0] == g.values@[0]@);
        }
    }
}

/// The chosen options of a choice are handed on as they were chosen.
pub proof fn chosen_options_are_handed_on(
    old: App,
    new: App,
    key: KeyPress,
    visible: Seq<Candidate>,
    step: EditorStep,
)
    requires
        picker_keyed(old, new, key, visible, step),
        key.is_alt('s', 'S'),
        !(key.code is Esc),
        old.overlay is Some,
        old.overlay->0 is ValueEditor,
        old.overlay->0->ValueEditor_0.choice is Some,
        old.overlay->0->ValueEditor_0.picker is Some,
    ensures
        new == old,
        step matches EditorStep::CommitChoice { checked } && checked@.len()
            == old.overlay->0->ValueEditor_0.picker->0.selected@.len() && forall|k: int|
            0 <= k < checked@.len() ==> (#[trigger] checked@[k])@
                == old.overlay->0->ValueEditor_0.picker->0.selected@[k].store_value@,
{
    let sel = old.overlay->0->ValueEditor_0.picker->0.selected@;
    let checked = step->checked@;
    assert(texts(checked) == store_values(sel));
    assert(texts(checked).len() == checked.len());
    assert(store_values(sel).len() == sel.len());
    assert forall|k: int| 0 <= k < checked.len() implies (#[trigger] checked[k])@
        == sel[k].store_value@ by {
        assert(texts(checked)[k] == checked[k]@);
        assert(store_values(sel)[k] == sel[k].store_value@);
    }
}

/// The edit rows of a popup become the values of its field on Alt+S, without the blank ones; Esc and
/// Alt+C close it and leave the field alone.
pub proof fn rows_are_committed(old: App, new: App, key: KeyPress, i: int)
    requires
        rows_popup_keyed(old, new, key),
        old.overlay is Some,
        old.overlay->0 is ValueEditor,
        old.form is Some,
        old.overlay->0->ValueEditor_0.field < old.form->0.fields@.len(),
        0 <= i < old.form->0.fields@.len(),
    ensures
        key.code is Esc || key.is_alt('c', 'C') ==> new.form == old.form && new.overlay is None,
        key.is_alt('s', 'S') && !(key.code is Esc) ==> new.overlay is None && new.form is Some
            && new.form->0.fields@.len() == old.form->0.fields@.len() && (if i
            == old.overlay->0->ValueEditor_0.field {
            texts(new.form->0.fields@[i].values@) == kept_rows(
                inputs(old.overlay->0->ValueEditor_0.rows@),
            ) && new.form->0.fields@[i].label == old.form->0.fields@[i].label
        } else {
            new.form->0.fields@[i] == old.form->0.fields@[i]
        }),
        !(key.code is Esc) && !key.is_alt('c', 'C') && !key.is_alt('s', 'S') ==> new.form == old.form
            && (new.overlay matches Some(Overlay::ValueEditor(v)) && v.field
            == old.overlay->0->ValueEditor_0.field),
{
}

/// The popup of a field holds what the field holds: edit rows one for each value, a picker each value
/// as chosen, a choice its options with those chosen that the value stands for.
pub proof fn popups_show_the_field(old: App, new: App, checked: Seq<Seq<char>>)
    requires
        editor_opened(old, new, checked),
        old.form is Some,
        old.form_focus < old.form->0.fields@.len(),
    ensures
        new.form == old.form && new.focus == old.focus,
        ({
            let f = old.form->0.fields@[old.form_focus as int];
            let plain = f.widget_binding is None || !(f.widget_binding->0 is Password
                || f.widget_binding->0 is Choice || f.widget_binding->0 is Picker);
            &&& plain && f.multi && f.editable ==> (new.overlay matches Some(
                Overlay::ValueEditor(ve),
            ) && ve.field == old.form_focus && ve.picker is None && ve.rows@.len() == f.values@.len()
                && forall|k: int|
                0 <= k < f.values@.len() ==> (#[trigger] ve.rows@[k]).value@ == f.values@[k]@)
            &&& plain && !(f.multi && f.editable) ==> new == old
            &&& f.widget_binding is Some && f.widget_binding->0 is Picker && f.editable ==> (
            new.overlay matches Some(Overlay::ValueEditor(ve)) && ve.field == old.form_focus
                && ve.picker is Some && ve.binding == Some(f.widget_binding->0->Picker_0)
                && ve.rows@.len() == 0 && ve.picker->0.results@.len() == 0 && ve.search.value@.len()
                == 0 && picks(ve.picker->0.selected@) == self_picks(texts(f.values@)))
            &&& f.widget_binding is Some && f.widget_binding->0 is Choice && f.editable ==> (
            new.overlay matches Some(Overlay::ValueEditor(ve)) && ve.field == old.form_focus
                && ve.picker is Some && ve.choice == Some(f.widget_binding->0->Choice_0)
                && ve.binding is None && picks(ve.picker->0.results@) == option_picks(
                f.widget_binding->0->Choice_0.options@,
            ) && picks(ve.picker->0.selected@) == picked_among(
                option_picks(f.widget_binding->0->Choice_0.options@),
                checked,
            ))
            &&& f.widget_binding is Some && (f.widget_binding->0 is Picker
                || f.widget_binding->0 is Choice) && !f.editable && !f.multi ==> new == old
        }),
{
    let f = old.form->0.fields@[old.form_focus as int];
    if let Some(Overlay::ValueEditor(ve)) = new.overlay {
        let goal = texts(f.values@).map_values(|v: Seq<char>| (v, 0int));
        assert(inputs(ve.rows@).len() == ve.rows@.len());
        assert(goal.len() == f.values@.len());
        if inputs(ve.rows@) == goal {
            assert forall|k: int| 0 <= k < f.values@.len() implies (#[trigger] ve.rows@[k]).value@
                == f.values@[k]@ by {
                assert(inputs(ve.rows@)[k] == ve.rows@[k].model());
                assert(goal[k] == (f.values@[k]@, 0int));
            }
        }
    }
}

/// A search is due exactly when a picker's list is open whose text differs from what was last searched
/// for. It asks for the common name and for what is stored or shown of a candidate.
pub proof fn searches_follow_the_search_box(app: App, b: PickerBinding)
    ensures
        search_due(app) is Some <==> (app.overlay matches Some(Overlay::ValueEditor(ve))
            && ve.picker is Some && ve.binding is Some && ve.search.value@ != app.picker_last_query@),
        search_due(app) is Some ==> (app.overlay matches Some(Overlay::ValueEditor(ve)) && search_due(
            app,
        ) == ve.binding && search_term(app) == ve.search.value@),
        has_ci(search_attrs(b), "cn"@),
        b.store matches StoreKey::Attr(a) ==> a@.len() > 0 ==> has_ci(search_attrs(b), a@),
{
    reveal_strlit("cn");
    let label = match b.scope.label_attrs {
        Some(a) => texts(a@),
        None => Seq::empty(),
    };
    let all = match b.store {
        StoreKey::Attr(a) => label.push("cn"@).push(a@),
        StoreKey::Dn => label.push("cn"@),
    };
    assert(all[label.len() as int] == "cn"@);
    assert(all.contains("cn"@));
    every_name_is_kept(all, "cn"@);
    if let StoreKey::Attr(a) = b.store {
        assert(all[label.len() as int + 1] == a@);
        assert(all.contains(a@));
        if a@.len() > 0 {
            every_name_is_kept(all, a@);
        }
    }
}



/// Every popup opens fresh over its field: under the field's label, at the top, with nothing searched
/// for. Edit rows keep the field's order and its secrecy, and belong to no widget; a picker keeps them
/// too and compares names in any letter case; a choice remembers what the field held.
pub proof fn popups_open_fresh(
    ve: ValueEditor,
    at: int,
    f: EditField,
    b: Rc<PickerBinding>,
    w: Rc<ChoiceWidget>,
    checked: Seq<Seq<char>>,
)
    requires
        rows_popup(ve, at, f) || picker_popup(ve, at, f, b) || choice_popup(ve, at, f, w, checked),
    ensures
        ve.field == at && ve.label@ == f.label@ && ve.secret == f.secret,
        ve.sel == 0 && ve.scroll == 0 && ve.search.value@.len() == 0 && ve.search.model().1 == 0,
        !ve.objectclass,
        ve.picker matches Some(p) ==> p.cursor == 0 && !p.search_active && !p.truncated && ve.rows@.len()
            == 0,
        rows_popup(ve, at, f) ==> ve.picker is None && ve.binding is None && ve.choice is None
            && ve.ordered == f.ordered && ve.choice_original@.len() == 0,
        picker_popup(ve, at, f, b) ==> ve.picker is Some && ve.binding == Some(b) && ve.choice is None
            && ve.ordered == f.ordered && (ve.picker->0.key_ci <==> b.store is Dn)
            && ve.picker->0.results@.len() == 0 && ve.choice_original@.len() == 0,
        choice_popup(ve, at, f, w, checked) ==> ve.picker is Some && ve.binding is None && ve.choice
            == Some(w) && !ve.ordered && !ve.picker->0.key_ci && ve.choice_original@ == (if current(
            f,
        ).len() > 0 {
            current(f)[0]
        } else {
            Seq::<char>::empty()
        }),
{
}

} // verus!
