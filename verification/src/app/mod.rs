//! The three-pane editor: its state, and the steps between its panes.
pub mod action;
pub mod combined;
pub mod create;
pub mod creation;
pub mod input;
pub mod password_editor;
pub mod picker;
pub mod response;
pub mod save;
pub mod typed;

use tui_tree_widget::TreeState;
use vstd::prelude::*;
use vstd::string::*;

use crate::attrs::{first_ci, first_ci_found, values_ci, values_or_none, AttrMap};
use crate::changes::{ModOp, SavePlan};
use crate::edit_form::{
    current, dirty, field_changed, first_or_empty, first_value, same_values_is_symmetric,
    shown_as_is, EditField, EditForm,
};
use crate::text::{copy_texts, eq_ignore_case, same_ci, texts};
use crate::text_input::TextInput;
use crate::value_editor::ValueEditor;
use crate::widgets::ResolvedWidget;

verus! {

/// A pane of the editor.
#[derive(Clone, Copy, PartialEq, Eq, Debug, Structural)]
pub enum Pane {
    /// The branch tree.
    Tree,
    /// The list of entries with its search box.
    Leaf,
    /// The edit form.
    Form,
}

/// What a guard over unsaved edits holds up.
pub enum GuardIntent {
    /// Moving the form to an entry, or clearing it.
    Nav(Option<String>),
    /// Moving the focus to a pane.
    Focus(Pane),
    /// Leaving the program.
    Quit,
}

/// What a confirmed dialog or a resolved guard leads to.
pub enum PendingAction {
    /// Submit a save plan for `dn`; `nav` is where the form goes after the write.
    Save { plan: SavePlan, dn: String, nav: Option<String> },
    /// Add a new entry.
    Create { dn: String, attrs: AttrMap, parent: String },
    /// Delete an entry.
    Delete { dn: String },
    /// Open a form for a new entry of a profile.
    OpenCreate { profile_idx: usize },
    /// Go on with what a guard held up, with or without saving first.
    ResolveGuard { intent: GuardIntent, save: bool },
    /// Write an entry's own changes and those of its groups; then go on with what a guard held up.
    CombinedSave {
        entry_dn: String,
        own_mods: Vec<ModOp>,
        fanout: Vec<(String, ModOp)>,
        then_intent: Option<GuardIntent>,
    },
}

/// The row of the password popup that has the focus.
#[derive(Debug, PartialEq, Eq, Clone, Copy, Structural)]
pub enum PwField {
    New,
    Confirm,
}

/// The popup that sets a password: two masked rows, the attributes it will change, and a message.
pub struct PasswordEditor {
    pub new: TextInput,
    pub confirm: TextInput,
    pub focus: PwField,
    pub affected: Vec<String>,
    pub message: String,
}

/// A dialog on top of the panes; it takes all keys.
pub enum Overlay {
    /// A question with the step that a yes leads to.
    Confirm { title: String, body: String, action: PendingAction },
    /// A message that any key dismisses.
    Error { text: String },
    /// The popup over a field.
    ValueEditor(ValueEditor),
    /// The popup that sets a password.
    PasswordEditor(PasswordEditor),
    /// The guard over unsaved edits.
    Guard { intent: GuardIntent },
    /// The choice of a profile for a new entry: the profiles offered, by number and name.
    ChooseProfile { entries: Vec<(usize, String)>, sel: usize },
}

/// A step that a key asks for and that needs the directory or the schema.
#[derive(Debug)]
pub enum UiAction {
    FormSave,
    FormCancel,
    NewEntry(usize),
    NewEntryChoose,
    DeleteEntry(String),
    Refresh,
    AllocateNextNumber { field_idx: usize },
    Nothing,
}

/// The state of the editor.
pub struct App {
    pub focus: Pane,
    pub should_quit: bool,
    /// Whether nothing may be written.
    pub read_only: bool,
    /// Whether the connection to the directory is encrypted.
    pub connection_encrypted: bool,
    pub tree_state: TreeState<String>,
    /// The branch whose entries are listed.
    pub current_branch: String,
    /// The search text that the rows answer.
    pub last_search: String,
    /// The listed entries: label and name.
    pub rows: Vec<(String, String)>,
    /// The highlighted row.
    pub leaf_sel: usize,
    pub search: TextInput,
    /// The name of the entry that the form shows or waits for.
    pub last_seen_leaf: Option<String>,
    pub form: Option<EditForm>,
    /// The field that has the focus.
    pub form_focus: usize,
    /// The first field on screen.
    pub form_scroll: usize,
    pub overlay: Option<Overlay>,
    pub status: String,
    pub widgets: Vec<ResolvedWidget>,
    /// The id of the candidate search under way.
    pub picker_search_id: Option<u64>,
    /// The search term last submitted for candidates.
    pub picker_last_query: String,
}

impl App {
    /// Whether the form holds unsaved edits.
    pub open spec fn has_edits(self) -> bool {
        self.form is Some && dirty(self.form->0)
    }

    /// Whether the form composes a new entry.
    pub open spec fn composes(self) -> bool {
        self.form is Some && self.form->0.composes()
    }

    /// Whether the form composes a new entry.
    pub fn composing(&self) -> (b: bool)
        ensures
            b == self.composes(),
    {
        match &self.form {
            Some(f) => f.is_new(),
            None => false,
        }
    }
}

/// Opens the guard over unsaved edits, if there are any, and tells whether it did.
pub fn guard_if_dirty(app: &mut App, intent: GuardIntent) -> (r: bool)
    ensures
        r == old(app).has_edits(),
        r ==> *final(app) == (App { overlay: Some(Overlay::Guard { intent }), ..*old(app) }),
        !r ==> *final(app) == *old(app),
{
    let is_dirty: bool = match &app.form {
        Some(f) => f.is_dirty(),
        None => false,
    };
    if is_dirty {
        app.overlay = Some(Overlay::Guard { intent });
    }
    is_dirty
}

/// The object classes of a form's entry, as the directory had them.
pub fn object_classes_of(form: &EditForm) -> (r: Vec<String>)
    ensures
        texts(r@) == object_classes(*form),
{
    match form.baseline.get_ci("objectClass") {
        Some(v) => copy_texts(v),
        None => {
            let r: Vec<String> = Vec::new();
            assert(texts(r@) =~= Seq::empty());
            r
        },
    }
}

/// The object classes of a form's entry, as the directory had them.
pub open spec fn object_classes(form: EditForm) -> Seq<Seq<char>> {
    match values_ci(form.baseline@, "objectClass"@) {
        Some(v) => v,
        None => Seq::empty(),
    }
}

/// Whether an entry just read may take the place of the form: it is the one that the user is on,
/// no dialog is open, and no new entry is being composed.
pub fn should_install_form(app: &App, title: &str) -> (r: bool)
    ensures
        r == can_install(*app, title@),
{
    let awaited: bool = match &app.last_seen_leaf {
        Some(dn) => eq_ignore_case(dn, title),
        None => false,
    };
    awaited && app.overlay.is_none() && !app.composing()
}

/// Whether an entry just read may take the place of the form.
pub open spec fn can_install(app: App, title: Seq<char>) -> bool {
    &&& app.last_seen_leaf is Some && same_ci(app.last_seen_leaf->0@, title)
    &&& app.overlay is None
    &&& !app.composes()
}

/// A field with the values that the directory had.
pub open spec fn field_reverted(old: EditField, new: EditField, base: Seq<Seq<char>>) -> bool {
    &&& new == (EditField { values: new.values, editor: new.editor, ..old })
    &&& texts(new.values@) == base
    &&& new.editor.model() == (first_or_empty(base), 0int)
}

/// A form with every field as the directory had it, and no password waiting.
pub open spec fn form_reverted(old: EditForm, new: EditForm) -> bool {
    &&& new == (EditForm { fields: new.fields, pending_password: None, ..old })
    &&& new.fields@.len() == old.fields@.len()
    &&& forall|i: int|
        0 <= i < old.fields@.len() ==> field_reverted(
            old.fields@[i],
            #[trigger] new.fields@[i],
            values_or_none(old.baseline@, old.fields@[i].label@),
        )
}

fn revert_fields(form: &mut EditForm)
    ensures
        form_reverted(*old(form), *final(form)),
{
    let ghost start = *form;
    form.pending_password = None;
    let mut i: usize = 0;
    while i < form.fields.len()
        invariant
            i <= form.fields@.len(),
            form.fields@.len() == start.fields@.len(),
            *form == (EditForm { fields: form.fields, pending_password: None, ..start }),
            forall|j: int|
                0 <= j < i ==> field_reverted(
                    start.fields@[j],
                    #[trigger] form.fields@[j],
                    values_or_none(start.baseline@, start.fields@[j].label@),
                ),
            forall|j: int| i <= j < start.fields@.len() ==> form.fields@[j] == #[trigger] start.fields@[j],
        decreases form.fields@.len() - i,
    {
        let base: Vec<String> = form.baseline.get_or_none(&form.fields[i].label);
        let first: String = first_value(&base);
        form.fields[i].editor = TextInput::with_value(first);
        form.fields[i].values = base;
        i += 1;
    }
}

/// Whether `new` is `old` with its edits given up: a form that composes a new entry is dropped,
/// and any other has every field as the directory had it.
pub open spec fn reverted(old: App, new: App) -> bool {
    match old.form {
        None => new == old,
        Some(f) => if f.composes() {
            &&& new == (App {
                form: None,
                form_focus: 0,
                form_scroll: 0,
                status: new.status,
                last_seen_leaf: None,
                ..old
            })
            &&& new.status@.len() == 0
        } else {
            &&& new == (App { form: new.form, status: new.status, ..old })
            &&& new.form is Some
            &&& form_reverted(f, new.form->0)
            &&& new.status@ == "Reverted."@
        },
    }
}

/// Gives up the edits of the form. A form that composes a new entry is dropped, and the selected
/// entry will be read again.
pub fn revert_form(app: &mut App)
    ensures
        reverted(*old(app), *final(app)),
{
    if app.composing() {
        app.form = None;
        app.form_focus = 0;
        app.form_scroll = 0;
        app.status = String::new();
        app.last_seen_leaf = None;
        return;
    }
    let mut done: bool = false;
    match &mut app.form {
        Some(form) => {
            revert_fields(form);
            done = true;
        },
        None => {},
    }
    if done {
        app.status = "Reverted.".to_owned();
    }
}

/// A reverted form holds no unsaved edits, as long as no field is orphaned and the single values
/// show as they are.
pub proof fn reverted_form_is_clean(old: EditForm, new: EditForm)
    requires
        form_reverted(old, new),
        forall|i: int| 0 <= i < new.fields@.len() ==> !(#[trigger] new.fields@[i]).orphaned,
        forall|i: int| 0 <= i < new.fields@.len() ==> shown_as_is(#[trigger] new.fields@[i]),
    ensures
        !dirty(new),
{
    assert forall|i: int| 0 <= i < new.fields@.len() implies !field_changed(
        #[trigger] new.fields@[i],
        new.baseline@,
    ) by {
        let f = new.fields@[i];
        let base = values_or_none(old.baseline@, old.fields@[i].label@);
        assert(field_reverted(old.fields@[i], f, base));
        assert(shown_as_is(f));
        assert(!f.orphaned);
        if !f.multi && f.editable && base.len() == 0 {
            assert(crate::text::trimmed(Seq::<char>::empty()) =~= Seq::<char>::empty());
        }
        assert(current(f) =~= base);
        same_values_is_symmetric(base, base);
    }
}

/// Whether `new` is `old` with the awaited entry, and the highlighted row, renamed to `dn`.
pub open spec fn rebound(old: App, new: App, dn: Seq<char>) -> bool {
    &&& new == (App { last_seen_leaf: new.last_seen_leaf, rows: new.rows, ..old })
    &&& new.last_seen_leaf is Some && new.last_seen_leaf->0@ == dn
    &&& new.rows@.len() == old.rows@.len()
    &&& forall|i: int|
        0 <= i < old.rows@.len() && i != old.leaf_sel ==> #[trigger] new.rows@[i] == old.rows@[i]
    &&& old.leaf_sel < old.rows@.len() ==> new.rows@[old.leaf_sel as int].0
        == old.rows@[old.leaf_sel as int].0 && new.rows@[old.leaf_sel as int].1@ == dn
}

/// Points the awaited entry and the highlighted row at `dn`, the name that an entry has after a
/// save.
pub fn rebind_selection(app: &mut App, dn: &str)
    ensures
        rebound(*old(app), *final(app), dn@),
{
    app.last_seen_leaf = Some(dn.to_owned());
    let sel: usize = app.leaf_sel;
    if sel < app.rows.len() {
        app.rows[sel].1 = dn.to_owned();
    }
}

/// Whether `new` is `old` on the way to `target`: a form that composes a new entry is dropped, and
/// without a target every form is.
pub open spec fn navigated(old: App, new: App, target: Option<String>) -> bool {
    &&& new == (App { form: new.form, last_seen_leaf: new.last_seen_leaf, ..old })
    &&& same_target(new.last_seen_leaf, target)
    &&& new.form == if target is None || old.composes() {
        None
    } else {
        old.form
    }
}

/// Whether two optional names are the same.
pub open spec fn same_target(a: Option<String>, b: Option<String>) -> bool {
    match (a, b) {
        (Some(x), Some(y)) => x@ == y@,
        (None, None) => true,
        _ => false,
    }
}

/// Moves the form to `target`, or clears it, and gives back the name of the entry to read.
pub fn navigate_to(app: &mut App, target: Option<String>) -> (read: Option<String>)
    ensures
        navigated(*old(app), *final(app), target),
        read == target,
{
    if app.composing() {
        app.form = None;
    }
    match &target {
        Some(dn) => {
            app.last_seen_leaf = Some(dn.clone());
        },
        None => {
            app.last_seen_leaf = None;
            app.form = None;
        },
    }
    target
}

/// Whether `new` is `old` after a guard's step was taken without saving, with `read` the entry to
/// read.
pub open spec fn intent_done(old: App, new: App, intent: GuardIntent, read: Option<String>) -> bool {
    match intent {
        GuardIntent::Nav(target) => navigated(old, new, target) && read == target,
        GuardIntent::Focus(pane) => {
            &&& read is None
            &&& new.focus == pane
            &&& reverted(old, (App { focus: old.focus, ..new }))
        },
        GuardIntent::Quit => read is None && new == (App { should_quit: true, ..old }),
    }
}

/// Takes a guard's step without saving: moves the form, moves the focus (the edits are given up),
/// or quits. Gives back the name of the entry to read.
pub fn perform_guard_intent(app: &mut App, intent: GuardIntent) -> (read: Option<String>)
    ensures
        intent_done(*old(app), *final(app), intent, read),
{
    match intent {
        GuardIntent::Nav(target) => navigate_to(app, target),
        GuardIntent::Focus(pane) => {
            revert_form(app);
            let ghost mid = *app;
            app.focus = pane;
            assert((App { focus: mid.focus, ..*app }) == mid);
            None
        },
        GuardIntent::Quit => {
            app.should_quit = true;
            None
        },
    }
}

/// The form holds unsaved edits exactly when there is one and it does; it composes a new entry exactly
/// when it was made for one.
pub proof fn edits_are_those_of_the_form(app: App)
    ensures
        app.has_edits() <==> (app.form matches Some(f) && dirty(f)),
        app.composes() <==> (app.form matches Some(f) && f.mode is Create),
{
}

/// The object classes of a form's entry are those that the directory gave under that name, in any
/// letter case, and none where it gave none.
pub proof fn object_classes_are_the_directorys(form: EditForm, i: int)
    ensures
        0 <= i < form.baseline@.len() && same_ci(form.baseline@[i].0, "objectClass"@) && (forall|j: int|
            0 <= j < i ==> !same_ci((#[trigger] form.baseline@[j]).0, "objectClass"@))
            ==> object_classes(form) == form.baseline@[i].1,
        (forall|j: int|
            0 <= j < form.baseline@.len() ==> !same_ci(
                (#[trigger] form.baseline@[j]).0,
                "objectClass"@,
            )) ==> object_classes(form).len() == 0,
{
    first_ci_found(form.baseline@, "objectClass"@);
    match first_ci(form.baseline@, "objectClass"@) {
        Some(k) => {
            assert(same_ci(form.baseline@[k].0, "objectClass"@));
        },
        None => {},
    }
}

/// An entry that was read takes the place of the form only where the user waits for it, whatever the
/// case of its name, and never over a dialog or a new entry.
pub proof fn awaited_entries_are_installed(app: App, title: Seq<char>)
    ensures
        can_install(app, title) <==> app.overlay is None && (app.last_seen_leaf matches Some(dn)
            && same_ci(dn@, title)) && !(app.form matches Some(f) && f.mode is Create),
{
}

/// Giving up edits puts every field back to what the directory had, value by value, with the first
/// one in the inline edit; drops a waiting password; and leaves all else of the form.
pub proof fn reverting_gives_the_values_back(old: App, new: App, i: int)
    requires
        reverted(old, new),
        old.form is Some,
        !old.composes(),
        0 <= i < old.form->0.fields@.len(),
    ensures
        new.form is Some,
        new.form->0.pending_password is None,
        new.form->0.dn == old.form->0.dn,
        new.form->0.baseline == old.form->0.baseline,
        new.form->0.fields@.len() == old.form->0.fields@.len(),
        new.form->0.fields@[i].label == old.form->0.fields@[i].label,
        texts(new.form->0.fields@[i].values@) == values_or_none(
            old.form->0.baseline@,
            old.form->0.fields@[i].label@,
        ),
        new.form->0.fields@[i].values@.len() > 0 ==> new.form->0.fields@[i].editor.value@
            == new.form->0.fields@[i].values@[0]@,
        new.form->0.fields@[i].values@.len() == 0 ==> new.form->0.fields@[i].editor.value@.len() == 0,
        new.form->0.fields@[i].widget_binding == old.form->0.fields@[i].widget_binding,
        new.focus == old.focus && new.overlay == old.overlay && new.should_quit == old.should_quit,
        new.last_seen_leaf == old.last_seen_leaf,
        new.status@ == "Reverted."@,
{
    let f = new.form->0.fields@[i];
    assert(field_reverted(
        old.form->0.fields@[i],
        f,
        values_or_none(old.form->0.baseline@, old.form->0.fields@[i].label@),
    ));
    assert(texts(f.values@).len() == f.values@.len());
}

/// Giving up a new entry closes its form, so that the highlighted entry is read again.
pub proof fn reverting_a_new_entry_closes_it(old: App, new: App)
    requires
        reverted(old, new),
    ensures
        old.composes() ==> new.form is None && new.last_seen_leaf is None && new.form_focus == 0
            && new.form_scroll == 0 && new.status@.len() == 0,
        old.form is None ==> new == old,
        new.should_quit == old.should_quit && new.overlay == old.overlay && new.rows == old.rows,
{
}

/// Moving to an entry makes it the awaited one and asks for it to be read. The form shown meanwhile
/// stays, unless it composes a new entry or there is no entry to move to.
pub proof fn moving_on_awaits_the_entry(old: App, new: App, target: Option<String>)
    requires
        navigated(old, new, target),
    ensures
        target matches Some(t) ==> new.last_seen_leaf is Some && new.last_seen_leaf->0@ == t@,
        target is None ==> new.last_seen_leaf is None && new.form is None,
        old.composes() ==> new.form is None,
        target is Some && !old.composes() ==> new.form == old.form,
        new.focus == old.focus && new.overlay == old.overlay && new.should_quit == old.should_quit
            && new.rows == old.rows && new.leaf_sel == old.leaf_sel,
{
}

/// The step that a guard held up: a move goes to its entry and has it read, a change of focus goes to
/// its pane and gives the edits up, and quitting quits, with the form untouched.
pub proof fn guards_go_on_with_their_step(old: App, new: App, intent: GuardIntent, read: Option<String>)
    requires
        intent_done(old, new, intent, read),
    ensures
        intent matches GuardIntent::Nav(target) ==> read == target && navigated(old, new, target),
        intent matches GuardIntent::Focus(pane) ==> new.focus == pane && read is None && reverted(
            old,
            (App { focus: old.focus, ..new }),
        ),
        intent is Quit ==> new.should_quit && read is None && new.form == old.form,
        !(intent is Quit) ==> new.should_quit == old.should_quit,
        !(intent is Focus) ==> new.focus == old.focus,
{
}

/// After a save the highlighted row and the awaited entry have the name that the entry now has; every
/// label, and every other row, stays.
pub proof fn saved_entries_are_followed(old: App, new: App, dn: Seq<char>, i: int)
    requires
        rebound(old, new, dn),
        0 <= i < old.rows@.len(),
    ensures
        new.last_seen_leaf is Some && new.last_seen_leaf->0@ == dn,
        new.rows@.len() == old.rows@.len(),
        new.rows@[i].0 == old.rows@[i].0,
        i == old.leaf_sel ==> new.rows@[i].1@ == dn,
        i != old.leaf_sel ==> new.rows@[i] == old.rows@[i],
        new.form == old.form && new.overlay == old.overlay && new.status == old.status,
{
}

} // verus!
