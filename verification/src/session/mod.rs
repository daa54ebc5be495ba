//! The windowed front end: its state, and what its commands and the answers to its dialogs lead to.
use tvision_rs::Command;
use vstd::prelude::*;
use vstd::string::*;

use crate::dialog::GuardDecision;
use crate::edit_form::{same_values, value_set_eq, FormMode};
use crate::names::command_name;
use crate::text::{contains_text, copy_texts, same_text, texts};
use crate::widgets::WidgetKind;

pub mod create;
pub mod flow;
pub mod save;

verus! {

/// Re-draw the panes from the state.
pub const REFRESH: &'static str = "edaptor.refresh";

/// Open the editor of the focused field.
pub const ACTIVATE: &'static str = "edaptor.activate_field";

/// Save the form.
pub const SAVE: &'static str = "edaptor.save";

/// Compose a new entry.
pub const CREATE: &'static str = "edaptor.create";

/// Leave the program.
pub const REQUEST_QUIT: &'static str = "edaptor.request_quit";

/// Ask about unsaved edits before moving on.
pub const GUARD_NAV: &'static str = "edaptor.guard_nav";

/// Show what went wrong with a write.
pub const SHOW_ERROR: &'static str = "edaptor.show_error";

/// Run the step that the program was started with.
pub const STARTUP: &'static str = "edaptor.startup";

/// Load the tree again.
pub const RELOAD: &'static str = "edaptor.reload";

/// In the dialog on a concurrent change: write our values over the other ones.
pub const OVERWRITE: &'static str = "edaptor.conflict.overwrite";

/// A step to run once after the start.
#[allow(inconsistent_fields)]
#[derive(Debug)]
pub enum StartupAction {
    /// Compose a new entry of a profile under a container.
    Create { profile_idx: usize, container: String },
    /// Choose among all profiles, then compose a new entry under the container, or in the profile's
    /// home where none is given.
    ChooseThenCreate { container: Option<String> },
}

/// What unsaved edits hold up.
#[derive(Debug)]
pub enum GuardTarget {
    /// Moving to an entry, with its object classes.
    Leaf(String, Vec<String>),
    /// Moving to a branch.
    Branch(String),
}

/// A write that was refused because the entry had changed.
#[derive(Debug)]
pub struct ConflictPrompt {
    pub text: String,
    pub dn: String,
    pub quit_after: bool,
    /// The version that the entry has now.
    pub fresh_csn: Option<String>,
}

/// What an editor hands back for its field.
#[derive(Debug, PartialEq, Eq)]
pub enum CommitOutcome {
    SetValues(Vec<String>),
}

/// A field of the form.
pub struct Field {
    pub label: String,
    pub values: Vec<String>,
    /// The values as the directory had them.
    pub baseline: Vec<String>,
    pub widget_binding: Option<WidgetKind>,
    /// Whether the entry's object classes no longer allow the attribute.
    pub orphaned: bool,
}

/// The form of an entry.
pub struct Form {
    pub dn: String,
    pub fields: Vec<Field>,
    pub mode: FormMode,
    pub object_classes: Vec<String>,
    /// The version that the entry had when it was read.
    pub baseline_csn: Option<String>,
}

/// The state of the front end.
pub struct Session {
    pub edit_form: Option<Form>,
    /// The field whose editor is asked for.
    pub activate_field: Option<usize>,
    /// What an editor hands back.
    pub staged_commit: Option<CommitOutcome>,
    pub guard_target: Option<GuardTarget>,
    /// Where the form goes after a write.
    pub pending_nav: Option<(String, Vec<String>)>,
    pub current_branch: Option<String>,
    pub status: String,
    pub chosen_profile: Option<usize>,
    pub chosen_container: Option<usize>,
    pub last_conflict: Option<ConflictPrompt>,
    pub last_write_error: Option<String>,
    pub pending_startup: Option<StartupAction>,
    /// A password change that waits for the next save, and its attributes.
    pub pending_password: Option<String>,
    pub pending_password_attrs: Vec<String>,
    pub connection_encrypted: bool,
    /// Whether the directory can refuse a write by version.
    pub assertion_supported: bool,
    /// Whether the user was told that it cannot.
    pub concurrency_warned: bool,
    /// Whether the directory can write several entries at once.
    pub server_supports_txn: bool,
    pub list_dirty: bool,
    pub form_needs_render: bool,
    pub focus_form_request: bool,
    /// The row of the tree to highlight.
    pub set_tree_row: Option<usize>,
}

/// The values of a field as edited; an orphaned field has none.
pub open spec fn now(f: Field) -> Seq<Seq<char>> {
    if f.orphaned {
        Seq::empty()
    } else {
        texts(f.values@)
    }
}

/// Whether a field differs from the directory.
pub open spec fn differs(f: Field) -> bool {
    !same_values(now(f), texts(f.baseline@))
}

/// Whether a field's choice is written to other entries.
pub open spec fn fans_out(f: Field) -> bool {
    f.widget_binding matches Some(WidgetKind::Picker(b)) && b.fanout_attr is Some
}

impl Field {
    /// The values as edited.
    pub fn current_values(&self) -> (r: Vec<String>)
        ensures
            texts(r@) == now(*self),
    {
        if self.orphaned {
            let r: Vec<String> = Vec::new();
            assert(texts(r@) =~= Seq::empty());
            r
        } else {
            copy_texts(&self.values)
        }
    }

    fn changed(&self) -> (b: bool)
        ensures
            b == differs(*self),
    {
        !value_set_eq(&self.current_values(), &self.baseline)
    }

    fn written_elsewhere(&self) -> (b: bool)
        ensures
            b == fans_out(*self),
    {
        match &self.widget_binding {
            Some(WidgetKind::Picker(b)) => b.fanout_attr.is_some(),
            _ => false,
        }
    }
}

/// Whether a form holds unsaved edits.
pub open spec fn edited(form: Form) -> bool {
    exists|i: int| 0 <= i < form.fields@.len() && differs(#[trigger] form.fields@[i])
}

/// The labels of the fields whose choice is written to other entries.
pub open spec fn fanout_label(form: Form, label: Seq<char>) -> bool {
    exists|i: int|
        0 <= i < form.fields@.len() && fans_out(#[trigger] form.fields@[i])
            && form.fields@[i].label@ == label
}

/// Whether a field that is written to other entries differs from the directory.
pub open spec fn fanout_changed(form: Form) -> bool {
    exists|i: int|
        0 <= i < form.fields@.len() && fanout_label(form, (#[trigger] form.fields@[i]).label@)
            && differs(form.fields@[i])
}

impl Form {
    /// Whether the form holds unsaved edits.
    pub fn is_dirty(&self) -> (b: bool)
        ensures
            b == edited(*self),
    {
        let mut i: usize = 0;
        while i < self.fields.len()
            invariant
                i <= self.fields@.len(),
                forall|j: int| 0 <= j < i ==> !differs(#[trigger] self.fields@[j]),
            decreases self.fields@.len() - i,
        {
            if self.fields[i].changed() {
                return true;
            }
            i += 1;
        }
        false
    }

    /// The labels of the fields whose choice is written to other entries.
    pub fn fanout_labels(&self) -> (r: Vec<String>)
        ensures
            forall|l: Seq<char>| #[trigger] texts(r@).contains(l) <==> fanout_label(*self, l),
    {
        let mut r: Vec<String> = Vec::new();
        let mut i: usize = 0;
        while i < self.fields.len()
            invariant
                i <= self.fields@.len(),
                forall|l: Seq<char>| #[trigger]
                    texts(r@).contains(l) <==> exists|j: int|
                        0 <= j < i && fans_out(#[trigger] self.fields@[j])
                            && self.fields@[j].label@ == l,
            decreases self.fields@.len() - i,
        {
            if self.fields[i].written_elsewhere() {
                let ghost r0 = r@;
                r.push(self.fields[i].label.clone());
                proof {
                    let n = self.fields@[i as int].label@;
                    assert(texts(r@) =~= texts(r0).push(n));
                    assert forall|l: Seq<char>| #[trigger]
                        texts(r@).contains(l) <==> exists|j: int|
                            0 <= j < i + 1 && fans_out(#[trigger] self.fields@[j])
                                && self.fields@[j].label@ == l by {
                        if texts(r@).contains(l) {
                            let k = choose|k: int| 0 <= k < texts(r@).len() && texts(r@)[k] == l;
                            if k < texts(r0).len() {
                                assert(texts(r0)[k] == l);
                                assert(texts(r0).contains(l));
                            } else {
                                assert(fans_out(self.fields@[i as int]));
                            }
                        }
                        if exists|j: int|
                            0 <= j < i + 1 && fans_out(#[trigger] self.fields@[j])
                                && self.fields@[j].label@ == l {
                            let j = choose|j: int|
                                0 <= j < i + 1 && fans_out(#[trigger] self.fields@[j])
                                    && self.fields@[j].label@ == l;
                            if j < i {
                                assert(texts(r0).contains(l));
                                let k = choose|k: int|
                                    0 <= k < texts(r0).len() && texts(r0)[k] == l;
                                assert(texts(r@)[k] == l);
                            } else {
                                assert(texts(r@)[texts(r0).len() as int] == l);
                            }
                        }
                    }
                }
            } else {
                assert forall|l: Seq<char>| #[trigger]
                    texts(r@).contains(l) <==> exists|j: int|
                        0 <= j < i + 1 && fans_out(#[trigger] self.fields@[j])
                            && self.fields@[j].label@ == l by {
                    if exists|j: int|
                        0 <= j < i + 1 && fans_out(#[trigger] self.fields@[j])
                            && self.fields@[j].label@ == l {
                        let j = choose|j: int|
                            0 <= j < i + 1 && fans_out(#[trigger] self.fields@[j])
                                && self.fields@[j].label@ == l;
                        assert(j < i);
                    }
                }
            }
            i += 1;
        }
        r
    }
}

/// Whether a field that is written to other entries differs from the directory: then the save
/// writes several entries.
pub fn form_has_fanout_change(form: &Form) -> (b: bool)
    ensures
        b == fanout_changed(*form),
{
    let labels: Vec<String> = form.fanout_labels();
    let mut i: usize = 0;
    while i < form.fields.len()
        invariant
            i <= form.fields@.len(),
            forall|l: Seq<char>| #[trigger] texts(labels@).contains(l) <==> fanout_label(*form, l),
            forall|j: int|
                0 <= j < i ==> !(fanout_label(*form, (#[trigger] form.fields@[j]).label@)
                    && differs(form.fields@[j])),
        decreases form.fields@.len() - i,
    {
        if contains_text(&labels, &form.fields[i].label) && form.fields[i].changed() {
            assert(fanout_label(*form, form.fields@[i as int].label@));
            return true;
        }
        assert(texts(labels@).contains(form.fields@[i as int].label@) <==> fanout_label(
            *form,
            form.fields@[i as int].label@,
        ));
        i += 1;
    }
    false
}

/// Whether `new` is the form `old` with every field as the directory had it.
pub open spec fn edits_dropped(old: Form, new: Form) -> bool {
    &&& new == (Form { fields: new.fields, ..old })
    &&& new.fields@.len() == old.fields@.len()
    &&& forall|i: int|
        0 <= i < old.fields@.len() ==> (#[trigger] new.fields@[i]) == (Field {
            values: new.fields@[i].values,
            ..old.fields@[i]
        }) && texts(new.fields@[i].values@) == texts(old.fields@[i].baseline@)
}

/// Whether `new` is `old` with the edits of the form given up.
pub open spec fn discarded(old: Session, new: Session) -> bool {
    &&& new == (Session { edit_form: new.edit_form, form_needs_render: true, ..old })
    &&& match (old.edit_form, new.edit_form) {
        (Some(f), Some(g)) => edits_dropped(f, g),
        (None, None) => true,
        _ => false,
    }
}

fn drop_edits(form: &mut Form)
    ensures
        edits_dropped(*old(form), *final(form)),
{
    let ghost start = *form;
    let mut i: usize = 0;
    while i < form.fields.len()
        invariant
            i <= form.fields@.len(),
            form.fields@.len() == start.fields@.len(),
            *form == (Form { fields: form.fields, ..start }),
            forall|j: int|
                0 <= j < i ==> (#[trigger] form.fields@[j]) == (Field {
                    values: form.fields@[j].values,
                    ..start.fields@[j]
                }) && texts(form.fields@[j].values@) == texts(start.fields@[j].baseline@),
            forall|j: int| i <= j < start.fields@.len() ==> form.fields@[j] == #[trigger] start.fields@[j],
        decreases form.fields@.len() - i,
    {
        let base: Vec<String> = copy_texts(&form.fields[i].baseline);
        form.fields[i].values = base;
        i += 1;
    }
}

/// Gives up the edits of the form.
pub fn discard_edits(st: &mut Session)
    ensures
        discarded(*old(st), *final(st)),
{
    match &mut st.edit_form {
        Some(form) => drop_edits(form),
        None => {},
    }
    st.form_needs_render = true;
}

/// A form whose edits were given up holds none, as long as no field is orphaned.
pub proof fn discarding_leaves_no_edits(old: Form, new: Form)
    requires
        edits_dropped(old, new),
        forall|i: int| 0 <= i < old.fields@.len() ==> !(#[trigger] old.fields@[i]).orphaned,
    ensures
        !edited(new),
{
    assert forall|i: int| 0 <= i < new.fields@.len() implies !differs(#[trigger] new.fields@[i]) by {
        assert(!old.fields@[i].orphaned);
        crate::edit_form::same_values_is_symmetric(now(new.fields@[i]), now(new.fields@[i]));
    }
}

/// What a command leaves to be done with dialogs, the directory or the schema.
#[allow(inconsistent_fields)]
pub enum DispatchStep {
    Done,
    /// Create the entry that the form composes.
    CreateEntry,
    /// Save the form.
    SaveEntry,
    /// Load the tree again.
    Reload,
    /// Compute the identifier that a field holds.
    ComputeSid(usize),
    /// Open the editor of a field, if it has one.
    EditField(usize),
    /// Ask about unsaved edits before moving on.
    AskGuard,
    /// Ask about unsaved edits before leaving.
    AskQuit,
    /// Leave.
    Quit,
    /// Compose a new entry of a profile, asking for the container where the branch is above the
    /// profile's home.
    OpenCreate { profile_idx: usize, branch: String },
    /// Choose one of the profiles, then compose a new entry.
    ChooseProfile { offer: Vec<usize>, branch: String },
    /// Ask what to do about a concurrent change.
    ShowConflict(ConflictPrompt),
    /// Show a message.
    ShowError(String),
    /// Compose a new entry of a profile under a container.
    StartCreate { profile_idx: usize, container: String },
    /// Choose one of all profiles, then compose a new entry.
    ChooseStartProfile { container: Option<String> },
}

/// The field that an editor is asked for, if the form has it.
pub open spec fn asked_field(st: Session) -> Option<Field> {
    match (st.activate_field, st.edit_form) {
        (Some(i), Some(f)) => if i < f.fields@.len() {
            Some(f.fields@[i as int])
        } else {
            None
        },
        _ => None,
    }
}

/// Whether the form composes a new entry.
pub open spec fn composing(st: Session) -> bool {
    st.edit_form is Some && st.edit_form->0.mode is Create
}

/// Whether the form holds unsaved edits.
pub open spec fn has_edits(st: Session) -> bool {
    st.edit_form is Some && edited(st.edit_form->0)
}

/// Whether `new` is `old` up to its status line, which reads `text`.
pub open spec fn told(old: Session, new: Session, text: Seq<char>) -> bool {
    new == (Session { status: new.status, ..old }) && new.status@ == text
}

/// Whether `new`, with what is left to do, is `old` after an editor was asked for.
pub open spec fn activated(old: Session, new: Session, step: DispatchStep) -> bool {
    &&& new == (Session { activate_field: None, ..old })
    &&& match asked_field(old) {
        Some(f) => if f.widget_binding matches Some(WidgetKind::SambaSid) {
            step == DispatchStep::ComputeSid(old.activate_field->0)
        } else {
            step == DispatchStep::EditField(old.activate_field->0)
        },
        None => step is Done,
    }
}

/// Whether `new`, with what is left to do, is `old` after a new entry was asked for. `home` are the
/// profiles whose home is the current branch.
pub open spec fn creation_asked(old: Session, new: Session, home: Seq<usize>, step: DispatchStep) -> bool {
    match old.current_branch {
        None => told(old, new, "Select a container first."@) && step is Done,
        Some(b) => if home.len() == 0 {
            told(old, new, "No profile for this container."@) && step is Done
        } else if home.len() == 1 {
            &&& new == old
            &&& step matches DispatchStep::OpenCreate { profile_idx, branch } && profile_idx
                == home[0] && branch@ == b@
        } else {
            &&& new == old
            &&& step matches DispatchStep::ChooseProfile { offer, branch } && offer@ == home
                && branch@ == b@
        },
    }
}

/// Whether `new`, with what is left to do, is `old` after a failed write was to be shown. A
/// concurrent change comes before any other failure.
pub open spec fn failure_shown(old: Session, new: Session, step: DispatchStep) -> bool {
    match old.last_conflict {
        Some(c) => new == (Session { last_conflict: None, ..old }) && step
            == DispatchStep::ShowConflict(c),
        None => {
            &&& new == (Session { last_write_error: None, ..old })
            &&& step == match old.last_write_error {
                Some(m) => DispatchStep::ShowError(m),
                None => DispatchStep::Done,
            }
        },
    }
}

/// Whether `new`, with what is left to do, is `old` after the step of the start.
pub open spec fn started(old: Session, new: Session, profiles: int, step: DispatchStep) -> bool {
    match old.pending_startup {
        Some(StartupAction::Create { profile_idx, container }) => new == (Session {
            pending_startup: None,
            ..old
        }) && step == (DispatchStep::StartCreate { profile_idx, container }),
        Some(StartupAction::ChooseThenCreate { container }) => if profiles == 0 {
            &&& told((Session { pending_startup: None, ..old }), new, "No profiles configured."@)
            &&& step is Done
        } else {
            new == (Session { pending_startup: None, ..old }) && step
                == (DispatchStep::ChooseStartProfile { container })
        },
        None => new == old && step is Done,
    }
}

/// Whether `new`, with what is left to do, is `old` after a command.
pub open spec fn dispatched(
    old: Session,
    new: Session,
    name: Seq<char>,
    home: Seq<usize>,
    profiles: int,
    step: DispatchStep,
) -> bool {
    if name == SAVE@ {
        new == old && step == if composing(old) {
            DispatchStep::CreateEntry
        } else {
            DispatchStep::SaveEntry
        }
    } else if name == RELOAD@ {
        new == old && step is Reload
    } else if name == ACTIVATE@ {
        activated(old, new, step)
    } else if name == GUARD_NAV@ {
        new == old && step is AskGuard
    } else if name == REQUEST_QUIT@ {
        new == old && step == if has_edits(old) {
            DispatchStep::AskQuit
        } else {
            DispatchStep::Quit
        }
    } else if name == CREATE@ {
        creation_asked(old, new, home, step)
    } else if name == SHOW_ERROR@ {
        failure_shown(old, new, step)
    } else if name == STARTUP@ {
        started(old, new, profiles, step)
    } else {
        new == old && step is Done
    }
}

fn activate(st: &mut Session) -> (step: DispatchStep)
    ensures
        activated(*old(st), *final(st), step),
{
    let asked: Option<usize> = st.activate_field.take();
    match (asked, &st.edit_form) {
        (Some(i), Some(form)) => {
            if i < form.fields.len() {
                match &form.fields[i].widget_binding {
                    Some(WidgetKind::SambaSid) => DispatchStep::ComputeSid(i),
                    _ => DispatchStep::EditField(i),
                }
            } else {
                DispatchStep::Done
            }
        },
        _ => DispatchStep::Done,
    }
}

fn ask_creation(st: &mut Session, home: &Vec<usize>) -> (step: DispatchStep)
    ensures
        creation_asked(*old(st), *final(st), home@, step),
{
    let branch: Option<String> = match &st.current_branch {
        Some(b) => Some(b.clone()),
        None => None,
    };
    match branch {
        None => {
            st.status = "Select a container first.".to_owned();
            DispatchStep::Done
        },
        Some(branch) => {
            if home.len() == 0 {
                st.status = "No profile for this container.".to_owned();
                DispatchStep::Done
            } else if home.len() == 1 {
                DispatchStep::OpenCreate { profile_idx: home[0], branch }
            } else {
                let mut offer: Vec<usize> = Vec::new();
                let mut i: usize = 0;
                while i < home.len()
                    invariant
                        i <= home@.len(),
                        offer@ == home@.take(i as int),
                    decreases home@.len() - i,
                {
                    offer.push(home[i]);
                    i += 1;
                    assert(offer@ =~= home@.take(i as int));
                }
                assert(home@.take(home@.len() as int) =~= home@);
                DispatchStep::ChooseProfile { offer, branch }
            }
        },
    }
}

fn show_failure(st: &mut Session) -> (step: DispatchStep)
    ensures
        failure_shown(*old(st), *final(st), step),
{
    match st.last_conflict.take() {
        Some(c) => DispatchStep::ShowConflict(c),
        None => match st.last_write_error.take() {
            Some(m) => DispatchStep::ShowError(m),
            None => DispatchStep::Done,
        },
    }
}

fn run_startup(st: &mut Session, profiles: usize) -> (step: DispatchStep)
    ensures
        started(*old(st), *final(st), profiles as int, step),
{
    match st.pending_startup.take() {
        Some(StartupAction::Create { profile_idx, container }) => {
            DispatchStep::StartCreate { profile_idx, container }
        },
        Some(StartupAction::ChooseThenCreate { container }) => {
            if profiles == 0 {
                st.status = "No profiles configured.".to_owned();
                DispatchStep::Done
            } else {
                DispatchStep::ChooseStartProfile { container }
            }
        },
        None => DispatchStep::Done,
    }
}

/// Handles a command: what it leads to with dialogs, the directory or the schema is left to be done.
/// `home` are the profiles whose home is the current branch, of `profiles` in all.
pub fn dispatch(st: &mut Session, cmd: Command, home: &Vec<usize>, profiles: usize) -> (step:
    DispatchStep)
    ensures
        dispatched(*old(st), *final(st), command_name(cmd), home@, profiles as int, step),
{
    let name: &str = cmd.name();
    if same_text(name, SAVE) {
        let creates: bool = match &st.edit_form {
            Some(f) => match f.mode {
                FormMode::Create { .. } => true,
                FormMode::Edit => false,
            },
            None => false,
        };
        if creates {
            DispatchStep::CreateEntry
        } else {
            DispatchStep::SaveEntry
        }
    } else if same_text(name, RELOAD) {
        DispatchStep::Reload
    } else if same_text(name, ACTIVATE) {
        activate(st)
    } else if same_text(name, GUARD_NAV) {
        DispatchStep::AskGuard
    } else if same_text(name, REQUEST_QUIT) {
        let dirty: bool = match &st.edit_form {
            Some(f) => f.is_dirty(),
            None => false,
        };
        if dirty {
            DispatchStep::AskQuit
        } else {
            DispatchStep::Quit
        }
    } else if same_text(name, CREATE) {
        ask_creation(st, home)
    } else if same_text(name, SHOW_ERROR) {
        show_failure(st)
    } else if same_text(name, STARTUP) {
        run_startup(st, profiles)
    } else {
        DispatchStep::Done
    }
}

/// No command leaves the program or changes the form while there are unsaved edits: leaving asks
/// first.
pub proof fn commands_keep_edits(
    old: Session,
    new: Session,
    name: Seq<char>,
    home: Seq<usize>,
    profiles: int,
    step: DispatchStep,
)
    requires
        dispatched(old, new, name, home, profiles, step),
        has_edits(old),
    ensures
        !(step is Quit),
        new.edit_form == old.edit_form,
        new.pending_password == old.pending_password,
{
}

/// What an editor that was closed hands back: what it staged, if it was accepted.
pub fn editor_closed(st: &mut Session, accepted: bool) -> (r: Option<CommitOutcome>)
    ensures
        *final(st) == (Session { staged_commit: None, ..*old(st) }),
        r == if accepted {
            old(st).staged_commit
        } else {
            None
        },
{
    let staged: Option<CommitOutcome> = st.staged_commit.take();
    if accepted {
        staged
    } else {
        None
    }
}

/// What the answer to the guard leaves to be done.
pub enum GuardStep {
    Done,
    /// Save the form; then the form goes to `nav`, and what was held up is looked at again.
    Save { target: Option<GuardTarget>, nav: Option<(String, Vec<String>)> },
    /// Read the entry.
    Reread(String, Vec<String>),
    /// Move to the branch.
    CommitBranch(String),
}

/// Where the form goes after the save that a guard asked for: the entry that was moved to.
pub open spec fn nav_of(target: Option<GuardTarget>, nav: Option<(String, Vec<String>)>) -> bool {
    match target {
        Some(GuardTarget::Leaf(dn, ocs)) => nav matches Some(p) && p.0@ == dn@ && texts(p.1@)
            == texts(ocs@),
        _ => nav is None,
    }
}

/// Whether `new` is `old` with the highlight of the tree back on the current branch, at `row`.
pub open spec fn branch_stays(old: Session, new: Session, row: Option<usize>) -> bool {
    new == (Session { set_tree_row: row, guard_target: None, ..old })
}

/// Puts the highlight of the tree back on the current branch, at `row`, and drops what was held up.
pub fn apply_branch_guard_stay(st: &mut Session, row: Option<usize>)
    ensures
        branch_stays(*old(st), *final(st), row),
{
    st.set_tree_row = row;
    st.guard_target = None;
}

/// Puts the highlight of the list back on the form's entry, and drops where the form was to go.
pub fn apply_cancelled_guard_save(st: &mut Session)
    ensures
        *final(st) == (Session {
            list_dirty: true,
            guard_target: None,
            pending_nav: None,
            ..*old(st)
        }),
{
    st.list_dirty = true;
    st.guard_target = None;
    st.pending_nav = None;
}

/// Whether `new`, with what is left to do, is `old` after the guard was answered. `row` is the row
/// of the current branch.
pub open spec fn guard_answered_as(
    old: Session,
    new: Session,
    decision: GuardDecision,
    row: Option<usize>,
    step: GuardStep,
) -> bool {
    match decision {
        GuardDecision::Save => new == old && match step {
            GuardStep::Save { target, nav } => same_guard_target(target, old.guard_target) && nav_of(
                old.guard_target,
                nav,
            ),
            _ => false,
        },
        GuardDecision::Discard => {
            &&& discarded(old, (Session { guard_target: old.guard_target, ..new }))
            &&& new.guard_target is None
            &&& step == match old.guard_target {
                Some(GuardTarget::Leaf(dn, ocs)) => GuardStep::Reread(dn, ocs),
                Some(GuardTarget::Branch(dn)) => GuardStep::CommitBranch(dn),
                None => GuardStep::Done,
            }
        },
        GuardDecision::Stay => {
            &&& step is Done
            &&& match old.guard_target {
                Some(GuardTarget::Branch(_)) => branch_stays(old, new, row),
                _ => new == (Session { list_dirty: true, guard_target: None, ..old }),
            }
        },
    }
}

/// Whether two targets name the same entry or branch.
pub open spec fn same_guard_target(a: Option<GuardTarget>, b: Option<GuardTarget>) -> bool {
    match (a, b) {
        (Some(GuardTarget::Leaf(x, xs)), Some(GuardTarget::Leaf(y, ys))) => x@ == y@ && texts(xs@)
            == texts(ys@),
        (Some(GuardTarget::Branch(x)), Some(GuardTarget::Branch(y))) => x@ == y@,
        (None, None) => true,
        _ => false,
    }
}

fn copy_target(t: &Option<GuardTarget>) -> (r: Option<GuardTarget>)
    ensures
        same_guard_target(r, *t),
{
    match t {
        Some(GuardTarget::Leaf(dn, ocs)) => Some(GuardTarget::Leaf(dn.clone(), copy_texts(ocs))),
        Some(GuardTarget::Branch(dn)) => Some(GuardTarget::Branch(dn.clone())),
        None => None,
    }
}

/// Handles the answer to the guard: saving comes first and moves on later, discarding gives up the
/// edits and moves on, staying puts the highlight back. `row` is the row of the current branch.
pub fn guard_answered(st: &mut Session, decision: GuardDecision, row: Option<usize>) -> (step:
    GuardStep)
    ensures
        guard_answered_as(*old(st), *final(st), decision, row, step),
{
    match decision {
        GuardDecision::Save => {
            let nav: Option<(String, Vec<String>)> = match &st.guard_target {
                Some(GuardTarget::Leaf(dn, ocs)) => Some((dn.clone(), copy_texts(ocs))),
                _ => None,
            };
            GuardStep::Save { target: copy_target(&st.guard_target), nav }
        },
        GuardDecision::Discard => {
            discard_edits(st);
            let ghost mid = *st;
            let target: Option<GuardTarget> = st.guard_target.take();
            assert((Session { guard_target: mid.guard_target, ..*st }) == mid);
            match target {
                Some(GuardTarget::Leaf(dn, ocs)) => GuardStep::Reread(dn, ocs),
                Some(GuardTarget::Branch(dn)) => GuardStep::CommitBranch(dn),
                None => GuardStep::Done,
            }
        },
        GuardDecision::Stay => {
            let branch: bool = match &st.guard_target {
                Some(GuardTarget::Branch(_)) => true,
                _ => false,
            };
            if branch {
                apply_branch_guard_stay(st, row);
            } else {
                st.list_dirty = true;
                st.guard_target = None;
            }
            GuardStep::Done
        },
    }
}

/// Whether a save reached the directory.
#[derive(Debug, Clone, Copy, PartialEq, Eq, Structural)]
pub enum SaveOutcome {
    Submitted,
    NotSubmitted,
}

/// Whether `new`, with the branch to move to, is `old` after the save that the guard asked for.
pub open spec fn guard_save_ended(
    old: Session,
    new: Session,
    target: Option<GuardTarget>,
    outcome: SaveOutcome,
    row: Option<usize>,
    branch: Option<String>,
) -> bool {
    match (outcome, target) {
        (SaveOutcome::NotSubmitted, Some(GuardTarget::Branch(_))) => branch is None && branch_stays(
            old,
            new,
            row,
        ),
        (SaveOutcome::NotSubmitted, _) => branch is None && new == (Session {
            list_dirty: true,
            guard_target: None,
            pending_nav: None,
            ..old
        }),
        (SaveOutcome::Submitted, Some(GuardTarget::Branch(dn))) => branch == Some(dn) && new == (
        Session { guard_target: None, ..old }),
        (SaveOutcome::Submitted, _) => branch is None && new == old,
    }
}

/// Handles the end of the save that the guard asked for. A save that was not submitted counts as
/// staying; after one that was, the branch that was moved to is given back.
pub fn guard_save_done(
    st: &mut Session,
    target: Option<GuardTarget>,
    outcome: SaveOutcome,
    row: Option<usize>,
) -> (branch: Option<String>)
    ensures
        guard_save_ended(*old(st), *final(st), target, outcome, row, branch),
{
    match outcome {
        SaveOutcome::NotSubmitted => {
            match target {
                Some(GuardTarget::Branch(_)) => apply_branch_guard_stay(st, row),
                _ => apply_cancelled_guard_save(st),
            }
            None
        },
        SaveOutcome::Submitted => match target {
            Some(GuardTarget::Branch(dn)) => {
                st.guard_target = None;
                Some(dn)
            },
            _ => None,
        },
    }
}

/// What the answer to the guard before leaving comes to.
#[derive(Debug, Clone, Copy, PartialEq, Eq, Structural)]
pub enum QuitStep {
    SaveThenQuit,
    Quit,
    Stay,
}

/// What the answer to the guard before leaving comes to.
pub open spec fn quit_step(decision: GuardDecision) -> QuitStep {
    match decision {
        GuardDecision::Save => QuitStep::SaveThenQuit,
        GuardDecision::Discard => QuitStep::Quit,
        GuardDecision::Stay => QuitStep::Stay,
    }
}

/// What the answer to the guard before leaving comes to.
pub fn quit_answered(decision: GuardDecision) -> (r: QuitStep)
    ensures
        r == quit_step(decision),
{
    match decision {
        GuardDecision::Save => QuitStep::SaveThenQuit,
        GuardDecision::Discard => QuitStep::Quit,
        GuardDecision::Stay => QuitStep::Stay,
    }
}

/// What is left to do about a concurrent change.
pub enum ConflictStep {
    Done,
    /// Save again; leave after that where `quit_after`.
    Save { quit_after: bool },
    /// Read the entry.
    Reread(String, Vec<String>),
}

/// Whether `new`, with what is left to do, is `old` after the dialog on a concurrent change. To
/// overwrite, the form takes over the version that the entry has now and is saved again; to reload,
/// it is dropped and the entry read; anything else keeps the form as it is, so that the next save
/// conflicts again.
pub open spec fn conflict_settled(
    old: Session,
    new: Session,
    name: Seq<char>,
    c: ConflictPrompt,
    step: ConflictStep,
) -> bool {
    if name == OVERWRITE@ {
        &&& step == (ConflictStep::Save { quit_after: c.quit_after })
        &&& new == (Session { edit_form: new.edit_form, ..old })
        &&& match (old.edit_form, new.edit_form) {
            (Some(f), Some(g)) => g == (Form { baseline_csn: c.fresh_csn, ..f }),
            (None, None) => true,
            _ => false,
        }
    } else if name == "tv.cancel"@ {
        &&& new == (Session { edit_form: None, ..old })
        &&& step matches ConflictStep::Reread(dn, ocs) && dn == c.dn && texts(ocs@) == match old.edit_form {
            Some(f) => texts(f.object_classes@),
            None => Seq::empty(),
        }
    } else {
        new == old && step is Done
    }
}

/// Handles the answer to the dialog on a concurrent change.
pub fn conflict_answered(st: &mut Session, answer: Command, c: ConflictPrompt) -> (step: ConflictStep)
    ensures
        conflict_settled(*old(st), *final(st), command_name(answer), c, step),
{
    let name: &str = answer.name();
    if same_text(name, OVERWRITE) {
        match &mut st.edit_form {
            Some(f) => {
                f.baseline_csn = c.fresh_csn;
            },
            None => {},
        }
        ConflictStep::Save { quit_after: c.quit_after }
    } else if same_text(name, "tv.cancel") {
        let ocs: Vec<String> = match &st.edit_form {
            Some(f) => copy_texts(&f.object_classes),
            None => {
                let none: Vec<String> = Vec::new();
                assert(texts(none@) =~= Seq::empty());
                none
            },
        };
        st.edit_form = None;
        ConflictStep::Reread(c.dn, ocs)
    } else {
        ConflictStep::Done
    }
}

/// A field holds its values as edited, and none once its attribute is no longer allowed. It differs
/// from the directory when a value came, when one went, and when their number changed.
pub proof fn changed_fields_are_seen(form: Form, i: int, v: Seq<char>)
    requires
        0 <= i < form.fields@.len(),
    ensures
        form.fields@[i].orphaned ==> now(form.fields@[i]).len() == 0,
        !form.fields@[i].orphaned ==> now(form.fields@[i]) == texts(form.fields@[i].values@),
        now(form.fields@[i]).contains(v) != texts(form.fields@[i].baseline@).contains(v) || now(
            form.fields@[i],
        ).len() != form.fields@[i].baseline@.len() ==> edited(form) && differs(form.fields@[i]),
{
    let f = form.fields@[i];
    let a = now(f);
    let b = texts(f.baseline@);
    assert(b.len() == f.baseline@.len());
    if a.contains(v) && !b.contains(v) {
        let k = choose|k: int| 0 <= k < a.len() && a[k] == v;
        assert(!b.contains(a[k]));
    } else if b.contains(v) && !a.contains(v) {
        let k = choose|k: int| 0 <= k < b.len() && b[k] == v;
        assert(!a.contains(b[k]));
    }
}

/// A form whose fields hold the directory's values, in whatever order, has no unsaved edits.
pub proof fn reordered_fields_are_no_edit(form: Form)
    requires
        forall|i: int|
            0 <= i < form.fields@.len() ==> now(#[trigger] form.fields@[i]).to_multiset() == texts(
                form.fields@[i].baseline@,
            ).to_multiset(),
    ensures
        !edited(form),
        !fanout_changed(form),
{
    assert forall|i: int| 0 <= i < form.fields@.len() implies !differs(#[trigger] form.fields@[i]) by {
        crate::edit_form::reordering_keeps_values(
            now(form.fields@[i]),
            texts(form.fields@[i].baseline@),
        );
    }
}

/// A save touches other entries exactly when a field differs under the label of one whose choice is
/// written to them: one that a picker with an attribute of theirs is bound to.
pub proof fn groups_are_saved_where_they_changed(form: Form, i: int, k: int)
    requires
        0 <= i < form.fields@.len(),
        0 <= k < form.fields@.len(),
        form.fields@[k].label@ == form.fields@[i].label@,
    ensures
        fans_out(form.fields@[k]) <==> (form.fields@[k].widget_binding matches Some(
            WidgetKind::Picker(b),
        ) && b.fanout_attr is Some),
        fans_out(form.fields@[k]) && differs(form.fields@[i]) ==> fanout_changed(form),
        (forall|j: int| 0 <= j < form.fields@.len() ==> !fans_out(#[trigger] form.fields@[j]))
            ==> !fanout_changed(form),
{
    if fans_out(form.fields@[k]) && differs(form.fields@[i]) {
        assert(fanout_label(form, form.fields@[i].label@));
    }
}

/// Discarding puts every field back to the directory's values and leaves all else of the form.
pub proof fn discarding_gives_the_values_back(old: Session, new: Session, i: int)
    requires
        discarded(old, new),
        old.edit_form is Some,
        0 <= i < old.edit_form->0.fields@.len(),
    ensures
        new.edit_form is Some,
        new.edit_form->0.dn == old.edit_form->0.dn,
        new.edit_form->0.mode == old.edit_form->0.mode,
        new.edit_form->0.fields@.len() == old.edit_form->0.fields@.len(),
        new.edit_form->0.fields@[i].label == old.edit_form->0.fields@[i].label,
        new.edit_form->0.fields@[i].baseline == old.edit_form->0.fields@[i].baseline,
        texts(new.edit_form->0.fields@[i].values@) == texts(old.edit_form->0.fields@[i].baseline@),
        new.form_needs_render,
        new.pending_password == old.pending_password && new.status == old.status,
{
    assert(new.edit_form->0.fields@[i] == (Field {
        values: new.edit_form->0.fields@[i].values,
        ..old.edit_form->0.fields@[i]
    }));
}

/// Each command leads to its own step: saving saves the entry, or creates it where it is composed;
/// reloading, moving on and leaving ask for what they say, and leaving is asked about only where there
/// are edits. Any other command does nothing.
pub proof fn commands_lead_to_their_steps(
    old: Session,
    new: Session,
    name: Seq<char>,
    home: Seq<usize>,
    profiles: int,
    step: DispatchStep,
)
    requires
        dispatched(old, new, name, home, profiles, step),
    ensures
        name == "edaptor.save"@ ==> new == old && (old.edit_form is Some
            && old.edit_form->0.mode is Create ==> step is CreateEntry) && (!(old.edit_form is Some
            && old.edit_form->0.mode is Create) ==> step is SaveEntry),
        name == "edaptor.reload"@ ==> new == old && step is Reload,
        name == "edaptor.guard_nav"@ ==> new == old && step is AskGuard,
        name == "edaptor.request_quit"@ ==> new == old && (old.edit_form is Some && edited(
            old.edit_form->0,
        ) ==> step is AskQuit) && (!(old.edit_form is Some && edited(old.edit_form->0))
            ==> step is Quit),
        name == "edaptor.activate_field"@ ==> activated(old, new, step),
        name == "edaptor.create"@ ==> creation_asked(old, new, home, step),
        name == "edaptor.show_error"@ ==> failure_shown(old, new, step),
        name == "edaptor.startup"@ ==> started(old, new, profiles, step),
        name == "edaptor.refresh"@ ==> new == old && step is Done,
{
    command_names_differ();
}

proof fn command_names_differ()
    ensures
        SAVE@.len() == 12 && RELOAD@.len() == 14 && ACTIVATE@.len() == 22 && GUARD_NAV@.len() == 17
            && REQUEST_QUIT@.len() == 20 && CREATE@.len() == 14 && SHOW_ERROR@.len() == 18
            && STARTUP@.len() == 15 && REFRESH@.len() == 15 && OVERWRITE@.len() == 26,
        RELOAD@ != CREATE@,
        STARTUP@ != REFRESH@,
{
    reveal_strlit("edaptor.save");
    reveal_strlit("edaptor.reload");
    reveal_strlit("edaptor.activate_field");
    reveal_strlit("edaptor.guard_nav");
    reveal_strlit("edaptor.request_quit");
    reveal_strlit("edaptor.create");
    reveal_strlit("edaptor.show_error");
    reveal_strlit("edaptor.startup");
    reveal_strlit("edaptor.refresh");
    reveal_strlit("edaptor.conflict.overwrite");
    assert("edaptor.reload"@[8] != "edaptor.create"@[8]);
    assert("edaptor.startup"@[8] != "edaptor.refresh"@[8]);
}

/// An editor opens over the field that was asked for, once; an identifier is computed instead where the
/// field holds one. A field that is not there opens nothing.
pub proof fn the_asked_field_is_edited(old: Session, new: Session, step: DispatchStep, i: usize)
    requires
        activated(old, new, step),
    ensures
        new.activate_field is None && new.edit_form == old.edit_form,
        old.activate_field == Some(i) && old.edit_form is Some && i < old.edit_form->0.fields@.len()
            ==> (if old.edit_form->0.fields@[i as int].widget_binding == Some(WidgetKind::SambaSid) {
            step == DispatchStep::ComputeSid(i)
        } else {
            step == DispatchStep::EditField(i)
        }),
        old.activate_field is None || old.edit_form is None ==> step is Done,
        old.activate_field == Some(i) && old.edit_form is Some && i >= old.edit_form->0.fields@.len()
            ==> step is Done,
{
}

/// A new entry needs a branch and a profile: without a branch or a profile a note says so, one profile
/// is taken, and of several the user chooses. The branch is the current one.
pub proof fn new_entries_need_a_branch_and_a_profile(
    old: Session,
    new: Session,
    home: Seq<usize>,
    step: DispatchStep,
)
    requires
        creation_asked(old, new, home, step),
    ensures
        new.edit_form == old.edit_form,
        old.current_branch is None ==> step is Done && new.status@ == "Select a container first."@,
        old.current_branch is Some && home.len() == 0 ==> step is Done && new.status@
            == "No profile for this container."@,
        old.current_branch matches Some(b) ==> home.len() == 1 ==> (step matches DispatchStep::OpenCreate {
            profile_idx,
            branch,
        } && profile_idx == home[0] && branch@ == b@),
        old.current_branch matches Some(b) ==> home.len() > 1 ==> (step matches DispatchStep::ChooseProfile {
            offer,
            branch,
        } && offer@ == home && branch@ == b@),
{
}

/// A failure is shown once, and a concurrent change before any other; the step of the start runs once.
pub proof fn failures_and_the_start_come_once(
    old: Session,
    new: Session,
    profiles: int,
    step: DispatchStep,
)
    ensures
        failure_shown(old, new, step) ==> {
            &&& old.last_conflict matches Some(c) ==> step == DispatchStep::ShowConflict(c)
                && new.last_conflict is None && new.last_write_error == old.last_write_error
            &&& old.last_conflict is None ==> new.last_write_error is None && (
            old.last_write_error matches Some(m) ==> step == DispatchStep::ShowError(m)) && (
            old.last_write_error is None ==> step is Done)
            &&& new.edit_form == old.edit_form
        },
        started(old, new, profiles, step) ==> {
            &&& new.pending_startup is None && new.edit_form == old.edit_form
            &&& old.pending_startup is None ==> step is Done && new == old
            &&& old.pending_startup matches Some(StartupAction::Create { profile_idx, container })
                ==> step == (DispatchStep::StartCreate { profile_idx, container })
            &&& old.pending_startup matches Some(StartupAction::ChooseThenCreate { container }) ==> (if profiles
                == 0 {
                step is Done && new.status@ == "No profiles configured."@
            } else {
                step == (DispatchStep::ChooseStartProfile { container })
            })
        },
{
}

/// To save at the guard keeps the form and goes on later to where the user was going; to discard gives
/// the edits up and goes on at once; to stay keeps the edits and drops the move.
pub proof fn the_guard_saves_discards_or_stays(
    old: Session,
    new: Session,
    decision: GuardDecision,
    row: Option<usize>,
    step: GuardStep,
)
    requires
        guard_answered_as(old, new, decision, row, step),
    ensures
        decision == GuardDecision::Save ==> new == old && (step matches GuardStep::Save { target, nav }
            && same_guard_target(target, old.guard_target) && (
        old.guard_target matches Some(GuardTarget::Leaf(dn, ocs)) ==> nav is Some && (nav->0).0@ == dn@
            && texts((nav->0).1@) == texts(ocs@)) && (!(old.guard_target matches Some(
            GuardTarget::Leaf(..),
        )) ==> nav is None)),
        decision == GuardDecision::Discard ==> new.guard_target is None && discarded(
            old,
            (Session { guard_target: old.guard_target, ..new }),
        ) && (old.guard_target matches Some(GuardTarget::Leaf(dn, ocs)) ==> step == GuardStep::Reread(
            dn,
            ocs,
        )) && (old.guard_target matches Some(GuardTarget::Branch(dn)) ==> step
            == GuardStep::CommitBranch(dn)) && (old.guard_target is None ==> step is Done),
        decision == GuardDecision::Stay ==> step is Done && new.edit_form == old.edit_form
            && new.guard_target is None && (old.guard_target matches Some(GuardTarget::Branch(_))
            ==> new.set_tree_row == row) && (!(old.guard_target matches Some(GuardTarget::Branch(_)))
            ==> new.list_dirty),
        new.pending_password == old.pending_password && new.current_branch == old.current_branch,
{
}

/// After the save that a guard asked for, a branch is moved to only where the save was submitted;
/// otherwise the highlight goes back and nothing more waits. The form stays as the save left it.
pub proof fn moves_wait_for_the_save(
    old: Session,
    new: Session,
    target: Option<GuardTarget>,
    outcome: SaveOutcome,
    row: Option<usize>,
    branch: Option<String>,
)
    requires
        guard_save_ended(old, new, target, outcome, row, branch),
    ensures
        branch is Some ==> outcome == SaveOutcome::Submitted && (target matches Some(
            GuardTarget::Branch(dn),
        ) && branch == Some(dn)),
        outcome == SaveOutcome::Submitted && (target matches Some(GuardTarget::Branch(_)))
            ==> branch is Some && new.guard_target is None,
        outcome == SaveOutcome::NotSubmitted ==> new.guard_target is None,
        outcome == SaveOutcome::NotSubmitted && (target matches Some(GuardTarget::Branch(_)))
            ==> new.set_tree_row == row,
        outcome == SaveOutcome::NotSubmitted && !(target matches Some(GuardTarget::Branch(_)))
            ==> new.list_dirty && new.pending_nav is None,
        new.edit_form == old.edit_form && new.pending_password == old.pending_password,
{
}

/// Leaving over unsaved edits goes by the answer: saving first, losing them, or not leaving.
pub proof fn leaving_goes_by_the_answer(decision: GuardDecision)
    ensures
        quit_step(decision) == QuitStep::SaveThenQuit <==> decision == GuardDecision::Save,
        quit_step(decision) == QuitStep::Quit <==> decision == GuardDecision::Discard,
        quit_step(decision) == QuitStep::Stay <==> decision == GuardDecision::Stay,
{
}

/// A concurrent change is overwritten only when the user asks for it: the save then asserts the version
/// that the entry has now. To reload drops the form and reads the entry; anything else keeps the form.
pub proof fn conflicts_are_settled_by_choice(
    old: Session,
    new: Session,
    name: Seq<char>,
    c: ConflictPrompt,
    step: ConflictStep,
)
    requires
        conflict_settled(old, new, name, c, step),
    ensures
        name == "edaptor.conflict.overwrite"@ ==> step == (ConflictStep::Save {
            quit_after: c.quit_after,
        }) && (old.edit_form matches Some(f) ==> new.edit_form is Some && new.edit_form->0.baseline_csn
            == c.fresh_csn && new.edit_form->0.fields == f.fields && new.edit_form->0.dn == f.dn),
        name == "tv.cancel"@ ==> new.edit_form is None && (step matches ConflictStep::Reread(dn, ocs)
            && dn == c.dn && (old.edit_form matches Some(f) ==> texts(ocs@) == texts(
            f.object_classes@,
        ))),
        name != "edaptor.conflict.overwrite"@ && name != "tv.cancel"@ ==> new == old && step is Done,
        step is Save <==> name == "edaptor.conflict.overwrite"@,
        new.pending_password == old.pending_password,
{
    command_names_differ();
    reveal_strlit("tv.cancel");
}

} // verus!
