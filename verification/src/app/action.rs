//! What keys and confirmed dialogs lead to, and keeping the panes in step with each other.
use vstd::prelude::*;
use vstd::string::*;

use crate::app::picker::{has_field, only_field_differs};
use crate::app::{
    intent_done, navigate_to, navigated, perform_guard_intent, revert_form, reverted, same_target,
    App, GuardIntent, Overlay, PendingAction, UiAction,
};
use crate::changes::{
    error_message, format_validation_errors, id_after, ModOp, SavePlan, ValidationError, WriteIds,
};
use crate::edit_form::EditField;
use crate::profiles::EntryProfile;
use crate::text::{decimal, decimal_of, same_text};
use crate::text_input::TextInput;
use crate::tree::{selected_id, selected_node};
use crate::widgets::WidgetKind;
use crate::writes::{submit_prepared, submitted, PostWrite, Request, Writes};

verus! {

/// What an action leaves to be done with the directory or the schema.
pub enum ActionStep {
    Done,
    /// Prepare the new entry that the form composes.
    PrepareCreate,
    /// Plan the save of the form.
    PlanSave,
    /// Open a form for a new entry of a profile.
    OpenCreate(usize),
    /// Load the tree again.
    Refresh,
    /// Find the next free number for a field.
    Allocate(usize),
}

/// The profiles that are offered for a new entry: those whose home is the current branch, and all
/// where there is none.
pub open spec fn offered(home: Seq<usize>, profiles: int) -> Seq<usize> {
    if home.len() > 0 {
        home
    } else {
        Seq::new(profiles as nat, |i: int| i as usize)
    }
}

fn offered_profiles(home: &Vec<usize>, profiles: usize) -> (r: Vec<usize>)
    ensures
        r@ == offered(home@, profiles as int),
{
    let mut r: Vec<usize> = Vec::new();
    if home.len() > 0 {
        let mut i: usize = 0;
        while i < home.len()
            invariant
                i <= home@.len(),
                r@ == home@.take(i as int),
            decreases home@.len() - i,
        {
            r.push(home[i]);
            i += 1;
            assert(r@ =~= home@.take(i as int));
        }
        assert(home@.take(home@.len() as int) =~= home@);
    } else {
        let mut i: usize = 0;
        while i < profiles
            invariant
                i <= profiles,
                r@ == Seq::new(i as nat, |k: int| k as usize),
            decreases profiles - i,
        {
            r.push(i);
            i += 1;
            assert(r@ =~= Seq::new(i as nat, |k: int| k as usize));
        }
        assert(r@ =~= offered(home@, profiles as int));
    }
    r
}

/// Whether the entries of a choice are the offered profiles, each with its name.
pub open spec fn choice_entries(
    entries: Seq<(usize, String)>,
    offer: Seq<usize>,
    profiles: Seq<EntryProfile>,
) -> bool {
    &&& entries.len() == offer.len()
    &&& forall|i: int|
        0 <= i < offer.len() ==> (#[trigger] entries[i]).0 == offer[i] && entries[i].1@
            == profiles[offer[i] as int].name@
}

/// Whether `new`, with what is left to do, is `old` after an action. `home` are the profiles whose
/// home is the current branch.
pub open spec fn acted(
    old: App,
    new: App,
    action: UiAction,
    home: Seq<usize>,
    profiles: Seq<EntryProfile>,
    step: ActionStep,
) -> bool {
    match action {
        UiAction::FormSave => new == old && step == if old.form is None {
            ActionStep::Done
        } else if old.composes() {
            ActionStep::PrepareCreate
        } else {
            ActionStep::PlanSave
        },
        UiAction::FormCancel => reverted(old, new) && step is Done,
        UiAction::NewEntry(i) => new == old && step == ActionStep::OpenCreate(i),
        UiAction::NewEntryChoose => {
            let offer = offered(home, profiles.len() as int);
            if offer.len() == 0 {
                new == old && step is Done
            } else if offer.len() == 1 {
                new == old && step == ActionStep::OpenCreate(offer[0])
            } else {
                &&& step is Done
                &&& new == (App { overlay: new.overlay, ..old })
                &&& new.overlay matches Some(Overlay::ChooseProfile { entries, sel }) && sel == 0
                    && choice_entries(entries@, offer, profiles)
            }
        },
        UiAction::DeleteEntry(dn) => if dn@.len() == 0 {
            new == old && step is Done
        } else {
            &&& step is Done
            &&& new == (App { overlay: new.overlay, ..old })
            &&& new.overlay matches Some(Overlay::Confirm { title, body, action: a }) && title@
                == "Delete this entry?"@ && body@ == dn@ && a == (PendingAction::Delete { dn })
        },
        UiAction::Refresh => new == old && step is Refresh,
        UiAction::AllocateNextNumber { field_idx } => new == old && step == ActionStep::Allocate(
            field_idx,
        ),
        UiAction::Nothing => new == old && step is Done,
    }
}

/// Handles an action: deleting asks first, a new entry asks for a profile where several are
/// offered, and what needs the directory or the schema is left to be done.
pub fn handle_action(
    app: &mut App,
    action: UiAction,
    home: &Vec<usize>,
    profiles: &Vec<EntryProfile>,
) -> (step: ActionStep)
    requires
        forall|i: int| 0 <= i < home@.len() ==> (#[trigger] home@[i]) < profiles@.len(),
    ensures
        acted(*old(app), *final(app), action, home@, profiles@, step),
{
    match action {
        UiAction::FormSave => {
            if app.form.is_none() {
                ActionStep::Done
            } else if app.composing() {
                ActionStep::PrepareCreate
            } else {
                ActionStep::PlanSave
            }
        },
        UiAction::FormCancel => {
            revert_form(app);
            ActionStep::Done
        },
        UiAction::NewEntry(i) => ActionStep::OpenCreate(i),
        UiAction::NewEntryChoose => {
            let offer: Vec<usize> = offered_profiles(home, profiles.len());
            if offer.len() == 0 {
                return ActionStep::Done;
            }
            if offer.len() == 1 {
                return ActionStep::OpenCreate(offer[0]);
            }
            let mut entries: Vec<(usize, String)> = Vec::new();
            let mut i: usize = 0;
            while i < offer.len()
                invariant
                    i <= offer@.len(),
                    offer@ == offered(home@, profiles@.len() as int),
                    forall|k: int| 0 <= k < home@.len() ==> (#[trigger] home@[k]) < profiles@.len(),
                    choice_entries(entries@, offer@.take(i as int), profiles@),
                decreases offer@.len() - i,
            {
                let at: usize = offer[i];
                assert(at < profiles@.len());
                entries.push((at, profiles[at].name.clone()));
                i += 1;
            }
            assert(offer@.take(offer@.len() as int) =~= offer@);
            app.overlay = Some(Overlay::ChooseProfile { entries, sel: 0 });
            ActionStep::Done
        },
        UiAction::DeleteEntry(dn) => {
            if !dn.as_str().is_empty() {
                app.overlay = Some(
                    Overlay::Confirm {
                        title: "Delete this entry?".to_owned(),
                        body: dn.clone(),
                        action: PendingAction::Delete { dn },
                    },
                );
            }
            ActionStep::Done
        },
        UiAction::Refresh => ActionStep::Refresh,
        UiAction::AllocateNextNumber { field_idx } => ActionStep::Allocate(field_idx),
        UiAction::Nothing => ActionStep::Done,
    }
}

/// The attribute and the range of the number that a field is bound to, if it is bound to one.
pub open spec fn range_of(app: App, field: int) -> Option<(Seq<char>, u64, u64)> {
    if has_field(app.form, field) {
        let f = app.form->0.fields@[field];
        match f.widget_binding {
            Some(WidgetKind::NextNumber { min, max }) => Some((f.label@, min, max)),
            _ => None,
        }
    } else {
        None
    }
}

/// The attribute and the range of the number that a field is bound to, if it is bound to one.
pub fn number_wanted(app: &App, field: usize) -> (r: Option<(String, u64, u64)>)
    ensures
        match range_of(*app, field as int) {
            Some(w) => r matches Some(x) && x.0@ == w.0 && x.1 == w.1 && x.2 == w.2,
            None => r is None,
        },
{
    match &app.form {
        None => None,
        Some(form) => {
            if field >= form.fields.len() {
                return None;
            }
            match &form.fields[field].widget_binding {
                Some(WidgetKind::NextNumber { min, max }) => Some(
                    (form.fields[field].label.clone(), *min, *max),
                ),
                _ => None,
            }
        },
    }
}

/// Whether `new` is `old` after a number was looked for: it stands in the field, or a message says why
/// there is none.
pub open spec fn number_settled(old: App, new: App, field: int, answer: Result<u64, String>) -> bool {
    match answer {
        Err(text) => new == (App { overlay: Some(Overlay::Error { text }), ..old }),
        Ok(n) => if has_field(old.form, field) {
            &&& new == (App { form: new.form, ..old })
            &&& only_field_differs(old.form, new.form, field)
            &&& new.form->0.fields@[field] == (EditField {
                editor: new.form->0.fields@[field].editor,
                ..old.form->0.fields@[field]
            })
            &&& new.form->0.fields@[field].editor.model() == (decimal_of(n as nat), 0int)
        } else {
            new == old
        },
    }
}

/// Fills the number that was found into a field, or shows why there is none.
pub fn fill_allocated(app: &mut App, field: usize, answer: Result<u64, String>)
    ensures
        number_settled(*old(app), *final(app), field as int, answer),
{
    match answer {
        Err(text) => {
            app.overlay = Some(Overlay::Error { text });
        },
        Ok(n) => match &mut app.form {
            Some(form) => {
                if field < form.fields.len() {
                    form.fields[field].editor = TextInput::with_value(decimal(n));
                }
            },
            None => {},
        },
    }
}

/// What planning the save of one entry came to: what is submitted and shown, or why not.
pub enum PlannedSave {
    Ready { plan: SavePlan, dn: String, ldif: String },
    NoChanges,
    Invalid(Vec<ValidationError>),
    DiffError(String),
    Refused(String),
}

/// Whether a planned save cannot be made, and the message that says so.
pub open spec fn refusal(planned: PlannedSave, text: Seq<char>) -> bool {
    match planned {
        PlannedSave::Invalid(errs) => text == error_message(errs@),
        PlannedSave::DiffError(e) => text == e@,
        PlannedSave::Refused(e) => text == e@,
        _ => false,
    }
}

/// Whether `new` is `old` with a message that a save cannot be made.
pub open spec fn refused(old: App, new: App, planned: PlannedSave) -> bool {
    &&& new == (App { overlay: new.overlay, ..old })
    &&& new.overlay matches Some(Overlay::Error { text }) && refusal(planned, text@)
}

/// Whether `new` is `old` after a save was planned: a save with groups shows its own dialog
/// (`combined`), a plain one asks first.
pub open spec fn save_shown(
    old: App,
    new: App,
    combined: Option<Overlay>,
    planned: PlannedSave,
) -> bool {
    match combined {
        Some(ov) => new == (App { overlay: Some(ov), ..old }),
        None => match planned {
            PlannedSave::Ready { plan, dn, ldif } => {
                &&& new == (App { overlay: new.overlay, ..old })
                &&& new.overlay matches Some(Overlay::Confirm { title, body, action }) && title@
                    == "Apply these changes?"@ && body == ldif && action == (PendingAction::Save {
                    plan,
                    dn,
                    nav: None,
                })
            },
            PlannedSave::NoChanges => {
                &&& new == (App { status: new.status, ..old })
                &&& new.status@ == "No changes."@
            },
            _ => refused(old, new, planned),
        },
    }
}

fn refuse(app: &mut App, planned: PlannedSave)
    requires
        planned is Invalid || planned is DiffError || planned is Refused,
    ensures
        refused(*old(app), *final(app), planned),
{
    let text: String = match planned {
        PlannedSave::Invalid(errs) => format_validation_errors(&errs),
        PlannedSave::DiffError(e) => e,
        PlannedSave::Refused(e) => e,
        _ => String::new(),
    };
    app.overlay = Some(Overlay::Error { text });
}

/// Shows what a planned save came to.
pub fn show_planned_save(app: &mut App, combined: Option<Overlay>, planned: PlannedSave)
    ensures
        save_shown(*old(app), *final(app), combined, planned),
{
    match combined {
        Some(ov) => {
            app.overlay = Some(ov);
        },
        None => match planned {
            PlannedSave::Ready { plan, dn, ldif } => {
                app.overlay = Some(
                    Overlay::Confirm {
                        title: "Apply these changes?".to_owned(),
                        body: ldif,
                        action: PendingAction::Save { plan, dn, nav: None },
                    },
                );
            },
            PlannedSave::NoChanges => {
                app.status = "No changes.".to_owned();
            },
            PlannedSave::Invalid(errs) => refuse(app, PlannedSave::Invalid(errs)),
            PlannedSave::DiffError(e) => refuse(app, PlannedSave::DiffError(e)),
            PlannedSave::Refused(e) => refuse(app, PlannedSave::Refused(e)),
        },
    }
}

/// What a confirmed step leaves to be done.
pub enum PendingStep {
    /// Submit the request, if there is one.
    Submit(Option<Request>),
    /// Read the entry, if there is one.
    Read(Option<String>),
    /// Open a form for a new entry of a profile.
    OpenCreate(usize),
    /// Prepare the new entry that the form composes.
    PrepareCreate,
    /// Plan the save of the form, and then go on with what a guard held up.
    PlanGuardSave(GuardIntent),
    /// Carry out a save with groups.
    ApplyCombined {
        entry_dn: String,
        own_mods: Vec<ModOp>,
        fanout: Vec<(String, ModOp)>,
        then_intent: Option<GuardIntent>,
    },
}

/// Whether `new` is `old` up to its status line, which reads `text`.
pub open spec fn status_set(old: App, new: App, text: Seq<char>) -> bool {
    new == (App { status: new.status, ..old }) && new.status@ == text
}

/// Whether `new`, with what is left to do, is `old` after a confirmed step.
pub open spec fn executed(
    old: App,
    new: App,
    action: PendingAction,
    id: u64,
    before: Writes,
    after: Writes,
    step: PendingStep,
) -> bool {
    match action {
        PendingAction::Save { plan, dn, nav } => {
            &&& status_set(old, new, "Saving…"@)
            &&& step matches PendingStep::Submit(r) && submitted(
                plan,
                dn@,
                nav,
                false,
                id,
                before,
                after,
                r,
            )
        },
        PendingAction::Create { dn, attrs, parent } => {
            &&& status_set(old, new, "Creating…"@)
            &&& step matches PendingStep::Submit(Some(Request::Add { id: i, dn: d, attrs: a })) && i
                == id && d == dn && a == attrs
            &&& after.followups == before.followups
            &&& after.post@ == before.post@.insert(id, after.post@[id])
            &&& after.post@[id] matches PostWrite::Created { parent: p, dn: d, attrs: a } && p
                == parent && d@ == dn@ && a@ == attrs@
        },
        PendingAction::Delete { dn } => {
            &&& status_set(old, new, "Deleting…"@)
            &&& step matches PendingStep::Submit(Some(Request::Delete { id: i, dn: d })) && i == id
                && d@ == dn@
            &&& after.followups == before.followups
            &&& after.post@ == before.post@.insert(id, PostWrite::Deleted { dn })
        },
        PendingAction::OpenCreate { profile_idx } => new == old && after == before && step
            == PendingStep::OpenCreate(profile_idx),
        PendingAction::ResolveGuard { intent, save } => {
            &&& after == before
            &&& if !save || old.form is None {
                step matches PendingStep::Read(read) && intent_done(old, new, intent, read)
            } else if old.composes() {
                new == old && step is PrepareCreate
            } else {
                new == old && step == PendingStep::PlanGuardSave(intent)
            }
        },
        PendingAction::CombinedSave { entry_dn, own_mods, fanout, then_intent } => new == old
            && after == before && step == (PendingStep::ApplyCombined {
            entry_dn,
            own_mods,
            fanout,
            then_intent,
        }),
    }
}

/// Whether a confirmed step gives out an id.
pub open spec fn gives_id(action: PendingAction) -> bool {
    match action {
        PendingAction::Save { plan, dn, nav } => !(plan is Nothing),
        PendingAction::Create { .. } => true,
        PendingAction::Delete { .. } => true,
        _ => false,
    }
}

/// Runs a confirmed step: writes are submitted and noted, a guard that was told to discard goes on,
/// and what needs the directory or the schema first is left to be done.
pub fn execute_pending(
    app: &mut App,
    action: PendingAction,
    ids: &mut WriteIds,
    writes: &mut Writes,
) -> (step: PendingStep)
    ensures
        executed(
            *old(app),
            *final(app),
            action,
            old(ids).next,
            *old(writes),
            *final(writes),
            step,
        ),
        final(ids).next == if gives_id(action) {
            id_after(old(ids).next)
        } else {
            old(ids).next
        },
{
    broadcast use vstd::std_specs::hash::group_hash_axioms;

    match action {
        PendingAction::Save { plan, dn, nav } => {
            let r: Option<Request> = submit_prepared(plan, &dn, nav, false, ids, writes);
            app.status = "Saving…".to_owned();
            PendingStep::Submit(r)
        },
        PendingAction::Create { dn, attrs, parent } => {
            let id: u64 = ids.next_id();
            let noted: PostWrite = PostWrite::Created {
                parent,
                dn: dn.clone(),
                attrs: attrs.copy(),
            };
            writes.post.insert(id, noted);
            assert(writes.post@ =~= old(writes).post@.insert(id, writes.post@[id]));
            app.status = "Creating…".to_owned();
            PendingStep::Submit(Some(Request::Add { id, dn, attrs }))
        },
        PendingAction::Delete { dn } => {
            let id: u64 = ids.next_id();
            let request: Request = Request::Delete { id, dn: dn.clone() };
            writes.post.insert(id, PostWrite::Deleted { dn });
            app.status = "Deleting…".to_owned();
            PendingStep::Submit(Some(request))
        },
        PendingAction::OpenCreate { profile_idx } => PendingStep::OpenCreate(profile_idx),
        PendingAction::ResolveGuard { intent, save } => {
            if !save || app.form.is_none() {
                return PendingStep::Read(perform_guard_intent(app, intent));
            }
            if app.composing() {
                return PendingStep::PrepareCreate;
            }
            PendingStep::PlanGuardSave(intent)
        },
        PendingAction::CombinedSave { entry_dn, own_mods, fanout, then_intent } => {
            PendingStep::ApplyCombined { entry_dn, own_mods, fanout, then_intent }
        },
    }
}

/// Whether `new`, with what is left to do, is `old` after the save that a guard asked for was
/// planned. A move waits for the write, with the entry moved to as the awaited one; a change of
/// focus does not wait; quitting waits, so that the write is not lost.
pub open spec fn guard_saved(
    old: App,
    new: App,
    intent: GuardIntent,
    combined: Option<Overlay>,
    planned: PlannedSave,
    id: u64,
    before: Writes,
    after: Writes,
    step: PendingStep,
) -> bool {
    match combined {
        Some(ov) => new == (App { overlay: Some(ov), ..old }) && after == before && (step matches
            PendingStep::Read(None)),
        None => match planned {
            PlannedSave::Ready { plan, dn, ldif } => match step {
                PendingStep::Submit(r) => match intent {
                    GuardIntent::Nav(target) => {
                        &&& new == (App {
                            status: new.status,
                            last_seen_leaf: new.last_seen_leaf,
                            ..old
                        })
                        &&& new.status@ == "Saving…"@
                        &&& same_target(new.last_seen_leaf, target)
                        &&& submitted(plan, dn@, target, false, id, before, after, r)
                    },
                    GuardIntent::Focus(pane) => {
                        &&& new == (App { status: new.status, focus: pane, ..old })
                        &&& new.status@ == "Saving…"@
                        &&& submitted(plan, dn@, None, false, id, before, after, r)
                    },
                    GuardIntent::Quit => {
                        &&& status_set(old, new, "Saving…"@)
                        &&& submitted(plan, dn@, None, true, id, before, after, r)
                    },
                },
                _ => false,
            },
            PlannedSave::NoChanges => after == before && (step matches PendingStep::Read(read)
                && intent_done(old, new, intent, read)),
            _ => after == before && refused(old, new, planned) && (step matches PendingStep::Read(
                None,
            )),
        },
    }
}

/// Goes on once the save that a guard asked for was planned.
pub fn finish_guard_save(
    app: &mut App,
    intent: GuardIntent,
    combined: Option<Overlay>,
    planned: PlannedSave,
    ids: &mut WriteIds,
    writes: &mut Writes,
) -> (step: PendingStep)
    ensures
        guard_saved(
            *old(app),
            *final(app),
            intent,
            combined,
            planned,
            old(ids).next,
            *old(writes),
            *final(writes),
            step,
        ),
        final(ids).next == if combined is None && (planned matches PlannedSave::Ready {
            plan,
            dn,
            ldif,
        } && !(plan is Nothing)) {
            id_after(old(ids).next)
        } else {
            old(ids).next
        },
{
    match combined {
        Some(ov) => {
            app.overlay = Some(ov);
            PendingStep::Read(None)
        },
        None => match planned {
            PlannedSave::Ready { plan, dn, .. } => {
                app.status = "Saving…".to_owned();
                match intent {
                    GuardIntent::Nav(target) => {
                        app.last_seen_leaf = match &target {
                            Some(t) => Some(t.clone()),
                            None => None,
                        };
                        PendingStep::Submit(submit_prepared(plan, &dn, target, false, ids, writes))
                    },
                    GuardIntent::Focus(pane) => {
                        let r: Option<Request> = submit_prepared(
                            plan,
                            &dn,
                            None,
                            false,
                            ids,
                            writes,
                        );
                        app.focus = pane;
                        PendingStep::Submit(r)
                    },
                    GuardIntent::Quit => PendingStep::Submit(
                        submit_prepared(plan, &dn, None, true, ids, writes),
                    ),
                }
            },
            PlannedSave::NoChanges => PendingStep::Read(perform_guard_intent(app, intent)),
            PlannedSave::Invalid(errs) => {
                refuse(app, PlannedSave::Invalid(errs));
                PendingStep::Read(None)
            },
            PlannedSave::DiffError(e) => {
                refuse(app, PlannedSave::DiffError(e));
                PendingStep::Read(None)
            },
            PlannedSave::Refused(e) => {
                refuse(app, PlannedSave::Refused(e));
                PendingStep::Read(None)
            },
        },
    }
}

/// A guard told to save does not give up the form's edits where the save cannot be made: the step
/// is not taken, and the form stays.
pub proof fn failed_guard_save_keeps_edits(
    old: App,
    new: App,
    intent: GuardIntent,
    planned: PlannedSave,
    id: u64,
    before: Writes,
    after: Writes,
    step: PendingStep,
)
    requires
        guard_saved(old, new, intent, None, planned, id, before, after, step),
        planned is Invalid || planned is DiffError || planned is Refused,
    ensures
        new.form == old.form,
        new.should_quit == old.should_quit,
        new.focus == old.focus,
        new.last_seen_leaf == old.last_seen_leaf,
        after == before,
{
}

/// The branch that the list shows next: the selected node of the tree, where it is one of the tree's
/// branches and not the current one.
pub open spec fn branch_due(app: App, known: bool) -> Option<Seq<char>> {
    match selected_id(app.tree_state) {
        Some(id) => if id != app.current_branch@ && known {
            Some(id)
        } else {
            None
        },
        None => None,
    }
}

/// Whether the list is to be made anew: for another branch, or another search text.
pub open spec fn rows_due(app: App, known: bool) -> bool {
    branch_due(app, known) is Some || app.search.value@ != app.last_search@
}

/// The branch and the search text that the list shows next, where it is to be made anew. `known`
/// tells whether the selected node of the tree is one of its branches.
pub fn next_rows(app: &App, known: bool) -> (r: Option<(String, String)>)
    ensures
        match r {
            Some(p) => rows_due(*app, known) && p.1@ == app.search.value@ && p.0@ == match branch_due(
                *app,
                known,
            ) {
                Some(b) => b,
                None => app.current_branch@,
            },
            None => !rows_due(*app, known),
        },
{
    let moved: Option<String> = match selected_node(&app.tree_state) {
        Some(id) => if known && !same_text(&id, &app.current_branch) {
            Some(id)
        } else {
            None
        },
        None => None,
    };
    match moved {
        Some(id) => Some((id, app.search.value.clone())),
        None => if same_text(app.search.value(), &app.last_search) {
            None
        } else {
            Some((app.current_branch.clone(), app.search.value.clone()))
        },
    }
}

/// A place brought back into a list of `n`.
pub open spec fn clamped(sel: usize, n: nat) -> usize {
    if sel < n {
        sel
    } else if n > 0 {
        (n - 1) as usize
    } else {
        0
    }
}

/// Whether `mid` is `old` with the list made anew, where that is due. Another branch is shown from
/// the top, and what was shown before is forgotten; another search keeps the highlight in the list.
pub open spec fn rows_renewed(old: App, mid: App, known: bool, rows: Vec<(String, String)>) -> bool {
    let moved = branch_due(old, known) is Some;
    let searched = old.search.value@ != old.last_search@;
    &&& mid == (App {
        current_branch: mid.current_branch,
        last_search: mid.last_search,
        rows: mid.rows,
        leaf_sel: mid.leaf_sel,
        last_seen_leaf: mid.last_seen_leaf,
        ..old
    })
    &&& mid.rows == if moved || searched {
        rows
    } else {
        old.rows
    }
    &&& mid.leaf_sel == if searched {
        clamped(
            if moved {
                0
            } else {
                old.leaf_sel
            },
            rows@.len(),
        )
    } else if moved {
        0
    } else {
        old.leaf_sel
    }
    &&& mid.current_branch@ == match branch_due(old, known) {
        Some(b) => b,
        None => old.current_branch@,
    }
    &&& mid.last_search@ == old.search.value@
    &&& mid.last_seen_leaf == if moved {
        None
    } else {
        old.last_seen_leaf
    }
}

fn renew_rows(app: &mut App, known: bool, rows: Vec<(String, String)>)
    ensures
        rows_renewed(*old(app), *final(app), known, rows),
{
    let moved: Option<String> = match selected_node(&app.tree_state) {
        Some(id) => if known && !same_text(&id, &app.current_branch) {
            Some(id)
        } else {
            None
        },
        None => None,
    };
    let searched: bool = !same_text(app.search.value(), &app.last_search);
    let renewed: bool = moved.is_some() || searched;
    match moved {
        Some(id) => {
            app.current_branch = id;
            app.leaf_sel = 0;
            app.last_seen_leaf = None;
        },
        None => {},
    }
    if searched {
        app.last_search = app.search.value.clone();
        if app.leaf_sel >= rows.len() {
            app.leaf_sel = rows.len().saturating_sub(1);
        }
    }
    if renewed {
        app.rows = rows;
    }
}

/// The name of the highlighted entry.
pub open spec fn highlighted(app: App) -> Option<String> {
    if app.leaf_sel < app.rows@.len() {
        Some(app.rows@[app.leaf_sel as int].1)
    } else {
        None
    }
}

/// Whether `new`, with the entry to read, is `mid` after the highlighted entry was compared with
/// the one shown: another one opens the guard where there are unsaved edits, and is read where there
/// are none.
pub open spec fn followed(mid: App, new: App, read: Option<String>) -> bool {
    let target = highlighted(mid);
    if same_target(target, mid.last_seen_leaf) {
        new == mid && read is None
    } else if mid.has_edits() {
        new == (App {
            overlay: Some(Overlay::Guard { intent: GuardIntent::Nav(target) }),
            ..mid
        }) && read is None
    } else {
        navigated(mid, new, target) && read == target
    }
}

fn targets_equal(a: &Option<String>, b: &Option<String>) -> (r: bool)
    ensures
        r == same_target(*a, *b),
{
    match (a, b) {
        (Some(x), Some(y)) => same_text(x, y),
        (None, None) => true,
        _ => false,
    }
}

/// Brings the panes in step: a node selected in the tree changes the branch, a changed search text
/// the list, and a highlighted entry the form. `known` tells whether the selected node is one of
/// the tree's branches, and `rows` are the rows for the branch and the search text of `next_rows`.
/// Gives back the name of the entry to read.
pub fn reconcile(app: &mut App, known: bool, rows: Vec<(String, String)>) -> (read: Option<String>)
    ensures
        exists|mid: App|
            {
                &&& rows_renewed(*old(app), mid, known, rows)
                &&& #[trigger] followed(mid, *final(app), read)
            },
{
    renew_rows(app, known, rows);
    let ghost mid = *app;
    let target: Option<String> = if app.leaf_sel < app.rows.len() {
        Some(app.rows[app.leaf_sel].1.clone())
    } else {
        None
    };
    assert(target == highlighted(mid));
    if targets_equal(&target, &app.last_seen_leaf) {
        assert(followed(mid, *app, None));
        return None;
    }
    let edits: bool = match &app.form {
        Some(f) => f.is_dirty(),
        None => false,
    };
    if edits {
        app.overlay = Some(Overlay::Guard { intent: GuardIntent::Nav(target) });
        assert(followed(mid, *app, None));
        return None;
    }
    let read: Option<String> = navigate_to(app, target);
    assert(followed(mid, *app, read));
    read
}

/// Moving the highlight never replaces a form with unsaved edits: the guard opens, and nothing is
/// read.
pub proof fn edits_are_guarded_from_navigation(mid: App, new: App, read: Option<String>)
    requires
        followed(mid, new, read),
        mid.has_edits(),
    ensures
        new.form == mid.form,
        read is None,
        !same_target(highlighted(mid), mid.last_seen_leaf) ==> new.overlay == Some(
            Overlay::Guard { intent: GuardIntent::Nav(highlighted(mid)) },
        ),
{
}

/// What loading the tree again came to.
pub enum RefreshAnswer {
    /// It was loaded: whether the current branch is still one of it, and the rows of the branch
    /// shown now.
    Loaded { branch_known: bool, rows: Vec<(String, String)> },
    /// The directory refused.
    Refused(String),
    /// Any other answer.
    Failed,
}

/// Whether `new` is `old` after the tree was loaded again. A branch that is gone gives way to the
/// base.
pub open spec fn refreshed(old: App, new: App, base_dn: Seq<char>, answer: RefreshAnswer) -> bool {
    match answer {
        RefreshAnswer::Loaded { branch_known, rows } => {
            &&& new == (App {
                current_branch: new.current_branch,
                rows,
                leaf_sel: 0,
                last_seen_leaf: None,
                status: new.status,
                ..old
            })
            &&& new.current_branch@ == if branch_known {
                old.current_branch@
            } else {
                base_dn
            }
            &&& new.status@ == "Refreshed."@
        },
        RefreshAnswer::Refused(msg) => new == (App {
            overlay: Some(Overlay::Error { text: msg }),
            ..old
        }),
        RefreshAnswer::Failed => {
            &&& new == (App { overlay: new.overlay, ..old })
            &&& new.overlay matches Some(Overlay::Error { text }) && text@ == "refresh failed"@
        },
    }
}

/// Shows the tree as loaded again.
pub fn refresh_structure(app: &mut App, base_dn: &str, answer: RefreshAnswer)
    ensures
        refreshed(*old(app), *final(app), base_dn@, answer),
{
    match answer {
        RefreshAnswer::Loaded { branch_known, rows } => {
            if !branch_known {
                app.current_branch = base_dn.to_owned();
            }
            app.rows = rows;
            app.leaf_sel = 0;
            app.last_seen_leaf = None;
            app.status = "Refreshed.".to_owned();
        },
        RefreshAnswer::Refused(msg) => {
            app.overlay = Some(Overlay::Error { text: msg });
        },
        RefreshAnswer::Failed => {
            app.overlay = Some(Overlay::Error { text: "refresh failed".to_owned() });
        },
    }
}

/// Saving plans the save of an entry, or the creation of one that is composed, and does nothing without
/// a form; nothing is written or shown yet.
pub proof fn saving_is_planned_first(
    old: App,
    new: App,
    home: Seq<usize>,
    profiles: Seq<EntryProfile>,
    step: ActionStep,
)
    requires
        acted(old, new, UiAction::FormSave, home, profiles, step),
    ensures
        new == old,
        step is PlanSave <==> old.form is Some && !(old.form->0.mode is Create),
        step is PrepareCreate <==> old.form is Some && old.form->0.mode is Create,
        step is Done <==> old.form is None,
{
}

/// A deletion asks first, naming the entry, and a yes deletes just that entry.
pub proof fn deletions_ask_first(
    old: App,
    new: App,
    dn: String,
    home: Seq<usize>,
    profiles: Seq<EntryProfile>,
    step: ActionStep,
)
    requires
        acted(old, new, UiAction::DeleteEntry(dn), home, profiles, step),
    ensures
        step is Done,
        new.form == old.form && new.rows == old.rows,
        dn@.len() > 0 ==> (new.overlay matches Some(Overlay::Confirm { title, body, action }) && title@
            == "Delete this entry?"@ && body@ == dn@ && (action matches PendingAction::Delete { dn: d }
            && d@ == dn@)),
        dn@.len() == 0 ==> new == old,
{
}

/// A new entry offers the profiles of the branch where it has any, and otherwise all: none means
/// nothing happens, one is taken at once, and of several the user chooses by name.
pub proof fn profiles_are_offered(
    old: App,
    new: App,
    home: Seq<usize>,
    profiles: Seq<EntryProfile>,
    step: ActionStep,
)
    requires
        acted(old, new, UiAction::NewEntryChoose, home, profiles, step),
        profiles.len() <= usize::MAX,
    ensures
        home.len() == 0 && profiles.len() == 0 ==> new == old && step is Done,
        home.len() == 1 ==> new == old && step == ActionStep::OpenCreate(home[0]),
        home.len() == 0 && profiles.len() == 1 ==> new == old && step == ActionStep::OpenCreate(0),
        home.len() > 1 ==> step is Done && (new.overlay matches Some(
            Overlay::ChooseProfile { entries, sel },
        ) && sel == 0 && entries@.len() == home.len() && forall|i: int|
            0 <= i < home.len() ==> (#[trigger] entries@[i]).0 == home[i] && entries@[i].1@
                == profiles[home[i] as int].name@),
        home.len() == 0 && profiles.len() > 1 ==> step is Done && (new.overlay matches Some(
            Overlay::ChooseProfile { entries, sel },
        ) && sel == 0 && entries@.len() == profiles.len() && forall|i: int|
            0 <= i < profiles.len() ==> (#[trigger] entries@[i]).0 == i && entries@[i].1@
                == profiles[i].name@),
        new.form == old.form && new.rows == old.rows,
{
    if home.len() == 0 {
        let all = offered(home, profiles.len() as int);
        assert(all.len() == profiles.len());
        assert forall|i: int| 0 <= i < profiles.len() implies #[trigger] all[i] == i by {}
    }
}

/// Cancelling gives up the edits; the other actions leave the form to what they ask for.
pub proof fn actions_ask_for_their_step(
    old: App,
    new: App,
    action: UiAction,
    home: Seq<usize>,
    profiles: Seq<EntryProfile>,
    step: ActionStep,
)
    requires
        acted(old, new, action, home, profiles, step),
    ensures
        action is FormCancel ==> reverted(old, new) && step is Done,
        !(action is FormCancel) ==> new.form == old.form && new.status == old.status,
        action matches UiAction::NewEntry(i) ==> new == old && step == ActionStep::OpenCreate(i),
        action is Refresh ==> new == old && step is Refresh,
        action matches UiAction::AllocateNextNumber { field_idx } ==> new == old && step
            == ActionStep::Allocate(field_idx),
        action is Nothing ==> new == old && step is Done,
        new.should_quit == old.should_quit && new.focus == old.focus && new.rows == old.rows,
{
}

/// A number that was found is what the field then holds, written in decimal; nothing else of the form
/// changes. One that was not found is reported, and the form stays.
pub proof fn found_numbers_are_filled_in(
    old: App,
    new: App,
    field: int,
    answer: Result<u64, String>,
    i: int,
)
    requires
        number_settled(old, new, field, answer),
        old.form is Some,
        0 <= field < old.form->0.fields@.len(),
        0 <= i < old.form->0.fields@.len(),
    ensures
        answer matches Ok(n) ==> {
            &&& new.form is Some && new.form->0.fields@.len() == old.form->0.fields@.len()
            &&& i == field ==> new.form->0.fields@[i].editor.value@ == decimal_of(n as nat)
            &&& i == field ==> new.form->0.fields@[i].label == old.form->0.fields@[i].label
                && new.form->0.fields@[i].values == old.form->0.fields@[i].values
            &&& i != field ==> new.form->0.fields@[i] == old.form->0.fields@[i]
            &&& new.form->0.dn == old.form->0.dn && new.form->0.baseline == old.form->0.baseline
            &&& new.overlay == old.overlay
        },
        answer matches Err(text) ==> new.form == old.form && new.overlay == Some(
            Overlay::Error { text },
        ),
{
}

/// A number is wanted for a field exactly when it is bound to one, under its label and in its range.
pub proof fn numbers_are_wanted_for_bound_fields(app: App, field: int)
    requires
        0 <= field,
    ensures
        range_of(app, field) is Some <==> app.form is Some && field < app.form->0.fields@.len()
            && app.form->0.fields@[field].widget_binding is Some
            && app.form->0.fields@[field].widget_binding->0 is NextNumber,
        range_of(app, field) matches Some(w) ==> w.0 == app.form->0.fields@[field].label@
            && app.form->0.fields@[field].widget_binding == Some(
            WidgetKind::NextNumber { min: w.1, max: w.2 },
        ),
{
}

/// A planned save is shown before it is made: what was planned is what a yes then submits, for the
/// same entry. Without changes a note says so, and a save that cannot be made is explained.
pub proof fn planned_saves_are_shown(
    old: App,
    new: App,
    combined: Option<Overlay>,
    planned: PlannedSave,
)
    requires
        save_shown(old, new, combined, planned),
    ensures
        new.form == old.form && new.should_quit == old.should_quit && new.focus == old.focus,
        combined is Some ==> new.overlay == combined && new.status == old.status,
        combined is None ==> match planned {
            PlannedSave::Ready { plan, dn, ldif } => new.overlay matches Some(
                Overlay::Confirm { title, body, action },
            ) && title@ == "Apply these changes?"@ && body@ == ldif@ && (
            action matches PendingAction::Save { plan: p, dn: d, nav } && p == plan && d@ == dn@
                && nav is None),
            PlannedSave::NoChanges => new.overlay == old.overlay && new.status@ == "No changes."@,
            PlannedSave::Invalid(errs) => new.overlay matches Some(Overlay::Error { text }) && text@
                == error_message(errs@),
            PlannedSave::DiffError(e) => new.overlay matches Some(Overlay::Error { text }) && text@
                == e@,
            PlannedSave::Refused(e) => new.overlay matches Some(Overlay::Error { text }) && text@
                == e@,
        },
{
}

/// A confirmed creation adds the entry as it was composed, under the next id, and a confirmed deletion
/// deletes the entry that was named; each waits for its answer, and the form stays meanwhile.
pub proof fn confirmed_writes_are_submitted(
    old: App,
    new: App,
    action: PendingAction,
    id: u64,
    before: Writes,
    after: Writes,
    step: PendingStep,
)
    requires
        executed(old, new, action, id, before, after, step),
    ensures
        action matches PendingAction::Create { dn, attrs, parent } ==> {
            &&& step matches PendingStep::Submit(Some(Request::Add { id: i, dn: d, attrs: a })) && i
                == id && d@ == dn@ && a@ == attrs@
            &&& after.post@.contains_key(id) && (after.post@[id] matches PostWrite::Created {
                parent: p,
                dn: d,
                attrs: a,
            } && p@ == parent@ && d@ == dn@ && a@ == attrs@)
            &&& new.status@ == "Creating…"@ && new.form == old.form && new.overlay == old.overlay
        },
        action matches PendingAction::Delete { dn } ==> {
            &&& step matches PendingStep::Submit(Some(Request::Delete { id: i, dn: d })) && i == id
                && d@ == dn@
            &&& after.post@.contains_key(id) && (after.post@[id] matches PostWrite::Deleted {
                dn: d,
            } && d@ == dn@)
            &&& new.status@ == "Deleting…"@ && new.form == old.form && new.overlay == old.overlay
        },
        action matches PendingAction::Save { plan, dn, nav } ==> {
            &&& step matches PendingStep::Submit(r) && submitted(
                plan,
                dn@,
                nav,
                false,
                id,
                before,
                after,
                r,
            )
            &&& new.status@ == "Saving…"@ && new.form == old.form && new.overlay == old.overlay
        },
        gives_id(action) <==> (step matches PendingStep::Submit(Some(_))),
{
}

/// A confirmed step that writes nothing itself hands on what was confirmed: the profile of a new entry,
/// or the changes of an entry and its groups, with what comes after them.
pub proof fn confirmed_steps_are_handed_on(
    old: App,
    new: App,
    action: PendingAction,
    id: u64,
    before: Writes,
    after: Writes,
    step: PendingStep,
)
    requires
        executed(old, new, action, id, before, after, step),
    ensures
        action matches PendingAction::OpenCreate { profile_idx } ==> step == PendingStep::OpenCreate(
            profile_idx,
        ) && new == old && after == before,
        action matches PendingAction::CombinedSave { entry_dn, own_mods, fanout, then_intent } ==> (
        step matches PendingStep::ApplyCombined { entry_dn: d, own_mods: m, fanout: f, then_intent: t }
            && d == entry_dn && m == own_mods && f == fanout && t == then_intent) && new == old && after
            == before,
        action matches PendingAction::ResolveGuard { intent, save } ==> {
            &&& after == before
            &&& save && old.form is Some && !old.composes() ==> new == old && step
                == PendingStep::PlanGuardSave(intent)
            &&& save && old.form is Some && old.composes() ==> new == old && step is PrepareCreate
            &&& !save || old.form is None ==> (step matches PendingStep::Read(read) && intent_done(
                old,
                new,
                intent,
                read,
            ))
        },
{
}

/// A guard that saves first submits the plan for its entry, and then goes on: a move waits for the
/// write and goes to its entry after it, a change of focus happens at once, and quitting waits. Without
/// changes the step is taken at once; a save with groups asks first.
pub proof fn guarded_saves_go_on(
    old: App,
    new: App,
    intent: GuardIntent,
    combined: Option<Overlay>,
    planned: PlannedSave,
    id: u64,
    before: Writes,
    after: Writes,
    step: PendingStep,
)
    requires
        guard_saved(old, new, intent, combined, planned, id, before, after, step),
    ensures
        new.form == old.form || (combined is None && planned is NoChanges),
        combined is Some ==> new.overlay == combined && step == PendingStep::Read(None) && after
            == before && new.should_quit == old.should_quit && new.focus == old.focus,
        combined is None ==> (planned matches PlannedSave::Ready { plan, dn, ldif } ==> {
            &&& new.status@ == "Saving…"@ && new.overlay == old.overlay
            &&& new.should_quit == old.should_quit
            &&& step matches PendingStep::Submit(r) && submitted(
                plan,
                dn@,
                (match intent {
                    GuardIntent::Nav(target) => target,
                    _ => None,
                }),
                intent is Quit,
                id,
                before,
                after,
                r,
            )
            &&& new.focus == match intent {
                GuardIntent::Focus(pane) => pane,
                _ => old.focus,
            }
            &&& intent matches GuardIntent::Nav(target) ==> same_target(new.last_seen_leaf, target)
            &&& !(intent is Nav) ==> new.last_seen_leaf == old.last_seen_leaf
        }),
        combined is None && planned is NoChanges ==> after == before && (step matches PendingStep::Read(
            read,
        ) && intent_done(old, new, intent, read)),
{
}

/// The list follows the tree and the search box: a newly selected branch is listed from the top, a new
/// search text keeps the highlight in the list, and without either nothing changes.
pub proof fn lists_follow_the_tree_and_the_search(
    old: App,
    mid: App,
    known: bool,
    rows: Vec<(String, String)>,
)
    requires
        rows_renewed(old, mid, known, rows),
    ensures
        ({
            let chosen = selected_id(old.tree_state);
            let moved = known && chosen is Some && chosen->0 != old.current_branch@;
            let searched = old.search.value@ != old.last_search@;
            &&& moved ==> mid.current_branch@ == chosen->0 && mid.leaf_sel == 0
                && mid.last_seen_leaf is None && mid.rows == rows
            &&& !moved ==> mid.current_branch@ == old.current_branch@ && mid.last_seen_leaf
                == old.last_seen_leaf
            &&& searched ==> mid.rows == rows && (rows@.len() > 0 ==> mid.leaf_sel < rows@.len())
            &&& !moved && searched && old.leaf_sel < rows@.len() ==> mid.leaf_sel == old.leaf_sel
            &&& !moved && searched && old.leaf_sel >= rows@.len() && rows@.len() > 0 ==> mid.leaf_sel
                == rows@.len() - 1
            &&& !moved && !searched ==> mid.rows == old.rows && mid.leaf_sel == old.leaf_sel
            &&& mid.last_search@ == old.search.value@
            &&& mid.form == old.form && mid.overlay == old.overlay && mid.focus == old.focus
            &&& rows_due(old, known) <==> moved || searched
        }),
{
}

/// The form follows the highlight: an entry that is not the awaited one is read, unless there are edits
/// to lose, in which case the guard asks and holds the move up.
pub proof fn the_form_follows_the_highlight(mid: App, new: App, read: Option<String>)
    requires
        followed(mid, new, read),
    ensures
        ({
            let here = mid.leaf_sel < mid.rows@.len();
            let entry = mid.rows@[mid.leaf_sel as int].1;
            let shown = if here {
                mid.last_seen_leaf is Some && mid.last_seen_leaf->0@ == entry@
            } else {
                mid.last_seen_leaf is None
            };
            &&& shown ==> new == mid && read is None
            &&& !shown && mid.has_edits() ==> read is None && new.form == mid.form
                && new.last_seen_leaf == mid.last_seen_leaf && (new.overlay matches Some(
                Overlay::Guard { intent: GuardIntent::Nav(target) },
            ) && target == (if here {
                Some(entry)
            } else {
                None
            }))
            &&& !shown && !mid.has_edits() && here ==> read == Some(entry)
                && new.last_seen_leaf is Some && new.last_seen_leaf->0@ == entry@ && new.overlay
                == mid.overlay
            &&& !shown && !mid.has_edits() && !here ==> read is None && new.form is None
                && new.last_seen_leaf is None
        }),
{
}

/// A tree that was loaded again lists its branch from the top, or the base where the branch is gone;
/// the edits in the form stay. A failure is reported and changes nothing else.
pub proof fn reloading_keeps_the_form(old: App, new: App, base_dn: Seq<char>, answer: RefreshAnswer)
    requires
        refreshed(old, new, base_dn, answer),
    ensures
        new.form == old.form && new.should_quit == old.should_quit && new.focus == old.focus,
        answer matches RefreshAnswer::Loaded { branch_known, rows } ==> new.rows == rows
            && new.leaf_sel == 0 && new.last_seen_leaf is None && new.overlay == old.overlay
            && new.status@ == "Refreshed."@ && new.current_branch@ == (if branch_known {
            old.current_branch@
        } else {
            base_dn
        }),
        !(answer is Loaded) ==> new.rows == old.rows && new.current_branch == old.current_branch
            && new.last_seen_leaf == old.last_seen_leaf,
        answer matches RefreshAnswer::Refused(msg) ==> new.overlay == Some(
            Overlay::Error { text: msg },
        ),
        answer is Failed ==> (new.overlay matches Some(Overlay::Error { text }) && text@
            == "refresh failed"@),
{
}

} // verus!
