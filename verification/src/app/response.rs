//! What the answers of the directory lead to.
use vstd::prelude::*;
use vstd::string::*;

use crate::app::create::{build_loaded_form, loaded_from};
use crate::app::{
    can_install, rebind_selection, rebound, should_install_form, App, Overlay,
};
use crate::attrs::AttrMap;
use crate::changes::{id_after, WriteIds};
use crate::edit_form::{EditForm, FormModel};
use crate::text::{is_blank, same_text, trimmed};
use crate::value_editor::{
    candidates_among, found_candidates, picks, upgraded, FoundEntry, Pick, ValueEditor,
};
use crate::writes::{FollowUp, PostWrite, Request, Writes};

verus! {

/// What the reading of an entry came to.
pub enum ReadOutcome {
    /// The entry as read.
    Form(FormModel),
    /// The read failed.
    Error(String),
    /// The answer belongs to no read under way.
    Ignored,
}

/// An answer of the directory.
pub enum Response {
    /// Entries for a search. At `cap` entries a candidate search is cut off.
    Entries { id: u64, found: Vec<FoundEntry>, cap: usize },
    /// A write was made.
    WriteOk { id: u64 },
    /// A write was refused.
    WriteError { id: u64, msg: String },
    /// What the reading of an entry came to.
    Read(ReadOutcome),
}

/// What an answer leaves to be done.
pub enum ResponseStep {
    Done,
    /// The answer is none to a candidate search: it belongs to the reading of entries.
    ReadFlow,
    /// Submit the changes that waited for a rename, and read the entry.
    FollowUp { request: Request, read: String },
    /// Read the entry.
    Read(String),
    /// Add the new entry to the tree, and list the rows anew.
    Created { parent: String, dn: String, attrs: AttrMap },
    /// Take the entry out of the tree, and list the rows anew.
    Deleted { dn: String },
}

/// Whether `new` is `old` with the results of a candidate search.
pub open spec fn results_taken(old: App, new: App, found: Seq<FoundEntry>, cap: usize) -> bool {
    match old.overlay {
        Some(Overlay::ValueEditor(ve)) => if ve.binding is Some && ve.picker is Some {
            &&& new == (App { overlay: new.overlay, ..old })
            &&& new.overlay matches Some(Overlay::ValueEditor(v)) && {
                let p = ve.picker->0;
                let q = v.picker->0;
                let by_name = ve.binding->0.store is Dn;
                &&& v == (ValueEditor { picker: v.picker, ..ve })
                &&& v.picker is Some
                &&& q.cursor == p.cursor
                &&& q.key_ci == p.key_ci
                &&& picks(q.results@) == candidates_among(found, by_name)
                &&& picks(q.selected@) == picks(p.selected@).map_values(
                    |s: Pick| upgraded(s, candidates_among(found, by_name), p.key_ci),
                )
                &&& q.search_active == (trimmed(ve.search.value@).len() > 0)
                &&& q.truncated == (found.len() >= cap)
            }
        } else {
            new == old
        },
        _ => new == old,
    }
}

fn take_results(app: &mut App, found: &Vec<FoundEntry>, cap: usize)
    ensures
        results_taken(*old(app), *final(app), found@, cap),
{
    match &mut app.overlay {
        Some(Overlay::ValueEditor(ve)) => {
            let searching: bool = !is_blank(ve.search.value());
            match (&ve.binding, &mut ve.picker) {
                (Some(binding), Some(p)) => {
                    p.take_results(
                        found_candidates(found, &binding.store),
                        searching,
                        found.len(),
                        cap,
                    );
                },
                _ => {},
            }
        },
        _ => {},
    }
}

/// The entry that the form shows after a write: where it was to go, or the entry that was written.
pub open spec fn next_entry(nav: Option<String>, written: String) -> String {
    match nav {
        Some(n) => n,
        None => written,
    }
}

/// Whether `new`, with what is left to do, is `old` after a write without changes waiting for it.
pub open spec fn write_done(old: App, new: App, p: Option<PostWrite>, step: ResponseStep) -> bool {
    match p {
        Some(PostWrite::Save { reread_dn, nav, then_quit }) => if then_quit {
            &&& step is Done
            &&& new == (App { should_quit: true, status: new.status, ..old })
            &&& new.status@ == "Saved."@
        } else {
            &&& step == ResponseStep::Read(next_entry(nav, reread_dn))
            &&& new.status@ == "Saved."@
            &&& rebound(old, (App { status: old.status, ..new }), next_entry(nav, reread_dn)@)
        },
        Some(PostWrite::Created { parent, dn, attrs }) => {
            &&& step == (ResponseStep::Created { parent, dn, attrs })
            &&& new.status@ == "Created."@
            &&& new == if old.composes() {
                (App {
                    form: None,
                    form_focus: 0,
                    form_scroll: 0,
                    last_seen_leaf: None,
                    status: new.status,
                    ..old
                })
            } else {
                (App { status: new.status, ..old })
            }
        },
        Some(PostWrite::Deleted { dn }) => {
            &&& step == (ResponseStep::Deleted { dn })
            &&& new.status@ == "Deleted."@
            &&& new == (App {
                form: if old.form is Some && old.form->0.dn@ == dn@ {
                    None
                } else {
                    old.form
                },
                last_seen_leaf: None,
                status: new.status,
                ..old
            })
        },
        None => {
            &&& step is Done
            &&& new == (App { status: new.status, ..old })
            &&& new.status@ == "Saved."@
        },
    }
}

/// Whether `new`, with what is left to do, is `old` after a write was made. After a rename the
/// changes that waited for it are submitted for the new name.
pub open spec fn write_ok(
    old: App,
    new: App,
    id: u64,
    next: u64,
    before: Writes,
    after: Writes,
    step: ResponseStep,
) -> bool {
    if before.followups@.contains_key(id) {
        let f = before.followups@[id];
        &&& after.followups@ == before.followups@.remove(id)
        &&& after.post == before.post
        &&& rebound(old, new, next_entry(f.nav, f.new_dn)@)
        &&& step matches ResponseStep::FollowUp { request, read } && read@ == next_entry(
            f.nav,
            f.new_dn,
        )@ && (request matches Request::Modify { id: i, dn, changes } && i == next && dn@
            == f.new_dn@ && changes == f.mods)
    } else {
        &&& after.followups@ == before.followups@
        &&& after.post@ == before.post@.remove(id)
        &&& write_done(
            old,
            new,
            if before.post@.contains_key(id) {
                Some(before.post@[id])
            } else {
                None
            },
            step,
        )
    }
}

fn finish_write(app: &mut App, p: Option<PostWrite>) -> (step: ResponseStep)
    ensures
        write_done(*old(app), *final(app), p, step),
{
    match p {
        Some(PostWrite::Save { reread_dn, nav, then_quit }) => {
            if then_quit {
                app.status = "Saved.".to_owned();
                app.should_quit = true;
                return ResponseStep::Done;
            }
            let target: String = match nav {
                Some(n) => n,
                None => reread_dn,
            };
            rebind_selection(app, &target);
            let ghost mid = *app;
            app.status = "Saved.".to_owned();
            assert((App { status: mid.status, ..*app }) == mid);
            ResponseStep::Read(target)
        },
        Some(PostWrite::Created { parent, dn, attrs }) => {
            app.status = "Created.".to_owned();
            if app.composing() {
                app.form = None;
                app.form_focus = 0;
                app.form_scroll = 0;
                app.last_seen_leaf = None;
            }
            ResponseStep::Created { parent, dn, attrs }
        },
        Some(PostWrite::Deleted { dn }) => {
            app.status = "Deleted.".to_owned();
            let shown: bool = match &app.form {
                Some(f) => same_text(&f.dn, &dn),
                None => false,
            };
            if shown {
                app.form = None;
            }
            app.last_seen_leaf = None;
            ResponseStep::Deleted { dn }
        },
        None => {
            app.status = "Saved.".to_owned();
            ResponseStep::Done
        },
    }
}

/// Whether `new` is `old` after a write was refused: it is forgotten, the awaited entry is the one
/// shown, and a message gives the reason.
pub open spec fn write_refused(
    old: App,
    new: App,
    id: u64,
    msg: String,
    before: Writes,
    after: Writes,
) -> bool {
    &&& after.post@ == before.post@.remove(id)
    &&& after.followups@ == before.followups@.remove(id)
    &&& new == (App {
        overlay: Some(Overlay::Error { text: msg }),
        last_seen_leaf: new.last_seen_leaf,
        ..old
    })
    &&& match old.form {
        Some(f) => new.last_seen_leaf is Some && new.last_seen_leaf->0@ == f.dn@,
        None => new.last_seen_leaf == old.last_seen_leaf,
    }
}

/// Whether `new` is `old` after the reading of an entry. An entry is shown only where it is the
/// awaited one and nothing is open that it would replace; a failure shows in a dialog, or in the
/// status line where a dialog is open.
pub open spec fn read_done(old: App, new: App, outcome: ReadOutcome) -> bool {
    match outcome {
        ReadOutcome::Form(model) => if can_install(old, model.title@) {
            &&& new == (App {
                form: new.form,
                form_focus: 0,
                form_scroll: 0,
                status: new.status,
                ..old
            })
            &&& new.form is Some
            &&& loaded_from(new.form->0, model, old.read_only, old.widgets@)
            &&& new.status@.len() == 0
        } else {
            new == old
        },
        ReadOutcome::Error(msg) => new == if old.overlay is None {
            (App { overlay: Some(Overlay::Error { text: msg }), ..old })
        } else {
            (App { status: msg, ..old })
        },
        ReadOutcome::Ignored => new == old,
    }
}

fn finish_read(app: &mut App, outcome: ReadOutcome)
    ensures
        read_done(*old(app), *final(app), outcome),
{
    match outcome {
        ReadOutcome::Form(model) => {
            if should_install_form(app, &model.title) {
                let form: EditForm = build_loaded_form(&model, app.read_only, &app.widgets);
                app.form = Some(form);
                app.form_focus = 0;
                app.form_scroll = 0;
                app.status = String::new();
            }
        },
        ReadOutcome::Error(msg) => {
            if app.overlay.is_none() {
                app.overlay = Some(Overlay::Error { text: msg });
            } else {
                app.status = msg;
            }
        },
        ReadOutcome::Ignored => {},
    }
}

/// Whether `new`, with what is left to do, is `old` after an answer of the directory.
pub open spec fn responded(
    old: App,
    new: App,
    response: Response,
    next: u64,
    before: Writes,
    after: Writes,
    step: ResponseStep,
) -> bool {
    match response {
        Response::Entries { id, found, cap } => after == before && if old.picker_search_id == Some(
            id,
        ) {
            results_taken(old, new, found@, cap) && step is Done
        } else {
            new == old && step is ReadFlow
        },
        Response::WriteOk { id } => write_ok(old, new, id, next, before, after, step),
        Response::WriteError { id, msg } => write_refused(old, new, id, msg, before, after) && step
            is Done,
        Response::Read(outcome) => read_done(old, new, outcome) && after == before && step is Done,
    }
}

/// Handles an answer of the directory: results of the candidate search under way fill the list,
/// writes lead to what was noted for them, and entries that were read are shown.
pub fn handle_worker_response(
    app: &mut App,
    response: Response,
    ids: &mut WriteIds,
    writes: &mut Writes,
) -> (step: ResponseStep)
    ensures
        responded(
            *old(app),
            *final(app),
            response,
            old(ids).next,
            *old(writes),
            *final(writes),
            step,
        ),
        final(ids).next == if step is FollowUp {
            id_after(old(ids).next)
        } else {
            old(ids).next
        },
{
    broadcast use vstd::std_specs::hash::group_hash_axioms;

    match response {
        Response::Entries { id, found, cap } => {
            let mine: bool = match app.picker_search_id {
                Some(i) => i == id,
                None => false,
            };
            if mine {
                take_results(app, &found, cap);
                ResponseStep::Done
            } else {
                ResponseStep::ReadFlow
            }
        },
        Response::WriteOk { id } => {
            let waiting: Option<FollowUp> = writes.followups.remove(&id);
            match waiting {
                Some(f) => {
                    let request: Request = Request::Modify {
                        id: ids.next_id(),
                        dn: f.new_dn.clone(),
                        changes: f.mods,
                    };
                    let target: String = match f.nav {
                        Some(n) => n,
                        None => f.new_dn,
                    };
                    rebind_selection(app, &target);
                    ResponseStep::FollowUp { request, read: target }
                },
                None => {
                    let noted: Option<PostWrite> = writes.post.remove(&id);
                    assert(writes.followups@ =~= old(writes).followups@);
                    finish_write(app, noted)
                },
            }
        },
        Response::WriteError { id, msg } => {
            writes.post.remove(&id);
            writes.followups.remove(&id);
            let shown: Option<String> = match &app.form {
                Some(f) => Some(f.dn.clone()),
                None => None,
            };
            if shown.is_some() {
                app.last_seen_leaf = shown;
            }
            app.overlay = Some(Overlay::Error { text: msg });
            ResponseStep::Done
        },
        Response::Read(outcome) => {
            finish_read(app, outcome);
            ResponseStep::Done
        },
    }
}

/// An entry read late never replaces a new entry under composition, nor the form below an open
/// dialog.
pub proof fn late_reads_replace_nothing(old: App, new: App, outcome: ReadOutcome)
    requires
        read_done(old, new, outcome),
        old.composes() || old.overlay is Some,
    ensures
        new.form == old.form,
        old.overlay is Some ==> new.overlay == old.overlay,
{
}

/// The changes that wait for a rename address the name after it, and go out only once it was made.
pub proof fn renames_come_first(
    plan: crate::changes::SavePlan,
    old_dn: Seq<char>,
    nav: Option<String>,
    id: u64,
    empty: Writes,
    waiting: Writes,
    r: Option<Request>,
    app: App,
    new: App,
    next: u64,
    after: Writes,
    step: ResponseStep,
)
    requires
        plan is Rename,
        crate::writes::submitted(plan, old_dn, nav, false, id, empty, waiting, r),
        write_ok(app, new, id, next, waiting, after, step),
    ensures
        r is Some && r->0 is ModRdn,
        step matches ResponseStep::FollowUp { request, read } && (request matches Request::Modify {
            id: i,
            dn,
            changes,
        } && dn@ == crate::dn::renamed(old_dn, plan->modrdn.new_rdn@) && changes
            == plan->then_mods),
{
    assert(waiting.followups@.contains_key(id));
}

/// Quitting over unsaved edits that are to be saved waits for the write: the program ends once it was
/// made. A rename with further changes is left out: those are still to be submitted then.
pub proof fn quitting_waits_for_the_write(
    plan: crate::changes::SavePlan,
    old_dn: Seq<char>,
    nav: Option<String>,
    id: u64,
    before: Writes,
    waiting: Writes,
    r: Option<Request>,
    app: App,
    new: App,
    next: u64,
    after: Writes,
    step: ResponseStep,
)
    requires
        plan is Modify || plan is RenameOnly,
        crate::writes::submitted(plan, old_dn, nav, true, id, before, waiting, r),
        !before.followups@.contains_key(id),
        write_ok(app, new, id, next, waiting, after, step),
    ensures
        new.should_quit,
        step is Done,
        !after.post@.contains_key(id),
{
    assert(waiting.post@.contains_key(id));
}

/// Shows the rows as listed anew.
pub fn set_rows(app: &mut App, rows: Vec<(String, String)>)
    ensures
        *final(app) == (App { rows, ..*old(app) }),
{
    app.rows = rows;
}

/// A save that was made is read again, under the name that the entry then has, or the form goes on to
/// where it was to go; the highlighted row follows, and nothing waits any more.
pub proof fn saved_entries_are_read_again(
    plan: crate::changes::SavePlan,
    old_dn: Seq<char>,
    nav: Option<String>,
    id: u64,
    before: Writes,
    waiting: Writes,
    r: Option<Request>,
    app: App,
    new: App,
    next: u64,
    after: Writes,
    step: ResponseStep,
)
    requires
        plan is Modify || plan is RenameOnly,
        crate::writes::submitted(plan, old_dn, nav, false, id, before, waiting, r),
        !before.followups@.contains_key(id),
        responded(app, new, (Response::WriteOk { id }), next, waiting, after, step),
    ensures
        ({
            let name = match nav {
                Some(n) => n@,
                None => match plan {
                    crate::changes::SavePlan::RenameOnly(m) => crate::dn::renamed(old_dn, m.new_rdn@),
                    _ => old_dn,
                },
            };
            &&& step matches ResponseStep::Read(dn) && dn@ == name
            &&& new.last_seen_leaf is Some && new.last_seen_leaf->0@ == name
            &&& app.leaf_sel < app.rows@.len() ==> new.rows@[app.leaf_sel as int].1@ == name
            &&& new.status@ == "Saved."@
            &&& new.should_quit == app.should_quit && new.form == app.form
            &&& !after.post@.contains_key(id)
        }),
{
    assert(waiting.post@.contains_key(id));
}

/// An entry that was created stands in the tree, under its parent and with its attributes, and its form
/// closes; one that was deleted leaves the tree, and its form closes where it is shown.
pub proof fn made_and_deleted_entries_are_shown(
    old: App,
    new: App,
    id: u64,
    next: u64,
    before: Writes,
    after: Writes,
    step: ResponseStep,
)
    requires
        responded(old, new, (Response::WriteOk { id }), next, before, after, step),
        !before.followups@.contains_key(id),
        before.post@.contains_key(id),
    ensures
        before.post@[id] matches PostWrite::Created { parent, dn, attrs } ==> {
            &&& step matches ResponseStep::Created { parent: p, dn: d, attrs: a } && p == parent && d
                == dn && a == attrs
            &&& new.status@ == "Created."@
            &&& old.composes() ==> new.form is None && new.last_seen_leaf is None
            &&& !old.composes() ==> new.form == old.form && new.last_seen_leaf == old.last_seen_leaf
        },
        before.post@[id] matches PostWrite::Deleted { dn } ==> {
            &&& step matches ResponseStep::Deleted { dn: d } && d == dn
            &&& new.status@ == "Deleted."@
            &&& new.last_seen_leaf is None
            &&& (old.form matches Some(f) && f.dn@ == dn@) ==> new.form is None
            &&& (old.form matches Some(f) && f.dn@ != dn@) ==> new.form == old.form
        },
        !after.post@.contains_key(id),
        new.overlay == old.overlay && new.rows == old.rows || before.post@[id] is Save,
{
}

/// A refused write changes nothing but what waits for it: the form keeps its edits, the reason is
/// shown, changes that waited for it are dropped, and nothing is read.
pub proof fn refused_writes_keep_the_edits(
    old: App,
    new: App,
    id: u64,
    msg: String,
    next: u64,
    before: Writes,
    after: Writes,
    step: ResponseStep,
    other: u64,
)
    requires
        responded(old, new, (Response::WriteError { id, msg }), next, before, after, step),
        other != id,
    ensures
        step is Done,
        new.form == old.form && new.rows == old.rows && new.should_quit == old.should_quit,
        new.overlay == Some(Overlay::Error { text: msg }),
        !after.post@.contains_key(id) && !after.followups@.contains_key(id),
        after.post@.contains_key(other) == before.post@.contains_key(other),
        after.followups@.contains_key(other) == before.followups@.contains_key(other),
        old.form matches Some(f) ==> new.last_seen_leaf is Some && new.last_seen_leaf->0@ == f.dn@,
{
}

/// An entry that was awaited is shown from its first field, with the widgets of its object classes, and
/// the status line is cleared; a failed read is reported, over an open dialog in the status line.
pub proof fn read_entries_are_shown(
    old: App,
    new: App,
    outcome: ReadOutcome,
    next: u64,
    before: Writes,
    after: Writes,
    step: ResponseStep,
)
    requires
        responded(old, new, Response::Read(outcome), next, before, after, step),
    ensures
        step is Done && after == before,
        outcome matches ReadOutcome::Form(model) ==> {
            &&& can_install(old, model.title@) ==> new.form is Some && new.form_focus == 0
                && new.form_scroll == 0 && new.status@.len() == 0 && loaded_from(
                new.form->0,
                model,
                old.read_only,
                old.widgets@,
            )
            &&& !can_install(old, model.title@) ==> new == old
        },
        outcome matches ReadOutcome::Error(msg) ==> new.form == old.form && (old.overlay is None
            ==> new.overlay == Some(Overlay::Error { text: msg }) && new.status == old.status) && (
        old.overlay is Some ==> new.status == msg),
        outcome is Ignored ==> new == old,
        new.focus == old.focus && new.should_quit == old.should_quit && new.rows == old.rows,
{
}

/// Entries fill the candidate list only where they answer the search under way; any others belong to
/// the reading of entries.
pub proof fn only_the_search_under_way_is_answered(
    old: App,
    new: App,
    id: u64,
    found: Vec<FoundEntry>,
    cap: usize,
    next: u64,
    before: Writes,
    after: Writes,
    step: ResponseStep,
)
    requires
        responded(old, new, (Response::Entries { id, found, cap }), next, before, after, step),
    ensures
        after == before,
        old.picker_search_id != Some(id) ==> new == old && step is ReadFlow,
        old.picker_search_id == Some(id) ==> step is Done && results_taken(old, new, found@, cap),
        new.form == old.form && new.status == old.status,
{
}

/// Results fill the list with the candidates among them, keep what was chosen, and tell whether a term
/// was searched for and whether the answer was cut off.
pub proof fn results_fill_the_list(old: App, new: App, found: Seq<FoundEntry>, cap: usize)
    requires
        results_taken(old, new, found, cap),
        old.overlay is Some,
        old.overlay->0 is ValueEditor,
        old.overlay->0->ValueEditor_0.binding is Some,
        old.overlay->0->ValueEditor_0.picker is Some,
    ensures
        ({
            let ve = old.overlay->0->ValueEditor_0;
            let was = ve.picker->0;
            &&& new.overlay matches Some(Overlay::ValueEditor(v)) && v.picker is Some && {
                let now = v.picker->0;
                &&& picks(now.results@) == candidates_among(found, ve.binding->0.store is Dn)
                &&& now.selected@.len() == was.selected@.len()
                &&& now.truncated <==> found.len() >= cap
                &&& now.search_active <==> trimmed(ve.search.value@).len() > 0
                &&& v.field == ve.field && v.search == ve.search && v.binding == ve.binding
            }
        }),
        new.form == old.form && new.picker_search_id == old.picker_search_id,
{
    let ve = old.overlay->0->ValueEditor_0;
    let was = ve.picker->0;
    let now = new.overlay->0->ValueEditor_0.picker->0;
    assert(picks(now.selected@).len() == now.selected@.len());
    assert(picks(was.selected@).len() == was.selected@.len());
}

/// Results leave the highlight of the list where it is, and how names are compared.
pub proof fn results_keep_the_highlight(old: App, new: App, found: Seq<FoundEntry>, cap: usize)
    requires
        results_taken(old, new, found, cap),
        old.overlay is Some,
        old.overlay->0 is ValueEditor,
        old.overlay->0->ValueEditor_0.picker is Some,
    ensures
        new.overlay is Some,
        new.overlay->0 is ValueEditor,
        new.overlay->0->ValueEditor_0.picker is Some,
        new.overlay->0->ValueEditor_0.picker->0.cursor
            == old.overlay->0->ValueEditor_0.picker->0.cursor,
        new.overlay->0->ValueEditor_0.picker->0.key_ci
            == old.overlay->0->ValueEditor_0.picker->0.key_ci,
{
}

/// A write that was made is reported, whatever comes after it.
pub proof fn made_writes_are_reported(old: App, new: App, p: Option<PostWrite>, step: ResponseStep)
    requires
        write_done(old, new, p, step),
        p is Some,
    ensures
        p->0 is Save ==> new.status@ == "Saved."@,
        p->0 is Created ==> new.status@ == "Created."@,
        p->0 is Save && p->0->then_quit ==> new.should_quit && step is Done && new.form == old.form,
        p->0 is Save && !p->0->then_quit ==> new.should_quit == old.should_quit && (
        step matches ResponseStep::Read(dn) && (p->0->nav matches Some(n) ==> dn == n) && (
        p->0->nav is None ==> dn == p->0->reread_dn)),
{
}

} // verus!
