//! The save of the form: refusing, asking, and submitting.
use vstd::prelude::*;
use vstd::string::*;

use crate::app::action::PlannedSave;
use crate::changes::{error_message, format_validation_errors, ModOp, ValidationError};
use crate::session::{fanout_changed, form_has_fanout_change, SaveOutcome, Session};

verus! {

/// How a save starts.
#[derive(Debug, Clone, Copy, PartialEq, Eq, Structural)]
pub enum SaveStart {
    /// A waiting password may not go over a connection that is not encrypted.
    Refused,
    /// There is no form.
    NoForm,
    /// The save writes several entries.
    Combined,
    /// The save writes the entry.
    Plain,
}

/// The message that refuses a password change over a plain connection.
pub const UNENCRYPTED: &'static str = "Changing a password requires an encrypted connection.";

/// How the save of a session's form starts.
pub open spec fn save_start_of(st: Session) -> SaveStart {
    if st.pending_password is Some && !st.connection_encrypted {
        SaveStart::Refused
    } else {
        match st.edit_form {
            None => SaveStart::NoForm,
            Some(f) => if fanout_changed(f) {
                SaveStart::Combined
            } else {
                SaveStart::Plain
            },
        }
    }
}

/// How the save of the form starts. A changed membership always takes the save of several entries:
/// the attribute that shows it is never written itself.
pub fn start_save(st: &Session) -> (r: SaveStart)
    ensures
        r == save_start_of(*st),
{
    if st.pending_password.is_some() && !st.connection_encrypted {
        return SaveStart::Refused;
    }
    match &st.edit_form {
        None => SaveStart::NoForm,
        Some(f) => if form_has_fanout_change(f) {
            SaveStart::Combined
        } else {
            SaveStart::Plain
        },
    }
}

/// What a planned save leads to: a note in the status line, a message, or a question with the
/// preview.
#[derive(Debug)]
pub enum SaveAction {
    Status(String),
    Error(String),
    Confirm(String),
}

/// Whether an action is what a planned save leads to.
pub open spec fn leads_to(prepared: PlannedSave, r: SaveAction) -> bool {
    match prepared {
        PlannedSave::NoChanges => r matches SaveAction::Status(s) && s@ == "No changes."@,
        PlannedSave::Invalid(errs) => r matches SaveAction::Error(t) && t@ == error_message(errs@),
        PlannedSave::DiffError(e) => r matches SaveAction::Error(t) && t@ == e@,
        PlannedSave::Refused(e) => r matches SaveAction::Error(t) && t@ == e@,
        PlannedSave::Ready { plan, dn, ldif } => r matches SaveAction::Confirm(l) && l@ == ldif@,
    }
}

/// What a planned save leads to.
pub fn save_flow_action(prepared: &PlannedSave) -> (r: SaveAction)
    ensures
        leads_to(*prepared, r),
{
    match prepared {
        PlannedSave::NoChanges => SaveAction::Status("No changes.".to_owned()),
        PlannedSave::Invalid(errs) => SaveAction::Error(format_validation_errors(errs)),
        PlannedSave::DiffError(e) => SaveAction::Error(e.clone()),
        PlannedSave::Refused(e) => SaveAction::Error(e.clone()),
        PlannedSave::Ready { ldif, .. } => SaveAction::Confirm(ldif.clone()),
    }
}

/// Notes in the status line that a save has nothing to do; what was held up is dropped.
pub fn note_status(st: &mut Session, text: String)
    ensures
        *final(st) == (Session {
            status: text,
            guard_target: None,
            form_needs_render: true,
            ..*old(st)
        }),
{
    st.status = text;
    st.guard_target = None;
    st.form_needs_render = true;
}

/// The version that a write asserts: the one that the form's entry had when it was read, where the
/// directory can check it.
pub open spec fn asserted_csn(st: Session) -> Option<Seq<char>> {
    if st.assertion_supported && st.edit_form is Some {
        match st.edit_form->0.baseline_csn {
            Some(c) => Some(c@),
            None => None,
        }
    } else {
        None
    }
}

/// The warning that concurrent changes may be lost.
pub const NO_ASSERTION: &'static str =
    "Server does not support optimistic concurrency; concurrent edits may be lost.";

/// Whether a text is an optional one.
pub open spec fn is_opt(r: Option<String>, t: Option<Seq<char>>) -> bool {
    match (r, t) {
        (Some(a), Some(b)) => a@ == b,
        (None, None) => true,
        _ => false,
    }
}

/// The version that a write of the form asserts.
pub fn own_csn(st: &Session) -> (r: Option<String>)
    ensures
        is_opt(r, asserted_csn(*st)),
{
    if !st.assertion_supported {
        return None;
    }
    match &st.edit_form {
        Some(f) => match &f.baseline_csn {
            Some(c) => Some(c.clone()),
            None => None,
        },
        None => None,
    }
}

/// Whether `new` is `old` once a save was confirmed: it is known where the form goes after it, the
/// waiting password is used up, and the user is warned, once, where versions cannot be checked.
pub open spec fn save_confirmed(old: Session, new: Session, nav: Option<(String, Vec<String>)>) -> bool {
    let warn = !old.assertion_supported && !old.concurrency_warned;
    &&& new == (Session {
        pending_nav: nav,
        guard_target: None,
        pending_password: None,
        status: new.status,
        concurrency_warned: old.concurrency_warned || warn,
        ..old
    })
    &&& warn ==> new.status@ == NO_ASSERTION@
    &&& !warn ==> new.status == old.status
}

/// Takes a confirmed save on its way, and gives back the version that its write asserts.
pub fn confirm_save(st: &mut Session, nav: Option<(String, Vec<String>)>) -> (csn: Option<String>)
    ensures
        save_confirmed(*old(st), *final(st), nav),
        is_opt(csn, asserted_csn(*old(st))),
{
    let csn: Option<String> = own_csn(st);
    st.pending_nav = nav;
    st.guard_target = None;
    st.pending_password = None;
    if !st.assertion_supported && !st.concurrency_warned {
        st.status = NO_ASSERTION.to_owned();
        st.concurrency_warned = true;
    }
    csn
}

/// A confirmed save uses up the waiting password.
pub proof fn confirming_uses_up_the_password(
    old: Session,
    new: Session,
    nav: Option<(String, Vec<String>)>,
)
    requires
        save_confirmed(old, new, nav),
    ensures
        new.pending_password is None,
        new.edit_form == old.edit_form,
{
}

/// The changes of a save of several entries: those of the entry itself, and those of its groups.
pub struct Batch {
    pub own_dn: String,
    pub own_mods: Vec<ModOp>,
    pub fanout: Vec<(String, ModOp)>,
}

/// What was read of the groups before a save: the members of those that may not be empty, and the
/// versions that the writes assert.
pub struct GroupReads {
    pub members: Vec<(String, Vec<String>)>,
    pub versions: Vec<(String, String)>,
}

/// What planning a save of several entries comes to.
pub enum PlanCombined {
    NoChanges,
    Invalid(Vec<ValidationError>),
    DiffError(String),
    RenameWithMembershipUnsupported,
    Ready { batch: Batch, ldif: String },
}

/// The refusal of a rename together with a change of groups.
pub const RENAME_UNSUPPORTED: &'static str =
    "Rename and membership changes can't be saved together — do them as separate saves.";

/// Whether an action is what a planned save of several entries leads to, where its groups need not
/// be read.
pub open spec fn combined_leads_to(plan: PlanCombined, r: SaveAction) -> bool {
    match plan {
        PlanCombined::NoChanges => r matches SaveAction::Status(s) && s@ == "No changes."@,
        PlanCombined::Invalid(errs) => r matches SaveAction::Error(t) && t@ == error_message(errs@),
        PlanCombined::DiffError(e) => r matches SaveAction::Error(t) && t@ == e@,
        PlanCombined::RenameWithMembershipUnsupported => r matches SaveAction::Error(t) && t@
            == RENAME_UNSUPPORTED@,
        PlanCombined::Ready { batch, ldif } => false,
    }
}

/// The changes of a planned save of several entries, with their preview, where it is ready and its
/// groups are to be read next; otherwise what it leads to.
pub fn combined_flow_action(plan: PlanCombined) -> (r: Result<(Batch, String), SaveAction>)
    ensures
        match r {
            Ok(p) => plan == (PlanCombined::Ready { batch: p.0, ldif: p.1 }),
            Err(a) => combined_leads_to(plan, a),
        },
{
    match plan {
        PlanCombined::NoChanges => Err(SaveAction::Status("No changes.".to_owned())),
        PlanCombined::Invalid(errs) => Err(SaveAction::Error(format_validation_errors(&errs))),
        PlanCombined::DiffError(e) => Err(SaveAction::Error(e)),
        PlanCombined::RenameWithMembershipUnsupported => Err(
            SaveAction::Error(RENAME_UNSUPPORTED.to_owned()),
        ),
        PlanCombined::Ready { batch, ldif } => Ok((batch, ldif)),
    }
}

/// The groups as read, with their versions only where the directory can check them.
pub open spec fn usable_reads(st: Session, read: GroupReads, r: GroupReads) -> bool {
    &&& r.members == read.members
    &&& if st.assertion_supported {
        r.versions == read.versions
    } else {
        r.versions@.len() == 0
    }
}

/// The groups as read, with their versions only where the directory can check them: it would refuse
/// every write that asserts one.
pub fn keep_usable(st: &Session, read: GroupReads) -> (r: GroupReads)
    ensures
        usable_reads(*st, read, r),
{
    if st.assertion_supported {
        read
    } else {
        GroupReads { members: read.members, versions: Vec::new() }
    }
}

/// Takes a confirmed save of several entries on its way.
pub fn confirm_combined(st: &mut Session, nav: Option<(String, Vec<String>)>)
    ensures
        *final(st) == (Session {
            pending_nav: nav,
            guard_target: None,
            pending_password: None,
            ..*old(st)
        }),
{
    st.pending_nav = nav;
    st.guard_target = None;
    st.pending_password = None;
}

/// What handing a save of several entries to the directory came to, and the message where it failed.
/// Without a connection nothing is submitted.
pub fn submit_outcome(result: Option<Result<(), String>>) -> (r: (SaveOutcome, Option<String>))
    ensures
        match result {
            Some(Ok(_)) => r == (SaveOutcome::Submitted, None::<String>),
            Some(Err(msg)) => r == (SaveOutcome::NotSubmitted, Some(msg)),
            None => r == (SaveOutcome::NotSubmitted, None::<String>),
        },
{
    match result {
        Some(Ok(_)) => (SaveOutcome::Submitted, None),
        Some(Err(msg)) => (SaveOutcome::NotSubmitted, Some(msg)),
        None => (SaveOutcome::NotSubmitted, None),
    }
}

/// A save is refused where a password waits and the connection is not encrypted; without a form there
/// is nothing to save; and a changed membership takes the save of several entries.
pub proof fn saves_start_by_what_changed(st: Session)
    ensures
        save_start_of(st) == SaveStart::Refused <==> st.pending_password is Some
            && !st.connection_encrypted,
        save_start_of(st) == SaveStart::NoForm <==> st.edit_form is None && !(
        st.pending_password is Some && !st.connection_encrypted),
        save_start_of(st) == SaveStart::Combined ==> st.edit_form is Some && fanout_changed(
            st.edit_form->0,
        ),
        save_start_of(st) == SaveStart::Plain ==> st.edit_form is Some && !fanout_changed(
            st.edit_form->0,
        ),
{
}

/// A planned save is asked about with its preview; a save without changes is only noted, and one that
/// cannot be made is explained. Nothing else leads to a question.
pub proof fn planned_saves_lead_to_a_question(
    prepared: PlannedSave,
    plan: PlanCombined,
    r: SaveAction,
)
    ensures
        leads_to(prepared, r) ==> {
            &&& r is Confirm <==> prepared is Ready
            &&& prepared matches PlannedSave::Ready { plan: p, dn, ldif } ==> (r matches
                SaveAction::Confirm(l) && l@ == ldif@)
            &&& prepared is NoChanges ==> (r matches SaveAction::Status(s) && s@ == "No changes."@)
            &&& prepared matches PlannedSave::Invalid(errs) ==> (r matches SaveAction::Error(t) && t@
                == error_message(errs@))
            &&& prepared matches PlannedSave::DiffError(e) ==> (r matches SaveAction::Error(t) && t@
                == e@)
            &&& prepared matches PlannedSave::Refused(e) ==> (r matches SaveAction::Error(t) && t@
                == e@)
        },
        combined_leads_to(plan, r) ==> {
            &&& !(r is Confirm) && !(plan is Ready)
            &&& plan is NoChanges ==> (r matches SaveAction::Status(s) && s@ == "No changes."@)
            &&& plan matches PlanCombined::Invalid(errs) ==> (r matches SaveAction::Error(t) && t@
                == error_message(errs@))
            &&& plan matches PlanCombined::DiffError(e) ==> (r matches SaveAction::Error(t) && t@
                == e@)
            &&& plan is RenameWithMembershipUnsupported ==> (r matches SaveAction::Error(t) && t@
                == "Rename and membership changes can't be saved together — do them as separate saves."@)
        },
{
}

/// A write asserts the version that the entry had when it was read, exactly where the directory can
/// check one and the form has one.
pub proof fn versions_are_asserted(st: Session)
    ensures
        asserted_csn(st) is Some <==> st.assertion_supported && st.edit_form is Some
            && st.edit_form->0.baseline_csn is Some,
        asserted_csn(st) matches Some(c) ==> c == st.edit_form->0.baseline_csn->0@,
{
}

/// A confirmed save knows where the form goes next, uses up the waiting password, and keeps the form;
/// the user is warned of lost updates where versions cannot be checked, the first time only.
pub proof fn confirmed_saves_warn_once(
    old: Session,
    new: Session,
    nav: Option<(String, Vec<String>)>,
)
    requires
        save_confirmed(old, new, nav),
    ensures
        new.pending_nav == nav && new.guard_target is None && new.pending_password is None,
        new.edit_form == old.edit_form && new.current_branch == old.current_branch,
        !old.assertion_supported ==> new.concurrency_warned,
        !old.assertion_supported && !old.concurrency_warned ==> new.status@
            == "Server does not support optimistic concurrency; concurrent edits may be lost."@,
        old.assertion_supported || old.concurrency_warned ==> new.status == old.status
            && new.concurrency_warned == old.concurrency_warned,
{
}

/// Versions of groups are asserted only where the directory can check them; their members are kept in
/// any case.
pub proof fn group_versions_need_support(st: Session, read: GroupReads, r: GroupReads)
    requires
        usable_reads(st, read, r),
    ensures
        r.members == read.members,
        st.assertion_supported ==> r.versions == read.versions,
        !st.assertion_supported ==> r.versions@.len() == 0,
{
}

} // verus!
