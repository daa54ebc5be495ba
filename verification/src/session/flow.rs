//! The save and the creation of an entry as flows: each event, the answer to a dialog or what the
//! directory and the schema said, leads to the next step.
use tvision_rs::Command;
use vstd::prelude::*;
use vstd::string::*;

use crate::app::action::PlannedSave;
use crate::attrs::{values_of, AttrMap};
use crate::changes::{copy_group_mods, fanout_model, ModOp, SavePlan};
use crate::names::command_name;
use crate::session::create::{
    composed, composed_entry, confirm_create, create_allowed, create_body, create_preview,
    no_sentinel_is_left, without_sentinel, CreateSubmit, NewEntry,
};
use crate::session::save::{
    asserted_csn, combined_flow_action, combined_leads_to, confirm_combined, confirm_save, is_opt,
    keep_usable, leads_to, note_status, own_csn, save_confirmed, save_flow_action, save_start_of,
    start_save, submit_outcome, usable_reads, Batch, GroupReads, PlanCombined, SaveAction, SaveStart,
    UNENCRYPTED,
};
use crate::session::{SaveOutcome, Session};
use crate::text::{same_text, texts};

verus! {

/// Where the form goes after a write: an entry, with its object classes.
pub type Nav = Option<(String, Vec<String>)>;

/// How far a save has come.
pub enum SaveFlow {
    Start { nav: Nav, quit_after: bool },
    /// The changes of the entry are being planned.
    Planning { nav: Nav, quit_after: bool },
    /// The changes of several entries are being planned.
    PlanningCombined { nav: Nav, quit_after: bool },
    /// The user is asked.
    Confirming { plan: SavePlan, dn: String, nav: Nav, quit_after: bool },
    /// The groups that change are being read.
    ReadingGroups { batch: Batch, ldif: String, nav: Nav, quit_after: bool },
    /// The user is asked, about several entries.
    ConfirmingCombined {
        batch: Batch,
        groups: GroupReads,
        csn: Option<String>,
        nav: Nav,
        quit_after: bool,
    },
    /// The write is on its way.
    Submitting,
    /// The writes of several entries are on their way.
    SubmittingCombined,
    /// A message is shown.
    Showing,
    Finished(SaveOutcome),
}

/// What happens to a save.
pub enum SaveEvent {
    Begin,
    Planned(PlannedSave),
    /// Several entries were planned.
    PlannedCombined(PlanCombined),
    /// The groups were read; `block` is what keeps their removals from being made.
    GroupsRead { groups: GroupReads, block: Option<String> },
    /// The dialog was answered.
    Answered(Command),
    /// The write was handed to the directory, or refused before it was sent; nothing where there is
    /// no connection.
    Submitted(Option<Result<(), String>>),
    /// The message was dismissed.
    Dismissed,
}

/// What a save does next.
pub enum SaveDo {
    /// Plan the changes of the entry.
    Plan,
    /// Plan the changes of several entries.
    PlanCombined,
    /// Show a message.
    Show(String),
    /// Ask, with the preview.
    Ask(String),
    /// Submit the changes of the entry, asserting its version.
    Submit { plan: SavePlan, dn: String, csn: Option<String>, quit_after: bool },
    /// Read the groups that change, with their versions where those can be asserted.
    ReadGroups { own_dn: String, fanout: Vec<(String, ModOp)>, versions: bool },
    /// Submit the planned changes of several entries, asserting the version of the entry itself and
    /// those of the groups.
    SubmitCombined {
        batch: Batch,
        groups: GroupReads,
        csn: Option<String>,
        quit_after: bool,
    },
    Finish(SaveOutcome),
    /// The event has no meaning here.
    Ignore,
}

/// Whether a step shows a message.
pub open spec fn shows(flow: SaveFlow, act: SaveDo, text: Seq<char>) -> bool {
    flow is Showing && (act matches SaveDo::Show(t) && t@ == text)
}

/// Whether a step ends the save.
pub open spec fn ends(flow: SaveFlow, act: SaveDo, outcome: SaveOutcome) -> bool {
    flow == SaveFlow::Finished(outcome) && act == SaveDo::Finish(outcome)
}

/// Whether a step is the first one of a save.
pub open spec fn begun(
    st: Session,
    new: Session,
    nav: Nav,
    quit_after: bool,
    flow: SaveFlow,
    act: SaveDo,
) -> bool {
    &&& new == st
    &&& match save_start_of(st) {
        SaveStart::Refused => shows(flow, act, UNENCRYPTED@),
        SaveStart::NoForm => ends(flow, act, SaveOutcome::NotSubmitted),
        SaveStart::Combined => flow == (SaveFlow::PlanningCombined { nav, quit_after }) && act
            is PlanCombined,
        SaveStart::Plain => flow == (SaveFlow::Planning { nav, quit_after }) && act is Plan,
    }
}

/// Whether `new` is `old` with a note in the status line.
pub open spec fn noted(old: Session, new: Session, text: Seq<char>) -> bool {
    &&& new == (Session {
        status: new.status,
        guard_target: None,
        form_needs_render: true,
        ..old
    })
    &&& new.status@ == text
}

/// Whether a step follows what a planned save leads to. `confirming` is the flow that asks.
pub open spec fn followed(
    old: Session,
    new: Session,
    action: SaveAction,
    confirming: SaveFlow,
    flow: SaveFlow,
    act: SaveDo,
) -> bool {
    match action {
        SaveAction::Status(s) => noted(old, new, s@) && ends(flow, act, SaveOutcome::NotSubmitted),
        SaveAction::Error(t) => new == old && shows(flow, act, t@),
        SaveAction::Confirm(l) => new == old && flow == confirming && (act matches SaveDo::Ask(p)
            && p@ == l@),
    }
}

/// Whether a step of a save, from one state and flow to the next, is the one for an event.
pub open spec fn save_stepped(
    old: Session,
    new: Session,
    flow: SaveFlow,
    event: SaveEvent,
    next: SaveFlow,
    act: SaveDo,
) -> bool {
    match (flow, event) {
        (SaveFlow::Start { nav, quit_after }, SaveEvent::Begin) => begun(
            old,
            new,
            nav,
            quit_after,
            next,
            act,
        ),
        (SaveFlow::Planning { nav, quit_after }, SaveEvent::Planned(p)) => exists|a: SaveAction|
            #[trigger] leads_to(p, a) && followed(
                old,
                new,
                a,
                (match p {
                    PlannedSave::Ready { plan, dn, ldif } => SaveFlow::Confirming {
                        plan,
                        dn,
                        nav,
                        quit_after,
                    },
                    _ => SaveFlow::Showing,
                }),
                next,
                act,
            ),
        (
            SaveFlow::PlanningCombined { nav, quit_after },
            SaveEvent::PlannedCombined(plan),
        ) => match plan {
            PlanCombined::Ready { batch, ldif } => {
                &&& new == old
                &&& next == (SaveFlow::ReadingGroups { batch, ldif, nav, quit_after })
                &&& act matches SaveDo::ReadGroups { own_dn, fanout, versions } && own_dn@
                    == batch.own_dn@ && fanout_model(fanout@) == fanout_model(batch.fanout@)
                    && versions == old.assertion_supported
            },
            _ => exists|a: SaveAction| #[trigger]
                combined_leads_to(plan, a) && followed(old, new, a, SaveFlow::Showing, next, act),
        },
        (
            SaveFlow::ReadingGroups { batch, ldif, nav, quit_after },
            SaveEvent::GroupsRead { groups, block },
        ) => new == old && match block {
            Some(msg) => shows(next, act, msg@),
            None => {
                &&& act == SaveDo::Ask(ldif)
                &&& next matches SaveFlow::ConfirmingCombined {
                    batch: b,
                    groups: g,
                    csn,
                    nav: n,
                    quit_after: q,
                } && b == batch && usable_reads(old, groups, g) && is_opt(csn, asserted_csn(old))
                    && n == nav && q == quit_after
            },
        },
        (SaveFlow::Confirming { plan, dn, nav, quit_after }, SaveEvent::Answered(cmd)) => if command_name(
            cmd,
        ) == "tv.ok"@ {
            &&& next is Submitting
            &&& save_confirmed(old, new, nav)
            &&& act matches SaveDo::Submit { plan: p, dn: d, csn, quit_after: q } && p == plan && d
                == dn && q == quit_after && is_opt(csn, asserted_csn(old))
        } else {
            new == old && ends(next, act, SaveOutcome::NotSubmitted)
        },
        (
            SaveFlow::ConfirmingCombined { batch, groups, csn, nav, quit_after },
            SaveEvent::Answered(cmd),
        ) => if command_name(cmd) == "tv.ok"@ {
            &&& next is SubmittingCombined
            &&& new == (Session {
                pending_nav: nav,
                guard_target: None,
                pending_password: None,
                ..old
            })
            &&& act == (SaveDo::SubmitCombined { batch, groups, csn, quit_after })
        } else {
            new == old && ends(next, act, SaveOutcome::NotSubmitted)
        },
        (SaveFlow::Submitting, SaveEvent::Submitted(result)) => new == old && ends(
            next,
            act,
            if result matches Some(Ok(_)) {
                SaveOutcome::Submitted
            } else {
                SaveOutcome::NotSubmitted
            },
        ),
        (SaveFlow::SubmittingCombined, SaveEvent::Submitted(result)) => new == old && match result {
            Some(Ok(_)) => ends(next, act, SaveOutcome::Submitted),
            Some(Err(msg)) => shows(next, act, msg@),
            None => ends(next, act, SaveOutcome::NotSubmitted),
        },
        (SaveFlow::Showing, SaveEvent::Dismissed) => new == old && ends(
            next,
            act,
            SaveOutcome::NotSubmitted,
        ),
        _ => new == old && next == flow && act is Ignore,
    }
}

fn begin_save(st: &Session, nav: Nav, quit_after: bool) -> (r: (SaveFlow, SaveDo))
    ensures
        begun(*st, *st, nav, quit_after, r.0, r.1),
{
    match start_save(st) {
        SaveStart::Refused => (SaveFlow::Showing, SaveDo::Show(UNENCRYPTED.to_owned())),
        SaveStart::NoForm => (
            SaveFlow::Finished(SaveOutcome::NotSubmitted),
            SaveDo::Finish(SaveOutcome::NotSubmitted),
        ),
        SaveStart::Combined => (
            SaveFlow::PlanningCombined { nav, quit_after },
            SaveDo::PlanCombined,
        ),
        SaveStart::Plain => (SaveFlow::Planning { nav, quit_after }, SaveDo::Plan),
    }
}

fn follow(st: &mut Session, action: SaveAction, confirming: SaveFlow) -> (r: (SaveFlow, SaveDo))
    ensures
        followed(*old(st), *final(st), action, confirming, r.0, r.1),
{
    match action {
        SaveAction::Status(s) => {
            note_status(st, s);
            (
                SaveFlow::Finished(SaveOutcome::NotSubmitted),
                SaveDo::Finish(SaveOutcome::NotSubmitted),
            )
        },
        SaveAction::Error(t) => (SaveFlow::Showing, SaveDo::Show(t)),
        SaveAction::Confirm(l) => (confirming, SaveDo::Ask(l)),
    }
}

/// Takes a save one step further. What is submitted is what the flow holds since it was planned, once
/// its preview was accepted; the groups of a save of several entries are read before it is asked
/// about.
pub fn save_step(st: &mut Session, flow: SaveFlow, event: SaveEvent) -> (r: (SaveFlow, SaveDo))
    ensures
        save_stepped(*old(st), *final(st), flow, event, r.0, r.1),
{
    match (flow, event) {
        (SaveFlow::Start { nav, quit_after }, SaveEvent::Begin) => begin_save(st, nav, quit_after),
        (SaveFlow::Planning { nav, quit_after }, SaveEvent::Planned(p)) => {
            let action: SaveAction = save_flow_action(&p);
            let ghost a = action;
            let confirming: SaveFlow = match p {
                PlannedSave::Ready { plan, dn, ldif } => {
                    SaveFlow::Confirming { plan, dn, nav, quit_after }
                },
                _ => SaveFlow::Showing,
            };
            let r: (SaveFlow, SaveDo) = follow(st, action, confirming);
            assert(leads_to(p, a));
            r
        },
        (
            SaveFlow::PlanningCombined { nav, quit_after },
            SaveEvent::PlannedCombined(plan),
        ) => {
            match combined_flow_action(plan) {
                Ok((batch, ldif)) => {
                    let act: SaveDo = SaveDo::ReadGroups {
                        own_dn: batch.own_dn.clone(),
                        fanout: copy_group_mods(&batch.fanout),
                        versions: st.assertion_supported,
                    };
                    (SaveFlow::ReadingGroups { batch, ldif, nav, quit_after }, act)
                },
                Err(a) => {
                    let r: (SaveFlow, SaveDo) = follow(st, a, SaveFlow::Showing);
                    assert(combined_leads_to(plan, a));
                    r
                },
            }
        },
        (
            SaveFlow::ReadingGroups { batch, ldif, nav, quit_after },
            SaveEvent::GroupsRead { groups, block },
        ) => match block {
            Some(msg) => (SaveFlow::Showing, SaveDo::Show(msg)),
            None => {
                let groups: GroupReads = keep_usable(st, groups);
                let csn: Option<String> = own_csn(st);
                (
                    SaveFlow::ConfirmingCombined { batch, groups, csn, nav, quit_after },
                    SaveDo::Ask(ldif),
                )
            },
        },
        (SaveFlow::Confirming { plan, dn, nav, quit_after }, SaveEvent::Answered(cmd)) => {
            if same_text(cmd.name(), "tv.ok") {
                let csn: Option<String> = confirm_save(st, nav);
                (SaveFlow::Submitting, SaveDo::Submit { plan, dn, csn, quit_after })
            } else {
                (
                    SaveFlow::Finished(SaveOutcome::NotSubmitted),
                    SaveDo::Finish(SaveOutcome::NotSubmitted),
                )
            }
        },
        (
            SaveFlow::ConfirmingCombined { batch, groups, csn, nav, quit_after },
            SaveEvent::Answered(cmd),
        ) => {
            if same_text(cmd.name(), "tv.ok") {
                confirm_combined(st, nav);
                (
                    SaveFlow::SubmittingCombined,
                    SaveDo::SubmitCombined { batch, groups, csn, quit_after },
                )
            } else {
                (
                    SaveFlow::Finished(SaveOutcome::NotSubmitted),
                    SaveDo::Finish(SaveOutcome::NotSubmitted),
                )
            }
        },
        (SaveFlow::Submitting, SaveEvent::Submitted(result)) => {
            let outcome: SaveOutcome = match result {
                Some(Ok(_)) => SaveOutcome::Submitted,
                _ => SaveOutcome::NotSubmitted,
            };
            (SaveFlow::Finished(outcome), SaveDo::Finish(outcome))
        },
        (SaveFlow::SubmittingCombined, SaveEvent::Submitted(result)) => {
            let (outcome, msg) = submit_outcome(result);
            match msg {
                Some(m) => (SaveFlow::Showing, SaveDo::Show(m)),
                None => (SaveFlow::Finished(outcome), SaveDo::Finish(outcome)),
            }
        },
        (SaveFlow::Showing, SaveEvent::Dismissed) => (
            SaveFlow::Finished(SaveOutcome::NotSubmitted),
            SaveDo::Finish(SaveOutcome::NotSubmitted),
        ),
        (flow, _) => (flow, SaveDo::Ignore),
    }
}

/// A save submits only what it asked about, and only when the answer was to accept.
pub proof fn saves_are_confirmed(
    old: Session,
    new: Session,
    flow: SaveFlow,
    event: SaveEvent,
    next: SaveFlow,
    act: SaveDo,
)
    requires
        save_stepped(old, new, flow, event, next, act),
        act is Submit || act is SubmitCombined,
    ensures
        event matches SaveEvent::Answered(cmd) && command_name(cmd) == "tv.ok"@,
        act is Submit ==> flow is Confirming && act->Submit_plan == flow->Confirming_plan
            && act->Submit_dn == flow->Confirming_dn,
        act is SubmitCombined ==> flow is ConfirmingCombined && act->SubmitCombined_batch
            == flow->ConfirmingCombined_batch && act->SubmitCombined_groups
            == flow->ConfirmingCombined_groups && act->SubmitCombined_csn
            == flow->ConfirmingCombined_csn,
{
}

/// A save of several entries that is submitted went through three steps: its plan, the read of its
/// groups, which found nothing against it, and the answer to the question that showed the plan's
/// preview. The changes submitted are the ones planned, and the groups are the ones read.
pub proof fn several_entries_are_submitted_as_planned(
    states: (Session, Session, Session, Session),
    flow: SaveFlow,
    plan: PlanCombined,
    reading: SaveFlow,
    act0: SaveDo,
    groups: GroupReads,
    block: Option<String>,
    confirming: SaveFlow,
    act1: SaveDo,
    cmd: Command,
    last: SaveFlow,
    act2: SaveDo,
)
    requires
        flow is PlanningCombined,
        save_stepped(states.0, states.1, flow, SaveEvent::PlannedCombined(plan), reading, act0),
        save_stepped(
            states.1,
            states.2,
            reading,
            (SaveEvent::GroupsRead { groups, block }),
            confirming,
            act1,
        ),
        save_stepped(states.2, states.3, confirming, SaveEvent::Answered(cmd), last, act2),
        act2 is SubmitCombined,
    ensures
        plan is Ready,
        act0 is ReadGroups,
        fanout_model(act0->ReadGroups_fanout@) == fanout_model(plan->Ready_batch.fanout@),
        block is None,
        act1 == SaveDo::Ask(plan->Ready_ldif),
        command_name(cmd) == "tv.ok"@,
        act2->SubmitCombined_batch == plan->Ready_batch,
        act2->SubmitCombined_groups.members == groups.members,
        usable_reads(states.0, groups, act2->SubmitCombined_groups),
        is_opt(act2->SubmitCombined_csn, asserted_csn(states.0)),
        act2->SubmitCombined_quit_after == flow->PlanningCombined_quit_after,
        states.3.pending_nav == flow->PlanningCombined_nav,
{
}

/// A waiting password never leaves over a connection that is not encrypted: the save ends with a
/// message before anything is planned.
pub proof fn plain_links_stop_passwords(
    old: Session,
    new: Session,
    flow: SaveFlow,
    next: SaveFlow,
    act: SaveDo,
)
    requires
        save_stepped(old, new, flow, SaveEvent::Begin, next, act),
        flow is Start,
        old.pending_password is Some,
        !old.connection_encrypted,
    ensures
        next is Showing,
        new == old,
{
}

/// A save that was not submitted leaves the waiting password and the form as they were.
pub proof fn unsubmitted_saves_change_nothing(
    old: Session,
    new: Session,
    flow: SaveFlow,
    event: SaveEvent,
    next: SaveFlow,
    act: SaveDo,
)
    requires
        save_stepped(old, new, flow, event, next, act),
        !(next is Submitting),
        !(next is SubmittingCombined),
    ensures
        new.edit_form == old.edit_form,
        new.pending_password == old.pending_password,
{
}

/// How far a creation has come.
pub enum CreateFlow {
    Start,
    /// The entry is being planned.
    Planning,
    /// The password is being put in.
    Folding { dn: String, ldif: String },
    /// The companion is being planned.
    Pairing { entry: NewEntry, body: String },
    /// The user is asked.
    Confirming { entry: NewEntry, companion: Option<NewEntry> },
    /// A message is shown.
    Showing,
    Finished,
}

/// A planned companion, with its preview.
pub struct Companion {
    pub entry: NewEntry,
    pub ldif: String,
}

/// What happens to a creation.
pub enum CreateEvent {
    Begin,
    /// The entry was planned: its name, its attributes and its preview; or why not.
    Planned(Result<(String, AttrMap, String), String>),
    /// The password was put into the attributes, with the preview that hides it; no preview where
    /// nothing was put in.
    Folded { attrs: AttrMap, masked: Option<String> },
    /// The companion was planned, where there is to be one; or why not.
    Paired(Result<Option<Companion>, String>),
    /// The dialog was answered.
    Answered(Command),
    /// The message was dismissed.
    Dismissed,
}

/// What a creation does next.
pub enum CreateDo {
    /// Plan the entry of a profile under a container.
    Plan { profile_idx: usize, container: String },
    /// Put the waiting password into the attributes.
    Fold { dn: String, attrs: AttrMap },
    /// Plan the companion against the attributes that the entry is added with.
    Pair { attrs: AttrMap },
    /// Show a message.
    Show(String),
    /// Ask, with the preview.
    Ask(String),
    /// Add the entry.
    Submit(CreateSubmit),
    Finish,
    /// The event has no meaning here.
    Ignore,
}

/// Whether a step shows a message.
pub open spec fn create_shows(flow: CreateFlow, act: CreateDo, text: Seq<char>) -> bool {
    flow is Showing && (act matches CreateDo::Show(t) && t@ == text)
}

/// The preview of an entry and its companion.
pub open spec fn pair_preview(body: Seq<char>, companion: Option<Companion>) -> Seq<char> {
    match companion {
        Some(c) => "# New entry\n"@ + body + "\n# Companion entry\n"@ + c.ldif@,
        None => body,
    }
}

/// Whether a step of a creation, from one state and flow to the next, is the one for an event.
/// `sentinel` stands for a staged password in the attributes.
pub open spec fn create_stepped(
    old: Session,
    new: Session,
    flow: CreateFlow,
    event: CreateEvent,
    sentinel: Seq<char>,
    next: CreateFlow,
    act: CreateDo,
) -> bool {
    match (flow, event) {
        (CreateFlow::Start, CreateEvent::Begin) => new == old && match composed(old) {
            None => next is Finished && act is Finish,
            Some(p) => next is Planning && (act matches CreateDo::Plan { profile_idx, container }
                && profile_idx == p.0 && container@ == p.1),
        },
        (CreateFlow::Planning, CreateEvent::Planned(r)) => new == old && match r {
            Err(msg) => create_shows(next, act, msg@),
            Ok(p) => if old.pending_password is Some && !old.connection_encrypted {
                create_shows(next, act, UNENCRYPTED@)
            } else {
                &&& next matches CreateFlow::Folding { dn, ldif } && dn@ == p.0@ && ldif == p.2
                &&& act matches CreateDo::Fold { dn, attrs } && dn == p.0 && attrs == p.1
            },
        },
        (CreateFlow::Folding { dn, ldif }, CreateEvent::Folded { attrs, masked }) => {
            &&& new == old
            &&& next matches CreateFlow::Pairing { entry, body } && {
                &&& act matches CreateDo::Pair { attrs: a } && a@ == entry.attrs@
                &&& entry.dn == dn
                &&& entry.attrs@ == if masked is None && old.pending_password is Some {
                    without_sentinel(attrs@, texts(old.pending_password_attrs@), sentinel)
                } else {
                    attrs@
                }
                &&& body == match masked {
                    Some(m) => m,
                    None => ldif,
                }
            }
        },
        (CreateFlow::Pairing { entry, body }, CreateEvent::Paired(r)) => new == old && match r {
            Err(msg) => create_shows(next, act, msg@),
            Ok(c) => {
                &&& next == (CreateFlow::Confirming {
                    entry,
                    companion: match c {
                        Some(x) => Some(x.entry),
                        None => None,
                    },
                })
                &&& act matches CreateDo::Ask(p) && p@ == pair_preview(body@, c)
            },
        },
        (CreateFlow::Confirming { entry, companion }, CreateEvent::Answered(cmd)) => if command_name(
            cmd,
        ) == "tv.ok"@ {
            &&& next is Finished
            &&& new == (Session { pending_password: None, ..old })
            &&& act == CreateDo::Submit(
                match companion {
                    Some(c) => if old.server_supports_txn {
                        CreateSubmit::Atomic { first: c, last: entry }
                    } else {
                        CreateSubmit::Sequential { first: c, last: entry }
                    },
                    None => CreateSubmit::Single(entry),
                },
            )
        } else {
            new == old && next is Finished && act is Finish
        },
        (CreateFlow::Showing, CreateEvent::Dismissed) => new == old && next is Finished && act
            is Finish,
        _ => new == old && next == flow && act is Ignore,
    }
}

/// Takes a creation one step further. Nothing is added but what was planned, shown, and accepted.
pub fn create_step(st: &mut Session, flow: CreateFlow, event: CreateEvent, sentinel: &str) -> (r: (
    CreateFlow,
    CreateDo,
))
    ensures
        create_stepped(*old(st), *final(st), flow, event, sentinel@, r.0, r.1),
{
    match (flow, event) {
        (CreateFlow::Start, CreateEvent::Begin) => match composed_entry(st) {
            None => (CreateFlow::Finished, CreateDo::Finish),
            Some((profile_idx, container)) => (
                CreateFlow::Planning,
                CreateDo::Plan { profile_idx, container },
            ),
        },
        (CreateFlow::Planning, CreateEvent::Planned(planned)) => match planned {
            Err(msg) => (CreateFlow::Showing, CreateDo::Show(msg)),
            Ok((dn, attrs, ldif)) => {
                if !create_allowed(st) {
                    (CreateFlow::Showing, CreateDo::Show(UNENCRYPTED.to_owned()))
                } else {
                    (CreateFlow::Folding { dn: dn.clone(), ldif }, CreateDo::Fold { dn, attrs })
                }
            },
        },
        (CreateFlow::Folding { dn, ldif }, CreateEvent::Folded { attrs, masked }) => {
            let mut attrs: AttrMap = attrs;
            let body: String = create_body(st, &mut attrs, masked, ldif, sentinel);
            let paired: AttrMap = attrs.copy();
            (
                CreateFlow::Pairing { entry: NewEntry { dn, attrs }, body },
                CreateDo::Pair { attrs: paired },
            )
        },
        (CreateFlow::Pairing { entry, body }, CreateEvent::Paired(paired)) => match paired {
            Err(msg) => (CreateFlow::Showing, CreateDo::Show(msg)),
            Ok(None) => {
                let preview: String = create_preview(&body, None);
                (CreateFlow::Confirming { entry, companion: None }, CreateDo::Ask(preview))
            },
            Ok(Some(c)) => {
                let preview: String = create_preview(&body, Some(c.ldif.as_str()));
                (
                    CreateFlow::Confirming { entry, companion: Some(c.entry) },
                    CreateDo::Ask(preview),
                )
            },
        },
        (CreateFlow::Confirming { entry, companion }, CreateEvent::Answered(cmd)) => {
            if same_text(cmd.name(), "tv.ok") {
                let submit: CreateSubmit = confirm_create(st, entry, companion);
                (CreateFlow::Finished, CreateDo::Submit(submit))
            } else {
                (CreateFlow::Finished, CreateDo::Finish)
            }
        },
        (CreateFlow::Showing, CreateEvent::Dismissed) => (CreateFlow::Finished, CreateDo::Finish),
        (flow, _) => (flow, CreateDo::Ignore),
    }
}

/// A creation adds only what it asked about, and only when the answer was to accept.
pub proof fn creations_are_confirmed(
    old: Session,
    new: Session,
    flow: CreateFlow,
    event: CreateEvent,
    sentinel: Seq<char>,
    next: CreateFlow,
    act: CreateDo,
)
    requires
        create_stepped(old, new, flow, event, sentinel, next, act),
        act is Submit,
    ensures
        event matches CreateEvent::Answered(cmd) && command_name(cmd) == "tv.ok"@,
        flow is Confirming,
        match act->Submit_0 {
            CreateSubmit::Single(e) => e == flow->Confirming_entry
                && flow->Confirming_companion is None,
            CreateSubmit::Atomic { first, last } => last == flow->Confirming_entry && Some(first)
                == flow->Confirming_companion,
            CreateSubmit::Sequential { first, last } => last == flow->Confirming_entry && Some(
                first,
            ) == flow->Confirming_companion,
        },
{
}

/// A companion is planned against the attributes that its entry is then added with, and both are
/// shown before they are added.
pub proof fn companions_fit_the_entry_added(
    states: (Session, Session, Session, Session),
    flow: CreateFlow,
    attrs: AttrMap,
    masked: Option<String>,
    sentinel: Seq<char>,
    pairing: CreateFlow,
    act0: CreateDo,
    companion: Option<Companion>,
    confirming: CreateFlow,
    act1: CreateDo,
    cmd: Command,
    last: CreateFlow,
    act2: CreateDo,
)
    requires
        flow is Folding,
        create_stepped(
            states.0,
            states.1,
            flow,
            (CreateEvent::Folded { attrs, masked }),
            sentinel,
            pairing,
            act0,
        ),
        create_stepped(
            states.1,
            states.2,
            pairing,
            CreateEvent::Paired(Ok(companion)),
            sentinel,
            confirming,
            act1,
        ),
        create_stepped(
            states.2,
            states.3,
            confirming,
            CreateEvent::Answered(cmd),
            sentinel,
            last,
            act2,
        ),
        act2 is Submit,
    ensures
        act0 is Pair,
        act1 matches CreateDo::Ask(p) && p@ == pair_preview(pairing->Pairing_body@, companion),
        match act2->Submit_0 {
            CreateSubmit::Single(e) => companion is None && e.attrs@ == act0->Pair_attrs@,
            CreateSubmit::Atomic { first, last } => companion is Some && first
                == companion->0.entry && last.attrs@ == act0->Pair_attrs@,
            CreateSubmit::Sequential { first, last } => companion is Some && first
                == companion->0.entry && last.attrs@ == act0->Pair_attrs@,
        },
{
}

/// A save begins by what it finds: it is refused, it ends without a form, or it is planned, for the
/// entry alone or with its groups. The state stays.
pub proof fn saves_begin_with_a_plan(
    old: Session,
    new: Session,
    nav: Nav,
    quit_after: bool,
    next: SaveFlow,
    act: SaveDo,
)
    requires
        save_stepped(
            old,
            new,
            (SaveFlow::Start { nav, quit_after }),
            SaveEvent::Begin,
            next,
            act,
        ),
    ensures
        new == old,
        save_start_of(old) == SaveStart::Plain ==> act is Plan && next == (SaveFlow::Planning {
            nav,
            quit_after,
        }),
        save_start_of(old) == SaveStart::Combined ==> act is PlanCombined && next == (
        SaveFlow::PlanningCombined { nav, quit_after }),
        save_start_of(old) == SaveStart::NoForm ==> act == SaveDo::Finish(SaveOutcome::NotSubmitted),
        save_start_of(old) == SaveStart::Refused ==> (act matches SaveDo::Show(t) && t@
            == "Changing a password requires an encrypted connection."@) && next is Showing,
{
}

/// A plan that is ready is asked about, with its preview, and what is confirmed later is that plan for
/// that entry; one that is not ready ends the save with a note or a message.
pub proof fn ready_plans_are_asked_about(
    old: Session,
    new: Session,
    nav: Nav,
    quit_after: bool,
    p: PlannedSave,
    next: SaveFlow,
    act: SaveDo,
)
    requires
        save_stepped(
            old,
            new,
            (SaveFlow::Planning { nav, quit_after }),
            SaveEvent::Planned(p),
            next,
            act,
        ),
    ensures
        p matches PlannedSave::Ready { plan, dn, ldif } ==> new == old && next == (
        SaveFlow::Confirming { plan, dn, nav, quit_after }) && (act matches SaveDo::Ask(l) && l@
            == ldif@),
        p is NoChanges ==> new.status@ == "No changes."@ && act == SaveDo::Finish(
            SaveOutcome::NotSubmitted,
        ) && new.guard_target is None,
        p is Invalid || p is DiffError || p is Refused ==> new == old && next is Showing
            && act is Show,
        new.edit_form == old.edit_form && new.pending_password == old.pending_password,
{
}

/// An accepted save submits its plan with the version that the form was read with; one that is not
/// accepted ends, and nothing changes.
pub proof fn accepted_saves_are_submitted(
    old: Session,
    new: Session,
    flow: SaveFlow,
    cmd: Command,
    next: SaveFlow,
    act: SaveDo,
)
    requires
        flow is Confirming,
        save_stepped(old, new, flow, SaveEvent::Answered(cmd), next, act),
    ensures
        command_name(cmd) == "tv.ok"@ ==> next is Submitting && save_confirmed(
            old,
            new,
            flow->Confirming_nav,
        ) && (act matches SaveDo::Submit { plan, dn, csn, quit_after } && plan == flow->Confirming_plan
            && dn == flow->Confirming_dn && quit_after == flow->Confirming_quit_after && is_opt(
            csn,
            asserted_csn(old),
        )),
        command_name(cmd) != "tv.ok"@ ==> new == old && act == SaveDo::Finish(
            SaveOutcome::NotSubmitted,
        ),
{
}

/// A save counts as submitted only where the directory took it; a refusal of several entries is shown,
/// and every message ends a save that was not submitted.
pub proof fn only_taken_saves_count(
    old: Session,
    new: Session,
    flow: SaveFlow,
    event: SaveEvent,
    next: SaveFlow,
    act: SaveDo,
)
    requires
        save_stepped(old, new, flow, event, next, act),
    ensures
        act == SaveDo::Finish(SaveOutcome::Submitted) ==> (flow is Submitting
            || flow is SubmittingCombined) && (event matches SaveEvent::Submitted(Some(Ok(_)))),
        (flow is Submitting || flow is SubmittingCombined) && (event matches SaveEvent::Submitted(
            Some(Ok(_)),
        )) ==> act == SaveDo::Finish(SaveOutcome::Submitted) && new == old,
        flow is SubmittingCombined && (event matches SaveEvent::Submitted(Some(Err(_)))) ==> next is Showing
            && (act matches SaveDo::Show(t) && t@ == event->Submitted_0->0->Err_0@),
        flow is Showing && event is Dismissed ==> act == SaveDo::Finish(SaveOutcome::NotSubmitted)
            && new == old,
{
}

/// What a composed entry becomes: it is planned under the profile and the container of its form, its
/// password is put in, and it is asked about, with its companion. A plan that fails is explained.
pub proof fn creations_are_planned_and_asked_about(
    old: Session,
    new: Session,
    flow: CreateFlow,
    event: CreateEvent,
    sentinel: Seq<char>,
    next: CreateFlow,
    act: CreateDo,
)
    requires
        create_stepped(old, new, flow, event, sentinel, next, act),
    ensures
        flow is Start && event is Begin ==> new == old && (composed(old) matches Some(p) ==> (
        act matches CreateDo::Plan { profile_idx, container } && profile_idx == p.0 && container@
            == p.1)) && (composed(old) is None ==> act is Finish),
        flow is Planning ==> (event matches CreateEvent::Planned(Ok(p)) ==> new == old && (if old.pending_password is Some
            && !old.connection_encrypted {
            next is Showing && (act matches CreateDo::Show(t) && t@
                == "Changing a password requires an encrypted connection."@)
        } else {
            (act matches CreateDo::Fold { dn, attrs } && dn@ == p.0@ && attrs@ == p.1@) && (
            next matches CreateFlow::Folding { dn, ldif } && dn@ == p.0@ && ldif@ == p.2@)
        })),
        flow is Planning ==> (event matches CreateEvent::Planned(Err(msg)) ==> new == old
            && next is Showing && (act matches CreateDo::Show(t) && t@ == msg@)),
        flow is Pairing ==> (event matches CreateEvent::Paired(Err(msg)) ==> new == old
            && next is Showing && (act matches CreateDo::Show(t) && t@ == msg@)),
        flow is Pairing ==> (event matches CreateEvent::Paired(Ok(c)) ==> new == old && (
        next matches CreateFlow::Confirming { entry, companion } && entry == flow->Pairing_entry
            && companion is Some == c is Some) && act is Ask),
        flow is Confirming ==> (event matches CreateEvent::Answered(cmd) ==> (act is Submit
            <==> command_name(cmd) == "tv.ok"@) && (act is Submit ==> new.pending_password is None)
            && new.edit_form == old.edit_form),
{
}

/// The password of a new entry never goes out as the text that stands for it: what is added holds the
/// folded attributes, and where nothing was folded the staged attributes without that text.
pub proof fn sentinels_are_not_added(
    old: Session,
    new: Session,
    flow: CreateFlow,
    attrs: AttrMap,
    masked: Option<String>,
    sentinel: Seq<char>,
    next: CreateFlow,
    act: CreateDo,
    k: int,
)
    requires
        flow is Folding,
        create_stepped(
            old,
            new,
            flow,
            (CreateEvent::Folded { attrs, masked }),
            sentinel,
            next,
            act,
        ),
        0 <= k < old.pending_password_attrs@.len(),
    ensures
        next is Pairing && next->Pairing_entry.dn == flow->Folding_dn,
        masked is Some ==> next->Pairing_entry.attrs@ == attrs@ && next->Pairing_body == masked->0,
        masked is None ==> next->Pairing_body == flow->Folding_ldif,
        masked is None && old.pending_password is Some ==> match values_of(
            next->Pairing_entry.attrs@,
            old.pending_password_attrs@[k]@,
        ) {
            Some(v) => !v.contains(sentinel),
            None => true,
        },
        old.pending_password is None ==> next->Pairing_entry.attrs@ == attrs@,
{
    let staged = texts(old.pending_password_attrs@);
    assert(staged[k] == old.pending_password_attrs@[k]@);
    no_sentinel_is_left(attrs@, staged, sentinel, k);
}

/// The preview of a new entry shows the entry, and behind it its companion, where it has one.
pub proof fn companions_are_shown(body: Seq<char>, c: Companion)
    ensures
        pair_preview(body, None) == body,
        pair_preview(body, Some(c)) == "# New entry\n"@ + body + "\n# Companion entry\n"@ + c.ldif@,
{
}

/// A companion is added before the entry it belongs to, in one step where the directory can do that;
/// an entry without one is added alone.
pub proof fn companions_come_first(
    old: Session,
    new: Session,
    entry: NewEntry,
    companion: Option<NewEntry>,
    cmd: Command,
    sentinel: Seq<char>,
    next: CreateFlow,
    act: CreateDo,
)
    requires
        create_stepped(
            old,
            new,
            (CreateFlow::Confirming { entry, companion }),
            CreateEvent::Answered(cmd),
            sentinel,
            next,
            act,
        ),
        command_name(cmd) == "tv.ok"@,
    ensures
        companion is None ==> act == CreateDo::Submit(CreateSubmit::Single(entry)),
        companion matches Some(c) ==> old.server_supports_txn ==> act == CreateDo::Submit(
            CreateSubmit::Atomic { first: c, last: entry },
        ),
        companion matches Some(c) ==> !old.server_supports_txn ==> act == CreateDo::Submit(
            CreateSubmit::Sequential { first: c, last: entry },
        ),
{
}

} // verus!
