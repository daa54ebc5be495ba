//! Carrying out a save with groups: checking that no group is emptied, writing, and reporting.
use vstd::prelude::*;
use vstd::string::*;

use crate::app::{
    intent_done, perform_guard_intent, rebind_selection, rebound, App, GuardIntent, Overlay,
};
use crate::changes::{
    fanout_model, id_after, mods_model, nth_id, single_mod, would_empty, GroupMod, Mod, ModKind,
    ModOp, WriteIds,
};
use crate::directory::{members_of, read_group_members, ReadAnswer};
use crate::edit_form::EditForm;
use crate::text::{concat2, concat3, join, joined, same_ci, texts};
use crate::writes::Request;

verus! {

/// The read that a change of a group calls for: that of the group's members, where it removes one.
pub fn removal_read(change: &(String, ModOp), ids: &mut WriteIds) -> (r: Option<Request>)
    ensures
        match change.1 {
            ModOp::Delete { attr, values } => {
                &&& r matches Some(Request::ReadAttr { id, dn, attr: a }) && id == old(ids).next
                    && dn@ == change.0@ && a@ == attr@
                &&& final(ids).next == id_after(old(ids).next)
            },
            _ => r is None && *final(ids) == *old(ids),
        },
{
    match &change.1 {
        ModOp::Delete { attr, .. } => {
            let id: u64 = ids.next_id();
            Some(Request::ReadAttr { id, dn: change.0.clone(), attr: attr.clone() })
        },
        _ => None,
    }
}

/// What keeps a change of a group from being made, if anything: a removal whose group could not be
/// read, or that would take the group's last member.
pub open spec fn block_of(change: GroupMod, members: Option<Vec<String>>) -> Option<Seq<char>> {
    if change.1.0 != ModKind::Delete {
        None
    } else {
        match members {
            None => Some(change.0 + ": could not verify members"@),
            Some(m) => if change.1.2.len() > 0 && m@.len() == 1 && same_ci(
                texts(m@)[0],
                change.1.2[0],
            ) {
                Some(change.0 + ": would remove last member"@)
            } else {
                None
            },
        }
    }
}

/// What keeps the changes of the groups from being made.
pub open spec fn blocks(
    changes: Seq<GroupMod>,
    members: Seq<Option<Vec<String>>>,
    n: int,
) -> Seq<Seq<char>>
    decreases n,
{
    if n <= 0 {
        Seq::empty()
    } else {
        let before = blocks(changes, members, n - 1);
        match block_of(changes[n - 1], members[n - 1]) {
            Some(t) => before.push(t),
            None => before,
        }
    }
}

/// What keeps the changes of the groups from being made; `members` holds, for each change that
/// removes a member, the group's members as just read.
pub fn blocked_removals(
    changes: &Vec<(String, ModOp)>,
    members: &Vec<Option<Vec<String>>>,
) -> (r: Vec<String>)
    requires
        members@.len() == changes@.len(),
    ensures
        texts(r@) == blocks(fanout_model(changes@), members@, changes@.len() as int),
{
    let mut out: Vec<String> = Vec::new();
    let ghost all = fanout_model(changes@);
    let mut i: usize = 0;
    assert(texts(out@) =~= Seq::empty());
    while i < changes.len()
        invariant
            i <= changes@.len(),
            members@.len() == changes@.len(),
            all == fanout_model(changes@),
            texts(out@) == blocks(all, members@, i as int),
        decreases changes@.len() - i,
    {
        let ghost o0 = out@;
        assert(all[i as int] == (changes@[i as int].0@, changes@[i as int].1.model()));
        match &changes[i].1 {
            ModOp::Delete { attr, values } => {
                assert(texts(values@).len() == values@.len());
                match &members[i] {
                    None => {
                        let line: String = concat2(&changes[i].0, ": could not verify members");
                        let ghost l = line@;
                        out.push(line);
                        assert(texts(out@) =~= texts(o0).push(l));
                    },
                    Some(m) => {
                        if values.len() > 0 && would_empty(m, &values[0]) {
                            let line: String = concat2(&changes[i].0, ": would remove last member");
                            let ghost l = line@;
                            out.push(line);
                            assert(texts(out@) =~= texts(o0).push(l));
                        }
                    },
                }
            },
            _ => {},
        }
        i += 1;
    }
    out
}

/// Whether the changes of the groups may be made. Where anything keeps one of them from being made,
/// none is: nothing is written, the form keeps its edits, and a message says why.
pub fn check_removals(
    app: &mut App,
    changes: &Vec<(String, ModOp)>,
    members: &Vec<Option<Vec<String>>>,
) -> (r: bool)
    requires
        members@.len() == changes@.len(),
    ensures
        ({
            let b = blocks(fanout_model(changes@), members@, changes@.len() as int);
            &&& r == (b.len() == 0)
            &&& r ==> *final(app) == *old(app)
            &&& !r ==> {
                &&& *final(app) == (App { overlay: final(app).overlay, ..*old(app) })
                &&& final(app).overlay matches Some(Overlay::Error { text }) && text@
                    == "Cannot save — membership change blocked:\n- "@ + joined(b, "\n- "@)
            }
        }),
{
    let blocked: Vec<String> = blocked_removals(changes, members);
    assert(texts(blocked@).len() == blocked@.len());
    if blocked.len() == 0 {
        return true;
    }
    let text: String = concat2(
        "Cannot save — membership change blocked:\n- ",
        &join(&blocked, "\n- "),
    );
    app.overlay = Some(Overlay::Error { text });
    false
}

proof fn blocks_found(changes: Seq<GroupMod>, members: Seq<Option<Vec<String>>>, n: int, i: int)
    requires
        0 <= i < n <= changes.len(),
        block_of(changes[i], members[i]) is Some,
    ensures
        blocks(changes, members, n).len() > 0,
    decreases n,
{
    if i < n - 1 {
        blocks_found(changes, members, n - 1, i);
    }
}

/// One group that would be emptied, or could not be read, holds up the changes of all groups.
pub proof fn one_block_stops_all(
    changes: Seq<GroupMod>,
    members: Seq<Option<Vec<String>>>,
    i: int,
)
    requires
        0 <= i < changes.len(),
        block_of(changes[i], members[i]) is Some,
    ensures
        blocks(changes, members, changes.len() as int).len() > 0,
{
    blocks_found(changes, members, changes.len() as int, i);
}

/// A request as a mathematical value, where it changes attributes: id, name and changes.
pub open spec fn modify_model(r: Request) -> Option<(u64, Seq<char>, Seq<Mod>)> {
    match r {
        Request::Modify { id, dn, changes } => Some((id, dn@, mods_model(changes@))),
        _ => None,
    }
}

/// The entries that a save with groups writes, with the changes: the entry itself, where it has
/// changes of its own, then each group.
pub open spec fn writes_of(
    entry_dn: Seq<char>,
    own: Seq<Mod>,
    changes: Seq<GroupMod>,
) -> Seq<(Seq<char>, Seq<Mod>)> {
    let groups = changes.map_values(|g: GroupMod| (g.0, seq![g.1]));
    if own.len() == 0 {
        groups
    } else {
        seq![(entry_dn, own)] + groups
    }
}

/// The requests of a save with groups, in the order in which they are sent: the entry itself, where
/// it has changes of its own, then each group.
pub fn combined_requests(
    entry_dn: &str,
    own_mods: Vec<ModOp>,
    changes: Vec<(String, ModOp)>,
    ids: &mut WriteIds,
) -> (r: Vec<Request>)
    ensures
        ({
            let w = writes_of(entry_dn@, mods_model(own_mods@), fanout_model(changes@));
            &&& r@.len() == w.len()
            &&& final(ids).next == nth_id(old(ids).next, w.len())
            &&& forall|i: int|
                0 <= i < w.len() ==> modify_model(#[trigger] r@[i]) == Some(
                    (nth_id(old(ids).next, i as nat), w[i].0, w[i].1),
                )
        }),
{
    let ghost start = ids.next;
    let ghost w = writes_of(entry_dn@, mods_model(own_mods@), fanout_model(changes@));
    let ghost groups = fanout_model(changes@);
    let ghost lead: int = if own_mods@.len() == 0 { 0 } else { 1 };
    let mut out: Vec<Request> = Vec::new();
    assert(mods_model(own_mods@).len() == own_mods@.len());
    if own_mods.len() > 0 {
        let ghost own = mods_model(own_mods@);
        let id: u64 = ids.next_id();
        let req: Request = Request::Modify { id, dn: entry_dn.to_owned(), changes: own_mods };
        assert(modify_model(req) == Some((id, entry_dn@, own)));
        assert(w[0] == (entry_dn@, own));
        out.push(req);
        assert(nth_id(start, 1) == id_after(nth_id(start, 0)));
    }
    let mut rest: Vec<(String, ModOp)> = changes;
    let ghost all = rest@;
    assert(all.skip(0) =~= all);
    let ghost mut n: int = 0;
    while rest.len() > 0
        invariant
            0 <= n <= all.len(),
            rest@ == all.skip(n),
            groups == fanout_model(all),
            0 <= lead <= 1,
            w.len() == lead + all.len(),
            forall|k: int| 0 <= k < all.len() ==> #[trigger] w[lead + k] == (groups[k].0, seq![groups[k].1]),
            out@.len() == lead + n,
            ids.next == nth_id(start, (lead + n) as nat),
            forall|i: int|
                0 <= i < lead + n ==> modify_model(#[trigger] out@[i]) == Some(
                    (nth_id(start, i as nat), w[i].0, w[i].1),
                ),
        decreases rest@.len(),
    {
        let (dn, op) = rest.remove(0);
        proof {
            assert(all[n] == (dn, op));
            assert(groups[n] == (dn@, op.model()));
            assert(rest@ =~= all.skip(n + 1));
            assert(w[lead + n] == (groups[n].0, seq![groups[n].1]));
        }
        let id: u64 = ids.next_id();
        let req: Request = Request::Modify { id, dn, changes: single_mod(op) };
        assert(modify_model(req) == Some(
            (nth_id(start, (lead + n) as nat), w[lead + n].0, w[lead + n].1),
        ));
        out.push(req);
        proof {
            n = n + 1;
            assert(nth_id(start, (lead + n) as nat) == id_after(
                nth_id(start, (lead + n - 1) as nat),
            ));
        }
    }
    out
}

/// The answer to a write that was waited for.
pub enum WriteAnswer {
    /// It was made.
    Written,
    /// The directory refused it.
    Refused(String),
    /// Some other answer came.
    Unexpected,
    /// No answer came.
    Failed(String),
}

/// What went wrong with a write, if anything.
pub fn write_failure(answer: WriteAnswer) -> (r: Option<String>)
    ensures
        match answer {
            WriteAnswer::Written => r is None,
            WriteAnswer::Refused(msg) => r == Some(msg),
            WriteAnswer::Unexpected => r matches Some(t) && t@ == "unexpected response"@,
            WriteAnswer::Failed(msg) => r == Some(msg),
        },
{
    match answer {
        WriteAnswer::Written => None,
        WriteAnswer::Refused(msg) => Some(msg),
        WriteAnswer::Unexpected => Some("unexpected response".to_owned()),
        WriteAnswer::Failed(msg) => Some(msg),
    }
}

/// The entries whose write went wrong, each with what went wrong.
pub open spec fn failure_lines(dns: Seq<Seq<char>>, failed: Seq<Option<String>>, n: int) -> Seq<
    Seq<char>,
>
    decreases n,
{
    if n <= 0 {
        Seq::empty()
    } else {
        let before = failure_lines(dns, failed, n - 1);
        match failed[n - 1] {
            Some(msg) => before.push(dns[n - 1] + ": "@ + msg@),
            None => before,
        }
    }
}

/// The entries whose write went wrong, each with what went wrong. `dns` are the entries written.
pub fn write_failures(dns: &Vec<String>, failed: &Vec<Option<String>>) -> (r: Vec<String>)
    requires
        dns@.len() == failed@.len(),
    ensures
        texts(r@) == failure_lines(texts(dns@), failed@, dns@.len() as int),
{
    let mut out: Vec<String> = Vec::new();
    let mut i: usize = 0;
    assert(texts(out@) =~= Seq::empty());
    while i < dns.len()
        invariant
            i <= dns@.len(),
            dns@.len() == failed@.len(),
            texts(out@) == failure_lines(texts(dns@), failed@, i as int),
        decreases dns@.len() - i,
    {
        let ghost o0 = out@;
        match &failed[i] {
            Some(msg) => {
                let line: String = concat3(&dns[i], ": ", msg);
                let ghost l = line@;
                out.push(line);
                assert(texts(out@) =~= texts(o0).push(l));
            },
            None => {},
        }
        i += 1;
    }
    out
}

/// Whether `new` is `old` with the entry read again after a save: the highlighted row has its name,
/// and its form, if it could be read, is shown from the top.
pub open spec fn reloaded(old: App, new: App, dn: Seq<char>, form: Option<EditForm>) -> bool {
    match form {
        None => rebound(old, new, dn),
        Some(f) => {
            &&& new.form == Some(f)
            &&& new.form_focus == 0
            &&& new.form_scroll == 0
            &&& rebound(
                old,
                (App {
                    form: old.form,
                    form_focus: old.form_focus,
                    form_scroll: old.form_scroll,
                    ..new
                }),
                dn,
            )
        },
    }
}

/// Shows the entry as read again after a save.
pub fn reload_form(app: &mut App, dn: &str, form: Option<EditForm>)
    ensures
        reloaded(*old(app), *final(app), dn@, form),
{
    rebind_selection(app, dn);
    match form {
        Some(f) => {
            app.form = Some(f);
            app.form_focus = 0;
            app.form_scroll = 0;
        },
        None => {},
    }
}

/// Whether `new`, with the entry to read, is `old` after a save with groups was written: without
/// failures the step that waited is taken, otherwise they are reported and it is not.
pub open spec fn combined_finished(
    old: App,
    new: App,
    failures: Seq<Seq<char>>,
    then_intent: Option<GuardIntent>,
    read: Option<String>,
) -> bool {
    if failures.len() > 0 {
        &&& read is None
        &&& new == (App { overlay: new.overlay, ..old })
        &&& new.overlay matches Some(Overlay::Error { text }) && text@ == "Saved with errors:\n- "@
            + joined(failures, "\n- "@)
    } else {
        exists|mid: App|
            {
                &&& mid == (App { status: mid.status, ..old })
                &&& mid.status@ == "Saved."@
                &&& #[trigger] after_saving(mid, new, then_intent, read)
            }
    }
}

/// Whether `new` is `mid` after the step that waited for a save, if any.
pub open spec fn after_saving(
    mid: App,
    new: App,
    then_intent: Option<GuardIntent>,
    read: Option<String>,
) -> bool {
    match then_intent {
        Some(intent) => intent_done(mid, new, intent, read),
        None => new == mid && read is None,
    }
}

/// Reports a save with groups. Without failures the step that waited for it is taken; with some,
/// the user stays on the entry and sees them.
pub fn finish_combined(
    app: &mut App,
    failures: &Vec<String>,
    then_intent: Option<GuardIntent>,
) -> (read: Option<String>)
    ensures
        combined_finished(*old(app), *final(app), texts(failures@), then_intent, read),
{
    assert(texts(failures@).len() == failures@.len());
    if failures.len() > 0 {
        let text: String = concat2("Saved with errors:\n- ", &join(failures, "\n- "));
        app.overlay = Some(Overlay::Error { text });
        return None;
    }
    app.status = "Saved.".to_owned();
    let ghost mid = *app;
    let read: Option<String> = match then_intent {
        Some(intent) => perform_guard_intent(app, intent),
        None => None,
    };
    assert(after_saving(mid, *app, then_intent, read));
    read
}

/// The number of changes that remove a member, among the first `n`.
pub open spec fn removals(changes: Seq<(String, ModOp)>, n: int) -> nat
    decreases n,
{
    if n <= 0 {
        0
    } else if changes[n - 1].1 is Delete {
        removals(changes, n - 1) + 1
    } else {
        removals(changes, n - 1)
    }
}

/// Whether a request reads the members of a group that a change removes one of.
pub open spec fn reads_group(req: Request, id: u64, change: (String, ModOp)) -> bool {
    match change.1 {
        ModOp::Delete { attr, values } => req matches Request::ReadAttr { id: i, dn, attr: a } && i
            == id && dn@ == change.0@ && a@ == attr@,
        _ => false,
    }
}

/// Whether a request is one of those that read the groups before a save, numbered from `start`.
pub open spec fn is_group_read(changes: Seq<(String, ModOp)>, start: u64, req: Request) -> bool {
    exists|i: int|
        0 <= i < changes.len() && reads_group(
            req,
            nth_id(start, removals(changes, i)),
            #[trigger] changes[i],
        )
}

/// Whether `members` are those of a changed group as just read, where the change removes one.
pub open spec fn group_read<G: Fn(&Request) -> ReadAnswer>(
    read: G,
    id: u64,
    change: (String, ModOp),
    members: Option<Vec<String>>,
) -> bool {
    match change.1 {
        ModOp::Delete { attr, values } => exists|req: Request, answer: ReadAnswer|
            {
                &&& reads_group(req, id, change)
                &&& #[trigger] call_ensures(read, (&req,), answer)
                &&& match members {
                    Some(m) => members_of(answer, attr@) == Some(texts(m@)),
                    None => members_of(answer, attr@) is None,
                }
            },
        _ => members is None,
    }
}

/// Whether `members` are those of the changed groups as just read, one group after the other.
pub open spec fn groups_read<G: Fn(&Request) -> ReadAnswer>(
    read: G,
    start: u64,
    changes: Seq<(String, ModOp)>,
    members: Seq<Option<Vec<String>>>,
) -> bool {
    &&& members.len() == changes.len()
    &&& forall|i: int|
        0 <= i < members.len() ==> group_read(
            read,
            nth_id(start, removals(changes, i)),
            changes[i],
            #[trigger] members[i],
        )
}

fn read_groups<G: Fn(&Request) -> ReadAnswer>(
    changes: &Vec<(String, ModOp)>,
    ids: &mut WriteIds,
    read: G,
) -> (r: Vec<Option<Vec<String>>>)
    requires
        forall|req: &Request|
            is_group_read(changes@, old(ids).next, *req) ==> #[trigger] call_requires(read, (req,)),
    ensures
        groups_read(read, old(ids).next, changes@, r@),
        final(ids).next == nth_id(old(ids).next, removals(changes@, changes@.len() as int)),
{
    let ghost start = ids.next;
    let mut out: Vec<Option<Vec<String>>> = Vec::new();
    let mut i: usize = 0;
    while i < changes.len()
        invariant
            i <= changes@.len(),
            out@.len() == i,
            ids.next == nth_id(start, removals(changes@, i as int)),
            forall|req: &Request|
                is_group_read(changes@, start, *req) ==> #[trigger] call_requires(read, (req,)),
            forall|j: int|
                0 <= j < i ==> group_read(
                    read,
                    nth_id(start, removals(changes@, j)),
                    changes@[j],
                    #[trigger] out@[j],
                ),
        decreases changes@.len() - i,
    {
        let ghost n = removals(changes@, i as int);
        let members: Option<Vec<String>> = match removal_read(&changes[i], ids) {
            Some(req) => {
                proof {
                    assert(reads_group(req, nth_id(start, n), changes@[i as int]));
                    assert(is_group_read(changes@, start, req));
                    assert(nth_id(start, n + 1) == id_after(nth_id(start, n)));
                }
                let answer: ReadAnswer = read(&req);
                match &changes[i].1 {
                    ModOp::Delete { attr, .. } => read_group_members(&answer, attr),
                    _ => None,
                }
            },
            None => None,
        };
        assert(group_read(read, nth_id(start, n), changes@[i as int], members));
        out.push(members);
        i += 1;
    }
    out
}

/// Whether anything keeps the changes of the groups from being made.
pub open spec fn removals_blocked(
    changes: Seq<(String, ModOp)>,
    members: Seq<Option<Vec<String>>>,
) -> bool {
    blocks(fanout_model(changes), members, changes.len() as int).len() > 0
}

/// Whether the groups were read, and nothing keeps their changes from being made.
pub open spec fn removals_cleared<G: Fn(&Request) -> ReadAnswer>(
    group: G,
    start: u64,
    changes: Seq<(String, ModOp)>,
) -> bool {
    exists|members: Seq<Option<Vec<String>>>| #[trigger]
        groups_read(group, start, changes, members) && !removals_blocked(changes, members)
}

/// Whether a request is one of the writes, numbered from `start`.
pub open spec fn is_write(w: Seq<(Seq<char>, Seq<Mod>)>, start: u64, req: Request) -> bool {
    exists|i: int|
        0 <= i < w.len() && modify_model(req) == Some(
            (nth_id(start, i as nat), (#[trigger] w[i]).0, w[i].1),
        )
}

/// Whether a write to an entry came to `failed`.
pub open spec fn written<W: Fn(&Request) -> WriteAnswer>(
    write: W,
    id: u64,
    change: (Seq<char>, Seq<Mod>),
    failed: Option<String>,
) -> bool {
    exists|req: Request, answer: WriteAnswer|
        {
            &&& modify_model(req) == Some((id, change.0, change.1))
            &&& #[trigger] call_ensures(write, (&req,), answer)
            &&& match answer {
                WriteAnswer::Written => failed is None,
                WriteAnswer::Refused(msg) => failed == Some(msg),
                WriteAnswer::Unexpected => failed matches Some(t) && t@ == "unexpected response"@,
                WriteAnswer::Failed(msg) => failed == Some(msg),
            }
        }
}

/// Whether the writes, numbered from `start`, came to `failed`, one after the other.
pub open spec fn all_written<W: Fn(&Request) -> WriteAnswer>(
    write: W,
    start: u64,
    w: Seq<(Seq<char>, Seq<Mod>)>,
    failed: Seq<Option<String>>,
) -> bool {
    &&& failed.len() == w.len()
    &&& forall|i: int|
        0 <= i < w.len() ==> written(write, nth_id(start, i as nat), w[i], #[trigger] failed[i])
}

/// The names of the entries that are written.
pub open spec fn written_names(w: Seq<(Seq<char>, Seq<Mod>)>) -> Seq<Seq<char>> {
    w.map_values(|c: (Seq<char>, Seq<Mod>)| c.0)
}

fn write_all<W: Fn(&Request) -> WriteAnswer>(
    entry_dn: &str,
    own_mods: Vec<ModOp>,
    changes: Vec<(String, ModOp)>,
    ids: &mut WriteIds,
    write: W,
) -> (r: (Vec<String>, Vec<Option<String>>))
    requires
        forall|req: &Request|
            is_write(
                writes_of(entry_dn@, mods_model(own_mods@), fanout_model(changes@)),
                old(ids).next,
                *req,
            ) ==> #[trigger] call_requires(write, (req,)),
    ensures
        ({
            let w = writes_of(entry_dn@, mods_model(own_mods@), fanout_model(changes@));
            &&& texts(r.0@) == written_names(w)
            &&& all_written(write, old(ids).next, w, r.1@)
            &&& final(ids).next == nth_id(old(ids).next, w.len())
        }),
{
    let ghost w = writes_of(entry_dn@, mods_model(own_mods@), fanout_model(changes@));
    let ghost names = written_names(w);
    let ghost start = ids.next;
    let reqs: Vec<Request> = combined_requests(entry_dn, own_mods, changes, ids);
    let mut dns: Vec<String> = Vec::new();
    let mut failed: Vec<Option<String>> = Vec::new();
    let mut i: usize = 0;
    assert(texts(dns@) =~= names.take(0));
    while i < reqs.len()
        invariant
            i <= reqs@.len(),
            reqs@.len() == w.len(),
            names == written_names(w),
            texts(dns@) == names.take(i as int),
            dns@.len() == i,
            failed@.len() == i,
            forall|req: &Request| is_write(w, start, *req) ==> #[trigger] call_requires(write, (req,)),
            forall|j: int|
                0 <= j < w.len() ==> modify_model(#[trigger] reqs@[j]) == Some(
                    (nth_id(start, j as nat), w[j].0, w[j].1),
                ),
            forall|j: int|
                0 <= j < i ==> written(write, nth_id(start, j as nat), w[j], #[trigger] failed@[j]),
        decreases reqs@.len() - i,
    {
        let ghost d0 = dns@;
        assert(modify_model(reqs@[i as int]) == Some(
            (nth_id(start, i as nat), w[i as int].0, w[i as int].1),
        ));
        match &reqs[i] {
            Request::Modify { dn, .. } => {
                dns.push(dn.clone());
            },
            _ => {},
        }
        proof {
            assert(names[i as int] == w[i as int].0);
            assert(texts(dns@) =~= texts(d0).push(w[i as int].0));
            assert(texts(dns@) =~= names.take(i + 1));
            assert(is_write(w, start, reqs@[i as int]));
        }
        let answer: WriteAnswer = write(&reqs[i]);
        let f: Option<String> = write_failure(answer);
        assert(written(write, nth_id(start, i as nat), w[i as int], f));
        failed.push(f);
        i += 1;
    }
    assert(names.take(names.len() as int) =~= names);
    (dns, failed)
}

/// Whether `new`, with the entry to read, is `old` after the writes of a save with groups, numbered
/// from `start`: the entry is read again, and the failures are reported or the step that waited is
/// taken.
pub open spec fn combined_written<
    W: Fn(&Request) -> WriteAnswer,
    L: Fn(u64, &str) -> Option<EditForm>,
>(
    old: App,
    new: App,
    entry_dn: Seq<char>,
    w: Seq<(Seq<char>, Seq<Mod>)>,
    start: u64,
    then_intent: Option<GuardIntent>,
    write: W,
    load: L,
    read: Option<String>,
) -> bool {
    exists|failed: Seq<Option<String>>, dn: &str, form: Option<EditForm>, mid: App|
        {
            &&& #[trigger] all_written(write, start, w, failed)
            &&& dn@ == entry_dn
            &&& #[trigger] call_ensures(load, (nth_id(start, w.len()), dn), form)
            &&& #[trigger] reloaded(old, mid, entry_dn, form)
            &&& combined_finished(
                mid,
                new,
                failure_lines(written_names(w), failed, w.len() as int),
                then_intent,
                read,
            )
        }
}

/// The id of the first write of a save with groups, after the groups were read.
pub open spec fn first_write(start: u64, changes: Seq<(String, ModOp)>) -> u64 {
    nth_id(start, removals(changes, changes.len() as int))
}

/// Whether `new`, with the entry to read, is `old` after a save with groups. Every group that loses a
/// member is read first; where one would be emptied or could not be read, a message says so and all
/// else stays as it was. Each request has an id of its own, from `start` up to `end`.
pub open spec fn combined_applied<
    G: Fn(&Request) -> ReadAnswer,
    W: Fn(&Request) -> WriteAnswer,
    L: Fn(u64, &str) -> Option<EditForm>,
>(
    old: App,
    new: App,
    start: u64,
    end: u64,
    entry_dn: Seq<char>,
    own: Seq<Mod>,
    changes: Seq<(String, ModOp)>,
    then_intent: Option<GuardIntent>,
    group: G,
    write: W,
    load: L,
    read: Option<String>,
) -> bool {
    exists|members: Seq<Option<Vec<String>>>|
        {
            let b = blocks(fanout_model(changes), members, changes.len() as int);
            let w = writes_of(entry_dn, own, fanout_model(changes));
            &&& #[trigger] groups_read(group, start, changes, members)
            &&& if removals_blocked(changes, members) {
                &&& read is None
                &&& end == first_write(start, changes)
                &&& new == (App { overlay: new.overlay, ..old })
                &&& new.overlay matches Some(Overlay::Error { text }) && text@
                    == "Cannot save — membership change blocked:\n- "@ + joined(b, "\n- "@)
            } else {
                &&& end == nth_id(first_write(start, changes), w.len() + 1)
                &&& combined_written(
                    old,
                    new,
                    entry_dn,
                    w,
                    first_write(start, changes),
                    then_intent,
                    write,
                    load,
                    read,
                )
            }
        }
}

/// Carries out a save with groups. `group` reads the members of a group, `write` makes a change, and
/// `load` reads the saved entry again. `write` and `load` are called only once the groups were read
/// and nothing keeps their changes from being made, and `write` only with the planned changes. Gives
/// back the entry to read after that, if the step that waited for the save goes to one.
pub fn apply_combined_save<
    G: Fn(&Request) -> ReadAnswer,
    W: Fn(&Request) -> WriteAnswer,
    L: Fn(u64, &str) -> Option<EditForm>,
>(
    app: &mut App,
    ids: &mut WriteIds,
    entry_dn: &str,
    own_mods: Vec<ModOp>,
    changes: Vec<(String, ModOp)>,
    then_intent: Option<GuardIntent>,
    group: G,
    write: W,
    load: L,
) -> (read: Option<String>)
    requires
        forall|req: &Request|
            is_group_read(changes@, old(ids).next, *req) ==> #[trigger] call_requires(group, (req,)),
        forall|req: &Request|
            removals_cleared(group, old(ids).next, changes@) && is_write(
                writes_of(entry_dn@, mods_model(own_mods@), fanout_model(changes@)),
                first_write(old(ids).next, changes@),
                *req,
            ) ==> #[trigger] call_requires(write, (req,)),
        removals_cleared(group, old(ids).next, changes@) ==> call_requires(
            load,
            (
                nth_id(
                    first_write(old(ids).next, changes@),
                    writes_of(entry_dn@, mods_model(own_mods@), fanout_model(changes@)).len(),
                ),
                entry_dn,
            ),
        ),
    ensures
        combined_applied(
            *old(app),
            *final(app),
            old(ids).next,
            final(ids).next,
            entry_dn@,
            mods_model(own_mods@),
            changes@,
            then_intent,
            group,
            write,
            load,
            read,
        ),
{
    let ghost start = *app;
    let ghost first = first_write(ids.next, changes@);
    let ghost w = writes_of(entry_dn@, mods_model(own_mods@), fanout_model(changes@));
    let members: Vec<Option<Vec<String>>> = read_groups(&changes, ids, group);
    let ghost all = changes@;
    if !check_removals(app, &changes, &members) {
        assert(removals_blocked(all, members@));
        return None;
    }
    proof {
        assert(!removals_blocked(all, members@));
        assert(removals_cleared(group, old(ids).next, all));
    }
    let (dns, failed) = write_all(entry_dn, own_mods, changes, ids, write);
    proof {
        assert(texts(dns@).len() == dns@.len());
        assert(written_names(w).len() == w.len());
    }
    let failures: Vec<String> = write_failures(&dns, &failed);
    let id: u64 = ids.next_id();
    assert(nth_id(first, w.len() + 1) == id_after(nth_id(first, w.len())));
    let form: Option<EditForm> = load(id, entry_dn);
    let ghost shown = form;
    reload_form(app, entry_dn, form);
    let ghost mid = *app;
    assert(reloaded(start, mid, entry_dn@, shown));
    let read: Option<String> = finish_combined(app, &failures, then_intent);
    proof {
        let lines = failure_lines(written_names(w), failed@, w.len() as int);
        assert(texts(failures@) == lines);
        assert(all_written(write, first, w, failed@));
        assert(combined_written(start, *app, entry_dn@, w, first, then_intent, write, load, read));
    }
    read
}

/// A removal is held up where its group could not be read, and where it would take the last member, in
/// any letter case; no other change is.
pub proof fn the_last_member_stays(change: GroupMod, members: Option<Vec<String>>)
    ensures
        change.1.0 != ModKind::Delete ==> block_of(change, members) is None,
        change.1.0 == ModKind::Delete && members is None ==> block_of(change, members) == Some(
            change.0 + ": could not verify members"@,
        ),
        members matches Some(m) ==> change.1.0 == ModKind::Delete && change.1.2.len() > 0 ==> (if m@.len()
            == 1 && same_ci(m@[0]@, change.1.2[0]) {
            block_of(change, members) == Some(change.0 + ": would remove last member"@)
        } else {
            block_of(change, members) is None
        }),
{
    if let Some(m) = members {
        if m@.len() > 0 {
            assert(texts(m@)[0] == m@[0]@);
        }
    }
}

/// What holds up a save is told for each change that is held up, in order, and for no other.
pub proof fn held_up_changes_are_told(
    changes: Seq<GroupMod>,
    members: Seq<Option<Vec<String>>>,
    n: int,
    text: Seq<char>,
)
    requires
        0 <= n <= changes.len(),
    ensures
        blocks(changes, members, n).contains(text) <==> exists|i: int|
            0 <= i < n && block_of(#[trigger] changes[i], members[i]) == Some(text),
        blocks(changes, members, n).len() == 0 <==> forall|i: int|
            0 <= i < n ==> block_of(#[trigger] changes[i], members[i]) is None,
        n < changes.len() ==> blocks(changes, members, n).is_prefix_of(blocks(changes, members, n + 1)),
    decreases n,
{
    let all = blocks(changes, members, n);
    if n > 0 {
        let before = blocks(changes, members, n - 1);
        held_up_changes_are_told(changes, members, n - 1, text);
        if all.contains(text) {
            let k = choose|k: int| 0 <= k < all.len() && all[k] == text;
            if k < before.len() {
                assert(before[k] == text);
            } else {
                assert(block_of(changes[n - 1], members[n - 1]) == Some(text));
            }
        }
        if exists|i: int| 0 <= i < n && block_of(#[trigger] changes[i], members[i]) == Some(text) {
            let i = choose|i: int|
                0 <= i < n && block_of(#[trigger] changes[i], members[i]) == Some(text);
            if i < n - 1 {
                assert(before.contains(text));
                let k = choose|k: int| 0 <= k < before.len() && before[k] == text;
                assert(all[k] == text);
            } else {
                assert(all[before.len() as int] == text);
            }
        }
        if all.len() == 0 {
            assert(before.len() == 0);
        }
    }
}

/// A save with groups writes the entry first, where it has changes of its own, and then each group
/// once, with its one change, in order.
pub proof fn the_entry_is_written_before_its_groups(
    entry_dn: Seq<char>,
    own: Seq<Mod>,
    changes: Seq<GroupMod>,
    k: int,
)
    ensures
        writes_of(entry_dn, own, changes).len() == changes.len() + if own.len() > 0 {
            1int
        } else {
            0
        },
        own.len() > 0 ==> writes_of(entry_dn, own, changes)[0] == (entry_dn, own),
        0 <= k < changes.len() ==> writes_of(entry_dn, own, changes)[if own.len() > 0 {
            k + 1
        } else {
            k
        }] == (changes[k].0, seq![changes[k].1]),
{
}

/// Every write that failed is reported with its entry and its reason, in order, and no other is.
pub proof fn failed_writes_are_reported(
    dns: Seq<Seq<char>>,
    failed: Seq<Option<String>>,
    n: int,
    line: Seq<char>,
)
    requires
        0 <= n <= failed.len(),
        n <= dns.len(),
    ensures
        failure_lines(dns, failed, n).contains(line) <==> exists|i: int|
            0 <= i < n && (#[trigger] failed[i]) is Some && line == dns[i] + ": "@ + failed[i]->0@,
        failure_lines(dns, failed, n).len() == 0 <==> forall|i: int|
            0 <= i < n ==> (#[trigger] failed[i]) is None,
    decreases n,
{
    let all = failure_lines(dns, failed, n);
    if n > 0 {
        let before = failure_lines(dns, failed, n - 1);
        failed_writes_are_reported(dns, failed, n - 1, line);
        if all.contains(line) {
            let k = choose|k: int| 0 <= k < all.len() && all[k] == line;
            if k < before.len() {
                assert(before[k] == line);
            } else {
                assert(failed[n - 1] is Some);
            }
        }
        if exists|i: int|
            0 <= i < n && (#[trigger] failed[i]) is Some && line == dns[i] + ": "@ + failed[i]->0@ {
            let i = choose|i: int|
                0 <= i < n && (#[trigger] failed[i]) is Some && line == dns[i] + ": "@ + failed[i]->0@;
            if i < n - 1 {
                assert(before.contains(line));
                let k = choose|k: int| 0 <= k < before.len() && before[k] == line;
                assert(all[k] == line);
            } else {
                assert(all[before.len() as int] == line);
            }
        }
        if all.len() == 0 {
            assert(before.len() == 0);
        }
    }
}

/// A saved entry that was read again is shown from its first field; where it could not be read the form
/// stays. The highlighted row has its name either way.
pub proof fn saved_forms_are_shown_anew(old: App, new: App, dn: Seq<char>, form: Option<EditForm>)
    requires
        reloaded(old, new, dn, form),
    ensures
        new.last_seen_leaf is Some && new.last_seen_leaf->0@ == dn,
        form matches Some(f) ==> new.form == Some(f) && new.form_focus == 0 && new.form_scroll == 0,
        form is None ==> new.form == old.form && new.form_focus == old.form_focus,
        old.leaf_sel < old.rows@.len() ==> new.rows@[old.leaf_sel as int].1@ == dn,
        new.overlay == old.overlay && new.should_quit == old.should_quit,
{
}

/// After a save with groups, any failure is reported and the step that waited is not taken; without one
/// the step is taken.
pub proof fn failures_hold_the_user_back(
    old: App,
    new: App,
    failures: Seq<Seq<char>>,
    then_intent: Option<GuardIntent>,
    read: Option<String>,
)
    requires
        combined_finished(old, new, failures, then_intent, read),
    ensures
        failures.len() > 0 ==> read is None && new.should_quit == old.should_quit && new.focus
            == old.focus && new.form == old.form && (new.overlay matches Some(Overlay::Error { text })
            && text@ == "Saved with errors:\n- "@ + joined(failures, "\n- "@)),
        failures.len() == 0 && then_intent is None ==> read is None && new.status@ == "Saved."@
            && new.form == old.form && new.overlay == old.overlay,
        failures.len() == 0 && then_intent == Some(GuardIntent::Quit) ==> new.should_quit
            && new.status@ == "Saved."@,
        failures.len() == 0 ==> (then_intent matches Some(GuardIntent::Nav(target)) ==> read == target),
        failures.len() == 0 ==> (then_intent matches Some(GuardIntent::Focus(pane)) ==> new.focus
            == pane && read is None),
{
}

/// A save that would empty a group, or whose groups cannot be read, writes nothing: whatever the
/// directory then holds, the form keeps its edits and a message tells why.
pub proof fn held_up_saves_write_nothing<
    G: Fn(&Request) -> ReadAnswer,
    W: Fn(&Request) -> WriteAnswer,
    L: Fn(u64, &str) -> Option<EditForm>,
>(
    old: App,
    new: App,
    start: u64,
    end: u64,
    entry_dn: Seq<char>,
    own: Seq<Mod>,
    changes: Seq<(String, ModOp)>,
    then_intent: Option<GuardIntent>,
    group: G,
    write: W,
    load: L,
    read: Option<String>,
    i: int,
)
    requires
        combined_applied(
            old,
            new,
            start,
            end,
            entry_dn,
            own,
            changes,
            then_intent,
            group,
            write,
            load,
            read,
        ),
        0 <= i < changes.len(),
        changes[i].1 is Delete,
        forall|members: Seq<Option<Vec<String>>>| #[trigger]
            groups_read(group, start, changes, members) ==> members[i] is None || (
            members[i]->0@.len() == 1 && changes[i].1->Delete_values@.len() > 0 && same_ci(
                members[i]->0@[0]@,
                changes[i].1->Delete_values@[0]@,
            )),
    ensures
        read is None,
        new == (App { overlay: new.overlay, ..old }),
        new.overlay is Some && new.overlay->0 is Error,
{
    let members = choose|members: Seq<Option<Vec<String>>>|
        {
            let b = blocks(fanout_model(changes), members, changes.len() as int);
            let w = writes_of(entry_dn, own, fanout_model(changes));
            &&& #[trigger] groups_read(group, start, changes, members)
            &&& if removals_blocked(changes, members) {
                &&& read is None
                &&& end == first_write(start, changes)
                &&& new == (App { overlay: new.overlay, ..old })
                &&& new.overlay matches Some(Overlay::Error { text }) && text@
                    == "Cannot save — membership change blocked:\n- "@ + joined(b, "\n- "@)
            } else {
                &&& end == nth_id(first_write(start, changes), w.len() + 1)
                &&& combined_written(
                    old,
                    new,
                    entry_dn,
                    w,
                    first_write(start, changes),
                    then_intent,
                    write,
                    load,
                    read,
                )
            }
        };
    let model = fanout_model(changes);
    assert(model[i] == (changes[i].0@, changes[i].1.model()));
    let values = changes[i].1->Delete_values@;
    assert(texts(values).len() == values.len());
    if members[i] is Some {
        assert(texts(members[i]->0@)[0] == members[i]->0@[0]@);
        assert(texts(values)[0] == values[0]@);
    }
    assert(block_of(model[i], members[i]) is Some);
    one_block_stops_all(model, members, i);
}

/// Every group that loses a member is read before anything is written: what is known of its members is
/// what the directory answered for that group and attribute; of the other groups nothing is asked.
pub proof fn groups_are_read_first<G: Fn(&Request) -> ReadAnswer>(
    read: G,
    start: u64,
    changes: Seq<(String, ModOp)>,
    members: Seq<Option<Vec<String>>>,
    i: int,
)
    requires
        groups_read(read, start, changes, members),
        0 <= i < changes.len(),
    ensures
        members.len() == changes.len(),
        !(changes[i].1 is Delete) ==> members[i] is None,
        changes[i].1 matches ModOp::Delete { attr, values } ==> exists|req: Request, answer: ReadAnswer|
            {
                &&& #[trigger] call_ensures(read, (&req,), answer)
                &&& req matches Request::ReadAttr { id, dn, attr: a } && dn@ == changes[i].0@ && a@
                    == attr@
                &&& members[i] is Some ==> members_of(answer, attr@) == Some(texts(members[i]->0@))
                &&& members[i] is None ==> answer is Failed
            },
{
    assert(group_read(read, nth_id(start, removals(changes, i)), changes[i], members[i]));
}

/// The number of removals among the first changes grows by one with each removal, so that each request
/// has an id of its own.
pub proof fn each_removal_has_its_id(changes: Seq<(String, ModOp)>, n: int)
    requires
        0 <= n < changes.len(),
    ensures
        removals(changes, 0) == 0,
        changes[n].1 is Delete ==> removals(changes, n + 1) == removals(changes, n) + 1,
        !(changes[n].1 is Delete) ==> removals(changes, n + 1) == removals(changes, n),
{
}

/// A write came to nothing wrong exactly when the directory made it; otherwise the reason is what it
/// said.
pub proof fn writes_fail_with_their_reason<W: Fn(&Request) -> WriteAnswer>(
    write: W,
    id: u64,
    change: (Seq<char>, Seq<Mod>),
    failed: Option<String>,
)
    requires
        written(write, id, change, failed),
    ensures
        exists|req: Request, answer: WriteAnswer|
            {
                &&& #[trigger] call_ensures(write, (&req,), answer)
                &&& req matches Request::Modify { id: i, dn, changes } && i == id && dn@ == change.0
                    && mods_model(changes@) == change.1
                &&& failed is None <==> answer is Written
                &&& answer matches WriteAnswer::Refused(msg) ==> failed == Some(msg)
                &&& answer matches WriteAnswer::Failed(msg) ==> failed == Some(msg)
                &&& answer is Unexpected ==> failed is Some && failed->0@ == "unexpected response"@
            },
{
}

/// A save that nothing holds up makes every write, the entry's and each group's, and then reads the
/// entry again; the form shows what was read. Without failures the save is reported as made; any
/// failure is reported, and the user stays.
pub proof fn cleared_saves_write_everything<
    G: Fn(&Request) -> ReadAnswer,
    W: Fn(&Request) -> WriteAnswer,
    L: Fn(u64, &str) -> Option<EditForm>,
>(
    old: App,
    new: App,
    start: u64,
    end: u64,
    entry_dn: Seq<char>,
    own: Seq<Mod>,
    changes: Seq<(String, ModOp)>,
    group: G,
    write: W,
    load: L,
    read: Option<String>,
)
    requires
        combined_applied(old, new, start, end, entry_dn, own, changes, None, group, write, load, read),
        forall|members: Seq<Option<Vec<String>>>, i: int| #[trigger]
            groups_read(group, start, changes, members) && 0 <= i < changes.len() && (
            #[trigger] changes[i]).1 is Delete ==> members[i] is Some && !(members[i]->0@.len() == 1
                && changes[i].1->Delete_values@.len() > 0 && same_ci(
                members[i]->0@[0]@,
                changes[i].1->Delete_values@[0]@,
            )) && changes[i].1->Delete_values@.len() > 0,
    ensures
        read is None,
        new.should_quit == old.should_quit,
        exists|failed: Seq<Option<String>>, id: u64, dn: &str, form: Option<EditForm>|
            {
                &&& #[trigger] all_written(
                    write,
                    first_write(start, changes),
                    writes_of(entry_dn, own, fanout_model(changes)),
                    failed,
                )
                &&& #[trigger] call_ensures(load, (id, dn), form)
                &&& dn@ == entry_dn
                &&& form matches Some(f) ==> new.form == Some(f)
                &&& form is None ==> new.form == old.form
                &&& (forall|i: int| 0 <= i < failed.len() ==> (#[trigger] failed[i]) is None)
                    ==> new.status@ == "Saved."@ && new.overlay == old.overlay
                &&& (exists|i: int| 0 <= i < failed.len() && (#[trigger] failed[i]) is Some)
                    ==> new.overlay is Some && new.overlay->0 is Error
            },
{
    let model = fanout_model(changes);
    let w = writes_of(entry_dn, own, model);
    let first = first_write(start, changes);
    let members = choose|members: Seq<Option<Vec<String>>>|
        {
            let b = blocks(model, members, changes.len() as int);
            &&& #[trigger] groups_read(group, start, changes, members)
            &&& if removals_blocked(changes, members) {
                &&& read is None
                &&& end == first_write(start, changes)
                &&& new == (App { overlay: new.overlay, ..old })
                &&& new.overlay matches Some(Overlay::Error { text }) && text@
                    == "Cannot save — membership change blocked:\n- "@ + joined(b, "\n- "@)
            } else {
                &&& end == nth_id(first_write(start, changes), w.len() + 1)
                &&& combined_written(old, new, entry_dn, w, first, None, write, load, read)
            }
        };
    assert forall|i: int| 0 <= i < changes.len() implies block_of(
        #[trigger] model[i],
        members[i],
    ) is None by {
        assert(model[i] == (changes[i].0@, changes[i].1.model()));
        if changes[i].1 is Delete {
            let values = changes[i].1->Delete_values@;
            assert(members[i] is Some);
            assert(texts(values)[0] == values[0]@);
            assert(texts(values).len() == values.len());
            the_last_member_stays(model[i], members[i]);
        }
    }
    held_up_changes_are_told(model, members, changes.len() as int, Seq::empty());
    assert(!removals_blocked(changes, members));
    let (failed, dn, form, mid) = choose|
        failed: Seq<Option<String>>,
        dn: &str,
        form: Option<EditForm>,
        mid: App,
    |
        {
            &&& #[trigger] all_written(write, first, w, failed)
            &&& dn@ == entry_dn
            &&& #[trigger] call_ensures(load, (nth_id(first, w.len()), dn), form)
            &&& #[trigger] reloaded(old, mid, entry_dn, form)
            &&& combined_finished(
                mid,
                new,
                failure_lines(written_names(w), failed, w.len() as int),
                None,
                read,
            )
        };
    failed_writes_are_reported(written_names(w), failed, w.len() as int, Seq::empty());
    saved_forms_are_shown_anew(old, mid, entry_dn, form);
    let lines = failure_lines(written_names(w), failed, w.len() as int);
    failures_hold_the_user_back(mid, new, lines, None, read);
    assert(all_written(write, first, w, failed));
    assert(call_ensures(load, (nth_id(first, w.len()), dn), form));
    if exists|i: int| 0 <= i < failed.len() && (#[trigger] failed[i]) is Some {
        let i = choose|i: int| 0 <= i < failed.len() && (#[trigger] failed[i]) is Some;
        assert(!(failed[i] is None));
        assert(lines.len() > 0);
    } else {
        assert forall|i: int| 0 <= i < w.len() implies (#[trigger] failed[i]) is None by {}
        assert(lines.len() == 0);
    }
}

} // verus!
