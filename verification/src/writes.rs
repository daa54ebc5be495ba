//! The writes under way: what is submitted to the directory, and what each answer leads to.
use std::collections::HashMap;
use vstd::prelude::*;

use crate::attrs::AttrMap;
use crate::changes::{id_after, ModOp, ModRdn, SavePlan, WriteIds};
use crate::dn::{compose_renamed_dn, renamed};

verus! {

/// A request to the directory, with its correlation id.
pub enum Request {
    /// Change attributes of an entry.
    Modify { id: u64, dn: String, changes: Vec<ModOp> },
    /// Rename an entry.
    ModRdn { id: u64, dn: String, modrdn: ModRdn },
    /// Add an entry.
    Add { id: u64, dn: String, attrs: AttrMap },
    /// Delete an entry.
    Delete { id: u64, dn: String },
    /// Read one attribute of an entry.
    ReadAttr { id: u64, dn: String, attr: String },
}

/// What the success of a write leads to.
pub enum PostWrite {
    /// Read the saved entry again, or move on to `nav`; or quit.
    Save { reread_dn: String, nav: Option<String>, then_quit: bool },
    /// A new entry stands under `parent`.
    Created { parent: String, dn: String, attrs: AttrMap },
    /// An entry is gone.
    Deleted { dn: String },
}

/// Changes that wait for a rename: the name after it, the changes, and where the form goes then.
pub struct FollowUp {
    pub new_dn: String,
    pub mods: Vec<ModOp>,
    pub nav: Option<String>,
}

/// The writes under way, by id.
pub struct Writes {
    pub post: HashMap<u64, PostWrite>,
    pub followups: HashMap<u64, FollowUp>,
}

/// Whether a write waits for its success as a save does.
pub open spec fn waits_as_save(
    p: PostWrite,
    reread: Seq<char>,
    nav: Option<String>,
    then_quit: bool,
) -> bool {
    match p {
        PostWrite::Save { reread_dn, nav: n, then_quit: q } => reread_dn@ == reread && n == nav
            && q == then_quit,
        _ => false,
    }
}

/// Whether a write waits with changes for after a rename.
pub open spec fn waits_as_rename(
    f: FollowUp,
    new_dn: Seq<char>,
    mods: Vec<ModOp>,
    nav: Option<String>,
) -> bool {
    f.new_dn@ == new_dn && f.mods == mods && f.nav == nav
}

/// Whether a plan was submitted: with which request, and as what it waits under the next id. A
/// rename with changes keeps them back: they address the name after the rename.
pub open spec fn submitted(
    plan: SavePlan,
    old_dn: Seq<char>,
    nav: Option<String>,
    then_quit: bool,
    id: u64,
    before: Writes,
    after: Writes,
    r: Option<Request>,
) -> bool {
    match plan {
        SavePlan::Nothing => r is None && after == before,
        SavePlan::Modify(mods) => {
            &&& r matches Some(Request::Modify { id: i, dn, changes }) && i == id && dn@ == old_dn
                && changes == mods
            &&& after.followups == before.followups
            &&& after.post@ == before.post@.insert(id, after.post@[id])
            &&& waits_as_save(after.post@[id], old_dn, nav, then_quit)
        },
        SavePlan::RenameOnly(modrdn) => {
            &&& r matches Some(Request::ModRdn { id: i, dn, modrdn: m }) && i == id && dn@ == old_dn
                && m == modrdn
            &&& after.followups == before.followups
            &&& after.post@ == before.post@.insert(id, after.post@[id])
            &&& waits_as_save(after.post@[id], renamed(old_dn, modrdn.new_rdn@), nav, then_quit)
        },
        SavePlan::Rename { modrdn, then_mods } => {
            &&& r matches Some(Request::ModRdn { id: i, dn, modrdn: m }) && i == id && dn@ == old_dn
                && m == modrdn
            &&& after.post == before.post
            &&& after.followups@ == before.followups@.insert(id, after.followups@[id])
            &&& waits_as_rename(
                after.followups@[id],
                renamed(old_dn, modrdn.new_rdn@),
                then_mods,
                nav,
            )
        },
    }
}

impl Writes {
    /// No writes under way.
    pub fn new() -> (r: Writes)
        ensures
            r.post@ == Map::<u64, PostWrite>::empty(),
            r.followups@ == Map::<u64, FollowUp>::empty(),
    {
        Writes { post: HashMap::new(), followups: HashMap::new() }
    }
}

/// Submits a save plan for the entry `old_dn`: gives back the request, and notes what its success
/// leads to.
pub fn submit_prepared(
    plan: SavePlan,
    old_dn: &str,
    nav: Option<String>,
    then_quit: bool,
    ids: &mut WriteIds,
    writes: &mut Writes,
) -> (r: Option<Request>)
    ensures
        submitted(
            plan,
            old_dn@,
            nav,
            then_quit,
            old(ids).next,
            *old(writes),
            *final(writes),
            r,
        ),
        final(ids).next == if plan is Nothing {
            old(ids).next
        } else {
            id_after(old(ids).next)
        },
{
    broadcast use vstd::std_specs::hash::group_hash_axioms;

    match plan {
        SavePlan::Nothing => None,
        SavePlan::Modify(mods) => {
            let id: u64 = ids.next_id();
            writes.post.insert(
                id,
                PostWrite::Save { reread_dn: old_dn.to_owned(), nav, then_quit },
            );
            assert(writes.post@ =~= old(writes).post@.insert(id, writes.post@[id]));
            Some(Request::Modify { id, dn: old_dn.to_owned(), changes: mods })
        },
        SavePlan::RenameOnly(modrdn) => {
            let id: u64 = ids.next_id();
            let new_dn: String = compose_renamed_dn(old_dn, &modrdn.new_rdn);
            writes.post.insert(id, PostWrite::Save { reread_dn: new_dn, nav, then_quit });
            assert(writes.post@ =~= old(writes).post@.insert(id, writes.post@[id]));
            Some(Request::ModRdn { id, dn: old_dn.to_owned(), modrdn })
        },
        SavePlan::Rename { modrdn, then_mods } => {
            let id: u64 = ids.next_id();
            let new_dn: String = compose_renamed_dn(old_dn, &modrdn.new_rdn);
            writes.followups.insert(id, FollowUp { new_dn, mods: then_mods, nav });
            assert(writes.followups@ =~= old(writes).followups@.insert(
                id,
                writes.followups@[id],
            ));
            Some(Request::ModRdn { id, dn: old_dn.to_owned(), modrdn })
        },
    }
}

/// What is submitted for a plan: one request, under the id given to it, for the entry as it is named
/// now. Attribute changes go out as they were planned; a rename goes out alone, and changes that come
/// with it wait for the name after it. A plan without changes submits nothing.
pub proof fn plans_are_submitted_as_made(
    plan: SavePlan,
    old_dn: Seq<char>,
    nav: Option<String>,
    then_quit: bool,
    id: u64,
    before: Writes,
    after: Writes,
    r: Option<Request>,
)
    requires
        submitted(plan, old_dn, nav, then_quit, id, before, after, r),
    ensures
        plan is Nothing <==> r is None,
        plan is Nothing ==> after == before,
        plan matches SavePlan::Modify(mods) ==> (r matches Some(Request::Modify { id: i, dn, changes })
            && i == id && dn@ == old_dn && changes == mods),
        plan matches SavePlan::RenameOnly(m) ==> (r matches Some(
            Request::ModRdn { id: i, dn, modrdn },
        ) && i == id && dn@ == old_dn && modrdn == m),
        plan matches SavePlan::Rename { modrdn: m, then_mods } ==> (r matches Some(
            Request::ModRdn { id: i, dn, modrdn },
        ) && i == id && dn@ == old_dn && modrdn == m) && after.followups@.contains_key(id)
            && after.followups@[id].mods == then_mods && after.followups@[id].nav == nav
            && after.followups@[id].new_dn@ == renamed(old_dn, m.new_rdn@) && after.post@
            == before.post@,
{
}

/// What waits for the success of a write without changes behind it: the entry under the name that it
/// then has, where the form goes from there, and whether the program ends. Nothing else that waits is
/// touched.
pub proof fn writes_wait_under_their_id(
    plan: SavePlan,
    old_dn: Seq<char>,
    nav: Option<String>,
    then_quit: bool,
    id: u64,
    before: Writes,
    after: Writes,
    r: Option<Request>,
    other: u64,
)
    requires
        submitted(plan, old_dn, nav, then_quit, id, before, after, r),
        other != id,
    ensures
        plan is Modify || plan is RenameOnly ==> after.post@.contains_key(id) && (
        after.post@[id] matches PostWrite::Save { reread_dn, nav: n, then_quit: q } && n == nav && q
            == then_quit && reread_dn@ == (match plan {
            SavePlan::RenameOnly(m) => renamed(old_dn, m.new_rdn@),
            _ => old_dn,
        })) && after.followups@ == before.followups@,
        after.post@.contains_key(other) == before.post@.contains_key(other),
        after.followups@.contains_key(other) == before.followups@.contains_key(other),
        before.post@.contains_key(other) ==> after.post@[other] == before.post@[other],
        before.followups@.contains_key(other) ==> after.followups@[other]
            == before.followups@[other],
{
}

} // verus!
