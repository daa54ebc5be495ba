//! What a save writes: attribute changes, renames, the plan of a save, and the change of a
//! membership written to its groups.
use vstd::prelude::*;
use vstd::string::*;

use crate::attrs::AttrMap;
use crate::text::{
    concat2, contains_ignore_case, copy_texts, eq_ignore_case, has_ci, same_ci, texts,
};

verus! {

/// What a change does to an attribute.
#[derive(Debug, Clone, Copy, PartialEq, Eq, Structural)]
pub enum ModKind {
    Add,
    Delete,
    Replace,
}

/// One change of one attribute.
#[derive(Debug, PartialEq, Eq)]
pub enum ModOp {
    Add { attr: String, values: Vec<String> },
    Delete { attr: String, values: Vec<String> },
    Replace { attr: String, values: Vec<String> },
}

/// A change as a mathematical value: what it does, to which attribute, with which values.
pub type Mod = (ModKind, Seq<char>, Seq<Seq<char>>);

impl ModOp {
    pub open spec fn model(self) -> Mod {
        match self {
            ModOp::Add { attr, values } => (ModKind::Add, attr@, texts(values@)),
            ModOp::Delete { attr, values } => (ModKind::Delete, attr@, texts(values@)),
            ModOp::Replace { attr, values } => (ModKind::Replace, attr@, texts(values@)),
        }
    }

    /// A copy of the change.
    pub fn copy(&self) -> (r: ModOp)
        ensures
            r.model() == self.model(),
    {
        match self {
            ModOp::Add { attr, values } => ModOp::Add {
                attr: attr.clone(),
                values: copy_texts(values),
            },
            ModOp::Delete { attr, values } => ModOp::Delete {
                attr: attr.clone(),
                values: copy_texts(values),
            },
            ModOp::Replace { attr, values } => ModOp::Replace {
                attr: attr.clone(),
                values: copy_texts(values),
            },
        }
    }
}

/// The changes of a list, as mathematical values.
pub open spec fn mods_model(v: Seq<ModOp>) -> Seq<Mod> {
    v.map_values(|m: ModOp| m.model())
}

/// A list of one change.
pub fn single_mod(op: ModOp) -> (r: Vec<ModOp>)
    ensures
        mods_model(r@) == seq![op.model()],
{
    let ghost m = op.model();
    let mut r: Vec<ModOp> = Vec::new();
    r.push(op);
    assert(mods_model(r@) =~= seq![m]);
    r
}

/// A rename: the new first component, whether the old one's value goes, and the new parent when
/// the entry moves.
#[derive(Debug, PartialEq, Eq)]
pub struct ModRdn {
    pub new_rdn: String,
    pub delete_old: bool,
    pub new_superior: Option<String>,
}

/// A rename as a mathematical value.
pub type Rename = (Seq<char>, bool, Option<Seq<char>>);

/// An optional text as a mathematical value.
pub open spec fn opt_text(o: Option<String>) -> Option<Seq<char>> {
    match o {
        Some(s) => Some(s@),
        None => None,
    }
}

impl ModRdn {
    pub open spec fn model(self) -> Rename {
        (self.new_rdn@, self.delete_old, opt_text(self.new_superior))
    }

    /// A copy of the rename.
    pub fn copy(&self) -> (r: ModRdn)
        ensures
            r.model() == self.model(),
    {
        ModRdn {
            new_rdn: self.new_rdn.clone(),
            delete_old: self.delete_old,
            new_superior: match &self.new_superior {
                Some(s) => Some(s.clone()),
                None => None,
            },
        }
    }
}

/// The changes that turn one entry into another: a rename, attribute changes, or both.
#[derive(Debug)]
pub struct ChangeSet {
    pub dn: String,
    pub modrdn: Option<ModRdn>,
    pub mods: Vec<ModOp>,
}

/// A change set as a mathematical value.
pub type Changes = (Seq<char>, Option<Rename>, Seq<Mod>);

/// An optional rename as a mathematical value.
pub open spec fn opt_rename(o: Option<ModRdn>) -> Option<Rename> {
    match o {
        Some(m) => Some(m.model()),
        None => None,
    }
}

impl ChangeSet {
    pub open spec fn model(self) -> Changes {
        (self.dn@, opt_rename(self.modrdn), mods_model(self.mods@))
    }

    /// Whether the set changes nothing.
    pub fn is_empty(&self) -> (b: bool)
        ensures
            b == (self.modrdn is None && self.mods@.len() == 0),
    {
        self.modrdn.is_none() && self.mods.len() == 0
    }
}

/// The change sets of a list, as mathematical values.
pub open spec fn sets_model(v: Seq<ChangeSet>) -> Seq<Changes> {
    v.map_values(|c: ChangeSet| c.model())
}

/// What a save submits to the directory.
#[derive(Debug, PartialEq, Eq)]
pub enum SavePlan {
    /// Nothing to write.
    Nothing,
    /// One change of attributes.
    Modify(Vec<ModOp>),
    /// One rename.
    RenameOnly(ModRdn),
    /// A rename, and attribute changes that wait for it: they address the new name.
    Rename { modrdn: ModRdn, then_mods: Vec<ModOp> },
}

/// An entry under edit: its name and its attributes.
pub struct EditEntry {
    pub dn: String,
    pub attrs: AttrMap,
}

/// A problem that keeps an entry from being saved.
#[derive(Debug, PartialEq, Eq)]
pub enum ValidationError {
    /// A required attribute has no value.
    MissingMust(String),
    /// A single-valued attribute has several values.
    MultiValueOnSingle(String),
    /// A value does not fit the attribute's syntax.
    SyntaxInvalid { attr: String, reason: String },
}

impl ValidationError {
    /// The problem in words.
    pub open spec fn words(self) -> Seq<char> {
        match self {
            ValidationError::MissingMust(a) => "missing required attribute: "@ + a@,
            ValidationError::MultiValueOnSingle(a) => "attribute is single-valued: "@ + a@,
            ValidationError::SyntaxInvalid { attr, reason } => attr@ + ": "@ + reason@,
        }
    }
}

/// Problems as one message: a headline, and one bullet each.
pub open spec fn error_message(errors: Seq<ValidationError>) -> Seq<char>
    decreases errors.len(),
{
    if errors.len() == 0 {
        "Cannot save — please fix:"@
    } else {
        error_message(errors.drop_last()) + "\n- "@ + errors.last().words()
    }
}

/// Formats problems as one message: a headline, and one bullet each.
pub fn format_validation_errors(errors: &Vec<ValidationError>) -> (r: String)
    ensures
        r@ == error_message(errors@),
{
    let mut out: String = "Cannot save — please fix:".to_owned();
    let mut i: usize = 0;
    assert(errors@.take(0) =~= Seq::empty());
    while i < errors.len()
        invariant
            i <= errors@.len(),
            out@ == error_message(errors@.take(i as int)),
        decreases errors@.len() - i,
    {
        let line: String = match &errors[i] {
            ValidationError::MissingMust(a) => concat2("missing required attribute: ", a),
            ValidationError::MultiValueOnSingle(a) => concat2("attribute is single-valued: ", a),
            ValidationError::SyntaxInvalid { attr, reason } => {
                let mut l: String = concat2(attr, ": ");
                l.append(reason);
                l
            },
        };
        out.append("\n- ");
        out.append(&line);
        i += 1;
        proof {
            let t = errors@.take(i as int);
            assert(t.drop_last() =~= errors@.take(i - 1));
            assert(t.last() == errors@[i - 1]);
        }
    }
    assert(errors@.take(errors@.len() as int) =~= errors@);
    out
}

/// What stands in a preview in place of a secret value.
pub open spec fn masked_values() -> Seq<Seq<char>> {
    seq!["********"@]
}

/// A change as the preview shows it: what it adds or puts in place for a masked attribute is
/// hidden.
pub open spec fn masked(m: Mod, mask: Seq<Seq<char>>) -> Mod {
    if m.0 != ModKind::Delete && has_ci(mask, m.1) {
        (m.0, m.1, masked_values())
    } else {
        m
    }
}

/// Changes as the preview shows them.
pub open spec fn masked_mods(mods: Seq<Mod>, mask: Seq<Seq<char>>) -> Seq<Mod> {
    mods.map_values(|m: Mod| masked(m, mask))
}

fn stars() -> (r: Vec<String>)
    ensures
        texts(r@) == masked_values(),
{
    let mut r: Vec<String> = Vec::new();
    r.push("********".to_owned());
    assert(texts(r@) =~= masked_values());
    r
}

/// A copy of the change set for the preview: the values that it adds or puts in place for a
/// masked attribute read `********`.
pub fn mask_changeset_secrets(cs: &ChangeSet, mask_attrs: &Vec<String>) -> (r: ChangeSet)
    ensures
        r.model() == (cs.dn@, opt_rename(cs.modrdn), masked_mods(
            mods_model(cs.mods@),
            texts(mask_attrs@),
        )),
{
    let mut mods: Vec<ModOp> = Vec::new();
    let mut i: usize = 0;
    let ghost goal = masked_mods(mods_model(cs.mods@), texts(mask_attrs@));
    while i < cs.mods.len()
        invariant
            i <= cs.mods@.len(),
            goal == masked_mods(mods_model(cs.mods@), texts(mask_attrs@)),
            mods_model(mods@) == goal.take(i as int),
        decreases cs.mods@.len() - i,
    {
        let m: ModOp = match &cs.mods[i] {
            ModOp::Add { attr, values } => ModOp::Add {
                attr: attr.clone(),
                values: if contains_ignore_case(mask_attrs, attr) {
                    stars()
                } else {
                    copy_texts(values)
                },
            },
            ModOp::Replace { attr, values } => ModOp::Replace {
                attr: attr.clone(),
                values: if contains_ignore_case(mask_attrs, attr) {
                    stars()
                } else {
                    copy_texts(values)
                },
            },
            ModOp::Delete { attr, values } => ModOp::Delete {
                attr: attr.clone(),
                values: copy_texts(values),
            },
        };
        assert(m.model() == goal[i as int]);
        let ghost m0 = mods@;
        mods.push(m);
        i += 1;
        proof {
            assert(mods_model(mods@) =~= mods_model(m0).push(goal[i - 1]));
            assert(mods_model(mods@) =~= goal.take(i as int));
        }
    }
    assert(goal.take(goal.len() as int) =~= goal);
    ChangeSet {
        dn: cs.dn.clone(),
        modrdn: match &cs.modrdn {
            Some(m) => Some(m.copy()),
            None => None,
        },
        mods,
    }
}

/// No value that a preview shows for a masked attribute comes from the change itself.
pub proof fn masked_previews_hide_secrets(mods: Seq<Mod>, mask: Seq<Seq<char>>, i: int)
    requires
        0 <= i < mods.len(),
        has_ci(mask, mods[i].1),
        mods[i].0 != ModKind::Delete,
    ensures
        masked_mods(mods, mask)[i].2 == masked_values(),
{
}

/// Masking hides values only: the kind and the attribute of every change stay, and an attribute
/// that is not masked keeps its values.
pub proof fn masking_keeps_the_rest(mods: Seq<Mod>, mask: Seq<Seq<char>>, i: int)
    requires
        0 <= i < mods.len(),
    ensures
        masked_mods(mods, mask).len() == mods.len(),
        masked_mods(mods, mask)[i].0 == mods[i].0,
        masked_mods(mods, mask)[i].1 == mods[i].1,
        !has_ci(mask, mods[i].1) ==> masked_mods(mods, mask)[i] == mods[i],
{
}

/// The texts of `list` that `known` does not hold, up to ASCII case, in order.
pub open spec fn fresh(list: Seq<Seq<char>>, known: Seq<Seq<char>>) -> Seq<Seq<char>>
    decreases list.len(),
{
    if list.len() == 0 {
        list
    } else if has_ci(known, list.last()) {
        fresh(list.drop_last(), known)
    } else {
        fresh(list.drop_last(), known).push(list.last())
    }
}

/// A change written to a group: the group's name and the change.
pub type GroupMod = (Seq<char>, Mod);

/// Each group of the list with the same change.
pub open spec fn each_group(groups: Seq<Seq<char>>, m: Mod) -> Seq<GroupMod> {
    groups.map_values(|g: Seq<char>| (g, m))
}

/// The group changes of a list, as mathematical values.
pub open spec fn fanout_model(v: Seq<(String, ModOp)>) -> Seq<GroupMod> {
    v.map_values(|p: (String, ModOp)| (p.0@, p.1.model()))
}

/// A copy of changes of groups.
pub fn copy_group_mods(v: &Vec<(String, ModOp)>) -> (r: Vec<(String, ModOp)>)
    ensures
        fanout_model(r@) == fanout_model(v@),
{
    let mut r: Vec<(String, ModOp)> = Vec::new();
    let mut i: usize = 0;
    let ghost goal = fanout_model(v@);
    assert(fanout_model(r@) =~= goal.take(0));
    while i < v.len()
        invariant
            i <= v@.len(),
            goal == fanout_model(v@),
            fanout_model(r@) == goal.take(i as int),
        decreases v@.len() - i,
    {
        let ghost r0 = r@;
        r.push((v[i].0.clone(), v[i].1.copy()));
        i += 1;
        proof {
            assert(fanout_model(r@) =~= fanout_model(r0).push(goal[i - 1]));
            assert(fanout_model(r@) =~= goal.take(i as int));
        }
    }
    assert(goal.take(goal.len() as int) =~= goal);
    r
}

/// The changes that a membership change writes to the groups: the entry joins the newly selected
/// groups, and leaves those no longer selected.
pub open spec fn fanout(
    entry_dn: Seq<char>,
    baseline: Seq<Seq<char>>,
    selected: Seq<Seq<char>>,
    holder_attr: Seq<char>,
) -> Seq<GroupMod> {
    each_group(fresh(selected, baseline), (ModKind::Add, holder_attr, seq![entry_dn])) + each_group(
        fresh(baseline, selected),
        (ModKind::Delete, holder_attr, seq![entry_dn]),
    )
}

fn one_value(s: &str) -> (r: Vec<String>)
    ensures
        texts(r@) == seq![s@],
{
    let mut r: Vec<String> = Vec::new();
    r.push(s.to_owned());
    assert(texts(r@) =~= seq![s@]);
    r
}

/// The changes that a membership change writes to the groups: an addition for each newly selected
/// group, then a deletion for each group no longer selected. Names compare up to ASCII case.
pub fn membership_fanout(
    entry_dn: &str,
    baseline: &Vec<String>,
    selected: &Vec<String>,
    holder_attr: &str,
) -> (r: Vec<(String, ModOp)>)
    ensures
        fanout_model(r@) == fanout(entry_dn@, texts(baseline@), texts(selected@), holder_attr@),
{
    let mut out: Vec<(String, ModOp)> = Vec::new();
    let ghost add = (ModKind::Add, holder_attr@, seq![entry_dn@]);
    let ghost del = (ModKind::Delete, holder_attr@, seq![entry_dn@]);
    let ghost b = texts(baseline@);
    let ghost s = texts(selected@);
    let mut i: usize = 0;
    assert(fanout_model(out@) =~= each_group(fresh(s.take(0), b), add));
    while i < selected.len()
        invariant
            i <= selected@.len(),
            b == texts(baseline@),
            s == texts(selected@),
            add == (ModKind::Add, holder_attr@, seq![entry_dn@]),
            fanout_model(out@) == each_group(fresh(s.take(i as int), b), add),
        decreases selected@.len() - i,
    {
        proof {
            assert(s.take(i + 1).drop_last() =~= s.take(i as int));
            assert(s.take(i + 1).last() == selected@[i as int]@);
        }
        if !contains_ignore_case(baseline, &selected[i]) {
            let op: ModOp = ModOp::Add { attr: holder_attr.to_owned(), values: one_value(entry_dn) };
            let ghost o0 = out@;
            out.push((selected[i].clone(), op));
            proof {
                assert(fanout_model(out@) =~= fanout_model(o0).push((s[i as int], add)));
                assert(fanout_model(out@) =~= each_group(fresh(s.take(i + 1), b), add));
            }
        }
        i += 1;
    }
    assert(s.take(s.len() as int) =~= s);
    let ghost adds = fanout_model(out@);
    let mut j: usize = 0;
    assert(fanout_model(out@) =~= adds + each_group(fresh(b.take(0), s), del));
    while j < baseline.len()
        invariant
            j <= baseline@.len(),
            b == texts(baseline@),
            s == texts(selected@),
            del == (ModKind::Delete, holder_attr@, seq![entry_dn@]),
            fanout_model(out@) == adds + each_group(fresh(b.take(j as int), s), del),
        decreases baseline@.len() - j,
    {
        proof {
            assert(b.take(j + 1).drop_last() =~= b.take(j as int));
            assert(b.take(j + 1).last() == baseline@[j as int]@);
        }
        if !contains_ignore_case(selected, &baseline[j]) {
            let op: ModOp = ModOp::Delete {
                attr: holder_attr.to_owned(),
                values: one_value(entry_dn),
            };
            let ghost o0 = out@;
            out.push((baseline[j].clone(), op));
            proof {
                assert(fanout_model(out@) =~= fanout_model(o0).push((b[j as int], del)));
                assert(fanout_model(out@) =~= adds + each_group(fresh(b.take(j + 1), s), del));
            }
        }
        j += 1;
    }
    assert(b.take(b.len() as int) =~= b);
    out
}

proof fn fresh_member(list: Seq<Seq<char>>, known: Seq<Seq<char>>, g: Seq<char>)
    ensures
        fresh(list, known).contains(g) <==> list.contains(g) && !has_ci(known, g),
    decreases list.len(),
{
    if list.len() > 0 {
        let head = list.drop_last();
        fresh_member(head, known, g);
        if list.contains(g) {
            let i = choose|i: int| 0 <= i < list.len() && list[i] == g;
            if i < head.len() {
                assert(head[i] == g);
            }
        }
        if head.contains(g) {
            let i = choose|i: int| 0 <= i < head.len() && head[i] == g;
            assert(list[i] == g);
        }
        assert(list[list.len() - 1] == list.last());
        if !has_ci(known, list.last()) {
            let f = fresh(head, known);
            if f.contains(g) {
                let i = choose|i: int| 0 <= i < f.len() && f[i] == g;
                assert(fresh(list, known)[i] == g);
            }
            assert(fresh(list, known)[f.len() as int] == list.last());
        }
    }
}

/// A group is joined exactly when it is selected and was not a group before, and left exactly when
/// it was one and is no longer selected.
pub proof fn fanout_is_the_difference(
    entry_dn: Seq<char>,
    baseline: Seq<Seq<char>>,
    selected: Seq<Seq<char>>,
    holder_attr: Seq<char>,
    group: Seq<char>,
)
    ensures
        fanout(entry_dn, baseline, selected, holder_attr).contains(
            (group, (ModKind::Add, holder_attr, seq![entry_dn])),
        ) <==> selected.contains(group) && !has_ci(baseline, group),
        fanout(entry_dn, baseline, selected, holder_attr).contains(
            (group, (ModKind::Delete, holder_attr, seq![entry_dn])),
        ) <==> baseline.contains(group) && !has_ci(selected, group),
{
    let add = (ModKind::Add, holder_attr, seq![entry_dn]);
    let del = (ModKind::Delete, holder_attr, seq![entry_dn]);
    let a = fresh(selected, baseline);
    let d = fresh(baseline, selected);
    let f = fanout(entry_dn, baseline, selected, holder_attr);
    fresh_member(selected, baseline, group);
    fresh_member(baseline, selected, group);
    assert forall|i: int| 0 <= i < f.len() implies f[i] == if i < a.len() {
        (a[i], add)
    } else {
        (d[i - a.len()], del)
    } by {}
    if f.contains((group, add)) {
        let i = choose|i: int| 0 <= i < f.len() && f[i] == (group, add);
        assert(a[i] == group);
    }
    if a.contains(group) {
        let i = choose|i: int| 0 <= i < a.len() && a[i] == group;
        assert(f[i] == (group, add));
    }
    if f.contains((group, del)) {
        let i = choose|i: int| 0 <= i < f.len() && f[i] == (group, del);
        assert(d[i - a.len()] == group);
    }
    if d.contains(group) {
        let i = choose|i: int| 0 <= i < d.len() && d[i] == group;
        assert(f[i + a.len()] == (group, del));
    }
}

/// A selection that names the same groups, in any order and any letter case, writes nothing.
pub proof fn same_groups_write_nothing(
    entry_dn: Seq<char>,
    baseline: Seq<Seq<char>>,
    selected: Seq<Seq<char>>,
    holder_attr: Seq<char>,
)
    requires
        forall|i: int| 0 <= i < selected.len() ==> has_ci(baseline, #[trigger] selected[i]),
        forall|i: int| 0 <= i < baseline.len() ==> has_ci(selected, #[trigger] baseline[i]),
    ensures
        fanout(entry_dn, baseline, selected, holder_attr).len() == 0,
{
    known_leave_nothing(selected, baseline);
    known_leave_nothing(baseline, selected);
}

proof fn known_leave_nothing(list: Seq<Seq<char>>, known: Seq<Seq<char>>)
    requires
        forall|i: int| 0 <= i < list.len() ==> has_ci(known, #[trigger] list[i]),
    ensures
        fresh(list, known).len() == 0,
    decreases list.len(),
{
    if list.len() > 0 {
        assert(list.last() == list[list.len() - 1]);
        assert forall|i: int| 0 <= i < list.drop_last().len() implies has_ci(
            known,
            #[trigger] list.drop_last()[i],
        ) by {
            assert(list.drop_last()[i] == list[i]);
        }
        known_leave_nothing(list.drop_last(), known);
    }
}

/// Whether removing `member` leaves the group without members: it is the only one. A group that is
/// empty already is not emptied.
pub fn would_empty(current_members: &Vec<String>, member: &str) -> (b: bool)
    ensures
        b == (current_members@.len() == 1 && same_ci(texts(current_members@)[0], member@)),
{
    current_members.len() == 1 && eq_ignore_case(&current_members[0], member)
}

/// The source of the correlation ids of write requests. It starts high, so that write ids never
/// meet the ids of reads, which start at 1.
pub struct WriteIds {
    pub next: u64,
}

impl WriteIds {
    /// A source that has given out no id.
    pub fn new() -> (r: WriteIds)
        ensures
            r.next == 1_000_000,
    {
        WriteIds { next: 1_000_000 }
    }

    /// The next id.
    pub fn next_id(&mut self) -> (id: u64)
        ensures
            id == old(self).next,
            final(self).next == id_after(id),
    {
        let id: u64 = self.next;
        self.next = id.wrapping_add(1);
        id
    }
}

/// The id behind an id; the last one is followed by 0.
pub open spec fn id_after(id: u64) -> u64 {
    if id < u64::MAX {
        (id + 1) as u64
    } else {
        0
    }
}

/// The id that comes `n` ids later.
pub open spec fn nth_id(id: u64, n: nat) -> u64
    decreases n,
{
    if n == 0 {
        id
    } else {
        id_after(nth_id(id, (n - 1) as nat))
    }
}

/// Ids given out one after the other differ, and grow, until the numbers run out.
pub proof fn ids_grow(id: u64, n: nat, m: nat)
    requires
        n < m,
        id + m <= u64::MAX,
    ensures
        nth_id(id, n) < nth_id(id, m),
        nth_id(id, n) == id + n,
        nth_id(id, m) == id + m,
    decreases m,
{
    if m > 1 {
        ids_grow(id, 0, (m - 1) as nat);
    }
    if n > 0 {
        ids_grow(id, 0, n);
    }
}

/// A change as a mathematical value is told apart by what it does, and names its attribute and its
/// values.
pub proof fn changes_are_told_apart(m: ModOp)
    ensures
        match m {
            ModOp::Add { attr, values } => m.model() == (ModKind::Add, attr@, texts(values@)),
            ModOp::Delete { attr, values } => m.model() == (ModKind::Delete, attr@, texts(values@)),
            ModOp::Replace { attr, values } => m.model() == (ModKind::Replace, attr@, texts(values@)),
        },
        m is Add <==> m.model().0 == ModKind::Add,
        m is Delete <==> m.model().0 == ModKind::Delete,
        m is Replace <==> m.model().0 == ModKind::Replace,
{
}

/// The changes of a set as a mathematical value are the set's own, one by one, with its name and its
/// rename.
pub proof fn change_sets_are_told_apart(cs: ChangeSet)
    ensures
        cs.model().0 == cs.dn@,
        cs.modrdn is None <==> cs.model().1 is None,
        cs.modrdn matches Some(m) ==> cs.model().1 == Some(
            (m.new_rdn@, m.delete_old, opt_text(m.new_superior)),
        ),
        cs.model().2.len() == cs.mods@.len(),
        forall|i: int| 0 <= i < cs.mods@.len() ==> #[trigger] cs.model().2[i] == cs.mods@[i].model(),
{
}

/// A list of problems has its headline and then, for each problem in order, a bullet of its own with
/// the attribute in question.
pub proof fn every_problem_is_named(errors: Seq<ValidationError>, error: ValidationError)
    ensures
        error_message(errors.push(error)) == error_message(errors) + "\n- "@ + (match error {
            ValidationError::MissingMust(a) => "missing required attribute: "@ + a@,
            ValidationError::MultiValueOnSingle(a) => "attribute is single-valued: "@ + a@,
            ValidationError::SyntaxInvalid { attr, reason } => attr@ + ": "@ + reason@,
        }),
        error_message(Seq::<ValidationError>::empty()) == "Cannot save — please fix:"@,
{
    assert(errors.push(error).drop_last() =~= errors);
}

proof fn fresh_is_a_filter(list: Seq<Seq<char>>, known: Seq<Seq<char>>)
    ensures
        fresh(list, known) == list.filter(|g: Seq<char>| !has_ci(known, g)),
    decreases list.len(),
{
    reveal(Seq::filter);
    if list.len() > 0 {
        fresh_is_a_filter(list.drop_last(), known);
    }
}

/// The changes of a membership are the additions to the groups that are new, in the order of the
/// selection, and then the deletions from those that are gone, in the order they were held in. There
/// are no others.
pub proof fn fanout_joins_before_it_leaves(
    entry_dn: Seq<char>,
    baseline: Seq<Seq<char>>,
    selected: Seq<Seq<char>>,
    holder_attr: Seq<char>,
)
    ensures
        fanout(entry_dn, baseline, selected, holder_attr) == selected.filter(
            |g: Seq<char>| !has_ci(baseline, g),
        ).map_values(|g: Seq<char>| (g, (ModKind::Add, holder_attr, seq![entry_dn])))
            + baseline.filter(|g: Seq<char>| !has_ci(selected, g)).map_values(
            |g: Seq<char>| (g, (ModKind::Delete, holder_attr, seq![entry_dn])),
        ),
{
    fresh_is_a_filter(selected, baseline);
    fresh_is_a_filter(baseline, selected);
    assert(fanout(entry_dn, baseline, selected, holder_attr) =~= selected.filter(
        |g: Seq<char>| !has_ci(baseline, g),
    ).map_values(|g: Seq<char>| (g, (ModKind::Add, holder_attr, seq![entry_dn]))) + baseline.filter(
        |g: Seq<char>| !has_ci(selected, g),
    ).map_values(|g: Seq<char>| (g, (ModKind::Delete, holder_attr, seq![entry_dn]))));
}

/// What stands for a secret is one value of eight asterisks, whatever the secret.
pub proof fn secrets_read_as_asterisks()
    ensures
        masked_values().len() == 1,
        masked_values()[0].len() == 8,
        forall|i: int| 0 <= i < 8 ==> #[trigger] masked_values()[0][i] == '*',
{
    reveal_strlit("********");
}

} // verus!
