//! The tree of branches: the outline that the tree pane shows.
use vstd::prelude::*;
use vstd::string::*;

use crate::text::{eq_ignore_case, pieces, same_ci, split, texts, trim, trimmed};

verus! {

/// An entry of the directory's structure. Its children follow it in the list of entries, and are
/// given by their places there.
pub struct StructureNode {
    pub dn: String,
    pub label: String,
    /// Whether the entry is a branch of the tree.
    pub branch: bool,
    pub children: Vec<usize>,
}

/// Whether every child stands behind its parent in the list.
pub open spec fn well_ordered(nodes: Seq<StructureNode>) -> bool {
    forall|i: int, k: int|
        #![trigger nodes[i].children@[k]]
        0 <= i < nodes.len() && 0 <= k < nodes[i].children@.len() ==> i < nodes[i].children@[k]
            < nodes.len()
}

/// Whether an entry is a branch.
pub open spec fn is_branch(n: StructureNode) -> bool {
    n.branch
}

/// A row of the outline: how deep it stands, the entry's name, and its label.
#[derive(Debug)]
pub struct OutlineRow {
    pub depth: usize,
    pub dn: String,
    pub label: String,
}

/// A row as a mathematical value.
pub type Row = (nat, Seq<char>, Seq<char>);

/// The rows of a list, as mathematical values.
pub open spec fn rows_model(v: Seq<OutlineRow>) -> Seq<Row> {
    v.map_values(|r: OutlineRow| (r.depth as nat, r.dn@, r.label@))
}

/// The outline below an entry: the entry itself, then the outlines of those children that are
/// branches, one level deeper.
pub open spec fn outline(nodes: Seq<StructureNode>, i: int, depth: nat) -> Seq<Row>
    decreases nodes.len() - i, 1int, 0int,
{
    if 0 <= i < nodes.len() {
        seq![(depth, nodes[i].dn@, nodes[i].label@)] + below(
            nodes,
            i,
            nodes[i].children@.len() as int,
            depth + 1,
        )
    } else {
        Seq::empty()
    }
}

/// The outlines of the first `n` children of an entry.
pub open spec fn below(nodes: Seq<StructureNode>, i: int, n: int, depth: nat) -> Seq<Row>
    decreases nodes.len() - i, 0int, n,
{
    if n <= 0 || i < 0 || i >= nodes.len() || n > nodes[i].children@.len() {
        Seq::empty()
    } else {
        let child = nodes[i].children@[n - 1] as int;
        let before = below(nodes, i, n - 1, depth);
        if i < child < nodes.len() && is_branch(nodes[child]) {
            before + outline(nodes, child, depth)
        } else {
            before
        }
    }
}

fn push_outline(nodes: &Vec<StructureNode>, i: usize, depth: usize, out: &mut Vec<OutlineRow>)
    requires
        well_ordered(nodes@),
        i < nodes@.len(),
        depth + (nodes@.len() - i) <= usize::MAX,
    ensures
        rows_model(final(out)@) == rows_model(old(out)@) + outline(nodes@, i as int, depth as nat),
    decreases nodes@.len() - i,
{
    let ghost start = rows_model(out@);
    let head: OutlineRow = OutlineRow {
        depth,
        dn: nodes[i].dn.clone(),
        label: nodes[i].label.clone(),
    };
    let ghost h = (depth as nat, nodes@[i as int].dn@, nodes@[i as int].label@);
    let ghost o0 = out@;
    out.push(head);
    assert(rows_model(out@) =~= rows_model(o0).push(h));
    let mut k: usize = 0;
    assert(rows_model(out@) =~= start + (seq![h] + below(nodes@, i as int, 0, (depth + 1) as nat)));
    while k < nodes[i].children.len()
        invariant
            well_ordered(nodes@),
            i < nodes@.len(),
            k <= nodes@[i as int].children@.len(),
            depth + (nodes@.len() - i) <= usize::MAX,
            rows_model(out@) == start + (seq![h] + below(
                nodes@,
                i as int,
                k as int,
                (depth + 1) as nat,
            )),
        decreases nodes@[i as int].children@.len() - k,
    {
        let child: usize = nodes[i].children[k];
        assert(i < nodes@[i as int].children@[k as int] < nodes@.len());
        if nodes[child].branch {
            let ghost b = below(nodes@, i as int, k as int, (depth + 1) as nat);
            push_outline(nodes, child, depth + 1, out);
            proof {
                let o = outline(nodes@, child as int, (depth + 1) as nat);
                assert(start + (seq![h] + b) + o =~= start + (seq![h] + (b + o)));
            }
        }
        k += 1;
    }
}

/// The outline of a whole structure. A root that is not among the entries stands alone, under its
/// first component.
pub open spec fn whole_outline(nodes: Seq<StructureNode>, root: Seq<char>) -> Seq<Row> {
    if nodes.len() == 0 {
        seq![(0, root, trimmed(pieces(root, ',')[0]))]
    } else {
        outline(nodes, 0, 0)
    }
}

/// The outline of the branches: the root, which is always shown and is the first of the entries, and
/// every branch below it, each before those within it. Entries that are no branches are left out.
pub fn branch_outline(nodes: &Vec<StructureNode>, root_dn: &str) -> (r: Vec<OutlineRow>)
    requires
        well_ordered(nodes@),
    ensures
        rows_model(r@) == whole_outline(nodes@, root_dn@),
{
    let mut out: Vec<OutlineRow> = Vec::new();
    assert(rows_model(out@) =~= Seq::<Row>::empty());
    if nodes.len() > 0 {
        push_outline(nodes, 0, 0, &mut out);
        assert(Seq::<Row>::empty() + outline(nodes@, 0, 0) =~= outline(nodes@, 0, 0));
    } else {
        let parts: Vec<String> = split(root_dn, ',');
        assert(texts(parts@)[0] == parts@[0]@);
        out.push(OutlineRow { depth: 0, dn: root_dn.to_owned(), label: trim(&parts[0]) });
        assert(rows_model(out@) =~= whole_outline(nodes@, root_dn@));
    }
    out
}

/// Whether a row shows an entry that is a branch.
pub open spec fn shows_branch(nodes: Seq<StructureNode>, row: Row) -> bool {
    exists|j: int|
        0 <= j < nodes.len() && is_branch(#[trigger] nodes[j]) && nodes[j].dn@ == row.1
            && nodes[j].label@ == row.2
}

/// Every row of the outline but the first shows a branch.
pub proof fn only_branches_are_shown(nodes: Seq<StructureNode>, i: int, depth: nat, k: int)
    requires
        0 <= i < nodes.len(),
        0 < k < outline(nodes, i, depth).len(),
    ensures
        shows_branch(nodes, outline(nodes, i, depth)[k]),
    decreases nodes.len() - i, 1int, 0int,
{
    let n = nodes[i].children@.len() as int;
    let b = below(nodes, i, n, depth + 1);
    assert(outline(nodes, i, depth)[k] == b[k - 1]);
    below_shows_branches(nodes, i, n, depth + 1, k - 1);
}

proof fn below_shows_branches(nodes: Seq<StructureNode>, i: int, n: int, depth: nat, k: int)
    requires
        0 <= i < nodes.len(),
        0 <= n <= nodes[i].children@.len(),
        0 <= k < below(nodes, i, n, depth).len(),
    ensures
        shows_branch(nodes, below(nodes, i, n, depth)[k]),
    decreases nodes.len() - i, 0int, n,
{
    let child = nodes[i].children@[n - 1] as int;
    let before = below(nodes, i, n - 1, depth);
    if k < before.len() {
        below_shows_branches(nodes, i, n - 1, depth, k);
        assert(below(nodes, i, n, depth)[k] == before[k]);
    } else {
        let o = outline(nodes, child, depth);
        assert(below(nodes, i, n, depth)[k] == o[k - before.len()]);
        if k - before.len() == 0 {
            assert(is_branch(nodes[child]));
            assert(o[0] == (depth, nodes[child].dn@, nodes[child].label@));
        } else {
            only_branches_are_shown(nodes, child, depth, k - before.len());
        }
    }
}

/// The first row with a name, up to ASCII case.
pub open spec fn row_named(rows: Seq<Row>, dn: Seq<char>) -> Option<int>
    decreases rows.len(),
{
    if rows.len() == 0 {
        None
    } else {
        match row_named(rows.drop_last(), dn) {
            Some(i) => Some(i),
            None => if same_ci(rows.last().1, dn) {
                Some(rows.len() - 1)
            } else {
                None
            },
        }
    }
}

proof fn row_named_prefix(rows: Seq<Row>, dn: Seq<char>, n: int)
    requires
        0 <= n <= rows.len(),
        row_named(rows.take(n), dn) is Some,
    ensures
        row_named(rows, dn) == row_named(rows.take(n), dn),
    decreases rows.len() - n,
{
    if n < rows.len() {
        assert(rows.take(n + 1).drop_last() =~= rows.take(n));
        row_named_prefix(rows, dn, n + 1);
    } else {
        assert(rows.take(n) =~= rows);
    }
}

/// The first node of the outline with a name, up to ASCII case.
pub fn find_node(rows: &Vec<OutlineRow>, dn: &str) -> (r: Option<usize>)
    ensures
        match r {
            Some(i) => i < rows@.len() && row_named(rows_model(rows@), dn@) == Some(i as int),
            None => row_named(rows_model(rows@), dn@) is None,
        },
{
    let ghost all = rows_model(rows@);
    let mut i: usize = 0;
    while i < rows.len()
        invariant
            i <= rows@.len(),
            all == rows_model(rows@),
            row_named(all.take(i as int), dn@) is None,
        decreases rows@.len() - i,
    {
        proof {
            assert(all.take(i + 1).drop_last() =~= all.take(i as int));
            assert(all.take(i + 1).last() == all[i as int]);
        }
        if eq_ignore_case(&rows[i].dn, dn) {
            proof {
                row_named_prefix(all, dn@, i + 1);
            }
            return Some(i);
        }
        i += 1;
    }
    assert(all.take(all.len() as int) =~= all);
    None
}

/// The outline of an entry is its own row, followed by the outlines of all its children that are
/// branches, in their order and one level deeper.
pub proof fn every_branch_is_shown(nodes: Seq<StructureNode>, i: int, depth: nat)
    requires
        well_ordered(nodes),
        0 <= i < nodes.len(),
    ensures
        outline(nodes, i, depth) == seq![(depth, nodes[i].dn@, nodes[i].label@)]
            + nodes[i].children@.filter(|c: usize| nodes[c as int].branch).map_values(
            |c: usize| outline(nodes, c as int, depth + 1),
        ).flatten(),
{
    let children = nodes[i].children@;
    below_is_flat(nodes, i, children.len() as int, depth + 1);
    assert(children.take(children.len() as int) =~= children);
    assert((|c: usize| outline(nodes, c as int, depth + 1)) == (|c: usize|
        outline(nodes, c as int, (depth + 1) as nat)));
}

proof fn below_is_flat(nodes: Seq<StructureNode>, i: int, n: int, depth: nat)
    requires
        well_ordered(nodes),
        0 <= i < nodes.len(),
        0 <= n <= nodes[i].children@.len(),
    ensures
        below(nodes, i, n, depth) == nodes[i].children@.take(n).filter(
            |c: usize| nodes[c as int].branch,
        ).map_values(|c: usize| outline(nodes, c as int, depth)).flatten(),
    decreases n,
{
    reveal(Seq::filter);
    let first = nodes[i].children@.take(n);
    let is = |c: usize| nodes[c as int].branch;
    let of = |c: usize| outline(nodes, c as int, depth);
    if n > 0 {
        below_is_flat(nodes, i, n - 1, depth);
        let child = nodes[i].children@[n - 1];
        let before = nodes[i].children@.take(n - 1).filter(is);
        assert(i < child < nodes.len());
        assert(first.drop_last() =~= nodes[i].children@.take(n - 1));
        assert(first.last() == child);
        if is(child) {
            let all = before.push(child).map_values(of);
            assert(first.filter(is) == before.push(child));
            assert(all =~= before.map_values(of).push(outline(nodes, child as int, depth)));
            all.lemma_flatten_and_flatten_alt_are_equivalent();
            before.map_values(of).lemma_flatten_and_flatten_alt_are_equivalent();
            assert(all.drop_last() =~= before.map_values(of));
            assert(all.flatten() =~= before.map_values(of).flatten() + outline(
                nodes,
                child as int,
                depth,
            ));
        }
    } else {
        assert(first.filter(is).map_values(of) =~= Seq::<Seq<Row>>::empty());
        assert(Seq::<Seq<Row>>::empty().flatten() =~= Seq::<Row>::empty());
    }
}

/// The outline of a structure starts at its root, on the first level. Without entries the root stands
/// alone, under its first component.
pub proof fn outlines_start_at_the_root(nodes: Seq<StructureNode>, root: Seq<char>)
    ensures
        whole_outline(nodes, root).len() >= 1,
        nodes.len() > 0 ==> whole_outline(nodes, root)[0] == (
            0nat,
            nodes[0].dn@,
            nodes[0].label@,
        ) && whole_outline(nodes, root) == outline(nodes, 0, 0),
        nodes.len() == 0 ==> whole_outline(nodes, root).len() == 1 && whole_outline(nodes, root)[0] == (
            0nat,
            root,
            trimmed(pieces(root, ',')[0]),
        ),
{
}

/// A node is found by its name in any letter case, the first one where there are several.
pub proof fn nodes_are_found_by_name(rows: Seq<Row>, dn: Seq<char>)
    ensures
        match row_named(rows, dn) {
            Some(i) => 0 <= i < rows.len() && same_ci(rows[i].1, dn) && forall|j: int|
                0 <= j < i ==> !same_ci((#[trigger] rows[j]).1, dn),
            None => forall|j: int| 0 <= j < rows.len() ==> !same_ci((#[trigger] rows[j]).1, dn),
        },
    decreases rows.len(),
{
    if rows.len() > 0 {
        let head = rows.drop_last();
        nodes_are_found_by_name(head, dn);
        assert forall|j: int| 0 <= j < head.len() implies head[j] == #[trigger] rows[j] by {}
    }
}

} // verus!
