//! The branch tree's selection and expansion.
use tui_tree_widget::TreeState;
use vstd::prelude::*;

use crate::text::texts;

verus! {

/// `tui_tree_widget::TreeState`: what is selected and what is open in a tree.
#[verifier::external_type_specification]
#[verifier::external_body]
#[verifier::reject_recursive_types(Identifier)]
pub struct ExTreeState<Identifier>(TreeState<Identifier>);

/// The path of a node: its identifiers from the root down.
pub type Path = Seq<Seq<char>>;

/// The paths of the open nodes of a tree.
pub uninterp spec fn opened(t: TreeState<String>) -> Set<Path>;

/// The path of the selected node of a tree; empty when nothing is selected.
pub uninterp spec fn selected(t: TreeState<String>) -> Path;

/// The paths of the nodes that the last drawing of a tree listed.
pub uninterp spec fn listed(t: TreeState<String>) -> Seq<Path>;

/// The number of the last row that the last drawing of a tree had.
pub uninterp spec fn last_row(t: TreeState<String>) -> nat;

/// Whether two trees list the same rows.
pub open spec fn same_rows(a: TreeState<String>, b: TreeState<String>) -> bool {
    listed(a) == listed(b) && last_row(a) == last_row(b)
}

/// The first row that lists a path.
pub open spec fn row_of(rows: Seq<Path>, path: Path) -> Option<int>
    decreases rows.len(),
{
    if rows.len() == 0 {
        None
    } else {
        match row_of(rows.drop_last(), path) {
            Some(i) => Some(i),
            None => if rows.last() == path {
                Some(rows.len() - 1)
            } else {
                None
            },
        }
    }
}

/// The path at a row, at most the last row; nothing where no row is listed.
pub open spec fn path_at(t: TreeState<String>, row: int) -> Path {
    let at = if row < last_row(t) { row } else { last_row(t) as int };
    if 0 <= at < listed(t).len() {
        listed(t)[at]
    } else {
        Seq::empty()
    }
}

/// The path above the selected one; the last one when the selected one is not listed.
pub open spec fn path_above(t: TreeState<String>) -> Path {
    match row_of(listed(t), selected(t)) {
        Some(i) => path_at(t, if i > 0 { i - 1 } else { 0 }),
        None => path_at(t, last_row(t) as int),
    }
}

/// The path below the selected one; the first one when the selected one is not listed.
pub open spec fn path_below(t: TreeState<String>) -> Path {
    match row_of(listed(t), selected(t)) {
        Some(i) => path_at(t, i + 1),
        None => path_at(t, 0),
    }
}

/// `TreeState::default`: nothing is selected, open or listed.
#[verifier::external_body]
fn tree_default() -> (t: TreeState<String>)
    ensures
        selected(t) == Seq::<Seq<char>>::empty(),
        opened(t) == Set::<Path>::empty(),
        listed(t) == Seq::<Path>::empty(),
        last_row(t) == 0,
{
    TreeState::default()
}

/// `TreeState::open`: the node at the path is open from now on; an empty path opens nothing.
#[verifier::external_body]
fn tree_open(t: &mut TreeState<String>, path: Vec<String>)
    ensures
        opened(*final(t)) == if path@.len() == 0 {
            opened(*old(t))
        } else {
            opened(*old(t)).insert(texts(path@))
        },
        selected(*final(t)) == selected(*old(t)),
        same_rows(*final(t), *old(t)),
{
    t.open(path);
}

/// `TreeState::select`: the node at the path is the selected one from now on.
#[verifier::external_body]
fn tree_select(t: &mut TreeState<String>, path: Vec<String>)
    ensures
        selected(*final(t)) == texts(path@),
        opened(*final(t)) == opened(*old(t)),
        same_rows(*final(t), *old(t)),
{
    t.select(path);
}

/// `TreeState::key_up`: the selection moves to the row above, or to the last row when it was on
/// none.
#[verifier::external_body]
pub(crate) fn tree_key_up(t: &mut TreeState<String>)
    ensures
        selected(*final(t)) == path_above(*old(t)),
        opened(*final(t)) == opened(*old(t)),
        same_rows(*final(t), *old(t)),
{
    t.key_up();
}

/// `TreeState::key_down`: the selection moves to the row below, or to the first row when it was
/// on none.
#[verifier::external_body]
pub(crate) fn tree_key_down(t: &mut TreeState<String>)
    ensures
        selected(*final(t)) == path_below(*old(t)),
        opened(*final(t)) == opened(*old(t)),
        same_rows(*final(t), *old(t)),
{
    t.key_down();
}

/// `TreeState::key_left`: closes the selected node, or moves to its parent when it was closed.
#[verifier::external_body]
pub(crate) fn tree_key_left(t: &mut TreeState<String>)
    ensures
        opened(*final(t)) == opened(*old(t)).remove(selected(*old(t))),
        selected(*final(t)) == if opened(*old(t)).contains(selected(*old(t))) || selected(
            *old(t),
        ).len() == 0 {
            selected(*old(t))
        } else {
            selected(*old(t)).drop_last()
        },
        same_rows(*final(t), *old(t)),
{
    t.key_left();
}

/// `TreeState::key_right`: opens the selected node, if there is one.
#[verifier::external_body]
pub(crate) fn tree_key_right(t: &mut TreeState<String>)
    ensures
        opened(*final(t)) == if selected(*old(t)).len() == 0 {
            opened(*old(t))
        } else {
            opened(*old(t)).insert(selected(*old(t)))
        },
        selected(*final(t)) == selected(*old(t)),
        same_rows(*final(t), *old(t)),
{
    t.key_right();
}

/// `TreeState::toggle_selected`: closes the selected node if it is open, and opens it if not.
#[verifier::external_body]
pub(crate) fn tree_toggle(t: &mut TreeState<String>)
    ensures
        opened(*final(t)) == if selected(*old(t)).len() == 0 {
            opened(*old(t))
        } else if opened(*old(t)).contains(selected(*old(t))) {
            opened(*old(t)).remove(selected(*old(t)))
        } else {
            opened(*old(t)).insert(selected(*old(t)))
        },
        selected(*final(t)) == selected(*old(t)),
        same_rows(*final(t), *old(t)),
{
    t.toggle_selected();
}

/// `TreeState::selected`: the path of the selected node.
#[verifier::external_body]
fn tree_selected(t: &TreeState<String>) -> (path: Vec<String>)
    ensures
        texts(path@) == selected(*t),
{
    t.selected().to_vec()
}

/// The identifier of the selected node.
pub open spec fn selected_id(t: TreeState<String>) -> Option<Seq<char>> {
    if selected(t).len() == 0 {
        None
    } else {
        Some(selected(t).last())
    }
}

/// The identifier of the selected node, if one is selected.
pub fn selected_node(t: &TreeState<String>) -> (r: Option<String>)
    ensures
        match r {
            Some(s) => selected_id(*t) == Some(s@),
            None => selected_id(*t) is None,
        },
{
    let path: Vec<String> = tree_selected(t);
    assert(texts(path@).len() == path@.len());
    if path.len() == 0 {
        None
    } else {
        Some(path[path.len() - 1].clone())
    }
}

fn path_of(id: &str) -> (r: Vec<String>)
    ensures
        texts(r@) == seq![id@],
        r@.len() == 1,
{
    let mut r: Vec<String> = Vec::new();
    r.push(id.to_owned());
    assert(texts(r@) =~= seq![id@]);
    r
}

/// A tree with its root open and selected, so that a selection shows from the start.
pub fn tree_at_root(root: &str) -> (t: TreeState<String>)
    ensures
        selected(t) == seq![root@],
        opened(t) == set![seq![root@]],
        selected_id(t) == Some(root@),
        listed(t) == Seq::<Path>::empty(),
        last_row(t) == 0,
{
    let mut t: TreeState<String> = tree_default();
    tree_open(&mut t, path_of(root));
    tree_select(&mut t, path_of(root));
    assert(opened(t) =~= set![seq![root@]]);
    t
}

/// The selection moves from row to row: up to the row above and down to the row below, within the rows
/// that are listed.
pub proof fn arrows_move_between_rows(t: TreeState<String>, i: int)
    requires
        0 <= i < listed(t).len(),
        last_row(t) == listed(t).len() - 1,
        listed(t)[i] == selected(t),
        forall|j: int| 0 <= j < i ==> #[trigger] listed(t)[j] != selected(t),
    ensures
        i > 0 ==> path_above(t) == listed(t)[i - 1],
        i == 0 ==> path_above(t) == listed(t)[0],
        i + 1 < listed(t).len() ==> path_below(t) == listed(t)[i + 1],
        i + 1 == listed(t).len() ==> path_below(t) == listed(t)[i],
{
    first_row(listed(t), selected(t), i);
}

proof fn first_row(rows: Seq<Path>, path: Path, i: int)
    requires
        0 <= i < rows.len(),
        rows[i] == path,
        forall|j: int| 0 <= j < i ==> #[trigger] rows[j] != path,
    ensures
        row_of(rows, path) == Some(i),
    decreases rows.len(),
{
    let head = rows.drop_last();
    assert(forall|j: int| 0 <= j < head.len() ==> head[j] == rows[j]);
    if i < head.len() {
        first_row(head, path, i);
    } else {
        no_row(head, path);
    }
}

proof fn no_row(rows: Seq<Path>, path: Path)
    requires
        forall|j: int| 0 <= j < rows.len() ==> #[trigger] rows[j] != path,
    ensures
        row_of(rows, path) is None,
    decreases rows.len(),
{
    if rows.len() > 0 {
        let head = rows.drop_last();
        assert(rows.last() == rows[rows.len() - 1]);
        assert(forall|j: int| 0 <= j < head.len() ==> head[j] == rows[j]);
        no_row(head, path);
    }
}

/// The selected node is the last of its path.
pub proof fn the_selected_node_ends_its_path(t: TreeState<String>, above: Path, id: Seq<char>)
    ensures
        selected(t) == above.push(id) ==> selected_id(t) == Some(id),
        selected(t).len() == 0 <==> selected_id(t) is None,
{
}

} // verus!
