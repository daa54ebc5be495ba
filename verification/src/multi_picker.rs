//! The picker of several candidates: chosen members on one side, candidates that are not members on
//! the other.
use std::rc::Rc;
use vstd::prelude::*;
use vstd::string::*;

use crate::app::picker::single_pick;
use crate::text::{same_text, texts, lowercase};
use crate::widgets::{Candidate, Cardinality, PickerBinding, WidgetKind};

verus! {

/// A row of either side: what it stands for, what it shows, and whether it must stay.
#[derive(Debug)]
pub struct ShuttleRow {
    pub key: String,
    pub label: String,
    pub locked: bool,
}

/// A row as a mathematical value.
pub type Row = (Seq<char>, Seq<char>, bool);

/// The rows of a list, as mathematical values.
pub open spec fn rows_model(v: Seq<ShuttleRow>) -> Seq<Row> {
    v.map_values(|r: ShuttleRow| (r.key@, r.label@, r.locked))
}

/// The binding that the picker edits a field by: one that is written to other entries, or that lets
/// several be chosen.
pub fn multi_binding(widget: &Option<WidgetKind>, multi: bool) -> (r: Option<Rc<PickerBinding>>)
    ensures
        r == match *widget {
            Some(WidgetKind::Picker(b)) => if b.fanout_attr is Some || !single_pick(
                b.select,
                !multi,
            ) {
                Some(b)
            } else {
                None
            },
            _ => None,
        },
{
    match widget {
        Some(WidgetKind::Picker(b)) => {
            let several: bool = match b.select {
                Some(Cardinality::Single) => false,
                Some(Cardinality::Multi) => true,
                None => multi,
            };
            if b.fanout_attr.is_some() || several {
                Some(b.clone())
            } else {
                None
            }
        },
        _ => None,
    }
}

/// The rows of the members that a field holds: each stands for itself, shows itself, and may go.
pub fn seed_rows(current: &Vec<String>) -> (r: Vec<ShuttleRow>)
    ensures
        rows_model(r@) == texts(current@).map_values(|v: Seq<char>| (v, v, false)),
{
    let mut out: Vec<ShuttleRow> = Vec::new();
    let ghost goal = texts(current@).map_values(|v: Seq<char>| (v, v, false));
    let mut i: usize = 0;
    while i < current.len()
        invariant
            i <= current@.len(),
            goal == texts(current@).map_values(|v: Seq<char>| (v, v, false)),
            rows_model(out@) == goal.take(i as int),
        decreases current@.len() - i,
    {
        let ghost o0 = out@;
        out.push(ShuttleRow { key: current[i].clone(), label: current[i].clone(), locked: false });
        i += 1;
        proof {
            assert(rows_model(out@) =~= rows_model(o0).push(goal[i - 1]));
            assert(rows_model(out@) =~= goal.take(i as int));
        }
    }
    assert(goal.take(goal.len() as int) =~= goal);
    out
}

/// The label that the last result for a key gives, keys compared in lower case.
pub open spec fn label_found(results: Seq<Candidate>, key: Seq<char>) -> Option<Seq<char>>
    decreases results.len(),
{
    if results.len() == 0 {
        None
    } else if lowercase(results.last().store_value@) == lowercase(key) {
        Some(results.last().label@)
    } else {
        label_found(results.drop_last(), key)
    }
}

/// A member with the label that the results give, if they give one.
pub open spec fn relabelled(r: Row, results: Seq<Candidate>) -> Row {
    match label_found(results, r.0) {
        Some(l) => (r.0, l, r.2),
        None => r,
    }
}

fn find_label(results: &Vec<Candidate>, key: &str) -> (r: Option<usize>)
    ensures
        match r {
            Some(i) => i < results@.len() && label_found(results@, key@) == Some(
                results@[i as int].label@,
            ),
            None => label_found(results@, key@) is None,
        },
{
    let low: String = key.to_lowercase();
    let mut i: usize = results.len();
    assert(results@.take(results@.len() as int) =~= results@);
    while i > 0
        invariant
            i <= results@.len(),
            low@ == lowercase(key@),
            label_found(results@, key@) == label_found(results@.take(i as int), key@),
        decreases i,
    {
        proof {
            assert(results@.take(i as int).drop_last() =~= results@.take(i - 1));
            assert(results@.take(i as int).last() == results@[i - 1]);
        }
        if same_text(&results[i - 1].store_value.as_str().to_lowercase(), &low) {
            return Some(i - 1);
        }
        i -= 1;
    }
    None
}

/// The members with the labels that the results give.
pub fn relabel(selected: &Vec<ShuttleRow>, results: &Vec<Candidate>) -> (r: Vec<ShuttleRow>)
    ensures
        rows_model(r@) == rows_model(selected@).map_values(|x: Row| relabelled(x, results@)),
{
    let mut out: Vec<ShuttleRow> = Vec::new();
    let ghost goal = rows_model(selected@).map_values(|x: Row| relabelled(x, results@));
    let mut i: usize = 0;
    while i < selected.len()
        invariant
            i <= selected@.len(),
            goal == rows_model(selected@).map_values(|x: Row| relabelled(x, results@)),
            rows_model(out@) == goal.take(i as int),
        decreases selected@.len() - i,
    {
        let ghost o0 = out@;
        let label: String = match find_label(results, &selected[i].key) {
            Some(k) => results[k].label.clone(),
            None => selected[i].label.clone(),
        };
        let row: ShuttleRow = ShuttleRow {
            key: selected[i].key.clone(),
            label,
            locked: selected[i].locked,
        };
        assert((row.key@, row.label@, row.locked) == goal[i as int]);
        out.push(row);
        i += 1;
        proof {
            assert(rows_model(out@) =~= rows_model(o0).push(goal[i - 1]));
            assert(rows_model(out@) =~= goal.take(i as int));
        }
    }
    assert(goal.take(goal.len() as int) =~= goal);
    out
}

/// Whether some row has a key, keys compared in lower case.
pub open spec fn is_member(rows: Seq<ShuttleRow>, key: Seq<char>) -> bool {
    exists|i: int| 0 <= i < rows.len() && lowercase((#[trigger] rows[i]).key@) == lowercase(key)
}

/// The rows of the results that are not members.
pub open spec fn offered(results: Seq<Candidate>, selected: Seq<ShuttleRow>) -> Seq<Row>
    decreases results.len(),
{
    if results.len() == 0 {
        Seq::empty()
    } else {
        let before = offered(results.drop_last(), selected);
        if is_member(selected, results.last().store_value@) {
            before
        } else {
            before.push((results.last().store_value@, results.last().label@, false))
        }
    }
}

fn member(rows: &Vec<ShuttleRow>, key: &str) -> (b: bool)
    ensures
        b == is_member(rows@, key@),
{
    let low: String = key.to_lowercase();
    let mut i: usize = 0;
    while i < rows.len()
        invariant
            i <= rows@.len(),
            low@ == lowercase(key@),
            forall|j: int| 0 <= j < i ==> lowercase((#[trigger] rows@[j]).key@) != lowercase(key@),
        decreases rows@.len() - i,
    {
        if same_text(&rows[i].key.as_str().to_lowercase(), &low) {
            return true;
        }
        i += 1;
    }
    false
}

/// The rows of the results that are not members: a member is never offered again.
pub fn offered_rows(results: &Vec<Candidate>, selected: &Vec<ShuttleRow>) -> (r: Vec<ShuttleRow>)
    ensures
        rows_model(r@) == offered(results@, selected@),
{
    let mut out: Vec<ShuttleRow> = Vec::new();
    let mut i: usize = 0;
    assert(rows_model(out@) =~= offered(results@.take(0), selected@));
    while i < results.len()
        invariant
            i <= results@.len(),
            rows_model(out@) == offered(results@.take(i as int), selected@),
        decreases results@.len() - i,
    {
        proof {
            assert(results@.take(i + 1).drop_last() =~= results@.take(i as int));
            assert(results@.take(i + 1).last() == results@[i as int]);
        }
        if !member(selected, &results[i].store_value) {
            let ghost o0 = out@;
            let row: ShuttleRow = ShuttleRow {
                key: results[i].store_value.clone(),
                label: results[i].label.clone(),
                locked: false,
            };
            let ghost m = (row.key@, row.label@, row.locked);
            out.push(row);
            assert(rows_model(out@) =~= rows_model(o0).push(m));
        }
        i += 1;
    }
    assert(results@.take(results@.len() as int) =~= results@);
    out
}

/// Takes in what a candidate search found: the members get the labels found for them, and what is
/// not a member is offered. Gives back the members and what is offered.
pub fn sync_results(selected: &Vec<ShuttleRow>, results: &Vec<Candidate>) -> (r: (
    Vec<ShuttleRow>,
    Vec<ShuttleRow>,
))
    ensures
        rows_model(r.0@) == rows_model(selected@).map_values(|x: Row| relabelled(x, results@)),
        rows_model(r.1@) == offered(results@, r.0@),
{
    let members: Vec<ShuttleRow> = relabel(selected, results);
    let offer: Vec<ShuttleRow> = offered_rows(results, &members);
    (members, offer)
}

/// Nothing that is offered is a member.
pub proof fn members_are_not_offered(results: Seq<Candidate>, selected: Seq<ShuttleRow>, k: int)
    requires
        0 <= k < offered(results, selected).len(),
    ensures
        !is_member(selected, offered(results, selected)[k].0),
    decreases results.len(),
{
    let before = offered(results.drop_last(), selected);
    if k < before.len() {
        members_are_not_offered(results.drop_last(), selected, k);
        assert(offered(results, selected)[k] == before[k]);
    }
}

/// Taking in results never changes which members there are, nor which must stay.
pub proof fn relabelling_keeps_members(rows: Seq<Row>, results: Seq<Candidate>, i: int)
    requires
        0 <= i < rows.len(),
    ensures
        rows.map_values(|x: Row| relabelled(x, results))[i].0 == rows[i].0,
        rows.map_values(|x: Row| relabelled(x, results))[i].2 == rows[i].2,
{
}

/// What the members stand for: the values to stage.
pub fn staged_values(selected: &Vec<ShuttleRow>) -> (r: Vec<String>)
    ensures
        texts(r@) == selected@.map_values(|row: ShuttleRow| row.key@),
{
    let mut out: Vec<String> = Vec::new();
    let ghost goal = selected@.map_values(|row: ShuttleRow| row.key@);
    let mut i: usize = 0;
    while i < selected.len()
        invariant
            i <= selected@.len(),
            goal == selected@.map_values(|row: ShuttleRow| row.key@),
            texts(out@) == goal.take(i as int),
        decreases selected@.len() - i,
    {
        let ghost o0 = out@;
        out.push(selected[i].key.clone());
        i += 1;
        proof {
            assert(texts(out@) =~= texts(o0).push(goal[i - 1]));
            assert(texts(out@) =~= goal.take(i as int));
        }
    }
    assert(goal.take(goal.len() as int) =~= goal);
    out
}

/// A notice of the two lists, as far as notices are told apart.
#[derive(Debug, Clone, Copy, PartialEq, Eq, Structural)]
pub enum ShuttleNotice {
    /// The search text of the candidates changed.
    AvailableFind,
    /// The search text of the members changed.
    MembersFind,
    /// A row was moved.
    Moved,
    /// New results arrived.
    Refresh,
    Other,
}

/// What a notice leads to.
#[derive(Debug, Clone, Copy, PartialEq, Eq, Structural)]
pub enum ShuttleStep {
    Done,
    /// Search candidates for the text.
    Search,
    /// Take in the results, and stage the members.
    SyncAndStage,
    /// Take in the results.
    Sync,
}

/// What a notice leads to: only the search text of the candidates starts a search.
pub fn shuttle_step(n: ShuttleNotice) -> (r: ShuttleStep)
    ensures
        r == match n {
            ShuttleNotice::AvailableFind => ShuttleStep::Search,
            ShuttleNotice::MembersFind => ShuttleStep::Done,
            ShuttleNotice::Moved => ShuttleStep::SyncAndStage,
            ShuttleNotice::Refresh => ShuttleStep::Sync,
            ShuttleNotice::Other => ShuttleStep::Done,
        },
{
    match n {
        ShuttleNotice::AvailableFind => ShuttleStep::Search,
        ShuttleNotice::MembersFind => ShuttleStep::Done,
        ShuttleNotice::Moved => ShuttleStep::SyncAndStage,
        ShuttleNotice::Refresh => ShuttleStep::Sync,
        ShuttleNotice::Other => ShuttleStep::Done,
    }
}

/// Every result that is not a member is offered, each once, in the order of the results, under its
/// own label and free to go; nothing else is.
pub proof fn all_others_are_offered(results: Seq<Candidate>, selected: Seq<ShuttleRow>)
    ensures
        offered(results, selected) == results.filter_map(
            |c: Candidate|
                if exists|i: int|
                    0 <= i < selected.len() && lowercase((#[trigger] selected[i]).key@) == lowercase(
                        c.store_value@,
                    ) {
                    None
                } else {
                    Some((c.store_value@, c.label@, false))
                },
        ),
        forall|k: int|
            0 <= k < results.len() && !is_member(selected, (#[trigger] results[k]).store_value@)
                ==> offered(results, selected).contains(
                (results[k].store_value@, results[k].label@, false),
            ),
        offered(results, selected).len() == results.filter(
            |c: Candidate| !is_member(selected, c.store_value@),
        ).len(),
    decreases results.len(),
{
    reveal(Seq::filter);
    reveal(Seq::filter_map);
    let all = offered(results, selected);
    if results.len() > 0 {
        let head = results.drop_last();
        let before = offered(head, selected);
        all_others_are_offered(head, selected);
        assert forall|k: int|
            0 <= k < results.len() && !is_member(selected, (#[trigger] results[k]).store_value@)
                implies all.contains((results[k].store_value@, results[k].label@, false)) by {
            let row = (results[k].store_value@, results[k].label@, false);
            if k < head.len() {
                assert(head[k] == results[k]);
                assert(before.contains(row));
                let j = choose|j: int| 0 <= j < before.len() && before[j] == row;
                assert(all[j] == row);
            } else {
                assert(all[before.len() as int] == row);
            }
        }
    }
}

/// A key is a member exactly when some row stands for it, whatever the case of either.
pub proof fn members_are_found_in_lower_case(rows: Seq<ShuttleRow>, key: Seq<char>)
    ensures
        is_member(rows, key) <==> rows.map_values(|r: ShuttleRow| lowercase(r.key@)).contains(
            lowercase(key),
        ),
{
    let low = rows.map_values(|r: ShuttleRow| lowercase(r.key@));
    if is_member(rows, key) {
        let i = choose|i: int|
            0 <= i < rows.len() && lowercase((#[trigger] rows[i]).key@) == lowercase(key);
        assert(low[i] == lowercase(key));
    }
    if low.contains(lowercase(key)) {
        let i = choose|i: int| 0 <= i < low.len() && low[i] == lowercase(key);
        assert(lowercase(rows[i].key@) == lowercase(key));
    }
}

/// A member takes the label of the last result for its key; without one it keeps its own. Its key
/// stays, and so does whether it must stay.
pub proof fn members_take_the_labels_found(rows: Seq<Row>, results: Seq<Candidate>, i: int, k: int)
    requires
        0 <= i < rows.len(),
        0 <= k < results.len(),
        lowercase(results[k].store_value@) == lowercase(rows[i].0),
        forall|j: int|
            k < j < results.len() ==> lowercase((#[trigger] results[j]).store_value@) != lowercase(
                rows[i].0,
            ),
    ensures
        rows.map_values(|x: Row| relabelled(x, results))[i] == (
            rows[i].0,
            results[k].label@,
            rows[i].2,
        ),
    decreases results.len(),
{
    last_label_found(results, rows[i].0, k);
}

proof fn last_label_found(results: Seq<Candidate>, key: Seq<char>, k: int)
    requires
        0 <= k < results.len(),
        lowercase(results[k].store_value@) == lowercase(key),
        forall|j: int|
            k < j < results.len() ==> lowercase((#[trigger] results[j]).store_value@) != lowercase(key),
    ensures
        label_found(results, key) == Some(results[k].label@),
    decreases results.len(),
{
    let head = results.drop_last();
    assert(results.last() == results[results.len() - 1]);
    if k < head.len() {
        assert forall|j: int| k < j < head.len() implies lowercase(
            (#[trigger] head[j]).store_value@,
        ) != lowercase(key) by {
            assert(head[j] == results[j]);
        }
        last_label_found(head, key, k);
    }
}

/// A member that no result stands for keeps its label.
pub proof fn other_members_keep_their_labels(row: Row, results: Seq<Candidate>)
    requires
        forall|j: int|
            0 <= j < results.len() ==> lowercase((#[trigger] results[j]).store_value@) != lowercase(
                row.0,
            ),
    ensures
        relabelled(row, results) == row,
    decreases results.len(),
{
    if results.len() > 0 {
        let head = results.drop_last();
        assert(results.last() == results[results.len() - 1]);
        assert forall|j: int| 0 <= j < head.len() implies lowercase(
            (#[trigger] head[j]).store_value@,
        ) != lowercase(row.0) by {
            assert(head[j] == results[j]);
        }
        other_members_keep_their_labels(row, head);
    }
}

/// The members a field holds come back as they were when they are staged again.
pub proof fn seeded_members_are_staged(current: Seq<String>, rows: Seq<ShuttleRow>)
    requires
        rows_model(rows) == texts(current).map_values(|v: Seq<char>| (v, v, false)),
    ensures
        rows.map_values(|row: ShuttleRow| row.key@) == texts(current),
{
    let goal = texts(current).map_values(|v: Seq<char>| (v, v, false));
    assert(rows.len() == rows_model(rows).len());
    assert(rows.len() == goal.len());
    assert forall|i: int| 0 <= i < rows.len() implies rows[i].key@ == #[trigger] texts(current)[i] by {
        assert(rows_model(rows)[i] == (rows[i].key@, rows[i].label@, rows[i].locked));
        assert(goal[i] == (texts(current)[i], texts(current)[i], false));
    }
    assert(rows.map_values(|row: ShuttleRow| row.key@) =~= texts(current));
}

} // verus!
