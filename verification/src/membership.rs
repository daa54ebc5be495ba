//! The membership field: how it shows, where its candidates come from, and its rows in the mover.
use std::rc::Rc;
use vstd::prelude::*;
use vstd::string::*;

use crate::dual_list::{DualEvent, DualRow};
use crate::text::{add_name, concat3, decimal, decimal_of, has_ci, same_ci, texts, with_name};
use crate::widgets::{Candidate, PickerBinding, StoreKey, WidgetKind};

verus! {

/// How a field of several members shows: nothing, the one member, or their number.
pub open spec fn summary(values: Seq<Seq<char>>) -> Seq<char> {
    if values.len() == 0 {
        "‹none›"@
    } else if values.len() == 1 {
        values[0]
    } else {
        "‹"@ + decimal_of(values.len()) + " members›"@
    }
}

/// How a field of several members shows.
pub fn present(values: &Vec<String>) -> (r: String)
    ensures
        r@ == summary(texts(values@)),
{
    assert(texts(values@).len() == values@.len());
    if values.len() == 0 {
        "‹none›".to_owned()
    } else if values.len() == 1 {
        values[0].clone()
    } else {
        concat3("‹", &decimal(values.len() as u64), " members›")
    }
}

/// The binding that the mover edits a field by: that of a picker which is written to other entries.
pub fn membership_binding(widget: &Option<WidgetKind>) -> (r: Option<Rc<PickerBinding>>)
    ensures
        r == match *widget {
            Some(WidgetKind::Picker(b)) => if b.fanout_attr is Some {
                Some(b)
            } else {
                None
            },
            _ => None,
        },
{
    match widget {
        Some(WidgetKind::Picker(b)) => if b.fanout_attr.is_some() {
            Some(b.clone())
        } else {
            None
        },
        _ => None,
    }
}

/// A search for candidates: where it starts, the object class, the attributes to read, and the one
/// that is stored, where it is not the name.
pub struct SearchScope {
    pub base: String,
    pub oc: String,
    pub attrs: Vec<String>,
    pub store_attr: Option<String>,
}

/// Names with more names, each unless it is among them up to ASCII case.
pub open spec fn with_names(names: Seq<Seq<char>>, more: Seq<Seq<char>>) -> Seq<Seq<char>>
    decreases more.len(),
{
    if more.len() == 0 {
        names
    } else {
        with_name(with_names(names, more.drop_last()), more.last())
    }
}

/// The attributes that a search for candidates reads: the common name, the user id, those that are
/// searched, and the one that is stored.
pub open spec fn scope_attrs(b: PickerBinding) -> Seq<Seq<char>> {
    let searched = with_names(seq!["cn"@, "uid"@], texts(b.scope.search_attrs@));
    match b.store {
        StoreKey::Dn => searched,
        StoreKey::Attr(a) => with_name(searched, a@),
    }
}

/// Where the candidates of a binding come from.
pub fn search_scope(b: &PickerBinding) -> (r: SearchScope)
    ensures
        r.base@ == b.scope.base@,
        r.oc@ == if b.scope.object_classes@.len() == 0 {
            Seq::<char>::empty()
        } else {
            b.scope.object_classes@[0]@
        },
        texts(r.attrs@) == scope_attrs(*b),
        match b.store {
            StoreKey::Dn => r.store_attr is None,
            StoreKey::Attr(a) => r.store_attr == Some(a),
        },
{
    let mut attrs: Vec<String> = Vec::new();
    attrs.push("cn".to_owned());
    attrs.push("uid".to_owned());
    assert(texts(attrs@) =~= seq!["cn"@, "uid"@]);
    let ghost more = texts(b.scope.search_attrs@);
    let mut i: usize = 0;
    assert(more.take(0) =~= Seq::empty());
    while i < b.scope.search_attrs.len()
        invariant
            i <= b.scope.search_attrs@.len(),
            more == texts(b.scope.search_attrs@),
            texts(attrs@) == with_names(seq!["cn"@, "uid"@], more.take(i as int)),
        decreases b.scope.search_attrs@.len() - i,
    {
        proof {
            assert(more.take(i + 1).drop_last() =~= more.take(i as int));
            assert(more.take(i + 1).last() == b.scope.search_attrs@[i as int]@);
        }
        add_name(&mut attrs, &b.scope.search_attrs[i]);
        i += 1;
    }
    assert(more.take(more.len() as int) =~= more);
    let store_attr: Option<String> = match &b.store {
        StoreKey::Dn => None,
        StoreKey::Attr(a) => {
            add_name(&mut attrs, a);
            Some(a.clone())
        },
    };
    let oc: String = if b.scope.object_classes.len() == 0 {
        String::new()
    } else {
        b.scope.object_classes[0].clone()
    };
    SearchScope { base: b.scope.base.clone(), oc, attrs, store_attr }
}

/// A row as a mathematical value: key, label, and whether it can be removed.
pub type Row = (Seq<char>, Seq<char>, bool);

/// The rows of a list, as mathematical values.
pub open spec fn rows_model(v: Seq<DualRow>) -> Seq<Row> {
    v.map_values(|r: DualRow| (r.key@, r.label@, r.removable))
}

/// The rows of the members that a field holds: each stands for itself, shows itself, and can be
/// removed.
pub fn seed_rows(current: &Vec<String>) -> (r: Vec<DualRow>)
    ensures
        rows_model(r@) == texts(current@).map_values(|v: Seq<char>| (v, v, true)),
{
    let mut out: Vec<DualRow> = Vec::new();
    let ghost goal = texts(current@).map_values(|v: Seq<char>| (v, v, true));
    let mut i: usize = 0;
    while i < current.len()
        invariant
            i <= current@.len(),
            goal == texts(current@).map_values(|v: Seq<char>| (v, v, true)),
            rows_model(out@) == goal.take(i as int),
        decreases current@.len() - i,
    {
        let ghost o0 = out@;
        out.push(DualRow { key: current[i].clone(), label: current[i].clone(), removable: true });
        i += 1;
        proof {
            assert(rows_model(out@) =~= rows_model(o0).push(goal[i - 1]));
            assert(rows_model(out@) =~= goal.take(i as int));
        }
    }
    assert(goal.take(goal.len() as int) =~= goal);
    out
}

/// The rows of candidates: each stands for what is stored of it, and can be removed.
pub fn candidate_rows(results: &Vec<Candidate>) -> (r: Vec<DualRow>)
    ensures
        rows_model(r@) == results@.map_values(|c: Candidate| (c.store_value@, c.label@, true)),
{
    let mut out: Vec<DualRow> = Vec::new();
    let ghost goal = results@.map_values(|c: Candidate| (c.store_value@, c.label@, true));
    let mut i: usize = 0;
    while i < results.len()
        invariant
            i <= results@.len(),
            goal == results@.map_values(|c: Candidate| (c.store_value@, c.label@, true)),
            rows_model(out@) == goal.take(i as int),
        decreases results@.len() - i,
    {
        let ghost o0 = out@;
        out.push(
            DualRow {
                key: results[i].store_value.clone(),
                label: results[i].label.clone(),
                removable: true,
            },
        );
        i += 1;
        proof {
            assert(rows_model(out@) =~= rows_model(o0).push(goal[i - 1]));
            assert(rows_model(out@) =~= goal.take(i as int));
        }
    }
    assert(goal.take(goal.len() as int) =~= goal);
    out
}

/// What the mover's event leads to.
#[derive(Debug)]
pub enum MembershipStep {
    Done,
    /// Search candidates for the term.
    Search(String),
    /// Stage the selected rows as the field's values.
    Stage,
}

/// What the mover's event leads to: another search text starts a search, a move stages the rows.
pub fn membership_step(ev: DualEvent) -> (r: MembershipStep)
    ensures
        r == match ev {
            DualEvent::SearchChanged(t) => MembershipStep::Search(t),
            DualEvent::MovedIn(_) => MembershipStep::Stage,
            DualEvent::MovedOut(_) => MembershipStep::Stage,
            DualEvent::Nothing => MembershipStep::Done,
        },
{
    match ev {
        DualEvent::SearchChanged(t) => MembershipStep::Search(t),
        DualEvent::MovedIn(_) => MembershipStep::Stage,
        DualEvent::MovedOut(_) => MembershipStep::Stage,
        DualEvent::Nothing => MembershipStep::Done,
    }
}

/// A field without members says so, one with a single member shows it, and one with more tells how
/// many.
pub proof fn members_are_counted(values: Seq<Seq<char>>)
    ensures
        values.len() == 0 ==> summary(values) == "‹none›"@,
        values.len() == 1 ==> summary(values) == values[0],
        values.len() > 1 ==> summary(values) == "‹"@ + decimal_of(values.len()) + " members›"@,
{
}

/// Adding names keeps those that were there, first and in order; each name added is then found in some
/// letter case, and nothing else is.
pub proof fn every_name_is_added(names: Seq<Seq<char>>, more: Seq<Seq<char>>)
    ensures
        names.is_prefix_of(with_names(names, more)),
        forall|i: int| 0 <= i < more.len() ==> has_ci(with_names(names, more), #[trigger] more[i]),
        forall|i: int|
            0 <= i < with_names(names, more).len() ==> names.contains(
                #[trigger] with_names(names, more)[i],
            ) || more.contains(with_names(names, more)[i]),
    decreases more.len(),
{
    if more.len() > 0 {
        let head = more.drop_last();
        let before = with_names(names, head);
        let all = with_names(names, more);
        every_name_is_added(names, head);
        crate::text::added_names_are_found(before, more.last());
        assert(names =~= all.take(names.len() as int));
        assert forall|i: int| 0 <= i < more.len() implies has_ci(all, #[trigger] more[i]) by {
            if i < head.len() {
                assert(head[i] == more[i]);
                crate::text::names_are_found_in_any_case(before, before, more[i]);
                crate::text::names_are_found_in_any_case(all, all, more[i]);
                let k = choose|k: int| 0 <= k < before.len() && same_ci(#[trigger] before[k], more[i]);
                assert(all[k] == before[k]);
            }
        }
        assert forall|i: int| 0 <= i < all.len() implies names.contains(#[trigger] all[i])
            || more.contains(all[i]) by {
            if i < before.len() {
                assert(all[i] == before[i]);
                if head.contains(before[i]) {
                    let k = choose|k: int| 0 <= k < head.len() && head[k] == before[i];
                    assert(more[k] == before[i]);
                }
            } else {
                assert(all[i] == more[more.len() - 1]);
            }
        }
    } else {
        assert(with_names(names, more) == names);
    }
}

/// A search for candidates reads the common name and the user id first, everything that is searched,
/// and what is stored.
pub proof fn searches_read_what_they_need(b: PickerBinding)
    ensures
        scope_attrs(b).len() >= 2,
        scope_attrs(b)[0] == "cn"@,
        scope_attrs(b)[1] == "uid"@,
        forall|i: int|
            0 <= i < b.scope.search_attrs@.len() ==> has_ci(
                scope_attrs(b),
                (#[trigger] b.scope.search_attrs@[i])@,
            ),
        b.store matches StoreKey::Attr(a) ==> has_ci(scope_attrs(b), a@),
        forall|k: int|
            2 <= k < scope_attrs(b).len() ==> texts(b.scope.search_attrs@).contains(
                #[trigger] scope_attrs(b)[k],
            ) || scope_attrs(b)[k] == "cn"@ || scope_attrs(b)[k] == "uid"@ || (
            b.store matches StoreKey::Attr(a) && scope_attrs(b)[k] == a@),
{
    let first = seq!["cn"@, "uid"@];
    let more = texts(b.scope.search_attrs@);
    let searched = with_names(first, more);
    let all = scope_attrs(b);
    every_name_is_added(first, more);
    assert(searched[0] == first[0] && searched[1] == first[1]);
    if let StoreKey::Attr(a) = b.store {
        crate::text::added_names_are_found(searched, a@);
    }
    assert(all[0] == searched[0] && all[1] == searched[1]);
    assert forall|i: int| 0 <= i < b.scope.search_attrs@.len() implies has_ci(
        all,
        (#[trigger] b.scope.search_attrs@[i])@,
    ) by {
        let name = b.scope.search_attrs@[i]@;
        assert(more[i] == name);
        crate::text::names_are_found_in_any_case(searched, searched, name);
        crate::text::names_are_found_in_any_case(all, all, name);
        let k = choose|k: int| 0 <= k < searched.len() && same_ci(#[trigger] searched[k], name);
        assert(all[k] == searched[k]);
    }
    assert forall|k: int| 2 <= k < all.len() implies more.contains(#[trigger] all[k]) || all[k] == "cn"@
        || all[k] == "uid"@ || (b.store matches StoreKey::Attr(a) && all[k] == a@) by {
        if k < searched.len() {
            assert(all[k] == searched[k]);
        }
    }
}

} // verus!
