//! Attribute sets: attribute names with their values, kept in the order of the names.
use vstd::prelude::*;

use crate::order::{text_less, text_lt, text_lt_asymmetric, text_lt_total, text_lt_transitive};
use crate::text::{copy_texts, eq_ignore_case, same_ci, same_text, texts};

verus! {

/// One attribute: its name and its values.
pub type Attr = (Seq<char>, Seq<Seq<char>>);

/// Whether the names are strictly increasing: sorted, and each once.
pub open spec fn ascending(l: Seq<Attr>) -> bool {
    forall|i: int, j: int| 0 <= i < j < l.len() ==> text_lt((#[trigger] l[i]).0, (#[trigger] l[j]).0)
}

/// The values that a list holds under a name.
pub open spec fn values_of(l: Seq<Attr>, name: Seq<char>) -> Option<Seq<Seq<char>>>
    decreases l.len(),
{
    if l.len() == 0 {
        None
    } else if l.last().0 == name {
        Some(l.last().1)
    } else {
        values_of(l.drop_last(), name)
    }
}

/// The values under a name; an absent name holds none.
pub open spec fn values_or_none(l: Seq<Attr>, name: Seq<char>) -> Seq<Seq<char>> {
    match values_of(l, name) {
        Some(v) => v,
        None => Seq::empty(),
    }
}

/// The list with `values` under `name`, in place of what stood there.
pub open spec fn put(l: Seq<Attr>, name: Seq<char>, values: Seq<Seq<char>>) -> Seq<Attr>
    decreases l.len(),
{
    if l.len() == 0 {
        seq![(name, values)]
    } else if l.last().0 == name {
        l.drop_last().push((name, values))
    } else if text_lt(l.last().0, name) {
        l.push((name, values))
    } else {
        put(l.drop_last(), name, values).push(l.last())
    }
}

/// The list without the name.
pub open spec fn without(l: Seq<Attr>, name: Seq<char>) -> Seq<Attr>
    decreases l.len(),
{
    if l.len() == 0 {
        l
    } else if l.last().0 == name {
        without(l.drop_last(), name)
    } else {
        without(l.drop_last(), name).push(l.last())
    }
}

/// The list without the names of `gone`.
pub open spec fn without_all(l: Seq<Attr>, gone: Seq<Seq<char>>) -> Seq<Attr>
    decreases gone.len(),
{
    if gone.len() == 0 {
        l
    } else {
        without(without_all(l, gone.drop_last()), gone.last())
    }
}

/// The list without every name that equals `name` up to ASCII case.
pub open spec fn without_ci(l: Seq<Attr>, name: Seq<char>) -> Seq<Attr>
    decreases l.len(),
{
    if l.len() == 0 {
        l
    } else if same_ci(l.last().0, name) {
        without_ci(l.drop_last(), name)
    } else {
        without_ci(l.drop_last(), name).push(l.last())
    }
}

/// The place of the first name that equals `name` up to ASCII case.
pub open spec fn first_ci(l: Seq<Attr>, name: Seq<char>) -> Option<int>
    decreases l.len(),
{
    if l.len() == 0 {
        None
    } else {
        match first_ci(l.drop_last(), name) {
            Some(i) => Some(i),
            None => if same_ci(l.last().0, name) {
                Some(l.len() - 1)
            } else {
                None
            },
        }
    }
}

/// The values under the first name that equals `name` up to ASCII case.
pub open spec fn values_ci(l: Seq<Attr>, name: Seq<char>) -> Option<Seq<Seq<char>>> {
    match first_ci(l, name) {
        Some(i) => Some(l[i].1),
        None => None,
    }
}

/// A found place is within the list, holds the name, and no earlier one does.
pub proof fn first_ci_found(l: Seq<Attr>, name: Seq<char>)
    ensures
        match first_ci(l, name) {
            Some(i) => 0 <= i < l.len() && same_ci(l[i].0, name) && forall|j: int|
                0 <= j < i ==> !same_ci((#[trigger] l[j]).0, name),
            None => forall|j: int| 0 <= j < l.len() ==> !same_ci((#[trigger] l[j]).0, name),
        },
    decreases l.len(),
{
    if l.len() > 0 {
        first_ci_found(l.drop_last(), name);
        assert forall|j: int| 0 <= j < l.len() - 1 implies l.drop_last()[j] == #[trigger] l[j] by {}
    }
}

/// Putting a name keeps the list ascending.
pub proof fn put_ascending(l: Seq<Attr>, name: Seq<char>, values: Seq<Seq<char>>)
    requires
        ascending(l),
    ensures
        ascending(put(l, name, values)),
        forall|i: int|
            0 <= i < put(l, name, values).len() ==> (#[trigger] put(l, name, values)[i]).0 == name
                || exists|j: int| 0 <= j < l.len() && l[j].0 == put(l, name, values)[i].0,
    decreases l.len(),
{
    if l.len() > 0 {
        let r = put(l, name, values);
        let head = l.drop_last();
        assert(forall|j: int| 0 <= j < head.len() ==> head[j] == l[j]);
        assert(ascending(head));
        assert(l.last() == l[l.len() - 1]);
        if l.last().0 == name {
            assert forall|i: int| 0 <= i < r.len() implies (#[trigger] r[i]).0 == name || exists|j: int|
                0 <= j < l.len() && l[j].0 == r[i].0 by {
                assert(l[i].0 == r[i].0);
            }
            assert forall|i: int, j: int| 0 <= i < j < r.len() implies text_lt(
                (#[trigger] r[i]).0,
                (#[trigger] r[j]).0,
            ) by {
                assert(text_lt(l[i].0, l[j].0));
            }
        } else if text_lt(l.last().0, name) {
            assert forall|i: int| 0 <= i < r.len() implies (#[trigger] r[i]).0 == name || exists|j: int|
                0 <= j < l.len() && l[j].0 == r[i].0 by {
                if i < l.len() {
                    assert(l[i].0 == r[i].0);
                }
            }
            assert forall|i: int, j: int| 0 <= i < j < r.len() implies text_lt(
                (#[trigger] r[i]).0,
                (#[trigger] r[j]).0,
            ) by {
                if j < l.len() {
                    assert(text_lt(l[i].0, l[j].0));
                } else if i < l.len() - 1 {
                    assert(text_lt(l[i].0, l[l.len() - 1].0));
                    text_lt_transitive(l[i].0, l.last().0, name);
                }
            }
        } else {
            let h = put(head, name, values);
            put_ascending(head, name, values);
            text_lt_total(name, l.last().0);
            assert forall|i: int| 0 <= i < r.len() implies (#[trigger] r[i]).0 == name || exists|j: int|
                0 <= j < l.len() && l[j].0 == r[i].0 by {
                if i < h.len() {
                    assert(r[i] == h[i]);
                    if h[i].0 != name {
                        let j = choose|j: int| 0 <= j < head.len() && head[j].0 == h[i].0;
                        assert(l[j].0 == r[i].0);
                    }
                } else {
                    assert(l[l.len() - 1].0 == r[i].0);
                }
            }
            assert forall|i: int, j: int| 0 <= i < j < r.len() implies text_lt(
                (#[trigger] r[i]).0,
                (#[trigger] r[j]).0,
            ) by {
                assert(r[i] == h[i]);
                if j < h.len() {
                    assert(r[j] == h[j]);
                } else if h[i].0 != name {
                    let k = choose|k: int| 0 <= k < head.len() && head[k].0 == h[i].0;
                    assert(text_lt(l[k].0, l[l.len() - 1].0));
                }
            }
        }
    }
}

/// Reading a name gives back what was put under it, and putting it leaves every other name alone.
pub proof fn get_after_put(
    l: Seq<Attr>,
    name: Seq<char>,
    values: Seq<Seq<char>>,
    other: Seq<char>,
)
    requires
        ascending(l),
    ensures
        values_of(put(l, name, values), name) == Some(values),
        other != name ==> values_of(put(l, name, values), other) == values_of(l, other),
    decreases l.len(),
{
    let r = put(l, name, values);
    if l.len() == 0 {
        assert(r.drop_last() =~= l);
    } else {
        let head = l.drop_last();
        assert(forall|j: int| 0 <= j < head.len() ==> head[j] == l[j]);
        assert(ascending(head));
        get_after_put(head, name, values, other);
        if l.last().0 == name {
            assert(r.drop_last() =~= head);
        } else if text_lt(l.last().0, name) {
            assert(r.drop_last() =~= l);
        } else {
            assert(r.drop_last() =~= put(head, name, values));
        }
    }
}

/// Putting a name that is there replaces its values in place.
pub proof fn put_in_place(l: Seq<Attr>, i: int, values: Seq<Seq<char>>)
    requires
        ascending(l),
        0 <= i < l.len(),
    ensures
        put(l, l[i].0, values) == l.update(i, (l[i].0, values)),
    decreases l.len(),
{
    let head = l.drop_last();
    assert(forall|j: int| 0 <= j < head.len() ==> head[j] == l[j]);
    assert(l.last() == l[l.len() - 1]);
    if i < l.len() - 1 {
        text_lt_asymmetric(l[i].0, l[l.len() - 1].0);
        put_in_place(head, i, values);
    }
    assert(put(l, l[i].0, values) =~= l.update(i, (l[i].0, values)));
}

/// Dropped names read as absent.
pub proof fn get_after_without_all(l: Seq<Attr>, gone: Seq<Seq<char>>, name: Seq<char>)
    requires
        gone.contains(name) || values_of(l, name) is None,
    ensures
        values_of(without_all(l, gone), name) is None,
    decreases gone.len(),
{
    if gone.len() > 0 {
        let head = gone.drop_last();
        get_after_without(without_all(l, head), gone.last(), name);
        if gone.last() != name {
            if gone.contains(name) {
                let i = choose|i: int| 0 <= i < gone.len() && gone[i] == name;
                assert(head[i] == name);
            }
            get_after_without_all(l, head, name);
        }
    }
}

/// A removed name reads as absent, and every other name as before.
pub proof fn get_after_without(l: Seq<Attr>, name: Seq<char>, other: Seq<char>)
    ensures
        values_of(without(l, name), name) is None,
        other != name ==> values_of(without(l, name), other) == values_of(l, other),
    decreases l.len(),
{
    if l.len() > 0 {
        get_after_without(l.drop_last(), name, other);
        if l.last().0 != name {
            assert(without(l, name).drop_last() =~= without(l.drop_last(), name));
        }
    }
}

proof fn without_members(l: Seq<Attr>, name: Seq<char>)
    requires
        ascending(l),
    ensures
        ascending(without(l, name)),
        forall|i: int|
            0 <= i < without(l, name).len() ==> exists|j: int|
                0 <= j < l.len() && l[j] == #[trigger] without(l, name)[i],
    decreases l.len(),
{
    if l.len() > 0 {
        let head = l.drop_last();
        let h = without(head, name);
        let r = without(l, name);
        assert(forall|j: int| 0 <= j < head.len() ==> head[j] == l[j]);
        without_members(head, name);
        assert(l.last() == l[l.len() - 1]);
        assert forall|i: int| 0 <= i < r.len() implies exists|j: int|
            0 <= j < l.len() && l[j] == #[trigger] r[i] by {
            if i < h.len() {
                let j = choose|j: int| 0 <= j < head.len() && head[j] == h[i];
                assert(l[j] == r[i]);
            } else {
                assert(l[l.len() - 1] == r[i]);
            }
        }
        assert forall|i: int, j: int| 0 <= i < j < r.len() implies text_lt(
            (#[trigger] r[i]).0,
            (#[trigger] r[j]).0,
        ) by {
            assert(r[i] == h[i]);
            if j < h.len() {
                assert(r[j] == h[j]);
            } else {
                let k = choose|k: int| 0 <= k < head.len() && head[k] == h[i];
                assert(text_lt(l[k].0, l[l.len() - 1].0));
            }
        }
    }
}

proof fn without_ci_members(l: Seq<Attr>, name: Seq<char>)
    requires
        ascending(l),
    ensures
        ascending(without_ci(l, name)),
        forall|i: int|
            0 <= i < without_ci(l, name).len() ==> exists|j: int|
                0 <= j < l.len() && l[j] == #[trigger] without_ci(l, name)[i],
    decreases l.len(),
{
    if l.len() > 0 {
        let head = l.drop_last();
        let h = without_ci(head, name);
        let r = without_ci(l, name);
        assert(forall|j: int| 0 <= j < head.len() ==> head[j] == l[j]);
        without_ci_members(head, name);
        assert(l.last() == l[l.len() - 1]);
        assert forall|i: int| 0 <= i < r.len() implies exists|j: int|
            0 <= j < l.len() && l[j] == #[trigger] r[i] by {
            if i < h.len() {
                let j = choose|j: int| 0 <= j < head.len() && head[j] == h[i];
                assert(l[j] == r[i]);
            } else {
                assert(l[l.len() - 1] == r[i]);
            }
        }
        assert forall|i: int, j: int| 0 <= i < j < r.len() implies text_lt(
            (#[trigger] r[i]).0,
            (#[trigger] r[j]).0,
        ) by {
            assert(r[i] == h[i]);
            if j < h.len() {
                assert(r[j] == h[j]);
            } else {
                let k = choose|k: int| 0 <= k < head.len() && head[k] == h[i];
                assert(text_lt(l[k].0, l[l.len() - 1].0));
            }
        }
    }
}

/// One attribute with its values.
pub struct AttrEntry {
    pub name: String,
    pub values: Vec<String>,
}

impl AttrEntry {
    pub open spec fn model(self) -> Attr {
        (self.name@, texts(self.values@))
    }
}

/// The models of a list of attributes.
pub open spec fn entry_models(v: Seq<AttrEntry>) -> Seq<Attr> {
    v.map_values(|e: AttrEntry| e.model())
}

/// An attribute set: the names with their values, each name once, in the order of the names.
pub struct AttrMap {
    entries: Vec<AttrEntry>,
}

impl View for AttrMap {
    type V = Seq<Attr>;

    closed spec fn view(&self) -> Seq<Attr> {
        entry_models(self.entries@)
    }
}

impl AttrMap {
    #[verifier::type_invariant]
    spec fn well_formed(self) -> bool {
        ascending(entry_models(self.entries@))
    }

    /// The empty set.
    pub fn new() -> (r: AttrMap)
        ensures
            r@ == Seq::<Attr>::empty(),
    {
        let entries: Vec<AttrEntry> = Vec::new();
        assert(entry_models(entries@) =~= Seq::<Attr>::empty());
        AttrMap { entries }
    }

    /// The number of names.
    pub fn len(&self) -> (n: usize)
        ensures
            n == self@.len(),
    {
        self.entries.len()
    }

    /// Whether there is no name.
    pub fn is_empty(&self) -> (b: bool)
        ensures
            b == (self@.len() == 0),
    {
        self.entries.len() == 0
    }

    /// The attribute at a place in the order of the names.
    pub fn entry(&self, i: usize) -> (e: &AttrEntry)
        requires
            i < self@.len(),
        ensures
            e.model() == self@[i as int],
    {
        &self.entries[i]
    }

    /// The values under a name.
    pub fn get(&self, name: &str) -> (r: Option<&Vec<String>>)
        ensures
            match r {
                Some(v) => values_of(self@, name@) == Some(texts(v@)),
                None => values_of(self@, name@) is None,
            },
    {
        let mut i: usize = self.entries.len();
        assert(self@.take(self@.len() as int) =~= self@);
        while i > 0
            invariant
                i <= self.entries@.len(),
                values_of(self@, name@) == values_of(self@.take(i as int), name@),
            decreases i,
        {
            proof {
                assert(self@.take(i as int).drop_last() =~= self@.take(i - 1));
                assert(self@[i - 1] == self.entries@[i - 1].model());
            }
            if same_text(&self.entries[i - 1].name, name) {
                return Some(&self.entries[i - 1].values);
            }
            i -= 1;
        }
        None
    }

    /// Whether the set holds a name.
    pub fn contains_key(&self, name: &str) -> (b: bool)
        ensures
            b == values_of(self@, name@) is Some,
    {
        self.get(name).is_some()
    }

    /// A copy of the values under a name; an absent name holds none.
    pub fn get_or_none(&self, name: &str) -> (r: Vec<String>)
        ensures
            texts(r@) == values_or_none(self@, name@),
    {
        match self.get(name) {
            Some(v) => copy_texts(v),
            None => {
                let r: Vec<String> = Vec::new();
                assert(texts(r@) =~= Seq::empty());
                r
            },
        }
    }

    /// The place of the first name that equals `name` up to ASCII case.
    pub fn find_ci(&self, name: &str) -> (r: Option<usize>)
        ensures
            match r {
                Some(i) => first_ci(self@, name@) == Some(i as int) && i < self@.len(),
                None => first_ci(self@, name@) is None,
            },
    {
        let mut i: usize = 0;
        while i < self.entries.len()
            invariant
                i <= self.entries@.len(),
                first_ci(self@.take(i as int), name@) is None,
            decreases self.entries@.len() - i,
        {
            proof {
                assert(self@.take(i + 1).drop_last() =~= self@.take(i as int));
                assert(self@[i as int] == self.entries@[i as int].model());
            }
            if eq_ignore_case(&self.entries[i].name, name) {
                proof {
                    first_ci_prefix(self@, name@, i + 1);
                }
                return Some(i);
            }
            i += 1;
        }
        assert(self@.take(self@.len() as int) =~= self@);
        None
    }

    /// The values under the first name that equals `name` up to ASCII case.
    pub fn get_ci(&self, name: &str) -> (r: Option<&Vec<String>>)
        ensures
            match r {
                Some(v) => values_ci(self@, name@) == Some(texts(v@)),
                None => values_ci(self@, name@) is None,
            },
    {
        match self.find_ci(name) {
            Some(i) => Some(&self.entries[i].values),
            None => None,
        }
    }

    /// Puts `values` under `name`, in place of what stood there.
    pub fn insert(&mut self, name: String, values: Vec<String>)
        ensures
            final(self)@ == put(old(self)@, name@, texts(values@)),
    {
        proof {
            use_type_invariant(&*self);
            put_ascending(self@, name@, texts(values@));
        }
        let ghost whole = self@;
        let ghost goal = put(self@, name@, texts(values@));
        let ghost before = self.entries@;
        let mut i: usize = self.entries.len();
        let ghost added = (name@, texts(values@));
        let mut replaced: bool = false;
        assert(whole.take(whole.len() as int) =~= whole);
        assert(whole.skip(whole.len() as int) =~= Seq::empty());
        assert(goal + Seq::<Attr>::empty() =~= goal);
        while i > 0
            invariant_except_break
                !replaced,
                goal == put(whole.take(i as int), name@, texts(values@)) + whole.skip(i as int),
            invariant
                i <= whole.len(),
                whole == entry_models(self.entries@),
                self.entries@ == before,
                added == (name@, texts(values@)),
            ensures
                !replaced ==> goal == whole.take(i as int).push(added) + whole.skip(i as int),
                replaced ==> i > 0 && whole[i - 1].0 == name@ && goal == whole.update(i - 1, added),
            decreases i,
        {
            proof {
                assert(whole.take(i as int).drop_last() =~= whole.take(i - 1));
                assert(whole.take(i as int).last() == whole[i - 1]);
                assert(whole[i - 1] == self.entries@[i - 1].model());
            }
            if same_text(&self.entries[i - 1].name, &name) {
                replaced = true;
                assert(goal =~= whole.update(i - 1, added));
                break ;
            }
            if text_less(&self.entries[i - 1].name, &name) {
                break ;
            }
            proof {
                let p = put(whole.take(i - 1), name@, texts(values@));
                assert(p.push(whole[i - 1]) + whole.skip(i as int) =~= p + whole.skip(i - 1));
            }
            i -= 1;
            proof {
                if i == 0 {
                    assert(whole.take(0) =~= Seq::<Attr>::empty());
                    assert(whole.take(0).push(added) =~= put(
                        whole.take(0),
                        name@,
                        texts(values@),
                    ));
                }
            }
        }
        let entry: AttrEntry = AttrEntry { name, values };
        if replaced {
            assert(entry_models(before.update(i - 1, entry)) =~= goal);
            let mut entries: Vec<AttrEntry> = Vec::new();
            core::mem::swap(&mut entries, &mut self.entries);
            entries.set(i - 1, entry);
            self.entries = entries;
        } else {
            assert(entry_models(before.insert(i as int, entry)) =~= goal);
            let mut entries: Vec<AttrEntry> = Vec::new();
            core::mem::swap(&mut entries, &mut self.entries);
            entries.insert(i, entry);
            self.entries = entries;
        }
    }

    /// A copy of the set.
    pub fn copy(&self) -> (r: AttrMap)
        ensures
            r@ == self@,
    {
        proof {
            use_type_invariant(self);
        }
        let mut entries: Vec<AttrEntry> = Vec::new();
        let mut i: usize = 0;
        while i < self.entries.len()
            invariant
                i <= self.entries@.len(),
                entry_models(entries@) == self@.take(i as int),
            decreases self.entries@.len() - i,
        {
            let e: AttrEntry = AttrEntry {
                name: self.entries[i].name.clone(),
                values: copy_texts(&self.entries[i].values),
            };
            let ghost e0 = entries@;
            assert(e.model() == self@[i as int]);
            entries.push(e);
            i += 1;
            assert(entry_models(entries@) =~= entry_models(e0).push(self@[i - 1]));
            assert(entry_models(entries@) =~= self@.take(i as int));
        }
        assert(self@.take(self@.len() as int) =~= self@);
        AttrMap { entries }
    }

    /// Drops a name.
    pub fn remove(&mut self, name: &str)
        ensures
            final(self)@ == without(old(self)@, name@),
    {
        proof {
            use_type_invariant(&*self);
            without_members(self@, name@);
        }
        let mut kept: Vec<AttrEntry> = Vec::new();
        let mut i: usize = 0;
        let ghost whole = self@;
        assert(entry_models(kept@) =~= without(whole.take(0), name@));
        while i < self.entries.len()
            invariant
                i <= self.entries@.len(),
                whole == entry_models(self.entries@),
                entry_models(kept@) == without(whole.take(i as int), name@),
            decreases self.entries@.len() - i,
        {
            proof {
                assert(whole.take(i + 1).drop_last() =~= whole.take(i as int));
                assert(whole[i as int] == self.entries@[i as int].model());
            }
            if !same_text(&self.entries[i].name, name) {
                let ghost k0 = kept@;
                let e: AttrEntry = AttrEntry {
                    name: self.entries[i].name.clone(),
                    values: copy_texts(&self.entries[i].values),
                };
                kept.push(e);
                assert(entry_models(kept@) =~= entry_models(k0).push(whole[i as int]));
            }
            i += 1;
        }
        assert(whole.take(whole.len() as int) =~= whole);
        self.entries = kept;
    }

    /// Drops every name of a list.
    pub fn remove_all(&mut self, gone: &Vec<String>)
        ensures
            final(self)@ == without_all(old(self)@, texts(gone@)),
    {
        let ghost start = self@;
        let mut i: usize = 0;
        while i < gone.len()
            invariant
                i <= gone@.len(),
                self@ == without_all(start, texts(gone@).take(i as int)),
            decreases gone@.len() - i,
        {
            self.remove(&gone[i]);
            i += 1;
            proof {
                let t = texts(gone@).take(i as int);
                assert(t.drop_last() =~= texts(gone@).take(i - 1));
                assert(t.last() == gone@[i - 1]@);
            }
        }
        assert(texts(gone@).take(gone@.len() as int) =~= texts(gone@));
    }

    /// Drops every name that equals `name` up to ASCII case.
    pub fn remove_ci(&mut self, name: &str)
        ensures
            final(self)@ == without_ci(old(self)@, name@),
    {
        proof {
            use_type_invariant(&*self);
            without_ci_members(self@, name@);
        }
        let mut kept: Vec<AttrEntry> = Vec::new();
        let mut i: usize = 0;
        let ghost whole = self@;
        assert(entry_models(kept@) =~= without_ci(whole.take(0), name@));
        while i < self.entries.len()
            invariant
                i <= self.entries@.len(),
                whole == entry_models(self.entries@),
                entry_models(kept@) == without_ci(whole.take(i as int), name@),
            decreases self.entries@.len() - i,
        {
            proof {
                assert(whole.take(i + 1).drop_last() =~= whole.take(i as int));
                assert(whole[i as int] == self.entries@[i as int].model());
            }
            if !eq_ignore_case(&self.entries[i].name, name) {
                let ghost k0 = kept@;
                let e: AttrEntry = AttrEntry {
                    name: self.entries[i].name.clone(),
                    values: copy_texts(&self.entries[i].values),
                };
                kept.push(e);
                assert(entry_models(kept@) =~= entry_models(k0).push(whole[i as int]));
            }
            i += 1;
        }
        assert(whole.take(whole.len() as int) =~= whole);
        self.entries = kept;
    }
}

proof fn first_ci_prefix(l: Seq<Attr>, name: Seq<char>, n: int)
    requires
        0 <= n <= l.len(),
        first_ci(l.take(n), name) is Some,
    ensures
        first_ci(l, name) == first_ci(l.take(n), name),
    decreases l.len() - n,
{
    if n < l.len() {
        assert(l.take(n + 1).drop_last() =~= l.take(n));
        first_ci_prefix(l, name, n + 1);
    } else {
        assert(l.take(n) =~= l);
    }
}

/// What is left without a name does not have it, in any letter case, and was there before.
pub proof fn without_ci_absent(l: Seq<Attr>, name: Seq<char>, i: int)
    requires
        0 <= i < without_ci(l, name).len(),
    ensures
        !same_ci(without_ci(l, name)[i].0, name),
        l.contains(without_ci(l, name)[i]),
    decreases l.len(),
{
    if l.len() > 0 {
        let head = l.drop_last();
        let h = without_ci(head, name);
        if i < h.len() {
            without_ci_absent(head, name, i);
            let j = choose|j: int| 0 <= j < head.len() && head[j] == h[i];
            assert(l[j] == h[i]);
        } else {
            assert(l[l.len() - 1] == l.last());
        }
    }
}

/// A list holds values under a name exactly when the name stands in it with these values.
pub proof fn values_are_found_by_name(l: Seq<Attr>, name: Seq<char>, values: Seq<Seq<char>>)
    requires
        ascending(l),
    ensures
        values_of(l, name) == Some(values) <==> l.contains((name, values)),
        values_of(l, name) is None <==> forall|i: int| 0 <= i < l.len() ==> (#[trigger] l[i]).0 != name,
        values_or_none(l, name) == match values_of(l, name) {
            Some(v) => v,
            None => Seq::empty(),
        },
    decreases l.len(),
{
    if l.len() > 0 {
        let head = l.drop_last();
        let n = l.len() - 1;
        assert(forall|j: int| 0 <= j < head.len() ==> head[j] == l[j]);
        assert(l.last() == l[n]);
        values_are_found_by_name(head, name, values);
        if l.last().0 == name {
            assert forall|i: int| 0 <= i < n implies (#[trigger] l[i]).0 != name by {
                assert(text_lt(l[i].0, l[n].0));
                crate::order::text_lt_irreflexive(name);
            }
            if l.contains((name, values)) {
                let i = choose|i: int| 0 <= i < l.len() && l[i] == (name, values);
                assert(i == n);
            }
            assert(l[n].0 == name);
        } else {
            if l.contains((name, values)) {
                let i = choose|i: int| 0 <= i < l.len() && l[i] == (name, values);
                assert(head[i] == (name, values));
            }
            if head.contains((name, values)) {
                let i = choose|i: int| 0 <= i < head.len() && head[i] == (name, values);
                assert(l[i] == (name, values));
            }
            if forall|i: int| 0 <= i < head.len() ==> (#[trigger] head[i]).0 != name {
                assert forall|i: int| 0 <= i < l.len() implies (#[trigger] l[i]).0 != name by {
                    if i < n {
                        assert(head[i].0 != name);
                    }
                }
            }
            if forall|i: int| 0 <= i < l.len() ==> (#[trigger] l[i]).0 != name {
                assert forall|i: int| 0 <= i < head.len() implies (#[trigger] head[i]).0 != name by {
                    assert(l[i].0 != name);
                }
            }
        }
    }
}

/// Dropping names leaves every other name with its values.
pub proof fn other_names_are_kept(l: Seq<Attr>, gone: Seq<Seq<char>>, name: Seq<char>)
    requires
        !gone.contains(name),
    ensures
        values_of(without_all(l, gone), name) == values_of(l, name),
    decreases gone.len(),
{
    if gone.len() > 0 {
        let head = gone.drop_last();
        assert(gone.last() == gone[gone.len() - 1]);
        assert(gone.contains(gone.last()));
        assert(!head.contains(name)) by {
            if head.contains(name) {
                let i = choose|i: int| 0 <= i < head.len() && head[i] == name;
                assert(gone[i] == name);
            }
        }
        get_after_without(without_all(l, head), gone.last(), name);
        other_names_are_kept(l, head, name);
    }
}

/// Dropping a name in any letter case leaves every other name with its values, and of the dropped
/// one nothing.
pub proof fn other_cases_are_dropped(l: Seq<Attr>, gone: Seq<char>, name: Seq<char>)
    ensures
        values_of(without_ci(l, gone), name) == if same_ci(name, gone) {
            None
        } else {
            values_of(l, name)
        },
    decreases l.len(),
{
    if l.len() > 0 {
        other_cases_are_dropped(l.drop_last(), gone, name);
        if !same_ci(l.last().0, gone) {
            assert(without_ci(l, gone).drop_last() =~= without_ci(l.drop_last(), gone));
        }
    }
}

/// The values found regardless of case are those of the first name that differs in case alone.
pub proof fn values_are_found_in_any_case(l: Seq<Attr>, name: Seq<char>)
    ensures
        match values_ci(l, name) {
            Some(v) => exists|i: int|
                0 <= i < l.len() && (#[trigger] l[i]).1 == v && same_ci(l[i].0, name) && forall|j: int|
                    0 <= j < i ==> !same_ci((#[trigger] l[j]).0, name),
            None => forall|j: int| 0 <= j < l.len() ==> !same_ci((#[trigger] l[j]).0, name),
        },
{
    first_ci_found(l, name);
    if values_ci(l, name) is Some {
        let i = first_ci(l, name)->0;
        assert(l[i].1 == values_ci(l, name)->0);
    }
}

/// Without a name in any letter case, what is left is what was there, in order.
pub proof fn dropping_keeps_the_order(l: Seq<Attr>, gone: Seq<char>)
    ensures
        without_ci(l, gone) == l.filter(|a: Attr| !same_ci(a.0, gone)),
        without(l, gone) == l.filter(|a: Attr| a.0 != gone),
    decreases l.len(),
{
    reveal(Seq::filter);
    if l.len() > 0 {
        dropping_keeps_the_order(l.drop_last(), gone);
    }
}

} // verus!
