//! Distinguished names: the parent of a name, and the name after a rename.
use vstd::prelude::*;

use crate::text::{chars_of, concat3, text_of};

verus! {

/// The place of the first comma of a text, or its length.
pub open spec fn first_comma(s: Seq<char>) -> int
    decreases s.len(),
{
    if s.len() == 0 || s[0] == ',' {
        0
    } else {
        1 + first_comma(s.skip(1))
    }
}

/// The parent of a name: everything behind the first comma; a name without a comma has none.
pub open spec fn parent_of(dn: Seq<char>) -> Option<Seq<char>> {
    if first_comma(dn) < dn.len() {
        Some(dn.skip(first_comma(dn) + 1))
    } else {
        None
    }
}

/// The name that an entry has once its first component is `new_rdn`.
pub open spec fn renamed(old_dn: Seq<char>, new_rdn: Seq<char>) -> Seq<char> {
    match parent_of(old_dn) {
        Some(container) => new_rdn + ","@ + container,
        None => new_rdn,
    }
}

proof fn first_comma_is_first(s: Seq<char>)
    ensures
        0 <= first_comma(s) <= s.len(),
        first_comma(s) < s.len() ==> s[first_comma(s)] == ',',
        forall|i: int| 0 <= i < first_comma(s) ==> s[i] != ',',
    decreases s.len(),
{
    if s.len() > 0 && s[0] != ',' {
        first_comma_is_first(s.skip(1));
        assert forall|i: int| 0 <= i < first_comma(s) implies s[i] != ',' by {
            if i > 0 {
                assert(s.skip(1)[i - 1] == s[i]);
            }
        }
    }
}

proof fn first_comma_at(s: Seq<char>, n: int)
    requires
        0 <= n <= s.len(),
        n < s.len() ==> s[n] == ',',
        forall|i: int| 0 <= i < n ==> s[i] != ',',
    ensures
        first_comma(s) == n,
{
    first_comma_is_first(s);
}

/// The parent of a name (everything behind the first comma), or nothing at the top.
pub fn parent_dn(dn: &str) -> (r: Option<String>)
    ensures
        match r {
            Some(p) => parent_of(dn@) == Some(p@),
            None => parent_of(dn@) is None,
        },
{
    let v: Vec<char> = chars_of(dn);
    let mut i: usize = 0;
    while i < v.len()
        invariant
            v@ == dn@,
            i <= v@.len(),
            forall|j: int| 0 <= j < i ==> v@[j] != ',',
        decreases v@.len() - i,
    {
        if v[i] == ',' {
            proof {
                first_comma_at(dn@, i as int);
                assert(dn@.skip(i + 1) =~= v@.subrange(i + 1, v@.len() as int));
            }
            return Some(text_of(&v, i + 1, v.len()));
        }
        i += 1;
    }
    proof {
        first_comma_at(dn@, dn@.len() as int);
    }
    None
}

/// The name after a rename: the new first component in front of the old parent.
pub fn compose_renamed_dn(old_dn: &str, new_rdn: &str) -> (r: String)
    ensures
        r@ == renamed(old_dn@, new_rdn@),
{
    match parent_dn(old_dn) {
        Some(container) => concat3(new_rdn, ",", &container),
        None => new_rdn.to_owned(),
    }
}

/// A rename leaves the parent alone, as long as the new first component is one component.
pub proof fn rename_keeps_parent(old_dn: Seq<char>, new_rdn: Seq<char>)
    requires
        !new_rdn.contains(','),
    ensures
        parent_of(renamed(old_dn, new_rdn)) == parent_of(old_dn),
{
    reveal_strlit(",");
    let n = new_rdn.len() as int;
    let r = renamed(old_dn, new_rdn);
    assert forall|i: int| 0 <= i < n implies r[i] != ',' by {
        assert(new_rdn[i] != ',');
    }
    first_comma_at(r, n);
    match parent_of(old_dn) {
        Some(container) => {
            assert(r[n] == ',');
            assert(r.skip(n + 1) =~= container);
        },
        None => {},
    }
}

/// Renaming to the same component twice is renaming once.
pub proof fn rename_twice(old_dn: Seq<char>, first: Seq<char>, second: Seq<char>)
    requires
        !first.contains(','),
    ensures
        renamed(renamed(old_dn, first), second) == renamed(old_dn, second),
{
    rename_keeps_parent(old_dn, first);
}

proof fn comma_behind(rdn: Seq<char>, rest: Seq<char>)
    requires
        !rdn.contains(','),
    ensures
        first_comma(rdn) == rdn.len(),
        first_comma(rdn + seq![','] + rest) == rdn.len(),
    decreases rdn.len(),
{
    let s = rdn + seq![','] + rest;
    if rdn.len() > 0 {
        let tail = rdn.skip(1);
        assert(rdn[0] != ',') by {
            assert(rdn.contains(rdn[0]));
        }
        assert(!tail.contains(',')) by {
            if tail.contains(',') {
                let i = choose|i: int| 0 <= i < tail.len() && tail[i] == ',';
                assert(rdn[i + 1] == ',');
            }
        }
        comma_behind(tail, rest);
        assert(s[0] == rdn[0]);
        assert(s.skip(1) =~= tail + seq![','] + rest);
    } else {
        assert(s[0] == ',');
    }
}

/// The parent of an entry is what stands behind its own component; an entry that is one component has
/// none. Renaming it puts another component in the same place.
pub proof fn entries_stand_under_their_parent(rdn: Seq<char>, parent: Seq<char>, new_rdn: Seq<char>)
    requires
        !rdn.contains(','),
    ensures
        parent_of(rdn + ","@ + parent) == Some(parent),
        parent_of(rdn) is None,
        renamed(rdn + ","@ + parent, new_rdn) == new_rdn + ","@ + parent,
        renamed(rdn, new_rdn) == new_rdn,
{
    reveal_strlit(",");
    assert(","@ =~= seq![',']);
    comma_behind(rdn, parent);
    let s = rdn + ","@ + parent;
    assert(s.skip(rdn.len() as int + 1) =~= parent);
}

} // verus!
