//! Entry profiles: the kinds of entries that can be created, and which one an entry is.
use vstd::prelude::*;

use crate::passwords::PasswordSpec;
use crate::text::{contains_ignore_case, has_ci, texts};

verus! {

/// A kind of entry: its name, its object classes, the attribute that names an entry, the home of
/// such entries, and how passwords are kept.
#[derive(Debug)]
pub struct EntryProfile {
    pub name: String,
    pub object_classes: Vec<String>,
    pub rdn_attr: String,
    pub search_base: String,
    pub password: Option<PasswordSpec>,
}

/// Whether an entry with the given object classes has all those of a profile, which must have some.
pub open spec fn is_instance(p: EntryProfile, entry_ocs: Seq<Seq<char>>) -> bool {
    &&& p.object_classes@.len() > 0
    &&& forall|i: int|
        0 <= i < p.object_classes@.len() ==> has_ci(entry_ocs, #[trigger] texts(p.object_classes@)[i])
}

fn instance_of(p: &EntryProfile, entry_ocs: &Vec<String>) -> (r: bool)
    ensures
        r == is_instance(*p, texts(entry_ocs@)),
{
    if p.object_classes.len() == 0 {
        return false;
    }
    let mut i: usize = 0;
    while i < p.object_classes.len()
        invariant
            i <= p.object_classes@.len(),
            p.object_classes@.len() > 0,
            forall|j: int|
                0 <= j < i ==> has_ci(texts(entry_ocs@), #[trigger] texts(p.object_classes@)[j]),
        decreases p.object_classes@.len() - i,
    {
        if !contains_ignore_case(entry_ocs, &p.object_classes[i]) {
            assert(!has_ci(texts(entry_ocs@), texts(p.object_classes@)[i as int]));
            return false;
        }
        i += 1;
    }
    true
}

/// The first profile that satisfies `pred` and that an entry with the given object classes is an
/// instance of. Profiles count in their configured order.
pub fn profile_for_entry_where<'a, F: Fn(&EntryProfile) -> bool>(
    profiles: &'a Vec<EntryProfile>,
    entry_ocs: &Vec<String>,
    pred: F,
) -> (r: Option<&'a EntryProfile>)
    requires
        forall|p: &EntryProfile| call_requires(pred, (p,)),
    ensures
        match r {
            Some(p) => exists|i: int|
                #![trigger profiles@[i]]
                {
                    &&& 0 <= i < profiles@.len()
                    &&& profiles@[i] == *p
                    &&& call_ensures(pred, (p,), true)
                    &&& is_instance(*p, texts(entry_ocs@))
                    &&& forall|j: int|
                        0 <= j < i ==> !is_instance(#[trigger] profiles@[j], texts(entry_ocs@))
                            || call_ensures(pred, (&profiles@[j],), false)
                },
            None => forall|j: int|
                0 <= j < profiles@.len() ==> !is_instance(
                    #[trigger] profiles@[j],
                    texts(entry_ocs@),
                ) || call_ensures(pred, (&profiles@[j],), false),
        },
{
    let mut i: usize = 0;
    while i < profiles.len()
        invariant
            i <= profiles@.len(),
            forall|p: &EntryProfile| call_requires(pred, (p,)),
            forall|j: int|
                0 <= j < i ==> !is_instance(#[trigger] profiles@[j], texts(entry_ocs@))
                    || call_ensures(pred, (&profiles@[j],), false),
        decreases profiles@.len() - i,
    {
        let p: &EntryProfile = &profiles[i];
        if pred(p) && instance_of(p, entry_ocs) {
            assert(profiles@[i as int] == *p);
            return Some(p);
        }
        i += 1;
    }
    None
}

/// The place of the first profile that keeps passwords and that an entry is an instance of.
pub open spec fn password_profile(profiles: Seq<EntryProfile>, entry_ocs: Seq<Seq<char>>) -> Option<
    int,
>
    decreases profiles.len(),
{
    if profiles.len() == 0 {
        None
    } else {
        match password_profile(profiles.drop_last(), entry_ocs) {
            Some(i) => Some(i),
            None => if profiles.last().password is Some && is_instance(profiles.last(), entry_ocs) {
                Some(profiles.len() - 1)
            } else {
                None
            },
        }
    }
}

proof fn password_profile_found(profiles: Seq<EntryProfile>, entry_ocs: Seq<Seq<char>>, i: int)
    requires
        0 <= i < profiles.len(),
        profiles[i].password is Some,
        is_instance(profiles[i], entry_ocs),
        forall|j: int|
            0 <= j < i ==> !is_instance(#[trigger] profiles[j], entry_ocs)
                || profiles[j].password is None,
    ensures
        password_profile(profiles, entry_ocs) == Some(i),
    decreases profiles.len(),
{
    let head = profiles.drop_last();
    assert(forall|j: int| 0 <= j < head.len() ==> head[j] == profiles[j]);
    if i < head.len() {
        password_profile_found(head, entry_ocs, i);
    } else {
        password_profile_none(head, entry_ocs);
    }
}

proof fn password_profile_none(profiles: Seq<EntryProfile>, entry_ocs: Seq<Seq<char>>)
    requires
        forall|j: int|
            0 <= j < profiles.len() ==> !is_instance(#[trigger] profiles[j], entry_ocs)
                || profiles[j].password is None,
    ensures
        password_profile(profiles, entry_ocs) is None,
    decreases profiles.len(),
{
    if profiles.len() > 0 {
        let head = profiles.drop_last();
        assert(forall|j: int| 0 <= j < head.len() ==> head[j] == profiles[j]);
        assert(profiles.last() == profiles[profiles.len() - 1]);
        password_profile_none(head, entry_ocs);
    }
}

/// The first profile that keeps passwords and that an entry with the given object classes is an
/// instance of.
pub fn profile_for_entry<'a>(profiles: &'a Vec<EntryProfile>, entry_ocs: &Vec<String>) -> (r: Option<
    &'a EntryProfile,
>)
    ensures
        match r {
            Some(p) => password_profile(profiles@, texts(entry_ocs@)) is Some && *p
                == profiles@[password_profile(profiles@, texts(entry_ocs@))->0],
            None => password_profile(profiles@, texts(entry_ocs@)) is None,
        },
{
    let keeps = |p: &EntryProfile| -> (b: bool)
        ensures
            b == p.password is Some,
        { p.password.is_some() };
    let r: Option<&'a EntryProfile> = profile_for_entry_where(profiles, entry_ocs, keeps);
    proof {
        let ocs = texts(entry_ocs@);
        match r {
            Some(p) => {
                let i = choose|i: int|
                    #![trigger profiles@[i]]
                    {
                        &&& 0 <= i < profiles@.len()
                        &&& profiles@[i] == *p
                        &&& call_ensures(keeps, (p,), true)
                        &&& is_instance(*p, ocs)
                        &&& forall|j: int|
                            0 <= j < i ==> !is_instance(#[trigger] profiles@[j], ocs)
                                || call_ensures(keeps, (&profiles@[j],), false)
                    };
                password_profile_found(profiles@, ocs, i);
            },
            None => password_profile_none(profiles@, ocs),
        }
    }
    r
}

/// The profile that a password goes by keeps passwords, fits the entry, and is the first of its kind;
/// where there is none, no profile that keeps passwords fits.
pub proof fn the_first_fitting_profile_counts(profiles: Seq<EntryProfile>, entry_ocs: Seq<Seq<char>>)
    ensures
        match password_profile(profiles, entry_ocs) {
            Some(i) => 0 <= i < profiles.len() && profiles[i].password is Some && is_instance(
                profiles[i],
                entry_ocs,
            ) && forall|j: int|
                0 <= j < i ==> (#[trigger] profiles[j]).password is None || !is_instance(
                    profiles[j],
                    entry_ocs,
                ),
            None => forall|j: int|
                0 <= j < profiles.len() ==> (#[trigger] profiles[j]).password is None || !is_instance(
                    profiles[j],
                    entry_ocs,
                ),
        },
    decreases profiles.len(),
{
    if profiles.len() > 0 {
        the_first_fitting_profile_counts(profiles.drop_last(), entry_ocs);
        assert forall|j: int| 0 <= j < profiles.len() - 1 implies profiles.drop_last()[j]
            == #[trigger] profiles[j] by {}
    }
}

/// An entry fits a profile exactly when it has every object class of the profile, in any letter case,
/// and the profile names at least one.
pub proof fn entries_fit_by_object_class(p: EntryProfile, entry_ocs: Seq<Seq<char>>)
    ensures
        is_instance(p, entry_ocs) <==> p.object_classes@.len() > 0 && forall|i: int|
            0 <= i < p.object_classes@.len() ==> has_ci(
                entry_ocs,
                (#[trigger] p.object_classes@[i])@,
            ),
{
    let own = texts(p.object_classes@);
    if is_instance(p, entry_ocs) {
        assert forall|i: int| 0 <= i < p.object_classes@.len() implies has_ci(
            entry_ocs,
            (#[trigger] p.object_classes@[i])@,
        ) by {
            assert(own[i] == p.object_classes@[i]@);
        }
    } else if p.object_classes@.len() > 0 {
        if forall|i: int|
            0 <= i < p.object_classes@.len() ==> has_ci(
                entry_ocs,
                (#[trigger] p.object_classes@[i])@,
            ) {
            assert forall|i: int| 0 <= i < p.object_classes@.len() implies has_ci(
                entry_ocs,
                #[trigger] own[i],
            ) by {
                assert(own[i] == p.object_classes@[i]@);
            }
        }
    }
}

} // verus!
