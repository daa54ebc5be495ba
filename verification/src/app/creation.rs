//! Preparing the creation of the entry that the form composes, up to the confirmation.
use vstd::prelude::*;
use vstd::string::*;

use crate::app::create::{
    apply_static_defaults, composed_entries_are_checked, composes_of, create_planned, create_shown,
    defaults_fill_their_attribute, fill_number, filled_in, filled_keeps_order, fold_create_password,
    numbers_wanted, plan_create, ranges, show_create, start_create, with_added, CreateDraft,
    CreatePrep, CreateStart, Resolution,
};
use crate::app::{App, Overlay, PendingAction};
use crate::attrs::{put, Attr, AttrEntry, AttrMap};
use crate::changes::{opt_text, EditEntry, ValidationError};
use crate::edit_form::{own_attrs, FormMode};
use crate::passwords::all_hidden;
use crate::profiles::EntryProfile;
use crate::text::decimal_of;

verus! {

/// Whether asking for a number came to `r`.
pub open spec fn allocated<A: Fn(&str, u64, u64) -> Result<u64, String>>(
    allocate: A,
    wanted: (String, u64, u64),
    r: Result<u64, String>,
) -> bool {
    exists|attr: &str|
        attr@ == wanted.0@ && #[trigger] call_ensures(allocate, (attr, wanted.1, wanted.2), r)
}

/// The attributes with the first numbers filled in.
pub open spec fn with_numbers(
    l: Seq<Attr>,
    wanted: Seq<(Seq<char>, u64, u64)>,
    found: Seq<u64>,
) -> Seq<Attr>
    decreases found.len(),
{
    if found.len() == 0 {
        l
    } else {
        put(
            with_numbers(l, wanted, found.drop_last()),
            wanted[found.len() - 1].0,
            seq![decimal_of(found.last() as nat)],
        )
    }
}

/// Whether `new` are the attributes `old` with the numbers filled in that were found in turn: all of
/// them, or those before the first that could not be found.
pub open spec fn numbers_filled<A: Fn(&str, u64, u64) -> Result<u64, String>>(
    allocate: A,
    wanted: Seq<(String, u64, u64)>,
    old: Seq<Attr>,
    new: Seq<Attr>,
    r: Result<(), String>,
) -> bool {
    exists|found: Seq<u64>|
        {
            &&& found.len() <= wanted.len()
            &&& new == #[trigger] with_numbers(old, ranges(wanted), found)
            &&& forall|i: int|
                0 <= i < found.len() ==> allocated(allocate, #[trigger] wanted[i], Ok(found[i]))
            &&& match r {
                Ok(_) => found.len() == wanted.len(),
                Err(text) => found.len() < wanted.len() && allocated(
                    allocate,
                    wanted[found.len() as int],
                    Err(text),
                ),
            }
        }
}

/// Fills in the numbers that are wanted, asking for one after the other, up to the first that cannot
/// be found.
pub fn fill_numbers<A: Fn(&str, u64, u64) -> Result<u64, String>>(
    attrs: &mut AttrMap,
    wanted: &Vec<(String, u64, u64)>,
    allocate: A,
) -> (r: Result<(), String>)
    requires
        forall|attr: &str, min: u64, max: u64| call_requires(allocate, (attr, min, max)),
    ensures
        numbers_filled(allocate, wanted@, old(attrs)@, final(attrs)@, r),
{
    let ghost start = attrs@;
    let ghost all = ranges(wanted@);
    let ghost mut found: Seq<u64> = Seq::empty();
    let mut i: usize = 0;
    while i < wanted.len()
        invariant
            i <= wanted@.len(),
            found.len() == i,
            start == old(attrs)@,
            all == ranges(wanted@),
            attrs@ == with_numbers(start, all, found),
            forall|attr: &str, min: u64, max: u64| call_requires(allocate, (attr, min, max)),
            forall|j: int| 0 <= j < i ==> allocated(allocate, #[trigger] wanted@[j], Ok(found[j])),
        decreases wanted@.len() - i,
    {
        let answer: Result<u64, String> = allocate(wanted[i].0.as_str(), wanted[i].1, wanted[i].2);
        assert(allocated(allocate, wanted@[i as int], answer));
        match answer {
            Ok(n) => {
                fill_number(attrs, wanted[i].0.clone(), n);
                proof {
                    let next = found.push(n);
                    assert(next.drop_last() =~= found);
                    found = next;
                }
            },
            Err(text) => {
                proof {
                    assert(attrs@ == with_numbers(start, all, found));
                    assert(allocated(allocate, wanted@[found.len() as int], Err(text)));
                }
                return Err(text);
            },
        }
        i += 1;
    }
    assert(attrs@ == with_numbers(start, all, found));
    Ok(())
}

/// Whether `new` are the attributes `old` with the defaults of a profile filled in.
pub open spec fn defaults_filled<
    P: Fn(&EntryProfile, &AttrMap) -> Vec<Resolution>,
    A: Fn(&str, u64, u64) -> Result<u64, String>,
>(
    profile: &EntryProfile,
    defaults: P,
    allocate: A,
    old: Seq<Attr>,
    new: Seq<Attr>,
    r: Result<(), String>,
) -> bool {
    exists|typed: AttrMap, res: Vec<Resolution>, wanted: Vec<(String, u64, u64)>|
        {
            &&& typed@ == old
            &&& #[trigger] call_ensures(defaults, (profile, &typed), res)
            &&& ranges(wanted@) == numbers_wanted(res@)
            &&& #[trigger] numbers_filled(allocate, wanted@, filled_in(old, res@), new, r)
        }
}

/// Fills in the defaults of a profile: `defaults` says what they come to for the attributes that are
/// still empty, and `allocate` finds the next free number of a range.
pub fn fill_defaults<
    P: Fn(&EntryProfile, &AttrMap) -> Vec<Resolution>,
    A: Fn(&str, u64, u64) -> Result<u64, String>,
>(profile: &EntryProfile, attrs: &mut AttrMap, defaults: P, allocate: A) -> (r: Result<(), String>)
    requires
        call_requires(defaults, (profile, &*old(attrs))),
        forall|attr: &str, min: u64, max: u64| call_requires(allocate, (attr, min, max)),
    ensures
        defaults_filled(profile, defaults, allocate, old(attrs)@, final(attrs)@, r),
{
    let ghost typed = *attrs;
    let res: Vec<Resolution> = defaults(profile, attrs);
    let wanted: Vec<(String, u64, u64)> = apply_static_defaults(&res, attrs);
    let r: Result<(), String> = fill_numbers(attrs, &wanted, allocate);
    proof {
        assert(call_ensures(defaults, (profile, &typed), res));
        assert(numbers_filled(allocate, wanted@, filled_in(typed@, res@), attrs@, r));
    }
    r
}

/// The attributes that write a password: the one that holds it, and all of them with their values.
pub struct PasswordAttrs {
    pub primary: String,
    pub added: Vec<AttrEntry>,
}

/// Whether `body` is the preview of a new entry whose attributes become `new`: with the attributes of
/// a waiting password put in, where the entry takes one, and hidden.
pub open spec fn previewed<
    S: Fn(&str, &AttrMap) -> Option<PasswordAttrs>,
    R: Fn(&str, &AttrMap) -> String,
>(
    dn: Seq<char>,
    password: Option<Seq<char>>,
    secrets: S,
    render: R,
    old: AttrMap,
    new: AttrMap,
    body: String,
) -> bool {
    exists|name: &str, shown: AttrMap|
        {
            &&& name@ == dn
            &&& #[trigger] call_ensures(render, (name, &shown), body)
            &&& match password {
                None => new@ == old@ && shown@ == old@,
                Some(p) => exists|clear: &str, s: Option<PasswordAttrs>|
                    {
                        &&& clear@ == p
                        &&& #[trigger] call_ensures(secrets, (clear, &old), s)
                        &&& match s {
                            None => new@ == old@ && shown@ == old@,
                            Some(pa) => new@ == with_added(old@, pa.added@) && shown@ == all_hidden(
                                new@,
                                pa.primary@,
                            ),
                        }
                    },
            }
        }
}

/// Puts a waiting password into a new entry, and gives back the preview. `secrets` gives the
/// attributes that write the password, if the entry takes one, and `render` the preview in words.
pub fn create_preview<
    S: Fn(&str, &AttrMap) -> Option<PasswordAttrs>,
    R: Fn(&str, &AttrMap) -> String,
>(dn: &str, attrs: &mut AttrMap, password: &Option<String>, secrets: S, render: R) -> (body: String)
    requires
        forall|clear: &str, a: &AttrMap| call_requires(secrets, (clear, a)),
        forall|name: &str, a: &AttrMap| call_requires(render, (name, a)),
    ensures
        previewed(
            dn@,
            opt_text(*password),
            secrets,
            render,
            *old(attrs),
            *final(attrs),
            body,
        ),
{
    match password {
        None => render(dn, attrs),
        Some(p) => {
            let s: Option<PasswordAttrs> = secrets(p.as_str(), attrs);
            match s {
                None => render(dn, attrs),
                Some(pa) => {
                    let shown: AttrMap = fold_create_password(attrs, &pa.added, &pa.primary);
                    render(dn, &shown)
                },
            }
        },
    }
}

/// Whether `new` is `old` with a message.
pub open spec fn message_shown(old: App, new: App, text: String) -> bool {
    new == (App { overlay: Some(Overlay::Error { text }), ..old })
}

/// A new entry as typed, as a mathematical value.
pub ghost struct Draft {
    pub dn: Seq<char>,
    pub typed: Seq<Attr>,
    pub container: Seq<char>,
    pub password: Option<Seq<char>>,
}

/// Whether `new` is `old` with the dialog for a new entry whose defaults are filled in: a message
/// where it cannot be created, and otherwise the question with the preview.
pub open spec fn draft_confirmed<
    B: Fn(&EntryProfile, &str, &str, &EditEntry) -> EditEntry,
    V: Fn(&EditEntry, &Vec<String>) -> Vec<ValidationError>,
    S: Fn(&str, &AttrMap) -> Option<PasswordAttrs>,
    R: Fn(&str, &AttrMap) -> String,
>(
    old: App,
    new: App,
    profile: &EntryProfile,
    draft: Draft,
    edited: EditEntry,
    build: B,
    validate: V,
    secrets: S,
    render: R,
) -> bool {
    exists|container: &str, prep: CreatePrep|
        {
            &&& container@ == draft.container
            &&& #[trigger] create_planned(prep, profile, container, &edited, build, validate)
            &&& match prep {
                CreatePrep::Error(text) => message_shown(old, new, text),
                CreatePrep::Confirm { dn, attrs, container: c } => exists|a: AttrMap, body: String|
                    {
                        &&& #[trigger] previewed(
                            dn@,
                            draft.password,
                            secrets,
                            render,
                            attrs,
                            a,
                            body,
                        )
                        &&& create_shown(
                            old,
                            new,
                            (CreatePrep::Confirm { dn, attrs: a, container: c }),
                            body,
                        )
                    },
            }
        }
}

/// Whether `new` is `old` with the dialog for a new entry as typed: a default that cannot be filled
/// in shows a message.
pub open spec fn draft_prepared<
    P: Fn(&EntryProfile, &AttrMap) -> Vec<Resolution>,
    A: Fn(&str, u64, u64) -> Result<u64, String>,
    B: Fn(&EntryProfile, &str, &str, &EditEntry) -> EditEntry,
    V: Fn(&EditEntry, &Vec<String>) -> Vec<ValidationError>,
    S: Fn(&str, &AttrMap) -> Option<PasswordAttrs>,
    R: Fn(&str, &AttrMap) -> String,
>(
    old: App,
    new: App,
    profile: &EntryProfile,
    draft: Draft,
    defaults: P,
    allocate: A,
    build: B,
    validate: V,
    secrets: S,
    render: R,
) -> bool {
    exists|edited: EditEntry, r: Result<(), String>|
        {
            &&& edited.dn@ == draft.dn
            &&& #[trigger] defaults_filled(
                profile,
                defaults,
                allocate,
                draft.typed,
                edited.attrs@,
                r,
            )
            &&& match r {
                Err(text) => message_shown(old, new, text),
                Ok(_) => draft_confirmed(
                    old,
                    new,
                    profile,
                    draft,
                    edited,
                    build,
                    validate,
                    secrets,
                    render,
                ),
            }
        }
}

fn prepare_draft<
    P: Fn(&EntryProfile, &AttrMap) -> Vec<Resolution>,
    A: Fn(&str, u64, u64) -> Result<u64, String>,
    B: Fn(&EntryProfile, &str, &str, &EditEntry) -> EditEntry,
    V: Fn(&EditEntry, &Vec<String>) -> Vec<ValidationError>,
    S: Fn(&str, &AttrMap) -> Option<PasswordAttrs>,
    R: Fn(&str, &AttrMap) -> String,
>(
    app: &mut App,
    profile: &EntryProfile,
    draft: CreateDraft,
    defaults: P,
    allocate: A,
    build: B,
    validate: V,
    secrets: S,
    render: R,
)
    requires
        forall|a: &AttrMap| call_requires(defaults, (profile, a)),
        forall|attr: &str, min: u64, max: u64| call_requires(allocate, (attr, min, max)),
        forall|c: &str, v: &str, e: &EditEntry| call_requires(build, (profile, c, v, e)),
        forall|e: &EditEntry| call_requires(validate, (e, &profile.object_classes)),
        forall|clear: &str, a: &AttrMap| call_requires(secrets, (clear, a)),
        forall|name: &str, a: &AttrMap| call_requires(render, (name, a)),
    ensures
        draft_prepared(
            *old(app),
            *final(app),
            profile,
            (Draft {
                dn: draft.edited.dn@,
                typed: draft.edited.attrs@,
                container: draft.container@,
                password: opt_text(draft.password),
            }),
            defaults,
            allocate,
            build,
            validate,
            secrets,
            render,
        ),
{
    let ghost d = Draft {
        dn: draft.edited.dn@,
        typed: draft.edited.attrs@,
        container: draft.container@,
        password: opt_text(draft.password),
    };
    let ghost start = *app;
    let mut edited: EditEntry = draft.edited;
    let filled: Result<(), String> = fill_defaults(profile, &mut edited.attrs, defaults, allocate);
    let ghost e = edited;
    assert(defaults_filled(profile, defaults, allocate, d.typed, e.attrs@, filled));
    match filled {
        Err(text) => {
            app.overlay = Some(Overlay::Error { text });
        },
        Ok(_) => {
            let container: &str = draft.container.as_str();
            let prep: CreatePrep = plan_create(profile, container, &edited, build, validate);
            assert(create_planned(prep, profile, container, &e, build, validate));
            match prep {
                CreatePrep::Error(text) => {
                    app.overlay = Some(Overlay::Error { text });
                },
                CreatePrep::Confirm { dn, attrs, container: c } => {
                    let mut attrs: AttrMap = attrs;
                    let ghost a0 = attrs;
                    let body: String = create_preview(
                        &dn,
                        &mut attrs,
                        &draft.password,
                        secrets,
                        render,
                    );
                    let ghost b = body;
                    assert(previewed(dn@, d.password, secrets, render, a0, attrs, b));
                    show_create(app, CreatePrep::Confirm { dn, attrs, container: c }, body);
                },
            }
            assert(draft_confirmed(
                start,
                *app,
                profile,
                d,
                e,
                build,
                validate,
                secrets,
                render,
            ));
        },
    }
}

/// Whether `new` is `old` after the creation of the entry that the form composes was prepared.
pub open spec fn create_prepared<
    P: Fn(&EntryProfile, &AttrMap) -> Vec<Resolution>,
    A: Fn(&str, u64, u64) -> Result<u64, String>,
    B: Fn(&EntryProfile, &str, &str, &EditEntry) -> EditEntry,
    V: Fn(&EditEntry, &Vec<String>) -> Vec<ValidationError>,
    S: Fn(&str, &AttrMap) -> Option<PasswordAttrs>,
    R: Fn(&str, &AttrMap) -> String,
>(
    old: App,
    new: App,
    profiles: Seq<EntryProfile>,
    defaults: P,
    allocate: A,
    build: B,
    validate: V,
    secrets: S,
    render: R,
) -> bool {
    if !composes_of(old.form, profiles.len() as int) {
        new == old
    } else {
        let f = old.form->0;
        if f.pending_password is Some && !old.connection_encrypted {
            &&& new == (App { overlay: new.overlay, ..old })
            &&& new.overlay matches Some(Overlay::Error { text }) && text@
                == "password change requires an encrypted connection"@
        } else {
            match f.mode {
                FormMode::Create { profile_idx, container } => draft_prepared(
                    old,
                    new,
                    &profiles[profile_idx as int],
                    (Draft {
                        dn: f.dn@,
                        typed: own_attrs(f.fields@),
                        container: container@,
                        password: opt_text(f.pending_password),
                    }),
                    defaults,
                    allocate,
                    build,
                    validate,
                    secrets,
                    render,
                ),
                FormMode::Edit => false,
            }
        }
    }
}

/// Prepares the creation of the entry that the form composes. A waiting password is refused over a
/// connection that is not encrypted. The defaults of the profile are filled in: `defaults` says what
/// they come to, and `allocate` finds numbers. The entry is composed by `build` and checked by
/// `validate`; `secrets` gives the attributes that write a password, and `render` the preview.
pub fn prepare_create<
    P: Fn(&EntryProfile, &AttrMap) -> Vec<Resolution>,
    A: Fn(&str, u64, u64) -> Result<u64, String>,
    B: Fn(&EntryProfile, &str, &str, &EditEntry) -> EditEntry,
    V: Fn(&EditEntry, &Vec<String>) -> Vec<ValidationError>,
    S: Fn(&str, &AttrMap) -> Option<PasswordAttrs>,
    R: Fn(&str, &AttrMap) -> String,
>(
    app: &mut App,
    profiles: &Vec<EntryProfile>,
    defaults: P,
    allocate: A,
    build: B,
    validate: V,
    secrets: S,
    render: R,
)
    requires
        forall|p: &EntryProfile, a: &AttrMap| call_requires(defaults, (p, a)),
        forall|attr: &str, min: u64, max: u64| call_requires(allocate, (attr, min, max)),
        forall|p: &EntryProfile, c: &str, v: &str, e: &EditEntry|
            call_requires(build, (p, c, v, e)),
        forall|e: &EditEntry, ocs: &Vec<String>| call_requires(validate, (e, ocs)),
        forall|clear: &str, a: &AttrMap| call_requires(secrets, (clear, a)),
        forall|name: &str, a: &AttrMap| call_requires(render, (name, a)),
    ensures
        create_prepared(
            *old(app),
            *final(app),
            profiles@,
            defaults,
            allocate,
            build,
            validate,
            secrets,
            render,
        ),
{
    match start_create(app, profiles.len()) {
        CreateStart::Nothing => {},
        CreateStart::Refused => {},
        CreateStart::Draft(draft) => {
            let profile: &EntryProfile = &profiles[draft.profile_idx];
            prepare_draft(
                app,
                profile,
                draft,
                defaults,
                allocate,
                build,
                validate,
                secrets,
                render,
            );
        },
    }
}

/// Numbers are filled in one after the other, each under its attribute and in decimal; every other
/// attribute keeps its values.
pub proof fn found_numbers_stand_under_their_attribute(
    l: Seq<Attr>,
    wanted: Seq<(Seq<char>, u64, u64)>,
    found: Seq<u64>,
    k: int,
    name: Seq<char>,
)
    requires
        crate::attrs::ascending(l),
        found.len() <= wanted.len(),
    ensures
        crate::attrs::ascending(with_numbers(l, wanted, found)),
        0 <= k < found.len() && wanted[k].0 == name && (forall|m: int|
            k < m < found.len() ==> (#[trigger] wanted[m]).0 != name) ==> crate::attrs::values_of(
            with_numbers(l, wanted, found),
            name,
        ) == Some(seq![decimal_of(found[k] as nat)]),
        (forall|m: int| 0 <= m < found.len() ==> (#[trigger] wanted[m]).0 != name)
            ==> crate::attrs::values_of(with_numbers(l, wanted, found), name)
            == crate::attrs::values_of(l, name),
    decreases found.len(),
{
    if found.len() > 0 {
        let head = found.drop_last();
        let n = found.len() - 1;
        let before = with_numbers(l, wanted, head);
        let value = seq![decimal_of(found.last() as nat)];
        assert(found.last() == found[n]);
        assert(forall|m: int| 0 <= m < n ==> head[m] == found[m]);
        found_numbers_stand_under_their_attribute(l, wanted, head, k, name);
        crate::attrs::put_ascending(before, wanted[n].0, value);
        crate::attrs::get_after_put(before, wanted[n].0, value, name);
    }
}

/// A number is asked for under its attribute and in its range.
pub proof fn numbers_are_asked_for_in_their_range<A: Fn(&str, u64, u64) -> Result<u64, String>>(
    allocate: A,
    wanted: (String, u64, u64),
    r: Result<u64, String>,
)
    requires
        allocated(allocate, wanted, r),
    ensures
        exists|attr: &str|
            #[trigger] call_ensures(allocate, (attr, wanted.1, wanted.2), r) && attr@ == wanted.0@,
{
}

/// All numbers that are wanted are found and filled in, or those before the first that could not be
/// found, whose reason is given.
pub proof fn numbers_are_found_or_explained<A: Fn(&str, u64, u64) -> Result<u64, String>>(
    allocate: A,
    wanted: Seq<(String, u64, u64)>,
    old: Seq<Attr>,
    new: Seq<Attr>,
    r: Result<(), String>,
)
    requires
        numbers_filled(allocate, wanted, old, new, r),
    ensures
        exists|found: Seq<u64>|
            {
                &&& new == #[trigger] with_numbers(old, ranges(wanted), found)
                &&& r is Ok ==> found.len() == wanted.len()
                &&& r is Err ==> found.len() < wanted.len()
                &&& forall|i: int|
                    0 <= i < found.len() ==> allocated(allocate, #[trigger] wanted[i], Ok(found[i]))
                &&& r matches Err(text) ==> allocated(
                    allocate,
                    wanted[found.len() as int],
                    Err(text),
                )
            },
        wanted.len() == 0 ==> r is Ok && new == old,
{
}

/// Without a waiting password a new entry is shown as it is added. With one, its attributes are added,
/// and the preview shows them hidden; where the entry takes no password nothing changes.
pub proof fn new_passwords_are_added_and_hidden<
    S: Fn(&str, &AttrMap) -> Option<PasswordAttrs>,
    R: Fn(&str, &AttrMap) -> String,
>(
    dn: Seq<char>,
    password: Option<Seq<char>>,
    secrets: S,
    render: R,
    old: AttrMap,
    new: AttrMap,
    body: String,
)
    requires
        previewed(dn, password, secrets, render, old, new, body),
    ensures
        password is None ==> new@ == old@,
        exists|name: &str, shown: AttrMap|
            #[trigger] call_ensures(render, (name, &shown), body) && name@ == dn && (shown@ == new@ || (
            password is Some && exists|primary: Seq<char>| shown@ == #[trigger] all_hidden(
                new@,
                primary,
            ))),
        password matches Some(p) ==> exists|clear: &str, s: Option<PasswordAttrs>|
            {
                &&& #[trigger] call_ensures(secrets, (clear, &old), s)
                &&& clear@ == p
                &&& s is None ==> new@ == old@
                &&& s matches Some(pa) ==> new@ == with_added(old@, pa.added@)
            },
{
}

/// A default that cannot be filled in, or an entry that cannot be created, is explained and nothing is
/// asked; the form stays in any case.
pub proof fn creations_keep_the_form<
    P: Fn(&EntryProfile, &AttrMap) -> Vec<Resolution>,
    A: Fn(&str, u64, u64) -> Result<u64, String>,
    B: Fn(&EntryProfile, &str, &str, &EditEntry) -> EditEntry,
    V: Fn(&EditEntry, &Vec<String>) -> Vec<ValidationError>,
    S: Fn(&str, &AttrMap) -> Option<PasswordAttrs>,
    R: Fn(&str, &AttrMap) -> String,
>(
    old: App,
    new: App,
    profiles: Seq<EntryProfile>,
    defaults: P,
    allocate: A,
    build: B,
    validate: V,
    secrets: S,
    render: R,
)
    requires
        create_prepared(old, new, profiles, defaults, allocate, build, validate, secrets, render),
    ensures
        new == (App { overlay: new.overlay, ..old }),
        old.form is None || !(old.form->0.mode is Create) ==> new == old,
        composes_of(old.form, profiles.len() as int) ==> new.overlay is Some && (
        new.overlay->0 is Error || (new.overlay->0 matches Overlay::Confirm { title, body, action }
            && title@ == "Create this entry?"@ && action is Create)),
        composes_of(old.form, profiles.len() as int) && old.form->0.pending_password is Some
            && !old.connection_encrypted ==> (new.overlay matches Some(Overlay::Error { text }) && text@
            == "password change requires an encrypted connection"@),
{
}

proof fn wanted_is_called_for(res: Seq<Resolution>, k: int) -> (m: int)
    requires
        0 <= k < numbers_wanted(res).len(),
    ensures
        0 <= m < res.len(),
        res[m] is NeedsAutonumber,
        res[m]->NeedsAutonumber_attr@ == numbers_wanted(res)[k].0,
    decreases res.len(),
{
    let head = res.drop_last();
    assert(res.last() == res[res.len() - 1]);
    if k < numbers_wanted(head).len() {
        let m = wanted_is_called_for(head, k);
        assert(head[m] == res[m]);
        m
    } else {
        res.len() - 1
    }
}

/// The attribute that a default is for.
pub open spec fn default_of(r: Resolution) -> Seq<char> {
    match r {
        Resolution::Fill { attr, value } => attr@,
        Resolution::NeedsAutonumber { attr, min, max } => attr@,
    }
}

/// Filling in the defaults changes no attribute but those that have one.
pub proof fn defaults_leave_the_rest<
    P: Fn(&EntryProfile, &AttrMap) -> Vec<Resolution>,
    A: Fn(&str, u64, u64) -> Result<u64, String>,
>(
    profile: &EntryProfile,
    defaults: P,
    allocate: A,
    old: Seq<Attr>,
    new: Seq<Attr>,
    r: Result<(), String>,
)
    requires
        defaults_filled(profile, defaults, allocate, old, new, r),
        crate::attrs::ascending(old),
    ensures
        exists|typed: AttrMap, res: Vec<Resolution>|
            {
                &&& #[trigger] call_ensures(defaults, (profile, &typed), res)
                &&& typed@ == old
                &&& forall|name: Seq<char>|
                    (forall|m: int| 0 <= m < res@.len() ==> default_of(#[trigger] res@[m]) != name)
                        ==> #[trigger] crate::attrs::values_of(new, name) == crate::attrs::values_of(
                        old,
                        name,
                    )
            },
{
    let (typed, res, wanted) = choose|
        typed: AttrMap,
        res: Vec<Resolution>,
        wanted: Vec<(String, u64, u64)>,
    |
        {
            &&& typed@ == old
            &&& #[trigger] call_ensures(defaults, (profile, &typed), res)
            &&& ranges(wanted@) == numbers_wanted(res@)
            &&& #[trigger] numbers_filled(allocate, wanted@, filled_in(old, res@), new, r)
        };
    let mid = filled_in(old, res@);
    let found = choose|found: Seq<u64>|
        {
            &&& found.len() <= wanted@.len()
            &&& new == #[trigger] with_numbers(mid, ranges(wanted@), found)
            &&& forall|i: int|
                0 <= i < found.len() ==> allocated(allocate, #[trigger] wanted@[i], Ok(found[i]))
            &&& match r {
                Ok(_) => found.len() == wanted@.len(),
                Err(text) => found.len() < wanted@.len() && allocated(
                    allocate,
                    wanted@[found.len() as int],
                    Err(text),
                ),
            }
        };
    filled_keeps_order(old, res@);
    assert forall|name: Seq<char>|
        (forall|m: int| 0 <= m < res@.len() ==> default_of(#[trigger] res@[m])
            != name) implies #[trigger] crate::attrs::values_of(new, name)
        == crate::attrs::values_of(old, name) by {
        defaults_fill_their_attribute(old, res@, 0, name);
        found_numbers_stand_under_their_attribute(mid, ranges(wanted@), found, 0, name);
        assert forall|k: int| 0 <= k < found.len() implies (#[trigger] ranges(wanted@)[k]).0
            != name by {
            let m = wanted_is_called_for(res@, k);
            assert(default_of(res@[m]) != name);
        }
        assert forall|m: int| 0 <= m < res@.len() implies !((
        #[trigger] res@[m]) matches Resolution::Fill { attr, value } && attr@ == name) by {
            assert(default_of(res@[m]) != name);
        }
    }
}

/// What a yes creates is what was typed: with the defaults of the profile it goes to `build`, under the
/// form's container and the value that names it, and the entry that this gives passes `validate`. It is
/// added as it is, or with a waiting password's attributes.
pub proof fn creations_add_what_was_typed<
    P: Fn(&EntryProfile, &AttrMap) -> Vec<Resolution>,
    A: Fn(&str, u64, u64) -> Result<u64, String>,
    B: Fn(&EntryProfile, &str, &str, &EditEntry) -> EditEntry,
    V: Fn(&EditEntry, &Vec<String>) -> Vec<ValidationError>,
    S: Fn(&str, &AttrMap) -> Option<PasswordAttrs>,
    R: Fn(&str, &AttrMap) -> String,
>(
    old: App,
    new: App,
    profiles: Seq<EntryProfile>,
    defaults: P,
    allocate: A,
    build: B,
    validate: V,
    secrets: S,
    render: R,
    i: usize,
    place: String,
)
    requires
        create_prepared(old, new, profiles, defaults, allocate, build, validate, secrets, render),
        composes_of(old.form, profiles.len() as int),
        old.form->0.mode == (FormMode::Create { profile_idx: i, container: place }),
        new.overlay is Some && new.overlay->0 is Confirm,
    ensures
        exists|
            typed: AttrMap,
            edited: EditEntry,
            container: &str,
            rdn: &str,
            full: EditEntry,
            errors: Vec<ValidationError>,
            filled: Result<(), String>,
        |
            {
                &&& #[trigger] defaults_filled(
                    &profiles[i as int],
                    defaults,
                    allocate,
                    typed@,
                    edited.attrs@,
                    filled,
                )
                &&& filled is Ok
                &&& typed@ == own_attrs(old.form->0.fields@)
                &&& #[trigger] call_ensures(
                    build,
                    (&profiles[i as int], container, rdn, &edited),
                    full,
                )
                &&& container@ == place@
                &&& edited.dn@ == old.form->0.dn@
                &&& #[trigger] call_ensures(
                    validate,
                    (&full, &profiles[i as int].object_classes),
                    errors,
                )
                &&& errors@.len() == 0
                &&& new.overlay->0->Confirm_action matches PendingAction::Create { dn, attrs, parent }
                    && dn@ == full.dn@ && parent@ == place@ && (old.form->0.pending_password is None
                    ==> attrs@ == full.attrs@)
            },
{
    let f = old.form->0;
    let profile = &profiles[i as int];
    let draft = Draft {
        dn: f.dn@,
        typed: own_attrs(f.fields@),
        container: place@,
        password: opt_text(f.pending_password),
    };
    let (edited, r) = choose|edited: EditEntry, r: Result<(), String>|
        {
            &&& edited.dn@ == draft.dn
            &&& #[trigger] defaults_filled(
                profile,
                defaults,
                allocate,
                draft.typed,
                edited.attrs@,
                r,
            )
            &&& match r {
                Err(text) => message_shown(old, new, text),
                Ok(_) => draft_confirmed(
                    old,
                    new,
                    profile,
                    draft,
                    edited,
                    build,
                    validate,
                    secrets,
                    render,
                ),
            }
        };
    assert(r is Ok);
    let (container, prep) = choose|container: &str, prep: CreatePrep|
        {
            &&& container@ == draft.container
            &&& #[trigger] create_planned(prep, profile, container, &edited, build, validate)
            &&& match prep {
                CreatePrep::Error(text) => message_shown(old, new, text),
                CreatePrep::Confirm { dn, attrs, container: c } => exists|a: AttrMap, body: String|
                    {
                        &&& #[trigger] previewed(
                            dn@,
                            draft.password,
                            secrets,
                            render,
                            attrs,
                            a,
                            body,
                        )
                        &&& create_shown(
                            old,
                            new,
                            (CreatePrep::Confirm { dn, attrs: a, container: c }),
                            body,
                        )
                    },
            }
        };
    composed_entries_are_checked(prep, profile, container, &edited, build, validate);
    assert(prep is Confirm);
    let typed = choose|typed: AttrMap, res: Vec<Resolution>, wanted: Vec<(String, u64, u64)>|
        {
            &&& typed@ == draft.typed
            &&& #[trigger] call_ensures(defaults, (profile, &typed), res)
            &&& ranges(wanted@) == numbers_wanted(res@)
            &&& #[trigger] numbers_filled(
                allocate,
                wanted@,
                filled_in(draft.typed, res@),
                edited.attrs@,
                r,
            )
        };
    assert(typed.0@ == draft.typed);
    assert(defaults_filled(profile, defaults, allocate, typed.0@, edited.attrs@, r));
}



} // verus!
