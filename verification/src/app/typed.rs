//! Preparing the creation of an entry whose password is typed into the form.
use vstd::prelude::*;
use vstd::string::*;

use crate::app::create::{
    composes_of, create_planned, create_shown, fold_create_password, plan_create, show_create,
    with_added, CreatePrep, Resolution,
};
use crate::app::creation::{defaults_filled, fill_defaults, message_shown};
use crate::app::save::typed_password;
use crate::app::{App, Overlay, PendingAction};
use crate::attrs::{values_of, Attr, AttrEntry, AttrMap};
use crate::changes::{opt_text, EditEntry, ValidationError};
use crate::edit_form::{own_attrs, FormMode};
use crate::passwords::{all_hidden, stage_password, without_password, PasswordSpec};
use crate::profiles::EntryProfile;
use crate::text::{contains_ignore_case, has_ci, same_ci};

verus! {

/// Whether a Samba hash goes with the password of a new entry.
pub open spec fn entry_samba(spec: PasswordSpec, l: Seq<Attr>) -> bool {
    spec.samba && match values_of(l, "objectClass"@) {
        Some(v) => has_ci(v, "sambaSamAccount"@),
        None => false,
    }
}

fn goes_with_samba(spec: &PasswordSpec, attrs: &AttrMap) -> (b: bool)
    ensures
        b == entry_samba(*spec, attrs@),
{
    if !spec.samba {
        return false;
    }
    match attrs.get("objectClass") {
        Some(v) => contains_ignore_case(v, "sambaSamAccount"),
        None => false,
    }
}

/// The attributes of a new entry without the fields of a typed password.
pub open spec fn without_fields(l: Seq<Attr>, spec: Option<PasswordSpec>) -> Seq<Attr> {
    match spec {
        Some(s) => without_password(l, s.ldap_attribute@),
        None => l,
    }
}

/// Whether `body` is the preview of a new entry whose attributes become `new`: with the attributes of
/// a typed password put in, and hidden.
pub open spec fn typed_previewed<
    W: Fn(&str, &str, bool) -> Vec<AttrEntry>,
    R: Fn(&str, &AttrMap) -> String,
>(
    dn: Seq<char>,
    password: Option<Seq<char>>,
    spec: Option<PasswordSpec>,
    write: W,
    render: R,
    old: AttrMap,
    new: AttrMap,
    body: String,
) -> bool {
    exists|name: &str, shown: AttrMap|
        {
            &&& name@ == dn
            &&& #[trigger] call_ensures(render, (name, &shown), body)
            &&& if password is Some && spec is Some {
                exists|text: &str, attr: &str, added: Vec<AttrEntry>|
                    {
                        &&& text@ == password->0
                        &&& attr@ == spec->0.ldap_attribute@
                        &&& #[trigger] call_ensures(
                            write,
                            (text, attr, entry_samba(spec->0, old@)),
                            added,
                        )
                        &&& new@ == with_added(old@, added@)
                        &&& shown@ == all_hidden(new@, attr@)
                    }
            } else {
                new@ == old@ && shown@ == old@
            }
        }
}

fn typed_preview<W: Fn(&str, &str, bool) -> Vec<AttrEntry>, R: Fn(&str, &AttrMap) -> String>(
    dn: &str,
    attrs: &mut AttrMap,
    password: &Option<String>,
    spec: &Option<PasswordSpec>,
    write: W,
    render: R,
) -> (body: String)
    requires
        forall|text: &str, attr: &str, samba: bool| call_requires(write, (text, attr, samba)),
        forall|name: &str, a: &AttrMap| call_requires(render, (name, a)),
    ensures
        typed_previewed(
            dn@,
            opt_text(*password),
            *spec,
            write,
            render,
            *old(attrs),
            *final(attrs),
            body,
        ),
{
    if let Some(p) = password {
        if let Some(s) = spec {
            let samba: bool = goes_with_samba(s, attrs);
            let text: &str = p.as_str();
            let attr: &str = s.ldap_attribute.as_str();
            let added: Vec<AttrEntry> = write(text, attr, samba);
            assert(call_ensures(write, (text, attr, samba), added));
            let shown: AttrMap = fold_create_password(attrs, &added, attr);
            let body: String = render(dn, &shown);
            assert(call_ensures(render, (dn, &shown), body));
            return body;
        }
    }
    render(dn, attrs)
}

/// Whether `new` is `old` with the dialog for a new entry as it is after its password was taken out:
/// a message where it cannot be created, and otherwise the question with the preview.
pub open spec fn typed_confirmed<
    W: Fn(&str, &str, bool) -> Vec<AttrEntry>,
    B: Fn(&EntryProfile, &str, &str, &EditEntry) -> EditEntry,
    V: Fn(&EditEntry, &Vec<String>) -> Vec<ValidationError>,
    R: Fn(&str, &AttrMap) -> String,
>(
    old: App,
    new: App,
    profile: &EntryProfile,
    edited: EditEntry,
    in_container: Seq<char>,
    password: Option<Seq<char>>,
    write: W,
    build: B,
    validate: V,
    render: R,
) -> bool {
    exists|container: &str, prep: CreatePrep|
        {
            &&& container@ == in_container
            &&& #[trigger] create_planned(prep, profile, container, &edited, build, validate)
            &&& match prep {
                CreatePrep::Error(text) => message_shown(old, new, text),
                CreatePrep::Confirm { dn, attrs, container: c } => exists|a: AttrMap, body: String|
                    {
                        &&& #[trigger] typed_previewed(
                            dn@,
                            password,
                            profile.password,
                            write,
                            render,
                            attrs,
                            a,
                            body,
                        )
                        &&& create_shown(
                            old,
                            new,
                            (CreatePrep::Confirm { dn, attrs: a, container: c }),
                            body,
                        )
                    },
            }
        }
}

fn confirm_typed<
    W: Fn(&str, &str, bool) -> Vec<AttrEntry>,
    B: Fn(&EntryProfile, &str, &str, &EditEntry) -> EditEntry,
    V: Fn(&EditEntry, &Vec<String>) -> Vec<ValidationError>,
    R: Fn(&str, &AttrMap) -> String,
>(
    app: &mut App,
    profile: &EntryProfile,
    edited: &EditEntry,
    container: &str,
    password: &Option<String>,
    write: W,
    build: B,
    validate: V,
    render: R,
)
    requires
        forall|text: &str, attr: &str, samba: bool| call_requires(write, (text, attr, samba)),
        forall|c: &str, v: &str, e: &EditEntry| call_requires(build, (profile, c, v, e)),
        forall|e: &EditEntry| call_requires(validate, (e, &profile.object_classes)),
        forall|name: &str, a: &AttrMap| call_requires(render, (name, a)),
    ensures
        typed_confirmed(
            *old(app),
            *final(app),
            profile,
            *edited,
            container@,
            opt_text(*password),
            write,
            build,
            validate,
            render,
        ),
{
    let prep: CreatePrep = plan_create(profile, container, edited, build, validate);
    assert(create_planned(prep, profile, container, edited, build, validate));
    match prep {
        CreatePrep::Error(text) => {
            app.overlay = Some(Overlay::Error { text });
        },
        CreatePrep::Confirm { dn, attrs, container: c } => {
            let mut attrs: AttrMap = attrs;
            let ghost a0 = attrs;
            let body: String = typed_preview(
                &dn,
                &mut attrs,
                password,
                &profile.password,
                write,
                render,
            );
            let ghost b = body;
            let ghost pw = opt_text(*password);
            assert(typed_previewed(dn@, pw, profile.password, write, render, a0, attrs, b));
            show_create(app, CreatePrep::Confirm { dn, attrs, container: c }, body);
        },
    }
}

/// Whether `new` is `old` with the dialog for a new entry as typed. A default that cannot be filled
/// in shows a message, and so does a password that was not repeated.
pub open spec fn typed_prepared<
    P: Fn(&EntryProfile, &AttrMap) -> Vec<Resolution>,
    A: Fn(&str, u64, u64) -> Result<u64, String>,
    W: Fn(&str, &str, bool) -> Vec<AttrEntry>,
    B: Fn(&EntryProfile, &str, &str, &EditEntry) -> EditEntry,
    V: Fn(&EditEntry, &Vec<String>) -> Vec<ValidationError>,
    R: Fn(&str, &AttrMap) -> String,
>(
    old: App,
    new: App,
    profile: &EntryProfile,
    in_container: Seq<char>,
    defaults: P,
    allocate: A,
    write: W,
    build: B,
    validate: V,
    render: R,
) -> bool {
    exists|filled: Seq<Attr>, r: Result<(), String>|
        {
            &&& #[trigger] defaults_filled(
                profile,
                defaults,
                allocate,
                own_attrs(old.form->0.fields@),
                filled,
                r,
            )
            &&& match r {
                Err(text) => message_shown(old, new, text),
                Ok(_) => match typed_password(filled, profile.password) {
                    Err(_) => {
                        &&& new == (App { overlay: new.overlay, ..old })
                        &&& new.overlay matches Some(Overlay::Error { text }) && text@
                            == "Passwords do not match."@
                    },
                    Ok(password) => exists|edited: EditEntry|
                        {
                            &&& edited.dn@ == old.form->0.dn@
                            &&& edited.attrs@ == without_fields(filled, profile.password)
                            &&& #[trigger] typed_confirmed(
                                old,
                                new,
                                profile,
                                edited,
                                in_container,
                                password,
                                write,
                                build,
                                validate,
                                render,
                            )
                        },
                },
            }
        }
}

/// Prepares the creation of the entry that the form composes, where its password is typed into the
/// form: the profile says under which attribute. The defaults of the profile are filled in first:
/// `defaults` says what they come to, and `allocate` finds numbers. The two fields of the password are
/// taken out before the entry is composed by `build` and checked by `validate`; `write` gives the
/// attributes that write the password, and `render` the preview, which hides them.
pub fn prepare_typed_create<
    P: Fn(&EntryProfile, &AttrMap) -> Vec<Resolution>,
    A: Fn(&str, u64, u64) -> Result<u64, String>,
    W: Fn(&str, &str, bool) -> Vec<AttrEntry>,
    B: Fn(&EntryProfile, &str, &str, &EditEntry) -> EditEntry,
    V: Fn(&EditEntry, &Vec<String>) -> Vec<ValidationError>,
    R: Fn(&str, &AttrMap) -> String,
>(
    app: &mut App,
    profiles: &Vec<EntryProfile>,
    defaults: P,
    allocate: A,
    write: W,
    build: B,
    validate: V,
    render: R,
)
    requires
        forall|p: &EntryProfile, a: &AttrMap| call_requires(defaults, (p, a)),
        forall|attr: &str, min: u64, max: u64| call_requires(allocate, (attr, min, max)),
        forall|text: &str, attr: &str, samba: bool| call_requires(write, (text, attr, samba)),
        forall|p: &EntryProfile, c: &str, v: &str, e: &EditEntry|
            call_requires(build, (p, c, v, e)),
        forall|e: &EditEntry, ocs: &Vec<String>| call_requires(validate, (e, ocs)),
        forall|name: &str, a: &AttrMap| call_requires(render, (name, a)),
    ensures
        if !composes_of(old(app).form, profiles@.len() as int) {
            *final(app) == *old(app)
        } else {
            match old(app).form->0.mode {
                FormMode::Create { profile_idx, container } => typed_prepared(
                    *old(app),
                    *final(app),
                    &profiles@[profile_idx as int],
                    container@,
                    defaults,
                    allocate,
                    write,
                    build,
                    validate,
                    render,
                ),
                FormMode::Edit => false,
            }
        },
{
    let (idx, container, edited): (usize, String, EditEntry) = match &app.form {
        None => return,
        Some(form) => match &form.mode {
            FormMode::Edit => return,
            FormMode::Create { profile_idx, container } => {
                if *profile_idx >= profiles.len() {
                    return;
                }
                (*profile_idx, container.clone(), form.to_edit_entry())
            },
        },
    };
    let ghost start = *app;
    let profile: &EntryProfile = &profiles[idx];
    let mut edited: EditEntry = edited;
    let answer: Result<(), String> = fill_defaults(profile, &mut edited.attrs, defaults, allocate);
    let ghost filled = edited.attrs@;
    assert(defaults_filled(
        profile,
        defaults,
        allocate,
        own_attrs(start.form->0.fields@),
        filled,
        answer,
    ));
    match answer {
        Err(text) => {
            app.overlay = Some(Overlay::Error { text });
        },
        Ok(_) => {
            let staged: Result<Option<String>, String> = match &profile.password {
                Some(spec) => stage_password(spec, &mut edited.attrs),
                None => Ok(None),
            };
            match staged {
                Err(text) => {
                    app.overlay = Some(Overlay::Error { text });
                },
                Ok(password) => {
                    confirm_typed(
                        app,
                        profile,
                        &edited,
                        &container,
                        &password,
                        write,
                        build,
                        validate,
                        render,
                    );
                    assert(typed_confirmed(
                        start,
                        *app,
                        profile,
                        edited,
                        container@,
                        opt_text(password),
                        write,
                        build,
                        validate,
                        render,
                    ));
                },
            }
        },
    }
}

/// A Samba hash goes with a password exactly where the profile asks for one and the entry is a Samba
/// account.
pub proof fn samba_accounts_get_their_hash(spec: PasswordSpec, l: Seq<Attr>)
    ensures
        entry_samba(spec, l) <==> spec.samba && values_of(l, "objectClass"@) is Some && exists|i: int|
            0 <= i < values_of(l, "objectClass"@)->0.len() && same_ci(
                #[trigger] values_of(l, "objectClass"@)->0[i],
                "sambaSamAccount"@,
            ),
{
    if let Some(v) = values_of(l, "objectClass"@) {
        crate::text::names_are_found_in_any_case(v, v, "sambaSamAccount"@);
    }
}

/// A typed password is written under the profile's attribute and shown hidden; without one the entry
/// is added and shown as it is.
pub proof fn typed_passwords_are_added_and_hidden<
    W: Fn(&str, &str, bool) -> Vec<AttrEntry>,
    R: Fn(&str, &AttrMap) -> String,
>(
    dn: Seq<char>,
    password: Option<Seq<char>>,
    spec: Option<PasswordSpec>,
    write: W,
    render: R,
    old: AttrMap,
    new: AttrMap,
    body: String,
)
    requires
        typed_previewed(dn, password, spec, write, render, old, new, body),
    ensures
        password is None || spec is None ==> new@ == old@ && exists|name: &str, shown: AttrMap|
            #[trigger] call_ensures(render, (name, &shown), body) && name@ == dn && shown@ == old@,
        password is Some && spec is Some ==> exists|
            name: &str,
            shown: AttrMap,
            text: &str,
            attr: &str,
            added: Vec<AttrEntry>,
        |
            {
                &&& #[trigger] call_ensures(
                    write,
                    (text, attr, entry_samba(spec->0, old@)),
                    added,
                )
                &&& text@ == password->0 && attr@ == spec->0.ldap_attribute@
                &&& new@ == with_added(old@, added@)
                &&& #[trigger] call_ensures(render, (name, &shown), body)
                &&& name@ == dn && shown@ == all_hidden(new@, attr@)
            },
{
}

/// A password that was not repeated, a number that could not be found, and an entry that cannot be made
/// are explained; nothing but the dialog changes.
pub proof fn typed_creations_keep_the_form<
    P: Fn(&EntryProfile, &AttrMap) -> Vec<Resolution>,
    A: Fn(&str, u64, u64) -> Result<u64, String>,
    W: Fn(&str, &str, bool) -> Vec<AttrEntry>,
    B: Fn(&EntryProfile, &str, &str, &EditEntry) -> EditEntry,
    V: Fn(&EditEntry, &Vec<String>) -> Vec<ValidationError>,
    R: Fn(&str, &AttrMap) -> String,
>(
    old: App,
    new: App,
    profile: &EntryProfile,
    in_container: Seq<char>,
    defaults: P,
    allocate: A,
    write: W,
    build: B,
    validate: V,
    render: R,
)
    requires
        typed_prepared(
            old,
            new,
            profile,
            in_container,
            defaults,
            allocate,
            write,
            build,
            validate,
            render,
        ),
    ensures
        new == (App { overlay: new.overlay, ..old }),
        new.overlay is Some && (new.overlay->0 is Error || (new.overlay->0 matches Overlay::Confirm {
            title,
            body,
            action,
        } && title@ == "Create this entry?"@ && (action matches PendingAction::Create {
            dn,
            attrs,
            parent,
        } && parent@ == in_container))),
{
}



} // verus!
