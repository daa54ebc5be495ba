//! The popup that sets a password. What it stages waits in the form for the next save.
use vstd::prelude::*;
use vstd::string::*;

use crate::app::{App, Overlay, PasswordEditor, PwField};
use crate::edit_form::{password_targets, EditField, EditForm};
use crate::keys::{KeyCode, KeyPress};
use crate::text::{same_text, texts};
use crate::text_input::{can_press, pressed, TextInput};
use crate::widgets::{PasswordWidget, WidgetKind};

verus! {

/// The field that has the focus, if there is one.
pub open spec fn focused_field(app: App) -> Option<EditField> {
    if app.form is Some && app.form_focus < app.form->0.fields@.len() {
        Some(app.form->0.fields@[app.form_focus as int])
    } else {
        None
    }
}

/// Whether the popup is fresh, for the attributes of a password.
pub open spec fn fresh_popup(ed: PasswordEditor, pw: PasswordWidget) -> bool {
    &&& ed.new.model() == (Seq::<char>::empty(), 0int)
    &&& ed.confirm.model() == (Seq::<char>::empty(), 0int)
    &&& ed.focus == PwField::New
    &&& texts(ed.affected@) == password_targets(pw)
    &&& ed.message@.len() == 0
}

/// Whether `new` is `old` after the password popup was asked for: over a password field it opens,
/// or is refused where the connection is not encrypted.
pub open spec fn popup_opened(old: App, new: App) -> bool {
    &&& new == (App { overlay: new.overlay, ..old })
    &&& match focused_field(old) {
        Some(f) => match f.widget_binding {
            Some(WidgetKind::Password(pw)) => if old.connection_encrypted {
                match new.overlay {
                    Some(Overlay::PasswordEditor(ed)) => fresh_popup(ed, *pw),
                    _ => false,
                }
            } else {
                match new.overlay {
                    Some(Overlay::Error { text }) => text@ == unencrypted_text(),
                    _ => false,
                }
            },
            _ => new == old,
        },
        None => new == old,
    }
}

/// What refuses a password change over a plain connection.
pub open spec fn unencrypted_text() -> Seq<char> {
    "Changing a password requires an encrypted connection (ldaps://, ldapi://, or start_tls)."@
}

impl PasswordEditor {
    fn new_for(pw: &PasswordWidget) -> (r: PasswordEditor)
        ensures
            fresh_popup(r, *pw),
    {
        let mut affected: Vec<String> = Vec::new();
        affected.push(pw.primary.clone());
        let mut i: usize = 0;
        let ghost goal = password_targets(*pw);
        assert(texts(affected@) =~= goal.take(1));
        while i < pw.derived.len()
            invariant
                i <= pw.derived@.len(),
                goal == password_targets(*pw),
                texts(affected@) == goal.take(i + 1),
            decreases pw.derived@.len() - i,
        {
            let ghost a0 = affected@;
            affected.push(pw.derived[i].clone());
            i += 1;
            proof {
                assert(texts(affected@) =~= texts(a0).push(goal[i as int]));
                assert(texts(affected@) =~= goal.take(i + 1));
            }
        }
        assert(goal.take(goal.len() as int) =~= goal);
        PasswordEditor {
            new: TextInput::new(),
            confirm: TextInput::new(),
            focus: PwField::New,
            affected,
            message: String::new(),
        }
    }
}

/// Opens the password popup over the focused field, if that holds a password. Over a connection
/// that is not encrypted it is refused.
pub fn open_password_editor(app: &mut App)
    ensures
        popup_opened(*old(app), *final(app)),
{
    let overlay: Option<Overlay> = match &app.form {
        None => None,
        Some(form) => {
            if app.form_focus < form.fields.len() {
                match &form.fields[app.form_focus].widget_binding {
                    Some(WidgetKind::Password(pw)) => if app.connection_encrypted {
                        Some(Overlay::PasswordEditor(PasswordEditor::new_for(pw)))
                    } else {
                        Some(
                            Overlay::Error {
                                text: "Changing a password requires an encrypted connection (ldaps://, ldapi://, or start_tls).".to_owned(),
                            },
                        )
                    },
                    _ => None,
                }
            } else {
                None
            }
        },
    };
    if overlay.is_some() {
        app.overlay = overlay;
    }
}

/// Whether `new` is the popup after a key edited its focused row; the message goes.
pub open spec fn row_edited(old: PasswordEditor, new: PasswordEditor, key: KeyPress) -> bool {
    &&& new == (PasswordEditor {
        new: new.new,
        confirm: new.confirm,
        message: new.message,
        ..old
    })
    &&& new.message@.len() == 0
    &&& if old.focus == PwField::New {
        new.new.model() == pressed(old.new.model(), key) && new.confirm == old.confirm
    } else {
        new.confirm.model() == pressed(old.confirm.model(), key) && new.new == old.new
    }
}

/// Whether `new` is `old` after the popup was asked to stage its password: nothing typed cancels,
/// two different rows are told so, and otherwise the password waits in the form.
pub open spec fn staged(old: App, new: App, ed: PasswordEditor) -> bool {
    if ed.new.value@.len() == 0 {
        new == (App { overlay: None, ..old })
    } else if ed.new.value@ != ed.confirm.value@ {
        &&& new == (App { overlay: new.overlay, ..old })
        &&& match new.overlay {
            Some(Overlay::PasswordEditor(e)) => e == (PasswordEditor { message: e.message, ..ed })
                && e.message@ == "passwords do not match"@,
            _ => false,
        }
    } else {
        &&& new == (App { overlay: None, form: new.form, status: new.status, ..old })
        &&& new.status@ == "Password staged — Alt+S to save."@
        &&& match (old.form, new.form) {
            (None, None) => true,
            (Some(f), Some(g)) => {
                &&& g == (EditForm { pending_password: g.pending_password, ..f })
                &&& g.pending_password is Some
                &&& g.pending_password->0@ == ed.new.value@
            },
            _ => false,
        }
    }
}

/// Whether `new` is `old` after a key in the password popup.
pub open spec fn password_keyed(old: App, new: App, key: KeyPress) -> bool {
    if key.code == KeyCode::Esc || key.is_alt('c', 'C') {
        new == (App { overlay: None, ..old })
    } else {
        match old.overlay {
            Some(Overlay::PasswordEditor(ed)) => if key.is_alt('s', 'S') {
                staged(old, new, ed)
            } else {
                &&& new == (App { overlay: new.overlay, ..old })
                &&& match new.overlay {
                    Some(Overlay::PasswordEditor(e)) => if key.code == KeyCode::Tab || key.code
                        == KeyCode::Up || key.code == KeyCode::Down {
                        e == (PasswordEditor {
                            focus: if ed.focus == PwField::New {
                                PwField::Confirm
                            } else {
                                PwField::New
                            },
                            ..ed
                        })
                    } else {
                        row_edited(ed, e, key)
                    },
                    _ => false,
                }
            },
            _ => new == old,
        }
    }
}

/// Whether the focused row of the password popup, if that is open, can handle a key.
pub open spec fn password_takes_key(app: App, key: KeyPress) -> bool {
    match app.overlay {
        Some(Overlay::PasswordEditor(ed)) => can_press(
            if ed.focus == PwField::New {
                ed.new.model()
            } else {
                ed.confirm.model()
            },
            key,
        ),
        _ => true,
    }
}

/// Handles a key in the password popup: Esc and Alt+C cancel, Alt+S stages, Tab and the arrows
/// change the row, and any other key edits the row.
pub fn password_editor_key(app: &mut App, key: KeyPress)
    requires
        password_takes_key(*old(app), key),
    ensures
        password_keyed(*old(app), *final(app), key),
{
    if key.code == KeyCode::Esc || key.alt_letter('c', 'C') {
        app.overlay = None;
        return;
    }
    if key.alt_letter('s', 'S') {
        let mut clear: Option<String> = None;
        let mut closes: bool = false;
        match &mut app.overlay {
            Some(Overlay::PasswordEditor(ed)) => {
                if ed.new.value().is_empty() {
                    closes = true;
                } else if !same_text(ed.new.value(), ed.confirm.value()) {
                    ed.message = "passwords do not match".to_owned();
                } else {
                    clear = Some(ed.new.value.clone());
                    closes = true;
                }
            },
            _ => {},
        }
        if closes {
            app.overlay = None;
        }
        match clear {
            Some(password) => {
                match &mut app.form {
                    Some(form) => {
                        form.pending_password = Some(password);
                    },
                    None => {},
                }
                app.status = "Password staged — Alt+S to save.".to_owned();
            },
            None => {},
        }
        return;
    }
    let switches: bool = key.code == KeyCode::Tab || key.code == KeyCode::Up || key.code
        == KeyCode::Down;
    match &mut app.overlay {
        Some(Overlay::PasswordEditor(ed)) => {
            if switches {
                ed.focus = match ed.focus {
                    PwField::New => PwField::Confirm,
                    PwField::Confirm => PwField::New,
                };
            } else {
                ed.message = String::new();
                match ed.focus {
                    PwField::New => ed.new.handle_key(key),
                    PwField::Confirm => ed.confirm.handle_key(key),
                }
            }
        },
        _ => {},
    }
}

/// A password is staged only from two equal rows that hold something.
pub proof fn only_confirmed_passwords_are_staged(old: App, new: App, key: KeyPress)
    requires
        password_keyed(old, new, key),
        old.form is Some,
        old.form->0.pending_password is None,
        new.form is Some,
        new.form->0.pending_password is Some,
    ensures
        match old.overlay {
            Some(Overlay::PasswordEditor(ed)) => ed.new.value@ == ed.confirm.value@
                && ed.new.value@.len() > 0 && new.form->0.pending_password->0@ == ed.new.value@,
            _ => false,
        },
{
}

/// A password popup opens empty, on its first row, and names every attribute that it will change; over
/// a connection that is not encrypted it does not open. The form is untouched either way.
pub proof fn password_popups_need_encryption(old: App, new: App, pw: PasswordWidget)
    requires
        popup_opened(old, new),
        old.form is Some,
        old.form_focus < old.form->0.fields@.len(),
        old.form->0.fields@[old.form_focus as int].widget_binding is Some,
        old.form->0.fields@[old.form_focus as int].widget_binding->0 is Password,
        *old.form->0.fields@[old.form_focus as int].widget_binding->0->Password_0 == pw,
    ensures
        new.form == old.form && new.status == old.status,
        old.connection_encrypted ==> (new.overlay matches Some(Overlay::PasswordEditor(ed))
            && ed.new.value@.len() == 0 && ed.confirm.value@.len() == 0 && ed.focus == PwField::New
            && ed.message@.len() == 0 && ed.affected@.len() == pw.derived@.len() + 1
            && ed.affected@[0]@ == pw.primary@ && forall|k: int|
            0 <= k < pw.derived@.len() ==> ed.affected@[k + 1]@ == (#[trigger] pw.derived@[k])@),
        !old.connection_encrypted ==> (new.overlay matches Some(Overlay::Error { text }) && text@
            == "Changing a password requires an encrypted connection (ldaps://, ldapi://, or start_tls)."@),
{
    if old.connection_encrypted {
        let ed = new.overlay->0->PasswordEditor_0;
        let t = password_targets(pw);
        assert(texts(ed.affected@) == t);
        assert(ed.affected@.len() == t.len());
        assert(texts(ed.affected@)[0] == ed.affected@[0]@);
        assert forall|k: int| 0 <= k < pw.derived@.len() implies ed.affected@[k + 1]@
            == (#[trigger] pw.derived@[k])@ by {
            assert(texts(ed.affected@)[k + 1] == ed.affected@[k + 1]@);
            assert(t[k + 1] == texts(pw.derived@)[k]);
        }
    }
}

/// A password that was typed twice waits in the form, as typed, for the next save, and the popup
/// closes; nothing else of the form changes. A difference is told and the popup stays; an empty
/// password cancels.
pub proof fn equal_rows_are_staged(old: App, new: App, key: KeyPress)
    requires
        password_keyed(old, new, key),
        key.is_alt('s', 'S'),
        old.overlay is Some,
        old.overlay->0 is PasswordEditor,
        old.form is Some,
    ensures
        ({
            let ed = old.overlay->0->PasswordEditor_0;
            let typed = ed.new.value@;
            &&& typed.len() > 0 && typed == ed.confirm.value@ ==> new.overlay is None
                && new.form is Some && new.form->0.pending_password is Some
                && new.form->0.pending_password->0@ == typed && new.form->0.fields
                == old.form->0.fields && new.form->0.baseline == old.form->0.baseline
                && new.form->0.dn == old.form->0.dn
            &&& typed.len() > 0 && typed != ed.confirm.value@ ==> new.form == old.form && (
            new.overlay matches Some(Overlay::PasswordEditor(e)) && e.message@
                == "passwords do not match"@ && e.new == ed.new && e.confirm == ed.confirm)
            &&& typed.len() == 0 ==> new.form == old.form && new.overlay is None
        }),
{
}

/// Esc and Alt+C close the popup and stage nothing; Tab and the arrows go to the other row; every other
/// key edits the row that has the focus and clears the message. None of them touches the form.
pub proof fn keys_of_the_password_popup(old: App, new: App, key: KeyPress)
    requires
        password_keyed(old, new, key),
        !key.is_alt('s', 'S'),
        old.overlay is Some,
        old.overlay->0 is PasswordEditor,
    ensures
        new.form == old.form && new.status == old.status,
        key.code is Esc || key.is_alt('c', 'C') ==> new.overlay is None,
        !(key.code is Esc) && !key.is_alt('c', 'C') ==> ({
            let ed = old.overlay->0->PasswordEditor_0;
            &&& new.overlay matches Some(Overlay::PasswordEditor(e)) && e.affected == ed.affected && if (
            key.code is Tab || key.code is Up || key.code is Down) {
                e.focus != ed.focus && e.new == ed.new && e.confirm == ed.confirm
            } else {
                &&& e.focus == ed.focus && e.message@.len() == 0
                &&& ed.focus == PwField::New ==> e.new.model() == pressed(ed.new.model(), key)
                    && e.confirm == ed.confirm
                &&& ed.focus == PwField::Confirm ==> e.confirm.model() == pressed(
                    ed.confirm.model(),
                    key,
                ) && e.new == ed.new
            }
        }),
{
}

} // verus!
