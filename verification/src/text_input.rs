//! A one-line text input: its text and the place of its cursor.
use crossterm::event::{KeyCode as Code, KeyEvent, KeyModifiers};
use tui_prompts::{State, TextState};
use vstd::prelude::*;
use vstd::string::*;
use vstd::utf8::{encode_utf8, is_char_boundary};

use crate::keys::{KeyCode, KeyPress, CONTROL, SHIFT};

verus! {

/// A text input as a mathematical value: the text, and the cursor's place in it, counted in
/// characters.
pub type Input = (Seq<char>, int);

/// A key that a text input has a use for.
#[derive(Debug, Clone, Copy, PartialEq, Eq, Structural)]
pub enum TextKey {
    Char(char),
    Left,
    Right,
    Home,
    End,
    Backspace,
    Delete,
}

/// The text without the characters from `from` to `to`; places behind the end count as the end.
pub open spec fn cut(v: Seq<char>, from: int, to: int) -> Seq<char> {
    let a = if from < v.len() { from } else { v.len() as int };
    let b = if to < v.len() { to } else { v.len() as int };
    v.take(a) + v.skip(b)
}

/// The text with a character at a place; a place behind the end counts as the end.
pub open spec fn with_char(v: Seq<char>, at: int, c: char) -> Seq<char> {
    let a = if at < v.len() { at } else { v.len() as int };
    v.take(a).push(c) + v.skip(a)
}

/// The text whose encoding is the first `n` bytes of the encoding of `v`; the whole text where
/// that has no more bytes.
pub open spec fn first_bytes(v: Seq<char>, n: int) -> Seq<char> {
    if n >= encode_utf8(v).len() {
        v
    } else {
        choose|t: Seq<char>| encode_utf8(t) == encode_utf8(v).subrange(0, n)
    }
}

/// Whether cutting the text behind the byte at the cursor's place cuts no character in two.
pub open spec fn can_kill(i: Input) -> bool {
    i.1 >= encode_utf8(i.0).len() || is_char_boundary(encode_utf8(i.0), i.1)
}

/// The input after the cursor moved left.
pub open spec fn moved_left(i: Input) -> Input {
    (i.0, if i.1 > 0 { i.1 - 1 } else { 0 })
}

/// The input after the cursor moved right.
pub open spec fn moved_right(i: Input) -> Input {
    (i.0, if i.1 == i.0.len() { i.1 } else { i.1 + 1 })
}

/// The input without the character before the cursor.
pub open spec fn backspaced(i: Input) -> Input {
    if i.1 == 0 {
        i
    } else {
        (cut(i.0, i.1 - 1, i.1), i.1 - 1)
    }
}

/// The input without the character behind the cursor.
pub open spec fn deleted(i: Input) -> Input {
    if i.1 == i.0.len() {
        i
    } else {
        (cut(i.0, i.1, i.1 + 1), i.1)
    }
}

/// The input after a key. A plain or shifted character is typed at the cursor, and control makes
/// some letters editing keys; every other character with a modifier is without effect.
pub open spec fn keyed(i: Input, key: TextKey, modifiers: u8) -> Input {
    match key {
        TextKey::Left => moved_left(i),
        TextKey::Right => moved_right(i),
        TextKey::Home => (i.0, 0),
        TextKey::End => (i.0, i.0.len() as int),
        TextKey::Backspace => backspaced(i),
        TextKey::Delete => deleted(i),
        TextKey::Char(c) => if modifiers == 0 || modifiers == SHIFT {
            (with_char(i.0, i.1, c), i.1 + 1)
        } else if modifiers != CONTROL {
            i
        } else if c == 'b' {
            moved_left(i)
        } else if c == 'f' {
            moved_right(i)
        } else if c == 'a' {
            (i.0, 0)
        } else if c == 'e' {
            (i.0, i.0.len() as int)
        } else if c == 'h' {
            backspaced(i)
        } else if c == 'd' {
            deleted(i)
        } else if c == 'k' {
            (first_bytes(i.0, i.1), i.1)
        } else if c == 'u' {
            (Seq::empty(), 0)
        } else {
            i
        },
    }
}

/// `tui_prompts::State::handle_key_event` on a `tui_prompts::TextState` that holds `value` with
/// the cursor at `position` leaves the text and the cursor as the documented key bindings say.
/// Control with `k` truncates the text at the byte whose number is the cursor's place, and must
/// not cut a character in two there.
#[verifier::external_body]
fn prompt_key(value: &str, position: usize, key: TextKey, modifiers: u8) -> (r: (String, usize))
    requires
        position < usize::MAX,
        key == TextKey::Char('k') && modifiers == CONTROL ==> can_kill((value@, position as int)),
    ensures
        (r.0@, r.1 as int) == keyed((value@, position as int), key, modifiers),
{
    let code = match key {
        TextKey::Char(c) => Code::Char(c),
        TextKey::Left => Code::Left,
        TextKey::Right => Code::Right,
        TextKey::Home => Code::Home,
        TextKey::End => Code::End,
        TextKey::Backspace => Code::Backspace,
        TextKey::Delete => Code::Delete,
    };
    let mut state = TextState::new().with_value(value.to_string());
    *state.position_mut() = position;
    state.handle_key_event(KeyEvent::new(code, KeyModifiers::from_bits_retain(modifiers)));
    (state.value().to_string(), state.position())
}

/// The key that a key press is to a text input, if it has a use for it.
pub open spec fn text_key_of(code: KeyCode) -> Option<TextKey> {
    match code {
        KeyCode::Char(c) => Some(TextKey::Char(c)),
        KeyCode::Left => Some(TextKey::Left),
        KeyCode::Right => Some(TextKey::Right),
        KeyCode::Home => Some(TextKey::Home),
        KeyCode::End => Some(TextKey::End),
        KeyCode::Backspace => Some(TextKey::Backspace),
        KeyCode::Delete => Some(TextKey::Delete),
        _ => None,
    }
}

/// The input after a key press; one that it has no use for changes nothing.
pub open spec fn pressed(i: Input, key: KeyPress) -> Input {
    match text_key_of(key.code) {
        Some(k) => keyed(i, k, key.modifiers),
        None => i,
    }
}

/// Whether a key press can be handled: control with `k` must not cut a character in two.
pub open spec fn can_press(i: Input, key: KeyPress) -> bool {
    &&& i.1 < usize::MAX
    &&& key.code == KeyCode::Char('k') && key.modifiers == CONTROL ==> can_kill(i)
}

/// A one-line text input.
#[derive(Debug)]
pub struct TextInput {
    pub value: String,
    pub position: usize,
}

impl TextInput {
    pub open spec fn model(self) -> Input {
        (self.value@, self.position as int)
    }

    /// An empty input.
    pub fn new() -> (r: TextInput)
        ensures
            r.model() == (Seq::<char>::empty(), 0int),
    {
        TextInput { value: String::new(), position: 0 }
    }

    /// An input that holds a text, with the cursor in front of it.
    pub fn with_value(value: String) -> (r: TextInput)
        ensures
            r.model() == (value@, 0int),
    {
        TextInput { value, position: 0 }
    }

    /// The text.
    pub fn value(&self) -> (r: &str)
        ensures
            r@ == self.model().0,
    {
        self.value.as_str()
    }

    /// A copy of the input.
    pub fn copy(&self) -> (r: TextInput)
        ensures
            r.model() == self.model(),
    {
        TextInput { value: self.value.clone(), position: self.position }
    }

    /// Handles a key press.
    pub fn handle_key(&mut self, key: KeyPress)
        requires
            can_press(old(self).model(), key),
        ensures
            final(self).model() == pressed(old(self).model(), key),
    {
        let text_key: Option<TextKey> = match key.code {
            KeyCode::Char(c) => Some(TextKey::Char(c)),
            KeyCode::Left => Some(TextKey::Left),
            KeyCode::Right => Some(TextKey::Right),
            KeyCode::Home => Some(TextKey::Home),
            KeyCode::End => Some(TextKey::End),
            KeyCode::Backspace => Some(TextKey::Backspace),
            KeyCode::Delete => Some(TextKey::Delete),
            _ => None,
        };
        match text_key {
            Some(k) => {
                let r: (String, usize) = prompt_key(&self.value, self.position, k, key.modifiers);
                self.value = r.0;
                self.position = r.1;
            },
            None => {},
        }
    }
}

/// Deleting what was just typed gives back the input, wherever the cursor stands in the text.
pub proof fn backspace_undoes_typing(i: Input, c: char)
    requires
        0 <= i.1 <= i.0.len(),
    ensures
        keyed(keyed(i, TextKey::Char(c), 0), TextKey::Backspace, 0) == i,
{
    let t = with_char(i.0, i.1, c);
    assert(cut(t, i.1, i.1 + 1) =~= i.0);
}

/// A key that is typed into a text acts at the cursor: a character comes in front of what stands
/// there, plain or with shift; backspace takes the one before it and delete the one behind it; the
/// arrows step over one, and home and end go to the ends. The rest of the text stays.
pub proof fn keys_act_at_the_cursor(a: Seq<char>, b: Seq<char>, x: char, y: char, c: char, key: KeyPress)
    requires
        key.modifiers == 0 || key.modifiers == SHIFT,
    ensures
        ({
            let n = a.len() as int;
            let text = a.push(x) + seq![y] + b;
            let here = (text, n + 1);
            &&& key.code == KeyCode::Char(c) ==> pressed(here, key) == (
                a.push(x).push(c) + seq![y] + b,
                n + 2,
            )
            &&& key.code is Backspace ==> pressed(here, key) == (a + seq![y] + b, n)
            &&& key.code is Delete ==> pressed(here, key) == (a.push(x) + b, n + 1)
            &&& key.code is Left ==> pressed(here, key) == (text, n)
            &&& key.code is Right ==> pressed(here, key) == (text, n + 2)
            &&& key.code is Home ==> pressed(here, key) == (text, 0int)
            &&& key.code is End ==> pressed(here, key) == (text, text.len() as int)
        }),
{
    let n = a.len() as int;
    let text = a.push(x) + seq![y] + b;
    assert(with_char(text, n + 1, c) =~= a.push(x).push(c) + seq![y] + b);
    assert(cut(text, n, n + 1) =~= a + seq![y] + b);
    assert(cut(text, n + 1, n + 2) =~= a.push(x) + b);
}

/// At the ends of a text the cursor stays: there is nothing to step over or to take away. A character
/// may still be typed there.
pub proof fn the_cursor_stays_in_the_text(v: Seq<char>, c: char, key: KeyPress)
    requires
        key.modifiers == 0,
    ensures
        key.code is Left || key.code is Backspace ==> pressed((v, 0int), key) == (v, 0int),
        key.code is Right || key.code is Delete ==> pressed((v, v.len() as int), key) == (
            v,
            v.len() as int,
        ),
        key.code == KeyCode::Char(c) ==> pressed((v, v.len() as int), key) == (
            v.push(c),
            v.len() as int + 1,
        ),
        key.code == KeyCode::Char(c) ==> pressed((v, 0int), key) == (seq![c] + v, 1int),
{
    assert(with_char(v, v.len() as int, c) =~= v.push(c));
    assert(with_char(v, 0, c) =~= seq![c] + v);
}

/// With control some letters edit as keys of their own do; with any other modifier no character has an
/// effect, and keys without a meaning to a text never do.
pub proof fn control_letters_edit(i: Input, key: KeyPress, plain: KeyPress)
    requires
        plain.modifiers == 0,
    ensures
        key.modifiers == CONTROL && key.code == KeyCode::Char('b') && plain.code is Left ==> pressed(
            i,
            key,
        ) == pressed(i, plain),
        key.modifiers == CONTROL && key.code == KeyCode::Char('f') && plain.code is Right ==> pressed(
            i,
            key,
        ) == pressed(i, plain),
        key.modifiers == CONTROL && key.code == KeyCode::Char('a') && plain.code is Home ==> pressed(
            i,
            key,
        ) == pressed(i, plain),
        key.modifiers == CONTROL && key.code == KeyCode::Char('e') && plain.code is End ==> pressed(
            i,
            key,
        ) == pressed(i, plain),
        key.modifiers == CONTROL && key.code == KeyCode::Char('h') && plain.code is Backspace
            ==> pressed(i, key) == pressed(i, plain),
        key.modifiers == CONTROL && key.code == KeyCode::Char('d') && plain.code is Delete ==> pressed(
            i,
            key,
        ) == pressed(i, plain),
        key.modifiers == CONTROL && key.code == KeyCode::Char('u') ==> pressed(i, key) == (
            Seq::<char>::empty(),
            0int,
        ),
        key.code is Char && key.modifiers != 0 && key.modifiers != SHIFT && key.modifiers != CONTROL
            ==> pressed(i, key) == i,
        key.code is Enter || key.code is Esc || key.code is Tab || key.code is BackTab || key.code is Up
            || key.code is Down || key.code is PageUp || key.code is PageDown || key.code is Insert
            || key.code is Other ==> pressed(i, key) == i,
{
}

} // verus!
