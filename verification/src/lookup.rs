//! The lookup field: a number shown with the name it stands for, edited in a combobox. The number
//! at the start of the input is the value; picking a row writes that row's number there.
use std::rc::Rc;
use vstd::prelude::*;
use vstd::string::*;

use crate::text::{
    add_name, chars_of, concat2, copy_texts, same_text, text_of, texts, trim_start, trim_start_of,
    with_name,
};
use crate::widgets::{Candidate, LookupBinding, WidgetKind};

verus! {

/// Whether a character is a decimal digit.
pub open spec fn is_digit(c: char) -> bool {
    '0' <= c && c <= '9'
}

/// The number of digits at the start of a text.
pub open spec fn digits_at_start(s: Seq<char>) -> int
    decreases s.len(),
{
    if s.len() > 0 && is_digit(s[0]) {
        1 + digits_at_start(s.skip(1))
    } else {
        0
    }
}

/// The digits that a text starts with, whitespace aside; nothing where there are none.
pub open spec fn number_at_start(s: Seq<char>) -> Option<Seq<char>> {
    let t = trim_start_of(s);
    if digits_at_start(t) == 0 {
        None
    } else {
        Some(t.take(digits_at_start(t)))
    }
}

proof fn digits_in_range(s: Seq<char>)
    ensures
        0 <= digits_at_start(s) <= s.len(),
    decreases s.len(),
{
    if s.len() > 0 && is_digit(s[0]) {
        digits_in_range(s.skip(1));
    }
}

proof fn digits_end(s: Seq<char>, n: int)
    requires
        0 <= n <= s.len(),
        forall|i: int| 0 <= i < n ==> is_digit(#[trigger] s[i]),
        n < s.len() ==> !is_digit(s[n]),
    ensures
        digits_at_start(s) == n,
    decreases s.len(),
{
    if n > 0 {
        assert(is_digit(s[0]));
        assert forall|i: int| 0 <= i < n - 1 implies is_digit(#[trigger] s.skip(1)[i]) by {
            assert(s.skip(1)[i] == s[i + 1]);
        }
        digits_end(s.skip(1), n - 1);
    }
}

/// The value of an input: the digits that it starts with, whitespace aside.
pub fn leading_number(input: &str) -> (r: Option<String>)
    ensures
        match r {
            Some(n) => number_at_start(input@) == Some(n@),
            None => number_at_start(input@) is None,
        },
{
    let started: String = trim_start(input);
    let v: Vec<char> = chars_of(&started);
    let mut i: usize = 0;
    while i < v.len() && '0' <= v[i] && v[i] <= '9'
        invariant
            i <= v@.len(),
            forall|j: int| 0 <= j < i ==> is_digit(#[trigger] v@[j]),
        decreases v@.len() - i,
    {
        i += 1;
    }
    proof {
        digits_end(v@, i as int);
        assert(v@.take(i as int) =~= v@.subrange(0, i as int));
    }
    if i == 0 {
        None
    } else {
        Some(text_of(&v, 0, i))
    }
}

/// Whether an input holds a value that can be committed.
pub fn ok_enabled(input: &str) -> (r: bool)
    ensures
        r == number_at_start(input@) is Some,
{
    leading_number(input).is_some()
}

/// A row of the list: the name, and the value in brackets.
pub open spec fn row_of(value: Seq<char>, label: Seq<char>) -> Seq<char> {
    label + " ("@ + value + ")"@
}

/// The input that picking a row gives: the value, and the name in brackets.
pub open spec fn input_of(value: Seq<char>, label: Seq<char>) -> Seq<char> {
    value + " ("@ + label + ")"@
}

/// How a row shows: the name, and the value in brackets.
pub fn row_display(value: &str, label: &str) -> (r: String)
    ensures
        r@ == row_of(value@, label@),
{
    let mut r: String = concat2(label, " (");
    r.append(value);
    r.append(")");
    r
}

/// What picking a row puts into the input: the value, and the name in brackets.
pub fn input_after_pick(value: &str, label: &str) -> (r: String)
    ensures
        r@ == input_of(value@, label@),
{
    let mut r: String = concat2(value, " (");
    r.append(label);
    r.append(")");
    r
}

/// Picking a row whose value is a number puts exactly that value into the input.
pub proof fn picked_value_is_committed(value: Seq<char>, label: Seq<char>)
    requires
        value.len() > 0,
        forall|i: int| 0 <= i < value.len() ==> is_digit(#[trigger] value[i]),
    ensures
        number_at_start(input_of(value, label)) == Some(value),
{
    reveal_strlit(" (");
    let s = input_of(value, label);
    assert(s[0] == value[0]);
    assert(is_digit(value[0]));
    assert(trim_start_of(s) == s);
    assert forall|i: int| 0 <= i < value.len() implies is_digit(#[trigger] s[i]) by {
        assert(s[i] == value[i]);
    }
    assert(s[value.len() as int] == ' ');
    digits_end(s, value.len() as int);
    assert(s.take(value.len() as int) =~= value);
}

/// The candidates of a list, as mathematical values: value and name.
pub open spec fn pairs(rows: Seq<(String, String)>) -> Seq<(Seq<char>, Seq<char>)> {
    rows.map_values(|r: (String, String)| (r.0@, r.1@))
}

/// The first candidate with a value.
pub open spec fn first_with_value(rows: Seq<(Seq<char>, Seq<char>)>, value: Seq<char>) -> Option<int>
    decreases rows.len(),
{
    if rows.len() == 0 {
        None
    } else {
        match first_with_value(rows.drop_last(), value) {
            Some(i) => Some(i),
            None => if rows.last().0 == value {
                Some(rows.len() - 1)
            } else {
                None
            },
        }
    }
}

proof fn first_with_value_prefix(rows: Seq<(Seq<char>, Seq<char>)>, value: Seq<char>, n: int)
    requires
        0 <= n <= rows.len(),
        first_with_value(rows.take(n), value) is Some,
    ensures
        first_with_value(rows, value) == first_with_value(rows.take(n), value),
    decreases rows.len() - n,
{
    if n < rows.len() {
        assert(rows.take(n + 1).drop_last() =~= rows.take(n));
        first_with_value_prefix(rows, value, n + 1);
    } else {
        assert(rows.take(n) =~= rows);
    }
}

/// The row that an input highlights: the first whose value is exactly the input's number.
pub open spec fn highlight_of(rows: Seq<(Seq<char>, Seq<char>)>, input: Seq<char>) -> Option<int> {
    match number_at_start(input) {
        Some(n) => first_with_value(rows, n),
        None => None,
    }
}

/// The row that an input highlights: the first whose value is exactly the input's number.
pub fn highlight_index(rows: &Vec<(String, String)>, input: &str) -> (r: Option<usize>)
    ensures
        match r {
            Some(i) => highlight_of(pairs(rows@), input@) == Some(i as int) && i < rows@.len(),
            None => highlight_of(pairs(rows@), input@) is None,
        },
{
    let n: String = match leading_number(input) {
        Some(n) => n,
        None => return None,
    };
    let ghost all = pairs(rows@);
    let mut i: usize = 0;
    while i < rows.len()
        invariant
            i <= rows@.len(),
            all == pairs(rows@),
            number_at_start(input@) == Some(n@),
            first_with_value(all.take(i as int), n@) is None,
        decreases rows@.len() - i,
    {
        proof {
            assert(all.take(i + 1).drop_last() =~= all.take(i as int));
            assert(all.take(i + 1).last() == (rows@[i as int].0@, rows@[i as int].1@));
        }
        if same_text(&rows[i].0, &n) {
            proof {
                first_with_value_prefix(all, n@, i + 1);
            }
            return Some(i);
        }
        i += 1;
    }
    assert(all.take(all.len() as int) =~= all);
    None
}

/// Picking a row whose value is a number highlights a row with that value again.
pub proof fn picked_row_is_highlighted(rows: Seq<(Seq<char>, Seq<char>)>, i: int)
    requires
        0 <= i < rows.len(),
        rows[i].0.len() > 0,
        forall|j: int| 0 <= j < rows[i].0.len() ==> is_digit(#[trigger] rows[i].0[j]),
    ensures
        highlight_of(rows, input_of(rows[i].0, rows[i].1)) is Some,
        ({
            let k = highlight_of(rows, input_of(rows[i].0, rows[i].1))->0;
            0 <= k <= i && rows[k].0 == rows[i].0
        }),
{
    picked_value_is_committed(rows[i].0, rows[i].1);
    first_with_value_found(rows, rows[i].0, i);
}

proof fn first_with_value_found(rows: Seq<(Seq<char>, Seq<char>)>, value: Seq<char>, i: int)
    requires
        0 <= i < rows.len(),
        rows[i].0 == value,
    ensures
        first_with_value(rows, value) is Some,
        0 <= first_with_value(rows, value)->0 <= i,
        rows[first_with_value(rows, value)->0].0 == value,
    decreases rows.len(),
{
    let head = rows.drop_last();
    if i < head.len() {
        assert(head[i] == rows[i]);
        first_with_value_found(head, value, i);
        assert(head[first_with_value(head, value)->0] == rows[first_with_value(head, value)->0]);
    } else if first_with_value(head, value) is Some {
        first_with_value_at(head, value);
        assert(head[first_with_value(head, value)->0] == rows[first_with_value(head, value)->0]);
    }
}

proof fn first_with_value_at(rows: Seq<(Seq<char>, Seq<char>)>, value: Seq<char>)
    requires
        first_with_value(rows, value) is Some,
    ensures
        0 <= first_with_value(rows, value)->0 < rows.len(),
        rows[first_with_value(rows, value)->0].0 == value,
    decreases rows.len(),
{
    let head = rows.drop_last();
    if first_with_value(head, value) is Some {
        first_with_value_at(head, value);
        assert(head[first_with_value(head, value)->0] == rows[first_with_value(head, value)->0]);
    }
}

/// The rows of the list, as they show.
pub open spec fn shown_rows(rows: Seq<(Seq<char>, Seq<char>)>) -> Seq<Seq<char>> {
    rows.map_values(|r: (Seq<char>, Seq<char>)| row_of(r.0, r.1))
}

/// The rows of the list, as they show.
pub fn list_rows(rows: &Vec<(String, String)>) -> (r: Vec<String>)
    ensures
        texts(r@) == shown_rows(pairs(rows@)),
{
    let mut out: Vec<String> = Vec::new();
    let ghost goal = shown_rows(pairs(rows@));
    let mut i: usize = 0;
    while i < rows.len()
        invariant
            i <= rows@.len(),
            goal == shown_rows(pairs(rows@)),
            texts(out@) == goal.take(i as int),
        decreases rows@.len() - i,
    {
        let ghost o0 = out@;
        out.push(row_display(&rows[i].0, &rows[i].1));
        i += 1;
        proof {
            assert(texts(out@) =~= texts(o0).push(goal[i - 1]));
            assert(texts(out@) =~= goal.take(i as int));
        }
    }
    assert(goal.take(goal.len() as int) =~= goal);
    out
}

/// The first candidate that shows as a text.
pub open spec fn first_shown(rows: Seq<(Seq<char>, Seq<char>)>, text: Seq<char>) -> Option<
    (Seq<char>, Seq<char>),
>
    decreases rows.len(),
{
    if rows.len() == 0 {
        None
    } else {
        match first_shown(rows.drop_last(), text) {
            Some(p) => Some(p),
            None => if row_of(rows.last().0, rows.last().1) == text {
                Some(rows.last())
            } else {
                None
            },
        }
    }
}

proof fn first_shown_prefix(rows: Seq<(Seq<char>, Seq<char>)>, text: Seq<char>, n: int)
    requires
        0 <= n <= rows.len(),
        first_shown(rows.take(n), text) is Some,
    ensures
        first_shown(rows, text) == first_shown(rows.take(n), text),
    decreases rows.len() - n,
{
    if n < rows.len() {
        assert(rows.take(n + 1).drop_last() =~= rows.take(n));
        first_shown_prefix(rows, text, n + 1);
    } else {
        assert(rows.take(n) =~= rows);
    }
}

/// The input for the list's focused row, known by how it shows: the value of the first candidate
/// that shows so, with its name. Nothing where none does.
pub fn mirrored_input(rows: &Vec<(String, String)>, text: &str) -> (r: Option<String>)
    ensures
        match first_shown(pairs(rows@), text@) {
            Some(p) => r matches Some(s) && s@ == input_of(p.0, p.1),
            None => r is None,
        },
{
    let ghost all = pairs(rows@);
    let mut i: usize = 0;
    while i < rows.len()
        invariant
            i <= rows@.len(),
            all == pairs(rows@),
            first_shown(all.take(i as int), text@) is None,
        decreases rows@.len() - i,
    {
        proof {
            assert(all.take(i + 1).drop_last() =~= all.take(i as int));
            assert(all.take(i + 1).last() == (rows@[i as int].0@, rows@[i as int].1@));
        }
        if same_text(&row_display(&rows[i].0, &rows[i].1), text) {
            proof {
                first_shown_prefix(all, text@, i + 1);
            }
            return Some(input_after_pick(&rows[i].0, &rows[i].1));
        }
        i += 1;
    }
    assert(all.take(all.len() as int) =~= all);
    None
}

/// The attributes that the candidate search reads: those of the label template, the stored one, and
/// the common name.
pub fn label_attrs(template_attrs: &Vec<String>, store: &str) -> (r: Vec<String>)
    ensures
        texts(r@) == with_name(with_name(texts(template_attrs@), store@), "cn"@),
{
    let mut attrs: Vec<String> = copy_texts(template_attrs);
    add_name(&mut attrs, store);
    add_name(&mut attrs, "cn");
    attrs
}

/// What an event in the combobox is, as far as it is told apart.
#[derive(Debug, Clone, Copy, PartialEq, Eq, Structural)]
pub enum LookupEvent {
    /// New candidates arrived.
    Refresh,
    /// A row of the list was chosen.
    RowChosen,
    /// A key that moves the list's focus.
    ListKey,
    /// Anything else; it goes to the dialog.
    Other,
}

/// What an event leads to before the input is looked at again.
#[derive(Debug, Clone, Copy, PartialEq, Eq, Structural)]
pub enum LookupStep {
    /// Take in the candidates, look at the value, and hand the event to the dialog.
    TakeCandidates,
    /// Copy the focused row to the input; the event ends here.
    Mirror,
    /// Hand the event to the list, then copy the focused row to the input.
    MoveAndMirror,
    /// Hand the event to the dialog.
    Dialog,
}

/// What an event in the combobox leads to: choosing a row never counts as accepting the dialog, and
/// the keys that move go to the list while the input keeps the focus.
pub fn lookup_step(ev: LookupEvent) -> (r: LookupStep)
    ensures
        r == match ev {
            LookupEvent::Refresh => LookupStep::TakeCandidates,
            LookupEvent::RowChosen => LookupStep::Mirror,
            LookupEvent::ListKey => LookupStep::MoveAndMirror,
            LookupEvent::Other => LookupStep::Dialog,
        },
{
    match ev {
        LookupEvent::Refresh => LookupStep::TakeCandidates,
        LookupEvent::RowChosen => LookupStep::Mirror,
        LookupEvent::ListKey => LookupStep::MoveAndMirror,
        LookupEvent::Other => LookupStep::Dialog,
    }
}

/// The binding that the combobox edits a field by.
pub fn lookup_binding(widget: &Option<WidgetKind>) -> (r: Option<Rc<LookupBinding>>)
    ensures
        r == match *widget {
            Some(WidgetKind::Lookup(b)) => Some(b),
            _ => None,
        },
{
    match widget {
        Some(WidgetKind::Lookup(b)) => Some(b.clone()),
        _ => None,
    }
}

/// The candidates of results: what is stored of each, and its name.
pub open spec fn candidate_pairs(results: Seq<Candidate>) -> Seq<(Seq<char>, Seq<char>)> {
    results.map_values(|c: Candidate| (c.store_value@, c.label@))
}

/// The combobox: its candidates, and the input last seen.
pub struct Lookup {
    /// The candidates: value and name.
    pub all: Vec<(String, String)>,
    pub last_input: String,
}

/// Whether `new`, with the new input, is `old` after the list's focused row was taken over.
pub open spec fn mirrored(old: Lookup, new: Lookup, text: Seq<char>, r: Option<String>) -> bool {
    &&& new.all == old.all
    &&& match first_shown(pairs(old.all@), text) {
        Some(p) => (r matches Some(s) && s@ == input_of(p.0, p.1)) && new.last_input@ == input_of(
            p.0,
            p.1,
        ),
        None => r is None && new.last_input == old.last_input,
    }
}

/// Whether an input narrows the list: it is not the one last seen.
pub open spec fn narrows(l: Lookup, input: Seq<char>) -> bool {
    input != l.last_input@
}

impl Lookup {
    /// A combobox without candidates over a field that holds `current`.
    pub fn new(current: String) -> (r: Lookup)
        ensures
            r.all@.len() == 0,
            r.last_input == current,
    {
        Lookup { all: Vec::new(), last_input: current }
    }

    /// Takes in candidates. Gives back the rows of the list, and the row that the input highlights.
    pub fn take_candidates(&mut self, results: &Vec<Candidate>) -> (r: (Vec<String>, Option<usize>))
        ensures
            final(self).last_input == old(self).last_input,
            pairs(final(self).all@) == candidate_pairs(results@),
            texts(r.0@) == shown_rows(candidate_pairs(results@)),
            match r.1 {
                Some(i) => highlight_of(candidate_pairs(results@), old(self).last_input@) == Some(
                    i as int,
                ) && i < results@.len(),
                None => highlight_of(candidate_pairs(results@), old(self).last_input@) is None,
            },
    {
        let mut all: Vec<(String, String)> = Vec::new();
        let ghost goal = candidate_pairs(results@);
        let mut i: usize = 0;
        assert(pairs(all@) =~= goal.take(0));
        while i < results.len()
            invariant
                i <= results@.len(),
                goal == candidate_pairs(results@),
                all@.len() == i,
                pairs(all@) == goal.take(i as int),
            decreases results@.len() - i,
        {
            let ghost a0 = all@;
            all.push((results[i].store_value.clone(), results[i].label.clone()));
            i += 1;
            proof {
                assert(pairs(all@) =~= pairs(a0).push(goal[i - 1]));
                assert(pairs(all@) =~= goal.take(i as int));
            }
        }
        assert(goal.take(goal.len() as int) =~= goal);
        let rows: Vec<String> = list_rows(&all);
        let highlight: Option<usize> = highlight_index(&all, &self.last_input);
        self.all = all;
        (rows, highlight)
    }

    /// Takes over the focused row of the list, known by how it shows. Gives back the new input; it
    /// counts as seen.
    pub fn mirror(&mut self, text: &str) -> (r: Option<String>)
        ensures
            mirrored(*old(self), *final(self), text@, r),
    {
        match mirrored_input(&self.all, text) {
            Some(input) => {
                self.last_input = input.clone();
                Some(input)
            },
            None => None,
        }
    }

    /// Whether the input was typed into since it was last seen: then it narrows the list.
    pub fn typed(&mut self, input: &str) -> (changed: bool)
        ensures
            changed == narrows(*old(self), input@),
            final(self).all == old(self).all,
            final(self).last_input@ == input@,
    {
        if same_text(input, &self.last_input) {
            return false;
        }
        self.last_input = input.to_owned();
        true
    }
}

/// What a row puts into the input does not narrow the list: it counts as seen.
pub proof fn mirrored_rows_do_not_narrow(old: Lookup, new: Lookup, text: Seq<char>, r: Option<String>)
    requires
        mirrored(old, new, text, r),
        r is Some,
    ensures
        !narrows(new, r->0@),
        new.all == old.all,
{
}

/// The value of an input are all the digits that follow its leading whitespace, up to the first
/// character that is no digit; an input that starts otherwise has no value.
pub proof fn values_are_the_leading_digits(s: Seq<char>)
    ensures
        number_at_start(s) matches Some(n) ==> n.len() > 0 && n.is_prefix_of(trim_start_of(s)) && (
        forall|i: int| 0 <= i < n.len() ==> '0' <= #[trigger] n[i] && n[i] <= '9') && (n.len()
            < trim_start_of(s).len() ==> !('0' <= trim_start_of(s)[n.len() as int]
            && trim_start_of(s)[n.len() as int] <= '9')),
        number_at_start(s) is None <==> trim_start_of(s).len() == 0 || !('0' <= trim_start_of(s)[0]
            && trim_start_of(s)[0] <= '9'),
{
    all_digits_at_start(trim_start_of(s));
}

proof fn all_digits_at_start(s: Seq<char>)
    ensures
        0 <= digits_at_start(s) <= s.len(),
        forall|i: int| 0 <= i < digits_at_start(s) ==> is_digit(#[trigger] s[i]),
        digits_at_start(s) < s.len() ==> !is_digit(s[digits_at_start(s)]),
    decreases s.len(),
{
    if s.len() > 0 && is_digit(s[0]) {
        let rest = s.skip(1);
        all_digits_at_start(rest);
        assert forall|i: int| 0 <= i < digits_at_start(s) implies is_digit(#[trigger] s[i]) by {
            if i > 0 {
                assert(s[i] == rest[i - 1]);
            }
        }
    }
}

/// An input highlights the first row whose value is exactly its number, and none where no row has it.
pub proof fn the_first_row_with_the_number_is_highlighted(
    rows: Seq<(Seq<char>, Seq<char>)>,
    input: Seq<char>,
)
    ensures
        highlight_of(rows, input) matches Some(k) ==> 0 <= k < rows.len() && number_at_start(input)
            == Some(rows[k].0) && forall|j: int| 0 <= j < k ==> (#[trigger] rows[j]).0 != rows[k].0,
        highlight_of(rows, input) is None <==> (number_at_start(input) is None || forall|j: int|
            0 <= j < rows.len() ==> Some((#[trigger] rows[j]).0) != number_at_start(input)),
{
    if let Some(n) = number_at_start(input) {
        first_value_found(rows, n);
    }
}

proof fn first_value_found(rows: Seq<(Seq<char>, Seq<char>)>, value: Seq<char>)
    ensures
        match first_with_value(rows, value) {
            Some(k) => 0 <= k < rows.len() && rows[k].0 == value && forall|j: int|
                0 <= j < k ==> (#[trigger] rows[j]).0 != value,
            None => forall|j: int| 0 <= j < rows.len() ==> (#[trigger] rows[j]).0 != value,
        },
    decreases rows.len(),
{
    if rows.len() > 0 {
        let head = rows.drop_last();
        first_value_found(head, value);
        assert forall|j: int| 0 <= j < head.len() implies head[j] == #[trigger] rows[j] by {}
    }
}

/// A row of the list shows its name with its value in brackets; the first row that shows so is the one
/// that is taken over, and what the input then holds is that row's value with its name in brackets.
pub proof fn the_focused_row_is_taken_over(
    old: Lookup,
    new: Lookup,
    text: Seq<char>,
    r: Option<String>,
    k: int,
)
    requires
        mirrored(old, new, text, r),
    ensures
        new.all == old.all,
        0 <= k < old.all@.len() && text == old.all@[k].1@ + " ("@ + old.all@[k].0@ + ")"@ && (forall|
            j: int,
        |
            0 <= j < k ==> text != (#[trigger] old.all@[j]).1@ + " ("@ + old.all@[j].0@ + ")"@) ==> (
        r matches Some(s) && s@ == old.all@[k].0@ + " ("@ + old.all@[k].1@ + ")"@ && new.last_input@
            == s@),
        (forall|j: int|
            0 <= j < old.all@.len() ==> text != (#[trigger] old.all@[j]).1@ + " ("@ + old.all@[j].0@
                + ")"@) ==> r is None && new == old,
{
    let rows = pairs(old.all@);
    assert forall|j: int| 0 <= j < rows.len() implies #[trigger] rows[j] == (
        old.all@[j].0@,
        old.all@[j].1@,
    ) by {}
    first_shown_found(rows, text);
    if 0 <= k < old.all@.len() && text == row_of(old.all@[k].0@, old.all@[k].1@) && (forall|j: int|
        0 <= j < k ==> text != (#[trigger] old.all@[j]).1@ + " ("@ + old.all@[j].0@ + ")"@) {
        assert(row_of(rows[k].0, rows[k].1) == text);
        let m = choose|m: int|
            0 <= m < rows.len() && first_shown(rows, text) == Some(#[trigger] rows[m]) && row_of(
                rows[m].0,
                rows[m].1,
            ) == text && forall|j: int|
                0 <= j < m ==> row_of((#[trigger] rows[j]).0, rows[j].1) != text;
        if m < k {
            assert(text != old.all@[m].1@ + " ("@ + old.all@[m].0@ + ")"@);
        }
        assert(m == k);
    }
    if forall|j: int|
        0 <= j < old.all@.len() ==> text != (#[trigger] old.all@[j]).1@ + " ("@ + old.all@[j].0@
            + ")"@ {
        assert(first_shown(rows, text) is None) by {
            if first_shown(rows, text) is Some {
                let m = choose|m: int|
                    0 <= m < rows.len() && first_shown(rows, text) == Some(#[trigger] rows[m])
                        && row_of(rows[m].0, rows[m].1) == text && forall|j: int|
                        0 <= j < m ==> row_of((#[trigger] rows[j]).0, rows[j].1) != text;
                assert(text != old.all@[m].1@ + " ("@ + old.all@[m].0@ + ")"@);
            }
        }
    }
}

proof fn first_shown_found(rows: Seq<(Seq<char>, Seq<char>)>, text: Seq<char>)
    ensures
        first_shown(rows, text) is Some ==> exists|m: int|
            0 <= m < rows.len() && first_shown(rows, text) == Some(#[trigger] rows[m]) && row_of(
                rows[m].0,
                rows[m].1,
            ) == text && forall|j: int|
                0 <= j < m ==> row_of((#[trigger] rows[j]).0, rows[j].1) != text,
        first_shown(rows, text) is None ==> forall|j: int|
            0 <= j < rows.len() ==> row_of((#[trigger] rows[j]).0, rows[j].1) != text,
    decreases rows.len(),
{
    if rows.len() > 0 {
        let head = rows.drop_last();
        first_shown_found(head, text);
        assert forall|j: int| 0 <= j < head.len() implies head[j] == #[trigger] rows[j] by {}
        if first_shown(head, text) is Some {
            let m = choose|m: int|
                0 <= m < head.len() && first_shown(head, text) == Some(#[trigger] head[m]) && row_of(
                    head[m].0,
                    head[m].1,
                ) == text && forall|j: int|
                    0 <= j < m ==> row_of((#[trigger] head[j]).0, head[j].1) != text;
            assert(first_shown(rows, text) == Some(rows[m]));
            assert forall|j: int| 0 <= j < m implies row_of((#[trigger] rows[j]).0, rows[j].1)
                != text by {
                assert(head[j] == rows[j]);
            }
        } else {
            assert forall|j: int| 0 <= j < head.len() implies row_of(
                (#[trigger] rows[j]).0,
                rows[j].1,
            ) != text by {
                assert(head[j] == rows[j]);
            }
            assert(rows.last() == rows[rows.len() - 1]);
        }
    }
}

/// The candidates of a list are those found, each with what is stored and its name, in order; every one
/// has its row.
pub proof fn found_candidates_are_listed(results: Seq<Candidate>, i: int)
    requires
        0 <= i < results.len(),
    ensures
        candidate_pairs(results).len() == results.len(),
        candidate_pairs(results)[i] == (results[i].store_value@, results[i].label@),
        shown_rows(candidate_pairs(results)).len() == results.len(),
        shown_rows(candidate_pairs(results))[i] == results[i].label@ + " ("@ + results[i].store_value@
            + ")"@,
{
}

} // verus!
