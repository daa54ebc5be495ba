//! The popup over a field: edit rows for its values, or a list of candidates to pick from.
use std::rc::Rc;
use vstd::prelude::*;
use vstd::string::*;

use crate::edit_form::{current, first_or_empty, first_value, EditField};
use crate::keys::{KeyCode, KeyPress};
use crate::text::{
    contains_ignore_case, contains_text, eq_ignore_case, has_ci, is_blank, same_ci, same_text,
    texts, trim, trimmed,
};
use crate::text_input::{can_press, pressed, Input, TextInput};
use crate::widgets::{
    store_values, Candidate, ChoiceOption, ChoiceWidget, PickerBinding, PickerState, StoreKey,
};

verus! {

/// A candidate as a mathematical value: its name, what it shows, what is stored of it.
pub type Pick = (Seq<char>, Seq<char>, Seq<char>);

/// The candidates of a list, as mathematical values.
pub open spec fn picks(v: Seq<Candidate>) -> Seq<Pick> {
    v.map_values(|c: Candidate| (c.dn@, c.label@, c.store_value@))
}

/// The edit rows of a list, as mathematical values.
pub open spec fn inputs(rows: Seq<TextInput>) -> Seq<Input> {
    rows.map_values(|r: TextInput| r.model())
}

/// The popup over a field. With `picker` it is a candidate list, otherwise one edit row per value.
pub struct ValueEditor {
    /// The place of the field in the form.
    pub field: usize,
    /// The attribute's name.
    pub label: String,
    /// Whether the order of the values matters.
    pub ordered: bool,
    /// Whether the rows are masked.
    pub secret: bool,
    /// One edit row per value; none in a candidate list.
    pub rows: Vec<TextInput>,
    /// The selected row.
    pub sel: usize,
    /// The first row on screen.
    pub scroll: usize,
    /// The candidate list.
    pub picker: Option<PickerState>,
    /// The search box of the candidate list.
    pub search: TextInput,
    /// The picker binding that drives the search and the commit.
    pub binding: Option<Rc<PickerBinding>>,
    /// The choice whose fixed options the list offers.
    pub choice: Option<Rc<ChoiceWidget>>,
    /// The value that a choice started from.
    pub choice_original: String,
    /// Whether the list offers object classes.
    pub objectclass: bool,
}

/// Values as candidates that name, show and store the value itself.
pub open spec fn self_picks(values: Seq<Seq<char>>) -> Seq<Pick> {
    values.map_values(|v: Seq<char>| (v, v, v))
}

fn seed_candidates(values: &Vec<String>) -> (r: Vec<Candidate>)
    ensures
        picks(r@) == self_picks(texts(values@)),
{
    let mut r: Vec<Candidate> = Vec::new();
    let mut i: usize = 0;
    let ghost goal = self_picks(texts(values@));
    while i < values.len()
        invariant
            i <= values@.len(),
            goal == self_picks(texts(values@)),
            picks(r@) == goal.take(i as int),
        decreases values@.len() - i,
    {
        let ghost r0 = r@;
        r.push(
            Candidate {
                dn: values[i].clone(),
                label: values[i].clone(),
                store_value: values[i].clone(),
            },
        );
        i += 1;
        proof {
            assert(picks(r@) =~= picks(r0).push(goal[i - 1]));
            assert(picks(r@) =~= goal.take(i as int));
        }
    }
    assert(goal.take(goal.len() as int) =~= goal);
    r
}

/// The options of a choice as candidates.
pub open spec fn option_picks(options: Seq<ChoiceOption>) -> Seq<Pick> {
    options.map_values(|o: ChoiceOption| (o.value@, o.label@, o.value@))
}

/// The candidates of a list that store one of the given values, in order.
pub open spec fn picked_among(all: Seq<Pick>, stored: Seq<Seq<char>>) -> Seq<Pick>
    decreases all.len(),
{
    if all.len() == 0 {
        all
    } else if stored.contains(all.last().2) {
        picked_among(all.drop_last(), stored).push(all.last())
    } else {
        picked_among(all.drop_last(), stored)
    }
}

/// The non-blank rows, each trimmed.
pub open spec fn kept_rows(rows: Seq<Input>) -> Seq<Seq<char>>
    decreases rows.len(),
{
    if rows.len() == 0 {
        Seq::empty()
    } else if trimmed(rows.last().0).len() == 0 {
        kept_rows(rows.drop_last())
    } else {
        kept_rows(rows.drop_last()).push(trimmed(rows.last().0))
    }
}

/// The selected row, brought back into the list.
pub open spec fn in_list(sel: int, len: int) -> int {
    if sel < len {
        sel
    } else if len > 0 {
        len - 1
    } else {
        0
    }
}

/// The rows and the selected row after a key: the arrows move the selection, and with alt the
/// row; alt with `a` or Insert adds a row below, alt with `d` removes the row; any other key edits
/// the row.
pub open spec fn rows_keyed(rows: Seq<Input>, sel: int, key: KeyPress) -> (Seq<Input>, int) {
    let n = rows.len() as int;
    let s = in_list(sel, n);
    match key.code {
        KeyCode::Up => if !key.has_alt() {
            (rows, if s > 0 { s - 1 } else { 0 })
        } else if s > 0 {
            (rows.remove(s).insert(s - 1, rows[s]), s - 1)
        } else {
            (rows, s)
        },
        KeyCode::Down => if !key.has_alt() {
            (rows, in_list(s + 1, n))
        } else if s + 1 < n {
            (rows.remove(s).insert(s + 1, rows[s]), s + 1)
        } else {
            (rows, s)
        },
        _ => if key.code == KeyCode::Insert || (key.code == KeyCode::Char('a') && key.has_alt()) {
            let at = if s + 1 < n { s + 1 } else { n };
            (rows.insert(at, (Seq::empty(), 0)), at)
        } else if key.code == KeyCode::Char('d') && key.has_alt() {
            if n > 0 {
                (rows.remove(s), in_list(s, n - 1))
            } else {
                (rows, s)
            }
        } else if n > 0 {
            (rows.update(s, pressed(rows[s], key)), s)
        } else {
            (rows, s)
        },
    }
}

impl ValueEditor {
    /// Whether the selected row, if there is one, can handle a key.
    pub open spec fn takes_key(self, key: KeyPress) -> bool {
        self.rows@.len() > 0 ==> can_press(
            self.rows@[in_list(self.sel as int, self.rows@.len() as int)].model(),
            key,
        )
    }

    /// Opens edit rows over a field, one for each value.
    pub fn open_plain(field_idx: usize, field: &EditField) -> (r: ValueEditor)
        ensures
            r.field == field_idx,
            r.label@ == field.label@,
            r.ordered == field.ordered,
            r.secret == field.secret,
            inputs(r.rows@) == texts(field.values@).map_values(|v: Seq<char>| (v, 0int)),
            r.sel == 0,
            r.scroll == 0,
            r.picker is None,
            r.search.model() == (Seq::<char>::empty(), 0int),
            r.binding is None,
            r.choice is None,
            r.choice_original@.len() == 0,
            !r.objectclass,
    {
        let mut rows: Vec<TextInput> = Vec::new();
        let mut i: usize = 0;
        let ghost goal = texts(field.values@).map_values(|v: Seq<char>| (v, 0int));
        while i < field.values.len()
            invariant
                i <= field.values@.len(),
                goal == texts(field.values@).map_values(|v: Seq<char>| (v, 0int)),
                inputs(rows@) == goal.take(i as int),
            decreases field.values@.len() - i,
        {
            let ghost r0 = rows@;
            let row: TextInput = TextInput::with_value(field.values[i].clone());
            assert(row.model() == goal[i as int]);
            rows.push(row);
            i += 1;
            proof {
                assert(inputs(rows@) =~= inputs(r0).push(goal[i - 1]));
                assert(inputs(rows@) =~= goal.take(i as int));
            }
        }
        assert(goal.take(goal.len() as int) =~= goal);
        ValueEditor {
            field: field_idx,
            label: field.label.clone(),
            ordered: field.ordered,
            secret: field.secret,
            rows,
            sel: 0,
            scroll: 0,
            picker: None,
            search: TextInput::new(),
            binding: None,
            choice: None,
            choice_original: String::new(),
            objectclass: false,
        }
    }

    /// Opens the candidate list of a picker over a field. What the field holds is chosen from the
    /// start; where whole names are stored, they compare up to ASCII case.
    pub fn open(field_idx: usize, field: &EditField, binding: &Rc<PickerBinding>) -> (r: ValueEditor)
        ensures
            r.field == field_idx,
            r.label@ == field.label@,
            r.ordered == field.ordered,
            r.secret == field.secret,
            r.rows@.len() == 0,
            r.sel == 0,
            r.scroll == 0,
            r.picker is Some,
            picks(r.picker->0.selected@) == self_picks(texts(field.values@)),
            r.picker->0.results@.len() == 0,
            r.picker->0.cursor == 0,
            !r.picker->0.search_active,
            !r.picker->0.truncated,
            r.picker->0.key_ci == binding.store is Dn,
            r.search.model() == (Seq::<char>::empty(), 0int),
            r.binding == Some(*binding),
            r.choice is None,
            r.choice_original@.len() == 0,
            !r.objectclass,
    {
        let key_ci: bool = match binding.store {
            StoreKey::Dn => true,
            StoreKey::Attr(_) => false,
        };
        ValueEditor {
            field: field_idx,
            label: field.label.clone(),
            ordered: field.ordered,
            secret: field.secret,
            rows: Vec::new(),
            sel: 0,
            scroll: 0,
            picker: Some(
                PickerState {
                    selected: seed_candidates(&field.values),
                    results: Vec::new(),
                    cursor: 0,
                    search_active: false,
                    truncated: false,
                    key_ci,
                },
            ),
            search: TextInput::new(),
            binding: Some(binding.clone()),
            choice: None,
            choice_original: String::new(),
            objectclass: false,
        }
    }

    /// Opens the fixed options of a choice over a field. `checked` are the options that the
    /// field's value stands for; they are chosen from the start. Options compare exactly.
    pub fn open_choice(
        field_idx: usize,
        field: &EditField,
        widget: &Rc<ChoiceWidget>,
        checked: &Vec<String>,
    ) -> (r: ValueEditor)
        ensures
            r.field == field_idx,
            r.label@ == field.label@,
            !r.ordered,
            r.secret == field.secret,
            r.rows@.len() == 0,
            r.sel == 0,
            r.scroll == 0,
            r.picker is Some,
            picks(r.picker->0.results@) == option_picks(widget.options@),
            picks(r.picker->0.selected@) == picked_among(option_picks(widget.options@), texts(checked@)),
            r.picker->0.cursor == 0,
            !r.picker->0.search_active,
            !r.picker->0.truncated,
            !r.picker->0.key_ci,
            r.search.model() == (Seq::<char>::empty(), 0int),
            r.binding is None,
            r.choice == Some(*widget),
            r.choice_original@ == first_or_empty(current(*field)),
            !r.objectclass,
    {
        let original: String = first_value(&field.current_values());
        let mut all: Vec<Candidate> = Vec::new();
        let mut selected: Vec<Candidate> = Vec::new();
        let ghost goal = option_picks(widget.options@);
        let mut i: usize = 0;
        assert(picks(selected@) =~= picked_among(goal.take(0), texts(checked@)));
        while i < widget.options.len()
            invariant
                i <= widget.options@.len(),
                goal == option_picks(widget.options@),
                picks(all@) == goal.take(i as int),
                picks(selected@) == picked_among(goal.take(i as int), texts(checked@)),
            decreases widget.options@.len() - i,
        {
            let c: Candidate = Candidate {
                dn: widget.options[i].value.clone(),
                label: widget.options[i].label.clone(),
                store_value: widget.options[i].value.clone(),
            };
            let ghost a0 = all@;
            let ghost s0 = selected@;
            proof {
                assert(goal.take(i + 1).drop_last() =~= goal.take(i as int));
                assert(goal.take(i + 1).last() == goal[i as int]);
            }
            if contains_text(checked, &widget.options[i].value) {
                selected.push(c.copy());
                assert(picks(selected@) =~= picks(s0).push(goal[i as int]));
            }
            all.push(c);
            i += 1;
            proof {
                assert(picks(all@) =~= picks(a0).push(goal[i - 1]));
                assert(picks(all@) =~= goal.take(i as int));
            }
        }
        assert(goal.take(goal.len() as int) =~= goal);
        ValueEditor {
            field: field_idx,
            label: field.label.clone(),
            ordered: false,
            secret: field.secret,
            rows: Vec::new(),
            sel: 0,
            scroll: 0,
            picker: Some(
                PickerState {
                    selected,
                    results: all,
                    cursor: 0,
                    search_active: false,
                    truncated: false,
                    key_ci: false,
                },
            ),
            search: TextInput::new(),
            binding: None,
            choice: Some(widget.clone()),
            choice_original: original,
            objectclass: false,
        }
    }

    /// Opens the list of object classes over a field. The classes of the entry are chosen from the
    /// start; the list itself is filled later. Class names compare up to ASCII case.
    pub fn open_objectclass(field_idx: usize, field: &EditField) -> (r: ValueEditor)
        ensures
            r.field == field_idx,
            r.label@ == field.label@,
            !r.ordered,
            !r.secret,
            r.rows@.len() == 0,
            r.sel == 0,
            r.scroll == 0,
            r.picker is Some,
            picks(r.picker->0.selected@) == self_picks(texts(field.values@)),
            r.picker->0.results@.len() == 0,
            r.picker->0.cursor == 0,
            !r.picker->0.search_active,
            !r.picker->0.truncated,
            r.picker->0.key_ci,
            r.search.model() == (Seq::<char>::empty(), 0int),
            r.binding is None,
            r.choice is None,
            r.choice_original@.len() == 0,
            r.objectclass,
    {
        ValueEditor {
            field: field_idx,
            label: field.label.clone(),
            ordered: false,
            secret: false,
            rows: Vec::new(),
            sel: 0,
            scroll: 0,
            picker: Some(
                PickerState {
                    selected: seed_candidates(&field.values),
                    results: Vec::new(),
                    cursor: 0,
                    search_active: false,
                    truncated: false,
                    key_ci: true,
                },
            ),
            search: TextInput::new(),
            binding: None,
            choice: None,
            choice_original: String::new(),
            objectclass: true,
        }
    }

    /// The values of the edit rows: each trimmed, blank ones dropped.
    pub fn committed_values(&self) -> (r: Vec<String>)
        requires
            self.picker is None,
        ensures
            texts(r@) == kept_rows(inputs(self.rows@)),
    {
        let mut r: Vec<String> = Vec::new();
        let mut i: usize = 0;
        let ghost rows = inputs(self.rows@);
        assert(texts(r@) =~= kept_rows(rows.take(0)));
        while i < self.rows.len()
            invariant
                i <= self.rows@.len(),
                rows == inputs(self.rows@),
                texts(r@) == kept_rows(rows.take(i as int)),
            decreases self.rows@.len() - i,
        {
            let v: String = trim(self.rows[i].value());
            proof {
                assert(rows.take(i + 1).drop_last() =~= rows.take(i as int));
                assert(rows.take(i + 1).last() == rows[i as int]);
                assert(v@ == trimmed(rows[i as int].0));
            }
            if !v.as_str().is_empty() {
                let ghost r0 = r@;
                let ghost t = v@;
                r.push(v);
                assert(texts(r@) =~= texts(r0).push(t));
            }
            i += 1;
        }
        assert(rows.take(rows.len() as int) =~= rows);
        r
    }

    /// Handles a key in the edit rows.
    pub fn row_key(&mut self, key: KeyPress)
        requires
            old(self).rows@.len() < usize::MAX,
            old(self).takes_key(key),
        ensures
            (inputs(final(self).rows@), final(self).sel as int) == rows_keyed(
                inputs(old(self).rows@),
                old(self).sel as int,
                key,
            ),
            *final(self) == (ValueEditor {
                rows: final(self).rows,
                sel: final(self).sel,
                ..*old(self)
            }),
    {
        let n: usize = self.rows.len();
        assert(inputs(self.rows@).len() == n);
        if self.sel >= n {
            self.sel = if n > 0 {
                n - 1
            } else {
                0
            };
        }
        let alt: bool = key.alt();
        let s: usize = self.sel;
        match key.code {
            KeyCode::Up => {
                if !alt {
                    self.sel = if s > 0 {
                        s - 1
                    } else {
                        0
                    };
                } else if s > 0 {
                    move_row(&mut self.rows, s, s - 1);
                    self.sel = s - 1;
                }
            },
            KeyCode::Down => {
                if !alt {
                    if n > 0 && s + 1 < n {
                        self.sel = s + 1;
                    }
                } else if s + 1 < n {
                    move_row(&mut self.rows, s, s + 1);
                    self.sel = s + 1;
                }
            },
            _ => {
                let adds: bool = match key.code {
                    KeyCode::Insert => true,
                    KeyCode::Char(c) => alt && c == 'a',
                    _ => false,
                };
                let removes: bool = match key.code {
                    KeyCode::Char(c) => alt && c == 'd',
                    _ => false,
                };
                if adds {
                    let at: usize = if s + 1 < n {
                        s + 1
                    } else {
                        n
                    };
                    add_row(&mut self.rows, at);
                    self.sel = at;
                } else if removes {
                    if n > 0 {
                        drop_row(&mut self.rows, s);
                        if s >= n - 1 {
                            self.sel = if n - 1 > 0 {
                                n - 2
                            } else {
                                0
                            };
                        }
                    }
                } else if n > 0 {
                    edit_row(&mut self.rows, s, key);
                }
            },
        }
    }
}

fn move_row(rows: &mut Vec<TextInput>, from: usize, to: usize)
    requires
        from < old(rows)@.len(),
        to < old(rows)@.len(),
    ensures
        inputs(final(rows)@) == inputs(old(rows)@).remove(from as int).insert(
            to as int,
            inputs(old(rows)@)[from as int],
        ),
{
    let row: TextInput = rows.remove(from);
    rows.insert(to, row);
    assert(inputs(rows@) =~= inputs(old(rows)@).remove(from as int).insert(
        to as int,
        inputs(old(rows)@)[from as int],
    ));
}

fn add_row(rows: &mut Vec<TextInput>, at: usize)
    requires
        at <= old(rows)@.len(),
    ensures
        inputs(final(rows)@) == inputs(old(rows)@).insert(at as int, (Seq::empty(), 0)),
{
    let row: TextInput = TextInput::new();
    assert(row.model() == (Seq::<char>::empty(), 0int));
    rows.insert(at, row);
    assert(inputs(rows@) =~= inputs(old(rows)@).insert(at as int, (Seq::empty(), 0)));
}

fn drop_row(rows: &mut Vec<TextInput>, at: usize)
    requires
        at < old(rows)@.len(),
    ensures
        inputs(final(rows)@) == inputs(old(rows)@).remove(at as int),
{
    rows.remove(at);
    assert(inputs(rows@) =~= inputs(old(rows)@).remove(at as int));
}

fn edit_row(rows: &mut Vec<TextInput>, at: usize, key: KeyPress)
    requires
        at < old(rows)@.len(),
        can_press(old(rows)@[at as int].model(), key),
    ensures
        inputs(final(rows)@) == inputs(old(rows)@).update(
            at as int,
            pressed(inputs(old(rows)@)[at as int], key),
        ),
{
    rows[at].handle_key(key);
    assert(inputs(rows@) =~= inputs(old(rows)@).update(
        at as int,
        pressed(inputs(old(rows)@)[at as int], key),
    ));
}

/// The selected row is always in the list (the first when there is none), whatever key came.
pub proof fn selection_stays_in_list(rows: Seq<Input>, sel: int, key: KeyPress)
    requires
        0 <= sel,
    ensures
        ({
            let r = rows_keyed(rows, sel, key);
            0 <= r.1 && (r.1 < r.0.len() || (r.1 == 0 && r.0.len() == 0))
        }),
{
}

/// Moving a row up and down again gives back the list.
pub proof fn reordering_is_undone(rows: Seq<Input>, sel: int, up: KeyPress, down: KeyPress)
    requires
        0 < sel < rows.len(),
        up.code == KeyCode::Up,
        up.has_alt(),
        down.code == KeyCode::Down,
        down.has_alt(),
    ensures
        rows_keyed(rows_keyed(rows, sel, up).0, rows_keyed(rows, sel, up).1, down) == (rows, sel),
{
    let r = rows_keyed(rows, sel, up);
    let b = rows_keyed(r.0, r.1, down);
    assert(b.0 =~= rows);
}

/// An entry that a candidate search found: its name, its label, and the value of the stored
/// attribute, if it has one.
pub struct FoundEntry {
    pub dn: String,
    pub label: String,
    pub value: Option<String>,
}

/// The candidate that a found entry is: where names are stored every entry is one, where an
/// attribute is stored only those that have it.
pub open spec fn candidate_of(e: FoundEntry, by_name: bool) -> Option<Pick> {
    if by_name {
        Some((e.dn@, e.label@, e.dn@))
    } else {
        match e.value {
            Some(v) => Some((e.dn@, e.label@, v@)),
            None => None,
        }
    }
}

/// The candidates among found entries, in order.
pub open spec fn candidates_among(found: Seq<FoundEntry>, by_name: bool) -> Seq<Pick>
    decreases found.len(),
{
    if found.len() == 0 {
        Seq::empty()
    } else {
        let before = candidates_among(found.drop_last(), by_name);
        match candidate_of(found.last(), by_name) {
            Some(c) => before.push(c),
            None => before,
        }
    }
}

/// The candidates among found entries.
pub fn found_candidates(found: &Vec<FoundEntry>, store: &StoreKey) -> (r: Vec<Candidate>)
    ensures
        picks(r@) == candidates_among(found@, *store is Dn),
{
    let by_name: bool = match store {
        StoreKey::Dn => true,
        StoreKey::Attr(_) => false,
    };
    let mut r: Vec<Candidate> = Vec::new();
    let mut i: usize = 0;
    assert(picks(r@) =~= candidates_among(found@.take(0), by_name));
    while i < found.len()
        invariant
            i <= found@.len(),
            picks(r@) == candidates_among(found@.take(i as int), by_name),
        decreases found@.len() - i,
    {
        proof {
            assert(found@.take(i + 1).drop_last() =~= found@.take(i as int));
        }
        let ghost r0 = r@;
        let e: &FoundEntry = &found[i];
        let store_value: Option<String> = if by_name {
            Some(e.dn.clone())
        } else {
            match &e.value {
                Some(v) => Some(v.clone()),
                None => None,
            }
        };
        if let Some(store_value) = store_value {
            let c: Candidate = Candidate { dn: e.dn.clone(), label: e.label.clone(), store_value };
            let ghost p = (c.dn@, c.label@, c.store_value@);
            r.push(c);
            assert(picks(r@) =~= picks(r0).push(p));
        }
        i += 1;
    }
    assert(found@.take(found@.len() as int) =~= found@);
    r
}

/// Whether two stored values are the same, up to ASCII case where `ci`.
pub open spec fn same_key(a: Seq<char>, b: Seq<char>, ci: bool) -> bool {
    if ci {
        same_ci(a, b)
    } else {
        a == b
    }
}

/// The first candidate of a list that stores a value.
pub open spec fn stored_first(results: Seq<Pick>, value: Seq<char>, ci: bool) -> Option<Pick>
    decreases results.len(),
{
    if results.len() == 0 {
        None
    } else {
        match stored_first(results.drop_last(), value, ci) {
            Some(p) => Some(p),
            None => if same_key(results.last().2, value, ci) {
                Some(results.last())
            } else {
                None
            },
        }
    }
}

/// A chosen candidate with the name and the label that the search found for what it stores.
pub open spec fn upgraded(sel: Pick, results: Seq<Pick>, ci: bool) -> Pick {
    match stored_first(results, sel.2, ci) {
        Some(r) => (r.0, r.1, sel.2),
        None => sel,
    }
}

proof fn stored_first_prefix(results: Seq<Pick>, value: Seq<char>, ci: bool, n: int)
    requires
        0 <= n <= results.len(),
        stored_first(results.take(n), value, ci) is Some,
    ensures
        stored_first(results, value, ci) == stored_first(results.take(n), value, ci),
    decreases results.len() - n,
{
    if n < results.len() {
        assert(results.take(n + 1).drop_last() =~= results.take(n));
        stored_first_prefix(results, value, ci, n + 1);
    } else {
        assert(results.take(n) =~= results);
    }
}

fn find_stored(results: &Vec<Candidate>, value: &str, ci: bool) -> (r: Option<usize>)
    ensures
        match r {
            Some(i) => i < results@.len() && stored_first(picks(results@), value@, ci) == Some(
                picks(results@)[i as int],
            ),
            None => stored_first(picks(results@), value@, ci) is None,
        },
{
    let mut i: usize = 0;
    let ghost all = picks(results@);
    while i < results.len()
        invariant
            i <= results@.len(),
            all == picks(results@),
            stored_first(all.take(i as int), value@, ci) is None,
        decreases results@.len() - i,
    {
        proof {
            assert(all.take(i + 1).drop_last() =~= all.take(i as int));
            assert(all.take(i + 1).last() == all[i as int]);
        }
        let hit: bool = if ci {
            eq_ignore_case(&results[i].store_value, value)
        } else {
            same_text(&results[i].store_value, value)
        };
        if hit {
            proof {
                stored_first_prefix(all, value@, ci, i + 1);
            }
            return Some(i);
        }
        i += 1;
    }
    assert(all.take(all.len() as int) =~= all);
    None
}

/// The candidates that do not store a value.
pub open spec fn without_key(v: Seq<Candidate>, value: Seq<char>, ci: bool) -> Seq<Candidate>
    decreases v.len(),
{
    if v.len() == 0 {
        v
    } else if same_key(v.last().store_value@, value, ci) {
        without_key(v.drop_last(), value, ci)
    } else {
        without_key(v.drop_last(), value, ci).push(v.last())
    }
}

/// Whether a candidate that stores a value is among those of a list.
pub open spec fn has_key(v: Seq<Candidate>, value: Seq<char>, ci: bool) -> bool {
    exists|i: int| 0 <= i < v.len() && same_key((#[trigger] v[i]).store_value@, value, ci)
}

/// The chosen candidates with one more, or without it where it was chosen.
pub open spec fn toggled(v: Seq<Candidate>, c: Candidate, ci: bool) -> Seq<Candidate> {
    if has_key(v, c.store_value@, ci) {
        without_key(v, c.store_value@, ci)
    } else {
        v.push(c)
    }
}

fn keys_equal(a: &str, b: &str, ci: bool) -> (r: bool)
    ensures
        r == same_key(a@, b@, ci),
{
    if ci {
        eq_ignore_case(a, b)
    } else {
        same_text(a, b)
    }
}

proof fn without_absent_key(v: Seq<Candidate>, value: Seq<char>, ci: bool)
    requires
        !has_key(v, value, ci),
    ensures
        without_key(v, value, ci) == v,
    decreases v.len(),
{
    if v.len() > 0 {
        assert(!same_key(v[v.len() - 1].store_value@, value, ci));
        assert(!has_key(v.drop_last(), value, ci)) by {
            if has_key(v.drop_last(), value, ci) {
                let i = choose|i: int|
                    0 <= i < v.drop_last().len() && same_key(
                        (#[trigger] v.drop_last()[i]).store_value@,
                        value,
                        ci,
                    );
                assert(same_key(v[i].store_value@, value, ci));
            }
        }
        without_absent_key(v.drop_last(), value, ci);
        assert(v.drop_last().push(v.last()) =~= v);
    }
}

/// Toggling a candidate twice leaves the chosen candidates as they were, where it was not chosen.
pub proof fn toggling_twice_changes_nothing(v: Seq<Candidate>, c: Candidate, ci: bool)
    requires
        !has_key(v, c.store_value@, ci),
    ensures
        toggled(toggled(v, c, ci), c, ci) == v,
{
    let w = v.push(c);
    assert(same_key(w[v.len() as int].store_value@, c.store_value@, ci));
    assert(w.drop_last() =~= v);
    without_absent_key(v, c.store_value@, ci);
}

impl PickerState {
    /// Chooses a candidate, or drops it where it is chosen.
    pub fn toggle(&mut self, c: &Candidate)
        ensures
            final(self).selected@ == toggled(old(self).selected@, *c, old(self).key_ci),
            *final(self) == (PickerState { selected: final(self).selected, ..*old(self) }),
    {
        let ci: bool = self.key_ci;
        let ghost all = self.selected@;
        let mut kept: Vec<Candidate> = Vec::new();
        let mut found: bool = false;
        let mut i: usize = 0;
        assert(kept@ =~= without_key(all.take(0), c.store_value@, ci));
        while i < self.selected.len()
            invariant
                i <= self.selected@.len(),
                all == self.selected@,
                kept@ == without_key(all.take(i as int), c.store_value@, ci),
                found == exists|j: int|
                    0 <= j < i && same_key((#[trigger] all[j]).store_value@, c.store_value@, ci),
            decreases self.selected@.len() - i,
        {
            proof {
                assert(all.take(i + 1).drop_last() =~= all.take(i as int));
            }
            if keys_equal(&self.selected[i].store_value, &c.store_value, ci) {
                found = true;
                assert(same_key(all[i as int].store_value@, c.store_value@, ci));
            } else {
                kept.push(self.selected[i].copy());
            }
            i += 1;
        }
        assert(all.take(all.len() as int) =~= all);
        if found {
            self.selected = kept;
        } else {
            self.selected.push(c.copy());
        }
    }

    /// Takes in what a candidate search found: the chosen candidates get the names and labels
    /// found for what they store, and the list shows the found candidates. `searching` tells
    /// whether the search had a term, `found` how many entries it gave and `cap` at how many it
    /// was cut off.
    pub fn take_results(
        &mut self,
        results: Vec<Candidate>,
        searching: bool,
        found: usize,
        cap: usize,
    )
        ensures
            picks(final(self).selected@) == picks(old(self).selected@).map_values(
                |s: Pick| upgraded(s, picks(results@), old(self).key_ci),
            ),
            final(self).results == results,
            final(self).search_active == searching,
            final(self).truncated == (found >= cap),
            final(self).cursor == old(self).cursor,
            final(self).key_ci == old(self).key_ci,
    {
        let ci: bool = self.key_ci;
        let ghost goal = picks(self.selected@).map_values(
            |s: Pick| upgraded(s, picks(results@), ci),
        );
        let mut selected: Vec<Candidate> = Vec::new();
        let mut i: usize = 0;
        while i < self.selected.len()
            invariant
                i <= self.selected@.len(),
                ci == self.key_ci,
                goal == picks(self.selected@).map_values(
                    |s: Pick| upgraded(s, picks(results@), ci),
                ),
                picks(selected@) == goal.take(i as int),
            decreases self.selected@.len() - i,
        {
            let ghost s0 = selected@;
            let old_one: &Candidate = &self.selected[i];
            let c: Candidate = match find_stored(&results, &old_one.store_value, ci) {
                Some(k) => Candidate {
                    dn: results[k].dn.clone(),
                    label: results[k].label.clone(),
                    store_value: old_one.store_value.clone(),
                },
                None => old_one.copy(),
            };
            assert((c.dn@, c.label@, c.store_value@) == goal[i as int]);
            selected.push(c);
            i += 1;
            proof {
                assert(picks(selected@) =~= picks(s0).push(goal[i - 1]));
                assert(picks(selected@) =~= goal.take(i as int));
            }
        }
        assert(goal.take(goal.len() as int) =~= goal);
        self.selected = selected;
        self.results = results;
        self.search_active = searching;
        self.truncated = found >= cap;
    }

    /// What the chosen candidates store.
    pub fn selected_values(&self) -> (r: Vec<String>)
        ensures
            texts(r@) == store_values(self.selected@),
    {
        let mut r: Vec<String> = Vec::new();
        let mut i: usize = 0;
        let ghost goal = store_values(self.selected@);
        while i < self.selected.len()
            invariant
                i <= self.selected@.len(),
                goal == store_values(self.selected@),
                texts(r@) == goal.take(i as int),
            decreases self.selected@.len() - i,
        {
            let ghost r0 = r@;
            r.push(self.selected[i].store_value.clone());
            i += 1;
            proof {
                assert(texts(r@) =~= texts(r0).push(goal[i - 1]));
                assert(texts(r@) =~= goal.take(i as int));
            }
        }
        assert(goal.take(goal.len() as int) =~= goal);
        r
    }
}

/// Taking in search results never changes what is stored of the chosen candidates.
pub proof fn results_keep_stored_values(selected: Seq<Pick>, results: Seq<Pick>, ci: bool, i: int)
    requires
        0 <= i < selected.len(),
    ensures
        selected.map_values(|s: Pick| upgraded(s, results, ci))[i].2 == selected[i].2,
{
}

/// The label of a candidate: the rendered template, unless there is none or it is blank; then the
/// plain label.
pub fn membership_candidate_label(rendered: Option<&str>, plain: &str) -> (r: String)
    ensures
        r@ == match rendered {
            Some(t) if trimmed(t@).len() > 0 => t@,
            _ => plain@,
        },
{
    match rendered {
        Some(t) => if is_blank(t) {
            plain.to_owned()
        } else {
            t.to_owned()
        },
        None => plain.to_owned(),
    }
}

/// Names with empty ones dropped, and of those equal up to ASCII case all but the first.
pub open spec fn deduped(names: Seq<Seq<char>>) -> Seq<Seq<char>>
    decreases names.len(),
{
    if names.len() == 0 {
        names
    } else {
        let before = deduped(names.drop_last());
        if names.last().len() == 0 || has_ci(before, names.last()) {
            before
        } else {
            before.push(names.last())
        }
    }
}

/// Drops empty names, and of names equal up to ASCII case all but the first.
pub fn dedupe_ci(names: &mut Vec<String>)
    ensures
        texts(final(names)@) == deduped(texts(old(names)@)),
{
    let ghost all = texts(names@);
    let mut kept: Vec<String> = Vec::new();
    let mut i: usize = 0;
    assert(texts(kept@) =~= deduped(all.take(0)));
    while i < names.len()
        invariant
            i <= names@.len(),
            all == texts(names@),
            texts(kept@) == deduped(all.take(i as int)),
        decreases names@.len() - i,
    {
        proof {
            assert(all.take(i + 1).drop_last() =~= all.take(i as int));
            assert(all.take(i + 1).last() == names@[i as int]@);
        }
        if !names[i].as_str().is_empty() && !contains_ignore_case(&kept, &names[i]) {
            let ghost k0 = kept@;
            kept.push(names[i].clone());
            assert(texts(kept@) =~= texts(k0).push(all[i as int]));
        }
        i += 1;
    }
    assert(all.take(all.len() as int) =~= all);
    *names = kept;
}

/// Deduplicated names are not empty and pairwise different up to ASCII case, and every name that
/// was there and is not empty is still there, up to ASCII case.
pub proof fn deduped_names_differ(names: Seq<Seq<char>>)
    ensures
        forall|i: int| 0 <= i < deduped(names).len() ==> (#[trigger] deduped(names)[i]).len() > 0,
        forall|i: int, j: int|
            0 <= i < j < deduped(names).len() ==> !same_ci(
                #[trigger] deduped(names)[i],
                #[trigger] deduped(names)[j],
            ),
        forall|i: int|
            0 <= i < names.len() && names[i].len() > 0 ==> has_ci(
                deduped(names),
                #[trigger] names[i],
            ),
    decreases names.len(),
{
    if names.len() > 0 {
        let head = names.drop_last();
        let before = deduped(head);
        let r = deduped(names);
        deduped_names_differ(head);
        assert forall|i: int| 0 <= i < names.len() && names[i].len() > 0 implies has_ci(
            r,
            #[trigger] names[i],
        ) by {
            if i < head.len() {
                assert(head[i] == names[i]);
                let k = choose|k: int| 0 <= k < before.len() && same_ci(#[trigger] before[k], head[i]);
                assert(r[k] == before[k]);
            } else if !has_ci(before, names[i]) {
                assert(same_ci(r[before.len() as int], names[i]));
            }
        }
        assert forall|i: int, j: int| 0 <= i < j < r.len() implies !same_ci(
            #[trigger] r[i],
            #[trigger] r[j],
        ) by {
            assert(r[i] == before[i]);
            if j < before.len() {
                assert(r[j] == before[j]);
            }
        }
    }
}

/// The rows and the candidates of a list are told one by one, in order.
pub proof fn rows_are_told_in_order(v: Seq<Candidate>, rows: Seq<TextInput>)
    ensures
        picks(v).len() == v.len(),
        forall|i: int|
            0 <= i < v.len() ==> #[trigger] picks(v)[i] == (v[i].dn@, v[i].label@, v[i].store_value@),
        inputs(rows).len() == rows.len(),
        forall|i: int|
            0 <= i < rows.len() ==> #[trigger] inputs(rows)[i] == (
                rows[i].value@,
                rows[i].position as int,
            ),
{
}

/// A value that is chosen from the start names, shows and stores itself; an option stores its value
/// and shows its label.
pub proof fn seeds_stand_for_themselves(values: Seq<Seq<char>>, options: Seq<ChoiceOption>)
    ensures
        self_picks(values).len() == values.len(),
        forall|i: int|
            0 <= i < values.len() ==> #[trigger] self_picks(values)[i] == (
                values[i],
                values[i],
                values[i],
            ),
        option_picks(options).len() == options.len(),
        forall|i: int|
            0 <= i < options.len() ==> (#[trigger] option_picks(options)[i]).1 == options[i].label@
                && option_picks(options)[i].2 == options[i].value@ && option_picks(options)[i].0
                == options[i].value@,
{
}

/// The options chosen from the start are those whose value is checked, all of them, in their order.
pub proof fn checked_options_are_chosen(all: Seq<Pick>, stored: Seq<Seq<char>>)
    ensures
        picked_among(all, stored) == all.filter(|p: Pick| stored.contains(p.2)),
    decreases all.len(),
{
    reveal(Seq::filter);
    if all.len() > 0 {
        checked_options_are_chosen(all.drop_last(), stored);
    }
}

/// The values of edit rows are the rows that are not blank, each without the whitespace around it, in
/// order.
pub proof fn rows_that_are_not_blank_are_kept(rows: Seq<Input>)
    ensures
        kept_rows(rows) == rows.filter_map(
            |r: Input|
                if trimmed(r.0).len() > 0 {
                    Some(trimmed(r.0))
                } else {
                    None
                },
        ),
    decreases rows.len(),
{
    reveal(Seq::filter_map);
    if rows.len() > 0 {
        rows_that_are_not_blank_are_kept(rows.drop_last());
    }
}

/// The arrows move the selection by one row, within the rows, and change none of them.
pub proof fn arrows_select_rows(rows: Seq<Input>, sel: int, key: KeyPress)
    requires
        0 <= sel < rows.len(),
        !key.has_alt(),
        key.code is Up || key.code is Down,
    ensures
        rows_keyed(rows, sel, key).0 == rows,
        key.code is Up && sel > 0 ==> rows_keyed(rows, sel, key).1 == sel - 1,
        key.code is Up && sel == 0 ==> rows_keyed(rows, sel, key).1 == 0,
        key.code is Down && sel + 1 < rows.len() ==> rows_keyed(rows, sel, key).1 == sel + 1,
        key.code is Down && sel + 1 == rows.len() ==> rows_keyed(rows, sel, key).1 == sel,
{
}

/// With alt the arrows swap the selected row with its neighbour, and the selection goes along; every
/// other row keeps its place.
pub proof fn alt_arrows_swap_rows(rows: Seq<Input>, sel: int, key: KeyPress, i: int)
    requires
        0 <= sel < rows.len(),
        0 <= i < rows.len(),
        key.has_alt(),
        key.code is Up || key.code is Down,
    ensures
        ({
            let to = if key.code is Up {
                sel - 1
            } else {
                sel + 1
            };
            let r = rows_keyed(rows, sel, key);
            &&& r.0.len() == rows.len()
            &&& !(0 <= to < rows.len()) ==> r == (rows, sel)
            &&& 0 <= to < rows.len() ==> r.1 == to && r.0[to] == rows[sel] && r.0[sel] == rows[to] && (i
                != sel && i != to ==> r.0[i] == rows[i])
        }),
{
}

/// Insert, or alt with `a`, puts an empty row below the selected one and selects it; alt with `d`
/// removes the selected row; any other key edits the selected row. The other rows stay, in order.
pub proof fn rows_are_added_removed_and_edited(rows: Seq<Input>, sel: int, key: KeyPress, i: int)
    requires
        0 <= sel < rows.len(),
        0 <= i < rows.len(),
        !(key.code is Up) && !(key.code is Down),
    ensures
        ({
            let r = rows_keyed(rows, sel, key);
            let adds = key.code is Insert || (key.has_alt() && key.code == KeyCode::Char('a'));
            let removes = key.has_alt() && key.code == KeyCode::Char('d');
            &&& adds ==> r.0.len() == rows.len() + 1 && r.1 == sel + 1 && r.0[sel + 1].0.len() == 0
                && r.0[if i <= sel {
                i
            } else {
                i + 1
            }] == rows[i]
            &&& removes && !adds ==> r.0.len() == rows.len() - 1 && (i < sel ==> r.0[i] == rows[i]) && (i
                > sel ==> r.0[i - 1] == rows[i])
            &&& !adds && !removes ==> r.0.len() == rows.len() && r.1 == sel && (i != sel ==> r.0[i]
                == rows[i]) && (i == sel ==> r.0[i] == pressed(rows[i], key))
        }),
{
}

/// Found entries are candidates in the order they were found: by name all of them, each standing for
/// its name; by an attribute those that have it, each standing for its value.
pub proof fn found_entries_are_candidates(found: Seq<FoundEntry>, by_name: bool)
    ensures
        by_name ==> candidates_among(found, by_name) == found.map_values(
            |e: FoundEntry| (e.dn@, e.label@, e.dn@),
        ),
        !by_name ==> candidates_among(found, by_name) == found.filter(
            |e: FoundEntry| e.value is Some,
        ).map_values(|e: FoundEntry| (e.dn@, e.label@, e.value->0@)),
    decreases found.len(),
{
    reveal(Seq::filter);
    let named = |e: FoundEntry| (e.dn@, e.label@, e.dn@);
    let valued = |e: FoundEntry| (e.dn@, e.label@, e.value->0@);
    let has = |e: FoundEntry| e.value is Some;
    if found.len() > 0 {
        let head = found.drop_last();
        found_entries_are_candidates(head, by_name);
        assert(head.map_values(named).push(named(found.last())) =~= found.map_values(named));
        assert(head.filter(has).push(found.last()).map_values(valued) =~= head.filter(
            has,
        ).map_values(valued).push(valued(found.last())));
    } else {
        assert(found.map_values(named) =~= Seq::empty());
        assert(found.filter(has).map_values(valued) =~= Seq::empty());
    }
}

/// Stored values compare exactly, or up to case where whole names are stored.
pub proof fn names_compare_up_to_case(a: Seq<char>, b: Seq<char>)
    ensures
        same_key(a, b, true) <==> same_ci(a, b),
        same_key(a, b, false) <==> a == b,
{
}

/// A chosen candidate takes the name and the label of the first result that stores the same value;
/// without one it stays as it is.
pub proof fn chosen_candidates_take_the_label_found(sel: Pick, results: Seq<Pick>, ci: bool, i: int)
    ensures
        0 <= i < results.len() && same_key(results[i].2, sel.2, ci) && (forall|j: int|
            0 <= j < i ==> !same_key((#[trigger] results[j]).2, sel.2, ci)) ==> upgraded(
            sel,
            results,
            ci,
        ) == (results[i].0, results[i].1, sel.2),
        (forall|j: int| 0 <= j < results.len() ==> !same_key((#[trigger] results[j]).2, sel.2, ci))
            ==> upgraded(sel, results, ci) == sel,
{
    first_stored(results, sel.2, ci);
    match stored_first(results, sel.2, ci) {
        Some(p) => {
            let k = choose|k: int|
                0 <= k < results.len() && (#[trigger] results[k]) == p && same_key(
                    results[k].2,
                    sel.2,
                    ci,
                ) && forall|j: int| 0 <= j < k ==> !same_key((#[trigger] results[j]).2, sel.2, ci);
            assert(same_key(results[k].2, sel.2, ci));
        },
        None => {},
    }
}

proof fn first_stored(results: Seq<Pick>, value: Seq<char>, ci: bool)
    ensures
        match stored_first(results, value, ci) {
            Some(p) => exists|k: int|
                0 <= k < results.len() && (#[trigger] results[k]) == p && same_key(
                    results[k].2,
                    value,
                    ci,
                ) && forall|j: int| 0 <= j < k ==> !same_key((#[trigger] results[j]).2, value, ci),
            None => forall|j: int| 0 <= j < results.len() ==> !same_key((#[trigger] results[j]).2, value, ci),
        },
    decreases results.len(),
{
    if results.len() > 0 {
        let head = results.drop_last();
        let n = results.len() - 1;
        first_stored(head, value, ci);
        assert forall|j: int| 0 <= j < n implies head[j] == #[trigger] results[j] by {}
        match stored_first(head, value, ci) {
            Some(p) => {
                let k = choose|k: int|
                    0 <= k < head.len() && (#[trigger] head[k]) == p && same_key(head[k].2, value, ci)
                        && forall|j: int| 0 <= j < k ==> !same_key((#[trigger] head[j]).2, value, ci);
                assert(results[k] == p);
            },
            None => {
                assert(results[n] == results.last());
            },
        }
    }
}

/// Choosing a candidate that is not chosen puts it behind the others; choosing one that is drops it,
/// and every other one stays, in order. Afterwards it is chosen exactly when it was not before.
pub proof fn choosing_adds_or_drops(v: Seq<Candidate>, c: Candidate, ci: bool)
    ensures
        (exists|i: int| 0 <= i < v.len() && same_key((#[trigger] v[i]).store_value@, c.store_value@, ci))
            ==> toggled(v, c, ci) == v.filter(
            |x: Candidate| !same_key(x.store_value@, c.store_value@, ci),
        ),
        (forall|i: int| 0 <= i < v.len() ==> !same_key((#[trigger] v[i]).store_value@, c.store_value@, ci))
            ==> toggled(v, c, ci) == v.push(c),
{
    kept_without_key(v, c.store_value@, ci);
}

proof fn kept_without_key(v: Seq<Candidate>, value: Seq<char>, ci: bool)
    ensures
        without_key(v, value, ci) == v.filter(|x: Candidate| !same_key(x.store_value@, value, ci)),
    decreases v.len(),
{
    reveal(Seq::filter);
    if v.len() > 0 {
        kept_without_key(v.drop_last(), value, ci);
    }
}

/// Of names that differ in case alone the first is kept, and empty ones are not; nothing else is
/// there.
pub proof fn first_names_are_kept(names: Seq<Seq<char>>, i: int)
    requires
        0 <= i < names.len(),
    ensures
        names[i].len() > 0 && (forall|j: int| 0 <= j < i ==> !same_ci(#[trigger] names[j], names[i]))
            ==> deduped(names).contains(names[i]),
        forall|k: int| 0 <= k < deduped(names).len() ==> names.contains(#[trigger] deduped(names)[k]),
    decreases names.len(),
{
    let head = names.drop_last();
    let before = deduped(head);
    let r = deduped(names);
    let n = names.len() - 1;
    assert(names.last() == names[n]);
    assert(forall|j: int| 0 <= j < n ==> head[j] == names[j]);
    if head.len() > 0 {
        first_names_are_kept(head, if i < n { i } else { 0 });
    }
    deduped_come_from(head);
    deduped_come_from(names);
    if names[i].len() > 0 && (forall|j: int| 0 <= j < i ==> !same_ci(#[trigger] names[j], names[i])) {
        if i < n {
            assert forall|j: int| 0 <= j < i implies !same_ci(#[trigger] head[j], head[i]) by {
                assert(head[j] == names[j]);
            }
            assert(before.contains(head[i]));
            let k = choose|k: int| 0 <= k < before.len() && before[k] == head[i];
            assert(r[k] == names[i]);
        } else {
            if has_ci(before, names[n]) {
                let k = choose|k: int| 0 <= k < before.len() && same_ci(#[trigger] before[k], names[n]);
                assert(head.contains(before[k]));
                let j = choose|j: int| 0 <= j < head.len() && head[j] == before[k];
                assert(same_ci(names[j], names[n]));
            }
            assert(r[before.len() as int] == names[n]);
        }
    }
}

proof fn deduped_come_from(names: Seq<Seq<char>>)
    ensures
        forall|k: int| 0 <= k < deduped(names).len() ==> names.contains(#[trigger] deduped(names)[k]),
    decreases names.len(),
{
    if names.len() > 0 {
        let head = names.drop_last();
        let before = deduped(head);
        deduped_come_from(head);
        assert(names[names.len() - 1] == names.last());
        assert forall|k: int| 0 <= k < deduped(names).len() implies names.contains(
            #[trigger] deduped(names)[k],
        ) by {
            if k < before.len() {
                assert(head.contains(before[k]));
                let j = choose|j: int| 0 <= j < head.len() && head[j] == before[k];
                assert(names[j] == deduped(names)[k]);
            }
        }
    }
}

/// Every name that is not empty is still found, up to case.
pub proof fn every_name_is_kept(names: Seq<Seq<char>>, name: Seq<char>)
    requires
        names.contains(name),
        name.len() > 0,
    ensures
        has_ci(deduped(names), name),
{
    deduped_names_differ(names);
    let i = choose|i: int| 0 <= i < names.len() && names[i] == name;
    assert(has_ci(deduped(names), names[i]));
}

} // verus!
