//! The two-column mover: available rows on one side, selected rows on the other.
use tvision_rs::Command;
use vstd::prelude::*;
use vstd::string::*;

use crate::keys::KeyCode;
use crate::layout::Rect;
use crate::names::command_name;
use crate::text::{concat2, eq_ignore_case, same_ci, same_text, texts};

verus! {

/// The command of the button that moves a row in.
pub const CMD_DUAL_IN: &'static str = "edaptor.dual.in";

/// The command of the button that moves a row out.
pub const CMD_DUAL_OUT: &'static str = "edaptor.dual.out";

/// In front of an available row that is selected already.
pub const MARK_ALREADY_SELECTED: &'static str = "✓ ";

/// In front of a plain row.
pub const MARK_PLAIN: &'static str = "  ";

/// In front of a selected row that cannot be removed.
pub const MARK_LOCKED: &'static str = "* ";

/// A row of either column: what it stands for, what it shows, and whether it can be moved out.
#[derive(Debug)]
pub struct DualRow {
    pub key: String,
    pub label: String,
    pub removable: bool,
}

impl DualRow {
    /// A copy of the row.
    pub fn copy(&self) -> (r: DualRow)
        ensures
            r == *self,
    {
        DualRow { key: self.key.clone(), label: self.label.clone(), removable: self.removable }
    }
}

/// What an event did.
#[derive(Debug, PartialEq, Eq)]
pub enum DualEvent {
    /// Nothing to react to.
    Nothing,
    /// The row with this key was moved in.
    MovedIn(String),
    /// The row with this key was moved out.
    MovedOut(String),
    /// The search text is now this one.
    SearchChanged(String),
}

/// What an event asks the mover for.
#[derive(Debug, Clone, Copy, PartialEq, Eq, Structural)]
pub enum DualInput {
    MoveIn,
    MoveOut,
    /// Nothing; the event is the dialog's.
    Other,
}

/// What a key asks the mover for: Insert and Right move in, Delete and Left move out, wherever the
/// columns stand.
pub fn key_input(code: KeyCode) -> (r: DualInput)
    ensures
        r == match code {
            KeyCode::Insert => DualInput::MoveIn,
            KeyCode::Right => DualInput::MoveIn,
            KeyCode::Delete => DualInput::MoveOut,
            KeyCode::Left => DualInput::MoveOut,
            _ => DualInput::Other,
        },
{
    match code {
        KeyCode::Insert | KeyCode::Right => DualInput::MoveIn,
        KeyCode::Delete | KeyCode::Left => DualInput::MoveOut,
        _ => DualInput::Other,
    }
}

/// What a command asks the mover for.
pub fn command_input(cmd: Command) -> (r: DualInput)
    ensures
        r == if command_name(cmd) == CMD_DUAL_IN@ {
            DualInput::MoveIn
        } else if command_name(cmd) == CMD_DUAL_OUT@ {
            DualInput::MoveOut
        } else {
            DualInput::Other
        },
{
    let name: &str = cmd.name();
    if same_text(name, CMD_DUAL_IN) {
        DualInput::MoveIn
    } else if same_text(name, CMD_DUAL_OUT) {
        DualInput::MoveOut
    } else {
        DualInput::Other
    }
}

/// The place of each part of the mover.
#[derive(Debug, Clone, Copy)]
pub struct DualLayout {
    pub left_title: Rect,
    pub right_title: Rect,
    /// The search box, above the available rows.
    pub search: Option<Rect>,
    pub avail_list: Rect,
    pub avail_bar: Rect,
    pub selected_list: Rect,
    pub selected_bar: Rect,
    pub add_button: Rect,
    pub remove_button: Rect,
    /// The number of rows that a column shows.
    pub list_page: i32,
}

/// Whether the parts of a mover have coordinates: nothing lies beyond what a number can hold.
pub open spec fn can_lay_out(area: Rect) -> bool {
    &&& i32::MIN <= area.ax + area.bx <= i32::MAX
    &&& i32::MIN + 2 <= half(area.ax + area.bx) <= i32::MAX - 2
    &&& area.ax <= i32::MAX - 26
    &&& area.bx >= i32::MIN + 3
    &&& area.ay <= i32::MAX - 4
    &&& area.by >= i32::MIN + 4
    &&& i32::MIN <= area.by - area.ay - 8 <= i32::MAX
}

/// Half of a number, rounded towards zero.
pub open spec fn half(n: int) -> int {
    if n >= 0 {
        n / 2
    } else {
        -((-n) / 2)
    }
}

/// The columns: the left one from 2 cells inside the area to 2 cells before its middle, the right
/// one from 2 cells behind the middle to 2 cells inside the area.
pub open spec fn columns(area: Rect) -> ((int, int), (int, int)) {
    let mid = half(area.ax + area.bx);
    ((area.ax + 2, mid - 2), (mid + 2, area.bx - 2))
}

/// Whether a rectangle has the coordinates.
pub open spec fn is_rect(r: Rect, ax: int, ay: int, bx: int, by: int) -> bool {
    r.ax == ax && r.ay == ay && r.bx == bx && r.by == by
}

/// Whether a layout is that of a mover in an area: titles in the second row, the search box below
/// the title of the available column, the lists from the fifth row down to four rows above the
/// bottom, each with its scroll bar in its last cell, and the buttons three rows above the bottom.
pub open spec fn laid_out(
    area: Rect,
    with_search: bool,
    selected_on_left: bool,
    l: DualLayout,
) -> bool {
    let (left, right) = columns(area);
    let avail = if selected_on_left { right } else { left };
    let sel = if selected_on_left { left } else { right };
    let top = area.ay + 4;
    let bottom = area.by - 4;
    &&& is_rect(l.left_title, left.0, area.ay + 1, left.1, area.ay + 2)
    &&& is_rect(l.right_title, right.0, area.ay + 1, right.1, area.ay + 2)
    &&& match l.search {
        Some(s) => with_search && is_rect(s, avail.0, area.ay + 2, avail.1, area.ay + 3),
        None => !with_search,
    }
    &&& is_rect(l.avail_list, avail.0, top, avail.1 - 1, bottom)
    &&& is_rect(l.avail_bar, avail.1 - 1, top, avail.1, bottom)
    &&& is_rect(l.selected_list, sel.0, top, sel.1 - 1, bottom)
    &&& is_rect(l.selected_bar, sel.1 - 1, top, sel.1, bottom)
    &&& is_rect(l.add_button, area.ax + 2, area.by - 3, area.ax + 12, area.by - 1)
    &&& is_rect(l.remove_button, area.ax + 14, area.by - 3, area.ax + 26, area.by - 1)
    &&& l.list_page == if bottom - top > 0 {
        bottom - top
    } else {
        0
    }
}

/// Lays out a mover in an area. Which column holds the selected rows is a matter of layout alone.
pub fn dual_layout(area: Rect, with_search: bool, selected_on_left: bool) -> (l: DualLayout)
    requires
        can_lay_out(area),
    ensures
        laid_out(area, with_search, selected_on_left, l),
{
    let sum: i32 = area.ax + area.bx;
    let mid: i32 = if sum >= 0 {
        sum / 2
    } else if sum == i32::MIN {
        -1073741824
    } else {
        -((-sum) / 2)
    };
    let left: (i32, i32) = (area.ax + 2, mid - 2);
    let right: (i32, i32) = (mid + 2, area.bx - 2);
    let (avail, sel) = if selected_on_left {
        (right, left)
    } else {
        (left, right)
    };
    let top: i32 = area.ay + 4;
    let bottom: i32 = area.by - 4;
    DualLayout {
        left_title: Rect { ax: left.0, ay: area.ay + 1, bx: left.1, by: area.ay + 2 },
        right_title: Rect { ax: right.0, ay: area.ay + 1, bx: right.1, by: area.ay + 2 },
        search: if with_search {
            Some(Rect { ax: avail.0, ay: area.ay + 2, bx: avail.1, by: area.ay + 3 })
        } else {
            None
        },
        avail_list: Rect { ax: avail.0, ay: top, bx: avail.1 - 1, by: bottom },
        avail_bar: Rect { ax: avail.1 - 1, ay: top, bx: avail.1, by: bottom },
        selected_list: Rect { ax: sel.0, ay: top, bx: sel.1 - 1, by: bottom },
        selected_bar: Rect { ax: sel.1 - 1, ay: top, bx: sel.1, by: bottom },
        add_button: Rect { ax: area.ax + 2, ay: area.by - 3, bx: area.ax + 12, by: area.by - 1 },
        remove_button: Rect { ax: area.ax + 14, ay: area.by - 3, bx: area.ax + 26, by: area.by - 1 },
        list_page: if bottom - top > 0 {
            bottom - top
        } else {
            0
        },
    }
}

/// The two columns never meet: four cells lie between them.
pub proof fn columns_are_apart(area: Rect)
    ensures
        ({
            let c = columns(area);
            let (left, right) = c;
            left.1 + 4 == right.0
        }),
{
}

/// The rows of a mover.
pub struct DualList {
    pub available: Vec<DualRow>,
    pub selected: Vec<DualRow>,
    /// The search text last seen.
    pub last_search: String,
    pub with_search: bool,
    /// The number of rows that a column shows.
    pub list_page: i32,
}

/// Whether a key is that of a selected row, up to ASCII case.
pub open spec fn holds_key(rows: Seq<DualRow>, key: Seq<char>) -> bool {
    exists|i: int| 0 <= i < rows.len() && same_ci((#[trigger] rows[i]).key@, key)
}

/// How an available row shows.
pub open spec fn avail_text(selected: Seq<DualRow>, r: DualRow) -> Seq<char> {
    (if holds_key(selected, r.key@) {
        MARK_ALREADY_SELECTED@
    } else {
        MARK_PLAIN@
    }) + r.label@
}

/// How a selected row shows.
pub open spec fn selected_text(r: DualRow) -> Seq<char> {
    (if r.removable {
        MARK_PLAIN@
    } else {
        MARK_LOCKED@
    }) + r.label@
}

/// Whether no two rows have the same key, up to ASCII case.
pub open spec fn distinct_keys(rows: Seq<DualRow>) -> bool {
    forall|i: int, j: int|
        0 <= i < j < rows.len() ==> !same_ci((#[trigger] rows[i]).key@, (#[trigger] rows[j]).key@)
}

/// Whether `new` are the selected rows `old` after the available row at a place was moved in, with
/// what that did: nothing where there is no such row, or its key is selected already.
pub open spec fn moved_in(
    available: Seq<DualRow>,
    old: Seq<DualRow>,
    new: Seq<DualRow>,
    idx: int,
    r: DualEvent,
) -> bool {
    if idx < available.len() && !holds_key(old, available[idx].key@) {
        new == old.push(available[idx]) && (r matches DualEvent::MovedIn(k) && k@
            == available[idx].key@)
    } else {
        new == old && r is Nothing
    }
}

/// Whether `new` are the selected rows `old` after the row at a place was moved out, with what that
/// did: nothing where there is no such row, or it cannot be removed.
pub open spec fn moved_out(old: Seq<DualRow>, new: Seq<DualRow>, idx: int, r: DualEvent) -> bool {
    if idx < old.len() && old[idx].removable {
        new == old.remove(idx) && (r matches DualEvent::MovedOut(k) && k@ == old[idx].key@)
    } else {
        new == old && r is Nothing
    }
}

/// The first available row that shows as a text.
pub open spec fn first_avail(rows: Seq<DualRow>, selected: Seq<DualRow>, text: Seq<char>) -> Option<int>
    decreases rows.len(),
{
    if rows.len() == 0 {
        None
    } else {
        match first_avail(rows.drop_last(), selected, text) {
            Some(i) => Some(i),
            None => if avail_text(selected, rows.last()) == text {
                Some(rows.len() - 1)
            } else {
                None
            },
        }
    }
}

/// The first selected row that shows as a text.
pub open spec fn first_selected(rows: Seq<DualRow>, text: Seq<char>) -> Option<int>
    decreases rows.len(),
{
    if rows.len() == 0 {
        None
    } else {
        match first_selected(rows.drop_last(), text) {
            Some(i) => Some(i),
            None => if selected_text(rows.last()) == text {
                Some(rows.len() - 1)
            } else {
                None
            },
        }
    }
}

proof fn first_avail_prefix(rows: Seq<DualRow>, selected: Seq<DualRow>, text: Seq<char>, n: int)
    requires
        0 <= n <= rows.len(),
        first_avail(rows.take(n), selected, text) is Some,
    ensures
        first_avail(rows, selected, text) == first_avail(rows.take(n), selected, text),
    decreases rows.len() - n,
{
    if n < rows.len() {
        assert(rows.take(n + 1).drop_last() =~= rows.take(n));
        first_avail_prefix(rows, selected, text, n + 1);
    } else {
        assert(rows.take(n) =~= rows);
    }
}

proof fn first_selected_prefix(rows: Seq<DualRow>, text: Seq<char>, n: int)
    requires
        0 <= n <= rows.len(),
        first_selected(rows.take(n), text) is Some,
    ensures
        first_selected(rows, text) == first_selected(rows.take(n), text),
    decreases rows.len() - n,
{
    if n < rows.len() {
        assert(rows.take(n + 1).drop_last() =~= rows.take(n));
        first_selected_prefix(rows, text, n + 1);
    } else {
        assert(rows.take(n) =~= rows);
    }
}

/// The effect of a move that an event asks for, by how the highlighted rows show.
pub open spec fn move_done(
    old: DualList,
    new: DualList,
    input: DualInput,
    avail: Option<Seq<char>>,
    sel: Option<Seq<char>>,
    r: DualEvent,
) -> bool {
    &&& new == (DualList { selected: new.selected, ..old })
    &&& match input {
        DualInput::MoveIn => match avail {
            Some(t) => match first_avail(old.available@, old.selected@, t) {
                Some(i) => moved_in(old.available@, old.selected@, new.selected@, i, r),
                None => new == old && r is Nothing,
            },
            None => new == old && r is Nothing,
        },
        DualInput::MoveOut => match sel {
            Some(t) => match first_selected(old.selected@, t) {
                Some(i) => moved_out(old.selected@, new.selected@, i, r),
                None => new == old && r is Nothing,
            },
            None => new == old && r is Nothing,
        },
        DualInput::Other => new == old && r is Nothing,
    }
}

/// An optional text as a mathematical value.
pub open spec fn opt(t: Option<&str>) -> Option<Seq<char>> {
    match t {
        Some(s) => Some(s@),
        None => None,
    }
}

impl DualList {
    /// A mover without rows.
    pub fn new(list_page: i32, with_search: bool) -> (r: DualList)
        ensures
            r.available@.len() == 0,
            r.selected@.len() == 0,
            r.last_search@.len() == 0,
            r.with_search == with_search,
            r.list_page == list_page,
    {
        DualList {
            available: Vec::new(),
            selected: Vec::new(),
            last_search: String::new(),
            with_search,
            list_page,
        }
    }

    /// Whether a key is that of a selected row, up to ASCII case.
    pub fn is_selected(&self, key: &str) -> (b: bool)
        ensures
            b == holds_key(self.selected@, key@),
    {
        let mut i: usize = 0;
        while i < self.selected.len()
            invariant
                i <= self.selected@.len(),
                forall|j: int| 0 <= j < i ==> !same_ci((#[trigger] self.selected@[j]).key@, key@),
            decreases self.selected@.len() - i,
        {
            if eq_ignore_case(&self.selected[i].key, key) {
                return true;
            }
            i += 1;
        }
        false
    }

    /// How an available row shows: marked where it is selected already.
    pub fn avail_display(&self, r: &DualRow) -> (t: String)
        ensures
            t@ == avail_text(self.selected@, *r),
    {
        if self.is_selected(&r.key) {
            concat2(MARK_ALREADY_SELECTED, &r.label)
        } else {
            concat2(MARK_PLAIN, &r.label)
        }
    }

    /// How a selected row shows: marked where it cannot be removed.
    pub fn selected_display(r: &DualRow) -> (t: String)
        ensures
            t@ == selected_text(*r),
    {
        if r.removable {
            concat2(MARK_PLAIN, &r.label)
        } else {
            concat2(MARK_LOCKED, &r.label)
        }
    }

    /// Moves the available row at a place in. Where it is selected already nothing happens.
    pub fn do_move_in(&mut self, idx: usize) -> (r: DualEvent)
        ensures
            moved_in(old(self).available@, old(self).selected@, final(self).selected@, idx as int, r),
            *final(self) == (DualList { selected: final(self).selected, ..*old(self) }),
            r is Nothing ==> *final(self) == *old(self),
    {
        if idx >= self.available.len() {
            return DualEvent::Nothing;
        }
        if self.is_selected(&self.available[idx].key) {
            return DualEvent::Nothing;
        }
        let row: DualRow = self.available[idx].copy();
        let key: String = row.key.clone();
        self.selected.push(row);
        DualEvent::MovedIn(key)
    }

    /// Moves the selected row at a place out, if it can be removed.
    pub fn do_move_out(&mut self, idx: usize) -> (r: DualEvent)
        ensures
            moved_out(old(self).selected@, final(self).selected@, idx as int, r),
            *final(self) == (DualList { selected: final(self).selected, ..*old(self) }),
            r is Nothing ==> *final(self) == *old(self),
    {
        if idx >= self.selected.len() {
            return DualEvent::Nothing;
        }
        if !self.selected[idx].removable {
            return DualEvent::Nothing;
        }
        let row: DualRow = self.selected.remove(idx);
        DualEvent::MovedOut(row.key)
    }

    /// How the available rows show.
    pub fn avail_rows(&self) -> (r: Vec<String>)
        ensures
            texts(r@) == self.available@.map_values(
                |row: DualRow| avail_text(self.selected@, row),
            ),
    {
        let mut out: Vec<String> = Vec::new();
        let ghost goal = self.available@.map_values(|row: DualRow| avail_text(self.selected@, row));
        let mut i: usize = 0;
        while i < self.available.len()
            invariant
                i <= self.available@.len(),
                goal == self.available@.map_values(
                    |row: DualRow| avail_text(self.selected@, row),
                ),
                texts(out@) == goal.take(i as int),
            decreases self.available@.len() - i,
        {
            let ghost o0 = out@;
            out.push(self.avail_display(&self.available[i]));
            i += 1;
            proof {
                assert(texts(out@) =~= texts(o0).push(goal[i - 1]));
                assert(texts(out@) =~= goal.take(i as int));
            }
        }
        assert(goal.take(goal.len() as int) =~= goal);
        out
    }

    /// How the selected rows show.
    pub fn selected_rows(&self) -> (r: Vec<String>)
        ensures
            texts(r@) == self.selected@.map_values(|row: DualRow| selected_text(row)),
    {
        let mut out: Vec<String> = Vec::new();
        let ghost goal = self.selected@.map_values(|row: DualRow| selected_text(row));
        let mut i: usize = 0;
        while i < self.selected.len()
            invariant
                i <= self.selected@.len(),
                goal == self.selected@.map_values(|row: DualRow| selected_text(row)),
                texts(out@) == goal.take(i as int),
            decreases self.selected@.len() - i,
        {
            let ghost o0 = out@;
            out.push(Self::selected_display(&self.selected[i]));
            i += 1;
            proof {
                assert(texts(out@) =~= texts(o0).push(goal[i - 1]));
                assert(texts(out@) =~= goal.take(i as int));
            }
        }
        assert(goal.take(goal.len() as int) =~= goal);
        out
    }

    /// The place of the available row that shows as a text. The list sorts what it shows, so that a
    /// row is known by how it shows.
    pub fn avail_highlight(&self, text: &str) -> (r: Option<usize>)
        ensures
            match r {
                Some(i) => i < self.available@.len() && first_avail(
                    self.available@,
                    self.selected@,
                    text@,
                ) == Some(i as int),
                None => first_avail(self.available@, self.selected@, text@) is None,
            },
    {
        let ghost all = self.available@;
        let mut i: usize = 0;
        while i < self.available.len()
            invariant
                i <= self.available@.len(),
                all == self.available@,
                first_avail(all.take(i as int), self.selected@, text@) is None,
            decreases self.available@.len() - i,
        {
            proof {
                assert(all.take(i + 1).drop_last() =~= all.take(i as int));
            }
            if same_text(&self.avail_display(&self.available[i]), text) {
                proof {
                    first_avail_prefix(all, self.selected@, text@, i + 1);
                }
                return Some(i);
            }
            i += 1;
        }
        assert(all.take(all.len() as int) =~= all);
        None
    }

    /// The place of the selected row that shows as a text.
    pub fn selected_highlight(&self, text: &str) -> (r: Option<usize>)
        ensures
            match r {
                Some(i) => i < self.selected@.len() && first_selected(self.selected@, text@) == Some(
                    i as int,
                ),
                None => first_selected(self.selected@, text@) is None,
            },
    {
        let ghost all = self.selected@;
        let mut i: usize = 0;
        while i < self.selected.len()
            invariant
                i <= self.selected@.len(),
                all == self.selected@,
                first_selected(all.take(i as int), text@) is None,
            decreases self.selected@.len() - i,
        {
            proof {
                assert(all.take(i + 1).drop_last() =~= all.take(i as int));
            }
            if same_text(&Self::selected_display(&self.selected[i]), text) {
                proof {
                    first_selected_prefix(all, text@, i + 1);
                }
                return Some(i);
            }
            i += 1;
        }
        assert(all.take(all.len() as int) =~= all);
        None
    }

    /// Makes the move that an event asks for. `avail` and `sel` are the highlighted rows of the
    /// columns, as they show.
    pub fn perform_move(&mut self, input: DualInput, avail: Option<&str>, sel: Option<&str>) -> (r:
        DualEvent)
        ensures
            move_done(*old(self), *final(self), input, opt(avail), opt(sel), r),
    {
        match input {
            DualInput::MoveIn => match avail {
                Some(t) => match self.avail_highlight(t) {
                    Some(i) => self.do_move_in(i),
                    None => DualEvent::Nothing,
                },
                None => DualEvent::Nothing,
            },
            DualInput::MoveOut => match sel {
                Some(t) => match self.selected_highlight(t) {
                    Some(i) => self.do_move_out(i),
                    None => DualEvent::Nothing,
                },
                None => DualEvent::Nothing,
            },
            DualInput::Other => DualEvent::Nothing,
        }
    }

    /// What an event comes to once it was handled: the move that was made, or else a change of the
    /// search text, which is now `search`.
    pub fn settle(&mut self, outcome: DualEvent, search: &str) -> (r: DualEvent)
        ensures
            ({
                let changed = old(self).with_search && search@ != old(self).last_search@;
                &&& *final(self) == (DualList { last_search: final(self).last_search, ..*old(self) })
                &&& final(self).last_search@ == if changed {
                    search@
                } else {
                    old(self).last_search@
                }
                &&& if changed && outcome is Nothing {
                    r matches DualEvent::SearchChanged(t) && t@ == search@
                } else {
                    r == outcome
                }
            }),
    {
        if self.with_search && !same_text(search, &self.last_search) {
            self.last_search = search.to_owned();
            match outcome {
                DualEvent::Nothing => return DualEvent::SearchChanged(search.to_owned()),
                _ => {},
            }
        }
        outcome
    }

    /// Whether each column needs its scroll bar: it has more rows than it shows.
    pub fn bars(&self) -> (r: (bool, bool))
        requires
            self.list_page >= 0,
        ensures
            r.0 == (self.available@.len() > self.list_page),
            r.1 == (self.selected@.len() > self.list_page),
    {
        let page: usize = self.list_page as usize;
        (self.available.len() > page, self.selected.len() > page)
    }

    /// What the selected rows stand for.
    pub fn selected_keys(&self) -> (r: Vec<String>)
        ensures
            texts(r@) == self.selected@.map_values(|row: DualRow| row.key@),
    {
        let mut out: Vec<String> = Vec::new();
        let ghost goal = self.selected@.map_values(|row: DualRow| row.key@);
        let mut i: usize = 0;
        while i < self.selected.len()
            invariant
                i <= self.selected@.len(),
                goal == self.selected@.map_values(|row: DualRow| row.key@),
                texts(out@) == goal.take(i as int),
            decreases self.selected@.len() - i,
        {
            let ghost o0 = out@;
            out.push(self.selected[i].key.clone());
            i += 1;
            proof {
                assert(texts(out@) =~= texts(o0).push(goal[i - 1]));
                assert(texts(out@) =~= goal.take(i as int));
            }
        }
        assert(goal.take(goal.len() as int) =~= goal);
        out
    }
}

/// The highlight of a list after its rows were replaced: where it was, within the new rows.
pub open spec fn kept_cursor(sel: int, rows: int) -> int {
    let last = if rows > 0 { rows - 1 } else { 0 };
    if sel < 0 {
        0
    } else if sel < last {
        sel
    } else {
        last
    }
}

/// The highlight of a list after its rows were replaced.
pub fn clamp_cursor(sel: i32, rows: usize) -> (r: i32)
    requires
        rows <= i32::MAX,
    ensures
        r == kept_cursor(sel as int, rows as int),
{
    let last: i32 = if rows > 0 {
        (rows - 1) as i32
    } else {
        0
    };
    if sel < 0 {
        0
    } else if sel < last {
        sel
    } else {
        last
    }
}

/// Moving in keeps the selected keys distinct.
pub proof fn moving_in_keeps_keys_distinct(
    available: Seq<DualRow>,
    old: Seq<DualRow>,
    new: Seq<DualRow>,
    idx: int,
    r: DualEvent,
)
    requires
        0 <= idx,
        moved_in(available, old, new, idx, r),
        distinct_keys(old),
    ensures
        distinct_keys(new),
{
    assert forall|i: int, j: int| 0 <= i < j < new.len() implies !same_ci(
        (#[trigger] new[i]).key@,
        (#[trigger] new[j]).key@,
    ) by {
        assert(new[i] == old[i]);
        if j < old.len() {
            assert(new[j] == old[j]);
        }
    }
}

/// Moving out keeps the selected keys distinct.
pub proof fn moving_out_keeps_keys_distinct(
    old: Seq<DualRow>,
    new: Seq<DualRow>,
    idx: int,
    r: DualEvent,
)
    requires
        0 <= idx,
        moved_out(old, new, idx, r),
        distinct_keys(old),
    ensures
        distinct_keys(new),
{
    assert forall|i: int, j: int| 0 <= i < j < new.len() implies !same_ci(
        (#[trigger] new[i]).key@,
        (#[trigger] new[j]).key@,
    ) by {
        if idx < old.len() && old[idx].removable {
            let a = if i < idx { i } else { i + 1 };
            let b = if j < idx { j } else { j + 1 };
            assert(new[i] == old[a]);
            assert(new[j] == old[b]);
        }
    }
}

/// Moving a row in and the last row out again gives back the selected rows.
pub proof fn moving_out_undoes_moving_in(
    available: Seq<DualRow>,
    old: Seq<DualRow>,
    mid: Seq<DualRow>,
    new: Seq<DualRow>,
    idx: int,
    r: DualEvent,
    s: DualEvent,
)
    requires
        0 <= idx < available.len(),
        available[idx].removable,
        moved_in(available, old, mid, idx, r),
        r is MovedIn,
        moved_out(mid, new, mid.len() - 1, s),
    ensures
        new == old,
{
    assert(mid[mid.len() - 1] == available[idx]);
    assert(new =~= old);
}

/// A row that cannot be removed stays selected, whatever is moved out.
pub proof fn locked_rows_stay(old: Seq<DualRow>, new: Seq<DualRow>, idx: int, r: DualEvent, i: int)
    requires
        0 <= idx,
        moved_out(old, new, idx, r),
        0 <= i < old.len(),
        !old[i].removable,
    ensures
        new.contains(old[i]),
{
    if idx < old.len() && old[idx].removable {
        let k = if i < idx { i } else { i - 1 };
        assert(new[k] == old[i]);
    } else {
        assert(new[i] == old[i]);
    }
}

/// Moving in adds the row at the end, unless a selected row has its key in some letter case; the key
/// that was moved is told.
pub proof fn rows_are_moved_in_once(
    available: Seq<DualRow>,
    old: Seq<DualRow>,
    new: Seq<DualRow>,
    idx: int,
    r: DualEvent,
)
    requires
        moved_in(available, old, new, idx, r),
        0 <= idx,
    ensures
        old.is_prefix_of(new),
        idx < available.len() && (forall|i: int|
            0 <= i < old.len() ==> !same_ci((#[trigger] old[i]).key@, available[idx].key@)) ==> new.len()
            == old.len() + 1 && new.last() == available[idx] && (r matches DualEvent::MovedIn(k) && k@
            == available[idx].key@),
        idx >= available.len() || (exists|i: int|
            0 <= i < old.len() && same_ci((#[trigger] old[i]).key@, available[idx].key@)) ==> new == old
            && r is Nothing,
{
}

/// Moving out takes exactly the row at the place, if it can be removed; the rows before and behind it
/// stay, and its key is told.
pub proof fn removable_rows_are_moved_out(old: Seq<DualRow>, new: Seq<DualRow>, idx: int, r: DualEvent)
    requires
        moved_out(old, new, idx, r),
        0 <= idx,
    ensures
        idx < old.len() && old[idx].removable ==> new == old.take(idx) + old.skip(idx + 1) && (
        r matches DualEvent::MovedOut(k) && k@ == old[idx].key@),
        idx >= old.len() || !old[idx].removable ==> new == old && r is Nothing,
{
    if idx < old.len() {
        assert(old.remove(idx) =~= old.take(idx) + old.skip(idx + 1));
    }
}

/// Rows are found by how they show, the first one where several show alike: an available row by its
/// label behind the tick or the blank mark.
pub proof fn available_rows_are_found_by_how_they_show(
    rows: Seq<DualRow>,
    selected: Seq<DualRow>,
    text: Seq<char>,
)
    ensures
        match first_avail(rows, selected, text) {
            Some(i) => 0 <= i < rows.len() && avail_text(selected, rows[i]) == text && forall|j: int|
                0 <= j < i ==> avail_text(selected, #[trigger] rows[j]) != text,
            None => forall|j: int|
                0 <= j < rows.len() ==> avail_text(selected, #[trigger] rows[j]) != text,
        },
    decreases rows.len(),
{
    if rows.len() > 0 {
        let head = rows.drop_last();
        available_rows_are_found_by_how_they_show(head, selected, text);
        assert forall|j: int| 0 <= j < head.len() implies head[j] == #[trigger] rows[j] by {}
    }
}

/// Likewise a selected row, by its label behind the blank mark or that of a locked row.
pub proof fn selected_rows_are_found_by_how_they_show(rows: Seq<DualRow>, text: Seq<char>)
    ensures
        match first_selected(rows, text) {
            Some(i) => 0 <= i < rows.len() && selected_text(rows[i]) == text && forall|j: int|
                0 <= j < i ==> selected_text(#[trigger] rows[j]) != text,
            None => forall|j: int|
                0 <= j < rows.len() ==> selected_text(#[trigger] rows[j]) != text,
        },
    decreases rows.len(),
{
    if rows.len() > 0 {
        let head = rows.drop_last();
        selected_rows_are_found_by_how_they_show(head, text);
        assert forall|j: int| 0 <= j < head.len() implies head[j] == #[trigger] rows[j] by {}
    }
}

/// A tick marks the available rows whose key is selected, in any letter case; an asterisk marks the
/// selected rows that cannot be removed. Other rows are set in by as much.
pub proof fn marks_tell_what_can_be_moved(selected: Seq<DualRow>, r: DualRow)
    ensures
        (exists|i: int| 0 <= i < selected.len() && same_ci((#[trigger] selected[i]).key@, r.key@))
            ==> avail_text(selected, r) == "✓ "@ + r.label@,
        (forall|i: int| 0 <= i < selected.len() ==> !same_ci((#[trigger] selected[i]).key@, r.key@))
            ==> avail_text(selected, r) == "  "@ + r.label@,
        r.removable ==> selected_text(r) == "  "@ + r.label@,
        !r.removable ==> selected_text(r) == "* "@ + r.label@,
{
}

/// A move takes the highlighted row of its own column. Without a highlighted row, or for any other
/// event, nothing changes; the available rows and the search stay in any case.
pub proof fn moves_take_the_highlighted_row(
    old: DualList,
    new: DualList,
    input: DualInput,
    avail: Option<Seq<char>>,
    sel: Option<Seq<char>>,
    r: DualEvent,
    i: int,
)
    requires
        move_done(old, new, input, avail, sel, r),
    ensures
        new.available == old.available && new.last_search == old.last_search && new.list_page
            == old.list_page,
        input is Other ==> new == old && r is Nothing,
        input is MoveIn && avail is None ==> new == old && r is Nothing,
        input is MoveOut && sel is None ==> new == old && r is Nothing,
        input is MoveIn && avail is Some && 0 <= i < old.available@.len() && avail_text(
            old.selected@,
            old.available@[i],
        ) == avail->0 && (forall|j: int|
            0 <= j < i ==> avail_text(old.selected@, #[trigger] old.available@[j]) != avail->0)
            ==> moved_in(old.available@, old.selected@, new.selected@, i, r),
        input is MoveOut && sel is Some && 0 <= i < old.selected@.len() && selected_text(
            old.selected@[i],
        ) == sel->0 && (forall|j: int|
            0 <= j < i ==> selected_text(#[trigger] old.selected@[j]) != sel->0) ==> moved_out(
            old.selected@,
            new.selected@,
            i,
            r,
        ),
{
    if let Some(t) = avail {
        available_rows_are_found_by_how_they_show(old.available@, old.selected@, t);
        if 0 <= i < old.available@.len() {
            assert(old.available@[i] == old.available@[i]);
        }
    }
    if let Some(t) = sel {
        selected_rows_are_found_by_how_they_show(old.selected@, t);
        if 0 <= i < old.selected@.len() {
            assert(old.selected@[i] == old.selected@[i]);
        }
    }
}

/// The highlight stays where it was, unless the rows end before it: then it is on the last one.
pub proof fn the_highlight_stays_in_the_rows(sel: int, rows: int)
    requires
        rows >= 0,
    ensures
        0 <= sel < rows ==> kept_cursor(sel, rows) == sel,
        sel >= rows > 0 ==> kept_cursor(sel, rows) == rows - 1,
        rows == 0 || sel < 0 ==> kept_cursor(sel, rows) == 0,
{
}

/// In an area with room for it, every part of a mover lies inside the area. The search box stands
/// between the title and the list of the available column, each list ends where its scroll bar starts,
/// and the lists end above the buttons.
pub proof fn parts_lie_in_the_area(
    area: Rect,
    with_search: bool,
    selected_on_left: bool,
    l: DualLayout,
    part: Rect,
)
    requires
        laid_out(area, with_search, selected_on_left, l),
        area.bx - area.ax >= 30,
        area.by - area.ay >= 9,
        part == l.left_title || part == l.right_title || Some(part) == l.search || part == l.avail_list
            || part == l.avail_bar || part == l.selected_list || part == l.selected_bar || part
            == l.add_button || part == l.remove_button,
    ensures
        area.ax < part.ax < part.bx < area.bx,
        area.ay < part.ay < part.by < area.by,
        l.search is Some <==> with_search,
        l.search matches Some(s) ==> l.left_title.by <= s.ay < s.by < l.avail_list.ay && s.ax
            == l.avail_list.ax && s.bx == l.avail_bar.bx,
        l.avail_list.bx == l.avail_bar.ax && l.avail_bar.bx - l.avail_bar.ax == 1,
        l.selected_list.bx == l.selected_bar.ax && l.selected_bar.bx - l.selected_bar.ax == 1,
        l.avail_bar.ay == l.avail_list.ay && l.avail_bar.by == l.avail_list.by,
        l.selected_bar.ay == l.selected_list.ay && l.selected_bar.by == l.selected_list.by,
        l.avail_list.by < l.add_button.ay && l.add_button.bx < l.remove_button.ax,
        selected_on_left <==> l.selected_list.ax < l.avail_list.ax,
        !selected_on_left <==> l.avail_list.bx < l.selected_list.ax,
        l.left_title.bx < l.right_title.ax,
        l.list_page == l.avail_list.by - l.avail_list.ay,
{
    let sum = area.ax + area.bx;
    if sum >= 0 {
        assert(2 * half(sum) <= sum <= 2 * half(sum) + 1);
    } else {
        assert(2 * half(sum) - 1 <= sum <= 2 * half(sum));
    }
}

} // verus!
