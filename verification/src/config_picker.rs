//! The full-screen picker that shows when several configurations are found.
use vstd::prelude::*;

use crate::keys::{KeyCode, KeyPress};

verus! {

/// What a key in the picker leads to.
#[derive(Debug, Clone, Copy, PartialEq, Eq, Structural)]
pub enum PickStep {
    /// The highlight stands on a candidate.
    Highlight(usize),
    /// The candidate was chosen.
    Chosen(usize),
    /// The picker was left without a choice.
    Quit,
}

/// What a key leads to: the arrows move the highlight and wrap around, Enter chooses, `q` and Esc
/// leave, and every other key changes nothing.
pub open spec fn picked(selected: int, candidates: int, key: KeyPress) -> PickStep {
    match key.code {
        KeyCode::Up => PickStep::Highlight(
            (if selected == 0 {
                candidates - 1
            } else {
                selected - 1
            }) as usize,
        ),
        KeyCode::Down => PickStep::Highlight(
            (if selected + 1 == candidates {
                0
            } else {
                selected + 1
            }) as usize,
        ),
        KeyCode::Enter => PickStep::Chosen(selected as usize),
        KeyCode::Esc => PickStep::Quit,
        _ => if key.code == KeyCode::Char('q') {
            PickStep::Quit
        } else {
            PickStep::Highlight(selected as usize)
        },
    }
}

/// Handles a key with the highlight on `selected` of the candidates.
pub fn picker_key(selected: usize, candidates: usize, key: KeyPress) -> (r: PickStep)
    requires
        selected < candidates,
    ensures
        r == picked(selected as int, candidates as int, key),
{
    match key.code {
        KeyCode::Up => PickStep::Highlight(
            if selected == 0 {
                candidates - 1
            } else {
                selected - 1
            },
        ),
        KeyCode::Down => PickStep::Highlight(
            if selected + 1 == candidates {
                0
            } else {
                selected + 1
            },
        ),
        KeyCode::Enter => PickStep::Chosen(selected),
        KeyCode::Esc => PickStep::Quit,
        KeyCode::Char(c) => if c == 'q' {
            PickStep::Quit
        } else {
            PickStep::Highlight(selected)
        },
        _ => PickStep::Highlight(selected),
    }
}

/// The highlight stays on a candidate, and what is chosen is one.
pub proof fn highlight_stays_on_a_candidate(selected: int, candidates: int, key: KeyPress)
    requires
        0 <= selected < candidates <= usize::MAX,
    ensures
        match picked(selected, candidates, key) {
            PickStep::Highlight(i) => i < candidates,
            PickStep::Chosen(i) => i < candidates,
            PickStep::Quit => true,
        },
{
}

/// The arrows undo each other, also across the ends of the list.
pub proof fn arrows_undo_each_other(selected: int, candidates: int, up: KeyPress, down: KeyPress)
    requires
        0 <= selected < candidates <= usize::MAX,
        up.code == KeyCode::Up,
        down.code == KeyCode::Down,
    ensures
        match picked(selected, candidates, up) {
            PickStep::Highlight(i) => picked(i as int, candidates, down) == PickStep::Highlight(
                selected as usize,
            ),
            _ => false,
        },
        match picked(selected, candidates, down) {
            PickStep::Highlight(i) => picked(i as int, candidates, up) == PickStep::Highlight(
                selected as usize,
            ),
            _ => false,
        },
{
}

/// Enter chooses what is highlighted, `q` and Esc leave, the down arrow moves to the next candidate and
/// behind the last one to the first, and any other key leaves the highlight where it is.
pub proof fn keys_of_the_picker(selected: usize, candidates: usize, key: KeyPress)
    requires
        selected < candidates,
    ensures
        ({
            let r = picked(selected as int, candidates as int, key);
            &&& r is Chosen <==> key.code is Enter
            &&& key.code is Enter ==> r == PickStep::Chosen(selected)
            &&& r is Quit <==> key.code is Esc || key.code == KeyCode::Char('q')
            &&& key.code is Down && selected + 1 < candidates ==> r == PickStep::Highlight(
                (selected + 1) as usize,
            )
            &&& key.code is Down && selected + 1 == candidates ==> r == PickStep::Highlight(0)
            &&& key.code is Up && selected > 0 ==> r == PickStep::Highlight((selected - 1) as usize)
            &&& key.code is Up && selected == 0 ==> r == PickStep::Highlight((candidates - 1) as usize)
            &&& r is Highlight && !(key.code is Up) && !(key.code is Down) ==> r
                == PickStep::Highlight(selected)
        }),
{
}

} // verus!
