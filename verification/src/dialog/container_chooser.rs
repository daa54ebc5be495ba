//! The two-row container chooser: create at the current branch, or in the profile's home.
use vstd::prelude::*;

use crate::text::{concat2, texts};

verus! {

/// Dialog width.
pub const WIDTH: i32 = 64;

/// The rows of the chooser: the current branch first, the profile's home second.
pub fn rows(here: &str, home: &str) -> (r: Vec<String>)
    ensures
        texts(r@) == seq!["Here — "@ + here@, "In "@ + home@],
{
    let mut r: Vec<String> = Vec::new();
    r.push(concat2("Here — ", here));
    r.push(concat2("In ", home));
    assert(texts(r@) =~= seq!["Here — "@ + here@, "In "@ + home@]);
    r
}

/// The dialog height: the frame, the list, a blank row and the buttons.
pub fn height(list_rows: i32) -> (h: i32)
    requires
        list_rows <= i32::MAX - 6,
    ensures
        h == list_rows + 6,
{
    list_rows + 6
}

/// The row that the list's highlight stages; a negative value of the list means that nothing is
/// highlighted, and keeps what was staged before.
pub fn staged_row(highlight: Option<i32>, staged: Option<usize>) -> (r: Option<usize>)
    ensures
        r == match highlight {
            Some(i) if i >= 0 => Some(i as usize),
            _ => staged,
        },
{
    match highlight {
        Some(i) => if i >= 0 {
            Some(i as usize)
        } else {
            staged
        },
        None => staged,
    }
}

} // verus!
