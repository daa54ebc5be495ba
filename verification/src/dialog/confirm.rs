//! The save confirmation: how tall a dialog its LDIF preview needs.
use vstd::prelude::*;

use crate::text::{line_count, lines_in};

verus! {

/// Least dialog height: the frame, the buttons and a few text rows.
pub const MIN_DIALOG_H: i32 = 8;

/// Greatest dialog height; it stays within the usual terminal heights.
pub const MAX_DIALOG_H: i32 = 44;

/// Rows around the text: border and blank above; blank, buttons, blank and border below.
pub const CHROME_H: i32 = 6;

/// The dialog height for a number of preview lines.
pub open spec fn height_of(lines: nat) -> int {
    if lines + CHROME_H < MIN_DIALOG_H {
        MIN_DIALOG_H as int
    } else if lines + CHROME_H > MAX_DIALOG_H {
        MAX_DIALOG_H as int
    } else {
        lines + CHROME_H
    }
}

/// The dialog height that `ldif` needs, within the least and the greatest height.
pub fn dialog_height_for(ldif: &str) -> (h: i32)
    ensures
        h == height_of(lines_in(ldif@)),
        MIN_DIALOG_H <= h <= MAX_DIALOG_H,
{
    let lines: usize = line_count(ldif);
    if lines > (MAX_DIALOG_H - CHROME_H) as usize {
        MAX_DIALOG_H
    } else if (lines as i32) + CHROME_H < MIN_DIALOG_H {
        MIN_DIALOG_H
    } else {
        (lines as i32) + CHROME_H
    }
}

/// The row below the last text row: the four rows under the text hold a blank, the buttons, a
/// blank and the border.
pub fn text_end_row(height: i32) -> (y: i32)
    requires
        MIN_DIALOG_H <= height <= MAX_DIALOG_H,
    ensures
        y == height - 4,
{
    height - 4
}

/// More preview lines never give a lower dialog, and give a taller one wherever neither bound
/// has been reached.
pub proof fn longer_previews_are_taller(short: nat, long: nat)
    requires
        short < long,
    ensures
        height_of(short) <= height_of(long),
        short + CHROME_H < MAX_DIALOG_H && long + CHROME_H > MIN_DIALOG_H ==> height_of(short)
            < height_of(long),
{
}

/// The dialog is as tall as its text and what stands around it, but never lower than the least and
/// never taller than the greatest height; the text ends above the buttons.
pub proof fn dialogs_fit_their_preview(lines: nat)
    ensures
        8 <= height_of(lines) <= 44,
        2 <= lines <= 38 ==> height_of(lines) == lines + 6,
        lines < 2 ==> height_of(lines) == 8,
        lines > 38 ==> height_of(lines) == 44,
{
}

} // verus!
