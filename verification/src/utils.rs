//! Escape sequences written into a string buffer.
use vstd::prelude::*;

use crate::color::{bg_escape, fg_escape, Color};
use crate::text::{
    bg_reset_escape, fg_reset_escape, move_to_escape, push_bg_reset, push_fg_reset, push_move_to,
};

verus! {

/// Writes a move-to escape sequence to a string buffer.  `row` and `col` are
/// zero-based; the sequence counts from one.
pub fn write_move_to(str: &mut String, row: usize, col: usize)
    requires
        row < usize::MAX,
        col < usize::MAX,
    ensures
        final(str)@ == old(str)@ + move_to_escape(row as nat, col as nat),
{
    push_move_to(str, row, col);
}

/// Writes the escape sequence that makes `color` the foreground.
pub fn write_fg_color(str: &mut String, color: Color)
    ensures
        final(str)@ == old(str)@ + fg_escape(color),
{
    color.write_fg(str);
}

/// Writes the escape sequence that makes `color` the background.
pub fn write_bg_color(str: &mut String, color: Color)
    ensures
        final(str)@ == old(str)@ + bg_escape(color),
{
    color.write_bg(str);
}

/// Writes the escape sequence that restores the default foreground.
pub fn write_fg_reset(str: &mut String)
    ensures
        final(str)@ == old(str)@ + fg_reset_escape(),
{
    push_fg_reset(str);
}

/// Writes the escape sequence that restores the default background.
pub fn write_bg_reset(str: &mut String)
    ensures
        final(str)@ == old(str)@ + bg_reset_escape(),
{
    push_bg_reset(str);
}

} // verus!
