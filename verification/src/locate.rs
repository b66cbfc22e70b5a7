//! Error locator: maps an error span's columns into a marker rectangle in
//! the coordinate space of the rendered input field.
//!
//! The marker sits one row directly below the input field's text row, spans
//! the error's columns horizontally, and is clamped to a minimum width of
//! one column. The pattern is assumed to render on a single line.

use vstd::prelude::*;

verus! {

/// A rectangle in screen cells: origin, width and height.
#[derive(Clone, Copy, Debug, PartialEq, Eq, Structural)]
pub struct MarkerRect {
    pub x: usize,
    pub y: usize,
    pub width: usize,
    pub height: usize,
}

/// Addition on screen coordinates, saturating at the machine limit.
pub open spec fn sat_add(a: nat, b: nat) -> nat {
    if a + b > usize::MAX {
        usize::MAX as nat
    } else {
        a + b
    }
}

/// The marker rectangle for an error spanning columns
/// `[start_col, end_col)` of an input field whose text origin is
/// `(origin_x, origin_y)`: directly below the text row, one row high,
/// at least one column wide.
pub open spec fn marker_spec(
    origin_x: nat,
    origin_y: nat,
    start_col: nat,
    end_col: nat,
) -> MarkerRect {
    MarkerRect {
        x: sat_add(origin_x, start_col) as usize,
        y: sat_add(origin_y, 1) as usize,
        width: if end_col > start_col {
            (end_col - start_col) as usize
        } else {
            1
        },
        height: 1,
    }
}

/// Saturating addition on `usize`.
pub fn sat_add_usize(a: usize, b: usize) -> (r: usize)
    ensures
        r == sat_add(a as nat, b as nat),
{
    if a <= usize::MAX - b {
        a + b
    } else {
        usize::MAX
    }
}

/// Compute the marker rectangle for an error span, given the input field's
/// text origin. The horizontal extent is `[origin_x + start_col,
/// origin_x + end_col)` clamped to a minimum width of one column; the
/// vertical extent is the single row directly below the text row.
pub fn locate_marker(origin_x: usize, origin_y: usize, start_col: usize, end_col: usize) -> (r:
    MarkerRect)
    ensures
        r == marker_spec(origin_x as nat, origin_y as nat, start_col as nat, end_col as nat),
{
    MarkerRect {
        x: sat_add_usize(origin_x, start_col),
        y: sat_add_usize(origin_y, 1),
        width: if end_col > start_col {
            end_col - start_col
        } else {
            1
        },
        height: 1,
    }
}

} // verus!
