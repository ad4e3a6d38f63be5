use vstd::prelude::*;

verus! {

/// A source location range attached to a parse error: lines are
/// 1-indexed, columns are 0-indexed character offsets within their
/// line. `end_col` is exclusive.
#[derive(Clone, Copy, Debug, PartialEq, Eq, Structural)]
pub struct Span {
    pub start_line: usize,
    pub start_col: usize,
    pub end_line: usize,
    pub end_col: usize,
}

impl Span {
    pub fn new(start_line: usize, start_col: usize, end_line: usize, end_col: usize) -> (r: Span)
        ensures
            r == (Span { start_line, start_col, end_line, end_col }),
    {
        Span { start_line, start_col, end_line, end_col }
    }
}

/// Subtraction clamped at zero, used throughout the diagnostic
/// layout arithmetic.
pub open spec fn sat_sub(a: int, b: int) -> int {
    if a >= b {
        a - b
    } else {
        0
    }
}

} // verus!
