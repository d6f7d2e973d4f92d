//! The arithmetic of the shapes: where the points of a line and of a
//! rectangle lie.

use vstd::arithmetic::div_mod::{
    lemma_fundamental_div_mod,
    lemma_fundamental_div_mod_converse_div,
    lemma_fundamental_div_mod_converse_mod,
    lemma_mod_bound,
};
use vstd::prelude::*;

verus! {

/// The distance between two numbers.
pub open spec fn distance(from: int, to: int) -> int {
    if from <= to {
        to - from
    } else {
        from - to
    }
}

/// The step that leads from a number towards another.
pub open spec fn direction(from: int, to: int) -> int {
    if from < to {
        1
    } else {
        -1
    }
}

/// The whole number nearest to `step * minor / major`; a half counts up.
pub open spec fn nearest(step: int, minor: int, major: int) -> int {
    (2 * step * minor + major) / (2 * major)
}

/// The nearest whole number lies within a half of the quotient.
pub proof fn lemma_nearest_bounds(step: int, minor: int, major: int)
    requires
        0 <= step,
        0 <= minor <= major,
        0 < major,
    ensures
        2 * (nearest(step, minor, major) * major) <= 2 * (step * minor) + major < 2 * (nearest(
            step,
            minor,
            major,
        ) * major) + 2 * major,
        0 <= nearest(step, minor, major),
{
    let numerator = 2 * step * minor + major;
    let quotient = nearest(step, minor, major);
    lemma_fundamental_div_mod(numerator, 2 * major);
    lemma_mod_bound(numerator, 2 * major);
    assert((2 * major) * quotient == 2 * (quotient * major)) by (nonlinear_arith);
    assert(2 * step * minor == 2 * (step * minor)) by (nonlinear_arith);
    assert(0 <= step * minor) by (nonlinear_arith)
        requires
            0 <= step,
            0 <= minor,
    ;
    if quotient < 0 {
        assert(quotient * major <= -major) by (nonlinear_arith)
            requires
                quotient <= -1,
                0 < major,
        ;
    }
}

/// A number that lies within a half of the quotient is the nearest.
pub proof fn lemma_nearest_unique(step: int, minor: int, major: int, quotient: int)
    requires
        0 < major,
        2 * (quotient * major) <= 2 * (step * minor) + major < 2 * (quotient * major) + 2 * major,
    ensures
        nearest(step, minor, major) == quotient,
{
    let numerator = 2 * step * minor + major;
    let rest = numerator - quotient * (2 * major);
    assert(quotient * (2 * major) == 2 * (quotient * major)) by (nonlinear_arith);
    assert(2 * step * minor == 2 * (step * minor)) by (nonlinear_arith);
    lemma_fundamental_div_mod_converse_div(numerator, 2 * major, quotient, rest);
}

/// From one step to the next the nearest whole number stays or grows by one,
/// and it grows exactly when the next quotient has reached the next half.
pub proof fn lemma_nearest_next(step: int, minor: int, major: int)
    requires
        0 <= step,
        0 <= minor <= major,
        0 < major,
    ensures
        nearest(step + 1, minor, major) == if 2 * (nearest(step, minor, major) * major) + major
            <= 2 * (step * minor) + 2 * minor {
            nearest(step, minor, major) + 1
        } else {
            nearest(step, minor, major)
        },
{
    let quotient = nearest(step, minor, major);
    lemma_nearest_bounds(step, minor, major);
    assert((step + 1) * minor == step * minor + minor) by (nonlinear_arith);
    assert((quotient + 1) * major == quotient * major + major) by (nonlinear_arith);
    if 2 * (quotient * major) + major <= 2 * (step * minor) + 2 * minor {
        lemma_nearest_unique(step + 1, minor, major, quotient + 1);
    } else {
        lemma_nearest_unique(step + 1, minor, major, quotient);
    }
}

/// Before the first step the nearest whole number is zero.
pub proof fn lemma_nearest_start(minor: int, major: int)
    requires
        0 <= minor <= major,
        0 < major,
    ensures
        nearest(0, minor, major) == 0,
{
    assert(0 * minor == 0) by (nonlinear_arith);
    assert(0 * major == 0) by (nonlinear_arith);
    lemma_nearest_unique(0, minor, major, 0);
}

/// After the last step the nearest whole number is the minor distance.
pub proof fn lemma_nearest_end(minor: int, major: int)
    requires
        0 <= minor <= major,
        0 < major,
    ensures
        nearest(major, minor, major) == minor,
{
    assert(major * minor == minor * major) by (nonlinear_arith);
    lemma_nearest_unique(major, minor, major, minor);
}

/// The nearest whole number never exceeds the step, nor the minor distance
/// within the major one.
pub proof fn lemma_nearest_range(step: int, minor: int, major: int)
    requires
        0 <= step <= major,
        0 <= minor <= major,
        0 < major,
    ensures
        0 <= nearest(step, minor, major) <= minor,
        nearest(step, minor, major) <= step,
{
    let quotient = nearest(step, minor, major);
    lemma_nearest_bounds(step, minor, major);
    if quotient > minor {
        assert(quotient * major >= minor * major + major) by (nonlinear_arith)
            requires
                quotient >= minor + 1,
                0 < major,
        ;
        assert(step * minor <= major * minor) by (nonlinear_arith)
            requires
                0 <= step <= major,
                0 <= minor,
        ;
        assert(major * minor == minor * major) by (nonlinear_arith);
    }
    if quotient > step {
        assert(quotient * major >= step * major + major) by (nonlinear_arith)
            requires
                quotient >= step + 1,
                0 < major,
        ;
        assert(step * minor <= step * major) by (nonlinear_arith)
            requires
                0 <= step,
                0 <= minor <= major,
        ;
    }
}

/// The number of points of a line: one more than the longer of its two
/// distances.
pub open spec fn line_len(start: (int, int), end: (int, int)) -> nat {
    let across = distance(start.0, end.0);
    let down = distance(start.1, end.1);
    if across >= down {
        (across + 1) as nat
    } else {
        (down + 1) as nat
    }
}

/// How far a line has moved along its first coordinate after a number of
/// steps.
pub open spec fn line_progress_first(start: (int, int), end: (int, int), step: int) -> int {
    let across = distance(start.0, end.0);
    let down = distance(start.1, end.1);
    if across >= down {
        step
    } else {
        nearest(step, across, down)
    }
}

/// How far a line has moved along its second coordinate after a number of
/// steps.
pub open spec fn line_progress_second(start: (int, int), end: (int, int), step: int) -> int {
    let across = distance(start.0, end.0);
    let down = distance(start.1, end.1);
    if across >= down {
        if across == 0 {
            0
        } else {
            nearest(step, down, across)
        }
    } else {
        step
    }
}

/// A number moved by an amount towards another.
pub open spec fn advance(from: int, to: int, amount: int) -> int {
    if from < to {
        from + amount
    } else {
        from - amount
    }
}

/// The point of a line after a number of steps. Each step moves by one along
/// the coordinate with the longer distance; along the other the point is the
/// nearest to the true line.
pub open spec fn line_point(start: (int, int), end: (int, int), step: int) -> (int, int) {
    (
        advance(start.0, end.0, line_progress_first(start, end, step)),
        advance(start.1, end.1, line_progress_second(start, end, step)),
    )
}

/// The error term that decides the next step of a line: how far the point
/// has run ahead along the second coordinate, less how far along the first.
pub open spec fn line_error(start: (int, int), end: (int, int), step: int) -> int {
    (line_progress_second(start, end, step) + 1) * distance(start.0, end.0) - (line_progress_first(
        start,
        end,
        step,
    ) + 1) * distance(start.1, end.1)
}

/// Along neither coordinate does a line move beyond its end.
pub proof fn lemma_line_progress_range(start: (int, int), end: (int, int), step: int)
    requires
        0 <= step < line_len(start, end),
    ensures
        0 <= line_progress_first(start, end, step) <= distance(start.0, end.0),
        0 <= line_progress_second(start, end, step) <= distance(start.1, end.1),
        line_progress_first(start, end, step) <= step,
        line_progress_second(start, end, step) <= step,
{
    let across = distance(start.0, end.0);
    let down = distance(start.1, end.1);
    if across >= down {
        if across > 0 {
            lemma_nearest_range(step, down, across);
        }
    } else {
        lemma_nearest_range(step, across, down);
    }
}

/// A line begins at its start and ends at its end, and reaches its end with
/// its last point only.
pub proof fn lemma_line_ends(start: (int, int), end: (int, int))
    ensures
        line_point(start, end, 0) == start,
        line_point(start, end, line_len(start, end) - 1) == end,
        forall|step: int|
            0 <= step < line_len(start, end) - 1 ==> #[trigger] line_point(start, end, step)
                != end,
{
    let across = distance(start.0, end.0);
    let down = distance(start.1, end.1);
    if across >= down {
        if across > 0 {
            lemma_nearest_start(down, across);
            lemma_nearest_end(down, across);
        }
    } else {
        lemma_nearest_start(across, down);
        lemma_nearest_end(across, down);
    }
}

/// What the error term decides. The line moves along its first coordinate
/// when twice the error is at least the second distance taken negative, and
/// along its second when twice the error is at most the first distance; the
/// error term follows by the distances.
pub proof fn lemma_line_step(start: (int, int), end: (int, int), step: int)
    requires
        0 <= step < line_len(start, end) - 1,
    ensures
        line_progress_first(start, end, step + 1) == line_progress_first(start, end, step) + (if 2
            * line_error(start, end, step) >= -distance(start.1, end.1) {
            1int
        } else {
            0int
        }),
        line_progress_second(start, end, step + 1) == line_progress_second(start, end, step) + (if 2
            * line_error(start, end, step) <= distance(start.0, end.0) {
            1int
        } else {
            0int
        }),
        line_error(start, end, step + 1) == line_error(start, end, step) + (if 2 * line_error(
            start,
            end,
            step,
        ) >= -distance(start.1, end.1) {
            -distance(start.1, end.1)
        } else {
            0int
        }) + (if 2 * line_error(start, end, step) <= distance(start.0, end.0) {
            distance(start.0, end.0)
        } else {
            0int
        }),
        -2 * line_len(start, end) <= line_error(start, end, step) <= 2 * line_len(start, end),
{
    let across = distance(start.0, end.0);
    let down = distance(start.1, end.1);
    if across >= down {
        let quotient = nearest(step, down, across);
        let next = nearest(step + 1, down, across);
        lemma_nearest_bounds(step, down, across);
        lemma_nearest_next(step, down, across);
        assert((quotient + 1) * across == quotient * across + across) by (nonlinear_arith);
        assert((next + 1) * across == next * across + across) by (nonlinear_arith);
        assert((step + 1) * down == step * down + down) by (nonlinear_arith);
        assert((step + 1 + 1) * down == step * down + down + down) by (nonlinear_arith);
        if next == quotient + 1 {
            assert(next * across == quotient * across + across) by (nonlinear_arith)
                requires
                    next == quotient + 1,
            ;
        }
    } else {
        let quotient = nearest(step, across, down);
        let next = nearest(step + 1, across, down);
        lemma_nearest_bounds(step, across, down);
        lemma_nearest_next(step, across, down);
        assert((quotient + 1) * down == quotient * down + down) by (nonlinear_arith);
        assert((next + 1) * down == next * down + down) by (nonlinear_arith);
        assert((step + 1) * across == step * across + across) by (nonlinear_arith);
        assert((step + 1 + 1) * across == step * across + across + across) by (nonlinear_arith);
        if next == quotient + 1 {
            assert(next * down == quotient * down + down) by (nonlinear_arith)
                requires
                    next == quotient + 1,
            ;
        }
    }
}

/// From one point of a line to the next, each coordinate stays or moves by
/// one towards the end, and at least one of them moves: the points are
/// neighbours, and none is left out.
pub proof fn lemma_line_connected(start: (int, int), end: (int, int), step: int)
    requires
        0 <= step < line_len(start, end) - 1,
    ensures
        line_point(start, end, step + 1).0 == line_point(start, end, step).0 || line_point(
            start,
            end,
            step + 1,
        ).0 == line_point(start, end, step).0 + direction(start.0, end.0),
        line_point(start, end, step + 1).1 == line_point(start, end, step).1 || line_point(
            start,
            end,
            step + 1,
        ).1 == line_point(start, end, step).1 + direction(start.1, end.1),
        line_point(start, end, step + 1) != line_point(start, end, step),
{
    lemma_line_step(start, end, step);
}

/// No point of a line comes twice.
pub proof fn lemma_line_distinct(start: (int, int), end: (int, int), first: int, second: int)
    requires
        0 <= first < second < line_len(start, end),
    ensures
        line_point(start, end, first) != line_point(start, end, second),
{
}

/// Every point of a line lies between its start and its end.
pub proof fn lemma_line_between(start: (int, int), end: (int, int), step: int)
    requires
        0 <= step < line_len(start, end),
    ensures
        distance(start.0, line_point(start, end, step).0) + distance(
            line_point(start, end, step).0,
            end.0,
        ) == distance(start.0, end.0),
        distance(start.1, line_point(start, end, step).1) + distance(
            line_point(start, end, step).1,
            end.1,
        ) == distance(start.1, end.1),
{
    lemma_line_progress_range(start, end, step);
}

/// The number of rows or columns between two bounds, both counted; none if
/// the second lies before the first.
pub open spec fn span(first: int, last: int) -> nat {
    if first <= last {
        (last - first + 1) as nat
    } else {
        0
    }
}

/// The place of a cell in a grid, row by row, gives its row and its column
/// back.
pub proof fn lemma_grid_place(row: int, col: int, cols: int)
    requires
        0 <= row,
        0 <= col < cols,
    ensures
        (row * cols + col) / cols == row,
        (row * cols + col) % cols == col,
        0 <= row * cols,
{
    lemma_fundamental_div_mod_converse_div(row * cols + col, cols, row, col);
    lemma_fundamental_div_mod_converse_mod(row * cols + col, cols, row, col);
    assert(0 <= row * cols) by (nonlinear_arith)
        requires
            0 <= row,
            0 <= cols,
    ;
}

/// A place in a grid lies in one of its rows and one of its columns.
pub proof fn lemma_grid_cell(place: int, rows: int, cols: int)
    requires
        0 <= place < rows * cols,
        0 < cols,
    ensures
        0 <= place / cols < rows,
        0 <= place % cols < cols,
        place == (place / cols) * cols + place % cols,
{
    lemma_fundamental_div_mod(place, cols);
    lemma_mod_bound(place, cols);
    let row = place / cols;
    assert(cols * row == row * cols) by (nonlinear_arith);
    if row >= rows {
        assert(row * cols >= rows * cols) by (nonlinear_arith)
            requires
                row >= rows,
                0 < cols,
        ;
    }
    if row < 0 {
        assert(row * cols <= -cols) by (nonlinear_arith)
            requires
                row <= -1,
                0 < cols,
        ;
    }
}

} // verus!
