//! The shapes that can be drawn: lines and filled rectangles.

use crate::geometry::{
    lemma_grid_cell, lemma_grid_place, lemma_line_ends, lemma_line_progress_range,
    lemma_line_step, line_error, line_len, line_point, span,
};
use vstd::prelude::*;

verus! {

/// A shape that can be drawn on a canvas.
pub trait Drawable {
    /// The coordinates that the shape covers, each a row and a column, in
    /// the order in which they are drawn.
    spec fn points(&self) -> Seq<(usize, usize)>;

    /// The coordinates that the shape covers.
    fn coordinates(&self) -> (coordinates: Vec<(usize, usize)>)
        ensures
            coordinates@ == self.points(),
    ;
}

/// A coordinate as the canvas counts it. A negative one lies as far below
/// the greatest as it lies below zero, and so on no canvas.
pub open spec fn wrapped(value: int) -> usize {
    if value >= 0 {
        value as usize
    } else {
        (usize::MAX + 1 + value) as usize
    }
}

/// A point as the canvas counts it.
pub open spec fn wrapped_point(point: (int, int)) -> (usize, usize) {
    (wrapped(point.0), wrapped(point.1))
}

/// Converts a coordinate to the canvas's count.
fn to_coordinate(value: isize) -> (coordinate: usize)
    ensures
        coordinate == wrapped(value as int),
{
    if value >= 0 {
        value as usize
    } else {
        usize::MAX - ((-(value + 1)) as usize)
    }
}

/// A straight line between two points, both of which belong to it.
#[derive(Debug, Clone, Copy, PartialEq, Eq)]
pub struct Line {
    start: (isize, isize),
    end: (isize, isize),
}

/// The mathematical value of a line.
pub struct LineView {
    pub start: (int, int),
    pub end: (int, int),
}

impl LineView {
    /// The number of points of the line.
    pub open spec fn len(self) -> nat {
        line_len(self.start, self.end)
    }

    /// The point of the line after a number of steps.
    pub open spec fn point(self, step: int) -> (int, int) {
        line_point(self.start, self.end, step)
    }

    /// The points of the line from its start to its end, as the canvas
    /// counts them.
    pub open spec fn points(self) -> Seq<(usize, usize)> {
        Seq::new(self.len(), |step: int| wrapped_point(self.point(step)))
    }
}

impl View for Line {
    type V = LineView;

    closed spec fn view(&self) -> LineView {
        LineView {
            start: (self.start.0 as int, self.start.1 as int),
            end: (self.end.0 as int, self.end.1 as int),
        }
    }
}

impl Line {
    /// The line from a point to another.
    pub fn new(start: (isize, isize), end: (isize, isize)) -> (line: Line)
        ensures
            line@.start == (start.0 as int, start.1 as int),
            line@.end == (end.0 as int, end.1 as int),
    {
        Line { start, end }
    }

    /// The points of the line from its start to its end, found by
    /// Bresenham's algorithm: one point for each step along the longer of
    /// the two distances.
    pub fn line_coordinates(&self) -> (coordinates: Vec<(usize, usize)>)
        ensures
            coordinates@ == self@.points(),
    {
        let mut result: Vec<(usize, usize)> = Vec::new();
        let (x0, y0) = self.start;
        let (x1, y1) = self.end;
        let mut x: isize = x0;
        let mut y: isize = y0;
        let dx: i128 = if x0 <= x1 {
            x1 as i128 - x0 as i128
        } else {
            x0 as i128 - x1 as i128
        };
        let dy: i128 = if y0 <= y1 {
            y0 as i128 - y1 as i128
        } else {
            y1 as i128 - y0 as i128
        };
        let mut err: i128 = dx + dy;
        let ghost start = self@.start;
        let ghost end = self@.end;
        let ghost mut step: int = 0;
        proof {
            lemma_line_ends(start, end);
            lemma_line_progress_range(start, end, 0);
            assert(line_error(start, end, 0) == dx + dy) by (nonlinear_arith)
                requires
                    line_error(start, end, 0) == (0 + 1) * (dx as int) - (0 + 1) * (-dy as int),
            ;
        }
        loop
            invariant_except_break
                result@ == self@.points().take(step),
            invariant
                start == self@.start,
                end == self@.end,
                start == (x0 as int, y0 as int),
                end == (x1 as int, y1 as int),
                dx == crate::geometry::distance(x0 as int, x1 as int),
                dy == -crate::geometry::distance(y0 as int, y1 as int),
                0 <= step < line_len(start, end),
                (x as int, y as int) == line_point(start, end, step),
                err == line_error(start, end, step),
            ensures
                result@ == self@.points(),
            decreases line_len(start, end) - step,
        {
            result.push((to_coordinate(x), to_coordinate(y)));
            proof {
                lemma_line_ends(start, end);
                assert(result@ =~= self@.points().take(step + 1));
            }
            if x == x1 && y == y1 {
                proof {
                    assert(step == line_len(start, end) - 1);
                    assert(self@.points().take(step + 1) =~= self@.points());
                }
                break ;
            }
            proof {
                lemma_line_step(start, end, step);
                lemma_line_progress_range(start, end, step);
                lemma_line_progress_range(start, end, step + 1);
            }
            let e2: i128 = 2 * err;
            if e2 >= dy {
                err = err + dy;
                if x0 < x1 {
                    x = x + 1;
                } else {
                    x = x - 1;
                }
            }
            if e2 <= dx {
                err = err + dx;
                if y0 < y1 {
                    y = y + 1;
                } else {
                    y = y - 1;
                }
            }
            proof {
                step = step + 1;
            }
        }
        result
    }
}

impl Drawable for Line {
    open spec fn points(&self) -> Seq<(usize, usize)> {
        self@.points()
    }

    fn coordinates(&self) -> (coordinates: Vec<(usize, usize)>) {
        self.line_coordinates()
    }
}

/// A filled rectangle between two corners, both of which belong to it.
#[derive(Debug, Clone, Copy, PartialEq, Eq)]
pub struct Rectangle {
    top_left: (usize, usize),
    bottom_right: (usize, usize),
}

/// The mathematical value of a rectangle.
pub struct RectangleView {
    pub top_left: (usize, usize),
    pub bottom_right: (usize, usize),
}

impl RectangleView {
    /// The number of rows of the rectangle.
    pub open spec fn rows(self) -> nat {
        span(self.top_left.0 as int, self.bottom_right.0 as int)
    }

    /// The number of columns of the rectangle.
    pub open spec fn cols(self) -> nat {
        span(self.top_left.1 as int, self.bottom_right.1 as int)
    }

    /// The coordinate at a place of the rectangle, row by row.
    pub open spec fn point(self, place: int) -> (usize, usize) {
        (
            (self.top_left.0 + place / (self.cols() as int)) as usize,
            (self.top_left.1 + place % (self.cols() as int)) as usize,
        )
    }

    /// Every coordinate between the corners, row by row.
    pub open spec fn points(self) -> Seq<(usize, usize)> {
        Seq::new(self.rows() * self.cols(), |place: int| self.point(place))
    }
}

impl RectangleView {
    /// A rectangle whose corners are in order covers as many coordinates as
    /// its rows times its columns.
    pub proof fn lemma_points_count(self)
        requires
            self.top_left.0 <= self.bottom_right.0,
            self.top_left.1 <= self.bottom_right.1,
        ensures
            self.points().len() == (self.bottom_right.0 - self.top_left.0 + 1) * (
            self.bottom_right.1 - self.top_left.1 + 1),
    {
    }

    /// The coordinate at a place of a rectangle lies in the row and the
    /// column that the place has in it.
    pub proof fn lemma_point_at(self, place: int)
        requires
            0 <= place < self.points().len(),
        ensures
            self.points()[place].0 == self.top_left.0 + place / (self.cols() as int),
            self.points()[place].1 == self.top_left.1 + place % (self.cols() as int),
            self.top_left.0 <= self.points()[place].0 <= self.bottom_right.0,
            self.top_left.1 <= self.points()[place].1 <= self.bottom_right.1,
    {
        let rows = self.rows() as int;
        let cols = self.cols() as int;
        if cols == 0 {
            assert(rows * cols == 0) by (nonlinear_arith)
                requires
                    cols == 0,
            ;
        }
        lemma_grid_cell(place, rows, cols);
    }

    /// No coordinate of a rectangle comes twice.
    pub proof fn lemma_points_distinct(self, first: int, second: int)
        requires
            0 <= first < second < self.points().len(),
        ensures
            self.points()[first] != self.points()[second],
    {
        let rows = self.rows() as int;
        let cols = self.cols() as int;
        self.lemma_point_at(first);
        self.lemma_point_at(second);
        if cols == 0 {
            assert(rows * cols == 0) by (nonlinear_arith)
                requires
                    cols == 0,
            ;
        }
        lemma_grid_cell(first, rows, cols);
        lemma_grid_cell(second, rows, cols);
    }

    /// A rectangle covers exactly the coordinates between its corners.
    pub proof fn lemma_points_cover(self, row: usize, col: usize)
        ensures
            self.points().contains((row, col)) <==> self.top_left.0 <= row <= self.bottom_right.0
                && self.top_left.1 <= col <= self.bottom_right.1,
    {
        let rows = self.rows() as int;
        let cols = self.cols() as int;
        if self.points().contains((row, col)) {
            let place = choose|place: int|
                0 <= place < self.points().len() && self.points()[place] == (row, col);
            self.lemma_point_at(place);
        }
        if self.top_left.0 <= row <= self.bottom_right.0 && self.top_left.1 <= col
            <= self.bottom_right.1 {
            let place = (row - self.top_left.0) * cols + (col - self.top_left.1);
            lemma_grid_place(row - self.top_left.0, col - self.top_left.1, cols);
            assert((row - self.top_left.0) * cols + cols <= rows * cols) by (nonlinear_arith)
                requires
                    0 <= row - self.top_left.0 < rows,
                    0 <= cols,
            ;
            assert(self.points()[place] == (row, col));
        }
    }
}

impl View for Rectangle {
    type V = RectangleView;

    closed spec fn view(&self) -> RectangleView {
        RectangleView { top_left: self.top_left, bottom_right: self.bottom_right }
    }
}

impl Rectangle {
    /// The rectangle between a top left and a bottom right corner, each a
    /// row and a column.
    pub fn new(top_left: (usize, usize), bottom_right: (usize, usize)) -> (rectangle: Rectangle)
        ensures
            rectangle@.top_left == top_left,
            rectangle@.bottom_right == bottom_right,
    {
        Rectangle { top_left, bottom_right }
    }

    /// Every coordinate between the corners, row by row. There is none if
    /// the bottom right corner lies above or left of the top left one.
    pub fn rectangle_coordinates(&self) -> (coordinates: Vec<(usize, usize)>)
        ensures
            coordinates@ == self@.points(),
    {
        let mut result: Vec<(usize, usize)> = Vec::new();
        let (top, left) = self.top_left;
        let (bottom, right) = self.bottom_right;
        let ghost rows = self@.rows() as int;
        let ghost cols = self@.cols() as int;
        if top > bottom || left > right {
            proof {
                assert(rows * cols == 0) by (nonlinear_arith)
                    requires
                        rows == 0 || cols == 0,
                ;
                assert(result@ =~= self@.points());
            }
            return result;
        }
        let mut row: usize = top;
        loop
            invariant_except_break
                result@ == self@.points().take((row - top) * cols),
            invariant
                (top, left) == self@.top_left,
                (bottom, right) == self@.bottom_right,
                rows == bottom - top + 1,
                cols == right - left + 1,
                rows == self@.rows(),
                cols == self@.cols(),
                top <= row <= bottom,
                left <= right,
            ensures
                result@ == self@.points(),
            decreases bottom - row,
        {
            let mut col: usize = left;
            proof {
                assert((row - top) * cols + cols <= rows * cols) by (nonlinear_arith)
                    requires
                        0 <= row - top < rows,
                        0 <= cols,
                ;
                assert(0 <= (row - top) * cols) by (nonlinear_arith)
                    requires
                        0 <= row - top,
                        0 <= cols,
                ;
            }
            loop
                invariant_except_break
                    result@ == self@.points().take((row - top) * cols + (col - left)),
                invariant
                    (top, left) == self@.top_left,
                    (bottom, right) == self@.bottom_right,
                    rows == bottom - top + 1,
                    cols == right - left + 1,
                    rows == self@.rows(),
                    cols == self@.cols(),
                    top <= row <= bottom,
                    left <= col <= right,
                    0 <= (row - top) * cols,
                    (row - top) * cols + cols <= rows * cols,
                ensures
                    result@ == self@.points().take((row - top) * cols + cols),
                decreases right - col,
            {
                result.push((row, col));
                proof {
                    lemma_grid_place(row - top, col - left, cols);
                    assert(result@ =~= self@.points().take((row - top) * cols + (col - left) + 1));
                }
                if col == right {
                    break ;
                }
                col = col + 1;
            }
            if row == bottom {
                proof {
                    assert((row - top) * cols + cols == rows * cols) by (nonlinear_arith)
                        requires
                            row - top + 1 == rows,
                    ;
                    assert(self@.points().take(rows * cols) =~= self@.points());
                }
                break ;
            }
            proof {
                assert((row + 1 - top) * cols == (row - top) * cols + cols) by (nonlinear_arith);
            }
            row = row + 1;
        }
        result
    }
}

impl Drawable for Rectangle {
    open spec fn points(&self) -> Seq<(usize, usize)> {
        self@.points()
    }

    fn coordinates(&self) -> (coordinates: Vec<(usize, usize)>) {
        self.rectangle_coordinates()
    }
}

} // verus!
