//! The framebuffer: a grid of pixels, the drawing on it, and its packing
//! into the memory layout of the controller.

use crate::geometry::{lemma_grid_cell, lemma_grid_place};
use crate::shape::Drawable;
use vstd::prelude::*;

verus! {

/// Drawing colors of a pixel.
#[derive(Debug, Clone, Copy, PartialEq, Eq, Structural)]
pub enum Color {
    Red,
    Yellow,
    Black,
    White,
}


impl Color {
    /// The bit that stands for the color in the packed buffer: clear for
    /// black, set for every other color.
    pub open spec fn bit(self) -> int {
        if self == Color::Black {
            0
        } else {
            1
        }
    }

    /// Converts the color to its bit for packing.
    pub fn as_u8(&self) -> (bit: u8)
        ensures
            bit == self.bit(),
    {
        match self {
            Color::Black => 0,
            _ => 1,
        }
    }

    /// The color that a packed bit stands for: black for zero, else white.
    pub fn from_u8(value: u8) -> (color: Color)
        ensures
            color == if value == 0 {
                Color::Black
            } else {
                Color::White
            },
    {
        if value == 0 {
            Color::Black
        } else {
            Color::White
        }
    }

    /// The color that a word of a buffer stands for: black for zero, else
    /// white.
    pub fn from_u32(value: u32) -> (color: Color)
        ensures
            color == if value == 0 {
                Color::Black
            } else {
                Color::White
            },
    {
        if value == 0 {
            Color::Black
        } else {
            Color::White
        }
    }

    /// The character that shows the color in a text dump of a canvas.
    pub open spec fn symbol(self) -> char {
        match self {
            Color::Red => 'R',
            Color::Yellow => 'Y',
            Color::Black => 'B',
            Color::White => '.',
        }
    }

    /// The color as text: one character, `R`, `Y`, `B` or `.`.
    pub fn to_string(&self) -> (text: String)
        ensures
            text@ == seq![self.symbol()],
    {
        proof {
            reveal_strlit("R");
            reveal_strlit("Y");
            reveal_strlit("B");
            reveal_strlit(".");
        }
        let text = match self {
            Color::Red => String::from_str("R"),
            Color::Yellow => String::from_str("Y"),
            Color::Black => String::from_str("B"),
            Color::White => String::from_str("."),
        };
        assert(text@ =~= seq![self.symbol()]);
        text
    }
}

impl From<u8> for Color {
    /// The color that a packed bit stands for: black for zero, else white.
    fn from(value: u8) -> (color: Color) {
        Color::from_u8(value)
    }
}

impl vstd::std_specs::convert::FromSpecImpl<u8> for Color {
    open spec fn obeys_from_spec() -> bool {
        true
    }

    open spec fn from_spec(value: u8) -> Color {
        if value == 0 {
            Color::Black
        } else {
            Color::White
        }
    }
}

impl From<u32> for Color {
    /// The color that a word of a buffer stands for: black for zero, else
    /// white.
    fn from(value: u32) -> (color: Color) {
        Color::from_u32(value)
    }
}

impl vstd::std_specs::convert::FromSpecImpl<u32> for Color {
    open spec fn obeys_from_spec() -> bool {
        true
    }

    open spec fn from_spec(value: u32) -> Color {
        if value == 0 {
            Color::Black
        } else {
            Color::White
        }
    }
}

/// The mathematical value of a canvas: its size and its pixels, row by row.
pub struct CanvasView {
    pub width: nat,
    pub height: nat,
    pub cells: Seq<Color>,
}

impl CanvasView {
    /// Every row is present in full.
    pub open spec fn wf(self) -> bool {
        self.cells.len() == self.height * self.width
    }

    /// Whether a coordinate lies on the canvas.
    pub open spec fn contains(self, row: int, col: int) -> bool {
        0 <= row < self.height && 0 <= col < self.width
    }

    /// The color of the pixel in a row and a column.
    pub open spec fn pixel(self, row: int, col: int) -> Color {
        self.cells[row * self.width + col]
    }

    /// The bit of the pixel at a place in row-major order; past the last
    /// pixel it is zero.
    pub open spec fn bit(self, place: int) -> int {
        if 0 <= place < self.cells.len() {
            self.cells[place].bit()
        } else {
            0
        }
    }

    /// The byte at an index of the packed buffer: eight pixels in row-major
    /// order, the first of them in the lowest bit.
    pub open spec fn packed_byte(self, index: int) -> int {
        self.bit(8 * index) + 2 * self.bit(8 * index + 1) + 4 * self.bit(8 * index + 2) + 8
            * self.bit(8 * index + 3) + 16 * self.bit(8 * index + 4) + 32 * self.bit(8 * index + 5)
            + 64 * self.bit(8 * index + 6) + 128 * self.bit(8 * index + 7)
    }

    /// The number of bytes of the packed buffer.
    pub open spec fn packed_len(self) -> nat {
        ((self.cells.len() + 7) / 8) as nat
    }

    /// The packed buffer.
    pub open spec fn packed(self) -> Seq<u8> {
        Seq::new(self.packed_len(), |index: int| self.packed_byte(index) as u8)
    }

    /// Whether every one of some coordinates lies on the canvas.
    pub open spec fn contains_all(self, points: Seq<(usize, usize)>) -> bool {
        forall|index: int|
            0 <= index < points.len() ==> self.contains(
                (#[trigger] points[index]).0 as int,
                points[index].1 as int,
            )
    }

    /// The coordinate of a place in row-major order.
    pub open spec fn coordinate(self, place: int) -> (usize, usize) {
        ((place / (self.width as int)) as usize, (place % (self.width as int)) as usize)
    }

    /// The canvas with the pixels at some coordinates black and every other
    /// pixel as it is.
    pub open spec fn drawn(self, points: Seq<(usize, usize)>) -> CanvasView {
        CanvasView {
            width: self.width,
            height: self.height,
            cells: Seq::new(
                self.cells.len(),
                |place: int|
                    if points.contains(self.coordinate(place)) {
                        Color::Black
                    } else {
                        self.cells[place]
                    },
            ),
        }
    }
}

/// The value of a bit at a position of a byte.
pub open spec fn bit_weight(position: int) -> int {
    if position == 0 {
        1
    } else if position == 1 {
        2
    } else if position == 2 {
        4
    } else if position == 3 {
        8
    } else if position == 4 {
        16
    } else if position == 5 {
        32
    } else if position == 6 {
        64
    } else {
        128
    }
}

impl CanvasView {
    /// What the first bits of a packed byte add up to.
    pub open spec fn partial_byte(self, index: int, bits: nat) -> int
        decreases bits,
    {
        if bits == 0 {
            0
        } else {
            self.partial_byte(index, (bits - 1) as nat) + bit_weight(bits - 1) * self.bit(
                8 * index + bits - 1,
            )
        }
    }

    /// A packed byte is what its eight bits add up to.
    pub proof fn lemma_partial_byte_full(self, index: int)
        ensures
            self.partial_byte(index, 8) == self.packed_byte(index),
            0 <= self.packed_byte(index) <= 255,
    {
        reveal_with_fuel(CanvasView::partial_byte, 9);
    }

    /// Bits past the last pixel add nothing to a packed byte.
    pub proof fn lemma_partial_byte_padding(self, index: int, bits: nat)
        requires
            bits <= 8,
            8 * index + bits >= self.cells.len(),
        ensures
            self.partial_byte(index, bits) == self.packed_byte(index),
    {
        reveal_with_fuel(CanvasView::partial_byte, 9);
    }
    /// The packed buffer has a byte for every eight pixels and one for those
    /// that are left over, and in that last byte the bits that stand for no
    /// pixel are clear.
    pub proof fn lemma_packed_shape(self)
        ensures
            8 * (self.packed().len() - 1) < self.cells.len() <= 8 * self.packed().len()
                || self.cells.len() == 0 && self.packed().len() == 0,
            self.cells.len() % 8 != 0 ==> self.packed_byte(self.packed().len() - 1) < bit_weight(
                (self.cells.len() % 8) as int,
            ),
    {
    }

    /// The bit of a pixel is the bit of its byte at the pixel's position: a
    /// packed byte holds its eight pixels apart.
    pub proof fn lemma_packed_bit(self, place: int)
        requires
            0 <= place < self.cells.len(),
        ensures
            (self.packed_byte(place / 8) / bit_weight(place % 8)) % 2 == self.cells[place].bit(),
    {
        let index = place / 8;
        let position = place % 8;
        assert(0 <= self.bit(8 * index) <= 1);
        assert(0 <= self.bit(8 * index + 1) <= 1);
        assert(0 <= self.bit(8 * index + 2) <= 1);
        assert(0 <= self.bit(8 * index + 3) <= 1);
        assert(0 <= self.bit(8 * index + 4) <= 1);
        assert(0 <= self.bit(8 * index + 5) <= 1);
        assert(0 <= self.bit(8 * index + 6) <= 1);
        assert(0 <= self.bit(8 * index + 7) <= 1);
    }
}

/// Setting a clear bit of a byte adds the bit's weight to it.
proof fn lemma_set_bit(byte: u8, bit: u8, position: u8)
    requires
        position < 8,
        bit <= 1,
        byte < bit_weight(position as int),
    ensures
        (byte | (bit << position)) == byte + bit_weight(position as int) * bit,
        position < 7 ==> (byte | (bit << position)) < bit_weight(position + 1),
{
    assert(position < 8 && bit <= 1 && byte < (1u8 << position) ==> (byte | (bit << position))
        == byte + bit * (1u8 << position) && (bit == 0 || bit == 1)) by (bit_vector);
    assert(position < 8 ==> (1u8 << position) == (if position == 0 {
        1u8
    } else if position == 1 {
        2u8
    } else if position == 2 {
        4u8
    } else if position == 3 {
        8u8
    } else if position == 4 {
        16u8
    } else if position == 5 {
        32u8
    } else if position == 6 {
        64u8
    } else {
        128u8
    })) by (bit_vector);
}

/// The framebuffer: a grid of pixels of a fixed size.
#[derive(Debug, Clone, PartialEq, Eq)]
pub struct Canvas {
    width: usize,
    height: usize,
    pixels: Vec<Color>,
}

impl View for Canvas {
    type V = CanvasView;

    closed spec fn view(&self) -> CanvasView {
        CanvasView { width: self.width as nat, height: self.height as nat, cells: self.pixels@ }
    }
}

/// The place of a pixel in row-major order lies within the grid.
proof fn lemma_place_in_grid(row: int, col: int, width: int, height: int)
    requires
        0 <= row < height,
        0 <= col < width,
    ensures
        0 <= row * width <= row * width + col < height * width,
{
    assert(row * width + width <= height * width) by (nonlinear_arith)
        requires
            0 <= row < height,
            0 <= width,
    ;
    assert(0 <= row * width) by (nonlinear_arith)
        requires
            0 <= row,
            0 <= width,
    ;
}

impl Canvas {
    /// A canvas of a width and a height, every pixel white.
    pub fn new(width: usize, height: usize) -> (canvas: Canvas)
        requires
            height * width <= usize::MAX,
        ensures
            canvas@.wf(),
            canvas@.width == width,
            canvas@.height == height,
            forall|place: int| 0 <= place < canvas@.cells.len() ==> canvas@.cells[place] == Color::White,
    {
        let count: usize = height * width;
        Canvas { width, height, pixels: vec![Color::White; count] }
    }

    /// The color of a pixel. The pixel has to lie on the canvas: a caller
    /// that cannot show that it does asks `contains` first.
    pub fn get_pixel(&self, row: usize, col: usize) -> (color: Color)
        requires
            self@.wf(),
            self@.contains(row as int, col as int),
        ensures
            color == self@.pixel(row as int, col as int),
    {
        let count: usize = self.pixels.len();
        proof {
            lemma_place_in_grid(row as int, col as int, self.width as int, self.height as int);
        }
        self.pixels[row * self.width + col]
    }

    /// Sets the color of a pixel. The pixel has to lie on the canvas: a
    /// caller that cannot show that it does asks `contains` first.
    pub fn set_pixel(&mut self, row: usize, col: usize, color: Color)
        requires
            old(self)@.wf(),
            old(self)@.contains(row as int, col as int),
        ensures
            final(self)@.wf(),
            final(self)@.width == old(self)@.width,
            final(self)@.height == old(self)@.height,
            final(self)@.cells == old(self)@.cells.update(row * old(self)@.width + col, color),
    {
        let count: usize = self.pixels.len();
        proof {
            lemma_place_in_grid(row as int, col as int, self.width as int, self.height as int);
        }
        let place: usize = row * self.width + col;
        self.pixels.set(place, color);
    }

    /// Whether a coordinate lies on the canvas.
    pub fn contains(&self, row: usize, col: usize) -> (inside: bool)
        ensures
            inside == self@.contains(row as int, col as int),
    {
        row < self.height && col < self.width
    }

    /// Whether a shape lies on the canvas with every one of its coordinates,
    /// so that it can be drawn.
    pub fn holds<D: Drawable>(&self, drawable: &D) -> (inside: bool)
        ensures
            inside == self@.contains_all(drawable.points()),
    {
        let coordinates = drawable.coordinates();
        let mut index: usize = 0;
        while index < coordinates.len()
            invariant
                coordinates@ == drawable.points(),
                index <= coordinates@.len(),
                self@.contains_all(coordinates@.take(index as int)),
            decreases coordinates@.len() - index,
        {
            let (row, col) = coordinates[index];
            if !self.contains(row, col) {
                return false;
            }
            assert forall|place: int| 0 <= place < index + 1 implies self@.contains(
                (#[trigger] coordinates@.take(index + 1)[place]).0 as int,
                coordinates@.take(index + 1)[place].1 as int,
            ) by {
                if place < index {
                    assert(coordinates@.take(index as int)[place] == coordinates@[place]);
                }
            }
            index = index + 1;
        }
        assert(coordinates@.take(coordinates@.len() as int) =~= coordinates@);
        true
    }

    /// Draws a shape: sets the pixel at each of its coordinates to black.
    /// The shape has to lie on the canvas: a caller that cannot show that it
    /// does asks `holds` first.
    pub fn draw<D: Drawable>(&mut self, drawable: D)
        requires
            old(self)@.wf(),
            old(self)@.contains_all(drawable.points()),
        ensures
            final(self)@.wf(),
            final(self)@ == old(self)@.drawn(drawable.points()),
    {
        let coordinates = drawable.coordinates();
        let ghost points = drawable.points();
        let ghost before = self@;
        let mut index: usize = 0;
        assert(self@.cells =~= before.drawn(points.take(0)).cells);
        while index < coordinates.len()
            invariant
                coordinates@ == points,
                before.wf(),
                before.contains_all(points),
                index <= points.len(),
                self@.wf(),
                self@ == before.drawn(points.take(index as int)),
            decreases points.len() - index,
        {
            let (row, col) = coordinates[index];
            assert(before.contains(points[index as int].0 as int, points[index as int].1 as int));
            self.set_pixel(row, col, Color::Black);
            proof {
                let shorter = points.take(index as int);
                let longer = points.take(index + 1);
                let width = before.width as int;
                lemma_grid_place(row as int, col as int, width);
                lemma_place_in_grid(row as int, col as int, width, before.height as int);
                assert(longer[index as int] == (row, col));
                assert forall|place: int| 0 <= place < before.cells.len() implies self@.cells[place]
                    == before.drawn(longer).cells[place] by {
                    lemma_grid_cell(place, before.height as int, width);
                    if place == row * width + col {
                        assert(before.coordinate(place) == longer[index as int]);
                    } else {
                        if shorter.contains(before.coordinate(place)) {
                            let found = choose|found: int|
                                0 <= found < shorter.len() && shorter[found] == before.coordinate(
                                    place,
                                );
                            assert(longer[found] == before.coordinate(place));
                        }
                        if longer.contains(before.coordinate(place)) {
                            let found = choose|found: int|
                                0 <= found < longer.len() && longer[found] == before.coordinate(
                                    place,
                                );
                            assert(found != index);
                            assert(shorter[found] == before.coordinate(place));
                        }
                    }
                }
                assert(self@.cells =~= before.drawn(longer).cells);
            }
            index = index + 1;
        }
        assert(points.take(points.len() as int) =~= points);
    }

    /// The height of the canvas.
    pub fn height(&self) -> (height: usize)
        ensures
            height == self@.height,
    {
        self.height
    }

    /// The width of the canvas.
    pub fn width(&self) -> (width: usize)
        ensures
            width == self@.width,
    {
        self.width
    }
    /// Packs the canvas into the controller's memory layout: one bit for
    /// each pixel in row-major order, the first pixel of each byte in its
    /// lowest bit, a clear bit for black and a set bit for any other color.
    /// The bits of the last byte that stand for no pixel are clear.
    pub fn pack(&self) -> (packed: Vec<u8>)
        ensures
            packed@ == self@.packed(),
    {
        let mut packed: Vec<u8> = Vec::new();
        let mut bit_pos: u8 = 0;
        let mut cur_byte: u8 = 0;
        let count: usize = self.pixels.len();
        let mut place: usize = 0;
        while place < count
            invariant
                count == self.pixels@.len(),
                place <= count,
                bit_pos < 8,
                place == 8 * packed@.len() + bit_pos,
                cur_byte == self@.partial_byte(packed@.len() as int, bit_pos as nat),
                cur_byte < bit_weight(bit_pos as int),
                forall|index: int|
                    0 <= index < packed@.len() ==> packed@[index] == self@.packed_byte(index),
            decreases count - place,
        {
            let bit: u8 = self.pixels[place].as_u8();
            proof {
                lemma_set_bit(cur_byte, bit, bit_pos);
                reveal_with_fuel(CanvasView::partial_byte, 2);
            }
            cur_byte = cur_byte | (bit << bit_pos);
            bit_pos = bit_pos + 1;
            if bit_pos == 8 {
                proof {
                    self@.lemma_partial_byte_full(packed@.len() as int);
                }
                packed.push(cur_byte);
                cur_byte = 0;
                bit_pos = 0;
            }
            place = place + 1;
        }
        if bit_pos != 0 {
            proof {
                self@.lemma_partial_byte_padding(packed@.len() as int, bit_pos as nat);
            }
            packed.push(cur_byte);
        }
        proof {
            assert forall|index: int| 0 <= index < packed@.len() implies packed@[index]
                == self@.packed_byte(index) as u8 by {
                self@.lemma_partial_byte_full(index);
            }
            assert(packed@ =~= self@.packed());
        }
        packed
    }
}

} // verus!
