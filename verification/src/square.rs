//! The extended data square: raw shares in row-major order.

use vstd::prelude::*;

verus! {

/// A square of raw shares as it arrives: the shares row by row, and the
/// number of shares in a row. Nothing is checked on construction; a value
/// may hold a share count that does not match its width.
#[derive(Debug, PartialEq, Eq)]
pub struct ExtendedDataSquare {
    pub data_square: Vec<Vec<u8>>,
    pub square_width: u16,
}

impl ExtendedDataSquare {
    /// Position of the share at `(row, column)` in row-major order.
    pub open spec fn position(&self, row: int, column: int) -> int {
        row * self.square_width + column
    }

    /// The raw share at `(row, column)`.
    pub open spec fn raw_share(&self, row: int, column: int) -> Seq<u8>
        recommends
            0 <= self.position(row, column) < self.data_square@.len(),
    {
        self.data_square@[self.position(row, column)]@
    }

    /// Whether the square holds exactly one share for every coordinate.
    pub open spec fn is_square(&self) -> bool {
        self.data_square@.len() == self.square_width * self.square_width
    }

    /// Wraps shares given in row-major order.
    pub fn new(data_square: Vec<Vec<u8>>, square_width: u16) -> (eds: ExtendedDataSquare)
        ensures
            eds.data_square == data_square,
            eds.square_width == square_width,
    {
        ExtendedDataSquare { data_square, square_width }
    }

    /// Number of shares in a row.
    pub fn square_width(&self) -> (width: u16)
        ensures
            width == self.square_width,
    {
        self.square_width
    }

    /// The raw share at `(row, column)`, or `None` when the square holds no
    /// share at that position.
    pub fn share(&self, row: u16, column: u16) -> (raw: Option<&[u8]>)
        ensures
            raw is Some <==> self.position(row as int, column as int) < self.data_square@.len(),
            raw matches Some(bytes) ==> bytes@ == self.raw_share(row as int, column as int),
    {
        assert(0 <= row * self.square_width + column <= 65535 * 65535 + 65535)
            by (nonlinear_arith)
            requires
                0 <= row <= 65535,
                0 <= self.square_width <= 65535,
                0 <= column <= 65535,
        ;
        let index: u64 = row as u64 * self.square_width as u64 + column as u64;
        if index < self.data_square.len() as u64 {
            Some(self.data_square[index as usize].as_slice())
        } else {
            None
        }
    }
}

/// In a square of width `width`, every coordinate lies before the end of the
/// row-major order.
pub proof fn lemma_position_in_square(width: int, row: int, column: int)
    requires
        0 <= row < width,
        0 <= column < width,
    ensures
        0 <= row * width + column < width * width,
{
    assert(row * width + column < width * width) by (nonlinear_arith)
        requires
            0 <= row <= width - 1,
            0 <= column < width,
    ;
    assert(0 <= row * width) by (nonlinear_arith)
        requires
            0 <= row,
            0 <= width,
    ;
}

} // verus!
