//! The original data square: the top-left quadrant of an extended data
//! square, every share decoded and classified.

use vstd::prelude::*;
use crate::cell::{classification, CellView, ODSCell};
use crate::share::{is_well_formed_share, namespace_id_of, Share};
use crate::square::{lemma_position_in_square, ExtendedDataSquare};

verus! {

/// Why no original data square can be taken from an extended one.
#[derive(Clone, Copy, Debug, PartialEq, Eq, Structural)]
pub enum DecodeError {
    /// The square has width zero.
    EmptySquare,
    /// The width is odd, so the square has no quadrants.
    OddWidth { width: u16 },
    /// The number of shares is not the width squared.
    NotSquare { width: u16, shares: usize },
    /// The share at this coordinate of the top-left quadrant does not decode.
    InvalidShare { row: u16, column: u16 },
}

/// What an original data square holds: the block height and the cells row
/// by row.
pub struct OdsView {
    pub height: u64,
    pub cells: Seq<Seq<CellView>>,
}

/// The classified top-left quadrant of an extended data square, with the
/// height of the block it belongs to.
#[derive(Debug, PartialEq, Eq)]
pub struct ODS {
    pub height: u64,
    pub cells: Vec<Vec<ODSCell>>,
}

impl View for ODS {
    type V = OdsView;

    open spec fn view(&self) -> OdsView {
        OdsView {
            height: self.height,
            cells: Seq::new(
                self.cells@.len(),
                |i: int| Seq::new(self.cells@[i]@.len(), |j: int| self.cells@[i]@[j]@),
            ),
        }
    }
}

impl ExtendedDataSquare {
    /// Width of the top-left quadrant.
    pub open spec fn ods_width(&self) -> int {
        self.square_width as int / 2
    }

    /// What is wrong with the shape of the square, if anything.
    pub open spec fn shape_error(&self) -> Option<DecodeError> {
        if self.square_width == 0 {
            Some(DecodeError::EmptySquare)
        } else if self.square_width % 2 != 0 {
            Some(DecodeError::OddWidth { width: self.square_width })
        } else if !self.is_square() {
            Some(
                DecodeError::NotSquare {
                    width: self.square_width,
                    shares: self.data_square@.len() as usize,
                },
            )
        } else {
            None
        }
    }

    /// Whether the share at `(row, column)` decodes.
    pub open spec fn decodes_at(&self, row: int, column: int) -> bool {
        is_well_formed_share(self.raw_share(row, column))
    }

    /// Whether every share of the top-left quadrant that comes before
    /// `(row, column)` in row-major order decodes.
    pub open spec fn decodes_before(&self, row: int, column: int) -> bool {
        forall|i: int, j: int|
            0 <= i < self.ods_width() && 0 <= j < self.ods_width() && (i < row || (i == row && j
                < column)) ==> #[trigger] self.decodes_at(i, j)
    }

    /// The cell that the share at `(row, column)` is shown as.
    pub open spec fn original_cell(&self, row: int, column: int) -> CellView {
        classification(namespace_id_of(self.raw_share(row, column)))
    }

    /// The original data square of this square: the cells of the top-left
    /// quadrant, at the coordinates of their shares.
    pub open spec fn original_square(&self, height: u64) -> OdsView {
        OdsView {
            height,
            cells: Seq::new(
                self.ods_width() as nat,
                |i: int| Seq::new(self.ods_width() as nat, |j: int| self.original_cell(i, j)),
            ),
        }
    }

    /// Whether an original data square can be taken: the shape is right and
    /// every share of the top-left quadrant decodes.
    pub open spec fn decodes(&self) -> bool {
        &&& self.shape_error() is None
        &&& self.decodes_before(self.ods_width(), 0)
    }

    /// Whether the square is refused with this error: for a wrong shape, the
    /// error of the shape; for a right shape, the coordinate of the first
    /// share of the top-left quadrant, in row-major order, that does not
    /// decode.
    pub open spec fn refused_with(&self, error: DecodeError) -> bool {
        match error {
            DecodeError::InvalidShare { row, column } => {
                &&& self.shape_error() is None
                &&& row < self.ods_width()
                &&& column < self.ods_width()
                &&& !self.decodes_at(row as int, column as int)
                &&& self.decodes_before(row as int, column as int)
            },
            _ => self.shape_error() == Some(error),
        }
    }
}

impl ODS {
    /// Takes the top-left quadrant out of an extended data square and
    /// classifies each of its shares, row by row. A square of width zero or
    /// of odd width, or one whose share count is not its width squared, is
    /// refused; so is one with a share in that quadrant that does not
    /// decode, under the coordinate of the first such share.
    pub fn from_eds(eds: ExtendedDataSquare, height: u64) -> (r: Result<ODS, DecodeError>)
        ensures
            r is Ok <==> eds.decodes(),
            match r {
                Ok(ods) => ods@ == eds.original_square(height),
                Err(error) => eds.refused_with(error),
            },
    {
        let width = eds.square_width();
        if width == 0 {
            return Err(DecodeError::EmptySquare);
        }
        if width % 2 != 0 {
            return Err(DecodeError::OddWidth { width });
        }
        let shares = eds.data_square.len();
        assert(width * width <= 65535 * 65535) by (nonlinear_arith)
            requires
                0 <= width <= 65535,
        ;
        if shares as u64 != width as u64 * width as u64 {
            return Err(DecodeError::NotSquare { width, shares });
        }
        let ods_width: u16 = width / 2;
        let mut cells: Vec<Vec<ODSCell>> = Vec::new();
        let mut i: u16 = 0;
        while i < ods_width
            invariant
                width == eds.square_width,
                eds.shape_error() is None,
                ods_width == eds.ods_width(),
                i <= ods_width,
                cells@.len() == i,
                eds.decodes_before(i as int, 0),
                forall|r: int| 0 <= r < i ==> (#[trigger] cells@[r])@.len() == ods_width,
                forall|r: int, c: int|
                    0 <= r < i && 0 <= c < ods_width ==> (#[trigger] cells@[r]@[c])@
                        == eds.original_cell(r, c),
            decreases ods_width - i,
        {
            let mut row: Vec<ODSCell> = Vec::new();
            let mut j: u16 = 0;
            while j < ods_width
                invariant
                    width == eds.square_width,
                    eds.shape_error() is None,
                    ods_width == eds.ods_width(),
                    i < ods_width,
                    j <= ods_width,
                    row@.len() == j,
                    eds.decodes_before(i as int, j as int),
                    forall|c: int| 0 <= c < j ==> (#[trigger] row@[c])@ == eds.original_cell(
                        i as int,
                        c,
                    ),
                decreases ods_width - j,
            {
                proof {
                    lemma_position_in_square(width as int, i as int, j as int);
                }
                let raw = eds.share(i, j).unwrap();
                match Share::from_raw(raw) {
                    Some(share) => {
                        row.push(ODSCell::from_share(share));
                    },
                    None => {
                        assert(!eds.decodes_at(i as int, j as int));
                        return Err(DecodeError::InvalidShare { row: i, column: j });
                    },
                }
                j += 1;
            }
            cells.push(row);
            i += 1;
        }
        let ods = ODS { height, cells };
        assert(ods@.cells =~~= eds.original_square(height).cells);
        Ok(ods)
    }
}

/// A square of width zero or of odd width, one whose share count is not its
/// width squared, and one with a share in the top-left quadrant that does
/// not decode: none of them decodes.
pub proof fn lemma_malformed_square_does_not_decode(eds: ExtendedDataSquare, row: int, column: int)
    requires
        eds.square_width == 0 || eds.square_width % 2 == 1 || !eds.is_square() || (0 <= row
            < eds.ods_width() && 0 <= column < eds.ods_width() && !eds.decodes_at(row, column)),
    ensures
        !eds.decodes(),
{
}

/// An extended data square has one outcome: it decodes, or it is refused
/// with one error, never both and never with two.
pub proof fn lemma_one_outcome(eds: ExtendedDataSquare, first: DecodeError, second: DecodeError)
    requires
        eds.refused_with(first),
    ensures
        !eds.decodes(),
        eds.refused_with(second) ==> first == second,
{
    if let DecodeError::InvalidShare { row, column } = first {
        assert(eds.decodes_at(row as int, column as int) || !eds.decodes());
        if eds.refused_with(second) {
            if let DecodeError::InvalidShare { row: other_row, column: other_column } = second {
                if row != other_row || column != other_column {
                    assert(eds.decodes_at(row as int, column as int) || eds.decodes_at(
                        other_row as int,
                        other_column as int,
                    ));
                }
            }
        }
    }
}

/// The original data square of an extended data square of even width is
/// half as wide and half as high, and its cell at a coordinate is the
/// classification of the namespace of the raw share at the same coordinate
/// of the extended square.
pub proof fn lemma_original_square_is_top_left_quadrant(eds: ExtendedDataSquare, height: u64)
    requires
        eds.square_width >= 2,
        eds.square_width % 2 == 0,
    ensures
        eds.original_square(height).height == height,
        eds.original_square(height).cells.len() * 2 == eds.square_width,
        forall|i: int|
            0 <= i < eds.ods_width() ==> (#[trigger] eds.original_square(height).cells[i]).len()
                * 2 == eds.square_width,
        forall|i: int, j: int|
            0 <= i < eds.ods_width() && 0 <= j < eds.ods_width()
                ==> #[trigger] eds.original_square(height).cells[i][j] == classification(
                namespace_id_of(eds.data_square@[i * eds.square_width + j]@),
            ),
{
}

} // verus!
