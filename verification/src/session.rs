//! What is done with a square once it has been fetched.

use vstd::prelude::*;
use crate::draw::{drawing, views, Command};
use crate::ods::{DecodeError, ODS};
use crate::square::ExtendedDataSquare;

verus! {

/// How the squares arrive.
#[derive(Clone, Copy, Debug, PartialEq, Eq, Structural)]
pub enum Mode {
    /// One square, for a height that was asked for.
    OneShot,
    /// One square after the other, as new headers are announced.
    Streaming,
}

/// What follows on a fetched square.
#[derive(Debug, PartialEq, Eq)]
pub enum Step {
    /// The commands are carried out in order, without interruption.
    Paint(Vec<Command>),
    /// Nothing is painted for this height; the error is reported and the
    /// next header is waited for.
    Skip(DecodeError),
    /// Nothing is painted; the run ends with the error.
    Abort(DecodeError),
}

/// Decides what follows on a fetched square. A square that decodes is
/// painted. One that does not ends a one-shot run, and is passed over in a
/// streaming run.
pub fn handle_square(mode: Mode, eds: ExtendedDataSquare, height: u64) -> (step: Step)
    ensures
        step is Paint <==> eds.decodes(),
        step is Abort ==> mode == Mode::OneShot,
        step is Skip ==> mode == Mode::Streaming,
        match step {
            Step::Paint(commands) => views(commands@) == drawing(eds.original_square(height)),
            Step::Skip(error) => eds.refused_with(error),
            Step::Abort(error) => eds.refused_with(error),
        },
{
    match ODS::from_eds(eds, height) {
        Ok(ods) => Step::Paint(ods.draw_grid()),
        Err(error) => match mode {
            Mode::OneShot => Step::Abort(error),
            Mode::Streaming => Step::Skip(error),
        },
    }
}

} // verus!
