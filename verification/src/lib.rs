//! Turns an extended data square into a grid of namespace-coloured cells and
//! the sequence of terminal commands that paints it.

pub mod cell;
pub mod digest;
pub mod draw;
pub mod encoding;
pub mod legend;
pub mod namespace;
pub mod ods;
pub mod session;
pub mod share;
pub mod square;
