//! Choices that the command line offers.

use vstd::prelude::*;

verus! {

/// The format of the input file.
#[derive(Clone, Copy, Debug, PartialEq, Eq, Structural)]
pub enum FileFormat {
    Csv,
    Txt,
}

} // verus!
