use vstd::prelude::*;

verus! {

/// Why a string was turned down.
#[derive(Debug, Clone, Copy, PartialEq, Eq)]
pub enum LuhnError {
    /// The given `char`, found at the given position, is neither an ASCII
    /// digit nor a space. Positions count every character, spaces included,
    /// from zero.
    NonDigit(usize, char),
    /// The string holds only the given number of digits, which is too few.
    Short(usize),
}

} // verus!
