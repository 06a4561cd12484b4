//! Why a notation was rejected.
use crate::ollspec::Direction;
use vstd::prelude::*;

verus! {

/// A rejected OLL descriptor or PLL program.
#[derive(Clone, Copy, Debug, PartialEq, Eq, Structural)]
pub enum ParseError {
    /// A descriptor character that names no orientation.
    UnknownOrientationChar(char),
    /// An edge sticker on a position whose cell does not lie on that edge.
    IllegalOrientationForPosition(usize, Direction),
    /// A descriptor without exactly nine orientations.
    MalformedDescriptor,
    /// A cubie was expected and no decimal digit came.
    ExpectedDigit,
    /// A cubie digit outside 1..9 (only 0 can be).
    OutOfRangeCubie(u8),
    /// An operator was expected and this character came instead.
    UnexpectedOperatorToken(char),
    /// An operator was expected and the input ended.
    ExpectedOperator,
    /// An image description in neither notation: it holds none of `=`, `<` and `>`.
    NotAnImageSpec,
}

/// `r` with `acc` in front of what it holds, when it holds something.
pub open spec fn prepend<T>(acc: Seq<T>, r: Result<Seq<T>, ParseError>) -> Result<Seq<T>, ParseError> {
    match r {
        Ok(rest) => Ok(acc + rest),
        Err(e) => Err(e),
    }
}

} // verus!
