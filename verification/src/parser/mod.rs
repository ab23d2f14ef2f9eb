//! The wire parser. Every function reads a buffer from a position on and
//! says one of three things: the bytes so far are too few to tell, they are
//! wrong, or here is the value and the position after it.

use vstd::prelude::*;

pub mod grammar;
pub mod laws;
pub mod lines;
pub mod responses;
pub mod stable;
pub mod strings;
pub mod tokens;

verus! {

/// What parsing at a position comes to.
#[derive(Debug, PartialEq)]
pub enum ParseResult<T> {
    /// More bytes are needed before anything can be said.
    Incomplete,
    /// The bytes do not match.
    Error,
    /// The value, and the position of the first byte after it.
    Success(T, usize),
}

impl<T: DeepView> View for ParseResult<T> {
    type V = grammar::Step<T::V>;

    open spec fn view(&self) -> grammar::Step<T::V> {
        match self {
            ParseResult::Incomplete => grammar::Step::Incomplete,
            ParseResult::Error => grammar::Step::Fail,
            ParseResult::Success(value, next) => grammar::Step::Done(
                value.deep_view(),
                *next as int,
            ),
        }
    }
}

} // verus!
