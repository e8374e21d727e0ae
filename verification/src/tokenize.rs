//! Token streams: the tokens of one source text, up to its end or to the first
//! place that holds no token.

use vstd::prelude::*;

use crate::token::{SourceRange, TokenData};

verus! {

/// Why a place holds no token.
#[derive(Clone, Copy, Debug, PartialEq, Eq, Structural)]
pub enum LexErrorKind {
    UnterminatedString,
    UnterminatedBlockComment,
    UnknownCharacter,
}

/// A place that holds no token.
#[derive(Debug)]
pub struct TokenizeError {
    pub kind: LexErrorKind,
    pub range: SourceRange,
    pub message: String,
}

impl TokenizeError {
    /// A copy of the error.
    pub fn copy(&self) -> (r: Self)
        ensures
            r == *self,
    {
        TokenizeError { kind: self.kind, range: self.range, message: self.message.clone() }
    }
}

/// The tokens of a text. Behind them stands the end of the text, or the first
/// place that holds no token.
#[derive(Debug)]
pub struct StrictTokenStream {
    pub text: String,
    pub tokens: Vec<TokenData>,
    pub end: TokenData,
    pub fault: Option<TokenizeError>,
}

} // verus!
