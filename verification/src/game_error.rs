//! Errors raised by the engine itself.

use vstd::prelude::*;

verus! {

/// An engine-level failure. Parsing failures carry the offending text and
/// a description of what was expected; protocol violations are attempts to
/// resolve or raise an offer that the control log does not allow.
#[derive(Clone, Debug, PartialEq, Eq)]
pub enum GameError {
    ParsingError { found: String, typ: String },
    ProtocolViolation,
}

impl GameError {
    pub open spec fn is_parsing_error(self) -> bool {
        match self {
            GameError::ParsingError { .. } => true,
            GameError::ProtocolViolation => false,
        }
    }
}

} // verus!
