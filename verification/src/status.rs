//! The codes that the plugin returns.

use vstd::prelude::*;

verus! {

/// What came of a call or of an operation.
#[derive(Debug, Clone, Copy, PartialEq, Eq, Structural)]
pub enum NaReturn {
    Success,
    ProtocolError,
    Timeout,
    NoMem,
    Canceled,
    Overflow,
    InvalidArg,
}

} // verus!
