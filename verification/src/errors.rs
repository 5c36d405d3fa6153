//! Error handling: the closed set of failure codes the collector can return,
//! mapped one-to-one onto a library error type.
//!
//! Every operation that calls into the collector (arena, pool, format, root
//! and thread creation, allocation) reports failure through this type;
//! callers decide whether to retry, fall back, or abort. The numeric codes
//! mirror the collector's result-code enumeration, with success as zero.

use vstd::prelude::*;

verus! {

/// The collector's "operation succeeded" result code.
pub const RES_OK: i32 = 0;
/// An unspecified failure.
pub const RES_FAIL: i32 = 1;
/// A needed resource could not be obtained.
pub const RES_RESOURCE: i32 = 2;
/// Needed memory could not be obtained.
pub const RES_MEMORY: i32 = 3;
/// An internal limitation was exceeded.
pub const RES_LIMIT: i32 = 4;
/// The operation is not implemented.
pub const RES_UNIMPL: i32 = 5;
/// An input/output error occurred.
pub const RES_IO: i32 = 6;
/// The arena's commit limit would be exceeded.
pub const RES_COMMIT_LIMIT: i32 = 7;
/// An invalid parameter was passed.
pub const RES_PARAM: i32 = 8;

/// Errors returned by the collector, as a closed taxonomy.
#[derive(Clone, Copy, Debug, PartialEq, Eq, Structural)]
pub enum Error {
    CommitLimit,
    InputOutput,
    InsufficientMemory,
    InsufficientResources,
    InternalLimit,
    InvalidParam,
    Unimplemented,
    Other,
}

/// The result a raw collector code maps to: `Ok` exactly for `RES_OK`, each
/// known failure code to its own variant, and every other code to `Other`.
pub open spec fn spec_result_of(res: i32) -> Result<(), Error> {
    if res == RES_OK {
        Ok(())
    } else if res == RES_COMMIT_LIMIT {
        Err(Error::CommitLimit)
    } else if res == RES_IO {
        Err(Error::InputOutput)
    } else if res == RES_MEMORY {
        Err(Error::InsufficientMemory)
    } else if res == RES_RESOURCE {
        Err(Error::InsufficientResources)
    } else if res == RES_LIMIT {
        Err(Error::InternalLimit)
    } else if res == RES_PARAM {
        Err(Error::InvalidParam)
    } else if res == RES_UNIMPL {
        Err(Error::Unimplemented)
    } else {
        Err(Error::Other)
    }
}

impl Error {
    /// Constructs a `Result` from a raw collector result code. Succeeds if
    /// and only if the code is `RES_OK`.
    pub fn result(res: i32) -> (r: Result<(), Error>)
        ensures
            r == spec_result_of(res),
            r is Ok <==> res == RES_OK,
    {
        if res == RES_OK {
            Ok(())
        } else if res == RES_COMMIT_LIMIT {
            Err(Error::CommitLimit)
        } else if res == RES_IO {
            Err(Error::InputOutput)
        } else if res == RES_MEMORY {
            Err(Error::InsufficientMemory)
        } else if res == RES_RESOURCE {
            Err(Error::InsufficientResources)
        } else if res == RES_LIMIT {
            Err(Error::InternalLimit)
        } else if res == RES_PARAM {
            Err(Error::InvalidParam)
        } else if res == RES_UNIMPL {
            Err(Error::Unimplemented)
        } else {
            Err(Error::Other)
        }
    }

    /// A short human-readable description of the error.
    pub fn description(&self) -> (r: &'static str)
        ensures
            r@ == self.spec_description(),
    {
        match self {
            Error::CommitLimit => "the arena's commit limit would be exceeded.",
            Error::InputOutput => "an input/output error occurred.",
            Error::InsufficientMemory => "needed memory could not be obtained.",
            Error::InsufficientResources => "a needed resource could not be obtained.",
            Error::InternalLimit => "an internal limitation was exceeded.",
            Error::InvalidParam => "an invalid parameter was passed.",
            Error::Unimplemented => "operation is not implemented.",
            Error::Other => "operation failed.",
        }
    }

    /// The description each variant carries.
    pub open spec fn spec_description(&self) -> Seq<char> {
        match self {
            Error::CommitLimit => "the arena's commit limit would be exceeded."@,
            Error::InputOutput => "an input/output error occurred."@,
            Error::InsufficientMemory => "needed memory could not be obtained."@,
            Error::InsufficientResources => "a needed resource could not be obtained."@,
            Error::InternalLimit => "an internal limitation was exceeded."@,
            Error::InvalidParam => "an invalid parameter was passed."@,
            Error::Unimplemented => "operation is not implemented."@,
            Error::Other => "operation failed."@,
        }
    }
}

} // verus!
