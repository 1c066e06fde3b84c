//! The error kinds that the codec, the recognizer and the signing pipeline report.

use vstd::prelude::*;

verus! {

/// What went wrong while reading, checking or producing an OpenPGP artifact.
#[derive(Debug, Clone, Copy, PartialEq, Eq, Structural)]
pub enum Error {
    /// The bytes are truncated or an encoded length or header is inconsistent.
    /// `offset` is the position in the input at which the fault was found.
    MalformedInput { offset: usize },
    /// A packet arrived where the grammar of a transferable key does not allow it.
    /// `offset` is the position in the input at which the violation was found.
    MalformedComposite { offset: usize },
    /// An algorithm identifier is known but nothing implements it.
    UnsupportedAlgorithm,
    /// An elliptic curve object identifier is not one of the known curves.
    UnsupportedCurve,
    /// The hashed area of a signature holds an unknown subpacket marked critical.
    CriticalUnknown,
    /// A signature does not verify.
    VerificationFailed,
    /// Secret material is wrapped and no password was supplied.
    MissingPassword,
    /// Secret material could not be unwrapped with the supplied password.
    BadPassword,
    /// A primitive engine reported a failure that has no other classification.
    Internal,
}

impl Error {
    /// The byte offset that the error carries, for the kinds that carry one.
    pub open spec fn spec_offset(&self) -> Option<usize> {
        match *self {
            Error::MalformedInput { offset } => Some(offset),
            Error::MalformedComposite { offset } => Some(offset),
            _ => None,
        }
    }

    /// The byte offset that the error carries, for the kinds that carry one.
    #[verifier::when_used_as_spec(spec_offset)]
    pub fn offset(&self) -> (r: Option<usize>)
        ensures
            r == self.spec_offset(),
    {
        match *self {
            Error::MalformedInput { offset } => Some(offset),
            Error::MalformedComposite { offset } => Some(offset),
            _ => None,
        }
    }

    /// The error with its offset, if it carries one, moved forward by `base`:
    /// what a fault found at an offset within a part is, seen from the whole
    /// in which the part starts at `base`.
    pub open spec fn spec_shifted(self, base: usize) -> Error {
        match self {
            Error::MalformedInput { offset } => Error::MalformedInput {
                offset: (offset + base) as usize,
            },
            Error::MalformedComposite { offset } => Error::MalformedComposite {
                offset: (offset + base) as usize,
            },
            e => e,
        }
    }

    /// The error with its offset, if it carries one, moved forward by `base`.
    pub fn shifted(self, base: usize) -> (r: Error)
        requires
            self.spec_offset() matches Some(o) ==> o + base <= usize::MAX,
        ensures
            r == self.spec_shifted(base),
    {
        match self {
            Error::MalformedInput { offset } => Error::MalformedInput { offset: offset + base },
            Error::MalformedComposite { offset } => Error::MalformedComposite {
                offset: offset + base,
            },
            e => e,
        }
    }

    /// A short description of the error kind.
    pub fn message(&self) -> (r: &'static str)
        ensures
            r@ == error_message(*self),
    {
        match *self {
            Error::MalformedInput { .. } => "malformed input",
            Error::MalformedComposite { .. } => "malformed composite key",
            Error::UnsupportedAlgorithm => "unsupported algorithm",
            Error::UnsupportedCurve => "unsupported curve",
            Error::CriticalUnknown => "unknown critical subpacket",
            Error::VerificationFailed => "signature verification failed",
            Error::MissingPassword => "missing password",
            Error::BadPassword => "bad password",
            Error::Internal => "internal error",
        }
    }
}

/// The description that [`Error::message`] gives for each kind.
pub open spec fn error_message(e: Error) -> Seq<char> {
    match e {
        Error::MalformedInput { .. } => "malformed input"@,
        Error::MalformedComposite { .. } => "malformed composite key"@,
        Error::UnsupportedAlgorithm => "unsupported algorithm"@,
        Error::UnsupportedCurve => "unsupported curve"@,
        Error::CriticalUnknown => "unknown critical subpacket"@,
        Error::VerificationFailed => "signature verification failed"@,
        Error::MissingPassword => "missing password"@,
        Error::BadPassword => "bad password"@,
        Error::Internal => "internal error"@,
    }
}

} // verus!
