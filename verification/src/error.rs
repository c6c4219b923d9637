//! Error types: local validation failures and foreign errors retrieved
//! from a context's last-error slot.

use vstd::prelude::*;

verus! {

/// Classification of an error reported by the foreign library, as read
/// back from a context's error slot.
#[derive(Debug, Clone, Copy, PartialEq, Eq, Structural)]
pub enum ISLErrorKind {
    Abort,
    Alloc,
    Unknown,
    Internal,
    Invalid,
    Quota,
    Unsupported,
}

/// What the error-code word of the foreign error slot means.  The foreign
/// library encodes "no error pending" as code zero; every other known code
/// names one error kind, and a code this layer does not know is read as
/// `Unknown` rather than dropped.
pub open spec fn spec_kind_of_code(code: u32) -> ISLErrorKind {
    if code == 1 {
        ISLErrorKind::Abort
    } else if code == 2 {
        ISLErrorKind::Alloc
    } else if code == 3 {
        ISLErrorKind::Unknown
    } else if code == 4 {
        ISLErrorKind::Internal
    } else if code == 5 {
        ISLErrorKind::Invalid
    } else if code == 6 {
        ISLErrorKind::Quota
    } else if code == 7 {
        ISLErrorKind::Unsupported
    } else {
        ISLErrorKind::Unknown
    }
}

impl From<u32> for ISLErrorKind {
    /// Classify a raw error-code word from the foreign error slot.
    fn from(value: u32) -> (r: ISLErrorKind)
        ensures
            r == spec_kind_of_code(value),
    {
        match value {
            1 => ISLErrorKind::Abort,
            2 => ISLErrorKind::Alloc,
            3 => ISLErrorKind::Unknown,
            4 => ISLErrorKind::Internal,
            5 => ISLErrorKind::Invalid,
            6 => ISLErrorKind::Quota,
            7 => ISLErrorKind::Unsupported,
            _ => ISLErrorKind::Unknown,
        }
    }
}

impl vstd::std_specs::convert::FromSpecImpl<u32> for ISLErrorKind {
    open spec fn obeys_from_spec() -> bool {
        true
    }

    open spec fn from_spec(code: u32) -> ISLErrorKind {
        spec_kind_of_code(code)
    }
}

impl ISLErrorKind {
    /// The fixed description the foreign library records for this kind.
    pub open spec fn spec_text(self) -> Seq<char> {
        match self {
            ISLErrorKind::Abort => "operation aborted"@,
            ISLErrorKind::Alloc => "memory allocation error"@,
            ISLErrorKind::Unknown => "unknown error"@,
            ISLErrorKind::Internal => "internal error"@,
            ISLErrorKind::Invalid => "invalid argument"@,
            ISLErrorKind::Quota => "operation quota exceeded"@,
            ISLErrorKind::Unsupported => "unsupported operation"@,
        }
    }

    /// The human-readable description of this error kind.
    pub fn text(&self) -> (r: String)
        ensures
            r@ == self.spec_text(),
    {
        match self {
            ISLErrorKind::Abort => "operation aborted".to_string(),
            ISLErrorKind::Alloc => "memory allocation error".to_string(),
            ISLErrorKind::Unknown => "unknown error".to_string(),
            ISLErrorKind::Internal => "internal error".to_string(),
            ISLErrorKind::Invalid => "invalid argument".to_string(),
            ISLErrorKind::Quota => "operation quota exceeded".to_string(),
            ISLErrorKind::Unsupported => "unsupported operation".to_string(),
        }
    }
}

/// A foreign-reported error: its classified kind together with the message
/// that stood in the reporting context's error slot.
#[derive(Debug, Clone)]
pub struct ISLError {
    pub kind: ISLErrorKind,
    pub message: String,
}

impl ISLError {
    /// The classified kind of this error.
    pub fn kind(&self) -> (r: ISLErrorKind)
        ensures
            r == self.kind,
    {
        self.kind
    }

    /// The message recorded alongside the error.
    pub fn message(&self) -> (r: &str)
        ensures
            r@ == self.message@,
    {
        self.message.as_str()
    }
}

/// The error type of every fallible operation of this layer.  Local
/// validation failures are detected before any foreign call; `IslError`
/// carries a failure reported by the foreign library through a context's
/// error slot.
#[derive(Debug, Clone)]
pub enum Error {
    /// An integer was expected but the value is rational, not-a-number or
    /// infinite.
    NonIntegralValue,
    /// A string did not parse in the expected format.
    ParseError,
    /// A string destined for the foreign library holds an embedded NUL.
    NulError,
    /// A convenience constructor pre-validated a variable position and
    /// found it out of bounds.
    VariablePositionOutOfBounds,
    /// The foreign library reported a failure.
    IslError(ISLError),
}

impl Error {
    /// The foreign error kind, where this error came from the foreign
    /// library; `None` for a local validation error.
    pub fn isl_kind(&self) -> (r: Option<ISLErrorKind>)
        ensures
            r == (match *self {
                Error::IslError(e) => Some(e.kind),
                _ => None::<ISLErrorKind>,
            }),
    {
        match self {
            Error::IslError(e) => Some(e.kind),
            _ => None,
        }
    }

    /// Whether this error was detected locally, before any foreign call.
    pub fn is_local(&self) -> (r: bool)
        ensures
            r == !(self is IslError),
    {
        !matches!(self, Error::IslError(_))
    }
}

} // verus!
