use vstd::prelude::*;

verus! {

/// Why a decode failed.
#[derive(Clone, Copy, Debug, PartialEq, Eq, Structural)]
pub enum DecodeError {
    /// The buffer ended before the value was complete.
    Short,
    /// A value was read but is not allowed at this position.
    InvalidValue,
    /// An unknown message kind was read.
    InvalidMessage(u64),
    /// The same key appeared twice in a parameter list.
    Duplicate,
    /// A count exceeded the allowed maximum.
    TooMany,
    /// The value is valid on the wire but this implementation rejects it.
    Unsupported,
}

/// The error taxonomy of the transport layer.
#[derive(Clone, Copy, Debug, PartialEq, Eq, Structural)]
pub enum Error {
    /// A local or peer-initiated stop.
    Cancel,
    /// The lower transport layer failed.
    Transport,
    /// Malformed wire data or an unexpected message.
    Decode(DecodeError),
    /// A known but unimplemented feature, or a dialect mismatch.
    Unsupported,
    /// No common wire version could be agreed on.
    Version,
    /// The negotiated ALPN string is not one of ours.
    UnknownAlpn,
    /// The requested broadcast, track or group does not exist.
    NotFound,
    /// The consumer's scope forbids this path.
    Unauthorized,
    /// The same key appeared twice.
    Duplicate,
    /// A parameter count exceeded the allowed maximum.
    TooMany,
    /// A media track must start with a keyframe.
    MissingKeyframe,
    /// Keyframe timestamps must be monotonically non-decreasing.
    TimestampBackwards,
    /// A timestamp conversion overflowed.
    TimeOverflow,
    /// A wait ran out of time.
    Timeout,
}

impl Error {
    /// The application error code used when closing a transport session.
    pub fn to_code(&self) -> (code: u32)
        ensures
            code == self.spec_code(),
    {
        match self {
            Error::Cancel => 0,
            Error::Transport => 1,
            Error::Decode(_) => 2,
            Error::Unsupported => 3,
            Error::Version => 4,
            Error::UnknownAlpn => 5,
            Error::NotFound => 6,
            Error::Unauthorized => 7,
            Error::Duplicate => 8,
            Error::TooMany => 9,
            Error::MissingKeyframe => 10,
            Error::TimestampBackwards => 11,
            Error::TimeOverflow => 12,
            Error::Timeout => 13,
        }
    }

    /// The code of each error kind, as a mathematical map.
    pub open spec fn spec_code(self) -> u32 {
        match self {
            Error::Cancel => 0,
            Error::Transport => 1,
            Error::Decode(_) => 2,
            Error::Unsupported => 3,
            Error::Version => 4,
            Error::UnknownAlpn => 5,
            Error::NotFound => 6,
            Error::Unauthorized => 7,
            Error::Duplicate => 8,
            Error::TooMany => 9,
            Error::MissingKeyframe => 10,
            Error::TimestampBackwards => 11,
            Error::TimeOverflow => 12,
            Error::Timeout => 13,
        }
    }

    /// A short human-readable phrase for the error, for logs and reason fields.
    pub fn describe(&self) -> &'static str {
        match self {
            Error::Cancel => "cancelled",
            Error::Transport => "transport error",
            Error::Decode(_) => "decode error",
            Error::Unsupported => "unsupported",
            Error::Version => "version negotiation failed",
            Error::UnknownAlpn => "unknown alpn",
            Error::NotFound => "not found",
            Error::Unauthorized => "unauthorized",
            Error::Duplicate => "duplicate",
            Error::TooMany => "too many",
            Error::MissingKeyframe => "must start with a keyframe",
            Error::TimestampBackwards => "timestamp went backwards",
            Error::TimeOverflow => "timestamp overflow",
            Error::Timeout => "timeout",
        }
    }
}

} // verus!
