//! Transport-independent control failure. Adapters map it onto the C ABI
//! `i32`, a vMix HTTP status and a Protobuf `Status`; raw ABI codes do not
//! circulate inside the control domain.

use vstd::prelude::*;

use crate::text::{
    contains, owned, signed_decimal, spec_contains, spec_signed_decimal,
};

verus! {

#[derive(Debug, Clone, PartialEq, Eq)]
pub enum ControlError {
    InvalidArgument { message: String },
    NotFound { message: String },
    Ambiguous { message: String },
    Conflict { message: String },
    Unavailable { message: String },
    PermissionDenied { message: String },
    Io { message: String },
    Internal { message: String },
}

pub type ControlResult<T> = Result<T, ControlError>;

/// The category of a [`ControlError`], without its message.
#[derive(Debug, Clone, Copy, PartialEq, Eq, Structural)]
pub enum ErrorKind {
    InvalidArgument,
    NotFound,
    Ambiguous,
    Conflict,
    Unavailable,
    PermissionDenied,
    Io,
    Internal,
}

/// Mathematical content of a [`ControlError`]: its category and its text.
pub struct ControlErrorView {
    pub kind: ErrorKind,
    pub message: Seq<char>,
}

impl View for ControlError {
    type V = ControlErrorView;

    open spec fn view(&self) -> ControlErrorView {
        match self {
            ControlError::InvalidArgument { message } => ControlErrorView {
                kind: ErrorKind::InvalidArgument,
                message: message@,
            },
            ControlError::NotFound { message } => ControlErrorView {
                kind: ErrorKind::NotFound,
                message: message@,
            },
            ControlError::Ambiguous { message } => ControlErrorView {
                kind: ErrorKind::Ambiguous,
                message: message@,
            },
            ControlError::Conflict { message } => ControlErrorView {
                kind: ErrorKind::Conflict,
                message: message@,
            },
            ControlError::Unavailable { message } => ControlErrorView {
                kind: ErrorKind::Unavailable,
                message: message@,
            },
            ControlError::PermissionDenied { message } => ControlErrorView {
                kind: ErrorKind::PermissionDenied,
                message: message@,
            },
            ControlError::Io { message } => ControlErrorView { kind: ErrorKind::Io, message: message@ },
            ControlError::Internal { message } => ControlErrorView {
                kind: ErrorKind::Internal,
                message: message@,
            },
        }
    }
}

/// Wire name of an error category.
pub open spec fn spec_code(kind: ErrorKind) -> Seq<char> {
    match kind {
        ErrorKind::InvalidArgument => "INVALID_ARGUMENT"@,
        ErrorKind::NotFound => "NOT_FOUND"@,
        ErrorKind::Ambiguous => "AMBIGUOUS"@,
        ErrorKind::Conflict => "CONFLICT"@,
        ErrorKind::Unavailable => "UNAVAILABLE"@,
        ErrorKind::PermissionDenied => "PERMISSION_DENIED"@,
        ErrorKind::Io => "IO"@,
        ErrorKind::Internal => "INTERNAL"@,
    }
}

/// Historical C ABI code: every category collapses onto `1..=5`.
pub open spec fn spec_abi(e: ControlErrorView) -> i32 {
    match e.kind {
        ErrorKind::Conflict => if spec_contains(e.message, "already created"@) {
            1
        } else {
            3
        },
        ErrorKind::Unavailable => 2,
        ErrorKind::InvalidArgument
        | ErrorKind::NotFound
        | ErrorKind::Ambiguous
        | ErrorKind::PermissionDenied => 3,
        ErrorKind::Internal => 4,
        ErrorKind::Io => 5,
    }
}

/// The error that an ABI code and its message map back to.
pub open spec fn spec_from_abi(code: i32, message: Seq<char>) -> ControlErrorView {
    if code == 0 {
        ControlErrorView {
            kind: ErrorKind::Internal,
            message: "unexpected ok mapped as error"@,
        }
    } else if code == 1 {
        ControlErrorView {
            kind: ErrorKind::Conflict,
            message: if message.len() == 0 {
                "already created"@
            } else {
                message
            },
        }
    } else if code == 2 {
        ControlErrorView {
            kind: ErrorKind::Unavailable,
            message: if message.len() == 0 {
                "mixer not created"@
            } else {
                message
            },
        }
    } else if code == 3 {
        ControlErrorView { kind: ErrorKind::InvalidArgument, message }
    } else if code == 4 {
        ControlErrorView {
            kind: ErrorKind::Internal,
            message: if message.len() == 0 {
                "device"@
            } else {
                message
            },
        }
    } else if code == 5 {
        ControlErrorView { kind: ErrorKind::Io, message }
    } else {
        ControlErrorView {
            kind: ErrorKind::Internal,
            message: "abi "@ + spec_signed_decimal(code as int) + ": "@ + message,
        }
    }
}

/// vMix HTTP status of an error category.
pub open spec fn spec_http_status(kind: ErrorKind) -> u16 {
    match kind {
        ErrorKind::InvalidArgument | ErrorKind::Ambiguous => 400,
        ErrorKind::PermissionDenied => 401,
        ErrorKind::NotFound => 404,
        ErrorKind::Conflict => 409,
        ErrorKind::Unavailable => 503,
        ErrorKind::Io | ErrorKind::Internal => 500,
    }
}

impl ControlError {
    pub fn invalid(message: &str) -> (r: Self)
        ensures
            r@ == (ControlErrorView { kind: ErrorKind::InvalidArgument, message: message@ }),
    {
        ControlError::InvalidArgument { message: owned(message) }
    }

    pub fn not_found(message: &str) -> (r: Self)
        ensures
            r@ == (ControlErrorView { kind: ErrorKind::NotFound, message: message@ }),
    {
        ControlError::NotFound { message: owned(message) }
    }

    pub fn ambiguous(message: &str) -> (r: Self)
        ensures
            r@ == (ControlErrorView { kind: ErrorKind::Ambiguous, message: message@ }),
    {
        ControlError::Ambiguous { message: owned(message) }
    }

    pub fn conflict(message: &str) -> (r: Self)
        ensures
            r@ == (ControlErrorView { kind: ErrorKind::Conflict, message: message@ }),
    {
        ControlError::Conflict { message: owned(message) }
    }

    pub fn unavailable(message: &str) -> (r: Self)
        ensures
            r@ == (ControlErrorView { kind: ErrorKind::Unavailable, message: message@ }),
    {
        ControlError::Unavailable { message: owned(message) }
    }

    pub fn permission(message: &str) -> (r: Self)
        ensures
            r@ == (ControlErrorView { kind: ErrorKind::PermissionDenied, message: message@ }),
    {
        ControlError::PermissionDenied { message: owned(message) }
    }

    pub fn io(message: &str) -> (r: Self)
        ensures
            r@ == (ControlErrorView { kind: ErrorKind::Io, message: message@ }),
    {
        ControlError::Io { message: owned(message) }
    }

    pub fn internal(message: &str) -> (r: Self)
        ensures
            r@ == (ControlErrorView { kind: ErrorKind::Internal, message: message@ }),
    {
        ControlError::Internal { message: owned(message) }
    }

    pub fn message(&self) -> (r: &str)
        ensures
            r@ == self@.message,
    {
        match self {
            ControlError::InvalidArgument { message }
            | ControlError::NotFound { message }
            | ControlError::Ambiguous { message }
            | ControlError::Conflict { message }
            | ControlError::Unavailable { message }
            | ControlError::PermissionDenied { message }
            | ControlError::Io { message }
            | ControlError::Internal { message } => message.as_str(),
        }
    }

    pub fn code(&self) -> (r: &'static str)
        ensures
            r@ == spec_code(self@.kind),
    {
        match self {
            ControlError::InvalidArgument { .. } => "INVALID_ARGUMENT",
            ControlError::NotFound { .. } => "NOT_FOUND",
            ControlError::Ambiguous { .. } => "AMBIGUOUS",
            ControlError::Conflict { .. } => "CONFLICT",
            ControlError::Unavailable { .. } => "UNAVAILABLE",
            ControlError::PermissionDenied { .. } => "PERMISSION_DENIED",
            ControlError::Io { .. } => "IO",
            ControlError::Internal { .. } => "INTERNAL",
        }
    }

    /// Existing C ABI integer mapping. New categories still collapse onto the
    /// historical `1..=5` range so hosts compiled against the current header
    /// keep working.
    pub fn to_abi(&self) -> (r: i32)
        ensures
            r == spec_abi(self@),
            1 <= r <= 5,
    {
        match self {
            ControlError::Conflict { message } => {
                if contains(message.as_str(), "already created") {
                    1
                } else {
                    3
                }
            },
            ControlError::Unavailable { .. } => 2,
            ControlError::InvalidArgument { .. }
            | ControlError::NotFound { .. }
            | ControlError::Ambiguous { .. }
            | ControlError::PermissionDenied { .. } => 3,
            ControlError::Internal { .. } => 4,
            ControlError::Io { .. } => 5,
        }
    }

    pub fn from_abi(code: i32, message: &str) -> (r: Self)
        ensures
            r@ == spec_from_abi(code, message@),
    {
        let empty = message.unicode_len() == 0;
        if code == 0 {
            ControlError::internal("unexpected ok mapped as error")
        } else if code == 1 {
            ControlError::conflict(
                if empty {
                    "already created"
                } else {
                    message
                },
            )
        } else if code == 2 {
            ControlError::unavailable(
                if empty {
                    "mixer not created"
                } else {
                    message
                },
            )
        } else if code == 3 {
            ControlError::invalid(message)
        } else if code == 4 {
            ControlError::internal(
                if empty {
                    "device"
                } else {
                    message
                },
            )
        } else if code == 5 {
            ControlError::io(message)
        } else {
            let mut text = owned("abi ");
            let number = signed_decimal(code as i64);
            text.append(number.as_str());
            text.append(": ");
            text.append(message);
            ControlError::Internal { message: text }
        }
    }

    pub fn http_status(&self) -> (r: u16)
        ensures
            r == spec_http_status(self@.kind),
    {
        match self {
            ControlError::InvalidArgument { .. } | ControlError::Ambiguous { .. } => 400,
            ControlError::PermissionDenied { .. } => 401,
            ControlError::NotFound { .. } => 404,
            ControlError::Conflict { .. } => 409,
            ControlError::Unavailable { .. } => 503,
            ControlError::Io { .. } | ControlError::Internal { .. } => 500,
        }
    }

    /// `CODE: message`, the text that `Display` writes.
    pub fn to_string(&self) -> (r: String)
        ensures
            r@ == spec_code(self@.kind) + ": "@ + self@.message,
    {
        let mut text = owned(self.code());
        text.append(": ");
        text.append(self.message());
        text
    }
}

/// Mapping an ABI code to an error and back gives the code again, on the
/// historical range `2..=5`, and on `1` whenever the message is empty or names
/// the "already created" conflict.
pub proof fn lemma_abi_round_trip(code: i32, message: Seq<char>)
    requires
        2 <= code <= 5 || (code == 1 && (message.len() == 0 || spec_contains(
            message,
            "already created"@,
        ))),
    ensures
        spec_abi(spec_from_abi(code, message)) == code,
{
    if code == 1 && message.len() == 0 {
        let lit = "already created"@;
        assert(lit.subrange(0, lit.len() as int) =~= lit);
        assert(crate::text::occurs_at(lit, lit, 0));
    }
}

/// Every error reaches hosts as one of the historical ABI codes `1..=5`.
pub proof fn lemma_abi_in_historical_range(e: ControlErrorView)
    ensures
        1 <= spec_abi(e) <= 5,
{
}

} // verus!
