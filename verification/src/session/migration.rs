//! The session-format version gate: a session written by a newer mixer is
//! refused instead of being silently rewritten.

use vstd::prelude::*;

use crate::error::{ControlError, ControlErrorView, ControlResult, ErrorKind};
use crate::text::{signed_decimal, owned, spec_signed_decimal};

verus! {

/// The session format this mixer writes.
pub const CURRENT_VERSION: i32 = 2;

/// What `std::str::from_utf8` makes of the bytes: the text, or the
/// message of the decoding error.
pub uninterp spec fn utf8_decoded(bytes: Seq<u8>) -> Result<Seq<char>, Seq<char>>;

/// What serde_json reads as the `version` field of a JSON text: `None` when
/// the text is a JSON value without an integer `version` member, or the
/// parse error's message.
pub uninterp spec fn json_version_field(text: Seq<char>) -> Result<Option<i64>, Seq<char>>;

/// `std::str::from_utf8`, owned; the error is the `Utf8Error` text.
#[verifier::external_body]
fn utf8_text(bytes: &Vec<u8>) -> (r: Result<String, String>)
    ensures
        match r {
            Ok(s) => utf8_decoded(bytes@) == Ok::<Seq<char>, Seq<char>>(s@),
            Err(m) => utf8_decoded(bytes@) == Err::<Seq<char>, Seq<char>>(m@),
        },
{
    match std::str::from_utf8(bytes) {
        Ok(text) => Ok(text.to_string()),
        Err(error) => Err(error.to_string()),
    }
}

/// `serde_json::from_str::<serde_json::Value>` followed by
/// `get("version").and_then(Value::as_i64)`; the error is the parse
/// error's text.
#[verifier::external_body]
fn json_version(text: &str) -> (r: Result<Option<i64>, String>)
    ensures
        match r {
            Ok(v) => json_version_field(text@) == Ok::<Option<i64>, Seq<char>>(v),
            Err(m) => json_version_field(text@) == Err::<Option<i64>, Seq<char>>(m@),
        },
{
    match serde_json::from_str::<serde_json::Value>(text) {
        Ok(value) => Ok(value.get("version").and_then(|item| item.as_i64())),
        Err(error) => Err(error.to_string()),
    }
}

/// What the version gate answers for a `version` field: a missing one
/// counts as the current version; a newer or negative one is refused.
pub open spec fn version_verdict_spec(version: Option<i64>) -> Result<(), ControlErrorView> {
    let v: int = match version {
        Some(v) => v as int,
        None => CURRENT_VERSION as int,
    };
    if v > CURRENT_VERSION || v < 0 {
        Err(ControlErrorView { kind: ErrorKind::InvalidArgument, message: "unsupported session version "@ + spec_signed_decimal(v) })
    } else {
        Ok(())
    }
}

pub fn version_verdict(version: Option<i64>) -> (r: ControlResult<()>)
    ensures
        match version_verdict_spec(version) {
            Ok(()) => r is Ok,
            Err(e) => r matches Err(x) && x@ == e,
        },
{
    let v: i64 = match version {
        Some(v) => v,
        None => CURRENT_VERSION as i64,
    };
    if v > CURRENT_VERSION as i64 || v < 0 {
        let mut m = owned("unsupported session version ");
        let d = signed_decimal(v);
        m.append(d.as_str());
        return Err(ControlError::InvalidArgument { message: m });
    }
    Ok(())
}

/// The version gate over a session file's bytes: text that is not UTF-8
/// or not JSON is invalid with its decoder's message; otherwise the
/// `version` field decides.
pub fn check_session_version(bytes: &Vec<u8>) -> (r: ControlResult<()>)
    ensures
        match utf8_decoded(bytes@) {
            Err(m) => r matches Err(x) && x@ == (ControlErrorView { kind: ErrorKind::InvalidArgument, message: m }),
            Ok(text) => match json_version_field(text) {
                Err(m) => r matches Err(x) && x@ == (ControlErrorView {
                    kind: ErrorKind::InvalidArgument,
                    message: m,
                }),
                Ok(v) => match version_verdict_spec(v) {
                    Ok(()) => r is Ok,
                    Err(e) => r matches Err(x) && x@ == e,
                },
            },
        },
{
    let text = match utf8_text(bytes) {
        Ok(t) => t,
        Err(m) => {
            return Err(ControlError::InvalidArgument { message: m });
        },
    };
    let version = match json_version(text.as_str()) {
        Ok(v) => v,
        Err(m) => {
            return Err(ControlError::InvalidArgument { message: m });
        },
    };
    version_verdict(version)
}

} // verus!
