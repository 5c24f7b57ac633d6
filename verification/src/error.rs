//! Failures of the bridge, and the form in which a script sees them.

use vstd::prelude::*;
use vstd::string::*;
use crate::descriptor::TypeTag;
use crate::text::{decimal, decimal_text, signed_decimal, signed_text};

verus! {

/// Why a bridged call failed. Every failure is recoverable at the call site.
#[derive(Debug, PartialEq, Eq)]
pub enum BridgeError {
    /// The name is not in the descriptor table of the handle's type.
    UnknownField { name: String, type_tag: TypeTag },
    /// The value cannot be stored in the field, or the accessor does not
    /// apply to the object.
    TypeMismatch,
    /// A script index outside `1..=length`.
    IndexOutOfBounds { index: i64, length: usize },
    /// A borrowed handle was used after its scope had ended.
    Expired,
    /// The lock of the shared cell is poisoned.
    LockFailed,
    /// The lock of the shared cell is held by the host, or by more nested
    /// calls of the bridge than can be counted.
    Busy,
    /// The text is not a well-formed info key.
    InvalidKey { key: String },
    /// The index names no handle, or one whose wrapper was finalized.
    StaleHandle,
    /// The property has no setter.
    ReadOnly { name: String },
    /// The handle table cannot take another handle.
    Exhausted,
}

/// The mathematical content of a [`BridgeError`].
pub enum ErrorView {
    UnknownField { name: Seq<char>, type_tag: TypeTag },
    TypeMismatch,
    IndexOutOfBounds { index: i64, length: usize },
    Expired,
    LockFailed,
    Busy,
    InvalidKey { key: Seq<char> },
    StaleHandle,
    ReadOnly { name: Seq<char> },
    Exhausted,
}

impl View for BridgeError {
    type V = ErrorView;

    open spec fn view(&self) -> ErrorView {
        match self {
            BridgeError::UnknownField { name, type_tag } => ErrorView::UnknownField {
                name: name@,
                type_tag: *type_tag,
            },
            BridgeError::TypeMismatch => ErrorView::TypeMismatch,
            BridgeError::IndexOutOfBounds { index, length } => ErrorView::IndexOutOfBounds {
                index: *index,
                length: *length,
            },
            BridgeError::Expired => ErrorView::Expired,
            BridgeError::LockFailed => ErrorView::LockFailed,
            BridgeError::Busy => ErrorView::Busy,
            BridgeError::InvalidKey { key } => ErrorView::InvalidKey { key: key@ },
            BridgeError::StaleHandle => ErrorView::StaleHandle,
            BridgeError::ReadOnly { name } => ErrorView::ReadOnly { name: name@ },
            BridgeError::Exhausted => ErrorView::Exhausted,
        }
    }
}

/// The mathematical content of the result of a call that returns nothing.
pub open spec fn done_view(result: Result<(), BridgeError>) -> Result<(), ErrorView> {
    match result {
        Ok(_) => Ok(()),
        Err(e) => Err(e@),
    }
}

/// The kind of a failure, as a script can tell it from the others.
#[derive(Clone, Copy, PartialEq, Eq, Structural, Debug)]
pub enum ErrorKind {
    UnknownField,
    TypeMismatch,
    IndexOutOfBounds,
    Expired,
    LockFailed,
    Busy,
    InvalidKey,
    StaleHandle,
    ReadOnly,
    Exhausted,
}

/// The class of exception as which the scripting runtime raises a failure.
#[derive(Clone, Copy, PartialEq, Eq, Structural, Debug)]
pub enum ErrorClass {
    /// A plain error.
    Error,
    /// A value or a key of the wrong kind.
    TypeError,
    /// An index out of range.
    RangeError,
}

/// A failure in the form in which the scripting runtime raises it: a kind,
/// a class and a message, and nothing of the host's own representation.
#[derive(Debug, PartialEq, Eq)]
pub struct ScriptError {
    pub kind: ErrorKind,
    pub class: ErrorClass,
    pub message: String,
}

/// The class of exception for a kind of failure.
pub open spec fn class_of(kind: ErrorKind) -> ErrorClass {
    match kind {
        ErrorKind::IndexOutOfBounds => ErrorClass::RangeError,
        ErrorKind::TypeMismatch => ErrorClass::TypeError,
        ErrorKind::InvalidKey => ErrorClass::TypeError,
        _ => ErrorClass::Error,
    }
}

/// The kind of a failure.
pub open spec fn kind_of(error: ErrorView) -> ErrorKind {
    match error {
        ErrorView::UnknownField { .. } => ErrorKind::UnknownField,
        ErrorView::TypeMismatch => ErrorKind::TypeMismatch,
        ErrorView::IndexOutOfBounds { .. } => ErrorKind::IndexOutOfBounds,
        ErrorView::Expired => ErrorKind::Expired,
        ErrorView::LockFailed => ErrorKind::LockFailed,
        ErrorView::Busy => ErrorKind::Busy,
        ErrorView::InvalidKey { .. } => ErrorKind::InvalidKey,
        ErrorView::StaleHandle => ErrorKind::StaleHandle,
        ErrorView::ReadOnly { .. } => ErrorKind::ReadOnly,
        ErrorView::Exhausted => ErrorKind::Exhausted,
    }
}

/// The message of a failure: what went wrong, followed by the name, the
/// key, or the index and the length that the failure carries.
pub open spec fn message_of(error: ErrorView) -> Seq<char> {
    match error {
        ErrorView::UnknownField { name, type_tag } => "unknown field: "@ + name,
        ErrorView::TypeMismatch => "type mismatch"@,
        ErrorView::IndexOutOfBounds { index, length } => "index out of bounds: "@
            + signed_decimal(index as int) + " of "@ + decimal(length as nat),
        ErrorView::Expired => "handle used after its scope ended"@,
        ErrorView::LockFailed => "lock failed"@,
        ErrorView::Busy => "busy"@,
        ErrorView::InvalidKey { key } => "invalid key: "@ + key,
        ErrorView::StaleHandle => "stale handle"@,
        ErrorView::ReadOnly { name } => "read-only field: "@ + name,
        ErrorView::Exhausted => "handle table exhausted"@,
    }
}

impl BridgeError {
    /// The kind of the failure.
    pub fn kind(&self) -> (out: ErrorKind)
        ensures
            out == kind_of(self@),
    {
        match self {
            BridgeError::UnknownField { .. } => ErrorKind::UnknownField,
            BridgeError::TypeMismatch => ErrorKind::TypeMismatch,
            BridgeError::IndexOutOfBounds { .. } => ErrorKind::IndexOutOfBounds,
            BridgeError::Expired => ErrorKind::Expired,
            BridgeError::LockFailed => ErrorKind::LockFailed,
            BridgeError::Busy => ErrorKind::Busy,
            BridgeError::InvalidKey { .. } => ErrorKind::InvalidKey,
            BridgeError::StaleHandle => ErrorKind::StaleHandle,
            BridgeError::ReadOnly { .. } => ErrorKind::ReadOnly,
            BridgeError::Exhausted => ErrorKind::Exhausted,
        }
    }

    /// The message of the failure.
    pub fn message(&self) -> (out: String)
        ensures
            out@ == message_of(self@),
    {
        match self {
            BridgeError::UnknownField { name, type_tag } => {
                let mut out = String::from_str("unknown field: ");
                out.append(name.as_str());
                out
            },
            BridgeError::TypeMismatch => String::from_str("type mismatch"),
            BridgeError::IndexOutOfBounds { index, length } => {
                let mut out = String::from_str("index out of bounds: ");
                let shown = signed_text(*index);
                out.append(shown.as_str());
                out.append(" of ");
                let extent = decimal_text(*length as u64);
                out.append(extent.as_str());
                out
            },
            BridgeError::Expired => String::from_str("handle used after its scope ended"),
            BridgeError::LockFailed => String::from_str("lock failed"),
            BridgeError::Busy => String::from_str("busy"),
            BridgeError::InvalidKey { key } => {
                let mut out = String::from_str("invalid key: ");
                out.append(key.as_str());
                out
            },
            BridgeError::StaleHandle => String::from_str("stale handle"),
            BridgeError::ReadOnly { name } => {
                let mut out = String::from_str("read-only field: ");
                out.append(name.as_str());
                out
            },
            BridgeError::Exhausted => String::from_str("handle table exhausted"),
        }
    }

    /// The class of exception as which the failure is raised.
    pub fn class(&self) -> (out: ErrorClass)
        ensures
            out == class_of(kind_of(self@)),
    {
        match self {
            BridgeError::IndexOutOfBounds { .. } => ErrorClass::RangeError,
            BridgeError::TypeMismatch => ErrorClass::TypeError,
            BridgeError::InvalidKey { .. } => ErrorClass::TypeError,
            _ => ErrorClass::Error,
        }
    }

    /// The failure as the scripting runtime raises it.
    pub fn to_script(&self) -> (out: ScriptError)
        ensures
            out.kind == kind_of(self@),
            out.class == class_of(kind_of(self@)),
            out.message@ == message_of(self@),
    {
        ScriptError { kind: self.kind(), class: self.class(), message: self.message() }
    }
}

} // verus!
