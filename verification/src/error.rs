//! The closed error taxonomy of the codec.
//!
//! Every decode failure carries enough context (position, offending literal,
//! or a message naming the field) to locate the fault in the source document.

use vstd::prelude::*;
use crate::event::{Token, SrcSpan};

verus! {

/// A lexical-layer failure: its message and the position it was reported at.
#[derive(Clone, Debug, PartialEq, Eq)]
pub struct ScanFault {
    pub msg: String,
    pub line: usize,
    pub col: usize,
}

/// The mathematical image of a [`ScanFault`].
pub struct ScanFaultView {
    pub msg: Seq<char>,
    pub line: usize,
    pub col: usize,
}

impl View for ScanFault {
    type V = ScanFaultView;

    open spec fn view(&self) -> ScanFaultView {
        ScanFaultView { msg: self.msg@, line: self.line, col: self.col }
    }
}

impl ScanFault {
    /// An owned copy of this fault, with the same image.
    pub fn duplicate(&self) -> (r: ScanFault)
        ensures
            r@ == self@,
    {
        ScanFault { msg: self.msg.clone(), line: self.line, col: self.col }
    }
}

/// The call site at which a structural assertion failed; propagated into
/// [`DeserializeError::UnexpectedElement`] for diagnostics.
#[derive(Clone, Copy, Debug, PartialEq, Eq, Structural)]
pub enum Location {
    StartStream,
    EndStream,
    StartDocument,
    EndDocument,
    StartSequence,
    EndSequence,
    StartMap,
    EndMap,
    DeserializeStr,
    DeserializeAny,
    DeserializeEnum,
}

/// Everything that can go wrong while decoding.
#[derive(Clone, Debug, PartialEq, Eq)]
pub enum DeserializeError {
    /// Reserved: trailing content is reported as `UnexpectedElement`.
    TrailingCharacters,
    /// A generic shape mismatch without richer context.
    TypeError,
    /// A structural assertion met the wrong kind of event.
    UnexpectedElement { event: Token, span: SrcSpan, location: Location },
    /// Raised by a caller-level protocol, e.g. a missing or unknown field.
    SerdeError(String),
    /// A scalar could not be parsed as the requested numeric width.
    NumberParseError { text: String, err: String, type_string: String, span: SrcSpan },
    /// A scalar was not in either boolean literal family.
    BoolParseError { text: String, span: SrcSpan },
    /// The stream ended before a well-formed document completed.
    EarlyTermination,
    /// A lexical-layer error, wrapped verbatim.
    ScanError(ScanFault),
}

impl DeserializeError {
    /// The error for a structural assertion that met `event` instead of what
    /// `location` expected.
    pub(crate) fn unexpected(event: Token, span: SrcSpan, location: Location) -> (r:
        DeserializeError)
        ensures
            (r == DeserializeError::UnexpectedElement { event, span, location }),
    {
        DeserializeError::UnexpectedElement { event, span, location }
    }

    /// The error for a scalar that does not parse as the numeric type named
    /// by `type_string`.
    pub(crate) fn number_parse_failure(text: String, err: String, type_string: String, span: SrcSpan)
        -> (r: DeserializeError)
        ensures
            (r == DeserializeError::NumberParseError { text, err, type_string, span }),
    {
        DeserializeError::NumberParseError { text, err, type_string, span }
    }

    /// The error for a scalar outside both boolean literal families.
    pub(crate) fn not_a_bool(text: String, span: SrcSpan) -> (r: DeserializeError)
        ensures
            (r == DeserializeError::BoolParseError { text, span }),
    {
        DeserializeError::BoolParseError { text, span }
    }

    /// A framework-level error with a free-form message.
    pub fn custom(msg: String) -> (r: DeserializeError)
        ensures
            r == DeserializeError::SerdeError(msg),
    {
        DeserializeError::SerdeError(msg)
    }
}

/// Everything that can go wrong while encoding.
#[derive(Clone, Debug, PartialEq, Eq)]
pub enum SerializeError {
    /// Raised by a caller-level protocol.
    Custom(String),
    /// A mapping key was not a scalar value; only scalars can stand as keys
    /// in the block syntax.
    KeyNotScalar,
}

} // verus!
