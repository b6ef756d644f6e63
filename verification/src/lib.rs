//! A bidirectional codec between a block-structured, indentation-sensitive
//! text format and a small self-describing value model.
//!
//! Decoding pulls structural events from a lexical scanner, resolves the
//! boolean and null literal families, and materializes values either
//! self-describingly or directed by a [`shape::Shape`] descriptor.  Encoding
//! walks a [`value::Value`] and renders block-style output with two spaces of
//! indentation per nesting level.

pub mod deserialize;
pub mod error;
pub mod event;
pub mod literal;
pub mod num;
pub mod scan;
pub mod serialize;
pub mod shape;
pub mod strutil;
pub mod value;
