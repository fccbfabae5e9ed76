//! Parser and data model for RPSL, the line-oriented `name: value` text
//! format used by Internet number registries.
//!
//! The crate is organized in layers:
//!
//! - [`lexis`] holds the shared lexical primitives: character classes and
//!   token scanners used by both the grammar and the validated constructors.
//! - [`attribute`] holds the validated data model: [`Name`], [`Value`] and
//!   [`Attribute`], together with their construction and comparison rules.
//! - [`parser`] holds the attribute grammar itself: recognizing one
//!   attribute (with its continuation lines) or one server message from the
//!   front of an input buffer.
//! - [`error`] holds the error taxonomy of validated construction and of
//!   the grammar.
//!
//! The [`rpsl`] module offers a plain, owned representation of parsed
//! attributes, objects and object collections for consumers that do not
//! need the validation machinery.

pub mod attribute;
pub mod error;
pub mod lexis;
pub mod parser;
pub mod rpsl;

pub use attribute::Attribute;
pub use attribute::Name;
pub use attribute::Value;

