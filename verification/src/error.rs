//! The error values this library surfaces to its callers.

use crate::db_entries::Tmpl;
use vstd::prelude::*;

verus! {

/// Everything that can go wrong while building or packing a deck.
#[derive(Debug)]
pub enum Error {
    /// The embedded database layer reported a failure.
    Database(String),
    /// A question pattern could not be parsed or rendered.
    Template(String),
    /// Requirement inference found no field subset that governs this
    /// template's question side.
    TemplateFormat(Tmpl),
    /// A note's field count disagrees with its note-type's field count:
    /// the note-type expects the first number, the note supplied the second.
    ModelFieldCountMismatch(usize, usize),
    /// A tag contains whitespace.
    TagContainsWhitespace,
    /// A media path has no base filename.
    MalformedMediaPath(String),
    /// The identifier sequence would leave the signed 64-bit range.
    IdentifierOverflow,
    /// The archive layer reported a failure.
    Zip(String),
    /// An input or output operation failed.
    Io(String),
}

} // verus!
