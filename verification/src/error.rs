//! What can be wrong with a request, and with a feed.

use vstd::prelude::*;

verus! {

/// Why an expression cannot be made: the grammar of the API has no form
/// for it.
#[derive(Debug, Clone, Copy, PartialEq, Eq)]
pub enum ContractError {
    /// A combinator was given no operand.
    NoOperand,
    /// An end of a date range is not twelve digits.
    Timestamp,
    /// A date range is an operand of a combinator other than `and`.
    Range,
}

/// Why a document could not be read as a feed. No papers are handed out
/// together with such an error.
#[derive(Debug, Clone, Copy, PartialEq, Eq)]
pub enum MalformedFeedError {
    /// The XML is not well-formed.
    Syntax,
    /// The text of a field holds a reference that cannot be resolved: it
    /// names no entity that XML defines, has no `;` behind it, or is a
    /// character reference that stands for no character.
    Entity,
    /// A malformed attribute stands before the `term` of a `category`.
    Attribute,
}

} // verus!
