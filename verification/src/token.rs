//! Tokens and lexical errors. One token per lexical unit of the language;
//! errors carry the kind of fault and the character offset at which scanning
//! stopped.

use vstd::prelude::*;
use crate::label::Label;
use crate::machine::Direction;

verus! {

/// One lexical unit of the transition-table language.
#[derive(Debug)]
pub enum Token {
    /// Guard on the symbol under the tape head.
    If(char),
    /// Negated guard on the symbol under the tape head.
    IfNot(char),
    /// Symbol to write.
    Write(char),
    /// Head movement.
    Move(Direction),
    /// Reference to a label name, interned in the label store.
    Goto(Label),
    /// A label declaration heading a block, interned in the label store.
    Heading(Label),
    /// Terminal accept marker.
    Accept,
    /// Terminal reject marker.
    Reject,
}

/// The kinds of lexical fault the tokenizer surfaces.
#[derive(Clone, Copy, PartialEq, Eq, Structural, Debug)]
pub enum ErrorKind {
    /// A `0x` escape with no hexadecimal digits, or whose digits do not
    /// form a Unicode scalar value.
    MalformedSymbol,
    /// A block comment with no matching closer before end of stream.
    UnterminatedBlockComment,
    /// A label whose leading word is a reserved keyword at a word boundary.
    ReservedWordConflict,
    /// End of stream reached in the middle of a production.
    UnexpectedEndOfStream,
    /// A character that no production allows at its position.
    UnexpectedCharacter,
    /// `move` not followed by `left` or `right`.
    ExpectedDirection,
}

/// A lexical fault: its kind, and the character offset (counted from the
/// start of the source) at which the offending unit begins.
#[derive(Clone, Copy, PartialEq, Eq, Structural, Debug)]
pub struct LexError {
    pub kind: ErrorKind,
    pub offset: usize,
}

} // verus!
