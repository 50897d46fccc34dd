//! Plain value types for transition tables: the tape-head direction and one
//! transition record. These carry no algorithmic content; the tokenizer
//! produces the data an external table builder assembles them from.

use vstd::prelude::*;

verus! {

/// Which way the tape head moves after a transition.
#[derive(Clone, Copy, PartialEq, Eq, Structural, Debug)]
pub enum Direction {
    Left,
    Right,
}

/// A machine state, identified by number.
pub type State = isize;

/// One tape alphabet character.
pub type Symbol = char;

/// One row of a transition table: in state `from`, reading `read`, write
/// `write`, move the head `next`, and go to state `goto`.
pub struct Transition {
    pub from: State,
    pub goto: State,
    pub read: Symbol,
    pub write: Symbol,
    pub next: Direction,
}

impl Transition {
    /// Builds the record with exactly the given fields.
    pub fn new(from: State, goto: State, read: Symbol, write: Symbol, next: Direction) -> (r: Self)
        ensures
            r.from == from,
            r.goto == goto,
            r.read == read,
            r.write == write,
            r.next == next,
    {
        Self { from, goto, read, write, next }
    }
}

} // verus!
