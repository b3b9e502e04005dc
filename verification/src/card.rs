//! A single study card generated from a note.

use vstd::prelude::*;

verus! {

/// One card of a note: the ordinal says which template (or which cloze
/// deletion group) the card corresponds to; a suspended card starts out of
/// the review queue.
#[derive(Clone, Copy, Debug, PartialEq, Eq, Structural)]
pub struct Card {
    pub ord: i64,
    pub suspend: bool,
}

impl Card {
    /// Creates a card for the template or deletion group `ord`.
    pub fn new(ord: i64, suspend: bool) -> (c: Card)
        ensures
            c.ord == ord,
            c.suspend == suspend,
    {
        Card { ord, suspend }
    }

    /// The template or deletion-group ordinal this card corresponds to.
    pub fn ord(&self) -> (r: i64)
        ensures
            r == self.ord,
    {
        self.ord
    }
}

} // verus!
