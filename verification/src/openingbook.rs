//! Opening books: a Polyglot book when one is loaded, else the built-in book.
pub mod builtin;
pub mod polyglot;

use vstd::prelude::*;
use crate::board::position::{Move, Position};
use crate::openingbook::builtin::builtin_book;
use crate::openingbook::polyglot::{PolyglotBook, sorted_by_key};

verus! {

pub struct OpeningBook {
    polyglot: Option<PolyglotBook>,
    enabled: bool,
}

impl OpeningBook {
    /// The Polyglot book, if one is loaded.
    pub closed spec fn polyglot_spec(&self) -> Option<PolyglotBook> {
        self.polyglot
    }

    /// The book is consulted.
    pub closed spec fn enabled_spec(&self) -> bool {
        self.enabled
    }

    /// An enabled book without a Polyglot file.
    pub fn new() -> (b: Self)
        ensures
            b.enabled_spec(),
            b.polyglot_spec() is None,
    {
        OpeningBook { polyglot: None, enabled: true }
    }

    /// Loads a Polyglot book from the bytes of its file; on an error the book is
    /// unchanged.
    pub fn load_polyglot(&mut self, bytes: &[u8]) -> (r: Result<(), String>)
        ensures
            final(self).enabled_spec() == old(self).enabled_spec(),
            bytes@.len() % 16 != 0 <==> r is Err,
            r matches Err(e) ==> e@ == "Invalid polyglot file: size not multiple of 16"@ && *final(self) == *old(self),
            r is Ok ==> (final(self).polyglot_spec() matches Some(b)
                && b.entries_spec() == Seq::new((bytes@.len() / 16) as nat, |i: int| polyglot::entry_at(bytes@, i))),
    {
        match PolyglotBook::load(bytes) {
            Ok(b) => {
                self.polyglot = Some(b);
                Ok(())
            },
            Err(e) => Err(e),
        }
    }

    pub fn disable(&mut self)
        ensures
            !final(self).enabled_spec(),
            final(self).polyglot_spec() == old(self).polyglot_spec(),
    {
        self.enabled = false;
    }

    pub fn enable(&mut self)
        ensures
            final(self).enabled_spec(),
            final(self).polyglot_spec() == old(self).polyglot_spec(),
    {
        self.enabled = true;
    }

    /// A book move for the position, if any: the Polyglot book first, then the built-in
    /// one (which holds no decoded moves).
    pub fn probe(&self, pos: &Position) -> (r: Option<Move>)
        requires
            self.polyglot_spec() matches Some(b) ==> sorted_by_key(b.entries_spec()),
        ensures
            r == (if !self.enabled_spec() {
                None
            } else {
                match self.polyglot_spec() {
                    Some(b) => polyglot::probe_spec(b.entries_spec(), pos.hash),
                    None => None,
                }
            }),
    {
        if !self.enabled {
            return None;
        }
        match &self.polyglot {
            Some(pg) => {
                match pg.probe(pos.hash) {
                    Some(mv) => return Some(mv),
                    None => {},
                }
            },
            None => {},
        }
        builtin_book().probe(pos.hash)
    }
}

impl Default for OpeningBook {
    fn default() -> (b: Self)
        ensures
            b.enabled_spec(),
            b.polyglot_spec() is None,
    {
        Self::new()
    }
}

} // verus!
