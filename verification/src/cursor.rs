//! The line cursor: a position into a cleaned line sequence, advanced by
//! the block parsers, which consume a variable number of lines each.

use vstd::prelude::*;

use crate::text::str_views;

verus! {

/// A read-only position into a cleaned line sequence.
pub struct Cursor<'a> {
    lines: &'a Vec<String>,
    pos: usize,
}

impl<'a> Cursor<'a> {
    /// The whole underlying line sequence.
    pub closed spec fn lines_view(&self) -> Seq<Seq<char>> {
        str_views(self.lines@)
    }

    /// The current position.
    pub closed spec fn pos_view(&self) -> int {
        self.pos as int
    }

    /// The cursor's invariant: the position never passes the end.
    pub open spec fn wf(&self) -> bool {
        0 <= self.pos_view() <= self.lines_view().len()
    }

    /// The lines not yet consumed.
    pub open spec fn remaining(&self) -> Seq<Seq<char>> {
        self.lines_view().skip(self.pos_view())
    }

    /// A cursor at the start of `lines`.
    pub fn new(lines: &'a Vec<String>) -> (r: Cursor<'a>)
        ensures
            r.wf(),
            r.lines_view() == str_views(lines@),
            r.pos_view() == 0,
    {
        Cursor { lines, pos: 0 }
    }

    /// Whether any line is left.
    pub fn has_next(&self) -> (r: bool)
        ensures
            r == (self.pos_view() < self.lines_view().len()),
    {
        self.pos < self.lines.len()
    }

    /// Consume and return the next line, if any; a cursor at the end stays
    /// where it is.
    pub fn next(&mut self) -> (r: Option<&'a String>)
        requires
            old(self).wf(),
        ensures
            final(self).wf(),
            final(self).lines_view() == old(self).lines_view(),
            match r {
                Some(s) => old(self).pos_view() < old(self).lines_view().len() && s@ == old(
                    self,
                ).lines_view()[old(self).pos_view()] && final(self).pos_view() == old(
                    self,
                ).pos_view() + 1,
                None => old(self).pos_view() == old(self).lines_view().len() && final(self).pos_view()
                    == old(self).pos_view(),
            },
    {
        if self.pos < self.lines.len() {
            let s = &self.lines[self.pos];
            self.pos = self.pos + 1;
            Some(s)
        } else {
            None
        }
    }
}

} // verus!
