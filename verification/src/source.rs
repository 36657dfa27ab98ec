use vstd::prelude::*;

use crate::position::{is_position_at, lemma_position_bounds, source_fits, Position};

verus! {

/// A place in the source: the position reached and the index of the next character.
#[derive(Clone, Copy)]
pub(crate) struct LexerPosition {
    pub(crate) position: Position,
    pub(crate) index: usize,
}

impl LexerPosition {
    /// The place before the first character.
    pub(crate) fn new() -> (r: Self)
        ensures
            r.index == 0,
            r.position == (Position { bytes: 0, line: 1, character: 1 }),
    {
        LexerPosition { position: Position { line: 1, character: 1, bytes: 0 }, index: 0 }
    }
}

/// The characters of a source, with a cursor that tracks the position reached.
pub struct LexerSource {
    source: Vec<char>,
    lexer_position: LexerPosition,
}

impl LexerSource {
    /// The characters of the source.
    pub closed spec fn text(&self) -> Seq<char> {
        self.source@
    }

    /// The index of the next character to read.
    pub closed spec fn index(&self) -> int {
        self.lexer_position.index as int
    }

    /// The position reached.
    pub closed spec fn spec_position(&self) -> Position {
        self.lexer_position.position
    }

    /// The cursor lies within the source and its position is the one reached there.
    pub closed spec fn wf(&self) -> bool {
        &&& source_fits(self.source@)
        &&& self.lexer_position.index <= self.source@.len()
        &&& is_position_at(self.lexer_position.position, self.source@, self.lexer_position.index as int)
    }

    /// The cursor of this source, as a place that can be returned to.
    pub(crate) closed spec fn spec_checkpoint(&self) -> LexerPosition {
        self.lexer_position
    }

    /// A valid place to return to in `s`.
    pub(crate) open spec fn is_place_in(p: LexerPosition, s: Seq<char>) -> bool {
        &&& p.index <= s.len()
        &&& is_position_at(p.position, s, p.index as int)
    }

    /// Starts reading `source` from its beginning.
    pub fn new(source: &str) -> (r: Self)
        requires
            source_fits(source@),
        ensures
            r.wf(),
            r.text() == source@,
            r.index() == 0,
    {
        let source = crate::text::chars_of(source);
        LexerSource { source, lexer_position: LexerPosition::new() }
    }

    /// Starts reading the characters `source` from their beginning.
    pub fn from_chars(source: Vec<char>) -> (r: Self)
        requires
            source_fits(source@),
        ensures
            r.wf(),
            r.text() == source@,
            r.index() == 0,
    {
        LexerSource { source, lexer_position: LexerPosition::new() }
    }

    /// The next character, if any is left.
    pub(crate) fn current(&self) -> (r: Option<char>)
        requires
            self.wf(),
        ensures
            r == (if self.index() < self.text().len() {
                Some(self.text()[self.index()])
            } else {
                None::<char>
            }),
    {
        if self.lexer_position.index < self.source.len() {
            Some(self.source[self.lexer_position.index])
        } else {
            None
        }
    }

    /// The character after the next one, if there is one.
    pub(crate) fn peek(&self) -> (r: Option<char>)
        requires
            self.wf(),
        ensures
            r == (if self.index() + 1 < self.text().len() {
                Some(self.text()[self.index() + 1])
            } else {
                None::<char>
            }),
    {
        if self.lexer_position.index + 1 < self.source.len() {
            Some(self.source[self.lexer_position.index + 1])
        } else {
            None
        }
    }

    /// Reads the next character, moving the cursor past it.
    pub(crate) fn next(&mut self) -> (r: Option<char>)
        requires
            old(self).wf(),
        ensures
            final(self).wf(),
            final(self).text() == old(self).text(),
            old(self).index() < old(self).text().len() ==> {
                &&& r == Some(old(self).text()[old(self).index()])
                &&& final(self).index() == old(self).index() + 1
            },
            old(self).index() >= old(self).text().len() ==> {
                &&& r is None
                &&& final(self).index() == old(self).index()
            },
    {
        let next = match self.current() {
            Some(c) => c,
            None => return None,
        };
        let ghost s = self.source@;
        let ghost i = self.lexer_position.index as int;
        proof {
            lemma_position_bounds(s, i);
        }
        let len = crate::position::len_utf8(next);
        if next == '\n' {
            self.lexer_position.position.line = self.lexer_position.position.line + 1;
            self.lexer_position.position.character = 1;
        } else {
            self.lexer_position.position.character = self.lexer_position.position.character + 1;
        }
        self.lexer_position.position.bytes = self.lexer_position.position.bytes + len;
        self.lexer_position.index = self.lexer_position.index + 1;
        Some(next)
    }

    /// Reads the next character if it is `character`.
    pub(crate) fn consume(&mut self, character: char) -> (r: bool)
        requires
            old(self).wf(),
        ensures
            final(self).wf(),
            final(self).text() == old(self).text(),
            r == (old(self).index() < old(self).text().len() && old(self).text()[old(self).index()]
                == character),
            final(self).index() == old(self).index() + if r { 1int } else { 0int },
    {
        if self.current() == Some(character) {
            self.next();
            true
        } else {
            false
        }
    }

    /// The position reached.
    pub(crate) fn position(&self) -> (r: Position)
        requires
            self.wf(),
        ensures
            r == self.spec_position(),
            is_position_at(r, self.text(), self.index()),
    {
        self.lexer_position.position
    }

    /// The place reached, to return to later.
    pub(crate) fn checkpoint(&self) -> (r: LexerPosition)
        requires
            self.wf(),
        ensures
            r == self.spec_checkpoint(),
            r.index == self.index(),
            Self::is_place_in(r, self.text()),
    {
        self.lexer_position
    }

    /// A well formed source fits, and its cursor lies within it.
    pub proof fn lemma_wf(&self)
        requires
            self.wf(),
        ensures
            source_fits(self.text()),
            0 <= self.index() <= self.text().len(),
            is_position_at(self.spec_position(), self.text(), self.index()),
    {
    }

    /// The characters of the source.
    pub(crate) fn chars(&self) -> (r: &[char])
        ensures
            r@ == self.text(),
    {
        self.source.as_slice()
    }

    /// Reads characters until the cursor is at index `j`.
    pub(crate) fn advance_to(&mut self, j: usize)
        requires
            old(self).wf(),
            old(self).index() <= j <= old(self).text().len(),
        ensures
            final(self).wf(),
            final(self).text() == old(self).text(),
            final(self).index() == j,
    {
        while self.lexer_position.index < j
            invariant
                self.wf(),
                self.text() == old(self).text(),
                self.index() <= j,
                j <= self.text().len(),
            decreases j - self.index(),
        {
            self.next();
        }
    }

    /// Returns to a place reached earlier.
    pub(crate) fn restore(&mut self, place: LexerPosition)
        requires
            old(self).wf(),
            Self::is_place_in(place, old(self).text()),
        ensures
            final(self).wf(),
            final(self).text() == old(self).text(),
            final(self).index() == place.index,
            final(self).spec_checkpoint() == place,
    {
        self.lexer_position = place;
    }
}

} // verus!
