//! A contained span: a span within specific bounds, such as the parentheses `(...)` around
//! the arguments of a call, the brackets `[...]` of an index, or the braces `{...}` of a
//! table. A contained span holds the bounds, not what is between them.
use vstd::prelude::*;

use crate::node::{Node, Tokens};
use crate::position::Position;
use crate::tokenizer::{TokenReference, TokenReferenceView};

verus! {

/// A contained span with the beginning and ending bounds.
#[derive(Debug)]
pub struct ContainedSpan {
    tokens: (TokenReference, TokenReference),
}

impl Clone for ContainedSpan {
    fn clone(&self) -> (r: Self)
        ensures
            r.spec_bounds().0@ == self.spec_bounds().0@,
            r.spec_bounds().1@ == self.spec_bounds().1@,
    {
        ContainedSpan { tokens: (self.tokens.0.clone(), self.tokens.1.clone()) }
    }
}

impl ContainedSpan {
    /// The start and end bounds.
    pub closed spec fn spec_bounds(&self) -> (TokenReference, TokenReference) {
        self.tokens
    }

    /// Creates a contained span from the start and end bounds
    pub fn new(start: TokenReference, end: TokenReference) -> (r: Self)
        ensures
            r.spec_bounds() == (start, end),
    {
        ContainedSpan { tokens: (start, end) }
    }

    /// Returns the start and end bounds in a tuple as references
    pub fn tokens(&self) -> (r: (&TokenReference, &TokenReference))
        ensures
            *r.0 == self.spec_bounds().0,
            *r.1 == self.spec_bounds().1,
    {
        (&self.tokens.0, &self.tokens.1)
    }
}

impl Node for ContainedSpan {
    open spec fn spec_start_position(&self) -> Option<Position> {
        Some(self.spec_bounds().0.token.start_position)
    }

    open spec fn spec_end_position(&self) -> Option<Position> {
        Some(self.spec_bounds().1.token.end_position)
    }

    open spec fn spec_similar(&self, other: &Self) -> bool {
        self.spec_bounds().0.spec_similar(&other.spec_bounds().0) && self.spec_bounds().1.spec_similar(
            &other.spec_bounds().1,
        )
    }

    open spec fn spec_tokens(&self) -> Seq<TokenReferenceView> {
        seq![self.spec_bounds().0@, self.spec_bounds().1@]
    }

    fn start_position(&self) -> (r: Option<Position>) {
        Node::start_position(&self.tokens.0)
    }

    fn end_position(&self) -> (r: Option<Position>) {
        Node::end_position(&self.tokens.1)
    }

    fn similar(&self, other: &Self) -> (r: bool) {
        self.tokens.0.similar(&other.tokens.0) && self.tokens.1.similar(&other.tokens.1)
    }

    fn tokens(&self) -> (r: Tokens) {
        let r = Node::tokens(&self.tokens);
        assert(r@ =~= seq![self.spec_bounds().0@, self.spec_bounds().1@]);
        r
    }
}

} // verus!
