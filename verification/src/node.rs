//! Nodes: things made of token references, such as tokens or function definitions.
use vstd::prelude::*;

use crate::position::Position;
use crate::text::push_chars;
use crate::tokenizer::{clone_tokens, display_references, Token, TokenReference, TokenReferenceView};

verus! {

/// The earlier of two positions, by bytes; the first of them when they are as early.
pub open spec fn min_position(x: Position, y: Position) -> Position {
    if x.bytes <= y.bytes {
        x
    } else {
        y
    }
}

/// The later of two positions, by bytes; the second of them when they are as late.
pub open spec fn max_position(x: Position, y: Position) -> Position {
    if y.bytes >= x.bytes {
        y
    } else {
        x
    }
}

/// The range from `start` to `end`, when both are known.
pub open spec fn spec_range(start: Option<Position>, end: Option<Position>) -> Option<
    (Position, Position),
> {
    match (start, end) {
        (Some(s), Some(e)) => Some((s, e)),
        _ => None,
    }
}

/// The token references that comprise a node, in order.
pub struct Tokens {
    items: Vec<TokenReference>,
}

impl View for Tokens {
    type V = Seq<TokenReferenceView>;

    closed spec fn view(&self) -> Seq<TokenReferenceView> {
        self.items@.map_values(|t: TokenReference| t@)
    }
}

impl Tokens {
    /// No token references.
    pub(crate) fn empty() -> (r: Self)
        ensures
            r@ == Seq::<TokenReferenceView>::empty(),
    {
        let r = Tokens { items: Vec::new() };
        assert(r@ =~= Seq::<TokenReferenceView>::empty());
        r
    }

    /// The token references of `self`, then those of `other`.
    pub(crate) fn append(&mut self, other: Tokens)
        ensures
            final(self)@ == old(self)@ + other@,
    {
        let ghost added = other@;
        let ghost before = self.items@;
        let mut other = other;
        self.items.append(&mut other.items);
        assert forall|i: int| 0 <= i < self@.len() implies self@[i] == (old(self)@ + added)[i] by {
            if i < before.len() {
                assert(self.items@[i] == before[i]);
            }
        }
        assert(self@ =~= old(self)@ + added);
    }

    /// The first token reference, taken out.
    pub fn next(&mut self) -> (r: Option<TokenReference>)
        ensures
            old(self)@.len() == 0 ==> r is None && final(self)@ == old(self)@,
            old(self)@.len() > 0 ==> (r matches Some(t) && t@ == old(self)@[0]) && final(self)@
                == old(self)@.drop_first(),
    {
        if self.items.len() == 0 {
            None
        } else {
            let t = self.items.remove(0);
            assert(self@ =~= old(self)@.drop_first());
            Some(t)
        }
    }

    /// The last token reference, taken out.
    pub fn next_back(&mut self) -> (r: Option<TokenReference>)
        ensures
            old(self)@.len() == 0 ==> r is None && final(self)@ == old(self)@,
            old(self)@.len() > 0 ==> (r matches Some(t) && t@ == old(self)@.last())
                && final(self)@ == old(self)@.drop_last(),
    {
        let r = self.items.pop();
        if r.is_some() {
            assert(self@ =~= old(self)@.drop_last());
        }
        r
    }

    /// The number of token references left.
    pub fn len(&self) -> (r: usize)
        ensures
            r == self@.len(),
    {
        self.items.len()
    }

    /// The text of the token references, one after the other.
    pub(crate) fn text(&self) -> (r: Vec<char>)
        ensures
            r@ == display_references(self@),
    {
        let mut r: Vec<char> = Vec::new();
        let mut i: usize = 0;
        while i < self.items.len()
            invariant
                i <= self.items@.len(),
                r@ == display_references(self@.take(i as int)),
            decreases self.items@.len() - i,
        {
            let chars = self.items[i].display_chars();
            push_chars(&mut r, &chars);
            i += 1;
            assert(self@.take(i as int).drop_last() =~= self@.take(i - 1));
        }
        assert(self@.take(self@.len() as int) =~= self@);
        r
    }
}

/// Used to represent nodes such as tokens or function definitions
pub trait Node {
    /// The start position of a node. None if it can't be determined
    spec fn spec_start_position(&self) -> Option<Position>;

    /// The end position of a node. None if it can't be determined
    spec fn spec_end_position(&self) -> Option<Position>;

    /// Whether another node of the same type is the same as this one semantically, ignoring
    /// position
    spec fn spec_similar(&self, other: &Self) -> bool;

    /// The token references that comprise a node
    spec fn spec_tokens(&self) -> Seq<TokenReferenceView>;

    /// The start position of a node. None if it can't be determined
    fn start_position(&self) -> (r: Option<Position>)
        ensures
            r == self.spec_start_position(),
    ;

    /// The end position of a node. None if it can't be determined
    fn end_position(&self) -> (r: Option<Position>)
        ensures
            r == self.spec_end_position(),
    ;

    /// Whether another node of the same type is the same as this one semantically, ignoring
    /// position
    fn similar(&self, other: &Self) -> (r: bool)
        ensures
            r == self.spec_similar(other),
    ;

    /// The token references that comprise a node
    fn tokens(&self) -> (r: Tokens)
        ensures
            r@ == self.spec_tokens(),
    ;

    /// The full range of a node, if it has both start and end positions
    fn range(&self) -> (r: Option<(Position, Position)>)
        ensures
            r == spec_range(self.spec_start_position(), self.spec_end_position()),
    {
        match self.start_position() {
            Some(start) => match self.end_position() {
                Some(end) => Some((start, end)),
                None => None,
            },
            None => None,
        }
    }

    /// The tokens surrounding a node that are ignored and not accessible through the node's
    /// own accessors: the leading trivia of its first token reference, and the trailing
    /// trivia of its last one.
    fn surrounding_trivia(&self) -> (r: (Vec<Token>, Vec<Token>))
        ensures
            self.spec_tokens().len() == 0 ==> r.0@.len() == 0 && r.1@.len() == 0,
            self.spec_tokens().len() > 0 ==> r.0@ == self.spec_tokens()[0].0,
            self.spec_tokens().len() > 0 ==> r.1@ == self.spec_tokens().last().2,
    {
        let tokens = self.tokens();
        let n = tokens.items.len();
        if n == 0 {
            (Vec::new(), Vec::new())
        } else {
            assert(tokens@[0] == tokens.items@[0]@);
            assert(tokens@.last() == tokens.items@[n - 1]@);
            (
                clone_tokens(&tokens.items[0].leading_trivia),
                clone_tokens(&tokens.items[n - 1].trailing_trivia),
            )
        }
    }
}

impl Node for TokenReference {
    open spec fn spec_start_position(&self) -> Option<Position> {
        Some(self.token.start_position)
    }

    open spec fn spec_end_position(&self) -> Option<Position> {
        Some(self.token.end_position)
    }

    open spec fn spec_similar(&self, other: &Self) -> bool {
        self.token.token_type.spec_same(&other.token.token_type)
    }

    open spec fn spec_tokens(&self) -> Seq<TokenReferenceView> {
        seq![self@]
    }

    fn start_position(&self) -> (r: Option<Position>) {
        Some(self.token.start_position)
    }

    fn end_position(&self) -> (r: Option<Position>) {
        Some(self.token.end_position)
    }

    fn similar(&self, other: &Self) -> (r: bool) {
        self.token.token_type.same_as(&other.token.token_type)
    }

    fn tokens(&self) -> (r: Tokens) {
        let mut items: Vec<TokenReference> = Vec::new();
        items.push(self.clone());
        let r = Tokens { items };
        assert(r@ =~= seq![self@]);
        r
    }
}

impl<T: Node> Node for Box<T> {
    open spec fn spec_start_position(&self) -> Option<Position> {
        (**self).spec_start_position()
    }

    open spec fn spec_end_position(&self) -> Option<Position> {
        (**self).spec_end_position()
    }

    open spec fn spec_similar(&self, other: &Self) -> bool {
        (**self).spec_similar(&**other)
    }

    open spec fn spec_tokens(&self) -> Seq<TokenReferenceView> {
        (**self).spec_tokens()
    }

    fn start_position(&self) -> (r: Option<Position>) {
        (**self).start_position()
    }

    fn end_position(&self) -> (r: Option<Position>) {
        (**self).end_position()
    }

    fn similar(&self, other: &Self) -> (r: bool) {
        (**self).similar(&**other)
    }

    fn tokens(&self) -> (r: Tokens) {
        (**self).tokens()
    }
}

impl<T: Node> Node for Option<T> {
    open spec fn spec_start_position(&self) -> Option<Position> {
        match self {
            Some(node) => node.spec_start_position(),
            None => None,
        }
    }

    open spec fn spec_end_position(&self) -> Option<Position> {
        match self {
            Some(node) => node.spec_end_position(),
            None => None,
        }
    }

    open spec fn spec_similar(&self, other: &Self) -> bool {
        match (self, other) {
            (Some(x), Some(y)) => x.spec_similar(y),
            (None, None) => true,
            _ => false,
        }
    }

    open spec fn spec_tokens(&self) -> Seq<TokenReferenceView> {
        match self {
            Some(node) => node.spec_tokens(),
            None => Seq::empty(),
        }
    }

    fn start_position(&self) -> (r: Option<Position>) {
        match self {
            Some(node) => node.start_position(),
            None => None,
        }
    }

    fn end_position(&self) -> (r: Option<Position>) {
        match self {
            Some(node) => node.end_position(),
            None => None,
        }
    }

    fn similar(&self, other: &Self) -> (r: bool) {
        match (self, other) {
            (Some(x), Some(y)) => x.similar(y),
            (None, None) => true,
            _ => false,
        }
    }

    fn tokens(&self) -> (r: Tokens) {
        match self {
            Some(node) => node.tokens(),
            None => Tokens::empty(),
        }
    }
}

/// The token references of the nodes `s`, one node after the other.
pub open spec fn flat_tokens<T: Node>(s: Seq<T>) -> Seq<TokenReferenceView>
    decreases s.len(),
{
    if s.len() == 0 {
        Seq::empty()
    } else {
        flat_tokens(s.drop_last()) + s.last().spec_tokens()
    }
}

/// The token references of two runs of nodes are those of the first run, then those of the
/// second.
pub proof fn lemma_flat_tokens_append<T: Node>(a: Seq<T>, b: Seq<T>)
    ensures
        flat_tokens(a + b) == flat_tokens(a) + flat_tokens(b),
    decreases b.len(),
{
    if b.len() == 0 {
        assert(a + b =~= a);
        assert(flat_tokens(a) + Seq::<TokenReferenceView>::empty() =~= flat_tokens(a));
    } else {
        lemma_flat_tokens_append(a, b.drop_last());
        assert((a + b).drop_last() =~= a + b.drop_last());
        assert((a + b).last() == b.last());
        assert(flat_tokens(a) + flat_tokens(b.drop_last()) + b.last().spec_tokens() =~= flat_tokens(a)
            + (flat_tokens(b.drop_last()) + b.last().spec_tokens()));
    }
}

impl<T: Node> Node for Vec<T> {
    open spec fn spec_start_position(&self) -> Option<Position> {
        if self@.len() == 0 {
            None
        } else {
            self@[0].spec_start_position()
        }
    }

    open spec fn spec_end_position(&self) -> Option<Position> {
        if self@.len() == 0 {
            None
        } else {
            self@.last().spec_end_position()
        }
    }

    open spec fn spec_similar(&self, other: &Self) -> bool {
        &&& self@.len() == other@.len()
        &&& forall|i: int| 0 <= i < self@.len() ==> #[trigger] self@[i].spec_similar(&other@[i])
    }

    open spec fn spec_tokens(&self) -> Seq<TokenReferenceView> {
        flat_tokens(self@)
    }

    fn start_position(&self) -> (r: Option<Position>) {
        if self.len() == 0 {
            None
        } else {
            let first = &self[0];
            assert(*first == self@[0]);
            let r = Node::start_position(first);
            assert(r == self@[0].spec_start_position());
            assert(self.spec_start_position() == self@[0].spec_start_position());
            r
        }
    }

    fn end_position(&self) -> (r: Option<Position>) {
        if self.len() == 0 {
            None
        } else {
            let last = &self[self.len() - 1];
            assert(*last == self@.last());
            Node::end_position(last)
        }
    }

    fn similar(&self, other: &Self) -> (r: bool) {
        if self.len() != other.len() {
            return false;
        }
        let mut i: usize = 0;
        while i < self.len()
            invariant
                i <= self@.len(),
                self@.len() == other@.len(),
                forall|k: int| 0 <= k < i ==> #[trigger] self@[k].spec_similar(&other@[k]),
            decreases self@.len() - i,
        {
            if !self[i].similar(&other[i]) {
                return false;
            }
            i += 1;
        }
        true
    }

    fn tokens(&self) -> (r: Tokens) {
        let mut r = Tokens::empty();
        let mut i: usize = 0;
        while i < self.len()
            invariant
                i <= self@.len(),
                r@ == flat_tokens(self@.take(i as int)),
            decreases self@.len() - i,
        {
            r.append(self[i].tokens());
            i += 1;
            assert(self@.take(i as int).drop_last() =~= self@.take(i - 1));
        }
        assert(self@.take(self@.len() as int) =~= self@);
        r
    }
}

impl<A: Node, B: Node> Node for (A, B) {
    open spec fn spec_start_position(&self) -> Option<Position> {
        match (self.0.spec_start_position(), self.1.spec_start_position()) {
            (Some(x), Some(y)) => Some(min_position(x, y)),
            (Some(x), None) => Some(x),
            (None, Some(y)) => Some(y),
            (None, None) => None,
        }
    }

    open spec fn spec_end_position(&self) -> Option<Position> {
        match (self.0.spec_end_position(), self.1.spec_end_position()) {
            (Some(x), Some(y)) => Some(max_position(x, y)),
            (Some(x), None) => Some(x),
            (None, Some(y)) => Some(y),
            (None, None) => None,
        }
    }

    open spec fn spec_similar(&self, other: &Self) -> bool {
        self.0.spec_similar(&other.0) && self.1.spec_similar(&other.1)
    }

    open spec fn spec_tokens(&self) -> Seq<TokenReferenceView> {
        self.0.spec_tokens() + self.1.spec_tokens()
    }

    fn start_position(&self) -> (r: Option<Position>) {
        match (self.0.start_position(), self.1.start_position()) {
            (Some(x), Some(y)) => Some(
                if x.bytes <= y.bytes {
                    x
                } else {
                    y
                },
            ),
            (Some(x), None) => Some(x),
            (None, Some(y)) => Some(y),
            (None, None) => None,
        }
    }

    fn end_position(&self) -> (r: Option<Position>) {
        match (self.0.end_position(), self.1.end_position()) {
            (Some(x), Some(y)) => Some(
                if y.bytes >= x.bytes {
                    y
                } else {
                    x
                },
            ),
            (Some(x), None) => Some(x),
            (None, Some(y)) => Some(y),
            (None, None) => None,
        }
    }

    fn similar(&self, other: &Self) -> (r: bool) {
        self.0.similar(&other.0) && self.1.similar(&other.1)
    }

    fn tokens(&self) -> (r: Tokens) {
        let mut r = self.0.tokens();
        r.append(self.1.tokens());
        r
    }
}

} // verus!
