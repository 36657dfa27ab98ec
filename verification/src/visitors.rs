//! Visitors: listeners for the nodes and tokens of a tree, which it hands them to in order.
use vstd::prelude::*;

use crate::ast::{Ast, Block};
use crate::tokenizer::{Token, TokenKind, TokenReference};

verus! {

/// The hook, after [`Visitor::visit_token`], that a token of some kind is handed to.
#[derive(Clone, Copy, Debug, PartialEq, Eq, Structural)]
pub enum TokenHook {
    /// [`Visitor::visit_identifier`]
    Identifier,
    /// [`Visitor::visit_multi_line_comment`]
    MultiLineComment,
    /// [`Visitor::visit_number`]
    Number,
    /// [`Visitor::visit_single_line_comment`]
    SingleLineComment,
    /// [`Visitor::visit_string_literal`]
    StringLiteral,
    /// [`Visitor::visit_symbol`]
    Symbol,
    /// [`Visitor::visit_whitespace`]
    Whitespace,
    /// [`Visitor::visit_interpolated_string_segment`]
    InterpolatedStringSegment,
}

/// The hook a token of kind `kind` is handed to: none for the end of file and shebangs.
pub open spec fn spec_token_hook(kind: TokenKind) -> Option<TokenHook> {
    match kind {
        TokenKind::Eof => None,
        TokenKind::Identifier => Some(TokenHook::Identifier),
        TokenKind::MultiLineComment => Some(TokenHook::MultiLineComment),
        TokenKind::Number => Some(TokenHook::Number),
        TokenKind::Shebang => None,
        TokenKind::SingleLineComment => Some(TokenHook::SingleLineComment),
        TokenKind::StringLiteral => Some(TokenHook::StringLiteral),
        TokenKind::Symbol => Some(TokenHook::Symbol),
        TokenKind::Whitespace => Some(TokenHook::Whitespace),
        TokenKind::InterpolatedString => Some(TokenHook::InterpolatedStringSegment),
    }
}

impl TokenHook {
    /// The kind of token this hook is named after.
    pub open spec fn named_kind(self) -> TokenKind {
        match self {
            TokenHook::Identifier => TokenKind::Identifier,
            TokenHook::MultiLineComment => TokenKind::MultiLineComment,
            TokenHook::Number => TokenKind::Number,
            TokenHook::SingleLineComment => TokenKind::SingleLineComment,
            TokenHook::StringLiteral => TokenKind::StringLiteral,
            TokenHook::Symbol => TokenKind::Symbol,
            TokenHook::Whitespace => TokenKind::Whitespace,
            TokenHook::InterpolatedStringSegment => TokenKind::InterpolatedString,
        }
    }
}

/// Every kind of token but the end of file and shebangs has a hook, the one named after it;
/// so different kinds go to different hooks, and every hook is reached by its kind.
pub proof fn law_token_hooks(kind: TokenKind, hook: TokenHook)
    ensures
        spec_token_hook(kind) is None <==> (kind == TokenKind::Eof || kind == TokenKind::Shebang),
        spec_token_hook(kind) matches Some(h) ==> h.named_kind() == kind,
        spec_token_hook(hook.named_kind()) == Some(hook),
{
}

/// The hook a token of kind `kind` is handed to, after [`Visitor::visit_token`].
pub fn token_hook(kind: TokenKind) -> (r: Option<TokenHook>)
    ensures
        r == spec_token_hook(kind),
{
    match kind {
        TokenKind::Eof => None,
        TokenKind::Identifier => Some(TokenHook::Identifier),
        TokenKind::MultiLineComment => Some(TokenHook::MultiLineComment),
        TokenKind::Number => Some(TokenHook::Number),
        TokenKind::Shebang => None,
        TokenKind::SingleLineComment => Some(TokenHook::SingleLineComment),
        TokenKind::StringLiteral => Some(TokenHook::StringLiteral),
        TokenKind::Symbol => Some(TokenHook::Symbol),
        TokenKind::Whitespace => Some(TokenHook::Whitespace),
        TokenKind::InterpolatedString => Some(TokenHook::InterpolatedStringSegment),
    }
}

/// A trait that implements functions to listen for specific nodes/tokens. Unlike
/// [`VisitorMut`], nodes/tokens passed are immutable.
///
/// The visitor is handed to each hook and handed back by it, so that what a hook makes of it
/// is the hook's result: by default, the visitor unchanged.
pub trait Visitor: Sized {
    #[allow(missing_docs)]
    fn visit_eof(self, _node: &TokenReference) -> (r: Self)
        default_ensures
            r == self,
    {
        self
    }

    #[allow(missing_docs)]
    fn visit_token(self, _token: &Token) -> (r: Self)
        default_ensures
            r == self,
    {
        self
    }

    #[allow(missing_docs)]
    fn visit_identifier(self, _token: &Token) -> (r: Self)
        default_ensures
            r == self,
    {
        self
    }

    #[allow(missing_docs)]
    fn visit_multi_line_comment(self, _token: &Token) -> (r: Self)
        default_ensures
            r == self,
    {
        self
    }

    #[allow(missing_docs)]
    fn visit_number(self, _token: &Token) -> (r: Self)
        default_ensures
            r == self,
    {
        self
    }

    #[allow(missing_docs)]
    fn visit_single_line_comment(self, _token: &Token) -> (r: Self)
        default_ensures
            r == self,
    {
        self
    }

    #[allow(missing_docs)]
    fn visit_string_literal(self, _token: &Token) -> (r: Self)
        default_ensures
            r == self,
    {
        self
    }

    #[allow(missing_docs)]
    fn visit_symbol(self, _token: &Token) -> (r: Self)
        default_ensures
            r == self,
    {
        self
    }

    #[allow(missing_docs)]
    fn visit_whitespace(self, _token: &Token) -> (r: Self)
        default_ensures
            r == self,
    {
        self
    }

    #[allow(missing_docs)]
    fn visit_interpolated_string_segment(self, _token: &Token) -> (r: Self)
        default_ensures
            r == self,
    {
        self
    }
}

/// A trait that implements functions to listen for specific nodes/tokens. Unlike
/// [`Visitor`], nodes/tokens passed are mutable.
///
/// Each hook is handed the visitor and a node or token, and hands back both: by default, as
/// they came.
pub trait VisitorMut: Sized {
    #[allow(missing_docs)]
    fn visit_eof(self, node: TokenReference) -> (r: (Self, TokenReference))
        default_ensures
            r == (self, node),
    {
        (self, node)
    }

    #[allow(missing_docs)]
    fn visit_token_reference(self, node: TokenReference) -> (r: (Self, TokenReference))
        default_ensures
            r == (self, node),
    {
        (self, node)
    }

    #[allow(missing_docs)]
    fn visit_token(self, token: Token) -> (r: (Self, Token))
        default_ensures
            r == (self, token),
    {
        (self, token)
    }

    #[allow(missing_docs)]
    fn visit_identifier(self, token: Token) -> (r: (Self, Token))
        default_ensures
            r == (self, token),
    {
        (self, token)
    }

    #[allow(missing_docs)]
    fn visit_multi_line_comment(self, token: Token) -> (r: (Self, Token))
        default_ensures
            r == (self, token),
    {
        (self, token)
    }

    #[allow(missing_docs)]
    fn visit_number(self, token: Token) -> (r: (Self, Token))
        default_ensures
            r == (self, token),
    {
        (self, token)
    }

    #[allow(missing_docs)]
    fn visit_single_line_comment(self, token: Token) -> (r: (Self, Token))
        default_ensures
            r == (self, token),
    {
        (self, token)
    }

    #[allow(missing_docs)]
    fn visit_string_literal(self, token: Token) -> (r: (Self, Token))
        default_ensures
            r == (self, token),
    {
        (self, token)
    }

    #[allow(missing_docs)]
    fn visit_symbol(self, token: Token) -> (r: (Self, Token))
        default_ensures
            r == (self, token),
    {
        (self, token)
    }

    #[allow(missing_docs)]
    fn visit_whitespace(self, token: Token) -> (r: (Self, Token))
        default_ensures
            r == (self, token),
    {
        (self, token)
    }

    #[allow(missing_docs)]
    fn visit_interpolated_string_segment(self, token: Token) -> (r: (Self, Token))
        default_ensures
            r == (self, token),
    {
        (self, token)
    }
}

/// The hooks of a [`Visitor`] for blocks whose statements are of type `St` and whose last
/// statements are of type `La`: one before the block's statements, one after them.
pub trait BlockVisitor<St, La>: Visitor {
    #[allow(missing_docs)]
    fn visit_block(self, _node: &Block<St, La>) -> (r: Self)
        default_ensures
            r == self,
    {
        self
    }

    #[allow(missing_docs)]
    fn visit_block_end(self, _node: &Block<St, La>) -> (r: Self)
        default_ensures
            r == self,
    {
        self
    }
}

/// The hooks of a [`VisitorMut`] for blocks whose statements are of type `St` and whose last
/// statements are of type `La`: one before the block's statements, one after them.
pub trait BlockVisitorMut<St, La>: VisitorMut {
    #[allow(missing_docs)]
    fn visit_block(self, node: Block<St, La>) -> (r: (Self, Block<St, La>))
        default_ensures
            r == (self, node),
    {
        (self, node)
    }

    #[allow(missing_docs)]
    fn visit_block_end(self, node: Block<St, La>) -> (r: (Self, Block<St, La>))
        default_ensures
            r == (self, node),
    {
        (self, node)
    }
}

/// Something a [`Visitor`] of type `V` can be handed through.
pub trait Visit<V> {
    /// The visitor went from `before` to `after` by being handed this and what it holds, in
    /// order.
    spec fn spec_visited(&self, before: V, after: V) -> bool;

    /// Hands this and what it holds to the visitor, in order, and gives the visitor back.
    fn visit(&self, visitor: V) -> (r: V)
        ensures
            self.spec_visited(visitor, r),
    ;
}

/// Something a [`VisitorMut`] of type `V` can be handed through, and changed by.
pub trait VisitMut<V>: Sized {
    /// The visitor went from `before` to `after` by being handed this and what it holds, in
    /// order, and made `result` of it.
    spec fn spec_visited_mut(&self, before: V, after: V, result: Self) -> bool;

    /// Hands this and what it holds to the visitor, in order, and gives back the visitor and
    /// what it made.
    fn visit_mut(self, visitor: V) -> (r: (V, Self))
        ensures
            self.spec_visited_mut(visitor, r.0, r.1),
    ;
}

/// The visitor went from `before` to `after` by being handed the items one after the other.
pub open spec fn visited_in_order<V, T: Visit<V>>(items: Seq<T>, before: V, after: V) -> bool
    decreases items.len(),
{
    if items.len() == 0 {
        after == before
    } else {
        exists|mid: V|
            visited_in_order(items.drop_last(), before, mid) && #[trigger] items.last().spec_visited(
                mid,
                after,
            )
    }
}

/// The visitor went from `before` to `after` by being handed the items one after the other,
/// and made `results` of them, one for each.
pub open spec fn visited_mut_in_order<V, T: VisitMut<V>>(
    items: Seq<T>,
    before: V,
    after: V,
    results: Seq<T>,
) -> bool
    decreases items.len(),
{
    if items.len() == 0 {
        after == before && results.len() == 0
    } else {
        &&& results.len() == items.len()
        &&& exists|mid: V|
            visited_mut_in_order(items.drop_last(), before, mid, results.drop_last())
                && #[trigger] items.last().spec_visited_mut(mid, after, results.last())
    }
}

/// The visitor went from `before` to `after` when the hook for tokens of `token`'s kind was
/// handed `token`; a token of a kind that no hook takes leaves the visitor as it was.
pub open spec fn kind_hook_visited<V: Visitor>(before: V, token: Token, after: V) -> bool {
    match spec_token_hook(token.token_type.spec_kind()) {
        None => after == before,
        Some(TokenHook::Identifier) => call_ensures(V::visit_identifier, (before, &token), after),
        Some(TokenHook::MultiLineComment) => call_ensures(V::visit_multi_line_comment, (before, &token), after),
        Some(TokenHook::Number) => call_ensures(V::visit_number, (before, &token), after),
        Some(TokenHook::SingleLineComment) => call_ensures(V::visit_single_line_comment, (before, &token), after),
        Some(TokenHook::StringLiteral) => call_ensures(V::visit_string_literal, (before, &token), after),
        Some(TokenHook::Symbol) => call_ensures(V::visit_symbol, (before, &token), after),
        Some(TokenHook::Whitespace) => call_ensures(V::visit_whitespace, (before, &token), after),
        Some(TokenHook::InterpolatedStringSegment) => call_ensures(V::visit_interpolated_string_segment, (before, &token), after),
    }
}

/// The visitor went from `before` to `mid` when [`Visitor::visit_token`] was handed `token`,
/// then from `mid` to `after` when the hook for the token's kind was.
pub open spec fn token_visited<V: Visitor>(before: V, token: Token, mid: V, after: V) -> bool {
    call_ensures(V::visit_token, (before, &token), mid) && kind_hook_visited(mid, token, after)
}

/// The hook for tokens of `token`'s kind was handed the visitor `before` and `token`, and
/// handed back `after`; a token of a kind that no hook takes comes back as it went in.
pub open spec fn kind_hook_visited_mut<V: VisitorMut>(before: V, token: Token, after: (V, Token)) -> bool {
    match spec_token_hook(token.token_type.spec_kind()) {
        None => after == (before, token),
        Some(TokenHook::Identifier) => call_ensures(V::visit_identifier, (before, token), after),
        Some(TokenHook::MultiLineComment) => call_ensures(V::visit_multi_line_comment, (before, token), after),
        Some(TokenHook::Number) => call_ensures(V::visit_number, (before, token), after),
        Some(TokenHook::SingleLineComment) => call_ensures(V::visit_single_line_comment, (before, token), after),
        Some(TokenHook::StringLiteral) => call_ensures(V::visit_string_literal, (before, token), after),
        Some(TokenHook::Symbol) => call_ensures(V::visit_symbol, (before, token), after),
        Some(TokenHook::Whitespace) => call_ensures(V::visit_whitespace, (before, token), after),
        Some(TokenHook::InterpolatedStringSegment) => call_ensures(V::visit_interpolated_string_segment, (before, token), after),
    }
}

/// [`VisitorMut::visit_token`] was handed the visitor `before` and `token` and handed back
/// `mid`; then the hook for the kind of the token it gave back was handed `mid` and handed
/// back `after`.
pub open spec fn token_visited_mut<V: VisitorMut>(
    before: V,
    token: Token,
    mid: (V, Token),
    after: (V, Token),
) -> bool {
    call_ensures(V::visit_token, (before, token), mid) && kind_hook_visited_mut(mid.0, mid.1, after)
}

impl<V: Visitor> Visit<V> for Token {
    /// [`Visitor::visit_token`], then the hook for the token's kind.
    open spec fn spec_visited(&self, before: V, after: V) -> bool {
        exists|mid: V| #[trigger] token_visited(before, *self, mid, after)
    }

    fn visit(&self, visitor: V) -> (r: V) {
        let mid = visitor.visit_token(self);
        let ghost g = mid;
        let r = match token_hook(self.token_kind()) {
            None => mid,
            Some(TokenHook::Identifier) => mid.visit_identifier(self),
            Some(TokenHook::MultiLineComment) => mid.visit_multi_line_comment(self),
            Some(TokenHook::Number) => mid.visit_number(self),
            Some(TokenHook::SingleLineComment) => mid.visit_single_line_comment(self),
            Some(TokenHook::StringLiteral) => mid.visit_string_literal(self),
            Some(TokenHook::Symbol) => mid.visit_symbol(self),
            Some(TokenHook::Whitespace) => mid.visit_whitespace(self),
            Some(TokenHook::InterpolatedStringSegment) => mid.visit_interpolated_string_segment(self),
        };
        assert(token_visited(visitor, *self, g, r));
        r
    }
}

impl<V: VisitorMut> VisitMut<V> for Token {
    /// [`VisitorMut::visit_token`], then the hook for the kind of the token it gave back.
    open spec fn spec_visited_mut(&self, before: V, after: V, result: Self) -> bool {
        exists|mid: (V, Token)| #[trigger] token_visited_mut(before, *self, mid, (after, result))
    }

    fn visit_mut(self, visitor: V) -> (r: (V, Self)) {
        let ghost before = visitor;
        let mid = visitor.visit_token(self);
        let ghost mid_view = mid;
        let (visitor, token) = mid;
        let r = match token_hook(token.token_kind()) {
            None => (visitor, token),
            Some(TokenHook::Identifier) => visitor.visit_identifier(token),
            Some(TokenHook::MultiLineComment) => visitor.visit_multi_line_comment(token),
            Some(TokenHook::Number) => visitor.visit_number(token),
            Some(TokenHook::SingleLineComment) => visitor.visit_single_line_comment(token),
            Some(TokenHook::StringLiteral) => visitor.visit_string_literal(token),
            Some(TokenHook::Symbol) => visitor.visit_symbol(token),
            Some(TokenHook::Whitespace) => visitor.visit_whitespace(token),
            Some(TokenHook::InterpolatedStringSegment) => visitor.visit_interpolated_string_segment(token),
        };
        assert(token_visited_mut(before, self, mid_view, r));
        r
    }
}

/// The visitor went, for the token reference `reference`: from `before` to `v1` when
/// [`Visitor::visit_token`] was handed its token; from `v1` to `v2` when
/// [`Visitor::visit_eof`] was handed it, if its token ends the file (else `v2` is `v1`); from
/// `v2` to `v3` through its leading trivia; from `v3` to `v4` through its token; and from
/// `v4` to `after` through its trailing trivia.
pub open spec fn reference_visited<V: Visitor>(
    reference: TokenReference,
    before: V,
    v1: V,
    v2: V,
    v3: V,
    v4: V,
    after: V,
) -> bool {
    &&& call_ensures(V::visit_token, (before, &reference.token), v1)
    &&& if reference.token.token_type.spec_kind() == TokenKind::Eof {
        call_ensures(V::visit_eof, (v1, &reference), v2)
    } else {
        v2 == v1
    }
    &&& reference.leading_trivia.spec_visited(v2, v3)
    &&& reference.token.spec_visited(v3, v4)
    &&& reference.trailing_trivia.spec_visited(v4, after)
}

/// For the token reference `reference`: [`VisitorMut::visit_token_reference`] was handed
/// `before` and it, and handed back `m1`; [`VisitorMut::visit_eof`] was handed `m1` and
/// handed back `m2`, if the reference in `m1` ends the file (else `m2` is `m1`); then the
/// leading trivia, token and trailing trivia of the reference in `m2` were handed through in
/// turn, taking the visitor from `m2.0` to `v3`, `v4` and `after`, and made those of `result`.
pub open spec fn reference_visited_mut<V: VisitorMut>(
    reference: TokenReference,
    before: V,
    m1: (V, TokenReference),
    m2: (V, TokenReference),
    v3: V,
    v4: V,
    after: V,
    result: TokenReference,
) -> bool {
    &&& call_ensures(V::visit_token_reference, (before, reference), m1)
    &&& if m1.1.token.token_type.spec_kind() == TokenKind::Eof {
        call_ensures(V::visit_eof, (m1.0, m1.1), m2)
    } else {
        m2 == m1
    }
    &&& m2.1.leading_trivia.spec_visited_mut(m2.0, v3, result.leading_trivia)
    &&& m2.1.token.spec_visited_mut(v3, v4, result.token)
    &&& m2.1.trailing_trivia.spec_visited_mut(v4, after, result.trailing_trivia)
}

impl<V: Visitor> Visit<V> for TokenReference {
    /// Its token to [`Visitor::visit_token`], itself to [`Visitor::visit_eof`] if it ends the
    /// file, then its leading trivia, its token and its trailing trivia.
    open spec fn spec_visited(&self, before: V, after: V) -> bool {
        exists|v1: V, v2: V, v3: V, v4: V| #[trigger] reference_visited(*self, before, v1, v2, v3, v4, after)
    }

    fn visit(&self, visitor: V) -> (r: V) {
        let v1 = visitor.visit_token(&self.token);
        let ghost g1 = v1;
        let v2 = if self.token.token_kind() == TokenKind::Eof {
            v1.visit_eof(self)
        } else {
            v1
        };
        let ghost g2 = v2;
        let v3 = self.leading_trivia.visit(v2);
        let ghost g3 = v3;
        let v4 = self.token.visit(v3);
        let ghost g4 = v4;
        let r = self.trailing_trivia.visit(v4);
        assert(reference_visited(*self, visitor, g1, g2, g3, g4, r));
        r
    }
}

impl<V: VisitorMut> VisitMut<V> for TokenReference {
    /// Itself to [`VisitorMut::visit_token_reference`], what that gave back to
    /// [`VisitorMut::visit_eof`] if it ends the file, then the leading trivia, token and
    /// trailing trivia of what came back.
    open spec fn spec_visited_mut(&self, before: V, after: V, result: Self) -> bool {
        exists|m1: (V, TokenReference), m2: (V, TokenReference), v3: V, v4: V|
            #[trigger] reference_visited_mut(*self, before, m1, m2, v3, v4, after, result)
    }

    fn visit_mut(self, visitor: V) -> (r: (V, Self)) {
        let ghost before = visitor;
        let m1 = visitor.visit_token_reference(self);
        let ghost g1 = m1;
        let m2 = if m1.1.token.token_kind() == TokenKind::Eof {
            let (v, reference) = m1;
            v.visit_eof(reference)
        } else {
            m1
        };
        let ghost g2 = m2;
        let (visitor, reference) = m2;
        let TokenReference { leading_trivia, token, trailing_trivia } = reference;
        let (v3, leading_trivia) = leading_trivia.visit_mut(visitor);
        let (v4, token) = token.visit_mut(v3);
        let (after, trailing_trivia) = trailing_trivia.visit_mut(v4);
        let result = TokenReference { leading_trivia, token, trailing_trivia };
        assert(reference_visited_mut(self, before, g1, g2, v3, v4, after, result));
        (after, result)
    }
}

impl<V, T: Visit<V>> Visit<V> for Vec<T> {
    open spec fn spec_visited(&self, before: V, after: V) -> bool {
        visited_in_order(self@, before, after)
    }

    fn visit(&self, visitor: V) -> (r: V) {
        let mut v = visitor;
        let mut i: usize = 0;
        while i < self.len()
            invariant
                i <= self@.len(),
                visited_in_order(self@.take(i as int), visitor, v),
            decreases self@.len() - i,
        {
            let ghost mid = v;
            v = self[i].visit(v);
            proof {
                let items = self@.take(i + 1);
                assert(items.drop_last() =~= self@.take(i as int));
                assert(items.last() == self@[i as int]);
                assert(visited_in_order(items.drop_last(), visitor, mid) && items.last().spec_visited(
                    mid,
                    v,
                ));
            }
            i += 1;
        }
        assert(self@.take(self@.len() as int) =~= self@);
        v
    }
}

impl<V, T: VisitMut<V>> VisitMut<V> for Vec<T> {
    open spec fn spec_visited_mut(&self, before: V, after: V, result: Self) -> bool {
        visited_mut_in_order(self@, before, after, result@)
    }

    fn visit_mut(self, visitor: V) -> (r: (V, Self)) {
        let ghost items = self@;
        let ghost n = items.len();
        let mut rest = self;
        let mut reversed: Vec<T> = Vec::new();
        while rest.len() > 0
            invariant
                n == items.len(),
                rest@.len() + reversed@.len() == n,
                rest@ == items.take(rest@.len() as int),
                forall|j: int| 0 <= j < reversed@.len() ==> #[trigger] reversed@[j] == items[n - 1 - j],
            decreases rest@.len(),
        {
            let item = rest.pop().unwrap();
            assert(item == items[n - 1 - reversed@.len()]);
            reversed.push(item);
            assert(rest@ =~= items.take(rest@.len() as int));
        }
        let mut v = visitor;
        let mut made: Vec<T> = Vec::new();
        while reversed.len() > 0
            invariant
                n == items.len(),
                made@.len() + reversed@.len() == n,
                forall|j: int| 0 <= j < reversed@.len() ==> #[trigger] reversed@[j] == items[n - 1 - j],
                visited_mut_in_order(items.take(made@.len() as int), visitor, v, made@),
            decreases reversed@.len(),
        {
            let ghost k = made@.len() as int;
            let ghost mid = v;
            let ghost before_made = made@;
            let ghost last = reversed@.len() - 1;
            let item = reversed.pop().unwrap();
            assert(item == items[n - 1 - last]);
            let (next, out) = item.visit_mut(v);
            v = next;
            made.push(out);
            proof {
                let taken = items.take(k + 1);
                assert(taken.drop_last() =~= items.take(k));
                assert(taken.last() == items[k]);
                assert(made@.drop_last() =~= before_made);
                assert(visited_mut_in_order(taken.drop_last(), visitor, mid, made@.drop_last())
                    && taken.last().spec_visited_mut(mid, v, made@.last()));
            }
        }
        assert(items.take(n as int) =~= items);
        (v, made)
    }
}

impl<V, T: Visit<V>> Visit<V> for Box<T> {
    open spec fn spec_visited(&self, before: V, after: V) -> bool {
        (**self).spec_visited(before, after)
    }

    fn visit(&self, visitor: V) -> (r: V) {
        (**self).visit(visitor)
    }
}

impl<V, T: VisitMut<V>> VisitMut<V> for Box<T> {
    open spec fn spec_visited_mut(&self, before: V, after: V, result: Self) -> bool {
        (**self).spec_visited_mut(before, after, *result)
    }

    fn visit_mut(self, visitor: V) -> (r: (V, Self)) {
        let (v, made) = (*self).visit_mut(visitor);
        (v, Box::new(made))
    }
}

impl<V, T: Visit<V>> Visit<V> for Option<T> {
    open spec fn spec_visited(&self, before: V, after: V) -> bool {
        match self {
            Some(item) => item.spec_visited(before, after),
            None => after == before,
        }
    }

    fn visit(&self, visitor: V) -> (r: V) {
        match self {
            Some(item) => item.visit(visitor),
            None => visitor,
        }
    }
}

impl<V, T: VisitMut<V>> VisitMut<V> for Option<T> {
    open spec fn spec_visited_mut(&self, before: V, after: V, result: Self) -> bool {
        match (self, result) {
            (Some(item), Some(made)) => item.spec_visited_mut(before, after, made),
            (None, None) => after == before,
            _ => false,
        }
    }

    fn visit_mut(self, visitor: V) -> (r: (V, Self)) {
        match self {
            Some(item) => {
                let (v, made) = item.visit_mut(visitor);
                (v, Some(made))
            },
            None => (visitor, None),
        }
    }
}

impl<V, A: Visit<V>, B: Visit<V>> Visit<V> for (A, B) {
    open spec fn spec_visited(&self, before: V, after: V) -> bool {
        exists|mid: V| self.0.spec_visited(before, mid) && #[trigger] self.1.spec_visited(mid, after)
    }

    fn visit(&self, visitor: V) -> (r: V) {
        let mid = self.0.visit(visitor);
        let ghost g = mid;
        let r = self.1.visit(mid);
        assert(self.0.spec_visited(visitor, g) && self.1.spec_visited(g, r));
        r
    }
}

impl<V, A: VisitMut<V>, B: VisitMut<V>> VisitMut<V> for (A, B) {
    open spec fn spec_visited_mut(&self, before: V, after: V, result: Self) -> bool {
        exists|mid: V|
            self.0.spec_visited_mut(before, mid, result.0) && #[trigger] self.1.spec_visited_mut(
                mid,
                after,
                result.1,
            )
    }

    fn visit_mut(self, visitor: V) -> (r: (V, Self)) {
        let ghost whole = self;
        let (a, b) = self;
        let (mid, made_a) = a.visit_mut(visitor);
        let ghost g = mid;
        let (after, made_b) = b.visit_mut(mid);
        let r = (after, (made_a, made_b));
        assert(whole.0.spec_visited_mut(visitor, g, r.1.0) && whole.1.spec_visited_mut(g, r.0, r.1.1));
        r
    }
}

/// Hands the nodes of an [`Ast`], then its end of file token, to the visitor, and gives the
/// visitor back.
pub fn visit_ast<V: BlockVisitor<St, La>, St: Visit<V>, La: Visit<V>>(visitor: V, ast: &Ast<St, La>) -> (r: V)
    ensures
        exists|mid: V|
            #[trigger] ast.spec_nodes().spec_visited(visitor, mid) && ast.spec_eof().spec_visited(mid, r),
{
    let mid = ast.nodes().visit(visitor);
    let ghost g = mid;
    let r = ast.eof().visit(mid);
    assert(ast.spec_nodes().spec_visited(visitor, g) && ast.spec_eof().spec_visited(g, r));
    r
}

/// Hands the nodes of an [`Ast`] to the visitor, then its end of file token to
/// [`VisitorMut::visit_eof`], and gives back the visitor and the tree made of what came back.
pub fn visit_ast_mut<V: BlockVisitorMut<St, La>, St: VisitMut<V>, La: VisitMut<V>>(
    visitor: V,
    ast: Ast<St, La>,
) -> (r: (V, Ast<St, La>))
    ensures
        exists|mid: V|
            #[trigger] ast.spec_nodes().spec_visited_mut(visitor, mid, r.1.spec_nodes())
                && call_ensures(V::visit_eof, (mid, ast.spec_eof()), (r.0, r.1.spec_eof())),
{
    let (nodes, eof) = ast.into_parts();
    let (mid, nodes) = nodes.visit_mut(visitor);
    let ghost g = mid;
    let ghost eof_in = eof;
    let (after, eof) = mid.visit_eof(eof);
    let r = (after, Ast::new(nodes, eof));
    assert(ast.spec_nodes().spec_visited_mut(visitor, g, r.1.spec_nodes()) && call_ensures(
        V::visit_eof,
        (g, eof_in),
        (r.0, r.1.spec_eof()),
    ));
    r
}

} // verus!
