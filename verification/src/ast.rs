//! The abstract syntax tree: blocks of statements, the tree that holds them, and the result
//! of a parse.
use vstd::prelude::*;

use crate::error::Error;
use crate::node::{flat_tokens, lemma_flat_tokens_append, Node, Tokens};
use crate::position::Position;
use crate::text::{push_chars, string_from_chars};
use crate::tokenizer::{display_references, lemma_display_references_append, TokenReference, TokenReferenceView};
use crate::visitors::{visited_in_order, visited_mut_in_order, BlockVisitor, BlockVisitorMut, Visit, VisitMut};

verus! {

/// What a block holds: its statements, each with the semicolon that may follow it, and its
/// last statement with its semicolon, if it has one.
pub type BlockView<St, La> = (Seq<(St, Option<TokenReference>)>, Option<(La, Option<TokenReference>)>);

/// The block `b` merged into the block `a`: the statements of `b` follow those of `a`, and
/// the last statement of `b` is taken when `a` has none.
pub open spec fn merge_views<St, La>(a: BlockView<St, La>, b: BlockView<St, La>) -> BlockView<
    St,
    La,
> {
    (a.0 + b.0, if a.1 is None { b.1 } else { a.1 })
}

/// A block of statements, such as in if/do/etc block
#[derive(Clone, Debug)]
pub struct Block<St, La> {
    stmts: Vec<(St, Option<TokenReference>)>,
    last_stmt: Option<(La, Option<TokenReference>)>,
}

impl<St, La> View for Block<St, La> {
    type V = BlockView<St, La>;

    closed spec fn view(&self) -> BlockView<St, La> {
        (self.stmts@, self.last_stmt)
    }
}

impl<St, La> Block<St, La> {
    /// Creates an empty block
    pub fn new() -> (r: Self)
        ensures
            r@ == (Seq::<(St, Option<TokenReference>)>::empty(), None::<(La, Option<TokenReference>)>),
    {
        Block { stmts: Vec::new(), last_stmt: None }
    }

    /// The statements in the block, such as `local foo = 1`. This does not contain the final
    /// statement, which [`Block::last_stmt`] gives.
    pub fn stmts(&self) -> (r: Vec<&St>)
        ensures
            r@.len() == self@.0.len(),
            forall|i: int| 0 <= i < r@.len() ==> *r@[i] == self@.0[i].0,
    {
        let mut r: Vec<&St> = Vec::new();
        let mut i: usize = 0;
        while i < self.stmts.len()
            invariant
                i <= self.stmts@.len(),
                r@.len() == i,
                forall|k: int| 0 <= k < i ==> *r@[k] == self.stmts@[k].0,
            decreases self.stmts@.len() - i,
        {
            r.push(&self.stmts[i].0);
            i += 1;
        }
        r
    }

    /// The statements in the block, each with the semicolon that may follow it
    pub fn stmts_with_semicolon(&self) -> (r: &[(St, Option<TokenReference>)])
        ensures
            r@ == self@.0,
    {
        self.stmts.as_slice()
    }

    /// The last statement of the block if one exists, such as `return foo`
    pub fn last_stmt(&self) -> (r: Option<&La>)
        ensures
            r is Some <==> self@.1 is Some,
            r matches Some(last) ==> *last == self@.1.unwrap().0,
    {
        match &self.last_stmt {
            Some(pair) => Some(&pair.0),
            None => None,
        }
    }

    /// The last statement of the block if one exists, with the semicolon that may follow it
    pub fn last_stmt_with_semicolon(&self) -> (r: Option<&(La, Option<TokenReference>)>)
        ensures
            r is Some <==> self@.1 is Some,
            r matches Some(last) ==> *last == self@.1.unwrap(),
    {
        self.last_stmt.as_ref()
    }

    /// Returns a new block with the given statements, each followed by an optional
    /// semicolon
    pub fn with_stmts(self, stmts: Vec<(St, Option<TokenReference>)>) -> (r: Self)
        ensures
            r@ == (stmts@, self@.1),
    {
        Block { stmts, last_stmt: self.last_stmt }
    }

    /// Returns a new block with the given last statement, if one is given, with an optional
    /// semicolon
    pub fn with_last_stmt(self, last_stmt: Option<(La, Option<TokenReference>)>) -> (r: Self)
        ensures
            r@ == (self@.0, last_stmt),
    {
        Block { stmts: self.stmts, last_stmt }
    }

    /// Adds the statements of `other` after those of this block, and takes the last
    /// statement of `other` if this block has none.
    pub fn merge_blocks(&mut self, other: Self)
        ensures
            final(self)@ == merge_views(old(self)@, other@),
    {
        let mut other = other;
        self.stmts.append(&mut other.stmts);
        if self.last_stmt.is_none() {
            self.last_stmt = other.last_stmt;
        }
    }
}

/// A block merged into one with no last statement prints as the first block, then the
/// second.
pub proof fn lemma_merge_text<St: Node, La: Node>(a: Block<St, La>, b: Block<St, La>, merged: Block<St, La>)
    requires
        a@.1 is None,
        merged@ == merge_views(a@, b@),
    ensures
        display_references(merged.spec_tokens()) == display_references(a.spec_tokens())
            + display_references(b.spec_tokens()),
{
    lemma_flat_tokens_append(a@.0, b@.0);
    assert(a.spec_tokens() =~= flat_tokens(a@.0));
    assert(merged.spec_tokens() =~= a.spec_tokens() + b.spec_tokens());
    lemma_display_references_append(a.spec_tokens(), b.spec_tokens());
}

/// An empty block prints as nothing.
pub proof fn lemma_empty_block_text<St: Node, La: Node>(b: Block<St, La>)
    requires
        b@.0.len() == 0,
        b@.1 is None,
    ensures
        display_references(b.spec_tokens()) == Seq::<char>::empty(),
        b.spec_tokens().len() == 0,
{
    assert(b.spec_tokens() =~= Seq::<TokenReferenceView>::empty());
}

/// Every token of the token reference `r`, trivia included, ends at or before the byte
/// offset `bytes`.
pub open spec fn reference_ends_by(r: TokenReferenceView, bytes: int) -> bool {
    &&& forall|k: int| 0 <= k < r.0.len() ==> (#[trigger] r.0[k]).end_position.bytes <= bytes
    &&& r.1.end_position.bytes <= bytes
    &&& forall|k: int| 0 <= k < r.2.len() ==> (#[trigger] r.2[k]).end_position.bytes <= bytes
}

/// Every token of the token references `v` ends at or before the byte offset `bytes`.
pub open spec fn tokens_end_by(v: Seq<TokenReferenceView>, bytes: int) -> bool {
    forall|i: int| 0 <= i < v.len() ==> #[trigger] reference_ends_by(v[i], bytes)
}

/// Tokens that end by some offset end by any later one.
pub proof fn lemma_tokens_end_by_later(v: Seq<TokenReferenceView>, bytes: int, later: int)
    requires
        tokens_end_by(v, bytes),
        bytes <= later,
    ensures
        tokens_end_by(v, later),
{
    assert forall|i: int| 0 <= i < v.len() implies #[trigger] reference_ends_by(v[i], later) by {
        assert(reference_ends_by(v[i], bytes));
    }
}

/// The tokens of two runs of token references end by an offset exactly when those of each
/// run do.
pub proof fn lemma_tokens_end_by_append(x: Seq<TokenReferenceView>, y: Seq<TokenReferenceView>, bytes: int)
    ensures
        tokens_end_by(x + y, bytes) <==> tokens_end_by(x, bytes) && tokens_end_by(y, bytes),
{
    let xy = x + y;
    if tokens_end_by(xy, bytes) {
        assert forall|i: int| 0 <= i < x.len() implies #[trigger] reference_ends_by(x[i], bytes) by {
            assert(xy[i] == x[i]);
        }
        assert forall|i: int| 0 <= i < y.len() implies #[trigger] reference_ends_by(y[i], bytes) by {
            assert(xy[x.len() + i] == y[i]);
        }
    }
    if tokens_end_by(x, bytes) && tokens_end_by(y, bytes) {
        assert forall|i: int| 0 <= i < xy.len() implies #[trigger] reference_ends_by(xy[i], bytes) by {
            if i < x.len() {
                assert(xy[i] == x[i]);
            } else {
                assert(xy[i] == y[i - x.len()]);
            }
        }
    }
}

/// When the tokens of two blocks end by an offset, so do those of the block merged of them.
pub proof fn lemma_merge_tokens_end_by<St: Node, La: Node>(
    a: Block<St, La>,
    b: Block<St, La>,
    merged: Block<St, La>,
    bytes: int,
)
    requires
        tokens_end_by(a.spec_tokens(), bytes),
        tokens_end_by(b.spec_tokens(), bytes),
        merged@ == merge_views(a@, b@),
    ensures
        tokens_end_by(merged.spec_tokens(), bytes),
{
    lemma_flat_tokens_append(a@.0, b@.0);
    lemma_tokens_end_by_append(flat_tokens(a@.0), a@.1.spec_tokens(), bytes);
    lemma_tokens_end_by_append(flat_tokens(b@.0), b@.1.spec_tokens(), bytes);
    lemma_tokens_end_by_append(flat_tokens(a@.0), flat_tokens(b@.0), bytes);
    lemma_tokens_end_by_append(flat_tokens(merged@.0), merged@.1.spec_tokens(), bytes);
}

impl<St, La> Default for Block<St, La> {
    fn default() -> (r: Self)
        ensures
            r@ == (Seq::<(St, Option<TokenReference>)>::empty(), None::<(La, Option<TokenReference>)>),
    {
        Block::new()
    }
}

/// Merging a block with no statements into another changes nothing.
pub proof fn lemma_merge_empty_right<St, La>(a: BlockView<St, La>)
    ensures
        merge_views(a, (Seq::empty(), None)) == a,
{
    assert(a.0 + Seq::<(St, Option<TokenReference>)>::empty() =~= a.0);
}

/// Merging a block into one with no statements gives that block.
pub proof fn lemma_merge_empty_left<St, La>(b: BlockView<St, La>)
    ensures
        merge_views((Seq::empty(), None), b) == b,
{
    assert(Seq::<(St, Option<TokenReference>)>::empty() + b.0 =~= b.0);
}

/// Merging blocks one after another does not depend on how the merges are grouped.
pub proof fn lemma_merge_associative<St, La>(
    a: BlockView<St, La>,
    b: BlockView<St, La>,
    c: BlockView<St, La>,
)
    ensures
        merge_views(merge_views(a, b), c) == merge_views(a, merge_views(b, c)),
{
    assert((a.0 + b.0) + c.0 =~= a.0 + (b.0 + c.0));
}

impl<St: Node, La: Node> Node for Block<St, La> {
    open spec fn spec_start_position(&self) -> Option<Position> {
        let first = if self@.0.len() == 0 {
            None
        } else {
            self@.0[0].spec_start_position()
        };
        match first {
            Some(position) => Some(position),
            None => self@.1.spec_start_position(),
        }
    }

    open spec fn spec_end_position(&self) -> Option<Position> {
        let before = if self@.0.len() == 0 {
            None
        } else {
            self@.0.last().spec_end_position()
        };
        match self@.1.spec_end_position() {
            Some(position) => Some(position),
            None => before,
        }
    }

    open spec fn spec_similar(&self, other: &Self) -> bool {
        &&& self@.0.len() == other@.0.len()
        &&& forall|i: int| 0 <= i < self@.0.len() ==> #[trigger] self@.0[i].spec_similar(&other@.0[i])
        &&& self@.1.spec_similar(&other@.1)
    }

    open spec fn spec_tokens(&self) -> Seq<TokenReferenceView> {
        flat_tokens(self@.0) + self@.1.spec_tokens()
    }

    fn start_position(&self) -> (r: Option<Position>) {
        match self.stmts.start_position() {
            Some(position) => Some(position),
            None => self.last_stmt.start_position(),
        }
    }

    fn end_position(&self) -> (r: Option<Position>) {
        match self.last_stmt.end_position() {
            Some(position) => Some(position),
            None => self.stmts.end_position(),
        }
    }

    fn similar(&self, other: &Self) -> (r: bool) {
        self.stmts.similar(&other.stmts) && self.last_stmt.similar(&other.last_stmt)
    }

    fn tokens(&self) -> (r: Tokens) {
        let mut r = self.stmts.tokens();
        r.append(self.last_stmt.tokens());
        r
    }
}

/// For the block `block`, the visitor went: from `before` to `v1` when
/// [`BlockVisitor::visit_block`] was handed the block; from `v1` to `v2` through its statements in
/// order; from `v2` to `v3` through its last statement; and from `v3` to `after` when
/// [`BlockVisitor::visit_block_end`] was handed the block.
pub open spec fn block_visited<V: BlockVisitor<St, La>, St: Visit<V>, La: Visit<V>>(
    block: Block<St, La>,
    before: V,
    v1: V,
    v2: V,
    v3: V,
    after: V,
) -> bool {
    &&& call_ensures(V::visit_block, (before, &block), v1)
    &&& visited_in_order(block@.0, v1, v2)
    &&& block@.1.spec_visited(v2, v3)
    &&& call_ensures(V::visit_block_end, (v3, &block), after)
}

impl<V: BlockVisitor<St, La>, St: Visit<V>, La: Visit<V>> Visit<V> for Block<St, La> {
    /// The block to [`BlockVisitor::visit_block`], its statements in order, its last statement,
    /// then the block to [`BlockVisitor::visit_block_end`].
    open spec fn spec_visited(&self, before: V, after: V) -> bool {
        exists|v1: V, v2: V, v3: V| #[trigger] block_visited(*self, before, v1, v2, v3, after)
    }

    fn visit(&self, visitor: V) -> (r: V) {
        let v1 = visitor.visit_block(self);
        let ghost g1 = v1;
        let v2 = self.stmts.visit(v1);
        let ghost g2 = v2;
        let v3 = self.last_stmt.visit(v2);
        let ghost g3 = v3;
        let r = v3.visit_block_end(self);
        assert(block_visited(*self, visitor, g1, g2, g3, r));
        r
    }
}

/// For the block `block`: [`BlockVisitorMut::visit_block`] was handed `before` and the block, and
/// handed back `m1`; the statements of the block in `m1` were handed through in order, taking
/// the visitor from `m1.0` to `v2` and making those of `made`; its last statement took the
/// visitor from `v2` to `v3` and made that of `made`; then
/// [`BlockVisitorMut::visit_block_end`] was handed `v3` and `made`, and handed back `after` and
/// `result`.
pub open spec fn block_visited_mut<V: BlockVisitorMut<St, La>, St: VisitMut<V>, La: VisitMut<V>>(
    block: Block<St, La>,
    before: V,
    m1: (V, Block<St, La>),
    v2: V,
    v3: V,
    made: Block<St, La>,
    after: V,
    result: Block<St, La>,
) -> bool {
    &&& call_ensures(V::visit_block, (before, block), m1)
    &&& visited_mut_in_order(m1.1@.0, m1.0, v2, made@.0)
    &&& m1.1@.1.spec_visited_mut(v2, v3, made@.1)
    &&& call_ensures(V::visit_block_end, (v3, made), (after, result))
}

impl<V: BlockVisitorMut<St, La>, St: VisitMut<V>, La: VisitMut<V>> VisitMut<V> for Block<St, La> {
    /// The block to [`BlockVisitorMut::visit_block`], the statements and last statement of what
    /// came back, then the block made of them to [`BlockVisitorMut::visit_block_end`].
    open spec fn spec_visited_mut(&self, before: V, after: V, result: Self) -> bool {
        exists|m1: (V, Block<St, La>), v2: V, v3: V, made: Block<St, La>|
            #[trigger] block_visited_mut(*self, before, m1, v2, v3, made, after, result)
    }

    fn visit_mut(self, visitor: V) -> (r: (V, Self)) {
        let ghost block = self;
        let m1 = visitor.visit_block(self);
        let ghost g1 = m1;
        let (v1, Block { stmts, last_stmt }) = m1;
        let (v2, stmts) = stmts.visit_mut(v1);
        let (v3, last_stmt) = last_stmt.visit_mut(v2);
        let made = Block { stmts, last_stmt };
        let ghost g_made = made;
        let r = v3.visit_block_end(made);
        assert(block_visited_mut(block, visitor, g1, v2, v3, g_made, r.0, r.1));
        r
    }
}

/// An abstract syntax tree, contains all the nodes used in the code
#[derive(Clone, Debug)]
pub struct Ast<St, La> {
    nodes: Block<St, La>,
    eof: TokenReference,
}

impl<St, La> Ast<St, La> {
    /// The block of the tree.
    pub closed spec fn spec_nodes(&self) -> Block<St, La> {
        self.nodes
    }

    /// The end of file token of the tree.
    pub closed spec fn spec_eof(&self) -> TokenReference {
        self.eof
    }

    /// A tree of the block `nodes`, ended by the end of file token `eof`.
    pub fn new(nodes: Block<St, La>, eof: TokenReference) -> (r: Self)
        ensures
            r.spec_nodes() == nodes,
            r.spec_eof() == eof,
    {
        Ast { nodes, eof }
    }

    /// Returns a new Ast with the given nodes
    pub fn with_nodes(self, nodes: Block<St, La>) -> (r: Self)
        ensures
            r.spec_nodes() == nodes,
            r.spec_eof() == self.spec_eof(),
    {
        Ast { nodes, eof: self.eof }
    }

    /// Returns a new Ast with the given EOF token
    pub fn with_eof(self, eof: TokenReference) -> (r: Self)
        ensures
            r.spec_nodes() == self.spec_nodes(),
            r.spec_eof() == eof,
    {
        Ast { nodes: self.nodes, eof }
    }

    /// The entire code of the function
    pub fn nodes(&self) -> (r: &Block<St, La>)
        ensures
            *r == self.spec_nodes(),
    {
        &self.nodes
    }

    /// The entire code of the function, but mutable
    pub fn nodes_mut(&mut self) -> (r: &mut Block<St, La>)
        ensures
            *r == old(self).spec_nodes(),
            final(self).spec_nodes() == *final(r),
            final(self).spec_eof() == old(self).spec_eof(),
    {
        &mut self.nodes
    }

    /// The block and the end of file token of the tree.
    pub fn into_parts(self) -> (r: (Block<St, La>, TokenReference))
        ensures
            r.0 == self.spec_nodes(),
            r.1 == self.spec_eof(),
    {
        (self.nodes, self.eof)
    }

    /// The EOF token at the end of every Ast
    pub fn eof(&self) -> (r: &TokenReference)
        ensures
            *r == self.spec_eof(),
    {
        &self.eof
    }
}

impl<St: Node, La: Node> Node for Ast<St, La> {
    open spec fn spec_start_position(&self) -> Option<Position> {
        self.spec_nodes().spec_start_position()
    }

    open spec fn spec_end_position(&self) -> Option<Position> {
        self.spec_nodes().spec_end_position()
    }

    open spec fn spec_similar(&self, other: &Self) -> bool {
        self.spec_nodes().spec_similar(&other.spec_nodes())
    }

    open spec fn spec_tokens(&self) -> Seq<TokenReferenceView> {
        self.spec_nodes().spec_tokens()
    }

    fn start_position(&self) -> (r: Option<Position>) {
        self.nodes.start_position()
    }

    fn end_position(&self) -> (r: Option<Position>) {
        self.nodes.end_position()
    }

    fn similar(&self, other: &Self) -> (r: bool) {
        self.nodes.similar(&other.nodes)
    }

    fn tokens(&self) -> (r: Tokens) {
        self.nodes.tokens()
    }
}

/// Prints back Lua code from an [`Ast`]: the text of its nodes, then that of its end of file
/// token.
pub fn print<St: Node, La: Node>(ast: &Ast<St, La>) -> (r: String)
    ensures
        r@ == display_references(ast.spec_nodes().spec_tokens()) + ast.spec_eof().spec_display(),
{
    let mut chars = ast.nodes.tokens().text();
    push_chars(&mut chars, &ast.eof.display_chars());
    string_from_chars(chars.as_slice())
}

/// A produced [`Ast`], along with any errors found during parsing. This Ast may not be
/// exactly the same as the input code, as reconstruction may have occurred.
pub struct AstResult<St, La> {
    ast: Ast<St, La>,
    errors: Vec<Error>,
}

impl<St, La> AstResult<St, La> {
    /// The tree that was parsed.
    pub closed spec fn spec_ast(&self) -> Ast<St, La> {
        self.ast
    }

    /// The errors met while parsing.
    pub closed spec fn spec_errors(&self) -> Seq<Error> {
        self.errors@
    }

    /// The tree `ast`, parsed with the errors `errors`.
    pub fn new(ast: Ast<St, La>, errors: Vec<Error>) -> (r: Self)
        ensures
            r.spec_ast() == ast,
            r.spec_errors() == errors@,
    {
        AstResult { ast, errors }
    }

    /// Returns a reference to the [`Ast`] that was parsed. If there were any errors, this
    /// will not be exactly the same, as reconstruction will have occurred.
    pub fn ast(&self) -> (r: &Ast<St, La>)
        ensures
            *r == self.spec_ast(),
    {
        &self.ast
    }

    /// Consumes the [`Ast`] that was parsed. If there were any errors, this will not be
    /// exactly the same, as reconstruction will have occurred.
    pub fn into_ast(self) -> (r: Ast<St, La>)
        ensures
            r == self.spec_ast(),
    {
        self.ast
    }

    /// Returns all errors that occurred during parsing.
    pub fn errors(&self) -> (r: &[Error])
        ensures
            r@ == self.spec_errors(),
    {
        self.errors.as_slice()
    }

    /// The parsed [`Ast`] when there were no errors, else the errors.
    pub fn into_result(self) -> (r: Result<Ast<St, La>, Vec<Error>>)
        ensures
            self.spec_errors().len() == 0 ==> r == Ok::<Ast<St, La>, Vec<Error>>(self.spec_ast()),
            self.spec_errors().len() != 0 ==> (r matches Err(errors) && errors@ == self.spec_errors()),
    {
        if self.errors.len() == 0 {
            Ok(self.ast)
        } else {
            Err(self.errors)
        }
    }
}

} // verus!
