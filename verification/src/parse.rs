//! Parsing a whole source: the recovery loop that drives a block parser over the tokens,
//! reports what it cannot parse, and always ends with a tree.
use vstd::prelude::*;

use crate::ast::{
    lemma_empty_block_text, lemma_merge_text, lemma_merge_tokens_end_by, lemma_tokens_end_by_later, merge_views,
    tokens_end_by, Ast, AstResult, Block,
};
use crate::error::Error;
use crate::grammar::{
    is_eof_token, lemma_lexes_cleanly_to_end, lemma_lexes_on_to_chain, lemma_lexes_on_to_itself, lex_end,
    lex_error, lex_starts, lexemes_between, lexes_cleanly, lexes_on_to, no_lex_error, token_lexed,
};
use crate::lexer::{
    lemma_current_eof, lemma_current_facts, lemma_current_lexemes, lemma_current_token_lexed,
    lemma_empty_source_front,
    lemma_moved_on_remaining, Lexer, LexerResult,
};
use crate::parser_structs::{result_errors, tokenizer_errors, ParserResult, ParserState};
use crate::position::{is_position_at, lemma_bytes_monotone, source_fits, spec_bytes_at, Position};
use crate::text::{chars_eq, chars_of};
use crate::node::Node;
use crate::tokenizer::{display_references, Token, TokenKind, TokenReference, TokenType};

verus! {

/// The message recorded on a token that no statement could be parsed from.
pub open spec fn unexpected_token_message() -> Seq<char> {
    "unexpected token, this needs to be a statement"@
}

/// `e` is the error recorded on a token that no statement could be parsed from.
pub open spec fn is_unexpected_token_error(e: Error) -> bool {
    e matches Error::AstError(error) && error.additional@ == unexpected_token_message()
}

/// The token reference at the front of the parser is the end of file.
pub open spec fn at_end_of_file(state: ParserState) -> bool {
    state.spec_current_token() matches Some(token) && token.token.token_type is Eof
}

/// What is left for the parser to read.
pub open spec fn parser_remaining(state: ParserState) -> int {
    state.spec_lexer().remaining()
}

/// `e` is the tokenizer error of the lexeme of `s` that starts at `p`.
pub open spec fn is_lexeme_error(e: Error, s: Seq<char>, p: int) -> bool {
    &&& e matches Error::TokenizerError(te)
    &&& lex_error(s, p) == Some(te.error)
    &&& is_position_at(te.range.0, s, p)
    &&& is_position_at(te.range.1, s, lex_end(s, p))
}

/// Each lexeme of `s` that starts at one of `starts` and is an error has its error among
/// `errors`.
pub open spec fn lexeme_errors_recorded(errors: Seq<Error>, s: Seq<char>, starts: Seq<int>) -> bool {
    forall|k: int|
        0 <= k < starts.len() && (#[trigger] lex_error(s, starts[k])) is Some ==> exists|i: int|
            0 <= i < errors.len() && #[trigger] is_lexeme_error(errors[i], s, starts[k])
}

/// No unexpected token error of `errors` comes right after another.
pub open spec fn no_repeated_unexpected_token(errors: Seq<Error>) -> bool {
    forall|i: int|
        0 < i < errors.len() ==> !(is_unexpected_token_error(errors[i - 1])
            && #[trigger] is_unexpected_token_error(errors[i]))
}

/// None of the errors of `errors` from the `n`th on is an unexpected token error.
pub open spec fn none_unexpected_from(errors: Seq<Error>, n: int) -> bool {
    forall|i: int| n <= i < errors.len() ==> !(#[trigger] is_unexpected_token_error(errors[i]))
}

/// Where the lexemes the parser read going from `before` to `after` start.
pub open spec fn lexemes_read(before: ParserState, after: ParserState) -> Seq<int> {
    lexemes_between(
        before.spec_lexer().text(),
        before.spec_lexer().stream_start(),
        after.spec_lexer().stream_start(),
    )
}

/// The parser went on from `before` to `after`: over whole lexemes of the same source,
/// keeping the errors met before it and recording the error of each lexeme read that is one;
/// with no error recorded, none of the lexemes read is one.
pub open spec fn read_on(before: ParserState, after: ParserState) -> bool {
    let s = before.spec_lexer().text();
    &&& after.spec_lexer().text() == s
    &&& after.spec_lexer().is_primed() == before.spec_lexer().is_primed()
    &&& lexes_on_to(s, before.spec_lexer().stream_start(), after.spec_lexer().stream_start())
    &&& before.spec_errors().is_prefix_of(after.spec_errors())
    &&& lexeme_errors_recorded(after.spec_errors(), s, lexemes_read(before, after))
    &&& after.spec_errors().len() == before.spec_errors().len() ==> no_lex_error(
        s,
        lexemes_read(before, after),
    )
}

/// `e` is the unexpected token error on the token lexed, with no error, from the lexeme of
/// `s` that starts at `p`.
pub open spec fn is_unexpected_at(e: Error, s: Seq<char>, p: int) -> bool {
    &&& is_unexpected_token_error(e)
    &&& e matches Error::AstError(error)
    &&& lex_error(s, p) is None
    &&& token_lexed(s, p, lex_end(s, p), error.token)
}

/// `e` is an error about the lexeme of `s` that starts at `p`: its tokenizer error, or an
/// unexpected token error on its token.
pub open spec fn is_error_at(e: Error, s: Seq<char>, p: int) -> bool {
    is_lexeme_error(e, s, p) || is_unexpected_at(e, s, p)
}

/// `e` is an error a parse of `code` can give: an error about one of the lexemes of the code
/// (see [`is_error_at`]), or, from a block parser that records errors of its own
/// (`parser_errors`), an error of the parser.
pub open spec fn is_parse_error(code: Seq<char>, e: Error, parser_errors: bool) -> bool {
    ||| exists|k: int|
        0 <= k < lex_starts(code, 0).len() - 1 && #[trigger] is_error_at(e, code, lex_starts(code, 0)[k])
    ||| parser_errors
}

/// Every error of `errors` is one a parse of `code` can give.
pub open spec fn parse_errors_only(code: Seq<char>, errors: Seq<Error>, parser_errors: bool) -> bool {
    forall|i: int| 0 <= i < errors.len() ==> #[trigger] is_parse_error(code, errors[i], parser_errors)
}

/// `e` is about one of the lexemes of `s` that start at `starts`.
pub open spec fn is_error_at_one_of(e: Error, s: Seq<char>, starts: Seq<int>) -> bool {
    exists|k: int| 0 <= k < starts.len() && #[trigger] is_error_at(e, s, starts[k])
}

/// Each error recorded going from `before` to `after` is about a lexeme read, or, when
/// `parser_errors`, an error of the parser.
pub open spec fn added_errors_from(before: ParserState, after: ParserState, parser_errors: bool) -> bool {
    forall|i: int|
        before.spec_errors().len() <= i < after.spec_errors().len() ==> #[trigger] is_error_at_one_of(
            after.spec_errors()[i],
            before.spec_lexer().text(),
            lexemes_read(before, after),
        ) || parser_errors
}

/// In a source that lexes cleanly, an error a parse of it can give is an unexpected token
/// error or an error of the parser.
pub proof fn lemma_clean_no_lexeme_error(code: Seq<char>, e: Error, parser_errors: bool)
    requires
        lexes_cleanly(code),
        is_parse_error(code, e, parser_errors),
    ensures
        is_unexpected_token_error(e) || parser_errors,
{
    if !parser_errors {
        let k = choose|k: int|
            0 <= k < lex_starts(code, 0).len() - 1 && #[trigger] is_error_at(e, code, lex_starts(code, 0)[k]);
        assert(lex_error(code, lex_starts(code, 0)[k]) is None);
    }
}

/// An unexpected token error recorded on the token of a lexeme just read is about that
/// lexeme.
proof fn lemma_unexpected_added(before: ParserState, mid: ParserState, after: ParserState, t: Token, k: int)
    requires
        added_errors_from(before, mid, false),
        ParserState::recorded_error(mid, after, t, unexpected_token_message(), None),
        0 <= k < lexemes_read(before, mid).len(),
        lex_error(before.spec_lexer().text(), lexemes_read(before, mid)[k]) is None,
        token_lexed(
            before.spec_lexer().text(),
            lexemes_read(before, mid)[k],
            lex_end(before.spec_lexer().text(), lexemes_read(before, mid)[k]),
            t,
        ),
    ensures
        added_errors_from(before, after, false),
{
    let s = before.spec_lexer().text();
    let read = lexemes_read(before, mid);
    assert(lexemes_read(before, after) == read);
    let n = mid.spec_errors().len() as int;
    assert forall|i: int| before.spec_errors().len() <= i < after.spec_errors().len() implies #[trigger] is_error_at_one_of(
        after.spec_errors()[i],
        s,
        lexemes_read(before, after),
    ) by {
        if i < n {
            assert(after.spec_errors()[i] == after.spec_errors().drop_last()[i]);
            assert(is_error_at_one_of(mid.spec_errors()[i], s, read));
        } else {
            assert(after.spec_errors()[i] == after.spec_errors().last());
            assert(is_unexpected_at(after.spec_errors()[i], s, read[k]));
            assert(is_error_at(after.spec_errors()[i], s, read[k]));
        }
    }
}

/// Errors of a parse that went on from the start of the code: those recorded on the way are
/// errors a parse of the code can give, since the lexemes read are lexemes of the code.
pub proof fn lemma_parse_errors_step(start: ParserState, before: ParserState, after: ParserState, parser_errors: bool)
    requires
        start.spec_lexer().stream_start() == 0,
        read_on(start, before),
        read_on(before, after),
        parse_errors_only(start.spec_lexer().text(), before.spec_errors(), parser_errors),
        added_errors_from(before, after, parser_errors),
    ensures
        parse_errors_only(start.spec_lexer().text(), after.spec_errors(), parser_errors),
{
    let s = start.spec_lexer().text();
    let a = before.spec_lexer().stream_start();
    let b = after.spec_lexer().stream_start();
    let x = lexemes_between(s, 0, a);
    let y = lexemes_read(before, after);
    let st = lex_starts(s, 0);
    assert(st == x + (y + lex_starts(s, b)));
    assert(lex_starts(s, b).len() >= 1);
    assert forall|i: int| 0 <= i < after.spec_errors().len() implies #[trigger] is_parse_error(
        s,
        after.spec_errors()[i],
        parser_errors,
    ) by {
        if i < before.spec_errors().len() {
            assert(after.spec_errors()[i] == after.spec_errors().subrange(0, before.spec_errors().len() as int)[i]);
            assert(is_parse_error(s, before.spec_errors()[i], parser_errors));
        } else {
            assert(after.spec_errors()[i] == after.spec_errors()[i]);
            if !parser_errors {
                assert(is_error_at_one_of(after.spec_errors()[i], s, y));
                let k = choose|k: int| 0 <= k < y.len() && #[trigger] is_error_at(after.spec_errors()[i], s, y[k]);
                assert(st[x.len() + k] == y[k]);
                assert(is_error_at(after.spec_errors()[i], s, st[x.len() + k]));
            }
        }
    }
}

/// Errors recorded stay recorded as more errors are met.
pub proof fn lemma_recorded_kept(errors: Seq<Error>, more: Seq<Error>, s: Seq<char>, starts: Seq<int>)
    requires
        lexeme_errors_recorded(errors, s, starts),
        errors.is_prefix_of(more),
    ensures
        lexeme_errors_recorded(more, s, starts),
{
    assert forall|k: int|
        0 <= k < starts.len() && (#[trigger] lex_error(s, starts[k])) is Some implies exists|i: int|
            0 <= i < more.len() && #[trigger] is_lexeme_error(more[i], s, starts[k]) by {
        let i = choose|i: int| 0 <= i < errors.len() && #[trigger] is_lexeme_error(errors[i], s, starts[k]);
        assert(more[i] == errors[i]);
    }
}

/// The errors recorded of two runs of lexemes are those recorded of both together.
pub proof fn lemma_recorded_join(errors: Seq<Error>, s: Seq<char>, a: Seq<int>, b: Seq<int>)
    requires
        lexeme_errors_recorded(errors, s, a),
        lexeme_errors_recorded(errors, s, b),
    ensures
        lexeme_errors_recorded(errors, s, a + b),
{
    let ab = a + b;
    assert forall|k: int|
        0 <= k < ab.len() && (#[trigger] lex_error(s, ab[k])) is Some implies exists|i: int|
            0 <= i < errors.len() && #[trigger] is_lexeme_error(errors[i], s, ab[k]) by {
        if k < a.len() {
            assert(ab[k] == a[k]);
            assert(lex_error(s, a[k]) is Some);
        } else {
            assert(ab[k] == b[k - a.len()]);
            assert(lex_error(s, b[k - a.len()]) is Some);
        }
    }
}

/// Going on from `a` to `b`, then from `b` to `c`, goes on from `a` to `c`.
pub proof fn lemma_read_on_chain(a: ParserState, b: ParserState, c: ParserState)
    requires
        read_on(a, b),
        read_on(b, c),
    ensures
        read_on(a, c),
{
    let s = a.spec_lexer().text();
    let (x, y, z) = (a.spec_lexer().stream_start(), b.spec_lexer().stream_start(), c.spec_lexer().stream_start());
    lemma_lexes_on_to_chain(s, x, y, z);
    assert(a.spec_errors().is_prefix_of(c.spec_errors())) by {
        assert(c.spec_errors().subrange(0, a.spec_errors().len() as int) =~= b.spec_errors().subrange(
            0,
            a.spec_errors().len() as int,
        ));
    }
    lemma_recorded_kept(b.spec_errors(), c.spec_errors(), s, lexemes_read(a, b));
    lemma_recorded_join(c.spec_errors(), s, lexemes_read(a, b), lexemes_read(b, c));
    if c.spec_errors().len() == a.spec_errors().len() {
        let ab = lexemes_read(a, b) + lexemes_read(b, c);
        assert forall|k: int| 0 <= k < ab.len() implies (#[trigger] lex_error(s, ab[k])) is None by {
            if k < lexemes_read(a, b).len() {
                assert(ab[k] == lexemes_read(a, b)[k]);
            } else {
                assert(ab[k] == lexemes_read(b, c)[k - lexemes_read(a, b).len()]);
            }
        }
    }
}

/// Staying where it is, a parser with the same errors went on over nothing.
pub proof fn lemma_read_on_itself(a: ParserState, b: ParserState)
    requires
        b.spec_lexer() == a.spec_lexer(),
        a.spec_errors().is_prefix_of(b.spec_errors()),
    ensures
        read_on(a, b),
{
    lemma_lexes_on_to_itself(a.spec_lexer().text(), a.spec_lexer().stream_start());
}

/// Consuming the token reference or error at the front goes on over its lexemes, recording
/// the error it holds.
pub proof fn lemma_consumed_read_on(before: ParserState, after: ParserState)
    requires
        before.wf(),
        before.spec_lexer().is_primed(),
        ParserState::consumed(before, after),
    ensures
        read_on(before, after),
        none_unexpected_from(after.spec_errors(), before.spec_errors().len() as int),
        before.spec_lexer().spec_current() matches Some(LexerResult::Fatal(_)) ==> after.spec_errors().len()
            > before.spec_errors().len(),
        !(before.spec_lexer().spec_current() matches Some(LexerResult::Recovered(_, _))),
        added_errors_from(before, after, false),
{
    let lexer = before.spec_lexer();
    let s = lexer.text();
    lemma_current_lexemes(lexer);
    let d = lexemes_read(before, after);
    let added = tokenizer_errors(result_errors(lexer.spec_current().unwrap()));
    assert(after.spec_errors().subrange(0, before.spec_errors().len() as int) =~= before.spec_errors());
    let n = before.spec_errors().len() as int;
    assert forall|i: int| n <= i < after.spec_errors().len() implies !(#[trigger] is_unexpected_token_error(
        after.spec_errors()[i],
    )) by {
        assert(after.spec_errors()[i] == added[i - n]);
    }
    match lexer.spec_current().unwrap() {
        LexerResult::Fatal(errors) => {
            let last = d.len() - 1;
            assert(after.spec_errors()[n] == added[0]);
            assert(is_lexeme_error(after.spec_errors()[n], s, d[last]));
            assert(is_error_at(after.spec_errors()[n], s, d[last]));
            assert(is_error_at_one_of(after.spec_errors()[n], s, d));
            assert(after.spec_errors().len() == n + 1);
            assert forall|k: int|
                0 <= k < d.len() && (#[trigger] lex_error(s, d[k])) is Some implies exists|i: int|
                    0 <= i < after.spec_errors().len() && #[trigger] is_lexeme_error(
                        after.spec_errors()[i],
                        s,
                        d[k],
                    ) by {
                if k < last {
                    assert(d.drop_last()[k] == d[k]);
                } else {
                    assert(is_lexeme_error(after.spec_errors()[n], s, d[k]));
                }
            }
        },
        _ => {
            assert(added.len() == 0);
        },
    }
}

/// Recording one more error keeps the parser where it was.
pub proof fn lemma_recorded_error_read_on(
    before: ParserState,
    after: ParserState,
    token: Token,
    message: Seq<char>,
    range: Option<(Position, Position)>,
)
    requires
        ParserState::recorded_error(before, after, token, message, range),
    ensures
        read_on(before, after),
{
    assert(after.spec_errors().subrange(0, before.spec_errors().len() as int) =~= after.spec_errors().drop_last());
    lemma_read_on_itself(before, after);
}

/// Errors that are not unexpected token errors, recorded after errors with no unexpected
/// token error repeated, repeat none.
pub proof fn lemma_no_repeat_kept(errors: Seq<Error>, more: Seq<Error>)
    requires
        no_repeated_unexpected_token(errors),
        errors.is_prefix_of(more),
        none_unexpected_from(more, errors.len() as int),
    ensures
        no_repeated_unexpected_token(more),
{
    assert forall|i: int| 0 < i < more.len() implies !(is_unexpected_token_error(more[i - 1])
        && #[trigger] is_unexpected_token_error(more[i])) by {
        if i < errors.len() {
            assert(more[i] == errors[i] && more[i - 1] == errors[i - 1]);
        }
    }
}

/// Going from `before` to `after`, the block parser gave `r`: a block that prints as the
/// source it read; which, if it has a last statement, ends the source, that statement being
/// followed by the end of file; and which holds nothing but a last statement only when read
/// from the start of the source.
pub open spec fn read_cleanly_into<St: Node, La: Node>(
    before: ParserState,
    after: ParserState,
    r: ParserResult<Block<St, La>>,
) -> bool {
    let s = before.spec_lexer().text();
    let a = before.spec_lexer().stream_start();
    &&& r matches ParserResult::Value(block)
    &&& display_references(block.spec_tokens()) == s.subrange(a, after.spec_lexer().stream_start())
    &&& block@.1 is Some ==> at_end_of_file(after)
    &&& block@.0.len() == 0 && block@.1 is Some ==> a == 0
}

/// A parser of blocks of statements, which [`parse_fallible`] drives over a source.
pub trait BlockParser<St: Node, La: Node> {
    /// Whether a statement, or a last statement, starts at the front of `lexer`: by default,
    /// one may start anywhere. A parser that stops, with no error, before what it cannot read
    /// says here that no statement starts there.
    open spec fn starts_statement(lexer: Lexer) -> bool {
        true
    }

    /// Whether the parser records errors of its own, besides the tokenizer errors of what it
    /// reads: by default, it may.
    open spec fn records_errors() -> bool {
        true
    }

    /// Parses a block from the front of the parser. It never reads past the end of file, and
    /// unless it gives a block with no statements, it reads something. It reads whole
    /// lexemes, records the error of each one it reads that is an error, keeps the errors met
    /// before and records no unexpected token error. When no error was met, neither before
    /// nor by it, it gives a block read cleanly (see [`read_cleanly_into`]); it reads nothing
    /// only where no statement starts, and then leaves the lexer as it was; and it gives a
    /// block of a last statement alone only where a statement starts. A parser that records
    /// no errors of its own records only the tokenizer errors of lexemes it reads. Every
    /// token of a block it gives ends no later than where the parser then stands.
    fn parse_block(&mut self, state: &mut ParserState) -> (r: ParserResult<Block<St, La>>)
        requires
            old(state).wf(),
            old(state).spec_lexer().spec_current() is Some,
        ensures
            final(state).wf(),
            final(state).spec_lexer().text() == old(state).spec_lexer().text(),
            final(state).spec_lexer().spec_current() is Some,
            parser_remaining(*final(state)) <= parser_remaining(*old(state)),
            !(r matches ParserResult::Value(block) && block@.0.len() == 0) ==> parser_remaining(
                *final(state),
            ) < parser_remaining(*old(state)),
            read_on(*old(state), *final(state)),
            none_unexpected_from(final(state).spec_errors(), old(state).spec_errors().len() as int),
            old(state).spec_errors().len() == 0 && final(state).spec_errors().len() == 0 ==> {
                &&& read_cleanly_into(*old(state), *final(state), r)
                &&& final(state).spec_lexer().stream_start() == old(state).spec_lexer().stream_start()
                    ==> final(state).spec_lexer() == old(state).spec_lexer()
                    && !Self::starts_statement(old(state).spec_lexer())
                &&& (r matches ParserResult::Value(block) && block@.0.len() == 0 && block@.1 is Some)
                    ==> Self::starts_statement(old(state).spec_lexer())
            },
            added_errors_from(*old(state), *final(state), Self::records_errors()),
            r matches ParserResult::Value(block) ==> tokens_end_by(
                block.spec_tokens(),
                spec_bytes_at(old(state).spec_lexer().text(), final(state).spec_lexer().stream_start()) as int,
            ),
    ;
}

/// A block parser that reads no statements: every block it gives is empty, so that a parse
/// reports each run of tokens as unexpected.
pub struct NoStatements;

impl<St: Node, La: Node> BlockParser<St, La> for NoStatements {
    /// No statement starts anywhere.
    open spec fn starts_statement(lexer: Lexer) -> bool {
        false
    }

    /// It records no errors.
    open spec fn records_errors() -> bool {
        false
    }

    fn parse_block(&mut self, state: &mut ParserState) -> (r: ParserResult<Block<St, La>>)
        ensures
            r matches ParserResult::<Block<St, La>>::Value(block) && block.view().0.len() == 0
                && block.view().1 is None,
            *final(state) == *old(state),
    {
        proof {
            assert(state.spec_errors().is_prefix_of(state.spec_errors())) by {
                assert(state.spec_errors().subrange(0, state.spec_errors().len() as int) =~= state.spec_errors());
            }
            lemma_read_on_itself(*state, *state);
        }
        let block = Block::new();
        proof {
            lemma_empty_block_text(block);
            lemma_current_facts(state.spec_lexer());
            lemma_current_lexemes(state.spec_lexer());
            let s = state.spec_lexer().text();
            let a = state.spec_lexer().stream_start();
            assert(s.subrange(a, a) =~= Seq::<char>::empty());
        }
        ParserResult::Value(block)
    }
}

/// Handles what parsing a block gave: a block with statements is merged into `block`; after
/// a block with none, the token at the front is reported as unexpected, once for a run of
/// such tokens, and skipped, unless it is the end of file, which ends the parse (`done`).
pub fn recover_after_block<St, La>(
    state: &mut ParserState,
    block: &mut Block<St, La>,
    parsed: ParserResult<Block<St, La>>,
) -> (done: bool)
    requires
        old(state).wf(),
        old(state).spec_lexer().spec_current() is Some,
    ensures
        final(state).wf(),
        final(state).spec_lexer().text() == old(state).spec_lexer().text(),
        final(state).spec_lexer().spec_current() is Some,
        parser_remaining(*final(state)) <= parser_remaining(*old(state)),
        done ==> at_end_of_file(*final(state)),
        read_on(*old(state), *final(state)),
        added_errors_from(*old(state), *final(state), false),
        no_repeated_unexpected_token(old(state).spec_errors()) ==> no_repeated_unexpected_token(
            final(state).spec_errors(),
        ),
        old(state).spec_errors().len() == 0 && final(state).spec_errors().len() == 0 ==> {
            &&& *final(state) == *old(state)
            &&& (parsed matches ParserResult::Value(new_block) && new_block@.0.len() == 0)
                ==> at_end_of_file(*old(state))
        },
        match parsed {
            ParserResult::Value(new_block) => if new_block@.0.len() > 0 {
                &&& final(block)@ == merge_views(old(block)@, new_block@)
                &&& *final(state) == *old(state)
                &&& !done
            } else {
                &&& final(block)@ == old(block)@
                &&& at_end_of_file(*old(state)) ==> done && *final(state) == *old(state)
                &&& !at_end_of_file(*old(state)) ==> {
                    &&& !done
                    &&& parser_remaining(*final(state)) < parser_remaining(*old(state))
                    &&& old(state).spec_current_token() is None ==> ParserState::consumed(
                        *old(state),
                        *final(state),
                    )
                    &&& old(state).spec_current_token() matches Some(token) ==> exists|
                        mid: ParserState,
                    |
                        #[trigger] ParserState::consumed(*old(state), mid) && if mid.spec_errors().len()
                            > 0 && is_unexpected_token_error(mid.spec_errors().last()) {
                            *final(state) == mid
                        } else {
                            ParserState::recorded_error(
                                mid,
                                *final(state),
                                token.token,
                                unexpected_token_message(),
                                None,
                            )
                        }
                }
            },
            _ => final(block)@ == old(block)@ && *final(state) == *old(state) && !done,
        },
{
    proof {
        lemma_current_facts(state.spec_lexer());
        assert(state.spec_errors().is_prefix_of(state.spec_errors())) by {
            assert(state.spec_errors().subrange(0, state.spec_errors().len() as int) =~= state.spec_errors());
        }
        lemma_read_on_itself(*state, *state);
    }
    match parsed {
        ParserResult::Value(new_block) => {
            if new_block.stmts_with_semicolon().len() == 0 {
                let token = state.current();
                let token_is_eof = match token {
                    Ok(token) => token.token.token_kind() == TokenKind::Eof,
                    Err(()) => false,
                };
                if token_is_eof {
                    return true;
                }
                let ghost before = *state;
                let consumed = state.consume();
                proof {
                    lemma_moved_on_remaining(before.spec_lexer(), state.spec_lexer());
                    lemma_current_facts(before.spec_lexer());
                    lemma_consumed_read_on(before, *state);
                    lemma_current_lexemes(before.spec_lexer());
                    if no_repeated_unexpected_token(before.spec_errors()) {
                        lemma_no_repeat_kept(before.spec_errors(), state.spec_errors());
                    }
                }
                let ghost mid = *state;
                match consumed {
                    ParserResult::Value(token) => {
                        let repeated = match state.errors().last() {
                            Some(Error::AstError(error)) => chars_eq(
                                chars_of(error.additional.as_str()).as_slice(),
                                chars_of("unexpected token, this needs to be a statement").as_slice(),
                            ),
                            _ => false,
                        };
                        proof {
                            reveal_strlit("unexpected token, this needs to be a statement");
                        }
                        if !repeated {
                            let ghost t = token.token;
                            state.token_error(token, "unexpected token, this needs to be a statement");
                            assert(ParserState::recorded_error(
                                mid,
                                *state,
                                t,
                                unexpected_token_message(),
                                None,
                            ));
                            proof {
                                lemma_recorded_error_read_on(mid, *state, t, unexpected_token_message(), None);
                                lemma_read_on_chain(before, mid, *state);
                                let k = lemma_current_token_lexed(before.spec_lexer(), token);
                                lemma_unexpected_added(before, mid, *state, t, k);
                                let e = state.spec_errors();
                                if no_repeated_unexpected_token(mid.spec_errors()) {
                                    assert forall|i: int| 0 < i < e.len() implies !(is_unexpected_token_error(
                                        e[i - 1],
                                    ) && #[trigger] is_unexpected_token_error(e[i])) by {
                                        if i < e.len() - 1 {
                                            assert(e[i] == mid.spec_errors()[i]);
                                            assert(e[i - 1] == mid.spec_errors()[i - 1]);
                                        } else {
                                            assert(e[i - 1] == mid.spec_errors().last());
                                        }
                                    }
                                }
                            }
                        }
                        assert(ParserState::consumed(before, mid));
                    },
                    ParserResult::LexerMoved => {},
                    ParserResult::NotFound => {},
                }
                false
            } else {
                block.merge_blocks(new_block);
                false
            }
        },
        _ => false,
    }
}

/// Ends a parse at the end of file: the tree is the block, ended by the end of file token
/// reference, and the errors are those met, then those the end of file came with.
pub fn finish_parse<St, La>(state: ParserState, block: Block<St, La>) -> (r: AstResult<St, La>)
    requires
        state.wf(),
        state.spec_lexer().spec_current() is Some,
        at_end_of_file(state),
    ensures
        r.spec_ast().spec_nodes() == block,
        Some(r.spec_ast().spec_eof()) == state.spec_current_token(),
        is_eof_token(state.spec_lexer().text(), r.spec_ast().spec_eof().token),
        r.spec_errors() == state.spec_errors() + tokenizer_errors(
            result_errors(state.spec_lexer().spec_current().unwrap()),
        ),
        r.spec_errors() == state.spec_errors(),
        state.spec_lexer().is_primed() ==> {
            let s = state.spec_lexer().text();
            let a = state.spec_lexer().stream_start();
            &&& lexes_on_to(s, a, s.len() as int)
            &&& no_lex_error(s, lexemes_between(s, a, s.len() as int))
            &&& r.spec_ast().spec_eof().spec_display() == s.subrange(a, s.len() as int)
        },
{
    proof {
        lemma_current_eof(state.spec_lexer(), state.spec_current_token().unwrap());
        lemma_current_facts(state.spec_lexer());
        lemma_current_lexemes(state.spec_lexer());
        assert(state.spec_errors() + tokenizer_errors(Seq::empty()) =~= state.spec_errors());
    }
    let mut state = state;
    match state.consume() {
        ParserResult::Value(eof) => {
            let errors = state.into_errors();
            AstResult::new(Ast::new(block, eof), errors)
        },
        ParserResult::LexerMoved => vstd::pervasive::unreached(),
        ParserResult::NotFound => vstd::pervasive::unreached(),
    }
}

/// With no error met, the block built so far prints as the source read so far, and has a
/// last statement only at the end of file.
pub open spec fn block_text_kept<St: Node, La: Node>(state: ParserState, block: Block<St, La>) -> bool {
    let s = state.spec_lexer().text();
    state.spec_errors().len() == 0 ==> {
        &&& display_references(block.spec_tokens()) == s.subrange(0, state.spec_lexer().stream_start())
        &&& block@.1 is Some ==> at_end_of_file(state)
    }
}

/// What holds of the errors recorded with no error of the parser holds of them with one.
pub proof fn lemma_added_errors_weaken(before: ParserState, after: ParserState, parser_errors: bool)
    requires
        added_errors_from(before, after, false),
    ensures
        added_errors_from(before, after, parser_errors),
{
}

/// With no error met, a block parser that read something gave a block with statements, or one
/// with a last statement that ends the source; handling it records no error.
proof fn lemma_no_error_step<St: Node, La: Node>(
    before: ParserState,
    between: ParserState,
    parsed: ParserResult<Block<St, La>>,
    after: ParserState,
)
    requires
        before.spec_errors().len() == 0,
        between.spec_errors().len() == 0,
        0 <= before.spec_lexer().stream_start() < between.spec_lexer().stream_start()
            <= before.spec_lexer().text().len(),
        read_cleanly_into(before, between, parsed),
        parsed matches ParserResult::Value(new_block) && (new_block@.0.len() > 0 ==> after == between)
            && (new_block@.0.len() == 0 && at_end_of_file(between) ==> after == between),
    ensures
        after.spec_errors().len() == 0,
{
    let new_block = parsed->Value_0;
    let s = before.spec_lexer().text();
    if new_block@.0.len() == 0 && new_block@.1 is None {
        lemma_empty_block_text(new_block);
        assert(s.subrange(before.spec_lexer().stream_start(), between.spec_lexer().stream_start()).len() > 0);
    }
}

/// A block read cleanly, merged into the block built so far or left out, keeps it printing
/// as the source read.
proof fn lemma_block_text_step<St: Node, La: Node>(
    before: ParserState,
    after: ParserState,
    pre: Block<St, La>,
    parsed: ParserResult<Block<St, La>>,
    post: Block<St, La>,
)
    requires
        block_text_kept(before, pre),
        !at_end_of_file(before),
        before.spec_errors().len() == 0,
        after.spec_errors().len() == 0,
        after.spec_lexer().text() == before.spec_lexer().text(),
        0 <= before.spec_lexer().stream_start() <= after.spec_lexer().stream_start()
            <= before.spec_lexer().text().len(),
        read_cleanly_into(before, after, parsed),
        parsed matches ParserResult::Value(new_block) && (new_block@.0.len() > 0 ==> post@
            == merge_views(pre@, new_block@)) && (new_block@.0.len() == 0 ==> post@ == pre@
            && at_end_of_file(after) && new_block@.1 is None),
    ensures
        block_text_kept(after, post),
{
    let s = before.spec_lexer().text();
    let a = before.spec_lexer().stream_start();
    let b = after.spec_lexer().stream_start();
    let new_block = parsed->Value_0;
    if new_block@.0.len() > 0 {
        lemma_merge_text(pre, new_block, post);
        assert(s.subrange(0, a) + s.subrange(a, b) =~= s.subrange(0, b));
    } else {
        assert(post.spec_tokens() == pre.spec_tokens());
        lemma_empty_block_text(new_block);
        assert(s.subrange(a, b).len() == 0);
    }
}

/// What parsing `code` gave, `r`, holds: a tree ended by the end of file token of the code,
/// every token of its block ending no later than that token starts, which, with no error
/// met, prints as the code;
/// among its errors, that of each lexeme of the code that is an error; no error only if the
/// code lexes cleanly; and no unexpected token error right after another.
pub open spec fn parsed_from<St: Node, La: Node>(code: Seq<char>, r: AstResult<St, La>) -> bool {
    let nodes_text = display_references(r.spec_ast().spec_nodes().spec_tokens());
    &&& is_eof_token(code, r.spec_ast().spec_eof().token)
    &&& tokens_end_by(
        r.spec_ast().spec_nodes().spec_tokens(),
        r.spec_ast().spec_eof().token.start_position.bytes as int,
    )
    &&& r.spec_errors().len() == 0 ==> nodes_text + r.spec_ast().spec_eof().spec_display() == code
    &&& lexeme_errors_recorded(r.spec_errors(), code, lex_starts(code, 0).drop_last())
    &&& r.spec_errors().len() == 0 ==> lexes_cleanly(code)
    &&& no_repeated_unexpected_token(r.spec_errors())
}

/// What parsing `code` with a block parser of type `P` gave, `r`, holds: all of
/// [`parsed_from`]; each of its errors is one a parse of the code can give (see
/// [`is_parse_error`]); and with a parser that records no errors of its own, the empty
/// source, and a source that lexes cleanly when a statement may start anywhere, parse
/// without error.
pub open spec fn parse_outcome<St: Node, La: Node, P: BlockParser<St, La>>(
    code: Seq<char>,
    r: AstResult<St, La>,
) -> bool {
    &&& parsed_from(code, r)
    &&& parse_errors_only(code, r.spec_errors(), P::records_errors())
    &&& !P::records_errors() && code.len() == 0 ==> r.spec_errors().len() == 0
    &&& !P::records_errors() && lexes_cleanly(code) && (forall|l: Lexer| P::starts_statement(l))
        ==> r.spec_errors().len() == 0
}

impl<St: Node, La: Node> AstResult<St, La> {
    /// Parses `code` with the block parser: a first block, then, until the end of file,
    /// more blocks merged into it, each run of tokens no statement could be parsed from
    /// reported once as unexpected, and the errors of tokens the lexer could not read. Some
    /// tree always comes back, ended by the end of file token; with no error met, it prints
    /// as the code. A parser that records no errors of its own parses the empty source
    /// without error.
    #[verifier::rlimit(40)]
    pub fn parse_fallible<P: BlockParser<St, La>>(code: &str, parser: &mut P) -> (r: Self)
        requires
            source_fits(code@),
        ensures
            parse_outcome::<St, La, P>(code@, r),
    {
        let mut state = ParserState::new(Lexer::new(code));
        let ghost start = state;
        proof {
            lemma_current_facts(state.spec_lexer());
            assert(state.spec_errors().is_prefix_of(state.spec_errors())) by {
                assert(state.spec_errors().subrange(0, state.spec_errors().len() as int) =~= state.spec_errors());
            }
            lemma_read_on_itself(state, state);
        }
        let mut block = match parser.parse_block(&mut state) {
            ParserResult::Value(block) => block,
            _ => {
                let block = Block::new();
                proof {
                    lemma_empty_block_text(block);
                }
                block
            },
        };
        proof {
            lemma_no_repeat_kept(start.spec_errors(), state.spec_errors());
            lemma_parse_errors_step(start, start, state, P::records_errors());
            if !P::records_errors() && lexes_cleanly(code@) && state.spec_errors().len() > 0 {
                lemma_clean_no_lexeme_error(code@, state.spec_errors()[0], false);
            }
            if !P::records_errors() && code@.len() == 0 {
                assert(lex_starts(code@, 0) == seq![0int]);
                assert(lexemes_read(start, state).len() == 0);
                if state.spec_errors().len() > 0 {
                    let e = state.spec_errors()[0];
                    assert(start.spec_errors().len() <= 0 < state.spec_errors().len());
                    assert(start.spec_lexer().text() == code@);
                }
            }
        }
        loop
            invariant
                state.wf(),
                state.spec_lexer().text() == code@,
                state.spec_lexer().spec_current() is Some,
                start.spec_lexer().stream_start() == 0,
                start.spec_lexer().text() == code@,
                start.spec_lexer().is_primed(),
                start.spec_errors().len() == 0,
                read_on(start, state),
                no_repeated_unexpected_token(state.spec_errors()),
                block_text_kept(state, block),
                state.spec_errors().len() == 0 && state.spec_lexer().stream_start() == 0
                    && !at_end_of_file(state) ==> !P::starts_statement(state.spec_lexer()),
                !P::records_errors() && code@.len() == 0 ==> state.spec_errors().len() == 0,
                parse_errors_only(code@, state.spec_errors(), P::records_errors()),
                !P::records_errors() && lexes_cleanly(code@) && (forall|l: Lexer| P::starts_statement(l))
                    ==> state.spec_errors().len() == 0,
                tokens_end_by(block.spec_tokens(), spec_bytes_at(code@, state.spec_lexer().stream_start()) as int),
            ensures
                state.wf(),
                at_end_of_file(state),
                state.spec_lexer().spec_current() is Some,
                !P::records_errors() && code@.len() == 0 ==> state.spec_errors().len() == 0,
                parse_errors_only(code@, state.spec_errors(), P::records_errors()),
                !P::records_errors() && lexes_cleanly(code@) && (forall|l: Lexer| P::starts_statement(l))
                    ==> state.spec_errors().len() == 0,
                tokens_end_by(block.spec_tokens(), spec_bytes_at(code@, state.spec_lexer().stream_start()) as int),
                read_on(start, state),
                no_repeated_unexpected_token(state.spec_errors()),
                block_text_kept(state, block),
            decreases parser_remaining(state),
        {
            proof {
                lemma_current_facts(state.spec_lexer());
                if code@.len() == 0 {
                    lemma_empty_source_front(state.spec_lexer());
                }
            }
            let front: u8 = match state.lexer().current() {
                Some(LexerResult::Success(token)) => if token.token.token_kind() == TokenKind::Eof {
                    0
                } else {
                    1
                },
                Some(LexerResult::Recovered(_, _)) => 1,
                Some(LexerResult::Fatal(_)) => 2,
                None => 0,
            };
            if front == 0 {
                break ;
            }
            if front == 2 {
                let ghost before = state;
                state.consume();
                proof {
                    lemma_moved_on_remaining(before.spec_lexer(), state.spec_lexer());
                    lemma_consumed_read_on(before, state);
                    lemma_read_on_chain(start, before, state);
                    lemma_no_repeat_kept(before.spec_errors(), state.spec_errors());
                    lemma_added_errors_weaken(before, state, P::records_errors());
                    lemma_parse_errors_step(start, before, state, P::records_errors());
                    lemma_bytes_monotone(code@, before.spec_lexer().stream_start(), state.spec_lexer().stream_start());
                    lemma_tokens_end_by_later(
                        block.spec_tokens(),
                        spec_bytes_at(code@, before.spec_lexer().stream_start()) as int,
                        spec_bytes_at(code@, state.spec_lexer().stream_start()) as int,
                    );
                    if !P::records_errors() && lexes_cleanly(code@) {
                        let n = before.spec_errors().len() as int;
                        lemma_clean_no_lexeme_error(code@, state.spec_errors()[n], false);
                    }
                }
            } else {
                let ghost before = state;
                let ghost pre = block;
                proof {
                    lemma_current_lexemes(before.spec_lexer());
                }
                let parsed = parser.parse_block(&mut state);
                proof {
                    lemma_parse_errors_step(start, before, state, P::records_errors());
                    lemma_read_on_chain(start, before, state);
                    lemma_no_repeat_kept(before.spec_errors(), state.spec_errors());
                    lemma_current_facts(state.spec_lexer());
                    lemma_current_lexemes(state.spec_lexer());
                    if !P::records_errors() && lexes_cleanly(code@) && state.spec_errors().len() > 0
                        && before.spec_errors().len() == 0 {
                        lemma_clean_no_lexeme_error(code@, state.spec_errors()[0], false);
                    }
                }
                let ghost between = state;
                let ghost parsed_view = parsed;
                let done = recover_after_block(&mut state, &mut block, parsed);
                proof {
                    let a = before.spec_lexer().stream_start();
                    let b = between.spec_lexer().stream_start();
                    let c = state.spec_lexer().stream_start();
                    lemma_current_facts(state.spec_lexer());
                    lemma_bytes_monotone(code@, a, b);
                    lemma_bytes_monotone(code@, b, c);
                    lemma_tokens_end_by_later(
                        pre.spec_tokens(),
                        spec_bytes_at(code@, a) as int,
                        spec_bytes_at(code@, b) as int,
                    );
                    match parsed_view {
                        ParserResult::Value(new_block) => {
                            if new_block@.0.len() > 0 {
                                lemma_merge_tokens_end_by(pre, new_block, block, spec_bytes_at(code@, b) as int);
                            } else {
                                assert(block.spec_tokens() == pre.spec_tokens());
                            }
                        },
                        _ => {
                            assert(block.spec_tokens() == pre.spec_tokens());
                        },
                    }
                    lemma_tokens_end_by_later(
                        block.spec_tokens(),
                        spec_bytes_at(code@, b) as int,
                        spec_bytes_at(code@, c) as int,
                    );
                    lemma_added_errors_weaken(between, state, P::records_errors());
                    lemma_parse_errors_step(start, between, state, P::records_errors());
                    lemma_read_on_chain(start, between, state);
                    if !P::records_errors() && lexes_cleanly(code@) && (forall|l: Lexer|
                        P::starts_statement(l)) {
                        assert(P::starts_statement(before.spec_lexer()));
                        lemma_no_error_step(before, between, parsed_view, state);
                    }
                    if state.spec_errors().len() == 0 {
                        assert(between.spec_errors().len() == 0);
                        assert(before.spec_errors().len() == 0);
                        if parsed_view matches ParserResult::Value(new_block) && new_block@.0.len() == 0
                            && new_block@.1 is Some {
                            assert(P::starts_statement(before.spec_lexer()));
                            assert(false);
                        }
                        lemma_block_text_step(before, between, pre, parsed_view, block);
                    }
                }
                if done {
                    break ;
                }
            }
            proof {
                lemma_current_facts(state.spec_lexer());
            }
        }
        let ghost last = state;
        let ghost last_block = block;
        let r = finish_parse(state, block);
        proof {
            lemma_current_facts(last.spec_lexer());
            lemma_current_lexemes(last.spec_lexer());
            lemma_bytes_monotone(code@, last.spec_lexer().stream_start(), code@.len() as int);
            lemma_tokens_end_by_later(
                last_block.spec_tokens(),
                spec_bytes_at(code@, last.spec_lexer().stream_start()) as int,
                spec_bytes_at(code@, code@.len() as int) as int,
            );
            let s = code@;
            let a = last.spec_lexer().stream_start();
            let n = s.len() as int;
            lemma_current_facts(last.spec_lexer());
            lemma_current_lexemes(last.spec_lexer());
            lemma_lexes_on_to_chain(s, 0, a, n);
            let before_end = lexemes_read(start, last);
            let to_end = lexemes_between(s, a, n);
            assert(lexeme_errors_recorded(r.spec_errors(), s, to_end));
            lemma_recorded_join(r.spec_errors(), s, before_end, to_end);
            lemma_lexes_cleanly_to_end(s);
            if r.spec_errors().len() == 0 {
                assert(s.subrange(0, a) + s.subrange(a, n) =~= s);
                let all = before_end + to_end;
                assert forall|k: int| 0 <= k < all.len() implies (#[trigger] lex_error(s, all[k])) is None by {
                    if k < before_end.len() {
                        assert(all[k] == before_end[k]);
                    } else {
                        assert(all[k] == to_end[k - before_end.len()]);
                    }
                }
            }
        }
        r
    }
}

/// Parses `code` with the block parser, giving a tree whatever errors were met; see
/// [`AstResult::parse_fallible`].
pub fn parse_fallible<St: Node, La: Node, P: BlockParser<St, La>>(code: &str, parser: &mut P) -> (r: AstResult<
    St,
    La,
>)
    requires
        source_fits(code@),
    ensures
        parse_outcome::<St, La, P>(code@, r),
{
    AstResult::parse_fallible(code, parser)
}

/// Parses `code` with the block parser: the tree when no error was met, else the errors.
/// A tree given back prints as the code, and the errors given back hold the error of each
/// lexeme of the code that is an error.
pub fn parse<St: Node, La: Node, P: BlockParser<St, La>>(code: &str, parser: &mut P) -> (r: Result<
    Ast<St, La>,
    Vec<Error>,
>)
    requires
        source_fits(code@),
    ensures
        exists|parsed: AstResult<St, La>|
            #[trigger] parse_outcome::<St, La, P>(code@, parsed) && if parsed.spec_errors().len() == 0 {
                r == Ok::<Ast<St, La>, Vec<Error>>(parsed.spec_ast())
            } else {
                r matches Err(errors) && errors@ == parsed.spec_errors()
            },
        r is Ok ==> lexes_cleanly(code@),
        r matches Ok(ast) ==> display_references(ast.spec_nodes().spec_tokens())
            + ast.spec_eof().spec_display() == code@,
        r matches Ok(ast) ==> is_eof_token(code@, ast.spec_eof().token) && tokens_end_by(
            ast.spec_nodes().spec_tokens(),
            ast.spec_eof().token.start_position.bytes as int,
        ),
        !lexes_cleanly(code@) ==> r is Err,
        !P::records_errors() && code@.len() == 0 ==> r is Ok,
        !P::records_errors() && lexes_cleanly(code@) && (forall|l: Lexer| P::starts_statement(l))
            ==> r is Ok,
        r matches Err(errors) ==> {
            &&& errors@.len() > 0
            &&& lexeme_errors_recorded(errors@, code@, lex_starts(code@, 0).drop_last())
            &&& parse_errors_only(code@, errors@, P::records_errors())
        },
{
    let parsed = parse_fallible(code, parser);
    let ghost g = parsed;
    let r = parsed.into_result();
    assert(parse_outcome::<St, La, P>(code@, g));
    r
}

} // verus!
