//! Syntax nodes of the language: the return statement and the operators.
use vstd::prelude::*;

use crate::node::{flat_tokens, Node};
use crate::text::{chars_of, push_chars, string_from_chars};
use crate::util::display_optional_punctuated_vec;
use crate::grammar::{
    lex_case, lex_end, lex_error, lexed_run, lexed_run_end, run_end, token_lexed, CharClass, LexCase,
};
use crate::symbol::{lemma_symbol_from_chars, lemma_symbol_round_trip, Symbol};
use crate::symbol_text::{all_whitespace, lex_gives_symbol, lex_gives_whitespace, symbol_outcome};
use crate::parser_structs::ParserState;
use crate::tokenizer::{display_references, TokenReference, TokenType};
use crate::versions::LuaVersion;

verus! {

/// `return ` is a symbol followed by whitespace.
proof fn lemma_return_text(t: Seq<char>)
    requires
        t == seq!['r', 'e', 't', 'u', 'r', 'n', ' '],
    ensures
        symbol_outcome(t, 0, false) is Fine,
{
    assert(lex_case(t, 0) == LexCase::Word);
    assert(run_end(t, 7, CharClass::IdentifierChar) == 7);
    assert(run_end(t, 6, CharClass::IdentifierChar) == 6);
    assert(run_end(t, 5, CharClass::IdentifierChar) == 6);
    assert(run_end(t, 4, CharClass::IdentifierChar) == 6);
    assert(run_end(t, 3, CharClass::IdentifierChar) == 6);
    assert(run_end(t, 2, CharClass::IdentifierChar) == 6);
    assert(run_end(t, 1, CharClass::IdentifierChar) == 6);
    assert(lex_end(t, 0) == 6);
    assert(lex_error(t, 0) is None);
    assert(!lex_gives_whitespace(t, 0));
    assert(t.subrange(0, 6) =~= Symbol::Return.spec_text());
    lemma_symbol_from_chars(t.subrange(0, 6));
    assert(lex_gives_symbol(t, 0));
    assert(lex_case(t, 6) == LexCase::Space);
    assert(run_end(t, 7, CharClass::Space) == 7);
    assert(lex_end(t, 6) == 7);
    assert(lex_error(t, 6) is None);
    assert(lex_gives_whitespace(t, 6));
    assert(symbol_outcome(t, 7, true) is Fine);
    assert(symbol_outcome(t, 6, true) is Fine);
}


/// A return statement: the `return` token and the values it returns, each followed by the
/// comma that may separate it from the next.
#[derive(Debug)]
pub struct Return<E> {
    token: TokenReference,
    values: Vec<(E, Option<TokenReference>)>,
}

impl<E> Return<E> {
    /// The `return` token.
    pub closed spec fn spec_token(&self) -> TokenReference {
        self.token
    }

    /// The values returned, each with the comma that may follow it.
    pub closed spec fn spec_values(&self) -> Seq<(E, Option<TokenReference>)> {
        self.values@
    }

    /// Creates a new empty Return. Its token is `return` followed by a single space, as the
    /// lexer reads `return `.
    pub fn new() -> (r: Self)
        ensures
            r.spec_values().len() == 0,
            lexed_run("return "@, 0, r.spec_token().spec_all_tokens()),
            lexed_run_end("return "@, 0, r.spec_token().spec_all_tokens()) == "return "@.len(),
            r.spec_token().spec_display() == "return "@,
            all_whitespace(r.spec_token().leading_trivia@),
            r.spec_token().token.token_type is Symbol,
            r.spec_token().token.token_type == (TokenType::Symbol { symbol: Symbol::Return }),
            r.spec_token().leading_trivia@.len() == 0,
            all_whitespace(r.spec_token().trailing_trivia@),
    {
        proof {
            reveal_strlit("return ");
            assert("return "@ =~= seq!['r', 'e', 't', 'u', 'r', 'n', ' ']);
            lemma_return_text("return "@);
        }
        let token = TokenReference::basic_symbol("return ");
        proof {
            let t = "return "@;
            let all = token.spec_all_tokens();
            reveal(token_lexed);
            assert(lex_case(t, 0) == LexCase::Word);
            assert(lex_end(t, 0) == 6) by {
                assert(run_end(t, 7, CharClass::IdentifierChar) == 7);
                assert(run_end(t, 6, CharClass::IdentifierChar) == 6);
                assert(run_end(t, 5, CharClass::IdentifierChar) == 6);
                assert(run_end(t, 4, CharClass::IdentifierChar) == 6);
                assert(run_end(t, 3, CharClass::IdentifierChar) == 6);
                assert(run_end(t, 2, CharClass::IdentifierChar) == 6);
                assert(run_end(t, 1, CharClass::IdentifierChar) == 6);
            }
            assert(t.subrange(0, 6) =~= Symbol::Return.spec_text());
            lemma_symbol_round_trip(Symbol::Return);
            assert(token_lexed(t, 0, 6, all[0]));
            assert(all[0].token_type == (TokenType::Symbol { symbol: Symbol::Return }));
            if token.leading_trivia@.len() > 0 {
                assert(all[0] == token.leading_trivia@[0]);
            }
            assert(all[0] == token.token);
        }
        Return { token, values: Vec::new() }
    }

    /// The `return` token.
    pub fn token(&self) -> (r: &TokenReference)
        ensures
            *r == self.spec_token(),
    {
        &self.token
    }

    /// The values returned, each with the comma that may follow it.
    pub fn values(&self) -> (r: &[(E, Option<TokenReference>)])
        ensures
            r@ == self.spec_values(),
    {
        self.values.as_slice()
    }

    /// Returns a new Return with the given `return` token.
    pub fn with_token(self, token: TokenReference) -> (r: Self)
        ensures
            r.spec_token() == token,
            r.spec_values() == self.spec_values(),
    {
        Return { token, values: self.values }
    }

    /// Returns a new Return with the given values.
    pub fn with_values(self, values: Vec<(E, Option<TokenReference>)>) -> (r: Self)
        ensures
            r.spec_token() == self.spec_token(),
            r.spec_values() == values@,
    {
        Return { token: self.token, values }
    }
}

impl<E: Node> Return<E> {
    /// The text of the statement: the `return` token, then each value with the comma that
    /// may follow it.
    pub fn to_string(&self) -> (r: String)
        ensures
            r@ == self.spec_token().spec_display() + display_references(
                flat_tokens(self.spec_values()),
            ),
    {
        let mut chars = self.token.display_chars();
        let values = display_optional_punctuated_vec(self.values.as_slice());
        push_chars(&mut chars, &chars_of(values.as_str()));
        string_from_chars(chars.as_slice())
    }
}

impl<E> Default for Return<E> {
    /// An empty Return, as [`Return::new`] makes it.
    fn default() -> (r: Self)
        ensures
            r.spec_values().len() == 0,
            lexed_run("return "@, 0, r.spec_token().spec_all_tokens()),
            lexed_run_end("return "@, 0, r.spec_token().spec_all_tokens()) == "return "@.len(),
            r.spec_token().spec_display() == "return "@,
            all_whitespace(r.spec_token().leading_trivia@),
            r.spec_token().token.token_type is Symbol,
            all_whitespace(r.spec_token().trailing_trivia@),
    {
        Return::new()
    }
}

/// Operators that require just one operand, such as #X
#[derive(Debug)]
#[non_exhaustive]
pub enum UnOp {
    #[allow(missing_docs)]
    Minus(TokenReference),
    #[allow(missing_docs)]
    Not(TokenReference),
    #[allow(missing_docs)]
    Hash(TokenReference),
    #[allow(missing_docs)]
    Tilde(TokenReference),
}

impl UnOp {
    /// The token of the operator.
    pub open spec fn spec_token(&self) -> TokenReference {
        match self {
            UnOp::Minus(token) => *token,
            UnOp::Not(token) => *token,
            UnOp::Hash(token) => *token,
            UnOp::Tilde(token) => *token,
        }
    }

    /// The token associated with the operator
    pub fn token(&self) -> (r: &TokenReference)
        ensures
            *r == self.spec_token(),
    {
        match self {
            UnOp::Minus(token) => token,
            UnOp::Not(token) => token,
            UnOp::Hash(token) => token,
            UnOp::Tilde(token) => token,
        }
    }
}

/// The precedence of the binary operator written with `symbol`, from 1 to 12: the larger the
/// number, the higher the precedence. None for a symbol that is no binary operator.
pub open spec fn symbol_precedence(symbol: Symbol) -> Option<u8> {
    match symbol {
        Symbol::Caret => Some(12u8),
        Symbol::Percent => Some(10u8),
        Symbol::Slash => Some(10u8),
        Symbol::Star => Some(10u8),
        Symbol::DoubleSlash => Some(10u8),
        Symbol::Minus => Some(9u8),
        Symbol::Plus => Some(9u8),
        Symbol::TwoDots => Some(8u8),
        Symbol::DoubleLessThan => Some(7u8),
        Symbol::DoubleGreaterThan => Some(7u8),
        Symbol::Ampersand => Some(6u8),
        Symbol::Tilde => Some(5u8),
        Symbol::Pipe => Some(4u8),
        Symbol::GreaterThan => Some(3u8),
        Symbol::GreaterThanEqual => Some(3u8),
        Symbol::LessThan => Some(3u8),
        Symbol::LessThanEqual => Some(3u8),
        Symbol::TildeEqual => Some(3u8),
        Symbol::TwoEqual => Some(3u8),
        Symbol::And => Some(2u8),
        Symbol::Or => Some(1u8),
        _ => None,
    }
}

/// The comparison operators `==`, `~=`, `<`, `<=`, `>` and `>=` are binary operators of one
/// precedence, 3: above `and` and below `..`.
pub proof fn law_comparison_precedence(symbol: Symbol)
    requires
        symbol == Symbol::TwoEqual || symbol == Symbol::TildeEqual || symbol == Symbol::LessThan
            || symbol == Symbol::LessThanEqual || symbol == Symbol::GreaterThan || symbol
            == Symbol::GreaterThanEqual,
    ensures
        symbol_precedence(symbol) == Some(3u8),
        symbol_precedence(symbol) == symbol_precedence(Symbol::LessThan),
        symbol_precedence(Symbol::And)->0 < symbol_precedence(symbol)->0 < symbol_precedence(
            Symbol::TwoDots,
        )->0,
{
}

/// Each level of binary operators binds tighter than the one below it: `or`, `and`,
/// comparisons, `|`, `~`, `&`, shifts, `..`, `+` and `-`, `*`, `/`, `//` and `%`, then `^`;
/// and the operators of one level share its precedence.
pub proof fn law_precedence_levels()
    ensures
        symbol_precedence(Symbol::Or)->0 < symbol_precedence(Symbol::And)->0,
        symbol_precedence(Symbol::And)->0 < symbol_precedence(Symbol::TwoEqual)->0,
        symbol_precedence(Symbol::TwoEqual)->0 < symbol_precedence(Symbol::Pipe)->0,
        symbol_precedence(Symbol::Pipe)->0 < symbol_precedence(Symbol::Tilde)->0,
        symbol_precedence(Symbol::Tilde)->0 < symbol_precedence(Symbol::Ampersand)->0,
        symbol_precedence(Symbol::Ampersand)->0 < symbol_precedence(Symbol::DoubleLessThan)->0,
        symbol_precedence(Symbol::DoubleLessThan) == symbol_precedence(Symbol::DoubleGreaterThan),
        symbol_precedence(Symbol::DoubleLessThan)->0 < symbol_precedence(Symbol::TwoDots)->0,
        symbol_precedence(Symbol::TwoDots)->0 < symbol_precedence(Symbol::Plus)->0,
        symbol_precedence(Symbol::Plus) == symbol_precedence(Symbol::Minus),
        symbol_precedence(Symbol::Plus)->0 < symbol_precedence(Symbol::Star)->0,
        symbol_precedence(Symbol::Star) == symbol_precedence(Symbol::Slash),
        symbol_precedence(Symbol::Star) == symbol_precedence(Symbol::DoubleSlash),
        symbol_precedence(Symbol::Star) == symbol_precedence(Symbol::Percent),
        symbol_precedence(Symbol::Star)->0 < symbol_precedence(Symbol::Caret)->0,
        symbol_precedence(Symbol::Or) is Some && symbol_precedence(Symbol::Caret) is Some,
        symbol_precedence(Symbol::TwoEqual) is Some && symbol_precedence(Symbol::Star) is Some,
{
}

/// The precedence of the binary operator that `token` is, if it is one.
pub open spec fn token_precedence(token: TokenReference) -> Option<u8> {
    match token.token.token_type {
        TokenType::Symbol { symbol } => symbol_precedence(symbol),
        _ => None,
    }
}

/// Operators that require two operands, such as X + Y or X - Y
#[derive(Debug)]
#[non_exhaustive]
pub enum BinOp {
    #[allow(missing_docs)]
    Caret(TokenReference),
    #[allow(missing_docs)]
    Percent(TokenReference),
    #[allow(missing_docs)]
    Slash(TokenReference),
    #[allow(missing_docs)]
    Star(TokenReference),
    #[allow(missing_docs)]
    DoubleSlash(TokenReference),
    #[allow(missing_docs)]
    Minus(TokenReference),
    #[allow(missing_docs)]
    Plus(TokenReference),
    #[allow(missing_docs)]
    TwoDots(TokenReference),
    #[allow(missing_docs)]
    DoubleLessThan(TokenReference),
    #[allow(missing_docs)]
    DoubleGreaterThan(TokenReference),
    #[allow(missing_docs)]
    Ampersand(TokenReference),
    #[allow(missing_docs)]
    Tilde(TokenReference),
    #[allow(missing_docs)]
    Pipe(TokenReference),
    #[allow(missing_docs)]
    GreaterThan(TokenReference),
    #[allow(missing_docs)]
    GreaterThanEqual(TokenReference),
    #[allow(missing_docs)]
    LessThan(TokenReference),
    #[allow(missing_docs)]
    LessThanEqual(TokenReference),
    #[allow(missing_docs)]
    TildeEqual(TokenReference),
    #[allow(missing_docs)]
    TwoEqual(TokenReference),
    #[allow(missing_docs)]
    And(TokenReference),
    #[allow(missing_docs)]
    Or(TokenReference),
}

impl BinOp {
    /// The symbol the operator is written with.
    pub open spec fn spec_symbol(&self) -> Symbol {
        match self {
            BinOp::Caret(_) => Symbol::Caret,
            BinOp::Percent(_) => Symbol::Percent,
            BinOp::Slash(_) => Symbol::Slash,
            BinOp::Star(_) => Symbol::Star,
            BinOp::DoubleSlash(_) => Symbol::DoubleSlash,
            BinOp::Minus(_) => Symbol::Minus,
            BinOp::Plus(_) => Symbol::Plus,
            BinOp::TwoDots(_) => Symbol::TwoDots,
            BinOp::DoubleLessThan(_) => Symbol::DoubleLessThan,
            BinOp::DoubleGreaterThan(_) => Symbol::DoubleGreaterThan,
            BinOp::Ampersand(_) => Symbol::Ampersand,
            BinOp::Tilde(_) => Symbol::Tilde,
            BinOp::Pipe(_) => Symbol::Pipe,
            BinOp::GreaterThan(_) => Symbol::GreaterThan,
            BinOp::GreaterThanEqual(_) => Symbol::GreaterThanEqual,
            BinOp::LessThan(_) => Symbol::LessThan,
            BinOp::LessThanEqual(_) => Symbol::LessThanEqual,
            BinOp::TildeEqual(_) => Symbol::TildeEqual,
            BinOp::TwoEqual(_) => Symbol::TwoEqual,
            BinOp::And(_) => Symbol::And,
            BinOp::Or(_) => Symbol::Or,
        }
    }

    /// The token of the operator.
    pub open spec fn spec_token(&self) -> TokenReference {
        match self {
            BinOp::Caret(token) => *token,
            BinOp::Percent(token) => *token,
            BinOp::Slash(token) => *token,
            BinOp::Star(token) => *token,
            BinOp::DoubleSlash(token) => *token,
            BinOp::Minus(token) => *token,
            BinOp::Plus(token) => *token,
            BinOp::TwoDots(token) => *token,
            BinOp::DoubleLessThan(token) => *token,
            BinOp::DoubleGreaterThan(token) => *token,
            BinOp::Ampersand(token) => *token,
            BinOp::Tilde(token) => *token,
            BinOp::Pipe(token) => *token,
            BinOp::GreaterThan(token) => *token,
            BinOp::GreaterThanEqual(token) => *token,
            BinOp::LessThan(token) => *token,
            BinOp::LessThanEqual(token) => *token,
            BinOp::TildeEqual(token) => *token,
            BinOp::TwoEqual(token) => *token,
            BinOp::And(token) => *token,
            BinOp::Or(token) => *token,
        }
    }

    /// The precedence of the operator, from a scale of 1 to 12. The larger the number, the
    /// higher the precedence.
    pub fn precedence_of_token(token: &TokenReference) -> (r: Option<u8>)
        ensures
            r == token_precedence(*token),
            r matches Some(p) ==> 1 <= p <= 12,
    {
        match &token.token.token_type {
            TokenType::Symbol { symbol } => BinOp::precedence_of_symbol(*symbol),
            _ => None,
        }
    }

    /// The token associated with this operator
    pub fn token(&self) -> (r: &TokenReference)
        ensures
            *r == self.spec_token(),
    {
        match self {
            BinOp::Caret(token) => token,
            BinOp::Percent(token) => token,
            BinOp::Slash(token) => token,
            BinOp::Star(token) => token,
            BinOp::DoubleSlash(token) => token,
            BinOp::Minus(token) => token,
            BinOp::Plus(token) => token,
            BinOp::TwoDots(token) => token,
            BinOp::DoubleLessThan(token) => token,
            BinOp::DoubleGreaterThan(token) => token,
            BinOp::Ampersand(token) => token,
            BinOp::Tilde(token) => token,
            BinOp::Pipe(token) => token,
            BinOp::GreaterThan(token) => token,
            BinOp::GreaterThanEqual(token) => token,
            BinOp::LessThan(token) => token,
            BinOp::LessThanEqual(token) => token,
            BinOp::TildeEqual(token) => token,
            BinOp::TwoEqual(token) => token,
            BinOp::And(token) => token,
            BinOp::Or(token) => token,
        }
    }

    /// The precedence of the operator, which its token must be one of.
    pub fn precedence(&self) -> (r: u8)
        requires
            token_precedence(self.spec_token()) is Some,
        ensures
            Some(r) == token_precedence(self.spec_token()),
    {
        match BinOp::precedence_of_token(self.token()) {
            Some(p) => p,
            None => vstd::pervasive::unreached(),
        }
    }

    /// Whether the operator is right associative: `^` and `..` are.
    pub fn is_right_associative(&self) -> (r: bool)
        ensures
            r == (self is Caret || self is TwoDots),
    {
        match self {
            BinOp::Caret(_) | BinOp::TwoDots(_) => true,
            _ => false,
        }
    }

    /// Whether the token is the symbol of a right associative operator: `^` or `..`.
    pub fn is_right_associative_token(token: &TokenReference) -> (r: bool)
        ensures
            r == (token.spec_is_symbol(Symbol::Caret) || token.spec_is_symbol(Symbol::TwoDots)),
    {
        match &token.token.token_type {
            TokenType::Symbol { symbol: Symbol::Caret } => true,
            TokenType::Symbol { symbol: Symbol::TwoDots } => true,
            _ => false,
        }
    }
}

/// Whether the binary operator written with `symbol` exists in one of the Lua versions whose
/// Luau, Lua 5.2 and Lua 5.3 features are `v`; the operators of Lua 5.1 exist in all of them.
pub open spec fn bin_op_in_versions(symbol: Symbol, v: (bool, bool, bool)) -> bool {
    match symbol {
        Symbol::DoubleSlash => v.0 || v.2,
        Symbol::DoubleLessThan => v.2,
        Symbol::DoubleGreaterThan => v.2,
        Symbol::Ampersand => v.2,
        Symbol::Tilde => v.2,
        Symbol::Pipe => v.2,
        _ => true,
    }
}

/// The binary operator written with `symbol`, with the token `token`, if there is one.
fn bin_op_of(symbol: Symbol, token: TokenReference) -> (r: Option<BinOp>)
    ensures
        r is Some <==> symbol_precedence(symbol) is Some,
        r matches Some(op) ==> op.spec_symbol() == symbol && op.spec_token() == token,
{
    match symbol {
        Symbol::Caret => Some(BinOp::Caret(token)),
        Symbol::Percent => Some(BinOp::Percent(token)),
        Symbol::Slash => Some(BinOp::Slash(token)),
        Symbol::Star => Some(BinOp::Star(token)),
        Symbol::DoubleSlash => Some(BinOp::DoubleSlash(token)),
        Symbol::Minus => Some(BinOp::Minus(token)),
        Symbol::Plus => Some(BinOp::Plus(token)),
        Symbol::TwoDots => Some(BinOp::TwoDots(token)),
        Symbol::DoubleLessThan => Some(BinOp::DoubleLessThan(token)),
        Symbol::DoubleGreaterThan => Some(BinOp::DoubleGreaterThan(token)),
        Symbol::Ampersand => Some(BinOp::Ampersand(token)),
        Symbol::Tilde => Some(BinOp::Tilde(token)),
        Symbol::Pipe => Some(BinOp::Pipe(token)),
        Symbol::GreaterThan => Some(BinOp::GreaterThan(token)),
        Symbol::GreaterThanEqual => Some(BinOp::GreaterThanEqual(token)),
        Symbol::LessThan => Some(BinOp::LessThan(token)),
        Symbol::LessThanEqual => Some(BinOp::LessThanEqual(token)),
        Symbol::TildeEqual => Some(BinOp::TildeEqual(token)),
        Symbol::TwoEqual => Some(BinOp::TwoEqual(token)),
        Symbol::And => Some(BinOp::And(token)),
        Symbol::Or => Some(BinOp::Or(token)),
        _ => None,
    }
}

impl BinOp {
    /// Consumes the binary operator at the front of the parser, if there is one there that
    /// exists in one of the Lua versions.
    pub fn consume(state: &mut ParserState, lua_version: LuaVersion) -> (r: Option<BinOp>)
        requires
            old(state).wf(),
            old(state).spec_lexer().spec_current() is Some,
            old(state).spec_current_token() is Some,
        ensures
            final(state).wf(),
            ({
                let token = old(state).spec_current_token().unwrap();
                match token.token.token_type {
                    TokenType::Symbol { symbol } => if symbol_precedence(symbol) is Some
                        && bin_op_in_versions(symbol, lua_version@) {
                        &&& r matches Some(op) && op.spec_symbol() == symbol && op.spec_token()
                            == token
                        &&& ParserState::consumed(*old(state), *final(state))
                    } else {
                        r is None && *final(state) == *old(state)
                    },
                    _ => r is None && *final(state) == *old(state),
                }
            }),
    {
        let symbol = match state.current() {
            Ok(token) => match &token.token.token_type {
                TokenType::Symbol { symbol } => *symbol,
                _ => return None,
            },
            Err(()) => vstd::pervasive::unreached(),
        };
        let known = match symbol {
            Symbol::DoubleSlash => lua_version.has_luau() || lua_version.has_lua53(),
            Symbol::DoubleLessThan => lua_version.has_lua53(),
            Symbol::DoubleGreaterThan => lua_version.has_lua53(),
            Symbol::Ampersand => lua_version.has_lua53(),
            Symbol::Tilde => lua_version.has_lua53(),
            Symbol::Pipe => lua_version.has_lua53(),
            _ => true,
        };
        if !known || BinOp::precedence_of_symbol(symbol).is_none() {
            return None;
        }
        let token = state.consume().unwrap();
        bin_op_of(symbol, token)
    }

    /// The precedence of the binary operator written with `symbol`, if there is one.
    fn precedence_of_symbol(symbol: Symbol) -> (r: Option<u8>)
        ensures
            r == symbol_precedence(symbol),
            r matches Some(p) ==> 1 <= p <= 12,
    {
        match symbol {
            Symbol::Caret => Some(12),
            Symbol::Percent => Some(10),
            Symbol::Slash => Some(10),
            Symbol::Star => Some(10),
            Symbol::DoubleSlash => Some(10),
            Symbol::Minus => Some(9),
            Symbol::Plus => Some(9),
            Symbol::TwoDots => Some(8),
            Symbol::DoubleLessThan => Some(7),
            Symbol::DoubleGreaterThan => Some(7),
            Symbol::Ampersand => Some(6),
            Symbol::Tilde => Some(5),
            Symbol::Pipe => Some(4),
            Symbol::GreaterThan => Some(3),
            Symbol::GreaterThanEqual => Some(3),
            Symbol::LessThan => Some(3),
            Symbol::LessThanEqual => Some(3),
            Symbol::TildeEqual => Some(3),
            Symbol::TwoEqual => Some(3),
            Symbol::And => Some(2),
            Symbol::Or => Some(1),
            _ => None,
        }
    }
}

} // verus!
