//! The state of a parser: the lexer it reads tokens from, and the errors it met.
use vstd::prelude::*;

use crate::error::{AstError, Error};
use crate::lexer::{lexer_moved_on, Lexer, LexerResult};
use crate::position::Position;
use crate::symbol::Symbol;
use crate::tokenizer::{Token, TokenReference, TokenizerError};

verus! {

/// The token reference a lexer result holds, if it holds one.
pub open spec fn result_token(r: LexerResult<TokenReference>) -> Option<TokenReference> {
    match r {
        LexerResult::Success(token) => Some(token),
        LexerResult::Recovered(token, _) => Some(token),
        LexerResult::Fatal(_) => None,
    }
}

/// The tokenizer errors a lexer result holds.
pub open spec fn result_errors(r: LexerResult<TokenReference>) -> Seq<TokenizerError> {
    match r {
        LexerResult::Success(_) => Seq::empty(),
        LexerResult::Recovered(_, errors) => errors@,
        LexerResult::Fatal(errors) => errors@,
    }
}

/// Tokenizer errors, as errors of the parser.
pub open spec fn tokenizer_errors(errors: Seq<TokenizerError>) -> Seq<Error> {
    errors.map_values(|e: TokenizerError| Error::TokenizerError(e))
}

/// `e` is the error on `token` with the message `message` and the range `range`.
pub open spec fn is_ast_error(
    e: Error,
    token: Token,
    message: Seq<char>,
    range: Option<(Position, Position)>,
) -> bool {
    e matches Error::AstError(error) && error.token == token && error.additional@ == message
        && error.range == range
}

/// Records tokenizer errors after the errors met so far.
fn push_tokenizer_errors(errors: &mut Vec<Error>, new_errors: Vec<TokenizerError>)
    ensures
        final(errors)@ == old(errors)@ + tokenizer_errors(new_errors@),
{
    let ghost start = errors@;
    let mut i: usize = 0;
    while i < new_errors.len()
        invariant
            i <= new_errors@.len(),
            errors@ == start + tokenizer_errors(new_errors@.take(i as int)),
        decreases new_errors@.len() - i,
    {
        errors.push(Error::TokenizerError(new_errors[i].clone()));
        i += 1;
        assert(tokenizer_errors(new_errors@.take(i as int)) =~= tokenizer_errors(
            new_errors@.take(i - 1),
        ).push(Error::TokenizerError(new_errors@[i - 1])));
    }
    assert(new_errors@.take(new_errors@.len() as int) =~= new_errors@);
}

/// A string that is given as it is, or made when it is needed.
pub trait MaybeLazyString: Sized {
    /// The string can be made.
    spec fn can_make(&self) -> bool;

    /// `text` is a string this can give.
    spec fn makes(&self, text: Seq<char>) -> bool;

    /// The string.
    fn to_str(self) -> (r: String)
        requires
            self.can_make(),
        ensures
            self.makes(r@),
    ;
}

impl<'a> MaybeLazyString for &'a str {
    open spec fn can_make(&self) -> bool {
        true
    }

    open spec fn makes(&self, text: Seq<char>) -> bool {
        text == (**self)@
    }

    fn to_str(self) -> (r: String) {
        self.to_owned()
    }
}

impl MaybeLazyString for String {
    open spec fn can_make(&self) -> bool {
        true
    }

    open spec fn makes(&self, text: Seq<char>) -> bool {
        text == self@
    }

    fn to_str(self) -> (r: String) {
        self
    }
}

impl<F: FnOnce() -> String> MaybeLazyString for F {
    open spec fn can_make(&self) -> bool {
        self.requires(())
    }

    open spec fn makes(&self, text: Seq<char>) -> bool {
        exists|made: String| self.ensures((), made) && made@ == text
    }

    fn to_str(self) -> (r: String) {
        self()
    }
}

/// What a parsing step gives.
#[derive(Debug)]
pub enum ParserResult<T> {
    /// A value. This doesn't necessarily mean that there were no errors, because this can
    /// sometimes be a recovered value.
    Value(T),
    /// Couldn't get any sort of value, but the lexer has moved. This always comes with an
    /// error.
    LexerMoved,
    /// Nothing was found.
    NotFound,
}

impl<T> ParserResult<T> {
    /// The value, which there must be.
    pub fn unwrap(self) -> (r: T)
        requires
            self is Value,
        ensures
            self == ParserResult::Value(r),
    {
        match self {
            ParserResult::Value(value) => value,
            ParserResult::LexerMoved => vstd::pervasive::unreached(),
            ParserResult::NotFound => vstd::pervasive::unreached(),
        }
    }
}

/// The lexer a parser reads from, and the errors met so far.
pub struct ParserState {
    errors: Vec<Error>,
    lexer: Lexer,
}

impl ParserState {
    /// The errors met so far, in the order they were met.
    pub closed spec fn spec_errors(&self) -> Seq<Error> {
        self.errors@
    }

    /// The lexer the parser reads from.
    pub closed spec fn spec_lexer(&self) -> Lexer {
        self.lexer
    }

    /// The lexer is consistent.
    pub open spec fn wf(&self) -> bool {
        self.spec_lexer().stream_wf()
    }

    /// The token reference at the front of the lexer, if it could be read.
    pub open spec fn spec_current_token(&self) -> Option<TokenReference> {
        result_token(self.spec_lexer().spec_current().unwrap())
    }

    /// The token reference at the front of the lexer is the symbol `symbol`.
    pub open spec fn spec_current_is(&self, symbol: Symbol) -> bool {
        self.spec_current_token() matches Some(token) && token.spec_is_symbol(symbol)
    }

    /// `after` is `before` with the token reference at the front of its lexer consumed: the
    /// lexer moved on, and the tokenizer errors that came with the token were recorded.
    pub open spec fn consumed(before: ParserState, after: ParserState) -> bool {
        &&& before.spec_lexer().spec_current() is Some
        &&& lexer_moved_on(before.spec_lexer(), after.spec_lexer())
        &&& after.spec_errors() == before.spec_errors() + tokenizer_errors(
            result_errors(before.spec_lexer().spec_current().unwrap()),
        )
    }

    /// `after` is `before` with one more error, on `token`, with the message `message` and
    /// the range `range`.
    pub open spec fn recorded_error(
        before: ParserState,
        after: ParserState,
        token: Token,
        message: Seq<char>,
        range: Option<(Position, Position)>,
    ) -> bool {
        &&& after.spec_lexer() == before.spec_lexer()
        &&& after.spec_errors().len() == before.spec_errors().len() + 1
        &&& after.spec_errors().drop_last() == before.spec_errors()
        &&& is_ast_error(after.spec_errors().last(), token, message, range)
    }

    /// A parser reading from `lexer`, with no errors yet.
    pub fn new(lexer: Lexer) -> (r: Self)
        ensures
            r.spec_errors() == Seq::<Error>::empty(),
            r.spec_lexer() == lexer,
    {
        ParserState { errors: Vec::new(), lexer }
    }

    /// The errors met, in the order they were met, taken out of the parser.
    pub fn into_errors(self) -> (r: Vec<Error>)
        ensures
            r@ == self.spec_errors(),
    {
        self.errors
    }

    /// The lexer the parser reads from.
    pub fn lexer(&self) -> (r: &Lexer)
        ensures
            *r == self.spec_lexer(),
    {
        &self.lexer
    }

    /// The errors met so far, in the order they were met.
    pub fn errors(&self) -> (r: &[Error])
        ensures
            r@ == self.spec_errors(),
    {
        self.errors.as_slice()
    }

    /// The token reference at the front of the lexer, or `Err` when it could not be read.
    pub fn current(&self) -> (r: Result<&TokenReference, ()>)
        requires
            self.spec_lexer().spec_current() is Some,
        ensures
            r matches Ok(token) ==> self.spec_current_token() == Some(*token),
            r is Err ==> self.spec_current_token() is None,
    {
        match self.lexer.current() {
            Some(LexerResult::Success(token)) => Ok(token),
            Some(LexerResult::Recovered(token, _)) => Ok(token),
            Some(LexerResult::Fatal(_)) => Err(()),
            None => vstd::pervasive::unreached(),
        }
    }

    /// The token reference after the one at the front of the lexer, or `Err` when it could
    /// not be read.
    pub fn peek(&self) -> (r: Result<&TokenReference, ()>)
        requires
            self.spec_lexer().spec_peek() is Some,
        ensures
            r matches Ok(token) ==> result_token(self.spec_lexer().spec_peek().unwrap()) == Some(
                *token,
            ),
            r is Err ==> result_token(self.spec_lexer().spec_peek().unwrap()) is None,
    {
        match self.lexer.peek() {
            Some(LexerResult::Success(token)) => Ok(token),
            Some(LexerResult::Recovered(token, _)) => Ok(token),
            Some(LexerResult::Fatal(_)) => Err(()),
            None => vstd::pervasive::unreached(),
        }
    }

    /// Consumes the token reference at the front of the lexer, recording the tokenizer
    /// errors it came with.
    pub fn consume(&mut self) -> (r: ParserResult<TokenReference>)
        requires
            old(self).wf(),
        ensures
            final(self).wf(),
            old(self).spec_lexer().spec_current() is None ==> r is NotFound && *final(self)
                == *old(self),
            old(self).spec_lexer().spec_current() is Some ==> {
                &&& ParserState::consumed(*old(self), *final(self))
                &&& match old(self).spec_current_token() {
                    Some(token) => r == ParserResult::Value(token),
                    None => r is LexerMoved,
                }
            },
    {
        let token = self.lexer.consume();
        match token {
            Some(LexerResult::Success(token)) => {
                assert(self.errors@ =~= self.errors@ + tokenizer_errors(Seq::empty()));
                ParserResult::Value(token)
            },
            Some(LexerResult::Recovered(token, errors)) => {
                push_tokenizer_errors(&mut self.errors, errors);
                ParserResult::Value(token)
            },
            Some(LexerResult::Fatal(errors)) => {
                push_tokenizer_errors(&mut self.errors, errors);
                ParserResult::LexerMoved
            },
            None => ParserResult::NotFound,
        }
    }

    /// Consumes the token reference at the front of the lexer if it is the symbol `symbol`.
    pub fn consume_if(&mut self, symbol: Symbol) -> (r: Option<TokenReference>)
        requires
            old(self).wf(),
            old(self).spec_lexer().spec_current() is Some,
        ensures
            final(self).wf(),
            old(self).spec_current_is(symbol) ==> r == old(self).spec_current_token()
                && ParserState::consumed(*old(self), *final(self)),
            !old(self).spec_current_is(symbol) ==> r is None && *final(self) == *old(self),
    {
        let found = match self.current() {
            Ok(token) => token.is_symbol(symbol),
            Err(()) => false,
        };
        if found {
            Some(self.consume().unwrap())
        } else {
            None
        }
    }

    /// Consumes the token reference at the front of the lexer, which must be the symbol
    /// `symbol`; if it is another token, records the error `error` on it.
    pub fn require(&mut self, symbol: Symbol, error: &str) -> (r: Option<TokenReference>)
        requires
            old(self).wf(),
            old(self).spec_lexer().spec_current() is Some,
        ensures
            final(self).wf(),
            old(self).spec_current_is(symbol) ==> r == old(self).spec_current_token()
                && ParserState::consumed(*old(self), *final(self)),
            old(self).spec_current_token() matches Some(token) ==> !token.spec_is_symbol(symbol)
                ==> r is None && ParserState::recorded_error(
                *old(self),
                *final(self),
                token.token,
                error@,
                None,
            ),
            old(self).spec_current_token() is None ==> r is None && *final(self) == *old(self),
    {
        let found = match self.current() {
            Ok(token) => {
                if token.is_symbol(symbol) {
                    None
                } else {
                    Some(token.clone())
                }
            },
            Err(()) => return None,
        };
        match found {
            None => Some(self.consume().unwrap()),
            Some(token) => {
                self.token_error(token, error);
                None
            },
        }
    }

    /// Consumes the token reference at the front of the lexer, which must be the symbol
    /// `symbol`; if it is another token, records the error `error` on `reference_token`.
    pub fn require_with_reference_token(
        &mut self,
        symbol: Symbol,
        error: &str,
        reference_token: &TokenReference,
    ) -> (r: Option<TokenReference>)
        requires
            old(self).wf(),
            old(self).spec_lexer().spec_current() is Some,
        ensures
            final(self).wf(),
            old(self).spec_current_is(symbol) ==> r == old(self).spec_current_token()
                && ParserState::consumed(*old(self), *final(self)),
            old(self).spec_current_token() matches Some(token) ==> !token.spec_is_symbol(symbol)
                ==> r is None && ParserState::recorded_error(
                *old(self),
                *final(self),
                reference_token.token,
                error@,
                None,
            ),
            old(self).spec_current_token() is None ==> r is None && *final(self) == *old(self),
    {
        let found = match self.current() {
            Ok(token) => token.is_symbol(symbol),
            Err(()) => return None,
        };
        if found {
            Some(self.consume().unwrap())
        } else {
            self.token_error(reference_token.clone(), error);
            None
        }
    }

    /// Consumes the token reference at the front of the lexer, which must be the symbol
    /// `symbol`; if it is another token, records the error `error` on it, over the range
    /// from the start of `start_token` to the end of `end_token`.
    pub fn require_with_reference_range<E: MaybeLazyString>(
        &mut self,
        symbol: Symbol,
        error: E,
        start_token: &TokenReference,
        end_token: &TokenReference,
    ) -> (r: Option<TokenReference>)
        requires
            old(self).wf(),
            old(self).spec_lexer().spec_current() is Some,
            error.can_make(),
        ensures
            final(self).wf(),
            old(self).spec_current_is(symbol) ==> r == old(self).spec_current_token()
                && ParserState::consumed(*old(self), *final(self)),
            old(self).spec_current_token() matches Some(token) ==> !token.spec_is_symbol(symbol)
                ==> r is None && exists|message: Seq<char>|
                error.makes(message) && ParserState::recorded_error(
                *old(self),
                *final(self),
                token.token,
                message,
                Some((start_token.token.start_position, end_token.token.end_position)),
            ),
            old(self).spec_current_token() is None ==> r is None && *final(self) == *old(self),
    {
        let found = match self.current() {
            Ok(token) => {
                if token.is_symbol(symbol) {
                    None
                } else {
                    Some(token.clone())
                }
            },
            Err(()) => return None,
        };
        match found {
            None => Some(self.consume().unwrap()),
            Some(token) => {
                self.token_error_ranged(token, error, start_token, end_token);
                None
            },
        }
    }

    /// Consumes the token reference at the front of the lexer, which must be the symbol
    /// `symbol`; if it is another token, records the error `error` on it, over the range
    /// of the two token references that `tokens` gives.
    pub fn require_with_reference_range_callback<E: MaybeLazyString, F: FnOnce() -> (
        TokenReference,
        TokenReference,
    )>(&mut self, symbol: Symbol, error: E, tokens: F) -> (r: Option<TokenReference>)
        requires
            old(self).wf(),
            old(self).spec_lexer().spec_current() is Some,
            tokens.requires(()),
            error.can_make(),
        ensures
            final(self).wf(),
            old(self).spec_current_is(symbol) ==> r == old(self).spec_current_token()
                && ParserState::consumed(*old(self), *final(self)),
            old(self).spec_current_token() matches Some(token) ==> !token.spec_is_symbol(symbol)
                ==> r is None && exists|bounds: (TokenReference, TokenReference), message: Seq<char>|
                tokens.ensures((), bounds) && error.makes(message) && ParserState::recorded_error(
                *old(self),
                *final(self),
                token.token,
                message,
                Some((bounds.0.token.start_position, bounds.1.token.end_position)),
            ),
            old(self).spec_current_token() is None ==> r is None && *final(self) == *old(self),
    {
        let found = match self.current() {
            Ok(token) => {
                if token.is_symbol(symbol) {
                    None
                } else {
                    Some(token.clone())
                }
            },
            Err(()) => return None,
        };
        match found {
            None => Some(self.consume().unwrap()),
            Some(token) => {
                let (start_token, end_token) = tokens();
                self.token_error_ranged(token, error, &start_token, &end_token);
                None
            },
        }
    }

    /// Records the error `error` on the token of `token_reference`.
    pub fn token_error<E: MaybeLazyString>(&mut self, token_reference: TokenReference, error: E)
        requires
            error.can_make(),
        ensures
            exists|message: Seq<char>|
                error.makes(message) && ParserState::recorded_error(
                    *old(self),
                    *final(self),
                    token_reference.token,
                    message,
                    None,
                ),
    {
        let additional = error.to_str();
        let ghost message = additional@;
        self.errors.push(
            Error::AstError(AstError { token: token_reference.token, additional, range: None }),
        );
        assert(self.errors@.drop_last() =~= old(self).errors@);
        assert(ParserState::recorded_error(
            *old(self),
            *self,
            token_reference.token,
            message,
            None,
        ));
    }

    /// Records the error `error` on the token of `token_reference`, over the range from the
    /// start of `start_token` to the end of `end_token`.
    pub fn token_error_ranged<E: MaybeLazyString>(
        &mut self,
        token_reference: TokenReference,
        error: E,
        start_token: &TokenReference,
        end_token: &TokenReference,
    )
        requires
            error.can_make(),
        ensures
            exists|message: Seq<char>|
                error.makes(message) && ParserState::recorded_error(
                    *old(self),
                    *final(self),
                    token_reference.token,
                    message,
                    Some((start_token.token.start_position, end_token.token.end_position)),
                ),
    {
        let additional = error.to_str();
        let ghost message = additional@;
        let range = Some((start_token.token.start_position, end_token.token.end_position));
        self.errors.push(Error::AstError(AstError { token: token_reference.token, additional, range }));
        assert(self.errors@.drop_last() =~= old(self).errors@);
        assert(ParserState::recorded_error(*old(self), *self, token_reference.token, message, range));
    }
}

/// A parser never forgets an error: consuming a token or recording an error keeps the errors
/// met before, first and in the same order.
pub proof fn lemma_errors_kept(
    before: ParserState,
    after: ParserState,
    token: Token,
    message: Seq<char>,
    range: Option<(Position, Position)>,
)
    ensures
        ParserState::consumed(before, after) ==> before.spec_errors().is_prefix_of(
            after.spec_errors(),
        ),
        ParserState::recorded_error(before, after, token, message, range)
            ==> before.spec_errors().is_prefix_of(after.spec_errors()),
{
    if ParserState::consumed(before, after) {
        assert(after.spec_errors().subrange(0, before.spec_errors().len() as int)
            =~= before.spec_errors());
    }
    if ParserState::recorded_error(before, after, token, message, range) {
        assert(after.spec_errors().subrange(0, before.spec_errors().len() as int)
            =~= after.spec_errors().drop_last());
    }
}

} // verus!
