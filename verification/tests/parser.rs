use full_moon::error::{AstError, Error};
use full_moon::lexer::{Lexer, LexerResult};
use full_moon::parser_structs::{ParserResult, ParserState};
use full_moon::symbol::Symbol;
use full_moon::tokenizer::{Token, TokenReference, TokenType, TokenizerErrorType};

fn state(code: &str) -> ParserState {
    ParserState::new(Lexer::new(code))
}

fn identifier(name: &str) -> TokenReference {
    TokenReference::new(
        Vec::new(),
        Token::new(TokenType::Identifier { identifier: name.into() }),
        Vec::new(),
    )
}

#[test]
fn parser_state_starts_without_errors() {
    let state = state("local x = 1");
    assert!(state.errors().is_empty());
    let current = state.current().unwrap();
    assert!(current.is_symbol(Symbol::Local));
    let peeked = state.peek().unwrap();
    assert_eq!(peeked.token().to_string(), "x");
}

#[test]
fn consume_gives_tokens_in_order() {
    let mut state = state("local x = 1");
    let mut texts = Vec::new();
    loop {
        match state.consume() {
            ParserResult::Value(token) => texts.push(token.to_string()),
            ParserResult::LexerMoved => panic!("no error expected"),
            ParserResult::NotFound => break,
        }
    }
    assert_eq!(texts, vec!["local ", "x ", "= ", "1", ""]);
    assert!(state.errors().is_empty());
}

#[test]
fn consume_if_takes_only_the_symbol() {
    let mut state = state("local x");
    assert!(state.consume_if(Symbol::Function).is_none());
    let local = state.consume_if(Symbol::Local).unwrap();
    assert!(local.is_symbol(Symbol::Local));
    assert!(state.consume_if(Symbol::Local).is_none());
    assert_eq!(state.current().unwrap().token().to_string(), "x");
    assert!(state.errors().is_empty());
}

#[test]
fn require_records_an_error_on_the_current_token() {
    let mut state = state("x = 1");
    assert!(state.require(Symbol::Local, "expected local").is_none());
    assert_eq!(state.errors().len(), 1);
    match &state.errors()[0] {
        Error::AstError(error) => {
            assert_eq!(error.token().to_string(), "x");
            assert_eq!(error.error_message(), "expected local");
            assert_eq!(error.range().0.bytes(), 0);
            assert_eq!(error.range().1.bytes(), 1);
        }
        Error::TokenizerError(_) => panic!("an ast error was expected"),
    }
    // The lexer did not move.
    assert_eq!(state.current().unwrap().token().to_string(), "x");
    let x = state.require(Symbol::Local, "expected local");
    assert!(x.is_none());
    assert_eq!(state.errors().len(), 2);
}

#[test]
fn require_consumes_the_expected_symbol() {
    let mut state = state("( x");
    let paren = state.require(Symbol::LeftParen, "expected (").unwrap();
    assert_eq!(paren.to_string(), "( ");
    assert!(state.errors().is_empty());
}

#[test]
fn require_with_reference_token_blames_the_reference() {
    let mut state = state("x");
    let reference = identifier("because");
    assert!(state.require_with_reference_token(Symbol::End, "expected end", &reference).is_none());
    match &state.errors()[0] {
        Error::AstError(error) => {
            assert_eq!(error.token().to_string(), "because");
            assert_eq!(error.error_message(), "expected end");
        }
        Error::TokenizerError(_) => panic!("an ast error was expected"),
    }
}

#[test]
fn require_with_reference_range_sets_the_range() {
    let mut lexer_state = state("do x end y");
    let start = lexer_state.consume().unwrap();
    let middle = lexer_state.consume().unwrap();
    let end = lexer_state.consume().unwrap();
    assert!(lexer_state
        .require_with_reference_range(Symbol::Then, "expected then", &start, &end)
        .is_none());
    let error = &lexer_state.errors()[0];
    assert_eq!(error.error_message(), "expected then");
    assert_eq!(error.range().0, start.token().start_position());
    assert_eq!(error.range().1, end.token().end_position());
    assert_eq!(error.range().0.bytes(), 0);
    assert_eq!(error.range().1.bytes(), 8);
    assert_eq!(middle.token().to_string(), "x");
}

#[test]
fn require_with_reference_range_callback_calls_back_only_on_error() {
    let mut state = state("y z");
    let taken = state.require_with_reference_range_callback(Symbol::End, String::from("expected end"), || {
        (identifier("a"), identifier("b"))
    });
    assert!(taken.is_none());
    let error = &state.errors()[0];
    assert_eq!(error.error_message(), "expected end");
    match error {
        Error::AstError(AstError { range, .. }) => assert!(range.is_some()),
        Error::TokenizerError(_) => panic!("an ast error was expected"),
    }

    let mut state2 = self::state("end");
    let taken = state2.require_with_reference_range_callback(Symbol::End, "expected end", || {
        panic!("not called when the symbol is there")
    });
    assert!(taken.unwrap().is_symbol(Symbol::End));
    assert!(state2.errors().is_empty());
}

#[test]
fn token_error_ranged_uses_the_bounds() {
    let mut state = state("");
    let a = state.consume().unwrap();
    state.token_error_ranged(identifier("q"), "bad", &a, &a);
    let error = &state.errors()[0];
    assert_eq!(error.range(), (a.token().start_position(), a.token().end_position()));
}

#[test]
fn tokenizer_errors_are_recorded_on_consume() {
    let mut state = state("\"abc");
    let mut found_error = false;
    loop {
        match state.consume() {
            ParserResult::Value(_) | ParserResult::LexerMoved => {}
            ParserResult::NotFound => break,
        }
        if !state.errors().is_empty() {
            found_error = true;
        }
    }
    assert!(found_error);
    match &state.errors()[0] {
        Error::TokenizerError(error) => assert_eq!(*error.error(), TokenizerErrorType::UnclosedString),
        Error::AstError(_) => panic!("a tokenizer error was expected"),
    }
}

#[test]
fn lexer_results_unwrap() {
    let mut lexer = Lexer::new("a");
    match lexer.consume().unwrap() {
        LexerResult::Success(token) => assert_eq!(token.to_string(), "a"),
        _ => panic!("expected a token"),
    }
    let result: LexerResult<u8> = LexerResult::new(3, Vec::new());
    assert_eq!(result.unwrap(), 3);
}

#[test]
fn parser_result_unwrap_gives_the_value() {
    assert_eq!(ParserResult::Value(7).unwrap(), 7);
}

#[test]
fn lazy_error_messages_are_made_only_when_needed() {
    let mut state = state("do x");
    let start = state.consume().unwrap();
    let taken = state.require_with_reference_range(
        Symbol::End,
        || format!("expected {} to close {}", "end", "do"),
        &start,
        &start,
    );
    assert!(taken.is_none());
    assert_eq!(state.errors()[0].error_message(), "expected end to close do");

    let mut state = self::state("end");
    let start = identifier("do");
    let taken = state.require_with_reference_range(
        Symbol::End,
        || -> String { panic!("not made when the symbol is there") },
        &start,
        &start,
    );
    assert!(taken.is_some());
    assert!(state.errors().is_empty());
}

#[test]
fn lexer_result_errors_gives_the_errors_there_were() {
    let error = full_moon::tokenizer::TokenizerError {
        error: TokenizerErrorType::UnclosedString,
        range: (Default::default(), Default::default()),
    };
    let fatal: LexerResult<u8> = LexerResult::Fatal(vec![error.clone()]);
    assert_eq!(fatal.errors(), vec![error.clone()]);
    let recovered: LexerResult<u8> = LexerResult::Recovered(1, vec![error.clone()]);
    assert_eq!(recovered.errors(), vec![error]);
    let success: LexerResult<u8> = LexerResult::Success(1);
    assert!(success.errors().is_empty());
}
