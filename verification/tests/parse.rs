use full_moon::ast::{print, Block};
use full_moon::error::Error;
use full_moon::parse::{parse, parse_fallible, BlockParser, NoStatements};
use full_moon::parser_structs::{ParserResult, ParserState};
use full_moon::tokenizer::{Token, TokenKind, TokenReference, TokenizerErrorType};
use full_moon::visitors::{visit_ast_mut, BlockVisitorMut, VisitorMut};

type TestBlock = Block<TokenReference, TokenReference>;

/// Parses each identifier as a statement of its own.
struct Identifiers;

impl BlockParser<TokenReference, TokenReference> for Identifiers {
    fn parse_block(&mut self, state: &mut ParserState) -> ParserResult<TestBlock> {
        let mut stmts = Vec::new();
        loop {
            match state.current() {
                Ok(token) if token.token().token_kind() == TokenKind::Identifier => {}
                _ => break,
            }
            stmts.push((state.consume().unwrap(), None));
        }
        ParserResult::Value(Block::new().with_stmts(stmts))
    }
}

fn messages(errors: &[Error]) -> Vec<String> {
    errors.iter().map(|e| e.error_message()).collect()
}

#[test]
fn a_parse_always_gives_a_tree() {
    let result = parse_fallible::<TokenReference, TokenReference, _>("local x = 1", &mut NoStatements);
    assert_eq!(result.ast().eof().token().token_kind(), TokenKind::Eof);
    assert_eq!(print(result.ast()), "");
    // A run of tokens that no statement could be parsed from is reported once.
    assert_eq!(messages(result.errors()), vec!["unexpected token, this needs to be a statement"]);
    assert_eq!(result.errors().len(), 1);
}

#[test]
fn blocks_are_merged_and_unexpected_tokens_skipped() {
    let result = parse_fallible("a b + c", &mut Identifiers);
    assert_eq!(result.ast().nodes().stmts().len(), 3);
    assert_eq!(print(result.ast()), "a b c");
    assert_eq!(messages(result.errors()), vec!["unexpected token, this needs to be a statement"]);
    match &result.errors()[0] {
        Error::AstError(error) => assert_eq!(error.token().to_string(), "+"),
        Error::TokenizerError(_) => panic!("an ast error was expected"),
    }
    let result = parse_fallible("a + b - c", &mut Identifiers);
    // An unexpected token right after another report is not reported again, even with
    // statements between them.
    assert_eq!(result.errors().len(), 1);
    assert_eq!(result.ast().nodes().stmts().len(), 3);
}

#[test]
fn clean_sources_parse() {
    let ast = parse("a b\nc", &mut Identifiers).unwrap();
    assert_eq!(print(&ast), "a b\nc");
    assert_eq!(ast.nodes().stmts().len(), 3);
    assert!(parse("a +", &mut Identifiers).is_err());
    let empty = parse("", &mut Identifiers).unwrap();
    assert_eq!(print(&empty), "");
    let empty = parse::<TokenReference, TokenReference, _>("", &mut NoStatements).unwrap();
    assert_eq!(print(&empty), "");
}

#[test]
fn lexer_errors_are_reported() {
    let result = parse_fallible("a \"open\nb", &mut Identifiers);
    assert_eq!(result.errors().len(), 1);
    match &result.errors()[0] {
        Error::TokenizerError(_) => {}
        Error::AstError(_) => panic!("a tokenizer error was expected"),
    }
    assert_eq!(result.ast().nodes().stmts().len(), 2);
    assert_eq!(result.into_ast().eof().token().token_kind(), TokenKind::Eof);
}

/// Takes every token reference up to the end of file as a statement of its own.
struct EveryToken;

impl BlockParser<TokenReference, TokenReference> for EveryToken {
    fn parse_block(&mut self, state: &mut ParserState) -> ParserResult<TestBlock> {
        let mut stmts = Vec::new();
        loop {
            match state.current() {
                Ok(token) if token.token().token_kind() != TokenKind::Eof => {}
                _ => break,
            }
            stmts.push((state.consume().unwrap(), None));
        }
        ParserResult::Value(Block::new().with_stmts(stmts))
    }
}

#[test]
fn test_with_eof_safety() {
    let new_ast = {
        let ast = parse("local foo = 1", &mut EveryToken).unwrap();
        let eof = ast.eof().clone();
        ast.with_eof(eof)
    };

    assert_eq!(print(&new_ast), "local foo = 1");
}

#[test]
fn test_with_nodes_safety() {
    let new_ast = {
        let ast = parse("local foo = 1", &mut EveryToken).unwrap();
        let nodes = ast.nodes().clone();
        ast.with_nodes(nodes)
    };

    assert_eq!(print(&new_ast), "local foo = 1");
}

struct SyntaxRewriter;

impl VisitorMut for SyntaxRewriter {
    fn visit_token(self, token: Token) -> (Self, Token) {
        (self, token)
    }
}

impl<St, La> BlockVisitorMut<St, La> for SyntaxRewriter {}

#[test]
fn test_with_visitor_safety() {
    let new_ast = {
        let ast = parse("local foo = 1", &mut EveryToken).unwrap();
        visit_ast_mut(SyntaxRewriter, ast).1
    };

    assert_eq!(print(&new_ast), "local foo = 1");
}

#[test]
fn parse_reports_an_unclosed_string() {
    let result = parse::<TokenReference, TokenReference, _>("\"hello", &mut NoStatements);
    match result {
        Err(errors) => assert!(errors.iter().any(|e| matches!(
            e,
            Error::TokenizerError(te) if te.error() == &TokenizerErrorType::UnclosedString
        ))),
        Ok(_) => panic!("an unclosed string cannot parse"),
    }
}

#[test]
fn parse_is_ok_exactly_without_errors() {
    for code in ["a b\nc", "a +", "", "a \"open", "+ - a"] {
        let fallible = parse_fallible(code, &mut Identifiers);
        let errors: Vec<String> = messages(fallible.errors());
        match parse(code, &mut Identifiers) {
            Ok(ast) => {
                assert!(errors.is_empty());
                assert_eq!(print(&ast), code);
            }
            Err(es) => {
                assert!(!es.is_empty());
                assert_eq!(messages(&es), errors);
            }
        }
    }
}

#[test]
fn unexpected_tokens_are_never_reported_twice_in_a_row() {
    let result = parse_fallible::<TokenReference, TokenReference, _>("+ - * a \"x", &mut NoStatements);
    let unexpected = "unexpected token, this needs to be a statement";
    let messages = messages(result.errors());
    for pair in messages.windows(2) {
        assert!(!(pair[0] == unexpected && pair[1] == unexpected));
    }
    assert_eq!(messages[0], unexpected);
    assert_eq!(messages.len(), 2);
}

#[test]
fn node_tokens_end_before_the_end_of_file() {
    for code in ["a b + c", "a b\nc  ", "x \"open\ny", "+ - z"] {
        let result = parse_fallible(code, &mut Identifiers);
        let eof_start = result.ast().eof().token().start_position().bytes();
        assert_eq!(eof_start, code.len());
        for stmt in result.ast().nodes().stmts() {
            for token in stmt.leading_trivia.iter().chain(std::iter::once(stmt.token())).chain(stmt.trailing_trivia.iter()) {
                assert!(token.end_position().bytes() <= eof_start);
            }
        }
    }
}

#[test]
fn errors_are_about_lexemes_of_the_code() {
    let code = "a \"x";
    let result = parse_fallible::<TokenReference, TokenReference, _>(code, &mut NoStatements);
    assert_eq!(result.errors().len(), 2);
    match &result.errors()[0] {
        Error::AstError(error) => {
            assert_eq!(error.token().to_string(), "a");
            assert_eq!(error.token().start_position().bytes(), 0);
        }
        Error::TokenizerError(_) => panic!("an unexpected token error was expected first"),
    }
    match &result.errors()[1] {
        Error::TokenizerError(error) => {
            assert_eq!(*error.error(), TokenizerErrorType::UnclosedString);
            assert_eq!(error.range().0.bytes(), 2);
        }
        Error::AstError(_) => panic!("a tokenizer error was expected second"),
    }
}
