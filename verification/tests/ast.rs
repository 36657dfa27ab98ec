use full_moon::ast::{print, Ast, AstResult, Block};
use full_moon::error::{AstError, Error};
use full_moon::lexer::{Lexer, LexerResult};
use full_moon::node::Node;
use full_moon::position::Position;
use full_moon::span::ContainedSpan;
use full_moon::tokenizer::{Token, TokenReference, TokenType, TokenizerError, TokenizerErrorType};
use full_moon::util::{
    display_option, display_optional_punctuated, display_optional_punctuated_vec,
    empty_optional_vector, join_iterators, join_type_specifiers, join_vec,
};

/// The token references of `code`, in order, the end of file included.
fn references(code: &str) -> Vec<TokenReference> {
    let mut lexer = Lexer::new(code);
    let mut out = Vec::new();
    while let Some(result) = lexer.consume() {
        match result {
            LexerResult::Success(token) => out.push(token),
            _ => panic!("no error expected"),
        }
    }
    out
}

type TestBlock = Block<TokenReference, TokenReference>;

fn sample_block() -> (TestBlock, TokenReference) {
    let mut refs = references("a; b return c");
    let eof = refs.pop().unwrap();
    let c = refs.pop().unwrap();
    let ret = refs.pop().unwrap();
    let b = refs.pop().unwrap();
    let semi = refs.pop().unwrap();
    let a = refs.pop().unwrap();
    let block = Block::new()
        .with_stmts(vec![(a, Some(semi)), (b, None)])
        .with_last_stmt(Some((ret, Some(c))));
    (block, eof)
}

#[test]
fn block_accessors() {
    let (block, _) = sample_block();
    let stmts: Vec<String> = block.stmts().iter().map(|s| s.to_string()).collect();
    assert_eq!(stmts, vec!["a", "b "]);
    assert_eq!(block.stmts_with_semicolon().len(), 2);
    assert!(block.stmts_with_semicolon()[0].1.is_some());
    assert!(block.stmts_with_semicolon()[1].1.is_none());
    assert_eq!(block.last_stmt().unwrap().to_string(), "return ");
    assert_eq!(block.last_stmt_with_semicolon().unwrap().1.as_ref().unwrap().to_string(), "c");
    let empty: TestBlock = Block::new();
    assert!(empty.stmts().is_empty());
    assert!(empty.last_stmt().is_none());
    let default: TestBlock = Block::default();
    assert!(default.last_stmt_with_semicolon().is_none());
}

#[test]
fn merge_blocks_appends_and_keeps_the_first_last_statement() {
    let (mut first, _) = sample_block();
    let (second, _) = sample_block();
    first.merge_blocks(second);
    assert_eq!(first.stmts().len(), 4);
    assert_eq!(first.last_stmt().unwrap().to_string(), "return ");

    let mut empty: TestBlock = Block::new();
    let (other, _) = sample_block();
    empty.merge_blocks(other);
    assert_eq!(empty.stmts().len(), 2);
    assert!(empty.last_stmt().is_some());

    let (mut kept, _) = sample_block();
    kept.merge_blocks(Block::new());
    assert_eq!(kept.stmts().len(), 2);
    assert_eq!(kept.last_stmt().unwrap().to_string(), "return ");
}

#[test]
fn merge_blocks_is_associative_on_an_example() {
    let (a1, _) = sample_block();
    let b1: TestBlock = Block::new().with_stmts(references("x y").into_iter().map(|t| (t, None)).collect());
    let (c1, _) = sample_block();
    let mut left = a1;
    let mut ab = left;
    ab.merge_blocks(b1);
    ab.merge_blocks(c1);
    left = ab;

    let (a2, _) = sample_block();
    let mut b2: TestBlock = Block::new().with_stmts(references("x y").into_iter().map(|t| (t, None)).collect());
    let (c2, _) = sample_block();
    b2.merge_blocks(c2);
    let mut right = a2;
    right.merge_blocks(b2);

    let l: Vec<String> = left.stmts().iter().map(|s| s.to_string()).collect();
    let r: Vec<String> = right.stmts().iter().map(|s| s.to_string()).collect();
    assert_eq!(l, r);
    assert_eq!(left.last_stmt().map(|s| s.to_string()), right.last_stmt().map(|s| s.to_string()));
}

#[test]
fn print_gives_back_the_code() {
    let (block, eof) = sample_block();
    let ast = Ast::new(block, eof);
    assert_eq!(print(&ast), "a; b return c");
}

#[test]
fn ast_with_eof_and_nodes() {
    let (block, eof) = sample_block();
    let ast = Ast::new(block, eof);
    let eof = ast.eof().clone();
    let ast = ast.with_eof(eof);
    assert_eq!(print(&ast), "a; b return c");
    let ast = ast.with_nodes(Block::new());
    assert_eq!(print(&ast), "");
    let (block, eof) = sample_block();
    let mut ast = Ast::new(block, eof);
    ast.nodes_mut().merge_blocks(Block::new().with_stmts(references(" z").into_iter().map(|t| (t, None)).collect()));
    // The statements come before the last statement.
    assert_eq!(print(&ast), "a; b  zreturn c");
    assert_eq!(ast.nodes().stmts().len(), 4);
}

#[test]
fn ast_node_positions() {
    let (block, eof) = sample_block();
    let ast = Ast::new(block, eof);
    assert_eq!(ast.start_position().unwrap().bytes(), 0);
    assert_eq!(ast.end_position().unwrap().bytes(), 13);
    let range = ast.range().unwrap();
    assert_eq!((range.0.bytes(), range.1.bytes()), (0, 13));
    assert_eq!(ast.tokens().len(), 5);
}

#[test]
fn ast_result_into_result() {
    let (block, eof) = sample_block();
    let result = AstResult::new(Ast::new(block, eof), Vec::new());
    assert!(result.errors().is_empty());
    assert_eq!(print(result.ast()), "a; b return c");
    assert!(result.into_result().is_ok());

    let (block, eof) = sample_block();
    let error = Error::AstError(AstError {
        token: Token::new(TokenType::Eof),
        additional: "oops".into(),
        range: None,
    });
    let result = AstResult::new(Ast::new(block, eof), vec![error]);
    assert_eq!(result.errors().len(), 1);
    match result.into_result() {
        Err(errors) => assert_eq!(errors[0].error_message(), "oops"),
        Ok(_) => panic!("errors were expected"),
    }
    let (block, eof) = sample_block();
    let result = AstResult::new(Ast::new(block, eof), Vec::new());
    assert_eq!(print(&result.into_ast()), "a; b return c");
}

#[test]
fn errors_messages_and_ranges() {
    let token = Token::new(TokenType::Identifier { identifier: "x".into() });
    let without_range = AstError { token: token.clone(), additional: "bad x".into(), range: None };
    assert_eq!(without_range.range(), (token.start_position(), token.end_position()));
    let p = Position { bytes: 3, line: 1, character: 4 };
    let q = Position { bytes: 9, line: 2, character: 2 };
    let with_range = AstError { token, additional: "bad x".into(), range: Some((p, q)) };
    assert_eq!(with_range.range(), (p, q));
    assert_eq!(Error::AstError(with_range).range(), (p, q));

    let tokenizer_error = TokenizerError { error: TokenizerErrorType::UnclosedString, range: (p, q) };
    let error = Error::TokenizerError(tokenizer_error);
    assert_eq!(error.error_message(), "unclosed string (1:4 to 2:2)");
    assert_eq!(error.range(), (p, q));
    assert_eq!(Error::AstError(without_range).error_message(), "bad x");
}

#[test]
fn contained_span_bounds() {
    let refs = references("( x )");
    let span = ContainedSpan::new(refs[0].clone(), refs[2].clone());
    let (open, close) = span.tokens();
    assert_eq!(open.to_string(), "( ");
    assert_eq!(close.to_string(), ")");
    assert_eq!(span.start_position().unwrap().bytes(), 0);
    assert_eq!(span.end_position().unwrap().bytes(), 5);
    assert_eq!(Node::tokens(&span).len(), 2);
    let copy = span.clone();
    assert!(span.similar(&copy));
}

#[test]
fn node_positions_of_collections() {
    let refs = references("a b c");
    let a = refs[0].clone();
    let c = refs[2].clone();
    // A pair starts at the earlier start and ends at the later end, whatever the order.
    let pair = (c.clone(), a.clone());
    assert_eq!(pair.start_position().unwrap().bytes(), 0);
    assert_eq!(pair.end_position().unwrap().bytes(), 5);
    let none: Option<TokenReference> = None;
    assert!(none.start_position().is_none());
    assert!(none.range().is_none());
    let v = vec![a.clone(), c.clone()];
    assert_eq!(v.start_position().unwrap().bytes(), 0);
    assert_eq!(v.end_position().unwrap().bytes(), 5);
    let empty: Vec<TokenReference> = Vec::new();
    assert!(empty.end_position().is_none());
}

#[test]
fn node_similarity_ignores_positions() {
    let first = references("x")[0].clone();
    let second = references("   x")[0].clone();
    assert!(first.similar(&second));
    let other = references("y")[0].clone();
    assert!(!first.similar(&other));
    assert!(vec![first.clone()].similar(&vec![second.clone()]));
    assert!(!vec![first.clone()].similar(&vec![second.clone(), other.clone()]));
    assert!(Some(first.clone()).similar(&Some(second.clone())));
    assert!(!Some(first.clone()).similar(&None));
}

#[test]
fn surrounding_trivia_of_nodes() {
    let refs = references(" a  b ");
    let a = refs[0].clone();
    let b = refs[1].clone();
    let (leading, trailing) = (a.clone(), b.clone()).surrounding_trivia();
    assert_eq!(leading.len(), 1);
    assert_eq!(leading[0].to_string(), " ");
    assert_eq!(trailing.len(), 1);
    assert_eq!(trailing[0].to_string(), " ");
    // A single token reference gives its own leading and trailing trivia.
    let (leading, trailing) = b.surrounding_trivia();
    assert!(leading.is_empty());
    assert_eq!(trailing.len(), 1);
    let (leading, trailing) = a.surrounding_trivia();
    assert_eq!(leading.len(), 1);
    assert_eq!(trailing.len(), 1);
    // An identifier followed by one space.
    let space = Token::new(TokenType::spaces(1));
    let foo = TokenReference::new(
        Vec::new(),
        Token::new(TokenType::Identifier { identifier: "foo".into() }),
        vec![space.clone()],
    );
    let (leading, trailing) = foo.surrounding_trivia();
    assert!(leading.is_empty());
    assert_eq!(trailing, vec![space]);
    let none: Option<TokenReference> = None;
    let (leading, trailing) = none.surrounding_trivia();
    assert!(leading.is_empty() && trailing.is_empty());
}

#[test]
fn tokens_iterate_from_both_ends() {
    let refs = references("a b c");
    let mut tokens = refs.tokens();
    assert_eq!(tokens.len(), 4);
    assert_eq!(tokens.next().unwrap().to_string(), "a ");
    assert_eq!(tokens.next_back().unwrap().to_string(), "");
    assert_eq!(tokens.next_back().unwrap().to_string(), "c");
    assert_eq!(tokens.next().unwrap().to_string(), "b ");
    assert!(tokens.next().is_none());
    assert!(tokens.next_back().is_none());
}

#[test]
fn util_display_helpers() {
    let refs = references("a, b c");
    let a = refs[0].clone();
    let comma = refs[1].clone();
    let b = refs[2].clone();
    let c = refs[3].clone();
    assert_eq!(join_vec(&[a.clone(), comma.clone(), b.clone(), c.clone()]), "a, b c");
    assert_eq!(join_vec(&[a.clone(), b.clone(), c.clone()]), "ab c");
    assert_eq!(display_option(&Some(b.clone())), "b ");
    assert_eq!(display_option::<TokenReference>(&None), "");
    assert_eq!(display_optional_punctuated(&(a.clone(), Some(comma.clone()))), "a, ");
    assert_eq!(display_optional_punctuated(&(c.clone(), None)), "c");
    let pairs = vec![(a.clone(), Some(comma.clone())), (b.clone(), None)];
    assert_eq!(display_optional_punctuated_vec(&pairs), "a, b ");
    assert!(empty_optional_vector::<u8>(&vec![None, None]));
    assert!(empty_optional_vector::<u8>(&Vec::new()));
    assert!(!empty_optional_vector(&vec![None, Some(1)]));
    // Only as many as the shortest of the three.
    let joined = join_iterators(&pairs, &[Some(c.clone())], &[None::<TokenReference>, None]);
    assert_eq!(joined, "ac, ");
    // Every parameter, with a type specifier where there is one.
    let joined = join_type_specifiers(&pairs, &[None, Some(c.clone())]);
    assert_eq!(joined, "a, b c");
    let joined = join_type_specifiers::<TokenReference, TokenReference>(&pairs, &[]);
    assert_eq!(joined, "a, b ");
}

#[test]
fn error_texts() {
    let token = Token::new(TokenType::Identifier { identifier: "x".into() });
    let error = AstError { token, additional: "bad x".into(), range: None };
    assert_eq!(
        error.to_string(),
        "unexpected token `x`. (starting from line 0, character 0 and ending on line 0, character 0)\nadditional information: bad x"
    );
    assert_eq!(
        Error::AstError(error).to_string(),
        "error occurred while creating ast: unexpected token `x`. (starting from line 0, character 0 and ending on line 0, character 0)\nadditional information: bad x"
    );
    let p = Position { bytes: 3, line: 1, character: 4 };
    let q = Position { bytes: 9, line: 2, character: 2 };
    let error = Error::TokenizerError(TokenizerError { error: TokenizerErrorType::UnclosedString, range: (p, q) });
    assert_eq!(error.to_string(), "error occurred while tokenizing: unclosed string (1:4 to 2:2)");
}
