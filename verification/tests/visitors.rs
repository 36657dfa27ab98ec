use full_moon::ast::{print, Ast, Block};
use full_moon::lexer::{Lexer, LexerResult};
use full_moon::tokenizer::{Token, TokenKind, TokenReference, TokenType};
use full_moon::visitors::{
    token_hook, visit_ast, visit_ast_mut, BlockVisitor, BlockVisitorMut, TokenHook, Visit, VisitMut, Visitor,
    VisitorMut,
};

fn references(code: &str) -> Vec<TokenReference> {
    let mut lexer = Lexer::new(code);
    let mut out = Vec::new();
    while let Some(result) = lexer.consume() {
        match result {
            LexerResult::Success(token) => out.push(token),
            _ => panic!("no error expected"),
        }
    }
    out
}

#[derive(Default)]
struct Counter {
    tokens: usize,
    identifiers: Vec<String>,
    symbols: usize,
    whitespace: usize,
    eofs: usize,
    blocks: usize,
}

impl Visitor for Counter {
    fn visit_token(mut self, _token: &Token) -> Self {
        self.tokens += 1;
        self
    }
    fn visit_identifier(mut self, token: &Token) -> Self {
        self.identifiers.push(token.to_string());
        self
    }
    fn visit_symbol(mut self, _token: &Token) -> Self {
        self.symbols += 1;
        self
    }
    fn visit_whitespace(mut self, _token: &Token) -> Self {
        self.whitespace += 1;
        self
    }
    fn visit_eof(mut self, _node: &TokenReference) -> Self {
        self.eofs += 1;
        self
    }
}

impl<St, La> BlockVisitor<St, La> for Counter {
    fn visit_block(mut self, _node: &Block<St, La>) -> Self {
        self.blocks += 1;
        self
    }
}

struct Renamer;

impl VisitorMut for Renamer {
    fn visit_identifier(self, token: Token) -> (Self, Token) {
        let mut token = token;
        token.token_type = TokenType::Identifier { identifier: "renamed".into() };
        (self, token)
    }
}

impl<St, La> BlockVisitorMut<St, La> for Renamer {}

#[test]
fn token_hooks_by_kind() {
    assert_eq!(token_hook(TokenKind::Eof), None);
    assert_eq!(token_hook(TokenKind::Shebang), None);
    assert_eq!(token_hook(TokenKind::Identifier), Some(TokenHook::Identifier));
    assert_eq!(token_hook(TokenKind::Whitespace), Some(TokenHook::Whitespace));
    assert_eq!(token_hook(TokenKind::InterpolatedString), Some(TokenHook::InterpolatedStringSegment));
}

#[test]
fn visitor_sees_every_token() {
    let mut refs = references("a = b");
    let eof = refs.pop().unwrap();
    let block: Block<TokenReference, TokenReference> =
        Block::new().with_stmts(refs.into_iter().map(|t| (t, None)).collect());
    let ast = Ast::new(block, eof);
    let counter = visit_ast(Counter::default(), &ast);
    assert_eq!(counter.identifiers, vec!["a", "b"]);
    assert_eq!(counter.symbols, 1);
    assert_eq!(counter.whitespace, 2);
    assert_eq!(counter.eofs, 1);
    assert_eq!(counter.blocks, 1);
    // Each token reference hands its token twice to visit_token: a, =, b and the end of file,
    // plus the two whitespace tokens once each.
    assert_eq!(counter.tokens, 10);
}

#[test]
fn visitor_mut_rewrites_identifiers() {
    let mut refs = references("a = b");
    let eof = refs.pop().unwrap();
    let block: Block<TokenReference, TokenReference> =
        Block::new().with_stmts(refs.into_iter().map(|t| (t, None)).collect());
    let (_, ast) = visit_ast_mut(Renamer, Ast::new(block, eof));
    assert_eq!(print(&ast), "renamed = renamed");
}

#[test]
fn visit_mut_keeps_lengths() {
    let refs = references("x y z");
    let n = refs.len();
    let (_, out) = refs.visit_mut(Renamer);
    assert_eq!(out.len(), n);
    let texts: Vec<String> = out.iter().map(|t| t.to_string()).collect();
    assert_eq!(texts, vec!["renamed ", "renamed ", "renamed", ""]);
    let none: Option<TokenReference> = None;
    assert!(none.visit_mut(Renamer).1.is_none());
    let counter = (references("q")[0].clone(), Some(references("r")[0].clone())).visit(Counter::default());
    assert_eq!(counter.identifiers, vec!["q", "r"]);
}

#[derive(Default)]
struct Recorder {
    calls: Vec<&'static str>,
}

impl Visitor for Recorder {
    fn visit_token(mut self, _token: &Token) -> Self {
        self.calls.push("token");
        self
    }
    fn visit_identifier(mut self, _token: &Token) -> Self {
        self.calls.push("identifier");
        self
    }
    fn visit_whitespace(mut self, _token: &Token) -> Self {
        self.calls.push("whitespace");
        self
    }
    fn visit_eof(mut self, _node: &TokenReference) -> Self {
        self.calls.push("eof");
        self
    }
}

impl<St, La> BlockVisitor<St, La> for Recorder {
    fn visit_block(mut self, _node: &Block<St, La>) -> Self {
        self.calls.push("block");
        self
    }
    fn visit_block_end(mut self, _node: &Block<St, La>) -> Self {
        self.calls.push("block_end");
        self
    }
}

#[test]
fn token_visit_calls_visit_token_then_the_kind_hook() {
    let identifier = Token::new(TokenType::Identifier { identifier: "a".into() });
    assert_eq!(identifier.visit(Recorder::default()).calls, vec!["token", "identifier"]);
    let eof = Token::new(TokenType::Eof);
    assert_eq!(eof.visit(Recorder::default()).calls, vec!["token"]);
}

#[test]
fn ast_visit_order() {
    let mut refs = references("a ");
    let eof = refs.pop().unwrap();
    let block: Block<TokenReference, TokenReference> =
        Block::new().with_stmts(refs.into_iter().map(|t| (t, None)).collect());
    let recorder = visit_ast(Recorder::default(), &Ast::new(block, eof));
    assert_eq!(
        recorder.calls,
        vec![
            "block", "token", "token", "identifier", "token", "whitespace", "block_end", "token", "eof",
            "token"
        ]
    );
}

/// Turns every token into a space, and records the hooks it is handed to.
#[derive(Default)]
struct Blanker {
    calls: Vec<&'static str>,
}

impl VisitorMut for Blanker {
    fn visit_token(mut self, token: Token) -> (Self, Token) {
        self.calls.push("token");
        let mut token = token;
        token.token_type = TokenType::spaces(1);
        (self, token)
    }
    fn visit_identifier(mut self, token: Token) -> (Self, Token) {
        self.calls.push("identifier");
        (self, token)
    }
    fn visit_whitespace(mut self, token: Token) -> (Self, Token) {
        self.calls.push("whitespace");
        (self, token)
    }
}

#[test]
fn token_visit_mut_picks_the_hook_by_what_visit_token_gave() {
    let identifier = Token::new(TokenType::Identifier { identifier: "a".into() });
    let (blanker, token) = identifier.visit_mut(Blanker::default());
    assert_eq!(blanker.calls, vec!["token", "whitespace"]);
    assert_eq!(token.to_string(), " ");
    let (_, same) = Token::new(TokenType::Identifier { identifier: "b".into() }).visit_mut(Renamer);
    assert_eq!(same.to_string(), "renamed");
}
