use full_moon::lexer::tokens;
use full_moon::position::Position;
use full_moon::symbol::Symbol;
use full_moon::tokenizer::{StringLiteralQuoteType, Token, TokenType, TokenizerError, TokenizerErrorType};

fn rule_gives(code: &str, expected: TokenType) {
    let tokens = tokens(code).expect("couldn't tokenize");
    let first_token = tokens.get(0).expect("tokenized response is empty");
    assert_eq!(*first_token.token_type(), expected);
}

fn rule_fails(code: &str, expected: TokenizerErrorType) {
    if let Err(TokenizerError { error, .. }) = tokens(code) {
        assert_eq!(error, expected);
    } else {
        panic!("tokenization should fail");
    }
}

#[test]
fn test_rule_comment() {
    rule_gives(
        "-- hello world",
        TokenType::SingleLineComment {
            comment: " hello world".into(),
        },
    );
    rule_gives(
        "--[[ hello world ]]",
        TokenType::MultiLineComment {
            blocks: 0,
            comment: " hello world ".into(),
        },
    );
    rule_gives(
        "--[=[ hello world ]=]",
        TokenType::MultiLineComment {
            blocks: 1,
            comment: " hello world ".into(),
        },
    );
    rule_gives("--", TokenType::SingleLineComment { comment: "".into() });
}

#[test]
fn test_rule_numbers() {
    rule_gives("213", TokenType::Number { text: "213".into() });
    rule_gives("1", TokenType::Number { text: "1".into() });
    rule_gives("123.45", TokenType::Number { text: "123.45".into() });
}

#[test]
fn test_rule_binary_literals() {
    rule_gives("0b101", TokenType::Number { text: "0b101".into() });
}

#[test]
fn test_rule_identifier() {
    rule_gives("hello", TokenType::Identifier { identifier: "hello".into() });
    rule_gives("hello world", TokenType::Identifier { identifier: "hello".into() });
    rule_gives("hello___", TokenType::Identifier { identifier: "hello___".into() });
}

#[test]
fn test_rule_symbols() {
    rule_gives("local", TokenType::Symbol { symbol: Symbol::Local });
}

#[test]
fn test_rule_whitespace() {
    rule_gives("\t  \n\t", TokenType::Whitespace { characters: "\t  \n".into() });
    rule_gives("\thello", TokenType::Whitespace { characters: "\t".into() });
    rule_gives("\t\t\nhello", TokenType::Whitespace { characters: "\t\t\n".into() });
    rule_gives("\n\thello", TokenType::Whitespace { characters: "\n".into() });
}

#[test]
fn test_rule_string_literal() {
    rule_gives(
        "\"hello\"",
        TokenType::StringLiteral {
            literal: "hello".into(),
            multi_line_depth: 0,
            quote_type: StringLiteralQuoteType::Double,
        },
    );
    rule_gives(
        "\"hello\\\nworld\"",
        TokenType::StringLiteral {
            literal: "hello\\\nworld".into(),
            multi_line_depth: 0,
            quote_type: StringLiteralQuoteType::Double,
        },
    );
    rule_gives(
        "'hello world \\'goodbye\\''",
        TokenType::StringLiteral {
            literal: "hello world \\'goodbye\\'".into(),
            multi_line_depth: 0,
            quote_type: StringLiteralQuoteType::Single,
        },
    );
    rule_fails("\"hello", TokenizerErrorType::UnclosedString);
}

#[test]
fn test_string_z_escape() {
    rule_gives(
        "'hello \\z\nworld'",
        TokenType::StringLiteral {
            literal: "hello \\z\nworld".into(),
            multi_line_depth: 0,
            quote_type: StringLiteralQuoteType::Single,
        },
    );
}

#[test]
fn test_symbols_within_symbols() {
    // "index" should not return "in"
    rule_gives("index", TokenType::Identifier { identifier: "index".into() });
    // "<=" should not return "<"
    rule_gives("<=", TokenType::Symbol { symbol: Symbol::LessThanEqual });
}

#[test]
fn test_rule_shebang() {
    rule_gives(
        "#!/usr/bin/env lua\n",
        TokenType::Shebang { line: "#!/usr/bin/env lua\n".into() },
    );
    // Don't recognize with a whitespace.
    rule_fails(" #!/usr/bin/env lua\n", TokenizerErrorType::UnexpectedShebang);
}

#[test]
fn test_rule_bom() {
    let bom = String::from_utf8(b"\xEF\xBB\xBF".to_vec()).unwrap();
    rule_gives(&bom, TokenType::Whitespace { characters: bom.clone() });
    // Don't recognize if not in the beginning.
    rule_fails(
        &format!("#!/usr/bin/env lua\n {bom}"),
        TokenizerErrorType::UnexpectedToken('\u{feff}'),
    );
}

#[test]
fn test_new_line_on_same_line() {
    assert_eq!(
        tokens("\n").unwrap()[0],
        Token {
            start_position: Position { bytes: 0, character: 1, line: 1 },
            end_position: Position { bytes: 1, character: 1, line: 1 },
            token_type: TokenType::Whitespace { characters: "\n".into() },
        }
    );
}

#[test]
fn test_fuzzer() {
    let _ = tokens("*ա");
    let _ = tokens("̹(");
    let _ = tokens("¹;");
}
