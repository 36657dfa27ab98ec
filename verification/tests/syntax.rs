use full_moon::lexer::{Lexer, LexerResult};
use full_moon::parser_structs::ParserState;
use full_moon::symbol::{symbol_list, Symbol};
use full_moon::syntax::{BinOp, Return, UnOp};
use full_moon::tokenizer::{Token, TokenKind, TokenReference, TokenType, TokenizerErrorType};
use full_moon::versions::LuaVersion;

fn reference(code: &str) -> TokenReference {
    let mut lexer = Lexer::new(code);
    match lexer.consume().unwrap() {
        LexerResult::Success(token) => token,
        _ => panic!("no error expected"),
    }
}

#[test]
fn return_new_is_return_and_a_space() {
    let ret: Return<TokenReference> = Return::new();
    assert_eq!(ret.token().to_string(), "return ");
    assert!(ret.token().is_symbol(Symbol::Return));
    assert!(ret.values().is_empty());
    let ret = ret.with_values(vec![(reference("x"), None)]);
    assert_eq!(ret.values().len(), 1);
    let ret = ret.with_token(reference("return"));
    assert_eq!(ret.token().to_string(), "return");
}

#[test]
fn binary_operator_precedence() {
    assert_eq!(BinOp::precedence_of_token(&reference("^")), Some(12));
    assert_eq!(BinOp::precedence_of_token(&reference("*")), Some(10));
    assert_eq!(BinOp::precedence_of_token(&reference("//")), Some(10));
    assert_eq!(BinOp::precedence_of_token(&reference("+")), Some(9));
    assert_eq!(BinOp::precedence_of_token(&reference("..")), Some(8));
    assert_eq!(BinOp::precedence_of_token(&reference("<<")), Some(7));
    assert_eq!(BinOp::precedence_of_token(&reference("&")), Some(6));
    assert_eq!(BinOp::precedence_of_token(&reference("~")), Some(5));
    assert_eq!(BinOp::precedence_of_token(&reference("|")), Some(4));
    assert_eq!(BinOp::precedence_of_token(&reference("~=")), Some(3));
    assert_eq!(BinOp::precedence_of_token(&reference("and")), Some(2));
    assert_eq!(BinOp::precedence_of_token(&reference("or")), Some(1));
    assert_eq!(BinOp::precedence_of_token(&reference("local")), None);
    assert_eq!(BinOp::precedence_of_token(&reference("x")), None);
    let plus = BinOp::Plus(reference("+"));
    assert_eq!(plus.precedence(), 9);
    assert_eq!(plus.token().to_string(), "+");
}

#[test]
fn right_associative_operators() {
    assert!(BinOp::Caret(reference("^")).is_right_associative());
    assert!(BinOp::TwoDots(reference("..")).is_right_associative());
    assert!(!BinOp::Plus(reference("+")).is_right_associative());
    assert!(BinOp::is_right_associative_token(&reference("^")));
    assert!(BinOp::is_right_associative_token(&reference("..")));
    assert!(!BinOp::is_right_associative_token(&reference("-")));
    assert!(!BinOp::is_right_associative_token(&reference("x")));
}

#[test]
fn unary_operator_token() {
    assert_eq!(UnOp::Not(reference("not ")).token().to_string(), "not ");
    assert_eq!(UnOp::Hash(reference("#")).token().to_string(), "#");
}

#[test]
fn every_symbol_reads_back() {
    for symbol in symbol_list() {
        let text: String = symbol.text().into_iter().collect();
        assert_eq!(Symbol::from_str(&text, LuaVersion::new()), Some(symbol));
        assert_eq!(Symbol::from_chars(&symbol.text()), Some(symbol));
    }
    assert_eq!(Symbol::from_str("nope", LuaVersion::new()), None);
}

#[test]
fn symbols_of_lua_versions() {
    assert_eq!(Symbol::from_str("local", LuaVersion::lua51()), Some(Symbol::Local));
    assert_eq!(Symbol::from_str("goto", LuaVersion::lua52()), Some(Symbol::Goto));
    assert_eq!(Symbol::from_str("goto", LuaVersion::lua51()), None);
    assert_eq!(Symbol::from_str("//", LuaVersion::lua51()), None);
    assert_eq!(Symbol::from_str("//", LuaVersion::lua53()), Some(Symbol::DoubleSlash));
    assert_eq!(Symbol::from_str("//", LuaVersion::luau()), Some(Symbol::DoubleSlash));
    assert_eq!(Symbol::from_str("+=", LuaVersion::lua53()), None);
    assert_eq!(Symbol::from_str("+=", LuaVersion::luau()), Some(Symbol::PlusEqual));
    assert_eq!(Symbol::from_str("::", LuaVersion::lua52()), Some(Symbol::TwoColons));
    assert_eq!(Symbol::from_str("~", LuaVersion::lua52()), None);
    assert!(Symbol::Tilde.in_versions(LuaVersion::lua53()));
    assert!(Symbol::Plus.in_versions(LuaVersion::lua51()));
}

#[test]
fn symbol_specific_lua_version_reads_one_symbol() {
    let plus = TokenReference::symbol_specific_lua_version(" + ").unwrap();
    assert_eq!(plus.to_string(), " + ");
    assert!(plus.is_symbol(Symbol::Plus));
    assert_eq!(
        TokenReference::symbol_specific_lua_version("x").unwrap_err(),
        TokenizerErrorType::UnexpectedToken('x')
    );
    assert_eq!(
        TokenReference::symbol_specific_lua_version("  "),
        Err(TokenizerErrorType::InvalidSymbol("  ".into()))
    );
    assert_eq!(
        TokenReference::symbol_specific_lua_version("+ +"),
        Err(TokenizerErrorType::UnexpectedToken('+'))
    );
    let basic = TokenReference::basic_symbol("local ");
    assert!(basic.is_symbol(Symbol::Local));
}

#[test]
fn lua_versions() {
    let all = LuaVersion::new();
    assert!(all.has_luau() && all.has_lua52() && all.has_lua53());
    assert_eq!(LuaVersion::default(), all);
    let none = LuaVersion::lua51();
    assert!(!none.has_luau() && !none.has_lua52() && !none.has_lua53());
    let luau = LuaVersion::luau();
    assert!(luau.has_luau() && !luau.has_lua52() && !luau.has_lua53());
    let lua52 = LuaVersion::lua52();
    assert!(!lua52.has_luau() && lua52.has_lua52() && !lua52.has_lua53());
    let lua53 = LuaVersion::lua53();
    assert!(!lua53.has_luau() && lua53.has_lua52() && lua53.has_lua53());
    let mixed = LuaVersion::lua51().with_luau().with_lua53();
    assert!(mixed.has_luau() && mixed.has_lua52() && mixed.has_lua53());
    assert_eq!(mixed, all);
    let mixed = LuaVersion::lua52().with_luau();
    assert!(mixed.has_luau() && mixed.has_lua52() && !mixed.has_lua53());
    assert_eq!(LuaVersion::lua51().with_lua52().with_lua52(), LuaVersion::lua52());
}

#[test]
fn token_kinds_and_trivia() {
    let token = Token::new(TokenType::Whitespace { characters: "  ".into() });
    assert!(token.token_type().is_trivia());
    assert_eq!(TokenType::spaces(3), TokenType::Whitespace { characters: "   ".into() });
    assert_eq!(TokenType::tabs(2), TokenType::Whitespace { characters: "\t\t".into() });
    assert!(!TokenType::Symbol { symbol: Symbol::Plus }.is_trivia());
}

#[test]
fn binary_operator_consume() {
    let mut state = ParserState::new(Lexer::new("+ x"));
    let op = BinOp::consume(&mut state, LuaVersion::lua51()).unwrap();
    assert!(matches!(op, BinOp::Plus(_)));
    assert_eq!(op.token().to_string(), "+ ");
    // Not an operator: nothing is consumed.
    assert!(BinOp::consume(&mut state, LuaVersion::new()).is_none());
    assert_eq!(state.current().unwrap().token().to_string(), "x");

    let mut state = ParserState::new(Lexer::new("// 2"));
    assert!(BinOp::consume(&mut state, LuaVersion::lua51()).is_none());
    assert!(BinOp::consume(&mut state, LuaVersion::lua52()).is_none());
    assert!(matches!(BinOp::consume(&mut state, LuaVersion::luau()), Some(BinOp::DoubleSlash(_))));

    let mut state = ParserState::new(Lexer::new("& 2"));
    assert!(BinOp::consume(&mut state, LuaVersion::luau()).is_none());
    assert!(matches!(BinOp::consume(&mut state, LuaVersion::lua53()), Some(BinOp::Ampersand(_))));

    let mut state = ParserState::new(Lexer::new("local"));
    assert!(BinOp::consume(&mut state, LuaVersion::new()).is_none());
    assert!(state.current().unwrap().is_symbol(Symbol::Local));
}

#[test]
fn token_type_kind() {
    assert_eq!(TokenType::Identifier { identifier: "hello".into() }.kind(), TokenKind::Identifier);
    assert_eq!(TokenType::Eof.kind(), TokenKind::Eof);
}

#[test]
fn symbol_with_its_whitespace() {
    let symbol = TokenReference::symbol_specific_lua_version("\nreturn ").unwrap();
    assert_eq!(symbol.leading_trivia()[0].to_string(), "\n");
    assert_eq!(symbol.token().token_type(), &TokenType::Symbol { symbol: Symbol::Return });
    assert_eq!(symbol.trailing_trivia()[0].to_string(), " ");
    assert!(TokenReference::symbol_specific_lua_version("isnt whitespace").is_err());
    assert!(TokenReference::symbol_specific_lua_version(" notasymbol ").is_err());
}

#[test]
fn return_text() {
    let ret: Return<TokenReference> = Return::new();
    assert_eq!(ret.to_string(), "return ");
    let ret = ret.with_values(vec![(reference("x"), Some(reference(", "))), (reference("y"), None)]);
    assert_eq!(ret.to_string(), "return x, y");
}
