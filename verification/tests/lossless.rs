use full_moon::lexer::{tokens, Lexer, LexerResult};

const SOURCE: &str = "local x = 1 -- one\nlocal s = [==[long\n]]string]==] .. 'q' --[[ block\n comment ]]\nreturn x + 0x1F * 2.5e3\n";

#[test]
fn tokens_print_back_the_source() {
    let tokens = tokens(SOURCE).unwrap();
    let printed: String = tokens.iter().map(|t| t.to_string()).collect();
    assert_eq!(printed, SOURCE);
}

#[test]
fn collect_prints_back_the_source() {
    match Lexer::new(SOURCE).collect() {
        LexerResult::Success(tokens) => {
            let printed: String = tokens.iter().map(|t| t.to_string()).collect();
            assert_eq!(printed, SOURCE);
        }
        _ => panic!("no error expected"),
    }
}

#[test]
fn token_references_print_back_the_source() {
    let mut lexer = Lexer::new(SOURCE);
    let mut printed = String::new();
    while let Some(result) = lexer.consume() {
        match result {
            LexerResult::Success(token) => printed.push_str(&token.to_string()),
            _ => panic!("no error expected"),
        }
    }
    assert_eq!(printed, SOURCE);
}

#[test]
fn first_error_is_reported() {
    let error = tokens("local x = \"open\nlocal y").unwrap_err();
    assert_eq!(error.to_string(), "unclosed string (1:11 to 1:16)");
    let error = tokens("x = 3g").unwrap_err();
    assert_eq!(error.error().to_string(), "invalid number");
}

#[test]
fn recovered_collect_keeps_going() {
    match Lexer::new("a $ b").collect() {
        LexerResult::Recovered(tokens, errors) => {
            assert_eq!(errors.len(), 1);
            assert_eq!(errors[0].error().to_string(), "unexpected character $");
            assert!(tokens.len() >= 3);
        }
        _ => panic!("a recovered result was expected"),
    }
}

#[test]
fn tokens_are_contiguous() {
    let tokens = tokens(SOURCE).unwrap();
    assert_eq!(tokens[0].start_position().bytes(), 0);
    assert_eq!(tokens[0].start_position().line(), 1);
    assert_eq!(tokens[0].start_position().character(), 1);
    for pair in tokens.windows(2) {
        assert_eq!(pair[0].end_position().bytes(), pair[1].start_position().bytes());
    }
    assert_eq!(tokens.last().unwrap().end_position().bytes(), SOURCE.len());
}
