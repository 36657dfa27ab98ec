//! Reading a single symbol, with the whitespace around it, from text.
use vstd::prelude::*;

use crate::grammar::{
    lemma_lex_progress, lemma_lexed_token_text, lemma_lexed_run_push, lex_case, lex_end,
    lex_error, lexed_run, lexed_run_end, no_eof, token_lexed, LexCase,
};
use crate::grammar::lemma_lexed_run_text;
use crate::lexer::{lemma_all_tokens_display, Lexer, LexerResult};
use crate::position::source_fits;
use crate::tokenizer::{Token, TokenReference, TokenType, TokenizerErrorType};

verus! {

/// The lexeme at `i` gives whitespace.
pub open spec fn lex_gives_whitespace(t: Seq<char>, i: int) -> bool {
    match lex_case(t, i) {
        LexCase::ByteOrderMark | LexCase::Space | LexCase::Newline => true,
        _ => false,
    }
}

/// The lexeme at `i` gives a symbol.
pub open spec fn lex_gives_symbol(t: Seq<char>, i: int) -> bool {
    match lex_case(t, i) {
        LexCase::Word => crate::symbol::spec_symbol_from_chars(t.subrange(i, lex_end(t, i))) is Some,
        LexCase::Operator => true,
        LexCase::Bracket => !crate::grammar::is_long_open(t, i),
        _ => false,
    }
}

/// How reading a single symbol from text turns out.
pub enum SymbolOutcome {
    /// Whitespace, one symbol, whitespace, and nothing else.
    Fine,
    /// A lexeme was an error.
    LexError(TokenizerErrorType),
    /// The text ended before any symbol.
    NoSymbol,
    /// A token other than whitespace stood where it should not, starting with this character.
    Unexpected(char),
}

/// How reading a single symbol from `t` turns out from `i` on, `found` telling whether the
/// symbol was read already.
pub open spec fn symbol_outcome(t: Seq<char>, i: int, found: bool) -> SymbolOutcome
    decreases t.len() - i,
{
    if i < 0 || i >= t.len() {
        if found {
            SymbolOutcome::Fine
        } else {
            SymbolOutcome::NoSymbol
        }
    } else if lex_error(t, i) is Some {
        SymbolOutcome::LexError(lex_error(t, i)->0)
    } else if lex_gives_whitespace(t, i) {
        proof {
            lemma_lex_progress(t, i);
        }
        symbol_outcome(t, lex_end(t, i), found)
    } else if !found && lex_gives_symbol(t, i) {
        proof {
            lemma_lex_progress(t, i);
        }
        symbol_outcome(t, lex_end(t, i), true)
    } else {
        SymbolOutcome::Unexpected(t[i])
    }
}

/// All tokens of `v` are whitespace.
pub open spec fn all_whitespace(v: Seq<Token>) -> bool {
    forall|k: int| 0 <= k < v.len() ==> (#[trigger] v[k]).token_type is Whitespace
}

proof fn lemma_token_class(t: Seq<char>, i: int, tok: Token)
    requires
        0 <= i < t.len(),
        lex_error(t, i) is None,
        token_lexed(t, i, lex_end(t, i), tok),
    ensures
        (tok.token_type is Whitespace) == lex_gives_whitespace(t, i),
        (tok.token_type is Symbol) == lex_gives_symbol(t, i),
        !(tok.token_type is Eof),
        tok.spec_display().len() > 0,
        tok.spec_display()[0] == t[i],
{
    reveal(token_lexed);
    lemma_lex_progress(t, i);
    lemma_lexed_token_text(t, i, lex_end(t, i), tok);
}

impl TokenReference {
    /// Returns a symbol with the leading and trailing whitespace, but only if the text is
    /// whitespace, one symbol, and whitespace.
    #[verifier::rlimit(40)]
    pub fn symbol_specific_lua_version(text: &str) -> (r: Result<Self, TokenizerErrorType>)
        requires
            source_fits(text@),
        ensures
            (r is Ok) == (symbol_outcome(text@, 0, false) is Fine),
            r matches Ok(tr) ==> {
                &&& lexed_run(text@, 0, tr.spec_all_tokens())
                &&& lexed_run_end(text@, 0, tr.spec_all_tokens()) == text@.len()
                &&& tr.spec_display() == text@
                &&& all_whitespace(tr.leading_trivia@)
                &&& tr.token.token_type is Symbol
                &&& all_whitespace(tr.trailing_trivia@)
            },
            symbol_outcome(text@, 0, false) matches SymbolOutcome::LexError(e) ==> r == Err::<
                Self,
                TokenizerErrorType,
            >(e),
            symbol_outcome(text@, 0, false) matches SymbolOutcome::NoSymbol ==> (r matches Err(
                TokenizerErrorType::InvalidSymbol(s),
            ) && s@ == text@),
            symbol_outcome(text@, 0, false) matches SymbolOutcome::Unexpected(c) ==> r == Err::<
                Self,
                TokenizerErrorType,
            >(TokenizerErrorType::UnexpectedToken(c)),
    {
        let ghost t = text@;
        let mut lexer = Lexer::new_lazy(text);
        let mut leading_trivia: Vec<Token> = Vec::new();
        let mut symbol: Option<Token> = None;
        while symbol.is_none()
            invariant
                t == text@,
                source_fits(t),
                lexer.wf(),
                lexer.text() == t,
                !lexer.has_sent_eof(),
                0 <= lexer.index() <= t.len(),
                lexed_run(t, 0, leading_trivia@),
                all_whitespace(leading_trivia@),
                no_eof(leading_trivia@),
                symbol is None ==> lexed_run_end(t, 0, leading_trivia@) == lexer.index()
                    && symbol_outcome(t, 0, false) == symbol_outcome(t, lexer.index(), false),
                symbol matches Some(tok) ==> {
                    &&& lexed_run(t, 0, leading_trivia@.push(tok))
                    &&& lexed_run_end(t, 0, leading_trivia@.push(tok)) == lexer.index()
                    &&& tok.token_type is Symbol
                    &&& symbol_outcome(t, 0, false) == symbol_outcome(t, lexer.index(), true)
                },
            decreases t.len() - lexer.index(), if symbol is None { 1int } else { 0int },
        {
            let ghost i = lexer.index();
            proof {
                if i < t.len() {
                    lemma_lex_progress(t, i);
                }
            }
            match lexer.process_next() {
                Some(LexerResult::Success(token)) => {
                    proof {
                        if i < t.len() {
                            lemma_token_class(t, i, token);
                        }
                        lemma_lexed_run_push(t, 0, leading_trivia@, token);
                    }
                    match token.token_type {
                        TokenType::Whitespace { .. } => {
                            proof {
                                assert(no_eof(leading_trivia@.push(token))) by {
                                    assert forall|k: int| 0 <= k < leading_trivia@.push(token).len() implies !((#[trigger] leading_trivia@.push(token)[k]).token_type is Eof) by {
                                        if k < leading_trivia@.len() {
                                            assert(leading_trivia@.push(token)[k] == leading_trivia@[k]);
                                        }
                                    }
                                }
                            }
                            leading_trivia.push(token);
                        },
                        TokenType::Symbol { .. } => {
                            symbol = Some(token);
                        },
                        TokenType::Eof => {
                            let chars = crate::text::chars_of(text);
                            return Err(
                                TokenizerErrorType::InvalidSymbol(
                                    crate::text::string_from_chars(chars.as_slice()),
                                ),
                            );
                        },
                        _ => {
                            let chars = token.token_type.display_chars();
                            return Err(TokenizerErrorType::UnexpectedToken(chars[0]));
                        },
                    }
                },
                Some(LexerResult::Fatal(errors)) => {
                    let error = errors[0].error.clone();
                    return Err(error);
                },
                _ => {
                    return vstd::pervasive::unreached();
                },
            }
        }
        let token = match symbol {
            Some(t) => t,
            None => vstd::pervasive::unreached(),
        };
        let ghost head = leading_trivia@.push(token);
        let mut trailing_trivia: Vec<Token> = Vec::new();
        let mut done = false;
        proof {
            assert(head + trailing_trivia@ =~= head);
        }
        while !done
            invariant
                t == text@,
                source_fits(t),
                lexer.wf(),
                lexer.text() == t,
                0 <= lexer.index() <= t.len(),
                head == leading_trivia@.push(token),
                token.token_type is Symbol,
                all_whitespace(leading_trivia@),
                all_whitespace(trailing_trivia@),
                lexed_run(t, 0, head + trailing_trivia@),
                no_eof(head + trailing_trivia@),
                !done ==> !lexer.has_sent_eof() && lexed_run_end(t, 0, head + trailing_trivia@)
                    == lexer.index() && symbol_outcome(t, 0, false) == symbol_outcome(
                    t,
                    lexer.index(),
                    true,
                ),
                done ==> lexed_run_end(t, 0, head + trailing_trivia@) == t.len() && symbol_outcome(
                    t,
                    0,
                    false,
                ) is Fine,
            decreases t.len() - lexer.index(), if done { 0int } else { 1int },
        {
            let ghost i = lexer.index();
            proof {
                if i < t.len() {
                    lemma_lex_progress(t, i);
                }
            }
            match lexer.process_next() {
                Some(LexerResult::Success(tok)) => {
                    proof {
                        if i < t.len() {
                            lemma_token_class(t, i, tok);
                            lemma_lexed_run_push(t, 0, head + trailing_trivia@, tok);
                        }
                    }
                    match tok.token_type {
                        TokenType::Whitespace { .. } => {
                            proof {
                                assert(head + trailing_trivia@.push(tok) =~= (head + trailing_trivia@).push(tok));
                                assert(no_eof((head + trailing_trivia@).push(tok))) by {
                                    let w = (head + trailing_trivia@).push(tok);
                                    assert forall|k: int| 0 <= k < w.len() implies !((#[trigger] w[k]).token_type is Eof) by {
                                        if k < w.len() - 1 {
                                            assert(w[k] == (head + trailing_trivia@)[k]);
                                        }
                                    }
                                }
                            }
                            trailing_trivia.push(tok);
                        },
                        TokenType::Eof => {
                            done = true;
                        },
                        _ => {
                            let chars = tok.token_type.display_chars();
                            return Err(TokenizerErrorType::UnexpectedToken(chars[0]));
                        },
                    }
                },
                Some(LexerResult::Fatal(errors)) => {
                    let error = errors[0].error.clone();
                    return Err(error);
                },
                _ => {
                    return vstd::pervasive::unreached();
                },
            }
        }
        let reference = TokenReference { leading_trivia, token, trailing_trivia };
        proof {
            assert(reference.spec_all_tokens() =~= head + trailing_trivia@);
            lemma_lexed_run_text(t, 0, reference.spec_all_tokens());
            lemma_all_tokens_display(reference);
            assert(t.subrange(0, t.len() as int) =~= t);
        }
        Ok(reference)
    }

    /// The symbol `text` stands for, with its whitespace; `text` must be whitespace, one
    /// symbol, and whitespace.
    pub fn basic_symbol(text: &str) -> (r: Self)
        requires
            source_fits(text@),
            symbol_outcome(text@, 0, false) is Fine,
        ensures
            lexed_run(text@, 0, r.spec_all_tokens()),
            lexed_run_end(text@, 0, r.spec_all_tokens()) == text@.len(),
            r.spec_display() == text@,
            all_whitespace(r.leading_trivia@),
            r.token.token_type is Symbol,
            all_whitespace(r.trailing_trivia@),
    {
        match TokenReference::symbol_specific_lua_version(text) {
            Ok(r) => r,
            Err(_) => vstd::pervasive::unreached(),
        }
    }
}

} // verus!
