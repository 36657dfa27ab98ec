//! Reading one lexeme of a source, by index.
use vstd::prelude::*;

use crate::grammar::{
    is_long_close_at, is_long_open, lex_end, lex_error, long_body_close, long_body_start,
    long_close, long_open_blocks, number_end, operator_len, quoted_end, run_end,
    spec_is_digit, spec_is_hex_digit, spec_is_identifier_start, token_type_fits, CharClass,
};
use crate::position::source_fits;
use crate::symbol::{spec_symbol_from_chars, Symbol};
use crate::text::string_from_chars;
use crate::tokenizer::{StringLiteralQuoteType, TokenType, TokenizerErrorType};

verus! {

/// Whether `character` may begin an identifier.
pub fn is_identifier_start(character: char) -> (r: bool)
    ensures
        r == spec_is_identifier_start(character),
{
    ('a' <= character && character <= 'z') || ('A' <= character && character <= 'Z')
        || character == '_'
}

fn is_digit(c: char) -> (r: bool)
    ensures
        r == spec_is_digit(c),
{
    '0' <= c && c <= '9'
}

fn is_hex_digit(c: char) -> (r: bool)
    ensures
        r == spec_is_hex_digit(c),
{
    is_digit(c) || ('a' <= c && c <= 'f') || ('A' <= c && c <= 'F')
}

fn class_has(cls: CharClass, c: char) -> (r: bool)
    ensures
        r == cls.has(c),
{
    match cls {
        CharClass::IdentifierChar => is_identifier_start(c) || is_digit(c),
        CharClass::Space => c == ' ' || c == '\t' || c == '\r',
        CharClass::NotNewline => c != '\n',
        CharClass::Equals => c == '=',
        CharClass::SkippedSpace => c == ' ' || c == '\t' || c == '\r' || c == '\n' || c == '\u{b}'
            || c == '\u{c}',
    }
}

/// The end of the run of characters of class `cls` that starts at `i`.
pub fn scan_run(s: &[char], i: usize, cls: CharClass) -> (r: usize)
    requires
        i <= s@.len(),
    ensures
        r == run_end(s@, i as int, cls),
        i <= r <= s@.len(),
{
    let mut j = i;
    while j < s.len() && class_has(cls, s[j])
        invariant
            i <= j <= s@.len(),
            run_end(s@, i as int, cls) == run_end(s@, j as int, cls),
        decreases s@.len() - j,
    {
        j += 1;
    }
    j
}

fn scan_number_end(s: &[char], j: usize, hex: bool) -> (r: usize)
    requires
        j <= s@.len(),
    ensures
        r == number_end(s@, j as int, hex),
        j <= r <= s@.len(),
{
    let mut k = j;
    while k < s.len()
        invariant
            j <= k <= s@.len(),
            number_end(s@, j as int, hex) == number_end(s@, k as int, hex),
        decreases s@.len() - k,
    {
        let c = s[k];
        let mark = if hex {
            c == 'p' || c == 'P'
        } else {
            c == 'e' || c == 'E'
        };
        if mark {
            if k + 1 < s.len() && (s[k + 1] == '+' || s[k + 1] == '-') {
                k += 2;
            } else {
                k += 1;
            }
        } else if is_hex_digit(c) || c == '.' || c == '_' {
            k += 1;
        } else {
            return k;
        }
    }
    k
}

fn scan_quoted(s: &[char], k: usize, quote: char) -> (r: (bool, usize))
    requires
        1 <= k <= s@.len(),
    ensures
        r.0 == quoted_end(s@, k as int, quote).0,
        r.1 == quoted_end(s@, k as int, quote).1,
        k <= r.1 <= s@.len(),
        r.0 ==> k + 1 <= r.1 && s@[r.1 - 1] == quote,
{
    let mut p = k;
    while p < s.len()
        invariant
            k <= p <= s@.len(),
            quoted_end(s@, k as int, quote) == quoted_end(s@, p as int, quote),
        decreases s@.len() - p,
    {
        let c = s[p];
        if c == quote {
            return (true, p + 1);
        } else if c == '\\' {
            if p + 1 < s.len() {
                if s[p + 1] == 'z' {
                    p = scan_run(s, p + 2, CharClass::SkippedSpace);
                } else {
                    p += 2;
                }
            } else {
                return (false, s.len());
            }
        } else if c == '\n' {
            return (false, p);
        } else {
            p += 1;
        }
    }
    (false, s.len())
}

fn check_long_close_at(s: &[char], p: usize, blocks: usize) -> (r: bool)
    requires
        p <= s@.len(),
    ensures
        r == is_long_close_at(s@, p as int, blocks as nat),
{
    if s.len() < 2 || blocks > s.len() - 2 || p > s.len() - 2 - blocks {
        return false;
    }
    if s[p] != ']' || s[p + blocks + 1] != ']' {
        return false;
    }
    let mut t: usize = 1;
    while t <= blocks
        invariant
            1 <= t <= blocks + 1,
            p + blocks + 2 <= s.len(),
            forall|u: int| 1 <= u < t ==> #[trigger] s@[p + u] == '=',
        decreases blocks + 1 - t,
    {
        if s[p + t] != '=' {
            return false;
        }
        t += 1;
    }
    true
}

fn scan_long_close(s: &[char], p: usize, blocks: usize) -> (r: Option<usize>)
    requires
        p <= s@.len(),
    ensures
        r matches Some(q) ==> q == long_close(s@, p as int, blocks as nat) && p <= q && q
            + blocks + 2 <= s@.len(),
        r is None ==> long_close(s@, p as int, blocks as nat) == -1,
{
    let mut q = p;
    while q < s.len()
        invariant
            p <= q <= s@.len(),
            long_close(s@, p as int, blocks as nat) == long_close(s@, q as int, blocks as nat),
        decreases s@.len() - q,
    {
        if check_long_close_at(s, q, blocks) {
            return Some(q);
        }
        if s.len() < 2 || blocks > s.len() - 2 || q > s.len() - 2 - blocks {
            return None;
        }
        q += 1;
    }
    None
}

fn symbol_of(s: &[char], i: usize, len: usize) -> (r: Option<Symbol>)
    requires
        i + len <= s.len(),
    ensures
        r == spec_symbol_from_chars(s@.subrange(i as int, i + len)),
{
    Symbol::from_chars(&s[i..i + len])
}

fn scan_operator_len(s: &[char], i: usize) -> (r: usize)
    requires
        i < s@.len(),
        source_fits(s@),
    ensures
        r == operator_len(s@, i as int),
{
    if i + 3 <= s.len() && symbol_of(s, i, 3).is_some() {
        3
    } else if i + 2 <= s.len() && symbol_of(s, i, 2).is_some() {
        2
    } else if symbol_of(s, i, 1).is_some() {
        1
    } else {
        0
    }
}

/// One lexeme: a token, or an error, with the index where it ends.
pub enum Lexeme {
    /// A token that ends at the index.
    Token(TokenType, usize),
    /// An error in the characters up to the index.
    Error(TokenizerErrorType, usize),
}

/// `r` is the lexeme that starts at `i`.
pub open spec fn lexeme_at(s: Seq<char>, i: int, r: Lexeme) -> bool {
    match r {
        Lexeme::Token(tt, j) => {
            &&& j == lex_end(s, i)
            &&& lex_error(s, i) is None
            &&& token_type_fits(s, i, j as int, &tt)
        },
        Lexeme::Error(e, j) => {
            &&& j == lex_end(s, i)
            &&& lex_error(s, i) == Some(e)
        },
    }
}

fn scan_long_bracket(s: &[char], b: usize) -> (r: (usize, usize, Option<usize>))
    requires
        b < s.len(),
        s@[b as int] == '[',
        is_long_open(s@, b as int),
    ensures
        r.0 == long_body_start(s@, b as int),
        r.1 == long_open_blocks(s@, b as int),
        r.0 <= s@.len(),
        r.2 matches Some(q) ==> q == long_body_close(s@, b as int) && r.0 <= q && q + r.1 + 2
            <= s@.len(),
        r.2 is None ==> long_body_close(s@, b as int) == -1,
{
    let e = scan_run(s, b + 1, CharClass::Equals);
    assert(e < s.len());
    let blocks = e - (b + 1);
    let close = scan_long_close(s, e + 1, blocks);
    (e + 1, blocks, close)
}

fn scan_is_long_open(s: &[char], b: usize) -> (r: bool)
    requires
        b <= s@.len(),
    ensures
        r == is_long_open(s@, b as int),
{
    if b >= s.len() || s[b] != '[' {
        return false;
    }
    let e = scan_run(s, b + 1, CharClass::Equals);
    e < s.len() && s[e] == '['
}

/// Reads the lexeme that starts at `i`.
#[verifier::rlimit(40)]
pub fn lex_at(s: &[char], i: usize) -> (r: Lexeme)
    requires
        i < s@.len(),
        source_fits(s@),
    ensures
        lexeme_at(s@, i as int, r),
{
    let c = s[i];
    let n = s.len();
    let next = if i + 1 < n {
        Some(s[i + 1])
    } else {
        None
    };
    if i == 0 && c == '#' && next == Some('!') {
        let k = scan_run(s, 2, CharClass::NotNewline);
        let end = if k < n {
            k + 1
        } else {
            k
        };
        Lexeme::Token(TokenType::Shebang { line: string_from_chars(&s[0..end]) }, end)
    } else if i == 0 && c == '\u{feff}' {
        Lexeme::Token(TokenType::Whitespace { characters: string_from_chars(&s[0..1]) }, 1)
    } else if is_identifier_start(c) {
        let end = scan_run(s, i + 1, CharClass::IdentifierChar);
        let word = &s[i..end];
        match Symbol::from_chars(word) {
            Some(symbol) => Lexeme::Token(TokenType::Symbol { symbol }, end),
            None => Lexeme::Token(TokenType::Identifier { identifier: string_from_chars(word) }, end),
        }
    } else if c == ' ' || c == '\t' || c == '\r' {
        let k = scan_run(s, i + 1, CharClass::Space);
        let end = if k < n && s[k] == '\n' {
            k + 1
        } else {
            k
        };
        Lexeme::Token(TokenType::Whitespace { characters: string_from_chars(&s[i..end]) }, end)
    } else if c == '\n' {
        Lexeme::Token(TokenType::Whitespace { characters: string_from_chars(&s[i..i + 1]) }, i + 1)
    } else if is_digit(c) || (c == '.' && i + 1 < n && is_digit(s[i + 1])) {
        let hex = c == '0' && (next == Some('x') || next == Some('X'));
        let start = if hex {
            i + 2
        } else {
            i + 1
        };
        let k = scan_number_end(s, start, hex);
        if k < n && is_identifier_start(s[k]) {
            Lexeme::Error(TokenizerErrorType::InvalidNumber, k + 1)
        } else {
            Lexeme::Token(TokenType::Number { text: string_from_chars(&s[i..k]) }, k)
        }
    } else if c == '"' || c == '\'' {
        let (closed, end) = scan_quoted(s, i + 1, c);
        if closed {
            let quote_type = if c == '"' {
                StringLiteralQuoteType::Double
            } else {
                StringLiteralQuoteType::Single
            };
            Lexeme::Token(
                TokenType::StringLiteral {
                    literal: string_from_chars(&s[i + 1..end - 1]),
                    multi_line_depth: 0,
                    quote_type,
                },
                end,
            )
        } else {
            Lexeme::Error(TokenizerErrorType::UnclosedString, end)
        }
    } else if c == '[' {
        if scan_is_long_open(s, i) {
            let (body, blocks, close) = scan_long_bracket(s, i);
            match close {
                Some(q) => Lexeme::Token(
                    TokenType::StringLiteral {
                        literal: string_from_chars(&s[body..q]),
                        multi_line_depth: blocks,
                        quote_type: StringLiteralQuoteType::Brackets,
                    },
                    q + blocks + 2,
                ),
                None => Lexeme::Error(TokenizerErrorType::UnclosedString, n),
            }
        } else {
            Lexeme::Token(TokenType::Symbol { symbol: Symbol::LeftBracket }, i + 1)
        }
    } else if c == '-' && next == Some('-') {
        if scan_is_long_open(s, i + 2) {
            let (body, blocks, close) = scan_long_bracket(s, i + 2);
            match close {
                Some(q) => Lexeme::Token(
                    TokenType::MultiLineComment {
                        blocks,
                        comment: string_from_chars(&s[body..q]),
                    },
                    q + blocks + 2,
                ),
                None => Lexeme::Error(TokenizerErrorType::UnclosedComment, n),
            }
        } else {
            let end = scan_run(s, i + 2, CharClass::NotNewline);
            Lexeme::Token(
                TokenType::SingleLineComment { comment: string_from_chars(&s[i + 2..end]) },
                end,
            )
        }
    } else if c == '#' && next == Some('!') {
        Lexeme::Error(TokenizerErrorType::UnexpectedShebang, i + 2)
    } else {
        let len = scan_operator_len(s, i);
        if len > 0 {
            let symbol = symbol_of(s, i, len);
            match symbol {
                Some(symbol) => Lexeme::Token(TokenType::Symbol { symbol }, i + len),
                None => Lexeme::Error(TokenizerErrorType::UnexpectedToken(c), i + 1),
            }
        } else {
            Lexeme::Error(TokenizerErrorType::UnexpectedToken(c), i + 1)
        }
    }
}

} // verus!
