//! The lexical grammar: where each lexeme of a source ends, and what it is.
use vstd::prelude::*;

use crate::position::{is_position_at, spec_bytes_at, spec_character_at, spec_line_at, Position};
use crate::symbol::{spec_symbol_from_chars, Symbol};
use crate::tokenizer::{
    display_tokens, repeat_char, StringLiteralQuoteType, Token, TokenType, TokenizerError, TokenizerErrorType,
};

verus! {

/// Letters and the underscore, which may begin an identifier.
pub open spec fn spec_is_identifier_start(c: char) -> bool {
    ('a' <= c && c <= 'z') || ('A' <= c && c <= 'Z') || c == '_'
}

/// A decimal digit.
pub open spec fn spec_is_digit(c: char) -> bool {
    '0' <= c && c <= '9'
}

/// A hexadecimal digit.
pub open spec fn spec_is_hex_digit(c: char) -> bool {
    spec_is_digit(c) || ('a' <= c && c <= 'f') || ('A' <= c && c <= 'F')
}

/// The classes of characters that the lexer reads runs of.
#[derive(Clone, Copy)]
pub enum CharClass {
    /// Letters, digits and the underscore.
    IdentifierChar,
    /// Spaces, tabs and carriage returns.
    Space,
    /// Anything but a new line.
    NotNewline,
    /// The equals sign.
    Equals,
    /// White space, new lines included, as a `\z` escape skips it in a quoted string.
    SkippedSpace,
}

impl CharClass {
    /// Whether `c` belongs to this class.
    pub open spec fn has(self, c: char) -> bool {
        match self {
            CharClass::IdentifierChar => spec_is_identifier_start(c) || spec_is_digit(c),
            CharClass::Space => c == ' ' || c == '\t' || c == '\r',
            CharClass::NotNewline => c != '\n',
            CharClass::Equals => c == '=',
            CharClass::SkippedSpace => c == ' ' || c == '\t' || c == '\r' || c == '\n' || c
                == '\u{b}' || c == '\u{c}',
        }
    }
}

/// The end of the longest run of characters of class `cls` that starts at `i`.
pub open spec fn run_end(s: Seq<char>, i: int, cls: CharClass) -> int
    decreases s.len() - i,
{
    if 0 <= i < s.len() && cls.has(s[i]) {
        run_end(s, i + 1, cls)
    } else {
        i
    }
}

/// Whether `c` marks the exponent of a number (`p` in hexadecimal numbers, `e` otherwise).
pub open spec fn is_exponent_mark(c: char, hex: bool) -> bool {
    if hex {
        c == 'p' || c == 'P'
    } else {
        c == 'e' || c == 'E'
    }
}

/// The end of the body of a number that continues at `j`: hexadecimal digits, dots and
/// underscores, and exponent marks each followed by an optional sign.
pub open spec fn number_end(s: Seq<char>, j: int, hex: bool) -> int
    decreases s.len() - j,
{
    if 0 <= j < s.len() {
        if is_exponent_mark(s[j], hex) {
            if j + 1 < s.len() && (s[j + 1] == '+' || s[j + 1] == '-') {
                number_end(s, j + 2, hex)
            } else {
                number_end(s, j + 1, hex)
            }
        } else if spec_is_hex_digit(s[j]) || s[j] == '.' || s[j] == '_' {
            number_end(s, j + 1, hex)
        } else {
            j
        }
    } else {
        j
    }
}

/// Scans a quoted string whose body continues at `k`, closed by `quote`.
/// Returns whether it was closed, and where the scan ended (after the closing quote).
/// A backslash escapes the character after it; an unescaped new line ends the scan unclosed.
pub open spec fn quoted_end(s: Seq<char>, k: int, quote: char) -> (bool, int)
    decreases s.len() - k,
{
    if k < 0 || k >= s.len() {
        (false, s.len() as int)
    } else if s[k] == quote {
        (true, k + 1)
    } else if s[k] == '\\' {
        if k + 1 < s.len() {
            if s[k + 1] == 'z' {
                proof {
                    lemma_run_end(s, k + 2, CharClass::SkippedSpace);
                }
                quoted_end(s, run_end(s, k + 2, CharClass::SkippedSpace), quote)
            } else {
                quoted_end(s, k + 2, quote)
            }
        } else {
            (false, s.len() as int)
        }
    } else if s[k] == '\n' {
        (false, k)
    } else {
        quoted_end(s, k + 1, quote)
    }
}

/// A closing long bracket with `blocks` equals signs, such as `]==]`, starts at `p`.
pub open spec fn is_long_close_at(s: Seq<char>, p: int, blocks: nat) -> bool {
    &&& 0 <= p
    &&& p + blocks + 2 <= s.len()
    &&& s[p] == ']'
    &&& forall|t: int| 1 <= t <= blocks ==> #[trigger] s[p + t] == '='
    &&& s[p + blocks + 1] == ']'
}

/// The first `p' >= p` where a closing long bracket with `blocks` equals signs starts,
/// or -1 if there is none.
pub open spec fn long_close(s: Seq<char>, p: int, blocks: nat) -> int
    decreases s.len() - p,
{
    if p < 0 || p + blocks + 2 > s.len() {
        -1
    } else if is_long_close_at(s, p, blocks) {
        p
    } else {
        long_close(s, p + 1, blocks)
    }
}

/// For a `[` at `b`: the index just past its equals signs.
pub open spec fn long_open_equals_end(s: Seq<char>, b: int) -> int {
    run_end(s, b + 1, CharClass::Equals)
}

/// An opening long bracket, such as `[==[`, starts at `b`.
pub open spec fn is_long_open(s: Seq<char>, b: int) -> bool {
    let e = long_open_equals_end(s, b);
    &&& 0 <= b < s.len()
    &&& s[b] == '['
    &&& e < s.len()
    &&& s[e] == '['
}

/// The number of equals signs in the opening long bracket at `b`.
pub open spec fn long_open_blocks(s: Seq<char>, b: int) -> nat {
    (long_open_equals_end(s, b) - b - 1) as nat
}

/// The body of the long bracket opened at `b` starts here.
pub open spec fn long_body_start(s: Seq<char>, b: int) -> int {
    long_open_equals_end(s, b) + 1
}

/// Where the closing bracket of the long bracket opened at `b` starts, or -1.
pub open spec fn long_body_close(s: Seq<char>, b: int) -> int {
    long_close(s, long_body_start(s, b), long_open_blocks(s, b))
}

/// The length of the longest operator symbol at `i`, or 0 if there is none.
pub open spec fn operator_len(s: Seq<char>, i: int) -> int {
    if i + 3 <= s.len() && spec_symbol_from_chars(s.subrange(i, i + 3)) is Some {
        3
    } else if i + 2 <= s.len() && spec_symbol_from_chars(s.subrange(i, i + 2)) is Some {
        2
    } else if i + 1 <= s.len() && spec_symbol_from_chars(s.subrange(i, i + 1)) is Some {
        1
    } else {
        0
    }
}

/// What kind of lexeme starts at an index.
#[derive(Clone, Copy, PartialEq, Eq, Structural)]
pub enum LexCase {
    /// `#!` at the very start of the source.
    Shebang,
    /// A byte order mark at the very start of the source.
    ByteOrderMark,
    /// An identifier or a keyword.
    Word,
    /// Spaces, tabs and carriage returns, with the new line that may end them.
    Space,
    /// A new line.
    Newline,
    /// A number.
    Number,
    /// A string in quotes.
    Quoted,
    /// A `[`, which may open a long string.
    Bracket,
    /// A comment.
    Comment,
    /// `#!` anywhere but at the start.
    MisplacedShebang,
    /// An operator or punctuation symbol.
    Operator,
    /// A character that no lexeme starts with.
    Unknown,
}

/// The character after `i`, if it is `c`.
pub open spec fn next_is(s: Seq<char>, i: int, c: char) -> bool {
    i + 1 < s.len() && s[i + 1] == c
}

/// What kind of lexeme starts at `i`, for `0 <= i < s.len()`.
pub open spec fn lex_case(s: Seq<char>, i: int) -> LexCase {
    let c = s[i];
    if i == 0 && c == '#' && next_is(s, i, '!') {
        LexCase::Shebang
    } else if i == 0 && c == '\u{feff}' {
        LexCase::ByteOrderMark
    } else if spec_is_identifier_start(c) {
        LexCase::Word
    } else if CharClass::Space.has(c) {
        LexCase::Space
    } else if c == '\n' {
        LexCase::Newline
    } else if spec_is_digit(c) || (c == '.' && i + 1 < s.len() && spec_is_digit(s[i + 1])) {
        LexCase::Number
    } else if c == '"' || c == '\'' {
        LexCase::Quoted
    } else if c == '[' {
        LexCase::Bracket
    } else if c == '-' && next_is(s, i, '-') {
        LexCase::Comment
    } else if c == '#' && next_is(s, i, '!') {
        LexCase::MisplacedShebang
    } else if operator_len(s, i) > 0 {
        LexCase::Operator
    } else {
        LexCase::Unknown
    }
}

/// Whether the number at `i` is hexadecimal.
pub open spec fn number_is_hex(s: Seq<char>, i: int) -> bool {
    s[i] == '0' && (next_is(s, i, 'x') || next_is(s, i, 'X'))
}

/// The end of the body of the number at `i`.
pub open spec fn number_body_end(s: Seq<char>, i: int) -> int {
    let hex = number_is_hex(s, i);
    number_end(s, if hex { i + 2 } else { i + 1 }, hex)
}

/// The number at `i` runs into a letter, which makes it invalid.
pub open spec fn number_is_invalid(s: Seq<char>, i: int) -> bool {
    let k = number_body_end(s, i);
    k < s.len() && spec_is_identifier_start(s[k])
}

/// The comment at `i` is a long comment, such as `--[[ ... ]]`.
pub open spec fn comment_is_long(s: Seq<char>, i: int) -> bool {
    is_long_open(s, i + 2)
}

/// The end of the lexeme that starts at `i`, for `0 <= i < s.len()`.
pub open spec fn lex_end(s: Seq<char>, i: int) -> int {
    match lex_case(s, i) {
        LexCase::Shebang => {
            let k = run_end(s, 2, CharClass::NotNewline);
            if k < s.len() {
                k + 1
            } else {
                k
            }
        },
        LexCase::ByteOrderMark => 1,
        LexCase::Word => run_end(s, i + 1, CharClass::IdentifierChar),
        LexCase::Space => {
            let k = run_end(s, i + 1, CharClass::Space);
            if k < s.len() && s[k] == '\n' {
                k + 1
            } else {
                k
            }
        },
        LexCase::Newline => i + 1,
        LexCase::Number => {
            let k = number_body_end(s, i);
            if number_is_invalid(s, i) {
                k + 1
            } else {
                k
            }
        },
        LexCase::Quoted => quoted_end(s, i + 1, s[i]).1,
        LexCase::Bracket => if is_long_open(s, i) {
            let close = long_body_close(s, i);
            if close >= 0 {
                close + long_open_blocks(s, i) + 2
            } else {
                s.len() as int
            }
        } else {
            i + 1
        },
        LexCase::Comment => if comment_is_long(s, i) {
            let close = long_body_close(s, i + 2);
            if close >= 0 {
                close + long_open_blocks(s, i + 2) + 2
            } else {
                s.len() as int
            }
        } else {
            run_end(s, i + 2, CharClass::NotNewline)
        },
        LexCase::MisplacedShebang => i + 2,
        LexCase::Operator => i + operator_len(s, i),
        LexCase::Unknown => i + 1,
    }
}

/// The error of the lexeme at `i`, if it is one.
pub open spec fn lex_error(s: Seq<char>, i: int) -> Option<TokenizerErrorType> {
    match lex_case(s, i) {
        LexCase::Number => if number_is_invalid(s, i) {
            Some(TokenizerErrorType::InvalidNumber)
        } else {
            None
        },
        LexCase::Quoted => if quoted_end(s, i + 1, s[i]).0 {
            None
        } else {
            Some(TokenizerErrorType::UnclosedString)
        },
        LexCase::Bracket => if is_long_open(s, i) && long_body_close(s, i) < 0 {
            Some(TokenizerErrorType::UnclosedString)
        } else {
            None
        },
        LexCase::Comment => if comment_is_long(s, i) && long_body_close(s, i + 2) < 0 {
            Some(TokenizerErrorType::UnclosedComment)
        } else {
            None
        },
        LexCase::MisplacedShebang => Some(TokenizerErrorType::UnexpectedShebang),
        LexCase::Unknown => Some(TokenizerErrorType::UnexpectedToken(s[i])),
        _ => None,
    }
}

/// `tt` is the token type of the lexeme from `i` to `j`, when that lexeme is no error.
pub open spec fn token_type_fits(s: Seq<char>, i: int, j: int, tt: &TokenType) -> bool {
    match lex_case(s, i) {
        LexCase::Shebang => tt matches TokenType::Shebang { line } && line@ == s.subrange(i, j),
        LexCase::ByteOrderMark | LexCase::Space | LexCase::Newline => tt matches TokenType::Whitespace {
            characters,
        } && characters@ == s.subrange(i, j),
        LexCase::Word => match spec_symbol_from_chars(s.subrange(i, j)) {
            Some(sym) => tt matches TokenType::Symbol { symbol } && symbol == sym,
            None => tt matches TokenType::Identifier { identifier } && identifier@ == s.subrange(
                i,
                j,
            ),
        },
        LexCase::Number => tt matches TokenType::Number { text } && text@ == s.subrange(i, j),
        LexCase::Quoted => tt matches TokenType::StringLiteral {
            literal,
            multi_line_depth,
            quote_type,
        } && literal@ == s.subrange(i + 1, j - 1) && multi_line_depth == 0 && quote_type == (
        if s[i] == '"' {
            StringLiteralQuoteType::Double
        } else {
            StringLiteralQuoteType::Single
        }),
        LexCase::Bracket => if is_long_open(s, i) {
            tt matches TokenType::StringLiteral { literal, multi_line_depth, quote_type }
                && literal@ == s.subrange(long_body_start(s, i), long_body_close(s, i))
                && multi_line_depth == long_open_blocks(s, i) && quote_type
                == StringLiteralQuoteType::Brackets
        } else {
            tt matches TokenType::Symbol { symbol } && symbol == Symbol::LeftBracket
        },
        LexCase::Comment => if comment_is_long(s, i) {
            tt matches TokenType::MultiLineComment { blocks, comment } && comment@ == s.subrange(
                long_body_start(s, i + 2),
                long_body_close(s, i + 2),
            ) && blocks == long_open_blocks(s, i + 2)
        } else {
            tt matches TokenType::SingleLineComment { comment } && comment@ == s.subrange(i + 2, j)
        },
        LexCase::Operator => tt matches TokenType::Symbol { symbol } && Some(*symbol)
            == spec_symbol_from_chars(s.subrange(i, j)),
        _ => false,
    }
}

/// `p` is where a token that spans from `i` to `j` ends: the position after it, except that a
/// token ending in a new line ends on the line and character of that new line.
pub open spec fn is_end_position(p: Position, s: Seq<char>, i: int, j: int) -> bool {
    if i < j && s[j - 1] == '\n' {
        &&& p.bytes == spec_bytes_at(s, j)
        &&& p.line == spec_line_at(s, j - 1)
        &&& p.character == spec_character_at(s, j - 1)
    } else {
        is_position_at(p, s, j)
    }
}

/// `tok` is the token lexed from `i` to `j`.
#[verifier::opaque]
pub open spec fn token_lexed(s: Seq<char>, i: int, j: int, tok: Token) -> bool {
    &&& is_position_at(tok.start_position, s, i)
    &&& is_end_position(tok.end_position, s, i, j)
    &&& token_type_fits(s, i, j, &tok.token_type)
}

/// `tok` is the end of file token of `s`.
pub open spec fn is_eof_token(s: Seq<char>, tok: Token) -> bool {
    &&& tok.token_type is Eof
    &&& is_position_at(tok.start_position, s, s.len() as int)
    &&& is_position_at(tok.end_position, s, s.len() as int)
}

/// A run stays within the source and holds only characters of its class.
pub proof fn lemma_run_end(s: Seq<char>, i: int, cls: CharClass)
    requires
        0 <= i <= s.len(),
    ensures
        i <= run_end(s, i, cls) <= s.len(),
        forall|x: int| i <= x < run_end(s, i, cls) ==> cls.has(#[trigger] s[x]),
        run_end(s, i, cls) < s.len() ==> !cls.has(s[run_end(s, i, cls)]),
    decreases s.len() - i,
{
    if i < s.len() && cls.has(s[i]) {
        lemma_run_end(s, i + 1, cls);
    }
}

/// The body of a number stays within the source.
pub proof fn lemma_number_end(s: Seq<char>, j: int, hex: bool)
    requires
        0 <= j <= s.len(),
    ensures
        j <= number_end(s, j, hex) <= s.len(),
    decreases s.len() - j,
{
    if j < s.len() {
        if is_exponent_mark(s[j], hex) {
            if j + 1 < s.len() && (s[j + 1] == '+' || s[j + 1] == '-') {
                lemma_number_end(s, j + 2, hex);
            } else {
                lemma_number_end(s, j + 1, hex);
            }
        } else if spec_is_hex_digit(s[j]) || s[j] == '.' || s[j] == '_' {
            lemma_number_end(s, j + 1, hex);
        }
    }
}

/// A quoted string stays within the source, and a closed one ends with its quote.
pub proof fn lemma_quoted_end(s: Seq<char>, k: int, quote: char)
    requires
        0 <= k <= s.len(),
    ensures
        k <= quoted_end(s, k, quote).1 <= s.len(),
        quoted_end(s, k, quote).0 ==> k < quoted_end(s, k, quote).1 && s[quoted_end(
            s,
            k,
            quote,
        ).1 - 1] == quote,
    decreases s.len() - k,
{
    if k < s.len() && s[k] != quote {
        if s[k] == '\\' {
            if k + 1 < s.len() {
                if s[k + 1] == 'z' {
                    lemma_run_end(s, k + 2, CharClass::SkippedSpace);
                    lemma_quoted_end(s, run_end(s, k + 2, CharClass::SkippedSpace), quote);
                } else {
                    lemma_quoted_end(s, k + 2, quote);
                }
            }
        } else if s[k] != '\n' {
            lemma_quoted_end(s, k + 1, quote);
        }
    }
}

/// A closing long bracket that is found lies within the source.
pub proof fn lemma_long_close(s: Seq<char>, p: int, blocks: nat)
    ensures
        long_close(s, p, blocks) == -1 || (p <= long_close(s, p, blocks) && is_long_close_at(
            s,
            long_close(s, p, blocks),
            blocks,
        )),
    decreases s.len() - p,
{
    if !(p < 0 || p + blocks + 2 > s.len()) && !is_long_close_at(s, p, blocks) {
        lemma_long_close(s, p + 1, blocks);
    }
}

/// The facts about an opening long bracket at `b` that its text rests on.
pub proof fn lemma_long_open(s: Seq<char>, b: int)
    requires
        is_long_open(s, b),
    ensures
        b + 1 <= long_open_equals_end(s, b) < s.len(),
        long_open_blocks(s, b) == long_open_equals_end(s, b) - b - 1,
        forall|x: int| b + 1 <= x < long_open_equals_end(s, b) ==> #[trigger] s[x] == '=',
        long_body_close(s, b) == -1 || (long_body_start(s, b) <= long_body_close(s, b)
            && is_long_close_at(s, long_body_close(s, b), long_open_blocks(s, b))),
{
    lemma_run_end(s, b + 1, CharClass::Equals);
    lemma_long_close(s, long_body_start(s, b), long_open_blocks(s, b));
}

/// Every lexeme is at least one character long and stays within the source.
pub proof fn lemma_lex_progress(s: Seq<char>, i: int)
    requires
        0 <= i < s.len(),
    ensures
        i < lex_end(s, i) <= s.len(),
{
    match lex_case(s, i) {
        LexCase::Shebang => lemma_run_end(s, 2, CharClass::NotNewline),
        LexCase::Word => lemma_run_end(s, i + 1, CharClass::IdentifierChar),
        LexCase::Space => lemma_run_end(s, i + 1, CharClass::Space),
        LexCase::Number => {
            let hex = number_is_hex(s, i);
            lemma_number_end(s, if hex { i + 2 } else { i + 1 }, hex);
        },
        LexCase::Quoted => lemma_quoted_end(s, i + 1, s[i]),
        LexCase::Bracket => if is_long_open(s, i) {
            lemma_long_open(s, i);
        },
        LexCase::Comment => if comment_is_long(s, i) {
            lemma_long_open(s, i + 2);
        } else {
            lemma_run_end(s, i + 2, CharClass::NotNewline);
        },
        _ => {},
    }
}

/// The text of a long bracket `[==[body]==]` that opens at `b` is the source it spans.
proof fn lemma_long_bracket_text(s: Seq<char>, b: int)
    requires
        is_long_open(s, b),
        long_body_close(s, b) >= 0,
    ensures
        seq!['['] + repeat_char('=', long_open_blocks(s, b)) + seq!['['] + s.subrange(
            long_body_start(s, b),
            long_body_close(s, b),
        ) + seq![']'] + repeat_char('=', long_open_blocks(s, b)) + seq![']'] == s.subrange(
            b,
            long_body_close(s, b) + long_open_blocks(s, b) + 2,
        ),
{
    lemma_long_open(s, b);
    let e = long_open_equals_end(s, b);
    let blocks = long_open_blocks(s, b);
    let close = long_body_close(s, b);
    let lhs = seq!['['] + repeat_char('=', blocks) + seq!['['] + s.subrange(e + 1, close)
        + seq![']'] + repeat_char('=', blocks) + seq![']'];
    let rhs = s.subrange(b, close + blocks + 2);
    assert(lhs.len() == rhs.len());
    assert forall|x: int| 0 <= x < lhs.len() implies lhs[x] == rhs[x] by {
        if x == 0 {
        } else if x <= blocks {
            assert(s[b + x] == '=');
        } else if x == blocks + 1 {
        } else if x < close - b {
        } else if x == close - b {
        } else if x < close - b + blocks + 1 {
            assert(s[close + (x - (close - b))] == '=');
        } else {
        }
    }
    assert(lhs =~= rhs);
}

/// Each token prints as the source it was lexed from.
pub proof fn lemma_token_text(s: Seq<char>, i: int, tt: &TokenType)
    requires
        0 <= i < s.len(),
        lex_error(s, i) is None,
        token_type_fits(s, i, lex_end(s, i), tt),
    ensures
        tt.spec_display() == s.subrange(i, lex_end(s, i)),
{
    let j = lex_end(s, i);
    lemma_lex_progress(s, i);
    match lex_case(s, i) {
        LexCase::Word => {
            crate::symbol::lemma_symbol_from_chars(s.subrange(i, j));
        },
        LexCase::Operator => {
            crate::symbol::lemma_symbol_from_chars(s.subrange(i, j));
        },
        LexCase::Quoted => {
            lemma_quoted_end(s, i + 1, s[i]);
            let lit = s.subrange(i + 1, j - 1);
            assert(seq![s[i]] + lit + seq![s[i]] =~= s.subrange(i, j));
        },
        LexCase::Bracket => {
            if is_long_open(s, i) {
                lemma_long_bracket_text(s, i);
            } else {
                assert(seq!['['] =~= s.subrange(i, j));
            }
        },
        LexCase::Comment => {
            assert(s[i] == '-' && s[i + 1] == '-');
            if comment_is_long(s, i) {
                lemma_long_bracket_text(s, i + 2);
                lemma_long_open(s, i + 2);
                let body = s.subrange(i + 2, j);
                assert(seq!['-', '-'] + body =~= s.subrange(i, j));
                assert(tt.spec_display() =~= seq!['-', '-'] + body);
            } else {
                lemma_run_end(s, i + 2, CharClass::NotNewline);
                assert(seq!['-', '-'] + s.subrange(i + 2, j) =~= s.subrange(i, j));
            }
        },
        _ => {},
    }
}

/// Each token lexed from `i` to `j` prints as the source between them.
pub proof fn lemma_lexed_token_text(s: Seq<char>, i: int, j: int, tok: Token)
    requires
        0 <= i < s.len(),
        j == lex_end(s, i),
        lex_error(s, i) is None,
        token_lexed(s, i, j, tok),
    ensures
        tok.spec_display() == s.subrange(i, j),
{
    reveal(token_lexed);
    lemma_token_text(s, i, &tok.token_type);
}

/// The indices where the successive lexemes of `s` start, from `i` on, ending with the
/// length of `s`, where the end of file token stands.
pub open spec fn lex_starts(s: Seq<char>, i: int) -> Seq<int>
    decreases s.len() - i,
{
    if 0 <= i < s.len() {
        proof {
            lemma_lex_progress(s, i);
        }
        seq![i] + lex_starts(s, lex_end(s, i))
    } else {
        seq![i]
    }
}

/// Successive lexemes follow one another up to the end of the source.
pub proof fn lemma_lex_starts(s: Seq<char>, i: int)
    requires
        0 <= i <= s.len(),
    ensures
        lex_starts(s, i).len() >= 1,
        lex_starts(s, i)[0] == i,
        lex_starts(s, i).last() == s.len(),
        forall|k: int|
            0 <= k < lex_starts(s, i).len() - 1 ==> 0 <= #[trigger] lex_starts(s, i)[k] < s.len()
                && lex_starts(s, i)[k + 1] == lex_end(s, lex_starts(s, i)[k]),
    decreases s.len() - i,
{
    if i < s.len() {
        lemma_lex_progress(s, i);
        let e = lex_end(s, i);
        lemma_lex_starts(s, e);
        let st = lex_starts(s, i);
        let rest = lex_starts(s, e);
        assert(st == seq![i] + rest);
        assert forall|k: int| 0 <= k < st.len() - 1 implies 0 <= #[trigger] st[k] < s.len() && st[
            k + 1] == lex_end(s, st[k]) by {
            if k > 0 {
                assert(st[k] == rest[k - 1]);
                assert(st[k + 1] == rest[k]);
            }
        }
    }
}

/// No lexeme of `s` is an error.
pub open spec fn lexes_cleanly(s: Seq<char>) -> bool {
    let st = lex_starts(s, 0);
    forall|k: int| 0 <= k < st.len() - 1 ==> (#[trigger] lex_error(s, st[k])) is None
}

/// `v` is the sequence of tokens of `s`: one per lexeme, then the end of file token.
pub open spec fn lexes_to(s: Seq<char>, v: Seq<Token>) -> bool {
    let st = lex_starts(s, 0);
    &&& v.len() == st.len()
    &&& forall|k: int|
        0 <= k < v.len() - 1 ==> lex_error(s, st[k]) is None && token_lexed(
            s,
            st[k],
            st[k + 1],
            #[trigger] v[k],
        )
    &&& is_eof_token(s, v[v.len() - 1])
}

/// `e` is the error of the first lexeme of `s` that is an error.
pub open spec fn first_lex_error(s: Seq<char>, e: TokenizerError) -> bool {
    let st = lex_starts(s, 0);
    exists|m: int|
        {
            &&& 0 <= m < st.len() - 1
            &&& lex_error(s, #[trigger] st[m]) == Some(e.error)
            &&& forall|k: int| 0 <= k < m ==> (#[trigger] lex_error(s, st[k])) is None
            &&& is_position_at(e.range.0, s, st[m])
            &&& is_position_at(e.range.1, s, st[m + 1])
        }
}

/// Where the lexemes of `s` from `a` on start, up to `b`.
pub open spec fn lexemes_between(s: Seq<char>, a: int, b: int) -> Seq<int> {
    lex_starts(s, a).take(lex_starts(s, a).len() - lex_starts(s, b).len())
}

/// Lexing `s` from `a` reaches `b`: the lexemes from `a` on are those up to `b`, then those
/// from `b` on.
pub open spec fn lexes_on_to(s: Seq<char>, a: int, b: int) -> bool {
    lex_starts(s, a) == lexemes_between(s, a, b) + lex_starts(s, b)
}

/// None of the lexemes of `s` that start at `starts` is an error.
pub open spec fn no_lex_error(s: Seq<char>, starts: Seq<int>) -> bool {
    forall|k: int| 0 <= k < starts.len() ==> (#[trigger] lex_error(s, starts[k])) is None
}

/// The lexemes from `a` on that come before those from `b` on are the lexemes from `a` up
/// to `b`.
pub proof fn lemma_lexes_on_to(s: Seq<char>, a: int, d: Seq<int>, b: int)
    requires
        lex_starts(s, a) == d + lex_starts(s, b),
    ensures
        lexes_on_to(s, a, b),
        lexemes_between(s, a, b) == d,
{
    assert(lex_starts(s, a).take(lex_starts(s, a).len() - lex_starts(s, b).len()) =~= d);
}

/// Lexing from `a` reaches `a`, over no lexeme.
pub proof fn lemma_lexes_on_to_itself(s: Seq<char>, a: int)
    ensures
        lexes_on_to(s, a, a),
        lexemes_between(s, a, a) == Seq::<int>::empty(),
{
    lemma_lexes_on_to(s, a, Seq::empty(), a);
}

/// Lexing from `a` to `b`, then from `b` to `c`, lexes from `a` to `c`, over the lexemes of
/// both stretches.
pub proof fn lemma_lexes_on_to_chain(s: Seq<char>, a: int, b: int, c: int)
    requires
        lexes_on_to(s, a, b),
        lexes_on_to(s, b, c),
    ensures
        lexes_on_to(s, a, c),
        lexemes_between(s, a, c) == lexemes_between(s, a, b) + lexemes_between(s, b, c),
{
    let x = lexemes_between(s, a, b);
    let y = lexemes_between(s, b, c);
    assert(lex_starts(s, a) =~= (x + y) + lex_starts(s, c));
    lemma_lexes_on_to(s, a, x + y, c);
}

/// A source whose lexemes, lexed from its start to its end, are none of them an error lexes
/// cleanly, and those lexemes are all of its lexemes but the end of file.
pub proof fn lemma_lexes_cleanly_to_end(s: Seq<char>)
    requires
        lexes_on_to(s, 0, s.len() as int),
    ensures
        lexemes_between(s, 0, s.len() as int) == lex_starts(s, 0).drop_last(),
        no_lex_error(s, lexemes_between(s, 0, s.len() as int)) ==> lexes_cleanly(s),
{
    let st = lex_starts(s, 0);
    let d = lexemes_between(s, 0, s.len() as int);
    assert(lex_starts(s, s.len() as int) == seq![s.len() as int]);
    assert(st.drop_last() =~= d);
    if no_lex_error(s, d) {
        assert forall|k: int| 0 <= k < st.len() - 1 implies (#[trigger] lex_error(s, st[k])) is None by {
            assert(st[k] == d[k]);
        }
    }
}

/// Lexing one more lexeme moves one step along [`lex_starts`].
pub proof fn lemma_lex_starts_step(s: Seq<char>, done: Seq<int>, i: int)
    requires
        0 <= i < s.len(),
        lex_starts(s, 0) == done + lex_starts(s, i),
    ensures
        lex_starts(s, 0) == done.push(i) + lex_starts(s, lex_end(s, i)),
{
    lemma_lex_progress(s, i);
    assert(lex_starts(s, i) == seq![i] + lex_starts(s, lex_end(s, i)));
    assert(done + lex_starts(s, i) =~= done.push(i) + lex_starts(s, lex_end(s, i)));
}

/// `v` is the run of tokens lexed one after the other from `i`, none of them an error; a run
/// that reaches the end of the source may end with the end of file token.
pub open spec fn lexed_run(s: Seq<char>, i: int, v: Seq<Token>) -> bool
    decreases v.len(),
{
    if v.len() == 0 {
        true
    } else if i >= s.len() {
        v.len() == 1 && is_eof_token(s, v[0])
    } else {
        &&& lex_error(s, i) is None
        &&& token_lexed(s, i, lex_end(s, i), v[0])
        &&& lexed_run(s, lex_end(s, i), v.drop_first())
    }
}

/// The lexemes a run covers are the next lexemes from where it starts, none of them an error.
pub proof fn lemma_run_starts(s: Seq<char>, i: int, v: Seq<Token>) -> (d: Seq<int>)
    requires
        0 <= i <= s.len(),
        lexed_run(s, i, v),
    ensures
        lex_starts(s, i) == d + lex_starts(s, lexed_run_end(s, i, v)),
        forall|k: int| 0 <= k < d.len() ==> (#[trigger] lex_error(s, d[k])) is None,
    decreases v.len(),
{
    if v.len() == 0 || i >= s.len() {
        assert(lex_starts(s, i) =~= Seq::<int>::empty() + lex_starts(s, i));
        Seq::empty()
    } else {
        lemma_lex_progress(s, i);
        let rest = lemma_run_starts(s, lex_end(s, i), v.drop_first());
        let d = seq![i] + rest;
        assert(lex_starts(s, i) == seq![i] + lex_starts(s, lex_end(s, i)));
        assert(lex_starts(s, i) =~= d + lex_starts(s, lexed_run_end(s, i, v)));
        assert forall|k: int| 0 <= k < d.len() implies (#[trigger] lex_error(s, d[k])) is None by {
            if k > 0 {
                assert(d[k] == rest[k - 1]);
            }
        }
        d
    }
}

/// A token of a run, other than the end of file, is lexed, with no error, at one of the
/// lexemes the run covers: the `k`th from where the run starts.
pub proof fn lemma_run_token_at(s: Seq<char>, i: int, v: Seq<Token>, m: int) -> (k: int)
    requires
        0 <= i <= s.len(),
        lexed_run(s, i, v),
        0 <= m < v.len(),
        !(v[m].token_type is Eof),
    ensures
        0 <= k < lex_starts(s, i).len() - lex_starts(s, lexed_run_end(s, i, v)).len(),
        lex_error(s, lex_starts(s, i)[k]) is None,
        token_lexed(s, lex_starts(s, i)[k], lex_end(s, lex_starts(s, i)[k]), v[m]),
    decreases m,
{
    if i >= s.len() {
        assert(false);
        0
    } else {
        lemma_lex_progress(s, i);
        let e = lex_end(s, i);
        assert(lex_starts(s, i) == seq![i] + lex_starts(s, e));
        if m == 0 {
            lemma_run_end_starts(s, e, v.drop_first());
            0
        } else {
            let k = lemma_run_token_at(s, e, v.drop_first(), m - 1);
            k + 1
        }
    }
}

/// From where a run starts, at least as many lexemes start as from where it ends.
proof fn lemma_run_end_starts(s: Seq<char>, i: int, v: Seq<Token>)
    requires
        0 <= i <= s.len(),
        lexed_run(s, i, v),
    ensures
        lex_starts(s, lexed_run_end(s, i, v)).len() <= lex_starts(s, i).len(),
{
    let d = lemma_run_starts(s, i, v);
}

/// The index where the run `v` lexed from `i` ends.
pub open spec fn lexed_run_end(s: Seq<char>, i: int, v: Seq<Token>) -> int
    decreases v.len(),
{
    if v.len() == 0 || i >= s.len() {
        i
    } else {
        lexed_run_end(s, lex_end(s, i), v.drop_first())
    }
}

/// None of the tokens of `v` is the end of file.
pub open spec fn no_eof(v: Seq<Token>) -> bool {
    forall|k: int| 0 <= k < v.len() ==> !((#[trigger] v[k]).token_type is Eof)
}

/// A run stays within the source.
pub proof fn lemma_lexed_run_bounds(s: Seq<char>, i: int, v: Seq<Token>)
    requires
        0 <= i <= s.len(),
        lexed_run(s, i, v),
    ensures
        i <= lexed_run_end(s, i, v) <= s.len(),
    decreases v.len(),
{
    if v.len() > 0 && i < s.len() {
        lemma_lex_progress(s, i);
        lemma_lexed_run_bounds(s, lex_end(s, i), v.drop_first());
    }
}

/// A run grows by the token lexed where it ends, or by the end of file token at the end.
pub proof fn lemma_lexed_run_push(s: Seq<char>, i: int, v: Seq<Token>, t: Token)
    requires
        0 <= i <= s.len(),
        lexed_run(s, i, v),
        no_eof(v),
        ({
            let j = lexed_run_end(s, i, v);
            if j < s.len() {
                lex_error(s, j) is None && token_lexed(s, j, lex_end(s, j), t)
            } else {
                is_eof_token(s, t)
            }
        }),
    ensures
        lexed_run(s, i, v.push(t)),
        lexed_run_end(s, i, v.push(t)) == (if lexed_run_end(s, i, v) < s.len() {
            lex_end(s, lexed_run_end(s, i, v))
        } else {
            s.len() as int
        }),
    decreases v.len(),
{
    if v.len() == 0 {
        assert(v.push(t).drop_first() =~= Seq::<Token>::empty());
        assert(v.push(t)[0] == t);
        if i < s.len() {
            lemma_lex_progress(s, i);
            assert(lexed_run(s, lex_end(s, i), Seq::<Token>::empty()));
            assert(lexed_run_end(s, lex_end(s, i), Seq::<Token>::empty()) == lex_end(s, i));
        }
    } else {
        assert(v.push(t)[0] == v[0]);
        if i >= s.len() {
            assert(v[0].token_type is Eof);
            assert(false);
        }
        lemma_lex_progress(s, i);
        assert(v.push(t).drop_first() =~= v.drop_first().push(t));
        assert(no_eof(v.drop_first())) by {
            assert forall|k: int| 0 <= k < v.drop_first().len() implies !((
            #[trigger] v.drop_first()[k]).token_type is Eof) by {
                assert(v.drop_first()[k] == v[k + 1]);
            }
        }
        lemma_lexed_run_push(s, lex_end(s, i), v.drop_first(), t);
    }
}

/// A run prints as the source it was lexed from.
pub proof fn lemma_lexed_run_text(s: Seq<char>, i: int, v: Seq<Token>)
    requires
        0 <= i <= s.len(),
        lexed_run(s, i, v),
    ensures
        display_tokens(v) == s.subrange(i, lexed_run_end(s, i, v)),
    decreases v.len(),
{
    if v.len() == 0 {
        assert(s.subrange(i, i) =~= Seq::<char>::empty());
    } else if i >= s.len() {
        assert(v.drop_first() =~= Seq::<Token>::empty());
        assert(s.subrange(i, i) =~= Seq::<char>::empty());
        assert(display_tokens(v.drop_first()) == Seq::<char>::empty());
        assert(v[0].spec_display() =~= Seq::<char>::empty());
        assert(display_tokens(v) =~= Seq::<char>::empty());
    } else {
        let j = lex_end(s, i);
        lemma_lex_progress(s, i);
        lemma_lexed_token_text(s, i, j, v[0]);
        lemma_lexed_run_text(s, j, v.drop_first());
        lemma_lexed_run_bounds(s, j, v.drop_first());
        assert(s.subrange(i, j) + s.subrange(j, lexed_run_end(s, i, v)) =~= s.subrange(
            i,
            lexed_run_end(s, i, v),
        ));
    }
}

/// Two runs, one after the other, make one run.
pub proof fn lemma_lexed_run_append(s: Seq<char>, i: int, a: Seq<Token>, b: Seq<Token>)
    requires
        0 <= i <= s.len(),
        lexed_run(s, i, a),
        no_eof(a),
        lexed_run(s, lexed_run_end(s, i, a), b),
    ensures
        lexed_run(s, i, a + b),
        lexed_run_end(s, i, a + b) == lexed_run_end(s, lexed_run_end(s, i, a), b),
    decreases a.len(),
{
    if a.len() == 0 {
        assert(a + b =~= b);
    } else {
        if i >= s.len() {
            assert(a[0].token_type is Eof);
            assert(false);
        }
        lemma_lex_progress(s, i);
        assert((a + b).drop_first() =~= a.drop_first() + b);
        assert(no_eof(a.drop_first())) by {
            assert forall|k: int| 0 <= k < a.drop_first().len() implies !((
            #[trigger] a.drop_first()[k]).token_type is Eof) by {
                assert(a.drop_first()[k] == a[k + 1]);
            }
        }
        lemma_lexed_run_append(s, lex_end(s, i), a.drop_first(), b);
    }
}

/// The lexeme at `j` is a trivia token: a shebang, whitespace or a comment, without error.
pub open spec fn lex_is_trivia(s: Seq<char>, j: int) -> bool {
    &&& 0 <= j < s.len()
    &&& lex_error(s, j) is None
    &&& match lex_case(s, j) {
        LexCase::Shebang | LexCase::ByteOrderMark | LexCase::Space | LexCase::Newline
        | LexCase::Comment => true,
        _ => false,
    }
}

/// A token is trivia exactly when the lexeme it comes from is.
pub proof fn lemma_lexed_trivia(s: Seq<char>, j: int, t: Token)
    requires
        0 <= j < s.len(),
        lex_error(s, j) is None,
        token_lexed(s, j, lex_end(s, j), t),
    ensures
        t.token_type.spec_is_trivia() == lex_is_trivia(s, j),
        !(t.token_type is Eof),
{
    reveal(token_lexed);
}

} // verus!
