use vstd::prelude::*;

use crate::position::Position;
use crate::symbol::Symbol;
use crate::text::{chars_of, decimal, push_chars, spec_decimal, string_from_chars};

verus! {

/// `n` copies of `c`.
pub open spec fn repeat_char(c: char, n: nat) -> Seq<char> {
    Seq::new(n, |_k: int| c)
}

/// `n` copies of `c`, as characters.
pub fn repeat_chars(c: char, n: usize) -> (r: Vec<char>)
    ensures
        r@ == repeat_char(c, n as nat),
{
    let mut r: Vec<char> = Vec::new();
    let mut i: usize = 0;
    while i < n
        invariant
            i <= n,
            r@ == repeat_char(c, i as nat),
        decreases n - i,
    {
        r.push(c);
        i += 1;
        assert(r@ =~= repeat_char(c, i as nat));
    }
    r
}

/// The types of quotes used in a Lua string
#[derive(Clone, Copy, Debug, PartialEq, Eq, Structural)]
#[non_exhaustive]
pub enum StringLiteralQuoteType {
    /// Strings formatted \[\[with brackets\]\]
    Brackets,
    /// Strings formatted "with double quotes"
    Double,
    /// Strings formatted 'with single quotes'
    Single,
}

impl StringLiteralQuoteType {
    /// The quote that opens and closes a string of this type. Brackets have none: they have
    /// a variable depth, and they do not open the same as they end.
    pub fn to_string(&self) -> (r: String)
        requires
            !(*self is Brackets),
        ensures
            *self is Double ==> r@ == seq!['"'],
            *self is Single ==> r@ == seq!['\''],
    {
        match self {
            StringLiteralQuoteType::Double => string_from_chars(&['"']),
            StringLiteralQuoteType::Single => string_from_chars(&['\'']),
            StringLiteralQuoteType::Brackets => vstd::pervasive::unreached(),
        }
    }
}

/// Whether or not this section is the beginning, middle, end, or if this is a standalone string.
#[derive(Clone, Copy, Debug, PartialEq, Eq, Structural)]
pub enum InterpolatedStringKind {
    /// `begin{
    Begin,
    /// }middle{
    Middle,
    /// }end`
    End,
    /// `simple`
    Simple,
}

/// The kind of token. Contains no additional data.
#[derive(Clone, Copy, Debug, PartialEq, Eq, Structural)]
#[non_exhaustive]
pub enum TokenKind {
    /// End of file, should always be the very last token
    Eof,
    /// An identifier, such as `foo`
    Identifier,
    /// A multi line comment in the format of `--[[ comment ]]`
    MultiLineComment,
    /// A literal number, such as `3.3`
    Number,
    /// The shebang line
    Shebang,
    /// A single line comment, such as `-- comment`
    SingleLineComment,
    /// A literal string, such as "Hello, world"
    StringLiteral,
    /// A [`Symbol`], such as `local` or `+`
    Symbol,
    /// Whitespace, such as tabs or new lines
    Whitespace,
    /// Some form of interpolated string
    InterpolatedString,
}

/// The type of tokens in parsed code
#[derive(Debug, PartialEq, Eq)]
#[non_exhaustive]
pub enum TokenType {
    /// End of file, should always be the very last token
    Eof,
    /// An identifier, such as `foo`
    Identifier {
        /// The identifier itself
        identifier: String,
    },
    /// A multi line comment in the format of `--[[ comment ]]`
    MultiLineComment {
        /// Number of equals signs, if any, for the multi line comment
        /// For example, `--[=[` would have a `blocks` value of `1`
        blocks: usize,
        /// The comment itself, ignoring opening and closing tags
        comment: String,
    },
    /// A literal number, such as `3.3`
    Number {
        /// The text representing the number, includes details such as `0x`
        text: String,
    },
    /// A shebang line
    Shebang {
        /// The shebang line itself
        line: String,
    },
    /// A single line comment, such as `-- comment`
    SingleLineComment {
        /// The comment, ignoring initial `--`
        comment: String,
    },
    /// A literal string, such as "Hello, world"
    StringLiteral {
        /// The literal itself, ignoring quotation marks
        literal: String,
        /// Number of equals signs used for a multi line string, if it is one
        /// For example, `[=[string]=]` would have a `multi_line_depth` value of 1
        /// `[[string]]` would have a `multi_line_depth` value of 0
        /// A string such as `"string"` would have also have a `multi_line_depth` value of 0
        multi_line_depth: usize,
        /// The type of quotation mark used to make the string
        quote_type: StringLiteralQuoteType,
    },
    /// A [`Symbol`], such as `local` or `+`
    Symbol {
        /// The symbol itself
        symbol: Symbol,
    },
    /// Whitespace, such as tabs or new lines
    Whitespace {
        /// Characters consisting of the whitespace
        characters: String,
    },
    /// Some form of interpolated string
    InterpolatedString {
        /// The literal itself, ignoring backticks
        literal: String,
        /// The kind of interpolated string.
        /// If it is the beginning, middle, end, or a standalone string.
        kind: InterpolatedStringKind,
    },
}

impl TokenType {
    /// The text that this token type prints as.
    pub open spec fn spec_display(&self) -> Seq<char> {
        match self {
            TokenType::Eof => Seq::empty(),
            TokenType::Identifier { identifier } => identifier@,
            TokenType::MultiLineComment { blocks, comment } => seq!['-', '-', '['] + repeat_char(
                '=',
                *blocks as nat,
            ) + seq!['['] + comment@ + seq![']'] + repeat_char('=', *blocks as nat) + seq![']'],
            TokenType::Number { text } => text@,
            TokenType::Shebang { line } => line@,
            TokenType::SingleLineComment { comment } => seq!['-', '-'] + comment@,
            TokenType::StringLiteral { literal, multi_line_depth, quote_type } => match quote_type {
                StringLiteralQuoteType::Brackets => seq!['['] + repeat_char(
                    '=',
                    *multi_line_depth as nat,
                ) + seq!['['] + literal@ + seq![']'] + repeat_char('=', *multi_line_depth as nat)
                    + seq![']'],
                StringLiteralQuoteType::Double => seq!['"'] + literal@ + seq!['"'],
                StringLiteralQuoteType::Single => seq!['\''] + literal@ + seq!['\''],
            },
            TokenType::Symbol { symbol } => symbol.spec_text(),
            TokenType::Whitespace { characters } => characters@,
            TokenType::InterpolatedString { literal, kind } => match kind {
                InterpolatedStringKind::Begin => seq!['`'] + literal@ + seq!['{'],
                InterpolatedStringKind::Middle => seq!['}'] + literal@ + seq!['{'],
                InterpolatedStringKind::End => seq!['}'] + literal@ + seq!['`'],
                InterpolatedStringKind::Simple => seq!['`'] + literal@ + seq!['`'],
            },
        }
    }

    /// The kind of this token type.
    pub open spec fn spec_kind(&self) -> TokenKind {
        match self {
            TokenType::Eof => TokenKind::Eof,
            TokenType::Identifier { .. } => TokenKind::Identifier,
            TokenType::MultiLineComment { .. } => TokenKind::MultiLineComment,
            TokenType::Number { .. } => TokenKind::Number,
            TokenType::Shebang { .. } => TokenKind::Shebang,
            TokenType::SingleLineComment { .. } => TokenKind::SingleLineComment,
            TokenType::StringLiteral { .. } => TokenKind::StringLiteral,
            TokenType::Symbol { .. } => TokenKind::Symbol,
            TokenType::Whitespace { .. } => TokenKind::Whitespace,
            TokenType::InterpolatedString { .. } => TokenKind::InterpolatedString,
        }
    }

    /// Comments, shebangs and whitespace.
    pub open spec fn spec_is_trivia(&self) -> bool {
        ||| self is Shebang
        ||| self is SingleLineComment
        ||| self is MultiLineComment
        ||| self is Whitespace
    }

    /// Returns whether a token can be practically ignored in most cases
    /// Comments and whitespace will return `true`, everything else will return `false`
    pub fn is_trivia(&self) -> (r: bool)
        ensures
            r == self.spec_is_trivia(),
    {
        match self {
            TokenType::Shebang { .. } | TokenType::SingleLineComment { .. }
            | TokenType::MultiLineComment { .. } | TokenType::Whitespace { .. } => true,
            _ => false,
        }
    }

    /// Returns the kind of the token type.
    pub fn kind(&self) -> (r: TokenKind)
        ensures
            r == self.spec_kind(),
    {
        match self {
            TokenType::Eof => TokenKind::Eof,
            TokenType::Identifier { .. } => TokenKind::Identifier,
            TokenType::MultiLineComment { .. } => TokenKind::MultiLineComment,
            TokenType::Number { .. } => TokenKind::Number,
            TokenType::Shebang { .. } => TokenKind::Shebang,
            TokenType::SingleLineComment { .. } => TokenKind::SingleLineComment,
            TokenType::StringLiteral { .. } => TokenKind::StringLiteral,
            TokenType::Symbol { .. } => TokenKind::Symbol,
            TokenType::Whitespace { .. } => TokenKind::Whitespace,
            TokenType::InterpolatedString { .. } => TokenKind::InterpolatedString,
        }
    }

    /// Returns a whitespace `TokenType` consisting of spaces
    pub fn spaces(spaces: usize) -> (r: Self)
        ensures
            r matches TokenType::Whitespace { characters } && characters@ == repeat_char(
                ' ',
                spaces as nat,
            ),
    {
        let chars = repeat_chars(' ', spaces);
        TokenType::Whitespace { characters: string_from_chars(chars.as_slice()) }
    }

    /// Returns a whitespace `TokenType` consisting of tabs
    pub fn tabs(tabs: usize) -> (r: Self)
        ensures
            r matches TokenType::Whitespace { characters } && characters@ == repeat_char(
                '\t',
                tabs as nat,
            ),
    {
        let chars = repeat_chars('\t', tabs);
        TokenType::Whitespace { characters: string_from_chars(chars.as_slice()) }
    }

    /// The text that this token type prints as, as characters.
    pub fn display_chars(&self) -> (r: Vec<char>)
        ensures
            r@ == self.spec_display(),
    {
        let mut r: Vec<char> = Vec::new();
        match self {
            TokenType::Eof => {},
            TokenType::Identifier { identifier } => {
                push_chars(&mut r, &chars_of(identifier.as_str()));
            },
            TokenType::MultiLineComment { blocks, comment } => {
                let eq = repeat_chars('=', *blocks);
                r.push('-');
                r.push('-');
                r.push('[');
                push_chars(&mut r, &eq);
                r.push('[');
                push_chars(&mut r, &chars_of(comment.as_str()));
                r.push(']');
                push_chars(&mut r, &eq);
                r.push(']');
            },
            TokenType::Number { text } => {
                push_chars(&mut r, &chars_of(text.as_str()));
            },
            TokenType::Shebang { line } => {
                push_chars(&mut r, &chars_of(line.as_str()));
            },
            TokenType::SingleLineComment { comment } => {
                r.push('-');
                r.push('-');
                push_chars(&mut r, &chars_of(comment.as_str()));
            },
            TokenType::StringLiteral { literal, multi_line_depth, quote_type } => {
                let lit = chars_of(literal.as_str());
                match quote_type {
                    StringLiteralQuoteType::Brackets => {
                        let eq = repeat_chars('=', *multi_line_depth);
                        r.push('[');
                        push_chars(&mut r, &eq);
                        r.push('[');
                        push_chars(&mut r, &lit);
                        r.push(']');
                        push_chars(&mut r, &eq);
                        r.push(']');
                    },
                    StringLiteralQuoteType::Double => {
                        r.push('"');
                        push_chars(&mut r, &lit);
                        r.push('"');
                    },
                    StringLiteralQuoteType::Single => {
                        r.push('\'');
                        push_chars(&mut r, &lit);
                        r.push('\'');
                    },
                }
            },
            TokenType::Symbol { symbol } => {
                push_chars(&mut r, &symbol.text());
            },
            TokenType::Whitespace { characters } => {
                push_chars(&mut r, &chars_of(characters.as_str()));
            },
            TokenType::InterpolatedString { literal, kind } => {
                let lit = chars_of(literal.as_str());
                match kind {
                    InterpolatedStringKind::Begin => {
                        r.push('`');
                        push_chars(&mut r, &lit);
                        r.push('{');
                    },
                    InterpolatedStringKind::Middle => {
                        r.push('}');
                        push_chars(&mut r, &lit);
                        r.push('{');
                    },
                    InterpolatedStringKind::End => {
                        r.push('}');
                        push_chars(&mut r, &lit);
                        r.push('`');
                    },
                    InterpolatedStringKind::Simple => {
                        r.push('`');
                        push_chars(&mut r, &lit);
                        r.push('`');
                    },
                }
            },
        }
        assert(r@ =~= self.spec_display());
        r
    }
}

/// Token types that are the same are of the same kind and print the same; every token type
/// is the same as itself, and sameness goes both ways.
pub proof fn law_same_token_types(a: TokenType, b: TokenType)
    ensures
        a.spec_same(&b) ==> a.spec_kind() == b.spec_kind() && a.spec_display() == b.spec_display(),
        a.spec_same(&a),
        a.spec_same(&b) == b.spec_same(&a),
{
}

impl TokenType {
    /// The two token types are the same: same kind, and the same data.
    pub open spec fn spec_same(&self, other: &TokenType) -> bool {
        match (*self, *other) {
            (TokenType::Eof, TokenType::Eof) => true,
            (TokenType::Identifier { identifier: a }, TokenType::Identifier { identifier: b }) => a@
                == b@,
            (
                TokenType::MultiLineComment { blocks: a, comment: c },
                TokenType::MultiLineComment { blocks: b, comment: d },
            ) => a == b && c@ == d@,
            (TokenType::Number { text: a }, TokenType::Number { text: b }) => a@ == b@,
            (TokenType::Shebang { line: a }, TokenType::Shebang { line: b }) => a@ == b@,
            (
                TokenType::SingleLineComment { comment: a },
                TokenType::SingleLineComment { comment: b },
            ) => a@ == b@,
            (
                TokenType::StringLiteral { literal: a, multi_line_depth: c, quote_type: e },
                TokenType::StringLiteral { literal: b, multi_line_depth: d, quote_type: f },
            ) => a@ == b@ && c == d && e == f,
            (TokenType::Symbol { symbol: a }, TokenType::Symbol { symbol: b }) => a == b,
            (TokenType::Whitespace { characters: a }, TokenType::Whitespace { characters: b }) =>
                a@ == b@,
            (
                TokenType::InterpolatedString { literal: a, kind: c },
                TokenType::InterpolatedString { literal: b, kind: d },
            ) => a@ == b@ && c == d,
            _ => false,
        }
    }

    /// Whether the two token types are the same: same kind, and the same data.
    pub fn same_as(&self, other: &TokenType) -> (r: bool)
        ensures
            r == self.spec_same(other),
    {
        match (self, other) {
            (TokenType::Eof, TokenType::Eof) => true,
            (TokenType::Identifier { identifier: a }, TokenType::Identifier { identifier: b }) => *a
                == *b,
            (
                TokenType::MultiLineComment { blocks: a, comment: c },
                TokenType::MultiLineComment { blocks: b, comment: d },
            ) => *a == *b && *c == *d,
            (TokenType::Number { text: a }, TokenType::Number { text: b }) => *a == *b,
            (TokenType::Shebang { line: a }, TokenType::Shebang { line: b }) => *a == *b,
            (
                TokenType::SingleLineComment { comment: a },
                TokenType::SingleLineComment { comment: b },
            ) => *a == *b,
            (
                TokenType::StringLiteral { literal: a, multi_line_depth: c, quote_type: e },
                TokenType::StringLiteral { literal: b, multi_line_depth: d, quote_type: f },
            ) => *a == *b && *c == *d && *e == *f,
            (TokenType::Symbol { symbol: a }, TokenType::Symbol { symbol: b }) => *a == *b,
            (TokenType::Whitespace { characters: a }, TokenType::Whitespace { characters: b }) =>
                *a == *b,
            (
                TokenType::InterpolatedString { literal: a, kind: c },
                TokenType::InterpolatedString { literal: b, kind: d },
            ) => *a == *b && *c == *d,
            _ => false,
        }
    }
}

impl Clone for TokenType {
    fn clone(&self) -> (r: Self)
        ensures
            r == *self,
    {
        match self {
            TokenType::Eof => TokenType::Eof,
            TokenType::Identifier { identifier } => TokenType::Identifier {
                identifier: identifier.clone(),
            },
            TokenType::MultiLineComment { blocks, comment } => TokenType::MultiLineComment {
                blocks: *blocks,
                comment: comment.clone(),
            },
            TokenType::Number { text } => TokenType::Number { text: text.clone() },
            TokenType::Shebang { line } => TokenType::Shebang { line: line.clone() },
            TokenType::SingleLineComment { comment } => TokenType::SingleLineComment {
                comment: comment.clone(),
            },
            TokenType::StringLiteral { literal, multi_line_depth, quote_type } =>
                TokenType::StringLiteral {
                    literal: literal.clone(),
                    multi_line_depth: *multi_line_depth,
                    quote_type: *quote_type,
                },
            TokenType::Symbol { symbol } => TokenType::Symbol { symbol: *symbol },
            TokenType::Whitespace { characters } => TokenType::Whitespace {
                characters: characters.clone(),
            },
            TokenType::InterpolatedString { literal, kind } => TokenType::InterpolatedString {
                literal: literal.clone(),
                kind: *kind,
            },
        }
    }
}

/// A token such consisting of its [`Position`] and a [`TokenType`]
#[derive(Debug, PartialEq, Eq)]
pub struct Token {
    /// The position a token begins at
    pub start_position: Position,
    /// The position a token ends at
    pub end_position: Position,
    /// The type of token as well as the data needed to represent it
    pub token_type: TokenType,
}

impl Clone for Token {
    fn clone(&self) -> (r: Self)
        ensures
            r == *self,
    {
        Token {
            start_position: self.start_position,
            end_position: self.end_position,
            token_type: self.token_type.clone(),
        }
    }
}

/// A copy of every token of `v`.
pub fn clone_tokens(v: &Vec<Token>) -> (r: Vec<Token>)
    ensures
        r@ == v@,
{
    let mut r: Vec<Token> = Vec::new();
    let mut i: usize = 0;
    while i < v.len()
        invariant
            i <= v@.len(),
            r@ == v@.take(i as int),
        decreases v@.len() - i,
    {
        r.push(v[i].clone());
        i += 1;
        assert(r@ =~= v@.take(i as int));
    }
    assert(v@.take(v@.len() as int) =~= v@);
    r
}

impl Token {
    /// Creates a token with a zero position
    pub fn new(token_type: TokenType) -> (r: Self)
        ensures
            r.start_position == (Position { bytes: 0, line: 0, character: 0 }),
            r.end_position == (Position { bytes: 0, line: 0, character: 0 }),
            r.token_type == token_type,
    {
        Token {
            start_position: Position { bytes: 0, line: 0, character: 0 },
            end_position: Position { bytes: 0, line: 0, character: 0 },
            token_type,
        }
    }

    /// The position a token begins at
    pub fn start_position(&self) -> (r: Position)
        ensures
            r == self.start_position,
    {
        self.start_position
    }

    /// The position a token ends at
    pub fn end_position(&self) -> (r: Position)
        ensures
            r == self.end_position,
    {
        self.end_position
    }

    /// The type of token as well as the data needed to represent it
    pub fn token_type(&self) -> (r: &TokenType)
        ensures
            *r == self.token_type,
    {
        &self.token_type
    }

    /// The kind of token with no additional data.
    pub fn token_kind(&self) -> (r: TokenKind)
        ensures
            r == self.token_type.spec_kind(),
    {
        self.token_type.kind()
    }

    /// The text this token prints as.
    pub open spec fn spec_display(&self) -> Seq<char> {
        self.token_type.spec_display()
    }

    /// The text this token prints as.
    pub fn to_string(&self) -> (r: String)
        ensures
            r@ == self.spec_display(),
    {
        let chars = self.token_type.display_chars();
        string_from_chars(chars.as_slice())
    }
}

/// The texts of the tokens of `v`, one after the other.
pub open spec fn display_tokens(v: Seq<Token>) -> Seq<char>
    decreases v.len(),
{
    if v.len() == 0 {
        Seq::empty()
    } else {
        v[0].spec_display() + display_tokens(v.drop_first())
    }
}

/// A reference to a token used by Ast's.
#[derive(Debug, PartialEq, Eq)]
pub struct TokenReference {
    /// The trivia before the token
    pub leading_trivia: Vec<Token>,
    /// The token itself
    pub token: Token,
    /// The trivia after the token
    pub trailing_trivia: Vec<Token>,
}

/// What a token reference holds: its leading trivia, its token and its trailing trivia.
pub type TokenReferenceView = (Seq<Token>, Token, Seq<Token>);

impl View for TokenReference {
    type V = TokenReferenceView;

    open spec fn view(&self) -> TokenReferenceView {
        (self.leading_trivia@, self.token, self.trailing_trivia@)
    }
}

/// The text of the token references `v`, one after the other.
pub open spec fn display_references(v: Seq<TokenReferenceView>) -> Seq<char>
    decreases v.len(),
{
    if v.len() == 0 {
        Seq::empty()
    } else {
        display_references(v.drop_last()) + display_tokens(v.last().0) + v.last().1.spec_display()
            + display_tokens(v.last().2)
    }
}

impl Clone for TokenReference {
    fn clone(&self) -> (r: Self)
        ensures
            r.leading_trivia@ == self.leading_trivia@,
            r.token == self.token,
            r.trailing_trivia@ == self.trailing_trivia@,
    {
        TokenReference {
            leading_trivia: clone_tokens(&self.leading_trivia),
            token: self.token.clone(),
            trailing_trivia: clone_tokens(&self.trailing_trivia),
        }
    }
}

impl TokenReference {
    /// Creates a TokenReference from leading/trailing trivia as well as the leading token
    pub fn new(leading_trivia: Vec<Token>, token: Token, trailing_trivia: Vec<Token>) -> (r: Self)
        ensures
            r.leading_trivia == leading_trivia,
            r.token == token,
            r.trailing_trivia == trailing_trivia,
    {
        TokenReference { leading_trivia, token, trailing_trivia }
    }

    /// Returns the inner token.
    pub fn token(&self) -> (r: &Token)
        ensures
            *r == self.token,
    {
        &self.token
    }

    /// Returns the leading trivia
    pub fn leading_trivia(&self) -> (r: &[Token])
        ensures
            r@ == self.leading_trivia@,
    {
        self.leading_trivia.as_slice()
    }

    /// Returns the trailing trivia
    pub fn trailing_trivia(&self) -> (r: &[Token])
        ensures
            r@ == self.trailing_trivia@,
    {
        self.trailing_trivia.as_slice()
    }

    /// Creates a clone of the current TokenReference with the new inner token, preserving trivia.
    pub fn with_token(&self, token: Token) -> (r: Self)
        ensures
            r.token == token,
            r.leading_trivia@ == self.leading_trivia@,
            r.trailing_trivia@ == self.trailing_trivia@,
    {
        TokenReference {
            token,
            leading_trivia: clone_tokens(&self.leading_trivia),
            trailing_trivia: clone_tokens(&self.trailing_trivia),
        }
    }

    /// The token is the given symbol.
    pub open spec fn spec_is_symbol(&self, symbol: Symbol) -> bool {
        self.token.token_type matches TokenType::Symbol { symbol: s } && s == symbol
    }

    /// Checks if the token is the given symbol
    pub fn is_symbol(&self, symbol: Symbol) -> (r: bool)
        ensures
            r == self.spec_is_symbol(symbol),
    {
        match &self.token.token_type {
            TokenType::Symbol { symbol: s } => *s == symbol,
            _ => false,
        }
    }

    /// The text this token reference prints as: its leading trivia, its token and its
    /// trailing trivia.
    pub open spec fn spec_display(&self) -> Seq<char> {
        display_tokens(self.leading_trivia@) + self.token.spec_display() + display_tokens(
            self.trailing_trivia@,
        )
    }

    /// The tokens this reference holds, in order.
    pub open spec fn spec_all_tokens(&self) -> Seq<Token> {
        self.leading_trivia@ + seq![self.token] + self.trailing_trivia@
    }

    /// The text this token reference prints as.
    pub fn display_chars(&self) -> (r: Vec<char>)
        ensures
            r@ == self.spec_display(),
    {
        let mut r = display_token_chars(self.leading_trivia.as_slice());
        push_chars(&mut r, &self.token.token_type.display_chars());
        push_chars(&mut r, &display_token_chars(self.trailing_trivia.as_slice()));
        r
    }

    /// The text this token reference prints as.
    pub fn to_string(&self) -> (r: String)
        ensures
            r@ == self.spec_display(),
    {
        let chars = self.display_chars();
        string_from_chars(chars.as_slice())
    }
}

/// The text of token references one after the other is the text of the first ones, then
/// that of the others.
pub proof fn lemma_display_references_append(a: Seq<TokenReferenceView>, b: Seq<TokenReferenceView>)
    ensures
        display_references(a + b) == display_references(a) + display_references(b),
    decreases b.len(),
{
    if b.len() == 0 {
        assert(a + b =~= a);
        assert(display_references(a) + Seq::<char>::empty() =~= display_references(a));
    } else {
        lemma_display_references_append(a, b.drop_last());
        assert((a + b).drop_last() =~= a + b.drop_last());
        assert((a + b).last() == b.last());
        let x = display_tokens(b.last().0) + b.last().1.spec_display() + display_tokens(b.last().2);
        assert(display_references(a) + display_references(b.drop_last()) + x =~= display_references(
            a,
        ) + (display_references(b.drop_last()) + x));
    }
}

/// Splitting off the last token of a sequence splits off its text.
pub proof fn lemma_display_tokens_push(v: Seq<Token>, t: Token)
    ensures
        display_tokens(v.push(t)) == display_tokens(v) + t.spec_display(),
    decreases v.len(),
{
    if v.len() == 0 {
        assert(v.push(t).drop_first() =~= Seq::<Token>::empty());
        assert(display_tokens(Seq::<Token>::empty()) == Seq::<char>::empty());
        assert(display_tokens(v.push(t)) =~= t.spec_display());
    } else {
        assert(v.push(t).drop_first() =~= v.drop_first().push(t));
        lemma_display_tokens_push(v.drop_first(), t);
        assert(display_tokens(v.push(t)) =~= display_tokens(v) + t.spec_display());
    }
}

/// The text of two sequences of tokens one after the other is the text of the first, then
/// that of the second.
pub proof fn lemma_display_tokens_append(a: Seq<Token>, b: Seq<Token>)
    ensures
        display_tokens(a + b) == display_tokens(a) + display_tokens(b),
    decreases a.len(),
{
    if a.len() == 0 {
        assert(a + b =~= b);
        assert(display_tokens(a) == Seq::<char>::empty());
        assert(display_tokens(a + b) =~= display_tokens(a) + display_tokens(b));
    } else {
        assert((a + b).drop_first() =~= a.drop_first() + b);
        lemma_display_tokens_append(a.drop_first(), b);
        assert(display_tokens(a + b) =~= display_tokens(a) + display_tokens(b));
    }
}

/// The text of a slice of tokens, as characters.
pub fn display_token_chars(v: &[Token]) -> (r: Vec<char>)
    ensures
        r@ == display_tokens(v@),
{
    let mut r: Vec<char> = Vec::new();
    let mut i: usize = 0;
    while i < v.len()
        invariant
            i <= v@.len(),
            r@ == display_tokens(v@.take(i as int)),
        decreases v@.len() - i,
    {
        proof {
            lemma_display_tokens_push(v@.take(i as int), v@[i as int]);
            assert(v@.take(i as int).push(v@[i as int]) =~= v@.take(i + 1));
        }
        push_chars(&mut r, &v[i].token_type.display_chars());
        i += 1;
    }
    assert(v@.take(v@.len() as int) =~= v@);
    r
}

/// The possible errors that can happen while tokenizing.
#[derive(Debug, PartialEq, Eq)]
pub enum TokenizerErrorType {
    /// An unclosed multi-line comment was found
    UnclosedComment,
    /// An unclosed string was found
    UnclosedString,
    /// An invalid number was found
    InvalidNumber,
    /// An unexpected token was found
    UnexpectedToken(char),
    /// Symbol passed is not valid
    /// Returned from [`TokenReference::symbol_specific_lua_version`]
    InvalidSymbol(String),
    /// A shebang was found somewhere other than at the start of the source
    UnexpectedShebang,
}

impl TokenizerErrorType {
    /// The human readable message for this error.
    pub open spec fn spec_message(&self) -> Seq<char> {
        match self {
            TokenizerErrorType::UnclosedComment => "unclosed comment"@,
            TokenizerErrorType::UnclosedString => "unclosed string"@,
            TokenizerErrorType::InvalidNumber => "invalid number"@,
            TokenizerErrorType::UnexpectedToken(c) => "unexpected character "@ + seq![*c],
            TokenizerErrorType::InvalidSymbol(symbol) => "invalid symbol "@ + symbol@,
            TokenizerErrorType::UnexpectedShebang => "unexpected shebang"@,
        }
    }

    /// The human readable message for this error, as characters.
    pub fn message_chars(&self) -> (r: Vec<char>)
        ensures
            r@ == self.spec_message(),
    {
        match self {
            TokenizerErrorType::UnclosedComment => chars_of("unclosed comment"),
            TokenizerErrorType::UnclosedString => chars_of("unclosed string"),
            TokenizerErrorType::InvalidNumber => chars_of("invalid number"),
            TokenizerErrorType::UnexpectedToken(c) => {
                let mut r = chars_of("unexpected character ");
                r.push(*c);
                r
            },
            TokenizerErrorType::InvalidSymbol(symbol) => {
                let mut r = chars_of("invalid symbol ");
                push_chars(&mut r, &chars_of(symbol.as_str()));
                r
            },
            TokenizerErrorType::UnexpectedShebang => chars_of("unexpected shebang"),
        }
    }

    /// The human readable message for this error.
    pub fn to_string(&self) -> (r: String)
        ensures
            r@ == self.spec_message(),
    {
        let chars = self.message_chars();
        string_from_chars(chars.as_slice())
    }
}

impl Clone for TokenizerErrorType {
    fn clone(&self) -> (r: Self)
        ensures
            r == *self,
    {
        match self {
            TokenizerErrorType::UnclosedComment => TokenizerErrorType::UnclosedComment,
            TokenizerErrorType::UnclosedString => TokenizerErrorType::UnclosedString,
            TokenizerErrorType::InvalidNumber => TokenizerErrorType::InvalidNumber,
            TokenizerErrorType::UnexpectedToken(c) => TokenizerErrorType::UnexpectedToken(*c),
            TokenizerErrorType::InvalidSymbol(symbol) => TokenizerErrorType::InvalidSymbol(
                symbol.clone(),
            ),
            TokenizerErrorType::UnexpectedShebang => TokenizerErrorType::UnexpectedShebang,
        }
    }
}

/// Information about an error that occurs while tokenizing
#[derive(Debug, PartialEq, Eq)]
pub struct TokenizerError {
    /// The type of error
    pub error: TokenizerErrorType,
    /// The range of the token that caused the error
    pub range: (Position, Position),
}

impl Clone for TokenizerError {
    fn clone(&self) -> (r: Self)
        ensures
            r == *self,
    {
        TokenizerError { error: self.error.clone(), range: (self.range.0, self.range.1) }
    }
}

impl TokenizerError {
    /// The type of error
    pub fn error(&self) -> (r: &TokenizerErrorType)
        ensures
            *r == self.error,
    {
        &self.error
    }

    /// The position of the first token that caused the error
    pub fn position(&self) -> (r: Position)
        ensures
            r == self.range.0,
    {
        self.range.0
    }

    /// The range of the token that caused the error
    pub fn range(&self) -> (r: (Position, Position))
        ensures
            r == self.range,
    {
        self.range
    }

    /// The human readable message for this error: the error, then its range as
    /// `(line:character to line:character)`.
    pub open spec fn spec_message(&self) -> Seq<char> {
        self.error.spec_message() + " ("@ + spec_decimal(self.range.0.line as nat) + ":"@
            + spec_decimal(self.range.0.character as nat) + " to "@ + spec_decimal(
            self.range.1.line as nat,
        ) + ":"@ + spec_decimal(self.range.1.character as nat) + ")"@
    }

    /// The human readable message for this error.
    pub fn to_string(&self) -> (r: String)
        ensures
            r@ == self.spec_message(),
    {
        let mut r = self.error.message_chars();
        push_chars(&mut r, &chars_of(" ("));
        push_chars(&mut r, &decimal(self.range.0.line));
        push_chars(&mut r, &chars_of(":"));
        push_chars(&mut r, &decimal(self.range.0.character));
        push_chars(&mut r, &chars_of(" to "));
        push_chars(&mut r, &decimal(self.range.1.line));
        push_chars(&mut r, &chars_of(":"));
        push_chars(&mut r, &decimal(self.range.1.character));
        push_chars(&mut r, &chars_of(")"));
        string_from_chars(r.as_slice())
    }
}

} // verus!
