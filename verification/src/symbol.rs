use vstd::prelude::*;

use crate::text::chars_eq;
use crate::versions::LuaVersion;

verus! {

/// A literal symbol, used for both words important to syntax (like while) and operators (like +)
#[derive(Debug, Clone, Copy, PartialEq, Eq, Structural)]
#[non_exhaustive]
pub enum Symbol {
    /// `and`
    And,
    /// `break`
    Break,
    /// `do`
    Do,
    /// `else`
    Else,
    /// `elseif`
    ElseIf,
    /// `end`
    End,
    /// `false`
    False,
    /// `for`
    For,
    /// `function`
    Function,
    /// `if`
    If,
    /// `in`
    In,
    /// `local`
    Local,
    /// `nil`
    Nil,
    /// `not`
    Not,
    /// `or`
    Or,
    /// `repeat`
    Repeat,
    /// `return`
    Return,
    /// `then`
    Then,
    /// `true`
    True,
    /// `until`
    Until,
    /// `while`
    While,
    /// `goto`
    Goto,
    /// `+=`
    PlusEqual,
    /// `-=`
    MinusEqual,
    /// `*=`
    StarEqual,
    /// `/=`
    SlashEqual,
    /// `//=`
    DoubleSlashEqual,
    /// `%=`
    PercentEqual,
    /// `^=`
    CaretEqual,
    /// `..=`
    TwoDotsEqual,
    /// `&`
    Ampersand,
    /// `->`
    ThinArrow,
    /// `::`
    TwoColons,
    /// `^`
    Caret,
    /// `:`
    Colon,
    /// `,`
    Comma,
    /// `.`
    Dot,
    /// `..`
    TwoDots,
    /// `...`
    Ellipse,
    /// `=`
    Equal,
    /// `==`
    TwoEqual,
    /// `>`
    GreaterThan,
    /// `>=`
    GreaterThanEqual,
    /// `>>`
    DoubleGreaterThan,
    /// `#`
    Hash,
    /// `{`
    LeftBrace,
    /// `[`
    LeftBracket,
    /// `(`
    LeftParen,
    /// `<`
    LessThan,
    /// `<=`
    LessThanEqual,
    /// `<<`
    DoubleLessThan,
    /// `-`
    Minus,
    /// `%`
    Percent,
    /// `|`
    Pipe,
    /// `+`
    Plus,
    /// `?`
    QuestionMark,
    /// `}`
    RightBrace,
    /// `]`
    RightBracket,
    /// `)`
    RightParen,
    /// `;`
    Semicolon,
    /// `/`
    Slash,
    /// `//`
    DoubleSlash,
    /// `*`
    Star,
    /// `~`
    Tilde,
    /// `~=`
    TildeEqual,
}

/// Every symbol, in the order in which [`Symbol::from_chars`] looks them up.
pub open spec fn all_symbols() -> Seq<Symbol> {
    seq![
        Symbol::And,
        Symbol::Break,
        Symbol::Do,
        Symbol::Else,
        Symbol::ElseIf,
        Symbol::End,
        Symbol::False,
        Symbol::For,
        Symbol::Function,
        Symbol::If,
        Symbol::In,
        Symbol::Local,
        Symbol::Nil,
        Symbol::Not,
        Symbol::Or,
        Symbol::Repeat,
        Symbol::Return,
        Symbol::Then,
        Symbol::True,
        Symbol::Until,
        Symbol::While,
        Symbol::Goto,
        Symbol::PlusEqual,
        Symbol::MinusEqual,
        Symbol::StarEqual,
        Symbol::SlashEqual,
        Symbol::DoubleSlashEqual,
        Symbol::PercentEqual,
        Symbol::CaretEqual,
        Symbol::TwoDotsEqual,
        Symbol::Ampersand,
        Symbol::ThinArrow,
        Symbol::TwoColons,
        Symbol::Caret,
        Symbol::Colon,
        Symbol::Comma,
        Symbol::Dot,
        Symbol::TwoDots,
        Symbol::Ellipse,
        Symbol::Equal,
        Symbol::TwoEqual,
        Symbol::GreaterThan,
        Symbol::GreaterThanEqual,
        Symbol::DoubleGreaterThan,
        Symbol::Hash,
        Symbol::LeftBrace,
        Symbol::LeftBracket,
        Symbol::LeftParen,
        Symbol::LessThan,
        Symbol::LessThanEqual,
        Symbol::DoubleLessThan,
        Symbol::Minus,
        Symbol::Percent,
        Symbol::Pipe,
        Symbol::Plus,
        Symbol::QuestionMark,
        Symbol::RightBrace,
        Symbol::RightBracket,
        Symbol::RightParen,
        Symbol::Semicolon,
        Symbol::Slash,
        Symbol::DoubleSlash,
        Symbol::Star,
        Symbol::Tilde,
        Symbol::TildeEqual
    ]
}

/// The position of a symbol in [`all_symbols`].
pub open spec fn symbol_index(sym: Symbol) -> int {
    match sym {
        Symbol::And => 0,
        Symbol::Break => 1,
        Symbol::Do => 2,
        Symbol::Else => 3,
        Symbol::ElseIf => 4,
        Symbol::End => 5,
        Symbol::False => 6,
        Symbol::For => 7,
        Symbol::Function => 8,
        Symbol::If => 9,
        Symbol::In => 10,
        Symbol::Local => 11,
        Symbol::Nil => 12,
        Symbol::Not => 13,
        Symbol::Or => 14,
        Symbol::Repeat => 15,
        Symbol::Return => 16,
        Symbol::Then => 17,
        Symbol::True => 18,
        Symbol::Until => 19,
        Symbol::While => 20,
        Symbol::Goto => 21,
        Symbol::PlusEqual => 22,
        Symbol::MinusEqual => 23,
        Symbol::StarEqual => 24,
        Symbol::SlashEqual => 25,
        Symbol::DoubleSlashEqual => 26,
        Symbol::PercentEqual => 27,
        Symbol::CaretEqual => 28,
        Symbol::TwoDotsEqual => 29,
        Symbol::Ampersand => 30,
        Symbol::ThinArrow => 31,
        Symbol::TwoColons => 32,
        Symbol::Caret => 33,
        Symbol::Colon => 34,
        Symbol::Comma => 35,
        Symbol::Dot => 36,
        Symbol::TwoDots => 37,
        Symbol::Ellipse => 38,
        Symbol::Equal => 39,
        Symbol::TwoEqual => 40,
        Symbol::GreaterThan => 41,
        Symbol::GreaterThanEqual => 42,
        Symbol::DoubleGreaterThan => 43,
        Symbol::Hash => 44,
        Symbol::LeftBrace => 45,
        Symbol::LeftBracket => 46,
        Symbol::LeftParen => 47,
        Symbol::LessThan => 48,
        Symbol::LessThanEqual => 49,
        Symbol::DoubleLessThan => 50,
        Symbol::Minus => 51,
        Symbol::Percent => 52,
        Symbol::Pipe => 53,
        Symbol::Plus => 54,
        Symbol::QuestionMark => 55,
        Symbol::RightBrace => 56,
        Symbol::RightBracket => 57,
        Symbol::RightParen => 58,
        Symbol::Semicolon => 59,
        Symbol::Slash => 60,
        Symbol::DoubleSlash => 61,
        Symbol::Star => 62,
        Symbol::Tilde => 63,
        Symbol::TildeEqual => 64,
    }
}

impl Symbol {
    /// The text of the symbol.
    pub open spec fn spec_text(self) -> Seq<char> {
        match self {
            Symbol::And => seq!['a', 'n', 'd'],
            Symbol::Break => seq!['b', 'r', 'e', 'a', 'k'],
            Symbol::Do => seq!['d', 'o'],
            Symbol::Else => seq!['e', 'l', 's', 'e'],
            Symbol::ElseIf => seq!['e', 'l', 's', 'e', 'i', 'f'],
            Symbol::End => seq!['e', 'n', 'd'],
            Symbol::False => seq!['f', 'a', 'l', 's', 'e'],
            Symbol::For => seq!['f', 'o', 'r'],
            Symbol::Function => seq!['f', 'u', 'n', 'c', 't', 'i', 'o', 'n'],
            Symbol::If => seq!['i', 'f'],
            Symbol::In => seq!['i', 'n'],
            Symbol::Local => seq!['l', 'o', 'c', 'a', 'l'],
            Symbol::Nil => seq!['n', 'i', 'l'],
            Symbol::Not => seq!['n', 'o', 't'],
            Symbol::Or => seq!['o', 'r'],
            Symbol::Repeat => seq!['r', 'e', 'p', 'e', 'a', 't'],
            Symbol::Return => seq!['r', 'e', 't', 'u', 'r', 'n'],
            Symbol::Then => seq!['t', 'h', 'e', 'n'],
            Symbol::True => seq!['t', 'r', 'u', 'e'],
            Symbol::Until => seq!['u', 'n', 't', 'i', 'l'],
            Symbol::While => seq!['w', 'h', 'i', 'l', 'e'],
            Symbol::Goto => seq!['g', 'o', 't', 'o'],
            Symbol::PlusEqual => seq!['+', '='],
            Symbol::MinusEqual => seq!['-', '='],
            Symbol::StarEqual => seq!['*', '='],
            Symbol::SlashEqual => seq!['/', '='],
            Symbol::DoubleSlashEqual => seq!['/', '/', '='],
            Symbol::PercentEqual => seq!['%', '='],
            Symbol::CaretEqual => seq!['^', '='],
            Symbol::TwoDotsEqual => seq!['.', '.', '='],
            Symbol::Ampersand => seq!['&'],
            Symbol::ThinArrow => seq!['-', '>'],
            Symbol::TwoColons => seq![':', ':'],
            Symbol::Caret => seq!['^'],
            Symbol::Colon => seq![':'],
            Symbol::Comma => seq![','],
            Symbol::Dot => seq!['.'],
            Symbol::TwoDots => seq!['.', '.'],
            Symbol::Ellipse => seq!['.', '.', '.'],
            Symbol::Equal => seq!['='],
            Symbol::TwoEqual => seq!['=', '='],
            Symbol::GreaterThan => seq!['>'],
            Symbol::GreaterThanEqual => seq!['>', '='],
            Symbol::DoubleGreaterThan => seq!['>', '>'],
            Symbol::Hash => seq!['#'],
            Symbol::LeftBrace => seq!['{'],
            Symbol::LeftBracket => seq!['['],
            Symbol::LeftParen => seq!['('],
            Symbol::LessThan => seq!['<'],
            Symbol::LessThanEqual => seq!['<', '='],
            Symbol::DoubleLessThan => seq!['<', '<'],
            Symbol::Minus => seq!['-'],
            Symbol::Percent => seq!['%'],
            Symbol::Pipe => seq!['|'],
            Symbol::Plus => seq!['+'],
            Symbol::QuestionMark => seq!['?'],
            Symbol::RightBrace => seq!['}'],
            Symbol::RightBracket => seq![']'],
            Symbol::RightParen => seq![')'],
            Symbol::Semicolon => seq![';'],
            Symbol::Slash => seq!['/'],
            Symbol::DoubleSlash => seq!['/', '/'],
            Symbol::Star => seq!['*'],
            Symbol::Tilde => seq!['~'],
            Symbol::TildeEqual => seq!['~', '='],
        }
    }

    /// The text of the symbol, as characters.
    pub fn text(&self) -> (r: Vec<char>)
        ensures
            r@ == self.spec_text(),
    {
        match self {
            Symbol::And => vec!['a', 'n', 'd'],
            Symbol::Break => vec!['b', 'r', 'e', 'a', 'k'],
            Symbol::Do => vec!['d', 'o'],
            Symbol::Else => vec!['e', 'l', 's', 'e'],
            Symbol::ElseIf => vec!['e', 'l', 's', 'e', 'i', 'f'],
            Symbol::End => vec!['e', 'n', 'd'],
            Symbol::False => vec!['f', 'a', 'l', 's', 'e'],
            Symbol::For => vec!['f', 'o', 'r'],
            Symbol::Function => vec!['f', 'u', 'n', 'c', 't', 'i', 'o', 'n'],
            Symbol::If => vec!['i', 'f'],
            Symbol::In => vec!['i', 'n'],
            Symbol::Local => vec!['l', 'o', 'c', 'a', 'l'],
            Symbol::Nil => vec!['n', 'i', 'l'],
            Symbol::Not => vec!['n', 'o', 't'],
            Symbol::Or => vec!['o', 'r'],
            Symbol::Repeat => vec!['r', 'e', 'p', 'e', 'a', 't'],
            Symbol::Return => vec!['r', 'e', 't', 'u', 'r', 'n'],
            Symbol::Then => vec!['t', 'h', 'e', 'n'],
            Symbol::True => vec!['t', 'r', 'u', 'e'],
            Symbol::Until => vec!['u', 'n', 't', 'i', 'l'],
            Symbol::While => vec!['w', 'h', 'i', 'l', 'e'],
            Symbol::Goto => vec!['g', 'o', 't', 'o'],
            Symbol::PlusEqual => vec!['+', '='],
            Symbol::MinusEqual => vec!['-', '='],
            Symbol::StarEqual => vec!['*', '='],
            Symbol::SlashEqual => vec!['/', '='],
            Symbol::DoubleSlashEqual => vec!['/', '/', '='],
            Symbol::PercentEqual => vec!['%', '='],
            Symbol::CaretEqual => vec!['^', '='],
            Symbol::TwoDotsEqual => vec!['.', '.', '='],
            Symbol::Ampersand => vec!['&'],
            Symbol::ThinArrow => vec!['-', '>'],
            Symbol::TwoColons => vec![':', ':'],
            Symbol::Caret => vec!['^'],
            Symbol::Colon => vec![':'],
            Symbol::Comma => vec![','],
            Symbol::Dot => vec!['.'],
            Symbol::TwoDots => vec!['.', '.'],
            Symbol::Ellipse => vec!['.', '.', '.'],
            Symbol::Equal => vec!['='],
            Symbol::TwoEqual => vec!['=', '='],
            Symbol::GreaterThan => vec!['>'],
            Symbol::GreaterThanEqual => vec!['>', '='],
            Symbol::DoubleGreaterThan => vec!['>', '>'],
            Symbol::Hash => vec!['#'],
            Symbol::LeftBrace => vec!['{'],
            Symbol::LeftBracket => vec!['['],
            Symbol::LeftParen => vec!['('],
            Symbol::LessThan => vec!['<'],
            Symbol::LessThanEqual => vec!['<', '='],
            Symbol::DoubleLessThan => vec!['<', '<'],
            Symbol::Minus => vec!['-'],
            Symbol::Percent => vec!['%'],
            Symbol::Pipe => vec!['|'],
            Symbol::Plus => vec!['+'],
            Symbol::QuestionMark => vec!['?'],
            Symbol::RightBrace => vec!['}'],
            Symbol::RightBracket => vec![']'],
            Symbol::RightParen => vec![')'],
            Symbol::Semicolon => vec![';'],
            Symbol::Slash => vec!['/'],
            Symbol::DoubleSlash => vec!['/', '/'],
            Symbol::Star => vec!['*'],
            Symbol::Tilde => vec!['~'],
            Symbol::TildeEqual => vec!['~', '='],
        }
    }
}

/// The list of all symbols, in lookup order.
pub fn symbol_list() -> (r: Vec<Symbol>)
    ensures
        r@ == all_symbols(),
{
    vec![
        Symbol::And,
        Symbol::Break,
        Symbol::Do,
        Symbol::Else,
        Symbol::ElseIf,
        Symbol::End,
        Symbol::False,
        Symbol::For,
        Symbol::Function,
        Symbol::If,
        Symbol::In,
        Symbol::Local,
        Symbol::Nil,
        Symbol::Not,
        Symbol::Or,
        Symbol::Repeat,
        Symbol::Return,
        Symbol::Then,
        Symbol::True,
        Symbol::Until,
        Symbol::While,
        Symbol::Goto,
        Symbol::PlusEqual,
        Symbol::MinusEqual,
        Symbol::StarEqual,
        Symbol::SlashEqual,
        Symbol::DoubleSlashEqual,
        Symbol::PercentEqual,
        Symbol::CaretEqual,
        Symbol::TwoDotsEqual,
        Symbol::Ampersand,
        Symbol::ThinArrow,
        Symbol::TwoColons,
        Symbol::Caret,
        Symbol::Colon,
        Symbol::Comma,
        Symbol::Dot,
        Symbol::TwoDots,
        Symbol::Ellipse,
        Symbol::Equal,
        Symbol::TwoEqual,
        Symbol::GreaterThan,
        Symbol::GreaterThanEqual,
        Symbol::DoubleGreaterThan,
        Symbol::Hash,
        Symbol::LeftBrace,
        Symbol::LeftBracket,
        Symbol::LeftParen,
        Symbol::LessThan,
        Symbol::LessThanEqual,
        Symbol::DoubleLessThan,
        Symbol::Minus,
        Symbol::Percent,
        Symbol::Pipe,
        Symbol::Plus,
        Symbol::QuestionMark,
        Symbol::RightBrace,
        Symbol::RightBracket,
        Symbol::RightParen,
        Symbol::Semicolon,
        Symbol::Slash,
        Symbol::DoubleSlash,
        Symbol::Star,
        Symbol::Tilde,
        Symbol::TildeEqual
    ]
}

/// The first symbol of `list` whose text is `t`.
pub open spec fn first_with_text(list: Seq<Symbol>, t: Seq<char>) -> Option<Symbol>
    decreases list.len(),
{
    if list.len() == 0 {
        None
    } else if list[0].spec_text() == t {
        Some(list[0])
    } else {
        first_with_text(list.drop_first(), t)
    }
}

/// The symbol whose text is `t`, if there is one.
pub open spec fn spec_symbol_from_chars(t: Seq<char>) -> Option<Symbol> {
    first_with_text(all_symbols(), t)
}

proof fn lemma_first_with_text(list: Seq<Symbol>, t: Seq<char>)
    ensures
        first_with_text(list, t) matches Some(sym) ==> sym.spec_text() == t && list.contains(sym),
        first_with_text(list, t) is None ==> forall|k: int|
            0 <= k < list.len() ==> (#[trigger] list[k]).spec_text() != t,
    decreases list.len(),
{
    if list.len() > 0 {
        lemma_first_with_text(list.drop_first(), t);
        if first_with_text(list, t) is None {
            assert forall|k: int| 0 <= k < list.len() implies (#[trigger] list[k]).spec_text() != t by {
                if k > 0 {
                    assert(list[k] == list.drop_first()[k - 1]);
                }
            }
        }
        if let Some(sym) = first_with_text(list.drop_first(), t) {
            if list[0].spec_text() != t {
                let k = choose|k: int| 0 <= k < list.drop_first().len() && list.drop_first()[k] == sym;
                assert(list[k + 1] == sym);
            }
        }
    }
}

/// Every symbol occurs in [`all_symbols`].
pub proof fn lemma_all_symbols_complete(sym: Symbol)
    ensures
        0 <= symbol_index(sym) < all_symbols().len(),
        all_symbols()[symbol_index(sym)] == sym,
{
}

/// What [`spec_symbol_from_chars`] finds is a symbol with that text, and it finds
/// nothing only when no symbol has that text.
pub proof fn lemma_symbol_from_chars(t: Seq<char>)
    ensures
        spec_symbol_from_chars(t) matches Some(sym) ==> sym.spec_text() == t,
        spec_symbol_from_chars(t) is None ==> forall|sym: Symbol| (#[trigger] sym.spec_text()) != t,
{
    lemma_first_with_text(all_symbols(), t);
    if spec_symbol_from_chars(t) is None {
        assert forall|sym: Symbol| (#[trigger] sym.spec_text()) != t by {
            lemma_all_symbols_complete(sym);
        }
    }
}

impl Symbol {
    /// Given just the symbol text (no whitespace), returns the associated symbol, if it exists.
    pub fn from_chars(t: &[char]) -> (r: Option<Symbol>)
        ensures
            r == spec_symbol_from_chars(t@),
    {
        let list = symbol_list();
        let mut i: usize = 0;
        assert(all_symbols().skip(0) =~= all_symbols());
        while i < list.len()
            invariant
                list@ == all_symbols(),
                i <= list@.len(),
                first_with_text(all_symbols(), t@) == first_with_text(all_symbols().skip(i as int), t@),
            decreases list@.len() - i,
        {
            let text = list[i].text();
            assert(all_symbols().skip(i as int).drop_first() =~= all_symbols().skip(i + 1));
            if chars_eq(text.as_slice(), t) {
                assert(all_symbols().skip(i as int)[0] == list@[i as int]);
                return Some(list[i]);
            }
            i += 1;
        }
        None
    }

    /// Given just the symbol text (no whitespace) and the Lua versions, returns the associated
    /// symbol, if it exists in one of those versions.
    pub fn from_str(symbol: &str, lua_version: LuaVersion) -> (r: Option<Symbol>)
        ensures
            r == (match spec_symbol_from_chars(symbol@) {
                Some(found) => if symbol_in_versions(found, lua_version@) {
                    Some(found)
                } else {
                    None
                },
                None => None,
            }),
            r == symbol_read_in(symbol@, lua_version@),
    {
        let chars = crate::text::chars_of(symbol);
        match Symbol::from_chars(chars.as_slice()) {
            Some(found) => if found.in_versions(lua_version) {
                Some(found)
            } else {
                None
            },
            None => None,
        }
    }

    /// Whether the symbol exists in one of the Lua versions.
    pub fn in_versions(self, lua_version: LuaVersion) -> (r: bool)
        ensures
            r == symbol_in_versions(self, lua_version@),
    {
        match self {
            Symbol::Goto => lua_version.has_lua52(),
            Symbol::PlusEqual | Symbol::MinusEqual | Symbol::StarEqual | Symbol::SlashEqual
            | Symbol::DoubleSlashEqual | Symbol::PercentEqual | Symbol::CaretEqual
            | Symbol::TwoDotsEqual | Symbol::ThinArrow | Symbol::QuestionMark => lua_version.has_luau(),
            Symbol::Ampersand | Symbol::Pipe | Symbol::DoubleSlash => lua_version.has_luau()
                || lua_version.has_lua53(),
            Symbol::TwoColons => lua_version.has_luau() || lua_version.has_lua52(),
            Symbol::DoubleGreaterThan | Symbol::DoubleLessThan | Symbol::Tilde => lua_version.has_lua53(),
            _ => true,
        }
    }
}


/// Whether the symbol exists in one of the Lua versions whose Luau, Lua 5.2 and Lua 5.3
/// features are `versions`; the symbols of Lua 5.1 exist in all of them.
pub open spec fn symbol_in_versions(symbol: Symbol, versions: (bool, bool, bool)) -> bool {
    match symbol {
        Symbol::Goto => versions.1,
        Symbol::PlusEqual | Symbol::MinusEqual | Symbol::StarEqual | Symbol::SlashEqual
        | Symbol::DoubleSlashEqual | Symbol::PercentEqual | Symbol::CaretEqual
        | Symbol::TwoDotsEqual | Symbol::ThinArrow | Symbol::QuestionMark => versions.0,
        Symbol::Ampersand | Symbol::Pipe | Symbol::DoubleSlash => versions.0 || versions.2,
        Symbol::TwoColons => versions.0 || versions.1,
        Symbol::DoubleGreaterThan | Symbol::DoubleLessThan | Symbol::Tilde => versions.2,
        _ => true,
    }
}

/// The symbol the text `t` stands for among the symbols of the Lua versions whose Luau, Lua
/// 5.2 and Lua 5.3 features are `versions`.
pub open spec fn symbol_read_in(t: Seq<char>, versions: (bool, bool, bool)) -> Option<Symbol> {
    match spec_symbol_from_chars(t) {
        Some(found) => if symbol_in_versions(found, versions) {
            Some(found)
        } else {
            None
        },
        None => None,
    }
}

/// A symbol of some Lua versions is a symbol of any set of versions that holds them.
pub proof fn law_versions_grow(symbol: Symbol, v: (bool, bool, bool), w: (bool, bool, bool))
    requires
        v.0 ==> w.0,
        v.1 ==> w.1,
        v.2 ==> w.2,
        symbol_in_versions(symbol, v),
    ensures
        symbol_in_versions(symbol, w),
{
}

/// Every symbol is a symbol of Luau, Lua 5.2 and Lua 5.3 taken together.
pub proof fn law_every_symbol_in_all_versions(symbol: Symbol)
    ensures
        symbol_in_versions(symbol, (true, true, true)),
{
}

/// Which texts are read as symbols for a set of versions: `>>`, `<<` and `~` only with Lua
/// 5.3; `goto` only with Lua 5.2; `+=` and `->` only with Luau; `&`, `|` and `//` with Luau
/// or Lua 5.3; `::` with Luau or Lua 5.2; and `==`, `..` and `and`, symbols of Lua 5.1, with
/// any.
pub proof fn law_symbols_by_version(v: (bool, bool, bool))
    ensures
        symbol_read_in(">>"@, v) == (if v.2 { Some(Symbol::DoubleGreaterThan) } else { None }),
        symbol_read_in("<<"@, v) == (if v.2 { Some(Symbol::DoubleLessThan) } else { None }),
        symbol_read_in("~"@, v) == (if v.2 { Some(Symbol::Tilde) } else { None }),
        symbol_read_in("goto"@, v) == (if v.1 { Some(Symbol::Goto) } else { None }),
        symbol_read_in("+="@, v) == (if v.0 { Some(Symbol::PlusEqual) } else { None }),
        symbol_read_in("->"@, v) == (if v.0 { Some(Symbol::ThinArrow) } else { None }),
        symbol_read_in("&"@, v) == (if v.0 || v.2 { Some(Symbol::Ampersand) } else { None }),
        symbol_read_in("|"@, v) == (if v.0 || v.2 { Some(Symbol::Pipe) } else { None }),
        symbol_read_in("//"@, v) == (if v.0 || v.2 { Some(Symbol::DoubleSlash) } else { None }),
        symbol_read_in("::"@, v) == (if v.0 || v.1 { Some(Symbol::TwoColons) } else { None }),
        symbol_read_in("=="@, v) == Some(Symbol::TwoEqual),
        symbol_read_in(".."@, v) == Some(Symbol::TwoDots),
        symbol_read_in("and"@, v) == Some(Symbol::And),
{
    reveal_strlit(">>");
    reveal_strlit("<<");
    reveal_strlit("~");
    reveal_strlit("goto");
    reveal_strlit("+=");
    reveal_strlit("->");
    reveal_strlit("&");
    reveal_strlit("|");
    reveal_strlit("//");
    reveal_strlit("::");
    reveal_strlit("==");
    reveal_strlit("..");
    reveal_strlit("and");
    assert(">>"@ =~= Symbol::DoubleGreaterThan.spec_text());
    assert("<<"@ =~= Symbol::DoubleLessThan.spec_text());
    assert("~"@ =~= Symbol::Tilde.spec_text());
    assert("goto"@ =~= Symbol::Goto.spec_text());
    assert("+="@ =~= Symbol::PlusEqual.spec_text());
    assert("->"@ =~= Symbol::ThinArrow.spec_text());
    assert("&"@ =~= Symbol::Ampersand.spec_text());
    assert("|"@ =~= Symbol::Pipe.spec_text());
    assert("//"@ =~= Symbol::DoubleSlash.spec_text());
    assert("::"@ =~= Symbol::TwoColons.spec_text());
    assert("=="@ =~= Symbol::TwoEqual.spec_text());
    assert(".."@ =~= Symbol::TwoDots.spec_text());
    assert("and"@ =~= Symbol::And.spec_text());
    lemma_symbol_round_trip(Symbol::DoubleGreaterThan);
    lemma_symbol_round_trip(Symbol::DoubleLessThan);
    lemma_symbol_round_trip(Symbol::Tilde);
    lemma_symbol_round_trip(Symbol::Goto);
    lemma_symbol_round_trip(Symbol::PlusEqual);
    lemma_symbol_round_trip(Symbol::ThinArrow);
    lemma_symbol_round_trip(Symbol::Ampersand);
    lemma_symbol_round_trip(Symbol::Pipe);
    lemma_symbol_round_trip(Symbol::DoubleSlash);
    lemma_symbol_round_trip(Symbol::TwoColons);
    lemma_symbol_round_trip(Symbol::TwoEqual);
    lemma_symbol_round_trip(Symbol::TwoDots);
    lemma_symbol_round_trip(Symbol::And);
}

/// No two symbols are written the same way.
#[verifier::spinoff_prover]
#[verifier::rlimit(60)]
proof fn lemma_text_injective(a: Symbol, b: Symbol)
    requires
        a.spec_text() == b.spec_text(),
    ensures
        a == b,
{
    let ta = a.spec_text();
    let tb = b.spec_text();
    assert(ta.len() == tb.len());
    assert(ta[0] == tb[0]);
}

/// Reading the text of a symbol gives the symbol back.
pub proof fn lemma_symbol_round_trip(sym: Symbol)
    ensures
        spec_symbol_from_chars(sym.spec_text()) == Some(sym),
{
    lemma_symbol_from_chars(sym.spec_text());
    if let Some(found) = spec_symbol_from_chars(sym.spec_text()) {
        lemma_text_injective(found, sym);
    }
}

} // verus!
