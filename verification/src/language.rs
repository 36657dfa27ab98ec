//! Languages: what a parse is made of.
use vstd::prelude::*;

use crate::lexer::Lexer;

verus! {

/// A language that source can be parsed as.
pub trait Language {
    /// The lexer the language reads source with.
    type Lex;
}

/// Lua, with every version's features, read by the [`Lexer`].
pub struct SuperLua {
    lexer: Lexer,
}

impl Language for SuperLua {
    type Lex = Lexer;
}

} // verus!
