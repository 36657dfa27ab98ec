//! The errors met while tokenizing and parsing.
use vstd::prelude::*;

use crate::position::Position;
use crate::text::{chars_of, decimal, push_chars, spec_decimal, string_from_chars};
use crate::tokenizer::{Token, TokenizerError};

verus! {

/// An error that occurs when creating the ast *after* tokenizing
#[derive(Debug, PartialEq, Eq)]
pub struct AstError {
    /// The token that caused the error
    pub token: Token,
    /// Any additional information that could be provided for debugging
    pub additional: String,
    /// If set, this is the complete range of the error
    pub range: Option<(Position, Position)>,
}

impl Clone for AstError {
    fn clone(&self) -> (r: Self)
        ensures
            r.token == self.token,
            r.additional@ == self.additional@,
            r.range == self.range,
    {
        AstError { token: self.token.clone(), additional: self.additional.clone(), range: self.range }
    }
}

impl AstError {
    /// The range of the error: the one it was given, else that of its token.
    pub open spec fn spec_range(&self) -> (Position, Position) {
        match self.range {
            Some(range) => range,
            None => (self.token.start_position, self.token.end_position),
        }
    }

    /// The text of the error: the token, the range, and the additional information.
    pub open spec fn spec_display(&self) -> Seq<char> {
        let range = self.spec_range();
        "unexpected token `"@ + self.token.spec_display() + "`. (starting from line "@
            + spec_decimal(range.0.line as nat) + ", character "@ + spec_decimal(
            range.0.character as nat,
        ) + " and ending on line "@ + spec_decimal(range.1.line as nat) + ", character "@
            + spec_decimal(range.1.character as nat) + ")\nadditional information: "@
            + self.additional@
    }

    /// The text of the error, as characters.
    pub fn display_chars(&self) -> (r: Vec<char>)
        ensures
            r@ == self.spec_display(),
    {
        let range = self.range();
        let mut r = chars_of("unexpected token `");
        push_chars(&mut r, &self.token.token_type.display_chars());
        push_chars(&mut r, &chars_of("`. (starting from line "));
        push_chars(&mut r, &decimal(range.0.line));
        push_chars(&mut r, &chars_of(", character "));
        push_chars(&mut r, &decimal(range.0.character));
        push_chars(&mut r, &chars_of(" and ending on line "));
        push_chars(&mut r, &decimal(range.1.line));
        push_chars(&mut r, &chars_of(", character "));
        push_chars(&mut r, &decimal(range.1.character));
        push_chars(&mut r, &chars_of(")\nadditional information: "));
        push_chars(&mut r, &chars_of(self.additional.as_str()));
        r
    }

    /// The text of the error.
    pub fn to_string(&self) -> (r: String)
        ensures
            r@ == self.spec_display(),
    {
        let chars = self.display_chars();
        string_from_chars(chars.as_slice())
    }

    /// Returns the token that caused the error
    pub fn token(&self) -> (r: &Token)
        ensures
            *r == self.token,
    {
        &self.token
    }

    /// Returns a human readable error message
    pub fn error_message(&self) -> (r: String)
        ensures
            r@ == self.additional@,
    {
        self.additional.clone()
    }

    /// Returns the range of the error
    pub fn range(&self) -> (r: (Position, Position))
        ensures
            r == self.spec_range(),
    {
        match self.range {
            Some(range) => range,
            None => (self.token.start_position, self.token.end_position),
        }
    }
}

/// An error type that consists of both [`AstError`] and [`TokenizerError`]
#[derive(Debug, PartialEq, Eq)]
pub enum Error {
    /// Triggered if there's an issue creating an AST, but tokenizing must have succeeded
    AstError(AstError),
    /// Triggered if there's an issue when tokenizing, and an AST can't be made
    TokenizerError(TokenizerError),
}

impl Clone for Error {
    fn clone(&self) -> (r: Self)
        ensures
            r.spec_message() == self.spec_message(),
            r.spec_range() == self.spec_range(),
            self is AstError <==> r is AstError,
            self matches Error::TokenizerError(e) ==> r == Error::TokenizerError(*e),
    {
        match self {
            Error::AstError(error) => Error::AstError(error.clone()),
            Error::TokenizerError(error) => Error::TokenizerError(error.clone()),
        }
    }
}

impl Error {
    /// The human readable message of the error.
    pub open spec fn spec_message(&self) -> Seq<char> {
        match self {
            Error::AstError(error) => error.additional@,
            Error::TokenizerError(error) => error.spec_message(),
        }
    }

    /// The range of the error.
    pub open spec fn spec_range(&self) -> (Position, Position) {
        match self {
            Error::AstError(error) => error.spec_range(),
            Error::TokenizerError(error) => error.range,
        }
    }

    /// The text of the error: what it occurred in, then the error itself.
    pub open spec fn spec_display(&self) -> Seq<char> {
        match self {
            Error::AstError(error) => "error occurred while creating ast: "@ + error.spec_display(),
            Error::TokenizerError(error) => "error occurred while tokenizing: "@
                + error.spec_message(),
        }
    }

    /// The text of the error.
    pub fn to_string(&self) -> (r: String)
        ensures
            r@ == self.spec_display(),
    {
        let chars = match self {
            Error::AstError(error) => {
                let mut r = chars_of("error occurred while creating ast: ");
                push_chars(&mut r, &error.display_chars());
                r
            },
            Error::TokenizerError(error) => {
                let mut r = chars_of("error occurred while tokenizing: ");
                push_chars(&mut r, &chars_of(error.to_string().as_str()));
                r
            },
        };
        string_from_chars(chars.as_slice())
    }

    /// Returns a human readable error message
    pub fn error_message(&self) -> (r: String)
        ensures
            r@ == self.spec_message(),
    {
        match self {
            Error::AstError(error) => error.error_message(),
            Error::TokenizerError(error) => error.to_string(),
        }
    }

    /// Returns the range of the error
    pub fn range(&self) -> (r: (Position, Position))
        ensures
            r == self.spec_range(),
    {
        match self {
            Error::AstError(error) => error.range(),
            Error::TokenizerError(error) => error.range(),
        }
    }
}

} // verus!
