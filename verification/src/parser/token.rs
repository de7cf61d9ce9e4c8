//! The tokens that the statements are made of.

use vstd::prelude::*;

verus! {

/// The words that the `COPY` statements reserve.
#[derive(Clone, Copy, Debug, PartialEq, Eq, Structural)]
pub enum TokenKind {
    COPY,
    INTO,
    FROM,
    FILES,
    PATTERN,
    FILE_FORMAT,
    VALIDATION_MODE,
    SIZE_LIMIT,
    MAX_FILES,
    SPLIT_SIZE,
    PURGE,
    FORCE,
    ON_ERROR,
    DISABLE_VARIANT_CHECK,
    RETURN_FAILED_ONLY,
    SINGLE,
    MAX_FILE_SIZE,
    TRUE,
    FALSE,
    /// `=`
    Eq,
    /// `(`
    LParen,
    /// `)`
    RParen,
    /// `,`
    Comma,
    /// `.`
    Period,
}

/// One token of a statement.
#[derive(Clone, Debug, PartialEq, Eq)]
pub enum Token {
    /// A reserved word or a sign.
    Word(TokenKind),
    /// A name.
    Ident(String),
    /// A text between quotes, without them.
    LiteralString(String),
    /// A number without sign.
    LiteralInteger(u64),
    /// A stage, written behind `@`, without it.
    AtString(String),
    /// A hint to the optimizer, written as a comment, without its marks.
    Hint(String),
    /// Anything else, as written.
    Other(String),
}

impl Token {
    /// A copy of the token.
    pub fn duplicate(&self) -> (copy: Token)
        ensures
            copy == *self,
    {
        match self {
            Token::Word(k) => Token::Word(*k),
            Token::Ident(s) => Token::Ident(s.clone()),
            Token::LiteralString(s) => Token::LiteralString(s.clone()),
            Token::LiteralInteger(n) => Token::LiteralInteger(*n),
            Token::AtString(s) => Token::AtString(s.clone()),
            Token::Hint(s) => Token::Hint(s.clone()),
            Token::Other(s) => Token::Other(s.clone()),
        }
    }
}

} // verus!
