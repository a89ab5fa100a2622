//! The token vocabulary shared by the lexer and the parser.

use vstd::prelude::*;

verus! {

/// The kind of a lexical token.
#[derive(Clone, Copy, Eq, Debug, Hash, PartialEq, Structural)]
pub enum TokenType {
    Illegal,
    Eof,
    Ident,
    Int,
    Str,
    Assign,
    Plus,
    Comma,
    Semicolon,
    LParen,
    RParen,
    LBrace,
    RBrace,
    LSquare,
    RSquare,
    Function,
    Let,
    Rec,
    Bang,
    Minus,
    Slash,
    Star,
    LArrow,
    RArrow,
    True,
    False,
    If,
    Else,
    Return,
    Eq,
    NotEq,
    GreaterEq,
    LessEq,
    Null,
    Def,
}

/// The mathematical value of a token: its kind and the exact source slice.
#[verifier::ext_equal]
pub ghost struct TokenV {
    pub token_type: TokenType,
    pub literal: Seq<char>,
}

/// A token: a kind paired with the exact slice of source text it came from.
pub struct Token {
    pub token_type: TokenType,
    pub literal: String,
}

impl View for Token {
    type V = TokenV;

    open spec fn view(&self) -> TokenV {
        TokenV { token_type: self.token_type, literal: self.literal@ }
    }
}

impl Token {
    /// Builds a token of the given kind holding a copy of `literal`.
    pub fn new(token_type: TokenType, literal: &str) -> (t: Self)
        ensures
            t@ == (TokenV { token_type, literal: literal@ }),
    {
        Self { token_type, literal: literal.to_owned() }
    }
}

impl Clone for Token {
    fn clone(&self) -> (t: Self)
        ensures
            t@ == self@,
    {
        Token { token_type: self.token_type, literal: self.literal.clone() }
    }
}

} // verus!
