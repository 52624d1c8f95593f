use vstd::prelude::*;

verus! {

/// One lexical unit of the language.
///
/// `Ident` and `Int` carry the exact text that was matched; an integer is
/// kept as its digits, with no numeric conversion.
#[derive(Debug, PartialEq, Eq)]
pub enum Token {
    Assign,
    Semicolon,
    Lparen,
    Rparen,
    Lbrace,
    Rbrace,
    Comma,
    Plus,
    Function,
    Let,
    If,
    Else,
    Return,
    True,
    False,
    Ident(String),
    Int(String),
    Eof,
    Invalid,
}

/// The mathematical value of a token: the same variants, with the payload
/// text seen as a sequence of characters.
pub enum TokenView {
    Assign,
    Semicolon,
    Lparen,
    Rparen,
    Lbrace,
    Rbrace,
    Comma,
    Plus,
    Function,
    Let,
    If,
    Else,
    Return,
    True,
    False,
    Ident(Seq<char>),
    Int(Seq<char>),
    Eof,
    Invalid,
}

impl View for Token {
    type V = TokenView;

    open spec fn view(&self) -> TokenView {
        match self {
            Token::Assign => TokenView::Assign,
            Token::Semicolon => TokenView::Semicolon,
            Token::Lparen => TokenView::Lparen,
            Token::Rparen => TokenView::Rparen,
            Token::Lbrace => TokenView::Lbrace,
            Token::Rbrace => TokenView::Rbrace,
            Token::Comma => TokenView::Comma,
            Token::Plus => TokenView::Plus,
            Token::Function => TokenView::Function,
            Token::Let => TokenView::Let,
            Token::If => TokenView::If,
            Token::Else => TokenView::Else,
            Token::Return => TokenView::Return,
            Token::True => TokenView::True,
            Token::False => TokenView::False,
            Token::Ident(s) => TokenView::Ident(s@),
            Token::Int(s) => TokenView::Int(s@),
            Token::Eof => TokenView::Eof,
            Token::Invalid => TokenView::Invalid,
        }
    }
}

impl Token {
    /// Whether this token ends a normal scan: the end of the input, or a
    /// byte that belongs to no token.
    pub fn is_terminal(&self) -> (r: bool)
        ensures
            r == (self@ is Eof || self@ is Invalid),
    {
        match self {
            Token::Eof | Token::Invalid => true,
            _ => false,
        }
    }
}

} // verus!
