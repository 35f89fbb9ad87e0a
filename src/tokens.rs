//! Tokens: what the lexer hands to a parser.
//!
//! Every kind of token carries a value of its own small type: literals and
//! identifiers keep their text, fixed words and operators carry an empty
//! marker.

use vstd::prelude::*;

use crate::text::text_of_all;

verus! {

/// An integer literal, kept as its source text.
#[derive(Debug, Clone, PartialEq, Eq)]
pub struct NumberToken {
    pub value: String,
}

/// A literal with a decimal point, kept as its source text.
#[derive(Debug, Clone, PartialEq, Eq)]
pub struct RealToken {
    pub value: String,
}

/// An identifier that is not a reserved word.
#[derive(Debug, Clone, PartialEq, Eq)]
pub struct IdToken {
    pub value: String,
}

/// A character literal: the character between the quotes.
#[derive(Debug, Clone, PartialEq, Eq)]
pub struct CharToken {
    pub value: char,
}
/// Marker of `let`.
#[derive(Debug, Clone, PartialEq, Eq)]
pub struct LetToken {}
/// Marker of `if`.
#[derive(Debug, Clone, PartialEq, Eq)]
pub struct IfToken {}
/// Marker of `else`.
#[derive(Debug, Clone, PartialEq, Eq)]
pub struct ElseToken {}
/// Marker of `fn`.
#[derive(Debug, Clone, PartialEq, Eq)]
pub struct FunctionToken {}
/// Marker of `return`.
#[derive(Debug, Clone, PartialEq, Eq)]
pub struct ReturnToken {}
/// Marker of `true`.
#[derive(Debug, Clone, PartialEq, Eq)]
pub struct TrueToken {}
/// Marker of `false`.
#[derive(Debug, Clone, PartialEq, Eq)]
pub struct FalseToken {}
/// Marker of `+`.
#[derive(Debug, Clone, PartialEq, Eq)]
pub struct AddToken {}
/// Marker of `-`.
#[derive(Debug, Clone, PartialEq, Eq)]
pub struct MinusToken {}
/// Marker of `*`.
#[derive(Debug, Clone, PartialEq, Eq)]
pub struct MultToken {}
/// Marker of `/`.
#[derive(Debug, Clone, PartialEq, Eq)]
pub struct DivToken {}
/// Marker of `!`.
#[derive(Debug, Clone, PartialEq, Eq)]
pub struct BangToken {}
/// Marker of `=`.
#[derive(Debug, Clone, PartialEq, Eq)]
pub struct AssignToken {}
/// Marker of `==`.
#[derive(Debug, Clone, PartialEq, Eq)]
pub struct EqualityToken {}
/// Marker of `!=`.
#[derive(Debug, Clone, PartialEq, Eq)]
pub struct NotEqualToken {}
/// Marker of `<`.
#[derive(Debug, Clone, PartialEq, Eq)]
pub struct LessThanToken {}
/// Marker of `>`.
#[derive(Debug, Clone, PartialEq, Eq)]
pub struct GreaterThanToken {}
/// Marker of `,`.
#[derive(Debug, Clone, PartialEq, Eq)]
pub struct CommaToken {}
/// Marker of `;`.
#[derive(Debug, Clone, PartialEq, Eq)]
pub struct SemiToken {}
/// Marker of `(`.
#[derive(Debug, Clone, PartialEq, Eq)]
pub struct LParenToken {}
/// Marker of `)`.
#[derive(Debug, Clone, PartialEq, Eq)]
pub struct RParenToken {}
/// Marker of `{`.
#[derive(Debug, Clone, PartialEq, Eq)]
pub struct LBraceToken {}
/// Marker of `}`.
#[derive(Debug, Clone, PartialEq, Eq)]
pub struct RBraceToken {}
/// Marker of a character that no rule of the grammar accepts.
#[derive(Debug, Clone, PartialEq, Eq)]
pub struct IllegalToken {}

/// Marker of the end of the input.
#[derive(Debug, Clone, PartialEq, Eq)]
pub struct EndOfInputToken {}

/// The one fatal error: a character literal that is empty or not closed.
#[derive(Debug, Clone, Copy, PartialEq, Eq)]
pub enum LexError {
    MalformedCharLiteral,
}

/// A token, with the value of its kind.
#[derive(Debug, Clone, PartialEq, Eq)]
pub enum Token {
    Integer(NumberToken),
    Real(RealToken),
    Char(CharToken),
    Identifier(IdToken),
    Let(LetToken),
    If(IfToken),
    Else(ElseToken),
    Function(FunctionToken),
    Return(ReturnToken),
    True(TrueToken),
    False(FalseToken),
    Plus(AddToken),
    Minus(MinusToken),
    Asterisk(MultToken),
    Slash(DivToken),
    Bang(BangToken),
    Assign(AssignToken),
    Equal(EqualityToken),
    NotEqual(NotEqualToken),
    LessThan(LessThanToken),
    GreaterThan(GreaterThanToken),
    Comma(CommaToken),
    Semicolon(SemiToken),
    LParen(LParenToken),
    RParen(RParenToken),
    LBrace(LBraceToken),
    RBrace(RBraceToken),
    Illegal(IllegalToken),
    EndOfInput(EndOfInputToken),
}

/// A token as a mathematical value: texts are sequences of characters.
pub enum TokenView {
    Integer(Seq<char>),
    Real(Seq<char>),
    Char(char),
    Identifier(Seq<char>),
    Let,
    If,
    Else,
    Function,
    Return,
    True,
    False,
    Plus,
    Minus,
    Asterisk,
    Slash,
    Bang,
    Assign,
    Equal,
    NotEqual,
    LessThan,
    GreaterThan,
    Comma,
    Semicolon,
    LParen,
    RParen,
    LBrace,
    RBrace,
    Illegal,
    EndOfInput,
}

impl View for Token {
    type V = TokenView;

    open spec fn view(&self) -> TokenView {
        match self {
            Token::Integer(t) => TokenView::Integer(t.value@),
            Token::Real(t) => TokenView::Real(t.value@),
            Token::Char(t) => TokenView::Char(t.value),
            Token::Identifier(t) => TokenView::Identifier(t.value@),
            Token::Let(_) => TokenView::Let,
            Token::If(_) => TokenView::If,
            Token::Else(_) => TokenView::Else,
            Token::Function(_) => TokenView::Function,
            Token::Return(_) => TokenView::Return,
            Token::True(_) => TokenView::True,
            Token::False(_) => TokenView::False,
            Token::Plus(_) => TokenView::Plus,
            Token::Minus(_) => TokenView::Minus,
            Token::Asterisk(_) => TokenView::Asterisk,
            Token::Slash(_) => TokenView::Slash,
            Token::Bang(_) => TokenView::Bang,
            Token::Assign(_) => TokenView::Assign,
            Token::Equal(_) => TokenView::Equal,
            Token::NotEqual(_) => TokenView::NotEqual,
            Token::LessThan(_) => TokenView::LessThan,
            Token::GreaterThan(_) => TokenView::GreaterThan,
            Token::Comma(_) => TokenView::Comma,
            Token::Semicolon(_) => TokenView::Semicolon,
            Token::LParen(_) => TokenView::LParen,
            Token::RParen(_) => TokenView::RParen,
            Token::LBrace(_) => TokenView::LBrace,
            Token::RBrace(_) => TokenView::RBrace,
            Token::Illegal(_) => TokenView::Illegal,
            Token::EndOfInput(_) => TokenView::EndOfInput,
        }
    }
}

/// The text a token stands for: the literal or identifier text, the
/// character of a character literal, or the spelling of a fixed word or
/// operator. An illegal character and the end of the input have none.
pub open spec fn spec_value(t: TokenView) -> Option<Seq<char>> {
    match t {
        TokenView::Integer(s) => Some(s),
        TokenView::Real(s) => Some(s),
        TokenView::Char(c) => Some(seq![c]),
        TokenView::Identifier(s) => Some(s),
        TokenView::Let => Some(seq!['l', 'e', 't']),
        TokenView::If => Some(seq!['i', 'f']),
        TokenView::Else => Some(seq!['e', 'l', 's', 'e']),
        TokenView::Function => Some(seq!['f', 'n']),
        TokenView::Return => Some(seq!['r', 'e', 't', 'u', 'r', 'n']),
        TokenView::True => Some(seq!['t', 'r', 'u', 'e']),
        TokenView::False => Some(seq!['f', 'a', 'l', 's', 'e']),
        TokenView::Plus => Some(seq!['+']),
        TokenView::Minus => Some(seq!['-']),
        TokenView::Asterisk => Some(seq!['*']),
        TokenView::Slash => Some(seq!['/']),
        TokenView::Bang => Some(seq!['!']),
        TokenView::Assign => Some(seq!['=']),
        TokenView::Equal => Some(seq!['=', '=']),
        TokenView::NotEqual => Some(seq!['!', '=']),
        TokenView::LessThan => Some(seq!['<']),
        TokenView::GreaterThan => Some(seq!['>']),
        TokenView::Comma => Some(seq![',']),
        TokenView::Semicolon => Some(seq![';']),
        TokenView::LParen => Some(seq!['(']),
        TokenView::RParen => Some(seq![')']),
        TokenView::LBrace => Some(seq!['{']),
        TokenView::RBrace => Some(seq!['}']),
        TokenView::Illegal => None,
        TokenView::EndOfInput => None,
    }
}

impl Token {
    /// The text this token stands for (see `spec_value`).
    pub fn value(&self) -> (r: Option<String>)
        ensures
            match r {
                Some(s) => spec_value(self@) == Some(s@),
                None => spec_value(self@) is None,
            },
    {
        match self {
            Token::Integer(t) => Some(t.value.clone()),
            Token::Real(t) => Some(t.value.clone()),
            Token::Char(t) => Some(text_of_all(&[t.value])),
            Token::Identifier(t) => Some(t.value.clone()),
            Token::Let(_) => Some(text_of_all(&['l', 'e', 't'])),
            Token::If(_) => Some(text_of_all(&['i', 'f'])),
            Token::Else(_) => Some(text_of_all(&['e', 'l', 's', 'e'])),
            Token::Function(_) => Some(text_of_all(&['f', 'n'])),
            Token::Return(_) => Some(text_of_all(&['r', 'e', 't', 'u', 'r', 'n'])),
            Token::True(_) => Some(text_of_all(&['t', 'r', 'u', 'e'])),
            Token::False(_) => Some(text_of_all(&['f', 'a', 'l', 's', 'e'])),
            Token::Plus(_) => Some(text_of_all(&['+'])),
            Token::Minus(_) => Some(text_of_all(&['-'])),
            Token::Asterisk(_) => Some(text_of_all(&['*'])),
            Token::Slash(_) => Some(text_of_all(&['/'])),
            Token::Bang(_) => Some(text_of_all(&['!'])),
            Token::Assign(_) => Some(text_of_all(&['='])),
            Token::Equal(_) => Some(text_of_all(&['=', '='])),
            Token::NotEqual(_) => Some(text_of_all(&['!', '='])),
            Token::LessThan(_) => Some(text_of_all(&['<'])),
            Token::GreaterThan(_) => Some(text_of_all(&['>'])),
            Token::Comma(_) => Some(text_of_all(&[','])),
            Token::Semicolon(_) => Some(text_of_all(&[';'])),
            Token::LParen(_) => Some(text_of_all(&['('])),
            Token::RParen(_) => Some(text_of_all(&[')'])),
            Token::LBrace(_) => Some(text_of_all(&['{'])),
            Token::RBrace(_) => Some(text_of_all(&['}'])),
            Token::Illegal(_) => None,
            Token::EndOfInput(_) => None,
        }
    }
}

} // verus!
