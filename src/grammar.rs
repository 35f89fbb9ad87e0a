//! The lexical grammar as spec functions over the decoded source, together
//! with the executable character classes it is built from.

use vstd::prelude::*;

use crate::text::text_of;
use crate::tokens::{
    AddToken, AssignToken, BangToken, CommaToken, DivToken, ElseToken, EqualityToken, FalseToken,
    FunctionToken, GreaterThanToken, IdToken, IfToken, LBraceToken, LParenToken, LessThanToken,
    LetToken, LexError, MinusToken, MultToken, NotEqualToken, RBraceToken, RParenToken,
    ReturnToken, SemiToken, Token, TokenView, TrueToken,
};

verus! {

/// Space, tab and newline separate tokens and are otherwise ignored.
pub open spec fn spec_is_whitespace(c: char) -> bool {
    c == ' ' || c == '\t' || c == '\n'
}

pub open spec fn spec_is_alpha(c: char) -> bool {
    ('a' <= c && c <= 'z') || ('A' <= c && c <= 'Z')
}

pub open spec fn spec_is_digit(c: char) -> bool {
    '0' <= c && c <= '9'
}

/// A character that may continue an identifier once it has started.
pub open spec fn spec_valid_id_char(c: char) -> bool {
    spec_is_alpha(c) || spec_is_digit(c) || c == '_'
}

pub fn is_whitespace(c: char) -> (r: bool)
    ensures
        r == spec_is_whitespace(c),
{
    c == ' ' || c == '\t' || c == '\n'
}

pub fn is_alpha(c: char) -> (r: bool)
    ensures
        r == spec_is_alpha(c),
{
    ('a' <= c && c <= 'z') || ('A' <= c && c <= 'Z')
}

pub fn is_digit(c: char) -> (r: bool)
    ensures
        r == spec_is_digit(c),
{
    '0' <= c && c <= '9'
}

pub fn valid_id_char(c: char) -> (r: bool)
    ensures
        r == spec_valid_id_char(c),
{
    is_alpha(c) || is_digit(c) || c == '_'
}

/// Decodes the text once into a buffer of characters.
pub fn decode(text: &str) -> (r: Vec<char>)
    ensures
        r@ == text@,
{
    let mut out: Vec<char> = Vec::new();
    for c in it: text.chars()
        invariant
            it.seq() == text@,
            out@ == it.seq().take(it.index() as int),
    {
        out.push(c);
    }
    out
}

/// The first index at or after `i` that does not hold whitespace.
pub open spec fn skip_ws(s: Seq<char>, i: int) -> int
    decreases s.len() - i,
{
    if 0 <= i < s.len() && spec_is_whitespace(s[i]) {
        skip_ws(s, i + 1)
    } else {
        i
    }
}

/// The first index at or after `i` that cannot continue an identifier.
pub open spec fn ident_end(s: Seq<char>, i: int) -> int
    decreases s.len() - i,
{
    if 0 <= i < s.len() && spec_valid_id_char(s[i]) {
        ident_end(s, i + 1)
    } else {
        i
    }
}

/// The first index at or after `i` that does not hold a digit.
pub open spec fn digits_end(s: Seq<char>, i: int) -> int
    decreases s.len() - i,
{
    if 0 <= i < s.len() && spec_is_digit(s[i]) {
        digits_end(s, i + 1)
    } else {
        i
    }
}

/// The reserved words of the language.
pub open spec fn is_keyword(w: Seq<char>) -> bool {
    w == seq!['f', 'n'] || w == seq!['l', 'e', 't'] || w == seq!['i', 'f']
        || w == seq!['e', 'l', 's', 'e'] || w == seq!['r', 'e', 't', 'u', 'r', 'n']
        || w == seq!['t', 'r', 'u', 'e'] || w == seq!['f', 'a', 'l', 's', 'e']
}

/// A word is its keyword's token if it is reserved, an identifier otherwise.
pub open spec fn classify_word(w: Seq<char>) -> TokenView {
    if w == seq!['f', 'n'] {
        TokenView::Function
    } else if w == seq!['l', 'e', 't'] {
        TokenView::Let
    } else if w == seq!['i', 'f'] {
        TokenView::If
    } else if w == seq!['e', 'l', 's', 'e'] {
        TokenView::Else
    } else if w == seq!['r', 'e', 't', 'u', 'r', 'n'] {
        TokenView::Return
    } else if w == seq!['t', 'r', 'u', 'e'] {
        TokenView::True
    } else if w == seq!['f', 'a', 'l', 's', 'e'] {
        TokenView::False
    } else {
        TokenView::Identifier(w)
    }
}

/// The number that starts at `i` (a digit), and where it ends: a run of
/// digits, followed, where a `.` and a digit come next, by that `.` and a
/// second run of digits. A number holds at most one `.`: in `1.2.3` the
/// second `.` ends the number `1.2`.
pub open spec fn number_at(s: Seq<char>, i: int) -> (TokenView, int) {
    let e = digits_end(s, i);
    if e + 1 < s.len() && s[e] == '.' && spec_is_digit(s[e + 1]) {
        let f = digits_end(s, e + 1);
        (TokenView::Real(s.subrange(i, f)), f)
    } else {
        (TokenView::Integer(s.subrange(i, e)), e)
    }
}

/// The character literal that starts at `i` (a quote): one character other
/// than a quote, then a closing quote. Anything else is malformed.
pub open spec fn char_literal_at(s: Seq<char>, i: int) -> Result<(TokenView, int), LexError> {
    if i + 2 < s.len() && s[i + 1] != '\'' && s[i + 2] == '\'' {
        Ok((TokenView::Char(s[i + 1]), i + 3))
    } else {
        Err(LexError::MalformedCharLiteral)
    }
}

/// The operators spelled with two characters.
pub open spec fn spec_pair_token(c: char, d: char) -> Option<TokenView> {
    if c == '=' && d == '=' {
        Some(TokenView::Equal)
    } else if c == '!' && d == '=' {
        Some(TokenView::NotEqual)
    } else {
        None
    }
}

/// The operators and punctuation spelled with one character.
pub open spec fn spec_single_token(c: char) -> Option<TokenView> {
    if c == '=' {
        Some(TokenView::Assign)
    } else if c == '!' {
        Some(TokenView::Bang)
    } else if c == '+' {
        Some(TokenView::Plus)
    } else if c == '-' {
        Some(TokenView::Minus)
    } else if c == '*' {
        Some(TokenView::Asterisk)
    } else if c == '/' {
        Some(TokenView::Slash)
    } else if c == '<' {
        Some(TokenView::LessThan)
    } else if c == '>' {
        Some(TokenView::GreaterThan)
    } else if c == ',' {
        Some(TokenView::Comma)
    } else if c == ';' {
        Some(TokenView::Semicolon)
    } else if c == '(' {
        Some(TokenView::LParen)
    } else if c == ')' {
        Some(TokenView::RParen)
    } else if c == '{' {
        Some(TokenView::LBrace)
    } else if c == '}' {
        Some(TokenView::RBrace)
    } else {
        None
    }
}

/// The token that starts at `j`, a character that is not whitespace, and the
/// index just past it.
pub open spec fn token_at(s: Seq<char>, j: int) -> Result<(TokenView, int), LexError> {
    let c = s[j];
    if spec_is_alpha(c) {
        let e = ident_end(s, j);
        Ok((classify_word(s.subrange(j, e)), e))
    } else if spec_is_digit(c) {
        Ok(number_at(s, j))
    } else if c == '\'' {
        char_literal_at(s, j)
    } else if j + 1 < s.len() && spec_pair_token(c, s[j + 1]) is Some {
        Ok((spec_pair_token(c, s[j + 1])->Some_0, j + 2))
    } else if spec_single_token(c) is Some {
        Ok((spec_single_token(c)->Some_0, j + 1))
    } else {
        Ok((TokenView::Illegal, j + 1))
    }
}

/// One step of the lexer at index `i`: whitespace is skipped, then either the
/// input has ended or one token is read. The result holds the token and the
/// index just past it.
pub open spec fn next_at(s: Seq<char>, i: int) -> Result<(TokenView, int), LexError> {
    let j = skip_ws(s, i);
    if j >= s.len() {
        Ok((TokenView::EndOfInput, j))
    } else {
        token_at(s, j)
    }
}

/// Whether `chars[from..to]` spells `w`.
fn word_is(chars: &[char], from: usize, to: usize, w: &[char]) -> (r: bool)
    requires
        from <= to <= chars@.len(),
    ensures
        r == (chars@.subrange(from as int, to as int) == w@),
{
    if to - from != w.len() {
        return false;
    }
    let mut k: usize = 0;
    while k < w.len()
        invariant
            from <= to <= chars@.len(),
            to - from == w@.len(),
            k <= w@.len(),
            forall|m: int| 0 <= m < k ==> chars@[from + m] == w@[m],
        decreases w@.len() - k,
    {
        if chars[from + k] != w[k] {
            assert(chars@.subrange(from as int, to as int)[k as int] != w@[k as int]);
            return false;
        }
        k = k + 1;
    }
    assert(chars@.subrange(from as int, to as int) =~= w@);
    true
}

/// The token of the word `chars[from..to]`: its keyword, or an identifier.
pub fn word_token(chars: &[char], from: usize, to: usize) -> (r: Token)
    requires
        from <= to <= chars@.len(),
    ensures
        r@ == classify_word(chars@.subrange(from as int, to as int)),
{
    if word_is(chars, from, to, &['f', 'n']) {
        Token::Function(FunctionToken {})
    }     else if word_is(chars, from, to, &['l', 'e', 't']) {
        Token::Let(LetToken {})
    }     else if word_is(chars, from, to, &['i', 'f']) {
        Token::If(IfToken {})
    }     else if word_is(chars, from, to, &['e', 'l', 's', 'e']) {
        Token::Else(ElseToken {})
    }     else if word_is(chars, from, to, &['r', 'e', 't', 'u', 'r', 'n']) {
        Token::Return(ReturnToken {})
    }     else if word_is(chars, from, to, &['t', 'r', 'u', 'e']) {
        Token::True(TrueToken {})
    }     else if word_is(chars, from, to, &['f', 'a', 'l', 's', 'e']) {
        Token::False(FalseToken {})
    } else {
        Token::Identifier(IdToken { value: text_of(chars, from, to) })
    }
}

/// The two-character operator spelled `c` then `d`, if there is one.
pub fn pair_token(c: char, d: char) -> (r: Option<Token>)
    ensures
        match r {
            Some(t) => spec_pair_token(c, d) == Some(t@),
            None => spec_pair_token(c, d) is None,
        },
{
    if c == '=' && d == '=' {
        Some(Token::Equal(EqualityToken {}))
    } else if c == '!' && d == '=' {
        Some(Token::NotEqual(NotEqualToken {}))
    } else {
        None
    }
}

/// The one-character operator or punctuation spelled `c`, if there is one.
pub fn single_token(c: char) -> (r: Option<Token>)
    ensures
        match r {
            Some(t) => spec_single_token(c) == Some(t@),
            None => spec_single_token(c) is None,
        },
{
    match c {
        '=' => Some(Token::Assign(AssignToken {})),
        '!' => Some(Token::Bang(BangToken {})),
        '+' => Some(Token::Plus(AddToken {})),
        '-' => Some(Token::Minus(MinusToken {})),
        '*' => Some(Token::Asterisk(MultToken {})),
        '/' => Some(Token::Slash(DivToken {})),
        '<' => Some(Token::LessThan(LessThanToken {})),
        '>' => Some(Token::GreaterThan(GreaterThanToken {})),
        ',' => Some(Token::Comma(CommaToken {})),
        ';' => Some(Token::Semicolon(SemiToken {})),
        '(' => Some(Token::LParen(LParenToken {})),
        ')' => Some(Token::RParen(RParenToken {})),
        '{' => Some(Token::LBrace(LBraceToken {})),
        '}' => Some(Token::RBrace(RBraceToken {})),
        _ => None,
    }
}

} // verus!
