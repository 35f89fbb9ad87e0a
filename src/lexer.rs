//! The lexer: a cursor over the decoded source that hands out one token per
//! call.

use vstd::prelude::*;

use crate::grammar::{
    char_literal_at, classify_word, decode, digits_end, ident_end, is_alpha, is_digit, is_whitespace,
    next_at, number_at, pair_token, single_token, skip_ws, spec_is_alpha, spec_is_digit,
    valid_id_char, word_token,
};
use crate::text::text_of;
use crate::tokens::{
    CharToken, EndOfInputToken, IllegalToken, LexError, NumberToken, RealToken, Token, TokenView,
};

verus! {

/// What a call that read a token and stopped at `end` gave, in the terms of
/// the grammar.
pub open spec fn outcome(r: Result<Token, LexError>, end: int) -> Result<(TokenView, int), LexError> {
    match r {
        Ok(t) => Ok((t@, end)),
        Err(e) => Err(e),
    }
}

/// The source, decoded once into characters, and the index of the current
/// character. Once the index reaches the end there is no current character,
/// and it stays there.
pub struct Lexer {
    chars: Vec<char>,
    pos: usize,
}

impl Lexer {
    /// The source as a sequence of characters.
    pub closed spec fn input(&self) -> Seq<char> {
        self.chars@
    }

    /// The index of the current character; the length of the input once it
    /// has all been read.
    pub closed spec fn position(&self) -> int {
        self.pos as int
    }

    pub closed spec fn wf(&self) -> bool {
        self.pos <= self.chars@.len()
    }

    pub fn new(input: String) -> (r: Lexer)
        ensures
            r.wf(),
            r.input() == input@,
            r.position() == 0,
    {
        Lexer { chars: decode(input.as_str()), pos: 0 }
    }

    /// The current character, or `None` past the end of the input.
    pub fn current(&self) -> (r: Option<char>)
        requires
            self.wf(),
        ensures
            r == (if self.position() < self.input().len() {
                Some(self.input()[self.position()])
            } else {
                None
            }),
    {
        if self.pos < self.chars.len() {
            Some(self.chars[self.pos])
        } else {
            None
        }
    }

    /// Moves to the next character; at the end of the input it stays there.
    pub fn read_char(&mut self)
        requires
            old(self).wf(),
        ensures
            final(self).wf(),
            final(self).input() == old(self).input(),
            final(self).position() == (if old(self).position() < old(self).input().len() {
                old(self).position() + 1
            } else {
                old(self).position()
            }),
    {
        if self.pos < self.chars.len() {
            self.pos = self.pos + 1;
        }
    }

    /// The character after the current one, without moving.
    pub fn peek_next(&self) -> (r: Option<char>)
        requires
            self.wf(),
        ensures
            r == (if self.position() + 1 < self.input().len() {
                Some(self.input()[self.position() + 1])
            } else {
                None
            }),
    {
        if self.pos < self.chars.len() && self.pos + 1 < self.chars.len() {
            Some(self.chars[self.pos + 1])
        } else {
            None
        }
    }

    /// Moves past a run of spaces, tabs and newlines.
    pub fn skip_whitespace(&mut self)
        requires
            old(self).wf(),
        ensures
            final(self).wf(),
            final(self).input() == old(self).input(),
            final(self).position() == skip_ws(old(self).input(), old(self).position()),
    {
        while self.pos < self.chars.len() && is_whitespace(self.chars[self.pos])
            invariant
                self.wf(),
                self.input() == old(self).input(),
                skip_ws(self.input(), self.position()) == skip_ws(
                    old(self).input(),
                    old(self).position(),
                ),
            decreases self.chars@.len() - self.pos,
        {
            self.read_char();
        }
    }

    /// Reads the word that starts at the current character, a letter, and
    /// classifies it.
    fn read_identifier(&mut self) -> (r: Token)
        requires
            old(self).wf(),
            old(self).position() < old(self).input().len(),
            spec_is_alpha(old(self).input()[old(self).position()]),
        ensures
            final(self).wf(),
            final(self).input() == old(self).input(),
            final(self).position() == ident_end(old(self).input(), old(self).position()),
            r@ == classify_word(
                old(self).input().subrange(old(self).position(), final(self).position()),
            ),
    {
        let start = self.pos;
        while self.pos < self.chars.len() && valid_id_char(self.chars[self.pos])
            invariant
                self.wf(),
                self.input() == old(self).input(),
                start <= self.pos,
                ident_end(self.input(), self.position()) == ident_end(
                    old(self).input(),
                    start as int,
                ),
            decreases self.chars@.len() - self.pos,
        {
            self.read_char();
        }
        word_token(self.chars.as_slice(), start, self.pos)
    }

    /// Moves past a run of digits.
    fn read_digits(&mut self)
        requires
            old(self).wf(),
        ensures
            final(self).wf(),
            final(self).input() == old(self).input(),
            final(self).position() == digits_end(old(self).input(), old(self).position()),
            old(self).position() <= final(self).position(),
    {
        while self.pos < self.chars.len() && is_digit(self.chars[self.pos])
            invariant
                self.wf(),
                self.input() == old(self).input(),
                digits_end(self.input(), self.position()) == digits_end(
                    old(self).input(),
                    old(self).position(),
                ),
                old(self).pos <= self.pos,
            decreases self.chars@.len() - self.pos,
        {
            self.read_char();
        }
    }

    /// Reads the number that starts at the current character, a digit.
    fn read_number(&mut self) -> (r: Token)
        requires
            old(self).wf(),
            old(self).position() < old(self).input().len(),
            spec_is_digit(old(self).input()[old(self).position()]),
        ensures
            final(self).wf(),
            final(self).input() == old(self).input(),
            (r@, final(self).position()) == number_at(old(self).input(), old(self).position()),
    {
        let start = self.pos;
        self.read_digits();
        if self.chars.len() - self.pos > 1 && self.chars[self.pos] == '.' && is_digit(
            self.chars[self.pos + 1],
        ) {
            self.read_char();
            self.read_digits();
            Token::Real(RealToken { value: text_of(self.chars.as_slice(), start, self.pos) })
        } else {
            Token::Integer(NumberToken { value: text_of(self.chars.as_slice(), start, self.pos) })
        }
    }

    /// Reads the character literal that starts at the current character, a
    /// quote. On an error the lexer does not move.
    fn read_char_literal(&mut self) -> (r: Result<Token, LexError>)
        requires
            old(self).wf(),
            old(self).position() < old(self).input().len(),
        ensures
            final(self).wf(),
            final(self).input() == old(self).input(),
            outcome(r, final(self).position()) == char_literal_at(
                old(self).input(),
                old(self).position(),
            ),
            r is Err ==> final(self).position() == old(self).position(),
    {
        if self.chars.len() - self.pos > 2 && self.chars[self.pos + 1] != '\''
            && self.chars[self.pos + 2] == '\'' {
            let value = self.chars[self.pos + 1];
            self.pos = self.pos + 3;
            Ok(Token::Char(CharToken { value }))
        } else {
            Err(LexError::MalformedCharLiteral)
        }
    }

    /// Skips whitespace and reads one token. At the end of the input the
    /// token is `EndOfInput`, as often as it is asked for. A malformed
    /// character literal is a fatal error.
    pub fn read_next_token(&mut self) -> (r: Result<Token, LexError>)
        requires
            old(self).wf(),
        ensures
            final(self).wf(),
            final(self).input() == old(self).input(),
            0 <= final(self).position() <= final(self).input().len(),
            outcome(r, final(self).position()) == next_at(old(self).input(), old(self).position()),
    {
        self.skip_whitespace();
        let c = match self.current() {
            None => return Ok(Token::EndOfInput(EndOfInputToken {})),
            Some(c) => c,
        };
        if is_alpha(c) {
            return Ok(self.read_identifier());
        }
        if is_digit(c) {
            return Ok(self.read_number());
        }
        if c == '\'' {
            return self.read_char_literal();
        }
        if let Some(d) = self.peek_next() {
            if let Some(t) = pair_token(c, d) {
                self.read_char();
                self.read_char();
                return Ok(t);
            }
        }
        let t = match single_token(c) {
            Some(t) => t,
            None => Token::Illegal(IllegalToken {}),
        };
        self.read_char();
        Ok(t)
    }
}

} // verus!
