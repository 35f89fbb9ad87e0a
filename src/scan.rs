//! Batch scanning, and what holds of the token stream as a whole.

use vstd::prelude::*;

use crate::grammar::{
    classify_word, digits_end, ident_end, is_keyword, next_at, skip_ws, spec_is_alpha,
    spec_is_digit, spec_is_whitespace, spec_valid_id_char,
};
use crate::lexer::Lexer;
use crate::tokens::{LexError, Token, TokenView};

verus! {

/// The tokens read from index `i` on, up to and without `EndOfInput`, or the
/// fatal error that stops the reading.
pub open spec fn tokens_from(s: Seq<char>, i: int) -> Result<Seq<TokenView>, LexError>
    decreases s.len() - i,
{
    match next_at(s, i) {
        Err(e) => Err(e),
        Ok((t, e)) => {
            if t is EndOfInput {
                Ok(Seq::empty())
            } else if 0 <= i < e <= s.len() {
                match tokens_from(s, e) {
                    Ok(ts) => Ok(seq![t] + ts),
                    Err(x) => Err(x),
                }
            } else {
                // Not reached: a call that does not end the input moves
                // forward (`lemma_next_progress`).
                Ok(Seq::empty())
            }
        },
    }
}

/// The outcome of the `k`-th call of `read_next_token`, counted from zero,
/// on a lexer at index `i`; once a call has failed, later ones are not made.
pub open spec fn pull_from(s: Seq<char>, i: int, k: nat) -> Result<(TokenView, int), LexError>
    decreases k,
{
    if k == 0 {
        next_at(s, i)
    } else {
        match next_at(s, i) {
            Ok((_, e)) => pull_from(s, e, (k - 1) as nat),
            Err(x) => Err(x),
        }
    }
}

pub open spec fn views(v: Seq<Token>) -> Seq<TokenView> {
    v.map_values(|t: Token| t@)
}

proof fn lemma_skip_ws_bounds(s: Seq<char>, i: int)
    requires
        0 <= i <= s.len(),
    ensures
        i <= skip_ws(s, i) <= s.len(),
        skip_ws(s, i) < s.len() ==> !spec_is_whitespace(s[skip_ws(s, i)]),
    decreases s.len() - i,
{
    if i < s.len() && spec_is_whitespace(s[i]) {
        lemma_skip_ws_bounds(s, i + 1);
    }
}

proof fn lemma_ident_end_bounds(s: Seq<char>, i: int)
    requires
        0 <= i <= s.len(),
    ensures
        i <= ident_end(s, i) <= s.len(),
        forall|m: int| i <= m < ident_end(s, i) ==> spec_valid_id_char(s[m]),
    decreases s.len() - i,
{
    if i < s.len() && spec_valid_id_char(s[i]) {
        lemma_ident_end_bounds(s, i + 1);
    }
}

proof fn lemma_digits_end_bounds(s: Seq<char>, i: int)
    requires
        0 <= i <= s.len(),
    ensures
        i <= digits_end(s, i) <= s.len(),
    decreases s.len() - i,
{
    if i < s.len() && crate::grammar::spec_is_digit(s[i]) {
        lemma_digits_end_bounds(s, i + 1);
    }
}

/// Every call makes progress: it either reports the end of the input, at the
/// end of the input, or moves past at least one character; and at the end of
/// the input it reports the end again, without moving.
pub proof fn lemma_next_progress(s: Seq<char>, i: int)
    requires
        0 <= i <= s.len(),
    ensures
        next_at(s, i) matches Ok((t, e)) ==> (t is EndOfInput && e == s.len()) || (!(t is EndOfInput)
            && i < e <= s.len()),
        next_at(s, s.len() as int) == Ok::<(TokenView, int), LexError>(
            (TokenView::EndOfInput, s.len() as int),
        ),
{
    lemma_skip_ws_bounds(s, i);
    let j = skip_ws(s, i);
    if j < s.len() {
        lemma_ident_end_bounds(s, j + 1);
        lemma_digits_end_bounds(s, j + 1);
        let e = digits_end(s, j);
        if e + 1 < s.len() {
            lemma_digits_end_bounds(s, e + 1);
        }
    }
}

/// `r` with `p` put before the tokens it holds, if it holds tokens.
pub open spec fn prepend(p: Seq<TokenView>, r: Result<Seq<TokenView>, LexError>) -> Result<
    Seq<TokenView>,
    LexError,
> {
    match r {
        Ok(ts) => Ok(p + ts),
        Err(e) => Err(e),
    }
}

/// What a call of `scan` gave, in the terms of the grammar.
pub open spec fn scanned(r: Result<Vec<Token>, LexError>) -> Result<Seq<TokenView>, LexError> {
    match r {
        Ok(v) => Ok(views(v@)),
        Err(e) => Err(e),
    }
}

/// Reads every token of `input` with one lexer, calling `read_next_token`
/// until the end of the input, which is not included. A malformed character
/// literal stops the scan with its error.
pub fn scan(input: String) -> (r: Result<Vec<Token>, LexError>)
    ensures
        scanned(r) == tokens_from(input@, 0),
{
    let ghost s = input@;
    let mut lexer = Lexer::new(input);
    let mut out: Vec<Token> = Vec::new();
    loop
        invariant
            lexer.wf(),
            lexer.input() == s,
            s == input@,
            0 <= lexer.position() <= s.len(),
            tokens_from(s, 0) == prepend(views(out@), tokens_from(s, lexer.position())),
        decreases s.len() - lexer.position(),
    {
        let ghost p = lexer.position();
        proof {
            lemma_next_progress(s, p);
        }
        match lexer.read_next_token() {
            Err(e) => {
                return Err(e);
            },
            Ok(t) => {
                if let Token::EndOfInput(_) = t {
                    assert(views(out@) + Seq::<TokenView>::empty() =~= views(out@));
                    return Ok(out);
                }
                let ghost before = views(out@);
                out.push(t);
                assert(views(out@) =~= before + seq![t@]);
                proof {
                    let e = lexer.position();
                    match tokens_from(s, e) {
                        Ok(ts) => {
                            assert(before + (seq![t@] + ts) =~= views(out@) + ts);
                        },
                        Err(_) => {},
                    }
                }
            },
        }
    }
}

/// The calls of `read_next_token` on a lexer at index `i` give, one by one,
/// what `tokens_from` holds for `i`: each token in order, then `EndOfInput`;
/// or tokens and then the error.
pub open spec fn pulls_match(s: Seq<char>, i: int, r: Result<Seq<TokenView>, LexError>) -> bool {
    match r {
        Ok(ts) => {
            &&& forall|k: nat|
                k < ts.len() ==> #[trigger] pull_from(s, i, k) is Ok && pull_from(s, i, k)->Ok_0.0
                    == ts[k as int]
            &&& pull_from(s, i, ts.len()) is Ok
            &&& pull_from(s, i, ts.len())->Ok_0.0 is EndOfInput
            &&& forall|k: int| 0 <= k < ts.len() ==> !(#[trigger] ts[k] is EndOfInput)
        },
        Err(x) => exists|n: nat|
            {
                &&& #[trigger] pull_from(s, i, n) == Err::<(TokenView, int), LexError>(x)
                &&& forall|k: nat|
                    k < n ==> #[trigger] pull_from(s, i, k) is Ok && !(pull_from(
                        s,
                        i,
                        k,
                    )->Ok_0.0 is EndOfInput)
            },
    }
}

proof fn lemma_pulls_match_from(s: Seq<char>, i: int)
    requires
        0 <= i <= s.len(),
    ensures
        pulls_match(s, i, tokens_from(s, i)),
    decreases s.len() - i,
{
    lemma_next_progress(s, i);
    match next_at(s, i) {
        Err(x) => {
            assert(pull_from(s, i, 0) == Err::<(TokenView, int), LexError>(x));
        },
        Ok((t, e)) => {
            if !(t is EndOfInput) {
                lemma_pulls_match_from(s, e);
                assert forall|k: nat| #![trigger pull_from(s, i, k)] k > 0 implies pull_from(s, i, k)
                    == pull_from(s, e, (k - 1) as nat) by {}
                match tokens_from(s, e) {
                    Ok(rest) => {
                        let ts = seq![t] + rest;
                        assert(tokens_from(s, i) == Ok::<Seq<TokenView>, LexError>(ts));
                        assert forall|k: nat| k < ts.len() implies #[trigger] pull_from(s, i, k) is Ok
                            && pull_from(s, i, k)->Ok_0.0 == ts[k as int] by {
                            if k > 0 {
                                assert(pull_from(s, e, (k - 1) as nat) is Ok);
                            }
                        }
                        assert(pull_from(s, i, ts.len()) == pull_from(s, e, rest.len()));
                        assert forall|k: int| 0 <= k < ts.len() implies !(#[trigger] ts[k] is EndOfInput) by {
                            if k > 0 {
                                assert(ts[k] == rest[k - 1]);
                            }
                        }
                    },
                    Err(x) => {
                        let n = choose|n: nat|
                            {
                                &&& #[trigger] pull_from(s, e, n) == Err::<(TokenView, int), LexError>(x)
                                &&& forall|k: nat|
                                    k < n ==> #[trigger] pull_from(s, e, k) is Ok && !(pull_from(
                                        s,
                                        e,
                                        k,
                                    )->Ok_0.0 is EndOfInput)
                            };
                        assert(pull_from(s, i, n + 1) == pull_from(s, e, n));
                        assert forall|k: nat| k < n + 1 implies #[trigger] pull_from(s, i, k) is Ok
                            && !(pull_from(s, i, k)->Ok_0.0 is EndOfInput) by {
                            if k > 0 {
                                assert(pull_from(s, e, (k - 1) as nat) is Ok);
                            }
                        }
                    },
                }
            }
        },
    }
}

/// Scanning is pulling: `scan` gives exactly the tokens that calls of
/// `read_next_token` on a fresh lexer give, in the same order, up to the
/// first `EndOfInput`; or the error that such a call reports.
pub proof fn lemma_scan_is_pulling(s: Seq<char>)
    ensures
        pulls_match(s, 0, tokens_from(s, 0)),
{
    lemma_pulls_match_from(s, 0);
}

/// Reading from a fresh lexer ends: after finitely many calls one gives
/// `EndOfInput` or a fatal error, and every call before it gives a token.
pub proof fn lemma_pulling_ends(s: Seq<char>)
    ensures
        exists|n: nat|
            {
                &&& (#[trigger] pull_from(s, 0, n) is Err || pull_from(s, 0, n)->Ok_0.0 is EndOfInput)
                &&& forall|k: nat|
                    k < n ==> #[trigger] pull_from(s, 0, k) is Ok && !(pull_from(
                        s,
                        0,
                        k,
                    )->Ok_0.0 is EndOfInput)
            },
{
    lemma_pulls_match_from(s, 0);
    match tokens_from(s, 0) {
        Ok(ts) => {
            let n = ts.len();
            assert forall|k: nat| k < n implies #[trigger] pull_from(s, 0, k) is Ok && !(pull_from(
                s,
                0,
                k,
            )->Ok_0.0 is EndOfInput) by {
                assert(pull_from(s, 0, k)->Ok_0.0 == ts[k as int]);
            }
            assert(pull_from(s, 0, n) is Err || pull_from(s, 0, n)->Ok_0.0 is EndOfInput);
        },
        Err(x) => {
            let n = choose|n: nat|
                {
                    &&& #[trigger] pull_from(s, 0, n) == Err::<(TokenView, int), LexError>(x)
                    &&& forall|k: nat|
                        k < n ==> #[trigger] pull_from(s, 0, k) is Ok && !(pull_from(
                            s,
                            0,
                            k,
                        )->Ok_0.0 is EndOfInput)
                };
            assert(pull_from(s, 0, n) is Err);
        },
    }
}

proof fn lemma_skip_all_whitespace(s: Seq<char>, i: int)
    requires
        0 <= i <= s.len(),
        forall|m: int| 0 <= m < s.len() ==> spec_is_whitespace(#[trigger] s[m]),
    ensures
        skip_ws(s, i) == s.len(),
    decreases s.len() - i,
{
    if i < s.len() {
        lemma_skip_all_whitespace(s, i + 1);
    }
}

/// Input made of whitespace alone, the empty input included, holds no
/// token: the first call already gives `EndOfInput`.
pub proof fn lemma_whitespace_only(s: Seq<char>)
    requires
        forall|m: int| 0 <= m < s.len() ==> spec_is_whitespace(#[trigger] s[m]),
    ensures
        tokens_from(s, 0) == Ok::<Seq<TokenView>, LexError>(Seq::empty()),
        next_at(s, 0) == Ok::<(TokenView, int), LexError>((TokenView::EndOfInput, s.len() as int)),
{
    lemma_skip_all_whitespace(s, 0);
}

proof fn lemma_word_runs_to_end(w: Seq<char>, i: int)
    requires
        0 <= i <= w.len(),
        forall|m: int| 0 <= m < w.len() ==> spec_valid_id_char(#[trigger] w[m]),
    ensures
        ident_end(w, i) == w.len(),
    decreases w.len() - i,
{
    if i < w.len() {
        lemma_word_runs_to_end(w, i + 1);
    }
}

/// An input that is one word reads as one token: its keyword where the word
/// is reserved, and never an identifier then; an identifier otherwise, also
/// where a reserved word is a proper prefix of it.
pub proof fn lemma_reserved_words(w: Seq<char>)
    requires
        w.len() > 0,
        spec_is_alpha(w[0]),
        forall|m: int| 0 <= m < w.len() ==> spec_valid_id_char(#[trigger] w[m]),
    ensures
        tokens_from(w, 0) == Ok::<Seq<TokenView>, LexError>(seq![classify_word(w)]),
        is_keyword(w) ==> !(classify_word(w) is Identifier),
        !is_keyword(w) ==> classify_word(w) == TokenView::Identifier(w),
{
    lemma_word_runs_to_end(w, 0);
    assert(w.subrange(0, w.len() as int) =~= w);
    lemma_next_progress(w, 0);
    assert(tokens_from(w, w.len() as int) == Ok::<Seq<TokenView>, LexError>(Seq::empty()));
    assert(seq![classify_word(w)] + Seq::<TokenView>::empty() =~= seq![classify_word(w)]);
}

} // verus!
