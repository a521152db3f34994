use vstd::prelude::*;
use crate::text::{ascii_text, decodes_to};
use crate::token::{fixed_token, keyword_token, Literal, Token};

verus! {

/// The byte at offset `i`, or the end-of-input sentinel 0 outside the text.
pub open spec fn byte_at(s: Seq<u8>, i: int) -> u8 {
    if 0 <= i < s.len() {
        s[i]
    } else {
        0
    }
}

/// ASCII letters and the underscore.
pub open spec fn is_ident_byte(b: u8) -> bool {
    (0x61 <= b <= 0x7a) || (0x41 <= b <= 0x5a) || b == 0x5f
}

pub open spec fn is_digit(b: u8) -> bool {
    0x30 <= b <= 0x39
}

/// A single or a double quote.
pub open spec fn is_quote(b: u8) -> bool {
    b == 0x27 || b == 0x22
}

/// Where the run of identifier bytes that starts at `i` ends.
pub open spec fn ident_end(s: Seq<u8>, i: int) -> int
    decreases s.len() - i,
{
    if 0 <= i < s.len() && is_ident_byte(s[i]) {
        ident_end(s, i + 1)
    } else {
        i
    }
}

/// Where the run of digits that starts at `i` ends; one decimal point is let
/// in unless `dot` says that one was already seen.
pub open spec fn number_end(s: Seq<u8>, i: int, dot: bool) -> int
    decreases s.len() - i,
{
    if 0 <= i < s.len() && is_digit(s[i]) {
        number_end(s, i + 1, dot)
    } else if 0 <= i < s.len() && s[i] == 0x2e && !dot {
        number_end(s, i + 1, true)
    } else {
        i
    }
}

/// The first offset at or after `i` that holds the byte `q`.
pub open spec fn quote_close(s: Seq<u8>, i: int, q: u8) -> Option<int>
    decreases s.len() - i,
{
    if !(0 <= i < s.len()) {
        None
    } else if s[i] == q {
        Some(i)
    } else {
        quote_close(s, i + 1, q)
    }
}

/// The byte before `p` is a tab or a newline: an indentation run may start here.
pub open spec fn at_line_start(s: Seq<u8>, p: int) -> bool {
    0 < p <= s.len() && (s[p - 1] == 0x09 || s[p - 1] == 0x0a)
}

/// The token that a space at `p` starts, and where it ends. At the start of
/// an indentation run four spaces fold into a tab; a run that the text is
/// too short to check yields end-of-input.
pub open spec fn space_lexeme(s: Seq<u8>, p: int) -> (Token, int) {
    if at_line_start(s, p) {
        if p + 3 < s.len() {
            if s[p + 1] == 0x20 && s[p + 2] == 0x20 && s[p + 3] == 0x20 {
                (Token::Tab, p + 4)
            } else {
                (Token::Space, p + 1)
            }
        } else {
            (Token::EOF, p)
        }
    } else {
        (Token::Space, p + 1)
    }
}

/// What stops the scan at `p` before the end of the text: a byte that no
/// rule accepts, a quote that is never closed, or an indentation space too
/// close to the end to check for a tab.
pub open spec fn stops_early(s: Seq<u8>, p: int) -> bool {
    let b = s[p];
    ||| (fixed_token(b) is None && b != 0x20 && !is_quote(b) && !is_ident_byte(b) && !is_digit(b))
    ||| (is_quote(b) && quote_close(s, p + 1, b) is None)
    ||| (b == 0x20 && at_line_start(s, p) && p + 3 >= s.len())
}

/// The kind of token that starts at an offset, apart from its payload.
pub enum Lexeme {
    /// A token without payload.
    Fixed(Token),
    /// An identifier that is no keyword.
    Word,
    /// A numeric literal.
    Number,
    /// A quoted string literal.
    Text,
}

/// The kind of token that starts at `p` and the offset just after it.
/// End-of-input consumes nothing.
pub open spec fn lexeme_at(s: Seq<u8>, p: int) -> (Lexeme, int) {
    let b = byte_at(s, p);
    if fixed_token(b) is Some {
        (Lexeme::Fixed(fixed_token(b)->0), p + 1)
    } else if b == 0x20 {
        let (t, e) = space_lexeme(s, p);
        (Lexeme::Fixed(t), e)
    } else if is_quote(b) {
        match quote_close(s, p + 1, b) {
            Some(c) => (Lexeme::Text, c + 1),
            None => (Lexeme::Fixed(Token::EOF), p),
        }
    } else if is_ident_byte(b) {
        let e = ident_end(s, p);
        match keyword_token(s.subrange(p, e)) {
            Some(k) => (Lexeme::Fixed(k), e),
            None => (Lexeme::Word, e),
        }
    } else if is_digit(b) {
        (Lexeme::Number, number_end(s, p, false))
    } else {
        (Lexeme::Fixed(Token::EOF), p)
    }
}

/// The offset just after the token that starts at `p`.
pub open spec fn lexeme_end(s: Seq<u8>, p: int) -> int {
    lexeme_at(s, p).1
}

/// `t` is the token that scanning `s` from `p` yields.
pub open spec fn token_matches(s: Seq<u8>, p: int, t: Token) -> bool {
    let e = lexeme_end(s, p);
    match lexeme_at(s, p).0 {
        Lexeme::Fixed(f) => t == f,
        Lexeme::Word => t matches Token::Ident(w) && w@ == ascii_text(s.subrange(p, e)),
        Lexeme::Number => t matches Token::Lit(Literal::Num(n)) && n@ == ascii_text(
            s.subrange(p, e),
        ),
        Lexeme::Text => t matches Token::Lit(Literal::Str(x)) && decodes_to(
            s.subrange(p + 1, e - 1),
            x@,
        ),
    }
}

/// The offset that the scan of `s` has reached after `n` tokens. A fresh
/// `Lexer` starts at offset 0 and each `next_token` call moves it to
/// `lexeme_end` of where it stood, so the `n`-th call returns this offset.
pub open spec fn offset_after(s: Seq<u8>, n: nat) -> int
    decreases n,
{
    if n == 0 {
        0
    } else {
        lexeme_end(s, offset_after(s, (n - 1) as nat))
    }
}

/// The stretches of text that the first `n` tokens of the scan cover.
pub open spec fn pieces(s: Seq<u8>, n: nat) -> Seq<Seq<u8>>
    decreases n,
{
    if n == 0 {
        Seq::empty()
    } else {
        let k = (n - 1) as nat;
        pieces(s, k).push(s.subrange(offset_after(s, k), offset_after(s, n)))
    }
}

/// A run of identifier bytes stays inside the text.
pub proof fn lemma_ident_end_bounds(s: Seq<u8>, i: int)
    requires
        0 <= i <= s.len(),
    ensures
        i <= ident_end(s, i) <= s.len(),
    decreases s.len() - i,
{
    if i < s.len() && is_ident_byte(s[i]) {
        lemma_ident_end_bounds(s, i + 1);
    }
}

/// A run of digits stays inside the text.
pub proof fn lemma_number_end_bounds(s: Seq<u8>, i: int, dot: bool)
    requires
        0 <= i <= s.len(),
    ensures
        i <= number_end(s, i, dot) <= s.len(),
    decreases s.len() - i,
{
    if i < s.len() && is_digit(s[i]) {
        lemma_number_end_bounds(s, i + 1, dot);
    } else if i < s.len() && s[i] == 0x2e && !dot {
        lemma_number_end_bounds(s, i + 1, true);
    }
}

/// A closing quote, when there is one, lies inside the text at or after `i`.
pub proof fn lemma_quote_close_bounds(s: Seq<u8>, i: int, q: u8)
    requires
        0 <= i,
    ensures
        quote_close(s, i, q) matches Some(c) ==> i <= c < s.len() && s[c] == q,
    decreases s.len() - i,
{
    if 0 <= i < s.len() && s[i] != q {
        lemma_quote_close_bounds(s, i + 1, q);
    }
}

} // verus!
