use vstd::prelude::*;
use crate::scan::{
    at_line_start, byte_at, ident_end, is_ident_byte, is_quote, lemma_ident_end_bounds,
    lemma_number_end_bounds, lemma_quote_close_bounds, lexeme_at, lexeme_end, offset_after, pieces,
    quote_close, stops_early, Lexeme,
};
use crate::token::{keyword_token, symbol_token, Token};

verus! {

/// From any offset inside the text the next token ends inside the text, and
/// it consumes nothing exactly when it is end-of-input.
pub proof fn lemma_token_stays_in_text(s: Seq<u8>, p: int)
    requires
        0 <= p <= s.len(),
    ensures
        p <= lexeme_end(s, p) <= s.len(),
        lexeme_end(s, p) == p <==> lexeme_at(s, p).0 == Lexeme::Fixed(Token::EOF),
{
    let b = byte_at(s, p);
    if is_ident_byte(b) {
        lemma_ident_end_bounds(s, p + 1);
    } else if 0x30 <= b <= 0x39 {
        lemma_number_end_bounds(s, p + 1, false);
    } else if b == 0x27 || b == 0x22 {
        lemma_quote_close_bounds(s, p + 1, b);
    }
}

/// A one-byte text holding a symbol scans as that symbol's token, then
/// end-of-input.
pub proof fn lemma_single_symbol(b: u8)
    requires
        symbol_token(b) is Some,
    ensures
        lexeme_at(seq![b], 0) == (Lexeme::Fixed(symbol_token(b)->0), 1int),
        lexeme_at(seq![b], 1) == (Lexeme::Fixed(Token::EOF), 1int),
{
}

/// A run of identifier bytes up to the end of the text is read whole.
proof fn lemma_ident_to_end(s: Seq<u8>, i: int)
    requires
        0 <= i <= s.len(),
        forall|j: int| i <= j < s.len() ==> is_ident_byte(#[trigger] s[j]),
    ensures
        ident_end(s, i) == s.len(),
    decreases s.len() - i,
{
    if i < s.len() {
        lemma_ident_to_end(s, i + 1);
    }
}

/// A text that spells a keyword scans as that keyword, not as an
/// identifier, then end-of-input.
pub proof fn lemma_keyword(w: Seq<u8>)
    requires
        keyword_token(w) is Some,
    ensures
        lexeme_at(w, 0) == (Lexeme::Fixed(keyword_token(w)->0), w.len() as int),
        lexeme_at(w, w.len() as int) == (Lexeme::Fixed(Token::EOF), w.len() as int),
{
    assert(w.len() > 0 && forall|j: int| 0 <= j < w.len() ==> 0x61 <= #[trigger] w[j] <= 0x7a);
    lemma_ident_to_end(w, 0);
    assert(w.subrange(0, w.len() as int) =~= w);
}

/// At the start of an indentation run, four spaces make one tab that
/// consumes all four.
pub proof fn lemma_indent_tab(s: Seq<u8>, p: int)
    requires
        at_line_start(s, p),
        p + 3 < s.len(),
        forall|j: int| p <= j < p + 4 ==> s[j] == 0x20,
    ensures
        lexeme_at(s, p) == (Lexeme::Fixed(Token::Tab), p + 4),
{
    assert(s[p] == 0x20 && s[p + 1] == 0x20 && s[p + 2] == 0x20 && s[p + 3] == 0x20);
}

/// At the start of an indentation run, a run of fewer than four spaces
/// gives one space token for its first byte; every space that follows a
/// space is a space token of its own.
pub proof fn lemma_short_indent(s: Seq<u8>, p: int, q: int)
    requires
        at_line_start(s, p),
        p + 3 < s.len(),
        s[p] == 0x20,
        exists|j: int| p < j < p + 4 && s[j] != 0x20,
        0 < q < s.len(),
        s[q] == 0x20,
        s[q - 1] == 0x20,
    ensures
        lexeme_at(s, p) == (Lexeme::Fixed(Token::Space), p + 1),
        lexeme_at(s, q) == (Lexeme::Fixed(Token::Space), q + 1),
{
}

/// End-of-input is where the scan stays: from the end of the text, or
/// once it has come, every further token is end-of-input at the same offset.
pub proof fn lemma_end_of_input_stays(s: Seq<u8>, n: nat, m: nat)
    requires
        lexeme_at(s, offset_after(s, n)).0 == Lexeme::Fixed(Token::EOF),
        n <= m,
    ensures
        offset_after(s, m) == offset_after(s, n),
        lexeme_at(s, offset_after(s, m)).0 == Lexeme::Fixed(Token::EOF),
        lexeme_at(s, s.len() as int) == (Lexeme::Fixed(Token::EOF), s.len() as int),
    decreases m - n,
{
    if n < m {
        lemma_end_of_input_stays(s, n, (m - 1) as nat);
    }
}

/// The offsets of the scan never leave the text.
proof fn lemma_offsets_in_text(s: Seq<u8>, n: nat)
    ensures
        0 <= offset_after(s, n) <= s.len(),
    decreases n,
{
    if n > 0 {
        lemma_offsets_in_text(s, (n - 1) as nat);
        lemma_token_stays_in_text(s, offset_after(s, (n - 1) as nat));
    }
}

/// The stretches of the first `n` tokens, end to end, are the text up to
/// the offset reached.
proof fn lemma_pieces_prefix(s: Seq<u8>, n: nat)
    ensures
        pieces(s, n).len() == n,
        pieces(s, n).flatten() =~= s.subrange(0, offset_after(s, n)),
    decreases n,
{
    if n > 0 {
        let k = (n - 1) as nat;
        lemma_pieces_prefix(s, k);
        lemma_offsets_in_text(s, k);
        lemma_token_stays_in_text(s, offset_after(s, k));
        let last = s.subrange(offset_after(s, k), offset_after(s, n));
        pieces(s, k).lemma_flatten_push(last);
        assert(pieces(s, n) == pieces(s, k).push(last));
    }
}

/// Once the scan has reached the end of the text, the stretches that its
/// tokens cover, taken in order, give back the text exactly; a stretch is
/// empty only for end-of-input.
pub proof fn lemma_round_trip(s: Seq<u8>, n: nat)
    requires
        offset_after(s, n) == s.len(),
    ensures
        pieces(s, n).flatten() == s,
        forall|k: nat|
            k < n ==> (#[trigger] pieces(s, n)[k as int].len() == 0 <==> lexeme_at(
                s,
                offset_after(s, k),
            ).0 == Lexeme::Fixed(Token::EOF)),
{
    lemma_pieces_prefix(s, n);
    assert(s.subrange(0, s.len() as int) =~= s);
    assert forall|k: nat| k < n implies (#[trigger] pieces(s, n)[k as int].len() == 0
        <==> lexeme_at(s, offset_after(s, k)).0 == Lexeme::Fixed(Token::EOF)) by {
        lemma_piece_is_token(s, n, k);
    }
}

/// The `k`-th stretch is the source text of the `k`-th token: it runs from
/// the offset where the token starts to the offset just after it, and it is
/// empty only for end-of-input.
pub proof fn lemma_piece_is_token(s: Seq<u8>, n: nat, k: nat)
    requires
        k < n,
    ensures
        pieces(s, n)[k as int] == s.subrange(offset_after(s, k), offset_after(s, k + 1)),
        pieces(s, n)[k as int].len() == 0 <==> lexeme_at(s, offset_after(s, k)).0 == Lexeme::Fixed(
            Token::EOF,
        ),
    decreases n,
{
    lemma_pieces_prefix(s, (n - 1) as nat);
    if k < n - 1 {
        lemma_piece_is_token(s, (n - 1) as nat, k);
    }
    lemma_offsets_in_text(s, k);
    lemma_token_stays_in_text(s, offset_after(s, k));
}

/// Inside quotes with no quote of the same kind, the scan runs on to the
/// closing quote.
proof fn lemma_close_after_body(s: Seq<u8>, i: int, c: int, q: u8)
    requires
        0 <= i <= c < s.len(),
        s[c] == q,
        forall|j: int| i <= j < c ==> s[j] != q,
    ensures
        quote_close(s, i, q) == Some(c),
    decreases c - i,
{
    if i < c {
        lemma_close_after_body(s, i + 1, c, q);
    }
}

/// A quoted text without its own kind of quote inside is one string
/// literal whose payload is the text between the quotes, whichever of the
/// two quotes encloses it.
pub proof fn lemma_quote_style_dropped(w: Seq<u8>, q: u8)
    requires
        is_quote(q),
        forall|j: int| 0 <= j < w.len() ==> w[j] != q,
    ensures
        lexeme_at(seq![q] + w + seq![q], 0) == (Lexeme::Text, w.len() + 2int),
        (seq![q] + w + seq![q]).subrange(1, w.len() + 1int) == w,
{
    let s = seq![q] + w + seq![q];
    assert forall|j: int| 1 <= j < w.len() + 1int implies s[j] != q by {
        assert(s[j] == w[j - 1]);
    }
    lemma_close_after_body(s, 1, w.len() + 1int, q);
    assert(s.subrange(1, w.len() + 1int) =~= w);
}

/// Before the end of the text, end-of-input comes exactly where the scan
/// stops early.
pub proof fn lemma_early_end_of_input(s: Seq<u8>, p: int)
    requires
        0 <= p < s.len(),
    ensures
        lexeme_at(s, p).0 == Lexeme::Fixed(Token::EOF) <==> stops_early(s, p),
{
}

/// The scan gains at least a byte a token until it reaches the end of the
/// text, where no token starts that stops early.
proof fn lemma_scan_progress(s: Seq<u8>, n: nat)
    requires
        forall|k: nat|
            offset_after(s, k) < s.len() ==> !stops_early(s, #[trigger] offset_after(s, k)),
    ensures
        offset_after(s, n) >= (if n <= s.len() { n as int } else { s.len() as int }),
        offset_after(s, n) <= s.len(),
    decreases n,
{
    lemma_offsets_in_text(s, n);
    if n > 0 {
        let k = (n - 1) as nat;
        lemma_scan_progress(s, k);
        let o = offset_after(s, k);
        lemma_token_stays_in_text(s, o);
        if o < s.len() {
            lemma_early_end_of_input(s, o);
        }
    }
}

/// A scan in which no token stops early reaches the end of the text within
/// as many tokens as the text has bytes; there it yields end-of-input, and
/// the stretches of its tokens, in order, give back the text exactly.
pub proof fn lemma_scan_covers_text(s: Seq<u8>)
    requires
        forall|k: nat|
            offset_after(s, k) < s.len() ==> !stops_early(s, #[trigger] offset_after(s, k)),
    ensures
        offset_after(s, s.len()) == s.len(),
        lexeme_at(s, s.len() as int) == (Lexeme::Fixed(Token::EOF), s.len() as int),
        pieces(s, s.len()).flatten() == s,
{
    lemma_scan_progress(s, s.len());
    lemma_round_trip(s, s.len());
}

} // verus!
