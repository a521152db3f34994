use vstd::prelude::*;
use vstd::slice::{slice_subrange, slice_to_vec};
use vstd::utf8::encode_utf8;
use crate::scan::{
    byte_at, ident_end, is_quote, lemma_ident_end_bounds, lemma_quote_close_bounds, lexeme_at,
    number_end, quote_close, space_lexeme, token_matches,
};
use crate::text::{all_ascii, ascii_text, decode_lossy, decodes_to};
use crate::token::{fixed_token_of, keyword_of, Literal, Token};

verus! {

/// A single-pass cursor over a source text.
pub struct Lexer {
    position: usize,
    read_position: usize,
    ch: u8,
    input: Vec<u8>,
}

impl Lexer {
    /// The bytes being scanned.
    pub closed spec fn text(&self) -> Seq<u8> {
        self.input@
    }

    /// The offset of the byte under the cursor.
    pub closed spec fn offset(&self) -> int {
        self.position as int
    }

    /// The next read offset is one past the current one, and the loaded
    /// byte is the one at the current offset, or the sentinel 0 past the end.
    pub closed spec fn wf(&self) -> bool {
        &&& self.input@.len() < usize::MAX
        &&& self.read_position == self.position + 1
        &&& self.ch == byte_at(self.input@, self.position as int)
    }

    /// Takes the source text and loads its first byte. The text's length in
    /// bytes must leave room for the offset one past its end.
    pub fn new(input: String) -> (r: Self)
        requires
            encode_utf8(input@).len() < usize::MAX,
        ensures
            r.wf(),
            r.text() == encode_utf8(input@),
            r.offset() == 0,
    {
        let bytes = slice_to_vec(input.as_str().as_bytes());
        let ch: u8 = if bytes.len() > 0 {
            bytes[0]
        } else {
            0
        };
        Lexer { position: 0, read_position: 1, ch, input: bytes }
    }

    /// Moves the cursor to the next read offset and loads the byte there, or
    /// the sentinel 0 past the end of the text.
    pub fn next_char(&mut self)
        requires
            old(self).wf(),
            old(self).offset() + 1 < usize::MAX,
        ensures
            final(self).wf(),
            final(self).text() == old(self).text(),
            final(self).offset() == old(self).offset() + 1,
    {
        if self.read_position >= self.input.len() {
            self.ch = 0;
        } else {
            self.ch = self.input[self.read_position];
        }
        self.position = self.read_position;
        self.read_position = self.read_position + 1;
    }

    /// Whether the byte before the cursor is `input`; at offset 0, and past
    /// the end of the text, there is none.
    pub fn prev_match(&self, input: u8) -> (r: bool)
        requires
            self.wf(),
        ensures
            r == (0 < self.offset() <= self.text().len() && self.text()[self.offset() - 1]
                == input),
    {
        self.position > 0 && self.position <= self.input.len() && self.input[self.position - 1]
            == input
    }

    /// Whether the bytes after the cursor spell `input`, each character read
    /// as a byte; `None` when the text ends before all of them.
    pub fn peek_match(&self, input: &str) -> (r: Option<bool>)
        requires
            self.wf(),
        ensures
            r is None <==> self.offset() + input@.len() >= self.text().len(),
            r matches Some(m) ==> m == (forall|k: int|
                0 <= k < input@.len() ==> self.text()[self.offset() + 1 + k] == input@[k] as u8),
    {
        let n = input.unicode_len();
        if self.position >= self.input.len() || n >= self.input.len() - self.position {
            return None;
        }
        let mut k: usize = 0;
        while k < n
            invariant
                self.wf(),
                n == input@.len(),
                self.position + n < self.input@.len(),
                k <= n,
                forall|j: int|
                    0 <= j < k ==> self.input@[self.position + 1 + j] == input@[j] as u8,
            decreases n - k,
        {
            if self.input[self.position + 1 + k] != input.get_char(k) as u8 {
                return Some(false);
            }
            k = k + 1;
        }
        Some(true)
    }

    /// Resolves a space under the cursor. At the start of an indentation run
    /// it peeks for three more spaces: all there, they are consumed and the
    /// result is a tab; a text too short to check yields end-of-input.
    /// The cursor is left on the last byte consumed.
    pub fn read_whitespace(&mut self) -> (r: Token)
        requires
            old(self).wf(),
            byte_at(old(self).text(), old(self).offset()) == 0x20,
        ensures
            final(self).wf(),
            final(self).text() == old(self).text(),
            r == space_lexeme(old(self).text(), old(self).offset()).0,
            final(self).offset() == if r is Tab {
                old(self).offset() + 3
            } else {
                old(self).offset()
            },
    {
        if self.prev_match(0x09) || self.prev_match(0x0a) {
            let spaces = "   ";
            proof {
                reveal_strlit("   ");
                assert(forall|k: int| 0 <= k < 3 ==> #[trigger] spaces@[k] as u8 == 0x20u8);
            }
            let peeked = self.peek_match(spaces);
            proof {
                let s = self.input@;
                let p = self.position as int;
                if peeked is Some {
                    assert(s[p + 1] == spaces@[0] as u8 && s[p + 2] == spaces@[1] as u8 && s[p + 3]
                        == spaces@[2] as u8 <==> forall|k: int|
                        0 <= k < spaces@.len() ==> s[p + 1 + k] == spaces@[k] as u8);
                }
            }
            match peeked {
                Some(true) => {
                    self.next_char();
                    self.next_char();
                    self.next_char();
                    Token::Tab
                },
                Some(false) => Token::Space,
                None => Token::EOF,
            }
        } else {
            Token::Space
        }
    }

    /// Consumes the run of digits under the cursor, with at most one decimal
    /// point, and returns it as written.
    pub fn read_number_literal(&mut self) -> (r: String)
        requires
            old(self).wf(),
            old(self).offset() <= old(self).text().len(),
        ensures
            final(self).wf(),
            final(self).text() == old(self).text(),
            final(self).offset() == number_end(old(self).text(), old(self).offset(), false),
            r@ == ascii_text(old(self).text().subrange(old(self).offset(), final(self).offset())),
    {
        let pos = self.position;
        let mut decimal = false;
        while (0x30 <= self.ch && self.ch <= 0x39) || (self.ch == 0x2e && !decimal)
            invariant
                self.wf(),
                self.input@ == old(self).input@,
                pos <= self.position <= self.input@.len(),
                number_end(self.input@, pos as int, false) == number_end(
                    self.input@,
                    self.position as int,
                    decimal,
                ),
                all_ascii(self.input@.subrange(pos as int, self.position as int)),
            decreases self.input@.len() - self.position,
        {
            if self.ch == 0x2e {
                decimal = true;
            }
            self.next_char();
        }
        decode_lossy(slice_subrange(self.input.as_slice(), pos, self.position))
    }

    /// Consumes the run of letters and underscores under the cursor and
    /// returns it.
    pub fn read_ident(&mut self) -> (r: String)
        requires
            old(self).wf(),
            old(self).offset() <= old(self).text().len(),
        ensures
            final(self).wf(),
            final(self).text() == old(self).text(),
            final(self).offset() == ident_end(old(self).text(), old(self).offset()),
            r@ == ascii_text(old(self).text().subrange(old(self).offset(), final(self).offset())),
    {
        let pos = self.position;
        while (0x61 <= self.ch && self.ch <= 0x7a) || (0x41 <= self.ch && self.ch <= 0x5a)
            || self.ch == 0x5f
            invariant
                self.wf(),
                self.input@ == old(self).input@,
                pos <= self.position <= self.input@.len(),
                ident_end(self.input@, pos as int) == ident_end(
                    self.input@,
                    self.position as int,
                ),
                all_ascii(self.input@.subrange(pos as int, self.position as int)),
            decreases self.input@.len() - self.position,
        {
            self.next_char();
        }
        decode_lossy(slice_subrange(self.input.as_slice(), pos, self.position))
    }

    /// Reads a string literal from the quote under the cursor up to the next
    /// quote of the same kind, which it leaves the cursor on. No escapes are
    /// known. Without a closing quote it returns `None` and moves nothing.
    pub fn read_string_literal(&mut self) -> (r: Option<String>)
        requires
            old(self).wf(),
            is_quote(byte_at(old(self).text(), old(self).offset())),
        ensures
            final(self).wf(),
            final(self).text() == old(self).text(),
            ({
                let p = old(self).offset();
                match quote_close(old(self).text(), p + 1, byte_at(old(self).text(), p)) {
                    Some(c) => {
                        &&& final(self).offset() == c
                        &&& r matches Some(x) && decodes_to(old(self).text().subrange(p + 1, c), x@)
                    },
                    None => final(self).offset() == p && r is None,
                }
            }),
    {
        let quote = self.ch;
        let start = self.position;
        self.next_char();
        let pos = self.position;
        while self.ch != quote && self.position < self.input.len()
            invariant
                self.wf(),
                self.input@ == old(self).input@,
                pos == start + 1,
                pos <= self.position,
                quote == byte_at(self.input@, start as int),
                quote_close(self.input@, pos as int, quote) == quote_close(
                    self.input@,
                    self.position as int,
                    quote,
                ),
            decreases self.input@.len() - self.position,
        {
            self.next_char();
        }
        if self.ch == quote {
            Some(decode_lossy(slice_subrange(self.input.as_slice(), pos, self.position)))
        } else {
            self.position = start;
            self.read_position = start + 1;
            self.ch = quote;
            None
        }
    }

    /// Scans the token under the cursor and returns it with the offset just
    /// after it. End-of-input consumes nothing, so once it comes it keeps
    /// coming at the same offset.
    pub fn next_token(&mut self) -> (r: (usize, Token))
        requires
            old(self).wf(),
        ensures
            final(self).wf(),
            final(self).text() == old(self).text(),
            final(self).offset() == lexeme_at(old(self).text(), old(self).offset()).1,
            r.0 == final(self).offset(),
            token_matches(old(self).text(), old(self).offset(), r.1),
    {
        let b = self.ch;
        let start = self.position;
        if let Some(t) = fixed_token_of(b) {
            self.next_char();
            return (self.position, t);
        }
        let tok = if b == 0x20 {
            self.read_whitespace()
        } else if b == 0x27 || b == 0x22 {
            proof {
                lemma_quote_close_bounds(self.input@, start + 1, b);
            }
            match self.read_string_literal() {
                Some(s) => Token::Lit(Literal::Str(s)),
                None => Token::EOF,
            }
        } else if (0x61 <= b && b <= 0x7a) || (0x41 <= b && b <= 0x5a) || b == 0x5f {
            let ident = self.read_ident();
            proof {
                lemma_ident_end_bounds(self.input@, start as int);
            }
            let word = slice_subrange(self.input.as_slice(), start, self.position);
            let t = match keyword_of(word) {
                Some(k) => k,
                None => Token::Ident(ident),
            };
            return (self.position, t);
        } else if 0x30 <= b && b <= 0x39 {
            let num = self.read_number_literal();
            return (self.position, Token::Lit(Literal::Num(num)));
        } else {
            Token::EOF
        };
        if let Token::EOF = tok {
            return (self.position, tok);
        }
        self.next_char();
        (self.position, tok)
    }
}

} // verus!
