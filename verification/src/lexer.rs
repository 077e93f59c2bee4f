//! The lexer: from source text to tokens.

use vstd::prelude::*;
use vstd::string::*;
use vstd::utf8::{char_is_scalar, encode_scalar, encode_utf8};
use crate::text::{is_alpha, is_digit, is_ident_char, is_space, skip_space};
use crate::text::{char_is_alpha, char_is_digit, char_is_ident, char_is_space, str_eq};
use crate::text::{chars_of, lemma_skip_space_bounds};
use crate::token::{Span, Token, TokenType};

verus! {

/// The number of bytes that write `c` in UTF-8.
pub open spec fn char_width(c: char) -> int {
    let n = c as u32;
    if n < 0x80 {
        1
    } else if n < 0x800 {
        2
    } else if n < 0x10000 {
        3
    } else {
        4
    }
}

/// The byte offset at which the `i`-th character of `src` starts: the number
/// of bytes that write the characters before it.
pub open spec fn byte_offset(src: Seq<char>, i: int) -> int {
    if 0 <= i <= src.len() {
        encode_utf8(src.subrange(0, i)).len() as int
    } else {
        0
    }
}

/// The number of bytes that write `src`.
pub open spec fn byte_len(src: Seq<char>) -> int {
    byte_offset(src, src.len() as int)
}

/// The first character at or after the `i`-th that starts at or behind the
/// byte offset `b`.
pub open spec fn char_index_from(src: Seq<char>, b: int, i: int) -> int
    decreases src.len() - i,
{
    if 0 <= i < src.len() && byte_offset(src, i) < b {
        char_index_from(src, b, i + 1)
    } else {
        i
    }
}

/// The place of the character that starts at the byte offset `b`: the number
/// of characters that start before `b`.
pub open spec fn char_index(src: Seq<char>, b: int) -> int {
    char_index_from(src, b, 0)
}

/// Whether a character of `src` starts at the byte offset `b`, or `src` ends
/// there.
pub open spec fn is_boundary(src: Seq<char>, b: int) -> bool {
    byte_offset(src, char_index(src, b)) == b
}

/// Whether `span` is a range of bytes of `src` that holds whole characters.
pub open spec fn span_within(src: Seq<char>, span: Span) -> bool {
    &&& span.start <= span.end
    &&& is_boundary(src, span.start as int)
    &&& is_boundary(src, span.end as int)
}

/// The characters that the bytes of `span` write.
pub open spec fn text_of(src: Seq<char>, span: Span) -> Seq<char> {
    src.subrange(char_index(src, span.start as int), char_index(src, span.end as int))
}

/// The first place at or after `pos` at which no identifier character stands.
pub open spec fn word_end(src: Seq<char>, pos: int) -> int
    decreases src.len() - pos,
{
    if 0 <= pos < src.len() && is_ident_char(src[pos]) {
        word_end(src, pos + 1)
    } else {
        pos
    }
}

/// The first place at or after `pos` at which no digit stands.
pub open spec fn digits_end(src: Seq<char>, pos: int) -> int
    decreases src.len() - pos,
{
    if 0 <= pos < src.len() && is_digit(src[pos]) {
        digits_end(src, pos + 1)
    } else {
        pos
    }
}

/// The kind of a single-character token, if `c` is one.
pub open spec fn punctuation(c: char) -> Option<TokenType> {
    if c == '{' {
        Some(TokenType::LBrace)
    } else if c == '}' {
        Some(TokenType::RBrace)
    } else if c == '(' {
        Some(TokenType::LParam)
    } else if c == ')' {
        Some(TokenType::RParam)
    } else if c == '[' {
        Some(TokenType::LBracket)
    } else if c == ']' {
        Some(TokenType::RBracket)
    } else if c == ',' {
        Some(TokenType::Comma)
    } else if c == '=' {
        Some(TokenType::Assign)
    } else if c == ':' {
        Some(TokenType::Colon)
    } else if c == ';' {
        Some(TokenType::SimiColon)
    } else {
        None
    }
}

/// The keyword table: the kind of the token that the word `w` makes. The
/// signer marker is written `Singer`.
pub open spec fn keyword(w: Seq<char>) -> TokenType {
    if w == "account"@ {
        TokenType::Account
    } else if w == "accounts"@ {
        TokenType::Accounts
    } else if w == "contract"@ {
        TokenType::Contract
    } else if w == "init"@ {
        TokenType::Init
    } else if w == "instruction"@ {
        TokenType::Instruction
    } else if w == "message"@ {
        TokenType::Message
    } else if w == "mutable"@ {
        TokenType::Mutable
    } else if w == "bool"@ {
        TokenType::Bool
    } else if w == "option"@ {
        TokenType::Option
    } else if w == "Singer"@ {
        TokenType::Signer
    } else if w == "u64"@ {
        TokenType::U64
    } else if w == "u8"@ {
        TokenType::U8
    } else {
        TokenType::Identifer
    }
}

/// The place behind the token that starts with the `p`-th character of
/// `src`: behind the one character of a punctuation mark or of a character
/// that starts no token, behind the word, behind the digits.
pub open spec fn token_end(src: Seq<char>, p: int) -> int {
    let c = src[p];
    if punctuation(c) is Some {
        p + 1
    } else if is_alpha(c) {
        word_end(src, p + 1)
    } else if is_digit(c) {
        digits_end(src, p + 1)
    } else {
        p + 1
    }
}

/// The kind of the token that starts with the `p`-th character of `src`.
pub open spec fn kind_at(src: Seq<char>, p: int) -> TokenType {
    let c = src[p];
    match punctuation(c) {
        Some(kind) => kind,
        None => if is_alpha(c) {
            keyword(src.subrange(p, word_end(src, p + 1)))
        } else if is_digit(c) {
            TokenType::Intager
        } else {
            TokenType::InvalidChar(c)
        },
    }
}

/// The token that starts with the `p`-th character of `src`, which is no
/// white space. Its span is the range of the bytes that write it.
pub open spec fn token_at(src: Seq<char>, p: int) -> Token {
    Token {
        span: Span {
            start: byte_offset(src, p) as usize,
            end: byte_offset(src, token_end(src, p)) as usize,
        },
        kind: kind_at(src, p),
    }
}

/// The first token of `src` at or after its `pos`-th character, or `None`
/// where only white space is left.
pub open spec fn next_token(src: Seq<char>, pos: int) -> Option<Token> {
    let p = skip_space(src, pos);
    if p < src.len() {
        Some(token_at(src, p))
    } else {
        None
    }
}

/// The place behind the first token of `src` at or after its `pos`-th
/// character; the end of the text where only white space is left.
pub open spec fn next_index(src: Seq<char>, pos: int) -> int {
    let p = skip_space(src, pos);
    if p < src.len() {
        token_end(src, p)
    } else {
        p
    }
}

/// A word ends where it is looked for or later, within the text.
pub proof fn lemma_word_end_bounds(src: Seq<char>, pos: int)
    requires
        0 <= pos <= src.len(),
    ensures
        pos <= word_end(src, pos) <= src.len(),
    decreases src.len() - pos,
{
    if pos < src.len() && is_ident_char(src[pos]) {
        lemma_word_end_bounds(src, pos + 1);
    }
}

/// A run of digits ends where it is looked for or later, within the text.
pub proof fn lemma_digits_end_bounds(src: Seq<char>, pos: int)
    requires
        0 <= pos <= src.len(),
    ensures
        pos <= digits_end(src, pos) <= src.len(),
    decreases src.len() - pos,
{
    if pos < src.len() && is_digit(src[pos]) {
        lemma_digits_end_bounds(src, pos + 1);
    }
}

/// The bytes of two texts one after another are the bytes of the one and
/// then the bytes of the other.
pub proof fn lemma_encode_concat(a: Seq<char>, b: Seq<char>)
    ensures
        encode_utf8(a + b) == encode_utf8(a) + encode_utf8(b),
    decreases a.len(),
{
    if a.len() == 0 {
        assert(a + b =~= b);
        assert(encode_utf8(a) + encode_utf8(b) =~= encode_utf8(b));
    } else {
        lemma_encode_concat(a.drop_first(), b);
        assert((a + b).drop_first() =~= a.drop_first() + b);
        assert((a + b)[0] == a[0]);
        assert(encode_utf8(a + b) =~= encode_utf8(a) + encode_utf8(b));
    }
}

/// A character is written in as many bytes as its width says, one to four.
pub proof fn lemma_char_width(c: char)
    ensures
        encode_scalar(c as u32).len() == char_width(c),
        1 <= char_width(c) <= 4,
{
    char_is_scalar(c);
}

/// The text starts at byte 0, and each character starts its width behind the
/// one before it.
pub proof fn lemma_byte_offset_step(src: Seq<char>, i: int)
    requires
        0 <= i < src.len(),
    ensures
        byte_offset(src, 0) == 0,
        byte_offset(src, i + 1) == byte_offset(src, i) + char_width(src[i]),
        1 <= char_width(src[i]) <= 4,
{
    lemma_char_width(src[i]);
    let a = src.subrange(0, i);
    let one = seq![src[i]];
    assert(src.subrange(0, i + 1) =~= a + one);
    lemma_encode_concat(a, one);
    assert(one.drop_first() =~= Seq::<char>::empty());
    assert(encode_utf8(one) =~= encode_scalar(src[i] as u32)) by {
        assert(encode_utf8(one.drop_first()) =~= Seq::<u8>::empty());
    }
    assert(src.subrange(0, 0) =~= Seq::<char>::empty());
}

/// Later characters start at later bytes: between two places lies at least
/// one byte for each character.
pub proof fn lemma_byte_offset_grows(src: Seq<char>, i: int, j: int)
    requires
        0 <= i <= j <= src.len(),
    ensures
        0 <= byte_offset(src, i),
        byte_offset(src, i) + (j - i) <= byte_offset(src, j),
        byte_offset(src, j) <= byte_len(src),
    decreases src.len() - i,
{
    if i < j {
        lemma_byte_offset_step(src, i);
        lemma_byte_offset_grows(src, i + 1, j);
    } else if j < src.len() {
        lemma_byte_offset_step(src, j);
        lemma_byte_offset_grows(src, j + 1, j + 1);
    }
}

/// The character that starts at the byte offset of the `i`-th character is
/// the `i`-th: the start of every character, and the end of the text, is a
/// boundary.
pub proof fn lemma_char_index_of_offset(src: Seq<char>, i: int)
    requires
        0 <= i <= src.len(),
    ensures
        char_index(src, byte_offset(src, i)) == i,
        is_boundary(src, byte_offset(src, i)),
{
    lemma_char_index_from(src, i, 0);
}

proof fn lemma_char_index_from(src: Seq<char>, i: int, k: int)
    requires
        0 <= k <= i <= src.len(),
    ensures
        char_index_from(src, byte_offset(src, i), k) == i,
    decreases i - k,
{
    lemma_byte_offset_grows(src, k, i);
    if k < i {
        lemma_char_index_from(src, i, k + 1);
    }
}

/// The place that a byte offset gives lies within the text, and places
/// follow the order of the offsets.
pub proof fn lemma_char_index_bounds(src: Seq<char>, b: int, k: int)
    requires
        0 <= k <= src.len(),
    ensures
        k <= char_index_from(src, b, k) <= src.len(),
    decreases src.len() - k,
{
    if k < src.len() && byte_offset(src, k) < b {
        lemma_char_index_bounds(src, b, k + 1);
    }
}

/// The characters of a span of whole characters are written by the bytes of
/// the span, and the span lies within the text.
pub proof fn lemma_span_text(src: Seq<char>, span: Span)
    requires
        span_within(src, span),
    ensures
        0 <= char_index(src, span.start as int) <= char_index(src, span.end as int) <= src.len(),
        span.end <= byte_len(src),
        encode_utf8(text_of(src, span)) == encode_utf8(src).subrange(
            span.start as int,
            span.end as int,
        ),
{
    let i = char_index(src, span.start as int);
    let j = char_index(src, span.end as int);
    lemma_char_index_bounds(src, span.start as int, 0);
    lemma_char_index_bounds(src, span.end as int, 0);
    if j < i {
        lemma_byte_offset_grows(src, j, i);
    }
    lemma_byte_offset_grows(src, i, j);
    lemma_byte_offset_grows(src, j, src.len() as int);
    let a = src.subrange(0, i);
    let m = src.subrange(i, j);
    let z = src.subrange(j, src.len() as int);
    assert(src =~= a + m + z);
    assert(src.subrange(0, j) =~= a + m);
    assert(src.subrange(0, src.len() as int) =~= src);
    lemma_encode_concat(a, m);
    lemma_encode_concat(a + m, z);
    assert(encode_utf8(src).subrange(span.start as int, span.end as int) =~= encode_utf8(m));
}

/// A token starts at or after the place where it is looked for, behind white
/// space only; it is not empty and ends within the text, and so do its
/// bytes: its span is a range of whole characters that starts at or after
/// the byte of that place.
pub proof fn lemma_next_token_bounds(src: Seq<char>, pos: int)
    requires
        0 <= pos <= src.len(),
        byte_len(src) <= usize::MAX,
    ensures
        pos <= skip_space(src, pos) <= next_index(src, pos) <= src.len(),
        forall|k: int| pos <= k < skip_space(src, pos) ==> is_space(#[trigger] src[k]),
        match next_token(src, pos) {
            Some(t) => {
                &&& skip_space(src, pos) < next_index(src, pos)
                &&& !is_space(src[skip_space(src, pos)])
                &&& t.span.start == byte_offset(src, skip_space(src, pos))
                &&& t.span.end == byte_offset(src, next_index(src, pos))
                &&& byte_offset(src, pos) <= t.span.start < t.span.end <= byte_len(src)
                &&& span_within(src, t.span)
                &&& text_of(src, t.span) == src.subrange(
                    skip_space(src, pos),
                    next_index(src, pos),
                )
            },
            None => next_index(src, pos) == src.len(),
        },
{
    lemma_skip_space_bounds(src, pos);
    lemma_skip_space_spaces(src, pos);
    let p = skip_space(src, pos);
    if p < src.len() {
        lemma_word_end_bounds(src, p + 1);
        lemma_digits_end_bounds(src, p + 1);
        let e = token_end(src, p);
        lemma_byte_offset_grows(src, pos, p);
        lemma_byte_offset_grows(src, p, e);
        lemma_byte_offset_grows(src, e, src.len() as int);
        lemma_char_index_of_offset(src, p);
        lemma_char_index_of_offset(src, e);
    }
}

/// What is skipped is white space, and what stands behind it is not.
pub proof fn lemma_skip_space_spaces(src: Seq<char>, pos: int)
    requires
        0 <= pos <= src.len(),
    ensures
        forall|k: int| pos <= k < skip_space(src, pos) ==> is_space(#[trigger] src[k]),
        skip_space(src, pos) < src.len() ==> !is_space(src[skip_space(src, pos)]),
    decreases src.len() - pos,
{
    if pos < src.len() && is_space(src[pos]) {
        lemma_skip_space_spaces(src, pos + 1);
    }
}

/// The number of bytes that write `c` in UTF-8.
pub fn width_of(c: char) -> (r: usize)
    ensures
        r == char_width(c),
        1 <= r <= 4,
{
    let n: u32 = c as u32;
    if n < 0x80 {
        1
    } else if n < 0x800 {
        2
    } else if n < 0x10000 {
        3
    } else {
        4
    }
}

/// A cursor over the characters of a source text, which knows at which byte
/// it stands.
pub struct CharHandler<'a> {
    src: &'a str,
    chars: Vec<char>,
    bytes: usize,
    idx: usize,
    pos: usize,
}

impl<'a> CharHandler<'a> {
    /// The text under the cursor.
    pub closed spec fn source(&self) -> Seq<char> {
        self.src@
    }

    /// The byte offset at which the cursor stands.
    pub closed spec fn offset(&self) -> int {
        self.pos as int
    }

    /// The place of the character under the cursor.
    pub closed spec fn index(&self) -> int {
        self.idx as int
    }

    /// Whether the cursor stands within its text, at the byte at which the
    /// character under it starts.
    pub closed spec fn wf(&self) -> bool {
        &&& self.chars@ == self.src@
        &&& self.bytes == byte_len(self.src@)
        &&& self.idx <= self.src@.len()
        &&& self.pos == byte_offset(self.src@, self.idx as int)
    }

    /// A cursor stands within its text, at the byte offset of its place, and
    /// the bytes of the text can be counted.
    pub proof fn lemma_bounds(&self)
        requires
            self.wf(),
        ensures
            0 <= self.index() <= self.source().len(),
            self.offset() == byte_offset(self.source(), self.index()),
            self.offset() <= byte_len(self.source()) <= usize::MAX,
    {
        lemma_byte_offset_grows(self.source(), self.index(), self.source().len() as int);
    }

    /// A cursor at the start of `src`.
    pub fn new(src: &'a str) -> (r: Self)
        ensures
            r.wf(),
            r.source() == src@,
            r.index() == 0,
            r.offset() == 0,
    {
        let chars = chars_of(src);
        let bytes = src.as_bytes().len();
        proof {
            assert(src@.subrange(0, src@.len() as int) =~= src@);
            assert(src@.subrange(0, 0) =~= Seq::<char>::empty());
        }
        CharHandler { src, chars, bytes, idx: 0, pos: 0 }
    }

    /// Moves one character on, unless the cursor stands at the end, and
    /// returns the character that stands there.
    pub fn next(&mut self) -> (r: Option<char>)
        requires
            old(self).wf(),
        ensures
            final(self).wf(),
            final(self).source() == old(self).source(),
            final(self).index() == if old(self).index() < old(self).source().len() {
                old(self).index() + 1
            } else {
                old(self).index()
            },
            final(self).offset() == byte_offset(final(self).source(), final(self).index()),
            r == if final(self).index() < old(self).source().len() {
                Some(old(self).source()[final(self).index()])
            } else {
                None
            },
    {
        if self.idx < self.chars.len() {
            proof {
                lemma_byte_offset_step(self.src@, self.idx as int);
                lemma_byte_offset_grows(self.src@, self.idx + 1, self.src@.len() as int);
            }
            self.pos = self.pos + width_of(self.chars[self.idx]);
            self.idx = self.idx + 1;
        }
        self.curr()
    }

    /// The character under the cursor, or `None` at the end.
    pub fn curr(&self) -> (r: Option<char>)
        requires
            self.wf(),
        ensures
            r == if self.index() < self.source().len() {
                Some(self.source()[self.index()])
            } else {
                None
            },
    {
        if self.idx < self.chars.len() {
            Some(self.chars[self.idx])
        } else {
            None
        }
    }

    /// The place of the character that starts at the byte offset `b`.
    pub fn index_of(&self, b: usize) -> (i: usize)
        requires
            self.wf(),
        ensures
            i == char_index(self.source(), b as int),
            i <= self.source().len(),
    {
        let n: usize = self.chars.len();
        let mut i: usize = 0;
        let mut off: usize = 0;
        proof {
            assert(self.src@.subrange(0, 0) =~= Seq::<char>::empty());
        }
        while i < n && off < b
            invariant
                self.wf(),
                n == self.src@.len(),
                i <= n,
                off == byte_offset(self.src@, i as int),
                char_index_from(self.src@, b as int, i as int) == char_index(self.src@, b as int),
            decreases n - i,
        {
            proof {
                lemma_byte_offset_step(self.src@, i as int);
                lemma_byte_offset_grows(self.src@, i + 1, n as int);
            }
            off = off + width_of(self.chars[i]);
            i = i + 1;
        }
        i
    }

    /// The text between two places.
    pub fn between(&self, i: usize, j: usize) -> (r: &'a str)
        requires
            i <= j <= self.source().len(),
        ensures
            r@ == self.source().subrange(i as int, j as int),
    {
        self.src.substring_char(i, j)
    }

    /// The text that the bytes from `s` up to `e` write. The range holds
    /// whole characters.
    pub fn span(&self, s: usize, e: usize) -> (r: &'a str)
        requires
            self.wf(),
            span_within(self.source(), Span { start: s, end: e }),
        ensures
            r@ == text_of(self.source(), Span { start: s, end: e }),
            r.spec_bytes() == encode_utf8(self.source()).subrange(s as int, e as int),
    {
        proof {
            lemma_span_text(self.src@, Span { start: s, end: e });
        }
        let i = self.index_of(s);
        let j = self.index_of(e);
        self.src.substring_char(i, j)
    }
}

/// The lexer: a cursor that hands out the tokens of a source text one by one.
pub struct Lexer<'a> {
    src: CharHandler<'a>,
}

impl<'a> Lexer<'a> {
    /// The text that is lexed.
    pub closed spec fn source(&self) -> Seq<char> {
        self.src.source()
    }

    /// The byte offset up to which the text has been read.
    pub closed spec fn offset(&self) -> int {
        self.src.offset()
    }

    /// The number of characters that have been read.
    pub closed spec fn index(&self) -> int {
        self.src.index()
    }

    /// Whether the lexer stands within its text.
    pub closed spec fn wf(&self) -> bool {
        self.src.wf()
    }

    /// A lexer stands within its text, at the byte offset of its place, and
    /// the bytes of the text can be counted.
    pub proof fn lemma_bounds(&self)
        requires
            self.wf(),
        ensures
            0 <= self.index() <= self.source().len(),
            self.offset() == byte_offset(self.source(), self.index()),
            self.offset() <= byte_len(self.source()) <= usize::MAX,
    {
        self.src.lemma_bounds();
    }

    /// A lexer at the start of `src`.
    pub fn new(src: &'a str) -> (r: Self)
        ensures
            r.wf(),
            r.source() == src@,
            r.index() == 0,
            r.offset() == 0,
    {
        Lexer { src: CharHandler::new(src) }
    }

    /// The text that a span covers: the characters that its bytes write. The
    /// span holds whole characters.
    pub fn src_span(&self, span: Span) -> (r: &'a str)
        requires
            self.wf(),
            span_within(self.source(), span),
        ensures
            r@ == text_of(self.source(), span),
            r.spec_bytes() == encode_utf8(self.source()).subrange(
                span.start as int,
                span.end as int,
            ),
    {
        self.src.span(span.start, span.end)
    }

    /// The next token, or `None` at the end of the text. White space before
    /// it is skipped; its span is the range of the bytes that write it; a
    /// character that starts no token comes out as a token of its own. The
    /// lexer is left behind the token.
    pub fn next(&mut self) -> (r: Option<Token>)
        requires
            old(self).wf(),
        ensures
            final(self).wf(),
            final(self).source() == old(self).source(),
            r == next_token(old(self).source(), old(self).index()),
            final(self).index() == next_index(old(self).source(), old(self).index()),
            final(self).offset() == byte_offset(final(self).source(), final(self).index()),
            match r {
                Some(t) => old(self).offset() <= t.span.start < t.span.end
                    && t.span.end == final(self).offset(),
                None => final(self).offset() == byte_len(old(self).source()),
            },
    {
        proof {
            old(self).lemma_bounds();
            lemma_next_token_bounds(old(self).source(), old(self).index());
        }
        self.skip_whitespace();
        proof {
            self.lemma_bounds();
        }
        match self.src.curr() {
            None => None,
            Some(ch) => {
                if ch == '{' {
                    Some(self.create_single_char_token(TokenType::LBrace))
                } else if ch == '}' {
                    Some(self.create_single_char_token(TokenType::RBrace))
                } else if ch == '(' {
                    Some(self.create_single_char_token(TokenType::LParam))
                } else if ch == ')' {
                    Some(self.create_single_char_token(TokenType::RParam))
                } else if ch == '[' {
                    Some(self.create_single_char_token(TokenType::LBracket))
                } else if ch == ']' {
                    Some(self.create_single_char_token(TokenType::RBracket))
                } else if ch == ',' {
                    Some(self.create_single_char_token(TokenType::Comma))
                } else if ch == '=' {
                    Some(self.create_single_char_token(TokenType::Assign))
                } else if ch == ':' {
                    Some(self.create_single_char_token(TokenType::Colon))
                } else if ch == ';' {
                    Some(self.create_single_char_token(TokenType::SimiColon))
                } else if char_is_alpha(ch) {
                    Some(self.parse_identifer())
                } else if char_is_digit(ch) {
                    Some(self.parse_integer())
                } else {
                    Some(self.create_single_char_token(TokenType::InvalidChar(ch)))
                }
            },
        }
    }

    /// Moves over white space.
    pub fn skip_whitespace(&mut self)
        requires
            old(self).wf(),
        ensures
            final(self).wf(),
            final(self).source() == old(self).source(),
            final(self).index() == skip_space(old(self).source(), old(self).index()),
    {
        loop
            invariant
                self.wf(),
                self.source() == old(self).source(),
                old(self).index() <= self.index() <= self.source().len(),
                skip_space(self.source(), self.index()) == skip_space(
                    old(self).source(),
                    old(self).index(),
                ),
            decreases self.source().len() - self.index(),
        {
            match self.src.curr() {
                Some(ch) => {
                    if !char_is_space(ch) {
                        return ;
                    }
                },
                None => {
                    return ;
                },
            }
            self.src.next();
        }
    }

    /// Reads a word that starts under the cursor: a keyword or an identifier.
    pub fn parse_identifer(&mut self) -> (r: Token)
        requires
            old(self).wf(),
            old(self).index() < old(self).source().len(),
        ensures
            final(self).wf(),
            final(self).source() == old(self).source(),
            final(self).index() == word_end(old(self).source(), old(self).index() + 1),
            r.span.start == old(self).offset(),
            r.span.end == final(self).offset(),
            r.kind == keyword(old(self).source().subrange(old(self).index(), final(self).index())),
    {
        let s: usize = self.src.pos;
        let si: usize = self.src.idx;
        proof {
            lemma_word_end_bounds(self.source(), self.index() + 1);
        }
        self.src.next();
        loop
            invariant
                self.wf(),
                self.source() == old(self).source(),
                old(self).index() < self.index() <= self.source().len(),
                word_end(self.source(), self.index()) == word_end(
                    old(self).source(),
                    old(self).index() + 1,
                ),
            ensures
                self.wf(),
                self.source() == old(self).source(),
                self.index() == word_end(old(self).source(), old(self).index() + 1),
                old(self).index() < self.index() <= self.source().len(),
            decreases self.source().len() - self.index(),
        {
            match self.src.curr() {
                Some(c) => {
                    if !char_is_ident(c) {
                        break ;
                    }
                },
                None => {
                    break ;
                },
            }
            self.src.next();
        }
        let e: usize = self.src.pos;
        let ei: usize = self.src.idx;
        let word = self.src.between(si, ei);
        let ty = if str_eq(word, "account") {
            TokenType::Account
        } else if str_eq(word, "accounts") {
            TokenType::Accounts
        } else if str_eq(word, "contract") {
            TokenType::Contract
        } else if str_eq(word, "init") {
            TokenType::Init
        } else if str_eq(word, "instruction") {
            TokenType::Instruction
        } else if str_eq(word, "message") {
            TokenType::Message
        } else if str_eq(word, "mutable") {
            TokenType::Mutable
        } else if str_eq(word, "bool") {
            TokenType::Bool
        } else if str_eq(word, "option") {
            TokenType::Option
        } else if str_eq(word, "Singer") {
            TokenType::Signer
        } else if str_eq(word, "u64") {
            TokenType::U64
        } else if str_eq(word, "u8") {
            TokenType::U8
        } else {
            TokenType::Identifer
        };
        self.craete_span_token(s, e, ty)
    }

    /// Reads a run of digits that starts under the cursor.
    pub fn parse_integer(&mut self) -> (r: Token)
        requires
            old(self).wf(),
            old(self).index() < old(self).source().len(),
        ensures
            final(self).wf(),
            final(self).source() == old(self).source(),
            final(self).index() == digits_end(old(self).source(), old(self).index() + 1),
            r.span.start == old(self).offset(),
            r.span.end == final(self).offset(),
            r.kind == TokenType::Intager,
    {
        let s: usize = self.src.pos;
        proof {
            lemma_digits_end_bounds(self.source(), self.index() + 1);
        }
        self.src.next();
        loop
            invariant
                self.wf(),
                self.source() == old(self).source(),
                old(self).index() < self.index() <= self.source().len(),
                digits_end(self.source(), self.index()) == digits_end(
                    old(self).source(),
                    old(self).index() + 1,
                ),
            ensures
                self.wf(),
                self.source() == old(self).source(),
                self.index() == digits_end(old(self).source(), old(self).index() + 1),
                old(self).index() < self.index() <= self.source().len(),
            decreases self.source().len() - self.index(),
        {
            match self.src.curr() {
                Some(ch) => {
                    if !char_is_digit(ch) {
                        break ;
                    }
                },
                None => {
                    break ;
                },
            }
            self.src.next();
        }
        self.craete_span_token(s, self.src.pos, TokenType::Intager)
    }

    /// Makes a token of the one character under the cursor and moves past it.
    pub fn create_single_char_token(&mut self, ty: TokenType) -> (r: Token)
        requires
            old(self).wf(),
            old(self).index() < old(self).source().len(),
        ensures
            final(self).wf(),
            final(self).source() == old(self).source(),
            final(self).index() == old(self).index() + 1,
            r == (Token {
                span: Span {
                    start: old(self).offset() as usize,
                    end: final(self).offset() as usize,
                },
                kind: ty,
            }),
    {
        let s: usize = self.src.pos;
        self.src.next();
        let e: usize = self.src.pos;
        self.craete_span_token(s, e, ty)
    }

    /// A token of kind `ty` over the given offsets.
    pub fn craete_span_token(&self, start: usize, end: usize, ty: TokenType) -> (r: Token)
        ensures
            r == (Token { span: Span { start, end }, kind: ty }),
    {
        Token { span: Span { start, end }, kind: ty }
    }
}

} // verus!
