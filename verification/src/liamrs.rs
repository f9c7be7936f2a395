//! A lexer over the bytes of a source text.
//!
//! Spaces, newlines and tabs separate. Each of `=`, `;`, `(`, `)`, `{` and
//! `}` is a token of its own. Anything else begins a word, which runs up to
//! the next space, newline, tab, `;`, parenthesis or brace, or to the end of
//! the text: the keyword `let` or `fn`, a number if it reads as a `u64`, or
//! else an identifier. A span gives the byte offsets of a token in the text.

use vstd::prelude::*;
use vstd::string::*;
use vstd::utf8::{
    decode_utf8, encode_utf8, is_char_boundary, length_of_first_scalar, pop_first_scalar,
    valid_utf8,
};
use crate::text::{parse_u64, spec_parse_u64};

verus! {

/// What a token is.
#[derive(Debug, PartialEq, Eq)]
pub enum TokenType {
    Identifier(String),
    Number(u64),
    Let,
    Fn,
    Assign,
    SemiColon,
    ParenOpen,
    ParenClose,
    BraceOpen,
    BraceClose,
}

/// What a token is, as a mathematical value.
pub enum TokenKind {
    Identifier(Seq<char>),
    Number(u64),
    Let,
    Fn,
    Assign,
    SemiColon,
    ParenOpen,
    ParenClose,
    BraceOpen,
    BraceClose,
}

impl View for TokenType {
    type V = TokenKind;

    open spec fn view(&self) -> TokenKind {
        match self {
            TokenType::Identifier(name) => TokenKind::Identifier(name@),
            TokenType::Number(n) => TokenKind::Number(*n),
            TokenType::Let => TokenKind::Let,
            TokenType::Fn => TokenKind::Fn,
            TokenType::Assign => TokenKind::Assign,
            TokenType::SemiColon => TokenKind::SemiColon,
            TokenType::ParenOpen => TokenKind::ParenOpen,
            TokenType::ParenClose => TokenKind::ParenClose,
            TokenType::BraceOpen => TokenKind::BraceOpen,
            TokenType::BraceClose => TokenKind::BraceClose,
        }
    }
}

/// A stretch of the text: the bytes from `start` up to `end`.
#[derive(Clone, Copy, Debug, PartialEq, Eq, Structural)]
pub struct Span {
    pub start: usize,
    pub end: usize,
}

impl Span {
    /// The span from `start` up to `end`.
    pub fn new(start: usize, end: usize) -> (span: Self)
        ensures
            span.start == start,
            span.end == end,
    {
        Span { start, end }
    }

    /// The number of bytes in the span, which must not end before it starts.
    pub fn len(&self) -> (length: usize)
        requires
            self.start <= self.end,
        ensures
            length == self.end - self.start,
    {
        self.end - self.start
    }
}

/// A token: what it is and where it stands.
#[derive(Debug, PartialEq, Eq)]
pub struct Token {
    pub token_type: TokenType,
    pub span: Span,
}

/// A token as a mathematical value.
pub struct TokenView {
    pub kind: TokenKind,
    pub start: nat,
    pub end: nat,
}

impl View for Token {
    type V = TokenView;

    open spec fn view(&self) -> TokenView {
        TokenView {
            kind: self.token_type@,
            start: self.span.start as nat,
            end: self.span.end as nat,
        }
    }
}

impl Token {
    /// The token that is `token_type` and stands at `span`.
    pub fn new(token_type: TokenType, span: Span) -> (token: Self)
        ensures
            token@ == (TokenView {
                kind: token_type@,
                start: span.start as nat,
                end: span.end as nat,
            }),
    {
        Token { token_type, span }
    }
}

/// The views of the tokens of `tokens`.
pub open spec fn token_views(tokens: Seq<Token>) -> Seq<TokenView> {
    tokens.map_values(|t: Token| t@)
}

/// Whether `b` is a space, a newline or a tab.
pub open spec fn spec_is_space(b: u8) -> bool {
    b == 0x20 || b == 0x0A || b == 0x09
}

/// The token that the byte `b` is by itself: one of `=`, `;`, `(`, `)`, `{`, `}`.
pub open spec fn single(b: u8) -> Option<TokenKind> {
    if b == 0x3D {
        Some(TokenKind::Assign)
    } else if b == 0x3B {
        Some(TokenKind::SemiColon)
    } else if b == 0x28 {
        Some(TokenKind::ParenOpen)
    } else if b == 0x29 {
        Some(TokenKind::ParenClose)
    } else if b == 0x7B {
        Some(TokenKind::BraceOpen)
    } else if b == 0x7D {
        Some(TokenKind::BraceClose)
    } else {
        None
    }
}

/// Whether `b` ends a word: a space, `;`, a newline, a tab, a parenthesis
/// or a brace. An `=` does not.
pub open spec fn spec_is_delim(b: u8) -> bool {
    b == 0x20 || b == 0x3B || b == 0x0A || b == 0x09 || b == 0x28 || b == 0x29 || b == 0x7B || b
        == 0x7D
}

/// The end of the word that runs through `i`: the first index from `i` on
/// that holds a delimiter, or the length of the text.
pub open spec fn word_end(bytes: Seq<u8>, i: int) -> int
    decreases bytes.len() - i,
{
    if 0 <= i < bytes.len() && !spec_is_delim(bytes[i]) {
        word_end(bytes, i + 1)
    } else {
        i
    }
}

/// What the word with the bytes `word` is: a keyword, a number, or an identifier.
pub open spec fn classify(word: Seq<u8>) -> TokenKind {
    if word == encode_utf8("let"@) {
        TokenKind::Let
    } else if word == encode_utf8("fn"@) {
        TokenKind::Fn
    } else {
        match spec_parse_u64(decode_utf8(word)) {
            Some(n) => TokenKind::Number(n),
            None => TokenKind::Identifier(decode_utf8(word)),
        }
    }
}

/// The tokens of the text `bytes` from offset `i` on, where `i` is not
/// inside a word.
pub open spec fn tokens_from(bytes: Seq<u8>, i: int) -> Seq<TokenView>
    decreases bytes.len() - i,
{
    if !(0 <= i < bytes.len()) {
        Seq::empty()
    } else if spec_is_space(bytes[i]) {
        tokens_from(bytes, i + 1)
    } else if single(bytes[i]) is Some {
        seq![TokenView { kind: single(bytes[i])->Some_0, start: i as nat, end: (i + 1) as nat }]
            + tokens_from(bytes, i + 1)
    } else {
        let end = word_end(bytes, i + 1);
        proof {
            lemma_word_end_bounds(bytes, i + 1);
        }
        seq![TokenView { kind: classify(bytes.subrange(i, end)), start: i as nat, end: end as nat }]
            + tokens_from(bytes, end)
    }
}

/// The tokens of the text `source`.
pub open spec fn spec_lex(source: Seq<char>) -> Seq<TokenView> {
    tokens_from(encode_utf8(source), 0)
}

/// A word ends at or after its start and inside the text, on a delimiter
/// unless it ends with the text.
pub proof fn lemma_word_end_bounds(bytes: Seq<u8>, i: int)
    requires
        0 <= i <= bytes.len(),
    ensures
        i <= word_end(bytes, i) <= bytes.len(),
        word_end(bytes, i) < bytes.len() ==> spec_is_delim(bytes[word_end(bytes, i)]),
    decreases bytes.len() - i,
{
    if i < bytes.len() && !spec_is_delim(bytes[i]) {
        lemma_word_end_bounds(bytes, i + 1);
    }
}

/// In UTF-8 text a character that begins with an ASCII byte ends with it:
/// the place after an ASCII byte that begins a character begins the next.
pub proof fn lemma_boundary_after_ascii(bytes: Seq<u8>, i: int)
    requires
        valid_utf8(bytes),
        0 <= i < bytes.len(),
        is_char_boundary(bytes, i),
        bytes[i] <= 0x7f,
    ensures
        is_char_boundary(bytes, i + 1),
    decreases bytes.len(),
{
    reveal_with_fuel(is_char_boundary, 2);
    reveal_with_fuel(valid_utf8, 2);
    let rest = pop_first_scalar(bytes);
    let first = length_of_first_scalar(bytes);
    if i > 0 {
        assert(is_char_boundary(rest, i - first));
        assert(0 <= i - first < rest.len());
        assert(rest[i - first] == bytes[i]);
        lemma_boundary_after_ascii(rest, i - first);
    }
}

/// In UTF-8 text an ASCII byte begins a character, and so does the end of
/// the text.
pub proof fn lemma_boundary_at_ascii(bytes: Seq<u8>, i: int)
    requires
        valid_utf8(bytes),
        0 <= i <= bytes.len(),
        i < bytes.len() ==> bytes[i] <= 0x7f,
    ensures
        is_char_boundary(bytes, i),
{
    if i < bytes.len() {
        vstd::utf8::is_char_boundary_iff_not_is_continuation_byte(bytes, i);
    } else {
        vstd::utf8::is_char_boundary_start_end_of_seq(bytes);
    }
}

/// Whether `b` ends a word.
#[verifier::when_used_as_spec(spec_is_delim)]
pub fn is_delim(b: u8) -> (r: bool)
    ensures
        r == spec_is_delim(b),
{
    b == 0x20 || b == 0x3B || b == 0x0A || b == 0x09 || b == 0x28 || b == 0x29 || b == 0x7B || b
        == 0x7D
}

/// The word of `bytes` that starts at `start`: it ends at the next
/// delimiter or with the text.
pub fn get_word(bytes: &[u8], start: usize) -> (span: Span)
    ensures
        span.start == start,
        span.end == word_end(bytes@, start as int),
{
    let mut end: usize = start;
    while end < bytes.len() && !is_delim(bytes[end])
        invariant
            start <= end,
            end <= bytes@.len() || end == start,
            word_end(bytes@, start as int) == word_end(bytes@, end as int),
        decreases bytes@.len() - end,
    {
        end += 1;
    }
    Span::new(start, end)
}

/// Whether the bytes of `bytes` at `span` are those of `string`. A span
/// of another length than `string` is not, wherever it lies; a span of the
/// same length must lie inside `bytes`.
pub fn compare(span: &Span, bytes: &[u8], string: &str) -> (same: bool)
    requires
        span.start <= span.end,
        span.end - span.start == string.spec_bytes().len() ==> span.end <= bytes@.len(),
    ensures
        same == (span.end <= bytes@.len() && bytes@.subrange(span.start as int, span.end as int)
            == string.spec_bytes()),
{
    let other = string.as_bytes();
    if span.end - span.start != other.len() {
        return false;
    }
    let ghost piece = bytes@.subrange(span.start as int, span.end as int);
    let mut i: usize = 0;
    while i < other.len()
        invariant
            span.start <= span.end <= bytes@.len(),
            other@ == string.spec_bytes(),
            other@.len() == span.end - span.start,
            piece == bytes@.subrange(span.start as int, span.end as int),
            i <= other@.len(),
            forall|k: int| 0 <= k < i ==> piece[k] == other@[k],
        decreases other@.len() - i,
    {
        if bytes[span.start + i] != other[i] {
            assert(piece[i as int] != other@[i as int]);
            return false;
        }
        i += 1;
    }
    assert(piece =~= other@);
    true
}

/// Whether the bytes of the UTF-8 text `bytes` from `start` up to `end`
/// are UTF-8 text themselves: both offsets begin a character or end the text.
pub open spec fn whole_characters(bytes: Seq<u8>, start: int, end: int) -> bool {
    is_char_boundary(bytes, start) && is_char_boundary(bytes, end)
}

/// The text that the bytes of `text` at `span` encode, if they encode any:
/// a span that cuts a character in two encodes none.
pub fn byte_span_string(span: &Span, text: &str) -> (string: Option<String>)
    requires
        span.start <= span.end <= text.spec_bytes().len(),
    ensures
        match string {
            Some(string) => whole_characters(
                text.spec_bytes(),
                span.start as int,
                span.end as int,
            ) && string@ == decode_utf8(
                text.spec_bytes().subrange(span.start as int, span.end as int),
            ),
            None => !whole_characters(text.spec_bytes(), span.start as int, span.end as int),
        },
{
    broadcast use vstd::utf8::encode_utf8_valid_utf8, vstd::utf8::encode_utf8_decode_utf8;

    let ghost bytes = text.spec_bytes();
    if !text.is_char_boundary(span.start) || !text.is_char_boundary(span.end) {
        return None;
    }
    let (_, tail) = text.split_at(span.start);
    proof {
        assert(tail.spec_bytes() =~= bytes.subrange(span.start as int, bytes.len() as int));
        if span.end < bytes.len() {
            vstd::utf8::is_char_boundary_iff_not_is_continuation_byte(bytes, span.end as int);
            vstd::utf8::is_char_boundary_iff_not_is_continuation_byte(
                tail.spec_bytes(),
                span.end - span.start,
            );
        } else {
            vstd::utf8::is_char_boundary_start_end_of_seq(tail.spec_bytes());
        }
    }
    let (word, _) = tail.split_at(span.end - span.start);
    proof {
        assert(word.spec_bytes() =~= bytes.subrange(span.start as int, span.end as int));
        assert(decode_utf8(encode_utf8(word@)) == word@);
    }
    Some(String::from_str(word))
}

/// The token that the byte `b` is by itself, if it is one.
pub fn single_token(b: u8) -> (token_type: Option<TokenType>)
    ensures
        match single(b) {
            Some(kind) => token_type is Some && token_type->Some_0@ == kind,
            None => token_type is None,
        },
{
    if b == 0x3D {
        Some(TokenType::Assign)
    } else if b == 0x3B {
        Some(TokenType::SemiColon)
    } else if b == 0x28 {
        Some(TokenType::ParenOpen)
    } else if b == 0x29 {
        Some(TokenType::ParenClose)
    } else if b == 0x7B {
        Some(TokenType::BraceOpen)
    } else if b == 0x7D {
        Some(TokenType::BraceClose)
    } else {
        None
    }
}

/// The tokens of `source`, in the order in which they stand.
pub fn lex(source: String) -> (tokens: Vec<Token>)
    ensures
        token_views(tokens@) == spec_lex(source@),
{
    broadcast use vstd::utf8::encode_utf8_valid_utf8;

    let text = source.as_str();
    let bytes = text.as_bytes();
    let mut tokens: Vec<Token> = Vec::new();
    let mut index: usize = 0;
    proof {
        vstd::utf8::is_char_boundary_start_end_of_seq(bytes@);
        assert(token_views(tokens@) + tokens_from(bytes@, 0) =~= tokens_from(bytes@, 0));
    }
    while index < bytes.len()
        invariant
            text@ == source@,
            bytes@ == text.spec_bytes(),
            bytes@ == encode_utf8(source@),
            valid_utf8(bytes@),
            index <= bytes@.len(),
            is_char_boundary(bytes@, index as int),
            token_views(tokens@) + tokens_from(bytes@, index as int) == tokens_from(bytes@, 0),
        decreases bytes@.len() - index,
    {
        let current: u8 = bytes[index];
        let ghost before = token_views(tokens@);
        if current == 0x20 || current == 0x0A || current == 0x09 {
            proof {
                lemma_boundary_after_ascii(bytes@, index as int);
            }
            index += 1;
        } else {
            match single_token(current) {
                Some(token_type) => {
                    proof {
                        lemma_boundary_after_ascii(bytes@, index as int);
                    }
                    let token = Token::new(token_type, Span::new(index, index + 1));
                    tokens.push(token);
                    assert(token_views(tokens@) =~= before + seq![token@]);
                    assert(before + tokens_from(bytes@, index as int) =~= token_views(tokens@)
                        + tokens_from(bytes@, index + 1));
                    index += 1;
                },
                None => {
                    let word = get_word(bytes, index);
                    proof {
                        lemma_word_end_bounds(bytes@, index + 1);
                        assert(word.end == word_end(bytes@, index + 1));
                        lemma_boundary_at_ascii(bytes@, word.end as int);
                    }
                    let ghost piece = bytes@.subrange(index as int, word.end as int);
                    let token_type = if compare(&word, bytes, "let") {
                        TokenType::Let
                    } else if compare(&word, bytes, "fn") {
                        TokenType::Fn
                    } else {
                        let as_str = byte_span_string(&word, text).unwrap();
                        match parse_u64(as_str.as_str()) {
                            Some(n) => TokenType::Number(n),
                            None => TokenType::Identifier(as_str),
                        }
                    };
                    assert(token_type@ == classify(piece));
                    let token = Token::new(token_type, word);
                    tokens.push(token);
                    assert(token_views(tokens@) =~= before + seq![token@]);
                    assert(before + tokens_from(bytes@, index as int) =~= token_views(tokens@)
                        + tokens_from(bytes@, word.end as int));
                    index += word.len();
                },
            }
        }
    }
    assert(tokens_from(bytes@, index as int) =~= Seq::<TokenView>::empty());
    assert(token_views(tokens@) + Seq::<TokenView>::empty() =~= token_views(tokens@));
    tokens
}

} // verus!
