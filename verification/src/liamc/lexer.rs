//! The lexer: from source text to tokens.
//!
//! The text is made of blanks, the punctuation `{`, `}` and `+`, and words
//! of ASCII letters and digits. A blank separates; each punctuation
//! character is a token; each maximal run of letters and digits is a token:
//! the keyword `let`, an integer literal if it reads as an `i32`, or else an
//! identifier. Positions count characters from the start of the text.

use vstd::prelude::*;
use vstd::string::*;
use crate::text::{parse_i32, spec_parse_i32};

verus! {

/// What kind of token a piece of text is.
#[derive(Clone, Copy, Debug, PartialEq, Eq, Structural)]
pub enum TokenType {
    IntLiteral,
    Identifier,
    LeftBrace,
    RightBrace,
    Plus,
    Let,
}

/// A token: its kind, its text, and where the text stands in the source.
#[derive(Debug, PartialEq, Eq)]
pub struct Token {
    pub token_type: TokenType,
    pub string: String,
    pub start: usize,
    pub end: usize,
}

/// A token as a mathematical value.
pub struct TokenView {
    pub token_type: TokenType,
    pub string: Seq<char>,
    pub start: nat,
    pub end: nat,
}

impl View for Token {
    type V = TokenView;

    open spec fn view(&self) -> TokenView {
        TokenView {
            token_type: self.token_type,
            string: self.string@,
            start: self.start as nat,
            end: self.end as nat,
        }
    }
}

impl Token {
    /// The token of kind `token_type` with text `string` that stands from
    /// `start` to `end` in the source.
    pub fn new(token_type: TokenType, string: String, start: usize, end: usize) -> (token: Self)
        ensures
            token@ == (TokenView {
                token_type,
                string: string@,
                start: start as nat,
                end: end as nat,
            }),
    {
        Token { token_type, string, start, end }
    }
}

/// The views of the tokens of `tokens`.
pub open spec fn token_views(tokens: Seq<Token>) -> Seq<TokenView> {
    tokens.map_values(|t: Token| t@)
}

/// Whether `c` is a blank: a newline, a carriage return, a tab or a space.
pub open spec fn is_blank(c: char) -> bool {
    c == '\n' || c == '\r' || c == '\t' || c == ' '
}

/// The kind of the token that the punctuation character `c` is.
pub open spec fn punctuation(c: char) -> Option<TokenType> {
    if c == '{' {
        Some(TokenType::LeftBrace)
    } else if c == '}' {
        Some(TokenType::RightBrace)
    } else if c == '+' {
        Some(TokenType::Plus)
    } else {
        None
    }
}

/// Whether `c` is an ASCII letter or digit.
pub open spec fn spec_is_word_char(c: char) -> bool {
    let u = c as u32;
    ||| 0x30 <= u <= 0x39
    ||| 0x41 <= u <= 0x5A
    ||| 0x61 <= u <= 0x7A
}

/// Whether the lexer accepts `c`: it is a blank, a punctuation character,
/// or an ASCII letter or digit.
pub open spec fn accepted(c: char) -> bool {
    is_blank(c) || punctuation(c) is Some || spec_is_word_char(c)
}

/// Whether the lexer accepts every character of `chars`.
pub open spec fn all_accepted(chars: Seq<char>) -> bool {
    forall|i: int| 0 <= i < chars.len() ==> accepted(#[trigger] chars[i])
}

/// Whether the lexer accepts `source`: it accepts every character, and a
/// `usize` can hold the number of characters.
pub open spec fn lexable(source: Seq<char>) -> bool {
    source.len() <= usize::MAX && all_accepted(source)
}

/// The end of the run of letters and digits that starts at `i`.
pub open spec fn word_stop(source: Seq<char>, i: int) -> int
    decreases source.len() - i,
{
    if 0 <= i < source.len() && spec_is_word_char(source[i]) {
        word_stop(source, i + 1)
    } else {
        i
    }
}

/// The kind of the token that the word `word` is.
pub open spec fn classify(word: Seq<char>) -> TokenType {
    if word == "let"@ {
        TokenType::Let
    } else if spec_parse_i32(word) is Some {
        TokenType::IntLiteral
    } else {
        TokenType::Identifier
    }
}

/// The token that the text from `start` to `end` of `source` is, given its kind.
pub open spec fn token_at(source: Seq<char>, token_type: TokenType, start: int, end: int)
    -> TokenView {
    TokenView {
        token_type,
        string: source.subrange(start, end),
        start: start as nat,
        end: end as nat,
    }
}

/// The tokens of `source` from position `i` on, where `i` is not inside a word.
pub open spec fn tokens_from(source: Seq<char>, i: int) -> Seq<TokenView>
    decreases source.len() - i,
{
    if !(0 <= i < source.len()) {
        Seq::empty()
    } else if is_blank(source[i]) {
        tokens_from(source, i + 1)
    } else if punctuation(source[i]) is Some {
        seq![token_at(source, punctuation(source[i])->Some_0, i, i + 1)] + tokens_from(
            source,
            i + 1,
        )
    } else if spec_is_word_char(source[i]) {
        let end = word_stop(source, i + 1);
        proof {
            lemma_word_stop_bounds(source, i + 1);
        }
        seq![token_at(source, classify(source.subrange(i, end)), i, end)] + tokens_from(
            source,
            end,
        )
    } else {
        Seq::empty()
    }
}

/// A run of letters and digits ends at or after its start and inside the text.
pub proof fn lemma_word_stop_bounds(source: Seq<char>, i: int)
    requires
        0 <= i <= source.len(),
    ensures
        i <= word_stop(source, i) <= source.len(),
    decreases source.len() - i,
{
    if i < source.len() && spec_is_word_char(source[i]) {
        lemma_word_stop_bounds(source, i + 1);
    }
}

/// A character that the lexer accepts is ASCII.
pub proof fn lemma_accepted_is_ascii(c: char)
    requires
        accepted(c),
    ensures
        '\0' <= c <= '\u{7f}',
{
}

/// A text that the lexer accepts is ASCII.
pub proof fn lemma_lexable_is_ascii(source: &str)
    requires
        lexable(source@),
    ensures
        is_ascii(source),
        source.spec_bytes().len() == source@.len(),
{
    let chars = source@;
    assert forall|i: int| 0 <= i < chars.len() implies '\0' <= #[trigger] chars[i]
        <= '\u{7f}' by {
        lemma_accepted_is_ascii(chars[i]);
    }
    is_ascii_spec_bytes(source);
}

/// Whether `c` is an ASCII letter or digit.
#[verifier::when_used_as_spec(spec_is_word_char)]
pub fn is_word_char(c: char) -> (b: bool)
    ensures
        b == spec_is_word_char(c),
{
    let u: u32 = c as u32;
    (0x30 <= u && u <= 0x39) || (0x41 <= u && u <= 0x5A) || (0x61 <= u && u <= 0x7A)
}

/// Whether the lexer accepts `source`.
pub fn can_lex(source: &str) -> (b: bool)
    ensures
        b == lexable(source@),
{
    let length: usize = source.unicode_len();
    let mut i: usize = 0;
    while i < length
        invariant
            length == source@.len(),
            i <= length,
            all_accepted(source@.take(i as int)),
        decreases length - i,
    {
        let c: char = source.get_char(i);
        let fits = c == '\n' || c == '\r' || c == '\t' || c == ' ' || c == '{' || c == '}' || c
            == '+' || is_word_char(c);
        if !fits {
            return false;
        }
        proof {
            let before = source@.take(i as int);
            let after = source@.take(i + 1);
            assert forall|k: int| 0 <= k < after.len() implies accepted(#[trigger] after[k]) by {
                if k < i {
                    assert(before[k] == after[k]);
                }
            }
        }
        i += 1;
    }
    assert(source@.take(length as int) =~= source@);
    true
}

/// The lexer: the tokens found so far, the source, and how far into the
/// source it has read.
pub struct Lexer {
    pub tokens: Vec<Token>,
    pub source: String,
    pub current: usize,
}

impl Lexer {
    /// Whether the lexer can go on: its source is acceptable and its
    /// position lies inside the source or at its end.
    pub open spec fn wf(&self) -> bool {
        &&& lexable(self.source@)
        &&& self.current <= self.source@.len()
    }

    /// Whether `after` is this lexer after some reading: the same source,
    /// and the tokens of this lexer followed by `added`.
    pub open spec fn extended_by(&self, after: &Lexer, added: Seq<TokenView>) -> bool {
        &&& after.source == self.source
        &&& token_views(after.tokens@) == token_views(self.tokens@) + added
    }

    /// A lexer at the start of `source`, with no tokens yet.
    pub fn new(source: String) -> (lexer: Self)
        ensures
            lexer.source == source,
            lexer.current == 0,
            token_views(lexer.tokens@) == Seq::<TokenView>::empty(),
    {
        let lexer = Lexer { tokens: Vec::new(), source, current: 0 };
        assert(token_views(lexer.tokens@) =~= Seq::<TokenView>::empty());
        lexer
    }

    /// Reads the rest of the source, adding its tokens to those found so
    /// far, and stops at the end of the source. The source must be one that
    /// the lexer accepts.
    pub fn lex(&mut self)
        requires
            lexable(old(self).source@),
        ensures
            old(self).extended_by(
                final(self),
                tokens_from(old(self).source@, old(self).current as int),
            ),
            final(self).current == if old(self).current <= old(self).source@.len() {
                old(self).source@.len()
            } else {
                old(self).current as nat
            },
    {
        assert(token_views(self.tokens@) + tokens_from(self.source@, self.current as int)
            =~= token_views(old(self).tokens@) + tokens_from(
            old(self).source@,
            old(self).current as int,
        ));
        while !self.is_at_end()
            invariant
                lexable(self.source@),
                self.source == old(self).source,
                old(self).current <= self.current,
                self.current <= self.source@.len() || self.current == old(self).current,
                token_views(self.tokens@) + tokens_from(self.source@, self.current as int)
                    == token_views(old(self).tokens@) + tokens_from(
                    old(self).source@,
                    old(self).current as int,
                ),
            decreases self.source@.len() - self.current,
        {
            let ghost source = self.source@;
            let ghost start = self.current as int;
            let ghost before = token_views(self.tokens@);
            if self.lex_single_character() {
                self.current += 1;
                assert(before + tokens_from(source, start) =~= token_views(self.tokens@)
                    + tokens_from(source, start + 1));
            } else {
                proof {
                    lemma_word_stop_bounds(source, start + 1);
                }
                let word = self.next_word();
                if self.lex_keywords(word.clone()) {
                } else {
                    self.lex_literals(word.clone());
                }
                assert(before + tokens_from(source, start) =~= token_views(self.tokens@)
                    + tokens_from(source, self.current as int));
            }
        }
        assert(tokens_from(self.source@, self.current as int) =~= Seq::<TokenView>::empty());
        assert(token_views(self.tokens@) + Seq::<TokenView>::empty() =~= token_views(
            self.tokens@,
        ));
    }

    /// Takes in the character at the present position if it is a blank or a
    /// punctuation character, adding the token of the latter. The position
    /// is left for the caller to move on.
    fn lex_single_character(&mut self) -> (taken: bool)
        requires
            old(self).wf(),
            old(self).current < old(self).source@.len(),
        ensures
            final(self).current == old(self).current,
            ({
                let c = old(self).source@[old(self).current as int];
                let at = old(self).current as int;
                if is_blank(c) {
                    taken && old(self).extended_by(final(self), Seq::empty())
                } else if punctuation(c) is Some {
                    taken && old(self).extended_by(
                        final(self),
                        seq![token_at(old(self).source@, punctuation(c)->Some_0, at, at + 1)],
                    )
                } else {
                    !taken && old(self).extended_by(final(self), Seq::empty())
                }
            }),
    {
        proof {
            reveal_strlit("{");
            reveal_strlit("}");
            reveal_strlit("+");
        }
        let c: char = self.peek_char();
        let ghost before = token_views(self.tokens@);
        assert(before + Seq::<TokenView>::empty() =~= before);
        if c == '\n' || c == '\r' || c == '\t' || c == ' ' {
            true
        } else if c == '{' {
            let token = Token::new(
                TokenType::LeftBrace,
                String::from_str("{"),
                self.current,
                self.current + 1,
            );
            self.push_token(token);
            assert(token@.string =~= self.source@.subrange(
                self.current as int,
                self.current + 1,
            ));
            true
        } else if c == '}' {
            let token = Token::new(
                TokenType::RightBrace,
                String::from_str("}"),
                self.current,
                self.current + 1,
            );
            self.push_token(token);
            assert(token@.string =~= self.source@.subrange(
                self.current as int,
                self.current + 1,
            ));
            true
        } else if c == '+' {
            let token = Token::new(
                TokenType::Plus,
                String::from_str("+"),
                self.current,
                self.current + 1,
            );
            self.push_token(token);
            assert(token@.string =~= self.source@.subrange(
                self.current as int,
                self.current + 1,
            ));
            true
        } else {
            false
        }
    }

    /// Adds `token` to the tokens found so far.
    fn push_token(&mut self, token: Token)
        ensures
            final(self).current == old(self).current,
            old(self).extended_by(final(self), seq![token@]),
    {
        self.tokens.push(token);
        assert(token_views(self.tokens@) =~= token_views(old(self).tokens@) + seq![token@]);
    }

    /// Adds the keyword token that ends at the present position, if `word`
    /// is a keyword.
    fn lex_keywords(&mut self, word: String) -> (taken: bool)
        requires
            old(self).wf(),
            word@.len() <= old(self).current,
            word@ == old(self).source@.subrange(
                old(self).current - word@.len(),
                old(self).current as int,
            ),
        ensures
            final(self).current == old(self).current,
            taken == (word@ == "let"@),
            old(self).extended_by(
                final(self),
                if taken {
                    seq![
                        token_at(
                            old(self).source@,
                            TokenType::Let,
                            old(self).current - word@.len(),
                            old(self).current as int,
                        ),
                    ]
                } else {
                    Seq::empty()
                },
            ),
    {
        let keyword = String::from_str("let");
        if word == keyword {
            let length: usize = self.word_length(&word);
            let start: usize = self.current - length;
            let token = Token::new(TokenType::Let, word, start, self.current);
            self.push_token(token);
            true
        } else {
            assert(token_views(self.tokens@) + Seq::<TokenView>::empty() =~= token_views(
                self.tokens@,
            ));
            false
        }
    }

    /// Adds the token of `word`, which ends at the present position and is
    /// no keyword: an integer literal if `word` reads as an `i32`, and an
    /// identifier if not. Says which.
    fn lex_literals(&mut self, word: String) -> (literal: bool)
        requires
            old(self).wf(),
            word@.len() <= old(self).current,
            word@ == old(self).source@.subrange(
                old(self).current - word@.len(),
                old(self).current as int,
            ),
        ensures
            final(self).current == old(self).current,
            literal == spec_parse_i32(word@) is Some,
            old(self).extended_by(
                final(self),
                seq![
                    token_at(
                        old(self).source@,
                        if literal {
                            TokenType::IntLiteral
                        } else {
                            TokenType::Identifier
                        },
                        old(self).current - word@.len(),
                        old(self).current as int,
                    ),
                ],
            ),
    {
        let length: usize = self.word_length(&word);
        let start: usize = self.current - length;
        if parse_i32(word.as_str()).is_some() {
            let token = Token::new(TokenType::IntLiteral, word, start, self.current);
            self.push_token(token);
            true
        } else {
            let token = Token::new(TokenType::Identifier, word, start, self.current);
            self.push_token(token);
            false
        }
    }

    /// The length of `word`, a piece of the source.
    fn word_length(&self, word: &String) -> (length: usize)
        requires
            self.wf(),
            word@.len() <= self.current,
            word@ == self.source@.subrange(self.current - word@.len(), self.current as int),
        ensures
            length == word@.len(),
    {
        let text = word.as_str();
        proof {
            assert forall|i: int| 0 <= i < text@.len() implies accepted(#[trigger] text@[i]) by {
                assert(text@[i] == self.source@[self.current - text@.len() + i]);
            }
            lemma_lexable_is_ascii(text);
        }
        text.len()
    }

    /// The character at the present position.
    fn peek_char(&self) -> (c: char)
        requires
            self.current < self.source@.len(),
        ensures
            c == self.source@[self.current as int],
    {
        self.source.as_str().get_char(self.current)
    }

    /// The character at the present position, which is then moved on by one.
    pub fn next_char(&mut self) -> (c: char)
        requires
            old(self).current < old(self).source@.len(),
        ensures
            c == old(self).source@[old(self).current as int],
            final(self).current == old(self).current + 1,
            final(self).source == old(self).source,
            final(self).tokens == old(self).tokens,
    {
        let length: usize = self.source.as_str().unicode_len();
        let c: char = self.peek_char();
        assert(self.current < length);
        self.current += 1;
        c
    }

    /// Reads the run of letters and digits at the present position, moving
    /// the position to its end.
    fn next_word(&mut self) -> (word: String)
        requires
            old(self).wf(),
        ensures
            final(self).current == word_stop(old(self).source@, old(self).current as int),
            word@ == old(self).source@.subrange(
                old(self).current as int,
                final(self).current as int,
            ),
            final(self).source == old(self).source,
            final(self).tokens == old(self).tokens,
            final(self).wf(),
    {
        let start_index: usize = self.current;
        while !self.is_at_end() && is_word_char(self.peek_char())
            invariant
                self.wf(),
                self.source == old(self).source,
                self.tokens == old(self).tokens,
                start_index <= self.current,
                word_stop(self.source@, start_index as int) == word_stop(
                    self.source@,
                    self.current as int,
                ),
            decreases self.source@.len() - self.current,
        {
            self.current += 1;
        }
        let source = self.source.as_str();
        proof {
            lemma_lexable_is_ascii(source);
        }
        String::from_str(source.substring_ascii(start_index, self.current))
    }

    /// Whether the whole source has been read.
    fn is_at_end(&self) -> (at_end: bool)
        requires
            lexable(self.source@),
        ensures
            at_end == (self.source@.len() <= self.current),
    {
        let source = self.source.as_str();
        proof {
            lemma_lexable_is_ascii(source);
        }
        source.len() <= self.current
    }
}

} // verus!
