//! The lexer: from source text to tokens.
//!
//! A token names the text it stands for by its position in the source, so
//! that tokens are plain data.

use vstd::prelude::*;
use crate::text::{decimal_value, digit_of, lemma_decimal_value_push, push_decimal};

verus! {

/// The punctuators of the language.
#[derive(Clone, Copy, Debug, PartialEq, Eq, Structural)]
pub enum Punctuator {
    OpenParen,
    CloseParen,
    OpenBrace,
    CloseBrace,
    OpenBracket,
    CloseBracket,
    Comma,
    Colon,
    Semicolon,
    Dot,
    Arrow,
    Equal,
    NotEqual,
    StrictEqual,
    StrictNotEqual,
}

/// A token.
#[derive(Clone, Copy, Debug, PartialEq, Eq, Structural)]
pub enum Token {
    /// An identifier or a keyword: the source from the first position up to
    /// the second.
    Identifier(usize, usize),
    /// A string literal: the source between its quotes, from the first
    /// position up to the second.
    Text(usize, usize),
    /// A decimal integer literal.
    Number(i32),
    /// A punctuator.
    Punctuator(Punctuator),
}

/// Why a source text has no tokens; each with the position in the source.
#[derive(Clone, Copy, Debug, PartialEq, Eq, Structural)]
pub enum LexError {
    /// A character that starts no token.
    UnexpectedCharacter(usize),
    /// A string literal without its closing quote.
    UnterminatedString(usize),
    /// An escape sequence in a string literal.
    EscapeSequence(usize),
    /// An integer literal above the largest 32-bit integer.
    NumberTooLarge(usize),
}

/// White space between tokens.
pub open spec fn is_space(c: char) -> bool {
    c == ' ' || c == '\n' || c == '\t' || c == '\r'
}

/// A character that an identifier may start with.
pub open spec fn is_identifier_start(c: char) -> bool {
    ('a' <= c && c <= 'z') || ('A' <= c && c <= 'Z') || c == '_' || c == '$'
}

/// A character that an identifier may go on with.
pub open spec fn is_identifier_part(c: char) -> bool {
    is_identifier_start(c) || ('0' <= c && c <= '9')
}

/// The end of the run of identifier characters that starts at `pos`.
pub open spec fn identifier_end(src: Seq<char>, pos: int) -> int
    decreases src.len() - pos,
{
    if 0 <= pos < src.len() && is_identifier_part(src[pos]) {
        identifier_end(src, pos + 1)
    } else {
        pos
    }
}

/// The end of the run of digits that starts at `pos`.
pub open spec fn digits_end(src: Seq<char>, pos: int) -> int
    decreases src.len() - pos,
{
    if 0 <= pos < src.len() && digit_of(src[pos]) is Some {
        digits_end(src, pos + 1)
    } else {
        pos
    }
}

/// The first position from `pos` on that holds the quote, a backslash or a
/// line end; the length of the source where there is none.
pub open spec fn text_end(src: Seq<char>, pos: int, quote: char) -> int
    decreases src.len() - pos,
{
    if 0 <= pos < src.len() && src[pos] != quote && src[pos] != '\\' && src[pos] != '\n' {
        text_end(src, pos + 1, quote)
    } else {
        pos
    }
}

/// The punctuator that starts at `pos`, and its length.
pub open spec fn punctuator_at(src: Seq<char>, pos: int) -> Option<(Punctuator, int)> {
    let c = src[pos];
    let second = if pos + 1 < src.len() {
        Some(src[pos + 1])
    } else {
        None
    };
    let third = if pos + 2 < src.len() {
        Some(src[pos + 2])
    } else {
        None
    };
    if c == '(' {
        Some((Punctuator::OpenParen, 1))
    } else if c == ')' {
        Some((Punctuator::CloseParen, 1))
    } else if c == '{' {
        Some((Punctuator::OpenBrace, 1))
    } else if c == '}' {
        Some((Punctuator::CloseBrace, 1))
    } else if c == '[' {
        Some((Punctuator::OpenBracket, 1))
    } else if c == ']' {
        Some((Punctuator::CloseBracket, 1))
    } else if c == ',' {
        Some((Punctuator::Comma, 1))
    } else if c == ':' {
        Some((Punctuator::Colon, 1))
    } else if c == ';' {
        Some((Punctuator::Semicolon, 1))
    } else if c == '.' {
        Some((Punctuator::Dot, 1))
    } else if c == '=' && second == Some('>') {
        Some((Punctuator::Arrow, 2))
    } else if c == '=' && second == Some('=') {
        if third == Some('=') {
            Some((Punctuator::StrictEqual, 3))
        } else {
            Some((Punctuator::Equal, 2))
        }
    } else if c == '!' && second == Some('=') {
        if third == Some('=') {
            Some((Punctuator::StrictNotEqual, 3))
        } else {
            Some((Punctuator::NotEqual, 2))
        }
    } else {
        None
    }
}

/// What starts at `pos`: white space, which gives no token, or a token; and
/// the position after it.
pub open spec fn lexeme_at(src: Seq<char>, pos: int) -> Result<(Option<Token>, int), LexError>
    recommends
        0 <= pos < src.len(),
{
    let c = src[pos];
    if is_space(c) {
        Ok((None, pos + 1))
    } else if is_identifier_start(c) {
        let end = identifier_end(src, pos);
        Ok((Some(Token::Identifier(pos as usize, end as usize)), end))
    } else if digit_of(c) is Some {
        let end = digits_end(src, pos);
        let value = decimal_value(src.subrange(pos, end));
        if value <= i32::MAX {
            Ok((Some(Token::Number(value as i32)), end))
        } else {
            Err(LexError::NumberTooLarge(pos as usize))
        }
    } else if c == '\'' || c == '"' {
        let end = text_end(src, pos + 1, c);
        if end < src.len() && src[end] == c {
            Ok((Some(Token::Text((pos + 1) as usize, end as usize)), end + 1))
        } else if end < src.len() && src[end] == '\\' {
            Err(LexError::EscapeSequence(end as usize))
        } else {
            Err(LexError::UnterminatedString(pos as usize))
        }
    } else {
        match punctuator_at(src, pos) {
            Some((p, n)) => Ok((Some(Token::Punctuator(p)), pos + n)),
            None => Err(LexError::UnexpectedCharacter(pos as usize)),
        }
    }
}

/// The tokens of the source from `pos` on.
pub open spec fn tokens_from(src: Seq<char>, pos: int) -> Result<Seq<Token>, LexError>
    decreases src.len() - pos,
{
    if pos < 0 || pos >= src.len() {
        Ok(Seq::empty())
    } else {
        match lexeme_at(src, pos) {
            Err(e) => Err(e),
            Ok((token, next)) => if next <= pos || next > src.len() {
                Ok(Seq::empty())
            } else {
                match (token, tokens_from(src, next)) {
                    (_, Err(e)) => Err(e),
                    (None, Ok(rest)) => Ok(rest),
                    (Some(t), Ok(rest)) => Ok(seq![t] + rest),
                }
            },
        }
    }
}

/// The tokens of a source text.
pub open spec fn tokens_of(src: Seq<char>) -> Result<Seq<Token>, LexError> {
    tokens_from(src, 0)
}

/// `tokens` followed by the tokens of `rest`, or the error of `rest`.
pub open spec fn followed_by(tokens: Seq<Token>, rest: Result<Seq<Token>, LexError>) -> Result<
    Seq<Token>,
    LexError,
> {
    match rest {
        Ok(more) => Ok(tokens + more),
        Err(e) => Err(e),
    }
}

/// The end of a run of identifier characters is within the source.
pub proof fn lemma_identifier_end(src: Seq<char>, pos: int)
    requires
        0 <= pos <= src.len(),
    ensures
        pos <= identifier_end(src, pos) <= src.len(),
        0 <= pos < src.len() && is_identifier_part(src[pos]) ==> pos < identifier_end(src, pos),
    decreases src.len() - pos,
{
    if pos < src.len() && is_identifier_part(src[pos]) {
        lemma_identifier_end(src, pos + 1);
    }
}

/// The end of a run of digits is within the source, and the run is made of
/// digits.
pub proof fn lemma_digits_end(src: Seq<char>, pos: int)
    requires
        0 <= pos <= src.len(),
    ensures
        pos <= digits_end(src, pos) <= src.len(),
        0 <= pos < src.len() && digit_of(src[pos]) is Some ==> pos < digits_end(src, pos),
    decreases src.len() - pos,
{
    if pos < src.len() && digit_of(src[pos]) is Some {
        lemma_digits_end(src, pos + 1);
    }
}

/// The end of the text of a string literal is within the source.
pub proof fn lemma_text_end(src: Seq<char>, pos: int, quote: char)
    requires
        0 <= pos <= src.len(),
    ensures
        pos <= text_end(src, pos, quote) <= src.len(),
    decreases src.len() - pos,
{
    if pos < src.len() && src[pos] != quote && src[pos] != '\\' && src[pos] != '\n' {
        lemma_text_end(src, pos + 1, quote);
    }
}

/// Whether `c` is white space.
pub fn space(c: char) -> (r: bool)
    ensures
        r == is_space(c),
{
    c == ' ' || c == '\n' || c == '\t' || c == '\r'
}

/// Whether an identifier may start with `c`.
pub fn identifier_start(c: char) -> (r: bool)
    ensures
        r == is_identifier_start(c),
{
    ('a' <= c && c <= 'z') || ('A' <= c && c <= 'Z') || c == '_' || c == '$'
}

/// Whether an identifier may go on with `c`.
pub fn identifier_part(c: char) -> (r: bool)
    ensures
        r == is_identifier_part(c),
{
    identifier_start(c) || ('0' <= c && c <= '9')
}

/// The punctuator that starts at `pos`, and its length.
pub fn punctuator(src: &Vec<char>, pos: usize) -> (r: Option<(Punctuator, usize)>)
    requires
        pos < src@.len(),
    ensures
        match r {
            Some((p, n)) => punctuator_at(src@, pos as int) == Some((p, n as int)) && 1 <= n <= 3
                && pos + n <= src@.len(),
            None => punctuator_at(src@, pos as int) is None,
        },
{
    let c = src[pos];
    let n = src.len();
    let second: Option<char> = if pos + 1 < n {
        Some(src[pos + 1])
    } else {
        None
    };
    let third: Option<char> = if pos + 1 < n && pos + 2 < n {
        Some(src[pos + 2])
    } else {
        None
    };
    let second_is_equal = match second {
        Some(x) => x == '=',
        None => false,
    };
    let second_is_greater = match second {
        Some(x) => x == '>',
        None => false,
    };
    let third_is_equal = match third {
        Some(x) => x == '=',
        None => false,
    };
    if c == '(' {
        Some((Punctuator::OpenParen, 1))
    } else if c == ')' {
        Some((Punctuator::CloseParen, 1))
    } else if c == '{' {
        Some((Punctuator::OpenBrace, 1))
    } else if c == '}' {
        Some((Punctuator::CloseBrace, 1))
    } else if c == '[' {
        Some((Punctuator::OpenBracket, 1))
    } else if c == ']' {
        Some((Punctuator::CloseBracket, 1))
    } else if c == ',' {
        Some((Punctuator::Comma, 1))
    } else if c == ':' {
        Some((Punctuator::Colon, 1))
    } else if c == ';' {
        Some((Punctuator::Semicolon, 1))
    } else if c == '.' {
        Some((Punctuator::Dot, 1))
    } else if c == '=' && second_is_greater {
        Some((Punctuator::Arrow, 2))
    } else if c == '=' && second_is_equal {
        if third_is_equal {
            Some((Punctuator::StrictEqual, 3))
        } else {
            Some((Punctuator::Equal, 2))
        }
    } else if c == '!' && second_is_equal {
        if third_is_equal {
            Some((Punctuator::StrictNotEqual, 3))
        } else {
            Some((Punctuator::NotEqual, 2))
        }
    } else {
        None
    }
}

/// What starts at `pos`, as [`lexeme_at`] defines it. The position after it
/// is further on and within the source.
pub fn lexeme(src: &Vec<char>, pos: usize) -> (r: Result<(Option<Token>, usize), LexError>)
    requires
        pos < src@.len(),
    ensures
        match r {
            Ok((token, next)) => lexeme_at(src@, pos as int) == Ok::<
                (Option<Token>, int),
                LexError,
            >((token, next as int)) && pos < next <= src@.len(),
            Err(e) => lexeme_at(src@, pos as int) == Err::<(Option<Token>, int), LexError>(e),
        },
{
    let c = src[pos];
    let n = src.len();
    if space(c) {
        Ok((None, pos + 1))
    } else if identifier_start(c) {
        let mut end = pos;
        while end < n && identifier_part(src[end])
            invariant
                pos <= end <= n,
                n == src@.len(),
                identifier_end(src@, pos as int) == identifier_end(src@, end as int),
            decreases n - end,
        {
            end += 1;
        }
        proof {
            lemma_identifier_end(src@, pos as int);
        }
        Ok((Some(Token::Identifier(pos, end)), end))
    } else if '0' <= c && c <= '9' {
        let mut end = pos;
        let mut value: u64 = 0;
        let mut too_large = false;
        proof {
            assert(src@.subrange(pos as int, pos as int) =~= Seq::<char>::empty());
        }
        while end < n && '0' <= src[end] && src[end] <= '9'
            invariant
                pos <= end <= n,
                n == src@.len(),
                digits_end(src@, pos as int) == digits_end(src@, end as int),
                !too_large ==> value == decimal_value(src@.subrange(pos as int, end as int))
                    && value <= i32::MAX,
                too_large ==> decimal_value(src@.subrange(pos as int, end as int)) > i32::MAX,
            decreases n - end,
        {
            let d: u64 = (src[end] as u8 - 48) as u64;
            proof {
                let before = src@.subrange(pos as int, end as int);
                assert(src@.subrange(pos as int, end + 1) =~= before.push(src@[end as int]));
                lemma_decimal_value_push(before, src@[end as int]);
            }
            if !too_large {
                value = value * 10 + d;
                if value > 0x7fff_ffff {
                    too_large = true;
                }
            }
            end += 1;
        }
        proof {
            lemma_digits_end(src@, pos as int);
        }
        if too_large {
            Err(LexError::NumberTooLarge(pos))
        } else {
            Ok((Some(Token::Number(value as i32)), end))
        }
    } else if c == '\'' || c == '"' {
        let mut end = pos + 1;
        while end < n && src[end] != c && src[end] != '\\' && src[end] != '\n'
            invariant
                pos < end <= n,
                n == src@.len(),
                text_end(src@, pos + 1, c) == text_end(src@, end as int, c),
            decreases n - end,
        {
            end += 1;
        }
        if end < n && src[end] == c {
            Ok((Some(Token::Text(pos + 1, end)), end + 1))
        } else if end < n && src[end] == '\\' {
            Err(LexError::EscapeSequence(end))
        } else {
            Err(LexError::UnterminatedString(pos))
        }
    } else {
        match punctuator(src, pos) {
            Some((p, len)) => Ok((Some(Token::Punctuator(p)), pos + len)),
            None => Err(LexError::UnexpectedCharacter(pos)),
        }
    }
}

/// The tokens of a source text, as [`tokens_of`] defines them.
pub fn lex(src: &Vec<char>) -> (r: Result<Vec<Token>, LexError>)
    ensures
        match r {
            Ok(tokens) => tokens_of(src@) == Ok::<Seq<Token>, LexError>(tokens@),
            Err(e) => tokens_of(src@) == Err::<Seq<Token>, LexError>(e),
        },
{
    let mut tokens: Vec<Token> = Vec::new();
    let mut pos: usize = 0;
    proof {
        match tokens_from(src@, 0) {
            Ok(more) => {
                assert(tokens@ + more =~= more);
            },
            Err(_) => {},
        }
    }
    while pos < src.len()
        invariant
            pos <= src@.len(),
            tokens_of(src@) == followed_by(tokens@, tokens_from(src@, pos as int)),
        decreases src.len() - pos,
    {
        match lexeme(src, pos) {
            Err(e) => {
                return Err(e);
            },
            Ok((token, next)) => {
                let ghost before = tokens@;
                match token {
                    Some(t) => {
                        tokens.push(t);
                        proof {
                            match tokens_from(src@, next as int) {
                                Ok(rest) => {
                                    assert(before + (seq![t] + rest) =~= before.push(t) + rest);
                                },
                                Err(_) => {},
                            }
                        }
                    },
                    None => {},
                }
                pos = next;
            },
        }
    }
    proof {
        assert(tokens@ + Seq::<Token>::empty() =~= tokens@);
    }
    Ok(tokens)
}

/// The message of a lexical error.
pub open spec fn lex_error_text(e: LexError) -> Seq<char> {
    match e {
        LexError::UnexpectedCharacter(p) => "unexpected character at position "@
            + crate::text::decimal(p as nat),
        LexError::UnterminatedString(p) => "unterminated string literal at position "@
            + crate::text::decimal(p as nat),
        LexError::EscapeSequence(p) => "escape sequence in a string literal at position "@
            + crate::text::decimal(p as nat),
        LexError::NumberTooLarge(p) => "integer literal is too large at position "@
            + crate::text::decimal(p as nat),
    }
}

impl LexError {
    /// The message of the error.
    pub fn message(&self) -> (r: String)
        ensures
            r@ == lex_error_text(*self),
    {
        let (mut s, p) = match self {
            LexError::UnexpectedCharacter(p) => ("unexpected character at position ".to_owned(), *p),
            LexError::UnterminatedString(p) => (
                "unterminated string literal at position ".to_owned(),
                *p,
            ),
            LexError::EscapeSequence(p) => (
                "escape sequence in a string literal at position ".to_owned(),
                *p,
            ),
            LexError::NumberTooLarge(p) => ("integer literal is too large at position ".to_owned(), *p),
        };
        push_decimal(&mut s, p as u64);
        s
    }
}

} // verus!
