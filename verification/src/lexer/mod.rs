//! Tokens and the scanner that produces them.
use vstd::prelude::*;

pub mod rules;

use crate::lexer::rules::{
    alphanumeric, char_at, comment_at, decimal_value, lemma_decimal_value_prefix,
    lemma_numerals_fit_cons, lemma_scan_token_at_end, lemma_scan_token_moves, number_at, numeral,
    numeral_fits, numerals_fit, numeric, run_end, scan_all, scan_token, step, stream_cons,
    string_at, whitespace, word_at, CharClass,
};

verus! {

/// One lexical unit of the source text.
#[derive(Debug)]
pub enum Token {
    /// A character that starts no token.
    Illegal,
    /// The end-of-input marker.
    Eof,
    /// A name.
    Identifier(String),
    /// The body of a string literal.
    String(String),
    /// The digits of an integer literal, not yet converted.
    Integer(String),
    /// The text of a line comment.
    Comment(String),
    Assign,
    Cons,
    Plus,
    Ampersand,
    Modulo,
    Minus,
    Asterisk,
    Exponent,
    Comma,
    Colon,
    Semicolon,
    LeftBracket,
    RightBracket,
    Period,
    Range,
    LeftParen,
    LeftBrace,
    RightParen,
    RightBrace,
    Rarrow,
    Lt,
    Gt,
    Fslash,
    Equal,
    Notequal,
    Bang,
    Else,
    Return,
    /// The two characters `<-`.
    In,
    If,
    For,
    Type,
    False,
    True,
    Vbar,
    Pipe,
    /// The keyword `Ok`.
    OkWord,
    /// The keyword `None`.
    NoneWord,
    /// The two characters `()`.
    Unit,
    Error,
    Fn,
    Let,
    Cardinal,
}

/// The mathematical value of a [`Token`]: the same variants, with the text of
/// a token held as a sequence of characters.
pub enum SpecToken {
    Illegal,
    Eof,
    Identifier(Seq<char>),
    String(Seq<char>),
    Integer(Seq<char>),
    Comment(Seq<char>),
    Assign,
    Cons,
    Plus,
    Ampersand,
    Modulo,
    Minus,
    Asterisk,
    Exponent,
    Comma,
    Colon,
    Semicolon,
    LeftBracket,
    RightBracket,
    Period,
    Range,
    LeftParen,
    LeftBrace,
    RightParen,
    RightBrace,
    Rarrow,
    Lt,
    Gt,
    Fslash,
    Equal,
    Notequal,
    Bang,
    Else,
    Return,
    In,
    If,
    For,
    Type,
    False,
    True,
    Vbar,
    Pipe,
    OkWord,
    NoneWord,
    Unit,
    Error,
    Fn,
    Let,
    Cardinal,
}

impl View for Token {
    type V = SpecToken;

    open spec fn view(&self) -> SpecToken {
        match self {
            Token::Illegal => SpecToken::Illegal,
            Token::Eof => SpecToken::Eof,
            Token::Identifier(text) => SpecToken::Identifier(text@),
            Token::String(text) => SpecToken::String(text@),
            Token::Integer(text) => SpecToken::Integer(text@),
            Token::Comment(text) => SpecToken::Comment(text@),
            Token::Assign => SpecToken::Assign,
            Token::Cons => SpecToken::Cons,
            Token::Plus => SpecToken::Plus,
            Token::Ampersand => SpecToken::Ampersand,
            Token::Modulo => SpecToken::Modulo,
            Token::Minus => SpecToken::Minus,
            Token::Asterisk => SpecToken::Asterisk,
            Token::Exponent => SpecToken::Exponent,
            Token::Comma => SpecToken::Comma,
            Token::Colon => SpecToken::Colon,
            Token::Semicolon => SpecToken::Semicolon,
            Token::LeftBracket => SpecToken::LeftBracket,
            Token::RightBracket => SpecToken::RightBracket,
            Token::Period => SpecToken::Period,
            Token::Range => SpecToken::Range,
            Token::LeftParen => SpecToken::LeftParen,
            Token::LeftBrace => SpecToken::LeftBrace,
            Token::RightParen => SpecToken::RightParen,
            Token::RightBrace => SpecToken::RightBrace,
            Token::Rarrow => SpecToken::Rarrow,
            Token::Lt => SpecToken::Lt,
            Token::Gt => SpecToken::Gt,
            Token::Fslash => SpecToken::Fslash,
            Token::Equal => SpecToken::Equal,
            Token::Notequal => SpecToken::Notequal,
            Token::Bang => SpecToken::Bang,
            Token::Else => SpecToken::Else,
            Token::Return => SpecToken::Return,
            Token::In => SpecToken::In,
            Token::If => SpecToken::If,
            Token::For => SpecToken::For,
            Token::Type => SpecToken::Type,
            Token::False => SpecToken::False,
            Token::True => SpecToken::True,
            Token::Vbar => SpecToken::Vbar,
            Token::Pipe => SpecToken::Pipe,
            Token::OkWord => SpecToken::OkWord,
            Token::NoneWord => SpecToken::NoneWord,
            Token::Unit => SpecToken::Unit,
            Token::Error => SpecToken::Error,
            Token::Fn => SpecToken::Fn,
            Token::Let => SpecToken::Let,
            Token::Cardinal => SpecToken::Cardinal,
        }
    }
}

impl DeepView for Token {
    type V = SpecToken;

    open spec fn deep_view(&self) -> SpecToken {
        self@
    }
}

impl Clone for Token {
    fn clone(&self) -> (copy: Token)
        ensures
            copy == *self,
    {
        match self {
            Token::Illegal => Token::Illegal,
            Token::Eof => Token::Eof,
            Token::Identifier(text) => Token::Identifier(text.clone()),
            Token::String(text) => Token::String(text.clone()),
            Token::Integer(text) => Token::Integer(text.clone()),
            Token::Comment(text) => Token::Comment(text.clone()),
            Token::Assign => Token::Assign,
            Token::Cons => Token::Cons,
            Token::Plus => Token::Plus,
            Token::Ampersand => Token::Ampersand,
            Token::Modulo => Token::Modulo,
            Token::Minus => Token::Minus,
            Token::Asterisk => Token::Asterisk,
            Token::Exponent => Token::Exponent,
            Token::Comma => Token::Comma,
            Token::Colon => Token::Colon,
            Token::Semicolon => Token::Semicolon,
            Token::LeftBracket => Token::LeftBracket,
            Token::RightBracket => Token::RightBracket,
            Token::Period => Token::Period,
            Token::Range => Token::Range,
            Token::LeftParen => Token::LeftParen,
            Token::LeftBrace => Token::LeftBrace,
            Token::RightParen => Token::RightParen,
            Token::RightBrace => Token::RightBrace,
            Token::Rarrow => Token::Rarrow,
            Token::Lt => Token::Lt,
            Token::Gt => Token::Gt,
            Token::Fslash => Token::Fslash,
            Token::Equal => Token::Equal,
            Token::Notequal => Token::Notequal,
            Token::Bang => Token::Bang,
            Token::Else => Token::Else,
            Token::Return => Token::Return,
            Token::In => Token::In,
            Token::If => Token::If,
            Token::For => Token::For,
            Token::Type => Token::Type,
            Token::False => Token::False,
            Token::True => Token::True,
            Token::Vbar => Token::Vbar,
            Token::Pipe => Token::Pipe,
            Token::OkWord => Token::OkWord,
            Token::NoneWord => Token::NoneWord,
            Token::Unit => Token::Unit,
            Token::Error => Token::Error,
            Token::Fn => Token::Fn,
            Token::Let => Token::Let,
            Token::Cardinal => Token::Cardinal,
        }
    }
}

impl PartialEq for Token {
    /// Two tokens are equal when they are the same variant and carry the same
    /// text.
    fn eq(&self, other: &Token) -> (equal: bool) {
        match self {
            Token::Illegal => matches!(other, Token::Illegal),
            Token::Eof => matches!(other, Token::Eof),
            Token::Identifier(text) => match other {
                Token::Identifier(other_text) => *text == *other_text,
                _ => false,
            },
            Token::String(text) => match other {
                Token::String(other_text) => *text == *other_text,
                _ => false,
            },
            Token::Integer(text) => match other {
                Token::Integer(other_text) => *text == *other_text,
                _ => false,
            },
            Token::Comment(text) => match other {
                Token::Comment(other_text) => *text == *other_text,
                _ => false,
            },
            Token::Assign => matches!(other, Token::Assign),
            Token::Cons => matches!(other, Token::Cons),
            Token::Plus => matches!(other, Token::Plus),
            Token::Ampersand => matches!(other, Token::Ampersand),
            Token::Modulo => matches!(other, Token::Modulo),
            Token::Minus => matches!(other, Token::Minus),
            Token::Asterisk => matches!(other, Token::Asterisk),
            Token::Exponent => matches!(other, Token::Exponent),
            Token::Comma => matches!(other, Token::Comma),
            Token::Colon => matches!(other, Token::Colon),
            Token::Semicolon => matches!(other, Token::Semicolon),
            Token::LeftBracket => matches!(other, Token::LeftBracket),
            Token::RightBracket => matches!(other, Token::RightBracket),
            Token::Period => matches!(other, Token::Period),
            Token::Range => matches!(other, Token::Range),
            Token::LeftParen => matches!(other, Token::LeftParen),
            Token::LeftBrace => matches!(other, Token::LeftBrace),
            Token::RightParen => matches!(other, Token::RightParen),
            Token::RightBrace => matches!(other, Token::RightBrace),
            Token::Rarrow => matches!(other, Token::Rarrow),
            Token::Lt => matches!(other, Token::Lt),
            Token::Gt => matches!(other, Token::Gt),
            Token::Fslash => matches!(other, Token::Fslash),
            Token::Equal => matches!(other, Token::Equal),
            Token::Notequal => matches!(other, Token::Notequal),
            Token::Bang => matches!(other, Token::Bang),
            Token::Else => matches!(other, Token::Else),
            Token::Return => matches!(other, Token::Return),
            Token::In => matches!(other, Token::In),
            Token::If => matches!(other, Token::If),
            Token::For => matches!(other, Token::For),
            Token::Type => matches!(other, Token::Type),
            Token::False => matches!(other, Token::False),
            Token::True => matches!(other, Token::True),
            Token::Vbar => matches!(other, Token::Vbar),
            Token::Pipe => matches!(other, Token::Pipe),
            Token::OkWord => matches!(other, Token::OkWord),
            Token::NoneWord => matches!(other, Token::NoneWord),
            Token::Unit => matches!(other, Token::Unit),
            Token::Error => matches!(other, Token::Error),
            Token::Fn => matches!(other, Token::Fn),
            Token::Let => matches!(other, Token::Let),
            Token::Cardinal => matches!(other, Token::Cardinal),
        }
    }
}

impl vstd::std_specs::cmp::PartialEqSpecImpl for Token {
    open spec fn obeys_eq_spec() -> bool {
        true
    }

    open spec fn eq_spec(&self, other: &Token) -> bool {
        self@ == other@
    }
}

impl Token {
    /// Whether the token, if it is an integer literal, holds a decimal numeral
    /// whose value a 64-bit signed integer can hold.
    pub fn integer_fits(&self) -> (fit: bool)
        ensures
            fit == numeral_fits(self@),
    {
        match self {
            Token::Integer(digits) => decimal(digits.as_str()).is_some(),
            _ => true,
        }
    }

    /// A token and its value are of the same variant.
    pub proof fn lemma_same_variant(&self)
        ensures
            (self is Illegal) == (self@ is Illegal),
            (self is Eof) == (self@ is Eof),
            (self is Identifier) == (self@ is Identifier),
            (self is String) == (self@ is String),
            (self is Integer) == (self@ is Integer),
            (self is Comment) == (self@ is Comment),
            (self is Assign) == (self@ is Assign),
            (self is Cons) == (self@ is Cons),
            (self is Plus) == (self@ is Plus),
            (self is Ampersand) == (self@ is Ampersand),
            (self is Modulo) == (self@ is Modulo),
            (self is Minus) == (self@ is Minus),
            (self is Asterisk) == (self@ is Asterisk),
            (self is Exponent) == (self@ is Exponent),
            (self is Comma) == (self@ is Comma),
            (self is Colon) == (self@ is Colon),
            (self is Semicolon) == (self@ is Semicolon),
            (self is LeftBracket) == (self@ is LeftBracket),
            (self is RightBracket) == (self@ is RightBracket),
            (self is Period) == (self@ is Period),
            (self is Range) == (self@ is Range),
            (self is LeftParen) == (self@ is LeftParen),
            (self is LeftBrace) == (self@ is LeftBrace),
            (self is RightParen) == (self@ is RightParen),
            (self is RightBrace) == (self@ is RightBrace),
            (self is Rarrow) == (self@ is Rarrow),
            (self is Lt) == (self@ is Lt),
            (self is Gt) == (self@ is Gt),
            (self is Fslash) == (self@ is Fslash),
            (self is Equal) == (self@ is Equal),
            (self is Notequal) == (self@ is Notequal),
            (self is Bang) == (self@ is Bang),
            (self is Else) == (self@ is Else),
            (self is Return) == (self@ is Return),
            (self is In) == (self@ is In),
            (self is If) == (self@ is If),
            (self is For) == (self@ is For),
            (self is Type) == (self@ is Type),
            (self is False) == (self@ is False),
            (self is True) == (self@ is True),
            (self is Vbar) == (self@ is Vbar),
            (self is Pipe) == (self@ is Pipe),
            (self is OkWord) == (self@ is OkWord),
            (self is NoneWord) == (self@ is NoneWord),
            (self is Unit) == (self@ is Unit),
            (self is Error) == (self@ is Error),
            (self is Fn) == (self@ is Fn),
            (self is Let) == (self@ is Let),
            (self is Cardinal) == (self@ is Cardinal),
    {
    }
}

/// Taken on trust of `String::push` of the standard library: it appends the
/// character to the end of the string and changes nothing else.
pub assume_specification[ std::string::String::push ](text: &mut std::string::String, c: char)
    ensures
        final(text)@ == old(text)@.push(c),
;

/// The number that `text` denotes, if it is a decimal numeral whose value a
/// 64-bit signed integer can hold.
pub fn decimal(text: &str) -> (value: Option<i64>)
    ensures
        value == if numeral(text@) && decimal_value(text@) <= i64::MAX {
            Some(decimal_value(text@) as i64)
        } else {
            None
        },
{
    let mut value: i64 = 0;
    let mut empty = true;
    for c in it: text.chars()
        invariant
            it.seq() == text@,
            empty == (it.index() == 0),
            value == decimal_value(text@.take(it.index() as int)),
            forall|i: int| 0 <= i < it.index() ==> numeric(#[trigger] text@[i]),
    {
        let ghost i = it.index() as int;
        if !is_numeric(c) {
            return None;
        }
        proof {
            assert(text@.take(i + 1).drop_last() =~= text@.take(i));
            assert(text@.take(i + 1).last() == c);
        }
        let digit: i64 = (c as u32 - '0' as u32) as i64;
        if value > (i64::MAX - digit) / 10 {
            proof {
                if numeral(text@) {
                    lemma_decimal_value_prefix(text@, i + 1);
                }
            }
            return None;
        }
        value = value * 10 + digit;
        empty = false;
    }
    proof {
        assert(text@.take(text@.len() as int) =~= text@);
    }
    if empty {
        None
    } else {
        Some(value)
    }
}

/// Whether `c` is a space, a tab, a line feed or a carriage return.
pub fn is_whitespace(c: char) -> (yes: bool)
    ensures
        yes == whitespace(c),
{
    c == ' ' || c == '\t' || c == '\n' || c == '\r'
}

/// Whether `c` is a decimal digit.
pub fn is_numeric(c: char) -> (yes: bool)
    ensures
        yes == numeric(c),
{
    '0' <= c && c <= '9'
}

/// Whether `c` is a letter, a digit or an underscore.
pub fn is_alphanumeric(c: char) -> (yes: bool)
    ensures
        yes == alphanumeric(c),
{
    ('a' <= c && c <= 'z') || ('A' <= c && c <= 'Z') || is_numeric(c) || c == '_'
}

/// A scanner over a source text. It holds the text and the position of the
/// next character to read.
#[derive(Debug)]
pub struct Lexer {
    input: Vec<char>,
    cur: usize,
}

impl Lexer {
    #[verifier::type_invariant]
    spec fn in_bounds(&self) -> bool {
        self.cur <= self.input.len()
    }

    /// The source text.
    pub closed spec fn source(&self) -> Seq<char> {
        self.input@
    }

    /// The position of the next character to read, between 0 and the length
    /// of the source.
    pub closed spec fn position(&self) -> int {
        self.cur as int
    }

    /// The tokens that are still to come, up to the last one that is not the
    /// end-of-input marker.
    pub open spec fn tokens(&self) -> Seq<SpecToken> {
        scan_all(self.source(), self.position())
    }

    /// A scanner at the start of `input`.
    pub fn new(input: &str) -> (lexer: Lexer)
        ensures
            lexer.source() == input@,
            lexer.position() == 0,
    {
        let mut chars: Vec<char> = Vec::new();
        for c in it: input.chars()
            invariant
                chars@ == it.seq().take(it.index() as int),
                it.seq() == input@,
        {
            chars.push(c);
        }
        Lexer { input: chars, cur: 0 }
    }

    /// The character at the current position, NUL behind the end.
    fn current(&self) -> (c: char)
        ensures
            c == char_at(self.source(), self.position()),
    {
        if self.cur < self.input.len() {
            self.input[self.cur]
        } else {
            '\0'
        }
    }

    /// The characters of the source from `from` up to `to`, as a string.
    fn text(&self, from: usize, to: usize) -> (text: String)
        requires
            from <= to <= self.source().len(),
        ensures
            text@ == self.source().subrange(from as int, to as int),
    {
        let mut text = String::new();
        let mut i: usize = from;
        while i < to
            invariant
                from <= i <= to <= self.input.len(),
                text@ == self.input@.subrange(from as int, i as int),
            decreases to - i,
        {
            text.push(self.input[i]);
            i += 1;
        }
        text
    }

    /// Whether the characters from `from` up to `to` spell `word`.
    fn spells(&self, from: usize, to: usize, word: &str) -> (yes: bool)
        requires
            from <= to <= self.source().len(),
        ensures
            yes == (self.source().subrange(from as int, to as int) == word@),
    {
        let n = word.unicode_len();
        if to - from != n {
            return false;
        }
        let mut i: usize = 0;
        while i < n
            invariant
                from <= to <= self.input.len(),
                n == to - from,
                n == word@.len(),
                i <= n,
                forall|j: int| 0 <= j < i ==> self.input@[from + j] == word@[j],
            decreases n - i,
        {
            if self.input[from + i] != word.get_char(i) {
                assert(self.input@.subrange(from as int, to as int)[i as int] != word@[i as int]);
                return false;
            }
            i += 1;
        }
        assert(self.input@.subrange(from as int, to as int) =~= word@);
        true
    }

    /// Whether every character of the source has been read.
    pub fn at_end(&self) -> (yes: bool)
        ensures
            yes == (self.position() >= self.source().len()),
            self.position() <= self.source().len(),
    {
        proof {
            use_type_invariant(self);
        }
        self.cur >= self.input.len()
    }

    /// Whether every integer literal among the tokens that are still to come
    /// can be converted. The scanner itself does not move.
    pub fn integers_fit(&self) -> (fit: bool)
        ensures
            fit == numerals_fit(self.tokens()),
    {
        proof {
            use_type_invariant(self);
        }
        let input = self.input.clone();
        assert(input@ =~= self.input@);
        let mut probe = Lexer { input, cur: self.cur };
        while !probe.at_end()
            invariant
                probe.source() == self.source(),
                numerals_fit(self.tokens()) == numerals_fit(probe.tokens()),
            decreases probe.source().len() - probe.position(),
        {
            let ghost before = probe.tokens();
            let token = probe.advance();
            proof {
                lemma_numerals_fit_cons(token@, probe.tokens());
            }
            if !token.integer_fits() {
                return false;
            }
        }
        proof {
            reveal(numerals_fit);
        }
        true
    }

    /// Moves to the next character. At the end of the source nothing changes.
    pub fn read(&mut self)
        ensures
            final(self).source() == old(self).source(),
            final(self).position() == step(old(self).source(), old(self).position()),
    {
        if self.cur < self.input.len() {
            self.cur += 1;
        }
    }

    /// The character behind the current one, NUL where the source has none.
    pub fn peek(&mut self) -> (c: char)
        ensures
            *final(self) == *old(self),
            c == char_at(old(self).source(), old(self).position() + 1),
    {
        proof {
            use_type_invariant(&*self);
        }
        if self.cur < self.input.len() && self.cur + 1 < self.input.len() {
            self.input[self.cur + 1]
        } else {
            '\0'
        }
    }

    /// Moves past the maximal run of characters of `class` that starts at the
    /// current position, and returns where it ends.
    fn skip(&mut self, class: CharClass) -> (end: usize)
        ensures
            final(self).source() == old(self).source(),
            final(self).position() == end,
            end == run_end(old(self).source(), old(self).position(), class),
            old(self).position() <= end <= old(self).source().len(),
    {
        proof {
            use_type_invariant(&*self);
        }
        while self.cur < self.input.len() && class.has(self.input[self.cur])
            invariant
                self.input@ == old(self).input@,
                old(self).cur <= self.cur <= self.input.len(),
                run_end(self.input@, self.cur as int, class) == run_end(
                    old(self).input@,
                    old(self).cur as int,
                    class,
                ),
            decreases self.input.len() - self.cur,
        {
            self.cur += 1;
        }
        self.cur
    }

    /// Reads a string literal whose opening quote stands at the current
    /// position. The body runs as far as letters, digits, underscores and
    /// whitespace go; the character behind it is skipped as the closing quote.
    pub fn read_string(&mut self) -> (token: Token)
        ensures
            final(self).source() == old(self).source(),
            (token@, final(self).position()) == string_at(
                old(self).source(),
                old(self).position(),
            ),
    {
        proof {
            use_type_invariant(&*self);
        }
        self.read();
        let start = self.cur;
        let end = self.skip(CharClass::StringBody);
        self.read();
        Token::String(self.text(start, end))
    }

    /// Reads the integer literal that starts at the current position: the
    /// maximal run of digits, kept as text.
    pub fn read_number(&mut self) -> (token: Token)
        ensures
            final(self).source() == old(self).source(),
            (token@, final(self).position()) == number_at(
                old(self).source(),
                old(self).position(),
            ),
    {
        let start = self.cur;
        let end = self.skip(CharClass::Numeric);
        Token::Integer(self.text(start, end))
    }

    /// Reads the text of a comment from the current position: the maximal run
    /// of letters, digits, underscores, spaces and tabs.
    pub fn read_comment(&mut self) -> (token: Token)
        ensures
            final(self).source() == old(self).source(),
            (token@, final(self).position()) == comment_at(
                old(self).source(),
                old(self).position(),
            ),
    {
        let start = self.cur;
        let end = self.skip(CharClass::CommentBody);
        Token::Comment(self.text(start, end))
    }

    /// Reads the word that starts at the current position, the maximal run of
    /// letters, digits and underscores, and tells a keyword from an identifier.
    pub fn read_identifier(&mut self) -> (token: Token)
        ensures
            final(self).source() == old(self).source(),
            (token@, final(self).position()) == word_at(
                old(self).source(),
                old(self).position(),
            ),
    {
        let start = self.cur;
        let end = self.skip(CharClass::Word);
        if self.spells(start, end, "fn") {
            Token::Fn
        } else if self.spells(start, end, "let") {
            Token::Let
        } else if self.spells(start, end, "return") {
            Token::Return
        } else if self.spells(start, end, "else") {
            Token::Else
        } else if self.spells(start, end, "if") {
            Token::If
        } else if self.spells(start, end, "for") {
            Token::For
        } else if self.spells(start, end, "type") {
            Token::Type
        } else if self.spells(start, end, "true") {
            Token::True
        } else if self.spells(start, end, "false") {
            Token::False
        } else if self.spells(start, end, "Ok") {
            Token::OkWord
        } else if self.spells(start, end, "None") {
            Token::NoneWord
        } else if self.spells(start, end, "Error") {
            Token::Error
        } else {
            Token::Identifier(self.text(start, end))
        }
    }

    /// Skips whitespace, reads the token that starts at the current position
    /// and leaves the position behind it. At the end of the source it returns
    /// the end-of-input marker, however often it is called.
    pub fn advance(&mut self) -> (token: Token)
        ensures
            final(self).source() == old(self).source(),
            (token@, final(self).position()) == scan_token(
                old(self).source(),
                old(self).position(),
            ),
            old(self).tokens() == stream_cons(token@, final(self).tokens()),
            0 <= old(self).position() <= final(self).position() <= final(self).source().len(),
            old(self).position() < old(self).source().len() ==> old(self).position()
                < final(self).position(),
    {
        proof {
            use_type_invariant(&*self);
            if 0 <= old(self).position() < old(self).source().len() {
                lemma_scan_token_moves(old(self).source(), old(self).position());
            } else {
                lemma_scan_token_at_end(old(self).source(), old(self).position());
            }
        }
        self.skip(CharClass::Whitespace);
        let token: Token = match self.current() {
            '=' => {
                if self.peek() == '=' {
                    self.read();
                    Token::Equal
                } else {
                    Token::Assign
                }
            },
            ';' => Token::Semicolon,
            '(' => {
                if self.peek() == ')' {
                    self.read();
                    Token::Unit
                } else {
                    Token::LeftParen
                }
            },
            ')' => Token::RightParen,
            ',' => Token::Comma,
            '+' => Token::Plus,
            '-' => {
                if self.peek() == '>' {
                    self.read();
                    Token::Rarrow
                } else {
                    Token::Minus
                }
            },
            '!' => {
                if self.peek() == '=' {
                    self.read();
                    Token::Notequal
                } else {
                    Token::Bang
                }
            },
            ':' => {
                if self.peek() == ':' {
                    self.read();
                    Token::Cons
                } else {
                    Token::Colon
                }
            },
            '.' => {
                if self.peek() == '.' {
                    self.read();
                    Token::Range
                } else {
                    Token::Period
                }
            },
            '|' => {
                if self.peek() == '>' {
                    self.read();
                    Token::Pipe
                } else {
                    Token::Vbar
                }
            },
            '<' => {
                if self.peek() == '-' {
                    self.read();
                    Token::In
                } else {
                    Token::Lt
                }
            },
            '/' => {
                if self.peek() == '/' {
                    self.read();
                    self.read();
                    let comment = self.read_comment();
                    return comment;
                } else {
                    Token::Fslash
                }
            },
            '[' => Token::LeftBracket,
            ']' => Token::RightBracket,
            '*' => {
                if self.peek() == '*' {
                    self.read();
                    Token::Exponent
                } else {
                    Token::Asterisk
                }
            },
            '&' => Token::Ampersand,
            '#' => Token::Cardinal,
            '%' => Token::Modulo,
            '>' => Token::Gt,
            '{' => Token::LeftBrace,
            '}' => Token::RightBrace,
            '"' => return self.read_string(),
            '0'..='9' => return self.read_number(),
            'a'..='z' | 'A'..='Z' => return self.read_identifier(),
            '\0' => Token::Eof,
            _ => Token::Illegal,
        };

        self.read();
        token
    }
}

impl CharClass {
    /// Whether `c` belongs to the class.
    fn has(self, c: char) -> (yes: bool)
        ensures
            yes == self.holds(c),
    {
        match self {
            CharClass::Whitespace => is_whitespace(c),
            CharClass::Numeric => is_numeric(c),
            CharClass::Word => is_alphanumeric(c),
            CharClass::StringBody => is_alphanumeric(c) || is_whitespace(c),
            CharClass::CommentBody => is_alphanumeric(c) || c == ' ' || c == '\t',
        }
    }
}

} // verus!
