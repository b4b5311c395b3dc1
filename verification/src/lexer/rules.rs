//! The lexical rules, stated over sequences of characters.
//!
//! A scan step skips whitespace and then reads one token. Every rule is a
//! function of the source text and a position in it; the scanner in the parent
//! module is proved to compute exactly these functions.
use vstd::prelude::*;

use crate::lexer::SpecToken;

verus! {

/// Space, tab, line feed and carriage return.
pub open spec fn whitespace(c: char) -> bool {
    c == ' ' || c == '\t' || c == '\n' || c == '\r'
}

/// The decimal digits.
pub open spec fn numeric(c: char) -> bool {
    '0' <= c <= '9'
}

/// The unaccented Latin letters.
pub open spec fn letter(c: char) -> bool {
    ('a' <= c <= 'z') || ('A' <= c <= 'Z')
}

/// Letters, digits and the underscore.
pub open spec fn alphanumeric(c: char) -> bool {
    letter(c) || numeric(c) || c == '_'
}

/// The classes of characters of which the scanner reads maximal runs.
#[derive(Clone, Copy)]
pub enum CharClass {
    /// Characters skipped between tokens.
    Whitespace,
    /// Characters of an integer literal.
    Numeric,
    /// Characters of an identifier or keyword.
    Word,
    /// Characters of the body of a string literal.
    StringBody,
    /// Characters of the text of a comment.
    CommentBody,
}

impl CharClass {
    /// Whether `c` belongs to the class.
    pub open spec fn holds(self, c: char) -> bool {
        match self {
            CharClass::Whitespace => whitespace(c),
            CharClass::Numeric => numeric(c),
            CharClass::Word => alphanumeric(c),
            CharClass::StringBody => alphanumeric(c) || whitespace(c),
            CharClass::CommentBody => alphanumeric(c) || c == ' ' || c == '\t',
        }
    }
}

/// The character at position `i`, and NUL at every position outside the text.
pub open spec fn char_at(s: Seq<char>, i: int) -> char {
    if 0 <= i < s.len() {
        s[i]
    } else {
        '\0'
    }
}

/// The position after the character at `i`; the end of the text is never
/// passed.
pub open spec fn step(s: Seq<char>, i: int) -> int {
    if i < s.len() {
        i + 1
    } else {
        i
    }
}

/// The end of the maximal run of characters of `class` that starts at `from`:
/// the first position at or after `from` that holds no character of the class.
pub open spec fn run_end(s: Seq<char>, from: int, class: CharClass) -> int
    decreases s.len() - from,
{
    if 0 <= from < s.len() && class.holds(s[from]) {
        run_end(s, from + 1, class)
    } else {
        from
    }
}

/// The keyword spelled by `word`, if it is one.
pub open spec fn keyword(word: Seq<char>) -> Option<SpecToken> {
    if word == "fn"@ {
        Some(SpecToken::Fn)
    } else if word == "let"@ {
        Some(SpecToken::Let)
    } else if word == "return"@ {
        Some(SpecToken::Return)
    } else if word == "else"@ {
        Some(SpecToken::Else)
    } else if word == "if"@ {
        Some(SpecToken::If)
    } else if word == "for"@ {
        Some(SpecToken::For)
    } else if word == "type"@ {
        Some(SpecToken::Type)
    } else if word == "true"@ {
        Some(SpecToken::True)
    } else if word == "false"@ {
        Some(SpecToken::False)
    } else if word == "Ok"@ {
        Some(SpecToken::OkWord)
    } else if word == "None"@ {
        Some(SpecToken::NoneWord)
    } else if word == "Error"@ {
        Some(SpecToken::Error)
    } else {
        None
    }
}

/// The operator or delimiter that starts with the character `c`, given the
/// character `d` that follows it, together with the number of characters it
/// takes. Two slashes start a comment and are no operator.
pub open spec fn symbol(c: char, d: char) -> Option<(SpecToken, int)> {
    if c == '=' {
        Some(if d == '=' { (SpecToken::Equal, 2) } else { (SpecToken::Assign, 1) })
    } else if c == ';' {
        Some((SpecToken::Semicolon, 1))
    } else if c == '(' {
        Some(if d == ')' { (SpecToken::Unit, 2) } else { (SpecToken::LeftParen, 1) })
    } else if c == ')' {
        Some((SpecToken::RightParen, 1))
    } else if c == ',' {
        Some((SpecToken::Comma, 1))
    } else if c == '+' {
        Some((SpecToken::Plus, 1))
    } else if c == '-' {
        Some(if d == '>' { (SpecToken::Rarrow, 2) } else { (SpecToken::Minus, 1) })
    } else if c == '!' {
        Some(if d == '=' { (SpecToken::Notequal, 2) } else { (SpecToken::Bang, 1) })
    } else if c == ':' {
        Some(if d == ':' { (SpecToken::Cons, 2) } else { (SpecToken::Colon, 1) })
    } else if c == '.' {
        Some(if d == '.' { (SpecToken::Range, 2) } else { (SpecToken::Period, 1) })
    } else if c == '|' {
        Some(if d == '>' { (SpecToken::Pipe, 2) } else { (SpecToken::Vbar, 1) })
    } else if c == '<' {
        Some(if d == '-' { (SpecToken::In, 2) } else { (SpecToken::Lt, 1) })
    } else if c == '/' && d != '/' {
        Some((SpecToken::Fslash, 1))
    } else if c == '[' {
        Some((SpecToken::LeftBracket, 1))
    } else if c == ']' {
        Some((SpecToken::RightBracket, 1))
    } else if c == '*' {
        Some(if d == '*' { (SpecToken::Exponent, 2) } else { (SpecToken::Asterisk, 1) })
    } else if c == '&' {
        Some((SpecToken::Ampersand, 1))
    } else if c == '#' {
        Some((SpecToken::Cardinal, 1))
    } else if c == '%' {
        Some((SpecToken::Modulo, 1))
    } else if c == '>' {
        Some((SpecToken::Gt, 1))
    } else if c == '{' {
        Some((SpecToken::LeftBrace, 1))
    } else if c == '}' {
        Some((SpecToken::RightBrace, 1))
    } else {
        None
    }
}

/// The characters that spell a keyword, an operator or a delimiter. Tokens
/// that carry their own text, the illegal token and the end-of-input marker
/// have no fixed spelling.
pub open spec fn spelling(token: SpecToken) -> Option<Seq<char>> {
    match token {
        SpecToken::Assign => Some("="@),
        SpecToken::Cons => Some("::"@),
        SpecToken::Plus => Some("+"@),
        SpecToken::Ampersand => Some("&"@),
        SpecToken::Modulo => Some("%"@),
        SpecToken::Minus => Some("-"@),
        SpecToken::Asterisk => Some("*"@),
        SpecToken::Exponent => Some("**"@),
        SpecToken::Comma => Some(","@),
        SpecToken::Colon => Some(":"@),
        SpecToken::Semicolon => Some(";"@),
        SpecToken::LeftBracket => Some("["@),
        SpecToken::RightBracket => Some("]"@),
        SpecToken::Period => Some("."@),
        SpecToken::Range => Some(".."@),
        SpecToken::LeftParen => Some("("@),
        SpecToken::LeftBrace => Some("{"@),
        SpecToken::RightParen => Some(")"@),
        SpecToken::RightBrace => Some("}"@),
        SpecToken::Rarrow => Some("->"@),
        SpecToken::Lt => Some("<"@),
        SpecToken::Gt => Some(">"@),
        SpecToken::Fslash => Some("/"@),
        SpecToken::Equal => Some("=="@),
        SpecToken::Notequal => Some("!="@),
        SpecToken::Bang => Some("!"@),
        SpecToken::Else => Some("else"@),
        SpecToken::Return => Some("return"@),
        SpecToken::In => Some("<-"@),
        SpecToken::If => Some("if"@),
        SpecToken::For => Some("for"@),
        SpecToken::Type => Some("type"@),
        SpecToken::False => Some("false"@),
        SpecToken::True => Some("true"@),
        SpecToken::Vbar => Some("|"@),
        SpecToken::Pipe => Some("|>"@),
        SpecToken::OkWord => Some("Ok"@),
        SpecToken::NoneWord => Some("None"@),
        SpecToken::Unit => Some("()"@),
        SpecToken::Error => Some("Error"@),
        SpecToken::Fn => Some("fn"@),
        SpecToken::Let => Some("let"@),
        SpecToken::Cardinal => Some("#"@),
        _ => None,
    }
}

/// The integer literal whose first digit stands at `pos`, and the position
/// after its last digit.
pub open spec fn number_at(s: Seq<char>, pos: int) -> (SpecToken, int) {
    let end = run_end(s, pos, CharClass::Numeric);
    (SpecToken::Integer(s.subrange(pos, end)), end)
}

/// The comment whose text starts at `pos`, and the position after the text.
pub open spec fn comment_at(s: Seq<char>, pos: int) -> (SpecToken, int) {
    let end = run_end(s, pos, CharClass::CommentBody);
    (SpecToken::Comment(s.subrange(pos, end)), end)
}

/// The keyword or identifier that starts at `pos`, and the position after it.
pub open spec fn word_at(s: Seq<char>, pos: int) -> (SpecToken, int) {
    let end = run_end(s, pos, CharClass::Word);
    let word = s.subrange(pos, end);
    (
        match keyword(word) {
            Some(token) => token,
            None => SpecToken::Identifier(word),
        },
        end,
    )
}

/// The string literal whose opening quote stands at `pos`, and the position
/// after it. The body is the run of string characters behind the quote; the
/// one character behind the body is taken for the closing quote, whatever it
/// is.
pub open spec fn string_at(s: Seq<char>, pos: int) -> (SpecToken, int) {
    let body = step(s, pos);
    let end = run_end(s, body, CharClass::StringBody);
    (SpecToken::String(s.subrange(body, end)), step(s, end))
}

/// One scan step from `pos`: the next token and the position after it.
///
/// Whitespace is skipped first. Behind the end of the text, and at a NUL
/// character, stands the end-of-input marker.
pub open spec fn scan_token(s: Seq<char>, pos: int) -> (SpecToken, int) {
    let start = run_end(s, pos, CharClass::Whitespace);
    let c = char_at(s, start);
    let d = char_at(s, start + 1);
    if c == '/' && d == '/' {
        comment_at(s, start + 2)
    } else if c == '"' {
        string_at(s, start)
    } else if numeric(c) {
        number_at(s, start)
    } else if letter(c) {
        word_at(s, start)
    } else if c == '\0' {
        (SpecToken::Eof, step(s, start))
    } else {
        match symbol(c, d) {
            Some((token, width)) => (token, start + width),
            None => (SpecToken::Illegal, start + 1),
        }
    }
}

/// Puts `head` in front of the token stream `tail`. A stream never ends in an
/// end-of-input marker: behind its last token every token is that marker.
pub open spec fn stream_cons(head: SpecToken, tail: Seq<SpecToken>) -> Seq<SpecToken> {
    if head == SpecToken::Eof && tail.len() == 0 {
        Seq::empty()
    } else {
        seq![head] + tail
    }
}

/// The token stream that scanning `s` from `pos` yields, up to the last token
/// that is not the end-of-input marker.
pub open spec fn scan_all(s: Seq<char>, pos: int) -> Seq<SpecToken>
    decreases s.len() - pos,
    via scan_all_decreases
{
    if 0 <= pos < s.len() {
        let (token, next) = scan_token(s, pos);
        stream_cons(token, scan_all(s, next))
    } else {
        Seq::empty()
    }
}

#[via_fn]
proof fn scan_all_decreases(s: Seq<char>, pos: int) {
    if 0 <= pos < s.len() {
        lemma_scan_token_moves(s, pos);
    }
}

/// Whether `digits` is a decimal numeral: at least one character, all digits.
pub open spec fn numeral(digits: Seq<char>) -> bool {
    digits.len() > 0 && forall|i: int| 0 <= i < digits.len() ==> numeric(#[trigger] digits[i])
}

/// The number that a decimal numeral denotes.
pub open spec fn decimal_value(digits: Seq<char>) -> nat
    decreases digits.len(),
{
    if digits.len() == 0 {
        0
    } else {
        (decimal_value(digits.drop_last()) * 10 + (digits.last() as int - '0' as int)) as nat
    }
}

/// Whether the token, if it is an integer literal, is a decimal numeral whose
/// value a 64-bit signed integer can hold.
pub open spec fn numeral_fits(token: SpecToken) -> bool {
    token matches SpecToken::Integer(digits) ==> numeral(digits) && decimal_value(digits)
        <= i64::MAX
}

/// Whether every integer literal of the stream can be converted.
#[verifier::opaque]
pub open spec fn numerals_fit(s: Seq<SpecToken>) -> bool {
    forall|i: int| 0 <= i < s.len() ==> numeral_fits(#[trigger] s[i])
}

/// The value of a numeral is at least the value of each of its prefixes.
pub proof fn lemma_decimal_value_prefix(digits: Seq<char>, n: int)
    requires
        forall|i: int| 0 <= i < digits.len() ==> numeric(#[trigger] digits[i]),
        0 <= n <= digits.len(),
    ensures
        decimal_value(digits.take(n)) <= decimal_value(digits),
    decreases digits.len() - n,
{
    if n < digits.len() {
        assert(digits.take(n + 1).drop_last() =~= digits.take(n));
        assert(numeric(digits[n]));
        assert(digits.take(n + 1).last() == digits[n]);
        lemma_decimal_value_prefix(digits, n + 1);
    } else {
        assert(digits.take(n) =~= digits);
    }
}

/// The integer literals of a stream fit when those of its first token and of
/// the rest do.
pub proof fn lemma_numerals_fit_cons(head: SpecToken, tail: Seq<SpecToken>)
    ensures
        numerals_fit(stream_cons(head, tail)) == (numeral_fits(head) && numerals_fit(tail)),
{
    reveal(numerals_fit);
    let s = stream_cons(head, tail);
    if head == SpecToken::Eof && tail.len() == 0 {
    } else {
        if numerals_fit(s) {
            assert(s[0] == head);
            assert forall|i: int| 0 <= i < tail.len() implies numeral_fits(#[trigger] tail[i]) by {
                assert(s[i + 1] == tail[i]);
            }
        }
        if numeral_fits(head) && numerals_fit(tail) {
            assert forall|i: int| 0 <= i < s.len() implies numeral_fits(#[trigger] s[i]) by {
                if i > 0 {
                    assert(s[i] == tail[i - 1]);
                }
            }
        }
    }
}

/// A run ends at or after its start, and inside the text if it starts there.
pub proof fn lemma_run_end_bounds(s: Seq<char>, from: int, class: CharClass)
    ensures
        from <= run_end(s, from, class),
        from <= s.len() ==> run_end(s, from, class) <= s.len(),
        !class.holds(char_at(s, run_end(s, from, class))),
    decreases s.len() - from,
{
    if 0 <= from < s.len() && class.holds(s[from]) {
        lemma_run_end_bounds(s, from + 1, class);
    }
}

/// A scan step inside the text consumes at least one character and stays
/// inside the text.
pub proof fn lemma_scan_token_moves(s: Seq<char>, pos: int)
    requires
        0 <= pos < s.len(),
    ensures
        pos < scan_token(s, pos).1 <= s.len(),
{
    let start = run_end(s, pos, CharClass::Whitespace);
    lemma_run_end_bounds(s, pos, CharClass::Whitespace);
    lemma_run_end_bounds(s, start + 2, CharClass::CommentBody);
    lemma_run_end_bounds(s, step(s, start), CharClass::StringBody);
    lemma_run_end_bounds(s, start + 1, CharClass::Numeric);
    lemma_run_end_bounds(s, start + 1, CharClass::Word);
}

/// At the end of the text a scan step yields the end-of-input marker and
/// stays where it is.
pub proof fn lemma_scan_token_at_end(s: Seq<char>, pos: int)
    ensures
        pos >= s.len() ==> scan_token(s, pos) == (SpecToken::Eof, pos),
{
}

} // verus!
