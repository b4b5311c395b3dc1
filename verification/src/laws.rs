//! What holds of scanning and parsing as a whole.
use vstd::prelude::*;

use crate::ast::{SpecExpression, SpecLiteral, SpecStatement};
use crate::lexer::rules::{
    decimal_value, keyword, lemma_run_end_bounds, lemma_scan_token_moves, letter, run_end, scan_all, scan_token,
    spelling, whitespace, CharClass,
};
use crate::lexer::SpecToken;
use crate::parser::grammar::{
    continuation, expression, grouped, infix_operator, operand, precedence_of, program,
};
use crate::parser::stream::{after, group_stream};
use crate::parser::stream::token_at;
use crate::parser::unfold::{
    lemma_continuation, lemma_expression, lemma_grouped, lemma_infix_operation, lemma_operand,
    lemma_program,
};
use crate::parser::Precendence;

verus! {

/// Makes the characters of the fixed spellings known.
proof fn lemma_spellings()
    ensures
        "="@ =~= seq!['='],
        "::"@ =~= seq![':', ':'],
        "+"@ =~= seq!['+'],
        "&"@ =~= seq!['&'],
        "%"@ =~= seq!['%'],
        "-"@ =~= seq!['-'],
        "*"@ =~= seq!['*'],
        "**"@ =~= seq!['*', '*'],
        ","@ =~= seq![','],
        ":"@ =~= seq![':'],
        ";"@ =~= seq![';'],
        "["@ =~= seq!['['],
        "]"@ =~= seq![']'],
        "."@ =~= seq!['.'],
        ".."@ =~= seq!['.', '.'],
        "("@ =~= seq!['('],
        "{"@ =~= seq!['{'],
        ")"@ =~= seq![')'],
        "}"@ =~= seq!['}'],
        "->"@ =~= seq!['-', '>'],
        "<"@ =~= seq!['<'],
        ">"@ =~= seq!['>'],
        "/"@ =~= seq!['/'],
        "=="@ =~= seq!['=', '='],
        "!="@ =~= seq!['!', '='],
        "!"@ =~= seq!['!'],
        "else"@ =~= seq!['e', 'l', 's', 'e'],
        "return"@ =~= seq!['r', 'e', 't', 'u', 'r', 'n'],
        "<-"@ =~= seq!['<', '-'],
        "if"@ =~= seq!['i', 'f'],
        "for"@ =~= seq!['f', 'o', 'r'],
        "type"@ =~= seq!['t', 'y', 'p', 'e'],
        "false"@ =~= seq!['f', 'a', 'l', 's', 'e'],
        "true"@ =~= seq!['t', 'r', 'u', 'e'],
        "|"@ =~= seq!['|'],
        "|>"@ =~= seq!['|', '>'],
        "Ok"@ =~= seq!['O', 'k'],
        "None"@ =~= seq!['N', 'o', 'n', 'e'],
        "()"@ =~= seq!['(', ')'],
        "Error"@ =~= seq!['E', 'r', 'r', 'o', 'r'],
        "fn"@ =~= seq!['f', 'n'],
        "let"@ =~= seq!['l', 'e', 't'],
        "#"@ =~= seq!['#'],
{
    reveal_strlit("=");
    reveal_strlit("::");
    reveal_strlit("+");
    reveal_strlit("&");
    reveal_strlit("%");
    reveal_strlit("-");
    reveal_strlit("*");
    reveal_strlit("**");
    reveal_strlit(",");
    reveal_strlit(":");
    reveal_strlit(";");
    reveal_strlit("[");
    reveal_strlit("]");
    reveal_strlit(".");
    reveal_strlit("..");
    reveal_strlit("(");
    reveal_strlit("{");
    reveal_strlit(")");
    reveal_strlit("}");
    reveal_strlit("->");
    reveal_strlit("<");
    reveal_strlit(">");
    reveal_strlit("/");
    reveal_strlit("==");
    reveal_strlit("!=");
    reveal_strlit("!");
    reveal_strlit("else");
    reveal_strlit("return");
    reveal_strlit("<-");
    reveal_strlit("if");
    reveal_strlit("for");
    reveal_strlit("type");
    reveal_strlit("false");
    reveal_strlit("true");
    reveal_strlit("|");
    reveal_strlit("|>");
    reveal_strlit("Ok");
    reveal_strlit("None");
    reveal_strlit("()");
    reveal_strlit("Error");
    reveal_strlit("fn");
    reveal_strlit("let");
    reveal_strlit("#");
}

/// A keyword, an operator or a delimiter is scanned from exactly the
/// characters that spell it: behind the whitespace that a scan step skips,
/// the characters up to the position where the step ends are the spelling of
/// the token that it yields.
pub proof fn lemma_scan_reads_spelling(s: Seq<char>, pos: int)
    requires
        0 <= pos,
    ensures
        spelling(scan_token(s, pos).0) matches Some(text) ==> {
            let start = run_end(s, pos, CharClass::Whitespace);
            let end = scan_token(s, pos).1;
            &&& pos <= start <= end <= s.len()
            &&& s.subrange(start, end) == text
        },
{
    let start = run_end(s, pos, CharClass::Whitespace);
    let (token, end) = scan_token(s, pos);
    lemma_run_end_bounds(s, pos, CharClass::Whitespace);
    lemma_run_end_bounds(s, start, CharClass::Word);
    lemma_spellings();
    if spelling(token) is Some {
        let text = spelling(token)->0;
        assert(s.subrange(start, end) =~= text);
    }
}

/// Makes the characters of the keywords known.
proof fn lemma_keywords()
    ensures
        "else"@ =~= seq!['e', 'l', 's', 'e'],
        "return"@ =~= seq!['r', 'e', 't', 'u', 'r', 'n'],
        "if"@ =~= seq!['i', 'f'],
        "for"@ =~= seq!['f', 'o', 'r'],
        "type"@ =~= seq!['t', 'y', 'p', 'e'],
        "false"@ =~= seq!['f', 'a', 'l', 's', 'e'],
        "true"@ =~= seq!['t', 'r', 'u', 'e'],
        "Ok"@ =~= seq!['O', 'k'],
        "None"@ =~= seq!['N', 'o', 'n', 'e'],
        "Error"@ =~= seq!['E', 'r', 'r', 'o', 'r'],
        "fn"@ =~= seq!['f', 'n'],
        "let"@ =~= seq!['l', 'e', 't'],
{
    reveal_strlit("else");
    reveal_strlit("return");
    reveal_strlit("if");
    reveal_strlit("for");
    reveal_strlit("type");
    reveal_strlit("false");
    reveal_strlit("true");
    reveal_strlit("Ok");
    reveal_strlit("None");
    reveal_strlit("Error");
    reveal_strlit("fn");
    reveal_strlit("let");
}

/// The spelling of an operator or a delimiter is scanned as that token.
proof fn lemma_symbol_scans(token: SpecToken)
    requires
        spelling(token) is Some,
        !letter(spelling(token)->0[0]),
    ensures
        scan_token(spelling(token)->0, 0) == (token, spelling(token)->0.len() as int),
{
    lemma_spellings();
}

/// The spelling of a keyword is scanned as that keyword.
proof fn lemma_keyword_scans(token: SpecToken)
    requires
        spelling(token) is Some,
        letter(spelling(token)->0[0]),
    ensures
        scan_token(spelling(token)->0, 0) == (token, spelling(token)->0.len() as int),
{
    let text = spelling(token)->0;
    lemma_spellings();
    assert(keyword(text) == Some(token)) by {
        lemma_keywords();
    }
    assert(run_end(text, 0, CharClass::Whitespace) == 0);
    assert(run_end(text, 0, CharClass::Word) == text.len()) by {
        lemma_keywords();
        reveal_with_fuel(run_end, 8);
    }
    assert(text.subrange(0, text.len() as int) =~= text);
}

/// The spelling of a keyword, an operator or a delimiter is scanned as that
/// token, and the scan step reads all of it.
pub proof fn lemma_spelling_scans(token: SpecToken)
    requires
        spelling(token) is Some,
    ensures
        scan_token(spelling(token)->0, 0) == (token, spelling(token)->0.len() as int),
{
    if letter(spelling(token)->0[0]) {
        lemma_keyword_scans(token);
    } else {
        lemma_symbol_scans(token);
    }
}

/// The characters of a text that are no whitespace, in their order.
pub open spec fn without_whitespace(text: Seq<char>) -> Seq<char>
    decreases text.len(),
{
    if text.len() == 0 {
        text
    } else if whitespace(text[0]) {
        without_whitespace(text.drop_first())
    } else {
        seq![text[0]] + without_whitespace(text.drop_first())
    }
}

/// The spellings of the tokens, one behind the other. A token without a
/// fixed spelling adds nothing.
pub open spec fn spelled(tokens: Seq<SpecToken>) -> Seq<char>
    decreases tokens.len(),
{
    if tokens.len() == 0 {
        Seq::empty()
    } else {
        match spelling(tokens[0]) {
            Some(text) => text + spelled(tokens.drop_first()),
            None => spelled(tokens.drop_first()),
        }
    }
}

/// Whether every token is a keyword, an operator or a delimiter.
pub open spec fn all_spelled(tokens: Seq<SpecToken>) -> bool {
    forall|i: int| 0 <= i < tokens.len() ==> spelling(#[trigger] tokens[i]) is Some
}

/// The characters of two texts that are no whitespace are those of the first
/// and then those of the second.
proof fn lemma_without_whitespace_add(first: Seq<char>, second: Seq<char>)
    ensures
        without_whitespace(first + second) == without_whitespace(first) + without_whitespace(
            second,
        ),
    decreases first.len(),
{
    if first.len() == 0 {
        assert(first + second =~= second);
        assert(without_whitespace(first) + without_whitespace(second) =~= without_whitespace(
            second,
        ));
    } else {
        assert((first + second).drop_first() =~= first.drop_first() + second);
        lemma_without_whitespace_add(first.drop_first(), second);
        assert(seq![first[0]] + (without_whitespace(first.drop_first()) + without_whitespace(
            second,
        )) =~= (seq![first[0]] + without_whitespace(first.drop_first())) + without_whitespace(
            second,
        ));
    }
}

/// A text of whitespace holds no other character.
proof fn lemma_without_whitespace_blank(text: Seq<char>)
    requires
        forall|i: int| 0 <= i < text.len() ==> whitespace(#[trigger] text[i]),
    ensures
        without_whitespace(text) == Seq::<char>::empty(),
    decreases text.len(),
{
    if text.len() > 0 {
        assert(whitespace(text[0]));
        assert forall|i: int| 0 <= i < text.drop_first().len() implies whitespace(
            #[trigger] text.drop_first()[i],
        ) by {
            assert(text.drop_first()[i] == text[i + 1]);
        }
        lemma_without_whitespace_blank(text.drop_first());
    }
}

/// A text without whitespace holds all of its characters.
proof fn lemma_without_whitespace_solid(text: Seq<char>)
    requires
        forall|i: int| 0 <= i < text.len() ==> !whitespace(#[trigger] text[i]),
    ensures
        without_whitespace(text) == text,
    decreases text.len(),
{
    if text.len() > 0 {
        assert(!whitespace(text[0]));
        assert forall|i: int| 0 <= i < text.drop_first().len() implies !whitespace(
            #[trigger] text.drop_first()[i],
        ) by {
            assert(text.drop_first()[i] == text[i + 1]);
        }
        lemma_without_whitespace_solid(text.drop_first());
        assert(seq![text[0]] + text.drop_first() =~= text);
    }
}

/// The characters of a run of whitespace are whitespace.
proof fn lemma_whitespace_run(s: Seq<char>, from: int, i: int)
    requires
        0 <= from <= i < run_end(s, from, CharClass::Whitespace),
    ensures
        i < s.len(),
        whitespace(s[i]),
    decreases i - from,
{
    if i > from {
        lemma_whitespace_run(s, from + 1, i);
    }
}

/// No spelling holds whitespace.
proof fn lemma_spelling_is_solid(token: SpecToken)
    requires
        spelling(token) is Some,
    ensures
        forall|i: int| 0 <= i < spelling(token)->0.len() ==> !whitespace(
            #[trigger] spelling(token)->0[i],
        ),
{
    lemma_spellings();
}

/// Scanning and spelling are inverse to each other up to whitespace: where
/// a source without NUL characters holds keywords, operators and delimiters
/// only, the spellings of its tokens, one behind the other, are the
/// characters of the source that are no whitespace.
pub proof fn lemma_round_trip(source: Seq<char>)
    requires
        all_spelled(scan_all(source, 0)),
        forall|i: int| 0 <= i < source.len() ==> #[trigger] source[i] != '\0',
    ensures
        spelled(scan_all(source, 0)) == without_whitespace(source),
{
    lemma_round_trip_from(source, 0);
    assert(source.subrange(0, source.len() as int) =~= source);
}

/// The round trip, for the part of the source from `pos` on.
proof fn lemma_round_trip_from(source: Seq<char>, pos: int)
    requires
        0 <= pos <= source.len(),
        all_spelled(scan_all(source, pos)),
        forall|i: int| 0 <= i < source.len() ==> #[trigger] source[i] != '\0',
    ensures
        spelled(scan_all(source, pos)) == without_whitespace(
            source.subrange(pos, source.len() as int),
        ),
    decreases source.len() - pos,
{
    let end = source.len() as int;
    if pos < end {
        let start = run_end(source, pos, CharClass::Whitespace);
        let (token, next) = scan_token(source, pos);
        let rest = scan_all(source, next);
        lemma_scan_token_moves(source, pos);
        lemma_run_end_bounds(source, pos, CharClass::Whitespace);
        let blank = source.subrange(pos, start);
        assert forall|i: int| 0 <= i < blank.len() implies whitespace(#[trigger] blank[i]) by {
            lemma_whitespace_run(source, pos, pos + i);
        }
        lemma_without_whitespace_blank(blank);
        if token == SpecToken::Eof {
            if start < end {
                assert(source[start] != '\0');
            }
            if rest.len() == 0 {
                assert(scan_all(source, pos) =~= Seq::<SpecToken>::empty());
                assert(source.subrange(pos, end) =~= blank);
            } else {
                assert(scan_all(source, pos)[0] == token);
            }
        } else {
            assert(scan_all(source, pos) =~= seq![token] + rest);
            assert(scan_all(source, pos)[0] == token);
            assert(scan_all(source, pos).drop_first() =~= rest);
            assert forall|i: int| 0 <= i < rest.len() implies spelling(#[trigger] rest[i])
                is Some by {
                assert(scan_all(source, pos)[i + 1] == rest[i]);
            }
            let text = spelling(token)->0;
            lemma_scan_reads_spelling(source, pos);
            lemma_spelling_is_solid(token);
            lemma_without_whitespace_solid(text);
            lemma_round_trip_from(source, next);
            let tail = source.subrange(next, end);
            assert(source.subrange(pos, end) =~= blank + (text + tail));
            lemma_without_whitespace_add(blank, text + tail);
            lemma_without_whitespace_add(text, tail);
            assert(without_whitespace(blank) + (text + without_whitespace(tail)) =~= text
                + without_whitespace(tail));
        }
    } else {
        assert(source.subrange(pos, end) =~= Seq::<char>::empty());
    }
}

/// A source that holds whitespace only holds no token, and its program is
/// empty.
pub proof fn lemma_blank_source(source: Seq<char>)
    requires
        forall|i: int| 0 <= i < source.len() ==> whitespace(#[trigger] source[i]),
    ensures
        scan_all(source, 0) == Seq::<SpecToken>::empty(),
        program(scan_all(source, 0)).0 == Seq::<SpecStatement>::empty(),
{
    lemma_blank_run(source, 0);
    if source.len() > 0 {
        assert(scan_token(source, 0) == (SpecToken::Eof, source.len() as int));
        assert(scan_all(source, source.len() as int) == Seq::<SpecToken>::empty());
    }
    assert(scan_all(source, 0) =~= Seq::<SpecToken>::empty());
    lemma_program(Seq::<SpecToken>::empty());
    reveal(token_at);
}

/// A run of whitespace in a source of whitespace goes to the end.
proof fn lemma_blank_run(source: Seq<char>, from: int)
    requires
        forall|i: int| 0 <= i < source.len() ==> whitespace(#[trigger] source[i]),
        0 <= from <= source.len(),
    ensures
        run_end(source, from, CharClass::Whitespace) == source.len(),
    decreases source.len() - from,
{
    if from < source.len() {
        assert(whitespace(source[from]));
        lemma_blank_run(source, from + 1);
    }
}

/// The node that a token yields by itself as an operand, if it is such a
/// token: a name, a literal of one token, or a marker.
pub open spec fn atom(token: SpecToken) -> Option<SpecExpression> {
    match token {
        SpecToken::String(text) => Some(SpecExpression::Literal(SpecLiteral::String(text))),
        SpecToken::Identifier(_) => Some(SpecExpression::Identifier(token)),
        SpecToken::Integer(digits) => Some(
            SpecExpression::Literal(SpecLiteral::Integer(decimal_value(digits) as int)),
        ),
        SpecToken::True => Some(SpecExpression::Literal(SpecLiteral::Boolean(true))),
        SpecToken::False => Some(SpecExpression::Literal(SpecLiteral::Boolean(false))),
        SpecToken::Error => Some(SpecExpression::Error),
        SpecToken::Unit | SpecToken::NoneWord => Some(SpecExpression::Empty),
        _ => None,
    }
}

/// An infix operation on two nodes.
pub open spec fn joined(operator: SpecToken, left: SpecExpression, right: SpecExpression)
    -> SpecExpression {
    SpecExpression::Infix(infix_operator(operator)->0, Box::new(left), Box::new(right))
}

/// A token that is an operand by itself is read as its node, and the cursor
/// stays on it.
proof fn lemma_atom_operand(s: Seq<SpecToken>)
    requires
        atom(token_at(s, 0)) is Some,
    ensures
        operand(s).0 == atom(token_at(s, 0)),
        operand(s).1 == 0,
{
    lemma_operand(s);
}

/// Where the next token binds no more tightly than the limit, an expression
/// ends with the operand read so far.
proof fn lemma_continuation_ends(s: Seq<SpecToken>, left: SpecExpression, limit: Precendence)
    requires
        precedence_of(token_at(s, 1)).level() <= limit.level(),
    ensures
        continuation(s, left, limit).0 == Some(left),
        continuation(s, left, limit).1 == 0,
{
    lemma_continuation(s, left, limit);
}

/// Where the next token is an infix operator that binds more tightly than
/// the limit, and an operand by itself follows it, which the token behind
/// does not extend: the operation on the two operands is read, and the
/// expression goes on from there.
proof fn lemma_continuation_joins(
    s: Seq<SpecToken>,
    left: SpecExpression,
    limit: Precendence,
)
    requires
        infix_operator(token_at(s, 1)) is Some,
        limit.level() < precedence_of(token_at(s, 1)).level(),
        atom(token_at(s, 2)) is Some,
        precedence_of(token_at(s, 3)).level() <= precedence_of(token_at(s, 1)).level(),
    ensures
        continuation(s, left, limit).0 == continuation(
            after(s, 2),
            joined(token_at(s, 1), left, atom(token_at(s, 2))->0),
            limit,
        ).0,
        continuation(s, left, limit).1 == 2 + continuation(
            after(s, 2),
            joined(token_at(s, 1), left, atom(token_at(s, 2))->0),
            limit,
        ).1,
{
    broadcast use group_stream;

    let operator = token_at(s, 1);
    lemma_continuation(s, left, limit);
    lemma_infix_operation(after(s, 1), left);
    lemma_expression(after(s, 2), precedence_of(operator));
    lemma_atom_operand(after(s, 2));
    lemma_continuation_ends(after(s, 2), atom(token_at(s, 2))->0, precedence_of(operator));
}

/// Where two infix operators follow with an operand by itself behind each,
/// the second operator binds more tightly than the first, and nothing that
/// binds follows: the second operation is the right operand of the first.
proof fn lemma_continuation_climbs(
    s: Seq<SpecToken>,
    left: SpecExpression,
    limit: Precendence,
)
    requires
        infix_operator(token_at(s, 1)) is Some,
        infix_operator(token_at(s, 3)) is Some,
        limit.level() < precedence_of(token_at(s, 1)).level() < precedence_of(
            token_at(s, 3),
        ).level(),
        atom(token_at(s, 2)) is Some,
        atom(token_at(s, 4)) is Some,
        precedence_of(token_at(s, 5)) == Precendence::Lowest,
    ensures
        continuation(s, left, limit).0 == Some(
            joined(
                token_at(s, 1),
                left,
                joined(token_at(s, 3), atom(token_at(s, 2))->0, atom(token_at(s, 4))->0),
            ),
        ),
{
    broadcast use group_stream;

    let first = token_at(s, 1);
    let second = token_at(s, 3);
    let inner = joined(second, atom(token_at(s, 2))->0, atom(token_at(s, 4))->0);
    lemma_continuation(s, left, limit);
    lemma_infix_operation(after(s, 1), left);
    lemma_expression(after(s, 2), precedence_of(first));
    lemma_atom_operand(after(s, 2));
    lemma_continuation_joins(after(s, 2), atom(token_at(s, 2))->0, precedence_of(first));
    lemma_continuation_ends(after(s, 4), inner, precedence_of(first));
    lemma_continuation_ends(after(s, 4), joined(first, left, inner), limit);
}

/// Two operators between three operands: the second operator takes the
/// middle operand if it binds more tightly than the first, and otherwise the
/// first operator does. So a product under a sum is the right operand of the
/// sum, and operators of equal strength group to the left.
pub proof fn lemma_operators_group(
    a: SpecToken,
    first: SpecToken,
    b: SpecToken,
    second: SpecToken,
    c: SpecToken,
)
    requires
        atom(a) is Some,
        atom(b) is Some,
        atom(c) is Some,
        infix_operator(first) is Some,
        infix_operator(second) is Some,
    ensures
        expression(seq![a, first, b, second, c], Precendence::Lowest).0 == Some(
            if precedence_of(first).level() < precedence_of(second).level() {
                joined(first, atom(a)->0, joined(second, atom(b)->0, atom(c)->0))
            } else {
                joined(second, joined(first, atom(a)->0, atom(b)->0), atom(c)->0)
            },
        ),
{
    broadcast use group_stream;

    let s = seq![a, first, b, second, c];
    let lowest = Precendence::Lowest;
    assert(token_at(s, 0) == a && token_at(s, 1) == first && token_at(s, 2) == b && token_at(
        s,
        3,
    ) == second && token_at(s, 4) == c && token_at(s, 5) == SpecToken::Eof) by {
        reveal(token_at);
    }
    lemma_expression(s, lowest);
    lemma_atom_operand(s);
    if precedence_of(first).level() < precedence_of(second).level() {
        lemma_continuation_climbs(s, atom(a)->0, lowest);
    } else {
        let left = joined(first, atom(a)->0, atom(b)->0);
        lemma_continuation_joins(s, atom(a)->0, lowest);
        lemma_continuation_joins(after(s, 2), left, lowest);
        lemma_continuation_ends(after(s, 4), joined(second, left, atom(c)->0), lowest);
    }
}

/// Parentheses group: an operation in parentheses is the left operand of the
/// operator behind it, however tightly the two operators bind.
pub proof fn lemma_parentheses_group(
    a: SpecToken,
    first: SpecToken,
    b: SpecToken,
    second: SpecToken,
    c: SpecToken,
)
    requires
        atom(a) is Some,
        atom(b) is Some,
        atom(c) is Some,
        infix_operator(first) is Some,
        infix_operator(second) is Some,
    ensures
        expression(
            seq![SpecToken::LeftParen, a, first, b, SpecToken::RightParen, second, c],
            Precendence::Lowest,
        ).0 == Some(joined(second, joined(first, atom(a)->0, atom(b)->0), atom(c)->0)),
{
    broadcast use group_stream;

    let s = seq![SpecToken::LeftParen, a, first, b, SpecToken::RightParen, second, c];
    let lowest = Precendence::Lowest;
    let inner = joined(first, atom(a)->0, atom(b)->0);
    assert(token_at(s, 0) == SpecToken::LeftParen && token_at(s, 1) == a && token_at(s, 2)
        == first && token_at(s, 3) == b && token_at(s, 4) == SpecToken::RightParen && token_at(
        s,
        5,
    ) == second && token_at(s, 6) == c && token_at(s, 7) == SpecToken::Eof) by {
        reveal(token_at);
    }
    assert(grouped(s).0 == Some(inner) && grouped(s).1 == 4) by {
        lemma_grouped(s);
        lemma_expression(after(s, 1), lowest);
        lemma_atom_operand(after(s, 1));
        lemma_continuation_joins(after(s, 1), atom(a)->0, lowest);
        lemma_continuation_ends(after(s, 3), inner, lowest);
    }
    lemma_expression(s, lowest);
    lemma_operand(s);
    lemma_continuation_joins(after(s, 4), inner, lowest);
    lemma_continuation_ends(after(s, 6), joined(second, inner, atom(c)->0), lowest);
}

/// Sources that hold the same tokens have the same program, whatever
/// whitespace stands between the tokens: parsing depends on the token stream
/// alone, and two parsers over equal streams read equal programs.
pub proof fn lemma_same_tokens_same_program(first: Seq<char>, second: Seq<char>)
    requires
        scan_all(first, 0) == scan_all(second, 0),
    ensures
        program(scan_all(first, 0)) == program(scan_all(second, 0)),
{
}

} // verus!
