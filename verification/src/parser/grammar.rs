//! The grammar, stated over token streams.
//!
//! Each rule maps a stream to three things: the node it yields, if any; the
//! number of tokens by which the cursor has moved; and whether every integer
//! literal that the rule has to convert is a numeral that a 64-bit signed
//! integer can hold. It gives the second for the streams on which the rule
//! fails as well, because parsing goes on from where a failed rule left the
//! cursor. Where the third is false the rule cannot be carried out, and the
//! other two say nothing.
//!
//! A rule that yields a node leaves the cursor on the last token of that node.
use vstd::prelude::*;

use crate::ast::{Infix, Prefix, SpecExpression, SpecLiteral, SpecStatement};
use crate::lexer::rules::{decimal_value, numeral_fits, numerals_fit};
use crate::lexer::SpecToken;
use crate::parser::stream::{after, group_stream, token_at};
use crate::parser::Precendence;

verus! {

broadcast use group_stream;

/// The binding strength of a token that continues an expression; `Lowest` for
/// every token that does not.
pub open spec fn precedence_of(token: SpecToken) -> Precendence {
    match token {
        SpecToken::Equal | SpecToken::Notequal => Precendence::Equals,
        SpecToken::Lt | SpecToken::Gt => Precendence::Comparison,
        SpecToken::Plus | SpecToken::Minus => Precendence::Sum,
        SpecToken::Fslash | SpecToken::Asterisk | SpecToken::Modulo | SpecToken::Exponent =>
            Precendence::Product,
        SpecToken::Cons => Precendence::Cons,
        SpecToken::LeftParen => Precendence::Call,
        _ => Precendence::Lowest,
    }
}

/// The prefix operator that a token spells.
pub open spec fn prefix_operator(token: SpecToken) -> Option<Prefix> {
    match token {
        SpecToken::Bang => Some(Prefix::Not),
        SpecToken::Minus => Some(Prefix::Minus),
        SpecToken::Plus => Some(Prefix::Plus),
        SpecToken::Cardinal => Some(Prefix::Cardinal),
        _ => None,
    }
}

/// The infix operator that a token spells.
pub open spec fn infix_operator(token: SpecToken) -> Option<Infix> {
    match token {
        SpecToken::Plus => Some(Infix::Plus),
        SpecToken::Minus => Some(Infix::Minus),
        SpecToken::Fslash => Some(Infix::Divide),
        SpecToken::Asterisk => Some(Infix::Multiply),
        SpecToken::Equal => Some(Infix::Equal),
        SpecToken::Notequal => Some(Infix::NotEqual),
        SpecToken::Lt => Some(Infix::LessThan),
        SpecToken::Gt => Some(Infix::GreaterThan),
        SpecToken::Modulo => Some(Infix::Modulo),
        SpecToken::Exponent => Some(Infix::Exponent),
        SpecToken::Cons => Some(Infix::Cons),
        _ => None,
    }
}

/// The integer literals of a moved stream are among those of the stream.
pub broadcast proof fn lemma_numerals_fit_after(s: Seq<SpecToken>, n: nat)
    requires
        numerals_fit(s),
    ensures
        #[trigger] numerals_fit(after(s, n)),
{
    reveal(after);
    reveal(numerals_fit);
    assert forall|i: int| 0 <= i < after(s, n).len() implies numeral_fits(
        #[trigger] after(s, n)[i],
    ) by {
        assert(after(s, n)[i] == s[n + i]);
    }
}

/// Each token of a stream whose integer literals fit does so.
pub proof fn lemma_numerals_fit_at(s: Seq<SpecToken>, i: nat)
    requires
        numerals_fit(s),
    ensures
        numeral_fits(token_at(s, i)),
{
    reveal(token_at);
    reveal(numerals_fit);
}

/// The number of tokens up to the first semicolon of the stream; the length
/// of the stream if it holds none.
pub open spec fn semicolon_distance(s: Seq<SpecToken>) -> nat
    decreases s.len(),
{
    if s.len() == 0 || token_at(s, 0) == SpecToken::Semicolon {
        0
    } else {
        1 + semicolon_distance(after(s, 1))
    }
}

/// A list of identifiers with `separator` between them, the cursor on the
/// first. Yields the identifier tokens and leaves the cursor on the last one.
/// Fails where an identifier is wanted and another token stands.
pub open spec fn identifier_list(s: Seq<SpecToken>, separator: SpecToken) -> (
    Option<Seq<SpecToken>>,
    nat,
)
    decreases s.len(),
{
    if token_at(s, 0) is Identifier {
        if token_at(s, 1) == separator {
            let (more, n) = identifier_list(after(s, 2), separator);
            match more {
                Some(names) => (Some(seq![token_at(s, 0)] + names), 2 + n),
                None => (None, 2 + n),
            }
        } else {
            (Some(seq![token_at(s, 0)]), 0)
        }
    } else {
        (None, 0)
    }
}

/// The type annotation `type |A|B|...`, the cursor on `type`.
pub open spec fn type_annotation(s: Seq<SpecToken>) -> (Option<SpecExpression>, nat) {
    if token_at(s, 1) == SpecToken::Vbar {
        let (names, n) = identifier_list(after(s, 2), SpecToken::Vbar);
        match names {
            Some(names) => (Some(SpecExpression::Type(names)), 2 + n),
            None => (None, 2 + n),
        }
    } else {
        (None, 0)
    }
}

/// The second component of the measure of a rule that moves the cursor
/// before it looks at a token. Such a rule descends by the first component,
/// the length of the stream, but for the empty stream, on which it stands
/// above the rules that it goes on with.
pub open spec fn entry(s: Seq<SpecToken>, empty: nat, otherwise: nat) -> nat {
    if s.len() == 0 {
        empty
    } else {
        otherwise
    }
}

/// A statement, the cursor on its first token.
#[verifier::opaque]
pub open spec fn statement(s: Seq<SpecToken>) -> (Option<SpecStatement>, nat, bool)
    decreases s.len(), 9nat,
{
    match token_at(s, 0) {
        SpecToken::Let => let_statement(s),
        SpecToken::Return => return_statement(s),
        SpecToken::Comment(text) => (Some(SpecStatement::Comment(text)), 0, true),
        _ => expression_statement(s),
    }
}

/// The binding `let name = value`, the cursor on `let`. Behind the value the
/// cursor moves on to the next semicolon, or to the end of the stream.
#[verifier::opaque]
pub open spec fn let_statement(s: Seq<SpecToken>) -> (Option<SpecStatement>, nat, bool)
    decreases s.len(), 8nat,
{
    match token_at(s, 1) {
        SpecToken::Identifier(name) => {
            if token_at(s, 2) == SpecToken::Assign {
                let (value, n, fits) = expression(after(s, 3), Precendence::Lowest);
                match value {
                    Some(value) => (
                        Some(SpecStatement::Let(name, value)),
                        3 + n + semicolon_distance(after(s, 3 + n)),
                        fits,
                    ),
                    None => (None, 3 + n, fits),
                }
            } else {
                (None, 1, true)
            }
        },
        _ => (None, 0, true),
    }
}

/// The statement `return value`, the cursor on `return`. Behind the value the
/// cursor moves on to the next semicolon, or to the end of the stream.
#[verifier::opaque]
pub open spec fn return_statement(s: Seq<SpecToken>) -> (Option<SpecStatement>, nat, bool)
    decreases s.len(), 8nat,
{
    if token_at(s, 0) == SpecToken::Return {
        let (value, n, fits) = expression(after(s, 1), Precendence::Lowest);
        match value {
            Some(value) => (
                Some(SpecStatement::Return(value)),
                1 + n + semicolon_distance(after(s, 1 + n)),
                fits,
            ),
            None => (None, 1 + n, fits),
        }
    } else {
        (None, 0, true)
    }
}

/// An expression that stands as a statement. A semicolon behind it is taken.
#[verifier::opaque]
pub open spec fn expression_statement(s: Seq<SpecToken>) -> (Option<SpecStatement>, nat, bool)
    decreases s.len(), 7nat,
{
    let (value, n, fits) = expression(s, Precendence::Lowest);
    match value {
        Some(value) => (
            Some(SpecStatement::Expression(value)),
            if token_at(s, n + 1) == SpecToken::Semicolon {
                n + 1
            } else {
                n
            },
            fits,
        ),
        None => (None, n, fits),
    }
}

/// The statements of a block up to its closing brace, the cursor on the first
/// of them. Statements that fail are left out. The cursor ends on the closing
/// brace; where the stream ends before the brace, the block ends there.
#[verifier::opaque]
pub open spec fn block_items(s: Seq<SpecToken>) -> (Seq<SpecStatement>, nat, bool)
    decreases s.len(), 10nat,
{
    if token_at(s, 0) == SpecToken::RightBrace || token_at(s, 0) == SpecToken::Eof {
        (Seq::empty(), 0, true)
    } else {
        let (first, n, fits) = statement(s);
        let (others, m, others_fit) = block_items(after(s, n + 1));
        (
            match first {
                Some(first) => seq![first] + others,
                None => others,
            },
            n + 1 + m,
            fits && others_fit,
        )
    }
}

/// A block, the cursor on the token in front of its first statement; that
/// token is taken for the opening brace.
#[verifier::opaque]
pub open spec fn block(s: Seq<SpecToken>) -> (Seq<SpecStatement>, nat, bool)
    decreases s.len(), entry(s, 11, 0),
{
    let (items, n, fits) = block_items(after(s, 1));
    (items, 1 + n, fits)
}

/// An expression, the cursor on its first token: the longest chain of
/// operands and operators in which every operator binds more tightly than
/// `limit`.
#[verifier::opaque]
pub open spec fn expression(s: Seq<SpecToken>, limit: Precendence) -> (
    Option<SpecExpression>,
    nat,
    bool,
)
    decreases s.len(), 6nat,
{
    let (left, n, fits) = operand(s);
    match left {
        Some(left) => {
            let (whole, m, rest_fits) = continuation(after(s, n), left, limit);
            (whole, n + m, fits && rest_fits)
        },
        None => (None, n, fits),
    }
}

/// What an expression starts with, chosen by the current token. An integer
/// literal is converted here.
#[verifier::opaque]
pub open spec fn operand(s: Seq<SpecToken>) -> (Option<SpecExpression>, nat, bool)
    decreases s.len(), 5nat,
{
    match token_at(s, 0) {
        SpecToken::String(text) => (
            Some(SpecExpression::Literal(SpecLiteral::String(text))),
            0,
            true,
        ),
        SpecToken::Identifier(_) => (Some(SpecExpression::Identifier(token_at(s, 0))), 0, true),
        SpecToken::Integer(digits) => (
            Some(SpecExpression::Literal(SpecLiteral::Integer(decimal_value(digits) as int))),
            0,
            numeral_fits(token_at(s, 0)),
        ),
        SpecToken::True => (Some(SpecExpression::Literal(SpecLiteral::Boolean(true))), 0, true),
        SpecToken::False => (
            Some(SpecExpression::Literal(SpecLiteral::Boolean(false))),
            0,
            true,
        ),
        SpecToken::Bang | SpecToken::Minus | SpecToken::Cardinal => prefix_operation(s),
        SpecToken::If => conditional(s),
        SpecToken::Fn => function(s),
        SpecToken::LeftParen => grouped(s),
        SpecToken::LeftBrace => list_literal(s, SpecToken::RightBrace),
        SpecToken::LeftBracket => list_literal(s, SpecToken::RightBracket),
        SpecToken::Type => {
            let (annotation, n) = type_annotation(s);
            (annotation, n, true)
        },
        SpecToken::OkWord => success(s),
        SpecToken::Error => (Some(SpecExpression::Error), 0, true),
        SpecToken::Unit | SpecToken::NoneWord => (Some(SpecExpression::Empty), 0, true),
        _ => (None, 0, true),
    }
}

/// What follows the operand `left`, the cursor on the last token of `left`:
/// as long as the next token binds more tightly than `limit`, it is an infix
/// operator with its right operand, or the parenthesis of a call, and what
/// was read so far becomes the left operand or the callee.
#[verifier::opaque]
pub open spec fn continuation(s: Seq<SpecToken>, left: SpecExpression, limit: Precendence) -> (
    Option<SpecExpression>,
    nat,
    bool,
)
    decreases s.len(), 0nat,
{
    if limit.level() < precedence_of(token_at(s, 1)).level() {
        let (joined, n, fits) = if token_at(s, 1) == SpecToken::LeftParen {
            call(after(s, 1), left)
        } else {
            infix_operation(after(s, 1), left)
        };
        match joined {
            Some(joined) => {
                let (whole, m, rest_fits) = continuation(after(s, 1 + n), joined, limit);
                (whole, 1 + n + m, fits && rest_fits)
            },
            None => (None, 1 + n, fits),
        }
    } else {
        (Some(left), 0, true)
    }
}

/// An infix operator and its right operand, the cursor on the operator. The
/// right operand is read with the operator's own binding strength as its
/// limit, so that operators of equal strength group to the left.
#[verifier::opaque]
pub open spec fn infix_operation(s: Seq<SpecToken>, left: SpecExpression) -> (
    Option<SpecExpression>,
    nat,
    bool,
)
    decreases s.len(), 4nat,
{
    match infix_operator(token_at(s, 0)) {
        Some(operator) => {
            let (right, n, fits) = expression(after(s, 1), precedence_of(token_at(s, 0)));
            match right {
                Some(right) => (
                    Some(SpecExpression::Infix(operator, Box::new(left), Box::new(right))),
                    1 + n,
                    fits,
                ),
                None => (None, 1 + n, fits),
            }
        },
        None => (None, 0, true),
    }
}

/// A prefix operator and its operand, the cursor on the operator.
#[verifier::opaque]
pub open spec fn prefix_operation(s: Seq<SpecToken>) -> (Option<SpecExpression>, nat, bool)
    decreases s.len(), 4nat,
{
    match prefix_operator(token_at(s, 0)) {
        Some(operator) => {
            let (inner, n, fits) = expression(after(s, 1), Precendence::Prefix);
            match inner {
                Some(inner) => (
                    Some(SpecExpression::Prefix(operator, Box::new(inner))),
                    1 + n,
                    fits,
                ),
                None => (None, 1 + n, fits),
            }
        },
        None => (None, 0, true),
    }
}

/// The wrapper `Ok` and the expression it wraps, the cursor on `Ok`.
#[verifier::opaque]
pub open spec fn success(s: Seq<SpecToken>) -> (Option<SpecExpression>, nat, bool)
    decreases s.len(), 4nat,
{
    if token_at(s, 0) == SpecToken::OkWord {
        let (inner, n, fits) = expression(after(s, 1), Precendence::Lowest);
        match inner {
            Some(inner) => (Some(SpecExpression::Success(Box::new(inner))), 1 + n, fits),
            None => (None, 1 + n, fits),
        }
    } else {
        (None, 0, true)
    }
}

/// An expression in parentheses, the cursor on the token in front of it.
/// Fails, behind the expression, where no closing parenthesis follows.
#[verifier::opaque]
pub open spec fn grouped(s: Seq<SpecToken>) -> (Option<SpecExpression>, nat, bool)
    decreases s.len(), entry(s, 12, 4),
{
    let (inner, n, fits) = expression(after(s, 1), Precendence::Lowest);
    if token_at(s, 1 + n + 1) == SpecToken::RightParen {
        (inner, 1 + n + 1, fits)
    } else {
        (None, 1 + n, fits)
    }
}

/// A conditional, the cursor on `if`: the condition, a block, and behind
/// `else` a second block, which must open with a brace.
#[verifier::opaque]
pub open spec fn conditional(s: Seq<SpecToken>) -> (Option<SpecExpression>, nat, bool)
    decreases s.len(), entry(s, 12, 4),
{
    let (condition, n, fits) = expression(after(s, 1), Precendence::Lowest);
    match condition {
        Some(condition) => {
            let (consequence, m, first_fits) = block(after(s, 1 + n + 1));
            let end = 1 + n + 1 + m;
            if token_at(s, end + 1) == SpecToken::Else {
                if token_at(s, end + 2) == SpecToken::LeftBrace {
                    let (alternative, k, second_fits) = block(after(s, end + 2));
                    (
                        Some(
                            SpecExpression::If {
                                condition: Box::new(condition),
                                consequence,
                                alternative: Some(alternative),
                            },
                        ),
                        end + 2 + k,
                        fits && first_fits && second_fits,
                    )
                } else {
                    (None, end + 1, fits && first_fits)
                }
            } else {
                (
                    Some(
                        SpecExpression::If {
                            condition: Box::new(condition),
                            consequence,
                            alternative: None,
                        },
                    ),
                    end,
                    fits && first_fits,
                )
            }
        },
        None => (None, 1 + n, fits),
    }
}

/// A function literal, the cursor on `fn`: the unit token or a list of
/// identifiers with commas between them, an arrow, and the body.
#[verifier::opaque]
pub open spec fn function(s: Seq<SpecToken>) -> (Option<SpecExpression>, nat, bool)
    decreases s.len(), 4nat,
{
    if token_at(s, 1) == SpecToken::Unit {
        function_body(s, 1, seq![SpecToken::Unit])
    } else {
        let (names, n) = identifier_list(after(s, 1), SpecToken::Comma);
        match names {
            Some(names) => function_body(s, 1 + n, names),
            None => (None, 1 + n, true),
        }
    }
}

/// The arrow and the body of a function literal with the parameters
/// `parameter`, the cursor at index `at`, on the last token of the
/// parameters. Behind the arrow a brace opens a block; anything else is one
/// expression, which stands for a body of one statement.
#[verifier::opaque]
pub open spec fn function_body(s: Seq<SpecToken>, at: nat, parameter: Seq<SpecToken>) -> (
    Option<SpecExpression>,
    nat,
    bool,
)
    decreases s.len(), 3nat,
{
    if token_at(s, at + 1) == SpecToken::Rarrow {
        if token_at(s, at + 2) == SpecToken::LeftBrace {
            let (body, n, fits) = block(after(s, at + 2));
            (Some(SpecExpression::Fn { parameter, body }), at + 2 + n, fits)
        } else {
            let (value, n, fits) = expression(after(s, at + 2), Precendence::Lowest);
            match value {
                Some(value) => (
                    Some(
                        SpecExpression::Fn {
                            parameter,
                            body: seq![SpecStatement::Expression(value)],
                        },
                    ),
                    at + 2 + n,
                    fits,
                ),
                None => (None, at + 2 + n, fits),
            }
        }
    } else {
        (None, at, true)
    }
}

/// The arguments of a call of `callee`, the cursor on the opening
/// parenthesis.
#[verifier::opaque]
pub open spec fn call(s: Seq<SpecToken>, callee: SpecExpression) -> (
    Option<SpecExpression>,
    nat,
    bool,
)
    decreases s.len(), entry(s, 13, 4),
{
    let (arguments, n, fits) = expression_list(s, SpecToken::RightParen);
    match arguments {
        Some(arguments) => (
            Some(SpecExpression::Call { map: Box::new(callee), domain: arguments }),
            n,
            fits,
        ),
        None => (None, n, fits),
    }
}

/// A list literal that `closing` closes, the cursor on its opening token.
#[verifier::opaque]
pub open spec fn list_literal(s: Seq<SpecToken>, closing: SpecToken) -> (
    Option<SpecExpression>,
    nat,
    bool,
)
    decreases s.len(), entry(s, 13, 4),
{
    let (items, n, fits) = expression_list(s, closing);
    match items {
        Some(items) => (Some(SpecExpression::Literal(SpecLiteral::List(Some(items)))), n, fits),
        None => (None, n, fits),
    }
}

/// Expressions with commas between them up to the token `closing`, the
/// cursor on the token in front of the first. The list may be empty. The
/// cursor ends on `closing`.
#[verifier::opaque]
pub open spec fn expression_list(s: Seq<SpecToken>, closing: SpecToken) -> (
    Option<Seq<SpecExpression>>,
    nat,
    bool,
)
    decreases s.len(), entry(s, 12, 3),
{
    if token_at(s, 1) == closing {
        (Some(Seq::empty()), 1, true)
    } else {
        let (first, n, fits) = expression(after(s, 1), Precendence::Lowest);
        match first {
            Some(first) => {
                let (others, m, others_fit) = more_expressions(after(s, 1 + n), closing);
                match others {
                    Some(others) => (Some(seq![first] + others), 1 + n + m, fits && others_fit),
                    None => (None, 1 + n + m, fits && others_fit),
                }
            },
            None => (None, 1 + n, fits),
        }
    }
}

/// The rest of a list of expressions, the cursor on the last token of an
/// item: a comma and another item, as often as a comma follows, and then
/// `closing`.
#[verifier::opaque]
pub open spec fn more_expressions(s: Seq<SpecToken>, closing: SpecToken) -> (
    Option<Seq<SpecExpression>>,
    nat,
    bool,
)
    decreases s.len(), 0nat,
{
    if token_at(s, 1) == SpecToken::Comma {
        let (next, n, fits) = expression(after(s, 2), Precendence::Lowest);
        match next {
            Some(next) => {
                let (others, m, others_fit) = more_expressions(after(s, 2 + n), closing);
                match others {
                    Some(others) => (Some(seq![next] + others), 2 + n + m, fits && others_fit),
                    None => (None, 2 + n + m, fits && others_fit),
                }
            },
            None => (None, 2 + n, fits),
        }
    } else if token_at(s, 1) == closing {
        (Some(Seq::empty()), 1, true)
    } else {
        (None, 0, true)
    }
}

/// The statements of a program, the cursor on the first token. Statements
/// are read up to the first end-of-input marker on which one of them would
/// start; those that fail are left out, and reading goes on behind the token
/// on which each one ended. The cursor ends on that marker.
#[verifier::opaque]
pub open spec fn program(s: Seq<SpecToken>) -> (Seq<SpecStatement>, nat, bool)
    decreases s.len(),
{
    if token_at(s, 0) == SpecToken::Eof {
        (Seq::empty(), 0, true)
    } else {
        let (first, n, fits) = statement(s);
        let (others, m, others_fit) = program(after(s, n + 1));
        (
            match first {
                Some(first) => seq![first] + others,
                None => others,
            },
            n + 1 + m,
            fits && others_fit,
        )
    }
}

} // verus!
