//! The rules of the grammar, unfolded.
//!
//! The rules are opaque, so that a proof meets the definition of a rule only
//! where it asks for it. Each lemma here states one rule by its definition.
use vstd::prelude::*;

use crate::ast::{SpecExpression, SpecLiteral, SpecStatement};
use crate::lexer::rules::{decimal_value, numeral_fits};
use crate::lexer::SpecToken;
use crate::parser::grammar::{
    block, block_items, call, conditional, continuation, expression, expression_list, expression_statement, function, function_body, grouped, infix_operation, let_statement, list_literal, more_expressions, operand, prefix_operation, program, return_statement, statement, success, identifier_list, infix_operator, precedence_of, prefix_operator,
    semicolon_distance, type_annotation,
};
use crate::parser::stream::{after, token_at};
use crate::parser::Precendence;

verus! {

/// The rule `statement`, by its definition.
pub proof fn lemma_statement(s: Seq<SpecToken>)
    ensures
        statement(s) == ({
            match token_at(s, 0) {
                SpecToken::Let => let_statement(s),
                SpecToken::Return => return_statement(s),
                SpecToken::Comment(text) => (Some(SpecStatement::Comment(text)), 0, true),
                _ => expression_statement(s),
            }
        }),
{
    reveal(statement);
    reveal(let_statement);
    reveal(return_statement);
    reveal(expression_statement);
}

/// The rule `let_statement`, by its definition.
pub proof fn lemma_let_statement(s: Seq<SpecToken>)
    ensures
        let_statement(s) == ({
            match token_at(s, 1) {
                SpecToken::Identifier(name) => {
                    if token_at(s, 2) == SpecToken::Assign {
                        let (value, n, fits) = expression(after(s, 3), Precendence::Lowest);
                        match value {
                            Some(value) => (
                                Some(SpecStatement::Let(name, value)),
                                3 + n + semicolon_distance(after(s, 3 + n)),
                                fits,
                            ),
                            None => (None, 3 + n, fits),
                        }
                    } else {
                        (None, 1, true)
                    }
                },
                _ => (None, 0, true),
            }
        }),
{
    reveal(let_statement);
    reveal(expression);
}

/// The rule `return_statement`, by its definition.
pub proof fn lemma_return_statement(s: Seq<SpecToken>)
    ensures
        return_statement(s) == ({
            if token_at(s, 0) == SpecToken::Return {
                let (value, n, fits) = expression(after(s, 1), Precendence::Lowest);
                match value {
                    Some(value) => (
                        Some(SpecStatement::Return(value)),
                        1 + n + semicolon_distance(after(s, 1 + n)),
                        fits,
                    ),
                    None => (None, 1 + n, fits),
                }
            } else {
                (None, 0, true)
            }
        }),
{
    reveal(return_statement);
    reveal(expression);
}

/// The rule `expression_statement`, by its definition.
pub proof fn lemma_expression_statement(s: Seq<SpecToken>)
    ensures
        expression_statement(s) == ({
            let (value, n, fits) = expression(s, Precendence::Lowest);
            match value {
                Some(value) => (
                    Some(SpecStatement::Expression(value)),
                    if token_at(s, n + 1) == SpecToken::Semicolon {
                        n + 1
                    } else {
                        n
                    },
                    fits,
                ),
                None => (None, n, fits),
            }
        }),
{
    reveal(expression_statement);
    reveal(expression);
}

/// The rule `block_items`, by its definition.
pub proof fn lemma_block_items(s: Seq<SpecToken>)
    ensures
        block_items(s) == ({
            if token_at(s, 0) == SpecToken::RightBrace || token_at(s, 0) == SpecToken::Eof {
                (Seq::empty(), 0, true)
            } else {
                let (first, n, fits) = statement(s);
                let (others, m, others_fit) = block_items(after(s, n + 1));
                (
                    match first {
                        Some(first) => seq![first] + others,
                        None => others,
                    },
                    n + 1 + m,
                    fits && others_fit,
                )
            }
        }),
{
    reveal(block_items);
    reveal(statement);
}

/// The rule `block`, by its definition.
pub proof fn lemma_block(s: Seq<SpecToken>)
    ensures
        block(s) == ({
            let (items, n, fits) = block_items(after(s, 1));
            (items, 1 + n, fits)
        }),
{
    reveal(block);
    reveal(block_items);
}

/// The rule `expression`, by its definition.
pub proof fn lemma_expression(s: Seq<SpecToken>, limit: Precendence)
    ensures
        expression(s, limit) == ({
            let (left, n, fits) = operand(s);
            match left {
                Some(left) => {
                    let (whole, m, rest_fits) = continuation(after(s, n), left, limit);
                    (whole, n + m, fits && rest_fits)
                },
                None => (None, n, fits),
            }
        }),
{
    reveal(expression);
    reveal(operand);
    reveal(continuation);
}

/// The rule `operand`, by its definition.
pub proof fn lemma_operand(s: Seq<SpecToken>)
    ensures
        operand(s) == ({
            match token_at(s, 0) {
                SpecToken::String(text) => (
                    Some(SpecExpression::Literal(SpecLiteral::String(text))),
                    0,
                    true,
                ),
                SpecToken::Identifier(_) => (Some(SpecExpression::Identifier(token_at(s, 0))), 0, true),
                SpecToken::Integer(digits) => (
                    Some(SpecExpression::Literal(SpecLiteral::Integer(decimal_value(digits) as int))),
                    0,
                    numeral_fits(token_at(s, 0)),
                ),
                SpecToken::True => (Some(SpecExpression::Literal(SpecLiteral::Boolean(true))), 0, true),
                SpecToken::False => (
                    Some(SpecExpression::Literal(SpecLiteral::Boolean(false))),
                    0,
                    true,
                ),
                SpecToken::Bang | SpecToken::Minus | SpecToken::Cardinal => prefix_operation(s),
                SpecToken::If => conditional(s),
                SpecToken::Fn => function(s),
                SpecToken::LeftParen => grouped(s),
                SpecToken::LeftBrace => list_literal(s, SpecToken::RightBrace),
                SpecToken::LeftBracket => list_literal(s, SpecToken::RightBracket),
                SpecToken::Type => {
                    let (annotation, n) = type_annotation(s);
                    (annotation, n, true)
                },
                SpecToken::OkWord => success(s),
                SpecToken::Error => (Some(SpecExpression::Error), 0, true),
                SpecToken::Unit | SpecToken::NoneWord => (Some(SpecExpression::Empty), 0, true),
                _ => (None, 0, true),
            }
        }),
{
    reveal(operand);
    reveal(prefix_operation);
    reveal(success);
    reveal(grouped);
    reveal(conditional);
    reveal(function);
    reveal(list_literal);
}

/// The rule `continuation`, by its definition.
pub proof fn lemma_continuation(s: Seq<SpecToken>, left: SpecExpression, limit: Precendence)
    ensures
        continuation(s, left, limit) == ({
            if limit.level() < precedence_of(token_at(s, 1)).level() {
                let (joined, n, fits) = if token_at(s, 1) == SpecToken::LeftParen {
                    call(after(s, 1), left)
                } else {
                    infix_operation(after(s, 1), left)
                };
                match joined {
                    Some(joined) => {
                        let (whole, m, rest_fits) = continuation(after(s, 1 + n), joined, limit);
                        (whole, 1 + n + m, fits && rest_fits)
                    },
                    None => (None, 1 + n, fits),
                }
            } else {
                (Some(left), 0, true)
            }
        }),
{
    reveal(continuation);
    reveal(infix_operation);
    reveal(call);
}

/// The rule `infix_operation`, by its definition.
pub proof fn lemma_infix_operation(s: Seq<SpecToken>, left: SpecExpression)
    ensures
        infix_operation(s, left) == ({
            match infix_operator(token_at(s, 0)) {
                Some(operator) => {
                    let (right, n, fits) = expression(after(s, 1), precedence_of(token_at(s, 0)));
                    match right {
                        Some(right) => (
                            Some(SpecExpression::Infix(operator, Box::new(left), Box::new(right))),
                            1 + n,
                            fits,
                        ),
                        None => (None, 1 + n, fits),
                    }
                },
                None => (None, 0, true),
            }
        }),
{
    reveal(infix_operation);
    reveal(expression);
}

/// The rule `prefix_operation`, by its definition.
pub proof fn lemma_prefix_operation(s: Seq<SpecToken>)
    ensures
        prefix_operation(s) == ({
            match prefix_operator(token_at(s, 0)) {
                Some(operator) => {
                    let (inner, n, fits) = expression(after(s, 1), Precendence::Prefix);
                    match inner {
                        Some(inner) => (
                            Some(SpecExpression::Prefix(operator, Box::new(inner))),
                            1 + n,
                            fits,
                        ),
                        None => (None, 1 + n, fits),
                    }
                },
                None => (None, 0, true),
            }
        }),
{
    reveal(prefix_operation);
    reveal(expression);
}

/// The rule `success`, by its definition.
pub proof fn lemma_success(s: Seq<SpecToken>)
    ensures
        success(s) == ({
            if token_at(s, 0) == SpecToken::OkWord {
                let (inner, n, fits) = expression(after(s, 1), Precendence::Lowest);
                match inner {
                    Some(inner) => (Some(SpecExpression::Success(Box::new(inner))), 1 + n, fits),
                    None => (None, 1 + n, fits),
                }
            } else {
                (None, 0, true)
            }
        }),
{
    reveal(success);
    reveal(expression);
}

/// The rule `grouped`, by its definition.
pub proof fn lemma_grouped(s: Seq<SpecToken>)
    ensures
        grouped(s) == ({
            let (inner, n, fits) = expression(after(s, 1), Precendence::Lowest);
            if token_at(s, 1 + n + 1) == SpecToken::RightParen {
                (inner, 1 + n + 1, fits)
            } else {
                (None, 1 + n, fits)
            }
        }),
{
    reveal(grouped);
    reveal(expression);
}

/// The rule `conditional`, by its definition.
pub proof fn lemma_conditional(s: Seq<SpecToken>)
    ensures
        conditional(s) == ({
            let (condition, n, fits) = expression(after(s, 1), Precendence::Lowest);
            match condition {
                Some(condition) => {
                    let (consequence, m, first_fits) = block(after(s, 1 + n + 1));
                    let end = 1 + n + 1 + m;
                    if token_at(s, end + 1) == SpecToken::Else {
                        if token_at(s, end + 2) == SpecToken::LeftBrace {
                            let (alternative, k, second_fits) = block(after(s, end + 2));
                            (
                                Some(
                                    SpecExpression::If {
                                        condition: Box::new(condition),
                                        consequence,
                                        alternative: Some(alternative),
                                    },
                                ),
                                end + 2 + k,
                                fits && first_fits && second_fits,
                            )
                        } else {
                            (None, end + 1, fits && first_fits)
                        }
                    } else {
                        (
                            Some(
                                SpecExpression::If {
                                    condition: Box::new(condition),
                                    consequence,
                                    alternative: None,
                                },
                            ),
                            end,
                            fits && first_fits,
                        )
                    }
                },
                None => (None, 1 + n, fits),
            }
        }),
{
    reveal(conditional);
    reveal(block);
    reveal(expression);
}

/// The rule `function`, by its definition.
pub proof fn lemma_function(s: Seq<SpecToken>)
    ensures
        function(s) == ({
            if token_at(s, 1) == SpecToken::Unit {
                function_body(s, 1, seq![SpecToken::Unit])
            } else {
                let (names, n) = identifier_list(after(s, 1), SpecToken::Comma);
                match names {
                    Some(names) => function_body(s, 1 + n, names),
                    None => (None, 1 + n, true),
                }
            }
        }),
{
    reveal(function);
    reveal(function_body);
}

/// The rule `function_body`, by its definition.
pub proof fn lemma_function_body(s: Seq<SpecToken>, at: nat, parameter: Seq<SpecToken>)
    ensures
        function_body(s, at, parameter) == ({
            if token_at(s, at + 1) == SpecToken::Rarrow {
                if token_at(s, at + 2) == SpecToken::LeftBrace {
                    let (body, n, fits) = block(after(s, at + 2));
                    (Some(SpecExpression::Fn { parameter, body }), at + 2 + n, fits)
                } else {
                    let (value, n, fits) = expression(after(s, at + 2), Precendence::Lowest);
                    match value {
                        Some(value) => (
                            Some(
                                SpecExpression::Fn {
                                    parameter,
                                    body: seq![SpecStatement::Expression(value)],
                                },
                            ),
                            at + 2 + n,
                            fits,
                        ),
                        None => (None, at + 2 + n, fits),
                    }
                }
            } else {
                (None, at, true)
            }
        }),
{
    reveal(function_body);
    reveal(block);
    reveal(expression);
}

/// The rule `call`, by its definition.
pub proof fn lemma_call(s: Seq<SpecToken>, callee: SpecExpression)
    ensures
        call(s, callee) == ({
            let (arguments, n, fits) = expression_list(s, SpecToken::RightParen);
            match arguments {
                Some(arguments) => (
                    Some(SpecExpression::Call { map: Box::new(callee), domain: arguments }),
                    n,
                    fits,
                ),
                None => (None, n, fits),
            }
        }),
{
    reveal(call);
    reveal(expression_list);
}

/// The rule `list_literal`, by its definition.
pub proof fn lemma_list_literal(s: Seq<SpecToken>, closing: SpecToken)
    ensures
        list_literal(s, closing) == ({
            let (items, n, fits) = expression_list(s, closing);
            match items {
                Some(items) => (Some(SpecExpression::Literal(SpecLiteral::List(Some(items)))), n, fits),
                None => (None, n, fits),
            }
        }),
{
    reveal(list_literal);
    reveal(expression_list);
}

/// The rule `expression_list`, by its definition.
pub proof fn lemma_expression_list(s: Seq<SpecToken>, closing: SpecToken)
    ensures
        expression_list(s, closing) == ({
            if token_at(s, 1) == closing {
                (Some(Seq::empty()), 1, true)
            } else {
                let (first, n, fits) = expression(after(s, 1), Precendence::Lowest);
                match first {
                    Some(first) => {
                        let (others, m, others_fit) = more_expressions(after(s, 1 + n), closing);
                        match others {
                            Some(others) => (Some(seq![first] + others), 1 + n + m, fits && others_fit),
                            None => (None, 1 + n + m, fits && others_fit),
                        }
                    },
                    None => (None, 1 + n, fits),
                }
            }
        }),
{
    reveal(expression_list);
    reveal(expression);
    reveal(more_expressions);
}

/// The rule `more_expressions`, by its definition.
pub proof fn lemma_more_expressions(s: Seq<SpecToken>, closing: SpecToken)
    ensures
        more_expressions(s, closing) == ({
            if token_at(s, 1) == SpecToken::Comma {
                let (next, n, fits) = expression(after(s, 2), Precendence::Lowest);
                match next {
                    Some(next) => {
                        let (others, m, others_fit) = more_expressions(after(s, 2 + n), closing);
                        match others {
                            Some(others) => (Some(seq![next] + others), 2 + n + m, fits && others_fit),
                            None => (None, 2 + n + m, fits && others_fit),
                        }
                    },
                    None => (None, 2 + n, fits),
                }
            } else if token_at(s, 1) == closing {
                (Some(Seq::empty()), 1, true)
            } else {
                (None, 0, true)
            }
        }),
{
    reveal(more_expressions);
    reveal(expression);
}

/// The rule `program`, by its definition.
pub proof fn lemma_program(s: Seq<SpecToken>)
    ensures
        program(s) == ({
            if token_at(s, 0) == SpecToken::Eof {
                (Seq::empty(), 0, true)
            } else {
                let (first, n, fits) = statement(s);
                let (others, m, others_fit) = program(after(s, n + 1));
                (
                    match first {
                        Some(first) => seq![first] + others,
                        None => others,
                    },
                    n + 1 + m,
                    fits && others_fit,
                )
            }
        }),
{
    reveal(program);
    reveal(statement);
}

} // verus!
