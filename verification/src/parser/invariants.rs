//! What holds of every rule of the grammar.
//!
//! Two facts, shown for all rules together by induction along the rules: a
//! rule can be carried out on every stream whose integer literals all fit,
//! and the nodes that a rule yields are complete.
use vstd::prelude::*;

use crate::ast::{complete, identifiers, SpecExpression, SpecStatement};
use crate::lexer::rules::numerals_fit;
use crate::lexer::SpecToken;
use crate::parser::grammar::{
    block, block_items, call, conditional, continuation, entry, expression, expression_list,
    expression_statement, function, function_body, grouped, identifier_list, infix_operation,
    infix_operator, lemma_numerals_fit_after, lemma_numerals_fit_at, let_statement, list_literal,
    more_expressions, operand, precedence_of, prefix_operation, prefix_operator, program,
    return_statement, statement, success, type_annotation,
};
use crate::parser::stream::{after, group_stream, token_at};
use crate::parser::unfold::{
    lemma_block, lemma_block_items, lemma_call, lemma_conditional, lemma_continuation,
    lemma_expression, lemma_expression_list, lemma_expression_statement, lemma_function,
    lemma_function_body, lemma_grouped, lemma_infix_operation, lemma_let_statement,
    lemma_list_literal, lemma_more_expressions, lemma_operand, lemma_prefix_operation,
    lemma_program, lemma_return_statement, lemma_statement, lemma_success,
};
use crate::parser::Precendence;

verus! {

broadcast use {group_stream, lemma_numerals_fit_after};

/// Whether all items of the list are complete.
pub open spec fn all_complete(items: Seq<SpecExpression>) -> bool {
    forall|i: int| 0 <= i < items.len() ==> (#[trigger] items[i]).complete()
}

/// A statement in front of complete statements makes complete statements.
proof fn lemma_complete_cons(first: SpecStatement, others: Seq<SpecStatement>)
    requires
        first.complete(),
        complete(others),
    ensures
        complete(seq![first] + others),
{
    let all = seq![first] + others;
    assert forall|i: int| 0 <= i < all.len() implies (#[trigger] all[i]).complete() by {
        if i > 0 {
            assert(all[i] == others[i - 1]);
        }
    }
}

/// An expression in front of complete expressions makes complete
/// expressions.
proof fn lemma_all_complete_cons(first: SpecExpression, others: Seq<SpecExpression>)
    requires
        first.complete(),
        all_complete(others),
    ensures
        all_complete(seq![first] + others),
{
    let all = seq![first] + others;
    assert forall|i: int| 0 <= i < all.len() implies (#[trigger] all[i]).complete() by {
        if i > 0 {
            assert(all[i] == others[i - 1]);
        }
    }
}

/// A list of identifiers holds identifiers, one at least.
pub proof fn lemma_identifier_list(s: Seq<SpecToken>, separator: SpecToken)
    ensures
        identifier_list(s, separator).0 matches Some(names) ==> identifiers(names),
    decreases s.len(),
{
    if token_at(s, 0) is Identifier && token_at(s, 1) == separator {
        lemma_identifier_list(after(s, 2), separator);
        match identifier_list(after(s, 2), separator).0 {
            Some(names) => {
                let all = seq![token_at(s, 0)] + names;
                assert forall|i: int| 0 <= i < all.len() implies #[trigger] all[i]
                    is Identifier by {
                    if i > 0 {
                        assert(all[i] == names[i - 1]);
                    }
                }
            },
            None => {},
        }
    }
}

/// The rule `statement` can be carried out where all integer literals fit, and
/// what it yields is complete.
pub proof fn lemma_statement_holds(s: Seq<SpecToken>)
    ensures
        numerals_fit(s) ==> statement(s).2,
        statement(s).0 matches Some(node) ==> node.complete(),
    decreases s.len(), 9nat,
{
    lemma_statement(s);
    match token_at(s, 0) {
        SpecToken::Let => lemma_let_statement_holds(s),
        SpecToken::Return => lemma_return_statement_holds(s),
        SpecToken::Comment(_) => {},
        _ => lemma_expression_statement_holds(s),
    }
}

/// The rule `let_statement` can be carried out where all integer literals fit, and
/// what it yields is complete.
pub proof fn lemma_let_statement_holds(s: Seq<SpecToken>)
    ensures
        numerals_fit(s) ==> let_statement(s).2,
        let_statement(s).0 matches Some(node) ==> node.complete(),
    decreases s.len(), 8nat,
{
    lemma_let_statement(s);
    if token_at(s, 1) is Identifier && token_at(s, 2) == SpecToken::Assign {
        lemma_expression_holds(after(s, 3), Precendence::Lowest);
    }
}

/// The rule `return_statement` can be carried out where all integer literals fit, and
/// what it yields is complete.
pub proof fn lemma_return_statement_holds(s: Seq<SpecToken>)
    ensures
        numerals_fit(s) ==> return_statement(s).2,
        return_statement(s).0 matches Some(node) ==> node.complete(),
    decreases s.len(), 8nat,
{
    lemma_return_statement(s);
    if token_at(s, 0) == SpecToken::Return {
        lemma_expression_holds(after(s, 1), Precendence::Lowest);
    }
}

/// The rule `expression_statement` can be carried out where all integer literals fit, and
/// what it yields is complete.
pub proof fn lemma_expression_statement_holds(s: Seq<SpecToken>)
    ensures
        numerals_fit(s) ==> expression_statement(s).2,
        expression_statement(s).0 matches Some(node) ==> node.complete(),
    decreases s.len(), 7nat,
{
    lemma_expression_statement(s);
    lemma_expression_holds(s, Precendence::Lowest);
}

/// The rule `block_items` can be carried out where all integer literals fit, and
/// what it yields is complete.
pub proof fn lemma_block_items_holds(s: Seq<SpecToken>)
    ensures
        numerals_fit(s) ==> block_items(s).2,
        complete(block_items(s).0),
    decreases s.len(), 10nat,
{
    lemma_block_items(s);
    if !(token_at(s, 0) == SpecToken::RightBrace || token_at(s, 0) == SpecToken::Eof) {
        lemma_statement_holds(s);
        lemma_block_items_holds(after(s, statement(s).1 + 1));
        match statement(s).0 {
            Some(first) => {
                lemma_complete_cons(first, block_items(after(s, statement(s).1 + 1)).0);
            },
            None => {},
        }
    }
}

/// The rule `block` can be carried out where all integer literals fit, and
/// what it yields is complete.
pub proof fn lemma_block_holds(s: Seq<SpecToken>)
    ensures
        numerals_fit(s) ==> block(s).2,
        complete(block(s).0),
    decreases s.len(), entry(s, 11, 0),
{
    lemma_block(s);
    lemma_block_items_holds(after(s, 1));
}

/// The rule `expression` can be carried out where all integer literals fit, and
/// what it yields is complete.
pub proof fn lemma_expression_holds(s: Seq<SpecToken>, limit: Precendence)
    ensures
        numerals_fit(s) ==> expression(s, limit).2,
        expression(s, limit).0 matches Some(node) ==> node.complete(),
    decreases s.len(), 6nat,
{
    lemma_expression(s, limit);
    lemma_operand_holds(s);
    match operand(s).0 {
        Some(left) => lemma_continuation_holds(after(s, operand(s).1), left, limit),
        None => {},
    }
}

/// The rule `operand` can be carried out where all integer literals fit, and
/// what it yields is complete.
pub proof fn lemma_operand_holds(s: Seq<SpecToken>)
    ensures
        numerals_fit(s) ==> operand(s).2,
        operand(s).0 matches Some(node) ==> node.complete(),
    decreases s.len(), 5nat,
{
    lemma_operand(s);
    match token_at(s, 0) {
        SpecToken::Integer(_) => {
            if numerals_fit(s) {
                lemma_numerals_fit_at(s, 0);
            }
        },
        SpecToken::Bang | SpecToken::Minus | SpecToken::Cardinal => lemma_prefix_operation_holds(
            s,
        ),
        SpecToken::If => lemma_conditional_holds(s),
        SpecToken::Fn => lemma_function_holds(s),
        SpecToken::LeftParen => lemma_grouped_holds(s),
        SpecToken::LeftBrace => lemma_list_literal_holds(s, SpecToken::RightBrace),
        SpecToken::LeftBracket => lemma_list_literal_holds(s, SpecToken::RightBracket),
        SpecToken::Type => {
            if token_at(s, 1) == SpecToken::Vbar {
                lemma_identifier_list(after(s, 2), SpecToken::Vbar);
            }
        },
        SpecToken::OkWord => lemma_success_holds(s),
        _ => {},
    }
}

/// The rule `continuation` can be carried out where all integer literals fit, and
/// what it yields is complete.
pub proof fn lemma_continuation_holds(s: Seq<SpecToken>, left: SpecExpression, limit: Precendence)
    requires
        left.complete(),
    ensures
        numerals_fit(s) ==> continuation(s, left, limit).2,
        continuation(s, left, limit).0 matches Some(node) ==> node.complete(),
    decreases s.len(), 0nat,
{
    lemma_continuation(s, left, limit);
    if limit.level() < precedence_of(token_at(s, 1)).level() {
        let joined = if token_at(s, 1) == SpecToken::LeftParen {
            lemma_call_holds(after(s, 1), left);
            call(after(s, 1), left)
        } else {
            lemma_infix_operation_holds(after(s, 1), left);
            infix_operation(after(s, 1), left)
        };
        match joined.0 {
            Some(node) => lemma_continuation_holds(after(s, 1 + joined.1), node, limit),
            None => {},
        }
    }
}

/// The rule `infix_operation` can be carried out where all integer literals fit, and
/// what it yields is complete.
pub proof fn lemma_infix_operation_holds(s: Seq<SpecToken>, left: SpecExpression)
    requires
        left.complete(),
    ensures
        numerals_fit(s) ==> infix_operation(s, left).2,
        infix_operation(s, left).0 matches Some(node) ==> node.complete(),
    decreases s.len(), 4nat,
{
    lemma_infix_operation(s, left);
    if infix_operator(token_at(s, 0)) is Some {
        lemma_expression_holds(after(s, 1), precedence_of(token_at(s, 0)));
    }
}

/// The rule `prefix_operation` can be carried out where all integer literals fit, and
/// what it yields is complete.
pub proof fn lemma_prefix_operation_holds(s: Seq<SpecToken>)
    ensures
        numerals_fit(s) ==> prefix_operation(s).2,
        prefix_operation(s).0 matches Some(node) ==> node.complete(),
    decreases s.len(), 4nat,
{
    lemma_prefix_operation(s);
    if prefix_operator(token_at(s, 0)) is Some {
        lemma_expression_holds(after(s, 1), Precendence::Prefix);
    }
}

/// The rule `success` can be carried out where all integer literals fit, and
/// what it yields is complete.
pub proof fn lemma_success_holds(s: Seq<SpecToken>)
    ensures
        numerals_fit(s) ==> success(s).2,
        success(s).0 matches Some(node) ==> node.complete(),
    decreases s.len(), 4nat,
{
    lemma_success(s);
    if token_at(s, 0) == SpecToken::OkWord {
        lemma_expression_holds(after(s, 1), Precendence::Lowest);
    }
}

/// The rule `grouped` can be carried out where all integer literals fit, and
/// what it yields is complete.
pub proof fn lemma_grouped_holds(s: Seq<SpecToken>)
    ensures
        numerals_fit(s) ==> grouped(s).2,
        grouped(s).0 matches Some(node) ==> node.complete(),
    decreases s.len(), entry(s, 12, 4),
{
    lemma_grouped(s);
    lemma_expression_holds(after(s, 1), Precendence::Lowest);
}

/// The rule `conditional` can be carried out where all integer literals fit, and
/// what it yields is complete.
pub proof fn lemma_conditional_holds(s: Seq<SpecToken>)
    ensures
        numerals_fit(s) ==> conditional(s).2,
        conditional(s).0 matches Some(node) ==> node.complete(),
    decreases s.len(), entry(s, 12, 4),
{
    lemma_conditional(s);
    lemma_expression_holds(after(s, 1), Precendence::Lowest);
    let (condition, n, _) = expression(after(s, 1), Precendence::Lowest);
    if condition is Some {
        lemma_block_holds(after(s, 1 + n + 1));
        let end = 1 + n + 1 + block(after(s, 1 + n + 1)).1;
        if token_at(s, end + 1) == SpecToken::Else && token_at(s, end + 2)
            == SpecToken::LeftBrace {
            lemma_block_holds(after(s, end + 2));
        }
    }
}

/// The rule `function` can be carried out where all integer literals fit, and
/// what it yields is complete.
pub proof fn lemma_function_holds(s: Seq<SpecToken>)
    ensures
        numerals_fit(s) ==> function(s).2,
        function(s).0 matches Some(node) ==> node.complete(),
    decreases s.len(), 4nat,
{
    lemma_function(s);
    if token_at(s, 1) == SpecToken::Unit {
        lemma_function_body_holds(s, 1, seq![SpecToken::Unit]);
    } else {
        lemma_identifier_list(after(s, 1), SpecToken::Comma);
        let (names, n) = identifier_list(after(s, 1), SpecToken::Comma);
        match names {
            Some(names) => lemma_function_body_holds(s, 1 + n, names),
            None => {},
        }
    }
}

/// The rule `function_body` can be carried out where all integer literals fit, and
/// what it yields is complete.
pub proof fn lemma_function_body_holds(s: Seq<SpecToken>, at: nat, parameter: Seq<SpecToken>)
    requires
        parameter == seq![SpecToken::Unit] || identifiers(parameter),
    ensures
        numerals_fit(s) ==> function_body(s, at, parameter).2,
        function_body(s, at, parameter).0 matches Some(node) ==> node.complete(),
    decreases s.len(), 3nat,
{
    lemma_function_body(s, at, parameter);
    if token_at(s, at + 1) == SpecToken::Rarrow {
        if token_at(s, at + 2) == SpecToken::LeftBrace {
            lemma_block_holds(after(s, at + 2));
        } else {
            lemma_expression_holds(after(s, at + 2), Precendence::Lowest);
            match expression(after(s, at + 2), Precendence::Lowest).0 {
                Some(value) => {
                    let body = seq![SpecStatement::Expression(value)];
                    assert(body[0].complete());
                    assert(complete(body));
                },
                None => {},
            }
        }
    }
}

/// The rule `call` can be carried out where all integer literals fit, and
/// what it yields is complete.
pub proof fn lemma_call_holds(s: Seq<SpecToken>, callee: SpecExpression)
    requires
        callee.complete(),
    ensures
        numerals_fit(s) ==> call(s, callee).2,
        call(s, callee).0 matches Some(node) ==> node.complete(),
    decreases s.len(), entry(s, 13, 4),
{
    lemma_call(s, callee);
    lemma_expression_list_holds(s, SpecToken::RightParen);
}

/// The rule `list_literal` can be carried out where all integer literals fit, and
/// what it yields is complete.
pub proof fn lemma_list_literal_holds(s: Seq<SpecToken>, closing: SpecToken)
    ensures
        numerals_fit(s) ==> list_literal(s, closing).2,
        list_literal(s, closing).0 matches Some(node) ==> node.complete(),
    decreases s.len(), entry(s, 13, 4),
{
    lemma_list_literal(s, closing);
    lemma_expression_list_holds(s, closing);
}

/// The rule `expression_list` can be carried out where all integer literals fit, and
/// what it yields is complete.
pub proof fn lemma_expression_list_holds(s: Seq<SpecToken>, closing: SpecToken)
    ensures
        numerals_fit(s) ==> expression_list(s, closing).2,
        expression_list(s, closing).0 matches Some(items) ==> all_complete(items),
    decreases s.len(), entry(s, 12, 3),
{
    lemma_expression_list(s, closing);
    if token_at(s, 1) != closing {
        lemma_expression_holds(after(s, 1), Precendence::Lowest);
        let (first, n, _) = expression(after(s, 1), Precendence::Lowest);
        match first {
            Some(first) => {
                lemma_more_expressions_holds(after(s, 1 + n), closing);
                match more_expressions(after(s, 1 + n), closing).0 {
                    Some(others) => lemma_all_complete_cons(first, others),
                    None => {},
                }
            },
            None => {},
        }
    }
}

/// The rule `more_expressions` can be carried out where all integer literals fit, and
/// what it yields is complete.
pub proof fn lemma_more_expressions_holds(s: Seq<SpecToken>, closing: SpecToken)
    ensures
        numerals_fit(s) ==> more_expressions(s, closing).2,
        more_expressions(s, closing).0 matches Some(items) ==> all_complete(items),
    decreases s.len(), 0nat,
{
    lemma_more_expressions(s, closing);
    if token_at(s, 1) == SpecToken::Comma {
        lemma_expression_holds(after(s, 2), Precendence::Lowest);
        let (next, n, _) = expression(after(s, 2), Precendence::Lowest);
        match next {
            Some(next) => {
                lemma_more_expressions_holds(after(s, 2 + n), closing);
                match more_expressions(after(s, 2 + n), closing).0 {
                    Some(others) => lemma_all_complete_cons(next, others),
                    None => {},
                }
            },
            None => {},
        }
    }
}

/// A program can be read from every stream whose integer literals all fit,
/// and all of its statements are complete.
pub proof fn lemma_program_holds(s: Seq<SpecToken>)
    ensures
        numerals_fit(s) ==> program(s).2,
        complete(program(s).0),
    decreases s.len(),
{
    lemma_program(s);
    if token_at(s, 0) != SpecToken::Eof {
        lemma_statement_holds(s);
        lemma_program_holds(after(s, statement(s).1 + 1));
        match statement(s).0 {
            Some(first) => {
                lemma_complete_cons(first, program(after(s, statement(s).1 + 1)).0);
            },
            None => {},
        }
    }
}

} // verus!
