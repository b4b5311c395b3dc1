//! What evaluation yields, stated over the values of syntax trees.
//!
//! An evaluation ends in one of three ways: with a value, with no value, or
//! in a fault. A fault is a node that evaluation does not support, or
//! arithmetic that a 64-bit signed integer cannot hold. The outcome is an
//! optional value, and no outcome at all stands for a fault.
use vstd::arithmetic::power::pow;
use vstd::prelude::*;

use crate::ast::{Infix, Prefix, SpecExpression, SpecLiteral, SpecStatement};
use crate::evaluator::object::SpecObject;

verus! {

/// Whether a value counts as true: every value but null and `false`.
pub open spec fn truthy(object: SpecObject) -> bool {
    match object {
        SpecObject::Null => false,
        SpecObject::Boolean(value) => value,
        _ => true,
    }
}

/// The integer `value` as an outcome: a fault where a 64-bit signed integer
/// cannot hold it.
pub open spec fn integer(value: int) -> Option<SpecObject> {
    if i64::MIN <= value <= i64::MAX {
        Some(SpecObject::Integer(value))
    } else {
        None
    }
}

/// The value of an infix operator on two integers. Division and remainder
/// truncate towards zero and fault on a zero divisor; the exponent is the
/// right operand taken as an unsigned 32-bit integer.
pub open spec fn integer_operation(operator: Infix, left: i64, right: i64) -> Option<
    SpecObject,
> {
    match operator {
        Infix::Plus => integer(left + right),
        Infix::Minus => integer(left - right),
        Infix::Multiply => integer(left * right),
        Infix::Divide => match i64::checked_div(left, right) {
            Some(quotient) => Some(SpecObject::Integer(quotient as int)),
            None => None,
        },
        Infix::Modulo => match i64::checked_rem(left, right) {
            Some(remainder) => Some(SpecObject::Integer(remainder as int)),
            None => None,
        },
        Infix::Exponent => integer(pow(left as int, (right as u32) as nat)),
        Infix::LessThan => Some(SpecObject::Boolean(left < right)),
        Infix::GreaterThan => Some(SpecObject::Boolean(left > right)),
        Infix::Equal => Some(SpecObject::Boolean(left == right)),
        Infix::NotEqual => Some(SpecObject::Boolean(left != right)),
        Infix::Cons => Some(SpecObject::Null),
    }
}

/// The value of an infix operator on two values: arithmetic and comparison
/// on two integers, equality on two booleans, and null otherwise.
pub open spec fn infix_operation(operator: Infix, left: SpecObject, right: SpecObject) -> Option<
    SpecObject,
> {
    match (left, right) {
        (SpecObject::Integer(left), SpecObject::Integer(right)) => integer_operation(
            operator,
            left as i64,
            right as i64,
        ),
        (SpecObject::Boolean(left), SpecObject::Boolean(right)) => match operator {
            Infix::Equal => Some(SpecObject::Boolean(left == right)),
            Infix::NotEqual => Some(SpecObject::Boolean(left != right)),
            _ => Some(SpecObject::Null),
        },
        _ => Some(SpecObject::Null),
    }
}

/// The value of a prefix operator on a value.
pub open spec fn prefix_operation(operator: Prefix, object: SpecObject) -> Option<SpecObject> {
    match operator {
        Prefix::Not => Some(
            SpecObject::Boolean(
                match object {
                    SpecObject::Boolean(value) => !value,
                    SpecObject::Null => true,
                    _ => false,
                },
            ),
        ),
        Prefix::Plus => Some(
            match object {
                SpecObject::Integer(value) => SpecObject::Integer(value),
                _ => SpecObject::Null,
            },
        ),
        Prefix::Minus => match object {
            SpecObject::Integer(value) => integer(-value),
            _ => Some(SpecObject::Null),
        },
        Prefix::Cardinal => match object {
            SpecObject::List(items) => integer(items.len() as int),
            _ => Some(SpecObject::Integer(1)),
        },
    }
}

/// The value of a literal. Lists are not supported.
pub open spec fn literal(literal: SpecLiteral) -> Option<SpecObject> {
    match literal {
        SpecLiteral::Integer(value) => Some(SpecObject::Integer(value)),
        SpecLiteral::Boolean(value) => Some(SpecObject::Boolean(value)),
        SpecLiteral::String(text) => Some(SpecObject::String(text)),
        SpecLiteral::List(_) => None,
    }
}

/// The outcome of an expression. Literals but lists, prefix and infix
/// operations and conditionals are supported; a conditional has the outcome
/// of the block that its condition chooses. Both operands of an infix
/// operator are evaluated, the left one first.
pub open spec fn expression(e: SpecExpression) -> Option<Option<SpecObject>>
    decreases e, 0nat,
{
    match e {
        SpecExpression::Literal(value) => match literal(value) {
            Some(object) => Some(Some(object)),
            None => None,
        },
        SpecExpression::Prefix(operator, operand) => match expression(*operand) {
            Some(Some(object)) => match prefix_operation(operator, object) {
                Some(object) => Some(Some(object)),
                None => None,
            },
            Some(None) => Some(None),
            None => None,
        },
        SpecExpression::Infix(operator, left, right) => match (
            expression(*left),
            expression(*right),
        ) {
            (Some(Some(left)), Some(Some(right))) => match infix_operation(operator, left, right) {
                Some(object) => Some(Some(object)),
                None => None,
            },
            (Some(_), Some(_)) => Some(None),
            _ => None,
        },
        SpecExpression::If { condition, consequence, alternative } => match expression(
            *condition,
        ) {
            Some(Some(object)) => if truthy(object) {
                statements(consequence, 0, None, true)
            } else {
                match alternative {
                    Some(alternative) => statements(alternative, 0, None, true),
                    None => Some(None),
                }
            },
            Some(None) => Some(None),
            None => None,
        },
        _ => None,
    }
}

/// The outcome of a conditional: that of the first block if the condition
/// has a value that counts as true, else that of the second block if there
/// is one, and no value otherwise.
pub open spec fn conditional(
    condition: SpecExpression,
    consequence: Seq<SpecStatement>,
    alternative: Option<Seq<SpecStatement>>,
) -> Option<Option<SpecObject>> {
    expression(SpecExpression::If { condition: Box::new(condition), consequence, alternative })
}

/// The outcome of a statement: that of its expression for an expression
/// statement, the same wrapped as a returning value for a return, and no
/// value for the others.
pub open spec fn statement(s: SpecStatement) -> Option<Option<SpecObject>>
    decreases s, 0nat,
{
    match s {
        SpecStatement::Expression(value) => expression(value),
        SpecStatement::Return(value) => match expression(value) {
            Some(Some(object)) => Some(Some(SpecObject::Return(Box::new(object)))),
            Some(None) => Some(None),
            None => None,
        },
        _ => Some(None),
    }
}

/// The outcome of the statements from index `from` on, where `last` is the
/// value of the statement before them: the value of the first statement
/// that returns, and else of the last statement. Inside a block a returning
/// value stays wrapped, so that the blocks around it return as well.
pub open spec fn statements(
    list: Seq<SpecStatement>,
    from: nat,
    last: Option<SpecObject>,
    inside_block: bool,
) -> Option<Option<SpecObject>>
    decreases list, list.len() - from,
{
    if from >= list.len() {
        Some(last)
    } else {
        match statement(list[from as int]) {
            Some(Some(SpecObject::Return(value))) => Some(
                Some(
                    if inside_block {
                        SpecObject::Return(value)
                    } else {
                        *value
                    },
                ),
            ),
            Some(object) => statements(list, from + 1, object, inside_block),
            None => None,
        }
    }
}

} // verus!
