//! A tree-walking evaluator for programs of literals, operators and
//! conditionals.
use vstd::arithmetic::power::pow;
use vstd::pervasive::unreached;
use vstd::prelude::*;

pub mod object;
pub mod rules;

use crate::ast::{lemma_if_model, Expression, Infix, Literal, Prefix, Program, Statement};
use crate::evaluator::object::{Object, SpecObject};
use crate::evaluator::rules::{
    conditional, expression, infix_operation, integer_operation, literal, prefix_operation,
    statement, statements, truthy,
};

verus! {

/// Taken on trust of `i64::checked_pow` of the standard library: it returns
/// the power of the base where a 64-bit signed integer can hold it, and
/// nothing where it cannot.
pub assume_specification[ i64::checked_pow ](base: i64, exponent: u32) -> (power: Option<i64>)
    ensures
        power == if i64::MIN <= pow(base as int, exponent as nat) <= i64::MAX {
            Some(pow(base as int, exponent as nat) as i64)
        } else {
            None
        },
;

/// An evaluator. It holds no state: there are no variables.
pub struct Evaluator {}

impl Evaluator {
    pub fn new() -> Evaluator {
        Evaluator {}
    }

    /// Whether a value counts as true.
    fn is_truthy(object: Object) -> (yes: bool)
        ensures
            yes == truthy(object@),
    {
        match object {
            Object::Null => false,
            Object::Boolean(true) => true,
            Object::Boolean(false) => false,
            _ => true,
        }
    }

    /// Evaluates a program: the value of the first statement that returns,
    /// and else of the last statement.
    pub fn eval(&mut self, program: &Program) -> (result: Option<Object>)
        requires
            statements(program.deep_view(), 0, None, false) is Some,
        ensures
            Some(result.deep_view()) == statements(program.deep_view(), 0, None, false),
    {
        let mut result: Option<Object> = None;
        let mut i: usize = 0;
        while i < program.len()
            invariant
                i <= program.len(),
                statements(program.deep_view(), i as nat, result.deep_view(), false) == statements(
                    program.deep_view(),
                    0,
                    None,
                    false,
                ),
                statements(program.deep_view(), 0, None, false) is Some,
            decreases program.len() - i,
        {
            assert(program.deep_view()[i as int] == program[i as int].deep_view());
            match self.eval_statement(&program[i]) {
                Some(Object::Return(value)) => return Some(*value),
                obj => result = obj,
            }
            i += 1;
        }
        result
    }

    /// Evaluates a program like [`Evaluator::eval`], for every program: the
    /// outcome is nothing where evaluation meets a node that it does not
    /// support or arithmetic that overflows, which `eval` requires not to
    /// happen.
    pub fn try_eval(&mut self, program: &Program) -> (outcome: Option<Option<Object>>)
        ensures
            outcome.deep_view() == statements(program.deep_view(), 0, None, false),
    {
        self.try_statements(program, false)
    }

    /// The outcome of a list of statements, a fault included.
    fn try_statements(&mut self, program: &Program, inside_block: bool) -> (outcome: Option<
        Option<Object>,
    >)
        ensures
            outcome.deep_view() == statements(program.deep_view(), 0, None, inside_block),
        decreases program, 1nat,
    {
        let mut result: Option<Object> = None;
        let mut i: usize = 0;
        while i < program.len()
            invariant
                i <= program.len(),
                statements(program.deep_view(), i as nat, result.deep_view(), inside_block)
                    == statements(program.deep_view(), 0, None, inside_block),
            decreases program.len() - i,
        {
            assert(program.deep_view()[i as int] == program[i as int].deep_view());
            match self.try_statement(&program[i]) {
                Some(Some(Object::Return(value))) => {
                    return Some(
                        Some(
                            if inside_block {
                                Object::Return(value)
                            } else {
                                *value
                            },
                        ),
                    );
                },
                Some(obj) => result = obj,
                None => return None,
            }
            i += 1;
        }
        Some(result)
    }

    /// The outcome of a statement, a fault included.
    fn try_statement(&mut self, statement: &Statement) -> (outcome: Option<Option<Object>>)
        ensures
            outcome.deep_view() == rules::statement(statement@),
        decreases statement, 0nat,
    {
        match statement {
            Statement::Expression(expression) => self.try_expression(expression),
            Statement::Return(expression) => match self.try_expression(expression) {
                Some(Some(value)) => Some(Some(Object::Return(Box::new(value)))),
                Some(None) => Some(None),
                None => None,
            },
            _ => Some(None),
        }
    }

    /// The outcome of an expression, a fault included.
    fn try_expression(&mut self, expression: &Expression) -> (outcome: Option<Option<Object>>)
        ensures
            outcome.deep_view() == rules::expression(expression@),
        decreases expression, 0nat,
    {
        match expression {
            Expression::Literal(literal) => match literal {
                Literal::List(_) => None,
                _ => Some(Some(self.eval_literal(literal))),
            },
            Expression::Prefix(prefix, expression) => match self.try_expression(&expression) {
                Some(Some(right)) => if Self::prefix_defined(prefix, &right) {
                    Some(Some(self.eval_prefix(prefix, right)))
                } else {
                    None
                },
                Some(None) => Some(None),
                None => None,
            },
            Expression::Infix(infix, left_expression, right_expression) => {
                let left = self.try_expression(left_expression);
                let right = self.try_expression(right_expression);
                match (left, right) {
                    (Some(Some(left)), Some(Some(right))) => if Self::infix_defined(
                        infix,
                        &left,
                        &right,
                    ) {
                        Some(Some(self.eval_infix(infix, left, right)))
                    } else {
                        None
                    },
                    (Some(_), Some(_)) => Some(None),
                    _ => None,
                }
            },
            Expression::If { condition, consequence, alternative } => {
                proof {
                    lemma_if_model(**condition, *consequence, *alternative);
                }
                match self.try_expression(condition) {
                    Some(Some(cond)) => if Self::is_truthy(cond) {
                        self.try_statements(consequence, true)
                    } else if let Some(alt) = alternative {
                        self.try_statements(alt, true)
                    } else {
                        Some(None)
                    },
                    Some(None) => Some(None),
                    None => None,
                }
            },
            _ => None,
        }
    }

    /// Whether a prefix operator has a value on `object`.
    fn prefix_defined(prefix: &Prefix, object: &Object) -> (defined: bool)
        ensures
            defined == (prefix_operation(*prefix, object@) is Some),
    {
        match prefix {
            Prefix::Minus => match object {
                Object::Integer(value) => *value != i64::MIN,
                _ => true,
            },
            Prefix::Cardinal => match object {
                Object::List(items) => items.len() as u64 <= 0x7fff_ffff_ffff_ffff,
                _ => true,
            },
            _ => true,
        }
    }

    /// Whether an infix operator has a value on `left` and `right`.
    fn infix_defined(infix: &Infix, left: &Object, right: &Object) -> (defined: bool)
        ensures
            defined == (infix_operation(*infix, left@, right@) is Some),
    {
        match left {
            Object::Integer(left) => match right {
                Object::Integer(right) => match infix {
                    Infix::Plus => left.checked_add(*right).is_some(),
                    Infix::Minus => left.checked_sub(*right).is_some(),
                    Infix::Multiply => left.checked_mul(*right).is_some(),
                    Infix::Divide => left.checked_div(*right).is_some(),
                    Infix::Modulo => left.checked_rem(*right).is_some(),
                    Infix::Exponent => left.checked_pow(
                        #[verifier::truncate]
                        (*right as u32),
                    ).is_some(),
                    _ => true,
                },
                _ => true,
            },
            _ => true,
        }
    }

    /// Evaluates a statement. Only expression statements and returns have a
    /// value.
    pub fn eval_statement(&mut self, statement: &Statement) -> (result: Option<Object>)
        requires
            rules::statement(statement@) is Some,
        ensures
            Some(result.deep_view()) == rules::statement(statement@),
        decreases statement, 0nat,
    {
        match statement {
            Statement::Expression(expression) => self.eval_expression(expression),
            Statement::Return(expression) => match self.eval_expression(expression) {
                Some(value) => Some(Object::Return(Box::new(value))),
                None => return None,
            },
            _ => None,
        }
    }

    /// Evaluates an expression.
    pub fn eval_expression(&mut self, expression: &Expression) -> (result: Option<Object>)
        requires
            rules::expression(expression@) is Some,
        ensures
            Some(result.deep_view()) == rules::expression(expression@),
        decreases expression, 0nat,
    {
        match expression {
            Expression::Literal(literal) => Some(self.eval_literal(literal)),
            Expression::Prefix(prefix, expression) => match self.eval_expression(&expression) {
                Some(right) => Some(self.eval_prefix(prefix, right)),
                None => None,
            },
            Expression::Infix(infix, left_expression, right_expression) => {
                let left = self.eval_expression(left_expression);
                let right = self.eval_expression(right_expression);
                if left.is_some() && right.is_some() {
                    Some(self.eval_infix(infix, left.unwrap(), right.unwrap()))
                } else {
                    None
                }
            },
            Expression::If { condition, consequence, alternative } => {
                proof {
                    lemma_if_model(**condition, *consequence, *alternative);
                }
                let cond = match self.eval_expression(condition) {
                    Some(cond) => cond,
                    None => return None,
                };
                if Self::is_truthy(cond) {
                    self.eval_block(consequence)
                } else if let Some(alt) = alternative {
                    self.eval_block(alt)
                } else {
                    None
                }
            },
            _ => unreached(),
        }
    }

    /// Evaluates a conditional: the first block if the condition counts as
    /// true, else the second block if there is one.
    pub fn eval_if(
        &mut self,
        condition: &Expression,
        consequence: &Program,
        alternative: &Option<Program>,
    ) -> (result: Option<Object>)
        requires
            conditional(condition@, consequence.deep_view(), alternative.deep_view()) is Some,
        ensures
            Some(result.deep_view()) == conditional(
                condition@,
                consequence.deep_view(),
                alternative.deep_view(),
            ),
    {
        let cond = match self.eval_expression(condition) {
            Some(cond) => cond,
            None => return None,
        };

        if Self::is_truthy(cond) {
            return self.eval_block(consequence);
        } else if let Some(alt) = alternative {
            self.eval_block(alt)
        } else {
            None
        }
    }

    /// Evaluates the statements of a block: the value of the first
    /// statement that returns, still on its way out, and else of the last
    /// statement.
    pub fn eval_block(&mut self, program: &Program) -> (result: Option<Object>)
        requires
            statements(program.deep_view(), 0, None, true) is Some,
        ensures
            Some(result.deep_view()) == statements(program.deep_view(), 0, None, true),
        decreases program, 1nat,
    {
        let mut result: Option<Object> = None;
        let mut i: usize = 0;
        while i < program.len()
            invariant
                i <= program.len(),
                statements(program.deep_view(), i as nat, result.deep_view(), true) == statements(
                    program.deep_view(),
                    0,
                    None,
                    true,
                ),
                statements(program.deep_view(), 0, None, true) is Some,
            decreases program.len() - i,
        {
            assert(program.deep_view()[i as int] == program[i as int].deep_view());
            match self.eval_statement(&program[i]) {
                Some(Object::Return(value)) => return Some(Object::Return(value)),
                obj => result = obj,
            }
            i += 1;
        }
        result
    }

    /// Applies an infix operator to two values.
    pub fn eval_infix(&mut self, infix: &Infix, left: Object, right: Object) -> (result: Object)
        requires
            infix_operation(*infix, left@, right@) is Some,
        ensures
            Some(result@) == infix_operation(*infix, left@, right@),
    {
        match left {
            Object::Integer(left_int) => {
                if let Object::Integer(right_int) = right {
                    self.eval_infix_int(infix, left_int, right_int)
                } else {
                    Object::Null
                }
            },
            Object::Boolean(left_bool) => {
                if let Object::Boolean(right_bool) = right {
                    match infix {
                        Infix::Equal => Object::Boolean(left_bool == right_bool),
                        Infix::NotEqual => Object::Boolean(left_bool != right_bool),
                        _ => Object::Null,
                    }
                } else {
                    Object::Null
                }
            },
            _ => Object::Null,
        }
    }

    /// Applies an infix operator to two integers.
    pub fn eval_infix_int(&mut self, infix: &Infix, left_int: i64, right_int: i64) -> (result:
        Object)
        requires
            integer_operation(*infix, left_int, right_int) is Some,
        ensures
            Some(result@) == integer_operation(*infix, left_int, right_int),
    {
        match infix {
            Infix::Plus => Object::Integer(left_int + right_int),
            Infix::Minus => Object::Integer(left_int - right_int),
            Infix::Multiply => Object::Integer(left_int * right_int),
            Infix::Divide => Object::Integer(left_int.checked_div(right_int).unwrap()),
            Infix::Modulo => Object::Integer(left_int.checked_rem(right_int).unwrap()),
            Infix::Exponent => Object::Integer(
                left_int.checked_pow(
                    #[verifier::truncate]
                    (right_int as u32),
                ).unwrap(),
            ),
            Infix::LessThan => Object::Boolean(left_int < right_int),
            Infix::GreaterThan => Object::Boolean(left_int > right_int),
            Infix::Equal => Object::Boolean(left_int == right_int),
            Infix::NotEqual => Object::Boolean(left_int != right_int),
            Infix::Cons => Object::Null,
        }
    }

    /// Applies a prefix operator to a value.
    pub fn eval_prefix(&mut self, prefix: &Prefix, object: Object) -> (result: Object)
        requires
            prefix_operation(*prefix, object@) is Some,
        ensures
            Some(result@) == prefix_operation(*prefix, object@),
    {
        match prefix {
            Prefix::Not => self.eval_not_prefix(object),
            Prefix::Plus => self.eval_plus_prefix(object),
            Prefix::Minus => self.eval_minus_prefix(object),
            Prefix::Cardinal => self.eval_cardinal_prefix(object),
        }
    }

    /// Negation: true for `false` and for null, false for every other value.
    pub fn eval_not_prefix(&mut self, object: Object) -> (result: Object)
        ensures
            Some(result@) == prefix_operation(Prefix::Not, object@),
    {
        match object {
            Object::Boolean(true) => Object::Boolean(false),
            Object::Boolean(false) => Object::Boolean(true),
            Object::Null => Object::Boolean(true),
            _ => Object::Boolean(false),
        }
    }

    /// The integer itself, and null for every other value.
    pub fn eval_plus_prefix(&mut self, object: Object) -> (result: Object)
        ensures
            Some(result@) == prefix_operation(Prefix::Plus, object@),
    {
        match object {
            Object::Integer(value) => Object::Integer(value),
            _ => Object::Null,
        }
    }

    /// The negative of an integer, and null for every other value.
    pub fn eval_minus_prefix(&mut self, object: Object) -> (result: Object)
        requires
            prefix_operation(Prefix::Minus, object@) is Some,
        ensures
            Some(result@) == prefix_operation(Prefix::Minus, object@),
    {
        match object {
            Object::Integer(value) => Object::Integer(-value),
            _ => Object::Null,
        }
    }

    /// The number of items of a list, and 1 for every other value.
    pub fn eval_cardinal_prefix(&mut self, object: Object) -> (result: Object)
        requires
            prefix_operation(Prefix::Cardinal, object@) is Some,
        ensures
            Some(result@) == prefix_operation(Prefix::Cardinal, object@),
    {
        match object {
            Object::List(value) => Object::Integer(value.len() as i64),
            _ => Object::Integer(1),
        }
    }

    /// The value of a literal of an integer, a boolean or a string.
    pub fn eval_literal(&mut self, literal: &Literal) -> (result: Object)
        requires
            rules::literal(literal@) is Some,
        ensures
            Some(result@) == rules::literal(literal@),
    {
        match literal {
            Literal::Integer(value) => Object::Integer(*value),
            Literal::Boolean(value) => Object::Boolean(*value),
            Literal::String(value) => Object::String(value.clone()),
            _ => unreached(),
        }
    }
}

} // verus!
