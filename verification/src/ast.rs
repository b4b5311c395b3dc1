//! The syntax tree, and its mathematical value.
use vstd::prelude::*;

use crate::lexer::{SpecToken, Token};

verus! {

/// A name in the tree is kept as the token that spelled it.
pub type Identifier = Token;

/// A program is a sequence of statements, in source order.
pub type Program = Vec<Statement>;

/// The operators that stand in front of one operand.
#[derive(PartialEq, Eq, Structural, Clone, Copy, Debug)]
pub enum Prefix {
    Plus,
    Minus,
    Not,
    Cardinal,
}

/// The operators that stand between two operands.
#[derive(PartialEq, Eq, Structural, Clone, Copy, Debug)]
pub enum Infix {
    Plus,
    Minus,
    Divide,
    Multiply,
    Exponent,
    Equal,
    NotEqual,
    GreaterThan,
    LessThan,
    Modulo,
    Cons,
}

#[derive(Debug, PartialEq)]
pub enum Statement {
    /// A binding of a name to the value of an expression.
    Let(String, Expression),
    Return(Expression),
    /// A comment, with its text.
    Comment(String),
    /// An expression that stands as a statement.
    Expression(Expression),
}

#[derive(Debug, PartialEq)]
pub enum Literal {
    Integer(i64),
    String(String),
    Boolean(bool),
    /// A list of expressions. The parser only builds lists that are present.
    List(Option<Vec<Expression>>),
}

#[derive(Debug, PartialEq)]
pub enum Expression {
    /// The unit value, written `()` or `None`.
    Empty,
    Identifier(Identifier),
    /// The success wrapper `Ok` around an expression.
    Success(Box<Expression>),
    /// The error marker `Error`.
    Error,
    Comment(String),
    /// A disjoint union of the named alternatives.
    Type(Vec<Identifier>),
    Literal(Literal),
    Prefix(Prefix, Box<Expression>),
    Infix(Infix, Box<Expression>, Box<Expression>),
    If { condition: Box<Expression>, consequence: Program, alternative: Option<Program> },
    /// A function literal. A function without parameters has the unit token as
    /// its only parameter.
    Fn { parameter: Vec<Identifier>, body: Program },
    /// A call of `map` on the arguments `domain`.
    Call { map: Box<Expression>, domain: Vec<Expression> },
}

/// The mathematical value of a [`Statement`].
pub enum SpecStatement {
    Let(Seq<char>, SpecExpression),
    Return(SpecExpression),
    Comment(Seq<char>),
    Expression(SpecExpression),
}

/// The mathematical value of a [`Literal`].
pub enum SpecLiteral {
    Integer(int),
    String(Seq<char>),
    Boolean(bool),
    List(Option<Seq<SpecExpression>>),
}

/// The mathematical value of an [`Expression`].
pub enum SpecExpression {
    Empty,
    Identifier(SpecToken),
    Success(Box<SpecExpression>),
    Error,
    Comment(Seq<char>),
    Type(Seq<SpecToken>),
    Literal(SpecLiteral),
    Prefix(Prefix, Box<SpecExpression>),
    Infix(Infix, Box<SpecExpression>, Box<SpecExpression>),
    If {
        condition: Box<SpecExpression>,
        consequence: Seq<SpecStatement>,
        alternative: Option<Seq<SpecStatement>>,
    },
    Fn { parameter: Seq<SpecToken>, body: Seq<SpecStatement> },
    Call { map: Box<SpecExpression>, domain: Seq<SpecExpression> },
}

/// Whether the tokens are identifiers, one at least.
pub open spec fn identifiers(names: Seq<SpecToken>) -> bool {
    names.len() > 0 && forall|i: int| 0 <= i < names.len() ==> #[trigger] names[i] is Identifier
}

impl SpecExpression {
    /// Whether every node of the expression is complete: a list literal has
    /// its items, an identifier is an identifier token, a type annotation
    /// names at least one alternative, the parameters of a function are the
    /// unit token alone or identifiers, and no node is a comment.
    pub open spec fn complete(self) -> bool
        decreases self,
    {
        match self {
            SpecExpression::Empty => true,
            SpecExpression::Identifier(name) => name is Identifier,
            SpecExpression::Success(inner) => inner.complete(),
            SpecExpression::Error => true,
            SpecExpression::Comment(_) => false,
            SpecExpression::Type(names) => identifiers(names),
            SpecExpression::Literal(literal) => match literal {
                SpecLiteral::List(Some(items)) => forall|i: int|
                    0 <= i < items.len() ==> (#[trigger] items[i]).complete(),
                SpecLiteral::List(None) => false,
                _ => true,
            },
            SpecExpression::Prefix(_, operand) => operand.complete(),
            SpecExpression::Infix(_, left, right) => left.complete() && right.complete(),
            SpecExpression::If { condition, consequence, alternative } => {
                &&& condition.complete()
                &&& forall|i: int|
                    0 <= i < consequence.len() ==> (#[trigger] consequence[i]).complete()
                &&& match alternative {
                    Some(block) => forall|i: int|
                        0 <= i < block.len() ==> (#[trigger] block[i]).complete(),
                    None => true,
                }
            },
            SpecExpression::Fn { parameter, body } => {
                &&& parameter == seq![SpecToken::Unit] || identifiers(parameter)
                &&& forall|i: int| 0 <= i < body.len() ==> (#[trigger] body[i]).complete()
            },
            SpecExpression::Call { map, domain } => {
                &&& map.complete()
                &&& forall|i: int| 0 <= i < domain.len() ==> (#[trigger] domain[i]).complete()
            },
        }
    }
}

impl SpecStatement {
    /// Whether every node of the statement is complete.
    pub open spec fn complete(self) -> bool
        decreases self,
    {
        match self {
            SpecStatement::Let(_, value) => value.complete(),
            SpecStatement::Return(value) => value.complete(),
            SpecStatement::Comment(_) => true,
            SpecStatement::Expression(value) => value.complete(),
        }
    }
}

/// Whether every statement of the list is complete.
pub open spec fn complete(statements: Seq<SpecStatement>) -> bool {
    forall|i: int| 0 <= i < statements.len() ==> (#[trigger] statements[i]).complete()
}

impl Statement {
    /// The value of the statement, node by node.
    pub open spec fn model(&self) -> SpecStatement
        decreases self,
    {
        match self {
            Statement::Let(name, value) => SpecStatement::Let(name@, value.model()),
            Statement::Return(value) => SpecStatement::Return(value.model()),
            Statement::Comment(text) => SpecStatement::Comment(text@),
            Statement::Expression(value) => SpecStatement::Expression(value.model()),
        }
    }
}

impl Literal {
    /// The value of the literal, node by node.
    pub open spec fn model(&self) -> SpecLiteral
        decreases self,
    {
        match self {
            Literal::Integer(value) => SpecLiteral::Integer(*value as int),
            Literal::String(text) => SpecLiteral::String(text@),
            Literal::Boolean(value) => SpecLiteral::Boolean(*value),
            Literal::List(None) => SpecLiteral::List(None),
            Literal::List(Some(items)) => SpecLiteral::List(
                Some(
                    Seq::new(
                        items.len() as nat,
                        |i: int|
                            if 0 <= i < items.len() {
                                items[i].model()
                            } else {
                                SpecExpression::Empty
                            },
                    ),
                ),
            ),
        }
    }
}

impl Expression {
    /// The value of the expression, node by node.
    pub open spec fn model(&self) -> SpecExpression
        decreases self,
    {
        match self {
            Expression::Empty => SpecExpression::Empty,
            Expression::Identifier(name) => SpecExpression::Identifier(name@),
            Expression::Success(inner) => SpecExpression::Success(Box::new(inner.model())),
            Expression::Error => SpecExpression::Error,
            Expression::Comment(text) => SpecExpression::Comment(text@),
            Expression::Type(names) => SpecExpression::Type(names.deep_view()),
            Expression::Literal(literal) => SpecExpression::Literal(literal.model()),
            Expression::Prefix(operator, operand) => SpecExpression::Prefix(
                *operator,
                Box::new(operand.model()),
            ),
            Expression::Infix(operator, left, right) => SpecExpression::Infix(
                *operator,
                Box::new(left.model()),
                Box::new(right.model()),
            ),
            Expression::If { condition, consequence, alternative } => SpecExpression::If {
                condition: Box::new(condition.model()),
                consequence: Seq::new(
                    consequence.len() as nat,
                    |i: int|
                        if 0 <= i < consequence.len() {
                            consequence[i].model()
                        } else {
                            SpecStatement::Expression(SpecExpression::Empty)
                        },
                ),
                alternative: match alternative {
                    Some(block) => Some(
                        Seq::new(
                            block.len() as nat,
                            |i: int|
                                if 0 <= i < block.len() {
                                    block[i].model()
                                } else {
                                    SpecStatement::Expression(SpecExpression::Empty)
                                },
                        ),
                    ),
                    None => None,
                },
            },
            Expression::Fn { parameter, body } => SpecExpression::Fn {
                parameter: parameter.deep_view(),
                body: Seq::new(
                    body.len() as nat,
                    |i: int|
                        if 0 <= i < body.len() {
                            body[i].model()
                        } else {
                            SpecStatement::Expression(SpecExpression::Empty)
                        },
                ),
            },
            Expression::Call { map, domain } => SpecExpression::Call {
                map: Box::new(map.model()),
                domain: Seq::new(
                    domain.len() as nat,
                    |i: int|
                        if 0 <= i < domain.len() {
                            domain[i].model()
                        } else {
                            SpecExpression::Empty
                        },
                ),
            },
        }
    }
}

impl View for Statement {
    type V = SpecStatement;

    open spec fn view(&self) -> SpecStatement {
        self.model()
    }
}

impl DeepView for Statement {
    type V = SpecStatement;

    open spec fn deep_view(&self) -> SpecStatement {
        self.model()
    }
}

impl View for Literal {
    type V = SpecLiteral;

    open spec fn view(&self) -> SpecLiteral {
        self.model()
    }
}

impl DeepView for Literal {
    type V = SpecLiteral;

    open spec fn deep_view(&self) -> SpecLiteral {
        self.model()
    }
}

impl View for Expression {
    type V = SpecExpression;

    open spec fn view(&self) -> SpecExpression {
        self.model()
    }
}

impl DeepView for Expression {
    type V = SpecExpression;

    open spec fn deep_view(&self) -> SpecExpression {
        self.model()
    }
}

/// A list literal has the values of its items, in order.
pub proof fn lemma_list_model(items: Vec<Expression>)
    ensures
        Literal::List(Some(items)).model() == SpecLiteral::List(Some(items.deep_view())),
{
    assert(Literal::List(Some(items)).model()->List_0->0 =~= items.deep_view());
}

/// A conditional has the values of its condition and of the statements of its
/// blocks, in order.
pub proof fn lemma_if_model(
    condition: Expression,
    consequence: Program,
    alternative: Option<Program>,
)
    ensures
        (Expression::If { condition: Box::new(condition), consequence, alternative }).model() == (
        SpecExpression::If {
            condition: Box::new(condition.model()),
            consequence: consequence.deep_view(),
            alternative: alternative.deep_view(),
        }),
{
    let node = Expression::If { condition: Box::new(condition), consequence, alternative };
    assert(node.model()->If_consequence =~= consequence.deep_view());
    match alternative {
        Some(block) => {
            assert(node.model()->If_alternative->0 =~= block.deep_view());
        },
        None => {},
    }
}

/// A function literal has its parameters and the values of the statements of
/// its body, in order.
pub proof fn lemma_fn_model(parameter: Vec<Identifier>, body: Program)
    ensures
        (Expression::Fn { parameter, body }).model() == (SpecExpression::Fn {
            parameter: parameter.deep_view(),
            body: body.deep_view(),
        }),
{
    let node = Expression::Fn { parameter, body };
    assert(node.model()->Fn_body =~= body.deep_view());
}

/// A call has the values of its callee and of its arguments, in order.
pub proof fn lemma_call_model(map: Expression, domain: Vec<Expression>)
    ensures
        (Expression::Call { map: Box::new(map), domain }).model() == (SpecExpression::Call {
            map: Box::new(map.model()),
            domain: domain.deep_view(),
        }),
{
    let node = Expression::Call { map: Box::new(map), domain };
    assert(node.model()->Call_domain =~= domain.deep_view());
}

} // verus!
