//! The parser: recursive descent over statements, precedence climbing over
//! expressions.
use vstd::prelude::*;

pub mod grammar;
pub mod invariants;
pub mod stream;
pub mod unfold;

use crate::ast::{Expression, Identifier, Infix, Literal, Prefix, Program, Statement};
use crate::ast::{
    complete, lemma_call_model, lemma_fn_model, lemma_if_model, lemma_list_model,
    SpecExpression, SpecLiteral, SpecStatement,
};
use crate::lexer::rules::{
    decimal_value, lemma_numerals_fit_cons, lemma_scan_token_at_end, numeral_fits, numerals_fit,
    stream_cons,
};
use crate::lexer::{decimal, Lexer, SpecToken, Token};
use crate::parser::grammar::{
    block_items, call, conditional, continuation, entry, expression, expression_list,
    expression_statement, function, function_body, grouped, identifier_list, infix_operation,
    let_statement, list_literal,
    more_expressions, operand, precedence_of, prefix_operation, return_statement,
    semicolon_distance, statement, success, type_annotation,
};
use crate::parser::invariants::lemma_program_holds;
use crate::parser::stream::{after, group_stream, token_at};
use crate::parser::unfold::{
    lemma_block, lemma_block_items, lemma_call, lemma_conditional, lemma_continuation,
    lemma_expression, lemma_expression_list, lemma_expression_statement, lemma_function,
    lemma_function_body, lemma_grouped, lemma_infix_operation, lemma_let_statement,
    lemma_list_literal, lemma_more_expressions, lemma_operand, lemma_prefix_operation,
    lemma_program, lemma_return_statement, lemma_statement, lemma_success,
};

verus! {

broadcast use group_stream;

/// How tightly an operator binds. The variants stand in rising order.
#[derive(Debug, PartialEq, Eq, PartialOrd, Ord, Structural, Clone, Copy)]
pub enum Precendence {
    Lowest,
    Equals,
    Comparison,
    Sum,
    Product,
    Prefix,
    Cons,
    Call,
}

impl Precendence {
    /// The place of the binding strength in the order, from 0 for `Lowest`.
    pub open spec fn level(self) -> int {
        match self {
            Precendence::Lowest => 0,
            Precendence::Equals => 1,
            Precendence::Comparison => 2,
            Precendence::Sum => 3,
            Precendence::Product => 4,
            Precendence::Prefix => 5,
            Precendence::Cons => 6,
            Precendence::Call => 7,
        }
    }

    /// The binding strengths are ordered strictly and totally: two of them
    /// have the same place only if they are the same.
    pub proof fn lemma_strict_order(self, other: Precendence)
        ensures
            (self.level() == other.level()) == (self == other),
            0 <= self.level() <= 7,
    {
    }

    /// The place of the binding strength in the order, from 0 for `Lowest`.
    pub fn rank(&self) -> (rank: u8)
        ensures
            rank == self.level(),
    {
        match self {
            Precendence::Lowest => 0,
            Precendence::Equals => 1,
            Precendence::Comparison => 2,
            Precendence::Sum => 3,
            Precendence::Product => 4,
            Precendence::Prefix => 5,
            Precendence::Cons => 6,
            Precendence::Call => 7,
        }
    }
}

/// The binding strength of a token that continues an expression; `Lowest` for
/// every token that does not.
pub fn token_to_precedence(token: &Token) -> (precedence: Precendence)
    ensures
        precedence == precedence_of(token@),
{
    match token {
        Token::Equal | Token::Notequal => Precendence::Equals,
        Token::Lt | Token::Gt => Precendence::Comparison,
        Token::Plus | Token::Minus => Precendence::Sum,
        Token::Fslash | Token::Asterisk | Token::Modulo | Token::Exponent => Precendence::Product,
        Token::Cons => Precendence::Cons,
        Token::LeftParen => Precendence::Call,
        _ => Precendence::Lowest,
    }
}

/// A parser over the tokens of a scanner. It holds the current token and the
/// one behind it.
#[derive(Debug)]
pub struct Parser {
    lexer: Lexer,
    current: Token,
    peek: Token,
}

impl View for Parser {
    type V = Seq<SpecToken>;

    /// The token stream: the tokens that are still to come, the current one
    /// first, up to the last one that is not the end-of-input marker.
    closed spec fn view(&self) -> Seq<SpecToken> {
        self.stream()
    }
}

impl Parser {
    #[verifier::opaque]
    spec fn stream(&self) -> Seq<SpecToken> {
        stream_cons(self.current@, stream_cons(self.peek@, self.lexer.tokens()))
    }

    /// A parser at the first token that `lexer` yields.
    pub fn new(lexer: Lexer) -> (parser: Parser)
        ensures
            parser@ == lexer.tokens(),
    {
        let mut parser = Parser { lexer, current: Token::Eof, peek: Token::Eof };
        proof {
            reveal(Parser::stream);
            reveal(after);
        }

        parser.advance();
        parser.advance();
        parser
    }

    /// The current token and the one behind it are the first two of the
    /// stream.
    proof fn lemma_window(&self)
        ensures
            self.current@ == token_at(self@, 0),
            self.peek@ == token_at(self@, 1),
    {
        reveal(Parser::stream);
        reveal(token_at);
    }

    /// A bound on the number of moves of the cursor that still change the
    /// parser: it is 0 when the current token, the one behind it and
    /// everything that the scanner has left are end-of-input markers.
    pub closed spec fn reserve(&self) -> nat {
        let unread = self.lexer.source().len() - self.lexer.position();
        let unread = if unread > 0 {
            unread as nat
        } else {
            0
        };
        let peek: nat = if self.peek@ == SpecToken::Eof {
            0
        } else {
            2
        };
        let current: nat = if self.current@ == SpecToken::Eof {
            0
        } else {
            1
        };
        4 * unread + peek + current
    }

    /// With nothing in reserve the stream is empty.
    pub proof fn lemma_reserve(&self)
        requires
            self.reserve() == 0,
        ensures
            self@.len() == 0,
    {
        reveal(Parser::stream);
    }

    /// Whether nothing is in reserve.
    fn drained(&self) -> (yes: bool)
        ensures
            yes == (self.reserve() == 0),
    {
        let at_end = self.lexer.at_end();
        at_end && matches!(self.current, Token::Eof) && matches!(self.peek, Token::Eof)
    }

    /// Whether every integer literal of the token stream can be converted.
    /// Then every rule of the grammar can be carried out, so that the
    /// functions that read statements and expressions may be called.
    pub fn integers_fit(&self) -> (fit: bool)
        ensures
            fit == numerals_fit(self@),
    {
        proof {
            reveal(Parser::stream);
            lemma_numerals_fit_cons(self.peek@, self.lexer.tokens());
            lemma_numerals_fit_cons(
                self.current@,
                stream_cons(self.peek@, self.lexer.tokens()),
            );
        }
        self.current.integer_fits() && self.peek.integer_fits() && self.lexer.integers_fit()
    }

    /// Moves the cursor to the next token.
    pub fn advance(&mut self)
        ensures
            final(self)@ == after(old(self)@, 1),
            final(self).reserve() < old(self).reserve() || old(self).reserve() == 0,
    {
        proof {
            reveal(Parser::stream);
            reveal(after);
            lemma_scan_token_at_end(self.lexer.source(), self.lexer.position());
        }
        self.current = self.peek.clone();
        self.peek = self.lexer.advance();
    }

    /// The binding strength of the token behind the current one.
    pub fn peek_precendence(&mut self) -> (precedence: Precendence)
        ensures
            *final(self) == *old(self),
            precedence == precedence_of(token_at(old(self)@, 1)),
    {
        proof {
            self.lemma_window();
        }
        token_to_precedence(&self.peek)
    }

    /// The binding strength of the current token.
    pub fn curr_precendence(&mut self) -> (precedence: Precendence)
        ensures
            *final(self) == *old(self),
            precedence == precedence_of(token_at(old(self)@, 0)),
    {
        proof {
            self.lemma_window();
        }
        token_to_precedence(&self.current)
    }

    /// Whether the current token is `token`.
    pub fn current_token_is(&mut self, token: Token) -> (yes: bool)
        ensures
            *final(self) == *old(self),
            yes == (token_at(old(self)@, 0) == token@),
    {
        proof {
            self.lemma_window();
        }
        self.current == token
    }

    /// Whether the token behind the current one is `token`.
    pub fn peek_token_is(&mut self, token: Token) -> (yes: bool)
        ensures
            *final(self) == *old(self),
            yes == (token_at(old(self)@, 1) == token@),
    {
        proof {
            self.lemma_window();
        }
        self.peek == token
    }

    /// Moves the cursor to the next token if that token is `token`, and says
    /// whether it did.
    pub fn if_peek_advance(&mut self, token: Token) -> (moved: bool)
        ensures
            moved == (token_at(old(self)@, 1) == token@),
            moved ==> final(self)@ == after(old(self)@, 1),
            !moved ==> *final(self) == *old(self),
    {
        if self.peek_token_is(token.clone()) {
            self.advance();
            return true;
        } else {
            return false;
        }
    }

    /// Reads the statements of a program up to the end of the input. A
    /// statement that cannot be read is left out, and reading goes on behind
    /// the token on which the attempt ended.
    pub fn parse(&mut self) -> (program: Program)
        requires
            grammar::program(old(self)@).2,
        ensures
            program.deep_view() == grammar::program(old(self)@).0,
            final(self)@ == after(old(self)@, grammar::program(old(self)@).1),
            token_at(final(self)@, 0) == SpecToken::Eof,
            complete(program.deep_view()),
    {
        let ghost start = self@;
        proof {
            lemma_program_holds(start);
        }
        let ghost mut used: nat = 0;
        let ghost mut read: Seq<SpecStatement> = Seq::empty();
        let mut program: Program = vec![];
        assert(program.deep_view() =~= read);
        assert(read + grammar::program(start).0 =~= grammar::program(start).0);
        while !self.current_token_is(Token::Eof)
            invariant
                start == old(self)@,
                grammar::program(self@).2,
                self@ == after(start, used),
                program.deep_view() == read,
                grammar::program(start).0 == read + grammar::program(self@).0,
                grammar::program(start).1 == used + grammar::program(self@).1,
            decreases self@.len(),
        {
            let ghost here = self@;
            proof {
                lemma_program(here);
            }
            match self.parse_statement() {
                Some(statement) => {
                    program.push(statement);
                    proof {
                        let others = grammar::program(after(here, statement_used(here) + 1)).0;
                        assert(program.deep_view() =~= read.push(statement.deep_view()));
                        assert(read + (seq![statement.deep_view()] + others) =~= read.push(
                            statement.deep_view(),
                        ) + others);
                        read = read.push(statement.deep_view());
                    }
                },
                None => {},
            };
            self.advance();
            proof {
                used = used + statement_used(here) + 1;
            }
        }
        proof {
            lemma_program(self@);
            assert(read + grammar::program(self@).0 =~= read);
        }
        program
    }

    /// Reads one statement, the cursor on its first token: a binding behind
    /// `let`, a return behind `return`, a comment, or else an expression.
    pub fn parse_statement(&mut self) -> (result: Option<Statement>)
        requires
            statement(old(self)@).2,
        ensures
            result.deep_view() == statement(old(self)@).0,
            final(self)@ == after(old(self)@, statement(old(self)@).1),
        decreases old(self)@.len(), 9nat,
    {
        proof {
            lemma_statement(self@);
            self.lemma_window();
            self.current.lemma_same_variant();
        }
        return match self.current {
            Token::Let => self.parse_let_statement(),
            Token::Return => self.parse_return_statement(),
            Token::Comment(_) => self.parse_comment_statement(),
            _ => self.parse_expression_statement(),
        };
    }

    /// Reads an expression as a statement and takes the semicolon behind it,
    /// if there is one.
    pub fn parse_expression_statement(&mut self) -> (result: Option<Statement>)
        requires
            expression_statement(old(self)@).2,
        ensures
            result.deep_view() == expression_statement(old(self)@).0,
            final(self)@ == after(old(self)@, expression_statement(old(self)@).1),
        decreases old(self)@.len(), 7nat,
    {
        proof {
            lemma_expression_statement(self@);
        }
        match self.parse_expression(Precendence::Lowest) {
            Some(expr) => {
                if self.peek_token_is(Token::Semicolon) {
                    self.advance();
                }
                Some(Statement::Expression(expr))
            },
            None => None,
        }
    }

    /// Reads an expression, the cursor on its first token, as far as its
    /// operators bind more tightly than `precendence`.
    pub fn parse_expression(&mut self, precendence: Precendence) -> (result: Option<Expression>)
        requires
            expression(old(self)@, precendence).2,
        ensures
            result.deep_view() == expression(old(self)@, precendence).0,
            final(self)@ == after(old(self)@, expression(old(self)@, precendence).1),
        decreases old(self)@.len(), 6nat,
    {
        let ghost start = self@;
        proof {
            lemma_expression(start, precendence);
            lemma_operand(start);
            self.lemma_window();
            self.current.lemma_same_variant();
        }
        let first = match self.current {
            Token::String(_) => self.parse_string_expression(),
            Token::Identifier(_) => self.parse_identifier_expression(),
            Token::Integer(_) => self.parse_integer_expression(),
            Token::True | Token::False => self.parse_boolean_expression(),
            Token::Bang | Token::Minus | Token::Cardinal => self.parse_prefix_expression(),
            Token::If => self.parse_if_expression(),
            Token::Fn => self.parse_function_expression(),
            Token::LeftParen => self.parse_grouped_expression(),
            Token::LeftBrace => self.parse_list_expression(Token::RightBrace),
            Token::LeftBracket => self.parse_list_expression(Token::RightBracket),
            Token::Type => self.parse_type_expression(),
            Token::OkWord => self.parse_ok_expression(),
            Token::Error => self.parse_error_expression(),
            Token::Unit | Token::NoneWord => Some(Expression::Empty),
            _ => return None,
        };
        let mut left = match first {
            Some(left) => left,
            None => return None,
        };
        let ghost mut used: nat = operand(start).1;
        while !self.peek_token_is(Token::Semicolon) && precendence.rank()
            < self.peek_precendence().rank()
            invariant
                start == old(self)@,
                continuation(self@, left.deep_view(), precendence).2,
                self@ == after(start, used),
                expression(start, precendence).0 == continuation(
                    self@,
                    left.deep_view(),
                    precendence,
                ).0,
                expression(start, precendence).1 == used + continuation(
                    self@,
                    left.deep_view(),
                    precendence,
                ).1,
            decreases self@.len(),
        {
            let ghost here = self@;
            let ghost operand = left.deep_view();
            proof {
                lemma_continuation(here, operand, precendence);
                self.lemma_window();
                self.peek.lemma_same_variant();
            }
            match self.peek {
                Token::Plus
                | Token::Minus
                | Token::Fslash
                | Token::Asterisk
                | Token::Exponent
                | Token::Equal
                | Token::Notequal
                | Token::Modulo
                | Token::Cons
                | Token::Lt
                | Token::Gt => {
                    self.advance();
                    left = match self.parse_infix_expression(left) {
                        Some(joined) => joined,
                        None => return None,
                    };
                    proof {
                        used = used + 1 + infix_operation(after(here, 1), operand).1;
                    }
                },
                Token::LeftParen => {
                    self.advance();
                    left = match self.parse_call_expression(left) {
                        Some(joined) => joined,
                        None => return None,
                    };
                    proof {
                        used = used + 1 + call(after(here, 1), operand).1;
                    }
                },
                _ => return Some(left),
            }
        }
        proof {
            lemma_continuation(self@, left.deep_view(), precendence);
        }
        Some(left)
    }

    /// Reads a list literal that `closing` closes, the cursor on its opening
    /// token.
    fn parse_list_expression(&mut self, closing: Token) -> (result: Option<Expression>)
        requires
            list_literal(old(self)@, closing@).2,
        ensures
            result.deep_view() == list_literal(old(self)@, closing@).0,
            final(self)@ == after(old(self)@, list_literal(old(self)@, closing@).1),
        decreases old(self)@.len(), entry(old(self)@, 13, 4),
    {
        proof {
            lemma_list_literal(self@, closing@);
        }
        match self.parse_expression_list(closing) {
            Some(items) => {
                proof {
                    lemma_list_model(items);
                }
                Some(Expression::Literal(Literal::List(Some(items))))
            },
            None => None,
        }
    }

    /// Reads a function literal, the cursor on `fn`: the parameters, an arrow
    /// and the body. The parameters are the unit token or identifiers with
    /// commas between them; the body is a block in braces or one expression.
    pub fn parse_function_expression(&mut self) -> (result: Option<Expression>)
        requires
            function(old(self)@).2,
        ensures
            result.deep_view() == function(old(self)@).0,
            final(self)@ == after(old(self)@, function(old(self)@).1),
        decreases old(self)@.len(), 4nat,
    {
        proof {
            lemma_function(self@);
        }
        let ghost start = self@;
        self.advance();
        let parameters = if self.current_token_is(Token::Unit) {
            vec![Token::Unit]
        } else {
            match self.parse_fn_parameters() {
                Some(params) => params,
                None => return None,
            }
        };
        let ghost at: nat = if token_at(start, 1) == SpecToken::Unit {
            1
        } else {
            1 + identifier_list(after(start, 1), SpecToken::Comma).1
        };
        assert(parameters.deep_view() =~= if token_at(start, 1) == SpecToken::Unit {
            seq![SpecToken::Unit]
        } else {
            identifier_list(after(start, 1), SpecToken::Comma).0->0
        });
        proof {
            lemma_function_body(start, at, parameters.deep_view());
        }

        if !self.if_peek_advance(Token::Rarrow) {
            return None;
        }
        let body = if self.if_peek_advance(Token::LeftBrace) {
            self.parse_block_fn_statement()
        } else {
            self.advance();
            match self.parse_expression(Precendence::Lowest) {
                Some(expression) => {
                    let body = vec![Statement::Expression(expression)];
                    assert(body.deep_view() =~= seq![
                        SpecStatement::Expression(expression.deep_view()),
                    ]);
                    body
                },
                None => return None,
            }
        };
        proof {
            lemma_fn_model(parameters, body);
        }
        Some(Expression::Fn { parameter: parameters, body })
    }

    /// Reads the block that is the body of a function literal, the cursor on
    /// its opening brace.
    pub fn parse_block_fn_statement(&mut self) -> (block: Program)
        requires
            grammar::block(old(self)@).2,
        ensures
            block.deep_view() == grammar::block(old(self)@).0,
            final(self)@ == after(old(self)@, grammar::block(old(self)@).1),
        decreases old(self)@.len(), entry(old(self)@, 12, 1),
    {
        self.parse_block_statement()
    }

    /// Reads a block, the cursor on its opening brace: statements up to the
    /// closing brace. Where the input ends before the brace, the block ends
    /// there.
    pub fn parse_block_statement(&mut self) -> (block: Program)
        requires
            grammar::block(old(self)@).2,
        ensures
            block.deep_view() == grammar::block(old(self)@).0,
            final(self)@ == after(old(self)@, grammar::block(old(self)@).1),
        decreases old(self)@.len(), entry(old(self)@, 11, 0),
    {
        proof {
            lemma_block(self@);
        }
        let ghost start = self@;
        self.advance();
        let ghost mut used: nat = 1;
        let ghost mut read: Seq<SpecStatement> = Seq::empty();
        let mut block: Program = vec![];
        assert(block.deep_view() =~= read);
        assert(read + block_items(self@).0 =~= block_items(self@).0);
        while !self.current_token_is(Token::RightBrace)
            invariant
                start == old(self)@,
                block_items(self@).2,
                self@ == after(start, used),
                used >= 1,
                block.deep_view() == read,
                grammar::block(start).0 == read + block_items(self@).0,
                grammar::block(start).1 == used + block_items(self@).1,
            decreases self@.len(),
        {
            proof {
                lemma_block_items(self@);
            }
            if self.current_token_is(Token::Eof) {
                proof {
                    assert(read + block_items(self@).0 =~= read);
                }
                return block;
            }
            let ghost here = self@;
            match self.parse_statement() {
                Some(statement) => {
                    block.push(statement);
                    proof {
                        let others = block_items(after(here, statement_used(here) + 1)).0;
                        assert(block.deep_view() =~= read.push(statement.deep_view()));
                        assert(read + (seq![statement.deep_view()] + others) =~= read.push(
                            statement.deep_view(),
                        ) + others);
                        read = read.push(statement.deep_view());
                    }
                },
                None => {},
            }
            self.advance();
            proof {
                used = used + statement_used(here) + 1;
            }
        }
        proof {
            lemma_block_items(self@);
            assert(read + block_items(self@).0 =~= read);
        }
        block
    }

    /// Reads a conditional, the cursor on `if`: the condition, a block, and
    /// behind `else` a second block.
    pub fn parse_if_expression(&mut self) -> (result: Option<Expression>)
        requires
            conditional(old(self)@).2,
        ensures
            result.deep_view() == conditional(old(self)@).0,
            final(self)@ == after(old(self)@, conditional(old(self)@).1),
        decreases old(self)@.len(), entry(old(self)@, 12, 4),
    {
        proof {
            lemma_conditional(self@);
        }
        self.advance();
        let condition = match self.parse_expression(Precendence::Lowest) {
            Some(expression) => expression,
            None => return None,
        };
        self.advance();
        let consequence = self.parse_block_statement();
        let mut alternative: Option<Program> = None;
        if self.peek_token_is(Token::Else) {
            self.advance();
            if !self.if_peek_advance(Token::LeftBrace) {
                return None;
            }
            alternative = Some(self.parse_block_statement());
        }
        proof {
            lemma_if_model(condition, consequence, alternative);
        }
        return Some(
            Expression::If {
                condition: Box::new(condition),
                consequence,
                alternative,
            },
        );
    }

    /// Reads an expression in parentheses, the cursor on the opening
    /// parenthesis.
    pub fn parse_grouped_expression(&mut self) -> (result: Option<Expression>)
        requires
            grouped(old(self)@).2,
        ensures
            result.deep_view() == grouped(old(self)@).0,
            final(self)@ == after(old(self)@, grouped(old(self)@).1),
        decreases old(self)@.len(), entry(old(self)@, 12, 4),
    {
        proof {
            lemma_grouped(self@);
        }
        self.advance();
        let expression = self.parse_expression(Precendence::Lowest);
        if !self.if_peek_advance(Token::RightParen) {
            None
        } else {
            expression
        }
    }

    /// Reads the arguments of a call of `left`, the cursor on the opening
    /// parenthesis.
    pub fn parse_call_expression(&mut self, left: Expression) -> (result: Option<Expression>)
        requires
            call(old(self)@, left.deep_view()).2,
        ensures
            result.deep_view() == call(old(self)@, left.deep_view()).0,
            final(self)@ == after(old(self)@, call(old(self)@, left.deep_view()).1),
        decreases old(self)@.len(), entry(old(self)@, 13, 4),
    {
        proof {
            lemma_call(self@, left.deep_view());
        }
        let parameters = match self.parse_expression_list(Token::RightParen) {
            Some(params) => params,
            None => return None,
        };
        proof {
            lemma_call_model(left, parameters);
        }
        Some(Expression::Call { map: Box::new(left), domain: parameters })
    }

    /// Reads expressions with commas between them up to `delimiter`, the
    /// cursor on the token that opens the list.
    pub fn parse_expression_list(&mut self, delimiter: Token) -> (result: Option<
        Vec<Expression>,
    >)
        requires
            expression_list(old(self)@, delimiter@).2,
        ensures
            result.deep_view() == expression_list(old(self)@, delimiter@).0,
            final(self)@ == after(old(self)@, expression_list(old(self)@, delimiter@).1),
        decreases old(self)@.len(), entry(old(self)@, 12, 3),
    {
        proof {
            lemma_expression_list(self@, delimiter@);
        }
        let ghost start = self@;
        let mut list: Vec<Expression> = vec![];
        if self.peek_token_is(delimiter.clone()) {
            self.advance();
            assert(list.deep_view() =~= Seq::empty());
            return Some(list);
        }
        self.advance();
        match self.parse_expression(Precendence::Lowest) {
            Some(expression) => list.push(expression),
            None => return None,
        }
        let ghost mut used: nat = 1 + expression(after(start, 1), Precendence::Lowest).1;
        let ghost mut read: Seq<SpecExpression> = list.deep_view();
        assert(read =~= seq![expression(after(start, 1), Precendence::Lowest).0->0]);

        while self.peek_token_is(Token::Comma)
            invariant
                start == old(self)@,
                more_expressions(self@, delimiter@).2,
                self@ == after(start, used),
                used >= 1,
                list.deep_view() == read,
                expression_list(start, delimiter@).0 == joined(
                    read,
                    more_expressions(self@, delimiter@).0,
                ),
                expression_list(start, delimiter@).1 == used + more_expressions(
                    self@,
                    delimiter@,
                ).1,
            decreases self@.len(),
        {
            let ghost here = self@;
            proof {
                lemma_more_expressions(self@, delimiter@);
            }
            self.advance();
            self.advance();
            match self.parse_expression(Precendence::Lowest) {
                Some(expression) => {
                    list.push(expression);
                    proof {
                        let n = grammar::expression(after(here, 2), Precendence::Lowest).1;
                        assert(list.deep_view() =~= read.push(expression.deep_view()));
                        match more_expressions(after(here, 2 + n), delimiter@).0 {
                            Some(others) => {
                                assert(read + (seq![expression.deep_view()] + others)
                                    =~= read.push(expression.deep_view()) + others);
                            },
                            None => {},
                        }
                        read = read.push(expression.deep_view());
                        used = used + 2 + n;
                    }
                },
                None => return None,
            }
        }

        proof {
            lemma_more_expressions(self@, delimiter@);
        }
        if !self.if_peek_advance(delimiter.clone()) {
            return None;
        }
        proof {
            assert(read + Seq::<SpecExpression>::empty() =~= read);
        }
        Some(list)
    }

    /// Reads an infix operator and its right operand, the cursor on the
    /// operator, and joins them to the left operand `left`.
    pub fn parse_infix_expression(&mut self, left: Expression) -> (result: Option<Expression>)
        requires
            infix_operation(old(self)@, left.deep_view()).2,
        ensures
            result.deep_view() == infix_operation(old(self)@, left.deep_view()).0,
            final(self)@ == after(old(self)@, infix_operation(old(self)@, left.deep_view()).1),
        decreases old(self)@.len(), 4nat,
    {
        proof {
            lemma_infix_operation(self@, left.deep_view());
            self.lemma_window();
        }
        let infix = match self.current {
            Token::Plus => Infix::Plus,
            Token::Minus => Infix::Minus,
            Token::Fslash => Infix::Divide,
            Token::Asterisk => Infix::Multiply,
            Token::Equal => Infix::Equal,
            Token::Notequal => Infix::NotEqual,
            Token::Lt => Infix::LessThan,
            Token::Gt => Infix::GreaterThan,
            Token::Modulo => Infix::Modulo,
            Token::Exponent => Infix::Exponent,
            Token::Cons => Infix::Cons,
            _ => return None,
        };

        let precedence = self.curr_precendence();

        self.advance();
        match self.parse_expression(precedence) {
            Some(expr) => Some(Expression::Infix(infix, Box::new(left), Box::new(expr))),
            None => None,
        }
    }

    /// Reads a prefix operator and its operand, the cursor on the operator.
    pub fn parse_prefix_expression(&mut self) -> (result: Option<Expression>)
        requires
            prefix_operation(old(self)@).2,
        ensures
            result.deep_view() == prefix_operation(old(self)@).0,
            final(self)@ == after(old(self)@, prefix_operation(old(self)@).1),
        decreases old(self)@.len(), 4nat,
    {
        proof {
            lemma_prefix_operation(self@);
            self.lemma_window();
        }
        let prefix = match self.current {
            Token::Bang => Prefix::Not,
            Token::Minus => Prefix::Minus,
            Token::Plus => Prefix::Plus,
            Token::Cardinal => Prefix::Cardinal,
            _ => return None,
        };

        self.advance();

        match self.parse_expression(Precendence::Prefix) {
            Some(expr) => Some(Expression::Prefix(prefix, Box::new(expr))),
            None => None,
        }
    }

    /// Reads the wrapper `Ok` and the expression that it wraps, the cursor
    /// on `Ok`.
    pub fn parse_ok_expression(&mut self) -> (result: Option<Expression>)
        requires
            success(old(self)@).2,
        ensures
            result.deep_view() == success(old(self)@).0,
            final(self)@ == after(old(self)@, success(old(self)@).1),
        decreases old(self)@.len(), 4nat,
    {
        proof {
            lemma_success(self@);
            self.lemma_window();
        }
        match &self.current {
            Token::OkWord => {
                self.advance();
                match self.parse_expression(Precendence::Lowest) {
                    Some(expression) => Some(Expression::Success(Box::new(expression))),
                    None => return None,
                }
            },
            _ => None,
        }
    }

    /// Reads the statement `return value`, the cursor on `return`, and moves
    /// on to the next semicolon.
    pub fn parse_return_statement(&mut self) -> (result: Option<Statement>)
        requires
            return_statement(old(self)@).2,
        ensures
            result.deep_view() == return_statement(old(self)@).0,
            final(self)@ == after(old(self)@, return_statement(old(self)@).1),
        decreases old(self)@.len(), 8nat,
    {
        proof {
            lemma_return_statement(self@);
        }
        if !self.current_token_is(Token::Return) {
            return None;
        }
        self.advance();
        let expression = match self.parse_expression(Precendence::Lowest) {
            Some(expr) => expr,
            None => return None,
        };
        self.skip_to_semicolon();

        return Some(Statement::Return(expression));
    }

    /// Reads the binding `let name = value`, the cursor on `let`, and moves
    /// on to the next semicolon.
    pub fn parse_let_statement(&mut self) -> (result: Option<Statement>)
        requires
            let_statement(old(self)@).2,
        ensures
            result.deep_view() == let_statement(old(self)@).0,
            final(self)@ == after(old(self)@, let_statement(old(self)@).1),
        decreases old(self)@.len(), 8nat,
    {
        proof {
            lemma_let_statement(self@);
            self.lemma_window();
        }
        let identifier = match &self.peek {
            Token::Identifier(s) => s.clone(),
            _ => return None,
        };
        self.advance();

        if !self.if_peek_advance(Token::Assign) {
            return None;
        }
        self.advance();
        let expression = match self.parse_expression(Precendence::Lowest) {
            Some(expr) => expr,
            None => return None,
        };
        self.skip_to_semicolon();

        return Some(Statement::Let(identifier, expression));
    }

    /// Moves the cursor on until the current token is a semicolon. Where the
    /// input holds no further semicolon, the cursor stops at its end.
    fn skip_to_semicolon(&mut self)
        ensures
            final(self)@ == after(old(self)@, semicolon_distance(old(self)@)),
    {
        let ghost start = self@;
        let ghost mut used: nat = 0;
        while !self.current_token_is(Token::Semicolon) && !self.drained()
            invariant
                start == old(self)@,
                self@ == after(start, used),
                semicolon_distance(start) == used + semicolon_distance(self@),
            decreases self.reserve(),
        {
            proof {
                if self@.len() > 0 {
                    used = used + 1;
                }
            }
            self.advance();
        }
        proof {
            if self.reserve() == 0 {
                self.lemma_reserve();
            }
        }
    }

    /// The comment statement that the current token holds, if it is a comment.
    pub fn parse_comment_statement(&mut self) -> (result: Option<Statement>)
        ensures
            *final(self) == *old(self),
            result.deep_view() == match token_at(old(self)@, 0) {
                SpecToken::Comment(text) => Some(SpecStatement::Comment(text)),
                _ => None,
            },
    {
        proof {
            self.lemma_window();
        }
        return match self.current.clone() {
            Token::Comment(s) => Some(Statement::Comment(s)),
            _ => return None,
        };
    }

    /// The boolean literal `true` if the current token is `true`, and `false`
    /// otherwise.
    pub fn parse_boolean_expression(&mut self) -> (result: Option<Expression>)
        ensures
            *final(self) == *old(self),
            result.deep_view() == Some(
                SpecExpression::Literal(
                    SpecLiteral::Boolean(token_at(old(self)@, 0) == SpecToken::True),
                ),
            ),
    {
        let value = self.current_token_is(Token::True);
        assert(Literal::Boolean(value).model() == SpecLiteral::Boolean(value));
        Some(Expression::Literal(Literal::Boolean(value)))
    }

    /// The error marker, if the current token is `Error`.
    pub fn parse_error_expression(&mut self) -> (result: Option<Expression>)
        ensures
            *final(self) == *old(self),
            result.deep_view() == if token_at(old(self)@, 0) == SpecToken::Error {
                Some(SpecExpression::Error)
            } else {
                None
            },
    {
        proof {
            self.lemma_window();
        }
        match &self.current {
            Token::Error => Some(Expression::Error),
            _ => None,
        }
    }

    /// The integer literal that the current token holds, if it is one, with
    /// the number that its digits denote.
    pub fn parse_integer_expression(&mut self) -> (result: Option<Expression>)
        requires
            numeral_fits(token_at(old(self)@, 0)),
        ensures
            *final(self) == *old(self),
            result.deep_view() == match token_at(old(self)@, 0) {
                SpecToken::Integer(digits) => Some(
                    SpecExpression::Literal(SpecLiteral::Integer(decimal_value(digits) as int)),
                ),
                _ => None,
            },
    {
        proof {
            self.lemma_window();
        }
        let integer = match &self.current {
            Token::Integer(v) => decimal(v.as_str()).unwrap(),
            _ => return None,
        };
        assert(Literal::Integer(integer).model() == SpecLiteral::Integer(integer as int));
        return Some(Expression::Literal(Literal::Integer(integer)));
    }

    /// The current token, if it is an identifier.
    pub fn parse_identifier(&mut self) -> (result: Option<Identifier>)
        ensures
            *final(self) == *old(self),
            result.deep_view() == if token_at(old(self)@, 0) is Identifier {
                Some(token_at(old(self)@, 0))
            } else {
                None
            },
    {
        proof {
            self.lemma_window();
        }
        match &self.current {
            Token::Identifier(_) => Some(self.current.clone()),
            _ => None,
        }
    }

    /// The string literal that the current token holds, if it is one.
    pub fn parse_string_expression(&mut self) -> (result: Option<Expression>)
        ensures
            *final(self) == *old(self),
            result.deep_view() == match token_at(old(self)@, 0) {
                SpecToken::String(text) => Some(
                    SpecExpression::Literal(SpecLiteral::String(text)),
                ),
                _ => None,
            },
    {
        proof {
            self.lemma_window();
        }
        let slice = match &self.current {
            Token::String(s) => s.clone(),
            _ => return None,
        };
        assert(Literal::String(slice).model() == SpecLiteral::String(slice@));
        return Some(Expression::Literal(Literal::String(slice)));
    }

    /// The current token as an identifier expression.
    pub fn parse_identifier_expression(&mut self) -> (result: Option<Expression>)
        ensures
            *final(self) == *old(self),
            result.deep_view() == Some(SpecExpression::Identifier(token_at(old(self)@, 0))),
    {
        proof {
            self.lemma_window();
        }
        return Some(Expression::Identifier(self.current.clone()));
    }

    /// A list of identifiers with commas between them, the cursor on the
    /// first: the parameters of a function literal.
    pub fn parse_fn_parameters(&mut self) -> (result: Option<Vec<Identifier>>)
        ensures
            result.deep_view() == identifier_list(old(self)@, SpecToken::Comma).0,
            final(self)@ == after(old(self)@, identifier_list(old(self)@, SpecToken::Comma).1),
    {
        self.parse_identifiers(Token::Comma)
    }

    /// A list of identifiers with `separator` between them, the cursor on the
    /// first.
    fn parse_identifiers(&mut self, separator: Token) -> (result: Option<Vec<Identifier>>)
        ensures
            result.deep_view() == identifier_list(old(self)@, separator@).0,
            final(self)@ == after(old(self)@, identifier_list(old(self)@, separator@).1),
    {
        let ghost start = self@;
        let ghost mut used: nat = 0;
        let ghost mut listed: Seq<SpecToken> = Seq::empty();
        let mut names: Vec<Identifier> = vec![];
        match self.parse_identifier() {
            Some(ident) => names.push(ident),
            None => return None,
        };
        assert(names.deep_view() =~= listed.push(token_at(start, 0)));

        while self.peek_token_is(separator.clone())
            invariant
                start == old(self)@,
                self@ == after(start, used),
                token_at(self@, 0) is Identifier,
                names.deep_view() == listed.push(token_at(self@, 0)),
                identifier_list(start, separator@).0 == joined(
                    listed,
                    identifier_list(self@, separator@).0,
                ),
                identifier_list(start, separator@).1 == used + identifier_list(
                    self@,
                    separator@,
                ).1,
            decreases self@.len(),
        {
            let ghost before = self@;
            self.advance();
            self.advance();
            proof {
                used = used + 2;
                listed = listed.push(token_at(before, 0));
                assert(self@ == after(before, 2));
            }

            match self.parse_identifier() {
                Some(ident) => {
                    let ghost earlier = names.deep_view();
                    names.push(ident);
                    proof {
                        assert(names.deep_view() =~= earlier.push(token_at(self@, 0)));
                        match identifier_list(self@, separator@).0 {
                            Some(more) => {
                                assert(listed.drop_last() + (seq![token_at(before, 0)] + more)
                                    =~= listed + more);
                            },
                            None => {},
                        }
                    }
                },
                None => {
                    assert(identifier_list(self@, separator@).0 is None);
                    return None;
                },
            };
        }
        proof {
            assert(listed + seq![token_at(self@, 0)] =~= names.deep_view());
        }
        Some(names)
    }

    /// The type annotation `type |A|B|...`, the cursor on `type`: one
    /// identifier at least, each behind a vertical bar.
    pub fn parse_type_expression(&mut self) -> (result: Option<Expression>)
        ensures
            result.deep_view() == type_annotation(old(self)@).0,
            final(self)@ == after(old(self)@, type_annotation(old(self)@).1),
    {
        if !self.if_peek_advance(Token::Vbar) {
            return None;
        }
        self.advance();
        match self.parse_identifiers(Token::Vbar) {
            Some(types) => Some(Expression::Type(types)),
            None => None,
        }
    }
}

/// The number of tokens by which a statement moves the cursor.
spec fn statement_used(s: Seq<SpecToken>) -> nat {
    statement(s).1
}

/// The list `front` followed by `rest`, where there is a rest.
spec fn joined<T>(front: Seq<T>, rest: Option<Seq<T>>) -> Option<Seq<T>> {
    match rest {
        Some(rest) => Some(front + rest),
        None => None,
    }
}

} // verus!
