use gdl::ast::{Expression, Infix, Literal, Prefix, Statement};
use gdl::lexer::{Lexer, Token};
use gdl::parser::{token_to_precedence, Parser, Precendence};

fn parser(source: &str) -> Parser {
    let parser = Parser::new(Lexer::new(source));
    assert!(parser.integers_fit());
    parser
}

fn parse(source: &str) -> Vec<Statement> {
    parser(source).parse()
}

fn expression(source: &str) -> Expression {
    let mut program = parse(source);
    assert_eq!(program.len(), 1, "{:?}", program);
    match program.pop() {
        Some(Statement::Expression(expression)) => expression,
        other => panic!("{:?}", other),
    }
}

fn integer(value: i64) -> Expression {
    Expression::Literal(Literal::Integer(value))
}

fn boolean(value: bool) -> Expression {
    Expression::Literal(Literal::Boolean(value))
}

fn name(text: &str) -> Token {
    Token::Identifier(text.to_string())
}

fn identifier(text: &str) -> Expression {
    Expression::Identifier(name(text))
}

fn list(items: Vec<Expression>) -> Expression {
    Expression::Literal(Literal::List(Some(items)))
}

fn prefix(operator: Prefix, operand: Expression) -> Expression {
    Expression::Prefix(operator, Box::new(operand))
}

fn infix(operator: Infix, left: Expression, right: Expression) -> Expression {
    Expression::Infix(operator, Box::new(left), Box::new(right))
}

fn call(map: Expression, domain: Vec<Expression>) -> Expression {
    Expression::Call { map: Box::new(map), domain }
}

fn statement(value: Expression) -> Statement {
    Statement::Expression(value)
}

#[test]
fn product_binds_tighter_than_sum() {
    assert_eq!(
        parse("1 + 2 * 3"),
        vec![statement(infix(
            Infix::Plus,
            integer(1),
            infix(Infix::Multiply, integer(2), integer(3)),
        ))]
    );
}

#[test]
fn parentheses_group_a_sum_under_a_product() {
    assert_eq!(
        parse("(1 + 2) * 3"),
        vec![statement(infix(
            Infix::Multiply,
            infix(Infix::Plus, integer(1), integer(2)),
            integer(3),
        ))]
    );
}

#[test]
fn subtraction_groups_to_the_left() {
    assert_eq!(
        parse("1 - 2 - 3"),
        vec![statement(infix(
            Infix::Minus,
            infix(Infix::Minus, integer(1), integer(2)),
            integer(3),
        ))]
    );
}

#[test]
fn operators_of_equal_strength_group_to_the_left() {
    assert_eq!(
        expression("8 / 4 * 2 % 3"),
        infix(
            Infix::Modulo,
            infix(
                Infix::Multiply,
                infix(Infix::Divide, integer(8), integer(4)),
                integer(2),
            ),
            integer(3),
        )
    );
    assert_eq!(
        expression("2 ** 3 ** 2"),
        infix(
            Infix::Exponent,
            infix(Infix::Exponent, integer(2), integer(3)),
            integer(2),
        )
    );
}

#[test]
fn binding_strengths_rise_from_equality_to_cons() {
    assert_eq!(
        expression("1 + 2 == 3"),
        infix(
            Infix::Equal,
            infix(Infix::Plus, integer(1), integer(2)),
            integer(3),
        )
    );
    assert_eq!(
        expression("1 != 2 < 3"),
        infix(
            Infix::NotEqual,
            integer(1),
            infix(Infix::LessThan, integer(2), integer(3)),
        )
    );
    assert_eq!(
        expression("1 > 2 + 3"),
        infix(
            Infix::GreaterThan,
            integer(1),
            infix(Infix::Plus, integer(2), integer(3)),
        )
    );
    assert_eq!(
        expression("a + b * c - d"),
        infix(
            Infix::Minus,
            infix(
                Infix::Plus,
                identifier("a"),
                infix(Infix::Multiply, identifier("b"), identifier("c")),
            ),
            identifier("d"),
        )
    );
}

#[test]
fn cons_binds_tighter_than_product_and_prefix() {
    assert_eq!(
        expression("1 :: 2 * 3"),
        infix(
            Infix::Multiply,
            infix(Infix::Cons, integer(1), integer(2)),
            integer(3),
        )
    );
    assert_eq!(
        expression("2 * 3 :: 4"),
        infix(
            Infix::Multiply,
            integer(2),
            infix(Infix::Cons, integer(3), integer(4)),
        )
    );
    assert_eq!(
        expression("-1 :: 2"),
        prefix(Prefix::Minus, infix(Infix::Cons, integer(1), integer(2)))
    );
}

#[test]
fn a_call_binds_tightest() {
    assert_eq!(
        expression("-f(1) :: 2"),
        prefix(
            Prefix::Minus,
            infix(
                Infix::Cons,
                call(identifier("f"), vec![integer(1)]),
                integer(2),
            ),
        )
    );
    assert_eq!(
        expression("1 + f(2, 3)"),
        infix(
            Infix::Plus,
            integer(1),
            call(identifier("f"), vec![integer(2), integer(3)]),
        )
    );
}

#[test]
fn prefix_operators_bind_tighter_than_arithmetic() {
    assert_eq!(expression("!true"), prefix(Prefix::Not, boolean(true)));
    assert_eq!(expression("-5"), prefix(Prefix::Minus, integer(5)));
    assert_eq!(
        expression("#[1, 2]"),
        prefix(Prefix::Cardinal, list(vec![integer(1), integer(2)]))
    );
    assert_eq!(
        expression("-1 + 2"),
        infix(Infix::Plus, prefix(Prefix::Minus, integer(1)), integer(2))
    );
    assert_eq!(
        expression("!!x"),
        prefix(Prefix::Not, prefix(Prefix::Not, identifier("x")))
    );
    assert_eq!(
        expression("1 - -2"),
        infix(Infix::Minus, integer(1), prefix(Prefix::Minus, integer(2)))
    );
}

#[test]
fn let_binds_a_name_to_an_integer() {
    assert_eq!(
        parse("let x = 5;"),
        vec![Statement::Let("x".to_string(), integer(5))]
    );
}

#[test]
fn conditional_with_both_blocks() {
    assert_eq!(
        parse("if x > 10 { x } else { 10 };"),
        vec![statement(Expression::If {
            condition: Box::new(infix(Infix::GreaterThan, identifier("x"), integer(10))),
            consequence: vec![statement(identifier("x"))],
            alternative: Some(vec![statement(integer(10))]),
        })]
    );
}

#[test]
fn function_literal_with_two_parameters() {
    assert_eq!(
        parse("fn x, y -> { x };"),
        vec![statement(Expression::Fn {
            parameter: vec![name("x"), name("y")],
            body: vec![statement(identifier("x"))],
        })]
    );
}

#[test]
fn let_without_assignment_yields_no_binding() {
    assert_eq!(parser("let x 5;").parse_let_statement(), None);
    assert_eq!(parser("let x 5;").parse_statement(), None);

    let program = parse("let x 5;");
    assert!(program.iter().all(|statement| !matches!(statement, Statement::Let(..))));
    assert_eq!(program, vec![statement(integer(5))]);
}

#[test]
fn empty_lists_are_lists_without_items() {
    assert_eq!(parse("[]"), vec![statement(list(vec![]))]);
    assert_eq!(parse("{}"), vec![statement(list(vec![]))]);
}

#[test]
fn lists_hold_their_items_in_order() {
    assert_eq!(
        expression("[1, x, 2 + 3]"),
        list(vec![
            integer(1),
            identifier("x"),
            infix(Infix::Plus, integer(2), integer(3)),
        ])
    );
    assert_eq!(
        expression("{[1], {}}"),
        list(vec![list(vec![integer(1)]), list(vec![])])
    );
}

#[test]
fn a_list_that_is_not_closed_is_no_expression() {
    assert_eq!(parse("[1, 2"), vec![]);
    assert_eq!(parse("[1, 2}"), vec![]);
    assert_eq!(parse("[1 2]"), vec![statement(integer(2))]);
    assert_eq!(parser("[1, ]").parse_expression(Precendence::Lowest), None);
}

#[test]
fn a_failed_statement_leaves_the_ones_behind_it() {
    assert_eq!(
        parse("let 5; let y = 1;"),
        vec![statement(integer(5)), Statement::Let("y".to_string(), integer(1))]
    );
    assert_eq!(parse("(1 + 2; 7"), vec![statement(integer(7))]);
    assert_eq!(parse(") 1"), vec![statement(integer(1))]);
    assert_eq!(parse("1 + ; 2"), vec![statement(integer(2))]);
}

#[test]
fn a_missing_closing_parenthesis_fails_the_group() {
    assert_eq!(parse("(1 + 2"), vec![]);
    assert_eq!(parser("(1 + 2").parse_grouped_expression(), None);
    assert_eq!(parser("(1]").parse_expression(Precendence::Lowest), None);
}

#[test]
fn return_statement() {
    assert_eq!(parse("return 5;"), vec![Statement::Return(integer(5))]);
    assert_eq!(
        parse("return a + 1; 2"),
        vec![
            Statement::Return(infix(Infix::Plus, identifier("a"), integer(1))),
            statement(integer(2)),
        ]
    );
    assert_eq!(parse("return ;"), vec![]);
}

#[test]
fn let_and_return_skip_to_the_next_semicolon() {
    assert_eq!(
        parse("let x = 5 6 7; 8"),
        vec![Statement::Let("x".to_string(), integer(5)), statement(integer(8))]
    );
    assert_eq!(
        parse("return 1 let y = 2; 3"),
        vec![Statement::Return(integer(1)), statement(integer(3))]
    );
}

#[test]
fn let_and_return_without_a_semicolon_end_with_the_input() {
    assert_eq!(
        parse("let x = 5"),
        vec![Statement::Let("x".to_string(), integer(5))]
    );
    assert_eq!(parse("return 5"), vec![Statement::Return(integer(5))]);
    assert_eq!(
        parse("let x = 5 let y = 6"),
        vec![Statement::Let("x".to_string(), integer(5))]
    );
    assert_eq!(
        parse("let x = 1 \0 2; 3"),
        vec![Statement::Let("x".to_string(), integer(1)), statement(integer(3))]
    );
}

#[test]
fn comments_become_statements() {
    assert_eq!(
        parse("// note\n1"),
        vec![Statement::Comment(" note".to_string()), statement(integer(1))]
    );
}

#[test]
fn expression_statements_may_omit_the_semicolon() {
    assert_eq!(
        parse("1; 2; 3"),
        vec![statement(integer(1)), statement(integer(2)), statement(integer(3))]
    );
    assert_eq!(parse("1 2"), vec![statement(integer(1)), statement(integer(2))]);
    assert_eq!(parse(";"), vec![]);
}

#[test]
fn literals() {
    assert_eq!(
        expression("\"hi there\""),
        Expression::Literal(Literal::String("hi there".to_string()))
    );
    assert_eq!(expression("true"), boolean(true));
    assert_eq!(expression("false"), boolean(false));
    assert_eq!(expression("0042"), integer(42));
    assert_eq!(expression("9223372036854775807"), integer(i64::MAX));
    assert_eq!(expression("x"), identifier("x"));
}

#[test]
fn markers() {
    assert_eq!(expression("()"), Expression::Empty);
    assert_eq!(expression("None"), Expression::Empty);
    assert_eq!(expression("Error"), Expression::Error);
    assert_eq!(expression("Ok 5"), Expression::Success(Box::new(integer(5))));
    assert_eq!(
        expression("Ok 1 + 2"),
        Expression::Success(Box::new(infix(Infix::Plus, integer(1), integer(2))))
    );
    assert_eq!(parse("Ok"), vec![]);
}

#[test]
fn calls() {
    assert_eq!(
        expression("f(1, 2)"),
        call(identifier("f"), vec![integer(1), integer(2)])
    );
    assert_eq!(expression("f( )"), call(identifier("f"), vec![]));
    assert_eq!(
        expression("f(1)(2)"),
        call(call(identifier("f"), vec![integer(1)]), vec![integer(2)])
    );
    assert_eq!(
        expression("(fn x -> x)(3)"),
        call(
            Expression::Fn {
                parameter: vec![name("x")],
                body: vec![statement(identifier("x"))],
            },
            vec![integer(3)],
        )
    );
    assert_eq!(parse("f(1, 2"), vec![]);
}

#[test]
fn the_unit_token_is_no_argument_list() {
    assert_eq!(
        parse("f()"),
        vec![statement(identifier("f")), statement(Expression::Empty)]
    );
}

#[test]
fn function_literals() {
    assert_eq!(
        expression("fn () -> 1"),
        Expression::Fn {
            parameter: vec![Token::Unit],
            body: vec![statement(integer(1))],
        }
    );
    assert_eq!(
        expression("fn x -> x + 1"),
        Expression::Fn {
            parameter: vec![name("x")],
            body: vec![statement(infix(Infix::Plus, identifier("x"), integer(1)))],
        }
    );
    assert_eq!(
        expression("fn x -> { let y = x; y }"),
        Expression::Fn {
            parameter: vec![name("x")],
            body: vec![
                Statement::Let("y".to_string(), identifier("x")),
                statement(identifier("y")),
            ],
        }
    );
    assert_eq!(
        expression("fn a, b, c -> {}"),
        Expression::Fn {
            parameter: vec![name("a"), name("b"), name("c")],
            body: vec![],
        }
    );
}

#[test]
fn function_literals_need_identifiers_and_an_arrow() {
    assert_eq!(parser("fn 1 -> 1").parse_function_expression(), None);
    assert_eq!(parser("fn x, -> 1").parse_function_expression(), None);
    assert_eq!(parser("fn x 1").parse_function_expression(), None);
    assert_eq!(parser("fn x ->").parse_function_expression(), None);
    assert_eq!(parse("fn x + 2"), vec![statement(integer(2))]);
}

#[test]
fn conditionals() {
    assert_eq!(
        expression("if x { 1 }"),
        Expression::If {
            condition: Box::new(identifier("x")),
            consequence: vec![statement(integer(1))],
            alternative: None,
        }
    );
    assert_eq!(
        expression("if a == b { 1; 2 } else { }"),
        Expression::If {
            condition: Box::new(infix(Infix::Equal, identifier("a"), identifier("b"))),
            consequence: vec![statement(integer(1)), statement(integer(2))],
            alternative: Some(vec![]),
        }
    );
    assert_eq!(
        expression("if a { if b { 1 } } else { 2 }"),
        Expression::If {
            condition: Box::new(identifier("a")),
            consequence: vec![statement(Expression::If {
                condition: Box::new(identifier("b")),
                consequence: vec![statement(integer(1))],
                alternative: None,
            })],
            alternative: Some(vec![statement(integer(2))]),
        }
    );
}

#[test]
fn else_needs_a_brace() {
    assert_eq!(parse("if true { 1 } else 2"), vec![statement(integer(2))]);
    assert_eq!(parser("if true { 1 } else 2").parse_if_expression(), None);
    assert_eq!(parse("if ) { 1 }"), vec![statement(list(vec![integer(1)]))]);
}

#[test]
fn a_block_ends_with_the_input() {
    assert_eq!(
        expression("if x { 1; 2"),
        Expression::If {
            condition: Box::new(identifier("x")),
            consequence: vec![statement(integer(1)), statement(integer(2))],
            alternative: None,
        }
    );
    assert_eq!(
        expression("fn x -> {"),
        Expression::Fn { parameter: vec![name("x")], body: vec![] }
    );
    assert_eq!(parser("{ 1").parse_block_statement(), vec![statement(integer(1))]);
    assert_eq!(parser("").parse_block_statement(), vec![]);
}

#[test]
fn blocks() {
    let mut p = parser("{ 1; let x = 2; x } 3");
    assert_eq!(
        p.parse_block_statement(),
        vec![
            statement(integer(1)),
            Statement::Let("x".to_string(), integer(2)),
            statement(identifier("x")),
        ]
    );
    assert!(p.current_token_is(Token::RightBrace));
    assert!(p.peek_token_is(Token::Integer("3".to_string())));

    let mut p = parser("{ a } b");
    assert_eq!(p.parse_block_fn_statement(), vec![statement(identifier("a"))]);
    assert!(p.current_token_is(Token::RightBrace));
}

#[test]
fn type_annotations() {
    assert_eq!(
        expression("type |A|B|C"),
        Expression::Type(vec![name("A"), name("B"), name("C")])
    );
    assert_eq!(expression("type |A"), Expression::Type(vec![name("A")]));
    assert_eq!(parser("type A").parse_type_expression(), None);
    assert_eq!(parser("type |").parse_type_expression(), None);
    assert_eq!(parser("type |A|").parse_type_expression(), None);
    assert_eq!(parser("type |A|1").parse_type_expression(), None);
    assert_eq!(parser("type ||").parse_type_expression(), None);
}

#[test]
fn tokens_that_start_no_expression() {
    for source in [")", "]", "}", "+ 1", "* 2", "=", ",", "else", "->", ":", "@", "for", "<-"] {
        assert_eq!(parser(source).parse_expression(Precendence::Lowest), None, "{}", source);
    }
    assert_eq!(parser("").parse_expression(Precendence::Lowest), None);
    assert_eq!(parser("").parse_statement(), None);
    assert_eq!(parse("@"), vec![]);
}

#[test]
fn an_expression_stops_at_operators_that_bind_no_tighter_than_the_limit() {
    let mut p = parser("1 + 2 * 3");
    assert_eq!(p.parse_expression(Precendence::Sum), Some(integer(1)));
    assert!(p.peek_token_is(Token::Plus));

    let mut p = parser("1 * 2 + 3");
    assert_eq!(
        p.parse_expression(Precendence::Sum),
        Some(infix(Infix::Multiply, integer(1), integer(2)))
    );
    assert!(p.peek_token_is(Token::Plus));

    let mut p = parser("1 * 2 + 3");
    assert_eq!(p.parse_expression(Precendence::Call), Some(integer(1)));
    assert!(p.current_token_is(Token::Integer("1".to_string())));
}

#[test]
fn the_parser_holds_two_tokens() {
    let mut p = parser("let x = 5;");
    assert!(p.current_token_is(Token::Let));
    assert!(!p.current_token_is(Token::Return));
    assert!(p.peek_token_is(name("x")));
    assert!(!p.peek_token_is(name("y")));
    p.advance();
    assert!(p.current_token_is(name("x")));
    assert!(p.peek_token_is(Token::Assign));
    assert!(!p.if_peek_advance(Token::Semicolon));
    assert!(p.current_token_is(name("x")));
    assert!(p.if_peek_advance(Token::Assign));
    assert!(p.current_token_is(Token::Assign));
    p.advance();
    p.advance();
    assert!(p.current_token_is(Token::Semicolon));
    assert!(p.peek_token_is(Token::Eof));
    p.advance();
    p.advance();
    p.advance();
    assert!(p.current_token_is(Token::Eof));
    assert!(p.peek_token_is(Token::Eof));
}

#[test]
fn parse_ends_on_the_end_of_input() {
    let mut p = parser("1; 2");
    assert_eq!(p.parse(), vec![statement(integer(1)), statement(integer(2))]);
    assert!(p.current_token_is(Token::Eof));
    assert_eq!(p.parse(), vec![]);
}

#[test]
fn parse_stops_at_a_nul_character() {
    let mut p = parser("1 \0 2");
    assert_eq!(p.parse(), vec![statement(integer(1))]);
    assert!(p.current_token_is(Token::Eof));
    assert!(p.peek_token_is(Token::Integer("2".to_string())));
}

#[test]
fn binding_strengths_of_tokens() {
    let expected = [
        (Token::Equal, Precendence::Equals),
        (Token::Notequal, Precendence::Equals),
        (Token::Lt, Precendence::Comparison),
        (Token::Gt, Precendence::Comparison),
        (Token::Plus, Precendence::Sum),
        (Token::Minus, Precendence::Sum),
        (Token::Fslash, Precendence::Product),
        (Token::Asterisk, Precendence::Product),
        (Token::Modulo, Precendence::Product),
        (Token::Exponent, Precendence::Product),
        (Token::Cons, Precendence::Cons),
        (Token::LeftParen, Precendence::Call),
        (Token::Semicolon, Precendence::Lowest),
        (Token::Eof, Precendence::Lowest),
        (Token::Bang, Precendence::Lowest),
        (Token::LeftBracket, Precendence::Lowest),
        (name("x"), Precendence::Lowest),
    ];
    for (token, precedence) in expected {
        assert_eq!(token_to_precedence(&token), precedence);
    }

    let mut p = parser("1 + 2");
    assert_eq!(p.curr_precendence(), Precendence::Lowest);
    assert_eq!(p.peek_precendence(), Precendence::Sum);
    p.advance();
    assert_eq!(p.curr_precendence(), Precendence::Sum);
    assert_eq!(p.peek_precendence(), Precendence::Lowest);
}

#[test]
fn binding_strengths_are_strictly_ordered() {
    let order = [
        Precendence::Lowest,
        Precendence::Equals,
        Precendence::Comparison,
        Precendence::Sum,
        Precendence::Product,
        Precendence::Prefix,
        Precendence::Cons,
        Precendence::Call,
    ];
    for (i, low) in order.iter().enumerate() {
        assert_eq!(low.rank() as usize, i);
        for (j, high) in order.iter().enumerate() {
            assert_eq!(low < high, i < j);
            assert_eq!(low == high, i == j);
            assert_eq!(low.rank() < high.rank(), i < j);
        }
    }
}

#[test]
fn the_parts_of_an_expression() {
    assert_eq!(parser("x").parse_identifier(), Some(name("x")));
    assert_eq!(parser("1").parse_identifier(), None);
    assert_eq!(parser("fn").parse_identifier(), None);
    assert_eq!(parser("x").parse_identifier_expression(), Some(identifier("x")));
    assert_eq!(
        parser("+").parse_identifier_expression(),
        Some(Expression::Identifier(Token::Plus))
    );
    assert_eq!(parser("12").parse_integer_expression(), Some(integer(12)));
    assert_eq!(parser("x").parse_integer_expression(), None);
    assert_eq!(
        parser("\"s\"").parse_string_expression(),
        Some(Expression::Literal(Literal::String("s".to_string())))
    );
    assert_eq!(parser("s").parse_string_expression(), None);
    assert_eq!(parser("true").parse_boolean_expression(), Some(boolean(true)));
    assert_eq!(parser("false").parse_boolean_expression(), Some(boolean(false)));
    assert_eq!(parser("1").parse_boolean_expression(), Some(boolean(false)));
    assert_eq!(parser("Error").parse_error_expression(), Some(Expression::Error));
    assert_eq!(parser("Ok").parse_error_expression(), None);
    assert_eq!(
        parser("Ok x").parse_ok_expression(),
        Some(Expression::Success(Box::new(identifier("x"))))
    );
    assert_eq!(parser("x").parse_ok_expression(), None);
    assert_eq!(
        parser("// c").parse_comment_statement(),
        Some(Statement::Comment(" c".to_string()))
    );
    assert_eq!(parser("c").parse_comment_statement(), None);
}

#[test]
fn prefix_and_infix_operations() {
    assert_eq!(
        parser("+5").parse_prefix_expression(),
        Some(prefix(Prefix::Plus, integer(5)))
    );
    assert_eq!(
        parser("-5 + 1").parse_prefix_expression(),
        Some(prefix(Prefix::Minus, integer(5)))
    );
    assert_eq!(parser("5").parse_prefix_expression(), None);
    assert_eq!(parser("-").parse_prefix_expression(), None);
    assert_eq!(parse("+5"), vec![statement(integer(5))]);

    let operators = [
        ("+", Infix::Plus),
        ("-", Infix::Minus),
        ("/", Infix::Divide),
        ("*", Infix::Multiply),
        ("==", Infix::Equal),
        ("!=", Infix::NotEqual),
        ("<", Infix::LessThan),
        (">", Infix::GreaterThan),
        ("%", Infix::Modulo),
        ("**", Infix::Exponent),
        ("::", Infix::Cons),
    ];
    for (text, operator) in operators {
        let source = format!("{} 2", text);
        assert_eq!(
            parser(&source).parse_infix_expression(integer(1)),
            Some(infix(operator, integer(1), integer(2)))
        );
        assert_eq!(
            expression(&format!("1 {} 2", text)),
            infix(operator, integer(1), integer(2))
        );
    }
    assert_eq!(parser("2").parse_infix_expression(integer(1)), None);
    assert_eq!(parser("+").parse_infix_expression(integer(1)), None);
}

#[test]
fn statements_by_their_first_token() {
    assert_eq!(
        parser("let a = 1;").parse_statement(),
        Some(Statement::Let("a".to_string(), integer(1)))
    );
    assert_eq!(
        parser("return a;").parse_statement(),
        Some(Statement::Return(identifier("a")))
    );
    assert_eq!(
        parser("//c").parse_statement(),
        Some(Statement::Comment("c".to_string()))
    );
    assert_eq!(parser("a;").parse_statement(), Some(statement(identifier("a"))));
    assert_eq!(
        parser("a;").parse_expression_statement(),
        Some(statement(identifier("a")))
    );
    assert_eq!(parser("a").parse_return_statement(), None);
    assert_eq!(parser("let = 1").parse_let_statement(), None);
    assert_eq!(parser("let a = ;").parse_let_statement(), None);

    let mut p = parser("a; b");
    assert_eq!(p.parse_expression_statement(), Some(statement(identifier("a"))));
    assert!(p.current_token_is(Token::Semicolon));
}

#[test]
fn lists_of_parameters_and_expressions() {
    assert_eq!(
        parser("x, y").parse_fn_parameters(),
        Some(vec![name("x"), name("y")])
    );
    assert_eq!(parser("x").parse_fn_parameters(), Some(vec![name("x")]));
    assert_eq!(parser("x, 1").parse_fn_parameters(), None);
    assert_eq!(parser("1").parse_fn_parameters(), None);

    assert_eq!(
        parser("(1, 2)").parse_expression_list(Token::RightParen),
        Some(vec![integer(1), integer(2)])
    );
    assert_eq!(
        parser("[ ]").parse_expression_list(Token::RightBracket),
        Some(vec![])
    );
    assert_eq!(parser("(1, 2]").parse_expression_list(Token::RightParen), None);
    assert_eq!(
        parser("(1, 2)").parse_call_expression(identifier("f")),
        Some(call(identifier("f"), vec![integer(1), integer(2)]))
    );
    assert_eq!(parser("(1").parse_call_expression(identifier("f")), None);
}

#[test]
fn integer_literals_must_fit() {
    assert!(Parser::new(Lexer::new("1 + 9223372036854775807")).integers_fit());
    assert!(!Parser::new(Lexer::new("9223372036854775808")).integers_fit());
    assert!(!Parser::new(Lexer::new("1 + 9223372036854775808")).integers_fit());
    assert!(!Parser::new(Lexer::new("1 + 2 + 99999999999999999999")).integers_fit());
    assert!(Parser::new(Lexer::new("x9223372036854775808")).integers_fit());

    let mut p = Parser::new(Lexer::new("9223372036854775808 1"));
    assert!(!p.integers_fit());
    p.advance();
    assert!(p.integers_fit());
}

#[test]
fn a_literal_that_is_passed_over_is_not_converted() {
    let mut p = Parser::new(Lexer::new("let x = 1 99999999999999999999; 2"));
    assert!(!p.integers_fit());
    assert_eq!(
        p.parse(),
        vec![Statement::Let("x".to_string(), integer(1)), statement(integer(2))]
    );

    let mut p = Parser::new(Lexer::new("return 1 99999999999999999999"));
    assert_eq!(p.parse(), vec![Statement::Return(integer(1))]);

    let mut p = Parser::new(Lexer::new("1 \0 99999999999999999999"));
    assert_eq!(p.parse(), vec![statement(integer(1))]);

    let mut p = Parser::new(Lexer::new("x99999999999999999999 + \"99999999999999999999\""));
    assert_eq!(p.parse().len(), 1);
}
