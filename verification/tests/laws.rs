use gdl::ast::{Expression, Literal, Statement};
use gdl::lexer::{Lexer, Token};
use gdl::parser::Parser;

fn tokens(source: &str) -> Vec<Token> {
    let mut lexer = Lexer::new(source);
    let mut all = vec![];
    while !lexer.at_end() {
        all.push(lexer.advance());
    }
    while all.last() == Some(&Token::Eof) {
        all.pop();
    }
    all
}

fn parse(source: &str) -> Vec<Statement> {
    let mut parser = Parser::new(Lexer::new(source));
    assert!(parser.integers_fit());
    parser.parse()
}

fn spellings() -> Vec<(Token, &'static str)> {
    vec![
        (Token::Assign, "="),
        (Token::Cons, "::"),
        (Token::Plus, "+"),
        (Token::Ampersand, "&"),
        (Token::Modulo, "%"),
        (Token::Minus, "-"),
        (Token::Asterisk, "*"),
        (Token::Exponent, "**"),
        (Token::Comma, ","),
        (Token::Colon, ":"),
        (Token::Semicolon, ";"),
        (Token::LeftBracket, "["),
        (Token::RightBracket, "]"),
        (Token::Period, "."),
        (Token::Range, ".."),
        (Token::LeftParen, "("),
        (Token::LeftBrace, "{"),
        (Token::RightParen, ")"),
        (Token::RightBrace, "}"),
        (Token::Rarrow, "->"),
        (Token::Lt, "<"),
        (Token::Gt, ">"),
        (Token::Fslash, "/"),
        (Token::Equal, "=="),
        (Token::Notequal, "!="),
        (Token::Bang, "!"),
        (Token::Else, "else"),
        (Token::Return, "return"),
        (Token::In, "<-"),
        (Token::If, "if"),
        (Token::For, "for"),
        (Token::Type, "type"),
        (Token::False, "false"),
        (Token::True, "true"),
        (Token::Vbar, "|"),
        (Token::Pipe, "|>"),
        (Token::OkWord, "Ok"),
        (Token::NoneWord, "None"),
        (Token::Unit, "()"),
        (Token::Error, "Error"),
        (Token::Fn, "fn"),
        (Token::Let, "let"),
        (Token::Cardinal, "#"),
    ]
}

#[test]
fn every_spelling_scans_as_its_token() {
    for (token, text) in spellings() {
        let mut lexer = Lexer::new(text);
        assert_eq!(lexer.advance(), token);
        assert!(lexer.at_end());
    }
}

#[test]
fn spellings_joined_by_spaces_scan_back_to_the_tokens() {
    let all = spellings();
    let source = all.iter().map(|(_, text)| *text).collect::<Vec<_>>().join(" ");
    let expected: Vec<Token> = all.into_iter().map(|(token, _)| token).collect();
    assert_eq!(tokens(&source), expected);

    let rescanned: Vec<Token> = tokens(&format!("  {}\n", source.replace(' ', " \t\n ")));
    assert_eq!(rescanned, expected);
}

#[test]
fn a_blank_source_has_an_empty_program() {
    for source in ["", " ", "\n", "\t\r\n   ", "        \n\n\n"] {
        assert_eq!(tokens(source), vec![]);
        assert_eq!(parse(source), vec![]);
        assert_eq!(Lexer::new(source).advance(), Token::Eof);
    }
}

#[test]
fn equal_tokens_give_equal_programs() {
    let pairs = [
        ("1+2*3", " 1 +\n2 * 3 "),
        ("let x=5;", "let   x\t=\n5 ;"),
        ("if x>10{x}else{10};", "if x > 10 { x } else { 10 } ;"),
        ("fn x,y->{x};", "fn x , y -> { x } ;"),
    ];
    for (dense, spaced) in pairs {
        assert_eq!(tokens(dense), tokens(spaced));
        assert_eq!(parse(dense), parse(spaced));
    }
}

#[test]
fn parsing_the_same_source_twice_gives_the_same_program() {
    for source in ["1 - 2 - 3", "let x 5;", "fn x -> x * 2; [1, {2}]", "if a { b"] {
        assert_eq!(parse(source), parse(source));
    }
}

fn complete_expression(expression: &Expression) -> bool {
    let identifiers = |names: &Vec<Token>| {
        !names.is_empty() && names.iter().all(|name| matches!(name, Token::Identifier(_)))
    };
    match expression {
        Expression::Empty | Expression::Error => true,
        Expression::Identifier(name) => matches!(name, Token::Identifier(_)),
        Expression::Success(inner) => complete_expression(inner),
        Expression::Comment(_) => false,
        Expression::Type(names) => identifiers(names),
        Expression::Literal(Literal::List(Some(items))) => items.iter().all(complete_expression),
        Expression::Literal(Literal::List(None)) => false,
        Expression::Literal(_) => true,
        Expression::Prefix(_, operand) => complete_expression(operand),
        Expression::Infix(_, left, right) => complete_expression(left) && complete_expression(right),
        Expression::If { condition, consequence, alternative } => {
            complete_expression(condition)
                && consequence.iter().all(complete_statement)
                && alternative.iter().flatten().all(complete_statement)
        }
        Expression::Fn { parameter, body } => {
            (*parameter == vec![Token::Unit] || identifiers(parameter))
                && body.iter().all(complete_statement)
        }
        Expression::Call { map, domain } => {
            complete_expression(map) && domain.iter().all(complete_expression)
        }
    }
}

fn complete_statement(statement: &Statement) -> bool {
    match statement {
        Statement::Let(_, value) | Statement::Return(value) | Statement::Expression(value) => {
            complete_expression(value)
        }
        Statement::Comment(_) => true,
    }
}

#[test]
fn every_node_of_a_program_is_complete() {
    let sources = [
        "let x = [1, {2, 3}, f(4)];",
        "if a { [1 } else { type |A|B }",
        "fn () -> [1, 2",
        "fn x, 1 -> x; fn -> 2; fn a -> { [ } ; type |; type |A|2",
        "{1, 2; [3, (4]; f(1, ; Ok [; #{",
        "return if x { fn y -> [y, ] } else { Ok Error };",
        "f(g(h(1, [2, {3}])), ())",
        "// c\n1 + (2 * [3)",
    ];
    for source in sources {
        let program = parse(source);
        assert!(program.iter().all(complete_statement), "{}: {:?}", source, program);
    }
}

#[test]
fn a_source_of_fixed_tokens_is_its_spellings_up_to_whitespace() {
    let sources = ["let  fn\t==\n!= ()(**)", "if{}else[]->|>|", " \n ", "", "<-<--->..:::."];
    for source in sources {
        let all = tokens(source);
        let mut respelled = String::new();
        for token in &all {
            let text = spellings()
                .into_iter()
                .find(|(candidate, _)| candidate == token)
                .map(|(_, text)| text)
                .expect(source);
            respelled.push_str(text);
        }
        let stripped: String = source
            .chars()
            .filter(|c| !matches!(c, ' ' | '\t' | '\n' | '\r'))
            .collect();
        assert_eq!(respelled, stripped);
    }
}
