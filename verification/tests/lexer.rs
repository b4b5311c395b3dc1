use gdl::lexer::{decimal, is_alphanumeric, is_numeric, is_whitespace, Lexer, Token};

fn tokens(source: &str) -> Vec<Token> {
    let mut lexer = Lexer::new(source);
    let mut all = vec![];
    loop {
        let token = lexer.advance();
        let done = token == Token::Eof && lexer.at_end();
        all.push(token);
        if done {
            return all;
        }
    }
}

fn identifier(name: &str) -> Token {
    Token::Identifier(name.to_string())
}

fn integer(digits: &str) -> Token {
    Token::Integer(digits.to_string())
}

#[test]
fn single_character_symbols() {
    assert_eq!(
        tokens("= ! : . | < - * ( ) / & # % > [ ] { } , ; +"),
        vec![
            Token::Assign,
            Token::Bang,
            Token::Colon,
            Token::Period,
            Token::Vbar,
            Token::Lt,
            Token::Minus,
            Token::Asterisk,
            Token::LeftParen,
            Token::RightParen,
            Token::Fslash,
            Token::Ampersand,
            Token::Cardinal,
            Token::Modulo,
            Token::Gt,
            Token::LeftBracket,
            Token::RightBracket,
            Token::LeftBrace,
            Token::RightBrace,
            Token::Comma,
            Token::Semicolon,
            Token::Plus,
            Token::Eof,
        ]
    );
}

#[test]
fn two_character_symbols() {
    assert_eq!(
        tokens("== != :: .. |> <- -> ** ()"),
        vec![
            Token::Equal,
            Token::Notequal,
            Token::Cons,
            Token::Range,
            Token::Pipe,
            Token::In,
            Token::Rarrow,
            Token::Exponent,
            Token::Unit,
            Token::Eof,
        ]
    );
}

#[test]
fn symbols_need_no_whitespace_between_them() {
    assert_eq!(
        tokens("a==b!=c"),
        vec![
            identifier("a"),
            Token::Equal,
            identifier("b"),
            Token::Notequal,
            identifier("c"),
            Token::Eof,
        ]
    );
    assert_eq!(
        tokens("==="),
        vec![Token::Equal, Token::Assign, Token::Eof]
    );
    assert_eq!(
        tokens("(())"),
        vec![Token::LeftParen, Token::Unit, Token::RightParen, Token::Eof]
    );
}

#[test]
fn a_symbol_at_the_end_of_the_source_is_the_short_form() {
    assert_eq!(tokens("="), vec![Token::Assign, Token::Eof]);
    assert_eq!(tokens("!"), vec![Token::Bang, Token::Eof]);
    assert_eq!(tokens("-"), vec![Token::Minus, Token::Eof]);
    assert_eq!(tokens("("), vec![Token::LeftParen, Token::Eof]);
    assert_eq!(tokens("/"), vec![Token::Fslash, Token::Eof]);
}

#[test]
fn keywords() {
    assert_eq!(
        tokens("fn let return else if for type true false Ok None Error"),
        vec![
            Token::Fn,
            Token::Let,
            Token::Return,
            Token::Else,
            Token::If,
            Token::For,
            Token::Type,
            Token::True,
            Token::False,
            Token::OkWord,
            Token::NoneWord,
            Token::Error,
            Token::Eof,
        ]
    );
}

#[test]
fn words_that_only_resemble_keywords_are_identifiers() {
    assert_eq!(
        tokens("in lets iff ok none error fn_ Fn"),
        vec![
            identifier("in"),
            identifier("lets"),
            identifier("iff"),
            identifier("ok"),
            identifier("none"),
            identifier("error"),
            identifier("fn_"),
            identifier("Fn"),
            Token::Eof,
        ]
    );
}

#[test]
fn identifiers_hold_letters_digits_and_underscores() {
    assert_eq!(tokens("foo_bar1"), vec![identifier("foo_bar1"), Token::Eof]);
    assert_eq!(tokens("x"), vec![identifier("x"), Token::Eof]);
}

#[test]
fn an_identifier_starts_with_a_letter() {
    assert_eq!(tokens("_x"), vec![Token::Illegal, identifier("x"), Token::Eof]);
    assert_eq!(tokens("1x"), vec![integer("1"), identifier("x"), Token::Eof]);
}

#[test]
fn integers_keep_their_digits_as_text() {
    assert_eq!(
        tokens("007 42 0"),
        vec![integer("007"), integer("42"), integer("0"), Token::Eof]
    );
    assert_eq!(
        tokens("99999999999999999999999"),
        vec![integer("99999999999999999999999"), Token::Eof]
    );
}

#[test]
fn strings_run_over_letters_digits_underscores_and_whitespace() {
    assert_eq!(
        tokens("\"hello world_1\" x"),
        vec![
            Token::String("hello world_1".to_string()),
            identifier("x"),
            Token::Eof,
        ]
    );
    assert_eq!(tokens("\"\""), vec![Token::String(String::new()), Token::Eof]);
}

#[test]
fn the_character_behind_a_string_is_taken_for_its_closing_quote() {
    assert_eq!(
        tokens("\"a-b\""),
        vec![
            Token::String("a".to_string()),
            identifier("b"),
            Token::String(String::new()),
            Token::Eof,
        ]
    );
}

#[test]
fn a_string_may_end_with_the_source() {
    assert_eq!(
        tokens("\"abc"),
        vec![Token::String("abc".to_string()), Token::Eof]
    );
    assert_eq!(tokens("\""), vec![Token::String(String::new()), Token::Eof]);
}

#[test]
fn comments_are_tokens() {
    assert_eq!(
        tokens("// a comment 1\nx"),
        vec![
            Token::Comment(" a comment 1".to_string()),
            identifier("x"),
            Token::Eof,
        ]
    );
    assert_eq!(tokens("//"), vec![Token::Comment(String::new()), Token::Eof]);
}

#[test]
fn a_comment_ends_at_the_first_character_that_is_no_word_space_or_tab() {
    assert_eq!(
        tokens("//x\ty-z"),
        vec![
            Token::Comment("x\ty".to_string()),
            Token::Minus,
            identifier("z"),
            Token::Eof,
        ]
    );
}

#[test]
fn unknown_characters_are_illegal_and_scanning_goes_on() {
    assert_eq!(
        tokens("@ 1 $"),
        vec![Token::Illegal, integer("1"), Token::Illegal, Token::Eof]
    );
    assert_eq!(tokens("é"), vec![Token::Illegal, Token::Eof]);
}

#[test]
fn whitespace_is_skipped() {
    assert_eq!(
        tokens(" \t\r\n1 \n\n 2\t"),
        vec![integer("1"), integer("2"), Token::Eof]
    );
}

#[test]
fn the_end_of_input_is_returned_forever() {
    let mut lexer = Lexer::new("");
    for _ in 0..5 {
        assert_eq!(lexer.advance(), Token::Eof);
    }
    let mut lexer = Lexer::new("x");
    assert_eq!(lexer.advance(), identifier("x"));
    for _ in 0..5 {
        assert_eq!(lexer.advance(), Token::Eof);
    }
}

#[test]
fn a_nul_character_is_an_end_of_input_marker() {
    let mut lexer = Lexer::new("a\0b");
    assert_eq!(lexer.advance(), identifier("a"));
    assert_eq!(lexer.advance(), Token::Eof);
    assert_eq!(lexer.advance(), identifier("b"));
    assert_eq!(lexer.advance(), Token::Eof);
    assert_eq!(lexer.advance(), Token::Eof);
}

#[test]
fn peek_is_the_character_behind_the_current_one() {
    assert_eq!(Lexer::new("ab").peek(), 'b');
    assert_eq!(Lexer::new("a").peek(), '\0');
    assert_eq!(Lexer::new("").peek(), '\0');
}

#[test]
fn read_moves_one_character_and_stops_at_the_end() {
    let mut lexer = Lexer::new("ab");
    assert!(!lexer.at_end());
    lexer.read();
    assert_eq!(lexer.peek(), '\0');
    assert!(!lexer.at_end());
    lexer.read();
    assert!(lexer.at_end());
    lexer.read();
    assert!(lexer.at_end());
    assert_eq!(lexer.advance(), Token::Eof);
}

#[test]
fn the_readers_start_at_the_current_position() {
    let mut lexer = Lexer::new("123abc def");
    assert_eq!(lexer.read_number(), integer("123"));
    assert_eq!(lexer.read_identifier(), identifier("abc"));
    assert_eq!(
        lexer.read_comment(),
        Token::Comment(" def".to_string())
    );
    assert!(lexer.at_end());

    let mut lexer = Lexer::new("\"hi\"!");
    assert_eq!(lexer.read_string(), Token::String("hi".to_string()));
    assert_eq!(lexer.advance(), Token::Bang);

    let mut lexer = Lexer::new("let");
    assert_eq!(lexer.read_identifier(), Token::Let);
}

#[test]
fn a_reader_that_finds_nothing_yields_empty_text() {
    let mut lexer = Lexer::new("+");
    assert_eq!(lexer.read_number(), integer(""));
    assert_eq!(lexer.read_identifier(), identifier(""));
    assert_eq!(lexer.read_comment(), Token::Comment(String::new()));
    assert_eq!(lexer.advance(), Token::Plus);
}

#[test]
fn tokens_are_equal_when_variant_and_text_are() {
    assert_eq!(identifier("a"), identifier("a"));
    assert_ne!(identifier("a"), identifier("b"));
    assert_ne!(identifier("1"), integer("1"));
    assert_ne!(Token::String("a".to_string()), Token::Comment("a".to_string()));
    assert_eq!(Token::Plus, Token::Plus);
    assert_ne!(Token::Plus, Token::Minus);
    assert_eq!(identifier("a").clone(), identifier("a"));
    assert_eq!(Token::Unit.clone(), Token::Unit);
}

#[test]
fn character_classes() {
    for c in [' ', '\t', '\n', '\r'] {
        assert!(is_whitespace(c));
    }
    assert!(!is_whitespace('a'));
    assert!(!is_whitespace('\0'));
    assert!(is_numeric('0') && is_numeric('9'));
    assert!(!is_numeric('a') && !is_numeric('/') && !is_numeric(':'));
    for c in ['a', 'z', 'A', 'Z', '0', '9', '_'] {
        assert!(is_alphanumeric(c));
    }
    for c in ['-', ' ', '@', '[', '`', '{', 'é'] {
        assert!(!is_alphanumeric(c));
    }
}

#[test]
fn decimal_numerals() {
    assert_eq!(decimal("0"), Some(0));
    assert_eq!(decimal("123"), Some(123));
    assert_eq!(decimal("0009"), Some(9));
    assert_eq!(decimal("9223372036854775807"), Some(i64::MAX));
    assert_eq!(decimal("9223372036854775808"), None);
    assert_eq!(decimal("99999999999999999999"), None);
    assert_eq!(decimal(""), None);
    assert_eq!(decimal("12a"), None);
    assert_eq!(decimal("-1"), None);
    assert_eq!(decimal("+1"), None);
}

#[test]
fn integer_literals_that_fit() {
    assert!(integer("9223372036854775807").integer_fits());
    assert!(!integer("9223372036854775808").integer_fits());
    assert!(!integer("x").integer_fits());
    assert!(identifier("99999999999999999999").integer_fits());
    assert!(Token::Eof.integer_fits());

    assert!(Lexer::new("1 + 22 x99999999999999999999").integers_fit());
    assert!(!Lexer::new("1 + 99999999999999999999").integers_fit());
    assert!(Lexer::new("\"99999999999999999999\"").integers_fit());
    assert!(Lexer::new("").integers_fit());

    let mut lexer = Lexer::new("99999999999999999999 1");
    assert!(!lexer.integers_fit());
    assert_eq!(lexer.advance(), integer("99999999999999999999"));
    assert!(lexer.integers_fit());
    assert_eq!(lexer.advance(), integer("1"));
}
