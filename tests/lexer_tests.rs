use monkey_lexer::lexer::Lexer;
use monkey_lexer::token::Token;

#[test]
fn test_next_token() {
    let input = r#"let five = 5;
    let ten = 10;
    
    let add = fn(x, y) {
        x + y
    };
    
    let result = add(five, ten)"#;

    let mut lexer = Lexer::new(input.into());
    let mut tokens: Vec<Token> = vec![];

    loop {
        let token = lexer.next_token();

        match token {
            Token::Eof | Token::Invalid => break,
            _ => tokens.push(token),
        }
    }

    let expected: Vec<Token> = vec![
        Token::Let,
        Token::Ident("five".into()),
        Token::Assign,
        Token::Int("5".into()),
        Token::Semicolon,
        Token::Let,
        Token::Ident("ten".into()),
        Token::Assign,
        Token::Int("10".into()),
        Token::Semicolon,
        Token::Let,
        Token::Ident("add".into()),
        Token::Assign,
        Token::Function,
        Token::Lparen,
        Token::Ident("x".into()),
        Token::Comma,
        Token::Ident("y".into()),
        Token::Rparen,
        Token::Lbrace,
        Token::Ident("x".into()),
        Token::Plus,
        Token::Ident("y".into()),
        Token::Rbrace,
        Token::Semicolon,
        Token::Let,
        Token::Ident("result".into()),
        Token::Assign,
        Token::Ident("add".into()),
        Token::Lparen,
        Token::Ident("five".into()),
        Token::Comma,
        Token::Ident("ten".into()),
        Token::Rparen,
    ];

    assert_eq!(expected, tokens);
}

#[test]
fn test_read_ident() {
    let input = "=+abc(){";
    let mut tokens: Vec<Token> = vec![];
    let mut lexer = Lexer::new(input.into());

    for _ in 0..8 {
        tokens.push(lexer.next_token());
    }

    assert_eq!(tokens[0], Token::Assign);
    assert_eq!(tokens[1], Token::Plus);
    assert_eq!(tokens[2], Token::Ident("abc".into()));
    assert_eq!(tokens[3], Token::Lparen);
    assert_eq!(tokens[4], Token::Rparen);
    assert_eq!(tokens[5], Token::Lbrace);
}

#[test]
fn test_read_int() {
    let input = "=+123(){";
    let mut tokens: Vec<Token> = vec![];
    let mut lexer = Lexer::new(input.into());

    for _ in 0..8 {
        tokens.push(lexer.next_token());
    }

    assert_eq!(tokens[0], Token::Assign);
    assert_eq!(tokens[1], Token::Plus);
    assert_eq!(tokens[2], Token::Int("123".into()));
    assert_eq!(tokens[3], Token::Lparen);
    assert_eq!(tokens[4], Token::Rparen);
    assert_eq!(tokens[5], Token::Lbrace);
}

fn drain(input: &str, limit: usize) -> Vec<Token> {
    let mut lexer = Lexer::new(input.into());
    let mut tokens: Vec<Token> = vec![];
    for _ in 0..limit {
        tokens.push(lexer.next_token());
    }
    tokens
}

#[test]
fn blank_input_gives_eof() {
    assert_eq!(drain(" \t\n\r  ", 1), vec![Token::Eof]);
    assert_eq!(drain("", 1), vec![Token::Eof]);
}

#[test]
fn identifier_holds_the_whole_run() {
    assert_eq!(drain("  foo_Bar baz", 1), vec![Token::Ident("foo_Bar".into())]);
}

#[test]
fn digits_are_kept_verbatim() {
    assert_eq!(drain("007", 2), vec![Token::Int("007".into()), Token::Eof]);
}

#[test]
fn let_statement_tokens() {
    assert_eq!(
        drain("let five = 5;", 6),
        vec![
            Token::Let,
            Token::Ident("five".into()),
            Token::Assign,
            Token::Int("5".into()),
            Token::Semicolon,
            Token::Eof,
        ]
    );
}

#[test]
fn every_symbol() {
    assert_eq!(
        drain("=;(){},+", 9),
        vec![
            Token::Assign,
            Token::Semicolon,
            Token::Lparen,
            Token::Rparen,
            Token::Lbrace,
            Token::Rbrace,
            Token::Comma,
            Token::Plus,
            Token::Eof,
        ]
    );
}

#[test]
fn every_keyword() {
    assert_eq!(
        drain("fn let if else return true false", 8),
        vec![
            Token::Function,
            Token::Let,
            Token::If,
            Token::Else,
            Token::Return,
            Token::True,
            Token::False,
            Token::Eof,
        ]
    );
}

#[test]
fn keyword_prefix_is_an_identifier() {
    assert_eq!(
        drain("lets iff", 3),
        vec![Token::Ident("lets".into()), Token::Ident("iff".into()), Token::Eof]
    );
}

#[test]
fn digit_ends_an_identifier() {
    assert_eq!(
        drain("x 12 y", 4),
        vec![
            Token::Ident("x".into()),
            Token::Int("12".into()),
            Token::Ident("y".into()),
            Token::Eof,
        ]
    );
    // Identifiers take no digits: the digit starts a number.
    assert_eq!(
        drain("x1", 3),
        vec![Token::Ident("x".into()), Token::Int("1".into()), Token::Eof]
    );
}

#[test]
fn eof_repeats() {
    let tokens = drain("a", 5);
    assert_eq!(tokens[0], Token::Ident("a".into()));
    for t in &tokens[1..] {
        assert_eq!(*t, Token::Eof);
    }
}

#[test]
fn scanning_goes_on_after_invalid() {
    assert_eq!(
        drain("@x !", 5),
        vec![
            Token::Invalid,
            Token::Ident("x".into()),
            Token::Invalid,
            Token::Eof,
            Token::Eof,
        ]
    );
}

#[test]
fn nul_byte_is_invalid() {
    assert_eq!(drain("\0", 2), vec![Token::Invalid, Token::Eof]);
}

#[test]
fn non_ascii_bytes_are_invalid() {
    // `é` is two bytes in UTF-8, each of them outside every class.
    assert_eq!(
        drain("é", 3),
        vec![Token::Invalid, Token::Invalid, Token::Eof]
    );
}

#[test]
fn form_feed_is_not_a_blank() {
    assert_eq!(drain("\x0c", 2), vec![Token::Invalid, Token::Eof]);
}

#[test]
fn same_text_same_tokens() {
    let text = "let add = fn(x, y) { x + y };";
    assert_eq!(drain(text, 20), drain(text, 20));
}

#[test]
fn terminal_tokens() {
    assert!(Token::Eof.is_terminal());
    assert!(Token::Invalid.is_terminal());
    assert!(!Token::Plus.is_terminal());
    assert!(!Token::Ident("eof".into()).is_terminal());
}

#[test]
fn token_after_a_run_keeps_its_first_byte() {
    assert_eq!(
        drain("abc(5;x", 6),
        vec![
            Token::Ident("abc".into()),
            Token::Lparen,
            Token::Int("5".into()),
            Token::Semicolon,
            Token::Ident("x".into()),
            Token::Eof,
        ]
    );
}
