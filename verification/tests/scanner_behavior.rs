use lexer::lexer::Lexer;
use lexer::token::lookup_ident;
use lexer::token::Token;
use lexer::token::TokenKind;

fn collect_tokens(input: &str) -> Vec<Token> {
    let mut lx = Lexer::new(input);
    let mut out: Vec<Token> = Vec::new();
    loop {
        let t = lx.next_token();
        let done = t.kind == TokenKind::EndOfInput;
        out.push(t);
        if done {
            break;
        }
    }
    out
}

fn collect_kinds(input: &str) -> Vec<TokenKind> {
    collect_tokens(input).into_iter().map(|t| t.kind).collect()
}

#[test]
fn punctuation_sequence() {
    let kinds = collect_kinds("=+(){},;");
    assert_eq!(
        kinds,
        vec![
            TokenKind::Assign,
            TokenKind::Plus,
            TokenKind::LParen,
            TokenKind::RParen,
            TokenKind::LBrace,
            TokenKind::RBrace,
            TokenKind::Comma,
            TokenKind::Semicolon,
            TokenKind::EndOfInput,
        ]
    );
}

#[test]
fn let_statement() {
    let tokens = collect_tokens("let five = 5;");
    let expected = vec![
        (TokenKind::Let, "let"),
        (TokenKind::Identifier, "five"),
        (TokenKind::Assign, "="),
        (TokenKind::IntegerLiteral, "5"),
        (TokenKind::Semicolon, ";"),
        (TokenKind::EndOfInput, ""),
    ];
    assert_eq!(tokens.len(), expected.len());
    for (t, (kind, literal)) in tokens.iter().zip(expected.iter()) {
        assert_eq!(t.kind, *kind);
        assert_eq!(t.literal, *literal);
    }
}

#[test]
fn equality_operators() {
    let tokens = collect_tokens("10 == 10;");
    let expected = vec![
        (TokenKind::IntegerLiteral, "10"),
        (TokenKind::Equal, "=="),
        (TokenKind::IntegerLiteral, "10"),
        (TokenKind::Semicolon, ";"),
        (TokenKind::EndOfInput, ""),
    ];
    assert_eq!(tokens.len(), expected.len());
    for (t, (kind, literal)) in tokens.iter().zip(expected.iter()) {
        assert_eq!(t.kind, *kind);
        assert_eq!(t.literal, *literal);
    }

    let kinds = collect_kinds("10 != 9;");
    assert_eq!(
        kinds,
        vec![
            TokenKind::IntegerLiteral,
            TokenKind::NotEqual,
            TokenKind::IntegerLiteral,
            TokenKind::Semicolon,
            TokenKind::EndOfInput,
        ]
    );
}

#[test]
fn empty_input() {
    let tokens = collect_tokens("");
    assert_eq!(tokens.len(), 1);
    assert_eq!(tokens[0].kind, TokenKind::EndOfInput);
    assert_eq!(tokens[0].literal, "");
}

#[test]
fn illegal_character_does_not_stop_the_scan() {
    let tokens = collect_tokens("@x;");
    let expected = vec![
        (TokenKind::Illegal, "@"),
        (TokenKind::Identifier, "x"),
        (TokenKind::Semicolon, ";"),
        (TokenKind::EndOfInput, ""),
    ];
    assert_eq!(tokens.len(), expected.len());
    for (t, (kind, literal)) in tokens.iter().zip(expected.iter()) {
        assert_eq!(t.kind, *kind);
        assert_eq!(t.literal, *literal);
    }
}

#[test]
fn end_of_input_is_idempotent() {
    let mut lx = Lexer::new("x");
    assert_eq!(lx.next_token().kind, TokenKind::Identifier);
    for _ in 0..4 {
        let t = lx.next_token();
        assert_eq!(t.kind, TokenKind::EndOfInput);
        assert_eq!(t.literal, "");
    }
}

#[test]
fn totality_token_count() {
    // five lexemes and the terminal token: six calls in all
    let tokens = collect_tokens("  let x = 41 ;  ");
    assert_eq!(tokens.len(), 6);
}

#[test]
fn literal_fidelity_on_a_sample() {
    let input = " let ten\t=\n10 ;";
    let joined: String = collect_tokens(input).iter().map(|t| t.literal.as_str()).collect::<Vec<&str>>().join("");
    let non_ws: String = input.chars().filter(|c| !c.is_ascii_whitespace()).collect();
    assert_eq!(joined, non_ws);
}

#[test]
fn maximal_munch_of_runs() {
    let tokens = collect_tokens("foo123 12ab abc_def");
    let expected = vec![
        (TokenKind::Identifier, "foo"),
        (TokenKind::IntegerLiteral, "123"),
        (TokenKind::IntegerLiteral, "12"),
        (TokenKind::Identifier, "ab"),
        (TokenKind::Identifier, "abc_def"),
        (TokenKind::EndOfInput, ""),
    ];
    assert_eq!(tokens.len(), expected.len());
    for (t, (kind, literal)) in tokens.iter().zip(expected.iter()) {
        assert_eq!(t.kind, *kind);
        assert_eq!(t.literal, *literal);
    }
}

#[test]
fn keywords_take_precedence_over_identifiers() {
    let tokens = collect_tokens("fn let true false if else return lets Fn truex");
    let expected = vec![
        (TokenKind::Function, "fn"),
        (TokenKind::Let, "let"),
        (TokenKind::True, "true"),
        (TokenKind::False, "false"),
        (TokenKind::If, "if"),
        (TokenKind::Else, "else"),
        (TokenKind::Return, "return"),
        (TokenKind::Identifier, "lets"),
        (TokenKind::Identifier, "Fn"),
        (TokenKind::Identifier, "truex"),
        (TokenKind::EndOfInput, ""),
    ];
    assert_eq!(tokens.len(), expected.len());
    for (t, (kind, literal)) in tokens.iter().zip(expected.iter()) {
        assert_eq!(t.kind, *kind);
        assert_eq!(t.literal, *literal);
    }
}

#[test]
fn lookup_ident_resolves_reserved_words() {
    assert_eq!(lookup_ident(&"fn".to_string()), TokenKind::Function);
    assert_eq!(lookup_ident(&"let".to_string()), TokenKind::Let);
    assert_eq!(lookup_ident(&"true".to_string()), TokenKind::True);
    assert_eq!(lookup_ident(&"false".to_string()), TokenKind::False);
    assert_eq!(lookup_ident(&"if".to_string()), TokenKind::If);
    assert_eq!(lookup_ident(&"else".to_string()), TokenKind::Else);
    assert_eq!(lookup_ident(&"return".to_string()), TokenKind::Return);
    assert_eq!(lookup_ident(&"foo".to_string()), TokenKind::Identifier);
    assert_eq!(lookup_ident(&"func".to_string()), TokenKind::Identifier);
}

#[test]
fn character_classification() {
    assert!(Lexer::is_letter('a'));
    assert!(Lexer::is_letter('Z'));
    assert!(Lexer::is_letter('_'));
    assert!(!Lexer::is_letter('1'));
    assert!(!Lexer::is_letter(' '));
    assert!(!Lexer::is_letter('='));
    assert!(Lexer::is_digit('0'));
    assert!(Lexer::is_digit('9'));
    assert!(!Lexer::is_digit('a'));
    assert!(!Lexer::is_digit(';'));
}

#[test]
fn non_ascii_characters() {
    let tokens = collect_tokens("é€");
    let expected = vec![
        (TokenKind::Identifier, "é"),
        (TokenKind::Illegal, "€"),
        (TokenKind::EndOfInput, ""),
    ];
    assert_eq!(tokens.len(), expected.len());
    for (t, (kind, literal)) in tokens.iter().zip(expected.iter()) {
        assert_eq!(t.kind, *kind);
        assert_eq!(t.literal, *literal);
    }
}

#[test]
fn only_the_four_whitespace_characters_are_skipped() {
    let tokens = collect_tokens(" \t\r\nx");
    assert_eq!(tokens.len(), 2);
    assert_eq!(tokens[0].kind, TokenKind::Identifier);
    assert_eq!(tokens[0].literal, "x");

    // form feed is not in the scanner's whitespace set
    let tokens = collect_tokens("\u{c}");
    assert_eq!(tokens.len(), 2);
    assert_eq!(tokens[0].kind, TokenKind::Illegal);
    assert_eq!(tokens[0].literal, "\u{c}");
}

#[test]
fn display_strings() {
    assert_eq!(TokenKind::Illegal.display_string(), "ILLEGAL");
    assert_eq!(TokenKind::EndOfInput.display_string(), "EOF");
    assert_eq!(TokenKind::Identifier.display_string(), "IDENT");
    assert_eq!(TokenKind::IntegerLiteral.display_string(), "INT");
    assert_eq!(TokenKind::Assign.display_string(), "=");
    assert_eq!(TokenKind::Equal.display_string(), "==");
    assert_eq!(TokenKind::NotEqual.display_string(), "!=");
    assert_eq!(TokenKind::Function.display_string(), "FUNCTION");
    assert_eq!(TokenKind::Let.display_string(), "Let");
}
