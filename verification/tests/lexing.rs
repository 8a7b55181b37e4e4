use minilang::lexer::{LexWarning, Lexer, Operator, Token, TokenType};

fn lex_ok(src: &str) -> (Vec<Token>, Vec<LexWarning>) {
    let lexer = Lexer::new(src.chars().collect());
    lexer.lex().expect("lexing should succeed")
}

fn kinds(tokens: &[Token]) -> Vec<TokenType> {
    tokens.iter().map(|t| t.token.clone()).collect()
}

#[test]
fn lex_empty_source() {
    let (tokens, warnings) = lex_ok("");
    assert!(tokens.is_empty());
    assert!(warnings.is_empty());
}

#[test]
fn lex_simple_declaration() {
    let (tokens, warnings) = lex_ok("let x = 5");
    assert_eq!(
        kinds(&tokens),
        vec![
            TokenType::Let,
            TokenType::Identifier("x".to_string()),
            TokenType::Operator(Operator::Equal),
            TokenType::Number("5".to_string()),
        ]
    );
    assert!(warnings.is_empty());
    assert!(tokens.iter().all(|t| t.line_no == 1));
}

#[test]
fn lex_all_operators_and_punctuation() {
    let (tokens, _) = lex_ok("+ - * / = == < <= > >= ( ) { } ;");
    assert_eq!(
        kinds(&tokens),
        vec![
            TokenType::Operator(Operator::Plus),
            TokenType::Operator(Operator::Minus),
            TokenType::Operator(Operator::Multiply),
            TokenType::Operator(Operator::Divide),
            TokenType::Operator(Operator::Equal),
            TokenType::Operator(Operator::Equality),
            TokenType::Operator(Operator::LessThan),
            TokenType::Operator(Operator::LessThanEqual),
            TokenType::Operator(Operator::GreaterThan),
            TokenType::Operator(Operator::GreaterThanEqual),
            TokenType::LeftParen,
            TokenType::RightParen,
            TokenType::LeftCurly,
            TokenType::RightCurly,
            TokenType::SemiColon,
        ]
    );
}

#[test]
fn lex_greedy_comparison_at_end_of_input() {
    let (tokens, _) = lex_ok(">=");
    assert_eq!(
        kinds(&tokens),
        vec![TokenType::Operator(Operator::GreaterThanEqual)]
    );
    let (tokens, _) = lex_ok(">");
    assert_eq!(kinds(&tokens), vec![TokenType::Operator(Operator::GreaterThan)]);
}

#[test]
fn lex_keywords_and_identifiers() {
    let (tokens, _) = lex_ok("let print if elif else while lets print_x a_1");
    assert_eq!(
        kinds(&tokens),
        vec![
            TokenType::Let,
            TokenType::Print,
            TokenType::If,
            TokenType::Elif,
            TokenType::Else,
            TokenType::While,
            TokenType::Identifier("lets".to_string()),
            TokenType::Identifier("print_x".to_string()),
            TokenType::Identifier("a_1".to_string()),
        ]
    );
}

#[test]
fn lex_line_numbers() {
    let (tokens, _) = lex_ok("let a = 1\nlet b = 2\n\nlet c = 3");
    let lines: Vec<usize> = tokens.iter().map(|t| t.line_no).collect();
    assert_eq!(lines, vec![1, 1, 1, 1, 2, 2, 2, 2, 4, 4, 4, 4]);
}

#[test]
fn lex_line_comment_is_discarded() {
    let (tokens, warnings) = lex_ok("let a = 1 // a comment ending the line\nprint(a)");
    assert_eq!(
        kinds(&tokens),
        vec![
            TokenType::Let,
            TokenType::Identifier("a".to_string()),
            TokenType::Operator(Operator::Equal),
            TokenType::Number("1".to_string()),
            TokenType::Print,
            TokenType::LeftParen,
            TokenType::Identifier("a".to_string()),
            TokenType::RightParen,
        ]
    );
    // the newline that ends the comment advances the line counter
    assert_eq!(tokens.last().unwrap().line_no, 2);
    assert!(warnings.is_empty());
}

#[test]
fn lex_comment_newline_advances_line_counter() {
    let (tokens, _) = lex_ok("//\n1");
    assert_eq!(kinds(&tokens), vec![TokenType::Number("1".to_string())]);
    assert_eq!(tokens[0].line_no, 2);
}

#[test]
fn lex_multiline_string_advances_line_counter() {
    let (tokens, _) = lex_ok("let s = \"a\nb\"\nprint(s)");
    // the literal's token carries the line its opening quote stands on
    assert_eq!(tokens[3].token, TokenType::StringLiteral("a\nb".to_string()));
    assert_eq!(tokens[3].line_no, 1);
    // one newline inside the literal and one after it
    assert_eq!(tokens[4].token, TokenType::Print);
    assert_eq!(tokens[4].line_no, 3);
}

#[test]
fn lex_division_is_not_a_comment() {
    let (tokens, _) = lex_ok("let a = 1 / 2");
    assert!(kinds(&tokens).contains(&TokenType::Operator(Operator::Divide)));
}

#[test]
fn lex_trailing_slash_is_the_division_operator() {
    let (tokens, warnings) = lex_ok("a /");
    assert_eq!(
        kinds(&tokens),
        vec![
            TokenType::Identifier("a".to_string()),
            TokenType::Operator(Operator::Divide),
        ]
    );
    assert!(warnings.is_empty());
}

#[test]
fn lex_number_keeps_digit_text() {
    let (tokens, _) = lex_ok("let x = 007");
    assert_eq!(tokens[3].token, TokenType::Number("007".to_string()));
}

#[test]
fn lex_string_literal_plain() {
    let (tokens, _) = lex_ok("let s = \"hello world\"");
    assert_eq!(
        tokens[3].token,
        TokenType::StringLiteral("hello world".to_string())
    );
}

#[test]
fn lex_string_literal_escapes() {
    // \" gives a quote, \\ gives a backslash
    let (tokens, _) = lex_ok("let s = \"a\\\"b\\\\c\"");
    assert_eq!(
        tokens[3].token,
        TokenType::StringLiteral("a\"b\\c".to_string())
    );
}

#[test]
fn lex_string_literal_backslash_before_other_char_is_kept() {
    let (tokens, _) = lex_ok("let s = \"a\\qb\"");
    assert_eq!(
        tokens[3].token,
        TokenType::StringLiteral("a\\qb".to_string())
    );
}

#[test]
fn lex_unterminated_string_is_fatal() {
    let lexer = Lexer::new("let s = \"abc".chars().collect());
    let r = lexer.lex();
    assert_eq!(r, Err("Unterminated string literal".to_string()));
}

#[test]
fn lex_unknown_character_is_skipped_with_warning() {
    let (tokens, warnings) = lex_ok("let x @ = 5");
    assert_eq!(
        kinds(&tokens),
        vec![
            TokenType::Let,
            TokenType::Identifier("x".to_string()),
            TokenType::Operator(Operator::Equal),
            TokenType::Number("5".to_string()),
        ]
    );
    assert_eq!(warnings.len(), 1);
    assert_eq!(warnings[0].ch, '@');
    assert_eq!(warnings[0].line_no, 1);
}

#[test]
fn lex_unicode_identifier() {
    let (tokens, warnings) = lex_ok("let héllo = 1");
    assert_eq!(tokens[1].token, TokenType::Identifier("héllo".to_string()));
    assert!(warnings.is_empty());
}

#[test]
fn lex_underscore_cannot_start_a_word() {
    let (tokens, warnings) = lex_ok("_x");
    // the underscore is skipped with a warning; the rest forms an identifier
    assert_eq!(kinds(&tokens), vec![TokenType::Identifier("x".to_string())]);
    assert_eq!(warnings.len(), 1);
    assert_eq!(warnings[0].ch, '_');
}

#[test]
fn lex_comment_marker_inside_string_is_text() {
    let (tokens, _) = lex_ok("let s = \"a//b\"");
    assert_eq!(tokens[3].token, TokenType::StringLiteral("a//b".to_string()));
}

#[test]
fn lex_twice_gives_identical_tokens() {
    let src = "let x = 1 + 2 * 3\nwhile (x) { print(x) }";
    let (t1, w1) = lex_ok(src);
    let (t2, w2) = lex_ok(src);
    assert_eq!(t1, t2);
    assert_eq!(w1, w2);
}
