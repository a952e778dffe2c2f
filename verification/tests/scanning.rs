use pg_lang::exceptions::SyntaxException;
use pg_lang::scanner::Scanner;
use pg_lang::token::{Token, TokenType};

fn scan_line(source: &str, line: usize) -> Scanner {
    let mut scanner = Scanner::new(source.to_string(), line);
    scanner.start();
    scanner
}

fn types(scanner: &Scanner) -> Vec<TokenType> {
    scanner.tokens.iter().map(|t| t.token_type.clone()).collect()
}

fn ident(name: &str) -> TokenType {
    TokenType::IDENTIFIER(name.to_string())
}

fn number(text: &str) -> TokenType {
    TokenType::NUMBER(text.to_string())
}

fn string(text: &str) -> TokenType {
    TokenType::STRING(text.to_string())
}

fn described(e: &SyntaxException) -> (String, usize, usize) {
    (e.msg().clone(), e.line(), e.col())
}

#[test]
fn blank_lines_yield_nothing() {
    for source in ["", " ", "   ", "\t", "\r", " \t \r  "] {
        let scanner = scan_line(source, 1);
        assert!(scanner.tokens.is_empty(), "{:?}", source);
        assert!(scanner.exceptions.is_empty(), "{:?}", source);
    }
}

#[test]
fn comments_yield_nothing() {
    for source in [
        "#",
        "# comment only",
        "   # let x = 5;",
        "\t#\"open",
        "# @ $ 1.2.3",
        "## # #",
    ] {
        let scanner = scan_line(source, 1);
        assert!(scanner.tokens.is_empty(), "{:?}", source);
        assert!(scanner.exceptions.is_empty(), "{:?}", source);
    }
}

#[test]
fn comment_only_line() {
    let scanner = scan_line("# comment only", 4);
    assert_eq!(scanner.tokens.len(), 0);
    assert_eq!(scanner.exceptions.len(), 0);
    assert_eq!(scanner.current, 14);
}

#[test]
fn comment_ends_the_line() {
    let scanner = scan_line("x # y = 2", 1);
    assert_eq!(types(&scanner), vec![ident("x")]);
    assert!(scanner.exceptions.is_empty());
}

#[test]
fn comment_runs_to_the_end_of_the_text() {
    let scanner = scan_line("# one\nx", 1);
    assert!(scanner.tokens.is_empty());
    assert!(scanner.exceptions.is_empty());
    assert_eq!(scanner.current, 7);
}

#[test]
fn let_statement() {
    let scanner = scan_line("let x = 5;", 1);
    assert_eq!(
        types(&scanner),
        vec![
            TokenType::LET,
            ident("x"),
            TokenType::EQUAL,
            number("5"),
            TokenType::SEMI_COLON,
        ]
    );
    assert!(scanner.exceptions.is_empty());
    match &scanner.tokens[3].token_type {
        TokenType::NUMBER(text) => assert_eq!(text.parse::<f64>(), Ok(5.0)),
        other => panic!("not a number: {:?}", other),
    }
}

#[test]
fn tokens_carry_the_line_number() {
    let scanner = scan_line("let x = 5;", 17);
    assert_eq!(scanner.tokens.len(), 5);
    for token in &scanner.tokens {
        assert_eq!(token.line, 17);
    }
    assert_eq!(scanner.tokens[0], Token::new(TokenType::LET, 17));
}

#[test]
fn unterminated_string_at_end() {
    let scanner = scan_line("\"unterminated", 3);
    assert!(scanner.tokens.is_empty());
    assert_eq!(scanner.exceptions.len(), 1);
    assert_eq!(
        described(&scanner.exceptions[0]),
        ("Unterminated string".to_string(), 3, 1)
    );
    assert_eq!(scanner.current, 13);
}

#[test]
fn unterminated_string_names_its_opening_column() {
    let scanner = scan_line("x = \"abc", 2);
    assert_eq!(types(&scanner), vec![ident("x"), TokenType::EQUAL]);
    assert_eq!(scanner.exceptions.len(), 1);
    assert_eq!(
        described(&scanner.exceptions[0]),
        ("Unterminated string".to_string(), 2, 5)
    );
}

#[test]
fn lone_quote() {
    let scanner = scan_line("\"", 1);
    assert!(scanner.tokens.is_empty());
    assert_eq!(scanner.exceptions.len(), 1);
    assert_eq!(
        described(&scanner.exceptions[0]),
        ("Unterminated string".to_string(), 1, 1)
    );
}

#[test]
fn string_broken_by_line_feed() {
    let scanner = scan_line("\"abc\nx + 1", 1);
    assert_eq!(types(&scanner), vec![ident("x"), TokenType::PLUS, number("1")]);
    assert_eq!(scanner.exceptions.len(), 1);
    assert_eq!(
        described(&scanner.exceptions[0]),
        ("Unterminated string".to_string(), 1, 1)
    );
}

#[test]
fn string_literal() {
    let scanner = scan_line("\"hello world\"", 1);
    assert_eq!(types(&scanner), vec![string("hello world")]);
    assert!(scanner.exceptions.is_empty());
}

#[test]
fn empty_string_literal() {
    let scanner = scan_line("\"\"", 1);
    assert_eq!(types(&scanner), vec![string("")]);
    assert!(scanner.exceptions.is_empty());
}

#[test]
fn string_keeps_its_text_verbatim() {
    let scanner = scan_line("\"a\\tb # not a comment @\" ;", 1);
    assert_eq!(
        types(&scanner),
        vec![string("a\\tb # not a comment @"), TokenType::SEMI_COLON]
    );
    assert!(scanner.exceptions.is_empty());
}

#[test]
fn backslash_does_not_escape_a_quote() {
    let scanner = scan_line("\"a\\\"b", 1);
    assert_eq!(types(&scanner), vec![string("a\\"), ident("b")]);
    assert!(scanner.exceptions.is_empty());
}

#[test]
fn string_of_other_scripts() {
    let scanner = scan_line("\"héllo 京\" x", 1);
    assert_eq!(types(&scanner), vec![string("héllo 京"), ident("x")]);
    assert!(scanner.exceptions.is_empty());
}

#[test]
fn two_strings() {
    let scanner = scan_line("\"a\"\"b\"", 1);
    assert_eq!(types(&scanner), vec![string("a"), string("b")]);
}

#[test]
fn unexpected_character_then_identifier() {
    let scanner = scan_line("@ x", 9);
    assert_eq!(types(&scanner), vec![ident("x")]);
    assert_eq!(scanner.exceptions.len(), 1);
    assert_eq!(
        described(&scanner.exceptions[0]),
        ("Unexpected character @".to_string(), 9, 1)
    );
}

#[test]
fn unexpected_character_yields_no_token() {
    for source in ["@", "$", "%", "^", "&", "|", "~", "?", ":", "[", "]", "'", "\\", "`"] {
        let scanner = scan_line(source, 1);
        assert!(scanner.tokens.is_empty(), "{:?}", source);
        assert_eq!(scanner.exceptions.len(), 1, "{:?}", source);
        assert_eq!(
            described(&scanner.exceptions[0]),
            (format!("Unexpected character {}", source), 1, 1)
        );
    }
}

#[test]
fn unexpected_character_column() {
    let scanner = scan_line("ab  @cd $", 5);
    assert_eq!(types(&scanner), vec![ident("ab"), ident("cd")]);
    assert_eq!(scanner.exceptions.len(), 2);
    assert_eq!(
        described(&scanner.exceptions[0]),
        ("Unexpected character @".to_string(), 5, 5)
    );
    assert_eq!(
        described(&scanner.exceptions[1]),
        ("Unexpected character $".to_string(), 5, 9)
    );
}

#[test]
fn line_feed_is_unexpected() {
    let scanner = scan_line("x\ny", 1);
    assert_eq!(types(&scanner), vec![ident("x"), ident("y")]);
    assert_eq!(scanner.exceptions.len(), 1);
    assert_eq!(
        described(&scanner.exceptions[0]),
        ("Unexpected character \n".to_string(), 1, 2)
    );
}

#[test]
fn column_counts_characters() {
    let scanner = scan_line("\"é京\" @", 1);
    assert_eq!(types(&scanner), vec![string("é京")]);
    assert_eq!(scanner.exceptions.len(), 1);
    assert_eq!(
        described(&scanner.exceptions[0]),
        ("Unexpected character @".to_string(), 1, 6)
    );
}

#[test]
fn same_input_same_output() {
    for source in ["let x = 5;", "@ x", "\"unterminated", "1.2.3 + 4 # c", "²ab \"s\" <= é"] {
        let a = scan_line(source, 12);
        let b = scan_line(source, 12);
        assert_eq!(a.tokens, b.tokens);
        assert_eq!(a.exceptions.len(), b.exceptions.len());
        for (x, y) in a.exceptions.iter().zip(b.exceptions.iter()) {
            assert_eq!(described(x), described(y));
        }
        assert_eq!(format!("{:?}", a.tokens), format!("{:?}", b.tokens));
        assert_eq!(format!("{:?}", a.exceptions), format!("{:?}", b.exceptions));
    }
}

#[test]
fn empty_line() {
    let scanner = scan_line("", 1);
    assert!(scanner.tokens.is_empty());
    assert!(scanner.exceptions.is_empty());
    assert_eq!(scanner.current, 0);
}

#[test]
fn lone_operator_at_end() {
    let cases = [
        ("!", TokenType::BANG),
        ("=", TokenType::EQUAL),
        (">", TokenType::GREATER),
        ("<", TokenType::LESS),
    ];
    for (source, expected) in cases {
        let scanner = scan_line(source, 1);
        assert_eq!(types(&scanner), vec![expected]);
        assert!(scanner.exceptions.is_empty());
    }
}

#[test]
fn double_operators() {
    let scanner = scan_line("!= == >= <=", 1);
    assert_eq!(
        types(&scanner),
        vec![
            TokenType::BANG_EQUAL,
            TokenType::EQUAL_EQUAL,
            TokenType::GREATER_EQUAL,
            TokenType::LESS_EQUAL,
        ]
    );
    assert!(scanner.exceptions.is_empty());
}

#[test]
fn operators_split_greedily() {
    let scanner = scan_line("===!=!<==>", 1);
    assert_eq!(
        types(&scanner),
        vec![
            TokenType::EQUAL_EQUAL,
            TokenType::EQUAL,
            TokenType::BANG_EQUAL,
            TokenType::BANG,
            TokenType::LESS_EQUAL,
            TokenType::EQUAL,
            TokenType::GREATER,
        ]
    );
}

#[test]
fn operator_before_blank() {
    let scanner = scan_line("! =", 1);
    assert_eq!(types(&scanner), vec![TokenType::BANG, TokenType::EQUAL]);
}

#[test]
fn punctuation() {
    let scanner = scan_line("(){};,.-+/*", 1);
    assert_eq!(
        types(&scanner),
        vec![
            TokenType::LEFT_PAREN,
            TokenType::RIGHT_PAREN,
            TokenType::LEFT_BRACE,
            TokenType::RIGHT_BRACE,
            TokenType::SEMI_COLON,
            TokenType::COMMA,
            TokenType::DOT,
            TokenType::MINUS,
            TokenType::PLUS,
            TokenType::SLASH,
            TokenType::STAR,
        ]
    );
    assert!(scanner.exceptions.is_empty());
}

#[test]
fn numbers() {
    for text in ["0", "5", "42", "5.", "5.5", "0.25", "007", "123456789012345678901234567890"] {
        let scanner = scan_line(text, 1);
        assert_eq!(types(&scanner), vec![number(text)], "{:?}", text);
        assert!(scanner.exceptions.is_empty());
        assert!(text.parse::<f64>().is_ok());
    }
}

#[test]
fn number_values() {
    let scanner = scan_line("3.25 10 0.5 7.", 1);
    let values: Vec<f64> = scanner
        .tokens
        .iter()
        .map(|t| match &t.token_type {
            TokenType::NUMBER(text) => text.parse::<f64>().unwrap(),
            other => panic!("not a number: {:?}", other),
        })
        .collect();
    assert_eq!(values, vec![3.25, 10.0, 0.5, 7.0]);
}

#[test]
fn number_stops_before_what_follows() {
    let scanner = scan_line("12;34)x", 1);
    assert_eq!(
        types(&scanner),
        vec![
            number("12"),
            TokenType::SEMI_COLON,
            number("34"),
            TokenType::RIGHT_PAREN,
            ident("x"),
        ]
    );
}

#[test]
fn number_then_letters() {
    let scanner = scan_line("12ab", 1);
    assert_eq!(types(&scanner), vec![number("12"), ident("ab")]);
    assert!(scanner.exceptions.is_empty());
}

#[test]
fn leading_point_is_a_dot() {
    let scanner = scan_line(".5", 1);
    assert_eq!(types(&scanner), vec![TokenType::DOT, number("5")]);
}

#[test]
fn invalid_number_literal() {
    for text in ["1.2.3", "1..2", "5..", "0.0.0.0"] {
        let scanner = scan_line(text, 6);
        assert!(scanner.tokens.is_empty(), "{:?}", text);
        assert_eq!(scanner.exceptions.len(), 1, "{:?}", text);
        assert_eq!(
            described(&scanner.exceptions[0]),
            ("Invalid number literal".to_string(), 6, 1)
        );
        assert!(text.parse::<f64>().is_err());
    }
}

#[test]
fn scanning_goes_on_after_an_invalid_number() {
    let scanner = scan_line("x = 3.14.15 + y", 1);
    assert_eq!(
        types(&scanner),
        vec![ident("x"), TokenType::EQUAL, TokenType::PLUS, ident("y")]
    );
    assert_eq!(scanner.exceptions.len(), 1);
    assert_eq!(
        described(&scanner.exceptions[0]),
        ("Invalid number literal".to_string(), 1, 5)
    );
}

#[test]
fn identifiers() {
    for name in ["x", "_", "_x", "foo_bar1", "A9", "__init__", "letter", "iffy", "Let", "LET"] {
        let scanner = scan_line(name, 1);
        assert_eq!(types(&scanner), vec![ident(name)], "{:?}", name);
        assert!(scanner.exceptions.is_empty());
    }
}

#[test]
fn identifier_stops_before_what_follows() {
    let scanner = scan_line("x;y(z", 1);
    assert_eq!(
        types(&scanner),
        vec![
            ident("x"),
            TokenType::SEMI_COLON,
            ident("y"),
            TokenType::LEFT_PAREN,
            ident("z"),
        ]
    );
}

#[test]
fn identifiers_of_other_scripts() {
    let scanner = scan_line("é京 = naïve٣", 1);
    assert_eq!(
        types(&scanner),
        vec![ident("é京"), TokenType::EQUAL, ident("naïve٣")]
    );
    assert!(scanner.exceptions.is_empty());
}

#[test]
fn digit_of_another_script_begins_nothing() {
    let scanner = scan_line("²ab c", 1);
    assert_eq!(types(&scanner), vec![ident("c")]);
    assert_eq!(scanner.exceptions.len(), 1);
    assert_eq!(
        described(&scanner.exceptions[0]),
        ("Unexpected character ²".to_string(), 1, 1)
    );
}

#[test]
fn symbol_of_no_class_is_taken_alone() {
    let scanner = scan_line("💝ab", 1);
    assert_eq!(types(&scanner), vec![ident("ab")]);
    assert_eq!(scanner.exceptions.len(), 1);
    assert_eq!(
        described(&scanner.exceptions[0]),
        ("Unexpected character 💝".to_string(), 1, 1)
    );
}

#[test]
fn exception_has_no_token() {
    for source in ["@", "\"open", "1.2.3", "²", "\n"] {
        let scanner = scan_line(source, 1);
        assert!(scanner.tokens.is_empty(), "{:?}", source);
        assert_eq!(scanner.exceptions.len(), 1, "{:?}", source);
    }
}

#[test]
fn end_mark_is_never_kept() {
    for source in ["", "let x = 5;", "@", "a b c", "\"s\" 1 # c"] {
        let scanner = scan_line(source, 1);
        assert!(scanner.tokens.iter().all(|t| t.token_type != TokenType::EOF));
    }
}

#[test]
fn expression() {
    let scanner = scan_line("if (a >= 10) { return \"big\"; } else { return none; }", 1);
    assert_eq!(
        types(&scanner),
        vec![
            TokenType::IF,
            TokenType::LEFT_PAREN,
            ident("a"),
            TokenType::GREATER_EQUAL,
            number("10"),
            TokenType::RIGHT_PAREN,
            TokenType::LEFT_BRACE,
            TokenType::RETURN,
            string("big"),
            TokenType::SEMI_COLON,
            TokenType::RIGHT_BRACE,
            TokenType::ELSE,
            TokenType::LEFT_BRACE,
            TokenType::RETURN,
            TokenType::NONE,
            TokenType::SEMI_COLON,
            TokenType::RIGHT_BRACE,
        ]
    );
    assert!(scanner.exceptions.is_empty());
}

#[test]
fn long_line() {
    let mut source = String::new();
    for i in 0..500 {
        source.push_str(&format!("x{} = {}.5 @ ", i, i));
    }
    let scanner = scan_line(&source, 1);
    assert_eq!(scanner.tokens.len(), 1500);
    assert_eq!(scanner.exceptions.len(), 500);
    assert_eq!(scanner.tokens[0].token_type, ident("x0"));
    assert_eq!(scanner.tokens[1].token_type, TokenType::EQUAL);
    assert_eq!(scanner.tokens[2].token_type, number("0.5"));
    assert_eq!(scanner.tokens[1499].token_type, number("499.5"));
    assert_eq!(scanner.current, source.chars().count());
    let mut column = 0;
    for (i, exception) in scanner.exceptions.iter().enumerate() {
        column += format!("x{} = {}.5 @ ", i, i).len();
        assert_eq!(exception.col(), column - 1);
        assert_eq!(exception.msg(), "Unexpected character @");
    }
}
