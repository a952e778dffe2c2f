use pg_lang::scanner::Scanner;
use pg_lang::token::{keywords, TokenType};

fn reserved() -> Vec<(&'static str, TokenType)> {
    vec![
        ("and", TokenType::AND),
        ("else", TokenType::ELSE),
        ("elif", TokenType::ELIF),
        ("false", TokenType::FALSE),
        ("fn", TokenType::FN),
        ("for", TokenType::FOR),
        ("if", TokenType::IF),
        ("none", TokenType::NONE),
        ("or", TokenType::OR),
        ("return", TokenType::RETURN),
        ("super", TokenType::SUPER),
        ("this", TokenType::THIS),
        ("true", TokenType::TRUE),
        ("let", TokenType::LET),
        ("while", TokenType::WHILE),
        ("do", TokenType::DO),
    ]
}

fn scan_types(source: &str) -> (Vec<TokenType>, usize) {
    let mut scanner = Scanner::new(source.to_string(), 1);
    scanner.start();
    let found = scanner.tokens.iter().map(|t| t.token_type.clone()).collect();
    (found, scanner.exceptions.len())
}

#[test]
fn keyword_table() {
    let table = keywords();
    assert_eq!(table.len(), 16);
    assert!(!table.is_empty());
    for (spelling, token_type) in reserved() {
        assert!(table.contains_key(spelling), "{:?}", spelling);
        assert_eq!(table.get(spelling), Some(&token_type));
    }
}

#[test]
fn keyword_table_holds_nothing_else() {
    let table = keywords();
    for other in ["", "x", "Let", "AND", "lets", "le", "iff", "i", "returns", "whil", "e lse"] {
        assert!(!table.contains_key(other), "{:?}", other);
        assert_eq!(table.get(other), None, "{:?}", other);
    }
}

#[test]
fn keyword_token_types_are_distinct() {
    let words = reserved();
    for i in 0..words.len() {
        for j in 0..i {
            assert_ne!(words[i].0, words[j].0);
            assert_ne!(words[i].1, words[j].1);
        }
    }
}

#[test]
fn keywords_scan_as_keywords() {
    for (spelling, token_type) in reserved() {
        let (found, errors) = scan_types(spelling);
        assert_eq!(found, vec![token_type], "{:?}", spelling);
        assert_eq!(errors, 0);
    }
}

#[test]
fn keyword_with_one_more_character_is_an_identifier() {
    for (spelling, _) in reserved() {
        for extra in ["s", "_", "0", "X", "é"] {
            let longer = format!("{}{}", spelling, extra);
            let (found, errors) = scan_types(&longer);
            assert_eq!(found, vec![TokenType::IDENTIFIER(longer.clone())], "{:?}", longer);
            assert_eq!(errors, 0);
        }
    }
}

#[test]
fn keyword_with_one_character_fewer_is_an_identifier() {
    for (spelling, _) in reserved() {
        let shorter = &spelling[..spelling.len() - 1];
        let (found, errors) = scan_types(shorter);
        assert_eq!(found, vec![TokenType::IDENTIFIER(shorter.to_string())], "{:?}", shorter);
        assert_eq!(errors, 0);
    }
}

#[test]
fn keyword_with_another_last_character_is_an_identifier() {
    for (spelling, _) in reserved() {
        let stem = &spelling[..spelling.len() - 1];
        for last in "abcdefghijklmnopqrstuvwxyz_0".chars() {
            if spelling.ends_with(last) {
                continue;
            }
            let other = format!("{}{}", stem, last);
            let (found, errors) = scan_types(&other);
            assert_eq!(found, vec![TokenType::IDENTIFIER(other.clone())], "{:?}", other);
            assert_eq!(errors, 0);
        }
    }
}

#[test]
fn keywords_among_other_lexemes() {
    let (found, errors) = scan_types("while(true)do{x=this.y or false}");
    assert_eq!(
        found,
        vec![
            TokenType::WHILE,
            TokenType::LEFT_PAREN,
            TokenType::TRUE,
            TokenType::RIGHT_PAREN,
            TokenType::DO,
            TokenType::LEFT_BRACE,
            TokenType::IDENTIFIER("x".to_string()),
            TokenType::EQUAL,
            TokenType::THIS,
            TokenType::DOT,
            TokenType::IDENTIFIER("y".to_string()),
            TokenType::OR,
            TokenType::FALSE,
            TokenType::RIGHT_BRACE,
        ]
    );
    assert_eq!(errors, 0);
}

#[test]
fn token_type_clone_is_equal() {
    let all = vec![
        TokenType::LEFT_PAREN,
        TokenType::RIGHT_PAREN,
        TokenType::LEFT_BRACE,
        TokenType::RIGHT_BRACE,
        TokenType::COMMA,
        TokenType::DOT,
        TokenType::MINUS,
        TokenType::PLUS,
        TokenType::SEMI_COLON,
        TokenType::SLASH,
        TokenType::STAR,
        TokenType::EQUAL,
        TokenType::BANG,
        TokenType::GREATER,
        TokenType::LESS,
        TokenType::POUND,
        TokenType::BANG_EQUAL,
        TokenType::EQUAL_EQUAL,
        TokenType::GREATER_EQUAL,
        TokenType::LESS_EQUAL,
        TokenType::IDENTIFIER("name".to_string()),
        TokenType::STRING("text".to_string()),
        TokenType::NUMBER("1.5".to_string()),
        TokenType::AND,
        TokenType::ELSE,
        TokenType::ELIF,
        TokenType::FALSE,
        TokenType::FN,
        TokenType::FOR,
        TokenType::IF,
        TokenType::NONE,
        TokenType::OR,
        TokenType::RETURN,
        TokenType::SUPER,
        TokenType::THIS,
        TokenType::TRUE,
        TokenType::LET,
        TokenType::WHILE,
        TokenType::DO,
        TokenType::EOF,
    ];
    for (i, token_type) in all.iter().enumerate() {
        assert_eq!(token_type.clone(), *token_type);
        for (j, other) in all.iter().enumerate() {
            assert_eq!(i == j, token_type == other);
        }
    }
}
