use sod::lexer::lexer::Lexer;
use sod::lexer::token::TokenType;

#[test]
fn lexer_simple() {
    let mut l = Lexer::new("1+ 2 -1.2");
    let expected = vec![
        TokenType::Integer(1),
        TokenType::Plus,
        TokenType::Integer(2),
        TokenType::Minus,
        TokenType::Decimal("1.2".to_string()),
    ];

    for expect in expected {
        let t = l.next_token().unwrap();
        if let TokenType::Decimal(text) = &t {
            assert_eq!(text.parse::<f64>().unwrap(), 1.2);
        }
        assert_eq!(t, expect);
    }

    assert_eq!(l.next_token().unwrap(), TokenType::EOF);
}

#[test]
fn lexer_assignment() {
    let mut l = Lexer::new("foo = 1");
    let expected = vec![
        TokenType::Identifier("foo".to_string()),
        TokenType::Equals,
        TokenType::Integer(1),
    ];

    for expect in expected {
        let t = l.next_token().unwrap();
        assert_eq!(t, expect);
    }

    assert_eq!(l.next_token().unwrap(), TokenType::EOF);
}
