use sod::error::ErrorKind;
use sod::lexer::lexer::{ByteClass, Lexer};
use sod::lexer::token::TokenType;

fn assert_tokens(mut l: Lexer, expected: Vec<TokenType>, cmd: bool) {
    let mut next = || {
        if cmd {
            return l.next_cmd_token().unwrap();
        } else {
            return l.next_token().unwrap();
        };
    };

    for expect in expected {
        let t = next();
        assert_eq!(expect, t);
    }

    assert_eq!(TokenType::EOF, next());
}

#[test]
fn lexer_tests_simple() {
    assert_tokens(
        Lexer::new("1+ 2 -1.2"),
        vec![
            TokenType::Integer(1),
            TokenType::Plus,
            TokenType::Integer(2),
            TokenType::Minus,
            TokenType::Decimal("1.2".to_string()),
        ],
        false,
    );

    assert_tokens(
        Lexer::new("1+2\n"),
        vec![
            TokenType::Integer(1),
            TokenType::Plus,
            TokenType::Integer(2),
            TokenType::Newline,
        ],
        false,
    );
}

#[test]
fn lexer_tests_assignment() {
    assert_tokens(
        Lexer::new("foo = 1"),
        vec![
            TokenType::Identifier("foo".to_string()),
            TokenType::Equals,
            TokenType::Integer(1),
        ],
        false,
    );
}

#[test]
fn lexer_tests_strings() {
    assert_tokens(
        Lexer::new(r#"x="foo""#),
        vec![
            TokenType::Identifier("x".to_string()),
            TokenType::Equals,
            TokenType::TemplateString("foo".to_string()),
        ],
        false,
    );
}

#[test]
fn bash() {
    assert_tokens(
        Lexer::new("ls -la >> foo.txt"),
        vec![
            TokenType::Identifier("ls".to_string()),
            TokenType::Whitespace,
            TokenType::Minus,
            TokenType::Identifier("la".to_string()),
            TokenType::Whitespace,
            TokenType::GreaterThan,
            TokenType::GreaterThan,
            TokenType::Whitespace,
            TokenType::Identifier("foo".to_string()),
            TokenType::Dot,
            TokenType::Identifier("txt".to_string()),
        ],
        true,
    );
}

#[test]
fn line_comment() {
    assert_tokens(
        Lexer::new("1 #foo bar123 1780*() !@#$%^&*()_+|}{"),
        vec![TokenType::Integer(1), TokenType::EOF],
        false,
    );
}

#[test]
fn decimal_keeps_its_text_and_a_dangling_dot_is_left() {
    assert_tokens(
        Lexer::new("12.50 7. 1..3"),
        vec![
            TokenType::Decimal("12.50".to_string()),
            TokenType::Integer(7),
            TokenType::Dot,
            TokenType::Integer(1),
            TokenType::Dot,
            TokenType::Dot,
            TokenType::Integer(3),
        ],
        false,
    );
}

#[test]
fn operators_of_one_and_two_bytes() {
    assert_tokens(
        Lexer::new("== = != ! <= < >= > && & || |"),
        vec![
            TokenType::DoubleEquals,
            TokenType::Equals,
            TokenType::NotEquals,
            TokenType::Not,
            TokenType::Le,
            TokenType::LessThan,
            TokenType::Ge,
            TokenType::GreaterThan,
            TokenType::And,
            TokenType::CatchAll("&".to_string()),
            TokenType::Or,
            TokenType::CatchAll("|".to_string()),
        ],
        false,
    );
}

#[test]
fn quotes_tell_raw_strings_from_templates() {
    assert_tokens(
        Lexer::new("'a b' \"c $d\" 'open"),
        vec![
            TokenType::String("a b".to_string()),
            TokenType::TemplateString("c $d".to_string()),
            TokenType::String("open".to_string()),
        ],
        false,
    );
}

#[test]
fn escaped_identifier_takes_letters_and_digits() {
    assert_tokens(
        Lexer::new("$val1_x"),
        vec![
            TokenType::EscapedIdentifier("val1".to_string()),
            TokenType::CatchAll("_".to_string()),
            TokenType::Identifier("x".to_string()),
        ],
        false,
    );
}

#[test]
fn bare_dollar_is_a_lexical_error() {
    let mut l = Lexer::new("1 $ 2");
    assert_eq!(l.next_token().unwrap(), TokenType::Integer(1));
    let at = l.offset();
    let e = l.next_token().unwrap_err();
    assert_eq!(e.kind, ErrorKind::Lexical);
    assert_eq!(l.offset(), at);
}

#[test]
fn integer_out_of_range_is_a_lexical_error() {
    let mut l = Lexer::new("99999999999999999999999999999999999999");
    assert_eq!(l.next_token().unwrap_err().kind, ErrorKind::Lexical);
    let mut l = Lexer::new("18446744073709551615");
    assert_eq!(l.next_token().unwrap(), TokenType::Integer(usize::MAX));
}

#[test]
fn lookahead_leaves_the_cursor() {
    let mut l = Lexer::new("a  + b");
    assert_eq!(l.lookahead(1).unwrap(), TokenType::Identifier("a".to_string()));
    assert_eq!(l.lookahead(2).unwrap(), TokenType::Plus);
    assert_eq!(l.lookahead(3).unwrap(), TokenType::Identifier("b".to_string()));
    assert_eq!(l.lookahead(4).unwrap(), TokenType::EOF);
    assert_eq!(l.lookahead(9).unwrap(), TokenType::EOF);
    assert_eq!(l.offset(), 0);
    assert_eq!(l.next_token().unwrap(), TokenType::Identifier("a".to_string()));
}

#[test]
fn read_while_takes_the_longest_run() {
    let l = Lexer::new("abc12 x");
    assert_eq!(l.read_while(ByteClass::Word, 0), (b"abc12".to_vec(), 5));
    assert_eq!(l.read_while(ByteClass::Digit, 3), (b"12".to_vec(), 2));
    assert_eq!(l.read_while(ByteClass::Digit, 0), (vec![], 0));
    assert_eq!(l.read_while(ByteClass::Blank, 50), (vec![], 0));
    assert_eq!(l.peak_byte(5), Some(b' '));
    assert_eq!(l.peak_byte(7), None);
    assert!(l.peaked_byte_is(b'x', 6));
}

#[test]
fn display_form_of_tokens() {
    assert_eq!(TokenType::And.to_string(), "&&");
    assert_eq!(TokenType::Newline.to_string(), "\n");
    assert_eq!(TokenType::EOF.to_string(), "EOF");
    assert_eq!(TokenType::LineComment.to_string(), "");
    assert_eq!(TokenType::Whitespace.to_string(), " ");
    assert_eq!(TokenType::BackSlash.to_string(), "\\");
    assert_eq!(TokenType::Integer(1780).to_string(), "1780");
    assert_eq!(TokenType::Integer(0).to_string(), "0");
    assert_eq!(TokenType::String("a".to_string()).to_string(), "'a'");
    assert_eq!(TokenType::TemplateString("a".to_string()).to_string(), "\"a\"");
    assert_eq!(TokenType::Identifier("ls".to_string()).to_string(), "ls");
    assert_eq!(TokenType::EscapedIdentifier("x".to_string()).to_string(), "x");
    assert!(TokenType::EOF.is_end_line());
    assert!(TokenType::Newline.is_end_line());
    assert!(!TokenType::SemiColon.is_end_line());
}
