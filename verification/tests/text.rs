use lox_syntax::ast::{
    Boolean, Expression, ExpressionStatement, Grouping, InfixExpression, Nil, NodeType,
    NumberLiteral, PrefixExpression, StringLiteral,
};
use lox_syntax::common::PrjChar;
use lox_syntax::evaluator::eval_expression;
use lox_syntax::lexer::{normalize_range, Lexer};
use lox_syntax::object;
use lox_syntax::object::{Object, ObjectType};
use lox_syntax::text::{push_decimal, push_range};
use lox_syntax::token::{Token, TokenType};

fn decimal(n: usize) -> String {
    let mut s = String::new();
    push_decimal(&mut s, n);
    s
}

fn operator(token_type: TokenType, lexeme: &str) -> Token {
    Token { token_type, lexeme: lexeme.to_string(), literal: "null".to_string(), line_number: 1 }
}

fn number(literal: &str) -> Box<Expression> {
    Box::new(Expression::NumberLiteral(NumberLiteral { literal: literal.to_string() }))
}

#[test]
fn decimal_numerals() {
    assert_eq!(decimal(0), "0");
    assert_eq!(decimal(7), "7");
    assert_eq!(decimal(10), "10");
    assert_eq!(decimal(109), "109");
    assert_eq!(decimal(1234567890), "1234567890");
    assert_eq!(decimal(usize::MAX), usize::MAX.to_string());
}

#[test]
fn decimal_is_appended() {
    let mut s = "line ".to_string();
    push_decimal(&mut s, 42);
    assert_eq!(s, "line 42");
}

#[test]
fn range_is_appended() {
    let chars: Vec<char> = "abcdef".chars().collect();
    let mut s = "x".to_string();
    push_range(&mut s, &chars, 1, 4);
    assert_eq!(s, "xbcd");
    push_range(&mut s, &chars, 3, 3);
    assert_eq!(s, "xbcd");
    push_range(&mut s, &chars, 0, 6);
    assert_eq!(s, "xbcdabcdef");
}

#[test]
fn normalization_of_a_range() {
    let chars: Vec<char> = "a12.500b".chars().collect();
    assert_eq!(normalize_range(&chars, 1, 7), "12.5");
    assert_eq!(normalize_range(&chars, 1, 3), "12.0");
    assert_eq!(normalize_range(&chars, 1, 4), "12.0");
    assert_eq!(normalize_range(&chars, 1, 6), "12.5");
}

#[test]
fn character_classes() {
    for c in ['a', 'z', 'A', 'Z', '_', 'm'] {
        assert!(c.is_alphabet_or_underscore());
        assert!(c.is_identifier_char());
    }
    for c in ['0', '5', '9'] {
        assert!(!c.is_alphabet_or_underscore());
        assert!(c.is_identifier_char());
    }
    for c in ['-', ' ', '@', '[', '`', '{', '/', ':', '\u{e9}', '\n'] {
        assert!(!c.is_alphabet_or_underscore());
        assert!(!c.is_identifier_char());
    }
}

#[test]
fn every_number_literal_is_a_decimal_numeral() {
    let mut lexer = Lexer::new("0 7. 10.50 003 1.000 42.0001000 9999999999999999999".to_string());
    lexer.tokenize();
    let mut seen = 0;
    for token in lexer.tokens.iter() {
        if token.token_type == TokenType::Number {
            seen += 1;
            let (whole, fraction) = token.literal.split_once('.').unwrap();
            assert!(!whole.is_empty() && whole.chars().all(|c| c.is_ascii_digit()));
            assert!(!fraction.is_empty() && fraction.chars().all(|c| c.is_ascii_digit()));
            assert!(fraction == "0" || !fraction.ends_with('0'));
            assert!(token.literal.parse::<f64>().is_ok());
        }
    }
    assert_eq!(seen, 7);
}

#[test]
fn end_of_input_token_comes_once_and_last() {
    for source in ["", "1 + 2", "\"open", "@", "a\nb // c", "EOF"] {
        let mut lexer = Lexer::new(source.to_string());
        lexer.tokenize();
        let count = lexer.tokens.iter().filter(|t| t.token_type == TokenType::EOF).count();
        assert_eq!(count, 1);
        assert_eq!(lexer.tokens.last().unwrap().token_type, TokenType::EOF);
    }
}

#[test]
fn token_lines_never_decrease() {
    let mut lexer = Lexer::new("a\n\"s\" 1\r2 // c\n\n(\"open\n)".to_string());
    lexer.tokenize();
    let lines: Vec<usize> = lexer.tokens.iter().map(|t| t.line_number).collect();
    assert_eq!(lines, vec![1, 2, 2, 3, 5, 6, 6]);
}

#[test]
fn trees_built_by_hand_render_by_the_same_grammar() {
    let sum = Expression::InfixExpression(InfixExpression {
        token: operator(TokenType::Plus, "+"),
        left: number("1.0"),
        right: Box::new(Expression::Grouping(Grouping {
            expression: Box::new(Expression::PrefixExpression(PrefixExpression {
                operator: operator(TokenType::Bang, "!"),
                right: Box::new(Expression::Boolean(Boolean { value: false })),
            })),
        })),
    });
    assert_eq!(sum.string(), "(+ 1.0 (group (! false)))");
    assert_eq!(sum.node_type(), NodeType::InfixExpression);
    let wrapped = Expression::ExpressionStatement(ExpressionStatement { expression: Box::new(sum) });
    assert_eq!(wrapped.string(), "(+ 1.0 (group (! false)))");
    assert_eq!(wrapped.node_type(), NodeType::ExpressionStatement);
    assert_eq!(eval_expression(&wrapped).obj_type(), ObjectType::NilObj);
}

#[test]
fn leaves_render_as_their_text() {
    assert_eq!(Boolean { value: true }.string(), "true");
    assert_eq!(Boolean { value: false }.string(), "false");
    assert_eq!(Boolean { value: false }.node_type(), NodeType::Boolean);
    assert_eq!(Nil {}.string(), "nil");
    assert_eq!(Nil {}.node_type(), NodeType::Nil);
    let n = NumberLiteral { literal: "3.14".to_string() };
    assert_eq!(n.string(), "3.14");
    assert_eq!(n.node_type(), NodeType::NumberLiteral);
    let s = StringLiteral { value: "a b".to_string() };
    assert_eq!(s.string(), "a b");
    assert_eq!(s.node_type(), NodeType::StringLiteral);
}

#[test]
fn values_show_themselves() {
    let b = object::Boolean { value: true };
    assert_eq!(b.inspect(), "true");
    assert_eq!(b.obj_type(), ObjectType::BooleanObj);
    assert_eq!(object::Boolean { value: false }.inspect(), "false");
    let s = object::StringLiteral { value: "text".to_string() };
    assert_eq!(s.inspect(), "text");
    assert_eq!(s.obj_type(), ObjectType::StringLiteralObj);
    let n = object::NumberLiteral { literal: "2.5".to_string() };
    assert_eq!(n.inspect(), "2.5");
    assert_eq!(n.obj_type(), ObjectType::NumberLiteralObj);
    assert_eq!(object::Nil {}.inspect(), "nil");
    assert_eq!(object::Nil {}.obj_type(), ObjectType::NilObj);
    let value = Object::NumberLiteral(n);
    assert_eq!(value.inspect(), "2.5");
    assert_eq!(value.obj_type(), ObjectType::NumberLiteralObj);
}
