use crate::ast::ExpressionView;
use crate::text::decimal;
use crate::token::{TokenType, TokenView};
use vstd::prelude::*;

verus! {

/// The binding power at which the operand of a prefix operator is parsed: above that
/// of every binary operator.
pub open spec fn prefix_power() -> int {
    6
}

/// The kind of the token at `i`, if there is one.
pub open spec fn kind_at(tokens: Seq<TokenView>, i: int) -> Option<TokenType> {
    if 0 <= i < tokens.len() {
        Some(tokens[i].token_type)
    } else {
        None
    }
}

/// The line of the token at `i`; 0 where there is none.
pub open spec fn line_at(tokens: Seq<TokenView>, i: int) -> nat {
    if 0 <= i < tokens.len() {
        tokens[i].line_number
    } else {
        0
    }
}

/// The binding power of the token at `i`; 0 where there is none.
pub open spec fn power_at(tokens: Seq<TokenView>, i: int) -> int {
    match kind_at(tokens, i) {
        Some(kind) => kind.binding_power(),
        None => 0,
    }
}

/// The cursor after a move to the next token: it stops at the end.
pub open spec fn advance(tokens: Seq<TokenView>, off: int) -> int {
    if off < tokens.len() {
        off + 1
    } else {
        off
    }
}

/// The number of tokens at and after `off`.
pub open spec fn remaining(tokens: Seq<TokenView>, off: int) -> nat {
    if off <= tokens.len() {
        (tokens.len() - off) as nat
    } else {
        0
    }
}

/// The diagnostic for a grouping that no `)` closes.
pub open spec fn expect_right_paren(line: nat) -> Seq<char> {
    "[line "@ + decimal(line) + "] Expect ')'"@
}

/// What parsing an expression yields: the tree, how far the cursor moved, and the
/// diagnostics in the order in which they were recorded. The cursor comes to rest on
/// the last token of the expression.
pub struct Parsed {
    pub expression: ExpressionView,
    pub moved: nat,
    pub errors: Seq<Seq<char>>,
}

/// A leaf: the cursor stays where it is.
pub open spec fn leaf(expression: ExpressionView) -> Parsed {
    Parsed { expression, moved: 0, errors: Seq::empty() }
}

/// The grouping whose `(` is at `off` and whose inside parsed as `inner`. Where `)`
/// follows, the cursor moves onto it; where it does not, a diagnostic names the line
/// of the token under the cursor and the placeholder stands for the grouping.
pub open spec fn grouping(tokens: Seq<TokenView>, off: int, inner: Parsed) -> Parsed {
    let cursor = off + 1 + inner.moved;
    if kind_at(tokens, cursor + 1) == Some(TokenType::RightParen) {
        Parsed {
            expression: ExpressionView::Grouping(Box::new(inner.expression)),
            moved: inner.moved + 2,
            errors: inner.errors,
        }
    } else {
        Parsed {
            expression: ExpressionView::Nil,
            moved: inner.moved + 1,
            errors: inner.errors.push(expect_right_paren(line_at(tokens, cursor))),
        }
    }
}

/// The prefix expression whose operator is at `off` and whose operand parsed as
/// `operand`.
pub open spec fn prefixed(tokens: Seq<TokenView>, off: int, operand: Parsed) -> Parsed {
    Parsed {
        expression: ExpressionView::PrefixExpression(tokens[off], Box::new(operand.expression)),
        moved: operand.moved + 1,
        errors: operand.errors,
    }
}

/// `first`, and then `second` from where `first` left the cursor: the tree is that of
/// `second`.
pub open spec fn followed_by(first: Parsed, second: Parsed) -> Parsed {
    Parsed {
        expression: second.expression,
        moved: first.moved + second.moved,
        errors: first.errors + second.errors,
    }
}

/// The expression that begins at `off`, with every binary operator whose binding power
/// is above `floor`.
pub open spec fn parse_expression(tokens: Seq<TokenView>, off: int, floor: int) -> Parsed
    decreases remaining(tokens, off), 1int,
{
    let prefix = match kind_at(tokens, off) {
        Some(TokenType::True) => leaf(ExpressionView::Boolean(true)),
        Some(TokenType::False) => leaf(ExpressionView::Boolean(false)),
        Some(TokenType::Number) => leaf(ExpressionView::NumberLiteral(tokens[off].literal)),
        Some(TokenType::String) => leaf(ExpressionView::StringLiteral(tokens[off].literal)),
        Some(TokenType::LeftParen) => grouping(tokens, off, parse_expression(tokens, off + 1, 0)),
        Some(TokenType::Bang) | Some(TokenType::Minus) => prefixed(
            tokens,
            off,
            parse_expression(tokens, off + 1, prefix_power()),
        ),
        _ => leaf(ExpressionView::Nil),
    };
    followed_by(prefix, parse_operators(tokens, off + prefix.moved, floor, prefix.expression))
}

/// The binary operators that follow the operand `left`, on whose last token the cursor
/// `off` stands: while the next token is a binary operator that binds more tightly than
/// `floor`, it takes what was parsed so far as its left operand, and as its right
/// operand the expression behind it, parsed with the operator's own binding power as
/// the floor.
pub open spec fn parse_operators(
    tokens: Seq<TokenView>,
    off: int,
    floor: int,
    left: ExpressionView,
) -> Parsed
    decreases remaining(tokens, off), 0int,
{
    if 0 <= off + 1 < tokens.len() && tokens[off + 1].token_type.is_infix_operator() && floor
        < tokens[off + 1].token_type.binding_power() {
        let operator = tokens[off + 1];
        let right = parse_expression(tokens, off + 2, operator.token_type.binding_power());
        let infix = ExpressionView::InfixExpression(
            operator,
            Box::new(left),
            Box::new(right.expression),
        );
        followed_by(
            Parsed { expression: infix, moved: right.moved + 2, errors: right.errors },
            parse_operators(tokens, off + 2 + right.moved, floor, infix),
        )
    } else {
        leaf(left)
    }
}

/// What parsing a program yields: the statements, how far the cursor moved, and the
/// diagnostics.
pub struct ParsedProgram {
    pub statements: Seq<ExpressionView>,
    pub moved: nat,
    pub errors: Seq<Seq<char>>,
}

/// The statements from `off` to the first end-of-input token under the cursor, or to
/// the end of the tokens: each is one expression, and one token is stepped over after
/// each.
pub open spec fn parse_statements(tokens: Seq<TokenView>, off: int) -> ParsedProgram
    decreases remaining(tokens, off),
{
    if 0 <= off < tokens.len() && tokens[off].token_type != TokenType::EOF {
        let first = parse_expression(tokens, off, 0);
        let next = advance(tokens, off + first.moved);
        let rest = parse_statements(tokens, next);
        ParsedProgram {
            statements: seq![ExpressionView::ExpressionStatement(Box::new(first.expression))]
                + rest.statements,
            moved: (next - off) as nat + rest.moved,
            errors: first.errors + rest.errors,
        }
    } else {
        ParsedProgram { statements: Seq::empty(), moved: 0, errors: Seq::empty() }
    }
}

} // verus!
