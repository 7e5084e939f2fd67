use crate::ast::ExpressionView;
use crate::grammar::{
    expect_right_paren, followed_by, grouping, kind_at, leaf, line_at, parse_expression,
    parse_operators, prefix_power, prefixed, remaining, Parsed,
};
use crate::token::{TokenType, TokenView};
use vstd::prelude::*;

verus! {

/// A token with which neither a grouping nor a prefix expression begins: on its own it
/// is a leaf.
pub open spec fn is_leaf_token(token: TokenView) -> bool {
    &&& token.token_type != TokenType::LeftParen
    &&& token.token_type != TokenType::Bang
    &&& token.token_type != TokenType::Minus
}

/// The leaf that a leaf token stands for.
pub open spec fn leaf_of(token: TokenView) -> ExpressionView {
    match token.token_type {
        TokenType::True => ExpressionView::Boolean(true),
        TokenType::False => ExpressionView::Boolean(false),
        TokenType::Number => ExpressionView::NumberLiteral(token.literal),
        TokenType::String => ExpressionView::StringLiteral(token.literal),
        _ => ExpressionView::Nil,
    }
}

/// The token at `i` is no binary operator that binds more tightly than `floor`; or
/// there is no token at `i`.
pub open spec fn stops_at(tokens: Seq<TokenView>, i: int, floor: int) -> bool {
    !(0 <= i < tokens.len() && tokens[i].token_type.is_infix_operator() && floor
        < tokens[i].token_type.binding_power())
}

/// The binary expression of an operator and two operands.
pub open spec fn infix(operator: TokenView, left: ExpressionView, right: ExpressionView)
    -> ExpressionView {
    ExpressionView::InfixExpression(operator, Box::new(left), Box::new(right))
}

/// A leaf token behind which the expression stops is parsed as its leaf, and the
/// cursor stays on it.
pub proof fn lemma_leaf(tokens: Seq<TokenView>, off: int, floor: int)
    requires
        0 <= off < tokens.len(),
        is_leaf_token(tokens[off]),
        stops_at(tokens, off + 1, floor),
    ensures
        parse_expression(tokens, off, floor) == leaf(leaf_of(tokens[off])),
{
    let x = leaf_of(tokens[off]);
    assert(parse_operators(tokens, off, floor, x) == leaf(x));
    assert(followed_by(leaf(x), leaf(x)).errors =~= Seq::<Seq<char>>::empty());
}

/// One binary operator between two leaves, behind which the expression stops.
pub proof fn lemma_one_operator(tokens: Seq<TokenView>, off: int, floor: int)
    requires
        0 <= off,
        off + 2 < tokens.len(),
        is_leaf_token(tokens[off]),
        is_leaf_token(tokens[off + 2]),
        !stops_at(tokens, off + 1, floor),
        stops_at(tokens, off + 3, floor),
    ensures
        parse_expression(tokens, off, floor) == (Parsed {
            expression: infix(tokens[off + 1], leaf_of(tokens[off]), leaf_of(tokens[off + 2])),
            moved: 2,
            errors: Seq::empty(),
        }),
{
    let a = leaf_of(tokens[off]);
    let b = leaf_of(tokens[off + 2]);
    let operator = tokens[off + 1];
    let power = operator.token_type.binding_power();
    lemma_leaf(tokens, off + 2, power);
    let whole = infix(operator, a, b);
    assert(parse_operators(tokens, off + 2, floor, whole) == leaf(whole));
    let tail = parse_operators(tokens, off, floor, a);
    assert(tail.expression == whole);
    assert(tail.moved == 2);
    assert(tail.errors =~= Seq::<Seq<char>>::empty());
    assert(parse_expression(tokens, off, floor).errors =~= Seq::<Seq<char>>::empty());
}

/// Binary operators associate to the left: of two operators between three leaves, the
/// second binding no more tightly than the first, the first takes its two neighbours
/// and the second takes that expression as its left operand.
pub proof fn lemma_left_associative(tokens: Seq<TokenView>, off: int, floor: int)
    requires
        0 <= off,
        off + 4 < tokens.len(),
        is_leaf_token(tokens[off]),
        is_leaf_token(tokens[off + 2]),
        is_leaf_token(tokens[off + 4]),
        !stops_at(tokens, off + 1, floor),
        !stops_at(tokens, off + 3, floor),
        tokens[off + 3].token_type.binding_power() <= tokens[off + 1].token_type.binding_power(),
        stops_at(tokens, off + 5, floor),
    ensures
        parse_expression(tokens, off, floor) == (Parsed {
            expression: infix(
                tokens[off + 3],
                infix(tokens[off + 1], leaf_of(tokens[off]), leaf_of(tokens[off + 2])),
                leaf_of(tokens[off + 4]),
            ),
            moved: 4,
            errors: Seq::empty(),
        }),
{
    let a = leaf_of(tokens[off]);
    let b = leaf_of(tokens[off + 2]);
    let c = leaf_of(tokens[off + 4]);
    let first = tokens[off + 1];
    let second = tokens[off + 3];
    lemma_leaf(tokens, off + 2, first.token_type.binding_power());
    lemma_leaf(tokens, off + 4, second.token_type.binding_power());
    let inner = infix(first, a, b);
    let whole = infix(second, inner, c);
    assert(parse_operators(tokens, off + 4, floor, whole) == leaf(whole));
    let outer = parse_operators(tokens, off + 2, floor, inner);
    assert(outer.expression == whole);
    assert(outer.moved == 2);
    assert(outer.errors =~= Seq::<Seq<char>>::empty());
    let tail = parse_operators(tokens, off, floor, a);
    assert(tail.expression == whole);
    assert(tail.moved == 4);
    assert(tail.errors =~= Seq::<Seq<char>>::empty());
    assert(parse_expression(tokens, off, floor).errors =~= Seq::<Seq<char>>::empty());
}

/// The operator that binds more tightly takes its operands first: of two operators
/// between three leaves, the second binding more tightly than the first, the second
/// takes its two neighbours and the first takes that expression as its right operand.
pub proof fn lemma_precedence(tokens: Seq<TokenView>, off: int, floor: int)
    requires
        0 <= off,
        off + 4 < tokens.len(),
        is_leaf_token(tokens[off]),
        is_leaf_token(tokens[off + 2]),
        is_leaf_token(tokens[off + 4]),
        !stops_at(tokens, off + 1, floor),
        tokens[off + 3].token_type.is_infix_operator(),
        tokens[off + 1].token_type.binding_power() < tokens[off + 3].token_type.binding_power(),
        stops_at(tokens, off + 5, floor),
    ensures
        parse_expression(tokens, off, floor) == (Parsed {
            expression: infix(
                tokens[off + 1],
                leaf_of(tokens[off]),
                infix(tokens[off + 3], leaf_of(tokens[off + 2]), leaf_of(tokens[off + 4])),
            ),
            moved: 4,
            errors: Seq::empty(),
        }),
{
    let a = leaf_of(tokens[off]);
    let first = tokens[off + 1];
    lemma_one_operator(tokens, off + 2, first.token_type.binding_power());
    let right = parse_expression(tokens, off + 2, first.token_type.binding_power());
    let whole = infix(first, a, right.expression);
    assert(parse_operators(tokens, off + 4, floor, whole) == leaf(whole));
    let tail = parse_operators(tokens, off, floor, a);
    assert(tail.expression == whole);
    assert(tail.moved == 4);
    assert(tail.errors =~= Seq::<Seq<char>>::empty());
    assert(parse_expression(tokens, off, floor).errors =~= Seq::<Seq<char>>::empty());
}

/// A grouping that no `)` closes is reported once, with the line of the token on which
/// its inside ended, behind whatever its inside reported; the placeholder stands for
/// it, and parsing goes on from where the inside ended.
pub proof fn lemma_unmatched_grouping(tokens: Seq<TokenView>, off: int, floor: int)
    requires
        0 <= off < tokens.len(),
        tokens[off].token_type == TokenType::LeftParen,
        kind_at(tokens, off + parse_expression(tokens, off + 1, 0).moved + 2) != Some(
            TokenType::RightParen,
        ),
    ensures
        ({
            let inside = parse_expression(tokens, off + 1, 0);
            let cursor = off + 1 + inside.moved;
            let message = expect_right_paren(line_at(tokens, cursor));
            &&& parse_expression(tokens, off, floor) == followed_by(
                Parsed {
                    expression: ExpressionView::Nil,
                    moved: inside.moved + 1,
                    errors: inside.errors.push(message),
                },
                parse_operators(tokens, cursor, floor, ExpressionView::Nil),
            )
            &&& parse_expression(tokens, off, floor).errors.contains(message)
        }),
{
    let inside = parse_expression(tokens, off + 1, 0);
    let message = expect_right_paren(line_at(tokens, off + 1 + inside.moved));
    let all = parse_expression(tokens, off, floor).errors;
    assert(all[inside.errors.len() as int] == message);
}

/// The binding power of the operator of a binary expression; `None` for every other
/// expression.
pub open spec fn root_power(e: ExpressionView) -> Option<int> {
    match e {
        ExpressionView::InfixExpression(operator, _, _) => Some(
            operator.token_type.binding_power(),
        ),
        _ => None,
    }
}

/// `e` is no binary expression, or its operator binds more tightly than `floor`.
pub open spec fn binds_above(e: ExpressionView, floor: int) -> bool {
    match root_power(e) {
        Some(power) => floor < power,
        None => true,
    }
}

/// `e` is no binary expression, or its operator binds at least as tightly as `power`.
pub open spec fn binds_at_least(e: ExpressionView, power: int) -> bool {
    match root_power(e) {
        Some(own) => power <= own,
        None => true,
    }
}

/// Throughout the tree, operands bind as the grammar asks: the right operand of a
/// binary operator is no binary expression unless its operator binds more tightly, the
/// left operand is none unless its operator binds at least as tightly, and the operand
/// of a prefix operator is never one.
pub open spec fn respects_binding(e: ExpressionView) -> bool
    decreases e,
{
    match e {
        ExpressionView::InfixExpression(operator, left, right) => {
            &&& binds_at_least(*left, operator.token_type.binding_power())
            &&& binds_above(*right, operator.token_type.binding_power())
            &&& respects_binding(*left)
            &&& respects_binding(*right)
        },
        ExpressionView::PrefixExpression(_, operand) => {
            &&& root_power(*operand) is None
            &&& respects_binding(*operand)
        },
        ExpressionView::Grouping(inside) => respects_binding(*inside),
        ExpressionView::ExpressionStatement(inside) => respects_binding(*inside),
        _ => true,
    }
}

/// No operator binds as tightly as a prefix operator takes its operand.
pub proof fn lemma_binding_power_bound(kind: TokenType)
    ensures
        0 <= kind.binding_power() < prefix_power(),
{
}

/// Precedence and associativity, of every sequence of tokens: in the tree of an
/// expression a tighter operator is never the parent of a looser one on its right,
/// equal operators group to the left, and a prefix operator takes no binary
/// expression as its operand, unless parentheses say so. The tree itself is no binary
/// expression whose operator binds no more tightly than `floor`, and behind the
/// expression stands no binary operator that binds more tightly than `floor`.
pub proof fn lemma_parse_respects_binding(tokens: Seq<TokenView>, off: int, floor: int)
    ensures
        respects_binding(parse_expression(tokens, off, floor).expression),
        binds_above(parse_expression(tokens, off, floor).expression, floor),
        stops_at(tokens, off + parse_expression(tokens, off, floor).moved + 1, floor),
    decreases remaining(tokens, off), 1int,
{
    let prefix = match kind_at(tokens, off) {
        Some(TokenType::True) => leaf(ExpressionView::Boolean(true)),
        Some(TokenType::False) => leaf(ExpressionView::Boolean(false)),
        Some(TokenType::Number) => leaf(ExpressionView::NumberLiteral(tokens[off].literal)),
        Some(TokenType::String) => leaf(ExpressionView::StringLiteral(tokens[off].literal)),
        Some(TokenType::LeftParen) => grouping(tokens, off, parse_expression(tokens, off + 1, 0)),
        Some(TokenType::Bang) | Some(TokenType::Minus) => prefixed(
            tokens,
            off,
            parse_expression(tokens, off + 1, prefix_power()),
        ),
        _ => leaf(ExpressionView::Nil),
    };
    match kind_at(tokens, off) {
        Some(TokenType::LeftParen) => {
            lemma_parse_respects_binding(tokens, off + 1, 0);
        },
        Some(TokenType::Bang) | Some(TokenType::Minus) => {
            lemma_parse_respects_binding(tokens, off + 1, prefix_power());
            let operand = parse_expression(tokens, off + 1, prefix_power()).expression;
            match operand {
                ExpressionView::InfixExpression(operator, _, _) => {
                    lemma_binding_power_bound(operator.token_type);
                },
                _ => {},
            }
        },
        _ => {},
    }
    lemma_operators_respect_binding(tokens, off + prefix.moved, floor, prefix.expression);
}

/// The part of `lemma_parse_respects_binding` that speaks of the operators behind an
/// operand `left`: where `left` is a binary expression, no operator that binds more
/// tightly than its own may stand behind it.
pub proof fn lemma_operators_respect_binding(
    tokens: Seq<TokenView>,
    off: int,
    floor: int,
    left: ExpressionView,
)
    requires
        respects_binding(left),
        binds_above(left, floor),
        root_power(left) matches Some(power) ==> stops_at(tokens, off + 1, power),
    ensures
        respects_binding(parse_operators(tokens, off, floor, left).expression),
        binds_above(parse_operators(tokens, off, floor, left).expression, floor),
        stops_at(tokens, off + parse_operators(tokens, off, floor, left).moved + 1, floor),
    decreases remaining(tokens, off), 0int,
{
    if !stops_at(tokens, off + 1, floor) {
        let operator = tokens[off + 1];
        let power = operator.token_type.binding_power();
        lemma_parse_respects_binding(tokens, off + 2, power);
        let right = parse_expression(tokens, off + 2, power);
        let whole = infix(operator, left, right.expression);
        assert(respects_binding(whole));
        lemma_operators_respect_binding(tokens, off + 2 + right.moved, floor, whole);
    }
}

} // verus!
