use crate::ast::{Expression, ExpressionView, Node, Statement};
use crate::object::{Boolean, Nil, NumberLiteral, Object, ObjectView, StringLiteral};
use vstd::prelude::*;

verus! {

/// The value of an expression: a literal has the value that it spells, and every other
/// expression the absent value.
pub open spec fn expression_value(e: ExpressionView) -> ObjectView {
    match e {
        ExpressionView::Boolean(value) => ObjectView::Boolean(value),
        ExpressionView::NumberLiteral(literal) => ObjectView::NumberLiteral(literal),
        ExpressionView::StringLiteral(value) => ObjectView::StringLiteral(value),
        _ => ObjectView::Nil,
    }
}

/// The value of a statement: that of the expression which it wraps.
pub open spec fn statement_value(s: ExpressionView) -> ObjectView {
    match s {
        ExpressionView::ExpressionStatement(e) => expression_value(*e),
        _ => ObjectView::Nil,
    }
}

/// The value of a node: a program has the value of its first statement, an
/// expression its own, and an empty program or a lone statement the absent value.
pub open spec fn node_value(node: Node) -> ObjectView {
    match node {
        Node::Program(p) => if p@.len() > 0 {
            statement_value(p@[0])
        } else {
            ObjectView::Nil
        },
        Node::Statement(_) => ObjectView::Nil,
        Node::Expression(e) => expression_value(e@),
    }
}

/// The value of a node.
pub fn eval(node: Node) -> (value: Object)
    ensures
        value@ == node_value(node),
{
    match node {
        Node::Program(p) => {
            if p.statements.len() > 0 {
                eval_statement(&p.statements[0])
            } else {
                Object::Nil(Nil {  })
            }
        },
        Node::Statement(_) => Object::Nil(Nil {  }),
        Node::Expression(e) => eval_expression(&e),
    }
}

/// The value of a statement.
pub fn eval_statement(stmt: &Statement) -> (value: Object)
    ensures
        value@ == statement_value(stmt@),
{
    match stmt {
        Statement::ExpressionStatement(e) => eval_expression(&e.expression),
    }
}

/// The value of an expression.
pub fn eval_expression(exp: &Expression) -> (value: Object)
    ensures
        value@ == expression_value(exp@),
{
    match exp {
        Expression::Boolean(b) => Object::Boolean(Boolean { value: b.value }),
        Expression::NumberLiteral(n) => Object::NumberLiteral(
            NumberLiteral { literal: n.literal.clone() },
        ),
        Expression::StringLiteral(s) => Object::StringLiteral(
            StringLiteral { value: s.value.clone() },
        ),
        _ => Object::Nil(Nil {  }),
    }
}

} // verus!
