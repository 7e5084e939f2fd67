use crate::text::push_char;
use crate::token::{Token, TokenView};
use vstd::prelude::*;

verus! {

/// The tag of a node.
#[derive(Clone, Copy, Debug, PartialEq, Eq, Structural)]
pub enum NodeType {
    Program,
    ExpressionStatement,
    Boolean,
    NumberLiteral,
    StringLiteral,
    Grouping,
    PrefixExpression,
    InfixExpression,
    Nil,
}

/// `true` or `false`.
pub struct Boolean {
    pub value: bool,
}

/// The placeholder that stands wherever no other expression could be parsed.
pub struct Nil {}

/// A number, kept as its normalized literal text.
pub struct NumberLiteral {
    pub literal: String,
}

/// A string, without its quotes.
pub struct StringLiteral {
    pub value: String,
}

/// A parenthesized expression.
pub struct Grouping {
    pub expression: Box<Expression>,
}

/// A prefix operator and its operand.
pub struct PrefixExpression {
    pub operator: Token,
    pub right: Box<Expression>,
}

/// A binary operator and its two operands.
pub struct InfixExpression {
    pub token: Token,
    pub left: Box<Expression>,
    pub right: Box<Expression>,
}

/// A statement that is one expression. It passes for an expression too.
pub struct ExpressionStatement {
    pub expression: Box<Expression>,
}

/// An expression: one of its eight forms.
pub enum Expression {
    Boolean(Boolean),
    Nil(Nil),
    NumberLiteral(NumberLiteral),
    StringLiteral(StringLiteral),
    Grouping(Grouping),
    PrefixExpression(PrefixExpression),
    InfixExpression(InfixExpression),
    ExpressionStatement(ExpressionStatement),
}

/// A statement: the grammar has one form.
pub enum Statement {
    ExpressionStatement(ExpressionStatement),
}

/// The root of a tree: the statements of a source, in order.
pub struct Program {
    pub statements: Vec<Statement>,
}

/// Any node of a tree.
pub enum Node {
    Program(Program),
    Statement(Statement),
    Expression(Expression),
}

/// An expression as a mathematical value: the tree, with texts in place of strings.
pub enum ExpressionView {
    Boolean(bool),
    Nil,
    NumberLiteral(Seq<char>),
    StringLiteral(Seq<char>),
    Grouping(Box<ExpressionView>),
    PrefixExpression(TokenView, Box<ExpressionView>),
    InfixExpression(TokenView, Box<ExpressionView>, Box<ExpressionView>),
    ExpressionStatement(Box<ExpressionView>),
}

impl ExpressionView {
    /// The fully parenthesized prefix rendering of the tree.
    pub open spec fn render(self) -> Seq<char>
        decreases self,
    {
        match self {
            ExpressionView::Boolean(value) => if value {
                "true"@
            } else {
                "false"@
            },
            ExpressionView::Nil => "nil"@,
            ExpressionView::NumberLiteral(literal) => literal,
            ExpressionView::StringLiteral(value) => value,
            ExpressionView::Grouping(inner) => "(group "@ + inner.render() + seq![')'],
            ExpressionView::PrefixExpression(operator, right) => seq!['('] + operator.lexeme
                + seq![' '] + right.render() + seq![')'],
            ExpressionView::InfixExpression(token, left, right) => seq!['('] + token.lexeme
                + seq![' '] + left.render() + seq![' '] + right.render() + seq![')'],
            ExpressionView::ExpressionStatement(inner) => inner.render(),
        }
    }

    /// The tag of the tree's root.
    pub open spec fn node_type(self) -> NodeType {
        match self {
            ExpressionView::Boolean(_) => NodeType::Boolean,
            ExpressionView::Nil => NodeType::Nil,
            ExpressionView::NumberLiteral(_) => NodeType::NumberLiteral,
            ExpressionView::StringLiteral(_) => NodeType::StringLiteral,
            ExpressionView::Grouping(_) => NodeType::Grouping,
            ExpressionView::PrefixExpression(_, _) => NodeType::PrefixExpression,
            ExpressionView::InfixExpression(_, _, _) => NodeType::InfixExpression,
            ExpressionView::ExpressionStatement(_) => NodeType::ExpressionStatement,
        }
    }
}

/// The tree that an expression stands for.
pub open spec fn expression_view(e: Expression) -> ExpressionView
    decreases e,
{
    match e {
        Expression::Boolean(b) => ExpressionView::Boolean(b.value),
        Expression::Nil(_) => ExpressionView::Nil,
        Expression::NumberLiteral(n) => ExpressionView::NumberLiteral(n.literal@),
        Expression::StringLiteral(s) => ExpressionView::StringLiteral(s.value@),
        Expression::Grouping(g) => ExpressionView::Grouping(
            Box::new(expression_view(*g.expression)),
        ),
        Expression::PrefixExpression(p) => ExpressionView::PrefixExpression(
            p.operator@,
            Box::new(expression_view(*p.right)),
        ),
        Expression::InfixExpression(i) => ExpressionView::InfixExpression(
            i.token@,
            Box::new(expression_view(*i.left)),
            Box::new(expression_view(*i.right)),
        ),
        Expression::ExpressionStatement(s) => ExpressionView::ExpressionStatement(
            Box::new(expression_view(*s.expression)),
        ),
    }
}

impl View for Expression {
    type V = ExpressionView;

    open spec fn view(&self) -> ExpressionView {
        expression_view(*self)
    }
}

impl View for Boolean {
    type V = ExpressionView;

    open spec fn view(&self) -> ExpressionView {
        ExpressionView::Boolean(self.value)
    }
}

impl View for Nil {
    type V = ExpressionView;

    open spec fn view(&self) -> ExpressionView {
        ExpressionView::Nil
    }
}

impl View for NumberLiteral {
    type V = ExpressionView;

    open spec fn view(&self) -> ExpressionView {
        ExpressionView::NumberLiteral(self.literal@)
    }
}

impl View for StringLiteral {
    type V = ExpressionView;

    open spec fn view(&self) -> ExpressionView {
        ExpressionView::StringLiteral(self.value@)
    }
}

impl View for Grouping {
    type V = ExpressionView;

    open spec fn view(&self) -> ExpressionView {
        ExpressionView::Grouping(Box::new(self.expression@))
    }
}

impl View for PrefixExpression {
    type V = ExpressionView;

    open spec fn view(&self) -> ExpressionView {
        ExpressionView::PrefixExpression(self.operator@, Box::new(self.right@))
    }
}

impl View for InfixExpression {
    type V = ExpressionView;

    open spec fn view(&self) -> ExpressionView {
        ExpressionView::InfixExpression(self.token@, Box::new(self.left@), Box::new(self.right@))
    }
}

impl View for ExpressionStatement {
    type V = ExpressionView;

    open spec fn view(&self) -> ExpressionView {
        ExpressionView::ExpressionStatement(Box::new(self.expression@))
    }
}

impl View for Statement {
    type V = ExpressionView;

    open spec fn view(&self) -> ExpressionView {
        match self {
            Statement::ExpressionStatement(s) => s@,
        }
    }
}

/// The trees of a sequence of statements, in order.
pub open spec fn statement_views(statements: Seq<Statement>) -> Seq<ExpressionView> {
    Seq::new(statements.len(), |i: int| statements[i]@)
}

impl View for Program {
    type V = Seq<ExpressionView>;

    open spec fn view(&self) -> Seq<ExpressionView> {
        statement_views(self.statements@)
    }
}

impl Boolean {
    /// The rendering of the node.
    pub fn string(&self) -> (s: String)
        ensures
            s@ == self@.render(),
    {
        if self.value {
            "true".to_owned()
        } else {
            "false".to_owned()
        }
    }

    /// The tag of the node.
    pub fn node_type(&self) -> (t: NodeType)
        ensures
            t == NodeType::Boolean,
    {
        NodeType::Boolean
    }
}

impl Nil {
    /// The rendering of the node.
    pub fn string(&self) -> (s: String)
        ensures
            s@ == self@.render(),
    {
        "nil".to_owned()
    }

    /// The tag of the node.
    pub fn node_type(&self) -> (t: NodeType)
        ensures
            t == NodeType::Nil,
    {
        NodeType::Nil
    }
}

impl NumberLiteral {
    /// The rendering of the node.
    pub fn string(&self) -> (s: String)
        ensures
            s@ == self@.render(),
    {
        self.literal.clone()
    }

    /// The tag of the node.
    pub fn node_type(&self) -> (t: NodeType)
        ensures
            t == NodeType::NumberLiteral,
    {
        NodeType::NumberLiteral
    }
}

impl StringLiteral {
    /// The rendering of the node.
    pub fn string(&self) -> (s: String)
        ensures
            s@ == self@.render(),
    {
        self.value.clone()
    }

    /// The tag of the node.
    pub fn node_type(&self) -> (t: NodeType)
        ensures
            t == NodeType::StringLiteral,
    {
        NodeType::StringLiteral
    }
}

impl Grouping {
    /// The rendering of the node.
    pub fn string(&self) -> (s: String)
        ensures
            s@ == self@.render(),
        decreases self,
    {
        let mut s = "(group ".to_owned();
        let inner = self.expression.string();
        s.append(inner.as_str());
        push_char(&mut s, ')');
        s
    }

    /// The tag of the node.
    pub fn node_type(&self) -> (t: NodeType)
        ensures
            t == NodeType::Grouping,
    {
        NodeType::Grouping
    }
}

impl PrefixExpression {
    /// The rendering of the node.
    pub fn string(&self) -> (s: String)
        ensures
            s@ == self@.render(),
        decreases self,
    {
        let mut s = String::new();
        push_char(&mut s, '(');
        s.append(self.operator.lexeme.as_str());
        push_char(&mut s, ' ');
        let right = self.right.string();
        s.append(right.as_str());
        push_char(&mut s, ')');
        assert(s@ =~= self@.render());
        s
    }

    /// The tag of the node.
    pub fn node_type(&self) -> (t: NodeType)
        ensures
            t == NodeType::PrefixExpression,
    {
        NodeType::PrefixExpression
    }
}

impl InfixExpression {
    /// The rendering of the node.
    pub fn string(&self) -> (s: String)
        ensures
            s@ == self@.render(),
        decreases self,
    {
        let mut s = String::new();
        push_char(&mut s, '(');
        s.append(self.token.lexeme.as_str());
        push_char(&mut s, ' ');
        let left = self.left.string();
        s.append(left.as_str());
        push_char(&mut s, ' ');
        let right = self.right.string();
        s.append(right.as_str());
        push_char(&mut s, ')');
        assert(s@ =~= self@.render());
        s
    }

    /// The tag of the node.
    pub fn node_type(&self) -> (t: NodeType)
        ensures
            t == NodeType::InfixExpression,
    {
        NodeType::InfixExpression
    }
}

impl ExpressionStatement {
    /// The rendering of the node.
    pub fn string(&self) -> (s: String)
        ensures
            s@ == self@.render(),
        decreases self,
    {
        self.expression.string()
    }

    /// The tag of the node.
    pub fn node_type(&self) -> (t: NodeType)
        ensures
            t == NodeType::ExpressionStatement,
    {
        NodeType::ExpressionStatement
    }
}

impl Expression {
    /// The rendering of the expression.
    pub fn string(&self) -> (s: String)
        ensures
            s@ == self@.render(),
        decreases self,
    {
        match self {
            Expression::Boolean(b) => b.string(),
            Expression::Nil(n) => n.string(),
            Expression::NumberLiteral(n) => n.string(),
            Expression::StringLiteral(s) => s.string(),
            Expression::Grouping(g) => g.string(),
            Expression::PrefixExpression(p) => p.string(),
            Expression::InfixExpression(i) => i.string(),
            Expression::ExpressionStatement(s) => s.string(),
        }
    }

    /// The tag of the expression.
    pub fn node_type(&self) -> (t: NodeType)
        ensures
            t == self@.node_type(),
    {
        match self {
            Expression::Boolean(_) => NodeType::Boolean,
            Expression::Nil(_) => NodeType::Nil,
            Expression::NumberLiteral(_) => NodeType::NumberLiteral,
            Expression::StringLiteral(_) => NodeType::StringLiteral,
            Expression::Grouping(_) => NodeType::Grouping,
            Expression::PrefixExpression(_) => NodeType::PrefixExpression,
            Expression::InfixExpression(_) => NodeType::InfixExpression,
            Expression::ExpressionStatement(_) => NodeType::ExpressionStatement,
        }
    }
}

impl Statement {
    /// The rendering of the statement: that of its expression.
    pub fn string(&self) -> (s: String)
        ensures
            s@ == self@.render(),
    {
        match self {
            Statement::ExpressionStatement(s) => s.string(),
        }
    }

    /// The tag of the statement.
    pub fn node_type(&self) -> (t: NodeType)
        ensures
            t == NodeType::ExpressionStatement,
    {
        match self {
            Statement::ExpressionStatement(_) => NodeType::ExpressionStatement,
        }
    }
}

impl Program {
    /// The rendering of the node.
    pub fn string(&self) -> (s: String)
        ensures
            s@ == "program"@,
    {
        "program".to_owned()
    }

    /// The tag of the node.
    pub fn node_type(&self) -> (t: NodeType)
        ensures
            t == NodeType::Program,
    {
        NodeType::Program
    }

    /// The lines that printing the program writes: the rendering of each statement,
    /// in order.
    pub fn print_lines(&self) -> (lines: Vec<String>)
        ensures
            lines@.len() == self.statements@.len(),
            forall|i: int| 0 <= i < lines@.len() ==> (#[trigger] lines@[i])@ == self@[i].render(),
    {
        let mut lines: Vec<String> = Vec::new();
        let mut i: usize = 0;
        while i < self.statements.len()
            invariant
                i <= self.statements.len(),
                lines@.len() == i,
                forall|j: int| 0 <= j < i ==> (#[trigger] lines@[j])@ == self@[j].render(),
            decreases self.statements.len() - i,
        {
            lines.push(self.statements[i].string());
            i += 1;
        }
        lines
    }
}

impl Node {
    /// The rendering of the node.
    pub fn string(&self) -> (s: String)
        ensures
            s@ == match *self {
                Node::Program(_) => "program"@,
                Node::Statement(statement) => statement@.render(),
                Node::Expression(expression) => expression@.render(),
            },
    {
        match self {
            Node::Program(p) => p.string(),
            Node::Statement(s) => s.string(),
            Node::Expression(e) => e.string(),
        }
    }

    /// The tag of the node.
    pub fn node_type(&self) -> (t: NodeType)
        ensures
            t == match *self {
                Node::Program(_) => NodeType::Program,
                Node::Statement(_) => NodeType::ExpressionStatement,
                Node::Expression(expression) => expression@.node_type(),
            },
    {
        match self {
            Node::Program(p) => p.node_type(),
            Node::Statement(s) => s.node_type(),
            Node::Expression(e) => e.node_type(),
        }
    }
}

} // verus!
