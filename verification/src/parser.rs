use crate::ast::{
    Boolean, Expression, ExpressionStatement, ExpressionView, Grouping, InfixExpression, Nil,
    NumberLiteral, PrefixExpression, Program, Statement, StringLiteral,
};
use crate::grammar::{
    advance, grouping, kind_at, leaf, line_at, parse_expression, parse_operators,
    parse_statements, power_at, prefix_power, prefixed, remaining,
};
use crate::lexer::Lexer;
use crate::text::{lemma_text_views_push, push_decimal, text_views};
use crate::token::{token_views, Token, TokenType, TokenView};
use vstd::prelude::*;

verus! {

/// The parser: the scanner whose tokens it reads, a cursor into them, and the
/// diagnostics recorded so far.
pub struct Parser {
    pub lexer: Lexer,
    pub off: usize,
    pub errors: Vec<String>,
}

impl Parser {
    /// The tokens that the parser reads.
    pub open spec fn tokens(&self) -> Seq<TokenView> {
        token_views(self.lexer.tokens@)
    }

    /// The cursor is on a token, or at the end of the tokens.
    pub open spec fn wf(&self) -> bool {
        self.off <= self.lexer.tokens@.len()
    }

    /// This parser is `before` with its cursor `moved` tokens on and with `errors`
    /// behind the diagnostics that `before` held; a cursor that was within the tokens
    /// still is.
    pub open spec fn follows(&self, before: &Parser, moved: nat, errors: Seq<Seq<char>>) -> bool {
        &&& self.lexer == before.lexer
        &&& self.off == before.off + moved
        &&& text_views(self.errors@) == text_views(before.errors@) + errors
        &&& before.wf() ==> self.wf()
    }

    /// A parser at the first of the tokens that `lexer` holds.
    pub fn new(lexer: Lexer) -> (parser: Self)
        ensures
            parser.lexer == lexer,
            parser.off == 0,
            parser.errors@.len() == 0,
            parser.wf(),
    {
        Self { lexer, off: 0, errors: Vec::new() }
    }

    fn current_token(&self) -> (token: Option<&Token>)
        ensures
            self.off < self.lexer.tokens@.len() ==> token == Some(&self.lexer.tokens@[self.off as int]),
            self.off >= self.lexer.tokens@.len() ==> token is None,
    {
        if self.off >= self.lexer.tokens.len() {
            return None;
        }
        Some(&self.lexer.tokens[self.off])
    }

    fn current_token_type(&self) -> (kind: Option<TokenType>)
        ensures
            kind == kind_at(self.tokens(), self.off as int),
    {
        match self.current_token() {
            Some(token) => Some(token.token_type),
            None => None,
        }
    }

    fn current_token_line_number(&self) -> (line: usize)
        ensures
            line == line_at(self.tokens(), self.off as int),
    {
        match self.current_token() {
            Some(token) => token.line_number,
            None => 0,
        }
    }

    fn next_token(&mut self)
        ensures
            final(self).lexer == old(self).lexer,
            final(self).errors == old(self).errors,
            final(self).off == advance(old(self).tokens(), old(self).off as int),
    {
        if self.off < self.lexer.tokens.len() {
            self.off += 1;
        }
    }

    fn peek_token(&self) -> (token: Option<&Token>)
        ensures
            self.off + 1 < self.lexer.tokens@.len() ==> token == Some(
                &self.lexer.tokens@[self.off + 1],
            ),
            self.off + 1 >= self.lexer.tokens@.len() ==> token is None,
    {
        if self.off >= self.lexer.tokens.len() || self.off + 1 >= self.lexer.tokens.len() {
            return None;
        }
        Some(&self.lexer.tokens[self.off + 1])
    }

    fn peek_token_type(&self) -> (kind: Option<TokenType>)
        ensures
            kind == kind_at(self.tokens(), self.off + 1),
    {
        match self.peek_token() {
            Some(token) => Some(token.token_type),
            None => None,
        }
    }

    fn peek_token_type_is(&self, target: TokenType) -> (found: bool)
        ensures
            found == (kind_at(self.tokens(), self.off + 1) == Some(target)),
    {
        match self.peek_token_type() {
            Some(token_type) => token_type == target,
            None => false,
        }
    }

    fn peek_precedence(&self) -> (power: i32)
        ensures
            power == power_at(self.tokens(), self.off + 1),
    {
        match self.peek_token_type() {
            Some(token_type) => token_type.precedence(),
            None => 0,
        }
    }

    /// Parses the statements up to the end-of-input token and returns them as a
    /// program. Nothing stops the parse: what cannot be parsed becomes a placeholder,
    /// with a diagnostic where the grammar asks for one.
    pub fn parse_program(&mut self) -> (program: Program)
        ensures
            ({
                let parsed = parse_statements(old(self).tokens(), old(self).off as int);
                &&& program@ == parsed.statements
                &&& final(self).follows(old(self), parsed.moved, parsed.errors)
            }),
            kind_at(final(self).tokens(), final(self).off as int) is None || kind_at(
                final(self).tokens(),
                final(self).off as int,
            ) == Some(TokenType::EOF),
    {
        let mut program = Program { statements: Vec::new() };
        let ghost tokens = self.tokens();
        let ghost total = parse_statements(tokens, self.off as int);
        let ghost errors0 = text_views(self.errors@);
        loop
            invariant
                old(self).wf() ==> self.wf(),
                self.lexer == old(self).lexer,
                tokens == self.tokens(),
                total == parse_statements(tokens, old(self).off as int),
                errors0 == text_views(old(self).errors@),
                old(self).off <= self.off,
                program@ + parse_statements(tokens, self.off as int).statements
                    == total.statements,
                (self.off - old(self).off) + parse_statements(tokens, self.off as int).moved
                    == total.moved,
                text_views(self.errors@) + parse_statements(tokens, self.off as int).errors
                    == errors0 + total.errors,
            ensures
                program@ == total.statements,
                self.follows(old(self), total.moved, total.errors),
                kind_at(tokens, self.off as int) is None || kind_at(tokens, self.off as int)
                    == Some(TokenType::EOF),
            decreases remaining(tokens, self.off as int),
        {
            match self.current_token_type() {
                Some(kind) => {
                    if kind == TokenType::EOF {
                        assert(program@ + Seq::<ExpressionView>::empty() =~= program@);
                        assert(text_views(self.errors@) + Seq::<Seq<char>>::empty() =~= text_views(
                            self.errors@,
                        ));
                        break ;
                    }
                },
                None => {
                    assert(program@ + Seq::<ExpressionView>::empty() =~= program@);
                    assert(text_views(self.errors@) + Seq::<Seq<char>>::empty() =~= text_views(
                        self.errors@,
                    ));
                    break ;
                },
            }
            let ghost before = *self;
            let ghost done = program@;
            let ghost first = parse_expression(tokens, self.off as int, 0);
            let stmt = self.parse_statement();
            program.statements.push(stmt);
            self.next_token();
            proof {
                let rest = parse_statements(tokens, self.off as int);
                assert(program@ =~= done.push(
                    ExpressionView::ExpressionStatement(Box::new(first.expression)),
                ));
                assert(program@ + rest.statements =~= done + (seq![
                    ExpressionView::ExpressionStatement(Box::new(first.expression)),
                ] + rest.statements));
                assert(text_views(self.errors@) + rest.errors =~= text_views(before.errors@) + (
                first.errors + rest.errors));
            }
        }
        program
    }

    fn parse_statement(&mut self) -> (statement: Statement)
        ensures
            ({
                let parsed = parse_expression(old(self).tokens(), old(self).off as int, 0);
                &&& statement@ == ExpressionView::ExpressionStatement(Box::new(parsed.expression))
                &&& final(self).follows(old(self), parsed.moved, parsed.errors)
            }),
    {
        Statement::ExpressionStatement(self.parse_expression_statement())
    }

    fn parse_expression_statement(&mut self) -> (statement: ExpressionStatement)
        ensures
            ({
                let parsed = parse_expression(old(self).tokens(), old(self).off as int, 0);
                &&& statement@ == ExpressionView::ExpressionStatement(Box::new(parsed.expression))
                &&& final(self).follows(old(self), parsed.moved, parsed.errors)
            }),
    {
        ExpressionStatement { expression: Box::new(self.parse_expression(0)) }
    }

    /// Parses the expression under the cursor, with every binary operator that binds
    /// more tightly than `precedence`, and leaves the cursor on its last token.
    fn parse_expression(&mut self, precedence: i32) -> (expression: Expression)
        ensures
            ({
                let parsed = parse_expression(
                    old(self).tokens(),
                    old(self).off as int,
                    precedence as int,
                );
                &&& expression@ == parsed.expression
                &&& final(self).follows(old(self), parsed.moved, parsed.errors)
            }),
        decreases remaining(old(self).tokens(), old(self).off as int), 1int,
    {
        let ghost tokens = self.tokens();
        let ghost total = parse_expression(tokens, self.off as int, precedence as int);
        let ghost errors0 = text_views(self.errors@);
        let prefix = match self.current_token_type() {
            Some(TokenType::True | TokenType::False) => self.parse_boolean_expression(),
            Some(TokenType::Number) => self.parse_number_expression(),
            Some(TokenType::String) => self.parse_string_expression(),
            Some(TokenType::LeftParen) => self.parse_grouping_expression(),
            Some(TokenType::Bang | TokenType::Minus) => self.parse_prefix_expression(),
            _ => self.parse_nil_expression(),
        };
        let mut left = prefix;

        while precedence < self.peek_precedence()
            invariant
                old(self).wf() ==> self.wf(),
                self.lexer == old(self).lexer,
                tokens == self.tokens(),
                total == parse_expression(tokens, old(self).off as int, precedence as int),
                errors0 == text_views(old(self).errors@),
                old(self).off <= self.off,
                remaining(tokens, self.off as int) <= remaining(tokens, old(self).off as int),
                total.expression == parse_operators(
                    tokens,
                    self.off as int,
                    precedence as int,
                    left@,
                ).expression,
                total.moved == (self.off - old(self).off) + parse_operators(
                    tokens,
                    self.off as int,
                    precedence as int,
                    left@,
                ).moved,
                text_views(self.errors@) + parse_operators(
                    tokens,
                    self.off as int,
                    precedence as int,
                    left@,
                ).errors == errors0 + total.errors,
            decreases remaining(tokens, self.off as int),
        {
            match self.peek_token_type() {
                Some(
                    TokenType::Star
                    | TokenType::Slash
                    | TokenType::Plus
                    | TokenType::Minus
                    | TokenType::Less
                    | TokenType::LessEqual
                    | TokenType::Greater
                    | TokenType::GreaterEqual
                    | TokenType::EqualEqual
                    | TokenType::BangEqual,
                ) => {
                    let ghost before = *self;
                    let ghost operand = left@;
                    let ghost right = parse_expression(
                        tokens,
                        self.off + 2,
                        tokens[self.off + 1].token_type.binding_power(),
                    );
                    self.next_token();
                    left = self.parse_infix_expression(left);
                    proof {
                        let rest = parse_operators(
                            tokens,
                            self.off as int,
                            precedence as int,
                            left@,
                        );
                        assert(text_views(self.errors@) + rest.errors =~= text_views(
                            before.errors@,
                        ) + (right.errors + rest.errors));
                    }
                },
                _ => {
                    proof {
                        assert(text_views(self.errors@) + Seq::<Seq<char>>::empty() =~= text_views(
                            self.errors@,
                        ));
                    }
                    return left;
                },
            }
        }
        proof {
            assert(text_views(self.errors@) + Seq::<Seq<char>>::empty() =~= text_views(
                self.errors@,
            ));
        }
        left
    }

    fn parse_boolean_expression(&mut self) -> (expression: Expression)
        ensures
            *final(self) == *old(self),
            expression@ == ExpressionView::Boolean(
                kind_at(old(self).tokens(), old(self).off as int) == Some(TokenType::True),
            ),
    {
        Expression::Boolean(
            Boolean {
                value: match self.current_token_type() {
                    Some(TokenType::True) => true,
                    _ => false,
                },
            },
        )
    }

    fn parse_number_expression(&mut self) -> (expression: Expression)
        ensures
            *final(self) == *old(self),
            expression@ == if old(self).off < old(self).tokens().len() {
                ExpressionView::NumberLiteral(old(self).tokens()[old(self).off as int].literal)
            } else {
                ExpressionView::Nil
            },
    {
        match self.current_token() {
            Some(token) => Expression::NumberLiteral(
                NumberLiteral { literal: token.literal.clone() },
            ),
            None => Expression::Nil(Nil {  }),
        }
    }

    fn parse_string_expression(&mut self) -> (expression: Expression)
        ensures
            *final(self) == *old(self),
            expression@ == if old(self).off < old(self).tokens().len() {
                ExpressionView::StringLiteral(old(self).tokens()[old(self).off as int].literal)
            } else {
                ExpressionView::Nil
            },
    {
        match self.current_token() {
            Some(token) => Expression::StringLiteral(StringLiteral { value: token.literal.clone() }),
            None => Expression::Nil(Nil {  }),
        }
    }

    fn parse_nil_expression(&mut self) -> (expression: Expression)
        ensures
            *final(self) == *old(self),
            expression@ == ExpressionView::Nil,
    {
        Expression::Nil(Nil {  })
    }

    /// Parses the grouping whose `(` is under the cursor.
    fn parse_grouping_expression(&mut self) -> (expression: Expression)
        requires
            old(self).off < old(self).tokens().len(),
        ensures
            ({
                let tokens = old(self).tokens();
                let off = old(self).off as int;
                let parsed = grouping(tokens, off, parse_expression(tokens, off + 1, 0));
                &&& expression@ == parsed.expression
                &&& final(self).follows(old(self), parsed.moved, parsed.errors)
            }),
        decreases remaining(old(self).tokens(), old(self).off as int), 0int,
    {
        self.next_token();
        let exp = self.parse_expression(0);

        if !self.peek_token_type_is(TokenType::RightParen) {
            let ghost recorded = self.errors@;
            let mut message = "[line ".to_owned();
            push_decimal(&mut message, self.current_token_line_number());
            message.append("] Expect ')'");
            self.errors.push(message);
            proof {
                lemma_text_views_push(recorded, message);
                assert(text_views(self.errors@) =~= text_views(old(self).errors@) + parse_expression(
                    old(self).tokens(),
                    old(self).off + 1,
                    0,
                ).errors.push(message@));
            }
            return self.parse_nil_expression();
        }
        self.next_token();
        Expression::Grouping(Grouping { expression: Box::new(exp) })
    }

    /// Parses the prefix expression whose operator is under the cursor.
    fn parse_prefix_expression(&mut self) -> (expression: Expression)
        ensures
            ({
                let tokens = old(self).tokens();
                let off = old(self).off as int;
                let parsed = if off < tokens.len() {
                    prefixed(tokens, off, parse_expression(tokens, off + 1, prefix_power()))
                } else {
                    leaf(ExpressionView::Nil)
                };
                &&& expression@ == parsed.expression
                &&& final(self).follows(old(self), parsed.moved, parsed.errors)
            }),
        decreases remaining(old(self).tokens(), old(self).off as int), 0int,
    {
        let operator = match self.current_token() {
            Some(token) => token.clone(),
            None => {
                assert(text_views(self.errors@) + Seq::<Seq<char>>::empty() =~= text_views(
                    self.errors@,
                ));
                return self.parse_nil_expression();
            },
        };
        self.next_token();
        let right = self.parse_expression(6);
        Expression::PrefixExpression(PrefixExpression { operator, right: Box::new(right) })
    }

    /// Parses the binary expression whose operator is under the cursor and whose left
    /// operand is `left`.
    fn parse_infix_expression(&mut self, left: Expression) -> (expression: Expression)
        ensures
            ({
                let tokens = old(self).tokens();
                let off = old(self).off as int;
                if off < tokens.len() {
                    let right = parse_expression(
                        tokens,
                        off + 1,
                        tokens[off].token_type.binding_power(),
                    );
                    &&& expression@ == ExpressionView::InfixExpression(
                        tokens[off],
                        Box::new(left@),
                        Box::new(right.expression),
                    )
                    &&& final(self).follows(old(self), right.moved + 1, right.errors)
                } else {
                    &&& expression@ == ExpressionView::Nil
                    &&& *final(self) == *old(self)
                }
            }),
        decreases remaining(old(self).tokens(), old(self).off as int), 0int,
    {
        let token = match self.current_token() {
            Some(token) => token.clone(),
            None => {
                return self.parse_nil_expression();
            },
        };
        let precedence = token.token_type.precedence();
        self.next_token();
        let right = self.parse_expression(precedence);
        Expression::InfixExpression(
            InfixExpression { token, left: Box::new(left), right: Box::new(right) },
        )
    }
}

} // verus!
