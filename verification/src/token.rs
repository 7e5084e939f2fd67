use crate::text::push_char;
use vstd::prelude::*;

verus! {

/// The kinds of token.
#[derive(Clone, Copy, Debug, PartialEq, Eq, Structural, Hash)]
pub enum TokenType {
    LeftParen,
    RightParen,
    LeftBrace,
    RightBrace,
    Comma,
    Dot,
    Minus,
    Plus,
    Semicolon,
    Star,
    Slash,
    Equal,
    EqualEqual,
    Bang,
    BangEqual,
    Less,
    LessEqual,
    Greater,
    GreaterEqual,
    String,
    Number,
    Identifier,
    And,
    Class,
    Else,
    False,
    For,
    Fun,
    If,
    Nil,
    Or,
    Print,
    Return,
    Super,
    This,
    True,
    Var,
    While,
    EOF,
}

impl TokenType {
    /// Binding power of a token as a binary operator; 0 for every token that is none.
    pub open spec fn binding_power(self) -> int {
        match self {
            TokenType::EqualEqual | TokenType::BangEqual => 1,
            TokenType::Less | TokenType::LessEqual | TokenType::Greater | TokenType::GreaterEqual => 2,
            TokenType::Plus | TokenType::Minus => 3,
            TokenType::Star | TokenType::Slash => 4,
            _ => 0,
        }
    }

    /// The binary operators of the grammar.
    pub open spec fn is_infix_operator(self) -> bool {
        self.binding_power() > 0
    }

    /// The binding power of the token as a binary operator.
    pub fn precedence(&self) -> (p: i32)
        ensures
            p == self.binding_power(),
    {
        match self {
            TokenType::LeftParen => 0,
            TokenType::EqualEqual | TokenType::BangEqual => 1,
            TokenType::Less | TokenType::LessEqual | TokenType::Greater | TokenType::GreaterEqual => 2,
            TokenType::Plus | TokenType::Minus => 3,
            TokenType::Star | TokenType::Slash => 4,
            _ => 0,
        }
    }

    /// The spelling of a kind in a token's debug line.
    pub open spec fn display_name(self) -> Seq<char> {
        match self {
            TokenType::LeftParen => "LEFT_PAREN"@,
            TokenType::RightParen => "RIGHT_PAREN"@,
            TokenType::LeftBrace => "LEFT_BRACE"@,
            TokenType::RightBrace => "RIGHT_BRACE"@,
            TokenType::Comma => "COMMA"@,
            TokenType::Dot => "DOT"@,
            TokenType::Minus => "MINUS"@,
            TokenType::Plus => "PLUS"@,
            TokenType::Semicolon => "SEMICOLON"@,
            TokenType::Star => "STAR"@,
            TokenType::Slash => "SLASH"@,
            TokenType::Equal => "EQUAL"@,
            TokenType::EqualEqual => "EQUAL_EQUAL"@,
            TokenType::Bang => "BANG"@,
            TokenType::BangEqual => "BANG_EQUAL"@,
            TokenType::Less => "LESS"@,
            TokenType::LessEqual => "LESS_EQUAL"@,
            TokenType::Greater => "GREATER"@,
            TokenType::GreaterEqual => "GREATER_EQUAL"@,
            TokenType::String => "STRING"@,
            TokenType::Number => "NUMBER"@,
            TokenType::Identifier => "IDENTIFIER"@,
            TokenType::And => "AND"@,
            TokenType::Class => "CLASS"@,
            TokenType::Else => "ELSE"@,
            TokenType::False => "FALSE"@,
            TokenType::For => "FOR"@,
            TokenType::Fun => "FUN"@,
            TokenType::If => "IF"@,
            TokenType::Nil => "NIL"@,
            TokenType::Or => "OR"@,
            TokenType::Print => "PRINT"@,
            TokenType::Return => "RETURN"@,
            TokenType::Super => "SUPER"@,
            TokenType::This => "THIS"@,
            TokenType::True => "TRUE"@,
            TokenType::Var => "VAR"@,
            TokenType::While => "WHILE"@,
            TokenType::EOF => "EOF"@,
        }
    }
}

/// A classified unit of source text, stamped with the line on which it began.
#[derive(Debug)]
pub struct Token {
    pub token_type: TokenType,
    pub lexeme: String,
    pub literal: String,
    pub line_number: usize,
}

/// What a token holds, as mathematical values.
pub struct TokenView {
    pub token_type: TokenType,
    pub lexeme: Seq<char>,
    pub literal: Seq<char>,
    pub line_number: nat,
}

impl View for Token {
    type V = TokenView;

    open spec fn view(&self) -> TokenView {
        TokenView {
            token_type: self.token_type,
            lexeme: self.lexeme@,
            literal: self.literal@,
            line_number: self.line_number as nat,
        }
    }
}

impl Clone for Token {
    fn clone(&self) -> (t: Token)
        ensures
            t == *self,
    {
        Token {
            token_type: self.token_type,
            lexeme: self.lexeme.clone(),
            literal: self.literal.clone(),
            line_number: self.line_number,
        }
    }
}

impl TokenView {
    /// The debug line of a token: kind, lexeme and literal, separated by single spaces.
    pub open spec fn debug_line(self) -> Seq<char> {
        self.token_type.display_name() + seq![' '] + self.lexeme + seq![' '] + self.literal
    }
}

/// The views of a sequence of tokens, in order.
pub open spec fn token_views(tokens: Seq<Token>) -> Seq<TokenView> {
    Seq::new(tokens.len(), |i: int| tokens[i]@)
}

impl Token {
    /// The spelling of the token's kind in its debug line.
    pub fn token_type_to_print(&self) -> (name: &'static str)
        ensures
            name@ == self.token_type.display_name(),
    {
        match self.token_type {
            TokenType::LeftParen => "LEFT_PAREN",
            TokenType::RightParen => "RIGHT_PAREN",
            TokenType::LeftBrace => "LEFT_BRACE",
            TokenType::RightBrace => "RIGHT_BRACE",
            TokenType::Comma => "COMMA",
            TokenType::Dot => "DOT",
            TokenType::Minus => "MINUS",
            TokenType::Plus => "PLUS",
            TokenType::Semicolon => "SEMICOLON",
            TokenType::Star => "STAR",
            TokenType::Slash => "SLASH",
            TokenType::Equal => "EQUAL",
            TokenType::EqualEqual => "EQUAL_EQUAL",
            TokenType::Bang => "BANG",
            TokenType::BangEqual => "BANG_EQUAL",
            TokenType::Less => "LESS",
            TokenType::LessEqual => "LESS_EQUAL",
            TokenType::Greater => "GREATER",
            TokenType::GreaterEqual => "GREATER_EQUAL",
            TokenType::String => "STRING",
            TokenType::Number => "NUMBER",
            TokenType::Identifier => "IDENTIFIER",
            TokenType::And => "AND",
            TokenType::Class => "CLASS",
            TokenType::Else => "ELSE",
            TokenType::False => "FALSE",
            TokenType::For => "FOR",
            TokenType::Fun => "FUN",
            TokenType::If => "IF",
            TokenType::Nil => "NIL",
            TokenType::Or => "OR",
            TokenType::Print => "PRINT",
            TokenType::Return => "RETURN",
            TokenType::Super => "SUPER",
            TokenType::This => "THIS",
            TokenType::True => "TRUE",
            TokenType::Var => "VAR",
            TokenType::While => "WHILE",
            TokenType::EOF => "EOF",
        }
    }

    /// The debug line of the token.
    pub fn string(&self) -> (line: String)
        ensures
            line@ == self@.debug_line(),
    {
        let mut line = self.token_type_to_print().to_owned();
        push_char(&mut line, ' ');
        line.append(self.lexeme.as_str());
        push_char(&mut line, ' ');
        line.append(self.literal.as_str());
        line
    }
}

/// The views of tokens with one more token are the views of the tokens with one
/// more view.
pub proof fn lemma_token_views_push(tokens: Seq<Token>, token: Token)
    ensures
        token_views(tokens.push(token)) == token_views(tokens).push(token@),
{
    assert(token_views(tokens.push(token)) =~= token_views(tokens).push(token@));
}

} // verus!
