use crate::common::{is_alphabet_or_underscore, is_ascii_digit, is_identifier_char};
use crate::text::{decimal, white_space};
use crate::token::{TokenType, TokenView};
use vstd::prelude::*;

verus! {

/// The literal text of every token that carries no value.
pub open spec fn null_text() -> Seq<char> {
    "null"@
}

/// A token that is one character long: the kind that the character stands for.
pub open spec fn punctuation(c: char) -> Option<TokenType> {
    if c == '(' {
        Some(TokenType::LeftParen)
    } else if c == ')' {
        Some(TokenType::RightParen)
    } else if c == '{' {
        Some(TokenType::LeftBrace)
    } else if c == '}' {
        Some(TokenType::RightBrace)
    } else if c == ',' {
        Some(TokenType::Comma)
    } else if c == '.' {
        Some(TokenType::Dot)
    } else if c == '-' {
        Some(TokenType::Minus)
    } else if c == '+' {
        Some(TokenType::Plus)
    } else if c == ';' {
        Some(TokenType::Semicolon)
    } else if c == '*' {
        Some(TokenType::Star)
    } else {
        None
    }
}

/// An operator that `=` may follow: its kind alone, and its kind with the `=`.
pub open spec fn operator(c: char) -> Option<(TokenType, TokenType)> {
    if c == '=' {
        Some((TokenType::Equal, TokenType::EqualEqual))
    } else if c == '!' {
        Some((TokenType::Bang, TokenType::BangEqual))
    } else if c == '<' {
        Some((TokenType::Less, TokenType::LessEqual))
    } else if c == '>' {
        Some((TokenType::Greater, TokenType::GreaterEqual))
    } else {
        None
    }
}

/// The reserved words, each with its kind.
pub open spec fn keyword_table() -> Seq<(Seq<char>, TokenType)> {
    seq![
        ("and"@, TokenType::And),
        ("class"@, TokenType::Class),
        ("else"@, TokenType::Else),
        ("false"@, TokenType::False),
        ("for"@, TokenType::For),
        ("fun"@, TokenType::Fun),
        ("if"@, TokenType::If),
        ("nil"@, TokenType::Nil),
        ("or"@, TokenType::Or),
        ("print"@, TokenType::Print),
        ("return"@, TokenType::Return),
        ("super"@, TokenType::Super),
        ("this"@, TokenType::This),
        ("true"@, TokenType::True),
        ("var"@, TokenType::Var),
        ("while"@, TokenType::While),
    ]
}

/// The kind of the first entry among `table[from..]` that is spelled `word`.
pub open spec fn lookup(table: Seq<(Seq<char>, TokenType)>, word: Seq<char>, from: int) -> Option<
    TokenType,
>
    decreases table.len() - from,
{
    if from < 0 || from >= table.len() {
        None
    } else if table[from].0 == word {
        Some(table[from].1)
    } else {
        lookup(table, word, from + 1)
    }
}

/// The kind of an identifier: that of the reserved word it spells, else `Identifier`.
pub open spec fn identifier_kind(word: Seq<char>) -> TokenType {
    match lookup(keyword_table(), word, 0) {
        Some(kind) => kind,
        None => TokenType::Identifier,
    }
}

/// Where the run of digits that starts at `from` ends.
pub open spec fn digits_end(src: Seq<char>, from: int) -> int
    decreases src.len() - from,
{
    if 0 <= from < src.len() && is_ascii_digit(src[from]) {
        digits_end(src, from + 1)
    } else {
        from
    }
}

/// Where the run of identifier characters that starts at `from` ends.
pub open spec fn identifier_end(src: Seq<char>, from: int) -> int
    decreases src.len() - from,
{
    if 0 <= from < src.len() && is_identifier_char(src[from]) {
        identifier_end(src, from + 1)
    } else {
        from
    }
}

/// The first newline at or after `from`, or the end of the source: where a comment stops.
pub open spec fn line_end(src: Seq<char>, from: int) -> int
    decreases src.len() - from,
{
    if 0 <= from < src.len() && src[from] != '\n' {
        line_end(src, from + 1)
    } else {
        from
    }
}

/// The first `"` or newline at or after `from`, or the end of the source: where the
/// contents of a string literal stop.
pub open spec fn string_end(src: Seq<char>, from: int) -> int
    decreases src.len() - from,
{
    if 0 <= from < src.len() && src[from] != '"' && src[from] != '\n' {
        string_end(src, from + 1)
    } else {
        from
    }
}

/// `s` without the zeros at its end.
pub open spec fn strip_trailing_zeros(s: Seq<char>) -> Seq<char>
    decreases s.len(),
{
    if s.len() > 0 && s.last() == '0' {
        strip_trailing_zeros(s.drop_last())
    } else {
        s
    }
}

/// The literal text of a number whose lexeme is `s`: at least one digit follows the
/// decimal point, and no zero that could be left out.
pub open spec fn normalize_number(s: Seq<char>) -> Seq<char> {
    if s.contains('.') {
        let t = strip_trailing_zeros(s);
        if t.len() > 0 && t.last() == '.' {
            t.push('0')
        } else {
            t
        }
    } else {
        s + seq!['.', '0']
    }
}

/// The diagnostic for a character that begins no token.
pub open spec fn unexpected_character(line: nat, c: char) -> Seq<char> {
    "[line "@ + decimal(line) + "] Error: Unexpected character: "@ + seq![c]
}

/// The diagnostic for a string literal that no `"` closes on its line.
pub open spec fn unterminated_string(line: nat) -> Seq<char> {
    "[line "@ + decimal(line) + "] Error: Unterminated string."@
}

/// What one step of scanning yields: where the next step begins, the line there, and
/// the token or the diagnostic of this step, if it has one.
pub struct Step {
    pub next: int,
    pub line: nat,
    pub token: Option<TokenView>,
    pub error: Option<Seq<char>>,
}

/// A step that emits the token made of `src[pos..next]`.
pub open spec fn emit(
    src: Seq<char>,
    pos: int,
    next: int,
    line: nat,
    kind: TokenType,
    literal: Seq<char>,
) -> Step {
    Step {
        next,
        line,
        token: Some(
            TokenView { token_type: kind, lexeme: src.subrange(pos, next), literal, line_number: line },
        ),
        error: None,
    }
}

/// A step that emits nothing.
pub open spec fn skip(next: int, line: nat) -> Step {
    Step { next, line, token: None, error: None }
}

/// A step that records a diagnostic.
pub open spec fn fail(next: int, line: nat, message: Seq<char>) -> Step {
    Step { next, line, token: None, error: Some(message) }
}

/// Whether `src[pos]` is `c`.
pub open spec fn char_at_is(src: Seq<char>, pos: int, c: char) -> bool {
    0 <= pos < src.len() && src[pos] == c
}

/// One step of scanning, at `pos` on line `line`.
pub open spec fn scan_step(src: Seq<char>, pos: int, line: nat) -> Step
    recommends
        0 <= pos < src.len(),
{
    let c = src[pos];
    if punctuation(c) is Some {
        emit(src, pos, pos + 1, line, punctuation(c).unwrap(), null_text())
    } else if c == '/' {
        if char_at_is(src, pos + 1, '/') {
            skip(line_end(src, pos + 2), line)
        } else {
            emit(src, pos, pos + 1, line, TokenType::Slash, null_text())
        }
    } else if operator(c) is Some {
        if char_at_is(src, pos + 1, '=') {
            emit(src, pos, pos + 2, line, operator(c).unwrap().1, null_text())
        } else {
            emit(src, pos, pos + 1, line, operator(c).unwrap().0, null_text())
        }
    } else if c == '\n' || c == '\r' {
        skip(pos + 1, line + 1)
    } else if c == '"' {
        let close = string_end(src, pos + 1);
        if char_at_is(src, close, '"') {
            emit(src, pos, close + 1, line, TokenType::String, src.subrange(pos + 1, close))
        } else {
            fail(close, line, unterminated_string(line))
        }
    } else if is_ascii_digit(c) {
        let whole = digits_end(src, pos + 1);
        let end = if char_at_is(src, whole, '.') {
            digits_end(src, whole + 1)
        } else {
            whole
        };
        emit(src, pos, end, line, TokenType::Number, normalize_number(src.subrange(pos, end)))
    } else if is_alphabet_or_underscore(c) {
        let end = identifier_end(src, pos + 1);
        emit(src, pos, end, line, identifier_kind(src.subrange(pos, end)), null_text())
    } else if white_space(c) {
        skip(pos + 1, line)
    } else {
        fail(pos + 1, line, unexpected_character(line, c))
    }
}

/// The token that ends every scan.
pub open spec fn eof_token(line: nat) -> TokenView {
    TokenView {
        token_type: TokenType::EOF,
        lexeme: Seq::empty(),
        literal: null_text(),
        line_number: line,
    }
}

/// The tokens and the diagnostics of a scan, each in source order.
pub struct Scanned {
    pub tokens: Seq<TokenView>,
    pub errors: Seq<Seq<char>>,
}

/// The sequence of what an `Option` holds.
pub open spec fn items<T>(o: Option<T>) -> Seq<T> {
    match o {
        Some(t) => seq![t],
        None => Seq::empty(),
    }
}

/// Every step moves forward and stays within the source.
pub proof fn lemma_step_advances(src: Seq<char>, pos: int, line: nat)
    requires
        0 <= pos < src.len(),
    ensures
        pos < scan_step(src, pos, line).next <= src.len(),
        line <= scan_step(src, pos, line).line <= line + 1,
{
    lemma_digits_end(src, pos + 1);
    lemma_digits_end(src, digits_end(src, pos + 1) + 1);
    lemma_identifier_end(src, pos + 1);
    lemma_string_end(src, pos + 1);
    if pos + 2 <= src.len() {
        lemma_line_end(src, pos + 2);
    }
}

/// A run of digits is made of digits, and stops at the first character that is none.
pub proof fn lemma_digits_end(src: Seq<char>, from: int)
    requires
        0 <= from,
    ensures
        from <= digits_end(src, from),
        from <= src.len() ==> digits_end(src, from) <= src.len(),
        forall|i: int| from <= i < digits_end(src, from) ==> is_ascii_digit(#[trigger] src[i]),
        digits_end(src, from) < src.len() ==> !is_ascii_digit(src[digits_end(src, from)]),
    decreases src.len() - from,
{
    if from < src.len() && is_ascii_digit(src[from]) {
        lemma_digits_end(src, from + 1);
    }
}

/// A run of identifier characters is made of them, and stops at the first that is none.
pub proof fn lemma_identifier_end(src: Seq<char>, from: int)
    requires
        0 <= from,
    ensures
        from <= identifier_end(src, from),
        from <= src.len() ==> identifier_end(src, from) <= src.len(),
        forall|i: int|
            from <= i < identifier_end(src, from) ==> is_identifier_char(#[trigger] src[i]),
        identifier_end(src, from) < src.len() ==> !is_identifier_char(
            src[identifier_end(src, from)],
        ),
    decreases src.len() - from,
{
    if from < src.len() && is_identifier_char(src[from]) {
        lemma_identifier_end(src, from + 1);
    }
}

/// A comment holds no newline, and stops at the first newline or at the end.
pub proof fn lemma_line_end(src: Seq<char>, from: int)
    requires
        0 <= from,
    ensures
        from <= line_end(src, from),
        from <= src.len() ==> line_end(src, from) <= src.len(),
        forall|i: int| from <= i < line_end(src, from) ==> #[trigger] src[i] != '\n',
        line_end(src, from) < src.len() ==> src[line_end(src, from)] == '\n',
    decreases src.len() - from,
{
    if from < src.len() && src[from] != '\n' {
        lemma_line_end(src, from + 1);
    }
}

/// The contents of a string literal hold neither `"` nor a newline, and stop at the
/// first of either or at the end.
pub proof fn lemma_string_end(src: Seq<char>, from: int)
    requires
        0 <= from,
    ensures
        from <= string_end(src, from),
        from <= src.len() ==> string_end(src, from) <= src.len(),
        forall|i: int|
            from <= i < string_end(src, from) ==> #[trigger] src[i] != '"' && src[i] != '\n',
        string_end(src, from) < src.len() ==> src[string_end(src, from)] == '"' || src[string_end(
            src,
            from,
        )] == '\n',
    decreases src.len() - from,
{
    if from < src.len() && src[from] != '"' && src[from] != '\n' {
        lemma_string_end(src, from + 1);
    }
}

/// The scan of `src` from `pos`, where the line counter stands at `line`: the tokens and
/// diagnostics of each step in turn, and the end-of-input token at the end.
pub open spec fn scan(src: Seq<char>, pos: int, line: nat) -> Scanned
    decreases src.len() - pos,
{
    if 0 <= pos < src.len() {
        let step = scan_step(src, pos, line);
        proof {
            lemma_step_advances(src, pos, line);
        }
        let rest = scan(src, step.next, step.line);
        Scanned { tokens: items(step.token) + rest.tokens, errors: items(step.error) + rest.errors }
    } else {
        Scanned { tokens: seq![eof_token(line)], errors: Seq::empty() }
    }
}

} // verus!
