use crate::common::{is_ascii_digit, is_identifier_char, PrjChar};
use crate::scan::{
    char_at_is, digits_end, identifier_end, identifier_kind, items, keyword_table,
    lemma_digits_end, lemma_line_end, lemma_step_advances, lemma_string_end, line_end, lookup,
    normalize_number, null_text, operator, punctuation, scan, scan_step, string_end,
    strip_trailing_zeros, unexpected_character,
};
use crate::text::{is_whitespace, push_char, push_decimal, push_range, text_views};
use crate::token::{lemma_token_views_push, token_views, Token, TokenType, TokenView};
use vstd::prelude::*;

verus! {

/// The spellings and kinds of a keyword table, in order.
pub open spec fn keyword_views(table: Seq<(String, TokenType)>) -> Seq<(Seq<char>, TokenType)> {
    Seq::new(table.len(), |i: int| (table[i].0@, table[i].1))
}

/// The scanner: the source as characters, a cursor into it, and what has been
/// emitted so far.
pub struct Lexer {
    pub input: Vec<char>,
    pub position: usize,
    pub tokens: Vec<Token>,
    pub errors: Vec<String>,
    pub keywords: Vec<(String, TokenType)>,
}

impl Lexer {
    /// The source text.
    pub open spec fn source(&self) -> Seq<char> {
        self.input@
    }

    /// The cursor: the index of the next character to read.
    pub open spec fn position(&self) -> int {
        self.position as int
    }

    /// The cursor is within the source, and the keyword table is the fixed one.
    pub open spec fn wf(&self) -> bool {
        &&& self.position <= self.input.len()
        &&& keyword_views(self.keywords@) == keyword_table()
    }

    /// This scanner with its cursor at `p`.
    pub open spec fn moved_to(self, p: int) -> Lexer {
        Lexer { position: p as usize, ..self }
    }

    /// A scanner at the beginning of `input`, with nothing emitted yet.
    pub fn new(input: String) -> (lexer: Self)
        ensures
            lexer.wf(),
            lexer.source() == input@,
            lexer.position() == 0,
            lexer.tokens@.len() == 0,
            lexer.errors@.len() == 0,
    {
        let mut chars: Vec<char> = Vec::new();
        for c in it: input.as_str().chars()
            invariant
                chars@ == it.seq().take(it.index()),
        {
            chars.push(c);
        }
        let mut lexer = Self {
            input: chars,
            position: 0,
            tokens: Vec::new(),
            errors: Vec::new(),
            keywords: Vec::new(),
        };
        lexer.init_keywords();
        lexer
    }

    /// Fills the keyword table.
    fn init_keywords(&mut self)
        requires
            old(self).keywords@.len() == 0,
        ensures
            keyword_views(final(self).keywords@) == keyword_table(),
            final(self).input == old(self).input,
            final(self).position == old(self).position,
            final(self).tokens == old(self).tokens,
            final(self).errors == old(self).errors,
    {
        self.keywords.push(("and".to_owned(), TokenType::And));
        self.keywords.push(("class".to_owned(), TokenType::Class));
        self.keywords.push(("else".to_owned(), TokenType::Else));
        self.keywords.push(("false".to_owned(), TokenType::False));
        self.keywords.push(("for".to_owned(), TokenType::For));
        self.keywords.push(("fun".to_owned(), TokenType::Fun));
        self.keywords.push(("if".to_owned(), TokenType::If));
        self.keywords.push(("nil".to_owned(), TokenType::Nil));
        self.keywords.push(("or".to_owned(), TokenType::Or));
        self.keywords.push(("print".to_owned(), TokenType::Print));
        self.keywords.push(("return".to_owned(), TokenType::Return));
        self.keywords.push(("super".to_owned(), TokenType::Super));
        self.keywords.push(("this".to_owned(), TokenType::This));
        self.keywords.push(("true".to_owned(), TokenType::True));
        self.keywords.push(("var".to_owned(), TokenType::Var));
        self.keywords.push(("while".to_owned(), TokenType::While));
        assert(keyword_views(self.keywords@) =~= keyword_table());
    }

    /// Reads the character under the cursor and moves past it; `None` at the end of
    /// the source.
    pub fn read_char(&mut self) -> (c: Option<char>)
        ensures
            old(self).wf() ==> final(self).wf(),
            final(self).source() == old(self).source(),
            final(self).tokens == old(self).tokens,
            final(self).errors == old(self).errors,
            old(self).position() < old(self).source().len() ==> c == Some(
                old(self).source()[old(self).position()],
            ) && final(self).position() == old(self).position() + 1,
            old(self).position() >= old(self).source().len() ==> c is None
                && final(self).position() == old(self).position(),
            *final(self) == old(self).moved_to(final(self).position()),
    {
        if self.position >= self.input.len() {
            return None;
        }
        let pos = self.position;
        self.position += 1;
        Some(self.input[pos])
    }

    /// Moves past the character under the cursor if it is `ch`, and says whether it did.
    fn expect_current_token(&mut self, ch: char) -> (found: bool)
        requires
            old(self).wf(),
        ensures
            found == char_at_is(old(self).source(), old(self).position(), ch),
            *final(self) == old(self).moved_to(
                if found {
                    old(self).position() + 1
                } else {
                    old(self).position()
                },
            ),
            final(self).wf(),
    {
        if self.position >= self.input.len() {
            return false;
        }
        if self.input[self.position] == ch {
            self.position += 1;
            return true;
        }
        false
    }

    /// Whether the character under the cursor is `ch`.
    fn current_token_is(&self, ch: char) -> (found: bool)
        requires
            self.wf(),
        ensures
            found == char_at_is(self.source(), self.position(), ch),
    {
        if self.position >= self.input.len() {
            return false;
        }
        self.input[self.position] == ch
    }

    /// Emits a token whose lexeme and literal are fixed spellings.
    fn add_token(
        &mut self,
        token_type: TokenType,
        lexeme: &'static str,
        literal: &'static str,
        line_number: usize,
    )
        ensures
            final(self).tokens@.len() == old(self).tokens@.len() + 1,
            final(self).tokens@.drop_last() == old(self).tokens@,
            final(self).tokens@.last()@ == (TokenView {
                token_type,
                lexeme: lexeme@,
                literal: literal@,
                line_number: line_number as nat,
            }),
            final(self).input == old(self).input,
            final(self).position == old(self).position,
            final(self).errors == old(self).errors,
            final(self).keywords == old(self).keywords,
    {
        self.tokens.push(
            Token { token_type, lexeme: lexeme.to_owned(), literal: literal.to_owned(), line_number },
        );
    }

    /// Emits a token whose lexeme and literal were read from the source.
    fn add_token_string(
        &mut self,
        token_type: TokenType,
        lexeme: String,
        literal: String,
        line_number: usize,
    )
        ensures
            final(self).tokens@ == old(self).tokens@.push(
                Token { token_type, lexeme, literal, line_number },
            ),
            final(self).input == old(self).input,
            final(self).position == old(self).position,
            final(self).errors == old(self).errors,
            final(self).keywords == old(self).keywords,
    {
        self.tokens.push(Token { token_type, lexeme, literal, line_number });
    }

    /// Moves the cursor to the end of the line.
    fn skip_line(&mut self)
        requires
            old(self).wf(),
        ensures
            *final(self) == old(self).moved_to(line_end(old(self).source(), old(self).position())),
            final(self).wf(),
            old(self).position() <= final(self).position() <= old(self).source().len(),
    {
        while self.position < self.input.len() && !self.current_token_is('\n')
            invariant
                self.wf(),
                *self == old(self).moved_to(self.position()),
                old(self).position() <= self.position(),
                line_end(self.source(), self.position()) == line_end(
                    old(self).source(),
                    old(self).position(),
                ),
            decreases self.input.len() - self.position,
        {
            self.position += 1;
        }
    }

    /// Whether a digit is under the cursor.
    fn is_char_ascii_digit(&self) -> (found: bool)
        requires
            self.wf(),
        ensures
            found == (self.position() < self.source().len() && is_ascii_digit(
                self.source()[self.position()],
            )),
    {
        self.position < self.input.len() && self.input[self.position] >= '0'
            && self.input[self.position] <= '9'
    }

    /// Whether an identifier character is under the cursor.
    fn is_char_identifier_one(&self) -> (found: bool)
        requires
            self.wf(),
        ensures
            found == (self.position() < self.source().len() && is_identifier_char(
                self.source()[self.position()],
            )),
    {
        self.position < self.input.len() && self.input[self.position].is_identifier_char()
    }

    /// Reads the contents of a string literal, the cursor standing behind its opening
    /// quote. With a closing quote on the same line the contents come back and the
    /// cursor stands behind that quote; without one nothing comes back and the cursor
    /// stands on the newline, or at the end of the source.
    fn read_string(&mut self) -> (contents: Option<String>)
        requires
            old(self).wf(),
        ensures
            final(self).wf(),
            ({
                let close = string_end(old(self).source(), old(self).position());
                if char_at_is(old(self).source(), close, '"') {
                    &&& contents is Some
                    &&& contents->0@ == old(self).source().subrange(old(self).position(), close)
                    &&& *final(self) == old(self).moved_to(close + 1)
                } else {
                    &&& contents is None
                    &&& *final(self) == old(self).moved_to(close)
                }
            }),
    {
        let start = self.position;
        proof {
            lemma_string_end(self.source(), start as int);
        }
        while self.position < self.input.len() && !self.current_token_is('"')
            && !self.current_token_is('\n')
            invariant
                self.wf(),
                *self == old(self).moved_to(self.position()),
                start == old(self).position,
                start <= self.position,
                string_end(self.source(), self.position()) == string_end(
                    old(self).source(),
                    start as int,
                ),
            decreases self.input.len() - self.position,
        {
            self.position += 1;
        }
        let close = self.position;
        if self.current_token_is('"') {
            let mut contents = String::new();
            push_range(&mut contents, &self.input, start, close);
            self.position += 1;
            Some(contents)
        } else {
            None
        }
    }

    /// Reads the rest of a number whose first digit has just been read, and returns its
    /// lexeme and its literal.
    fn read_number_str(&mut self, first: char) -> (number: (String, String))
        requires
            old(self).wf(),
            old(self).position() >= 1,
            old(self).source()[old(self).position() - 1] == first,
        ensures
            final(self).wf(),
            ({
                let src = old(self).source();
                let whole = digits_end(src, old(self).position());
                let end = if char_at_is(src, whole, '.') {
                    digits_end(src, whole + 1)
                } else {
                    whole
                };
                &&& *final(self) == old(self).moved_to(end)
                &&& old(self).position() <= end <= src.len()
                &&& number.0@ == src.subrange(old(self).position() - 1, end)
                &&& number.1@ == normalize_number(number.0@)
            }),
    {
        let start = self.position - 1;
        proof {
            let whole = digits_end(self.source(), self.position());
            lemma_digits_end(self.source(), self.position());
            lemma_digits_end(self.source(), whole + 1);
        }
        self.skip_digits();
        if self.position < self.input.len() && self.input[self.position] == '.' {
            self.position += 1;
            self.skip_digits();
        }
        let mut lexeme = String::new();
        push_char(&mut lexeme, first);
        push_range(&mut lexeme, &self.input, start + 1, self.position);
        assert(lexeme@ =~= self.source().subrange(start as int, self.position()));
        let literal = normalize_range(&self.input, start, self.position);
        (lexeme, literal)
    }

    /// Moves the cursor past the digits under it.
    fn skip_digits(&mut self)
        requires
            old(self).wf(),
        ensures
            final(self).wf(),
            *final(self) == old(self).moved_to(digits_end(old(self).source(), old(self).position())),
            old(self).position() <= final(self).position() <= old(self).source().len(),
    {
        while self.is_char_ascii_digit()
            invariant
                self.wf(),
                *self == old(self).moved_to(self.position()),
                old(self).position() <= self.position(),
                digits_end(self.source(), self.position()) == digits_end(
                    old(self).source(),
                    old(self).position(),
                ),
            decreases self.input.len() - self.position,
        {
            self.position += 1;
        }
    }

    /// Emits an identifier, or the keyword that it spells.
    fn add_token_identifier(&mut self, ident: String, line_number: usize)
        requires
            old(self).wf(),
        ensures
            final(self).wf(),
            final(self).tokens@.len() == old(self).tokens@.len() + 1,
            final(self).tokens@.drop_last() == old(self).tokens@,
            final(self).tokens@.last()@ == (TokenView {
                token_type: identifier_kind(ident@),
                lexeme: ident@,
                literal: null_text(),
                line_number: line_number as nat,
            }),
            final(self).input == old(self).input,
            final(self).position == old(self).position,
            final(self).errors == old(self).errors,
            final(self).keywords == old(self).keywords,
    {
        let mut kind = TokenType::Identifier;
        let mut i: usize = 0;
        while i < self.keywords.len()
            invariant_except_break
                kind == TokenType::Identifier,
                lookup(keyword_table(), ident@, 0) == lookup(keyword_table(), ident@, i as int),
            invariant
                i <= self.keywords.len(),
                *self == *old(self),
                self.wf(),
            ensures
                kind == identifier_kind(ident@),
            decreases self.keywords.len() - i,
        {
            assert(keyword_views(self.keywords@)[i as int] == (
                self.keywords@[i as int].0@,
                self.keywords@[i as int].1,
            ));
            if self.keywords[i].0 == ident {
                kind = self.keywords[i].1;
                break ;
            }
            i += 1;
        }
        self.add_token_string(kind, ident, "null".to_owned(), line_number);
    }

    /// Reads the rest of an identifier whose first character has just been read.
    fn read_identifier(&mut self, first: char) -> (ident: String)
        requires
            old(self).wf(),
            old(self).position() >= 1,
            old(self).source()[old(self).position() - 1] == first,
        ensures
            final(self).wf(),
            ({
                let end = identifier_end(old(self).source(), old(self).position());
                &&& *final(self) == old(self).moved_to(end)
                &&& old(self).position() <= end <= old(self).source().len()
                &&& ident@ == old(self).source().subrange(old(self).position() - 1, end)
            }),
    {
        let start = self.position - 1;
        while self.is_char_identifier_one()
            invariant
                self.wf(),
                *self == old(self).moved_to(self.position()),
                old(self).position() <= self.position(),
                identifier_end(self.source(), self.position()) == identifier_end(
                    old(self).source(),
                    old(self).position(),
                ),
            decreases self.input.len() - self.position,
        {
            self.position += 1;
        }
        let mut ident = String::new();
        push_char(&mut ident, first);
        push_range(&mut ident, &self.input, start + 1, self.position);
        assert(ident@ =~= self.source().subrange(start as int, self.position()));
        ident
    }

    /// Scans the source from the cursor to its end, the line counter starting at 1:
    /// appends the tokens, the last of them the end-of-input token, and the
    /// diagnostics, both in source order. The line counter is a `usize`: the source
    /// must be short enough for the line behind its last character to be counted.
    pub fn tokenize(&mut self)
        requires
            old(self).wf(),
            old(self).source().len() < usize::MAX,
        ensures
            final(self).wf(),
            final(self).source() == old(self).source(),
            final(self).position() == old(self).source().len(),
            token_views(final(self).tokens@) == token_views(old(self).tokens@) + scan(
                old(self).source(),
                old(self).position(),
                1,
            ).tokens,
            text_views(final(self).errors@) == text_views(old(self).errors@) + scan(
                old(self).source(),
                old(self).position(),
                1,
            ).errors,
    {
        let mut line_number: usize = 1;
        let ghost src = self.source();
        let ghost all = scan(src, self.position(), 1);
        let ghost tokens0 = token_views(self.tokens@);
        let ghost errors0 = text_views(self.errors@);
        loop
            invariant
                self.wf(),
                self.input@ == src,
                src.len() < usize::MAX,
                self.keywords == old(self).keywords,
                1 <= line_number <= self.position + 1,
                token_views(self.tokens@) + scan(src, self.position(), line_number as nat).tokens
                    == tokens0 + all.tokens,
                text_views(self.errors@) + scan(src, self.position(), line_number as nat).errors
                    == errors0 + all.errors,
            ensures
                self.wf(),
                self.input@ == src,
                self.position == src.len(),
                line_number >= 1,
                token_views(self.tokens@) + scan(src, self.position(), line_number as nat).tokens
                    == tokens0 + all.tokens,
                text_views(self.errors@) + scan(src, self.position(), line_number as nat).errors
                    == errors0 + all.errors,
            decreases src.len() - self.position,
        {
            let ghost before = *self;
            let ghost line = line_number as nat;
            let ghost pos = self.position();
            let start = self.position;
            let ch = match self.read_char() {
                Some(c) => c,
                None => {
                    break ;
                },
            };
            let ghost step = scan_step(src, pos, line);
            proof {
                lemma_scan_unfold(src, pos, line);
                lemma_line_end(src, pos + 2);
            }
            let punctuation = punctuation_token(ch);
            let operator = operator_tokens(ch);
            if let Some((kind, lexeme)) = punctuation {
                self.add_token(kind, lexeme, "null", line_number);
                assert(lexeme@ =~= src.subrange(pos, pos + 1));
            } else if ch == '/' {
                if self.expect_current_token('/') {
                    self.skip_line();
                } else {
                    proof {
                        reveal_strlit("/");
                    }
                    self.add_token(TokenType::Slash, "/", "null", line_number);
                    assert("/"@ =~= src.subrange(pos, pos + 1));
                }
            } else if let Some(((kind, lexeme), (kind_equal, lexeme_equal))) = operator {
                if self.expect_current_token('=') {
                    self.add_token(kind_equal, lexeme_equal, "null", line_number);
                    assert(lexeme_equal@ =~= src.subrange(pos, pos + 2));
                } else {
                    self.add_token(kind, lexeme, "null", line_number);
                    assert(lexeme@ =~= src.subrange(pos, pos + 1));
                }
            } else if ch == '\n' || ch == '\r' {
                line_number += 1;
            } else if ch == '"' {
                match self.read_string() {
                    Some(contents) => {
                        let mut lexeme = String::new();
                        push_range(&mut lexeme, &self.input, start, self.position);
                        self.add_token_string(TokenType::String, lexeme, contents, line_number);
                    },
                    None => {
                        let mut message = "[line ".to_owned();
                        push_decimal(&mut message, line_number);
                        message.append("] Error: Unterminated string.");
                        self.errors.push(message);
                    },
                }
            } else if ch >= '0' && ch <= '9' {
                let (lexeme, literal) = self.read_number_str(ch);
                self.add_token_string(TokenType::Number, lexeme, literal, line_number);
            } else if ch.is_alphabet_or_underscore() {
                let ident = self.read_identifier(ch);
                self.add_token_identifier(ident, line_number);
            } else if is_whitespace(ch) {
            } else {
                let mut message = "[line ".to_owned();
                push_decimal(&mut message, line_number);
                message.append("] Error: Unexpected character: ");
                push_char(&mut message, ch);
                self.errors.push(message);
                assert(message@ =~= unexpected_character(line, ch));
            }
            proof {
                assert(self.position() == step.next);
                assert(line_number == step.line);
                assert(token_views(self.tokens@) =~= token_views(before.tokens@) + items(
                    step.token,
                ));
                assert(text_views(self.errors@) =~= text_views(before.errors@) + items(step.error));
                lemma_step_append(
                    token_views(before.tokens@),
                    step.token,
                    scan(src, step.next, step.line).tokens,
                );
                lemma_step_append(
                    text_views(before.errors@),
                    step.error,
                    scan(src, step.next, step.line).errors,
                );
            }
        }
        let ghost scanned = self.tokens@;
        self.add_token(TokenType::EOF, "", "null", line_number);
        proof {
            reveal_strlit("");
            lemma_token_views_push(scanned, self.tokens@.last());
            assert(""@ =~= Seq::<char>::empty());
            assert(token_views(scanned).push(self.tokens@.last()@) =~= token_views(scanned) + scan(
                src,
                self.position(),
                line_number as nat,
            ).tokens);
        }
    }
}

/// The literal text of the number whose lexeme is `v[from..to]`.
pub fn normalize_range(v: &Vec<char>, from: usize, to: usize) -> (literal: String)
    requires
        from <= to <= v.len(),
    ensures
        literal@ == normalize_number(v@.subrange(from as int, to as int)),
{
    let ghost s = v@.subrange(from as int, to as int);
    let mut has_point = false;
    let mut i: usize = from;
    while i < to
        invariant
            from <= i <= to <= v.len(),
            has_point == exists|j: int| from <= j < i && v@[j] == '.',
        decreases to - i,
    {
        if v[i] == '.' {
            has_point = true;
        }
        i += 1;
    }
    proof {
        if has_point {
            let j = choose|j: int| from <= j < to && v@[j] == '.';
            assert(s[j - from] == '.');
        } else {
            assert forall|k: int| 0 <= k < s.len() implies s[k] != '.' by {
                assert(s[k] == v@[from + k]);
            }
        }
        assert(has_point == s.contains('.'));
    }
    let mut literal = String::new();
    if has_point {
        let mut end: usize = to;
        while end > from && v[end - 1] == '0'
            invariant
                from <= end <= to <= v.len(),
                strip_trailing_zeros(v@.subrange(from as int, end as int)) == strip_trailing_zeros(
                    s,
                ),
            decreases end,
        {
            assert(v@.subrange(from as int, end as int).drop_last() =~= v@.subrange(
                from as int,
                end - 1,
            ));
            end -= 1;
        }
        push_range(&mut literal, v, from, end);
        if end > from && v[end - 1] == '.' {
            push_char(&mut literal, '0');
        }
    } else {
        push_range(&mut literal, v, from, to);
        push_char(&mut literal, '.');
        push_char(&mut literal, '0');
        assert(literal@ =~= s + seq!['.', '0']);
    }
    literal
}

/// The literal text of the number whose lexeme is `lexeme`: `"3"` gives `"3.0"`,
/// `"3.1400"` gives `"3.14"`, `"3."` gives `"3.0"`.
pub fn normalize_number_text(lexeme: &str) -> (literal: String)
    ensures
        literal@ == normalize_number(lexeme@),
{
    let mut chars: Vec<char> = Vec::new();
    for c in it: lexeme.chars()
        invariant
            chars@ == it.seq().take(it.index()),
    {
        chars.push(c);
    }
    assert(chars@ == lexeme@);
    assert(chars@.subrange(0, chars@.len() as int) =~= chars@);
    normalize_range(&chars, 0, chars.len())
}

/// The kind and the spelling of the one-character token that `c` stands for.
pub fn punctuation_token(c: char) -> (token: Option<(TokenType, &'static str)>)
    ensures
        match punctuation(c) {
            Some(kind) => token matches Some((k, spelling)) && k == kind && spelling@ == seq![c],
            None => token is None,
        },
{
    proof {
        reveal_strlit("(");
        reveal_strlit(")");
        reveal_strlit("{");
        reveal_strlit("}");
        reveal_strlit(",");
        reveal_strlit(".");
        reveal_strlit("-");
        reveal_strlit("+");
        reveal_strlit(";");
        reveal_strlit("*");
    }
    if c == '(' {
        Some((TokenType::LeftParen, "("))
    } else if c == ')' {
        Some((TokenType::RightParen, ")"))
    } else if c == '{' {
        Some((TokenType::LeftBrace, "{"))
    } else if c == '}' {
        Some((TokenType::RightBrace, "}"))
    } else if c == ',' {
        Some((TokenType::Comma, ","))
    } else if c == '.' {
        Some((TokenType::Dot, "."))
    } else if c == '-' {
        Some((TokenType::Minus, "-"))
    } else if c == '+' {
        Some((TokenType::Plus, "+"))
    } else if c == ';' {
        Some((TokenType::Semicolon, ";"))
    } else if c == '*' {
        Some((TokenType::Star, "*"))
    } else {
        None
    }
}

/// For an operator that `=` may follow: its kind and spelling alone, and with the `=`.
pub fn operator_tokens(c: char) -> (tokens: Option<
    ((TokenType, &'static str), (TokenType, &'static str)),
>)
    ensures
        match operator(c) {
            Some((alone, followed)) => {
                &&& tokens matches Some(((k1, s1), (k2, s2)))
                &&& k1 == alone
                &&& s1@ == seq![c]
                &&& k2 == followed
                &&& s2@ == seq![c, '=']
            },
            None => tokens is None,
        },
{
    proof {
        reveal_strlit("=");
        reveal_strlit("==");
        reveal_strlit("!");
        reveal_strlit("!=");
        reveal_strlit("<");
        reveal_strlit("<=");
        reveal_strlit(">");
        reveal_strlit(">=");
    }
    if c == '=' {
        Some(((TokenType::Equal, "="), (TokenType::EqualEqual, "==")))
    } else if c == '!' {
        Some(((TokenType::Bang, "!"), (TokenType::BangEqual, "!=")))
    } else if c == '<' {
        Some(((TokenType::Less, "<"), (TokenType::LessEqual, "<=")))
    } else if c == '>' {
        Some(((TokenType::Greater, ">"), (TokenType::GreaterEqual, ">=")))
    } else {
        None
    }
}

/// What a step appends may as well be put before what follows it.
pub proof fn lemma_step_append<T>(done: Seq<T>, item: Option<T>, rest: Seq<T>)
    ensures
        (done + items(item)) + rest == done + (items(item) + rest),
{
    assert((done + items(item)) + rest =~= done + (items(item) + rest));
}

/// Unfolds one step of a scan.
pub proof fn lemma_scan_unfold(src: Seq<char>, pos: int, line: nat)
    requires
        0 <= pos < src.len(),
    ensures
        ({
            let step = scan_step(src, pos, line);
            let rest = scan(src, step.next, step.line);
            &&& pos < step.next <= src.len()
            &&& line <= step.line <= line + 1
            &&& scan(src, pos, line).tokens == items(step.token) + rest.tokens
            &&& scan(src, pos, line).errors == items(step.error) + rest.errors
        }),
{
    lemma_step_advances(src, pos, line);
}

} // verus!
