use lox_syntax::lexer::{normalize_number_text, operator_tokens, punctuation_token, Lexer};
use lox_syntax::token::{Token, TokenType};

fn scan(source: &str) -> Lexer {
    let mut lexer = Lexer::new(source.to_string());
    lexer.tokenize();
    lexer
}

fn kinds(lexer: &Lexer) -> Vec<TokenType> {
    lexer.tokens.iter().map(|t| t.token_type).collect()
}

fn lexemes(lexer: &Lexer) -> Vec<String> {
    lexer.tokens.iter().map(|t| t.lexeme.clone()).collect()
}

fn literals(lexer: &Lexer) -> Vec<String> {
    lexer.tokens.iter().map(|t| t.literal.clone()).collect()
}

fn lines(lexer: &Lexer) -> Vec<usize> {
    lexer.tokens.iter().map(|t| t.line_number).collect()
}

fn debug_lines(lexer: &Lexer) -> Vec<String> {
    lexer.tokens.iter().map(|t| t.string()).collect()
}

#[test]
fn empty_source_yields_only_eof() {
    let lexer = scan("");
    assert_eq!(kinds(&lexer), vec![TokenType::EOF]);
    assert_eq!(lexer.tokens[0].lexeme, "");
    assert_eq!(lexer.tokens[0].literal, "null");
    assert_eq!(lexer.tokens[0].line_number, 1);
    assert!(lexer.errors.is_empty());
    assert_eq!(debug_lines(&lexer), vec!["EOF  null"]);
}

#[test]
fn single_character_punctuation_is_one_token_each() {
    let source = "(){},.-+;*/";
    let lexer = scan(source);
    assert_eq!(
        kinds(&lexer),
        vec![
            TokenType::LeftParen,
            TokenType::RightParen,
            TokenType::LeftBrace,
            TokenType::RightBrace,
            TokenType::Comma,
            TokenType::Dot,
            TokenType::Minus,
            TokenType::Plus,
            TokenType::Semicolon,
            TokenType::Star,
            TokenType::Slash,
            TokenType::EOF,
        ]
    );
    assert_eq!(lexer.tokens.len(), source.chars().count() + 1);
    for (i, c) in source.chars().enumerate() {
        assert_eq!(lexer.tokens[i].lexeme, c.to_string());
        assert_eq!(lexer.tokens[i].literal, "null");
        assert_eq!(lexer.tokens[i].line_number, 1);
    }
    assert!(lexer.errors.is_empty());
}

#[test]
fn repeated_punctuation_keeps_order() {
    let lexer = scan("((*))/+/");
    assert_eq!(lexemes(&lexer), vec!["(", "(", "*", ")", ")", "/", "+", "/", ""]);
    assert!(lexer.errors.is_empty());
}

#[test]
fn punctuation_debug_lines() {
    let lexer = scan("(){},.-+;*/");
    assert_eq!(
        debug_lines(&lexer),
        vec![
            "LEFT_PAREN ( null",
            "RIGHT_PAREN ) null",
            "LEFT_BRACE { null",
            "RIGHT_BRACE } null",
            "COMMA , null",
            "DOT . null",
            "MINUS - null",
            "PLUS + null",
            "SEMICOLON ; null",
            "STAR * null",
            "SLASH / null",
            "EOF  null",
        ]
    );
}

#[test]
fn operators_use_one_character_of_lookahead() {
    let lexer = scan("= == ! != < <= > >=");
    assert_eq!(
        kinds(&lexer),
        vec![
            TokenType::Equal,
            TokenType::EqualEqual,
            TokenType::Bang,
            TokenType::BangEqual,
            TokenType::Less,
            TokenType::LessEqual,
            TokenType::Greater,
            TokenType::GreaterEqual,
            TokenType::EOF,
        ]
    );
    assert_eq!(lexemes(&lexer), vec!["=", "==", "!", "!=", "<", "<=", ">", ">=", ""]);
    assert_eq!(
        debug_lines(&lexer),
        vec![
            "EQUAL = null",
            "EQUAL_EQUAL == null",
            "BANG ! null",
            "BANG_EQUAL != null",
            "LESS < null",
            "LESS_EQUAL <= null",
            "GREATER > null",
            "GREATER_EQUAL >= null",
            "EOF  null",
        ]
    );
    assert!(lexer.errors.is_empty());
}

#[test]
fn adjacent_operators_split_greedily() {
    let lexer = scan("===!=<==");
    assert_eq!(lexemes(&lexer), vec!["==", "=", "!=", "<=", "=", ""]);
    let lexer = scan("=");
    assert_eq!(kinds(&lexer), vec![TokenType::Equal, TokenType::EOF]);
}

#[test]
fn comment_runs_to_the_end_of_the_line() {
    let lexer = scan("/ // a comment @ \" here\n/");
    assert_eq!(kinds(&lexer), vec![TokenType::Slash, TokenType::Slash, TokenType::EOF]);
    assert_eq!(lines(&lexer), vec![1, 2, 2]);
    assert!(lexer.errors.is_empty());
}

#[test]
fn comment_at_the_end_of_input() {
    let lexer = scan("+ // nothing more");
    assert_eq!(kinds(&lexer), vec![TokenType::Plus, TokenType::EOF]);
    assert!(lexer.errors.is_empty());
    let lexer = scan("//");
    assert_eq!(kinds(&lexer), vec![TokenType::EOF]);
}

#[test]
fn newlines_and_carriage_returns_count_lines() {
    let lexer = scan("a\nb\r\nc");
    assert_eq!(lexemes(&lexer), vec!["a", "b", "c", ""]);
    assert_eq!(lines(&lexer), vec![1, 2, 4, 4]);
    let lexer = scan("\n\n");
    assert_eq!(lines(&lexer), vec![3]);
}

#[test]
fn other_whitespace_is_skipped() {
    let lexer = scan(" \t(\u{a0} )\t");
    assert_eq!(kinds(&lexer), vec![TokenType::LeftParen, TokenType::RightParen, TokenType::EOF]);
    assert_eq!(lines(&lexer), vec![1, 1, 1]);
    assert!(lexer.errors.is_empty());
}

#[test]
fn string_literal_keeps_quotes_in_lexeme_only() {
    let lexer = scan("\"hi\"");
    assert_eq!(kinds(&lexer), vec![TokenType::String, TokenType::EOF]);
    assert_eq!(lexer.tokens[0].lexeme, "\"hi\"");
    assert_eq!(lexer.tokens[0].literal, "hi");
    assert_eq!(lexer.tokens[0].string(), "STRING \"hi\" hi");
    assert!(lexer.errors.is_empty());
}

#[test]
fn empty_string_literal() {
    let lexer = scan("\"\"");
    assert_eq!(kinds(&lexer), vec![TokenType::String, TokenType::EOF]);
    assert_eq!(lexer.tokens[0].lexeme, "\"\"");
    assert_eq!(lexer.tokens[0].literal, "");
}

#[test]
fn string_literal_holds_any_character_verbatim() {
    let lexer = scan("\"a @ // \\n\t1.50\" +");
    assert_eq!(kinds(&lexer), vec![TokenType::String, TokenType::Plus, TokenType::EOF]);
    assert_eq!(lexer.tokens[0].literal, "a @ // \\n\t1.50");
    assert!(lexer.errors.is_empty());
}

#[test]
fn unterminated_string_yields_one_error_and_no_token() {
    let lexer = scan("\"abc");
    assert_eq!(kinds(&lexer), vec![TokenType::EOF]);
    assert_eq!(lexer.errors, vec!["[line 1] Error: Unterminated string."]);
}

#[test]
fn lone_quote_at_the_end_is_unterminated() {
    let lexer = scan("+\n\"");
    assert_eq!(kinds(&lexer), vec![TokenType::Plus, TokenType::EOF]);
    assert_eq!(lexer.errors, vec!["[line 2] Error: Unterminated string."]);
}

#[test]
fn newline_ends_an_unterminated_string() {
    let lexer = scan("\"abc\nfoo \"x\"");
    assert_eq!(kinds(&lexer), vec![TokenType::Identifier, TokenType::String, TokenType::EOF]);
    assert_eq!(lines(&lexer), vec![2, 2, 2]);
    assert_eq!(lexer.errors, vec!["[line 1] Error: Unterminated string."]);
    let lexer = scan("\"\n\"");
    assert_eq!(kinds(&lexer), vec![TokenType::EOF]);
    assert_eq!(
        lexer.errors,
        vec!["[line 1] Error: Unterminated string.", "[line 2] Error: Unterminated string."]
    );
}

#[test]
fn number_literals_are_normalized() {
    let lexer = scan("3 3.1400 3. 10.0 100 0.5 007 1.0203000");
    assert_eq!(lexemes(&lexer), vec!["3", "3.1400", "3.", "10.0", "100", "0.5", "007", "1.0203000", ""]);
    assert_eq!(
        literals(&lexer),
        vec!["3.0", "3.14", "3.0", "10.0", "100.0", "0.5", "007.0", "1.0203", "null"]
    );
    assert_eq!(lexer.tokens[1].string(), "NUMBER 3.1400 3.14");
    assert!(lexer.errors.is_empty());
}

#[test]
fn number_debug_line() {
    let lexer = scan("3.14");
    assert_eq!(debug_lines(&lexer), vec!["NUMBER 3.14 3.14", "EOF  null"]);
}

#[test]
fn number_takes_one_decimal_point() {
    let lexer = scan("1.2.3");
    assert_eq!(kinds(&lexer), vec![TokenType::Number, TokenType::Dot, TokenType::Number, TokenType::EOF]);
    assert_eq!(lexemes(&lexer), vec!["1.2", ".", "3", ""]);
    let lexer = scan(".5");
    assert_eq!(kinds(&lexer), vec![TokenType::Dot, TokenType::Number, TokenType::EOF]);
    let lexer = scan("12abc");
    assert_eq!(lexemes(&lexer), vec!["12", "abc", ""]);
}

#[test]
fn normalization_examples() {
    assert_eq!(normalize_number_text("3"), "3.0");
    assert_eq!(normalize_number_text("3.1400"), "3.14");
    assert_eq!(normalize_number_text("3."), "3.0");
    assert_eq!(normalize_number_text("100"), "100.0");
    assert_eq!(normalize_number_text("100.000"), "100.0");
    assert_eq!(normalize_number_text("0.0"), "0.0");
}

#[test]
fn normalization_is_idempotent() {
    for lexeme in ["3", "3.1400", "3.", "10", "10.0", "0", "0.000", "12.5", "120.0050"] {
        let once = normalize_number_text(lexeme);
        assert_eq!(normalize_number_text(&once), once);
    }
}

#[test]
fn identifiers_and_keywords() {
    let lexer = scan("and class else false for fun if nil or print return super this true var while");
    assert_eq!(
        kinds(&lexer),
        vec![
            TokenType::And,
            TokenType::Class,
            TokenType::Else,
            TokenType::False,
            TokenType::For,
            TokenType::Fun,
            TokenType::If,
            TokenType::Nil,
            TokenType::Or,
            TokenType::Print,
            TokenType::Return,
            TokenType::Super,
            TokenType::This,
            TokenType::True,
            TokenType::Var,
            TokenType::While,
            TokenType::EOF,
        ]
    );
    assert_eq!(lexer.tokens[0].string(), "AND and null");
    assert_eq!(lexer.tokens[15].string(), "WHILE while null");
    let lexer = scan("foo _bar baz_9 And classy iff");
    assert_eq!(kinds(&lexer)[..6], vec![TokenType::Identifier; 6][..]);
    assert_eq!(lexemes(&lexer), vec!["foo", "_bar", "baz_9", "And", "classy", "iff", ""]);
    assert_eq!(lexer.tokens[2].string(), "IDENTIFIER baz_9 null");
}

#[test]
fn unknown_character_is_one_error_each_and_scanning_goes_on() {
    let lexer = scan("@");
    assert_eq!(kinds(&lexer), vec![TokenType::EOF]);
    assert_eq!(lexer.errors, vec!["[line 1] Error: Unexpected character: @"]);
    let lexer = scan("a @ b\n# $c");
    assert_eq!(lexemes(&lexer), vec!["a", "b", "c", ""]);
    assert_eq!(
        lexer.errors,
        vec![
            "[line 1] Error: Unexpected character: @",
            "[line 2] Error: Unexpected character: #",
            "[line 2] Error: Unexpected character: $",
        ]
    );
}

#[test]
fn non_ascii_letter_is_not_an_identifier_character() {
    let lexer = scan("a\u{e9}b");
    assert_eq!(lexemes(&lexer), vec!["a", "b", ""]);
    assert_eq!(lexer.errors, vec!["[line 1] Error: Unexpected character: \u{e9}"]);
}

#[test]
fn line_numbers_are_written_in_decimal() {
    let mut source = "\n".repeat(11);
    source.push('@');
    source.push_str(&"\n".repeat(98));
    source.push('"');
    let lexer = scan(&source);
    assert_eq!(
        lexer.errors,
        vec!["[line 12] Error: Unexpected character: @", "[line 110] Error: Unterminated string."]
    );
    assert_eq!(lines(&lexer), vec![110]);
}

#[test]
fn errors_and_tokens_keep_source_order() {
    let lexer = scan("(\"open\n@ 1.50) \"done\" ?");
    assert_eq!(
        debug_lines(&lexer),
        vec!["LEFT_PAREN ( null", "NUMBER 1.50 1.5", "RIGHT_PAREN ) null", "STRING \"done\" done", "EOF  null"]
    );
    assert_eq!(
        lexer.errors,
        vec![
            "[line 1] Error: Unterminated string.",
            "[line 2] Error: Unexpected character: @",
            "[line 2] Error: Unexpected character: ?",
        ]
    );
}

#[test]
fn read_char_walks_the_source() {
    let mut lexer = Lexer::new("ab".to_string());
    assert_eq!(lexer.read_char(), Some('a'));
    assert_eq!(lexer.read_char(), Some('b'));
    assert_eq!(lexer.read_char(), None);
    assert_eq!(lexer.read_char(), None);
    assert!(lexer.tokens.is_empty());
}

#[test]
fn tokenize_starts_at_the_cursor_and_appends() {
    let mut lexer = Lexer::new("@+".to_string());
    assert_eq!(lexer.read_char(), Some('@'));
    lexer.tokenize();
    assert_eq!(kinds(&lexer), vec![TokenType::Plus, TokenType::EOF]);
    assert!(lexer.errors.is_empty());
    lexer.tokenize();
    assert_eq!(kinds(&lexer), vec![TokenType::Plus, TokenType::EOF, TokenType::EOF]);
}

#[test]
fn punctuation_and_operator_tables() {
    assert_eq!(punctuation_token('('), Some((TokenType::LeftParen, "(")));
    assert_eq!(punctuation_token('*'), Some((TokenType::Star, "*")));
    assert_eq!(punctuation_token('/'), None);
    assert_eq!(punctuation_token('='), None);
    assert_eq!(
        operator_tokens('!'),
        Some(((TokenType::Bang, "!"), (TokenType::BangEqual, "!=")))
    );
    assert_eq!(operator_tokens('+'), None);
}

#[test]
fn precedence_table() {
    assert_eq!(TokenType::LeftParen.precedence(), 0);
    assert_eq!(TokenType::EqualEqual.precedence(), 1);
    assert_eq!(TokenType::BangEqual.precedence(), 1);
    assert_eq!(TokenType::Less.precedence(), 2);
    assert_eq!(TokenType::LessEqual.precedence(), 2);
    assert_eq!(TokenType::Greater.precedence(), 2);
    assert_eq!(TokenType::GreaterEqual.precedence(), 2);
    assert_eq!(TokenType::Plus.precedence(), 3);
    assert_eq!(TokenType::Minus.precedence(), 3);
    assert_eq!(TokenType::Star.precedence(), 4);
    assert_eq!(TokenType::Slash.precedence(), 4);
    assert_eq!(TokenType::Bang.precedence(), 0);
    assert_eq!(TokenType::Number.precedence(), 0);
    assert_eq!(TokenType::EOF.precedence(), 0);
}

#[test]
fn token_clone_keeps_every_field() {
    let token = Token {
        token_type: TokenType::Number,
        lexeme: "1.50".to_string(),
        literal: "1.5".to_string(),
        line_number: 7,
    };
    let copy = token.clone();
    assert_eq!(copy.token_type, TokenType::Number);
    assert_eq!(copy.lexeme, "1.50");
    assert_eq!(copy.literal, "1.5");
    assert_eq!(copy.line_number, 7);
    assert_eq!(copy.token_type_to_print(), "NUMBER");
}
