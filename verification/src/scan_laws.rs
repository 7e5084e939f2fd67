use crate::common::{is_alphabet_or_underscore, is_ascii_digit, is_identifier_char};
use crate::scan::{
    char_at_is, digits_end, eof_token, identifier_kind, keyword_table, lemma_digits_end,
    lemma_identifier_end, lemma_step_advances, lemma_string_end, lookup, normalize_number,
    null_text, operator, punctuation, scan, scan_step, string_end, strip_trailing_zeros,
    unexpected_character, unterminated_string,
};
use crate::text::white_space;
use crate::token::{TokenType, TokenView};
use vstd::prelude::*;

verus! {

/// The kind of the token that a punctuation character makes on its own.
pub open spec fn single_character_kind(c: char) -> Option<TokenType> {
    if c == '/' {
        Some(TokenType::Slash)
    } else {
        punctuation(c)
    }
}

/// Every character of `src` is single-character punctuation.
pub open spec fn punctuation_only(src: Seq<char>) -> bool {
    forall|i: int| 0 <= i < src.len() ==> (#[trigger] single_character_kind(src[i])) is Some
}

/// No `/` of `src` is followed by another: `src` begins no comment.
pub open spec fn no_comment(src: Seq<char>) -> bool {
    forall|i: int| 0 <= i && i + 1 < src.len() && #[trigger] src[i] == '/' ==> src[i + 1] != '/'
}

/// The token that the punctuation character `c` makes on line `line`.
pub open spec fn single_character_token(c: char, line: nat) -> TokenView {
    TokenView {
        token_type: single_character_kind(c).unwrap(),
        lexeme: seq![c],
        literal: null_text(),
        line_number: line,
    }
}

/// A character that begins no token and is no whitespace.
pub open spec fn unrecognized(c: char) -> bool {
    &&& punctuation(c) is None
    &&& c != '/'
    &&& operator(c) is None
    &&& c != '\n'
    &&& c != '\r'
    &&& c != '"'
    &&& !is_ascii_digit(c)
    &&& !is_alphabet_or_underscore(c)
    &&& !white_space(c)
}

/// A source of single-character punctuation in which no comment begins scans, from
/// any place in it, to one token for each character, in order and on the same line,
/// then the end-of-input token, and to no diagnostic.
pub proof fn lemma_punctuation_from(src: Seq<char>, pos: int, line: nat)
    requires
        punctuation_only(src),
        no_comment(src),
        0 <= pos <= src.len(),
    ensures
        scan(src, pos, line).errors == Seq::<Seq<char>>::empty(),
        scan(src, pos, line).tokens.len() == src.len() - pos + 1,
        forall|k: int|
            0 <= k < src.len() - pos ==> #[trigger] scan(src, pos, line).tokens[k]
                == single_character_token(src[pos + k], line),
        scan(src, pos, line).tokens[src.len() - pos] == eof_token(line),
    decreases src.len() - pos,
{
    if pos < src.len() {
        let c = src[pos];
        assert(single_character_kind(c) is Some);
        let step = scan_step(src, pos, line);
        assert(src.subrange(pos, pos + 1) =~= seq![c]);
        assert(step.token == Some(single_character_token(c, line)));
        assert(step.next == pos + 1 && step.line == line && step.error is None);
        lemma_punctuation_from(src, pos + 1, line);
        let rest = scan(src, pos + 1, line);
        let all = scan(src, pos, line);
        assert(all.tokens =~= seq![single_character_token(c, line)] + rest.tokens);
        assert(all.errors =~= rest.errors);
        assert forall|k: int| 0 <= k < src.len() - pos implies #[trigger] all.tokens[k]
            == single_character_token(src[pos + k], line) by {
            if k > 0 {
                assert(all.tokens[k] == rest.tokens[k - 1]);
            }
        }
    }
}

/// A source that holds nothing but single-character punctuation, and in which no `/`
/// follows another, scans to exactly one token for each character, in order, then the
/// end-of-input token, and to no diagnostic.
pub proof fn lemma_punctuation_only(src: Seq<char>)
    requires
        punctuation_only(src),
        no_comment(src),
    ensures
        scan(src, 0, 1).errors.len() == 0,
        scan(src, 0, 1).tokens.len() == src.len() + 1,
        forall|i: int|
            0 <= i < src.len() ==> #[trigger] scan(src, 0, 1).tokens[i] == single_character_token(
                src[i],
                1,
            ),
        scan(src, 0, 1).tokens[src.len() as int] == eof_token(1),
{
    lemma_punctuation_from(src, 0, 1);
}

/// What is left when the zeros at the end of `s` are taken off is the beginning of
/// `s`, ends in no zero, and still holds a decimal point if `s` held one.
pub proof fn lemma_strip_trailing_zeros(s: Seq<char>)
    ensures
        strip_trailing_zeros(s).len() <= s.len(),
        strip_trailing_zeros(s) == s.subrange(0, strip_trailing_zeros(s).len() as int),
        strip_trailing_zeros(s).len() > 0 ==> strip_trailing_zeros(s).last() != '0',
        s.contains('.') ==> strip_trailing_zeros(s).contains('.'),
    decreases s.len(),
{
    if s.len() > 0 && s.last() == '0' {
        let shorter = s.drop_last();
        lemma_strip_trailing_zeros(shorter);
        let t = strip_trailing_zeros(shorter);
        assert(t =~= s.subrange(0, t.len() as int));
        if s.contains('.') {
            let j = choose|j: int| 0 <= j < s.len() && s[j] == '.';
            assert(shorter[j] == '.');
        }
    } else {
        assert(s =~= s.subrange(0, s.len() as int));
    }
}

/// Normalizing is defined on every text and changes no text that is normalized
/// already: to normalize twice is to normalize once.
pub proof fn lemma_normalize_idempotent(s: Seq<char>)
    ensures
        normalize_number(normalize_number(s)) == normalize_number(s),
{
    let n = normalize_number(s);
    if s.contains('.') {
        lemma_strip_trailing_zeros(s);
        let t = strip_trailing_zeros(s);
        let j = choose|j: int| 0 <= j < t.len() && t[j] == '.';
        if t.last() == '.' {
            assert(n[j] == '.');
            assert(n.drop_last() =~= t);
            assert(strip_trailing_zeros(t) == t);
            assert(strip_trailing_zeros(n) == t);
        } else {
            assert(strip_trailing_zeros(t) == t);
        }
    } else {
        let t = s.push('.');
        assert(n =~= t.push('0'));
        assert(n[s.len() as int] == '.');
        assert(n.drop_last() =~= t);
        assert(strip_trailing_zeros(t) == t);
        assert(strip_trailing_zeros(n) == t);
    }
}

/// A normalized text holds a decimal point and a character behind it, and ends in a
/// zero only where that zero is the one digit behind the point.
pub proof fn lemma_normalized_shape(s: Seq<char>)
    ensures
        normalize_number(s).contains('.'),
        normalize_number(s).len() >= 2,
        normalize_number(s).last() != '.',
        normalize_number(s).last() == '0' ==> normalize_number(s)[normalize_number(s).len() - 2]
            == '.',
{
    let n = normalize_number(s);
    if s.contains('.') {
        lemma_strip_trailing_zeros(s);
        let t = strip_trailing_zeros(s);
        let j = choose|j: int| 0 <= j < t.len() && t[j] == '.';
        if t.last() == '.' {
            assert(n[j] == '.');
        } else {
            assert(j < t.len() - 1);
        }
    } else {
        assert(n[s.len() as int] == '.');
    }
}

/// A string literal that neither a `"` nor a newline ends before the source does
/// yields no token of its own and exactly one diagnostic, on the line where it began.
pub proof fn lemma_unterminated_string(src: Seq<char>, pos: int, line: nat)
    requires
        0 <= pos < src.len(),
        src[pos] == '"',
        forall|i: int| pos < i < src.len() ==> src[i] != '"' && src[i] != '\n',
    ensures
        scan(src, pos, line).tokens == seq![eof_token(line)],
        scan(src, pos, line).errors == seq![unterminated_string(line)],
{
    lemma_string_end(src, pos + 1);
    lemma_step_advances(src, pos, line);
    let close = string_end(src, pos + 1);
    assert(close == src.len());
    let rest = scan(src, close, line);
    assert(scan(src, pos, line).tokens =~= rest.tokens);
    assert(scan(src, pos, line).errors =~= seq![unterminated_string(line)] + rest.errors);
}

/// A string literal that a newline ends yields no token of its own and exactly one
/// diagnostic, on the line where it began; the scan goes on at the newline.
pub proof fn lemma_string_cut_by_newline(src: Seq<char>, pos: int, line: nat)
    requires
        0 <= pos < src.len(),
        src[pos] == '"',
        char_at_is(src, string_end(src, pos + 1), '\n'),
    ensures
        scan(src, pos, line).tokens == scan(src, string_end(src, pos + 1), line).tokens,
        scan(src, pos, line).errors == seq![unterminated_string(line)] + scan(
            src,
            string_end(src, pos + 1),
            line,
        ).errors,
{
    lemma_string_end(src, pos + 1);
    lemma_step_advances(src, pos, line);
    let rest = scan(src, string_end(src, pos + 1), line);
    assert(scan(src, pos, line).tokens =~= rest.tokens);
}

/// Where the scanner meets a character that begins no token and is no whitespace, it
/// records exactly one diagnostic, on the current line, and goes on behind that
/// character as if it had begun there: no token is lost.
pub proof fn lemma_unexpected_character(src: Seq<char>, pos: int, line: nat)
    requires
        0 <= pos < src.len(),
        unrecognized(src[pos]),
    ensures
        scan(src, pos, line).tokens == scan(src, pos + 1, line).tokens,
        scan(src, pos, line).errors == seq![unexpected_character(line, src[pos])] + scan(
            src,
            pos + 1,
            line,
        ).errors,
{
    lemma_step_advances(src, pos, line);
    let rest = scan(src, pos + 1, line);
    assert(scan(src, pos, line).tokens =~= rest.tokens);
}

/// The number of characters at and after `from` that begin no token and are no
/// whitespace.
pub open spec fn count_unrecognized(src: Seq<char>, from: int) -> nat
    decreases src.len() - from,
{
    if 0 <= from < src.len() {
        if unrecognized(src[from]) {
            1 + count_unrecognized(src, from + 1)
        } else {
            count_unrecognized(src, from + 1)
        }
    } else {
        0
    }
}

/// `src` holds no `"`: no string literal begins in it.
pub open spec fn no_quote(src: Seq<char>) -> bool {
    forall|i: int| 0 <= i < src.len() ==> #[trigger] src[i] != '"'
}

proof fn lemma_count_skips_recognized(src: Seq<char>, from: int, to: int)
    requires
        0 <= from <= to <= src.len(),
        forall|i: int| from <= i < to ==> !unrecognized(#[trigger] src[i]),
    ensures
        count_unrecognized(src, from) == count_unrecognized(src, to),
    decreases to - from,
{
    if from < to {
        lemma_count_skips_recognized(src, from + 1, to);
    }
}

/// In a source in which neither a string literal nor a comment begins, every character
/// that begins no token and is no whitespace is reported, and nothing else is: there
/// are as many diagnostics as such characters.
pub proof fn lemma_one_error_per_unrecognized(src: Seq<char>, pos: int, line: nat)
    requires
        no_quote(src),
        no_comment(src),
        0 <= pos <= src.len(),
    ensures
        scan(src, pos, line).errors.len() == count_unrecognized(src, pos),
    decreases src.len() - pos,
{
    if pos < src.len() {
        let c = src[pos];
        let step = scan_step(src, pos, line);
        lemma_step_advances(src, pos, line);
        lemma_one_error_per_unrecognized(src, step.next, step.line);
        lemma_digits_end(src, pos + 1);
        lemma_digits_end(src, digits_end(src, pos + 1) + 1);
        lemma_identifier_end(src, pos + 1);
        assert(c != '"');
        if step.error is Some {
            assert(unrecognized(c));
        } else {
            assert forall|i: int| pos <= i < step.next implies !unrecognized(#[trigger] src[i]) by {
                if is_ascii_digit(c) {
                    let whole = digits_end(src, pos + 1);
                    if i == whole {
                        assert(punctuation(src[i]) is Some);
                    } else {
                        assert(is_ascii_digit(src[i]));
                    }
                } else if is_alphabet_or_underscore(c) {
                    assert(is_identifier_char(src[i]));
                }
            }
            lemma_count_skips_recognized(src, pos, step.next);
        }
    }
}

/// One of the sixteen kinds of reserved word.
pub open spec fn is_keyword(kind: TokenType) -> bool {
    exists|i: int| 0 <= i < keyword_table().len() && keyword_table()[i].1 == kind
}

/// What is looked up in a table is the kind of one of its entries.
pub proof fn lemma_lookup(table: Seq<(Seq<char>, TokenType)>, word: Seq<char>, from: int)
    requires
        0 <= from,
    ensures
        match lookup(table, word, from) {
            Some(kind) => exists|i: int|
                from <= i < table.len() && table[i].0 == word && table[i].1 == kind,
            None => forall|i: int| from <= i < table.len() ==> (#[trigger] table[i]).0 != word,
        },
    decreases table.len() - from,
{
    if from < table.len() && table[from].0 != word {
        lemma_lookup(table, word, from + 1);
    }
}

/// An identifier has the kind `Identifier` unless it spells a reserved word, whose
/// kind it then has.
pub proof fn lemma_identifier_kind(word: Seq<char>)
    ensures
        identifier_kind(word) == TokenType::Identifier || is_keyword(identifier_kind(word)),
        is_keyword(identifier_kind(word)) <==> exists|i: int|
            0 <= i < keyword_table().len() && (#[trigger] keyword_table()[i]).0 == word,
        identifier_kind(word) != TokenType::EOF,
        identifier_kind(word) != TokenType::Number,
        identifier_kind(word) != TokenType::String,
{
    lemma_lookup(keyword_table(), word, 0);
    let table = keyword_table();
    assert(table.len() == 16);
    assert forall|i: int| 0 <= i < table.len() implies {
        &&& (#[trigger] table[i]).1 != TokenType::Identifier
        &&& table[i].1 != TokenType::EOF
        &&& table[i].1 != TokenType::Number
        &&& table[i].1 != TokenType::String
    } by {}
}

/// A decimal numeral: digits, a decimal point, digits, with at least one digit on
/// either side of the point.
pub open spec fn is_decimal_numeral(s: Seq<char>) -> bool {
    exists|point: int| is_decimal_numeral_at(s, point)
}

/// A decimal numeral whose point is at `point`.
pub open spec fn is_decimal_numeral_at(s: Seq<char>, point: int) -> bool {
    &&& 0 < point < s.len() - 1
    &&& s[point] == '.'
    &&& forall|i: int| 0 <= i < s.len() && i != point ==> is_ascii_digit(#[trigger] s[i])
}

/// The lexeme of a number: digits, of which there is at least one, and behind them
/// nothing, or a decimal point and digits, of which there may be none. `whole` is the
/// number of digits before the point.
pub open spec fn is_number_lexeme(s: Seq<char>, whole: int) -> bool {
    &&& 0 < whole <= s.len()
    &&& forall|i: int| 0 <= i < s.len() && i != whole ==> is_ascii_digit(#[trigger] s[i])
    &&& whole < s.len() ==> s[whole] == '.'
}

/// The literal of a number is a decimal numeral.
pub proof fn lemma_normalized_is_decimal(s: Seq<char>, whole: int)
    requires
        is_number_lexeme(s, whole),
    ensures
        is_decimal_numeral(normalize_number(s)),
{
    let n = normalize_number(s);
    if whole < s.len() {
        assert(s[whole] == '.');
        assert(s.contains('.'));
        lemma_strip_trailing_zeros(s);
        let t = strip_trailing_zeros(s);
        let j = choose|j: int| 0 <= j < t.len() && t[j] == '.';
        assert(t[j] == s[j]);
        assert(j == whole) by {
            if j != whole {
                assert(is_ascii_digit(s[j]));
            }
        }
        assert forall|i: int| 0 <= i < n.len() && i != whole implies is_ascii_digit(
            #[trigger] n[i],
        ) by {
            if i < t.len() {
                assert(n[i] == s[i]);
            }
        }
        assert(is_decimal_numeral_at(n, whole));
    } else {
        assert(!s.contains('.')) by {
            if s.contains('.') {
                let j = choose|j: int| 0 <= j < s.len() && s[j] == '.';
                assert(is_ascii_digit(s[j]));
            }
        }
        assert forall|i: int| 0 <= i < n.len() && i != whole implies is_ascii_digit(
            #[trigger] n[i],
        ) by {
            if i < s.len() {
                assert(n[i] == s[i]);
            }
        }
        assert(is_decimal_numeral_at(n, whole));
    }
}

/// Of every scan: the last token is the end-of-input token and no other token is one;
/// and the literal of every number is a decimal numeral, the normalized form of its
/// lexeme.
pub proof fn lemma_scanned_tokens(src: Seq<char>, pos: int, line: nat)
    requires
        0 <= pos <= src.len(),
    ensures
        scan(src, pos, line).tokens.len() >= 1,
        scan(src, pos, line).tokens.last().token_type == TokenType::EOF,
        forall|i: int|
            0 <= i < scan(src, pos, line).tokens.len() - 1 ==> (#[trigger] scan(
                src,
                pos,
                line,
            ).tokens[i]).token_type != TokenType::EOF,
        forall|i: int|
            0 <= i < scan(src, pos, line).tokens.len() && (#[trigger] scan(
                src,
                pos,
                line,
            ).tokens[i]).token_type == TokenType::Number ==> {
                let token = scan(src, pos, line).tokens[i];
                &&& token.literal == normalize_number(token.lexeme)
                &&& is_decimal_numeral(token.literal)
            },
    decreases src.len() - pos,
{
    if pos < src.len() {
        let c = src[pos];
        let step = scan_step(src, pos, line);
        lemma_step_advances(src, pos, line);
        lemma_scanned_tokens(src, step.next, step.line);
        let rest = scan(src, step.next, step.line).tokens;
        let all = scan(src, pos, line).tokens;
        match step.token {
            Some(token) => {
                assert(all =~= seq![token] + rest);
                assert(token.token_type != TokenType::EOF) by {
                    lemma_identifier_kind(token.lexeme);
                }
                if token.token_type == TokenType::Number {
                    assert(is_ascii_digit(c)) by {
                        lemma_identifier_kind(token.lexeme);
                    }
                    let whole = digits_end(src, pos + 1);
                    lemma_digits_end(src, pos + 1);
                    lemma_digits_end(src, whole + 1);
                    assert(is_number_lexeme(token.lexeme, whole - pos));
                    lemma_normalized_is_decimal(token.lexeme, whole - pos);
                }
                assert forall|i: int| 0 <= i < all.len() - 1 implies (#[trigger] all[i]).token_type
                    != TokenType::EOF by {
                    if i > 0 {
                        assert(all[i] == rest[i - 1]);
                    }
                }
                assert forall|i: int|
                    0 <= i < all.len() && (#[trigger] all[i]).token_type
                        == TokenType::Number implies all[i].literal == normalize_number(
                    all[i].lexeme,
                ) && is_decimal_numeral(all[i].literal) by {
                    if i > 0 {
                        assert(all[i] == rest[i - 1]);
                    }
                }
            },
            None => {
                assert(all =~= rest);
            },
        }
    }
}

/// Lines never decrease: every token of a scan stands on the line on which the scan
/// began or on a later one, and on no earlier line than the tokens before it.
pub proof fn lemma_token_lines(src: Seq<char>, pos: int, line: nat)
    requires
        0 <= pos <= src.len(),
    ensures
        forall|i: int|
            0 <= i < scan(src, pos, line).tokens.len() ==> line <= (#[trigger] scan(
                src,
                pos,
                line,
            ).tokens[i]).line_number,
        forall|i: int, j: int|
            0 <= i <= j < scan(src, pos, line).tokens.len() ==> (#[trigger] scan(
                src,
                pos,
                line,
            ).tokens[i]).line_number <= (#[trigger] scan(src, pos, line).tokens[j]).line_number,
    decreases src.len() - pos,
{
    if pos < src.len() {
        let step = scan_step(src, pos, line);
        lemma_step_advances(src, pos, line);
        lemma_token_lines(src, step.next, step.line);
        let rest = scan(src, step.next, step.line).tokens;
        let all = scan(src, pos, line).tokens;
        match step.token {
            Some(token) => {
                assert(all =~= seq![token] + rest);
                assert(token.line_number == line);
                assert forall|i: int| 0 <= i < all.len() implies line <= (
                #[trigger] all[i]).line_number by {
                    if i > 0 {
                        assert(all[i] == rest[i - 1]);
                    }
                }
                assert forall|i: int, j: int| 0 <= i <= j < all.len() implies (
                #[trigger] all[i]).line_number <= (#[trigger] all[j]).line_number by {
                    if j > 0 {
                        assert(all[j] == rest[j - 1]);
                    }
                    if i > 0 {
                        assert(all[i] == rest[i - 1]);
                    }
                }
            },
            None => {
                assert(all =~= rest);
            },
        }
    }
}

} // verus!
