use vstd::prelude::*;

verus! {

/// The ASCII letters and the underscore: what may begin an identifier.
pub open spec fn is_alphabet_or_underscore(c: char) -> bool {
    ('a' <= c && c <= 'z') || ('A' <= c && c <= 'Z') || c == '_'
}

/// The ASCII decimal digits.
pub open spec fn is_ascii_digit(c: char) -> bool {
    '0' <= c && c <= '9'
}

/// What may continue an identifier: a letter, a digit or the underscore.
pub open spec fn is_identifier_char(c: char) -> bool {
    is_alphabet_or_underscore(c) || is_ascii_digit(c)
}

/// The character classes by which the scanner tells identifiers.
pub trait PrjChar {
    /// The character that is asked about.
    spec fn value(&self) -> char;

    /// Whether the character may begin an identifier.
    fn is_alphabet_or_underscore(&self) -> (r: bool)
        ensures
            r == is_alphabet_or_underscore(self.value()),
    ;

    /// Whether the character may continue an identifier.
    fn is_identifier_char(&self) -> (r: bool)
        ensures
            r == is_identifier_char(self.value()),
    ;
}

impl PrjChar for char {
    open spec fn value(&self) -> char {
        *self
    }

    fn is_alphabet_or_underscore(&self) -> (r: bool) {
        let c = *self;
        (c >= 'a' && c <= 'z') || (c >= 'A' && c <= 'Z') || c == '_'
    }

    fn is_identifier_char(&self) -> (r: bool) {
        let c = *self;
        self.is_alphabet_or_underscore() || (c >= '0' && c <= '9')
    }
}

} // verus!
