//! Character classification for the scanner.
//!
//! Whitespace is the small fixed set the scanner skips, stated exactly.
//! Alphabetic and numeric classification come from the standard library's
//! Unicode tables, which are far too large to restate: each gets a name, and
//! the scanner's specification is phrased over those names.

use vstd::prelude::*;

verus! {

/// What `char::is_alphabetic` returns: whether the character has the Unicode
/// `Alphabetic` property. The result depends on the character alone.
pub uninterp spec fn alphabetic(c: char) -> bool;

/// What `char::is_numeric` returns: whether the character is in one of the
/// Unicode numeric general categories. The result depends on the character
/// alone.
pub uninterp spec fn numeric(c: char) -> bool;

/// The whitespace characters the scanner skips: space, tab, newline and
/// carriage return.
pub open spec fn is_whitespace_char(c: char) -> bool {
    c == ' ' || c == '\t' || c == '\n' || c == '\r'
}

/// A character that may appear in an identifier run: alphabetic or an
/// underscore. Whitespace is excluded outright: none of the scanner's
/// whitespace characters has the Unicode `Alphabetic` property.
pub open spec fn is_letter_char(c: char) -> bool {
    (alphabetic(c) || c == '_') && !is_whitespace_char(c)
}

/// A character that may appear in an integer-literal run. Whitespace is
/// excluded outright: none of the scanner's whitespace characters is numeric.
pub open spec fn is_digit_char(c: char) -> bool {
    numeric(c) && !is_whitespace_char(c)
}

/// The whitespace class as a function value, for describing character runs.
pub open spec fn whitespace_class() -> spec_fn(char) -> bool {
    |c: char| is_whitespace_char(c)
}

/// The complement of the whitespace class: the characters that survive into
/// emitted literals.
pub open spec fn non_whitespace_class() -> spec_fn(char) -> bool {
    |c: char| !is_whitespace_char(c)
}

/// The identifier-character class as a function value.
pub open spec fn letter_class() -> spec_fn(char) -> bool {
    |c: char| is_letter_char(c)
}

/// The integer-literal-character class as a function value.
pub open spec fn digit_class() -> spec_fn(char) -> bool {
    |c: char| is_digit_char(c)
}

/// Relies on `char::is_alphabetic`: true exactly of characters with the
/// Unicode `Alphabetic` property; space, tab, newline and carriage return do
/// not have it.
pub assume_specification[ char::is_alphabetic ](c: char) -> (r: bool)
    ensures
        r == alphabetic(c),
        is_whitespace_char(c) ==> !r,
;

/// Relies on `char::is_numeric`: true exactly of characters in the Unicode
/// numeric general categories; space, tab, newline and carriage return are in
/// none of them.
pub assume_specification[ char::is_numeric ](c: char) -> (r: bool)
    ensures
        r == numeric(c),
        is_whitespace_char(c) ==> !r,
;

} // verus!
