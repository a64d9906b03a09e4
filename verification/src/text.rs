//! Text comparisons that the engine needs, stated over sequences of
//! characters.

use vstd::prelude::*;

verus! {

/// Whether `part` occurs in `text` as a run of neighbouring characters.
pub open spec fn is_substring(part: Seq<char>, text: Seq<char>) -> bool {
    exists|i: int|
        0 <= i <= text.len() - part.len() && #[trigger] text.subrange(i, i + part.len()) == part
}

/// The characters of an optional text.
pub open spec fn text_of(text: Option<String>) -> Option<Seq<char>> {
    match text {
        Some(s) => Some(s@),
        None => None,
    }
}

/// Compares two texts with `==` of `str`. Trusted: they compare equal
/// exactly when they hold the same characters.
#[verifier::external_body]
pub(crate) fn same_text(a: &str, b: &str) -> (same: bool)
    ensures
        same == (a@ == b@),
{
    a == b
}

/// Calls `str::contains` with a text as the pattern. Trusted: it holds
/// exactly when the pattern occurs in the text as a run of neighbouring
/// characters.
#[verifier::external_body]
pub(crate) fn contains_text(text: &str, part: &str) -> (found: bool)
    ensures
        found == is_substring(part@, text@),
{
    text.contains(part)
}

/// The text that `str::trim` leaves of `text`: the text without the white
/// space at its two ends.
pub uninterp spec fn trimmed(text: Seq<char>) -> Seq<char>;

/// The number that `str::parse` reads from `text` as a `u64`, if it reads
/// one.
pub uninterp spec fn parsed_number(text: Seq<char>) -> Option<u64>;

/// Calls `str::trim`. Trusted: the result is a function of the text.
#[verifier::external_body]
pub(crate) fn trim_text<'a>(text: &'a str) -> (rest: &'a str)
    ensures
        rest@ == trimmed(text@),
{
    text.trim()
}

/// Calls `str::parse` for a `u64` and hands back the number, or `None`
/// where it reports an error. Trusted: the result is a function of the
/// text.
#[verifier::external_body]
pub(crate) fn parse_number(text: &str) -> (number: Option<u64>)
    ensures
        number == parsed_number(text@),
{
    match text.parse::<u64>() {
        Ok(n) => Some(n),
        Err(_) => None,
    }
}

/// The character of a decimal digit.
pub open spec fn digit(d: int) -> char {
    if d == 0 {
        '0'
    } else if d == 1 {
        '1'
    } else if d == 2 {
        '2'
    } else if d == 3 {
        '3'
    } else if d == 4 {
        '4'
    } else if d == 5 {
        '5'
    } else if d == 6 {
        '6'
    } else if d == 7 {
        '7'
    } else if d == 8 {
        '8'
    } else {
        '9'
    }
}

/// The decimal digits of a number, without leading zeros.
pub open spec fn digits(n: nat) -> Seq<char>
    decreases n,
{
    if n < 10 {
        seq![digit(n as int)]
    } else {
        digits(n / 10).push(digit((n % 10) as int))
    }
}

/// A run of `count` zeros; none where the count is not positive.
pub open spec fn zeros(count: int) -> Seq<char> {
    Seq::new(
        if count > 0 {
            count as nat
        } else {
            0
        },
        |i: int| '0',
    )
}

/// A number written in decimal and filled up with zeros to the given
/// width. The sign of a negative number stands first and counts toward the
/// width.
pub open spec fn zero_padded(n: int, width: int) -> Seq<char> {
    if n < 0 {
        seq!['-'] + zeros(width - 1 - digits((-n) as nat).len()) + digits((-n) as nat)
    } else {
        zeros(width - digits(n as nat).len()) + digits(n as nat)
    }
}

/// A number written in decimal.
pub open spec fn decimal(n: int) -> Seq<char> {
    zero_padded(n, 0)
}

/// The text with every occurrence of the pattern replaced. Occurrences
/// are found from the front and do not overlap.
pub open spec fn replaced(text: Seq<char>, pattern: Seq<char>, with: Seq<char>) -> Seq<char>
    decreases text.len(),
{
    if pattern.len() == 0 || text.len() < pattern.len() {
        text
    } else if text.subrange(0, pattern.len() as int) == pattern {
        with + replaced(text.skip(pattern.len() as int), pattern, with)
    } else {
        seq![text[0]] + replaced(text.skip(1), pattern, with)
    }
}

/// Writes a number with the `format` macro, in decimal and zero-padded to
/// a least width. The width is a `u8`, well within what the formatter
/// takes. Trusted: the digits are those of the number, zeros fill it up to
/// the width, and a minus sign stands in front of them.
#[verifier::external_body]
pub(crate) fn padded_number(n: i128, width: u8) -> (text: String)
    ensures
        text@ == zero_padded(n as int, width as int),
{
    format!("{:0width$}", n, width = usize::from(width))
}

/// Calls `str::replace` with a text as the pattern. Trusted: every
/// occurrence of the pattern, found from the front and not overlapping an
/// earlier one, gives way to the replacement.
#[verifier::external_body]
pub(crate) fn replace_text(text: &str, pattern: &str, with: &str) -> (changed: String)
    requires
        pattern@.len() > 0,
    ensures
        changed@ == replaced(text@, pattern@, with@),
{
    text.replace(pattern, with)
}

} // verus!
