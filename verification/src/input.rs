//! Reading the numbers typed into the control panel.
use vstd::prelude::*;

verus! {

/// The value of a string of decimal digits.
pub open spec fn decimal_value(s: Seq<char>) -> int
    decreases s.len(),
{
    if s.len() == 0 {
        0
    } else {
        decimal_value(s.drop_last()) * 10 + (s.last() as int - '0' as int)
    }
}

pub open spec fn is_decimal_digit(ch: char) -> bool {
    '0' <= ch && ch <= '9'
}

/// Every character of `s` is a decimal digit.
pub open spec fn all_decimal_digits(s: Seq<char>) -> bool {
    forall|i: int| 0 <= i < s.len() ==> is_decimal_digit(#[trigger] s[i])
}

/// The text after an optional leading `+`.
pub open spec fn unsigned_digits(s: Seq<char>) -> Seq<char> {
    if s.len() > 0 && s[0] == '+' { s.drop_first() } else { s }
}

/// What parsing `s` as an unsigned integer no larger than `max` gives: an
/// optional `+` sign followed by one or more decimal digits whose value does
/// not exceed `max`; anything else is an error.
pub open spec fn parse_unsigned(s: Seq<char>, max: int) -> Option<int> {
    let digits = unsigned_digits(s);
    if digits.len() > 0 && all_decimal_digits(digits) && decimal_value(digits) <= max {
        Some(decimal_value(digits))
    } else {
        None
    }
}

/// A string of decimal digits has a value of at least zero.
pub proof fn lemma_decimal_nonneg(s: Seq<char>)
    requires
        all_decimal_digits(s),
    ensures
        decimal_value(s) >= 0,
    decreases s.len(),
{
    if s.len() > 0 {
        lemma_decimal_nonneg(s.drop_last());
        assert(is_decimal_digit(s[s.len() - 1]));
    }
}

/// A parsed value is at least zero.
pub proof fn lemma_parse_nonneg(s: Seq<char>, max: int)
    ensures
        parse_unsigned(s, max) matches Some(v) ==> 0 <= v <= max,
{
    if parse_unsigned(s, max) is Some {
        lemma_decimal_nonneg(unsigned_digits(s));
    }
}

/// The text that `str::trim` leaves of `s`.
pub uninterp spec fn trimmed(s: Seq<char>) -> Seq<char>;

/// `str::trim`: the text without its leading and trailing whitespace. Its
/// result is named, not spelled out: which characters count as whitespace
/// is Unicode's White_Space property, which is not restated here.
#[verifier::external_body]
fn trim_text(text: &str) -> (r: &str)
    ensures
        r@ == trimmed(text@),
{
    text.trim()
}

/// `str::parse::<u64>`: as documented for `u64::from_str`, an optional `+`
/// followed by decimal digits, an error when anything else stands in the
/// text or when the value overflows.
#[verifier::external_body]
fn parse_u64(text: &str) -> (r: Option<u64>)
    ensures
        r == (match parse_unsigned(text@, u64::MAX as int) {
            Some(v) => Some(v as u64),
            None => None::<u64>,
        }),
{
    text.parse::<u64>().ok()
}

/// `str::parse::<usize>`: as documented for `usize::from_str`, an optional
/// `+` followed by decimal digits, an error when anything else stands in the
/// text or when the value overflows.
#[verifier::external_body]
fn parse_usize(text: &str) -> (r: Option<usize>)
    ensures
        r == (match parse_unsigned(text@, usize::MAX as int) {
            Some(v) => Some(v as usize),
            None => None::<usize>,
        }),
{
    text.parse::<usize>().ok()
}

/// The number of steps in already trimmed text: the text read as a `u64`,
/// or `None` when it is not one.
pub fn count_from_trimmed(t: &str) -> (r: Option<u64>)
    ensures
        r == (match parse_unsigned(t@, u64::MAX as int) {
            Some(v) => Some(v as u64),
            None => None::<u64>,
        }),
{
    parse_u64(t)
}

/// The number of steps typed into the "Steps x" field: the trimmed text read
/// as a `u64`, or `None` when it is not one.
pub fn parse_count(text: &str) -> (r: Option<u64>)
    ensures
        r == (match parse_unsigned(trimmed(text@), u64::MAX as int) {
            Some(v) => Some(v as u64),
            None => None::<u64>,
        }),
{
    count_from_trimmed(trim_text(text))
}

/// A grid dimension in already trimmed text: the text read as a `usize`, 70
/// when it is not one, and never less than 2.
pub fn dimension_from_trimmed(t: &str) -> (n: usize)
    ensures
        n == dimension_of(t@),
{
    proof {
        lemma_parse_nonneg(t@, usize::MAX as int);
    }
    let v = match parse_usize(t) {
        Some(v) => v,
        None => 70,
    };
    if v < 2 { 2 } else { v }
}

/// A grid dimension as read from the resize fields: the trimmed text read as
/// a `usize`, 70 when it is not one, and never less than 2.
pub fn parse_dimension(text: &str) -> (n: usize)
    ensures
        n == dimension_of(trimmed(text@)),
{
    dimension_from_trimmed(trim_text(text))
}

/// A dimension is never below 2: a number of at least 2 is taken as it is,
/// a smaller one becomes 2, and text that is not a number becomes 70.
pub proof fn law_dimension(t: Seq<char>)
    ensures
        dimension_of(t) >= 2,
        parse_unsigned(t, usize::MAX as int) is None ==> dimension_of(t) == 70,
        parse_unsigned(t, usize::MAX as int) matches Some(v) ==> (v >= 2 ==> dimension_of(t) == v),
        parse_unsigned(t, usize::MAX as int) matches Some(v) ==> (v < 2 ==> dimension_of(t) == 2),
{
}

/// A digit string's value: `"0"` is 0, `"7"` is 7, and appending a digit
/// multiplies by ten and adds it.
pub proof fn law_decimal_value(s: Seq<char>, ch: char)
    requires
        is_decimal_digit(ch),
    ensures
        decimal_value(Seq::empty()) == 0,
        decimal_value(s.push(ch)) == decimal_value(s) * 10 + (ch as int - '0' as int),
        0 <= ch as int - '0' as int <= 9,
{
    assert(s.push(ch).drop_last() == s);
}

/// The dimension that the trimmed text `t` stands for.
pub open spec fn dimension_of(t: Seq<char>) -> int {
    let v = match parse_unsigned(t, usize::MAX as int) {
        Some(v) => v,
        None => 70,
    };
    if v < 2 { 2 } else { v }
}

} // verus!
