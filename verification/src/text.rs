use vstd::prelude::*;

verus! {

/// Copies a string slice into an owned `String` with the same characters.
pub(crate) fn owned(s: &str) -> (r: String)
    ensures
        r@ == s@,
{
    s.to_string()
}

/// Whether `char::is_alphanumeric` holds of a character.
pub uninterp spec fn alphanumeric(c: char) -> bool;

/// Whether `char::is_whitespace` holds of a character.
pub uninterp spec fn whitespace(c: char) -> bool;

/// The text that `str::to_lowercase` makes of a text.
pub uninterp spec fn lowercase(text: Seq<char>) -> Seq<char>;

/// Calls `char::is_alphanumeric`; the answer is the one named by
/// [`alphanumeric`].
#[verifier::external_body]
pub(crate) fn is_alphanumeric(c: char) -> (b: bool)
    ensures
        b == alphanumeric(c),
{
    c.is_alphanumeric()
}

/// Calls `char::is_whitespace`; the answer is the one named by
/// [`whitespace`].
#[verifier::external_body]
pub(crate) fn is_whitespace(c: char) -> (b: bool)
    ensures
        b == whitespace(c),
{
    c.is_whitespace()
}

/// Calls `str::to_lowercase`; the text is the one named by [`lowercase`].
#[verifier::external_body]
pub(crate) fn to_lowercase(s: &str) -> (r: String)
    ensures
        r@ == lowercase(s@),
{
    s.to_lowercase()
}

/// The decimal digit for a number below ten.
pub open spec fn digit_char(digit: nat) -> char {
    if digit == 0 {
        '0'
    } else if digit == 1 {
        '1'
    } else if digit == 2 {
        '2'
    } else if digit == 3 {
        '3'
    } else if digit == 4 {
        '4'
    } else if digit == 5 {
        '5'
    } else if digit == 6 {
        '6'
    } else if digit == 7 {
        '7'
    } else if digit == 8 {
        '8'
    } else {
        '9'
    }
}

/// The number that a decimal digit stands for; `None` for other characters.
pub open spec fn digit_value(c: char) -> Option<nat> {
    if c == '0' {
        Some(0)
    } else if c == '1' {
        Some(1)
    } else if c == '2' {
        Some(2)
    } else if c == '3' {
        Some(3)
    } else if c == '4' {
        Some(4)
    } else if c == '5' {
        Some(5)
    } else if c == '6' {
        Some(6)
    } else if c == '7' {
        Some(7)
    } else if c == '8' {
        Some(8)
    } else if c == '9' {
        Some(9)
    } else {
        None
    }
}

/// The number that a text of decimal digits stands for; `None` where the
/// text is empty or holds another character.
pub open spec fn digits_value(text: Seq<char>) -> Option<nat>
    decreases text.len(),
{
    if text.len() == 0 {
        None
    } else if text.len() == 1 {
        digit_value(text[0])
    } else {
        match (digits_value(text.drop_last()), digit_value(text.last())) {
            (Some(high), Some(low)) => Some(high * 10 + low),
            _ => None,
        }
    }
}

/// The value that `str::parse::<u32>` yields for a text: the text is one
/// or more decimal digits, with a `+` before them or without, and stands
/// for a number that fits. Every other text is rejected.
pub open spec fn parsed_u32(text: Seq<char>) -> Option<u32> {
    let digits = if text.len() > 0 && text[0] == '+' {
        text.skip(1)
    } else {
        text
    };
    match digits_value(digits) {
        Some(value) => if value <= u32::MAX {
            Some(value as u32)
        } else {
            None
        },
        None => None,
    }
}

/// The decimal text that formatting a number with `{}` produces: its
/// digits without leading zeros, and `0` for zero.
pub open spec fn decimal_digits(val: nat) -> Seq<char>
    decreases val,
{
    if val < 10 {
        seq![digit_char(val)]
    } else {
        decimal_digits(val / 10).push(digit_char(val % 10))
    }
}

/// The decimal text that formatting a `u32` with `{}` produces.
pub open spec fn decimal_text(val: u32) -> Seq<char> {
    decimal_digits(val as nat)
}

/// Calls `str::parse::<u32>`. That call takes one or more decimal digits,
/// with a `+` before them or without, that stand for a number which fits,
/// and rejects every other text: see [`parsed_u32`].
#[verifier::external_body]
pub(crate) fn parse_u32(s: &str) -> (r: Option<u32>)
    ensures
        r == parsed_u32(s@),
{
    s.parse::<u32>().ok()
}

/// Formats a `u32` with `{}`, which gives its decimal digits: see
/// [`decimal_text`].
#[verifier::external_body]
pub(crate) fn format_u32(val: u32) -> (s: String)
    ensures
        s@ == decimal_text(val),
{
    format!("{}", val)
}

/// The number of bytes that a character takes in UTF-8, as
/// `char::len_utf8` documents it.
pub open spec fn utf8_width(c: char) -> nat {
    if (c as u32) < 0x80 {
        1
    } else if (c as u32) < 0x800 {
        2
    } else if (c as u32) < 0x10000 {
        3
    } else {
        4
    }
}

/// The number of bytes that a text takes in UTF-8.
pub open spec fn utf8_len(text: Seq<char>) -> nat
    decreases text.len(),
{
    if text.len() == 0 {
        0
    } else {
        utf8_len(text.drop_last()) + utf8_width(text.last())
    }
}

/// Calls `str::get` with the range `0..end`. That call yields the first
/// `end` bytes where they are in bounds and end on a character boundary,
/// which is to say where some prefix of the characters takes exactly `end`
/// bytes; otherwise it yields `None`.
#[verifier::external_body]
pub(crate) fn byte_prefix<'a>(s: &'a str, end: usize) -> (r: Option<&'a str>)
    ensures
        match r {
            Some(p) => p@.len() <= s@.len() && p@ == s@.subrange(0, p@.len() as int) && utf8_len(
                p@,
            ) == end,
            None => forall|j: int| 0 <= j <= s@.len()
                ==> utf8_len(#[trigger] s@.subrange(0, j)) != end,
        },
{
    s.get(0..end)
}

/// A longer prefix takes more bytes.
pub proof fn lemma_utf8_len_grows(text: Seq<char>, i: int, j: int)
    requires
        0 <= i <= j <= text.len(),
    ensures
        utf8_len(text.subrange(0, j)) >= utf8_len(text.subrange(0, i)) + (j - i),
    decreases j - i,
{
    if i < j {
        lemma_utf8_len_grows(text, i, j - 1);
        assert(text.subrange(0, j).drop_last() =~= text.subrange(0, j - 1));
    }
}

} // verus!
