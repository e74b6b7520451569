//! The decimal text of device files.
//!
//! A device file holds one non-negative number as decimal digits, possibly
//! surrounded or interrupted by whitespace, possibly nothing at all. This
//! module says which number a text denotes and which text a number is
//! written as; opening, reading and rewinding the file is the caller's part.

use vstd::prelude::*;
use vstd::utf8::{
    encode_utf8, encode_utf8_decode_utf8, is_ascii_chars, is_ascii_chars_encode_utf8,
};

verus! {

/// The number that a device file without any digits is read as: the value
/// is not there yet, which is no failure.
pub const BLANK_READING: u32 = 1;

/// Why a text is not the decimal form of a 32-bit number.
#[derive(Clone, Copy, Debug, PartialEq, Eq, Structural)]
pub enum ParseError {
    /// There is no text at all.
    Empty,
    /// Some character is not a decimal digit, or a sign stands alone.
    InvalidDigit,
    /// The digits denote a number above `u32::MAX`.
    PosOverflow,
}

/// The characters with the Unicode property `White_Space`.
pub open spec fn spec_is_whitespace(c: char) -> bool {
    let u = c as u32;
    ||| 0x09 <= u <= 0x0d
    ||| u == 0x20
    ||| u == 0x85
    ||| u == 0xa0
    ||| u == 0x1680
    ||| 0x2000 <= u <= 0x200a
    ||| u == 0x2028
    ||| u == 0x2029
    ||| u == 0x202f
    ||| u == 0x205f
    ||| u == 0x3000
}

/// The text with every whitespace character taken out.
pub open spec fn spec_strip_whitespace(s: Seq<char>) -> Seq<char> {
    s.filter(|c: char| !spec_is_whitespace(c))
}

/// The text holds nothing but whitespace; an empty text is blank.
pub open spec fn is_blank(s: Seq<char>) -> bool {
    forall|i: int| 0 <= i < s.len() ==> spec_is_whitespace(#[trigger] s[i])
}

/// The ten ASCII digits.
pub open spec fn is_digit(c: char) -> bool {
    '0' <= c <= '9'
}

/// What a digit counts; zero for any other character.
pub open spec fn digit_value(c: char) -> nat {
    if is_digit(c) {
        (c as int - '0' as int) as nat
    } else {
        0
    }
}

/// The digit that counts `d`, for `d` below ten.
pub open spec fn digit_char(d: nat) -> char {
    (d + '0' as nat) as char
}

/// Every character of the text is a digit.
pub open spec fn all_digits(s: Seq<char>) -> bool {
    forall|i: int| 0 <= i < s.len() ==> is_digit(#[trigger] s[i])
}

/// The number that a run of digits denotes in base ten; zero for no digits.
pub open spec fn decimal_value(s: Seq<char>) -> nat
    decreases s.len(),
{
    if s.len() == 0 {
        0
    } else {
        decimal_value(s.drop_last()) * 10 + digit_value(s.last())
    }
}

/// The text after its leading `+`, if it has one.
pub open spec fn unsigned_part(s: Seq<char>) -> Seq<char> {
    if s.len() > 0 && s[0] == '+' {
        s.drop_first()
    } else {
        s
    }
}

/// Some leading run of digits already denotes more than 32 bits hold.
pub open spec fn overflows(s: Seq<char>) -> bool {
    exists|k: int|
        0 <= k <= s.len() && all_digits(#[trigger] s.take(k)) && decimal_value(s.take(k))
            > u32::MAX
}

/// The number that a text denotes: an optional `+` and then at least one
/// digit, nothing else. Reading from the left, digits that leave the range
/// of `u32` are reported before a character that is no digit.
pub open spec fn spec_parse_u32(s: Seq<char>) -> Result<u32, ParseError> {
    let digits = unsigned_part(s);
    if s.len() == 0 {
        Err(ParseError::Empty)
    } else if digits.len() == 0 {
        Err(ParseError::InvalidDigit)
    } else if overflows(digits) {
        Err(ParseError::PosOverflow)
    } else if !all_digits(digits) {
        Err(ParseError::InvalidDigit)
    } else {
        Ok(decimal_value(digits) as u32)
    }
}

/// The number that the content of a device file denotes: whitespace does
/// not count, wherever it stands, and content without anything else is
/// read as [`BLANK_READING`].
pub open spec fn spec_parse_num(s: Seq<char>) -> Result<u32, ParseError> {
    let stripped = spec_strip_whitespace(s);
    if stripped.len() == 0 {
        Ok(BLANK_READING)
    } else {
        spec_parse_u32(stripped)
    }
}

/// The decimal digits of `n`, most significant first, without leading
/// zeros; the single digit `0` for zero.
pub open spec fn spec_format_num(n: nat) -> Seq<char>
    decreases n,
{
    if n < 10 {
        seq![digit_char(n)]
    } else {
        spec_format_num(n / 10).push(digit_char(n % 10))
    }
}

/// The bytes of a text of ASCII characters: one for each character, with
/// the character's code.
pub open spec fn ascii_bytes(s: Seq<char>) -> Seq<u8> {
    s.map_values(|c: char| c as u8)
}

/// Stripping a text that ends in `c` strips the text before it and keeps
/// `c` unless it is whitespace.
pub proof fn lemma_strip_push(s: Seq<char>, c: char)
    ensures
        spec_strip_whitespace(s.push(c)) == if spec_is_whitespace(c) {
            spec_strip_whitespace(s)
        } else {
            spec_strip_whitespace(s).push(c)
        },
{
    reveal(Seq::filter);
    assert(s.push(c).drop_last() =~= s);
}

/// A text without whitespace is its own stripped form.
pub proof fn lemma_strip_nothing(s: Seq<char>)
    requires
        forall|i: int| 0 <= i < s.len() ==> !spec_is_whitespace(#[trigger] s[i]),
    ensures
        spec_strip_whitespace(s) == s,
    decreases s.len(),
{
    if s.len() == 0 {
        reveal(Seq::filter);
    } else {
        lemma_strip_nothing(s.drop_last());
        lemma_strip_push(s.drop_last(), s.last());
        assert(s.drop_last().push(s.last()) =~= s);
    }
}

/// A text of whitespace alone has an empty stripped form.
pub proof fn lemma_strip_everything(s: Seq<char>)
    requires
        is_blank(s),
    ensures
        spec_strip_whitespace(s).len() == 0,
    decreases s.len(),
{
    if s.len() == 0 {
        reveal(Seq::filter);
    } else {
        lemma_strip_everything(s.drop_last());
        lemma_strip_push(s.drop_last(), s.last());
        assert(s.drop_last().push(s.last()) =~= s);
    }
}

/// Appending a character to a run of digits multiplies its value by ten
/// and adds what the character counts.
pub proof fn lemma_decimal_value_push(s: Seq<char>, c: char)
    ensures
        decimal_value(s.push(c)) == decimal_value(s) * 10 + digit_value(c),
{
    assert(s.push(c).drop_last() =~= s);
}

/// No leading part of a text denotes more than the whole text.
pub proof fn lemma_decimal_value_prefix(s: Seq<char>, k: int)
    requires
        0 <= k <= s.len(),
    ensures
        decimal_value(s.take(k)) <= decimal_value(s),
    decreases s.len(),
{
    if k == s.len() {
        assert(s.take(k) =~= s);
    } else {
        lemma_decimal_value_prefix(s.drop_last(), k);
        assert(s.drop_last().take(k) =~= s.take(k));
    }
}

/// Digits whose value fits 32 bits do not overflow on the way.
pub proof fn lemma_fits_without_overflow(s: Seq<char>)
    requires
        decimal_value(s) <= u32::MAX,
    ensures
        !overflows(s),
{
    assert forall|k: int| 0 <= k <= s.len() implies decimal_value(#[trigger] s.take(k))
        <= u32::MAX by {
        lemma_decimal_value_prefix(s, k);
    }
}

/// Up to the first character that is no digit, a text overflows only if
/// the digits before that character do.
pub proof fn lemma_overflow_stops_at_invalid(s: Seq<char>, j: int)
    requires
        0 <= j < s.len(),
        !is_digit(s[j]),
        decimal_value(s.take(j)) <= u32::MAX,
    ensures
        !overflows(s),
        !all_digits(s),
{
    assert forall|k: int| 0 <= k <= s.len() && all_digits(#[trigger] s.take(k)) implies
        decimal_value(s.take(k)) <= u32::MAX by {
        if k > j {
            assert(s.take(k)[j] == s[j]);
        } else {
            lemma_decimal_value_prefix(s.take(j), k);
            assert(s.take(j).take(k) =~= s.take(k));
        }
    }
}

/// The bytes of two texts in a row are the bytes of the first, then those
/// of the second.
pub proof fn lemma_ascii_bytes_concat(a: Seq<char>, b: Seq<char>)
    ensures
        ascii_bytes(a + b) == ascii_bytes(a) + ascii_bytes(b),
{
}

/// The bytes of an ASCII text are its UTF-8 form.
pub proof fn lemma_ascii_bytes_utf8(s: Seq<char>)
    requires
        is_ascii_chars(s),
    ensures
        ascii_bytes(s) == encode_utf8(s),
{
    is_ascii_chars_encode_utf8(s);
}

/// The written form of a number consists of digits, at least one, and
/// denotes that number.
pub proof fn lemma_format_num_digits(n: nat)
    ensures
        spec_format_num(n).len() >= 1,
        all_digits(spec_format_num(n)),
        is_ascii_chars(spec_format_num(n)),
        decimal_value(spec_format_num(n)) == n,
    decreases n,
{
    if n < 10 {
        assert(decimal_value(seq![digit_char(n)].drop_last()) == 0);
    } else {
        lemma_format_num_digits(n / 10);
        lemma_decimal_value_push(spec_format_num(n / 10), digit_char(n % 10));
    }
}

/// Writing a number and reading the text back yields the number, whatever
/// 32-bit number it is.
pub proof fn lemma_format_then_parse(n: u32)
    ensures
        spec_parse_num(spec_format_num(n as nat)) == Ok::<u32, ParseError>(n),
        spec_parse_u32(spec_format_num(n as nat)) == Ok::<u32, ParseError>(n),
{
    let text = spec_format_num(n as nat);
    lemma_format_num_digits(n as nat);
    lemma_strip_nothing(text);
    lemma_fits_without_overflow(text);
}

/// A file that holds the bytes written for a number, and is read as UTF-8
/// text, gives the text that reads back as the number.
pub proof fn lemma_written_bytes_read_back(n: u32, content: Seq<char>)
    requires
        encode_utf8(content) == ascii_bytes(spec_format_num(n as nat)),
    ensures
        content == spec_format_num(n as nat),
        spec_parse_num(content) == Ok::<u32, ParseError>(n),
{
    let text = spec_format_num(n as nat);
    lemma_format_num_digits(n as nat);
    lemma_ascii_bytes_utf8(text);
    encode_utf8_decode_utf8(content);
    encode_utf8_decode_utf8(text);
    lemma_format_then_parse(n);
}

/// A device file that holds nothing, or whitespace alone, reads as
/// [`BLANK_READING`].
pub proof fn lemma_blank_reads_as_one(s: Seq<char>)
    requires
        is_blank(s),
    ensures
        spec_parse_num(s) == Ok::<u32, ParseError>(1),
{
    lemma_strip_everything(s);
}

/// Whether `c` has the Unicode property `White_Space`.
pub fn is_whitespace(c: char) -> (b: bool)
    ensures
        b == spec_is_whitespace(c),
{
    let u: u32 = c as u32;
    (0x09 <= u && u <= 0x0d) || u == 0x20 || u == 0x85 || u == 0xa0 || u == 0x1680 || (0x2000 <= u
        && u <= 0x200a) || u == 0x2028 || u == 0x2029 || u == 0x202f || u == 0x205f || u == 0x3000
}

/// The characters of `s` that are not whitespace, in their order.
pub fn strip_whitespace(s: &str) -> (out: Vec<char>)
    ensures
        out@ == spec_strip_whitespace(s@),
{
    let mut out: Vec<char> = Vec::new();
    for c in it: s.chars()
        invariant
            it.seq() == s@,
            out@ == spec_strip_whitespace(s@.take(it.index())),
    {
        proof {
            assert(s@.take(it.index() + 1) =~= s@.take(it.index()).push(c));
            lemma_strip_push(s@.take(it.index()), c);
        }
        if !is_whitespace(c) {
            out.push(c);
        }
    }
    proof {
        assert(s@.take(s@.len() as int) =~= s@);
    }
    out
}

/// Reads a number from its decimal form: an optional `+`, then digits.
pub fn parse_decimal(text: &[char]) -> (r: Result<u32, ParseError>)
    ensures
        r == spec_parse_u32(text@),
{
    let n = text.len();
    if n == 0 {
        return Err(ParseError::Empty);
    }
    let start: usize = if text[0] == '+' {
        1
    } else {
        0
    };
    if start == n {
        return Err(ParseError::InvalidDigit);
    }
    let ghost digits = unsigned_part(text@);
    let mut acc: u32 = 0;
    let mut i: usize = start;
    while i < n
        invariant
            start <= i <= n,
            n == text@.len(),
            digits == unsigned_part(text@),
            digits.len() == n - start,
            forall|j: int| 0 <= j < digits.len() ==> digits[j] == text@[j + start],
            all_digits(digits.take(i - start)),
            acc == decimal_value(digits.take(i - start)),
        decreases n - i,
    {
        let c = text[i];
        let ghost seen = digits.take(i - start);
        if !('0' <= c && c <= '9') {
            proof {
                lemma_overflow_stops_at_invalid(digits, i - start);
            }
            return Err(ParseError::InvalidDigit);
        }
        let wide: u64 = acc as u64 * 10 + (c as u32 - '0' as u32) as u64;
        proof {
            assert(digits.take(i - start + 1) =~= seen.push(c));
            lemma_decimal_value_push(seen, c);
        }
        if wide > u32::MAX as u64 {
            return Err(ParseError::PosOverflow);
        }
        acc = wide as u32;
        i = i + 1;
    }
    proof {
        assert(digits.take(n - start) =~= digits);
        lemma_fits_without_overflow(digits);
    }
    Ok(acc)
}

/// Reads a number from a text that holds its decimal form and nothing else.
pub fn parse_u32(s: &str) -> (r: Result<u32, ParseError>)
    ensures
        r == spec_parse_u32(s@),
{
    let mut text: Vec<char> = Vec::new();
    for c in it: s.chars()
        invariant
            it.seq() == s@,
            text@ == s@.take(it.index()),
    {
        text.push(c);
    }
    proof {
        assert(s@.take(s@.len() as int) =~= s@);
    }
    parse_decimal(text.as_slice())
}

/// Reads the number that the content of a device file denotes.
///
/// Whitespace is dropped first, wherever it stands. If nothing is left the
/// result is [`BLANK_READING`]; otherwise what is left has to be the
/// decimal form of a 32-bit number.
pub fn parse_num(s: &str) -> (r: Result<u32, ParseError>)
    ensures
        r == spec_parse_num(s@),
        is_blank(s@) ==> r == Ok::<u32, ParseError>(BLANK_READING),
{
    let stripped = strip_whitespace(s);
    proof {
        if is_blank(s@) {
            lemma_strip_everything(s@);
        }
    }
    if stripped.len() == 0 {
        Ok(BLANK_READING)
    } else {
        parse_decimal(stripped.as_slice())
    }
}

/// Appends the decimal digits of `n` to `out`.
fn push_decimal(n: u32, out: &mut Vec<u8>)
    ensures
        final(out)@ == old(out)@ + ascii_bytes(spec_format_num(n as nat)),
    decreases n,
{
    if n >= 10 {
        push_decimal(n / 10, out);
    }
    let digit: u8 = (n % 10) as u8 + 0x30u8;
    out.push(digit);
}

/// The bytes to write to a device file for the number `n`: its decimal
/// digits in ASCII, with no newline after them.
pub fn format_num(n: u32) -> (out: Vec<u8>)
    ensures
        out@ == ascii_bytes(spec_format_num(n as nat)),
        out@ == encode_utf8(spec_format_num(n as nat)),
{
    let mut out: Vec<u8> = Vec::new();
    push_decimal(n, &mut out);
    proof {
        lemma_format_num_digits(n as nat);
        lemma_ascii_bytes_utf8(spec_format_num(n as nat));
        assert(Seq::<u8>::empty() + ascii_bytes(spec_format_num(n as nat)) =~= ascii_bytes(
            spec_format_num(n as nat),
        ));
    }
    out
}

} // verus!
