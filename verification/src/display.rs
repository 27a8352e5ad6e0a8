//! Text shown on the display.

use vstd::prelude::*;

verus! {

/// Whether every byte is ASCII.
pub open spec fn all_ascii(bytes: Seq<u8>) -> bool {
    forall|i: int| 0 <= i < bytes.len() ==> bytes[i] < 128
}

/// The characters that ASCII bytes stand for.
pub open spec fn ascii_chars(bytes: Seq<u8>) -> Seq<char> {
    bytes.map_values(|b: u8| b as char)
}

/// Reads ASCII bytes as a string through `core::str::from_utf8`. ASCII bytes
/// are valid UTF-8, so the call succeeds, and each byte is the character of
/// the same code.
#[verifier::external_body]
fn ascii_str(bytes: &[u8]) -> (s: &str)
    requires
        all_ascii(bytes@),
    ensures
        s@ == ascii_chars(bytes@),
{
    core::str::from_utf8(bytes).unwrap()
}

/// The two bytes that show `n` as two digits: tens, then units.
pub open spec fn two_digit_bytes(n: u8) -> Seq<u8> {
    seq![(48 + n / 10) as u8, (48 + n % 10) as u8]
}

/// Formats `n` as a two-digit string into `buf` and returns it: the tens
/// digit, then the units digit. From 100 on the tens "digit" is the
/// character after `'9'` that `'0' + n / 10` gives.
pub fn two_digit_str(n: u8, buf: &mut [u8; 2]) -> (s: &str)
    ensures
        final(buf)@ == two_digit_bytes(n),
        s@ == ascii_chars(two_digit_bytes(n)),
{
    buf[0] = 48u8 + (n / 10);
    buf[1] = 48u8 + (n % 10);
    assert(buf@ =~= two_digit_bytes(n));
    ascii_str(buf)
}

/// The two characters, read as digits from `'0'`, give `n` back as tens and
/// units, the units being a digit; below 100 both are digits.
pub proof fn lemma_two_digit_decimal(n: u8)
    ensures
        two_digit_bytes(n).len() == 2,
        (two_digit_bytes(n)[0] - 48) * 10 + (two_digit_bytes(n)[1] - 48) == n,
        48 <= two_digit_bytes(n)[1] <= 57,
        48 <= two_digit_bytes(n)[0],
        n < 100 ==> two_digit_bytes(n)[0] <= 57,
{
}

/// The hundreds digit byte of `n` as a `u8` character code: the quotient by
/// 100 is cut to its low eight bits before the offset of `'0'` is added.
pub open spec fn hundreds_byte(n: u16) -> int {
    48 + ((n / 100) as u8)
}

/// The three bytes that show `n` right-aligned in three places: a leading
/// `'0'` in the hundreds place becomes a space, and so does a `'0'` in the
/// tens place that follows such a space.
pub open spec fn three_digit_bytes(n: u16) -> Seq<u8> {
    let first: u8 = if hundreds_byte(n) == 48 {
        32
    } else {
        hundreds_byte(n) as u8
    };
    let tens: u8 = (48 + n % 100 / 10) as u8;
    let second: u8 = if tens == 48 && first == 32 {
        32
    } else {
        tens
    };
    seq![first, second, (48 + n % 10) as u8]
}

/// Below 1000, the three characters are `n` in decimal, right-aligned, with
/// the leading zeros shown as spaces (and `0` itself as a single `'0'`).
pub proof fn lemma_three_digit_right_aligned(n: u16)
    requires
        n < 1000,
    ensures
        three_digit_bytes(n) == seq![
            (if n < 100 { 32 } else { 48 + n / 100 }) as u8,
            (if n < 10 { 32 } else { 48 + n / 10 % 10 }) as u8,
            (48 + n % 10) as u8,
        ],
{
    assert((n / 100) as u8 == n / 100);
}

/// Formats `n` as a three-character, right-aligned number into `buf` and
/// returns it. The hundreds place holds `'0' + (n / 100) as u8`, so `n` must
/// keep that below 128 for the text to be ASCII.
pub fn three_digit_str(n: u16, buf: &mut [u8; 3]) -> (s: &str)
    requires
        ((n / 100) as u8) < 80,
    ensures
        final(buf)@ == three_digit_bytes(n),
        s@ == ascii_chars(three_digit_bytes(n)),
{
    buf[0] = 48u8 + (n / 100) as u8;
    if buf[0] == 48u8 {
        buf[0] = 32u8;
    }
    buf[1] = 48u8 + (n % 100 / 10) as u8;
    if buf[1] == 48u8 && buf[0] == 32u8 {
        buf[1] = 32u8;
    }
    buf[2] = 48u8 + (n % 10) as u8;
    assert(buf@ =~= three_digit_bytes(n));
    ascii_str(buf)
}

} // verus!
