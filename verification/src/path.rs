//! Human-readable numbers, RFC 3339 timestamps, percent-encoding, path
//! shortening and the parsing of git's `.git` and `HEAD` files.

use vstd::prelude::*;
use vstd::string::*;
use vstd::utf8::{
    decode_utf8, encode_utf8, encode_utf8_decode_utf8, encode_utf8_valid_utf8,
    is_char_boundary_iff_not_is_continuation_byte,
};
use crate::text::{
    chars_of, decimal, first_line, last_segment, last_segment_chars, lines, lines_chars,
    owned, push_char, push_chars, push_decimal, push_str, replace_char, replace_char_chars,
    starts_with_chars, string_of, trim, trim_chars,
};

verus! {

// ---------------------------------------------------------------------------
// Human-readable token counts
// ---------------------------------------------------------------------------

/// `n` with one decimal of a million (`M`) or thousand (`K`), truncated, or
/// the plain number below a thousand.
pub open spec fn human_format(n: nat) -> Seq<char> {
    if n >= 1_000_000 {
        decimal(n / 1_000_000) + seq!['.'] + decimal((n % 1_000_000) / 100_000) + seq!['M']
    } else if n >= 1_000 {
        decimal(n / 1_000) + seq!['.'] + decimal((n % 1_000) / 100) + seq!['K']
    } else {
        decimal(n)
    }
}

/// Formats a token count: `1.5M`, `14.8K`, `999`.
pub fn get_human_format(num: u64) -> (r: String)
    ensures
        r@ == human_format(num as nat),
{
    let mut s = String::new();
    if num >= 1_000_000 {
        push_decimal(&mut s, num / 1_000_000);
        push_char(&mut s, '.');
        push_decimal(&mut s, (num % 1_000_000) / 100_000);
        push_char(&mut s, 'M');
    } else if num >= 1_000 {
        push_decimal(&mut s, num / 1_000);
        push_char(&mut s, '.');
        push_decimal(&mut s, (num % 1_000) / 100);
        push_char(&mut s, 'K');
    } else {
        push_decimal(&mut s, num);
    }
    assert(s@ =~= human_format(num as nat));
    s
}

// ---------------------------------------------------------------------------
// Bytes of a string
// ---------------------------------------------------------------------------

/// `str::is_char_boundary` on the bytes of a string: the start, the end, or
/// an index whose byte does not continue a multi-byte character.
pub open spec fn boundary(b: Seq<u8>, i: int) -> bool {
    i == 0 || i == b.len() || (0 < i < b.len() && !(0x80 <= b[i] && b[i] < 0xc0))
}

/// The text cut to its first `k` bytes, as `&s[..k]` (or `String::truncate`)
/// gives it; the whole text when it is no longer than that.
pub open spec fn byte_prefix(s: Seq<char>, k: nat) -> Seq<char> {
    if encode_utf8(s).len() <= k {
        s
    } else {
        decode_utf8(encode_utf8(s).take(k as int))
    }
}

/// Cuts a text to its first `k` bytes; the cut must fall on a character
/// boundary, as `str` slicing requires.
pub fn truncate_bytes(s: &str, k: usize) -> (r: String)
    requires
        encode_utf8(s@).len() <= k || boundary(encode_utf8(s@), k as int),
    ensures
        r@ == byte_prefix(s@, k as nat),
{
    let n = s.as_bytes().len();
    if n <= k {
        return owned(s);
    }
    proof {
        encode_utf8_valid_utf8(s@);
        if k > 0 {
            is_char_boundary_iff_not_is_continuation_byte(encode_utf8(s@), k as int);
        }
    }
    let (head, _tail) = s.split_at(k);
    proof {
        encode_utf8_decode_utf8(head@);
    }
    assert(encode_utf8(s@).subrange(0, k as int) == encode_utf8(s@).take(k as int));
    owned(head)
}

/// Whether a byte is an ASCII digit.
pub open spec fn is_digit_byte(x: u8) -> bool {
    0x30 <= x && x <= 0x39
}

/// The number that a run of ASCII digit bytes spells.
pub open spec fn bytes_value(b: Seq<u8>) -> nat
    decreases b.len(),
{
    if b.len() == 0 {
        0
    } else {
        bytes_value(b.drop_last()) * 10 + (b.last() - 0x30) as nat
    }
}

/// Whether every byte is an ASCII digit.
pub open spec fn all_digit_bytes(b: Seq<u8>) -> bool {
    forall|i: int| 0 <= i < b.len() ==> is_digit_byte(#[trigger] b[i])
}

/// What `str::parse` gives for an unsigned integer on a string with these
/// bytes (an optional `+`, then at least one digit), its width aside.
pub open spec fn parse_unsigned_bytes(b: Seq<u8>) -> Option<nat> {
    let d = if b.len() > 0 && b[0] == 0x2b {
        b.drop_first()
    } else {
        b
    };
    if d.len() > 0 && all_digit_bytes(d) {
        Some(bytes_value(d))
    } else {
        None
    }
}

/// What `str::parse` gives for a signed integer on a string with these bytes
/// (an optional `+` or `-`, then at least one digit), its width aside.
pub open spec fn parse_signed_bytes(b: Seq<u8>) -> Option<int> {
    if b.len() > 0 && b[0] == 0x2d {
        let d = b.drop_first();
        if d.len() > 0 && all_digit_bytes(d) {
            Some(-(bytes_value(d) as int))
        } else {
            None
        }
    } else {
        match parse_unsigned_bytes(b) {
            Some(v) => Some(v as int),
            None => None,
        }
    }
}

proof fn lemma_bytes_value_bound(b: Seq<u8>)
    requires
        all_digit_bytes(b),
    ensures
        bytes_value(b) < pow10(b.len()),
    decreases b.len(),
{
    if b.len() > 0 {
        assert(all_digit_bytes(b.drop_last()));
        lemma_bytes_value_bound(b.drop_last());
        assert(is_digit_byte(b[b.len() - 1]));
    }
}

/// Ten to the power `n`.
pub open spec fn pow10(n: nat) -> nat
    decreases n,
{
    if n == 0 {
        1
    } else {
        10 * pow10((n - 1) as nat)
    }
}

/// Parses the digits of `b[a..e]`.
fn digits_in(b: &[u8], a: usize, e: usize) -> (r: Option<u64>)
    requires
        a <= e <= b@.len(),
        e - a <= 4,
    ensures
        r matches Some(v) ==> a < e && all_digit_bytes(b@.subrange(a as int, e as int)) && v as nat
            == bytes_value(b@.subrange(a as int, e as int)),
        r is None ==> !(a < e && all_digit_bytes(b@.subrange(a as int, e as int))),
{
    let ghost d = b@.subrange(a as int, e as int);
    if a == e {
        return None;
    }
    let mut v: u64 = 0;
    let mut i: usize = a;
    while i < e
        invariant
            a <= i <= e <= b@.len(),
            e - a <= 4,
            d == b@.subrange(a as int, e as int),
            all_digit_bytes(d.take(i - a)),
            v as nat == bytes_value(d.take(i - a)),
            v < pow10((i - a) as nat),
        decreases e - i,
    {
        let x = b[i];
        if !(0x30 <= x && x <= 0x39) {
            assert(d[i - a] == x);
            return None;
        }
        assert(d.take(i - a + 1).drop_last() == d.take(i - a));
        assert(pow10((i - a) as nat) <= 1000) by {
            reveal_with_fuel(pow10, 5);
        }
        v = v * 10 + (x - 0x30) as u64;
        i = i + 1;
        assert(all_digit_bytes(d.take(i - a))) by {
            assert forall|k: int| 0 <= k < d.take(i - a).len() implies is_digit_byte(
                #[trigger] d.take(i - a)[k],
            ) by {
                if k < i - a - 1 {
                    assert(d.take(i - a)[k] == d.take(i - a - 1)[k]);
                }
            }
        }
    }
    assert(d.take(e - a) == d);
    Some(v)
}

/// `str::parse::<u64>` on `b[a..e]`, a run of at most four bytes.
fn parse_unsigned_in(b: &[u8], a: usize, e: usize) -> (r: Option<u64>)
    requires
        a <= e <= b@.len(),
        e - a <= 4,
    ensures
        r matches Some(v) ==> parse_unsigned_bytes(b@.subrange(a as int, e as int)) == Some(
            v as nat,
        ),
        r is None ==> parse_unsigned_bytes(b@.subrange(a as int, e as int)) is None,
{
    let ghost s = b@.subrange(a as int, e as int);
    if a < e && b[a] == 0x2b {
        assert(s.drop_first() == b@.subrange(a + 1, e as int));
        digits_in(b, a + 1, e)
    } else {
        digits_in(b, a, e)
    }
}

/// `str::parse::<i64>` on `b[a..e]`, a run of at most four bytes.
fn parse_signed_in(b: &[u8], a: usize, e: usize) -> (r: Option<i64>)
    requires
        a <= e <= b@.len(),
        e - a <= 4,
    ensures
        r matches Some(v) ==> parse_signed_bytes(b@.subrange(a as int, e as int)) == Some(
            v as int,
        ),
        r is None ==> parse_signed_bytes(b@.subrange(a as int, e as int)) is None,
{
    let ghost s = b@.subrange(a as int, e as int);
    if a < e && b[a] == 0x2d {
        assert(s.drop_first() == b@.subrange(a + 1, e as int));
        match digits_in(b, a + 1, e) {
            Some(v) => {
                proof {
                    lemma_bytes_value_bound(b@.subrange(a + 1, e as int));
                    reveal_with_fuel(pow10, 5);
                }
                Some(-(v as i64))
            },
            None => None,
        }
    } else {
        match parse_unsigned_in(b, a, e) {
            Some(v) => {
                proof {
                    let d = if s.len() > 0 && s[0] == 0x2b {
                        s.drop_first()
                    } else {
                        s
                    };
                    lemma_bytes_value_bound(d);
                    reveal_with_fuel(pow10, 5);
                }
                Some(v as i64)
            },
            None => None,
        }
    }
}

// ---------------------------------------------------------------------------
// RFC 3339 timestamps
// ---------------------------------------------------------------------------

/// The day number of a civil date (days since 1970-01-01), by the
/// proleptic Gregorian calendar with March as the first month of the year.
pub open spec fn civil_days(y: int, m: int, d: int) -> int {
    let y1 = if m <= 2 {
        y - 1
    } else {
        y
    };
    let era = y1 / 400;
    let yoe = y1 % 400;
    let doy = (153 * (m + if m <= 2 {
        9int
    } else {
        -3int
    }) + 2) / 5 + d - 1;
    let doe = yoe * 365 + yoe / 4 - yoe / 100 + doy;
    era * 146097 + doe - 719468
}

/// Whether the day count of `y-m-d` can be computed in unsigned arithmetic:
/// the shifted year, the day of the year and the result are not negative.
pub open spec fn civil_days_defined(y: int, m: int, d: int) -> bool {
    &&& !(y == 0 && m <= 2)
    &&& !(m == 3 && d == 0)
    &&& civil_days(y, m, d) >= 0
}

/// The day number of `y-m-d` (see `civil_days`).
fn days_since_epoch(y: u64, m: u64, d: u64) -> (r: u64)
    requires
        y < 10000,
        m < 100,
        d < 100,
        civil_days_defined(y as int, m as int, d as int),
    ensures
        r as int == civil_days(y as int, m as int, d as int),
        r < 4_000_000,
{
    let y = y - if m <= 2 {
        1
    } else {
        0
    };
    let era = y / 400;
    let y_of_era = y % 400;
    let doy: u64 = if m <= 2 {
        (153 * (m + 9) + 2) / 5 + d - 1
    } else {
        (153 * (m - 3) + 2) / 5 + d - 1
    };
    let doe = y_of_era * 365 + y_of_era / 4 - y_of_era / 100 + doy;
    era * 146097 + doe - 719468
}

/// Where the time-zone part of an RFC 3339 text starts: after the seconds,
/// past any fraction (`.` and digits).
pub open spec fn zone_start(b: Seq<u8>) -> int {
    if b.len() > 19 && b[19] == 0x2e {
        zone_from(b, 19)
    } else {
        19
    }
}

/// The first index at or after `i` whose byte is neither a digit nor `.`.
pub open spec fn zone_from(b: Seq<u8>, i: int) -> int
    decreases b.len() - i,
{
    if i < 0 || i >= b.len() {
        b.len() as int
    } else if is_digit_byte(b[i]) || b[i] == 0x2e {
        zone_from(b, i + 1)
    } else {
        i
    }
}

/// Whether the text has a numeric zone offset (`+hh:mm` or `-hh:mm`) that
/// the parser reads.
pub open spec fn has_offset(b: Seq<u8>) -> bool {
    let t = zone_start(b);
    t < b.len() && (b[t] == 0x2b || b[t] == 0x2d) && b.len() - (t + 1) >= 5
}

/// The offset in seconds east of UTC that the zone part gives.
pub open spec fn offset_secs(b: Seq<u8>) -> int {
    let t = zone_start(b);
    let sign: int = if b[t] == 0x2b {
        1
    } else {
        -1
    };
    let h = match parse_signed_bytes(b.subrange(t + 1, t + 3)) {
        Some(v) => v,
        None => 0,
    };
    let mi = match parse_signed_bytes(b.subrange(t + 4, t + 6)) {
        Some(v) => v,
        None => 0,
    };
    (h * 3600 + mi * 60) * sign
}

/// The field `b[a..e]` as a number, if it parses.
pub open spec fn field(b: Seq<u8>, a: int, e: int) -> Option<nat> {
    parse_unsigned_bytes(b.subrange(a, e))
}

/// Whether all six date and time fields parse.
pub open spec fn fields_parse(b: Seq<u8>) -> bool {
    &&& field(b, 0, 4) is Some
    &&& field(b, 5, 7) is Some
    &&& field(b, 8, 10) is Some
    &&& field(b, 11, 13) is Some
    &&& field(b, 14, 16) is Some
    &&& field(b, 17, 19) is Some
}

/// Whether reading an RFC 3339 text with these bytes fails on a string slice
/// that does not fall on character boundaries, or on a date whose day count
/// is negative. The fields are read in order, and reading stops at the first
/// that does not parse.
pub open spec fn rfc3339_panics(b: Seq<u8>) -> bool {
    b.len() >= 19 && {
        ||| !boundary(b, 4)
        ||| field(b, 0, 4) is Some && (!boundary(b, 5) || !boundary(b, 7))
        ||| field(b, 0, 4) is Some && field(b, 5, 7) is Some && (!boundary(b, 8) || !boundary(
            b,
            10,
        ))
        ||| field(b, 0, 4) is Some && field(b, 5, 7) is Some && field(b, 8, 10) is Some && (
        !boundary(b, 11) || !boundary(b, 13))
        ||| field(b, 0, 4) is Some && field(b, 5, 7) is Some && field(b, 8, 10) is Some && field(
            b,
            11,
            13,
        ) is Some && (!boundary(b, 14) || !boundary(b, 16))
        ||| field(b, 0, 4) is Some && field(b, 5, 7) is Some && field(b, 8, 10) is Some && field(
            b,
            11,
            13,
        ) is Some && field(b, 14, 16) is Some && (!boundary(b, 17) || !boundary(b, 19))
        ||| fields_parse(b) && {
            ||| !civil_days_defined(
                field(b, 0, 4)->0 as int,
                field(b, 5, 7)->0 as int,
                field(b, 8, 10)->0 as int,
            )
            ||| has_offset(b) && {
                let t = zone_start(b);
                !boundary(b, t + 3) || !boundary(b, t + 4) || !boundary(b, t + 6)
            }
        }
    }
}

/// The Unix time that an RFC 3339 text gives: `YYYY-MM-DDTHH:MM:SS`, an
/// optional fraction, and an optional `+hh:mm` / `-hh:mm` offset that is
/// subtracted (the result wrapping below zero). `None` when the text is
/// shorter than 19 bytes or a field does not parse.
pub open spec fn rfc3339_value(b: Seq<u8>) -> Option<u64> {
    if b.len() < 19 || !fields_parse(b) {
        None
    } else {
        let days = civil_days(
            field(b, 0, 4)->0 as int,
            field(b, 5, 7)->0 as int,
            field(b, 8, 10)->0 as int,
        );
        let total = days * 86400 + field(b, 11, 13)->0 * 3600 + field(b, 14, 16)->0 * 60 + field(
            b,
            17,
            19,
        )->0;
        if has_offset(b) {
            let x = total - offset_secs(b);
            Some(
                if x < 0 {
                    (x + 0x1_0000_0000_0000_0000) as u64
                } else {
                    x as u64
                },
            )
        } else {
            Some(total as u64)
        }
    }
}

// ---------------------------------------------------------------------------
// Order of RFC 3339 timestamps
// ---------------------------------------------------------------------------

/// Whether `y` is a Gregorian leap year.
pub open spec fn is_leap_year(y: int) -> bool {
    y % 4 == 0 && (y % 100 != 0 || y % 400 == 0)
}

/// The number of days of month `m` of year `y`.
pub open spec fn days_in_month(y: int, m: int) -> int {
    if m == 2 {
        if is_leap_year(y) {
            29
        } else {
            28
        }
    } else if m == 4 || m == 6 || m == 9 || m == 11 {
        30
    } else {
        31
    }
}

/// Whether `y-m-d` is a calendar date from 1970 to 9999.
pub open spec fn valid_date(y: int, m: int, d: int) -> bool {
    1970 <= y <= 9999 && 1 <= m <= 12 && 1 <= d <= days_in_month(y, m)
}

/// The days of the 400-year era of `y` up to the start of its March year.
spec fn era_days(y: int) -> int {
    (y / 400) * 146097 + (y % 400) * 365 + (y % 400) / 4 - (y % 400) / 100
}

proof fn lemma_era_days_step(y: int)
    requires
        y >= 1,
    ensures
        era_days(y) - era_days(y - 1) == if is_leap_year(y) {
            366int
        } else {
            365int
        },
{
    if y % 400 == 0 {
        assert((y - 1) / 400 == y / 400 - 1);
        assert((y - 1) % 400 == 399);
    } else {
        assert((y - 1) / 400 == y / 400);
        assert((y - 1) % 400 == y % 400 - 1);
        let r = y % 400;
        assert(y % 4 == r % 4);
        assert(y % 100 == r % 100);
        assert(r / 4 - (r - 1) / 4 == if r % 4 == 0 { 1int } else { 0int });
        assert(r / 100 - (r - 1) / 100 == if r % 100 == 0 { 1int } else { 0int });
    }
}

proof fn lemma_month_step(y: int, m: int)
    requires
        y >= 1,
        1 <= m <= 11,
    ensures
        civil_days(y, m + 1, 1) == civil_days(y, m, 1) + days_in_month(y, m),
{
    if m == 2 {
        lemma_era_days_step(y);
        assert(civil_days(y, 3, 1) == era_days(y) - 719468);
        assert(civil_days(y, 2, 1) == era_days(y - 1) + 337 - 719468);
    }
}

proof fn lemma_year_step(y: int)
    requires
        y >= 1,
    ensures
        civil_days(y + 1, 1, 1) == civil_days(y, 12, 1) + 31,
{
}

proof fn lemma_month_start_grows(y: int, m1: int, m2: int)
    requires
        y >= 1,
        1 <= m1 < m2 <= 12,
    ensures
        civil_days(y, m1, 1) + days_in_month(y, m1) <= civil_days(y, m2, 1),
    decreases m2 - m1,
{
    lemma_month_step(y, m1);
    if m1 + 1 < m2 {
        lemma_month_start_grows(y, m1 + 1, m2);
    }
}

proof fn lemma_year_start_grows(y1: int, y2: int)
    requires
        1 <= y1 < y2,
    ensures
        civil_days(y1, 12, 1) + 31 <= civil_days(y2, 1, 1),
    decreases y2 - y1,
{
    lemma_year_step(y1);
    if y1 + 1 < y2 {
        lemma_month_start_grows(y1 + 1, 1, 12);
        lemma_year_start_grows(y1 + 1, y2);
    }
}

/// Later dates have larger day counts.
proof fn lemma_civil_days_order(y1: int, m1: int, d1: int, y2: int, m2: int, d2: int)
    requires
        valid_date(y1, m1, d1),
        valid_date(y2, m2, d2),
        y1 < y2 || (y1 == y2 && m1 < m2) || (y1 == y2 && m1 == m2 && d1 < d2),
    ensures
        civil_days(y1, m1, d1) < civil_days(y2, m2, d2),
{
    if y1 < y2 {
        if m1 < 12 {
            lemma_month_start_grows(y1, m1, 12);
        }
        if m2 > 1 {
            lemma_month_start_grows(y2, 1, m2);
        }
        lemma_year_start_grows(y1, y2);
    } else if m1 < m2 {
        lemma_month_start_grows(y1, m1, m2);
    }
}

/// Whether `a` comes before `b` in byte order: they agree up to some index,
/// where `a` has the smaller byte.
pub open spec fn lex_less(a: Seq<u8>, b: Seq<u8>) -> bool {
    exists|k: int|
        #![trigger a[k], b[k]]
        0 <= k < a.len() && k < b.len() && a[k] < b[k] && forall|j: int|
            0 <= j < k ==> a[j] == b[j]
}

/// The number spelled by the digit bytes `b[a..e]`.
pub open spec fn digits_at(b: Seq<u8>, a: int, e: int) -> nat {
    bytes_value(b.subrange(a, e))
}

/// Whether index `i` of a `YYYY-MM-DDTHH:MM:SSZ` text holds a digit.
pub open spec fn utc_digit_index(i: int) -> bool {
    0 <= i < 19 && i != 4 && i != 7 && i != 10 && i != 13 && i != 16
}

/// Whether the bytes are a `YYYY-MM-DDTHH:MM:SSZ` text of a date-time from
/// 1970 to 9999 with seconds up to 59.
pub open spec fn canonical_utc(b: Seq<u8>) -> bool {
    &&& b.len() == 20
    &&& forall|i: int| utc_digit_index(i) ==> is_digit_byte(#[trigger] b[i])
    &&& b[4] == 0x2d && b[7] == 0x2d && b[10] == 0x54 && b[13] == 0x3a && b[16] == 0x3a
    &&& b[19] == 0x5a
    &&& valid_date(digits_at(b, 0, 4) as int, digits_at(b, 5, 7) as int, digits_at(b, 8, 10) as int)
    &&& digits_at(b, 11, 13) <= 23 && digits_at(b, 14, 16) <= 59 && digits_at(b, 17, 19) <= 59
}

/// The seconds since 1970 of a `YYYY-MM-DDTHH:MM:SSZ` text.
pub open spec fn utc_seconds(b: Seq<u8>) -> int {
    civil_days(digits_at(b, 0, 4) as int, digits_at(b, 5, 7) as int, digits_at(b, 8, 10) as int)
        * 86400 + digits_at(b, 11, 13) * 3600 + digits_at(b, 14, 16) * 60 + digits_at(b, 17, 19)
}

proof fn lemma_bytes_value_lex(s: Seq<u8>, t: Seq<u8>, k: int)
    requires
        s.len() == t.len(),
        all_digit_bytes(s),
        all_digit_bytes(t),
        0 <= k < s.len(),
        s[k] < t[k],
        forall|j: int| 0 <= j < k ==> s[j] == t[j],
    ensures
        bytes_value(s) < bytes_value(t),
    decreases s.len(),
{
    assert(is_digit_byte(s[s.len() - 1]));
    assert(is_digit_byte(t[t.len() - 1]));
    if k == s.len() - 1 {
        assert(s.drop_last() =~= t.drop_last());
    } else {
        assert(all_digit_bytes(s.drop_last()));
        assert(all_digit_bytes(t.drop_last()));
        lemma_bytes_value_lex(s.drop_last(), t.drop_last(), k);
    }
}

proof fn lemma_utc_field(b: Seq<u8>, a: int, e: int)
    requires
        canonical_utc(b),
        0 <= a < e <= 19,
        forall|i: int| a <= i < e ==> utc_digit_index(i),
    ensures
        all_digit_bytes(b.subrange(a, e)),
        field(b, a, e) == Some(digits_at(b, a, e)),
{
    let f = b.subrange(a, e);
    assert forall|i: int| 0 <= i < f.len() implies is_digit_byte(#[trigger] f[i]) by {
        assert(utc_digit_index(a + i));
        assert(f[i] == b[a + i]);
    }
    assert(f[0] != 0x2b);
}

proof fn lemma_utc_value(b: Seq<u8>)
    requires
        canonical_utc(b),
    ensures
        !rfc3339_panics(b),
        0 <= utc_seconds(b) < 0x1_0000_0000_0000_0000,
        rfc3339_value(b) == Some(utc_seconds(b) as u64),
{
    lemma_utc_field(b, 0, 4);
    lemma_utc_field(b, 5, 7);
    lemma_utc_field(b, 8, 10);
    lemma_utc_field(b, 11, 13);
    lemma_utc_field(b, 14, 16);
    lemma_utc_field(b, 17, 19);
    let y = digits_at(b, 0, 4) as int;
    let m = digits_at(b, 5, 7) as int;
    let d = digits_at(b, 8, 10) as int;
    assert(civil_days(1970, 1, 1) == 0);
    if !(y == 1970 && m == 1 && d == 1) {
        lemma_civil_days_order(1970, 1, 1, y, m, d);
    }
    assert(zone_start(b) == 19);
    assert(!has_offset(b));
    assert forall|i: int| 0 <= i <= 20 implies boundary(b, i) by {
        if 0 < i < 20 {
            if utc_digit_index(i) {
                assert(is_digit_byte(b[i]));
            }
        }
    }
}

/// The seconds of a later date-time are larger.
proof fn lemma_utc_seconds_order(b1: Seq<u8>, b2: Seq<u8>)
    requires
        canonical_utc(b1),
        canonical_utc(b2),
        ({
            let (y1, m1, d1) = (digits_at(b1, 0, 4), digits_at(b1, 5, 7), digits_at(b1, 8, 10));
            let (y2, m2, d2) = (digits_at(b2, 0, 4), digits_at(b2, 5, 7), digits_at(b2, 8, 10));
            let (h1, i1, s1) = (digits_at(b1, 11, 13), digits_at(b1, 14, 16), digits_at(b1, 17, 19));
            let (h2, i2, s2) = (digits_at(b2, 11, 13), digits_at(b2, 14, 16), digits_at(b2, 17, 19));
            ||| y1 < y2
            ||| y1 == y2 && m1 < m2
            ||| y1 == y2 && m1 == m2 && d1 < d2
            ||| y1 == y2 && m1 == m2 && d1 == d2 && h1 < h2
            ||| y1 == y2 && m1 == m2 && d1 == d2 && h1 == h2 && i1 < i2
            ||| y1 == y2 && m1 == m2 && d1 == d2 && h1 == h2 && i1 == i2 && s1 < s2
        }),
    ensures
        utc_seconds(b1) < utc_seconds(b2),
{
    let (y1, m1, d1) = (digits_at(b1, 0, 4) as int, digits_at(b1, 5, 7) as int, digits_at(b1, 8, 10) as int);
    let (y2, m2, d2) = (digits_at(b2, 0, 4) as int, digits_at(b2, 5, 7) as int, digits_at(b2, 8, 10) as int);
    if y1 < y2 || (y1 == y2 && m1 < m2) || (y1 == y2 && m1 == m2 && d1 < d2) {
        lemma_civil_days_order(y1, m1, d1, y2, m2, d2);
    }
}

proof fn lemma_lex_field(b1: Seq<u8>, b2: Seq<u8>, a: int, e: int, k: int)
    requires
        canonical_utc(b1),
        canonical_utc(b2),
        0 <= a <= k < e <= 19,
        forall|i: int| a <= i < e ==> utc_digit_index(i),
        b1[k] < b2[k],
        forall|j: int| 0 <= j < k ==> b1[j] == b2[j],
    ensures
        digits_at(b1, a, e) < digits_at(b2, a, e),
{
    lemma_utc_field(b1, a, e);
    lemma_utc_field(b2, a, e);
    lemma_bytes_value_lex(b1.subrange(a, e), b2.subrange(a, e), k - a);
}

proof fn lemma_same_field(b1: Seq<u8>, b2: Seq<u8>, a: int, e: int, k: int)
    requires
        0 <= a <= e <= k <= b1.len(),
        k <= b2.len(),
        forall|j: int| 0 <= j < k ==> b1[j] == b2[j],
    ensures
        digits_at(b1, a, e) == digits_at(b2, a, e),
{
    assert(b1.subrange(a, e) =~= b2.subrange(a, e));
}

proof fn lemma_lex_seconds(b1: Seq<u8>, b2: Seq<u8>)
    requires
        canonical_utc(b1),
        canonical_utc(b2),
        lex_less(b1, b2),
    ensures
        utc_seconds(b1) < utc_seconds(b2),
{
    let k = choose|k: int|
        #![trigger b1[k], b2[k]]
        0 <= k < b1.len() && k < b2.len() && b1[k] < b2[k] && forall|j: int|
            0 <= j < k ==> b1[j] == b2[j];
    assert(k != 4 && k != 7 && k != 10 && k != 13 && k != 16 && k != 19);
    if k < 4 {
        lemma_lex_field(b1, b2, 0, 4, k);
    } else if k < 7 {
        lemma_same_field(b1, b2, 0, 4, k);
        lemma_lex_field(b1, b2, 5, 7, k);
    } else if k < 10 {
        lemma_same_field(b1, b2, 0, 4, k);
        lemma_same_field(b1, b2, 5, 7, k);
        lemma_lex_field(b1, b2, 8, 10, k);
    } else if k < 13 {
        lemma_same_field(b1, b2, 0, 4, k);
        lemma_same_field(b1, b2, 5, 7, k);
        lemma_same_field(b1, b2, 8, 10, k);
        lemma_lex_field(b1, b2, 11, 13, k);
    } else if k < 16 {
        lemma_same_field(b1, b2, 0, 4, k);
        lemma_same_field(b1, b2, 5, 7, k);
        lemma_same_field(b1, b2, 8, 10, k);
        lemma_same_field(b1, b2, 11, 13, k);
        lemma_lex_field(b1, b2, 14, 16, k);
    } else {
        lemma_same_field(b1, b2, 0, 4, k);
        lemma_same_field(b1, b2, 5, 7, k);
        lemma_same_field(b1, b2, 8, 10, k);
        lemma_same_field(b1, b2, 11, 13, k);
        lemma_same_field(b1, b2, 14, 16, k);
        lemma_lex_field(b1, b2, 17, 19, k);
    }
    lemma_utc_seconds_order(b1, b2);
}

proof fn lemma_lex_total(a: Seq<u8>, b: Seq<u8>, i: int)
    requires
        a.len() == b.len(),
        0 <= i <= a.len(),
        forall|j: int| 0 <= j < i ==> a[j] == b[j],
    ensures
        a == b || lex_less(a, b) || lex_less(b, a),
    decreases a.len() - i,
{
    if i == a.len() {
        assert(a =~= b);
    } else if a[i] == b[i] {
        lemma_lex_total(a, b, i + 1);
    } else if a[i] < b[i] {
        assert(lex_less(a, b));
    } else {
        assert(lex_less(b, a));
    }
}

/// For `YYYY-MM-DDTHH:MM:SSZ` texts of date-times from 1970 to 9999, reading
/// never fails, and one text comes before another in byte order exactly
/// when its Unix time is smaller.
pub proof fn law_rfc3339_order(b1: Seq<u8>, b2: Seq<u8>)
    requires
        canonical_utc(b1),
        canonical_utc(b2),
    ensures
        !rfc3339_panics(b1),
        !rfc3339_panics(b2),
        rfc3339_value(b1) is Some,
        rfc3339_value(b2) is Some,
        lex_less(b1, b2) <==> rfc3339_value(b1)->0 < rfc3339_value(b2)->0,
{
    lemma_utc_value(b1);
    lemma_utc_value(b2);
    if lex_less(b1, b2) {
        lemma_lex_seconds(b1, b2);
    }
    if rfc3339_value(b1)->0 < rfc3339_value(b2)->0 && !lex_less(b1, b2) {
        lemma_lex_total(b1, b2, 0);
        if lex_less(b2, b1) {
            lemma_lex_seconds(b2, b1);
        }
    }
}

fn is_boundary(b: &[u8], i: usize) -> (r: bool)
    requires
        i <= b@.len(),
    ensures
        r == boundary(b@, i as int),
{
    i == 0 || i == b.len() || !(0x80 <= b[i] && b[i] < 0xc0)
}

/// The six date and time fields of an RFC 3339 text, read in order: `None`
/// where a slice would not fall on character boundaries, `Some(None)` where a
/// field does not parse.
fn read_fields(b: &[u8]) -> (r: Option<Option<(u64, u64, u64, u64, u64, u64)>>)
    requires
        b@.len() >= 19,
    ensures
        r is None <==> (!boundary(b@, 4) || field(b@, 0, 4) is Some && (!boundary(b@, 5)
            || !boundary(b@, 7)) || field(b@, 0, 4) is Some && field(b@, 5, 7) is Some && (
        !boundary(b@, 8) || !boundary(b@, 10)) || field(b@, 0, 4) is Some && field(b@, 5, 7) is Some
            && field(b@, 8, 10) is Some && (!boundary(b@, 11) || !boundary(b@, 13)) || field(
            b@,
            0,
            4,
        ) is Some && field(b@, 5, 7) is Some && field(b@, 8, 10) is Some && field(b@, 11, 13) is Some
            && (!boundary(b@, 14) || !boundary(b@, 16)) || field(b@, 0, 4) is Some && field(
            b@,
            5,
            7,
        ) is Some && field(b@, 8, 10) is Some && field(b@, 11, 13) is Some && field(b@, 14, 16) is Some
            && (!boundary(b@, 17) || !boundary(b@, 19))),
        r == Some(None::<(u64, u64, u64, u64, u64, u64)>) ==> !fields_parse(b@),
        r matches Some(Some(f)) ==> fields_parse(b@) && f.0 as nat == field(b@, 0, 4)->0
            && f.1 as nat == field(b@, 5, 7)->0 && f.2 as nat == field(b@, 8, 10)->0 && f.3 as nat
            == field(b@, 11, 13)->0 && f.4 as nat == field(b@, 14, 16)->0 && f.5 as nat == field(
            b@,
            17,
            19,
        )->0,
{
    if !is_boundary(b, 4) {
        return None;
    }
    let year = match parse_unsigned_in(b, 0, 4) {
        Some(v) => v,
        None => return Some(None),
    };
    if !is_boundary(b, 5) || !is_boundary(b, 7) {
        return None;
    }
    let month = match parse_unsigned_in(b, 5, 7) {
        Some(v) => v,
        None => return Some(None),
    };
    if !is_boundary(b, 8) || !is_boundary(b, 10) {
        return None;
    }
    let day = match parse_unsigned_in(b, 8, 10) {
        Some(v) => v,
        None => return Some(None),
    };
    if !is_boundary(b, 11) || !is_boundary(b, 13) {
        return None;
    }
    let hour = match parse_unsigned_in(b, 11, 13) {
        Some(v) => v,
        None => return Some(None),
    };
    if !is_boundary(b, 14) || !is_boundary(b, 16) {
        return None;
    }
    let min = match parse_unsigned_in(b, 14, 16) {
        Some(v) => v,
        None => return Some(None),
    };
    if !is_boundary(b, 17) || !is_boundary(b, 19) {
        return None;
    }
    let sec = match parse_unsigned_in(b, 17, 19) {
        Some(v) => v,
        None => return Some(None),
    };
    Some(Some((year, month, day, hour, min, sec)))
}

proof fn lemma_field_small(b: Seq<u8>, a: int, e: int)
    requires
        0 <= a <= e <= b.len(),
        e - a <= 4,
        field(b, a, e) is Some,
    ensures
        field(b, a, e)->0 < pow10((e - a) as nat),
{
    let f = b.subrange(a, e);
    let d = if f.len() > 0 && f[0] == 0x2b {
        f.drop_first()
    } else {
        f
    };
    lemma_bytes_value_bound(d);
    if d.len() < f.len() {
        assert(pow10(d.len()) <= pow10(f.len())) by {
            reveal_with_fuel(pow10, 2);
        }
    }
}

/// The day count of a date, `None` where unsigned arithmetic cannot compute it.
fn day_count(year: u64, month: u64, day: u64) -> (r: Option<u64>)
    requires
        year < 10000,
        month < 100,
        day < 100,
    ensures
        r is None <==> !civil_days_defined(year as int, month as int, day as int),
        r matches Some(v) ==> v as int == civil_days(year as int, month as int, day as int) && v
            < 4_000_000,
{
    if !(year > 0 || month > 2) || (month == 3 && day == 0) {
        return None;
    }
    let y1: u64 = if month <= 2 {
        year - 1
    } else {
        year
    };
    let doy: u64 = if month <= 2 {
        (153 * (month + 9) + 2) / 5 + day - 1
    } else {
        (153 * (month - 3) + 2) / 5 + day - 1
    };
    let yoe = y1 % 400;
    let sum = (y1 / 400) * 146097 + yoe * 365 + yoe / 4 - yoe / 100 + doy;
    if sum < 719468 {
        return None;
    }
    Some(days_since_epoch(year, month, day))
}

/// The index where the zone part starts (see `zone_start`).
fn zone_start_exec(b: &[u8]) -> (t: usize)
    requires
        b@.len() >= 19,
    ensures
        t as int == zone_start(b@),
        19 <= t <= b@.len(),
{
    let n = b.len();
    let mut t: usize = 19;
    if n > 19 && b[19] == 0x2e {
        while t < n && ((0x30 <= b[t] && b[t] <= 0x39) || b[t] == 0x2e)
            invariant
                19 <= t <= n,
                n == b@.len(),
                zone_from(b@, 19) == zone_from(b@, t as int),
            decreases n - t,
        {
            assert(zone_from(b@, t as int) == zone_from(b@, t + 1));
            t = t + 1;
        }
    }
    t
}

/// The zone offset in seconds, `None` where a slice of the zone part would
/// not fall on character boundaries.
fn zone_offset(b: &[u8], t: usize) -> (r: Option<i64>)
    requires
        t as int == zone_start(b@),
        has_offset(b@),
    ensures
        r is None <==> (!boundary(b@, t + 3) || !boundary(b@, t + 4) || !boundary(b@, t + 6)),
        r matches Some(o) ==> o as int == offset_secs(b@) && -400000 <= o <= 400000,
{
    let n = b.len();
    if !is_boundary(b, t + 3) || !is_boundary(b, t + 4) || !is_boundary(b, t + 6) {
        return None;
    }
    let sign: i64 = if b[t] == 0x2b {
        1
    } else {
        -1
    };
    let tz_hour: i64 = match parse_signed_in(b, t + 1, t + 3) {
        Some(v) => v,
        None => 0,
    };
    let tz_min: i64 = match parse_signed_in(b, t + 4, t + 6) {
        Some(v) => v,
        None => 0,
    };
    proof {
        let h = b@.subrange(t + 1, t + 3);
        let m = b@.subrange(t + 4, t + 6);
        if h.len() > 0 && h[0] == 0x2d && all_digit_bytes(h.drop_first()) {
            lemma_bytes_value_bound(h.drop_first());
        }
        if m.len() > 0 && m[0] == 0x2d && all_digit_bytes(m.drop_first()) {
            lemma_bytes_value_bound(m.drop_first());
        }
        let hd = if h.len() > 0 && h[0] == 0x2b {
            h.drop_first()
        } else {
            h
        };
        let md = if m.len() > 0 && m[0] == 0x2b {
            m.drop_first()
        } else {
            m
        };
        if all_digit_bytes(hd) {
            lemma_bytes_value_bound(hd);
        }
        if all_digit_bytes(md) {
            lemma_bytes_value_bound(md);
        }
        reveal_with_fuel(pow10, 3);
    }
    Some((tz_hour * 3600 + tz_min * 60) * sign)
}

/// Reads an RFC 3339 text: `None` where the reading would fail on a bad
/// slice or a negative day count, and otherwise what it gives.
pub fn eval_rfc3339(s: &str) -> (r: Option<Option<u64>>)
    ensures
        r is None <==> rfc3339_panics(s.spec_bytes()),
        r matches Some(v) ==> v == rfc3339_value(s.spec_bytes()),
{
    let b = s.as_bytes();
    let ghost bs = b@;
    let n = b.len();
    if n < 19 {
        return Some(None);
    }
    let (year, month, day, hour, min, sec) = match read_fields(b) {
        None => return None,
        Some(None) => return Some(None),
        Some(Some(f)) => f,
    };
    proof {
        lemma_field_small(bs, 0, 4);
        lemma_field_small(bs, 5, 7);
        lemma_field_small(bs, 8, 10);
        lemma_field_small(bs, 11, 13);
        lemma_field_small(bs, 14, 16);
        lemma_field_small(bs, 17, 19);
        reveal_with_fuel(pow10, 5);
    }
    let days = match day_count(year, month, day) {
        Some(d) => d,
        None => return None,
    };
    let total_secs: u64 = days * 86400 + hour * 3600 + min * 60 + sec;
    let t = zone_start_exec(b);
    if t < n && (b[t] == 0x2b || b[t] == 0x2d) && n - (t + 1) >= 5 {
        let offset = match zone_offset(b, t) {
            Some(o) => o,
            None => return None,
        };
        let x: i64 = total_secs as i64 - offset;
        let v: u64 = if x < 0 {
            (x + 0x7fff_ffff_ffff_ffff + 1) as u64 + 0x8000_0000_0000_0000u64
        } else {
            x as u64
        };
        Some(Some(v))
    } else {
        Some(Some(total_secs))
    }
}

/// Reads an RFC 3339 timestamp as Unix seconds (see `rfc3339_value`).
pub fn parse_rfc3339_to_unix(s: &str) -> (r: Option<u64>)
    requires
        !rfc3339_panics(s.spec_bytes()),
    ensures
        r == rfc3339_value(s.spec_bytes()),
{
    match eval_rfc3339(s) {
        Some(v) => v,
        None => None,
    }
}

// ---------------------------------------------------------------------------
// Percent-encoding for file:// URIs
// ---------------------------------------------------------------------------

/// The bytes that stay as they are: letters, digits and `- _ . ~ / :`.
pub open spec fn is_unreserved(x: u8) -> bool {
    ||| (0x41 <= x && x <= 0x5a)
    ||| (0x61 <= x && x <= 0x7a)
    ||| (0x30 <= x && x <= 0x39)
    ||| x == 0x2d
    ||| x == 0x5f
    ||| x == 0x2e
    ||| x == 0x7e
    ||| x == 0x2f
    ||| x == 0x3a
}

/// An upper-case hexadecimal digit.
pub open spec fn hex_digit(d: nat) -> char {
    if d < 10 {
        (d + 48) as char
    } else {
        (d + 55) as char
    }
}

/// One byte, encoded.
pub open spec fn encode_byte(x: u8) -> Seq<char> {
    if is_unreserved(x) {
        seq![x as char]
    } else {
        seq!['%', hex_digit((x / 16) as nat), hex_digit((x % 16) as nat)]
    }
}

/// The bytes, each kept or written as `%XX`.
pub open spec fn percent_encoded(b: Seq<u8>) -> Seq<char>
    decreases b.len(),
{
    if b.len() == 0 {
        seq![]
    } else {
        percent_encoded(b.drop_last()) + encode_byte(b.last())
    }
}

/// The characters that a percent-encoded text is made of: letters, digits,
/// `- _ . ~ / :` and `%`.
pub open spec fn is_encoded_char(c: char) -> bool {
    ||| ('A' <= c && c <= 'Z')
    ||| ('a' <= c && c <= 'z')
    ||| ('0' <= c && c <= '9')
    ||| c == '-'
    ||| c == '_'
    ||| c == '.'
    ||| c == '~'
    ||| c == '/'
    ||| c == ':'
    ||| c == '%'
}

/// The number of bytes that are written as `%XX`.
pub open spec fn escaped_count(b: Seq<u8>) -> nat
    decreases b.len(),
{
    if b.len() == 0 {
        0
    } else {
        escaped_count(b.drop_last()) + if is_unreserved(b.last()) {
            0nat
        } else {
            1nat
        }
    }
}

/// The value of a hexadecimal digit, in either case.
pub open spec fn hex_value(c: char) -> Option<nat> {
    if '0' <= c && c <= '9' {
        Some((c as nat - 48) as nat)
    } else if 'A' <= c && c <= 'F' {
        Some((c as nat - 55) as nat)
    } else if 'a' <= c && c <= 'f' {
        Some((c as nat - 87) as nat)
    } else {
        None
    }
}

/// Percent-decoding: each `%` with two hexadecimal digits is that byte,
/// any other character its own code.
pub open spec fn percent_decoded(s: Seq<char>) -> Seq<u8>
    decreases s.len(),
{
    if s.len() == 0 {
        seq![]
    } else if s[0] == '%' && s.len() >= 3 && hex_value(s[1]) is Some && hex_value(s[2]) is Some {
        seq![(hex_value(s[1])->0 * 16 + hex_value(s[2])->0) as u8] + percent_decoded(s.skip(3))
    } else {
        seq![s[0] as u8] + percent_decoded(s.skip(1))
    }
}

proof fn lemma_encoded_front(b: Seq<u8>)
    requires
        b.len() > 0,
    ensures
        percent_encoded(b) == encode_byte(b[0]) + percent_encoded(b.skip(1)),
    decreases b.len(),
{
    if b.len() == 1 {
        assert(b.drop_last() =~= seq![]);
        assert(b.skip(1) =~= seq![]);
        assert(percent_encoded(b.skip(1)) =~= seq![]);
        assert(percent_encoded(b) =~= encode_byte(b[0]));
    } else {
        lemma_encoded_front(b.drop_last());
        assert(b.skip(1).drop_last() =~= b.drop_last().skip(1));
        assert(b.skip(1).last() == b.last());
        assert(percent_encoded(b) =~= encode_byte(b[0]) + percent_encoded(b.skip(1)));
    }
}

proof fn lemma_hex_digit_value(d: nat)
    requires
        d < 16,
    ensures
        hex_value(hex_digit(d)) == Some(d),
{
}

proof fn lemma_decode_byte(x: u8, rest: Seq<char>)
    ensures
        percent_decoded(encode_byte(x) + rest) == seq![x] + percent_decoded(rest),
{
    let e = encode_byte(x);
    let s = e + rest;
    if is_unreserved(x) {
        assert(s[0] == x as char);
        assert((x as char) as u8 == x);
        assert(s.skip(1) =~= rest);
    } else {
        lemma_hex_digit_value((x / 16) as nat);
        lemma_hex_digit_value((x % 16) as nat);
        assert(s[0] == '%');
        assert(s[1] == hex_digit((x / 16) as nat));
        assert(s[2] == hex_digit((x % 16) as nat));
        assert(((x / 16) as nat * 16 + (x % 16) as nat) as u8 == x);
        assert(s.skip(3) =~= rest);
    }
}

/// Percent-decoding the encoded bytes gives them back.
pub proof fn law_percent_decoding_undoes_encoding(b: Seq<u8>)
    ensures
        percent_decoded(percent_encoded(b)) == b,
    decreases b.len(),
{
    if b.len() == 0 {
        assert(percent_encoded(b) =~= seq![]);
    } else {
        lemma_encoded_front(b);
        lemma_decode_byte(b[0], percent_encoded(b.skip(1)));
        law_percent_decoding_undoes_encoding(b.skip(1));
        assert(seq![b[0]] + b.skip(1) =~= b);
    }
}

/// The encoded text is made of letters, digits, `- _ . ~ / : %` only, and
/// is longer than the bytes by two characters for each escaped byte.
pub proof fn law_percent_encoding_shape(b: Seq<u8>)
    ensures
        percent_encoded(b).len() == b.len() + 2 * escaped_count(b),
        forall|k: int|
            0 <= k < percent_encoded(b).len() ==> is_encoded_char(#[trigger] percent_encoded(b)[k]),
    decreases b.len(),
{
    if b.len() > 0 {
        law_percent_encoding_shape(b.drop_last());
        let x = b.last();
        let e = encode_byte(x);
        let p = percent_encoded(b.drop_last());
        assert(percent_encoded(b) == p + e);
        if is_unreserved(x) {
            assert(is_encoded_char(x as char));
        } else {
            assert(is_encoded_char(hex_digit((x / 16) as nat)));
            assert(is_encoded_char(hex_digit((x % 16) as nat)));
        }
        assert forall|k: int| 0 <= k < percent_encoded(b).len() implies is_encoded_char(
            #[trigger] percent_encoded(b)[k],
        ) by {
            if k < p.len() {
                assert(percent_encoded(b)[k] == p[k]);
            } else {
                assert(percent_encoded(b)[k] == e[k - p.len()]);
            }
        }
    }
}

fn hex_char(d: u8) -> (c: char)
    requires
        d < 16,
    ensures
        c == hex_digit(d as nat),
{
    if d < 10 {
        (d + 48) as char
    } else {
        (d + 55) as char
    }
}

/// Percent-encodes the UTF-8 bytes of a path for a `file://` URI.
pub fn percent_encode_path(path: &str) -> (r: String)
    ensures
        r@ == percent_encoded(path.spec_bytes()),
{
    let b = path.as_bytes();
    let mut out = String::new();
    let mut i: usize = 0;
    while i < b.len()
        invariant
            i <= b@.len(),
            out@ == percent_encoded(b@.take(i as int)),
        decreases b@.len() - i,
    {
        let x = b[i];
        assert(b@.take(i + 1).drop_last() == b@.take(i as int));
        if (0x41 <= x && x <= 0x5a) || (0x61 <= x && x <= 0x7a) || (0x30 <= x && x <= 0x39) || x
            == 0x2d || x == 0x5f || x == 0x2e || x == 0x7e || x == 0x2f || x == 0x3a {
            push_char(&mut out, x as char);
        } else {
            push_char(&mut out, '%');
            push_char(&mut out, hex_char(x / 16));
            push_char(&mut out, hex_char(x % 16));
        }
        i = i + 1;
        assert(out@ =~= percent_encoded(b@.take(i as int)));
    }
    assert(b@.take(b@.len() as int) == b@);
    out
}

// ---------------------------------------------------------------------------
// Path shortening
// ---------------------------------------------------------------------------

/// The path with `/` separators and the home directory written as `~`.
pub open spec fn display_path(path: Seq<char>, home: Seq<char>) -> Seq<char> {
    let p = replace_char(path, '\\', '/');
    let h = replace_char(home, '\\', '/');
    if h.len() > 0 && h.is_prefix_of(p) {
        seq!['~'] + p.skip(h.len() as int)
    } else {
        p
    }
}

/// The shortened path: the display path, or `.../` and its last component
/// when it is longer than 25 bytes.
pub open spec fn shorten_path(path: Seq<char>, home: Seq<char>) -> Seq<char> {
    let d = display_path(path, home);
    if encode_utf8(d).len() > 25 {
        ".../"@ + last_segment(d, '/')
    } else {
        d
    }
}

/// Shortens a path for display, given the user's home directory (empty
/// when unknown).
pub fn get_shorten_path(path_val: &str, home: &str) -> (r: String)
    ensures
        r@ == shorten_path(path_val@, home@),
{
    let pv = chars_of(path_val);
    let hv = chars_of(home);
    let p = replace_char_chars(&pv, '\\', '/');
    let h = replace_char_chars(&hv, '\\', '/');
    let mut d: Vec<char> = Vec::new();
    if h.len() > 0 && starts_with_chars(&p, &h) {
        d.push('~');
        let mut i: usize = h.len();
        while i < p.len()
            invariant
                h@.len() <= i <= p@.len(),
                d@ == seq!['~'] + p@.subrange(h@.len() as int, i as int),
            decreases p.len() - i,
        {
            d.push(p[i]);
            i = i + 1;
            assert(d@ =~= seq!['~'] + p@.subrange(h@.len() as int, i as int));
        }
    } else {
        d = p;
    }
    assert(d@ =~= display_path(path_val@, home@));
    let ds = string_of(&d);
    if ds.as_str().as_bytes().len() > 25 {
        let mut out = owned(".../");
        let last = last_segment_chars(&d, '/');
        push_chars(&mut out, &last);
        out
    } else {
        ds
    }
}

// ---------------------------------------------------------------------------
// Modification times
// ---------------------------------------------------------------------------

/// The later of two optional times, 0 when neither is known.
pub open spec fn latest_mtime(a: Option<u64>, b: Option<u64>) -> u64 {
    let x: u64 = match a {
        Some(t) => t,
        None => 0,
    };
    match b {
        Some(t) => if t > x {
            t
        } else {
            x
        },
        None => x,
    }
}

/// The last time the credentials were changed, from the modification times
/// of the OAuth token file and of `oauth_creds.json` (0 when neither exists).
pub fn get_configs_last_modified_time(token_mtime: Option<u64>, creds_mtime: Option<u64>) -> (r:
    u64)
    ensures
        r == latest_mtime(token_mtime, creds_mtime),
        token_mtime matches Some(t) ==> t <= r,
        creds_mtime matches Some(t) ==> t <= r,
        r == 0 || Some(r) == token_mtime || Some(r) == creds_mtime,
{
    let mut max_mtime: u64 = 0;
    if let Some(t) = token_mtime {
        if t > max_mtime {
            max_mtime = t;
        }
    }
    if let Some(t) = creds_mtime {
        if t > max_mtime {
            max_mtime = t;
        }
    }
    max_mtime
}

// ---------------------------------------------------------------------------
// git metadata files
// ---------------------------------------------------------------------------

/// What follows `p` when `s` begins with it.
pub open spec fn strip_prefix(s: Seq<char>, p: Seq<char>) -> Option<Seq<char>> {
    if p.is_prefix_of(s) {
        Some(s.skip(p.len() as int))
    } else {
        None
    }
}

/// The directory that a `.git` file points to: its first line, trimmed,
/// must start with `gitdir: `; the rest, trimmed, is the path.
pub open spec fn gitdir_target(content: Seq<char>) -> Option<Seq<char>> {
    match first_line(content) {
        Some(line) => match strip_prefix(trim(line), "gitdir: "@) {
            Some(rest) => Some(trim(rest)),
            None => None,
        },
        None => None,
    }
}

/// The branch that a `HEAD` file names: the trimmed first line without
/// `ref: refs/heads/`, or, for a detached head, its first eight characters.
pub open spec fn head_branch(content: Seq<char>) -> Option<Seq<char>> {
    match first_line(content) {
        Some(line) => {
            let t = trim(line);
            match strip_prefix(t, "ref: refs/heads/"@) {
                Some(rest) => Some(rest),
                None => Some(if t.len() > 8 {
                    t.take(8)
                } else {
                    t
                }),
            }
        },
        None => None,
    }
}

fn strip_prefix_chars(s: &Vec<char>, p: &str) -> (r: Option<Vec<char>>)
    ensures
        r matches Some(v) ==> strip_prefix(s@, p@) == Some(v@),
        r is None ==> strip_prefix(s@, p@) is None,
{
    let pv = chars_of(p);
    if !starts_with_chars(s, &pv) {
        return None;
    }
    let mut out: Vec<char> = Vec::new();
    let mut i: usize = pv.len();
    while i < s.len()
        invariant
            pv@.len() <= i <= s@.len(),
            out@ == s@.subrange(pv@.len() as int, i as int),
        decreases s.len() - i,
    {
        out.push(s[i]);
        i = i + 1;
        assert(out@ =~= s@.subrange(pv@.len() as int, i as int));
    }
    Some(out)
}

fn first_line_chars(content: &str) -> (r: Option<Vec<char>>)
    ensures
        r matches Some(v) ==> first_line(content@) == Some(v@),
        r is None ==> first_line(content@) is None,
{
    let v = chars_of(content);
    let mut ls = lines_chars(&v);
    if ls.len() > 0 {
        Some(ls.swap_remove(0))
    } else {
        None
    }
}

/// Reads the target of a `.git` file (used by worktrees and submodules).
pub fn gitdir_from_file(content: &str) -> (r: Option<String>)
    ensures
        r matches Some(s) ==> gitdir_target(content@) == Some(s@),
        r is None ==> gitdir_target(content@) is None,
{
    let line = match first_line_chars(content) {
        Some(l) => l,
        None => return None,
    };
    let t = trim_chars(&line);
    match strip_prefix_chars(&t, "gitdir: ") {
        Some(rest) => {
            let p = trim_chars(&rest);
            Some(string_of(&p))
        },
        None => None,
    }
}

/// Reads the current branch from the contents of a `HEAD` file.
pub fn branch_from_head(content: &str) -> (r: Option<String>)
    ensures
        r matches Some(s) ==> head_branch(content@) == Some(s@),
        r is None ==> head_branch(content@) is None,
{
    let line = match first_line_chars(content) {
        Some(l) => l,
        None => return None,
    };
    let t = trim_chars(&line);
    match strip_prefix_chars(&t, "ref: refs/heads/") {
        Some(rest) => Some(string_of(&rest)),
        None => {
            let mut out: Vec<char> = Vec::new();
            let mut i: usize = 0;
            while i < t.len() && i < 8
                invariant
                    i <= t@.len(),
                    i <= 8,
                    out@ == t@.take(i as int),
                decreases t.len() - i,
            {
                out.push(t[i]);
                i = i + 1;
                assert(out@ =~= t@.take(i as int));
            }
            assert(out@ =~= if t@.len() > 8 {
                t@.take(8)
            } else {
                t@
            });
            Some(string_of(&out))
        },
    }
}

} // verus!
