//! Which encodings the DER reader of the Kerberos messages takes without
//! panicking.
//!
//! The reader (red_asn1) panics in four places: a GeneralizedTime whose
//! digits are no calendar date or time of day (chrono's `ymd` and
//! `and_hms_nano` are called on them); a tag number of three or more
//! octets (a `u8` shifted by 14 bits); an explicitly tagged optional field
//! whose length overruns its data by no more than the field's header (it is
//! compared with the data before the header, then sliced after it); and,
//! where overflow checks are on, a BIT STRING whose count of unused bits is
//! 8 or more and that has a last octet to clear (a `u8` shifted by that
//! count). `asn1_reader_safe` walks every tag-length-value of the input and
//! of each constructed value within it and holds where none of these
//! occurs. Lengths are read as the reader reads them: in a `usize`, whose
//! high octets a long length shifts out. The walk is wider than the
//! reader's path: it also looks into values that a reader of one message
//! type would refuse or skip.

use vstd::prelude::*;
use vstd::arithmetic::div_mod::{lemma_add_mod_noop, lemma_mod_twice, lemma_mul_mod_noop_left, lemma_small_mod};

verus! {

// ───────────────────────── GeneralizedTime ─────────────────────────

/// The byte is an ASCII digit.
pub open spec fn is_digit(b: u8) -> bool {
    48 <= b <= 57
}

/// The value of an ASCII digit.
pub open spec fn digit_value(b: u8) -> int {
    b - 48
}

/// The two bytes at `i` as `u32::from_str` reads them: two digits, or '+'
/// and one digit; `None` where it fails.
pub open spec fn two_digit_field(c: Seq<u8>, i: int) -> Option<int> {
    if is_digit(c[i]) && is_digit(c[i + 1]) {
        Some(10 * digit_value(c[i]) + digit_value(c[i + 1]))
    } else if c[i] == 43 && is_digit(c[i + 1]) {
        Some(digit_value(c[i + 1]))
    } else {
        None
    }
}

/// The first four bytes as `i32::from_str` reads them: four digits, or a
/// sign and three digits; `None` where it fails.
pub open spec fn year_field(c: Seq<u8>) -> Option<int> {
    if is_digit(c[1]) && is_digit(c[2]) && is_digit(c[3]) {
        let low = 100 * digit_value(c[1]) + 10 * digit_value(c[2]) + digit_value(c[3]);
        if is_digit(c[0]) {
            Some(1000 * digit_value(c[0]) + low)
        } else if c[0] == 43 {
            Some(low)
        } else if c[0] == 45 {
            Some(-low)
        } else {
            None
        }
    } else {
        None
    }
}

/// A leap year of the proleptic Gregorian calendar.
pub open spec fn is_leap_year(y: int) -> bool {
    y % 4 == 0 && (y % 100 != 0 || y % 400 == 0)
}

/// The number of days of a month (1 to 12) of a year.
pub open spec fn days_in_month(y: int, m: int) -> int {
    if m == 2 {
        if is_leap_year(y) {
            29
        } else {
            28
        }
    } else if m == 4 || m == 6 || m == 9 || m == 11 {
        30
    } else {
        31
    }
}

/// The GeneralizedTime reader panics on this value: it has the fifteen
/// bytes it needs, its year, month, day, hour, minute and second (and the
/// tenth of a second, from seventeen bytes on) parse as numbers, it ends in
/// 'Z', and they are no calendar date or no time of day.
pub open spec fn time_value_panics(c: Seq<u8>) -> bool {
    &&& c.len() >= 15
    &&& year_field(c) is Some
    &&& two_digit_field(c, 4) is Some
    &&& two_digit_field(c, 6) is Some
    &&& two_digit_field(c, 8) is Some
    &&& two_digit_field(c, 10) is Some
    &&& two_digit_field(c, 12) is Some
    &&& (c.len() >= 17 ==> is_digit(c[15]))
    &&& c[c.len() - 1] == 90
    &&& !{
        let y = year_field(c)->0;
        let mo = two_digit_field(c, 4)->0;
        let d = two_digit_field(c, 6)->0;
        &&& 1 <= mo <= 12
        &&& 1 <= d <= days_in_month(y, mo)
        &&& two_digit_field(c, 8)->0 < 24
        &&& two_digit_field(c, 10)->0 < 60
        &&& two_digit_field(c, 12)->0 < 60
    }
}

fn digit(b: u8) -> (res: Option<u32>)
    ensures
        res is Some <==> is_digit(b),
        res matches Some(v) ==> v == digit_value(b),
{
    if 48 <= b && b <= 57 {
        Some((b - 48) as u32)
    } else {
        None
    }
}

fn two_digits(c: &[u8], i: usize) -> (res: Option<u32>)
    requires
        i + 1 < c@.len(),
    ensures
        two_digit_field(c@, i as int) matches Some(v) ==> res == Some(v as u32),
        two_digit_field(c@, i as int) is None ==> res is None,
{
    match (digit(c[i]), digit(c[i + 1])) {
        (Some(a), Some(b)) => Some(10 * a + b),
        (None, Some(b)) => if c[i] == 43 {
            Some(b)
        } else {
            None
        },
        _ => None,
    }
}

fn year_digits(c: &[u8]) -> (res: Option<i32>)
    requires
        4 <= c@.len(),
    ensures
        year_field(c@) matches Some(v) ==> res == Some(v as i32),
        year_field(c@) is None ==> res is None,
{
    match (digit(c[1]), digit(c[2]), digit(c[3])) {
        (Some(a), Some(b), Some(e)) => {
            let low = (100 * a + 10 * b + e) as i32;
            match digit(c[0]) {
                Some(t) => Some(1000 * (t as i32) + low),
                None => if c[0] == 43 {
                    Some(low)
                } else if c[0] == 45 {
                    Some(-low)
                } else {
                    None
                },
            }
        },
        _ => None,
    }
}

fn month_days(y: i32, m: u32) -> (res: u32)
    requires
        -999 <= y <= 9999,
    ensures
        res == days_in_month(y as int, m as int),
{
    if m == 2 {
        // 10000 is a multiple of 400: the shift keeps every divisibility tested.
        let ya = (y + 10000) as u32;
        assert(ya % 4 == 0 <==> (y as int) % 4 == 0);
        assert(ya % 100 == 0 <==> (y as int) % 100 == 0);
        assert(ya % 400 == 0 <==> (y as int) % 400 == 0);
        if ya % 4 == 0 && (ya % 100 != 0 || ya % 400 == 0) {
            29
        } else {
            28
        }
    } else if m == 4 || m == 6 || m == 9 || m == 11 {
        30
    } else {
        31
    }
}

/// Whether the GeneralizedTime reader panics on this value.
pub fn time_panics(c: &[u8]) -> (res: bool)
    ensures
        res == time_value_panics(c@),
{
    let n = c.len();
    if n < 15 {
        return false;
    }
    let y = match year_digits(c) {
        Some(v) => v,
        None => return false,
    };
    let mo = match two_digits(c, 4) {
        Some(v) => v,
        None => return false,
    };
    let d = match two_digits(c, 6) {
        Some(v) => v,
        None => return false,
    };
    let h = match two_digits(c, 8) {
        Some(v) => v,
        None => return false,
    };
    let mi = match two_digits(c, 10) {
        Some(v) => v,
        None => return false,
    };
    let s = match two_digits(c, 12) {
        Some(v) => v,
        None => return false,
    };
    if n >= 17 && digit(c[15]).is_none() {
        return false;
    }
    if c[n - 1] != 90 {
        return false;
    }
    let valid = 1 <= mo && mo <= 12 && 1 <= d && d <= month_days(y, mo) && h < 24 && mi < 60 && s < 60;
    !valid
}

// ───────────────────────── tags and lengths ─────────────────────────

/// The number of octets of the tag at `p`, the data ending at `end`: 1 in
/// the low-tag form, 2 or 3 in the high-tag form; 0 where the reader finds
/// too few octets (or would read a fourth one).
pub open spec fn tag_octets(d: Seq<u8>, p: int, end: int) -> int {
    if d[p] % 32 != 31 {
        1
    } else if p + 1 >= end {
        0
    } else if d[p + 1] < 128 {
        2
    } else if p + 2 >= end {
        0
    } else if d[p + 2] < 128 {
        3
    } else {
        0
    }
}

/// The tag at `p` has a fourth number octet to read: the reader shifts a
/// `u8` by 14 bits there.
pub open spec fn tag_panics(d: Seq<u8>, p: int, end: int) -> bool {
    d[p] % 32 == 31 && p + 3 < end && d[p + 1] >= 128 && d[p + 2] >= 128
}

/// The tag number the reader computes in a `u8` for a tag of `t` octets.
pub open spec fn tag_number(d: Seq<u8>, p: int, t: int) -> int {
    if t == 1 {
        (d[p] % 32) as int
    } else if t == 2 {
        (d[p + 1] % 128) as int
    } else {
        d[p + 1] % 128 + 128 * (d[p + 2] % 2)
    }
}

/// The tag at `p` is that of a GeneralizedTime: universal, primitive,
/// number 24.
pub open spec fn is_time_tag(d: Seq<u8>, p: int, t: int) -> bool {
    d[p] / 32 == 0 && tag_number(d, p, t) == 24
}

/// The tag at `p` is that of a BIT STRING: universal, primitive, number 3.
pub open spec fn is_bit_string_tag(d: Seq<u8>, p: int, t: int) -> bool {
    d[p] / 32 == 0 && tag_number(d, p, t) == 3
}

/// The tag at `p` is that of a constructed value.
pub open spec fn is_constructed(d: Seq<u8>, p: int) -> bool {
    (d[p] / 32) % 2 == 1
}

/// The value of `k` bytes from `i`, most significant first.
pub open spec fn be_value(d: Seq<u8>, i: int, k: nat) -> nat
    decreases k,
{
    if k == 0 {
        0
    } else {
        (be_value(d, i, (k - 1) as nat) * 256 + d[i + k - 1]) as nat
    }
}

/// The reader takes the values from `p` to `end` without panicking, and
/// every value within each constructed one: at each, the tag does not
/// panic, the length of a
/// context-tagged constructed value within another value (a field) that
/// overruns the data does not stay within the field's header, a
/// GeneralizedTime does not panic, a BIT STRING of two or more octets
/// does not count 8 or more unused bits, and the walk goes on into a constructed
/// value and past the value. Where the reader cannot read a tag or a length,
/// or a length overruns the data, it stops there with an error. `nested`
/// tells whether the values lie within another one.
pub open spec fn tlvs_safe(d: Seq<u8>, p: int, end: int, nested: bool) -> bool
    decreases end - p,
{
    if p < 0 || end > d.len() || p >= end {
        true
    } else if tag_panics(d, p, end) {
        false
    } else if tag_octets(d, p, end) == 0 || p + tag_octets(d, p, end) >= end {
        true
    } else {
        let t = tag_octets(d, p, end);
        let q = p + t;
        let k: int = if d[q] < 128 {
            0
        } else {
            d[q] - 128
        };
        if q + 1 + k > end {
            true
        } else {
            let c = q + 1 + k;
            let len: nat = if d[q] < 128 {
                d[q] as nat
            } else {
                be_value(d, q + 1, k as nat) % (usize::MAX as nat + 1)
            };
            if c + len > end {
                !(nested && d[p] / 32 == 5 && len <= end - p)
            } else {
                &&& (is_time_tag(d, p, t) ==> !time_value_panics(d.subrange(c, c + len)))
                &&& (is_bit_string_tag(d, p, t) && len >= 2 ==> d[c] < 8)
                &&& (is_constructed(d, p) ==> tlvs_safe(d, c, c + len, true))
                &&& tlvs_safe(d, c + len, end, nested)
            }
        }
    }
}

/// The DER reader of the Kerberos messages takes these bytes without
/// panicking.
pub open spec fn asn1_reader_safe(d: Seq<u8>) -> bool {
    tlvs_safe(d, 0, d.len() as int, false)
}

/// The value of `k` bytes from `i`, most significant first, as a `usize`
/// that each step shifts left by eight bits and adds the next byte to.
fn be_bytes(d: &[u8], i: usize, k: usize) -> (res: usize)
    requires
        i + k <= d.len(),
    ensures
        res == be_value(d@, i as int, k as nat) % (usize::MAX as nat + 1),
{
    let ghost m: nat = usize::MAX as nat + 1;
    let mut v: usize = 0;
    let mut j: usize = 0;
    proof {
        lemma_small_mod(0, m);
    }
    while j < k
        invariant
            j <= k,
            i + k <= d.len(),
            m == usize::MAX as nat + 1,
            v == be_value(d@, i as int, j as nat) % m,
        decreases k - j,
    {
        let b = d[i + j];
        let ghost a = be_value(d@, i as int, j as nat);
        proof {
            lemma_mul_mod_noop_left(a as int, 256, m as int);
            lemma_add_mod_noop((a * 256) as int, b as int, m as int);
            lemma_small_mod(b as nat, m);
            lemma_mod_twice(((a % m) * 256) as int, m as int);
        }
        v = v.wrapping_mul(256).wrapping_add(b as usize);
        j = j + 1;
    }
    v
}

fn tlvs_safe_from(d: &[u8], p0: usize, end: usize, nested: bool) -> (res: bool)
    requires
        p0 <= end <= d@.len(),
    ensures
        res == tlvs_safe(d@, p0 as int, end as int, nested),
    decreases end - p0,
{
    let mut p = p0;
    while p < end
        invariant
            p0 <= p <= end <= d@.len(),
            tlvs_safe(d@, p0 as int, end as int, nested) == tlvs_safe(d@, p as int, end as int, nested),
        decreases end - p,
    {
        let b0 = d[p];
        let t: usize;
        let number: u32;
        if b0 % 32 != 31 {
            t = 1;
            number = (b0 % 32) as u32;
        } else {
            if end - p <= 1 {
                return true;
            }
            if d[p + 1] < 128 {
                t = 2;
                number = (d[p + 1] % 128) as u32;
            } else {
                if end - p <= 2 {
                    return true;
                }
                if d[p + 2] < 128 {
                    t = 3;
                    number = (d[p + 1] % 128) as u32 + 128 * (d[p + 2] % 2) as u32;
                } else {
                    return end - p <= 3;
                }
            }
        }
        assert(t as int == tag_octets(d@, p as int, end as int));
        assert(number as int == tag_number(d@, p as int, t as int));
        if end - p <= t {
            return true;
        }
        let q = p + t;
        let lb = d[q];
        let k: usize = if lb < 128 { 0 } else { (lb - 128) as usize };
        if end - q - 1 < k {
            return true;
        }
        let c = q + 1 + k;
        let len: usize = if lb < 128 { lb as usize } else { be_bytes(d, q + 1, k) };
        if len > end - c {
            return !(nested && b0 / 32 == 5 && len <= end - p);
        }
        if b0 / 32 == 0 && number == 24 {
            let value = vstd::slice::slice_subrange(d, c, c + len);
            if time_panics(value) {
                return false;
            }
        }
        if b0 / 32 == 0 && number == 3 && len >= 2 && d[c] >= 8 {
            return false;
        }
        if (b0 / 32) % 2 == 1 {
            if !tlvs_safe_from(d, c, c + len, true) {
                return false;
            }
        }
        p = c + len;
    }
    true
}

/// Whether the DER reader of the Kerberos messages takes these bytes
/// without panicking.
pub fn check_asn1_reader_safe(d: &[u8]) -> (res: bool)
    ensures
        res == asn1_reader_safe(d@),
{
    tlvs_safe_from(d, 0, d.len(), false)
}

} // verus!
