//! Text building: decimal and hexadecimal numerals and joined lists, as
//! Rust's `{}` and `{:08x}` formatting writes them.

use vstd::prelude::*;
use vstd::string::StringExecFns;

verus! {

/// The character of a digit value below 16 (lower-case letters above 9).
pub open spec fn digit_char(d: nat) -> char {
    if d < 10 {
        (48 + d) as char
    } else {
        (87 + d) as char
    }
}

/// The decimal numeral of `n`, most significant digit first.
pub open spec fn decimal(n: nat) -> Seq<char>
    decreases n,
{
    if n < 10 {
        seq![digit_char(n)]
    } else {
        decimal(n / 10).push(digit_char(n % 10))
    }
}

/// The decimal numeral of an `i64`, with a leading '-' for negatives.
pub open spec fn decimal_signed(n: int) -> Seq<char> {
    if n < 0 {
        seq!['-'] + decimal((-n) as nat)
    } else {
        decimal(n as nat)
    }
}

/// The last `w` hexadecimal digits of `n`, zero-padded.
pub open spec fn hex_fixed(n: nat, w: nat) -> Seq<char>
    decreases w,
{
    if w == 0 {
        seq![]
    } else {
        hex_fixed(n / 16, (w - 1) as nat).push(digit_char(n % 16))
    }
}

/// `parts` joined with `sep` between consecutive parts.
pub open spec fn join(parts: Seq<Seq<char>>, sep: Seq<char>) -> Seq<char>
    decreases parts.len(),
{
    if parts.len() == 0 {
        seq![]
    } else if parts.len() == 1 {
        parts[0]
    } else {
        join(parts.drop_last(), sep) + sep + parts.last()
    }
}

/// A one-character string for a digit value below 16.
pub fn digit_str(d: u64) -> (res: &'static str)
    requires
        d < 16,
    ensures
        res@ == seq![digit_char(d as nat)],
{
    proof {
        reveal_strlit("0");
        reveal_strlit("1");
        reveal_strlit("2");
        reveal_strlit("3");
        reveal_strlit("4");
        reveal_strlit("5");
        reveal_strlit("6");
        reveal_strlit("7");
        reveal_strlit("8");
        reveal_strlit("9");
        reveal_strlit("a");
        reveal_strlit("b");
        reveal_strlit("c");
        reveal_strlit("d");
        reveal_strlit("e");
        reveal_strlit("f");
    }
    match d {
        0 => "0",
        1 => "1",
        2 => "2",
        3 => "3",
        4 => "4",
        5 => "5",
        6 => "6",
        7 => "7",
        8 => "8",
        9 => "9",
        10 => "a",
        11 => "b",
        12 => "c",
        13 => "d",
        14 => "e",
        _ => "f",
    }
}

/// The decimal numeral of `n`, as `format!("{}", n)` writes it.
pub fn decimal_string(n: u64) -> (res: String)
    ensures
        res@ == decimal(n as nat),
    decreases n,
{
    if n < 10 {
        String::from_str(digit_str(n))
    } else {
        let mut s = decimal_string(n / 10);
        s.append(digit_str(n % 10));
        s
    }
}

/// The decimal numeral of a signed `n`, as `format!("{}", n)` writes it.
pub fn decimal_string_signed(n: i64) -> (res: String)
    ensures
        res@ == decimal_signed(n as int),
{
    proof {
        reveal_strlit("-");
    }
    if n < 0 {
        let m: u64 = if n == i64::MIN { 9223372036854775808u64 } else { (-n) as u64 };
        let mut s = String::from_str("-");
        let d = decimal_string(m);
        s.append(d.as_str());
        s
    } else {
        decimal_string(n as u64)
    }
}

/// The last `w` hexadecimal digits of `n`, zero-padded, lower case.
pub fn hex_fixed_string(n: u64, w: u64) -> (res: String)
    ensures
        res@ == hex_fixed(n as nat, w as nat),
    decreases w,
{
    if w == 0 {
        String::new()
    } else {
        let mut s = hex_fixed_string(n / 16, w - 1);
        s.append(digit_str(n % 16));
        s
    }
}

/// `parts` joined with `sep`.
pub fn join_strings(parts: &Vec<String>, sep: &str) -> (res: String)
    ensures
        res@ == join(parts.deep_view(), sep@),
{
    let mut res = String::new();
    let ghost dv = parts.deep_view();
    let mut i: usize = 0;
    while i < parts.len()
        invariant
            i <= dv.len(),
            dv == parts.deep_view(),
            res@ == join(dv.take(i as int), sep@),
        decreases dv.len() - i,
    {
        if i != 0 {
            res.append(sep);
        }
        res.append(parts[i].as_str());
        proof {
            let t = dv.take(i + 1);
            assert(t.drop_last() =~= dv.take(i as int));
            if i == 0 {
                assert(join(dv.take(0), sep@) =~= seq![]);
                assert(t.len() == 1);
            }
        }
        i = i + 1;
        assert(res@ =~= join(dv.take(i as int), sep@));
    }
    assert(dv.take(dv.len() as int) =~= dv);
    res
}

} // verus!
