//! String slices compared, trimmed and split character by character, as
//! `str`'s `==`, `starts_with`, `trim_start_matches`, `trim` and `split` do.

use vstd::prelude::*;
use vstd::string::{StrSliceExecFns, StringExecFns};
use crate::fmt::join;

verus! {

/// Rust's `char::is_whitespace`: the Unicode White_Space property.
pub open spec fn is_whitespace(c: char) -> bool {
    let u = c as u32;
    (0x09 <= u && u <= 0x0d) || u == 0x20 || u == 0x85 || u == 0xa0 || u == 0x1680 || (0x2000 <= u
        && u <= 0x200a) || u == 0x2028 || u == 0x2029 || u == 0x202f || u == 0x205f || u == 0x3000
}

/// `s` with leading whitespace removed.
pub open spec fn trim_start_ws(s: Seq<char>) -> Seq<char>
    decreases s.len(),
{
    if s.len() > 0 && is_whitespace(s[0]) {
        trim_start_ws(s.drop_first())
    } else {
        s
    }
}

/// `s` with trailing whitespace removed.
pub open spec fn trim_end_ws(s: Seq<char>) -> Seq<char>
    decreases s.len(),
{
    if s.len() > 0 && is_whitespace(s.last()) {
        trim_end_ws(s.drop_last())
    } else {
        s
    }
}

/// `s` with leading and trailing whitespace removed.
pub open spec fn trim_ws(s: Seq<char>) -> Seq<char> {
    trim_end_ws(trim_start_ws(s))
}

/// `s` begins with `p`.
pub open spec fn has_prefix(s: Seq<char>, p: Seq<char>) -> bool {
    p.len() <= s.len() && s.subrange(0, p.len() as int) == p
}

/// `s` with every leading repetition of a non-empty `p` removed.
pub open spec fn trim_prefix_all(s: Seq<char>, p: Seq<char>) -> Seq<char>
    decreases s.len(),
{
    if p.len() > 0 && has_prefix(s, p) {
        trim_prefix_all(s.subrange(p.len() as int, s.len() as int), p)
    } else {
        s
    }
}

pub fn is_ws_char(c: char) -> (res: bool)
    ensures
        res == is_whitespace(c),
{
    let u = c as u32;
    (0x09 <= u && u <= 0x0d) || u == 0x20 || u == 0x85 || u == 0xa0 || u == 0x1680 || (0x2000 <= u
        && u <= 0x200a) || u == 0x2028 || u == 0x2029 || u == 0x202f || u == 0x205f || u == 0x3000
}

/// Whether two strings hold the same characters.
pub fn str_eq(a: &str, b: &str) -> (res: bool)
    ensures
        res == (a@ == b@),
{
    let n = a.unicode_len();
    let m = b.unicode_len();
    if n != m {
        return false;
    }
    let mut i: usize = 0;
    while i < n
        invariant
            n == a@.len(),
            m == b@.len(),
            n == m,
            i <= n,
            forall|j: int| 0 <= j < i ==> a@[j] == b@[j],
        decreases n - i,
    {
        if a.get_char(i) != b.get_char(i) {
            return false;
        }
        i = i + 1;
    }
    assert(a@ =~= b@);
    true
}

/// Whether `s` begins with `p`.
pub fn starts_with(s: &str, p: &str) -> (res: bool)
    ensures
        res == has_prefix(s@, p@),
{
    let n = s.unicode_len();
    let m = p.unicode_len();
    if m > n {
        return false;
    }
    let mut i: usize = 0;
    while i < m
        invariant
            n == s@.len(),
            m == p@.len(),
            m <= n,
            i <= m,
            forall|j: int| 0 <= j < i ==> s@[j] == p@[j],
        decreases m - i,
    {
        if s.get_char(i) != p.get_char(i) {
            assert(s@.subrange(0, m as int)[i as int] != p@[i as int]);
            return false;
        }
        i = i + 1;
    }
    assert(s@.subrange(0, m as int) =~= p@);
    true
}

/// `s` without the leading repetitions of `p` (`str::trim_start_matches`).
pub fn trim_start_matches<'a>(s: &'a str, p: &str) -> (res: &'a str)
    ensures
        res@ == trim_prefix_all(s@, p@),
{
    let m = p.unicode_len();
    if m == 0 {
        return s;
    }
    let mut cur: &'a str = s;
    while starts_with(cur, p)
        invariant
            m == p@.len(),
            m > 0,
            trim_prefix_all(cur@, p@) == trim_prefix_all(s@, p@),
        decreases cur@.len(),
    {
        let n = cur.unicode_len();
        cur = cur.substring_char(m, n);
    }
    cur
}

proof fn lemma_trim_start_step(s: Seq<char>, a: int)
    requires
        0 <= a < s.len(),
        is_whitespace(s[a]),
    ensures
        trim_start_ws(s.subrange(a, s.len() as int)) == trim_start_ws(s.subrange(a + 1, s.len() as int)),
{
    assert(s.subrange(a, s.len() as int).drop_first() =~= s.subrange(a + 1, s.len() as int));
}

proof fn lemma_trim_end_step(s: Seq<char>, b: int)
    requires
        0 < b <= s.len(),
        is_whitespace(s[b - 1]),
    ensures
        trim_end_ws(s.subrange(0, b)) == trim_end_ws(s.subrange(0, b - 1)),
{
    assert(s.subrange(0, b).drop_last() =~= s.subrange(0, b - 1));
}

/// `s` without leading and trailing whitespace (`str::trim`).
pub fn trim<'a>(s: &'a str) -> (res: &'a str)
    ensures
        res@ == trim_ws(s@),
{
    let n = s.unicode_len();
    let mut a: usize = 0;
    assert(s@.subrange(0, n as int) =~= s@);
    while a < n && is_ws_char(s.get_char(a))
        invariant
            n == s@.len(),
            a <= n,
            trim_start_ws(s@) == trim_start_ws(s@.subrange(a as int, n as int)),
        decreases n - a,
    {
        proof {
            lemma_trim_start_step(s@, a as int);
        }
        a = a + 1;
    }
    let t = s.substring_char(a, n);
    assert(trim_start_ws(t@) == t@);
    let ghost ts = t@;
    let k = t.unicode_len();
    let mut b: usize = k;
    assert(ts.subrange(0, k as int) =~= ts);
    while b > 0 && is_ws_char(t.get_char(b - 1))
        invariant
            k == ts.len(),
            ts == t@,
            b <= k,
            trim_end_ws(ts) == trim_end_ws(ts.subrange(0, b as int)),
        decreases b,
    {
        proof {
            lemma_trim_end_step(ts, b as int);
        }
        b = b - 1;
    }
    let r = t.substring_char(0, b);
    assert(trim_end_ws(r@) == r@);
    r
}

/// The pieces of `s` between the occurrences of `sep`, as `str::split`
/// gives them: one more piece than there are separators.
pub open spec fn split_on(s: Seq<char>, sep: char) -> Seq<Seq<char>>
    decreases s.len(),
{
    if s.len() == 0 {
        seq![Seq::<char>::empty()]
    } else {
        let init = split_on(s.drop_last(), sep);
        if s.last() == sep {
            init.push(Seq::<char>::empty())
        } else {
            init.update(init.len() - 1, init.last().push(s.last()))
        }
    }
}

pub proof fn lemma_split_on_nonempty(s: Seq<char>, sep: char)
    ensures
        split_on(s, sep).len() >= 1,
    decreases s.len(),
{
    if s.len() > 0 {
        lemma_split_on_nonempty(s.drop_last(), sep);
    }
}

/// The pieces of `s` between the occurrences of `sep` (`str::split`).
pub fn split_chars(s: &str, sep: char) -> (res: Vec<String>)
    ensures
        res.deep_view() == split_on(s@, sep),
{
    let n = s.unicode_len();
    let mut parts: Vec<String> = Vec::new();
    let mut start: usize = 0;
    let mut i: usize = 0;
    assert(s@.subrange(0, 0) =~= Seq::<char>::empty());
    assert(parts.deep_view().push(s@.subrange(0, 0)) =~= split_on(s@.subrange(0, 0), sep));
    while i < n
        invariant
            n == s@.len(),
            start <= i <= n,
            parts.deep_view().push(s@.subrange(start as int, i as int)) == split_on(
                s@.subrange(0, i as int),
                sep,
            ),
        decreases n - i,
    {
        let c = s.get_char(i);
        let ghost prefix = s@.subrange(0, i + 1);
        let ghost old_parts = parts.deep_view();
        let ghost cur = s@.subrange(start as int, i as int);
        assert(prefix.drop_last() =~= s@.subrange(0, i as int));
        assert(prefix.last() == c);
        if c == sep {
            let piece = String::from_str(s.substring_char(start, i));
            parts.push(piece);
            assert(parts.deep_view() =~= old_parts.push(cur));
            start = i + 1;
            assert(s@.subrange(start as int, i + 1) =~= Seq::<char>::empty());
            assert(parts.deep_view().push(s@.subrange(start as int, i + 1)) =~= old_parts.push(
                cur,
            ).push(Seq::<char>::empty()));
        } else {
            assert(s@.subrange(start as int, i + 1) =~= cur.push(c));
            assert(old_parts.push(cur).update(old_parts.len() as int, cur.push(c)) =~= old_parts.push(
                cur.push(c),
            ));
        }
        i = i + 1;
    }
    let last = String::from_str(s.substring_char(start, n));
    let ghost before = parts.deep_view();
    parts.push(last);
    assert(parts.deep_view() =~= before.push(s@.subrange(start as int, n as int)));
    assert(s@.subrange(0, n as int) =~= s@);
    parts
}

/// `c` with ASCII upper-case letters mapped to lower case
/// (`char::to_ascii_lowercase`).
pub open spec fn ascii_lower(c: char) -> char {
    if 'A' <= c && c <= 'Z' {
        ((c as u32) + 32) as char
    } else {
        c
    }
}

/// `a` and `b` are equal up to ASCII case (`str::eq_ignore_ascii_case`).
pub open spec fn ascii_ci_eq(a: Seq<char>, b: Seq<char>) -> bool {
    a.len() == b.len() && forall|i: int| 0 <= i < a.len() ==> ascii_lower(a[i]) == ascii_lower(b[i])
}

fn ascii_lower_char(c: char) -> (res: char)
    ensures
        res == ascii_lower(c),
{
    if 'A' <= c && c <= 'Z' {
        let u: u32 = (c as u32) + 32;
        assert(0x61 <= u <= 0x7a);
        proof {
            assert(((c as u32) + 32) as char == u as char);
        }
        char_of_ascii(u)
    } else {
        c
    }
}

/// The character of an ASCII lower-case letter's code.
fn char_of_ascii(u: u32) -> (res: char)
    requires
        0x61 <= u <= 0x7a,
    ensures
        res == u as char,
{
    let b: u8 = u as u8;
    b as char
}

/// Whether `a` and `b` are equal up to ASCII case.
pub fn eq_ignore_ascii_case(a: &str, b: &str) -> (res: bool)
    ensures
        res == ascii_ci_eq(a@, b@),
{
    let n = a.unicode_len();
    let m = b.unicode_len();
    if n != m {
        return false;
    }
    let mut i: usize = 0;
    while i < n
        invariant
            n == a@.len(),
            m == b@.len(),
            n == m,
            i <= n,
            forall|j: int| 0 <= j < i ==> ascii_lower(a@[j]) == ascii_lower(b@[j]),
        decreases n - i,
    {
        if ascii_lower_char(a.get_char(i)) != ascii_lower_char(b.get_char(i)) {
            return false;
        }
        i = i + 1;
    }
    true
}

/// `s` with every trailing `c` removed.
pub open spec fn trim_end_char(s: Seq<char>, c: char) -> Seq<char>
    decreases s.len(),
{
    if s.len() > 0 && s.last() == c {
        trim_end_char(s.drop_last(), c)
    } else {
        s
    }
}

/// `s` with every leading and trailing `c` removed (`str::trim_matches`
/// with a character).
pub open spec fn trim_char(s: Seq<char>, c: char) -> Seq<char> {
    trim_end_char(trim_prefix_all(s, seq![c]), c)
}

proof fn lemma_trim_end_char_step(s: Seq<char>, c: char, b: int)
    requires
        0 < b <= s.len(),
        s[b - 1] == c,
    ensures
        trim_end_char(s.subrange(0, b), c) == trim_end_char(s.subrange(0, b - 1), c),
{
    assert(s.subrange(0, b).drop_last() =~= s.subrange(0, b - 1));
}

/// `s` without leading and trailing repetitions of `c`.
pub fn trim_matches_char<'a>(s: &'a str, c: char) -> (res: &'a str)
    ensures
        res@ == trim_char(s@, c),
{
    let n = s.unicode_len();
    let mut a: usize = 0;
    assert(s@.subrange(0, n as int) =~= s@);
    while a < n && s.get_char(a) == c
        invariant
            n == s@.len(),
            a <= n,
            trim_prefix_all(s@, seq![c]) == trim_prefix_all(s@.subrange(a as int, n as int), seq![c]),
        decreases n - a,
    {
        proof {
            let t = s@.subrange(a as int, n as int);
            assert(has_prefix(t, seq![c])) by {
                assert(t.subrange(0, 1) =~= seq![c]);
            }
            assert(t.subrange(1, t.len() as int) =~= s@.subrange(a + 1, n as int));
        }
        a = a + 1;
    }
    let t = s.substring_char(a, n);
    proof {
        if t@.len() > 0 {
            assert(t@.subrange(0, 1)[0] != c);
            assert(!has_prefix(t@, seq![c]));
        }
    }
    let ghost ts = t@;
    let k = t.unicode_len();
    let mut b: usize = k;
    assert(ts.subrange(0, k as int) =~= ts);
    while b > 0 && t.get_char(b - 1) == c
        invariant
            k == ts.len(),
            ts == t@,
            b <= k,
            trim_end_char(ts, c) == trim_end_char(ts.subrange(0, b as int), c),
        decreases b,
    {
        proof {
            lemma_trim_end_char_step(ts, c, b as int);
        }
        b = b - 1;
    }
    let r = t.substring_char(0, b);
    assert(trim_end_char(r@, c) == r@);
    r
}

/// Position `i` holds the first `c` of `s`.
pub open spec fn is_first_index(s: Seq<char>, c: char, i: int) -> bool {
    &&& 0 <= i < s.len()
    &&& s[i] == c
    &&& forall|j: int| 0 <= j < i ==> s[j] != c
}

/// The position of the first `c` in `s`, if any (`str::find` with a
/// character, counted in characters).
pub open spec fn index_of_first(s: Seq<char>, c: char) -> Option<int> {
    if exists|i: int| is_first_index(s, c, i) {
        Some(choose|i: int| is_first_index(s, c, i))
    } else {
        None
    }
}

/// The position of the first `c` in `s`, if any.
pub fn find_char(s: &str, c: char) -> (res: Option<usize>)
    ensures
        match res {
            Some(i) => index_of_first(s@, c) == Some(i as int),
            None => index_of_first(s@, c) is None,
        },
{
    let n = s.unicode_len();
    let mut i: usize = 0;
    while i < n
        invariant
            n == s@.len(),
            i <= n,
            forall|j: int| 0 <= j < i ==> s@[j] != c,
        decreases n - i,
    {
        if s.get_char(i) == c {
            proof {
                assert(is_first_index(s@, c, i as int));
                let k = choose|k: int| is_first_index(s@, c, k);
                assert(is_first_index(s@, c, k));
                if k < i {
                    assert(s@[k] != c);
                } else if k > i {
                    assert(s@[i as int] != c);
                }
            }
            return Some(i);
        }
        i = i + 1;
    }
    proof {
        if exists|k: int| is_first_index(s@, c, k) {
            let k = choose|k: int| is_first_index(s@, c, k);
            assert(s@[k] != c);
        }
    }
    None
}

proof fn lemma_join_push(parts: Seq<Seq<char>>, last: Seq<char>, sep: Seq<char>)
    requires
        parts.len() >= 1,
    ensures
        join(parts.push(last), sep) == join(parts, sep) + sep + last,
{
    assert(parts.push(last).drop_last() =~= parts);
}

proof fn lemma_join_extend_last(parts: Seq<Seq<char>>, c: char, sep: Seq<char>)
    requires
        parts.len() >= 1,
    ensures
        join(parts.update(parts.len() - 1, parts.last().push(c)), sep) == join(parts, sep).push(c),
{
    let u = parts.update(parts.len() - 1, parts.last().push(c));
    if parts.len() == 1 {
        assert(join(u, sep) == u[0]);
    } else {
        assert(u.drop_last() =~= parts.drop_last());
        assert(join(u, sep) == join(parts.drop_last(), sep) + sep + parts.last().push(c));
        assert(join(parts.drop_last(), sep) + sep + parts.last().push(c) =~= (join(parts.drop_last(), sep) + sep
            + parts.last()).push(c));
    }
}

/// Splitting at a character and joining the pieces with it again gives the
/// text back.
pub proof fn law_split_join(s: Seq<char>, sep: char)
    ensures
        join(split_on(s, sep), seq![sep]) == s,
    decreases s.len(),
{
    if s.len() == 0 {
        assert(join(split_on(s, sep), seq![sep]) =~= s);
    } else {
        let init = split_on(s.drop_last(), sep);
        law_split_join(s.drop_last(), sep);
        lemma_split_on_nonempty(s.drop_last(), sep);
        if s.last() == sep {
            lemma_join_push(init, Seq::<char>::empty(), seq![sep]);
            assert(join(init, seq![sep]) + seq![sep] + Seq::<char>::empty() =~= s);
        } else {
            lemma_join_extend_last(init, s.last(), seq![sep]);
            assert(s.drop_last().push(s.last()) =~= s);
        }
    }
}

/// Text without the separator is a single piece.
pub proof fn lemma_split_on_absent(s: Seq<char>, sep: char)
    requires
        forall|i: int| 0 <= i < s.len() ==> s[i] != sep,
    ensures
        split_on(s, sep) == seq![s],
    decreases s.len(),
{
    if s.len() == 0 {
        assert(s =~= Seq::<char>::empty());
        assert(split_on(s, sep) =~= seq![s]);
    } else {
        lemma_split_on_absent(s.drop_last(), sep);
        assert(split_on(s, sep) =~= seq![s.drop_last().push(s.last())]);
        assert(s.drop_last().push(s.last()) =~= s);
    }
}

} // verus!
