//! Finding the KDC of a realm in an MIT `krb5.ini` / `krb5.conf`: the
//! `kdc = ...` line of the realm's block in the `[realms]` section, and the
//! order in which configuration files are tried.

use vstd::prelude::*;
use vstd::string::{StrSliceExecFns, StringExecFns};
use crate::strs::{
    ascii_ci_eq, eq_ignore_ascii_case, find_char, has_prefix, index_of_first,
    lemma_split_on_nonempty, split_chars, split_on, starts_with, str_eq, trim, trim_char,
    trim_matches_char, trim_ws,
};

verus! {

/// What `str::to_uppercase` returns (Unicode full case mapping).
pub uninterp spec fn uppercase(s: Seq<char>) -> Seq<char>;

/// What `str::to_lowercase` returns (Unicode full case mapping).
pub uninterp spec fn lowercase(s: Seq<char>) -> Seq<char>;

/// Calls `str::to_uppercase`.
#[verifier::external_body]
fn to_upper(s: &str) -> (res: String)
    ensures
        res@ == uppercase(s@),
{
    s.to_uppercase()
}

/// Calls `str::to_lowercase`.
#[verifier::external_body]
fn to_lower(s: &str) -> (res: String)
    ensures
        res@ == lowercase(s@),
{
    s.to_lowercase()
}

/// A trimmed line is a section header: `[` ... `]`.
pub open spec fn is_section_header(line: Seq<char>) -> bool {
    line.len() >= 1 && line[0] == '[' && line.last() == ']'
}

/// The value of a `key = value` line: after the first '=', trimmed, then
/// without surrounding double and then single quotes.
pub open spec fn ini_value(text: Seq<char>, eq: int) -> Seq<char> {
    trim_char(trim_char(trim_ws(text.subrange(eq + 1, text.len() as int)), '"'), '\'')
}

/// The state of the scan: inside `[realms]`, and inside the realm's block.
pub struct IniState {
    pub in_realms: bool,
    pub in_block: bool,
}

/// One line of the scan: the next state, or the KDC value where the line is
/// the `kdc` line of the realm's block.
pub open spec fn ini_step(raw_line: Seq<char>, realm_upper: Seq<char>, st: IniState) -> (IniState, Option<Seq<char>>) {
    let line = trim_ws(raw_line);
    if is_section_header(line) {
        let section = trim_ws(line.subrange(1, line.len() - 1));
        (IniState { in_realms: ascii_ci_eq(section, "realms"@), in_block: false }, None)
    } else if st.in_realms && !st.in_block && has_prefix(uppercase(line), realm_upper + " ="@) {
        (IniState { in_realms: st.in_realms, in_block: true }, None)
    } else if st.in_block {
        let text = trim_ws(split_on(line, '#')[0]);
        let closes = IniState { in_realms: st.in_realms, in_block: line != "}"@ };
        match index_of_first(text, '=') {
            Some(eq) => if lowercase(trim_ws(text.subrange(0, eq))) == "kdc"@ {
                (st, Some(ini_value(text, eq)))
            } else {
                (closes, None)
            },
            None => (closes, None),
        }
    } else {
        (st, None)
    }
}

/// The scan over the lines from a state: the first KDC value found.
pub open spec fn ini_scan(lines: Seq<Seq<char>>, realm_upper: Seq<char>, st: IniState) -> Option<Seq<char>>
    decreases lines.len(),
{
    if lines.len() == 0 {
        None
    } else {
        let (next, found) = ini_step(lines[0], realm_upper, st);
        match found {
            Some(v) => Some(v),
            None => ini_scan(lines.drop_first(), realm_upper, next),
        }
    }
}

/// The KDC that a configuration names for the realm: the value of the first
/// `kdc = ...` line (text after '#' ignored, key compared in lower case) in
/// the block that a `REALM =` line opens (compared in upper case) inside a
/// `[realms]` section (name compared up to ASCII case), a `}` line closing
/// the block. Lines are split at '\n'; a '\r' before it is trimmed with the
/// line.
pub open spec fn krb5_ini_kdc(content: Seq<char>, realm: Seq<char>) -> Option<Seq<char>> {
    ini_scan(split_on(content, '\n'), uppercase(realm), IniState { in_realms: false, in_block: false })
}

fn ini_line(raw_line: &str, realm_upper: &str, in_realms: bool, in_block: bool) -> (res: (bool, bool, Option<String>))
    ensures
        ({
            let (st, found) = ini_step(raw_line@, realm_upper@, IniState { in_realms, in_block });
            &&& res.0 == st.in_realms
            &&& res.1 == st.in_block
            &&& match found {
                Some(v) => res.2 matches Some(s) && s@ == v,
                None => res.2 is None,
            }
        }),
{
    let line = trim(raw_line);
    let n = line.unicode_len();
    if n >= 1 && line.get_char(0) == '[' && line.get_char(n - 1) == ']' {
        let section = trim(line.substring_char(1, n - 1));
        return (eq_ignore_ascii_case(section, "realms"), false, None);
    }
    if in_realms && !in_block {
        let upper = to_upper(line);
        let mut pattern = String::from_str(realm_upper);
        pattern.append(" =");
        if starts_with(upper.as_str(), pattern.as_str()) {
            return (in_realms, true, None);
        }
    }
    if in_block {
        let pieces = split_chars(line, '#');
        proof {
            lemma_split_on_nonempty(line@, '#');
            assert(pieces.deep_view()[0] == pieces@[0]@);
        }
        let text = trim(pieces[0].as_str());
        let closes = !str_eq(line, "}");
        match find_char(text, '=') {
            Some(eq) => {
                let m = text.unicode_len();
                let key = to_lower(trim(text.substring_char(0, eq)));
                if str_eq(key.as_str(), "kdc") {
                    let v = trim_matches_char(
                        trim_matches_char(trim(text.substring_char(eq + 1, m)), '"'),
                        '\'',
                    );
                    return (in_realms, in_block, Some(String::from_str(v)));
                }
                return (in_realms, closes, None);
            },
            None => {
                return (in_realms, closes, None);
            },
        }
    }
    (in_realms, in_block, None)
}

/// The KDC that the configuration text names for the realm (see
/// `krb5_ini_kdc`).
pub fn kdc_from_krb5_ini(content: &str, realm: &str) -> (res: Option<String>)
    ensures
        match krb5_ini_kdc(content@, realm@) {
            Some(v) => res matches Some(s) && s@ == v,
            None => res is None,
        },
{
    let lines = split_chars(content, '\n');
    let realm_upper = to_upper(realm);
    let ghost all = lines.deep_view();
    let mut in_realms = false;
    let mut in_block = false;
    let mut i: usize = 0;
    assert(all.subrange(0, all.len() as int) =~= all);
    while i < lines.len()
        invariant
            all == lines.deep_view(),
            all.len() == lines.len(),
            i <= lines.len(),
            krb5_ini_kdc(content@, realm@) == ini_scan(
                all.subrange(i as int, all.len() as int),
                realm_upper@,
                IniState { in_realms, in_block },
            ),
        decreases lines.len() - i,
    {
        let ghost rest = all.subrange(i as int, all.len() as int);
        assert(rest[0] == lines@[i as int]@);
        assert(rest.drop_first() =~= all.subrange(i + 1, all.len() as int));
        let (r, b, found) = ini_line(lines[i].as_str(), realm_upper.as_str(), in_realms, in_block);
        match found {
            Some(v) => {
                return Some(v);
            },
            None => {},
        }
        in_realms = r;
        in_block = b;
        i = i + 1;
    }
    None
}

/// The configuration files to try for the KDC, in order: the path given,
/// then the one `KRB5_CONFIG` names, then the two default Windows paths.
pub open spec fn krb5_config_candidates(explicit: Option<Seq<char>>, env: Option<Seq<char>>) -> Seq<Seq<char>> {
    let first = match explicit {
        Some(p) => seq![p],
        None => Seq::<Seq<char>>::empty(),
    };
    let second = match env {
        Some(p) => seq![p],
        None => Seq::<Seq<char>>::empty(),
    };
    first + second + seq!["C:\\ProgramData\\MIT\\Kerberos5\\krb5.ini"@, "C:\\MIT\\Kerberos\\krb5.ini"@]
}

/// The configuration files to try for the KDC, in order; `env` is the value
/// of `KRB5_CONFIG` where it is set.
pub fn config_candidates(explicit: Option<&str>, env: Option<&str>) -> (res: Vec<String>)
    ensures
        res.deep_view() == krb5_config_candidates(
            match explicit {
                Some(p) => Some(p@),
                None => None,
            },
            match env {
                Some(p) => Some(p@),
                None => None,
            },
        ),
{
    let mut v: Vec<String> = Vec::new();
    match explicit {
        Some(p) => v.push(String::from_str(p)),
        None => {},
    }
    match env {
        Some(p) => v.push(String::from_str(p)),
        None => {},
    }
    v.push(String::from_str("C:\\ProgramData\\MIT\\Kerberos5\\krb5.ini"));
    v.push(String::from_str("C:\\MIT\\Kerberos\\krb5.ini"));
    let ghost e = match explicit {
        Some(p) => Some(p@),
        None => None::<Seq<char>>,
    };
    let ghost f = match env {
        Some(p) => Some(p@),
        None => None::<Seq<char>>,
    };
    assert(v.deep_view() =~= krb5_config_candidates(e, f));
    v
}

} // verus!
