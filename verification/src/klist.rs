//! The text `klist` shows for a credential cache: principals, encryption
//! types, ticket flags and times, and the choice of the cache to list.

use vstd::prelude::*;
use vstd::string::StringExecFns;
use crate::constants::{
    AES128_CTS_HMAC_SHA1_96, AES256_CTS_HMAC_SHA1_96, DES_CBC_CRC, DES_CBC_MD5, NO_ENCRYPTION,
    RC4_HMAC, RC4_HMAC_EXP,
};
use crate::fmt::{
    decimal, decimal_signed, decimal_string, decimal_string_signed, hex_fixed, hex_fixed_string,
    join, join_strings,
};
use crate::text::{text_from_bytes, text_of};
use crate::strs::{str_eq, trim, trim_prefix_all, trim_start_matches, trim_ws};
use vstd::string::StrSliceExecFns;
use chrono::TimeZone;

verus! {

// ───────────────────────── encryption types ─────────────────────────

/// The name `klist` gives an encryption type.
pub open spec fn etype_name(e: int) -> Seq<char> {
    if e == AES256_CTS_HMAC_SHA1_96 {
        "aes256-cts-hmac-sha1-96"@
    } else if e == AES128_CTS_HMAC_SHA1_96 {
        "aes128-cts-hmac-sha1-96"@
    } else if e == DES_CBC_CRC {
        "des-cbc-crc"@
    } else if e == DES_CBC_MD5 {
        "des-cbc-md5"@
    } else if e == RC4_HMAC {
        "arcfour-hmac"@
    } else if e == RC4_HMAC_EXP {
        "arcfour-hmac-exp"@
    } else if e == NO_ENCRYPTION {
        "null"@
    } else {
        "etype("@ + decimal_signed(e) + ")"@
    }
}

/// The encryption type shown for a key: its etype, or its keytype where the
/// etype is 0.
pub open spec fn shown_etype(etype: u16, keytype_fallback: u16) -> int {
    if etype != 0 {
        etype as int
    } else {
        keytype_fallback as int
    }
}

/// Formats an encryption type; the keytype stands in when the etype is 0.
pub fn fmt_etype(etype: u16, keytype_fallback: u16) -> (res: String)
    ensures
        res@ == etype_name(shown_etype(etype, keytype_fallback)),
{
    let e: i32 = if etype != 0 { etype as i32 } else { keytype_fallback as i32 };
    if e == AES256_CTS_HMAC_SHA1_96 {
        String::from_str("aes256-cts-hmac-sha1-96")
    } else if e == AES128_CTS_HMAC_SHA1_96 {
        String::from_str("aes128-cts-hmac-sha1-96")
    } else if e == DES_CBC_CRC {
        String::from_str("des-cbc-crc")
    } else if e == DES_CBC_MD5 {
        String::from_str("des-cbc-md5")
    } else if e == RC4_HMAC {
        String::from_str("arcfour-hmac")
    } else if e == RC4_HMAC_EXP {
        String::from_str("arcfour-hmac-exp")
    } else if e == NO_ENCRYPTION {
        String::from_str("null")
    } else {
        let mut s = String::from_str("etype(");
        let d = decimal_string_signed(e as i64);
        s.append(d.as_str());
        s.append(")");
        s
    }
}

// ───────────────────────── ticket flags ─────────────────────────

/// The ticket flags `klist` names (RFC 4120 5.3.1), in the order shown.
pub open spec fn flag_table() -> Seq<(u32, Seq<char>)> {
    seq![
        (0x40000000u32, "Forwardable"@),
        (0x20000000u32, "Forwarded"@),
        (0x10000000u32, "Proxiable"@),
        (0x08000000u32, "Proxy"@),
        (0x04000000u32, "May-postdate"@),
        (0x02000000u32, "Postdated"@),
        (0x01000000u32, "Invalid"@),
        (0x00800000u32, "Renewable"@),
        (0x00400000u32, "Initial"@),
        (0x00200000u32, "Pre-authent"@),
        (0x00100000u32, "HW-Authent"@),
        (0x00080000u32, "Transited-policy-checked"@),
        (0x00040000u32, "OK-As-Delegate"@),
        (0x00020000u32, "Anonymous"@),
        (0x00010000u32, "Name-canonicalize"@),
    ]
}

/// The names of the flags among the first `k` of the table that `flags` sets.
pub open spec fn flag_names(flags: u32, k: nat) -> Seq<Seq<char>>
    decreases k,
{
    if k == 0 {
        seq![]
    } else {
        let prev = flag_names(flags, (k - 1) as nat);
        if flags & flag_table()[k - 1].0 != 0 {
            prev.push(flag_table()[k - 1].1)
        } else {
            prev
        }
    }
}

/// The flags as `klist` shows them: the set flags' names joined with ", ",
/// or `0x` and eight hex digits when none of them is set.
pub open spec fn flags_text(flags: u32) -> Seq<char> {
    let names = flag_names(flags, 15);
    if names.len() == 0 {
        "0x"@ + hex_fixed(flags as nat, 8)
    } else {
        join(names, ", "@)
    }
}

/// Every flag of the table is one bit: bit 30 - i for entry i.
proof fn lemma_flag_table_bits(i: int)
    requires
        0 <= i < 15,
    ensures
        flag_table()[i].0 == 1u32 << ((30 - i) as u32),
{
    assert(1u32 << 30u32 == 0x40000000u32 && 1u32 << 29u32 == 0x20000000u32 && 1u32 << 28u32 == 0x10000000u32
        && 1u32 << 27u32 == 0x08000000u32 && 1u32 << 26u32 == 0x04000000u32 && 1u32 << 25u32 == 0x02000000u32
        && 1u32 << 24u32 == 0x01000000u32 && 1u32 << 23u32 == 0x00800000u32 && 1u32 << 22u32 == 0x00400000u32
        && 1u32 << 21u32 == 0x00200000u32 && 1u32 << 20u32 == 0x00100000u32 && 1u32 << 19u32 == 0x00080000u32
        && 1u32 << 18u32 == 0x00040000u32 && 1u32 << 17u32 == 0x00020000u32 && 1u32 << 16u32 == 0x00010000u32)
        by (bit_vector);
}

/// The flags set in a value holding entry `i`'s bit alone are entry `i`.
proof fn lemma_flag_names_single(i: int, k: nat)
    requires
        0 <= i < 15,
        k <= 15,
    ensures
        flag_names(flag_table()[i].0, k) == (if k > i {
            seq![flag_table()[i].1]
        } else {
            Seq::<Seq<char>>::empty()
        }),
    decreases k,
{
    if k > 0 {
        lemma_flag_names_single(i, (k - 1) as nat);
        let j = k - 1;
        lemma_flag_table_bits(i);
        lemma_flag_table_bits(j);
        let a = (30 - i) as u32;
        let b = (30 - j) as u32;
        assert(((1u32 << a) & (1u32 << b) != 0) == (a == b)) by (bit_vector)
            requires
                a < 32,
                b < 32,
        ;
        if k - 1 == i {
            assert(seq![].push(flag_table()[i].1) =~= seq![flag_table()[i].1]);
        }
    }
}

/// Law: a ticket flag set alone is shown by its own RFC 4120 name.
pub proof fn law_single_flag_names()
    ensures
        flags_text(0x40000000) == "Forwardable"@,
        flags_text(0x20000000) == "Forwarded"@,
        flags_text(0x10000000) == "Proxiable"@,
        flags_text(0x08000000) == "Proxy"@,
        flags_text(0x04000000) == "May-postdate"@,
        flags_text(0x02000000) == "Postdated"@,
        flags_text(0x01000000) == "Invalid"@,
        flags_text(0x00800000) == "Renewable"@,
        flags_text(0x00400000) == "Initial"@,
        flags_text(0x00200000) == "Pre-authent"@,
        flags_text(0x00100000) == "HW-Authent"@,
        flags_text(0x00080000) == "Transited-policy-checked"@,
        flags_text(0x00040000) == "OK-As-Delegate"@,
        flags_text(0x00020000) == "Anonymous"@,
        flags_text(0x00010000) == "Name-canonicalize"@,
{
    assert forall|i: int| 0 <= i < 15 implies #[trigger] flags_text(flag_table()[i].0) == flag_table()[i].1 by {
        lemma_flag_names_single(i, 15);
    }
    assert(flags_text(flag_table()[0].0) == flag_table()[0].1);
    assert(flags_text(flag_table()[1].0) == flag_table()[1].1);
    assert(flags_text(flag_table()[2].0) == flag_table()[2].1);
    assert(flags_text(flag_table()[3].0) == flag_table()[3].1);
    assert(flags_text(flag_table()[4].0) == flag_table()[4].1);
    assert(flags_text(flag_table()[5].0) == flag_table()[5].1);
    assert(flags_text(flag_table()[6].0) == flag_table()[6].1);
    assert(flags_text(flag_table()[7].0) == flag_table()[7].1);
    assert(flags_text(flag_table()[8].0) == flag_table()[8].1);
    assert(flags_text(flag_table()[9].0) == flag_table()[9].1);
    assert(flags_text(flag_table()[10].0) == flag_table()[10].1);
    assert(flags_text(flag_table()[11].0) == flag_table()[11].1);
    assert(flags_text(flag_table()[12].0) == flag_table()[12].1);
    assert(flags_text(flag_table()[13].0) == flag_table()[13].1);
    assert(flags_text(flag_table()[14].0) == flag_table()[14].1);
}

fn flag_entry(i: usize) -> (res: (u32, &'static str))
    requires
        i < 15,
    ensures
        res.0 == flag_table()[i as int].0,
        res.1@ == flag_table()[i as int].1,
{
    match i {
        0 => (0x40000000, "Forwardable"),
        1 => (0x20000000, "Forwarded"),
        2 => (0x10000000, "Proxiable"),
        3 => (0x08000000, "Proxy"),
        4 => (0x04000000, "May-postdate"),
        5 => (0x02000000, "Postdated"),
        6 => (0x01000000, "Invalid"),
        7 => (0x00800000, "Renewable"),
        8 => (0x00400000, "Initial"),
        9 => (0x00200000, "Pre-authent"),
        10 => (0x00100000, "HW-Authent"),
        11 => (0x00080000, "Transited-policy-checked"),
        12 => (0x00040000, "OK-As-Delegate"),
        13 => (0x00020000, "Anonymous"),
        _ => (0x00010000, "Name-canonicalize"),
    }
}

/// Formats ticket flags.
pub fn fmt_flags(flags: u32) -> (res: String)
    ensures
        res@ == flags_text(flags),
{
    let mut parts: Vec<String> = Vec::new();
    let mut i: usize = 0;
    while i < 15
        invariant
            i <= 15,
            parts.deep_view() =~= flag_names(flags, i as nat),
        decreases 15 - i,
    {
        let (mask, name) = flag_entry(i);
        if flags & mask != 0 {
            let ghost prev = parts.deep_view();
            parts.push(String::from_str(name));
            assert(parts.deep_view() =~= prev.push(name@));
        }
        i = i + 1;
    }
    if parts.len() == 0 {
        let mut s = String::from_str("0x");
        let h = hex_fixed_string(flags as u64, 8);
        s.append(h.as_str());
        s
    } else {
        join_strings(&parts, ", ")
    }
}

// ───────────────────────── principals ─────────────────────────

/// A principal as `klist` reads it from a cache: realm and components.
#[derive(Debug, Clone, PartialEq, Eq)]
pub struct ListedPrincipal {
    pub realm: Vec<u8>,
    pub components: Vec<Vec<u8>>,
}

/// A principal as `klist` shows it: `comp1/comp2@REALM`, or the realm alone
/// when there is no component.
pub open spec fn principal_text(realm: Seq<u8>, components: Seq<Seq<u8>>) -> Seq<char> {
    if components.len() == 0 {
        text_of(realm)
    } else {
        join(Seq::new(components.len(), |i: int| text_of(components[i])), "/"@) + "@"@ + text_of(realm)
    }
}

/// Formats a principal.
pub fn fmt_principal(realm: &[u8], components: &[Vec<u8>]) -> (res: String)
    ensures
        res@ == principal_text(realm@, Seq::new(components@.len(), |i: int| components@[i]@)),
{
    let realm_str = text_from_bytes(realm);
    let ghost cs = Seq::new(components@.len(), |i: int| components@[i]@);
    if components.len() == 0 {
        realm_str
    } else {
        let mut parts: Vec<String> = Vec::new();
        let mut i: usize = 0;
        while i < components.len()
            invariant
                i <= components@.len(),
                cs == Seq::new(components@.len(), |i: int| components@[i]@),
                parts.deep_view() =~= Seq::new(i as nat, |j: int| text_of(cs[j])),
            decreases components@.len() - i,
        {
            let s = text_from_bytes(components[i].as_slice());
            let ghost prev = parts.deep_view();
            parts.push(s);
            assert(parts.deep_view() =~= prev.push(s@));
            i = i + 1;
        }
        let mut res = join_strings(&parts, "/");
        res.append("@");
        res.append(realm_str.as_str());
        res
    }
}

// ───────────────────────── times ─────────────────────────

/// What `chrono` writes for a Unix time with `Utc.timestamp_opt(secs, 0)`
/// and the format `%Y-%m-%d %H:%M:%S`, or `None` where the time is out of
/// chrono's range.
pub uninterp spec fn utc_datetime_text(secs: i64) -> Option<Seq<char>>;

/// Calls `chrono::Utc.timestamp_opt(secs, 0)` and formats the date and time
/// as `%Y-%m-%d %H:%M:%S` (UTC; no locale or time zone enters).
#[verifier::external_body]
fn utc_time_text(secs: i64) -> (res: Option<String>)
    ensures
        match res {
            Some(s) => utc_datetime_text(secs) == Some(s@),
            None => utc_datetime_text(secs) is None,
        },
{
    chrono::Utc.timestamp_opt(secs, 0).single().map(|dt| dt.format("%Y-%m-%d %H:%M:%S").to_string())
}

/// A cache time as `klist` shows it: `--` for 0, the UTC date and time
/// otherwise.
pub open spec fn time_text(ts: u32) -> Seq<char> {
    if ts == 0 {
        "--"@
    } else {
        match utc_datetime_text(ts as i64) {
            Some(s) => s,
            None => "<invalid: "@ + decimal(ts as nat) + ">"@,
        }
    }
}

/// Formats a cache time.
pub fn fmt_time(ts: u32) -> (res: String)
    ensures
        res@ == time_text(ts),
{
    if ts == 0 {
        return String::from_str("--");
    }
    match utc_time_text(ts as i64) {
        Some(s) => s,
        None => {
            let mut s = String::from_str("<invalid: ");
            let d = decimal_string(ts as u64);
            s.append(d.as_str());
            s.append(">");
            s
        },
    }
}


// ───────────────────────── the listing ─────────────────────────

pub struct ListedPrincipalView {
    pub realm: Seq<u8>,
    pub components: Seq<Seq<u8>>,
}

impl View for ListedPrincipal {
    type V = ListedPrincipalView;

    open spec fn view(&self) -> ListedPrincipalView {
        ListedPrincipalView {
            realm: self.realm@,
            components: Seq::new(self.components@.len(), |i: int| self.components@[i]@),
        }
    }
}

/// A credential as `klist` reads it from a cache.
#[derive(Debug, Clone, PartialEq, Eq)]
pub struct ListedCredential {
    pub client: ListedPrincipal,
    pub server: ListedPrincipal,
    pub keytype: u16,
    pub etype: u16,
    pub tktflags: u32,
    pub authtime: u32,
    pub starttime: u32,
    pub endtime: u32,
    pub renew_till: u32,
}

pub struct ListedCredentialView {
    pub client: ListedPrincipalView,
    pub server: ListedPrincipalView,
    pub keytype: u16,
    pub etype: u16,
    pub tktflags: u32,
    pub authtime: u32,
    pub starttime: u32,
    pub endtime: u32,
    pub renew_till: u32,
}

impl View for ListedCredential {
    type V = ListedCredentialView;

    open spec fn view(&self) -> ListedCredentialView {
        ListedCredentialView {
            client: self.client@,
            server: self.server@,
            keytype: self.keytype,
            etype: self.etype,
            tktflags: self.tktflags,
            authtime: self.authtime,
            starttime: self.starttime,
            endtime: self.endtime,
            renew_till: self.renew_till,
        }
    }
}

/// A credential cache as `klist` reads it.
#[derive(Debug, Clone, PartialEq, Eq)]
pub struct CacheListing {
    pub primary_principal: ListedPrincipal,
    pub credentials: Vec<ListedCredential>,
}

pub struct CacheListingView {
    pub primary_principal: ListedPrincipalView,
    pub credentials: Seq<ListedCredentialView>,
}

impl View for CacheListing {
    type V = CacheListingView;

    open spec fn view(&self) -> CacheListingView {
        CacheListingView {
            primary_principal: self.primary_principal@,
            credentials: Seq::new(self.credentials@.len(), |i: int| self.credentials@[i]@),
        }
    }
}

/// What `kerberos_ccache::CCache::parse` reads from a cache file, or `None`
/// where it reports an error.
pub uninterp spec fn kerberos_ccache_listing(raw: Seq<u8>) -> Option<CacheListingView>;

/// Calls `kerberos_ccache::CCache::parse` and keeps the principals, key
/// types, flags and times of the cache. Its reader reserves room for as
/// many components, addresses and authorization-data entries as a count
/// field announces before reading them; where the machine cannot provide
/// that memory the allocation fails, which depends on the machine and is
/// not excluded here. The error is the reader's, as `Debug` writes it.
#[verifier::external_body]
fn parse_cache_listing(raw: &[u8]) -> (res: Result<CacheListing, String>)
    ensures
        match res {
            Ok(l) => kerberos_ccache_listing(raw@) == Some(l@),
            Err(_) => kerberos_ccache_listing(raw@) is None,
        },
{
    let p = |p: kerberos_ccache::Principal| ListedPrincipal {
        realm: p.realm.data, components: p.components.into_iter().map(|x| x.data).collect() };
    kerberos_ccache::CCache::parse(raw).map_err(|e| format!("{:?}", e)).map(|(_, c)| CacheListing {
        primary_principal: p(c.primary_principal),
        credentials: c.credentials.into_iter().map(|k| ListedCredential {
            client: p(k.client), server: p(k.server), keytype: k.key.keytype, etype: k.key.etype,
            tktflags: k.tktflags, authtime: k.time.authtime, starttime: k.time.starttime,
            endtime: k.time.endtime, renew_till: k.time.renew_till }).collect() })
}

/// The position of a credential, right-aligned in two columns.
pub open spec fn index_text(idx: nat) -> Seq<char> {
    if idx < 10 {
        " "@ + decimal(idx)
    } else {
        decimal(idx)
    }
}

/// The line showing the encryption type, with the raw numbers when asked.
pub open spec fn etype_line(c: ListedCredentialView, detail: bool) -> Seq<char> {
    if detail {
        "    EType:  "@ + etype_name(shown_etype(c.etype, c.keytype)) + "  (keytype="@ + decimal(
            c.keytype as nat,
        ) + ", etype="@ + decimal(c.etype as nat) + ")"@
    } else {
        "    EType: "@ + etype_name(shown_etype(c.etype, c.keytype))
    }
}

/// The lines `klist` prints for a credential at position `idx`, starting
/// with an empty line.
pub open spec fn cred_lines(c: ListedCredentialView, idx: nat, detail: bool) -> Seq<Seq<char>> {
    seq![
        Seq::<char>::empty(),
        index_text(idx) + ". "@ + principal_text(c.client.realm, c.client.components),
        "    "@ + principal_text(c.server.realm, c.server.components),
        etype_line(c, detail),
        "    Flags: "@ + flags_text(c.tktflags),
        "    Auth Time:     "@ + time_text(c.authtime),
        "    Valid Starting:"@ + time_text(c.starttime),
        "    Expires:       "@ + time_text(c.endtime),
        "    Renew Till:    "@ + time_text(c.renew_till),
    ]
}

/// The header lines: the cache's path and default principal.
pub open spec fn header_lines(l: CacheListingView, path: Seq<char>) -> Seq<Seq<char>> {
    seq![
        "Ticket cache: FILE:"@ + path,
        "Default principal: "@ + principal_text(l.primary_principal.realm, l.primary_principal.components),
    ]
}

/// The lines for the first `k` credentials, an empty line between
/// consecutive credentials.
pub open spec fn creds_lines(cs: Seq<ListedCredentialView>, k: nat, detail: bool) -> Seq<Seq<char>>
    decreases k,
{
    if k == 0 {
        seq![]
    } else {
        let prev = creds_lines(cs, (k - 1) as nat, detail) + cred_lines(cs[k - 1], k, detail);
        if k < cs.len() {
            prev.push(Seq::<char>::empty())
        } else {
            prev
        }
    }
}

/// Everything `klist` prints for a cache read from `path`.
pub open spec fn listing_text(l: CacheListingView, path: Seq<char>, detail: bool) -> Seq<Seq<char>> {
    if l.credentials.len() == 0 {
        header_lines(l, path).push("(no credentials)"@)
    } else {
        header_lines(l, path) + creds_lines(l.credentials, l.credentials.len(), detail)
    }
}

fn listed_principal_text(p: &ListedPrincipal) -> (res: String)
    ensures
        res@ == principal_text(p@.realm, p@.components),
{
    let res = fmt_principal(p.realm.as_slice(), p.components.as_slice());
    assert(Seq::new(p.components@.len(), |i: int| p.components@[i]@) =~= p@.components);
    res
}

fn concat(a: &str, b: &str) -> (res: String)
    ensures
        res@ == a@ + b@,
{
    let mut s = String::from_str(a);
    s.append(b);
    s
}

fn push_line(lines: &mut Vec<String>, line: String)
    ensures
        final(lines).deep_view() == old(lines).deep_view().push(line@),
{
    let ghost prev = lines.deep_view();
    lines.push(line);
    assert(lines.deep_view() =~= prev.push(line@));
}

/// The lines `klist` prints for one credential at position `idx`.
pub fn print_cred_lines(cred: &ListedCredential, idx: usize, show_etype_detail: bool) -> (res: Vec<String>)
    ensures
        res.deep_view() == cred_lines(cred@, idx as nat, show_etype_detail),
{
    let mut lines: Vec<String> = Vec::new();
    push_line(&mut lines, String::new());
    let idx_s = decimal_string(idx as u64);
    let mut first = if idx < 10 { String::from_str(" ") } else { String::new() };
    first.append(idx_s.as_str());
    first.append(". ");
    let client = listed_principal_text(&cred.client);
    first.append(client.as_str());
    push_line(&mut lines, first);
    let server = listed_principal_text(&cred.server);
    push_line(&mut lines, concat("    ", server.as_str()));
    let et = fmt_etype(cred.etype, cred.keytype);
    if show_etype_detail {
        let mut l = concat("    EType:  ", et.as_str());
        l.append("  (keytype=");
        let kt = decimal_string(cred.keytype as u64);
        l.append(kt.as_str());
        l.append(", etype=");
        let e = decimal_string(cred.etype as u64);
        l.append(e.as_str());
        l.append(")");
        push_line(&mut lines, l);
    } else {
        push_line(&mut lines, concat("    EType: ", et.as_str()));
    }
    let fl = fmt_flags(cred.tktflags);
    push_line(&mut lines, concat("    Flags: ", fl.as_str()));
    let t = fmt_time(cred.authtime);
    push_line(&mut lines, concat("    Auth Time:     ", t.as_str()));
    let t = fmt_time(cred.starttime);
    push_line(&mut lines, concat("    Valid Starting:", t.as_str()));
    let t = fmt_time(cred.endtime);
    push_line(&mut lines, concat("    Expires:       ", t.as_str()));
    let t = fmt_time(cred.renew_till);
    push_line(&mut lines, concat("    Renew Till:    ", t.as_str()));
    let ghost c = cred@;
    let ghost expected = cred_lines(c, idx as nat, show_etype_detail);
    assert(lines.deep_view() =~= expected);
    lines
}

/// The header lines `klist` prints for a cache read from `path`.
pub fn print_header_lines(listing: &CacheListing, path: &str) -> (res: Vec<String>)
    ensures
        res.deep_view() == header_lines(listing@, path@),
{
    let mut lines: Vec<String> = Vec::new();
    push_line(&mut lines, concat("Ticket cache: FILE:", path));
    let p = listed_principal_text(&listing.primary_principal);
    push_line(&mut lines, concat("Default principal: ", p.as_str()));
    assert(lines.deep_view() =~= header_lines(listing@, path@));
    lines
}

/// Everything `klist` prints for a cache read from `path`, line by line.
pub fn listing_lines(listing: &CacheListing, path: &str, show_etype_detail: bool) -> (res: Vec<String>)
    ensures
        res.deep_view() == listing_text(listing@, path@, show_etype_detail),
{
    let mut lines = print_header_lines(listing, path);
    if listing.credentials.len() == 0 {
        push_line(&mut lines, String::from_str("(no credentials)"));
        return lines;
    }
    let ghost head = lines.deep_view();
    let ghost cs = listing@.credentials;
    let n = listing.credentials.len();
    let mut i: usize = 0;
    while i < n
        invariant
            i <= n,
            n == cs.len(),
            cs == listing@.credentials,
            lines.deep_view() == head + creds_lines(cs, i as nat, show_etype_detail),
        decreases n - i,
    {
        let cl = print_cred_lines(&listing.credentials[i], i + 1, show_etype_detail);
        assert(listing.credentials@[i as int]@ == cs[i as int]);
        let ghost before = lines.deep_view();
        let mut j: usize = 0;
        while j < cl.len()
            invariant
                j <= cl.deep_view().len(),
                lines.deep_view() == before + cl.deep_view().take(j as int),
            decreases cl.deep_view().len() - j,
        {
            let line = String::from_str(cl[j].as_str());
            push_line(&mut lines, line);
            assert(cl.deep_view().take(j + 1) =~= cl.deep_view().take(j as int).push(cl.deep_view()[j as int]));
            j = j + 1;
        }
        assert(cl.deep_view().take(cl.deep_view().len() as int) =~= cl.deep_view());
        let ghost mid = lines.deep_view();
        assert(mid =~= head + creds_lines(cs, i as nat, show_etype_detail) + cred_lines(
            cs[i as int],
            (i + 1) as nat,
            show_etype_detail,
        ));
        if i + 1 < n {
            push_line(&mut lines, String::new());
        }
        assert(creds_lines(cs, (i + 1) as nat, show_etype_detail) == {
            let prev = creds_lines(cs, i as nat, show_etype_detail) + cred_lines(
                cs[i as int],
                (i + 1) as nat,
                show_etype_detail,
            );
            if i + 1 < cs.len() {
                prev.push(Seq::<char>::empty())
            } else {
                prev
            }
        });
        i = i + 1;
        assert(lines.deep_view() =~= head + creds_lines(cs, i as nat, show_etype_detail));
    }
    lines
}

/// What `klist` prints for the cache file's bytes read from `path`, or the
/// error where they do not parse as a cache: "Failed to parse ccache: " and
/// the reader's error.
pub fn klist_lines(raw: &[u8], path: &str, show_etype_detail: bool) -> (res: Result<Vec<String>, String>)
    ensures
        match kerberos_ccache_listing(raw@) {
            Some(l) => res matches Ok(lines) && lines.deep_view() == listing_text(l, path@, show_etype_detail),
            None => res matches Err(m) && exists|detail: Seq<char>| m@ == "Failed to parse ccache: "@ + detail,
        },
{
    match parse_cache_listing(raw) {
        Ok(listing) => Ok(listing_lines(&listing, path, show_etype_detail)),
        Err(detail) => {
            let mut m = String::from_str("Failed to parse ccache: ");
            m.append(detail.as_str());
            Err(m)
        },
    }
}

// ───────────────────────── which cache ─────────────────────────

/// The default cache path `<temp dir>\krb5cc_<user>`.
pub fn default_ccache_path(temp_dir: &str, user: &str) -> (res: String)
    ensures
        res@ == temp_dir@ + "\\krb5cc_"@ + user@,
{
    let mut s = concat(temp_dir, "\\krb5cc_");
    s.append(user);
    s
}


/// The first position at or after `from` holding `-c`.
pub open spec fn flag_index(args: Seq<Seq<char>>, from: int) -> Option<int>
    decreases args.len() - from,
{
    if from < 0 || from >= args.len() {
        None
    } else if args[from] == "-c"@ {
        Some(from)
    } else {
        flag_index(args, from + 1)
    }
}

/// The path a `KRB5CCNAME` value names: without its `FILE:` and then
/// `WRFILE:` prefixes, trimmed.
pub open spec fn env_ccache_path(v: Seq<char>) -> Seq<char> {
    trim_ws(trim_prefix_all(trim_prefix_all(v, "FILE:"@), "WRFILE:"@))
}

/// The cache `klist` lists: the path after the first `-c` among the
/// arguments (an error when none follows), else the path `KRB5CCNAME`
/// names when it is not empty, else the default path when it exists.
pub open spec fn ccache_path_result(
    args: Seq<Seq<char>>,
    krb5ccname: Option<Seq<char>>,
    default_path: Seq<char>,
    default_exists: bool,
) -> Result<Seq<char>, Seq<char>> {
    match flag_index(args, 0) {
        Some(k) => if k + 1 < args.len() {
            Ok(args[k + 1])
        } else {
            Err("-c requires a path argument"@)
        },
        None => {
            if krb5ccname is Some && env_ccache_path(krb5ccname.unwrap()).len() > 0 {
                Ok(env_ccache_path(krb5ccname.unwrap()))
            } else if default_exists {
                Ok(default_path)
            } else {
                Err("No credential cache found. Set KRB5CCNAME or run kinit first."@)
            }
        },
    }
}

/// Chooses the cache to list from the arguments, the value of
/// `KRB5CCNAME` and the default path (with whether it exists).
pub fn resolve_ccache_path(
    args: &Vec<String>,
    krb5ccname: Option<&str>,
    default_path: &str,
    default_exists: bool,
) -> (res: Result<String, String>)
    ensures
        match (res, ccache_path_result(
            args.deep_view(),
            match krb5ccname {
                Some(v) => Some(v@),
                None => None,
            },
            default_path@,
            default_exists,
        )) {
            (Ok(p), Ok(q)) => p@ == q,
            (Err(p), Err(q)) => p@ == q,
            _ => false,
        },
{
    let ghost av = args.deep_view();
    let mut i: usize = 0;
    while i < args.len()
        invariant
            i <= av.len(),
            av == args.deep_view(),
            flag_index(av, 0) == flag_index(av, i as int),
        decreases av.len() - i,
    {
        if str_eq(args[i].as_str(), "-c") {
            assert(av[i as int] == "-c"@);
            assert(flag_index(av, i as int) == Some(i as int));
            if i + 1 < args.len() {
                assert(av[i + 1] == args@[i + 1]@);
                return Ok(String::from_str(args[i + 1].as_str()));
            } else {
                return Err(String::from_str("-c requires a path argument"));
            }
        }
        i = i + 1;
    }
    match krb5ccname {
        Some(val) => {
            let p = trim(trim_start_matches(trim_start_matches(val, "FILE:"), "WRFILE:"));
            if p.unicode_len() != 0 {
                return Ok(String::from_str(p));
            }
        },
        None => {},
    }
    if default_exists {
        Ok(String::from_str(default_path))
    } else {
        Err(String::from_str("No credential cache found. Set KRB5CCNAME or run kinit first."))
    }
}

} // verus!
