//! The computing parts of `kinit -kt`: splitting `name@REALM`, choosing the
//! key of a principal in a keytab, what the AS exchange is given, and
//! turning a TGT credential into an MIT credential cache.

use vstd::prelude::*;
use vstd::string::{StrSliceExecFns, StringExecFns};
use crate::ccache::{CCache, Credential as MitCred, KeyBlock, Principal, Times};
use crate::ccache_format::{
    CCacheView, CredentialView, KeyBlockView, PrincipalView, TimesView, ccache_bytes,
};
use crate::bytes::be32_join;
use crate::constants::{AES128_CTS_HMAC_SHA1_96, AES256_CTS_HMAC_SHA1_96, RC4_HMAC};
use crate::credential::{encode_ticket, ticket_der, Credential, PrincipalNameView};
use crate::fmt::{decimal, decimal_string, join, join_strings};
use crate::text::{text_from_bytes, text_of};

verus! {

// ───────────────────────── name@REALM ─────────────────────────

/// Position `i` holds the only '@' of `s`.
pub open spec fn is_only_at(s: Seq<char>, i: int) -> bool {
    &&& 0 <= i < s.len()
    &&& s[i] == '@'
    &&& forall|j: int| 0 <= j < s.len() && j != i ==> s[j] != '@'
}

/// Splits `name@REALM` into the name and the realm. The principal must hold
/// exactly one '@'; the name may hold '/' (`hdfs/datanode1@XXX.COM`).
pub fn parse_principal(principal: &str) -> (res: Result<(String, String), String>)
    ensures
        match res {
            Ok((name, realm)) => exists|i: int|
                #[trigger] is_only_at(principal@, i) && name@ == principal@.subrange(0, i) && realm@
                    == principal@.subrange(i + 1, principal@.len() as int),
            Err(m) => (forall|i: int| !#[trigger] is_only_at(principal@, i)) && m@ == invalid_principal_text(principal@),
        },
{
    let n = principal.unicode_len();
    let mut first: Option<usize> = None;
    let mut k: usize = 0;
    while k < n
        invariant
            n == principal@.len(),
            k <= n,
            match first {
                None => forall|j: int| 0 <= j < k ==> principal@[j] != '@',
                Some(i) => i < k && principal@[i as int] == '@' && forall|j: int|
                    0 <= j < k && j != i ==> principal@[j] != '@',
            },
        decreases n - k,
    {
        let c = principal.get_char(k);
        if c == '@' {
            match first {
                Some(i) => {
                    assert forall|m: int| !#[trigger] is_only_at(principal@, m) by {
                        if is_only_at(principal@, m) {
                            assert(principal@[i as int] == '@');
                            assert(principal@[k as int] == '@');
                        }
                    }
                    return Err(invalid_principal_message(principal));
                },
                None => {
                    first = Some(k);
                },
            }
        }
        k = k + 1;
    }
    match first {
        None => {
            assert forall|m: int| !#[trigger] is_only_at(principal@, m) by {
                if is_only_at(principal@, m) {
                    assert(principal@[m] == '@');
                }
            }
            Err(invalid_principal_message(principal))
        },
        Some(i) => {
            let name = String::from_str(principal.substring_char(0, i));
            let realm = String::from_str(principal.substring_char(i + 1, n));
            assert(is_only_at(principal@, i as int));
            Ok((name, realm))
        },
    }
}

/// A name and a realm without '@' written as `name@realm` have their '@'
/// only between them, so `parse_principal` gives them back.
pub proof fn law_principal_text_roundtrip(name: Seq<char>, realm: Seq<char>)
    requires
        forall|i: int| 0 <= i < name.len() ==> name[i] != '@',
        forall|i: int| 0 <= i < realm.len() ==> realm[i] != '@',
    ensures
        is_only_at(name + seq!['@'] + realm, name.len() as int),
        forall|i: int| #[trigger] is_only_at(name + seq!['@'] + realm, i) ==> i == name.len(),
        (name + seq!['@'] + realm).subrange(0, name.len() as int) == name,
        (name + seq!['@'] + realm).subrange(name.len() as int + 1, (name + seq!['@'] + realm).len() as int) == realm,
{
    let p = name + seq!['@'] + realm;
    assert forall|j: int| 0 <= j < p.len() && j != name.len() implies p[j] != '@' by {
        if j < name.len() {
            assert(p[j] == name[j]);
        } else {
            assert(p[j] == realm[j - name.len() - 1]);
        }
    }
    assert(p.subrange(0, name.len() as int) =~= name);
    assert(p.subrange(name.len() as int + 1, p.len() as int) =~= realm);
}

/// The error for a principal that is not `name@REALM`.
pub open spec fn invalid_principal_text(principal: Seq<char>) -> Seq<char> {
    "principal 格式错误，应为 name@REALM: "@ + principal
}

fn invalid_principal_message(principal: &str) -> (res: String)
    ensures
        res@ == invalid_principal_text(principal@),
{
    let mut s = String::from_str("principal 格式错误，应为 name@REALM: ");
    s.append(principal);
    s
}

// ───────────────────────── keytab ─────────────────────────

/// One keytab entry, as the key choice reads it.
#[derive(Debug, Clone, PartialEq, Eq)]
pub struct KeytabEntryInfo {
    pub realm: Vec<u8>,
    pub components: Vec<Vec<u8>>,
    pub keytype: u16,
    pub keyvalue: Vec<u8>,
    pub vno: Option<u32>,
}

pub struct KeytabEntryView {
    pub realm: Seq<u8>,
    pub components: Seq<Seq<u8>>,
    pub keytype: u16,
    pub keyvalue: Seq<u8>,
    pub vno: Option<u32>,
}

impl View for KeytabEntryInfo {
    type V = KeytabEntryView;

    open spec fn view(&self) -> KeytabEntryView {
        KeytabEntryView {
            realm: self.realm@,
            components: self.components.deep_view(),
            keytype: self.keytype,
            keyvalue: self.keyvalue@,
            vno: self.vno,
        }
    }
}

/// The models of a list of keytab entries.
pub open spec fn entries_view(v: Seq<KeytabEntryInfo>) -> Seq<KeytabEntryView> {
    Seq::new(v.len(), |i: int| v[i]@)
}

/// What `kerberos_keytab::Keytab::parse` reads from a keytab file: its
/// entries, or `None` where it reports an error.
pub uninterp spec fn keytab_entries(raw: Seq<u8>) -> Option<Seq<KeytabEntryView>>;

/// The magnitude of an entry's size field (a big-endian `i32`): the
/// length of the entry, or of the deleted entry, that follows it.
pub open spec fn size_magnitude(v: u32) -> int {
    if v < 0x80000000 {
        v as int
    } else {
        0x100000000 - v
    }
}

/// The end of the counted octet string (16-bit length) at `off` in an
/// entry's bytes; `None` where the bytes end before it does.
pub open spec fn counted16_end(c: Seq<u8>, off: int) -> Option<int> {
    if 0 <= off && off + 2 <= c.len() && off + 2 + (c[off] * 256 + c[off + 1]) <= c.len() {
        Some(off + 2 + (c[off] * 256 + c[off + 1]))
    } else {
        None
    }
}

/// The end of `k` counted octet strings from `off`.
pub open spec fn components_end(c: Seq<u8>, off: int, k: nat) -> Option<int>
    decreases k,
{
    if k == 0 {
        Some(off)
    } else {
        match components_end(c, off, (k - 1) as nat) {
            Some(o) => counted16_end(c, o),
            None => None,
        }
    }
}

/// The bytes of a (not deleted) keytab entry decode as the reader reads
/// them: the component count, the realm, the components, the name type, the
/// timestamp, the 8-bit version, the key type and the key, then nothing or
/// at least a 32-bit version.
pub open spec fn entry_content_decodes(c: Seq<u8>) -> bool {
    &&& c.len() >= 2
    &&& counted16_end(c, 2) matches Some(o1)
    &&& components_end(c, o1, (c[0] * 256 + c[1]) as nat) matches Some(o2)
    &&& o2 + 11 <= c.len()
    &&& counted16_end(c, o2 + 11) matches Some(o3)
    &&& (o3 == c.len() || o3 + 4 <= c.len())
}

/// Following the entries of a keytab from position `p`, as far as the
/// reader goes (it stops at the first entry that does not decode, or whose
/// data is missing), one of the size fields is -2^31.
pub open spec fn size_walk_meets_min(raw: Seq<u8>, p: int) -> bool
    decreases raw.len() - p,
{
    if p < 0 || p + 4 > raw.len() {
        false
    } else {
        let v = be32_join(raw[p], raw[p + 1], raw[p + 2], raw[p + 3]);
        if v == 0x80000000 {
            true
        } else if p + 4 + size_magnitude(v) > raw.len() {
            false
        } else if v < 0x80000000 && !entry_content_decodes(raw.subrange(p + 4, p + 4 + v)) {
            false
        } else {
            size_walk_meets_min(raw, p + 4 + size_magnitude(v))
        }
    }
}

/// No size field of -2^31 on the walk over the entries, from the first
/// entry after the two version bytes.
pub open spec fn keytab_sizes_negatable(raw: Seq<u8>) -> bool {
    !size_walk_meets_min(raw, 2)
}

fn counted16_end_exec(c: &[u8], off: usize) -> (res: Option<usize>)
    requires
        off <= c@.len(),
    ensures
        res matches Some(o) ==> counted16_end(c@, off as int) == Some(o as int),
        res is None ==> counted16_end(c@, off as int) is None,
{
    if c.len() - off < 2 {
        return None;
    }
    let n: usize = c[off] as usize * 256 + c[off + 1] as usize;
    if c.len() - off - 2 < n {
        None
    } else {
        Some(off + 2 + n)
    }
}

/// Whether the bytes of a keytab entry decode as the reader reads them.
pub fn entry_decodes(c: &[u8]) -> (res: bool)
    ensures
        res == entry_content_decodes(c@),
{
    if c.len() < 2 {
        return false;
    }
    let k: usize = c[0] as usize * 256 + c[1] as usize;
    let o1 = match counted16_end_exec(c, 2) {
        Some(o) => o,
        None => return false,
    };
    let mut o = o1;
    let mut j: usize = 0;
    while j < k
        invariant
            j <= k,
            c@.len() >= 2,
            counted16_end(c@, 2) == Some(o1 as int),
            k == (c@[0] * 256 + c@[1]) as nat,
            o <= c@.len(),
            components_end(c@, o1 as int, j as nat) == Some(o as int),
        decreases k - j,
    {
        match counted16_end_exec(c, o) {
            Some(next) => {
                o = next;
            },
            None => {
                proof {
                    assert(components_end(c@, o1 as int, (j + 1) as nat) is None);
                    lemma_components_end_none(c@, o1 as int, (j + 1) as nat, k as nat);
                }
                return false;
            },
        }
        j = j + 1;
    }
    if c.len() - o < 11 {
        return false;
    }
    let o3 = match counted16_end_exec(c, o + 11) {
        Some(v) => v,
        None => return false,
    };
    o3 == c.len() || c.len() - o3 >= 4
}

proof fn lemma_components_end_none(c: Seq<u8>, off: int, j: nat, k: nat)
    requires
        j <= k,
        components_end(c, off, j) is None,
    ensures
        components_end(c, off, k) is None,
    decreases k - j,
{
    if j < k {
        lemma_components_end_none(c, off, j + 1, k);
    }
}

/// Whether the walk over the entries of a keytab meets no size field of
/// -2^31.
pub fn keytab_sizes_ok(raw: &[u8]) -> (res: bool)
    ensures
        res == keytab_sizes_negatable(raw@),
{
    let n = raw.len();
    let mut p: usize = 2;
    while p <= n && n - p >= 4
        invariant
            n == raw@.len(),
            2 <= p,
            size_walk_meets_min(raw@, 2) == size_walk_meets_min(raw@, p as int),
        decreases n - p,
    {
        let v: u32 = ((raw[p] as u32) << 24u32) | ((raw[p + 1] as u32) << 16u32) | ((raw[p + 2] as u32) << 8u32)
            | (raw[p + 3] as u32);
        if v == 0x80000000 {
            return false;
        }
        let m: u32 = if v < 0x80000000 { v } else { 0u32.wrapping_sub(v) };
        assert(m as int == size_magnitude(v)) by {
            if v >= 0x80000000 {
                assert(0u32.wrapping_sub(v) as int == 0x100000000 - v);
            }
        }
        if (m as usize) > n - p - 4 {
            return true;
        }
        if v < 0x80000000 {
            let entry = vstd::slice::slice_subrange(raw, p + 4, p + 4 + m as usize);
            if !entry_decodes(entry) {
                return true;
            }
        }
        p = p + 4 + m as usize;
    }
    true
}

/// Calls `kerberos_keytab::Keytab::parse` and keeps, of each entry, the
/// realm, the components, the key type, the key and the 32-bit version
/// number; the error is the reader's, as `Debug` writes it. The source
/// negates the size field of a deleted entry, which overflows (a panic
/// where overflow checks are on) for -2^31; the data must not hold that
/// size where the reader comes to it.
#[verifier::external_body]
fn parse_keytab(raw: &[u8]) -> (res: Result<Vec<KeytabEntryInfo>, String>)
    requires
        keytab_sizes_negatable(raw@),
    ensures
        match res {
            Ok(v) => keytab_entries(raw@) == Some(entries_view(v@)),
            Err(_) => keytab_entries(raw@) is None,
        },
{
    kerberos_keytab::Keytab::parse(raw).map_err(|e| format!("{:?}", e)).map(|(_, k)| k.entries.into_iter().map(|e| KeytabEntryInfo {
        realm: e.realm.data,
        components: e.components.into_iter().map(|c| c.data).collect(),
        keytype: e.key.keytype,
        keyvalue: e.key.keyvalue,
        vno: e.vno,
    }).collect())
}

/// The name an entry stands for: its components joined with '/'.
pub open spec fn entry_name(e: KeytabEntryView) -> Seq<char> {
    join(Seq::new(e.components.len(), |i: int| text_of(e.components[i])), seq!['/'])
}

/// The entry is for `name@realm`.
pub open spec fn entry_matches(e: KeytabEntryView, name: Seq<char>, realm: Seq<char>) -> bool {
    text_of(e.realm) == realm && entry_name(e) == name
}

/// The preference of a key type: AES256 first, then AES128, then RC4;
/// others last.
pub open spec fn keytype_priority(keytype: u16) -> int {
    if keytype as i32 == AES256_CTS_HMAC_SHA1_96 {
        1
    } else if keytype as i32 == AES128_CTS_HMAC_SHA1_96 {
        2
    } else if keytype as i32 == RC4_HMAC {
        3
    } else {
        999
    }
}

/// The key version of an entry (0 when absent).
pub open spec fn entry_kvno(e: KeytabEntryView) -> u32 {
    match e.vno {
        Some(v) => v,
        None => 0,
    }
}

/// Key (priority `p1`, version `k1`) is preferred to (`p2`, `k2`): a better
/// key type, or the same key type and a newer version.
pub open spec fn preferred(p1: int, k1: u32, p2: int, k2: u32) -> bool {
    p1 < p2 || (p1 == p2 && k1 > k2)
}

/// Entry `i` is the one chosen for `name@realm`: it matches, it is preferred
/// to an unsupported key type of version 0, no matching entry is preferred
/// to it, and no earlier matching entry is as good.
pub open spec fn is_chosen(es: Seq<KeytabEntryView>, i: int, name: Seq<char>, realm: Seq<char>) -> bool {
    &&& 0 <= i < es.len()
    &&& entry_matches(es[i], name, realm)
    &&& preferred(keytype_priority(es[i].keytype), entry_kvno(es[i]), 999, 0)
    &&& forall|j: int|
        0 <= j < es.len() && entry_matches(#[trigger] es[j], name, realm) ==> !preferred(
            keytype_priority(es[j].keytype),
            entry_kvno(es[j]),
            keytype_priority(es[i].keytype),
            entry_kvno(es[i]),
        )
    &&& forall|j: int|
        0 <= j < i && entry_matches(#[trigger] es[j], name, realm) ==> !(keytype_priority(
            es[j].keytype,
        ) == keytype_priority(es[i].keytype) && entry_kvno(es[j]) == entry_kvno(es[i]))
}

/// Law: the entry chosen for `name@realm` has the best key type among the
/// matching entries, AES256-CTS-HMAC-SHA1-96 (18) before
/// AES128-CTS-HMAC-SHA1-96 (17) before RC4-HMAC (23), and of its key type
/// the newest key version.
pub proof fn law_key_choice_preference(es: Seq<KeytabEntryView>, name: Seq<char>, realm: Seq<char>, i: int, j: int)
    requires
        is_chosen(es, i, name, realm),
        0 <= j < es.len(),
        entry_matches(es[j], name, realm),
    ensures
        es[j].keytype == 18 ==> es[i].keytype == 18,
        es[j].keytype == 17 ==> es[i].keytype == 18 || es[i].keytype == 17,
        es[j].keytype == 23 ==> es[i].keytype == 18 || es[i].keytype == 17 || es[i].keytype == 23,
        es[j].keytype == es[i].keytype ==> entry_kvno(es[j]) <= entry_kvno(es[i]),
{
    assert(entry_matches(es[j], name, realm));
}

/// The error where no entry is chosen for `name@realm`.
pub open spec fn key_not_found_text(name: Seq<char>, realm: Seq<char>) -> Seq<char> {
    "keytab 中未找到匹配 "@ + name + "@"@ + realm + " 的条目"@
}

/// `m` is the error of choosing the key of `name@realm` among the entries:
/// the not-found error where no entry is chosen, or the error of the chosen
/// entry where it holds no usable key.
pub open spec fn key_choice_error(es: Seq<KeytabEntryView>, name: Seq<char>, realm: Seq<char>, m: Seq<char>) -> bool {
    ||| (forall|i: int| !#[trigger] is_chosen(es, i, name, realm)) && m == key_not_found_text(name, realm)
    ||| exists|i: int|
        #[trigger] is_chosen(es, i, name, realm) && entry_key(es[i]) is None && m == entry_key_error(es[i])
}

/// A user key: the secret (password) from which keys are derived, or a key
/// of one encryption type, such as one taken from a keytab.
#[derive(Debug, Clone, PartialEq, Eq)]
pub enum UserKey {
    Secret(String),
    RC4Key(Vec<u8>),
    AES128Key(Vec<u8>),
    AES256Key(Vec<u8>),
}

/// A key of one encryption type as that type and its bytes; `None` for a
/// secret.
pub open spec fn user_key_view(k: UserKey) -> Option<(i32, Seq<u8>)> {
    match k {
        UserKey::Secret(_) => None,
        UserKey::RC4Key(v) => Some((RC4_HMAC, v@)),
        UserKey::AES128Key(v) => Some((AES128_CTS_HMAC_SHA1_96, v@)),
        UserKey::AES256Key(v) => Some((AES256_CTS_HMAC_SHA1_96, v@)),
    }
}

/// The encryption types a key serves: all three for a secret, else its own.
pub open spec fn user_key_etypes(k: UserKey) -> Seq<i32> {
    match k {
        UserKey::Secret(_) => seq![AES256_CTS_HMAC_SHA1_96, AES128_CTS_HMAC_SHA1_96, RC4_HMAC],
        UserKey::RC4Key(_) => seq![RC4_HMAC],
        UserKey::AES128Key(_) => seq![AES128_CTS_HMAC_SHA1_96],
        UserKey::AES256Key(_) => seq![AES256_CTS_HMAC_SHA1_96],
    }
}

/// The key an entry holds: AES256 with 32 bytes, AES128 or RC4 with 16;
/// `None` for other types or lengths.
pub open spec fn entry_key(e: KeytabEntryView) -> Option<(i32, Seq<u8>)> {
    if e.keytype as i32 == AES256_CTS_HMAC_SHA1_96 {
        if e.keyvalue.len() == 32 {
            Some((AES256_CTS_HMAC_SHA1_96, e.keyvalue))
        } else {
            None
        }
    } else if e.keytype as i32 == AES128_CTS_HMAC_SHA1_96 {
        if e.keyvalue.len() == 16 {
            Some((AES128_CTS_HMAC_SHA1_96, e.keyvalue))
        } else {
            None
        }
    } else if e.keytype as i32 == RC4_HMAC {
        if e.keyvalue.len() == 16 {
            Some((RC4_HMAC, e.keyvalue))
        } else {
            None
        }
    } else {
        None
    }
}

impl UserKey {
    /// The encryption types the key serves (`kerberos_crypto::Key::etypes`).
    pub fn etypes(&self) -> (res: Vec<i32>)
        ensures
            res@ == user_key_etypes(*self),
    {
        let mut v: Vec<i32> = Vec::new();
        match self {
            UserKey::Secret(_) => {
                v.push(AES256_CTS_HMAC_SHA1_96);
                v.push(AES128_CTS_HMAC_SHA1_96);
                v.push(RC4_HMAC);
            },
            UserKey::RC4Key(_) => v.push(RC4_HMAC),
            UserKey::AES128Key(_) => v.push(AES128_CTS_HMAC_SHA1_96),
            UserKey::AES256Key(_) => v.push(AES256_CTS_HMAC_SHA1_96),
        }
        assert(v@ =~= user_key_etypes(*self));
        v
    }
}

fn copy_bytes(b: &Vec<u8>) -> (res: Vec<u8>)
    ensures
        res@ == b@,
{
    let mut v: Vec<u8> = Vec::new();
    crate::bytes::write_raw(&mut v, b.as_slice());
    assert(v@ =~= b@);
    v
}

/// The error for an entry without a usable key: the key type and the
/// length found where the length is wrong, the key type where it is not
/// supported.
pub open spec fn entry_key_error(e: KeytabEntryView) -> Seq<char> {
    if e.keytype as i32 == AES256_CTS_HMAC_SHA1_96 {
        "AES256 key 长度错误: "@ + decimal(e.keyvalue.len()) + "（期望32）"@
    } else if e.keytype as i32 == AES128_CTS_HMAC_SHA1_96 {
        "AES128 key 长度错误: "@ + decimal(e.keyvalue.len()) + "（期望16）"@
    } else if e.keytype as i32 == RC4_HMAC {
        "RC4 key 长度错误: "@ + decimal(e.keyvalue.len()) + "（期望16）"@
    } else {
        "不支持的 keytype: "@ + decimal(e.keytype as nat)
    }
}

fn length_error(prefix: &str, len: usize, expected: &str) -> (res: String)
    ensures
        res@ == prefix@ + decimal(len as nat) + expected@,
{
    let mut m = String::from_str(prefix);
    let d = decimal_string(len as u64);
    m.append(d.as_str());
    m.append(expected);
    m
}

/// The key of a keytab entry, or the error of `entry_key_error` for an
/// unsupported key type or a key of the wrong length.
pub fn keytab_entry_to_key(entry: &KeytabEntryInfo) -> (res: Result<UserKey, String>)
    ensures
        match res {
            Ok(k) => entry_key(entry@) is Some && entry_key(entry@) == user_key_view(k),
            Err(m) => entry_key(entry@) is None && m@ == entry_key_error(entry@),
        },
{
    let kt = entry.keytype as i32;
    let len = entry.keyvalue.len();
    if kt == AES256_CTS_HMAC_SHA1_96 {
        if len != 32 {
            return Err(length_error("AES256 key 长度错误: ", len, "（期望32）"));
        }
        Ok(UserKey::AES256Key(copy_bytes(&entry.keyvalue)))
    } else if kt == AES128_CTS_HMAC_SHA1_96 {
        if len != 16 {
            return Err(length_error("AES128 key 长度错误: ", len, "（期望16）"));
        }
        Ok(UserKey::AES128Key(copy_bytes(&entry.keyvalue)))
    } else if kt == RC4_HMAC {
        if len != 16 {
            return Err(length_error("RC4 key 长度错误: ", len, "（期望16）"));
        }
        Ok(UserKey::RC4Key(copy_bytes(&entry.keyvalue)))
    } else {
        let mut m = String::from_str("不支持的 keytype: ");
        let d = decimal_string(entry.keytype as u64);
        m.append(d.as_str());
        Err(m)
    }
}

fn priority_of(keytype: u16) -> (res: i32)
    ensures
        res == keytype_priority(keytype),
{
    let kt = keytype as i32;
    if kt == AES256_CTS_HMAC_SHA1_96 {
        1
    } else if kt == AES128_CTS_HMAC_SHA1_96 {
        2
    } else if kt == RC4_HMAC {
        3
    } else {
        999
    }
}

/// Whether the entry is for `name@realm`.
fn entry_is_for(entry: &KeytabEntryInfo, principal_name: &String, realm: &String) -> (res: bool)
    ensures
        res == entry_matches(entry@, principal_name@, realm@),
{
    let entry_realm = text_from_bytes(entry.realm.as_slice());
    let mut names: Vec<String> = Vec::new();
    let ghost cs = entry.components.deep_view();
    let mut i: usize = 0;
    while i < entry.components.len()
        invariant
            i <= cs.len(),
            cs == entry.components.deep_view(),
            names.deep_view() =~= Seq::new(i as nat, |j: int| text_of(cs[j])),
        decreases cs.len() - i,
    {
        let s = text_from_bytes(entry.components[i].as_slice());
        assert(cs[i as int] == entry.components@[i as int]@);
        let ghost prev = names.deep_view();
        names.push(s);
        assert(names.deep_view() =~= prev.push(s@));
        assert(names.deep_view() =~= Seq::new((i + 1) as nat, |j: int| text_of(cs[j])));
        i = i + 1;
    }
    assert(names.deep_view() =~= Seq::new(entry@.components.len(), |j: int| text_of(entry@.components[j])));
    proof {
        reveal_strlit("/");
    }
    let entry_name_str = join_strings(&names, "/");
    assert("/"@ =~= seq!['/']);
    assert(entry_name_str@ == entry_name(entry@));
    assert(entry_realm@ == text_of(entry@.realm));
    let r1 = entry_realm == *realm;
    let r2 = entry_name_str == *principal_name;
    r1 && r2
}

/// Chooses the key of `name@realm` in a keytab: among the matching entries
/// the best key type (AES256, AES128, RC4), and of those the newest key
/// version; the first such entry wins a tie.
pub fn find_key_in_keytab(entries: &Vec<KeytabEntryInfo>, principal_name: &str, realm: &str) -> (res: Result<UserKey, String>)
    ensures
        match res {
            Ok(k) => exists|i: int|
                #[trigger] is_chosen(entries_view(entries@), i, principal_name@, realm@) && entry_key(
                    entries_view(entries@)[i],
                ) is Some && entry_key(entries_view(entries@)[i]) == user_key_view(k),
            Err(m) => key_choice_error(entries_view(entries@), principal_name@, realm@, m@),
        },
        res matches Ok(k) ==> forall|j: int|
            0 <= j < entries@.len() && #[trigger] entry_matches(entries_view(entries@)[j], principal_name@, realm@) ==> {
                &&& entries_view(entries@)[j].keytype == 18 ==> k is AES256Key
                &&& entries_view(entries@)[j].keytype == 17 ==> (k is AES256Key || k is AES128Key)
            },
{
    let ghost es = entries_view(entries@);
    let name = String::from_str(principal_name);
    let realm_s = String::from_str(realm);
    let mut best: Option<usize> = None;
    let mut best_priority: i32 = 999;
    let mut best_kvno: u32 = 0;
    let mut i: usize = 0;
    while i < entries.len()
        invariant
            i <= es.len(),
            es == entries_view(entries@),
            name@ == principal_name@,
            realm_s@ == realm@,
            match best {
                None => best_priority == 999 && best_kvno == 0 && forall|j: int|
                    0 <= j < i && entry_matches(#[trigger] es[j], name@, realm_s@) ==> !preferred(
                        keytype_priority(es[j].keytype),
                        entry_kvno(es[j]),
                        999,
                        0,
                    ),
                Some(b) => {
                    &&& b < i
                    &&& entry_matches(es[b as int], name@, realm_s@)
                    &&& best_priority == keytype_priority(es[b as int].keytype)
                    &&& best_kvno == entry_kvno(es[b as int])
                    &&& preferred(best_priority as int, best_kvno, 999, 0)
                    &&& forall|j: int|
                        0 <= j < i && entry_matches(#[trigger] es[j], name@, realm_s@) ==> !preferred(
                            keytype_priority(es[j].keytype),
                            entry_kvno(es[j]),
                            best_priority as int,
                            best_kvno,
                        )
                    &&& forall|j: int|
                        0 <= j < b && entry_matches(#[trigger] es[j], name@, realm_s@) ==> !(
                        keytype_priority(es[j].keytype) == best_priority && entry_kvno(es[j])
                            == best_kvno)
                },
            },
        decreases es.len() - i,
    {
        let entry = &entries[i];
        assert(entry@ == es[i as int]);
        if entry_is_for(entry, &name, &realm_s) {
            let priority = priority_of(entry.keytype);
            let kvno: u32 = match entry.vno {
                Some(v) => v,
                None => 0,
            };
            if priority < best_priority || (priority == best_priority && kvno > best_kvno) {
                best = Some(i);
                best_priority = priority;
                best_kvno = kvno;
            }
        }
        i = i + 1;
    }
    match best {
        None => {
            assert forall|m: int| !#[trigger] is_chosen(es, m, principal_name@, realm@) by {
                if is_chosen(es, m, principal_name@, realm@) {
                    assert(entry_matches(es[m], name@, realm_s@));
                }
            }
            let mut msg = String::from_str("keytab 中未找到匹配 ");
            msg.append(principal_name);
            msg.append("@");
            msg.append(realm);
            msg.append(" 的条目");
            Err(msg)
        },
        Some(b) => {
            assert(is_chosen(es, b as int, principal_name@, realm@));
            assert(entries@[b as int]@ == es[b as int]);
            let r = keytab_entry_to_key(&entries[b]);
            proof {
                if r is Ok {
                    let k = r->Ok_0;
                    assert forall|j: int|
                        0 <= j < entries@.len() && #[trigger] entry_matches(es[j], principal_name@, realm@) implies {
                            &&& es[j].keytype == 18 ==> k is AES256Key
                            &&& es[j].keytype == 17 ==> (k is AES256Key || k is AES128Key)
                        } by {
                        law_key_choice_preference(es, principal_name@, realm@, b as int, j);
                    }
                }
            }
            r
        },
    }
}

// ───────────────────────── before the AS exchange ─────────────────────────

/// `name@realm` is `principal` split at its only '@'.
pub open spec fn principal_split(principal: Seq<char>, name: Seq<char>, realm: Seq<char>) -> bool {
    exists|i: int|
        #[trigger] is_only_at(principal, i) && name == principal.subrange(0, i) && realm
            == principal.subrange(i + 1, principal.len() as int)
}

/// The key chosen for `name@realm` among the entries is usable and is `k`.
pub open spec fn chosen_key(es: Seq<KeytabEntryView>, name: Seq<char>, realm: Seq<char>, k: UserKey) -> bool {
    exists|i: int|
        #[trigger] is_chosen(es, i, name, realm) && entry_key(es[i]) is Some && entry_key(es[i])
            == user_key_view(k)
}



/// What `kinit -kt` takes from the principal and the keytab before it asks
/// the KDC: the name and the realm, the key chosen for them and the first
/// encryption type of that key; an error where the principal is not
/// `name@REALM` or the keytab has no usable key for it.
pub fn tgt_request_key(entries: &Vec<KeytabEntryInfo>, principal: &str) -> (res: Result<(String, String, UserKey, i32), String>)
    ensures
        match res {
            Ok((name, realm, key, etype)) => {
                &&& principal_split(principal@, name@, realm@)
                &&& chosen_key(entries_view(entries@), name@, realm@, key)
                &&& etype == user_key_etypes(key)[0]
            },
            Err(m) => ((forall|i: int| !#[trigger] is_only_at(principal@, i)) && m@ == invalid_principal_text(principal@))
                || exists|name: Seq<char>, realm: Seq<char>|
                #[trigger] principal_split(principal@, name, realm)
                    && key_choice_error(entries_view(entries@), name, realm, m@),
        },
{
    let (name, realm) = match parse_principal(principal) {
        Ok(p) => p,
        Err(e) => return Err(e),
    };
    assert(principal_split(principal@, name@, realm@));
    let key = match find_key_in_keytab(entries, name.as_str(), realm.as_str()) {
        Ok(k) => k,
        Err(e) => {
            assert(key_choice_error(entries_view(entries@), name@, realm@, e@));
            return Err(e);
        },
    };
    let etypes = key.etypes();
    let etype = etypes[0];
    Ok((name, realm, key, etype))
}

/// `tgt_request_key` on a keytab file: the principal is split first, then
/// the keytab is read (an error where it cannot be), then the key is chosen.
pub fn keytab_request_key(raw_keytab: &[u8], principal: &str) -> (res: Result<(String, String, UserKey, i32), String>)
    requires
        keytab_sizes_negatable(raw_keytab@),
    ensures
        match res {
            Ok((name, realm, key, etype)) => {
                &&& principal_split(principal@, name@, realm@)
                &&& (keytab_entries(raw_keytab@) matches Some(es) && chosen_key(es, name@, realm@, key))
                &&& etype == user_key_etypes(key)[0]
            },
            Err(m) => {
                ||| (forall|i: int| !#[trigger] is_only_at(principal@, i)) && m@ == invalid_principal_text(principal@)
                ||| (exists|i: int| #[trigger] is_only_at(principal@, i)) && keytab_entries(raw_keytab@) is None
                    && exists|detail: Seq<char>| m@ == "keytab 解析失败: "@ + detail
                ||| exists|name: Seq<char>, realm: Seq<char>|
                    #[trigger] principal_split(principal@, name, realm) && (keytab_entries(raw_keytab@) matches Some(es)
                        && key_choice_error(es, name, realm, m@))
            },
        },
{
    match parse_principal(principal) {
        Ok(_) => {},
        Err(e) => return Err(e),
    }
    let entries = match parse_keytab(raw_keytab) {
        Ok(v) => v,
        Err(detail) => {
            let mut m = String::from_str("keytab 解析失败: ");
            m.append(detail.as_str());
            return Err(m);
        },
    };
    tgt_request_key(&entries, principal)
}

/// Every character is ASCII.
pub open spec fn all_ascii(s: Seq<char>) -> bool {
    forall|i: int| 0 <= i < s.len() ==> (s[i] as u32) < 128
}

/// Calls `ascii::AsciiString::from_ascii`, which succeeds exactly when every
/// byte of the text is ASCII, that is when every character is.
#[verifier::external_body]
fn ascii_ok(s: &String) -> (res: bool)
    ensures
        res == all_ascii(s@),
{
    ascii::AsciiString::from_ascii(s.as_str()).is_ok()
}

/// The name and the realm are ASCII, as the AS exchange takes them; the
/// error names the first that is not.
pub fn check_ascii_names(principal_name: &String, realm: &String) -> (res: Result<(), String>)
    ensures
        res is Ok <==> all_ascii(principal_name@) && all_ascii(realm@),
        res matches Err(m) ==> if !all_ascii(principal_name@) {
            m@ == "principal 名不是有效 ASCII: "@ + principal_name@
        } else {
            m@ == "realm 不是有效 ASCII: "@ + realm@
        },
{
    if !ascii_ok(principal_name) {
        let mut m = String::from_str("principal 名不是有效 ASCII: ");
        m.append(principal_name.as_str());
        return Err(m);
    }
    if !ascii_ok(realm) {
        let mut m = String::from_str("realm 不是有效 ASCII: ");
        m.append(realm.as_str());
        return Err(m);
    }
    Ok(())
}

// ───────────────────────── TGT → MIT cache ─────────────────────────

/// KerberosTime (Unix seconds) to the 32-bit cache time, as `as u32` casts.
pub fn kerberos_time_to_unix(t: i64) -> (res: u32)
    ensures
        res == t as u32,
{
    t as u32
}

/// The ticket flags as the cache stores them: the ticket's flag bits as a
/// 32-bit mask, flag 0 in the most significant bit (as the credential holds
/// them).
pub fn ticket_flags_to_u32(f: u32) -> (res: u32)
    ensures
        res == f,
{
    f
}

/// The cache principal for a realm and a principal name.
pub open spec fn mit_principal(realm: Seq<char>, name: PrincipalNameView) -> PrincipalView {
    PrincipalView { name_type: name.name_type as u32, realm, components: name.name_string }
}

/// A time that may be absent, as the cache stores it (0 when absent).
pub open spec fn optional_time(t: Option<i64>) -> u32 {
    match t {
        Some(v) => v as u32,
        None => 0,
    }
}

/// The cache holding a TGT credential: the client as default principal and
/// a single credential with the given ticket encoding.
pub open spec fn mit_ccache_view(c: &Credential, ticket: Seq<u8>) -> CCacheView {
    let client = mit_principal(c.crealm@, c.cname@);
    CCacheView {
        default_principal: client,
        credentials: seq![
            CredentialView {
                client,
                server: mit_principal(c.srealm@, c.sname@),
                key: KeyBlockView { enctype: c.key.keytype as u16, keyvalue: c.key.keyvalue@ },
                time: TimesView {
                    authtime: c.authtime as u32,
                    starttime: optional_time(c.starttime),
                    endtime: c.endtime as u32,
                    renew_till: optional_time(c.renew_till),
                },
                is_skey: 0,
                tktflags: c.flags,
                addrs: seq![],
                authdata: seq![],
                ticket,
                second_ticket: seq![],
            },
        ],
    }
}

fn mit_principal_of(realm: &String, name: &crate::credential::PrincipalName) -> (res: Principal)
    ensures
        res@ == mit_principal(realm@, name@),
{
    let mut comps: Vec<&str> = Vec::new();
    let mut i: usize = 0;
    while i < name.name_string.len()
        invariant
            i <= name.name_string@.len(),
            crate::ccache::strs_view(comps@) =~= name.name_string.deep_view().take(i as int),
        decreases name.name_string@.len() - i,
    {
        let ghost prev = comps@;
        comps.push(name.name_string[i].as_str());
        assert(crate::ccache::strs_view(comps@) =~= crate::ccache::strs_view(prev).push(
            name.name_string@[i as int]@,
        ));
        i = i + 1;
    }
    assert(name.name_string.deep_view().take(name.name_string@.len() as int) =~= name.name_string.deep_view());
    Principal::new(name.name_type as u32, realm.as_str(), comps.as_slice())
}

/// The MIT cache for a TGT credential whose ticket encodes as `ticket`.
pub fn mit_ccache(cred: &Credential, ticket: Vec<u8>) -> (res: CCache)
    ensures
        res@ == mit_ccache_view(cred, ticket@),
{
    let client = mit_principal_of(&cred.crealm, &cred.cname);
    let default_principal = mit_principal_of(&cred.crealm, &cred.cname);
    let server = mit_principal_of(&cred.srealm, &cred.sname);
    let key_block = KeyBlock::new(cred.key.keytype as u16, copy_bytes(&cred.key.keyvalue));
    let authtime = kerberos_time_to_unix(cred.authtime);
    let starttime = match cred.starttime {
        Some(t) => kerberos_time_to_unix(t),
        None => 0,
    };
    let endtime = kerberos_time_to_unix(cred.endtime);
    let renew_till = match cred.renew_till {
        Some(t) => kerberos_time_to_unix(t),
        None => 0,
    };
    let times = Times::new(authtime, starttime, endtime, renew_till);
    let tktflags = ticket_flags_to_u32(cred.flags);
    let mit_cred = MitCred::new(client, server, key_block, times, 0, tktflags, ticket);
    let mut creds: Vec<MitCred> = Vec::new();
    creds.push(mit_cred);
    let res = CCache::new(default_principal, creds);
    assert(res@.credentials =~= mit_ccache_view(cred, ticket@).credentials);
    res
}

/// The MIT credential cache file (FCC v4) for a TGT credential.
pub fn build_mit_ccache(cred: &Credential) -> (res: Vec<u8>)
    ensures
        res@ == ccache_bytes(mit_ccache_view(cred, ticket_der(cred.ticket@))),
{
    let ticket = encode_ticket(&cred.ticket);
    let ccache = mit_ccache(cred, ticket);
    ccache.build()
}

} // verus!
