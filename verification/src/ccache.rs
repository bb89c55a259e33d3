//! The MIT krb5 file credential cache (FCC v4): records, their binary
//! encoding and decoding. Every multi-byte integer is big-endian.

use vstd::prelude::*;
use crate::bytes::{
    CCacheError, be32, read_be16, read_be32, read_counted, write_be16, write_be32, write_counted,
};
use crate::ccache_format::{
    CCacheView, CredentialView, KeyBlockView, PrincipalView, TaggedView, TimesView,
    ccache_bytes, ccache_header_bytes, ccache_header_in_bounds, components_bytes, credential_bytes,
    credential_tail_bytes, credentials_bytes, keyblock_bytes, parse_ccache, parse_components_at, parse_credential_at,
    parse_credentials_from, parse_keyblock_at, parse_principal_at,
    parse_tagged_at, parse_tagged_list_at, parse_times_at, principal_bytes, tagged_bytes,
    tagged_list_bytes, times_bytes,
};
use crate::text::{string_bytes, text_from_bytes};

verus! {

/// A Kerberos principal (client or server name).
#[derive(Debug, Clone, PartialEq, Eq)]
pub struct Principal {
    /// Name type: 1 = NT_PRINCIPAL, 2 = NT_SRV_INST, ...
    pub name_type: u32,
    /// The realm, such as "XXX.COM".
    pub realm: String,
    /// The name components, such as ["hive"] or ["krbtgt", "XXX.COM"].
    pub components: Vec<String>,
}

impl View for Principal {
    type V = PrincipalView;

    open spec fn view(&self) -> PrincipalView {
        PrincipalView {
            name_type: self.name_type,
            realm: self.realm@,
            components: self.components.deep_view(),
        }
    }
}

/// The texts of a list of string slices.
pub open spec fn strs_view(s: Seq<&str>) -> Seq<Seq<char>> {
    Seq::new(s.len(), |i: int| s[i]@)
}

impl Principal {
    pub fn new(name_type: u32, realm: &str, components: &[&str]) -> (res: Self)
        ensures
            res@ == (PrincipalView {
                name_type,
                realm: realm@,
                components: strs_view(components@),
            }),
    {
        let mut comps: Vec<String> = Vec::new();
        let mut i: usize = 0;
        while i < components.len()
            invariant
                i <= components@.len(),
                comps.deep_view() =~= strs_view(components@).take(i as int),
            decreases components@.len() - i,
        {
            let c: String = components[i].to_owned();
            assert(c@ == components@[i as int]@);
            let ghost prev = comps.deep_view();
            comps.push(c);
            assert(comps.deep_view() =~= prev.push(c@));
            assert(strs_view(components@).take(i + 1) =~= strs_view(components@).take(i as int).push(
                components@[i as int]@,
            ));
            i = i + 1;
        }
        assert(strs_view(components@).take(components@.len() as int) =~= strs_view(components@));
        Self { name_type, realm: realm.to_owned(), components: comps }
    }

    /// The cache encoding of this principal.
    pub fn build(&self) -> (res: Vec<u8>)
        ensures
            res@ == principal_bytes(self@),
    {
        let mut buf: Vec<u8> = Vec::new();
        write_be32(&mut buf, self.name_type);
        write_be32(&mut buf, self.components.len() as u32);
        write_counted(&mut buf, string_bytes(&self.realm));
        let ghost head = buf@;
        let ghost cs = self.components.deep_view();
        let mut i: usize = 0;
        while i < self.components.len()
            invariant
                i <= cs.len(),
                cs == self.components.deep_view(),
                buf@ == head + components_bytes(cs.take(i as int)),
            decreases cs.len() - i,
        {
            let ghost before = buf@;
            write_counted(&mut buf, string_bytes(&self.components[i]));
            assert(cs.take(i + 1).drop_last() =~= cs.take(i as int));
            assert(cs.take(i + 1).last() == cs[i as int]);
            i = i + 1;
            assert(buf@ =~= head + components_bytes(cs.take(i as int)));
        }
        assert(cs.take(cs.len() as int) =~= cs);
        assert(buf@ =~= principal_bytes(self@));
        buf
    }

    /// Reads a principal at `*off` and moves `*off` past it.
    pub fn parse_at(data: &[u8], off: &mut usize) -> (res: Result<Self, CCacheError>)
        requires
            *old(off) <= data@.len(),
        ensures
            *final(off) <= data@.len(),
            match res {
                Ok(p) => parse_principal_at(data@, *old(off) as int) == Some((p@, *final(off) as int)),
                Err(e) => parse_principal_at(data@, *old(off) as int) is None && e
                    == CCacheError::UnexpectedEof,
            },
    {
        let name_type = read_be32(data, off)?;
        let num_components = read_be32(data, off)?;
        let realm_bytes = read_counted(data, off)?;
        let realm = text_from_bytes(realm_bytes.as_slice());
        let ghost start = *off as int;
        let mut components: Vec<String> = Vec::new();
        let mut i: u32 = 0;
        #[verifier::loop_isolation(false)]
        while i < num_components
            invariant
                i <= num_components,
                *off <= data@.len(),
                parse_components_at(data@, start, i as nat) == Some(
                    (components.deep_view(), *off as int),
                ),
            decreases num_components - i,
        {
            let ghost o = *off;
            match read_counted(data, off) {
                Ok(b) => {
                    let s = text_from_bytes(b.as_slice());
                    let ghost prev = components.deep_view();
                    components.push(s);
                    assert(components.deep_view() =~= prev.push(s@));
                    i = i + 1;
                },
                Err(e) => {
                    proof {
                        assert(parse_components_at(data@, start, (i + 1) as nat) is None);
                        lemma_components_none_grows(data@, start, (i + 1) as nat, num_components as nat);
                        assert(parse_components_at(data@, start, num_components as nat) is None);
                    }
                    return Err(e);
                },
            }
        }
        Ok(Self { name_type, realm, components })
    }

    /// Reads a principal from the start of `data`; the bytes it used.
    pub fn parse(data: &[u8]) -> (res: Result<(usize, Self), CCacheError>)
        ensures
            match res {
                Ok((n, p)) => parse_principal_at(data@, 0) == Some((p@, n as int)),
                Err(e) => parse_principal_at(data@, 0) is None && e == CCacheError::UnexpectedEof,
            },
    {
        let mut off: usize = 0;
        let p = Self::parse_at(data, &mut off)?;
        Ok((off, p))
    }
}

/// Once reading `j` components fails, reading more fails too.
pub proof fn lemma_components_none_grows(d: Seq<u8>, off: int, j: nat, k: nat)
    requires
        j <= k,
        parse_components_at(d, off, j) is None,
    ensures
        parse_components_at(d, off, k) is None,
    decreases k - j,
{
    if j < k {
        lemma_components_none_grows(d, off, j, (k - 1) as nat);
    }
}

/// Once reading `j` tagged entries fails, reading more fails too.
pub proof fn lemma_tagged_none_grows(d: Seq<u8>, off: int, j: nat, k: nat)
    requires
        j <= k,
        parse_tagged_list_at(d, off, j) is None,
    ensures
        parse_tagged_list_at(d, off, k) is None,
    decreases k - j,
{
    if j < k {
        lemma_tagged_none_grows(d, off, j, (k - 1) as nat);
    }
}

/// A key block: the session key's encryption type and bytes.
#[derive(Debug, Clone, PartialEq, Eq)]
pub struct KeyBlock {
    /// Encryption type, such as 18 = AES256_CTS_HMAC_SHA1_96.
    pub enctype: u16,
    /// The key bytes.
    pub keyvalue: Vec<u8>,
}

impl View for KeyBlock {
    type V = KeyBlockView;

    open spec fn view(&self) -> KeyBlockView {
        KeyBlockView { enctype: self.enctype, keyvalue: self.keyvalue@ }
    }
}

impl KeyBlock {
    pub fn new(enctype: u16, keyvalue: Vec<u8>) -> (res: Self)
        ensures
            res@ == (KeyBlockView { enctype, keyvalue: keyvalue@ }),
    {
        Self { enctype, keyvalue }
    }

    /// The FCC v4 encoding: the encryption type and the counted key (v4 has
    /// no separate etype field).
    pub fn build(&self) -> (res: Vec<u8>)
        ensures
            res@ == keyblock_bytes(self@),
    {
        let mut buf: Vec<u8> = Vec::new();
        write_be16(&mut buf, self.enctype);
        write_counted(&mut buf, self.keyvalue.as_slice());
        assert(buf@ =~= keyblock_bytes(self@));
        buf
    }

    /// Reads a key block at `*off` and moves `*off` past it.
    pub fn parse_at(data: &[u8], off: &mut usize) -> (res: Result<Self, CCacheError>)
        requires
            *old(off) <= data@.len(),
        ensures
            *final(off) <= data@.len(),
            match res {
                Ok(k) => parse_keyblock_at(data@, *old(off) as int) == Some((k@, *final(off) as int)),
                Err(e) => parse_keyblock_at(data@, *old(off) as int) is None && e
                    == CCacheError::UnexpectedEof,
            },
    {
        let enctype = read_be16(data, off)?;
        let keyvalue = read_counted(data, off)?;
        Ok(Self::new(enctype, keyvalue))
    }

    /// Reads a key block from the start of `data`; the bytes it used.
    pub fn parse(data: &[u8]) -> (res: Result<(usize, Self), CCacheError>)
        ensures
            match res {
                Ok((n, k)) => parse_keyblock_at(data@, 0) == Some((k@, n as int)),
                Err(e) => parse_keyblock_at(data@, 0) is None && e == CCacheError::UnexpectedEof,
            },
    {
        let mut off: usize = 0;
        let k = Self::parse_at(data, &mut off)?;
        Ok((off, k))
    }
}

/// The ticket times (Unix timestamps).
#[derive(Debug, Clone, Copy, PartialEq, Eq, Structural)]
pub struct Times {
    /// When the ticket was issued.
    pub authtime: u32,
    /// When the ticket becomes valid (often 0).
    pub starttime: u32,
    /// When the ticket expires.
    pub endtime: u32,
    /// Until when it can be renewed (0 when it cannot).
    pub renew_till: u32,
}

impl View for Times {
    type V = TimesView;

    open spec fn view(&self) -> TimesView {
        TimesView {
            authtime: self.authtime,
            starttime: self.starttime,
            endtime: self.endtime,
            renew_till: self.renew_till,
        }
    }
}

impl Times {
    pub fn new(authtime: u32, starttime: u32, endtime: u32, renew_till: u32) -> (res: Self)
        ensures
            res@ == (TimesView { authtime, starttime, endtime, renew_till }),
    {
        Self { authtime, starttime, endtime, renew_till }
    }

    /// The four times, each 32-bit big-endian, in order.
    pub fn build(&self) -> (res: Vec<u8>)
        ensures
            res@ == times_bytes(self@),
    {
        let mut buf: Vec<u8> = Vec::new();
        write_be32(&mut buf, self.authtime);
        write_be32(&mut buf, self.starttime);
        write_be32(&mut buf, self.endtime);
        write_be32(&mut buf, self.renew_till);
        assert(buf@ =~= times_bytes(self@));
        buf
    }

    /// Reads the times at `*off` and moves `*off` past them.
    pub fn parse_at(data: &[u8], off: &mut usize) -> (res: Result<Self, CCacheError>)
        requires
            *old(off) <= data@.len(),
        ensures
            *final(off) <= data@.len(),
            match res {
                Ok(t) => parse_times_at(data@, *old(off) as int) == Some((t@, *final(off) as int)),
                Err(e) => parse_times_at(data@, *old(off) as int) is None && e
                    == CCacheError::UnexpectedEof,
            },
    {
        let authtime = read_be32(data, off)?;
        let starttime = read_be32(data, off)?;
        let endtime = read_be32(data, off)?;
        let renew_till = read_be32(data, off)?;
        Ok(Self::new(authtime, starttime, endtime, renew_till))
    }

    /// Reads the times from the start of `data`; the bytes used.
    pub fn parse(data: &[u8]) -> (res: Result<(usize, Self), CCacheError>)
        ensures
            match res {
                Ok((n, t)) => parse_times_at(data@, 0) == Some((t@, n as int)),
                Err(e) => parse_times_at(data@, 0) is None && e == CCacheError::UnexpectedEof,
            },
    {
        let mut off: usize = 0;
        let t = Self::parse_at(data, &mut off)?;
        Ok((off, t))
    }
}

/// A host address (usually absent from caches).
#[derive(Debug, Clone, PartialEq, Eq)]
pub struct HostAddr {
    pub addr_type: u16,
    pub addr_data: Vec<u8>,
}

impl View for HostAddr {
    type V = TaggedView;

    open spec fn view(&self) -> TaggedView {
        TaggedView { tag: self.addr_type, data: self.addr_data@ }
    }
}

impl HostAddr {
    fn build(&self) -> (res: Vec<u8>)
        ensures
            res@ == tagged_bytes(self@),
    {
        let mut buf: Vec<u8> = Vec::new();
        write_be16(&mut buf, self.addr_type);
        write_counted(&mut buf, self.addr_data.as_slice());
        assert(buf@ =~= tagged_bytes(self@));
        buf
    }

    fn parse(data: &[u8], off: &mut usize) -> (res: Result<Self, CCacheError>)
        requires
            *old(off) <= data@.len(),
        ensures
            *final(off) <= data@.len(),
            match res {
                Ok(a) => parse_tagged_at(data@, *old(off) as int) == Some((a@, *final(off) as int)),
                Err(e) => parse_tagged_at(data@, *old(off) as int) is None && e
                    == CCacheError::UnexpectedEof,
            },
    {
        let addr_type = read_be16(data, off)?;
        let addr_data = read_counted(data, off)?;
        Ok(Self { addr_type, addr_data })
    }
}

/// An authorization-data entry (usually absent from caches).
#[derive(Debug, Clone, PartialEq, Eq)]
pub struct AuthData {
    pub ad_type: u16,
    pub ad_data: Vec<u8>,
}

impl View for AuthData {
    type V = TaggedView;

    open spec fn view(&self) -> TaggedView {
        TaggedView { tag: self.ad_type, data: self.ad_data@ }
    }
}

impl AuthData {
    fn build(&self) -> (res: Vec<u8>)
        ensures
            res@ == tagged_bytes(self@),
    {
        let mut buf: Vec<u8> = Vec::new();
        write_be16(&mut buf, self.ad_type);
        write_counted(&mut buf, self.ad_data.as_slice());
        assert(buf@ =~= tagged_bytes(self@));
        buf
    }

    fn parse(data: &[u8], off: &mut usize) -> (res: Result<Self, CCacheError>)
        requires
            *old(off) <= data@.len(),
        ensures
            *final(off) <= data@.len(),
            match res {
                Ok(a) => parse_tagged_at(data@, *old(off) as int) == Some((a@, *final(off) as int)),
                Err(e) => parse_tagged_at(data@, *old(off) as int) is None && e
                    == CCacheError::UnexpectedEof,
            },
    {
        let ad_type = read_be16(data, off)?;
        let ad_data = read_counted(data, off)?;
        Ok(Self { ad_type, ad_data })
    }
}

/// The models of a list of host addresses.
pub open spec fn addrs_view(v: Seq<HostAddr>) -> Seq<TaggedView> {
    Seq::new(v.len(), |i: int| v[i]@)
}

/// The models of a list of authorization-data entries.
pub open spec fn authdata_view(v: Seq<AuthData>) -> Seq<TaggedView> {
    Seq::new(v.len(), |i: int| v[i]@)
}


/// One Kerberos credential (a `krb5_creds`).
#[derive(Debug, Clone, PartialEq, Eq)]
pub struct Credential {
    pub client: Principal,
    pub server: Principal,
    pub key: KeyBlock,
    pub time: Times,
    /// Whether the ticket is encrypted in a session key (usually 0).
    pub is_skey: u8,
    /// Ticket flags (FORWARDABLE | RENEWABLE | ...).
    pub tktflags: u32,
    /// Host addresses (usually empty).
    pub addrs: Vec<HostAddr>,
    /// Authorization data (usually empty).
    pub authdata: Vec<AuthData>,
    /// The DER-encoded ticket.
    pub ticket: Vec<u8>,
    /// The second ticket (usually empty).
    pub second_ticket: Vec<u8>,
}

impl View for Credential {
    type V = CredentialView;

    open spec fn view(&self) -> CredentialView {
        CredentialView {
            client: self.client@,
            server: self.server@,
            key: self.key@,
            time: self.time@,
            is_skey: self.is_skey,
            tktflags: self.tktflags,
            addrs: addrs_view(self.addrs@),
            authdata: authdata_view(self.authdata@),
            ticket: self.ticket@,
            second_ticket: self.second_ticket@,
        }
    }
}

impl Credential {
    pub fn new(
        client: Principal,
        server: Principal,
        key: KeyBlock,
        time: Times,
        is_skey: u8,
        tktflags: u32,
        ticket: Vec<u8>,
    ) -> (res: Self)
        ensures
            res@ == (CredentialView {
                client: client@,
                server: server@,
                key: key@,
                time: time@,
                is_skey,
                tktflags,
                addrs: seq![],
                authdata: seq![],
                ticket: ticket@,
                second_ticket: seq![],
            }),
    {
        let res = Self {
            client,
            server,
            key,
            time,
            is_skey,
            tktflags,
            addrs: Vec::new(),
            authdata: Vec::new(),
            ticket,
            second_ticket: Vec::new(),
        };
        assert(res@.addrs =~= seq![]);
        assert(res@.authdata =~= seq![]);
        res
    }

    /// The FCC v4 encoding of this credential.
    pub fn build(&self) -> (res: Vec<u8>)
        ensures
            res@ == credential_bytes(self@),
            res@.len() >= 8 + self.ticket@.len() + self.second_ticket@.len(),
            res@.subrange(res@.len() - (8 + self.ticket@.len() + self.second_ticket@.len()), res@.len() as int)
                == be32(self.ticket@.len() as u32) + self.ticket@ + be32(self.second_ticket@.len() as u32)
                + self.second_ticket@,
    {
        let mut buf: Vec<u8> = Vec::new();
        let mut part = self.client.build();
        buf.append(&mut part);
        let mut part = self.server.build();
        buf.append(&mut part);
        let mut part = self.build_tail();
        buf.append(&mut part);
        assert(buf@ =~= credential_bytes(self@));
        proof {
            crate::ccache_laws::law_credential_ends_with_tickets(self@);
        }
        buf
    }

    /// The encoding of everything after the two principals.
    fn build_tail(&self) -> (res: Vec<u8>)
        ensures
            res@ == credential_tail_bytes(self@),
    {
        let mut buf: Vec<u8> = Vec::new();
        let mut part = self.key.build();
        buf.append(&mut part);
        let mut part = self.time.build();
        buf.append(&mut part);
        buf.push(self.is_skey);
        write_be32(&mut buf, self.tktflags);
        write_be32(&mut buf, self.addrs.len() as u32);
        let ghost head = buf@;
        let ghost av = addrs_view(self.addrs@);
        let mut i: usize = 0;
        while i < self.addrs.len()
            invariant
                i <= av.len(),
                av == addrs_view(self.addrs@),
                buf@ == head + tagged_list_bytes(av.take(i as int)),
            decreases av.len() - i,
        {
            let mut part = self.addrs[i].build();
            buf.append(&mut part);
            assert(av.take(i + 1).drop_last() =~= av.take(i as int));
            i = i + 1;
            assert(buf@ =~= head + tagged_list_bytes(av.take(i as int)));
        }
        assert(av.take(av.len() as int) =~= av);
        write_be32(&mut buf, self.authdata.len() as u32);
        let ghost head2 = buf@;
        let ghost dv = authdata_view(self.authdata@);
        let mut j: usize = 0;
        while j < self.authdata.len()
            invariant
                j <= dv.len(),
                dv == authdata_view(self.authdata@),
                buf@ == head2 + tagged_list_bytes(dv.take(j as int)),
            decreases dv.len() - j,
        {
            let mut part = self.authdata[j].build();
            buf.append(&mut part);
            assert(dv.take(j + 1).drop_last() =~= dv.take(j as int));
            j = j + 1;
            assert(buf@ =~= head2 + tagged_list_bytes(dv.take(j as int)));
        }
        assert(dv.take(dv.len() as int) =~= dv);
        write_counted(&mut buf, self.ticket.as_slice());
        write_counted(&mut buf, self.second_ticket.as_slice());
        assert(buf@ =~= credential_tail_bytes(self@));
        buf
    }

    /// Reads a credential at `*off` and moves `*off` past it.
    pub fn parse_at(data: &[u8], off: &mut usize) -> (res: Result<Self, CCacheError>)
        requires
            *old(off) <= data@.len(),
        ensures
            *final(off) <= data@.len(),
            match res {
                Ok(c) => parse_credential_at(data@, *old(off) as int) == Some((c@, *final(off) as int)),
                Err(e) => parse_credential_at(data@, *old(off) as int) is None && e
                    == CCacheError::UnexpectedEof,
            },
    {
        reveal(parse_credential_at);
        let client = Principal::parse_at(data, off)?;
        let server = Principal::parse_at(data, off)?;
        let key = KeyBlock::parse_at(data, off)?;
        let time = Times::parse_at(data, off)?;
        if *off >= data.len() {
            return Err(CCacheError::UnexpectedEof);
        }
        let is_skey = data[*off];
        *off = *off + 1;
        let tktflags = read_be32(data, off)?;
        let num_addrs = read_be32(data, off)?;
        let ghost start_a = *off as int;
        let mut addrs: Vec<HostAddr> = Vec::new();
        let mut i: u32 = 0;
        #[verifier::loop_isolation(false)]
        while i < num_addrs
            invariant
                i <= num_addrs,
                *off <= data@.len(),
                parse_tagged_list_at(data@, start_a, i as nat) == Some(
                    (addrs_view(addrs@), *off as int),
                ),
            decreases num_addrs - i,
        {
            match HostAddr::parse(data, off) {
                Ok(a) => {
                    let ghost prev = addrs_view(addrs@);
                    addrs.push(a);
                    assert(addrs_view(addrs@) =~= prev.push(a@));
                    i = i + 1;
                },
                Err(e) => {
                    proof {
                        lemma_tagged_none_grows(data@, start_a, (i + 1) as nat, num_addrs as nat);
                    }
                    return Err(e);
                },
            }
        }
        let num_authdata = read_be32(data, off)?;
        let ghost start_d = *off as int;
        let mut authdata: Vec<AuthData> = Vec::new();
        let mut j: u32 = 0;
        #[verifier::loop_isolation(false)]
        while j < num_authdata
            invariant
                j <= num_authdata,
                *off <= data@.len(),
                parse_tagged_list_at(data@, start_d, j as nat) == Some(
                    (authdata_view(authdata@), *off as int),
                ),
            decreases num_authdata - j,
        {
            match AuthData::parse(data, off) {
                Ok(a) => {
                    let ghost prev = authdata_view(authdata@);
                    authdata.push(a);
                    assert(authdata_view(authdata@) =~= prev.push(a@));
                    j = j + 1;
                },
                Err(e) => {
                    proof {
                        lemma_tagged_none_grows(data@, start_d, (j + 1) as nat, num_authdata as nat);
                    }
                    return Err(e);
                },
            }
        }
        let ticket = read_counted(data, off)?;
        let second_ticket = read_counted(data, off)?;
        Ok(
            Self {
                client,
                server,
                key,
                time,
                is_skey,
                tktflags,
                addrs,
                authdata,
                ticket,
                second_ticket,
            },
        )
    }

    /// Reads a credential from the start of `data`; the bytes it used.
    pub fn parse(data: &[u8]) -> (res: Result<(usize, Self), CCacheError>)
        ensures
            match res {
                Ok((n, c)) => parse_credential_at(data@, 0) == Some((c@, n as int)),
                Err(e) => parse_credential_at(data@, 0) is None && e == CCacheError::UnexpectedEof,
            },
    {
        let mut off: usize = 0;
        let c = Self::parse_at(data, &mut off)?;
        Ok((off, c))
    }
}

/// The models of a list of credentials.
pub open spec fn credentials_view(v: Seq<Credential>) -> Seq<CredentialView> {
    Seq::new(v.len(), |i: int| v[i]@)
}

/// A whole MIT credential cache (FCC v4): the default principal, then the
/// credentials.
#[derive(Debug, Clone)]
pub struct CCache {
    /// The principal that owns the cache.
    pub default_principal: Principal,
    /// The credentials (usually a single TGT).
    pub credentials: Vec<Credential>,
}

impl View for CCache {
    type V = CCacheView;

    open spec fn view(&self) -> CCacheView {
        CCacheView {
            default_principal: self.default_principal@,
            credentials: credentials_view(self.credentials@),
        }
    }
}

impl CCache {
    pub fn new(default_principal: Principal, credentials: Vec<Credential>) -> (res: Self)
        ensures
            res@ == (CCacheView {
                default_principal: default_principal@,
                credentials: credentials_view(credentials@),
            }),
    {
        Self { default_principal, credentials }
    }

    /// The FCC v4 file: header, default principal, credentials.
    pub fn build(&self) -> (res: Vec<u8>)
        ensures
            res@ == ccache_bytes(self@),
    {
        let mut buf: Vec<u8> = Vec::new();
        write_be16(&mut buf, 0x0504);
        write_be16(&mut buf, 12);
        write_be16(&mut buf, 0x0001);
        write_be16(&mut buf, 8);
        write_be32(&mut buf, 0);
        write_be32(&mut buf, 0);
        assert(buf@ =~= ccache_header_bytes());
        let mut part = self.default_principal.build();
        buf.append(&mut part);
        let ghost head = buf@;
        let ghost cv = credentials_view(self.credentials@);
        let mut i: usize = 0;
        while i < self.credentials.len()
            invariant
                i <= cv.len(),
                cv == credentials_view(self.credentials@),
                buf@ == head + credentials_bytes(cv.take(i as int)),
            decreases cv.len() - i,
        {
            let mut part = self.credentials[i].build();
            buf.append(&mut part);
            assert(cv.take(i + 1).drop_last() =~= cv.take(i as int));
            i = i + 1;
            assert(buf@ =~= head + credentials_bytes(cv.take(i as int)));
        }
        assert(cv.take(cv.len() as int) =~= cv);
        assert(buf@ =~= ccache_bytes(self@));
        buf
    }

    /// Whether `parse` takes the data: it does not announce a header that
    /// runs past its end.
    pub fn header_in_bounds(data: &[u8]) -> (res: bool)
        ensures
            res == ccache_header_in_bounds(data@),
    {
        if data.len() < 4 {
            return true;
        }
        let tag: u16 = ((data[0] as u16) << 8u16) | (data[1] as u16);
        if tag != 0x0504 {
            return true;
        }
        let header_len: u16 = ((data[2] as u16) << 8u16) | (data[3] as u16);
        header_len as usize <= data.len() - 4
    }

    /// Reads a whole cache. `data` must not announce a header that runs past
    /// its end (the reader would step outside the data there).
    pub fn parse(data: &[u8]) -> (res: Result<(usize, Self), CCacheError>)
        requires
            ccache_header_in_bounds(data@),
        ensures
            match res {
                Ok((n, c)) => parse_ccache(data@) == Ok::<(CCacheView, int), CCacheError>((c@, n as int)),
                Err(e) => parse_ccache(data@) == Err::<(CCacheView, int), CCacheError>(e),
            },
    {
        let mut off: usize = 0;
        let tag = read_be16(data, &mut off)?;
        if tag != 0x0504 {
            return Err(CCacheError::UnsupportedVersion(tag));
        }
        let header_len = read_be16(data, &mut off)?;
        off = off + header_len as usize;
        let default_principal = Principal::parse_at(data, &mut off)?;
        let ghost start = off as int;
        let mut credentials: Vec<Credential> = Vec::new();
        #[verifier::loop_isolation(false)]
        while off < data.len()
            invariant
                off <= data@.len(),
                start <= off,
                match parse_credentials_from(data@, off as int) {
                    Some(rest) => parse_credentials_from(data@, start) == Some(
                        credentials_view(credentials@) + rest,
                    ),
                    None => parse_credentials_from(data@, start) is None,
                },
            decreases data@.len() - off,
        {
            let ghost o = off as int;
            let cred = Credential::parse_at(data, &mut off)?;
            proof {
                lemma_parse_credential_advances(data@, o);
                let prev = credentials_view(credentials@);
                assert(credentials_view(credentials@.push(cred)) =~= prev.push(cred@));
                match parse_credentials_from(data@, off as int) {
                    Some(rest) => {
                        assert(prev + (seq![cred@] + rest) =~= prev.push(cred@) + rest);
                    },
                    None => {},
                }
            }
            credentials.push(cred);
        }
        assert(credentials_view(credentials@) + seq![] =~= credentials_view(credentials@));
        Ok((off, Self::new(default_principal, credentials)))
    }
}

// ───────────────── reading moves forward ─────────────────

pub proof fn lemma_components_advance(d: Seq<u8>, off: int, k: nat)
    requires
        parse_components_at(d, off, k) is Some,
    ensures
        parse_components_at(d, off, k).unwrap().1 >= off,
    decreases k,
{
    if k > 0 {
        lemma_components_advance(d, off, (k - 1) as nat);
    }
}

pub proof fn lemma_tagged_list_advance(d: Seq<u8>, off: int, k: nat)
    requires
        parse_tagged_list_at(d, off, k) is Some,
    ensures
        parse_tagged_list_at(d, off, k).unwrap().1 >= off,
    decreases k,
{
    if k > 0 {
        lemma_tagged_list_advance(d, off, (k - 1) as nat);
    }
}

pub proof fn lemma_principal_advances(d: Seq<u8>, off: int)
    requires
        parse_principal_at(d, off) is Some,
    ensures
        parse_principal_at(d, off).unwrap().1 >= off + 12,
{
    let (k, o2) = crate::bytes::parse_be32_at(d, off + 4).unwrap();
    let (rb, o3) = crate::bytes::parse_counted_at(d, o2).unwrap();
    lemma_components_advance(d, o3, k as nat);
}

/// Reading a credential consumes at least one byte.
pub proof fn lemma_parse_credential_advances(d: Seq<u8>, off: int)
    requires
        parse_credential_at(d, off) is Some,
    ensures
        off < parse_credential_at(d, off).unwrap().1 <= d.len(),
{
    reveal(parse_credential_at);
    lemma_principal_advances(d, off);
    let o1 = parse_principal_at(d, off).unwrap().1;
    lemma_principal_advances(d, o1);
    let o2 = parse_principal_at(d, o1).unwrap().1;
    let (key, o3) = parse_keyblock_at(d, o2).unwrap();
    let (time, o4) = parse_times_at(d, o3).unwrap();
    let (na, o7) = crate::bytes::parse_be32_at(d, o4 + 5).unwrap();
    lemma_tagged_list_advance(d, o7, na as nat);
    let o8 = parse_tagged_list_at(d, o7, na as nat).unwrap().1;
    let (nd, o9) = crate::bytes::parse_be32_at(d, o8).unwrap();
    lemma_tagged_list_advance(d, o9, nd as nat);
}

} // verus!
