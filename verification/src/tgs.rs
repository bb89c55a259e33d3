//! Service tickets from a KDC (the TGS exchange of RFC 4120 3.3): the
//! TGS-REQ with its PA-TGS-REQ authenticator, and the reading of the KDC's
//! reply into a credential. Sending the request and receiving the reply is
//! left to the caller.

use vstd::prelude::*;
use vstd::string::{StrSliceExecFns, StringExecFns};
use crate::ap_req::{ap_req_der, authenticator_der, encode_ap_req, encode_authenticator};
use crate::constants::{
    ADDRESS_TYPE_IPV4, AES128_CTS_HMAC_SHA1_96, FORWARDABLE, HMAC_SHA1_96_AES128,
    HMAC_SHA1_96_AES256, KEY_USAGE_TGS_REP_ENC_PART_SESSION_KEY, KEY_USAGE_TGS_REQ_AUTHEN,
    KEY_USAGE_TGS_REQ_AUTHEN_CKSUM, NT_PRINCIPAL, PA_PAC_REQUEST, PA_TGS_REQ, RC4_HMAC, RENEWABLE,
    RENEWABLE_OK,
};
use crate::credential::{
    Credential, EncryptedPart, PrincipalName, PrincipalNameView, SessionKey, TicketInfo, TicketView,
};
use crate::crypto::{
    checksum_hmac_md5, checksum_sha_aes, decrypt, decryption, encrypt, hmac_md5_checksum,
    is_supported_etype, key_len_ok, opt_bytes, sha_aes_checksum, supported_etype, AesKind,
};
use crate::der::{asn1_reader_safe, check_asn1_reader_safe};
use crate::fmt::join;
use crate::strs::{law_split_join, lemma_split_on_absent, lemma_split_on_nonempty, split_chars, split_on};
use crate::system::{chrono_time_ok, clock_plus, clock_reading, random_u32, time_plus, utc_now};
use chrono::DateTime;
use kerberos_asn1::{Asn1Object, HostAddress, KdcReqBody, PaData, TgsReq};

verus! {

// ───────────────────────── service names ─────────────────────────

/// The name components of a service principal: the part before any
/// `@REALM`, split on '/' (`hive/bd-pr-nn1@GHAC.COM` gives `hive`,
/// `bd-pr-nn1`).
pub open spec fn service_name_spec(spn: Seq<char>) -> Seq<Seq<char>> {
    split_on(split_on(spn, '@')[0], '/')
}

/// The name components of a service principal.
pub fn service_name_components(service_principal: &str) -> (res: Vec<String>)
    ensures
        res.deep_view() == service_name_spec(service_principal@),
        res.len() >= 1,
{
    let at_parts = split_chars(service_principal, '@');
    proof {
        lemma_split_on_nonempty(service_principal@, '@');
        assert(at_parts.deep_view()[0] == at_parts@[0]@);
    }
    let name: &str = at_parts[0].as_str();
    let res = split_chars(name, '/');
    proof {
        lemma_split_on_nonempty(name@, '/');
        assert(res.deep_view().len() == res@.len());
    }
    res
}

/// A service principal without a realm is its name components joined
/// with '/'.
pub proof fn law_service_name_join(spn: Seq<char>)
    requires
        forall|i: int| 0 <= i < spn.len() ==> spn[i] != '@',
    ensures
        join(service_name_spec(spn), seq!['/']) == spn,
{
    lemma_split_on_absent(spn, '@');
    law_split_join(spn, '/');
}

// ───────────────────────── the requester ─────────────────────────

/// The transport a KDC is reached over.
#[derive(Debug, Clone, Copy, PartialEq, Eq, Structural)]
pub enum TransportProtocol {
    TCP,
    UDP,
}

/// Errors of the TGS exchange.
#[derive(Debug, Clone, PartialEq, Eq)]
pub enum TgsError {
    /// No cipher exists for the encryption type.
    UnsupportedEtype(i32),
    /// The current time, or the ticket lifetime added to it, cannot be
    /// represented.
    TimeOutOfRange,
    /// The reply is neither a KRB-ERROR nor a TGS-REP.
    DecodeResponse,
    /// The reply, or its decrypted part, holds an encoding that the DER
    /// reader does not take (see `asn1_reader_safe`).
    MalformedEncoding,
    /// The KDC answered with a KRB-ERROR.
    KrbErrorResponse(KrbErrorInfo),
    /// The encrypted part of the TGS-REP does not decrypt under the TGT
    /// session key.
    Decrypt,
    /// The decrypted part is no EncTGSRepPart.
    DecodeEncPart,
    /// The TGT session key does not have the length that the encryption type
    /// of the reply's encrypted part takes.
    SessionKeyLength,
}

/// Builds TGS-REQ messages for a realm and reads the replies.
pub struct TgsRequester {
    realm: String,
    etypes: Vec<i32>,
}

/// The encryption types offered, in order of preference: AES256 first so
/// that the KDC prefers it for the session key.
pub open spec fn offered_etypes() -> Seq<i32> {
    seq![18i32, 17i32, 23i32]
}

impl TgsRequester {
    pub closed spec fn spec_realm(&self) -> Seq<char> {
        self.realm@
    }

    pub closed spec fn spec_etypes(&self) -> Seq<i32> {
        self.etypes@
    }

    /// A requester for the realm, offering AES256, AES128 and RC4-HMAC.
    pub fn new(realm: String) -> (res: Self)
        ensures
            res.spec_realm() == realm@,
            res.spec_etypes() == offered_etypes(),
    {
        let mut etypes: Vec<i32> = Vec::new();
        etypes.push(18);
        etypes.push(17);
        etypes.push(23);
        assert(etypes@ =~= offered_etypes());
        Self { realm, etypes }
    }

    /// Kept for compatibility: the transport is chosen where the requests
    /// are sent, so this changes nothing.
    pub fn set_transport_protocol(&mut self, transport_protocol: TransportProtocol)
        ensures
            final(self).spec_realm() == old(self).spec_realm(),
            final(self).spec_etypes() == old(self).spec_etypes(),
    {
    }
}

// ───────────────────────── the KDC's reply ─────────────────────────

/// The view of an optional string.
pub open spec fn opt_text(o: Option<String>) -> Option<Seq<char>> {
    match o {
        Some(t) => Some(t@),
        None => None,
    }
}

/// What a KRB-ERROR says: the error code, the client realm where given, the
/// service realm and name, and the error text where given.
#[derive(Debug, Clone, PartialEq, Eq)]
pub struct KrbErrorInfo {
    pub error_code: i32,
    pub crealm: Option<String>,
    pub realm: String,
    pub sname: PrincipalName,
    pub e_text: Option<String>,
}

pub struct KrbErrorView {
    pub error_code: i32,
    pub crealm: Option<Seq<char>>,
    pub realm: Seq<char>,
    pub sname: PrincipalNameView,
    pub e_text: Option<Seq<char>>,
}

impl View for KrbErrorInfo {
    type V = KrbErrorView;

    open spec fn view(&self) -> KrbErrorView {
        KrbErrorView {
            error_code: self.error_code,
            crealm: opt_text(self.crealm),
            realm: self.realm@,
            sname: self.sname@,
            e_text: opt_text(self.e_text),
        }
    }
}

/// The parts of a TGS-REP that the client reads: client realm and name, the
/// service ticket, and the encryption type and ciphertext of the encrypted
/// part.
#[derive(Debug, Clone, PartialEq, Eq)]
pub struct TgsRepParts {
    pub crealm: String,
    pub cname: PrincipalName,
    pub ticket: TicketInfo,
    pub enc_etype: i32,
    pub enc_cipher: Vec<u8>,
}

pub struct TgsRepView {
    pub crealm: Seq<char>,
    pub cname: PrincipalNameView,
    pub ticket: TicketView,
    pub enc_etype: i32,
    pub enc_cipher: Seq<u8>,
}

impl View for TgsRepParts {
    type V = TgsRepView;

    open spec fn view(&self) -> TgsRepView {
        TgsRepView {
            crealm: self.crealm@,
            cname: self.cname@,
            ticket: self.ticket@,
            enc_etype: self.enc_etype,
            enc_cipher: self.enc_cipher@,
        }
    }
}

/// The parts of an EncTGSRepPart that go into a credential: the session key,
/// the ticket flags, the times in Unix seconds and the service realm and name.
#[derive(Debug, Clone, PartialEq, Eq)]
pub struct EncRepPartInfo {
    pub key: SessionKey,
    pub flags: u32,
    pub authtime: i64,
    pub starttime: Option<i64>,
    pub endtime: i64,
    pub renew_till: Option<i64>,
    pub srealm: String,
    pub sname: PrincipalName,
}

pub struct EncRepPartView {
    pub keytype: i32,
    pub keyvalue: Seq<u8>,
    pub flags: u32,
    pub authtime: i64,
    pub starttime: Option<i64>,
    pub endtime: i64,
    pub renew_till: Option<i64>,
    pub srealm: Seq<char>,
    pub sname: PrincipalNameView,
}

impl View for EncRepPartInfo {
    type V = EncRepPartView;

    open spec fn view(&self) -> EncRepPartView {
        EncRepPartView {
            keytype: self.key.keytype,
            keyvalue: self.key.keyvalue@,
            flags: self.flags,
            authtime: self.authtime,
            starttime: self.starttime,
            endtime: self.endtime,
            renew_till: self.renew_till,
            srealm: self.srealm@,
            sname: self.sname@,
        }
    }
}

/// A reply of the KDC to a TGS-REQ.
#[derive(Debug)]
pub enum TgsReqResponse {
    KrbError(KrbErrorInfo),
    TgsRep(TgsRepParts),
}

/// What `kerberos_asn1::KrbError::parse` reads from the bytes, where it
/// succeeds.
pub uninterp spec fn krb_error_of(raw: Seq<u8>) -> Option<KrbErrorView>;

/// What `kerberos_asn1::TgsRep::parse` reads from the bytes, where it
/// succeeds.
pub uninterp spec fn tgs_rep_of(raw: Seq<u8>) -> Option<TgsRepView>;

/// What `kerberos_asn1::EncTgsRepPart::parse` reads from the bytes, where it
/// succeeds (times as `timestamp()` gives them, flags as the BIT STRING's
/// 32 bits).
pub uninterp spec fn enc_tgs_rep_part_of(raw: Seq<u8>) -> Option<EncRepPartView>;

/// Calls `kerberos_asn1::KrbError::parse` and moves out the fields the
/// client reports. The reader panics on some encodings (a time field that
/// is no calendar date or time, among others: see `asn1_reader_safe`),
/// which are left out.
#[verifier::external_body]
fn parse_krb_error(raw: &[u8]) -> (res: Option<KrbErrorInfo>)
    requires
        asn1_reader_safe(raw@),
    ensures
        match res {
            Some(e) => krb_error_of(raw@) == Some(e@),
            None => krb_error_of(raw@) is None,
        },
{
    let (_, e) = kerberos_asn1::KrbError::parse(raw).ok()?;
    let sname = PrincipalName { name_type: e.sname.name_type, name_string: e.sname.name_string };
    Some(KrbErrorInfo { error_code: e.error_code, crealm: e.crealm, realm: e.realm, sname, e_text: e.e_text })
}

/// Calls `kerberos_asn1::TgsRep::parse` and moves out the fields the client
/// reads. The encodings on which the reader panics (see
/// `asn1_reader_safe`) are left out.
#[verifier::external_body]
fn parse_tgs_rep(raw: &[u8]) -> (res: Option<TgsRepParts>)
    requires
        asn1_reader_safe(raw@),
    ensures
        match res {
            Some(r) => tgs_rep_of(raw@) == Some(r@),
            None => tgs_rep_of(raw@) is None,
        },
{
    let (_, r) = kerberos_asn1::TgsRep::parse(raw).ok()?;
    let cname = PrincipalName { name_type: r.cname.name_type, name_string: r.cname.name_string };
    let t = r.ticket;
    let sname = PrincipalName { name_type: t.sname.name_type, name_string: t.sname.name_string };
    let enc_part = EncryptedPart { etype: t.enc_part.etype, kvno: t.enc_part.kvno, cipher: t.enc_part.cipher };
    let ticket = TicketInfo { tkt_vno: t.tkt_vno, realm: t.realm, sname, enc_part };
    Some(TgsRepParts { crealm: r.crealm, cname, ticket, enc_etype: r.enc_part.etype, enc_cipher: r.enc_part.cipher })
}

/// Calls `kerberos_asn1::EncTgsRepPart::parse` and moves out the fields that
/// go into a credential, times converted with chrono's `timestamp()`. The
/// encodings on which the reader panics (see `asn1_reader_safe`) are left
/// out.
#[verifier::external_body]
fn parse_enc_tgs_rep_part(raw: &[u8]) -> (res: Option<EncRepPartInfo>)
    requires
        asn1_reader_safe(raw@),
    ensures
        match res {
            Some(p) => enc_tgs_rep_part_of(raw@) == Some(p@),
            None => enc_tgs_rep_part_of(raw@) is None,
        },
{
    let (_, p) = kerberos_asn1::EncTgsRepPart::parse(raw).ok()?;
    Some(EncRepPartInfo {
        key: SessionKey { keytype: p.key.keytype, keyvalue: p.key.keyvalue },
        flags: p.flags.flags,
        authtime: p.authtime.timestamp(),
        starttime: p.starttime.map(|t| t.timestamp()),
        endtime: p.endtime.timestamp(),
        renew_till: p.renew_till.map(|t| t.timestamp()),
        srealm: p.srealm,
        sname: PrincipalName { name_type: p.sname.name_type, name_string: p.sname.name_string },
    })
}

/// Reads a KDC reply: a KRB-ERROR where the bytes parse as one, else a
/// TGS-REP where they parse as one; bytes that the DER reader does not take
/// are refused first.
pub fn classify_tgs_response(raw_response: &[u8]) -> (res: Result<TgsReqResponse, TgsError>)
    ensures
        !asn1_reader_safe(raw_response@) ==> res matches Err(TgsError::MalformedEncoding),
        asn1_reader_safe(raw_response@) ==> match krb_error_of(raw_response@) {
            Some(e) => res matches Ok(TgsReqResponse::KrbError(i)) && i@ == e,
            None => match tgs_rep_of(raw_response@) {
                Some(r) => res matches Ok(TgsReqResponse::TgsRep(p)) && p@ == r,
                None => res matches Err(TgsError::DecodeResponse),
            },
        },
{
    if !check_asn1_reader_safe(raw_response) {
        return Err(TgsError::MalformedEncoding);
    }
    match parse_krb_error(raw_response) {
        Some(e) => Ok(TgsReqResponse::KrbError(e)),
        None => match parse_tgs_rep(raw_response) {
            Some(r) => Ok(TgsReqResponse::TgsRep(r)),
            None => Err(TgsError::DecodeResponse),
        },
    }
}

/// The credential holds the client and the ticket of the TGS-REP and what
/// its decrypted part says.
pub open spec fn credential_matches(c: Credential, rep: TgsRepView, part: EncRepPartView) -> bool {
    &&& c.crealm@ == rep.crealm
    &&& c.cname@ == rep.cname
    &&& c.ticket@ == rep.ticket
    &&& c.key.keytype == part.keytype
    &&& c.key.keyvalue@ == part.keyvalue
    &&& c.srealm@ == part.srealm
    &&& c.sname@ == part.sname
    &&& c.authtime == part.authtime
    &&& c.starttime == part.starttime
    &&& c.endtime == part.endtime
    &&& c.renew_till == part.renew_till
    &&& c.flags == part.flags
}

/// What reading a TGS-REP with the TGT session key gives: an error where
/// the encryption type has no cipher, where the part does not decrypt, holds
/// an encoding the DER reader does not take, or does not parse, else the
/// credential.
pub open spec fn tgs_rep_outcome(session_key: Seq<u8>, rep: TgsRepView, res: Result<Credential, TgsError>) -> bool {
    if !supported_etype(rep.enc_etype) {
        res == Err::<Credential, TgsError>(TgsError::UnsupportedEtype(rep.enc_etype))
    } else {
        match decryption(rep.enc_etype, session_key, KEY_USAGE_TGS_REP_ENC_PART_SESSION_KEY, rep.enc_cipher) {
            None => res == Err::<Credential, TgsError>(TgsError::Decrypt),
            Some(plain) => if !asn1_reader_safe(plain) {
                res == Err::<Credential, TgsError>(TgsError::MalformedEncoding)
            } else {
                match enc_tgs_rep_part_of(plain) {
                    None => res == Err::<Credential, TgsError>(TgsError::DecodeEncPart),
                    Some(part) => res matches Ok(c) && credential_matches(c, rep, part),
                }
            },
        }
    }
}

/// Decrypts the encrypted part of a TGS-REP with the TGT session key and
/// makes the service credential of it.
pub fn extract_credential_from_tgs_rep(tgt_credential: &Credential, tgs_rep: TgsRepParts) -> (res: Result<Credential, TgsError>)
    requires
        key_len_ok(tgs_rep.enc_etype, tgt_credential.key.keyvalue@.len()),
    ensures
        tgs_rep_outcome(tgt_credential.key.keyvalue@, tgs_rep@, res),
{
    let etype = tgs_rep.enc_etype;
    if !is_supported_etype(etype) {
        return Err(TgsError::UnsupportedEtype(etype));
    }
    let plaintext = match decrypt(
        etype,
        tgt_credential.key.keyvalue.as_slice(),
        KEY_USAGE_TGS_REP_ENC_PART_SESSION_KEY,
        tgs_rep.enc_cipher.as_slice(),
    ) {
        Some(p) => p,
        None => return Err(TgsError::Decrypt),
    };
    if !check_asn1_reader_safe(plaintext.as_slice()) {
        return Err(TgsError::MalformedEncoding);
    }
    let part = match parse_enc_tgs_rep_part(plaintext.as_slice()) {
        Some(p) => p,
        None => return Err(TgsError::DecodeEncPart),
    };
    Ok(Credential {
        crealm: tgs_rep.crealm,
        cname: tgs_rep.cname,
        ticket: tgs_rep.ticket,
        key: part.key,
        srealm: part.srealm,
        sname: part.sname,
        authtime: part.authtime,
        starttime: part.starttime,
        endtime: part.endtime,
        renew_till: part.renew_till,
        flags: part.flags,
    })
}

/// Reads the KDC's reply to a TGS-REQ into the service credential: a
/// KRB-ERROR becomes an error; a TGS-REP whose encrypted part is of a type
/// whose key length the TGT session key does not have is refused.
pub fn handle_tgs_response(tgt_credential: &Credential, raw_response: &[u8]) -> (res: Result<Credential, TgsError>)
    ensures
        !asn1_reader_safe(raw_response@) ==> res == Err::<Credential, TgsError>(TgsError::MalformedEncoding),
        asn1_reader_safe(raw_response@) ==> match krb_error_of(raw_response@) {
            Some(e) => res matches Err(TgsError::KrbErrorResponse(i)) && i@ == e,
            None => match tgs_rep_of(raw_response@) {
                None => res == Err::<Credential, TgsError>(TgsError::DecodeResponse),
                Some(r) => if key_len_ok(r.enc_etype, tgt_credential.key.keyvalue@.len()) {
                    tgs_rep_outcome(tgt_credential.key.keyvalue@, r, res)
                } else {
                    res == Err::<Credential, TgsError>(TgsError::SessionKeyLength)
                },
            },
        },
{
    match classify_tgs_response(raw_response) {
        Ok(TgsReqResponse::KrbError(e)) => Err(TgsError::KrbErrorResponse(e)),
        Ok(TgsReqResponse::TgsRep(r)) => {
            if !key_len_fits(r.enc_etype, tgt_credential.key.keyvalue.len()) {
                return Err(TgsError::SessionKeyLength);
            }
            extract_credential_from_tgs_rep(tgt_credential, r)
        },
        Err(e) => Err(e),
    }
}

/// Whether a key of this length suits the encryption type's cipher.
pub fn key_len_fits(etype: i32, key_len: usize) -> (res: bool)
    ensures
        res == key_len_ok(etype, key_len as nat),
{
    if etype == 18 {
        key_len == 32
    } else if etype == 17 {
        key_len == 16
    } else {
        true
    }
}

// ───────────────────────── the request ─────────────────────────

/// The KDC options of a TGS-REQ: forwardable, renewable, renewable-ok.
pub open spec fn tgs_kdc_options() -> u32 {
    0x40800010
}

/// The client address carried in a TGS-REQ (IPv4 10.110.149.18): a KDC that
/// gets no address leaves the PAC out of the service ticket.
pub open spec fn tgs_client_address() -> Seq<u8> {
    seq![10u8, 110u8, 149u8, 18u8]
}

/// The KDC-REQ-BODY of a TGS-REQ for the service: the KDC options
/// forwardable, renewable and renewable-ok, the client address, the realm,
/// the service name (type NT-PRINCIPAL, the components of the service
/// principal), the times, the nonce and the offered encryption types.
pub open spec fn tgs_body_view(
    realm: Seq<char>,
    etypes: Seq<i32>,
    service_principal: Seq<char>,
    nonce: u32,
    till: (i64, u32),
    rtime: (i64, u32),
) -> KdcReqBodyView {
    KdcReqBodyView {
        kdc_options: tgs_kdc_options(),
        realm,
        sname: PrincipalNameView { name_type: NT_PRINCIPAL, name_string: service_name_spec(service_principal) },
        till,
        rtime,
        nonce,
        etypes,
        addr_type: ADDRESS_TYPE_IPV4,
        address: tgs_client_address(),
    }
}

/// The KERB-PA-PAC-REQUEST asking for the PAC.
pub open spec fn pac_request_bytes() -> Seq<u8> {
    seq![0x30u8, 0x05u8, 0xa0u8, 0x03u8, 0x01u8, 0x01u8, 0xffu8]
}

/// The lifetime asked for the service ticket and its renewal: 20 * 52 weeks.
pub const TGS_LIFETIME_SECS: i64 = 628992000;

/// The fields of a KDC-REQ-BODY of a TGS-REQ, times as Unix seconds and
/// nanoseconds.
#[derive(Debug, Clone, PartialEq, Eq)]
pub struct KdcReqBodyFields {
    pub kdc_options: u32,
    pub realm: String,
    pub sname: PrincipalName,
    pub till_secs: i64,
    pub till_nanos: u32,
    pub rtime_secs: i64,
    pub rtime_nanos: u32,
    pub nonce: u32,
    pub etypes: Vec<i32>,
    pub addr_type: i32,
    pub address: Vec<u8>,
}

pub struct KdcReqBodyView {
    pub kdc_options: u32,
    pub realm: Seq<char>,
    pub sname: PrincipalNameView,
    pub till: (i64, u32),
    pub rtime: (i64, u32),
    pub nonce: u32,
    pub etypes: Seq<i32>,
    pub addr_type: i32,
    pub address: Seq<u8>,
}

impl View for KdcReqBodyFields {
    type V = KdcReqBodyView;

    open spec fn view(&self) -> KdcReqBodyView {
        KdcReqBodyView {
            kdc_options: self.kdc_options,
            realm: self.realm@,
            sname: self.sname@,
            till: (self.till_secs, self.till_nanos),
            rtime: (self.rtime_secs, self.rtime_nanos),
            nonce: self.nonce,
            etypes: self.etypes@,
            addr_type: self.addr_type,
            address: self.address@,
        }
    }
}

/// The DER encoding `kerberos_asn1::KdcReqBody::build` gives for a body with
/// these fields (no cname, from, authorization data or additional tickets;
/// one host address), the times as chrono's `DateTime::from_timestamp` reads
/// them.
pub uninterp spec fn kdc_req_body_der(body: KdcReqBodyView) -> Seq<u8>;

/// Converts the fields into a `kerberos_asn1::KdcReqBody` (no cname, from,
/// authorization data or additional tickets), the times with
/// `chrono::DateTime::from_timestamp`, and DER-encodes it with
/// `Asn1Object::build`; `None` exactly where chrono cannot represent the
/// times.
#[verifier::external_body]
fn encode_kdc_req_body(b: &KdcReqBodyFields) -> (res: Option<Vec<u8>>)
    ensures
        res matches Some(der) ==> der@ == kdc_req_body_der(b@),
        chrono_time_ok(b.till_secs as int, b.till_nanos as int) && chrono_time_ok(b.rtime_secs as int, b.rtime_nanos as int)
            ==> res is Some,
{
    let till = DateTime::from_timestamp(b.till_secs, b.till_nanos)?;
    let rtime = DateTime::from_timestamp(b.rtime_secs, b.rtime_nanos)?;
    let sname = kerberos_asn1::PrincipalName { name_type: b.sname.name_type, name_string: b.sname.name_string.clone() };
    let address = HostAddress { addr_type: b.addr_type, address: b.address.clone() };
    Some(KdcReqBody {
        kdc_options: b.kdc_options.into(), realm: b.realm.clone(), sname: Some(sname),
        till: till.into(), rtime: Some(rtime.into()), nonce: b.nonce, etypes: b.etypes.clone(),
        addresses: Some(vec![address]), ..Default::default()
    }.build())
}

/// The DER encoding `kerberos_asn1::TgsReq::build` gives for a TGS-REQ
/// (pvno 5, msg-type 12) with the two PA-DATA (type, value) and a
/// KDC-REQ-BODY with these fields, converted as `encode_kdc_req_body`
/// converts them; `None` where chrono cannot represent the times.
pub uninterp spec fn tgs_req_der(body: KdcReqBodyView, first: (i32, Seq<u8>), second: (i32, Seq<u8>)) -> Option<Seq<u8>>;

/// Converts the fields into a `kerberos_asn1::KdcReqBody` as
/// `encode_kdc_req_body` does and DER-encodes a TGS-REQ (pvno 5, msg-type 12)
/// with it and the two PA-DATA.
#[verifier::external_body]
fn encode_tgs_req(b: KdcReqBodyFields, t1: i32, v1: Vec<u8>, t2: i32, v2: Vec<u8>) -> (res: Option<Vec<u8>>)
    ensures
        opt_bytes(res) == tgs_req_der(b@, (t1, v1@), (t2, v2@)),
        chrono_time_ok(b.till_secs as int, b.till_nanos as int) && chrono_time_ok(b.rtime_secs as int, b.rtime_nanos as int)
            ==> res is Some,
{
    let (till, rtime) = (DateTime::from_timestamp(b.till_secs, b.till_nanos)?, DateTime::from_timestamp(b.rtime_secs, b.rtime_nanos)?);
    let req_body = KdcReqBody {
        kdc_options: b.kdc_options.into(), realm: b.realm, till: till.into(), rtime: Some(rtime.into()),
        sname: Some(kerberos_asn1::PrincipalName { name_type: b.sname.name_type, name_string: b.sname.name_string }),
        nonce: b.nonce, etypes: b.etypes, addresses: Some(vec![HostAddress { addr_type: b.addr_type, address: b.address }]),
        ..Default::default()
    };
    let padata = Some(vec![PaData::new(t1, v1), PaData::new(t2, v2)]);
    Some(TgsReq { padata, req_body, ..Default::default() }.build())
}

/// DER-encodes a KERB-PA-PAC-REQUEST; its source's tests give the bytes:
/// SEQUENCE { [0] BOOLEAN }.
#[verifier::external_body]
fn pac_request_der(include_pac: bool) -> (res: Vec<u8>)
    ensures
        res@ == seq![0x30u8, 0x05u8, 0xa0u8, 0x03u8, 0x01u8, 0x01u8, if include_pac { 0xffu8 } else { 0x00u8 }],
{
    kerberos_asn1::KerbPaPacRequest::new(include_pac).build()
}

/// The checksum type of a TGS-REQ authenticator: HMAC-SHA1-96-AES128 for an
/// AES128 session key, HMAC-SHA1-96-AES256 otherwise.
pub open spec fn checksum_type_for(etype: i32) -> i32 {
    if etype == AES128_CTS_HMAC_SHA1_96 {
        HMAC_SHA1_96_AES128
    } else {
        HMAC_SHA1_96_AES256
    }
}

/// The key suits the checksum of the encryption type: any key for RC4-HMAC,
/// 16 bytes for AES128, 32 bytes for anything else (AES256).
pub open spec fn checksum_key_ok(etype: i32, key_len: nat) -> bool {
    if etype == RC4_HMAC {
        true
    } else if etype == AES128_CTS_HMAC_SHA1_96 {
        key_len == 16
    } else {
        key_len == 32
    }
}

/// The checksum of `data` under a key of the encryption type: HMAC-MD5 for
/// RC4-HMAC, HMAC-SHA1-96 with AES128 key derivation for AES128, and with
/// AES256 key derivation for anything else.
pub open spec fn checksum_for(etype: i32, key: Seq<u8>, key_usage: i32, data: Seq<u8>) -> Seq<u8> {
    if etype == RC4_HMAC {
        hmac_md5_checksum(key, key_usage, data)
    } else if etype == AES128_CTS_HMAC_SHA1_96 {
        sha_aes_checksum(key, key_usage, data, false)
    } else {
        sha_aes_checksum(key, key_usage, data, true)
    }
}

/// The checksum type of a TGS-REQ authenticator for a session key type.
pub fn checksum_type(etype: i32) -> (res: i32)
    ensures
        res == checksum_type_for(etype),
{
    if etype == AES128_CTS_HMAC_SHA1_96 {
        HMAC_SHA1_96_AES128
    } else {
        HMAC_SHA1_96_AES256
    }
}

/// The checksum of `data` under the key, by encryption type.
pub fn compute_checksum(etype: i32, key: &[u8], key_usage: i32, data: &[u8]) -> (res: Vec<u8>)
    requires
        checksum_key_ok(etype, key@.len()),
    ensures
        res@ == checksum_for(etype, key@, key_usage, data@),
{
    if etype == RC4_HMAC {
        checksum_hmac_md5(key, key_usage, data)
    } else if etype == AES128_CTS_HMAC_SHA1_96 {
        checksum_sha_aes(key, key_usage, data, AesKind::Aes128)
    } else {
        checksum_sha_aes(key, key_usage, data, AesKind::Aes256)
    }
}

/// The Authenticator of a PA-TGS-REQ at a time (Unix seconds and
/// nanoseconds), encoded: the client of the TGT and the checksum, under the
/// TGT session key, of the encoded request body.
pub open spec fn tgs_authenticator_spec(tgt_credential: Credential, req_body_der: Seq<u8>, secs: i64, nanos: u32) -> Option<Seq<u8>> {
    authenticator_der(
        tgt_credential.crealm@,
        tgt_credential.cname@,
        Some((
            checksum_type_for(tgt_credential.key.keytype),
            checksum_for(
                tgt_credential.key.keytype,
                tgt_credential.key.keyvalue@,
                KEY_USAGE_TGS_REQ_AUTHEN_CKSUM,
                req_body_der,
            ),
        )),
        (nanos / 1000) as i32,
        secs,
        nanos,
        None,
        None,
    )
}

/// The encoded Authenticator of a PA-TGS-REQ at a time; `None` where the
/// time cannot be represented.
pub fn tgs_authenticator(tgt_credential: &Credential, req_body_der: &[u8], secs: i64, nanos: u32) -> (res: Option<Vec<u8>>)
    requires
        supported_etype(tgt_credential.key.keytype),
        key_len_ok(tgt_credential.key.keytype, tgt_credential.key.keyvalue@.len()),
    ensures
        opt_bytes(res) == tgs_authenticator_spec(*tgt_credential, req_body_der@, secs, nanos),
        chrono_time_ok(secs as int, nanos as int) ==> res is Some,
{
    let etype = tgt_credential.key.keytype;
    let checksum_data = compute_checksum(
        etype,
        tgt_credential.key.keyvalue.as_slice(),
        KEY_USAGE_TGS_REQ_AUTHEN_CKSUM,
        req_body_der,
    );
    let cksumtype = checksum_type(etype);
    let cusec: i32 = (nanos / 1000) as i32;
    encode_authenticator(
        &tgt_credential.crealm,
        &tgt_credential.cname,
        Some((cksumtype, checksum_data)),
        cusec,
        secs,
        nanos,
        None,
        None,
    )
}

/// The bytes are the PA-TGS-REQ AP-REQ for the request body at a time: no
/// AP options, the TGT's ticket, and `cipher`, which decrypts under the TGT
/// session key with the TGS-REQ Authenticator key usage (7) to the
/// Authenticator of `tgs_authenticator_spec`.
pub open spec fn tgs_ap_req_at(
    tgt_credential: Credential,
    req_body_der: Seq<u8>,
    bytes: Seq<u8>,
    secs: i64,
    nanos: u32,
    cipher: Seq<u8>,
) -> bool {
    &&& bytes == ap_req_der(0, tgt_credential.ticket@, tgt_credential.key.keytype, cipher)
    &&& tgs_authenticator_spec(tgt_credential, req_body_der, secs, nanos) is Some
    &&& decryption(tgt_credential.key.keytype, tgt_credential.key.keyvalue@, KEY_USAGE_TGS_REQ_AUTHEN, cipher)
        == tgs_authenticator_spec(tgt_credential, req_body_der, secs, nanos)
}

/// The end of the ticket asked for at a clock reading: `TGS_LIFETIME_SECS`
/// later; `None` where that is no time chrono represents.
pub open spec fn ticket_end(now: (i64, u32)) -> Option<(i64, u32)> {
    clock_plus(now, TGS_LIFETIME_SECS as int)
}

/// The bytes are the PA-TGS-REQ AP-REQ for the request body at a time, in
/// some ciphertext (it starts from a random confounder).
pub open spec fn tgs_ap_req_sent_at(tgt_credential: Credential, req_body_der: Seq<u8>, bytes: Seq<u8>, secs: i64, nanos: u32) -> bool {
    exists|cipher: Seq<u8>| #[trigger] tgs_ap_req_at(tgt_credential, req_body_der, bytes, secs, nanos, cipher)
}

impl TgsRequester {
    /// The bytes are the TGS-REQ for the service at a nonce, times, a clock
    /// reading and an Authenticator ciphertext: the body of `tgs_body_view`,
    /// a PA-TGS-REQ holding the AP-REQ of `tgs_ap_req_at` for that body's
    /// encoding, and the PA-PAC-REQUEST asking for the PAC.
    pub open spec fn tgs_req_for(
        &self,
        tgt_credential: Credential,
        service_principal: Seq<char>,
        bytes: Seq<u8>,
        nonce: u32,
        till: (i64, u32),
        rtime: (i64, u32),
        secs: i64,
        nanos: u32,
        cipher: Seq<u8>,
    ) -> bool {
        let body = tgs_body_view(self.spec_realm(), self.spec_etypes(), service_principal, nonce, till, rtime);
        let ap_req = ap_req_der(0, tgt_credential.ticket@, tgt_credential.key.keytype, cipher);
        &&& tgs_ap_req_at(tgt_credential, kdc_req_body_der(body), ap_req, secs, nanos, cipher)
        &&& tgs_req_der(body, (PA_TGS_REQ, ap_req), (PA_PAC_REQUEST, pac_request_bytes())) == Some(bytes)
    }

    /// The bytes are the TGS-REQ for the service at a nonce and times, at
    /// some clock reading for the Authenticator and in some ciphertext.
    pub open spec fn sent_tgs_req_at(
        &self,
        tgt_credential: Credential,
        service_principal: Seq<char>,
        bytes: Seq<u8>,
        nonce: u32,
        till: (i64, u32),
        rtime: (i64, u32),
    ) -> bool {
        exists|secs: i64, nanos: u32, cipher: Seq<u8>|
            #[trigger] self.tgs_req_for(tgt_credential, service_principal, bytes, nonce, till, rtime, secs, nanos, cipher)
    }

    /// The bytes are the TGS-REQ for the service at a nonce, with the ticket
    /// and renewal ends `TGS_LIFETIME_SECS` after two clock readings.
    pub open spec fn sent_tgs_req_from(
        &self,
        tgt_credential: Credential,
        service_principal: Seq<char>,
        bytes: Seq<u8>,
        nonce: u32,
        till_now: (i64, u32),
        rtime_now: (i64, u32),
    ) -> bool {
        &&& ticket_end(till_now) matches Some(till)
        &&& ticket_end(rtime_now) matches Some(rtime)
        &&& self.sent_tgs_req_at(tgt_credential, service_principal, bytes, nonce, till, rtime)
    }

    /// The bytes are the TGS-REQ for the service at some nonce and clock
    /// readings (those come from randomness and the clock).
    pub open spec fn sent_tgs_req(&self, tgt_credential: Credential, service_principal: Seq<char>, bytes: Seq<u8>) -> bool {
        exists|nonce: u32, till_now: (i64, u32), rtime_now: (i64, u32)|
            clock_reading(till_now) && clock_reading(rtime_now)
                && #[trigger] self.sent_tgs_req_from(tgt_credential, service_principal, bytes, nonce, till_now, rtime_now)
    }

    /// The KDC-REQ-BODY of a TGS-REQ for the service: the KDC options
    /// forwardable, renewable and renewable-ok, the client address, the
    /// realm, the service name (type NT-PRINCIPAL, the components of
    /// `service_principal`), the times, the nonce and the offered
    /// encryption types.
    pub fn tgs_req_body(&self, service_principal: &str, nonce: u32, till: (i64, u32), rtime: (i64, u32)) -> (res: KdcReqBodyFields)
        ensures
            res.kdc_options == tgs_kdc_options(),
            res.realm@ == self.spec_realm(),
            res.sname.name_type == NT_PRINCIPAL,
            res.sname.name_string.deep_view() == service_name_spec(service_principal@),
            (res.till_secs, res.till_nanos) == till,
            (res.rtime_secs, res.rtime_nanos) == rtime,
            res.nonce == nonce,
            res.etypes@ == self.spec_etypes(),
            res.addr_type == ADDRESS_TYPE_IPV4,
            res.address@ == tgs_client_address(),
            res@ == tgs_body_view(self.spec_realm(), self.spec_etypes(), service_principal@, nonce, till, rtime),
    {
        let name_string = service_name_components(service_principal);
        let kdc_options: u32 = FORWARDABLE | RENEWABLE | RENEWABLE_OK;
        assert(FORWARDABLE | RENEWABLE | RENEWABLE_OK == 0x40800010u32) by (bit_vector);
        let mut address: Vec<u8> = Vec::new();
        address.push(10);
        address.push(110);
        address.push(149);
        address.push(18);
        assert(address@ =~= tgs_client_address());
        KdcReqBodyFields {
            kdc_options,
            realm: self.realm.clone(),
            sname: PrincipalName { name_type: NT_PRINCIPAL, name_string },
            till_secs: till.0,
            till_nanos: till.1,
            rtime_secs: rtime.0,
            rtime_nanos: rtime.1,
            nonce,
            etypes: self.etypes.clone(),
            addr_type: ADDRESS_TYPE_IPV4,
            address,
        }
    }

    /// The PA-TGS-REQ AP-REQ at a time (Unix seconds and nanoseconds): the
    /// TGT and an Authenticator, encrypted with the TGT session key, whose
    /// checksum covers the encoded request body. It fails for a session key
    /// type without a cipher, and otherwise exactly where the time cannot be
    /// represented.
    pub fn build_ap_req_for_tgs_at(&self, tgt_credential: &Credential, req_body_der: &[u8], secs: i64, nanos: u32) -> (res: Result<Vec<u8>, TgsError>)
        requires
            key_len_ok(tgt_credential.key.keytype, tgt_credential.key.keyvalue@.len()),
        ensures
            !supported_etype(tgt_credential.key.keytype) ==> res == Err::<Vec<u8>, TgsError>(
                TgsError::UnsupportedEtype(tgt_credential.key.keytype),
            ),
            supported_etype(tgt_credential.key.keytype) && chrono_time_ok(secs as int, nanos as int) ==> res is Ok,
            match res {
                Ok(b) => tgs_ap_req_sent_at(*tgt_credential, req_body_der@, b@, secs, nanos),
                Err(TgsError::UnsupportedEtype(e)) => e == tgt_credential.key.keytype && !supported_etype(e),
                Err(TgsError::TimeOutOfRange) => supported_etype(tgt_credential.key.keytype)
                    && !chrono_time_ok(secs as int, nanos as int),
                Err(_) => false,
            },
    {
        let session_key = &tgt_credential.key;
        let etype = session_key.keytype;
        if !is_supported_etype(etype) {
            return Err(TgsError::UnsupportedEtype(etype));
        }
        let raw_authenticator = match tgs_authenticator(tgt_credential, req_body_der, secs, nanos) {
            Some(a) => a,
            None => return Err(TgsError::TimeOutOfRange),
        };
        let encrypted = match encrypt(
            etype,
            session_key.keyvalue.as_slice(),
            KEY_USAGE_TGS_REQ_AUTHEN,
            raw_authenticator.as_slice(),
        ) {
            Some(c) => c,
            None => return Err(TgsError::UnsupportedEtype(etype)),
        };
        let ghost cipher = encrypted@;
        let bytes = encode_ap_req(0, &tgt_credential.ticket, etype, encrypted);
        assert(tgs_ap_req_at(*tgt_credential, req_body_der@, bytes@, secs, nanos, cipher));
        assert(tgs_ap_req_sent_at(*tgt_credential, req_body_der@, bytes@, secs, nanos));
        Ok(bytes)
    }

    /// The PA-TGS-REQ AP-REQ at the clock's time: it fails exactly for a
    /// session key type without a cipher.
    fn build_ap_req_for_tgs(&self, tgt_credential: &Credential, req_body_der: &[u8]) -> (res: Result<Vec<u8>, TgsError>)
        requires
            key_len_ok(tgt_credential.key.keytype, tgt_credential.key.keyvalue@.len()),
        ensures
            !supported_etype(tgt_credential.key.keytype) ==> res == Err::<Vec<u8>, TgsError>(
                TgsError::UnsupportedEtype(tgt_credential.key.keytype),
            ),
            supported_etype(tgt_credential.key.keytype) ==> res is Ok,
            res matches Ok(b) ==> exists|now: (i64, u32)|
                clock_reading(now) && #[trigger] tgs_ap_req_sent_at(*tgt_credential, req_body_der@, b@, now.0, now.1),
    {
        let now = utc_now();
        let res = self.build_ap_req_for_tgs_at(tgt_credential, req_body_der, now.0, now.1);
        proof {
            if res is Ok {
                let b = res->Ok_0;
                assert(tgs_ap_req_sent_at(*tgt_credential, req_body_der@, b@, now.0, now.1));
            }
        }
        res
    }

    /// The DER-encoded TGS-REQ for the service at a nonce and times (Unix
    /// seconds and nanoseconds): the body of `tgs_req_body`, a PA-TGS-REQ
    /// whose Authenticator checksum covers that body's encoding, and a
    /// PA-PAC-REQUEST asking for the PAC. It fails for a session key type
    /// without a cipher, and otherwise exactly where the times cannot be
    /// represented.
    fn build_tgs_req_for_times(
        &self,
        tgt_credential: &Credential,
        service_principal: &str,
        nonce: u32,
        till: (i64, u32),
        rtime: (i64, u32),
    ) -> (res: Result<Vec<u8>, TgsError>)
        requires
            key_len_ok(tgt_credential.key.keytype, tgt_credential.key.keyvalue@.len()),
        ensures
            !supported_etype(tgt_credential.key.keytype) ==> res == Err::<Vec<u8>, TgsError>(
                TgsError::UnsupportedEtype(tgt_credential.key.keytype),
            ),
            supported_etype(tgt_credential.key.keytype) && chrono_time_ok(till.0 as int, till.1 as int)
                && chrono_time_ok(rtime.0 as int, rtime.1 as int) ==> res is Ok,
            match res {
                Ok(b) => self.sent_tgs_req_at(*tgt_credential, service_principal@, b@, nonce, till, rtime),
                Err(TgsError::UnsupportedEtype(e)) => e == tgt_credential.key.keytype && !supported_etype(e),
                Err(TgsError::TimeOutOfRange) => supported_etype(tgt_credential.key.keytype)
                    && !(chrono_time_ok(till.0 as int, till.1 as int) && chrono_time_ok(rtime.0 as int, rtime.1 as int)),
                Err(_) => false,
            },
    {
        let etype = tgt_credential.key.keytype;
        if !is_supported_etype(etype) {
            return Err(TgsError::UnsupportedEtype(etype));
        }
        let fields = self.tgs_req_body(service_principal, nonce, till, rtime);
        let body_der = match encode_kdc_req_body(&fields) {
            Some(b) => b,
            None => return Err(TgsError::TimeOutOfRange),
        };
        let ap_req = match self.build_ap_req_for_tgs(tgt_credential, body_der.as_slice()) {
            Ok(a) => a,
            Err(e) => return Err(e),
        };
        let ghost ap = ap_req@;
        let pac = pac_request_der(true);
        assert(pac@ == pac_request_bytes());
        match encode_tgs_req(fields, PA_TGS_REQ, ap_req, PA_PAC_REQUEST, pac) {
            Some(b) => {
                let ghost (secs, nanos) = choose|secs: i64, nanos: u32|
                    #[trigger] tgs_ap_req_sent_at(*tgt_credential, body_der@, ap, secs, nanos);
                let ghost cipher = choose|cipher: Seq<u8>|
                    #[trigger] tgs_ap_req_at(*tgt_credential, body_der@, ap, secs, nanos, cipher);
                assert(self.tgs_req_for(*tgt_credential, service_principal@, b@, nonce, till, rtime, secs, nanos, cipher));
                Ok(b)
            },
            None => Err(TgsError::TimeOutOfRange),
        }
    }

    /// The DER-encoded TGS-REQ for the service at a nonce and two clock
    /// readings (Unix seconds and nanoseconds): the ticket end and the
    /// renewal end are the readings plus `TGS_LIFETIME_SECS`. It fails for a
    /// session key type without a cipher, and otherwise exactly where a
    /// reading plus the lifetime is no time chrono represents.
    pub fn build_tgs_req_at(
        &self,
        tgt_credential: &Credential,
        service_principal: &str,
        nonce: u32,
        till_now: (i64, u32),
        rtime_now: (i64, u32),
    ) -> (res: Result<Vec<u8>, TgsError>)
        requires
            key_len_ok(tgt_credential.key.keytype, tgt_credential.key.keyvalue@.len()),
        ensures
            !supported_etype(tgt_credential.key.keytype) ==> res == Err::<Vec<u8>, TgsError>(
                TgsError::UnsupportedEtype(tgt_credential.key.keytype),
            ),
            supported_etype(tgt_credential.key.keytype) && ticket_end(till_now) is Some && ticket_end(rtime_now) is Some
                ==> res is Ok,
            match res {
                Ok(b) => self.sent_tgs_req_from(*tgt_credential, service_principal@, b@, nonce, till_now, rtime_now),
                Err(TgsError::UnsupportedEtype(e)) => e == tgt_credential.key.keytype && !supported_etype(e),
                Err(TgsError::TimeOutOfRange) => supported_etype(tgt_credential.key.keytype)
                    && (ticket_end(till_now) is None || ticket_end(rtime_now) is None),
                Err(_) => false,
            },
    {
        let etype = tgt_credential.key.keytype;
        if !is_supported_etype(etype) {
            return Err(TgsError::UnsupportedEtype(etype));
        }
        let till = match time_plus(till_now, TGS_LIFETIME_SECS) {
            Some(t) => t,
            None => return Err(TgsError::TimeOutOfRange),
        };
        let rtime = match time_plus(rtime_now, TGS_LIFETIME_SECS) {
            Some(t) => t,
            None => return Err(TgsError::TimeOutOfRange),
        };
        self.build_tgs_req_for_times(tgt_credential, service_principal, nonce, till, rtime)
    }

    /// The DER-encoded TGS-REQ for the service, built with the TGT, with a
    /// fresh nonce and the ticket and renewal ends `TGS_LIFETIME_SECS` after
    /// two readings of the clock. It fails exactly for a session key type
    /// without a cipher, and otherwise only where a reading plus the
    /// lifetime cannot be represented.
    pub fn build_tgs_req(&self, tgt_credential: &Credential, service_principal: &str) -> (res: Result<Vec<u8>, TgsError>)
        requires
            key_len_ok(tgt_credential.key.keytype, tgt_credential.key.keyvalue@.len()),
        ensures
            !supported_etype(tgt_credential.key.keytype) ==> res == Err::<Vec<u8>, TgsError>(
                TgsError::UnsupportedEtype(tgt_credential.key.keytype),
            ),
            match res {
                Ok(b) => self.sent_tgs_req(*tgt_credential, service_principal@, b@),
                Err(TgsError::UnsupportedEtype(e)) => e == tgt_credential.key.keytype && !supported_etype(e),
                Err(TgsError::TimeOutOfRange) => supported_etype(tgt_credential.key.keytype)
                    && exists|now: (i64, u32)| clock_reading(now) && #[trigger] ticket_end(now) is None,
                Err(_) => false,
            },
    {
        let etype = tgt_credential.key.keytype;
        if !is_supported_etype(etype) {
            return Err(TgsError::UnsupportedEtype(etype));
        }
        let till_now = utc_now();
        let rtime_now = utc_now();
        let nonce = random_u32();
        let res = self.build_tgs_req_at(tgt_credential, service_principal, nonce, till_now, rtime_now);
        proof {
            if res is Ok {
                let b = res->Ok_0;
                assert(self.sent_tgs_req_from(*tgt_credential, service_principal@, b@, nonce, till_now, rtime_now));
            }
            if res matches Err(TgsError::TimeOutOfRange) {
                if ticket_end(till_now) is Some {
                    assert(ticket_end(rtime_now) is None);
                }
            }
        }
        res
    }
}

} // verus!
