//! Building AP-REQ messages: the service ticket plus an Authenticator
//! encrypted with the session key, with the GSS-API checksum (RFC 4121
//! 4.1.1) and a fresh AES subkey as Java JGSS expects.

use vstd::prelude::*;
use crate::constants::{
    AES128_CTS_HMAC_SHA1_96, GSS_CHECKSUM_TYPE, KEY_USAGE_AP_REQ_AUTHEN, MUTUAL_REQUIRED,
    USE_SESSION_KEY,
};
use crate::credential::{Credential, PrincipalName, PrincipalNameView, TicketInfo, TicketView};
use crate::crypto::{decryption, encrypt, is_supported_etype, key_len_ok, opt_bytes, supported_etype};
use crate::system::{chrono_time_ok, clock_plus, clock_reading, random_bytes, random_u32, time_plus, utc_now};
use kerberos_asn1::Asn1Object;

verus! {

/// GSS data produced with an AP-REQ: the initial sequence number and the
/// subkey carried in the Authenticator.
pub struct GssChecksumData {
    pub gss_initial_seq: u32,
    pub subkey: Vec<u8>,
    pub subkey_type: i32,
}

/// Options for building an AP-REQ.
#[derive(Debug, Clone, Copy, PartialEq, Eq, Structural)]
pub struct ApReqOptions {
    /// Request mutual authentication (the server replies with an AP-REP).
    pub mutual_required: bool,
    /// Use the session key instead of the ticket key.
    pub use_session_key: bool,
    /// Include the GSS-API checksum (type 0x8003) in the Authenticator.
    pub gssapi_checksum: bool,
    /// Seconds added to the current time for the Authenticator's ctime, to
    /// correct clock skew.
    pub time_offset_secs: i64,
}

impl Default for ApReqOptions {
    fn default() -> (res: Self)
        ensures
            res == (ApReqOptions {
                mutual_required: true,
                use_session_key: false,
                gssapi_checksum: true,
                time_offset_secs: 0,
            }),
    {
        Self { mutual_required: true, use_session_key: false, gssapi_checksum: true, time_offset_secs: 0 }
    }
}

/// Errors of AP-REQ building.
#[derive(Debug, Clone, Copy, PartialEq, Eq, Structural)]
pub enum ApReqError {
    /// No cipher exists for the session key's encryption type.
    UnsupportedEtype(i32),
    /// The current time plus the offset cannot be represented.
    TimeOutOfRange,
}

/// The four bytes of `v`, least significant first.
pub open spec fn le32(v: u32) -> Seq<u8> {
    seq![v as u8, (v >> 8u32) as u8, (v >> 16u32) as u8, (v >> 24u32) as u8]
}

/// The GSS context flags: MUTUAL | REPLAY | SEQUENCE (0x0E) when mutual
/// authentication is requested, REPLAY | SEQUENCE (0x0C) otherwise.
pub open spec fn gss_flags(mutual_required: bool) -> u32 {
    if mutual_required {
        0x0E
    } else {
        0x0C
    }
}

/// The 28-byte GSS checksum for no channel bindings: 0x10 0 0 0, sixteen
/// zero bytes, the flags and the sequence number, both little-endian.
pub open spec fn gss_checksum_value(mutual_required: bool, seq: u32) -> Seq<u8> {
    seq![0x10u8, 0u8, 0u8, 0u8] + Seq::new(16, |i: int| 0u8) + le32(gss_flags(mutual_required))
        + le32(seq)
}

/// The AP options of an AP-REQ: MUTUAL-REQUIRED and USE-SESSION-KEY as asked.
pub open spec fn ap_options_value(options: ApReqOptions) -> u32 {
    (if options.mutual_required {
        MUTUAL_REQUIRED
    } else {
        0u32
    }) | (if options.use_session_key {
        USE_SESSION_KEY
    } else {
        0u32
    })
}

/// The subkey type: the session key type, and at least AES128.
pub open spec fn subkey_type_for(etype: i32) -> i32 {
    if etype > AES128_CTS_HMAC_SHA1_96 {
        etype
    } else {
        AES128_CTS_HMAC_SHA1_96
    }
}

/// The subkey length: 32 bytes for AES256, 16 otherwise.
pub open spec fn subkey_len_for(subkey_type: i32) -> nat {
    if subkey_type == 18 {
        32
    } else {
        16
    }
}

fn push_le32(buf: &mut Vec<u8>, v: u32)
    ensures
        final(buf)@ == old(buf)@ + le32(v),
{
    buf.push(v as u8);
    buf.push((v >> 8u32) as u8);
    buf.push((v >> 16u32) as u8);
    buf.push((v >> 24u32) as u8);
    assert(final(buf)@ =~= old(buf)@ + le32(v));
}

/// The GSS checksum bytes carried in the Authenticator.
pub fn gss_checksum_bytes(mutual_required: bool, seq: u32) -> (res: Vec<u8>)
    ensures
        res@ == gss_checksum_value(mutual_required, seq),
        res@.len() == 28,
{
    let mut v: Vec<u8> = Vec::new();
    v.push(0x10);
    v.push(0x00);
    v.push(0x00);
    v.push(0x00);
    let mut i: usize = 0;
    while i < 16
        invariant
            i <= 16,
            v@ == seq![0x10u8, 0u8, 0u8, 0u8] + Seq::new(i as nat, |j: int| 0u8),
        decreases 16 - i,
    {
        v.push(0);
        i = i + 1;
        assert(v@ =~= seq![0x10u8, 0u8, 0u8, 0u8] + Seq::new(i as nat, |j: int| 0u8));
    }
    let gss_flags: u32 = if mutual_required { 0x0000000E } else { 0x0000000C };
    push_le32(&mut v, gss_flags);
    push_le32(&mut v, seq);
    v
}

/// The AP options bit mask for these options.
pub fn ap_options_bits(options: &ApReqOptions) -> (res: u32)
    ensures
        res == ap_options_value(*options),
{
    let mut ap_options_val: u32 = 0;
    if options.mutual_required {
        ap_options_val = ap_options_val | MUTUAL_REQUIRED;
    }
    if options.use_session_key {
        ap_options_val = ap_options_val | USE_SESSION_KEY;
    }
    assert(0u32 | MUTUAL_REQUIRED == MUTUAL_REQUIRED) by (bit_vector);
    assert(0u32 | USE_SESSION_KEY == USE_SESSION_KEY) by (bit_vector);
    assert(0u32 | 0u32 == 0u32) by (bit_vector);
    assert(MUTUAL_REQUIRED | 0u32 == MUTUAL_REQUIRED) by (bit_vector);
    ap_options_val
}

/// The subkey type and length for a session key type.
pub fn subkey_params(etype: i32) -> (res: (i32, usize))
    ensures
        res.0 == subkey_type_for(etype),
        res.1 == subkey_len_for(res.0),
{
    let subkey_type = if etype > AES128_CTS_HMAC_SHA1_96 { etype } else { AES128_CTS_HMAC_SHA1_96 };
    let subkey_len: usize = match subkey_type {
        18 => 32,
        _ => 16,
    };
    (subkey_type, subkey_len)
}

/// An optional (type, value) pair as plain values.
pub open spec fn opt_pair(o: Option<(i32, Vec<u8>)>) -> Option<(i32, Seq<u8>)> {
    match o {
        Some((t, v)) => Some((t, v@)),
        None => None,
    }
}

/// The DER encoding `kerberos_asn1::Authenticator::build` gives for an
/// Authenticator (vno 5, no authorization data) with these fields, the time
/// as chrono's `DateTime::from_timestamp` reads it; `None` where chrono
/// cannot represent the time.
pub uninterp spec fn authenticator_der(
    crealm: Seq<char>,
    cname: PrincipalNameView,
    cksum: Option<(i32, Seq<u8>)>,
    cusec: i32,
    ctime_secs: i64,
    ctime_nanos: u32,
    subkey: Option<(i32, Seq<u8>)>,
    seq_number: Option<u32>,
) -> Option<Seq<u8>>;

/// Builds and DER-encodes a `kerberos_asn1::Authenticator` (vno 5) from the
/// given fields: an optional checksum (type, value), an optional subkey
/// (type, value) and an optional sequence number. The time is converted with
/// `chrono::DateTime::from_timestamp`, and `None` comes back exactly where
/// chrono cannot represent it; chrono's source represents every time of
/// `chrono_time_ok`.
#[verifier::external_body]
pub(crate) fn encode_authenticator(
    crealm: &String,
    cname: &PrincipalName,
    cksum: Option<(i32, Vec<u8>)>,
    cusec: i32,
    ctime_secs: i64,
    ctime_nanos: u32,
    subkey: Option<(i32, Vec<u8>)>,
    seq_number: Option<u32>,
) -> (res: Option<Vec<u8>>)
    ensures
        opt_bytes(res) == authenticator_der(crealm@, cname@, opt_pair(cksum), cusec, ctime_secs, ctime_nanos, opt_pair(subkey), seq_number),
        chrono_time_ok(ctime_secs as int, ctime_nanos as int) ==> res is Some,
{
    let ctime = chrono::DateTime::from_timestamp(ctime_secs, ctime_nanos)?;
    Some(kerberos_asn1::Authenticator {
        authenticator_vno: 5,
        crealm: crealm.clone(),
        cname: kerberos_asn1::PrincipalName { name_type: cname.name_type, name_string: cname.name_string.clone() },
        cksum: cksum.map(|(t, c)| kerberos_asn1::Checksum { cksumtype: t, checksum: c }),
        cusec,
        ctime: ctime.into(),
        subkey: subkey.map(|(t, k)| kerberos_asn1::EncryptionKey { keytype: t, keyvalue: k }),
        seq_number,
        authorization_data: None,
    }.build())
}

/// The DER encoding `kerberos_asn1::ApReq::build` gives for an AP-REQ
/// (pvno 5, msg-type 14) with these AP options, ticket and encrypted
/// Authenticator (no key version).
pub uninterp spec fn ap_req_der(ap_options: u32, ticket: TicketView, etype: i32, cipher: Seq<u8>) -> Seq<u8>;

/// Builds and DER-encodes a `kerberos_asn1::ApReq` (pvno 5, msg-type 14)
/// carrying the ticket (converted field by field) and the encrypted
/// Authenticator.
#[verifier::external_body]
pub(crate) fn encode_ap_req(ap_options: u32, ticket: &TicketInfo, etype: i32, cipher: Vec<u8>) -> (res: Vec<u8>)
    ensures
        res@ == ap_req_der(ap_options, ticket@, etype, cipher@),
{
    let t = ticket;
    let sname = kerberos_asn1::PrincipalName { name_type: t.sname.name_type, name_string: t.sname.name_string.clone() };
    let e = &t.enc_part;
    let enc_part = kerberos_asn1::EncryptedData { etype: e.etype, kvno: e.kvno, cipher: e.cipher.clone() };
    kerberos_asn1::ApReq {
        pvno: 5,
        msg_type: 14,
        ap_options: kerberos_asn1::ApOptions::from(ap_options),
        ticket: kerberos_asn1::Ticket { tkt_vno: t.tkt_vno, realm: t.realm.clone(), sname, enc_part },
        authenticator: kerberos_asn1::EncryptedData::new(etype, None, cipher),
    }.build()
}

/// The encoded Authenticator for a GSS initial sequence number, a subkey
/// and a time (Unix seconds and nanoseconds): the credential's client,
/// the GSS checksum and the sequence number where the options ask for
/// them, the microseconds of the time, and the subkey.
pub open spec fn authenticator_for(credential: Credential, options: ApReqOptions, gss_seq: u32, subkey_type: i32, subkey: Seq<u8>, secs: i64, nanos: u32) -> Option<Seq<u8>> {
    authenticator_der(
        credential.crealm@,
        credential.cname@,
        if options.gssapi_checksum {
            Some((GSS_CHECKSUM_TYPE, gss_checksum_value(options.mutual_required, gss_seq)))
        } else {
            None
        },
        (nanos / 1000) as i32,
        secs,
        nanos,
        Some((subkey_type, subkey)),
        if options.gssapi_checksum {
            Some(gss_seq)
        } else {
            None
        },
    )
}

/// The bytes are the AP-REQ for these Authenticator fields and this
/// ciphertext: the options' AP options, the credential's ticket, and a
/// ciphertext that the session key's cipher decrypts, with the key usage
/// of an AP-REQ Authenticator, to the encoded Authenticator.
pub open spec fn ap_req_at(
    credential: Credential,
    options: ApReqOptions,
    bytes: Seq<u8>,
    gss_seq: u32,
    subkey_type: i32,
    subkey: Seq<u8>,
    secs: i64,
    nanos: u32,
    cipher: Seq<u8>,
) -> bool {
    let key = credential.key;
    &&& bytes == ap_req_der(ap_options_value(options), credential.ticket@, key.keytype, cipher)
    &&& chrono_time_ok(secs as int, nanos as int)
    &&& authenticator_for(credential, options, gss_seq, subkey_type, subkey, secs, nanos) is Some
    &&& decryption(key.keytype, key.keyvalue@, KEY_USAGE_AP_REQ_AUTHEN, cipher)
        == authenticator_for(credential, options, gss_seq, subkey_type, subkey, secs, nanos)
}

/// The bytes are the AP-REQ whose Authenticator carries this GSS sequence
/// number and subkey at the clock reading `now` plus the options' offset, in
/// some ciphertext (it starts from a random confounder).
pub open spec fn ap_req_at_reading(
    credential: Credential,
    options: ApReqOptions,
    bytes: Seq<u8>,
    gss_seq: u32,
    subkey_type: i32,
    subkey: Seq<u8>,
    now: (i64, u32),
) -> bool {
    &&& clock_plus(now, options.time_offset_secs as int) matches Some((secs, nanos))
    &&& exists|cipher: Seq<u8>|
        #[trigger] ap_req_at(credential, options, bytes, gss_seq, subkey_type, subkey, secs, nanos, cipher)
}

/// What `build_at` returns for a clock reading, a GSS sequence number and a
/// subkey: `UnsupportedEtype` exactly for a session key type without a
/// cipher; for a supported one, `TimeOutOfRange` exactly where the reading
/// plus the offset is no time chrono represents; on success, the AP-REQ at
/// that time and the GSS data given.
pub open spec fn ap_req_outcome_at(
    credential: Credential,
    options: ApReqOptions,
    now: (i64, u32),
    gss_seq: u32,
    subkey: Seq<u8>,
    res: Result<(Vec<u8>, GssChecksumData), ApReqError>,
) -> bool {
    let keytype = credential.key.keytype;
    let t = clock_plus(now, options.time_offset_secs as int);
    &&& !supported_etype(keytype) ==> res == Err::<(Vec<u8>, GssChecksumData), ApReqError>(ApReqError::UnsupportedEtype(keytype))
    &&& supported_etype(keytype) && t is Some ==> res is Ok
    &&& match res {
        Ok((b, gss)) => {
            &&& supported_etype(keytype)
            &&& gss.gss_initial_seq == gss_seq
            &&& gss.subkey_type == subkey_type_for(keytype)
            &&& gss.subkey@ == subkey
            &&& ap_req_at_reading(credential, options, b@, gss_seq, gss.subkey_type, subkey, now)
        },
        Err(ApReqError::UnsupportedEtype(e)) => e == keytype && !supported_etype(e),
        Err(ApReqError::TimeOutOfRange) => supported_etype(keytype) && t is None,
    }
}

/// The bytes are an AP-REQ whose Authenticator carries this GSS sequence
/// number and subkey, at some reading of the clock plus the offset.
pub open spec fn sent_ap_req_with(credential: Credential, options: ApReqOptions, bytes: Seq<u8>, gss_seq: u32, subkey_type: i32, subkey: Seq<u8>) -> bool {
    exists|now: (i64, u32)|
        clock_reading(now) && #[trigger] ap_req_at_reading(credential, options, bytes, gss_seq, subkey_type, subkey, now)
}

/// The bytes are an AP-REQ as `build_with_gss_data` makes them, for some
/// random sequence number and a random subkey of the type and length it
/// takes.
pub open spec fn sent_ap_req(credential: Credential, options: ApReqOptions, bytes: Seq<u8>) -> bool {
    exists|gss_seq: u32, subkey: Seq<u8>|
        subkey.len() == subkey_len_for(subkey_type_for(credential.key.keytype))
        && #[trigger] sent_ap_req_with(credential, options, bytes, gss_seq, subkey_type_for(credential.key.keytype), subkey)
}

/// What `build_with_gss_data` returns: `UnsupportedEtype` exactly for a
/// session key type without a cipher; for a supported one, success
/// wherever no clock offset is asked for, and `TimeOutOfRange` only where
/// the clock's reading plus the offset cannot be represented; on success, the
/// AP-REQ and the GSS data that went into its Authenticator.
pub open spec fn ap_req_outcome(credential: Credential, options: ApReqOptions, res: Result<(Vec<u8>, GssChecksumData), ApReqError>) -> bool {
    let keytype = credential.key.keytype;
    &&& !supported_etype(keytype) ==> res == Err::<(Vec<u8>, GssChecksumData), ApReqError>(ApReqError::UnsupportedEtype(keytype))
    &&& supported_etype(keytype) && options.time_offset_secs == 0 ==> res is Ok
    &&& match res {
        Ok((b, gss)) => {
            &&& supported_etype(keytype)
            &&& gss.subkey_type == subkey_type_for(keytype)
            &&& gss.subkey@.len() == subkey_len_for(gss.subkey_type)
            &&& sent_ap_req_with(credential, options, b@, gss.gss_initial_seq, gss.subkey_type, gss.subkey@)
        },
        Err(ApReqError::UnsupportedEtype(e)) => e == keytype && !supported_etype(e),
        Err(ApReqError::TimeOutOfRange) => {
            &&& supported_etype(keytype)
            &&& options.time_offset_secs != 0
            &&& exists|now: (i64, u32)| clock_reading(now) && #[trigger] clock_plus(now, options.time_offset_secs as int) is None
        },
    }
}

/// Builds AP-REQ messages for a service credential.
pub struct ApReqBuilder<'a> {
    credential: &'a Credential,
    options: ApReqOptions,
}

impl<'a> ApReqBuilder<'a> {
    pub closed spec fn spec_credential(&self) -> &'a Credential {
        self.credential
    }

    pub closed spec fn spec_options(&self) -> ApReqOptions {
        self.options
    }

    /// A builder for the credential with the default options.
    pub fn new(credential: &'a Credential) -> (res: Self)
        ensures
            res.spec_credential() == credential,
            res.spec_options() == (ApReqOptions {
                mutual_required: true,
                use_session_key: false,
                gssapi_checksum: true,
                time_offset_secs: 0,
            }),
    {
        Self { credential, options: ApReqOptions::default() }
    }

    /// The same builder with other options.
    pub fn with_options(self, options: ApReqOptions) -> (res: Self)
        ensures
            res.spec_credential() == self.spec_credential(),
            res.spec_options() == options,
    {
        let mut s = self;
        s.options = options;
        s
    }

    /// The session key has the length its cipher takes.
    pub open spec fn key_usable(&self) -> bool {
        key_len_ok(self.spec_credential().key.keytype, self.spec_credential().key.keyvalue@.len())
    }

    /// Builds the DER-encoded AP-REQ.
    pub fn build(&self) -> (res: Result<Vec<u8>, ApReqError>)
        requires
            self.key_usable(),
        ensures
            !supported_etype(self.spec_credential().key.keytype)
                ==> res == Err::<Vec<u8>, ApReqError>(ApReqError::UnsupportedEtype(self.spec_credential().key.keytype)),
            supported_etype(self.spec_credential().key.keytype) && self.spec_options().time_offset_secs == 0
                ==> res is Ok,
            match res {
                Ok(b) => supported_etype(self.spec_credential().key.keytype) && sent_ap_req(*self.spec_credential(), self.spec_options(), b@),
                Err(ApReqError::UnsupportedEtype(e)) => e == self.spec_credential().key.keytype
                    && !supported_etype(e),
                Err(ApReqError::TimeOutOfRange) => supported_etype(self.spec_credential().key.keytype)
                    && self.spec_options().time_offset_secs != 0,
            },
    {
        match self.build_impl() {
            Ok((bytes, gss)) => {
                assert(sent_ap_req_with(*self.spec_credential(), self.spec_options(), bytes@, gss.gss_initial_seq, gss.subkey_type, gss.subkey@));
                Ok(bytes)
            },
            Err(e) => Err(e),
        }
    }

    /// Builds the DER-encoded AP-REQ and returns the GSS data that went into it.
    pub fn build_with_gss_data(&self) -> (res: Result<(Vec<u8>, GssChecksumData), ApReqError>)
        requires
            self.key_usable(),
        ensures
            ap_req_outcome(*self.spec_credential(), self.spec_options(), res),
    {
        self.build_impl()
    }

    /// The encoded Authenticator for a GSS initial sequence number, a
    /// subkey and a time (Unix seconds and nanoseconds); `None` where the
    /// time cannot be represented.
    pub fn authenticator(&self, gss_seq: u32, subkey_type: i32, subkey: &Vec<u8>, secs: i64, nanos: u32) -> (res: Option<Vec<u8>>)
        ensures
            opt_bytes(res) == authenticator_for(*self.spec_credential(), self.spec_options(), gss_seq, subkey_type, subkey@, secs, nanos),
            chrono_time_ok(secs as int, nanos as int) ==> res is Some,
    {
        let gssapi_checksum: Option<(i32, Vec<u8>)> = if self.options.gssapi_checksum {
            Some((GSS_CHECKSUM_TYPE, gss_checksum_bytes(self.options.mutual_required, gss_seq)))
        } else {
            None
        };
        let cusec: i32 = (nanos / 1000) as i32;
        let seq_number = if self.options.gssapi_checksum { Some(gss_seq) } else { None };
        encode_authenticator(
            &self.credential.crealm,
            &self.credential.cname,
            gssapi_checksum,
            cusec,
            secs,
            nanos,
            Some((subkey_type, subkey.clone())),
            seq_number,
        )
    }

    /// Builds the DER-encoded AP-REQ at a clock reading (Unix seconds and
    /// nanoseconds), with a GSS initial sequence number and a subkey: the
    /// Authenticator's time is the reading plus the options' offset.
    pub fn build_at(&self, now: (i64, u32), gss_seq: u32, subkey: Vec<u8>) -> (res: Result<(Vec<u8>, GssChecksumData), ApReqError>)
        requires
            self.key_usable(),
        ensures
            ap_req_outcome_at(*self.spec_credential(), self.spec_options(), now, gss_seq, subkey@, res),
    {
        let session_key = &self.credential.key;
        let etype = session_key.keytype;
        if !is_supported_etype(etype) {
            return Err(ApReqError::UnsupportedEtype(etype));
        }
        let (subkey_type, _) = subkey_params(etype);
        let (secs, nanos) = match time_plus(now, self.options.time_offset_secs) {
            Some(t) => t,
            None => return Err(ApReqError::TimeOutOfRange),
        };
        let raw_authenticator = match self.authenticator(gss_seq, subkey_type, &subkey, secs, nanos) {
            Some(a) => a,
            None => return Err(ApReqError::TimeOutOfRange),
        };
        let encrypted_auth = match encrypt(
            etype,
            session_key.keyvalue.as_slice(),
            KEY_USAGE_AP_REQ_AUTHEN,
            raw_authenticator.as_slice(),
        ) {
            Some(c) => c,
            None => return Err(ApReqError::UnsupportedEtype(etype)),
        };
        let ap_options = ap_options_bits(&self.options);
        let ghost cipher = encrypted_auth@;
        let bytes = encode_ap_req(ap_options, &self.credential.ticket, etype, encrypted_auth);
        let gss = GssChecksumData { gss_initial_seq: gss_seq, subkey, subkey_type };
        assert(ap_req_at(*self.spec_credential(), self.spec_options(), bytes@, gss_seq, subkey_type, gss.subkey@, secs, nanos, cipher));
        Ok((bytes, gss))
    }

    fn build_impl(&self) -> (res: Result<(Vec<u8>, GssChecksumData), ApReqError>)
        requires
            self.key_usable(),
        ensures
            ap_req_outcome(*self.spec_credential(), self.spec_options(), res),
    {
        let etype = self.credential.key.keytype;
        if !is_supported_etype(etype) {
            return Err(ApReqError::UnsupportedEtype(etype));
        }
        let gss_seq: u32 = random_u32();
        let (_, subkey_len) = subkey_params(etype);
        let subkey = random_bytes(subkey_len);
        let ghost sk = subkey@;
        let now = utc_now();
        let res = self.build_at(now, gss_seq, subkey);
        proof {
            if res is Ok {
                let gss = res->Ok_0.1;
                assert(ap_req_at_reading(*self.spec_credential(), self.spec_options(), res->Ok_0.0@, gss_seq, gss.subkey_type, sk, now));
            }
            if res matches Err(ApReqError::TimeOutOfRange) {
                assert(clock_plus(now, self.spec_options().time_offset_secs as int) is None);
            }
        }
        res
    }
}

} // verus!
