//! Kerberos protocol numbers used by this crate (RFC 3961, RFC 4120).

use vstd::prelude::*;

verus! {

/// Encryption type: no encryption.
pub const NO_ENCRYPTION: i32 = 0;
/// Encryption type: DES-CBC-CRC.
pub const DES_CBC_CRC: i32 = 1;
/// Encryption type: DES-CBC-MD5.
pub const DES_CBC_MD5: i32 = 3;
/// Encryption type: AES128-CTS-HMAC-SHA1-96.
pub const AES128_CTS_HMAC_SHA1_96: i32 = 17;
/// Encryption type: AES256-CTS-HMAC-SHA1-96.
pub const AES256_CTS_HMAC_SHA1_96: i32 = 18;
/// Encryption type: RC4-HMAC.
pub const RC4_HMAC: i32 = 23;
/// Encryption type: RC4-HMAC-EXP.
pub const RC4_HMAC_EXP: i32 = 24;

/// AP options (a KerberosFlags BIT STRING as a big-endian u32): reserved.
pub const RESERVED: u32 = 0x80000000;
/// AP options: use-session-key.
pub const USE_SESSION_KEY: u32 = 0x40000000;
/// AP options: mutual-required.
pub const MUTUAL_REQUIRED: u32 = 0x20000000;

/// Key usage of the Authenticator of an AP-REQ.
pub const KEY_USAGE_AP_REQ_AUTHEN: i32 = 11;
/// Key usage of the checksum of a TGS-REQ body.
pub const KEY_USAGE_TGS_REQ_AUTHEN_CKSUM: i32 = 6;
/// Key usage of the Authenticator of a TGS-REQ.
pub const KEY_USAGE_TGS_REQ_AUTHEN: i32 = 7;

/// Checksum type: HMAC-SHA1-96-AES128.
pub const HMAC_SHA1_96_AES128: i32 = 15;
/// Checksum type: HMAC-SHA1-96-AES256.
pub const HMAC_SHA1_96_AES256: i32 = 16;
/// Checksum type of the GSS-API authenticator checksum (RFC 4121).
pub const GSS_CHECKSUM_TYPE: i32 = 0x8003;

/// Key usage of the encrypted part of a TGS-REP (under the TGT session key).
pub const KEY_USAGE_TGS_REP_ENC_PART_SESSION_KEY: i32 = 8;

/// KDC options (a KerberosFlags BIT STRING as a big-endian u32): forwardable.
pub const FORWARDABLE: u32 = 0x40000000;
/// KDC options: renewable.
pub const RENEWABLE: u32 = 0x00800000;
/// KDC options: renewable-ok.
pub const RENEWABLE_OK: u32 = 0x00000010;

/// PA-DATA type PA-TGS-REQ (carries an AP-REQ).
pub const PA_TGS_REQ: i32 = 1;
/// PA-DATA type PA-PAC-REQUEST (MS-KILE).
pub const PA_PAC_REQUEST: i32 = 128;

/// Host address type IPv4.
pub const ADDRESS_TYPE_IPV4: i32 = 2;

/// Principal name type NT-PRINCIPAL.
pub const NT_PRINCIPAL: i32 = 1;
/// Principal name type NT-SRV-INST.
pub const NT_SRV_INST: i32 = 2;

} // verus!
