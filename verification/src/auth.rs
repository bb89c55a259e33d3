//! The authentication chain TGT → service ticket → AP-REQ, as far as it is
//! computation: its options, the requester of the service ticket and the
//! AP-REQ built from the service credential.

use vstd::prelude::*;
use vstd::string::StringExecFns;
use crate::ap_req::{ap_options_value, ap_req_outcome, gss_flags, ApReqBuilder, ApReqError, ApReqOptions, GssChecksumData};
use crate::credential::Credential;
use crate::crypto::key_len_ok;
use crate::kinit::UserKey;
use crate::tgs::{offered_etypes, TgsRequester};

verus! {

/// Options of a `KerberosAuthenticator`.
#[derive(Debug, Clone)]
pub struct KerberosAuthOptions {
    /// Kerberos realm (e.g. "EXAMPLE.COM").
    pub realm: String,
    /// The octets of the KDC's IP address.
    pub kdc_address: Vec<u8>,
    /// The KDC port (default 88).
    pub kdc_port: Option<u16>,
    /// User principal name.
    pub username: String,
    /// The user's key (secret or key of one encryption type).
    pub user_key: UserKey,
    /// Service principal name (e.g. "HTTP/server.example.com").
    pub service_principal: String,
    /// Request mutual authentication in the AP-REQ.
    pub mutual_required: bool,
    /// Seconds added to the current time in the AP-REQ's Authenticator, to
    /// correct clock skew.
    pub time_offset_secs: i64,
}

impl Default for KerberosAuthOptions {
    /// Placeholder values that the user overrides.
    fn default() -> (res: Self)
        ensures
            res.realm@ == "REALM.COM"@,
            res.kdc_address@ == seq![0u8, 0u8, 0u8, 0u8],
            res.kdc_port == Some(88u16),
            res.username@ == "user"@,
            res.user_key matches UserKey::Secret(s) && s@ == ""@,
            res.service_principal@ == "service/host"@,
            res.mutual_required == false,
            res.time_offset_secs == 0,
    {
        let mut kdc_address: Vec<u8> = Vec::new();
        kdc_address.push(0);
        kdc_address.push(0);
        kdc_address.push(0);
        kdc_address.push(0);
        assert(kdc_address@ =~= seq![0u8, 0u8, 0u8, 0u8]);
        Self {
            realm: String::from_str("REALM.COM"),
            kdc_address,
            kdc_port: Some(88),
            username: String::from_str("user"),
            user_key: UserKey::Secret(String::from_str("")),
            service_principal: String::from_str("service/host"),
            mutual_required: false,
            time_offset_secs: 0,
        }
    }
}

/// Runs the chain TGT → service ticket → AP-REQ for its options.
pub struct KerberosAuthenticator {
    options: KerberosAuthOptions,
}

impl KerberosAuthenticator {
    pub closed spec fn spec_options(&self) -> KerberosAuthOptions {
        self.options
    }

    /// An authenticator with the options.
    pub fn new(options: KerberosAuthOptions) -> (res: Self)
        ensures
            res.spec_options() == options,
    {
        Self { options }
    }

    /// The options.
    pub fn options(&self) -> (res: &KerberosAuthOptions)
        ensures
            *res == self.spec_options(),
    {
        &self.options
    }

    /// The AP-REQ options of the chain: mutual authentication as asked, no
    /// session key use, the GSS checksum, and the time offset.
    pub open spec fn spec_ap_req_options(&self) -> ApReqOptions {
        ApReqOptions {
            mutual_required: self.spec_options().mutual_required,
            use_session_key: false,
            gssapi_checksum: true,
            time_offset_secs: self.spec_options().time_offset_secs,
        }
    }

    /// The AP-REQ options of the chain.
    pub fn ap_req_options(&self) -> (res: ApReqOptions)
        ensures
            res == self.spec_ap_req_options(),
            res.mutual_required == self.spec_options().mutual_required,
            res.use_session_key == false,
            res.gssapi_checksum == true,
            res.time_offset_secs == self.spec_options().time_offset_secs,
    {
        ApReqOptions {
            mutual_required: self.options.mutual_required,
            use_session_key: false,
            gssapi_checksum: true,
            time_offset_secs: self.options.time_offset_secs,
        }
    }

    /// Law: the chain's AP-REQ asks for mutual authentication exactly when
    /// the caller's options do: its AP options are MUTUAL-REQUIRED
    /// (0x20000000) then and 0 otherwise, and the GSS checksum's context
    /// flags are 0x0E then and 0x0C otherwise; the clock offset is the
    /// caller's.
    pub proof fn law_chain_ap_req_options(&self)
        ensures
            self.spec_ap_req_options().mutual_required == self.spec_options().mutual_required,
            ap_options_value(self.spec_ap_req_options()) == (if self.spec_options().mutual_required {
                0x20000000u32
            } else {
                0u32
            }),
            gss_flags(self.spec_ap_req_options().mutual_required) == (if self.spec_options().mutual_required {
                0x0Eu32
            } else {
                0x0Cu32
            }),
            self.spec_ap_req_options().time_offset_secs == self.spec_options().time_offset_secs,
    {
        assert(0x20000000u32 | 0u32 == 0x20000000u32) by (bit_vector);
        assert(0u32 | 0u32 == 0u32) by (bit_vector);
    }

    /// The requester of the service ticket, for the options' realm.
    pub fn tgs_requester(&self) -> (res: TgsRequester)
        ensures
            res.spec_realm() == self.spec_options().realm@,
            res.spec_etypes() == offered_etypes(),
    {
        TgsRequester::new(self.options.realm.clone())
    }

    /// The last step of the chain: the AP-REQ for the service credential,
    /// with the GSS initial sequence number and subkey that went into it.
    pub fn service_ap_req(&self, service_credential: &Credential) -> (res: Result<(Vec<u8>, GssChecksumData), ApReqError>)
        requires
            key_len_ok(service_credential.key.keytype, service_credential.key.keyvalue@.len()),
        ensures
            ap_req_outcome(*service_credential, self.spec_ap_req_options(), res),
    {
        let builder = ApReqBuilder::new(service_credential).with_options(self.ap_req_options());
        builder.build_with_gss_data()
    }
}

} // verus!
