//! Kerberos client support: the MIT file credential cache (FCC v4) format,
//! GSS-API message protection tokens, AP-REQ construction, the TGS
//! exchange, the KDC of a realm in `krb5.ini`, and the helpers of the
//! `kinit` and `klist` tools.

pub mod bytes;
pub mod text;
pub mod ccache_format;
pub mod ccache;
pub mod ccache_laws;
pub mod constants;
pub mod crypto;
pub mod der;
pub mod gss;
pub mod credential;
pub mod system;
pub mod ap_req;
pub mod fmt;
pub mod kinit;
pub mod klist;
pub mod strs;
pub mod tgs;
pub mod krb5_conf;
pub mod auth;
