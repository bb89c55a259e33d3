//! A Kerberos credential as the client holds it after an AS or TGS
//! exchange: the ticket, the session key and what the KDC said of them.

use vstd::prelude::*;
use kerberos_asn1::Asn1Object;

verus! {

/// A principal name: name type and name components.
#[derive(Debug, Clone, PartialEq, Eq)]
pub struct PrincipalName {
    pub name_type: i32,
    pub name_string: Vec<String>,
}

pub struct PrincipalNameView {
    pub name_type: i32,
    pub name_string: Seq<Seq<char>>,
}

impl View for PrincipalName {
    type V = PrincipalNameView;

    open spec fn view(&self) -> PrincipalNameView {
        PrincipalNameView { name_type: self.name_type, name_string: self.name_string.deep_view() }
    }
}

/// Encrypted data: the encryption type, the key version where given, and
/// the ciphertext.
#[derive(Debug, Clone, PartialEq, Eq)]
pub struct EncryptedPart {
    pub etype: i32,
    pub kvno: Option<u32>,
    pub cipher: Vec<u8>,
}

/// A ticket as the KDC issued it: version, the service's realm and name,
/// and the part encrypted for the service.
#[derive(Debug, Clone, PartialEq, Eq)]
pub struct TicketInfo {
    pub tkt_vno: i32,
    pub realm: String,
    pub sname: PrincipalName,
    pub enc_part: EncryptedPart,
}

pub struct TicketView {
    pub tkt_vno: i32,
    pub realm: Seq<char>,
    pub sname: PrincipalNameView,
    pub enc_etype: i32,
    pub enc_kvno: Option<u32>,
    pub enc_cipher: Seq<u8>,
}

impl View for TicketInfo {
    type V = TicketView;

    open spec fn view(&self) -> TicketView {
        TicketView {
            tkt_vno: self.tkt_vno,
            realm: self.realm@,
            sname: self.sname@,
            enc_etype: self.enc_part.etype,
            enc_kvno: self.enc_part.kvno,
            enc_cipher: self.enc_part.cipher@,
        }
    }
}

/// The DER encoding `kerberos_asn1::Ticket::build` gives for a ticket with
/// these fields.
pub uninterp spec fn ticket_der(t: TicketView) -> Seq<u8>;

/// Converts the ticket into a `kerberos_asn1::Ticket`, field by field, and
/// DER-encodes it with `Asn1Object::build`.
#[verifier::external_body]
pub(crate) fn encode_ticket(t: &TicketInfo) -> (res: Vec<u8>)
    ensures
        res@ == ticket_der(t@),
{
    let sname = kerberos_asn1::PrincipalName { name_type: t.sname.name_type, name_string: t.sname.name_string.clone() };
    let e = &t.enc_part;
    let enc_part = kerberos_asn1::EncryptedData { etype: e.etype, kvno: e.kvno, cipher: e.cipher.clone() };
    kerberos_asn1::Ticket { tkt_vno: t.tkt_vno, realm: t.realm.clone(), sname, enc_part }.build()
}

/// A session key: encryption type and key bytes.
#[derive(Debug, Clone, PartialEq, Eq)]
pub struct SessionKey {
    pub keytype: i32,
    pub keyvalue: Vec<u8>,
}

/// A credential: client realm and name, the ticket, the session key, the
/// service realm and name, the ticket times in Unix seconds and the ticket
/// flags.
#[derive(Debug)]
pub struct Credential {
    pub crealm: String,
    pub cname: PrincipalName,
    pub ticket: TicketInfo,
    pub key: SessionKey,
    pub srealm: String,
    pub sname: PrincipalName,
    pub authtime: i64,
    pub starttime: Option<i64>,
    pub endtime: i64,
    pub renew_till: Option<i64>,
    pub flags: u32,
}

} // verus!
