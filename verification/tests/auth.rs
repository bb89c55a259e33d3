use kerberos_asn1::{ApReq, Asn1Object};
use rust_kinit::ap_req::ApReqOptions;
use rust_kinit::auth::{KerberosAuthOptions, KerberosAuthenticator};
use rust_kinit::credential::{Credential, EncryptedPart, PrincipalName, SessionKey, TicketInfo};
use rust_kinit::kinit::UserKey;

#[test]
fn default_options() {
    let o = KerberosAuthOptions::default();
    assert_eq!(o.realm, "REALM.COM");
    assert_eq!(o.kdc_address, vec![0, 0, 0, 0]);
    assert_eq!(o.kdc_port, Some(88));
    assert_eq!(o.username, "user");
    assert_eq!(o.user_key, UserKey::Secret(String::new()));
    assert_eq!(o.service_principal, "service/host");
    assert!(!o.mutual_required);
    assert_eq!(o.time_offset_secs, 0);
}

#[test]
fn chain_options_and_last_step() {
    let options = KerberosAuthOptions {
        realm: "EXAMPLE.COM".to_string(),
        mutual_required: true,
        time_offset_secs: -30,
        ..Default::default()
    };
    let a = KerberosAuthenticator::new(options);
    assert_eq!(
        a.ap_req_options(),
        ApReqOptions { mutual_required: true, use_session_key: false, gssapi_checksum: true, time_offset_secs: -30 }
    );
    assert_eq!(a.options().realm, "EXAMPLE.COM");
    let cred = Credential {
        crealm: "EXAMPLE.COM".to_string(),
        cname: PrincipalName { name_type: 1, name_string: vec!["alice".to_string()] },
        ticket: TicketInfo {
            tkt_vno: 5,
            realm: "EXAMPLE.COM".to_string(),
            sname: PrincipalName { name_type: 2, name_string: vec!["thrift".to_string()] },
            enc_part: EncryptedPart { etype: 23, kvno: Some(3), cipher: vec![1, 2] },
        },
        key: SessionKey { keytype: 23, keyvalue: vec![1u8; 16] },
        srealm: "EXAMPLE.COM".to_string(),
        sname: PrincipalName { name_type: 2, name_string: vec!["thrift".to_string()] },
        authtime: 0,
        starttime: None,
        endtime: 0,
        renew_till: None,
        flags: 0,
    };
    let (bytes, gss) = a.service_ap_req(&cred).unwrap();
    assert_eq!(gss.subkey_type, 23);
    assert_eq!(gss.subkey.len(), 16);
    let (_, ap_req) = ApReq::parse(&bytes).unwrap();
    assert_eq!(*ap_req.ap_options, 0x20000000);
    assert_eq!(ap_req.authenticator.etype, 23);
    assert_eq!(ap_req.ticket.realm, "EXAMPLE.COM");
    assert_eq!(ap_req.ticket.enc_part.kvno, Some(3));
    assert_eq!(ap_req.ticket.enc_part.cipher, vec![1, 2]);
}
