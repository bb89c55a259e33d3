use kerberos_asn1::{ApReq, Asn1Object, Authenticator, EncryptedData, Ticket};
use rust_kinit::ap_req::{
    ap_options_bits, gss_checksum_bytes, subkey_params, ApReqBuilder, ApReqError, ApReqOptions,
};
use rust_kinit::credential::{Credential, EncryptedPart, PrincipalName, SessionKey, TicketInfo};

fn asn1_ticket() -> Ticket {
    Ticket::new(
        "TEST.COM".to_string(),
        kerberos_asn1::PrincipalName::new(2, "test/svc".into()),
        EncryptedData::new(18, None, vec![]),
    )
}

fn ticket() -> TicketInfo {
    TicketInfo {
        tkt_vno: 5,
        realm: "TEST.COM".to_string(),
        sname: PrincipalName { name_type: 2, name_string: vec!["test/svc".to_string()] },
        enc_part: EncryptedPart { etype: 18, kvno: None, cipher: vec![] },
    }
}

fn credential(keytype: i32, keyvalue: Vec<u8>) -> Credential {
    Credential {
        crealm: "TEST.COM".to_string(),
        cname: PrincipalName { name_type: 1, name_string: vec!["user".to_string()] },
        ticket: ticket(),
        key: SessionKey { keytype, keyvalue },
        srealm: String::new(),
        sname: PrincipalName { name_type: 0, name_string: vec![] },
        authtime: 0,
        starttime: None,
        endtime: 0,
        renew_till: None,
        flags: 0,
    }
}

#[test]
fn test_ap_req_build_simple() {
    let credential = credential(18, vec![0u8; 32]);
    let result = ApReqBuilder::new(&credential).build();
    assert!(result.is_ok());

    let ap_req_bytes = result.unwrap();
    let (_, parsed) = ApReq::parse(&ap_req_bytes).unwrap();
    assert_eq!(parsed.pvno, 5);
    assert_eq!(parsed.msg_type, 14);
}

#[test]
fn gss_checksum_layout() {
    let c = gss_checksum_bytes(true, 0x01020304);
    let mut expected = vec![0x10, 0, 0, 0];
    expected.extend_from_slice(&[0u8; 16]);
    expected.extend_from_slice(&[0x0e, 0, 0, 0, 0x04, 0x03, 0x02, 0x01]);
    assert_eq!(c, expected);
    let c = gss_checksum_bytes(false, 7);
    assert_eq!(c.len(), 28);
    assert_eq!(&c[20..], &[0x0c, 0, 0, 0, 7, 0, 0, 0]);
}

#[test]
fn ap_options_values() {
    let mut o = ApReqOptions::default();
    assert_eq!(ap_options_bits(&o), 0x20000000);
    o.use_session_key = true;
    assert_eq!(ap_options_bits(&o), 0x60000000);
    o.mutual_required = false;
    assert_eq!(ap_options_bits(&o), 0x40000000);
    o.use_session_key = false;
    assert_eq!(ap_options_bits(&o), 0);
}

#[test]
fn subkey_parameters() {
    assert_eq!(subkey_params(18), (18, 32));
    assert_eq!(subkey_params(17), (17, 16));
    assert_eq!(subkey_params(23), (23, 16));
    assert_eq!(subkey_params(1), (17, 16));
}

#[test]
fn authenticator_carries_gss_data() {
    let key = vec![0x11u8; 32];
    let credential = credential(18, key.clone());
    let (bytes, gss) = ApReqBuilder::new(&credential).build_with_gss_data().unwrap();
    assert_eq!(gss.subkey_type, 18);
    assert_eq!(gss.subkey.len(), 32);
    let (_, ap_req) = ApReq::parse(&bytes).unwrap();
    assert_eq!(*ap_req.ap_options, 0x20000000);
    assert_eq!(ap_req.ticket, asn1_ticket());
    assert_eq!(ap_req.authenticator.etype, 18);
    let cipher = kerberos_crypto::new_kerberos_cipher(18).unwrap();
    let plain = cipher.decrypt(&key, 11, &ap_req.authenticator.cipher).unwrap();
    let (_, auth) = Authenticator::parse(&plain).unwrap();
    assert_eq!(auth.crealm, "TEST.COM");
    assert_eq!(auth.cname.name_string, vec!["user".to_string()]);
    let cksum = auth.cksum.unwrap();
    assert_eq!(cksum.cksumtype, 0x8003);
    assert_eq!(cksum.checksum, gss_checksum_bytes(true, gss.gss_initial_seq));
    assert_eq!(auth.seq_number, Some(gss.gss_initial_seq));
    let subkey = auth.subkey.unwrap();
    assert_eq!(subkey.keytype, 18);
    assert_eq!(subkey.keyvalue, gss.subkey);
}

#[test]
fn no_gss_checksum_when_not_asked() {
    let key = vec![0x22u8; 16];
    let credential = credential(17, key.clone());
    let options = ApReqOptions {
        mutual_required: false,
        use_session_key: false,
        gssapi_checksum: false,
        time_offset_secs: 0,
    };
    let (bytes, gss) = ApReqBuilder::new(&credential).with_options(options).build_with_gss_data().unwrap();
    assert_eq!(gss.subkey_type, 17);
    assert_eq!(gss.subkey.len(), 16);
    let (_, ap_req) = ApReq::parse(&bytes).unwrap();
    assert_eq!(*ap_req.ap_options, 0);
    let cipher = kerberos_crypto::new_kerberos_cipher(17).unwrap();
    let plain = cipher.decrypt(&key, 11, &ap_req.authenticator.cipher).unwrap();
    let (_, auth) = Authenticator::parse(&plain).unwrap();
    assert!(auth.cksum.is_none());
    assert!(auth.seq_number.is_none());
}

#[test]
fn unsupported_session_key_type() {
    let credential = credential(1, vec![0u8; 8]);
    assert_eq!(ApReqBuilder::new(&credential).build(), Err(ApReqError::UnsupportedEtype(1)));
}

#[test]
fn clock_offset_out_of_range() {
    let credential = credential(18, vec![0x11u8; 32]);
    let options = ApReqOptions {
        mutual_required: true,
        use_session_key: false,
        gssapi_checksum: true,
        time_offset_secs: i64::MAX,
    };
    let builder = ApReqBuilder::new(&credential).with_options(options);
    assert_eq!(builder.build(), Err(ApReqError::TimeOutOfRange));
    let unsupported = credential_with_type(1);
    let builder = ApReqBuilder::new(&unsupported).with_options(options);
    assert_eq!(builder.build(), Err(ApReqError::UnsupportedEtype(1)));
}

fn credential_with_type(keytype: i32) -> Credential {
    credential(keytype, vec![0u8; 8])
}

#[test]
fn authenticator_at_a_given_time() {
    let credential = credential(18, vec![0x11u8; 32]);
    let builder = ApReqBuilder::new(&credential);
    let raw = builder.authenticator(7, 17, &vec![5u8; 16], 1700000000, 123456789).unwrap();
    let (_, auth) = Authenticator::parse(&raw).unwrap();
    assert_eq!(auth.ctime.timestamp(), 1700000000);
    assert_eq!(auth.cusec, 123456);
    assert_eq!(auth.seq_number, Some(7));
    assert_eq!(auth.cksum.unwrap().checksum, gss_checksum_bytes(true, 7));
    let subkey = auth.subkey.unwrap();
    assert_eq!((subkey.keytype, subkey.keyvalue), (17, vec![5u8; 16]));
    assert!(builder.authenticator(7, 17, &vec![5u8; 16], i64::MAX, 0).is_none());
}

#[test]
fn build_at_a_clock_reading() {
    let key = vec![0x11u8; 32];
    let credential = credential(18, key.clone());
    let options = ApReqOptions {
        mutual_required: false,
        use_session_key: true,
        gssapi_checksum: true,
        time_offset_secs: 300,
    };
    let builder = ApReqBuilder::new(&credential).with_options(options);
    let (bytes, gss) = builder.build_at((1700000000, 250_000_000), 42, vec![3u8; 32]).unwrap();
    assert_eq!(gss.gss_initial_seq, 42);
    assert_eq!(gss.subkey, vec![3u8; 32]);
    assert_eq!(gss.subkey_type, 18);
    let (_, ap_req) = ApReq::parse(&bytes).unwrap();
    assert_eq!(*ap_req.ap_options, 0x40000000);
    let cipher = kerberos_crypto::new_kerberos_cipher(18).unwrap();
    let plain = cipher.decrypt(&key, 11, &ap_req.authenticator.cipher).unwrap();
    let (_, auth) = Authenticator::parse(&plain).unwrap();
    assert_eq!(auth.ctime.timestamp(), 1700000300);
    assert_eq!(auth.cusec, 250000);
    assert_eq!(auth.cksum.unwrap().checksum, gss_checksum_bytes(false, 42));
    assert!(matches!(
        builder.build_at((8210266876799 - 299, 0), 42, vec![3u8; 32]),
        Err(ApReqError::TimeOutOfRange)
    ));
}
