use kerberos_asn1::{
    ApReq, Asn1Object, Authenticator, EncTgsRepPart, EncryptedData, EncryptionKey, KrbError,
    TgsRep, TgsReq, Ticket,
};
use kerberos_crypto::AesSizes;
use rust_kinit::credential::{Credential, EncryptedPart, PrincipalName, SessionKey, TicketInfo};
use rust_kinit::strs::split_chars;
use rust_kinit::tgs::{
    checksum_type, classify_tgs_response, compute_checksum, handle_tgs_response,
    service_name_components, TgsError, TgsReqResponse, TgsRequester, TransportProtocol,
};

fn asn1_tgt_ticket() -> Ticket {
    let mut sname = kerberos_asn1::PrincipalName::new(2, "krbtgt".into());
    sname.push("TEST.COM".into());
    Ticket::new("TEST.COM".to_string(), sname, EncryptedData::new(18, None, vec![1, 2, 3]))
}

fn tgt_ticket() -> TicketInfo {
    TicketInfo {
        tkt_vno: 5,
        realm: "TEST.COM".to_string(),
        sname: PrincipalName { name_type: 2, name_string: vec!["krbtgt".to_string(), "TEST.COM".to_string()] },
        enc_part: EncryptedPart { etype: 18, kvno: None, cipher: vec![1, 2, 3] },
    }
}

fn tgt(keytype: i32, keyvalue: Vec<u8>) -> Credential {
    Credential {
        crealm: "TEST.COM".to_string(),
        cname: PrincipalName { name_type: 1, name_string: vec!["user".to_string()] },
        ticket: tgt_ticket(),
        key: SessionKey { keytype, keyvalue },
        srealm: "TEST.COM".to_string(),
        sname: PrincipalName { name_type: 2, name_string: vec!["krbtgt".to_string(), "TEST.COM".to_string()] },
        authtime: 1700000000,
        starttime: None,
        endtime: 1700086400,
        renew_till: None,
        flags: 0,
    }
}

#[test]
fn split_like_str_split() {
    assert_eq!(split_chars("a/b", '/'), vec!["a", "b"]);
    assert_eq!(split_chars("", '/'), vec![""]);
    assert_eq!(split_chars("a/", '/'), vec!["a", ""]);
    assert_eq!(split_chars("/a//b", '/'), vec!["", "a", "", "b"]);
}

#[test]
fn service_names() {
    assert_eq!(service_name_components("hive/bd-pr-nn1@GHAC.COM"), vec!["hive", "bd-pr-nn1"]);
    assert_eq!(service_name_components("test/svc"), vec!["test", "svc"]);
    assert_eq!(service_name_components("krbtgt"), vec!["krbtgt"]);
    assert_eq!(service_name_components("@X"), vec![""]);
}

#[test]
fn request_body_fields() {
    let mut r = TgsRequester::new("TEST.COM".to_string());
    r.set_transport_protocol(TransportProtocol::UDP);
    let b = r.tgs_req_body("test/svc@TEST.COM", 7, (100, 1), (200, 2));
    assert_eq!(b.kdc_options, 0x40800010);
    assert_eq!(b.realm, "TEST.COM");
    assert_eq!(b.sname.name_type, 1);
    assert_eq!(b.sname.name_string, vec!["test", "svc"]);
    assert_eq!((b.till_secs, b.till_nanos), (100, 1));
    assert_eq!((b.rtime_secs, b.rtime_nanos), (200, 2));
    assert_eq!(b.nonce, 7);
    assert_eq!(b.etypes, vec![18, 17, 23]);
    assert_eq!(b.addr_type, 2);
    assert_eq!(b.address, vec![10, 110, 149, 18]);
}

#[test]
fn checksums_by_etype() {
    let data = b"request body";
    assert_eq!(checksum_type(17), 15);
    assert_eq!(checksum_type(18), 16);
    assert_eq!(checksum_type(23), 16);
    let k16 = [5u8; 16];
    let k32 = [6u8; 32];
    assert_eq!(compute_checksum(23, &k16, 6, data), kerberos_crypto::checksum_hmac_md5(&k16, 6, data));
    assert_eq!(
        compute_checksum(17, &k16, 6, data),
        kerberos_crypto::checksum_sha_aes(&k16, 6, data, &AesSizes::Aes128)
    );
    assert_eq!(
        compute_checksum(18, &k32, 6, data),
        kerberos_crypto::checksum_sha_aes(&k32, 6, data, &AesSizes::Aes256)
    );
}

#[test]
fn tgs_req_contents() {
    let key = vec![0x42u8; 32];
    let r = TgsRequester::new("TEST.COM".to_string());
    let bytes = r.build_tgs_req(&tgt(18, key.clone()), "test/svc").unwrap();
    let (_, req) = TgsReq::parse(&bytes).unwrap();
    assert_eq!(req.pvno, 5);
    assert_eq!(req.msg_type, 12);
    let body = &req.req_body;
    assert_eq!(*body.kdc_options, 0x40800010);
    assert_eq!(body.realm, "TEST.COM");
    let sname = body.sname.clone().unwrap();
    assert_eq!(sname.name_type, 1);
    assert_eq!(sname.name_string, vec!["test", "svc"]);
    assert_eq!(body.etypes, vec![18, 17, 23]);
    let addrs = body.addresses.clone().unwrap();
    assert_eq!(addrs.len(), 1);
    assert_eq!(addrs[0].addr_type, 2);
    assert_eq!(addrs[0].address, vec![10, 110, 149, 18]);
    let padata = req.padata.clone().unwrap();
    assert_eq!(padata.len(), 2);
    assert_eq!(padata[0].padata_type, 1);
    assert_eq!(padata[1].padata_type, 128);
    assert_eq!(padata[1].padata_value, vec![0x30, 0x05, 0xa0, 0x03, 0x01, 0x01, 0xff]);

    let (_, ap_req) = ApReq::parse(&padata[0].padata_value).unwrap();
    assert_eq!(ap_req.msg_type, 14);
    assert_eq!(*ap_req.ap_options, 0);
    assert_eq!(ap_req.ticket, asn1_tgt_ticket());
    let cipher = kerberos_crypto::new_kerberos_cipher(18).unwrap();
    let plain = cipher.decrypt(&key, 7, &ap_req.authenticator.cipher).unwrap();
    let (_, auth) = Authenticator::parse(&plain).unwrap();
    assert_eq!(auth.crealm, "TEST.COM");
    let cksum = auth.cksum.unwrap();
    assert_eq!(cksum.cksumtype, 16);
    let expected = kerberos_crypto::checksum_sha_aes(&key, 6, &body.build(), &AesSizes::Aes256);
    assert_eq!(cksum.checksum, expected);
    assert!(auth.subkey.is_none());
}

#[test]
fn tgs_req_unsupported_session_key() {
    let r = TgsRequester::new("TEST.COM".to_string());
    assert_eq!(r.build_tgs_req(&tgt(1, vec![0u8; 8]), "svc"), Err(TgsError::UnsupportedEtype(1)));
}

fn tgs_rep_bytes(session_key: &[u8], etype: i32) -> Vec<u8> {
    let mut part = EncTgsRepPart::default();
    part.key = EncryptionKey::new(17, vec![9u8; 16]);
    part.flags.flags = 0x40a00000;
    part.authtime = chrono::DateTime::from_timestamp(1700000000, 0).unwrap().into();
    part.endtime = chrono::DateTime::from_timestamp(1700086400, 0).unwrap().into();
    part.renew_till = Some(chrono::DateTime::from_timestamp(1700681600, 0).unwrap().into());
    part.srealm = "TEST.COM".to_string();
    part.sname = kerberos_asn1::PrincipalName::new(1, "test".into());
    part.sname.push("svc".into());
    let cipher = kerberos_crypto::new_kerberos_cipher(etype).unwrap();
    let enc = cipher.encrypt(session_key, 8, &part.build());
    let mut rep = TgsRep::default();
    rep.crealm = "TEST.COM".to_string();
    rep.cname = kerberos_asn1::PrincipalName::new(1, "user".into());
    rep.ticket = Ticket::new(
        "TEST.COM".to_string(),
        kerberos_asn1::PrincipalName::new(1, "test".into()),
        EncryptedData::new(17, None, vec![7, 7]),
    );
    rep.enc_part = EncryptedData::new(etype, None, enc);
    rep.build()
}

#[test]
fn service_credential_from_reply() {
    let key = vec![0x33u8; 32];
    let raw = tgs_rep_bytes(&key, 18);
    let c = handle_tgs_response(&tgt(18, key), &raw).unwrap();
    assert_eq!(c.crealm, "TEST.COM");
    assert_eq!(c.cname.name_string, vec!["user"]);
    assert_eq!(c.key.keytype, 17);
    assert_eq!(c.key.keyvalue, vec![9u8; 16]);
    assert_eq!(c.flags, 0x40a00000);
    assert_eq!(c.authtime, 1700000000);
    assert_eq!(c.starttime, None);
    assert_eq!(c.endtime, 1700086400);
    assert_eq!(c.renew_till, Some(1700681600));
    assert_eq!(c.srealm, "TEST.COM");
    assert_eq!(c.sname.name_type, 1);
    assert_eq!(c.sname.name_string, vec!["test", "svc"]);
    assert_eq!(
        c.ticket,
        TicketInfo {
            tkt_vno: 5,
            realm: "TEST.COM".to_string(),
            sname: PrincipalName { name_type: 1, name_string: vec!["test".to_string()] },
            enc_part: EncryptedPart { etype: 17, kvno: None, cipher: vec![7, 7] },
        }
    );
}

#[test]
fn reply_errors() {
    let key = vec![0x33u8; 32];
    let raw = tgs_rep_bytes(&key, 18);
    assert_eq!(handle_tgs_response(&tgt(18, vec![0x34u8; 32]), &raw).unwrap_err(), TgsError::Decrypt);
    assert_eq!(handle_tgs_response(&tgt(17, vec![0x34u8; 16]), &raw).unwrap_err(), TgsError::SessionKeyLength);
    assert_eq!(handle_tgs_response(&tgt(18, key.clone()), &[1, 2, 3]).unwrap_err(), TgsError::DecodeResponse);
    assert_eq!(
        handle_tgs_response(&tgt(18, key.clone()), &[0x1f, 0x81, 0x81, 0x01]).unwrap_err(),
        TgsError::MalformedEncoding
    );

    let mut e = KrbError::default();
    e.pvno = 5;
    e.msg_type = 30;
    e.error_code = 7;
    e.realm = "TEST.COM".to_string();
    e.sname = kerberos_asn1::PrincipalName::new(2, "krbtgt".into());
    e.e_text = Some("unknown server".to_string());
    let raw = e.build();
    match handle_tgs_response(&tgt(18, key.clone()), &raw) {
        Err(TgsError::KrbErrorResponse(info)) => {
            assert_eq!(info.error_code, 7);
            assert_eq!(info.realm, "TEST.COM");
            assert_eq!(info.sname.name_string, vec!["krbtgt"]);
            assert_eq!(info.e_text, Some("unknown server".to_string()));
            assert_eq!(info.crealm, None);
        }
        other => panic!("unexpected {:?}", other),
    }
    match classify_tgs_response(&raw) {
        Ok(TgsReqResponse::KrbError(info)) => assert_eq!(info.error_code, 7),
        other => panic!("unexpected {:?}", other),
    }
}

#[test]
fn reply_part_that_is_not_enc_tgs_rep_part() {
    let key = vec![0x21u8; 16];
    let cipher = kerberos_crypto::new_kerberos_cipher(23).unwrap();
    let enc = cipher.encrypt(&key, 8, &[0x30, 0x00]);
    let mut rep = TgsRep::default();
    rep.crealm = "TEST.COM".to_string();
    rep.cname = kerberos_asn1::PrincipalName::new(1, "user".into());
    rep.enc_part = EncryptedData::new(23, None, enc);
    let raw = rep.build();
    assert_eq!(handle_tgs_response(&tgt(23, key), &raw).unwrap_err(), TgsError::DecodeEncPart);
}

#[test]
fn split_then_join_gives_text_back() {
    for s in ["", "a", "a/b", "/a//b/", "hive/bd-pr-nn1"] {
        assert_eq!(split_chars(s, '/').join("/"), s);
    }
    assert_eq!(service_name_components("thrift/server.example.com").join("/"), "thrift/server.example.com");
}

#[test]
fn reply_with_a_time_that_is_no_date() {
    let mut e = KrbError::default();
    e.pvno = 5;
    e.msg_type = 30;
    e.error_code = 7;
    e.realm = "TEST.COM".to_string();
    e.sname = kerberos_asn1::PrincipalName::new(2, "krbtgt".into());
    let mut raw = e.build();
    let i = raw.windows(2).position(|w| w == [0x18, 0x0f]).unwrap();
    raw[i + 6] = b'1';
    raw[i + 7] = b'3';
    assert!(matches!(classify_tgs_response(&raw), Err(TgsError::MalformedEncoding)));
    assert_eq!(handle_tgs_response(&tgt(18, vec![0x33u8; 32]), &raw).unwrap_err(), TgsError::MalformedEncoding);
}

#[test]
fn decrypted_part_with_a_time_that_is_no_date() {
    let key = vec![0x21u8; 16];
    let mut part = EncTgsRepPart::default();
    part.key = EncryptionKey::new(17, vec![9u8; 16]);
    part.srealm = "TEST.COM".to_string();
    part.sname = kerberos_asn1::PrincipalName::new(1, "test".into());
    let mut plain = part.build();
    let i = plain.windows(2).position(|w| w == [0x18, 0x0f]).unwrap();
    // 1970-02-30
    plain[i + 6] = b'0';
    plain[i + 7] = b'2';
    plain[i + 8] = b'3';
    plain[i + 9] = b'0';
    let cipher = kerberos_crypto::new_kerberos_cipher(23).unwrap();
    let enc = cipher.encrypt(&key, 8, &plain);
    let mut rep = TgsRep::default();
    rep.crealm = "TEST.COM".to_string();
    rep.cname = kerberos_asn1::PrincipalName::new(1, "user".into());
    rep.enc_part = EncryptedData::new(23, None, enc);
    let raw = rep.build();
    assert_eq!(handle_tgs_response(&tgt(23, key), &raw).unwrap_err(), TgsError::MalformedEncoding);
}

#[test]
fn tgs_req_at_given_times() {
    let key = vec![0x42u8; 32];
    let r = TgsRequester::new("TEST.COM".to_string());
    let bytes = r.build_tgs_req_at(&tgt(18, key.clone()), "test/svc", 77, (1700000000, 0), (1700003600, 0)).unwrap();
    let (_, req) = TgsReq::parse(&bytes).unwrap();
    assert_eq!(req.req_body.nonce, 77);
    assert_eq!(req.req_body.till.timestamp(), 1700000000 + 628992000);
    assert_eq!(req.req_body.rtime.clone().unwrap().timestamp(), 1700003600 + 628992000);
    let padata = req.padata.clone().unwrap();
    let (_, ap_req) = ApReq::parse(&padata[0].padata_value).unwrap();
    let cipher = kerberos_crypto::new_kerberos_cipher(18).unwrap();
    let plain = cipher.decrypt(&key, 7, &ap_req.authenticator.cipher).unwrap();
    let (_, auth) = Authenticator::parse(&plain).unwrap();
    let expected = kerberos_crypto::checksum_sha_aes(&key, 6, &req.req_body.build(), &AesSizes::Aes256);
    assert_eq!(auth.cksum.unwrap().checksum, expected);
    assert_eq!(
        r.build_tgs_req_at(&tgt(18, key.clone()), "test/svc", 77, (1700000000, 0), (8210266876799 - 628992000 + 1, 0)),
        Err(TgsError::TimeOutOfRange)
    );
    assert_eq!(
        r.build_tgs_req_at(&tgt(18, key.clone()), "test/svc", 77, (i64::MAX, 0), (1700003600, 0)),
        Err(TgsError::TimeOutOfRange)
    );
    assert_eq!(
        r.build_tgs_req_at(&tgt(1, vec![0u8; 8]), "test/svc", 77, (i64::MAX, 0), (1700003600, 0)),
        Err(TgsError::UnsupportedEtype(1))
    );
}

#[test]
fn tgs_ap_req_at_given_times() {
    let key = vec![0x42u8; 16];
    let r = TgsRequester::new("TEST.COM".to_string());
    let body = [0x30u8, 0x00];
    let bytes = r.build_ap_req_for_tgs_at(&tgt(17, key.clone()), &body, 1700000000, 5_000_000).unwrap();
    let (_, ap_req) = ApReq::parse(&bytes).unwrap();
    assert_eq!(*ap_req.ap_options, 0);
    assert_eq!(ap_req.ticket, asn1_tgt_ticket());
    let cipher = kerberos_crypto::new_kerberos_cipher(17).unwrap();
    let plain = cipher.decrypt(&key, 7, &ap_req.authenticator.cipher).unwrap();
    let (_, auth) = Authenticator::parse(&plain).unwrap();
    assert_eq!(auth.ctime.timestamp(), 1700000000);
    assert_eq!(auth.cusec, 5000);
    let cksum = auth.cksum.unwrap();
    assert_eq!(cksum.cksumtype, 15);
    assert_eq!(cksum.checksum, kerberos_crypto::checksum_sha_aes(&key, 6, &body, &AesSizes::Aes128));
    assert_eq!(
        r.build_ap_req_for_tgs_at(&tgt(17, key), &body, i64::MAX, 0),
        Err(TgsError::TimeOutOfRange)
    );
}

#[test]
fn decrypted_part_with_flags_of_too_many_unused_bits() {
    let key = vec![0x21u8; 16];
    let mut part = EncTgsRepPart::default();
    part.key = EncryptionKey::new(17, vec![9u8; 16]);
    part.flags.flags = 0x40a00000;
    part.srealm = "TEST.COM".to_string();
    part.sname = kerberos_asn1::PrincipalName::new(1, "test".into());
    let mut plain = part.build();
    let i = plain.windows(3).position(|w| w == [0x03, 0x05, 0x00]).unwrap();
    plain[i + 2] = 8;
    let cipher = kerberos_crypto::new_kerberos_cipher(23).unwrap();
    let enc = cipher.encrypt(&key, 8, &plain);
    let mut rep = TgsRep::default();
    rep.crealm = "TEST.COM".to_string();
    rep.cname = kerberos_asn1::PrincipalName::new(1, "user".into());
    rep.enc_part = EncryptedData::new(23, None, enc);
    let raw = rep.build();
    assert_eq!(handle_tgs_response(&tgt(23, key), &raw).unwrap_err(), TgsError::MalformedEncoding);
}
