use rust_kinit::bytes::CCacheError;
use rust_kinit::ccache::{CCache, Credential, KeyBlock, Principal, Times};

#[test]
fn test_principal_build_parse_roundtrip() {
    let p = Principal::new(1, "XXX.COM", &["hive"]);
    let bytes = p.build();
    let (_, p2) = Principal::parse(&bytes).unwrap();
    assert_eq!(p, p2);
}

#[test]
fn test_principal_build_parse_krbtgt() {
    let p = Principal::new(2, "XXX.COM", &["krbtgt", "XXX.COM"]);
    let bytes = p.build();
    let (_, p2) = Principal::parse(&bytes).unwrap();
    assert_eq!(p, p2);
}

#[test]
fn test_keyblock_build_parse_roundtrip() {
    let k = KeyBlock::new(18, vec![0x01, 0x02, 0x03, 0x04]);
    let bytes = k.build();
    let (_, k2) = KeyBlock::parse(&bytes).unwrap();
    assert_eq!(k.enctype, k2.enctype);
    assert_eq!(k.keyvalue, k2.keyvalue);
}

#[test]
fn test_times_build_parse_roundtrip() {
    let t = Times::new(1700000000, 0, 1700086400, 1700681600);
    let bytes = t.build();
    let (_, t2) = Times::parse(&bytes).unwrap();
    assert_eq!(t.authtime, t2.authtime);
    assert_eq!(t.endtime, t2.endtime);
}

#[test]
fn test_credential_build_parse_roundtrip() {
    let client = Principal::new(1, "XXX.COM", &["hive"]);
    let server = Principal::new(2, "XXX.COM", &["krbtgt", "XXX.COM"]);
    let key = KeyBlock::new(18, vec![0u8; 32]);
    let time = Times::new(1700000000, 0, 1700086400, 1700681600);
    let ticket = vec![0x61, 0x82, 0x01, 0x00];
    let cred = Credential::new(client, server, key, time, 0, 0x40c10000, ticket);
    let bytes = cred.build();
    let (_, cred2) = Credential::parse(&bytes).unwrap();
    assert_eq!(cred.client.realm, cred2.client.realm);
    assert_eq!(cred.server.name_type, cred2.server.name_type);
    assert_eq!(cred.key.enctype, cred2.key.enctype);
    assert_eq!(cred.tktflags, cred2.tktflags);
}

#[test]
fn test_ccache_build_parse_roundtrip() {
    let default_principal = Principal::new(1, "XXX.COM", &["hive"]);
    let client = Principal::new(1, "XXX.COM", &["hive"]);
    let server = Principal::new(2, "XXX.COM", &["krbtgt", "XXX.COM"]);
    let key = KeyBlock::new(18, vec![0u8; 32]);
    let time = Times::new(1700000000, 0, 1700086400, 1700681600);
    let ticket = vec![0x61, 0x82, 0x01, 0x00];
    let cred = Credential::new(client, server, key, time, 0, 0x40c10000, ticket);
    let ccache = CCache::new(default_principal, vec![cred]);
    let bytes = ccache.build();
    let (_, ccache2) = CCache::parse(&bytes).unwrap();
    assert_eq!(ccache.default_principal.realm, ccache2.default_principal.realm);
    assert_eq!(ccache.credentials.len(), ccache2.credentials.len());
}

#[test]
fn principal_encoding_exact_bytes() {
    let p = Principal::new(1, "AB", &["c"]);
    assert_eq!(
        p.build(),
        vec![0, 0, 0, 1, 0, 0, 0, 1, 0, 0, 0, 2, b'A', b'B', 0, 0, 0, 1, b'c']
    );
}

#[test]
fn keyblock_encoding_exact_bytes() {
    let k = KeyBlock::new(0x0102, vec![9, 8]);
    assert_eq!(k.build(), vec![0x01, 0x02, 0, 0, 0, 2, 9, 8]);
}

#[test]
fn times_encoding_is_big_endian() {
    let t = Times::new(0x01020304, 5, 0xAABBCCDD, 0);
    assert_eq!(
        t.build(),
        vec![1, 2, 3, 4, 0, 0, 0, 5, 0xAA, 0xBB, 0xCC, 0xDD, 0, 0, 0, 0]
    );
}

#[test]
fn ccache_header_bytes() {
    let c = CCache::new(Principal::new(1, "R", &[]), vec![]);
    let b = c.build();
    assert_eq!(&b[..16], &[0x05, 0x04, 0, 12, 0, 1, 0, 8, 0, 0, 0, 0, 0, 0, 0, 0]);
}

#[test]
fn parse_reports_short_input() {
    assert_eq!(Principal::parse(&[0, 0, 0]).unwrap_err(), CCacheError::UnexpectedEof);
    assert_eq!(KeyBlock::parse(&[0, 18, 0, 0, 0, 5, 1]).unwrap_err(), CCacheError::UnexpectedEof);
    assert_eq!(Times::parse(&[0; 15]).unwrap_err(), CCacheError::UnexpectedEof);
}

#[test]
fn parse_reports_version() {
    assert_eq!(
        CCache::parse(&[0x05, 0x03, 0, 0]).unwrap_err(),
        CCacheError::UnsupportedVersion(0x0503)
    );
    assert_eq!(CCache::parse(&[0x05]).unwrap_err(), CCacheError::UnexpectedEof);
}

#[test]
fn parse_reports_used_length_and_ignores_trailing_bytes() {
    let p = Principal::new(3, "EXAMPLE.ORG", &["a", "b/c"]);
    let mut bytes = p.build();
    let n = bytes.len();
    bytes.extend_from_slice(&[7, 7, 7]);
    let (used, p2) = Principal::parse(&bytes).unwrap();
    assert_eq!(used, n);
    assert_eq!(p2, p);
}

#[test]
fn ccache_roundtrip_keeps_every_field() {
    let client = Principal::new(1, "R\u{e9}ALM", &["us\u{e9}r"]);
    let server = Principal::new(2, "REALM", &["krbtgt", "REALM"]);
    let mut cred = Credential::new(
        client.clone(),
        server,
        KeyBlock::new(17, vec![1; 16]),
        Times::new(1, 2, 3, 4),
        1,
        0x50800000,
        vec![0x61, 1, 2],
    );
    cred.second_ticket = vec![9];
    let c = CCache::new(client, vec![cred.clone(), cred]);
    let bytes = c.build();
    let (used, c2) = CCache::parse(&bytes).unwrap();
    assert_eq!(used, bytes.len());
    assert_eq!(c2.default_principal, c.default_principal);
    assert_eq!(c2.credentials, c.credentials);
}

#[test]
fn invalid_utf8_names_are_read_lossily() {
    let bytes = vec![0, 0, 0, 1, 0, 0, 0, 0, 0, 0, 0, 1, 0xff];
    let (_, p) = Principal::parse(&bytes).unwrap();
    assert_eq!(p.realm, "\u{fffd}");
}

#[test]
fn cut_principal_encoding_cannot_be_read() {
    let p = Principal::new(1, "XXX.COM", &["hdfs", "datanode1"]);
    let bytes = p.build();
    for n in 0..bytes.len() {
        assert_eq!(Principal::parse(&bytes[..n]).unwrap_err(), CCacheError::UnexpectedEof);
    }
    assert!(Principal::parse(&bytes).is_ok());
}

#[test]
fn header_contents_are_skipped() {
    let client = Principal::new(1, "XXX.COM", &["hive"]);
    let cache = CCache::new(client, vec![]);
    let bytes = cache.build();
    let mut other = bytes.clone();
    for b in other[4..16].iter_mut() {
        *b = 0xab;
    }
    let (used1, c1) = CCache::parse(&bytes).unwrap();
    let (used2, c2) = CCache::parse(&other).unwrap();
    assert_eq!(used1, used2);
    assert_eq!(c1.default_principal, c2.default_principal);
    assert_eq!(c1.credentials, c2.credentials);
}
