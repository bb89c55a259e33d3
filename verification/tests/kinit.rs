use rust_kinit::kinit::parse_principal;

#[test]
fn test_parse_principal() {
    assert_eq!(
        parse_principal("hdfs@XXX.COM"),
        Ok(("hdfs".to_string(), "XXX.COM".to_string()))
    );
    assert_eq!(
        parse_principal("hdfs/datanode1@XXX.COM"),
        Ok(("hdfs/datanode1".to_string(), "XXX.COM".to_string()))
    );
    assert!(parse_principal("invalid").is_err());
}

#[test]
fn parse_principal_rejects_two_at_signs() {
    assert_eq!(parse_principal("a@b@c"), Err("principal 格式错误，应为 name@REALM: a@b@c".to_string()));
    assert_eq!(parse_principal("@R"), Ok((String::new(), "R".to_string())));
}

use rust_kinit::ccache::CCache;
use rust_kinit::credential::{Credential, EncryptedPart, PrincipalName, SessionKey, TicketInfo};
use rust_kinit::kinit::{
    build_mit_ccache, check_ascii_names, entry_decodes, find_key_in_keytab, keytab_request_key, keytab_sizes_ok,
    tgt_request_key, kerberos_time_to_unix, keytab_entry_to_key,
    ticket_flags_to_u32, KeytabEntryInfo, UserKey,
};

fn entry(realm: &str, name: &[&str], keytype: u16, len: usize, vno: Option<u32>, fill: u8) -> KeytabEntryInfo {
    KeytabEntryInfo {
        realm: realm.as_bytes().to_vec(),
        components: name.iter().map(|c| c.as_bytes().to_vec()).collect(),
        keytype,
        keyvalue: vec![fill; len],
        vno,
    }
}

#[test]
fn keytab_entry_keys() {
    assert_eq!(keytab_entry_to_key(&entry("R", &["u"], 18, 32, None, 1)), Ok(UserKey::AES256Key(vec![1; 32])));
    assert_eq!(keytab_entry_to_key(&entry("R", &["u"], 17, 16, None, 2)), Ok(UserKey::AES128Key(vec![2; 16])));
    assert_eq!(keytab_entry_to_key(&entry("R", &["u"], 23, 16, None, 3)), Ok(UserKey::RC4Key(vec![3; 16])));
    assert_eq!(keytab_entry_to_key(&entry("R", &["u"], 18, 16, None, 1)), Err("AES256 key 长度错误: 16（期望32）".to_string()));
    assert_eq!(keytab_entry_to_key(&entry("R", &["u"], 17, 32, None, 1)), Err("AES128 key 长度错误: 32（期望16）".to_string()));
    assert_eq!(keytab_entry_to_key(&entry("R", &["u"], 23, 15, None, 1)), Err("RC4 key 长度错误: 15（期望16）".to_string()));
    assert_eq!(keytab_entry_to_key(&entry("R", &["u"], 3, 8, None, 1)), Err("不支持的 keytype: 3".to_string()));
    assert_eq!(UserKey::AES256Key(vec![]).etypes(), vec![18]);
    assert_eq!(UserKey::Secret(String::new()).etypes(), vec![18, 17, 23]);
}

#[test]
fn key_choice_in_keytab() {
    let entries = vec![
        entry("XXX.COM", &["hdfs", "dn1"], 23, 16, Some(5), 1),
        entry("XXX.COM", &["hdfs", "dn1"], 17, 16, Some(2), 2),
        entry("XXX.COM", &["hdfs", "dn1"], 17, 16, Some(3), 3),
        entry("XXX.COM", &["hdfs", "dn1"], 17, 16, Some(3), 4),
        entry("YYY.COM", &["hdfs", "dn1"], 18, 32, Some(9), 5),
        entry("XXX.COM", &["hdfs"], 18, 32, Some(9), 6),
    ];
    assert_eq!(find_key_in_keytab(&entries, "hdfs/dn1", "XXX.COM"), Ok(UserKey::AES128Key(vec![3; 16])));
    assert_eq!(find_key_in_keytab(&entries, "hdfs", "XXX.COM"), Ok(UserKey::AES256Key(vec![6; 32])));
    assert_eq!(
        find_key_in_keytab(&entries, "hive", "XXX.COM"),
        Err("keytab 中未找到匹配 hive@XXX.COM 的条目".to_string())
    );
    let bad = vec![entry("R", &["u"], 18, 16, Some(1), 0)];
    assert_eq!(find_key_in_keytab(&bad, "u", "R"), Err("AES256 key 长度错误: 16（期望32）".to_string()));
    let unsupported = vec![entry("R", &["u"], 3, 8, Some(2), 0)];
    assert_eq!(find_key_in_keytab(&unsupported, "u", "R"), Err("不支持的 keytype: 3".to_string()));
    let unsupported_v0 = vec![entry("R", &["u"], 3, 8, None, 0)];
    assert_eq!(find_key_in_keytab(&unsupported_v0, "u", "R"), Err("keytab 中未找到匹配 u@R 的条目".to_string()));
}

#[test]
fn keytab_file_entries() {
    let mut e = kerberos_keytab::KeytabEntry::default();
    e.realm = kerberos_keytab::CountedOctetString::new("XXX.COM".as_bytes().to_vec());
    e.components = vec![kerberos_keytab::CountedOctetString::new("hdfs".as_bytes().to_vec())];
    e.key = kerberos_keytab::KeyBlock::new(18, vec![7; 32]);
    e.vno = Some(4);
    let kt = kerberos_keytab::Keytab::new(5, 2, vec![e]);
    let raw = kt.build();
    assert_eq!(
        keytab_request_key(&raw, "hdfs@XXX.COM"),
        Ok(("hdfs".to_string(), "XXX.COM".to_string(), UserKey::AES256Key(vec![7; 32]), 18))
    );
    assert_eq!(
        keytab_request_key(&raw, "hive@XXX.COM"),
        Err("keytab 中未找到匹配 hive@XXX.COM 的条目".to_string())
    );
    assert!(keytab_request_key(&[0x05], "hdfs@XXX.COM").unwrap_err().starts_with("keytab 解析失败: "));
    assert_eq!(
        keytab_request_key(&raw, "hdfs"),
        Err("principal 格式错误，应为 name@REALM: hdfs".to_string())
    );
}

#[test]
fn tgt_to_mit_cache() {
    assert_eq!(kerberos_time_to_unix(1700000000), 1700000000);
    assert_eq!(kerberos_time_to_unix(-1), u32::MAX);
    assert_eq!(ticket_flags_to_u32(0), 0);
    assert_eq!(ticket_flags_to_u32(0x40c10000), 0x40c10000);
    assert_eq!(ticket_flags_to_u32(0x50a00000), 0x50a00000);
    let ticket = kerberos_asn1::Ticket::new(
        "XXX.COM".to_string(),
        kerberos_asn1::PrincipalName::new(2, "krbtgt".into()),
        kerberos_asn1::EncryptedData::new(18, None, vec![1, 2]),
    );
    let cred = Credential {
        crealm: "XXX.COM".to_string(),
        cname: PrincipalName { name_type: 1, name_string: vec!["hive".to_string()] },
        ticket: TicketInfo {
            tkt_vno: 5,
            realm: "XXX.COM".to_string(),
            sname: PrincipalName { name_type: 2, name_string: vec!["krbtgt".to_string()] },
            enc_part: EncryptedPart { etype: 18, kvno: None, cipher: vec![1, 2] },
        },
        key: SessionKey { keytype: 18, keyvalue: vec![8; 32] },
        srealm: "XXX.COM".to_string(),
        sname: PrincipalName { name_type: 2, name_string: vec!["krbtgt".to_string(), "XXX.COM".to_string()] },
        authtime: 1700000000,
        starttime: Some(1700000001),
        endtime: 1700086400,
        renew_till: None,
        flags: 0x50e10000,
    };
    let bytes = build_mit_ccache(&cred);
    let (used, c) = CCache::parse(&bytes).unwrap();
    assert_eq!(used, bytes.len());
    assert_eq!(c.default_principal.realm, "XXX.COM");
    assert_eq!(c.default_principal.components, vec!["hive"]);
    assert_eq!(c.credentials.len(), 1);
    let k = &c.credentials[0];
    assert_eq!(k.server.name_type, 2);
    assert_eq!(k.server.components, vec!["krbtgt", "XXX.COM"]);
    assert_eq!(k.key.enctype, 18);
    assert_eq!(k.key.keyvalue, vec![8; 32]);
    assert_eq!((k.time.authtime, k.time.starttime, k.time.endtime, k.time.renew_till), (1700000000, 1700000001, 1700086400, 0));
    assert_eq!(k.tktflags, 0x50e10000);
    assert_eq!(k.ticket, kerberos_asn1::Asn1Object::build(&ticket));
}

#[test]
fn principal_text_roundtrip() {
    for (name, realm) in [("hdfs", "XXX.COM"), ("hdfs/datanode1", "XXX.COM"), ("", ""), ("a", "")] {
        assert_eq!(
            parse_principal(&format!("{}@{}", name, realm)),
            Ok((name.to_string(), realm.to_string()))
        );
    }
}

#[test]
fn key_and_etype_before_the_as_exchange() {
    let entries = vec![
        entry("XXX.COM", &["hdfs"], 23, 16, Some(1), 1),
        entry("XXX.COM", &["hdfs"], 17, 16, Some(1), 2),
    ];
    assert_eq!(
        tgt_request_key(&entries, "hdfs@XXX.COM"),
        Ok(("hdfs".to_string(), "XXX.COM".to_string(), UserKey::AES128Key(vec![2; 16]), 17))
    );
    assert_eq!(
        tgt_request_key(&entries, "hdfs"),
        Err("principal 格式错误，应为 name@REALM: hdfs".to_string())
    );
    assert_eq!(
        tgt_request_key(&entries, "hive@XXX.COM"),
        Err("keytab 中未找到匹配 hive@XXX.COM 的条目".to_string())
    );
    assert_eq!(check_ascii_names(&"hdfs".to_string(), &"XXX.COM".to_string()), Ok(()));
    assert_eq!(
        check_ascii_names(&"h\u{e9}".to_string(), &"XXX.COM".to_string()),
        Err("principal 名不是有效 ASCII: h\u{e9}".to_string())
    );
    assert_eq!(
        check_ascii_names(&"hdfs".to_string(), &"\u{17d}.COM".to_string()),
        Err("realm 不是有效 ASCII: \u{17d}.COM".to_string())
    );
}

#[test]
fn keytab_size_walk() {
    assert!(keytab_sizes_ok(&[5, 2]));
    assert!(keytab_sizes_ok(&[5, 2, 0, 0, 0, 1, 9, 0xff, 0xff, 0xff, 0xfe, 1, 2]));
    // The reader stops at an entry that does not decode and never reads the size after it.
    assert!(keytab_sizes_ok(&[5, 2, 0, 0, 0, 1, 9, 0x80, 0, 0, 0]));
    let content: Vec<u8> = vec![0, 1, 0, 1, b'R', 0, 1, b'u', 0, 0, 0, 1, 0, 0, 0, 0, 1, 0, 18, 0, 2, 7, 7];
    assert!(entry_decodes(&content));
    assert!(!entry_decodes(&[content.clone(), vec![0, 0]].concat()));
    assert!(entry_decodes(&[content.clone(), vec![0, 0, 0, 3]].concat()));
    assert!(!entry_decodes(&content[..22]));
    let decodable: Vec<u8> = [vec![5u8, 2, 0, 0, 0, 23], content.clone(), vec![0x80, 0, 0, 0]].concat();
    assert!(!keytab_sizes_ok(&decodable));
    assert!(!keytab_sizes_ok(&[5, 2, 0xff, 0xff, 0xff, 0xfe, 1, 2, 0x80, 0, 0, 0]));
    assert!(!keytab_sizes_ok(&[5, 2, 0x80, 0, 0, 0]));
    assert!(keytab_sizes_ok(&[5, 2, 0, 0, 0, 9, 0x80, 0, 0, 0]));
    let raw = [5u8, 2, 0xff, 0xff, 0xff, 0xfc, 1, 2, 3, 4];
    assert!(keytab_sizes_ok(&raw));
    assert!(keytab_request_key(&raw, "u@R").is_err());
}
