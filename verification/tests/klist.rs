use rust_kinit::ccache::{CCache, Credential, KeyBlock, Principal, Times};
use rust_kinit::klist::{
    default_ccache_path, fmt_etype, fmt_flags, fmt_principal, fmt_time, klist_lines,
    resolve_ccache_path,
};

#[test]
fn etype_names() {
    assert_eq!(fmt_etype(18, 0), "aes256-cts-hmac-sha1-96");
    assert_eq!(fmt_etype(0, 17), "aes128-cts-hmac-sha1-96");
    assert_eq!(fmt_etype(23, 18), "arcfour-hmac");
    assert_eq!(fmt_etype(24, 0), "arcfour-hmac-exp");
    assert_eq!(fmt_etype(1, 0), "des-cbc-crc");
    assert_eq!(fmt_etype(3, 0), "des-cbc-md5");
    assert_eq!(fmt_etype(0, 0), "null");
    assert_eq!(fmt_etype(99, 0), "etype(99)");
}

#[test]
fn flag_names() {
    assert_eq!(fmt_flags(0x40c10000), "Forwardable, Renewable, Initial, Name-canonicalize");
    assert_eq!(fmt_flags(0x50a00000), "Forwardable, Proxiable, Renewable, Pre-authent");
    assert_eq!(fmt_flags(0), "0x00000000");
    assert_eq!(fmt_flags(0x0000abcd), "0x0000abcd");
}

#[test]
fn principal_text() {
    assert_eq!(fmt_principal(b"XXX.COM", &[b"hive".to_vec()]), "hive@XXX.COM");
    assert_eq!(fmt_principal(b"XXX.COM", &[b"krbtgt".to_vec(), b"XXX.COM".to_vec()]), "krbtgt/XXX.COM@XXX.COM");
    assert_eq!(fmt_principal(b"XXX.COM", &[]), "XXX.COM");
    assert_eq!(fmt_principal(&[0xff], &[]), "\u{fffd}");
}

#[test]
fn time_text() {
    assert_eq!(fmt_time(0), "--");
    assert_eq!(fmt_time(1700000000), "2023-11-14 22:13:20");
    assert_eq!(fmt_time(1), "1970-01-01 00:00:01");
}

#[test]
fn which_cache() {
    let args = |v: &[&str]| v.iter().map(|s| s.to_string()).collect::<Vec<String>>();
    assert_eq!(resolve_ccache_path(&args(&["klist", "-c", "/tmp/cc"]), Some("FILE:/x"), "d", true), Ok("/tmp/cc".to_string()));
    assert_eq!(
        resolve_ccache_path(&args(&["klist", "-c"]), None, "d", true),
        Err("-c requires a path argument".to_string())
    );
    assert_eq!(resolve_ccache_path(&args(&["klist"]), Some("FILE:/x/cc "), "d", true), Ok("/x/cc".to_string()));
    assert_eq!(resolve_ccache_path(&args(&["klist"]), Some("WRFILE:/y"), "d", true), Ok("/y".to_string()));
    assert_eq!(resolve_ccache_path(&args(&["klist"]), Some("FILE:"), "d", true), Ok("d".to_string()));
    assert_eq!(
        resolve_ccache_path(&args(&["klist", "-e"]), None, "d", false),
        Err("No credential cache found. Set KRB5CCNAME or run kinit first.".to_string())
    );
    assert_eq!(default_ccache_path("C:\\Temp", "bob"), "C:\\Temp\\krb5cc_bob");
}

#[test]
fn listing_of_a_cache() {
    let client = Principal::new(1, "XXX.COM", &["hive"]);
    let server = Principal::new(2, "XXX.COM", &["krbtgt", "XXX.COM"]);
    let cred = Credential::new(
        client.clone(),
        server,
        KeyBlock::new(18, vec![0u8; 32]),
        Times::new(1700000000, 0, 1700086400, 1700681600),
        0,
        0x40c10000,
        vec![0x61, 0x03, 0x02, 0x01, 0x05],
    );
    let bytes = CCache::new(client, vec![cred.clone(), cred]).build();
    let lines = klist_lines(&bytes, "/tmp/cc", false).unwrap();
    let one = vec![
        "",
        " 1. hive@XXX.COM",
        "    krbtgt/XXX.COM@XXX.COM",
        "    EType: aes256-cts-hmac-sha1-96",
        "    Flags: Forwardable, Renewable, Initial, Name-canonicalize",
        "    Auth Time:     2023-11-14 22:13:20",
        "    Valid Starting:--",
        "    Expires:       2023-11-15 22:13:20",
        "    Renew Till:    2023-11-22 19:33:20",
    ];
    let mut expected = vec!["Ticket cache: FILE:/tmp/cc", "Default principal: hive@XXX.COM"];
    expected.extend(one.iter().cloned());
    expected.push("");
    let mut two = one.clone();
    two[1] = " 2. hive@XXX.COM";
    expected.extend(two.iter().cloned());
    assert_eq!(lines, expected);

    let detail = klist_lines(&bytes, "/tmp/cc", true).unwrap();
    assert_eq!(detail[5], "    EType:  aes256-cts-hmac-sha1-96  (keytype=18, etype=0)");

    let empty = CCache::new(Principal::new(1, "R", &["u"]), vec![]).build();
    assert_eq!(
        klist_lines(&empty, "p", false).unwrap(),
        vec!["Ticket cache: FILE:p", "Default principal: u@R", "(no credentials)"]
    );
    assert!(klist_lines(&[0x05], "p", false).unwrap_err().starts_with("Failed to parse ccache: "));
}
