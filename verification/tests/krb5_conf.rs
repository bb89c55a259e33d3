use rust_kinit::krb5_conf::{config_candidates, kdc_from_krb5_ini};

const CONF: &str = "[libdefaults]\n\
    \x20   default_realm = XXX.COM\n\
    \n\
    [realms]\n\
    \x20   OTHER.COM = {\n\
    \x20       kdc = other-kdc.example.com\n\
    \x20   }\n\
    \x20   XXX.COM = {\n\
    \x20       admin_server = admin.xxx.com\n\
    \x20       kdc = \"kdc1.xxx.com\"   # primary\n\
    \x20       kdc = kdc2.xxx.com\n\
    \x20   }\n";

#[test]
fn kdc_of_the_realm_block() {
    assert_eq!(kdc_from_krb5_ini(CONF, "XXX.COM"), Some("kdc1.xxx.com".to_string()));
    assert_eq!(kdc_from_krb5_ini(CONF, "xxx.com"), Some("kdc1.xxx.com".to_string()));
    assert_eq!(kdc_from_krb5_ini(CONF, "OTHER.COM"), Some("other-kdc.example.com".to_string()));
    assert_eq!(kdc_from_krb5_ini(CONF, "NONE.COM"), None);
}

#[test]
fn kdc_outside_realms_section_is_ignored() {
    let conf = "[domain_realm]\nXXX.COM = {\nkdc = wrong\n}\n[Realms]\r\nXXX.COM = {\r\n  KDC = '10.0.0.1'\r\n}\r\n";
    assert_eq!(kdc_from_krb5_ini(conf, "XXX.COM"), Some("10.0.0.1".to_string()));
    assert_eq!(kdc_from_krb5_ini("", "XXX.COM"), None);
}

#[test]
fn block_closes_at_brace() {
    let conf = "[realms]\nXXX.COM = {\n  admin_server = a\n}\n  kdc = after-block\n";
    assert_eq!(kdc_from_krb5_ini(conf, "XXX.COM"), None);
    let conf = "[realms]\nXXX.COM = {\n  # kdc = commented\n  kdc=\"'quoted'\"\n}\n";
    assert_eq!(kdc_from_krb5_ini(conf, "XXX.COM"), Some("quoted".to_string()));
}

#[test]
fn configuration_files_in_order() {
    assert_eq!(
        config_candidates(Some("a.ini"), Some("b.ini")),
        vec!["a.ini", "b.ini", "C:\\ProgramData\\MIT\\Kerberos5\\krb5.ini", "C:\\MIT\\Kerberos\\krb5.ini"]
    );
    assert_eq!(
        config_candidates(None, None),
        vec!["C:\\ProgramData\\MIT\\Kerberos5\\krb5.ini", "C:\\MIT\\Kerberos\\krb5.ini"]
    );
}
