use rhythm::ca::{
    ca_cert_path, ca_key_path, ca_start, ca_still_valid, loaded_ca_plan, certificate_names, organization, serial_number,
    validity_window, AltName, CaFile, CaStart,
};

#[test]
fn serial_halves() {
    let s = serial_number(0x1234_5678_9abc_def0, 0x0000_0001_0203_0405);
    assert_eq!(s, 0x1234_5678_0203_0405);
    assert_eq!(serial_number(u64::MAX, 0), 0xffff_ffff_0000_0000);
    assert_eq!(serial_number(0, -1), 0x0000_0000_ffff_ffff);
}

#[test]
fn ca_lifecycle() {
    assert_eq!(ca_start(CaFile::Present), CaStart::Load);
    assert_eq!(ca_start(CaFile::Missing), CaStart::Generate);
    assert_eq!(ca_start(CaFile::Unreadable), CaStart::Fail);
    assert!(ca_still_valid(10, 9));
    assert!(!ca_still_valid(10, 10));
    assert!(!ca_still_valid(10, 11));
}

#[test]
fn ca_constants() {
    assert_eq!(organization(), "Rhythm");
    assert_eq!(ca_cert_path(), "./ca_cert.der");
    assert_eq!(ca_key_path(), "./ca_key.der");
}

#[test]
fn names_of_forged_certificates() {
    let n = certificate_names("example.com", false);
    assert_eq!(n.common_name, "example.com");
    assert_eq!(n.organization, "Rhythm");
    assert!(matches!(n.alt_name, AltName::Dns(ref d) if d == "example.com"));
    let n = certificate_names("192.168.1.1", true);
    assert_eq!(n.common_name, "192.168.1.1");
    assert!(matches!(n.alt_name, AltName::Ip(ref d) if d == "192.168.1.1"));
    let ca = certificate_names(organization(), false);
    assert_eq!(ca.common_name, "Rhythm");
}

#[test]
fn one_week_validity() {
    let (from, until) = validity_window(1_000);
    assert_eq!(from, 1_000);
    assert_eq!(until, 1_000 + 7 * 24 * 3600 * 1_000_000_000);
    // a CA saved at `from` is still used a moment before the week ends, not after
    assert!(ca_still_valid(until, until - 1));
    assert!(!ca_still_valid(until, until));
    assert_eq!(ca_start(CaFile::Present), CaStart::Load);
}

#[test]
fn stored_ca_read_back() {
    let cert = rcgen::generate_simple_self_signed(vec!["Rhythm".to_string()]).unwrap();
    let cert_der = cert.serialize_der().unwrap();
    let key_der = cert.serialize_private_key_der();
    // rcgen reads back its default end of validity, 4096-01-01
    let end: i128 = 67_090_118_400_000_000_000;
    assert_eq!(loaded_ca_plan(&cert_der, &key_der, 0), Some(true));
    assert_eq!(loaded_ca_plan(&cert_der, &key_der, end - 1), Some(true));
    assert_eq!(loaded_ca_plan(&cert_der, &key_der, end), Some(false));
    assert_eq!(loaded_ca_plan(b"not a certificate", &key_der, 0), None);
    assert_eq!(loaded_ca_plan(&cert_der, b"not a key", 0), None);
}
