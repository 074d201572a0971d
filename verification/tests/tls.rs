use cockatiel_client::tls::{pin_certificates, pinned_tls_config};
use cockatiel_client::transport::dial_plan;

const ENGINE: &str = "-----BEGIN CERTIFICATE-----\n\
MIIBeTCCAR+gAwIBAgIUDLuVtQqWEmYCEjhZH4++TlzEwTwwCgYIKoZIzj0EAwIw\n\
ETEPMA0GA1UEAwwGZW5naW5lMCAXDTI2MTExNTEzNDEyN1oYDzIxMjYxMDIyMTM0\n\
MTI3WjARMQ8wDQYDVQQDDAZlbmdpbmUwWTATBgcqhkjOPQIBBggqhkjOPQMBBwNC\n\
AATQ7vhsg9l5aFokwPU8W1F0xNjqsATkeoYK09N95kAvk3BJeFCMUFZAMQWjyPMU\n\
rB6c9bt4otoZrTMEPYrjJUc9o1MwUTAdBgNVHQ4EFgQU10lVrBxNe0bBGr4dPsv+\n\
XohehoAwHwYDVR0jBBgwFoAU10lVrBxNe0bBGr4dPsv+XohehoAwDwYDVR0TAQH/\n\
BAUwAwEB/zAKBggqhkjOPQQDAgNIADBFAiEAyem0bry2CwOrhKx3LJZykuvh6/Ia\n\
UIwuNis0XTTee58CIFOigu3IXSEziA4kQeBh1VKTRdLw9xqFZXP872ukSc85\n\
-----END CERTIFICATE-----\n\
";

const SPARE: &str = "-----BEGIN CERTIFICATE-----\n\
MIIBdzCCAR2gAwIBAgIUflFRLm33AS/O/TZeILvgfVf4PVUwCgYIKoZIzj0EAwIw\n\
EDEOMAwGA1UEAwwFc3BhcmUwIBcNMjYxMTE1MTM0MTI3WhgPMjEyNjEwMjIxMzQx\n\
MjdaMBAxDjAMBgNVBAMMBXNwYXJlMFkwEwYHKoZIzj0CAQYIKoZIzj0DAQcDQgAE\n\
0O74bIPZeWhaJMD1PFtRdMTY6rAE5HqGCtPTfeZAL5NwSXhQjFBWQDEFo8jzFKwe\n\
nPW7eKLaGa0zBD2K4yVHPaNTMFEwHQYDVR0OBBYEFNdJVawcTXtGwRq+HT7L/l6I\n\
XoaAMB8GA1UdIwQYMBaAFNdJVawcTXtGwRq+HT7L/l6IXoaAMA8GA1UdEwEB/wQF\n\
MAMBAf8wCgYIKoZIzj0EAwIDSAAwRQIgPT/7JHmlJAqhx3s20hYCZ86WdwEOPDkj\n\
DfrpMU+6BmcCIQDTQITrjfJEGY59kTaXwOr0qOpe/h19tf8Le66pvs3Bxw==\n\
-----END CERTIFICATE-----\n\
";

fn pin(pem: &str) -> Result<rustls::RootCertStore, String> {
    pinned_tls_config("engine.pem", Ok(pem.as_bytes().to_vec()))
}

#[test]
fn the_certificate_of_the_file_is_pinned() {
    let roots = pin(ENGINE).unwrap();
    assert_eq!(roots.len(), 1);
    assert!(roots.subjects()[0].as_ref().ends_with(b"engine"));
}

#[test]
fn every_certificate_of_the_file_is_pinned_in_order() {
    let roots = pin(&format!("a comment\n{}\n{}", SPARE, ENGINE)).unwrap();
    assert_eq!(roots.len(), 2);
    assert!(roots.subjects()[0].as_ref().ends_with(b"spare"));
    assert!(roots.subjects()[1].as_ref().ends_with(b"engine"));
}

#[test]
fn a_file_without_certificates_pins_nothing() {
    assert_eq!(pin("").unwrap_err(), "no certificate found in engine.pem");
    assert_eq!(pin("no certificate").unwrap_err(), "no certificate found in engine.pem");
}

#[test]
fn a_file_that_cannot_be_read_pins_nothing() {
    assert_eq!(
        pinned_tls_config("engine.pem", Err("not found".to_string())).unwrap_err(),
        "read TLS cert engine.pem: not found",
    );
}

#[test]
fn a_broken_file_pins_nothing() {
    let message = pin("-----BEGIN CERTIFICATE-----\nAAAA\n").unwrap_err();
    assert!(message.starts_with("parse TLS cert: section end "), "{}", message);
    assert_eq!(
        pin_certificates("engine.pem", Err("x".to_string())).unwrap_err(),
        "parse TLS cert: x",
    );
}

#[test]
fn a_file_with_anything_but_certificates_in_it_pins_nothing() {
    let message = pin("-----BEGIN CERTIFICATE-----\nAAAA\n-----END CERTIFICATE-----\n").unwrap_err();
    assert!(message.starts_with("pinning TLS cert failed: invalid peer certificate"), "{}", message);
}

#[test]
fn a_pinned_engine_is_dialled_securely_or_not_at_all() {
    let (url, roots) = dial_plan("ws://h:1", None).unwrap();
    assert_eq!(url, "ws://h:1");
    assert!(roots.is_none());
    let (url, roots) = dial_plan("ws://h:1", Some(pin(ENGINE))).unwrap();
    assert_eq!(url, "wss://h:1");
    assert!(roots.unwrap().subjects()[0].as_ref().ends_with(b"engine"));
    assert_eq!(dial_plan("ws://h:1", Some(pin(""))).unwrap_err(), "no certificate found in engine.pem");
}
