use lazy_acme::registry::{DomainStatus, Registry, Rejection};
use lazy_acme::service::{
    admit_certificate_request, certificate_query, encode_first_readable, key_query, CertQuery,
    CertificateAnswer, CreateCertRequest,
};
use lazy_acme::template::CommandType;

fn request(domain: &str, dns: &str) -> CreateCertRequest {
    CreateCertRequest { domain: domain.to_string(), dns: dns.to_string() }
}

#[test]
fn certificate_query_answers_by_status() {
    let mut reg = Registry::new();
    let q = CertQuery { wildcard: false };
    assert!(matches!(certificate_query(&reg, "a.io", &q), CertificateAnswer::NotManaged));
    reg.set("a.io", DomainStatus::Ready);
    match certificate_query(&reg, " a.io", &q) {
        CertificateAnswer::Serve(files) => assert_eq!(files, vec!["_.a.io.crt".to_string(), "a.io.crt".to_string()]),
        _ => panic!("expected files to serve"),
    }
    match certificate_query(&reg, "a.io", &CertQuery { wildcard: true }) {
        CertificateAnswer::Serve(files) => assert_eq!(files, vec!["_.a.io.crt".to_string()]),
        _ => panic!("expected files to serve"),
    }
    reg.set("b.io", DomainStatus::Failed("dns timeout".to_string()));
    assert!(matches!(certificate_query(&reg, "b.io", &q), CertificateAnswer::Failed(r) if r == "dns timeout"));
    assert!(reg.try_acquire_global_lock());
    assert!(reg.begin_acquisition("c.io", CommandType::Run));
    assert!(matches!(certificate_query(&reg, "c.io", &q), CertificateAnswer::InProgress));
}

#[test]
fn key_is_served_only_when_ready() {
    let mut reg = Registry::new();
    let q = CertQuery { wildcard: false };
    assert_eq!(key_query(&reg, "a.io", &q), None);
    reg.set("a.io", DomainStatus::Failed("x".to_string()));
    assert_eq!(key_query(&reg, "a.io", &q), None);
    reg.set("a.io", DomainStatus::Ready);
    assert_eq!(key_query(&reg, "a.io", &q), Some(vec!["_.a.io.key".to_string(), "a.io.key".to_string()]));
}

#[test]
fn first_readable_file_is_sent_as_base64() {
    let contents = vec![None, Some(b"hello".to_vec()), Some(b"other".to_vec())];
    assert_eq!(encode_first_readable(&contents), Some("aGVsbG8=".to_string()));
    assert_eq!(encode_first_readable(&vec![None, None]), None);
    assert_eq!(encode_first_readable(&vec![Some(Vec::new())]), Some(String::new()));
}

#[test]
fn admitted_request_gives_a_persisted_issuance() {
    let mut reg = Registry::new();
    let a = admit_certificate_request(&mut reg, &request(" new.io ", " cloudflare ")).ok().unwrap();
    assert_eq!(a.domain, "new.io");
    assert_eq!(a.dns_provider, "cloudflare");
    assert!(a.persist);
    assert_eq!(a.mode, CommandType::Run);
    assert!(reg.is_locked());
    assert!(matches!(admit_certificate_request(&mut reg, &request("other.io", "cf")), Err(Rejection::Busy)));
}

#[test]
fn request_for_ready_domain_is_rejected() {
    let mut reg = Registry::new();
    reg.set("ready.io", DomainStatus::Ready);
    assert!(matches!(admit_certificate_request(&mut reg, &request("ready.io", "cf")), Err(Rejection::AlreadyExists)));
    assert!(!reg.is_locked());
}
