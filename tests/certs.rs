use lazy_acme::certs::{candidate_files, certificate_exists, find_cert_file};

fn names(v: &[&str]) -> Vec<String> {
    v.iter().map(|s| s.to_string()).collect()
}

#[test]
fn wildcard_key_counts_as_provisioned() {
    let files = names(&["_.example.com.key", "_.example.com.crt"]);
    assert!(certificate_exists("example.com", &files));
    assert!(certificate_exists(" example.com ", &files));
}

#[test]
fn exact_key_counts_as_provisioned() {
    let files = names(&["example.com.key"]);
    assert!(certificate_exists("example.com", &files));
}

#[test]
fn certificate_alone_or_other_domain_is_not_provisioned() {
    let files = names(&["example.com.crt", "_.other.com.key", "xexample.com.key"]);
    assert!(!certificate_exists("example.com", &files));
    assert!(!certificate_exists("example.com", &Vec::new()));
}

#[test]
fn wildcard_certificate_file_is_preferred() {
    let files = names(&["example.com.crt", "_.example.com.crt"]);
    assert_eq!(find_cert_file("example.com", &files), Some("_.example.com.crt".to_string()));
    let exact = names(&["example.com.crt"]);
    assert_eq!(find_cert_file("example.com", &exact), Some("example.com.crt".to_string()));
    assert_eq!(find_cert_file("example.com", &names(&["example.com.key"])), None);
}

#[test]
fn candidate_files_follow_the_lookup_mode() {
    assert_eq!(candidate_files(" a.io ", "crt", true), names(&["_.a.io.crt"]));
    assert_eq!(candidate_files("a.io", "key", false), names(&["_.a.io.key", "a.io.key"]));
}
