use lazy_acme::expiry::{check_renewal, needs_renewal, renewal_due, RenewalCheckError, UnixTime};

const DAY: i64 = 86_400;
const NOT_AFTER: i64 = 1_800_091_239;
const CERT: &str = "-----BEGIN CERTIFICATE-----
MIIBgDCCASegAwIBAgIUbyewK7c/MI/47edyaO8HbDuVLjkwCgYIKoZIzj0EAwIw
FjEUMBIGA1UEAwwLZXhhbXBsZS5jb20wHhcNMjYxMDE4MDkyMDM5WhcNMjcwMTE2
MDkyMDM5WjAWMRQwEgYDVQQDDAtleGFtcGxlLmNvbTBZMBMGByqGSM49AgEGCCqG
SM49AwEHA0IABE9Xvaek8lolMH+SO+9KzeeeP99heB9vxYDh6WKd/LsnozsLckMD
HwMBsYWXYDt3RLVSa9VY0DMk8M3bX0uvtaSjUzBRMB0GA1UdDgQWBBSHWjsFxiJO
NNldyUFUt5IEuGKe/TAfBgNVHSMEGDAWgBSHWjsFxiJONNldyUFUt5IEuGKe/TAP
BgNVHRMBAf8EBTADAQH/MAoGCCqGSM49BAMCA0cAMEQCIBjpnCuOFssAXPVuizO3
mL0tRtBhyLmF9/7OoNUHy8n0AiABiWSGrOndx9ND+d91zNUTAxiQU+dKEc86gf3j
SG6hvg==
-----END CERTIFICATE-----
";

fn at(secs: i64) -> UnixTime {
    UnixTime { secs, nanos: 0 }
}

#[test]
fn forty_days_left_with_thirty_day_threshold_needs_no_renewal() {
    assert!(!renewal_due(1_000 + 40 * DAY, at(1_000), 30));
}

#[test]
fn forty_days_left_with_forty_five_day_threshold_needs_renewal() {
    assert!(renewal_due(1_000 + 40 * DAY, at(1_000), 45));
}

#[test]
fn renewal_is_due_only_below_the_threshold() {
    assert!(!renewal_due(30 * DAY, at(0), 30));
    assert!(renewal_due(30 * DAY, UnixTime { secs: 0, nanos: 1 }, 30));
    assert!(renewal_due(-5, at(0), 0));
    assert!(!renewal_due(i64::MAX, at(i64::MIN), i64::MAX / DAY));
}

#[test]
fn certificate_file_is_read_for_its_end_of_validity() {
    let pem = CERT.as_bytes().to_vec();
    assert_eq!(check_renewal(&pem, at(NOT_AFTER - 40 * DAY), 30).unwrap(), false);
    assert_eq!(check_renewal(&pem, at(NOT_AFTER - 40 * DAY), 45).unwrap(), true);
    assert_eq!(check_renewal(&pem, at(NOT_AFTER - 30 * DAY), 30).unwrap(), false);
    assert_eq!(check_renewal(&pem, at(NOT_AFTER - 30 * DAY + 1), 30).unwrap(), true);
}

#[test]
fn missing_certificate_is_an_error_not_false() {
    assert!(matches!(needs_renewal(None, 30), Err(RenewalCheckError::CertificateNotFound)));
}

#[test]
fn real_certificate_is_checked_against_the_clock() {
    let pem = CERT.as_bytes().to_vec();
    assert!(needs_renewal(Some(&pem), 36_500).unwrap());
    assert!(!needs_renewal(Some(&pem), -36_500).unwrap());
}

#[test]
fn text_without_pem_block_is_rejected() {
    let data = b"not a certificate".to_vec();
    assert!(matches!(check_renewal(&data, at(0), 30), Err(RenewalCheckError::InvalidPem(_))));
}

#[test]
fn pem_block_without_certificate_is_rejected() {
    let data = b"-----BEGIN CERTIFICATE-----\naGVsbG8=\n-----END CERTIFICATE-----\n".to_vec();
    assert!(matches!(check_renewal(&data, at(0), 30), Err(RenewalCheckError::InvalidCertificate(_))));
}
