//! The expiry evaluator: reads a PEM-wrapped X.509 certificate and decides
//! whether it is within the renewal threshold of its end of validity.

use vstd::prelude::*;
use x509_parser::prelude::{FromDer, X509Certificate};

verus! {

/// A point in time: seconds and nanoseconds since the Unix epoch.
#[derive(Clone, Copy, Debug, PartialEq, Eq, Structural)]
pub struct UnixTime {
    pub secs: i64,
    pub nanos: u32,
}

/// Why the renewal check could not decide.
#[derive(Clone, Debug)]
pub enum RenewalCheckError {
    /// No certificate file exists for the domain.
    CertificateNotFound,
    /// The certificate file could not be read.
    Unreadable(String),
    /// The file holds no PEM block.
    InvalidPem(String),
    /// The PEM block holds no X.509 certificate.
    InvalidCertificate(String),
}

pub open spec fn nanos_per_sec() -> int {
    1_000_000_000
}

pub open spec fn secs_per_day() -> int {
    86_400
}

/// Nanoseconds from `now` to the end of validity `not_after` (in seconds).
pub open spec fn remaining_nanos(not_after: i64, now: UnixTime) -> int {
    (not_after - now.secs) * nanos_per_sec() - now.nanos
}

/// Renewal is due when less than `days` days of validity remain.
pub open spec fn renewal_due_at(not_after: i64, now: UnixTime, days: i64) -> bool {
    remaining_nanos(not_after, now) < days * secs_per_day() * nanos_per_sec()
}

/// The contents of the first PEM block of `data`, where it has one.
pub uninterp spec fn pem_contents_of(data: Seq<u8>) -> Option<Seq<u8>>;

/// The end of validity, in seconds since the Unix epoch, of the X.509
/// certificate that `der` starts with, where it starts with one.
pub uninterp spec fn not_after_of(der: Seq<u8>) -> Option<i64>;

/// Relies on `pem::parse`, which reads the first PEM block of its input, and
/// on `Pem::into_contents`, which hands over the block's decoded contents.
#[verifier::external_body]
fn parse_pem(data: &[u8]) -> (r: Result<Vec<u8>, String>)
    ensures
        r is Ok <==> pem_contents_of(data@) is Some,
        r matches Ok(c) ==> pem_contents_of(data@) == Some(c@),
{
    match pem::parse(data) {
        Ok(block) => Ok(block.into_contents()),
        Err(e) => Err(e.to_string()),
    }
}

/// Relies on `X509Certificate::from_der`, which parses a DER certificate
/// without checking it, and on `ASN1Time::timestamp`, which gives its
/// `not_after` as seconds since the Unix epoch.
#[verifier::external_body]
fn parse_not_after(der: &[u8]) -> (r: Result<i64, String>)
    ensures
        r is Ok <==> not_after_of(der@) is Some,
        r matches Ok(t) ==> not_after_of(der@) == Some(t),
{
    match X509Certificate::from_der(der) {
        Ok((_, cert)) => Ok(cert.validity().not_after.timestamp()),
        Err(e) => Err(e.to_string()),
    }
}

/// Relies on `chrono::Utc::now`: the current time, read from the system
/// clock. Nothing is known of the value.
#[verifier::external_body]
fn now() -> (r: UnixTime) {
    let t = chrono::Utc::now();
    UnixTime { secs: t.timestamp(), nanos: t.timestamp_subsec_nanos() }
}

/// Whether a certificate valid until `not_after` (seconds since the epoch)
/// is due for renewal at `now`: less than `days_before_expiry` days remain.
pub fn renewal_due(not_after: i64, now: UnixTime, days_before_expiry: i64) -> (r: bool)
    ensures
        r == renewal_due_at(not_after, now, days_before_expiry),
{
    let diff: i128 = not_after as i128 - now.secs as i128;
    assert(-0x1_0000_0000_0000_0000 <= diff <= 0x1_0000_0000_0000_0000);
    assert(-0x1_0000_0000_0000_0000 * 1_000_000_000 <= diff * 1_000_000_000
        <= 0x1_0000_0000_0000_0000 * 1_000_000_000) by (nonlinear_arith)
        requires
            -0x1_0000_0000_0000_0000 <= diff <= 0x1_0000_0000_0000_0000,
    ;
    let remaining: i128 = diff * 1_000_000_000 - now.nanos as i128;
    let d: i128 = days_before_expiry as i128;
    assert(-0x8000_0000_0000_0000 <= d <= 0x8000_0000_0000_0000);
    assert(-0x8000_0000_0000_0000 * 86_400_000_000_000 <= d * 86_400_000_000_000
        <= 0x8000_0000_0000_0000 * 86_400_000_000_000) by (nonlinear_arith)
        requires
            -0x8000_0000_0000_0000 <= d <= 0x8000_0000_0000_0000,
    ;
    let threshold: i128 = d * 86_400_000_000_000;
    assert(d * secs_per_day() * nanos_per_sec() == d * 86_400_000_000_000) by (nonlinear_arith);
    remaining < threshold
}

/// What the check of `pem` at `now` gives: an error where the file holds no
/// PEM block or no certificate, else whether renewal is due.
pub open spec fn renewal_check_gives(
    pem: Seq<u8>,
    now: UnixTime,
    days: i64,
    r: Result<bool, RenewalCheckError>,
) -> bool {
    match pem_contents_of(pem) {
        None => r matches Err(RenewalCheckError::InvalidPem(_)),
        Some(der) => match not_after_of(der) {
            None => r matches Err(RenewalCheckError::InvalidCertificate(_)),
            Some(t) => r == Ok::<bool, RenewalCheckError>(renewal_due_at(t, now, days)),
        },
    }
}

/// Decides at `now` whether the PEM certificate `cert_pem` is within
/// `days_before_expiry` days of its end of validity.
pub fn check_renewal(cert_pem: &Vec<u8>, now: UnixTime, days_before_expiry: i64) -> (r: Result<
    bool,
    RenewalCheckError,
>)
    ensures
        renewal_check_gives(cert_pem@, now, days_before_expiry, r),
{
    let der = match parse_pem(cert_pem.as_slice()) {
        Ok(der) => der,
        Err(e) => {
            return Err(RenewalCheckError::InvalidPem(e));
        },
    };
    match parse_not_after(der.as_slice()) {
        Ok(t) => Ok(renewal_due(t, now, days_before_expiry)),
        Err(e) => Err(RenewalCheckError::InvalidCertificate(e)),
    }
}

/// Decides now whether a domain's certificate needs renewal: an error where
/// no certificate file was found (`None`) or where it cannot be read as a
/// certificate, else whether less than `days_before_expiry` days remain.
pub fn needs_renewal(certificate: Option<&Vec<u8>>, days_before_expiry: i64) -> (r: Result<
    bool,
    RenewalCheckError,
>)
    ensures
        certificate is None ==> r matches Err(RenewalCheckError::CertificateNotFound),
        certificate matches Some(c) ==> exists|t: UnixTime|
            renewal_check_gives(c@, t, days_before_expiry, r),
{
    match certificate {
        None => Err(RenewalCheckError::CertificateNotFound),
        Some(c) => {
            let t = now();
            check_renewal(c, t, days_before_expiry)
        },
    }
}

} // verus!
