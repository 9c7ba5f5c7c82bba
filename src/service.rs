//! The decisions behind the HTTP surface: what a status query answers, which
//! files a certificate or key request reads, and how their contents are sent.

use vstd::prelude::*;
use base64::Engine;
use crate::certs::{candidate_files, candidate_names, cert_ext, key_ext, names_view};
use crate::orchestrator::Acquisition;
use crate::registry::{DomainStatus, Registry, Rejection, admission, after_admission, status_in};
use crate::template::CommandType;
use crate::text::{trim, trimmed};

verus! {

/// The options of a certificate or key query.
#[derive(Clone, Copy, Debug, PartialEq, Eq, Structural)]
pub struct CertQuery {
    /// Read the wildcard-form file only.
    pub wildcard: bool,
}

/// A request to acquire a certificate for `domain` through the DNS provider
/// `dns`.
#[derive(Clone, Debug)]
pub struct CreateCertRequest {
    pub domain: String,
    pub dns: String,
}

/// Decides a request for a new certificate: an admitted request holds the
/// global lock and gives the acquisition to run, for the trimmed domain and
/// provider, persisted once it succeeds.
pub fn admit_certificate_request(registry: &mut Registry, request: &CreateCertRequest) -> (r:
    Result<Acquisition, Rejection>)
    requires
        old(registry).wf(),
    ensures
        final(registry).wf(),
        final(registry)@ == after_admission(old(registry)@, trimmed(request.domain@)),
        r is Ok <==> admission(old(registry)@, trimmed(request.domain@)) is Ok,
        r matches Err(e) ==> admission(old(registry)@, trimmed(request.domain@)) == Err::<
            (),
            Rejection,
        >(e),
        r matches Ok(a) ==> {
            &&& a.domain@ == trimmed(request.domain@)
            &&& a.dns_provider@ == trimmed(request.dns@)
            &&& a.persist
            &&& a.mode == CommandType::Run
        },
{
    let domain = trim(request.domain.as_str());
    proof {
        crate::text::lemma_trimmed_idempotent(request.domain@);
    }
    match registry.admit_request(domain.as_str()) {
        Ok(()) => Ok(
            Acquisition {
                domain,
                dns_provider: trim(request.dns.as_str()),
                persist: true,
                mode: CommandType::Run,
            },
        ),
        Err(e) => Err(e),
    }
}

/// The answer to a query for a domain's certificate.
pub enum CertificateAnswer {
    /// The certificate is ready: read the first of these files that exists.
    Serve(Vec<String>),
    /// An acquisition is running.
    InProgress,
    /// The latest acquisition failed, for this reason.
    Failed(String),
    /// The domain is not managed.
    NotManaged,
}

/// What a query for the trimmed `domain` answers in `reg`.
pub open spec fn certificate_answer_ok(
    reg: Registry,
    domain: Seq<char>,
    wildcard_only: bool,
    r: CertificateAnswer,
) -> bool {
    match status_in(reg@, trimmed(domain)) {
        Some(DomainStatus::Ready) => r matches CertificateAnswer::Serve(files) && names_view(files@)
            == candidate_names(domain, cert_ext(), wildcard_only),
        Some(DomainStatus::Acquiring) => r is InProgress,
        Some(DomainStatus::Failed(reason)) => r matches CertificateAnswer::Failed(m) && m == reason,
        None => r is NotManaged,
    }
}

/// Answers a query for the certificate of `domain`; `query.wildcard` limits
/// the files to the wildcard form.
pub fn certificate_query(reg: &Registry, domain: &str, query: &CertQuery) -> (r:
    CertificateAnswer)
    requires
        reg.wf(),
    ensures
        certificate_answer_ok(*reg, domain@, query.wildcard, r),
{
    match reg.get(domain) {
        Some(DomainStatus::Ready) => CertificateAnswer::Serve(
            candidate_files(domain, "crt", query.wildcard),
        ),
        Some(DomainStatus::Acquiring) => CertificateAnswer::InProgress,
        Some(DomainStatus::Failed(reason)) => CertificateAnswer::Failed(reason),
        None => CertificateAnswer::NotManaged,
    }
}

/// The key files to try for `domain`, where its certificate is ready; none
/// otherwise.
pub fn key_query(reg: &Registry, domain: &str, query: &CertQuery) -> (r: Option<Vec<String>>)
    requires
        reg.wf(),
    ensures
        status_in(reg@, trimmed(domain@)) == Some(DomainStatus::Ready) ==> (r matches Some(files)
            && names_view(files@) == candidate_names(domain@, key_ext(), query.wildcard)),
        status_in(reg@, trimmed(domain@)) != Some(DomainStatus::Ready) ==> r is None,
{
    match reg.get(domain) {
        Some(DomainStatus::Ready) => Some(candidate_files(domain, "key", query.wildcard)),
        _ => None,
    }
}

/// The standard, padded Base64 text of `b`.
pub uninterp spec fn base64_of(b: Seq<u8>) -> Seq<char>;

/// Relies on `Engine::encode` of base64's `STANDARD` engine: standard
/// alphabet with padding, four characters for each started group of three
/// bytes. It panics only where that length overflows `usize`.
#[verifier::external_body]
fn encode_base64(b: &[u8]) -> (r: String)
    requires
        4 * ((b@.len() + 2) / 3) <= usize::MAX,
    ensures
        r@ == base64_of(b@),
        r@.len() == 4 * ((b@.len() + 2) / 3),
{
    base64::engine::general_purpose::STANDARD.encode(b)
}

/// The Base64 text of the first file in `contents` that could be read.
pub open spec fn first_encoded(contents: Seq<Option<Vec<u8>>>) -> Option<Seq<char>>
    decreases contents.len(),
{
    if contents.len() == 0 {
        None
    } else {
        match contents[0] {
            Some(c) => Some(base64_of(c@)),
            None => first_encoded(contents.drop_first()),
        }
    }
}

/// The Base64 text of the first file that could be read: `contents` holds,
/// for each file tried in order, its bytes or `None` where reading failed.
pub fn encode_first_readable(contents: &Vec<Option<Vec<u8>>>) -> (r: Option<String>)
    requires
        forall|i: int|
            0 <= i < contents@.len() ==> (#[trigger] contents@[i] matches Some(c) ==> c@.len()
                <= usize::MAX / 2),
    ensures
        r matches Some(s) ==> first_encoded(contents@) == Some(s@),
        r is None ==> first_encoded(contents@) is None,
{
    let mut i: usize = 0;
    assert(contents@.skip(0) =~= contents@);
    while i < contents.len()
        invariant
            i <= contents@.len(),
            first_encoded(contents@) == first_encoded(contents@.skip(i as int)),
            forall|k: int|
                0 <= k < contents@.len() ==> (#[trigger] contents@[k] matches Some(c) ==> c@.len()
                    <= usize::MAX / 2),
        decreases contents@.len() - i,
    {
        assert(contents@.skip(i as int).drop_first() =~= contents@.skip(i + 1));
        if let Some(c) = &contents[i] {
            assert(contents@[i as int] matches Some(x) && x@.len() <= usize::MAX / 2);
            return Some(encode_base64(c.as_slice()));
        }
        i = i + 1;
    }
    None
}

} // verus!
