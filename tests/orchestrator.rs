use lazy_acme::certs::{candidate_files, certificate_exists};
use lazy_acme::logging::LogLevel;
use lazy_acme::orchestrator::Acquisition;
use lazy_acme::process::{ProcessEvent, ProcessMonitor};
use lazy_acme::registry::{DomainStatus, Registry};
use lazy_acme::service::{admit_certificate_request, CreateCertRequest};
use lazy_acme::template::{CommandType, DnsProviderConfig};

fn cloudflare() -> DnsProviderConfig {
    DnsProviderConfig {
        cmd: "TOKEN={{API_KEY}} issue --domain {{DOMAIN}}".to_string(),
        renew: None,
        vars: vec![("API_KEY".to_string(), Some("abc".to_string()))],
    }
}

#[test]
fn end_to_end_issuance_for_example_com() {
    let mut reg = Registry::new();
    let req = CreateCertRequest { domain: "example.com".to_string(), dns: "cloudflare".to_string() };
    let acq = admit_certificate_request(&mut reg, &req).ok().unwrap();
    let prepared = acq.prepare(&cloudflare());
    assert_eq!(prepared.command, "TOKEN=abc issue --domain example.com");
    assert_eq!(prepared.log.level, LogLevel::Debug);
    assert_eq!(prepared.log.message, "Executing command: TOKEN=abc issue --domain example.com");
    assert!(reg.begin_acquisition(&acq.domain, acq.mode));
    assert!(matches!(reg.get("example.com"), Some(DomainStatus::Acquiring)));

    let mut monitor = ProcessMonitor::new();
    for e in [
        ProcessEvent::StdoutLine("obtaining".to_string()),
        ProcessEvent::StdoutClosed,
        ProcessEvent::StderrClosed,
        ProcessEvent::Exited { code: Some(0), status: "exit status: 0".to_string() },
    ] {
        monitor.handle(e);
    }
    assert!(monitor.is_over());
    let outcome = monitor.outcome.clone().unwrap();
    let done = acq.complete(&mut reg, outcome);
    assert_eq!(done.log.level, LogLevel::Info);
    assert_eq!(done.log.message, "Successfully acquired certificate for 'example.com'");
    let persisted = done.persist.unwrap();
    assert_eq!(persisted.name, "example.com");
    assert_eq!(persisted.dns_provider, "cloudflare");
    assert!(matches!(reg.get("example.com"), Some(DomainStatus::Ready)));
    assert!(!reg.is_locked());

    let files = vec!["_.example.com.key".to_string()];
    assert!(certificate_exists("example.com", &files));
    assert!(candidate_files("example.com", "key", true).iter().all(|f| files.contains(f)));
    assert!(candidate_files("example.com", "key", false).iter().any(|f| files.contains(f)));
}

#[test]
fn failed_renewal_is_recorded_and_not_persisted() {
    let mut reg = Registry::new();
    reg.set("r.io", DomainStatus::Ready);
    assert!(reg.try_acquire_global_lock());
    assert!(reg.begin_acquisition("r.io", CommandType::Renew));
    let acq = Acquisition { domain: "r.io".to_string(), dns_provider: "cf".to_string(), persist: true, mode: CommandType::Renew };
    let done = acq.complete(&mut reg, Err("Lego command failed with status: exit status: 2".to_string()));
    assert_eq!(done.log.level, LogLevel::Error);
    assert_eq!(
        done.log.message,
        "Failed to acquire/renew certificate for 'r.io': Lego command failed with status: exit status: 2"
    );
    assert!(done.persist.is_none());
    assert!(matches!(reg.get("r.io"), Some(DomainStatus::Failed(_))));
    assert!(!reg.is_locked());
}

#[test]
fn renewal_log_names_the_renewal() {
    let mut reg = Registry::new();
    reg.set("r.io", DomainStatus::Ready);
    assert!(reg.try_acquire_global_lock());
    assert!(reg.begin_acquisition("r.io", CommandType::Renew));
    let acq = Acquisition { domain: " r.io ".to_string(), dns_provider: "cf".to_string(), persist: false, mode: CommandType::Renew };
    let done = acq.complete(&mut reg, Ok(()));
    assert_eq!(done.log.message, "Successfully renewed certificate for 'r.io'");
    assert!(done.persist.is_none());
}

#[test]
fn logged_command_hides_the_token() {
    let cfg = DnsProviderConfig {
        cmd: "CLOUDFLARE_DNS_API_TOKEN={{API_KEY}} lego -d {{DOMAIN}} run".to_string(),
        renew: None,
        vars: vec![("api_key".to_string(), Some("s3cret".to_string()))],
    };
    let acq = Acquisition { domain: "x.io".to_string(), dns_provider: "cf".to_string(), persist: false, mode: CommandType::Run };
    let prepared = acq.prepare(&cfg);
    assert_eq!(prepared.command, "CLOUDFLARE_DNS_API_TOKEN=s3cret lego -d x.io run");
    assert_eq!(prepared.log.message, "Executing command: CLOUDFLARE_DNS_API_TOKEN=*** lego -d x.io run");
}
