use lazy_acme::registry::{DomainStatus, Registry, Rejection};
use lazy_acme::template::CommandType;

#[test]
fn second_request_is_rejected_while_the_first_holds_the_lock() {
    let mut reg = Registry::new();
    assert_eq!(reg.admit_request("a.com"), Ok(()));
    assert_eq!(reg.admit_request("b.com"), Err(Rejection::Busy));
    assert!(reg.begin_acquisition("a.com", CommandType::Run));
    assert!(matches!(reg.get("a.com"), Some(DomainStatus::Acquiring)));
    assert!(reg.get("b.com").is_none());
}

#[test]
fn requests_for_acquiring_or_ready_domains_are_rejected() {
    let mut reg = Registry::new();
    assert!(reg.try_acquire_global_lock());
    assert!(reg.begin_acquisition("a.com", CommandType::Run));
    assert_eq!(reg.admit_request(" a.com "), Err(Rejection::InProgress));
    reg.finish_acquisition("a.com", Ok(()));
    assert_eq!(reg.admit_request("a.com"), Err(Rejection::AlreadyExists));
}

#[test]
fn failed_domain_may_be_retried() {
    let mut reg = Registry::new();
    assert!(reg.try_acquire_global_lock());
    assert!(reg.begin_acquisition("a.com", CommandType::Run));
    reg.finish_acquisition("a.com", Err("boom".to_string()));
    assert!(matches!(reg.get("a.com"), Some(DomainStatus::Failed(r)) if r == "boom"));
    assert!(!reg.is_locked());
    assert_eq!(reg.admit_request("a.com"), Ok(()));
}

#[test]
fn acquisition_runs_through_acquiring_to_ready() {
    let mut reg = Registry::new();
    assert!(reg.get("x.org").is_none());
    assert!(!reg.begin_acquisition("x.org", CommandType::Run));
    assert!(reg.try_acquire_global_lock());
    assert!(!reg.try_acquire_global_lock());
    assert!(reg.begin_acquisition("x.org", CommandType::Run));
    assert!(!reg.begin_acquisition("x.org", CommandType::Run));
    assert!(!reg.begin_acquisition("y.org", CommandType::Renew));
    reg.finish_acquisition("x.org", Ok(()));
    assert!(matches!(reg.get("x.org"), Some(DomainStatus::Ready)));
    assert!(!reg.is_locked());
}

#[test]
fn ready_domain_is_only_renewed() {
    let mut reg = Registry::new();
    reg.set("x.org", DomainStatus::Ready);
    assert!(reg.try_acquire_global_lock());
    assert!(!reg.begin_acquisition("x.org", CommandType::Run));
    assert!(reg.begin_acquisition("x.org", CommandType::Renew));
    assert!(matches!(reg.get("x.org"), Some(DomainStatus::Acquiring)));
}

#[test]
fn lock_is_kept_while_an_acquisition_runs() {
    let mut reg = Registry::new();
    assert!(reg.try_acquire_global_lock());
    assert!(reg.begin_acquisition("x.org", CommandType::Run));
    reg.release_global_lock();
    assert!(reg.is_locked());
    reg.set("x.org", DomainStatus::Ready);
    assert!(matches!(reg.get("x.org"), Some(DomainStatus::Acquiring)));
    reg.finish_acquisition("x.org", Ok(()));
    assert!(!reg.is_locked());
}

#[test]
fn lock_is_freed_when_no_acquisition_runs() {
    let mut reg = Registry::new();
    assert_eq!(reg.admit_request("a.com"), Ok(()));
    reg.release_global_lock();
    assert!(!reg.is_locked());
    assert!(!reg.any_acquiring());
}

#[test]
fn names_are_trimmed_and_case_sensitive() {
    let mut reg = Registry::new();
    reg.set("  Example.com\t", DomainStatus::Ready);
    assert!(matches!(reg.get("Example.com"), Some(DomainStatus::Ready)));
    assert!(reg.get("example.com").is_none());
}
