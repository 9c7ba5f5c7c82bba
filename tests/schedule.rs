use lazy_acme::config::{DomainConfig, DomainEntry};
use lazy_acme::expiry::RenewalCheckError;
use lazy_acme::registry::{DomainStatus, Registry};
use lazy_acme::schedule::{CheckAction, RenewalCycle, RenewalStep, StartupReconciler, StartupStep};

fn entry(name: &str) -> DomainEntry {
    DomainEntry { name: name.to_string(), dns_provider: "cf".to_string() }
}

fn config(names: &[&str]) -> DomainConfig {
    DomainConfig { domains: names.iter().map(|n| entry(n)).collect() }
}

#[test]
fn startup_marks_provisioned_domains_and_issues_the_rest_in_order() {
    let files = vec!["_.a.io.key".to_string(), "_.a.io.crt".to_string()];
    let mut reg = Registry::new();
    let mut pass = StartupReconciler::new(config(&["a.io", "b.io", " c.io "]));
    pass.mark_provisioned(&mut reg, &files);
    assert!(matches!(reg.get("a.io"), Some(DomainStatus::Ready)));
    assert!(reg.get("b.io").is_none());
    match pass.next_step(&files) {
        StartupStep::Issue(e) => assert_eq!(e.name, "b.io"),
        _ => panic!("expected b.io"),
    }
    pass.record_outcome(true);
    match pass.next_step(&files) {
        StartupStep::Issue(e) => assert_eq!(e.name, " c.io "),
        _ => panic!("expected c.io"),
    }
    pass.record_outcome(true);
    assert!(matches!(pass.next_step(&files), StartupStep::Finished { arm_scheduler: true }));
}

#[test]
fn one_failed_issuance_leaves_the_scheduler_disarmed() {
    let mut pass = StartupReconciler::new(config(&["a.io", "b.io"]));
    assert!(matches!(pass.next_step(&Vec::new()), StartupStep::Issue(_)));
    pass.record_outcome(false);
    assert!(matches!(pass.next_step(&Vec::new()), StartupStep::Issue(_)));
    pass.record_outcome(true);
    assert!(matches!(pass.next_step(&Vec::new()), StartupStep::Finished { arm_scheduler: false }));
}

#[test]
fn domain_provisioned_meanwhile_is_skipped() {
    let mut pass = StartupReconciler::new(config(&["a.io", "a.io"]));
    assert!(matches!(pass.next_step(&Vec::new()), StartupStep::Issue(_)));
    pass.record_outcome(true);
    let now = vec!["a.io.key".to_string()];
    assert!(matches!(pass.next_step(&now), StartupStep::Finished { arm_scheduler: true }));
}

#[test]
fn renewal_cycle_renews_due_domains() {
    let mut reg = Registry::new();
    reg.set("a.io", DomainStatus::Ready);
    let mut cycle = RenewalCycle::new(config(&["a.io", "b.io", "c.io"]));
    let a = match cycle.next_step(&reg) {
        RenewalStep::Evaluate(e) => e,
        _ => panic!("expected a.io"),
    };
    assert!(matches!(cycle.after_check(&mut reg, a, Ok(true)), CheckAction::Renew(e) if e.name == "a.io"));
    assert!(matches!(reg.get("a.io"), Some(DomainStatus::Acquiring)));
    assert!(reg.is_locked());
    assert!(matches!(cycle.next_step(&reg), RenewalStep::Postponed));
    assert!(matches!(cycle.next_step(&reg), RenewalStep::Complete));
}

#[test]
fn renewal_cycle_skips_and_reports() {
    let mut reg = Registry::new();
    let mut cycle = RenewalCycle::new(config(&["a.io", "b.io"]));
    let a = match cycle.next_step(&reg) {
        RenewalStep::Evaluate(e) => e,
        _ => panic!("expected a.io"),
    };
    assert!(matches!(cycle.after_check(&mut reg, a, Ok(false)), CheckAction::Skip));
    let b = match cycle.next_step(&reg) {
        RenewalStep::Evaluate(e) => e,
        _ => panic!("expected b.io"),
    };
    let action = cycle.after_check(&mut reg, b, Err(RenewalCheckError::CertificateNotFound));
    assert!(matches!(action, CheckAction::Report(RenewalCheckError::CertificateNotFound)));
    assert!(reg.get("b.io").is_none());
    assert!(!reg.is_locked());
    assert!(matches!(cycle.next_step(&reg), RenewalStep::Complete));
}

#[test]
fn renewal_due_while_locked_postpones_the_tick() {
    let mut reg = Registry::new();
    let mut cycle = RenewalCycle::new(config(&["a.io"]));
    let a = match cycle.next_step(&reg) {
        RenewalStep::Evaluate(e) => e,
        _ => panic!("expected a.io"),
    };
    assert!(reg.try_acquire_global_lock());
    assert!(matches!(cycle.after_check(&mut reg, a, Ok(true)), CheckAction::Postponed));
    assert!(reg.get("a.io").is_none());
    assert!(matches!(cycle.next_step(&reg), RenewalStep::Complete));
}
