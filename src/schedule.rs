//! The two schedules that drive acquisitions: the startup pass, which marks
//! provisioned domains ready and issues the missing certificates one at a
//! time, and the renewal cycle, which checks each domain on every tick. Each is
//! a state machine; the program performs the work it asks for and reports
//! back.

use vstd::prelude::*;
use crate::certs::{certificate_exists, certificate_listed};
use crate::config::{DomainConfig, DomainEntry};
use crate::expiry::RenewalCheckError;
use crate::registry::{
    DomainStatus, Registry, RegistryModel, after_set, began, model_wf,
};
use crate::template::CommandType;
use crate::text::trimmed;

verus! {

/// A certificate with fewer days of validity left than this is renewed.
pub const RENEWAL_THRESHOLD_DAYS: i64 = 30;

impl DomainEntry {
    /// A copy of this entry.
    pub fn duplicate(&self) -> (r: DomainEntry)
        ensures
            r == *self,
    {
        DomainEntry { name: self.name.clone(), dns_provider: self.dns_provider.clone() }
    }
}

/// The registry after the domains of `domains` whose key file is listed in
/// `files` were marked `Ready`, in order.
pub open spec fn provisioned_marks(
    m: RegistryModel,
    domains: Seq<DomainEntry>,
    files: Seq<String>,
) -> RegistryModel
    decreases domains.len(),
{
    if domains.len() == 0 {
        m
    } else {
        let next = if certificate_listed(files, domains[0].name@) {
            after_set(m, trimmed(domains[0].name@), DomainStatus::Ready)
        } else {
            m
        };
        provisioned_marks(next, domains.drop_first(), files)
    }
}

/// The first index from `from` on whose domain has no key file in `files`,
/// or the length of `domains` where there is none.
pub open spec fn first_missing(domains: Seq<DomainEntry>, files: Seq<String>, from: int) -> int
    decreases domains.len() - from,
{
    if from < 0 || from >= domains.len() {
        domains.len() as int
    } else if !certificate_listed(files, domains[from].name@) {
        from
    } else {
        first_missing(domains, files, from + 1)
    }
}

/// What the startup pass asks for next.
pub enum StartupStep {
    /// Issue a first certificate for this domain, then report the outcome.
    Issue(DomainEntry),
    /// The pass is over; the renewal schedule starts only if every issuance
    /// succeeded.
    Finished { arm_scheduler: bool },
}

/// The startup pass over the configured domains.
pub struct StartupReconciler {
    pub domains: Vec<DomainEntry>,
    pub next: usize,
    pub all_succeeded: bool,
}

impl StartupReconciler {
    /// A pass over the domains of `config`, none handled yet.
    pub fn new(config: DomainConfig) -> (r: StartupReconciler)
        ensures
            r.domains@ == config.domains@,
            r.next == 0,
            r.all_succeeded,
    {
        StartupReconciler { domains: config.domains, next: 0, all_succeeded: true }
    }

    /// Marks `Ready`, without running the tool, each domain whose key file is
    /// in `files`.
    pub fn mark_provisioned(&self, registry: &mut Registry, files: &Vec<String>)
        requires
            old(registry).wf(),
        ensures
            final(registry).wf(),
            final(registry)@ == provisioned_marks(old(registry)@, self.domains@, files@),
    {
        let mut i: usize = 0;
        assert(self.domains@.skip(0) =~= self.domains@);
        while i < self.domains.len()
            invariant
                registry.wf(),
                i <= self.domains@.len(),
                provisioned_marks(old(registry)@, self.domains@, files@) == provisioned_marks(
                    registry@,
                    self.domains@.skip(i as int),
                    files@,
                ),
            decreases self.domains@.len() - i,
        {
            assert(self.domains@.skip(i as int).drop_first() =~= self.domains@.skip(i + 1));
            let name = self.domains[i].name.as_str();
            if certificate_exists(name, files) {
                registry.set(name, DomainStatus::Ready);
            }
            i = i + 1;
        }
    }

    /// The next step: the next domain, in order, that still has no key file
    /// in `files`, or the end of the pass.
    pub fn next_step(&mut self, files: &Vec<String>) -> (r: StartupStep)
        ensures
            final(self).domains == old(self).domains,
            final(self).all_succeeded == old(self).all_succeeded,
            final(self).next <= final(self).domains@.len(),
            ({
                let k = first_missing(old(self).domains@, files@, old(self).next as int);
                if k < old(self).domains@.len() {
                    r == StartupStep::Issue(old(self).domains@[k]) && final(self).next == k + 1
                } else {
                    r == (StartupStep::Finished { arm_scheduler: old(self).all_succeeded })
                        && final(self).next == old(self).domains@.len()
                }
            }),
    {
        if self.next > self.domains.len() {
            self.next = self.domains.len();
        }
        while self.next < self.domains.len()
            invariant
                self.domains == old(self).domains,
                self.all_succeeded == old(self).all_succeeded,
                self.next <= self.domains@.len(),
                first_missing(self.domains@, files@, old(self).next as int) == first_missing(
                    self.domains@,
                    files@,
                    self.next as int,
                ),
            decreases self.domains@.len() - self.next,
        {
            let i = self.next;
            if !certificate_exists(self.domains[i].name.as_str(), files) {
                self.next = i + 1;
                return StartupStep::Issue(self.domains[i].duplicate());
            }
            self.next = i + 1;
        }
        StartupStep::Finished { arm_scheduler: self.all_succeeded }
    }

    /// Records whether the latest issuance succeeded.
    pub fn record_outcome(&mut self, succeeded: bool)
        ensures
            final(self).domains == old(self).domains,
            final(self).next == old(self).next,
            final(self).all_succeeded == (old(self).all_succeeded && succeeded),
    {
        self.all_succeeded = self.all_succeeded && succeeded;
    }
}

/// What the renewal cycle asks for next.
pub enum RenewalStep {
    /// Check whether this domain's certificate needs renewal.
    Evaluate(DomainEntry),
    /// Another acquisition holds the lock: the rest of this tick is dropped.
    Postponed,
    /// Every domain was considered.
    Complete,
}

/// What to do after a domain was checked.
pub enum CheckAction {
    /// Renew this domain: the lock is held and the domain is `Acquiring`.
    Renew(DomainEntry),
    /// Nothing to do for this domain.
    Skip,
    /// The check failed: log it and go on; no status changes.
    Report(RenewalCheckError),
    /// The lock was taken meanwhile: the rest of this tick is dropped.
    Postponed,
}

/// One tick of the renewal schedule over the domain list as it stands.
pub struct RenewalCycle {
    pub domains: Vec<DomainEntry>,
    pub next: usize,
    pub over: bool,
}

impl RenewalCycle {
    /// A tick over the domains of `config`.
    pub fn new(config: DomainConfig) -> (r: RenewalCycle)
        ensures
            r.domains@ == config.domains@,
            r.next == 0,
            !r.over,
    {
        RenewalCycle { domains: config.domains, next: 0, over: false }
    }

    /// The next step: the tick ends once every domain was considered, and is
    /// dropped while another acquisition holds the lock.
    pub fn next_step(&mut self, registry: &Registry) -> (r: RenewalStep)
        ensures
            final(self).domains == old(self).domains,
            old(self).over || old(self).next >= old(self).domains@.len() ==> r is Complete
                && final(self).over,
            !old(self).over && old(self).next < old(self).domains@.len() && registry@.locked ==> r
                is Postponed && final(self).over,
            !old(self).over && old(self).next < old(self).domains@.len() && !registry@.locked ==> {
                &&& r == RenewalStep::Evaluate(old(self).domains@[old(self).next as int])
                &&& final(self).next == old(self).next + 1
                &&& !final(self).over
            },
    {
        if self.over || self.next >= self.domains.len() {
            self.over = true;
            return RenewalStep::Complete;
        }
        if registry.is_locked() {
            self.over = true;
            return RenewalStep::Postponed;
        }
        let i = self.next;
        self.next = i + 1;
        RenewalStep::Evaluate(self.domains[i].duplicate())
    }

    /// Acts on the check of `entry`: renewal due takes the lock and marks the
    /// domain `Acquiring` for a renewal; no renewal due does nothing; a failed
    /// check is reported; a lock taken meanwhile drops the rest of the tick.
    pub fn after_check(
        &mut self,
        registry: &mut Registry,
        entry: DomainEntry,
        check: Result<bool, RenewalCheckError>,
    ) -> (r: CheckAction)
        requires
            old(registry).wf(),
        ensures
            final(registry).wf(),
            final(self).domains == old(self).domains,
            final(self).next == old(self).next,
            check matches Ok(true) && !old(registry)@.locked ==> {
                &&& r == CheckAction::Renew(entry)
                &&& final(registry)@ == began(
                    RegistryModel { statuses: old(registry)@.statuses, locked: true },
                    trimmed(entry.name@),
                )
                &&& final(self).over == old(self).over
            },
            check matches Ok(true) && old(registry)@.locked ==> {
                &&& r is Postponed
                &&& final(registry)@ == old(registry)@
                &&& final(self).over
            },
            check matches Ok(false) ==> {
                &&& r is Skip
                &&& final(registry)@ == old(registry)@
                &&& final(self).over == old(self).over
            },
            check matches Err(e) ==> {
                &&& r == CheckAction::Report(e)
                &&& final(registry)@ == old(registry)@
                &&& final(self).over == old(self).over
            },
    {
        match check {
            Ok(true) => {
                if !registry.try_acquire_global_lock() {
                    self.over = true;
                    return CheckAction::Postponed;
                }
                let started = registry.begin_acquisition(entry.name.as_str(), CommandType::Renew);
                if !started {
                    registry.release_global_lock();
                    self.over = true;
                    return CheckAction::Postponed;
                }
                CheckAction::Renew(entry)
            },
            Ok(false) => CheckAction::Skip,
            Err(e) => CheckAction::Report(e),
        }
    }
}

} // verus!
