//! The domain registry: the status of each domain and the global acquisition
//! lock that lets one issuance or renewal run at a time.

use vstd::prelude::*;
use crate::template::CommandType;
use crate::text::{trim, trimmed};

verus! {

/// Where a domain's certificate stands.
#[derive(Clone, Debug)]
pub enum DomainStatus {
    /// An issuance or renewal is running for the domain.
    Acquiring,
    /// A valid certificate is on disk.
    Ready,
    /// The latest attempt failed, for the reason given.
    Failed(String),
}

impl DomainStatus {
    /// A copy of this status.
    pub fn duplicate(&self) -> (r: DomainStatus)
        ensures
            r == *self,
    {
        match self {
            DomainStatus::Acquiring => DomainStatus::Acquiring,
            DomainStatus::Ready => DomainStatus::Ready,
            DomainStatus::Failed(reason) => DomainStatus::Failed(reason.clone()),
        }
    }
}

/// Why a request for a certificate was turned away.
#[derive(Clone, Copy, Debug, PartialEq, Eq, Structural)]
pub enum Rejection {
    /// An acquisition for this domain is already running.
    InProgress,
    /// The domain already has a certificate.
    AlreadyExists,
    /// Another acquisition holds the global lock.
    Busy,
}

/// The registry as a mathematical value: the status of each known domain,
/// keyed by trimmed name, and whether the global lock is held.
pub struct RegistryModel {
    pub statuses: Map<Seq<char>, DomainStatus>,
    pub locked: bool,
}

/// The status recorded for `d`, if any.
pub open spec fn status_in(m: RegistryModel, d: Seq<char>) -> Option<DomainStatus> {
    if m.statuses.contains_key(d) {
        Some(m.statuses[d])
    } else {
        None
    }
}

/// `d` is marked `Acquiring` in `statuses`.
pub open spec fn acquiring_in(statuses: Map<Seq<char>, DomainStatus>, d: Seq<char>) -> bool {
    statuses.contains_key(d) && statuses[d] == DomainStatus::Acquiring
}

pub open spec fn is_acquiring(m: RegistryModel, d: Seq<char>) -> bool {
    acquiring_in(m.statuses, d)
}

/// Some domain is marked `Acquiring`.
pub open spec fn has_acquiring(m: RegistryModel) -> bool {
    exists|d: Seq<char>| #[trigger] acquiring_in(m.statuses, d)
}

/// At most one domain is `Acquiring`, and only while the lock is held.
pub open spec fn model_wf(m: RegistryModel) -> bool {
    &&& forall|d1: Seq<char>, d2: Seq<char>|
        #[trigger] acquiring_in(m.statuses, d1) && #[trigger] acquiring_in(m.statuses, d2) ==> d1
            == d2
    &&& has_acquiring(m) ==> m.locked
}

/// The answer to a request to acquire a certificate for `d`.
pub open spec fn admission(m: RegistryModel, d: Seq<char>) -> Result<(), Rejection> {
    match status_in(m, d) {
        Some(DomainStatus::Acquiring) => Err(Rejection::InProgress),
        Some(DomainStatus::Ready) => Err(Rejection::AlreadyExists),
        _ => if m.locked {
            Err(Rejection::Busy)
        } else {
            Ok(())
        },
    }
}

/// The registry after that request: an admitted request holds the lock.
pub open spec fn after_admission(m: RegistryModel, d: Seq<char>) -> RegistryModel {
    if admission(m, d) is Ok {
        RegistryModel { statuses: m.statuses, locked: true }
    } else {
        m
    }
}

/// An acquisition for `d` in `mode` may start: the caller holds the lock, no
/// other acquisition runs, and a domain that has a certificate is only
/// renewed.
pub open spec fn can_begin(m: RegistryModel, d: Seq<char>, mode: CommandType) -> bool {
    &&& m.locked
    &&& !has_acquiring(m)
    &&& status_in(m, d) == Some(DomainStatus::Ready) ==> mode == CommandType::Renew
}

pub open spec fn began(m: RegistryModel, d: Seq<char>) -> RegistryModel {
    RegistryModel { statuses: m.statuses.insert(d, DomainStatus::Acquiring), locked: m.locked }
}

/// The status that an acquisition's outcome leaves.
pub open spec fn terminal_status(outcome: Result<(), String>) -> DomainStatus {
    match outcome {
        Ok(()) => DomainStatus::Ready,
        Err(reason) => DomainStatus::Failed(reason),
    }
}

/// The registry after the acquisition for `d` ended with `outcome`: the domain
/// is `Ready` or `Failed` and the lock is free. Where `d` was not acquiring,
/// no status changes and the lock is freed unless an acquisition runs.
pub open spec fn finished(m: RegistryModel, d: Seq<char>, outcome: Result<(), String>) -> RegistryModel {
    if is_acquiring(m, d) {
        RegistryModel { statuses: m.statuses.insert(d, terminal_status(outcome)), locked: false }
    } else {
        RegistryModel { statuses: m.statuses, locked: has_acquiring(m) }
    }
}

/// The registry after `status` was recorded for `d` from outside an
/// acquisition: a domain that is acquiring keeps its status.
pub open spec fn after_set(m: RegistryModel, d: Seq<char>, status: DomainStatus) -> RegistryModel {
    if is_acquiring(m, d) {
        m
    } else {
        RegistryModel { statuses: m.statuses.insert(d, status), locked: m.locked }
    }
}

proof fn lemma_wf_fewer(a: RegistryModel, b: RegistryModel)
    requires
        model_wf(a),
        a.locked ==> b.locked,
        forall|x: Seq<char>| #[trigger] acquiring_in(b.statuses, x) ==> acquiring_in(a.statuses, x),
    ensures
        model_wf(b),
{
    if has_acquiring(b) {
        let x = choose|x: Seq<char>| #[trigger] acquiring_in(b.statuses, x);
        assert(acquiring_in(a.statuses, x));
    }
}

proof fn lemma_wf_only(b: RegistryModel, d: Seq<char>)
    requires
        b.locked,
        forall|x: Seq<char>| #[trigger] acquiring_in(b.statuses, x) ==> x == d,
    ensures
        model_wf(b),
{
}

proof fn lemma_wf_none(b: RegistryModel)
    requires
        forall|x: Seq<char>| !#[trigger] acquiring_in(b.statuses, x),
    ensures
        model_wf(b),
{
}

/// The registry of domain statuses and the global acquisition lock.
pub struct Registry {
    entries: Vec<(String, DomainStatus)>,
    locked: bool,
    statuses: Ghost<Map<Seq<char>, DomainStatus>>,
}

impl View for Registry {
    type V = RegistryModel;

    closed spec fn view(&self) -> RegistryModel {
        RegistryModel { statuses: self.statuses@, locked: self.locked }
    }
}

impl Registry {
    /// The entries and the model agree, and each name has one entry.
    pub closed spec fn consistent(&self) -> bool {
        &&& forall|i: int, j: int|
            0 <= i < self.entries@.len() && 0 <= j < self.entries@.len() && i != j
                ==> self.entries@[i].0@ != self.entries@[j].0@
        &&& forall|i: int|
            0 <= i < self.entries@.len() ==> #[trigger] self.statuses@.contains_key(
                self.entries@[i].0@,
            ) && self.statuses@[self.entries@[i].0@] == self.entries@[i].1
        &&& forall|k: Seq<char>|
            #[trigger] self.statuses@.contains_key(k) ==> exists|i: int|
                0 <= i < self.entries@.len() && #[trigger] self.entries@[i].0@ == k
    }

    pub open spec fn wf(&self) -> bool {
        self.consistent() && model_wf(self@)
    }

    /// An empty registry with the lock free.
    pub fn new() -> (r: Registry)
        ensures
            r.wf(),
            r@.statuses == Map::<Seq<char>, DomainStatus>::empty(),
            !r@.locked,
    {
        Registry { entries: Vec::new(), locked: false, statuses: Ghost(Map::empty()) }
    }

    /// The index of the entry for `key`, if any.
    fn find(&self, key: &String) -> (r: Option<usize>)
        requires
            self.consistent(),
        ensures
            r matches Some(i) ==> i < self.entries@.len() && self.entries@[i as int].0@ == key@,
            r is None ==> !self.statuses@.contains_key(key@),
    {
        let mut i: usize = 0;
        while i < self.entries.len()
            invariant
                i <= self.entries@.len(),
                forall|j: int| 0 <= j < i ==> self.entries@[j].0@ != key@,
            decreases self.entries@.len() - i,
        {
            if self.entries[i].0 == *key {
                return Some(i);
            }
            i = i + 1;
        }
        proof {
            if self.statuses@.contains_key(key@) {
                let k = key@;
                assert(exists|j: int| 0 <= j < self.entries@.len() && #[trigger] self.entries@[j].0@ == k);
            }
        }
        None
    }

    fn put(&mut self, key: String, status: DomainStatus)
        requires
            old(self).consistent(),
        ensures
            final(self).consistent(),
            final(self).statuses@ == old(self).statuses@.insert(key@, status),
            final(self).locked == old(self).locked,
    {
        let ghost k = key@;
        let ghost new_map = self.statuses@.insert(k, status);
        match self.find(&key) {
            Some(i) => {
                self.entries.set(i, (key, status));
                self.statuses = Ghost(new_map);
                assert forall|m: Seq<char>| #[trigger] self.statuses@.contains_key(m) implies exists|
                    j: int,
                | 0 <= j < self.entries@.len() && #[trigger] self.entries@[j].0@ == m by {
                    if m == k {
                        assert(self.entries@[i as int].0@ == m);
                    } else {
                        assert(old(self).statuses@.contains_key(m));
                        let j = choose|j: int|
                            0 <= j < old(self).entries@.len() && #[trigger] old(
                                self,
                            ).entries@[j].0@ == m;
                        assert(self.entries@[j].0@ == m);
                    }
                }
            },
            None => {
                self.entries.push((key, status));
                self.statuses = Ghost(new_map);
                let ghost n = self.entries@.len() - 1;
                assert forall|m: Seq<char>| #[trigger] self.statuses@.contains_key(m) implies exists|
                    j: int,
                | 0 <= j < self.entries@.len() && #[trigger] self.entries@[j].0@ == m by {
                    if m == k {
                        assert(self.entries@[n].0@ == m);
                    } else {
                        assert(old(self).statuses@.contains_key(m));
                        let j = choose|j: int|
                            0 <= j < old(self).entries@.len() && #[trigger] old(
                                self,
                            ).entries@[j].0@ == m;
                        assert(self.entries@[j].0@ == m);
                    }
                }
            },
        }
    }

    /// The status recorded for the trimmed `name`.
    pub fn get(&self, name: &str) -> (r: Option<DomainStatus>)
        requires
            self.wf(),
        ensures
            r == status_in(self@, trimmed(name@)),
    {
        let key = trim(name);
        match self.find(&key) {
            Some(i) => Some(self.entries[i].1.duplicate()),
            None => None,
        }
    }

    /// Whether the global acquisition lock is held.
    pub fn is_locked(&self) -> (r: bool)
        ensures
            r == self@.locked,
    {
        self.locked
    }

    /// Whether some domain is marked `Acquiring`.
    pub fn any_acquiring(&self) -> (r: bool)
        requires
            self.wf(),
        ensures
            r == has_acquiring(self@),
    {
        let mut i: usize = 0;
        while i < self.entries.len()
            invariant
                self.wf(),
                i <= self.entries@.len(),
                forall|j: int| 0 <= j < i ==> self.entries@[j].1 != DomainStatus::Acquiring,
            decreases self.entries@.len() - i,
        {
            if let DomainStatus::Acquiring = self.entries[i].1 {
                assert(is_acquiring(self@, self.entries@[i as int].0@));
                return true;
            }
            i = i + 1;
        }
        assert forall|d: Seq<char>| !is_acquiring(self@, d) by {
            if self.statuses@.contains_key(d) {
                let j = choose|j: int| 0 <= j < self.entries@.len() && #[trigger] self.entries@[j].0@ == d;
                assert(self.statuses@[self.entries@[j].0@] == self.entries@[j].1);
            }
        }
        false
    }

    /// Takes the global lock if it is free; says whether it was taken.
    pub fn try_acquire_global_lock(&mut self) -> (r: bool)
        requires
            old(self).wf(),
        ensures
            final(self).wf(),
            r == !old(self)@.locked,
            final(self)@ == (RegistryModel { statuses: old(self)@.statuses, locked: true }),
    {
        if self.locked {
            false
        } else {
            self.locked = true;
            assert(self.entries@ == old(self).entries@);
            true
        }
    }

    /// Frees the global lock, unless an acquisition is still marked as
    /// running: that one frees it when it finishes.
    pub fn release_global_lock(&mut self)
        requires
            old(self).wf(),
        ensures
            final(self).wf(),
            final(self)@ == (RegistryModel {
                statuses: old(self)@.statuses,
                locked: has_acquiring(old(self)@),
            }),
    {
        self.locked = self.any_acquiring();
        assert(self.entries@ == old(self).entries@);
    }

    /// Records `status` for the trimmed `name`, unless an acquisition is
    /// running for it.
    pub fn set(&mut self, name: &str, status: DomainStatus)
        requires
            old(self).wf(),
            !(status is Acquiring),
        ensures
            final(self).wf(),
            final(self)@ == after_set(old(self)@, trimmed(name@), status),
    {
        let key = trim(name);
        let ghost d = key@;
        let ghost m0 = self@;
        if let Some(DomainStatus::Acquiring) = self.get(name) {
            return;
        }
        self.put(key, status);
        proof {
            assert(self@.statuses =~= after_set(m0, d, status).statuses);
            assert forall|x: Seq<char>| #[trigger] acquiring_in(self@.statuses, x) implies acquiring_in(
                m0.statuses,
                x,
            ) by {
                if x != d {
                    assert(self@.statuses[x] == m0.statuses[x]);
                }
            }
            lemma_wf_fewer(m0, self@);
        }
    }

    /// Decides a request to acquire a certificate for the trimmed `domain`: a
    /// domain already acquiring or ready is turned away, and so is any request
    /// while the lock is held; an admitted request takes the lock.
    pub fn admit_request(&mut self, domain: &str) -> (r: Result<(), Rejection>)
        requires
            old(self).wf(),
        ensures
            final(self).wf(),
            r == admission(old(self)@, trimmed(domain@)),
            final(self)@ == after_admission(old(self)@, trimmed(domain@)),
    {
        match self.get(domain) {
            Some(DomainStatus::Acquiring) => {
                return Err(Rejection::InProgress);
            },
            Some(DomainStatus::Ready) => {
                return Err(Rejection::AlreadyExists);
            },
            _ => {},
        }
        if self.locked {
            return Err(Rejection::Busy);
        }
        self.locked = true;
        assert(self.entries@ == old(self).entries@);
        Ok(())
    }

    /// Marks the trimmed `domain` as `Acquiring` where `can_begin` allows;
    /// says whether it did.
    pub fn begin_acquisition(&mut self, domain: &str, mode: CommandType) -> (r: bool)
        requires
            old(self).wf(),
        ensures
            final(self).wf(),
            r == can_begin(old(self)@, trimmed(domain@), mode),
            final(self)@ == if r {
                began(old(self)@, trimmed(domain@))
            } else {
                old(self)@
            },
    {
        if !self.locked || self.any_acquiring() {
            return false;
        }
        let key = trim(domain);
        let ghost d = key@;
        let ghost m0 = self@;
        if let Some(DomainStatus::Ready) = self.get(domain) {
            if let CommandType::Run = mode {
                return false;
            }
        }
        self.put(key, DomainStatus::Acquiring);
        proof {
            assert(self@.statuses =~= began(m0, d).statuses);
            assert forall|x: Seq<char>| #[trigger] acquiring_in(self@.statuses, x) implies x == d by {
                if x != d {
                    assert(self@.statuses[x] == m0.statuses[x]);
                    assert(acquiring_in(m0.statuses, x));
                }
            }
            lemma_wf_only(self@, d);
        }
        true
    }

    /// Ends the acquisition for the trimmed `domain`: `Ready` on success,
    /// `Failed` with the reason otherwise, and the lock is freed.
    pub fn finish_acquisition(&mut self, domain: &str, outcome: Result<(), String>)
        requires
            old(self).wf(),
        ensures
            final(self).wf(),
            final(self)@ == finished(old(self)@, trimmed(domain@), outcome),
    {
        let key = trim(domain);
        let ghost d = key@;
        let ghost m0 = self@;
        if let Some(DomainStatus::Acquiring) = self.get(domain) {
            let status = match outcome {
                Ok(()) => DomainStatus::Ready,
                Err(reason) => DomainStatus::Failed(reason),
            };
            self.put(key, status);
            let ghost e = self.entries@;
            self.locked = false;
            assert(self.entries@ == e);
            proof {
                assert(self@.statuses =~= finished(m0, d, outcome).statuses);
                assert forall|x: Seq<char>| !#[trigger] acquiring_in(self@.statuses, x) by {
                    if x != d {
                        assert(self@.statuses[x] == m0.statuses[x]);
                        if acquiring_in(m0.statuses, x) {
                            assert(acquiring_in(m0.statuses, d));
                        }
                    }
                }
                lemma_wf_none(self@);
            }
        } else {
            self.locked = self.any_acquiring();
            assert(self.entries@ == old(self).entries@);
        }
    }
}

/// Two requests for certificates: once one is admitted, the other is turned
/// away and leaves the registry as it was, so no second acquisition can start.
pub proof fn lemma_single_flight(m: RegistryModel, d1: Seq<char>, d2: Seq<char>)
    requires
        model_wf(m),
        admission(m, d1) is Ok,
    ensures
        admission(after_admission(m, d1), d2) is Err,
        after_admission(after_admission(m, d1), d2) == after_admission(m, d1),
{
}

/// How a domain's status may change in one step: it stays, or it enters
/// `Acquiring` from a state other than `Acquiring` (from `Ready` only on a
/// renewal), or it leaves `Acquiring` for `Ready` or `Failed`.
pub open spec fn status_step(
    before: Option<DomainStatus>,
    after: Option<DomainStatus>,
    renewal: bool,
) -> bool {
    ||| after == before
    ||| after == Some(DomainStatus::Acquiring) && before != Some(DomainStatus::Acquiring) && (before
        == Some(DomainStatus::Ready) ==> renewal)
    ||| before == Some(DomainStatus::Acquiring) && (after == Some(DomainStatus::Ready)
        || after matches Some(DomainStatus::Failed(_)))
}

/// Every operation of an acquisition moves each domain's status by a step of
/// `status_step` and keeps the registry well formed, so a status runs through
/// `Acquiring` and then `Ready` or `Failed`, never `Acquiring` twice in a row,
/// and from `Ready` back to `Acquiring` only on a renewal.
pub proof fn lemma_status_transitions(
    m: RegistryModel,
    d: Seq<char>,
    mode: CommandType,
    outcome: Result<(), String>,
    n: Seq<char>,
)
    requires
        model_wf(m),
    ensures
        status_step(status_in(m, n), status_in(after_admission(m, d), n), false),
        model_wf(after_admission(m, d)),
        can_begin(m, d, mode) ==> status_step(
            status_in(m, n),
            status_in(began(m, d), n),
            mode == CommandType::Renew,
        ),
        can_begin(m, d, mode) ==> model_wf(began(m, d)),
        status_step(status_in(m, n), status_in(finished(m, d, outcome), n), false),
        model_wf(finished(m, d, outcome)),
{
    if can_begin(m, d, mode) {
        let b = began(m, d);
        assert forall|x: Seq<char>| #[trigger] acquiring_in(b.statuses, x) implies x == d by {
            if x != d {
                assert(acquiring_in(m.statuses, x));
            }
        }
        lemma_wf_only(b, d);
    }
    let f = finished(m, d, outcome);
    if is_acquiring(m, d) {
        assert forall|x: Seq<char>| !#[trigger] acquiring_in(f.statuses, x) by {
            if x != d && acquiring_in(f.statuses, x) {
                assert(acquiring_in(m.statuses, x));
            }
        }
        lemma_wf_none(f);
        match outcome {
            Ok(()) => {},
            Err(reason) => {
                if n == d {
                    assert(status_in(f, n) == Some(DomainStatus::Failed(reason)));
                }
            },
        }
    }
}

} // verus!
