//! The certificate lifecycle manager, as a state machine.
//!
//! The set of domains to secure is fixed at construction. Each domain
//! moves independently through the lifecycle: uninitialized, in-flight
//! issuance (bootstrapping a first certificate or renewing an existing
//! one), active, or failed until the next retry. The manager serializes
//! issuance per domain: a request to ensure a certificate while one is
//! already in flight starts nothing. The driver of the issuance protocol
//! runs outside the library and reports each outcome back; a connection
//! for a server name can complete its handshake exactly when a
//! certificate for that name has been issued.

use vstd::prelude::*;

verus! {

/// Validity metadata of an issued certificate: when it expires, and
/// when its renewal window opens.
#[derive(Clone, Copy, Debug, PartialEq, Eq)]
pub struct CertInfo {
    pub expires_at: u64,
    pub renew_after: u64,
}

/// Lifecycle state of one domain.
#[derive(Debug, PartialEq, Eq)]
pub enum DomainState {
    /// No issuance attempted yet.
    Uninitialized,
    /// First issuance in flight; no certificate yet.
    Bootstrapping,
    /// A certificate is issued and current.
    Active,
    /// A certificate exists and a replacement issuance is in flight.
    Renewing,
    /// The last issuance attempt failed; retried later, never fatal.
    Failed(String),
}

/// One managed domain with its state and most recently issued
/// certificate, if any.
pub struct CertEntry {
    pub domain: String,
    pub state: DomainState,
    pub cert: Option<CertInfo>,
}

/// The certificate lifecycle manager.
pub struct CertManager {
    pub entries: Vec<CertEntry>,
}

/// What a call to ensure a certificate decided.
#[derive(Debug, PartialEq, Eq)]
pub enum IssuanceAction {
    /// An issuance was started; the caller drives the protocol.
    Started,
    /// An issuance for this domain is already in flight; none started.
    AlreadyInFlight,
    /// The cached certificate is outside its renewal window; none needed.
    CertificateCurrent,
    /// The domain is not managed here.
    UnknownDomain,
}

/// The managed domains are pairwise distinct.
pub open spec fn wf(m: CertManager) -> bool {
    forall|i: int, j: int|
        0 <= i < j < m.entries@.len() ==> m.entries@[i].domain@ != m.entries@[j].domain@
}

pub open spec fn has_domain(m: CertManager, d: Seq<char>) -> bool {
    exists|i: int| 0 <= i < m.entries@.len() && m.entries@[i].domain@ == d
}

pub open spec fn index_of(m: CertManager, d: Seq<char>) -> int {
    choose|i: int| 0 <= i < m.entries@.len() && m.entries@[i].domain@ == d
}

pub open spec fn entry_of(m: CertManager, d: Seq<char>) -> CertEntry {
    m.entries@[index_of(m, d)]
}

pub open spec fn state_of(m: CertManager, d: Seq<char>) -> DomainState {
    entry_of(m, d).state
}

pub open spec fn cert_of(m: CertManager, d: Seq<char>) -> Option<CertInfo> {
    entry_of(m, d).cert
}

/// A state in which an issuance is underway.
pub open spec fn is_in_flight_state(s: DomainState) -> bool {
    s is Bootstrapping || s is Renewing
}

/// An issuance for `d` is underway.
pub open spec fn in_flight(m: CertManager, d: Seq<char>) -> bool {
    has_domain(m, d) && is_in_flight_state(state_of(m, d))
}

/// The domain's certificate is missing or inside its renewal window.
pub open spec fn needs_issuance(cert: Option<CertInfo>, now: u64) -> bool {
    match cert {
        None => true,
        Some(c) => now >= c.renew_after,
    }
}

/// Ensuring a certificate for `d` at time `now` starts an issuance:
/// the domain is managed, none is in flight, and the cached
/// certificate (if any) is due.
pub open spec fn starts_issuance(m: CertManager, d: Seq<char>, now: u64) -> bool {
    has_domain(m, d) && !in_flight(m, d) && needs_issuance(cert_of(m, d), now)
}

/// With distinct domains, the entry found at `i` is the entry of `d`.
proof fn lemma_index_of_is(m: CertManager, d: Seq<char>, i: int)
    requires
        wf(m),
        0 <= i < m.entries@.len(),
        m.entries@[i].domain@ == d,
    ensures
        has_domain(m, d),
        index_of(m, d) == i,
{
    assert(has_domain(m, d));
    let k = index_of(m, d);
    assert(0 <= k < m.entries@.len() && m.entries@[k].domain@ == d);
    if k < i {
        assert(m.entries@[k].domain@ != m.entries@[i].domain@);
    } else if i < k {
        assert(m.entries@[i].domain@ != m.entries@[k].domain@);
    }
}

/// Law: issuance per domain is serialized. While an issuance for a
/// domain is in flight, a further request to ensure its certificate
/// starts nothing: at most one issuance call reaches the certificate
/// authority per domain at a time.
pub proof fn lemma_no_concurrent_issuance(m: CertManager, d: Seq<char>, now: u64)
    requires
        in_flight(m, d),
    ensures
        !starts_issuance(m, d, now),
{
}

fn state_in_flight(s: &DomainState) -> (r: bool)
    ensures
        r == is_in_flight_state(*s),
{
    matches!(s, DomainState::Bootstrapping | DomainState::Renewing)
}

impl CertManager {
    /// Construct the manager over the fixed set of hostnames to secure,
    /// every domain uninitialized and without a certificate.
    pub fn new(domains: Vec<String>) -> (m: CertManager)
        requires
            forall|i: int, j: int| 0 <= i < j < domains@.len() ==> domains@[i]@ != domains@[j]@,
        ensures
            wf(m),
            m.entries@.len() == domains@.len(),
            forall|i: int|
                0 <= i < domains@.len() ==> {
                    &&& (#[trigger] m.entries@[i]).domain@ == domains@[i]@
                    &&& m.entries@[i].state is Uninitialized
                    &&& m.entries@[i].cert is None
                },
    {
        let mut entries: Vec<CertEntry> = Vec::new();
        let mut i: usize = 0;
        while i < domains.len()
            invariant
                0 <= i <= domains@.len(),
                entries@.len() == i,
                forall|j: int|
                    0 <= j < i ==> {
                        &&& (#[trigger] entries@[j]).domain@ == domains@[j]@
                        &&& entries@[j].state is Uninitialized
                        &&& entries@[j].cert is None
                    },
            decreases domains@.len() - i,
        {
            entries.push(
                CertEntry {
                    domain: domains[i].clone(),
                    state: DomainState::Uninitialized,
                    cert: None,
                },
            );
            i = i + 1;
        }
        CertManager { entries }
    }

    /// The index of the entry for `domain`, when the domain is managed.
    fn find_index(&self, domain: &String) -> (r: Option<usize>)
        ensures
            match r {
                Some(i) => i < self.entries@.len() && self.entries@[i as int].domain@ == domain@,
                None => !has_domain(*self, domain@),
            },
    {
        let mut i: usize = 0;
        while i < self.entries.len()
            invariant
                0 <= i <= self.entries@.len(),
                forall|j: int| 0 <= j < i ==> self.entries@[j].domain@ != domain@,
            decreases self.entries@.len() - i,
        {
            if self.entries[i].domain == *domain {
                return Some(i);
            }
            i = i + 1;
        }
        None
    }

    /// Ensure a certificate for `domain` at time `now`: start an
    /// issuance exactly when the domain is managed, no issuance for it
    /// is in flight, and no current certificate is cached. Anything
    /// else changes nothing; in particular a domain already in flight
    /// reports so, and a second concurrent request never reaches the
    /// certificate authority.
    pub fn ensure_certificate(&mut self, domain: &String, now: u64) -> (a: IssuanceAction)
        requires
            wf(*old(self)),
        ensures
            wf(*final(self)),
            (a is Started) == starts_issuance(*old(self), domain@, now),
            (a is UnknownDomain) == !has_domain(*old(self), domain@),
            (a is AlreadyInFlight) == in_flight(*old(self), domain@),
            (a is CertificateCurrent) == (has_domain(*old(self), domain@) && !in_flight(
                *old(self),
                domain@,
            ) && !needs_issuance(cert_of(*old(self), domain@), now)),
            !(a is Started) ==> *final(self) == *old(self),
            a is Started ==> {
                &&& final(self).entries@.len() == old(self).entries@.len()
                &&& forall|k: int|
                    0 <= k < old(self).entries@.len() && old(self).entries@[k].domain@ != domain@
                        ==> final(self).entries@[k] == old(self).entries@[k]
                &&& forall|k: int|
                    0 <= k < old(self).entries@.len() ==> (#[trigger] final(self).entries@[k]).domain@ == old(self).entries@[k].domain@
                &&& in_flight(*final(self), domain@)
                &&& cert_of(*final(self), domain@) == cert_of(*old(self), domain@)
                &&& state_of(*final(self), domain@) == (if cert_of(*old(self), domain@) is Some {
                    DomainState::Renewing
                } else {
                    DomainState::Bootstrapping
                })
            },
    {
        let idx = self.find_index(domain);
        match idx {
            None => IssuanceAction::UnknownDomain,
            Some(i) => {
                proof {
                    lemma_index_of_is(*self, domain@, i as int);
                }
                if state_in_flight(&self.entries[i].state) {
                    IssuanceAction::AlreadyInFlight
                } else {
                    let has_cert: bool = self.entries[i].cert.is_some();
                    let due: bool = match self.entries[i].cert {
                        Some(c) => now >= c.renew_after,
                        None => true,
                    };
                    if !due {
                        IssuanceAction::CertificateCurrent
                    } else {
                        let d_clone = self.entries[i].domain.clone();
                        let cert = self.entries[i].cert;
                        let new_state = if has_cert {
                            DomainState::Renewing
                        } else {
                            DomainState::Bootstrapping
                        };
                        self.entries[i] = CertEntry { domain: d_clone, state: new_state, cert };
                        proof {
                            assert forall|k: int|
                                0 <= k < self.entries@.len() implies (#[trigger] self.entries@[k]).domain@
                                == old(self).entries@[k].domain@ by {}
                            assert(wf(*self));
                            lemma_index_of_is(*self, domain@, i as int);
                        }
                        IssuanceAction::Started
                    }
                }
            },
        }
    }

    /// Record a successful issuance reported by the protocol driver:
    /// the domain becomes active and its new certificate, with the
    /// given validity window, is the one the live TLS configuration
    /// now serves. An unmanaged domain changes nothing.
    pub fn issuance_succeeded(&mut self, domain: &String, expires_at: u64, renew_after: u64)
        requires
            wf(*old(self)),
        ensures
            wf(*final(self)),
            !has_domain(*old(self), domain@) ==> *final(self) == *old(self),
            has_domain(*old(self), domain@) ==> {
                &&& final(self).entries@.len() == old(self).entries@.len()
                &&& forall|k: int|
                    0 <= k < old(self).entries@.len() && old(self).entries@[k].domain@ != domain@
                        ==> final(self).entries@[k] == old(self).entries@[k]
                &&& forall|k: int|
                    0 <= k < old(self).entries@.len() ==> (#[trigger] final(self).entries@[k]).domain@ == old(self).entries@[k].domain@
                &&& has_domain(*final(self), domain@)
                &&& state_of(*final(self), domain@) is Active
                &&& cert_of(*final(self), domain@) == Some(CertInfo { expires_at, renew_after })
            },
    {
        let idx = self.find_index(domain);
        match idx {
            None => {
            },
            Some(i) => {
                proof {
                    lemma_index_of_is(*self, domain@, i as int);
                }
                let d_clone = self.entries[i].domain.clone();
                self.entries[i] = CertEntry {
                    domain: d_clone,
                    state: DomainState::Active,
                    cert: Some(CertInfo { expires_at, renew_after }),
                };
                proof {
                    assert forall|k: int|
                        0 <= k < self.entries@.len() implies (#[trigger] self.entries@[k]).domain@
                        == old(self).entries@[k].domain@ by {}
                    assert(wf(*self));
                    lemma_index_of_is(*self, domain@, i as int);
                }
            },
        }
    }

    /// Record a failed issuance attempt: the domain is failed with the
    /// reported reason until a later retry, and whatever certificate it
    /// had stays live. Never fatal; an unmanaged domain changes nothing.
    pub fn issuance_failed(&mut self, domain: &String, reason: String)
        requires
            wf(*old(self)),
        ensures
            wf(*final(self)),
            !has_domain(*old(self), domain@) ==> *final(self) == *old(self),
            has_domain(*old(self), domain@) ==> {
                &&& final(self).entries@.len() == old(self).entries@.len()
                &&& forall|k: int|
                    0 <= k < old(self).entries@.len() && old(self).entries@[k].domain@ != domain@
                        ==> final(self).entries@[k] == old(self).entries@[k]
                &&& forall|k: int|
                    0 <= k < old(self).entries@.len() ==> (#[trigger] final(self).entries@[k]).domain@ == old(self).entries@[k].domain@
                &&& has_domain(*final(self), domain@)
                &&& state_of(*final(self), domain@) == DomainState::Failed(reason)
                &&& cert_of(*final(self), domain@) == cert_of(*old(self), domain@)
            },
    {
        let idx = self.find_index(domain);
        match idx {
            None => {
            },
            Some(i) => {
                proof {
                    lemma_index_of_is(*self, domain@, i as int);
                }
                let d_clone = self.entries[i].domain.clone();
                let cert = self.entries[i].cert;
                self.entries[i] = CertEntry {
                    domain: d_clone,
                    state: DomainState::Failed(reason),
                    cert,
                };
                proof {
                    assert forall|k: int|
                        0 <= k < self.entries@.len() implies (#[trigger] self.entries@[k]).domain@
                        == old(self).entries@[k].domain@ by {}
                    assert(wf(*self));
                    lemma_index_of_is(*self, domain@, i as int);
                }
            },
        }
    }

    /// Whether a TLS handshake for `server_name` can complete: exactly
    /// when the name is managed and a certificate for it has been
    /// issued. During the bootstrap window the handshake fails; no
    /// HTTP-level answer exists yet for such a connection.
    pub fn has_live_certificate(&self, server_name: &String) -> (r: bool)
        requires
            wf(*self),
        ensures
            r == (has_domain(*self, server_name@) && cert_of(*self, server_name@) is Some),
    {
        let idx = self.find_index(server_name);
        match idx {
            None => false,
            Some(i) => {
                proof {
                    lemma_index_of_is(*self, server_name@, i as int);
                }
                self.entries[i].cert.is_some()
            },
        }
    }
}

} // verus!
