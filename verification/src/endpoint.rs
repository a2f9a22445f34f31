//! The endpoint resolver: which of two candidate servers a run talks to.

use crate::text::text_view;
use vstd::prelude::*;
use vstd::string::*;

verus! {

/// Seconds granted to the reachability probe.
pub const PROBE_TIMEOUT_SECS: u64 = 2;

/// Seconds granted to every other request.
pub const REQUEST_TIMEOUT_SECS: u64 = 60;

/// The two candidate base URLs of a run, in order of preference. An empty
/// text stands for a candidate that is not set.
#[derive(Clone, Debug, PartialEq, Eq)]
pub struct Endpoints {
    pub primary: String,
    pub fallback: String,
}

/// The two candidates as mathematical values.
pub struct Candidates {
    pub primary: Seq<char>,
    pub fallback: Seq<char>,
}

impl View for Endpoints {
    type V = Candidates;

    open spec fn view(&self) -> Candidates {
        Candidates { primary: self.primary@, fallback: self.fallback@ }
    }
}

impl Candidates {
    /// Whether the primary candidate must be probed: it is set.
    pub open spec fn needs_probe(self) -> bool {
        self.primary.len() > 0
    }

    /// The address of the health check on the primary candidate.
    pub open spec fn probe_url(self) -> Seq<char> {
        self.primary + "/api/server/ping"@
    }

    /// The base URL of the run. `reachable` says whether the probe of the
    /// primary candidate got an answer; it counts only where the primary is
    /// set. The fallback is taken without a probe.
    pub open spec fn resolved(self, reachable: bool) -> Option<Seq<char>> {
        if self.primary.len() > 0 && reachable {
            Some(self.primary)
        } else if self.fallback.len() > 0 {
            Some(self.fallback)
        } else {
            None
        }
    }
}

impl Endpoints {
    /// Whether the primary candidate must be probed before a server is
    /// chosen.
    pub fn needs_probe(&self) -> (r: bool)
        ensures
            r == self@.needs_probe(),
    {
        !self.primary.as_str().is_empty()
    }

    /// The address of the health check on the primary candidate.
    pub fn probe_url(&self) -> (r: String)
        ensures
            r@ == self@.probe_url(),
    {
        let mut url = self.primary.clone();
        url.append("/api/server/ping");
        url
    }

    /// Chooses the base URL of the run: the primary candidate if it is set
    /// and answered the probe, else the fallback if that is set, else none.
    pub fn resolve(&self, reachable: bool) -> (r: Option<String>)
        ensures
            text_view(r) == self@.resolved(reachable),
    {
        if !self.primary.as_str().is_empty() && reachable {
            Some(self.primary.clone())
        } else if !self.fallback.as_str().is_empty() {
            Some(self.fallback.clone())
        } else {
            None
        }
    }
}

/// A reachable primary is preferred to any fallback; an unreachable primary
/// gives way to a fallback that is set; and with neither set, or with an
/// unreachable primary and no fallback, there is no endpoint.
pub proof fn lemma_endpoint_preference(candidates: Candidates, reachable: bool)
    ensures
        candidates.primary.len() > 0 && reachable ==> candidates.resolved(reachable) == Some(
            candidates.primary,
        ),
        candidates.primary.len() > 0 && !reachable && candidates.fallback.len() > 0
            ==> candidates.resolved(reachable) == Some(candidates.fallback),
        candidates.primary.len() == 0 && candidates.fallback.len() > 0 ==> candidates.resolved(
            reachable,
        ) == Some(candidates.fallback),
        candidates.primary.len() == 0 && candidates.fallback.len() == 0 ==> candidates.resolved(
            reachable,
        ) is None,
        !reachable && candidates.fallback.len() == 0 ==> candidates.resolved(reachable) is None,
{
}

} // verus!
