//! Enrichment orchestration: one stats fetch per resolved identity.
//!
//! On each detected event the resolved identities are enriched
//! independently; a failed fetch is skipped and the others continue. The
//! fetches themselves happen outside the library — the
//! [`EnrichmentOrchestrator`] hands out which identity to fetch next and
//! collects each outcome, so a driver may also run the fetches
//! concurrently and feed the outcomes back in any order consistent with
//! one outcome per identity. A name list that resolves to zero identities
//! asks for no fetch and yields zero reports, with no error.

use vstd::prelude::*;

use crate::hypixel::HypixelPlayer;
use crate::hypixel::StatsError;

verus! {

/// Fans the enrichment of one detected event out over its resolved
/// identities and collects the reports that succeed.
pub struct EnrichmentOrchestrator {
    identities: Vec<(String, String)>,
    idx: usize,
    reports: Vec<HypixelPlayer>,
}

impl EnrichmentOrchestrator {
    /// The `(id, name)` identities this event resolved to.
    pub closed spec fn identities_view(&self) -> Seq<(Seq<char>, Seq<char>)> {
        self.identities.deep_view()
    }

    /// How many identities have been dealt with.
    pub closed spec fn pos(&self) -> int {
        self.idx as int
    }

    /// The reports collected so far, in completion order.
    pub closed spec fn reports_view(&self) -> Seq<HypixelPlayer> {
        self.reports@
    }

    pub closed spec fn wf(&self) -> bool {
        self.idx <= self.identities@.len()
    }

    /// Every identity was dealt with.
    pub open spec fn done(&self) -> bool {
        self.pos() == self.identities_view().len()
    }

    /// Starts the enrichment of one event over its resolved identities.
    pub fn new(identities: Vec<(String, String)>) -> (r: Self)
        ensures
            r.wf(),
            r.identities_view() == identities.deep_view(),
            r.pos() == 0,
            r.reports_view() == Seq::<HypixelPlayer>::empty(),
    {
        EnrichmentOrchestrator { identities, idx: 0, reports: Vec::new() }
    }

    /// The `(id, name)` identity to enrich next, or nothing once every
    /// identity was dealt with.
    pub fn next_fetch(&self) -> (r: Option<(String, String)>)
        requires
            self.wf(),
        ensures
            match r {
                Some(p) => !self.done() && p.deep_view() == self.identities_view()[self.pos()],
                None => self.done(),
            },
    {
        if self.idx < self.identities.len() {
            let id = self.identities[self.idx].0.clone();
            let name = self.identities[self.idx].1.clone();
            Some((id, name))
        } else {
            None
        }
    }

    /// Collects the outcome of the current identity's enrichment: a
    /// report joins the output, a failure is skipped; either way the
    /// orchestration moves to the next identity.
    pub fn on_stats(&mut self, outcome: Result<HypixelPlayer, StatsError>)
        requires
            old(self).wf(),
            !old(self).done(),
        ensures
            final(self).wf(),
            final(self).identities_view() == old(self).identities_view(),
            final(self).pos() == old(self).pos() + 1,
            match outcome {
                Ok(report) => final(self).reports_view() == old(self).reports_view().push(report),
                Err(_) => final(self).reports_view() == old(self).reports_view(),
            },
    {
        match outcome {
            Ok(report) => {
                self.reports.push(report);
            },
            Err(_) => {},
        }
        proof {
            vstd::std_specs::vec::axiom_spec_len(&self.identities);
        }
        self.idx = self.idx + 1;
    }

    /// Hands the collected reports out once every identity was dealt
    /// with.
    pub fn into_reports(self) -> (r: Vec<HypixelPlayer>)
        requires
            self.done(),
        ensures
            r@ == self.reports_view(),
    {
        self.reports
    }
}

} // verus!
