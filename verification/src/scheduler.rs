//! The bounded-concurrency scheduler, as a state machine over candidate
//! URLs. The driver starts a candidate when a slot is free, probes it
//! outside the library, and reports each completion back; the contracts
//! guarantee that at most `limit` probes are in flight at any instant and
//! that every candidate completes exactly once.

use vstd::prelude::*;
use crate::text::views_of;

verus! {

pub struct Scheduler {
    candidates: Vec<String>,
    next_index: usize,
    in_flight: usize,
    completed: usize,
    limit: usize,
}

impl Scheduler {
    /// The candidate URLs, in start order.
    pub closed spec fn candidates_view(&self) -> Seq<Seq<char>> {
        views_of(self.candidates@)
    }

    pub closed spec fn total(&self) -> int {
        self.candidates@.len() as int
    }

    /// How many candidates have been handed out so far.
    pub closed spec fn started(&self) -> int {
        self.next_index as int
    }

    /// How many probes are in flight right now.
    pub closed spec fn in_flight_count(&self) -> int {
        self.in_flight as int
    }

    /// How many probes have completed, with a response or a failure.
    pub closed spec fn completed_count(&self) -> int {
        self.completed as int
    }

    /// The concurrency limit.
    pub closed spec fn limit_spec(&self) -> int {
        self.limit as int
    }

    /// Every started candidate is either in flight or completed, and the
    /// number in flight never exceeds the limit.
    pub open spec fn wf(&self) -> bool {
        &&& self.started() <= self.total()
        &&& self.in_flight_count() + self.completed_count() == self.started()
        &&& self.in_flight_count() <= self.limit_spec()
        &&& 1 <= self.limit_spec()
    }

    /// Every candidate has produced a result.
    pub open spec fn finished(&self) -> bool {
        self.completed_count() == self.total()
    }

    pub fn new(candidates: Vec<String>, limit: usize) -> (s: Scheduler)
        requires
            1 <= limit,
        ensures
            s.wf(),
            s.candidates_view() == views_of(candidates@),
            s.total() == candidates@.len(),
            s.started() == 0,
            s.in_flight_count() == 0,
            s.completed_count() == 0,
            s.limit_spec() == limit,
    {
        Scheduler { candidates, next_index: 0, in_flight: 0, completed: 0, limit }
    }

    /// A candidate is pending and a concurrency slot is free.
    pub fn can_start(&self) -> (b: bool)
        ensures
            b == (self.started() < self.total() && self.in_flight_count() < self.limit_spec()),
    {
        self.next_index < self.candidates.len() && self.in_flight < self.limit
    }

    /// Hand out the next candidate, occupying one slot.
    pub fn start_next(&mut self) -> (url: String)
        requires
            old(self).wf(),
            old(self).started() < old(self).total(),
            old(self).in_flight_count() < old(self).limit_spec(),
        ensures
            final (self).wf(),
            url@ == old(self).candidates_view()[old(self).started()],
            final (self).started() == old(self).started() + 1,
            final (self).in_flight_count() == old(self).in_flight_count() + 1,
            final (self).completed_count() == old(self).completed_count(),
            final (self).candidates_view() == old(self).candidates_view(),
            final (self).total() == old(self).total(),
            final (self).limit_spec() == old(self).limit_spec(),
    {
        let total = self.candidates.len();
        let url = self.candidates[self.next_index].clone();
        proof {
            assert(self.next_index < total);
        }
        self.next_index += 1;
        self.in_flight += 1;
        url
    }

    /// Record one completion, freeing its slot.
    pub fn complete(&mut self)
        requires
            old(self).wf(),
            old(self).in_flight_count() >= 1,
        ensures
            final (self).wf(),
            final (self).completed_count() == old(self).completed_count() + 1,
            final (self).in_flight_count() == old(self).in_flight_count() - 1,
            final (self).started() == old(self).started(),
            final (self).candidates_view() == old(self).candidates_view(),
            final (self).total() == old(self).total(),
            final (self).limit_spec() == old(self).limit_spec(),
    {
        self.in_flight -= 1;
        self.completed += 1;
    }

    pub fn is_finished(&self) -> (b: bool)
        ensures
            b == self.finished(),
    {
        self.completed == self.candidates.len()
    }

    pub fn completed_so_far(&self) -> (n: usize)
        ensures
            n == self.completed_count(),
    {
        self.completed
    }

    pub fn total_candidates(&self) -> (n: usize)
        ensures
            n == self.total(),
    {
        self.candidates.len()
    }
}

/// Law: bounded concurrency. In every well-formed scheduler state the
/// number of in-flight probes is at most the configured limit; the
/// transitions above all preserve well-formedness.
pub proof fn lemma_in_flight_bounded(s: &Scheduler)
    requires
        s.wf(),
    ensures
        s.in_flight_count() <= s.limit_spec(),
{
}

/// Law: exactly one completion per candidate. A finished well-formed
/// scheduler has completed as many probes as there are candidates, with
/// none left pending or in flight.
pub proof fn lemma_finished_exact(s: &Scheduler)
    requires
        s.wf(),
        s.finished(),
    ensures
        s.completed_count() == s.total(),
        s.in_flight_count() == 0,
        s.started() == s.total(),
{
}

} // verus!
