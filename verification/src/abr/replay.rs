//! A policy whose answers were fixed beforehand.
//!
//! Played against the plant, it shows what a recorded sequence of decisions costs on another link
//! or with other transaction costs.
use vstd::prelude::*;

use crate::abr::{
    CandidateVerdict, Controller, Decision, ObservedHlsVariant, Proposal, RejectCause, Rung,
    SegmentSample,
};

verus! {

/// The recorded answers, and how many of the decisions have been given.
pub struct Replay {
    /// The rung being played. A candidate that takes over replaces it.
    pub rung: Rung,
    /// The answer to each segment in turn. Past the last of them the policy holds.
    pub decisions: Vec<Decision>,
    /// How many segments have been answered.
    pub answered: usize,
    /// What an upward transaction may spend.
    pub budget_ms: Option<i64>,
    /// Whether an upward transaction still stands when it is given its budget.
    pub arms: bool,
    /// The verdict on an upward candidate's first object.
    pub boundary: CandidateVerdict,
    /// The verdict on every other object.
    pub ordinary: CandidateVerdict,
    /// Whether a qualified candidate may take over.
    pub commits: bool,
}

impl Replay {
    /// Plays `decisions` from `rung`. Every candidate is ready and takes over.
    pub fn new(rung: Rung, decisions: Vec<Decision>, budget_ms: Option<i64>) -> (r: Replay)
        ensures
            r == (Replay {
                rung,
                decisions,
                answered: 0,
                budget_ms,
                arms: true,
                boundary: CandidateVerdict::Ready,
                ordinary: CandidateVerdict::Ready,
                commits: true,
            }),
    {
        Replay {
            rung,
            decisions,
            answered: 0,
            budget_ms,
            arms: true,
            boundary: CandidateVerdict::Ready,
            ordinary: CandidateVerdict::Ready,
            commits: true,
        }
    }
}

impl Controller for Replay {
    type State = Replay;

    open spec fn state(&self) -> Replay {
        *self
    }

    open spec fn playing(s: Replay) -> Rung {
        s.rung
    }

    open spec fn after_variant(s: Replay, active: ObservedHlsVariant, network_kbps: u64) -> Replay {
        s
    }

    open spec fn after_segment(s: Replay, sample: SegmentSample, now_ms: u64) -> (
        Replay,
        Decision,
    ) {
        if s.answered < s.decisions@.len() {
            (
                Replay { answered: (s.answered + 1) as usize, ..s },
                s.decisions@[s.answered as int],
            )
        } else {
            (s, Decision::Hold)
        }
    }

    open spec fn budget(s: Replay, reserve_ms: i64) -> Option<i64> {
        s.budget_ms
    }

    open spec fn after_arming(s: Replay, proposal: Proposal, budget_ms: i64) -> (Replay, bool) {
        (s, s.arms)
    }

    open spec fn boundary_worth(
        s: Replay,
        proposal: Proposal,
        sample: SegmentSample,
        declared_bps: u64,
    ) -> CandidateVerdict {
        s.boundary
    }

    open spec fn worth(
        s: Replay,
        proposal: Proposal,
        sample: SegmentSample,
        declared_bps: u64,
    ) -> CandidateVerdict {
        s.ordinary
    }

    open spec fn after_reject(
        s: Replay,
        proposal: Proposal,
        cause: RejectCause,
        closed_at_ms: u64,
    ) -> Replay {
        s
    }

    open spec fn after_commit(
        s: Replay,
        proposal: Proposal,
        sample: SegmentSample,
        observed: ObservedHlsVariant,
        closed_at_ms: u64,
    ) -> (Replay, bool) {
        if s.commits {
            (Replay { rung: proposal.rung, ..s }, true)
        } else {
            (s, false)
        }
    }

    fn current(&self) -> (r: Rung) {
        self.rung
    }

    fn observe_active_variant(&mut self, active: ObservedHlsVariant, network_kbps: u64) {
    }

    fn observe(&mut self, sample: SegmentSample, now_ms: u64) -> (r: Decision) {
        if self.answered < self.decisions.len() {
            let answer = self.decisions[self.answered];
            self.answered = self.answered + 1;
            answer
        } else {
            Decision::Hold
        }
    }

    fn exploration_budget_ms(&self, reserve_ms: i64) -> (r: Option<i64>) {
        self.budget_ms
    }

    fn set_executed_exploration_budget(&mut self, proposal: Proposal, budget_ms: i64) -> (r: bool) {
        self.arms
    }

    fn candidate_boundary_verdict(
        &self,
        proposal: Proposal,
        sample: SegmentSample,
        declared_bps: u64,
    ) -> (r: CandidateVerdict) {
        self.boundary
    }

    fn candidate_verdict(
        &self,
        proposal: Proposal,
        sample: SegmentSample,
        declared_bps: u64,
    ) -> (r: CandidateVerdict) {
        self.ordinary
    }

    fn reject(&mut self, proposal: Proposal, cause: RejectCause, closed_at_ms: u64) {
    }

    fn commit_candidate(
        &mut self,
        proposal: Proposal,
        sample: SegmentSample,
        observed: ObservedHlsVariant,
        closed_at_ms: u64,
    ) -> (r: bool) {
        if self.commits {
            self.rung = proposal.rung;
            true
        } else {
            false
        }
    }
}

/// A replay gives its recorded answers in order, one for each segment and each of them once, and
/// holds once they are given. It changes its rung for a candidate that takes over, and for nothing
/// else.
pub proof fn law_replay_gives_its_answers_in_order(
    s: Replay,
    sample: SegmentSample,
    active: ObservedHlsVariant,
    proposal: Proposal,
    cause: RejectCause,
    budget_ms: i64,
    at: u64,
)
    requires
        s.answered < usize::MAX,
    ensures
        ({
            let (next, decision) = Replay::after_segment(s, sample, at);
            &&& s.answered < s.decisions@.len() ==> decision == s.decisions@[s.answered as int]
                && next.answered == s.answered + 1
            &&& s.answered >= s.decisions@.len() ==> decision == Decision::Hold && next.answered
                == s.answered
            &&& Replay::playing(next) == Replay::playing(s)
            &&& next.decisions == s.decisions
        }),
        Replay::playing(Replay::after_variant(s, active, at)) == Replay::playing(s),
        Replay::playing(Replay::after_reject(s, proposal, cause, at)) == Replay::playing(s),
        Replay::playing(Replay::after_arming(s, proposal, budget_ms).0) == Replay::playing(s),
        ({
            let (next, accepted) = Replay::after_commit(s, proposal, sample, active, at);
            &&& accepted == s.commits
            &&& accepted ==> Replay::playing(next) == proposal.rung
            &&& !accepted ==> Replay::playing(next) == Replay::playing(s)
            &&& next.answered == s.answered
        }),
{
}

} // verus!
