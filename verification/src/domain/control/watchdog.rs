//! The deadline behind every issued refresh or buy.

use crate::domain::control::model::{
    escalated, fresh_wait, regranted, Awaited, Proof, EXPECT_MS,
};
use vstd::prelude::*;

verus! {

impl Proof {
    /// How long this proof may take.
    pub fn window_ms(self) -> (window: u64)
        ensures
            window == EXPECT_MS,
    {
        match self {
            Proof::Snapshot => EXPECT_MS,
            Proof::Purchase => EXPECT_MS,
        }
    }
}

/// One millisecond past the deadline of rung `rung` of a ladder that started at
/// zero; rungs count from one.
pub open spec fn rung_passed(rung: int) -> int {
    rung * EXPECT_MS + 1
}

/// One millisecond past the deadline of rung `rung` of a ladder that started at
/// zero: the first timeout, the re-issue, and the halt come at one, two and
/// three. Each escalation grants a full window, so rungs are exact multiples.
pub fn past_rung(rung: u64) -> (at: u64)
    requires
        rung_passed(rung as int) <= u64::MAX,
    ensures
        at == rung_passed(rung as int),
{
    rung * EXPECT_MS + 1
}

/// What the watchdog waits on, carrying the rung that was already climbed.
#[derive(Debug, Clone, Copy, PartialEq, Eq, Structural)]
pub struct Expectation {
    proof: Proof,
    deadline_ms: u64,
    attempt: u8,
}

impl View for Expectation {
    type V = Awaited;

    closed spec fn view(&self) -> Awaited {
        Awaited {
            proof: self.proof,
            deadline: self.deadline_ms as int,
            attempt: self.attempt as int,
        }
    }
}

impl Expectation {
    /// A rung-zero snapshot expectation with a full deadline.
    pub fn snapshot(now_ms: u64) -> (expectation: Self)
        requires
            now_ms + EXPECT_MS <= u64::MAX,
        ensures
            expectation@ == fresh_wait(Proof::Snapshot, now_ms),
    {
        Self::armed(Proof::Snapshot, now_ms)
    }

    /// A rung-zero purchase expectation with a full deadline.
    pub fn purchase(now_ms: u64) -> (expectation: Self)
        requires
            now_ms + EXPECT_MS <= u64::MAX,
        ensures
            expectation@ == fresh_wait(Proof::Purchase, now_ms),
    {
        Self::armed(Proof::Purchase, now_ms)
    }

    /// A rung-zero expectation with a full deadline.
    pub fn armed(proof: Proof, now_ms: u64) -> (expectation: Self)
        requires
            now_ms + EXPECT_MS <= u64::MAX,
        ensures
            expectation@ == fresh_wait(proof, now_ms),
    {
        Expectation { proof, deadline_ms: now_ms + proof.window_ms(), attempt: 0 }
    }

    /// Same proof and rung, fresh full deadline.
    pub fn regrant(self, now_ms: u64) -> (expectation: Self)
        requires
            now_ms + EXPECT_MS <= u64::MAX,
        ensures
            expectation@ == regranted(self@, now_ms),
    {
        Expectation {
            proof: self.proof,
            deadline_ms: now_ms + self.proof.window_ms(),
            attempt: self.attempt,
        }
    }

    /// One rung higher, fresh full deadline.
    pub fn escalate(self, now_ms: u64) -> (expectation: Self)
        requires
            now_ms + EXPECT_MS <= u64::MAX,
        ensures
            expectation@ == escalated(self@, now_ms),
    {
        Expectation {
            proof: self.proof,
            deadline_ms: now_ms + self.proof.window_ms(),
            attempt: self.attempt.saturating_add(1),
        }
    }

    /// The proof that is awaited.
    pub fn proof_owed(self) -> (proof: Proof)
        ensures
            proof == self@.proof,
    {
        self.proof
    }

    /// The rung that was climbed.
    pub fn rung(self) -> (rung: u8)
        ensures
            rung == self@.attempt,
    {
        self.attempt
    }

    /// Whether the deadline has come.
    pub fn is_due(self, now_ms: u64) -> (due: bool)
        ensures
            due == (now_ms >= self@.deadline),
    {
        now_ms >= self.deadline_ms
    }
}

/// Every deadline can be told on the clock.
pub proof fn a_deadline_is_on_the_clock(expectation: Expectation)
    ensures
        expectation@.deadline <= u64::MAX,
{
}

} // verus!
