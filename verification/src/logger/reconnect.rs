//! How long to wait before the sink is tried again after it could not be reached.
//!
//! The pause starts at a base and doubles with every failure in a row, up
//! to a ceiling. One success makes it start over.

use vstd::prelude::*;

verus! {

/// The smaller of two pauses.
pub open spec fn shorter(a: nat, b: nat) -> nat {
    if a <= b {
        a
    } else {
        b
    }
}

/// The pause after `failures` failures in a row have gone before.
pub open spec fn pause_after(base: nat, ceiling: nat, failures: nat) -> nat
    decreases failures,
{
    if failures == 0 {
        shorter(base, ceiling)
    } else {
        shorter(2 * pause_after(base, ceiling, (failures - 1) as nat), ceiling)
    }
}

/// Mathematical state of a backoff.
pub struct BackoffView {
    pub base_ns: nat,
    pub ceiling_ns: nat,
    pub failures: nat,
}

/// The pause before the next attempt to reach the sink.
pub struct Backoff {
    base_ns: u64,
    ceiling_ns: u64,
    next_ns: u64,
    failures: Ghost<nat>,
}

impl View for Backoff {
    type V = BackoffView;

    closed spec fn view(&self) -> BackoffView {
        BackoffView {
            base_ns: self.base_ns as nat,
            ceiling_ns: self.ceiling_ns as nat,
            failures: self.failures@,
        }
    }
}

impl Backoff {
    #[verifier::type_invariant]
    spec fn inv(self) -> bool {
        self.next_ns == pause_after(
            self.base_ns as nat,
            self.ceiling_ns as nat,
            self.failures@,
        )
    }

    /// A backoff that starts at `base_ns` and never exceeds `ceiling_ns`.
    pub fn new(base_ns: u64, ceiling_ns: u64) -> (r: Backoff)
        ensures
            r@ == (BackoffView {
                base_ns: base_ns as nat,
                ceiling_ns: ceiling_ns as nat,
                failures: 0,
            }),
    {
        let first = if base_ns <= ceiling_ns {
            base_ns
        } else {
            ceiling_ns
        };
        Backoff { base_ns, ceiling_ns, next_ns: first, failures: Ghost(0) }
    }

    /// The backoff used in production: from 100 ms up to 5 s.
    pub fn standard() -> (r: Backoff)
        ensures
            r@ == (BackoffView { base_ns: 100_000_000, ceiling_ns: 5_000_000_000, failures: 0 }),
    {
        Backoff::new(100_000_000, 5_000_000_000)
    }

    /// Books one more failure and answers how long to wait before the next attempt.
    pub fn next_delay(&mut self) -> (r: u64)
        ensures
            r == pause_after(old(self)@.base_ns, old(self)@.ceiling_ns, old(self)@.failures),
            final(self)@ == (BackoffView { failures: old(self)@.failures + 1, ..old(self)@ }),
    {
        proof {
            use_type_invariant(&*self);
            lemma_pause_bounded(
                self.base_ns as nat,
                self.ceiling_ns as nat,
                self.failures@,
            );
        }
        let delay = self.next_ns;
        let doubled = if delay <= self.ceiling_ns / 2 {
            2 * delay
        } else {
            self.ceiling_ns
        };
        let next = if doubled <= self.ceiling_ns {
            doubled
        } else {
            self.ceiling_ns
        };
        *self = Backoff {
            base_ns: self.base_ns,
            ceiling_ns: self.ceiling_ns,
            next_ns: next,
            failures: Ghost((self.failures@ + 1) as nat),
        };
        delay
    }

    /// Starts over after a success: the next pause is the first one again.
    pub fn reset(&mut self)
        ensures
            final(self)@ == (BackoffView { failures: 0, ..old(self)@ }),
    {
        let first = if self.base_ns <= self.ceiling_ns {
            self.base_ns
        } else {
            self.ceiling_ns
        };
        *self = Backoff {
            base_ns: self.base_ns,
            ceiling_ns: self.ceiling_ns,
            next_ns: first,
            failures: Ghost(0),
        };
    }
}

/// No pause exceeds the ceiling.
pub proof fn lemma_pause_bounded(base: nat, ceiling: nat, failures: nat)
    ensures
        pause_after(base, ceiling, failures) <= ceiling,
    decreases failures,
{
    if failures > 0 {
        lemma_pause_bounded(base, ceiling, (failures - 1) as nat);
    }
}

/// Pauses never get shorter while failures go on.
pub proof fn lemma_pause_grows(base: nat, ceiling: nat, earlier: nat, later: nat)
    requires
        earlier <= later,
    ensures
        pause_after(base, ceiling, earlier) <= pause_after(base, ceiling, later),
    decreases later - earlier,
{
    if earlier < later {
        lemma_pause_grows(base, ceiling, earlier, (later - 1) as nat);
        lemma_pause_bounded(base, ceiling, (later - 1) as nat);
    }
}

} // verus!
