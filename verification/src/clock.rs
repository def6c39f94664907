//! The fixed-step clock that turns elapsed time into update permits.

use vstd::prelude::*;

verus! {

/// The number of nanoseconds in a second.
pub const NANOS_PER_SECOND: u64 = 1_000_000_000;

/// A fixed-timestep accumulator.
///
/// It keeps the time that has passed and has not yet been paid for by an
/// update: always less than one step.
#[derive(Clone, Copy, PartialEq, Eq, Debug)]
pub struct SimulationClock {
    step: u64,
    residual: u64,
}

/// What a clock is: the length of its step and the time it holds, in
/// nanoseconds.
pub ghost struct ClockModel {
    pub step: int,
    pub residual: int,
}

impl ClockModel {
    /// The time held is less than one step.
    pub open spec fn wf(self) -> bool {
        0 <= self.residual < self.step
    }
}

/// The length in nanoseconds of one of `fps` steps a second, rounded down.
pub open spec fn step_nanos(fps: u32) -> int {
    NANOS_PER_SECOND as int / fps as int
}

/// Quotient and remainder add up to what was divided.
proof fn lemma_division_exact(total: int, step: int)
    by (nonlinear_arith)
    requires
        0 <= total,
        0 < step,
    ensures
        (total / step) * step + total % step == total,
        0 <= total % step < step,
        0 <= total / step,
        (total / step) * step <= total,
        total / step <= total,
{
}

impl View for SimulationClock {
    type V = ClockModel;

    closed spec fn view(&self) -> ClockModel {
        ClockModel { step: self.step as int, residual: self.residual as int }
    }
}

impl SimulationClock {
    #[verifier::type_invariant]
    spec fn inv(self) -> bool {
        self@.wf()
    }

    /// A clock of `fps` steps a second that holds no time.
    pub fn new(fps: u32) -> (clock: SimulationClock)
        requires
            0 < fps <= NANOS_PER_SECOND,
        ensures
            clock@.step == step_nanos(fps),
            clock@.step * fps <= NANOS_PER_SECOND < (clock@.step + 1) * fps,
            clock@.residual == 0,
            clock@.wf(),
    {
        let step: u64 = NANOS_PER_SECOND / (fps as u64);
        assert(step > 0 && step * fps <= 1_000_000_000 < (step + 1) * fps) by (nonlinear_arith)
            requires
                0 < fps <= 1_000_000_000u64,
                step == 1_000_000_000u64 / (fps as u64),
        ;
        SimulationClock { step, residual: 0 }
    }

    /// Adds `elapsed` nanoseconds and takes out every whole step.
    ///
    /// Returns the number of updates that are due: one for each whole step
    /// in the time held. What is left stays for the next call.
    pub fn tick(&mut self, elapsed: u64) -> (permits: u64)
        ensures
            permits == (old(self)@.residual + elapsed) / old(self)@.step,
            final(self)@.residual == (old(self)@.residual + elapsed) % old(self)@.step,
            final(self)@.step == old(self)@.step,
            permits * old(self)@.step + final(self)@.residual == old(self)@.residual + elapsed,
            final(self)@.wf(),
    {
        proof {
            use_type_invariant(&*self);
        }
        let total: u128 = (self.residual as u128) + (elapsed as u128);
        let step: u128 = self.step as u128;
        proof {
            lemma_division_exact(total as int, step as int);
            lemma_permits_fit(self.residual as int, elapsed as int, step as int);
        }
        let permits: u128 = total / step;
        let residual: u128 = total % step;
        *self = SimulationClock { step: self.step, residual: residual as u64 };
        permits as u64
    }

    /// The time held, in nanoseconds.
    pub fn residual(&self) -> (residual: u64)
        ensures
            residual == self@.residual,
    {
        self.residual
    }

    /// The length of a step, in nanoseconds.
    pub fn step(&self) -> (step: u64)
        ensures
            step == self@.step,
            step > 0,
    {
        proof {
            use_type_invariant(self);
        }
        self.step
    }
}

/// A clock that holds less than a step gives at most one permit for each
/// nanosecond that is added.
proof fn lemma_permits_fit(residual: int, elapsed: int, step: int)
    by (nonlinear_arith)
    requires
        0 <= residual < step,
        0 <= elapsed,
    ensures
        (residual + elapsed) / step <= elapsed,
{
}

} // verus!
