use vstd::prelude::*;

verus! {

/// Compute budget of one call. Every storage step of a bounded operation burns
/// `step_cost` units; `used` never wraps.
#[derive(Clone, Copy, Debug, PartialEq, Eq, Structural)]
pub struct GasMeter {
    pub prepaid: u64,
    pub used: u64,
    pub step_cost: u64,
}

impl GasMeter {
    /// The meter after one step has been burnt.
    pub open spec fn burned(self) -> GasMeter {
        GasMeter {
            prepaid: self.prepaid,
            used: if self.used + self.step_cost > u64::MAX {
                u64::MAX
            } else {
                (self.used + self.step_cost) as u64
            },
            step_cost: self.step_cost,
        }
    }

    /// The meter after `n` steps.
    pub open spec fn burned_times(self, n: nat) -> GasMeter
        decreases n,
    {
        if n == 0 {
            self
        } else {
            self.burned().burned_times((n - 1) as nat)
        }
    }

    /// Gas that is left of what was prepaid.
    pub open spec fn remaining(self) -> int {
        if self.prepaid >= self.used {
            self.prepaid - self.used
        } else {
            0
        }
    }

    /// How many of at most `n` steps are taken when one stops after the first
    /// step that leaves `used` above `max_gas`.
    pub open spec fn steps_within(self, max_gas: u64, n: nat) -> nat
        decreases n,
    {
        if n == 0 {
            0
        } else if self.burned().used > max_gas {
            1
        } else {
            1 + self.burned().steps_within(max_gas, (n - 1) as nat)
        }
    }

    pub fn new(prepaid: u64, used: u64, step_cost: u64) -> (r: GasMeter)
        ensures
            r == (GasMeter { prepaid, used, step_cost }),
    {
        GasMeter { prepaid, used, step_cost }
    }

    pub fn prepaid_gas(&self) -> (r: u64)
        ensures
            r == self.prepaid,
    {
        self.prepaid
    }

    pub fn used_gas(&self) -> (r: u64)
        ensures
            r == self.used,
    {
        self.used
    }

    pub fn remaining_gas(&self) -> (r: u64)
        ensures
            r == self.remaining(),
    {
        if self.prepaid >= self.used {
            self.prepaid - self.used
        } else {
            0
        }
    }

    /// Burns one step.
    pub fn burn(&mut self)
        ensures
            *final(self) == old(self).burned(),
    {
        self.used = self.used.saturating_add(self.step_cost);
    }
}

/// `steps_within` never counts more than the steps offered, and counts at
/// least one when any is offered.
pub proof fn lemma_steps_within_bounds(meter: GasMeter, max_gas: u64, n: nat)
    ensures
        meter.steps_within(max_gas, n) <= n,
        n > 0 ==> meter.steps_within(max_gas, n) >= 1,
    decreases n,
{
    if n > 0 && meter.burned().used <= max_gas {
        lemma_steps_within_bounds(meter.burned(), max_gas, (n - 1) as nat);
    }
}

} // verus!
