//! The circuit breaker over discovery and key fetches.
//!
//! Moments are nanoseconds since some fixed moment, as the caller's clock
//! counts them.

use vstd::prelude::*;

verus! {

/// A second in nanoseconds.
pub const NANOS_PER_SEC: u64 = 1_000_000_000;

/// Consecutive failures after which the circuit opens.
pub const JWKS_CB_FAIL_THRESHOLD: u32 = 5;

/// How long the circuit stays open.
pub const JWKS_CB_OPEN_SECS: u64 = 30;

/// How long the circuit stays open, in nanoseconds.
pub const JWKS_CB_OPEN_NANOS: u64 = JWKS_CB_OPEN_SECS * NANOS_PER_SEC;

/// Circuit breaker over key refreshes. After [`JWKS_CB_FAIL_THRESHOLD`]
/// consecutive failures it opens for [`JWKS_CB_OPEN_SECS`], falling back to
/// cached keys rather than hammering an unhealthy endpoint.
#[derive(Debug, Clone, Copy, PartialEq, Eq, Structural)]
pub enum JwksCircuit {
    Closed { consecutive_failures: u32 },
    Open { until: u64 },
}

/// Whether the clock can still count to the end of an open period that begins
/// at `now`.
pub open spec fn countable(now: u64) -> bool {
    now + JWKS_CB_OPEN_NANOS <= u64::MAX
}

/// The circuit as it starts, and after a success.
pub open spec fn closed_circuit() -> JwksCircuit {
    JwksCircuit::Closed { consecutive_failures: 0 }
}

impl JwksCircuit {
    /// A closed circuit has seen fewer failures than open it.
    pub open spec fn wf(self) -> bool {
        self matches JwksCircuit::Closed { consecutive_failures } ==> consecutive_failures
            < JWKS_CB_FAIL_THRESHOLD
    }

    /// The circuit after a failure at `now`.
    pub open spec fn after_failure(self, now: u64) -> JwksCircuit {
        match self {
            JwksCircuit::Closed { consecutive_failures } if consecutive_failures + 1
                < JWKS_CB_FAIL_THRESHOLD => {
                JwksCircuit::Closed { consecutive_failures: (consecutive_failures + 1) as u32 }
            },
            _ => JwksCircuit::Open { until: (now + JWKS_CB_OPEN_NANOS) as u64 },
        }
    }

    /// Whether a fetch may be tried at `now`.
    pub open spec fn admits(self, now: u64) -> bool {
        self matches JwksCircuit::Open { until } ==> now >= until
    }

    /// The circuit after it was asked at `now` whether a fetch may be tried.
    pub open spec fn after_attempt(self, now: u64) -> JwksCircuit {
        if self is Open && self.admits(now) {
            closed_circuit()
        } else {
            self
        }
    }

    /// The circuit after failures at these moments, and nothing between them.
    pub open spec fn after_failures(self, moments: Seq<u64>) -> JwksCircuit
        decreases moments.len(),
    {
        if moments.len() == 0 {
            self
        } else {
            self.after_failures(moments.drop_last()).after_failure(moments.last())
        }
    }

    /// Takes note of a fetch that succeeded.
    pub fn record_success(&mut self)
        ensures
            *final(self) == closed_circuit(),
    {
        *self = JwksCircuit::Closed { consecutive_failures: 0 };
    }

    /// Takes note of a fetch that failed at `now`.
    pub fn record_failure(&mut self, now: u64)
        requires
            countable(now),
            *old(self) matches JwksCircuit::Closed { consecutive_failures } ==> consecutive_failures
                < u32::MAX,
        ensures
            *final(self) == old(self).after_failure(now),
    {
        let new = match self {
            JwksCircuit::Closed { consecutive_failures } => {
                let n: u32 = *consecutive_failures + 1;
                if n >= JWKS_CB_FAIL_THRESHOLD {
                    JwksCircuit::Open { until: now + JWKS_CB_OPEN_NANOS }
                } else {
                    JwksCircuit::Closed { consecutive_failures: n }
                }
            },
            JwksCircuit::Open { .. } => JwksCircuit::Open { until: now + JWKS_CB_OPEN_NANOS },
        };
        *self = new;
    }

    /// Whether a fetch may be tried at `now`. Once the open period is over the
    /// circuit closes.
    pub fn allow_attempt(&mut self, now: u64) -> (r: bool)
        ensures
            r == old(self).admits(now),
            *final(self) == old(self).after_attempt(now),
    {
        let over = match self {
            JwksCircuit::Closed { .. } => return true,
            JwksCircuit::Open { until } => now >= *until,
        };
        if over {
            *self = JwksCircuit::Closed { consecutive_failures: 0 };
        }
        over
    }
}

/// Failures in a row, from a closed circuit that has seen none, leave it
/// closed while there are fewer than the threshold, and open it, until the
/// open period after the last of them is over, from the threshold on.
pub proof fn failures_open_the_circuit(moments: Seq<u64>)
    ensures
        moments.len() < JWKS_CB_FAIL_THRESHOLD ==> closed_circuit().after_failures(moments) == (
        JwksCircuit::Closed { consecutive_failures: moments.len() as u32 }),
        moments.len() >= JWKS_CB_FAIL_THRESHOLD ==> closed_circuit().after_failures(moments) == (
        JwksCircuit::Open { until: (moments.last() + JWKS_CB_OPEN_NANOS) as u64 }),
    decreases moments.len(),
{
    if moments.len() > 0 {
        failures_open_the_circuit(moments.drop_last());
    }
}

/// A circuit that a failure at `at` opened admits nothing for the open
/// period, and a fetch as soon as the period is over.
pub proof fn open_period(circuit: JwksCircuit, at: u64, now: u64)
    requires
        countable(at),
        circuit.after_failure(at) is Open,
    ensures
        circuit.after_failure(at).admits(now) <==> now >= at + JWKS_CB_OPEN_NANOS,
        now >= at + JWKS_CB_OPEN_NANOS ==> circuit.after_failure(at).after_attempt(now)
            == closed_circuit(),
        now < at + JWKS_CB_OPEN_NANOS ==> circuit.after_failure(at).after_attempt(now)
            == circuit.after_failure(at),
{
}

/// Whatever happens to it, a circuit that is in order stays in order.
pub proof fn circuit_stays_in_order(circuit: JwksCircuit, now: u64)
    requires
        circuit.wf(),
    ensures
        circuit.after_failure(now).wf(),
        circuit.after_attempt(now).wf(),
        closed_circuit().wf(),
{
}

/// Fewer than five failures in a row leave fetches admitted. Five or more keep
/// them from being tried for thirty seconds after the last, and no longer; a
/// success, or the end of that period, wipes them out.
pub proof fn five_failures_bar_fetches_for_thirty_seconds(moments: Seq<u64>, now: u64)
    requires
        moments.len() > 0 ==> moments.last() + 30_000_000_000 <= u64::MAX,
    ensures
        closed_circuit().after_failures(moments).admits(now) <==> moments.len() < 5 || now
            >= moments.last() + 30_000_000_000,
        moments.len() >= 5 && now >= moments.last() + 30_000_000_000
            ==> closed_circuit().after_failures(moments).after_attempt(now) == closed_circuit(),
        closed_circuit().after_attempt(now) == closed_circuit(),
{
    failures_open_the_circuit(moments);
}

/// Whatever a circuit is, it admits fetches at every moment from thirty seconds
/// after its last failure on.
pub proof fn no_circuit_stays_open_for_more_than_thirty_seconds(
    circuit: JwksCircuit,
    at: u64,
    now: u64,
)
    requires
        at + 30_000_000_000 <= now,
    ensures
        circuit.after_failure(at).admits(now),
        circuit.after_failure(at).after_attempt(now).admits(now),
{
}

/// Being asked changes nothing for a circuit but to close it once its period
/// is over.
pub proof fn being_asked_only_closes(circuit: JwksCircuit, now: u64)
    ensures
        !circuit.admits(now) ==> circuit.after_attempt(now) == circuit,
        circuit is Closed ==> circuit.admits(now) && circuit.after_attempt(now) == circuit,
        circuit is Open && circuit.admits(now) ==> circuit.after_attempt(now) == (
        JwksCircuit::Closed { consecutive_failures: 0 }),
        closed_circuit() == (JwksCircuit::Closed { consecutive_failures: 0 }),
{
}

} // verus!
