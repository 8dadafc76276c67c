//! A per-provider circuit breaker: consecutive transient failures open the circuit, a cool-down
//! lets a single probe through, a success closes it again.
//!
//! Time is a parameter: every operation that reads the clock takes `now_ms`, milliseconds on a
//! monotonic clock chosen by the caller.
use vstd::prelude::*;

use crate::text::str_equal;

verus! {

/// The state of one provider's circuit.
#[derive(Debug, Clone, Copy, PartialEq, Eq, Structural)]
pub enum CircuitBreakerState {
    Closed,
    Open,
    HalfOpen,
}

/// The circuit of one provider.
#[derive(Debug, Clone, Copy)]
pub struct ProviderCircuit {
    pub state: CircuitBreakerState,
    pub consecutive_failures: u32,
    pub open_until: Option<u64>,
    pub half_open_probe_active: bool,
}

/// One provider and its circuit.
#[derive(Debug)]
pub struct CircuitEntry {
    pub provider: String,
    pub circuit: ProviderCircuit,
}

/// The circuits of all providers seen so far, with the threshold and cool-down they share.
#[derive(Debug)]
pub struct ProviderCircuitBreaker {
    failure_threshold: u32,
    open_duration_ms: u64,
    circuits: Vec<CircuitEntry>,
}

/// The circuit of a provider seen for the first time.
pub open spec fn fresh_circuit() -> ProviderCircuit {
    ProviderCircuit {
        state: CircuitBreakerState::Closed,
        consecutive_failures: 0,
        open_until: None,
        half_open_probe_active: false,
    }
}

/// The circuit that an operation starts from: the recorded one, or a fresh one.
pub open spec fn current_or_fresh(c: Option<ProviderCircuit>) -> ProviderCircuit {
    match c {
        Some(c) => c,
        None => fresh_circuit(),
    }
}

/// `a + b`, saturating at `u64::MAX`.
pub open spec fn sat_add_u64(a: u64, b: u64) -> u64 {
    if a + b > u64::MAX {
        u64::MAX
    } else {
        (a + b) as u64
    }
}

/// Whether a call may go out, and the circuit afterwards.
pub open spec fn allow_step(c: ProviderCircuit, now: u64) -> (bool, ProviderCircuit) {
    match c.state {
        CircuitBreakerState::Closed => (true, c),
        CircuitBreakerState::HalfOpen => if c.half_open_probe_active {
            (false, c)
        } else {
            (true, ProviderCircuit { half_open_probe_active: true, ..c })
        },
        CircuitBreakerState::Open => match c.open_until {
            Some(until) => if now >= until {
                (
                    true,
                    ProviderCircuit {
                        state: CircuitBreakerState::HalfOpen,
                        half_open_probe_active: true,
                        ..c
                    },
                )
            } else {
                (false, c)
            },
            None => (false, c),
        },
    }
}

/// The circuit after a transient failure.
pub open spec fn failure_step(c: ProviderCircuit, threshold: u32, duration: u64, now: u64) -> ProviderCircuit {
    if c.state == CircuitBreakerState::HalfOpen {
        ProviderCircuit {
            state: CircuitBreakerState::Open,
            consecutive_failures: threshold,
            open_until: Some(sat_add_u64(now, duration)),
            half_open_probe_active: false,
        }
    } else {
        let failures: u32 = if c.consecutive_failures == u32::MAX {
            u32::MAX
        } else {
            (c.consecutive_failures + 1) as u32
        };
        if failures >= threshold {
            ProviderCircuit {
                state: CircuitBreakerState::Open,
                consecutive_failures: failures,
                open_until: Some(sat_add_u64(now, duration)),
                half_open_probe_active: false,
            }
        } else {
            ProviderCircuit {
                consecutive_failures: failures,
                half_open_probe_active: false,
                ..c
            }
        }
    }
}

/// The circuit after the probe is released without an outcome.
pub open spec fn release_step(c: ProviderCircuit) -> ProviderCircuit {
    ProviderCircuit { half_open_probe_active: false, ..c }
}

/// The circuit recorded for `key` among `entries`.
pub open spec fn entries_circuit(entries: Seq<CircuitEntry>, key: Seq<char>) -> Option<ProviderCircuit>
    decreases entries.len(),
{
    if entries.len() == 0 {
        None
    } else if entries.last().provider@ == key {
        Some(entries.last().circuit)
    } else {
        entries_circuit(entries.drop_last(), key)
    }
}

/// No provider appears twice.
pub open spec fn distinct_providers(entries: Seq<CircuitEntry>) -> bool {
    forall|i: int, j: int|
        0 <= i < j < entries.len() ==> (#[trigger] entries[i]).provider@ != (#[trigger] entries[j]).provider@
}

proof fn lemma_entries_circuit_at(entries: Seq<CircuitEntry>, i: int)
    requires
        distinct_providers(entries),
        0 <= i < entries.len(),
    ensures
        entries_circuit(entries, entries[i].provider@) == Some(entries[i].circuit),
    decreases entries.len(),
{
    if i < entries.len() - 1 {
        assert(entries.last().provider@ != entries[i].provider@);
        assert(entries.drop_last()[i] == entries[i]);
        lemma_entries_circuit_at(entries.drop_last(), i);
    }
}

proof fn lemma_entries_circuit_absent(entries: Seq<CircuitEntry>, key: Seq<char>)
    requires
        forall|i: int| 0 <= i < entries.len() ==> (#[trigger] entries[i]).provider@ != key,
    ensures
        entries_circuit(entries, key) is None,
    decreases entries.len(),
{
    if entries.len() > 0 {
        assert(entries.last() == entries[entries.len() - 1]);
        assert forall|i: int| 0 <= i < entries.drop_last().len() implies (
        #[trigger] entries.drop_last()[i]).provider@ != key by {
            assert(entries.drop_last()[i] == entries[i]);
        }
        lemma_entries_circuit_absent(entries.drop_last(), key);
    }
}

proof fn lemma_entries_circuit_present(entries: Seq<CircuitEntry>, key: Seq<char>)
    requires
        entries_circuit(entries, key) is Some,
    ensures
        exists|i: int| 0 <= i < entries.len() && (#[trigger] entries[i]).provider@ == key,
    decreases entries.len(),
{
    if entries.last().provider@ == key {
        assert(entries[entries.len() - 1].provider@ == key);
    } else {
        lemma_entries_circuit_present(entries.drop_last(), key);
        let i = choose|i: int|
            0 <= i < entries.drop_last().len() && (#[trigger] entries.drop_last()[i]).provider@ == key;
        assert(entries[i] == entries.drop_last()[i]);
    }
}

impl ProviderCircuitBreaker {
    /// The number of consecutive failures that opens a circuit.
    pub closed spec fn threshold(&self) -> u32 {
        self.failure_threshold
    }

    /// How long an opened circuit refuses calls, in milliseconds.
    pub closed spec fn duration_ms(&self) -> u64 {
        self.open_duration_ms
    }

    /// The circuit recorded for a provider, if the breaker has seen it.
    pub closed spec fn circuit_of(&self, provider: Seq<char>) -> Option<ProviderCircuit> {
        entries_circuit(self.circuits@, provider)
    }

    /// The breaker's internal consistency: a positive threshold, each provider recorded once.
    pub closed spec fn wf(&self) -> bool {
        &&& self.failure_threshold >= 1
        &&& distinct_providers(self.circuits@)
    }

    /// A breaker with the given threshold (at least 1) and cool-down, with no circuit yet.
    pub fn new(failure_threshold: u32, open_duration_secs: u64) -> (r: Self)
        ensures
            r.wf(),
            r.threshold() == if failure_threshold >= 1 {
                failure_threshold
            } else {
                1
            },
            r.duration_ms() == (if open_duration_secs * 1000 > u64::MAX {
                u64::MAX
            } else {
                (open_duration_secs * 1000) as u64
            }),
            forall|p: Seq<char>| r.circuit_of(p) is None,
    {
        let threshold = if failure_threshold >= 1 {
            failure_threshold
        } else {
            1
        };
        let duration = if open_duration_secs <= u64::MAX / 1000 {
            open_duration_secs * 1000
        } else {
            u64::MAX
        };
        ProviderCircuitBreaker {
            failure_threshold: threshold,
            open_duration_ms: duration,
            circuits: Vec::new(),
        }
    }

    /// The position of a provider's circuit, if it has one.
    fn position(&self, provider: &str) -> (r: Option<usize>)
        requires
            self.wf(),
        ensures
            match r {
                Some(i) => i < self.circuits@.len() && self.circuits@[i as int].provider@
                    == provider@ && self.circuit_of(provider@) == Some(
                    self.circuits@[i as int].circuit,
                ),
                None => self.circuit_of(provider@) is None && forall|i: int|
                    0 <= i < self.circuits@.len() ==> (#[trigger] self.circuits@[i]).provider@
                        != provider@,
            },
    {
        let n = self.circuits.len();
        let mut i: usize = 0;
        while i < n
            invariant
                n == self.circuits@.len(),
                self.wf(),
                i <= n,
                forall|j: int| 0 <= j < i ==> (#[trigger] self.circuits@[j]).provider@ != provider@,
            decreases n - i,
        {
            if str_equal(self.circuits[i].provider.as_str(), provider) {
                proof {
                    lemma_entries_circuit_at(self.circuits@, i as int);
                }
                return Some(i);
            }
            i = i + 1;
        }
        proof {
            lemma_entries_circuit_absent(self.circuits@, provider@);
        }
        None
    }

    /// Replaces the circuit of a provider, adding it where it is new.
    fn store(&mut self, provider: &str, circuit: ProviderCircuit)
        requires
            old(self).wf(),
        ensures
            final(self).wf(),
            final(self).threshold() == old(self).threshold(),
            final(self).duration_ms() == old(self).duration_ms(),
            final(self).circuit_of(provider@) == Some(circuit),
            forall|p: Seq<char>| p != provider@ ==> final(self).circuit_of(p) == old(self).circuit_of(p),
    {
        let ghost before = self.circuits@;
        match self.position(provider) {
            Some(i) => {
                let name = self.circuits[i].provider.clone();
                self.circuits.set(i, CircuitEntry { provider: name, circuit });
                proof {
                    let after = self.circuits@;
                    assert(distinct_providers(after)) by {
                        assert forall|a: int, b: int| 0 <= a < b < after.len() implies (
                        #[trigger] after[a]).provider@ != (#[trigger] after[b]).provider@ by {
                            assert(before[a].provider@ != before[b].provider@);
                        }
                    }
                    lemma_entries_circuit_at(after, i as int);
                    assert forall|p: Seq<char>| p != provider@ implies entries_circuit(after, p)
                        == entries_circuit(before, p) by {
                        lemma_circuit_update_other(before, i as int, circuit, p);
                    }
                }
            },
            None => {
                self.circuits.push(CircuitEntry { provider: provider.to_owned(), circuit });
                proof {
                    let after = self.circuits@;
                    assert(after.drop_last() =~= before);
                    assert(distinct_providers(after)) by {
                        assert forall|a: int, b: int| 0 <= a < b < after.len() implies (
                        #[trigger] after[a]).provider@ != (#[trigger] after[b]).provider@ by {
                            if b < before.len() {
                                assert(before[a].provider@ != before[b].provider@);
                            } else {
                                assert(after[a] == before[a]);
                            }
                        }
                    }
                }
            },
        }
    }

    /// Whether a call to the provider may go out at `now_ms`. A closed circuit lets every call
    /// through; an open one refuses calls until its cool-down has elapsed, then lets one probe
    /// through and turns half-open; a half-open one lets no other call through while its probe is
    /// out.
    pub fn allows_call(&mut self, provider: &str, now_ms: u64) -> (r: bool)
        requires
            old(self).wf(),
        ensures
            final(self).wf(),
            final(self).threshold() == old(self).threshold(),
            final(self).duration_ms() == old(self).duration_ms(),
            r == allow_step(current_or_fresh(old(self).circuit_of(provider@)), now_ms).0,
            final(self).circuit_of(provider@) == Some(
                allow_step(current_or_fresh(old(self).circuit_of(provider@)), now_ms).1,
            ),
            forall|p: Seq<char>| p != provider@ ==> final(self).circuit_of(p) == old(self).circuit_of(p),
    {
        let mut c = match self.position(provider) {
            Some(i) => self.circuits[i].circuit,
            None => ProviderCircuit {
                state: CircuitBreakerState::Closed,
                consecutive_failures: 0,
                open_until: None,
                half_open_probe_active: false,
            },
        };
        let allowed = match c.state {
            CircuitBreakerState::Closed => true,
            CircuitBreakerState::HalfOpen => {
                if c.half_open_probe_active {
                    false
                } else {
                    c.half_open_probe_active = true;
                    true
                }
            },
            CircuitBreakerState::Open => match c.open_until {
                Some(until) => {
                    if now_ms >= until {
                        c.state = CircuitBreakerState::HalfOpen;
                        c.half_open_probe_active = true;
                        true
                    } else {
                        false
                    }
                },
                None => false,
            },
        };
        self.store(provider, c);
        allowed
    }

    /// Closes the provider's circuit and forgets its failures; a provider never seen stays unseen.
    pub fn record_success(&mut self, provider: &str)
        requires
            old(self).wf(),
        ensures
            final(self).wf(),
            final(self).threshold() == old(self).threshold(),
            final(self).duration_ms() == old(self).duration_ms(),
            final(self).circuit_of(provider@) == (if old(self).circuit_of(provider@) is Some {
                Some(fresh_circuit())
            } else {
                None
            }),
            forall|p: Seq<char>| p != provider@ ==> final(self).circuit_of(p) == old(self).circuit_of(p),
    {
        if self.position(provider).is_some() {
            self.store(
                provider,
                ProviderCircuit {
                    state: CircuitBreakerState::Closed,
                    consecutive_failures: 0,
                    open_until: None,
                    half_open_probe_active: false,
                },
            );
        }
    }

    /// Counts a transient failure at `now_ms`: a half-open circuit opens again at once, a closed
    /// one opens when its consecutive failures reach the threshold; an opened circuit refuses
    /// calls for the cool-down.
    pub fn record_transient_failure(&mut self, provider: &str, now_ms: u64)
        requires
            old(self).wf(),
        ensures
            final(self).wf(),
            final(self).threshold() == old(self).threshold(),
            final(self).duration_ms() == old(self).duration_ms(),
            final(self).circuit_of(provider@) == Some(
                failure_step(
                    current_or_fresh(old(self).circuit_of(provider@)),
                    old(self).threshold(),
                    old(self).duration_ms(),
                    now_ms,
                ),
            ),
            forall|p: Seq<char>| p != provider@ ==> final(self).circuit_of(p) == old(self).circuit_of(p),
    {
        let mut c = match self.position(provider) {
            Some(i) => self.circuits[i].circuit,
            None => ProviderCircuit {
                state: CircuitBreakerState::Closed,
                consecutive_failures: 0,
                open_until: None,
                half_open_probe_active: false,
            },
        };
        c.half_open_probe_active = false;
        if c.state == CircuitBreakerState::HalfOpen {
            c.state = CircuitBreakerState::Open;
            c.open_until = Some(now_ms.saturating_add(self.open_duration_ms));
            c.consecutive_failures = self.failure_threshold;
        } else {
            c.consecutive_failures = c.consecutive_failures.saturating_add(1);
            if c.consecutive_failures >= self.failure_threshold {
                c.state = CircuitBreakerState::Open;
                c.open_until = Some(now_ms.saturating_add(self.open_duration_ms));
            }
        }
        self.store(provider, c);
    }

    /// Frees the half-open probe of a provider without recording an outcome.
    pub fn release_half_open_probe(&mut self, provider: &str)
        requires
            old(self).wf(),
        ensures
            final(self).wf(),
            final(self).threshold() == old(self).threshold(),
            final(self).duration_ms() == old(self).duration_ms(),
            final(self).circuit_of(provider@) == (match old(self).circuit_of(provider@) {
                Some(c) => Some(release_step(c)),
                None => None,
            }),
            forall|p: Seq<char>| p != provider@ ==> final(self).circuit_of(p) == old(self).circuit_of(p),
    {
        match self.position(provider) {
            Some(i) => {
                let mut c = self.circuits[i].circuit;
                c.half_open_probe_active = false;
                self.store(provider, c);
            },
            None => {},
        }
    }

    /// Every provider seen so far with the state of its circuit, each provider once.
    pub fn snapshot(&self) -> (r: Vec<(String, CircuitBreakerState)>)
        requires
            self.wf(),
        ensures
            forall|i: int|
                0 <= i < r@.len() ==> ((#[trigger] self.circuit_of(r@[i].0@)) matches Some(c) && c.state
                    == r@[i].1),
            forall|i: int, j: int| 0 <= i < j < r@.len() ==> (#[trigger] r@[i]).0@ != (#[trigger] r@[j]).0@,
            forall|p: Seq<char>|
                (#[trigger] self.circuit_of(p)) is Some ==> exists|i: int| 0 <= i < r@.len() && r@[i].0@ == p,
    {
        let n = self.circuits.len();
        let mut out: Vec<(String, CircuitBreakerState)> = Vec::new();
        let mut i: usize = 0;
        while i < n
            invariant
                n == self.circuits@.len(),
                self.wf(),
                i <= n,
                out@.len() == i,
                forall|j: int|
                    0 <= j < i ==> (#[trigger] out@[j]).0@ == self.circuits@[j].provider@ && out@[j].1
                        == self.circuits@[j].circuit.state,
            decreases n - i,
        {
            out.push((self.circuits[i].provider.clone(), self.circuits[i].circuit.state));
            i = i + 1;
        }
        proof {
            assert forall|i: int| 0 <= i < out@.len() implies ((#[trigger] self.circuit_of(
                out@[i].0@,
            )) matches Some(c) && c.state == out@[i].1) by {
                lemma_entries_circuit_at(self.circuits@, i);
            }
            assert forall|i: int, j: int| 0 <= i < j < out@.len() implies (#[trigger] out@[i]).0@
                != (#[trigger] out@[j]).0@ by {
                assert(self.circuits@[i].provider@ != self.circuits@[j].provider@);
            }
            assert forall|p: Seq<char>| (#[trigger] self.circuit_of(p)) is Some implies exists|i: int|
                0 <= i < out@.len() && out@[i].0@ == p by {
                lemma_entries_circuit_present(self.circuits@, p);
                let i = choose|i: int|
                    0 <= i < self.circuits@.len() && (#[trigger] self.circuits@[i]).provider@ == p;
                assert(out@[i].0@ == p);
            }
        }
        out
    }
}

proof fn lemma_circuit_update_other(
    entries: Seq<CircuitEntry>,
    i: int,
    circuit: ProviderCircuit,
    key: Seq<char>,
)
    requires
        0 <= i < entries.len(),
        entries[i].provider@ != key,
    ensures
        entries_circuit(
            entries.update(i, CircuitEntry { provider: entries[i].provider, circuit }),
            key,
        ) == entries_circuit(entries, key),
    decreases entries.len(),
{
    let updated = entries.update(i, CircuitEntry { provider: entries[i].provider, circuit });
    if i == entries.len() - 1 {
        assert(updated.drop_last() =~= entries.drop_last());
    } else {
        assert(updated.last() == entries.last());
        assert(updated.drop_last() =~= entries.drop_last().update(
            i,
            CircuitEntry { provider: entries[i].provider, circuit },
        ));
        lemma_circuit_update_other(entries.drop_last(), i, circuit, key);
    }
}

/// The circuit after `n` transient failures recorded at the same instant.
pub open spec fn repeated_failures(c: ProviderCircuit, n: nat, threshold: u32, duration: u64, now: u64) -> ProviderCircuit
    decreases n,
{
    if n == 0 {
        c
    } else {
        failure_step(repeated_failures(c, (n - 1) as nat, threshold, duration, now), threshold, duration, now)
    }
}

/// Fewer consecutive failures than the threshold leave a fresh circuit closed, and calls go out;
/// the failure that reaches the threshold opens it.
pub proof fn law_threshold_opens(n: nat, threshold: u32, duration: u64, now: u64, later: u64)
    requires
        threshold >= 1,
        n <= threshold,
    ensures
        n < threshold ==> repeated_failures(fresh_circuit(), n, threshold, duration, now).state
            == CircuitBreakerState::Closed,
        n < threshold ==> repeated_failures(fresh_circuit(), n, threshold, duration, now).consecutive_failures
            == n,
        n < threshold ==> allow_step(repeated_failures(fresh_circuit(), n, threshold, duration, now), later).0,
        n == threshold ==> repeated_failures(fresh_circuit(), n, threshold, duration, now).state
            == CircuitBreakerState::Open,
        n == threshold && later < sat_add_u64(now, duration) ==> !allow_step(
            repeated_failures(fresh_circuit(), n, threshold, duration, now),
            later,
        ).0,
    decreases n,
{
    if n > 0 {
        law_threshold_opens((n - 1) as nat, threshold, duration, now, later);
    }
}

/// A closed or half-open circuit that a failure at `now` opens refuses every call until its
/// cool-down has elapsed.
pub proof fn law_open_refuses_until_cooldown(
    c: ProviderCircuit,
    threshold: u32,
    duration: u64,
    now: u64,
    later: u64,
)
    requires
        c.state != CircuitBreakerState::Open,
        failure_step(c, threshold, duration, now).state == CircuitBreakerState::Open,
        later < sat_add_u64(now, duration),
    ensures
        !allow_step(failure_step(c, threshold, duration, now), later).0,
{
}

/// A half-open circuit lets exactly one probe through: the next call is refused.
pub proof fn law_half_open_single_probe(c: ProviderCircuit, now: u64, later: u64)
    requires
        c.state == CircuitBreakerState::HalfOpen,
        !c.half_open_probe_active,
    ensures
        allow_step(c, now).0,
        !allow_step(allow_step(c, now).1, later).0,
{
}

/// Once the cool-down has elapsed, an open circuit lets one probe through and turns half-open;
/// the next call is refused while the probe is out.
pub proof fn law_cooldown_admits_one_probe(c: ProviderCircuit, now: u64, later: u64)
    requires
        c.state == CircuitBreakerState::Open,
        c.open_until matches Some(until) && now >= until,
    ensures
        allow_step(c, now).0,
        allow_step(c, now).1.state == CircuitBreakerState::HalfOpen,
        !allow_step(allow_step(c, now).1, later).0,
{
}

/// A failure of the half-open probe opens the circuit again for a full cool-down.
pub proof fn law_half_open_failure_reopens(c: ProviderCircuit, threshold: u32, duration: u64, now: u64)
    requires
        c.state == CircuitBreakerState::HalfOpen,
    ensures
        failure_step(c, threshold, duration, now).state == CircuitBreakerState::Open,
        failure_step(c, threshold, duration, now).open_until == Some(sat_add_u64(now, duration)),
        !failure_step(c, threshold, duration, now).half_open_probe_active,
{
}

/// After a success is recorded, the next call to that provider goes out, whatever the circuit
/// was before.
pub proof fn law_success_closes(before: Option<ProviderCircuit>, now: u64)
    ensures
        allow_step(
            current_or_fresh(
                if before is Some {
                    Some(fresh_circuit())
                } else {
                    None
                },
            ),
            now,
        ).0,
        allow_step(
            current_or_fresh(
                if before is Some {
                    Some(fresh_circuit())
                } else {
                    None
                },
            ),
            now,
        ).1 == fresh_circuit(),
{
}

} // verus!
