use vstd::prelude::*;

use crate::model::{served_by, Direction, KeyView, MetricKey, ServerDescriptor};
use crate::registry::{after_reset, after_set, Registry};

verus! {

/// Most servers measured in one round, to cap its duration.
pub const MAX_CANDIDATES: usize = 5;

/// Seconds slept between two rounds unless configured otherwise.
pub const DEFAULT_PROBE_INTERVAL_SECS: u64 = 300;

/// TCP port the scrape endpoint listens on unless configured otherwise.
pub const DEFAULT_PORT: u16 = 9100;

/// Why one measurement failed.
#[derive(PartialEq, Eq, Structural, Clone, Copy, Debug)]
pub enum ProbeError {
    /// No connection to the server could be made.
    ConnectFailure,
    /// The transport gave up waiting.
    Timeout,
    /// This one measurement went wrong; the link itself may be fine.
    Other,
}

/// Discovery could not list or rank candidate servers.
#[derive(PartialEq, Eq, Structural, Clone, Copy, Debug)]
pub struct DiscoveryError {}

/// A transport-level failure, after which no data is trusted.
pub open spec fn systemic(e: ProbeError) -> bool {
    e is ConnectFailure || e is Timeout
}

impl ProbeError {
    pub fn is_systemic(&self) -> (r: bool)
        ensures
            r == systemic(*self),
    {
        match self {
            ProbeError::ConnectFailure => true,
            ProbeError::Timeout => true,
            ProbeError::Other => false,
        }
    }
}

/// What a round measures: the first `MAX_CANDIDATES` servers, in discovery order.
pub open spec fn candidates(servers: Seq<ServerDescriptor>) -> Seq<ServerDescriptor> {
    if servers.len() <= MAX_CANDIDATES {
        servers
    } else {
        servers.take(MAX_CANDIDATES as int)
    }
}

/// Keeps the first `MAX_CANDIDATES` servers of the discovery order.
pub fn select_candidates(servers: Vec<ServerDescriptor>) -> (r: Vec<ServerDescriptor>)
    ensures
        r@ == candidates(servers@),
        r@.len() <= MAX_CANDIDATES,
{
    let mut r = servers;
    r.truncate(MAX_CANDIDATES);
    r
}

/// The direction of the `m`-th measurement of a round: download, then upload, per server.
pub open spec fn direction_at(m: int) -> Direction {
    if m % 2 == 0 {
        Direction::Download
    } else {
        Direction::Upload
    }
}

/// The series written by the `m`-th measurement of a round over `servers`.
pub open spec fn target_at(servers: Seq<ServerDescriptor>, m: int) -> KeyView {
    (direction_at(m), servers[m / 2].country@, servers[m / 2].host@)
}

/// The value written for a measurement: the rate, or zero for a failed one.
pub open spec fn written_value(outcome: Result<u64, ProbeError>) -> u64 {
    match outcome {
        Ok(v) => v,
        Err(_) => 0,
    }
}

/// What one measurement does to the registry's contents.
pub open spec fn outcome_effect(
    m: Map<KeyView, u64>,
    key: KeyView,
    outcome: Result<u64, ProbeError>,
) -> Map<KeyView, u64> {
    match outcome {
        Err(e) if systemic(e) => after_reset(m),
        _ => after_set(m, key, written_value(outcome)),
    }
}

/// The outcome is a systemic failure.
pub open spec fn fails_systemically(outcome: Result<u64, ProbeError>) -> bool {
    match outcome {
        Ok(_) => false,
        Err(e) => systemic(e),
    }
}

/// Some measurement of the sequence failed systemically.
pub open spec fn aborted(outcomes: Seq<Result<u64, ProbeError>>) -> bool {
    exists|i: int| 0 <= i < outcomes.len() && #[trigger] fails_systemically(outcomes[i])
}

/// The registry's contents after a round over `servers` has recorded `outcomes`,
/// starting from `m`. Once a measurement has failed systemically, the round is over
/// and nothing later is written.
pub open spec fn round_effect(
    m: Map<KeyView, u64>,
    servers: Seq<ServerDescriptor>,
    outcomes: Seq<Result<u64, ProbeError>>,
) -> Map<KeyView, u64>
    decreases outcomes.len(),
{
    if outcomes.len() == 0 {
        m
    } else {
        let earlier = outcomes.drop_last();
        let prev = round_effect(m, servers, earlier);
        if aborted(earlier) {
            prev
        } else {
            outcome_effect(prev, target_at(servers, outcomes.len() - 1), outcomes.last())
        }
    }
}

/// A round is over once every server has been measured both ways, or once it aborted.
pub open spec fn round_over(servers: Seq<ServerDescriptor>, outcomes: Seq<Result<u64, ProbeError>>) -> bool {
    outcomes.len() >= 2 * servers.len() || aborted(outcomes)
}

/// The registry's contents for a round that has recorded `outcomes`: once every server
/// has been measured without a systemic failure, only the series of its servers are kept.
pub open spec fn round_result(
    m: Map<KeyView, u64>,
    servers: Seq<ServerDescriptor>,
    outcomes: Seq<Result<u64, ProbeError>>,
) -> Map<KeyView, u64> {
    if outcomes.len() >= 2 * servers.len() && !aborted(outcomes) {
        round_effect(m, servers, outcomes).restrict(served_by(servers))
    } else {
        round_effect(m, servers, outcomes)
    }
}

/// The next measurement a round asks for.
#[derive(Debug)]
pub struct Probe {
    /// Position of the server among the round's candidates.
    pub server_index: usize,
    pub direction: Direction,
    pub key: MetricKey,
}

/// One probe round in progress: the servers to measure and what has been recorded.
pub struct Round {
    servers: Vec<ServerDescriptor>,
    recorded: usize,
    stopped: bool,
    outcomes: Ghost<Seq<Result<u64, ProbeError>>>,
    start: Ghost<Map<KeyView, u64>>,
}

impl Round {
    pub closed spec fn servers(&self) -> Seq<ServerDescriptor> {
        self.servers@
    }

    /// Outcomes recorded so far, in order.
    pub closed spec fn outcomes(&self) -> Seq<Result<u64, ProbeError>> {
        self.outcomes@
    }

    /// The registry's contents when the round began.
    pub closed spec fn start(&self) -> Map<KeyView, u64> {
        self.start@
    }

    pub closed spec fn well_formed(&self) -> bool {
        &&& self.recorded == self.outcomes@.len()
        &&& self.stopped == aborted(self.outcomes@)
        &&& self.recorded <= 2 * self.servers@.len()
        &&& self.servers@.len() <= MAX_CANDIDATES
    }

    pub open spec fn finished(&self) -> bool {
        round_over(self.servers(), self.outcomes())
    }

    /// Starts a round from what discovery returned. A failed discovery starts none,
    /// and the registry keeps its values.
    pub fn begin(discovered: Result<Vec<ServerDescriptor>, DiscoveryError>, registry: &Registry) -> (r: Option<Round>)
        ensures
            discovered is Err <==> r is None,
            r matches Some(round) ==> {
                &&& round.well_formed()
                &&& round.servers() == candidates(discovered->Ok_0@)
                &&& round.outcomes() == Seq::<Result<u64, ProbeError>>::empty()
                &&& round.start() == registry@
            },
    {
        match discovered {
            Err(_) => None,
            Ok(servers) => {
                let servers = select_candidates(servers);
                proof {
                    assert(!aborted(Seq::<Result<u64, ProbeError>>::empty()));
                }
                Some(Round {
                    servers,
                    recorded: 0,
                    stopped: false,
                    outcomes: Ghost(Seq::empty()),
                    start: Ghost(registry@),
                })
            },
        }
    }

    pub fn is_finished(&self) -> (r: bool)
        requires
            self.well_formed(),
        ensures
            r == self.finished(),
    {
        self.stopped || self.recorded >= 2 * self.servers.len()
    }

    /// The measurement to make next, or `None` once the round is over.
    pub fn next_probe(&self) -> (r: Option<Probe>)
        requires
            self.well_formed(),
        ensures
            r is None <==> self.finished(),
            r matches Some(p) ==> {
                &&& (p.server_index as int) == self.outcomes().len() / 2
                &&& p.server_index < self.servers().len()
                &&& p.direction == direction_at(self.outcomes().len() as int)
                &&& p.key@ == target_at(self.servers(), self.outcomes().len() as int)
            },
    {
        if self.is_finished() {
            return None;
        }
        let server_index = self.recorded / 2;
        let direction = if self.recorded % 2 == 0 {
            Direction::Download
        } else {
            Direction::Upload
        };
        let srv = &self.servers[server_index];
        let key = MetricKey::new(direction, srv.country.clone(), srv.host.clone());
        Some(Probe { server_index, direction, key })
    }

    /// Ends a round that is over: one that measured every server without a systemic
    /// failure drops the series of servers it did not measure.
    pub fn conclude(&self, registry: &mut Registry)
        requires
            self.well_formed(),
            self.finished(),
            old(registry).well_formed(),
        ensures
            final(registry).well_formed(),
            final(registry)@ == (if aborted(self.outcomes()) {
                old(registry)@
            } else {
                old(registry)@.restrict(served_by(self.servers()))
            }),
    {
        if !self.stopped {
            registry.retain_servers(&self.servers);
        }
    }

    /// Records the outcome of the measurement that `next_probe` asked for: a rate or an
    /// isolated failure writes its series (a failure as zero); a systemic failure clears
    /// the registry and ends the round.
    pub fn record(&mut self, registry: &mut Registry, outcome: Result<u64, ProbeError>)
        requires
            old(self).well_formed(),
            !old(self).finished(),
            old(registry).well_formed(),
            old(registry)@ == round_effect(old(self).start(), old(self).servers(), old(self).outcomes()),
        ensures
            final(self).well_formed(),
            final(registry).well_formed(),
            final(self).servers() == old(self).servers(),
            final(self).start() == old(self).start(),
            final(self).outcomes() == old(self).outcomes().push(outcome),
            fails_systemically(outcome) ==> final(self).finished(),
            final(registry)@ == round_effect(final(self).start(), final(self).servers(), final(self).outcomes()),
            final(registry)@ == outcome_effect(
                old(registry)@,
                target_at(old(self).servers(), old(self).outcomes().len() as int),
                outcome,
            ),
    {
        let probe = match self.next_probe() {
            Some(p) => p,
            None => {
                return;
            },
        };
        let ghost before = self.outcomes@;
        let ghost after = before.push(outcome);
        let systemic_failure = match outcome {
            Ok(v) => {
                registry.set(probe.key, v);
                false
            },
            Err(e) => {
                if e.is_systemic() {
                    registry.reset_all();
                    true
                } else {
                    registry.set(probe.key, 0);
                    false
                }
            },
        };
        self.recorded = self.recorded + 1;
        self.stopped = systemic_failure;
        self.outcomes = Ghost(after);
        proof {
            assert(after.drop_last() == before);
            assert(after.last() == outcome);
            if systemic_failure {
                assert(fails_systemically(after[after.len() - 1]));
            } else {
                assert forall|i: int| 0 <= i < after.len() implies !fails_systemically(#[trigger] after[i]) by {
                    if i < before.len() {
                        assert(after[i] == before[i]);
                    }
                }
            }
        }
    }
}


/// Where the probe loop stands.
pub enum Phase {
    /// Waiting out the interval between rounds.
    Sleeping,
    /// Waiting for discovery to list candidate servers.
    Discovering,
    /// A round is under way and waits for a measurement.
    Measuring(Round),
}

/// What the loop hands back to the scheduler.
pub enum Event {
    /// The interval has passed.
    Woke,
    /// Discovery has answered.
    Discovered(Result<Vec<ServerDescriptor>, DiscoveryError>),
    /// The measurement last asked for has answered.
    Measured(Result<u64, ProbeError>),
}

/// What the scheduler asks the loop to do next.
pub enum Action {
    Discover,
    Measure(Probe),
    /// Sleep this many seconds, then hand back `Event::Woke`.
    Sleep(u64),
}

/// The probe loop's decisions: when to discover, what to measure, when to sleep.
pub struct Scheduler {
    pub interval_secs: u64,
    pub phase: Phase,
}

impl Scheduler {
    pub open spec fn well_formed(&self) -> bool {
        self.phase matches Phase::Measuring(r) ==> r.well_formed() && !r.finished()
    }

    /// The registry holds what the round under way has written on top of where it started.
    pub open spec fn tracks(&self, m: Map<KeyView, u64>) -> bool {
        self.phase matches Phase::Measuring(r) ==> m == round_effect(r.start(), r.servers(), r.outcomes())
    }

    pub fn new(interval_secs: u64) -> (r: Scheduler)
        ensures
            r.well_formed(),
            r.interval_secs == interval_secs,
            r.phase is Sleeping,
    {
        Scheduler { interval_secs, phase: Phase::Sleeping }
    }

    /// Measures the next probe of `round`, or concludes it and sleeps once it is over.
    fn continue_round(&mut self, registry: &mut Registry, round: Round) -> (action: Action)
        requires
            round.well_formed(),
            old(registry).well_formed(),
            old(registry)@ == round_effect(round.start(), round.servers(), round.outcomes()),
        ensures
            final(self).interval_secs == old(self).interval_secs,
            final(registry).well_formed(),
            final(registry)@ == round_result(round.start(), round.servers(), round.outcomes()),
            round.finished() ==> final(self).phase is Sleeping && action == Action::Sleep(old(self).interval_secs),
            !round.finished() ==> {
                &&& final(self).phase matches Phase::Measuring(r) && r == round
                &&& action matches Action::Measure(p) && p.key@ == target_at(round.servers(), round.outcomes().len() as int)
            },
    {
        match round.next_probe() {
            Some(p) => {
                self.phase = Phase::Measuring(round);
                Action::Measure(p)
            },
            None => {
                round.conclude(registry);
                self.phase = Phase::Sleeping;
                Action::Sleep(self.interval_secs)
            },
        }
    }

    /// Takes one event and says what to do next. Waking starts discovery; a failed
    /// discovery sleeps with the registry untouched; each measurement is recorded as
    /// `Round::record` says, and the round goes on until it is over, then sleeps the
    /// same interval whatever happened. An event that does not fit the phase changes
    /// nothing and asks again for what is pending.
    pub fn step(&mut self, registry: &mut Registry, event: Event) -> (action: Action)
        requires
            old(self).well_formed(),
            old(registry).well_formed(),
            old(self).tracks(old(registry)@),
        ensures
            final(self).well_formed(),
            final(registry).well_formed(),
            final(self).tracks(final(registry)@),
            final(self).interval_secs == old(self).interval_secs,
            action matches Action::Sleep(s) ==> s == old(self).interval_secs && final(self).phase is Sleeping,
            action is Discover <==> final(self).phase is Discovering,
            action is Measure <==> final(self).phase is Measuring,
            action matches Action::Measure(p) ==> (final(self).phase matches Phase::Measuring(r)
                && p.key@ == target_at(r.servers(), r.outcomes().len() as int)),
            old(self).phase is Sleeping && event is Woke ==> action is Discover,
            old(self).phase is Discovering && event is Discovered && event->Discovered_0 is Err ==> action is Sleep,
            !(old(self).phase is Measuring && event is Measured) && !(old(self).phase is Discovering
                && event is Discovered && event->Discovered_0 is Ok) ==> final(registry)@ == old(registry)@,
            old(self).phase is Discovering && event is Discovered && event->Discovered_0 is Ok ==> {
                let found = candidates(event->Discovered_0->Ok_0@);
                &&& final(registry)@ == round_result(old(registry)@, found, Seq::empty())
                &&& (action is Measure <==> found.len() > 0)
                &&& final(self).phase is Measuring ==> {
                    let r = final(self).phase->Measuring_0;
                    &&& r.servers() == found
                    &&& r.outcomes() == Seq::<Result<u64, ProbeError>>::empty()
                    &&& r.start() == old(registry)@
                }
            },
            old(self).phase is Measuring && event is Measured ==> {
                let r = old(self).phase->Measuring_0;
                let o = event->Measured_0;
                &&& final(registry)@ == round_result(r.start(), r.servers(), r.outcomes().push(o))
                &&& (action is Sleep <==> round_over(r.servers(), r.outcomes().push(o)))
                &&& fails_systemically(o) ==> action is Sleep
                &&& final(self).phase is Measuring ==> {
                    let next = final(self).phase->Measuring_0;
                    &&& next.servers() == r.servers()
                    &&& next.outcomes() == r.outcomes().push(o)
                    &&& next.start() == r.start()
                }
            },
    {
        let mut phase = Phase::Sleeping;
        std::mem::swap(&mut phase, &mut self.phase);
        match phase {
            Phase::Sleeping => match event {
                Event::Woke => {
                    self.phase = Phase::Discovering;
                    Action::Discover
                },
                _ => Action::Sleep(self.interval_secs),
            },
            Phase::Discovering => match event {
                Event::Discovered(found) => match Round::begin(found, registry) {
                    Some(round) => self.continue_round(registry, round),
                    None => Action::Sleep(self.interval_secs),
                },
                _ => {
                    self.phase = Phase::Discovering;
                    Action::Discover
                },
            },
            Phase::Measuring(round) => {
                let mut round = round;
                match event {
                    Event::Measured(outcome) => {
                        round.record(registry, outcome);
                        self.continue_round(registry, round)
                    },
                    _ => self.continue_round(registry, round),
                }
            },
        }
    }
}

} // verus!
