//! Decisions of a throttle: which caller runs the operation, how long it waits
//! first, and who receives the result.
//!
//! Instants and durations are `u64` ticks of a monotonic clock chosen by the
//! caller. The interval is measured from the start of one execution to the
//! start of the next, where an execution starts at the instant its driver is
//! told to wait for (when it begins running, not when it was asked for).
//! Callers that arrive while an execution is pending or in flight join it
//! instead of starting their own.

use vstd::prelude::*;

use crate::waiters::{lemma_others_absent, others, without};

verus! {

/// The one execution that is pending or in flight.
pub enum RunningState<T> {
    /// Not finished yet: the waiters that joined it, in order of arrival.
    Running(Vec<u64>),
    /// Finished with this value; kept until the throttle settles.
    Finished(T),
}

/// The state of a throttle at any given moment.
pub enum ThrottleState<T> {
    /// Nothing has been run yet.
    NeverRun,
    /// Not running; the last execution started at `last_run`.
    Idle { last_run: u64 },
    /// An execution is pending or in flight; it starts (or started) at `start`.
    Running { start: u64, batch: RunningState<T> },
}

/// What a caller that asks for the next value has to do.
pub enum Decision<T> {
    /// Drive a new execution: wait `delay` ticks, run the operation, then
    /// `publish` its value and `settle`.
    Drive { delay: u64 },
    /// Wait for the value of the execution in flight.
    Wait,
    /// The execution in flight has just finished: here is a clone of its value.
    Ready(T),
}

/// Abstract form of [`RunningState`].
pub enum BatchModel<T> {
    Pending(Seq<u64>),
    Finished(T),
}

/// Abstract form of [`ThrottleState`].
pub enum PhaseModel<T> {
    NeverRun,
    Idle { last_run: u64 },
    Running { start: u64, batch: BatchModel<T> },
}

/// Abstract form of [`Decision`]; `Ready` carries the finished value itself.
pub enum DecisionModel<T> {
    Drive { delay: u64 },
    Wait,
    Ready(T),
}

/// Abstract state of a throttle coordinator.
pub struct ThrottleModel<T> {
    pub interval: u64,
    pub phase: PhaseModel<T>,
}

/// The earliest instant at which the execution after one started at
/// `last_run` may start; instants past the end of the clock are clamped to it.
pub open spec fn earliest_start(last_run: u64, interval: u64) -> u64 {
    if last_run + interval > u64::MAX {
        u64::MAX
    } else {
        (last_run + interval) as u64
    }
}

pub open spec fn max_u64(a: u64, b: u64) -> u64 {
    if a >= b {
        a
    } else {
        b
    }
}

impl<T> ThrottleModel<T> {
    /// A caller asks for a value at instant `now` and would wait under `waiter`.
    pub open spec fn decide(self, now: u64, waiter: u64) -> (ThrottleModel<T>, DecisionModel<T>) {
        match self.phase {
            PhaseModel::NeverRun => (
                ThrottleModel {
                    phase: PhaseModel::Running { start: now, batch: BatchModel::Pending(seq![]) },
                    ..self
                },
                DecisionModel::Drive { delay: 0 },
            ),
            PhaseModel::Idle { last_run } => {
                let start = max_u64(now, earliest_start(last_run, self.interval));
                (
                    ThrottleModel {
                        phase: PhaseModel::Running { start, batch: BatchModel::Pending(seq![]) },
                        ..self
                    },
                    DecisionModel::Drive { delay: (start - now) as u64 },
                )
            },
            PhaseModel::Running { start, batch } => match batch {
                BatchModel::Pending(ws) => (
                    ThrottleModel {
                        phase: PhaseModel::Running {
                            start,
                            batch: BatchModel::Pending(ws.push(waiter)),
                        },
                        ..self
                    },
                    DecisionModel::Wait,
                ),
                BatchModel::Finished(v) => (self, DecisionModel::Ready(v)),
            },
        }
    }

    pub open spec fn is_pending(self) -> bool {
        self.phase is Running && self.phase->batch is Pending
    }

    pub open spec fn is_finished(self) -> bool {
        self.phase is Running && self.phase->batch is Finished
    }

    pub open spec fn is_running(self) -> bool {
        self.phase is Running
    }

    /// The waiters of the pending execution (empty when none is pending).
    pub open spec fn waiters(self) -> Seq<u64> {
        if self.is_pending() {
            self.phase->batch->Pending_0
        } else {
            seq![]
        }
    }

    /// The pending execution finishes with `value`: every waiter is to be
    /// given a clone of it.
    pub open spec fn publish(self, value: T) -> (ThrottleModel<T>, Seq<u64>)
        recommends
            self.is_pending(),
    {
        (
            ThrottleModel {
                phase: PhaseModel::Running {
                    start: self.phase->start,
                    batch: BatchModel::Finished(value),
                },
                ..self
            },
            self.waiters(),
        )
    }

    /// The finished execution is discarded; its start is remembered.
    pub open spec fn settle(self) -> ThrottleModel<T>
        recommends
            self.is_finished(),
    {
        ThrottleModel { phase: PhaseModel::Idle { last_run: self.phase->start }, ..self }
    }

    /// A waiter gives up before the pending execution finishes.
    pub open spec fn withdraw(self, waiter: u64) -> ThrottleModel<T> {
        if self.is_pending() {
            ThrottleModel {
                phase: PhaseModel::Running {
                    start: self.phase->start,
                    batch: BatchModel::Pending(others(self.waiters(), waiter)),
                },
                ..self
            }
        } else {
            self
        }
    }

    /// The driver goes away without publishing: its waiters are released
    /// (returned, to be told to ask again) and the execution counts as
    /// started at its planned start.
    pub open spec fn abandon(self) -> (ThrottleModel<T>, Seq<u64>)
        recommends
            self.is_running(),
    {
        (
            ThrottleModel { phase: PhaseModel::Idle { last_run: self.phase->start }, ..self },
            self.waiters(),
        )
    }
}

impl<T> ThrottleModel<T> {
    /// Callers asking one after another at instant `now`, the i-th under
    /// `waiters[i]`: the final state and each caller's decision.
    pub open spec fn decide_all(self, now: u64, waiters: Seq<u64>) -> (ThrottleModel<T>, Seq<DecisionModel<T>>)
        decreases waiters.len(),
    {
        if waiters.len() == 0 {
            (self, seq![])
        } else {
            let (s, ds) = self.decide_all(now, waiters.drop_last());
            let (s2, d) = s.decide(now, waiters.last());
            (s2, ds.push(d))
        }
    }
}

proof fn lemma_decide_all_fresh<T>(interval: u64, now: u64, waiters: Seq<u64>)
    requires
        waiters.len() >= 1,
    ensures
        ({
            let (s, ds) = (ThrottleModel::<T> { interval, phase: PhaseModel::NeverRun }).decide_all(
                now,
                waiters,
            );
            &&& ds.len() == waiters.len()
            &&& ds[0] == DecisionModel::<T>::Drive { delay: 0 }
            &&& forall|i: int| 1 <= i < ds.len() ==> ds[i] == DecisionModel::<T>::Wait
            &&& s == ThrottleModel::<T> {
                interval,
                phase: PhaseModel::Running {
                    start: now,
                    batch: BatchModel::Pending(waiters.subrange(1, waiters.len() as int)),
                },
            }
        }),
    decreases waiters.len(),
{
    let fresh = ThrottleModel::<T> { interval, phase: PhaseModel::NeverRun };
    if waiters.len() == 1 {
        assert(waiters.drop_last() =~= seq![]);
        assert(waiters.subrange(1, 1) =~= seq![]);
        let (s, ds) = fresh.decide_all(now, waiters);
        assert(ds =~= seq![DecisionModel::<T>::Drive { delay: 0 }]);
    } else {
        lemma_decide_all_fresh::<T>(interval, now, waiters.drop_last());
        assert(waiters.drop_last().subrange(1, waiters.len() - 1).push(waiters.last())
            =~= waiters.subrange(1, waiters.len() as int));
        let (s0, ds0) = fresh.decide_all(now, waiters.drop_last());
        let (s, ds) = fresh.decide_all(now, waiters);
        assert(ds == ds0.push(DecisionModel::<T>::Wait));
        assert forall|i: int| 1 <= i < ds.len() implies ds[i] == DecisionModel::<T>::Wait by {
            if i < ds0.len() {
                assert(ds[i] == ds0[i]);
            }
        }
        assert(ds[0] == ds0[0]);
    }
}

/// Any number of callers asking a fresh throttle at the same instant share a
/// single execution: the first drives it at once, every other one waits for
/// it, and publishing the value hands it to exactly those others; settling
/// records that instant as the last start.
pub proof fn lemma_single_execution<T>(interval: u64, now: u64, waiters: Seq<u64>, value: T)
    requires
        waiters.len() >= 1,
    ensures
        ({
            let (s, ds) = (ThrottleModel::<T> { interval, phase: PhaseModel::NeverRun }).decide_all(
                now,
                waiters,
            );
            &&& ds.len() == waiters.len()
            &&& ds[0] == DecisionModel::<T>::Drive { delay: 0 }
            &&& forall|i: int| 1 <= i < ds.len() ==> ds[i] == DecisionModel::<T>::Wait
            &&& s.is_pending()
            &&& s.publish(value).1 == waiters.subrange(1, waiters.len() as int)
            &&& s.publish(value).0.settle().phase == PhaseModel::<T>::Idle { last_run: now }
        }),
{
    lemma_decide_all_fresh::<T>(interval, now, waiters);
}

/// A caller of an idle throttle drives the next execution, which starts no
/// earlier than the interval after the last start (or at the end of the
/// clock) and no earlier than now; it is told to wait exactly until then.
pub proof fn lemma_interval_gating<T>(m: ThrottleModel<T>, now: u64, waiter: u64)
    requires
        m.phase is Idle,
    ensures
        ({
            let (s, d) = m.decide(now, waiter);
            let last_run = m.phase->last_run;
            &&& s.is_pending()
            &&& s.waiters() == Seq::<u64>::empty()
            &&& s.phase->start >= now
            &&& (s.phase->start >= last_run + m.interval || s.phase->start == u64::MAX)
            &&& (s.phase->start == now || s.phase->start == earliest_start(last_run, m.interval))
            &&& d == DecisionModel::<T>::Drive { delay: (s.phase->start - now) as u64 }
        }),
{
}

/// A waiter that gives up before the pending execution finishes does not
/// change what the others receive nor what state publishing leads to; one
/// that was not waiting changes nothing at all.
pub proof fn lemma_withdraw_keeps_others<T>(m: ThrottleModel<T>, waiter: u64, value: T)
    requires
        m.is_pending(),
    ensures
        m.withdraw(waiter).is_pending(),
        m.withdraw(waiter).publish(value).1 == others(m.publish(value).1, waiter),
        m.withdraw(waiter).publish(value).0 == m.publish(value).0,
        !m.waiters().contains(waiter) ==> m.withdraw(waiter) == m,
{
    if !m.waiters().contains(waiter) {
        lemma_others_absent(m.waiters(), waiter);
    }
}

/// A driver that goes away releases every waiter of its execution, so none
/// is left waiting, and the throttle can run again.
pub proof fn lemma_abandon_releases_all<T>(m: ThrottleModel<T>)
    requires
        m.is_pending(),
    ensures
        m.abandon().1 == m.waiters(),
        !m.abandon().0.is_running(),
{
}

pub open spec fn batch_model<T>(b: &RunningState<T>) -> BatchModel<T> {
    match b {
        RunningState::Running(ws) => BatchModel::Pending(ws@),
        RunningState::Finished(v) => BatchModel::Finished(*v),
    }
}

pub open spec fn phase_model<T>(s: &ThrottleState<T>) -> PhaseModel<T> {
    match s {
        ThrottleState::NeverRun => PhaseModel::NeverRun,
        ThrottleState::Idle { last_run } => PhaseModel::Idle { last_run: *last_run },
        ThrottleState::Running { start, batch } => PhaseModel::Running {
            start: *start,
            batch: batch_model(batch),
        },
    }
}

/// A decision handed out matches the model's: the same variant and delay, and
/// a `Ready` value is a clone of the finished value.
pub open spec fn decision_matches<T: Clone>(d: Decision<T>, m: DecisionModel<T>) -> bool {
    match (d, m) {
        (Decision::Drive { delay: a }, DecisionModel::Drive { delay: b }) => a == b,
        (Decision::Wait, DecisionModel::Wait) => true,
        (Decision::Ready(a), DecisionModel::Ready(b)) => cloned(b, a),
        _ => false,
    }
}

/// The bookkeeping of one throttle: its interval and its state.
pub struct ThrottleCoordinator<T> {
    interval: u64,
    state: ThrottleState<T>,
}

impl<T> View for ThrottleCoordinator<T> {
    type V = ThrottleModel<T>;

    closed spec fn view(&self) -> ThrottleModel<T> {
        ThrottleModel { interval: self.interval, phase: phase_model(&self.state) }
    }
}

impl<T: Clone> ThrottleCoordinator<T> {
    /// A throttle that has never run, with the given interval.
    pub fn new(interval: u64) -> (r: Self)
        ensures
            r@ == (ThrottleModel::<T> { interval, phase: PhaseModel::NeverRun }),
    {
        ThrottleCoordinator { interval, state: ThrottleState::NeverRun }
    }

    /// The minimum number of ticks between the starts of two executions.
    pub fn interval(&self) -> (r: u64)
        ensures
            r == self@.interval,
    {
        self.interval
    }

    /// Whether an execution is pending or in flight.
    pub fn is_running(&self) -> (r: bool)
        ensures
            r == self@.is_running(),
    {
        match &self.state {
            ThrottleState::Running { .. } => true,
            _ => false,
        }
    }

    /// Whether an execution is pending and has not finished.
    pub fn is_pending(&self) -> (r: bool)
        ensures
            r == self@.is_pending(),
    {
        match &self.state {
            ThrottleState::Running { batch: RunningState::Running(_), .. } => true,
            _ => false,
        }
    }

    /// Whether the execution in flight has finished and awaits `settle`.
    pub fn is_finished(&self) -> (r: bool)
        ensures
            r == self@.is_finished(),
    {
        match &self.state {
            ThrottleState::Running { batch: RunningState::Finished(_), .. } => true,
            _ => false,
        }
    }

    /// Decide what a caller that asks for a value at instant `now` does. If no
    /// execution is pending or in flight, the caller drives a new one, which
    /// waits until the interval since the last start has passed; otherwise it
    /// joins the one in flight under `waiter`, or takes its value if it has
    /// already finished.
    pub fn decide(&mut self, now: u64, waiter: u64) -> (d: Decision<T>)
        ensures
            final(self)@ == old(self)@.decide(now, waiter).0,
            decision_matches(d, old(self)@.decide(now, waiter).1),
    {
        let mut st = ThrottleState::NeverRun;
        std::mem::swap(&mut st, &mut self.state);
        match st {
            ThrottleState::NeverRun => {
                self.state = ThrottleState::Running {
                    start: now,
                    batch: RunningState::Running(Vec::new()),
                };
                Decision::Drive { delay: 0 }
            },
            ThrottleState::Idle { last_run } => {
                let earliest = if last_run > u64::MAX - self.interval {
                    u64::MAX
                } else {
                    last_run + self.interval
                };
                let start = if now >= earliest {
                    now
                } else {
                    earliest
                };
                self.state = ThrottleState::Running {
                    start,
                    batch: RunningState::Running(Vec::new()),
                };
                Decision::Drive { delay: start - now }
            },
            ThrottleState::Running { start, batch } => match batch {
                RunningState::Running(ws) => {
                    let mut ws = ws;
                    ws.push(waiter);
                    self.state = ThrottleState::Running { start, batch: RunningState::Running(ws) };
                    Decision::Wait
                },
                RunningState::Finished(v) => {
                    let c = v.clone();
                    self.state = ThrottleState::Running { start, batch: RunningState::Finished(v) };
                    Decision::Ready(c)
                },
            },
        }
    }

    /// The pending execution finished with `value`. Returns each waiter
    /// paired with a clone of the value, in order of arrival; the execution
    /// is then finished until `settle`.
    pub fn publish(&mut self, value: T) -> (deliveries: Vec<(u64, T)>)
        requires
            old(self)@.is_pending(),
        ensures
            final(self)@ == old(self)@.publish(value).0,
            deliveries@.len() == old(self)@.publish(value).1.len(),
            forall|i: int|
                #![trigger deliveries@[i]]
                0 <= i < deliveries@.len() ==> {
                    &&& deliveries@[i].0 == old(self)@.publish(value).1[i]
                    &&& cloned(value, deliveries@[i].1)
                },
    {
        let mut st = ThrottleState::NeverRun;
        std::mem::swap(&mut st, &mut self.state);
        match st {
            ThrottleState::Running { start, batch: RunningState::Running(ws) } => {
                let mut deliveries: Vec<(u64, T)> = Vec::new();
                let mut i: usize = 0;
                while i < ws.len()
                    invariant
                        i <= ws.len(),
                        deliveries@.len() == i,
                        forall|j: int|
                            #![trigger deliveries@[j]]
                            0 <= j < i ==> {
                                &&& deliveries@[j].0 == ws@[j]
                                &&& cloned(value, deliveries@[j].1)
                            },
                    decreases ws.len() - i,
                {
                    deliveries.push((ws[i], value.clone()));
                    i = i + 1;
                }
                self.state = ThrottleState::Running { start, batch: RunningState::Finished(value) };
                deliveries
            },
            _ => {
                proof {
                    assert(false);
                }
                Vec::new()
            },
        }
    }

    /// The finished execution is discarded and the throttle becomes idle,
    /// remembering when that execution started.
    pub fn settle(&mut self)
        requires
            old(self)@.is_finished(),
        ensures
            final(self)@ == old(self)@.settle(),
    {
        let start = match &self.state {
            ThrottleState::Running { start, .. } => *start,
            _ => 0,
        };
        self.state = ThrottleState::Idle { last_run: start };
    }

    /// A waiter stops waiting: it is taken off the pending execution, which
    /// goes on unchanged for everyone else.
    pub fn withdraw(&mut self, waiter: u64)
        ensures
            final(self)@ == old(self)@.withdraw(waiter),
    {
        let mut st = ThrottleState::NeverRun;
        std::mem::swap(&mut st, &mut self.state);
        match st {
            ThrottleState::Running { start, batch: RunningState::Running(ws) } => {
                let rest = without(&ws, waiter);
                self.state = ThrottleState::Running { start, batch: RunningState::Running(rest) };
            },
            other => {
                self.state = other;
            },
        }
    }

    /// The driver of the execution in flight went away without publishing.
    /// Returns the waiters that must be released; the throttle becomes idle
    /// as if the execution had started at its planned start.
    pub fn abandon(&mut self) -> (released: Vec<u64>)
        requires
            old(self)@.is_running(),
        ensures
            final(self)@ == old(self)@.abandon().0,
            released@ == old(self)@.abandon().1,
    {
        let mut st = ThrottleState::NeverRun;
        std::mem::swap(&mut st, &mut self.state);
        match st {
            ThrottleState::Running { start, batch } => {
                self.state = ThrottleState::Idle { last_run: start };
                match batch {
                    RunningState::Running(ws) => ws,
                    RunningState::Finished(_) => Vec::new(),
                }
            },
            _ => {
                proof {
                    assert(false);
                }
                Vec::new()
            },
        }
    }
}

} // verus!
