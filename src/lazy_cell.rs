//! Decisions of a lazily initialised shared cell: the first caller runs the
//! factory, callers arriving meanwhile wait for that attempt, a success is
//! kept for good and a failure leaves the cell empty for the next caller to
//! try again.

use vstd::prelude::*;

use crate::waiters::{lemma_others_absent, others, without};

verus! {

/// The state of a lazily initialised cell.
pub enum CellState<S> {
    /// No value, and no attempt in flight.
    Empty,
    /// An attempt is in flight; these waiters joined it, in order of arrival.
    Initializing(Vec<u64>),
    /// The value, computed once and kept.
    Initialized(S),
}

/// What a caller that asks for the value has to do.
#[derive(PartialEq, Eq, Structural)]
pub enum Access {
    /// The value is there: read it with `get`.
    Ready,
    /// Run the factory, then report `succeed` or `fail`.
    Drive,
    /// Wait for the outcome of the attempt in flight.
    Wait,
}

/// Abstract form of [`CellState`].
pub enum CellModel<S> {
    Empty,
    Initializing(Seq<u64>),
    Initialized(S),
}

impl<S> CellModel<S> {
    /// A caller asks for the value and would wait under `waiter`.
    pub open spec fn begin(self, waiter: u64) -> (CellModel<S>, Access) {
        match self {
            CellModel::Empty => (CellModel::Initializing(seq![]), Access::Drive),
            CellModel::Initializing(ws) => (CellModel::Initializing(ws.push(waiter)), Access::Wait),
            CellModel::Initialized(v) => (self, Access::Ready),
        }
    }

    /// The waiters of the attempt in flight (empty when there is none).
    pub open spec fn waiters(self) -> Seq<u64> {
        match self {
            CellModel::Initializing(ws) => ws,
            _ => seq![],
        }
    }

    /// The attempt in flight produced `value`: it is kept, and every waiter is
    /// to be told.
    pub open spec fn succeed(self, value: S) -> (CellModel<S>, Seq<u64>)
        recommends
            self is Initializing,
    {
        (CellModel::Initialized(value), self.waiters())
    }

    /// The attempt in flight failed: nothing is kept, and every waiter is to
    /// be given the error.
    pub open spec fn fail(self) -> (CellModel<S>, Seq<u64>)
        recommends
            self is Initializing,
    {
        (CellModel::Empty, self.waiters())
    }

    /// A waiter gives up before the attempt in flight ends.
    pub open spec fn withdraw(self, waiter: u64) -> CellModel<S> {
        match self {
            CellModel::Initializing(ws) => CellModel::Initializing(others(ws, waiter)),
            _ => self,
        }
    }

    /// Callers asking one after another, the i-th under `waiters[i]`: the
    /// final state and what each caller was told.
    pub open spec fn begin_all(self, waiters: Seq<u64>) -> (CellModel<S>, Seq<Access>)
        decreases waiters.len(),
    {
        if waiters.len() == 0 {
            (self, seq![])
        } else {
            let (s, ds) = self.begin_all(waiters.drop_last());
            let (s2, d) = s.begin(waiters.last());
            (s2, ds.push(d))
        }
    }
}

/// The coordination state of one lazily initialised value.
pub struct LazySharedCell<S> {
    state: CellState<S>,
}

impl<S> View for LazySharedCell<S> {
    type V = CellModel<S>;

    closed spec fn view(&self) -> CellModel<S> {
        match &self.state {
            CellState::Empty => CellModel::Empty,
            CellState::Initializing(ws) => CellModel::Initializing(ws@),
            CellState::Initialized(v) => CellModel::Initialized(*v),
        }
    }
}

impl<S> LazySharedCell<S> {
    /// An empty cell.
    pub fn new() -> (r: Self)
        ensures
            r@ == CellModel::<S>::Empty,
    {
        LazySharedCell { state: CellState::Empty }
    }

    /// Whether the value has been computed.
    pub fn is_initialized(&self) -> (r: bool)
        ensures
            r == self@ is Initialized,
    {
        match &self.state {
            CellState::Initialized(_) => true,
            _ => false,
        }
    }

    /// Whether an attempt is in flight.
    pub fn is_initializing(&self) -> (r: bool)
        ensures
            r == self@ is Initializing,
    {
        match &self.state {
            CellState::Initializing(_) => true,
            _ => false,
        }
    }

    /// The value, once computed.
    pub fn get(&self) -> (r: Option<&S>)
        ensures
            self@ is Initialized ==> r == Some(&self@->Initialized_0),
            !(self@ is Initialized) ==> r is None,
    {
        match &self.state {
            CellState::Initialized(v) => Some(v),
            _ => None,
        }
    }

    /// Decide what a caller that asks for the value does: read it, run the
    /// factory (no attempt being in flight), or wait under `waiter` for the
    /// attempt in flight.
    pub fn begin(&mut self, waiter: u64) -> (a: Access)
        ensures
            (final(self)@, a) == old(self)@.begin(waiter),
    {
        let mut st = CellState::Empty;
        std::mem::swap(&mut st, &mut self.state);
        match st {
            CellState::Empty => {
                self.state = CellState::Initializing(Vec::new());
                Access::Drive
            },
            CellState::Initializing(ws) => {
                let mut ws = ws;
                ws.push(waiter);
                self.state = CellState::Initializing(ws);
                Access::Wait
            },
            CellState::Initialized(v) => {
                self.state = CellState::Initialized(v);
                Access::Ready
            },
        }
    }

    /// The attempt in flight produced `value`, which is kept from now on.
    /// Returns the waiters to tell, in order of arrival.
    pub fn succeed(&mut self, value: S) -> (notified: Vec<u64>)
        requires
            old(self)@ is Initializing,
        ensures
            (final(self)@, notified@) == old(self)@.succeed(value),
    {
        let mut st = CellState::Initialized(value);
        std::mem::swap(&mut st, &mut self.state);
        match st {
            CellState::Initializing(ws) => ws,
            _ => Vec::new(),
        }
    }

    /// The attempt in flight failed; the cell is empty again. Returns the
    /// waiters to give the error to, in order of arrival.
    pub fn fail(&mut self) -> (notified: Vec<u64>)
        requires
            old(self)@ is Initializing,
        ensures
            (final(self)@, notified@) == old(self)@.fail(),
    {
        let mut st = CellState::Empty;
        std::mem::swap(&mut st, &mut self.state);
        match st {
            CellState::Initializing(ws) => ws,
            _ => Vec::new(),
        }
    }

    /// A waiter stops waiting: it is taken off the attempt in flight, which
    /// goes on unchanged for everyone else.
    pub fn withdraw(&mut self, waiter: u64)
        ensures
            final(self)@ == old(self)@.withdraw(waiter),
    {
        let mut st = CellState::Empty;
        std::mem::swap(&mut st, &mut self.state);
        match st {
            CellState::Initializing(ws) => {
                self.state = CellState::Initializing(without(&ws, waiter));
            },
            other => {
                self.state = other;
            },
        }
    }
}

proof fn lemma_begin_all_empty<S>(waiters: Seq<u64>)
    requires
        waiters.len() >= 1,
    ensures
        ({
            let (s, ds) = CellModel::<S>::Empty.begin_all(waiters);
            &&& ds.len() == waiters.len()
            &&& ds[0] == Access::Drive
            &&& forall|i: int| 1 <= i < ds.len() ==> ds[i] == Access::Wait
            &&& s == CellModel::<S>::Initializing(waiters.subrange(1, waiters.len() as int))
        }),
    decreases waiters.len(),
{
    if waiters.len() == 1 {
        assert(waiters.drop_last() =~= seq![]);
        assert(waiters.subrange(1, 1) =~= seq![]);
        let (s, ds) = CellModel::<S>::Empty.begin_all(waiters);
        assert(ds =~= seq![Access::Drive]);
    } else {
        lemma_begin_all_empty::<S>(waiters.drop_last());
        assert(waiters.drop_last().subrange(1, waiters.len() - 1).push(waiters.last())
            =~= waiters.subrange(1, waiters.len() as int));
        let (s0, ds0) = CellModel::<S>::Empty.begin_all(waiters.drop_last());
        let (s, ds) = CellModel::<S>::Empty.begin_all(waiters);
        assert(ds == ds0.push(Access::Wait));
        assert forall|i: int| 1 <= i < ds.len() implies ds[i] == Access::Wait by {
            if i < ds0.len() {
                assert(ds[i] == ds0[i]);
            }
        }
        assert(ds[0] == ds0[0]);
    }
}

/// Once the value is computed, any number of further callers are all told to
/// read it, none runs the factory, and the value stays the same.
pub proof fn lemma_idempotent<S>(value: S, waiters: Seq<u64>)
    ensures
        ({
            let (s, ds) = CellModel::Initialized(value).begin_all(waiters);
            &&& s == CellModel::Initialized(value)
            &&& ds.len() == waiters.len()
            &&& forall|i: int| 0 <= i < ds.len() ==> ds[i] == Access::Ready
        }),
    decreases waiters.len(),
{
    if waiters.len() > 0 {
        lemma_idempotent(value, waiters.drop_last());
        let (s0, ds0) = CellModel::Initialized(value).begin_all(waiters.drop_last());
        let (s, ds) = CellModel::Initialized(value).begin_all(waiters);
        assert(ds == ds0.push(Access::Ready));
        assert forall|i: int| 0 <= i < ds.len() implies ds[i] == Access::Ready by {
            if i < ds0.len() {
                assert(ds[i] == ds0[i]);
            }
        }
    }
}

/// Any number of callers asking an empty cell together run the factory once:
/// the first drives the attempt and every other one waits for it. When it
/// succeeds, exactly those others are told, the value is kept, and every later
/// caller reads that same value without running the factory again.
pub proof fn lemma_single_initialization<S>(waiters: Seq<u64>, value: S, later: Seq<u64>)
    requires
        waiters.len() >= 1,
    ensures
        ({
            let (s, ds) = CellModel::<S>::Empty.begin_all(waiters);
            let (done, told) = s.succeed(value);
            let (after, ds2) = done.begin_all(later);
            &&& ds.len() == waiters.len()
            &&& ds[0] == Access::Drive
            &&& forall|i: int| 1 <= i < ds.len() ==> ds[i] == Access::Wait
            &&& s is Initializing
            &&& told == waiters.subrange(1, waiters.len() as int)
            &&& done == CellModel::Initialized(value)
            &&& after == CellModel::Initialized(value)
            &&& forall|i: int| 0 <= i < ds2.len() ==> ds2[i] == Access::Ready
        }),
{
    lemma_begin_all_empty::<S>(waiters);
    lemma_idempotent(value, later);
}

/// When an attempt fails, every caller that waited for it is given the
/// failure and the cell is empty again; the next caller starts a new attempt,
/// and once that one succeeds its value is kept for every later caller.
pub proof fn lemma_retry_after_failure<S>(
    waiters: Seq<u64>,
    next: u64,
    value: S,
    later: Seq<u64>,
)
    requires
        waiters.len() >= 1,
    ensures
        ({
            let (s, ds) = CellModel::<S>::Empty.begin_all(waiters);
            let (failed, told) = s.fail();
            let (retrying, d) = failed.begin(next);
            let (done, told2) = retrying.succeed(value);
            let (after, ds2) = done.begin_all(later);
            &&& ds[0] == Access::Drive
            &&& forall|i: int| 1 <= i < ds.len() ==> ds[i] == Access::Wait
            &&& s is Initializing
            &&& told == waiters.subrange(1, waiters.len() as int)
            &&& failed == CellModel::<S>::Empty
            &&& d == Access::Drive
            &&& retrying is Initializing
            &&& told2 == Seq::<u64>::empty()
            &&& done == CellModel::Initialized(value)
            &&& after == CellModel::Initialized(value)
            &&& forall|i: int| 0 <= i < ds2.len() ==> ds2[i] == Access::Ready
        }),
{
    lemma_begin_all_empty::<S>(waiters);
    lemma_idempotent(value, later);
}

/// A waiter that gives up before the attempt ends does not change what the
/// others are told nor the outcome; one that was not waiting changes nothing.
pub proof fn lemma_withdraw_keeps_others<S>(m: CellModel<S>, waiter: u64, value: S)
    requires
        m is Initializing,
    ensures
        m.withdraw(waiter) is Initializing,
        m.withdraw(waiter).succeed(value).1 == others(m.succeed(value).1, waiter),
        m.withdraw(waiter).succeed(value).0 == m.succeed(value).0,
        m.withdraw(waiter).fail().1 == others(m.fail().1, waiter),
        m.withdraw(waiter).fail().0 == m.fail().0,
        !m.waiters().contains(waiter) ==> m.withdraw(waiter) == m,
{
    if !m.waiters().contains(waiter) {
        lemma_others_absent(m.waiters(), waiter);
    }
}

} // verus!
