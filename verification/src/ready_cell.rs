//! The ready-cell: a single-slot container that is filled exactly once and
//! thereafter behaves like a shared read/write lock.
//!
//! The cell starts `Pending`; accessors arriving early subscribe as waiters
//! and suspend. The single producer fills the cell once, which wakes every
//! subscribed waiter together; from then on the cell is `Ready` and any
//! number of readers, or one writer, hold the value under ordinary lock
//! discipline. This module is the cell's protocol state, stepped
//! sequentially; the host drives it from its concurrent tasks, performing
//! the actual suspension and wake-ups, and the lemmas here state what every
//! such schedule observes: readiness is permanent, a fill wakes all current
//! waiters at once, readers admitted after readiness all see the one value,
//! and a writer excludes them.

use vstd::prelude::*;

verus! {

/// Whether the value has been produced yet.
pub enum CellState<T> {
    /// Not yet produced; counts the waiters subscribed for the wake-up.
    Pending {
        /// How many accessors are suspended until the fill.
        waiters: u64,
    },
    /// Produced: the value all accessors share from now on.
    Ready {
        /// The produced value.
        value: T,
    },
}

/// What an accessor that asks for the value must do next.
pub enum AccessDecision {
    /// The value is available and the lock admits this accessor now.
    Grant,
    /// The value is available but the lock excludes this accessor for now.
    WaitLock,
    /// The value is not yet produced: subscribe and suspend until the fill.
    WaitReady,
}

/// The protocol state of one ready-cell: production state plus the shared
/// read/write lock discipline over the produced value.
pub struct ReadyCell<T> {
    /// Whether the value has been produced, and who waits for it.
    pub state: CellState<T>,
    /// How many readers currently hold shared access.
    pub readers: u64,
    /// Whether a writer currently holds exclusive access.
    pub writer: bool,
}

impl<T> ReadyCell<T> {
    /// Well-formed: nobody holds the lock before the value exists, and a
    /// writer never coexists with readers.
    pub open spec fn wf(self) -> bool {
        &&& self.state is Pending ==> self.readers == 0 && !self.writer
        &&& self.writer ==> self.readers == 0
    }

    /// The value has been produced.
    pub open spec fn is_ready(self) -> bool {
        self.state is Ready
    }

    /// The produced value.
    pub open spec fn spec_value(self) -> T
        recommends
            self.is_ready(),
    {
        match self.state {
            CellState::Ready { value } => value,
            CellState::Pending { .. } => vstd::pervasive::arbitrary(),
        }
    }

    /// How many accessors wait for the fill.
    pub open spec fn spec_waiters(self) -> u64 {
        match self.state {
            CellState::Pending { waiters } => waiters,
            CellState::Ready { .. } => 0,
        }
    }

    /// One more accessor subscribed for the wake-up.
    pub open spec fn spec_subscribe(self) -> Self
        recommends
            !self.is_ready(),
    {
        ReadyCell {
            state: CellState::Pending { waiters: (self.spec_waiters() + 1) as u64 },
            readers: self.readers,
            writer: self.writer,
        }
    }

    /// `n` more accessors subscribed, one after the other.
    pub open spec fn spec_subscribe_n(self, n: nat) -> Self
        decreases n,
    {
        if n == 0 {
            self
        } else {
            self.spec_subscribe_n((n - 1) as nat).spec_subscribe()
        }
    }

    /// The cell after the producer stores the value.
    pub open spec fn spec_fill(self, value: T) -> Self {
        ReadyCell { state: CellState::Ready { value }, readers: self.readers, writer: self.writer }
    }

    /// One more reader admitted to shared access.
    pub open spec fn spec_acquire_read(self) -> Self {
        ReadyCell {
            state: self.state,
            readers: (self.readers + 1) as u64,
            writer: self.writer,
        }
    }

    /// `n` readers admitted, one after the other.
    pub open spec fn grant_reads(self, n: nat) -> Self
        decreases n,
    {
        if n == 0 {
            self
        } else {
            self.grant_reads((n - 1) as nat).spec_acquire_read()
        }
    }

    /// The writer admitted to exclusive access.
    pub open spec fn spec_acquire_write(self) -> Self {
        ReadyCell { state: self.state, readers: self.readers, writer: true }
    }

    /// What a reader arriving now must do.
    pub open spec fn spec_read_decision(self) -> AccessDecision {
        if !self.is_ready() {
            AccessDecision::WaitReady
        } else if self.writer {
            AccessDecision::WaitLock
        } else {
            AccessDecision::Grant
        }
    }

    /// What a writer arriving now must do.
    pub open spec fn spec_write_decision(self) -> AccessDecision {
        if !self.is_ready() {
            AccessDecision::WaitReady
        } else if self.writer || self.readers > 0 {
            AccessDecision::WaitLock
        } else {
            AccessDecision::Grant
        }
    }

    /// A cell whose value is still being produced.
    pub fn new_pending() -> (r: Self)
        ensures
            r.wf(),
            !r.is_ready(),
            r.spec_waiters() == 0,
            r.readers == 0,
            !r.writer,
    {
        ReadyCell { state: CellState::Pending { waiters: 0 }, readers: 0, writer: false }
    }

    /// A cell created already filled, for contexts where no asynchronous
    /// production is needed.
    pub fn new_ready(value: T) -> (r: Self)
        ensures
            r.wf(),
            r.is_ready(),
            r.spec_value() == value,
            r.readers == 0,
            !r.writer,
    {
        ReadyCell { state: CellState::Ready { value }, readers: 0, writer: false }
    }

    /// What an accessor that wants shared access must do now.
    pub fn read_decision(&self) -> (r: AccessDecision)
        ensures
            r == self.spec_read_decision(),
    {
        match &self.state {
            CellState::Pending { .. } => AccessDecision::WaitReady,
            CellState::Ready { .. } => {
                if self.writer {
                    AccessDecision::WaitLock
                } else {
                    AccessDecision::Grant
                }
            },
        }
    }

    /// What an accessor that wants exclusive access must do now.
    pub fn write_decision(&self) -> (r: AccessDecision)
        ensures
            r == self.spec_write_decision(),
    {
        match &self.state {
            CellState::Pending { .. } => AccessDecision::WaitReady,
            CellState::Ready { .. } => {
                if self.writer || self.readers > 0 {
                    AccessDecision::WaitLock
                } else {
                    AccessDecision::Grant
                }
            },
        }
    }

    /// Subscribe one accessor for the wake-up, before the fill.
    pub fn subscribe(&mut self)
        requires
            old(self).wf(),
            !old(self).is_ready(),
            old(self).spec_waiters() < u64::MAX,
        ensures
            *final(self) == old(self).spec_subscribe(),
            final(self).wf(),
    {
        match &mut self.state {
            CellState::Pending { waiters } => {
                *waiters = *waiters + 1;
            },
            CellState::Ready { .. } => {
                proof {
                    assert(false);
                }
            },
        }
    }

    /// The producer stores the value: the one Pending-to-Ready transition.
    /// Returns how many waiters are to be woken, all at once; every one of
    /// them subscribed before this call, and none will be woken twice
    /// because the transition never happens again.
    pub fn fill(&mut self, value: T) -> (woken: u64)
        requires
            old(self).wf(),
            !old(self).is_ready(),
        ensures
            *final(self) == old(self).spec_fill(value),
            final(self).wf(),
            final(self).is_ready(),
            final(self).spec_value() == value,
            woken == old(self).spec_waiters(),
    {
        let woken = match &self.state {
            CellState::Pending { waiters } => *waiters,
            CellState::Ready { .. } => 0,
        };
        self.state = CellState::Ready { value };
        woken
    }

    /// Look at the value without waiting, for commands that must fail
    /// fast, rather than suspend, when the context is not ready yet.
    pub fn try_get(&self) -> (r: Option<&T>)
        ensures
            match r {
                Some(v) => self.is_ready() && *v == self.spec_value(),
                None => !self.is_ready(),
            },
    {
        match &self.state {
            CellState::Ready { value } => Some(value),
            CellState::Pending { .. } => None,
        }
    }

    /// Read the value while holding access.
    pub fn get(&self) -> (r: &T)
        requires
            self.is_ready(),
            self.readers > 0 || self.writer,
        ensures
            *r == self.spec_value(),
    {
        match &self.state {
            CellState::Ready { value } => value,
            CellState::Pending { .. } => vstd::pervasive::unreached(),
        }
    }

    /// Replace the value; only the writer, holding exclusive access, may.
    pub fn set(&mut self, value: T)
        requires
            old(self).wf(),
            old(self).is_ready(),
            old(self).writer,
        ensures
            final(self).wf(),
            final(self).is_ready(),
            final(self).spec_value() == value,
            final(self).readers == old(self).readers,
            final(self).writer == old(self).writer,
    {
        match &mut self.state {
            CellState::Ready { value: slot } => {
                *slot = value;
            },
            CellState::Pending { .. } => {
                proof {
                    assert(false);
                }
            },
        }
    }

    /// Admit one reader to shared access.
    pub fn acquire_read(&mut self)
        requires
            old(self).wf(),
            old(self).spec_read_decision() is Grant,
            old(self).readers < u64::MAX,
        ensures
            *final(self) == old(self).spec_acquire_read(),
            final(self).wf(),
            final(self).is_ready(),
            final(self).spec_value() == old(self).spec_value(),
    {
        self.readers = self.readers + 1;
    }

    /// A reader gives shared access back.
    pub fn release_read(&mut self)
        requires
            old(self).wf(),
            old(self).readers > 0,
        ensures
            final(self).wf(),
            final(self).state == old(self).state,
            final(self).readers == old(self).readers - 1,
            final(self).writer == old(self).writer,
    {
        self.readers = self.readers - 1;
    }

    /// Admit the writer to exclusive access.
    pub fn acquire_write(&mut self)
        requires
            old(self).wf(),
            old(self).spec_write_decision() is Grant,
        ensures
            *final(self) == old(self).spec_acquire_write(),
            final(self).wf(),
            final(self).is_ready(),
            final(self).spec_value() == old(self).spec_value(),
    {
        self.writer = true;
    }

    /// The writer gives exclusive access back.
    pub fn release_write(&mut self)
        requires
            old(self).wf(),
            old(self).writer,
        ensures
            final(self).wf(),
            final(self).state == old(self).state,
            final(self).readers == old(self).readers,
            !final(self).writer,
    {
        self.writer = false;
    }
}

/// Admitting `n` readers to a ready, writer-free cell changes nothing but
/// the reader count.
proof fn lemma_grant_reads_props<T>(c: ReadyCell<T>, n: nat)
    requires
        c.wf(),
        c.is_ready(),
        !c.writer,
        c.readers + n <= u64::MAX,
    ensures
        c.grant_reads(n).wf(),
        c.grant_reads(n).is_ready(),
        !c.grant_reads(n).writer,
        c.grant_reads(n).state == c.state,
        c.grant_reads(n).spec_value() == c.spec_value(),
        c.grant_reads(n).readers == c.readers + n,
    decreases n,
{
    if n > 0 {
        lemma_grant_reads_props(c, (n - 1) as nat);
    }
}

/// Subscribing `n` accessors to a pending cell only counts them.
proof fn lemma_subscribe_n_props<T>(c: ReadyCell<T>, n: nat)
    requires
        c.wf(),
        !c.is_ready(),
        c.spec_waiters() + n <= u64::MAX,
    ensures
        c.spec_subscribe_n(n).wf(),
        !c.spec_subscribe_n(n).is_ready(),
        c.spec_subscribe_n(n).spec_waiters() == c.spec_waiters() + n,
        c.spec_subscribe_n(n).readers == c.readers,
        c.spec_subscribe_n(n).writer == c.writer,
    decreases n,
{
    if n > 0 {
        lemma_subscribe_n_props(c, (n - 1) as nat);
    }
}

/// Readiness is idempotent: once a cell is ready and no writer holds it,
/// any number of further read requests are admitted immediately — none
/// suspends — and every one of them observes the same value.
pub proof fn lemma_ready_idempotent<T>(c: ReadyCell<T>, n: nat)
    requires
        c.wf(),
        c.is_ready(),
        !c.writer,
        c.readers + n <= u64::MAX,
    ensures
        forall|k: nat|
            k < n ==> (#[trigger] c.grant_reads(k)).spec_read_decision() is Grant,
        forall|k: nat|
            k <= n ==> (#[trigger] c.grant_reads(k)).is_ready() && c.grant_reads(k).spec_value()
                == c.spec_value(),
        c.grant_reads(n).wf(),
        c.grant_reads(n).readers == c.readers + n,
{
    assert forall|k: nat| k <= n implies (#[trigger] c.grant_reads(k)).is_ready()
        && c.grant_reads(k).spec_value() == c.spec_value() by {
        lemma_grant_reads_props(c, k);
    }
    assert forall|k: nat| k < n implies (#[trigger] c.grant_reads(
        k,
    )).spec_read_decision() is Grant by {
        lemma_grant_reads_props(c, k);
    }
    lemma_grant_reads_props(c, n);
}

/// Read requests that arrive while the cell is pending all resolve after
/// the one fill: each of the `n` subscriptions is counted, the fill wakes
/// exactly that many waiters at once, every one of the `n` readers is then
/// admitted — they hold shared access at the same time — and each observes
/// the filled value. While any of them holds access a writer is excluded,
/// and a writer that is admitted once they all release excludes readers in
/// turn.
pub proof fn lemma_pending_readers_all_resolve<T>(c: ReadyCell<T>, n: nat, value: T)
    requires
        c.wf(),
        !c.is_ready(),
        c.spec_waiters() + n <= u64::MAX,
        n <= u64::MAX,
    ensures
        ({
            let filled = c.spec_subscribe_n(n).spec_fill(value);
            &&& c.spec_subscribe_n(n).spec_waiters() == c.spec_waiters() + n
            &&& filled.wf()
            &&& filled.is_ready()
            &&& filled.spec_value() == value
            &&& forall|k: nat|
                k < n ==> (#[trigger] filled.grant_reads(k)).spec_read_decision() is Grant
                    && filled.grant_reads(k).spec_value() == value
            &&& filled.grant_reads(n).readers == n
            &&& forall|k: nat|
                1 <= k <= n ==> (#[trigger] filled.grant_reads(
                    k,
                )).spec_write_decision() is WaitLock
            &&& filled.spec_acquire_write().spec_read_decision() is WaitLock
        }),
{
    lemma_subscribe_n_props(c, n);
    let subscribed = c.spec_subscribe_n(n);
    let filled = subscribed.spec_fill(value);
    assert(filled.readers == 0 && !filled.writer);
    assert forall|k: nat| k < n implies (#[trigger] filled.grant_reads(
        k,
    )).spec_read_decision() is Grant && filled.grant_reads(k).spec_value() == value by {
        lemma_grant_reads_props(filled, k);
    }
    assert forall|k: nat| 1 <= k <= n implies (#[trigger] filled.grant_reads(
        k,
    )).spec_write_decision() is WaitLock by {
        lemma_grant_reads_props(filled, k);
    }
    lemma_grant_reads_props(filled, n);
}

} // verus!
