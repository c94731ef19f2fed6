//! The manager's pending set and completion queue.
//!
//! Every registered service gets an identifier. The executor reports each
//! finished operation with [`Meltdown::complete`]; [`Meltdown::next`] hands
//! the results out one at a time and says when nothing is left.
use vstd::prelude::*;

verus! {

/// What a pull on the manager yields.
#[derive(Debug, Clone, Copy, PartialEq, Eq)]
pub enum Next<T> {
    /// The result of one finished service.
    Ready(T),
    /// Services are still running and none has finished: wait for one.
    Waiting,
    /// No service is pending: there is nothing to wait for.
    Exhausted,
}

/// The abstract state of a manager.
pub struct Model<T> {
    /// Whether shutdown has been requested.
    pub triggered: bool,
    /// How many services have been registered; they got the identifiers
    /// `0..issued`.
    pub issued: nat,
    /// Registered services whose operation has not finished.
    pub pending: Seq<u64>,
    /// Finished services whose result has not been pulled, oldest first.
    pub ready: Seq<(u64, T)>,
    /// Services whose result has been pulled, in the order they came out.
    pub delivered: Seq<u64>,
}

impl<T> Model<T> {
    /// A manager that has just been created.
    pub open spec fn fresh() -> Self {
        Model {
            triggered: false,
            issued: 0,
            pending: Seq::empty(),
            ready: Seq::empty(),
            delivered: Seq::empty(),
        }
    }

    pub open spec fn ready_has(self, id: u64) -> bool {
        exists|i: int| 0 <= i < self.ready.len() && #[trigger] self.ready[i].0 == id
    }

    /// Every identifier handed out is in exactly one place: pending, ready,
    /// or delivered.
    pub open spec fn wf(self) -> bool {
        &&& self.pending.no_duplicates()
        &&& self.delivered.no_duplicates()
        &&& forall|i: int, j: int|
            0 <= i < j < self.ready.len() ==> #[trigger] self.ready[i].0 != #[trigger] self.ready[j].0
        &&& forall|id: u64| #[trigger]
            self.pending.contains(id) ==> id < self.issued && !self.ready_has(id)
                && !self.delivered.contains(id)
        &&& forall|id: u64| #[trigger]
            self.ready_has(id) ==> id < self.issued && !self.delivered.contains(id)
        &&& forall|id: u64| #[trigger] self.delivered.contains(id) ==> id < self.issued
        &&& forall|id: u64|
            id < self.issued ==> #[trigger] self.pending.contains(id) || #[trigger] self.ready_has(id)
                || #[trigger] self.delivered.contains(id)
        &&& self.pending.len() + self.ready.len() + self.delivered.len() == self.issued
    }

    /// Nothing is pending and nothing waits to be pulled.
    pub open spec fn exhausted(self) -> bool {
        self.pending.len() == 0 && self.ready.len() == 0
    }

    /// The identifier the next registration gets.
    pub open spec fn next_id(self) -> u64 {
        self.issued as u64
    }

    /// Registering a service: it gets a fresh identifier and becomes pending.
    pub open spec fn register(self) -> Self {
        Model {
            issued: self.issued + 1,
            pending: self.pending.push(self.next_id()),
            ..self
        }
    }

    /// Requesting shutdown.
    pub open spec fn trigger(self) -> Self {
        Model { triggered: true, ..self }
    }

    /// The operation of service `id` finished with `value`. A report for a
    /// service that is not pending changes nothing.
    pub open spec fn complete(self, id: u64, value: T) -> Self {
        if self.pending.contains(id) {
            Model {
                pending: self.pending.remove(self.pending.index_of(id)),
                ready: self.ready.push((id, value)),
                ..self
            }
        } else {
            self
        }
    }

    /// What a pull yields.
    pub open spec fn next(self) -> Next<T> {
        if self.ready.len() > 0 {
            Next::Ready(self.ready[0].1)
        } else if self.pending.len() == 0 {
            Next::Exhausted
        } else {
            Next::Waiting
        }
    }

    /// The state after a pull.
    pub open spec fn after_next(self) -> Self {
        if self.ready.len() > 0 {
            Model {
                ready: self.ready.drop_first(),
                delivered: self.delivered.push(self.ready[0].0),
                ..self
            }
        } else {
            self
        }
    }
}

proof fn lemma_push_contains<A>(s: Seq<A>, a: A, x: A)
    ensures
        s.push(a).contains(x) <==> (s.contains(x) || x == a),
{
    let t = s.push(a);
    if s.contains(x) {
        let i = choose|i: int| 0 <= i < s.len() && s[i] == x;
        assert(t[i] == x);
    }
    if x == a {
        assert(t[s.len() as int] == x);
    }
    if t.contains(x) {
        let i = choose|i: int| 0 <= i < t.len() && t[i] == x;
        if i < s.len() {
            assert(s[i] == x);
        }
    }
}

proof fn lemma_remove_contains<A>(s: Seq<A>, k: int, x: A)
    requires
        s.no_duplicates(),
        0 <= k < s.len(),
    ensures
        s.remove(k).contains(x) <==> (s.contains(x) && x != s[k]),
        s.remove(k).no_duplicates(),
{
    let t = s.remove(k);
    if t.contains(x) {
        let j = choose|j: int| 0 <= j < t.len() && t[j] == x;
        if j < k {
            assert(s[j] == x);
        } else {
            assert(s[j + 1] == x);
        }
    }
    if s.contains(x) && x != s[k] {
        let j = choose|j: int| 0 <= j < s.len() && s[j] == x;
        if j < k {
            assert(t[j] == x);
        } else {
            assert(t[j - 1] == x);
        }
    }
    assert forall|i: int, j: int| 0 <= i < t.len() && 0 <= j < t.len() && i != j implies t[i] != t[j] by {
        let si = if i < k { i } else { i + 1 };
        let sj = if j < k { j } else { j + 1 };
        assert(t[i] == s[si] && t[j] == s[sj]);
    }
}

/// Registering keeps every identifier accounted for exactly once.
pub proof fn lemma_register_wf<T>(m: Model<T>)
    requires
        m.wf(),
        m.issued < u64::MAX,
    ensures
        m.register().wf(),
{
    let n = m.register();
    let new_id = m.next_id();
    assert(!m.pending.contains(new_id));
    assert(!m.ready_has(new_id));
    assert(!m.delivered.contains(new_id));
    assert forall|id: u64| #[trigger] n.pending.contains(id) <==> (m.pending.contains(id) || id == new_id) by {
        lemma_push_contains(m.pending, new_id, id);
    }
    assert forall|i: int, j: int| 0 <= i < n.pending.len() && 0 <= j < n.pending.len() && i != j
        implies n.pending[i] != n.pending[j] by {
        if i < m.pending.len() && j < m.pending.len() {
        } else if i < m.pending.len() {
            assert(m.pending.contains(n.pending[i]));
        } else {
            assert(m.pending.contains(n.pending[j]));
        }
    }
    assert(n.ready == m.ready && n.delivered == m.delivered);
    assert forall|id: u64| n.ready_has(id) implies m.ready_has(id) by {}
    assert forall|id: u64| id < n.issued implies #[trigger] n.pending.contains(id) || #[trigger] n.ready_has(id)
        || #[trigger] n.delivered.contains(id) by {
        if id < m.issued {
            assert(m.pending.contains(id) || m.ready_has(id) || m.delivered.contains(id));
        }
    }
}

/// Reporting a finished operation keeps every identifier accounted for
/// exactly once.
pub proof fn lemma_complete_wf<T>(m: Model<T>, id: u64, value: T)
    requires
        m.wf(),
    ensures
        m.complete(id, value).wf(),
{
    if m.pending.contains(id) {
        let n = m.complete(id, value);
        let k = m.pending.index_of(id);
        assert(m.pending[k] == id);
        assert forall|x: u64| #[trigger] n.pending.contains(x) <==> (m.pending.contains(x) && x != id) by {
            lemma_remove_contains(m.pending, k, x);
        }
        lemma_remove_contains(m.pending, k, id);
        assert(!m.ready_has(id));
        assert forall|x: u64| #[trigger] n.ready_has(x) <==> (m.ready_has(x) || x == id) by {
            if n.ready_has(x) {
                let i = choose|i: int| 0 <= i < n.ready.len() && #[trigger] n.ready[i].0 == x;
                if i < m.ready.len() {
                    assert(m.ready[i].0 == x);
                }
            }
            if m.ready_has(x) {
                let i = choose|i: int| 0 <= i < m.ready.len() && #[trigger] m.ready[i].0 == x;
                assert(n.ready[i].0 == x);
            }
            if x == id {
                assert(n.ready[m.ready.len() as int].0 == x);
            }
        }
        assert forall|i: int, j: int| 0 <= i < j < n.ready.len() implies #[trigger] n.ready[i].0
            != #[trigger] n.ready[j].0 by {
            if j == m.ready.len() {
                assert(m.ready[i].0 == n.ready[i].0);
                assert(m.ready_has(n.ready[i].0));
            } else {
                assert(m.ready[i] == n.ready[i] && m.ready[j] == n.ready[j]);
            }
        }
        assert forall|x: u64| x < n.issued implies #[trigger] n.pending.contains(x) || #[trigger] n.ready_has(x)
            || #[trigger] n.delivered.contains(x) by {
            assert(m.pending.contains(x) || m.ready_has(x) || m.delivered.contains(x));
        }
    }
}

/// Requesting shutdown keeps every identifier accounted for exactly once.
pub proof fn lemma_trigger_wf<T>(m: Model<T>)
    requires
        m.wf(),
    ensures
        m.trigger().wf(),
{
    let n = m.trigger();
    assert(n.ready =~= m.ready);
    assert forall|x: u64| #[trigger] n.ready_has(x) == m.ready_has(x) by {}
}

/// Pulling a result keeps every identifier accounted for exactly once.
pub proof fn lemma_next_wf<T>(m: Model<T>)
    requires
        m.wf(),
    ensures
        m.after_next().wf(),
{
    if m.ready.len() > 0 {
        let n = m.after_next();
        let first = m.ready[0].0;
        assert(m.ready_has(first));
        assert(!m.delivered.contains(first));
        assert forall|x: u64| #[trigger] n.delivered.contains(x) <==> (m.delivered.contains(x) || x == first) by {
            lemma_push_contains(m.delivered, first, x);
        }
        assert forall|x: u64| #[trigger] n.ready_has(x) <==> (m.ready_has(x) && x != first) by {
            if n.ready_has(x) {
                let i = choose|i: int| 0 <= i < n.ready.len() && #[trigger] n.ready[i].0 == x;
                assert(m.ready[i + 1].0 == x);
                assert(m.ready[0].0 != m.ready[i + 1].0);
            }
            if m.ready_has(x) && x != first {
                let i = choose|i: int| 0 <= i < m.ready.len() && #[trigger] m.ready[i].0 == x;
                assert(n.ready[i - 1].0 == x);
            }
        }
        assert forall|i: int, j: int| 0 <= i < j < n.ready.len() implies #[trigger] n.ready[i].0
            != #[trigger] n.ready[j].0 by {
            assert(n.ready[i] == m.ready[i + 1] && n.ready[j] == m.ready[j + 1]);
        }
        assert forall|i: int, j: int| 0 <= i < n.delivered.len() && 0 <= j < n.delivered.len() && i != j
            implies n.delivered[i] != n.delivered[j] by {
            if i < m.delivered.len() && j < m.delivered.len() {
            } else if i < m.delivered.len() {
                assert(m.delivered.contains(n.delivered[i]));
            } else {
                assert(m.delivered.contains(n.delivered[j]));
            }
        }
        assert forall|x: u64| x < n.issued implies #[trigger] n.pending.contains(x) || #[trigger] n.ready_has(x)
            || #[trigger] n.delivered.contains(x) by {
            assert(m.pending.contains(x) || m.ready_has(x) || m.delivered.contains(x));
        }
    }
}

/// The bookkeeping of a service manager: whether shutdown was requested,
/// which services are still running, and which results wait to be pulled.
///
/// The executor that owns the operations registers each service here, hands
/// it a token that is triggered exactly when [`Meltdown::is_triggered`] says
/// so, reports each finished operation with [`Meltdown::complete`], and asks
/// [`Meltdown::next`] what to do on every pull.
pub struct Meltdown<T> {
    triggered: bool,
    issued: u64,
    pending: Vec<u64>,
    ready: Vec<(u64, T)>,
    delivered: Ghost<Seq<u64>>,
}

impl<T> View for Meltdown<T> {
    type V = Model<T>;

    closed spec fn view(&self) -> Model<T> {
        Model {
            triggered: self.triggered,
            issued: self.issued as nat,
            pending: self.pending@,
            ready: self.ready@,
            delivered: self.delivered@,
        }
    }
}

impl<T> Meltdown<T> {
    /// Creates a manager with no service and an armed token.
    pub fn new() -> (r: Self)
        ensures
            r@ == Model::<T>::fresh(),
            r@.wf(),
    {
        Meltdown {
            triggered: false,
            issued: 0,
            pending: Vec::new(),
            ready: Vec::new(),
            delivered: Ghost(Seq::empty()),
        }
    }

    /// Returns `true` once shutdown has been requested.
    pub fn is_triggered(&self) -> (r: bool)
        ensures
            r == self@.triggered,
    {
        self.triggered
    }

    /// How many services have been registered so far.
    pub fn registered(&self) -> (r: u64)
        ensures
            r == self@.issued,
    {
        self.issued
    }

    /// Returns `true` when nothing is pending and no result waits to be
    /// pulled.
    pub fn is_exhausted(&self) -> (r: bool)
        ensures
            r == self@.exhausted(),
    {
        self.pending.len() == 0 && self.ready.len() == 0
    }

    /// Registers a service and returns its identifier.
    ///
    /// The service is to be started with a token that is already triggered
    /// exactly when [`Meltdown::is_triggered`] is `true`.
    pub fn register(&mut self) -> (id: u64)
        requires
            old(self)@.wf(),
            old(self)@.issued < u64::MAX,
        ensures
            id == old(self)@.next_id(),
            final(self)@ == old(self)@.register(),
            final(self)@.wf(),
    {
        proof {
            lemma_register_wf(self@);
        }
        let id = self.issued;
        self.pending.push(id);
        self.issued = id + 1;
        id
    }

    /// Requests shutdown. A second request changes nothing.
    pub fn trigger(&mut self)
        requires
            old(self)@.wf(),
        ensures
            final(self)@ == old(self)@.trigger(),
            final(self)@.wf(),
    {
        proof {
            lemma_trigger_wf(self@);
        }
        self.triggered = true;
    }

    /// Reports that the operation of service `id` finished with `value`.
    ///
    /// Returns `true` when the service was pending: its result is queued for
    /// [`Meltdown::next`]. A report for a service that is not pending is
    /// refused and changes nothing.
    pub fn complete(&mut self, id: u64, value: T) -> (r: bool)
        requires
            old(self)@.wf(),
        ensures
            r == old(self)@.pending.contains(id),
            final(self)@ == old(self)@.complete(id, value),
            final(self)@.wf(),
    {
        proof {
            lemma_complete_wf(self@, id, value);
        }
        let mut i: usize = 0;
        while i < self.pending.len()
            invariant
                self@ == old(self)@,
                old(self)@.wf(),
                old(self)@.complete(id, value).wf(),
                0 <= i <= self.pending@.len(),
                forall|j: int| 0 <= j < i ==> self.pending@[j] != id,
            decreases self.pending@.len() - i,
        {
            if self.pending[i] == id {
                proof {
                    let k = self@.pending.index_of(id);
                    assert(self@.pending[i as int] == id);
                    assert(self@.pending[k] == id);
                    assert(k == i);
                }
                self.pending.remove(i);
                self.ready.push((id, value));
                proof {
                    assert(self@ =~= old(self)@.complete(id, value));
                }
                return true;
            }
            i += 1;
        }
        proof {
            assert(!self@.pending.contains(id));
        }
        false
    }

    /// Pulls the result of the next finished service.
    ///
    /// Results come out in the order their operations were reported
    /// finished. With no result queued, the pull yields
    /// [`Next::Waiting`] while services are pending and [`Next::Exhausted`]
    /// once none is.
    pub fn next(&mut self) -> (r: Next<T>)
        requires
            old(self)@.wf(),
        ensures
            r == old(self)@.next(),
            final(self)@ == old(self)@.after_next(),
            final(self)@.wf(),
    {
        proof {
            lemma_next_wf(self@);
        }
        if self.ready.len() > 0 {
            let (id, value) = self.ready.remove(0);
            self.delivered = Ghost(self.delivered@.push(id));
            Next::Ready(value)
        } else if self.pending.len() == 0 {
            Next::Exhausted
        } else {
            Next::Waiting
        }
    }
}

/// Once the manager is drained, every service registered since its creation
/// has had its result pulled exactly once: as many results came out as
/// services were registered, no service twice, and none that was never
/// registered.
pub proof fn lemma_drained_surfaces_each_once<T>(m: Model<T>)
    requires
        m.wf(),
        m.exhausted(),
    ensures
        m.delivered.len() == m.issued,
        m.delivered.no_duplicates(),
        forall|id: u64| id < m.issued ==> #[trigger] m.delivered.contains(id),
        forall|id: u64| #[trigger] m.delivered.contains(id) ==> id < m.issued,
        m.next() == Next::<T>::Exhausted,
{
    assert forall|id: u64| id < m.issued implies #[trigger] m.delivered.contains(id) by {
        if m.pending.contains(id) {
            let i = choose|i: int| 0 <= i < m.pending.len() && m.pending[i] == id;
        }
        if m.ready_has(id) {
            let i = choose|i: int| 0 <= i < m.ready.len() && #[trigger] m.ready[i].0 == id;
        }
    }
}

/// A pull yields "exhausted" exactly when nothing is pending and nothing is
/// queued, and it never yields the result of a service twice: the pulled
/// service leaves the queue for good.
pub proof fn lemma_next_exactly_once<T>(m: Model<T>)
    requires
        m.wf(),
    ensures
        (m.next() == Next::<T>::Exhausted) <==> m.exhausted(),
        m.ready.len() > 0 ==> !m.after_next().ready_has(m.ready[0].0) && !m.after_next().pending.contains(
            m.ready[0].0,
        ) && m.after_next().delivered.contains(m.ready[0].0),
{
    if m.ready.len() > 0 {
        lemma_next_wf(m);
        let n = m.after_next();
        let first = m.ready[0].0;
        assert(n.delivered[n.delivered.len() - 1] == first);
    }
}

/// Requesting shutdown marks the token triggered, and requesting it twice is
/// the same as requesting it once.
pub proof fn lemma_trigger_idempotent<T>(m: Model<T>)
    ensures
        m.trigger().triggered,
        m.trigger().trigger() == m.trigger(),
{
}

/// Once shutdown has been requested the token stays triggered, for every
/// service pending then and every one registered afterwards, whatever
/// registrations, completions and pulls follow.
pub proof fn lemma_trigger_persists<T>(m: Model<T>, id: u64, value: T)
    requires
        m.triggered,
    ensures
        m.register().triggered,
        m.complete(id, value).triggered,
        m.after_next().triggered,
        m.trigger() == m,
{
}

/// A service registered after shutdown was requested is started with a
/// token that is already triggered; no new request is needed.
pub proof fn lemma_late_registration_sees_trigger<T>(m: Model<T>)
    ensures
        m.trigger().register().triggered,
        m.trigger().register().pending.contains(m.next_id()),
{
    let r = m.trigger().register();
    assert(r.pending[r.pending.len() - 1] == m.next_id());
}

/// An exhausted manager is not finished: registering a service makes it
/// wait for that service, and once the service's result is reported it is
/// the next result pulled, after which the manager is exhausted again.
pub proof fn lemma_register_revives<T>(m: Model<T>, value: T)
    requires
        m.wf(),
        m.exhausted(),
        m.issued < u64::MAX,
    ensures
        m.next() == Next::<T>::Exhausted,
        m.register().next() == Next::<T>::Waiting,
        m.register().complete(m.next_id(), value).next() == Next::Ready(value),
        m.register().complete(m.next_id(), value).after_next().next() == Next::<T>::Exhausted,
{
    let id = m.next_id();
    let r = m.register();
    assert(r.pending[0] == id);
    assert(r.pending.contains(id));
    let k = r.pending.index_of(id);
    assert(k == 0);
    let c = r.complete(id, value);
    assert(c.pending.len() == 0);
    assert(c.ready[0] == (id, value));
}

} // verus!
