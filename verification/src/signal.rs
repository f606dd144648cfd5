use vstd::prelude::*;

verus! {

/// Hands out the identities that cells and observers go by; every call
/// yields a value never handed out before.
#[derive(Debug)]
pub struct IdAllocator {
    pub next: u64,
}

impl IdAllocator {
    /// How many identities were handed out.
    pub open spec fn spec_next(&self) -> u64 {
        self.next
    }

    pub fn new() -> (r: IdAllocator)
        ensures
            r.spec_next() == 0,
    {
        IdAllocator { next: 0 }
    }

    /// A fresh identity: larger than every one handed out before.
    pub fn fresh(&mut self) -> (r: u64)
        requires
            old(self).spec_next() < u64::MAX,
        ensures
            r == old(self).spec_next(),
            final(self).spec_next() == old(self).spec_next() + 1,
    {
        let id = self.next;
        self.next = self.next + 1;
        id
    }
}

/// One reactive cell: a value together with the observers subscribed to it.
/// Writes hand back the observers to notify; delivery is the caller's
/// synchronous loop. Notification is conservative: every write notifies,
/// as for a value type without comparison.
#[derive(Debug)]
pub struct Signal<T> {
    pub value: T,
    pub subscribers: Vec<u64>,
}

impl<T> Signal<T> {
    /// The value the cell holds.
    pub open spec fn spec_value(&self) -> T {
        self.value
    }

    /// The subscribed observers, in subscription order.
    pub open spec fn spec_subscribers(&self) -> Seq<u64> {
        self.subscribers@
    }

    /// No observer is subscribed twice.
    pub open spec fn wf(&self) -> bool {
        forall|i: int, j: int|
            0 <= i < j < self.subscribers@.len() ==> self.subscribers@[i] != self.subscribers@[j]
    }

    /// A fresh cell with no observers.
    pub fn new(value: T) -> (r: Signal<T>)
        ensures
            r.wf(),
            r.spec_value() == value,
            r.spec_subscribers() == Seq::<u64>::empty(),
    {
        Signal { value, subscribers: Vec::new() }
    }

    /// A silent read: no subscription is recorded.
    pub fn get_untracked(&self) -> (r: &T)
        ensures
            *r == self.spec_value(),
    {
        &self.value
    }

    /// A tracked read: the running computation is subscribed, then the
    /// value read. Observers already subscribed stay subscribed once.
    pub fn get(&mut self, observer: u64) -> (r: &T)
        requires
            old(self).wf(),
        ensures
            final(self).wf(),
            *r == old(self).spec_value(),
            final(self).spec_value() == old(self).spec_value(),
            final(self).spec_subscribers().contains(observer),
            old(self).spec_subscribers().contains(observer) ==> final(self).spec_subscribers()
                == old(self).spec_subscribers(),
            !old(self).spec_subscribers().contains(observer) ==> final(self).spec_subscribers()
                == old(self).spec_subscribers().push(observer),
    {
        self.subscribe(observer);
        &self.value
    }

    /// Registers an observer; one already registered stays registered once.
    pub fn subscribe(&mut self, observer: u64)
        requires
            old(self).wf(),
        ensures
            final(self).wf(),
            final(self).spec_value() == old(self).spec_value(),
            final(self).spec_subscribers().contains(observer),
            old(self).spec_subscribers().contains(observer) ==> final(self).spec_subscribers()
                == old(self).spec_subscribers(),
            !old(self).spec_subscribers().contains(observer) ==> final(self).spec_subscribers()
                == old(self).spec_subscribers().push(observer),
    {
        let n = self.subscribers.len();
        let mut i: usize = 0;
        while i < n
            invariant
                i <= n,
                n == self.subscribers@.len(),
                forall|j: int| 0 <= j < i ==> self.subscribers@[j] != observer,
            decreases n - i,
        {
            if self.subscribers[i] == observer {
                return ;
            }
            i = i + 1;
        }
        self.subscribers.push(observer);
        proof {
            assert(self.subscribers@.last() == observer);
        }
    }

    /// Drops an observer; one never registered is left alone.
    pub fn unsubscribe(&mut self, observer: u64)
        requires
            old(self).wf(),
        ensures
            final(self).wf(),
            final(self).spec_value() == old(self).spec_value(),
            !final(self).spec_subscribers().contains(observer),
            forall|o: u64|
                o != observer ==> (final(self).spec_subscribers().contains(o) <==> old(
                    self,
                ).spec_subscribers().contains(o)),
            !old(self).spec_subscribers().contains(observer) ==> final(self).spec_subscribers()
                == old(self).spec_subscribers(),
    {
        let ghost before = self.subscribers@;
        let n = self.subscribers.len();
        let mut i: usize = 0;
        while i < n
            invariant
                i <= n,
                self.subscribers@ == before,
                self.value == old(self).value,
                forall|j: int| 0 <= j < i ==> before[j] != observer,
            decreases n - i,
        {
            if self.subscribers[i] == observer {
                let _ = self.subscribers.remove(i);
                proof {
                    before.remove_ensures(i as int);
                    assert forall|p: int, q: int|
                        0 <= p < q < self.subscribers@.len() implies self.subscribers@[p] != self
                        .subscribers@[q] by {
                        let p0 = if p < i { p } else { p + 1 };
                        let q0 = if q < i { q } else { q + 1 };
                        assert(self.subscribers@[p] == before[p0]);
                        assert(self.subscribers@[q] == before[q0]);
                    }
                    assert forall|j: int|
                        0 <= j < self.subscribers@.len() implies #[trigger] self.subscribers@[j]
                        != observer by {
                        if j < i {
                            assert(self.subscribers@[j] == before[j]);
                        } else {
                            assert(self.subscribers@[j] == before[j + 1]);
                            assert(before[i as int] != before[j + 1]);
                        }
                    }
                    assert forall|o: u64|
                        o != observer && before.contains(o) implies #[trigger] self
                        .subscribers@.contains(o) by {
                        let j = choose|j: int| 0 <= j < before.len() && before[j] == o;
                        if j < i {
                            assert(self.subscribers@[j] == o);
                        } else {
                            assert(j > i);
                            assert(self.subscribers@[j - 1] == o);
                        }
                    }
                    assert forall|o: u64|
                        o != observer && self.subscribers@.contains(o) implies #[trigger] before
                        .contains(o) by {
                        let j = choose|j: int|
                            0 <= j < self.subscribers@.len() && self.subscribers@[j] == o;
                        if j < i {
                            assert(before[j] == o);
                        } else {
                            assert(before[j + 1] == o);
                        }
                    }
                }
                return ;
            }
            i = i + 1;
        }
    }

    /// Writes a value; hands back every subscribed observer, in
    /// subscription order, for synchronous delivery.
    pub fn set(&mut self, value: T) -> (notify: Vec<u64>)
        requires
            old(self).wf(),
        ensures
            final(self).wf(),
            final(self).spec_value() == value,
            final(self).spec_subscribers() == old(self).spec_subscribers(),
            notify@ == old(self).spec_subscribers(),
    {
        self.value = value;
        let notify = self.subscribers.clone();
        proof {
            assert(notify@ =~= self.subscribers@);
        }
        notify
    }

    /// Replaces the value with one computed from it; hands back the
    /// observers to notify, like `set`.
    pub fn replace(&mut self, value: T) -> (r: (T, Vec<u64>))
        requires
            old(self).wf(),
        ensures
            final(self).wf(),
            r.0 == old(self).spec_value(),
            final(self).spec_value() == value,
            final(self).spec_subscribers() == old(self).spec_subscribers(),
            r.1@ == old(self).spec_subscribers(),
    {
        let mut value = value;
        core::mem::swap(&mut self.value, &mut value);
        let notify = self.subscribers.clone();
        proof {
            assert(notify@ =~= self.subscribers@);
        }
        (value, notify)
    }
}

/// The bookkeeping of one derived value: the upstream cells its last run
/// read, and whether one of them changed since. The computation itself runs
/// outside; this records exactly when it must run again.
#[derive(Debug)]
pub struct Derived<T> {
    pub cached: T,
    pub dependencies: Vec<u64>,
    pub dirty: bool,
}

impl<T> Derived<T> {
    pub open spec fn spec_cached(&self) -> T {
        self.cached
    }

    pub open spec fn spec_dependencies(&self) -> Seq<u64> {
        self.dependencies@
    }

    pub open spec fn spec_dirty(&self) -> bool {
        self.dirty
    }

    /// A derived value starts dirty: it has never been computed.
    pub fn new(initial: T) -> (r: Derived<T>)
        ensures
            r.spec_cached() == initial,
            r.spec_dependencies() == Seq::<u64>::empty(),
            r.spec_dirty(),
    {
        Derived { cached: initial, dependencies: Vec::new(), dirty: true }
    }

    /// Whether the next read must recompute.
    pub fn needs_recompute(&self) -> (r: bool)
        ensures
            r == self.spec_dirty(),
    {
        self.dirty
    }

    /// A changed upstream cell marks the value dirty exactly when the last
    /// run read that cell.
    pub fn invalidate(&mut self, changed: u64)
        ensures
            final(self).spec_cached() == old(self).spec_cached(),
            final(self).spec_dependencies() == old(self).spec_dependencies(),
            final(self).spec_dirty() == (old(self).spec_dirty() || old(
                self,
            ).spec_dependencies().contains(changed)),
    {
        let n = self.dependencies.len();
        let mut i: usize = 0;
        while i < n
            invariant
                i <= n,
                n == self.dependencies@.len(),
                forall|j: int| 0 <= j < i ==> self.dependencies@[j] != changed,
                self.dependencies@ == old(self).dependencies@,
                self.cached == old(self).cached,
                self.dirty == old(self).dirty,
            decreases n - i,
        {
            if self.dependencies[i] == changed {
                self.dirty = true;
                return ;
            }
            i = i + 1;
        }
    }

    /// Records a recomputation: the fresh value, the cells that run read,
    /// and a clean state until one of them changes.
    pub fn store_result(&mut self, value: T, dependencies: Vec<u64>)
        ensures
            final(self).spec_cached() == value,
            final(self).spec_dependencies() == dependencies@,
            !final(self).spec_dirty(),
    {
        self.cached = value;
        self.dependencies = dependencies;
        self.dirty = false;
    }

    /// Reads the cached value; only a clean one may be read, so a stale
    /// value is never observed.
    pub fn read(&self) -> (r: &T)
        requires
            !self.spec_dirty(),
        ensures
            *r == self.spec_cached(),
    {
        &self.cached
    }
}

} // verus!
