use vstd::prelude::*;
use crate::resource::Action;

verus! {

/// Identity of a declared object.
pub struct ObjectKey {
    pub namespace: String,
    pub name: String,
}

impl View for ObjectKey {
    type V = (Seq<char>, Seq<char>);

    open spec fn view(&self) -> (Seq<char>, Seq<char>) {
        (self.namespace@, self.name@)
    }
}

impl ObjectKey {
    pub fn new(namespace: String, name: String) -> (r: ObjectKey)
        ensures
            r@ == (namespace@, name@),
    {
        ObjectKey { namespace, name }
    }

    /// Whether both keys name the same object.
    pub fn same(&self, other: &ObjectKey) -> (r: bool)
        ensures
            r == (self@ == other@),
    {
        self.namespace.eq(&other.namespace) && self.name.eq(&other.name)
    }
}

/// Where one object stands in the scheduler.
#[derive(Clone, Copy, Debug, PartialEq, Eq, Structural)]
pub enum Slot {
    /// Nothing runs; with a time, a requeue is due then (milliseconds).
    Idle(Option<u64>),
    /// Notified, waiting for a free worker.
    Queued,
    /// A reconciliation runs.
    Running,
    /// A reconciliation runs and another notification came meanwhile.
    RunningPending,
}

pub open spec fn in_flight(s: Slot) -> bool {
    s is Running || s is RunningPending
}

pub open spec fn count_in_flight(s: Seq<Slot>) -> nat
    decreases s.len(),
{
    if s.len() == 0 {
        0
    } else {
        count_in_flight(s.drop_last()) + if in_flight(s.last()) {
            1nat
        } else {
            0nat
        }
    }
}

pub proof fn lemma_count_update(s: Seq<Slot>, i: int, x: Slot)
    requires
        0 <= i < s.len(),
    ensures
        count_in_flight(s.update(i, x)) + (if in_flight(s[i]) { 1nat } else { 0nat })
            == count_in_flight(s) + (if in_flight(x) { 1nat } else { 0nat }),
    decreases s.len(),
{
    let t = s.update(i, x);
    if i == s.len() - 1 {
        assert(t.drop_last() =~= s.drop_last());
    } else {
        assert(t.drop_last() =~= s.drop_last().update(i, x));
        lemma_count_update(s.drop_last(), i, x);
    }
}

/// Slot after a notification and whether a reconciliation starts now, given
/// whether a worker is free.
pub open spec fn notify_spec(prev: Slot, room: bool) -> (Slot, bool) {
    match prev {
        Slot::Idle(_) => if room {
            (Slot::Running, true)
        } else {
            (Slot::Queued, false)
        },
        Slot::Queued => (Slot::Queued, false),
        Slot::Running => (Slot::RunningPending, false),
        Slot::RunningPending => (Slot::RunningPending, false),
    }
}

/// Requeue time that an action arms when a run ends at `now`.
pub open spec fn timer_of(action: Action, now: u64) -> Option<u64> {
    match action {
        Action::RequeueAfter(d) => Some(
            if now + d > u64::MAX {
                u64::MAX
            } else {
                (now + d) as u64
            },
        ),
        Action::AwaitChange => None,
    }
}

/// Serialises reconciliations per object and bounds how many run at once.
pub struct Scheduler {
    pub keys: Vec<ObjectKey>,
    pub slots: Vec<Slot>,
    pub max_running: usize,
}

impl Scheduler {
    pub open spec fn key_at(&self, i: int) -> (Seq<char>, Seq<char>) {
        self.keys@[i]@
    }

    pub open spec fn keys_view(&self) -> Seq<(Seq<char>, Seq<char>)> {
        self.keys@.map_values(|k: ObjectKey| k@)
    }

    pub open spec fn running(&self) -> nat {
        count_in_flight(self.slots@)
    }

    /// One slot per key, no key twice, and no more runs than workers.
    pub open spec fn wf(&self) -> bool {
        &&& self.keys.len() == self.slots.len()
        &&& forall|i: int, j: int|
            0 <= i < self.keys.len() && 0 <= j < self.keys.len() && i != j ==> self.keys@[i]@
                != self.keys@[j]@
        &&& self.running() <= self.max_running
        &&& self.max_running > 0
    }

    /// A scheduler that runs at most `max_running` reconciliations at once.
    pub fn new(max_running: usize) -> (r: Scheduler)
        requires
            max_running > 0,
        ensures
            r.wf(),
            r.keys@.len() == 0,
            r.max_running == max_running,
    {
        Scheduler { keys: Vec::new(), slots: Vec::new(), max_running }
    }

    fn find(&self, key: &ObjectKey) -> (r: Option<usize>)
        requires
            self.wf(),
        ensures
            match r {
                Some(i) => i < self.keys.len() && self.key_at(i as int) == key@,
                None => forall|i: int| 0 <= i < self.keys.len() ==> self.key_at(i) != key@,
            },
    {
        let mut i: usize = 0;
        while i < self.keys.len()
            invariant
                i <= self.keys.len(),
                forall|j: int| 0 <= j < i ==> self.key_at(j) != key@,
            decreases self.keys.len() - i,
        {
            if self.keys[i].same(key) {
                return Some(i);
            }
            i += 1;
        }
        None
    }

    fn running_count(&self) -> (r: usize)
        requires
            self.wf(),
        ensures
            r == self.running(),
    {
        let mut n: usize = 0;
        let mut i: usize = 0;
        while i < self.slots.len()
            invariant
                i <= self.slots.len(),
                n == count_in_flight(self.slots@.take(i as int)),
                n <= i,
                self.wf(),
            decreases self.slots.len() - i,
        {
            assert(self.slots@.take(i + 1).drop_last() =~= self.slots@.take(i as int));
            proof {
                lemma_count_prefix(self.slots@, i as int + 1);
            }
            if matches!(self.slots[i], Slot::Running | Slot::RunningPending) {
                n += 1;
            }
            i += 1;
        }
        assert(self.slots@.take(i as int) =~= self.slots@);
        n
    }

    /// Records a notification for `key`. Returns the key's index and whether a
    /// reconciliation of it starts now. A key whose reconciliation is running
    /// is only marked to run once more; a real notification disarms a pending
    /// requeue.
    pub fn notify(&mut self, key: ObjectKey) -> (r: (usize, bool))
        requires
            old(self).wf(),
        ensures
            final(self).wf(),
            final(self).max_running == old(self).max_running,
            r.0 < final(self).keys.len(),
            final(self).key_at(r.0 as int) == key@,
            ({
                let found = exists|i: int| 0 <= i < old(self).keys.len() && old(self).key_at(i) == key@;
                let prev = if found { old(self).slots@[r.0 as int] } else { Slot::Idle(None) };
                let base = if found { old(self).slots@ } else { old(self).slots@.push(Slot::Idle(None)) };
                let step = notify_spec(prev, old(self).running() < old(self).max_running);
                &&& found ==> final(self).keys_view() == old(self).keys_view()
                &&& !found ==> final(self).keys_view() == old(self).keys_view().push(key@)
                    && r.0 == old(self).keys.len()
                &&& final(self).slots@ == base.update(r.0 as int, step.0)
                &&& r.1 == step.1
            }),
    {
        let room = self.running_count() < self.max_running;
        let i = match self.find(&key) {
            Some(i) => i,
            None => {
                proof {
                    assert(self.slots@.push(Slot::Idle(None)).drop_last() =~= self.slots@);
                }
                let ghost old_keys = self.keys_view();
                let ghost ok = self.keys@;
                let ghost kv = key@;
                assert forall|a: int| 0 <= a < ok.len() implies ok[a]@ != kv by {
                    assert(self.key_at(a) == ok[a]@);
                }
                assert forall|a: int, b: int|
                    0 <= a < ok.len() && 0 <= b < ok.len() && a != b implies ok[a]@ != ok[b]@ by {
                    assert(self.key_at(a) == ok[a]@);
                    assert(self.key_at(b) == ok[b]@);
                }
                self.keys.push(key);
                self.slots.push(Slot::Idle(None));
                assert(self.keys_view() =~= old_keys.push(key@));
                assert(self.keys.len() == self.slots.len());
                assert forall|a: int, b: int|
                    0 <= a < self.keys.len() && 0 <= b < self.keys.len() && a != b implies self.key_at(a)
                        != self.key_at(b) by {
                    if a < ok.len() {
                        assert(self.key_at(a) == ok[a]@);
                    }
                    if b < ok.len() {
                        assert(self.key_at(b) == ok[b]@);
                    }
                }
                assert(count_in_flight(self.slots@) == count_in_flight(self.slots@.drop_last()));
                self.keys.len() - 1
            },
        };
        let prev = self.slots[i];
        let (next, start) = match prev {
            Slot::Idle(_) => if room {
                (Slot::Running, true)
            } else {
                (Slot::Queued, false)
            },
            Slot::Queued => (Slot::Queued, false),
            Slot::Running => (Slot::RunningPending, false),
            Slot::RunningPending => (Slot::RunningPending, false),
        };
        proof {
            lemma_count_update(self.slots@, i as int, next);
        }
        self.slots.set(i, next);
        assert(self.running() <= self.max_running);
        (i, start)
    }
}

impl Scheduler {
    /// Ends the run of entry `i` with `action` at time `now` (milliseconds).
    /// A notification that came during the run starts the entry again at once;
    /// otherwise the action arms its requeue time, and the first queued entry,
    /// if any, takes the freed worker. Returns the entry to start, if any.
    pub fn finish(&mut self, i: usize, action: Action, now: u64) -> (r: Option<usize>)
        requires
            old(self).wf(),
            i < old(self).keys.len(),
            in_flight(old(self).slots@[i as int]),
        ensures
            final(self).wf(),
            final(self).keys == old(self).keys,
            final(self).max_running == old(self).max_running,
            old(self).slots@[i as int] is RunningPending ==> r == Some(i) && final(self).slots@
                == old(self).slots@.update(i as int, Slot::Running),
            old(self).slots@[i as int] is Running ==> ({
                let mid = old(self).slots@.update(i as int, Slot::Idle(timer_of(action, now)));
                match r {
                    Some(j) => j < mid.len() && mid[j as int] is Queued && (forall|k: int|
                        0 <= k < j ==> !(mid[k] is Queued)) && final(self).slots@ == mid.update(
                        j as int,
                        Slot::Running,
                    ),
                    None => (forall|k: int| 0 <= k < mid.len() ==> !(mid[k] is Queued))
                        && final(self).slots@ == mid,
                }
            }),
    {
        if matches!(self.slots[i], Slot::RunningPending) {
            proof {
                lemma_count_update(self.slots@, i as int, Slot::Running);
            }
            self.slots.set(i, Slot::Running);
            return Some(i);
        }
        let timer = match action {
            Action::RequeueAfter(d) => Some(now.saturating_add(d)),
            Action::AwaitChange => None,
        };
        proof {
            lemma_count_update(self.slots@, i as int, Slot::Idle(timer));
        }
        self.slots.set(i, Slot::Idle(timer));
        let ghost mid = self.slots@;
        assert(mid == old(self).slots@.update(i as int, Slot::Idle(timer_of(action, now))));
        let mut j: usize = 0;
        while j < self.slots.len()
            invariant
                self.wf(),
                self.keys == old(self).keys,
                self.max_running == old(self).max_running,
                self.slots@ == mid,
                mid == old(self).slots@.update(i as int, Slot::Idle(timer_of(action, now))),
                old(self).slots@[i as int] is Running,
                self.running() < self.max_running,
                j <= self.slots.len(),
                forall|k: int| 0 <= k < j ==> !(self.slots@[k] is Queued),
            decreases self.slots.len() - j,
        {
            if matches!(self.slots[j], Slot::Queued) {
                proof {
                    lemma_count_update(self.slots@, j as int, Slot::Running);
                }
                self.slots.set(j, Slot::Running);
                return Some(j);
            }
            j += 1;
        }
        None
    }

    /// Starts, or queues where no worker is free, every idle entry whose
    /// requeue time is at or before `now`: a due entry is queued only when all
    /// workers are busy. Returns the entries started.
    pub fn fire_timers(&mut self, now: u64) -> (started: Vec<usize>)
        requires
            old(self).wf(),
        ensures
            final(self).wf(),
            final(self).keys == old(self).keys,
            final(self).max_running == old(self).max_running,
            final(self).slots.len() == old(self).slots.len(),
            forall|k: int|
                0 <= k < old(self).slots.len() ==> fire_ok(
                    old(self).slots@[k],
                    #[trigger] final(self).slots@[k],
                    now,
                ),
            forall|k: int|
                0 <= k < old(self).slots.len() ==> (started@.contains(k as usize) <==> (due(
                    old(self).slots@[k],
                    now,
                ) && final(self).slots@[k] is Running)),
            forall|x: usize| started@.contains(x) ==> x < old(self).slots.len(),
            forall|k: int|
                0 <= k < old(self).slots.len() && due(old(self).slots@[k], now)
                    && #[trigger] final(self).slots@[k] is Queued ==> final(self).running()
                    == final(self).max_running,
    {
        let mut n = self.running_count();
        let mut started: Vec<usize> = Vec::new();
        let mut i: usize = 0;
        while i < self.slots.len()
            invariant
                self.wf(),
                self.keys == old(self).keys,
                self.max_running == old(self).max_running,
                self.slots.len() == old(self).slots.len(),
                i <= self.slots.len(),
                n == self.running(),
                forall|x: usize| started@.contains(x) ==> x < i,
                forall|k: int|
                    0 <= k < i && due(old(self).slots@[k], now) && #[trigger] self.slots@[k] is Queued
                        ==> n == self.max_running,
                forall|k: int| i <= k < self.slots.len() ==> self.slots@[k] == old(self).slots@[k],
                forall|k: int|
                    0 <= k < i ==> fire_ok(old(self).slots@[k], #[trigger] self.slots@[k], now),
                forall|k: int|
                    0 <= k < self.slots.len() ==> (started@.contains(k as usize) <==> (k < i
                        && due(old(self).slots@[k], now) && self.slots@[k] is Running)),
            decreases self.slots.len() - i,
        {
            let is_due = match self.slots[i] {
                Slot::Idle(Some(t)) => t <= now,
                _ => false,
            };
            if is_due {
                if n < self.max_running {
                    proof {
                        lemma_count_update(self.slots@, i as int, Slot::Running);
                    }
                    self.slots.set(i, Slot::Running);
                    let ghost before = started@;
                    started.push(i);
                    assert forall|x: usize| started@.contains(x) <==> (before.contains(x) || x == i) by {
                        if before.contains(x) {
                            let w = choose|w: int| 0 <= w < before.len() && before[w] == x;
                            assert(started@[w] == x);
                        }
                        if x == i {
                            assert(started@[before.len() as int] == x);
                        }
                        if started@.contains(x) && x != i {
                            let w = choose|w: int| 0 <= w < started@.len() && started@[w] == x;
                            assert(w < before.len());
                            assert(before[w] == x);
                        }
                    }
                    assert forall|x: usize| started@.contains(x) implies x <= i by {
                        if before.contains(x) {
                            assert(x < i);
                        }
                    }
                    n += 1;
                } else {
                    proof {
                        lemma_count_update(self.slots@, i as int, Slot::Queued);
                    }
                    self.slots.set(i, Slot::Queued);
                }
            }
            i += 1;
        }
        started
    }
}

/// A due entry is started or queued; any other entry is left as it was.
pub open spec fn fire_ok(prev: Slot, cur: Slot, now: u64) -> bool {
    if due(prev, now) {
        cur is Running || cur is Queued
    } else {
        cur == prev
    }
}

/// Whether an entry's requeue time has come.
pub open spec fn due(s: Slot, now: u64) -> bool {
    match s {
        Slot::Idle(Some(t)) => t <= now,
        _ => false,
    }
}

/// No object has two reconciliations in flight at once: two in-flight
/// entries of a well-formed scheduler with the same identity are one entry.
pub proof fn lemma_serialized(s: Scheduler, i: int, j: int)
    requires
        s.wf(),
        0 <= i < s.keys.len(),
        0 <= j < s.keys.len(),
        in_flight(s.slots@[i]),
        in_flight(s.slots@[j]),
        s.keys@[i]@ == s.keys@[j]@,
    ensures
        i == j,
{
}

/// Any number of notifications for an object whose reconciliation runs start
/// nothing and are remembered as one rerun.
pub proof fn lemma_notifications_coalesce(prev: Slot, room: bool, n: nat)
    requires
        in_flight(prev),
    ensures
        notify_many(prev, room, n) == (if n == 0 { prev } else { Slot::RunningPending }),
        forall|m: nat| m < n ==> !(#[trigger] notify_spec(notify_many(prev, room, m), room)).1,
    decreases n,
{
    if n > 0 {
        lemma_notifications_coalesce(prev, room, (n - 1) as nat);
        assert forall|m: nat| m < n implies !(#[trigger] notify_spec(notify_many(prev, room, m), room)).1 by {
            if m < n - 1 {
            } else {
                assert(m == n - 1);
            }
        }
    }
}

/// The slot after `n` notifications, with `room` telling whether a worker is free.
pub open spec fn notify_many(prev: Slot, room: bool, n: nat) -> Slot
    decreases n,
{
    if n == 0 {
        prev
    } else {
        notify_spec(notify_many(prev, room, (n - 1) as nat), room).0
    }
}

pub proof fn lemma_count_prefix(s: Seq<Slot>, n: int)
    requires
        0 < n <= s.len(),
    ensures
        count_in_flight(s.take(n)) == count_in_flight(s.take(n - 1)) + if in_flight(s[n - 1]) {
            1nat
        } else {
            0nat
        },
{
    assert(s.take(n).drop_last() =~= s.take(n - 1));
}

} // verus!
