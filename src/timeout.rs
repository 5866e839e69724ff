//! One-shot delayed callbacks.
//!
//! Each timer gets the next integer handle, starting at 1, and moves from
//! scheduled to fired exactly once. A delivery of its handle runs the
//! callback only once the delay has elapsed since scheduling; an early
//! delivery reports the time still to wait, a second one is refused, and an
//! unknown handle is a broken invariant for the caller to treat as fatal.
//! Entries stay in the table after firing.
use vstd::prelude::*;

verus! {

/// Identifies a scheduled timer; the script side keeps its callback under it.
pub type TimerHandle = i64;

/// Bookkeeping of one timer; times are milliseconds on the host's clock.
#[derive(Clone, Copy, Debug)]
pub struct TimerEntry {
    pub scheduled_at: u64,
    pub delay_ms: u64,
    pub fired_at: Option<u64>,
}

/// The earliest instant at which the timer may run.
pub open spec fn due_at(e: TimerEntry) -> int {
    e.scheduled_at + e.delay_ms
}

/// What to do with a delivered timer handle.
#[derive(Clone, Copy, Debug)]
pub enum Delivery {
    /// Run the callback now; the timer is marked fired.
    Invoke,
    /// The delay has not elapsed: deliver again after `remaining_ms`.
    Early { remaining_ms: u64 },
    /// The timer already ran; it does not run again.
    AlreadyFired,
    /// No timer has this handle.
    Unknown,
}

pub open spec fn valid_handle(timers: Seq<TimerEntry>, handle: int) -> bool {
    1 <= handle <= timers.len()
}

/// The entry of `handle`, for a valid handle.
pub open spec fn entry_of(timers: Seq<TimerEntry>, handle: int) -> TimerEntry {
    timers[handle - 1]
}

/// The outcome of delivering `handle` at `now`, and the table after it.
pub open spec fn delivery_spec(timers: Seq<TimerEntry>, handle: int, now: int) -> (Delivery, Seq<TimerEntry>) {
    if !valid_handle(timers, handle) {
        (Delivery::Unknown, timers)
    } else {
        let e = entry_of(timers, handle);
        if e.fired_at is Some {
            (Delivery::AlreadyFired, timers)
        } else if now < due_at(e) {
            let wait = due_at(e) - now;
            (Delivery::Early { remaining_ms: if wait > u64::MAX { u64::MAX } else { wait as u64 } }, timers)
        } else {
            (Delivery::Invoke, timers.update(handle - 1, TimerEntry { fired_at: Some(now as u64), ..e }))
        }
    }
}

/// The timer table.
pub struct TimerTable {
    entries: Vec<TimerEntry>,
}

impl View for TimerTable {
    type V = Seq<TimerEntry>;

    closed spec fn view(&self) -> Seq<TimerEntry> {
        self.entries@
    }
}

impl TimerTable {
    pub fn new() -> (t: TimerTable)
        ensures
            t@ == Seq::<TimerEntry>::empty(),
    {
        TimerTable { entries: Vec::new() }
    }

    /// Number of timers ever scheduled.
    pub fn len(&self) -> (n: usize)
        ensures
            n == self@.len(),
    {
        self.entries.len()
    }

    /// The bookkeeping of `handle`, if a timer has it.
    pub fn entry(&self, handle: TimerHandle) -> (r: Option<TimerEntry>)
        ensures
            valid_handle(self@, handle as int) ==> r == Some(entry_of(self@, handle as int)),
            !valid_handle(self@, handle as int) ==> r is None,
    {
        if 1 <= handle && handle as u64 <= self.entries.len() as u64 {
            Some(self.entries[(handle - 1) as usize])
        } else {
            None
        }
    }

    /// Decides what a delivery of `handle` at `now_ms` does, and records a
    /// firing.
    pub fn deliver(&mut self, handle: TimerHandle, now_ms: u64) -> (r: Delivery)
        ensures
            (r, final(self)@) == delivery_spec(old(self)@, handle as int, now_ms as int),
    {
        if !(1 <= handle && handle as u64 <= self.entries.len() as u64) {
            return Delivery::Unknown;
        }
        let i = (handle - 1) as usize;
        let e = self.entries[i];
        if e.fired_at.is_some() {
            Delivery::AlreadyFired
        } else if now_ms < e.scheduled_at || now_ms - e.scheduled_at < e.delay_ms {
            let remaining_ms = if now_ms >= e.scheduled_at {
                e.delay_ms - (now_ms - e.scheduled_at)
            } else {
                e.delay_ms.saturating_add(e.scheduled_at - now_ms)
            };
            Delivery::Early { remaining_ms }
        } else {
            self.entries.set(i, TimerEntry { fired_at: Some(now_ms), ..e });
            Delivery::Invoke
        }
    }
}

/// Schedules a timer at `now_ms` that becomes due `delay_ms` later, and
/// returns its handle: one more than the number of timers scheduled before.
pub fn add_timer(timers: &mut TimerTable, now_ms: u64, delay_ms: u64) -> (handle: TimerHandle)
    requires
        old(timers)@.len() < i64::MAX,
    ensures
        handle == old(timers)@.len() + 1,
        final(timers)@ == old(timers)@.push(TimerEntry { scheduled_at: now_ms, delay_ms, fired_at: None }),
{
    let handle = timers.entries.len() as i64 + 1;
    timers.entries.push(TimerEntry { scheduled_at: now_ms, delay_ms, fired_at: None });
    handle
}

/// A scheduled timer runs exactly once and never early: delivered before it
/// is due it does not run; delivered at or after that it runs, and its
/// firing time is recorded; once fired, no later delivery runs it again.
pub proof fn lemma_timer_runs_once_when_due(timers: Seq<TimerEntry>, handle: int, now: int, later: int)
    requires
        valid_handle(timers, handle),
        entry_of(timers, handle).fired_at is None,
        0 <= now <= u64::MAX,
    ensures
        delivery_spec(timers, handle, now).0 is Invoke <==> now >= due_at(entry_of(timers, handle)),
        delivery_spec(timers, handle, now).0 is Invoke ==> {
            let after = delivery_spec(timers, handle, now).1;
            &&& entry_of(after, handle).fired_at == Some(now as u64)
            &&& delivery_spec(after, handle, later).0 is AlreadyFired
        },
{
}

/// A freshly scheduled timer has not fired, under the handle it was given.
pub proof fn lemma_new_timer_unfired(timers: Seq<TimerEntry>, now: u64, delay: u64)
    ensures
        ({
            let after = timers.push(TimerEntry { scheduled_at: now, delay_ms: delay, fired_at: None });
            &&& valid_handle(after, timers.len() as int + 1)
            &&& entry_of(after, timers.len() as int + 1).fired_at is None
            &&& due_at(entry_of(after, timers.len() as int + 1)) == now + delay
        }),
{
}

/// Of two timers scheduled at the same instant, the one with the shorter
/// delay is due first: wherever the longer one runs, the shorter one, if it
/// has not run yet, would run too.
pub proof fn lemma_shorter_delay_due_first(timers: Seq<TimerEntry>, h1: int, h2: int, now: int)
    requires
        valid_handle(timers, h1),
        valid_handle(timers, h2),
        entry_of(timers, h1).scheduled_at == entry_of(timers, h2).scheduled_at,
        entry_of(timers, h1).delay_ms <= entry_of(timers, h2).delay_ms,
        entry_of(timers, h1).fired_at is None,
        delivery_spec(timers, h2, now).0 is Invoke,
    ensures
        due_at(entry_of(timers, h1)) <= due_at(entry_of(timers, h2)),
        delivery_spec(timers, h1, now).0 is Invoke,
{
}

/// Delivers `(handle, now)` pairs one after another: the outcomes, in order,
/// and the table after the last.
pub open spec fn deliver_all(timers: Seq<TimerEntry>, deliveries: Seq<(int, int)>) -> (Seq<Delivery>, Seq<TimerEntry>)
    decreases deliveries.len(),
{
    if deliveries.len() == 0 {
        (Seq::empty(), timers)
    } else {
        let (d, next) = delivery_spec(timers, deliveries[0].0, deliveries[0].1);
        let (rest, last) = deliver_all(next, deliveries.drop_first());
        (seq![d] + rest, last)
    }
}

/// Delivering never changes when a timer was scheduled or for how long, nor
/// how many timers there are.
proof fn lemma_deliveries_keep_schedule(timers: Seq<TimerEntry>, deliveries: Seq<(int, int)>)
    ensures
        deliver_all(timers, deliveries).1.len() == timers.len(),
        deliver_all(timers, deliveries).0.len() == deliveries.len(),
        forall|h: int| #![trigger entry_of(deliver_all(timers, deliveries).1, h)]
            valid_handle(timers, h) ==> {
                &&& entry_of(deliver_all(timers, deliveries).1, h).scheduled_at == entry_of(timers, h).scheduled_at
                &&& entry_of(deliver_all(timers, deliveries).1, h).delay_ms == entry_of(timers, h).delay_ms
            },
    decreases deliveries.len(),
{
    if deliveries.len() > 0 {
        let next = delivery_spec(timers, deliveries[0].0, deliveries[0].1).1;
        lemma_deliveries_keep_schedule(next, deliveries.drop_first());
        assert forall|h: int| #![trigger entry_of(deliver_all(timers, deliveries).1, h)]
            valid_handle(timers, h) implies {
                &&& entry_of(deliver_all(timers, deliveries).1, h).scheduled_at == entry_of(timers, h).scheduled_at
                &&& entry_of(deliver_all(timers, deliveries).1, h).delay_ms == entry_of(timers, h).delay_ms
            } by {
            assert(entry_of(next, h).scheduled_at == entry_of(timers, h).scheduled_at);
            assert(entry_of(deliver_all(next, deliveries.drop_first()).1, h) == entry_of(deliver_all(timers, deliveries).1, h));
        }
    }
}

/// Once a timer has fired, no delivery runs it.
proof fn lemma_fired_timer_never_runs(timers: Seq<TimerEntry>, deliveries: Seq<(int, int)>, h: int)
    requires
        valid_handle(timers, h),
        entry_of(timers, h).fired_at is Some,
    ensures
        forall|k: int| 0 <= k < deliveries.len() && #[trigger] deliver_all(timers, deliveries).0[k] is Invoke
            ==> deliveries[k].0 != h,
    decreases deliveries.len(),
{
    lemma_deliveries_keep_schedule(timers, deliveries);
    if deliveries.len() > 0 {
        let next = delivery_spec(timers, deliveries[0].0, deliveries[0].1).1;
        lemma_fired_timer_never_runs(next, deliveries.drop_first(), h);
        let outcomes = deliver_all(timers, deliveries).0;
        let rest = deliver_all(next, deliveries.drop_first()).0;
        assert forall|k: int| 0 <= k < deliveries.len() && #[trigger] outcomes[k] is Invoke
            implies deliveries[k].0 != h by {
            if k > 0 {
                assert(outcomes[k] == rest[k - 1]);
                assert(deliveries.drop_first()[k - 1] == deliveries[k]);
            }
        }
    }
}

/// Over any sequence of deliveries, a timer runs at most once, and only at
/// or after its due time.
pub proof fn lemma_deliveries_run_each_timer_once(timers: Seq<TimerEntry>, deliveries: Seq<(int, int)>)
    requires
        forall|k: int| 0 <= k < deliveries.len() ==> 0 <= #[trigger] deliveries[k].1 <= u64::MAX,
    ensures
        forall|i: int, j: int|
            0 <= i < j < deliveries.len() && #[trigger] deliver_all(timers, deliveries).0[i] is Invoke
                && #[trigger] deliver_all(timers, deliveries).0[j] is Invoke
                ==> deliveries[i].0 != deliveries[j].0,
        forall|k: int| 0 <= k < deliveries.len() && #[trigger] deliver_all(timers, deliveries).0[k] is Invoke
            ==> valid_handle(timers, deliveries[k].0)
                && deliveries[k].1 >= due_at(entry_of(timers, deliveries[k].0)),
    decreases deliveries.len(),
{
    if deliveries.len() > 0 {
        let (h, now) = deliveries[0];
        let next = delivery_spec(timers, h, now).1;
        let later = deliveries.drop_first();
        let outcomes = deliver_all(timers, deliveries).0;
        let rest = deliver_all(next, later).0;
        lemma_deliveries_run_each_timer_once(next, later);
        lemma_deliveries_keep_schedule(next, later);
        assert(outcomes =~= seq![delivery_spec(timers, h, now).0] + rest);
        if outcomes[0] is Invoke {
            lemma_fired_timer_never_runs(next, later, h);
        }
        assert forall|i: int, j: int|
            0 <= i < j < deliveries.len() && #[trigger] outcomes[i] is Invoke && #[trigger] outcomes[j] is Invoke
            implies deliveries[i].0 != deliveries[j].0 by {
            assert(outcomes[j] == rest[j - 1]);
            assert(later[j - 1] == deliveries[j]);
            if i > 0 {
                assert(outcomes[i] == rest[i - 1]);
                assert(later[i - 1] == deliveries[i]);
            }
        }
        assert forall|k: int| 0 <= k < deliveries.len() && #[trigger] outcomes[k] is Invoke
            implies valid_handle(timers, deliveries[k].0)
                && deliveries[k].1 >= due_at(entry_of(timers, deliveries[k].0)) by {
            if k > 0 {
                assert(outcomes[k] == rest[k - 1]);
                assert(later[k - 1] == deliveries[k]);
                assert(0 <= later[k - 1].1 <= u64::MAX);
                let g = deliveries[k].0;
                assert(valid_handle(next, g));
                assert(entry_of(next, g).scheduled_at == entry_of(timers, g).scheduled_at);
                assert(entry_of(next, g).delay_ms == entry_of(timers, g).delay_ms);
            }
        }
    }
}

} // verus!
