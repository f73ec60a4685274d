//! Simulated time.
//!
//! Time only moves when no task is ready: the scheduler then jumps to the
//! earliest pending deadline and fires every timer that is due, earliest
//! first. A sleep therefore completes exactly at its deadline. Instants are nanoseconds since the Unix epoch of the simulated
//! clock; durations are nanoseconds.
use vstd::prelude::*;
use priority_queue::PriorityQueue;
use crate::event::{Event, EventHandler, NonDeterminism, handled};

verus! {

#[verifier::external_type_specification]
#[verifier::external_body]
#[verifier::reject_recursive_types(I)]
#[verifier::reject_recursive_types(P)]
#[verifier::reject_recursive_types(H)]
pub struct ExPriorityQueue<I, P, H>(PriorityQueue<I, P, H>);

/// The pairs (timer, deadline) held by a timer queue.
pub uninterp spec fn timer_queue_contents(q: PriorityQueue<u64, u128>) -> Map<u64, u128>;

/// `PriorityQueue::new`: a queue holding no item.
#[verifier::external_body]
fn timer_queue_new() -> (queue: PriorityQueue<u64, u128>)
    ensures
        timer_queue_contents(queue).dom().is_empty(),
{
    PriorityQueue::new()
}

/// `PriorityQueue::push`: the item is held with the given priority afterwards;
/// the priority it had before, if it was held, is returned.
#[verifier::external_body]
fn timer_queue_push(q: &mut PriorityQueue<u64, u128>, item: u64, priority: u128) -> (old_priority: Option<u128>)
    ensures
        timer_queue_contents(*final(q)) == timer_queue_contents(*old(q)).insert(item, priority),
        timer_queue_contents(*final(q)).dom().finite(),
        match old_priority {
            Some(p) => timer_queue_contents(*old(q)).contains_key(item)
                && timer_queue_contents(*old(q))[item] == p,
            None => !timer_queue_contents(*old(q)).contains_key(item),
        },
{
    q.push(item, priority)
}

/// `PriorityQueue::peek`: an item with the greatest priority, or `None` when
/// the queue is empty. Nothing changes.
#[verifier::external_body]
fn timer_queue_peek(q: &PriorityQueue<u64, u128>) -> (r: Option<(u64, u128)>)
    ensures
        match r {
            None => timer_queue_contents(*q) == Map::<u64, u128>::empty(),
            Some((item, p)) => timer_queue_contents(*q).contains_key(item)
                && timer_queue_contents(*q)[item] == p
                && forall|j: u64| #[trigger] timer_queue_contents(*q).contains_key(j)
                    ==> timer_queue_contents(*q)[j] <= p,
        },
{
    match q.peek() {
        Some((item, p)) => Some((*item, *p)),
        None => None,
    }
}

/// `PriorityQueue::get_priority`: the priority of the item, if it is held.
#[verifier::external_body]
fn timer_queue_get_priority(q: &PriorityQueue<u64, u128>, item: u64) -> (r: Option<u128>)
    ensures
        match r {
            None => !timer_queue_contents(*q).contains_key(item),
            Some(p) => timer_queue_contents(*q).contains_key(item) && timer_queue_contents(*q)[item] == p,
        },
{
    match q.get_priority(&item) {
        Some(p) => Some(*p),
        None => None,
    }
}

/// The predicate handed to [timer_queue_pop_due].
fn priority_reached(priority: &u128, threshold: u128) -> (b: bool)
    ensures
        b == (*priority >= threshold),
{
    *priority >= threshold
}

/// `PriorityQueue::pop_if`, with the predicate "the priority is at least
/// `threshold`": when the queue is not empty and its greatest priority is at
/// least `threshold`, an item with that priority is removed and returned;
/// otherwise nothing changes and `None` is returned, and then every priority
/// in the queue, being at most the greatest, is below `threshold`.
#[verifier::external_body]
fn timer_queue_pop_due(q: &mut PriorityQueue<u64, u128>, threshold: u128) -> (r: Option<(u64, u128)>)
    ensures
        timer_queue_contents(*final(q)).dom().finite(),
        match r {
            Some((item, p)) => timer_queue_contents(*old(q)).contains_key(item)
                && timer_queue_contents(*old(q))[item] == p
                && p >= threshold
                && (forall|j: u64| #[trigger] timer_queue_contents(*old(q)).contains_key(j)
                    ==> timer_queue_contents(*old(q))[j] <= p)
                && timer_queue_contents(*final(q)) == timer_queue_contents(*old(q)).remove(item),
            None => timer_queue_contents(*final(q)) == timer_queue_contents(*old(q))
                && forall|j: u64| #[trigger] timer_queue_contents(*old(q)).contains_key(j)
                    ==> timer_queue_contents(*old(q))[j] < threshold,
        },
{
    q.pop_if(|_item, priority| priority_reached(priority, threshold))
}

/// `d` is the earliest deadline of the timers.
pub open spec fn is_earliest_deadline(timers: Map<u64, u128>, d: u128) -> bool {
    &&& exists|j: u64| #[trigger] timers.contains_key(j) && timers[j] == d
    &&& forall|k: u64| #[trigger] timers.contains_key(k) ==> timers[k] >= d
}

/// The handler rejected the advance of the clock to the earliest deadline.
pub open spec fn time_advance_failed(s: TimeScheduler, pre: EventHandler, post: EventHandler, e: NonDeterminism) -> bool {
    exists|d: u128|
        is_earliest_deadline(s.timers(), d) && #[trigger] handled(
            pre,
            Event::TimeAdvanced((d - s.now) as u128),
            post,
            Err(e),
        )
}

/// The timers `fired` are the timers due at `now`, each once and in the
/// order of their deadlines.
pub open spec fn fired_in_order(timers: Map<u64, u128>, now: u128, fired: Seq<u64>) -> bool {
    &&& fired.no_duplicates()
    &&& forall|t: u64| #[trigger] fired.contains(t) <==> (timers.contains_key(t) && timers[t] <= now)
    &&& forall|i: int, j: int| 0 <= i < j < fired.len() ==> timers[#[trigger] fired[i]] <= timers[#[trigger] fired[j]]
}

/// When the clock advances, it advances to the earliest pending deadline:
/// it never passes a pending timer, and the timers fired are exactly those
/// whose deadline the clock has reached, so every sleep completes at its
/// deadline.
pub proof fn lemma_timers_fire_at_their_deadline(timers: Map<u64, u128>, now: u128, fired: Seq<u64>, t: u64)
    requires
        is_earliest_deadline(timers, now),
        fired_in_order(timers, now, fired),
        timers.contains_key(t),
    ensures
        now <= timers[t],
        fired.contains(t) <==> timers[t] == now,
{
}

/// A measure for loops that work off a collection and then stop once.
pub open spec fn remaining_steps(len: nat, done: bool) -> int {
    if done {
        len as int
    } else {
        len as int + 1
    }
}

/// The simulated clock and the queue of pending timers.
pub struct TimeScheduler {
    pub upcoming_events: PriorityQueue<u64, u128>,
    pub now: u128,
    pub next_timer: u64,
    /// The deadline of every timer ever registered.
    pub registered: Ghost<Map<u64, u128>>,
}

/// The state of a [Sleep] future.
#[derive(Clone, Copy, PartialEq, Eq, Structural, Debug)]
pub enum SleepState {
    /// Not polled yet; wakes at this deadline.
    Init(u128),
    /// Registered as this timer.
    Waiting(u64),
    /// Elapsed.
    Done,
}

/// A future that completes once simulated time reaches a deadline.
pub struct Sleep {
    pub state: SleepState,
    pub deadline: u128,
}

impl TimeScheduler {
    /// The pending timers and their deadlines.
    pub open spec fn timers(&self) -> Map<u64, u128> {
        Map::new(
            |t: u64| timer_queue_contents(self.upcoming_events).contains_key(t),
            |t: u64| (u128::MAX - timer_queue_contents(self.upcoming_events)[t]) as u128,
        )
    }

    /// Every pending deadline lies in the future, every timer id was
    /// handed out already, and every timer that is no longer pending had a
    /// deadline that has been reached.
    pub open spec fn wf(&self) -> bool {
        &&& timer_queue_contents(self.upcoming_events).dom().finite()
        &&& forall|t: u64| #[trigger] self.timers().contains_key(t) ==> self.timers()[t] > self.now
            && t < self.next_timer
        &&& forall|t: u64| #[trigger] self.registered@.contains_key(t) <==> t < self.next_timer
        &&& forall|t: u64| #[trigger] self.timers().contains_key(t) ==> self.registered@[t] == self.timers()[t]
        &&& forall|t: u64| #[trigger] self.registered@.contains_key(t) && !self.timers().contains_key(t)
            ==> self.registered@[t] <= self.now
    }

    /// A scheduler whose clock reads `now` and that has no pending timer.
    pub fn new(now: u128) -> (s: TimeScheduler)
        ensures
            s.wf(),
            s.now == now,
            s.timers() == Map::<u64, u128>::empty(),
    {
        let s = TimeScheduler {
            upcoming_events: timer_queue_new(),
            now,
            next_timer: 0,
            registered: Ghost(Map::empty()),
        };
        proof {
            assert(s.timers() =~= Map::<u64, u128>::empty());
        }
        s
    }

    /// The current simulated instant.
    pub fn now(&self) -> (t: u128)
        ensures
            t == self.now,
    {
        self.now
    }

    /// Register a timer for `deadline`.
    fn register(&mut self, deadline: u128) -> (timer: u64)
        requires
            old(self).wf(),
            deadline > old(self).now,
            old(self).next_timer < u64::MAX,
        ensures
            final(self).wf(),
            final(self).now == old(self).now,
            timer == old(self).next_timer,
            final(self).next_timer == old(self).next_timer + 1,
            final(self).timers() == old(self).timers().insert(timer, deadline),
            final(self).registered@ == old(self).registered@.insert(timer, deadline),
    {
        let timer = self.next_timer;
        self.next_timer = self.next_timer + 1;
        let _ = timer_queue_push(&mut self.upcoming_events, timer, u128::MAX - deadline);
        self.registered = Ghost(self.registered@.insert(timer, deadline));
        proof {
            assert(!old(self).registered@.contains_key(timer));
            assert(self.timers() =~= old(self).timers().insert(timer, deadline));
        }
        timer
    }

    /// The timer is still pending.
    pub fn is_pending(&self, timer: u64) -> (b: bool)
        ensures
            b == self.timers().contains_key(timer),
    {
        timer_queue_get_priority(&self.upcoming_events, timer).is_some()
    }

    /// No task is ready: advance the clock to the earliest pending deadline
    /// and fire every timer that is then due (those with that deadline).
    ///
    /// Returns `None` when no timer is pending. Otherwise records the time
    /// advance with the event handler and returns the time advanced and the
    /// timers fired.
    pub fn wait_until_next_future_ready(&mut self, event_handler: &mut EventHandler) -> (r: Result<
        Option<(u128, Vec<u64>)>,
        NonDeterminism,
    >)
        requires
            old(self).wf(),
            old(event_handler).wf(),
        ensures
            final(self).wf(),
            final(event_handler).wf(),
            final(self).next_timer == old(self).next_timer,
            final(self).registered == old(self).registered,
            final(self).now >= old(self).now,
            match r {
                Ok(None) => old(self).timers() == Map::<u64, u128>::empty()
                    && final(self).now == old(self).now
                    && final(self).timers() == old(self).timers()
                    && *final(event_handler) == *old(event_handler),
                Ok(Some((dt, fired))) => {
                    &&& old(self).timers().dom().len() > 0
                    &&& is_earliest_deadline(old(self).timers(), final(self).now)
                    &&& dt == final(self).now - old(self).now
                    &&& dt > 0
                    &&& handled(*old(event_handler), Event::TimeAdvanced(dt), *final(event_handler), Ok(()))
                    &&& fired_in_order(old(self).timers(), final(self).now, fired@)
                    &&& final(self).timers() == old(self).timers().remove_keys(fired@.to_set())
                },
                Err(e) => {
                    &&& old(self).timers().dom().len() > 0
                    &&& final(self).now == old(self).now
                    &&& final(self).timers() == old(self).timers()
                    &&& time_advance_failed(*old(self), *old(event_handler), *final(event_handler), e)
                },
            },
    {
        let ghost old_timers = self.timers();
        let top = match timer_queue_peek(&self.upcoming_events) {
            None => {
                proof {
                    assert(old_timers =~= Map::<u64, u128>::empty());
                }
                return Ok(None);
            },
            Some((_, p)) => p,
        };
        let next = u128::MAX - top;
        proof {
            let w = choose|j: u64| #[trigger] timer_queue_contents(self.upcoming_events).contains_key(j)
                && timer_queue_contents(self.upcoming_events)[j] == top;
            assert(old_timers.contains_key(w) && old_timers[w] == next);
            assert(old_timers.dom().finite()) by {
                assert(old_timers.dom() =~= timer_queue_contents(self.upcoming_events).dom());
            }
            assert(old_timers.dom().contains(w));
            assert(old_timers.dom().len() > 0);
            assert forall|k: u64| #[trigger] old_timers.contains_key(k) implies old_timers[k] >= next by {
                assert(timer_queue_contents(self.upcoming_events)[k] <= top);
            }
            assert(is_earliest_deadline(old_timers, next));
        }
        let dt = next - self.now;
        match event_handler.handle_event(Event::TimeAdvanced(dt)) {
            Err(e) => {
                return Err(e);
            },
            Ok(()) => {},
        }
        self.now = next;
        let threshold = u128::MAX - next;
        let mut fired: Vec<u64> = Vec::new();
        let mut done = false;
        while !done
            invariant
                self.now == next,
                threshold == u128::MAX - next,
                self.next_timer == old(self).next_timer,
                self.registered == old(self).registered,
                old(self).wf(),
                old_timers == old(self).timers(),
                next > old(self).now,
                old_timers.dom().finite(),
                is_earliest_deadline(old_timers, next),
                timer_queue_contents(self.upcoming_events).dom().finite(),
                forall|t: u64| #[trigger] self.timers().contains_key(t) ==> old_timers.contains_key(t)
                    && self.timers()[t] == old_timers[t],
                forall|t: u64| #[trigger] old_timers.contains_key(t) ==> (self.timers().contains_key(t)
                    <==> !fired@.contains(t)),
                forall|i: int| 0 <= i < fired@.len() ==> old_timers.contains_key(#[trigger] fired@[i])
                    && old_timers[fired@[i]] <= next,
                forall|i: int, j: int| 0 <= i < j < fired@.len() ==> old_timers[#[trigger] fired@[i]]
                    <= old_timers[#[trigger] fired@[j]],
                forall|i: int, t: u64| 0 <= i < fired@.len() && #[trigger] self.timers().contains_key(t)
                    ==> old_timers[#[trigger] fired@[i]] <= self.timers()[t],
                fired@.no_duplicates(),
                done ==> forall|t: u64| #[trigger] self.timers().contains_key(t) ==> self.timers()[t] > next,
            decreases remaining_steps(timer_queue_contents(self.upcoming_events).dom().len(), done),
        {
            let ghost before = self.timers();
            let ghost contents_before = timer_queue_contents(self.upcoming_events);
            match timer_queue_pop_due(&mut self.upcoming_events, threshold) {
                Some((timer, p)) => {
                    proof {
                        assert(!fired@.contains(timer));
                        assert(self.timers() =~= before.remove(timer));
                        assert(before[timer] == (u128::MAX - p) as u128);
                        assert forall|t: u64| #[trigger] before.contains_key(t) implies before[timer] <= before[t] by {
                            assert(contents_before[t] <= p);
                        }
                        assert(timer_queue_contents(self.upcoming_events).dom() =~= contents_before.dom().remove(timer));
                    }
                    let ghost fired_before = fired@;
                    fired.push(timer);
                    proof {
                        assert(fired@ =~= fired_before.push(timer));
                        assert forall|t: u64| #[trigger] old_timers.contains_key(t) implies (
                        self.timers().contains_key(t) <==> !fired@.contains(t)) by {
                            if t != timer {
                                assert(before.contains_key(t) <==> !fired_before.contains(t));
                                assert(fired@.contains(t) <==> fired_before.contains(t)) by {
                                    if fired@.contains(t) {
                                        let i = fired@.index_of(t);
                                        assert(fired_before[i] == t);
                                    }
                                    if fired_before.contains(t) {
                                        let i = fired_before.index_of(t);
                                        assert(fired@[i] == t);
                                    }
                                }
                            } else {
                                assert(fired@[fired@.len() - 1] == timer);
                            }
                        }
                        assert forall|i: int, j: int| 0 <= i < j < fired@.len() implies old_timers[#[trigger] fired@[i]]
                            <= old_timers[#[trigger] fired@[j]] by {
                            if j == fired@.len() - 1 {
                                assert(fired@[i] == fired_before[i]);
                                assert(before.contains_key(timer));
                            } else {
                                assert(fired@[i] == fired_before[i] && fired@[j] == fired_before[j]);
                            }
                        }
                        assert forall|i: int, t: u64| 0 <= i < fired@.len() && #[trigger] self.timers().contains_key(t)
                            implies old_timers[#[trigger] fired@[i]] <= self.timers()[t] by {
                            assert(before.contains_key(t));
                            if i < fired_before.len() {
                                assert(fired@[i] == fired_before[i]);
                            }
                        }
                    }
                },
                None => {
                    proof {
                        assert forall|t: u64| #[trigger] self.timers().contains_key(t) implies self.timers()[t] > next by {
                            assert(contents_before[t] < threshold);
                        }
                    }
                    done = true;
                },
            }
        }
        proof {
            assert forall|t: u64| #[trigger] self.timers().contains_key(t) implies self.timers()[t] > self.now
                && t < self.next_timer by {
                assert(old_timers.contains_key(t));
            }
            assert forall|t: u64| #[trigger] self.registered@.contains_key(t) && !self.timers().contains_key(t)
                implies self.registered@[t] <= self.now by {
                if old_timers.contains_key(t) {
                    if !fired@.contains(t) {
                        assert(self.timers().contains_key(t));
                    } else {
                        let i = fired@.index_of(t);
                        assert(old_timers[fired@[i]] <= next);
                    }
                } else {
                    assert(old(self).registered@[t] <= old(self).now);
                }
            }
            assert forall|t: u64| #[trigger] fired@.contains(t) <==> (old_timers.contains_key(t) && old_timers[t]
                <= self.now) by {
                if fired@.contains(t) {
                    let i = fired@.index_of(t);
                    assert(old_timers[fired@[i]] <= next);
                }
                if old_timers.contains_key(t) && old_timers[t] <= self.now && !fired@.contains(t) {
                    assert(self.timers().contains_key(t));
                }
            }
            assert(self.timers() =~= old_timers.remove_keys(fired@.to_set()));
        }
        Ok(Some((dt, fired)))
    }
}

impl Sleep {
    /// The sleep's state agrees with the scheduler: a registered sleep's
    /// timer has the sleep's deadline, and an elapsed sleep's deadline has
    /// been reached.
    pub open spec fn wf(&self, sched: TimeScheduler) -> bool {
        match self.state {
            SleepState::Init(d) => d == self.deadline,
            SleepState::Waiting(t) => sched.registered@.contains_key(t) && sched.registered@[t] == self.deadline,
            SleepState::Done => self.deadline <= sched.now,
        }
    }

    /// Simulated time moved on under the same timers: a sleep stays
    /// consistent with its scheduler.
    pub proof fn lemma_wf_preserved(&self, s1: TimeScheduler, s2: TimeScheduler)
        requires
            self.wf(s1),
            s2.registered == s1.registered,
            s2.now >= s1.now,
        ensures
            self.wf(s2),
    {
    }

    /// Poll the sleep future: `true` once its deadline has been reached.
    ///
    /// A sleep polled for the first time completes at once if its deadline
    /// has passed and otherwise registers a timer. A registered sleep
    /// completes once its timer has fired.
    pub fn poll(&mut self, sched: &mut TimeScheduler) -> (ready: bool)
        requires
            old(sched).wf(),
            old(sched).next_timer < u64::MAX,
            old(self).wf(*old(sched)),
        ensures
            final(sched).wf(),
            final(self).wf(*final(sched)),
            final(self).deadline == old(self).deadline,
            ready ==> final(sched).now >= old(self).deadline,
            final(sched).now == old(sched).now,
            match old(self).state {
                SleepState::Init(deadline) => if old(sched).now >= deadline {
                    ready && final(self).state == SleepState::Done && *final(sched) == *old(sched)
                } else {
                    !ready && final(self).state == SleepState::Waiting(old(sched).next_timer)
                        && final(sched).next_timer == old(sched).next_timer + 1
                        && final(sched).timers() == old(sched).timers().insert(old(sched).next_timer, deadline)
                },
                SleepState::Waiting(t) => *final(sched) == *old(sched) && if old(sched).timers().contains_key(t) {
                    !ready && final(self).state == old(self).state
                } else {
                    ready && final(self).state == SleepState::Done
                },
                SleepState::Done => ready && final(self).state == SleepState::Done && *final(sched) == *old(sched),
            },
    {
        match self.state {
            SleepState::Init(deadline) => {
                if sched.now >= deadline {
                    self.state = SleepState::Done;
                    true
                } else {
                    let timer = sched.register(deadline);
                    self.state = SleepState::Waiting(timer);
                    false
                }
            },
            SleepState::Waiting(t) => {
                if sched.is_pending(t) {
                    false
                } else {
                    self.state = SleepState::Done;
                    true
                }
            },
            SleepState::Done => true,
        }
    }
}

/// A future that completes at `deadline`.
pub fn sleep_until(deadline: u128) -> (s: Sleep)
    ensures
        s.state == SleepState::Init(deadline),
        s.deadline == deadline,
{
    Sleep { state: SleepState::Init(deadline), deadline }
}

/// A future that completes `duration` nanoseconds after the current instant.
pub fn sleep(sched: &TimeScheduler, duration: u128) -> (s: Sleep)
    requires
        sched.now + duration <= u128::MAX,
    ensures
        s.state == SleepState::Init((sched.now + duration) as u128),
        s.deadline == sched.now + duration,
{
    sleep_until(sched.now + duration)
}

} // verus!
