use vstd::prelude::*;
use crate::timer::{timer_cancel_next, timer_finish_next, timer_start_next, TimerState};
use crate::schedule::{
    schedule_cancel_next, schedule_finish_next, schedule_start_next, ScheduleState,
};
use crate::schedule::{Schedule, DEFAULT_PERIOD};
use crate::timer::{add_ticks, deadline_after, Timer};
use crate::timer_heap::{earliest, TimedActionBinaryHeap};

verus! {

/// A timer's callback, with whether it may run more than once.
pub struct Callback<C> {
    pub f: C,
    pub repeating: bool,
}

pub struct TimerData<C> {
    pub state: TimerState,
    pub act: Option<Callback<C>>,
}

/// A schedule's record: it fires every `period` ticks, counted from
/// `target`; `last` is when it last fired or was started.
pub struct ScheduleData<C> {
    pub state: ScheduleState,
    pub period: u64,
    pub last: u64,
    pub target: u64,
    pub act: Option<C>,
}

pub enum Record<C> {
    Timer(TimerData<C>),
    Schedule(ScheduleData<C>),
}

/// What firing a due action asks of the caller.
pub enum Fire<C> {
    /// Nothing to call; the action was settled already.
    Idle,
    /// Call this timer callback, then hand it back with `finish_timer`.
    Timer(Callback<C>),
    /// Call this schedule callback with the ticks since the last firing,
    /// then hand it back with `finish_schedule`.
    Schedule(C, u64),
}

/// How long the loop may sleep before the next deadline.
#[derive(Debug, PartialEq, Eq, Structural, Clone, Copy)]
pub enum WaitingTime {
    Infinite,
    Zero,
    Duration(u64),
}

/// The loop thread's side of a run loop: the timer heap and the records of
/// its timers, indexed by the same ids. `C` is the type of the callbacks,
/// which the loop hands out to be run and takes back afterwards.
pub struct RunLoop<C> {
    timers: TimedActionBinaryHeap,
    records: Vec<Record<C>>,
    current: Option<usize>,
}

pub open spec fn record_timer_state<C>(r: Record<C>) -> TimerState {
    match r {
        Record::Timer(t) => t.state,
        _ => TimerState::Idle,
    }
}

pub open spec fn record_schedule_state<C>(r: Record<C>) -> ScheduleState {
    match r {
        Record::Schedule(d) => d.state,
        _ => ScheduleState::Idle,
    }
}

/// `a - b`, held at zero.
pub open spec fn ticks_between(a: u64, b: u64) -> u64 {
    if a >= b {
        (a - b) as u64
    } else {
        0
    }
}

/// The callback kept after a timer's callback returns: one installed during
/// the call wins; else a repeating callback goes back in place.
pub open spec fn timer_callback_after<C>(act: Option<Callback<C>>, cb: Callback<C>) -> Option<Callback<C>> {
    if act is None && cb.repeating {
        Some(cb)
    } else {
        act
    }
}

/// The record after firing at `now`, and what the caller is asked to do.
pub open spec fn fire_record<C>(r: Record<C>, now: u64) -> (Record<C>, Fire<C>) {
    match r {
        Record::Timer(t) => match t.act {
            Some(cb) => (
                Record::Timer(TimerData { state: TimerState::Processing, act: None }),
                Fire::Timer(cb),
            ),
            None => (Record::Timer(TimerData { state: TimerState::Idle, act: None }), Fire::Idle),
        },
        Record::Schedule(d) => {
            let target = deadline_after(d.target, d.period);
            match d.act {
                Some(f) => (
                    Record::Schedule(
                        ScheduleData {
                            state: ScheduleState::Processing,
                            period: d.period,
                            last: now,
                            target,
                            act: None,
                        },
                    ),
                    Fire::Schedule(f, ticks_between(now, d.last)),
                ),
                None => (
                    Record::Schedule(
                        ScheduleData {
                            state: d.state,
                            period: d.period,
                            last: now,
                            target,
                            act: None,
                        },
                    ),
                    Fire::Idle,
                ),
            }
        },
    }
}

/// The record with its callback dropped.
pub open spec fn without_callback<C>(r: Record<C>) -> Record<C> {
    match r {
        Record::Timer(t) => Record::Timer(TimerData { act: None, ..t }),
        Record::Schedule(d) => Record::Schedule(ScheduleData { act: None, ..d }),
    }
}

/// A record is settled when its state is one that can be seen from outside
/// a callback.
pub open spec fn settled<C>(r: Record<C>) -> bool {
    match r {
        Record::Timer(t) => t.state == TimerState::Idle || t.state == TimerState::Active,
        Record::Schedule(d) => d.state == ScheduleState::Idle || d.state == ScheduleState::Active,
    }
}

/// The states a record can be in while its callback runs.
pub open spec fn in_callback<C>(r: Record<C>) -> bool {
    match r {
        Record::Timer(t) => t.state == TimerState::Processing || t.state is Restart,
        Record::Schedule(d) => d.state == ScheduleState::Processing || d.state
            == ScheduleState::Cancelled,
    }
}

/// Whether the record's action belongs in the heap.
pub open spec fn armed<C>(r: Record<C>) -> bool {
    match r {
        Record::Timer(t) => t.state != TimerState::Idle,
        Record::Schedule(d) => d.state != ScheduleState::Idle,
    }
}

/// `after` is `before` with timer `id` started for `deadline`.
pub open spec fn timer_started<C>(before: RunLoop<C>, after: RunLoop<C>, id: usize, deadline: u64) -> bool {
    &&& after.wf()
    &&& after.current() == before.current()
    &&& after.records() == before.records().update(
        id as int,
        Record::Timer(
            TimerData {
                state: timer_start_next(before.timer_state(id), deadline),
                act: before.timer_callback(id),
            },
        ),
    )
    &&& after.scheduled() == (match before.timer_state(id) {
        TimerState::Idle | TimerState::Active => before.scheduled().insert(id, deadline),
        _ => before.scheduled(),
    })
}

/// `after` is `before` with timer `id` cancelled.
pub open spec fn timer_cancelled<C>(before: RunLoop<C>, after: RunLoop<C>, id: usize) -> bool {
    &&& after.wf()
    &&& after.current() == before.current()
    &&& after.records() == before.records().update(
        id as int,
        Record::Timer(
            TimerData {
                state: timer_cancel_next(before.timer_state(id)),
                act: before.timer_callback(id),
            },
        ),
    )
    &&& after.scheduled() == (if before.timer_state(id) == TimerState::Active {
        before.scheduled().remove(id)
    } else {
        before.scheduled()
    })
}

/// `after` is `before` with schedule `id` started at `now`.
pub open spec fn schedule_started<C>(before: RunLoop<C>, after: RunLoop<C>, id: usize, now: u64) -> bool {
    &&& after.wf()
    &&& after.current() == before.current()
    &&& after.records() == before.records().update(
        id as int,
        Record::Schedule(
            ScheduleData {
                state: schedule_start_next(before.schedule(id).state),
                last: now,
                target: deadline_after(now, before.schedule(id).period),
                ..before.schedule(id)
            },
        ),
    )
    &&& after.scheduled() == (match before.schedule(id).state {
        ScheduleState::Idle | ScheduleState::Active => before.scheduled().insert(
            id,
            deadline_after(now, before.schedule(id).period),
        ),
        _ => before.scheduled(),
    })
}

/// `after` is `before` with schedule `id` cancelled.
pub open spec fn schedule_cancelled<C>(before: RunLoop<C>, after: RunLoop<C>, id: usize) -> bool {
    &&& after.wf()
    &&& after.current() == before.current()
    &&& after.records() == before.records().update(
        id as int,
        Record::Schedule(
            ScheduleData { state: schedule_cancel_next(before.schedule(id).state), ..before.schedule(id) },
        ),
    )
    &&& after.scheduled() == (if before.schedule(id).state == ScheduleState::Active {
        before.scheduled().remove(id)
    } else {
        before.scheduled()
    })
}

/// `after` is `before` with the period of schedule `id` set to `period`.
pub open spec fn schedule_period_set<C>(before: RunLoop<C>, after: RunLoop<C>, id: usize, period: u64) -> bool {
    &&& after.wf()
    &&& after.current() == before.current()
    &&& after.records() == before.records().update(
        id as int,
        Record::Schedule(ScheduleData { period, ..before.schedule(id) }),
    )
    &&& after.scheduled() == (if before.schedule(id).period != period && before.schedule(id).state
        == ScheduleState::Active {
        before.scheduled().insert(id, deadline_after(before.schedule(id).last, period))
    } else {
        before.scheduled()
    })
}

/// `after` is `before` once the callback `cb` of timer `id` has returned.
pub open spec fn timer_finished<C>(before: RunLoop<C>, after: RunLoop<C>, id: usize, cb: Callback<C>) -> bool {
    &&& after.wf()
    &&& after.current() is None
    &&& after.records() == before.records().update(
        id as int,
        Record::Timer(
            TimerData {
                state: timer_finish_next(before.timer_state(id)).0,
                act: timer_callback_after(before.timer_callback(id), cb),
            },
        ),
    )
    &&& after.scheduled() == (match timer_finish_next(before.timer_state(id)).1 {
        Some(t) => before.scheduled().insert(id, t),
        None => before.scheduled().remove(id),
    })
}

impl<C> RunLoop<C> {
    pub closed spec fn records(&self) -> Seq<Record<C>> {
        self.records@
    }

    /// The scheduled actions, each with its deadline.
    pub closed spec fn scheduled(&self) -> Map<usize, u64> {
        self.timers@
    }

    /// The action whose callback runs now, if any.
    pub closed spec fn current(&self) -> Option<usize> {
        self.current
    }

    pub open spec fn is_timer(&self, id: usize) -> bool {
        &&& (id as int) < self.records().len()
        &&& self.records()[id as int] is Timer
    }

    pub open spec fn timer_state(&self, id: usize) -> TimerState {
        record_timer_state(self.records()[id as int])
    }

    pub open spec fn timer_callback(&self, id: usize) -> Option<Callback<C>> {
        match self.records()[id as int] {
            Record::Timer(t) => t.act,
            _ => None,
        }
    }

    pub open spec fn is_schedule(&self, id: usize) -> bool {
        &&& (id as int) < self.records().len()
        &&& self.records()[id as int] is Schedule
    }

    pub open spec fn schedule(&self, id: usize) -> ScheduleData<C> {
        self.records()[id as int]->Schedule_0
    }

    pub closed spec fn wf(&self) -> bool {
        &&& self.timers.wf()
        &&& self.records@.len() == self.timers.num_nodes()
        &&& forall|id: usize|
            (id as int) < self.records@.len() ==> (#[trigger] self.timers@.contains_key(id)
                <==> armed(self.records@[id as int]))
        &&& forall|id: usize|
            (id as int) < self.records@.len() && self.current != Some(id) ==> settled(
                #[trigger] self.records@[id as int],
            )
        &&& match self.current {
            Some(id) => (id as int) < self.records@.len() && in_callback(self.records@[id as int]),
            None => true,
        }
    }

    pub fn new() -> (r: RunLoop<C>)
        ensures
            r.wf(),
            r.records() == Seq::<Record<C>>::empty(),
            r.scheduled() == Map::<usize, u64>::empty(),
            r.current() == None::<usize>,
    {
        RunLoop { timers: TimedActionBinaryHeap::new(), records: Vec::new(), current: None }
    }

    /// Adds a timer with no callback, not scheduled; returns its id.
    pub fn add_timer(&mut self) -> (id: usize)
        requires
            old(self).wf(),
        ensures
            final(self).wf(),
            id == old(self).records().len(),
            final(self).records() == old(self).records().push(
                Record::Timer(TimerData { state: TimerState::Idle, act: None }),
            ),
            final(self).scheduled() == old(self).scheduled(),
            final(self).current() == old(self).current(),
    {
        let id = self.timers.new_node();
        self.records.push(Record::Timer(TimerData { state: TimerState::Idle, act: None }));
        proof {
            old(self).timers.lemma_dom_bounded();
            assert(!self.timers@.contains_key(id));
            assert(self.timers.wf());
            assert(self.records@.len() == self.timers.num_nodes());
            assert forall|x: usize| (x as int) < self.records@.len() implies (#[trigger] self.timers@.contains_key(x)
                <==> armed(self.records@[x as int])) by {
                if x != id {
                    assert(self.records@[x as int] == old(self).records@[x as int]);
                }
            }
        }
        id
    }

    /// Takes the record of `id` out, leaving a placeholder.
    fn take_record(&mut self, id: usize) -> (r: Record<C>)
        requires
            (id as int) < old(self).records@.len(),
        ensures
            r == old(self).records@[id as int],
            final(self).records@.len() == old(self).records@.len(),
            forall|x: int|
                0 <= x < final(self).records@.len() && x != id ==> final(self).records@[x] == old(
                    self,
                ).records@[x],
            final(self).timers == old(self).timers,
            final(self).current == old(self).current,
    {
        let mut r = Record::Timer(TimerData { state: TimerState::Idle, act: None });
        self.records.set_and_swap(id, &mut r);
        r
    }

    /// Starts timer `id` to fire at `deadline`; from inside its own callback
    /// this asks for a restart when the callback returns.
    pub fn timer_start(&mut self, id: usize, deadline: u64)
        requires
            old(self).wf(),
            old(self).is_timer(id),
        ensures
            timer_started(*old(self), *final(self), id, deadline),
    {
        let rec = self.take_record(id);
        match rec {
            Record::Timer(t) => {
                let state = match t.state {
                    TimerState::Idle => {
                        self.timers.push(id, deadline);
                        TimerState::Active
                    },
                    TimerState::Active => {
                        self.timers.adjust(id, deadline);
                        TimerState::Active
                    },
                    _ => TimerState::Restart(deadline),
                };
                self.records.set(id, Record::Timer(TimerData { state, act: t.act }));
            },
            Record::Schedule(d) => self.records.set(id, Record::Schedule(d)),
        }
        proof {
            assert forall|x: usize| (x as int) < self.records@.len() implies (#[trigger] self.timers@.contains_key(x)
                <==> armed(self.records@[x as int])) by {
                if x != id {
                    assert(self.records@[x as int] == old(self).records@[x as int]);
                    assert(old(self).timers@.contains_key(x) <==> armed(old(self).records@[x as int]));
                }
            }
            assert forall|x: usize|
                (x as int) < self.records@.len() && self.current != Some(x) implies settled(
                #[trigger] self.records@[x as int],
            ) by {
                assert(settled(old(self).records@[x as int]));
            }
            assert(self.timers.wf());
            assert(self.records@.len() == self.timers.num_nodes());
            assert(self.records@ =~= old(self).records@.update(
                id as int,
                Record::Timer(
                    TimerData {
                        state: timer_start_next(old(self).timer_state(id), deadline),
                        act: old(self).timer_callback(id),
                    },
                ),
            ));
        }
    }

    /// The invariant survives a change confined to the record of `id` and to
    /// whether `id` is scheduled.
    proof fn lemma_wf_update(&self, before: &RunLoop<C>, id: usize)
        requires
            before.wf(),
            self.timers.wf(),
            self.timers.num_nodes() == before.timers.num_nodes(),
            (id as int) < before.records@.len(),
            self.records@.len() == before.records@.len(),
            forall|x: int|
                0 <= x < self.records@.len() && x != id ==> self.records@[x] == before.records@[x],
            forall|x: usize| x != id ==> self.timers@.contains_key(x) == before.timers@.contains_key(x),
            self.timers@.contains_key(id) == armed(self.records@[id as int]),
            forall|x: usize| x != id ==> (self.current == Some(x)) == (before.current == Some(x)),
            self.current != Some(id) ==> settled(self.records@[id as int]),
            self.current == Some(id) ==> in_callback(self.records@[id as int]),
        ensures
            self.wf(),
    {
        assert forall|x: usize| (x as int) < self.records@.len() implies (#[trigger] self.timers@.contains_key(x)
            <==> armed(self.records@[x as int])) by {
            if x != id {
                assert(self.records@[x as int] == before.records@[x as int]);
                assert(before.timers@.contains_key(x) <==> armed(before.records@[x as int]));
            }
        }
        assert forall|x: usize|
            (x as int) < self.records@.len() && self.current != Some(x) implies settled(
            #[trigger] self.records@[x as int],
        ) by {
            if x != id {
                assert(settled(before.records@[x as int]));
            }
        }
        match self.current {
            Some(x) => {
                if x != id {
                    assert(before.current == Some(x));
                }
            },
            None => {},
        }
    }

    /// Cancels timer `id`: a scheduled timer is unscheduled; from inside its
    /// own callback a pending restart is dropped.
    pub fn timer_cancel(&mut self, id: usize)
        requires
            old(self).wf(),
            old(self).is_timer(id),
        ensures
            timer_cancelled(*old(self), *final(self), id),
    {
        let rec = self.take_record(id);
        match rec {
            Record::Timer(t) => {
                let state = match t.state {
                    TimerState::Active => {
                        self.timers.remove(id);
                        TimerState::Idle
                    },
                    TimerState::Restart(_) => TimerState::Processing,
                    s => s,
                };
                self.records.set(id, Record::Timer(TimerData { state, act: t.act }));
            },
            Record::Schedule(d) => self.records.set(id, Record::Schedule(d)),
        }
        proof {
            self.lemma_wf_update(old(self), id);
            assert(self.records@ =~= old(self).records@.update(
                id as int,
                Record::Timer(
                    TimerData {
                        state: timer_cancel_next(old(self).timer_state(id)),
                        act: old(self).timer_callback(id),
                    },
                ),
            ));
        }
    }

    /// Installs the callback of timer `id`, replacing any other.
    pub fn set_timer_callback(&mut self, id: usize, cb: Callback<C>)
        requires
            old(self).wf(),
            old(self).is_timer(id),
        ensures
            final(self).wf(),
            final(self).current() == old(self).current(),
            final(self).scheduled() == old(self).scheduled(),
            final(self).records() == old(self).records().update(
                id as int,
                Record::Timer(TimerData { state: old(self).timer_state(id), act: Some(cb) }),
            ),
    {
        let rec = self.take_record(id);
        match rec {
            Record::Timer(t) => {
                self.records.set(id, Record::Timer(TimerData { state: t.state, act: Some(cb) }));
            },
            Record::Schedule(d) => self.records.set(id, Record::Schedule(d)),
        }
        proof {
            self.lemma_wf_update(old(self), id);
            assert(self.records@ =~= old(self).records@.update(
                id as int,
                Record::Timer(TimerData { state: old(self).timer_state(id), act: Some(cb) }),
            ));
        }
    }

    /// Whether timer `id` will fire: it is scheduled, or asked to restart.
    pub fn timer_is_active(&self, id: usize) -> (r: bool)
        requires
            self.wf(),
            self.is_timer(id),
        ensures
            r == (self.timer_state(id) == TimerState::Active || self.timer_state(id) is Restart),
    {
        match &self.records[id] {
            Record::Timer(t) => match t.state {
                TimerState::Active | TimerState::Restart(_) => true,
                _ => false,
            },
            Record::Schedule(_) => false,
        }
    }

    /// How long the loop may sleep at time `now`: not at all if a deadline
    /// has passed, until the earliest deadline, or for ever if nothing is
    /// scheduled.
    pub fn calculate_waiting_time(&self, now: u64) -> (r: WaitingTime)
        requires
            self.wf(),
        ensures
            r == WaitingTime::Infinite <==> self.scheduled() == Map::<usize, u64>::empty(),
            r == WaitingTime::Zero <==> exists|id: usize|
                self.scheduled().contains_key(id) && #[trigger] self.scheduled()[id] <= now,
            forall|d: u64|
                r == WaitingTime::Duration(d) ==> exists|t: u64|
                    earliest(self.scheduled(), t) && now < t && d == t - now,
    {
        match self.timers.peek_time() {
            None => {
                WaitingTime::Infinite
            },
            Some(t) => {
                if now >= t {
                    proof {
                        let id = choose|id: usize| self.timers@.contains_key(id) && self.timers@[id] == t;
                        assert(self.scheduled().contains_key(id) && self.scheduled()[id] <= now);
                    }
                    WaitingTime::Zero
                } else {
                    proof {
                        assert(self.scheduled() != Map::<usize, u64>::empty()) by {
                            let id = choose|id: usize| self.timers@.contains_key(id) && self.timers@[id] == t;
                            assert(!Map::<usize, u64>::empty().contains_key(id));
                        }
                    }
                    WaitingTime::Duration(t - now)
                }
            },
        }
    }

    /// Fires the first due action at time `now`, if one is due.
    ///
    /// An action without a callback is settled at once: a timer is
    /// unscheduled, a schedule moves on to its next target. Otherwise its
    /// callback is handed out and the action stays in the heap, marked as
    /// running, until `finish_timer` or `finish_schedule` takes it back.
    pub fn fire_next(&mut self, now: u64) -> (r: Option<(usize, Fire<C>)>)
        requires
            old(self).wf(),
            old(self).current() is None,
        ensures
            final(self).wf(),
            match r {
                None => {
                    &&& *final(self) == *old(self)
                    &&& forall|id: usize| #[trigger] old(self).scheduled().contains_key(id) ==> now
                        < old(self).scheduled()[id]
                },
                Some((id, fire)) => {
                    let (rec, f) = fire_record(old(self).records()[id as int], now);
                    &&& (id as int) < old(self).records().len()
                    &&& old(self).scheduled().contains_key(id)
                    &&& old(self).scheduled()[id] <= now
                    &&& earliest(old(self).scheduled(), old(self).scheduled()[id])
                    &&& fire == f
                    &&& final(self).records() == old(self).records().update(id as int, rec)
                    &&& final(self).current() == (if fire is Idle {
                        None
                    } else {
                        Some(id)
                    })
                    &&& final(self).scheduled() == (match rec {
                        Record::Schedule(d) => if fire is Idle {
                            old(self).scheduled().insert(id, d.target)
                        } else {
                            old(self).scheduled()
                        },
                        _ => if fire is Idle {
                            old(self).scheduled().remove(id)
                        } else {
                            old(self).scheduled()
                        },
                    })
                },
            },
    {
        let id = match self.timers.peek(now) {
            None => {
                return None;
            },
            Some(id) => id,
        };
        proof {
            self.timers.lemma_dom_bounded();
            assert(self.timers@.contains_key(id));
            assert(armed(self.records@[id as int]));
            assert(settled(self.records@[id as int]));
        }
        let rec = self.take_record(id);
        let fire = match rec {
            Record::Timer(t) => match t.act {
                Some(cb) => {
                    self.records.set(id, Record::Timer(TimerData { state: TimerState::Processing, act: None }));
                    self.current = Some(id);
                    Fire::Timer(cb)
                },
                None => {
                    self.timers.remove(id);
                    self.records.set(id, Record::Timer(TimerData { state: TimerState::Idle, act: None }));
                    Fire::Idle
                },
            },
            Record::Schedule(d) => {
                let target = add_ticks(d.target, d.period);
                let dt = now.saturating_sub(d.last);
                match d.act {
                    Some(f) => {
                        self.records.set(
                            id,
                            Record::Schedule(
                                ScheduleData {
                                    state: ScheduleState::Processing,
                                    period: d.period,
                                    last: now,
                                    target,
                                    act: None,
                                },
                            ),
                        );
                        self.current = Some(id);
                        Fire::Schedule(f, dt)
                    },
                    None => {
                        self.timers.adjust(id, target);
                        self.records.set(
                            id,
                            Record::Schedule(
                                ScheduleData { state: d.state, period: d.period, last: now, target, act: None },
                            ),
                        );
                        Fire::Idle
                    },
                }
            },
        };
        proof {
            self.lemma_wf_update(old(self), id);
            assert(self.records@ =~= old(self).records@.update(id as int, fire_record(old(self).records()[id as int], now).0));
        }
        Some((id, fire))
    }

    /// Takes back the callback of timer `id` after it ran. A restart asked
    /// for during the call re-arms the timer at its deadline; else the timer
    /// is unscheduled.
    pub fn finish_timer(&mut self, id: usize, cb: Callback<C>)
        requires
            old(self).wf(),
            old(self).current() == Some(id),
            old(self).is_timer(id),
        ensures
            timer_finished(*old(self), *final(self), id, cb),
    {
        let ghost act_after = timer_callback_after(old(self).timer_callback(id), cb);
        let rec = self.take_record(id);
        match rec {
            Record::Timer(t) => {
                let act = if t.act.is_none() && cb.repeating {
                    Some(cb)
                } else {
                    t.act
                };
                let state = match t.state {
                    TimerState::Restart(deadline) => {
                        self.timers.adjust(id, deadline);
                        TimerState::Active
                    },
                    _ => {
                        self.timers.remove(id);
                        TimerState::Idle
                    },
                };
                self.records.set(id, Record::Timer(TimerData { state, act }));
            },
            Record::Schedule(d) => self.records.set(id, Record::Schedule(d)),
        }
        self.current = None;
        proof {
            self.lemma_wf_update(old(self), id);
            assert(self.records@ =~= old(self).records@.update(
                id as int,
                Record::Timer(
                    TimerData {
                        state: timer_finish_next(old(self).timer_state(id)).0,
                        act: act_after,
                    },
                ),
            ));
        }
    }

    /// Takes back the callback of schedule `id` after it ran. Unless it was
    /// cancelled during the call it is re-armed at its next target; a
    /// callback installed during the call wins over the one handed back.
    pub fn finish_schedule(&mut self, id: usize, f: C)
        requires
            old(self).wf(),
            old(self).current() == Some(id),
            old(self).is_schedule(id),
        ensures
            final(self).wf(),
            final(self).current() is None,
            final(self).records() == old(self).records().update(
                id as int,
                Record::Schedule(
                    ScheduleData {
                        state: schedule_finish_next(old(self).schedule(id).state),
                        act: if old(self).schedule(id).act is None {
                            Some(f)
                        } else {
                            old(self).schedule(id).act
                        },
                        ..old(self).schedule(id)
                    },
                ),
            ),
            final(self).scheduled() == (if old(self).schedule(id).state == ScheduleState::Cancelled {
                old(self).scheduled().remove(id)
            } else {
                old(self).scheduled().insert(id, old(self).schedule(id).target)
            }),
    {
        let rec = self.take_record(id);
        match rec {
            Record::Schedule(d) => {
                let act = if d.act.is_none() {
                    Some(f)
                } else {
                    d.act
                };
                let state = match d.state {
                    ScheduleState::Cancelled => {
                        self.timers.remove(id);
                        ScheduleState::Idle
                    },
                    _ => {
                        self.timers.adjust(id, d.target);
                        ScheduleState::Active
                    },
                };
                self.records.set(
                    id,
                    Record::Schedule(ScheduleData { state, period: d.period, last: d.last, target: d.target, act }),
                );
            },
            Record::Timer(t) => self.records.set(id, Record::Timer(t)),
        }
        self.current = None;
        proof {
            self.lemma_wf_update(old(self), id);
            assert(self.records@ =~= old(self).records@.update(
                id as int,
                Record::Schedule(
                    ScheduleData {
                        state: schedule_finish_next(old(self).schedule(id).state),
                        act: if old(self).schedule(id).act is None {
                            Some(f)
                        } else {
                            old(self).schedule(id).act
                        },
                        ..old(self).schedule(id)
                    },
                ),
            ));
        }
    }

    /// Lets go of the callback of action `id` once nothing can fire it any
    /// more: when it is idle and its callback is not running. Otherwise
    /// nothing changes.
    pub fn release(&mut self, id: usize)
        requires
            old(self).wf(),
            (id as int) < old(self).records().len(),
        ensures
            final(self).wf(),
            final(self).current() == old(self).current(),
            final(self).scheduled() == old(self).scheduled(),
            final(self).records() == (if !armed(old(self).records()[id as int]) && old(self).current()
                != Some(id) {
                old(self).records().update(id as int, without_callback(old(self).records()[id as int]))
            } else {
                old(self).records()
            }),
    {
        if self.current == Some(id) {
            return;
        }
        let rec = self.take_record(id);
        let rec = match rec {
            Record::Timer(t) => match t.state {
                TimerState::Idle => Record::Timer(TimerData { state: t.state, act: None }),
                _ => Record::Timer(t),
            },
            Record::Schedule(d) => match d.state {
                ScheduleState::Idle => Record::Schedule(
                    ScheduleData { state: d.state, period: d.period, last: d.last, target: d.target, act: None },
                ),
                _ => Record::Schedule(d),
            },
        };
        self.records.set(id, rec);
        proof {
            self.lemma_wf_update(old(self), id);
            if !armed(old(self).records()[id as int]) {
                assert(self.records@ =~= old(self).records@.update(
                    id as int,
                    without_callback(old(self).records()[id as int]),
                ));
            } else {
                assert(self.records@ =~= old(self).records@);
            }
        }
    }

    /// Adds a schedule with the given period and no callback, not
    /// scheduled, counting from `now`; returns its id.
    pub fn add_schedule(&mut self, now: u64, period: u64) -> (id: usize)
        requires
            old(self).wf(),
        ensures
            final(self).wf(),
            id == old(self).records().len(),
            final(self).records() == old(self).records().push(
                Record::Schedule(
                    ScheduleData { state: ScheduleState::Idle, period, last: now, target: now, act: None },
                ),
            ),
            final(self).scheduled() == old(self).scheduled(),
            final(self).current() == old(self).current(),
    {
        let id = self.timers.new_node();
        self.records.push(
            Record::Schedule(
                ScheduleData { state: ScheduleState::Idle, period, last: now, target: now, act: None },
            ),
        );
        proof {
            old(self).timers.lemma_dom_bounded();
            assert forall|x: usize| (x as int) < self.records@.len() implies (#[trigger] self.timers@.contains_key(x)
                <==> armed(self.records@[x as int])) by {
                if x != id {
                    assert(self.records@[x as int] == old(self).records@[x as int]);
                }
            }
            assert forall|x: usize|
                (x as int) < self.records@.len() && self.current != Some(x) implies settled(
                #[trigger] self.records@[x as int],
            ) by {
                if x != id {
                    assert(settled(old(self).records@[x as int]));
                }
            }
        }
        id
    }

    /// (Re)starts schedule `id` at `now`: its next target is one period
    /// later. From inside its own callback this takes back a cancel.
    pub fn schedule_start(&mut self, id: usize, now: u64)
        requires
            old(self).wf(),
            old(self).is_schedule(id),
        ensures
            schedule_started(*old(self), *final(self), id, now),
    {
        let rec = self.take_record(id);
        match rec {
            Record::Schedule(d) => {
                let target = add_ticks(now, d.period);
                let state = match d.state {
                    ScheduleState::Idle => {
                        self.timers.push(id, target);
                        ScheduleState::Active
                    },
                    ScheduleState::Active => {
                        self.timers.adjust(id, target);
                        ScheduleState::Active
                    },
                    _ => ScheduleState::Processing,
                };
                self.records.set(
                    id,
                    Record::Schedule(ScheduleData { state, period: d.period, last: now, target, act: d.act }),
                );
            },
            Record::Timer(t) => self.records.set(id, Record::Timer(t)),
        }
        proof {
            self.lemma_wf_update(old(self), id);
            assert(self.records@ =~= old(self).records@.update(
                id as int,
                Record::Schedule(
                    ScheduleData {
                        state: schedule_start_next(old(self).schedule(id).state),
                        last: now,
                        target: deadline_after(now, old(self).schedule(id).period),
                        ..old(self).schedule(id)
                    },
                ),
            ));
        }
    }

    /// Cancels schedule `id`: a scheduled one is unscheduled; from inside its
    /// own callback it is marked so that it is not re-armed.
    pub fn schedule_cancel(&mut self, id: usize)
        requires
            old(self).wf(),
            old(self).is_schedule(id),
        ensures
            schedule_cancelled(*old(self), *final(self), id),
    {
        let rec = self.take_record(id);
        match rec {
            Record::Schedule(d) => {
                let state = match d.state {
                    ScheduleState::Active => {
                        self.timers.remove(id);
                        ScheduleState::Idle
                    },
                    ScheduleState::Processing => ScheduleState::Cancelled,
                    s => s,
                };
                self.records.set(
                    id,
                    Record::Schedule(ScheduleData { state, period: d.period, last: d.last, target: d.target, act: d.act }),
                );
            },
            Record::Timer(t) => self.records.set(id, Record::Timer(t)),
        }
        proof {
            self.lemma_wf_update(old(self), id);
            assert(self.records@ =~= old(self).records@.update(
                id as int,
                Record::Schedule(
                    ScheduleData {
                        state: schedule_cancel_next(old(self).schedule(id).state),
                        ..old(self).schedule(id)
                    },
                ),
            ));
        }
    }

    /// Changes the period of schedule `id`. A scheduled one is re-armed one
    /// new period after it last fired or was started.
    pub fn schedule_set_period(&mut self, id: usize, period: u64)
        requires
            old(self).wf(),
            old(self).is_schedule(id),
        ensures
            schedule_period_set(*old(self), *final(self), id, period),
    {
        let rec = self.take_record(id);
        match rec {
            Record::Schedule(d) => {
                if d.period != period && d.state == ScheduleState::Active {
                    self.timers.adjust(id, add_ticks(d.last, period));
                }
                self.records.set(
                    id,
                    Record::Schedule(ScheduleData { state: d.state, period, last: d.last, target: d.target, act: d.act }),
                );
            },
            Record::Timer(t) => self.records.set(id, Record::Timer(t)),
        }
        proof {
            self.lemma_wf_update(old(self), id);
            assert(self.records@ =~= old(self).records@.update(
                id as int,
                Record::Schedule(ScheduleData { period, ..old(self).schedule(id) }),
            ));
        }
    }

    /// Installs the callback of schedule `id`, replacing any other.
    pub fn set_schedule_callback(&mut self, id: usize, f: C)
        requires
            old(self).wf(),
            old(self).is_schedule(id),
        ensures
            final(self).wf(),
            final(self).current() == old(self).current(),
            final(self).scheduled() == old(self).scheduled(),
            final(self).records() == old(self).records().update(
                id as int,
                Record::Schedule(ScheduleData { act: Some(f), ..old(self).schedule(id) }),
            ),
    {
        let rec = self.take_record(id);
        match rec {
            Record::Schedule(d) => {
                self.records.set(
                    id,
                    Record::Schedule(
                        ScheduleData { state: d.state, period: d.period, last: d.last, target: d.target, act: Some(f) },
                    ),
                );
            },
            Record::Timer(t) => self.records.set(id, Record::Timer(t)),
        }
        proof {
            self.lemma_wf_update(old(self), id);
            assert(self.records@ =~= old(self).records@.update(
                id as int,
                Record::Schedule(ScheduleData { act: Some(f), ..old(self).schedule(id) }),
            ));
        }
    }

    pub fn schedule_period(&self, id: usize) -> (r: u64)
        requires
            self.is_schedule(id),
        ensures
            r == self.schedule(id).period,
    {
        match &self.records[id] {
            Record::Schedule(d) => d.period,
            Record::Timer(_) => 0,
        }
    }

    /// Whether schedule `id` will fire again.
    pub fn schedule_is_active(&self, id: usize) -> (r: bool)
        requires
            self.is_schedule(id),
        ensures
            r == (self.schedule(id).state != ScheduleState::Idle && self.schedule(id).state
                != ScheduleState::Cancelled),
    {
        match &self.records[id] {
            Record::Schedule(d) => match d.state {
                ScheduleState::Idle | ScheduleState::Cancelled => false,
                _ => true,
            },
            Record::Timer(_) => false,
        }
    }
}

/// Outside a callback every timer and schedule is idle or scheduled: the
/// running, restarting and cancelled states are seen only by the action
/// whose callback runs.
pub proof fn lemma_settled_outside_callback<C>(rl: &RunLoop<C>, id: usize)
    requires
        rl.wf(),
        (id as int) < rl.records().len(),
        rl.current() != Some(id),
    ensures
        settled(rl.records()[id as int]),
{
}

/// A schedule's record after it fires at `now` and its callback is handed
/// back: it has moved on one period and remembers `now`.
pub open spec fn schedule_after_firing<C>(d: ScheduleData<C>, now: u64) -> ScheduleData<C> {
    match fire_record(Record::Schedule(d), now).0 {
        Record::Schedule(n) => ScheduleData { state: d.state, act: d.act, ..n },
        _ => d,
    }
}

/// The ticks a schedule's callback is told of when it fires at `now`.
pub open spec fn reported_ticks<C>(d: ScheduleData<C>, now: u64) -> int {
    match fire_record(Record::Schedule(d), now).1 {
        Fire::Schedule(_, dt) => dt as int,
        _ => 0,
    }
}

/// A schedule fired at each of `times` in turn: its record afterwards and
/// the sum of the ticks its callback was told of.
pub open spec fn run_schedule<C>(d: ScheduleData<C>, times: Seq<u64>) -> (ScheduleData<C>, int)
    decreases times.len(),
{
    if times.len() == 0 {
        (d, 0)
    } else {
        let (p, sum) = run_schedule(d, times.drop_last());
        (schedule_after_firing(p, times.last()), sum + reported_ticks(p, times.last()))
    }
}

/// A schedule with a callback, fired at rising instants from its start on,
/// is told of exactly the time that passed since its start, ends up
/// remembering the last firing, and keeps its phase: its target moves on one
/// period per firing however late each firing was.
pub proof fn lemma_elapsed_adds_up<C>(d: ScheduleData<C>, times: Seq<u64>)
    requires
        d.act is Some,
        times.len() > 0,
        d.last <= times[0],
        forall|a: int, b: int| 0 <= a <= b < times.len() ==> times[a] <= times[b],
        d.target + times.len() * d.period <= u64::MAX,
    ensures
        run_schedule(d, times).1 == times.last() - d.last,
        run_schedule(d, times).0.last == times.last(),
        run_schedule(d, times).0.target == d.target + times.len() * d.period,
        run_schedule(d, times).0.period == d.period,
        run_schedule(d, times).0.act == d.act,
    decreases times.len(),
{
    let k = times.len();
    let prefix = times.drop_last();
    if k == 1 {
        assert(run_schedule(d, prefix) == (d, 0int));
    } else {
        assert(d.target + (k - 1) * d.period <= d.target + k * d.period) by (nonlinear_arith)
            requires
                k >= 1,
        ;
        lemma_elapsed_adds_up(d, prefix);
        assert(prefix.last() == times[k - 2]);
    }
    let p = run_schedule(d, prefix).0;
    assert(p.target + d.period == d.target + k * d.period) by (nonlinear_arith)
        requires
            p.target == d.target + (k - 1) * d.period || (k == 1 && p.target == d.target),
            k >= 1,
    ;
}

/// A new timer of `rl`, with no callback, not started.
pub fn new_timer<C>(rl: &mut RunLoop<C>) -> (r: Timer)
    requires
        old(rl).wf(),
    ensures
        final(rl).wf(),
        r.key() == old(rl).records().len(),
        !r.cancels_on_drop(),
        final(rl).records() == old(rl).records().push(
            Record::Timer(TimerData { state: TimerState::Idle, act: None }),
        ),
        final(rl).scheduled() == old(rl).scheduled(),
        final(rl).current() == old(rl).current(),
{
    Timer::new(rl)
}

/// A new schedule of `rl` with the default period and no callback, not
/// started, created at `now`.
pub fn new_schedule<C>(rl: &mut RunLoop<C>, now: u64) -> (r: Schedule)
    requires
        old(rl).wf(),
    ensures
        final(rl).wf(),
        r.key() == old(rl).records().len(),
        !r.cancels_on_drop(),
        final(rl).records() == old(rl).records().push(
            Record::Schedule(
                ScheduleData {
                    state: ScheduleState::Idle,
                    period: DEFAULT_PERIOD,
                    last: now,
                    target: now,
                    act: None,
                },
            ),
        ),
        final(rl).scheduled() == old(rl).scheduled(),
        final(rl).current() == old(rl).current(),
{
    Schedule::new(rl, now)
}

/// What the loop does next, once it has drained its queue and knows how
/// long it may sleep.
#[derive(Debug, PartialEq, Eq, Structural, Clone, Copy)]
pub enum LoopAction {
    /// Run the drained messages, then fire the due actions.
    RunMessages,
    /// Fire the due actions.
    FireTimers,
    /// Sleep until woken.
    Sleep,
    /// Sleep until woken or until this many ticks have passed.
    SleepFor(u64),
}

/// One round of the main loop: drained messages run before the timers are
/// looked at again; with none, a passed deadline fires at once, and
/// otherwise the loop sleeps until the next deadline, or until woken.
pub fn loop_step(drained_any: bool, wait: WaitingTime) -> (r: LoopAction)
    ensures
        r == (if drained_any {
            LoopAction::RunMessages
        } else {
            match wait {
                WaitingTime::Zero => LoopAction::FireTimers,
                WaitingTime::Infinite => LoopAction::Sleep,
                WaitingTime::Duration(d) => LoopAction::SleepFor(d),
            }
        }),
{
    if drained_any {
        LoopAction::RunMessages
    } else {
        match wait {
            WaitingTime::Zero => LoopAction::FireTimers,
            WaitingTime::Infinite => LoopAction::Sleep,
            WaitingTime::Duration(d) => LoopAction::SleepFor(d),
        }
    }
}

} // verus!
