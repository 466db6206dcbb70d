use vstd::prelude::*;
use crate::run_loop::{timer_cancelled, timer_finished, timer_started, Callback, Record, RunLoop, TimerData};

verus! {

/// Where a timer stands. `Idle` means not scheduled. `Processing` and `Restart` occur only while its
/// callback runs; `Restart` carries the deadline asked for from inside it.
#[derive(Debug, PartialEq, Eq, Structural, Clone, Copy)]
pub enum TimerState {
    Idle,
    Active,
    Processing,
    Restart(u64),
}

/// The state after `start` with the given deadline.
pub open spec fn timer_start_next(s: TimerState, deadline: u64) -> TimerState {
    match s {
        TimerState::Idle | TimerState::Active => TimerState::Active,
        _ => TimerState::Restart(deadline),
    }
}

/// The state after `cancel`.
pub open spec fn timer_cancel_next(s: TimerState) -> TimerState {
    match s {
        TimerState::Active => TimerState::Idle,
        TimerState::Restart(_) => TimerState::Processing,
        _ => s,
    }
}

/// The state after the callback returns, with the deadline to re-arm at,
/// if any.
pub open spec fn timer_finish_next(s: TimerState) -> (TimerState, Option<u64>) {
    match s {
        TimerState::Restart(t) => (TimerState::Active, Some(t)),
        _ => (TimerState::Idle, None),
    }
}

/// `now + dt`, held at the largest tick.
pub open spec fn deadline_after(now: u64, dt: u64) -> u64 {
    if now + dt <= u64::MAX {
        (now + dt) as u64
    } else {
        u64::MAX
    }
}

pub fn add_ticks(now: u64, dt: u64) -> (r: u64)
    ensures
        r == deadline_after(now, dt),
{
    if dt > u64::MAX - now {
        u64::MAX
    } else {
        now + dt
    }
}

/// A one-shot or repeating delayed callback of a run loop.
///
/// The handle names the timer's record in the loop; the loop is passed to
/// each operation. Dropping the handle leaves the timer as it is; where
/// `cancel_on_drop` is set, the owner cancels it first.
pub struct Timer {
    id: usize,
    cancel_on_drop: bool,
}

impl Timer {
    /// The id of the timer's record in its loop.
    pub closed spec fn key(&self) -> usize {
        self.id
    }

    pub closed spec fn cancels_on_drop(&self) -> bool {
        self.cancel_on_drop
    }

    /// A new timer of `rl`, with no callback, not started.
    pub fn new<C>(rl: &mut RunLoop<C>) -> (r: Timer)
        requires
            old(rl).wf(),
        ensures
            final(rl).wf(),
            r.key() == old(rl).records().len(),
            !r.cancels_on_drop(),
            final(rl).records() == old(rl).records().push(
                Record::Timer(TimerData { state: TimerState::Idle, act: None }),
            ),
            final(rl).scheduled() == old(rl).scheduled(),
            final(rl).current() == old(rl).current(),
    {
        let id = rl.add_timer();
        Timer { id, cancel_on_drop: false }
    }

    pub fn id(&self) -> (r: usize)
        ensures
            r == self.key(),
    {
        self.id
    }

    pub fn with_callback<C>(self, rl: &mut RunLoop<C>, cb: C) -> (r: Self)
        requires
            old(rl).wf(),
            old(rl).is_timer(self.key()),
        ensures
            r == self,
            final(rl).wf(),
            final(rl).current() == old(rl).current(),
            final(rl).scheduled() == old(rl).scheduled(),
            final(rl).records() == old(rl).records().update(
                self.key() as int,
                Record::Timer(
                    TimerData {
                        state: old(rl).timer_state(self.key()),
                        act: Some(Callback { f: cb, repeating: true }),
                    },
                ),
            ),
    {
        self.set_callback(rl, cb);
        self
    }

    pub fn with_callback_once<C>(self, rl: &mut RunLoop<C>, cb: C) -> (r: Self)
        requires
            old(rl).wf(),
            old(rl).is_timer(self.key()),
        ensures
            r == self,
            final(rl).wf(),
            final(rl).current() == old(rl).current(),
            final(rl).scheduled() == old(rl).scheduled(),
            final(rl).records() == old(rl).records().update(
                self.key() as int,
                Record::Timer(
                    TimerData {
                        state: old(rl).timer_state(self.key()),
                        act: Some(Callback { f: cb, repeating: false }),
                    },
                ),
            ),
    {
        self.set_callback_once(rl, cb);
        self
    }

    pub fn with_cancel_on_drop(self, cancel_on_drop: bool) -> (r: Self)
        ensures
            r.key() == self.key(),
            r.cancels_on_drop() == cancel_on_drop,
    {
        Timer { id: self.id, cancel_on_drop }
    }

    pub fn and_start<C>(self, rl: &mut RunLoop<C>, now: u64, dt: u64) -> (r: Self)
        requires
            old(rl).wf(),
            old(rl).is_timer(self.key()),
        ensures
            r == self,
            timer_started(*old(rl), *final(rl), self.key(), deadline_after(now, dt)),
    {
        self.start(rl, now, dt);
        self
    }

    /// Installs a callback that runs on every firing.
    pub fn set_callback<C>(&self, rl: &mut RunLoop<C>, cb: C)
        requires
            old(rl).wf(),
            old(rl).is_timer(self.key()),
        ensures
            final(rl).wf(),
            final(rl).current() == old(rl).current(),
            final(rl).scheduled() == old(rl).scheduled(),
            final(rl).records() == old(rl).records().update(
                self.key() as int,
                Record::Timer(
                    TimerData {
                        state: old(rl).timer_state(self.key()),
                        act: Some(Callback { f: cb, repeating: true }),
                    },
                ),
            ),
    {
        rl.set_timer_callback(self.id, Callback { f: cb, repeating: true });
    }

    /// Installs a callback that runs on the next firing only.
    pub fn set_callback_once<C>(&self, rl: &mut RunLoop<C>, cb: C)
        requires
            old(rl).wf(),
            old(rl).is_timer(self.key()),
        ensures
            final(rl).wf(),
            final(rl).current() == old(rl).current(),
            final(rl).scheduled() == old(rl).scheduled(),
            final(rl).records() == old(rl).records().update(
                self.key() as int,
                Record::Timer(
                    TimerData {
                        state: old(rl).timer_state(self.key()),
                        act: Some(Callback { f: cb, repeating: false }),
                    },
                ),
            ),
    {
        rl.set_timer_callback(self.id, Callback { f: cb, repeating: false });
    }

    /// Whether the timer will fire.
    pub fn is_active<C>(&self, rl: &RunLoop<C>) -> (r: bool)
        requires
            rl.wf(),
            rl.is_timer(self.key()),
        ensures
            r == (rl.timer_state(self.key()) == TimerState::Active || rl.timer_state(
                self.key(),
            ) is Restart),
    {
        rl.timer_is_active(self.id)
    }

    pub fn set_cancel_on_drop(&mut self, cancel_on_drop: bool)
        ensures
            final(self).key() == old(self).key(),
            final(self).cancels_on_drop() == cancel_on_drop,
    {
        self.cancel_on_drop = cancel_on_drop;
    }

    pub fn is_cancel_on_drop(&self) -> (r: bool)
        ensures
            r == self.cancels_on_drop(),
    {
        self.cancel_on_drop
    }

    /// Arms the timer to fire `dt` ticks after `now`.
    pub fn start<C>(&self, rl: &mut RunLoop<C>, now: u64, dt: u64)
        requires
            old(rl).wf(),
            old(rl).is_timer(self.key()),
        ensures
            timer_started(*old(rl), *final(rl), self.key(), deadline_after(now, dt)),
    {
        rl.timer_start(self.id, add_ticks(now, dt));
    }

    pub fn cancel<C>(&self, rl: &mut RunLoop<C>)
        requires
            old(rl).wf(),
            old(rl).is_timer(self.key()),
        ensures
            timer_cancelled(*old(rl), *final(rl), self.key()),
    {
        rl.timer_cancel(self.id);
    }
}

/// Cancelling a timer twice in a row leaves it as cancelling it once.
pub proof fn lemma_cancel_idempotent<C>(
    before: RunLoop<C>,
    once: RunLoop<C>,
    twice: RunLoop<C>,
    id: usize,
)
    requires
        before.is_timer(id),
        timer_cancelled(before, once, id),
        timer_cancelled(once, twice, id),
    ensures
        twice.records() == once.records(),
        twice.scheduled() == once.scheduled(),
        twice.current() == once.current(),
{
    assert(once.records()[id as int] == Record::Timer(
        TimerData { state: timer_cancel_next(before.timer_state(id)), act: before.timer_callback(id) },
    ));
    assert(twice.records() =~= once.records());
}

/// A one-shot timer started from inside its own callback fires again: once
/// the callback returns, the timer is scheduled at the deadline asked for.
pub proof fn lemma_restart_from_callback<C>(
    running: RunLoop<C>,
    started: RunLoop<C>,
    finished: RunLoop<C>,
    id: usize,
    deadline: u64,
    cb: Callback<C>,
)
    requires
        running.wf(),
        running.is_timer(id),
        running.current() == Some(id),
        running.timer_state(id) == TimerState::Processing,
        timer_started(running, started, id, deadline),
        timer_finished(started, finished, id, cb),
    ensures
        finished.timer_state(id) == TimerState::Active,
        finished.scheduled().contains_key(id),
        finished.scheduled()[id] == deadline,
{
    assert(started.timer_state(id) == TimerState::Restart(deadline));
}

} // verus!
