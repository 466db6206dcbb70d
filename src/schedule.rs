use vstd::prelude::*;
use crate::run_loop::{
    schedule_cancelled, schedule_period_set, schedule_started, Record, RunLoop, ScheduleData,
};

verus! {

/// Where a schedule stands. `Idle` means not scheduled. `Processing` and
/// `Cancelled` occur only while its callback runs.
#[derive(Debug, PartialEq, Eq, Structural, Clone, Copy)]
pub enum ScheduleState {
    Idle,
    Active,
    Processing,
    Cancelled,
}

/// The state after `start`.
pub open spec fn schedule_start_next(s: ScheduleState) -> ScheduleState {
    match s {
        ScheduleState::Idle | ScheduleState::Active => ScheduleState::Active,
        _ => ScheduleState::Processing,
    }
}

/// The state after `cancel`.
pub open spec fn schedule_cancel_next(s: ScheduleState) -> ScheduleState {
    match s {
        ScheduleState::Active => ScheduleState::Idle,
        ScheduleState::Processing => ScheduleState::Cancelled,
        _ => s,
    }
}

/// The state after the callback returns: it goes on unless it was cancelled.
pub open spec fn schedule_finish_next(s: ScheduleState) -> ScheduleState {
    match s {
        ScheduleState::Cancelled => ScheduleState::Idle,
        _ => ScheduleState::Active,
    }
}

/// The period a new schedule has: 100 ms, in nanosecond ticks.
pub const DEFAULT_PERIOD: u64 = 100_000_000;

/// A fixed-period callback of a run loop, told on each firing how many
/// ticks passed since the previous one.
///
/// The handle names the schedule's record in the loop; the loop is passed to
/// each operation. Where `cancel_on_drop` is set, the owner cancels it
/// before dropping the handle.
pub struct Schedule {
    id: usize,
    cancel_on_drop: bool,
}

impl Schedule {
    /// The id of the schedule's record in its loop.
    pub closed spec fn key(&self) -> usize {
        self.id
    }

    pub closed spec fn cancels_on_drop(&self) -> bool {
        self.cancel_on_drop
    }

    /// A new schedule of `rl` with the default period and no callback, not
    /// started, created at `now`.
    pub fn new<C>(rl: &mut RunLoop<C>, now: u64) -> (r: Schedule)
        requires
            old(rl).wf(),
        ensures
            final(rl).wf(),
            r.key() == old(rl).records().len(),
            !r.cancels_on_drop(),
            final(rl).records() == old(rl).records().push(
                Record::Schedule(
                    ScheduleData {
                        state: ScheduleState::Idle,
                        period: DEFAULT_PERIOD,
                        last: now,
                        target: now,
                        act: None,
                    },
                ),
            ),
            final(rl).scheduled() == old(rl).scheduled(),
            final(rl).current() == old(rl).current(),
    {
        let id = rl.add_schedule(now, DEFAULT_PERIOD);
        Schedule { id, cancel_on_drop: false }
    }

    pub fn id(&self) -> (r: usize)
        ensures
            r == self.key(),
    {
        self.id
    }

    pub fn with_callback<C>(self, rl: &mut RunLoop<C>, cb: C) -> (r: Self)
        requires
            old(rl).wf(),
            old(rl).is_schedule(self.key()),
        ensures
            r == self,
            final(rl).wf(),
            final(rl).current() == old(rl).current(),
            final(rl).scheduled() == old(rl).scheduled(),
            final(rl).records() == old(rl).records().update(
                self.key() as int,
                Record::Schedule(ScheduleData { act: Some(cb), ..old(rl).schedule(self.key()) }),
            ),
    {
        self.set_callback(rl, cb);
        self
    }

    pub fn with_period<C>(self, rl: &mut RunLoop<C>, period: u64) -> (r: Self)
        requires
            old(rl).wf(),
            old(rl).is_schedule(self.key()),
        ensures
            r == self,
            schedule_period_set(*old(rl), *final(rl), self.key(), period),
    {
        self.set_period(rl, period);
        self
    }

    pub fn with_cancel_on_drop(self, cancel_on_drop: bool) -> (r: Self)
        ensures
            r.key() == self.key(),
            r.cancels_on_drop() == cancel_on_drop,
    {
        Schedule { id: self.id, cancel_on_drop }
    }

    pub fn and_start<C>(self, rl: &mut RunLoop<C>, now: u64) -> (r: Self)
        requires
            old(rl).wf(),
            old(rl).is_schedule(self.key()),
        ensures
            r == self,
            schedule_started(*old(rl), *final(rl), self.key(), now),
    {
        self.start(rl, now);
        self
    }

    pub fn set_callback<C>(&self, rl: &mut RunLoop<C>, cb: C)
        requires
            old(rl).wf(),
            old(rl).is_schedule(self.key()),
        ensures
            final(rl).wf(),
            final(rl).current() == old(rl).current(),
            final(rl).scheduled() == old(rl).scheduled(),
            final(rl).records() == old(rl).records().update(
                self.key() as int,
                Record::Schedule(ScheduleData { act: Some(cb), ..old(rl).schedule(self.key()) }),
            ),
    {
        rl.set_schedule_callback(self.id, cb);
    }

    pub fn set_period<C>(&self, rl: &mut RunLoop<C>, period: u64)
        requires
            old(rl).wf(),
            old(rl).is_schedule(self.key()),
        ensures
            schedule_period_set(*old(rl), *final(rl), self.key(), period),
    {
        rl.schedule_set_period(self.id, period);
    }

    pub fn get_period<C>(&self, rl: &RunLoop<C>) -> (r: u64)
        requires
            rl.is_schedule(self.key()),
        ensures
            r == rl.schedule(self.key()).period,
    {
        rl.schedule_period(self.id)
    }

    pub fn set_cancel_on_drop(&mut self, cancel_on_drop: bool)
        ensures
            final(self).key() == old(self).key(),
            final(self).cancels_on_drop() == cancel_on_drop,
    {
        self.cancel_on_drop = cancel_on_drop;
    }

    pub fn is_cancel_on_drop(&self) -> (r: bool)
        ensures
            r == self.cancels_on_drop(),
    {
        self.cancel_on_drop
    }

    /// Whether the schedule will fire again.
    pub fn is_active<C>(&self, rl: &RunLoop<C>) -> (r: bool)
        requires
            rl.is_schedule(self.key()),
        ensures
            r == (rl.schedule(self.key()).state != ScheduleState::Idle && rl.schedule(
                self.key(),
            ).state != ScheduleState::Cancelled),
    {
        rl.schedule_is_active(self.id)
    }

    /// Starts the schedule at `now`: it first fires one period later.
    pub fn start<C>(&self, rl: &mut RunLoop<C>, now: u64)
        requires
            old(rl).wf(),
            old(rl).is_schedule(self.key()),
        ensures
            schedule_started(*old(rl), *final(rl), self.key(), now),
    {
        rl.schedule_start(self.id, now);
    }

    pub fn cancel<C>(&self, rl: &mut RunLoop<C>)
        requires
            old(rl).wf(),
            old(rl).is_schedule(self.key()),
        ensures
            schedule_cancelled(*old(rl), *final(rl), self.key()),
    {
        rl.schedule_cancel(self.id);
    }
}

} // verus!
