use vnbase::msg_queue::{Core, State};
use vnbase::run_loop::{loop_step, new_schedule, new_timer, Fire, LoopAction, RunLoop, WaitingTime};
use vnbase::schedule::DEFAULT_PERIOD;
use vnbase::timer::Timer;

const MS: u64 = 1_000_000;

#[test]
fn it_works() {
    let mut core: Core<u32> = Core::new();
    let mut rl: RunLoop<u32> = RunLoop::new();
    let timer = new_timer(&mut rl).with_callback(&mut rl, 7).and_start(&mut rl, 0, 0);
    assert!(core.enter_run());
    assert!(core.msgs.drain().is_empty());
    match rl.fire_next(0) {
        Some((id, Fire::Timer(cb))) => {
            assert_eq!(id, timer.id());
            assert_eq!(cb.f, 7);
            assert!(cb.repeating);
            core.stop();
            rl.finish_timer(id, cb);
        }
        _ => panic!("the timer is due"),
    }
    assert!(rl.fire_next(0).is_none());
    assert!(!core.observe());
    assert_eq!(core.msgs.state, State::Stopped);
}

#[test]
fn immediate_stop_leaves_no_timer() {
    let mut core: Core<u32> = Core::new();
    let mut rl: RunLoop<u32> = RunLoop::new();
    let timer = new_timer(&mut rl).with_callback(&mut rl, 1).and_start(&mut rl, 5, 0);
    assert!(timer.is_active(&rl));
    assert_eq!(rl.calculate_waiting_time(5), WaitingTime::Zero);
    assert!(core.enter_run());
    let (id, fire) = rl.fire_next(5).unwrap();
    match fire {
        Fire::Timer(cb) => {
            core.stop();
            rl.finish_timer(id, cb);
        }
        _ => panic!("a callback was installed"),
    }
    assert!(!core.observe());
    assert!(!timer.is_active(&rl));
    assert_eq!(rl.calculate_waiting_time(5), WaitingTime::Infinite);
}

#[test]
fn periodic_accumulator() {
    let mut core: Core<u32> = Core::new();
    let mut rl: RunLoop<u32> = RunLoop::new();
    let sched = new_schedule(&mut rl, 0)
        .with_period(&mut rl, 100 * MS)
        .with_callback(&mut rl, 3)
        .and_start(&mut rl, 0);
    assert!(sched.is_active(&rl));
    assert!(core.enter_run());
    let mut now: u64 = 0;
    let mut total: u64 = 0;
    let mut firings: u32 = 0;
    while core.observe() {
        match rl.calculate_waiting_time(now) {
            WaitingTime::Duration(d) => now += d,
            WaitingTime::Zero => {}
            WaitingTime::Infinite => panic!("the schedule stays armed"),
        }
        while let Some((id, fire)) = rl.fire_next(now) {
            match fire {
                Fire::Schedule(f, dt) => {
                    assert_eq!(f, 3);
                    firings += 1;
                    total += dt;
                    if total >= 1000 * MS {
                        core.stop();
                    }
                    rl.finish_schedule(id, f);
                }
                _ => panic!("only the schedule is due"),
            }
        }
    }
    assert_eq!(total, 1000 * MS);
    assert_eq!(firings, 10);
    assert_eq!(now, 1000 * MS);
}

#[test]
fn timer_cancels_itself() {
    let mut rl: RunLoop<u32> = RunLoop::new();
    let timer = new_timer(&mut rl).with_callback(&mut rl, 9).and_start(&mut rl, 0, 50 * MS);
    let mut now: u64 = 0;
    let mut count: u32 = 0;
    for _ in 0..10 {
        if let WaitingTime::Duration(d) = rl.calculate_waiting_time(now) {
            now += d;
        }
        while let Some((id, fire)) = rl.fire_next(now) {
            match fire {
                Fire::Timer(cb) => {
                    count += 1;
                    if count == 3 {
                        timer.cancel(&mut rl);
                    } else {
                        timer.start(&mut rl, now, 50 * MS);
                    }
                    rl.finish_timer(id, cb);
                }
                _ => panic!("the callback is kept"),
            }
        }
    }
    assert_eq!(count, 3);
    assert_eq!(now, 150 * MS);
    assert!(!timer.is_active(&rl));
    assert_eq!(rl.calculate_waiting_time(now), WaitingTime::Infinite);
}

#[test]
fn restart_during_callback() {
    let mut rl: RunLoop<u32> = RunLoop::new();
    let timer = Timer::new(&mut rl).with_callback(&mut rl, 4).and_start(&mut rl, 0, 10 * MS);
    let (id, fire) = rl.fire_next(10 * MS).unwrap();
    let cb = match fire {
        Fire::Timer(cb) => cb,
        _ => panic!("a callback was installed"),
    };
    timer.start(&mut rl, 10 * MS, 20 * MS);
    assert!(timer.is_active(&rl));
    rl.finish_timer(id, cb);
    assert!(timer.is_active(&rl));
    assert!(rl.fire_next(29 * MS).is_none());
    assert_eq!(rl.calculate_waiting_time(10 * MS), WaitingTime::Duration(20 * MS));
    match rl.fire_next(30 * MS) {
        Some((id2, Fire::Timer(cb2))) => {
            assert_eq!(id2, id);
            assert_eq!(cb2.f, 4);
            rl.finish_timer(id2, cb2);
        }
        _ => panic!("the restarted timer is due"),
    }
    assert!(!timer.is_active(&rl));
}

#[test]
fn callback_installed_during_call_wins() {
    let mut rl: RunLoop<u32> = RunLoop::new();
    let timer = Timer::new(&mut rl).with_callback_once(&mut rl, 4).and_start(&mut rl, 0, 10);
    let (id, fire) = rl.fire_next(10).unwrap();
    let cb = match fire {
        Fire::Timer(cb) => cb,
        _ => panic!("a callback was installed"),
    };
    assert!(!cb.repeating);
    timer.start(&mut rl, 10, 20);
    timer.set_callback(&mut rl, 5);
    rl.finish_timer(id, cb);
    match rl.fire_next(30) {
        Some((id2, Fire::Timer(cb2))) => {
            assert_eq!(id2, id);
            assert_eq!(cb2.f, 5);
            assert!(cb2.repeating);
            rl.finish_timer(id2, cb2);
        }
        _ => panic!("the restarted timer is due"),
    }
}

#[test]
fn one_shot_without_new_callback_fires_nothing_more() {
    let mut rl: RunLoop<u32> = RunLoop::new();
    let timer = Timer::new(&mut rl).with_callback_once(&mut rl, 4).and_start(&mut rl, 0, 0);
    let (id, fire) = rl.fire_next(0).unwrap();
    let cb = match fire {
        Fire::Timer(cb) => cb,
        _ => panic!("a callback was installed"),
    };
    timer.start(&mut rl, 0, 20);
    rl.finish_timer(id, cb);
    // re-armed, but with no callback left the firing only unschedules it
    assert!(timer.is_active(&rl));
    match rl.fire_next(20) {
        Some((id2, Fire::Idle)) => assert_eq!(id2, id),
        _ => panic!("the timer is due without a callback"),
    }
    assert!(!timer.is_active(&rl));
}

#[test]
fn cancel_twice_is_cancel_once() {
    let mut rl: RunLoop<u32> = RunLoop::new();
    let timer = Timer::new(&mut rl).with_callback(&mut rl, 1).and_start(&mut rl, 0, 100);
    timer.cancel(&mut rl);
    assert!(!timer.is_active(&rl));
    assert_eq!(rl.calculate_waiting_time(0), WaitingTime::Infinite);
    timer.cancel(&mut rl);
    assert!(!timer.is_active(&rl));
    assert_eq!(rl.calculate_waiting_time(0), WaitingTime::Infinite);
}

#[test]
fn cancel_inside_callback_drops_restart() {
    let mut rl: RunLoop<u32> = RunLoop::new();
    let timer = Timer::new(&mut rl).with_callback(&mut rl, 1).and_start(&mut rl, 0, 0);
    let (id, fire) = rl.fire_next(0).unwrap();
    timer.start(&mut rl, 0, 10);
    timer.cancel(&mut rl);
    timer.cancel(&mut rl);
    assert!(!timer.is_active(&rl));
    if let Fire::Timer(cb) = fire {
        rl.finish_timer(id, cb);
    } else {
        panic!("a callback was installed");
    }
    assert!(!timer.is_active(&rl));
    assert_eq!(rl.calculate_waiting_time(0), WaitingTime::Infinite);
}

#[test]
fn timers_fire_in_deadline_order() {
    let mut rl: RunLoop<u32> = RunLoop::new();
    let a = Timer::new(&mut rl).with_callback(&mut rl, 1).and_start(&mut rl, 0, 30);
    let b = Timer::new(&mut rl).with_callback(&mut rl, 2).and_start(&mut rl, 0, 10);
    let c = Timer::new(&mut rl).with_callback(&mut rl, 3).and_start(&mut rl, 0, 20);
    assert_eq!(rl.calculate_waiting_time(0), WaitingTime::Duration(10));
    let mut order = Vec::new();
    while let Some((id, fire)) = rl.fire_next(100) {
        if let Fire::Timer(cb) = fire {
            order.push(cb.f);
            rl.finish_timer(id, cb);
        }
    }
    assert_eq!(order, vec![2, 3, 1]);
    assert!(!a.is_active(&rl) && !b.is_active(&rl) && !c.is_active(&rl));
}

#[test]
fn schedule_defaults_and_period_change() {
    let mut rl: RunLoop<u32> = RunLoop::new();
    let mut s = new_schedule(&mut rl, 1000);
    assert_eq!(s.get_period(&rl), DEFAULT_PERIOD);
    assert!(!s.is_active(&rl));
    assert!(!s.is_cancel_on_drop());
    s.set_cancel_on_drop(true);
    assert!(s.is_cancel_on_drop());
    s.start(&mut rl, 1000);
    assert_eq!(rl.calculate_waiting_time(1000), WaitingTime::Duration(DEFAULT_PERIOD));
    s.set_period(&mut rl, 50);
    assert_eq!(s.get_period(&rl), 50);
    assert_eq!(rl.calculate_waiting_time(1000), WaitingTime::Duration(50));
    s.cancel(&mut rl);
    assert!(!s.is_active(&rl));
    assert_eq!(rl.calculate_waiting_time(1000), WaitingTime::Infinite);
}

#[test]
fn schedule_without_callback_keeps_phase() {
    let mut rl: RunLoop<u32> = RunLoop::new();
    let s = new_schedule(&mut rl, 0).with_period(&mut rl, 10).and_start(&mut rl, 0);
    // late by 25 ticks: the next target is one period after the missed one
    match rl.fire_next(35) {
        Some((id, Fire::Idle)) => assert_eq!(id, s.id()),
        _ => panic!("the schedule is due"),
    }
    assert!(s.is_active(&rl));
    assert_eq!(rl.calculate_waiting_time(0), WaitingTime::Duration(20));
}

#[test]
fn schedule_cancelled_in_callback_then_restarted() {
    let mut rl: RunLoop<u32> = RunLoop::new();
    let s = new_schedule(&mut rl, 0).with_period(&mut rl, 10).with_callback(&mut rl, 8).and_start(&mut rl, 0);
    let (id, fire) = rl.fire_next(12).unwrap();
    let (f, dt) = match fire {
        Fire::Schedule(f, dt) => (f, dt),
        _ => panic!("a callback was installed"),
    };
    assert_eq!(dt, 12);
    s.cancel(&mut rl);
    assert!(!s.is_active(&rl));
    s.start(&mut rl, 12);
    assert!(s.is_active(&rl));
    rl.finish_schedule(id, f);
    assert!(s.is_active(&rl));
    assert_eq!(rl.calculate_waiting_time(12), WaitingTime::Duration(10));
}

#[test]
fn schedule_cancelled_in_callback_stops() {
    let mut rl: RunLoop<u32> = RunLoop::new();
    let s = new_schedule(&mut rl, 0).with_period(&mut rl, 10).with_callback(&mut rl, 8).and_start(&mut rl, 0);
    let (id, fire) = rl.fire_next(10).unwrap();
    s.cancel(&mut rl);
    if let Fire::Schedule(f, _) = fire {
        rl.finish_schedule(id, f);
    } else {
        panic!("a callback was installed");
    }
    assert!(!s.is_active(&rl));
    assert_eq!(rl.calculate_waiting_time(10), WaitingTime::Infinite);
}

#[test]
fn deadline_saturates() {
    let mut rl: RunLoop<u32> = RunLoop::new();
    let t = Timer::new(&mut rl).with_cancel_on_drop(true).and_start(&mut rl, u64::MAX - 1, 10);
    assert!(t.is_cancel_on_drop());
    assert_eq!(rl.calculate_waiting_time(0), WaitingTime::Duration(u64::MAX));
}

#[test]
fn loop_step_runs_messages_first() {
    assert_eq!(loop_step(true, WaitingTime::Zero), LoopAction::RunMessages);
    assert_eq!(loop_step(true, WaitingTime::Infinite), LoopAction::RunMessages);
    assert_eq!(loop_step(false, WaitingTime::Zero), LoopAction::FireTimers);
    assert_eq!(loop_step(false, WaitingTime::Infinite), LoopAction::Sleep);
    assert_eq!(loop_step(false, WaitingTime::Duration(7)), LoopAction::SleepFor(7));
}

#[test]
fn release_drops_callback_of_idle_action_only() {
    let mut rl: RunLoop<u32> = RunLoop::new();
    let idle = Timer::new(&mut rl).with_callback(&mut rl, 1);
    let armed = Timer::new(&mut rl).with_callback(&mut rl, 2).and_start(&mut rl, 0, 10);
    rl.release(idle.id());
    rl.release(armed.id());
    assert!(armed.is_active(&rl));
    idle.start(&mut rl, 0, 5);
    let mut seen = Vec::new();
    while let Some((id, fire)) = rl.fire_next(100) {
        match fire {
            Fire::Idle => seen.push(0),
            Fire::Timer(cb) => {
                seen.push(cb.f);
                rl.finish_timer(id, cb);
            }
            _ => panic!("only timers were made"),
        }
    }
    assert_eq!(seen, vec![0, 2]);
}

#[test]
fn new_schedule_starts_idle_with_default_period() {
    let mut rl: RunLoop<u32> = RunLoop::new();
    let s = new_schedule(&mut rl, 40);
    assert!(!s.is_cancel_on_drop());
    assert_eq!(s.get_period(&rl), DEFAULT_PERIOD);
    assert!(!s.is_active(&rl));
    let t = new_timer(&mut rl);
    assert!(!t.is_cancel_on_drop());
    assert_eq!((s.id(), t.id()), (0, 1));
}
