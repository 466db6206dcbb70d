//! A per-thread message loop: a cross-thread message queue with its run-state
//! machine, a binary min-heap of timed actions, timers and periodic schedules
//! driven by that heap, and the bookkeeping behind loop-affine objects.

pub mod msg_queue;
pub mod timer_heap;
pub mod timer;
pub mod schedule;
pub mod run_loop;
pub mod object;
