use vstd::prelude::*;

verus! {

/// The state of a loop as seen through its message queue.
#[derive(Debug, PartialEq, Eq, Structural, Clone, Copy)]
pub enum State {
    Stopped,
    Stopping,
    Running,
    Waiting,
    MsgArrived,
}

/// A FIFO of posted messages together with the loop's state.
pub struct MsgQueue<T> {
    pub list: Vec<T>,
    pub state: State,
}

impl<T> View for MsgQueue<T> {
    type V = Seq<T>;

    open spec fn view(&self) -> Seq<T> {
        self.list@
    }
}

impl<T> MsgQueue<T> {
    /// An empty queue of a loop that is not running.
    pub fn new() -> (r: MsgQueue<T>)
        ensures
            r@ == Seq::<T>::empty(),
            r.state == State::Stopped,
    {
        MsgQueue { list: Vec::new(), state: State::Stopped }
    }

    /// Appends a message at the tail.
    pub fn push(&mut self, msg: T)
        ensures
            final(self)@ == old(self)@.push(msg),
            final(self).state == old(self).state,
    {
        self.list.push(msg);
    }

    /// Hands out every queued message, oldest first, and leaves the queue empty.
    pub fn drain(&mut self) -> (r: Vec<T>)
        ensures
            r@ == old(self)@,
            final(self)@ == Seq::<T>::empty(),
            final(self).state == old(self).state,
    {
        let mut out: Vec<T> = Vec::new();
        std::mem::swap(&mut out, &mut self.list);
        out
    }

    pub fn is_empty(&self) -> (r: bool)
        ensures
            r == (self@.len() == 0),
    {
        self.list.len() == 0
    }
}

/// The part of a loop that other threads reach: the message queue and the
/// loop's state. Every method here runs with the queue's lock held; the
/// returned flag says whether the sleeping loop thread must be woken.
pub struct Core<T> {
    pub msgs: MsgQueue<T>,
}

impl<T> Core<T> {
    pub fn new() -> (r: Core<T>)
        ensures
            r.msgs@ == Seq::<T>::empty(),
            r.msgs.state == State::Stopped,
    {
        Core { msgs: MsgQueue::new() }
    }

    /// Queues a message. A loop that is waiting moves to `MsgArrived` and must
    /// be woken; in every other state (also `Stopping`) the message is only
    /// queued.
    pub fn post(&mut self, msg: T) -> (notify: bool)
        ensures
            final(self).msgs@ == old(self).msgs@.push(msg),
            notify == (old(self).msgs.state == State::Waiting),
            final(self).msgs.state == (if notify {
                State::MsgArrived
            } else {
                old(self).msgs.state
            }),
    {
        self.msgs.push(msg);
        if self.msgs.state == State::Waiting {
            self.msgs.state = State::MsgArrived;
            true
        } else {
            false
        }
    }

    /// Asks the loop to stop; a waiting loop must be woken to see it.
    pub fn stop(&mut self) -> (notify: bool)
        ensures
            final(self).msgs@ == old(self).msgs@,
            notify == (old(self).msgs.state == State::Waiting),
            final(self).msgs.state == State::Stopping,
    {
        let notify = self.msgs.state == State::Waiting;
        self.msgs.state = State::Stopping;
        notify
    }

    /// The transition made when `run` is entered. Returns whether the loop
    /// goes on to run: only from `Stopped`. A pending stop is consumed, and a
    /// loop that already runs is left alone.
    pub fn enter_run(&mut self) -> (proceed: bool)
        requires
            old(self).msgs.state != State::Waiting,
            old(self).msgs.state != State::MsgArrived,
        ensures
            final(self).msgs@ == old(self).msgs@,
            proceed == (old(self).msgs.state == State::Stopped),
            final(self).msgs.state == (match old(self).msgs.state {
                State::Stopped => State::Running,
                State::Stopping => State::Stopped,
                _ => old(self).msgs.state,
            }),
    {
        match self.msgs.state {
            State::Stopped => {
                self.msgs.state = State::Running;
                true
            },
            State::Stopping => {
                self.msgs.state = State::Stopped;
                false
            },
            _ => false,
        }
    }

    /// The transition made at the head of each round of the main loop.
    /// Returns whether the loop goes on: a stop request ends it in `Stopped`,
    /// a wake-up puts it back to `Running`.
    pub fn observe(&mut self) -> (go_on: bool)
        requires
            old(self).msgs.state != State::Stopped,
        ensures
            final(self).msgs@ == old(self).msgs@,
            go_on == (old(self).msgs.state != State::Stopping),
            final(self).msgs.state == (if go_on {
                State::Running
            } else {
                State::Stopped
            }),
    {
        match self.msgs.state {
            State::Stopping => {
                self.msgs.state = State::Stopped;
                false
            },
            _ => {
                self.msgs.state = State::Running;
                true
            },
        }
    }

    /// Marks the loop as asleep on the condition variable.
    pub fn begin_wait(&mut self)
        ensures
            final(self).msgs@ == old(self).msgs@,
            final(self).msgs.state == State::Waiting,
    {
        self.msgs.state = State::Waiting;
    }
}

/// Messages posted one after the other are handed out by the next drain in
/// the order they were posted, after whatever was already queued.
pub proof fn lemma_fifo<T>(queued: Seq<T>, m1: T, m2: T)
    ensures
        ({
            let q = queued.push(m1).push(m2);
            &&& q.len() == queued.len() + 2
            &&& q.subrange(0, queued.len() as int) == queued
            &&& q[queued.len() as int] == m1
            &&& q[queued.len() as int + 1] == m2
        }),
{
    assert(queued.push(m1).push(m2).subrange(0, queued.len() as int) =~= queued);
}

} // verus!
