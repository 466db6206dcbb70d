use vnbase::msg_queue::{Core, MsgQueue, State};

#[test]
fn fifo_per_thread() {
    let mut core: Core<&str> = Core::new();
    core.post("m1");
    core.post("m2");
    assert_eq!(core.msgs.drain(), vec!["m1", "m2"]);
    assert!(core.msgs.is_empty());
}

#[test]
fn empty_until_posted_again() {
    let mut q: MsgQueue<u8> = MsgQueue::new();
    assert!(q.is_empty());
    q.push(1);
    assert!(!q.is_empty());
    assert_eq!(q.drain(), vec![1]);
    assert!(q.is_empty());
    assert!(q.drain().is_empty());
    assert_eq!(q.state, State::Stopped);
}

#[test]
fn cross_thread_echo_wakes_the_loop() {
    let mut core: Core<String> = Core::new();
    assert!(core.enter_run());
    assert!(core.observe());
    assert!(core.msgs.drain().is_empty());
    core.begin_wait();
    assert_eq!(core.msgs.state, State::Waiting);
    let notify = core.post(String::from("hello"));
    assert!(notify);
    assert_eq!(core.msgs.state, State::MsgArrived);
    assert!(core.observe());
    assert_eq!(core.msgs.state, State::Running);
    let msgs = core.msgs.drain();
    assert_eq!(msgs.len(), 1);
    assert_eq!(format!("Your input: {}", msgs[0]), "Your input: hello");
    assert!(!core.stop());
    assert!(!core.observe());
    assert_eq!(core.msgs.state, State::Stopped);
}

#[test]
fn post_while_running_does_not_notify() {
    let mut core: Core<u8> = Core::new();
    assert!(!core.post(1));
    assert_eq!(core.msgs.state, State::Stopped);
    assert!(core.enter_run());
    assert!(!core.post(2));
    assert_eq!(core.msgs.state, State::Running);
    assert_eq!(core.msgs.drain(), vec![1, 2]);
}

#[test]
fn stop_before_run_is_consumed() {
    let mut core: Core<u8> = Core::new();
    assert!(!core.stop());
    core.post(5);
    assert_eq!(core.msgs.state, State::Stopping);
    assert!(!core.enter_run());
    assert_eq!(core.msgs.state, State::Stopped);
    assert!(core.enter_run());
    assert!(!core.enter_run());
    assert_eq!(core.msgs.state, State::Running);
}

#[test]
fn stop_wakes_a_waiting_loop() {
    let mut core: Core<u8> = Core::new();
    assert!(core.enter_run());
    core.begin_wait();
    assert!(core.stop());
    assert_eq!(core.msgs.state, State::Stopping);
    assert!(!core.observe());
}
