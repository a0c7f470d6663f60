use aura::aura_error::AuraError;
use aura::scheduler::{CommandQueue, EffectScheduler, PendingCommand};

fn command(name: &str, colours: Vec<u8>) -> PendingCommand {
    PendingCommand { controller_name: String::from(name), colours }
}

#[test]
fn queue_hands_commands_out_in_submission_order() {
    // submitting (A, frame1), (B, frame2), (A, frame3) drains in that order
    let mut queue = CommandQueue::new();
    queue.submit(command("A", vec![1, 2, 3]));
    queue.submit(command("B", vec![4, 5, 6]));
    queue.submit(command("A", vec![7, 8, 9]));
    assert_eq!(queue.len(), 3);

    let first = queue.pop_front().unwrap();
    assert_eq!(first.controller_name, "A");
    assert_eq!(first.colours, vec![1, 2, 3]);

    let second = queue.pop_front().unwrap();
    assert_eq!(second.controller_name, "B");
    assert_eq!(second.colours, vec![4, 5, 6]);

    let third = queue.pop_front().unwrap();
    assert_eq!(third.controller_name, "A");
    assert_eq!(third.colours, vec![7, 8, 9]);

    assert!(queue.pop_front().is_none());
    assert_eq!(queue.len(), 0);
}

#[test]
fn empty_queue_hands_out_nothing() {
    let mut queue = CommandQueue::new();
    assert_eq!(queue.len(), 0);
    assert!(queue.pop_front().is_none());
}

#[test]
fn scheduler_with_no_drivers_knows_no_name() {
    let scheduler = EffectScheduler::new();
    assert!(scheduler.led_count_of(&String::from("MB")).is_none());
}

#[test]
fn drain_of_empty_queue_succeeds() {
    let mut scheduler = EffectScheduler::new();
    assert!(scheduler.run_pending().is_ok());
}

#[test]
fn command_for_unknown_controller_is_a_typed_error() {
    let mut scheduler = EffectScheduler::new();
    scheduler.submit(String::from("MB"), vec![0xFF; 21]);
    match scheduler.run_pending() {
        Err(AuraError::Other(msg)) => {
            assert_eq!(msg, "unknown controller name submitted");
        }
        Err(_) => panic!("an unknown name must surface as a configuration error"),
        Ok(()) => panic!("a command for an unregistered controller must fail"),
    }
}

#[test]
fn failed_command_leaves_later_commands_queued() {
    let mut scheduler = EffectScheduler::new();
    scheduler.submit(String::from("MB"), vec![1, 2, 3]);
    scheduler.submit(String::from("RAM70"), vec![4, 5, 6]);
    assert!(scheduler.run_pending().is_err());
    // the first command was consumed, the second stays behind
    match scheduler.run_pending() {
        Err(AuraError::Other(msg)) => assert_eq!(msg, "unknown controller name submitted"),
        _ => panic!("the second command must still be queued"),
    }
}
