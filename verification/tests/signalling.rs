use twizzler_poller::{Error, Notify, Signals, WaitItem, WaitStep};

#[test]
fn a_notification_is_popped_once() {
    let mut notify = Notify::new().unwrap();
    assert_eq!(notify.event(), 0);
    assert_eq!(notify.pop_notification(), Err(Error::WouldBlock));
    assert_eq!(notify.notify(), Ok(()));
    assert_eq!(notify.event(), 1);
    assert_eq!(notify.pop_notification(), Ok(()));
    assert_eq!(notify.pop_notification(), Err(Error::WouldBlock));
}

#[test]
fn popping_takes_all_notifications() {
    let mut notify = Notify::new().unwrap();
    for _ in 0..3 {
        assert_eq!(notify.notify(), Ok(()));
    }
    assert_eq!(notify.event(), 3);
    assert_eq!(notify.pop_notification(), Ok(()));
    assert_eq!(notify.event(), 0);
    assert_eq!(notify.notify(), Ok(()));
    assert_eq!(notify.pop_all_notifications(), Ok(()));
    assert_eq!(notify.event(), 0);
    assert_eq!(notify.pop_all_notifications(), Err(Error::WouldBlock));
    assert_eq!(notify.event(), 0);
}

#[test]
fn wait_items_compare_with_the_ends_of_the_word() {
    let notify = Notify::new().unwrap();
    assert_eq!(notify.wait_item_read(), WaitItem { value: 0 });
    assert_eq!(notify.wait_item_write(), WaitItem { value: u64::MAX });
}

#[test]
fn a_poller_that_nobody_disturbs_polls() {
    let mut signals = Signals::new().unwrap();
    assert_eq!(signals.event(), 0);
    assert_eq!(signals.wait_item_read(), WaitItem { value: 0 });
    assert_eq!(signals.wait_item_write(), WaitItem { value: u64::MAX });
    assert_eq!(signals.wait_step(), WaitStep::Poll);
    assert_eq!(signals.wait_step(), WaitStep::Poll);
}

#[test]
fn an_operation_suspends_the_poller() {
    let mut signals = Signals::new().unwrap();
    assert!(signals.begin_operation());
    assert_eq!(signals.event(), 1);
    assert_eq!(signals.wait_step(), WaitStep::Suspend);
    signals.enter_operation(true);
    assert_eq!(signals.event(), 0);
    assert_eq!(signals.wait_step(), WaitStep::Suspend);
    assert!(signals.end_operation());
    assert_eq!(signals.wait_step(), WaitStep::Poll);
}

#[test]
fn only_the_last_operation_resumes_the_poller() {
    let mut signals = Signals::new().unwrap();
    assert!(signals.begin_operation());
    assert!(signals.begin_operation());
    assert_eq!(signals.event(), 2);
    signals.enter_operation(true);
    assert!(!signals.end_operation());
    assert_eq!(signals.wait_step(), WaitStep::Suspend);
    signals.enter_operation(true);
    assert!(signals.end_operation());
    assert_eq!(signals.wait_step(), WaitStep::Poll);
}

#[test]
fn an_operation_that_sent_nothing_takes_nothing_back() {
    let mut signals = Signals::new().unwrap();
    assert_eq!(signals.notify(), Ok(true));
    signals.enter_operation(false);
    assert_eq!(signals.event(), 1);
}

#[test]
fn a_request_ends_the_next_wait_only() {
    let mut signals = Signals::new().unwrap();
    assert_eq!(signals.notify(), Ok(true));
    assert_eq!(signals.event(), 1);
    assert_eq!(signals.wait_step(), WaitStep::Return(Ok(())));
    assert_eq!(signals.event(), 0);
    assert_eq!(signals.wait_step(), WaitStep::Poll);
}

#[test]
fn a_second_request_is_no_news() {
    let mut signals = Signals::new().unwrap();
    assert_eq!(signals.notify(), Ok(true));
    assert_eq!(signals.notify(), Ok(false));
    assert_eq!(signals.event(), 1);
    assert_eq!(signals.wait_step(), WaitStep::Return(Ok(())));
    assert_eq!(signals.wait_step(), WaitStep::Poll);
}

#[test]
fn a_request_outlives_the_operations() {
    let mut signals = Signals::new().unwrap();
    assert_eq!(signals.notify(), Ok(true));
    let sent = signals.begin_operation();
    assert_eq!(signals.event(), 2);
    signals.enter_operation(sent);
    assert!(signals.end_operation());
    assert_eq!(
        signals.wait_step(),
        WaitStep::Return(Err(Error::WouldBlock))
    );
}

#[test]
fn a_request_goes_before_waiting_operations() {
    let mut signals = Signals::new().unwrap();
    assert!(signals.begin_operation());
    assert_eq!(signals.notify(), Ok(true));
    assert_eq!(signals.wait_step(), WaitStep::Return(Ok(())));
    assert_eq!(signals.wait_step(), WaitStep::Suspend);
}

#[test]
fn a_woken_poll_takes_all_notifications() {
    let mut signals = Signals::new().unwrap();
    assert_eq!(signals.wait_step(), WaitStep::Poll);
    assert!(signals.begin_operation());
    assert!(signals.begin_operation());
    assert_eq!(signals.after_poll(false), Ok(()));
    assert_eq!(signals.event(), 2);
    assert_eq!(signals.after_poll(true), Ok(()));
    assert_eq!(signals.event(), 0);
}

#[test]
fn a_request_that_woke_a_poll_ends_no_other_wait() {
    let mut signals = Signals::new().unwrap();
    assert_eq!(signals.wait_step(), WaitStep::Poll);
    assert_eq!(signals.notify(), Ok(true));
    assert_eq!(signals.event(), 1);
    assert_eq!(signals.after_poll(true), Ok(()));
    assert_eq!(signals.event(), 0);
    assert_eq!(signals.wait_step(), WaitStep::Poll);
    assert_eq!(signals.notify(), Ok(true));
}

#[test]
fn a_request_that_came_too_late_ends_the_next_wait() {
    let mut signals = Signals::new().unwrap();
    assert_eq!(signals.wait_step(), WaitStep::Poll);
    assert_eq!(signals.notify(), Ok(true));
    assert_eq!(signals.after_poll(false), Ok(()));
    assert_eq!(signals.wait_step(), WaitStep::Return(Ok(())));
    assert_eq!(signals.wait_step(), WaitStep::Poll);
}

#[test]
fn a_poll_that_was_woken_for_nothing_does_no_harm() {
    let mut signals = Signals::new().unwrap();
    assert_eq!(signals.after_poll(true), Ok(()));
    assert_eq!(signals.event(), 0);
    assert_eq!(signals.wait_step(), WaitStep::Poll);
}
