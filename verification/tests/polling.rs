use twizzler_poller::{
    BorrowedTwizzlerWaitable, Error, Event, EventExtra, Events, PollMode, Poller, UniqueIds,
    WaitItems,
};

fn interest(key: usize, readable: bool, writable: bool) -> Event {
    Event {
        key,
        readable,
        writable,
        extra: EventExtra::empty(),
    }
}

fn items(read: u32, write: u32) -> WaitItems<u32> {
    WaitItems {
        read: Some(read),
        write: Some(write),
    }
}

#[test]
fn level_is_supported_and_edge_is_not() {
    let mut ids = UniqueIds::new();
    let a = BorrowedTwizzlerWaitable::new(&mut ids);
    let mut poller: Poller<u32> = Poller::new(0).unwrap();
    assert!(poller.supports_level());
    assert!(!poller.supports_edge());
    assert_eq!(
        poller.add(&a, items(1, 2), interest(1, true, false), PollMode::Edge),
        Err(Error::Unsupported)
    );
    assert_eq!(
        poller.add(&a, items(1, 2), interest(1, true, false), PollMode::Level),
        Ok(())
    );
}

#[test]
fn a_poller_reports_what_is_ready() {
    let mut ids = UniqueIds::new();
    let a = BorrowedTwizzlerWaitable::new(&mut ids);
    let mut poller: Poller<u32> = Poller::new(0).unwrap();
    assert_eq!(poller.polls(), &vec![0]);
    assert_eq!(
        poller.add(&a, items(1, 2), interest(9, true, true), PollMode::Oneshot),
        Ok(())
    );
    assert_eq!(poller.polls(), &vec![0, 1, 2]);
    let mut events = Events::with_capacity(4);
    let ready = vec![false, true, false];
    assert_eq!(poller.wait(&mut events, &ready), Some(Ok(())));
    let found: Vec<Event> = events.iter().copied().collect();
    assert_eq!(found.len(), 1);
    assert_eq!(found[0].key, 9);
    assert!(found[0].readable);
    assert!(!found[0].writable);
    assert_eq!(poller.polls(), &vec![0, 2]);
    // The list is cleared by each wait.
    assert_eq!(poller.wait(&mut events, &vec![false, false]), Some(Ok(())));
    assert_eq!(events.iter().count(), 0);
}

#[test]
fn a_notification_ends_the_next_wait() {
    let mut ids = UniqueIds::new();
    let a = BorrowedTwizzlerWaitable::new(&mut ids);
    let mut poller: Poller<u32> = Poller::new(0).unwrap();
    let mut events = Events::with_capacity(4);
    assert_eq!(
        poller.add(&a, items(1, 2), interest(9, true, false), PollMode::Level),
        Ok(())
    );
    assert_eq!(poller.notify(), Ok(()));
    assert_eq!(poller.notify(), Ok(()));
    let ready = vec![true, true];
    assert_eq!(poller.wait(&mut events, &ready), Some(Ok(())));
    assert_eq!(events.iter().count(), 0);
    assert_eq!(poller.wait(&mut events, &ready), Some(Ok(())));
    assert_eq!(events.iter().count(), 1);
}

#[test]
fn an_operation_takes_the_notification_but_not_the_request() {
    let mut ids = UniqueIds::new();
    let a = BorrowedTwizzlerWaitable::new(&mut ids);
    let mut poller: Poller<u32> = Poller::new(0).unwrap();
    let mut events = Events::with_capacity(4);
    assert_eq!(poller.notify(), Ok(()));
    assert_eq!(
        poller.add(&a, items(1, 2), interest(9, true, false), PollMode::Level),
        Ok(())
    );
    let ready = vec![false, true];
    assert_eq!(
        poller.wait(&mut events, &ready),
        Some(Err(Error::WouldBlock))
    );
    assert_eq!(events.iter().count(), 0);
    assert_eq!(poller.wait(&mut events, &ready), Some(Ok(())));
    assert_eq!(events.iter().count(), 1);
}

#[test]
fn objects_are_modified_and_deleted() {
    let mut ids = UniqueIds::new();
    let a = BorrowedTwizzlerWaitable::new(&mut ids);
    let mut poller: Poller<u32> = Poller::new(0).unwrap();
    let level = PollMode::Level;
    assert_eq!(poller.add(&a, items(1, 2), interest(9, true, false), level), Ok(()));
    assert_eq!(
        poller.add(&a, items(1, 2), interest(9, true, false), level),
        Err(Error::AlreadyExists)
    );
    assert_eq!(poller.modify(&a, items(3, 4), interest(8, false, true), level), Ok(()));
    assert_eq!(poller.polls(), &vec![0, 4]);
    let mut events = Events::with_capacity(4);
    assert_eq!(poller.wait(&mut events, &vec![true, true]), Some(Ok(())));
    assert_eq!(events.iter().map(|event| event.key).last(), Some(8));
    assert_eq!(poller.delete(&a), Ok(()));
    assert_eq!(poller.polls(), &vec![0]);
    assert_eq!(poller.wait(&mut events, &vec![true]), Some(Ok(())));
    assert_eq!(events.iter().count(), 0);
}
