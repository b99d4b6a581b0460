use twizzler_poller::{
    BorrowedTwizzlerWaitable, Error, Event, EventExtra, Events, HashKey, Operation, PollMode,
    UniqueIds, WaitItems, WpData, Wps,
};

fn interest(key: usize, readable: bool, writable: bool) -> Event {
    Event {
        key,
        readable,
        writable,
        extra: EventExtra::empty(),
    }
}

fn items(read: u32, write: u32) -> WaitItems<u32> {
    WaitItems {
        read: Some(read),
        write: Some(write),
    }
}

fn three_waitables() -> (
    BorrowedTwizzlerWaitable,
    BorrowedTwizzlerWaitable,
    BorrowedTwizzlerWaitable,
) {
    let mut ids = UniqueIds::new();
    let a = BorrowedTwizzlerWaitable::new(&mut ids);
    let b = BorrowedTwizzlerWaitable::new(&mut ids);
    let c = BorrowedTwizzlerWaitable::new(&mut ids);
    (a, b, c)
}

/// What is reported if every command is found ready: key, readable, writable, sorted.
fn report_all(wps: &mut Wps<u32>) -> Vec<(usize, bool, bool)> {
    let ready = vec![true; wps.polls().len()];
    let mut events = Events::with_capacity(8);
    wps.collect(&ready, &mut events);
    let mut found: Vec<(usize, bool, bool)> = events
        .iter()
        .map(|event| (event.key, event.readable, event.writable))
        .collect();
    found.sort();
    found
}

#[test]
fn the_notification_command_comes_first() {
    let (a, _b, _c) = three_waitables();
    let mut wps: Wps<u32> = Wps::new(7);
    assert_eq!(wps.polls(), &vec![7]);
    assert_eq!(
        wps.add(&a, items(20, 21), interest(1, true, true), PollMode::Level),
        Ok(())
    );
    assert_eq!(wps.polls(), &vec![7, 20, 21]);
    wps.delete(&a);
    assert_eq!(wps.polls(), &vec![7]);
}

#[test]
fn only_requested_directions_are_added() {
    let (a, b, c) = three_waitables();
    let mut wps: Wps<u32> = Wps::new(0);
    assert_eq!(
        wps.add(&a, items(20, 21), interest(1, true, false), PollMode::Level),
        Ok(())
    );
    assert_eq!(
        wps.add(&b, items(30, 31), interest(2, false, true), PollMode::Level),
        Ok(())
    );
    assert_eq!(
        wps.add(&c, items(40, 41), interest(3, false, false), PollMode::Edge),
        Ok(())
    );
    assert_eq!(wps.polls(), &vec![0, 20, 31]);
    assert_eq!(
        report_all(&mut wps),
        vec![(1, true, false), (2, false, true)]
    );
}

#[test]
fn a_direction_is_not_added_twice() {
    let (a, _b, _c) = three_waitables();
    let mut wps: Wps<u32> = Wps::new(0);
    assert_eq!(
        wps.add(&a, items(20, 21), interest(1, true, false), PollMode::Level),
        Ok(())
    );
    assert_eq!(
        wps.add(&a, items(22, 23), interest(2, true, true), PollMode::Level),
        Err(Error::AlreadyExists)
    );
    assert_eq!(
        wps.add(&a, items(22, 23), interest(2, true, false), PollMode::Edge),
        Err(Error::AlreadyExists)
    );
    assert_eq!(wps.polls(), &vec![0, 20]);
    assert_eq!(
        wps.add(&a, items(22, 23), interest(2, false, true), PollMode::Level),
        Ok(())
    );
    assert_eq!(wps.polls(), &vec![0, 20, 23]);
    assert_eq!(
        report_all(&mut wps),
        vec![(1, true, false), (2, false, true)]
    );
}

#[test]
fn an_unsupported_mode_adds_nothing() {
    let (a, _b, _c) = three_waitables();
    let mut wps: Wps<u32> = Wps::new(0);
    for mode in vec![PollMode::Edge, PollMode::EdgeOneshot] {
        assert_eq!(
            wps.add(&a, items(20, 21), interest(1, true, true), mode),
            Err(Error::Unsupported)
        );
        assert_eq!(
            wps.add(&a, items(20, 21), interest(1, false, true), mode),
            Err(Error::Unsupported)
        );
    }
    assert_eq!(wps.polls(), &vec![0]);
}

#[test]
fn the_last_waitpoint_takes_a_removed_place() {
    let (a, b, c) = three_waitables();
    let mut wps: Wps<u32> = Wps::new(0);
    let level = PollMode::Level;
    assert_eq!(wps.add(&a, items(20, 21), interest(1, true, true), level), Ok(()));
    assert_eq!(wps.add(&b, items(30, 31), interest(2, true, true), level), Ok(()));
    assert_eq!(wps.add(&c, items(40, 41), interest(3, true, false), level), Ok(()));
    assert_eq!(wps.polls(), &vec![0, 20, 21, 30, 31, 40]);
    wps.delete(&a);
    assert_eq!(wps.polls(), &vec![0, 40, 31, 30]);
    wps.delete(&c);
    assert_eq!(wps.polls(), &vec![0, 30, 31]);
    assert_eq!(
        report_all(&mut wps),
        vec![(2, false, true), (2, true, false)]
    );
    wps.delete(&c);
    assert_eq!(wps.polls(), &vec![0, 30, 31]);
}

#[test]
fn deleting_undoes_adding() {
    let (a, b, _c) = three_waitables();
    let mut wps: Wps<u32> = Wps::new(0);
    let level = PollMode::Level;
    assert_eq!(wps.add(&a, items(20, 21), interest(1, true, true), level), Ok(()));
    assert_eq!(wps.add(&b, items(30, 31), interest(2, true, true), level), Ok(()));
    wps.delete(&b);
    assert_eq!(wps.polls(), &vec![0, 20, 21]);
    assert_eq!(
        report_all(&mut wps),
        vec![(1, false, true), (1, true, false)]
    );
}

#[test]
fn modifying_registers_exactly_the_interest() {
    let (a, b, _c) = three_waitables();
    let mut wps: Wps<u32> = Wps::new(0);
    let level = PollMode::Level;
    assert_eq!(wps.add(&a, items(20, 21), interest(1, true, false), level), Ok(()));
    assert_eq!(wps.add(&b, items(30, 31), interest(2, true, false), level), Ok(()));
    // Drops the read direction and adds the write direction.
    assert_eq!(wps.modify(&a, items(22, 23), interest(5, false, true), level), Ok(()));
    assert_eq!(wps.polls(), &vec![0, 30, 23]);
    assert_eq!(
        report_all(&mut wps),
        vec![(2, true, false), (5, false, true)]
    );
    // Refreshes a direction in its place.
    assert_eq!(wps.modify(&b, items(32, 33), interest(6, true, true), level), Ok(()));
    assert_eq!(wps.polls(), &vec![0, 32, 23, 33]);
    assert_eq!(
        report_all(&mut wps),
        vec![(5, false, true), (6, false, true), (6, true, false)]
    );
    // Twice is once.
    assert_eq!(wps.modify(&b, items(32, 33), interest(6, true, true), level), Ok(()));
    assert_eq!(wps.polls(), &vec![0, 32, 23, 33]);
    // No interest is left.
    assert_eq!(
        wps.modify(&b, items(1, 1), interest(6, false, false), PollMode::Edge),
        Ok(())
    );
    assert_eq!(wps.polls(), &vec![0, 23]);
}

#[test]
fn modifying_a_new_object_adds_it() {
    let (a, _b, _c) = three_waitables();
    let mut wps: Wps<u32> = Wps::new(0);
    assert_eq!(
        wps.modify(&a, items(20, 21), interest(1, true, true), PollMode::Oneshot),
        Ok(())
    );
    assert_eq!(wps.polls(), &vec![0, 20, 21]);
    assert_eq!(
        report_all(&mut wps),
        vec![(1, false, true), (1, true, false)]
    );
    assert_eq!(wps.polls(), &vec![0]);
}

#[test]
fn modifying_in_an_unsupported_mode_changes_the_key_only() {
    let (a, b, _c) = three_waitables();
    let mut wps: Wps<u32> = Wps::new(0);
    let level = PollMode::Level;
    assert_eq!(wps.add(&a, items(20, 21), interest(1, true, true), level), Ok(()));
    assert_eq!(
        wps.modify(&a, items(22, 23), interest(5, true, false), PollMode::Edge),
        Err(Error::Unsupported)
    );
    assert_eq!(wps.polls(), &vec![0, 20, 21]);
    assert_eq!(
        report_all(&mut wps),
        vec![(1, false, true), (5, true, false)]
    );
    assert_eq!(
        wps.modify(&a, items(22, 23), interest(6, false, true), PollMode::Edge),
        Err(Error::Unsupported)
    );
    assert_eq!(wps.polls(), &vec![0, 21]);
    assert_eq!(report_all(&mut wps), vec![(6, false, true)]);
    assert_eq!(
        wps.modify(&b, items(22, 23), interest(6, true, true), PollMode::Edge),
        Err(Error::Unsupported)
    );
    assert_eq!(wps.polls(), &vec![0, 21]);
}

#[test]
fn only_ready_directions_are_reported() {
    let (a, b, _c) = three_waitables();
    let mut wps: Wps<u32> = Wps::new(0);
    let level = PollMode::Level;
    assert_eq!(wps.add(&a, items(20, 21), interest(1, true, true), level), Ok(()));
    assert_eq!(wps.add(&b, items(30, 31), interest(2, true, false), level), Ok(()));
    let mut events = Events::with_capacity(4);
    wps.collect(&vec![true, false, false, false], &mut events);
    assert_eq!(events.iter().count(), 0);
    wps.collect(&vec![false, false, true, false], &mut events);
    let found: Vec<Event> = events.iter().copied().collect();
    assert_eq!(found.len(), 1);
    assert_eq!(found[0].key, 1);
    assert!(found[0].writable);
    assert!(!found[0].readable);
    assert_eq!(found[0].extra.is_err(), Some(false));
    assert_eq!(found[0].extra.is_connect_failed(), Some(false));
    assert!(!found[0].extra.is_hup());
    assert!(!found[0].extra.is_pri());
    assert_ne!(found[0].extra, EventExtra::empty());
    // The list keeps what it held.
    wps.collect(&vec![false, false, false, true], &mut events);
    assert_eq!(events.iter().count(), 2);
    assert_eq!(events.iter().last().map(|event| event.key), Some(2));
}

#[test]
fn oneshot_is_dropped_and_level_stays() {
    let (a, b, c) = three_waitables();
    let mut wps: Wps<u32> = Wps::new(0);
    let (oneshot, level) = (PollMode::Oneshot, PollMode::Level);
    assert_eq!(wps.add(&a, items(20, 21), interest(1, true, true), oneshot), Ok(()));
    assert_eq!(wps.add(&b, items(30, 31), interest(2, true, false), level), Ok(()));
    assert_eq!(wps.add(&c, items(40, 41), interest(3, true, false), oneshot), Ok(()));
    let mut events = Events::with_capacity(4);
    // The read direction of the first object, and the second object.
    wps.collect(&vec![false, true, false, true, false], &mut events);
    let mut keys: Vec<usize> = events.iter().map(|event| event.key).collect();
    keys.sort();
    assert_eq!(keys, vec![1, 2]);
    assert_eq!(wps.polls(), &vec![0, 40, 21, 30]);
    assert_eq!(
        report_all(&mut wps),
        vec![(1, false, true), (2, true, false), (3, true, false)]
    );
    assert_eq!(wps.polls(), &vec![0, 30]);
    assert_eq!(report_all(&mut wps), vec![(2, true, false)]);
    // What was dropped can be added again.
    assert_eq!(wps.add(&a, items(20, 21), interest(1, true, true), oneshot), Ok(()));
}

#[test]
fn events_follow_the_given_order() {
    let (a, b, _c) = three_waitables();
    let mut wps: Wps<u32> = Wps::new(0);
    let (oneshot, level) = (PollMode::Oneshot, PollMode::Level);
    assert_eq!(wps.add(&a, items(20, 21), interest(1, true, true), oneshot), Ok(()));
    assert_eq!(wps.add(&b, items(30, 31), interest(2, true, false), level), Ok(()));
    let order = vec![
        HashKey::new(b.key(), false),
        HashKey::new(a.key(), true),
        HashKey::new(a.key(), false),
        HashKey::new(9, false),
    ];
    let mut events = Events::with_capacity(4);
    wps.collect_in_order(&vec![true, true, true, true], &order, &mut events);
    let found: Vec<(usize, bool)> = events
        .iter()
        .map(|event| (event.key, event.writable))
        .collect();
    assert_eq!(found, vec![(2, false), (1, true), (1, false)]);
    assert_eq!(wps.polls(), &vec![0, 30]);
}

#[test]
fn a_walk_names_every_waitpoint_once() {
    let (a, b, _c) = three_waitables();
    let mut wps: Wps<u32> = Wps::new(0);
    let level = PollMode::Level;
    assert_eq!(wps.walk(), vec![]);
    assert_eq!(wps.add(&a, items(20, 21), interest(1, true, true), level), Ok(()));
    assert_eq!(wps.add(&b, items(30, 31), interest(2, false, true), level), Ok(()));
    let mut order = wps.walk();
    order.sort();
    assert_eq!(
        order,
        vec![
            HashKey::new(a.key(), false),
            HashKey::new(a.key(), true),
            HashKey::new(b.key(), true),
        ]
    );
}

#[test]
fn the_kernel_may_rewrite_the_commands() {
    let (a, _b, _c) = three_waitables();
    let mut wps: Wps<u32> = Wps::new(0);
    let level = PollMode::Level;
    assert_eq!(wps.add(&a, items(20, 21), interest(1, true, true), level), Ok(()));
    for command in wps.polls_mut().iter_mut() {
        *command += 100;
    }
    assert_eq!(wps.polls(), &vec![100, 120, 121]);
    assert_eq!(
        report_all(&mut wps),
        vec![(1, false, true), (1, true, false)]
    );
}

#[test]
fn operations_are_carried_out() {
    let (a, _b, _c) = three_waitables();
    let mut wps: Wps<u32> = Wps::new(0);
    let ev = interest(1, true, false);
    assert_eq!(
        wps.apply(Operation::Add { wp: &a, items: items(20, 21), ev, mode: PollMode::Level }),
        Ok(())
    );
    assert_eq!(
        wps.apply(Operation::Add { wp: &a, items: items(20, 21), ev, mode: PollMode::Level }),
        Err(Error::AlreadyExists)
    );
    assert_eq!(
        wps.apply(Operation::Modify {
            source: &a,
            items: items(22, 23),
            ev,
            mode: PollMode::Level,
        }),
        Ok(())
    );
    assert_eq!(wps.polls(), &vec![0, 22]);
    assert_eq!(wps.apply(Operation::Delete { source: &a }), Ok(()));
    assert_eq!(wps.polls(), &vec![0]);
}

#[test]
fn directions_that_are_not_requested_need_no_command() {
    let (a, _b, _c) = three_waitables();
    let mut wps: Wps<u32> = Wps::new(0);
    let level = PollMode::Level;
    let read_only = WaitItems { read: Some(20), write: None };
    assert_eq!(wps.add(&a, read_only, interest(1, true, false), level), Ok(()));
    let write_only = WaitItems { read: None, write: Some(21) };
    assert_eq!(wps.modify(&a, write_only, interest(2, false, true), level), Ok(()));
    assert_eq!(wps.polls(), &vec![0, 21]);
    let none = WaitItems { read: None, write: None };
    assert_eq!(
        wps.add(&a, none, interest(3, false, true), level),
        Err(Error::AlreadyExists)
    );
    let none = WaitItems { read: None, write: None };
    assert_eq!(
        wps.modify(&a, none, interest(3, true, true), PollMode::Edge),
        Err(Error::Unsupported)
    );
    let none = WaitItems { read: None, write: None };
    assert_eq!(wps.modify(&a, none, interest(3, false, false), level), Ok(()));
    assert_eq!(wps.polls(), &vec![0]);
}

#[test]
fn an_addition_can_be_checked_first() {
    let (a, _b, _c) = three_waitables();
    let mut wps: Wps<u32> = Wps::new(0);
    let ev = interest(1, true, false);
    assert_eq!(wps.check_add(&a, ev, PollMode::Level), Ok(()));
    assert_eq!(wps.check_add(&a, ev, PollMode::Edge), Err(Error::Unsupported));
    assert_eq!(wps.check_add(&a, interest(1, false, false), PollMode::Edge), Ok(()));
    assert_eq!(wps.add(&a, items(20, 21), ev, PollMode::Level), Ok(()));
    assert_eq!(wps.check_add(&a, ev, PollMode::Edge), Err(Error::AlreadyExists));
    assert_eq!(wps.check_add(&a, interest(1, false, true), PollMode::Level), Ok(()));
    assert_eq!(wps.polls(), &vec![0, 20]);
}

#[test]
fn a_pushed_waitpoint_gets_its_own_index_and_key() {
    let (a, b, _c) = three_waitables();
    let mut wps: Wps<u32> = Wps::new(0);
    let level = PollMode::Level;
    assert_eq!(wps.add(&a, items(20, 21), interest(1, true, false), level), Ok(()));
    let data = WpData {
        poll_wps_index: 77,
        key: 5,
        remove: true,
        write: true,
        bw_key: 88,
    };
    wps.push_item(&b, data, 30);
    assert_eq!(wps.polls(), &vec![0, 20, 30]);
    assert_eq!(
        wps.check_add(&b, interest(6, false, true), level),
        Err(Error::AlreadyExists)
    );
    assert_eq!(
        report_all(&mut wps),
        vec![(1, true, false), (5, false, true)]
    );
    assert_eq!(wps.polls(), &vec![0, 20]);
    assert_eq!(data.hash_key(), HashKey::new(88, true));
}

#[test]
fn a_removed_waitpoint_leaves_the_others_alone() {
    let (a, b, _c) = three_waitables();
    let mut wps: Wps<u32> = Wps::new(0);
    let level = PollMode::Level;
    assert_eq!(wps.add(&a, items(20, 21), interest(1, true, true), level), Ok(()));
    assert_eq!(wps.add(&b, items(30, 31), interest(2, true, false), level), Ok(()));
    wps.remove_item_key(&HashKey::new(0, false));
    wps.remove_item_key(&HashKey::new(b.key(), true));
    assert_eq!(wps.polls(), &vec![0, 20, 21, 30]);
    wps.remove_item_key(&HashKey::new(a.key(), false));
    assert_eq!(wps.polls(), &vec![0, 30, 21]);
    wps.remove_item_dir(&a, true);
    assert_eq!(wps.polls(), &vec![0, 30]);
    assert_eq!(report_all(&mut wps), vec![(2, true, false)]);
    wps.remove_item_dir(&b, false);
    assert_eq!(wps.polls(), &vec![0]);
}
