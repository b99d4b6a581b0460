use twizzler_poller::{cvt_mode_as_remove, Error, Event, EventExtra, Events, PollFlags, PollMode};

fn interest(key: usize, readable: bool, writable: bool) -> Event {
    Event {
        key,
        readable,
        writable,
        extra: EventExtra::empty(),
    }
}

#[test]
fn modes_tell_whether_to_remove() {
    assert_eq!(cvt_mode_as_remove(PollMode::Oneshot), Ok(true));
    assert_eq!(cvt_mode_as_remove(PollMode::Level), Ok(false));
    assert_eq!(cvt_mode_as_remove(PollMode::Edge), Err(Error::Unsupported));
    assert_eq!(
        cvt_mode_as_remove(PollMode::EdgeOneshot),
        Err(Error::Unsupported)
    );
}

#[test]
fn only_unsupported_requests_are_explained() {
    assert_eq!(
        Error::Unsupported.message(),
        Some("edge-triggered I/O events are not supported in poll()")
    );
    assert_eq!(Error::AlreadyExists.message(), None);
    assert_eq!(Error::WouldBlock.message(), None);
}

#[test]
fn flags_contain_their_subsets() {
    let err = PollFlags::from_bits(4);
    assert!(PollFlags::from_bits(7).contains(err));
    assert!(PollFlags::from_bits(5).contains(PollFlags::from_bits(5)));
    assert!(!PollFlags::from_bits(3).contains(err));
    assert!(!PollFlags::from_bits(4).contains(PollFlags::from_bits(5)));
    assert!(PollFlags::empty().contains(PollFlags::empty()));
    assert!(!PollFlags::empty().contains(err));
}

#[test]
fn empty_extra_information_tells_nothing() {
    let extra = EventExtra::empty();
    assert_eq!(extra.is_err(), Some(false));
    assert_eq!(extra.is_connect_failed(), Some(false));
    assert!(!extra.is_hup());
    assert!(!extra.is_pri());
}

#[test]
fn the_interrupt_flag_is_set_alone() {
    let mut extra = EventExtra::empty();
    extra.set_hup(true);
    assert!(extra.is_hup());
    assert!(!extra.is_pri());
    assert_eq!(extra.is_err(), Some(false));
    assert_eq!(extra.is_connect_failed(), Some(false));
    extra.set_hup(true);
    assert!(extra.is_hup());
    extra.set_hup(false);
    assert_eq!(extra, EventExtra::empty());
}

#[test]
fn the_priority_flag_is_set_alone() {
    let mut extra = EventExtra::empty();
    extra.set_pri(true);
    assert!(extra.is_pri());
    assert!(!extra.is_hup());
    assert_eq!(extra.is_err(), Some(false));
    assert_eq!(extra.is_connect_failed(), Some(false));
    extra.set_hup(true);
    extra.set_pri(false);
    assert!(!extra.is_pri());
    assert!(extra.is_hup());
}

#[test]
fn flags_are_put_in_and_taken_out() {
    let mut flags = PollFlags::from_bits(5);
    flags.set(PollFlags::from_bits(2), true);
    assert_eq!(flags, PollFlags::from_bits(7));
    flags.set(PollFlags::from_bits(5), false);
    assert_eq!(flags, PollFlags::from_bits(2));
    flags.set(PollFlags::from_bits(5), false);
    assert_eq!(flags, PollFlags::from_bits(2));
}

#[test]
fn a_new_list_is_empty_and_has_room() {
    let events = Events::with_capacity(10);
    assert_eq!(events.iter().count(), 0);
    assert!(events.capacity() >= 10);
}

#[test]
fn an_empty_list_can_be_cleared() {
    let mut events = Events::with_capacity(0);
    events.clear();
    assert_eq!(events.iter().count(), 0);
}

#[test]
fn an_event_takes_at_most_sixteen_bytes() {
    assert!(std::mem::size_of::<Event>() <= 16);
    assert_eq!(interest(1, true, false).key, 1);
}
