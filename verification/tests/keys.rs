use twizzler_poller::{BorrowedTwizzlerWaitable, HashKey, UniqueIds};

#[test]
fn directions_have_different_keys() {
    let keys = vec![
        HashKey::new(2, false),
        HashKey::new(2, true),
        HashKey::new(3, false),
        HashKey::new(3, true),
    ];
    for i in 0..keys.len() {
        for j in 0..keys.len() {
            assert_eq!(keys[i] == keys[j], i == j);
        }
    }
    assert_eq!(format!("{:?}", HashKey::new(5, true)), "HashKey(11)");
    assert_eq!(format!("{:?}", HashKey::new(5, false)), "HashKey(10)");
}

#[test]
fn the_largest_key_can_be_numbered() {
    let key = usize::MAX / 2;
    assert_ne!(HashKey::new(key, true), HashKey::new(key, false));
    assert_eq!(
        format!("{:?}", HashKey::new(key, true)),
        format!("HashKey({})", usize::MAX)
    );
}

#[test]
fn keys_are_handed_out_in_order() {
    let mut ids = UniqueIds::new();
    assert!(ids.can_next());
    assert_eq!(ids.next(), 2);
    assert_eq!(ids.next(), 3);
    assert_eq!(ids.next(), 4);
    assert!(ids.can_next());
}

#[test]
fn released_keys_are_handed_out_again() {
    let mut ids = UniqueIds::new();
    for expected in 2..6 {
        assert_eq!(ids.next(), expected);
    }
    ids.release(3);
    ids.release(2);
    assert_eq!(ids.next(), 2);
    assert_eq!(ids.next(), 3);
    assert_eq!(ids.next(), 6);
}

#[test]
fn the_last_key_is_taken_back_from_the_top() {
    let mut ids = UniqueIds::new();
    assert_eq!(ids.next(), 2);
    assert_eq!(ids.next(), 3);
    ids.release(3);
    assert_eq!(ids.next(), 3);
    ids.release(2);
    ids.release(3);
    assert_eq!(ids.next(), 2);
    assert_eq!(ids.next(), 3);
}

#[test]
fn zero_is_no_key() {
    let mut ids = UniqueIds::new();
    ids.release(0);
    assert_eq!(ids.next(), 2);
    assert_eq!(ids.next(), 3);
}

#[test]
fn a_release_undoes_the_last_next() {
    let mut ids = UniqueIds::new();
    let first = ids.next();
    let second = ids.next();
    ids.release(second);
    assert_eq!(ids.next(), second);
    assert_ne!(first, second);
}

#[test]
fn waitables_get_their_own_keys() {
    let mut ids = UniqueIds::new();
    let a = BorrowedTwizzlerWaitable::new(&mut ids);
    let b = BorrowedTwizzlerWaitable::new(&mut ids);
    assert_eq!(a.key(), 2);
    assert_eq!(b.key(), 3);
    a.release(&mut ids);
    let c = BorrowedTwizzlerWaitable::new(&mut ids);
    assert_eq!(c.key(), 2);
}
