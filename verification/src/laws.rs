//! What holds of a poller as a whole.

pub mod places;

use vstd::prelude::*;

use crate::error::Error;
use crate::event::{Event, EventExtra, PollMode, ERR, HUP, PRI, READ, WRITE};
use crate::hash_key::HashKey;
use crate::slots::{Slot, Slots, WaitItems};
use crate::wps::WpsView;

verus! {

/// What `f` makes of an element counts the same wherever the element stands.
proof fn lemma_filter_map_remove<A, B>(s: Seq<A>, f: spec_fn(A) -> Option<B>, i: int)
    requires
        0 <= i < s.len(),
    ensures
        s.filter_map(f).to_multiset() == match f(s[i]) {
            Some(b) => s.remove(i).filter_map(f).to_multiset().insert(b),
            None => s.remove(i).filter_map(f).to_multiset(),
        },
    decreases s.len(),
{
    broadcast use vstd::seq_lib::group_to_multiset_ensures;

    let rest = s.drop_last();
    let last = s.len() - 1;
    assert(f(s.last()) is Some ==> s.filter_map(f) =~= rest.filter_map(f).push(
        f(s.last())->Some_0,
    ));
    if i == last {
        assert(s.remove(i) =~= rest);
    } else {
        lemma_filter_map_remove(rest, f, i);
        let removed = s.remove(i);
        assert(removed.drop_last() =~= rest.remove(i));
        assert(removed.last() == s.last());
        assert(f(s.last()) is Some ==> removed.filter_map(f) =~= rest.remove(i).filter_map(f).push(
            f(s.last())->Some_0,
        ));
        assert(s.filter_map(f).to_multiset() =~= match f(s[i]) {
            Some(b) => removed.filter_map(f).to_multiset().insert(b),
            None => removed.filter_map(f).to_multiset(),
        });
    }
}

/// Sequences that hold the same elements, each once, give the same multiset.
proof fn lemma_filter_map_permutation<A, B>(a: Seq<A>, b: Seq<A>, f: spec_fn(A) -> Option<B>)
    requires
        a.no_duplicates(),
        b.no_duplicates(),
        forall|x: A| #[trigger] a.contains(x) <==> b.contains(x),
    ensures
        a.filter_map(f).to_multiset() == b.filter_map(f).to_multiset(),
    decreases a.len(),
{
    if a.len() == 0 {
        if b.len() > 0 {
            assert(b.contains(b[0]));
            assert(a.contains(b[0]));
        }
        assert(a =~= b);
    } else {
        let last = a.len() - 1;
        let x = a[last];
        assert(a.contains(x));
        let j = b.index_of(x);
        assert(b[j] == x);
        let a1 = a.remove(last);
        let b1 = b.remove(j);
        assert forall|y: A| #[trigger] a1.contains(y) <==> b1.contains(y) by {
            if a1.contains(y) {
                let k = a1.index_of(y);
                assert(a[k] == y);
                assert(a.contains(y));
                let l = b.index_of(y);
                assert(b[l] == y);
                assert(l != j);
                assert(b1[if l < j {
                    l
                } else {
                    l - 1
                }] == y);
            }
            if b1.contains(y) {
                let k = b1.index_of(y);
                let l = if k < j {
                    k
                } else {
                    k + 1
                };
                assert(b[l] == y);
                assert(b.contains(y));
                assert(a.contains(y));
                let m = a.index_of(y);
                assert(a[m] == y);
                assert(m != last);
                assert(a1[m] == y);
            }
        }
        lemma_filter_map_permutation(a1, b1, f);
        lemma_filter_map_remove(a, f, last);
        lemma_filter_map_remove(b, f, j);
    }
}

/// The directions of distinct slots, in the order of the slots, are a walk.
proof fn lemma_ids_walk<S>(slots: Slots<S>)
    requires
        slots.distinct(),
    ensures
        slots.is_walk(slots.ids()),
{
    let ids = slots.ids();
    assert forall|id: int| #[trigger] ids.contains(id) <==> slots.has(id) by {
        if ids.contains(id) {
            let i = ids.index_of(id);
            assert(slots.seq[i].id() == id);
        }
        if slots.has(id) {
            let i = slots.find(id);
            slots.lemma_found(id);
            assert(ids[i] == id);
        }
    }
    assert forall|i: int, j: int| 0 <= i < ids.len() && 0 <= j < ids.len() && i != j implies ids[i]
        != ids[j] by {
        if i < j {
            assert(slots.seq[i].id() != slots.seq[j].id());
        } else {
            assert(slots.seq[j].id() != slots.seq[i].id());
        }
    }
}

/// Slots that are removed are no longer registered, and no other changes.
proof fn lemma_remove_all<S>(slots: Slots<S>, ids: Seq<int>)
    requires
        slots.distinct(),
    ensures
        slots.remove_all(ids).distinct(),
        slots.remove_all(ids).registered() == slots.registered().remove_keys(ids.to_set()),
    decreases ids.len(),
{
    if ids.len() == 0 {
        assert(slots.registered() =~= slots.registered().remove_keys(ids.to_set()));
    } else {
        let rest = ids.drop_last();
        lemma_remove_all(slots, rest);
        slots.remove_all(rest).lemma_remove(ids.last());
        assert forall|id: int| ids.to_set().contains(id) <==> rest.to_set().contains(id) || id
            == ids.last() by {
            if ids.contains(id) && id != ids.last() {
                let i = ids.index_of(id);
                assert(rest[i] == id);
            }
            if rest.contains(id) {
                let i = rest.index_of(id);
                assert(ids[i] == id);
            }
            assert(ids[ids.len() - 1] == ids.last());
        }
        assert(slots.registered().remove_keys(rest.to_set()).remove(ids.last())
            =~= slots.registered().remove_keys(ids.to_set()));
    }
}

/// However the waitpoints are walked, each direction that was found ready is
/// reported by exactly one event, and no other is.
pub proof fn every_ready_direction_is_reported_once<S>(
    slots: Slots<S>,
    ready: Seq<bool>,
    events: Seq<Event>,
    after: Slots<S>,
)
    requires
        slots.distinct(),
        slots.collected(ready, events, after),
    ensures
        events.to_multiset() == slots.ready_events(ready).to_multiset(),
{
    let order = choose|order: Seq<int>|
        {
            &&& #[trigger] slots.is_walk(order)
            &&& events == slots.reported(ready, order)
            &&& after == slots.collect(ready, order)
        };
    lemma_ids_walk(slots);
    assert forall|id: int| #[trigger] order.contains(id) <==> slots.ids().contains(id) by {
        assert(order.contains(id) <==> slots.has(id));
    }
    lemma_filter_map_permutation(order, slots.ids(), slots.report(ready));
}

/// However the waitpoints are walked, those that were found ready and are to be
/// reported once are dropped. All others stay as they are.
pub proof fn only_spent_directions_are_dropped<S>(
    slots: Slots<S>,
    ready: Seq<bool>,
    events: Seq<Event>,
    after: Slots<S>,
)
    requires
        slots.distinct(),
        slots.collected(ready, events, after),
    ensures
        after.distinct(),
        after.registered() == slots.unspent(ready),
{
    let order = choose|order: Seq<int>|
        {
            &&& #[trigger] slots.is_walk(order)
            &&& events == slots.reported(ready, order)
            &&& after == slots.collect(ready, order)
        };
    let is_spent = |id: int| slots.is_spent(ready, id);
    let spent = slots.spent(ready, order);
    lemma_remove_all(slots, spent);
    assert forall|id: int| spent.to_set().contains(id) <==> slots.is_spent(ready, id) by {
        if spent.contains(id) {
            let i = spent.index_of(id);
            order.lemma_filter_pred(is_spent, i);
        }
        if slots.is_spent(ready, id) {
            assert(order.contains(id));
            let i = order.index_of(id);
            order.lemma_filter_contains(is_spent, i);
        }
    }
    assert(slots.registered().remove_keys(spent.to_set()) =~= slots.unspent(ready));
}

/// A direction that is reported once is gone once it was reported.
pub proof fn oneshot_is_reported_once<S>(
    slots: Slots<S>,
    ready: Seq<bool>,
    events: Seq<Event>,
    after: Slots<S>,
    id: int,
)
    requires
        slots.distinct(),
        slots.collected(ready, events, after),
        slots.is_ready(ready, id),
        slots.get(id).remove,
    ensures
        events.contains(slots.get(id).event()),
        !after.has(id),
{
    lemma_ready_is_reported(slots, ready, events, after, id);
    only_spent_directions_are_dropped(slots, ready, events, after);
    assert(!after.registered().dom().contains(id));
}

/// A direction that is reported for as long as it is ready stays as it is when it
/// was reported.
pub proof fn level_is_reported_again<S>(
    slots: Slots<S>,
    ready: Seq<bool>,
    events: Seq<Event>,
    after: Slots<S>,
    id: int,
)
    requires
        slots.distinct(),
        slots.collected(ready, events, after),
        slots.is_ready(ready, id),
        !slots.get(id).remove,
    ensures
        events.contains(slots.get(id).event()),
        after.has(id),
        after.get(id) == slots.get(id),
{
    lemma_ready_is_reported(slots, ready, events, after, id);
    only_spent_directions_are_dropped(slots, ready, events, after);
    assert(slots.unspent(ready).dom().contains(id));
    assert(after.registered().dom().contains(id));
    assert(after.registered()[id] == slots.get(id));
}

proof fn lemma_ready_is_reported<S>(
    slots: Slots<S>,
    ready: Seq<bool>,
    events: Seq<Event>,
    after: Slots<S>,
    id: int,
)
    requires
        slots.collected(ready, events, after),
        slots.is_ready(ready, id),
    ensures
        events.contains(slots.get(id).event()),
{
    let order = choose|order: Seq<int>|
        {
            &&& #[trigger] slots.is_walk(order)
            &&& events == slots.reported(ready, order)
            &&& after == slots.collect(ready, order)
        };
    assert(order.contains(id));
    lemma_filter_map_keeps(order, slots.report(ready), order.index_of(id));
}

/// What `f` makes of an element is among what it makes of the sequence.
proof fn lemma_filter_map_keeps<A, B>(s: Seq<A>, f: spec_fn(A) -> Option<B>, i: int)
    requires
        0 <= i < s.len(),
        f(s[i]) is Some,
    ensures
        s.filter_map(f).contains(f(s[i])->Some_0),
{
    broadcast use vstd::seq_lib::group_to_multiset_ensures;

    lemma_filter_map_remove(s, f, i);
    let b = f(s[i])->Some_0;
    assert(s.filter_map(f).to_multiset().count(b) > 0);
}

/// Every reported event names one direction of one waitpoint that was found ready,
/// under the key that the user gave to it, and neither an error nor an interrupt nor a
/// priority event.
pub proof fn events_name_one_ready_direction<S>(
    slots: Slots<S>,
    ready: Seq<bool>,
    events: Seq<Event>,
    after: Slots<S>,
    i: int,
)
    requires
        slots.collected(ready, events, after),
        0 <= i < events.len(),
    ensures
        exists|id: int| #[trigger]
            slots.is_ready(ready, id) && events[i] == slots.get(id).event(),
        events[i].readable != events[i].writable,
        events[i].extra@ & ERR != ERR,
        events[i].extra@ & HUP != HUP,
        events[i].extra@ & PRI != PRI,
{
    let order = choose|order: Seq<int>|
        {
            &&& #[trigger] slots.is_walk(order)
            &&& events == slots.reported(ready, order)
            &&& after == slots.collect(ready, order)
        };
    let f = slots.report(ready);
    assert(order.filter_map(f).contains(events[i]));
    order.lemma_filter_map_contains(f, events[i]);
    let t = choose|t: int| 0 <= t < order.len() && #[trigger] f(order[t]) == Some(events[i]);
    let id = order[t];
    assert(slots.is_ready(ready, id) && events[i] == slots.get(id).event());
    broadcast use EventExtra::lemma_carrying;

    assert(events[i].extra@ == READ || events[i].extra@ == WRITE);
    assert(1u32 & 4u32 == 0 && 2u32 & 4u32 == 0) by (bit_vector);
    assert(1u32 & 8u32 == 0 && 2u32 & 8u32 == 0) by (bit_vector);
    assert(1u32 & 16u32 == 0 && 2u32 & 16u32 == 0) by (bit_vector);
}

/// Where nothing is found ready, nothing is reported, and everything stays as it is.
pub proof fn nothing_ready_changes_nothing<S>(
    slots: Slots<S>,
    ready: Seq<bool>,
    events: Seq<Event>,
    after: Slots<S>,
)
    requires
        slots.distinct(),
        slots.collected(ready, events, after),
        forall|i: int| 1 <= i <= slots.seq.len() ==> !#[trigger] ready[i],
    ensures
        events.len() == 0,
        after.registered() == slots.registered(),
{
    assert forall|id: int| !#[trigger] slots.is_ready(ready, id) by {
        if slots.has(id) {
            slots.lemma_found(id);
            assert(!ready[slots.find(id) + 1]);
        }
    }
    only_spent_directions_are_dropped(slots, ready, events, after);
    assert(slots.unspent(ready) =~= slots.registered());
    if events.len() > 0 {
        events_name_one_ready_direction(slots, ready, events, after, 0);
    }
}

/// The kernel always gets the command that is used to notify the poller first, and
/// after it the command of each slot, at the place of the slot.
pub proof fn commands_follow_the_slots<S>(wps: WpsView<S>)
    ensures
        wps.commands().len() == wps.slots.seq.len() + 1,
        wps.commands()[0] == wps.notify,
        forall|id: int| #[trigger]
            wps.slots.has(id) ==> wps.commands()[wps.slots.find(id) + 1] == wps.slots.get(id).sleep,
{
    assert forall|id: int| #[trigger] wps.slots.has(id) implies wps.commands()[wps.slots.find(id)
        + 1] == wps.slots.get(id).sleep by {
        wps.slots.lemma_found(id);
    }
}

/// A waitpoint that is pushed stands at the end of the list with its command. All
/// others keep their places, their data and their commands.
pub proof fn push_keeps_the_other_waitpoints<S>(wps: WpsView<S>, slot: Slot<S>)
    requires
        wps.slots.distinct(),
        !wps.slots.has(slot.id()),
    ensures
        ({
            let after = WpsView { slots: wps.slots.push(slot), ..wps };
            &&& after.slots.distinct()
            &&& after.commands() == wps.commands().push(slot.sleep)
            &&& after.slots.registered() == wps.slots.registered().insert(slot.id(), slot)
            &&& after.slots.find(slot.id()) == wps.slots.seq.len()
            &&& forall|id: int| #[trigger]
                wps.slots.has(id) ==> after.slots.find(id) == wps.slots.find(id)
        }),
{
    let after = WpsView { slots: wps.slots.push(slot), ..wps };
    wps.slots.lemma_push(slot);
    assert(after.commands() =~= wps.commands().push(slot.sleep));
    after.slots.lemma_find(wps.slots.seq.len() as int);
    assert forall|id: int| #[trigger] wps.slots.has(id) implies after.slots.find(id)
        == wps.slots.find(id) by {
        let i = wps.slots.find(id);
        wps.slots.lemma_found(id);
        assert(after.slots.seq[i] == wps.slots.seq[i]);
        after.slots.lemma_find(i);
    }
}

/// A waitpoint that is removed is gone. All others keep their data and their commands,
/// and the command that is used to notify the poller keeps its place. Where there is no
/// such waitpoint nothing changes.
pub proof fn removal_keeps_the_other_waitpoints<S>(wps: WpsView<S>, id: int)
    requires
        wps.slots.distinct(),
    ensures
        ({
            let after = WpsView { slots: wps.slots.remove(id), ..wps };
            &&& after.slots.distinct()
            &&& !after.slots.has(id)
            &&& after.slots.registered() == wps.slots.registered().remove(id)
            &&& after.commands()[0] == wps.commands()[0]
            &&& after.commands().len() >= 1
            &&& forall|other: int| #[trigger]
                wps.slots.has(other) && other != id ==> {
                    &&& after.slots.has(other)
                    &&& after.slots.get(other) == wps.slots.get(other)
                    &&& after.commands()[after.slots.find(other) + 1]
                        == wps.commands()[wps.slots.find(other) + 1]
                }
            &&& !wps.slots.has(id) ==> after == wps
        }),
{
    let after = WpsView { slots: wps.slots.remove(id), ..wps };
    wps.slots.lemma_remove(id);
    commands_follow_the_slots(wps);
    commands_follow_the_slots(after);
    assert forall|other: int| #[trigger] wps.slots.has(other) && other != id implies {
        &&& after.slots.has(other)
        &&& after.slots.get(other) == wps.slots.get(other)
        &&& after.commands()[after.slots.find(other) + 1] == wps.commands()[wps.slots.find(other)
            + 1]
    } by {
        lemma_registered(wps.slots, other);
        lemma_registered(after.slots, other);
        assert(wps.slots.registered().remove(id).dom().contains(other));
    }
}

/// Whether the slots of all objects but one are the same.
pub open spec fn same_but_for<S>(before: Slots<S>, after: Slots<S>, source: usize) -> bool {
    let read = HashKey::id_of(source, false);
    let write = HashKey::id_of(source, true);
    before.registered().remove(read).remove(write) == after.registered().remove(read).remove(write)
}

/// An object that is added is registered in the requested directions, under the
/// requested key and mode. No other slot changes.
pub proof fn add_registers_the_interest<S>(
    slots: Slots<S>,
    source: usize,
    items: WaitItems<S>,
    ev: Event,
    mode: PollMode,
)
    requires
        slots.distinct(),
        slots.add_result(source, ev, mode) is Ok,
    ensures
        ({
            let after = slots.add(source, items, ev, mode);
            let read = HashKey::id_of(source, false);
            let write = HashKey::id_of(source, true);
            let remove = mode.removes() == Some(true);
            &&& after.distinct()
            &&& after.has(read) == (slots.has(read) || ev.readable)
            &&& after.has(write) == (slots.has(write) || ev.writable)
            &&& ev.readable ==> after.get(read) == (Slot {
                source,
                write: false,
                key: ev.key,
                remove,
                sleep: items.read->0,
            })
            &&& ev.writable ==> after.get(write) == (Slot {
                source,
                write: true,
                key: ev.key,
                remove,
                sleep: items.write->0,
            })
            &&& same_but_for(slots, after, source)
        }),
{
    let after = slots.add(source, items, ev, mode);
    let read = HashKey::id_of(source, false);
    let write = HashKey::id_of(source, true);
    let remove = mode.removes() == Some(true);
    let read_slot = Slot { source, write: false, key: ev.key, remove, sleep: items.read->0 };
    let write_slot = Slot { source, write: true, key: ev.key, remove, sleep: items.write->0 };
    let first = if ev.readable {
        slots.push(read_slot)
    } else {
        slots
    };
    if ev.readable {
        slots.lemma_push(read_slot);
    }
    lemma_registered(slots, write);
    lemma_registered(first, write);
    if ev.writable {
        first.lemma_push(write_slot);
    }
    lemma_registered(slots, read);
    lemma_registered(after, read);
    lemma_registered(after, write);
    assert(slots.registered().remove(read).remove(write) =~= after.registered().remove(read).remove(
        write,
    ));
}

/// A direction is registered exactly where it has a slot.
proof fn lemma_registered<S>(slots: Slots<S>, id: int)
    ensures
        slots.registered().dom().contains(id) == slots.has(id),
        slots.has(id) ==> slots.registered()[id] == slots.get(id),
{
}

/// An object that is deleted is registered in no direction. No other slot changes.
pub proof fn delete_forgets_the_object<S>(slots: Slots<S>, source: usize)
    requires
        slots.distinct(),
    ensures
        slots.delete(source).distinct(),
        !slots.delete(source).has(HashKey::id_of(source, false)),
        !slots.delete(source).has(HashKey::id_of(source, true)),
        same_but_for(slots, slots.delete(source), source),
{
    let read = HashKey::id_of(source, false);
    let write = HashKey::id_of(source, true);
    let first = slots.remove(read);
    let after = slots.delete(source);
    slots.lemma_remove(read);
    first.lemma_remove(write);
    lemma_registered(after, read);
    assert(slots.registered().remove(read).remove(write) =~= after.registered().remove(read).remove(
        write,
    ));
}

/// Deleting an object undoes adding it: the slots are as they were, in the same places.
pub proof fn delete_undoes_add<S>(
    slots: Slots<S>,
    source: usize,
    items: WaitItems<S>,
    ev: Event,
    mode: PollMode,
)
    requires
        slots.distinct(),
        !slots.has(HashKey::id_of(source, false)),
        !slots.has(HashKey::id_of(source, true)),
    ensures
        slots.add(source, items, ev, mode).delete(source) == slots,
{
    let read = HashKey::id_of(source, false);
    let write = HashKey::id_of(source, true);
    let after = slots.add(source, items, ev, mode);
    if slots.add_result(source, ev, mode) is Ok {
        add_registers_the_interest(slots, source, items, ev, mode);
        let n = slots.seq.len() as int;
        let first = after.remove(read);
        after.lemma_remove(read);
        if ev.readable {
            assert(after.seq[n].id() == read);
            after.lemma_find(n);
            assert(first.seq =~= if ev.writable {
                slots.seq.push(after.seq[n + 1])
            } else {
                slots.seq
            });
        }
        if ev.writable {
            assert(first.seq[n].id() == write);
            first.lemma_find(n);
        }
        assert(after.delete(source).seq =~= slots.seq);
    }
}

/// An object that was added in some direction cannot be added in it again.
pub proof fn add_twice_is_refused<S>(
    slots: Slots<S>,
    source: usize,
    items: WaitItems<S>,
    ev: Event,
    mode: PollMode,
    again: Event,
    again_items: WaitItems<S>,
    again_mode: PollMode,
)
    requires
        slots.distinct(),
        slots.add_result(source, ev, mode) is Ok,
        ev.readable && again.readable || ev.writable && again.writable,
    ensures
        ({
            let after = slots.add(source, items, ev, mode);
            &&& after.add_result(source, again, again_mode) == Err::<(), Error>(
                Error::AlreadyExists,
            )
            &&& after.add(source, again_items, again, again_mode) == after
        }),
{
    add_registers_the_interest(slots, source, items, ev, mode);
}

/// What `set_interest` does to one direction, where the mode is supported or not needed.
proof fn lemma_set_interest<S>(
    slots: Slots<S>,
    source: usize,
    write: bool,
    interested: bool,
    key: usize,
    mode: PollMode,
    sleep: Option<S>,
)
    requires
        slots.distinct(),
        !interested || mode.removes() is Some,
    ensures
        ({
            let after = slots.set_interest(source, write, interested, key, mode, sleep);
            let id = HashKey::id_of(source, write);
            let slot = Slot {
                source,
                write,
                key,
                remove: mode.removes() == Some(true),
                sleep: sleep->0,
            };
            &&& after.distinct()
            &&& after.has(id) == interested
            &&& interested ==> after.get(id) == slot
            &&& after.registered() == if interested {
                slots.registered().insert(id, slot)
            } else {
                slots.registered().remove(id)
            }
        }),
{
    let after = slots.set_interest(source, write, interested, key, mode, sleep);
    let id = HashKey::id_of(source, write);
    let slot = Slot { source, write, key, remove: mode.removes() == Some(true), sleep: sleep->0 };
    if !interested {
        slots.lemma_remove(id);
    } else if slots.has(id) {
        slots.lemma_replace(slot);
    } else {
        slots.lemma_push(slot);
    }
    lemma_registered(after, id);
}

/// An object that is modified is registered in exactly the requested directions,
/// under the requested key and mode. No other object changes.
pub proof fn modify_registers_exactly_the_interest<S>(
    slots: Slots<S>,
    source: usize,
    items: WaitItems<S>,
    ev: Event,
    mode: PollMode,
)
    requires
        slots.distinct(),
        Slots::<S>::modify_result(ev, mode) is Ok,
    ensures
        ({
            let after = slots.modify(source, items, ev, mode);
            let read = HashKey::id_of(source, false);
            let write = HashKey::id_of(source, true);
            let remove = mode.removes() == Some(true);
            &&& after.distinct()
            &&& after.has(read) == ev.readable
            &&& after.has(write) == ev.writable
            &&& ev.readable ==> after.get(read) == (Slot {
                source,
                write: false,
                key: ev.key,
                remove,
                sleep: items.read->0,
            })
            &&& ev.writable ==> after.get(write) == (Slot {
                source,
                write: true,
                key: ev.key,
                remove,
                sleep: items.write->0,
            })
            &&& same_but_for(slots, after, source)
        }),
{
    let after = slots.modify(source, items, ev, mode);
    let read = HashKey::id_of(source, false);
    let write = HashKey::id_of(source, true);
    let first = slots.set_interest(source, false, ev.readable, ev.key, mode, items.read);
    lemma_set_interest(slots, source, false, ev.readable, ev.key, mode, items.read);
    lemma_set_interest(first, source, true, ev.writable, ev.key, mode, items.write);
    lemma_registered(first, read);
    lemma_registered(after, read);
    assert(slots.registered().remove(read).remove(write) =~= after.registered().remove(read).remove(
        write,
    ));
}

/// To modify an object twice in the same way is to modify it once.
pub proof fn modify_is_idempotent<S>(
    slots: Slots<S>,
    source: usize,
    items: WaitItems<S>,
    ev: Event,
    mode: PollMode,
)
    requires
        slots.distinct(),
        Slots::<S>::modify_result(ev, mode) is Ok,
    ensures
        slots.modify(source, items, ev, mode).modify(source, items, ev, mode) == slots.modify(
            source,
            items,
            ev,
            mode,
        ),
{
    modify_registers_exactly_the_interest(slots, source, items, ev, mode);
    let after = slots.modify(source, items, ev, mode);
    lemma_same_interest(after, source, false, ev.readable, ev.key, mode, items.read);
    lemma_same_interest(after, source, true, ev.writable, ev.key, mode, items.write);
}

/// A request for what already is changes nothing.
proof fn lemma_same_interest<S>(
    slots: Slots<S>,
    source: usize,
    write: bool,
    interested: bool,
    key: usize,
    mode: PollMode,
    sleep: Option<S>,
)
    requires
        !interested || mode.removes() is Some,
        slots.has(HashKey::id_of(source, write)) == interested,
        interested ==> slots.get(HashKey::id_of(source, write)) == (Slot {
            source,
            write,
            key,
            remove: mode.removes() == Some(true),
            sleep: sleep->0,
        }),
    ensures
        slots.set_interest(source, write, interested, key, mode, sleep) == slots,
{
    let id = HashKey::id_of(source, write);
    if interested {
        slots.lemma_found(id);
    }
    assert(slots.set_interest(source, write, interested, key, mode, sleep).seq =~= slots.seq);
}

/// To modify an object that is not registered is to add it.
pub proof fn modify_adds_a_new_object<S>(
    slots: Slots<S>,
    source: usize,
    items: WaitItems<S>,
    ev: Event,
    mode: PollMode,
)
    requires
        !slots.has(HashKey::id_of(source, false)),
        !slots.has(HashKey::id_of(source, true)),
    ensures
        slots.modify(source, items, ev, mode) == slots.add(source, items, ev, mode),
        Slots::<S>::modify_result(ev, mode) == slots.add_result(source, ev, mode),
{
    let read = HashKey::id_of(source, false);
    let write = HashKey::id_of(source, true);
    let first = slots.set_interest(source, false, ev.readable, ev.key, mode, items.read);
    if first.has(write) {
        let i = first.find(write);
        first.lemma_found(write);
        if i < slots.seq.len() {
            assert(first.seq[i] == slots.seq[i]);
        }
    }
}

/// A request that is refused registers no direction that was not registered before,
/// and touches no other object.
pub proof fn refused_requests_register_nothing<S>(
    slots: Slots<S>,
    source: usize,
    items: WaitItems<S>,
    ev: Event,
    mode: PollMode,
)
    requires
        slots.distinct(),
    ensures
        slots.add_result(source, ev, mode) is Err ==> slots.add(source, items, ev, mode) == slots,
        Slots::<S>::modify_result(ev, mode) is Err ==> {
            let after = slots.modify(source, items, ev, mode);
            &&& after.distinct()
            &&& after.registered().dom().subset_of(slots.registered().dom())
            &&& same_but_for(slots, after, source)
        },
{
    if Slots::<S>::modify_result(ev, mode) is Err {
        let read = HashKey::id_of(source, false);
        let write = HashKey::id_of(source, true);
        let first = slots.set_interest(source, false, ev.readable, ev.key, mode, items.read);
        let after = slots.modify(source, items, ev, mode);
        if ev.readable {
            if slots.has(read) {
                slots.lemma_found(read);
                slots.lemma_replace(Slot { key: ev.key, ..slots.get(read) });
            }
        } else {
            slots.lemma_remove(read);
            if first.has(write) {
                first.lemma_found(write);
                first.lemma_replace(Slot { key: ev.key, ..first.get(write) });
            }
        }
        lemma_registered(slots, read);
        lemma_registered(first, write);
        assert(slots.registered().remove(read).remove(write) =~= after.registered().remove(
            read,
        ).remove(write));
    }
}

} // verus!
