//! What the operations make of the list of waitpoints, told by the places in the list
//! and by the fields of what stands there.

use vstd::prelude::*;

use crate::error::Error;
use crate::event::{Event, EventExtra, PollMode};
use crate::hash_key::HashKey;
use crate::slots::{Slot, Slots, WaitItems};
use crate::wps::WpsView;

verus! {

/// Slots that differ in their object or their direction differ in their number.
proof fn lemma_distinct<S>(slots: Slots<S>)
    requires
        forall|i: int, j: int|
            0 <= i < j < slots.seq.len() ==> (#[trigger] slots.seq[i]).source != (
            #[trigger] slots.seq[j]).source || slots.seq[i].write != slots.seq[j].write,
    ensures
        slots.distinct(),
{
    assert forall|i: int, j: int| 0 <= i < j < slots.seq.len() implies (
    #[trigger] slots.seq[i]).id() != (#[trigger] slots.seq[j]).id() by {}
}

/// The places of the directions in `order` that were found ready, in that order.
proof fn lemma_reported_places<S>(slots: Slots<S>, ready: Seq<bool>, order: Seq<int>) -> (places:
    Seq<int>)
    requires
        slots.distinct(),
        order.no_duplicates(),
    ensures
        places.no_duplicates(),
        places.len() == slots.reported(ready, order).len(),
        forall|j: int|
            #![trigger places[j]]
            0 <= j < places.len() ==> {
                &&& 0 <= places[j] < slots.seq.len()
                &&& ready[places[j] + 1]
                &&& order.contains(slots.seq[places[j]].id())
                &&& slots.reported(ready, order)[j] == slots.seq[places[j]].event()
            },
        forall|i: int|
            #![trigger places.contains(i)]
            0 <= i < slots.seq.len() && ready[i + 1] && order.contains(slots.seq[i].id())
                ==> places.contains(i),
    decreases order.len(),
{
    if order.len() == 0 {
        Seq::empty()
    } else {
        let rest = order.drop_last();
        let last = order.last();
        let before = lemma_reported_places(slots, ready, rest);
        assert forall|id: int| #[trigger] order.contains(id) <==> rest.contains(id) || id
            == last by {
            if order.contains(id) && id != last {
                let k = order.index_of(id);
                assert(rest[k] == id);
            }
            if rest.contains(id) {
                let k = rest.index_of(id);
                assert(order[k] == id);
            }
            assert(order[order.len() - 1] == last);
        }
        assert(!rest.contains(last)) by {
            if rest.contains(last) {
                let k = rest.index_of(last);
                assert(order[k] == order[order.len() - 1]);
            }
        }
        let at = slots.find(last);
        if slots.has(last) {
            slots.lemma_found(last);
        }
        let places = if slots.is_ready(ready, last) {
            before.push(at)
        } else {
            before
        };
        assert forall|j: int| #![trigger places[j]] 0 <= j < places.len() implies {
            &&& 0 <= places[j] < slots.seq.len()
            &&& ready[places[j] + 1]
            &&& order.contains(slots.seq[places[j]].id())
            &&& slots.reported(ready, order)[j] == slots.seq[places[j]].event()
        } by {
            if j < before.len() {
                assert(before[j] == places[j]);
                assert(rest.contains(slots.seq[before[j]].id()));
            }
        }
        assert forall|i: int|
            #![trigger places.contains(i)]
            0 <= i < slots.seq.len() && ready[i + 1] && order.contains(
                slots.seq[i].id(),
            ) implies places.contains(i) by {
            slots.lemma_find(i);
            if slots.seq[i].id() == last {
                assert(places[before.len() as int] == i);
            } else {
                assert(before.contains(i));
                let k = before.index_of(i);
                assert(places[k] == i);
            }
        }
        assert forall|j: int, k: int| 0 <= j < k < places.len() implies places[j] != places[k] by {
            if k == before.len() {
                assert(rest.contains(slots.seq[before[j]].id()));
            }
        }
        places
    }
}

/// Each waitpoint that was found ready is reported by an event of its own, and there
/// are no other events: `places` tells of each event where its waitpoint stands. The
/// event carries the key and the direction that stand there.
pub proof fn events_match_the_ready_places<S>(
    slots: Slots<S>,
    ready: Seq<bool>,
    events: Seq<Event>,
    after: Slots<S>,
) -> (places: Seq<int>)
    requires
        forall|i: int, j: int|
            0 <= i < j < slots.seq.len() ==> (#[trigger] slots.seq[i]).source != (
            #[trigger] slots.seq[j]).source || slots.seq[i].write != slots.seq[j].write,
        slots.collected(ready, events, after),
    ensures
        places.no_duplicates(),
        places.len() == events.len(),
        forall|i: int| #[trigger]
            places.contains(i) <==> 0 <= i < slots.seq.len() && ready[i + 1],
        forall|j: int|
            #![trigger events[j]]
            #![trigger places[j]]
            0 <= j < events.len() ==> {
                &&& events[j].key == slots.seq[places[j]].key
                &&& events[j].readable == !slots.seq[places[j]].write
                &&& events[j].writable == slots.seq[places[j]].write
                &&& events[j].extra@ == if slots.seq[places[j]].write {
                    2u32
                } else {
                    1u32
                }
            },
{
    broadcast use EventExtra::lemma_carrying;

    lemma_distinct(slots);
    let order = choose|order: Seq<int>|
        {
            &&& #[trigger] slots.is_walk(order)
            &&& events == slots.reported(ready, order)
            &&& after == slots.collect(ready, order)
        };
    let places = lemma_reported_places(slots, ready, order);
    assert forall|i: int| #[trigger] places.contains(i) <==> 0 <= i < slots.seq.len() && ready[i
        + 1] by {
        if 0 <= i < slots.seq.len() && ready[i + 1] {
            slots.lemma_find(i);
            assert(order.contains(slots.seq[i].id()));
        }
        if places.contains(i) {
            let j = places.index_of(i);
            assert(places[j] == i);
        }
    }
    assert forall|j: int|
        #![trigger events[j]]
        #![trigger places[j]]
        0 <= j < events.len() implies {
        &&& events[j].key == slots.seq[places[j]].key
        &&& events[j].readable == !slots.seq[places[j]].write
        &&& events[j].writable == slots.seq[places[j]].write
        &&& events[j].extra@ == if slots.seq[places[j]].write {
            2u32
        } else {
            1u32
        }
    } by {
        assert(events[j] == slots.seq[places[j]].event());
    }
    places
}

/// There are as many events as waitpoints that were found ready.
pub proof fn as_many_events_as_ready_places<S>(
    slots: Slots<S>,
    ready: Seq<bool>,
    events: Seq<Event>,
    after: Slots<S>,
)
    requires
        forall|i: int, j: int|
            0 <= i < j < slots.seq.len() ==> (#[trigger] slots.seq[i]).source != (
            #[trigger] slots.seq[j]).source || slots.seq[i].write != slots.seq[j].write,
        slots.collected(ready, events, after),
    ensures
        Set::new(|i: int| 0 <= i < slots.seq.len() && ready[i + 1]).finite(),
        events.len() == Set::new(|i: int| 0 <= i < slots.seq.len() && ready[i + 1]).len(),
{
    let places = events_match_the_ready_places(slots, ready, events, after);
    let set = Set::new(|i: int| 0 <= i < slots.seq.len() && ready[i + 1]);
    assert forall|i: int| places.to_set().contains(i) <==> set.contains(i) by {
        assert(places.contains(i) <==> 0 <= i < slots.seq.len() && ready[i + 1]);
    }
    assert(places.to_set() =~= set);
    vstd::seq_lib::seq_to_set_is_finite(places);
    places.unique_seq_to_set();
}

/// A waitpoint that was found ready is reported, whatever else was found ready, under
/// its key and in its direction.
pub proof fn a_ready_place_is_reported<S>(
    slots: Slots<S>,
    ready: Seq<bool>,
    events: Seq<Event>,
    after: Slots<S>,
    i: int,
)
    requires
        forall|i: int, j: int|
            0 <= i < j < slots.seq.len() ==> (#[trigger] slots.seq[i]).source != (
            #[trigger] slots.seq[j]).source || slots.seq[i].write != slots.seq[j].write,
        slots.collected(ready, events, after),
        0 <= i < slots.seq.len(),
        ready[i + 1],
    ensures
        exists|j: int|
            {
                &&& 0 <= j < events.len()
                &&& (#[trigger] events[j]).key == slots.seq[i].key
                &&& events[j].readable == !slots.seq[i].write
                &&& events[j].writable == slots.seq[i].write
            },
{
    let places = events_match_the_ready_places(slots, ready, events, after);
    assert(places.contains(i));
    let j = places.index_of(i);
    assert(events[j].key == slots.seq[places[j]].key);
}

/// Every event reports a waitpoint that was found ready, under its key and in its
/// direction.
pub proof fn an_event_reports_a_ready_place<S>(
    slots: Slots<S>,
    ready: Seq<bool>,
    events: Seq<Event>,
    after: Slots<S>,
    j: int,
)
    requires
        forall|i: int, j: int|
            0 <= i < j < slots.seq.len() ==> (#[trigger] slots.seq[i]).source != (
            #[trigger] slots.seq[j]).source || slots.seq[i].write != slots.seq[j].write,
        slots.collected(ready, events, after),
        0 <= j < events.len(),
    ensures
        exists|i: int|
            {
                &&& 0 <= i < slots.seq.len()
                &&& ready[i + 1]
                &&& (#[trigger] slots.seq[i]).key == events[j].key
                &&& slots.seq[i].write == events[j].writable
                &&& slots.seq[i].write == !events[j].readable
            },
{
    let places = events_match_the_ready_places(slots, ready, events, after);
    assert(places.contains(places[j]));
    let i = places[j];
    assert(slots.seq[i].key == events[j].key);
}

/// The places of the slots that `remove_all` leaves.
proof fn lemma_kept<S>(slots: Slots<S>, ids: Seq<int>)
    requires
        slots.distinct(),
    ensures
        slots.remove_all(ids).distinct(),
        forall|i: int|
            0 <= i < slots.seq.len() ==> (slots.remove_all(ids).seq.contains(
                #[trigger] slots.seq[i],
            ) <==> !ids.contains(slots.seq[i].id())),
        forall|k: int|
            0 <= k < slots.remove_all(ids).seq.len() ==> slots.seq.contains(
                #[trigger] slots.remove_all(ids).seq[k],
            ),
{
    super::lemma_remove_all(slots, ids);
    let after = slots.remove_all(ids);
    assert forall|i: int| 0 <= i < slots.seq.len() implies (after.seq.contains(
        #[trigger] slots.seq[i],
    ) <==> !ids.contains(slots.seq[i].id())) by {
        let id = slots.seq[i].id();
        slots.lemma_find(i);
        super::lemma_registered(slots, id);
        super::lemma_registered(after, id);
        assert(after.registered().dom().contains(id) <==> !ids.to_set().contains(id));
        if after.seq.contains(slots.seq[i]) {
            let k = after.seq.index_of(slots.seq[i]);
            assert(after.seq[k].id() == id);
            assert(after.has(id));
        }
        if !ids.contains(id) {
            after.lemma_found(id);
            assert(after.get(id) == slots.seq[i]);
            assert(after.seq[after.find(id)] == slots.seq[i]);
        }
    }
    assert forall|k: int| 0 <= k < after.seq.len() implies slots.seq.contains(
        #[trigger] after.seq[k],
    ) by {
        let id = after.seq[k].id();
        after.lemma_find(k);
        super::lemma_registered(slots, id);
        super::lemma_registered(after, id);
        assert(slots.registered().dom().contains(id));
        slots.lemma_found(id);
        assert(slots.seq[slots.find(id)] == after.seq[k]);
    }
}

/// A waitpoint is dropped exactly where it was found ready and is to be reported once.
/// All others stay, with all that is known of them, and none comes in.
pub proof fn a_place_is_dropped_when_ready_and_spent<S>(
    slots: Slots<S>,
    ready: Seq<bool>,
    events: Seq<Event>,
    after: Slots<S>,
)
    requires
        forall|i: int, j: int|
            0 <= i < j < slots.seq.len() ==> (#[trigger] slots.seq[i]).source != (
            #[trigger] slots.seq[j]).source || slots.seq[i].write != slots.seq[j].write,
        slots.collected(ready, events, after),
    ensures
        forall|i: int|
            0 <= i < slots.seq.len() ==> (after.seq.contains(#[trigger] slots.seq[i]) <==> !(
            ready[i + 1] && slots.seq[i].remove)),
        forall|k: int|
            0 <= k < after.seq.len() ==> slots.seq.contains(#[trigger] after.seq[k]),
        forall|i: int, j: int|
            0 <= i < j < after.seq.len() ==> (#[trigger] after.seq[i]).source != (
            #[trigger] after.seq[j]).source || after.seq[i].write != after.seq[j].write,
{
    lemma_distinct(slots);
    let order = choose|order: Seq<int>|
        {
            &&& #[trigger] slots.is_walk(order)
            &&& events == slots.reported(ready, order)
            &&& after == slots.collect(ready, order)
        };
    an_order_drops_what_it_names(slots, ready, order);
    assert forall|i: int| 0 <= i < slots.seq.len() implies order.contains(
        2 * (#[trigger] slots.seq[i]).source + if slots.seq[i].write {
            1int
        } else {
            0int
        },
    ) by {
        slots.lemma_find(i);
        assert(order.contains(slots.seq[i].id()));
    }
}

/// In whatever order some directions are looked at, a waitpoint is dropped exactly where
/// it is looked at, was found ready and is to be reported once.
pub proof fn an_order_drops_what_it_names<S>(slots: Slots<S>, ready: Seq<bool>, order: Seq<int>)
    requires
        forall|i: int, j: int|
            0 <= i < j < slots.seq.len() ==> (#[trigger] slots.seq[i]).source != (
            #[trigger] slots.seq[j]).source || slots.seq[i].write != slots.seq[j].write,
    ensures
        forall|i: int|
            0 <= i < slots.seq.len() ==> (slots.collect(ready, order).seq.contains(
                #[trigger] slots.seq[i],
            ) <==> !(ready[i + 1] && slots.seq[i].remove && order.contains(
                2 * slots.seq[i].source + if slots.seq[i].write {
                    1int
                } else {
                    0int
                },
            ))),
        forall|k: int|
            0 <= k < slots.collect(ready, order).seq.len() ==> slots.seq.contains(
                #[trigger] slots.collect(ready, order).seq[k],
            ),
        forall|i: int, j: int|
            0 <= i < j < slots.collect(ready, order).seq.len() ==> (#[trigger] slots.collect(
                ready,
                order,
            ).seq[i]).source != (#[trigger] slots.collect(ready, order).seq[j]).source
                || slots.collect(ready, order).seq[i].write != slots.collect(
                ready,
                order,
            ).seq[j].write,
{
    lemma_distinct(slots);
    let is_spent = |id: int| slots.is_spent(ready, id);
    let spent = slots.spent(ready, order);
    let after = slots.collect(ready, order);
    lemma_kept(slots, spent);
    assert forall|i: int| 0 <= i < slots.seq.len() implies (after.seq.contains(
        #[trigger] slots.seq[i],
    ) <==> !(ready[i + 1] && slots.seq[i].remove && order.contains(
        2 * slots.seq[i].source + if slots.seq[i].write {
            1int
        } else {
            0int
        },
    ))) by {
        let id = slots.seq[i].id();
        slots.lemma_find(i);
        if spent.contains(id) {
            order.lemma_filter_pred(is_spent, spent.index_of(id));
            order.lemma_filter_contains_rev(is_spent, id);
        }
        if order.contains(id) && is_spent(id) {
            order.lemma_filter_contains(is_spent, order.index_of(id));
        }
    }
    assert forall|i: int, j: int| 0 <= i < j < after.seq.len() implies (
    #[trigger] after.seq[i]).source != (#[trigger] after.seq[j]).source || after.seq[i].write
        != after.seq[j].write by {
        assert(after.seq[i].id() != after.seq[j].id());
    }
}

/// What a longer look reports is what its parts report, one after the other.
pub proof fn reports_follow_the_order<S>(
    slots: Slots<S>,
    ready: Seq<bool>,
    first: Seq<int>,
    then: Seq<int>,
)
    ensures
        slots.reported(ready, first + then) == slots.reported(ready, first) + slots.reported(
            ready,
            then,
        ),
    decreases then.len(),
{
    if then.len() == 0 {
        assert(first + then =~= first);
        assert(slots.reported(ready, first) + slots.reported(ready, then) =~= slots.reported(
            ready,
            first,
        ));
    } else {
        reports_follow_the_order(slots, ready, first, then.drop_last());
        assert((first + then).drop_last() =~= first + then.drop_last());
        assert((first + then).last() == then.last());
        assert(slots.reported(ready, first + then) =~= slots.reported(ready, first)
            + slots.reported(ready, then));
    }
}

/// A look at one waitpoint reports it where it was found ready, and else nothing.
pub proof fn a_look_reports_one_place<S>(slots: Slots<S>, ready: Seq<bool>, i: int)
    requires
        forall|i: int, j: int|
            0 <= i < j < slots.seq.len() ==> (#[trigger] slots.seq[i]).source != (
            #[trigger] slots.seq[j]).source || slots.seq[i].write != slots.seq[j].write,
        0 <= i < slots.seq.len(),
    ensures
        ({
            let number = 2 * slots.seq[i].source + if slots.seq[i].write {
                1int
            } else {
                0int
            };
            let reported = slots.reported(ready, seq![number]);
            if ready[i + 1] {
                &&& reported.len() == 1
                &&& reported[0].key == slots.seq[i].key
                &&& reported[0].readable == !slots.seq[i].write
                &&& reported[0].writable == slots.seq[i].write
                &&& reported[0].extra@ == if slots.seq[i].write {
                    2u32
                } else {
                    1u32
                }
            } else {
                reported.len() == 0
            }
        }),
{
    broadcast use EventExtra::lemma_carrying;

    lemma_distinct(slots);
    slots.lemma_find(i);
    Seq::lemma_filter_map_singleton(slots.seq[i].id(), slots.report(ready));
}

/// A look at a direction that has no waitpoint reports nothing and drops nothing.
pub proof fn a_look_elsewhere_does_nothing<S>(
    slots: Slots<S>,
    ready: Seq<bool>,
    order: Seq<int>,
    number: int,
)
    requires
        forall|i: int|
            0 <= i < slots.seq.len() ==> number != 2 * (#[trigger] slots.seq[i]).source
                + if slots.seq[i].write {
                1int
            } else {
                0int
            },
    ensures
        slots.reported(ready, seq![number]).len() == 0,
        slots.collect(ready, order.push(number)) == slots.collect(ready, order),
{
    assert(!slots.has(number));
    Seq::lemma_filter_map_singleton(number, slots.report(ready));
    reveal(Seq::filter);
    assert(order.push(number).drop_last() =~= order);
}

/// Where nothing is looked at, nothing is dropped. One more look at a waitpoint that was
/// found ready and is to be reported once takes it out of the list, if it is still there,
/// and the last one takes its place. One more look at any other leaves the list alone.
pub proof fn drops_follow_the_order<S>(
    slots: Slots<S>,
    ready: Seq<bool>,
    order: Seq<int>,
    i: int,
)
    requires
        forall|i: int, j: int|
            0 <= i < j < slots.seq.len() ==> (#[trigger] slots.seq[i]).source != (
            #[trigger] slots.seq[j]).source || slots.seq[i].write != slots.seq[j].write,
        0 <= i < slots.seq.len(),
    ensures
        slots.collect(ready, Seq::empty()) == slots,
        ({
            let number = 2 * slots.seq[i].source + if slots.seq[i].write {
                1int
            } else {
                0int
            };
            let before = slots.collect(ready, order);
            let after = slots.collect(ready, order.push(number));
            if ready[i + 1] && slots.seq[i].remove && before.seq.contains(slots.seq[i]) {
                after.seq == before.seq.update(
                    before.seq.index_of(slots.seq[i]),
                    before.seq.last(),
                ).drop_last()
            } else {
                after.seq == before.seq
            }
        }),
{
    lemma_distinct(slots);
    slots.lemma_find(i);
    let id = slots.seq[i].id();
    let before = slots.collect(ready, order);
    let is_spent = |id: int| slots.is_spent(ready, id);
    reveal(Seq::filter);
    assert(order.push(id).drop_last() =~= order);
    let spent = slots.spent(ready, order);
    assert(slots.spent(ready, Seq::empty()) =~= Seq::empty());
    lemma_kept(slots, spent);
    if is_spent(id) {
        assert(spent.push(id).drop_last() =~= spent);
        assert(slots.spent(ready, order.push(id)) =~= spent.push(id));
        assert(slots.collect(ready, order.push(id)) == before.remove(id));
        if before.seq.contains(slots.seq[i]) {
            let k = before.seq.index_of(slots.seq[i]);
            before.lemma_find(k);
        } else if before.has(id) {
            before.lemma_found(id);
            let k = before.find(id);
            assert(slots.seq.contains(before.seq[k]));
            let l = slots.seq.index_of(before.seq[k]);
            slots.lemma_find(l);
        }
    }
}

/// A walk looks at each waitpoint once.
pub proof fn a_walk_looks_at_every_place<S>(slots: Slots<S>, order: Seq<int>, i: int)
    requires
        forall|i: int, j: int|
            0 <= i < j < slots.seq.len() ==> (#[trigger] slots.seq[i]).source != (
            #[trigger] slots.seq[j]).source || slots.seq[i].write != slots.seq[j].write,
        slots.is_walk(order),
        0 <= i < slots.seq.len(),
    ensures
        order.no_duplicates(),
        order.contains(
            2 * slots.seq[i].source + if slots.seq[i].write {
                1int
            } else {
                0int
            },
        ),
{
    lemma_distinct(slots);
    slots.lemma_find(i);
    assert(order.contains(slots.seq[i].id()));
}

/// A walk looks at nothing but waitpoints: what it looks at as number `j` stands at `place`.
pub proof fn a_walk_looks_at_nothing_else<S>(slots: Slots<S>, order: Seq<int>, j: int) -> (place:
    int)
    requires
        slots.is_walk(order),
        0 <= j < order.len(),
    ensures
        0 <= place < slots.seq.len(),
        order[j] == 2 * slots.seq[place].source + if slots.seq[place].write {
            1int
        } else {
            0int
        },
{
    assert(order.contains(order[j]));
    slots.lemma_found(order[j]);
    slots.find(order[j])
}

/// A direction has a waitpoint exactly where one of the list is of that object and in
/// that direction.
pub proof fn a_waitpoint_is_found_by_its_fields<S>(slots: Slots<S>, source: usize, write: bool)
    ensures
        slots.has(HashKey::id_of(source, write)) <==> exists|i: int|
            {
                &&& 0 <= i < slots.seq.len()
                &&& (#[trigger] slots.seq[i]).source == source
                &&& slots.seq[i].write == write
            },
        slots.has(HashKey::id_of(source, write)) ==> {
            &&& slots.get(HashKey::id_of(source, write)).source == source
            &&& slots.get(HashKey::id_of(source, write)).write == write
            &&& slots.seq.contains(slots.get(HashKey::id_of(source, write)))
        },
{
    let id = HashKey::id_of(source, write);
    if slots.has(id) {
        slots.lemma_found(id);
        let i = slots.find(id);
        assert(slots.seq[i].id() == id);
        assert(slots.seq[i].source == source && slots.seq[i].write == write);
    }
    if exists|i: int|
        {
            &&& 0 <= i < slots.seq.len()
            &&& (#[trigger] slots.seq[i]).source == source
            &&& slots.seq[i].write == write
        } {
        let i = choose|i: int|
            {
                &&& 0 <= i < slots.seq.len()
                &&& (#[trigger] slots.seq[i]).source == source
                &&& slots.seq[i].write == write
            };
        assert(slots.seq[i].id() == id);
    }
}

/// An object is refused as one that is already there exactly where it is waited for in a
/// requested direction. Else it is refused exactly where some direction is requested in
/// a mode that is neither `Oneshot` nor `Level`. In all other cases it is accepted.
pub proof fn add_is_refused_only_for_cause<S>(
    slots: Slots<S>,
    source: usize,
    ev: Event,
    mode: PollMode,
)
    ensures
        ({
            let taken = exists|i: int|
                {
                    &&& 0 <= i < slots.seq.len()
                    &&& (#[trigger] slots.seq[i]).source == source
                    &&& slots.seq[i].write && ev.writable || !slots.seq[i].write && ev.readable
                };
            let supported = mode is Oneshot || mode is Level || !ev.readable && !ev.writable;
            &&& slots.add_result(source, ev, mode) == Err::<(), Error>(Error::AlreadyExists)
                <==> taken
            &&& slots.add_result(source, ev, mode) == Err::<(), Error>(Error::Unsupported)
                <==> !taken && !supported
            &&& slots.add_result(source, ev, mode) == Ok::<(), Error>(()) <==> !taken && supported
        }),
{
    a_waitpoint_is_found_by_its_fields(slots, source, false);
    a_waitpoint_is_found_by_its_fields(slots, source, true);
}

/// A direction that is not waited for can be added to an object that is waited for in
/// the other one.
pub proof fn the_other_direction_can_be_added<S>(
    slots: Slots<S>,
    source: usize,
    ev: Event,
    mode: PollMode,
)
    requires
        ev.readable ==> !slots.has(HashKey::id_of(source, false)),
        ev.writable ==> !slots.has(HashKey::id_of(source, true)),
        mode is Oneshot || mode is Level,
    ensures
        slots.add_result(source, ev, mode) == Ok::<(), Error>(()),
{
}

/// A request to modify an object is refused exactly where some direction is requested in
/// a mode that is neither `Oneshot` nor `Level`, and then as unsupported.
pub proof fn modify_is_refused_only_for_its_mode<S>(ev: Event, mode: PollMode)
    ensures
        mode is Oneshot || mode is Level || !ev.readable && !ev.writable <==> Slots::<
            S,
        >::modify_result(ev, mode) == Ok::<(), Error>(()),
        (mode is Edge || mode is EdgeOneshot) && (ev.readable || ev.writable) <==> Slots::<
            S,
        >::modify_result(ev, mode) == Err::<(), Error>(Error::Unsupported),
{
}

/// An object that is accepted comes last in the list: its read direction first, then its
/// write direction, as far as they are requested. Where it is refused the list stays.
pub proof fn add_appends_the_requested_directions<S>(
    slots: Slots<S>,
    source: usize,
    items: WaitItems<S>,
    ev: Event,
    mode: PollMode,
)
    ensures
        ({
            let taken = exists|i: int|
                {
                    &&& 0 <= i < slots.seq.len()
                    &&& (#[trigger] slots.seq[i]).source == source
                    &&& slots.seq[i].write && ev.writable || !slots.seq[i].write && ev.readable
                };
            let supported = mode is Oneshot || mode is Level;
            let after = slots.add(source, items, ev, mode).seq;
            let read = Slot {
                source,
                write: false,
                key: ev.key,
                remove: mode is Oneshot,
                sleep: items.read->0,
            };
            let write = Slot {
                source,
                write: true,
                key: ev.key,
                remove: mode is Oneshot,
                sleep: items.write->0,
            };
            &&& taken || !supported ==> after == slots.seq
            &&& !ev.readable && !ev.writable ==> after == slots.seq
            &&& !taken && supported && ev.readable && !ev.writable ==> after == slots.seq.push(read)
            &&& !taken && supported && !ev.readable && ev.writable ==> after == slots.seq.push(
                write,
            )
            &&& !taken && supported && ev.readable && ev.writable ==> after == slots.seq.push(
                read,
            ).push(write)
        }),
{
    add_is_refused_only_for_cause(slots, source, ev, mode);
}

/// A waitpoint that is pushed comes last. All others stay in their places.
pub proof fn push_comes_last<S>(slots: Slots<S>, slot: Slot<S>)
    ensures
        slots.push(slot).seq == slots.seq.push(slot),
{
}

/// A waitpoint that is removed leaves its place to the last one. All others stay in
/// their places.
pub proof fn the_last_place_fills_the_gap<S>(slots: Slots<S>, i: int)
    requires
        forall|i: int, j: int|
            0 <= i < j < slots.seq.len() ==> (#[trigger] slots.seq[i]).source != (
            #[trigger] slots.seq[j]).source || slots.seq[i].write != slots.seq[j].write,
        0 <= i < slots.seq.len(),
    ensures
        ({
            let number = 2 * slots.seq[i].source + if slots.seq[i].write {
                1int
            } else {
                0int
            };
            let after = slots.remove(number).seq;
            &&& after.len() == slots.seq.len() - 1
            &&& i < after.len() ==> after[i] == slots.seq.last()
            &&& forall|k: int|
                0 <= k < after.len() && k != i ==> #[trigger] after[k] == slots.seq[k]
        }),
{
    lemma_distinct(slots);
    slots.lemma_find(i);
}

/// A direction that has no waitpoint is removed by doing nothing.
pub proof fn an_absent_place_is_not_removed<S>(slots: Slots<S>, number: int)
    requires
        forall|i: int|
            0 <= i < slots.seq.len() ==> number != 2 * (#[trigger] slots.seq[i]).source
                + if slots.seq[i].write {
                1int
            } else {
                0int
            },
    ensures
        slots.remove(number).seq == slots.seq,
{
    assert(!slots.has(number));
}

/// What a change of interest makes of a direction that has a waitpoint at `i`. Without
/// interest the waitpoint goes, and the last one takes its place. With interest it stays
/// in its place with the new key, and in a supported mode with the new mode and command.
pub proof fn interest_changes_its_place<S>(
    slots: Slots<S>,
    i: int,
    interested: bool,
    key: usize,
    mode: PollMode,
    sleep: Option<S>,
)
    requires
        forall|i: int, j: int|
            0 <= i < j < slots.seq.len() ==> (#[trigger] slots.seq[i]).source != (
            #[trigger] slots.seq[j]).source || slots.seq[i].write != slots.seq[j].write,
        0 <= i < slots.seq.len(),
    ensures
        ({
            let at = slots.seq[i];
            let after = slots.set_interest(at.source, at.write, interested, key, mode, sleep).seq;
            &&& !interested ==> after == slots.seq.update(i, slots.seq.last()).drop_last()
            &&& interested && (mode is Oneshot || mode is Level) ==> after == slots.seq.update(
                i,
                Slot {
                    source: at.source,
                    write: at.write,
                    key,
                    remove: mode is Oneshot,
                    sleep: sleep->0,
                },
            )
            &&& interested && (mode is Edge || mode is EdgeOneshot) ==> after == slots.seq.update(
                i,
                Slot {
                    source: at.source,
                    write: at.write,
                    key,
                    remove: at.remove,
                    sleep: at.sleep,
                },
            )
        }),
{
    lemma_distinct(slots);
    slots.lemma_find(i);
}

/// What a change of interest makes of a direction that has no waitpoint. With interest in
/// a supported mode it gets one, at the end of the list. Else nothing changes.
pub proof fn interest_gets_a_place<S>(
    slots: Slots<S>,
    source: usize,
    write: bool,
    interested: bool,
    key: usize,
    mode: PollMode,
    sleep: Option<S>,
)
    requires
        forall|i: int|
            0 <= i < slots.seq.len() ==> (#[trigger] slots.seq[i]).source != source
                || slots.seq[i].write != write,
    ensures
        ({
            let after = slots.set_interest(source, write, interested, key, mode, sleep).seq;
            if interested && (mode is Oneshot || mode is Level) {
                after == slots.seq.push(
                    Slot { source, write, key, remove: mode is Oneshot, sleep: sleep->0 },
                )
            } else {
                after == slots.seq
            }
        }),
{
    a_waitpoint_is_found_by_its_fields(slots, source, write);
}

/// To modify an object is to change the interest in its read direction and, unless that is
/// refused, then in its write direction.
pub proof fn modify_changes_read_then_write<S>(
    slots: Slots<S>,
    source: usize,
    items: WaitItems<S>,
    ev: Event,
    mode: PollMode,
)
    ensures
        ({
            let first = slots.set_interest(source, false, ev.readable, ev.key, mode, items.read);
            slots.modify(source, items, ev, mode) == if ev.readable && (mode is Edge
                || mode is EdgeOneshot) {
                first
            } else {
                first.set_interest(source, true, ev.writable, ev.key, mode, items.write)
            }
        }),
{
}

/// The list holds a waitpoint exactly where it is registered under its direction.
proof fn lemma_contains<S>(slots: Slots<S>, slot: Slot<S>)
    requires
        slots.distinct(),
    ensures
        slots.seq.contains(slot) <==> slots.has(slot.id()) && slots.get(slot.id()) == slot,
{
    if slots.seq.contains(slot) {
        slots.lemma_find(slots.seq.index_of(slot));
    }
    if slots.has(slot.id()) {
        slots.lemma_found(slot.id());
    }
}

/// Slots that are the same but for one object are the same for every other object.
proof fn lemma_same_but_for<S>(before: Slots<S>, after: Slots<S>, source: usize, slot: Slot<S>)
    requires
        before.distinct(),
        after.distinct(),
        super::same_but_for(before, after, source),
        slot.source != source,
    ensures
        before.seq.contains(slot) <==> after.seq.contains(slot),
{
    let read = HashKey::id_of(source, false);
    let write = HashKey::id_of(source, true);
    let id = slot.id();
    lemma_contains(before, slot);
    lemma_contains(after, slot);
    super::lemma_registered(before, id);
    super::lemma_registered(after, id);
    let left = before.registered().remove(read).remove(write);
    let right = after.registered().remove(read).remove(write);
    assert(left.dom().contains(id) == before.has(id));
    assert(right.dom().contains(id) == after.has(id));
    assert(left[id] == right[id]);
}

/// Once an object was modified, the list holds what it held of the other objects, and of
/// this object exactly the requested directions, under the requested key, in the requested
/// mode and with the given commands. No direction is there twice.
pub proof fn modify_leaves_exactly_what_was_requested<S>(
    slots: Slots<S>,
    source: usize,
    items: WaitItems<S>,
    ev: Event,
    mode: PollMode,
    slot: Slot<S>,
)
    requires
        forall|i: int, j: int|
            0 <= i < j < slots.seq.len() ==> (#[trigger] slots.seq[i]).source != (
            #[trigger] slots.seq[j]).source || slots.seq[i].write != slots.seq[j].write,
        mode is Oneshot || mode is Level || !ev.readable && !ev.writable,
    ensures
        ({
            let after = slots.modify(source, items, ev, mode);
            &&& slot.source != source ==> (after.seq.contains(slot) <==> slots.seq.contains(slot))
            &&& slot.source == source && !slot.write ==> (after.seq.contains(slot) <==> {
                &&& ev.readable
                &&& slot.key == ev.key
                &&& slot.remove == mode is Oneshot
                &&& slot.sleep == items.read->0
            })
            &&& slot.source == source && slot.write ==> (after.seq.contains(slot) <==> {
                &&& ev.writable
                &&& slot.key == ev.key
                &&& slot.remove == mode is Oneshot
                &&& slot.sleep == items.write->0
            })
            &&& forall|i: int, j: int|
                0 <= i < j < after.seq.len() ==> (#[trigger] after.seq[i]).source != (
                #[trigger] after.seq[j]).source || after.seq[i].write != after.seq[j].write
        }),
{
    lemma_distinct(slots);
    let after = slots.modify(source, items, ev, mode);
    super::modify_registers_exactly_the_interest(slots, source, items, ev, mode);
    lemma_contains(after, slot);
    if slot.source != source {
        lemma_same_but_for(slots, after, source, slot);
    }
    assert forall|i: int, j: int| 0 <= i < j < after.seq.len() implies (
    #[trigger] after.seq[i]).source != (#[trigger] after.seq[j]).source || after.seq[i].write
        != after.seq[j].write by {
        assert(after.seq[i].id() != after.seq[j].id());
    }
}

/// Once an object was added, the list holds what it held, and the requested directions of
/// this object, under the requested key, in the requested mode and with the given commands.
/// No direction is there twice.
pub proof fn add_leaves_exactly_what_was_requested<S>(
    slots: Slots<S>,
    source: usize,
    items: WaitItems<S>,
    ev: Event,
    mode: PollMode,
    slot: Slot<S>,
)
    requires
        forall|i: int, j: int|
            0 <= i < j < slots.seq.len() ==> (#[trigger] slots.seq[i]).source != (
            #[trigger] slots.seq[j]).source || slots.seq[i].write != slots.seq[j].write,
        forall|i: int|
            0 <= i < slots.seq.len() && (#[trigger] slots.seq[i]).source == source
                ==> !(slots.seq[i].write && ev.writable || !slots.seq[i].write && ev.readable),
        mode is Oneshot || mode is Level || !ev.readable && !ev.writable,
    ensures
        ({
            let after = slots.add(source, items, ev, mode);
            &&& after.seq.contains(slot) <==> {
                ||| slots.seq.contains(slot)
                ||| {
                    &&& slot.source == source
                    &&& slot.key == ev.key
                    &&& slot.remove == mode is Oneshot
                    &&& if slot.write {
                        ev.writable && slot.sleep == items.write->0
                    } else {
                        ev.readable && slot.sleep == items.read->0
                    }
                }
            }
            &&& forall|i: int, j: int|
                0 <= i < j < after.seq.len() ==> (#[trigger] after.seq[i]).source != (
                #[trigger] after.seq[j]).source || after.seq[i].write != after.seq[j].write
        }),
{
    lemma_distinct(slots);
    let after = slots.add(source, items, ev, mode);
    add_is_refused_only_for_cause(slots, source, ev, mode);
    super::add_registers_the_interest(slots, source, items, ev, mode);
    add_appends_the_requested_directions(slots, source, items, ev, mode);
    let n = slots.seq.len() as int;
    if slots.seq.contains(slot) {
        let i = slots.seq.index_of(slot);
        assert(after.seq[i] == slot);
    }
    if ev.readable {
        assert(after.seq[n].source == source);
    }
    if ev.writable {
        assert(after.seq[after.seq.len() - 1].source == source);
    }
    if after.seq.contains(slot) {
        let i = after.seq.index_of(slot);
        if i < n {
            assert(slots.seq[i] == slot);
        }
    }
    assert forall|i: int, j: int| 0 <= i < j < after.seq.len() implies (
    #[trigger] after.seq[i]).source != (#[trigger] after.seq[j]).source || after.seq[i].write
        != after.seq[j].write by {
        assert(after.seq[i].id() != after.seq[j].id());
    }
}

/// Once an object was deleted, the list holds what it held of the other objects, and
/// nothing of this object. No direction is there twice.
pub proof fn delete_leaves_exactly_the_others<S>(slots: Slots<S>, source: usize, slot: Slot<S>)
    requires
        forall|i: int, j: int|
            0 <= i < j < slots.seq.len() ==> (#[trigger] slots.seq[i]).source != (
            #[trigger] slots.seq[j]).source || slots.seq[i].write != slots.seq[j].write,
    ensures
        ({
            let after = slots.delete(source);
            &&& after.seq.contains(slot) <==> slots.seq.contains(slot) && slot.source != source
            &&& forall|i: int, j: int|
                0 <= i < j < after.seq.len() ==> (#[trigger] after.seq[i]).source != (
                #[trigger] after.seq[j]).source || after.seq[i].write != after.seq[j].write
        }),
{
    lemma_distinct(slots);
    let after = slots.delete(source);
    super::delete_forgets_the_object(slots, source);
    lemma_contains(after, slot);
    if slot.source != source {
        lemma_same_but_for(slots, after, source, slot);
    }
    assert forall|i: int, j: int| 0 <= i < j < after.seq.len() implies (
    #[trigger] after.seq[i]).source != (#[trigger] after.seq[j]).source || after.seq[i].write
        != after.seq[j].write by {
        assert(after.seq[i].id() != after.seq[j].id());
    }
}

/// To delete an object is to lose interest in both of its directions, in whatever mode.
pub proof fn to_delete_is_to_lose_interest<S>(
    slots: Slots<S>,
    source: usize,
    items: WaitItems<S>,
    ev: Event,
    mode: PollMode,
)
    requires
        !ev.readable,
        !ev.writable,
    ensures
        slots.delete(source) == slots.modify(source, items, ev, mode),
        Slots::<S>::modify_result(ev, mode) == Ok::<(), Error>(()),
{
}

/// Where a request to modify an object is refused, the list holds what it held of the other
/// objects, and no new direction of this one. A refused read direction that is waited for
/// goes on under the new key, and the write direction as before. With no interest in the
/// read direction that one goes, and the refused write direction goes on under the new key.
pub proof fn a_refused_modify_changes_only_keys<S>(
    slots: Slots<S>,
    source: usize,
    items: WaitItems<S>,
    ev: Event,
    mode: PollMode,
    slot: Slot<S>,
)
    requires
        forall|i: int, j: int|
            0 <= i < j < slots.seq.len() ==> (#[trigger] slots.seq[i]).source != (
            #[trigger] slots.seq[j]).source || slots.seq[i].write != slots.seq[j].write,
        mode is Edge || mode is EdgeOneshot,
        ev.readable || ev.writable,
    ensures
        ({
            let after = slots.modify(source, items, ev, mode);
            &&& slot.source != source ==> (after.seq.contains(slot) <==> slots.seq.contains(slot))
            &&& slot.source == source && slot.write != ev.readable ==> (after.seq.contains(slot)
                <==> slot.key == ev.key && exists|i: int|
                {
                    &&& 0 <= i < slots.seq.len()
                    &&& (#[trigger] slots.seq[i]).source == source
                    &&& slots.seq[i].write == slot.write
                    &&& slots.seq[i].remove == slot.remove
                    &&& slots.seq[i].sleep == slot.sleep
                })
            &&& slot.source == source && slot.write && ev.readable ==> (after.seq.contains(slot)
                <==> slots.seq.contains(slot))
            &&& slot.source == source && !slot.write && !ev.readable ==> !after.seq.contains(slot)
        }),
{
    lemma_distinct(slots);
    super::refused_requests_register_nothing(slots, source, items, ev, mode);
    let after = slots.modify(source, items, ev, mode);
    lemma_contains(after, slot);
    lemma_contains(slots, slot);
    if slot.source != source {
        lemma_same_but_for(slots, after, source, slot);
    } else {
        let read = HashKey::id_of(source, false);
        let write = HashKey::id_of(source, true);
        let first = slots.set_interest(source, false, ev.readable, ev.key, mode, items.read);
        if ev.readable {
            if slots.has(read) {
                slots.lemma_found(read);
                slots.lemma_replace(Slot { key: ev.key, ..slots.get(read) });
            }
        } else {
            slots.lemma_remove(read);
            super::lemma_registered(first, write);
            super::lemma_registered(first, read);
            super::lemma_registered(slots, write);
            if first.has(write) {
                first.lemma_found(write);
                first.lemma_replace(Slot { key: ev.key, ..first.get(write) });
            }
        }
        super::lemma_registered(slots, read);
        super::lemma_registered(slots, write);
        super::lemma_registered(after, read);
        super::lemma_registered(after, write);
        if slots.has(slot.id()) {
            slots.lemma_found(slot.id());
            assert(slots.seq[slots.find(slot.id())].id() == slot.id());
        }
        if exists|i: int|
            {
                &&& 0 <= i < slots.seq.len()
                &&& (#[trigger] slots.seq[i]).source == source
                &&& slots.seq[i].write == slot.write
                &&& slots.seq[i].remove == slot.remove
                &&& slots.seq[i].sleep == slot.sleep
            } {
            let i = choose|i: int|
                {
                    &&& 0 <= i < slots.seq.len()
                    &&& (#[trigger] slots.seq[i]).source == source
                    &&& slots.seq[i].write == slot.write
                    &&& slots.seq[i].remove == slot.remove
                    &&& slots.seq[i].sleep == slot.sleep
                };
            slots.lemma_find(i);
        }
    }
}

/// The kernel gets the command that is used to notify the poller, and then the command
/// of each waitpoint, in the order of the list.
pub proof fn commands_stand_in_their_places<S>(wps: WpsView<S>)
    ensures
        wps.commands().len() == wps.slots.seq.len() + 1,
        wps.commands()[0] == wps.notify,
        forall|i: int|
            0 <= i < wps.slots.seq.len() ==> wps.commands()[i + 1] == (
            #[trigger] wps.slots.seq[i]).sleep,
{
}

/// Other commands take the places of those before. Nothing else of the waitpoints changes.
pub proof fn other_commands_take_the_same_places<S>(wps: WpsView<S>, commands: Seq<S>)
    requires
        commands.len() == wps.slots.seq.len() + 1,
    ensures
        wps.with_commands(commands).commands() == commands,
        wps.with_commands(commands).slots.seq.len() == wps.slots.seq.len(),
        forall|i: int|
            0 <= i < wps.slots.seq.len() ==> {
                let slot = #[trigger] wps.with_commands(commands).slots.seq[i];
                &&& slot.source == wps.slots.seq[i].source
                &&& slot.write == wps.slots.seq[i].write
                &&& slot.key == wps.slots.seq[i].key
                &&& slot.remove == wps.slots.seq[i].remove
            },
{
    assert(wps.with_commands(commands).commands() =~= commands);
}

/// A new list holds no waitpoint.
pub proof fn a_new_list_holds_no_waitpoint<S>()
    ensures
        Slots::<S>::empty().seq.len() == 0,
{
}

/// A direction that is waited for and found ready is reported under its key. It is dropped
/// then where it is to be reported once, and else it stays.
proof fn lemma_a_place_reports_its_key<S>(
    slots: Slots<S>,
    ready: Seq<bool>,
    events: Seq<Event>,
    after: Slots<S>,
    slot: Slot<S>,
) -> (place: int)
    requires
        forall|i: int, j: int|
            0 <= i < j < slots.seq.len() ==> (#[trigger] slots.seq[i]).source != (
            #[trigger] slots.seq[j]).source || slots.seq[i].write != slots.seq[j].write,
        slots.seq.contains(slot),
        slots.collected(ready, events, after),
    ensures
        0 <= place < slots.seq.len(),
        slots.seq[place] == slot,
        ready[place + 1] ==> exists|j: int|
            {
                &&& 0 <= j < events.len()
                &&& (#[trigger] events[j]).key == slot.key
                &&& events[j].readable == !slot.write
                &&& events[j].writable == slot.write
            },
        (exists|k: int|
            {
                &&& 0 <= k < after.seq.len()
                &&& (#[trigger] after.seq[k]).source == slot.source
                &&& after.seq[k].write == slot.write
            }) <==> !(ready[place + 1] && slot.remove),
{
    let place = slots.seq.index_of(slot);
    if ready[place + 1] {
        a_ready_place_is_reported(slots, ready, events, after, place);
    }
    a_place_is_dropped_when_ready_and_spent(slots, ready, events, after);
    assert(after.seq.contains(slots.seq[place]) <==> !(ready[place + 1]
        && slots.seq[place].remove));
    if after.seq.contains(slot) {
        let k = after.seq.index_of(slot);
        assert(after.seq[k].source == slot.source && after.seq[k].write == slot.write);
    }
    if exists|k: int|
        {
            &&& 0 <= k < after.seq.len()
            &&& (#[trigger] after.seq[k]).source == slot.source
            &&& after.seq[k].write == slot.write
        } {
        let k = choose|k: int|
            {
                &&& 0 <= k < after.seq.len()
                &&& (#[trigger] after.seq[k]).source == slot.source
                &&& after.seq[k].write == slot.write
            };
        assert(slots.seq.contains(after.seq[k]));
        let l = slots.seq.index_of(after.seq[k]);
        if l < place {
            assert(slots.seq[l].write != slots.seq[place].write);
        } else if place < l {
            assert(slots.seq[place].write != slots.seq[l].write);
        }
        assert(after.seq.contains(slots.seq[place]));
    }
    place
}

/// The command of a direction that was added stands in the list, at `place`. Where it is
/// found ready, an event reports the direction under the key of the request, and in mode
/// `Oneshot` the direction is then no longer waited for. Else it is waited for as before.
pub proof fn what_was_added_is_reported<S>(
    slots: Slots<S>,
    source: usize,
    items: WaitItems<S>,
    ev: Event,
    mode: PollMode,
    write: bool,
    ready: Seq<bool>,
    events: Seq<Event>,
    after: Slots<S>,
) -> (place: int)
    requires
        forall|i: int, j: int|
            0 <= i < j < slots.seq.len() ==> (#[trigger] slots.seq[i]).source != (
            #[trigger] slots.seq[j]).source || slots.seq[i].write != slots.seq[j].write,
        forall|i: int|
            0 <= i < slots.seq.len() && (#[trigger] slots.seq[i]).source == source
                ==> !(slots.seq[i].write && ev.writable || !slots.seq[i].write && ev.readable),
        mode is Oneshot || mode is Level,
        write ==> ev.writable,
        !write ==> ev.readable,
        slots.add(source, items, ev, mode).collected(ready, events, after),
    ensures
        0 <= place < slots.add(source, items, ev, mode).seq.len(),
        write ==> slots.add(source, items, ev, mode).seq[place].sleep == items.write->0,
        !write ==> slots.add(source, items, ev, mode).seq[place].sleep == items.read->0,
        ready[place + 1] ==> exists|j: int|
            {
                &&& 0 <= j < events.len()
                &&& (#[trigger] events[j]).key == ev.key
                &&& events[j].readable == !write
                &&& events[j].writable == write
            },
        (exists|k: int|
            {
                &&& 0 <= k < after.seq.len()
                &&& (#[trigger] after.seq[k]).source == source
                &&& after.seq[k].write == write
            }) <==> !(ready[place + 1] && (mode is Oneshot)),
{
    let sleep = if write {
        items.write->0
    } else {
        items.read->0
    };
    let slot = Slot { source, write, key: ev.key, remove: mode is Oneshot, sleep };
    add_leaves_exactly_what_was_requested(slots, source, items, ev, mode, slot);
    lemma_a_place_reports_its_key(
        slots.add(source, items, ev, mode),
        ready,
        events,
        after,
        slot,
    )
}

/// The command of a direction that was modified stands in the list, at `place`. Where it is
/// found ready, an event reports the direction under the key of the request, and in mode
/// `Oneshot` the direction is then no longer waited for. Else it is waited for as before.
pub proof fn what_was_modified_is_reported<S>(
    slots: Slots<S>,
    source: usize,
    items: WaitItems<S>,
    ev: Event,
    mode: PollMode,
    write: bool,
    ready: Seq<bool>,
    events: Seq<Event>,
    after: Slots<S>,
) -> (place: int)
    requires
        forall|i: int, j: int|
            0 <= i < j < slots.seq.len() ==> (#[trigger] slots.seq[i]).source != (
            #[trigger] slots.seq[j]).source || slots.seq[i].write != slots.seq[j].write,
        mode is Oneshot || mode is Level,
        write ==> ev.writable,
        !write ==> ev.readable,
        slots.modify(source, items, ev, mode).collected(ready, events, after),
    ensures
        0 <= place < slots.modify(source, items, ev, mode).seq.len(),
        write ==> slots.modify(source, items, ev, mode).seq[place].sleep == items.write->0,
        !write ==> slots.modify(source, items, ev, mode).seq[place].sleep == items.read->0,
        ready[place + 1] ==> exists|j: int|
            {
                &&& 0 <= j < events.len()
                &&& (#[trigger] events[j]).key == ev.key
                &&& events[j].readable == !write
                &&& events[j].writable == write
            },
        (exists|k: int|
            {
                &&& 0 <= k < after.seq.len()
                &&& (#[trigger] after.seq[k]).source == source
                &&& after.seq[k].write == write
            }) <==> !(ready[place + 1] && (mode is Oneshot)),
{
    let sleep = if write {
        items.write->0
    } else {
        items.read->0
    };
    let slot = Slot { source, write, key: ev.key, remove: mode is Oneshot, sleep };
    modify_leaves_exactly_what_was_requested(slots, source, items, ev, mode, slot);
    lemma_a_place_reports_its_key(
        slots.modify(source, items, ev, mode),
        ready,
        events,
        after,
        slot,
    )
}

} // verus!
