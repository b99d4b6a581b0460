//! What a poller waits for, as a mathematical object: a sequence of slots, and
//! what each operation makes of it.

use vstd::prelude::*;

use crate::error::Error;
use crate::event::{Event, PollMode};
use crate::hash_key::HashKey;

verus! {

/// The commands by which the kernel waits for the two directions of an object. A
/// direction that is not waited for needs none.
#[derive(Debug)]
pub struct WaitItems<S> {
    pub read: Option<S>,
    pub write: Option<S>,
}

impl<S> WaitItems<S> {
    /// Whether there is a command for every direction that `ev` asks for.
    pub open spec fn covers(self, ev: Event) -> bool {
        &&& ev.readable ==> self.read is Some
        &&& ev.writable ==> self.write is Some
    }
}

/// One direction of a waitable object that the poller waits for.
pub struct Slot<S> {
    /// The key of the waitable object.
    pub source: usize,
    /// Whether the direction is write, or else read.
    pub write: bool,
    /// The key of the events that report the direction.
    pub key: usize,
    /// Whether to drop the slot once it has been reported.
    pub remove: bool,
    /// The command by which the kernel waits.
    pub sleep: S,
}

impl<S> Slot<S> {
    /// The number that stands for the direction.
    pub open spec fn id(self) -> int {
        HashKey::id_of(self.source, self.write)
    }

    /// The event that reports the slot.
    pub open spec fn event(self) -> Event {
        Event::of_direction(self.key, self.write)
    }
}

/// The slots of a poller, in the order in which the kernel gets their commands.
#[verifier::ext_equal]
pub struct Slots<S> {
    pub seq: Seq<Slot<S>>,
}

impl<S> Slots<S> {
    /// No slots.
    pub open spec fn empty() -> Slots<S> {
        Slots { seq: Seq::empty() }
    }

    /// Whether the direction with this number has a slot.
    pub open spec fn has(self, id: int) -> bool {
        exists|i: int| 0 <= i < self.seq.len() && (#[trigger] self.seq[i]).id() == id
    }

    /// Where the slot of a direction stands.
    pub open spec fn find(self, id: int) -> int
        recommends
            self.has(id),
    {
        choose|i: int| 0 <= i < self.seq.len() && (#[trigger] self.seq[i]).id() == id
    }

    /// The slot of a direction.
    pub open spec fn get(self, id: int) -> Slot<S>
        recommends
            self.has(id),
    {
        self.seq[self.find(id)]
    }

    /// No direction has two slots.
    pub open spec fn distinct(self) -> bool {
        forall|i: int, j: int|
            0 <= i < j < self.seq.len() ==> (#[trigger] self.seq[i]).id() != (
            #[trigger] self.seq[j]).id()
    }

    /// The slots with one more at the end.
    pub open spec fn push(self, slot: Slot<S>) -> Slots<S> {
        Slots { seq: self.seq.push(slot) }
    }

    /// The slots with `slot` in the place of the slot of the same direction.
    pub open spec fn replace(self, slot: Slot<S>) -> Slots<S>
        recommends
            self.has(slot.id()),
    {
        Slots { seq: self.seq.update(self.find(slot.id()), slot) }
    }

    /// The slots without that of a direction: the last slot takes its place.
    pub open spec fn remove(self, id: int) -> Slots<S> {
        if self.has(id) {
            Slots { seq: self.seq.update(self.find(id), self.seq.last()).drop_last() }
        } else {
            self
        }
    }

    /// The slots after a request to wait for an object that is new to the poller.
    pub open spec fn add(
        self,
        source: usize,
        items: WaitItems<S>,
        ev: Event,
        mode: PollMode,
    ) -> Slots<S> {
        if self.add_result(source, ev, mode) is Err {
            self
        } else {
            let remove = mode.removes() == Some(true);
            let first = if ev.readable {
                self.push(Slot { source, write: false, key: ev.key, remove, sleep: items.read->0 })
            } else {
                self
            };
            if ev.writable {
                first.push(Slot { source, write: true, key: ev.key, remove, sleep: items.write->0 })
            } else {
                first
            }
        }
    }

    /// Whether such a request is refused: it is where a requested direction has
    /// a slot, and else where the mode is needed and not supported.
    pub open spec fn add_result(self, source: usize, ev: Event, mode: PollMode) -> Result<
        (),
        Error,
    > {
        if ev.readable && self.has(HashKey::id_of(source, false)) || ev.writable && self.has(
            HashKey::id_of(source, true),
        ) {
            Err(Error::AlreadyExists)
        } else {
            Slots::<S>::modify_result(ev, mode)
        }
    }

    /// The slots after a request to wait, or not to wait, for one direction. A
    /// request in an unsupported mode still changes the key of the events.
    pub open spec fn set_interest(
        self,
        source: usize,
        write: bool,
        interested: bool,
        key: usize,
        mode: PollMode,
        sleep: Option<S>,
    ) -> Slots<S> {
        let id = HashKey::id_of(source, write);
        if !interested {
            self.remove(id)
        } else {
            match mode.removes() {
                Some(remove) => {
                    let slot = Slot { source, write, key, remove, sleep: sleep->0 };
                    if self.has(id) {
                        self.replace(slot)
                    } else {
                        self.push(slot)
                    }
                },
                None => {
                    if self.has(id) {
                        self.replace(Slot { key, ..self.get(id) })
                    } else {
                        self
                    }
                },
            }
        }
    }

    /// The slots after a request that changes what to wait for of an object. Where
    /// the read direction is refused, the write direction is left alone.
    pub open spec fn modify(
        self,
        source: usize,
        items: WaitItems<S>,
        ev: Event,
        mode: PollMode,
    ) -> Slots<S> {
        let first = self.set_interest(source, false, ev.readable, ev.key, mode, items.read);
        if ev.readable && mode.removes() is None {
            first
        } else {
            first.set_interest(source, true, ev.writable, ev.key, mode, items.write)
        }
    }

    /// Whether such a request is refused: it is where the mode is needed and not supported.
    pub open spec fn modify_result(ev: Event, mode: PollMode) -> Result<(), Error> {
        if (ev.readable || ev.writable) && mode.removes() is None {
            Err(Error::Unsupported)
        } else {
            Ok(())
        }
    }

    /// The slots without those of an object.
    pub open spec fn delete(self, source: usize) -> Slots<S> {
        self.remove(HashKey::id_of(source, false)).remove(HashKey::id_of(source, true))
    }

    /// Whether a direction is found ready. The kernel gets the command of the
    /// notification word first, and then those of the slots.
    pub open spec fn is_ready(self, ready: Seq<bool>, id: int) -> bool {
        self.has(id) && ready[self.find(id) + 1]
    }

    /// Whether a direction is found ready, and then dropped.
    pub open spec fn is_spent(self, ready: Seq<bool>, id: int) -> bool {
        self.is_ready(ready, id) && self.get(id).remove
    }

    /// The event that reports a direction, if it is found ready.
    pub open spec fn report(self, ready: Seq<bool>) -> spec_fn(int) -> Option<Event> {
        |id: int|
            if self.is_ready(ready, id) {
                Some(self.get(id).event())
            } else {
                None
            }
    }

    /// The numbers of the directions, in the order of the slots.
    pub open spec fn ids(self) -> Seq<int> {
        self.seq.map_values(|slot: Slot<S>| slot.id())
    }

    /// Whether `order` names every direction that has a slot, and each once.
    pub open spec fn is_walk(self, order: Seq<int>) -> bool {
        &&& order.no_duplicates()
        &&& forall|id: int| #[trigger] order.contains(id) <==> self.has(id)
    }

    /// The events that a walk reports.
    pub open spec fn reported(self, ready: Seq<bool>, order: Seq<int>) -> Seq<Event> {
        order.filter_map(self.report(ready))
    }

    /// The directions that a walk drops.
    pub open spec fn spent(self, ready: Seq<bool>, order: Seq<int>) -> Seq<int> {
        order.filter(|id: int| self.is_spent(ready, id))
    }

    /// The slots without those of the directions in `ids`, dropped one by one.
    pub open spec fn remove_all(self, ids: Seq<int>) -> Slots<S>
        decreases ids.len(),
    {
        if ids.len() == 0 {
            self
        } else {
            self.remove_all(ids.drop_last()).remove(ids.last())
        }
    }

    /// The slots after a walk.
    pub open spec fn collect(self, ready: Seq<bool>, order: Seq<int>) -> Slots<S> {
        self.remove_all(self.spent(ready, order))
    }

    /// The slots, filed by direction. Their order is left out.
    pub open spec fn registered(self) -> Map<int, Slot<S>> {
        Map::new(|id: int| self.has(id), |id: int| self.get(id))
    }

    /// The events that report the directions found ready, in the order of the slots.
    pub open spec fn ready_events(self, ready: Seq<bool>) -> Seq<Event> {
        self.reported(ready, self.ids())
    }

    /// The slots that stay once the directions found ready were reported, filed by direction.
    pub open spec fn unspent(self, ready: Seq<bool>) -> Map<int, Slot<S>> {
        Map::new(|id: int| self.has(id) && !self.is_spent(ready, id), |id: int| self.get(id))
    }

    /// Whether some walk reports `events` and leaves `after`.
    pub open spec fn collected(
        self,
        ready: Seq<bool>,
        events: Seq<Event>,
        after: Slots<S>,
    ) -> bool {
        exists|order: Seq<int>|
            {
                &&& #[trigger] self.is_walk(order)
                &&& events == self.reported(ready, order)
                &&& after == self.collect(ready, order)
            }
    }

    /// Where no direction has two slots, each slot is found by its direction.
    pub proof fn lemma_find(self, i: int)
        requires
            self.distinct(),
            0 <= i < self.seq.len(),
        ensures
            self.has(self.seq[i].id()),
            self.find(self.seq[i].id()) == i,
    {
        let id = self.seq[i].id();
        let j = self.find(id);
        assert(self.seq[i].id() == id);
        assert(0 <= j < self.seq.len() && self.seq[j].id() == id);
        if j < i {
            assert(self.seq[j].id() != self.seq[i].id());
        } else if i < j {
            assert(self.seq[i].id() != self.seq[j].id());
        }
    }

    /// A direction that has a slot is found where its slot stands.
    pub proof fn lemma_found(self, id: int)
        requires
            self.has(id),
        ensures
            0 <= self.find(id) < self.seq.len(),
            self.get(id).id() == id,
    {
    }

    /// A new slot is registered, and changes no other.
    pub proof fn lemma_push(self, slot: Slot<S>)
        requires
            self.distinct(),
            !self.has(slot.id()),
        ensures
            self.push(slot).distinct(),
            self.push(slot).registered() == self.registered().insert(slot.id(), slot),
    {
        let after = self.push(slot);
        assert forall|i: int, j: int| 0 <= i < j < after.seq.len() implies (
        #[trigger] after.seq[i]).id() != (#[trigger] after.seq[j]).id() by {
            assert(after.seq[i] == self.seq[i]);
            if j < self.seq.len() {
                assert(after.seq[j] == self.seq[j]);
            }
        }
        assert forall|id: int|
            #![trigger after.has(id)]
            after.has(id) == (self.has(id) || id == slot.id()) && (self.has(id) ==> after.get(id)
                == self.get(id)) by {
            if self.has(id) {
                let i = self.find(id);
                assert(after.seq[i] == self.seq[i]);
                after.lemma_find(i);
            }
            if after.has(id) && id != slot.id() {
                let i = after.find(id);
                assert(after.seq[i] == self.seq[i]);
            }
            assert(after.seq[self.seq.len() as int] == slot);
        }
        after.lemma_find(self.seq.len() as int);
        assert(after.registered() =~= self.registered().insert(slot.id(), slot));
    }

    /// A slot that takes the place of another is registered, and changes no other.
    pub proof fn lemma_replace(self, slot: Slot<S>)
        requires
            self.distinct(),
            self.has(slot.id()),
        ensures
            self.replace(slot).distinct(),
            self.replace(slot).registered() == self.registered().insert(slot.id(), slot),
    {
        let after = self.replace(slot);
        let at = self.find(slot.id());
        self.lemma_found(slot.id());
        assert forall|i: int| 0 <= i < self.seq.len() implies (#[trigger] after.seq[i]).id()
            == self.seq[i].id() by {}
        assert forall|i: int, j: int| 0 <= i < j < after.seq.len() implies (
        #[trigger] after.seq[i]).id() != (#[trigger] after.seq[j]).id() by {
            assert(self.seq[i].id() != self.seq[j].id());
        }
        assert forall|id: int|
            #![trigger after.has(id)]
            after.has(id) == self.has(id) && (self.has(id) ==> after.find(id) == self.find(id)) by {
            if self.has(id) {
                let i = self.find(id);
                assert(after.seq[i].id() == id);
                after.lemma_find(i);
            }
            if after.has(id) {
                let i = after.find(id);
                assert(self.seq[i].id() == id);
            }
        }
        assert forall|id: int| self.has(id) && id != slot.id() implies after.get(id) == self.get(
            id,
        ) by {
            assert(after.has(id));
            self.lemma_found(id);
        }
        assert(after.registered() =~= self.registered().insert(slot.id(), slot));
    }

    /// A slot that is removed is no longer registered, and no other changes.
    pub proof fn lemma_remove(self, id: int)
        requires
            self.distinct(),
        ensures
            self.remove(id).distinct(),
            self.remove(id).registered() == self.registered().remove(id),
            !self.remove(id).has(id),
    {
        let after = self.remove(id);
        if self.has(id) {
            let at = self.find(id);
            let last = self.seq.len() - 1;
            self.lemma_found(id);
            // Where each slot that is left comes from.
            let from = |i: int|
                if i == at {
                    last
                } else {
                    i
                };
            assert forall|i: int| 0 <= i < after.seq.len() implies #[trigger] after.seq[i]
                == self.seq[from(i)] by {}
            assert forall|i: int, j: int| 0 <= i < j < after.seq.len() implies (
            #[trigger] after.seq[i]).id() != (#[trigger] after.seq[j]).id() by {
                let a = from(i);
                let b = from(j);
                if a < b {
                    assert(self.seq[a].id() != self.seq[b].id());
                } else {
                    assert(self.seq[b].id() != self.seq[a].id());
                }
            }
            assert forall|other: int|
                #![trigger after.has(other)]
                after.has(other) == (self.has(other) && other != id) && (after.has(other)
                    ==> after.get(other) == self.get(other)) by {
                if self.has(other) && other != id {
                    let i = self.find(other);
                    self.lemma_found(other);
                    let k = if i == last {
                        at
                    } else {
                        i
                    };
                    assert(after.seq[k] == self.seq[i]);
                    after.lemma_find(k);
                }
                if after.has(other) {
                    let k = after.find(other);
                    let i = from(k);
                    assert(after.seq[k] == self.seq[i]);
                    self.lemma_find(i);
                }
            }
            assert(after.registered() =~= self.registered().remove(id));
        } else {
            assert(after.registered() =~= self.registered().remove(id));
        }
    }
}

} // verus!
