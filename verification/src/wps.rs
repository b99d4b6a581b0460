//! The waitpoints of a poller: the commands that the kernel waits for, and what
//! is known of each of them.

use std::collections::HashMap;

use vstd::prelude::*;

use crate::error::Error;
use crate::event::{cvt_mode_as_remove, vec_capacity, Event, EventExtra, Events, PollMode};
use crate::hash_key::HashKey;
use crate::ids::BorrowedTwizzlerWaitable;
use crate::slots::{Slot, Slots, WaitItems};

verus! {

broadcast use vstd::std_specs::hash::group_hash_axioms;

/// Data associated with a waitpoint.
#[derive(Clone, Copy, Debug)]
pub struct WpData {
    /// The index of this waitpoint into `polls`.
    pub poll_wps_index: usize,
    /// The key of the `Event` associated with this waitpoint.
    pub key: usize,
    /// Whether to remove this waitpoint from the poller once it was reported.
    pub remove: bool,
    /// If this is for write or for read.
    pub write: bool,
    /// The unique key of the waitable object, for making a `HashKey`.
    pub bw_key: usize,
}

impl WpData {
    /// The key under which the data is filed.
    pub open spec fn id(self) -> int {
        HashKey::id_of(self.bw_key, self.write)
    }

    /// The `HashKey` of the waitpoint.
    pub fn hash_key(&self) -> (res: HashKey)
        requires
            HashKey::fits(self.bw_key),
        ensures
            res@ == self.id(),
    {
        HashKey::new(self.bw_key, self.write)
    }
}

/// The waitpoints of a poller. `S` is the command by which the kernel waits.
#[derive(Debug)]
pub struct Wps<S> {
    /// The list of commands to call the kernel with.
    ///
    /// The first one is always present and is used to notify the poller.
    polls: Vec<S>,
    /// The data of each waitpoint, by the number of its `HashKey`.
    wp_data: HashMap<usize, WpData>,
    /// Keys for the hash map, in order in polls.
    polls_keys: Vec<HashKey>,
    /// A buffer for cleanup, stored here to avoid allocating memory for it every time.
    cleanup_buffer: Vec<HashKey>,
}

/// An operation on the waitpoints of a waitable object.
#[derive(Debug)]
pub enum Operation<'a, S> {
    /// Waits for an object that is new to the poller.
    Add { wp: &'a BorrowedTwizzlerWaitable, items: WaitItems<S>, ev: Event, mode: PollMode },
    /// Changes what to wait for of an object.
    Modify { source: &'a BorrowedTwizzlerWaitable, items: WaitItems<S>, ev: Event, mode: PollMode },
    /// No longer waits for an object.
    Delete { source: &'a BorrowedTwizzlerWaitable },
}

impl<'a, S> Operation<'a, S> {
    /// Whether the directions that the operation looks up can be numbered.
    pub open spec fn fits(self) -> bool {
        match self {
            Operation::Add { wp, ev, .. } => ev.readable || ev.writable ==> HashKey::fits(wp@),
            Operation::Modify { source, .. } => HashKey::fits(source@),
            Operation::Delete { source } => HashKey::fits(source@),
        }
    }

    /// Whether there is a command for every direction that the operation starts to
    /// wait for. One that is refused starts to wait for none.
    pub open spec fn is_covered(self, slots: Slots<S>) -> bool {
        match self {
            Operation::Add { items, ev, .. } => self.result(slots) is Ok ==> items.covers(ev),
            Operation::Modify { items, ev, .. } => self.result(slots) is Ok ==> items.covers(ev),
            Operation::Delete { .. } => true,
        }
    }

    /// What the operation returns.
    pub open spec fn result(self, slots: Slots<S>) -> Result<(), Error> {
        match self {
            Operation::Add { wp, items, ev, mode } => slots.add_result(wp@, ev, mode),
            Operation::Modify { source, items, ev, mode } => Slots::<S>::modify_result(ev, mode),
            Operation::Delete { source } => Ok(()),
        }
    }

    /// What the operation makes of the slots.
    pub open spec fn after(self, slots: Slots<S>) -> Slots<S> {
        match self {
            Operation::Add { wp, items, ev, mode } => slots.add(wp@, items, ev, mode),
            Operation::Modify { source, items, ev, mode } => slots.modify(source@, items, ev, mode),
            Operation::Delete { source } => slots.delete(source@),
        }
    }
}

/// The state of [`Wps`].
#[verifier::ext_equal]
pub struct WpsView<S> {
    /// The command that is used to notify the poller.
    pub notify: S,
    /// What the poller waits for.
    pub slots: Slots<S>,
}

impl<S> WpsView<S> {
    /// The commands, in the order in which the kernel gets them.
    pub open spec fn commands(self) -> Seq<S> {
        seq![self.notify] + self.slots.seq.map_values(|slot: Slot<S>| slot.sleep)
    }

    /// The same waitpoints with other commands.
    pub open spec fn with_commands(self, commands: Seq<S>) -> WpsView<S>
        recommends
            commands.len() == self.commands().len(),
    {
        WpsView {
            notify: commands[0],
            slots: Slots {
                seq: Seq::new(
                    self.slots.seq.len(),
                    |i: int| Slot { sleep: commands[i + 1], ..self.slots.seq[i] },
                ),
            },
        }
    }
}

impl<S> View for Wps<S> {
    type V = WpsView<S>;

    closed spec fn view(&self) -> WpsView<S> {
        WpsView {
            notify: self.polls@[0],
            slots: Slots {
                seq: Seq::new((self.polls@.len() - 1) as nat, |i: int| self.slot(i + 1)),
            },
        }
    }
}

impl<S> Wps<S> {
    /// The slot whose command stands at `index` in `polls`.
    spec fn slot(&self, index: int) -> Slot<S> {
        let data = self.wp_data@[self.polls_keys@[index]@ as usize];
        Slot {
            source: data.bw_key,
            write: data.write,
            key: data.key,
            remove: data.remove,
            sleep: self.polls@[index],
        }
    }

    /// The three collections agree with each other.
    spec fn inv(&self) -> bool {
        &&& self.polls@.len() == self.polls_keys@.len()
        &&& self.polls@.len() >= 1
        &&& self.polls_keys@[0]@ == 0
        &&& forall|i: int|
            0 <= i < self.polls_keys@.len() ==> 0 <= (#[trigger] self.polls_keys@[i])@ <= usize::MAX
        &&& forall|k: usize| #[trigger]
            self.wp_data@.contains_key(k) ==> {
                let data = self.wp_data@[k];
                &&& 1 <= data.poll_wps_index < self.polls_keys@.len()
                &&& self.polls_keys@[data.poll_wps_index as int]@ == k
                &&& HashKey::fits(data.bw_key)
                &&& data.id() == k
            }
        &&& forall|i: int|
            1 <= i < self.polls_keys@.len() ==> {
                let k = (#[trigger] self.polls_keys@[i])@ as usize;
                &&& self.wp_data@.contains_key(k)
                &&& self.wp_data@[k].poll_wps_index == i
            }
    }

    /// The waitpoints are in order, and nothing is left to clean up.
    pub closed spec fn wf(&self) -> bool {
        &&& self.inv()
        &&& self.cleanup_buffer@.len() == 0
    }

    /// The slot at `i` is filed under its direction.
    proof fn lemma_slot(&self, i: int)
        requires
            self.inv(),
            0 <= i < self@.slots.seq.len(),
        ensures
            self@.slots.seq[i] == self.slot(i + 1),
            self@.slots.seq[i].id() == self.polls_keys@[i + 1]@,
    {
        let k = self.polls_keys@[i + 1]@ as usize;
        assert(self.wp_data@.contains_key(k));
    }

    /// No direction has two slots.
    proof fn lemma_distinct(&self)
        requires
            self.inv(),
        ensures
            self@.slots.distinct(),
    {
        let slots = self@.slots;
        assert forall|i: int, j: int| 0 <= i < j < slots.seq.len() implies (
        #[trigger] slots.seq[i]).id() != (#[trigger] slots.seq[j]).id() by {
            self.lemma_slot(i);
            self.lemma_slot(j);
            assert(self.wp_data@[self.polls_keys@[i + 1]@ as usize].poll_wps_index == i + 1);
            assert(self.wp_data@[self.polls_keys@[j + 1]@ as usize].poll_wps_index == j + 1);
        }
    }

    /// A direction has a slot exactly where it has data, which tells where the slot stands.
    proof fn lemma_lookup(&self, k: usize)
        requires
            self.inv(),
        ensures
            self.wp_data@.contains_key(k) == self@.slots.has(k as int),
            self.wp_data@.contains_key(k) ==> {
                &&& self@.slots.find(k as int) == self.wp_data@[k].poll_wps_index - 1
                &&& self@.slots.get(k as int) == self.slot(
                    self.wp_data@[k].poll_wps_index as int,
                )
            },
    {
        self.lemma_distinct();
        let slots = self@.slots;
        if self.wp_data@.contains_key(k) {
            let i = self.wp_data@[k].poll_wps_index - 1;
            self.lemma_slot(i);
            slots.lemma_find(i);
        }
        if slots.has(k as int) {
            let i = slots.find(k as int);
            slots.lemma_found(k as int);
            self.lemma_slot(i);
            assert(self.polls_keys@[i + 1]@ == k);
        }
    }

    /// Creates a list of waitpoints that holds only the command that is used to
    /// notify the poller.
    pub fn new(notify: S) -> (res: Self)
        ensures
            res.wf(),
            res@ == (WpsView { notify, slots: Slots::empty() }),
    {
        let mut polls: Vec<S> = Vec::new();
        polls.push(notify);
        let mut polls_keys: Vec<HashKey> = Vec::new();
        polls_keys.push(HashKey::new(0, false));
        Wps { polls, wp_data: HashMap::new(), polls_keys, cleanup_buffer: Vec::new() }
    }

    /// The commands to call the kernel with.
    pub fn polls(&self) -> (res: &Vec<S>)
        requires
            self.wf(),
        ensures
            res@ == self@.commands(),
    {
        proof {
            assert(self.polls@ =~= self@.commands()) by {
                assert forall|i: int| 1 <= i < self.polls@.len() implies self.polls@[i]
                    == #[trigger] self@.commands()[i] by {
                    self.lemma_slot(i - 1);
                }
            }
        }
        &self.polls
    }

    /// Adds a waitpoint at the end of the list. Of `data`, the index and the key of the
    /// object are set here, whatever they were.
    pub fn push_item(&mut self, source: &BorrowedTwizzlerWaitable, data: WpData, sleep: S)
        requires
            old(self).wf(),
            HashKey::fits(source@),
            !old(self)@.slots.has(HashKey::id_of(source@, data.write)),
        ensures
            final(self).wf(),
            final(self)@.notify == old(self)@.notify,
            final(self)@.slots == old(self)@.slots.push(
                (Slot {
                    source: source@,
                    write: data.write,
                    key: data.key,
                    remove: data.remove,
                    sleep,
                }),
            ),
    {
        let ghost before = *self;
        // Push onto the polls list, and update meta data.
        let index: usize = self.polls.len();
        let mut data = data;
        data.poll_wps_index = index;
        data.bw_key = source.key();
        let hash_key = data.hash_key();
        proof {
            self.lemma_lookup(hash_key@ as usize);
        }
        self.polls.push(sleep);
        self.polls_keys.push(hash_key);
        self.wp_data.insert(hash_key.raw(), data);
        // Reserve space for cleanup, if necessary.
        let capacity: usize = vec_capacity(&self.cleanup_buffer);
        if capacity < self.polls.len() {
            self.cleanup_buffer.reserve(self.polls.len());
        }
        proof {
            assert(forall|i: int|
                0 <= i < before.polls_keys@.len() ==> #[trigger] self.polls_keys@[i]
                    == before.polls_keys@[i]);
            assert forall|i: int| 1 <= i < before.polls_keys@.len() implies self.slot(i)
                == before.slot(i) by {
                assert(before.wp_data@.contains_key(before.polls_keys@[i]@ as usize));
            }
            let slot = Slot {
                source: source@,
                write: data.write,
                key: data.key,
                remove: data.remove,
                sleep,
            };
            assert(self@.slots.seq =~= before@.slots.push(slot).seq);
        }
    }

    /// Removes the waitpoint of one direction of an object, if there is one.
    pub fn remove_item_dir(&mut self, source: &BorrowedTwizzlerWaitable, write: bool)
        requires
            old(self).wf(),
            HashKey::fits(source@),
        ensures
            final(self).wf(),
            final(self)@.notify == old(self)@.notify,
            final(self)@.slots == old(self)@.slots.remove(HashKey::id_of(source@, write)),
    {
        self.remove_item_key(&HashKey::new(source.key(), write));
    }

    /// Removes the waitpoint with this key, if there is one. The last waitpoint
    /// takes its place in the list.
    pub fn remove_item_key(&mut self, key: &HashKey)
        requires
            old(self).wf(),
        ensures
            final(self).wf(),
            final(self)@.notify == old(self)@.notify,
            final(self)@.slots == old(self)@.slots.remove(key@),
    {
        let ghost before = *self;
        let raw: usize = key.raw();
        proof {
            self.lemma_lookup(raw);
        }
        if let Some(data) = self.wp_data.remove(&raw) {
            let last: usize = self.polls_keys.len() - 1;
            let swapped_key = self.polls_keys[last];
            self.polls.swap_remove(data.poll_wps_index);
            self.polls_keys.swap_remove(data.poll_wps_index);

            let swapped_raw: usize = swapped_key.raw();
            if let Some(swapped_data) = self.wp_data.get(&swapped_raw) {
                let mut swapped_data = *swapped_data;
                swapped_data.poll_wps_index = data.poll_wps_index;
                self.wp_data.insert(swapped_raw, swapped_data);
            }
            proof {
                let at = data.poll_wps_index as int;
                let from = |i: int|
                    if i == at {
                        last as int
                    } else {
                        i
                    };
                assert(forall|i: int|
                    0 <= i < self.polls_keys@.len() ==> #[trigger] self.polls_keys@[i]
                        == before.polls_keys@[from(i)]);
                assert forall|i: int| 1 <= i < self.polls_keys@.len() implies {
                    let k = (#[trigger] self.polls_keys@[i])@ as usize;
                    &&& self.wp_data@.contains_key(k)
                    &&& self.wp_data@[k].poll_wps_index == i
                    &&& self.slot(i) == before.slot(from(i))
                } by {
                    let k = before.polls_keys@[from(i)]@ as usize;
                    assert(before.wp_data@.contains_key(k));
                    assert(before.wp_data@[k].poll_wps_index == from(i));
                    assert(k != raw);
                }
                assert forall|k: usize| #[trigger] self.wp_data@.contains_key(k) implies {
                    let data = self.wp_data@[k];
                    &&& 1 <= data.poll_wps_index < self.polls_keys@.len()
                    &&& self.polls_keys@[data.poll_wps_index as int]@ == k
                    &&& HashKey::fits(data.bw_key)
                    &&& data.id() == k
                } by {
                    assert(before.wp_data@.contains_key(k) && k != raw);
                    let index = before.wp_data@[k].poll_wps_index as int;
                    assert(before.polls_keys@[index]@ == k);
                    assert(before.polls_keys@[at]@ == raw);
                    if index == last {
                        assert(self.polls_keys@[at] == before.polls_keys@[from(at)]);
                    } else {
                        assert(self.polls_keys@[index] == before.polls_keys@[from(index)]);
                        assert(k != swapped_raw);
                    }
                }
                let removed = before@.slots.remove(key@);
                assert forall|i: int| 0 <= i < removed.seq.len() implies self@.slots.seq[i]
                    == #[trigger] removed.seq[i] by {
                    assert(self.polls_keys@[i + 1] == before.polls_keys@[from(i + 1)]);
                    assert(self.slot(i + 1) == before.slot(from(i + 1)));
                }
                assert(self@.slots.seq =~= removed.seq);
            }
        } else {
            assert(self.wp_data@ =~= before.wp_data@);
            assert(self@.slots.seq =~= before@.slots.seq);
        }
    }

    /// Tells whether a new waitable object can be added.
    pub fn check_add(&self, wp: &BorrowedTwizzlerWaitable, ev: Event, mode: PollMode) -> (res:
        Result<(), Error>)
        requires
            self.wf(),
            ev.readable || ev.writable ==> HashKey::fits(wp@),
        ensures
            res == self@.slots.add_result(wp@, ev, mode),
    {
        // Don't add twice.
        if ev.writable && self.has_item(wp, true) || ev.readable && self.has_item(wp, false) {
            return Err(Error::AlreadyExists);
        }
        if ev.readable || ev.writable {
            if let Err(error) = cvt_mode_as_remove(mode) {
                return Err(error);
            }
        }
        Ok(())
    }

    /// Adds a new waitable object. `items` holds the command of each requested
    /// direction. Nothing changes where the request is refused.
    pub fn add(
        &mut self,
        wp: &BorrowedTwizzlerWaitable,
        items: WaitItems<S>,
        ev: Event,
        mode: PollMode,
    ) -> (res: Result<(), Error>)
        requires
            old(self).wf(),
            ev.readable || ev.writable ==> HashKey::fits(wp@),
            old(self)@.slots.add_result(wp@, ev, mode) is Ok ==> items.covers(ev),
        ensures
            final(self).wf(),
            res == old(self)@.slots.add_result(wp@, ev, mode),
            final(self)@ == (WpsView {
                slots: old(self)@.slots.add(wp@, items, ev, mode),
                ..old(self)@
            }),
    {
        let ghost before = *self;
        if let Err(error) = self.check_add(wp, ev, mode) {
            return Err(error);
        }
        let remove: bool = match cvt_mode_as_remove(mode) {
            Ok(remove) => remove,
            // No direction is requested.
            Err(_) => false,
        };
        if ev.readable {
            self.push_item(
                wp,
                WpData {
                    key: ev.key,
                    remove,
                    write: false,
                    // These get set in push.
                    poll_wps_index: 0,
                    bw_key: 0,
                },
                items.read.unwrap(),
            );
        }
        if ev.writable {
            proof {
                let id = HashKey::id_of(wp@, true);
                if self@.slots.has(id) {
                    let i = self@.slots.find(id);
                    self@.slots.lemma_found(id);
                    assert(before@.slots.seq[i].id() == id);
                }
            }
            self.push_item(
                wp,
                WpData {
                    key: ev.key,
                    remove,
                    write: true,
                    // These get set in push.
                    poll_wps_index: 0,
                    bw_key: 0,
                },
                items.write.unwrap(),
            );
        }
        Ok(())
    }

    /// Whether one direction of an object has a waitpoint.
    fn has_item(&self, source: &BorrowedTwizzlerWaitable, write: bool) -> (res: bool)
        requires
            self.wf(),
            HashKey::fits(source@),
        ensures
            res == self@.slots.has(HashKey::id_of(source@, write)),
    {
        let raw: usize = HashKey::new(source.key(), write).raw();
        proof {
            self.lemma_lookup(raw);
        }
        self.wp_data.contains_key(&raw)
    }

    /// Starts or stops to wait for one direction of an object.
    fn set_interest(
        &mut self,
        source: &BorrowedTwizzlerWaitable,
        write: bool,
        interested: bool,
        key: usize,
        mode: PollMode,
        sleep: Option<S>,
    ) -> (res: Result<(), Error>)
        requires
            old(self).wf(),
            HashKey::fits(source@),
            interested && mode.removes() is Some ==> sleep is Some,
        ensures
            final(self).wf(),
            res == if interested && mode.removes() is None {
                Err::<(), Error>(Error::Unsupported)
            } else {
                Ok(())
            },
            final(self)@ == (WpsView {
                slots: old(self)@.slots.set_interest(source@, write, interested, key, mode, sleep),
                ..old(self)@
            }),
    {
        if !interested {
            self.remove_item_dir(source, write);
            return Ok(());
        }
        let ghost before = *self;
        let raw: usize = HashKey::new(source.key(), write).raw();
        proof {
            self.lemma_lookup(raw);
        }
        if let Some(data) = self.wp_data.get(&raw) {
            let mut data = *data;
            data.key = key;
            let res = match cvt_mode_as_remove(mode) {
                Ok(remove) => {
                    data.remove = remove;
                    self.polls[data.poll_wps_index] = sleep.unwrap();
                    Ok(())
                },
                Err(error) => Err(error),
            };
            self.wp_data.insert(raw, data);
            proof {
                let slots = before@.slots.set_interest(
                    source@,
                    write,
                    interested,
                    key,
                    mode,
                    sleep,
                );
                let at = data.poll_wps_index as int;
                assert(slots.seq.len() == before@.slots.seq.len());
                assert forall|i: int| 0 <= i < slots.seq.len() implies self@.slots.seq[i]
                    == #[trigger] slots.seq[i] by {
                    before.lemma_slot(i);
                    assert(self@.slots.seq[i] == self.slot(i + 1));
                    if i + 1 != at {
                        assert(before.wp_data@[before.polls_keys@[i + 1]@ as usize].poll_wps_index
                            == i + 1);
                        assert(self.slot(i + 1) == before.slot(i + 1));
                    }
                }
                assert(self@.slots.seq =~= slots.seq);
            }
            res
        } else {
            match cvt_mode_as_remove(mode) {
                Ok(remove) => {
                    self.push_item(
                        source,
                        WpData {
                            key,
                            remove,
                            write,
                            // These get set in push.
                            poll_wps_index: 0,
                            bw_key: 0,
                        },
                        sleep.unwrap(),
                    );
                    Ok(())
                },
                Err(error) => Err(error),
            }
        }
    }

    /// Modifies an existing waitable object. `items` holds the command of each requested
    /// direction, unless the request is refused.
    pub fn modify(
        &mut self,
        source: &BorrowedTwizzlerWaitable,
        items: WaitItems<S>,
        ev: Event,
        mode: PollMode,
    ) -> (res: Result<(), Error>)
        requires
            old(self).wf(),
            HashKey::fits(source@),
            Slots::<S>::modify_result(ev, mode) is Ok ==> items.covers(ev),
        ensures
            final(self).wf(),
            res == Slots::<S>::modify_result(ev, mode),
            final(self)@ == (WpsView {
                slots: old(self)@.slots.modify(source@, items, ev, mode),
                ..old(self)@
            }),
    {
        // If we're interested, make sure we've got it registered. Otherwise, remove anything
        // present.
        match self.set_interest(source, false, ev.readable, ev.key, mode, items.read) {
            Ok(()) => self.set_interest(source, true, ev.writable, ev.key, mode, items.write),
            Err(error) => Err(error),
        }
    }

    /// Deletes a waitable object.
    pub fn delete(&mut self, source: &BorrowedTwizzlerWaitable)
        requires
            old(self).wf(),
            HashKey::fits(source@),
        ensures
            final(self).wf(),
            final(self)@ == (WpsView { slots: old(self)@.slots.delete(source@), ..old(self)@ }),
    {
        self.remove_item_dir(source, false);
        self.remove_item_dir(source, true);
    }

    /// The keys of the waitpoints, in the order in which the hash map walks them.
    /// Nothing is promised of that order.
    pub fn walk(&self) -> (order: Vec<HashKey>)
        requires
            self.wf(),
        ensures
            self@.slots.is_walk(HashKey::numbers(order@)),
    {
        let mut order: Vec<HashKey> = Vec::new();
        let ghost keys = vstd::std_specs::iter::IteratorSpec::remaining(
            &vstd::std_specs::hash::spec_keys_iter(&self.wp_data),
        ).unref();
        for k in it: self.wp_data.keys()
            invariant
                it.seq().unref() == keys,
                order@.len() == it.index(),
                forall|j: int| 0 <= j < it.index() ==> (#[trigger] order@[j])@ == keys[j],
        {
            order.push(HashKey::from_raw(*k));
        }
        proof {
            let numbers = HashKey::numbers(order@);
            assert(order@.len() == keys.len());
            assert forall|id: int| #[trigger] numbers.contains(id) <==> self@.slots.has(id) by {
                if numbers.contains(id) {
                    let j = numbers.index_of(id);
                    assert(order@[j]@ == keys[j]);
                    assert(keys.to_set().contains(keys[j]));
                    self.lemma_lookup(keys[j]);
                }
                if self@.slots.has(id) {
                    let i = self@.slots.find(id);
                    self@.slots.lemma_found(id);
                    self.lemma_slot(i);
                    let k = id as usize;
                    self.lemma_lookup(k);
                    assert(keys.to_set().contains(k));
                    let j = keys.index_of(k);
                    assert(order@[j]@ == keys[j]);
                    assert(numbers[j] == id);
                }
            }
            assert(keys.no_duplicates());
            assert(numbers.no_duplicates());
        }
        order
    }

    /// Lists that differ in nothing but what is left to clean up have the same state.
    proof fn lemma_same(&self, other: &Wps<S>)
        requires
            self.polls@ == other.polls@,
            self.wp_data@ == other.wp_data@,
            self.polls_keys@ == other.polls_keys@,
        ensures
            self@ == other@,
            self.inv() == other.inv(),
    {
        assert(self@.slots.seq =~= other@.slots.seq);
    }

    /// Stores an event for each waitpoint that was found ready, in the order of
    /// `order`, and then removes those that are to be reported once.
    ///
    /// `ready` tells of each command, in the order of `polls`, whether it was found ready.
    pub fn collect_in_order(
        &mut self,
        ready: &Vec<bool>,
        order: &Vec<HashKey>,
        events: &mut Events,
    )
        requires
            old(self).wf(),
            ready@.len() == old(self)@.commands().len(),
        ensures
            final(self).wf(),
            final(events)@ == old(events)@ + old(self)@.slots.reported(
                ready@,
                HashKey::numbers(order@),
            ),
            final(self)@ == (WpsView {
                slots: old(self)@.slots.collect(ready@, HashKey::numbers(order@)),
                ..old(self)@
            }),
    {
        let ghost before = *self;
        let ghost slots = self@.slots;
        let ghost numbers = HashKey::numbers(order@);
        let ghost report = slots.report(ready@);
        let ghost is_spent = |id: int| slots.is_spent(ready@, id);
        let ghost old_events = events@;

        // Store the events if there were any.
        let mut i: usize = 0;
        proof {
            assert(numbers.take(0) =~= Seq::<int>::empty());
            reveal(Seq::filter);
            assert(old_events + numbers.take(0).filter_map(report) =~= old_events);
        }
        while i < order.len()
            invariant
                i <= order.len(),
                before.wf(),
                slots == before@.slots,
                self.polls@ == before.polls@,
                self.wp_data@ == before.wp_data@,
                self.polls_keys@ == before.polls_keys@,
                ready@.len() == self.polls@.len(),
                numbers == HashKey::numbers(order@),
                report == slots.report(ready@),
                is_spent == (|id: int| slots.is_spent(ready@, id)),
                events@ == old_events + numbers.take(i as int).filter_map(report),
                HashKey::numbers(self.cleanup_buffer@) == numbers.take(i as int).filter(is_spent),
            decreases order.len() - i,
        {
            let hash_key = order[i];
            let raw: usize = hash_key.raw();
            proof {
                before.lemma_lookup(raw);
                numbers.lemma_filter_map_take_succ(report, i as int);
                assert(numbers.take(i + 1).drop_last() =~= numbers.take(i as int));
                reveal(Seq::filter);
            }
            if let Some(wp_data) = self.wp_data.get(&raw) {
                if ready[wp_data.poll_wps_index] {
                    // Store event
                    events.push(
                        Event {
                            key: wp_data.key,
                            readable: !wp_data.write,
                            writable: wp_data.write,
                            extra: EventExtra::of_direction(wp_data.write),
                        },
                    );
                    // Remove interest if necessary
                    if wp_data.remove {
                        self.cleanup_buffer.push(wp_data.hash_key());
                    }
                }
            }
            i = i + 1;
        }
        proof {
            assert(numbers.take(order@.len() as int) =~= numbers);
        }

        let ghost spent = slots.spent(ready@, numbers);
        let mut cleanup: Vec<HashKey> = Vec::new();
        core::mem::swap(&mut cleanup, &mut self.cleanup_buffer);
        let mut j: usize = 0;
        proof {
            self.lemma_same(&before);
            assert(spent.take(0) =~= Seq::<int>::empty());
        }
        while j < cleanup.len()
            invariant
                j <= cleanup.len(),
                self.wf(),
                self@.notify == before@.notify,
                self@.slots == slots.remove_all(spent.take(j as int)),
                HashKey::numbers(cleanup@) == spent,
            decreases cleanup.len() - j,
        {
            let hash_key = cleanup[j];
            self.remove_item_key(&hash_key);
            proof {
                assert(HashKey::numbers(cleanup@)[j as int] == hash_key@);
                assert(spent.take(j + 1).drop_last() =~= spent.take(j as int));
            }
            j = j + 1;
        }
        proof {
            assert(spent.take(cleanup@.len() as int) =~= spent);
        }
        // Keep the buffer, for the room that it has.
        let ghost cleaned = *self;
        cleanup.clear();
        self.cleanup_buffer = cleanup;
        proof {
            self.lemma_same(&cleaned);
        }
    }

    /// Stores an event for each waitpoint that was found ready, in no promised
    /// order, and then removes those that are to be reported once.
    ///
    /// `ready` tells of each command, in the order of `polls`, whether it was found ready.
    pub fn collect(&mut self, ready: &Vec<bool>, events: &mut Events)
        requires
            old(self).wf(),
            ready@.len() == old(self)@.commands().len(),
        ensures
            final(self).wf(),
            final(self)@.notify == old(self)@.notify,
            final(events)@.len() >= old(events)@.len(),
            final(events)@.take(old(events)@.len() as int) == old(events)@,
            old(self)@.slots.collected(
                ready@,
                final(events)@.skip(old(events)@.len() as int),
                final(self)@.slots,
            ),
    {
        let ghost old_events = events@;
        let order = self.walk();
        self.collect_in_order(ready, &order, events);
        proof {
            assert(events@.take(old_events.len() as int) =~= old_events);
            assert(events@.skip(old_events.len() as int) =~= old(self)@.slots.reported(
                ready@,
                HashKey::numbers(order@),
            ));
        }
    }

    /// Carries out an operation.
    pub fn apply(&mut self, op: Operation<'_, S>) -> (res: Result<(), Error>)
        requires
            old(self).wf(),
            op.fits(),
            op.is_covered(old(self)@.slots),
        ensures
            final(self).wf(),
            res == op.result(old(self)@.slots),
            final(self)@ == (WpsView { slots: op.after(old(self)@.slots), ..old(self)@ }),
    {
        match op {
            Operation::Add { wp, items, ev, mode } => self.add(wp, items, ev, mode),
            Operation::Modify { source, items, ev, mode } => self.modify(source, items, ev, mode),
            Operation::Delete { source } => {
                self.delete(source);
                Ok(())
            },
        }
    }

    /// No direction has two waitpoints.
    pub proof fn waitpoints_are_distinct(&self)
        requires
            self.wf(),
        ensures
            self@.slots.distinct(),
            forall|i: int, j: int|
                0 <= i < j < self@.slots.seq.len() ==> (
                #[trigger] self@.slots.seq[i]).source != (#[trigger] self@.slots.seq[j]).source
                    || self@.slots.seq[i].write != self@.slots.seq[j].write,
    {
        self.lemma_distinct();
        let slots = self@.slots;
        assert forall|i: int, j: int| 0 <= i < j < slots.seq.len() implies (
        #[trigger] slots.seq[i]).source != (#[trigger] slots.seq[j]).source || slots.seq[i].write
            != slots.seq[j].write by {
            assert(slots.seq[i].id() != slots.seq[j].id());
        }
    }

    /// The list of commands, for the kernel to leave its results in. The commands
    /// may change, and nothing else: a slice keeps its length.
    pub fn polls_mut(&mut self) -> (res: &mut [S])
        requires
            old(self).wf(),
        ensures
            res@ == old(self)@.commands(),
            final(res)@.len() == res@.len() ==> final(self).wf(),
            final(res)@.len() == res@.len() ==> final(self)@ == old(self)@.with_commands(
                final(res)@,
            ),
    {
        self.polls.as_mut_slice()
    }
}

/// An operation does what the request of the same name does, and can be carried out where
/// that one can.
pub proof fn an_operation_is_the_request_it_names<S>(
    slots: Slots<S>,
    wp: &BorrowedTwizzlerWaitable,
    items: WaitItems<S>,
    ev: Event,
    mode: PollMode,
)
    ensures
        ({
            let add = Operation::Add { wp, items, ev, mode };
            let covered = (ev.readable ==> items.read is Some) && (ev.writable
                ==> items.write is Some);
            &&& add.after(slots) == slots.add(wp@, items, ev, mode)
            &&& add.result(slots) == slots.add_result(wp@, ev, mode)
            &&& !ev.readable && !ev.writable || wp@ <= usize::MAX / 2 <==> add.fits()
            &&& slots.add_result(wp@, ev, mode) is Err || covered <==> add.is_covered(slots)
            &&& covered <==> items.covers(ev)
        }),
        ({
            let modify = Operation::Modify { source: wp, items, ev, mode };
            let covered = (ev.readable ==> items.read is Some) && (ev.writable
                ==> items.write is Some);
            &&& modify.after(slots) == slots.modify(wp@, items, ev, mode)
            &&& modify.result(slots) == Slots::<S>::modify_result(ev, mode)
            &&& wp@ <= usize::MAX / 2 <==> modify.fits()
            &&& Slots::<S>::modify_result(ev, mode) is Err || covered <==> modify.is_covered(slots)
        }),
        ({
            let delete: Operation<'_, S> = Operation::Delete { source: wp };
            &&& delete.after(slots) == slots.delete(wp@)
            &&& delete.result(slots) == Ok::<(), Error>(())
            &&& wp@ <= usize::MAX / 2 <==> delete.fits()
            &&& delete.is_covered(slots)
        }),
{
}

} // verus!
