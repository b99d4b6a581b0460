//! The poller: its waitpoints, and the signals to whoever waits for them.

use vstd::prelude::*;

use crate::error::Error;
use crate::event::{Event, Events, PollMode};
use crate::hash_key::HashKey;
use crate::ids::BorrowedTwizzlerWaitable;
use crate::notify::Notify;
use crate::signals::{Signals, SignalsView, WaitStep};
use crate::slots::{Slots, WaitItems};
use crate::wps::{Operation, Wps, WpsView};

verus! {

/// Interface to the kernel's thread sync. `S` is the command by which the kernel waits.
///
/// A poller in one hand: each method runs from its start to its end with no other
/// thread in between. Threads that share a poller share its two parts.
#[derive(Debug)]
pub struct Poller<S> {
    /// Pollable objects.
    wps: Wps<S>,
    /// The signals to whoever waits.
    signals: Signals,
}

/// The state of a [`Poller`].
#[verifier::ext_equal]
pub struct PollerView<S> {
    pub wps: WpsView<S>,
    pub signals: SignalsView,
}

impl<S> View for Poller<S> {
    type V = PollerView<S>;

    closed spec fn view(&self) -> PollerView<S> {
        PollerView { wps: self.wps@, signals: self.signals@ }
    }
}

impl<S> PollerView<S> {
    /// The state after an operation that makes `slots` of what the poller waits for.
    pub open spec fn after_operation(self, slots: Slots<S>) -> PollerView<S> {
        PollerView {
            wps: WpsView { slots, ..self.wps },
            signals: self.signals.operation(),
        }
    }
}

impl<S> Poller<S> {
    /// The waitpoints are in order.
    pub closed spec fn wf(&self) -> bool {
        self.wps.wf()
    }

    /// No direction has two waitpoints.
    pub proof fn waitpoints_are_distinct(&self)
        requires
            self.wf(),
        ensures
            self@.wps.slots.distinct(),
            forall|i: int, j: int|
                0 <= i < j < self@.wps.slots.seq.len() ==> (
                #[trigger] self@.wps.slots.seq[i]).source != (
                #[trigger] self@.wps.slots.seq[j]).source || self@.wps.slots.seq[i].write
                    != self@.wps.slots.seq[j].write,
    {
        self.wps.waitpoints_are_distinct();
    }

    /// Creates a new poller, with the command by which the kernel sleeps on the
    /// notification word (see [`Notify::wait_item_read`]).
    pub fn new(sleep: S) -> (res: Result<Self, Error>)
        ensures
            res is Ok,
            res->Ok_0.wf(),
            res->Ok_0@ == (PollerView {
                wps: WpsView { notify: sleep, slots: Slots::empty() },
                signals: SignalsView::init(),
            }),
    {
        match Signals::new() {
            Ok(signals) => Ok(Poller { wps: Wps::new(sleep), signals }),
            Err(error) => Err(error),
        }
    }

    /// Whether this poller supports level-triggered events.
    pub fn supports_level(&self) -> (res: bool)
        ensures
            res,
            res == PollMode::Level.removes() is Some,
    {
        true
    }

    /// Whether the poller supports edge-triggered events.
    pub fn supports_edge(&self) -> (res: bool)
        ensures
            !res,
            res == PollMode::Edge.removes() is Some,
            res == PollMode::EdgeOneshot.removes() is Some,
    {
        false
    }

    /// The commands to call the kernel with.
    pub fn polls(&self) -> (res: &Vec<S>)
        requires
            self.wf(),
        ensures
            res@ == self@.wps.commands(),
    {
        self.wps.polls()
    }

    /// Adds a new waitable object. `items` holds the command of each requested
    /// direction, unless the request is refused.
    pub fn add(
        &mut self,
        wp: &BorrowedTwizzlerWaitable,
        items: WaitItems<S>,
        ev: Event,
        mode: PollMode,
    ) -> (res: Result<(), Error>)
        requires
            old(self).wf(),
            ev.readable || ev.writable ==> HashKey::fits(wp@),
            old(self)@.wps.slots.add_result(wp@, ev, mode) is Ok ==> items.covers(ev),
        ensures
            final(self).wf(),
            res == old(self)@.wps.slots.add_result(wp@, ev, mode),
            final(self)@ == old(self)@.after_operation(
                old(self)@.wps.slots.add(wp@, items, ev, mode),
            ),
    {
        self.modify_wps(Operation::Add { wp, items, ev, mode })
    }

    /// Modifies an existing waitable object. `items` holds the command of each
    /// requested direction, unless the request is refused.
    pub fn modify(
        &mut self,
        source: &BorrowedTwizzlerWaitable,
        items: WaitItems<S>,
        ev: Event,
        mode: PollMode,
    ) -> (res: Result<(), Error>)
        requires
            old(self).wf(),
            HashKey::fits(source@),
            Slots::<S>::modify_result(ev, mode) is Ok ==> items.covers(ev),
        ensures
            final(self).wf(),
            res == Slots::<S>::modify_result(ev, mode),
            final(self)@ == old(self)@.after_operation(
                old(self)@.wps.slots.modify(source@, items, ev, mode),
            ),
    {
        self.modify_wps(Operation::Modify { source, items, ev, mode })
    }

    /// Deletes a waitable object.
    pub fn delete(&mut self, source: &BorrowedTwizzlerWaitable) -> (res: Result<(), Error>)
        requires
            old(self).wf(),
            HashKey::fits(source@),
        ensures
            final(self).wf(),
            res == Ok::<(), Error>(()),
            final(self)@ == old(self)@.after_operation(old(self)@.wps.slots.delete(source@)),
    {
        self.modify_wps(Operation::Delete { source })
    }

    /// Perform a modification on the waitpoints, interrupting the current caller
    /// of `wait` if it's running.
    fn modify_wps(&mut self, op: Operation<'_, S>) -> (res: Result<(), Error>)
        requires
            old(self).wf(),
            op.fits(),
            op.is_covered(old(self)@.wps.slots),
        ensures
            final(self).wf(),
            res == op.result(old(self)@.wps.slots),
            final(self)@ == old(self)@.after_operation(op.after(old(self)@.wps.slots)),
    {
        let sent = self.signals.begin_operation();
        self.signals.enter_operation(sent);
        let res = self.wps.apply(op);
        let _ = self.signals.end_operation();
        res
    }

    /// Waits for I/O events. `ready` tells of each command, in the order of
    /// `polls`, whether the kernel finds it ready when it is asked.
    ///
    /// Returns nothing where the thread has to let waiting operations go first,
    /// and then wait again.
    pub fn wait(&mut self, events: &mut Events, ready: &Vec<bool>) -> (res: Option<
        Result<(), Error>,
    >)
        requires
            old(self).wf(),
            ready@.len() == old(self)@.wps.commands().len(),
        ensures
            final(self).wf(),
            match old(self)@.signals.wait_step() {
                WaitStep::Return(result) => {
                    &&& res == Some(result)
                    &&& final(events)@ == Seq::<Event>::empty()
                    &&& final(self)@ == (PollerView {
                        signals: old(self)@.signals.after_wait_step(),
                        ..old(self)@
                    })
                },
                WaitStep::Suspend => {
                    &&& res is None
                    &&& final(events)@ == Seq::<Event>::empty()
                    &&& final(self)@ == old(self)@
                },
                WaitStep::Poll => {
                    &&& res == Some(Ok::<(), Error>(()))
                    &&& final(self)@.signals == old(self)@.signals.after_poll(ready@[0])
                    &&& final(self)@.wps.notify == old(self)@.wps.notify
                    &&& old(self)@.wps.slots.collected(
                        ready@,
                        final(events)@,
                        final(self)@.wps.slots,
                    )
                    &&& final(events)@.to_multiset() == old(self)@.wps.slots.ready_events(
                        ready@,
                    ).to_multiset()
                    &&& final(self)@.wps.slots.registered() == old(self)@.wps.slots.unspent(ready@)
                },
            },
    {
        events.clear();
        match self.signals.wait_step() {
            WaitStep::Return(result) => Some(result),
            WaitStep::Suspend => None,
            WaitStep::Poll => {
                let res = self.signals.after_poll(ready[0]);
                self.wps.collect(ready, events);
                proof {
                    let slots = old(self)@.wps.slots;
                    old(self).wps.waitpoints_are_distinct();
                    assert(events@.skip(0) =~= events@);
                    crate::laws::every_ready_direction_is_reported_once(
                        slots,
                        ready@,
                        events@,
                        self.wps@.slots,
                    );
                    crate::laws::only_spent_directions_are_dropped(
                        slots,
                        ready@,
                        events@,
                        self.wps@.slots,
                    );
                }
                Some(res)
            },
        }
    }

    /// Sends a notification to wake up the current or next `wait()` call.
    pub fn notify(&mut self) -> (res: Result<(), Error>)
        ensures
            old(self).wf() ==> final(self).wf(),
            final(self)@ == (PollerView { signals: old(self)@.signals.notify(), ..old(self)@ }),
            res == Notify::done_or_would_block(
                old(self)@.signals.notified || Notify::can_notify(old(self)@.signals.event),
            ),
    {
        match self.signals.notify() {
            Ok(_) => Ok(()),
            Err(error) => Err(error),
        }
    }
}

/// An operation changes what the poller waits for, and nothing else that lasts: the command
/// on the notification word, the operations that wait and the request of the user stay. The
/// word is empty after it, unless it was full.
pub proof fn an_operation_changes_only_the_slots<S>(poller: PollerView<S>, slots: Slots<S>)
    ensures
        ({
            let after = poller.after_operation(slots);
            &&& after.wps.slots == slots
            &&& after.wps.notify == poller.wps.notify
            &&& after.signals.waiting_operations == poller.signals.waiting_operations
            &&& after.signals.notified == poller.signals.notified
            &&& poller.signals.event < u64::MAX ==> after.signals.event == 0
            &&& poller.signals.event == u64::MAX ==> after.signals.event == u64::MAX
        }),
{
}

} // verus!
