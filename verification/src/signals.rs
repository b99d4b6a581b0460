//! What the threads that share a poller tell each other.

use vstd::prelude::*;

use crate::error::Error;
use crate::notify::{Notify, WaitItem};

verus! {

/// The signals between the threads that share a poller. Each method is one
/// step of a thread, to be made while no other thread makes one.
#[derive(Debug)]
pub struct Signals {
    /// Notification for waking up the poller.
    notify: Notify,
    /// The number of operations (`add`, `modify` or `delete`) that wait for the
    /// poller to become free. While it is not zero, `wait` is suspended.
    waiting_operations: usize,
    /// Whether `wait` has been notified by the user.
    notified: bool,
}

/// The state of [`Signals`].
pub struct SignalsView {
    pub event: u64,
    pub waiting_operations: usize,
    pub notified: bool,
}

/// What a thread in `wait` does next.
#[derive(Clone, Copy, Debug, PartialEq, Eq)]
pub enum WaitStep {
    /// The user asked for the thread to return, with this result.
    Return(Result<(), Error>),
    /// The thread sleeps in the kernel.
    Poll,
    /// The thread lets the waiting operations go first.
    Suspend,
}

/// A step that a thread makes on the signals.
pub enum SignalStep {
    /// An operation starts to wait for the poller.
    Begin,
    /// An operation that sent a notification, or did not, got hold of the poller.
    Enter(bool),
    /// An operation is done with the poller.
    End,
    /// The user asks for the current or next `wait` to return.
    Notify,
    /// A thread in `wait` asks what to do next.
    Wait,
    /// A thread in `wait` returns from the kernel, which found the notification
    /// word ready or not.
    Polled(bool),
}

impl SignalsView {
    /// The signals after one step.
    pub open spec fn step(self, step: SignalStep) -> SignalsView {
        match step {
            SignalStep::Begin => self.begin_operation(),
            SignalStep::Enter(sent) => self.enter_operation(sent),
            SignalStep::End => self.end_operation(),
            SignalStep::Notify => self.notify(),
            SignalStep::Wait => self.after_wait_step(),
            SignalStep::Polled(woken) => self.after_poll(woken),
        }
    }

    /// The signals after the steps of any number of threads, one after the other.
    pub open spec fn run(self, steps: Seq<SignalStep>) -> SignalsView
        decreases steps.len(),
    {
        if steps.len() == 0 {
            self
        } else {
            self.run(steps.drop_last()).step(steps.last())
        }
    }

    /// The number of operations that began and did not end.
    pub open spec fn under_way(steps: Seq<SignalStep>) -> int
        decreases steps.len(),
    {
        if steps.len() == 0 {
            0
        } else {
            SignalsView::under_way(steps.drop_last()) + match steps.last() {
                SignalStep::Begin => 1int,
                SignalStep::End => -1int,
                _ => 0int,
            }
        }
    }

    /// The count after an increment, which wraps around.
    pub open spec fn wrapping_inc(count: usize) -> usize {
        if count == usize::MAX {
            0
        } else {
            (count + 1) as usize
        }
    }

    /// The count after a decrement, which wraps around.
    pub open spec fn wrapping_dec(count: usize) -> usize {
        if count == 0 {
            usize::MAX
        } else {
            (count - 1) as usize
        }
    }

    /// The signals of a poller that nobody uses yet.
    pub open spec fn init() -> SignalsView {
        SignalsView { event: 0, waiting_operations: 0, notified: false }
    }

    /// One more operation waits, and wakes the thread in `wait`.
    pub open spec fn begin_operation(self) -> SignalsView {
        SignalsView {
            event: Notify::after_notify(self.event),
            waiting_operations: SignalsView::wrapping_inc(self.waiting_operations),
            ..self
        }
    }

    /// The operation that got hold of the poller takes back its notification, if it sent one.
    pub open spec fn enter_operation(self, sent: bool) -> SignalsView {
        SignalsView {
            event: if sent {
                0
            } else {
                self.event
            },
            ..self
        }
    }

    /// One operation less waits.
    pub open spec fn end_operation(self) -> SignalsView {
        SignalsView {
            waiting_operations: SignalsView::wrapping_dec(self.waiting_operations),
            ..self
        }
    }

    /// A whole operation, with no other step in between.
    pub open spec fn operation(self) -> SignalsView {
        self.begin_operation().enter_operation(Notify::can_notify(self.event)).end_operation()
    }

    /// The user asks for the current or next `wait` to return.
    pub open spec fn notify(self) -> SignalsView {
        if self.notified {
            self
        } else {
            SignalsView { event: Notify::after_notify(self.event), notified: true, ..self }
        }
    }

    /// What a thread in `wait` does next.
    pub open spec fn wait_step(self) -> WaitStep {
        if self.notified {
            WaitStep::Return(Notify::done_or_would_block(self.event != 0))
        } else if self.waiting_operations == 0 {
            WaitStep::Poll
        } else {
            WaitStep::Suspend
        }
    }

    /// A thread in `wait` has seen what to do next.
    pub open spec fn after_wait_step(self) -> SignalsView {
        if self.notified {
            SignalsView { event: 0, notified: false, ..self }
        } else {
            self
        }
    }

    /// A thread in `wait` returns from the kernel, which found the notification
    /// word ready or not. If it did, the thread takes all notifications with it, and
    /// the request of the user that it meets.
    pub open spec fn after_poll(self, woken: bool) -> SignalsView {
        if woken {
            SignalsView { event: 0, notified: false, ..self }
        } else {
            self
        }
    }
}

impl View for Signals {
    type V = SignalsView;

    closed spec fn view(&self) -> SignalsView {
        SignalsView {
            event: self.notify@,
            waiting_operations: self.waiting_operations,
            notified: self.notified,
        }
    }
}

impl Signals {
    /// Creates the signals of a new poller.
    pub fn new() -> (res: Result<Self, Error>)
        ensures
            res is Ok,
            res->Ok_0@ == SignalsView::init(),
    {
        match Notify::new() {
            Ok(notify) => Ok(Signals { notify, waiting_operations: 0, notified: false }),
            Err(error) => Err(error),
        }
    }

    /// The value of the notification word.
    pub fn event(&self) -> (res: u64)
        ensures
            res == self@.event,
    {
        self.notify.event()
    }

    /// The command by which the kernel sleeps until there is a notification in the word.
    pub fn wait_item_read(&self) -> (res: WaitItem)
        ensures
            res == (WaitItem { value: 0 }),
    {
        self.notify.wait_item_read()
    }

    /// The command by which the kernel sleeps until there is room in the word.
    pub fn wait_item_write(&self) -> (res: WaitItem)
        ensures
            res == (WaitItem { value: u64::MAX }),
    {
        self.notify.wait_item_write()
    }

    /// An operation starts to wait for the poller. Tells whether it sent a
    /// notification, so that whoever sleeps on the word has to be woken.
    pub fn begin_operation(&mut self) -> (sent: bool)
        ensures
            sent == Notify::can_notify(old(self)@.event),
            final(self)@ == old(self)@.begin_operation(),
    {
        self.waiting_operations = self.waiting_operations.wrapping_add(1);

        // Wake up the current caller of `wait` if there is one.
        self.notify.notify().is_ok()
    }

    /// An operation got hold of the poller.
    pub fn enter_operation(&mut self, sent: bool)
        ensures
            final(self)@ == old(self)@.enter_operation(sent),
    {
        // If there was no caller of `wait` our notification was not removed.
        if sent {
            let _ = self.notify.pop_notification();
        }
    }

    /// An operation is done with the poller. Tells whether it was the last one,
    /// so that a suspended `wait` has to be resumed.
    pub fn end_operation(&mut self) -> (last: bool)
        ensures
            last == (old(self)@.waiting_operations == 1),
            final(self)@ == old(self)@.end_operation(),
    {
        let before: usize = self.waiting_operations;
        self.waiting_operations = before.wrapping_sub(1);
        before == 1
    }

    /// The user asks for the current or next `wait` to return. Tells whether this
    /// is news, so that whoever sleeps or is suspended has to be woken.
    pub fn notify(&mut self) -> (res: Result<bool, Error>)
        ensures
            final(self)@ == old(self)@.notify(),
            res == if old(self)@.notified {
                Ok::<bool, Error>(false)
            } else if Notify::can_notify(old(self)@.event) {
                Ok(true)
            } else {
                Err(Error::WouldBlock)
            },
    {
        let before: bool = self.notified;
        self.notified = true;
        if !before {
            match self.notify.notify() {
                Ok(()) => Ok(true),
                Err(error) => Err(error),
            }
        } else {
            Ok(false)
        }
    }

    /// A thread in `wait` asks what to do next.
    pub fn wait_step(&mut self) -> (res: WaitStep)
        ensures
            res == old(self)@.wait_step(),
            final(self)@ == old(self)@.after_wait_step(),
    {
        let before: bool = self.notified;
        self.notified = false;
        if before {
            // `notify` will have sent a notification in case we were polling. We weren't,
            // so remove it.
            WaitStep::Return(self.notify.pop_notification())
        } else if self.waiting_operations == 0 {
            WaitStep::Poll
        } else {
            WaitStep::Suspend
        }
    }

    /// A thread in `wait` returns from the kernel, which found the notification
    /// word ready if `woken`.
    pub fn after_poll(&mut self, woken: bool) -> (res: Result<(), Error>)
        ensures
            res == Ok::<(), Error>(()),
            final(self)@ == old(self)@.after_poll(woken),
    {
        if woken {
            // Read all notifications.
            let _ = self.notify.pop_all_notifications();
            // A request of the user wakes the current or the next `wait`, not both.
            self.notified = false;
        }
        Ok(())
    }
}

/// While an operation waits and the user has asked for nothing, `wait` is suspended.
pub proof fn wait_is_suspended_while_operations_wait(signals: SignalsView)
    requires
        signals.waiting_operations != 0,
        !signals.notified,
    ensures
        signals.wait_step() == WaitStep::Suspend,
        signals.after_wait_step() == signals,
{
}

/// `wait` sleeps in the kernel only while no operation waits and the user has
/// asked for nothing.
pub proof fn wait_polls_only_when_undisturbed(signals: SignalsView)
    ensures
        signals.wait_step() == WaitStep::Poll <==> signals.waiting_operations == 0
            && !signals.notified,
{
}

/// The end of an operation undoes its beginning: the same operations wait as before,
/// and what the user asked for still stands.
pub proof fn end_undoes_begin(signals: SignalsView, sent: bool)
    ensures
        ({
            let after = signals.begin_operation().enter_operation(sent).end_operation();
            &&& after.waiting_operations == signals.waiting_operations
            &&& after.notified == signals.notified
        }),
{
}

/// An operation that meets no other leaves no notification behind, unless the
/// word was too full for it to send one.
pub proof fn operation_leaves_no_notification(signals: SignalsView)
    ensures
        signals.operation() == (SignalsView {
            event: if Notify::can_notify(signals.event) {
                0
            } else {
                u64::MAX
            },
            ..signals
        }),
{
}

/// An operation that starts to wait, and a request of the user that is news,
/// end the sleep on the notification word.
pub proof fn signals_end_the_sleep(signals: SignalsView)
    ensures
        !(WaitItem { value: 0 }).sleeps(signals.begin_operation().event),
        !signals.notified ==> !(WaitItem { value: 0 }).sleeps(signals.notify().event),
{
}

/// To ask for `wait` to return twice is to ask for it once.
pub proof fn notify_is_idempotent(signals: SignalsView)
    ensures
        signals.notify().notify() == signals.notify(),
{
}

/// After `notify` the next `wait` returns, at once and without an error. It takes
/// the request with it: the `wait` after it does not return for that reason.
pub proof fn notify_ends_the_next_wait(signals: SignalsView)
    requires
        !signals.notified,
    ensures
        signals.notify().wait_step() == WaitStep::Return(Ok::<(), Error>(())),
        signals.notify().after_wait_step() == (SignalsView {
            event: 0,
            notified: false,
            ..signals
        }),
        !(signals.notify().after_wait_step().wait_step() is Return),
{
}

/// A request that wakes a thread asleep in the kernel ends the `wait` of that thread,
/// and no other: the signals are then as if nobody had asked.
pub proof fn a_request_wakes_one_wait(signals: SignalsView)
    requires
        signals.wait_step() == WaitStep::Poll,
    ensures
        !(WaitItem { value: 0 }).sleeps(signals.notify().event),
        signals.notify().after_poll(true) == (SignalsView { event: 0, ..signals }),
        !(signals.notify().after_poll(true).wait_step() is Return),
{
}

/// Operations between `notify` and `wait` do not take the request away:
/// the next `wait` returns at once all the same.
pub proof fn operations_keep_the_request(signals: SignalsView)
    ensures
        signals.notify().operation().wait_step() is Return,
        signals.notify().operation().notified,
{
}

/// However the threads take turns, the signals count the operations that began and
/// did not end. While there is one, `wait` does not sleep in the kernel.
pub proof fn waiting_operations_are_counted(steps: Seq<SignalStep>)
    requires
        forall|n: int|
            0 <= n <= steps.len() ==> 0 <= #[trigger] SignalsView::under_way(steps.take(n))
                <= usize::MAX,
    ensures
        SignalsView::init().run(steps).waiting_operations == SignalsView::under_way(steps),
        SignalsView::under_way(steps) != 0 ==> SignalsView::init().run(steps).wait_step()
            != WaitStep::Poll,
    decreases steps.len(),
{
    assert(steps.take(steps.len() as int) =~= steps);
    assert(0 <= SignalsView::under_way(steps.take(steps.len() as int)) <= usize::MAX);
    if steps.len() > 0 {
        let rest = steps.drop_last();
        assert forall|n: int| 0 <= n <= rest.len() implies 0
            <= #[trigger] SignalsView::under_way(rest.take(n)) <= usize::MAX by {
            assert(rest.take(n) =~= steps.take(n));
        }
        waiting_operations_are_counted(rest);
        assert(rest.take(rest.len() as int) =~= rest);
        assert(0 <= SignalsView::under_way(rest.take(rest.len() as int)) <= usize::MAX);
    }
}

/// A request of the user stands, whatever the threads do, until it ends a `wait`: that
/// of a thread that the kernel wakes, or that of the next thread that asks what to do.
pub proof fn requests_stand_until_the_next_wait(signals: SignalsView, steps: Seq<SignalStep>)
    requires
        forall|n: int|
            0 <= n < steps.len() ==> !(#[trigger] steps[n] is Wait) && steps[n]
                != SignalStep::Polled(true),
    ensures
        signals.notify().run(steps).notified,
        signals.notify().run(steps).wait_step() is Return,
    decreases steps.len(),
{
    if steps.len() > 0 {
        let rest = steps.drop_last();
        assert forall|n: int| 0 <= n < rest.len() implies !(#[trigger] rest[n] is Wait) && rest[n]
            != SignalStep::Polled(true) by {
            assert(rest[n] == steps[n]);
        }
        requests_stand_until_the_next_wait(signals, rest);
        let last = steps[steps.len() - 1];
        assert(!(last is Wait) && last != SignalStep::Polled(true));
    }
}

/// A thread that sleeps in the kernel is woken by whoever wants it to: while it
/// sleeps the other threads can only start operations and make requests, and once
/// one of them did, the notification word no longer lets it sleep.
pub proof fn a_sleeping_thread_is_woken(signals: SignalsView, steps: Seq<SignalStep>)
    requires
        signals.wait_step() == WaitStep::Poll,
        forall|n: int|
            0 <= n < steps.len() ==> #[trigger] steps[n] is Begin || steps[n] is Notify,
        steps.len() > 0,
    ensures
        !(WaitItem { value: 0 }).sleeps(signals.run(steps).event),
    decreases steps.len(),
{
    let rest = steps.drop_last();
    let last = steps[steps.len() - 1];
    assert(last is Begin || last is Notify);
    if rest.len() > 0 {
        assert forall|n: int| 0 <= n < rest.len() implies #[trigger] rest[n] is Begin
            || rest[n] is Notify by {
            assert(rest[n] == steps[n]);
        }
        a_sleeping_thread_is_woken(signals, rest);
    } else {
        assert(signals.run(rest) == signals);
    }
}

/// At first there is no notification, no operation and no request.
pub proof fn nobody_waits_at_first()
    ensures
        SignalsView::init().event == 0,
        SignalsView::init().waiting_operations == 0,
        !SignalsView::init().notified,
{
}

/// An operation that begins counts as one more that waits, and sends one notification, if
/// the word is not full. It makes no request and takes none away.
pub proof fn a_beginning_counts_and_notifies(signals: SignalsView)
    ensures
        signals.waiting_operations < usize::MAX ==> signals.begin_operation().waiting_operations
            == signals.waiting_operations + 1,
        signals.waiting_operations == usize::MAX
            ==> signals.begin_operation().waiting_operations == 0,
        signals.event < u64::MAX ==> signals.begin_operation().event == signals.event + 1,
        signals.event == u64::MAX ==> signals.begin_operation().event == u64::MAX,
        signals.begin_operation().notified == signals.notified,
{
}

/// An operation that enters empties the word where it sent a notification, and else leaves
/// it alone. It still waits, and what the user asked for still stands.
pub proof fn an_entry_takes_back_what_was_sent(signals: SignalsView, sent: bool)
    ensures
        sent ==> signals.enter_operation(sent).event == 0,
        !sent ==> signals.enter_operation(sent).event == signals.event,
        signals.enter_operation(sent).waiting_operations == signals.waiting_operations,
        signals.enter_operation(sent).notified == signals.notified,
{
}

/// An operation that ends counts as one less that waits. Nothing else changes.
pub proof fn an_end_counts_down(signals: SignalsView)
    ensures
        signals.waiting_operations > 0 ==> signals.end_operation().waiting_operations
            == signals.waiting_operations - 1,
        signals.waiting_operations == 0 ==> signals.end_operation().waiting_operations
            == usize::MAX,
        signals.end_operation().event == signals.event,
        signals.end_operation().notified == signals.notified,
{
}

/// A whole operation leaves the word empty, unless it was full: then it stays full. As many
/// operations wait as before, and what the user asked for still stands.
pub proof fn a_whole_operation_empties_the_word(signals: SignalsView)
    ensures
        signals.event < u64::MAX ==> signals.operation().event == 0,
        signals.event == u64::MAX ==> signals.operation().event == u64::MAX,
        signals.operation().waiting_operations == signals.waiting_operations,
        signals.operation().notified == signals.notified,
{
}

/// A request of the user stands. Where it is news it sends one notification, if the word is
/// not full. No operation begins or ends by it.
pub proof fn a_request_stands_and_notifies(signals: SignalsView)
    ensures
        signals.notify().notified,
        signals.notified ==> signals.notify().event == signals.event,
        !signals.notified && signals.event < u64::MAX ==> signals.notify().event == signals.event
            + 1,
        !signals.notified && signals.event == u64::MAX ==> signals.notify().event == u64::MAX,
        signals.notify().waiting_operations == signals.waiting_operations,
{
}

/// A thread in `wait` returns exactly where a request of the user stands, with success where
/// there is a notification and with `WouldBlock` where there is none. It takes the request
/// and all notifications with it. Else it polls where no operation waits, and is suspended
/// where one does, and then nothing changes.
pub proof fn a_wait_returns_or_polls_or_is_suspended(signals: SignalsView)
    ensures
        signals.notified && signals.event > 0 ==> signals.wait_step() == WaitStep::Return(
            Ok::<(), Error>(()),
        ),
        signals.notified && signals.event == 0 ==> signals.wait_step() == WaitStep::Return(
            Err::<(), Error>(Error::WouldBlock),
        ),
        !signals.notified && signals.waiting_operations == 0 ==> signals.wait_step()
            == WaitStep::Poll,
        !signals.notified && signals.waiting_operations > 0 ==> signals.wait_step()
            == WaitStep::Suspend,
        signals.notified ==> signals.after_wait_step().event == 0,
        !signals.notified ==> signals.after_wait_step().event == signals.event,
        !signals.after_wait_step().notified,
        signals.after_wait_step().waiting_operations == signals.waiting_operations,
{
}

/// A thread that the kernel woke by the notification word takes all notifications and the
/// request of the user with it. One that was not woken by the word leaves all as it is. No
/// operation begins or ends by it.
pub proof fn a_woken_thread_takes_what_woke_it(signals: SignalsView)
    ensures
        signals.after_poll(true).event == 0,
        !signals.after_poll(true).notified,
        signals.after_poll(true).waiting_operations == signals.waiting_operations,
        signals.after_poll(false) == signals,
{
}

} // verus!
