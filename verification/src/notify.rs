//! The word by which a sleeping poller is woken.

use vstd::prelude::*;

use crate::error::Error;

verus! {

/// When the kernel keeps a thread asleep on a word: while the word equals `value`.
#[derive(Clone, Copy, Debug, PartialEq, Eq, Structural)]
pub struct WaitItem {
    pub value: u64,
}

impl WaitItem {
    /// Whether a thread sleeps on a word that holds `word`.
    pub open spec fn sleeps(self, word: u64) -> bool {
        word == self.value
    }
}

/// A notification word: the number of notifications that nobody has taken yet.
#[derive(Debug)]
pub struct Notify {
    event: u64,
}

impl View for Notify {
    type V = u64;

    closed spec fn view(&self) -> u64 {
        self.event
    }
}

impl Notify {
    /// Whether one more notification can be counted in a word that holds `event`.
    pub open spec fn can_notify(event: u64) -> bool {
        event < u64::MAX
    }

    /// The word after a notification, which is not counted where the word is full.
    pub open spec fn after_notify(event: u64) -> u64 {
        if Notify::can_notify(event) {
            (event + 1) as u64
        } else {
            event
        }
    }

    /// `Ok` where `done` holds, and `WouldBlock` where it does not.
    pub open spec fn done_or_would_block(done: bool) -> Result<(), Error> {
        if done {
            Ok(())
        } else {
            Err(Error::WouldBlock)
        }
    }

    /// Creates a new notification object, without notifications.
    pub fn new() -> (res: Result<Self, Error>)
        ensures
            res is Ok,
            res->Ok_0@ == 0,
    {
        Ok(Notify { event: 0 })
    }

    /// The value of the word that the kernel compares.
    pub fn event(&self) -> (res: u64)
        ensures
            res == self@,
    {
        self.event
    }

    /// The command to sleep until there is a notification to take.
    pub fn wait_item_read(&self) -> (res: WaitItem)
        ensures
            res == (WaitItem { value: 0 }),
    {
        WaitItem { value: 0 }
    }

    /// The command to sleep until there is room for a notification.
    pub fn wait_item_write(&self) -> (res: WaitItem)
        ensures
            res == (WaitItem { value: u64::MAX }),
    {
        WaitItem { value: u64::MAX }
    }

    /// Counts a notification. On success whoever sleeps on the word has to be woken.
    pub fn notify(&mut self) -> (res: Result<(), Error>)
        ensures
            res == Notify::done_or_would_block(Notify::can_notify(old(self)@)),
            final(self)@ == Notify::after_notify(old(self)@),
    {
        if self.event == u64::MAX {
            return Err(Error::WouldBlock);
        }
        self.event = self.event + 1;

        Ok(())
    }

    /// Pops a notification (if any), and all others with it.
    pub fn pop_notification(&mut self) -> (res: Result<(), Error>)
        ensures
            res == Notify::done_or_would_block(old(self)@ != 0),
            final(self)@ == 0,
    {
        if self.event == 0 {
            return Err(Error::WouldBlock);
        }
        self.event = 0;

        Ok(())
    }

    /// Pops all notifications. Equivalent to `pop_notification`.
    pub fn pop_all_notifications(&mut self) -> (res: Result<(), Error>)
        ensures
            res == Notify::done_or_would_block(old(self)@ != 0),
            final(self)@ == 0,
    {
        self.pop_notification()
    }
}

/// A thread sleeps on the read command exactly while there is no notification
/// to pop, and on the write command exactly while no notification can be counted.
pub proof fn wait_items_match_the_word(event: u64)
    ensures
        (WaitItem { value: 0 }).sleeps(event) <==> Notify::done_or_would_block(event != 0) is Err,
        (WaitItem { value: u64::MAX }).sleeps(event) <==> Notify::done_or_would_block(
            Notify::can_notify(event),
        ) is Err,
{
}

/// A notification ends the sleep on the read command, and can be popped.
pub proof fn notify_ends_the_read_sleep(event: u64)
    ensures
        !(WaitItem { value: 0 }).sleeps(Notify::after_notify(event)),
        Notify::done_or_would_block(Notify::after_notify(event) != 0) is Ok,
{
}

/// Every notification counts as one, until the word is full. Only then it is refused, and
/// the word stays as it is.
pub proof fn notifications_are_counted_up_to_the_limit(event: u64)
    ensures
        event < u64::MAX <==> Notify::can_notify(event),
        event < u64::MAX ==> Notify::after_notify(event) == event + 1,
        event == u64::MAX ==> Notify::after_notify(event) == u64::MAX,
        Notify::done_or_would_block(true) == Ok::<(), Error>(()),
        Notify::done_or_would_block(false) == Err::<(), Error>(Error::WouldBlock),
{
}

/// A thread sleeps on a word while the word equals the value of the command.
pub proof fn a_thread_sleeps_on_an_equal_word(item: WaitItem, word: u64)
    ensures
        item.sleeps(word) <==> item.value == word,
{
}

} // verus!
