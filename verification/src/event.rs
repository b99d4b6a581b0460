//! Events, the flags they carry, and the list they are reported in.

use vstd::prelude::*;

use crate::error::Error;

verus! {

/// How the interest in a waitable object is delivered.
#[derive(Clone, Copy, Debug, PartialEq, Eq, Structural)]
pub enum PollMode {
    /// Report once, then drop the interest.
    Oneshot,
    /// Report for as long as the object is ready.
    Level,
    /// Report when the object becomes ready.
    Edge,
    /// Report when the object becomes ready, then drop the interest.
    EdgeOneshot,
}

impl PollMode {
    /// Whether an interest in this mode is dropped once it has been reported;
    /// nothing, where the mode is not supported.
    pub open spec fn removes(self) -> Option<bool> {
        match self {
            PollMode::Oneshot => Some(true),
            PollMode::Level => Some(false),
            PollMode::Edge => None,
            PollMode::EdgeOneshot => None,
        }
    }
}

/// Tells whether an interest in `mode` is dropped once it has been reported.
pub fn cvt_mode_as_remove(mode: PollMode) -> (res: Result<bool, Error>)
    ensures
        match mode.removes() {
            Some(remove) => res == Ok::<bool, Error>(remove),
            None => res == Err::<bool, Error>(Error::Unsupported),
        },
{
    match mode {
        PollMode::Oneshot => Ok(true),
        PollMode::Level => Ok(false),
        _ => Err(Error::Unsupported),
    }
}

/// A set of flags, one per bit.
#[derive(Clone, Copy, Debug, PartialEq, Eq, Structural)]
pub struct PollFlags {
    bits: u32,
}

/// The bit of the read flag.
pub const READ: u32 = 1;

/// The bit of the write flag.
pub const WRITE: u32 = 2;

/// The bit of the error flag.
pub const ERR: u32 = 4;

/// The bit of the interrupt flag.
pub const HUP: u32 = 8;

/// The bit of the priority flag.
pub const PRI: u32 = 16;

impl View for PollFlags {
    type V = u32;

    closed spec fn view(&self) -> u32 {
        self.bits
    }
}

impl PollFlags {
    /// The set without flags.
    pub fn empty() -> (res: Self)
        ensures
            res@ == 0,
    {
        PollFlags { bits: 0 }
    }

    /// The set that holds the flags of `bits`.
    pub fn from_bits(bits: u32) -> (res: Self)
        ensures
            res@ == bits,
    {
        PollFlags { bits }
    }

    /// Whether every flag of `other` is in this set.
    pub fn contains(&self, other: PollFlags) -> (res: bool)
        ensures
            res == (self@ & other@ == other@),
    {
        self.bits & other.bits == other.bits
    }

    /// Puts the flags of `other` into this set, or takes them out of it.
    pub fn set(&mut self, other: PollFlags, value: bool)
        ensures
            final(self)@ == if value {
                old(self)@ | other@
            } else {
                old(self)@ & !other@
            },
    {
        if value {
            self.bits = self.bits | other.bits;
        } else {
            self.bits = self.bits & !other.bits;
        }
    }
}

/// Extra information associated with an event.
#[derive(Clone, Copy, Debug, PartialEq, Eq, Structural)]
pub struct EventExtra {
    flags: PollFlags,
}

impl View for EventExtra {
    type V = u32;

    closed spec fn view(&self) -> u32 {
        self.flags@
    }
}

impl EventExtra {
    /// The extra information that carries the flags of `bits`.
    pub closed spec fn carrying(bits: u32) -> EventExtra {
        EventExtra { flags: PollFlags { bits } }
    }

    /// Extra information is no more than the flags it carries.
    pub broadcast proof fn lemma_carrying(extra: EventExtra, bits: u32)
        ensures
            (extra == #[trigger] EventExtra::carrying(bits)) <==> (#[trigger] extra@) == bits,
    {
    }

    /// Creates an empty set of extra information.
    #[inline]
    pub fn empty() -> (res: Self)
        ensures
            res@ == 0,
    {
        EventExtra { flags: PollFlags::empty() }
    }

    /// Extra information that tells the direction of an event.
    pub(crate) fn of_direction(write: bool) -> (res: Self)
        ensures
            res == EventExtra::carrying(
                if write {
                    WRITE
                } else {
                    READ
                },
            ),
    {
        let bits: u32 = if write {
            WRITE
        } else {
            READ
        };
        EventExtra { flags: PollFlags::from_bits(bits) }
    }

    /// Whether this is an error event.
    #[inline]
    pub fn is_err(&self) -> (res: Option<bool>)
        ensures
            res == Some(self@ & ERR == ERR),
    {
        Some(self.flags.contains(PollFlags::from_bits(ERR)))
    }

    /// Set the interrupt flag.
    #[inline]
    pub fn set_hup(&mut self, value: bool)
        ensures
            final(self)@ == if value {
                old(self)@ | HUP
            } else {
                old(self)@ & !HUP
            },
    {
        self.flags.set(PollFlags::from_bits(HUP), value);
    }

    /// Set the priority flag.
    #[inline]
    pub fn set_pri(&mut self, value: bool)
        ensures
            final(self)@ == if value {
                old(self)@ | PRI
            } else {
                old(self)@ & !PRI
            },
    {
        self.flags.set(PollFlags::from_bits(PRI), value);
    }

    /// Is this an interrupt event?
    #[inline]
    pub fn is_hup(&self) -> (res: bool)
        ensures
            res == (self@ & HUP == HUP),
    {
        self.flags.contains(PollFlags::from_bits(HUP))
    }

    /// Is this a priority event?
    #[inline]
    pub fn is_pri(&self) -> (res: bool)
        ensures
            res == (self@ & PRI == PRI),
    {
        self.flags.contains(PollFlags::from_bits(PRI))
    }

    /// Whether a connection attempt failed.
    #[inline]
    pub fn is_connect_failed(&self) -> (res: Option<bool>)
        ensures
            res == Some(self@ & ERR == ERR),
    {
        Some(self.flags.contains(PollFlags::from_bits(ERR)))
    }
}

/// The interrupt flag is what it was set to, and setting it changes no other flag.
pub proof fn set_hup_sets_one_flag(bits: u32, value: bool)
    ensures
        ({
            let after = if value {
                bits | HUP
            } else {
                bits & !HUP
            };
            &&& (after & HUP == HUP) == value
            &&& (after & PRI == PRI) == (bits & PRI == PRI)
            &&& (after & ERR == ERR) == (bits & ERR == ERR)
            &&& after & !HUP == bits & !HUP
        }),
{
    assert((bits | 8) & 8 == 8 && (bits & !8) & 8 != 8) by (bit_vector);
    assert((bits | 8) & 16 == bits & 16 && (bits & !8) & 16 == bits & 16) by (bit_vector);
    assert((bits | 8) & 4 == bits & 4 && (bits & !8) & 4 == bits & 4) by (bit_vector);
    assert((bits | 8) & !8 == bits & !8 && (bits & !8) & !8 == bits & !8) by (bit_vector);
}

/// The priority flag is what it was set to, and setting it changes no other flag.
pub proof fn set_pri_sets_one_flag(bits: u32, value: bool)
    ensures
        ({
            let after = if value {
                bits | PRI
            } else {
                bits & !PRI
            };
            &&& (after & PRI == PRI) == value
            &&& (after & HUP == HUP) == (bits & HUP == HUP)
            &&& (after & ERR == ERR) == (bits & ERR == ERR)
            &&& after & !PRI == bits & !PRI
        }),
{
    assert((bits | 16) & 16 == 16 && (bits & !16) & 16 != 16) by (bit_vector);
    assert((bits | 16) & 8 == bits & 8 && (bits & !16) & 8 == bits & 8) by (bit_vector);
    assert((bits | 16) & 4 == bits & 4 && (bits & !16) & 4 == bits & 4) by (bit_vector);
    assert((bits | 16) & !16 == bits & !16 && (bits & !16) & !16 == bits & !16) by (bit_vector);
}

/// An interest in a waitable object, and a report that it is ready.
#[derive(Clone, Copy, Debug, PartialEq, Eq, Structural)]
pub struct Event {
    /// The key that the user gave to the object.
    pub key: usize,
    /// Whether the object can be read from.
    pub readable: bool,
    /// Whether the object can be written to.
    pub writable: bool,
    /// What else is known of the event.
    pub extra: EventExtra,
}

impl Event {
    /// The event that reports readiness in one direction under `key`.
    pub open spec fn of_direction(key: usize, write: bool) -> Event {
        Event {
            key,
            readable: !write,
            writable: write,
            extra: EventExtra::carrying(
                if write {
                    WRITE
                } else {
                    READ
                },
            ),
        }
    }
}

/// A list of reported I/O events.
#[derive(Debug)]
pub struct Events {
    inner: Vec<Event>,
}

impl View for Events {
    type V = Seq<Event>;

    closed spec fn view(&self) -> Seq<Event> {
        self.inner@
    }
}

/// Calls [`Vec::capacity`]: a vector has room for the elements that it holds.
/// How much more room it has is up to the allocator, and left unsaid.
#[verifier::external_body]
pub(crate) fn vec_capacity<T>(vec: &Vec<T>) -> (cap: usize)
    ensures
        cap >= vec@.len(),
{
    vec.capacity()
}

impl Events {
    /// Creates an empty list, with room for `cap` events or more. The room is the
    /// allocator's to give, and no clause speaks of it.
    ///
    /// An event takes sixteen bytes, and a list at most `isize::MAX` of them.
    pub fn with_capacity(cap: usize) -> (res: Events)
        requires
            16 * cap <= isize::MAX,
        ensures
            res@ == Seq::<Event>::empty(),
    {
        Events { inner: Vec::with_capacity(cap) }
    }

    /// Iterates over I/O events.
    pub fn iter(&self) -> (res: std::slice::Iter<'_, Event>)
        ensures
            vstd::std_specs::iter::IteratorSpec::remaining(&res).unref() == self@,
    {
        self.inner.as_slice().iter()
    }

    /// Clear the list.
    pub fn clear(&mut self)
        ensures
            final(self)@ == Seq::<Event>::empty(),
    {
        self.inner.clear();
    }

    /// Get the capacity of the list.
    pub fn capacity(&self) -> (res: usize)
        ensures
            res >= self@.len(),
    {
        vec_capacity(&self.inner)
    }

    /// Adds an event at the end of the list.
    pub(crate) fn push(&mut self, event: Event)
        ensures
            final(self)@ == old(self)@.push(event),
    {
        self.inner.push(event);
    }
}

/// The modes `Oneshot` and `Level` are supported, and no others. Only `Oneshot` drops the
/// interest once it has been reported.
pub proof fn oneshot_and_level_are_supported(mode: PollMode)
    ensures
        mode.removes() == Some(true) <==> mode is Oneshot,
        mode.removes() == Some(false) <==> mode is Level,
        mode.removes() is None <==> mode is Edge || mode is EdgeOneshot,
{
}

/// An event of a direction carries the key that it is given, whatever that is, names this
/// direction and not the other one, and has one flag set, that of its direction.
pub proof fn an_event_carries_its_key_and_direction(key: usize, write: bool)
    ensures
        Event::of_direction(key, write).key == key,
        Event::of_direction(key, write).readable <==> !write,
        Event::of_direction(key, write).writable <==> write,
        write ==> Event::of_direction(key, write).extra@ == 2,
        !write ==> Event::of_direction(key, write).extra@ == 1,
{
    broadcast use EventExtra::lemma_carrying;

}

/// Each flag has a bit of its own.
pub proof fn flags_have_bits_of_their_own()
    ensures
        READ == 1,
        WRITE == 2,
        ERR == 4,
        HUP != 0 && HUP & READ == 0 && HUP & WRITE == 0 && HUP & ERR == 0,
        PRI != 0 && PRI & READ == 0 && PRI & WRITE == 0 && PRI & ERR == 0,
        HUP & PRI == 0,
{
    assert(8u32 & 1 == 0 && 8u32 & 2 == 0 && 8u32 & 4 == 0 && 8u32 & 16 == 0) by (bit_vector);
    assert(16u32 & 1 == 0 && 16u32 & 2 == 0 && 16u32 & 4 == 0) by (bit_vector);
}

} // verus!
