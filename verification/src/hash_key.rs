//! The key under which the poller files one direction of a waitable object.

use vstd::prelude::*;

verus! {

/// The key of one direction, read or write, of a waitable object.
#[derive(Clone, Copy, Debug, PartialEq, Eq, PartialOrd, Ord, Hash)]
pub struct HashKey(usize);

impl View for HashKey {
    type V = int;

    closed spec fn view(&self) -> int {
        self.0 as int
    }
}

impl HashKey {
    /// The number that stands for one direction of the object with this key.
    pub open spec fn id_of(key: usize, write: bool) -> int {
        2 * key + if write {
            1int
        } else {
            0int
        }
    }

    /// The numbers of a sequence of keys.
    pub open spec fn numbers(keys: Seq<HashKey>) -> Seq<int> {
        keys.map_values(|key: HashKey| key@)
    }

    /// Whether the directions of the object with this key can be numbered.
    pub open spec fn fits(key: usize) -> bool {
        2 * key <= usize::MAX
    }

    /// The key of the write or read direction of an object.
    pub fn new(key: usize, write: bool) -> (res: Self)
        requires
            HashKey::fits(key),
        ensures
            res@ == HashKey::id_of(key, write),
    {
        let even: usize = key * 2;
        assert(even % 2 == 0 ==> even | 1 == even + 1 && even | 0 == even) by (bit_vector);
        let low: usize = if write {
            1
        } else {
            0
        };
        HashKey(even | low)
    }

    /// The key as a plain number.
    pub(crate) fn raw(&self) -> (res: usize)
        ensures
            res == self@,
    {
        self.0
    }

    /// The key that has this number.
    pub(crate) fn from_raw(raw: usize) -> (res: Self)
        ensures
            res@ == raw,
    {
        HashKey(raw)
    }
}

/// Different directions, and different objects, have different keys.
pub proof fn hash_keys_are_distinct(key1: usize, write1: bool, key2: usize, write2: bool)
    requires
        HashKey::id_of(key1, write1) == HashKey::id_of(key2, write2),
    ensures
        key1 == key2,
        write1 == write2,
{
}

/// The number of a direction tells the object and the direction. An object has numbers
/// as long as its key is at most half of what a number can be.
pub proof fn a_number_tells_object_and_direction(key: usize, write: bool)
    ensures
        HashKey::id_of(key, write) / 2 == key,
        HashKey::id_of(key, write) % 2 == 1 <==> write,
        key <= usize::MAX / 2 <==> HashKey::fits(key),
        HashKey::fits(key) ==> 0 <= HashKey::id_of(key, write) <= usize::MAX,
{
}

/// The numbers of a sequence of keys stand where the keys stand.
pub proof fn numbers_stand_where_their_keys_stand(keys: Seq<HashKey>)
    ensures
        HashKey::numbers(keys).len() == keys.len(),
        forall|i: int| 0 <= i < keys.len() ==> HashKey::numbers(keys)[i] == (#[trigger] keys[i])@,
{
}

} // verus!
