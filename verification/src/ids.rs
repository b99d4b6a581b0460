//! The keys by which waitable objects are told apart.

use vstd::prelude::*;

verus! {

/// Hands out keys, and takes back those that are no longer in use.
#[derive(Debug)]
pub struct UniqueIds {
    counter: usize,
    reuse: Vec<usize>,
}

/// The state of a [`UniqueIds`]: the highest key handed out so far that was not
/// taken back from the top, and the keys to hand out again, the next one last.
#[verifier::ext_equal]
pub struct UniqueIdsView {
    pub counter: usize,
    pub reuse: Seq<usize>,
}

impl UniqueIdsView {
    /// The keys that are in use.
    pub open spec fn live(self) -> Set<usize> {
        Set::new(|v: usize| 2 <= v <= self.counter && !self.reuse.contains(v))
    }

    /// The keys to hand out again are distinct, and were handed out before.
    pub open spec fn wf(self) -> bool {
        &&& self.counter >= 1
        &&& self.reuse.no_duplicates()
        &&& forall|i: int|
            0 <= i < self.reuse.len() ==> 2 <= (#[trigger] self.reuse[i]) <= self.counter
    }

    /// Whether one more key can be handed out.
    pub open spec fn can_next(self) -> bool {
        self.reuse.len() > 0 || self.counter < usize::MAX
    }

    /// The key that is handed out next.
    pub open spec fn next_id(self) -> usize
        recommends
            self.can_next(),
    {
        if self.reuse.len() > 0 {
            self.reuse.last()
        } else {
            (self.counter + 1) as usize
        }
    }

    /// The state after a key was handed out.
    pub open spec fn after_next(self) -> UniqueIdsView
        recommends
            self.can_next(),
    {
        if self.reuse.len() > 0 {
            UniqueIdsView { reuse: self.reuse.drop_last(), ..self }
        } else {
            UniqueIdsView { counter: (self.counter + 1) as usize, ..self }
        }
    }

    /// The state of a new source that handed out `n` keys and took none back.
    pub open spec fn handed_out(n: nat) -> UniqueIdsView
        decreases n,
    {
        if n == 0 {
            UniqueIdsView { counter: 1, reuse: Seq::empty() }
        } else {
            UniqueIdsView::handed_out((n - 1) as nat).after_next()
        }
    }

    /// The state after `v` was taken back. Zero is no key.
    pub open spec fn after_release(self, v: usize) -> UniqueIdsView {
        if v == 0 {
            self
        } else if self.counter == v {
            UniqueIdsView { counter: (self.counter - 1) as usize, ..self }
        } else {
            UniqueIdsView { reuse: self.reuse.push(v), ..self }
        }
    }
}

impl View for UniqueIds {
    type V = UniqueIdsView;

    closed spec fn view(&self) -> UniqueIdsView {
        UniqueIdsView { counter: self.counter, reuse: self.reuse@ }
    }
}

impl UniqueIds {
    /// Creates a source of keys, with no key in use.
    pub fn new() -> (res: Self)
        ensures
            res@ == (UniqueIdsView { counter: 1, reuse: Seq::empty() }),
            res@.wf(),
            res@.live() == Set::<usize>::empty(),
    {
        let res = UniqueIds { counter: 1, reuse: Vec::new() };
        assert(res@.live() =~= Set::<usize>::empty());
        res
    }

    /// Whether one more key can be handed out.
    pub fn can_next(&self) -> (res: bool)
        ensures
            res == self@.can_next(),
    {
        self.reuse.len() > 0 || self.counter < usize::MAX
    }

    /// Hands out a key: one that was taken back, if there is one.
    pub fn next(&mut self) -> (res: usize)
        requires
            old(self)@.can_next(),
        ensures
            res == old(self)@.next_id(),
            final(self)@ == old(self)@.after_next(),
    {
        match self.reuse.pop() {
            Some(v) => v,
            None => {
                self.counter = self.counter + 1;
                self.counter
            },
        }
    }

    /// Takes back a key that is no longer in use.
    pub fn release(&mut self, v: usize)
        ensures
            final(self)@ == old(self)@.after_release(v),
    {
        if v == 0 {
            return ;
        }
        if self.counter == v {
            self.counter = self.counter - 1;
        } else {
            self.reuse.push(v);
        }
    }
}

/// A waitable object as the poller knows it: by the key that it was given.
#[derive(Debug)]
pub struct BorrowedTwizzlerWaitable {
    key: usize,
}

impl View for BorrowedTwizzlerWaitable {
    type V = usize;

    closed spec fn view(&self) -> usize {
        self.key
    }
}

impl BorrowedTwizzlerWaitable {
    /// Gives a waitable object a key of `ids`.
    pub fn new(ids: &mut UniqueIds) -> (res: Self)
        requires
            old(ids)@.can_next(),
        ensures
            res@ == old(ids)@.next_id(),
            final(ids)@ == old(ids)@.after_next(),
    {
        BorrowedTwizzlerWaitable { key: ids.next() }
    }

    /// The key of the object.
    pub fn key(&self) -> (res: usize)
        ensures
            res == self@,
    {
        self.key
    }

    /// Gives the key of an object that is no longer waited on back to `ids`.
    pub fn release(self, ids: &mut UniqueIds)
        ensures
            final(ids)@ == old(ids)@.after_release(self@),
    {
        ids.release(self.key);
    }
}

/// A key is handed out only while it is not in use, and is then in use.
/// No other key changes hands.
pub proof fn next_hands_out_a_fresh_key(ids: UniqueIdsView)
    requires
        ids.wf(),
        ids.can_next(),
    ensures
        ids.next_id() != 0,
        !ids.live().contains(ids.next_id()),
        ids.after_next().wf(),
        ids.after_next().live() == ids.live().insert(ids.next_id()),
{
    let after = ids.after_next();
    let id = ids.next_id();
    if ids.reuse.len() > 0 {
        assert(ids.reuse[ids.reuse.len() - 1] == id);
        assert forall|v: usize| after.live().contains(v) == ids.live().insert(id).contains(v) by {
            if ids.reuse.contains(v) && v != id {
                let i = ids.reuse.index_of(v);
                assert(after.reuse[i] == v);
            }
            if after.reuse.contains(v) {
                let i = after.reuse.index_of(v);
                assert(ids.reuse[i] == v);
            }
        }
    } else {
        assert forall|v: usize| !ids.reuse.contains(v) by {}
    }
    assert(after.live() =~= ids.live().insert(id));
}

/// A key that is taken back is no longer in use. No other key changes hands.
pub proof fn release_frees_the_key(ids: UniqueIdsView, v: usize)
    requires
        ids.wf(),
        ids.live().contains(v),
    ensures
        ids.after_release(v).wf(),
        ids.after_release(v).live() == ids.live().remove(v),
{
    let after = ids.after_release(v);
    if ids.counter == v {
        assert forall|i: int| 0 <= i < after.reuse.len() implies 2 <= (
        #[trigger] after.reuse[i]) <= after.counter by {
            assert(ids.reuse.contains(ids.reuse[i]));
        }
    } else {
        assert(after.reuse[ids.reuse.len() as int] == v);
        assert forall|w: usize| after.reuse.contains(w) == (ids.reuse.contains(w) || w == v) by {
            if ids.reuse.contains(w) {
                let i = ids.reuse.index_of(w);
                assert(after.reuse[i] == w);
            }
        }
    }
    assert(after.live() =~= ids.live().remove(v));
}

/// Taking back the key that was handed out last leaves the same keys in use
/// as before it was handed out.
pub proof fn release_undoes_next(ids: UniqueIdsView)
    requires
        ids.wf(),
        ids.can_next(),
    ensures
        ids.after_next().after_release(ids.next_id()).wf(),
        ids.after_next().after_release(ids.next_id()).live() == ids.live(),
{
    next_hands_out_a_fresh_key(ids);
    release_frees_the_key(ids.after_next(), ids.next_id());
    assert(ids.live().insert(ids.next_id()).remove(ids.next_id()) =~= ids.live());
}

/// A key can be handed out as long as the counter is not at its limit, and whenever
/// there is a key to hand out again. Else there is none.
pub proof fn keys_run_out_only_at_the_limit(ids: UniqueIdsView)
    ensures
        ids.counter < usize::MAX ==> ids.can_next(),
        ids.reuse.len() > 0 ==> ids.can_next(),
        ids.counter == usize::MAX && ids.reuse.len() == 0 ==> !ids.can_next(),
{
}

/// While there is a key that nobody uses, whether it was never handed out or was taken
/// back, a key can be handed out.
pub proof fn a_free_key_can_be_handed_out(ids: UniqueIdsView, v: usize)
    requires
        v > ids.counter || ids.reuse.contains(v),
    ensures
        ids.can_next(),
{
}

/// A source that takes no key back hands out two and the numbers after it, one by one, and
/// stops at no number before the last one.
pub proof fn keys_are_counted_from_two(n: nat)
    requires
        n < usize::MAX - 1,
    ensures
        UniqueIdsView::handed_out(n).can_next(),
        UniqueIdsView::handed_out(n).next_id() == n + 2,
        UniqueIdsView::handed_out(n).counter == n + 1,
        UniqueIdsView::handed_out(n).reuse.len() == 0,
    decreases n,
{
    if n > 0 {
        keys_are_counted_from_two((n - 1) as nat);
    }
}

/// The key that was taken back last is handed out first. Only where there is none, the
/// counter goes up by one, and its new value is handed out.
pub proof fn next_prefers_what_was_taken_back(ids: UniqueIdsView)
    requires
        ids.reuse.len() > 0 || ids.counter < usize::MAX,
    ensures
        ids.reuse.len() > 0 ==> {
            &&& ids.after_next().counter == ids.counter
            &&& ids.after_next().reuse.push(ids.next_id()) == ids.reuse
        },
        ids.reuse.len() == 0 ==> {
            &&& ids.next_id() == ids.counter + 1
            &&& ids.after_next().counter == ids.next_id()
            &&& ids.after_next().reuse.len() == 0
        },
{
    if ids.reuse.len() > 0 {
        assert(ids.after_next().reuse.push(ids.next_id()) =~= ids.reuse);
    }
}

/// Zero is not taken back. Where the key is the counter, that goes down by one. Any other
/// key is kept, to be handed out before those that were taken back earlier.
pub proof fn release_keeps_the_key_or_counts_down(ids: UniqueIdsView, v: usize)
    ensures
        v == 0 ==> ids.after_release(v).counter == ids.counter && ids.after_release(v).reuse
            == ids.reuse,
        v != 0 && v == ids.counter ==> ids.after_release(v).counter + 1 == ids.counter
            && ids.after_release(v).reuse == ids.reuse,
        v != 0 && v != ids.counter ==> ids.after_release(v).counter == ids.counter
            && ids.after_release(v).reuse == ids.reuse.push(v),
{
}

/// A key that is taken back can be handed out again. It is the next one, unless it was the
/// counter and there are others that were taken back.
pub proof fn a_key_that_is_taken_back_comes_again(ids: UniqueIdsView, v: usize)
    requires
        v != 0,
    ensures
        ids.after_release(v).can_next(),
        v != ids.counter || ids.reuse.len() == 0 ==> ids.after_release(v).next_id() == v,
{
}

} // verus!
