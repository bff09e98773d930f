//! Fixed-capacity ring buffer over text lines.
//!
//! The buffer overwrites its oldest entry once full and supports a
//! dedup-and-promote insertion: re-inserting a line that is already present
//! moves it to the newest position without disturbing the relative order of
//! the other entries.  It backs the command history of the input editor.

use vstd::prelude::*;

verus! {

/// Result of pushing `v` onto contents `s` of a buffer with capacity `cap`:
/// the oldest entry is evicted exactly when the buffer is full.
pub open spec fn ring_push(s: Seq<Seq<char>>, cap: nat, v: Seq<char>) -> Seq<Seq<char>> {
    if s.len() < cap {
        s.push(v)
    } else {
        s.drop_first().push(v)
    }
}

/// Contents after pushing every element of `vs` in order onto an empty
/// buffer of capacity `cap`.
pub open spec fn pushed_all(cap: nat, vs: Seq<Seq<char>>) -> Seq<Seq<char>>
    decreases vs.len(),
{
    if vs.len() == 0 {
        Seq::empty()
    } else {
        ring_push(pushed_all(cap, vs.drop_last()), cap, vs.last())
    }
}

/// Whether `v` occurs among the contents `s`.
pub open spec fn has_entry(s: Seq<Seq<char>>, v: Seq<char>) -> bool {
    exists|i: int| 0 <= i < s.len() && s[i] == v
}

/// The largest index at which `v` occurs in `s` (meaningful only when
/// `has_entry(s, v)` holds).
pub open spec fn newest_entry_index(s: Seq<Seq<char>>, v: Seq<char>) -> int
    decreases s.len(),
{
    if s.len() == 0 {
        0
    } else if s.last() == v {
        s.len() - 1
    } else {
        newest_entry_index(s.drop_last(), v)
    }
}

/// Result of the dedup-and-promote insertion: if `v` already occurs, its
/// newest occurrence moves to the newest position and nothing else changes;
/// otherwise this is a plain `ring_push`.
pub open spec fn promote(s: Seq<Seq<char>>, cap: nat, v: Seq<char>) -> Seq<Seq<char>> {
    if has_entry(s, v) {
        s.remove(newest_entry_index(s, v)).push(v)
    } else {
        ring_push(s, cap, v)
    }
}

/// Law: a buffer never holds more entries than its capacity, and pushing
/// onto a full buffer evicts exactly the oldest remaining entry: after any
/// sequence of pushes the contents are the newest `cap` pushed values, in
/// push order.
pub proof fn lemma_push_beyond_capacity_evicts_oldest(cap: nat, vs: Seq<Seq<char>>)
    requires
        0 < cap,
    ensures
        pushed_all(cap, vs).len() <= cap,
        vs.len() <= cap ==> pushed_all(cap, vs) == vs,
        vs.len() > cap ==> pushed_all(cap, vs) == vs.skip(vs.len() - cap),
    decreases vs.len(),
{
    if vs.len() == 0 {
        assert(pushed_all(cap, vs) =~= vs);
    } else {
        let prev = pushed_all(cap, vs.drop_last());
        lemma_push_beyond_capacity_evicts_oldest(cap, vs.drop_last());
        if vs.len() <= cap {
            assert(ring_push(prev, cap, vs.last()) =~= vs);
        } else if vs.len() == cap + 1 {
            assert(ring_push(prev, cap, vs.last()) =~= vs.skip(1));
        } else {
            assert(prev == vs.drop_last().skip(vs.len() - 1 - cap));
            assert(ring_push(prev, cap, vs.last()) =~= vs.skip(vs.len() - cap));
        }
    }
}

/// Law: pushing at most `cap` values onto an empty buffer keeps exactly
/// those values, in push order.
pub proof fn lemma_pushes_within_capacity(cap: nat, vs: Seq<Seq<char>>)
    requires
        0 < cap,
        vs.len() <= cap,
    ensures
        pushed_all(cap, vs) == vs,
{
    lemma_push_beyond_capacity_evicts_oldest(cap, vs);
}

/// If `v` occurs at index `i` and nowhere above it, then `i` is its newest
/// occurrence.
pub proof fn lemma_newest_entry_characterization(s: Seq<Seq<char>>, v: Seq<char>, i: int)
    requires
        0 <= i < s.len(),
        s[i] == v,
        forall|j: int| i < j < s.len() ==> s[j] != v,
    ensures
        has_entry(s, v),
        newest_entry_index(s, v) == i,
    decreases s.len(),
{
    if i < s.len() - 1 {
        assert(s.last() != v);
        assert(s.drop_last()[i] == v);
        lemma_newest_entry_characterization(s.drop_last(), v, i);
    }
}

/// For a present value, the newest occurrence index is a valid index that
/// holds the value, with no later occurrence.
pub proof fn lemma_newest_entry_index_valid(s: Seq<Seq<char>>, v: Seq<char>)
    requires
        has_entry(s, v),
    ensures
        0 <= newest_entry_index(s, v) < s.len(),
        s[newest_entry_index(s, v)] == v,
        forall|j: int| newest_entry_index(s, v) < j < s.len() ==> s[j] != v,
    decreases s.len(),
{
    if s.last() != v {
        let i = choose|i: int| 0 <= i < s.len() && s[i] == v;
        assert(s.drop_last()[i] == v);
        lemma_newest_entry_index_valid(s.drop_last(), v);
        assert forall|j: int| newest_entry_index(s, v) < j < s.len() implies s[j] != v by {
            if j < s.len() - 1 {
                assert(s.drop_last()[j] == s[j]);
            }
        }
    }
}

/// Law: the dedup-and-promote insertion of a value that is absent from the
/// buffer behaves exactly as a plain push.
pub proof fn lemma_promote_absent(s: Seq<Seq<char>>, cap: nat, v: Seq<char>)
    requires
        !has_entry(s, v),
    ensures
        promote(s, cap, v) == ring_push(s, cap, v),
{
}

/// Law: a promoted value sits at the newest position, and promoting it
/// again changes nothing — re-submitting the same line neither grows the
/// buffer nor reorders it further.
pub proof fn lemma_promote_idempotent(s: Seq<Seq<char>>, cap: nat, v: Seq<char>)
    requires
        0 < cap,
        s.len() <= cap,
    ensures
        promote(s, cap, v).len() <= cap,
        promote(s, cap, v).last() == v,
        promote(promote(s, cap, v), cap, v) == promote(s, cap, v),
{
    let p = promote(s, cap, v);
    if has_entry(s, v) {
        lemma_newest_entry_index_valid(s, v);
    }
    assert(p.last() == v);
    assert(has_entry(p, v)) by {
        assert(p[p.len() - 1] == v);
    }
    assert(newest_entry_index(p, v) == p.len() - 1);
    assert(p.remove(p.len() - 1) =~= p.drop_last());
    assert(p.drop_last().push(v) =~= p);
}

/// Law: promoting a value already present keeps the buffer's length and its
/// entries — nothing is duplicated or lost — and the relative order of all
/// other entries is unchanged (the result is exactly: remove the newest
/// occurrence, then append the value).
pub proof fn lemma_promote_existing(s: Seq<Seq<char>>, cap: nat, v: Seq<char>)
    requires
        has_entry(s, v),
    ensures
        ({
            let i = newest_entry_index(s, v);
            &&& 0 <= i < s.len() && s[i] == v
            &&& promote(s, cap, v) == s.remove(i).push(v)
            &&& promote(s, cap, v).len() == s.len()
            &&& promote(s, cap, v).to_multiset() == s.to_multiset()
        }),
{
    broadcast use vstd::seq_lib::group_to_multiset_ensures;

    lemma_newest_entry_index_valid(s, v);
    let i = newest_entry_index(s, v);
    assert(s.remove(i).to_multiset() =~= s.to_multiset().remove(v));
    assert(s.remove(i).push(v).to_multiset() =~= s.remove(i).to_multiset().insert(v));
    assert(s.contains(v));
    assert(s.to_multiset().count(v) > 0);
    assert(s.to_multiset().remove(v).insert(v) =~= s.to_multiset());
}

/// Writing an entry into the slot of a valid logical index preserves
/// well-formedness and leaves every other entry unchanged.
proof fn lemma_slot_overwrite(before: RingBuffer, after: RingBuffer, k: int, v: String)
    requires
        before.wf(),
        0 < before@.len(),
        0 <= k < before@.len(),
        after.front == before.front,
        after.back == before.back,
        after.buffer@ == before.buffer@.update(before.physical(k), Some(v)),
    ensures
        after.wf(),
        after.cap() == before.cap(),
        after@.len() == before@.len(),
        after.entry(k) == v,
        forall|i: int| 0 <= i < before@.len() && i != k ==> after@[i] == before@[i],
{
    let c = before.cap() as int;
    assert forall|i: int| 0 <= i < c implies #[trigger] after.physical(i) == before.physical(i) by {}
    assert(before.buffer@[before.physical(k)] is Some);
    assert forall|i: int| 0 <= i < c implies (after.buffer@[#[trigger] after.physical(i)] is Some
        <==> before.buffer@[before.physical(i)] is Some) by {
        if i != k {
            assert(before.physical(i) != before.physical(k));
        }
    }
    assert(before.physical(0) == before.front as int);
    assert(after.physical(0) == after.front as int);
    assert(after.spec_size() == before.spec_size()) by {
        assert(after.buffer@[after.physical(0)] is Some <==> before.buffer@[before.physical(
            0,
        )] is Some);
    }
    assert forall|i: int| 0 <= i < c implies (after.buffer@[#[trigger] after.physical(i)] is Some
        <==> i < after.spec_size()) by {
        assert(after.buffer@[after.physical(i)] is Some <==> before.buffer@[before.physical(
            i,
        )] is Some);
    }
    assert(after.wf());
    assert forall|i: int| 0 <= i < before@.len() && i != k implies after@[i] == before@[i] by {
        assert(before.physical(i) != before.physical(k));
        assert(after.buffer@[after.physical(i)] == before.buffer@[before.physical(i)]);
    }
}

/// Fixed-capacity ring buffer of text lines, overwriting the oldest entry
/// once full.  The abstract contents (`self@`) list the entries from oldest
/// to newest.
pub struct RingBuffer {
    buffer: Vec<Option<String>>,
    front: usize,
    back: usize,
}

impl View for RingBuffer {
    type V = Seq<Seq<char>>;

    open spec fn view(&self) -> Seq<Seq<char>> {
        Seq::new(self.spec_size(), |i: int| self.entry(i)@)
    }
}

impl RingBuffer {
    /// Capacity the buffer was created with.
    pub closed spec fn cap(&self) -> nat {
        self.buffer@.len()
    }

    /// Number of entries currently held.
    pub closed spec fn spec_size(&self) -> nat {
        if self.front == self.back {
            if self.buffer@[self.front as int] is Some {
                self.cap()
            } else {
                0
            }
        } else if self.back > self.front {
            (self.back - self.front) as nat
        } else {
            (self.cap() - self.front + self.back) as nat
        }
    }

    /// Physical slot of logical index `i` (0 = oldest entry).
    closed spec fn physical(&self, i: int) -> int {
        if self.front + i < self.cap() {
            self.front + i
        } else {
            self.front + i - self.cap()
        }
    }

    /// The string stored at logical index `i`.
    pub closed spec fn entry(&self, i: int) -> String {
        self.buffer@[self.physical(i)]->0
    }

    /// Structural invariant: the cursors are in range and the slots occupied
    /// are exactly the logical indices below the current size.
    pub closed spec fn wf(&self) -> bool {
        &&& 0 < self.cap()
        &&& self.front < self.cap()
        &&& self.back < self.cap()
        &&& forall|i: int|
            0 <= i < self.cap() ==> (self.buffer@[#[trigger] self.physical(i)] is Some <==> i
                < self.spec_size())
    }

    /// Creates a buffer that holds at most `capacity` entries.
    pub fn new(capacity: usize) -> (r: RingBuffer)
        requires
            capacity > 0,
        ensures
            r.wf(),
            r.cap() == capacity,
            r@ == Seq::<Seq<char>>::empty(),
    {
        let mut buffer: Vec<Option<String>> = Vec::new();
        let mut i: usize = 0;
        while i < capacity
            invariant
                i <= capacity,
                buffer@.len() == i,
                forall|j: int| 0 <= j < i ==> buffer@[j] is None,
            decreases capacity - i,
        {
            buffer.push(None);
            i += 1;
        }
        let r = RingBuffer { buffer, front: 0, back: 0 };
        proof {
            assert(r@ =~= Seq::<Seq<char>>::empty());
        }
        r
    }

    /// Capacity the buffer was created with.
    pub fn capacity(&self) -> (n: usize)
        ensures
            n == self.cap(),
    {
        self.buffer.len()
    }

    /// Number of entries currently held.
    pub fn size(&self) -> (n: usize)
        requires
            self.wf(),
        ensures
            n == self@.len(),
    {
        if self.is_full() {
            self.buffer.len()
        } else if self.back >= self.front {
            self.back - self.front
        } else {
            self.buffer.len() - self.front + self.back
        }
    }

    /// Whether the buffer holds as many entries as its capacity.
    pub fn is_full(&self) -> (b: bool)
        requires
            self.wf(),
        ensures
            b == (self@.len() == self.cap()),
    {
        proof {
            assert(self.physical(0) == self.front);
        }
        self.front == self.back && self.buffer[self.front].is_some()
    }

    /// Whether the buffer holds no entry.
    pub fn is_empty(&self) -> (b: bool)
        requires
            self.wf(),
        ensures
            b == (self@.len() == 0),
    {
        proof {
            assert(self.physical(0) == self.front);
        }
        self.front == self.back && self.buffer[self.front].is_none()
    }

    /// Physical slot holding logical index `i`.
    fn phys_index(&self, i: usize) -> (p: usize)
        requires
            self.wf(),
            i < self.cap(),
        ensures
            p == self.physical(i as int),
    {
        let len = self.buffer.len();
        if i < len - self.front {
            self.front + i
        } else {
            i - (len - self.front)
        }
    }

    /// Inserts `value` as the newest entry, evicting the oldest entry if the
    /// buffer is full.
    pub fn push_back(&mut self, value: String)
        requires
            old(self).wf(),
        ensures
            final(self).wf(),
            final(self).cap() == old(self).cap(),
            final(self)@ == ring_push(old(self)@, old(self).cap(), value@),
    {
        let len = self.buffer.len();
        if self.is_full() {
            self.front = if self.front + 1 == len {
                0
            } else {
                self.front + 1
            };
        }
        let b = self.back;
        self.buffer.set(b, Some(value));
        self.back = if b + 1 == len {
            0
        } else {
            b + 1
        };
        proof {
            if old(self)@.len() < old(self).cap() {
                let n = old(self)@.len() as int;
                let c = old(self).cap() as int;
                assert(old(self).physical(n) == b);
                assert forall|i: int| 0 <= i < c implies (self.buffer@[#[trigger] self.physical(i)] is Some
                    <==> i <= n) by {
                    assert(self.physical(i) == old(self).physical(i));
                    if i != n {
                        assert(old(self).physical(i) != b);
                        assert(old(self).buffer@[old(self).physical(i)] is Some <==> i < n);
                    }
                }
                assert(self.physical(0) == self.front as int);
                assert(self.spec_size() == n + 1);
                assert(self.wf());
                assert forall|i: int| 0 <= i < self@.len() implies self@[i] == ring_push(
                    old(self)@,
                    old(self).cap(),
                    value@,
                )[i] by {
                    assert(self.physical(i) == old(self).physical(i));
                    if i < n {
                        assert(old(self).physical(i) != b);
                        assert(old(self).buffer@[old(self).physical(i)] is Some);
                    }
                }
                assert(self@ =~= ring_push(old(self)@, old(self).cap(), value@));
            } else {
                let c = old(self).cap() as int;
                assert(old(self).physical(0) == b);
                assert forall|i: int| 0 <= i < c implies self.buffer@[#[trigger] self.physical(i)] is Some by {
                    if i < c - 1 {
                        assert(self.physical(i) == old(self).physical(i + 1));
                        assert(old(self).physical(i + 1) != b);
                        assert(old(self).buffer@[old(self).physical(i + 1)] is Some);
                    } else {
                        assert(self.physical(i) == b);
                    }
                }
                assert(self.physical(0) == self.front as int);
                assert(self.buffer@[self.front as int] is Some);
                assert(self.spec_size() == c);
                assert(self.wf());
                assert forall|i: int| 0 <= i < self@.len() implies self@[i] == ring_push(
                    old(self)@,
                    old(self).cap(),
                    value@,
                )[i] by {
                    if i < c - 1 {
                        assert(self.physical(i) == old(self).physical(i + 1));
                        assert(old(self).physical(i + 1) != b);
                        assert(old(self).buffer@[old(self).physical(i + 1)] is Some);
                    } else {
                        assert(self.physical(i) == b);
                    }
                }
                assert(self@ =~= ring_push(old(self)@, old(self).cap(), value@));
            }
        }
    }

    /// A borrow of the entry at logical index `i`, which must exist.
    fn entry_at(&self, i: usize) -> (r: &String)
        requires
            self.wf(),
            i < self@.len(),
        ensures
            *r == self.entry(i as int),
            r@ == self@[i as int],
    {
        let p = self.phys_index(i);
        self.buffer[p].as_ref().unwrap()
    }

    /// Searches from logical index `start_at` toward the oldest entry
    /// (decreasing indices) and returns the first index whose entry
    /// satisfies `pred`.
    pub fn find_forwards<F: Fn(&String) -> bool>(&self, pred: F, start_at: usize) -> (r: Option<
        usize,
    >)
        requires
            self.wf(),
            start_at < self@.len(),
            forall|s: &String| #[trigger] call_requires(pred, (s,)),
        ensures
            match r {
                Some(i) => {
                    &&& i <= start_at
                    &&& call_ensures(pred, (&self.entry(i as int),), true)
                    &&& forall|j: int|
                        i < j <= start_at ==> call_ensures(pred, (&self.entry(j),), false)
                },
                None => forall|j: int|
                    0 <= j <= start_at ==> call_ensures(pred, (&self.entry(j),), false),
            },
    {
        let mut i = start_at;
        loop
            invariant
                self.wf(),
                i <= start_at < self@.len(),
                forall|s: &String| #[trigger] call_requires(pred, (s,)),
                forall|j: int| i < j <= start_at ==> call_ensures(pred, (&self.entry(j),), false),
            decreases i,
        {
            let matched = pred(self.entry_at(i));
            if matched {
                return Some(i);
            }
            if i == 0 {
                return None;
            }
            i -= 1;
        }
    }

    /// Searches from logical index `start_at` toward the newest entry
    /// (increasing indices) and returns the first index whose entry
    /// satisfies `pred`.
    pub fn find_backwards<F: Fn(&String) -> bool>(&self, pred: F, start_at: usize) -> (r: Option<
        usize,
    >)
        requires
            self.wf(),
            forall|s: &String| #[trigger] call_requires(pred, (s,)),
        ensures
            match r {
                Some(i) => {
                    &&& start_at <= i < self@.len()
                    &&& call_ensures(pred, (&self.entry(i as int),), true)
                    &&& forall|j: int|
                        start_at <= j < i ==> call_ensures(pred, (&self.entry(j),), false)
                },
                None => forall|j: int|
                    start_at <= j < self@.len() ==> call_ensures(pred, (&self.entry(j),), false),
            },
    {
        let size = self.size();
        let mut i = start_at;
        while i < size
            invariant
                self.wf(),
                size == self@.len(),
                start_at <= i,
                forall|s: &String| #[trigger] call_requires(pred, (s,)),
                forall|j: int| start_at <= j < i ==> call_ensures(pred, (&self.entry(j),), false),
            decreases size - i,
        {
            let matched = pred(self.entry_at(i));
            if matched {
                return Some(i);
            }
            i += 1;
        }
        None
    }

    /// Dedup-and-promote insertion: if `value` already occurs, its newest
    /// occurrence moves to the newest position and the relative order of all
    /// other entries is kept; otherwise this is a plain `push_back`.
    pub fn find_and_push_back(&mut self, value: String)
        requires
            old(self).wf(),
        ensures
            final(self).wf(),
            final(self).cap() == old(self).cap(),
            final(self)@ == promote(old(self)@, old(self).cap(), value@),
    {
        if self.is_empty() {
            self.push_back(value);
            return;
        }
        let ghost s0 = self@;
        let size = self.size();
        let eq_pred = |x: &String| -> (b: bool)
            ensures
                b == (x@ == value@),
            { x.eq(&value) };
        let found = self.find_forwards(eq_pred, size - 1);
        match found {
            Some(idx) => {
                proof {
                    assert(s0[idx as int] == value@);
                    assert forall|j: int| idx < j < s0.len() implies s0[j] != value@ by {
                        assert(call_ensures(eq_pred, (&self.entry(j),), false));
                    }
                    lemma_newest_entry_characterization(s0, value@, idx as int);
                }
                let mut k = idx;
                while k + 1 < size
                    invariant
                        self.wf(),
                        self.cap() == old(self).cap(),
                        self.front == old(self).front,
                        self@.len() == s0.len(),
                        size == s0.len(),
                        idx <= k < size,
                        forall|i: int| 0 <= i < idx ==> self@[i] == s0[i],
                        forall|i: int| idx <= i < k ==> self@[i] == s0[i + 1],
                        forall|i: int| k <= i < size ==> self@[i] == s0[i],
                    decreases size - k,
                {
                    let p_next = self.phys_index(k + 1);
                    let moved = self.buffer[p_next].as_ref().unwrap().clone();
                    let p_cur = self.phys_index(k);
                    let ghost before = *self;
                    self.buffer.set(p_cur, Some(moved));
                    proof {
                        lemma_slot_overwrite(before, *self, k as int, moved);
                        assert(self@[k as int] == before@[k + 1]);
                    }
                    k += 1;
                }
                let p_last = self.phys_index(size - 1);
                let ghost before = *self;
                self.buffer.set(p_last, Some(value));
                proof {
                    let last = size - 1;
                    lemma_slot_overwrite(before, *self, last as int, value);
                    assert(self@[last as int] == value@);
                    assert forall|i: int| 0 <= i < self@.len() implies self@[i] == s0.remove(
                        idx as int,
                    ).push(value@)[i] by {
                        if idx <= i < last {
                            assert(s0.remove(idx as int)[i] == s0[i + 1]);
                        } else if i < idx {
                            assert(s0.remove(idx as int)[i] == s0[i]);
                        }
                    }
                    assert(self@ =~= s0.remove(idx as int).push(value@));
                }
            },
            None => {
                proof {
                    assert forall|j: int| 0 <= j < s0.len() implies s0[j] != value@ by {
                        assert(call_ensures(eq_pred, (&self.entry(j),), false));
                    }
                    assert(!has_entry(s0, value@));
                }
                self.push_back(value);
            },
        }
    }

    /// The entry at logical index `index` (0 = oldest), or `None` when the
    /// index lies beyond the current contents.
    pub fn get(&self, index: usize) -> (r: &Option<String>)
        requires
            self.wf(),
            index < self.cap(),
        ensures
            index < self@.len() ==> (*r) is Some && (*r)->0@ == self@[index as int],
            index >= self@.len() ==> (*r) is None,
    {
        let p = self.phys_index(index);
        &self.buffer[p]
    }

    /// Starts an iteration over the entries from newest to oldest.
    pub fn iter_from_back<'a>(&'a self) -> (r: RingBufferIterator<'a>)
        requires
            self.wf(),
        ensures
            r.wf(),
            r.remaining() == self@.reverse(),
    {
        RingBufferIterator::from(self)
    }
}

/// Walks the entries of a [`RingBuffer`] from newest to oldest, producing a
/// clone of each entry.
pub struct RingBufferIterator<'a> {
    buffer: &'a RingBuffer,
    position: usize,
    done: bool,
}

impl<'a> RingBufferIterator<'a> {
    pub closed spec fn wf(&self) -> bool {
        &&& self.buffer.wf()
        &&& (self.buffer@.len() == 0 ==> self.position == 0)
        &&& (self.buffer@.len() > 0 ==> self.position < self.buffer@.len())
    }

    /// The entries still to be produced, in production order (newest
    /// remaining entry first).
    pub closed spec fn remaining(&self) -> Seq<Seq<char>> {
        if self.done || self.buffer@.len() == 0 {
            Seq::empty()
        } else {
            self.buffer@.take(self.position + 1).reverse()
        }
    }

    /// Starts an iteration at the newest entry of `buffer`.
    pub fn from(buffer: &'a RingBuffer) -> (r: RingBufferIterator<'a>)
        requires
            buffer.wf(),
        ensures
            r.wf(),
            r.remaining() == buffer@.reverse(),
    {
        let size = buffer.size();
        let r = RingBufferIterator {
            buffer,
            position: if size == 0 {
                0
            } else {
                size - 1
            },
            done: false,
        };
        proof {
            assert(r.remaining() =~= buffer@.reverse());
        }
        r
    }

    /// Produces the next entry, or `None` once all entries have been
    /// produced.
    pub fn next(&mut self) -> (r: Option<String>)
        requires
            old(self).wf(),
        ensures
            final(self).wf(),
            match r {
                Some(s) => {
                    &&& old(self).remaining().len() > 0
                    &&& s@ == old(self).remaining().first()
                    &&& final(self).remaining() == old(self).remaining().drop_first()
                },
                None => {
                    &&& old(self).remaining().len() == 0
                    &&& final(self).remaining() == old(self).remaining()
                },
            },
    {
        if self.done {
            return None;
        }
        let size = self.buffer.size();
        if size == 0 {
            return None;
        }
        let entry = self.buffer.get(self.position);
        let value = entry.as_ref().unwrap().clone();
        proof {
            assert(old(self).remaining().first() == self.buffer@[self.position as int]);
        }
        if self.position == 0 {
            self.done = true;
        } else {
            self.position -= 1;
        }
        proof {
            assert(self.remaining() =~= old(self).remaining().drop_first());
        }
        Some(value)
    }
}

} // verus!
