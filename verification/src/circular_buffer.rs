//! A fixed-capacity ring buffer.
//!
//! `CircularBuffer<T>` stores up to `capacity` elements. New items are appended
//! until the buffer is full; from then on each new item overwrites the oldest one.
//! `items` gives the stored elements in storage order.
use vstd::prelude::*;

verus! {

/// The elements of `s`, read starting at position `k` and wrapping around.
pub open spec fn rotate<T>(s: Seq<T>, k: int) -> Seq<T> {
    s.subrange(k, s.len() as int) + s.subrange(0, k)
}

/// One push, seen on the oldest-to-newest contents `r` of a buffer of capacity `cap`:
/// the item is appended and, once `cap` items are held, the oldest one is dropped.
pub open spec fn push_step<T>(r: Seq<T>, x: T, cap: nat) -> Seq<T> {
    if r.len() < cap {
        r.push(x)
    } else {
        r.drop_first().push(x)
    }
}

/// The last `min(h.len(), cap)` elements of the history `h`, oldest first.
pub open spec fn keep_recent<T>(h: Seq<T>, cap: nat) -> Seq<T> {
    if h.len() <= cap {
        h
    } else {
        h.subrange(h.len() - cap, h.len() as int)
    }
}

/// The contents that pushing every element of `h`, in order, into an empty buffer of
/// capacity `cap` leaves, oldest first.
pub open spec fn replay<T>(h: Seq<T>, cap: nat) -> Seq<T>
    decreases h.len(),
{
    if h.len() == 0 {
        Seq::empty()
    } else {
        push_step(replay(h.drop_last(), cap), h.last(), cap)
    }
}

/// The storage that pushing every element of `h`, in order, into an empty buffer of
/// capacity `cap` leaves: elements are appended until `cap` are held, then the `i`-th
/// push writes slot `i % cap`.
pub open spec fn stored<T>(h: Seq<T>, cap: nat) -> Seq<T>
    decreases h.len(),
{
    if h.len() == 0 {
        Seq::empty()
    } else {
        let s = stored(h.drop_last(), cap);
        if s.len() < cap {
            s.push(h.last())
        } else {
            s.update((h.len() - 1) % (cap as int), h.last())
        }
    }
}

pub struct CircularBuffer<T> {
    buffer: Vec<T>,
    capacity: usize,
    index: usize,
}

impl<T> CircularBuffer<T> {
    /// The stored elements in storage order (what `items` returns).
    pub closed spec fn items_spec(&self) -> Seq<T> {
        self.buffer@
    }

    /// The capacity the buffer was created with.
    pub closed spec fn capacity_spec(&self) -> nat {
        self.capacity as nat
    }

    /// The storage slot the next push writes once the buffer is full.
    pub closed spec fn next_slot(&self) -> nat {
        self.index as nat
    }

    /// The stored elements from the oldest to the newest.
    pub open spec fn recent(&self) -> Seq<T> {
        rotate(self.items_spec(), self.next_slot() as int)
    }

    /// Well-formedness: never more elements than the capacity; while the buffer is not
    /// full the next slot is the end of the storage, and once full it is a valid slot.
    pub closed spec fn wf(&self) -> bool {
        &&& self.buffer@.len() <= self.capacity
        &&& self.buffer@.len() < self.capacity ==> self.index == self.buffer@.len()
        &&& self.buffer@.len() == self.capacity ==> (self.index < self.capacity || self.capacity
            == 0)
        &&& self.capacity == 0 ==> self.index == 0
    }

    /// The buffer is what pushing the history `h` into a new buffer of its capacity
    /// leaves: the storage `stored(h, capacity)`, with the next push going to slot
    /// `h.len() % capacity`.
    pub open spec fn holds_history(&self, h: Seq<T>) -> bool {
        &&& self.capacity_spec() > 0
        &&& self.items_spec() == stored(h, self.capacity_spec())
        &&& self.next_slot() == h.len() % self.capacity_spec()
    }

    /// Facts about a well-formed buffer that callers may rely on.
    pub proof fn lemma_wf(&self)
        requires
            self.wf(),
        ensures
            self.items_spec().len() <= self.capacity_spec(),
            self.items_spec().len() < self.capacity_spec() ==> self.recent()
                == self.items_spec(),
            self.recent().len() == self.items_spec().len(),
            self.recent().to_multiset() == self.items_spec().to_multiset(),
            self.next_slot() <= self.items_spec().len(),
    {
        let s = self.buffer@;
        let k = self.index as int;
        assert(s.subrange(0, k) + s.subrange(k, s.len() as int) =~= s);
        vstd::seq_lib::lemma_multiset_commutative(s.subrange(k, s.len() as int), s.subrange(0, k));
        vstd::seq_lib::lemma_multiset_commutative(s.subrange(0, k), s.subrange(k, s.len() as int));
        if s.len() < self.capacity {
            assert(s.subrange(k, s.len() as int) =~= Seq::<T>::empty());
            assert(s.subrange(0, k) =~= s);
            assert(self.recent() =~= s);
        }
    }

    /// Creates an empty buffer that holds at most `capacity` elements.
    pub fn new(capacity: usize) -> (b: Self)
        ensures
            b.wf(),
            b.items_spec() == Seq::<T>::empty(),
            b.capacity_spec() == capacity,
            b.recent() == Seq::<T>::empty(),
            capacity > 0 ==> b.holds_history(Seq::<T>::empty()),
    {
        let b = Self { buffer: Vec::with_capacity(capacity), capacity, index: 0 };
        assert(b.recent() =~= Seq::<T>::empty());
        b
    }

    /// Appends `item`; once the buffer is full, `item` overwrites the oldest element.
    pub fn push(&mut self, item: T)
        requires
            old(self).wf(),
            old(self).capacity_spec() > 0,
        ensures
            final(self).wf(),
            final(self).capacity_spec() == old(self).capacity_spec(),
            old(self).items_spec().len() < old(self).capacity_spec() ==> final(self).items_spec()
                == old(self).items_spec().push(item),
            old(self).items_spec().len() == old(self).capacity_spec() ==> final(self).items_spec()
                == old(self).items_spec().update(old(self).next_slot() as int, item),
            final(self).next_slot() == (old(self).next_slot() + 1) % old(self).capacity_spec(),
            final(self).recent() == push_step(old(self).recent(), item, old(self).capacity_spec()),
            forall|h: Seq<T>|
                old(self).holds_history(h) ==> final(self).holds_history(#[trigger] h.push(item)),
    {
        let ghost old_b = self.buffer@;
        let ghost i = self.index as int;
        let ghost c = self.capacity as int;
        if self.buffer.len() < self.capacity {
            self.buffer.push(item);
        } else {
            self.buffer.set(self.index, item);
        }
        self.index = (self.index + 1) % self.capacity;
        proof {
            let nb = self.buffer@;
            let ni = self.index as int;
            if i + 1 < c {
                vstd::arithmetic::div_mod::lemma_small_mod((i + 1) as nat, c as nat);
            } else {
                vstd::arithmetic::div_mod::lemma_mod_self_0(c);
            }
            if old_b.len() < c {
                assert(i == old_b.len());
                assert(rotate(old_b, i) =~= old_b);
                if i + 1 < c {
                    assert(ni == nb.len());
                    assert(rotate(nb, ni) =~= nb);
                } else {
                    assert(ni == 0);
                    assert(rotate(nb, ni) =~= nb);
                }
            } else {
                if i + 1 < c {
                    assert(ni == i + 1);
                    assert(rotate(nb, ni) =~= rotate(old_b, i).drop_first().push(item));
                } else {
                    assert(ni == 0);
                    assert(rotate(nb, ni) =~= rotate(old_b, i).drop_first().push(item));
                }
            }
            assert forall|h: Seq<T>| old(self).holds_history(h) implies self.holds_history(
                #[trigger] h.push(item),
            ) by {
                let hp = h.push(item);
                assert(hp.drop_last() =~= h);
                vstd::arithmetic::div_mod::lemma_add_mod_noop_right(1, h.len() as int, c);
                vstd::arithmetic::div_mod::lemma_mod_bound(h.len() as int, c);
                if i + 1 < c {
                    vstd::arithmetic::div_mod::lemma_small_mod((i + 1) as nat, c as nat);
                } else {
                    vstd::arithmetic::div_mod::lemma_mod_self_0(c);
                }
            }
        }
    }

    /// The stored elements in storage order.
    pub fn items(&self) -> (s: &[T])
        ensures
            s@ == self.items_spec(),
    {
        self.buffer.as_slice()
    }

    /// The maximum number of elements the buffer holds.
    pub fn capacity(&self) -> (c: usize)
        ensures
            c == self.capacity_spec(),
    {
        self.capacity
    }

    /// The number of stored elements.
    pub fn len(&self) -> (n: usize)
        ensures
            n == self.items_spec().len(),
    {
        self.buffer.len()
    }

    /// Whether no element is stored.
    pub fn is_empty(&self) -> (b: bool)
        ensures
            b == (self.items_spec().len() == 0),
    {
        self.buffer.len() == 0
    }

    /// Whether the buffer holds `capacity` elements.
    pub fn is_full(&self) -> (b: bool)
        ensures
            b == (self.items_spec().len() == self.capacity_spec()),
    {
        self.buffer.len() == self.capacity
    }
}

/// Law: replaying a history into an empty buffer of positive capacity keeps exactly the
/// most recent `min(h.len(), cap)` elements of that history, oldest first. Together with
/// the contracts of `new` and `push`, a buffer built by pushing `h` has `recent()` equal to
/// `keep_recent(h, cap)`, and so holds `min(h.len(), cap)` elements.
pub proof fn lemma_replay_keeps_most_recent<T>(h: Seq<T>, cap: nat)
    requires
        cap > 0,
    ensures
        replay(h, cap) == keep_recent(h, cap),
    decreases h.len(),
{
    if h.len() > 0 {
        let p = h.drop_last();
        lemma_replay_keeps_most_recent(p, cap);
        let x = h.last();
        assert(p.push(x) =~= h);
        if p.len() < cap {
            assert(keep_recent(h, cap) =~= p.push(x));
        } else if p.len() == cap {
            assert(keep_recent(h, cap) =~= p.drop_first().push(x));
        } else {
            assert(keep_recent(h, cap) =~= keep_recent(p, cap).drop_first().push(x));
        }
    } else {
        assert(replay(h, cap) =~= keep_recent(h, cap));
    }
}

/// The storage after a history: it holds `min(h.len(), cap)` elements, and each of the
/// last `min(h.len(), cap)` pushes sits at slot `i % cap`, its index modulo the capacity.
proof fn lemma_stored<T>(h: Seq<T>, cap: nat)
    requires
        cap > 0,
    ensures
        stored(h, cap).len() == if h.len() < cap { h.len() } else { cap },
        forall|i: int|
            h.len() - cap <= i < h.len() && 0 <= i ==> #[trigger] stored(h, cap)[i % (cap as int)]
                == h[i],
    decreases h.len(),
{
    if h.len() > 0 {
        let p = h.drop_last();
        lemma_stored(p, cap);
        let k = h.len() - 1;
        let c = cap as int;
        let s = stored(p, cap);
        assert forall|i: int| h.len() - cap <= i < h.len() && 0 <= i implies #[trigger] stored(
            h,
            cap,
        )[i % c] == h[i] by {
            if k < c {
                vstd::arithmetic::div_mod::lemma_small_mod(i as nat, cap);
            } else {
                vstd::arithmetic::div_mod::lemma_mod_bound(i, c);
                vstd::arithmetic::div_mod::lemma_mod_bound(k, c);
                if i < k {
                    assert(i % c != k % c) by {
                        vstd::arithmetic::div_mod::lemma_fundamental_div_mod(i, c);
                        vstd::arithmetic::div_mod::lemma_fundamental_div_mod(k, c);
                        if i % c == k % c {
                            assert(c * (k / c) - c * (i / c) == k - i);
                            vstd::arithmetic::mul::lemma_mul_is_distributive_sub(c, k / c, i / c);
                            if k / c - i / c >= 1 {
                                vstd::arithmetic::mul::lemma_mul_inequality(1, k / c - i / c, c);
                                vstd::arithmetic::mul::lemma_mul_is_commutative(c, k / c - i / c);
                            } else {
                                vstd::arithmetic::mul::lemma_mul_inequality(k / c - i / c, 0, c);
                                vstd::arithmetic::mul::lemma_mul_is_commutative(c, k / c - i / c);
                            }
                        }
                    }
                }
            }
        }
    }
}

/// Law: a buffer of capacity `cap` that holds the history `h` (as one built by `new`
/// and then `push`es of `h` does) stores `min(h.len(), cap)` elements; each of the last
/// `min(h.len(), cap)` pushes sits at slot `i % cap`, so while `h.len() <= cap` the
/// storage is `h` itself and, once full, each push replaces the oldest element in
/// place; it is full exactly when at least `cap` elements were pushed, and empty exactly
/// when none was.
pub proof fn lemma_history<T>(b: CircularBuffer<T>, h: Seq<T>)
    requires
        b.wf(),
        b.holds_history(h),
    ensures
        b.items_spec().len() == if h.len() < b.capacity_spec() {
            h.len()
        } else {
            b.capacity_spec()
        },
        forall|i: int|
            h.len() - b.capacity_spec() <= i < h.len() && 0 <= i ==> #[trigger] b.items_spec()[i
                % (b.capacity_spec() as int)] == h[i],
        h.len() <= b.capacity_spec() ==> b.items_spec() == h,
        (b.items_spec().len() == b.capacity_spec()) <==> h.len() >= b.capacity_spec(),
        (b.items_spec().len() == 0) <==> h.len() == 0,
{
    let cap = b.capacity_spec();
    lemma_stored(h, cap);
    if h.len() <= cap {
        assert forall|i: int| 0 <= i < h.len() implies b.items_spec()[i] == h[i] by {
            vstd::arithmetic::div_mod::lemma_small_mod(i as nat, cap);
        }
        assert(b.items_spec() =~= h);
    }
}

} // verus!
