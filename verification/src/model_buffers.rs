//! The buffers of pending requests, one circular buffer per model, found by model name.
use crate::circular_buffer::{push_step, CircularBuffer};
use crate::server::ModelId;
use dashmap::DashMap;
use vstd::prelude::*;

verus! {

/// The concurrent map of the model names to their buffers' positions
/// (`dashmap::DashMap`).
#[verifier::external_type_specification]
#[verifier::external_body]
#[verifier::reject_recursive_types(K)]
#[verifier::reject_recursive_types(V)]
#[verifier::reject_recursive_types(S)]
pub struct ExDashMap<K, V, S>(DashMap<K, V, S>);

/// The map of the model names to their buffers' positions.
pub type ModelSlots = DashMap<String, usize>;

/// What a map of model names to positions holds.
pub uninterp spec fn model_slots(m: ModelSlots) -> Map<Seq<char>, usize>;

/// `DashMap::new()`: a map with no entry.
#[verifier::external_body]
fn empty_slots() -> (r: ModelSlots)
    ensures
        model_slots(r).dom().is_empty(),
{
    DashMap::new()
}

/// `DashMap::get(key)`, read out: the position stored for `key`, if any.
#[verifier::external_body]
fn slot_of(m: &ModelSlots, key: &str) -> (r: Option<usize>)
    ensures
        r is Some <==> model_slots(*m).dom().contains(key@),
        r matches Some(i) ==> i == model_slots(*m)[key@],
{
    match m.get(key) {
        Some(entry) => Some(*entry.value()),
        None => None,
    }
}

/// `DashMap::insert(key, slot)`: `key` now maps to `slot`, and every other entry stays.
#[verifier::external_body]
fn assign_slot(m: &mut ModelSlots, key: String, slot: usize)
    ensures
        model_slots(*final(m)) == model_slots(*old(m)).insert(key@, slot),
{
    m.insert(key, slot);
}

/// One circular buffer of pending requests per model, each holding at most
/// `capacity` requests.
pub struct ModelBuffers<T> {
    slots: ModelSlots,
    buffers: Vec<CircularBuffer<T>>,
    capacity: usize,
}

impl<T> ModelBuffers<T> {
    /// The capacity of every model's buffer.
    pub closed spec fn capacity_spec(&self) -> nat {
        self.capacity as nat
    }

    /// The pending requests of the model named `id`, oldest first; `None` for a model
    /// that has no buffer.
    pub closed spec fn buffer_of(&self, id: Seq<char>) -> Option<Seq<T>> {
        let slots = model_slots(self.slots);
        if slots.dom().contains(id) {
            Some(self.buffers@[slots[id] as int].recent())
        } else {
            None
        }
    }

    /// Every name leads to a buffer of its own, and every buffer is well formed and has
    /// the common capacity.
    pub closed spec fn wf(&self) -> bool {
        let slots = model_slots(self.slots);
        &&& forall|id: Seq<char>| #[trigger]
            slots.dom().contains(id) ==> slots[id] < self.buffers@.len()
        &&& forall|a: Seq<char>, b: Seq<char>|
            #![trigger slots.dom().contains(a), slots.dom().contains(b)]
            slots.dom().contains(a) && slots.dom().contains(b) && slots[a] == slots[b] ==> a
                == b
        &&& forall|i: int|
            0 <= i < self.buffers@.len() ==> (#[trigger] self.buffers@[i]).wf()
                && self.buffers@[i].capacity_spec() == self.capacity
    }

    /// No model has a buffer yet; each will hold at most `models_buffer_capacity`
    /// requests.
    pub fn new(models_buffer_capacity: usize) -> (m: Self)
        ensures
            m.wf(),
            m.capacity_spec() == models_buffer_capacity,
            forall|id: Seq<char>| #[trigger] m.buffer_of(id) is None,
    {
        ModelBuffers { slots: empty_slots(), buffers: Vec::new(), capacity: models_buffer_capacity }
    }

    /// The capacity of every model's buffer.
    pub fn capacity(&self) -> (c: usize)
        ensures
            c == self.capacity_spec(),
    {
        self.capacity
    }

    /// Gives the model `id` an empty buffer, unless it has one.
    pub fn register(&mut self, id: ModelId)
        requires
            old(self).wf(),
        ensures
            final(self).wf(),
            final(self).capacity_spec() == old(self).capacity_spec(),
            final(self).buffer_of(id.0@) == match old(self).buffer_of(id.0@) {
                Some(r) => Some(r),
                None => Some(Seq::<T>::empty()),
            },
            forall|other: Seq<char>|
                other != id.0@ ==> #[trigger] final(self).buffer_of(other) == old(self).buffer_of(
                    other,
                ),
    {
        let key = id.0;
        match slot_of(&self.slots, key.as_str()) {
            Some(_) => {},
            None => {
                let ghost old_slots = model_slots(self.slots);
                let b: CircularBuffer<T> = CircularBuffer::new(self.capacity);
                let idx = self.buffers.len();
                self.buffers.push(b);
                assign_slot(&mut self.slots, key, idx);
                proof {
                    self.lemma_appended(old_slots, key@, idx);
                }
            },
        }
    }

    /// After a new buffer was appended at position `idx` and `key` was mapped to it:
    /// the invariant holds again and every other name keeps its buffer.
    proof fn lemma_appended(&self, old_slots: Map<Seq<char>, usize>, key: Seq<char>, idx: usize)
        requires
            !old_slots.dom().contains(key),
            model_slots(self.slots) == old_slots.insert(key, idx),
            idx + 1 == self.buffers@.len(),
            forall|id: Seq<char>| #[trigger]
                old_slots.dom().contains(id) ==> old_slots[id] < idx,
            forall|a: Seq<char>, b: Seq<char>|
                #![trigger old_slots.dom().contains(a), old_slots.dom().contains(b)]
                old_slots.dom().contains(a) && old_slots.dom().contains(b) && old_slots[a]
                    == old_slots[b] ==> a == b,
            forall|i: int|
                0 <= i < self.buffers@.len() ==> (#[trigger] self.buffers@[i]).wf()
                    && self.buffers@[i].capacity_spec() == self.capacity,
        ensures
            self.wf(),
    {
        let slots = model_slots(self.slots);
        assert forall|a: Seq<char>, b: Seq<char>|
            slots.dom().contains(a) && slots.dom().contains(b) && slots[a] == slots[b] implies a
            == b by {
            if a != key && b != key {
                assert(old_slots.dom().contains(a) && old_slots.dom().contains(b));
                assert(slots[a] == old_slots[a] && slots[b] == old_slots[b]);
            } else if a == key && b != key {
                assert(old_slots.dom().contains(b));
                assert(slots[b] == old_slots[b] && slots[a] == idx);
            } else if a != key && b == key {
                assert(old_slots.dom().contains(a));
                assert(slots[a] == old_slots[a] && slots[b] == idx);
            }
        }
        assert forall|id: Seq<char>| #[trigger] slots.dom().contains(id) implies slots[id]
            < self.buffers@.len() by {
            if id != key {
                assert(old_slots.dom().contains(id));
            }
        }
    }

    /// Buffers `req` for the model `id`, creating the model's buffer if it has none;
    /// once the buffer is full, `req` replaces its oldest request.
    pub fn add_request(&mut self, id: ModelId, req: T)
        requires
            old(self).wf(),
            old(self).capacity_spec() > 0,
        ensures
            final(self).wf(),
            final(self).capacity_spec() == old(self).capacity_spec(),
            final(self).buffer_of(id.0@) == Some(
                push_step(
                    match old(self).buffer_of(id.0@) {
                        Some(r) => r,
                        None => Seq::<T>::empty(),
                    },
                    req,
                    old(self).capacity_spec(),
                ),
            ),
            forall|other: Seq<char>|
                other != id.0@ ==> #[trigger] final(self).buffer_of(other) == old(self).buffer_of(
                    other,
                ),
    {
        let key = id.0;
        let ghost old_slots = model_slots(self.slots);
        let ghost old_buffers = self.buffers@;
        match slot_of(&self.slots, key.as_str()) {
            Some(i) => {
                let mut b = self.buffers.remove(i);
                b.push(req);
                self.buffers.insert(i, b);
                proof {
                    assert forall|j: int| 0 <= j < self.buffers@.len() && j != i implies #[trigger]
                        self.buffers@[j] == old_buffers[j] by {}
                    assert forall|other: Seq<char>| other != key@ implies #[trigger] self.buffer_of(
                        other,
                    ) == old(self).buffer_of(other) by {
                        if old_slots.dom().contains(other) {
                            assert(old_slots[other] != i);
                        }
                    }
                }
            },
            None => {
                let mut b: CircularBuffer<T> = CircularBuffer::new(self.capacity);
                b.push(req);
                let idx = self.buffers.len();
                self.buffers.push(b);
                assign_slot(&mut self.slots, key, idx);
                proof {
                    self.lemma_appended(old_slots, key@, idx);
                    assert(self.buffers@[idx as int] == b);
                    assert forall|other: Seq<char>| other != key@ implies #[trigger] self.buffer_of(
                        other,
                    ) == old(self).buffer_of(other) by {
                        if old_slots.dom().contains(other) {
                            assert(self.buffers@[old_slots[other] as int] == old_buffers[old_slots[other] as int]);
                        }
                    }
                }
            },
        }
    }

    /// The buffer of the model `id`, if it has one.
    pub fn buffer(&self, id: &ModelId) -> (r: Option<&CircularBuffer<T>>)
        requires
            self.wf(),
        ensures
            r is Some <==> self.buffer_of(id.0@) is Some,
            r matches Some(b) ==> self.buffer_of(id.0@) == Some(b.recent()) && b.wf()
                && b.capacity_spec() == self.capacity_spec(),
    {
        match slot_of(&self.slots, id.0.as_str()) {
            Some(i) => Some(&self.buffers[i]),
            None => None,
        }
    }
}

} // verus!
