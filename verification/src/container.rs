//! Data container abstractions for batching: what a batchable item is, and how items
//! are combined into a batch and split back.
use crate::error::{BatchError, Result};
use vstd::prelude::*;

verus! {

/// Types whose values can be batched together.
pub trait Batchable: Sized + Clone {
    /// The batch size of this item, as a number.
    spec fn spec_batch_size(&self) -> nat;

    /// Get the batch size of this item.
    fn batch_size(&self) -> (n: usize)
        requires
            self.spec_batch_size() <= usize::MAX,
        ensures
            n == self.spec_batch_size(),
    ;

    /// The batch size of this item, or `None` when it does not fit a `usize`.
    fn checked_batch_size(&self) -> (r: Option<usize>)
        ensures
            r is Some <==> self.spec_batch_size() <= usize::MAX,
            r matches Some(n) ==> n == self.spec_batch_size(),
    ;

    /// Check if this item can be combined with others of the same type.
    fn can_batch_with(&self, _other: &Self) -> (b: bool)
        default_ensures
            b,
    {
        true
    }
}

/// The sum of the batch sizes of the items of `s`.
pub open spec fn total_batch_size<T: Batchable>(s: Seq<T>) -> nat
    decreases s.len(),
{
    if s.len() == 0 {
        0
    } else {
        total_batch_size(s.drop_last()) + s.last().spec_batch_size()
    }
}

/// The sum of the numbers in `s`.
pub open spec fn sum_sizes(s: Seq<usize>) -> nat
    decreases s.len(),
{
    if s.len() == 0 {
        0
    } else {
        sum_sizes(s.drop_last()) + s.last() as nat
    }
}

impl Batchable for i32 {
    open spec fn spec_batch_size(&self) -> nat {
        1
    }

    fn batch_size(&self) -> (n: usize) {
        1
    }

    fn checked_batch_size(&self) -> (r: Option<usize>) {
        Some(1)
    }
}

impl Batchable for i64 {
    open spec fn spec_batch_size(&self) -> nat {
        1
    }

    fn batch_size(&self) -> (n: usize) {
        1
    }

    fn checked_batch_size(&self) -> (r: Option<usize>) {
        Some(1)
    }
}

impl Batchable for String {
    open spec fn spec_batch_size(&self) -> nat {
        1
    }

    fn batch_size(&self) -> (n: usize) {
        1
    }

    fn checked_batch_size(&self) -> (r: Option<usize>) {
        Some(1)
    }
}

impl<'a> Batchable for &'a str {
    open spec fn spec_batch_size(&self) -> nat {
        1
    }

    fn batch_size(&self) -> (n: usize) {
        1
    }

    fn checked_batch_size(&self) -> (r: Option<usize>) {
        Some(1)
    }
}

/// A vector of items is as large as the sum of its items.
impl<T: Batchable> Batchable for Vec<T> {
    open spec fn spec_batch_size(&self) -> nat {
        total_batch_size(self@)
    }

    fn batch_size(&self) -> (n: usize) {
        let mut total: usize = 0;
        let mut i: usize = 0;
        while i < self.len()
            invariant
                i <= self.len(),
                total == total_batch_size(self@.subrange(0, i as int)),
                total_batch_size(self@) <= usize::MAX,
            decreases self.len() - i,
        {
            proof {
                lemma_total_batch_size_prefix_le(self@, i as int + 1);
                assert(self@.subrange(0, i as int + 1).drop_last() =~= self@.subrange(0, i as int));
            }
            let item_size = self[i].batch_size();
            total = total + item_size;
            i = i + 1;
        }
        assert(self@.subrange(0, self.len() as int) =~= self@);
        total
    }

    fn checked_batch_size(&self) -> (r: Option<usize>) {
        let mut total: usize = 0;
        let mut i: usize = 0;
        while i < self.len()
            invariant
                i <= self.len(),
                total == total_batch_size(self@.subrange(0, i as int)),
            decreases self.len() - i,
        {
            let ghost prefix = self@.subrange(0, i as int + 1);
            proof {
                assert(prefix.drop_last() =~= self@.subrange(0, i as int));
            }
            match self[i].checked_batch_size() {
                Some(n) => match total.checked_add(n) {
                    Some(t) => {
                        total = t;
                    },
                    None => {
                        proof {
                            lemma_total_batch_size_prefix_le(self@, i as int + 1);
                        }
                        return None;
                    },
                },
                None => {
                    proof {
                        lemma_total_batch_size_prefix_le(self@, i as int + 1);
                    }
                    return None;
                },
            }
            i = i + 1;
        }
        assert(self@.subrange(0, self.len() as int) =~= self@);
        Some(total)
    }
}

/// The batch size of a prefix never exceeds the batch size of the whole sequence.
pub proof fn lemma_total_batch_size_prefix_le<T: Batchable>(s: Seq<T>, k: int)
    requires
        0 <= k <= s.len(),
    ensures
        total_batch_size(s.subrange(0, k)) <= total_batch_size(s),
    decreases s.len(),
{
    if k < s.len() {
        lemma_total_batch_size_prefix_le(s.drop_last(), k);
        assert(s.drop_last().subrange(0, k) =~= s.subrange(0, k));
    } else {
        assert(s.subrange(0, k) =~= s);
    }
}

/// Combining items into a batch and splitting a batch back into items.
pub trait BatchCombiner<T: Batchable> {
    type Batch;

    /// The arithmetic of `split` on `batch` and `sizes` stays within `usize`.
    spec fn split_fits(batch: &Self::Batch, sizes: Seq<usize>) -> bool;

    /// Combine individual items into a batch.
    fn combine(items: Vec<T>) -> Result<Self::Batch>;

    /// Split a batch back into individual items.
    fn split(batch: Self::Batch, sizes: &[usize]) -> Result<Vec<T>>
        requires
            Self::split_fits(&batch, sizes@),
    ;

    /// Get the total batch size.
    fn batch_size(batch: &Self::Batch) -> usize;
}

/// Batch combiner for vectors: the batch is the vector of items itself.
pub struct VecBatchCombiner<T: Batchable> {
    _phantom: core::marker::PhantomData<T>,
}

impl<T: Batchable> BatchCombiner<T> for VecBatchCombiner<T> {
    type Batch = Vec<T>;

    open spec fn split_fits(batch: &Vec<T>, sizes: Seq<usize>) -> bool {
        sum_sizes(sizes) <= usize::MAX
    }

    fn combine(items: Vec<T>) -> (r: Result<Vec<T>>)
        ensures
            r matches Ok(b) && b@ == items@,
    {
        Ok(items)
    }

    /// The batch splits back only when `sizes` add up to its length.
    fn split(batch: Vec<T>, sizes: &[usize]) -> (r: Result<Vec<T>>)
        ensures
            r is Ok <==> sum_sizes(sizes@) == batch@.len(),
            r matches Ok(v) ==> v@ == batch@,
            r is Err ==> r == Err::<Vec<T>, BatchError>(
                BatchError::InvalidBatchSize { size: batch@.len() as usize, max: sum_sizes(sizes@) as usize },
            ),
    {
        let mut total: usize = 0;
        let mut i: usize = 0;
        while i < sizes.len()
            invariant
                i <= sizes@.len(),
                total == sum_sizes(sizes@.subrange(0, i as int)),
                sum_sizes(sizes@) <= usize::MAX,
            decreases sizes.len() - i,
        {
            proof {
                lemma_sum_sizes_prefix_le(sizes@, i as int + 1);
                assert(sizes@.subrange(0, i as int + 1).drop_last() =~= sizes@.subrange(0, i as int));
            }
            total = total + sizes[i];
            i = i + 1;
        }
        assert(sizes@.subrange(0, sizes@.len() as int) =~= sizes@);
        if total != batch.len() {
            return Err(BatchError::InvalidBatchSize { size: batch.len(), max: total });
        }
        Ok(batch)
    }

    fn batch_size(batch: &Vec<T>) -> (n: usize)
        ensures
            n == batch@.len(),
    {
        batch.len()
    }
}

/// The sum of a prefix never exceeds the sum of the whole sequence.
pub proof fn lemma_sum_sizes_prefix_le(s: Seq<usize>, k: int)
    requires
        0 <= k <= s.len(),
    ensures
        sum_sizes(s.subrange(0, k)) <= sum_sizes(s),
    decreases s.len(),
{
    if k < s.len() {
        lemma_sum_sizes_prefix_le(s.drop_last(), k);
        assert(s.drop_last().subrange(0, k) =~= s.subrange(0, k));
    } else {
        assert(s.subrange(0, k) =~= s);
    }
}

/// The consecutive chunks of `b` of the lengths in `sizes`, or `None` when some chunk
/// would run past the end of `b`. Elements past the last chunk are left out.
pub open spec fn chunks<T>(b: Seq<T>, sizes: Seq<usize>) -> Option<Seq<Seq<T>>>
    decreases sizes.len(),
{
    if sizes.len() == 0 {
        Some(Seq::empty())
    } else if sizes[0] > b.len() {
        None
    } else {
        match chunks(b.skip(sizes[0] as int), sizes.drop_first()) {
            Some(r) => Some(seq![b.take(sizes[0] as int)] + r),
            None => None,
        }
    }
}

/// The end offset `offset + size` of the first chunk that runs past `len`, when the
/// chunks of lengths `sizes` are laid out from `offset`.
pub open spec fn first_overrun(len: nat, sizes: Seq<usize>, offset: nat) -> nat
    decreases sizes.len(),
{
    if sizes.len() == 0 {
        offset
    } else if offset + sizes[0] > len {
        offset + sizes[0] as nat
    } else {
        first_overrun(len, sizes.drop_first(), offset + sizes[0] as nat)
    }
}

/// Laying out chunks of lengths `sizes` from `offset` in a batch of length `len`, every
/// end offset up to and including that of the first chunk that runs past `len` fits a
/// `usize`.
pub open spec fn overrun_fits(len: nat, sizes: Seq<usize>, offset: nat) -> bool
    decreases sizes.len(),
{
    if sizes.len() == 0 {
        true
    } else {
        &&& offset + sizes[0] <= usize::MAX
        &&& (offset + sizes[0] > len || overrun_fits(len, sizes.drop_first(), offset + sizes[0] as nat))
    }
}

/// The contents of a vector of vectors.
pub open spec fn nested_view<T>(v: Seq<Vec<T>>) -> Seq<Seq<T>> {
    v.map_values(|x: Vec<T>| x@)
}

/// The lengths of the sequences of `s`.
pub open spec fn lengths<T>(s: Seq<Seq<T>>) -> Seq<usize> {
    s.map_values(|x: Seq<T>| x.len() as usize)
}

/// Batch combiner for nested vectors: the batch is the concatenation of the items.
pub struct NestedVecBatchCombiner<T: Batchable> {
    _phantom: core::marker::PhantomData<T>,
}

impl<T: Batchable> BatchCombiner<Vec<T>> for NestedVecBatchCombiner<T> {
    type Batch = Vec<T>;

    open spec fn split_fits(batch: &Vec<T>, sizes: Seq<usize>) -> bool {
        overrun_fits(batch@.len(), sizes, 0)
    }

    fn combine(items: Vec<Vec<T>>) -> (r: Result<Vec<T>>)
        ensures
            r matches Ok(b) && b@ == nested_view(items@).flatten(),
    {
        let mut items = items;
        let mut out: Vec<T> = Vec::new();
        let ghost whole = nested_view(items@).flatten();
        while items.len() > 0
            invariant
                whole == out@ + nested_view(items@).flatten(),
            decreases items.len(),
        {
            let ghost before = items@;
            let mut first = items.remove(0);
            proof {
                assert(nested_view(before).first() == first@);
                assert(nested_view(before).drop_first() =~= nested_view(items@));
            }
            out.append(&mut first);
            proof {
                assert(out@ + nested_view(items@).flatten() =~= whole);
            }
        }
        assert(nested_view(items@) =~= Seq::<Seq<T>>::empty());
        assert(out@ =~= whole);
        Ok(out)
    }

    /// Cuts the batch into consecutive chunks of the given sizes; fails at the first
    /// chunk that would run past the end of the batch.
    fn split(batch: Vec<T>, sizes: &[usize]) -> (r: Result<Vec<Vec<T>>>)
        ensures
            r is Ok <==> chunks(batch@, sizes@) is Some,
            r matches Ok(v) ==> Some(nested_view(v@)) == chunks(batch@, sizes@),
            r is Err ==> r == Err::<Vec<Vec<T>>, BatchError>(
                BatchError::InvalidBatchSize {
                    size: batch@.len() as usize,
                    max: first_overrun(batch@.len(), sizes@, 0) as usize,
                },
            ),
    {
        let ghost b = batch@;
        let len = batch.len();
        let mut rest = batch;
        let mut result: Vec<Vec<T>> = Vec::new();
        let mut offset: usize = 0;
        let mut i: usize = 0;
        assert(b.skip(0) =~= b);
        assert(sizes@.skip(0) =~= sizes@);
        while i < sizes.len()
            invariant
                b == batch@,
                len == b.len(),
                i <= sizes@.len(),
                offset <= len,
                rest@ == b.skip(offset as int),
                overrun_fits(len as nat, sizes@.skip(i as int), offset as nat),
                first_overrun(len as nat, sizes@, 0) == first_overrun(
                    len as nat,
                    sizes@.skip(i as int),
                    offset as nat,
                ),
                match chunks(rest@, sizes@.skip(i as int)) {
                    Some(r) => chunks(b, sizes@) == Some(nested_view(result@) + r),
                    None => chunks(b, sizes@) is None,
                },
            decreases sizes.len() - i,
        {
            let size = sizes[i];
            let ghost tail_sizes = sizes@.skip(i as int);
            assert(tail_sizes[0] == size);
            assert(tail_sizes.drop_first() =~= sizes@.skip(i as int + 1));
            if offset + size > len {
                assert(rest@.len() == len - offset);
                assert(chunks(rest@, tail_sizes) is None);
                assert(first_overrun(len as nat, tail_sizes, offset as nat) == offset + size);
                return Err(BatchError::InvalidBatchSize { size: len, max: offset + size });
            }
            let ghost old_rest = rest@;
            let tail = rest.split_off(size);
            proof {
                assert(rest@ =~= old_rest.take(size as int));
                assert(tail@ =~= old_rest.skip(size as int));
                assert(b.skip(offset as int).skip(size as int) =~= b.skip(offset + size));
                assert(nested_view(result@.push(rest)) =~= nested_view(result@).push(rest@));
                match chunks(tail@, sizes@.skip(i as int + 1)) {
                    Some(r) => {
                        assert(nested_view(result@).push(rest@) + r =~= nested_view(result@) + (
                        seq![rest@] + r));
                    },
                    None => {},
                }
            }
            result.push(rest);
            rest = tail;
            offset = offset + size;
            i = i + 1;
        }
        proof {
            assert(sizes@.skip(i as int) =~= Seq::<usize>::empty());
            assert(nested_view(result@) + Seq::<Seq<T>>::empty() =~= nested_view(result@));
        }
        Ok(result)
    }

    fn batch_size(batch: &Vec<T>) -> (n: usize)
        ensures
            n == batch@.len(),
    {
        batch.len()
    }
}

/// Laying out the lengths of `items` from `offset`, within a batch of length `len` that
/// holds them all, no chunk runs past the end and every end offset fits a `usize`.
proof fn lemma_lengths_fit<T>(items: Seq<Seq<T>>, len: nat, offset: nat)
    requires
        offset + items.flatten().len() <= len,
        len <= usize::MAX,
    ensures
        overrun_fits(len, lengths(items), offset),
    decreases items.len(),
{
    if items.len() > 0 {
        let rest = items.drop_first();
        let first = items.first();
        assert(items.flatten() == first + rest.flatten());
        assert(lengths(items)[0] == first.len());
        assert(lengths(items).drop_first() =~= lengths(rest));
        lemma_lengths_fit(rest, len, offset + first.len());
    } else {
        assert(lengths(items) =~= Seq::<usize>::empty());
    }
}

/// Law: splitting the combination of nested items by the lengths of those items gives
/// the items back. Since the combined batch is a vector, its length fits a `usize`, and
/// then `split`'s precondition holds for those lengths.
pub proof fn lemma_nested_split_combine_roundtrip<T>(items: Seq<Seq<T>>)
    requires
        items.flatten().len() <= usize::MAX,
    ensures
        overrun_fits(items.flatten().len(), lengths(items), 0),
        chunks(items.flatten(), lengths(items)) == Some(items),
    decreases items.len(),
{
    lemma_lengths_fit(items, items.flatten().len(), 0);
    if items.len() > 0 {
        let rest = items.drop_first();
        let flat = items.flatten();
        let first = items.first();
        assert(flat == first + rest.flatten());
        lemma_nested_split_combine_roundtrip(rest);
        assert(lengths(items)[0] == first.len());
        assert(lengths(items).drop_first() =~= lengths(rest));
        assert(flat.skip(first.len() as int) =~= rest.flatten());
        assert(flat.take(first.len() as int) =~= first);
        assert(seq![first] + rest =~= items);
    } else {
        assert(lengths(items) =~= Seq::<usize>::empty());
    }
}

} // verus!
