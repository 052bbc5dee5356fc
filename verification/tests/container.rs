use galemind::container::{BatchCombiner, Batchable, NestedVecBatchCombiner, VecBatchCombiner};
use galemind::error::BatchError;

#[test]
fn test_vec_batch_combiner() {
    let items = vec![1, 2, 3, 4, 5];
    let batch = VecBatchCombiner::combine(items.clone()).unwrap();
    assert_eq!(VecBatchCombiner::batch_size(&batch), 5);

    let split_result = VecBatchCombiner::split(batch, &[5]).unwrap();
    assert_eq!(split_result, items);
}

#[test]
fn test_nested_vec_batch_combiner() {
    let items = vec![vec![1, 2], vec![3, 4, 5]];
    let batch = NestedVecBatchCombiner::combine(items).unwrap();
    assert_eq!(NestedVecBatchCombiner::batch_size(&batch), 5);

    let split_result = NestedVecBatchCombiner::split(batch, &[2, 3]).unwrap();
    assert_eq!(split_result, vec![vec![1, 2], vec![3, 4, 5]]);
}

#[test]
fn vec_split_rejects_sizes_that_do_not_add_up() {
    let batch = VecBatchCombiner::combine(vec![1i64, 2, 3]).unwrap();
    let err = VecBatchCombiner::split(batch, &[1, 1]).unwrap_err();
    assert_eq!(err, BatchError::InvalidBatchSize { size: 3, max: 2 });
}

#[test]
fn nested_split_reports_first_chunk_past_the_end() {
    let batch = NestedVecBatchCombiner::combine(vec![vec![1, 2, 3], vec![4]]).unwrap();
    assert_eq!(batch, vec![1, 2, 3, 4]);
    let err = NestedVecBatchCombiner::split(batch, &[2, 3, 1]).unwrap_err();
    assert_eq!(err, BatchError::InvalidBatchSize { size: 4, max: 5 });
}

#[test]
fn nested_split_leaves_out_the_tail_and_allows_empty_chunks() {
    let batch = vec![7, 8, 9];
    let parts = NestedVecBatchCombiner::split(batch, &[0, 2]).unwrap();
    assert_eq!(parts, vec![vec![], vec![7, 8]]);
}

#[test]
fn nested_roundtrip_gives_items_back() {
    let items = vec![vec![String::from("a")], vec![], vec![String::from("b"), String::from("c")]];
    let sizes: Vec<usize> = items.iter().map(|v| v.len()).collect();
    let batch = NestedVecBatchCombiner::combine(items.clone()).unwrap();
    assert_eq!(NestedVecBatchCombiner::split(batch, &sizes).unwrap(), items);
}

#[test]
fn batch_sizes_of_items_and_vectors() {
    assert_eq!(3i32.batch_size(), 1);
    assert_eq!(String::from("x").batch_size(), 1);
    assert_eq!("y".batch_size(), 1);
    let nested = vec![vec![1i64, 2], vec![3]];
    assert_eq!(nested.batch_size(), 3);
    assert!(1i32.can_batch_with(&2));
}

#[test]
fn nested_split_reports_an_overrun_at_the_limit_of_usize() {
    let batch = vec![7];
    let r = NestedVecBatchCombiner::split(batch, &[usize::MAX]);
    assert_eq!(r, Err(BatchError::InvalidBatchSize { size: 1, max: usize::MAX }));
    // sizes after the first overrun are never added up
    let r = NestedVecBatchCombiner::split(vec![1, 2], &[3, usize::MAX]);
    assert_eq!(r, Err(BatchError::InvalidBatchSize { size: 2, max: 3 }));
}

#[test]
fn nested_combine_then_split_by_lengths_gives_the_items_back() {
    let items = vec![vec![1], vec![], vec![2, 3, 4]];
    let lens: Vec<usize> = items.iter().map(|x| x.len()).collect();
    let batch = NestedVecBatchCombiner::combine(items.clone()).unwrap();
    assert_eq!(NestedVecBatchCombiner::split(batch, &lens), Ok(items));
}

#[test]
fn checked_batch_sizes() {
    assert_eq!(5i32.checked_batch_size(), Some(1));
    assert_eq!(vec![vec![1, 2], vec![3]].checked_batch_size(), Some(3));
    assert_eq!("x".checked_batch_size(), Some(1));
}
