//! End-to-end tests of the threshold-gated dispatcher: the original-order
//! guarantee of every strategy, the threshold boundary, the chunk partition,
//! agreement between strategies, and the demo workload's values.

use splitter::chunks::build_chunks;
use splitter::collatz::compute;
use splitter::dispatch::{dispatch, dispatch_flag, FanoutMode};
use splitter::model::should_parallelize;
use splitter::rayon_fanout::{splitter_rayon, splitter_rayon_chunks};
use splitter::sequential::run_sequential;
use splitter::threads::{splitter_std, splitter_std_chunks, splitter_std_test};

fn add_str(name: &str) -> String {
    format!("{}_prefix", name)
}

#[test]
fn check_splitter_std() {
    let data = vec![1, 2, 3, 4, 6, 12, 100, 75, 55, 98];
    let res = splitter_std(data, compute);
    assert_eq!(res, vec![0, 1, 7, 2, 8, 2, 88, 64, 47, 14]);
}

#[test]
fn check_splitter_rayon() {
    let data = vec![1, 2, 3, 4, 6, 12, 100, 75, 55, 98];
    let res = splitter_rayon(data, compute);
    assert_eq!(res, vec![0, 1, 7, 2, 8, 2, 88, 64, 47, 14]);
}

#[test]
fn check_generics() {
    let data = vec!["George", "Falcon", "Something"];
    let res = splitter_std(data, add_str);
    assert_eq!(res, vec!["George_prefix", "Falcon_prefix", "Something_prefix"]);
}

#[test]
fn check_threads_spawn() {
    let data = vec![1, 2, 3, 4, 6, 12, 100, 75, 55, 98]; // more than 3 so it's threading
    let (_, res) = splitter_std_test(data, compute);
    assert_eq!(res, true);

    let data = vec![1, 2]; // less than 3 - one thread
    let (_, res) = splitter_std_test(data, compute);
    assert_eq!(res, false);

    let data = vec![1, 2, 3]; // exact 3 should be calculated in one thread
    let (_, res) = splitter_std_test(data, compute);
    assert_eq!(res, false);

    let data = vec![1, 2, 3, 4]; // over threshold
    let (_, res) = splitter_std_test(data, compute);
    assert_eq!(res, true);
}

#[test]
fn check_all_strategies_agree() {
    let data = vec![1u64, 2, 3, 4, 6, 12, 100, 75, 55, 98];
    let expected = vec![0u64, 1, 7, 2, 8, 2, 88, 64, 47, 14];
    assert_eq!(run_sequential(data.clone(), compute), expected);
    assert_eq!(splitter_std(data.clone(), compute), expected);
    assert_eq!(splitter_std_chunks(data.clone(), compute), expected);
    assert_eq!(splitter_rayon(data.clone(), compute), expected);
    assert_eq!(splitter_rayon_chunks(data.clone(), compute), expected);
    assert_eq!(dispatch(data.clone(), compute, FanoutMode::PerItem), expected);
    assert_eq!(dispatch(data, compute, FanoutMode::Chunked), expected);
}

#[test]
fn check_dispatch_idempotent() {
    let data = vec![9u64, 8, 7, 6, 5, 4, 3];
    let first = dispatch(data.clone(), compute, FanoutMode::Chunked);
    let second = dispatch(data, compute, FanoutMode::Chunked);
    assert_eq!(first, second);
}

#[test]
fn check_dispatch_flag_boundaries() {
    let (out, flag) = dispatch_flag(vec![1u64, 2], compute, FanoutMode::PerItem);
    assert_eq!(out, vec![0, 1]);
    assert_eq!(flag, false);

    let (out, flag) = dispatch_flag(vec![1u64, 2, 3], compute, FanoutMode::Chunked);
    assert_eq!(out, vec![0, 1, 7]);
    assert_eq!(flag, false);

    let (out, flag) = dispatch_flag(vec![1u64, 2, 3, 4], compute, FanoutMode::Chunked);
    assert_eq!(out, vec![0, 1, 7, 2]);
    assert_eq!(flag, true);
}

#[test]
fn check_selector() {
    assert_eq!(should_parallelize(0), false);
    assert_eq!(should_parallelize(3), false);
    assert_eq!(should_parallelize(4), true);
}

#[test]
fn check_chunk_partition() {
    let data = vec![10u64, 20, 30, 40, 50, 60, 70];
    let chunks = build_chunks(&data);
    assert_eq!(
        chunks,
        vec![vec![10u64, 20, 30], vec![40, 50, 60], vec![70]]
    );
    let rebuilt: Vec<u64> = chunks.concat();
    assert_eq!(rebuilt, data);

    let exact = vec![1u64, 2, 3];
    assert_eq!(build_chunks(&exact), vec![vec![1u64, 2, 3]]);

    let empty: Vec<u64> = Vec::new();
    assert_eq!(build_chunks(&empty).len(), 0);
}

#[test]
fn check_empty_input() {
    let empty: Vec<u64> = Vec::new();
    assert_eq!(splitter_std(empty.clone(), compute), Vec::<u64>::new());
    assert_eq!(splitter_std_chunks(empty.clone(), compute), Vec::<u64>::new());
    assert_eq!(splitter_rayon(empty.clone(), compute), Vec::<u64>::new());
    assert_eq!(splitter_rayon_chunks(empty, compute), Vec::<u64>::new());
}

#[test]
fn check_compute_values() {
    assert_eq!(compute(1), 0);
    assert_eq!(compute(2), 1);
    assert_eq!(compute(3), 7);
    assert_eq!(compute(4), 2);
    assert_eq!(compute(6), 8);
    assert_eq!(compute(12), 2);
    assert_eq!(compute(100), 88);
    assert_eq!(compute(75), 64);
    assert_eq!(compute(55), 47);
    assert_eq!(compute(98), 14);
}

#[test]
fn check_generics_chunked() {
    let data = vec!["a", "b", "c", "d", "e"];
    let expected = vec!["a_prefix", "b_prefix", "c_prefix", "d_prefix", "e_prefix"];
    assert_eq!(splitter_std_chunks(data.clone(), add_str), expected);
    assert_eq!(splitter_rayon_chunks(data, add_str), expected);
}
