use typst_ts_compiler::trace::{count_nanos, TraceAccessModel, TraceOp, TRACED_OPERATIONS};

const ALL: [TraceOp; 7] = [
    TraceOp::Mtime,
    TraceOp::IsFile,
    TraceOp::RealPath,
    TraceOp::ReadAll,
    TraceOp::ReadAllDiff,
    TraceOp::ReplaceDiff,
    TraceOp::Clear,
];

#[test]
fn new_trace_model_starts_at_zero() {
    let model = TraceAccessModel::new("inner");
    assert_eq!(model.inner, "inner");
    for op in ALL {
        assert_eq!(model.elapsed(op), 0);
    }
}

#[test]
fn record_adds_to_the_operation_only() {
    let model = TraceAccessModel::new(());
    model.record(TraceOp::Mtime, 5);
    model.record(TraceOp::Mtime, 7);
    model.record(TraceOp::ReplaceDiff, 1_000_000_000);
    assert_eq!(model.elapsed(TraceOp::Mtime), 12);
    assert_eq!(model.elapsed(TraceOp::ReplaceDiff), 1_000_000_000);
    assert_eq!(model.elapsed(TraceOp::IsFile), 0);
    assert_eq!(model.elapsed(TraceOp::RealPath), 0);
    assert_eq!(model.elapsed(TraceOp::ReadAll), 0);
    assert_eq!(model.elapsed(TraceOp::ReadAllDiff), 0);
    assert_eq!(model.elapsed(TraceOp::Clear), 0);
}

#[test]
fn record_wraps_like_an_atomic_addition() {
    let model = TraceAccessModel::new(());
    model.record(TraceOp::ReadAll, u64::MAX as u128);
    model.record(TraceOp::ReadAll, 3);
    assert_eq!(model.elapsed(TraceOp::ReadAll), 2);
}

#[test]
fn count_nanos_keeps_the_low_bits() {
    assert_eq!(count_nanos(0), 0);
    assert_eq!(count_nanos(42), 42);
    assert_eq!(count_nanos(u64::MAX as u128), u64::MAX);
    assert_eq!(count_nanos((1u128 << 64) + 5), 5);
    assert_eq!(count_nanos(u128::MAX), u64::MAX);
}

#[test]
fn operations_have_distinct_places_and_names() {
    assert_eq!(TRACED_OPERATIONS, 7);
    let places: Vec<usize> = ALL.iter().map(|op| op.index()).collect();
    assert_eq!(places, vec![0, 1, 2, 3, 4, 5, 6]);
    let names: Vec<&str> = ALL.iter().map(|op| op.name()).collect();
    assert_eq!(
        names,
        vec!["mtime", "is_file", "real_path", "read_all", "read_all_diff", "replace_diff", "clear"]
    );
}

#[test]
fn counters_are_shared_through_references() {
    let model = TraceAccessModel::new(());
    let first = &model;
    let second = &model;
    for _ in 0..1000 {
        first.record(TraceOp::IsFile, 2);
        second.record(TraceOp::IsFile, 3);
    }
    assert_eq!(model.elapsed(TraceOp::IsFile), 5000);
}

#[test]
fn traced_hands_the_result_through_and_counts_the_time() {
    let model = TraceAccessModel::new(vec![1u8, 2, 3]);
    let (len, nanos) = model.traced(TraceOp::ReadAll, |inner| inner.len());
    assert_eq!(len, 3);
    assert_eq!(model.elapsed(TraceOp::ReadAll), count_nanos(nanos));
    let (failed, more): (Result<u8, String>, u128) =
        model.traced(TraceOp::ReadAll, |_| Err("not found".to_string()));
    assert_eq!(failed, Err("not found".to_string()));
    assert_eq!(model.elapsed(TraceOp::ReadAll), count_nanos(nanos + more));
    assert_eq!(model.elapsed(TraceOp::Mtime), 0);
}
