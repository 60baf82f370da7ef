use hashcc::records::{collect_results, sort_records, DigestRecord, WorkOutcome};

fn rec(path: &str, hash: &str) -> DigestRecord {
    DigestRecord { path: path.to_string(), hash: hash.to_string() }
}

fn paths_of(records: &[DigestRecord]) -> Vec<String> {
    records.iter().map(|r| r.path.clone()).collect()
}

#[test]
fn sort_orders_by_path() {
    let sorted = sort_records(vec![rec("c", "3"), rec("a", "1"), rec("b", "2")]);
    assert_eq!(paths_of(&sorted), vec!["a", "b", "c"]);
    assert_eq!(sorted[0].hash, "1");
    assert_eq!(sorted[1].hash, "2");
    assert_eq!(sorted[2].hash, "3");
}

#[test]
fn sort_is_independent_of_input_order() {
    // The same snapshot handed over in two traversal orders sorts to
    // the same final list.
    let one = sort_records(vec![rec("x/a", "1"), rec("x/b", "2"), rec("w", "3")]);
    let two = sort_records(vec![rec("w", "3"), rec("x/b", "2"), rec("x/a", "1")]);
    assert_eq!(paths_of(&one), paths_of(&two));
    for (a, b) in one.iter().zip(two.iter()) {
        assert_eq!(a.path, b.path);
        assert_eq!(a.hash, b.hash);
    }
}

#[test]
fn sort_handles_empty_and_single() {
    assert!(sort_records(Vec::new()).is_empty());
    let one = sort_records(vec![rec("only", "f")]);
    assert_eq!(paths_of(&one), vec!["only"]);
}

#[test]
fn sort_keeps_prefix_order() {
    let sorted = sort_records(vec![rec("dir/sub", "1"), rec("dir", "2"), rec("dir2", "3")]);
    assert_eq!(paths_of(&sorted), vec!["dir", "dir/sub", "dir2"]);
}

#[test]
fn collect_keeps_failures_and_sorts_successes() {
    let items = vec![
        WorkOutcome::Hashed { path: "b".to_string(), hash: "2".to_string() },
        WorkOutcome::Failed { path: "locked".to_string() },
        WorkOutcome::Hashed { path: "a".to_string(), hash: "1".to_string() },
        WorkOutcome::Failed { path: "gone".to_string() },
    ];
    let results = collect_results(&items);
    assert_eq!(paths_of(&results.records), vec!["a", "b"]);
    assert_eq!(results.failed_paths, vec!["locked", "gone"]);
}

#[test]
fn collect_of_failures_only_yields_no_records() {
    let items = vec![WorkOutcome::Failed { path: "p".to_string() }];
    let results = collect_results(&items);
    assert!(results.records.is_empty());
    assert_eq!(results.failed_paths, vec!["p"]);
}
