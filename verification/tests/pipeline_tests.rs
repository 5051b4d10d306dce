use record_linker::pipeline::HashRun;

#[test]
fn zero_files_give_an_empty_plan_and_a_zero_report() {
    let run = HashRun::new("sfx".to_string());
    let plan = run.plan_writes();
    assert!(plan.is_empty());
    let report = run.report();
    assert_eq!(report.total_files, 0);
    assert_eq!(report.total_bytes, 0);
    assert_eq!(report.shard_counts.len(), 16);
    assert!(report.shard_counts.iter().all(|&c| c == 0));
}

#[test]
fn records_are_planned_in_order_with_first_use_opens() {
    let mut run = HashRun::new("r9".to_string());
    run.record_file("a1".to_string(), "/p/one".to_string(), 10);
    run.record_file("b2".to_string(), "/p/two".to_string(), 5);
    run.record_file("a3".to_string(), "/p/three".to_string(), 1);

    let plan = run.plan_writes();
    assert_eq!(plan.len(), 3);

    assert_eq!(plan[0].shard, 'a');
    assert_eq!(plan[0].open_file, Some("a_r9.csv".to_string()));
    assert_eq!(plan[0].line, "a1,/p/one\n");

    assert_eq!(plan[1].shard, 'b');
    assert_eq!(plan[1].open_file, Some("b_r9.csv".to_string()));
    assert_eq!(plan[1].line, "b2,/p/two\n");

    assert_eq!(plan[2].shard, 'a');
    assert_eq!(plan[2].open_file, None);
    assert_eq!(plan[2].line, "a3,/p/three\n");

    let report = run.report();
    assert_eq!(report.total_files, 3);
    assert_eq!(report.total_bytes, 16);
    assert_eq!(report.shard_counts[10], 2);
    assert_eq!(report.shard_counts[11], 1);
    assert_eq!(report.shard_counts[0], 0);
}

#[test]
fn two_suffixes_write_the_same_content_into_disjoint_files() {
    let mut run1 = HashRun::new("one".to_string());
    let mut run2 = HashRun::new("two".to_string());
    for (digest, path, size) in [("a1", "/p/x", 3u64), ("f0", "/p/y", 4), ("a2", "/p/z", 5)] {
        run1.record_file(digest.to_string(), path.to_string(), size);
        run2.record_file(digest.to_string(), path.to_string(), size);
    }
    let plan1 = run1.plan_writes();
    let plan2 = run2.plan_writes();
    assert_eq!(plan1.len(), plan2.len());
    for (w1, w2) in plan1.iter().zip(plan2.iter()) {
        // Identical per-shard content: same shard, same line.
        assert_eq!(w1.shard, w2.shard);
        assert_eq!(w1.line, w2.line);
        assert_eq!(w1.open_file.is_some(), w2.open_file.is_some());
    }
    // Disjoint file sets: no file of one run is a file of the other.
    let names1: Vec<&String> = plan1.iter().filter_map(|w| w.open_file.as_ref()).collect();
    let names2: Vec<&String> = plan2.iter().filter_map(|w| w.open_file.as_ref()).collect();
    assert!(!names1.is_empty() && !names2.is_empty());
    for n1 in &names1 {
        assert!(!names2.contains(n1));
    }
}
