use move_mutator::report::{Report, StatUpdate};

#[test]
fn report_starts_empty() {
    let report = Report::new("package_dir".into());
    assert_eq!(report.entries().len(), 0);
}

#[test]
fn increment_mutants_tested_adds_new_module_if_not_present() {
    let mut report = Report::new("package_dir".into());
    let path = "path/to/file";
    let module_name = "new_module";
    report.increment_mutants_tested(path, module_name);
    let entry = report.entries_for(path).unwrap();
    assert!(entry.iter().any(|s| s.module_func == module_name));
}

#[test]
fn increment_mutants_killed_adds_new_module_if_not_present() {
    let mut report = Report::new("package_dir".into());
    let path = "path/to/file";
    let module_name = "new_module";
    report.increment_mutants_killed(path, module_name);
    let entry = report.entries_for(path).unwrap();
    assert!(entry.iter().any(|s| s.module_func == module_name));
}

#[test]
fn increment_mutants_tested_increases_tested_count_for_existing_module() {
    let mut report = Report::new("package_dir".into());
    let path = "path/to/file";
    let module_name = "existing_module";
    report.increment_mutants_tested(path, module_name);
    report.increment_mutants_tested(path, module_name);
    let entry = report.entries_for(path).unwrap();
    let stat = entry.iter().find(|s| s.module_func == module_name).unwrap();
    assert_eq!(stat.tested, 2);
    assert_eq!(stat.killed, 0);
}

#[test]
fn increment_mutants_killed_increases_killed_count_for_existing_module() {
    let mut report = Report::new("package_dir".into());
    let path = "path/to/file";
    let module_name = "existing_module";
    report.increment_mutants_killed(path, module_name);
    report.increment_mutants_killed(path, module_name);
    let entry = report.entries_for(path).unwrap();
    let stat = entry.iter().find(|s| s.module_func == module_name).unwrap();
    assert_eq!(stat.killed, 2);
    assert_eq!(stat.tested, 0);
}

#[test]
fn mutants_tested_returns_correct_total_tested_count() {
    let mut report = Report::new("package_dir".into());
    let path1 = "path/to/file1";
    let path2 = "path/to/file2";
    let module_name = "module";
    report.increment_mutants_tested(path1, module_name);
    report.increment_mutants_tested(path2, module_name);
    assert_eq!(report.mutants_tested(), 2);
    assert_eq!(report.mutants_killed(), 0);
}

#[test]
fn mutants_killed_returns_correct_total_killed_count() {
    let mut report = Report::new("package_dir".into());
    let path1 = "path/to/file1";
    let path2 = "path/to/file2";
    let module_name = "module";
    report.increment_mutants_killed(path1, module_name);
    report.increment_mutants_killed(path2, module_name);
    assert_eq!(report.mutants_killed(), 2);
    assert_eq!(report.mutants_tested(), 0);
}

#[test]
fn add_mutants_alive_diff_adds_new_module_if_not_present() {
    let mut report = Report::new("package_dir".into());
    let path = "path/to/file";
    let module_name = "new_module";
    let diff = "diff";
    report.add_mutants_alive_diff(path, module_name, diff);
    let entry = report.entries_for(path).unwrap();
    assert!(entry
        .iter()
        .any(|s| s.module_func == module_name && s.mutants_alive_diffs.contains(&diff.to_owned())));
}

#[test]
fn add_mutants_alive_diff_adds_diff_to_existing_module() {
    let mut report = Report::new("package_dir".into());
    let path = "path/to/file";
    let module_name = "existing_module";
    let diff1 = "diff1";
    let diff2 = "diff2";
    report.add_mutants_alive_diff(path, module_name, diff1);
    report.add_mutants_alive_diff(path, module_name, diff2);
    let entry = report.entries_for(path).unwrap();
    let stat = entry.iter().find(|s| s.module_func == module_name).unwrap();
    assert_eq!(stat.mutants_alive_diffs, vec![diff1, diff2]);
}

#[test]
fn increment_stat_records_killed_diffs() {
    let mut report = Report::new("package_dir".into());
    report.increment_stat(
        "file",
        "mod::f",
        StatUpdate::KilledDiff("the diff".to_owned()),
    );
    let stat = &report.entries_for("file").unwrap()[0];
    assert_eq!(stat.mutants_killed_diff, vec!["the diff"]);
    assert_eq!(stat.tested, 0);
}

#[test]
fn get_module_name_takes_the_part_before_the_colons() {
    let mut report = Report::new("pkg".into());
    report.increment_mutants_tested("file", "vector::append");
    let stat = &report.entries_for("file").unwrap()[0];
    assert_eq!(stat.get_module_name(), "vector");
}

#[test]
fn get_module_name_without_colons_is_the_whole_name() {
    let mut report = Report::new("pkg".into());
    report.increment_mutants_tested("file", "plain");
    let stat = &report.entries_for("file").unwrap()[0];
    assert_eq!(stat.get_module_name(), "plain");
}

#[test]
fn merge_sums_counts_across_reports() {
    let mut a = Report::new("pkg".into());
    a.increment_mutants_tested("f1", "m::x");
    a.increment_mutants_tested("f1", "m::x");
    a.increment_mutants_killed("f1", "m::x");
    let mut b = Report::new("pkg".into());
    b.increment_mutants_tested("f1", "m::x");
    b.increment_mutants_tested("f2", "m::y");
    a.merge(b);
    assert_eq!(a.mutants_tested(), 4);
    assert_eq!(a.mutants_killed(), 1);
}

#[test]
fn merge_is_commutative_in_the_totals() {
    let mut a1 = Report::new("pkg".into());
    a1.increment_mutants_tested("f1", "m::x");
    a1.add_mutants_alive_diff("f1", "m::x", "d1");
    let mut b1 = Report::new("pkg".into());
    b1.increment_mutants_killed("f2", "m::y");
    b1.add_mutants_killed_diff("f2", "m::y", "d2");

    let mut a2 = Report::new("pkg".into());
    a2.increment_mutants_killed("f2", "m::y");
    a2.add_mutants_killed_diff("f2", "m::y", "d2");
    let mut b2 = Report::new("pkg".into());
    b2.increment_mutants_tested("f1", "m::x");
    b2.add_mutants_alive_diff("f1", "m::x", "d1");

    a1.merge(b1);
    a2.merge(b2);
    assert_eq!(a1.mutants_tested(), a2.mutants_tested());
    assert_eq!(a1.mutants_killed(), a2.mutants_killed());
    let d1: usize = a1
        .entries()
        .iter()
        .map(|(_, ss)| {
            ss.iter()
                .map(|s| s.mutants_alive_diffs.len() + s.mutants_killed_diff.len())
                .sum::<usize>()
        })
        .sum();
    let d2: usize = a2
        .entries()
        .iter()
        .map(|(_, ss)| {
            ss.iter()
                .map(|s| s.mutants_alive_diffs.len() + s.mutants_killed_diff.len())
                .sum::<usize>()
        })
        .sum();
    assert_eq!(d1, d2);
}

#[test]
fn effectiveness_is_zero_when_nothing_was_tested() {
    let stats = move_mutator::report::OperatorStats::new("x".to_owned());
    assert_eq!(stats.effectiveness_hundredths(), 0);
}

#[test]
fn effectiveness_is_in_hundredths_of_a_percent() {
    let mut stats = move_mutator::report::OperatorStats::new("x".to_owned());
    stats.tested = 8;
    stats.killed = 7;
    assert_eq!(stats.effectiveness_hundredths(), 8750);
}
