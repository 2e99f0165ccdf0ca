use move_mutator::benchmark::{decimal_string, Benchmark, Benchmarks};
use move_mutator::display_report::{
    find_mutated_line_number, FileStats, MutantFilter, MutatedLine,
};
use move_mutator::mutation_test::batch_bounds;
use move_mutator::analyzer::{extract_project_stats, light_tier_count, medium_tier_count, AggregatedStats};
use move_mutator::cli::ModuleFilter;
use move_mutator::report::{OperatorStats, Report};

#[test]
fn mutant_filter_selects_the_right_kinds() {
    assert!(MutantFilter::Both.contains_killed());
    assert!(MutantFilter::Both.contains_alive());
    assert!(MutantFilter::Killed.contains_killed());
    assert!(!MutantFilter::Killed.contains_alive());
    assert!(MutantFilter::Alive.contains_alive());
    assert!(!MutantFilter::Alive.contains_killed());
}

#[test]
fn mutant_filter_parses_the_three_options() {
    assert_eq!(MutantFilter::parse("alive").unwrap(), MutantFilter::Alive);
    assert_eq!(MutantFilter::parse("killed").unwrap(), MutantFilter::Killed);
    assert_eq!(MutantFilter::parse("both").unwrap(), MutantFilter::Both);
    assert!(MutantFilter::parse("everything").is_err());
}

#[test]
fn find_mutated_line_number_counts_leading_context() {
    let diff = "--- original\n+++ modified\n@@ -1,3 +1,3 @@\n a\n-b\n+c\n c\n";
    assert_eq!(find_mutated_line_number(diff).unwrap(), 2);
    assert!(find_mutated_line_number("not a diff").is_err());
}

#[test]
fn file_stats_count_totals_and_kills_per_line() {
    let mut fs = FileStats::new();
    fs.increment_total_per_line(3);
    fs.increment_killed_per_line(3);
    fs.increment_killed_per_line(7);
    let l3 = fs.mutated_lines.iter().find(|(l, _)| *l == 3).unwrap().1;
    assert_eq!(l3.total_mutants, 2);
    assert_eq!(l3.killed_mutants, 1);
    let l7 = fs.mutated_lines.iter().find(|(l, _)| *l == 7).unwrap().1;
    assert_eq!(l7.total_mutants, 1);
    assert_eq!(l7.killed_mutants, 1);
}

#[test]
fn mutated_line_mirrors_the_stats_record() {
    let mut report = Report::new("pkg".into());
    report.increment_mutants_tested("f", "m::x");
    report.increment_mutants_killed("f", "m::x");
    let stat = &report.entries_for("f").unwrap()[0];
    let ml = MutatedLine::from_stats(stat);
    assert_eq!(ml.total_mutants, stat.tested);
    assert_eq!(ml.killed_mutants, stat.killed);
}

#[test]
fn files_containing_modules_are_selected_by_the_filter() {
    let mut report = Report::new("pkg".into());
    report.increment_mutants_tested("f1", "alpha::x");
    report.increment_mutants_tested("f2", "beta::y");
    let all = ModuleFilter::All.get_all_files_containing_the_modules(&report);
    assert_eq!(all.len(), 2);
    let only_alpha = ModuleFilter::Selected(vec!["alpha".to_string()])
        .get_all_files_containing_the_modules(&report);
    assert_eq!(only_alpha, vec!["f1"]);
}

#[test]
fn batch_bounds_cover_everything_in_fixed_chunks() {
    let b = batch_bounds(150, 64);
    assert_eq!(b, vec![(0, 64), (64, 128), (128, 150)]);
    assert_eq!(batch_bounds(0, 64), vec![]);
    assert_eq!(batch_bounds(64, 64), vec![(0, 64)]);
}

#[test]
fn decimal_rendering_matches_the_standard_one() {
    assert_eq!(decimal_string(0), "0");
    assert_eq!(decimal_string(907), "907");
    assert_eq!(decimal_string(1000000), "1000000");
}

#[test]
fn benchmark_display_lists_every_phase() {
    let mut b = Benchmarks::new();
    b.total_tool_duration = Benchmark {
        start_time: 0,
        elapsed: 12,
    };
    b.mutant_results.push(Benchmark {
        start_time: 0,
        elapsed: 5,
    });
    b.mutant_results.push(Benchmark {
        start_time: 0,
        elapsed: 9,
    });
    let text = b.display();
    assert!(text.contains("Total tool execution time is 12 msecs"));
    assert!(text.contains("Min execution time for a mutant: 5 msecs"));
    assert!(text.contains("Max execution time for a mutant: 9 msecs"));
    assert!(text.contains("Average execution time for each mutant: 7 msecs"));
}

#[test]
fn benchmark_measures_elapsed_time() {
    let mut b = Benchmark::new();
    assert_eq!(b.elapsed, 0);
    b.start();
    b.stop();
    // The clock is monotone enough for this to be representable.
    assert!(b.elapsed < 10_000);
}

#[test]
fn analyzer_aggregates_project_reports() {
    let mut report = Report::new("pkg".into());
    report.operator_stats.push(OperatorStats {
        name: "delete_statement".to_string(),
        tested: 10,
        killed: 9,
    });
    report.operator_stats.push(OperatorStats {
        name: "literal_replacement".to_string(),
        tested: 5,
        killed: 2,
    });
    let stats = extract_project_stats(&report);
    assert_eq!(stats.total_tested, 15);
    assert_eq!(stats.total_killed, 11);
    let mut agg = AggregatedStats::new();
    agg.add_report(report);
    assert_eq!(agg.total_projects, 1);
    assert_eq!(agg.total_mutants_tested, 15);
    assert_eq!(agg.total_mutants_killed, 11);
}

#[test]
fn tier_counts_take_the_rounded_up_share() {
    assert_eq!(light_tier_count(7), 3);
    assert_eq!(medium_tier_count(7), 5);
    assert_eq!(light_tier_count(0), 0);
    assert_eq!(medium_tier_count(10), 6);
}

#[test]
fn calculate_file_stats_counts_killed_and_alive_per_line() {
    let diff_line2 = "--- original\n+++ modified\n@@ -1,3 +1,3 @@\n a\n-b\n+c\n c\n";
    let diff_line1 = "--- original\n+++ modified\n@@ -1,2 +1,2 @@\n-a\n+z\n b\n";
    let mut report = Report::new("pkg".into());
    report.increment_mutants_tested("f", "m::x");
    report.add_mutants_alive_diff("f", "m::x", diff_line2);
    report.add_mutants_killed_diff("f", "m::x", diff_line1);
    report.add_mutants_killed_diff("f", "m::x", diff_line2);
    let fs = move_mutator::display_report::calculate_file_stats("f", &report).unwrap();
    let l1 = fs.mutated_lines.iter().find(|(l, _)| *l == 1).unwrap().1;
    assert_eq!(l1.total_mutants, 1);
    assert_eq!(l1.killed_mutants, 1);
    let l2 = fs.mutated_lines.iter().find(|(l, _)| *l == 2).unwrap().1;
    assert_eq!(l2.total_mutants, 2);
    assert_eq!(l2.killed_mutants, 1);
}

#[test]
fn calculate_file_stats_of_an_absent_file_is_empty() {
    let report = Report::new("pkg".into());
    let fs = move_mutator::display_report::calculate_file_stats("nope", &report).unwrap();
    assert!(fs.mutated_lines.is_empty());
}

#[test]
fn calculate_file_stats_rejects_an_invalid_diff() {
    let mut report = Report::new("pkg".into());
    report.add_mutants_alive_diff("f", "m::x", "not a diff");
    let r = move_mutator::display_report::calculate_file_stats("f", &report);
    assert!(r.is_err());
}
