use sql_cleaner::config::is_excluded_position;
use sql_cleaner::config::FilterConfig;
use sql_cleaner::config::Verdict;
use sql_cleaner::config::DEFAULT_PATTERN;
use sql_cleaner::filter::filter_lines;
use sql_cleaner::filter::FilterReport;
use sql_cleaner::filter::LineFilter;

fn config(excluded: &[usize], pattern: &str, trailing: usize) -> FilterConfig {
    FilterConfig {
        excluded_positions: excluded.to_vec(),
        pattern: pattern.to_string(),
        trailing_drop_count: trailing,
    }
}

fn owned(lines: &[&str]) -> Vec<String> {
    lines.iter().map(|l| l.to_string()).collect()
}

/// Runs the streaming filter over `lines` and collects what it releases.
fn stream(lines: &[&str], config: FilterConfig) -> (Vec<String>, FilterReport) {
    let mut filter = LineFilter::new(config);
    let mut written = Vec::new();
    for line in lines {
        if let Some(out) = filter.push_line(line.to_string()) {
            written.push(out);
        }
    }
    (written, filter.report())
}

fn assert_accounted(report: &FilterReport) {
    assert_eq!(
        report.kept + report.dropped_by_position + report.dropped_by_pattern + report.withheld,
        report.total
    );
    assert_eq!(report.dropped, report.total - report.kept);
}

#[test]
fn default_pattern_is_unistr() {
    assert_eq!(DEFAULT_PATTERN, "unistr(");
}

#[test]
fn excluded_position_lookup() {
    assert!(is_excluded_position(1, &[1]));
    assert!(!is_excluded_position(2, &[1]));
    assert!(is_excluded_position(2, &[1, 2]));
    assert!(is_excluded_position(7, &[3, 7, 7]));
    assert!(!is_excluded_position(1, &[]));
    assert!(!is_excluded_position(0, &[1, 2]));
}

#[test]
fn verdict_puts_position_before_pattern() {
    let cfg = config(&[2], "unistr(", 1);
    assert_eq!(cfg.judge(1, "plain"), Verdict::Survives);
    assert_eq!(cfg.judge(1, "has UNISTR( in it"), Verdict::MatchedPattern);
    assert_eq!(cfg.judge(2, "plain"), Verdict::ExcludedPosition);
    assert_eq!(cfg.judge(2, "has UNISTR( in it"), Verdict::ExcludedPosition);
    assert_eq!(cfg.judge(3, "unistx("), Verdict::Survives);
}

#[test]
fn empty_pattern_removes_every_allowed_line() {
    let cfg = config(&[1], "", 0);
    assert_eq!(cfg.judge(1, "a"), Verdict::ExcludedPosition);
    assert_eq!(cfg.judge(2, "a"), Verdict::MatchedPattern);
    assert_eq!(cfg.judge(3, ""), Verdict::MatchedPattern);
    let (written, report) = stream(&["a", "b", "c"], config(&[1], "", 0));
    assert!(written.is_empty());
    assert_eq!(report.dropped_by_position, 1);
    assert_eq!(report.dropped_by_pattern, 2);
    assert_accounted(&report);
}

#[test]
fn first_line_excluded_and_last_line_withheld() {
    let input = ["L1", "L2", "L3", "L4", "L5"];
    let (written, report) = stream(&input, config(&[1], "unistr(", 1));
    assert_eq!(written, owned(&["L2", "L3", "L4"]));
    assert_eq!(
        report,
        FilterReport {
            total: 5,
            kept: 3,
            dropped: 2,
            dropped_by_position: 1,
            dropped_by_pattern: 0,
            withheld: 1,
        }
    );
    let outcome = filter_lines(&owned(&input), config(&[1], "unistr(", 1));
    assert_eq!(outcome.kept, owned(&["L2", "L3", "L4"]));
    assert_eq!(outcome.report, report);
}

#[test]
fn pattern_line_removed_and_two_withheld() {
    let input = ["H", "contains UNISTR( call", "middle", "tail1", "tail2"];
    let (written, report) = stream(&input, config(&[], "unistr(", 2));
    assert_eq!(written, owned(&["H", "middle"]));
    assert_eq!(
        report,
        FilterReport {
            total: 5,
            kept: 2,
            dropped: 3,
            dropped_by_position: 0,
            dropped_by_pattern: 1,
            withheld: 2,
        }
    );
    let outcome = filter_lines(&owned(&input), config(&[], "unistr(", 2));
    assert_eq!(outcome.kept, owned(&["H", "middle"]));
    assert_eq!(outcome.report, report);
}

#[test]
fn release_happens_when_a_later_survivor_arrives() {
    let mut filter = LineFilter::new(config(&[1], "unistr(", 2));
    assert_eq!(filter.push_line("header".to_string()), None);
    assert_eq!(filter.push_line("a".to_string()), None);
    assert_eq!(filter.push_line("b".to_string()), None);
    assert_eq!(filter.push_line("x UniStr( y".to_string()), None);
    assert_eq!(filter.push_line("c".to_string()), Some("a".to_string()));
    assert_eq!(filter.push_line("UNISTR(".to_string()), None);
    assert_eq!(filter.push_line("d".to_string()), Some("b".to_string()));
    let report = filter.report();
    assert_eq!(
        report,
        FilterReport {
            total: 7,
            kept: 2,
            dropped: 5,
            dropped_by_position: 1,
            dropped_by_pattern: 2,
            withheld: 2,
        }
    );
    assert_accounted(&report);
}

#[test]
fn fewer_lines_than_the_window_gives_no_output() {
    let (written, report) = stream(&["a", "b", "c"], config(&[], "unistr(", 6));
    assert!(written.is_empty());
    assert_eq!(report.total, 3);
    assert_eq!(report.kept, 0);
    assert_eq!(report.withheld, 3);
    assert_accounted(&report);
    let outcome = filter_lines(&owned(&["a", "b", "c"]), config(&[], "unistr(", 6));
    assert!(outcome.kept.is_empty());
}

#[test]
fn exactly_as_many_lines_as_the_window_gives_no_output() {
    let (written, report) = stream(&["a", "b"], config(&[], "unistr(", 2));
    assert!(written.is_empty());
    assert_eq!(report.withheld, 2);
    let (written, _) = stream(&["a", "b", "c"], config(&[], "unistr(", 2));
    assert_eq!(written, owned(&["a"]));
}

#[test]
fn empty_input_gives_empty_output_and_zero_counts() {
    let (written, report) = stream(&[], config(&[1], "unistr(", 1));
    assert!(written.is_empty());
    assert_eq!(
        report,
        FilterReport {
            total: 0,
            kept: 0,
            dropped: 0,
            dropped_by_position: 0,
            dropped_by_pattern: 0,
            withheld: 0,
        }
    );
    let outcome = filter_lines(&Vec::new(), config(&[1], "unistr(", 1));
    assert!(outcome.kept.is_empty());
    assert_eq!(outcome.report, report);
}

#[test]
fn no_trailing_drop_releases_each_survivor_at_once() {
    let mut filter = LineFilter::new(config(&[2], "unistr(", 0));
    assert_eq!(filter.push_line("a".to_string()), Some("a".to_string()));
    assert_eq!(filter.push_line("b".to_string()), None);
    assert_eq!(filter.push_line("unistr(".to_string()), None);
    assert_eq!(filter.push_line("c".to_string()), Some("c".to_string()));
    let report = filter.report();
    assert_eq!(report.kept, 2);
    assert_eq!(report.withheld, 0);
    assert_accounted(&report);
}

#[test]
fn second_line_excluded_and_six_withheld() {
    let input = ["1", "2", "3", "4", "5", "6", "7", "8", "9", "10"];
    let (written, report) = stream(&input, config(&[2], "unistr(", 6));
    assert_eq!(written, owned(&["1", "3", "4"]));
    assert_eq!(report.withheld, 6);
    assert_eq!(report.dropped, 7);
    assert_accounted(&report);
}

#[test]
fn several_positions_can_be_excluded() {
    let input = ["a", "b", "c", "d", "e"];
    let (written, report) = stream(&input, config(&[1, 2, 5, 9], "unistr(", 0));
    assert_eq!(written, owned(&["c", "d"]));
    assert_eq!(report.dropped_by_position, 3);
    assert_accounted(&report);
}

#[test]
fn excluded_line_with_pattern_counts_as_position_only() {
    let (written, report) = stream(&["UNISTR(", "b", "c"], config(&[1], "unistr(", 1));
    assert_eq!(written, owned(&["b"]));
    assert_eq!(report.dropped_by_position, 1);
    assert_eq!(report.dropped_by_pattern, 0);
    assert_accounted(&report);
}

#[test]
fn line_endings_pass_through_unchanged() {
    let input = ["a\r\n", "b\n", "c\r\n", "d"];
    let (written, _) = stream(&input, config(&[], "unistr(", 1));
    assert_eq!(written, owned(&["a\r\n", "b\n", "c\r\n"]));
}

#[test]
fn kept_lines_keep_their_order_and_duplicates() {
    let input = ["x", "y", "x", "x", "z", "y"];
    let (written, _) = stream(&input, config(&[], "unistr(", 2));
    assert_eq!(written, owned(&["x", "y", "x", "x"]));
}

#[test]
fn accounting_holds_after_every_line() {
    let input = ["h", "UNISTR(1", "a", "b", "unistr(2", "c", "d", "e", "UniStr(3", "f"];
    let mut filter = LineFilter::new(config(&[1, 4], "unistr(", 3));
    assert_accounted(&filter.report());
    let mut written = 0;
    for (i, line) in input.iter().enumerate() {
        if filter.push_line(line.to_string()).is_some() {
            written += 1;
        }
        let report = filter.report();
        assert_eq!(report.total, i + 1);
        assert_eq!(report.kept, written);
        assert!(report.withheld <= 3);
        assert_accounted(&report);
    }
    assert_eq!(
        filter.report(),
        FilterReport {
            total: 10,
            kept: 2,
            dropped: 8,
            dropped_by_position: 2,
            dropped_by_pattern: 3,
            withheld: 3,
        }
    );
}

#[test]
fn whole_input_and_streaming_agree() {
    let input = ["h", "UNISTR(1", "a", "b", "unistr(2", "c", "d", "e", "UniStr(3", "f"];
    for trailing in 0..8 {
        let (written, report) = stream(&input, config(&[2, 3], "Unistr(", trailing));
        let outcome = filter_lines(&owned(&input), config(&[2, 3], "Unistr(", trailing));
        assert_eq!(outcome.kept, written);
        assert_eq!(outcome.report, report);
    }
}

#[test]
fn same_input_gives_same_output() {
    let input = owned(&["a", "unistr(", "b", "c"]);
    let first = filter_lines(&input, config(&[1], DEFAULT_PATTERN, 1));
    let second = filter_lines(&input, config(&[1], DEFAULT_PATTERN, 1));
    assert_eq!(first.kept, second.kept);
    assert_eq!(first.report, second.report);
    assert_eq!(first.kept, owned(&["b"]));
}
