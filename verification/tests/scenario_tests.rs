use chaf::ast::{AstNode, Pattern};
use chaf::engine::{process_line, run_filter, RunStats};
use chaf::filter::build_filter;
use chaf::parser::{parse_query, SyntaxError};

fn compile(query: &str, invert: bool) -> chaf::filter::Filter {
    let ast = parse_query(query).unwrap();
    build_filter(&ast, invert)
}

#[test]
fn test_default_mode_drops_matching_lines() {
    // Query "debug | error" drops both matching lines; only "info: y" stays.
    let filter = compile("debug | error", false);
    let input = b"error: x\ninfo: y\ndebug: z\n";

    let (output, _stats) = run_filter(input, &filter, false);

    assert_eq!(String::from_utf8(output).unwrap(), "info: y\n");
}

#[test]
fn test_invert_keeps_matching_lines() {
    let filter = compile("debug | error", true);
    let input = b"error: x\ninfo: y\ndebug: z\n";

    let (output, _stats) = run_filter(input, &filter, false);

    assert_eq!(String::from_utf8(output).unwrap(), "error: x\ndebug: z\n");
}

#[test]
fn test_report_mode_counts() {
    // "warn" drops two of three lines; report mode suppresses the sink and
    // only the counters tell the story.
    let filter = compile("warn", false);
    let input = b"warn: 1\nwarn: 2\nok\n";

    let (output, stats) = run_filter(input, &filter, true);

    assert_eq!(output.len(), 0);
    assert_eq!(stats.total, 3);
    assert_eq!(stats.skipped, 2);
    assert_eq!(stats.written, 1);
}

#[test]
fn test_counters_sum_to_total() {
    for invert in [false, true] {
        for report in [false, true] {
            let filter = compile("a | b", invert);
            let (_output, stats) = run_filter(b"abc\nxyz\nb\n\n", &filter, report);
            assert_eq!(stats.total, 4);
            assert_eq!(stats.written + stats.skipped, stats.total);
        }
    }
}

#[test]
fn test_whitespace_only_query_is_rejected() {
    // The whole pipeline stops before any line is read: the query alone is
    // refused.
    let err = parse_query(" \t ").unwrap_err();
    assert!(matches!(err, SyntaxError::EmptyQuery));
}

#[test]
fn test_crlf_round_trip() {
    // CRLF input with an always-true predicate comes out with bare newlines.
    let filter = compile("zzz", false);
    let (output, _stats) = run_filter(b"x\r\ny\r\n", &filter, false);
    assert_eq!(output, b"x\ny\n");
}

#[test]
fn test_invalid_utf8_line_fail_open() {
    // One invalid line amid two valid ones: it is written out unchanged and
    // counted as included, and the run goes on.
    let filter = compile("drop", false);
    let input = b"keep me\ndrop me\nbad \xff\nalso kept\n";

    let (output, stats) = run_filter(input, &filter, false);

    assert_eq!(output, b"keep me\nbad \xff\nalso kept\n");
    assert_eq!(stats.total, 4);
    assert_eq!(stats.written, 3);
    assert_eq!(stats.skipped, 1);
}

#[test]
fn test_process_line_normalizes_and_counts() {
    let filter = compile("zzz", false);
    let mut stats = RunStats { total: 0, skipped: 0, written: 0 };

    let (line, write) = process_line(&filter, false, b"one\r\n".to_vec(), &mut stats);
    assert_eq!(line, b"one\n");
    assert!(write);

    let (line, write) = process_line(&filter, true, b"two\n".to_vec(), &mut stats);
    assert_eq!(line, b"two\n");
    assert!(!write); // report mode: included, but never written

    assert_eq!(stats.total, 2);
    assert_eq!(stats.written, 2);
    assert_eq!(stats.skipped, 0);
}

#[test]
fn test_empty_input_empty_run() {
    let filter = compile("anything", false);
    let (output, stats) = run_filter(b"", &filter, false);
    assert_eq!(output.len(), 0);
    assert_eq!(stats, RunStats { total: 0, skipped: 0, written: 0 });
}

#[test]
fn test_last_line_without_newline_kept() {
    let filter = compile("zzz", false);
    let (output, stats) = run_filter(b"a\nb", &filter, false);
    assert_eq!(output, b"a\nb");
    assert_eq!(stats.total, 2);
}
