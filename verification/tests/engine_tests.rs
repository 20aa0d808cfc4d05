use chaf::ast::{AstNode, Pattern};
use chaf::engine::run_filter;
use chaf::filter::build_filter;

fn lit(s: &str) -> AstNode {
    AstNode::Match(Pattern::Literal(s.to_string()))
}

#[test]
fn test_basic_output_logic() {
    // Keep the lines that do not contain 'b': the query "b" in default
    // (drop-on-match) mode.
    let input = b"foo\nbar\nbaz";
    let filter = build_filter(&lit("b"), false);

    let (output, _stats) = run_filter(input, &filter, false);

    let result = String::from_utf8(output).unwrap();
    assert_eq!(result, "foo\n");
}

#[test]
fn test_crlf_conversion() {
    let crlf_input = b"line1\r\nline2\r\nline3\r\n";
    // A filter that lets every line through: nothing contains "zzz", and the
    // default mode keeps non-matching lines.
    let filter = build_filter(&lit("zzz"), false);

    let (output, _stats) = run_filter(crlf_input, &filter, false);

    let result = String::from_utf8(output).unwrap();
    assert_eq!(result, "line1\nline2\nline3\n");
}

#[test]
fn test_filter_error_outputs_line() {
    // The second line is not valid UTF-8: the filter fails on it, and the
    // fail-open policy writes it out all the same.
    let input = b"ok line\nbad \xff line";
    let filter = build_filter(&lit("zzz"), false);

    let (output, stats) = run_filter(input, &filter, false);

    assert_eq!(output, b"ok line\nbad \xff line");
    assert_eq!(stats.total, 2);
    assert_eq!(stats.written, 2);
    assert_eq!(stats.skipped, 0);
}

#[test]
fn test_report_mode_no_output() {
    let input = b"a\nb\nc";
    let filter = build_filter(&lit("zzz"), false);

    let (output, _stats) = run_filter(input, &filter, true);

    assert_eq!(output.len(), 0); // report mode suppresses the sink
}
