use chaf::ast::{AstNode, Pattern};
use chaf::filter::{build_filter, EncodingError};

fn lit(s: &str) -> AstNode {
    AstNode::Match(Pattern::Literal(s.to_string()))
}

#[test]
fn test_match_without_invert() {
    let ast = lit("ERROR");
    let filter = build_filter(&ast, false);

    // Contains "ERROR" -> matched=true -> invert=false -> false (excluded)
    assert_eq!(filter.apply(b"this is ERROR").unwrap(), false);

    // Does not contain -> matched=false -> invert=false -> true (included)
    assert_eq!(filter.apply(b"all good").unwrap(), true);
}

#[test]
fn test_match_with_invert() {
    let ast = lit("ERROR");
    let filter = build_filter(&ast, true);

    // Contains "ERROR" -> matched=true -> invert=true -> true (included)
    assert_eq!(filter.apply(b"this is ERROR").unwrap(), true);

    // Does not contain -> matched=false -> invert=true -> false (excluded)
    assert_eq!(filter.apply(b"all good").unwrap(), false);
}

#[test]
fn test_and_expression_invert() {
    let ast = AstNode::AndNode(Box::new(lit("foo")), Box::new(lit("bar")));

    let f1 = build_filter(&ast, false);
    let f2 = build_filter(&ast, true);

    assert_eq!(f1.apply(b"foo bar").unwrap(), false); // matched -> invert=false -> false
    assert_eq!(f1.apply(b"foo only").unwrap(), true); // not matched -> true

    assert_eq!(f2.apply(b"foo bar").unwrap(), true); // matched -> invert=true -> true
    assert_eq!(f2.apply(b"foo only").unwrap(), false); // not matched -> invert=true -> false
}

#[test]
fn test_not_expression_invert() {
    let ast = AstNode::NotNode(Box::new(lit("DEBUG")));

    let f = build_filter(&ast, false);
    let g = build_filter(&ast, true);

    assert_eq!(f.apply(b"DEBUG").unwrap(), true); // matched=false -> invert=false -> true
    assert_eq!(f.apply(b"INFO").unwrap(), false); // matched=true -> invert=false -> false

    assert_eq!(g.apply(b"DEBUG").unwrap(), false); // matched=false -> invert=true -> false
    assert_eq!(g.apply(b"INFO").unwrap(), true); // matched=true -> invert=true -> true
}

#[test]
fn test_invalid_utf8() {
    let ast = lit("foo");
    let filter = build_filter(&ast, false);

    let result = filter.apply(&[0xff, 0xfe, 0xfd]);
    assert!(result.is_err());
    assert!(matches!(result.unwrap_err(), EncodingError::InvalidEncoding));
}

#[test]
fn test_invert_negates_every_verdict() {
    // On any line that decodes, the inverted filter answers exactly the
    // negation of the non-inverted one.
    let ast = AstNode::OrNode(
        Box::new(lit("debug")),
        Box::new(AstNode::NotNode(Box::new(lit("error")))),
    );
    let plain = build_filter(&ast, false);
    let inverted = build_filter(&ast, true);
    for line in [
        b"debug: z".as_slice(),
        b"error: x".as_slice(),
        b"info: y".as_slice(),
        b"".as_slice(),
    ] {
        assert_eq!(plain.apply(line).unwrap(), !inverted.apply(line).unwrap());
    }
}
