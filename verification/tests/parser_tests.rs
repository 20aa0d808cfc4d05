use chaf::ast::{AstNode, Pattern};
use chaf::parser::{parse_query, SyntaxError};

fn literal(s: &str) -> AstNode {
    AstNode::Match(Pattern::Literal(s.to_string()))
}

#[test]
fn test_single_literal() {
    let ast = parse_query("ERROR").unwrap();
    assert!(matches!(ast, AstNode::Match(Pattern::Literal(ref s)) if s == "ERROR"));
}

#[test]
fn test_and_operator() {
    let ast = parse_query("foo & bar").unwrap();
    match ast {
        AstNode::AndNode(left, right) => {
            assert!(matches!(*left, AstNode::Match(Pattern::Literal(ref s)) if s == "foo"));
            assert!(matches!(*right, AstNode::Match(Pattern::Literal(ref s)) if s == "bar"));
        }
        _ => panic!("Expected AndNode"),
    }
}

#[test]
fn test_or_operator_with_not() {
    let ast = parse_query("!foo | bar").unwrap();
    match ast {
        AstNode::OrNode(left, right) => {
            assert!(matches!(*left, AstNode::NotNode(_)));
            assert!(matches!(*right, AstNode::Match(Pattern::Literal(ref s)) if s == "bar"));
        }
        _ => panic!("Expected OrNode"),
    }
}

#[test]
fn test_parentheses() {
    let ast = parse_query("foo & (bar | baz)").unwrap();
    // Just validate it parses without error
    assert!(matches!(ast, AstNode::AndNode(_, _)));
}

#[test]
fn test_empty_query() {
    let err = parse_query("   ").unwrap_err();
    assert!(matches!(err, SyntaxError::EmptyQuery));
}

#[test]
fn test_invalid_token() {
    let err = parse_query("foo & & bar").unwrap_err();
    assert!(matches!(err, SyntaxError::EmptyPattern { .. }));
}

#[test]
fn test_operator_precedence() {
    let ast = parse_query("a & b | c").unwrap();

    // AND has higher precedence than OR
    match ast {
        AstNode::OrNode(lhs, rhs) => {
            match *lhs {
                AstNode::AndNode(ll, lr) => {
                    assert_eq!(format!("{:?}", *ll), format!("{:?}", literal("a")));
                    assert_eq!(format!("{:?}", *lr), format!("{:?}", literal("b")));
                }
                _ => panic!("Left-hand side is not an AndNode"),
            }
            assert_eq!(format!("{:?}", *rhs), format!("{:?}", literal("c")));
        }
        _ => panic!("Expected an OrNode at the top level"),
    }
}

#[test]
fn test_not_has_highest_precedence() {
    let ast = parse_query("!a & b").unwrap();

    // NOT has higher precedence than AND
    match ast {
        AstNode::AndNode(lhs, rhs) => {
            match *lhs {
                AstNode::NotNode(inner) => {
                    assert_eq!(format!("{:?}", *inner), format!("{:?}", literal("a")));
                }
                _ => panic!("Left-hand side is not a NotNode"),
            }
            assert_eq!(format!("{:?}", *rhs), format!("{:?}", literal("b")));
        }
        _ => panic!("Expected an AndNode at the top level"),
    }
}

#[test]
fn test_parentheses_override_precedence() {
    let ast = parse_query("a & (b | c)").unwrap();

    // Parentheses override operator precedence, so OR is evaluated first
    match ast {
        AstNode::AndNode(lhs, rhs) => {
            assert_eq!(format!("{:?}", *lhs), format!("{:?}", literal("a")));

            match *rhs {
                AstNode::OrNode(rl, rr) => {
                    assert_eq!(format!("{:?}", *rl), format!("{:?}", literal("b")));
                    assert_eq!(format!("{:?}", *rr), format!("{:?}", literal("c")));
                }
                _ => panic!("Right-hand side is not an OrNode"),
            }
        }
        _ => panic!("Expected an AndNode at the top level"),
    }
}

#[test]
fn test_interior_whitespace_stripped() {
    // Whitespace inside a bare term is removed, not kept: "er ror" is the
    // single literal "error".
    let ast = parse_query("er ror").unwrap();
    assert!(matches!(ast, AstNode::Match(Pattern::Literal(ref s)) if s == "error"));
}

#[test]
fn test_unmatched_parenthesis() {
    let err = parse_query("(a | b").unwrap_err();
    assert!(matches!(err, SyntaxError::UnmatchedParenthesis { pos: 6 }));
}

#[test]
fn test_trailing_tokens() {
    let err = parse_query("a)b").unwrap_err();
    assert!(matches!(err, SyntaxError::TrailingTokens { pos: 1 }));
}

#[test]
fn test_empty_pattern_position() {
    // "foo & & bar": the second '&' stands where a literal was expected.
    let err = parse_query("foo & & bar").unwrap_err();
    assert!(matches!(err, SyntaxError::EmptyPattern { pos: 6 }));
}

#[test]
fn test_stacked_not() {
    let ast = parse_query("!!a").unwrap();
    match ast {
        AstNode::NotNode(inner) => {
            assert!(matches!(*inner, AstNode::NotNode(_)));
        }
        _ => panic!("Expected a NotNode at the top level"),
    }
}

#[test]
fn test_compact_precedence_forms() {
    // "a&b|c" parses as Or(And(a, b), c); "!a&b" as And(Not(a), b).
    let ast = parse_query("a&b|c").unwrap();
    let expected = AstNode::OrNode(
        Box::new(AstNode::AndNode(
            Box::new(literal("a")),
            Box::new(literal("b")),
        )),
        Box::new(literal("c")),
    );
    assert_eq!(format!("{:?}", ast), format!("{:?}", expected));

    let ast = parse_query("!a&b").unwrap();
    let expected = AstNode::AndNode(
        Box::new(AstNode::NotNode(Box::new(literal("a")))),
        Box::new(literal("b")),
    );
    assert_eq!(format!("{:?}", ast), format!("{:?}", expected));
}
