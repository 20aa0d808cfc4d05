//! Compiles an expression tree into a predicate over a line of text.

use vstd::prelude::*;

use crate::ast::{AstNode, Pattern, SpecAst};
use vstd::string::StrSliceExecFns;

verus! {

/// A compiled predicate. It mirrors the shape of the tree it was built from;
/// each leaf tests substring containment of its literal in the line.
pub enum Evaluator {
    And(Box<Evaluator>, Box<Evaluator>),
    Or(Box<Evaluator>, Box<Evaluator>),
    Not(Box<Evaluator>),
    Contains(String),
}

/// The mathematical form of a compiled predicate.
pub enum SpecPred {
    And(Box<SpecPred>, Box<SpecPred>),
    Or(Box<SpecPred>, Box<SpecPred>),
    Not(Box<SpecPred>),
    Contains(Seq<char>),
}

/// The mathematical form of a compiled predicate value.
pub open spec fn pred_view(e: Evaluator) -> SpecPred
    decreases e,
{
    match e {
        Evaluator::And(l, r) => SpecPred::And(Box::new(pred_view(*l)), Box::new(pred_view(*r))),
        Evaluator::Or(l, r) => SpecPred::Or(Box::new(pred_view(*l)), Box::new(pred_view(*r))),
        Evaluator::Not(n) => SpecPred::Not(Box::new(pred_view(*n))),
        Evaluator::Contains(s) => SpecPred::Contains(s.view()),
    }
}

impl View for Evaluator {
    type V = SpecPred;

    open spec fn view(&self) -> SpecPred {
        pred_view(*self)
    }
}

/// `needle` occurs in `hay` starting at position `i`.
pub open spec fn contains_at(hay: Seq<char>, needle: Seq<char>, i: int) -> bool {
    0 <= i && i + needle.len() <= hay.len() && hay.subrange(i, i + needle.len()) == needle
}

/// `needle` occurs somewhere in `hay`.
pub open spec fn seq_contains(hay: Seq<char>, needle: Seq<char>) -> bool {
    exists|i: int| contains_at(hay, needle, i)
}

/// What a compiled predicate answers on a line.
pub open spec fn eval_pred(p: SpecPred, line: Seq<char>) -> bool
    decreases p,
{
    match p {
        SpecPred::And(l, r) => eval_pred(*l, line) && eval_pred(*r, line),
        SpecPred::Or(l, r) => eval_pred(*l, line) || eval_pred(*r, line),
        SpecPred::Not(n) => !eval_pred(*n, line),
        SpecPred::Contains(s) => seq_contains(line, s),
    }
}

/// The predicate a tree compiles to.
pub open spec fn pred_of_ast(a: SpecAst) -> SpecPred
    decreases a,
{
    match a {
        SpecAst::And(l, r) => SpecPred::And(Box::new(pred_of_ast(*l)), Box::new(pred_of_ast(*r))),
        SpecAst::Or(l, r) => SpecPred::Or(Box::new(pred_of_ast(*l)), Box::new(pred_of_ast(*r))),
        SpecAst::Not(n) => SpecPred::Not(Box::new(pred_of_ast(*n))),
        SpecAst::Lit(s) => SpecPred::Contains(s),
    }
}

/// What a tree answers on a line: the answer of its compiled predicate.
pub open spec fn eval_ast(a: SpecAst, line: Seq<char>) -> bool {
    eval_pred(pred_of_ast(a), line)
}

/// `needle` occurs in `hay` at position `i` (all characters of the window
/// match).
fn match_at(hay: &str, needle: &str, i: usize) -> (r: bool)
    requires
        i + needle@.len() <= hay@.len(),
    ensures
        r == contains_at(hay@, needle@, i as int),
{
    let n = hay.unicode_len();
    let m = needle.unicode_len();
    let mut j: usize = 0;
    while j < m
        invariant
            n == hay@.len(),
            m == needle@.len(),
            i + m <= hay@.len(),
            j <= m,
            forall|k: int| 0 <= k < j ==> hay@[i + k] == needle@[k],
        decreases m - j,
    {
        if hay.get_char(i + j) != needle.get_char(j) {
            assert(hay@.subrange(i as int, i + m) != needle@) by {
                assert(hay@.subrange(i as int, i + m)[j as int] == hay@[i + j]);
            }
            return false;
        }
        j += 1;
    }
    assert(hay@.subrange(i as int, i + m) =~= needle@);
    true
}

/// Substring search: does `needle` occur anywhere in `hay`?
fn str_contains(hay: &str, needle: &str) -> (r: bool)
    ensures
        r == seq_contains(hay@, needle@),
{
    let n = hay.unicode_len();
    let m = needle.unicode_len();
    if m > n {
        assert(forall|i: int| !contains_at(hay@, needle@, i));
        return false;
    }
    let mut i: usize = 0;
    loop
        invariant
            n == hay@.len(),
            m == needle@.len(),
            m <= n,
            i <= n - m,
            forall|k: int| 0 <= k < i ==> !contains_at(hay@, needle@, k),
        decreases n - m - i,
    {
        if match_at(hay, needle, i) {
            return true;
        }
        if i == n - m {
            assert(forall|k: int| !contains_at(hay@, needle@, k));
            return false;
        }
        i += 1;
    }
}

impl Evaluator {
    /// Tests the line against the compiled predicate. `And` and `Or`
    /// short-circuit left to right; evaluation has no side effects.
    pub fn evaluate(&self, line: &str) -> (r: bool)
        ensures
            r == eval_pred(self@, line@),
        decreases self,
    {
        match self {
            Evaluator::And(lhs, rhs) => lhs.evaluate(line) && rhs.evaluate(line),
            Evaluator::Or(lhs, rhs) => lhs.evaluate(line) || rhs.evaluate(line),
            Evaluator::Not(inner) => !inner.evaluate(line),
            Evaluator::Contains(s) => str_contains(line, s.as_str()),
        }
    }

    /// Converts an expression tree into the predicate it denotes.
    pub fn from_ast(ast: &AstNode) -> (r: Self)
        ensures
            r@ == pred_of_ast(ast@),
        decreases ast,
    {
        match ast {
            AstNode::AndNode(lhs, rhs) => Evaluator::And(
                Box::new(Self::from_ast(lhs)),
                Box::new(Self::from_ast(rhs)),
            ),
            AstNode::OrNode(lhs, rhs) => Evaluator::Or(
                Box::new(Self::from_ast(lhs)),
                Box::new(Self::from_ast(rhs)),
            ),
            AstNode::NotNode(inner) => Evaluator::Not(Box::new(Self::from_ast(inner))),
            AstNode::Match(Pattern::Literal(s)) => Evaluator::Contains(s.clone()),
        }
    }
}

/// Evaluation is deterministic: two results of the same predicate on the same
/// line are always equal. [`Evaluator::evaluate`] returns exactly
/// [`eval_pred`] of its arguments, so any two of its results on equal inputs
/// coincide.
pub proof fn lemma_evaluate_idempotent(p: SpecPred, line: Seq<char>, r1: bool, r2: bool)
    requires
        r1 == eval_pred(p, line),
        r2 == eval_pred(p, line),
    ensures
        r1 == r2,
{
}

} // verus!
