//! The expression tree of the query language.

use vstd::prelude::*;

verus! {

/// A leaf pattern of the query language. The only kind of leaf is a literal
/// substring test.
#[derive(Debug)]
pub enum Pattern {
    Literal(String),
}

/// A node of the abstract syntax tree built from a query string.
///
/// Every `Literal` produced by the parser holds a non-empty string; see
/// [`ast_wf`](AstNode::ast_wf).
#[derive(Debug)]
pub enum AstNode {
    AndNode(Box<AstNode>, Box<AstNode>),
    OrNode(Box<AstNode>, Box<AstNode>),
    NotNode(Box<AstNode>),
    Match(Pattern),
}

/// The mathematical form of an expression tree: the same shape, with each
/// literal reduced to its character sequence.
pub enum SpecAst {
    And(Box<SpecAst>, Box<SpecAst>),
    Or(Box<SpecAst>, Box<SpecAst>),
    Not(Box<SpecAst>),
    Lit(Seq<char>),
}

/// The mathematical form of a tree.
pub open spec fn ast_view(a: AstNode) -> SpecAst
    decreases a,
{
    match a {
        AstNode::AndNode(l, r) => SpecAst::And(Box::new(ast_view(*l)), Box::new(ast_view(*r))),
        AstNode::OrNode(l, r) => SpecAst::Or(Box::new(ast_view(*l)), Box::new(ast_view(*r))),
        AstNode::NotNode(n) => SpecAst::Not(Box::new(ast_view(*n))),
        AstNode::Match(Pattern::Literal(s)) => SpecAst::Lit(s.view()),
    }
}

impl View for AstNode {
    type V = SpecAst;

    open spec fn view(&self) -> SpecAst {
        ast_view(*self)
    }
}

/// Well-formedness of a tree: every literal is non-empty. The parser never
/// builds an empty literal.
pub open spec fn spec_ast_wf(a: SpecAst) -> bool
    decreases a,
{
    match a {
        SpecAst::And(l, r) => spec_ast_wf(*l) && spec_ast_wf(*r),
        SpecAst::Or(l, r) => spec_ast_wf(*l) && spec_ast_wf(*r),
        SpecAst::Not(n) => spec_ast_wf(*n),
        SpecAst::Lit(s) => s.len() > 0,
    }
}

impl AstNode {
    /// Well-formedness of an executable tree, stated over its view.
    pub open spec fn ast_wf(&self) -> bool {
        spec_ast_wf(self@)
    }
}

} // verus!
