//! The byte-oriented filter: UTF-8 validation around a compiled predicate,
//! plus the invert flag.

use vstd::prelude::*;

use crate::ast::{AstNode, SpecAst};
use crate::evaluator::{eval_pred, pred_of_ast, Evaluator, SpecPred};
use vstd::utf8::{decode_utf8, valid_utf8};

verus! {

/// The only error of the predicate chain: the line's bytes are not valid
/// UTF-8.
#[derive(Debug, PartialEq, Eq, Structural)]
pub enum EncodingError {
    InvalidEncoding,
}

/// A byte-level predicate over a line: decodes, evaluates the compiled query,
/// and applies the invert flag.
pub struct Filter {
    pub evaluator: Evaluator,
    pub invert: bool,
}

/// What the filter answers on successfully decoded text. The natural
/// predicate answers "does the line match the query"; the default
/// (non-inverted) behaviour drops matching lines, so the verdict is the
/// negated match unless `invert` is set.
pub open spec fn spec_verdict(p: SpecPred, invert: bool, text: Seq<char>) -> bool {
    if invert {
        eval_pred(p, text)
    } else {
        !eval_pred(p, text)
    }
}

/// Relies on std::str::from_utf8: it succeeds exactly on valid UTF-8 input,
/// and the resulting text is the decoding of the bytes.
#[verifier::external_body]
fn bytes_as_utf8(bytes: &[u8]) -> (r: Option<&str>)
    ensures
        r is Some <==> valid_utf8(bytes@),
        r matches Some(s) ==> s@ == decode_utf8(bytes@),
{
    std::str::from_utf8(bytes).ok()
}

/// Builds the byte-level filter for a tree.
pub fn build_filter(ast: &AstNode, invert: bool) -> (r: Filter)
    ensures
        r.evaluator@ == pred_of_ast(ast@),
        r.invert == invert,
{
    Filter { evaluator: Evaluator::from_ast(ast), invert }
}

impl Filter {
    /// Applies the filter to one line of bytes. Fails exactly when the bytes
    /// are not valid UTF-8; otherwise answers the verdict on the decoded
    /// text.
    pub fn apply(&self, input: &[u8]) -> (r: Result<bool, EncodingError>)
        ensures
            valid_utf8(input@) ==> r == Ok::<bool, EncodingError>(
                spec_verdict(self.evaluator@, self.invert, decode_utf8(input@)),
            ),
            !valid_utf8(input@) ==> r == Err::<bool, EncodingError>(
                EncodingError::InvalidEncoding,
            ),
    {
        match bytes_as_utf8(input) {
            Some(text) => {
                let matched = self.evaluator.evaluate(text);
                Ok(if self.invert { matched } else { !matched })
            },
            None => Err(EncodingError::InvalidEncoding),
        }
    }
}

/// Invert law: on any tree and any line whose decoding succeeds, the inverted
/// filter answers exactly the negation of the non-inverted one.
pub proof fn lemma_invert(a: SpecAst, bytes: Seq<u8>)
    requires
        valid_utf8(bytes),
    ensures
        spec_verdict(pred_of_ast(a), true, decode_utf8(bytes)) == !spec_verdict(
            pred_of_ast(a),
            false,
            decode_utf8(bytes),
        ),
{
}

} // verus!
