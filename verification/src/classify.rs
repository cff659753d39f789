//! The block value classifier: whether a code fragment stands for a value to
//! be rendered or is run for its effect only.

use crate::shape::{block_yields, expr_yields, BlockShape, ExprShape, StmtShape};
use vstd::prelude::*;

verus! {

/// Whether a fragment's value is rendered.
#[derive(Debug, Clone, Copy, PartialEq, Eq, Structural)]
pub enum ValueKind {
    /// The fragment stands for a value.
    ProducesValue,
    /// The fragment is a statement, run for its effect.
    NoValue,
}

/// Checks whether the block yields a value: whether its last statement is an
/// expression without a semicolon that yields one. An empty block does not.
pub fn is_block_returning_value(block: &BlockShape) -> (b: bool)
    ensures
        b == block_yields(*block),
    decreases *block,
{
    let n = block.stmts.len();
    if n == 0 {
        return false;
    }
    match &block.stmts[n - 1] {
        StmtShape::Expr(expr, semi) => !*semi && expr_has_return_value(expr),
        _ => false,
    }
}

/// Checks whether an expression that stands last in a block yields a value.
pub fn expr_has_return_value(expr: &ExprShape) -> (b: bool)
    ensures
        b == expr_yields(*expr),
    decreases *expr,
{
    match expr {
        ExprShape::Break { carries_value } => *carries_value,
        ExprShape::Block(block) => is_block_returning_value(block),
        ExprShape::If { then_branch, else_branch } => {
            is_block_returning_value(then_branch) || match else_branch {
                Some(other) => expr_has_return_value(other),
                None => false,
            }
        },
        ExprShape::Match { arms } => {
            let mut i: usize = 0;
            while i < arms.len()
                invariant
                    i <= arms.len(),
                    *expr is Match,
                    expr->arms == *arms,
                    forall|j: int| 0 <= j < i ==> !expr_yields(#[trigger] arms[j]),
                decreases arms.len() - i,
            {
                proof {
                    vstd::std_specs::vec::axiom_vec_index_decreases(*arms, i as int);
                }
                if expr_has_return_value(&arms[i]) {
                    assert(expr_yields(arms[i as int]));
                    return true;
                }
                i += 1;
            }
            false
        },
        ExprShape::Loop(body) => is_block_returning_value(body),
        ExprShape::Try(inner) => expr_has_return_value(inner),
        ExprShape::Unsafe(block) => is_block_returning_value(block),
        ExprShape::Async(block) => is_block_returning_value(block),
        ExprShape::Let => false,
        ExprShape::Other => true,
    }
}

/// The kind of a fragment whose parsed form is `block`.
pub fn classify(block: &BlockShape) -> (kind: ValueKind)
    ensures
        kind == if block_yields(*block) {
            ValueKind::ProducesValue
        } else {
            ValueKind::NoValue
        },
{
    if is_block_returning_value(block) {
        ValueKind::ProducesValue
    } else {
        ValueKind::NoValue
    }
}

} // verus!
