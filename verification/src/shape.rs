//! The shape of a parsed code fragment: as much of its syntax tree as decides
//! whether the fragment yields a value.

use vstd::prelude::*;

verus! {

/// The shape of an expression.
#[derive(Debug)]
pub enum ExprShape {
    /// A `break`, with or without a value.
    Break { carries_value: bool },
    /// A block in braces.
    Block(BlockShape),
    /// A conditional, with its `else` branch where it has one.
    If { then_branch: BlockShape, else_branch: Option<Box<ExprShape>> },
    /// A pattern match, with the body of each arm.
    Match { arms: Vec<ExprShape> },
    /// An unconditional `loop`.
    Loop(BlockShape),
    /// An expression followed by `?`.
    Try(Box<ExprShape>),
    /// An `unsafe` block.
    Unsafe(BlockShape),
    /// An `async` block.
    Async(BlockShape),
    /// A `let` that stands where an expression is expected.
    Let,
    /// Any other expression.
    Other,
}

/// The shape of a statement.
#[derive(Debug)]
pub enum StmtShape {
    /// A `let` binding.
    Local,
    /// An item definition.
    Item,
    /// An expression, and whether a semicolon follows it.
    Expr(ExprShape, bool),
    /// A macro invocation in statement position.
    Macro,
}

/// The shape of a block: its statements, in order.
#[derive(Debug)]
pub struct BlockShape {
    pub stmts: Vec<StmtShape>,
}

/// Whether a block yields a value: its last statement is an expression with
/// no semicolon after it, and that expression yields one.
pub open spec fn block_yields(block: BlockShape) -> bool
    decreases block,
{
    block.stmts.len() > 0 && match block.stmts[block.stmts.len() - 1] {
        StmtShape::Expr(expr, semi) => !semi && expr_yields(expr),
        _ => false,
    }
}

/// Whether an expression yields a value when it stands last in a block.
///
/// A `break` does where it carries one; a block, a `loop`, an `unsafe` and an
/// `async` block where the block inside does; a conditional where its first
/// branch does or its `else` branch does; a match where the body of any arm
/// does; an expression under `?` where that expression does. A `let` never
/// does, and any other expression does.
pub open spec fn expr_yields(expr: ExprShape) -> bool
    decreases expr,
{
    match expr {
        ExprShape::Break { carries_value } => carries_value,
        ExprShape::Block(block) => block_yields(block),
        ExprShape::If { then_branch, else_branch } => block_yields(then_branch) || match else_branch {
            Some(other) => expr_yields(*other),
            None => false,
        },
        ExprShape::Match { arms } => exists|i: int|
            0 <= i < arms.len() && expr_yields(#[trigger] arms[i]),
        ExprShape::Loop(body) => block_yields(body),
        ExprShape::Try(inner) => expr_yields(*inner),
        ExprShape::Unsafe(block) => block_yields(block),
        ExprShape::Async(block) => block_yields(block),
        ExprShape::Let => false,
        ExprShape::Other => true,
    }
}

} // verus!
