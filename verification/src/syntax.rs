//! The host grammar: code fragments are parsed by `syn`, and the syntax tree
//! it returns is reduced to the shape that classification reads.

use crate::errors::Error;
use crate::shape::{BlockShape, ExprShape, StmtShape};
use vstd::prelude::*;
use vstd::string::*;

verus! {

/// `syn::Block`: a block in braces, as `syn` parsed it. Carried through
/// unread.
#[verifier::external_type_specification]
#[verifier::external_body]
pub struct ExBlock(syn::Block);

/// `syn::Stmt`: one statement of a block, as `syn` parsed it. Carried through
/// unread.
#[verifier::external_type_specification]
#[verifier::external_body]
pub struct ExStmt(syn::Stmt);

/// `syn::Expr`: one expression, as `syn` parsed it. Carried through unread.
#[verifier::external_type_specification]
#[verifier::external_body]
pub struct ExExpr(syn::Expr);

/// Parses `code` as one block with `syn::parse_str` and reduces the tree to
/// its shape; on failure it hands back the message of `syn`'s error.
///
/// Nothing is claimed of the outcome: which lexer reads the text depends on
/// the process in which the call is made.
#[verifier::external_body]
fn parse_block(code: &str) -> Result<BlockShape, String> {
    match syn::parse_str::<syn::Block>(code) {
        Ok(block) => Ok(block_shape(&block)),
        Err(err) => Err(err.to_string()),
    }
}

/// Parses `code` as one expression with `syn::parse_str` and reduces the
/// tree to its shape; on failure it hands back the message of `syn`'s error.
///
/// Nothing is claimed of the outcome, as for a block.
#[verifier::external_body]
fn parse_expr(code: &str) -> Result<ExprShape, String> {
    match syn::parse_str::<syn::Expr>(code) {
        Ok(expr) => Ok(expr_shape(&expr)),
        Err(err) => Err(err.to_string()),
    }
}

/// The shape of a `syn::Block`: the shapes of its statements, in order.
#[verifier::external_body]
fn block_shape(block: &syn::Block) -> BlockShape {
    BlockShape { stmts: block.stmts.iter().map(stmt_shape).collect() }
}

/// The shape of a `syn::Stmt`: its variant, and for an expression its shape
/// and whether a semicolon follows.
#[verifier::external_body]
fn stmt_shape(stmt: &syn::Stmt) -> StmtShape {
    match stmt {
        syn::Stmt::Local(_) => StmtShape::Local,
        syn::Stmt::Item(_) => StmtShape::Item,
        syn::Stmt::Expr(expr, semi) => StmtShape::Expr(expr_shape(expr), semi.is_some()),
        syn::Stmt::Macro(_) => StmtShape::Macro,
    }
}

/// The shape of a `syn::Expr` that holds one block or one expression which
/// classification looks into; every other expression is handed on.
#[verifier::external_body]
fn expr_shape(expr: &syn::Expr) -> ExprShape {
    match expr {
        syn::Expr::Break(e) => ExprShape::Break { carries_value: e.expr.is_some() },
        syn::Expr::Block(e) => ExprShape::Block(block_shape(&e.block)),
        syn::Expr::Loop(e) => ExprShape::Loop(block_shape(&e.body)),
        syn::Expr::Try(e) => ExprShape::Try(Box::new(expr_shape(&e.expr))),
        syn::Expr::Unsafe(e) => ExprShape::Unsafe(block_shape(&e.block)),
        syn::Expr::Async(e) => ExprShape::Async(block_shape(&e.block)),
        _ => branching_shape(expr),
    }
}

/// The shape of a `syn::Expr` that branches: a conditional with its first
/// branch and its `else` branch, a match with the bodies of its arms. A `let`
/// and every expression that is left are told apart and hold nothing.
#[verifier::external_body]
fn branching_shape(expr: &syn::Expr) -> ExprShape {
    match expr {
        syn::Expr::If(e) => ExprShape::If {
            then_branch: block_shape(&e.then_branch),
            else_branch: e.else_branch.as_ref().map(|other| Box::new(expr_shape(&other.1))),
        },
        syn::Expr::Match(e) => ExprShape::Match {
            arms: e.arms.iter().map(|arm| expr_shape(&arm.body)).collect(),
        },
        syn::Expr::Let(_) => ExprShape::Let,
        _ => ExprShape::Other,
    }
}

/// The message of the error for a fragment that the host grammar refuses:
/// it names the fragment and gives the cause.
pub open spec fn syntax_message(code: Seq<char>, cause: Seq<char>) -> Seq<char> {
    "Error parsing code `"@ + code + "`: "@ + cause
}

/// Whether `msg` is the message of the error for the fragment `code`, with
/// whatever cause.
pub open spec fn refuses(msg: Seq<char>, code: Seq<char>) -> bool {
    exists|cause: Seq<char>| msg == syntax_message(code, cause)
}

/// The error for the fragment `code`, refused for `cause`.
pub fn syntax_error(code: &str, cause: &str) -> (e: Error)
    ensures
        e matches Error::InvalidSyntax(msg) && msg@ == syntax_message(code@, cause@),
{
    let mut msg = String::from_str("Error parsing code `");
    msg.append(code);
    msg.append("`: ");
    msg.append(cause);
    Error::InvalidSyntax(msg)
}

/// Parses one code fragment under the host grammar, which decides whether
/// the fragment is one block. Where it refuses, the error is a syntax error
/// that names the fragment.
pub fn parse_fragment(code: &str) -> (r: Result<BlockShape, Error>)
    ensures
        r matches Err(e) ==> e matches Error::InvalidSyntax(msg) && refuses(msg@, code@),
{
    match parse_block(code) {
        Ok(block) => Ok(block),
        Err(cause) => Err(syntax_error(code, cause.as_str())),
    }
}

/// Parses one expression under the host grammar, which decides whether the
/// text is one. Where it refuses, the error is a syntax error that names the
/// text.
pub fn parse_expression(code: &str) -> (r: Result<ExprShape, Error>)
    ensures
        r matches Err(e) ==> e matches Error::InvalidSyntax(msg) && refuses(msg@, code@),
{
    match parse_expr(code) {
        Ok(expr) => Ok(expr),
        Err(cause) => Err(syntax_error(code, cause.as_str())),
    }
}

} // verus!
