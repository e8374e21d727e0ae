//! Pieces of trees with their mathematical forms.

use vstd::prelude::*;

use crate::ast::{Block, ClosureBody, ElseBranch, Expr, ExprKind, Stmt};
use crate::parser::grammar::{empty_block_tree, with_stmt};
use crate::tree::{
    optional_boxed_else_branch_tree, optional_boxed_expr_tree, optional_expr_tree, stmts_tree,
    BlockTree, ClosureBodyTree, ElseBranchTree, ExprKindTree, ExprTree, StmtTree,
};

verus! {

/// The mathematical form of an optional statement.
pub open spec fn optional_stmt_tree(value: Option<Stmt>) -> Option<StmtTree> {
    match value {
        Some(inner) => Some(inner.tree()),
        None => None,
    }
}

/// A block without statements.
pub fn empty_block() -> (r: Block)
    ensures
        r.tree() == empty_block_tree(),
{
    let r = Block {
        stmts: Vec::new(),
        statement_blank_before: Vec::new(),
        tail: None,
        tail_blank_before: false,
    };
    proof {
        assert(stmts_tree(r.stmts@) =~= Seq::empty());
        assert(r.statement_blank_before@ =~= Seq::empty());
    }
    r
}

/// Appends a statement to a block.
pub fn push_stmt(block: &mut Block, statement: Stmt, blank: bool)
    ensures
        final(block).tree() == with_stmt(old(block).tree(), statement.tree(), blank),
{
    let ghost had = stmts_tree(block.stmts@);
    let ghost one = statement.tree();
    block.stmts.push(statement);
    block.statement_blank_before.push(blank);
    proof {
        assert(stmts_tree(block.stmts@) =~= had.push(one));
    }
}

/// Ends a block with an expression.
pub fn set_tail(block: &mut Block, expression: Expr, blank: bool)
    ensures
        final(block).tree() == (BlockTree {
            tail: Some(Box::new(expression.tree())),
            tail_blank_before: blank,
            ..old(block).tree()
        }),
{
    block.tail = Some(Box::new(expression));
    block.tail_blank_before = blank;
    proof {
        assert(optional_boxed_expr_tree(block.tail) == Some(Box::new(expression.tree())));
    }
}

/// An expression where one may stand.
pub fn some_expr(expression: Expr) -> (r: Option<Expr>)
    ensures
        optional_expr_tree(r) == Some(expression.tree()),
{
    Some(expression)
}

/// No expression where one may stand.
pub fn no_expr() -> (r: Option<Expr>)
    ensures
        optional_expr_tree(r) == None::<ExprTree>,
{
    None
}

/// A closure body that is a block.
pub fn block_body(block: Block) -> (r: ClosureBody)
    ensures
        r.tree() == ClosureBodyTree::Block(block.tree()),
{
    ClosureBody::Block(block)
}

/// A closure body that is an expression.
pub fn expr_body(expression: Expr) -> (r: ClosureBody)
    ensures
        r.tree() == ClosureBodyTree::Expr(Box::new(expression.tree())),
{
    ClosureBody::Expr(Box::new(expression))
}

/// An `else` with a further `if`.
pub fn else_if(expression: Expr) -> (r: Option<Box<ElseBranch>>)
    ensures
        optional_boxed_else_branch_tree(r) == Some(
            Box::new(ElseBranchTree::If(expression.tree())),
        ),
{
    let branch = ElseBranch::If(expression);
    proof {
        assert(branch.tree() == ElseBranchTree::If(expression.tree()));
    }
    Some(Box::new(branch))
}

/// An `else` with a block.
pub fn else_block_of(block: Block) -> (r: Option<Box<ElseBranch>>)
    ensures
        optional_boxed_else_branch_tree(r) == Some(Box::new(ElseBranchTree::Block(block.tree()))),
{
    let branch = ElseBranch::Block(block);
    proof {
        assert(branch.tree() == ElseBranchTree::Block(block.tree()));
    }
    Some(Box::new(branch))
}

/// No `else`.
pub fn no_else() -> (r: Option<Box<ElseBranch>>)
    ensures
        optional_boxed_else_branch_tree(r) == None::<Box<ElseBranchTree>>,
{
    None
}

/// A `break`.
pub fn break_of(value: Option<Expr>) -> (r: Stmt)
    ensures
        r.tree() == StmtTree::Break(optional_expr_tree(value)),
{
    Stmt::Break(value)
}

/// A `return`.
pub fn return_of(value: Option<Expr>) -> (r: Stmt)
    ensures
        r.tree() == StmtTree::Return(optional_expr_tree(value)),
{
    Stmt::Return(value)
}

/// A `loop`.
pub fn loop_of(body: Block) -> (r: ExprKind)
    ensures
        r.tree() == ExprKindTree::Loop(body.tree()),
{
    ExprKind::Loop(body)
}

/// A block as an expression.
pub fn block_of(body: Block) -> (r: ExprKind)
    ensures
        r.tree() == ExprKindTree::Block(body.tree()),
{
    ExprKind::Block(body)
}

} // verus!
