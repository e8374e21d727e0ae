//! Which root functions a function refers to.

use vstd::prelude::*;

use crate::ast::{Block, ClosureBody, ElseBranch, Expr, ExprId, ExprKind, MatchArm, Pattern, Stmt};
use crate::hir::{DefId, ResolvedHir, ResolvedTarget};
use crate::table::{KeySet, Table};

verus! {

/// Whether an expression is itself a path to function `j`.
pub open spec fn target_calls(
    hir: ResolvedHir,
    functions: Map<DefId, usize>,
    id: ExprId,
    j: usize,
) -> bool {
    hir.expression_targets.at(id) matches Some(ResolvedTarget::Item(definition))
        && functions.dom().contains(definition) && functions[definition] == j
}

/// Whether a block refers to function `j`.
pub open spec fn block_calls(block: Block, hir: ResolvedHir, functions: Map<DefId, usize>, j: usize) -> bool
    decreases block, 0int,
{
    stmts_calls(block.stmts@, 0, hir, functions, j) || match block.tail {
        Some(tail) => expr_calls(*tail, hir, functions, j),
        None => false,
    }
}

/// Whether one of `stmts[from..]` refers to function `j`.
pub open spec fn stmts_calls(stmts: Seq<Stmt>, from: int, hir: ResolvedHir, functions: Map<DefId, usize>, j: usize) -> bool
    decreases stmts, stmts.len() - from,
{
    if from < 0 || from >= stmts.len() {
        false
    } else {
        stmt_calls(stmts[from], hir, functions, j) || stmts_calls(stmts, from + 1, hir, functions, j)
    }
}

pub open spec fn stmt_calls(statement: Stmt, hir: ResolvedHir, functions: Map<DefId, usize>, j: usize) -> bool
    decreases statement, 0int,
{
    match statement {
        Stmt::Lua { .. } => false,
        Stmt::Let { init, .. } => expr_calls(init, hir, functions, j),
        Stmt::Expr(expression) => expr_calls(expression, hir, functions, j),
        Stmt::Return(value) => match value {
            Some(value) => expr_calls(value, hir, functions, j),
            None => false,
        },
        Stmt::While { cond, body } => expr_calls(cond, hir, functions, j) || block_calls(body, hir, functions, j),
        Stmt::Loop { body } => block_calls(body, hir, functions, j),
        Stmt::For { iter, body, .. } => expr_calls(iter, hir, functions, j) || block_calls(body, hir, functions, j),
        Stmt::WhileLet { pat, expr, body } => pattern_calls(*pat, hir, functions, j) || expr_calls(
            expr,
            hir, functions, j,
        ) || block_calls(body, hir, functions, j),
        Stmt::Break(value) => match value {
            Some(value) => expr_calls(value, hir, functions, j),
            None => false,
        },
        Stmt::Continue => false,
    }
}

/// Whether one of `list[from..]` refers to function `j`.
pub open spec fn exprs_calls(list: Seq<Expr>, from: int, hir: ResolvedHir, functions: Map<DefId, usize>, j: usize) -> bool
    decreases list, list.len() - from,
{
    if from < 0 || from >= list.len() {
        false
    } else {
        expr_calls(list[from], hir, functions, j) || exprs_calls(list, from + 1, hir, functions, j)
    }
}

/// Whether the value of one of `list[from..]` refers to function `j`.
pub open spec fn fields_calls(list: Seq<(String, Expr)>, from: int, hir: ResolvedHir, functions: Map<DefId, usize>, j: usize) -> bool
    decreases list, list.len() - from,
{
    if from < 0 || from >= list.len() {
        false
    } else {
        expr_calls(list[from].1, hir, functions, j) || fields_calls(list, from + 1, hir, functions, j)
    }
}

/// Whether one of the pairs `list[from..]` refers to function `j`.
pub open spec fn pairs_calls(list: Seq<(Expr, Expr)>, from: int, hir: ResolvedHir, functions: Map<DefId, usize>, j: usize) -> bool
    decreases list, list.len() - from,
{
    if from < 0 || from >= list.len() {
        false
    } else {
        expr_calls(list[from].0, hir, functions, j) || expr_calls(list[from].1, hir, functions, j) || pairs_calls(
            list,
            from + 1,
            hir, functions, j,
        )
    }
}

/// Whether one of `arms[from..]` refers to function `j`.
pub open spec fn arms_calls(arms: Seq<MatchArm>, from: int, hir: ResolvedHir, functions: Map<DefId, usize>, j: usize) -> bool
    decreases arms, arms.len() - from,
{
    if from < 0 || from >= arms.len() {
        false
    } else {
        arm_calls(arms[from], hir, functions, j) || arms_calls(arms, from + 1, hir, functions, j)
    }
}

pub open spec fn arm_calls(arm: MatchArm, hir: ResolvedHir, functions: Map<DefId, usize>, j: usize) -> bool
    decreases arm, 0int,
{
    patterns_calls(arm.pats@, 0, hir, functions, j) || match arm.guard {
        Some(guard) => expr_calls(guard, hir, functions, j),
        None => false,
    } || expr_calls(arm.body, hir, functions, j)
}

pub open spec fn else_calls(branch: ElseBranch, hir: ResolvedHir, functions: Map<DefId, usize>, j: usize) -> bool
    decreases branch, 0int,
{
    match branch {
        ElseBranch::Block(block) => block_calls(block, hir, functions, j),
        ElseBranch::If(expression) => expr_calls(expression, hir, functions, j),
    }
}

pub open spec fn else_option_calls(
    branch: Option<Box<ElseBranch>>,
    hir: ResolvedHir,
    functions: Map<DefId, usize>,
    j: usize,
) -> bool
    decreases branch, 0int,
{
    match branch {
        Some(branch) => else_calls(*branch, hir, functions, j),
        None => false,
    }
}

/// Whether an expression refers to function `j`.
pub open spec fn expr_calls(expression: Expr, hir: ResolvedHir, functions: Map<DefId, usize>, j: usize) -> bool
    decreases expression, 0int,
{
    target_calls(hir, functions, expression.id, j) || match expression.kind {
        ExprKind::Path(_) => false,
        ExprKind::Closure { body, .. } => match body {
            ClosureBody::Expr(inner) => expr_calls(*inner, hir, functions, j),
            ClosureBody::Block(block) => block_calls(block, hir, functions, j),
        },
        ExprKind::Unary { expr, .. } => expr_calls(*expr, hir, functions, j),
        ExprKind::Try { expr } => expr_calls(*expr, hir, functions, j),
        ExprKind::Binary { lhs, rhs, .. } => expr_calls(*lhs, hir, functions, j) || expr_calls(*rhs, hir, functions, j),
        ExprKind::Call { callee, args } => expr_calls(*callee, hir, functions, j) || exprs_calls(
            args@,
            0,
            hir, functions, j,
        ),
        ExprKind::MethodCall { recv, args, .. } => expr_calls(*recv, hir, functions, j) || exprs_calls(
            args@,
            0,
            hir, functions, j,
        ),
        ExprKind::Field { base, .. } => expr_calls(*base, hir, functions, j),
        ExprKind::StructLit { fields, .. } => fields_calls(fields@, 0, hir, functions, j),
        ExprKind::MapLit(entries) => pairs_calls(entries@, 0, hir, functions, j),
        ExprKind::Match { scrut, arms } => expr_calls(*scrut, hir, functions, j) || arms_calls(
            arms@,
            0,
            hir, functions, j,
        ),
        ExprKind::Range { start, end, .. } => expr_calls(*start, hir, functions, j) || expr_calls(
            *end,
            hir, functions, j,
        ),
        ExprKind::Index { base, index } => expr_calls(*base, hir, functions, j) || expr_calls(
            *index,
            hir, functions, j,
        ),
        ExprKind::VecLit(elements) => exprs_calls(elements@, 0, hir, functions, j),
        ExprKind::MacroCall { args, .. } => exprs_calls(args@, 0, hir, functions, j),
        ExprKind::If { cond, then_block, else_block } => expr_calls(*cond, hir, functions, j)
            || block_calls(then_block, hir, functions, j) || else_option_calls(else_block, hir, functions, j),
        ExprKind::IfLet { pat, expr, then_block, else_block } => pattern_calls(*pat, hir, functions, j)
            || expr_calls(*expr, hir, functions, j) || block_calls(then_block, hir, functions, j) || else_option_calls(else_block, hir, functions, j),
        ExprKind::Block(block) => block_calls(block, hir, functions, j),
        ExprKind::Loop(block) => block_calls(block, hir, functions, j),
        ExprKind::Assign { target, value, .. } => expr_calls(*target, hir, functions, j) || expr_calls(
            *value,
            hir, functions, j,
        ),
        ExprKind::Int(_) | ExprKind::Float(_) | ExprKind::Str(_) | ExprKind::Bool(_) => false,
    }
}

/// Whether one of `list[from..]` refers to function `j`.
pub open spec fn patterns_calls(list: Seq<Pattern>, from: int, hir: ResolvedHir, functions: Map<DefId, usize>, j: usize) -> bool
    decreases list, list.len() - from,
{
    if from < 0 || from >= list.len() {
        false
    } else {
        pattern_calls(list[from], hir, functions, j) || patterns_calls(list, from + 1, hir, functions, j)
    }
}

/// Whether the pattern of one of `list[from..]` refers to function `j`.
pub open spec fn field_patterns_calls(
    list: Seq<(String, Pattern)>,
    from: int,
    hir: ResolvedHir, functions: Map<DefId, usize>, j: usize,
) -> bool
    decreases list, list.len() - from,
{
    if from < 0 || from >= list.len() {
        false
    } else {
        pattern_calls(list[from].1, hir, functions, j) || field_patterns_calls(list, from + 1, hir, functions, j)
    }
}

/// Whether a literal inside a pattern refers to function `j`.
pub open spec fn pattern_calls(pattern: Pattern, hir: ResolvedHir, functions: Map<DefId, usize>, j: usize) -> bool
    decreases pattern, 0int,
{
    match pattern {
        Pattern::Literal(expression) => expr_calls(expression, hir, functions, j),
        Pattern::Range { lo, hi, .. } => expr_calls(*lo, hir, functions, j) || expr_calls(*hi, hir, functions, j),
        Pattern::TupleVariant { elems, .. } => patterns_calls(elems@, 0, hir, functions, j),
        Pattern::StructVariant { fields, .. } => field_patterns_calls(fields@, 0, hir, functions, j),
        _ => false,
    }
}

/// Collects the functions that a block refers to.
pub fn collect_block_function_dependencies(
    block: &Block,
    hir: &ResolvedHir,
    functions: &Table<DefId, usize>,
    out: &mut KeySet<usize>,
)
    ensures
        forall|j: usize| #[trigger]
            final(out)@.contains(j) == (old(out)@.contains(j) || block_calls(
                *block,
                *hir,
                functions@,
                j,
            )),
    decreases *block, 0int,
{
    collect_stmts(&block.stmts, hir, functions, out);
    match &block.tail {
        Some(tail) => {
            let ghost middle = out@;
            collect_expr_function_dependencies(tail, hir, functions, out);
            proof {
                assert forall|j: usize| #[trigger]
                    out@.contains(j) == (old(out)@.contains(j) || block_calls(
                        *block,
                        *hir,
                        functions@,
                        j,
                    )) by {
                    assert(middle.contains(j) || !middle.contains(j));
                }
            }
        },
        None => {},
    }
}

fn collect_stmts(
    list: &Vec<Stmt>,
    hir: &ResolvedHir,
    functions: &Table<DefId, usize>,
    out: &mut KeySet<usize>,
)
    ensures
        forall|j: usize| #[trigger]
            final(out)@.contains(j) == (old(out)@.contains(j) || stmts_calls(
                list@,
                0,
                *hir,
                functions@,
                j,
            )),
    decreases *list, 0int,
{
    let ghost start = out@;
    let mut i: usize = 0;
    while i < list.len()
        invariant
            i <= list.len(),
            forall|j: usize|
                #![trigger out@.contains(j)]
                #![trigger stmts_calls(list@, i as int, *hir, functions@, j)]
                (out@.contains(j) || stmts_calls(
                    list@,
                    i as int,
                    *hir,
                    functions@,
                    j,
                )) == (start.contains(j) || stmts_calls(list@, 0, *hir, functions@, j)),
        decreases list.len() - i,
    {
        let ghost before = out@;
        collect_stmt(&list[i], hir, functions, out);
        proof {
            assert forall|j: usize|
                #![trigger out@.contains(j)]
                #![trigger stmts_calls(list@, i + 1, *hir, functions@, j)]
                (out@.contains(j) || stmts_calls(
                    list@,
                    i + 1,
                    *hir,
                    functions@,
                    j,
                )) == (start.contains(j) || stmts_calls(list@, 0, *hir, functions@, j)) by {
                assert((before.contains(j) || stmts_calls(list@, i as int, *hir, functions@, j)) == (start.contains(j) || stmts_calls(list@, 0, *hir, functions@, j)));
                assert(stmts_calls(list@, i as int, *hir, functions@, j) == (stmt_calls(list@[i as int], *hir, functions@, j) || stmts_calls(list@, i + 1, *hir, functions@, j)));
            }
        }
        i += 1;
    }
}

fn collect_exprs(
    list: &Vec<Expr>,
    hir: &ResolvedHir,
    functions: &Table<DefId, usize>,
    out: &mut KeySet<usize>,
)
    ensures
        forall|j: usize| #[trigger]
            final(out)@.contains(j) == (old(out)@.contains(j) || exprs_calls(
                list@,
                0,
                *hir,
                functions@,
                j,
            )),
    decreases *list, 0int,
{
    let ghost start = out@;
    let mut i: usize = 0;
    while i < list.len()
        invariant
            i <= list.len(),
            forall|j: usize|
                #![trigger out@.contains(j)]
                #![trigger exprs_calls(list@, i as int, *hir, functions@, j)]
                (out@.contains(j) || exprs_calls(
                    list@,
                    i as int,
                    *hir,
                    functions@,
                    j,
                )) == (start.contains(j) || exprs_calls(list@, 0, *hir, functions@, j)),
        decreases list.len() - i,
    {
        let ghost before = out@;
        collect_expr_function_dependencies(&list[i], hir, functions, out);
        proof {
            assert forall|j: usize|
                #![trigger out@.contains(j)]
                #![trigger exprs_calls(list@, i + 1, *hir, functions@, j)]
                (out@.contains(j) || exprs_calls(
                    list@,
                    i + 1,
                    *hir,
                    functions@,
                    j,
                )) == (start.contains(j) || exprs_calls(list@, 0, *hir, functions@, j)) by {
                assert((before.contains(j) || exprs_calls(list@, i as int, *hir, functions@, j)) == (start.contains(j) || exprs_calls(list@, 0, *hir, functions@, j)));
                assert(exprs_calls(list@, i as int, *hir, functions@, j) == (expr_calls(list@[i as int], *hir, functions@, j) || exprs_calls(list@, i + 1, *hir, functions@, j)));
            }
        }
        i += 1;
    }
}

fn collect_fields(
    list: &Vec<(String, Expr)>,
    hir: &ResolvedHir,
    functions: &Table<DefId, usize>,
    out: &mut KeySet<usize>,
)
    ensures
        forall|j: usize| #[trigger]
            final(out)@.contains(j) == (old(out)@.contains(j) || fields_calls(
                list@,
                0,
                *hir,
                functions@,
                j,
            )),
    decreases *list, 0int,
{
    let ghost start = out@;
    let mut i: usize = 0;
    while i < list.len()
        invariant
            i <= list.len(),
            forall|j: usize|
                #![trigger out@.contains(j)]
                #![trigger fields_calls(list@, i as int, *hir, functions@, j)]
                (out@.contains(j) || fields_calls(
                    list@,
                    i as int,
                    *hir,
                    functions@,
                    j,
                )) == (start.contains(j) || fields_calls(list@, 0, *hir, functions@, j)),
        decreases list.len() - i,
    {
        let ghost before = out@;
        collect_expr_function_dependencies(&list[i].1, hir, functions, out);
        proof {
            assert forall|j: usize|
                #![trigger out@.contains(j)]
                #![trigger fields_calls(list@, i + 1, *hir, functions@, j)]
                (out@.contains(j) || fields_calls(
                    list@,
                    i + 1,
                    *hir,
                    functions@,
                    j,
                )) == (start.contains(j) || fields_calls(list@, 0, *hir, functions@, j)) by {
                assert((before.contains(j) || fields_calls(list@, i as int, *hir, functions@, j)) == (start.contains(j) || fields_calls(list@, 0, *hir, functions@, j)));
                assert(fields_calls(list@, i as int, *hir, functions@, j) == (expr_calls(list@[i as int].1, *hir, functions@, j) || fields_calls(list@, i + 1, *hir, functions@, j)));
            }
        }
        i += 1;
    }
}

fn collect_pairs(
    list: &Vec<(Expr, Expr)>,
    hir: &ResolvedHir,
    functions: &Table<DefId, usize>,
    out: &mut KeySet<usize>,
)
    ensures
        forall|j: usize| #[trigger]
            final(out)@.contains(j) == (old(out)@.contains(j) || pairs_calls(
                list@,
                0,
                *hir,
                functions@,
                j,
            )),
    decreases *list, 0int,
{
    let ghost start = out@;
    let mut i: usize = 0;
    while i < list.len()
        invariant
            i <= list.len(),
            forall|j: usize|
                #![trigger out@.contains(j)]
                #![trigger pairs_calls(list@, i as int, *hir, functions@, j)]
                (out@.contains(j) || pairs_calls(
                    list@,
                    i as int,
                    *hir,
                    functions@,
                    j,
                )) == (start.contains(j) || pairs_calls(list@, 0, *hir, functions@, j)),
        decreases list.len() - i,
    {
        let ghost before = out@;
        collect_expr_function_dependencies(&list[i].0, hir, functions, out);
        let ghost middle = out@;
        collect_expr_function_dependencies(&list[i].1, hir, functions, out);
        proof {
            assert forall|j: usize|
                #![trigger out@.contains(j)]
                #![trigger pairs_calls(list@, i + 1, *hir, functions@, j)]
                (out@.contains(j) || pairs_calls(
                    list@,
                    i + 1,
                    *hir,
                    functions@,
                    j,
                )) == (start.contains(j) || pairs_calls(list@, 0, *hir, functions@, j)) by {
                assert((before.contains(j) || pairs_calls(list@, i as int, *hir, functions@, j)) == (start.contains(j) || pairs_calls(list@, 0, *hir, functions@, j)));
                assert(pairs_calls(list@, i as int, *hir, functions@, j) == (expr_calls(list@[i as int].0, *hir, functions@, j) || expr_calls(list@[i as int].1, *hir, functions@, j) || pairs_calls(list@, i + 1, *hir, functions@, j)));
            }
        }
        i += 1;
    }
}

fn collect_arms(
    list: &Vec<MatchArm>,
    hir: &ResolvedHir,
    functions: &Table<DefId, usize>,
    out: &mut KeySet<usize>,
)
    ensures
        forall|j: usize| #[trigger]
            final(out)@.contains(j) == (old(out)@.contains(j) || arms_calls(
                list@,
                0,
                *hir,
                functions@,
                j,
            )),
    decreases *list, 0int,
{
    let ghost start = out@;
    let mut i: usize = 0;
    while i < list.len()
        invariant
            i <= list.len(),
            forall|j: usize|
                #![trigger out@.contains(j)]
                #![trigger arms_calls(list@, i as int, *hir, functions@, j)]
                (out@.contains(j) || arms_calls(
                    list@,
                    i as int,
                    *hir,
                    functions@,
                    j,
                )) == (start.contains(j) || arms_calls(list@, 0, *hir, functions@, j)),
        decreases list.len() - i,
    {
        let ghost before = out@;
        collect_arm(&list[i], hir, functions, out);
        proof {
            assert forall|j: usize|
                #![trigger out@.contains(j)]
                #![trigger arms_calls(list@, i + 1, *hir, functions@, j)]
                (out@.contains(j) || arms_calls(
                    list@,
                    i + 1,
                    *hir,
                    functions@,
                    j,
                )) == (start.contains(j) || arms_calls(list@, 0, *hir, functions@, j)) by {
                assert((before.contains(j) || arms_calls(list@, i as int, *hir, functions@, j)) == (start.contains(j) || arms_calls(list@, 0, *hir, functions@, j)));
                assert(arms_calls(list@, i as int, *hir, functions@, j) == (arm_calls(list@[i as int], *hir, functions@, j) || arms_calls(list@, i + 1, *hir, functions@, j)));
            }
        }
        i += 1;
    }
}

fn collect_patterns(
    list: &Vec<Pattern>,
    hir: &ResolvedHir,
    functions: &Table<DefId, usize>,
    out: &mut KeySet<usize>,
)
    ensures
        forall|j: usize| #[trigger]
            final(out)@.contains(j) == (old(out)@.contains(j) || patterns_calls(
                list@,
                0,
                *hir,
                functions@,
                j,
            )),
    decreases *list, 0int,
{
    let ghost start = out@;
    let mut i: usize = 0;
    while i < list.len()
        invariant
            i <= list.len(),
            forall|j: usize|
                #![trigger out@.contains(j)]
                #![trigger patterns_calls(list@, i as int, *hir, functions@, j)]
                (out@.contains(j) || patterns_calls(
                    list@,
                    i as int,
                    *hir,
                    functions@,
                    j,
                )) == (start.contains(j) || patterns_calls(list@, 0, *hir, functions@, j)),
        decreases list.len() - i,
    {
        let ghost before = out@;
        collect_pattern_function_dependencies(&list[i], hir, functions, out);
        proof {
            assert forall|j: usize|
                #![trigger out@.contains(j)]
                #![trigger patterns_calls(list@, i + 1, *hir, functions@, j)]
                (out@.contains(j) || patterns_calls(
                    list@,
                    i + 1,
                    *hir,
                    functions@,
                    j,
                )) == (start.contains(j) || patterns_calls(list@, 0, *hir, functions@, j)) by {
                assert((before.contains(j) || patterns_calls(list@, i as int, *hir, functions@, j)) == (start.contains(j) || patterns_calls(list@, 0, *hir, functions@, j)));
                assert(patterns_calls(list@, i as int, *hir, functions@, j) == (pattern_calls(list@[i as int], *hir, functions@, j) || patterns_calls(list@, i + 1, *hir, functions@, j)));
            }
        }
        i += 1;
    }
}

fn collect_field_patterns(
    list: &Vec<(String, Pattern)>,
    hir: &ResolvedHir,
    functions: &Table<DefId, usize>,
    out: &mut KeySet<usize>,
)
    ensures
        forall|j: usize| #[trigger]
            final(out)@.contains(j) == (old(out)@.contains(j) || field_patterns_calls(
                list@,
                0,
                *hir,
                functions@,
                j,
            )),
    decreases *list, 0int,
{
    let ghost start = out@;
    let mut i: usize = 0;
    while i < list.len()
        invariant
            i <= list.len(),
            forall|j: usize|
                #![trigger out@.contains(j)]
                #![trigger field_patterns_calls(list@, i as int, *hir, functions@, j)]
                (out@.contains(j) || field_patterns_calls(
                    list@,
                    i as int,
                    *hir,
                    functions@,
                    j,
                )) == (start.contains(j) || field_patterns_calls(list@, 0, *hir, functions@, j)),
        decreases list.len() - i,
    {
        let ghost before = out@;
        collect_pattern_function_dependencies(&list[i].1, hir, functions, out);
        proof {
            assert forall|j: usize|
                #![trigger out@.contains(j)]
                #![trigger field_patterns_calls(list@, i + 1, *hir, functions@, j)]
                (out@.contains(j) || field_patterns_calls(
                    list@,
                    i + 1,
                    *hir,
                    functions@,
                    j,
                )) == (start.contains(j) || field_patterns_calls(list@, 0, *hir, functions@, j)) by {
                assert((before.contains(j) || field_patterns_calls(list@, i as int, *hir, functions@, j)) == (start.contains(j) || field_patterns_calls(list@, 0, *hir, functions@, j)));
                assert(field_patterns_calls(list@, i as int, *hir, functions@, j) == (pattern_calls(list@[i as int].1, *hir, functions@, j) || field_patterns_calls(list@, i + 1, *hir, functions@, j)));
            }
        }
        i += 1;
    }
}

fn collect_stmt(
    statement: &Stmt,
    hir: &ResolvedHir,
    functions: &Table<DefId, usize>,
    out: &mut KeySet<usize>,
)
    ensures
        forall|j: usize| #[trigger]
            final(out)@.contains(j) == (old(out)@.contains(j) || stmt_calls(
                *statement,
                *hir,
                functions@,
                j,
            )),
    decreases *statement, 0int,
{
    let ghost start = out@;
    match statement {
        Stmt::Lua { .. } => {},
        Stmt::Let { init, .. } => {
            collect_expr_function_dependencies(init, hir, functions, out);
        },
        Stmt::Expr(expression) => {
            collect_expr_function_dependencies(expression, hir, functions, out);
        },
        Stmt::Return(value) => {
            if let Some(value) = value {
                collect_expr_function_dependencies(value, hir, functions, out);
            }
        },
        Stmt::While { cond, body } => {
            collect_expr_function_dependencies(cond, hir, functions, out);
            let ghost s0 = out@;
            collect_block_function_dependencies(body, hir, functions, out);
            proof {
                assert forall|j: usize| #[trigger]
                    out@.contains(j) == (start.contains(j) || stmt_calls(*statement, *hir, functions@, j)) by {
                    assert(s0.contains(j) || !s0.contains(j));
                }
            }
        },
        Stmt::Loop { body } => {
            collect_block_function_dependencies(body, hir, functions, out);
        },
        Stmt::For { iter, body, .. } => {
            collect_expr_function_dependencies(iter, hir, functions, out);
            let ghost s0 = out@;
            collect_block_function_dependencies(body, hir, functions, out);
            proof {
                assert forall|j: usize| #[trigger]
                    out@.contains(j) == (start.contains(j) || stmt_calls(*statement, *hir, functions@, j)) by {
                    assert(s0.contains(j) || !s0.contains(j));
                }
            }
        },
        Stmt::WhileLet { pat, expr, body } => {
            collect_pattern_function_dependencies(pat, hir, functions, out);
            let ghost s0 = out@;
            collect_expr_function_dependencies(expr, hir, functions, out);
            let ghost s1 = out@;
            collect_block_function_dependencies(body, hir, functions, out);
            proof {
                assert forall|j: usize| #[trigger]
                    out@.contains(j) == (start.contains(j) || stmt_calls(*statement, *hir, functions@, j)) by {
                    assert(s0.contains(j) || !s0.contains(j));
                    assert(s1.contains(j) || !s1.contains(j));
                }
            }
        },
        Stmt::Break(value) => {
            if let Some(value) = value {
                collect_expr_function_dependencies(value, hir, functions, out);
            }
        },
        Stmt::Continue => {},
    }
}

fn collect_arm(
    arm: &MatchArm,
    hir: &ResolvedHir,
    functions: &Table<DefId, usize>,
    out: &mut KeySet<usize>,
)
    ensures
        forall|j: usize| #[trigger]
            final(out)@.contains(j) == (old(out)@.contains(j) || arm_calls(
                *arm,
                *hir,
                functions@,
                j,
            )),
    decreases *arm, 0int,
{
    collect_patterns(&arm.pats, hir, functions, out);
    let ghost first = out@;
    if let Some(guard) = &arm.guard {
        collect_expr_function_dependencies(guard, hir, functions, out);
    }
    let ghost second = out@;
    collect_expr_function_dependencies(&arm.body, hir, functions, out);
    proof {
        assert forall|j: usize| #[trigger]
            out@.contains(j) == (old(out)@.contains(j) || arm_calls(*arm, *hir, functions@, j)) by {
            assert(first.contains(j) || !first.contains(j));
            assert(second.contains(j) || !second.contains(j));
        }
    }
}

fn collect_else_function_dependencies(
    branch: &ElseBranch,
    hir: &ResolvedHir,
    functions: &Table<DefId, usize>,
    out: &mut KeySet<usize>,
)
    ensures
        forall|j: usize| #[trigger]
            final(out)@.contains(j) == (old(out)@.contains(j) || else_calls(
                *branch,
                *hir,
                functions@,
                j,
            )),
    decreases *branch, 0int,
{
    match branch {
        ElseBranch::Block(block) => {
            collect_block_function_dependencies(block, hir, functions, out);
        },
        ElseBranch::If(expression) => {
            collect_expr_function_dependencies(expression, hir, functions, out);
        },
    }
}

fn collect_else_option(
    branch: &Option<Box<ElseBranch>>,
    hir: &ResolvedHir,
    functions: &Table<DefId, usize>,
    out: &mut KeySet<usize>,
)
    ensures
        forall|j: usize| #[trigger]
            final(out)@.contains(j) == (old(out)@.contains(j) || else_option_calls(
                *branch,
                *hir,
                functions@,
                j,
            )),
    decreases *branch, 0int,
{
    match branch {
        Some(branch) => {
            collect_else_function_dependencies(branch, hir, functions, out);
        },
        None => {},
    }
}

/// Collects the functions that an expression refers to.
pub fn collect_expr_function_dependencies(
    expression: &Expr,
    hir: &ResolvedHir,
    functions: &Table<DefId, usize>,
    out: &mut KeySet<usize>,
)
    ensures
        forall|j: usize| #[trigger]
            final(out)@.contains(j) == (old(out)@.contains(j) || expr_calls(
                *expression,
                *hir,
                functions@,
                j,
            )),
    decreases *expression, 0int,
{
    let ghost before = out@;
    if let Some(ResolvedTarget::Item(definition)) = hir.expression_targets.get(&expression.id) {
        if let Some(function) = functions.get(definition) {
            let _ = out.insert(*function);
        }
    }
    let ghost start = out@;
    proof {
        assert forall|j: usize| #[trigger]
            start.contains(j) == (before.contains(j) || target_calls(
                *hir,
                functions@,
                expression.id,
                j,
            )) by {}
    }
    match &expression.kind {
        ExprKind::Closure { body, .. } => match body {
            ClosureBody::Expr(inner) => {
                collect_expr_function_dependencies(inner, hir, functions, out);
            },
            ClosureBody::Block(block) => {
                collect_block_function_dependencies(block, hir, functions, out);
            },
        },
        ExprKind::Unary { expr, .. } => {
            collect_expr_function_dependencies(expr, hir, functions, out);
        },
        ExprKind::Try { expr } => {
            collect_expr_function_dependencies(expr, hir, functions, out);
        },
        ExprKind::Binary { lhs, rhs, .. } => {
            collect_expr_function_dependencies(lhs, hir, functions, out);
            let ghost s0 = out@;
            collect_expr_function_dependencies(rhs, hir, functions, out);
            proof {
                assert forall|j: usize| #[trigger]
                    out@.contains(j) == (before.contains(j) || expr_calls(*expression, *hir, functions@, j)) by {
                    assert(s0.contains(j) || !s0.contains(j));
                }
            }
        },
        ExprKind::Call { callee, args } => {
            collect_expr_function_dependencies(callee, hir, functions, out);
            let ghost s0 = out@;
            collect_exprs(args, hir, functions, out);
            proof {
                assert forall|j: usize| #[trigger]
                    out@.contains(j) == (before.contains(j) || expr_calls(*expression, *hir, functions@, j)) by {
                    assert(s0.contains(j) || !s0.contains(j));
                }
            }
        },
        ExprKind::MethodCall { recv, args, .. } => {
            collect_expr_function_dependencies(recv, hir, functions, out);
            let ghost s0 = out@;
            collect_exprs(args, hir, functions, out);
            proof {
                assert forall|j: usize| #[trigger]
                    out@.contains(j) == (before.contains(j) || expr_calls(*expression, *hir, functions@, j)) by {
                    assert(s0.contains(j) || !s0.contains(j));
                }
            }
        },
        ExprKind::Field { base, .. } => {
            collect_expr_function_dependencies(base, hir, functions, out);
        },
        ExprKind::StructLit { fields, .. } => {
            collect_fields(fields, hir, functions, out);
        },
        ExprKind::MapLit(entries) => {
            collect_pairs(entries, hir, functions, out);
        },
        ExprKind::Match { scrut, arms } => {
            collect_expr_function_dependencies(scrut, hir, functions, out);
            let ghost s0 = out@;
            collect_arms(arms, hir, functions, out);
            proof {
                assert forall|j: usize| #[trigger]
                    out@.contains(j) == (before.contains(j) || expr_calls(*expression, *hir, functions@, j)) by {
                    assert(s0.contains(j) || !s0.contains(j));
                }
            }
        },
        ExprKind::Range { start: first, end, .. } => {
            collect_expr_function_dependencies(first, hir, functions, out);
            let ghost s0 = out@;
            collect_expr_function_dependencies(end, hir, functions, out);
            proof {
                assert forall|j: usize| #[trigger]
                    out@.contains(j) == (before.contains(j) || expr_calls(*expression, *hir, functions@, j)) by {
                    assert(s0.contains(j) || !s0.contains(j));
                }
            }
        },
        ExprKind::Index { base, index } => {
            collect_expr_function_dependencies(base, hir, functions, out);
            let ghost s0 = out@;
            collect_expr_function_dependencies(index, hir, functions, out);
            proof {
                assert forall|j: usize| #[trigger]
                    out@.contains(j) == (before.contains(j) || expr_calls(*expression, *hir, functions@, j)) by {
                    assert(s0.contains(j) || !s0.contains(j));
                }
            }
        },
        ExprKind::VecLit(elements) => {
            collect_exprs(elements, hir, functions, out);
        },
        ExprKind::MacroCall { args, .. } => {
            collect_exprs(args, hir, functions, out);
        },
        ExprKind::If { cond, then_block, else_block } => {
            collect_expr_function_dependencies(cond, hir, functions, out);
            let ghost s0 = out@;
            collect_block_function_dependencies(then_block, hir, functions, out);
            let ghost s1 = out@;
            collect_else_option(else_block, hir, functions, out);
            proof {
                assert forall|j: usize| #[trigger]
                    out@.contains(j) == (before.contains(j) || expr_calls(*expression, *hir, functions@, j)) by {
                    assert(s0.contains(j) || !s0.contains(j));
                    assert(s1.contains(j) || !s1.contains(j));
                }
            }
        },
        ExprKind::IfLet { pat, expr, then_block, else_block } => {
            collect_pattern_function_dependencies(pat, hir, functions, out);
            let ghost s0 = out@;
            collect_expr_function_dependencies(expr, hir, functions, out);
            let ghost s1 = out@;
            collect_block_function_dependencies(then_block, hir, functions, out);
            let ghost s2 = out@;
            collect_else_option(else_block, hir, functions, out);
            proof {
                assert forall|j: usize| #[trigger]
                    out@.contains(j) == (before.contains(j) || expr_calls(*expression, *hir, functions@, j)) by {
                    assert(s0.contains(j) || !s0.contains(j));
                    assert(s1.contains(j) || !s1.contains(j));
                    assert(s2.contains(j) || !s2.contains(j));
                }
            }
        },
        ExprKind::Block(block) => {
            collect_block_function_dependencies(block, hir, functions, out);
        },
        ExprKind::Loop(block) => {
            collect_block_function_dependencies(block, hir, functions, out);
        },
        ExprKind::Assign { target, value, .. } => {
            collect_expr_function_dependencies(target, hir, functions, out);
            let ghost s0 = out@;
            collect_expr_function_dependencies(value, hir, functions, out);
            proof {
                assert forall|j: usize| #[trigger]
                    out@.contains(j) == (before.contains(j) || expr_calls(*expression, *hir, functions@, j)) by {
                    assert(s0.contains(j) || !s0.contains(j));
                }
            }
        },
        _ => {},
    }
}

/// Collects the functions that the literals of a pattern refer to.
pub fn collect_pattern_function_dependencies(
    pattern: &Pattern,
    hir: &ResolvedHir,
    functions: &Table<DefId, usize>,
    out: &mut KeySet<usize>,
)
    ensures
        forall|j: usize| #[trigger]
            final(out)@.contains(j) == (old(out)@.contains(j) || pattern_calls(
                *pattern,
                *hir,
                functions@,
                j,
            )),
    decreases *pattern, 0int,
{
    let ghost start = out@;
    match pattern {
        Pattern::Literal(expression) => {
            collect_expr_function_dependencies(expression, hir, functions, out);
        },
        Pattern::Range { lo, hi, .. } => {
            collect_expr_function_dependencies(lo, hir, functions, out);
            let ghost s0 = out@;
            collect_expr_function_dependencies(hi, hir, functions, out);
            proof {
                assert forall|j: usize| #[trigger]
                    out@.contains(j) == (start.contains(j) || pattern_calls(*pattern, *hir, functions@, j)) by {
                    assert(s0.contains(j) || !s0.contains(j));
                }
            }
        },
        Pattern::TupleVariant { elems, .. } => {
            collect_patterns(elems, hir, functions, out);
        },
        Pattern::StructVariant { fields, .. } => {
            collect_field_patterns(fields, hir, functions, out);
        },
        _ => {},
    }
}

} // verus!
