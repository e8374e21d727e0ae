//! What resolving bodies leaves alone: the declarations, and the scopes around a
//! block.

use vstd::prelude::*;

use super::bodies::{
    b_arm, b_arms, b_block, b_closure_body, b_closure_params, b_else, b_expr, b_exprs,
    b_field_patterns, b_fields, b_pairs, b_pattern, b_patterns, b_stmt, b_stmts, checked_access,
    global_value, local_named, missing_path, pattern_target, scoped_path, Body,
};
use super::identity::{
    consistent, law_declarations_are_consistent, law_declarations_leave_the_library_alone,
    same_library,
};
use super::members::{declarations_of, trait_named};
use super::model::{HirModel, ImportRecord, LocalRecord};
use super::paths::{canonical_value, child_module};
use super::program::{
    b_defaults, b_function, b_items, b_methods, b_params, generic_scope, import_name,
    import_target, module_scope, resolved, resolved_module, t_bounds, t_declared_fields, t_externs,
    t_generics, t_item, t_items, t_methods, t_params, t_trait_methods, t_variants, with_aliases,
    with_imports,
};
use super::types::{
    imported_type, t_arm, t_arms, t_block, t_closure_body, t_closure_params, t_else, t_expr,
    t_exprs, t_field_patterns, t_fields, t_option, t_pairs, t_pattern, t_patterns, t_stmt, t_stmts,
    t_type, t_types, type_meaning, Scope,
};
use crate::ast::{
    Block, ClosureBody, ClosureParam, ElseBranch, Expr, ExprKind, ExternFn, Field, FnDecl,
    GenericParam, Item, MatchArm, Param, Pattern, PatternId, Program, Stmt, TraitMethod, TraitRef,
    Type, UseImport, Variant, VariantKind,
};
use crate::builtins::{BuiltinId, BuiltinTraitId, LanguageItem, RuntimeModule};
use crate::hir::{DefId, LocalId, ModuleId, Namespace, ResolvedTarget};
use crate::text::texts;
use crate::token::SourceRange;

verus! {

/// Whether locals carry their places as identities. Identities have 32 bits.
pub open spec fn are_numbered(locals: Seq<LocalRecord>) -> bool {
    forall|i: int| 0 <= i < locals.len() && i <= u32::MAX ==> (#[trigger] locals[i]).id.0 == i
}

/// Whether a list starts with another one.
pub open spec fn extends<A>(before: Seq<A>, after: Seq<A>) -> bool {
    &&& before.len() <= after.len()
    &&& forall|i: int| 0 <= i < before.len() ==> #[trigger] after[i] == before[i]
}

/// Whether the declarations are the same, locals still carry their places, and no
/// local and no report was taken back.
pub open spec fn same_declarations(before: HirModel, after: HirModel) -> bool {
    &&& after.root == before.root
    &&& after.modules == before.modules
    &&& after.definitions == before.definitions
    &&& same_library(before, after)
    &&& are_numbered(before.locals) ==> are_numbered(after.locals)
    &&& extends(before.locals, after.locals)
    &&& extends(before.diagnostics, after.diagnostics)
}

/// Whether at most the innermost scope differs.
pub open spec fn same_outer(
    before: Seq<Map<Seq<char>, LocalId>>,
    after: Seq<Map<Seq<char>, LocalId>>,
) -> bool {
    &&& before.len() == after.len()
    &&& before.len() > 0 ==> before.drop_last() == after.drop_last()
}

proof fn keeps_type_meaning(hir: HirModel, scope: Scope, name: Seq<char>)
    ensures
        same_declarations(hir, type_meaning(hir, scope, name).0),
{
}

proof fn keeps_t_types(hir: HirModel, scope: Scope, list: Seq<Type>, from: int)
    ensures
        same_declarations(hir, t_types(hir, scope, list, from)),
    decreases list, list.len() - from,
{
    if 0 <= from < list.len() {
        keeps_t_type(hir, scope, list[from]);
        keeps_t_types(t_type(hir, scope, list[from]), scope, list, from + 1);
    }
}

proof fn keeps_t_type(hir: HirModel, scope: Scope, ty: Type)
    ensures
        same_declarations(hir, t_type(hir, scope, ty)),
    decreases ty, 0int,
{
    match ty {
        Type::Path { id, name, args } => {
            keeps_t_types(hir, scope, args@, 0);
            let hir = t_types(hir, scope, args@, 0);
            keeps_type_meaning(hir, scope, name@);
            let (hir, target) = type_meaning(hir, scope, name@);
        },
        Type::Ref { inner, .. } => {
            keeps_t_type(hir, scope, *inner);
        },
        Type::Function { params, ret } => {
            keeps_t_types(hir, scope, params@, 0);
            keeps_t_type(t_types(hir, scope, params@, 0), scope, *ret);
        },
        Type::Tuple(items) => {
            keeps_t_types(hir, scope, items@, 0);
        },
        _ => {},
    }
}

proof fn keeps_t_option(hir: HirModel, scope: Scope, ty: Option<Type>)
    ensures
        same_declarations(hir, t_option(hir, scope, ty)),
    decreases ty, 0int,
{
    match ty {
        Some(ty) => {
            keeps_t_type(hir, scope, ty);
        },
        _ => {},
    }
}

proof fn keeps_t_block(hir: HirModel, scope: Scope, block: Block)
    ensures
        same_declarations(hir, t_block(hir, scope, block)),
    decreases block, 0int,
{
    keeps_t_stmts(hir, scope, block.stmts@, 0);
    let hir = t_stmts(hir, scope, block.stmts@, 0);
    match block.tail {
        Some(tail) => {
            keeps_t_expr(hir, scope, *tail);
        },
        _ => {},
    }
}

proof fn keeps_t_stmts(hir: HirModel, scope: Scope, list: Seq<Stmt>, from: int)
    ensures
        same_declarations(hir, t_stmts(hir, scope, list, from)),
    decreases list, list.len() - from,
{
    if 0 <= from < list.len() {
        keeps_t_stmt(hir, scope, list[from]);
        keeps_t_stmts(t_stmt(hir, scope, list[from]), scope, list, from + 1);
    }
}

proof fn keeps_t_stmt(hir: HirModel, scope: Scope, statement: Stmt)
    ensures
        same_declarations(hir, t_stmt(hir, scope, statement)),
    decreases statement, 0int,
{
    match statement {
        Stmt::Let { ty, init, .. } => {
            keeps_t_option(hir, scope, ty);
            keeps_t_expr(t_option(hir, scope, ty), scope, init);
        },
        Stmt::Expr(expression) => {
            keeps_t_expr(hir, scope, expression);
        },
        Stmt::Return(value) => {
            match value {
                Some(value) => {
                    keeps_t_expr(hir, scope, value);
                },
                _ => {},
            }
        },
        Stmt::Break(value) => {
            match value {
                Some(value) => {
                    keeps_t_expr(hir, scope, value);
                },
                _ => {},
            }
        },
        Stmt::While { cond, body } => {
            keeps_t_expr(hir, scope, cond);
            keeps_t_block(t_expr(hir, scope, cond), scope, body);
        },
        Stmt::Loop { body } => {
            keeps_t_block(hir, scope, body);
        },
        Stmt::For { iter, body, .. } => {
            keeps_t_expr(hir, scope, iter);
            keeps_t_block(t_expr(hir, scope, iter), scope, body);
        },
        Stmt::WhileLet { pat, expr, body } => {
            keeps_t_pattern(hir, scope, *pat);
            keeps_t_expr(t_pattern(hir, scope, *pat), scope, expr);
            keeps_t_block(t_expr(t_pattern(hir, scope, *pat), scope, expr), scope, body);
        },
        _ => {},
    }
}

proof fn keeps_t_exprs(hir: HirModel, scope: Scope, list: Seq<Expr>, from: int)
    ensures
        same_declarations(hir, t_exprs(hir, scope, list, from)),
    decreases list, list.len() - from,
{
    if 0 <= from < list.len() {
        keeps_t_expr(hir, scope, list[from]);
        keeps_t_exprs(t_expr(hir, scope, list[from]), scope, list, from + 1);
    }
}

proof fn keeps_t_fields(hir: HirModel, scope: Scope, list: Seq<(String, Expr)>, from: int)
    ensures
        same_declarations(hir, t_fields(hir, scope, list, from)),
    decreases list, list.len() - from,
{
    if 0 <= from < list.len() {
        keeps_t_expr(hir, scope, list[from].1);
        keeps_t_fields(t_expr(hir, scope, list[from].1), scope, list, from + 1);
    }
}

proof fn keeps_t_pairs(hir: HirModel, scope: Scope, list: Seq<(Expr, Expr)>, from: int)
    ensures
        same_declarations(hir, t_pairs(hir, scope, list, from)),
    decreases list, list.len() - from,
{
    if 0 <= from < list.len() {
        keeps_t_expr(hir, scope, list[from].0);
        keeps_t_expr(t_expr(hir, scope, list[from].0), scope, list[from].1);
        keeps_t_pairs(
            t_expr(t_expr(hir, scope, list[from].0), scope, list[from].1),
            scope,
            list,
            from + 1,
        );
    }
}

proof fn keeps_t_arms(hir: HirModel, scope: Scope, list: Seq<MatchArm>, from: int)
    ensures
        same_declarations(hir, t_arms(hir, scope, list, from)),
    decreases list, list.len() - from,
{
    if 0 <= from < list.len() {
        keeps_t_arm(hir, scope, list[from]);
        keeps_t_arms(t_arm(hir, scope, list[from]), scope, list, from + 1);
    }
}

proof fn keeps_t_arm(hir: HirModel, scope: Scope, arm: MatchArm)
    ensures
        same_declarations(hir, t_arm(hir, scope, arm)),
    decreases arm, 0int,
{
    keeps_t_patterns(hir, scope, arm.pats@, 0);
    let hir = t_patterns(hir, scope, arm.pats@, 0);
    match arm.guard {
        Some(guard) => {
            keeps_t_expr(hir, scope, guard);
        },
        _ => {},
    }
    let hir = match arm.guard { Some(guard) => t_expr(hir, scope, guard), None => hir, };
    keeps_t_expr(hir, scope, arm.body);
}

proof fn keeps_t_else(hir: HirModel, scope: Scope, branch: Option<Box<ElseBranch>>)
    ensures
        same_declarations(hir, t_else(hir, scope, branch)),
    decreases branch, 0int,
{
    match branch {
        Some(branch) => {
            match *branch {
                ElseBranch::Block(block) => {
                    keeps_t_block(hir, scope, block);
                },
                ElseBranch::If(expression) => {
                    keeps_t_expr(hir, scope, expression);
                },
            }
        },
        _ => {},
    }
}

proof fn keeps_t_closure_params(hir: HirModel, scope: Scope, list: Seq<ClosureParam>, from: int)
    ensures
        same_declarations(hir, t_closure_params(hir, scope, list, from)),
    decreases list, list.len() - from,
{
    if 0 <= from < list.len() {
        keeps_t_option(hir, scope, list[from].ty);
        keeps_t_closure_params(t_option(hir, scope, list[from].ty), scope, list, from + 1);
    }
}

proof fn keeps_t_closure_body(hir: HirModel, scope: Scope, body: ClosureBody)
    ensures
        same_declarations(hir, t_closure_body(hir, scope, body)),
    decreases body, 0int,
{
    match body {
        ClosureBody::Expr(expression) => {
            keeps_t_expr(hir, scope, *expression);
        },
        ClosureBody::Block(block) => {
            keeps_t_block(hir, scope, block);
        },
    }
}

proof fn keeps_t_expr(hir: HirModel, scope: Scope, expression: Expr)
    ensures
        same_declarations(hir, t_expr(hir, scope, expression)),
    decreases expression, 0int,
{
    match expression.kind {
        ExprKind::Closure { params, ret, body } => {
            keeps_t_closure_params(hir, scope, params@, 0);
            keeps_t_option(t_closure_params(hir, scope, params@, 0), scope, ret);
            keeps_t_closure_body(
                t_option(t_closure_params(hir, scope, params@, 0), scope, ret),
                scope,
                body,
            );
        },
        ExprKind::Unary { expr, .. } => {
            keeps_t_expr(hir, scope, *expr);
        },
        ExprKind::Try { expr } => {
            keeps_t_expr(hir, scope, *expr);
        },
        ExprKind::Binary { lhs, rhs, .. } => {
            keeps_t_expr(hir, scope, *lhs);
            keeps_t_expr(t_expr(hir, scope, *lhs), scope, *rhs);
        },
        ExprKind::Call { callee, args } => {
            keeps_t_expr(hir, scope, *callee);
            keeps_t_exprs(t_expr(hir, scope, *callee), scope, args@, 0);
        },
        ExprKind::MethodCall { recv, type_args, args, .. } => {
            keeps_t_expr(hir, scope, *recv);
            keeps_t_types(t_expr(hir, scope, *recv), scope, type_args@, 0);
            keeps_t_exprs(
                t_types(t_expr(hir, scope, *recv), scope, type_args@, 0),
                scope,
                args@,
                0,
            );
        },
        ExprKind::Field { base, .. } => {
            keeps_t_expr(hir, scope, *base);
        },
        ExprKind::StructLit { fields, .. } => {
            keeps_t_fields(hir, scope, fields@, 0);
        },
        ExprKind::MapLit(entries) => {
            keeps_t_pairs(hir, scope, entries@, 0);
        },
        ExprKind::Match { scrut, arms } => {
            keeps_t_expr(hir, scope, *scrut);
            keeps_t_arms(t_expr(hir, scope, *scrut), scope, arms@, 0);
        },
        ExprKind::Range { start, end, .. } => {
            keeps_t_expr(hir, scope, *start);
            keeps_t_expr(t_expr(hir, scope, *start), scope, *end);
        },
        ExprKind::Index { base, index } => {
            keeps_t_expr(hir, scope, *base);
            keeps_t_expr(t_expr(hir, scope, *base), scope, *index);
        },
        ExprKind::VecLit(elements) => {
            keeps_t_exprs(hir, scope, elements@, 0);
        },
        ExprKind::MacroCall { args, .. } => {
            keeps_t_exprs(hir, scope, args@, 0);
        },
        ExprKind::If { cond, then_block, else_block } => {
            keeps_t_expr(hir, scope, *cond);
            keeps_t_block(t_expr(hir, scope, *cond), scope, then_block);
            keeps_t_else(t_block(t_expr(hir, scope, *cond), scope, then_block), scope, else_block);
        },
        ExprKind::IfLet { pat, expr, then_block, else_block } => {
            keeps_t_pattern(hir, scope, *pat);
            keeps_t_expr(t_pattern(hir, scope, *pat), scope, *expr);
            keeps_t_block(t_expr(t_pattern(hir, scope, *pat), scope, *expr), scope, then_block);
            keeps_t_else(
                t_block(t_expr(t_pattern(hir, scope, *pat), scope, *expr), scope, then_block),
                scope,
                else_block,
            );
        },
        ExprKind::Block(block) => {
            keeps_t_block(hir, scope, block);
        },
        ExprKind::Loop(block) => {
            keeps_t_block(hir, scope, block);
        },
        ExprKind::Assign { target, value, .. } => {
            keeps_t_expr(hir, scope, *target);
            keeps_t_expr(t_expr(hir, scope, *target), scope, *value);
        },
        _ => {},
    }
}

proof fn keeps_t_patterns(hir: HirModel, scope: Scope, list: Seq<Pattern>, from: int)
    ensures
        same_declarations(hir, t_patterns(hir, scope, list, from)),
    decreases list, list.len() - from,
{
    if 0 <= from < list.len() {
        keeps_t_pattern(hir, scope, list[from]);
        keeps_t_patterns(t_pattern(hir, scope, list[from]), scope, list, from + 1);
    }
}

proof fn keeps_t_field_patterns(
    hir: HirModel,
    scope: Scope,
    list: Seq<(String, Pattern)>,
    from: int,
)
    ensures
        same_declarations(hir, t_field_patterns(hir, scope, list, from)),
    decreases list, list.len() - from,
{
    if 0 <= from < list.len() {
        keeps_t_pattern(hir, scope, list[from].1);
        keeps_t_field_patterns(t_pattern(hir, scope, list[from].1), scope, list, from + 1);
    }
}

proof fn keeps_t_pattern(hir: HirModel, scope: Scope, pattern: Pattern)
    ensures
        same_declarations(hir, t_pattern(hir, scope, pattern)),
    decreases pattern, 0int,
{
    match pattern {
        Pattern::Literal(expression) => {
            keeps_t_expr(hir, scope, expression);
        },
        Pattern::Range { lo, hi, .. } => {
            keeps_t_expr(hir, scope, *lo);
            keeps_t_expr(t_expr(hir, scope, *lo), scope, *hi);
        },
        Pattern::TupleVariant { elems, .. } => {
            keeps_t_patterns(hir, scope, elems@, 0);
        },
        Pattern::StructVariant { fields, .. } => {
            keeps_t_field_patterns(hir, scope, fields@, 0);
        },
        _ => {},
    }
}

proof fn keeps_checked_access(
    hir: HirModel,
    module: ModuleId,
    target: ResolvedTarget,
    span: Option<SourceRange>,
)
    ensures
        same_declarations(hir, checked_access(hir, module, target, span).0),
{
}

proof fn keeps_missing_path(
    hir: HirModel,
    scope: Scope,
    span: Option<SourceRange>,
    path: Seq<Seq<char>>,
)
    ensures
        same_declarations(hir, missing_path(hir, scope, span, path)),
{
}

proof fn keeps_global_value(
    hir: HirModel,
    scope: Scope,
    span: Option<SourceRange>,
    path: Seq<Seq<char>>,
)
    ensures
        same_declarations(hir, global_value(hir, scope, span, path).0),
{
    if path.len() == 1 && scope.values.dom().contains(path[0]) {
    } else {
        match scoped_path(hir, scope, Namespace::Value, path) {
            Some(target) => {
                keeps_checked_access(hir, scope.module, canonical_value(hir, target), span);
            },
            _ => {},
        }
    }
}

proof fn keeps_bind(
    body: Body,
    module: ModuleId,
    name: Seq<char>,
    span: Option<SourceRange>,
    is_mutable: bool,
)
    ensures
        same_declarations(body.hir, body.bind(module, name, span, is_mutable).hir),
        same_outer(body.scopes, body.bind(module, name, span, is_mutable).scopes),
{
    assert(body.scopes.drop_last().push(body.scopes.last().insert(name, LocalId(
        body.hir.locals.len() as u32,
    ))).drop_last() =~= body.scopes.drop_last());
}

proof fn keeps_path_expression(body: Body, scope: Scope, expression: Expr, path: Seq<Seq<char>>)
    ensures
        same_declarations(body.hir, body.path_expression(scope, expression, path).hir),
        body.path_expression(scope, expression, path).scopes == body.scopes,
{
    match if path.len() == 1 { local_named(body.scopes, path[0]) } else { None } {
        None => {
            keeps_global_value(body.hir, scope, Some(expression.span), path);
            let (hir, target) = global_value(body.hir, scope, Some(expression.span), path);
        },
        _ => {},
    }
}

proof fn keeps_struct_expression(body: Body, scope: Scope, expression: Expr, path: Seq<Seq<char>>)
    ensures
        same_declarations(body.hir, body.struct_expression(scope, expression, path).hir),
        body.struct_expression(scope, expression, path).scopes == body.scopes,
{
    let named = match scoped_path(body.hir, scope, Namespace::Type, path) { Some(target) => Some(target), None => scoped_path(body.hir, scope, Namespace::Value, path), };
    match named {
        Some(target) => {
            keeps_checked_access(body.hir, scope.module, target, Some(expression.span));
        },
        _ => {},
    }
    let (hir, target) = match named { Some(target) => checked_access(body.hir, scope.module, target, Some(expression.span)), None => (missing_path(body.hir, scope, Some(expression.span), path), ResolvedTarget::Error), };
}

proof fn keeps_check_assignment(body: Body, place: Expr)
    ensures
        same_declarations(body.hir, body.check_assignment(place).hir),
        body.check_assignment(place).scopes == body.scopes,
{
}

proof fn keeps_pattern_path(body: Body, scope: Scope, id: PatternId, path: Seq<Seq<char>>)
    ensures
        same_declarations(body.hir, body.pattern_path(scope, id, path).hir),
        body.pattern_path(scope, id, path).scopes == body.scopes,
{
    keeps_pattern_target(body.hir, scope, path);
    let (hir, target) = pattern_target(body.hir, scope, path);
}

proof fn keeps_pattern_target(hir: HirModel, scope: Scope, path: Seq<Seq<char>>)
    ensures
        same_declarations(hir, pattern_target(hir, scope, path).0),
{
    let named = if path.len() == 1 && scope.values.dom().contains(path[0]) { Some(ResolvedTarget::Builtin(scope.values[path[0]])) } else { match scoped_path(hir, scope, Namespace::Value, path) { Some(target) => Some(target), None => scoped_path(hir, scope, Namespace::Type, path), } };
    match named {
        Some(target) => {
            keeps_checked_access(hir, scope.module, canonical_value(hir, target), None);
        },
        _ => {},
    }
}

pub proof fn keeps_b_block(body: Body, scope: Scope, block: Block)
    ensures
        same_declarations(body.hir, b_block(body, scope, block).hir),
        b_block(body, scope, block).scopes == body.scopes,
    decreases block, 0int,
{
    keeps_b_stmts(body.push(), scope, block.stmts@, 0);
    let inside = b_stmts(body.push(), scope, block.stmts@, 0);
    match block.tail {
        Some(tail) => {
            keeps_b_expr(inside, scope, *tail);
        },
        _ => {},
    }
    assert(body.scopes.push(Map::empty()).drop_last() =~= body.scopes);
}

pub proof fn keeps_b_stmts(body: Body, scope: Scope, list: Seq<Stmt>, from: int)
    ensures
        same_declarations(body.hir, b_stmts(body, scope, list, from).hir),
        same_outer(body.scopes, b_stmts(body, scope, list, from).scopes),
    decreases list, list.len() - from,
{
    if 0 <= from < list.len() {
        keeps_b_stmt(body, scope, list[from]);
        keeps_b_stmts(b_stmt(body, scope, list[from]), scope, list, from + 1);
    }
}

pub proof fn keeps_b_stmt(body: Body, scope: Scope, statement: Stmt)
    ensures
        same_declarations(body.hir, b_stmt(body, scope, statement).hir),
        same_outer(body.scopes, b_stmt(body, scope, statement).scopes),
    decreases statement, 0int,
{
    match statement {
        Stmt::Let { name, name_span, mutable, init, .. } => {
            keeps_b_expr(body, scope, init);
            keeps_bind(b_expr(body, scope, init), scope.module, name@, Some(name_span), mutable);
        },
        Stmt::Expr(expression) => {
            keeps_b_expr(body, scope, expression);
        },
        Stmt::Return(value) => {
            match value {
                Some(value) => {
                    keeps_b_expr(body, scope, value);
                },
                _ => {},
            }
        },
        Stmt::Break(value) => {
            match value {
                Some(value) => {
                    keeps_b_expr(body, scope, value);
                },
                _ => {},
            }
        },
        Stmt::While { cond, body: inner } => {
            keeps_b_expr(body, scope, cond);
            keeps_b_block(b_expr(body, scope, cond), scope, inner);
        },
        Stmt::Loop { body: inner } => {
            keeps_b_block(body, scope, inner);
        },
        Stmt::For { var, var_span, iter, body: inner } => {
            keeps_b_expr(body, scope, iter);
            keeps_bind(b_expr(body, scope, iter).push(), scope.module, var@, Some(var_span), false);
            keeps_b_block(
                b_expr(body, scope, iter).push().bind(scope.module, var@, Some(var_span), false),
                scope,
                inner,
            );
        },
        Stmt::WhileLet { pat, expr, body: inner } => {
            keeps_b_expr(body, scope, expr);
            keeps_b_pattern(b_expr(body, scope, expr).push(), scope, *pat);
            keeps_b_block(b_pattern(b_expr(body, scope, expr).push(), scope, *pat), scope, inner);
        },
        _ => {},
    }
    assert(body.scopes.push(Map::empty()).drop_last() =~= body.scopes);
}

proof fn keeps_b_exprs(body: Body, scope: Scope, list: Seq<Expr>, from: int)
    ensures
        same_declarations(body.hir, b_exprs(body, scope, list, from).hir),
        b_exprs(body, scope, list, from).scopes == body.scopes,
    decreases list, list.len() - from,
{
    if 0 <= from < list.len() {
        keeps_b_expr(body, scope, list[from]);
        keeps_b_exprs(b_expr(body, scope, list[from]), scope, list, from + 1);
    }
}

proof fn keeps_b_fields(body: Body, scope: Scope, list: Seq<(String, Expr)>, from: int)
    ensures
        same_declarations(body.hir, b_fields(body, scope, list, from).hir),
        b_fields(body, scope, list, from).scopes == body.scopes,
    decreases list, list.len() - from,
{
    if 0 <= from < list.len() {
        keeps_b_expr(body, scope, list[from].1);
        keeps_b_fields(b_expr(body, scope, list[from].1), scope, list, from + 1);
    }
}

proof fn keeps_b_pairs(body: Body, scope: Scope, list: Seq<(Expr, Expr)>, from: int)
    ensures
        same_declarations(body.hir, b_pairs(body, scope, list, from).hir),
        b_pairs(body, scope, list, from).scopes == body.scopes,
    decreases list, list.len() - from,
{
    if 0 <= from < list.len() {
        keeps_b_expr(body, scope, list[from].0);
        keeps_b_expr(b_expr(body, scope, list[from].0), scope, list[from].1);
        keeps_b_pairs(
            b_expr(b_expr(body, scope, list[from].0), scope, list[from].1),
            scope,
            list,
            from + 1,
        );
    }
}

proof fn keeps_b_arms(body: Body, scope: Scope, list: Seq<MatchArm>, from: int)
    ensures
        same_declarations(body.hir, b_arms(body, scope, list, from).hir),
        b_arms(body, scope, list, from).scopes == body.scopes,
    decreases list, list.len() - from,
{
    if 0 <= from < list.len() {
        keeps_b_arm(body, scope, list[from]);
        keeps_b_arms(b_arm(body, scope, list[from]), scope, list, from + 1);
    }
}

proof fn keeps_b_arm(body: Body, scope: Scope, arm: MatchArm)
    ensures
        same_declarations(body.hir, b_arm(body, scope, arm).hir),
        b_arm(body, scope, arm).scopes == body.scopes,
    decreases arm, 0int,
{
    keeps_b_patterns(body.push(), scope, arm.pats@, 0);
    let inside = b_patterns(body.push(), scope, arm.pats@, 0);
    match arm.guard {
        Some(guard) => {
            keeps_b_expr(inside, scope, guard);
        },
        _ => {},
    }
    let inside = match arm.guard { Some(guard) => b_expr(inside, scope, guard), None => inside, };
    keeps_b_expr(inside, scope, arm.body);
    assert(body.scopes.push(Map::empty()).drop_last() =~= body.scopes);
}

proof fn keeps_b_else(body: Body, scope: Scope, branch: Option<Box<ElseBranch>>)
    ensures
        same_declarations(body.hir, b_else(body, scope, branch).hir),
        b_else(body, scope, branch).scopes == body.scopes,
    decreases branch, 0int,
{
    match branch {
        Some(branch) => {
            match *branch {
                ElseBranch::Block(block) => {
                    keeps_b_block(body, scope, block);
                },
                ElseBranch::If(expression) => {
                    keeps_b_expr(body, scope, expression);
                },
            }
        },
        _ => {},
    }
}

proof fn keeps_b_closure_params(body: Body, scope: Scope, list: Seq<ClosureParam>, from: int)
    ensures
        same_declarations(body.hir, b_closure_params(body, scope, list, from).hir),
        same_outer(body.scopes, b_closure_params(body, scope, list, from).scopes),
    decreases list, list.len() - from,
{
    if 0 <= from < list.len() {
        keeps_bind(body, scope.module, list[from].name@, Some(list[from].name_span), false);
        keeps_b_closure_params(
            body.bind(scope.module, list[from].name@, Some(list[from].name_span), false),
            scope,
            list,
            from + 1,
        );
    }
}

proof fn keeps_b_closure_body(body: Body, scope: Scope, inner: ClosureBody)
    ensures
        same_declarations(body.hir, b_closure_body(body, scope, inner).hir),
        b_closure_body(body, scope, inner).scopes == body.scopes,
    decreases inner, 0int,
{
    match inner {
        ClosureBody::Expr(expression) => {
            keeps_b_expr(body, scope, *expression);
        },
        ClosureBody::Block(block) => {
            keeps_b_block(body, scope, block);
        },
    }
}

pub proof fn keeps_b_expr(body: Body, scope: Scope, expression: Expr)
    ensures
        same_declarations(body.hir, b_expr(body, scope, expression).hir),
        b_expr(body, scope, expression).scopes == body.scopes,
    decreases expression, 0int,
{
    match expression.kind {
        ExprKind::Path(path) => {
            keeps_path_expression(body, scope, expression, texts(path@));
        },
        ExprKind::StructLit { path, fields } => {
            keeps_struct_expression(body, scope, expression, texts(path@));
            keeps_b_fields(
                body.struct_expression(scope, expression, texts(path@)),
                scope,
                fields@,
                0,
            );
        },
        ExprKind::Assign { target, value, .. } => {
            keeps_b_expr(body, scope, *target);
            keeps_check_assignment(b_expr(body, scope, *target), *target);
            keeps_b_expr(b_expr(body, scope, *target).check_assignment(*target), scope, *value);
        },
        ExprKind::Closure { params, body: inner, .. } => {
            keeps_b_closure_params(body.push(), scope, params@, 0);
            keeps_b_closure_body(b_closure_params(body.push(), scope, params@, 0), scope, inner);
        },
        ExprKind::Unary { expr, .. } => {
            keeps_b_expr(body, scope, *expr);
        },
        ExprKind::Try { expr } => {
            keeps_b_expr(body, scope, *expr);
        },
        ExprKind::Binary { lhs, rhs, .. } => {
            keeps_b_expr(body, scope, *lhs);
            keeps_b_expr(b_expr(body, scope, *lhs), scope, *rhs);
        },
        ExprKind::Call { callee, args } => {
            keeps_b_expr(body, scope, *callee);
            keeps_b_exprs(b_expr(body, scope, *callee), scope, args@, 0);
        },
        ExprKind::MethodCall { recv, args, .. } => {
            keeps_b_expr(body, scope, *recv);
            keeps_b_exprs(b_expr(body, scope, *recv), scope, args@, 0);
        },
        ExprKind::Field { base, .. } => {
            keeps_b_expr(body, scope, *base);
        },
        ExprKind::MapLit(entries) => {
            keeps_b_pairs(body, scope, entries@, 0);
        },
        ExprKind::Match { scrut, arms } => {
            keeps_b_expr(body, scope, *scrut);
            keeps_b_arms(b_expr(body, scope, *scrut), scope, arms@, 0);
        },
        ExprKind::Range { start, end, .. } => {
            keeps_b_expr(body, scope, *start);
            keeps_b_expr(b_expr(body, scope, *start), scope, *end);
        },
        ExprKind::Index { base, index } => {
            keeps_b_expr(body, scope, *base);
            keeps_b_expr(b_expr(body, scope, *base), scope, *index);
        },
        ExprKind::VecLit(elements) => {
            keeps_b_exprs(body, scope, elements@, 0);
        },
        ExprKind::MacroCall { name, args } => {
            keeps_b_exprs(body.macro_expression(scope, expression, name@), scope, args@, 0);
        },
        ExprKind::If { cond, then_block, else_block } => {
            keeps_b_expr(body, scope, *cond);
            keeps_b_block(b_expr(body, scope, *cond), scope, then_block);
            keeps_b_else(b_block(b_expr(body, scope, *cond), scope, then_block), scope, else_block);
        },
        ExprKind::IfLet { pat, expr, then_block, else_block } => {
            keeps_b_expr(body, scope, *expr);
            keeps_b_pattern(b_expr(body, scope, *expr).push(), scope, *pat);
            keeps_b_block(
                b_pattern(b_expr(body, scope, *expr).push(), scope, *pat),
                scope,
                then_block,
            );
            keeps_b_else(
                b_block(b_pattern(b_expr(body, scope, *expr).push(), scope, *pat), scope, then_block).pop(),
                scope,
                else_block,
            );
        },
        ExprKind::Block(block) => {
            keeps_b_block(body, scope, block);
        },
        ExprKind::Loop(block) => {
            keeps_b_block(body, scope, block);
        },
        _ => {},
    }
    assert(body.scopes.push(Map::empty()).drop_last() =~= body.scopes);
}

proof fn keeps_b_patterns(body: Body, scope: Scope, list: Seq<Pattern>, from: int)
    ensures
        same_declarations(body.hir, b_patterns(body, scope, list, from).hir),
        same_outer(body.scopes, b_patterns(body, scope, list, from).scopes),
    decreases list, list.len() - from,
{
    if 0 <= from < list.len() {
        keeps_b_pattern(body, scope, list[from]);
        keeps_b_patterns(b_pattern(body, scope, list[from]), scope, list, from + 1);
    }
}

proof fn keeps_b_field_patterns(body: Body, scope: Scope, list: Seq<(String, Pattern)>, from: int)
    ensures
        same_declarations(body.hir, b_field_patterns(body, scope, list, from).hir),
        same_outer(body.scopes, b_field_patterns(body, scope, list, from).scopes),
    decreases list, list.len() - from,
{
    if 0 <= from < list.len() {
        keeps_b_pattern(body, scope, list[from].1);
        keeps_b_field_patterns(b_pattern(body, scope, list[from].1), scope, list, from + 1);
    }
}

proof fn keeps_b_pattern(body: Body, scope: Scope, pattern: Pattern)
    ensures
        same_declarations(body.hir, b_pattern(body, scope, pattern).hir),
        same_outer(body.scopes, b_pattern(body, scope, pattern).scopes),
    decreases pattern, 0int,
{
    match pattern {
        Pattern::Binding(name, source) => {
            keeps_bind(body, scope.module, name@, Some(source), false);
        },
        Pattern::Literal(expression) => {
            keeps_b_expr(body, scope, expression);
        },
        Pattern::Range { lo, hi, .. } => {
            keeps_b_expr(body, scope, *lo);
            keeps_b_expr(b_expr(body, scope, *lo), scope, *hi);
        },
        Pattern::Path { id, path } => {
            keeps_pattern_path(body, scope, id, texts(path@));
        },
        Pattern::TupleVariant { id, path, elems } => {
            keeps_pattern_path(body, scope, id, texts(path@));
            keeps_b_patterns(body.pattern_path(scope, id, texts(path@)), scope, elems@, 0);
        },
        Pattern::StructVariant { id, path, fields, .. } => {
            keeps_pattern_path(body, scope, id, texts(path@));
            keeps_b_field_patterns(body.pattern_path(scope, id, texts(path@)), scope, fields@, 0);
        },
        _ => {},
    }
}

proof fn keeps_t_bounds(hir: HirModel, scope: Scope, bounds: Seq<TraitRef>, from: int)
    ensures
        same_declarations(hir, t_bounds(hir, scope, bounds, from)),
    decreases bounds.len() - from,
{
    if 0 <= from < bounds.len() {
        let path = bounds[from].path@;
        let next = match trait_named(hir, imported_type(hir, scope, path), scope.traits, path) { Some(target) => HirModel { trait_ref_targets: hir.trait_ref_targets.insert(bounds[from].id, target), ..hir }, None => hir, };
        keeps_t_bounds(next, scope, bounds, from + 1);
    }
}

proof fn keeps_t_generics(hir: HirModel, scope: Scope, list: Seq<GenericParam>, from: int)
    ensures
        same_declarations(hir, t_generics(hir, scope, list, from)),
    decreases list.len() - from,
{
    if 0 <= from < list.len() {
        keeps_t_bounds(hir, scope, list[from].bounds@, 0);
        keeps_t_generics(t_bounds(hir, scope, list[from].bounds@, 0), scope, list, from + 1);
    }
}

proof fn keeps_t_params(hir: HirModel, scope: Scope, list: Seq<Param>, from: int)
    ensures
        same_declarations(hir, t_params(hir, scope, list, from)),
    decreases list.len() - from,
{
    if 0 <= from < list.len() {
        keeps_t_type(hir, scope, list[from].ty);
        keeps_t_params(t_type(hir, scope, list[from].ty), scope, list, from + 1);
    }
}

proof fn keeps_t_declared_fields(hir: HirModel, scope: Scope, list: Seq<Field>, from: int)
    ensures
        same_declarations(hir, t_declared_fields(hir, scope, list, from)),
    decreases list.len() - from,
{
    if 0 <= from < list.len() {
        keeps_t_type(hir, scope, list[from].ty);
        keeps_t_declared_fields(t_type(hir, scope, list[from].ty), scope, list, from + 1);
    }
}

proof fn keeps_t_variants(hir: HirModel, scope: Scope, list: Seq<Variant>, from: int)
    ensures
        same_declarations(hir, t_variants(hir, scope, list, from)),
    decreases list.len() - from,
{
    if 0 <= from < list.len() {
        match list[from].kind {
            VariantKind::Tuple(types) => {
                keeps_t_types(hir, scope, types@, 0);
            },
            VariantKind::Struct(fields) => {
                keeps_t_declared_fields(hir, scope, fields@, 0);
            },
            _ => {},
        }
        let next = match list[from].kind { VariantKind::Unit => hir, VariantKind::Tuple(types) => t_types(hir, scope, types@, 0), VariantKind::Struct(fields) => t_declared_fields(hir, scope, fields@, 0), };
        keeps_t_variants(next, scope, list, from + 1);
    }
}

proof fn keeps_t_methods(
    hir: HirModel,
    scope: Scope,
    outer: Seq<GenericParam>,
    list: Seq<FnDecl>,
    from: int,
)
    ensures
        same_declarations(hir, t_methods(hir, scope, outer, list, from)),
    decreases list.len() - from,
{
    if 0 <= from < list.len() {
        let method = list[from];
        let inside = generic_scope(scope, outer, method.generics@);
        keeps_t_generics(hir, scope, method.generics@, 0);
        let hir = t_generics(hir, scope, method.generics@, 0);
        keeps_t_params(hir, inside, method.params@, 0);
        keeps_t_option(t_params(hir, inside, method.params@, 0), inside, method.ret);
        let hir = t_option(t_params(hir, inside, method.params@, 0), inside, method.ret);
        keeps_t_block(hir, inside, method.body);
        keeps_t_methods(t_block(hir, inside, method.body), scope, outer, list, from + 1);
    }
}

proof fn keeps_t_trait_methods(
    hir: HirModel,
    scope: Scope,
    outer: Seq<GenericParam>,
    list: Seq<TraitMethod>,
    from: int,
)
    ensures
        same_declarations(hir, t_trait_methods(hir, scope, outer, list, from)),
    decreases list.len() - from,
{
    if 0 <= from < list.len() {
        let method = list[from];
        let inside = generic_scope(scope, outer, method.generics@);
        keeps_t_generics(hir, scope, method.generics@, 0);
        let hir = t_generics(hir, scope, method.generics@, 0);
        keeps_t_params(hir, inside, method.params@, 0);
        keeps_t_option(t_params(hir, inside, method.params@, 0), inside, method.ret);
        let hir = t_option(t_params(hir, inside, method.params@, 0), inside, method.ret);
        match method.default {
            Some(body) => {
                keeps_t_block(hir, inside, body);
            },
            _ => {},
        }
        let hir = match method.default { Some(body) => t_block(hir, inside, body), None => hir, };
        keeps_t_trait_methods(hir, scope, outer, list, from + 1);
    }
}

proof fn keeps_t_externs(hir: HirModel, scope: Scope, list: Seq<ExternFn>, from: int)
    ensures
        same_declarations(hir, t_externs(hir, scope, list, from)),
    decreases list.len() - from,
{
    if 0 <= from < list.len() {
        keeps_t_params(hir, scope, list[from].params@, 0);
        keeps_t_option(t_params(hir, scope, list[from].params@, 0), scope, list[from].ret);
        keeps_t_externs(
            t_option(t_params(hir, scope, list[from].params@, 0), scope, list[from].ret),
            scope,
            list,
            from + 1,
        );
    }
}

proof fn keeps_t_item(hir: HirModel, scope: Scope, item: Item)
    ensures
        same_declarations(hir, t_item(hir, scope, item)),
{
    match item {
        Item::Annotation(annotation) => {
            keeps_t_params(hir, scope, annotation.params@, 0);
        },
        Item::Fn(function) => {
            let inside = generic_scope(scope, function.generics@, Seq::empty());
            keeps_t_generics(hir, scope, function.generics@, 0);
            let hir = t_generics(hir, scope, function.generics@, 0);
            keeps_t_params(hir, inside, function.params@, 0);
            keeps_t_option(t_params(hir, inside, function.params@, 0), inside, function.ret);
            let hir = t_option(t_params(hir, inside, function.params@, 0), inside, function.ret);
            keeps_t_block(hir, inside, function.body);
        },
        Item::Struct(structure) => {
            keeps_t_generics(hir, scope, structure.generics@, 0);
            keeps_t_declared_fields(
                t_generics(hir, scope, structure.generics@, 0),
                generic_scope(scope, structure.generics@, Seq::empty()),
                structure.fields@,
                0,
            );
        },
        Item::Enum(enumeration) => {
            keeps_t_generics(hir, scope, enumeration.generics@, 0);
            keeps_t_variants(
                t_generics(hir, scope, enumeration.generics@, 0),
                generic_scope(scope, enumeration.generics@, Seq::empty()),
                enumeration.variants@,
                0,
            );
        },
        Item::Impl(implementation) => {
            keeps_t_generics(hir, scope, implementation.generics@, 0);
            keeps_t_methods(
                t_generics(hir, scope, implementation.generics@, 0),
                scope,
                implementation.generics@,
                implementation.methods@,
                0,
            );
        },
        Item::Trait(declaration) => {
            keeps_t_generics(hir, scope, declaration.generics@, 0);
            keeps_t_trait_methods(
                t_generics(hir, scope, declaration.generics@, 0),
                scope,
                declaration.generics@,
                declaration.methods@,
                0,
            );
        },
        Item::Extern(block) => {
            keeps_t_externs(hir, scope, block.fns@, 0);
        },
        _ => {},
    }
}

proof fn keeps_t_items(hir: HirModel, scope: Scope, items: Seq<Item>, from: int)
    ensures
        same_declarations(hir, t_items(hir, scope, items, from)),
    decreases items.len() - from,
{
    if 0 <= from < items.len() {
        keeps_t_item(hir, scope, items[from]);
        keeps_t_items(t_item(hir, scope, items[from]), scope, items, from + 1);
    }
}

proof fn keeps_import_target(hir: HirModel, module: ModuleId, import: UseImport)
    ensures
        same_declarations(hir, import_target(hir, module, import).0),
{
}

proof fn keeps_with_imports(
    hir: HirModel,
    module: ModuleId,
    imports: Seq<UseImport>,
    from: int,
    aliases: Map<Seq<char>, ResolvedTarget>,
)
    ensures
        same_declarations(hir, with_imports(hir, module, imports, from, aliases).0),
    decreases imports.len() - from,
{
    if 0 <= from < imports.len() {
        let name = import_name(imports[from]);
        keeps_import_target(hir, module, imports[from]);
        let (hir, target) = import_target(hir, module, imports[from]);
        keeps_with_imports(
            HirModel { imports: hir.imports.push(ImportRecord { module, name, target }), ..hir },
            module,
            imports,
            from + 1,
            aliases.insert(name, target),
        );
    }
}

proof fn keeps_with_aliases(
    hir: HirModel,
    module: ModuleId,
    items: Seq<Item>,
    from: int,
    aliases: Map<Seq<char>, ResolvedTarget>,
)
    ensures
        same_declarations(hir, with_aliases(hir, module, items, from, aliases).0),
    decreases items.len() - from,
{
    if 0 <= from < items.len() {
        match items[from] {
            Item::Use(declaration) => {
                keeps_with_imports(hir, module, declaration.imports@, 0, aliases);
            },
            _ => {},
        }
        let (hir, aliases) = match items[from] { Item::Use(declaration) => with_imports(hir, module, declaration.imports@, 0, aliases), _ => (hir, aliases), };
        keeps_with_aliases(hir, module, items, from + 1, aliases);
    }
}

pub proof fn keeps_b_params(body: Body, module: ModuleId, params: Seq<Param>, from: int)
    ensures
        same_declarations(body.hir, b_params(body, module, params, from).hir),
        same_outer(body.scopes, b_params(body, module, params, from).scopes),
    decreases params.len() - from,
{
    if 0 <= from < params.len() {
        keeps_bind(body, module, params[from].name@, Some(params[from].name_span), false);
        keeps_b_params(
            body.bind(module, params[from].name@, Some(params[from].name_span), false),
            module,
            params,
            from + 1,
        );
    }
}

proof fn keeps_b_function(
    hir: HirModel,
    scope: Scope,
    has_self: bool,
    receiver_mutable: bool,
    params: Seq<Param>,
    block: Block,
)
    ensures
        same_declarations(hir, b_function(hir, scope, has_self, receiver_mutable, params, block)),
{
    let body = Body { hir, scopes: Seq::empty() }.push();
    if has_self {
        keeps_bind(body, scope.module, "self"@, None, receiver_mutable);
    }
    let body = if has_self { body.bind(scope.module, "self"@, None, receiver_mutable) } else { body };
    keeps_b_params(body, scope.module, params, 0);
    keeps_b_block(b_params(body, scope.module, params, 0), scope, block);
}

proof fn keeps_b_methods(hir: HirModel, scope: Scope, list: Seq<FnDecl>, from: int)
    ensures
        same_declarations(hir, b_methods(hir, scope, list, from)),
    decreases list.len() - from,
{
    if 0 <= from < list.len() {
        let method = list[from];
        keeps_b_function(
            hir,
            scope,
            method.has_self,
            method.receiver_mutable,
            method.params@,
            method.body,
        );
        keeps_b_methods(
            b_function(hir, scope, method.has_self, method.receiver_mutable, method.params@, method.body),
            scope,
            list,
            from + 1,
        );
    }
}

proof fn keeps_b_defaults(hir: HirModel, scope: Scope, list: Seq<TraitMethod>, from: int)
    ensures
        same_declarations(hir, b_defaults(hir, scope, list, from)),
    decreases list.len() - from,
{
    if 0 <= from < list.len() {
        let method = list[from];
        match method.default {
            Some(block) => {
                keeps_b_function(
                    hir,
                    scope,
                    method.has_self,
                    method.receiver_mutable,
                    method.params@,
                    block,
                );
            },
            _ => {},
        }
        let next = match method.default { Some(block) => b_function(hir, scope, method.has_self, method.receiver_mutable, method.params@, block), None => hir, };
        keeps_b_defaults(next, scope, list, from + 1);
    }
}

proof fn keeps_b_items(hir: HirModel, scope: Scope, items: Seq<Item>, from: int)
    ensures
        same_declarations(hir, b_items(hir, scope, items, from)),
    decreases items, items.len() - from,
{
    if 0 <= from < items.len() {
        match items[from] {
            Item::Fn(function) => {
                keeps_b_function(
                    hir,
                    scope,
                    function.has_self,
                    function.receiver_mutable,
                    function.params@,
                    function.body,
                );
            },
            Item::Impl(implementation) => {
                keeps_b_methods(hir, scope, implementation.methods@, 0);
            },
            Item::Trait(declaration) => {
                keeps_b_defaults(hir, scope, declaration.methods@, 0);
            },
            Item::Mod(child) => {
                match child_module(hir, scope.module, child.name@) {
                    Some(id) => {
                        keeps_resolved_module(
                            hir,
                            id,
                            child.items@,
                            child.chunk,
                            scope.types,
                            scope.values,
                            scope.macros,
                            scope.traits,
                        );
                    },
                    _ => {},
                }
            },
            _ => {},
        }
        let next = match items[from] { Item::Fn(function) => b_function(hir, scope, function.has_self, function.receiver_mutable, function.params@, function.body), Item::Impl(implementation) => b_methods(hir, scope, implementation.methods@, 0), Item::Trait(declaration) => b_defaults(hir, scope, declaration.methods@, 0), Item::Mod(child) => match child_module(hir, scope.module, child.name@) { Some(id) => resolved_module(hir, id, child.items@, child.chunk, scope.types, scope.values, scope.macros, scope.traits), None => hir, }, _ => hir, };
        keeps_b_items(next, scope, items, from + 1);
    }
}

proof fn keeps_resolved_module(
    hir: HirModel,
    module: ModuleId,
    items: Seq<Item>,
    chunk: Block,
    types: Map<Seq<char>, BuiltinId>,
    values: Map<Seq<char>, BuiltinId>,
    macros: Map<Seq<char>, BuiltinId>,
    traits: Map<Seq<char>, BuiltinTraitId>,
)
    ensures
        same_declarations(hir, resolved_module(hir, module, items, chunk, types, values, macros, traits)),
    decreases items, items.len() + 1,
{
    keeps_with_aliases(hir, module, items, 0, Map::empty());
    let (hir, aliases) = with_aliases(hir, module, items, 0, Map::empty());
    let scope = module_scope(module, aliases, types, values, macros, traits);
    keeps_t_items(hir, scope, items, 0);
    keeps_t_block(t_items(hir, scope, items, 0), scope, chunk);
    let hir = t_block(t_items(hir, scope, items, 0), scope, chunk);
    keeps_b_items(hir, scope, items, 0);
    let hir = b_items(hir, scope, items, 0);
    keeps_b_block(Body { hir, scopes: Seq::empty() }, scope, chunk);
}

/// Resolving the names in a program changes none of its declarations.
pub proof fn law_bodies_keep_declarations(
    program: Program,
    types: Map<Seq<char>, BuiltinId>,
    values: Map<Seq<char>, BuiltinId>,
    macros: Map<Seq<char>, BuiltinId>,
    traits: Map<Seq<char>, BuiltinTraitId>,
)
    ensures
        same_declarations(
            declarations_of(program, traits),
            resolved(program, types, values, macros, traits),
        ),
        consistent(
            resolved(program, types, values, macros, traits).modules,
            resolved(program, types, values, macros, traits).definitions,
        ),
{
    law_declarations_are_consistent(program, traits);
    keeps_resolved_module(
        declarations_of(program, traits),
        ModuleId(0),
        program.items@,
        program.chunk,
        types,
        values,
        macros,
        traits,
    );
}

/// Neither declarations nor bodies fill the tables that describe a standard library;
/// the locals of a resolved program carry their places as identities.
pub proof fn law_resolution_leaves_the_library_alone(
    program: Program,
    types: Map<Seq<char>, BuiltinId>,
    values: Map<Seq<char>, BuiltinId>,
    macros: Map<Seq<char>, BuiltinId>,
    traits: Map<Seq<char>, BuiltinTraitId>,
)
    ensures
        ({
            let hir = resolved(program, types, values, macros, traits);
            &&& hir.language_items == Map::<DefId, LanguageItem>::empty()
            &&& hir.standard_runtimes == Map::<DefId, RuntimeModule>::empty()
            &&& hir.named_runtimes == Map::<Seq<char>, RuntimeModule>::empty()
            &&& hir.runtime_helpers == Map::<Seq<char>, RuntimeModule>::empty()
            &&& are_numbered(hir.locals)
        }),
{
    law_declarations_leave_the_library_alone(program, traits);
    law_bodies_keep_declarations(program, types, values, macros, traits);
}

/// Behind a statement other than a `let` the names in scope are those before it.
pub proof fn lemma_only_let_declares(body: Body, scope: Scope, statement: Stmt)
    requires
        !(statement is Let),
    ensures
        b_stmt(body, scope, statement).scopes == body.scopes,
{
    match statement {
        Stmt::Expr(expression) => {
            keeps_b_expr(body, scope, expression);
        },
        Stmt::Return(Some(value)) => {
            keeps_b_expr(body, scope, value);
        },
        Stmt::Break(Some(value)) => {
            keeps_b_expr(body, scope, value);
        },
        Stmt::While { cond, body: inner } => {
            keeps_b_expr(body, scope, cond);
            keeps_b_block(b_expr(body, scope, cond), scope, inner);
        },
        Stmt::Loop { body: inner } => {
            keeps_b_block(body, scope, inner);
        },
        Stmt::For { var, var_span, iter, body: inner } => {
            keeps_b_expr(body, scope, iter);
            let start = b_expr(body, scope, iter).push();
            let bound = start.bind(scope.module, var@, Some(var_span), false);
            keeps_bind(start, scope.module, var@, Some(var_span), false);
            keeps_b_block(bound, scope, inner);
            assert(start.scopes.drop_last() =~= body.scopes);
        },
        Stmt::WhileLet { pat, expr, body: inner } => {
            keeps_b_expr(body, scope, expr);
            let start = b_expr(body, scope, expr).push();
            keeps_b_pattern(start, scope, *pat);
            keeps_b_block(b_pattern(start, scope, *pat), scope, inner);
            assert(start.scopes.drop_last() =~= body.scopes);
        },
        _ => {},
    }
}

/// Behind a block the names in scope are those before it.
pub proof fn law_blocks_leave_their_scopes(body: Body, scope: Scope, block: Block)
    ensures
        b_block(body, scope, block).scopes == body.scopes,
{
    keeps_b_block(body, scope, block);
}

} // verus!
