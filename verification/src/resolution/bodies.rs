//! What the paths in executable code refer to.

use vstd::prelude::*;

use super::declare::{one_argument, push_argument};
use super::model::{HirModel, LocalRecord};
use super::paths::{barrier, canonical_value, found, member_of, path_target};
use super::types::{Scope, ScopeRef};
use crate::ast::{
    Block, ClosureBody, ClosureParam, ElseBranch, Expr, ExprKind, MatchArm, Pattern, PatternId,
    Stmt,
};
use crate::diag::{arguments_model, DiagnosticCode};
use crate::hir::{DefKind, LocalData, LocalId, ModuleId, Namespace, ResolvedHir, ResolvedTarget};
use crate::table::Table;
use crate::text::{join, joined, texts};
use crate::token::SourceRange;

verus! {

/// The resolved program with the locals that are in scope.
pub struct Body {
    pub hir: HirModel,
    pub scopes: Seq<Map<Seq<char>, LocalId>>,
}

/// The local of a name in the innermost scope that has one.
pub open spec fn local_named(scopes: Seq<Map<Seq<char>, LocalId>>, name: Seq<char>) -> Option<LocalId>
    decreases scopes.len(),
{
    if scopes.len() == 0 {
        None
    } else if scopes.last().dom().contains(name) {
        Some(scopes.last()[name])
    } else {
        local_named(scopes.drop_last(), name)
    }
}

/// What a path means in executable code: through an import, or from the module.
pub open spec fn scoped_path(
    hir: HirModel,
    scope: Scope,
    namespace: Namespace,
    path: Seq<Seq<char>>,
) -> Option<ResolvedTarget> {
    if path.len() == 0 {
        None
    } else {
        match found(scope.aliases, path[0]) {
            Some(alias) => if path.len() == 1 {
                Some(alias)
            } else {
                match alias {
                    ResolvedTarget::Module(module) => path_target(
                        hir,
                        module,
                        namespace,
                        path.subrange(1, path.len() as int),
                    ),
                    ResolvedTarget::Item(owner) => if path.len() == 2 {
                        member_of(hir, owner, path[1])
                    } else {
                        None
                    },
                    _ => None,
                }
            },
            None => path_target(hir, scope.module, namespace, path),
        }
    }
}

/// A target that a module may refer to; otherwise the access is reported.
pub open spec fn checked_access(
    hir: HirModel,
    module: ModuleId,
    target: ResolvedTarget,
    span: Option<SourceRange>,
) -> (HirModel, ResolvedTarget) {
    match barrier(hir, module, target) {
        Some((name, owner)) => (
            hir.report(
                DiagnosticCode::NamePrivateAccess,
                span,
                seq![("name"@, name), ("owner"@, owner)],
            ),
            ResolvedTarget::Error,
        ),
        None => (hir, target),
    }
}

/// The path without its last segment.
pub open spec fn path_owner(path: Seq<Seq<char>>) -> Seq<Seq<char>> {
    if path.len() == 0 {
        path
    } else {
        path.subrange(0, path.len() - 1)
    }
}

/// What the start of an unresolved path means.
pub open spec fn unresolved_owner(hir: HirModel, scope: Scope, path: Seq<Seq<char>>) -> Option<
    ResolvedTarget,
> {
    let prefix = path_owner(path);
    if prefix.len() == 0 {
        None
    } else {
        match scoped_path(hir, scope, Namespace::Type, prefix) {
            Some(target) => Some(target),
            None => scoped_path(hir, scope, Namespace::Module, prefix),
        }
    }
}

/// How a message names the owner of a missing member, and what it is.
pub open spec fn owner_name(hir: HirModel, owner: ResolvedTarget, prefix: Seq<Seq<char>>) -> (
    Seq<char>,
    Seq<char>,
) {
    match owner {
        ResolvedTarget::Item(id) => if hir.has_definition(id) {
            (
                hir.definition(id).name,
                if hir.definition(id).kind == DefKind::Enum {
                    "enum"@
                } else {
                    "item"@
                },
            )
        } else {
            (Seq::empty(), "item"@)
        },
        ResolvedTarget::Module(module) => (
            if hir.has_module(module) {
                joined(hir.module(module).path, "::"@)
            } else {
                Seq::empty()
            },
            "module"@,
        ),
        _ => (joined(prefix, "::"@), "item"@),
    }
}

/// A path that means nothing: a missing member of what its start means, or an
/// unresolved name.
pub open spec fn missing_path(
    hir: HirModel,
    scope: Scope,
    span: Option<SourceRange>,
    path: Seq<Seq<char>>,
) -> HirModel {
    match unresolved_owner(hir, scope, path) {
        Some(owner) => {
            let (name, kind) = owner_name(hir, owner, path_owner(path));
            hir.report(
                DiagnosticCode::NameUnknownMember,
                span,
                seq![("owner"@, name), ("member"@, path.last()), ("kind"@, kind)],
            )
        },
        None => hir.unresolved(span, joined(path, "::"@)),
    }
}

/// What a value path outside the locals means.
pub open spec fn global_value(
    hir: HirModel,
    scope: Scope,
    span: Option<SourceRange>,
    path: Seq<Seq<char>>,
) -> (HirModel, ResolvedTarget) {
    if path.len() == 1 && scope.values.dom().contains(path[0]) {
        (hir, ResolvedTarget::Builtin(scope.values[path[0]]))
    } else {
        match scoped_path(hir, scope, Namespace::Value, path) {
            Some(target) => checked_access(hir, scope.module, canonical_value(hir, target), span),
            None => (missing_path(hir, scope, span, path), ResolvedTarget::Error),
        }
    }
}

/// The local at the root of a place.
pub open spec fn root_local(hir: HirModel, place: Expr) -> Option<LocalId>
    decreases place,
{
    match place.kind {
        ExprKind::Path(_) => match found(hir.expression_targets, place.id) {
            Some(ResolvedTarget::Local(local)) => Some(local),
            _ => None,
        },
        ExprKind::Field { base, .. } => root_local(hir, *base),
        ExprKind::Index { base, .. } => root_local(hir, *base),
        _ => None,
    }
}

impl Body {
    /// A scope inside the current one.
    pub open spec fn push(self) -> Body {
        Body { scopes: self.scopes.push(Map::empty()), ..self }
    }

    /// The scope around the current one.
    pub open spec fn pop(self) -> Body {
        if self.scopes.len() == 0 {
            self
        } else {
            Body { scopes: self.scopes.drop_last(), ..self }
        }
    }

    /// One more local in the current scope.
    pub open spec fn bind(
        self,
        module: ModuleId,
        name: Seq<char>,
        span: Option<SourceRange>,
        is_mutable: bool,
    ) -> Body {
        let id = LocalId(self.hir.locals.len() as u32);
        Body {
            hir: HirModel {
                locals: self.hir.locals.push(LocalRecord { id, name, module, is_mutable }),
                binding_targets: match span {
                    Some(span) => self.hir.binding_targets.insert(span, id),
                    None => self.hir.binding_targets,
                },
                ..self.hir
            },
            scopes: if self.scopes.len() == 0 {
                self.scopes
            } else {
                self.scopes.drop_last().push(self.scopes.last().insert(name, id))
            },
        }
    }

    /// What an expression means is recorded.
    pub open spec fn with_expression(self, expression: Expr, target: ResolvedTarget) -> Body {
        Body {
            hir: HirModel {
                expression_targets: self.hir.expression_targets.insert(expression.id, target),
                ..self.hir
            },
            ..self
        }
    }

    /// A path as a value: a local, or what it means outside.
    pub open spec fn path_expression(
        self,
        scope: Scope,
        expression: Expr,
        path: Seq<Seq<char>>,
    ) -> Body {
        match if path.len() == 1 {
            local_named(self.scopes, path[0])
        } else {
            None
        } {
            Some(local) => self.with_expression(expression, ResolvedTarget::Local(local)),
            None => {
                let (hir, target) = global_value(self.hir, scope, Some(expression.span), path);
                Body { hir, ..self }.with_expression(expression, target)
            },
        }
    }

    /// The type of a struct literal.
    pub open spec fn struct_expression(
        self,
        scope: Scope,
        expression: Expr,
        path: Seq<Seq<char>>,
    ) -> Body {
        let named = match scoped_path(self.hir, scope, Namespace::Type, path) {
            Some(target) => Some(target),
            None => scoped_path(self.hir, scope, Namespace::Value, path),
        };
        let (hir, target) = match named {
            Some(target) => checked_access(self.hir, scope.module, target, Some(expression.span)),
            None => (
                missing_path(self.hir, scope, Some(expression.span), path),
                ResolvedTarget::Error,
            ),
        };
        Body { hir, ..self }.with_expression(expression, target)
    }

    /// The name of a macro call: a macro that the compiler knows, or nothing.
    pub open spec fn macro_expression(
        self,
        scope: Scope,
        expression: Expr,
        name: Seq<char>,
    ) -> Body {
        if scope.macros.dom().contains(name) {
            self.with_expression(expression, ResolvedTarget::Builtin(scope.macros[name]))
        } else {
            Body { hir: self.hir.unresolved(Some(expression.span), name), ..self }.with_expression(
                expression,
                ResolvedTarget::Error,
            )
        }
    }

    /// An assignment to a place whose local never changes is reported.
    pub open spec fn check_assignment(self, place: Expr) -> Body {
        match root_local(self.hir, place) {
            Some(local) => if (local.0 as int) < self.hir.locals.len()
                && !self.hir.locals[local.0 as int].is_mutable {
                Body {
                    hir: self.hir.report(
                        DiagnosticCode::TypeImmutableAssignment,
                        Some(place.span),
                        seq![("name"@, self.hir.locals[local.0 as int].name)],
                    ),
                    ..self
                }
            } else {
                self
            },
            None => self,
        }
    }

    /// The path of a pattern.
    pub open spec fn pattern_path(self, scope: Scope, id: PatternId, path: Seq<Seq<char>>) -> Body {
        let (hir, target) = pattern_target(self.hir, scope, path);
        Body {
            hir: HirModel { pattern_targets: hir.pattern_targets.insert(id, target), ..hir },
            ..self
        }
    }
}

/// What the path of a pattern means: a builtin, a value or a type.
pub open spec fn pattern_target(hir: HirModel, scope: Scope, path: Seq<Seq<char>>) -> (
    HirModel,
    ResolvedTarget,
) {
    let named = if path.len() == 1 && scope.values.dom().contains(path[0]) {
        Some(ResolvedTarget::Builtin(scope.values[path[0]]))
    } else {
        match scoped_path(hir, scope, Namespace::Value, path) {
            Some(target) => Some(target),
            None => scoped_path(hir, scope, Namespace::Type, path),
        }
    };
    match named {
        Some(target) => checked_access(hir, scope.module, canonical_value(hir, target), None),
        None => (missing_path(hir, scope, None, path), ResolvedTarget::Error),
    }
}

/// The names in a block.
pub open spec fn b_block(body: Body, scope: Scope, block: Block) -> Body
    decreases block, 0int,
{
    let inside = b_stmts(body.push(), scope, block.stmts@, 0);
    match block.tail {
        Some(tail) => b_expr(inside, scope, *tail).pop(),
        None => inside.pop(),
    }
}

/// The names in the statements `list[from..]`.
pub open spec fn b_stmts(body: Body, scope: Scope, list: Seq<Stmt>, from: int) -> Body
    decreases list, list.len() - from,
{
    if from < 0 || from >= list.len() {
        body
    } else {
        b_stmts(b_stmt(body, scope, list[from]), scope, list, from + 1)
    }
}

/// The names in a statement.
pub open spec fn b_stmt(body: Body, scope: Scope, statement: Stmt) -> Body
    decreases statement, 0int,
{
    match statement {
        Stmt::Lua { .. } => body,
        Stmt::Let { name, name_span, mutable, init, .. } => b_expr(body, scope, init).bind(
            scope.module,
            name@,
            Some(name_span),
            mutable,
        ),
        Stmt::Expr(expression) => b_expr(body, scope, expression),
        Stmt::Return(value) => match value {
            Some(value) => b_expr(body, scope, value),
            None => body,
        },
        Stmt::Break(value) => match value {
            Some(value) => b_expr(body, scope, value),
            None => body,
        },
        Stmt::Continue => body,
        Stmt::While { cond, body: inner } => b_block(b_expr(body, scope, cond), scope, inner),
        Stmt::Loop { body: inner } => b_block(body, scope, inner),
        Stmt::For { var, var_span, iter, body: inner } => b_block(
            b_expr(body, scope, iter).push().bind(scope.module, var@, Some(var_span), false),
            scope,
            inner,
        ).pop(),
        Stmt::WhileLet { pat, expr, body: inner } => b_block(
            b_pattern(b_expr(body, scope, expr).push(), scope, *pat),
            scope,
            inner,
        ).pop(),
    }
}

/// The names in the expressions `list[from..]`.
pub open spec fn b_exprs(body: Body, scope: Scope, list: Seq<Expr>, from: int) -> Body
    decreases list, list.len() - from,
{
    if from < 0 || from >= list.len() {
        body
    } else {
        b_exprs(b_expr(body, scope, list[from]), scope, list, from + 1)
    }
}

/// The names in the field values `list[from..]`.
pub open spec fn b_fields(body: Body, scope: Scope, list: Seq<(String, Expr)>, from: int) -> Body
    decreases list, list.len() - from,
{
    if from < 0 || from >= list.len() {
        body
    } else {
        b_fields(b_expr(body, scope, list[from].1), scope, list, from + 1)
    }
}

/// The names in the pairs `list[from..]`.
pub open spec fn b_pairs(body: Body, scope: Scope, list: Seq<(Expr, Expr)>, from: int) -> Body
    decreases list, list.len() - from,
{
    if from < 0 || from >= list.len() {
        body
    } else {
        b_pairs(b_expr(b_expr(body, scope, list[from].0), scope, list[from].1), scope, list, from + 1)
    }
}

/// The names in the arms `list[from..]`.
pub open spec fn b_arms(body: Body, scope: Scope, list: Seq<MatchArm>, from: int) -> Body
    decreases list, list.len() - from,
{
    if from < 0 || from >= list.len() {
        body
    } else {
        b_arms(b_arm(body, scope, list[from]), scope, list, from + 1)
    }
}

/// The names in an arm.
pub open spec fn b_arm(body: Body, scope: Scope, arm: MatchArm) -> Body
    decreases arm, 0int,
{
    let inside = b_patterns(body.push(), scope, arm.pats@, 0);
    let inside = match arm.guard {
        Some(guard) => b_expr(inside, scope, guard),
        None => inside,
    };
    b_expr(inside, scope, arm.body).pop()
}

/// The names in an `else`.
pub open spec fn b_else(body: Body, scope: Scope, branch: Option<Box<ElseBranch>>) -> Body
    decreases branch, 0int,
{
    match branch {
        Some(branch) => match *branch {
            ElseBranch::Block(block) => b_block(body, scope, block),
            ElseBranch::If(expression) => b_expr(body, scope, expression),
        },
        None => body,
    }
}

/// The closure parameters `list[from..]`.
pub open spec fn b_closure_params(body: Body, scope: Scope, list: Seq<ClosureParam>, from: int) -> Body
    decreases list, list.len() - from,
{
    if from < 0 || from >= list.len() {
        body
    } else {
        b_closure_params(body.bind(scope.module, list[from].name@, Some(list[from].name_span), false), scope, list, from + 1)
    }
}

/// The names in the body of a closure.
pub open spec fn b_closure_body(body: Body, scope: Scope, inner: ClosureBody) -> Body
    decreases inner, 0int,
{
    match inner {
        ClosureBody::Expr(expression) => b_expr(body, scope, *expression),
        ClosureBody::Block(block) => b_block(body, scope, block),
    }
}

/// The names in an expression.
pub open spec fn b_expr(body: Body, scope: Scope, expression: Expr) -> Body
    decreases expression, 0int,
{
    match expression.kind {
        ExprKind::Path(path) => body.path_expression(scope, expression, texts(path@)),
        ExprKind::StructLit { path, fields } => b_fields(
            body.struct_expression(scope, expression, texts(path@)),
            scope,
            fields@,
            0,
        ),
        ExprKind::Assign { target, value, .. } => b_expr(
            b_expr(body, scope, *target).check_assignment(*target),
            scope,
            *value,
        ),
        ExprKind::Closure { params, body: inner, .. } => b_closure_body(b_closure_params(body.push(), scope, params@, 0), scope, inner).pop(),
        ExprKind::Unary { expr, .. } => b_expr(body, scope, *expr),
        ExprKind::Try { expr } => b_expr(body, scope, *expr),
        ExprKind::Binary { lhs, rhs, .. } => b_expr(b_expr(body, scope, *lhs), scope, *rhs),
        ExprKind::Call { callee, args } => b_exprs(b_expr(body, scope, *callee), scope, args@, 0),
        ExprKind::MethodCall { recv, args, .. } => b_exprs(b_expr(body, scope, *recv), scope, args@, 0),
        ExprKind::Field { base, .. } => b_expr(body, scope, *base),
        ExprKind::MapLit(entries) => b_pairs(body, scope, entries@, 0),
        ExprKind::Match { scrut, arms } => b_arms(b_expr(body, scope, *scrut), scope, arms@, 0),
        ExprKind::Range { start, end, .. } => b_expr(b_expr(body, scope, *start), scope, *end),
        ExprKind::Index { base, index } => b_expr(b_expr(body, scope, *base), scope, *index),
        ExprKind::VecLit(elements) => b_exprs(body, scope, elements@, 0),
        ExprKind::MacroCall { name, args } => b_exprs(body.macro_expression(scope, expression, name@), scope, args@, 0),
        ExprKind::If { cond, then_block, else_block } => b_else(b_block(b_expr(body, scope, *cond), scope, then_block), scope, else_block),
        ExprKind::IfLet { pat, expr, then_block, else_block } => b_else(b_block(b_pattern(b_expr(body, scope, *expr).push(), scope, *pat), scope, then_block).pop(), scope, else_block),
        ExprKind::Block(block) => b_block(body, scope, block),
        ExprKind::Loop(block) => b_block(body, scope, block),
        _ => body,
    }
}

/// The names in the patterns `list[from..]`.
pub open spec fn b_patterns(body: Body, scope: Scope, list: Seq<Pattern>, from: int) -> Body
    decreases list, list.len() - from,
{
    if from < 0 || from >= list.len() {
        body
    } else {
        b_patterns(b_pattern(body, scope, list[from]), scope, list, from + 1)
    }
}

/// The names in the field patterns `list[from..]`.
pub open spec fn b_field_patterns(body: Body, scope: Scope, list: Seq<(String, Pattern)>, from: int) -> Body
    decreases list, list.len() - from,
{
    if from < 0 || from >= list.len() {
        body
    } else {
        b_field_patterns(b_pattern(body, scope, list[from].1), scope, list, from + 1)
    }
}

/// The names in a pattern.
pub open spec fn b_pattern(body: Body, scope: Scope, pattern: Pattern) -> Body
    decreases pattern, 0int,
{
    match pattern {
        Pattern::Wildcard => body,
        Pattern::Binding(name, source) => body.bind(scope.module, name@, Some(source), false),
        Pattern::Literal(expression) => b_expr(body, scope, expression),
        Pattern::Range { lo, hi, .. } => b_expr(b_expr(body, scope, *lo), scope, *hi),
        Pattern::Path { id, path } => body.pattern_path(scope, id, texts(path@)),
        Pattern::TupleVariant { id, path, elems } => b_patterns(
            body.pattern_path(scope, id, texts(path@)),
            scope,
            elems@,
            0,
        ),
        Pattern::StructVariant { id, path, fields, .. } => b_field_patterns(
            body.pattern_path(scope, id, texts(path@)),
            scope,
            fields@,
            0,
        ),
    }
}

fn resolve_scoped(hir: &ResolvedHir, scope: &ScopeRef, namespace: Namespace, path: &Vec<String>, last: usize) -> (r:
    Option<ResolvedTarget>)
    requires
        last <= path@.len(),
    ensures
        r == scoped_path(hir@, scope@, namespace, texts(path@).subrange(0, last as int)),
{
    let ghost model = texts(path@).subrange(0, last as int);
    if last == 0 {
        return None;
    }
    proof {
        assert(model[0] == path@[0]@);
    }
    match scope.aliases.get(&path[0]) {
        Some(alias) => {
            if last == 1 {
                return Some(*alias);
            }
            match *alias {
                ResolvedTarget::Module(module) => {
                    proof {
                        assert(model.subrange(1, last as int) =~= texts(path@).subrange(
                            1,
                            last as int,
                        ));
                    }
                    hir.resolve_part(module, namespace, path, 1, last)
                },
                ResolvedTarget::Item(owner) => {
                    if last == 2 {
                        proof {
                            assert(model[1] == path@[1]@);
                        }
                        hir.find_member(owner, &path[1])
                    } else {
                        None
                    }
                },
                _ => None,
            }
        },
        None => hir.resolve_part(scope.module, namespace, path, 0, last),
    }
}

/// What a whole path means in executable code.
fn resolve_whole(hir: &ResolvedHir, scope: &ScopeRef, namespace: Namespace, path: &Vec<String>) -> (r:
    Option<ResolvedTarget>)
    ensures
        r == scoped_path(hir@, scope@, namespace, texts(path@)),
{
    proof {
        assert(texts(path@).subrange(0, path@.len() as int) =~= texts(path@));
    }
    resolve_scoped(hir, scope, namespace, path, path.len())
}

fn check_access(
    hir: &mut ResolvedHir,
    module: ModuleId,
    target: ResolvedTarget,
    span: Option<SourceRange>,
) -> (r: ResolvedTarget)
    ensures
        (final(hir)@, r) == checked_access(old(hir)@, module, target, span),
{
    match hir.private_barrier(module, target) {
        Some((name, owner)) => {
            let ghost texts_of = (name@, owner@);
            let mut arguments = one_argument("name", name);
            push_argument(&mut arguments, "owner", owner);
            proof {
                assert(arguments_model(arguments@) =~= seq![
                    ("name"@, texts_of.0),
                    ("owner"@, texts_of.1),
                ]);
            }
            hir.report(DiagnosticCode::NamePrivateAccess, span, arguments);
            ResolvedTarget::Error
        },
        None => target,
    }
}

fn prefix_owner(hir: &ResolvedHir, scope: &ScopeRef, path: &Vec<String>) -> (r: Option<
    ResolvedTarget,
>)
    ensures
        r == unresolved_owner(hir@, scope@, texts(path@)),
{
    let n: usize = path.len();
    if n < 2 {
        return None;
    }
    if let Some(target) = resolve_scoped(hir, scope, Namespace::Type, path, n - 1) {
        return Some(target);
    }
    resolve_scoped(hir, scope, Namespace::Module, path, n - 1)
}

fn owner_text(hir: &ResolvedHir, owner: ResolvedTarget, prefix: &Vec<String>) -> (r: (
    String,
    &'static str,
))
    ensures
        (r.0@, r.1@) == owner_name(hir@, owner, texts(prefix@)),
{
    match owner {
        ResolvedTarget::Item(id) => match hir.find_definition(id) {
            Some(data) => {
                let kind = if data.kind == DefKind::Enum {
                    "enum"
                } else {
                    "item"
                };
                (data.name.clone(), kind)
            },
            None => {
                let text = String::new();
                proof {
                    assert(text@ =~= Seq::empty());
                }
                (text, "item")
            },
        },
        ResolvedTarget::Module(module) => match hir.find_module(module) {
            Some(data) => (join(&data.path, "::"), "module"),
            None => {
                let text = String::new();
                proof {
                    assert(text@ =~= Seq::empty());
                }
                (text, "module")
            },
        },
        _ => (join(prefix, "::"), "item"),
    }
}

/// The first segments of a path.
fn first_segments(path: &Vec<String>, n: usize) -> (r: Vec<String>)
    requires
        n <= path@.len(),
    ensures
        texts(r@) == texts(path@).subrange(0, n as int),
{
    let mut out: Vec<String> = Vec::new();
    let mut i: usize = 0;
    while i < n
        invariant
            i <= n <= path.len(),
            out@.len() == i,
            forall|k: int| 0 <= k < i ==> (#[trigger] out@[k])@ == path@[k]@,
        decreases n - i,
    {
        out.push(path[i].clone());
        i += 1;
    }
    proof {
        assert(texts(out@) =~= texts(path@).subrange(0, n as int));
    }
    out
}

fn report_unresolved_path(
    hir: &mut ResolvedHir,
    scope: &ScopeRef,
    span: Option<SourceRange>,
    path: &Vec<String>,
)
    ensures
        final(hir)@ == missing_path(old(hir)@, scope@, span, texts(path@)),
{
    match prefix_owner(hir, scope, path) {
        Some(owner) => {
            let n: usize = path.len();
            if n == 0 {
                return ;
            }
            let prefix = first_segments(path, n - 1);
            let (name, kind) = owner_text(hir, owner, &prefix);
            let ghost name_text = name@;
            let mut arguments = one_argument("owner", name);
            push_argument(&mut arguments, "member", path[n - 1].clone());
            push_argument(&mut arguments, "kind", kind.to_string());
            proof {
                assert(texts(path@).last() == path@[n - 1]@);
                assert(arguments_model(arguments@) =~= seq![
                    ("owner"@, name_text),
                    ("member"@, path@[n - 1]@),
                    ("kind"@, kind@),
                ]);
            }
            hir.report(DiagnosticCode::NameUnknownMember, span, arguments);
        },
        None => {
            hir.unresolved(span, join(path, "::").as_str());
        },
    }
}

fn resolve_global_value(
    hir: &mut ResolvedHir,
    scope: &ScopeRef,
    span: Option<SourceRange>,
    path: &Vec<String>,
) -> (r: ResolvedTarget)
    ensures
        (final(hir)@, r) == global_value(old(hir)@, scope@, span, texts(path@)),
{
    if path.len() == 1 {
        proof {
            assert(texts(path@)[0] == path@[0]@);
        }
        if let Some(builtin) = scope.builtins.values.get(&path[0]) {
            return ResolvedTarget::Builtin(*builtin);
        }
    }
    match resolve_whole(hir, scope, Namespace::Value, path) {
        Some(target) => {
            let target = hir.canonical_value_target(target);
            check_access(hir, scope.module, target, span)
        },
        None => {
            report_unresolved_path(hir, scope, span, path);
            ResolvedTarget::Error
        },
    }
}

fn root_local_target(hir: &ResolvedHir, place: &Expr) -> (r: Option<LocalId>)
    ensures
        r == root_local(hir@, *place),
    decreases *place,
{
    match &place.kind {
        ExprKind::Path(_) => match hir.expression_targets.get(&place.id) {
            Some(ResolvedTarget::Local(local)) => Some(*local),
            _ => None,
        },
        ExprKind::Field { base, .. } => root_local_target(hir, base),
        ExprKind::Index { base, .. } => root_local_target(hir, base),
        _ => None,
    }
}

fn check_assignment(hir: &mut ResolvedHir, place: &Expr)
    ensures
        forall|scopes: Seq<Map<Seq<char>, LocalId>>|
            (Body { hir: final(hir)@, scopes }) == #[trigger] (Body {
                hir: old(hir)@,
                scopes,
            }).check_assignment(*place),
{
    if let Some(local) = root_local_target(hir, place) {
        let at = local.index();
        if at < hir.locals.len() {
            proof {
                assert(hir@.locals[at as int] == hir.locals@[at as int].record());
            }
            if !hir.locals[at].is_mutable {
                let name = hir.locals[at].name.clone();
                hir.report(
                    DiagnosticCode::TypeImmutableAssignment,
                    Some(place.span),
                    one_argument("name", name),
                );
            }
        }
    }
}

fn resolve_pattern_path(hir: &mut ResolvedHir, scope: &ScopeRef, id: PatternId, path: &Vec<String>)
    ensures
        forall|scopes: Seq<Map<Seq<char>, LocalId>>|
            (Body { hir: final(hir)@, scopes }) == #[trigger] (Body {
                hir: old(hir)@,
                scopes,
            }).pattern_path(scope@, id, texts(path@)),
{
    let mut named: Option<ResolvedTarget> = None;
    if path.len() == 1 {
        proof {
            assert(texts(path@)[0] == path@[0]@);
        }
        if let Some(builtin) = scope.builtins.values.get(&path[0]) {
            named = Some(ResolvedTarget::Builtin(*builtin));
        }
    }
    if named.is_none() {
        named = resolve_whole(hir, scope, Namespace::Value, path);
        if named.is_none() {
            named = resolve_whole(hir, scope, Namespace::Type, path);
        }
    }
    let target = match named {
        Some(target) => {
            let target = hir.canonical_value_target(target);
            check_access(hir, scope.module, target, None)
        },
        None => {
            report_unresolved_path(hir, scope, None, path);
            ResolvedTarget::Error
        },
    };
    let _ = hir.pattern_targets.insert(id, target);
}

/// The locals that are in scope while a body is resolved.
pub struct BodyResolver {
    pub scopes: Vec<Table<String, LocalId>>,
}

/// The scopes over mathematical maps.
pub open spec fn scopes_model(scopes: Seq<Table<String, LocalId>>) -> Seq<Map<Seq<char>, LocalId>> {
    Seq::new(scopes.len(), |i: int| scopes[i]@)
}

impl BodyResolver {
    /// The locals with the resolved program.
    pub open spec fn with(&self, hir: HirModel) -> Body {
        Body { hir, scopes: scopes_model(self.scopes@) }
    }

    /// No locals.
    pub fn new() -> (r: Self)
        ensures
            scopes_model(r.scopes@) == Seq::<Map<Seq<char>, LocalId>>::empty(),
    {
        let r = BodyResolver { scopes: Vec::new() };
        proof {
            assert(scopes_model(r.scopes@) =~= Seq::<Map<Seq<char>, LocalId>>::empty());
        }
        r
    }

    /// Opens a scope.
    pub fn push(&mut self)
        ensures
            forall|hir: HirModel| #[trigger] final(self).with(hir) == old(self).with(hir).push(),
    {
        let scope: Table<String, LocalId> = Table::new();
        self.scopes.push(scope);
        proof {
            assert(scopes_model(self.scopes@) =~= scopes_model(old(self).scopes@).push(
                Map::empty(),
            ));
        }
    }

    /// Closes a scope.
    pub fn pop(&mut self)
        ensures
            forall|hir: HirModel| #[trigger] final(self).with(hir) == old(self).with(hir).pop(),
    {
        let ghost before = self.scopes@;
        let _ = self.scopes.pop();
        proof {
            if before.len() > 0 {
                assert(scopes_model(self.scopes@) =~= scopes_model(before).drop_last());
            } else {
                assert(scopes_model(self.scopes@) =~= scopes_model(before));
            }
        }
    }

    /// Introduces a local.
    pub fn bind(
        &mut self,
        hir: &mut ResolvedHir,
        module: ModuleId,
        name: &str,
        span: Option<SourceRange>,
        is_mutable: bool,
    )
        ensures
            final(self).with(final(hir)@) == old(self).with(old(hir)@).bind(
                module,
                name@,
                span,
                is_mutable,
            ),
    {
        let id = LocalId::new(hir.locals.len() as u32);
        let data = LocalData { id, name: name.to_string(), module, is_mutable };
        let ghost before = hir@;
        hir.locals.push(data);
        proof {
            assert(hir@.locals =~= before.locals.push(data.record()));
        }
        if let Some(span) = span {
            let _ = hir.binding_targets.insert(span, id);
        }
        let ghost scopes = self.scopes@;
        match self.scopes.pop() {
            Some(scope) => {
                let mut scope = scope;
                let ghost inner = scope@;
                let _ = scope.insert(name.to_string(), id);
                self.scopes.push(scope);
                proof {
                    assert(scopes_model(scopes).last() == inner);
                    assert(scopes_model(self.scopes@) =~= scopes_model(scopes).drop_last().push(
                        inner.insert(name@, id),
                    ));
                }
            },
            None => {
                proof {
                    assert(scopes_model(self.scopes@) =~= scopes_model(scopes));
                }
            },
        }
    }

    fn local(&self, name: &String) -> (r: Option<LocalId>)
        ensures
            r == local_named(scopes_model(self.scopes@), name@),
    {
        let ghost model = scopes_model(self.scopes@);
        let mut i: usize = self.scopes.len();
        proof {
            assert(model.take(i as int) =~= model);
        }
        while i > 0
            invariant
                i <= self.scopes.len(),
                model == scopes_model(self.scopes@),
                local_named(model.take(i as int), name@) == local_named(model, name@),
            decreases i,
        {
            proof {
                let head = model.take(i as int);
                assert(head.last() == self.scopes@[i - 1]@);
                assert(head.drop_last() =~= model.take(i - 1));
            }
            if let Some(local) = self.scopes[i - 1].get(name) {
                return Some(*local);
            }
            i -= 1;
        }
        None
    }

    fn path_expression(
        &mut self,
        hir: &mut ResolvedHir,
        scope: &ScopeRef,
        expression: &Expr,
        path: &Vec<String>,
    )
        ensures
            final(self).with(final(hir)@) == old(self).with(old(hir)@).path_expression(
                scope@,
                *expression,
                texts(path@),
            ),
    {
        if path.len() == 1 {
            proof {
                assert(texts(path@)[0] == path@[0]@);
            }
            if let Some(local) = self.local(&path[0]) {
                let _ = hir.expression_targets.insert(expression.id, ResolvedTarget::Local(local));
                return ;
            }
        }
        let target = resolve_global_value(hir, scope, Some(expression.span), path);
        let _ = hir.expression_targets.insert(expression.id, target);
    }

    fn macro_expression(
        &mut self,
        hir: &mut ResolvedHir,
        scope: &ScopeRef,
        expression: &Expr,
        name: &String,
    )
        ensures
            final(self).with(final(hir)@) == old(self).with(old(hir)@).macro_expression(
                scope@,
                *expression,
                name@,
            ),
    {
        let target = match scope.builtins.macros.get(name) {
            Some(builtin) => ResolvedTarget::Builtin(*builtin),
            None => {
                hir.unresolved(Some(expression.span), name.as_str());
                ResolvedTarget::Error
            },
        };
        let _ = hir.expression_targets.insert(expression.id, target);
    }

    fn struct_expression(
        &mut self,
        hir: &mut ResolvedHir,
        scope: &ScopeRef,
        expression: &Expr,
        path: &Vec<String>,
    )
        ensures
            final(self).with(final(hir)@) == old(self).with(old(hir)@).struct_expression(
                scope@,
                *expression,
                texts(path@),
            ),
    {
        let mut named = resolve_whole(hir, scope, Namespace::Type, path);
        if named.is_none() {
            named = resolve_whole(hir, scope, Namespace::Value, path);
        }
        let target = match named {
            Some(target) => check_access(hir, scope.module, target, Some(expression.span)),
            None => {
                report_unresolved_path(hir, scope, Some(expression.span), path);
                ResolvedTarget::Error
            },
        };
        let _ = hir.expression_targets.insert(expression.id, target);
    }

    pub fn block(&mut self, hir: &mut ResolvedHir, scope: &ScopeRef, block: &Block)
        ensures
            final(self).with(final(hir)@) == b_block(old(self).with(old(hir)@), scope@, *block),
        decreases *block, 0int,
    {
        self.push();
        self.statements(hir, scope, &block.stmts);
        if let Some(tail) = &block.tail {
            self.expression(hir, scope, tail);
        }
        self.pop();
    }

    fn statements(&mut self, hir: &mut ResolvedHir, scope: &ScopeRef, list: &Vec<Stmt>)
        ensures
            final(self).with(final(hir)@) == b_stmts(
                old(self).with(old(hir)@),
                scope@,
                list@,
                0,
            ),
        decreases *list, 0int,
    {
        let ghost start = self.with(hir@);
        let mut i: usize = 0;
        while i < list.len()
            invariant
                i <= list.len(),
                b_stmts(self.with(hir@), scope@, list@, i as int) == b_stmts(
                    start,
                    scope@,
                    list@,
                    0,
                ),
            decreases list.len() - i,
        {
            let ghost before = self.with(hir@);
            self.statement(hir, scope, &list[i]);
            proof {
                assert(b_stmts(before, scope@, list@, i as int) == b_stmts(
                    self.with(hir@),
                    scope@,
                    list@,
                    i + 1,
                ));
            }
            i += 1;
        }
    }

    fn statement(&mut self, hir: &mut ResolvedHir, scope: &ScopeRef, statement: &Stmt)
        ensures
            final(self).with(final(hir)@) == b_stmt(old(self).with(old(hir)@), scope@, *statement),
        decreases *statement, 0int,
    {
        match statement {
            Stmt::Lua { .. } => {},
            Stmt::Let { name, name_span, mutable, init, .. } => {
                self.expression(hir, scope, init);
                self.bind(hir, scope.module, name.as_str(), Some(*name_span), *mutable);
            },
            Stmt::Expr(expression) => {
                self.expression(hir, scope, expression);
            },
            Stmt::Return(value) => {
                if let Some(value) = value {
                    self.expression(hir, scope, value);
                }
            },
            Stmt::Break(value) => {
                if let Some(value) = value {
                    self.expression(hir, scope, value);
                }
            },
            Stmt::Continue => {},
            Stmt::While { cond, body } => {
                self.expression(hir, scope, cond);
                self.block(hir, scope, body);
            },
            Stmt::Loop { body } => {
                self.block(hir, scope, body);
            },
            Stmt::For { var, var_span, iter, body } => {
                self.expression(hir, scope, iter);
                self.push();
                self.bind(hir, scope.module, var.as_str(), Some(*var_span), false);
                self.block(hir, scope, body);
                self.pop();
            },
            Stmt::WhileLet { pat, expr, body } => {
                self.expression(hir, scope, expr);
                self.push();
                self.pattern(hir, scope, pat);
                self.block(hir, scope, body);
                self.pop();
            },
        }
    }

    fn expressions(&mut self, hir: &mut ResolvedHir, scope: &ScopeRef, list: &Vec<Expr>)
        ensures
            final(self).with(final(hir)@) == b_exprs(
                old(self).with(old(hir)@),
                scope@,
                list@,
                0,
            ),
        decreases *list, 0int,
    {
        let ghost start = self.with(hir@);
        let mut i: usize = 0;
        while i < list.len()
            invariant
                i <= list.len(),
                b_exprs(self.with(hir@), scope@, list@, i as int) == b_exprs(
                    start,
                    scope@,
                    list@,
                    0,
                ),
            decreases list.len() - i,
        {
            let ghost before = self.with(hir@);
            self.expression(hir, scope, &list[i]);
            proof {
                assert(b_exprs(before, scope@, list@, i as int) == b_exprs(
                    self.with(hir@),
                    scope@,
                    list@,
                    i + 1,
                ));
            }
            i += 1;
        }
    }

    fn field_values(&mut self, hir: &mut ResolvedHir, scope: &ScopeRef, list: &Vec<(String, Expr)>)
        ensures
            final(self).with(final(hir)@) == b_fields(
                old(self).with(old(hir)@),
                scope@,
                list@,
                0,
            ),
        decreases *list, 0int,
    {
        let ghost start = self.with(hir@);
        let mut i: usize = 0;
        while i < list.len()
            invariant
                i <= list.len(),
                b_fields(self.with(hir@), scope@, list@, i as int) == b_fields(
                    start,
                    scope@,
                    list@,
                    0,
                ),
            decreases list.len() - i,
        {
            let ghost before = self.with(hir@);
            self.expression(hir, scope, &list[i].1);
            proof {
                assert(b_fields(before, scope@, list@, i as int) == b_fields(
                    self.with(hir@),
                    scope@,
                    list@,
                    i + 1,
                ));
            }
            i += 1;
        }
    }

    fn pairs(&mut self, hir: &mut ResolvedHir, scope: &ScopeRef, list: &Vec<(Expr, Expr)>)
        ensures
            final(self).with(final(hir)@) == b_pairs(
                old(self).with(old(hir)@),
                scope@,
                list@,
                0,
            ),
        decreases *list, 0int,
    {
        let ghost start = self.with(hir@);
        let mut i: usize = 0;
        while i < list.len()
            invariant
                i <= list.len(),
                b_pairs(self.with(hir@), scope@, list@, i as int) == b_pairs(
                    start,
                    scope@,
                    list@,
                    0,
                ),
            decreases list.len() - i,
        {
            let ghost before = self.with(hir@);
            self.expression(hir, scope, &list[i].0);
            self.expression(hir, scope, &list[i].1);
            proof {
                assert(b_pairs(before, scope@, list@, i as int) == b_pairs(
                    self.with(hir@),
                    scope@,
                    list@,
                    i + 1,
                ));
            }
            i += 1;
        }
    }

    fn arms(&mut self, hir: &mut ResolvedHir, scope: &ScopeRef, list: &Vec<MatchArm>)
        ensures
            final(self).with(final(hir)@) == b_arms(
                old(self).with(old(hir)@),
                scope@,
                list@,
                0,
            ),
        decreases *list, 0int,
    {
        let ghost start = self.with(hir@);
        let mut i: usize = 0;
        while i < list.len()
            invariant
                i <= list.len(),
                b_arms(self.with(hir@), scope@, list@, i as int) == b_arms(
                    start,
                    scope@,
                    list@,
                    0,
                ),
            decreases list.len() - i,
        {
            let ghost before = self.with(hir@);
            self.arm(hir, scope, &list[i]);
            proof {
                assert(b_arms(before, scope@, list@, i as int) == b_arms(
                    self.with(hir@),
                    scope@,
                    list@,
                    i + 1,
                ));
            }
            i += 1;
        }
    }

    fn arm(&mut self, hir: &mut ResolvedHir, scope: &ScopeRef, arm: &MatchArm)
        ensures
            final(self).with(final(hir)@) == b_arm(old(self).with(old(hir)@), scope@, *arm),
        decreases *arm, 0int,
    {
        self.push();
        self.patterns(hir, scope, &arm.pats);
        if let Some(guard) = &arm.guard {
            self.expression(hir, scope, guard);
        }
        self.expression(hir, scope, &arm.body);
        self.pop();
    }

    fn else_branch(&mut self, hir: &mut ResolvedHir, scope: &ScopeRef, branch: &Option<Box<ElseBranch>>)
        ensures
            final(self).with(final(hir)@) == b_else(old(self).with(old(hir)@), scope@, *branch),
        decreases *branch, 0int,
    {
        match branch {
            Some(branch) => match &**branch {
                ElseBranch::Block(block) => {
                    self.block(hir, scope, block);
                },
                ElseBranch::If(expression) => {
                    self.expression(hir, scope, expression);
                },
            },
            None => {},
        }
    }

    fn closure_params(&mut self, hir: &mut ResolvedHir, scope: &ScopeRef, list: &Vec<ClosureParam>)
        ensures
            final(self).with(final(hir)@) == b_closure_params(
                old(self).with(old(hir)@),
                scope@,
                list@,
                0,
            ),
        decreases *list, 0int,
    {
        let ghost start = self.with(hir@);
        let mut i: usize = 0;
        while i < list.len()
            invariant
                i <= list.len(),
                b_closure_params(self.with(hir@), scope@, list@, i as int) == b_closure_params(
                    start,
                    scope@,
                    list@,
                    0,
                ),
            decreases list.len() - i,
        {
            let ghost before = self.with(hir@);
            self.bind(hir, scope.module, list[i].name.as_str(), Some(list[i].name_span), false);
            proof {
                assert(b_closure_params(before, scope@, list@, i as int) == b_closure_params(
                    self.with(hir@),
                    scope@,
                    list@,
                    i + 1,
                ));
            }
            i += 1;
        }
    }

    fn closure_body(&mut self, hir: &mut ResolvedHir, scope: &ScopeRef, inner: &ClosureBody)
        ensures
            final(self).with(final(hir)@) == b_closure_body(old(self).with(old(hir)@), scope@, *inner),
        decreases *inner, 0int,
    {
        match inner {
            ClosureBody::Expr(expression) => {
                self.expression(hir, scope, expression);
            },
            ClosureBody::Block(block) => {
                self.block(hir, scope, block);
            },
        }
    }

    pub fn expression(&mut self, hir: &mut ResolvedHir, scope: &ScopeRef, expression: &Expr)
        ensures
            final(self).with(final(hir)@) == b_expr(old(self).with(old(hir)@), scope@, *expression),
        decreases *expression, 0int,
    {
        match &expression.kind {
            ExprKind::Path(path) => {
                self.path_expression(hir, scope, expression, path);
            },
            ExprKind::StructLit { path, fields } => {
                self.struct_expression(hir, scope, expression, path);
                self.field_values(hir, scope, fields);
            },
            ExprKind::Assign { target, value, .. } => {
                self.expression(hir, scope, target);
                check_assignment(hir, target);
                self.expression(hir, scope, value);
            },
            ExprKind::Closure { params, body: inner, .. } => {
                self.push();
                self.closure_params(hir, scope, params);
                self.closure_body(hir, scope, inner);
                self.pop();
            },
            ExprKind::Unary { expr, .. } => {
                self.expression(hir, scope, expr);
            },
            ExprKind::Try { expr } => {
                self.expression(hir, scope, expr);
            },
            ExprKind::Binary { lhs, rhs, .. } => {
                self.expression(hir, scope, lhs);
                self.expression(hir, scope, rhs);
            },
            ExprKind::Call { callee, args } => {
                self.expression(hir, scope, callee);
                self.expressions(hir, scope, args);
            },
            ExprKind::MethodCall { recv, args, .. } => {
                self.expression(hir, scope, recv);
                self.expressions(hir, scope, args);
            },
            ExprKind::Field { base, .. } => {
                self.expression(hir, scope, base);
            },
            ExprKind::MapLit(entries) => {
                self.pairs(hir, scope, entries);
            },
            ExprKind::Match { scrut, arms } => {
                self.expression(hir, scope, scrut);
                self.arms(hir, scope, arms);
            },
            ExprKind::Range { start, end, .. } => {
                self.expression(hir, scope, start);
                self.expression(hir, scope, end);
            },
            ExprKind::Index { base, index } => {
                self.expression(hir, scope, base);
                self.expression(hir, scope, index);
            },
            ExprKind::VecLit(elements) => {
                self.expressions(hir, scope, elements);
            },
            ExprKind::MacroCall { name, args } => {
                self.macro_expression(hir, scope, expression, name);
                self.expressions(hir, scope, args);
            },
            ExprKind::If { cond, then_block, else_block } => {
                self.expression(hir, scope, cond);
                self.block(hir, scope, then_block);
                self.else_branch(hir, scope, else_block);
            },
            ExprKind::IfLet { pat, expr, then_block, else_block } => {
                self.expression(hir, scope, expr);
                self.push();
                self.pattern(hir, scope, pat);
                self.block(hir, scope, then_block);
                self.pop();
                self.else_branch(hir, scope, else_block);
            },
            ExprKind::Block(block) => {
                self.block(hir, scope, block);
            },
            ExprKind::Loop(block) => {
                self.block(hir, scope, block);
            },
            _ => {},
        }
    }

    fn patterns(&mut self, hir: &mut ResolvedHir, scope: &ScopeRef, list: &Vec<Pattern>)
        ensures
            final(self).with(final(hir)@) == b_patterns(
                old(self).with(old(hir)@),
                scope@,
                list@,
                0,
            ),
        decreases *list, 0int,
    {
        let ghost start = self.with(hir@);
        let mut i: usize = 0;
        while i < list.len()
            invariant
                i <= list.len(),
                b_patterns(self.with(hir@), scope@, list@, i as int) == b_patterns(
                    start,
                    scope@,
                    list@,
                    0,
                ),
            decreases list.len() - i,
        {
            let ghost before = self.with(hir@);
            self.pattern(hir, scope, &list[i]);
            proof {
                assert(b_patterns(before, scope@, list@, i as int) == b_patterns(
                    self.with(hir@),
                    scope@,
                    list@,
                    i + 1,
                ));
            }
            i += 1;
        }
    }

    fn field_patterns(&mut self, hir: &mut ResolvedHir, scope: &ScopeRef, list: &Vec<(String, Pattern)>)
        ensures
            final(self).with(final(hir)@) == b_field_patterns(
                old(self).with(old(hir)@),
                scope@,
                list@,
                0,
            ),
        decreases *list, 0int,
    {
        let ghost start = self.with(hir@);
        let mut i: usize = 0;
        while i < list.len()
            invariant
                i <= list.len(),
                b_field_patterns(self.with(hir@), scope@, list@, i as int) == b_field_patterns(
                    start,
                    scope@,
                    list@,
                    0,
                ),
            decreases list.len() - i,
        {
            let ghost before = self.with(hir@);
            self.pattern(hir, scope, &list[i].1);
            proof {
                assert(b_field_patterns(before, scope@, list@, i as int) == b_field_patterns(
                    self.with(hir@),
                    scope@,
                    list@,
                    i + 1,
                ));
            }
            i += 1;
        }
    }

    fn pattern(&mut self, hir: &mut ResolvedHir, scope: &ScopeRef, pattern: &Pattern)
        ensures
            final(self).with(final(hir)@) == b_pattern(old(self).with(old(hir)@), scope@, *pattern),
        decreases *pattern, 0int,
    {
        match pattern {
            Pattern::Wildcard => {},
            Pattern::Binding(name, source) => {
                self.bind(hir, scope.module, name.as_str(), Some(*source), false);
            },
            Pattern::Literal(expression) => {
                self.expression(hir, scope, expression);
            },
            Pattern::Range { lo, hi, .. } => {
                self.expression(hir, scope, lo);
                self.expression(hir, scope, hi);
            },
            Pattern::Path { id, path } => {
                resolve_pattern_path(hir, scope, *id, path);
            },
            Pattern::TupleVariant { id, path, elems } => {
                resolve_pattern_path(hir, scope, *id, path);
                self.patterns(hir, scope, elems);
            },
            Pattern::StructVariant { id, path, fields, .. } => {
                resolve_pattern_path(hir, scope, *id, path);
                self.field_patterns(hir, scope, fields);
            },
        }
    }
}

} // verus!
