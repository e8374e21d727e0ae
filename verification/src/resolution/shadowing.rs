//! Which local a name means: the one that was declared last, innermost first.

use vstd::prelude::*;

use super::bodies::{
    b_block, b_closure_body, b_closure_params, b_else, b_expr, b_pattern, b_stmt, b_stmts,
    local_named, root_local, Body,
};
use super::keeping::{
    extends, keeps_b_block, keeps_b_expr, keeps_b_params, keeps_b_stmt, keeps_b_stmts,
    lemma_only_let_declares,
};
use super::model::HirModel;
use super::program::{b_function, b_params};
use super::types::Scope;
use crate::ast::{Block, ClosureBody, ClosureParam, Expr, ExprKind, Param, Pattern, Stmt};
use crate::diag::DiagnosticCode;
use crate::hir::{LocalId, ModuleId, ResolvedTarget};
use crate::text::texts;
use crate::token::SourceRange;

verus! {

/// Whether an expression is a path of this one segment.
pub open spec fn is_name(expression: Expr, name: Seq<char>) -> bool {
    expression.kind matches ExprKind::Path(path) && texts(path@) == seq![name]
}

/// Whether a statement is a `let` of this name.
pub open spec fn is_let_of(statement: Stmt, name: Seq<char>) -> bool {
    statement matches Stmt::Let { name: declared, .. } && declared@ == name
}

/// Whether none of the statements is a `let` of this name.
pub open spec fn no_let_of(list: Seq<Stmt>, name: Seq<char>) -> bool {
    forall|k: int| 0 <= k < list.len() ==> !is_let_of(#[trigger] list[k], name)
}

/// Whether an expression means the local at a place, which was declared with this name.
pub open spec fn means_local(
    hir: HirModel,
    expression: Expr,
    place: nat,
    name: Seq<char>,
    is_mutable: bool,
) -> bool {
    &&& hir.expression_targets.dom().contains(expression.id)
    &&& hir.expression_targets[expression.id] == ResolvedTarget::Local(LocalId(place as u32))
    &&& place < hir.locals.len()
    &&& hir.locals[place as int].name == name
    &&& hir.locals[place as int].is_mutable == is_mutable
}

/// A name means the local that the last scope with that name binds it to, whatever
/// the scopes before it bind; and it means none exactly where no scope has it.
pub proof fn law_innermost_scope_wins(scopes: Seq<Map<Seq<char>, LocalId>>, name: Seq<char>)
    ensures
        forall|k: int|
            0 <= k < scopes.len() && (#[trigger] scopes[k]).dom().contains(name) && (forall|j: int|
                k < j < scopes.len() ==> !(#[trigger] scopes[j]).dom().contains(name))
                ==> local_named(scopes, name) == Some(scopes[k][name]),
        local_named(scopes, name) is None <==> forall|k: int|
            0 <= k < scopes.len() ==> !(#[trigger] scopes[k]).dom().contains(name),
        scopes.len() > 0 && scopes.last().dom().contains(name) ==> local_named(scopes, name)
            == Some(scopes.last()[name]),
    decreases scopes.len(),
{
    if scopes.len() > 0 {
        let front = scopes.drop_last();
        law_innermost_scope_wins(front, name);
        assert(forall|k: int| 0 <= k < front.len() ==> front[k] == #[trigger] scopes[k]);
        assert(scopes.last() == scopes[scopes.len() - 1]);
        if !scopes.last().dom().contains(name) {
            assert(local_named(scopes, name) == local_named(front, name));
            assert forall|k: int|
                0 <= k < scopes.len() && (#[trigger] scopes[k]).dom().contains(name) && (forall|
                    j: int,
                | k < j < scopes.len() ==> !(#[trigger] scopes[j]).dom().contains(name)) implies
                local_named(scopes, name) == Some(scopes[k][name]) by {
                assert(front[k].dom().contains(name));
                assert forall|j: int| k < j < front.len() implies !(
                #[trigger] front[j]).dom().contains(name) by {
                    assert(scopes[j] == front[j]);
                }
            }
            if local_named(scopes, name) is None {
                assert forall|k: int| 0 <= k < scopes.len() implies !(
                #[trigger] scopes[k]).dom().contains(name) by {
                    if k < front.len() {
                        assert(front[k] == scopes[k]);
                    }
                }
            }
            if forall|k: int|
                0 <= k < scopes.len() ==> !(#[trigger] scopes[k]).dom().contains(name) {
                assert forall|k: int| 0 <= k < front.len() implies !(
                #[trigger] front[k]).dom().contains(name) by {
                    assert(scopes[k] == front[k]);
                }
            }
        }
    }
}

/// A fresh scope hides nothing.
pub proof fn law_a_fresh_scope_hides_nothing(body: Body, name: Seq<char>)
    ensures
        local_named(body.push().scopes, name) == local_named(body.scopes, name),
{
    assert(body.push().scopes.drop_last() =~= body.scopes);
}

/// A declaration hides what its name meant, and nothing else: its name means the
/// new local, every other name what it meant.
pub proof fn law_a_declaration_hides_its_name_only(
    body: Body,
    module: ModuleId,
    name: Seq<char>,
    span: Option<SourceRange>,
    is_mutable: bool,
    other: Seq<char>,
)
    requires
        body.scopes.len() > 0,
    ensures
        ({
            let after = body.bind(module, name, span, is_mutable);
            &&& after.hir.locals.len() == body.hir.locals.len() + 1
            &&& extends(body.hir.locals, after.hir.locals)
            &&& after.hir.locals.last().name == name
            &&& after.hir.locals.last().is_mutable == is_mutable
            &&& after.hir.diagnostics == body.hir.diagnostics
            &&& local_named(after.scopes, name) == Some(LocalId(body.hir.locals.len() as u32))
            &&& other != name ==> local_named(after.scopes, other) == local_named(
                body.scopes,
                other,
            )
        }),
{
    let after = body.bind(module, name, span, is_mutable);
    assert(after.scopes.drop_last() =~= body.scopes.drop_last());
}

proof fn lemma_stmts_end(body: Body, scope: Scope, front: Seq<Stmt>, last: Stmt, from: int)
    requires
        0 <= from <= front.len(),
    ensures
        b_stmts(body, scope, front.push(last), from) == b_stmt(
            b_stmts(body, scope, front, from),
            scope,
            last,
        ),
    decreases front.len() - from,
{
    let list = front.push(last);
    if from < front.len() {
        assert(list[from] == front[from]);
        lemma_stmts_end(b_stmt(body, scope, front[from]), scope, front, last, from + 1);
    } else {
        assert(list[from] == last);
        assert(b_stmts(b_stmt(body, scope, last), scope, list, from + 1) == b_stmt(
            body,
            scope,
            last,
        ));
    }
}

/// A statement that is no `let` of a name leaves what the name means.
proof fn lemma_other_statement(body: Body, scope: Scope, statement: Stmt, name: Seq<char>)
    requires
        body.scopes.len() > 0,
        !is_let_of(statement, name),
    ensures
        b_stmt(body, scope, statement).scopes.len() == body.scopes.len(),
        local_named(b_stmt(body, scope, statement).scopes, name) == local_named(body.scopes, name),
{
    keeps_b_stmt(body, scope, statement);
    match statement {
        Stmt::Let { name: declared, name_span, mutable, init, .. } => {
            keeps_b_expr(body, scope, init);
            law_a_declaration_hides_its_name_only(
                b_expr(body, scope, init),
                scope.module,
                declared@,
                Some(name_span),
                mutable,
                name,
            );
        },
        _ => {
            lemma_only_let_declares(body, scope, statement);
        },
    }
}

/// What a name means behind statements that hold no `let` of it is what it meant
/// before them, whatever the blocks inside them declare.
pub proof fn law_other_statements_keep_a_name(
    body: Body,
    scope: Scope,
    list: Seq<Stmt>,
    name: Seq<char>,
)
    requires
        body.scopes.len() > 0,
        no_let_of(list, name),
    ensures
        b_stmts(body, scope, list, 0).scopes.len() == body.scopes.len(),
        local_named(b_stmts(body, scope, list, 0).scopes, name) == local_named(body.scopes, name),
    decreases list.len(),
{
    if list.len() > 0 {
        let front = list.drop_last();
        assert forall|k: int| 0 <= k < front.len() implies !is_let_of(#[trigger] front[k], name) by {
            assert(list[k] == front[k]);
        }
        law_other_statements_keep_a_name(body, scope, front, name);
        assert(front.push(list.last()) =~= list);
        lemma_stmts_end(body, scope, front, list.last(), 0);
        assert(!is_let_of(list[list.len() - 1], name));
        lemma_other_statement(b_stmts(body, scope, front, 0), scope, list.last(), name);
    }
}

/// Behind `let x` and statements without another `let` of that name, `x` means the
/// local of that `let`, whatever it meant before: a path of that one segment has
/// the local as its target, is not reported, and an assignment to it is reported,
/// once and by its name, exactly where the `let` has no `mut`.
pub proof fn law_a_name_means_the_last_let(
    body: Body,
    scope: Scope,
    before: Seq<Stmt>,
    declaration: Stmt,
    between: Seq<Stmt>,
    expression: Expr,
    name: Seq<char>,
)
    requires
        body.scopes.len() > 0,
        declaration is Let,
        is_let_of(declaration, name),
        no_let_of(between, name),
        is_name(expression, name),
        b_expr(b_stmts(body, scope, before, 0), scope, declaration->init).hir.locals.len()
            <= u32::MAX,
    ensures
        ({
            let place = b_expr(
                b_stmts(body, scope, before, 0),
                scope,
                declaration->init,
            ).hir.locals.len();
            let here = b_stmts(body, scope, before + seq![declaration] + between, 0);
            let after = b_expr(here, scope, expression);
            let assigned = after.check_assignment(expression);
            &&& means_local(after.hir, expression, place, name, declaration->mutable)
            &&& after.hir.locals == here.hir.locals
            &&& after.hir.diagnostics == here.hir.diagnostics
            &&& declaration->mutable ==> assigned == after
            &&& !declaration->mutable ==> {
                &&& assigned.hir.diagnostics.len() == here.hir.diagnostics.len() + 1
                &&& extends(here.hir.diagnostics, assigned.hir.diagnostics)
                &&& assigned.hir.diagnostics.last().code
                    == DiagnosticCode::TypeImmutableAssignment
                &&& assigned.hir.diagnostics.last().arguments.contains(("name"@, name))
            }
        }),
{
    let first = b_stmts(body, scope, before, 0);
    let second = b_stmt(first, scope, declaration);
    let here = b_stmts(body, scope, before + seq![declaration] + between, 0);
    keeps_b_stmts(body, scope, before, 0);
    match declaration {
        Stmt::Let { name: declared, name_span, mutable, init, .. } => {
            keeps_b_expr(first, scope, init);
            law_a_declaration_hides_its_name_only(
                b_expr(first, scope, init),
                scope.module,
                declared@,
                Some(name_span),
                mutable,
                name,
            );
        },
        _ => {},
    }
    lemma_stmts_append(body, scope, before, seq![declaration] + between);
    assert(before + (seq![declaration] + between) =~= before + seq![declaration] + between);
    lemma_stmts_append(first, scope, seq![declaration], between);
    assert(b_stmts(first, scope, seq![declaration], 0) == second) by {
        reveal_with_fuel(b_stmts, 2);
    }
    keeps_b_stmt(first, scope, declaration);
    law_other_statements_keep_a_name(second, scope, between, name);
    keeps_b_stmts(second, scope, between, 0);
    lemma_name_of_local(here, scope, expression, name);
    let after = b_expr(here, scope, expression);
    let place = b_expr(first, scope, declaration->init).hir.locals.len();
    assert(after.hir.locals[place as int] == second.hir.locals[place as int]);
    assert(means_local(after.hir, expression, place, name, declaration->mutable));
    let assigned = after.check_assignment(expression);
    assert(root_local(after.hir, expression) == Some(LocalId(place as u32)));
    if !declaration->mutable {
        assert(assigned.hir.diagnostics.len() == here.hir.diagnostics.len() + 1);
        assert(assigned.hir.diagnostics.last().arguments[0] == ("name"@, name));
    }
}

proof fn lemma_stmts_append(body: Body, scope: Scope, first: Seq<Stmt>, second: Seq<Stmt>)
    ensures
        b_stmts(body, scope, first + second, 0) == b_stmts(
            b_stmts(body, scope, first, 0),
            scope,
            second,
            0,
        ),
    decreases second.len(),
{
    if second.len() == 0 {
        assert(first + second =~= first);
    } else {
        let front = second.drop_last();
        lemma_stmts_append(body, scope, first, front);
        assert((first + front).push(second.last()) =~= first + second);
        lemma_stmts_end(body, scope, first + front, second.last(), 0);
        assert(front.push(second.last()) =~= second);
        lemma_stmts_end(b_stmts(body, scope, first, 0), scope, front, second.last(), 0);
    }
}

/// The target of a name that means a local.
proof fn lemma_name_of_local(body: Body, scope: Scope, expression: Expr, name: Seq<char>)
    requires
        is_name(expression, name),
        local_named(body.scopes, name) is Some,
    ensures
        ({
            let after = b_expr(body, scope, expression);
            let local = local_named(body.scopes, name)->0;
            &&& after.scopes == body.scopes
            &&& after.hir.locals == body.hir.locals
            &&& after.hir.diagnostics == body.hir.diagnostics
            &&& after.hir.expression_targets == body.hir.expression_targets.insert(
                expression.id,
                ResolvedTarget::Local(local),
            )
        }),
{
}

/// The value of a block that is a name: the local of the last `let` of that name in
/// the block.
pub proof fn law_the_tail_of_a_block_sees_its_lets(
    body: Body,
    scope: Scope,
    block: Block,
    at: int,
    name: Seq<char>,
)
    requires
        0 <= at < block.stmts@.len(),
        block.stmts@[at] is Let,
        is_let_of(block.stmts@[at], name),
        no_let_of(block.stmts@.skip(at + 1), name),
        block.tail is Some,
        is_name(*block.tail->0, name),
        b_expr(
            b_stmts(body.push(), scope, block.stmts@.take(at), 0),
            scope,
            block.stmts@[at]->init,
        ).hir.locals.len() <= u32::MAX,
    ensures
        means_local(
            b_block(body, scope, block).hir,
            *block.tail->0,
            b_expr(
                b_stmts(body.push(), scope, block.stmts@.take(at), 0),
                scope,
                block.stmts@[at]->init,
            ).hir.locals.len(),
            name,
            block.stmts@[at]->mutable,
        ),
{
    let list = block.stmts@;
    law_a_name_means_the_last_let(
        body.push(),
        scope,
        list.take(at),
        list[at],
        list.skip(at + 1),
        *block.tail->0,
        name,
    );
    assert(list.take(at) + seq![list[at]] + list.skip(at + 1) =~= list);
}

/// The value of a block that is a name which the block does not declare: what the
/// name means around the block.
pub proof fn law_the_tail_of_a_block_sees_what_is_around_it(
    body: Body,
    scope: Scope,
    block: Block,
    name: Seq<char>,
)
    requires
        no_let_of(block.stmts@, name),
        block.tail is Some,
        is_name(*block.tail->0, name),
        local_named(body.scopes, name) is Some,
    ensures
        ({
            let after = b_block(body, scope, block).hir;
            &&& after.expression_targets.dom().contains(block.tail->0.id)
            &&& after.expression_targets[block.tail->0.id] == ResolvedTarget::Local(
                local_named(body.scopes, name)->0,
            )
            &&& extends(body.hir.locals, after.locals)
        }),
{
    law_a_fresh_scope_hides_nothing(body, name);
    law_other_statements_keep_a_name(body.push(), scope, block.stmts@, name);
    let inside = b_stmts(body.push(), scope, block.stmts@, 0);
    lemma_name_of_local(inside, scope, *block.tail->0, name);
    keeps_b_block(body, scope, block);
}

/// Whether none of the parameters has this name.
pub open spec fn no_param_of(list: Seq<Param>, name: Seq<char>) -> bool {
    forall|k: int| 0 <= k < list.len() ==> (#[trigger] list[k]).name@ != name
}

proof fn lemma_params(
    body: Body,
    module: ModuleId,
    list: Seq<Param>,
    from: int,
    at: int,
    name: Seq<char>,
)
    requires
        0 <= from <= at < list.len(),
        list[at].name@ == name,
        forall|k: int| at < k < list.len() ==> (#[trigger] list[k]).name@ != name,
        body.scopes.len() > 0,
    ensures
        ({
            let after = b_params(body, module, list, from);
            let place = body.hir.locals.len() + (at - from);
            &&& after.scopes.len() == body.scopes.len()
            &&& local_named(after.scopes, name) == Some(LocalId(place as u32))
            &&& place < after.hir.locals.len()
            &&& after.hir.locals[place as int].name == name
            &&& !after.hir.locals[place as int].is_mutable
        }),
    decreases list.len() - from,
{
    let next = body.bind(module, list[from].name@, Some(list[from].name_span), false);
    law_a_declaration_hides_its_name_only(
        body,
        module,
        list[from].name@,
        Some(list[from].name_span),
        false,
        name,
    );
    keeps_b_params(next, module, list, from + 1);
    if from < at {
        lemma_params(next, module, list, from + 1, at, name);
    } else {
        lemma_params_keep(next, module, list, from + 1, name);
    }
}

proof fn lemma_params_keep(
    body: Body,
    module: ModuleId,
    list: Seq<Param>,
    from: int,
    name: Seq<char>,
)
    requires
        0 <= from <= list.len(),
        forall|k: int| from <= k < list.len() ==> (#[trigger] list[k]).name@ != name,
        body.scopes.len() > 0,
    ensures
        b_params(body, module, list, from).scopes.len() == body.scopes.len(),
        local_named(b_params(body, module, list, from).scopes, name) == local_named(
            body.scopes,
            name,
        ),
    decreases list.len() - from,
{
    if from < list.len() {
        law_a_declaration_hides_its_name_only(
            body,
            module,
            list[from].name@,
            Some(list[from].name_span),
            false,
            name,
        );
        lemma_params_keep(
            body.bind(module, list[from].name@, Some(list[from].name_span), false),
            module,
            list,
            from + 1,
            name,
        );
    }
}

/// The value of a function that is the name of a parameter, which its block does not
/// declare anew: the local of that parameter, which never changes.
pub proof fn law_a_function_sees_its_parameters(
    hir: HirModel,
    scope: Scope,
    has_self: bool,
    receiver_mutable: bool,
    params: Seq<Param>,
    block: Block,
    at: int,
    name: Seq<char>,
)
    requires
        0 <= at < params.len(),
        params[at].name@ == name,
        no_param_of(params.skip(at + 1), name),
        no_let_of(block.stmts@, name),
        block.tail is Some,
        is_name(*block.tail->0, name),
    ensures
        means_local(
            b_function(hir, scope, has_self, receiver_mutable, params, block),
            *block.tail->0,
            hir.locals.len() + (if has_self {
                1nat
            } else {
                0nat
            }) + at as nat,
            name,
            false,
        ),
{
    let start = Body { hir, scopes: Seq::empty() }.push();
    let start = if has_self {
        start.bind(scope.module, "self"@, None, receiver_mutable)
    } else {
        start
    };
    assert forall|k: int| at < k < params.len() implies (#[trigger] params[k]).name@ != name by {
        assert(params.skip(at + 1)[k - at - 1] == params[k]);
    }
    lemma_params(start, scope.module, params, 0, at, name);
    law_the_tail_of_a_block_sees_what_is_around_it(
        b_params(start, scope.module, params, 0),
        scope,
        block,
        name,
    );
}

/// The body of a `for` sees its variable, which never changes; behind the loop the
/// names mean what they meant before it.
pub proof fn law_a_loop_sees_its_variable(
    body: Body,
    scope: Scope,
    statement: Stmt,
    name: Seq<char>,
)
    requires
        statement matches Stmt::For { var, body: inner, .. } && var@ == name && no_let_of(
            inner.stmts@,
            name,
        ) && inner.tail is Some && is_name(*inner.tail->0, name),
    ensures
        statement matches Stmt::For { iter, body: inner, .. } ==> means_local(
            b_stmt(body, scope, statement).hir,
            *inner.tail->0,
            b_expr(body, scope, iter).hir.locals.len(),
            name,
            false,
        ),
        b_stmt(body, scope, statement).scopes == body.scopes,
{
    match statement {
        Stmt::For { var, var_span, iter, body: inner } => {
            let start = b_expr(body, scope, iter);
            keeps_b_expr(body, scope, iter);
            law_a_declaration_hides_its_name_only(
                start.push(),
                scope.module,
                name,
                Some(var_span),
                false,
                name,
            );
            let bound = start.push().bind(scope.module, name, Some(var_span), false);
            law_the_tail_of_a_block_sees_what_is_around_it(bound, scope, inner, name);
            keeps_b_block(bound, scope, inner);
            assert(bound.scopes.drop_last() =~= body.scopes);
        },
        _ => {},
    }
}

/// The block of an `if let` whose pattern is a name sees that name as the pattern's
/// local, which never changes.
pub proof fn law_a_binding_pattern_is_seen_in_its_block(
    body: Body,
    scope: Scope,
    expression: Expr,
    name: Seq<char>,
)
    requires
        expression.kind matches ExprKind::IfLet { pat, then_block, else_block, .. }
            && (*pat matches Pattern::Binding(bound, _) && bound@ == name) && no_let_of(
            then_block.stmts@,
            name,
        ) && then_block.tail is Some && is_name(*then_block.tail->0, name) && else_block is None,
    ensures
        expression.kind matches ExprKind::IfLet { expr, then_block, .. } ==> means_local(
            b_expr(body, scope, expression).hir,
            *then_block.tail->0,
            b_expr(body, scope, *expr).hir.locals.len(),
            name,
            false,
        ),
{
    match expression.kind {
        ExprKind::IfLet { pat, expr, then_block, else_block } => {
            let start = b_expr(body, scope, *expr);
            match *pat {
                Pattern::Binding(bound, source) => {
                    law_a_declaration_hides_its_name_only(
                        start.push(),
                        scope.module,
                        name,
                        Some(source),
                        false,
                        name,
                    );
                    let inside = start.push().bind(scope.module, name, Some(source), false);
                    law_the_tail_of_a_block_sees_what_is_around_it(inside, scope, then_block, name);
                    assert(b_pattern(start.push(), scope, *pat) == inside);
                    let seen = b_block(inside, scope, then_block).pop();
                    assert(b_else(seen, scope, else_block) == seen);
                },
                _ => {},
            }
        },
        _ => {},
    }
}

proof fn lemma_closure_params_keep(
    body: Body,
    scope: Scope,
    list: Seq<ClosureParam>,
    from: int,
    name: Seq<char>,
)
    requires
        0 <= from <= list.len(),
        forall|k: int| from <= k < list.len() ==> (#[trigger] list[k]).name@ != name,
        body.scopes.len() > 0,
    ensures
        b_closure_params(body, scope, list, from).scopes.len() == body.scopes.len(),
        local_named(b_closure_params(body, scope, list, from).scopes, name) == local_named(
            body.scopes,
            name,
        ),
        extends(body.hir.locals, b_closure_params(body, scope, list, from).hir.locals),
    decreases list.len() - from,
{
    if from < list.len() {
        law_a_declaration_hides_its_name_only(
            body,
            scope.module,
            list[from].name@,
            Some(list[from].name_span),
            false,
            name,
        );
        lemma_closure_params_keep(
            body.bind(scope.module, list[from].name@, Some(list[from].name_span), false),
            scope,
            list,
            from + 1,
            name,
        );
    }
}

proof fn lemma_closure_params(
    body: Body,
    scope: Scope,
    list: Seq<ClosureParam>,
    from: int,
    at: int,
    name: Seq<char>,
)
    requires
        0 <= from <= at < list.len(),
        list[at].name@ == name,
        forall|k: int| at < k < list.len() ==> (#[trigger] list[k]).name@ != name,
        body.scopes.len() > 0,
    ensures
        ({
            let after = b_closure_params(body, scope, list, from);
            let place = body.hir.locals.len() + (at - from);
            &&& local_named(after.scopes, name) == Some(LocalId(place as u32))
            &&& place < after.hir.locals.len()
            &&& after.hir.locals[place as int].name == name
            &&& !after.hir.locals[place as int].is_mutable
        }),
    decreases list.len() - from,
{
    let next = body.bind(scope.module, list[from].name@, Some(list[from].name_span), false);
    law_a_declaration_hides_its_name_only(
        body,
        scope.module,
        list[from].name@,
        Some(list[from].name_span),
        false,
        name,
    );
    if from < at {
        lemma_closure_params(next, scope, list, from + 1, at, name);
    } else {
        lemma_closure_params_keep(next, scope, list, from + 1, name);
    }
}

/// A closure whose value is the name of a parameter: the local of the last parameter
/// of that name, which never changes.
pub proof fn law_a_closure_sees_its_parameters(
    body: Body,
    scope: Scope,
    expression: Expr,
    at: int,
    name: Seq<char>,
)
    requires
        expression.kind matches ExprKind::Closure { params, body: inner, .. } && 0 <= at
            < params@.len() && params@[at].name@ == name && (forall|k: int|
            at < k < params@.len() ==> (#[trigger] params@[k]).name@ != name) && (inner matches
            ClosureBody::Expr(value) && is_name(*value, name)),
    ensures
        expression.kind matches ExprKind::Closure { body: inner, .. } ==> (inner matches
            ClosureBody::Expr(value) ==> means_local(
            b_expr(body, scope, expression).hir,
            *value,
            body.hir.locals.len() + at as nat,
            name,
            false,
        )),
{
    match expression.kind {
        ExprKind::Closure { params, body: inner, .. } => {
            match inner {
                ClosureBody::Expr(value) => {
                    lemma_closure_params(body.push(), scope, params@, 0, at, name);
                    let inside = b_closure_params(body.push(), scope, params@, 0);
                    lemma_name_of_local(inside, scope, *value, name);
                    assert(b_closure_body(inside, scope, inner) == b_expr(inside, scope, *value));
                },
                _ => {},
            }
        },
        _ => {},
    }
}

} // verus!
