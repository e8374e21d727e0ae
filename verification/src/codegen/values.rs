//! The value that the Lua of a conditional delivers.

use vstd::prelude::*;

use super::lower::{
    g_block_to, g_else, g_expr_to, g_expr_to_inner, g_inline, g_stmts, is_control, plan_of,
};
use super::meaning::{
    added, behind_else, holds, law_a_conditional_runs_one_of_its_blocks,
    current, law_a_conditional_is_one_if_statement, law_statements_run_in_order, run, stays,
    LuaValue, Outcome,
};
use super::state::{replacement, Cg, DestModel, EnvModel};
use crate::ast::{Block, ElseBranch, Expr, ExprKind};
use crate::hir::{LocalId, ResolvedTarget};
use crate::lua_ir::{EntryModel, ExprModel, StatementModel};

verus! {

/// Whether names mean the same in two states.
pub open spec fn alike(a: Cg, b: Cg) -> bool {
    &&& a.current == b.current
    &&& forall|local: LocalId|
        #[trigger] replacement(b.scopes, local) == replacement(a.scopes, local)
    &&& forall|target: ResolvedTarget|
        #[trigger] b.layout.target(target) == a.layout.target(target)
}

/// Whether an expression has a value that its Lua expression has too, wherever names
/// mean what they mean in a state; and whether it needs no statements for it.
pub open spec fn denotes(
    env: EnvModel,
    st: Cg,
    eval: spec_fn(ExprModel, Map<ExprModel, LuaValue>) -> LuaValue,
    value: spec_fn(Expr) -> LuaValue,
    e: Expr,
) -> bool {
    &&& forall|s: Cg|
        alike(st, s) ==> {
            let after = (#[trigger] g_inline(env, s, e)).0;
            after.lua == s.lua && after.scopes == s.scopes && alike(st, after)
        }
    &&& forall|s: Cg, store: Map<ExprModel, LuaValue>|
        alike(st, s) ==> #[trigger] eval(g_inline(env, s, e).1, store) == value(e)
}

/// The value of an expression: of a conditional that of the block its condition
/// selects, of a block that of its last expression, of any other expression the one
/// that `value` gives it.
pub open spec fn value_of(value: spec_fn(Expr) -> LuaValue, e: Expr) -> LuaValue
    decreases e, 0int,
{
    match e.kind {
        ExprKind::If { cond, then_block, else_block } => if holds(value(*cond)) {
            value_of_block(value, then_block)
        } else {
            value_of_else(value, else_block)
        },
        ExprKind::Block(block) => value_of_block(value, block),
        _ => value(e),
    }
}

/// The value of a block.
pub open spec fn value_of_block(value: spec_fn(Expr) -> LuaValue, block: Block) -> LuaValue
    decreases block, 0int,
{
    match block.tail {
        Some(tail) => value_of(value, *tail),
        None => LuaValue::Nil,
    }
}

/// The value of an `else`.
pub open spec fn value_of_else(
    value: spec_fn(Expr) -> LuaValue,
    branch: Option<Box<ElseBranch>>,
) -> LuaValue
    decreases branch, 0int,
{
    match branch {
        Some(branch) => match *branch {
            ElseBranch::Block(block) => value_of_block(value, block),
            ElseBranch::If(inner) => value_of(value, inner),
        },
        None => LuaValue::Nil,
    }
}

/// Whether an expression is made of conditionals with an `else`, of blocks that hold
/// one expression, and of other expressions with a value.
pub open spec fn is_choice(
    env: EnvModel,
    st: Cg,
    eval: spec_fn(ExprModel, Map<ExprModel, LuaValue>) -> LuaValue,
    value: spec_fn(Expr) -> LuaValue,
    e: Expr,
) -> bool
    decreases e, 0int,
{
    &&& plan_of(env, e) is None
    &&& match e.kind {
        ExprKind::If { cond, then_block, else_block } => {
            &&& denotes(env, st, eval, value, *cond)
            &&& is_choice_block(env, st, eval, value, then_block)
            &&& is_choice_else(env, st, eval, value, else_block)
        },
        ExprKind::Block(block) => is_choice_block(env, st, eval, value, block),
        _ => !is_control(e) && denotes(env, st, eval, value, e),
    }
}

/// Whether a block holds one such expression.
pub open spec fn is_choice_block(
    env: EnvModel,
    st: Cg,
    eval: spec_fn(ExprModel, Map<ExprModel, LuaValue>) -> LuaValue,
    value: spec_fn(Expr) -> LuaValue,
    block: Block,
) -> bool
    decreases block, 0int,
{
    block.stmts@.len() == 0 && match block.tail {
        Some(tail) => is_choice(env, st, eval, value, *tail),
        None => false,
    }
}

/// Whether an `else` holds one such expression.
pub open spec fn is_choice_else(
    env: EnvModel,
    st: Cg,
    eval: spec_fn(ExprModel, Map<ExprModel, LuaValue>) -> LuaValue,
    value: spec_fn(Expr) -> LuaValue,
    branch: Option<Box<ElseBranch>>,
) -> bool
    decreases branch, 0int,
{
    match branch {
        Some(branch) => match *branch {
            ElseBranch::Block(block) => is_choice_block(env, st, eval, value, block),
            ElseBranch::If(inner) => is_choice(env, st, eval, value, inner),
        },
        None => false,
    }
}

/// Where delivering a value ends.
pub open spec fn delivered(
    dest: DestModel,
    value: LuaValue,
    store: Map<ExprModel, LuaValue>,
) -> Outcome {
    match dest {
        DestModel::Discard => Outcome::Behind(store),
        DestModel::Var(target) => Outcome::Behind(store.insert(target, value)),
        DestModel::Return => Outcome::Returned(value),
    }
}

proof fn lemma_empty_scope(st: Cg, s: Cg)
    requires
        alike(st, s),
    ensures
        alike(st, s.push_scope(Map::empty())),
{
    let pushed = s.push_scope(Map::empty());
    assert(pushed.scopes.drop_last() =~= s.scopes);
    assert forall|local: LocalId| #[trigger] replacement(pushed.scopes, local) == replacement(
        st.scopes,
        local,
    ) by {
        assert(pushed.scopes.last() == Map::<LocalId, ExprModel>::empty());
        assert(replacement(pushed.scopes, local) == replacement(s.scopes, local));
    }
}

/// An expression that is no control structure.
#[verifier::spinoff_prover]
proof fn lemma_leaf(
    eval: spec_fn(ExprModel, Map<ExprModel, LuaValue>) -> LuaValue,
    value: spec_fn(Expr) -> LuaValue,
    store: Map<ExprModel, LuaValue>,
    env: EnvModel,
    st: Cg,
    s: Cg,
    e: Expr,
    dest: DestModel,
)
    requires
        alike(st, s),
        plan_of(env, e) is None,
        !is_control(e),
        denotes(env, st, eval, value, e),
    ensures
        alike(st, g_expr_to(env, s, e, dest)),
        g_expr_to(env, s, e, dest).scopes == s.scopes,
        stays(s.lua, g_expr_to(env, s, e, dest).lua),
        run(eval, added(s, g_expr_to(env, s, e, dest)), 0, store) == delivered(
            dest,
            value(e),
            store,
        ),
{
    let start = s.push_anchor(e.span);
    assert(alike(st, start));
    let (next, model) = g_inline(env, start, e);
    assert(next.lua == start.lua);
    assert(alike(st, next));
    assert(eval(g_inline(env, start, e).1, store) == value(e));
    let inner = next.deliver(dest, model);
    assert(g_expr_to_inner(env, start, e, dest) == inner);
    let after = g_expr_to(env, s, e, dest);
    assert(after == inner.pop_anchor());
    assert(s.lua.anchors.push(e.span).drop_last() =~= s.lua.anchors);
    let list = added(s, after);
    assert(current(start.lua) == current(s.lua));
    reveal_with_fuel(run, 2);
    match dest {
        DestModel::Discard => {
            assert(list.len() <= 1);
        },
        DestModel::Var(target) => {
            assert(list.len() == 1);
            assert(list[0]->statement == StatementModel::Assign {
                targets: seq![target],
                values: seq![model],
            });
        },
        DestModel::Return => {
            assert(list.len() == 1);
            assert(list[0]->statement == StatementModel::Return(seq![model]));
        },
    }
}

/// A block that holds one expression.
#[verifier::spinoff_prover]
proof fn lemma_block(
    eval: spec_fn(ExprModel, Map<ExprModel, LuaValue>) -> LuaValue,
    value: spec_fn(Expr) -> LuaValue,
    store: Map<ExprModel, LuaValue>,
    env: EnvModel,
    st: Cg,
    s: Cg,
    block: Block,
    dest: DestModel,
)
    requires
        alike(st, s),
        is_choice_block(env, st, eval, value, block),
    ensures
        alike(st, g_block_to(env, s, block, dest)),
        g_block_to(env, s, block, dest).scopes == s.scopes,
        stays(s.lua, g_block_to(env, s, block, dest).lua),
        run(eval, added(s, g_block_to(env, s, block, dest)), 0, store) == delivered(
            dest,
            value_of_block(value, block),
            store,
        ),
    decreases block, 0int,
{
    let tail = *block.tail->0;
    let pushed = s.push_scope(Map::empty());
    lemma_empty_scope(st, s);
    assert(g_stmts(env, pushed, block.stmts@, block.statement_blank_before@, 0) == pushed);
    let start = if block.tail_blank_before {
        pushed.blank()
    } else {
        pushed
    };
    assert(alike(st, start));
    lemma_choice(eval, value, store, env, st, start, tail, dest);
    let inner = g_expr_to(env, start, tail, dest);
    let after = g_block_to(env, s, block, dest);
    assert(after == inner.pop_scope());
    assert(pushed.scopes.drop_last() =~= s.scopes);
    if block.tail_blank_before {
        let list = added(s, after);
        law_statements_run_in_order(eval, list, 1, 0, store);
        assert(list[0] == current(start.lua).last());
        assert(list.take(1)[0] is Blank);
        assert(run(eval, list.take(1), 0, store) == Outcome::Behind(store)) by {
            reveal_with_fuel(run, 2);
        }
        assert(list.skip(1) =~= added(start, inner));
    } else {
        assert(added(s, after) == added(start, inner));
    }
}

/// An expression made of conditionals, blocks and other expressions.
#[verifier::spinoff_prover]
proof fn lemma_choice(
    eval: spec_fn(ExprModel, Map<ExprModel, LuaValue>) -> LuaValue,
    value: spec_fn(Expr) -> LuaValue,
    store: Map<ExprModel, LuaValue>,
    env: EnvModel,
    st: Cg,
    s: Cg,
    e: Expr,
    dest: DestModel,
)
    requires
        alike(st, s),
        is_choice(env, st, eval, value, e),
    ensures
        alike(st, g_expr_to(env, s, e, dest)),
        g_expr_to(env, s, e, dest).scopes == s.scopes,
        stays(s.lua, g_expr_to(env, s, e, dest).lua),
        run(eval, added(s, g_expr_to(env, s, e, dest)), 0, store) == delivered(
            dest,
            value_of(value, e),
            store,
        ),
    decreases e, 0int,
{
    match e.kind {
        ExprKind::If { cond, then_block, else_block } => {
            let start = s.push_anchor(e.span);
            assert(alike(st, start));
            let (before, condition) = g_inline(env, start, *cond);
            assert(before.lua == start.lua);
            assert(alike(st, before));
            assert(eval(g_inline(env, start, *cond).1, store) == value(*cond));
            let begun = before.begin_if(condition);
            assert(alike(st, begun));
            lemma_block(eval, value, store, env, st, begun, then_block, dest);
            let taken = g_block_to(env, begun, then_block, dest);
            let reopened = taken.begin_else();
            assert(alike(st, reopened));
            match *else_block->0 {
                ElseBranch::Block(block) => {
                    lemma_block(eval, value, store, env, st, reopened, block, dest);
                },
                ElseBranch::If(inner) => {
                    lemma_choice(eval, value, store, env, st, reopened, inner, dest);
                },
            }
            law_a_conditional_is_one_if_statement(env, s, e, dest);
            law_a_conditional_runs_one_of_its_blocks(eval, store, env, s, e, dest);
            assert(added(s, before) =~= Seq::<EntryModel>::empty());
            lemma_state_behind(env, s, e, dest);
        },
        ExprKind::Block(block) => {
            let start = s.push_anchor(e.span);
            assert(alike(st, start));
            lemma_block(eval, value, store, env, st, start, block, dest);
            let inner = g_block_to(env, start, block, dest);
            assert(g_expr_to_inner(env, start, e, dest) == inner);
            assert(s.lua.anchors.push(e.span).drop_last() =~= s.lua.anchors);
            assert(added(s, g_expr_to(env, s, e, dest)) == added(start, inner));
        },
        _ => {
            lemma_leaf(eval, value, store, env, st, s, e, dest);
        },
    }
}

/// But for the statements, the state behind a conditional is the one behind its `else`.
#[verifier::spinoff_prover]
proof fn lemma_state_behind(env: EnvModel, s: Cg, e: Expr, dest: DestModel)
    requires
        plan_of(env, e) is None,
        e.kind matches ExprKind::If { else_block, .. } && else_block is Some,
    ensures
        e.kind matches ExprKind::If { cond, then_block, else_block } ==> {
            let (before, condition) = g_inline(env, s.push_anchor(e.span), *cond);
            let taken = g_block_to(env, before.begin_if(condition), then_block, dest);
            let other = behind_else(env, taken, *else_block->0, dest);
            let after = g_expr_to(env, s, e, dest);
            after == other.with(after.lua)
        },
{
    match e.kind {
        ExprKind::If { cond, then_block, else_block } => {
            let start = s.push_anchor(e.span);
            let (before, condition) = g_inline(env, start, *cond);
            let taken = g_block_to(env, before.begin_if(condition), then_block, dest);
            let other = behind_else(env, taken, *else_block->0, dest);
            assert(g_else(env, taken, else_block, dest) == other);
            assert(g_expr_to_inner(env, start, e, dest) == other.end());
        },
        _ => {},
    }
}

/// Running the Lua of an expression that chooses among values delivers the value
/// that the conditions select: of `if c { a } else { b }` the value of `a` where
/// `c` is true and that of `b` where it is false, at any depth. A variable that
/// waits for the value gets it, and a function returns it.
pub proof fn law_conditionals_deliver_the_value_they_select(
    eval: spec_fn(ExprModel, Map<ExprModel, LuaValue>) -> LuaValue,
    value: spec_fn(Expr) -> LuaValue,
    store: Map<ExprModel, LuaValue>,
    env: EnvModel,
    st: Cg,
    e: Expr,
    dest: DestModel,
)
    requires
        is_choice(env, st, eval, value, e),
    ensures
        run(eval, added(st, g_expr_to(env, st, e, dest)), 0, store) == match dest {
            DestModel::Discard => Outcome::Behind(store),
            DestModel::Var(target) => Outcome::Behind(store.insert(target, value_of(value, e))),
            DestModel::Return => Outcome::Returned(value_of(value, e)),
        },
{
    lemma_choice(eval, value, store, env, st, st, e, dest);
}

/// The same of the block of a function, whose value is returned.
pub proof fn law_a_block_returns_its_value(
    eval: spec_fn(ExprModel, Map<ExprModel, LuaValue>) -> LuaValue,
    value: spec_fn(Expr) -> LuaValue,
    store: Map<ExprModel, LuaValue>,
    env: EnvModel,
    st: Cg,
    block: Block,
)
    requires
        is_choice_block(env, st, eval, value, block),
    ensures
        run(eval, added(st, g_block_to(env, st, block, DestModel::Return)), 0, store)
            == Outcome::Returned(value_of_block(value, block)),
{
    lemma_block(eval, value, store, env, st, st, block, DestModel::Return);
}

} // verus!
