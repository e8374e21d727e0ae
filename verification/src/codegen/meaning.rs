//! What the Lua of a conditional does when it runs.

use vstd::prelude::*;

use super::lower::{g_block_to, g_else, g_expr_to, g_expr_to_inner, g_inline, plan_of};
use super::state::{Cg, DestModel, EnvModel};
use crate::ast::{ElseBranch, Expr, ExprKind};
use crate::lua_ir::{
    BranchModel, BuilderModel, EntryModel, ExprModel, Frames, OpenerModel, StatementModel,
};
use crate::resolution::keeping::extends;

verus! {

/// The statements of the innermost open block, or of the root.
pub open spec fn current(b: BuilderModel) -> Seq<EntryModel> {
    match b.frames {
        Frames::Empty => b.root,
        Frames::Over { body, .. } => body,
    }
}

/// Whether a builder is where another one was, with statements added at most.
pub open spec fn stays(a: BuilderModel, b: BuilderModel) -> bool {
    &&& b.shape() == a.shape()
    &&& a.frames is Over ==> b.root == a.root
    &&& extends(current(a), current(b))
}

/// The builder around the innermost open block.
pub open spec fn outer_of(b: BuilderModel) -> BuilderModel {
    match b.frames {
        Frames::Empty => b,
        Frames::Over { outer, .. } => BuilderModel { frames: *outer, ..b },
    }
}

// ---------------------------------------------------------------------------
// Which statement a conditional becomes.
// ---------------------------------------------------------------------------

/// The state behind the `else` of a conditional, which starts with nothing in it.
pub open spec fn behind_else(env: EnvModel, taken: Cg, branch: ElseBranch, dest: DestModel) -> Cg {
    match branch {
        ElseBranch::Block(block) => g_block_to(env, taken.begin_else(), block, dest),
        ElseBranch::If(inner) => g_expr_to(env, taken.begin_else(), inner, dest),
    }
}

/// A conditional with an `else` becomes one statement behind those of its condition:
/// an `if` with one branch and an `else`. The body of the branch is what its block
/// becomes, the `else` holds what the other block or conditional becomes, and both
/// start empty. This is so where the parts add statements at the place where they are
/// lowered, as all lowering does.
#[verifier::spinoff_prover]
pub proof fn law_a_conditional_is_one_if_statement(
    env: EnvModel,
    st: Cg,
    e: Expr,
    dest: DestModel,
)
    requires
        plan_of(env, e) is None,
        e.kind matches ExprKind::If { else_block, .. } && else_block is Some,
        e.kind matches ExprKind::If { cond, then_block, else_block } ==> {
            let (before, condition) = g_inline(env, st.push_anchor(e.span), *cond);
            let taken = g_block_to(env, before.begin_if(condition), then_block, dest);
            &&& stays(st.push_anchor(e.span).lua, before.lua)
            &&& stays(before.begin_if(condition).lua, taken.lua)
            &&& stays(
                taken.begin_else().lua,
                behind_else(env, taken, *else_block->0, dest).lua,
            )
        },
    ensures
        e.kind matches ExprKind::If { cond, then_block, else_block } ==> {
            let (before, condition) = g_inline(env, st.push_anchor(e.span), *cond);
            let taken = g_block_to(env, before.begin_if(condition), then_block, dest);
            let other = behind_else(env, taken, *else_block->0, dest);
            let after = g_expr_to(env, st, e, dest);
            &&& stays(st.lua, after.lua)
            &&& current(before.begin_if(condition).lua) == Seq::<EntryModel>::empty()
            &&& current(taken.begin_else().lua) == Seq::<EntryModel>::empty()
            &&& current(after.lua) == current(before.lua).push(
                EntryModel::Statement {
                    anchor: Some(e.span),
                    statement: StatementModel::If {
                        branches: seq![BranchModel { condition, body: current(taken.lua) }],
                        else_body: Some(current(other.lua)),
                    },
                },
            )
        },
{
    match e.kind {
        ExprKind::If { cond, then_block, else_block } => {
            let start = st.push_anchor(e.span);
            let (before, condition) = g_inline(env, start, *cond);
            let begun = before.begin_if(condition);
            let taken = g_block_to(env, begun, then_block, dest);
            let reopened = taken.begin_else();
            let other = behind_else(env, taken, *else_block->0, dest);
            assert(g_else(env, taken, else_block, dest) == other);
            let after = g_expr_to(env, st, e, dest);
            assert(g_expr_to_inner(env, start, e, dest) == other.end());
            assert(after == other.end().pop_anchor());
            lemma_closed_if(before.lua, condition, taken.lua, other.lua);
            assert(current(after.lua) == current(other.end().lua));
            assert(st.lua.anchors.push(e.span).drop_last() =~= st.lua.anchors);
        },
        _ => {},
    }
}

/// Without an `else` the variable that waits for the value becomes nil where the
/// condition fails; otherwise nothing happens there.
#[verifier::spinoff_prover]
pub proof fn law_a_conditional_without_else(env: EnvModel, st: Cg, e: Expr, dest: DestModel)
    requires
        plan_of(env, e) is None,
        e.kind matches ExprKind::If { else_block, .. } && else_block is None,
        e.kind matches ExprKind::If { cond, then_block, .. } ==> {
            let (before, condition) = g_inline(env, st.push_anchor(e.span), *cond);
            let taken = g_block_to(env, before.begin_if(condition), then_block, dest);
            &&& stays(st.push_anchor(e.span).lua, before.lua)
            &&& stays(before.begin_if(condition).lua, taken.lua)
        },
    ensures
        e.kind matches ExprKind::If { cond, then_block, .. } ==> {
            let (before, condition) = g_inline(env, st.push_anchor(e.span), *cond);
            let taken = g_block_to(env, before.begin_if(condition), then_block, dest);
            let after = g_expr_to(env, st, e, dest);
            &&& current(before.begin_if(condition).lua) == Seq::<EntryModel>::empty()
            &&& current(after.lua) == current(before.lua).push(
                EntryModel::Statement {
                    anchor: Some(e.span),
                    statement: StatementModel::If {
                        branches: seq![BranchModel { condition, body: current(taken.lua) }],
                        else_body: match dest {
                            DestModel::Var(target) => Some(
                                seq![
                                    EntryModel::Statement {
                                        anchor: Some(e.span),
                                        statement: StatementModel::Assign {
                                            targets: seq![target],
                                            values: seq![ExprModel::Nil],
                                        },
                                    },
                                ],
                            ),
                            _ => None,
                        },
                    },
                },
            )
        },
{
    match e.kind {
        ExprKind::If { cond, then_block, else_block } => {
            let start = st.push_anchor(e.span);
            let (before, condition) = g_inline(env, start, *cond);
            let begun = before.begin_if(condition);
            let taken = g_block_to(env, begun, then_block, dest);
            let other = g_else(env, taken, else_block, dest);
            let after = g_expr_to(env, st, e, dest);
            assert(g_expr_to_inner(env, start, e, dest) == other.end());
            assert(after == other.end().pop_anchor());
            match dest {
                DestModel::Var(target) => {
                    lemma_closed_if(before.lua, condition, taken.lua, other.lua);
                    assert(current(other.lua) =~= seq![
                        EntryModel::Statement {
                            anchor: Some(e.span),
                            statement: StatementModel::Assign {
                                targets: seq![target],
                                values: seq![ExprModel::Nil],
                            },
                        },
                    ]);
                },
                _ => {
                    lemma_closed_branch(before.lua, condition, taken.lua);
                },
            }
            assert(current(after.lua) == current(other.end().lua));
        },
        _ => {},
    }
}

proof fn lemma_closed_if(
    before: BuilderModel,
    condition: ExprModel,
    taken: BuilderModel,
    other: BuilderModel,
)
    requires
        stays(before.begin(OpenerModel::If { branches: Seq::empty(), condition }), taken),
        stays(taken.begin_else(), other),
    ensures
        outer_of(taken.begin_else()) == before,
        current(other.end()) == current(before).push(
            EntryModel::Statement {
                anchor: before.anchor(),
                statement: StatementModel::If {
                    branches: seq![BranchModel { condition, body: current(taken) }],
                    else_body: Some(current(other)),
                },
            },
        ),
{
    assert(taken.closed_branches() =~= seq![BranchModel { condition, body: current(taken) }]);
}

proof fn lemma_closed_branch(before: BuilderModel, condition: ExprModel, taken: BuilderModel)
    requires
        stays(before.begin(OpenerModel::If { branches: Seq::empty(), condition }), taken),
    ensures
        current(taken.end()) == current(before).push(
            EntryModel::Statement {
                anchor: before.anchor(),
                statement: StatementModel::If {
                    branches: seq![BranchModel { condition, body: current(taken) }],
                    else_body: None,
                },
            },
        ),
{
    assert(Seq::<BranchModel>::empty().push(BranchModel { condition, body: current(taken) })
        =~= seq![BranchModel { condition, body: current(taken) }]);
}

// ---------------------------------------------------------------------------
// Running Lua statements.
// ---------------------------------------------------------------------------

/// A Lua value: nil, a truth value, or any other one under a number of its own.
pub enum LuaValue {
    Nil,
    Bool(bool),
    Other(int),
}

/// Whether a condition with this value holds. Only nil and false do not.
pub open spec fn holds(value: LuaValue) -> bool {
    value != LuaValue::Nil && value != LuaValue::Bool(false)
}

/// Where running some statements ends: behind them, with what the places hold; at a
/// return, with its value; or at a statement that is not modelled here.
pub enum Outcome {
    Behind(Map<ExprModel, LuaValue>),
    Returned(LuaValue),
    Unknown,
}

/// Runs the statements `entries[from..]`, where expressions have the values that
/// `eval` gives them.
pub open spec fn run(
    eval: spec_fn(ExprModel, Map<ExprModel, LuaValue>) -> LuaValue,
    entries: Seq<EntryModel>,
    from: int,
    store: Map<ExprModel, LuaValue>,
) -> Outcome
    decreases entries, entries.len() - from,
{
    if from < 0 || from >= entries.len() {
        Outcome::Behind(store)
    } else {
        match entries[from] {
            EntryModel::Blank => run(eval, entries, from + 1, store),
            EntryModel::Statement { statement, .. } => match run_statement(eval, statement, store) {
                Outcome::Behind(next) => run(eval, entries, from + 1, next),
                other => other,
            },
        }
    }
}

/// Runs one statement.
pub open spec fn run_statement(
    eval: spec_fn(ExprModel, Map<ExprModel, LuaValue>) -> LuaValue,
    statement: StatementModel,
    store: Map<ExprModel, LuaValue>,
) -> Outcome
    decreases statement, 0int,
{
    match statement {
        StatementModel::Annotation(_) => Outcome::Behind(store),
        StatementModel::Expression(_) => Outcome::Behind(store),
        StatementModel::Assign { targets, values } => if targets.len() == 1 && values.len() == 1 {
            Outcome::Behind(store.insert(targets[0], eval(values[0], store)))
        } else {
            Outcome::Unknown
        },
        StatementModel::Return(values) => if values.len() == 0 {
            Outcome::Returned(LuaValue::Nil)
        } else if values.len() == 1 {
            Outcome::Returned(eval(values[0], store))
        } else {
            Outcome::Unknown
        },
        StatementModel::Do(body) => run(eval, body, 0, store),
        StatementModel::If { branches, else_body } => match run_branches(
            eval,
            branches,
            0,
            store,
        ) {
            Some(outcome) => outcome,
            None => match else_body {
                Some(body) => run(eval, body, 0, store),
                None => Outcome::Behind(store),
            },
        },
        _ => Outcome::Unknown,
    }
}

/// Runs the first of the branches `branches[from..]` whose condition holds.
pub open spec fn run_branches(
    eval: spec_fn(ExprModel, Map<ExprModel, LuaValue>) -> LuaValue,
    branches: Seq<BranchModel>,
    from: int,
    store: Map<ExprModel, LuaValue>,
) -> Option<Outcome>
    decreases branches, branches.len() - from,
{
    if from < 0 || from >= branches.len() {
        None
    } else if holds(eval(branches[from].condition, store)) {
        Some(run_branch(eval, branches[from], store))
    } else {
        run_branches(eval, branches, from + 1, store)
    }
}

/// Runs the body of a branch.
pub open spec fn run_branch(
    eval: spec_fn(ExprModel, Map<ExprModel, LuaValue>) -> LuaValue,
    branch: BranchModel,
    store: Map<ExprModel, LuaValue>,
) -> Outcome
    decreases branch, 0int,
{
    run(eval, branch.body, 0, store)
}

proof fn lemma_run_shift(
    eval: spec_fn(ExprModel, Map<ExprModel, LuaValue>) -> LuaValue,
    entries: Seq<EntryModel>,
    k: int,
    from: int,
    store: Map<ExprModel, LuaValue>,
)
    requires
        0 <= k <= entries.len(),
        0 <= from <= entries.len() - k,
    ensures
        run(eval, entries, k + from, store) == run(eval, entries.skip(k), from, store),
    decreases entries.len() - k - from,
{
    if k + from < entries.len() {
        assert(entries.skip(k)[from] == entries[k + from]);
        match entries[k + from] {
            EntryModel::Blank => {
                lemma_run_shift(eval, entries, k, from + 1, store);
            },
            EntryModel::Statement { statement, .. } => {
                match run_statement(eval, statement, store) {
                    Outcome::Behind(next) => {
                        lemma_run_shift(eval, entries, k, from + 1, next);
                    },
                    _ => {},
                }
            },
        }
    }
}

/// Statements run in order: the second part where the first one is left behind.
pub proof fn law_statements_run_in_order(
    eval: spec_fn(ExprModel, Map<ExprModel, LuaValue>) -> LuaValue,
    entries: Seq<EntryModel>,
    k: int,
    from: int,
    store: Map<ExprModel, LuaValue>,
)
    requires
        0 <= from <= k <= entries.len(),
    ensures
        run(eval, entries, from, store) == match run(eval, entries.take(k), from, store) {
            Outcome::Behind(next) => run(eval, entries.skip(k), 0, next),
            other => other,
        },
    decreases k - from,
{
    if from < k {
        assert(entries.take(k)[from] == entries[from]);
        match entries[from] {
            EntryModel::Blank => {
                law_statements_run_in_order(eval, entries, k, from + 1, store);
            },
            EntryModel::Statement { statement, .. } => {
                match run_statement(eval, statement, store) {
                    Outcome::Behind(next) => {
                        law_statements_run_in_order(eval, entries, k, from + 1, next);
                    },
                    _ => {},
                }
            },
        }
    } else {
        lemma_run_shift(eval, entries, k, 0, store);
    }
}

/// An `if` with one branch and an `else` runs the branch where the condition
/// holds, and the `else` where it does not.
proof fn lemma_run_if(
    eval: spec_fn(ExprModel, Map<ExprModel, LuaValue>) -> LuaValue,
    condition: ExprModel,
    body: Seq<EntryModel>,
    other: Seq<EntryModel>,
    store: Map<ExprModel, LuaValue>,
)
    ensures
        run_statement(
            eval,
            StatementModel::If {
                branches: seq![BranchModel { condition, body }],
                else_body: Some(other),
            },
            store,
        ) == if holds(eval(condition, store)) {
            run(eval, body, 0, store)
        } else {
            run(eval, other, 0, store)
        },
{
    let branches = seq![BranchModel { condition, body }];
    assert(branches[0] == BranchModel { condition, body });
    assert(run_branch(eval, branches[0], store) == run(eval, body, 0, store));
    assert(run_branches(eval, branches, 1, store) is None);
    assert(run_branches(eval, branches, 0, store) == if holds(eval(condition, store)) {
        Some(run(eval, body, 0, store))
    } else {
        None
    });
}

/// Running one entry behind others that are already done.
proof fn lemma_run_last(
    eval: spec_fn(ExprModel, Map<ExprModel, LuaValue>) -> LuaValue,
    before: Seq<EntryModel>,
    entry: EntryModel,
    store: Map<ExprModel, LuaValue>,
)
    ensures
        run(eval, before.push(entry).skip(before.len() as int), 0, store) == match entry {
            EntryModel::Blank => Outcome::Behind(store),
            EntryModel::Statement { statement, .. } => run_statement(eval, statement, store),
        },
{
    let rest = before.push(entry).skip(before.len() as int);
    assert(rest.len() == 1);
    assert(rest[0] == entry);
    reveal_with_fuel(run, 2);
}

/// The statements that lowering added.
pub open spec fn added(before: Cg, after: Cg) -> Seq<EntryModel> {
    current(after.lua).skip(current(before.lua).len() as int)
}

/// A conditional with an `else` runs as its parts do: behind the statements of the
/// condition, the statements of the block where the condition holds, and those
/// of the `else` where it does not. This is so of every block and every way in
/// which expressions are evaluated.
#[verifier::spinoff_prover]
pub proof fn law_a_conditional_runs_one_of_its_blocks(
    eval: spec_fn(ExprModel, Map<ExprModel, LuaValue>) -> LuaValue,
    store: Map<ExprModel, LuaValue>,
    env: EnvModel,
    st: Cg,
    e: Expr,
    dest: DestModel,
)
    requires
        plan_of(env, e) is None,
        e.kind matches ExprKind::If { else_block, .. } && else_block is Some,
        e.kind matches ExprKind::If { cond, then_block, else_block } ==> {
            let (before, condition) = g_inline(env, st.push_anchor(e.span), *cond);
            let taken = g_block_to(env, before.begin_if(condition), then_block, dest);
            &&& stays(st.push_anchor(e.span).lua, before.lua)
            &&& stays(before.begin_if(condition).lua, taken.lua)
            &&& stays(
                taken.begin_else().lua,
                behind_else(env, taken, *else_block->0, dest).lua,
            )
        },
    ensures
        e.kind matches ExprKind::If { cond, then_block, else_block } ==> {
            let (before, condition) = g_inline(env, st.push_anchor(e.span), *cond);
            let begun = before.begin_if(condition);
            let taken = g_block_to(env, begun, then_block, dest);
            let other = behind_else(env, taken, *else_block->0, dest);
            let after = g_expr_to(env, st, e, dest);
            run(eval, added(st, after), 0, store) == match run(eval, added(st, before), 0, store) {
                Outcome::Behind(next) => if holds(eval(condition, next)) {
                    run(eval, added(begun, taken), 0, next)
                } else {
                    run(eval, added(taken.begin_else(), other), 0, next)
                },
                outcome => outcome,
            }
        },
{
    match e.kind {
        ExprKind::If { cond, then_block, else_block } => {
            law_a_conditional_is_one_if_statement(env, st, e, dest);
            let start = st.push_anchor(e.span);
            let (before, condition) = g_inline(env, start, *cond);
            let begun = before.begin_if(condition);
            let taken = g_block_to(env, begun, then_block, dest);
            let other = behind_else(env, taken, *else_block->0, dest);
            let after = g_expr_to(env, st, e, dest);
            let list = added(st, after);
            let n = current(st.lua).len() as int;
            let k = current(before.lua).len() as int;
            assert(current(start.lua) == current(st.lua));
            assert(k >= n);
            law_statements_run_in_order(eval, list, k - n, 0, store);
            assert(list.take(k - n) =~= added(st, before));
            let statement = current(after.lua).last();
            assert(list.skip(k - n) =~= current(before.lua).push(statement).skip(k));
            assert(added(begun, taken) =~= current(taken.lua));
            assert(added(taken.begin_else(), other) =~= current(other.lua));
            match run(eval, added(st, before), 0, store) {
                Outcome::Behind(next) => {
                    lemma_run_last(eval, current(before.lua), statement, next);
                    lemma_run_if(eval, condition, current(taken.lua), current(other.lua), next);
                },
                _ => {},
            }
        },
        _ => {},
    }
}

} // verus!
