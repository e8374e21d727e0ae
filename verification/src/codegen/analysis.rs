//! Questions that need the typed program: iterator chains, removable
//! computations, variants and exhaustive matches.

use vstd::prelude::*;

use super::state::{Env, EnvModel};
use super::syntax::{literal_value, rua_int_value};
use crate::ast::{BinOp, Block, ClosureBody, ElseBranch, Expr, ExprKind, Stmt};
use crate::builtins::{spec_rule, BuiltinTraitId, CodegenRule, CodegenRules};
use crate::hir::{DefId, DefKind, LocalId, ResolvedHir, ResolvedTarget, TraitTarget, VariantShape};
use crate::lua_ir::BinaryOp as LuaBinaryOp;
use crate::text::same_text;
use crate::token::SourceRange;
use crate::typed::{IterAdapterKind, IterConsumerKind, IterPlan, IterSourceKind};

verus! {

// ---------------------------------------------------------------------------
// Iterator chains.
// ---------------------------------------------------------------------------

/// The receiver of a method call.
pub open spec fn receiver(e: Expr) -> Option<Expr> {
    match e.kind {
        ExprKind::MethodCall { recv, .. } => Some(*recv),
        _ => None,
    }
}

/// The arguments of a method call.
pub open spec fn method_args(e: Expr) -> Seq<Expr> {
    match e.kind {
        ExprKind::MethodCall { args, .. } => args@,
        _ => Seq::empty(),
    }
}

/// The receiver of the receiver and so on, `depth` calls down.
pub open spec fn descend(e: Expr, depth: nat) -> Option<Expr>
    decreases depth,
{
    if depth == 0 {
        Some(e)
    } else {
        match receiver(e) {
            Some(inner) => descend(inner, (depth - 1) as nat),
            None => None,
        }
    }
}

/// The arguments of the method call `depth` calls down.
pub open spec fn args_at(e: Expr, depth: nat) -> Seq<Expr> {
    match descend(e, depth) {
        Some(inner) => method_args(inner),
        None => Seq::empty(),
    }
}

/// Whether the source of a chain is itself a method call.
pub open spec fn source_is_call(kind: IterSourceKind) -> bool {
    kind is VecIter || kind is VecIntoIter || kind is StringChars || kind is StringSplit
}

/// How far down the calls of the adapters end: the consumer, where there is
/// one, is the outermost call.
pub open spec fn adapters_end(plan: IterPlan, has_consumer: bool) -> nat {
    plan.adapters@.len() + if has_consumer {
        1nat
    } else {
        0nat
    }
}

/// How far down the source of a chain is.
pub open spec fn source_depth(plan: IterPlan, has_consumer: bool) -> nat {
    adapters_end(plan, has_consumer) + if source_is_call(plan.source) {
        1nat
    } else {
        0nat
    }
}

/// The source of a chain, where the expression has the shape of the plan.
pub open spec fn chain_source(e: Expr, plan: IterPlan, has_consumer: bool) -> Option<Expr> {
    if source_depth(plan, has_consumer) > usize::MAX {
        None
    } else {
        descend(e, source_depth(plan, has_consumer))
    }
}

/// The arguments of the call that makes the source.
pub open spec fn source_args(e: Expr, plan: IterPlan, has_consumer: bool) -> Seq<Expr> {
    if plan.source is StringChars || plan.source is StringSplit {
        args_at(e, adapters_end(plan, has_consumer))
    } else {
        Seq::empty()
    }
}

/// The arguments of one adapter. The last adapter is the outermost call.
pub open spec fn adapter_args(e: Expr, plan: IterPlan, has_consumer: bool, i: int) -> Seq<Expr> {
    args_at(e, (adapters_end(plan, has_consumer) - 1 - i) as nat)
}

/// The arguments of the consumer.
pub open spec fn consumer_args(e: Expr, has_consumer: bool) -> Seq<Expr> {
    if has_consumer {
        method_args(e)
    } else {
        Seq::empty()
    }
}

/// What lies further down is smaller.
pub proof fn lemma_descend(e: Expr, depth: nat)
    ensures
        descend(e, depth) matches Some(inner) ==> (depth > 0 ==> decreases_to!(e => inner)),
    decreases depth,
{
    if depth > 0 {
        if let Some(inner) = receiver(e) {
            lemma_descend(inner, (depth - 1) as nat);
        }
    }
}

/// Arguments are smaller than the expression around them.
pub proof fn lemma_args_at(e: Expr, depth: nat, i: int)
    requires
        0 <= i < args_at(e, depth).len(),
    ensures
        decreases_to!(e => args_at(e, depth)[i]),
{
    lemma_descend(e, depth);
    if let Some(inner) = descend(e, depth) {
        match inner.kind {
            ExprKind::MethodCall { args, .. } => {
                assert(decreases_to!(inner => args@[i]));
            },
            _ => {},
        }
    }
}

/// The arguments as a whole are smaller than the expression around them.
pub proof fn lemma_args_list(e: Expr, depth: nat)
    requires
        args_at(e, depth).len() > 0,
    ensures
        decreases_to!(e => args_at(e, depth)),
{
    lemma_descend(e, depth);
    if let Some(inner) = descend(e, depth) {
        match inner.kind {
            ExprKind::MethodCall { args, .. } => {
                assert(decreases_to!(inner => args@));
            },
            _ => {},
        }
    }
}

/// The expression `depth` calls down.
pub fn nth_receiver(e: &Expr, depth: usize) -> (r: Option<&Expr>)
    ensures
        match r {
            Some(inner) => descend(*e, depth as nat) == Some(*inner),
            None => descend(*e, depth as nat) is None,
        },
    decreases depth,
{
    if depth == 0 {
        return Some(e);
    }
    match &e.kind {
        ExprKind::MethodCall { recv, .. } => nth_receiver(recv, depth - 1),
        _ => None,
    }
}

/// The first argument of the method call `depth` calls down.
pub fn nth_first_arg(e: &Expr, depth: usize) -> (r: Option<&Expr>)
    ensures
        match r {
            Some(argument) => args_at(*e, depth as nat).len() > 0 && *argument == args_at(
                *e,
                depth as nat,
            )[0],
            None => args_at(*e, depth as nat).len() == 0,
        },
{
    match nth_receiver(e, depth) {
        Some(inner) => match &inner.kind {
            ExprKind::MethodCall { args, .. } => {
                if args.len() > 0 {
                    Some(&args[0])
                } else {
                    None
                }
            },
            _ => None,
        },
        None => None,
    }
}

/// The number of calls of an iterator chain above its source.
pub fn chain_depth(plan: &IterPlan, has_consumer: bool) -> (r: Option<usize>)
    ensures
        match r {
            Some(depth) => depth == source_depth(*plan, has_consumer),
            None => source_depth(*plan, has_consumer) > usize::MAX,
        },
{
    let consumer: usize = if has_consumer {
        1
    } else {
        0
    };
    let call: usize = match plan.source {
        IterSourceKind::VecIter => 1,
        IterSourceKind::VecIntoIter => 1,
        IterSourceKind::StringChars => 1,
        IterSourceKind::StringSplit => 1,
        _ => 0,
    };
    match plan.adapters.len().checked_add(consumer) {
        Some(end) => end.checked_add(call),
        None => None,
    }
}

// ---------------------------------------------------------------------------
// Small facts.
// ---------------------------------------------------------------------------

/// The enum, the variant and its shape, where the target is a variant.
pub open spec fn variant_of(hir: ResolvedHir, target: ResolvedTarget) -> Option<
    (DefId, DefId, VariantShape),
> {
    match target {
        ResolvedTarget::Item(variant) => if hir.has_definition(variant) {
            match hir.spec_definition(variant).kind {
                DefKind::EnumVariant { owner, shape } => Some((owner, variant, shape)),
                _ => None,
            }
        } else {
            None
        },
        _ => None,
    }
}

/// The enum, the variant and its shape, where the target is a variant.
pub fn resolve_variant(hir: &ResolvedHir, target: ResolvedTarget) -> (r: Option<
    (DefId, DefId, VariantShape),
>)
    ensures
        r == variant_of(*hir, target),
{
    match target {
        ResolvedTarget::Item(variant) => match hir.find_definition(variant) {
            Some(data) => match data.kind {
                DefKind::EnumVariant { owner, shape } => Some((owner, variant, shape)),
                _ => None,
            },
            None => None,
        },
        _ => None,
    }
}

/// Whether a statement can be put in a local that is assigned later.
pub open spec fn is_hoisted(e: Expr) -> bool {
    e.kind is If || e.kind is IfLet || e.kind is Block || e.kind is Match
}

pub fn needs_hoist(e: &Expr) -> (r: bool)
    ensures
        r == is_hoisted(*e),
{
    match &e.kind {
        ExprKind::If { .. } => true,
        ExprKind::IfLet { .. } => true,
        ExprKind::Block(_) => true,
        ExprKind::Match { .. } => true,
        _ => false,
    }
}

/// The Lua operator of a source operator, where there is one.
pub open spec fn lua_operator(op: BinOp) -> Option<LuaBinaryOp> {
    match op {
        BinOp::Add => Some(LuaBinaryOp::Add),
        BinOp::Sub => Some(LuaBinaryOp::Sub),
        BinOp::Mul => Some(LuaBinaryOp::Mul),
        BinOp::Div => Some(LuaBinaryOp::Div),
        BinOp::Rem => Some(LuaBinaryOp::Rem),
        BinOp::Eq => Some(LuaBinaryOp::Eq),
        BinOp::Ne => Some(LuaBinaryOp::Ne),
        BinOp::Lt => Some(LuaBinaryOp::Lt),
        BinOp::Le => Some(LuaBinaryOp::Le),
        BinOp::Gt => Some(LuaBinaryOp::Gt),
        BinOp::Ge => Some(LuaBinaryOp::Ge),
        BinOp::And => Some(LuaBinaryOp::And),
        BinOp::Or => Some(LuaBinaryOp::Or),
        BinOp::Coalesce => None,
        BinOp::Contains => None,
    }
}

/// The Lua operator of a source operator.
pub fn binop_lua(op: BinOp) -> (r: Option<LuaBinaryOp>)
    ensures
        r == lua_operator(op),
{
    match op {
        BinOp::Add => Some(LuaBinaryOp::Add),
        BinOp::Sub => Some(LuaBinaryOp::Sub),
        BinOp::Mul => Some(LuaBinaryOp::Mul),
        BinOp::Div => Some(LuaBinaryOp::Div),
        BinOp::Rem => Some(LuaBinaryOp::Rem),
        BinOp::Eq => Some(LuaBinaryOp::Eq),
        BinOp::Ne => Some(LuaBinaryOp::Ne),
        BinOp::Lt => Some(LuaBinaryOp::Lt),
        BinOp::Le => Some(LuaBinaryOp::Le),
        BinOp::Gt => Some(LuaBinaryOp::Gt),
        BinOp::Ge => Some(LuaBinaryOp::Ge),
        BinOp::And => Some(LuaBinaryOp::And),
        BinOp::Or => Some(LuaBinaryOp::Or),
        BinOp::Coalesce => None,
        BinOp::Contains => None,
    }
}

/// The metamethod behind which an operator method is also reachable.
pub open spec fn metamethod(target: TraitTarget, method: Seq<char>) -> Option<Seq<char>> {
    match target {
        TraitTarget::Builtin(BuiltinTraitId::Add) => if method == "add"@ {
            Some("__add"@)
        } else {
            None
        },
        TraitTarget::Builtin(BuiltinTraitId::Sub) => if method == "sub"@ {
            Some("__sub"@)
        } else {
            None
        },
        TraitTarget::Builtin(BuiltinTraitId::Mul) => if method == "mul"@ {
            Some("__mul"@)
        } else {
            None
        },
        TraitTarget::Builtin(BuiltinTraitId::Div) => if method == "div"@ {
            Some("__div"@)
        } else {
            None
        },
        TraitTarget::Builtin(BuiltinTraitId::Rem) => if method == "rem"@ {
            Some("__mod"@)
        } else {
            None
        },
        TraitTarget::Builtin(BuiltinTraitId::Neg) => if method == "neg"@ {
            Some("__unm"@)
        } else {
            None
        },
        TraitTarget::Builtin(BuiltinTraitId::PartialEq) | TraitTarget::Builtin(
            BuiltinTraitId::Eq,
        ) => if method == "eq"@ {
            Some("__eq"@)
        } else {
            None
        },
        TraitTarget::Item(_) => None,
    }
}

/// The metamethod behind which an operator method is also reachable.
pub fn op_alias(target: TraitTarget, method: &str) -> (r: Option<&'static str>)
    ensures
        match r {
            Some(name) => metamethod(target, method@) == Some(name@),
            None => metamethod(target, method@) is None,
        },
{
    let trait_id = match target {
        TraitTarget::Builtin(trait_id) => trait_id,
        TraitTarget::Item(_) => {
            return None;
        },
    };
    let (name, alias): (&'static str, &'static str) = match trait_id {
        BuiltinTraitId::Add => ("add", "__add"),
        BuiltinTraitId::Sub => ("sub", "__sub"),
        BuiltinTraitId::Mul => ("mul", "__mul"),
        BuiltinTraitId::Div => ("div", "__div"),
        BuiltinTraitId::Rem => ("rem", "__mod"),
        BuiltinTraitId::Neg => ("neg", "__unm"),
        BuiltinTraitId::PartialEq => ("eq", "__eq"),
        BuiltinTraitId::Eq => ("eq", "__eq"),
    };
    if same_text(method, name) {
        Some(alias)
    } else {
        None
    }
}

/// Whether a binding is never read.
pub open spec fn unused_binding(env: EnvModel, source: SourceRange) -> bool {
    match env.program.hir.binding_targets.at(source) {
        Some(local) => !env.used_locals.contains(local),
        None => false,
    }
}

pub fn binding_is_unused(env: &Env, source: SourceRange) -> (r: bool)
    ensures
        r == unused_binding(env@, source),
{
    match env.program.hir.binding_targets.get(&source) {
        Some(local) => !env.used_locals.has(local),
        None => false,
    }
}

/// Whether an expression is a path to a local that never changes.
pub open spec fn immutable_local(env: EnvModel, e: Expr) -> bool {
    &&& e.kind is Path
    &&& env.program.spec_expression_target(e.id) matches ResolvedTarget::Local(local)
        && (local.0 as int) < env.program.hir.locals@.len()
        && !env.program.hir.locals@[local.0 as int].is_mutable
}

pub fn is_immutable_local_path(env: &Env, e: &Expr) -> (r: bool)
    ensures
        r == immutable_local(env@, *e),
{
    match &e.kind {
        ExprKind::Path(_) => match env.program.expression_target(e.id) {
            ResolvedTarget::Local(local) => local.index() < env.program.hir.locals.len()
                && !env.program.hir.locals[local.index()].is_mutable,
            _ => false,
        },
        _ => false,
    }
}

/// Whether an expression is known not to be negative.
pub open spec fn known_nonnegative(env: EnvModel, nonnegative: Seq<LocalId>, e: Expr) -> bool {
    match e.kind {
        ExprKind::Int(source) => literal_value(source@) matches Some(value) && value >= 0,
        ExprKind::Path(_) => env.program.spec_expression_target(e.id) matches ResolvedTarget::Local(
            local,
        ) && nonnegative.contains(local),
        _ => false,
    }
}

pub fn expression_is_known_nonnegative(env: &Env, nonnegative: &Vec<LocalId>, e: &Expr) -> (r: bool)
    ensures
        r == known_nonnegative(env@, nonnegative@, *e),
{
    match &e.kind {
        ExprKind::Int(source) => match rua_int_value(source.as_str()) {
            Some(value) => value >= 0,
            None => false,
        },
        ExprKind::Path(_) => match env.program.expression_target(e.id) {
            ResolvedTarget::Local(local) => {
                let mut i: usize = 0;
                while i < nonnegative.len()
                    invariant
                        i <= nonnegative.len(),
                        e.kind is Path,
                        env.program.spec_expression_target(e.id) == ResolvedTarget::Local(local),
                        forall|k: int| 0 <= k < i ==> #[trigger] nonnegative@[k] != local,
                    decreases nonnegative.len() - i,
                {
                    if nonnegative[i] == local {
                        proof {
                            assert(nonnegative@[i as int] == local);
                        }
                        return true;
                    }
                    i += 1;
                }
                false
            },
            _ => false,
        },
        _ => false,
    }
}

/// Whether a call constructs a variant or a builtin value.
pub open spec fn constructs(env: EnvModel, callee: Expr) -> bool {
    callee.kind is Path && match env.program.spec_expression_target(callee.id) {
        ResolvedTarget::Builtin(builtin) => match spec_rule(builtin) {
            Some(CodegenRule::InlineArg) => true,
            Some(CodegenRule::TableCtor { .. }) => true,
            Some(CodegenRule::TaggedResult { .. }) => true,
            _ => false,
        },
        target => variant_of(env.program.hir, target) is Some,
    }
}

fn is_construction(env: &Env, callee: &Expr) -> (r: bool)
    ensures
        r == constructs(env@, *callee),
{
    match &callee.kind {
        ExprKind::Path(_) => {},
        _ => {
            return false;
        },
    }
    match env.program.expression_target(callee.id) {
        ResolvedTarget::Builtin(builtin) => match (CodegenRules {  }).get(builtin) {
            Some(CodegenRule::InlineArg) => true,
            Some(CodegenRule::TableCtor { .. }) => true,
            Some(CodegenRule::TaggedResult { .. }) => true,
            _ => false,
        },
        target => resolve_variant(&env.program.hir, target).is_some(),
    }
}

/// Whether a string method only looks at its receiver.
pub open spec fn plain_str_method(method: Seq<char>) -> bool {
    method == "len"@ || method == "is_empty"@ || method == "to_string"@ || method == "to_owned"@
        || method == "clone"@
}

fn is_plain_str_method(method: &str) -> (r: bool)
    ensures
        r == plain_str_method(method@),
{
    same_text(method, "len") || same_text(method, "is_empty") || same_text(method, "to_string")
        || same_text(method, "to_owned") || same_text(method, "clone")
}

// ---------------------------------------------------------------------------
// Computations that can be left out.
// ---------------------------------------------------------------------------

/// Whether calling a closure has no effect.
pub open spec fn closure_removable(env: EnvModel, closure: Expr) -> bool
    decreases closure, 3int, 0int,
{
    match closure.kind {
        ExprKind::Closure { body, .. } => match body {
            ClosureBody::Expr(expression) => removable(env, *expression, true),
            ClosureBody::Block(block) => block_removable(env, block, true),
        },
        _ => false,
    }
}

/// Whether a block has no effect. In a closure a `return` is none.
pub open spec fn block_removable(env: EnvModel, block: Block, in_closure: bool) -> bool
    decreases block, 0int, 0int,
{
    stmts_removable(env, block.stmts@, 0, in_closure) && match block.tail {
        Some(tail) => removable(env, *tail, in_closure),
        None => true,
    }
}

pub open spec fn stmts_removable(env: EnvModel, stmts: Seq<Stmt>, from: int, in_closure: bool) -> bool
    decreases stmts, 0int, stmts.len() - from,
{
    if from < 0 || from >= stmts.len() {
        true
    } else {
        stmt_removable(env, stmts[from], in_closure) && stmts_removable(env, stmts, from + 1, in_closure)
    }
}

pub open spec fn stmt_removable(env: EnvModel, statement: Stmt, in_closure: bool) -> bool
    decreases statement, 0int, 0int,
{
    match statement {
        Stmt::Let { init, .. } => removable(env, init, in_closure),
        Stmt::Expr(init) => removable(env, init, in_closure),
        Stmt::Return(value) => in_closure && match value {
            Some(value) => removable(env, value, in_closure),
            None => true,
        },
        _ => false,
    }
}

pub open spec fn list_removable(env: EnvModel, list: Seq<Expr>, from: int, in_closure: bool) -> bool
    decreases list, 0int, list.len() - from,
{
    if from < 0 || from >= list.len() {
        true
    } else {
        removable(env, list[from], in_closure) && list_removable(env, list, from + 1, in_closure)
    }
}

pub open spec fn fields_removable(
    env: EnvModel,
    list: Seq<(String, Expr)>,
    from: int,
    in_closure: bool,
) -> bool
    decreases list, 0int, list.len() - from,
{
    if from < 0 || from >= list.len() {
        true
    } else {
        removable(env, list[from].1, in_closure) && fields_removable(env, list, from + 1, in_closure)
    }
}

pub open spec fn pairs_removable(
    env: EnvModel,
    list: Seq<(Expr, Expr)>,
    from: int,
    in_closure: bool,
) -> bool
    decreases list, 0int, list.len() - from,
{
    if from < 0 || from >= list.len() {
        true
    } else {
        removable(env, list[from].0, in_closure) && removable(env, list[from].1, in_closure)
            && pairs_removable(env, list, from + 1, in_closure)
    }
}

/// Whether the adapters from `i` on have no effect.
pub open spec fn adapters_removable(env: EnvModel, e: Expr, plan: IterPlan, i: int) -> bool
    decreases e, 0int, plan.adapters@.len() - i,
{
    if i < 0 || i >= plan.adapters@.len() {
        true
    } else {
        let args = adapter_args(e, plan, true, i);
        proof {
            if args.len() > 0 {
                lemma_args_at(e, (adapters_end(plan, true) - 1 - i) as nat, 0);
            }
        }
        (match plan.adapters@[i] {
            IterAdapterKind::Enumerate => true,
            IterAdapterKind::Skip | IterAdapterKind::Take => args.len() > 0 && removable(
                env,
                args[0],
                false,
            ),
            _ => args.len() > 0 && closure_removable(env, args[0]),
        }) && adapters_removable(env, e, plan, i + 1)
    }
}

/// Whether an iterator chain has no effect.
pub open spec fn iterator_removable(env: EnvModel, e: Expr, plan: IterPlan) -> bool
    decreases e, 1int, 0int,
{
    match chain_source(e, plan, true) {
        None => false,
        Some(source) => {
            let from = source_args(e, plan, true);
            let last = consumer_args(e, true);
            proof {
                lemma_descend(e, source_depth(plan, true));
                if from.len() > 0 {
                    lemma_args_list(e, adapters_end(plan, true));
                }
                if last.len() > 0 {
                    lemma_args_at(e, 0, 0);
                }
                if last.len() > 1 {
                    lemma_args_at(e, 0, 1);
                }
            }
            &&& removable(env, source, false)
            &&& (from.len() > 0 ==> list_removable(env, from, 0, false))
            &&& adapters_removable(env, e, plan, 0)
            &&& match plan.consumer {
                IterConsumerKind::For => false,
                IterConsumerKind::CollectVec
                | IterConsumerKind::Count
                | IterConsumerKind::Next => true,
                IterConsumerKind::Fold => last.len() == 2 && removable(env, last[0], false)
                    && closure_removable(env, last[1]),
                IterConsumerKind::Any
                | IterConsumerKind::All
                | IterConsumerKind::Find => last.len() > 0 && closure_removable(env, last[0]),
            }
        },
    }
}

/// Whether computing an expression has no effect and cannot fail.
pub open spec fn removable(env: EnvModel, e: Expr, in_closure: bool) -> bool
    decreases e, 2int, 0int,
{
    match env.program.types.iter_plans.at(e.id) {
        Some(plan) => iterator_removable(env, e, plan),
        None => match e.kind {
            ExprKind::Int(_)
            | ExprKind::Float(_)
            | ExprKind::Str(_)
            | ExprKind::Bool(_)
            | ExprKind::Path(_) => true,
            ExprKind::Closure { .. } => true,
            ExprKind::VecLit(elements) => list_removable(env, elements@, 0, in_closure),
            ExprKind::Unary { expr, .. } => env.program.types.pure_operators@.contains(e.id)
                && removable(env, *expr, in_closure),
            ExprKind::Binary { op, lhs, rhs } => {
                let divides = op == BinOp::Div || op == BinOp::Rem;
                let safe = !divides || (rhs.kind matches ExprKind::Int(source) && literal_value(
                    source@,
                ) matches Some(value) && value != 0);
                &&& safe
                &&& env.program.types.pure_operators@.contains(e.id)
                &&& removable(env, *lhs, in_closure)
                &&& removable(env, *rhs, in_closure)
            },
            ExprKind::Call { callee, args } => (constructs(env, *callee) || (
            callee.kind is Closure && closure_removable(env, *callee))) && list_removable(
                env,
                args@,
                0,
                in_closure,
            ),
            ExprKind::MethodCall { recv, method, args, .. } => if env.program.types.option_maps@.contains(
                e.id,
            ) {
                removable(env, *recv, in_closure) && args@.len() > 0 && closure_removable(
                    env,
                    args@[0],
                )
            } else if env.program.types.str_methods@.contains(e.id) && plain_str_method(method@) {
                removable(env, *recv, in_closure) && list_removable(env, args@, 0, in_closure)
            } else {
                false
            },
            ExprKind::StructLit { fields, .. } => fields_removable(env, fields@, 0, in_closure),
            ExprKind::MapLit(entries) => pairs_removable(env, entries@, 0, in_closure),
            ExprKind::Range { start, end, .. } => removable(env, *start, in_closure) && removable(
                env,
                *end,
                in_closure,
            ),
            ExprKind::If { cond, then_block, else_block } => removable(env, *cond, in_closure)
                && block_removable(env, then_block, in_closure) && match else_block {
                Some(branch) => match *branch {
                    ElseBranch::Block(block) => block_removable(env, block, in_closure),
                    ElseBranch::If(inner) => removable(env, inner, in_closure),
                },
                None => true,
            },
            ExprKind::Block(block) => block_removable(env, block, in_closure),
            _ => false,
        },
    }
}

fn closure_invocation_is_removable(env: &Env, closure: &Expr) -> (r: bool)
    ensures
        r == closure_removable(env@, *closure),
    decreases *closure, 3int, 0int,
{
    match &closure.kind {
        ExprKind::Closure { body, .. } => match body {
            ClosureBody::Expr(expression) => expression_is_removable_with_returns(
                env,
                expression,
                true,
            ),
            ClosureBody::Block(block) => block_is_removable(env, block, true),
        },
        _ => false,
    }
}

fn block_is_removable(env: &Env, block: &Block, in_closure: bool) -> (r: bool)
    ensures
        r == block_removable(env@, *block, in_closure),
    decreases *block, 0int, 0int,
{
    let mut i: usize = 0;
    while i < block.stmts.len()
        invariant
            i <= block.stmts.len(),
            stmts_removable(env@, block.stmts@, i as int, in_closure) == stmts_removable(
                env@,
                block.stmts@,
                0,
                in_closure,
            ),
        decreases block.stmts.len() - i,
    {
        if !stmt_is_removable(env, &block.stmts[i], in_closure) {
            return false;
        }
        i += 1;
    }
    match &block.tail {
        Some(tail) => expression_is_removable_with_returns(env, tail, in_closure),
        None => true,
    }
}

fn stmt_is_removable(env: &Env, statement: &Stmt, in_closure: bool) -> (r: bool)
    ensures
        r == stmt_removable(env@, *statement, in_closure),
    decreases *statement, 0int, 0int,
{
    match statement {
        Stmt::Let { init, .. } => expression_is_removable_with_returns(env, init, in_closure),
        Stmt::Expr(init) => expression_is_removable_with_returns(env, init, in_closure),
        Stmt::Return(value) => in_closure && match value {
            Some(value) => expression_is_removable_with_returns(env, value, in_closure),
            None => true,
        },
        _ => false,
    }
}

fn list_is_removable(env: &Env, list: &Vec<Expr>, in_closure: bool) -> (r: bool)
    ensures
        r == list_removable(env@, list@, 0, in_closure),
    decreases *list, 0int, 0int,
{
    let mut i: usize = 0;
    while i < list.len()
        invariant
            i <= list.len(),
            list_removable(env@, list@, i as int, in_closure) == list_removable(
                env@,
                list@,
                0,
                in_closure,
            ),
        decreases list.len() - i,
    {
        if !expression_is_removable_with_returns(env, &list[i], in_closure) {
            return false;
        }
        i += 1;
    }
    true
}

fn fields_are_removable(env: &Env, list: &Vec<(String, Expr)>, in_closure: bool) -> (r: bool)
    ensures
        r == fields_removable(env@, list@, 0, in_closure),
    decreases *list, 0int, 0int,
{
    let mut i: usize = 0;
    while i < list.len()
        invariant
            i <= list.len(),
            fields_removable(env@, list@, i as int, in_closure) == fields_removable(
                env@,
                list@,
                0,
                in_closure,
            ),
        decreases list.len() - i,
    {
        if !expression_is_removable_with_returns(env, &list[i].1, in_closure) {
            return false;
        }
        i += 1;
    }
    true
}

fn pairs_are_removable(env: &Env, list: &Vec<(Expr, Expr)>, in_closure: bool) -> (r: bool)
    ensures
        r == pairs_removable(env@, list@, 0, in_closure),
    decreases *list, 0int, 0int,
{
    let mut i: usize = 0;
    while i < list.len()
        invariant
            i <= list.len(),
            pairs_removable(env@, list@, i as int, in_closure) == pairs_removable(
                env@,
                list@,
                0,
                in_closure,
            ),
        decreases list.len() - i,
    {
        if !expression_is_removable_with_returns(env, &list[i].0, in_closure)
            || !expression_is_removable_with_returns(env, &list[i].1, in_closure) {
            return false;
        }
        i += 1;
    }
    true
}

fn iterator_is_removable(env: &Env, e: &Expr, plan: &IterPlan) -> (r: bool)
    requires
        source_depth(*plan, true) <= usize::MAX,
    ensures
        r == iterator_removable(env@, *e, *plan),
    decreases *e, 1int, 0int,
{
    let n: usize = plan.adapters.len();
    let call = match plan.source {
        IterSourceKind::VecIter => true,
        IterSourceKind::VecIntoIter => true,
        IterSourceKind::StringChars => true,
        IterSourceKind::StringSplit => true,
        _ => false,
    };
    let depth: usize = if call {
        n + 2
    } else {
        n + 1
    };
    let source = match nth_receiver(e, depth) {
        Some(source) => source,
        None => {
            return false;
        },
    };
    proof {
        lemma_descend(*e, depth as nat);
    }
    if !expression_is_removable_with_returns(env, source, false) {
        return false;
    }
    let text_source = match plan.source {
        IterSourceKind::StringChars => true,
        IterSourceKind::StringSplit => true,
        _ => false,
    };
    if text_source {
        match nth_receiver(e, n + 1) {
            Some(inner) => match &inner.kind {
                ExprKind::MethodCall { args, .. } => {
                    if args.len() > 0 {
                        proof {
                            lemma_descend(*e, (n + 1) as nat);
                        }
                        if !list_is_removable(env, args, false) {
                            return false;
                        }
                    }
                },
                _ => {},
            },
            None => {},
        }
    }
    let mut i: usize = 0;
    while i < n
        invariant
            i <= n,
            n == plan.adapters@.len(),
            n + 1 <= usize::MAX,
            adapters_removable(env@, *e, *plan, i as int) == adapters_removable(env@, *e, *plan, 0),
            iterator_removable(env@, *e, *plan) ==> adapters_removable(env@, *e, *plan, 0),
        decreases n - i,
    {
        let argument = nth_first_arg(e, n - i);
        proof {
            assert((adapters_end(*plan, true) - 1 - i) as nat == (n - i) as nat);
            if args_at(*e, (n - i) as nat).len() > 0 {
                lemma_args_at(*e, (n - i) as nat, 0);
            }
        }
        let fine = match plan.adapters[i] {
            IterAdapterKind::Enumerate => true,
            IterAdapterKind::Skip => match argument {
                Some(limit) => expression_is_removable_with_returns(env, limit, false),
                None => false,
            },
            IterAdapterKind::Take => match argument {
                Some(limit) => expression_is_removable_with_returns(env, limit, false),
                None => false,
            },
            _ => match argument {
                Some(closure) => closure_invocation_is_removable(env, closure),
                None => false,
            },
        };
        if !fine {
            return false;
        }
        i += 1;
    }
    let args = match &e.kind {
        ExprKind::MethodCall { args, .. } => args,
        _ => {
            return false;
        },
    };
    match plan.consumer {
        IterConsumerKind::For => false,
        IterConsumerKind::CollectVec => true,
        IterConsumerKind::Count => true,
        IterConsumerKind::Next => true,
        IterConsumerKind::Fold => args.len() == 2 && expression_is_removable_with_returns(
            env,
            &args[0],
            false,
        ) && closure_invocation_is_removable(env, &args[1]),
        _ => args.len() > 0 && closure_invocation_is_removable(env, &args[0]),
    }
}

/// Whether computing an expression has no effect and cannot fail. In a closure
/// a `return` is no effect.
pub fn expression_is_removable_with_returns(env: &Env, e: &Expr, in_closure: bool) -> (r: bool)
    ensures
        r == removable(env@, *e, in_closure),
    decreases *e, 2int, 0int,
{
    if let Some(plan) = env.program.types.iter_plans.get(&e.id) {
        if chain_depth(plan, true).is_none() {
            proof {
                assert(!iterator_removable(env@, *e, *plan));
            }
            return false;
        }
        return iterator_is_removable(env, e, plan);
    }
    match &e.kind {
        ExprKind::Int(_) => true,
        ExprKind::Float(_) => true,
        ExprKind::Str(_) => true,
        ExprKind::Bool(_) => true,
        ExprKind::Path(_) => true,
        ExprKind::Closure { .. } => true,
        ExprKind::VecLit(elements) => list_is_removable(env, elements, in_closure),
        ExprKind::Unary { expr, .. } => env.program.types.pure_operators.has(&e.id)
            && expression_is_removable_with_returns(env, expr, in_closure),
        ExprKind::Binary { op, lhs, rhs } => {
            if *op == BinOp::Div || *op == BinOp::Rem {
                let safe = match &rhs.kind {
                    ExprKind::Int(source) => match rua_int_value(source.as_str()) {
                        Some(value) => value != 0,
                        None => false,
                    },
                    _ => false,
                };
                if !safe {
                    return false;
                }
            }
            env.program.types.pure_operators.has(&e.id) && expression_is_removable_with_returns(
                env,
                lhs,
                in_closure,
            ) && expression_is_removable_with_returns(env, rhs, in_closure)
        },
        ExprKind::Call { callee, args } => {
            let closure = match &callee.kind {
                ExprKind::Closure { .. } => true,
                _ => false,
            };
            (is_construction(env, callee) || (closure && closure_invocation_is_removable(
                env,
                callee,
            ))) && list_is_removable(env, args, in_closure)
        },
        ExprKind::MethodCall { recv, method, args, .. } => {
            if env.program.types.option_maps.has(&e.id) {
                expression_is_removable_with_returns(env, recv, in_closure) && args.len() > 0
                    && closure_invocation_is_removable(env, &args[0])
            } else if env.program.types.str_methods.has(&e.id) && is_plain_str_method(
                method.as_str(),
            ) {
                expression_is_removable_with_returns(env, recv, in_closure) && list_is_removable(
                    env,
                    args,
                    in_closure,
                )
            } else {
                false
            }
        },
        ExprKind::StructLit { fields, .. } => fields_are_removable(env, fields, in_closure),
        ExprKind::MapLit(entries) => pairs_are_removable(env, entries, in_closure),
        ExprKind::Range { start, end, .. } => expression_is_removable_with_returns(
            env,
            start,
            in_closure,
        ) && expression_is_removable_with_returns(env, end, in_closure),
        ExprKind::If { cond, then_block, else_block } => {
            if !expression_is_removable_with_returns(env, cond, in_closure) || !block_is_removable(
                env,
                then_block,
                in_closure,
            ) {
                return false;
            }
            match else_block {
                Some(branch) => match &**branch {
                    ElseBranch::Block(block) => block_is_removable(env, block, in_closure),
                    ElseBranch::If(inner) => expression_is_removable_with_returns(
                        env,
                        inner,
                        in_closure,
                    ),
                },
                None => true,
            }
        },
        ExprKind::Block(block) => block_is_removable(env, block, in_closure),
        _ => false,
    }
}

/// Whether computing an expression has no effect and cannot fail.
pub fn expression_is_removable(env: &Env, e: &Expr) -> (r: bool)
    ensures
        r == removable(env@, *e, false),
{
    expression_is_removable_with_returns(env, e, false)
}

/// Whether an unused value can be computed for its effect alone.
pub open spec fn discardable(env: EnvModel, e: Expr) -> bool {
    match e.kind {
        ExprKind::Call { callee, .. } => variant_of(
            env.program.hir,
            env.program.spec_expression_target(callee.id),
        ) is None,
        ExprKind::MethodCall { .. } => true,
        ExprKind::If { .. } => true,
        ExprKind::IfLet { .. } => true,
        ExprKind::Match { .. } => true,
        ExprKind::Block(_) => true,
        ExprKind::Loop(_) => true,
        ExprKind::Assign { .. } => true,
        ExprKind::Try { .. } => true,
        _ => false,
    }
}

pub fn unused_value_can_be_discarded(env: &Env, e: &Expr) -> (r: bool)
    ensures
        r == discardable(env@, *e),
{
    match &e.kind {
        ExprKind::Call { callee, .. } => resolve_variant(
            &env.program.hir,
            env.program.expression_target(callee.id),
        ).is_none(),
        ExprKind::MethodCall { .. } => true,
        ExprKind::If { .. } => true,
        ExprKind::IfLet { .. } => true,
        ExprKind::Match { .. } => true,
        ExprKind::Block(_) => true,
        ExprKind::Loop(_) => true,
        ExprKind::Assign { .. } => true,
        ExprKind::Try { .. } => true,
        _ => false,
    }
}

} // verus!
