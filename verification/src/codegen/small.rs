//! Small Lua expressions and lists that the lowering is made of.

use vstd::prelude::*;

use super::analysis::{binop_lua, chain_depth, is_immutable_local_path, nth_receiver};
use super::lower::{
    all_of, any_of, chained, closure_params_bound, closure_scope, compound_value, eq_nil, err_of,
    folded, g_path, g_struct, g_subject, kept_bindings, keeps_length, minus_one, ne_nil, no_guards,
    no_arm_matched, ok_of, param_names, payload_of, plan_of, plus_one, positive_literal, quotient,
    raise, remainder, shorter, tag_field, tag_of, flag_of, values_as_fields, bind_inputs,
    nonnegative_literal, AdapterState, BindingModel, LoopSource, is_statement_call,
};
use super::state::{scope_model, Codegen, Dest, Env};
use super::syntax::{expression_mentions_binding, rua_int_value};
use crate::ast::{BinOp, ClosureParam, Expr, ExprId, ExprKind, MatchArm};
use crate::backend_layout::user_identifier;
use crate::builtins::{CodegenRule, CodegenRules};
use crate::hir::{DefKind, LocalId, ResolvedHir, ResolvedTarget, VariantShape};
use crate::lua_ir::{
    exprs_model, fields_model, named_model, one_expr, three_exprs, two_exprs,
    BinaryOp as LuaBinaryOp, Expr as LuaExpr, ExprModel, FieldModel, InlineStatement, TableField,
    UnaryOp as LuaUnaryOp,
};
use crate::table::Table;
use crate::text::{decimal_text, texts};
use crate::token::SourceRange;
use crate::typed::{IterAdapterKind, IterPlan};

verus! {

/// The success flag of a result.
pub fn result_is_ok(value: LuaExpr) -> (r: LuaExpr)
    ensures
        r.model() == ok_of(value.model()),
{
    value.index(LuaExpr::integer("1"))
}

/// Whether a result is a failure.
pub fn result_is_err(value: LuaExpr) -> (r: LuaExpr)
    ensures
        r.model() == err_of(value.model()),
{
    LuaExpr::unary(LuaUnaryOp::Not, result_is_ok(value))
}

/// The payload of a result.
pub fn result_payload(value: LuaExpr) -> (r: LuaExpr)
    ensures
        r.model() == payload_of(value.model()),
{
    value.index(LuaExpr::integer("2"))
}

pub fn is_nil(value: LuaExpr) -> (r: LuaExpr)
    ensures
        r.model() == eq_nil(value.model()),
{
    value.binary(LuaBinaryOp::Eq, LuaExpr::Nil)
}

pub fn is_not_nil(value: LuaExpr) -> (r: LuaExpr)
    ensures
        r.model() == ne_nil(value.model()),
{
    value.binary(LuaBinaryOp::Ne, LuaExpr::Nil)
}

pub fn one_more(value: LuaExpr) -> (r: LuaExpr)
    ensures
        r.model() == plus_one(value.model()),
{
    value.binary(LuaBinaryOp::Add, LuaExpr::integer("1"))
}

pub fn one_less(value: LuaExpr) -> (r: LuaExpr)
    ensures
        r.model() == minus_one(value.model()),
{
    value.binary(LuaBinaryOp::Sub, LuaExpr::integer("1"))
}

/// A name expression for a name that is already a Lua name.
pub fn named(name: &str) -> (r: LuaExpr)
    ensures
        r.model() == ExprModel::Name(name@),
{
    LuaExpr::Name(name.to_string())
}

/// The count field `n` of a vector.
pub fn length_of(value: LuaExpr) -> (r: LuaExpr)
    ensures
        r.model() == crate::lua_ir::m_field(value.model(), "n"@),
{
    LuaExpr::Field { base: Box::new(value), name: "n".to_string() }
}

/// The `tag` field of a variant.
pub fn tag_read(value: LuaExpr) -> (r: LuaExpr)
    ensures
        r.model() == crate::lua_ir::m_field(value.model(), "tag"@),
{
    LuaExpr::Field { base: Box::new(value), name: "tag".to_string() }
}

/// A call of `error`.
pub fn error_call(arguments: Vec<LuaExpr>) -> (r: LuaExpr)
    ensures
        r.model() == raise(exprs_model(arguments@)),
{
    named("error").call(arguments)
}

/// The failure of a match without a matching arm.
pub fn non_exhaustive_match() -> (r: LuaExpr)
    ensures
        r.model() == no_arm_matched(),
{
    error_call(one_expr(LuaExpr::string("non-exhaustive match")))
}

/// An inline `return` of one value.
pub fn return_inline(value: LuaExpr) -> (r: InlineStatement)
    ensures
        r.model() == crate::lua_ir::InlineModel::Return(seq![value.model()]),
{
    InlineStatement::Return(one_expr(value))
}

/// Whether the Lua expression can stand as a statement.
pub fn statement_call(e: &LuaExpr) -> (r: bool)
    ensures
        r == is_statement_call(e.model()),
{
    match e {
        LuaExpr::Call { .. } => true,
        LuaExpr::MethodCall { .. } => true,
        _ => false,
    }
}

/// Joins expressions by an operator.
fn chain(op: LuaBinaryOp, list: &Vec<LuaExpr>) -> (r: LuaExpr)
    requires
        list@.len() > 0,
    ensures
        r.model() == chained(op, exprs_model(list@), list@.len() as int),
{
    let ghost model = exprs_model(list@);
    let mut out = list[0].copy();
    let mut i: usize = 1;
    proof {
        assert(model[0] == list@[0].model());
    }
    while i < list.len()
        invariant
            1 <= i <= list.len(),
            model == exprs_model(list@),
            out.model() == chained(op, model, i as int),
        decreases list.len() - i,
    {
        out = out.binary(op, list[i].copy());
        proof {
            assert(model[i as int] == list@[i as int].model());
        }
        i += 1;
    }
    out
}

/// All tests hold.
pub fn and_all(list: &Vec<LuaExpr>) -> (r: LuaExpr)
    ensures
        r.model() == all_of(exprs_model(list@)),
{
    proof {
        assert(exprs_model(list@).len() == list@.len());
    }
    if list.len() == 0 {
        LuaExpr::Bool(true)
    } else {
        chain(LuaBinaryOp::And, list)
    }
}

/// Some test holds.
pub fn or_all(list: &Vec<LuaExpr>) -> (r: LuaExpr)
    ensures
        r.model() == any_of(exprs_model(list@)),
{
    proof {
        assert(exprs_model(list@).len() == list@.len());
    }
    if list.len() == 0 {
        LuaExpr::Bool(false)
    } else {
        chain(LuaBinaryOp::Or, list)
    }
}

/// Positional table fields, after the given ones.
pub fn append_values(fields: &mut Vec<TableField>, values: Vec<LuaExpr>)
    ensures
        fields_model(final(fields)@) == fields_model(old(fields)@) + values_as_fields(
            exprs_model(values@),
        ),
{
    let ghost start = fields@;
    let ghost all = values@;
    for value in it: values
        invariant
            it.seq() == all,
            fields@.len() == start.len() + it.index(),
            forall|i: int| 0 <= i < start.len() ==> #[trigger] fields@[i] == start[i],
            forall|i: int|
                start.len() <= i < fields@.len() ==> #[trigger] fields@[i] == TableField::Value(
                    all[i - start.len()],
                ),
    {
        fields.push(TableField::Value(value));
    }
    proof {
        assert(fields_model(fields@) =~= fields_model(start) + values_as_fields(exprs_model(all)));
    }
}

/// Appends one field.
pub fn append_field(fields: &mut Vec<TableField>, field: TableField)
    ensures
        fields_model(final(fields)@) == fields_model(old(fields)@).push(field.model()),
{
    fields.push(field);
    proof {
        assert(fields_model(fields@) =~= fields_model(old(fields)@).push(field.model()));
    }
}

/// No fields.
pub fn no_fields() -> (r: Vec<TableField>)
    ensures
        fields_model(r@) == Seq::<FieldModel>::empty(),
{
    let r: Vec<TableField> = Vec::new();
    proof {
        assert(fields_model(r@) =~= Seq::<FieldModel>::empty());
    }
    r
}

/// The tag field of a variant.
pub fn tag_entry(name: &str) -> (r: TableField)
    ensures
        r.model() == tag_field(name@),
{
    TableField::Named("tag".to_string(), LuaExpr::string(name))
}

/// The value of a division or remainder of two literals, where it has one.
pub fn fold_literals(env: &Env, e: &Expr) -> (r: Option<i64>)
    ensures
        match r {
            Some(value) => folded(env@, *e) == Some(value as int),
            None => folded(env@, *e) is None,
        },
{
    let (op, lhs, rhs) = match &e.kind {
        ExprKind::Binary { op, lhs, rhs } => (*op, lhs, rhs),
        _ => {
            return None;
        },
    };
    let left = match &lhs.kind {
        ExprKind::Int(source) => rua_int_value(source.as_str()),
        _ => {
            return None;
        },
    };
    let right = match &rhs.kind {
        ExprKind::Int(source) => rua_int_value(source.as_str()),
        _ => {
            return None;
        },
    };
    match (left, right) {
        (Some(left), Some(right)) => {
            if right == 0 || (left == i64::MIN && right == -1) {
                None
            } else if op == BinOp::Div && env.program.types.int_divs.has(&e.id) {
                Some(truncated_quotient(left, right))
            } else if op == BinOp::Rem && env.program.types.int_rems.has(&e.id) {
                Some(truncated_remainder(left, right))
            } else {
                None
            }
        },
        _ => None,
    }
}

fn magnitude(value: i64) -> (r: u64)
    ensures
        r == if value < 0 {
            -(value as int)
        } else {
            value as int
        },
{
    if value == i64::MIN {
        9223372036854775808
    } else if value < 0 {
        (-value) as u64
    } else {
        value as u64
    }
}

fn truncated_quotient(left: i64, right: i64) -> (r: i64)
    requires
        right != 0,
        !(left == i64::MIN && right == -1),
    ensures
        r == quotient(left as int, right as int),
{
    let a = magnitude(left);
    let b = magnitude(right);
    let q: u64 = a / b;
    proof {
        assert(0 <= q <= a) by (nonlinear_arith)
            requires
                q == a / b,
                b >= 1,
                a >= 0,
        ;
        if a == 9223372036854775808 && b >= 2 {
            assert(q <= 4611686018427387904) by (nonlinear_arith)
                requires
                    q == a / b,
                    b >= 2,
                    a == 9223372036854775808,
            ;
        }
    }
    if (left < 0) == (right < 0) {
        q as i64
    } else if q == 9223372036854775808 {
        i64::MIN
    } else {
        -(q as i64)
    }
}

fn truncated_remainder(left: i64, right: i64) -> (r: i64)
    requires
        right != 0,
    ensures
        r == remainder(left as int, right as int),
{
    let a = magnitude(left);
    let b = magnitude(right);
    let m: u64 = a % b;
    proof {
        assert(0 <= m < b) by (nonlinear_arith)
            requires
                m == a % b,
                b >= 1,
                a >= 0,
        ;
    }
    if left < 0 {
        -(m as i64)
    } else {
        m as i64
    }
}

/// Whether an expression is a literal above zero.
pub fn is_positive_literal(e: &Expr) -> (r: bool)
    ensures
        r == positive_literal(*e),
{
    match &e.kind {
        ExprKind::Int(source) => match rua_int_value(source.as_str()) {
            Some(value) => value > 0,
            None => false,
        },
        _ => false,
    }
}

/// Whether an expression is a literal that is not negative.
pub fn is_nonnegative_literal(e: &Expr) -> (r: bool)
    ensures
        r == nonnegative_literal(*e),
{
    match &e.kind {
        ExprKind::Int(source) => match rua_int_value(source.as_str()) {
            Some(value) => value >= 0,
            None => false,
        },
        _ => false,
    }
}

/// The plan of an iterator chain that ends in a consumer.
pub fn consumer_plan<'a>(env: &Env<'a>, e: &Expr) -> (r: Option<&'a IterPlan>)
    ensures
        match r {
            Some(plan) => plan_of(env@, *e) == Some(*plan),
            None => plan_of(env@, *e) is None,
        },
{
    match env.program.types.iter_plans.get(&e.id) {
        Some(plan) => match chain_depth(plan, true) {
            Some(depth) => match nth_receiver(e, depth) {
                Some(_) => Some(plan),
                None => None,
            },
            None => None,
        },
        None => None,
    }
}

/// Whether the adapters keep the number of items.
pub fn preserves_length(adapters: &Vec<IterAdapterKind>) -> (r: bool)
    ensures
        r == keeps_length(adapters@),
{
    let mut i: usize = 0;
    while i < adapters.len()
        invariant
            i <= adapters.len(),
            forall|k: int|
                0 <= k < i ==> #[trigger] adapters@[k] == IterAdapterKind::MapItems || adapters@[k]
                    == IterAdapterKind::Enumerate,
        decreases adapters.len() - i,
    {
        if adapters[i] != IterAdapterKind::MapItems && adapters[i] != IterAdapterKind::Enumerate {
            proof {
                let kind = adapters@[i as int];
                assert(kind != IterAdapterKind::MapItems);
            }
            return false;
        }
        i += 1;
    }
    true
}

/// Whether no arm has a guard.
pub fn without_guards(arms: &Vec<MatchArm>) -> (r: bool)
    ensures
        r == no_guards(arms@),
{
    let mut i: usize = 0;
    while i < arms.len()
        invariant
            i <= arms.len(),
            forall|k: int| 0 <= k < i ==> (#[trigger] arms@[k]).guard is None,
        decreases arms.len() - i,
    {
        if arms[i].guard.is_some() {
            proof {
                assert(arms@[i as int].guard is Some);
            }
            return false;
        }
        i += 1;
    }
    true
}

/// A name that a pattern binds to a part of its subject.
#[derive(Debug)]
pub struct PatternBinding {
    pub name: String,
    pub source: SourceRange,
    pub value: LuaExpr,
}

impl PatternBinding {
    pub open spec fn model(self) -> BindingModel {
        BindingModel { name: self.name@, source: self.source, value: self.value.model() }
    }
}

/// The bindings over mathematical trees.
pub open spec fn bindings_model(list: Seq<PatternBinding>) -> Seq<BindingModel> {
    Seq::new(list.len(), |i: int| list[i].model())
}

/// Appends a binding.
pub fn push_binding(list: &mut Vec<PatternBinding>, binding: PatternBinding)
    ensures
        bindings_model(final(list)@) == bindings_model(old(list)@).push(binding.model()),
{
    list.push(binding);
    proof {
        assert(bindings_model(list@) =~= bindings_model(old(list)@).push(binding.model()));
    }
}

/// The bindings that an arm reads.
pub fn read_bindings(arm: &MatchArm, bindings: Vec<PatternBinding>) -> (r: Vec<PatternBinding>)
    ensures
        bindings_model(r@) == kept_bindings(*arm, bindings_model(bindings@)),
{
    let mut out: Vec<PatternBinding> = Vec::new();
    let ghost all = bindings@;
    let ghost model = bindings_model(bindings@);
    proof {
        assert(bindings_model(out@) =~= kept_bindings(*arm, model.take(0)));
    }
    for binding in it: bindings
        invariant
            it.seq() == all,
            model == bindings_model(all),
            bindings_model(out@) == kept_bindings(*arm, model.take(it.index())),
    {
        proof {
            let head = model.take(it.index() + 1);
            assert(head.last() == binding.model());
            assert(head.drop_last() =~= model.take(it.index()));
        }
        let in_guard = match &arm.guard {
            Some(guard) => expression_mentions_binding(guard, binding.name.as_str()),
            None => false,
        };
        if in_guard || expression_mentions_binding(&arm.body, binding.name.as_str()) {
            push_binding(&mut out, binding);
        }
    }
    proof {
        assert(model.take(all.len() as int) =~= model);
    }
    out
}

/// The tag of a subject, from a variable where it has been read before.
pub fn read_tag(cached: &Option<LuaExpr>, subject: &LuaExpr) -> (r: LuaExpr)
    ensures
        r.model() == tag_of(cached_model(*cached), subject.model()),
{
    match cached {
        Some(tag) => tag.copy(),
        None => tag_read(subject.copy()),
    }
}

/// The success flag of a subject, from a variable where it has been read before.
pub fn read_flag(cached: &Option<LuaExpr>, subject: &LuaExpr) -> (r: LuaExpr)
    ensures
        r.model() == flag_of(cached_model(*cached), subject.model()),
{
    match cached {
        Some(tag) => tag.copy(),
        None => result_is_ok(subject.copy()),
    }
}

/// A cached tag over mathematical trees.
pub open spec fn cached_model(cached: Option<LuaExpr>) -> Option<ExprModel> {
    match cached {
        Some(tag) => Some(tag.model()),
        None => None,
    }
}

/// What the generated loop of an iterator chain runs over.
#[derive(Debug)]
pub enum IterLoopSource {
    Range { start: String, end: String, inclusive: bool },
    Items { holder: LuaExpr },
}

impl IterLoopSource {
    pub open spec fn model(self) -> LoopSource {
        match self {
            IterLoopSource::Range { start, end, inclusive } => LoopSource::Range {
                start: start@,
                end: end@,
                inclusive,
            },
            IterLoopSource::Items { holder } => LoopSource::Items { holder: holder.model() },
        }
    }
}

/// The counter and the limit of an adapter.
#[derive(Debug)]
pub struct IterAdapterState {
    pub counter: String,
    pub limit: String,
}

impl IterAdapterState {
    pub open spec fn model(self) -> AdapterState {
        AdapterState { counter: self.counter@, limit: self.limit@ }
    }
}

/// The states over mathematical texts.
pub open spec fn states_model(list: Seq<IterAdapterState>) -> Seq<AdapterState> {
    Seq::new(list.len(), |i: int| list[i].model())
}

/// An optional text over mathematical texts.
pub open spec fn text_option(text: Option<&str>) -> Option<Seq<char>> {
    match text {
        Some(text) => Some(text@),
        None => None,
    }
}

impl Codegen {
    /// The Lua names of closure parameters.
    pub fn closure_params(&self, params: &Vec<ClosureParam>) -> (r: Vec<String>)
        ensures
            texts(r@) == param_names(self@, params@),
    {
        let mut out: Vec<String> = Vec::new();
        let mut i: usize = 0;
        while i < params.len()
            invariant
                i <= params.len(),
                out@.len() == i,
                forall|k: int|
                    0 <= k < i ==> (#[trigger] out@[k])@ == self@.local_name(params@[k].name@),
            decreases params.len() - i,
        {
            out.push(self.local_name(params[i].name.as_str()));
            i += 1;
        }
        proof {
            assert(texts(out@) =~= param_names(self@, params@));
        }
        out
    }

    /// The replacements of closure parameters by its inputs.
    pub fn push_closure_scope(
        &mut self,
        hir: &ResolvedHir,
        params: &Vec<ClosureParam>,
        inputs: &Vec<LuaExpr>,
    )
        ensures
            final(self)@ == ({
                let model = exprs_model(inputs@);
                let n = shorter(params@.len(), model.len());
                let st = if closure_params_bound(*hir, params@, model, n) {
                    old(self)@
                } else {
                    old(self)@.fault()
                };
                st.push_scope(closure_scope(*hir, params@, model, n))
            }),
            final(self)@.lua == old(self)@.lua,
    {
        let ghost model = exprs_model(inputs@);
        let mut scope: Table<LocalId, LuaExpr> = Table::new();
        let mut bound = true;
        let mut i: usize = 0;
        proof {
            assert(model.len() == inputs@.len());
            assert(scope_model(scope) =~= Map::empty());
        }
        while i < params.len() && i < inputs.len()
            invariant
                i <= params.len(),
                i <= inputs.len(),
                model == exprs_model(inputs@),
                model.len() == inputs@.len(),
                scope_model(scope) == closure_scope(*hir, params@, model, i as int),
                bound == closure_params_bound(*hir, params@, model, i as int),
            decreases params.len() - i,
        {
            proof {
                assert(model[i as int] == inputs@[i as int].model());
            }
            match hir.binding_targets.get(&params[i].name_span) {
                Some(local) => {
                    let ghost before = scope;
                    let value = inputs[i].copy();
                    let _ = scope.insert(*local, value);
                    proof {
                        crate::table::lemma_insert_at(before, scope, *local, value);
                        assert(scope_model(scope) =~= scope_model(before).insert(
                            *local,
                            model[i as int],
                        ));
                    }
                },
                None => {
                    bound = false;
                },
            }
            i += 1;
        }
        if !bound {
            self.fault();
        }
        self.push_scope(scope);
    }

    /// Locals for closure parameters, set to its inputs.
    pub fn bind_closure_inputs(&mut self, params: &Vec<ClosureParam>, inputs: &Vec<LuaExpr>)
        ensures
            final(self)@ == bind_inputs(old(self)@, params@, exprs_model(inputs@), 0),
            final(self)@.lua.shape() == old(self)@.lua.shape(),
    {
        let ghost model = exprs_model(inputs@);
        let ghost start = self@;
        let mut i: usize = 0;
        proof {
            assert(model.len() == inputs@.len());
        }
        while i < params.len() && i < inputs.len()
            invariant
                i <= params.len(),
                i <= inputs.len(),
                model == exprs_model(inputs@),
                model.len() == inputs@.len(),
                bind_inputs(self@, params@, model, i as int) == bind_inputs(
                    start,
                    params@,
                    model,
                    0,
                ),
                self@.lua.shape() == start.lua.shape(),
            decreases params.len() - i,
        {
            proof {
                assert(model[i as int] == inputs@[i as int].model());
            }
            let name = self.local_name(params[i].name.as_str());
            self.local(name.as_str(), inputs[i].copy());
            i += 1;
        }
    }

    /// Locals for the names that a pattern binds.
    pub fn emit_pattern_bindings(&mut self, hir: &ResolvedHir, bindings: &Vec<PatternBinding>)
        ensures
            final(self)@ == old(self)@.bind_patterns(*hir, bindings_model(bindings@), 0),
            final(self)@.lua.shape() == old(self)@.lua.shape(),
    {
        let ghost model = bindings_model(bindings@);
        let ghost start = self@;
        let mut i: usize = 0;
        while i < bindings.len()
            invariant
                i <= bindings.len(),
                model == bindings_model(bindings@),
                self@.bind_patterns(*hir, model, i as int) == start.bind_patterns(*hir, model, 0),
                self@.lua.shape() == start.lua.shape(),
            decreases bindings.len() - i,
        {
            proof {
                assert(model[i as int] == bindings@[i as int].model());
            }
            let binding = &bindings[i];
            let replaced = match &binding.value {
                LuaExpr::Name(_) => true,
                _ => false,
            };
            if replaced {
                self.bind_local_substitution(hir, binding.source, binding.value.copy());
            } else {
                let name = self.local_name(binding.name.as_str());
                self.local(name.as_str(), binding.value.copy());
            }
            i += 1;
        }
    }

    /// What a path becomes.
    pub fn gen_path(&mut self, env: &Env, e: &Expr) -> (r: LuaExpr)
        ensures
            (final(self)@, r.model()) == g_path(env@, old(self)@, *e),
            final(self)@.lua == old(self)@.lua,
    {
        let hir = &env.program.hir;
        let target = env.program.expression_target(e.id);
        if let ResolvedTarget::Local(local) = target {
            if let Some(value) = self.replacement(local) {
                return value;
            }
        }
        if let ResolvedTarget::Builtin(builtin) = target {
            let rules = CodegenRules {  };
            if let Some(CodegenRule::Nil) = rules.get(builtin) {
                return LuaExpr::Nil;
            }
        }
        match super::analysis::resolve_variant(hir, target) {
            Some((owner, variant, VariantShape::Unit)) => {
                let mut fields = no_fields();
                append_field(&mut fields, tag_entry(hir.definition(variant).name.as_str()));
                proof {
                    assert(fields_model(fields@) =~= seq![
                        tag_field(hir.spec_definition(variant).name@),
                    ]);
                }
                self.attach_metatable(env, owner, LuaExpr::Table(fields))
            },
            _ => match self.target_place(env, target) {
                Some(place) => place.expression(),
                None => {
                    self.fault();
                    LuaExpr::Nil
                },
            },
        }
    }

    /// The value of a compound assignment.
    pub fn compound_value(
        &mut self,
        env: &Env,
        id: ExprId,
        op: BinOp,
        lhs: LuaExpr,
        rhs: LuaExpr,
    ) -> (r: LuaExpr)
        ensures
            (final(self)@, r.model()) == compound_value(
                env@,
                old(self)@,
                id,
                op,
                lhs.model(),
                rhs.model(),
            ),
            final(self)@.lua == old(self)@.lua,
    {
        let types = &env.program.types;
        if op == BinOp::Div && types.int_divs.has(&id) {
            return self.helper_call(&env.program.hir, "number", "idiv", two_exprs(lhs, rhs));
        }
        if op == BinOp::Rem && types.int_rems.has(&id) {
            return self.helper_call(&env.program.hir, "number", "irem", two_exprs(lhs, rhs));
        }
        if op == BinOp::Add && types.str_concats.has(&id) {
            return lhs.binary(LuaBinaryOp::Concat, rhs).parenthesized();
        }
        match binop_lua(op) {
            Some(operator) => lhs.binary(operator, rhs),
            None => {
                self.fault();
                LuaExpr::Nil
            },
        }
    }

    /// The subject of a pattern: a variable that never changes, or a temporary.
    pub fn pattern_subject(&mut self, env: &Env, e: &Expr, value: LuaExpr) -> (r: LuaExpr)
        ensures
            (final(self)@, r.model()) == g_subject(env@, old(self)@, *e, value.model()),
            final(self)@.lua.shape() == old(self)@.lua.shape(),
    {
        if is_immutable_local_path(env, e) {
            return value;
        }
        let temporary = self.fresh_tmp();
        self.local(temporary.as_str(), value);
        LuaExpr::Name(temporary)
    }

    /// A struct or struct variant with these fields.
    pub fn struct_value(&mut self, env: &Env, e: &Expr, values: Vec<(String, LuaExpr)>) -> (r:
        LuaExpr)
        ensures
            (final(self)@, r.model()) == g_struct(env@, old(self)@, *e, named_model(values@)),
            final(self)@.lua == old(self)@.lua,
    {
        let hir = &env.program.hir;
        let target = env.program.expression_target(e.id);
        match super::analysis::resolve_variant(hir, target) {
            Some((owner, variant, VariantShape::Struct)) => {
                let tag = LuaExpr::string(hir.definition(variant).name.as_str());
                let mut fields: Vec<(String, LuaExpr)> = Vec::new();
                fields.push(("tag".to_string(), tag));
                let ghost first = fields@;
                let ghost all = values@;
                for value in it: values
                    invariant
                        it.seq() == all,
                        fields@ == first + all.take(it.index()),
                {
                    fields.push(value);
                    proof {
                        assert(fields@ =~= first + all.take(it.index() + 1));
                    }
                }
                proof {
                    assert(all.take(all.len() as int) =~= all);
                    assert(named_model(fields@) =~= seq![("tag"@, tag.model())] + named_model(all));
                }
                self.attach_metatable(env, owner, LuaExpr::named_table(fields))
            },
            _ => {
                let owner = match target {
                    ResolvedTarget::Item(definition) => match hir.find_definition(definition) {
                        Some(data) => match data.kind {
                            DefKind::Struct => Some(definition),
                            _ => None,
                        },
                        None => None,
                    },
                    _ => None,
                };
                let value = LuaExpr::named_table(values);
                match owner {
                    Some(owner) => self.attach_metatable(env, owner, value),
                    None => value,
                }
            },
        }
    }

    /// A vector literal.
    pub fn vec_value(&mut self, hir: &ResolvedHir, values: Vec<LuaExpr>, length: usize) -> (r:
        LuaExpr)
        ensures
            (final(self)@, r.model()) == old(self)@.vec_value(
                *hir,
                exprs_model(values@),
                length as nat,
            ),
            final(self)@.lua == old(self)@.lua,
    {
        let mut fields = no_fields();
        append_values(&mut fields, values);
        proof {
            assert(fields_model(fields@) =~= values_as_fields(exprs_model(values@)));
        }
        append_field(
            &mut fields,
            TableField::Named("n".to_string(), LuaExpr::Integer(decimal_text(length as u64))),
        );
        self.standard_call(hir, "std::vec", "from_table", one_expr(LuaExpr::Table(fields)))
    }

    /// A range value.
    pub fn range_value(
        &mut self,
        hir: &ResolvedHir,
        start: LuaExpr,
        end: LuaExpr,
        inclusive: bool,
    ) -> (r: LuaExpr)
        ensures
            (final(self)@, r.model()) == old(self)@.range_value(
                *hir,
                start.model(),
                end.model(),
                inclusive,
            ),
            final(self)@.lua == old(self)@.lua,
    {
        self.standard_call(
            hir,
            "std::iter",
            "range",
            three_exprs(start, end, LuaExpr::Bool(inclusive)),
        )
    }

    /// A field. With `?.` it is read only where the base is there.
    pub fn field_value(&mut self, base: LuaExpr, name: &str, optional: bool) -> (r: LuaExpr)
        ensures
            (final(self)@, r.model()) == old(self)@.field_value(base.model(), name@, optional),
            final(self)@.lua.shape() == old(self)@.lua.shape(),
    {
        let member = user_identifier(name);
        if !optional {
            return base.field(member.as_str());
        }
        let tmp = self.fresh_tmp();
        self.local(tmp.as_str(), base);
        self.begin_if(is_not_nil(named(tmp.as_str())));
        let field = named(tmp.as_str()).field(member.as_str());
        self.assign(named(tmp.as_str()), field);
        self.end_block();
        LuaExpr::Name(tmp)
    }

    /// The value behind `?`, which returns early where there is none.
    pub fn try_value(&mut self, inner: LuaExpr, is_result: bool) -> (r: LuaExpr)
        ensures
            (final(self)@, r.model()) == old(self)@.try_value(inner.model(), is_result),
            final(self)@.lua.shape() == old(self)@.lua.shape(),
    {
        let value = self.fresh_tmp();
        self.local(value.as_str(), inner);
        if is_result {
            self.compact_if(
                result_is_err(named(value.as_str())),
                return_inline(named(value.as_str())),
            );
            result_payload(LuaExpr::Name(value))
        } else {
            self.compact_if(is_nil(named(value.as_str())), return_inline(LuaExpr::Nil));
            LuaExpr::Name(value)
        }
    }

    /// A loop variable that is never negative.
    pub fn push_nonnegative(&mut self, hir: &ResolvedHir, source: SourceRange)
        ensures
            final(self)@ == old(self)@.push_nonnegative(*hir, source),
            final(self)@.lua == old(self)@.lua,
    {
        match hir.binding_targets.get(&source) {
            Some(local) => {
                self.nonnegative_integer_locals.push(*local);
            },
            None => {
                self.fault();
            },
        }
    }

    pub fn pop_nonnegative(&mut self)
        ensures
            final(self)@ == old(self)@.pop_nonnegative(),
            final(self)@.lua == old(self)@.lua,
    {
        let ghost before = self.nonnegative_integer_locals@;
        let _ = self.nonnegative_integer_locals.pop();
        proof {
            if before.len() == 0 {
                assert(self.nonnegative_integer_locals@ =~= before);
            } else {
                assert(self.nonnegative_integer_locals@ =~= before.drop_last());
            }
        }
    }

    /// The value of an expression goes to a destination.
    pub fn deliver(&mut self, dest: &Dest, value: LuaExpr)
        ensures
            final(self)@ == old(self)@.deliver(dest.model(), value.model()),
            final(self)@.lua.shape() == old(self)@.lua.shape(),
    {
        match dest {
            Dest::Discard => {
                if statement_call(&value) {
                    self.expression_statement(value);
                }
            },
            Dest::Var(target) => {
                self.assign(target.copy(), value);
            },
            Dest::Return => {
                self.return_value(value);
            },
        }
    }

    /// Something without a value goes to a destination.
    pub fn deliver_unit(&mut self, dest: &Dest)
        ensures
            final(self)@ == old(self)@.deliver_unit(dest.model()),
            final(self)@.lua.shape() == old(self)@.lua.shape(),
    {
        match dest {
            Dest::Discard => {},
            Dest::Var(target) => {
                self.assign(target.copy(), LuaExpr::Nil);
            },
            Dest::Return => {
                self.return_value(LuaExpr::Nil);
            },
        }
    }

    /// The label that `continue` jumps to, where the body needs it.
    pub fn continue_label(&mut self, body: &crate::ast::Block)
        ensures
            final(self)@ == old(self)@.continue_label(*body),
            final(self)@.lua.shape() == old(self)@.lua.shape(),
    {
        if super::syntax::block_has_continue(body) {
            self.label("continue");
        }
    }

    /// The result variable of an iterator chain, and whether it is already the
    /// destination.
    pub fn init_iter_result(
        &mut self,
        dest: &Dest,
        local_result: Option<&str>,
        value: LuaExpr,
    ) -> (r: (LuaExpr, bool))
        ensures
            (final(self)@, (r.0.model(), r.1)) == old(self)@.iter_result(
                dest.model(),
                text_option(local_result),
                value.model(),
            ),
            final(self)@.lua.shape() == old(self)@.lua.shape(),
    {
        if let Some(local) = local_result {
            self.local(local, value);
            return (named(local), true);
        }
        if let Dest::Var(target) = dest {
            if let LuaExpr::Name(_) = target {
                self.assign(target.copy(), value);
                return (target.copy(), true);
            }
        }
        let result = self.fresh_tmp();
        self.local(result.as_str(), value);
        (LuaExpr::Name(result), false)
    }

    /// The state of an adapter that counts, with a limit where it has one.
    pub fn counter_state(&mut self, limit: Option<LuaExpr>) -> (r: IterAdapterState)
        ensures
            (final(self)@, r.model()) == old(self)@.counter_state(cached_model(limit)),
            final(self)@.lua.shape() == old(self)@.lua.shape(),
    {
        match limit {
            None => {
                let counter = self.fresh_tmp();
                self.local(counter.as_str(), LuaExpr::integer("0"));
                IterAdapterState { counter, limit: "0".to_string() }
            },
            Some(value) => {
                let limit = self.fresh_tmp();
                self.local(limit.as_str(), value);
                let counter = self.fresh_tmp();
                self.local(counter.as_str(), LuaExpr::integer("0"));
                IterAdapterState { counter, limit }
            },
        }
    }
}

} // verus!
