//! What every statement and expression becomes: the translation as a function
//! on states.

use vstd::prelude::*;

use super::analysis::{
    adapter_args, adapters_end, chain_source, consumer_args, discardable, immutable_local,
    is_hoisted, known_nonnegative, lemma_args_at, lemma_args_list, lemma_descend, lua_operator,
    removable, source_args, source_depth, source_is_call, unused_binding, variant_of,
};
use super::annotate::type_text;
use super::matching::{is_exhaustive, uses_result_tag, uses_tag};
use super::state::{replacement, Cg, DestModel, EnvModel};
use super::syntax::{
    block_continues, expr_mentions, literal_text, literal_value, parsed_int, source_of,
};
use crate::ast::{
    BinOp, Block, ClosureBody, ClosureParam, ElseBranch, Expr, ExprId, ExprKind, MatchArm, Pattern,
    Stmt, UnOp,
};
use crate::backend_layout::identifier_of;
use crate::builtins::{spec_rule, BuiltinId, CodegenRule, LanguageItem, StdDispatch};
use crate::hir::{DefKind, LocalId, ResolvedHir, ResolvedTarget, VariantShape};
use crate::lua_ir::{
    m_binary, m_call, m_field, m_index, m_integer, m_method, m_name, m_named, m_parenthesized,
    m_string, m_unary, BinaryOp, ExprModel, FieldModel, InlineModel, OpenerModel, TargetModel,
    UnaryOp,
};
use crate::text::{decimal, signed_decimal, without};
use crate::token::SourceRange;
use crate::typed::{
    ContainsKind, IterAdapterKind, IterConsumerKind, IterPlan, IterSourceKind, UserMethodDispatch,
};

verus! {

// ---------------------------------------------------------------------------
// Small Lua expressions.
// ---------------------------------------------------------------------------

/// The success flag of a result.
pub open spec fn ok_of(value: ExprModel) -> ExprModel {
    m_index(value, m_integer("1"@))
}

/// Whether a result is a failure.
pub open spec fn err_of(value: ExprModel) -> ExprModel {
    m_unary(UnaryOp::Not, ok_of(value))
}

/// The payload of a result.
pub open spec fn payload_of(value: ExprModel) -> ExprModel {
    m_index(value, m_integer("2"@))
}

pub open spec fn eq_nil(value: ExprModel) -> ExprModel {
    m_binary(value, BinaryOp::Eq, ExprModel::Nil)
}

pub open spec fn ne_nil(value: ExprModel) -> ExprModel {
    m_binary(value, BinaryOp::Ne, ExprModel::Nil)
}

pub open spec fn plus_one(value: ExprModel) -> ExprModel {
    m_binary(value, BinaryOp::Add, m_integer("1"@))
}

pub open spec fn minus_one(value: ExprModel) -> ExprModel {
    m_binary(value, BinaryOp::Sub, m_integer("1"@))
}

/// A call of `error`.
pub open spec fn raise(arguments: Seq<ExprModel>) -> ExprModel {
    m_call(m_name("error"@), arguments)
}

pub open spec fn no_arm_matched() -> ExprModel {
    raise(seq![m_string("non-exhaustive match"@)])
}

/// The first `n` expressions, joined by an operator.
pub open spec fn chained(op: BinaryOp, list: Seq<ExprModel>, n: int) -> ExprModel
    decreases n,
{
    if n <= 1 {
        list[0]
    } else {
        m_binary(chained(op, list, n - 1), op, list[n - 1])
    }
}

/// All tests hold.
pub open spec fn all_of(list: Seq<ExprModel>) -> ExprModel {
    if list.len() == 0 {
        ExprModel::Bool(true)
    } else {
        chained(BinaryOp::And, list, list.len() as int)
    }
}

/// Some test holds.
pub open spec fn any_of(list: Seq<ExprModel>) -> ExprModel {
    if list.len() == 0 {
        ExprModel::Bool(false)
    } else {
        chained(BinaryOp::Or, list, list.len() as int)
    }
}

/// Positional table fields.
pub open spec fn values_as_fields(values: Seq<ExprModel>) -> Seq<FieldModel> {
    Seq::new(values.len(), |i: int| FieldModel::Value(values[i]))
}

/// The tag field of a variant.
pub open spec fn tag_field(name: Seq<char>) -> FieldModel {
    FieldModel::Named("tag"@, m_string(name))
}

/// Division that rounds toward zero.
pub open spec fn quotient(left: int, right: int) -> int {
    let magnitude = (if left < 0 {
        -left
    } else {
        left
    }) / (if right < 0 {
        -right
    } else {
        right
    });
    if (left < 0) == (right < 0) {
        magnitude
    } else {
        -magnitude
    }
}

/// The rest of a division that rounds toward zero.
pub open spec fn remainder(left: int, right: int) -> int {
    let magnitude = (if left < 0 {
        -left
    } else {
        left
    }) % (if right < 0 {
        -right
    } else {
        right
    });
    if left < 0 {
        -magnitude
    } else {
        magnitude
    }
}

/// The value of a division or remainder of two literals, where it has one.
pub open spec fn folded(env: EnvModel, e: Expr) -> Option<int> {
    match e.kind {
        ExprKind::Binary { op, lhs, rhs } => match (lhs.kind, rhs.kind) {
            (ExprKind::Int(left), ExprKind::Int(right)) => match (
                literal_value(left@),
                literal_value(right@),
            ) {
                (Some(left), Some(right)) => if right == 0 || (left == i64::MIN && right == -1) {
                    None
                } else if op == BinOp::Div && env.program.types.int_divs@.contains(e.id) {
                    Some(quotient(left as int, right as int))
                } else if op == BinOp::Rem && env.program.types.int_rems@.contains(e.id) {
                    Some(remainder(left as int, right as int))
                } else {
                    None
                },
                _ => None,
            },
            _ => None,
        },
        _ => None,
    }
}

/// Whether an expression is a literal above zero.
pub open spec fn positive_literal(e: Expr) -> bool {
    e.kind matches ExprKind::Int(source) && literal_value(source@) matches Some(value) && value > 0
}

/// Whether an expression is a literal that is not negative.
pub open spec fn nonnegative_literal(e: Expr) -> bool {
    e.kind matches ExprKind::Int(source) && literal_value(source@) matches Some(value) && value
        >= 0
}

/// The plan of an iterator chain that ends in a consumer.
pub open spec fn plan_of(env: EnvModel, e: Expr) -> Option<IterPlan> {
    match env.program.types.iter_plans.at(e.id) {
        Some(plan) => if chain_source(e, plan, true) is Some {
            Some(plan)
        } else {
            None
        },
        None => None,
    }
}

/// Whether an expression is lowered as statements.
pub open spec fn is_control(e: Expr) -> bool {
    e.kind is If || e.kind is IfLet || e.kind is Block || e.kind is Loop || e.kind is Match
        || e.kind is Assign
}

/// Whether the Lua expression can stand as a statement.
pub open spec fn is_statement_call(e: ExprModel) -> bool {
    e is Call || e is MethodCall
}

/// A name that a pattern binds to a part of its subject.
pub struct BindingModel {
    pub name: Seq<char>,
    pub source: SourceRange,
    pub value: ExprModel,
}

/// The Lua names of closure parameters.
pub open spec fn param_names(st: Cg, params: Seq<ClosureParam>) -> Seq<Seq<char>> {
    Seq::new(params.len(), |i: int| st.local_name(params[i].name@))
}

/// What the generated loop of an iterator chain runs over.
pub enum LoopSource {
    Range { start: Seq<char>, end: Seq<char>, inclusive: bool },
    Items { holder: ExprModel },
}

/// The counter and the limit of an adapter.
pub struct AdapterState {
    pub counter: Seq<char>,
    pub limit: Seq<char>,
}

impl Cg {
    /// The value of an expression goes to a destination.
    pub open spec fn deliver(self, dest: DestModel, value: ExprModel) -> Cg {
        match dest {
            DestModel::Discard => if is_statement_call(value) {
                self.expression(value)
            } else {
                self
            },
            DestModel::Var(target) => self.assign(target, value),
            DestModel::Return => self.return_value(value),
        }
    }

    /// Something without a value goes to a destination.
    pub open spec fn deliver_unit(self, dest: DestModel) -> Cg {
        match dest {
            DestModel::Discard => self,
            DestModel::Var(target) => self.assign(target, ExprModel::Nil),
            DestModel::Return => self.return_value(ExprModel::Nil),
        }
    }

    /// The label that `continue` jumps to, where the body needs it.
    pub open spec fn continue_label(self, body: Block) -> Cg {
        if block_continues(body) {
            self.label("continue"@)
        } else {
            self
        }
    }

    /// A loop variable that is never negative. A missing local is a fault.
    pub open spec fn push_nonnegative(self, hir: ResolvedHir, source: SourceRange) -> Cg {
        match hir.binding_targets.at(source) {
            Some(local) => Cg { nonnegative: self.nonnegative.push(local), ..self },
            None => self.fault(),
        }
    }

    pub open spec fn pop_nonnegative(self) -> Cg {
        if self.nonnegative.len() == 0 {
            self
        } else {
            Cg { nonnegative: self.nonnegative.drop_last(), ..self }
        }
    }

    /// The next item of an iterator value, or the end of the loop.
    pub open spec fn pull_item(self, variable: Seq<char>, holder: Seq<char>) -> Cg {
        self.local(variable, Some(m_method(m_name(holder), "next"@, Seq::empty()))).compact_if(
            eq_nil(m_name(variable)),
            seq![InlineModel::Break],
        )
    }

    /// The next branch of an `if`: the first one where none is open.
    pub open spec fn branch(self, condition: ExprModel, open: bool) -> Cg {
        if open {
            self.with(self.lua.else_if(condition))
        } else {
            self.begin_if(condition)
        }
    }

    /// The failure of a match behind its last branch.
    pub open spec fn no_match(self, open: bool) -> Cg {
        if open {
            self.begin_else().expression(no_arm_matched()).end()
        } else {
            self.expression(no_arm_matched())
        }
    }

    /// The blank line in front of a statement.
    pub open spec fn blank_before(self, flags: Seq<bool>, i: int) -> Cg {
        if i >= flags.len() {
            self.fault()
        } else if flags[i] {
            self.blank()
        } else {
            self
        }
    }

    /// Locals for the names that a pattern binds. A name for a bare variable is
    /// replaced by it instead.
    pub open spec fn bind_patterns(
        self,
        hir: ResolvedHir,
        bindings: Seq<BindingModel>,
        from: int,
    ) -> Cg
        decreases bindings.len() - from,
    {
        if from < 0 || from >= bindings.len() {
            self
        } else {
            let binding = bindings[from];
            let next = if binding.value is Name {
                self.bind_substitution(hir, binding.source, binding.value)
            } else {
                self.local(self.local_name(binding.name), Some(binding.value))
            };
            next.bind_patterns(hir, bindings, from + 1)
        }
    }

    /// A vector literal.
    pub open spec fn vec_value(self, hir: ResolvedHir, values: Seq<ExprModel>, length: nat) -> (
        Cg,
        ExprModel,
    ) {
        self.standard_call(
            hir,
            "std::vec"@,
            "from_table"@,
            seq![
                ExprModel::Table(
                    values_as_fields(values).push(
                        FieldModel::Named("n"@, m_integer(decimal(length))),
                    ),
                ),
            ],
        )
    }

    /// A range value.
    pub open spec fn range_value(
        self,
        hir: ResolvedHir,
        start: ExprModel,
        end: ExprModel,
        inclusive: bool,
    ) -> (Cg, ExprModel) {
        self.standard_call(
            hir,
            "std::iter"@,
            "range"@,
            seq![start, end, ExprModel::Bool(inclusive)],
        )
    }

    /// A field. With `?.` it is read only where the base is there.
    pub open spec fn field_value(self, base: ExprModel, name: Seq<char>, optional: bool) -> (
        Cg,
        ExprModel,
    ) {
        if optional {
            let (st, tmp) = self.fresh();
            let st = st.local(tmp, Some(base)).begin_if(ne_nil(m_name(tmp))).assign(
                m_name(tmp),
                m_field(m_name(tmp), identifier_of(name)),
            ).end();
            (st, m_name(tmp))
        } else {
            (self, m_field(base, identifier_of(name)))
        }
    }

    /// The value behind `?`, which returns early where there is none.
    pub open spec fn try_value(self, inner: ExprModel, is_result: bool) -> (Cg, ExprModel) {
        let (st, value) = self.fresh();
        let st = st.local(value, Some(inner));
        if is_result {
            (
                st.compact_if(
                    err_of(m_name(value)),
                    seq![InlineModel::Return(seq![m_name(value)])],
                ),
                payload_of(m_name(value)),
            )
        } else {
            (
                st.compact_if(
                    eq_nil(m_name(value)),
                    seq![InlineModel::Return(seq![ExprModel::Nil])],
                ),
                m_name(value),
            )
        }
    }

    /// Closes some blocks.
    pub open spec fn ends(self, n: nat) -> Cg
        decreases n,
    {
        if n == 0 {
            self
        } else {
            self.end().ends((n - 1) as nat)
        }
    }

    /// The result variable of an iterator chain, and whether it is already the
    /// destination.
    pub open spec fn iter_result(
        self,
        dest: DestModel,
        local_result: Option<Seq<char>>,
        value: ExprModel,
    ) -> (Cg, (ExprModel, bool)) {
        match local_result {
            Some(local) => (self.local(local, Some(value)), (m_name(local), true)),
            None => match dest {
                DestModel::Var(target) if target is Name => (
                    self.assign(target, value),
                    (target, true),
                ),
                _ => {
                    let (st, result) = self.fresh();
                    (st.local(result, Some(value)), (m_name(result), false))
                },
            },
        }
    }

    /// The head of the loop of an iterator chain. Gives the item variable.
    pub open spec fn iter_head(self, source: LoopSource) -> (Cg, Seq<char>) {
        let (st, item) = self.fresh();
        let (st, index) = st.fresh();
        match source {
            LoopSource::Range { start, end, inclusive } => (
                st.begin(
                    OpenerModel::NumericFor {
                        variable: index,
                        start: m_name(start),
                        stop: if inclusive {
                            m_name(end)
                        } else {
                            minus_one(m_name(end))
                        },
                    },
                ).local(item, Some(m_name(index))),
                item,
            ),
            LoopSource::Items { holder } => (
                st.begin(
                    OpenerModel::NumericFor {
                        variable: index,
                        start: m_integer("1"@),
                        stop: m_field(holder, "n"@),
                    },
                ).local(item, Some(m_index(holder, m_name(index)))),
                item,
            ),
        }
    }

    /// What an adapter with a function does with the value of the function, and
    /// whether it leaves a guard open.
    pub open spec fn adapt(self, kind: IterAdapterKind, value: ExprModel, item: Seq<char>) -> (
        Cg,
        bool,
    ) {
        match kind {
            IterAdapterKind::MapItems => (self.assign(m_name(item), value), false),
            IterAdapterKind::Filter => (self.begin_if(value), true),
            _ => (self.begin_if(ne_nil(value)).assign(m_name(item), value), true),
        }
    }

    /// What an adapter that counts does with the item, and whether it leaves a
    /// guard open.
    pub open spec fn count(self, kind: IterAdapterKind, state: AdapterState, item: Seq<char>) -> (
        Cg,
        bool,
    ) {
        match kind {
            IterAdapterKind::Enumerate => (
                self.assign(
                    m_name(item),
                    ExprModel::Table(
                        seq![
                            FieldModel::Value(m_name(state.counter)),
                            FieldModel::Value(m_name(item)),
                            FieldModel::Named("n"@, m_integer("2"@)),
                        ],
                    ),
                ).assign(m_name(state.counter), plus_one(m_name(state.counter))),
                false,
            ),
            IterAdapterKind::Skip => (
                self.begin_if(
                    m_binary(m_name(state.counter), BinaryOp::Lt, m_name(state.limit)),
                ).assign(m_name(state.counter), plus_one(m_name(state.counter))).begin_else(),
                true,
            ),
            _ => (
                self.compact_if(
                    m_binary(m_name(state.counter), BinaryOp::Ge, m_name(state.limit)),
                    seq![InlineModel::Break],
                ).assign(m_name(state.counter), plus_one(m_name(state.counter))),
                false,
            ),
        }
    }

    /// The tests behind the guards that end the loop once enough was taken.
    pub open spec fn iter_takes(
        self,
        adapters: Seq<IterAdapterKind>,
        states: Seq<AdapterState>,
        from: int,
    ) -> Cg
        decreases adapters.len() - from,
    {
        if from < 0 || from >= adapters.len() || from >= states.len() {
            self
        } else {
            let next = if adapters[from] == IterAdapterKind::Take {
                self.compact_if(
                    m_binary(
                        m_name(states[from].counter),
                        BinaryOp::Ge,
                        m_name(states[from].limit),
                    ),
                    seq![InlineModel::Break],
                )
            } else {
                self
            };
            next.iter_takes(adapters, states, from + 1)
        }
    }

    /// The end of the loop of an iterator chain.
    pub open spec fn iter_close(
        self,
        plan: IterPlan,
        states: Seq<AdapterState>,
        guards: nat,
        continues: bool,
        result: Option<(ExprModel, bool)>,
        dest: DestModel,
    ) -> Cg {
        let st = self.ends(guards);
        let st = if continues {
            st.label("continue"@)
        } else {
            st
        };
        let st = st.iter_takes(plan.adapters@, states, 0).end();
        match result {
            None => st,
            Some((value, sunk)) => match dest {
                DestModel::Var(target) => if sunk {
                    st
                } else {
                    st.assign(target, value)
                },
                DestModel::Return => st.return_value(value),
                DestModel::Discard => st,
            },
        }
    }

    /// The counters and limits of the adapters that have no expression.
    pub open spec fn counter_state(self, limit: Option<ExprModel>) -> (Cg, AdapterState) {
        match limit {
            None => {
                let (st, counter) = self.fresh();
                (
                    st.local(counter, Some(m_integer("0"@))),
                    AdapterState { counter, limit: "0"@ },
                )
            },
            Some(value) => {
                let (st, limit) = self.fresh();
                let st = st.local(limit, Some(value));
                let (st, counter) = st.fresh();
                (
                    st.local(counter, Some(m_integer("0"@))),
                    AdapterState { counter, limit },
                )
            },
        }
    }
}

/// The tag of a subject, from a variable where it has been read before.
pub open spec fn tag_of(cached: Option<ExprModel>, subject: ExprModel) -> ExprModel {
    match cached {
        Some(tag) => tag,
        None => m_field(subject, "tag"@),
    }
}

/// The success flag of a subject, from a variable where it has been read before.
pub open spec fn flag_of(cached: Option<ExprModel>, subject: ExprModel) -> ExprModel {
    match cached {
        Some(tag) => tag,
        None => ok_of(subject),
    }
}

/// The name of a definition.
pub open spec fn definition_name(hir: ResolvedHir, id: crate::hir::DefId) -> Seq<char> {
    hir.spec_definition(id).name@
}

/// The bindings that an arm reads.
pub open spec fn kept_bindings(arm: MatchArm, bindings: Seq<BindingModel>) -> Seq<BindingModel>
    decreases bindings.len(),
{
    if bindings.len() == 0 {
        Seq::empty()
    } else {
        let rest = kept_bindings(arm, bindings.drop_last());
        let binding = bindings.last();
        let read = match arm.guard {
            Some(guard) => expr_mentions(guard, binding.name),
            None => false,
        } || expr_mentions(arm.body, binding.name);
        if read {
            rest.push(binding)
        } else {
            rest
        }
    }
}

/// The replacements of closure parameters by its inputs.
pub open spec fn closure_scope(
    hir: ResolvedHir,
    params: Seq<ClosureParam>,
    inputs: Seq<ExprModel>,
    n: int,
) -> Map<LocalId, ExprModel>
    decreases n,
{
    if n <= 0 || n > params.len() || n > inputs.len() {
        Map::empty()
    } else {
        let rest = closure_scope(hir, params, inputs, n - 1);
        match hir.binding_targets.at(params[n - 1].name_span) {
            Some(local) => rest.insert(local, inputs[n - 1]),
            None => rest,
        }
    }
}

/// Whether every closure parameter that gets an input has a local.
pub open spec fn closure_params_bound(
    hir: ResolvedHir,
    params: Seq<ClosureParam>,
    inputs: Seq<ExprModel>,
    n: int,
) -> bool
    decreases n,
{
    if n <= 0 || n > params.len() || n > inputs.len() {
        true
    } else {
        closure_params_bound(hir, params, inputs, n - 1) && hir.binding_targets.at(
            params[n - 1].name_span,
        ) is Some
    }
}

/// The smaller of two lengths.
pub open spec fn shorter(a: nat, b: nat) -> int {
    if a < b {
        a as int
    } else {
        b as int
    }
}

/// The locals of closure parameters, set to its inputs.
pub open spec fn bind_inputs(
    st: Cg,
    params: Seq<ClosureParam>,
    inputs: Seq<ExprModel>,
    from: int,
) -> Cg
    decreases params.len() - from,
{
    if from < 0 || from >= params.len() || from >= inputs.len() {
        st
    } else {
        bind_inputs(
            st.local(st.local_name(params[from].name@), Some(inputs[from])),
            params,
            inputs,
            from + 1,
        )
    }
}

/// What a path becomes.
pub open spec fn g_path(env: EnvModel, st: Cg, e: Expr) -> (Cg, ExprModel) {
    let hir = env.program.hir;
    let target = env.program.spec_expression_target(e.id);
    if target matches ResolvedTarget::Local(local) && replacement(st.scopes, local) is Some {
        (st, replacement(st.scopes, target->Local_0)->0)
    } else if target matches ResolvedTarget::Builtin(builtin) && spec_rule(builtin) == Some(
        CodegenRule::Nil,
    ) {
        (st, ExprModel::Nil)
    } else {
        match variant_of(hir, target) {
            Some((owner, variant, VariantShape::Unit)) => st.attach_metatable(
                env,
                owner,
                ExprModel::Table(seq![tag_field(definition_name(hir, variant))]),
            ),
            _ => match st.target_place(env, target) {
                (next, Some(place)) => (next, place.expression()),
                (next, None) => (next.fault(), ExprModel::Nil),
            },
        }
    }
}

/// The value of a compound assignment.
pub open spec fn compound_value(
    env: EnvModel,
    st: Cg,
    id: ExprId,
    op: BinOp,
    lhs: ExprModel,
    rhs: ExprModel,
) -> (Cg, ExprModel) {
    let types = env.program.types;
    if op == BinOp::Div && types.int_divs@.contains(id) {
        st.helper_call(env.program.hir, "number"@, "idiv"@, seq![lhs, rhs])
    } else if op == BinOp::Rem && types.int_rems@.contains(id) {
        st.helper_call(env.program.hir, "number"@, "irem"@, seq![lhs, rhs])
    } else if op == BinOp::Add && types.str_concats@.contains(id) {
        (st, m_parenthesized(m_binary(lhs, BinaryOp::Concat, rhs)))
    } else {
        match lua_operator(op) {
            Some(operator) => (st, m_binary(lhs, operator, rhs)),
            None => (st.fault(), ExprModel::Nil),
        }
    }
}

// ---------------------------------------------------------------------------
// Expressions as Lua expressions.
// ---------------------------------------------------------------------------

/// An expression as a Lua expression, with the statements it needs first.
pub open spec fn g_inline(env: EnvModel, st: Cg, e: Expr) -> (Cg, ExprModel)
    decreases e, (if is_control(e) { 9int } else { 7int }), 0int,
{
    let (next, value) = g_inline_inner(env, st.push_anchor(e.span), e);
    (next.pop_anchor(), value)
}

/// Several expressions, in order.
pub open spec fn g_inlines(
    env: EnvModel,
    st: Cg,
    list: Seq<Expr>,
    from: int,
    done: Seq<ExprModel>,
) -> (Cg, Seq<ExprModel>)
    decreases list, 0int, list.len() - from,
{
    if from < 0 || from >= list.len() {
        (st, done)
    } else {
        let (next, value) = g_inline(env, st, list[from]);
        g_inlines(env, next, list, from + 1, done.push(value))
    }
}

pub open spec fn g_inline_inner(env: EnvModel, st: Cg, e: Expr) -> (Cg, ExprModel)
    decreases e, (if is_control(e) { 8int } else { 6int }), 0int,
{
    match plan_of(env, e) {
        Some(plan) => {
            let (st, tmp) = st.fresh();
            let st = g_iter(
                env,
                st.local(tmp, None),
                e,
                plan,
                true,
                DestModel::Var(m_name(tmp)),
                None,
            );
            (st, m_name(tmp))
        },
        None => match e.kind {
            ExprKind::Int(source) => (st, m_integer(literal_text(source@))),
            ExprKind::Float(source) => (st, ExprModel::Number(without(source@, '_'))),
            ExprKind::Str(source) => (st, ExprModel::StringLiteral(source@)),
            ExprKind::Bool(value) => (st, ExprModel::Bool(value)),
            ExprKind::MacroCall { .. } => (st.fault(), ExprModel::Nil),
            ExprKind::VecLit(elements) => {
                let (st, values) = g_inlines(env, st, elements@, 0, Seq::empty());
                st.vec_value(env.program.hir, values, elements@.len())
            },
            ExprKind::Closure { params, body, .. } => {
                let (st, local) = st.fresh();
                (g_closure(env, st, local, params@, body), m_name(local))
            },
            ExprKind::Path(_) => g_path(env, st, e),
            ExprKind::Unary { op, expr } => {
                let (st, inner) = g_inline(env, st, *expr);
                (
                    st,
                    m_unary(
                        match op {
                            UnOp::Neg => UnaryOp::Neg,
                            UnOp::Not => UnaryOp::Not,
                        },
                        inner,
                    ),
                )
            },
            ExprKind::Binary { .. } => g_binary(env, st, e),
            ExprKind::Call { .. } => g_call(env, st, e),
            ExprKind::MethodCall { .. } => g_method(env, st, e),
            ExprKind::Field { base, name, optional, .. } => {
                let (st, value) = g_inline(env, st, *base);
                st.field_value(value, name@, optional)
            },
            ExprKind::Index { base, index } => {
                let (st, b) = g_inline(env, st, *base);
                let (st, i) = g_inline(env, st, *index);
                (st, m_index(b, i))
            },
            ExprKind::Range { start, end, inclusive } => {
                let (st, s) = g_inline(env, st, *start);
                let (st, t) = g_inline(env, st, *end);
                st.range_value(env.program.hir, s, t, inclusive)
            },
            ExprKind::StructLit { fields, .. } => {
                let (st, values) = g_fields(env, st, fields@, 0, Seq::empty());
                g_struct(env, st, e, values)
            },
            ExprKind::MapLit(entries) => {
                let (st, fields) = g_pairs(env, st, entries@, 0, Seq::empty());
                st.standard_call(
                    env.program.hir,
                    "std::hashmap"@,
                    "from_table"@,
                    seq![ExprModel::Table(fields)],
                )
            },
            ExprKind::Try { expr } => {
                let (st, inner) = g_inline(env, st, *expr);
                st.try_value(inner, env.program.types.result_tries@.contains(e.id))
            },
            _ => {
                let (st, tmp) = st.fresh();
                (
                    g_expr_to(env, st.local(tmp, None), e, DestModel::Var(m_name(tmp))),
                    m_name(tmp),
                )
            },
        },
    }
}

/// The values of struct fields under their Lua names.
pub open spec fn g_fields(
    env: EnvModel,
    st: Cg,
    list: Seq<(String, Expr)>,
    from: int,
    done: Seq<(Seq<char>, ExprModel)>,
) -> (Cg, Seq<(Seq<char>, ExprModel)>)
    decreases list, 0int, list.len() - from,
{
    if from < 0 || from >= list.len() {
        (st, done)
    } else {
        let (next, value) = g_inline(env, st, list[from].1);
        g_fields(env, next, list, from + 1, done.push((identifier_of(list[from].0@), value)))
    }
}

/// The entries of a map literal.
pub open spec fn g_pairs(
    env: EnvModel,
    st: Cg,
    list: Seq<(Expr, Expr)>,
    from: int,
    done: Seq<FieldModel>,
) -> (Cg, Seq<FieldModel>)
    decreases list, 0int, list.len() - from,
{
    if from < 0 || from >= list.len() {
        (st, done)
    } else {
        let (st, key) = g_inline(env, st, list[from].0);
        let (st, value) = g_inline(env, st, list[from].1);
        g_pairs(env, st, list, from + 1, done.push(FieldModel::Indexed(key, value)))
    }
}

/// A struct or struct variant with these fields.
pub open spec fn g_struct(env: EnvModel, st: Cg, e: Expr, values: Seq<(Seq<char>, ExprModel)>) -> (
    Cg,
    ExprModel,
) {
    let hir = env.program.hir;
    let target = env.program.spec_expression_target(e.id);
    match variant_of(hir, target) {
        Some((owner, variant, VariantShape::Struct)) => st.attach_metatable(
            env,
            owner,
            ExprModel::Table(
                m_named(seq![("tag"@, m_string(definition_name(hir, variant)))] + values),
            ),
        ),
        _ => match target {
            ResolvedTarget::Item(definition) => if hir.has_definition(definition)
                && hir.spec_definition(definition).kind == DefKind::Struct {
                st.attach_metatable(env, definition, ExprModel::Table(m_named(values)))
            } else {
                (st, ExprModel::Table(m_named(values)))
            },
            _ => (st, ExprModel::Table(m_named(values))),
        },
    }
}

/// A binary operation.
pub open spec fn g_binary(env: EnvModel, st: Cg, e: Expr) -> (Cg, ExprModel)
    decreases e, 5int, 0int,
{
    match e.kind {
        ExprKind::Binary { op, lhs, rhs } => if op == BinOp::Coalesce {
            let (st, value) = g_inline(env, st, *lhs);
            let (st, tmp) = st.fresh();
            let st = st.local(tmp, Some(value)).begin_if(eq_nil(m_name(tmp)));
            let (st, fallback) = g_inline(env, st, *rhs);
            (st.assign(m_name(tmp), fallback).end(), m_name(tmp))
        } else if op == BinOp::Contains {
            let (st, needle) = g_inline(env, st, *lhs);
            let (st, container) = g_inline(env, st, *rhs);
            match env.program.types.contains_kinds.at(e.id) {
                None => (st.fault(), ExprModel::Nil),
                Some(ContainsKind::HashMap) => (
                    st,
                    m_method(container, identifier_of("contains_key"@), seq![needle]),
                ),
                Some(ContainsKind::String) => st.standard_call(
                    env.program.hir,
                    "std::string"@,
                    "contains"@,
                    seq![container, needle],
                ),
                Some(_) => (st, m_method(container, identifier_of("contains"@), seq![needle])),
            }
        } else {
            match folded(env, e) {
                Some(value) => (st, m_integer(signed_decimal(value))),
                None => {
                    let (st, l) = g_inline(env, st, *lhs);
                    let (st, r) = g_inline(env, st, *rhs);
                    if op == BinOp::Rem && env.program.types.int_rems@.contains(e.id)
                        && positive_literal(*rhs) && known_nonnegative(env, st.nonnegative, *lhs) {
                        (st, m_binary(l, BinaryOp::Rem, r))
                    } else {
                        compound_value(env, st, e.id, op, l, r)
                    }
                },
            }
        },
        _ => (st, ExprModel::Nil),
    }
}

/// A call.
pub open spec fn g_call(env: EnvModel, st: Cg, e: Expr) -> (Cg, ExprModel)
    decreases e, 5int, 0int,
{
    let hir = env.program.hir;
    match e.kind {
        ExprKind::Call { callee, args } => if callee.kind is Path {
            let target = env.program.spec_expression_target(callee.id);
            let rule = match target {
                ResolvedTarget::Builtin(builtin) => spec_rule(builtin),
                _ => None,
            };
            if rule == Some(CodegenRule::InlineArg) && args@.len() > 0 {
                g_inline(env, st, args@[0])
            } else if rule is Some && rule->0 is TaggedResult && args@.len() > 0 {
                let (st, value) = g_inline(env, st, args@[0]);
                st.standard_call(
                    hir,
                    "std::result"@,
                    if rule == Some(CodegenRule::TaggedResult { ok: true }) {
                        "ok"@
                    } else {
                        "err"@
                    },
                    seq![value],
                )
            } else {
                let (st, values) = g_inlines(env, st, args@, 0, Seq::empty());
                let runtime = match hir.spec_definition_for_target(target) {
                    Some(definition) => hir.standard_runtimes.at(definition),
                    None => None,
                };
                match runtime {
                    Some(runtime) => {
                        let definition = hir.spec_definition_for_target(target)->0;
                        if hir.has_definition(definition) {
                            st.runtime_call(runtime, definition_name(hir, definition), values)
                        } else {
                            (st.fault(), ExprModel::Nil)
                        }
                    },
                    None => match variant_of(hir, target) {
                        Some((owner, variant, VariantShape::Tuple)) => st.attach_metatable(
                            env,
                            owner,
                            ExprModel::Table(
                                seq![tag_field(definition_name(hir, variant))] + values_as_fields(
                                    values,
                                ),
                            ),
                        ),
                        _ => {
                            let (st, function) = g_path(env, st, *callee);
                            (st, m_call(function, values))
                        },
                    },
                }
            }
        } else {
            let (st, function) = g_inline(env, st, *callee);
            let (st, values) = g_inlines(env, st, args@, 0, Seq::empty());
            (st, m_call(function, values))
        },
        _ => (st, ExprModel::Nil),
    }
}

/// A method call. With `?.` it is made only where the receiver is there.
pub open spec fn g_method(env: EnvModel, st: Cg, e: Expr) -> (Cg, ExprModel)
    decreases e, 5int, 0int,
{
    match e.kind {
        ExprKind::MethodCall { recv, optional, .. } => {
            let (st, value) = g_inline(env, st, *recv);
            if optional {
                let (st, tmp) = st.fresh();
                let st = st.local(tmp, Some(value)).begin_if(ne_nil(m_name(tmp)));
                let (st, computed) = g_method_on(env, st, e, m_name(tmp));
                (st.assign(m_name(tmp), computed).end(), m_name(tmp))
            } else {
                g_method_on(env, st, e, value)
            }
        },
        _ => (st, ExprModel::Nil),
    }
}

/// A method call on a receiver that is already there.
pub open spec fn g_method_on(env: EnvModel, st: Cg, e: Expr, r: ExprModel) -> (Cg, ExprModel)
    decreases e, 4int, 0int,
{
    let hir = env.program.hir;
    match e.kind {
        ExprKind::MethodCall { method, args, .. } => match env.program.types.standard_methods.at(
            e.id,
        ) {
            None => g_user_method(env, st, e, r),
            Some(definition) => match hir.language_items.at(definition) {
                Some(LanguageItem::OptionMap) if args@.len() == 1 => g_map_method(
                    env,
                    st,
                    args@[0],
                    r,
                    true,
                ),
                Some(LanguageItem::ResultMap) if args@.len() == 1 => g_map_method(
                    env,
                    st,
                    args@[0],
                    r,
                    false,
                ),
                Some(LanguageItem::OptionUnwrap) => {
                    let (st, value) = st.fresh();
                    (
                        st.local(value, Some(r)).compact_if(
                            eq_nil(m_name(value)),
                            seq![
                                InlineModel::Expression(
                                    raise(
                                        seq![
                                            m_string("called Option::unwrap on None"@),
                                            m_integer("2"@),
                                        ],
                                    ),
                                ),
                            ],
                        ),
                        m_name(value),
                    )
                },
                Some(LanguageItem::OptionExpect) if args@.len() == 1 => {
                    let (st, value) = st.fresh();
                    let (st, message) = g_inline(env, st.local(value, Some(r)), args@[0]);
                    (
                        st.compact_if(
                            eq_nil(m_name(value)),
                            seq![InlineModel::Expression(raise(seq![message, m_integer("2"@)]))],
                        ),
                        m_name(value),
                    )
                },
                Some(LanguageItem::OptionUnwrapOr) if args@.len() == 1 => {
                    let (st, default) = g_inline(env, st, args@[0]);
                    let (st, value) = st.fresh();
                    (
                        st.local(value, Some(r)).begin_if(eq_nil(m_name(value))).assign(
                            m_name(value),
                            default,
                        ).end(),
                        m_name(value),
                    )
                },
                Some(LanguageItem::OptionIsSome) => (st, ne_nil(r)),
                Some(LanguageItem::OptionIsNone) => (st, eq_nil(r)),
                Some(LanguageItem::ResultUnwrap)
                | Some(LanguageItem::ResultExpect)
                | Some(LanguageItem::ResultUnwrapOr)
                | Some(LanguageItem::ResultIsOk)
                | Some(LanguageItem::ResultIsErr) => {
                    let (st, values) = g_inlines(env, st, args@, 0, Seq::empty());
                    (st, m_method(r, identifier_of(method@), values))
                },
                _ => match hir.standard_runtimes.at(definition) {
                    None => g_user_method(env, st, e, r),
                    Some(runtime) => if runtime.dispatch == StdDispatch::Module {
                        if method@ == "len"@ {
                            (st, m_unary(UnaryOp::Len, r))
                        } else if method@ == "is_empty"@ {
                            (
                                st,
                                m_binary(
                                    m_unary(UnaryOp::Len, r),
                                    BinaryOp::Eq,
                                    m_integer("0"@),
                                ),
                            )
                        } else if method@ == "to_string"@ || method@ == "to_owned"@ || method@
                            == "clone"@ {
                            (st, r)
                        } else {
                            let (st, values) = g_inlines(env, st, args@, 0, seq![r]);
                            st.runtime_call(runtime, method@, values)
                        }
                    } else {
                        let (st, values) = g_inlines(env, st, args@, 0, Seq::empty());
                        (st, m_method(r, identifier_of(method@), values))
                    },
                },
            },
        },
        _ => (st, ExprModel::Nil),
    }
}

/// `map` on an option or a result.
pub open spec fn g_map_method(
    env: EnvModel,
    st: Cg,
    function: Expr,
    r: ExprModel,
    is_option: bool,
) -> (Cg, ExprModel)
    decreases function, 10int, 0int,
{
    let closure = function.kind is Closure;
    let (st, callable) = if closure {
        (st, ExprModel::Nil)
    } else {
        g_inline(env, st, function)
    };
    let (st, value) = st.fresh();
    let st = st.local(value, Some(r)).begin_if(
        if is_option {
            ne_nil(m_name(value))
        } else {
            ok_of(m_name(value))
        },
    );
    let input = if is_option {
        m_name(value)
    } else {
        payload_of(m_name(value))
    };
    let (st, mapped) = if closure {
        g_inlined_closure(env, st, function, seq![input])
    } else {
        (st, m_call(callable, seq![input]))
    };
    let (st, mapped) = if is_option {
        (st, mapped)
    } else {
        st.standard_call(env.program.hir, "std::result"@, "ok"@, seq![mapped])
    };
    (st.assign(m_name(value), mapped).end(), m_name(value))
}

/// A call of a method that the program defines.
pub open spec fn g_user_method(env: EnvModel, st: Cg, e: Expr, r: ExprModel) -> (Cg, ExprModel)
    decreases e, 3int, 0int,
{
    match e.kind {
        ExprKind::MethodCall { recv, method, args, .. } => {
            let (st, values) = g_inlines(env, st, args@, 0, Seq::empty());
            match env.program.types.user_methods.at(e.id) {
                None => (st, m_method(r, identifier_of(method@), values)),
                Some(UserMethodDispatch::Static(definition)) => match st.target_place(
                    env,
                    ResolvedTarget::Item(definition),
                ) {
                    (st, Some(place)) => (st, m_call(place.expression(), seq![r] + values)),
                    (st, None) => (st.fault(), ExprModel::Nil),
                },
                Some(UserMethodDispatch::Dynamic) => {
                    let (st, receiver) = if immutable_local(env, *recv) {
                        (st, r)
                    } else {
                        let (st, tmp) = st.fresh();
                        (st.local(tmp, Some(r)), m_name(tmp))
                    };
                    (
                        st,
                        m_call(
                            m_field(
                                m_call(m_name("getmetatable"@), seq![receiver]),
                                identifier_of(method@),
                            ),
                            seq![receiver] + values,
                        ),
                    )
                },
            }
        },
        _ => (st, ExprModel::Nil),
    }
}

/// A local function for a closure.
pub open spec fn g_closure(
    env: EnvModel,
    st: Cg,
    name: Seq<char>,
    params: Seq<ClosureParam>,
    body: ClosureBody,
) -> Cg
    decreases body, 0int, 0int,
{
    let st = st.begin(
        OpenerModel::Function { target: TargetModel::Local(name), params: param_names(st, params) },
    );
    let st = match body {
        ClosureBody::Expr(expression) => g_expr_to(env, st, *expression, DestModel::Return),
        ClosureBody::Block(block) => g_block_to(env, st, block, DestModel::Return),
    };
    st.end()
}

/// A closure that is called where it stands.
pub open spec fn g_inlined_closure(env: EnvModel, st: Cg, closure: Expr, inputs: Seq<ExprModel>) -> (
    Cg,
    ExprModel,
)
    decreases closure, 2int, 0int,
{
    let hir = env.program.hir;
    match closure.kind {
        ExprKind::Closure { params, body, .. } => match body {
            ClosureBody::Expr(expression) => {
                let n = shorter(params@.len(), inputs.len());
                let st = if closure_params_bound(hir, params@, inputs, n) {
                    st
                } else {
                    st.fault()
                };
                let (st, value) = g_inline(
                    env,
                    st.push_scope(closure_scope(hir, params@, inputs, n)),
                    *expression,
                );
                (st.pop_scope(), value)
            },
            ClosureBody::Block(block) => {
                let (st, result) = st.fresh();
                let (st, tmp) = st.fresh();
                let done = tmp + "_done"@;
                let st = st.local(result, None).begin(OpenerModel::Do);
                let st = bind_inputs(st, params@, inputs, 0);
                let st = Cg { closure_returns: st.closure_returns.push((result, done)), ..st };
                let st = g_block_to(env, st, block, DestModel::Var(m_name(result)));
                let st = if st.closure_returns.len() == 0 {
                    st
                } else {
                    Cg { closure_returns: st.closure_returns.drop_last(), ..st }
                };
                (st.end().label(done), m_name(result))
            },
        },
        _ => (st, ExprModel::Nil),
    }
}

// ---------------------------------------------------------------------------
// Iterator chains.
// ---------------------------------------------------------------------------

/// Whether the source of a range plan is a range.
pub open spec fn source_fits(e: Expr, plan: IterPlan, has_consumer: bool) -> bool {
    match chain_source(e, plan, has_consumer) {
        None => false,
        Some(source) => (plan.source is ExclusiveRange || plan.source is InclusiveRange)
            ==> source.kind is Range,
    }
}

/// An iterator chain as one loop that makes a value.
pub open spec fn g_iter(
    env: EnvModel,
    st: Cg,
    e: Expr,
    plan: IterPlan,
    has_consumer: bool,
    dest: DestModel,
    local_result: Option<Seq<char>>,
) -> Cg
    decreases e, 5int, 0int,
{
    if !source_fits(e, plan, has_consumer) {
        st
    } else {
        let (st, source) = g_iter_source(env, st, e, plan, has_consumer);
        let (st, states) = g_iter_states(env, st, e, plan, has_consumer, 0, Seq::empty());
        let (st, result) = g_iter_result(
            env,
            st,
            e,
            plan,
            has_consumer,
            source,
            dest,
            local_result,
        );
        let (st, item) = st.iter_head(source);
        let (st, guards) = g_iter_adapters(env, st, e, plan, has_consumer, states, item, 0, 0);
        let st = g_iter_consume(env, st, e, plan, has_consumer, result, item);
        st.iter_close(plan, states, guards, false, result, dest)
    }
}

/// The source of an iterator chain in variables.
pub open spec fn g_iter_source(env: EnvModel, st: Cg, e: Expr, plan: IterPlan, has_consumer: bool) -> (
    Cg,
    LoopSource,
)
    decreases e, 4int, 0int,
{
    match chain_source(e, plan, has_consumer) {
        None => (st, LoopSource::Items { holder: ExprModel::Nil }),
        Some(source) => if source_depth(plan, has_consumer) == 0 {
            (st, LoopSource::Items { holder: ExprModel::Nil })
        } else {
            proof {
                lemma_descend(e, source_depth(plan, has_consumer));
            }
            match plan.source {
                IterSourceKind::ExclusiveRange | IterSourceKind::InclusiveRange => match source.kind {
                    ExprKind::Range { start, end, .. } => {
                        let (st, value) = g_inline(env, st, *start);
                        let (st, first) = st.fresh();
                        let st = st.local(first, Some(value));
                        let (st, value) = g_inline(env, st, *end);
                        let (st, last) = st.fresh();
                        (
                            st.local(last, Some(value)),
                            LoopSource::Range {
                                start: first,
                                end: last,
                                inclusive: plan.source is InclusiveRange,
                            },
                        )
                    },
                    _ => (st, LoopSource::Items { holder: ExprModel::Nil }),
                },
                IterSourceKind::StringChars | IterSourceKind::StringSplit => {
                    let (st, text) = g_inline(env, st, source);
                    let args = source_args(e, plan, has_consumer);
                    let (st, values) = if args.len() == 0 {
                        (st, seq![text])
                    } else {
                        proof {
                            lemma_args_list(e, adapters_end(plan, has_consumer));
                        }
                        g_inlines(env, st, args, 0, seq![text])
                    };
                    let (st, value) = st.standard_call(
                        env.program.hir,
                        "std::string"@,
                        if plan.source is StringChars {
                            "chars"@
                        } else {
                            "split"@
                        },
                        values,
                    );
                    let (st, holder) = st.fresh();
                    (st.local(holder, Some(value)), LoopSource::Items { holder: m_name(holder) })
                },
                _ => {
                    let (st, value) = g_inline(env, st, source);
                    if immutable_local(env, source) {
                        (st, LoopSource::Items { holder: value })
                    } else {
                        let (st, holder) = st.fresh();
                        (
                            st.local(holder, Some(value)),
                            LoopSource::Items { holder: m_name(holder) },
                        )
                    }
                },
            }
        },
    }
}

/// The counters and limits of the adapters from `i` on.
pub open spec fn g_iter_states(
    env: EnvModel,
    st: Cg,
    e: Expr,
    plan: IterPlan,
    has_consumer: bool,
    i: int,
    done: Seq<AdapterState>,
) -> (Cg, Seq<AdapterState>)
    decreases e, 4int, plan.adapters@.len() - i,
{
    if i < 0 || i >= plan.adapters@.len() {
        (st, done)
    } else {
        let args = adapter_args(e, plan, has_consumer, i);
        proof {
            if args.len() > 0 {
                lemma_args_at(e, (adapters_end(plan, has_consumer) - 1 - i) as nat, 0);
            }
        }
        let (st, state) = match plan.adapters@[i] {
            IterAdapterKind::Enumerate => st.counter_state(None),
            IterAdapterKind::Skip | IterAdapterKind::Take => {
                let (st, limit) = if args.len() > 0 {
                    g_inline(env, st, args[0])
                } else {
                    (st, m_integer("0"@))
                };
                st.counter_state(Some(limit))
            },
            _ => (st, AdapterState { counter: "0"@, limit: "0"@ }),
        };
        g_iter_states(env, st, e, plan, has_consumer, i + 1, done.push(state))
    }
}

/// Whether the adapters keep the number of items.
pub open spec fn keeps_length(adapters: Seq<IterAdapterKind>) -> bool {
    forall|i: int|
        0 <= i < adapters.len() ==> #[trigger] adapters[i] == IterAdapterKind::MapItems
            || adapters[i] == IterAdapterKind::Enumerate
}

/// The result variable of an iterator chain with its first value.
pub open spec fn g_iter_result(
    env: EnvModel,
    st: Cg,
    e: Expr,
    plan: IterPlan,
    has_consumer: bool,
    source: LoopSource,
    dest: DestModel,
    local_result: Option<Seq<char>>,
) -> (Cg, Option<(ExprModel, bool)>)
    decreases e, 4int, 0int,
{
    let args = consumer_args(e, has_consumer);
    match plan.consumer {
        IterConsumerKind::For => (st, None),
        IterConsumerKind::CollectVec => {
            let exact = keeps_length(plan.adapters@) && source is Items;
            let (st, storage) = if exact {
                st.table_create(m_field(source->holder, "n"@), 2)
            } else {
                (st, ExprModel::Table(m_named(seq![("n"@, m_integer("0"@))])))
            };
            let (st, vector) = st.standard_call(
                env.program.hir,
                "std::vec"@,
                "from_table"@,
                seq![storage],
            );
            let (st, result) = st.iter_result(dest, local_result, vector);
            (
                if exact {
                    st.assign(m_field(result.0, "n"@), m_integer("0"@))
                } else {
                    st
                },
                Some(result),
            )
        },
        IterConsumerKind::Fold => {
            proof {
                if args.len() > 0 {
                    lemma_args_at(e, 0, 0);
                }
            }
            let (st, first) = if args.len() > 0 {
                g_inline(env, st, args[0])
            } else {
                (st, ExprModel::Nil)
            };
            let (st, result) = st.iter_result(dest, local_result, first);
            (st, Some(result))
        },
        IterConsumerKind::Count => {
            let (st, result) = st.iter_result(dest, local_result, m_integer("0"@));
            (st, Some(result))
        },
        IterConsumerKind::Any => {
            let (st, result) = st.iter_result(dest, local_result, ExprModel::Bool(false));
            (st, Some(result))
        },
        IterConsumerKind::All => {
            let (st, result) = st.iter_result(dest, local_result, ExprModel::Bool(true));
            (st, Some(result))
        },
        IterConsumerKind::Find | IterConsumerKind::Next => {
            let (st, result) = st.iter_result(dest, local_result, ExprModel::Nil);
            (st, Some(result))
        },
    }
}

/// What the adapters from `i` on do with the item. Gives the number of guards
/// that they leave open.
pub open spec fn g_iter_adapters(
    env: EnvModel,
    st: Cg,
    e: Expr,
    plan: IterPlan,
    has_consumer: bool,
    states: Seq<AdapterState>,
    item: Seq<char>,
    i: int,
    guards: nat,
) -> (Cg, nat)
    decreases e, 4int, plan.adapters@.len() - i,
{
    if i < 0 || i >= plan.adapters@.len() {
        (st, guards)
    } else {
        let (st, guard) = g_iter_adapter(env, st, e, plan, has_consumer, states[i], item, i);
        g_iter_adapters(
            env,
            st,
            e,
            plan,
            has_consumer,
            states,
            item,
            i + 1,
            if guard {
                guards + 1
            } else {
                guards
            },
        )
    }
}

/// What one adapter does with the item, and whether it leaves a guard open.
pub open spec fn g_iter_adapter(
    env: EnvModel,
    st: Cg,
    e: Expr,
    plan: IterPlan,
    has_consumer: bool,
    state: AdapterState,
    item: Seq<char>,
    i: int,
) -> (Cg, bool)
    decreases e, 3int, 0int,
{
    let args = adapter_args(e, plan, has_consumer, i);
    match plan.adapters@[i] {
        IterAdapterKind::MapItems | IterAdapterKind::Filter | IterAdapterKind::FilterMap => if args.len()
            > 0 {
            proof {
                lemma_args_at(e, (adapters_end(plan, has_consumer) - 1 - i) as nat, 0);
            }
            let (st, value) = g_inlined_closure(env, st, args[0], seq![m_name(item)]);
            st.adapt(plan.adapters@[i], value, item)
        } else {
            (st, false)
        },
        kind => st.count(kind, state, item),
    }
}

/// What the consumer does with the item.
pub open spec fn g_iter_consume(
    env: EnvModel,
    st: Cg,
    e: Expr,
    plan: IterPlan,
    has_consumer: bool,
    result: Option<(ExprModel, bool)>,
    item: Seq<char>,
) -> Cg
    decreases e, 4int, 0int,
{
    let args = consumer_args(e, has_consumer);
    match result {
        None => st,
        Some((result, _)) => match plan.consumer {
            IterConsumerKind::For => st,
            IterConsumerKind::CollectVec => {
                let length = m_field(result, "n"@);
                st.assign(m_index(result, plus_one(length)), m_name(item)).assign(
                    length,
                    plus_one(length),
                )
            },
            IterConsumerKind::Fold => if args.len() > 1 {
                proof {
                    lemma_args_at(e, 0, 1);
                }
                let (st, next) = g_inlined_closure(
                    env,
                    st,
                    args[1],
                    seq![result, m_name(item)],
                );
                st.assign(result, next)
            } else {
                st
            },
            IterConsumerKind::Count => st.assign(result, plus_one(result)),
            IterConsumerKind::Any | IterConsumerKind::All | IterConsumerKind::Find => if args.len()
                > 0 {
                proof {
                    lemma_args_at(e, 0, 0);
                }
                let (st, matches) = g_inlined_closure(env, st, args[0], seq![m_name(item)]);
                st.compact_if(
                    if plan.consumer == IterConsumerKind::All {
                        m_unary(UnaryOp::Not, matches)
                    } else {
                        matches
                    },
                    seq![
                        InlineModel::Assign {
                            target: result,
                            value: if plan.consumer == IterConsumerKind::Any {
                                ExprModel::Bool(true)
                            } else if plan.consumer == IterConsumerKind::All {
                                ExprModel::Bool(false)
                            } else {
                                m_name(item)
                            },
                        },
                        InlineModel::Break,
                    ],
                )
            } else {
                st
            },
            IterConsumerKind::Next => st.assign(result, m_name(item)).brk(),
        },
    }
}

// ---------------------------------------------------------------------------
// Expressions as statements.
// ---------------------------------------------------------------------------

/// An expression whose value goes to a destination.
pub open spec fn g_expr_to(env: EnvModel, st: Cg, e: Expr, dest: DestModel) -> Cg
    decreases e, (if is_control(e) { 7int } else { 9int }), 0int,
{
    g_expr_to_inner(env, st.push_anchor(e.span), e, dest).pop_anchor()
}

pub open spec fn g_expr_to_inner(env: EnvModel, st: Cg, e: Expr, dest: DestModel) -> Cg
    decreases e, (if is_control(e) { 6int } else { 8int }), 0int,
{
    match plan_of(env, e) {
        Some(plan) => g_iter(env, st, e, plan, true, dest, None),
        None => match e.kind {
            ExprKind::Loop(body) => g_loop(env, st, body, dest),
            ExprKind::If { cond, then_block, else_block } => {
                let (st, condition) = g_inline(env, st, *cond);
                let st = g_block_to(env, st.begin_if(condition), then_block, dest);
                g_else(env, st, else_block, dest).end()
            },
            ExprKind::IfLet { pat, expr, then_block, else_block } => {
                let (st, value) = g_inline(env, st, *expr);
                let (st, subject) = g_subject(env, st, *expr, value);
                let (st, tests, binds) = g_pattern(
                    env,
                    st,
                    *pat,
                    subject,
                    None,
                    Seq::empty(),
                    Seq::empty(),
                );
                let st = st.begin_if(all_of(tests)).bind_patterns(env.program.hir, binds, 0);
                let st = g_block_to(env, st, then_block, dest);
                g_else(env, st, else_block, dest).end()
            },
            ExprKind::Block(block) => g_block_to(env, st, block, dest),
            ExprKind::Match { scrut, arms } => g_match(env, st, e, dest),
            ExprKind::Assign { op, target, value } => {
                let st = match op {
                    Some(op) => {
                        let (st, place) = g_assignment_place(env, st, *target);
                        let (st, rhs) = g_inline(env, st, *value);
                        let (st, assigned) = compound_value(env, st, e.id, op, place, rhs);
                        st.assign(place, assigned)
                    },
                    None => {
                        let (st, place) = g_inline(env, st, *target);
                        g_expr_to(env, st, *value, DestModel::Var(place))
                    },
                };
                st.deliver_unit(dest)
            },
            _ => {
                let (st, value) = g_inline(env, st, e);
                st.deliver(dest, value)
            },
        },
    }
}

/// The subject of a pattern: a variable that never changes, or a temporary.
pub open spec fn g_subject(env: EnvModel, st: Cg, e: Expr, value: ExprModel) -> (Cg, ExprModel) {
    if immutable_local(env, e) {
        (st, value)
    } else {
        let (st, tmp) = st.fresh();
        (st.local(tmp, Some(value)), m_name(tmp))
    }
}

/// The `else` of a conditional. Without one a variable gets nil.
pub open spec fn g_else(
    env: EnvModel,
    st: Cg,
    branch: Option<Box<ElseBranch>>,
    dest: DestModel,
) -> Cg
    decreases branch, 0int, 0int,
{
    match branch {
        Some(branch) => match *branch {
            ElseBranch::Block(block) => g_block_to(env, st.begin_else(), block, dest),
            ElseBranch::If(inner) => g_expr_to(env, st.begin_else(), inner, dest),
        },
        None => match dest {
            DestModel::Var(target) => st.begin_else().assign(target, ExprModel::Nil),
            _ => st,
        },
    }
}

/// The address of a compound assignment, evaluated once.
pub open spec fn g_assignment_place(env: EnvModel, st: Cg, target: Expr) -> (Cg, ExprModel)
    decreases target, 10int, 0int,
{
    match target.kind {
        ExprKind::Field { base, name, .. } => {
            let (st, value) = g_inline(env, st, *base);
            let (st, tmp) = st.fresh();
            (st.local(tmp, Some(value)), m_field(m_name(tmp), identifier_of(name@)))
        },
        ExprKind::Index { base, index } => {
            let (st, value) = g_inline(env, st, *base);
            let (st, b) = st.fresh();
            let (st, value) = g_inline(env, st.local(b, Some(value)), *index);
            let (st, i) = st.fresh();
            (st.local(i, Some(value)), m_index(m_name(b), m_name(i)))
        },
        _ => g_inline(env, st, target),
    }
}

/// A `loop` whose `break` values go to a destination.
pub open spec fn g_loop(env: EnvModel, st: Cg, body: Block, dest: DestModel) -> Cg
    decreases body, 1int, 0int,
{
    let (st, target) = match dest {
        DestModel::Discard => (st, None),
        DestModel::Var(target) => (st, Some(target)),
        DestModel::Return => {
            let (st, tmp) = st.fresh();
            (st.local(tmp, None), Some(m_name(tmp)))
        },
    };
    let st = st.begin(OpenerModel::While { condition: ExprModel::Bool(true) }).push_break(target);
    let st = g_block_to(env, st, body, DestModel::Discard);
    let st = st.pop_break().continue_label(body).end();
    match dest {
        DestModel::Return => st.return_value(target->0),
        _ => st,
    }
}

/// A block whose value goes to a destination.
pub open spec fn g_block_to(env: EnvModel, st: Cg, block: Block, dest: DestModel) -> Cg
    decreases block, 0int, 0int,
{
    let st = g_stmts(
        env,
        st.push_scope(Map::empty()),
        block.stmts@,
        block.statement_blank_before@,
        0,
    );
    let st = match block.tail {
        Some(tail) => g_expr_to(
            env,
            if block.tail_blank_before {
                st.blank()
            } else {
                st
            },
            *tail,
            dest,
        ),
        None => match dest {
            DestModel::Var(target) => st.assign(target, ExprModel::Nil),
            _ => st,
        },
    };
    st.pop_scope()
}

/// The statements `stmts[from..]`.
pub open spec fn g_stmts(env: EnvModel, st: Cg, stmts: Seq<Stmt>, flags: Seq<bool>, from: int) -> Cg
    decreases stmts, 0int, stmts.len() - from,
{
    if from < 0 || from >= stmts.len() {
        st
    } else {
        g_stmts(
            env,
            g_stmt(env, st.blank_before(flags, from), stmts[from]),
            stmts,
            flags,
            from + 1,
        )
    }
}

// ---------------------------------------------------------------------------
// Patterns and matches.
// ---------------------------------------------------------------------------

/// The tests and bindings of a pattern against a subject.
pub open spec fn g_pattern(
    env: EnvModel,
    st: Cg,
    pattern: Pattern,
    subject: ExprModel,
    cached: Option<ExprModel>,
    tests: Seq<ExprModel>,
    binds: Seq<BindingModel>,
) -> (Cg, Seq<ExprModel>, Seq<BindingModel>)
    decreases pattern, 0int, 0int,
{
    let hir = env.program.hir;
    match pattern {
        Pattern::Wildcard => (st, tests, binds),
        Pattern::Binding(name, source) => (
            st,
            tests,
            binds.push(BindingModel { name: name@, source, value: subject }),
        ),
        Pattern::Literal(literal) => {
            let (st, value) = g_inline(env, st, literal);
            (st, tests.push(m_binary(subject, BinaryOp::Eq, value)), binds)
        },
        Pattern::Range { lo, hi, inclusive } => {
            let (st, low) = g_inline(env, st, *lo);
            let (st, high) = g_inline(env, st, *hi);
            (
                st,
                tests.push(
                    m_parenthesized(
                        m_binary(
                            m_binary(subject, BinaryOp::Ge, low),
                            BinaryOp::And,
                            m_binary(
                                subject,
                                if inclusive {
                                    BinaryOp::Le
                                } else {
                                    BinaryOp::Lt
                                },
                                high,
                            ),
                        ),
                    ),
                ),
                binds,
            )
        },
        Pattern::Path { id, .. } => match env.program.spec_pattern_target(id) {
            ResolvedTarget::Builtin(BuiltinId::VariantOptionNone) => (
                st,
                tests.push(eq_nil(subject)),
                binds,
            ),
            ResolvedTarget::Builtin(BuiltinId::VariantOptionSome) => (
                st,
                tests.push(ne_nil(subject)),
                binds,
            ),
            ResolvedTarget::Builtin(BuiltinId::VariantResultOk) => (
                st,
                tests.push(flag_of(cached, subject)),
                binds,
            ),
            ResolvedTarget::Builtin(BuiltinId::VariantResultErr) => (
                st,
                tests.push(m_unary(UnaryOp::Not, flag_of(cached, subject))),
                binds,
            ),
            target => match variant_of(hir, target) {
                Some((_, variant, _)) => (
                    st,
                    tests.push(
                        m_binary(
                            tag_of(cached, subject),
                            BinaryOp::Eq,
                            m_string(definition_name(hir, variant)),
                        ),
                    ),
                    binds,
                ),
                None => (st.fault(), tests, binds),
            },
        },
        Pattern::TupleVariant { id, elems, .. } => match env.program.spec_pattern_target(id) {
            ResolvedTarget::Builtin(BuiltinId::VariantOptionSome) => {
                let tests = tests.push(ne_nil(subject));
                if elems@.len() > 0 {
                    g_pattern(env, st, elems@[0], subject, None, tests, binds)
                } else {
                    (st, tests, binds)
                }
            },
            ResolvedTarget::Builtin(BuiltinId::VariantResultOk) => {
                let tests = tests.push(flag_of(cached, subject));
                if elems@.len() > 0 {
                    g_pattern(env, st, elems@[0], payload_of(subject), None, tests, binds)
                } else {
                    (st, tests, binds)
                }
            },
            ResolvedTarget::Builtin(BuiltinId::VariantResultErr) => {
                let tests = tests.push(m_unary(UnaryOp::Not, flag_of(cached, subject)));
                if elems@.len() > 0 {
                    g_pattern(env, st, elems@[0], payload_of(subject), None, tests, binds)
                } else {
                    (st, tests, binds)
                }
            },
            target => match variant_of(hir, target) {
                Some((_, variant, VariantShape::Tuple)) => g_elements(
                    env,
                    st,
                    elems@,
                    subject,
                    0,
                    tests.push(
                        m_binary(
                            tag_of(cached, subject),
                            BinaryOp::Eq,
                            m_string(definition_name(hir, variant)),
                        ),
                    ),
                    binds,
                ),
                _ => (st.fault(), tests, binds),
            },
        },
        Pattern::StructVariant { id, fields, .. } => {
            let tests = match variant_of(hir, env.program.spec_pattern_target(id)) {
                Some((_, variant, _)) => tests.push(
                    m_binary(
                        tag_of(cached, subject),
                        BinaryOp::Eq,
                        m_string(definition_name(hir, variant)),
                    ),
                ),
                None => tests,
            };
            g_field_patterns(env, st, fields@, subject, 0, tests, binds)
        },
    }
}

/// The elements `elems[from..]` of a tuple variant.
pub open spec fn g_elements(
    env: EnvModel,
    st: Cg,
    elems: Seq<Pattern>,
    subject: ExprModel,
    from: int,
    tests: Seq<ExprModel>,
    binds: Seq<BindingModel>,
) -> (Cg, Seq<ExprModel>, Seq<BindingModel>)
    decreases elems, 0int, elems.len() - from,
{
    if from < 0 || from >= elems.len() {
        (st, tests, binds)
    } else {
        let (st, tests, binds) = g_pattern(
            env,
            st,
            elems[from],
            m_index(subject, m_integer(decimal((from + 1) as nat))),
            None,
            tests,
            binds,
        );
        g_elements(env, st, elems, subject, from + 1, tests, binds)
    }
}

/// The fields `fields[from..]` of a struct pattern.
pub open spec fn g_field_patterns(
    env: EnvModel,
    st: Cg,
    fields: Seq<(String, Pattern)>,
    subject: ExprModel,
    from: int,
    tests: Seq<ExprModel>,
    binds: Seq<BindingModel>,
) -> (Cg, Seq<ExprModel>, Seq<BindingModel>)
    decreases fields, 0int, fields.len() - from,
{
    if from < 0 || from >= fields.len() {
        (st, tests, binds)
    } else {
        let (st, tests, binds) = g_pattern(
            env,
            st,
            fields[from].1,
            m_field(subject, identifier_of(fields[from].0@)),
            None,
            tests,
            binds,
        );
        g_field_patterns(env, st, fields, subject, from + 1, tests, binds)
    }
}

/// The tests and bindings of an arm. Alternatives bind nothing.
pub open spec fn g_arm_tests(
    env: EnvModel,
    st: Cg,
    arm: MatchArm,
    subject: ExprModel,
    cached: Option<ExprModel>,
) -> (Cg, Seq<ExprModel>, Seq<BindingModel>)
    decreases arm, 0int, 0int,
{
    if arm.pats@.len() == 1 {
        let (st, tests, binds) = g_pattern(
            env,
            st,
            arm.pats@[0],
            subject,
            cached,
            Seq::empty(),
            Seq::empty(),
        );
        (st, tests, kept_bindings(arm, binds))
    } else {
        let (st, alternatives) = g_alternatives(
            env,
            st,
            arm.pats@,
            subject,
            cached,
            0,
            Seq::empty(),
        );
        (st, seq![any_of(alternatives)], Seq::empty())
    }
}

/// The tests of the alternatives `pats[from..]`.
pub open spec fn g_alternatives(
    env: EnvModel,
    st: Cg,
    pats: Seq<Pattern>,
    subject: ExprModel,
    cached: Option<ExprModel>,
    from: int,
    done: Seq<ExprModel>,
) -> (Cg, Seq<ExprModel>)
    decreases pats, 0int, pats.len() - from,
{
    if from < 0 || from >= pats.len() {
        (st, done)
    } else {
        let (st, tests, _) = g_pattern(
            env,
            st,
            pats[from],
            subject,
            cached,
            Seq::empty(),
            Seq::empty(),
        );
        g_alternatives(
            env,
            st,
            pats,
            subject,
            cached,
            from + 1,
            done.push(m_parenthesized(all_of(tests))),
        )
    }
}

/// Whether no arm has a guard.
pub open spec fn no_guards(arms: Seq<MatchArm>) -> bool {
    forall|i: int| 0 <= i < arms.len() ==> (#[trigger] arms[i]).guard is None
}

/// A match whose value goes to a destination.
pub open spec fn g_match(env: EnvModel, st: Cg, e: Expr, dest: DestModel) -> Cg
    decreases e, 5int, 0int,
{
    match e.kind {
        ExprKind::Match { scrut, arms } => if dest is Return && no_guards(arms@) {
            g_return_match(env, st, e)
        } else {
            let (st, m) = st.fresh();
            let (st, value) = g_inline(env, st, *scrut);
            let (st, matched) = st.local(m, Some(value)).fresh();
            let st = st.local(matched, Some(ExprModel::Bool(false)));
            let st = g_arms(env, st, arms@, m, matched, dest, 0);
            st.compact_if(
                m_unary(UnaryOp::Not, m_name(matched)),
                seq![InlineModel::Expression(no_arm_matched())],
            )
        },
        _ => st,
    }
}

/// The arms `arms[from..]` of a match that records whether one matched.
pub open spec fn g_arms(
    env: EnvModel,
    st: Cg,
    arms: Seq<MatchArm>,
    m: Seq<char>,
    matched: Seq<char>,
    dest: DestModel,
    from: int,
) -> Cg
    decreases arms, 0int, arms.len() - from,
{
    if from < 0 || from >= arms.len() {
        st
    } else {
        g_arms(
            env,
            g_arm(env, st, arms[from], m, matched, dest),
            arms,
            m,
            matched,
            dest,
            from + 1,
        )
    }
}

/// One arm of a match that records whether one matched.
pub open spec fn g_arm(
    env: EnvModel,
    st: Cg,
    arm: MatchArm,
    m: Seq<char>,
    matched: Seq<char>,
    dest: DestModel,
) -> Cg
    decreases arm, 1int, 0int,
{
    let (st, tests, binds) = g_arm_tests(env, st, arm, m_name(m), None);
    let unmatched = m_unary(UnaryOp::Not, m_name(matched));
    let condition = if tests.len() == 0 {
        unmatched
    } else {
        m_binary(unmatched, BinaryOp::And, m_parenthesized(all_of(tests)))
    };
    let st = st.begin_if(condition).bind_patterns(env.program.hir, binds, 0);
    g_arm_body(env, st, arm, matched, dest).end()
}

/// The guard and the body of an arm.
pub open spec fn g_arm_body(
    env: EnvModel,
    st: Cg,
    arm: MatchArm,
    matched: Seq<char>,
    dest: DestModel,
) -> Cg
    decreases arm, 0int, 0int,
{
    match arm.guard {
        Some(guard) => {
            let (st, test) = g_inline(env, st, guard);
            let st = st.begin_if(test).assign(m_name(matched), ExprModel::Bool(true));
            g_expr_to(env, st, arm.body, dest).end()
        },
        None => {
            let st = st.assign(m_name(matched), ExprModel::Bool(true));
            g_expr_to(env, st, arm.body, dest)
        },
    }
}

/// A match whose arms all return.
pub open spec fn g_return_match(env: EnvModel, st: Cg, e: Expr) -> Cg
    decreases e, 4int, 0int,
{
    match e.kind {
        ExprKind::Match { scrut, arms } => {
            let (st, value) = g_inline(env, st, *scrut);
            let (st, subject) = if scrut.kind is Path {
                (st, value)
            } else {
                let (st, tmp) = st.fresh();
                (st.local(tmp, Some(value)), m_name(tmp))
            };
            let proven = is_exhaustive(env.program, arms@);
            let conditional = arms@.len() - (if proven {
                1int
            } else {
                0int
            });
            let (st, cached) = if conditional >= 2 && uses_tag(env.program, arms@) {
                let (st, tmp) = st.fresh();
                let tag = if uses_result_tag(env.program, arms@) {
                    ok_of(subject)
                } else {
                    m_field(subject, "tag"@)
                };
                (st.local(tmp, Some(tag)), Some(m_name(tmp)))
            } else {
                (st, None)
            };
            g_return_arms(env, st, arms@, subject, cached, proven, 0, false)
        },
        _ => st,
    }
}

/// The bindings and the body of an arm that returns.
pub open spec fn g_return_body(env: EnvModel, st: Cg, arm: MatchArm, binds: Seq<BindingModel>) -> Cg
    decreases arm, 0int, 0int,
{
    g_expr_to(env, st.bind_patterns(env.program.hir, binds, 0), arm.body, DestModel::Return)
}

/// The last arm of a match whose arms all return.
pub open spec fn g_return_last(
    env: EnvModel,
    st: Cg,
    arm: MatchArm,
    binds: Seq<BindingModel>,
    open: bool,
) -> Cg
    decreases arm, 1int, 0int,
{
    if open {
        g_return_body(env, st.begin_else(), arm, binds).end()
    } else {
        g_return_body(env, st, arm, binds)
    }
}

/// The arms `arms[from..]` of a match whose arms all return. `open` tells
/// whether an `if` is open.
pub open spec fn g_return_arms(
    env: EnvModel,
    st: Cg,
    arms: Seq<MatchArm>,
    subject: ExprModel,
    cached: Option<ExprModel>,
    proven: bool,
    from: int,
    open: bool,
) -> Cg
    decreases arms, 0int, arms.len() - from,
{
    if from < 0 || from >= arms.len() {
        st.no_match(open)
    } else {
        let arm = arms[from];
        let (st, tests, binds) = g_arm_tests(env, st, arm, subject, cached);
        if tests.len() == 0 || (proven && from + 1 == arms.len()) {
            g_return_last(env, st, arm, binds, open)
        } else {
            let st = g_return_body(env, st.branch(all_of(tests), open), arm, binds);
            g_return_arms(env, st, arms, subject, cached, proven, from + 1, true)
        }
    }
}

// ---------------------------------------------------------------------------
// Statements.
// ---------------------------------------------------------------------------

/// A statement, attributed to its source.
pub open spec fn g_stmt(env: EnvModel, st: Cg, s: Stmt) -> Cg
    decreases s, 9int, 0int,
{
    match source_of(s) {
        Some(source) => g_stmt_inner(env, st.push_anchor(source), s).pop_anchor(),
        None => g_stmt_inner(env, st, s),
    }
}

pub open spec fn g_stmt_inner(env: EnvModel, st: Cg, s: Stmt) -> Cg
    decreases s, 8int, 0int,
{
    match s {
        Stmt::Lua { code, .. } => st.annotation(code@),
        Stmt::Let { .. } => g_let(env, st, s),
        Stmt::Expr(e) => g_expr_to(env, st, e, DestModel::Discard),
        Stmt::Return(value) => if st.closure_returns.len() > 0 {
            let (target, label) = st.closure_returns.last();
            let st = match value {
                Some(e) => g_expr_to(env, st, e, DestModel::Var(m_name(target))),
                None => st.assign(m_name(target), ExprModel::Nil),
            };
            st.goto(label)
        } else {
            let st = st.begin(OpenerModel::Do);
            let st = match value {
                Some(e) => g_expr_to(env, st, e, DestModel::Return),
                None => st.return_none(),
            };
            st.end()
        },
        Stmt::While { cond, body } => {
            let (st, condition) = g_inline(env, st, cond);
            let st = st.begin(OpenerModel::While { condition }).push_break(None);
            g_block_to(env, st, body, DestModel::Discard).pop_break().continue_label(body).end()
        },
        Stmt::Loop { body } => g_loop(env, st, body, DestModel::Discard),
        Stmt::For { iter, body, .. } => {
            let removable_range = body.stmts@.len() == 0 && body.tail is None && (
            iter.kind matches ExprKind::Range { start, end, .. } && removable(env, *start, false)
                && removable(env, *end, false));
            if removable_range {
                st
            } else {
                g_for(env, st.push_break(None), s).pop_break()
            }
        },
        Stmt::WhileLet { pat, expr, body } => {
            let st = st.begin(OpenerModel::While { condition: ExprModel::Bool(true) }).push_break(
                None,
            );
            let (st, value) = g_inline(env, st, expr);
            let (st, subject) = g_subject(env, st, expr, value);
            let (st, tests, binds) = g_pattern(
                env,
                st,
                *pat,
                subject,
                None,
                Seq::empty(),
                Seq::empty(),
            );
            let st = st.begin_if(all_of(tests)).bind_patterns(env.program.hir, binds, 0);
            let st = g_block_to(env, st, body, DestModel::Discard).begin_else().brk().end();
            st.continue_label(body).pop_break().end()
        },
        Stmt::Break(value) => {
            let target = if st.breaks.len() == 0 {
                None
            } else {
                st.breaks.last()
            };
            let st = match value {
                Some(e) => match target {
                    Some(target) => g_expr_to(env, st, e, DestModel::Var(target)),
                    None => g_expr_to(env, st, e, DestModel::Discard),
                },
                None => match target {
                    Some(target) => st.assign(target, ExprModel::Nil),
                    None => st,
                },
            };
            st.brk()
        },
        Stmt::Continue => st.goto("continue"@),
    }
}

/// A `let` statement.
pub open spec fn g_let(env: EnvModel, st: Cg, s: Stmt) -> Cg
    decreases s, 7int, 0int,
{
    match s {
        Stmt::Let { name, name_span, ty, init, .. } => {
            let unused = unused_binding(env, name_span);
            if unused && removable(env, init, false) {
                st
            } else if unused && discardable(env, init) {
                g_expr_to(env, st, init, DestModel::Discard)
            } else {
                let local = st.local_name(name@);
                let st = match ty {
                    Some(ty) => st.annotation("---@type "@ + type_text(env, ty)),
                    None => st,
                };
                match init.kind {
                    ExprKind::Closure { params, body, .. } => g_closure(
                        env,
                        st,
                        local,
                        params@,
                        body,
                    ),
                    ExprKind::Try { expr } => {
                        let (st, value) = g_inline(env, st, *expr);
                        if env.program.types.result_tries@.contains(init.id) {
                            let (st, result) = st.fresh();
                            st.local(result, Some(value)).compact_if(
                                err_of(m_name(result)),
                                seq![InlineModel::Return(seq![m_name(result)])],
                            ).local(local, Some(payload_of(m_name(result))))
                        } else if immutable_local(env, *expr) {
                            st.compact_if(
                                eq_nil(value),
                                seq![InlineModel::Return(seq![ExprModel::Nil])],
                            ).bind_substitution(env.program.hir, name_span, value)
                        } else {
                            st.local(local, Some(value)).compact_if(
                                eq_nil(m_name(local)),
                                seq![InlineModel::Return(seq![ExprModel::Nil])],
                            )
                        }
                    },
                    _ => match plan_of(env, init) {
                        Some(plan) => g_iter(
                            env,
                            st.push_anchor(init.span),
                            init,
                            plan,
                            true,
                            DestModel::Var(m_name(local)),
                            Some(local),
                        ).pop_anchor(),
                        None => if is_hoisted(init) {
                            g_expr_to(
                                env,
                                st.local(local, None),
                                init,
                                DestModel::Var(m_name(local)),
                            )
                        } else {
                            let (st, value) = g_inline(env, st, init);
                            st.local(local, Some(value))
                        },
                    },
                }
            }
        },
        _ => st,
    }
}

/// Whether a `for` runs over an iterator chain.
pub open spec fn for_plan(env: EnvModel, iter: Expr) -> Option<IterPlan> {
    match env.program.types.iter_plans.at(iter.id) {
        Some(plan) => if (plan.adapters@.len() > 0 || source_is_call(plan.source)) && chain_source(
            iter,
            plan,
            false,
        ) is Some {
            Some(plan)
        } else {
            None
        },
        None => None,
    }
}

/// Whether a `for` pulls its items from an iterator value.
pub open spec fn for_pulls(env: EnvModel, iter: Expr) -> bool {
    match env.program.types.iter_plans.at(iter.id) {
        Some(plan) => !(plan.source is Vec) && !(iter.kind is Range),
        None => false,
    }
}

/// The upper bound of a numeric `for`.
pub open spec fn for_stop(st: Cg, end: Expr, value: ExprModel, inclusive: bool) -> (Cg, ExprModel) {
    if inclusive {
        (st, value)
    } else {
        match end.kind {
            ExprKind::Int(source) => match parsed_int(source@, 10) {
                Some(number) => if number == i64::MIN {
                    (st.fault(), value)
                } else {
                    (st, m_integer(signed_decimal(number - 1)))
                },
                None => (st, minus_one(value)),
            },
            _ => (st, minus_one(value)),
        }
    }
}

/// A `for` statement.
pub open spec fn g_for(env: EnvModel, st: Cg, s: Stmt) -> Cg
    decreases s, 7int, 0int,
{
    match s {
        Stmt::For { iter, .. } => match for_plan(env, iter) {
            Some(plan) => g_for_chain(env, st, s, plan),
            None => if for_pulls(env, iter) {
                g_for_pull(env, st, s)
            } else if iter.kind is Range {
                g_for_range(env, st, s)
            } else {
                g_for_each(env, st, s)
            },
        },
        _ => st,
    }
}

/// A `for` over an iterator chain.
pub open spec fn g_for_chain(env: EnvModel, st: Cg, s: Stmt, plan: IterPlan) -> Cg
    decreases s, 6int, 0int,
{
    match s {
        Stmt::For { var, iter, body, .. } => if !(plan.consumer is For) {
            g_iter(env, st, iter, plan, false, DestModel::Discard, None)
        } else if !source_fits(iter, plan, false) {
            st
        } else {
            let variable = st.local_name(var@);
            let (st, source) = g_iter_source(env, st, iter, plan, false);
            let (st, states) = g_iter_states(env, st, iter, plan, false, 0, Seq::empty());
            let (st, item) = st.iter_head(source);
            let (st, guards) = g_iter_adapters(env, st, iter, plan, false, states, item, 0, 0);
            let st = g_block_to(
                env,
                st.local(variable, Some(m_name(item))),
                body,
                DestModel::Discard,
            );
            st.iter_close(plan, states, guards, block_continues(body), None, DestModel::Discard)
        },
        _ => st,
    }
}

/// A `for` that pulls items until there is none.
pub open spec fn g_for_pull(env: EnvModel, st: Cg, s: Stmt) -> Cg
    decreases s, 6int, 0int,
{
    match s {
        Stmt::For { var, iter, body, .. } => {
            let variable = st.local_name(var@);
            let (st, holder) = st.fresh();
            let (st, value) = g_inline(env, st, iter);
            let st = st.local(holder, Some(value)).begin(
                OpenerModel::While { condition: ExprModel::Bool(true) },
            ).pull_item(variable, holder);
            g_block_to(env, st, body, DestModel::Discard).continue_label(body).end()
        },
        _ => st,
    }
}

/// A `for` over a range.
pub open spec fn g_for_range(env: EnvModel, st: Cg, s: Stmt) -> Cg
    decreases s, 6int, 0int,
{
    match s {
        Stmt::For { var, var_span, iter, body } => match iter.kind {
            ExprKind::Range { start, end, inclusive } => {
                let variable = st.local_name(var@);
                let (st, first) = g_inline(env, st, *start);
                let (st, last) = g_inline(env, st, *end);
                let (st, stop) = for_stop(st, *end, last, inclusive);
                let st = st.begin(OpenerModel::NumericFor { variable, start: first, stop });
                let st = if nonnegative_literal(*start) {
                    st.push_nonnegative(env.program.hir, var_span)
                } else {
                    st
                };
                let st = g_block_to(env, st, body, DestModel::Discard);
                let st = if nonnegative_literal(*start) {
                    st.pop_nonnegative()
                } else {
                    st
                };
                st.continue_label(body).end()
            },
            _ => st,
        },
        _ => st,
    }
}

/// A `for` over the items of a vector.
pub open spec fn g_for_each(env: EnvModel, st: Cg, s: Stmt) -> Cg
    decreases s, 6int, 0int,
{
    match s {
        Stmt::For { var, iter, body, .. } => {
            let variable = st.local_name(var@);
            let (st, value) = g_inline(env, st, iter);
            let (st, holder) = st.fresh();
            let (st, index) = st.local(holder, Some(value)).fresh();
            let st = st.begin(
                OpenerModel::NumericFor {
                    variable: index,
                    start: m_integer("1"@),
                    stop: m_field(m_name(holder), "n"@),
                },
            ).local(variable, Some(m_index(m_name(holder), m_name(index))));
            g_block_to(env, st, body, DestModel::Discard).continue_label(body).end()
        },
        _ => st,
    }
}

} // verus!
