//! Lowering of iterator chains to loops.

use vstd::prelude::*;

use super::analysis::{
    adapters_end, args_at, chain_depth, chain_source, consumer_args, is_immutable_local_path,
    lemma_args_at, lemma_descend, nth_first_arg, nth_receiver,
};
use super::lower::{
    g_iter, g_iter_adapter, g_iter_adapters, g_iter_consume, g_iter_result, g_iter_source,
    g_iter_states, source_fits,
};
use super::small::{
    is_not_nil, length_of, named, one_less, one_more, preserves_length, states_model, text_option,
    IterAdapterState, IterLoopSource,
};
use super::state::{Codegen, Dest, Env};
use crate::ast::{Expr, ExprKind};
use crate::lua_ir::{
    exprs_model, fields_model, named_model, one_expr, two_exprs, BinaryOp as LuaBinaryOp,
    Expr as LuaExpr, ExprModel, FieldModel, Frames, InlineStatement, OpenerModel, TableField,
    UnaryOp as LuaUnaryOp,
};
use crate::typed::{IterAdapterKind, IterConsumerKind, IterPlan, IterSourceKind};

verus! {

/// The kind of the block `n` blocks out, and all blocks around it.
pub open spec fn floor(frames: Frames, n: nat) -> Option<(OpenerModel, Frames)>
    decreases n,
{
    match frames {
        Frames::Empty => None,
        Frames::Over { opener, outer, .. } => if n == 0 {
            Some((opener, *outer))
        } else {
            floor(*outer, (n - 1) as nat)
        },
    }
}

/// A result variable over mathematical trees.
pub open spec fn result_model(result: Option<(LuaExpr, bool)>) -> Option<(ExprModel, bool)> {
    match result {
        Some((value, sunk)) => Some((value.model(), sunk)),
        None => None,
    }
}

impl Codegen {
    /// An iterator chain as one loop that makes a value.
    pub fn gen_iter_loop(
        &mut self,
        env: &Env,
        e: &Expr,
        plan: &IterPlan,
        has_consumer: bool,
        dest: &Dest,
        local_result: Option<&str>,
    )
        ensures
            final(self)@ == g_iter(
                env@,
                old(self)@,
                *e,
                *plan,
                has_consumer,
                dest.model(),
                text_option(local_result),
            ),
            final(self)@.lua.shape() == old(self)@.lua.shape(),
        decreases *e, 5int, 0int,
    {
        if !fits(e, plan, has_consumer) {
            return ;
        }
        let source = self.gen_iter_source(env, e, plan, has_consumer);
        let states = self.gen_iter_states(env, e, plan, has_consumer);
        let result = self.gen_iter_result(env, e, plan, has_consumer, &source, dest, local_result);
        let item = self.iter_head(&source);
        let guards = self.gen_iter_adapters(env, e, plan, has_consumer, &states, item.as_str());
        self.gen_iter_consume(env, e, plan, has_consumer, &result, item.as_str());
        self.iter_close(plan, &states, guards, false, &result, dest);
    }

    /// The source of an iterator chain in variables.
    pub fn gen_iter_source(&mut self, env: &Env, e: &Expr, plan: &IterPlan, has_consumer: bool) -> (r:
        IterLoopSource)
        ensures
            (final(self)@, r.model()) == g_iter_source(env@, old(self)@, *e, *plan, has_consumer),
            final(self)@.lua.shape() == old(self)@.lua.shape(),
        decreases *e, 4int, 0int,
    {
        let depth = match chain_depth(plan, has_consumer) {
            Some(depth) => depth,
            None => {
                return IterLoopSource::Items { holder: LuaExpr::Nil };
            },
        };
        let source = match nth_receiver(e, depth) {
            Some(source) => source,
            None => {
                return IterLoopSource::Items { holder: LuaExpr::Nil };
            },
        };
        if depth == 0 {
            return IterLoopSource::Items { holder: LuaExpr::Nil };
        }
        proof {
            lemma_descend(*e, depth as nat);
        }
        match plan.source {
            IterSourceKind::ExclusiveRange | IterSourceKind::InclusiveRange => {
                let inclusive = plan.source == IterSourceKind::InclusiveRange;
                match &source.kind {
                    ExprKind::Range { start, end, .. } => {
                        let value = self.gen_inline(env, start);
                        let first = self.fresh_tmp();
                        self.local(first.as_str(), value);
                        let value = self.gen_inline(env, end);
                        let last = self.fresh_tmp();
                        self.local(last.as_str(), value);
                        IterLoopSource::Range { start: first, end: last, inclusive }
                    },
                    _ => IterLoopSource::Items { holder: LuaExpr::Nil },
                }
            },
            IterSourceKind::StringChars | IterSourceKind::StringSplit => {
                let text = self.gen_inline(env, source);
                let mut values = one_expr(text);
                self.gen_args_at(env, e, depth - 1, &mut values);
                let method = if plan.source == IterSourceKind::StringChars {
                    "chars"
                } else {
                    "split"
                };
                let value = self.standard_call(&env.program.hir, "std::string", method, values);
                let holder = self.fresh_tmp();
                self.local(holder.as_str(), value);
                IterLoopSource::Items { holder: LuaExpr::Name(holder) }
            },
            _ => {
                let value = self.gen_inline(env, source);
                if is_immutable_local_path(env, source) {
                    IterLoopSource::Items { holder: value }
                } else {
                    let holder = self.fresh_tmp();
                    self.local(holder.as_str(), value);
                    IterLoopSource::Items { holder: LuaExpr::Name(holder) }
                }
            },
        }
    }

    /// The arguments of the call `depth` calls down, after the given ones.
    fn gen_args_at(&mut self, env: &Env, e: &Expr, depth: usize, out: &mut Vec<LuaExpr>)
        ensures
            (final(self)@, exprs_model(final(out)@)) == if args_at(*e, depth as nat).len() == 0 {
                (old(self)@, exprs_model(old(out)@))
            } else {
                super::lower::g_inlines(
                    env@,
                    old(self)@,
                    args_at(*e, depth as nat),
                    0,
                    exprs_model(old(out)@),
                )
            },
            final(self)@.lua.shape() == old(self)@.lua.shape(),
        decreases *e, 3int, 0int,
    {
        proof {
            lemma_descend(*e, depth as nat);
        }
        match nth_receiver(e, depth) {
            Some(inner) => match &inner.kind {
                ExprKind::MethodCall { args, .. } => {
                    if args.len() > 0 {
                        proof {
                            assert(decreases_to!(*inner => *args));
                        }
                        self.gen_inlines(env, args, out);
                    }
                },
                _ => {},
            },
            None => {},
        }
    }

    /// The counters and limits of the adapters.
    pub fn gen_iter_states(&mut self, env: &Env, e: &Expr, plan: &IterPlan, has_consumer: bool) -> (r:
        Vec<IterAdapterState>)
        requires
            chain_source(*e, *plan, has_consumer) is Some,
        ensures
            (final(self)@, states_model(r@)) == g_iter_states(
                env@,
                old(self)@,
                *e,
                *plan,
                has_consumer,
                0,
                Seq::empty(),
            ),
            r@.len() == plan.adapters@.len(),
            final(self)@.lua.shape() == old(self)@.lua.shape(),
        decreases *e, 4int, 0int,
    {
        let ghost start = self@;
        let mut out: Vec<IterAdapterState> = Vec::new();
        let end: usize = if has_consumer {
            plan.adapters.len() + 1
        } else {
            plan.adapters.len()
        };
        let mut i: usize = 0;
        proof {
            assert(states_model(out@) =~= Seq::empty());
        }
        while i < plan.adapters.len()
            invariant
                i <= plan.adapters.len(),
                out@.len() == i,
                end == adapters_end(*plan, has_consumer),
                g_iter_states(
                    env@,
                    self@,
                    *e,
                    *plan,
                    has_consumer,
                    i as int,
                    states_model(out@),
                ) == g_iter_states(env@, start, *e, *plan, has_consumer, 0, Seq::empty()),
                self@.lua.shape() == start.lua.shape(),
            decreases plan.adapters.len() - i,
        {
            let depth: usize = end - 1 - i;
            let ghost before = states_model(out@);
            let state = match plan.adapters[i] {
                IterAdapterKind::Enumerate => self.counter_state(None),
                IterAdapterKind::Skip | IterAdapterKind::Take => {
                    let limit = match nth_first_arg(e, depth) {
                        Some(argument) => {
                            proof {
                                lemma_args_at(*e, depth as nat, 0);
                            }
                            self.gen_inline(env, argument)
                        },
                        None => LuaExpr::integer("0"),
                    };
                    self.counter_state(Some(limit))
                },
                _ => IterAdapterState { counter: "0".to_string(), limit: "0".to_string() },
            };
            out.push(state);
            proof {
                assert(states_model(out@) =~= before.push(state.model()));
            }
            i += 1;
        }
        out
    }

    /// The result variable of an iterator chain with its first value.
    fn gen_iter_result(
        &mut self,
        env: &Env,
        e: &Expr,
        plan: &IterPlan,
        has_consumer: bool,
        source: &IterLoopSource,
        dest: &Dest,
        local_result: Option<&str>,
    ) -> (r: Option<(LuaExpr, bool)>)
        ensures
            (final(self)@, result_model(r)) == g_iter_result(
                env@,
                old(self)@,
                *e,
                *plan,
                has_consumer,
                source.model(),
                dest.model(),
                text_option(local_result),
            ),
            final(self)@.lua.shape() == old(self)@.lua.shape(),
        decreases *e, 4int, 0int,
    {
        match plan.consumer {
            IterConsumerKind::For => None,
            IterConsumerKind::CollectVec => {
                let capacity = if preserves_length(&plan.adapters) {
                    match source {
                        IterLoopSource::Items { holder } => Some(length_of(holder.copy())),
                        IterLoopSource::Range { .. } => None,
                    }
                } else {
                    None
                };
                let exact = capacity.is_some();
                let storage = match capacity {
                    Some(capacity) => self.table_create(capacity, 2),
                    None => {
                        let mut fields: Vec<(String, LuaExpr)> = Vec::new();
                        let zero = LuaExpr::integer("0");
                        fields.push(("n".to_string(), zero));
                        proof {
                            assert(named_model(fields@) =~= seq![("n"@, zero.model())]);
                        }
                        LuaExpr::named_table(fields)
                    },
                };
                let vector = self.standard_call(
                    &env.program.hir,
                    "std::vec",
                    "from_table",
                    one_expr(storage),
                );
                let (result, sunk) = self.init_iter_result(dest, local_result, vector);
                if exact {
                    self.assign(length_of(result.copy()), LuaExpr::integer("0"));
                }
                Some((result, sunk))
            },
            IterConsumerKind::Fold => {
                let first = match consumer_arg(e, has_consumer, 0) {
                    Some(argument) => {
                        proof {
                            lemma_args_at(*e, 0, 0);
                        }
                        self.gen_inline(env, argument)
                    },
                    None => LuaExpr::Nil,
                };
                Some(self.init_iter_result(dest, local_result, first))
            },
            IterConsumerKind::Count => Some(
                self.init_iter_result(dest, local_result, LuaExpr::integer("0")),
            ),
            IterConsumerKind::Any => Some(
                self.init_iter_result(dest, local_result, LuaExpr::Bool(false)),
            ),
            IterConsumerKind::All => Some(
                self.init_iter_result(dest, local_result, LuaExpr::Bool(true)),
            ),
            IterConsumerKind::Find | IterConsumerKind::Next => Some(
                self.init_iter_result(dest, local_result, LuaExpr::Nil),
            ),
        }
    }

    /// The head of the loop of an iterator chain. Gives the item variable.
    pub fn iter_head(&mut self, source: &IterLoopSource) -> (r: String)
        ensures
            (final(self)@, r@) == old(self)@.iter_head(source.model()),
            final(self)@.lua.anchors == old(self)@.lua.anchors,
            floor(final(self)@.lua.frames, 0) is Some,
            (floor(final(self)@.lua.frames, 0)->0).1 == old(self)@.lua.frames,
    {
        let item = self.fresh_tmp();
        let index = self.fresh_tmp();
        match source {
            IterLoopSource::Range { start, end, inclusive } => {
                let stop = if *inclusive {
                    named(end.as_str())
                } else {
                    one_less(named(end.as_str()))
                };
                self.begin_numeric_for(index.as_str(), named(start.as_str()), stop);
                self.local(item.as_str(), LuaExpr::Name(index));
            },
            IterLoopSource::Items { holder } => {
                self.begin_numeric_for(
                    index.as_str(),
                    LuaExpr::integer("1"),
                    length_of(holder.copy()),
                );
                self.local(item.as_str(), holder.copy().index(LuaExpr::Name(index)));
            },
        }
        item
    }

    /// What the adapters do with the item. Gives the number of guards that they
    /// leave open.
    pub fn gen_iter_adapters(
        &mut self,
        env: &Env,
        e: &Expr,
        plan: &IterPlan,
        has_consumer: bool,
        states: &Vec<IterAdapterState>,
        item: &str,
    ) -> (r: usize)
        requires
            chain_source(*e, *plan, has_consumer) is Some,
            states@.len() == plan.adapters@.len(),
            floor(old(self)@.lua.frames, 0) is Some,
        ensures
            (final(self)@, r as nat) == g_iter_adapters(
                env@,
                old(self)@,
                *e,
                *plan,
                has_consumer,
                states_model(states@),
                item@,
                0,
                0,
            ),
            final(self)@.lua.anchors == old(self)@.lua.anchors,
            floor(final(self)@.lua.frames, r as nat) == floor(old(self)@.lua.frames, 0),
        decreases *e, 4int, 0int,
    {
        let ghost start = self@;
        let ghost model = states_model(states@);
        let mut guards: usize = 0;
        let end: usize = if has_consumer {
            plan.adapters.len() + 1
        } else {
            plan.adapters.len()
        };
        let mut i: usize = 0;
        while i < plan.adapters.len()
            invariant
                i <= plan.adapters.len(),
                guards <= i,
                end == adapters_end(*plan, has_consumer),
                model == states_model(states@),
                states@.len() == plan.adapters@.len(),
                g_iter_adapters(
                    env@,
                    self@,
                    *e,
                    *plan,
                    has_consumer,
                    model,
                    item@,
                    i as int,
                    guards as nat,
                ) == g_iter_adapters(env@, start, *e, *plan, has_consumer, model, item@, 0, 0),
                self@.lua.anchors == start.lua.anchors,
                floor(self@.lua.frames, guards as nat) == floor(start.lua.frames, 0),
            decreases plan.adapters.len() - i,
        {
            proof {
                assert(model[i as int] == states@[i as int].model());
            }
            let ghost before = self@.lua.frames;
            let guard = self.gen_iter_adapter(
                env,
                e,
                plan,
                has_consumer,
                &states[i],
                item,
                i,
                end - 1 - i,
            );
            if guard {
                proof {
                    assert(floor(*self@.lua.frames->outer, guards as nat) == floor(
                        before,
                        guards as nat,
                    ));
                }
                guards += 1;
            } else {
                proof {
                    assert(floor(self@.lua.frames, guards as nat) == floor(before, guards as nat));
                }
            }
            i += 1;
        }
        guards
    }

    fn gen_iter_adapter(
        &mut self,
        env: &Env,
        e: &Expr,
        plan: &IterPlan,
        has_consumer: bool,
        state: &IterAdapterState,
        item: &str,
        i: usize,
        depth: usize,
    ) -> (r: bool)
        requires
            i < plan.adapters@.len(),
            depth == adapters_end(*plan, has_consumer) - 1 - i,
        ensures
            (final(self)@, r) == g_iter_adapter(
                env@,
                old(self)@,
                *e,
                *plan,
                has_consumer,
                state.model(),
                item@,
                i as int,
            ),
            final(self)@.lua.anchors == old(self)@.lua.anchors,
            !r ==> final(self)@.lua.shape() == old(self)@.lua.shape(),
            r ==> final(self)@.lua.frames is Over && {
                let outer = *final(self)@.lua.frames->outer;
                (crate::lua_ir::BuilderModel { frames: outer, ..final(self)@.lua }).shape() == old(
                    self,
                )@.lua.shape()
            },
        decreases *e, 3int, 0int,
    {
        let kind = plan.adapters[i];
        match kind {
            IterAdapterKind::MapItems | IterAdapterKind::Filter | IterAdapterKind::FilterMap => {
                match nth_first_arg(e, depth) {
                    Some(closure) => {
                        proof {
                            lemma_args_at(*e, depth as nat, 0);
                        }
                        let value = self.gen_inlined_closure(env, closure, &one_expr(named(item)));
                        self.adapt(kind, value, item)
                    },
                    None => false,
                }
            },
            _ => self.count(kind, state, item),
        }
    }

    fn adapt(&mut self, kind: IterAdapterKind, value: LuaExpr, item: &str) -> (r: bool)
        ensures
            (final(self)@, r) == old(self)@.adapt(kind, value.model(), item@),
            final(self)@.lua.anchors == old(self)@.lua.anchors,
            !r ==> final(self)@.lua.shape() == old(self)@.lua.shape(),
            r ==> final(self)@.lua.frames is Over && *final(self)@.lua.frames->outer
                == old(self)@.lua.frames,
    {
        match kind {
            IterAdapterKind::MapItems => {
                self.assign(named(item), value);
                false
            },
            IterAdapterKind::Filter => {
                self.begin_if(value);
                true
            },
            _ => {
                self.begin_if(is_not_nil(value.copy()));
                self.assign(named(item), value);
                true
            },
        }
    }

    fn count(&mut self, kind: IterAdapterKind, state: &IterAdapterState, item: &str) -> (r: bool)
        ensures
            (final(self)@, r) == old(self)@.count(kind, state.model(), item@),
            final(self)@.lua.anchors == old(self)@.lua.anchors,
            !r ==> final(self)@.lua.shape() == old(self)@.lua.shape(),
            r ==> final(self)@.lua.frames is Over && *final(self)@.lua.frames->outer
                == old(self)@.lua.frames,
    {
        let counter = state.counter.as_str();
        match kind {
            IterAdapterKind::Enumerate => {
                let pair = numbered(counter, item);
                self.assign(named(item), pair);
                self.assign(named(counter), one_more(named(counter)));
                false
            },
            IterAdapterKind::Skip => {
                self.begin_if(
                    named(counter).binary(LuaBinaryOp::Lt, named(state.limit.as_str())),
                );
                self.assign(named(counter), one_more(named(counter)));
                self.begin_else();
                true
            },
            _ => {
                self.compact_if(
                    named(counter).binary(LuaBinaryOp::Ge, named(state.limit.as_str())),
                    InlineStatement::Break,
                );
                self.assign(named(counter), one_more(named(counter)));
                false
            },
        }
    }

    /// What the consumer does with the item.
    fn gen_iter_consume(
        &mut self,
        env: &Env,
        e: &Expr,
        plan: &IterPlan,
        has_consumer: bool,
        result: &Option<(LuaExpr, bool)>,
        item: &str,
    )
        ensures
            final(self)@ == g_iter_consume(
                env@,
                old(self)@,
                *e,
                *plan,
                has_consumer,
                result_model(*result),
                item@,
            ),
            final(self)@.lua.shape() == old(self)@.lua.shape(),
        decreases *e, 4int, 0int,
    {
        let result = match result {
            None => {
                return ;
            },
            Some((result, _)) => result,
        };
        match plan.consumer {
            IterConsumerKind::For => {},
            IterConsumerKind::CollectVec => {
                let slot = result.copy().index(one_more(length_of(result.copy())));
                self.assign(slot, named(item));
                self.assign(length_of(result.copy()), one_more(length_of(result.copy())));
            },
            IterConsumerKind::Fold => {
                if let Some(closure) = consumer_arg(e, has_consumer, 1) {
                    proof {
                        lemma_args_at(*e, 0, 1);
                    }
                    let next = self.gen_inlined_closure(
                        env,
                        closure,
                        &two_exprs(result.copy(), named(item)),
                    );
                    self.assign(result.copy(), next);
                }
            },
            IterConsumerKind::Count => {
                self.assign(result.copy(), one_more(result.copy()));
            },
            IterConsumerKind::Any => {
                if let Some(predicate) = consumer_arg(e, has_consumer, 0) {
                    proof {
                        lemma_args_at(*e, 0, 0);
                    }
                    let matches = self.gen_inlined_closure(env, predicate, &one_expr(named(item)));
                    self.compact_if_break(matches, result.copy(), LuaExpr::Bool(true));
                }
            },
            IterConsumerKind::All => {
                if let Some(predicate) = consumer_arg(e, has_consumer, 0) {
                    proof {
                        lemma_args_at(*e, 0, 0);
                    }
                    let matches = self.gen_inlined_closure(env, predicate, &one_expr(named(item)));
                    self.compact_if_break(
                        LuaExpr::unary(LuaUnaryOp::Not, matches),
                        result.copy(),
                        LuaExpr::Bool(false),
                    );
                }
            },
            IterConsumerKind::Find => {
                if let Some(predicate) = consumer_arg(e, has_consumer, 0) {
                    proof {
                        lemma_args_at(*e, 0, 0);
                    }
                    let matches = self.gen_inlined_closure(env, predicate, &one_expr(named(item)));
                    self.compact_if_break(matches, result.copy(), named(item));
                }
            },
            IterConsumerKind::Next => {
                self.assign(result.copy(), named(item));
                self.break_statement();
            },
        }
    }

    /// The end of the loop of an iterator chain.
    pub fn iter_close(
        &mut self,
        plan: &IterPlan,
        states: &Vec<IterAdapterState>,
        guards: usize,
        continues: bool,
        result: &Option<(LuaExpr, bool)>,
        dest: &Dest,
    )
        requires
            floor(old(self)@.lua.frames, guards as nat) is Some,
        ensures
            final(self)@ == old(self)@.iter_close(
                *plan,
                states_model(states@),
                guards as nat,
                continues,
                result_model(*result),
                dest.model(),
            ),
            final(self)@.lua.shape() == (crate::lua_ir::BuilderModel {
                frames: (floor(old(self)@.lua.frames, guards as nat)->0).1,
                ..old(self)@.lua
            }).shape(),
    {
        self.end_blocks(guards);
        if continues {
            self.label("continue");
        }
        self.iter_takes(plan, states);
        self.end_block();
        match result {
            None => {},
            Some((value, sunk)) => match dest {
                Dest::Var(target) => {
                    if !*sunk {
                        self.assign(target.copy(), value.copy());
                    }
                },
                Dest::Return => {
                    self.return_value(value.copy());
                },
                Dest::Discard => {},
            },
        }
    }

    /// Closes some blocks.
    fn end_blocks(&mut self, n: usize)
        requires
            floor(old(self)@.lua.frames, n as nat) is Some,
        ensures
            final(self)@ == old(self)@.ends(n as nat),
            final(self)@.lua.anchors == old(self)@.lua.anchors,
            floor(final(self)@.lua.frames, 0) == floor(old(self)@.lua.frames, n as nat),
    {
        let ghost start = self@;
        let mut left: usize = n;
        while left > 0
            invariant
                left <= n,
                self@.ends(left as nat) == start.ends(n as nat),
                self@.lua.anchors == start.lua.anchors,
                floor(self@.lua.frames, left as nat) == floor(start.lua.frames, n as nat),
                floor(start.lua.frames, n as nat) is Some,
            decreases left,
        {
            let ghost before = self@;
            self.end_block();
            left -= 1;
            proof {
                assert(floor(*before.lua.frames->outer, left as nat) == floor(
                    self@.lua.frames,
                    left as nat,
                ));
            }
        }
    }

    /// The tests that end the loop once enough was taken.
    fn iter_takes(&mut self, plan: &IterPlan, states: &Vec<IterAdapterState>)
        ensures
            final(self)@ == old(self)@.iter_takes(plan.adapters@, states_model(states@), 0),
            final(self)@.lua.shape() == old(self)@.lua.shape(),
    {
        let ghost start = self@;
        let ghost model = states_model(states@);
        let mut i: usize = 0;
        while i < plan.adapters.len() && i < states.len()
            invariant
                i <= plan.adapters.len(),
                i <= states.len(),
                model == states_model(states@),
                self@.iter_takes(plan.adapters@, model, i as int) == start.iter_takes(
                    plan.adapters@,
                    model,
                    0,
                ),
                self@.lua.shape() == start.lua.shape(),
            decreases plan.adapters.len() - i,
        {
            proof {
                assert(model[i as int] == states@[i as int].model());
            }
            if plan.adapters[i] == IterAdapterKind::Take {
                self.compact_if(
                    named(states[i].counter.as_str()).binary(
                        LuaBinaryOp::Ge,
                        named(states[i].limit.as_str()),
                    ),
                    InlineStatement::Break,
                );
            }
            i += 1;
        }
    }
}

/// The pair of a counter and an item.
fn numbered(counter: &str, item: &str) -> (r: LuaExpr)
    ensures
        r.model() == ExprModel::Table(
            seq![
                FieldModel::Value(ExprModel::Name(counter@)),
                FieldModel::Value(ExprModel::Name(item@)),
                FieldModel::Named("n"@, ExprModel::Integer("2"@)),
            ],
        ),
{
    let mut fields: Vec<TableField> = Vec::new();
    fields.push(TableField::Value(named(counter)));
    fields.push(TableField::Value(named(item)));
    fields.push(TableField::Named("n".to_string(), LuaExpr::integer("2")));
    proof {
        assert(fields_model(fields@) =~= seq![
            FieldModel::Value(ExprModel::Name(counter@)),
            FieldModel::Value(ExprModel::Name(item@)),
            FieldModel::Named("n"@, ExprModel::Integer("2"@)),
        ]);
    }
    LuaExpr::Table(fields)
}

/// An argument of the consumer.
fn consumer_arg(e: &Expr, has_consumer: bool, i: usize) -> (r: Option<&Expr>)
    ensures
        match r {
            Some(argument) => i < consumer_args(*e, has_consumer).len() && *argument
                == consumer_args(*e, has_consumer)[i as int] && consumer_args(*e, has_consumer)
                == args_at(*e, 0),
            None => i >= consumer_args(*e, has_consumer).len(),
        },
{
    if !has_consumer {
        return None;
    }
    match &e.kind {
        ExprKind::MethodCall { args, .. } => {
            if i < args.len() {
                Some(&args[i])
            } else {
                None
            }
        },
        _ => None,
    }
}

/// Whether an expression has the shape of an iterator plan.
pub fn fits(e: &Expr, plan: &IterPlan, has_consumer: bool) -> (r: bool)
    ensures
        r == source_fits(*e, *plan, has_consumer),
{
    let depth = match chain_depth(plan, has_consumer) {
        Some(depth) => depth,
        None => {
            return false;
        },
    };
    match nth_receiver(e, depth) {
        None => false,
        Some(source) => {
            let range = match &source.kind {
                ExprKind::Range { .. } => true,
                _ => false,
            };
            match plan.source {
                IterSourceKind::ExclusiveRange | IterSourceKind::InclusiveRange => range,
                _ => true,
            }
        },
    }
}

} // verus!
