//! Lowering of statements.

use vstd::prelude::*;

use super::analysis::{
    binding_is_unused, chain_depth, expression_is_removable, is_immutable_local_path, needs_hoist,
    nth_receiver, unused_value_can_be_discarded,
};
use super::annotate::type_to_emmylua;
use super::iterate::fits;
use super::lower::{
    for_plan, for_pulls, for_stop, g_for, g_for_chain, g_for_each, g_for_pull, g_for_range, g_let,
    g_stmt, g_stmt_inner,
};
use super::small::{
    and_all, bindings_model, consumer_plan, is_nil, is_nonnegative_literal, length_of, named,
    one_less, result_is_err, result_payload, return_inline, PatternBinding,
};
use super::state::{Codegen, Dest, Env};
use super::syntax::{block_has_continue, parse_int, statement_source};
use crate::ast::{Expr, ExprKind, Stmt};
use crate::lua_ir::{no_exprs, Expr as LuaExpr, InlineStatement};
use crate::text::{cat2, signed_text};
use crate::typed::{IterConsumerKind, IterPlan, IterSourceKind};

verus! {

impl Codegen {
    /// A statement, attributed to its source.
    pub fn gen_stmt(&mut self, env: &Env, statement: &Stmt)
        ensures
            final(self)@ == g_stmt(env@, old(self)@, *statement),
            final(self)@.lua.shape() == old(self)@.lua.shape(),
        decreases *statement, 9int, 0int,
    {
        match statement_source(statement) {
            Some(source) => {
                self.push_anchor(source);
                self.gen_stmt_inner(env, statement);
                self.pop_anchor();
                proof {
                    assert(self@.lua.anchors =~= old(self)@.lua.anchors);
                }
            },
            None => {
                self.gen_stmt_inner(env, statement);
            },
        }
    }

    fn gen_stmt_inner(&mut self, env: &Env, s: &Stmt)
        ensures
            final(self)@ == g_stmt_inner(env@, old(self)@, *s),
            final(self)@.lua.shape() == old(self)@.lua.shape(),
        decreases *s, 8int, 0int,
    {
        match s {
            Stmt::Lua { code, .. } => {
                self.annotation(code.as_str());
            },
            Stmt::Let { .. } => {
                self.gen_let(env, s);
            },
            Stmt::Expr(e) => {
                self.gen_expr_to(env, e, &Dest::Discard);
            },
            Stmt::Return(value) => {
                let n: usize = self.closure_return_targets.len();
                if n > 0 {
                    proof {
                        assert(self@.closure_returns.last() == (
                            self.closure_return_targets@[n - 1].0@,
                            self.closure_return_targets@[n - 1].1@,
                        ));
                    }
                    let target = self.closure_return_targets[n - 1].0.clone();
                    let label = self.closure_return_targets[n - 1].1.clone();
                    match value {
                        Some(e) => {
                            self.gen_expr_to(env, e, &Dest::Var(LuaExpr::Name(target)));
                        },
                        None => {
                            self.assign(LuaExpr::Name(target), LuaExpr::Nil);
                        },
                    }
                    self.goto(label.as_str());
                } else {
                    self.begin_do();
                    match value {
                        Some(e) => {
                            self.gen_expr_to(env, e, &Dest::Return);
                        },
                        None => {
                            self.return_none();
                        },
                    }
                    self.end_block();
                }
            },
            Stmt::While { cond, body } => {
                let condition = self.gen_inline(env, cond);
                self.begin_while(condition);
                self.push_break(None);
                self.gen_block_to(env, body, &Dest::Discard);
                self.pop_break();
                self.continue_label(body);
                self.end_block();
            },
            Stmt::Loop { body } => {
                self.gen_loop_to(env, body, &Dest::Discard);
            },
            Stmt::For { iter, body, .. } => {
                let removable_range = body.stmts.len() == 0 && body.tail.is_none() && match &iter.kind {
                    ExprKind::Range { start, end, .. } => expression_is_removable(env, start)
                        && expression_is_removable(env, end),
                    _ => false,
                };
                if !removable_range {
                    self.push_break(None);
                    self.gen_for(env, s);
                    self.pop_break();
                }
            },
            Stmt::WhileLet { pat, expr, body } => {
                self.begin_while(LuaExpr::Bool(true));
                self.push_break(None);
                let value = self.gen_inline(env, expr);
                let subject = self.pattern_subject(env, expr, value);
                let mut tests = no_exprs();
                let mut binds: Vec<PatternBinding> = Vec::new();
                proof {
                    assert(bindings_model(binds@) =~= Seq::empty());
                }
                self.pat_test(env, pat, subject, &None, &mut tests, &mut binds);
                self.begin_if(and_all(&tests));
                self.emit_pattern_bindings(&env.program.hir, &binds);
                self.gen_block_to(env, body, &Dest::Discard);
                self.begin_else();
                self.break_statement();
                self.end_block();
                self.continue_label(body);
                self.pop_break();
                self.end_block();
            },
            Stmt::Break(value) => {
                let target = self.break_target();
                match (target, value) {
                    (Some(target), Some(e)) => {
                        self.gen_expr_to(env, e, &Dest::Var(target));
                    },
                    (Some(target), None) => {
                        self.assign(target, LuaExpr::Nil);
                    },
                    (None, Some(e)) => {
                        self.gen_expr_to(env, e, &Dest::Discard);
                    },
                    (None, None) => {},
                }
                self.break_statement();
            },
            Stmt::Continue => {
                self.goto("continue");
            },
        }
    }

    /// Where the value of a `break` goes.
    fn break_target(&self) -> (r: Option<LuaExpr>)
        ensures
            match r {
                Some(e) => self@.breaks.len() > 0 && self@.breaks.last() == Some(e.model()),
                None => self@.breaks.len() == 0 || self@.breaks.last() is None,
            },
    {
        let n: usize = self.loop_break_targets.len();
        if n == 0 {
            return None;
        }
        match &self.loop_break_targets[n - 1] {
            Some(target) => Some(target.copy()),
            None => None,
        }
    }

    fn gen_let(&mut self, env: &Env, s: &Stmt)
        ensures
            final(self)@ == g_let(env@, old(self)@, *s),
            final(self)@.lua.shape() == old(self)@.lua.shape(),
        decreases *s, 7int, 0int,
    {
        let (name, name_span, ty, init) = match s {
            Stmt::Let { name, name_span, ty, init, .. } => (name, *name_span, ty, init),
            _ => {
                return ;
            },
        };
        if binding_is_unused(env, name_span) {
            if expression_is_removable(env, init) {
                return ;
            }
            if unused_value_can_be_discarded(env, init) {
                self.gen_expr_to(env, init, &Dest::Discard);
                return ;
            }
        }
        let local = self.local_name(name.as_str());
        match ty {
            Some(ty) => {
                let text = type_to_emmylua(env, ty);
                self.annotation(cat2("---@type ", text.as_str()).as_str());
            },
            None => {},
        }
        match &init.kind {
            ExprKind::Closure { params, body, .. } => {
                self.gen_closure_local(env, local.as_str(), params, body);
            },
            ExprKind::Try { expr } => {
                let value = self.gen_inline(env, expr);
                if env.program.types.result_tries.has(&init.id) {
                    let result = self.fresh_tmp();
                    self.local(result.as_str(), value);
                    self.compact_if(
                        result_is_err(named(result.as_str())),
                        return_inline(named(result.as_str())),
                    );
                    self.local(local.as_str(), result_payload(LuaExpr::Name(result)));
                } else if is_immutable_local_path(env, expr) {
                    self.compact_if(is_nil(value.copy()), return_inline(LuaExpr::Nil));
                    self.bind_local_substitution(&env.program.hir, name_span, value);
                } else {
                    self.local(local.as_str(), value);
                    self.compact_if(is_nil(LuaExpr::Name(local)), return_inline(LuaExpr::Nil));
                }
            },
            _ => {
                if let Some(plan) = consumer_plan(env, init) {
                    self.push_anchor(init.span);
                    self.gen_iter_loop(
                        env,
                        init,
                        plan,
                        true,
                        &Dest::Var(named(local.as_str())),
                        Some(local.as_str()),
                    );
                    self.pop_anchor();
                    proof {
                        assert(self@.lua.anchors =~= old(self)@.lua.anchors);
                    }
                } else if needs_hoist(init) {
                    self.declare(local.as_str());
                    self.gen_expr_to(env, init, &Dest::Var(LuaExpr::Name(local)));
                } else {
                    let value = self.gen_inline(env, init);
                    self.local(local.as_str(), value);
                }
            },
        }
    }

    /// The upper bound of a numeric `for`.
    fn numeric_stop(&mut self, end: &Expr, value: LuaExpr, inclusive: bool) -> (r: LuaExpr)
        ensures
            (final(self)@, r.model()) == for_stop(old(self)@, *end, value.model(), inclusive),
            final(self)@.lua == old(self)@.lua,
    {
        if inclusive {
            return value;
        }
        if let ExprKind::Int(source) = &end.kind {
            if let Some(number) = parse_int(source.as_str(), 10) {
                if number == i64::MIN {
                    self.fault();
                    return value;
                }
                return LuaExpr::Integer(signed_text(number - 1));
            }
        }
        one_less(value)
    }

    fn gen_for(&mut self, env: &Env, s: &Stmt)
        ensures
            final(self)@ == g_for(env@, old(self)@, *s),
            final(self)@.lua.shape() == old(self)@.lua.shape(),
        decreases *s, 7int, 0int,
    {
        let iter = match s {
            Stmt::For { iter, .. } => iter,
            _ => {
                return ;
            },
        };
        if let Some(plan) = chain_plan(env, iter) {
            self.gen_for_chain(env, s, plan);
            return ;
        }
        if pulls_items(env, iter) {
            self.gen_for_pull(env, s);
            return ;
        }
        match &iter.kind {
            ExprKind::Range { .. } => {
                self.gen_for_range(env, s);
            },
            _ => {
                self.gen_for_each(env, s);
            },
        }
    }

    fn gen_for_chain(&mut self, env: &Env, s: &Stmt, plan: &IterPlan)
        ensures
            final(self)@ == g_for_chain(env@, old(self)@, *s, *plan),
            final(self)@.lua.shape() == old(self)@.lua.shape(),
        decreases *s, 6int, 0int,
    {
        let (var, iter, body) = match s {
            Stmt::For { var, iter, body, .. } => (var, iter, body),
            _ => {
                return ;
            },
        };
        if plan.consumer != IterConsumerKind::For {
            self.gen_iter_loop(env, iter, plan, false, &Dest::Discard, None);
            return ;
        }
        if !fits(iter, plan, false) {
            return ;
        }
        let variable = self.local_name(var.as_str());
        let source = self.gen_iter_source(env, iter, plan, false);
        let states = self.gen_iter_states(env, iter, plan, false);
        let item = self.iter_head(&source);
        let guards = self.gen_iter_adapters(env, iter, plan, false, &states, item.as_str());
        let ghost inside = self@;
        self.local(variable.as_str(), LuaExpr::Name(item));
        self.gen_block_to(env, body, &Dest::Discard);
        proof {
            assert(super::iterate::floor(self@.lua.frames, guards as nat) == super::iterate::floor(
                inside.lua.frames,
                guards as nat,
            ));
        }
        self.iter_close(plan, &states, guards, block_has_continue(body), &None, &Dest::Discard);
    }

    fn gen_for_pull(&mut self, env: &Env, s: &Stmt)
        ensures
            final(self)@ == g_for_pull(env@, old(self)@, *s),
            final(self)@.lua.shape() == old(self)@.lua.shape(),
        decreases *s, 6int, 0int,
    {
        let (var, iter, body) = match s {
            Stmt::For { var, iter, body, .. } => (var, iter, body),
            _ => {
                return ;
            },
        };
        let variable = self.local_name(var.as_str());
        let holder = self.fresh_tmp();
        let value = self.gen_inline(env, iter);
        self.local(holder.as_str(), value);
        self.begin_while(LuaExpr::Bool(true));
        self.pull_item(variable.as_str(), holder.as_str());
        self.gen_block_to(env, body, &Dest::Discard);
        self.continue_label(body);
        self.end_block();
    }

    /// The next item of an iterator value, or the end of the loop.
    fn pull_item(&mut self, variable: &str, holder: &str)
        ensures
            final(self)@ == old(self)@.pull_item(variable@, holder@),
            final(self)@.lua.shape() == old(self)@.lua.shape(),
    {
        let next = LuaExpr::MethodCall {
            receiver: Box::new(named(holder)),
            method: "next".to_string(),
            args: no_exprs(),
        };
        self.local(variable, next);
        self.compact_if(is_nil(named(variable)), InlineStatement::Break);
    }

    fn gen_for_range(&mut self, env: &Env, s: &Stmt)
        ensures
            final(self)@ == g_for_range(env@, old(self)@, *s),
            final(self)@.lua.shape() == old(self)@.lua.shape(),
        decreases *s, 6int, 0int,
    {
        let (var, var_span, iter, body) = match s {
            Stmt::For { var, var_span, iter, body } => (var, *var_span, iter, body),
            _ => {
                return ;
            },
        };
        let (start, end, inclusive) = match &iter.kind {
            ExprKind::Range { start, end, inclusive } => (start, end, *inclusive),
            _ => {
                return ;
            },
        };
        let variable = self.local_name(var.as_str());
        let first = self.gen_inline(env, start);
        let last = self.gen_inline(env, end);
        let stop = self.numeric_stop(end, last, inclusive);
        self.begin_numeric_for(variable.as_str(), first, stop);
        let nonnegative = is_nonnegative_literal(start);
        if nonnegative {
            self.push_nonnegative(&env.program.hir, var_span);
        }
        self.gen_block_to(env, body, &Dest::Discard);
        if nonnegative {
            self.pop_nonnegative();
        }
        self.continue_label(body);
        self.end_block();
    }

    fn gen_for_each(&mut self, env: &Env, s: &Stmt)
        ensures
            final(self)@ == g_for_each(env@, old(self)@, *s),
            final(self)@.lua.shape() == old(self)@.lua.shape(),
        decreases *s, 6int, 0int,
    {
        let (var, iter, body) = match s {
            Stmt::For { var, iter, body, .. } => (var, iter, body),
            _ => {
                return ;
            },
        };
        let variable = self.local_name(var.as_str());
        let value = self.gen_inline(env, iter);
        let holder = self.fresh_tmp();
        self.local(holder.as_str(), value);
        let index = self.fresh_tmp();
        self.begin_numeric_for(
            index.as_str(),
            LuaExpr::integer("1"),
            length_of(named(holder.as_str())),
        );
        self.local(variable.as_str(), LuaExpr::Name(holder).index(LuaExpr::Name(index)));
        self.gen_block_to(env, body, &Dest::Discard);
        self.continue_label(body);
        self.end_block();
    }
}

/// Whether a `for` runs over an iterator chain.
fn chain_plan<'a>(env: &Env<'a>, iter: &Expr) -> (r: Option<&'a IterPlan>)
    ensures
        match r {
            Some(plan) => for_plan(env@, *iter) == Some(*plan),
            None => for_plan(env@, *iter) is None,
        },
{
    match env.program.types.iter_plans.get(&iter.id) {
        Some(plan) => {
            let call = match plan.source {
                IterSourceKind::VecIter => true,
                IterSourceKind::VecIntoIter => true,
                IterSourceKind::StringChars => true,
                IterSourceKind::StringSplit => true,
                _ => false,
            };
            if plan.adapters.len() == 0 && !call {
                return None;
            }
            match chain_depth(plan, false) {
                Some(depth) => match nth_receiver(iter, depth) {
                    Some(_) => Some(plan),
                    None => None,
                },
                None => None,
            }
        },
        None => None,
    }
}

/// Whether a `for` pulls its items from an iterator value.
fn pulls_items(env: &Env, iter: &Expr) -> (r: bool)
    ensures
        r == for_pulls(env@, *iter),
{
    let range = match &iter.kind {
        ExprKind::Range { .. } => true,
        _ => false,
    };
    match env.program.types.iter_plans.get(&iter.id) {
        Some(plan) => plan.source != IterSourceKind::Vec && !range,
        None => false,
    }
}

} // verus!
