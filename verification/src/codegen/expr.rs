//! Lowering of expressions.

use vstd::prelude::*;

use super::analysis::{expression_is_known_nonnegative, is_immutable_local_path, resolve_variant};
use super::lower::{
    definition_name, g_assignment_place, g_binary, g_block_to, g_call, g_closure, g_else,
    g_expr_to, g_expr_to_inner, g_fields, g_inline, g_inline_inner, g_inlined_closure, g_inlines,
    g_loop, g_map_method, g_method, g_method_on, g_pairs, g_stmts, g_user_method, is_control,
    tag_field, values_as_fields,
};
use super::small::{
    and_all, append_field, append_values, bindings_model, consumer_plan, error_call, fold_literals,
    is_nil, is_not_nil, is_positive_literal, named, no_fields, result_is_ok, result_payload,
    tag_entry, PatternBinding,
};
use super::state::{Codegen, Dest, Env};
use super::syntax::lua_int_literal;
use crate::ast::{BinOp, Block, ClosureBody, ClosureParam, ElseBranch, Expr, ExprKind, Stmt, UnOp};
use crate::backend_layout::user_identifier;
use crate::builtins::{CodegenRule, CodegenRules, LanguageItem, StdDispatch};
use crate::hir::{ResolvedTarget, VariantShape};
use crate::lua_ir::{
    exprs_model, fields_model, named_model, no_exprs, one_expr, push_expr, two_exprs,
    BinaryOp as LuaBinaryOp, Expr as LuaExpr, FunctionTarget, InlineStatement, TableField,
    UnaryOp as LuaUnaryOp,
};
use crate::text::{cat2, same_text, signed_text, text_without};
use crate::typed::{ContainsKind, UserMethodDispatch};

verus! {

impl Codegen {
    /// An expression as a Lua expression. What cannot stand in one goes into
    /// statements in front of it.
    pub fn gen_inline(&mut self, env: &Env, e: &Expr) -> (r: LuaExpr)
        ensures
            (final(self)@, r.model()) == g_inline(env@, old(self)@, *e),
            final(self)@.lua.shape() == old(self)@.lua.shape(),
        decreases *e, (if is_control(*e) { 9int } else { 7int }), 0int,
    {
        self.push_anchor(e.span);
        let value = self.gen_inline_inner(env, e);
        self.pop_anchor();
        proof {
            assert(self@.lua.anchors =~= old(self)@.lua.anchors);
        }
        value
    }

    /// Several expressions, in order, after the given ones.
    pub fn gen_inlines(&mut self, env: &Env, list: &Vec<Expr>, out: &mut Vec<LuaExpr>)
        ensures
            (final(self)@, exprs_model(final(out)@)) == g_inlines(
                env@,
                old(self)@,
                list@,
                0,
                exprs_model(old(out)@),
            ),
            final(self)@.lua.shape() == old(self)@.lua.shape(),
        decreases *list, 0int, 0int,
    {
        let ghost start = self@;
        let ghost first = exprs_model(out@);
        let mut i: usize = 0;
        while i < list.len()
            invariant
                i <= list.len(),
                g_inlines(env@, self@, list@, i as int, exprs_model(out@)) == g_inlines(
                    env@,
                    start,
                    list@,
                    0,
                    first,
                ),
                self@.lua.shape() == start.lua.shape(),
            decreases list.len() - i,
        {
            let value = self.gen_inline(env, &list[i]);
            push_expr(out, value);
            i += 1;
        }
    }

    fn gen_inline_inner(&mut self, env: &Env, e: &Expr) -> (r: LuaExpr)
        ensures
            (final(self)@, r.model()) == g_inline_inner(env@, old(self)@, *e),
            final(self)@.lua.shape() == old(self)@.lua.shape(),
        decreases *e, (if is_control(*e) { 8int } else { 6int }), 0int,
    {
        let hir = &env.program.hir;
        if let Some(plan) = consumer_plan(env, e) {
            let tmp = self.fresh_tmp();
            self.declare(tmp.as_str());
            self.gen_iter_loop(env, e, plan, true, &Dest::Var(named(tmp.as_str())), None);
            return LuaExpr::Name(tmp);
        }
        match &e.kind {
            ExprKind::Int(source) => LuaExpr::Integer(lua_int_literal(source.as_str())),
            ExprKind::Float(source) => LuaExpr::Number(text_without(source.as_str(), '_')),
            ExprKind::Str(source) => LuaExpr::StringLiteral(source.clone()),
            ExprKind::Bool(value) => LuaExpr::Bool(*value),
            ExprKind::MacroCall { .. } => {
                self.fault();
                LuaExpr::Nil
            },
            ExprKind::VecLit(elements) => {
                let mut values = no_exprs();
                self.gen_inlines(env, elements, &mut values);
                self.vec_value(hir, values, elements.len())
            },
            ExprKind::Closure { params, body, .. } => {
                let local = self.fresh_tmp();
                self.gen_closure_local(env, local.as_str(), params, body);
                LuaExpr::Name(local)
            },
            ExprKind::Path(_) => self.gen_path(env, e),
            ExprKind::Unary { op, expr } => {
                let inner = self.gen_inline(env, expr);
                match op {
                    UnOp::Neg => LuaExpr::unary(LuaUnaryOp::Neg, inner),
                    UnOp::Not => LuaExpr::unary(LuaUnaryOp::Not, inner),
                }
            },
            ExprKind::Binary { .. } => self.gen_binary(env, e),
            ExprKind::Call { .. } => self.gen_call(env, e),
            ExprKind::MethodCall { .. } => self.gen_method(env, e),
            ExprKind::Field { base, name, optional, .. } => {
                let value = self.gen_inline(env, base);
                self.field_value(value, name.as_str(), *optional)
            },
            ExprKind::Index { base, index } => {
                let b = self.gen_inline(env, base);
                let i = self.gen_inline(env, index);
                b.index(i)
            },
            ExprKind::Range { start, end, inclusive } => {
                let s = self.gen_inline(env, start);
                let t = self.gen_inline(env, end);
                self.range_value(hir, s, t, *inclusive)
            },
            ExprKind::StructLit { fields, .. } => {
                let values = self.gen_fields(env, fields);
                self.struct_value(env, e, values)
            },
            ExprKind::MapLit(entries) => {
                let fields = self.gen_pairs(env, entries);
                self.standard_call(
                    hir,
                    "std::hashmap",
                    "from_table",
                    one_expr(LuaExpr::Table(fields)),
                )
            },
            ExprKind::Try { expr } => {
                let inner = self.gen_inline(env, expr);
                self.try_value(inner, env.program.types.result_tries.has(&e.id))
            },
            _ => {
                let tmp = self.fresh_tmp();
                self.declare(tmp.as_str());
                self.gen_expr_to(env, e, &Dest::Var(named(tmp.as_str())));
                LuaExpr::Name(tmp)
            },
        }
    }

    fn gen_fields(&mut self, env: &Env, list: &Vec<(String, Expr)>) -> (r: Vec<(String, LuaExpr)>)
        ensures
            (final(self)@, named_model(r@)) == g_fields(env@, old(self)@, list@, 0, Seq::empty()),
            final(self)@.lua.shape() == old(self)@.lua.shape(),
        decreases *list, 0int, 0int,
    {
        let ghost start = self@;
        let mut out: Vec<(String, LuaExpr)> = Vec::new();
        let mut i: usize = 0;
        proof {
            assert(named_model(out@) =~= Seq::empty());
        }
        while i < list.len()
            invariant
                i <= list.len(),
                g_fields(env@, self@, list@, i as int, named_model(out@)) == g_fields(
                    env@,
                    start,
                    list@,
                    0,
                    Seq::empty(),
                ),
                self@.lua.shape() == start.lua.shape(),
            decreases list.len() - i,
        {
            let name = user_identifier(list[i].0.as_str());
            let value = self.gen_inline(env, &list[i].1);
            let ghost before = named_model(out@);
            out.push((name, value));
            proof {
                assert(named_model(out@) =~= before.push((name@, value.model())));
            }
            i += 1;
        }
        out
    }

    fn gen_pairs(&mut self, env: &Env, list: &Vec<(Expr, Expr)>) -> (r: Vec<TableField>)
        ensures
            (final(self)@, fields_model(r@)) == g_pairs(env@, old(self)@, list@, 0, Seq::empty()),
            final(self)@.lua.shape() == old(self)@.lua.shape(),
        decreases *list, 0int, 0int,
    {
        let ghost start = self@;
        let mut out = no_fields();
        let mut i: usize = 0;
        while i < list.len()
            invariant
                i <= list.len(),
                g_pairs(env@, self@, list@, i as int, fields_model(out@)) == g_pairs(
                    env@,
                    start,
                    list@,
                    0,
                    Seq::empty(),
                ),
                self@.lua.shape() == start.lua.shape(),
            decreases list.len() - i,
        {
            let key = self.gen_inline(env, &list[i].0);
            let value = self.gen_inline(env, &list[i].1);
            append_field(&mut out, TableField::Indexed(key, value));
            i += 1;
        }
        out
    }

    fn gen_binary(&mut self, env: &Env, e: &Expr) -> (r: LuaExpr)
        ensures
            (final(self)@, r.model()) == g_binary(env@, old(self)@, *e),
            final(self)@.lua.shape() == old(self)@.lua.shape(),
        decreases *e, 5int, 0int,
    {
        let (op, lhs, rhs) = match &e.kind {
            ExprKind::Binary { op, lhs, rhs } => (*op, lhs, rhs),
            _ => {
                return LuaExpr::Nil;
            },
        };
        if op == BinOp::Coalesce {
            let value = self.gen_inline(env, lhs);
            let tmp = self.fresh_tmp();
            self.local(tmp.as_str(), value);
            self.begin_if(is_nil(named(tmp.as_str())));
            let fallback = self.gen_inline(env, rhs);
            self.assign(named(tmp.as_str()), fallback);
            self.end_block();
            return LuaExpr::Name(tmp);
        }
        if op == BinOp::Contains {
            let needle = self.gen_inline(env, lhs);
            let container = self.gen_inline(env, rhs);
            return match env.program.types.contains_kinds.get(&e.id) {
                None => {
                    self.fault();
                    LuaExpr::Nil
                },
                Some(ContainsKind::HashMap) => container.method_call(
                    user_identifier("contains_key").as_str(),
                    one_expr(needle),
                ),
                Some(ContainsKind::String) => self.standard_call(
                    &env.program.hir,
                    "std::string",
                    "contains",
                    two_exprs(container, needle),
                ),
                Some(_) => container.method_call(
                    user_identifier("contains").as_str(),
                    one_expr(needle),
                ),
            };
        }
        if let Some(value) = fold_literals(env, e) {
            return LuaExpr::Integer(signed_text(value));
        }
        let l = self.gen_inline(env, lhs);
        let r = self.gen_inline(env, rhs);
        // Lua rounds down where the source language rounds toward zero, so a
        // remainder goes through a helper unless both operands are known not to
        // be negative.
        if op == BinOp::Rem && env.program.types.int_rems.has(&e.id) && is_positive_literal(rhs)
            && expression_is_known_nonnegative(env, &self.nonnegative_integer_locals, lhs) {
            return l.binary(LuaBinaryOp::Rem, r);
        }
        self.compound_value(env, e.id, op, l, r)
    }

    fn gen_call(&mut self, env: &Env, e: &Expr) -> (r: LuaExpr)
        ensures
            (final(self)@, r.model()) == g_call(env@, old(self)@, *e),
            final(self)@.lua.shape() == old(self)@.lua.shape(),
        decreases *e, 5int, 0int,
    {
        let hir = &env.program.hir;
        let (callee, args) = match &e.kind {
            ExprKind::Call { callee, args } => (callee, args),
            _ => {
                return LuaExpr::Nil;
            },
        };
        let is_path = match &callee.kind {
            ExprKind::Path(_) => true,
            _ => false,
        };
        if !is_path {
            let function = self.gen_inline(env, callee);
            let mut values = no_exprs();
            self.gen_inlines(env, args, &mut values);
            return function.call(values);
        }
        let target = env.program.expression_target(callee.id);
        let rules = CodegenRules {  };
        let rule = match target {
            ResolvedTarget::Builtin(builtin) => rules.get(builtin),
            _ => None,
        };
        if args.len() > 0 {
            match rule {
                Some(CodegenRule::InlineArg) => {
                    return self.gen_inline(env, &args[0]);
                },
                Some(CodegenRule::TaggedResult { ok }) => {
                    let value = self.gen_inline(env, &args[0]);
                    return self.standard_call(
                        hir,
                        "std::result",
                        if ok {
                            "ok"
                        } else {
                            "err"
                        },
                        one_expr(value),
                    );
                },
                _ => {},
            }
        }
        let mut values = no_exprs();
        self.gen_inlines(env, args, &mut values);
        if let Some(definition) = hir.definition_for_target(target) {
            if let Some(runtime) = hir.standard_runtimes.get(&definition) {
                return match hir.find_definition(definition) {
                    Some(data) => self.runtime_call(runtime, data.name.as_str(), values),
                    None => {
                        self.fault();
                        LuaExpr::Nil
                    },
                };
            }
        }
        match resolve_variant(hir, target) {
            Some((owner, variant, VariantShape::Tuple)) => {
                let mut fields = no_fields();
                append_field(&mut fields, tag_entry(hir.definition(variant).name.as_str()));
                append_values(&mut fields, values);
                proof {
                    assert(fields_model(fields@) =~= seq![
                        tag_field(definition_name(*hir, variant)),
                    ] + values_as_fields(exprs_model(values@)));
                }
                self.attach_metatable(env, owner, LuaExpr::Table(fields))
            },
            _ => {
                let function = self.gen_path(env, callee);
                function.call(values)
            },
        }
    }

    fn gen_method(&mut self, env: &Env, e: &Expr) -> (r: LuaExpr)
        ensures
            (final(self)@, r.model()) == g_method(env@, old(self)@, *e),
            final(self)@.lua.shape() == old(self)@.lua.shape(),
        decreases *e, 5int, 0int,
    {
        match &e.kind {
            ExprKind::MethodCall { recv, optional, .. } => {
                let value = self.gen_inline(env, recv);
                if *optional {
                    let tmp = self.fresh_tmp();
                    self.local(tmp.as_str(), value);
                    self.begin_if(is_not_nil(named(tmp.as_str())));
                    let computed = self.gen_method_on(env, e, named(tmp.as_str()));
                    self.assign(named(tmp.as_str()), computed);
                    self.end_block();
                    LuaExpr::Name(tmp)
                } else {
                    self.gen_method_on(env, e, value)
                }
            },
            _ => LuaExpr::Nil,
        }
    }

    fn gen_method_on(&mut self, env: &Env, e: &Expr, r: LuaExpr) -> (result: LuaExpr)
        ensures
            (final(self)@, result.model()) == g_method_on(env@, old(self)@, *e, r.model()),
            final(self)@.lua.shape() == old(self)@.lua.shape(),
        decreases *e, 4int, 0int,
    {
        let hir = &env.program.hir;
        let (method, args) = match &e.kind {
            ExprKind::MethodCall { method, args, .. } => (method, args),
            _ => {
                return LuaExpr::Nil;
            },
        };
        let definition = match env.program.types.standard_methods.get(&e.id) {
            Some(definition) => *definition,
            None => {
                return self.gen_user_method(env, e, r);
            },
        };
        let item = match hir.language_items.get(&definition) {
            Some(item) => Some(*item),
            None => None,
        };
        match item {
            Some(LanguageItem::OptionMap) => {
                if args.len() == 1 {
                    return self.gen_map_method(env, &args[0], r, true);
                }
            },
            Some(LanguageItem::ResultMap) => {
                if args.len() == 1 {
                    return self.gen_map_method(env, &args[0], r, false);
                }
            },
            Some(LanguageItem::OptionUnwrap) => {
                let value = self.fresh_tmp();
                self.local(value.as_str(), r);
                let failure = error_call(
                    two_exprs(
                        LuaExpr::string("called Option::unwrap on None"),
                        LuaExpr::integer("2"),
                    ),
                );
                self.compact_if(
                    is_nil(named(value.as_str())),
                    InlineStatement::Expression(failure),
                );
                return LuaExpr::Name(value);
            },
            Some(LanguageItem::OptionExpect) => {
                if args.len() == 1 {
                    let value = self.fresh_tmp();
                    self.local(value.as_str(), r);
                    let message = self.gen_inline(env, &args[0]);
                    let failure = error_call(two_exprs(message, LuaExpr::integer("2")));
                    self.compact_if(
                        is_nil(named(value.as_str())),
                        InlineStatement::Expression(failure),
                    );
                    return LuaExpr::Name(value);
                }
            },
            Some(LanguageItem::OptionUnwrapOr) => {
                if args.len() == 1 {
                    let default = self.gen_inline(env, &args[0]);
                    let value = self.fresh_tmp();
                    self.local(value.as_str(), r);
                    self.begin_if(is_nil(named(value.as_str())));
                    self.assign(named(value.as_str()), default);
                    self.end_block();
                    return LuaExpr::Name(value);
                }
            },
            Some(LanguageItem::OptionIsSome) => {
                return is_not_nil(r);
            },
            Some(LanguageItem::OptionIsNone) => {
                return is_nil(r);
            },
            Some(LanguageItem::ResultUnwrap) | Some(LanguageItem::ResultExpect) | Some(
                LanguageItem::ResultUnwrapOr,
            ) | Some(LanguageItem::ResultIsOk) | Some(LanguageItem::ResultIsErr) => {
                let mut values = no_exprs();
                self.gen_inlines(env, args, &mut values);
                return r.method_call(user_identifier(method.as_str()).as_str(), values);
            },
            _ => {},
        }
        match hir.standard_runtimes.get(&definition) {
            None => self.gen_user_method(env, e, r),
            Some(runtime) => {
                if runtime.dispatch == StdDispatch::Module {
                    if same_text(method.as_str(), "len") {
                        return LuaExpr::unary(LuaUnaryOp::Len, r);
                    }
                    if same_text(method.as_str(), "is_empty") {
                        return LuaExpr::unary(LuaUnaryOp::Len, r).binary(
                            LuaBinaryOp::Eq,
                            LuaExpr::integer("0"),
                        );
                    }
                    if same_text(method.as_str(), "to_string") || same_text(
                        method.as_str(),
                        "to_owned",
                    ) || same_text(method.as_str(), "clone") {
                        return r;
                    }
                    let mut values = one_expr(r);
                    self.gen_inlines(env, args, &mut values);
                    self.runtime_call(runtime, method.as_str(), values)
                } else {
                    let mut values = no_exprs();
                    self.gen_inlines(env, args, &mut values);
                    r.method_call(user_identifier(method.as_str()).as_str(), values)
                }
            },
        }
    }

    fn gen_map_method(&mut self, env: &Env, function: &Expr, r: LuaExpr, is_option: bool) -> (result:
        LuaExpr)
        ensures
            (final(self)@, result.model()) == g_map_method(
                env@,
                old(self)@,
                *function,
                r.model(),
                is_option,
            ),
            final(self)@.lua.shape() == old(self)@.lua.shape(),
        decreases *function, 10int, 0int,
    {
        let closure = match &function.kind {
            ExprKind::Closure { .. } => true,
            _ => false,
        };
        let callable = if closure {
            LuaExpr::Nil
        } else {
            self.gen_inline(env, function)
        };
        let value = self.fresh_tmp();
        self.local(value.as_str(), r);
        self.begin_if(
            if is_option {
                is_not_nil(named(value.as_str()))
            } else {
                result_is_ok(named(value.as_str()))
            },
        );
        let input = if is_option {
            named(value.as_str())
        } else {
            result_payload(named(value.as_str()))
        };
        let mapped = if closure {
            self.gen_inlined_closure(env, function, &one_expr(input))
        } else {
            callable.call(one_expr(input))
        };
        let mapped = if is_option {
            mapped
        } else {
            self.standard_call(&env.program.hir, "std::result", "ok", one_expr(mapped))
        };
        self.assign(named(value.as_str()), mapped);
        self.end_block();
        LuaExpr::Name(value)
    }

    fn gen_user_method(&mut self, env: &Env, e: &Expr, r: LuaExpr) -> (result: LuaExpr)
        ensures
            (final(self)@, result.model()) == g_user_method(env@, old(self)@, *e, r.model()),
            final(self)@.lua.shape() == old(self)@.lua.shape(),
        decreases *e, 3int, 0int,
    {
        let (recv, method, args) = match &e.kind {
            ExprKind::MethodCall { recv, method, args, .. } => (recv, method, args),
            _ => {
                return LuaExpr::Nil;
            },
        };
        let mut values = no_exprs();
        self.gen_inlines(env, args, &mut values);
        match env.program.types.user_methods.get(&e.id) {
            None => r.method_call(user_identifier(method.as_str()).as_str(), values),
            Some(UserMethodDispatch::Static(definition)) => {
                match self.target_place(env, ResolvedTarget::Item(*definition)) {
                    Some(place) => place.expression().call(first_expr(r, values)),
                    None => {
                        self.fault();
                        LuaExpr::Nil
                    },
                }
            },
            Some(UserMethodDispatch::Dynamic) => {
                let receiver = if is_immutable_local_path(env, recv) {
                    r
                } else {
                    let tmp = self.fresh_tmp();
                    self.local(tmp.as_str(), r);
                    LuaExpr::Name(tmp)
                };
                let function = named("getmetatable").call(one_expr(receiver.copy())).field(
                    user_identifier(method.as_str()).as_str(),
                );
                function.call(first_expr(receiver, values))
            },
        }
    }

    /// A local function for a closure.
    pub fn gen_closure_local(
        &mut self,
        env: &Env,
        name: &str,
        params: &Vec<ClosureParam>,
        body: &ClosureBody,
    )
        ensures
            final(self)@ == g_closure(env@, old(self)@, name@, params@, *body),
            final(self)@.lua.shape() == old(self)@.lua.shape(),
        decreases *body, 0int, 0int,
    {
        let names = self.closure_params(params);
        self.begin_function(FunctionTarget::Local(name.to_string()), names);
        match body {
            ClosureBody::Expr(expression) => {
                self.gen_expr_to(env, expression, &Dest::Return);
            },
            ClosureBody::Block(block) => {
                self.gen_block_to(env, block, &Dest::Return);
            },
        }
        self.end_block();
    }

    /// A closure that is called where it stands.
    pub fn gen_inlined_closure(&mut self, env: &Env, closure: &Expr, inputs: &Vec<LuaExpr>) -> (r:
        LuaExpr)
        ensures
            (final(self)@, r.model()) == g_inlined_closure(
                env@,
                old(self)@,
                *closure,
                exprs_model(inputs@),
            ),
            final(self)@.lua.shape() == old(self)@.lua.shape(),
        decreases *closure, 2int, 0int,
    {
        let (params, body) = match &closure.kind {
            ExprKind::Closure { params, body, .. } => (params, body),
            _ => {
                return LuaExpr::Nil;
            },
        };
        match body {
            ClosureBody::Expr(expression) => {
                self.push_closure_scope(&env.program.hir, params, inputs);
                let value = self.gen_inline(env, expression);
                self.pop_scope();
                value
            },
            ClosureBody::Block(block) => {
                let result = self.fresh_tmp();
                let tmp = self.fresh_tmp();
                let done = cat2(tmp.as_str(), "_done");
                self.declare(result.as_str());
                self.begin_do();
                self.bind_closure_inputs(params, inputs);
                self.push_closure_return(result.as_str(), done.as_str());
                self.gen_block_to(env, block, &Dest::Var(named(result.as_str())));
                self.pop_closure_return();
                self.end_block();
                self.label(done.as_str());
                LuaExpr::Name(result)
            },
        }
    }

    fn push_closure_return(&mut self, result: &str, done: &str)
        ensures
            final(self)@ == (super::state::Cg {
                closure_returns: old(self)@.closure_returns.push((result@, done@)),
                ..old(self)@
            }),
    {
        self.closure_return_targets.push((result.to_string(), done.to_string()));
        proof {
            assert(self@.closure_returns =~= old(self)@.closure_returns.push((result@, done@)));
        }
    }

    fn pop_closure_return(&mut self)
        ensures
            final(self)@ == if old(self)@.closure_returns.len() == 0 {
                old(self)@
            } else {
                super::state::Cg {
                    closure_returns: old(self)@.closure_returns.drop_last(),
                    ..old(self)@
                }
            },
    {
        let ghost before = self.closure_return_targets@;
        let _ = self.closure_return_targets.pop();
        proof {
            if before.len() > 0 {
                assert(self@.closure_returns =~= old(self)@.closure_returns.drop_last());
            } else {
                assert(self@.closure_returns =~= old(self)@.closure_returns);
            }
        }
    }

    /// An expression whose value goes to a destination.
    pub fn gen_expr_to(&mut self, env: &Env, e: &Expr, dest: &Dest)
        ensures
            final(self)@ == g_expr_to(env@, old(self)@, *e, dest.model()),
            final(self)@.lua.shape() == old(self)@.lua.shape(),
        decreases *e, (if is_control(*e) { 7int } else { 9int }), 0int,
    {
        self.push_anchor(e.span);
        self.gen_expr_to_inner(env, e, dest);
        self.pop_anchor();
        proof {
            assert(self@.lua.anchors =~= old(self)@.lua.anchors);
        }
    }

    fn gen_expr_to_inner(&mut self, env: &Env, e: &Expr, dest: &Dest)
        ensures
            final(self)@ == g_expr_to_inner(env@, old(self)@, *e, dest.model()),
            final(self)@.lua.shape() == old(self)@.lua.shape(),
        decreases *e, (if is_control(*e) { 6int } else { 8int }), 0int,
    {
        if let Some(plan) = consumer_plan(env, e) {
            self.gen_iter_loop(env, e, plan, true, dest, None);
            return ;
        }
        match &e.kind {
            ExprKind::Loop(body) => {
                self.gen_loop_to(env, body, dest);
            },
            ExprKind::If { cond, then_block, else_block } => {
                let condition = self.gen_inline(env, cond);
                self.begin_if(condition);
                self.gen_block_to(env, then_block, dest);
                self.gen_else(env, else_block, dest);
                self.end_block();
            },
            ExprKind::IfLet { pat, expr, then_block, else_block } => {
                let value = self.gen_inline(env, expr);
                let subject = self.pattern_subject(env, expr, value);
                let mut tests = no_exprs();
                let mut binds: Vec<PatternBinding> = Vec::new();
                proof {
                    assert(bindings_model(binds@) =~= Seq::empty());
                }
                self.pat_test(env, pat, subject, &None, &mut tests, &mut binds);
                self.begin_if(and_all(&tests));
                self.emit_pattern_bindings(&env.program.hir, &binds);
                self.gen_block_to(env, then_block, dest);
                self.gen_else(env, else_block, dest);
                self.end_block();
            },
            ExprKind::Block(block) => {
                self.gen_block_to(env, block, dest);
            },
            ExprKind::Match { .. } => {
                self.gen_match(env, e, dest);
            },
            ExprKind::Assign { op, target, value } => {
                match op {
                    Some(op) => {
                        let place = self.gen_assignment_place(env, target);
                        let rhs = self.gen_inline(env, value);
                        let assigned = self.compound_value(env, e.id, *op, place.copy(), rhs);
                        self.assign(place, assigned);
                    },
                    None => {
                        let place = self.gen_inline(env, target);
                        self.gen_expr_to(env, value, &Dest::Var(place));
                    },
                }
                self.deliver_unit(dest);
            },
            _ => {
                let value = self.gen_inline(env, e);
                self.deliver(dest, value);
            },
        }
    }

    /// The `else` of a conditional. Without one a variable gets nil.
    fn gen_else(&mut self, env: &Env, branch: &Option<Box<ElseBranch>>, dest: &Dest)
        requires
            old(self)@.lua.in_branch(),
        ensures
            final(self)@ == g_else(env@, old(self)@, *branch, dest.model()),
            final(self)@.lua.anchors == old(self)@.lua.anchors,
            final(self)@.lua.frames is Over,
            *final(self)@.lua.frames->outer == *old(self)@.lua.frames->outer,
        decreases *branch, 0int, 0int,
    {
        match branch {
            Some(branch) => match &**branch {
                ElseBranch::Block(block) => {
                    self.begin_else();
                    self.gen_block_to(env, block, dest);
                },
                ElseBranch::If(inner) => {
                    self.begin_else();
                    self.gen_expr_to(env, inner, dest);
                },
            },
            None => match dest {
                Dest::Var(target) => {
                    self.begin_else();
                    self.assign(target.copy(), LuaExpr::Nil);
                },
                _ => {},
            },
        }
    }

    /// The address of a compound assignment, evaluated once.
    fn gen_assignment_place(&mut self, env: &Env, target: &Expr) -> (r: LuaExpr)
        ensures
            (final(self)@, r.model()) == g_assignment_place(env@, old(self)@, *target),
            final(self)@.lua.shape() == old(self)@.lua.shape(),
        decreases *target, 10int, 0int,
    {
        match &target.kind {
            ExprKind::Field { base, name, .. } => {
                let value = self.gen_inline(env, base);
                let tmp = self.fresh_tmp();
                self.local(tmp.as_str(), value);
                LuaExpr::Name(tmp).field(user_identifier(name.as_str()).as_str())
            },
            ExprKind::Index { base, index } => {
                let value = self.gen_inline(env, base);
                let b = self.fresh_tmp();
                self.local(b.as_str(), value);
                let value = self.gen_inline(env, index);
                let i = self.fresh_tmp();
                self.local(i.as_str(), value);
                LuaExpr::Name(b).index(LuaExpr::Name(i))
            },
            _ => self.gen_inline(env, target),
        }
    }

    /// A `loop` whose `break` values go to a destination.
    pub fn gen_loop_to(&mut self, env: &Env, body: &Block, dest: &Dest)
        ensures
            final(self)@ == g_loop(env@, old(self)@, *body, dest.model()),
            final(self)@.lua.shape() == old(self)@.lua.shape(),
        decreases *body, 1int, 0int,
    {
        let target = match dest {
            Dest::Discard => None,
            Dest::Var(target) => Some(target.copy()),
            Dest::Return => {
                let tmp = self.fresh_tmp();
                self.declare(tmp.as_str());
                Some(LuaExpr::Name(tmp))
            },
        };
        let result = match (dest, &target) {
            (Dest::Return, Some(target)) => Some(target.copy()),
            _ => None,
        };
        self.begin_while(LuaExpr::Bool(true));
        self.push_break(target);
        self.gen_block_to(env, body, &Dest::Discard);
        self.pop_break();
        self.continue_label(body);
        self.end_block();
        if let Some(value) = result {
            self.return_value(value);
        }
    }

    /// A block whose value goes to a destination.
    pub fn gen_block_to(&mut self, env: &Env, block: &Block, dest: &Dest)
        ensures
            final(self)@ == g_block_to(env@, old(self)@, *block, dest.model()),
            final(self)@.lua.shape() == old(self)@.lua.shape(),
        decreases *block, 0int, 0int,
    {
        self.push_empty_scope();
        self.gen_stmts(env, &block.stmts, &block.statement_blank_before);
        match &block.tail {
            Some(tail) => {
                if block.tail_blank_before {
                    self.blank();
                }
                self.gen_expr_to(env, tail, dest);
            },
            None => match dest {
                Dest::Var(target) => {
                    self.assign(target.copy(), LuaExpr::Nil);
                },
                _ => {},
            },
        }
        self.pop_scope();
    }

    fn gen_stmts(&mut self, env: &Env, stmts: &Vec<Stmt>, flags: &Vec<bool>)
        ensures
            final(self)@ == g_stmts(env@, old(self)@, stmts@, flags@, 0),
            final(self)@.lua.shape() == old(self)@.lua.shape(),
        decreases *stmts, 0int, 0int,
    {
        let ghost start = self@;
        let mut i: usize = 0;
        while i < stmts.len()
            invariant
                i <= stmts.len(),
                g_stmts(env@, self@, stmts@, flags@, i as int) == g_stmts(
                    env@,
                    start,
                    stmts@,
                    flags@,
                    0,
                ),
                self@.lua.shape() == start.lua.shape(),
            decreases stmts.len() - i,
        {
            if i >= flags.len() {
                self.fault();
            } else if flags[i] {
                self.blank();
            }
            self.gen_stmt(env, &stmts[i]);
            i += 1;
        }
    }
}

/// The arguments of a method with the receiver in front.
fn first_expr(first: LuaExpr, rest: Vec<LuaExpr>) -> (r: Vec<LuaExpr>)
    ensures
        exprs_model(r@) == seq![first.model()] + exprs_model(rest@),
{
    let mut out: Vec<LuaExpr> = Vec::new();
    out.push(first);
    let ghost head = out@;
    let ghost all = rest@;
    for value in it: rest
        invariant
            it.seq() == all,
            out@ == head + all.take(it.index()),
    {
        out.push(value);
        proof {
            assert(out@ =~= head + all.take(it.index() + 1));
        }
    }
    proof {
        assert(all.take(all.len() as int) =~= all);
        assert(exprs_model(out@) =~= seq![first.model()] + exprs_model(all));
    }
    out
}

} // verus!
