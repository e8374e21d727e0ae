//! Lowering of patterns and matches.

use vstd::prelude::*;

use super::analysis::resolve_variant;
use super::lower::{
    g_alternatives, g_arm, g_arm_body, g_arm_tests, g_arms, g_elements, g_field_patterns, g_match,
    g_pattern, g_return_arms, g_return_body, g_return_last, g_return_match,
};
use super::matching::{match_is_exhaustive, match_uses_root_result_tag, match_uses_root_tag};
use super::small::{
    and_all, bindings_model, cached_model, is_nil, is_not_nil, named, non_exhaustive_match, or_all,
    push_binding, read_bindings, read_flag, read_tag, result_is_ok, result_payload, tag_read,
    without_guards, PatternBinding,
};
use super::state::{Codegen, Dest, Env};
use crate::ast::{Expr, ExprKind, MatchArm, Pattern};
use crate::backend_layout::user_identifier;
use crate::builtins::BuiltinId;
use crate::hir::{ResolvedTarget, VariantShape};
use crate::lua_ir::{
    exprs_model, no_exprs, one_expr, push_expr, BinaryOp as LuaBinaryOp, BuilderModel,
    Expr as LuaExpr, Frames, InlineStatement, OpenerModel, UnaryOp as LuaUnaryOp,
};
use crate::text::decimal_text;
use crate::token::SourceRange;

verus! {

/// The shape around the innermost `if`, where one is open.
pub open spec fn around(lua: BuilderModel, open: bool) -> (
    Seq<SourceRange>,
    Option<(OpenerModel, Frames)>,
) {
    if open {
        (BuilderModel { frames: *lua.frames->outer, ..lua }).shape()
    } else {
        lua.shape()
    }
}

/// Blocks of equal shape have an equal shape around them.
proof fn lemma_around(a: BuilderModel, b: BuilderModel, open: bool)
    requires
        a.shape() == b.shape(),
        open ==> a.in_branch(),
    ensures
        around(a, open) == around(b, open),
        open ==> b.in_branch(),
{
}

impl Codegen {
    /// The tests and bindings of a pattern against a subject.
    pub fn pat_test(
        &mut self,
        env: &Env,
        pattern: &Pattern,
        subject: LuaExpr,
        cached: &Option<LuaExpr>,
        tests: &mut Vec<LuaExpr>,
        binds: &mut Vec<PatternBinding>,
    )
        ensures
            (final(self)@, exprs_model(final(tests)@), bindings_model(final(binds)@)) == g_pattern(
                env@,
                old(self)@,
                *pattern,
                subject.model(),
                cached_model(*cached),
                exprs_model(old(tests)@),
                bindings_model(old(binds)@),
            ),
            final(self)@.lua.shape() == old(self)@.lua.shape(),
        decreases *pattern, 0int, 0int,
    {
        let hir = &env.program.hir;
        match pattern {
            Pattern::Wildcard => {},
            Pattern::Binding(name, source) => {
                push_binding(
                    binds,
                    PatternBinding { name: name.clone(), source: *source, value: subject },
                );
            },
            Pattern::Literal(literal) => {
                let value = self.gen_inline(env, literal);
                push_expr(tests, subject.binary(LuaBinaryOp::Eq, value));
            },
            Pattern::Range { lo, hi, inclusive } => {
                let low = self.gen_inline(env, lo);
                let high = self.gen_inline(env, hi);
                let upper = if *inclusive {
                    LuaBinaryOp::Le
                } else {
                    LuaBinaryOp::Lt
                };
                let above = subject.copy().binary(LuaBinaryOp::Ge, low);
                let below = subject.binary(upper, high);
                push_expr(tests, above.binary(LuaBinaryOp::And, below).parenthesized());
            },
            Pattern::Path { id, .. } => {
                let target = env.program.pattern_target(*id);
                match target {
                    ResolvedTarget::Builtin(BuiltinId::VariantOptionNone) => {
                        push_expr(tests, is_nil(subject));
                    },
                    ResolvedTarget::Builtin(BuiltinId::VariantOptionSome) => {
                        push_expr(tests, is_not_nil(subject));
                    },
                    ResolvedTarget::Builtin(BuiltinId::VariantResultOk) => {
                        push_expr(tests, read_flag(cached, &subject));
                    },
                    ResolvedTarget::Builtin(BuiltinId::VariantResultErr) => {
                        push_expr(
                            tests,
                            LuaExpr::unary(LuaUnaryOp::Not, read_flag(cached, &subject)),
                        );
                    },
                    _ => match resolve_variant(hir, target) {
                        Some((_, variant, _)) => {
                            let name = LuaExpr::string(hir.definition(variant).name.as_str());
                            let tag = read_tag(cached, &subject);
                            push_expr(tests, tag.binary(LuaBinaryOp::Eq, name));
                        },
                        None => {
                            self.fault();
                        },
                    },
                }
            },
            Pattern::TupleVariant { id, elems, .. } => {
                let target = env.program.pattern_target(*id);
                match target {
                    ResolvedTarget::Builtin(BuiltinId::VariantOptionSome) => {
                        push_expr(tests, is_not_nil(subject.copy()));
                        if elems.len() > 0 {
                            self.pat_test(env, &elems[0], subject, &None, tests, binds);
                        }
                    },
                    ResolvedTarget::Builtin(BuiltinId::VariantResultOk) => {
                        push_expr(tests, read_flag(cached, &subject));
                        if elems.len() > 0 {
                            let payload = result_payload(subject);
                            self.pat_test(env, &elems[0], payload, &None, tests, binds);
                        }
                    },
                    ResolvedTarget::Builtin(BuiltinId::VariantResultErr) => {
                        push_expr(
                            tests,
                            LuaExpr::unary(LuaUnaryOp::Not, read_flag(cached, &subject)),
                        );
                        if elems.len() > 0 {
                            let payload = result_payload(subject);
                            self.pat_test(env, &elems[0], payload, &None, tests, binds);
                        }
                    },
                    _ => match resolve_variant(hir, target) {
                        Some((_, variant, VariantShape::Tuple)) => {
                            let name = LuaExpr::string(hir.definition(variant).name.as_str());
                            let tag = read_tag(cached, &subject);
                            push_expr(tests, tag.binary(LuaBinaryOp::Eq, name));
                            self.element_tests(env, elems, &subject, tests, binds);
                        },
                        _ => {
                            self.fault();
                        },
                    },
                }
            },
            Pattern::StructVariant { id, fields, .. } => {
                let target = env.program.pattern_target(*id);
                match resolve_variant(hir, target) {
                    Some((_, variant, _)) => {
                        let name = LuaExpr::string(hir.definition(variant).name.as_str());
                        let tag = read_tag(cached, &subject);
                        push_expr(tests, tag.binary(LuaBinaryOp::Eq, name));
                    },
                    None => {},
                }
                self.field_tests(env, fields, &subject, tests, binds);
            },
        }
    }

    fn element_tests(
        &mut self,
        env: &Env,
        elems: &Vec<Pattern>,
        subject: &LuaExpr,
        tests: &mut Vec<LuaExpr>,
        binds: &mut Vec<PatternBinding>,
    )
        ensures
            (final(self)@, exprs_model(final(tests)@), bindings_model(final(binds)@)) == g_elements(
                env@,
                old(self)@,
                elems@,
                subject.model(),
                0,
                exprs_model(old(tests)@),
                bindings_model(old(binds)@),
            ),
            final(self)@.lua.shape() == old(self)@.lua.shape(),
        decreases *elems, 0int, 0int,
    {
        let ghost start = self@;
        let ghost first_tests = exprs_model(tests@);
        let ghost first_binds = bindings_model(binds@);
        let mut i: usize = 0;
        while i < elems.len()
            invariant
                i <= elems.len(),
                g_elements(
                    env@,
                    self@,
                    elems@,
                    subject.model(),
                    i as int,
                    exprs_model(tests@),
                    bindings_model(binds@),
                ) == g_elements(
                    env@,
                    start,
                    elems@,
                    subject.model(),
                    0,
                    first_tests,
                    first_binds,
                ),
                self@.lua.shape() == start.lua.shape(),
            decreases elems.len() - i,
        {
            let part = subject.copy().index(LuaExpr::Integer(decimal_text((i + 1) as u64)));
            self.pat_test(env, &elems[i], part, &None, tests, binds);
            i += 1;
        }
    }

    fn field_tests(
        &mut self,
        env: &Env,
        fields: &Vec<(String, Pattern)>,
        subject: &LuaExpr,
        tests: &mut Vec<LuaExpr>,
        binds: &mut Vec<PatternBinding>,
    )
        ensures
            (final(self)@, exprs_model(final(tests)@), bindings_model(final(binds)@))
                == g_field_patterns(
                env@,
                old(self)@,
                fields@,
                subject.model(),
                0,
                exprs_model(old(tests)@),
                bindings_model(old(binds)@),
            ),
            final(self)@.lua.shape() == old(self)@.lua.shape(),
        decreases *fields, 0int, 0int,
    {
        let ghost start = self@;
        let ghost first_tests = exprs_model(tests@);
        let ghost first_binds = bindings_model(binds@);
        let mut i: usize = 0;
        while i < fields.len()
            invariant
                i <= fields.len(),
                g_field_patterns(
                    env@,
                    self@,
                    fields@,
                    subject.model(),
                    i as int,
                    exprs_model(tests@),
                    bindings_model(binds@),
                ) == g_field_patterns(
                    env@,
                    start,
                    fields@,
                    subject.model(),
                    0,
                    first_tests,
                    first_binds,
                ),
                self@.lua.shape() == start.lua.shape(),
            decreases fields.len() - i,
        {
            let part = subject.copy().field(user_identifier(fields[i].0.as_str()).as_str());
            self.pat_test(env, &fields[i].1, part, &None, tests, binds);
            i += 1;
        }
    }

    /// The tests and bindings of an arm. Alternatives bind nothing.
    fn arm_tests(
        &mut self,
        env: &Env,
        arm: &MatchArm,
        subject: &LuaExpr,
        cached: &Option<LuaExpr>,
    ) -> (r: (Vec<LuaExpr>, Vec<PatternBinding>))
        ensures
            (final(self)@, exprs_model(r.0@), bindings_model(r.1@)) == g_arm_tests(
                env@,
                old(self)@,
                *arm,
                subject.model(),
                cached_model(*cached),
            ),
            final(self)@.lua.shape() == old(self)@.lua.shape(),
        decreases *arm, 0int, 0int,
    {
        let mut binds: Vec<PatternBinding> = Vec::new();
        proof {
            assert(bindings_model(binds@) =~= Seq::empty());
        }
        if arm.pats.len() == 1 {
            let mut tests = no_exprs();
            self.pat_test(env, &arm.pats[0], subject.copy(), cached, &mut tests, &mut binds);
            (tests, read_bindings(arm, binds))
        } else {
            let alternatives = self.alternative_tests(env, &arm.pats, subject, cached);
            (one_expr(or_all(&alternatives)), binds)
        }
    }

    fn alternative_tests(
        &mut self,
        env: &Env,
        pats: &Vec<Pattern>,
        subject: &LuaExpr,
        cached: &Option<LuaExpr>,
    ) -> (r: Vec<LuaExpr>)
        ensures
            (final(self)@, exprs_model(r@)) == g_alternatives(
                env@,
                old(self)@,
                pats@,
                subject.model(),
                cached_model(*cached),
                0,
                Seq::empty(),
            ),
            final(self)@.lua.shape() == old(self)@.lua.shape(),
        decreases *pats, 0int, 0int,
    {
        let ghost start = self@;
        let mut out = no_exprs();
        let mut i: usize = 0;
        while i < pats.len()
            invariant
                i <= pats.len(),
                g_alternatives(
                    env@,
                    self@,
                    pats@,
                    subject.model(),
                    cached_model(*cached),
                    i as int,
                    exprs_model(out@),
                ) == g_alternatives(
                    env@,
                    start,
                    pats@,
                    subject.model(),
                    cached_model(*cached),
                    0,
                    Seq::empty(),
                ),
                self@.lua.shape() == start.lua.shape(),
            decreases pats.len() - i,
        {
            let mut tests = no_exprs();
            let mut binds: Vec<PatternBinding> = Vec::new();
            proof {
                assert(bindings_model(binds@) =~= Seq::empty());
            }
            self.pat_test(env, &pats[i], subject.copy(), cached, &mut tests, &mut binds);
            push_expr(&mut out, and_all(&tests).parenthesized());
            i += 1;
        }
        out
    }

    /// A match whose value goes to a destination.
    pub fn gen_match(&mut self, env: &Env, e: &Expr, dest: &Dest)
        ensures
            final(self)@ == g_match(env@, old(self)@, *e, dest.model()),
            final(self)@.lua.shape() == old(self)@.lua.shape(),
        decreases *e, 5int, 0int,
    {
        let (scrut, arms) = match &e.kind {
            ExprKind::Match { scrut, arms } => (scrut, arms),
            _ => {
                return ;
            },
        };
        let returned = match dest {
            Dest::Return => true,
            _ => false,
        };
        if returned && without_guards(arms) {
            self.gen_return_match(env, e);
            return ;
        }
        let m = self.fresh_tmp();
        let value = self.gen_inline(env, scrut);
        self.local(m.as_str(), value);
        let matched = self.fresh_tmp();
        self.local(matched.as_str(), LuaExpr::Bool(false));
        self.gen_arms(env, arms, m.as_str(), matched.as_str(), dest);
        self.compact_if(
            LuaExpr::unary(LuaUnaryOp::Not, LuaExpr::Name(matched)),
            InlineStatement::Expression(non_exhaustive_match()),
        );
    }

    fn gen_arms(&mut self, env: &Env, arms: &Vec<MatchArm>, m: &str, matched: &str, dest: &Dest)
        ensures
            final(self)@ == g_arms(env@, old(self)@, arms@, m@, matched@, dest.model(), 0),
            final(self)@.lua.shape() == old(self)@.lua.shape(),
        decreases *arms, 0int, 0int,
    {
        let ghost start = self@;
        let mut i: usize = 0;
        while i < arms.len()
            invariant
                i <= arms.len(),
                g_arms(env@, self@, arms@, m@, matched@, dest.model(), i as int) == g_arms(
                    env@,
                    start,
                    arms@,
                    m@,
                    matched@,
                    dest.model(),
                    0,
                ),
                self@.lua.shape() == start.lua.shape(),
            decreases arms.len() - i,
        {
            self.gen_arm(env, &arms[i], m, matched, dest);
            i += 1;
        }
    }

    fn gen_arm(&mut self, env: &Env, arm: &MatchArm, m: &str, matched: &str, dest: &Dest)
        ensures
            final(self)@ == g_arm(env@, old(self)@, *arm, m@, matched@, dest.model()),
            final(self)@.lua.shape() == old(self)@.lua.shape(),
        decreases *arm, 1int, 0int,
    {
        let (tests, binds) = self.arm_tests(env, arm, &named(m), &None);
        let unmatched = LuaExpr::unary(LuaUnaryOp::Not, named(matched));
        proof {
            assert(exprs_model(tests@).len() == tests@.len());
        }
        let condition = if tests.len() == 0 {
            unmatched
        } else {
            unmatched.binary(LuaBinaryOp::And, and_all(&tests).parenthesized())
        };
        self.begin_if(condition);
        self.emit_pattern_bindings(&env.program.hir, &binds);
        self.gen_arm_body(env, arm, matched, dest);
        self.end_block();
    }

    fn gen_arm_body(&mut self, env: &Env, arm: &MatchArm, matched: &str, dest: &Dest)
        ensures
            final(self)@ == g_arm_body(env@, old(self)@, *arm, matched@, dest.model()),
            final(self)@.lua.shape() == old(self)@.lua.shape(),
        decreases *arm, 0int, 0int,
    {
        match &arm.guard {
            Some(guard) => {
                let test = self.gen_inline(env, guard);
                self.begin_if(test);
                self.assign(named(matched), LuaExpr::Bool(true));
                self.gen_expr_to(env, &arm.body, dest);
                self.end_block();
            },
            None => {
                self.assign(named(matched), LuaExpr::Bool(true));
                self.gen_expr_to(env, &arm.body, dest);
            },
        }
    }

    fn gen_return_match(&mut self, env: &Env, e: &Expr)
        ensures
            final(self)@ == g_return_match(env@, old(self)@, *e),
            final(self)@.lua.shape() == old(self)@.lua.shape(),
        decreases *e, 4int, 0int,
    {
        let (scrut, arms) = match &e.kind {
            ExprKind::Match { scrut, arms } => (scrut, arms),
            _ => {
                return ;
            },
        };
        let value = self.gen_inline(env, scrut);
        let is_path = match &scrut.kind {
            ExprKind::Path(_) => true,
            _ => false,
        };
        let subject = if is_path {
            value
        } else {
            let tmp = self.fresh_tmp();
            self.local(tmp.as_str(), value);
            LuaExpr::Name(tmp)
        };
        let proven = match_is_exhaustive(env.program, arms);
        let enough = if proven {
            arms.len() >= 3
        } else {
            arms.len() >= 2
        };
        let cached = if enough && match_uses_root_tag(env.program, arms) {
            let tmp = self.fresh_tmp();
            let tag = if match_uses_root_result_tag(env.program, arms) {
                result_is_ok(subject.copy())
            } else {
                tag_read(subject.copy())
            };
            self.local(tmp.as_str(), tag);
            Some(LuaExpr::Name(tmp))
        } else {
            None
        };
        self.gen_return_arms(env, arms, &subject, &cached, proven, 0, false);
    }

    fn gen_return_body(&mut self, env: &Env, arm: &MatchArm, binds: &Vec<PatternBinding>)
        ensures
            final(self)@ == g_return_body(env@, old(self)@, *arm, bindings_model(binds@)),
            final(self)@.lua.shape() == old(self)@.lua.shape(),
        decreases *arm, 0int, 0int,
    {
        self.emit_pattern_bindings(&env.program.hir, binds);
        self.gen_expr_to(env, &arm.body, &Dest::Return);
    }

    /// The arms from `from` on of a match whose arms all return.
    fn gen_return_arms(
        &mut self,
        env: &Env,
        arms: &Vec<MatchArm>,
        subject: &LuaExpr,
        cached: &Option<LuaExpr>,
        proven: bool,
        from: usize,
        open: bool,
    )
        requires
            from <= arms@.len(),
            open ==> old(self)@.lua.in_branch(),
        ensures
            final(self)@ == g_return_arms(
                env@,
                old(self)@,
                arms@,
                subject.model(),
                cached_model(*cached),
                proven,
                from as int,
                open,
            ),
            final(self)@.lua.shape() == around(old(self)@.lua, open),
        decreases *arms, 0int, arms@.len() - from,
    {
        if from >= arms.len() {
            self.no_match(open);
            return ;
        }
        let arm = &arms[from];
        let (tests, binds) = self.arm_tests(env, arm, subject, cached);
        proof {
            assert(exprs_model(tests@).len() == tests@.len());
            lemma_around(old(self)@.lua, self@.lua, open);
        }
        if tests.len() == 0 || (proven && from + 1 == arms.len()) {
            self.gen_return_last(env, arm, &binds, open);
            return ;
        }
        self.begin_branch(and_all(&tests), open);
        let ghost inside = self@.lua;
        self.gen_return_body(env, arm, &binds);
        proof {
            lemma_around(inside, self@.lua, true);
        }
        self.gen_return_arms(env, arms, subject, cached, proven, from + 1, true);
    }

    /// The last arm of a match whose arms all return.
    fn gen_return_last(
        &mut self,
        env: &Env,
        arm: &MatchArm,
        binds: &Vec<PatternBinding>,
        open: bool,
    )
        requires
            open ==> old(self)@.lua.in_branch(),
        ensures
            final(self)@ == g_return_last(env@, old(self)@, *arm, bindings_model(binds@), open),
            final(self)@.lua.shape() == around(old(self)@.lua, open),
        decreases *arm, 1int, 0int,
    {
        if open {
            self.begin_else();
            self.gen_return_body(env, arm, binds);
            self.end_block();
        } else {
            self.gen_return_body(env, arm, binds);
        }
    }

    fn begin_branch(&mut self, condition: LuaExpr, open: bool)
        requires
            open ==> old(self)@.lua.in_branch(),
        ensures
            final(self)@ == old(self)@.branch(condition.model(), open),
            final(self)@.lua.in_branch(),
            around(final(self)@.lua, true) == around(old(self)@.lua, open),
    {
        if open {
            self.lua.begin_else_if(condition);
        } else {
            self.begin_if(condition);
        }
    }

    fn no_match(&mut self, open: bool)
        requires
            open ==> old(self)@.lua.in_branch(),
        ensures
            final(self)@ == old(self)@.no_match(open),
            final(self)@.lua.shape() == around(old(self)@.lua, open),
    {
        if open {
            self.begin_else();
            self.expression_statement(non_exhaustive_match());
            self.end_block();
        } else {
            self.expression_statement(non_exhaustive_match());
        }
    }
}

} // verus!
