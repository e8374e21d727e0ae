//! Arms and patterns.

use vstd::prelude::*;

use crate::ast::{Expr, ExprKind, MatchArm, Pattern, UnOp};
use crate::parser::pieces::{no_expr, some_expr};
use crate::parser::grammar::{
    arm, arms, literal, literal_inner, match_expr, more_patterns, path_pattern, pattern_elems,
    pattern_fields, pattern_inner, range_pattern, rem, Out,
};
use crate::parser::state::{kept, starts_lowercase, ParseError, Parser};
use crate::text::{cat3, same_text, texts};
use crate::token::RuaTokenKind as T;
use crate::tree::{
    arms_tree, field_patterns_tree, patterns_tree, ExprTree, MatchArmTree, PatternTree,
};

verus! {

impl<'a> Parser<'a> {
    /// Alternatives behind a first pattern.
    pub fn parse_more_patterns(&mut self, first: Vec<Pattern>) -> (r: Result<Vec<Pattern>, ParseError>)
        requires
            old(self).wf(),
        ensures
            match r {
                Ok(v) => kept(*old(self), *final(self), false) && more_patterns(
                    old(self).input(),
                    old(self).at(),
                    old(self).nesting as nat,
                    old(self).no_struct,
                    patterns_tree(first@),
                ) == Out::Done(final(self).at(), patterns_tree(v@)),
                Err(e) => more_patterns(
                    old(self).input(),
                    old(self).at(),
                    old(self).nesting as nat,
                    old(self).no_struct,
                    patterns_tree(first@),
                ) == Out::<Seq<PatternTree>>::Fail(e.failure()),
            },
        decreases
            old(self).max_nesting - old(self).nesting,
            2int,
            rem(old(self).input(), old(self).at()),
            0int,
    {
        let mut out = first;
        loop
            invariant
                kept(*old(self), *self, false),
                more_patterns(self.input(), self.at(), self.nesting as nat, self.no_struct, patterns_tree(out@)) == more_patterns(
                    old(self).input(),
                    old(self).at(),
                    old(self).nesting as nat,
                    old(self).no_struct,
                    patterns_tree(first@),
                ),
            decreases rem(self.input(), self.at()),
        {
            let ghost here = more_patterns(self.input(), self.at(), self.nesting as nat, self.no_struct, patterns_tree(out@));
            if self.cur() != T::Pipe {
                return Ok(out);
            }
            self.bump()?;
            let pat = self.parse_pattern()?;
            let ghost had = patterns_tree(out@);
            let ghost model = pat.tree();
            out.push(pat);
            proof {
                assert(patterns_tree(out@) =~= had.push(model));
            }
            proof {
                assert(here == more_patterns(self.input(), self.at(), self.nesting as nat, self.no_struct, patterns_tree(out@)));
            }
        }
    }

    /// One arm.
    pub fn parse_arm(&mut self) -> (r: Result<MatchArm, ParseError>)
        requires
            old(self).wf(),
        ensures
            match r {
                Ok(v) => kept(*old(self), *final(self), true) && arm(
                    old(self).input(),
                    old(self).at(),
                    old(self).nesting as nat,
                    old(self).no_struct,
                ) == Out::Done(final(self).at(), v.tree()),
                Err(e) => arm(
                    old(self).input(),
                    old(self).at(),
                    old(self).nesting as nat,
                    old(self).no_struct,
                ) == Out::<MatchArmTree>::Fail(e.failure()),
            },
        decreases
            old(self).max_nesting - old(self).nesting,
            3int,
            rem(old(self).input(), old(self).at()),
            0int,
    {
        let first = self.parse_pattern()?;
        let ghost one = first.tree();
        let mut pats: Vec<Pattern> = Vec::new();
        pats.push(first);
        proof {
            assert(patterns_tree(pats@) =~= seq![one]);
        }
        let pats = self.parse_more_patterns(pats)?;
        let guarded = self.accept(T::KwIf)?;
        let guard = if guarded {
            let e = self.parse_cond()?;
            some_expr(e)
        } else {
            no_expr()
        };
        self.expect(T::FatArrow)?;
        let body = self.parse_expr_allow_struct()?;
        let comma = self.accept(T::Comma)?;
        Ok(MatchArm {
            pats, guard, body
        })
    }

    /// The arms of a `match` up to its closing brace.
    pub fn parse_arms(&mut self) -> (r: Result<Vec<MatchArm>, ParseError>)
        requires
            old(self).wf(),
        ensures
            match r {
                Ok(v) => kept(*old(self), *final(self), false) && arms(
                    old(self).input(),
                    old(self).at(),
                    old(self).nesting as nat,
                    old(self).no_struct,
                    Seq::empty(),
                ) == Out::Done(final(self).at(), arms_tree(v@)),
                Err(e) => arms(
                    old(self).input(),
                    old(self).at(),
                    old(self).nesting as nat,
                    old(self).no_struct,
                    Seq::empty(),
                ) == Out::<Seq<MatchArmTree>>::Fail(e.failure()),
            },
        decreases
            old(self).max_nesting - old(self).nesting,
            4int,
            rem(old(self).input(), old(self).at()),
            0int,
    {
        let mut out: Vec<MatchArm> = Vec::new();
        proof {
            assert(arms_tree(out@) =~= Seq::empty());
        }
        loop
            invariant
                kept(*old(self), *self, false),
                arms(self.input(), self.at(), self.nesting as nat, self.no_struct, arms_tree(out@)) == arms(
                    old(self).input(),
                    old(self).at(),
                    old(self).nesting as nat,
                    old(self).no_struct,
                    Seq::empty(),
                ),
            decreases rem(self.input(), self.at()),
        {
            let ghost here = arms(self.input(), self.at(), self.nesting as nat, self.no_struct, arms_tree(out@));
            if self.cur() == T::RBrace || self.cur() == T::Eof {
                return Ok(out);
            }
            let one = self.parse_arm()?;
            let ghost had = arms_tree(out@);
            let ghost model = one.tree();
            out.push(one);
            proof {
                assert(arms_tree(out@) =~= had.push(model));
            }
            proof {
                assert(here == arms(self.input(), self.at(), self.nesting as nat, self.no_struct, arms_tree(out@)));
            }
        }
    }

    /// A `match`.
    pub fn parse_match(&mut self) -> (r: Result<Expr, ParseError>)
        requires
            old(self).wf(),
        ensures
            match r {
                Ok(v) => kept(*old(self), *final(self), true) && match_expr(
                    old(self).input(),
                    old(self).at(),
                    old(self).nesting as nat,
                    old(self).no_struct,
                ) == Out::Done(final(self).at(), v.tree()),
                Err(e) => match_expr(
                    old(self).input(),
                    old(self).at(),
                    old(self).nesting as nat,
                    old(self).no_struct,
                ) == Out::<ExprTree>::Fail(e.failure()),
            },
        decreases
            old(self).max_nesting - old(self).nesting,
            5int,
            rem(old(self).input(), old(self).at()),
            0int,
    {
        let start = self.range();
        self.expect(T::KwMatch)?;
        let scrut = self.parse_cond()?;
        self.expect(T::LBrace)?;
        let arms = self.parse_arms()?;
        self.expect(T::RBrace)?;
        self.mk(ExprKind::Match {
            scrut: Box::new(scrut), arms
        },
        start)
    }

    /// The elements of a tuple pattern up to its closing parenthesis.
    pub fn parse_pattern_elems(&mut self) -> (r: Result<Vec<Pattern>, ParseError>)
        requires
            old(self).wf(),
        ensures
            match r {
                Ok(v) => kept(*old(self), *final(self), false) && pattern_elems(
                    old(self).input(),
                    old(self).at(),
                    old(self).nesting as nat,
                    old(self).no_struct,
                    Seq::empty(),
                ) == Out::Done(final(self).at(), patterns_tree(v@)),
                Err(e) => pattern_elems(
                    old(self).input(),
                    old(self).at(),
                    old(self).nesting as nat,
                    old(self).no_struct,
                    Seq::empty(),
                ) == Out::<Seq<PatternTree>>::Fail(e.failure()),
            },
        decreases
            old(self).max_nesting - old(self).nesting,
            2int,
            rem(old(self).input(), old(self).at()),
            0int,
    {
        let mut out: Vec<Pattern> = Vec::new();
        proof {
            assert(patterns_tree(out@) =~= Seq::empty());
        }
        loop
            invariant
                kept(*old(self), *self, false),
                pattern_elems(self.input(), self.at(), self.nesting as nat, self.no_struct, patterns_tree(out@)) == pattern_elems(
                    old(self).input(),
                    old(self).at(),
                    old(self).nesting as nat,
                    old(self).no_struct,
                    Seq::empty(),
                ),
            decreases rem(self.input(), self.at()),
        {
            let ghost here = pattern_elems(self.input(), self.at(), self.nesting as nat, self.no_struct, patterns_tree(out@));
            if self.cur() == T::RParen {
                return Ok(out);
            }
            let pat = self.parse_pattern()?;
            let ghost had = patterns_tree(out@);
            let ghost model = pat.tree();
            out.push(pat);
            proof {
                assert(patterns_tree(out@) =~= had.push(model));
            }
            let more = self.accept(T::Comma)?;
            if !more {
                return Ok(out);
            }
            proof {
                assert(here == pattern_elems(self.input(), self.at(), self.nesting as nat, self.no_struct, patterns_tree(out@)));
            }
        }
    }

    /// The fields of a struct pattern, and whether `..` stands for the others.
    pub fn parse_pattern_fields(&mut self) -> (r: Result<(Vec<(String, Pattern)>, bool), ParseError>)
        requires
            old(self).wf(),
        ensures
            match r {
                Ok(v) => kept(*old(self), *final(self), false) && pattern_fields(
                    old(self).input(),
                    old(self).at(),
                    old(self).nesting as nat,
                    old(self).no_struct,
                    Seq::empty(),
                ) == Out::Done(final(self).at(), (field_patterns_tree(v.0@), v.1)),
                Err(e) => pattern_fields(
                    old(self).input(),
                    old(self).at(),
                    old(self).nesting as nat,
                    old(self).no_struct,
                    Seq::empty(),
                ) == Out::<(Seq<(Seq<char>, PatternTree)>, bool)>::Fail(e.failure()),
            },
        decreases
            old(self).max_nesting - old(self).nesting,
            2int,
            rem(old(self).input(), old(self).at()),
            0int,
    {
        let mut out: Vec<(String, Pattern)> = Vec::new();
        proof {
            assert(field_patterns_tree(out@) =~= Seq::empty());
        }
        loop
            invariant
                kept(*old(self), *self, false),
                pattern_fields(self.input(), self.at(), self.nesting as nat, self.no_struct, field_patterns_tree(out@)) == pattern_fields(
                    old(self).input(),
                    old(self).at(),
                    old(self).nesting as nat,
                    old(self).no_struct,
                    Seq::empty(),
                ),
            decreases rem(self.input(), self.at()),
        {
            let ghost here = pattern_fields(self.input(), self.at(), self.nesting as nat, self.no_struct, field_patterns_tree(out@));
            if self.cur() == T::RBrace {
                return Ok((out, false));
            }
            if self.cur() == T::DotDot {
                self.bump()?;
                return Ok((out, true));
            }
            let span = self.range();
            let name = self.expect_ident()?;
            let given = self.accept(T::Colon)?;
            let pat = if given {
                self.parse_pattern()?
            } else {
                Pattern::Binding(name.clone(), span)
            };
            let ghost had = field_patterns_tree(out@);
            let ghost model = (name@, pat.tree());
            out.push((name, pat));
            proof {
                assert(field_patterns_tree(out@) =~= had.push(model));
            }
            let more = self.accept(T::Comma)?;
            if !more {
                return Ok((out, false));
            }
            proof {
                assert(here == pattern_fields(self.input(), self.at(), self.nesting as nat, self.no_struct, field_patterns_tree(out@)));
            }
        }
    }

    /// A literal pattern or a range of literals.
    pub fn parse_range_pattern(&mut self) -> (r: Result<Pattern, ParseError>)
        requires
            old(self).wf(),
        ensures
            match r {
                Ok(v) => kept(*old(self), *final(self), true) && range_pattern(
                    old(self).input(),
                    old(self).at(),
                    old(self).nesting as nat,
                    old(self).no_struct,
                ) == Out::Done(final(self).at(), v.tree()),
                Err(e) => range_pattern(
                    old(self).input(),
                    old(self).at(),
                    old(self).nesting as nat,
                    old(self).no_struct,
                ) == Out::<PatternTree>::Fail(e.failure()),
            },
        decreases
            old(self).max_nesting - old(self).nesting,
            4int,
            rem(old(self).input(), old(self).at()),
            0int,
    {
        let lo = self.parse_pattern_literal()?;
        if self.cur() == T::DotDotEq || self.cur() == T::DotDot {
            let inclusive = self.cur() == T::DotDotEq;
            self.bump()?;
            let hi = self.parse_pattern_literal()?;
            return Ok(Pattern::Range {
                lo: Box::new(lo), hi: Box::new(hi), inclusive
            });
        }
        Ok(Pattern::Literal(lo))
    }

    /// A binding, a path or a variant pattern.
    pub fn parse_path_pattern(&mut self) -> (r: Result<Pattern, ParseError>)
        requires
            old(self).wf(),
        ensures
            match r {
                Ok(v) => kept(*old(self), *final(self), true) && path_pattern(
                    old(self).input(),
                    old(self).at(),
                    old(self).nesting as nat,
                    old(self).no_struct,
                ) == Out::Done(final(self).at(), v.tree()),
                Err(e) => path_pattern(
                    old(self).input(),
                    old(self).at(),
                    old(self).nesting as nat,
                    old(self).no_struct,
                ) == Out::<PatternTree>::Fail(e.failure()),
            },
        decreases
            old(self).max_nesting - old(self).nesting,
            4int,
            rem(old(self).input(), old(self).at()),
            0int,
    {
        let span = self.range();
        let first = self.expect_ident()?;
        let binds = starts_lowercase(first.as_str());
        let mut path: Vec<String> = Vec::new();
        path.push(first.clone());
        proof {
            assert(texts(path@) =~= seq![first@]);
        }
        let path = self.parse_segments(path)?;
        proof {
            assert(texts(path@).len() == path@.len());
        }
        if self.cur() == T::LParen {
            self.bump()?;
            let elems = self.parse_pattern_elems()?;
            self.expect(T::RParen)?;
            let id = self.next_pattern_id()?;
            return Ok(Pattern::TupleVariant {
                id, path, elems
            });
        }
        if self.cur() == T::LBrace {
            self.bump()?;
            let fields = self.parse_pattern_fields()?;
            self.expect(T::RBrace)?;
            let id = self.next_pattern_id()?;
            return Ok(Pattern::StructVariant {
                id, path, fields: fields.0, rest: fields.1
            });
        }
        if path.len() == 1 && binds {
            return Ok(Pattern::Binding(first, span));
        }
        let id = self.next_pattern_id()?;
        Ok(Pattern::Path {
            id, path
        })
    }

    /// A pattern, one level further in.
    pub fn parse_pattern_inner(&mut self) -> (r: Result<Pattern, ParseError>)
        requires
            old(self).wf(),
        ensures
            match r {
                Ok(v) => kept(*old(self), *final(self), true) && pattern_inner(
                    old(self).input(),
                    old(self).at(),
                    old(self).nesting as nat,
                    old(self).no_struct,
                ) == Out::Done(final(self).at(), v.tree()),
                Err(e) => pattern_inner(
                    old(self).input(),
                    old(self).at(),
                    old(self).nesting as nat,
                    old(self).no_struct,
                ) == Out::<PatternTree>::Fail(e.failure()),
            },
        decreases
            old(self).max_nesting - old(self).nesting,
            9int,
            rem(old(self).input(), old(self).at()),
            0int,
    {
        match self.cur() {
            T::Int | T::Float | T::Str | T::KwTrue | T::KwFalse | T::Minus => self.parse_range_pattern(), T::Ident | T::KwSelf => {
                let text = self.text();
                if same_text(text.as_str(), "_") {
                    self.bump()?;
                    Ok(Pattern::Wildcard)
                } else {
                    self.parse_path_pattern()
                }
            },
            other => Err(self.err(cat3("expected pattern, found `", other.user_string(), "`"))),
        }
    }

    /// A literal in a pattern, one level further in.
    pub fn parse_pattern_literal_inner(&mut self) -> (r: Result<Expr, ParseError>)
        requires
            old(self).wf(),
        ensures
            match r {
                Ok(v) => kept(*old(self), *final(self), true) && literal_inner(
                    old(self).input(),
                    old(self).at(),
                    old(self).nesting as nat,
                    old(self).no_struct,
                ) == Out::Done(final(self).at(), v.tree()),
                Err(e) => literal_inner(
                    old(self).input(),
                    old(self).at(),
                    old(self).nesting as nat,
                    old(self).no_struct,
                ) == Out::<ExprTree>::Fail(e.failure()),
            },
        decreases
            old(self).max_nesting - old(self).nesting,
            9int,
            rem(old(self).input(), old(self).at()),
            0int,
    {
        let start = self.range();
        match self.cur() {
            T::Minus => {
                self.bump()?;
                let inner = self.parse_pattern_literal()?;
                self.mk(ExprKind::Unary {
                    op: UnOp::Neg, expr: Box::new(inner)
                },
                start)
            },
            T::Int | T::Float | T::Str | T::KwTrue | T::KwFalse => self.parse_literal(start), other => Err(self.err(cat3("expected literal in pattern, found `", other.user_string(), "`"))),
        }
    }
}

} // verus!
