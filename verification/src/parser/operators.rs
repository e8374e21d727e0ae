//! Expressions with operators and suffixes.

use vstd::prelude::*;

use crate::ast::{Expr, ExprKind, Type};
use crate::parser::grammar::{
    args, bin_inner, bin_rest, call_args, expr_inner, member, p_expr, postfix, rem, suffix,
    suffixes, turbofish, unary_inner, Out,
};
use crate::parser::state::{assignop, binop, kept, unop, ParseError, Parser};
use crate::token::{RuaTokenKind as T, SourceRange};
use crate::tree::{exprs_tree, types_tree, ExprTree, TypeTree};

verus! {

impl<'a> Parser<'a> {
    /// An expression.
    pub fn parse_cond(&mut self) -> (r: Result<Expr, ParseError>)
        requires
            old(self).wf(),
        ensures
            match r {
                Ok(v) => kept(*old(self), *final(self), true) && p_expr(old(self).input(), old(self).at(), old(self).nesting as nat, true) == Out::Done(final(self).at(), v.tree()),
                Err(e) => p_expr(old(self).input(), old(self).at(), old(self).nesting as nat, true) == Out::<ExprTree>::Fail(e.failure()),
            },
        decreases
            old(self).max_nesting - old(self).nesting,
            1int,
            rem(old(self).input(), old(self).at()),
            0int,
    {
        let saved = self.no_struct;
        self.no_struct = true;
        match self.parse_expr() {
            Ok(value) => {
                self.no_struct = saved;
                Ok(value)
            },
            Err(error) => Err(error),
        }
    }

    /// An expression.
    pub fn parse_expr_allow_struct(&mut self) -> (r: Result<Expr, ParseError>)
        requires
            old(self).wf(),
        ensures
            match r {
                Ok(v) => kept(*old(self), *final(self), true) && p_expr(old(self).input(), old(self).at(), old(self).nesting as nat, false) == Out::Done(final(self).at(), v.tree()),
                Err(e) => p_expr(old(self).input(), old(self).at(), old(self).nesting as nat, false) == Out::<ExprTree>::Fail(e.failure()),
            },
        decreases
            old(self).max_nesting - old(self).nesting,
            1int,
            rem(old(self).input(), old(self).at()),
            0int,
    {
        let saved = self.no_struct;
        self.no_struct = false;
        match self.parse_expr() {
            Ok(value) => {
                self.no_struct = saved;
                Ok(value)
            },
            Err(error) => Err(error),
        }
    }

    /// An expression, one level further in.
    pub fn parse_expr_inner(&mut self) -> (r: Result<Expr, ParseError>)
        requires
            old(self).wf(),
        ensures
            match r {
                Ok(v) => kept(*old(self), *final(self), true) && expr_inner(
                    old(self).input(),
                    old(self).at(),
                    old(self).nesting as nat,
                    old(self).no_struct,
                ) == Out::Done(final(self).at(), v.tree()),
                Err(e) => expr_inner(
                    old(self).input(),
                    old(self).at(),
                    old(self).nesting as nat,
                    old(self).no_struct,
                ) == Out::<ExprTree>::Fail(e.failure()),
            },
        decreases
            old(self).max_nesting - old(self).nesting,
            9int,
            rem(old(self).input(), old(self).at()),
            0int,
    {
        let start = self.range();
        let lhs = self.parse_bin(0)?;
        match assignop(self.cur()) {
            Some(op) => {
                self.bump()?;
                let value = self.parse_expr()?;
                self.mk(ExprKind::Assign {
                    op, target: Box::new(lhs), value: Box::new(value)
                },
                start)
            },
            None => Ok(lhs),
        }
    }

    /// The operators behind a first operand.
    pub fn parse_bin_rest(&mut self, min_bp: u8, start: SourceRange, first: Expr) -> (r: Result<Expr, ParseError>)
        requires
            old(self).wf(),
        ensures
            match r {
                Ok(v) => kept(*old(self), *final(self), false) && bin_rest(
                    old(self).input(),
                    old(self).at(),
                    old(self).nesting as nat,
                    old(self).no_struct,
                    min_bp as nat,
                    start,
                    first.tree(),
                ) == Out::Done(final(self).at(), v.tree()),
                Err(e) => bin_rest(
                    old(self).input(),
                    old(self).at(),
                    old(self).nesting as nat,
                    old(self).no_struct,
                    min_bp as nat,
                    start,
                    first.tree(),
                ) == Out::<ExprTree>::Fail(e.failure()),
            },
        decreases
            old(self).max_nesting - old(self).nesting,
            2int,
            rem(old(self).input(), old(self).at()),
            0int,
    {
        let mut lhs = first;
        loop
            invariant
                kept(*old(self), *self, false),
                bin_rest(self.input(), self.at(), self.nesting as nat, self.no_struct, min_bp as nat, start, lhs.tree()) == bin_rest(
                    old(self).input(),
                    old(self).at(),
                    old(self).nesting as nat,
                    old(self).no_struct,
                    min_bp as nat,
                    start,
                    first.tree(),
                ),
            decreases rem(self.input(), self.at()),
        {
            let ghost here = bin_rest(self.input(), self.at(), self.nesting as nat, self.no_struct, min_bp as nat, start, lhs.tree());
            if self.cur() == T::DotDot || self.cur() == T::DotDotEq {
                if 4 < min_bp {
                    return Ok(lhs);
                }
                let inclusive = self.cur() == T::DotDotEq;
                self.bump()?;
                let rhs = self.parse_bin(5)?;
                lhs = self.mk(ExprKind::Range {
                    start: Box::new(lhs), end: Box::new(rhs), inclusive
                },
                start)?;
            } else {
                match binop(self.cur()) {
                    Some((op, tight)) => {
                        if tight < min_bp {
                            return Ok(lhs);
                        }
                        self.bump()?;
                        let rhs = self.parse_bin(tight + 1)?;
                        lhs = self.mk(ExprKind::Binary {
                            op, lhs: Box::new(lhs), rhs: Box::new(rhs)
                        },
                        start)?;
                    },
                    None => {
                        return Ok(lhs);
                    },
                }
            }
            proof {
                assert(here == bin_rest(self.input(), self.at(), self.nesting as nat, self.no_struct, min_bp as nat, start, lhs.tree()));
            }
        }
    }

    /// Operators, one level further in.
    pub fn parse_bin_inner(&mut self, min_bp: u8) -> (r: Result<Expr, ParseError>)
        requires
            old(self).wf(),
        ensures
            match r {
                Ok(v) => kept(*old(self), *final(self), true) && bin_inner(
                    old(self).input(),
                    old(self).at(),
                    old(self).nesting as nat,
                    old(self).no_struct,
                    min_bp as nat,
                ) == Out::Done(final(self).at(), v.tree()),
                Err(e) => bin_inner(
                    old(self).input(),
                    old(self).at(),
                    old(self).nesting as nat,
                    old(self).no_struct,
                    min_bp as nat,
                ) == Out::<ExprTree>::Fail(e.failure()),
            },
        decreases
            old(self).max_nesting - old(self).nesting,
            9int,
            rem(old(self).input(), old(self).at()),
            0int,
    {
        let start = self.range();
        let lhs = self.parse_unary()?;
        self.parse_bin_rest(min_bp, start, lhs)
    }

    /// A prefix expression, one level further in.
    pub fn parse_unary_inner(&mut self) -> (r: Result<Expr, ParseError>)
        requires
            old(self).wf(),
        ensures
            match r {
                Ok(v) => kept(*old(self), *final(self), true) && unary_inner(
                    old(self).input(),
                    old(self).at(),
                    old(self).nesting as nat,
                    old(self).no_struct,
                ) == Out::Done(final(self).at(), v.tree()),
                Err(e) => unary_inner(
                    old(self).input(),
                    old(self).at(),
                    old(self).nesting as nat,
                    old(self).no_struct,
                ) == Out::<ExprTree>::Fail(e.failure()),
            },
        decreases
            old(self).max_nesting - old(self).nesting,
            9int,
            rem(old(self).input(), old(self).at()),
            0int,
    {
        let start = self.range();
        match unop(self.cur()) {
            Some(op) => {
                self.bump()?;
                let e = self.parse_unary()?;
                self.mk(ExprKind::Unary {
                    op, expr: Box::new(e)
                },
                start)
            },
            None => self.parse_postfix(),
        }
    }

    /// Arguments up to a closing token.
    pub fn parse_args(&mut self, close: T) -> (r: Result<Vec<Expr>, ParseError>)
        requires
            old(self).wf(),
            close != T::Eof,
        ensures
            match r {
                Ok(v) => kept(*old(self), *final(self), false) && args(
                    old(self).input(),
                    old(self).at(),
                    old(self).nesting as nat,
                    old(self).no_struct,
                    close,
                    Seq::empty(),
                ) == Out::Done(final(self).at(), exprs_tree(v@)),
                Err(e) => args(
                    old(self).input(),
                    old(self).at(),
                    old(self).nesting as nat,
                    old(self).no_struct,
                    close,
                    Seq::empty(),
                ) == Out::<Seq<ExprTree>>::Fail(e.failure()),
            },
        decreases
            old(self).max_nesting - old(self).nesting,
            2int,
            rem(old(self).input(), old(self).at()),
            0int,
    {
        let mut out: Vec<Expr> = Vec::new();
        proof {
            assert(exprs_tree(out@) =~= Seq::empty());
        }
        loop
            invariant
                kept(*old(self), *self, false),
                args(self.input(), self.at(), self.nesting as nat, self.no_struct, close, exprs_tree(out@)) == args(
                    old(self).input(),
                    old(self).at(),
                    old(self).nesting as nat,
                    old(self).no_struct,
                    close,
                    Seq::empty(),
                ),
            decreases rem(self.input(), self.at()),
        {
            let ghost here = args(self.input(), self.at(), self.nesting as nat, self.no_struct, close, exprs_tree(out@));
            if self.cur() == close {
                return Ok(out);
            }
            let e = self.parse_expr_allow_struct()?;
            let ghost had = exprs_tree(out@);
            let ghost model = e.tree();
            out.push(e);
            proof {
                assert(exprs_tree(out@) =~= had.push(model));
            }
            let more = self.accept(T::Comma)?;
            if !more {
                return Ok(out);
            }
            proof {
                assert(here == args(self.input(), self.at(), self.nesting as nat, self.no_struct, close, exprs_tree(out@)));
            }
        }
    }

    /// Arguments in parentheses.
    pub fn parse_call_args(&mut self) -> (r: Result<Vec<Expr>, ParseError>)
        requires
            old(self).wf(),
        ensures
            match r {
                Ok(v) => kept(*old(self), *final(self), true) && call_args(
                    old(self).input(),
                    old(self).at(),
                    old(self).nesting as nat,
                    old(self).no_struct,
                ) == Out::Done(final(self).at(), exprs_tree(v@)),
                Err(e) => call_args(
                    old(self).input(),
                    old(self).at(),
                    old(self).nesting as nat,
                    old(self).no_struct,
                ) == Out::<Seq<ExprTree>>::Fail(e.failure()),
            },
        decreases
            old(self).max_nesting - old(self).nesting,
            3int,
            rem(old(self).input(), old(self).at()),
            0int,
    {
        self.expect(T::LParen)?;
        let list = self.parse_args(T::RParen)?;
        self.expect(T::RParen)?;
        Ok(list)
    }

    /// Explicit type arguments behind `::`.
    pub fn parse_turbofish(&mut self) -> (r: Result<Vec<Type>, ParseError>)
        requires
            old(self).wf(),
        ensures
            match r {
                Ok(v) => kept(*old(self), *final(self), false) && turbofish(
                    old(self).input(),
                    old(self).at(),
                    old(self).nesting as nat,
                    old(self).no_struct,
                ) == Out::Done(final(self).at(), types_tree(v@)),
                Err(e) => turbofish(
                    old(self).input(),
                    old(self).at(),
                    old(self).nesting as nat,
                    old(self).no_struct,
                ) == Out::<Seq<TypeTree>>::Fail(e.failure()),
            },
        decreases
            old(self).max_nesting - old(self).nesting,
            3int,
            rem(old(self).input(), old(self).at()),
            0int,
    {
        let some = self.accept(T::ColonColon)?;
        if !some {
            let out: Vec<Type> = Vec::new();
            proof {
                assert(types_tree(out@) =~= Seq::empty());
            }
            return Ok(out);
        }
        self.expect(T::Lt)?;
        let list = self.parse_type_list(T::Gt)?;
        self.expect(T::Gt)?;
        Ok(list)
    }

    /// A field or a method call behind its base.
    pub fn parse_member(&mut self, start: SourceRange, base: Expr) -> (r: Result<Expr, ParseError>)
        requires
            old(self).wf(),
            old(self).input().kind(old(self).at().cur) != T::Eof,
        ensures
            match r {
                Ok(v) => kept(*old(self), *final(self), true) && member(
                    old(self).input(),
                    old(self).at(),
                    old(self).nesting as nat,
                    old(self).no_struct,
                    start,
                    base.tree(),
                ) == Out::Done(final(self).at(), v.tree()),
                Err(e) => member(
                    old(self).input(),
                    old(self).at(),
                    old(self).nesting as nat,
                    old(self).no_struct,
                    start,
                    base.tree(),
                ) == Out::<ExprTree>::Fail(e.failure()),
            },
        decreases
            old(self).max_nesting - old(self).nesting,
            4int,
            rem(old(self).input(), old(self).at()),
            0int,
    {
        let optional = self.cur() == T::QuestionDot;
        self.bump()?;
        let member_span = self.range();
        let name = self.expect_ident()?;
        let type_args = self.parse_turbofish()?;
        if self.cur() == T::LParen {
            let args = self.parse_call_args()?;
            return self.mk(ExprKind::MethodCall {
                recv: Box::new(base),
                method: name,
                optional,
                type_args,
                args,
                method_span: member_span,
            },
            start);
        }
        if type_args.len() > 0 {
            return Err(self.err("method turbofish must be followed by `(...)`".to_string()));
        }
        self.mk(ExprKind::Field {
            base: Box::new(base), name, optional, name_span: member_span
        },
        start)
    }

    /// One suffix behind an expression, and whether there was one.
    pub fn parse_suffix(&mut self, start: SourceRange, base: Expr) -> (r: Result<(bool, Expr), ParseError>)
        requires
            old(self).wf(),
        ensures
            match r {
                Ok(v) => kept(*old(self), *final(self), v.0) && suffix(
                    old(self).input(),
                    old(self).at(),
                    old(self).nesting as nat,
                    old(self).no_struct,
                    start,
                    base.tree(),
                ) == Out::Done(final(self).at(), (v.0, v.1.tree())),
                Err(e) => suffix(
                    old(self).input(),
                    old(self).at(),
                    old(self).nesting as nat,
                    old(self).no_struct,
                    start,
                    base.tree(),
                ) == Out::<(bool, ExprTree)>::Fail(e.failure()),
            },
        decreases
            old(self).max_nesting - old(self).nesting,
            5int,
            rem(old(self).input(), old(self).at()),
            0int,
    {
        match self.cur() {
            T::LParen => {
                let args = self.parse_call_args()?;
                let e = self.mk(ExprKind::Call {
                    callee: Box::new(base), args
                },
                start)?;
                Ok((true, e))
            },
            T::Dot | T::QuestionDot => {
                let e = self.parse_member(start, base)?;
                Ok((true, e))
            },
            T::Question => {
                self.bump()?;
                let e = self.mk(ExprKind::Try {
                    expr: Box::new(base)
                },
                start)?;
                Ok((true, e))
            },
            T::LBracket => {
                self.bump()?;
                let index = self.parse_expr_allow_struct()?;
                self.expect(T::RBracket)?;
                let e = self.mk(ExprKind::Index {
                    base: Box::new(base), index: Box::new(index)
                },
                start)?;
                Ok((true, e))
            },
            _ => Ok((false, base)),
        }
    }

    /// All suffixes behind an expression.
    pub fn parse_suffixes(&mut self, start: SourceRange, first: Expr) -> (r: Result<Expr, ParseError>)
        requires
            old(self).wf(),
        ensures
            match r {
                Ok(v) => kept(*old(self), *final(self), false) && suffixes(
                    old(self).input(),
                    old(self).at(),
                    old(self).nesting as nat,
                    old(self).no_struct,
                    start,
                    first.tree(),
                ) == Out::Done(final(self).at(), v.tree()),
                Err(e) => suffixes(
                    old(self).input(),
                    old(self).at(),
                    old(self).nesting as nat,
                    old(self).no_struct,
                    start,
                    first.tree(),
                ) == Out::<ExprTree>::Fail(e.failure()),
            },
        decreases
            old(self).max_nesting - old(self).nesting,
            6int,
            rem(old(self).input(), old(self).at()),
            0int,
    {
        let mut e = first;
        loop
            invariant
                kept(*old(self), *self, false),
                suffixes(self.input(), self.at(), self.nesting as nat, self.no_struct, start, e.tree()) == suffixes(
                    old(self).input(),
                    old(self).at(),
                    old(self).nesting as nat,
                    old(self).no_struct,
                    start,
                    first.tree(),
                ),
            decreases rem(self.input(), self.at()),
        {
            let ghost here = suffixes(self.input(), self.at(), self.nesting as nat, self.no_struct, start, e.tree());
            let longer = self.parse_suffix(start, e)?;
            if !longer.0 {
                return Ok(longer.1);
            }
            e = longer.1;
            proof {
                assert(here == suffixes(self.input(), self.at(), self.nesting as nat, self.no_struct, start, e.tree()));
            }
        }
    }

    /// A primary expression with its suffixes.
    pub fn parse_postfix(&mut self) -> (r: Result<Expr, ParseError>)
        requires
            old(self).wf(),
        ensures
            match r {
                Ok(v) => kept(*old(self), *final(self), true) && postfix(
                    old(self).input(),
                    old(self).at(),
                    old(self).nesting as nat,
                    old(self).no_struct,
                ) == Out::Done(final(self).at(), v.tree()),
                Err(e) => postfix(
                    old(self).input(),
                    old(self).at(),
                    old(self).nesting as nat,
                    old(self).no_struct,
                ) == Out::<ExprTree>::Fail(e.failure()),
            },
        decreases
            old(self).max_nesting - old(self).nesting,
            8int,
            rem(old(self).input(), old(self).at()),
            0int,
    {
        let start = self.range();
        let e = self.parse_primary()?;
        self.parse_suffixes(start, e)
    }
}

} // verus!
