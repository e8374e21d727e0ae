//! Primary expressions.

use vstd::prelude::*;

use crate::ast::{ClosureParam, ElseBranch, Expr, ExprKind};
use crate::parser::pieces::{
    block_body, block_of, loop_of, else_block_of, else_if, expr_body, no_else,
};
use crate::parser::grammar::{
    branching, closure, closure_head, closure_params, else_branch, enclosed, field_values, if_expr,
    literal, macro_call, map_entries, map_literal, named, primary, rem, Out,
};
use crate::parser::state::{kept, literal_of, ParseError, Parser};
use crate::text::{cat3, cat5, same_text, texts};
use crate::token::{RuaTokenKind as T, SourceRange};
use crate::tree::{
    closure_params_tree, field_values_tree, optional_boxed_else_branch_tree, pairs_tree,
    ClosureParamTree, ElseBranchTree, ExprTree,
};

verus! {

impl<'a> Parser<'a> {
    /// A literal token.
    pub fn parse_literal(&mut self, start: SourceRange) -> (r: Result<Expr, ParseError>)
        requires
            old(self).wf(),
            old(self).input().kind(old(self).at().cur) != T::Eof,
        ensures
            match r {
                Ok(v) => kept(*old(self), *final(self), true) && literal(
                    old(self).input(),
                    old(self).at(),
                    old(self).nesting as nat,
                    old(self).no_struct,
                    start,
                ) == Out::Done(final(self).at(), v.tree()),
                Err(e) => literal(
                    old(self).input(),
                    old(self).at(),
                    old(self).nesting as nat,
                    old(self).no_struct,
                    start,
                ) == Out::<ExprTree>::Fail(e.failure()),
            },
        decreases
            old(self).max_nesting - old(self).nesting,
            1int,
            rem(old(self).input(), old(self).at()),
            0int,
    {
        let text = self.text();
        let kind = self.cur();
        self.bump()?;
        self.mk(literal_of(kind, text), start)
    }

    /// A path, a struct literal or a macro call.
    pub fn parse_named(&mut self, start: SourceRange) -> (r: Result<Expr, ParseError>)
        requires
            old(self).wf(),
        ensures
            match r {
                Ok(v) => kept(*old(self), *final(self), true) && named(
                    old(self).input(),
                    old(self).at(),
                    old(self).nesting as nat,
                    old(self).no_struct,
                    start,
                ) == Out::Done(final(self).at(), v.tree()),
                Err(e) => named(
                    old(self).input(),
                    old(self).at(),
                    old(self).nesting as nat,
                    old(self).no_struct,
                    start,
                ) == Out::<ExprTree>::Fail(e.failure()),
            },
        decreases
            old(self).max_nesting - old(self).nesting,
            6int,
            rem(old(self).input(), old(self).at()),
            0int,
    {
        if self.cur() == T::Ident {
            proof {
                self.lexer.lemma_next();
            }
            if self.lexer.peek_next() == T::Not {
                return self.parse_macro();
            }
        }
        let first = self.expect_ident()?;
        let ghost one = first@;
        let mut path: Vec<String> = Vec::new();
        path.push(first);
        proof {
            assert(texts(path@) =~= seq![one]);
        }
        let path = self.parse_segments(path)?;
        if !self.no_struct && self.cur() == T::LBrace {
            self.expect(T::LBrace)?;
            let fields = self.parse_struct_lit_fields()?;
            self.expect(T::RBrace)?;
            self.mk(ExprKind::StructLit {
                path, fields
            },
            start)
        } else {
            self.mk(ExprKind::Path(path), start)
        }
    }

    /// A loop, a grouped expression or a block.
    pub fn parse_enclosed(&mut self, start: SourceRange) -> (r: Result<Expr, ParseError>)
        requires
            old(self).wf(),
        ensures
            match r {
                Ok(v) => kept(*old(self), *final(self), true) && enclosed(
                    old(self).input(),
                    old(self).at(),
                    old(self).nesting as nat,
                    old(self).no_struct,
                    start,
                ) == Out::Done(final(self).at(), v.tree()),
                Err(e) => enclosed(
                    old(self).input(),
                    old(self).at(),
                    old(self).nesting as nat,
                    old(self).no_struct,
                    start,
                ) == Out::<ExprTree>::Fail(e.failure()),
            },
        decreases
            old(self).max_nesting - old(self).nesting,
            4int,
            rem(old(self).input(), old(self).at()),
            0int,
    {
        if self.cur() == T::KwLoop {
            self.bump()?;
            let body = self.parse_block()?;
            return self.mk(loop_of(body), start);
        }
        if self.cur() == T::LParen {
            self.bump()?;
            let e = self.parse_expr_allow_struct()?;
            self.expect(T::RParen)?;
            return Ok(e);
        }
        let block = self.parse_block()?;
        self.mk(block_of(block), start)
    }

    /// A primary expression that starts with a keyword or a bracket of its own.
    pub fn parse_branching(&mut self, start: SourceRange) -> (r: Result<Expr, ParseError>)
        requires
            old(self).wf(),
        ensures
            match r {
                Ok(v) => kept(*old(self), *final(self), true) && branching(
                    old(self).input(),
                    old(self).at(),
                    old(self).nesting as nat,
                    old(self).no_struct,
                    start,
                ) == Out::Done(final(self).at(), v.tree()),
                Err(e) => branching(
                    old(self).input(),
                    old(self).at(),
                    old(self).nesting as nat,
                    old(self).no_struct,
                    start,
                ) == Out::<ExprTree>::Fail(e.failure()),
            },
        decreases
            old(self).max_nesting - old(self).nesting,
            6int,
            rem(old(self).input(), old(self).at()),
            0int,
    {
        match self.cur() {
            T::Hash => self.parse_map_literal(start), T::KwLoop | T::LParen | T::LBrace => self.parse_enclosed(start), T::KwIf => self.parse_if(), T::KwMatch => self.parse_match(), other => Err(self.err(cat3("expected expression, found `", other.user_string(), "`"))),
        }
    }

    /// A primary expression.
    pub fn parse_primary(&mut self) -> (r: Result<Expr, ParseError>)
        requires
            old(self).wf(),
        ensures
            match r {
                Ok(v) => kept(*old(self), *final(self), true) && primary(
                    old(self).input(),
                    old(self).at(),
                    old(self).nesting as nat,
                    old(self).no_struct,
                ) == Out::Done(final(self).at(), v.tree()),
                Err(e) => primary(
                    old(self).input(),
                    old(self).at(),
                    old(self).nesting as nat,
                    old(self).no_struct,
                ) == Out::<ExprTree>::Fail(e.failure()),
            },
        decreases
            old(self).max_nesting - old(self).nesting,
            7int,
            rem(old(self).input(), old(self).at()),
            0int,
    {
        let start = self.range();
        match self.cur() {
            T::Pipe | T::OrOr => self.parse_closure(), T::Int | T::Float | T::Str | T::KwTrue | T::KwFalse => self.parse_literal(start), T::Ident | T::KwSelf => self.parse_named(start), _ => self.parse_branching(start),
        }
    }

    /// The parameters of a closure up to its closing bar.
    pub fn parse_closure_params(&mut self) -> (r: Result<Vec<ClosureParam>, ParseError>)
        requires
            old(self).wf(),
        ensures
            match r {
                Ok(v) => kept(*old(self), *final(self), false) && closure_params(
                    old(self).input(),
                    old(self).at(),
                    old(self).nesting as nat,
                    old(self).no_struct,
                    Seq::empty(),
                ) == Out::Done(final(self).at(), closure_params_tree(v@)),
                Err(e) => closure_params(
                    old(self).input(),
                    old(self).at(),
                    old(self).nesting as nat,
                    old(self).no_struct,
                    Seq::empty(),
                ) == Out::<Seq<ClosureParamTree>>::Fail(e.failure()),
            },
        decreases
            old(self).max_nesting - old(self).nesting,
            4int,
            rem(old(self).input(), old(self).at()),
            0int,
    {
        let mut out: Vec<ClosureParam> = Vec::new();
        proof {
            assert(closure_params_tree(out@) =~= Seq::empty());
        }
        loop
            invariant
                kept(*old(self), *self, false),
                closure_params(self.input(), self.at(), self.nesting as nat, self.no_struct, closure_params_tree(out@)) == closure_params(
                    old(self).input(),
                    old(self).at(),
                    old(self).nesting as nat,
                    old(self).no_struct,
                    Seq::empty(),
                ),
            decreases rem(self.input(), self.at()),
        {
            let ghost here = closure_params(self.input(), self.at(), self.nesting as nat, self.no_struct, closure_params_tree(out@));
            if self.cur() == T::Pipe || self.cur() == T::Eof {
                return Ok(out);
            }
            let name_span = self.range();
            let name = self.expect_ident()?;
            let ty = self.parse_optional_type(T::Colon)?;
            let one = ClosureParam {
                name, name_span, ty
            };
            let ghost had = closure_params_tree(out@);
            let ghost model = one.tree();
            out.push(one);
            proof {
                assert(closure_params_tree(out@) =~= had.push(model));
            }
            let more = self.accept(T::Comma)?;
            if !more {
                return Ok(out);
            }
            proof {
                assert(here == closure_params(self.input(), self.at(), self.nesting as nat, self.no_struct, closure_params_tree(out@)));
            }
        }
    }

    /// The bars of a closure with its parameters.
    pub fn parse_closure_head(&mut self) -> (r: Result<Vec<ClosureParam>, ParseError>)
        requires
            old(self).wf(),
        ensures
            match r {
                Ok(v) => kept(*old(self), *final(self), true) && closure_head(
                    old(self).input(),
                    old(self).at(),
                    old(self).nesting as nat,
                    old(self).no_struct,
                ) == Out::Done(final(self).at(), closure_params_tree(v@)),
                Err(e) => closure_head(
                    old(self).input(),
                    old(self).at(),
                    old(self).nesting as nat,
                    old(self).no_struct,
                ) == Out::<Seq<ClosureParamTree>>::Fail(e.failure()),
            },
        decreases
            old(self).max_nesting - old(self).nesting,
            5int,
            rem(old(self).input(), old(self).at()),
            0int,
    {
        if self.cur() == T::OrOr {
            self.bump()?;
            let out: Vec<ClosureParam> = Vec::new();
            proof {
                assert(closure_params_tree(out@) =~= Seq::empty());
            }
            return Ok(out);
        }
        self.expect(T::Pipe)?;
        let params = self.parse_closure_params()?;
        self.expect(T::Pipe)?;
        Ok(params)
    }

    /// A closure.
    pub fn parse_closure(&mut self) -> (r: Result<Expr, ParseError>)
        requires
            old(self).wf(),
        ensures
            match r {
                Ok(v) => kept(*old(self), *final(self), true) && closure(
                    old(self).input(),
                    old(self).at(),
                    old(self).nesting as nat,
                    old(self).no_struct,
                ) == Out::Done(final(self).at(), v.tree()),
                Err(e) => closure(
                    old(self).input(),
                    old(self).at(),
                    old(self).nesting as nat,
                    old(self).no_struct,
                ) == Out::<ExprTree>::Fail(e.failure()),
            },
        decreases
            old(self).max_nesting - old(self).nesting,
            6int,
            rem(old(self).input(), old(self).at()),
            0int,
    {
        let start = self.range();
        let params = self.parse_closure_head()?;
        let ret = self.parse_optional_type(T::Arrow)?;
        if self.cur() == T::LBrace {
            let block = self.parse_block()?;
            self.mk(ExprKind::Closure {
                params, ret, body: block_body(block)
            },
            start)
        } else {
            let e = self.parse_expr_allow_struct()?;
            self.mk(ExprKind::Closure {
                params, ret, body: expr_body(e)
            },
            start)
        }
    }

    /// The entries of a map up to its closing brace.
    pub fn parse_map_entries(&mut self) -> (r: Result<Vec<(Expr, Expr)>, ParseError>)
        requires
            old(self).wf(),
        ensures
            match r {
                Ok(v) => kept(*old(self), *final(self), false) && map_entries(
                    old(self).input(),
                    old(self).at(),
                    old(self).nesting as nat,
                    old(self).no_struct,
                    Seq::empty(),
                ) == Out::Done(final(self).at(), pairs_tree(v@)),
                Err(e) => map_entries(
                    old(self).input(),
                    old(self).at(),
                    old(self).nesting as nat,
                    old(self).no_struct,
                    Seq::empty(),
                ) == Out::<Seq<(ExprTree, ExprTree)>>::Fail(e.failure()),
            },
        decreases
            old(self).max_nesting - old(self).nesting,
            2int,
            rem(old(self).input(), old(self).at()),
            0int,
    {
        let mut out: Vec<(Expr, Expr)> = Vec::new();
        proof {
            assert(pairs_tree(out@) =~= Seq::empty());
        }
        loop
            invariant
                kept(*old(self), *self, false),
                map_entries(self.input(), self.at(), self.nesting as nat, self.no_struct, pairs_tree(out@)) == map_entries(
                    old(self).input(),
                    old(self).at(),
                    old(self).nesting as nat,
                    old(self).no_struct,
                    Seq::empty(),
                ),
            decreases rem(self.input(), self.at()),
        {
            let ghost here = map_entries(self.input(), self.at(), self.nesting as nat, self.no_struct, pairs_tree(out@));
            if self.cur() == T::RBrace {
                return Ok(out);
            }
            let key = self.parse_expr_allow_struct()?;
            self.expect(T::Colon)?;
            let value = self.parse_expr_allow_struct()?;
            let ghost had = pairs_tree(out@);
            let ghost model = (key.tree(), value.tree());
            out.push((key, value));
            proof {
                assert(pairs_tree(out@) =~= had.push(model));
            }
            let more = self.accept(T::Comma)?;
            if !more {
                return Ok(out);
            }
            proof {
                assert(here == map_entries(self.input(), self.at(), self.nesting as nat, self.no_struct, pairs_tree(out@)));
            }
        }
    }

    /// A map literal.
    pub fn parse_map_literal(&mut self, start: SourceRange) -> (r: Result<Expr, ParseError>)
        requires
            old(self).wf(),
        ensures
            match r {
                Ok(v) => kept(*old(self), *final(self), true) && map_literal(
                    old(self).input(),
                    old(self).at(),
                    old(self).nesting as nat,
                    old(self).no_struct,
                    start,
                ) == Out::Done(final(self).at(), v.tree()),
                Err(e) => map_literal(
                    old(self).input(),
                    old(self).at(),
                    old(self).nesting as nat,
                    old(self).no_struct,
                    start,
                ) == Out::<ExprTree>::Fail(e.failure()),
            },
        decreases
            old(self).max_nesting - old(self).nesting,
            3int,
            rem(old(self).input(), old(self).at()),
            0int,
    {
        self.expect(T::Hash)?;
        self.expect(T::LBrace)?;
        let entries = self.parse_map_entries()?;
        self.expect(T::RBrace)?;
        self.mk(ExprKind::MapLit(entries), start)
    }

    /// A macro call; `vec![..]` is a list literal.
    pub fn parse_macro(&mut self) -> (r: Result<Expr, ParseError>)
        requires
            old(self).wf(),
        ensures
            match r {
                Ok(v) => kept(*old(self), *final(self), true) && macro_call(
                    old(self).input(),
                    old(self).at(),
                    old(self).nesting as nat,
                    old(self).no_struct,
                ) == Out::Done(final(self).at(), v.tree()),
                Err(e) => macro_call(
                    old(self).input(),
                    old(self).at(),
                    old(self).nesting as nat,
                    old(self).no_struct,
                ) == Out::<ExprTree>::Fail(e.failure()),
            },
        decreases
            old(self).max_nesting - old(self).nesting,
            3int,
            rem(old(self).input(), old(self).at()),
            0int,
    {
        let start = self.range();
        let name = self.expect_ident()?;
        self.expect(T::Not)?;
        if self.cur() != T::LParen && self.cur() != T::LBracket {
            return Err(self.err(cat5("expected `(` or `[` after `", name.as_str(), "!`, found `", self.cur().user_string(), "`")));
        }
        let close = if self.cur() == T::LParen {
            T::RParen
        } else {
            T::RBracket
        };
        self.bump()?;
        let list = self.parse_args(close)?;
        self.expect(close)?;
        if same_text(name.as_str(), "vec") {
            self.mk(ExprKind::VecLit(list), start)
        } else {
            self.mk(ExprKind::MacroCall { name, args: list }, start)
        }
    }

    /// The fields of a struct literal up to its closing brace.
    pub fn parse_struct_lit_fields(&mut self) -> (r: Result<Vec<(String, Expr)>, ParseError>)
        requires
            old(self).wf(),
        ensures
            match r {
                Ok(v) => kept(*old(self), *final(self), false) && field_values(
                    old(self).input(),
                    old(self).at(),
                    old(self).nesting as nat,
                    old(self).no_struct,
                    Seq::empty(),
                ) == Out::Done(final(self).at(), field_values_tree(v@)),
                Err(e) => field_values(
                    old(self).input(),
                    old(self).at(),
                    old(self).nesting as nat,
                    old(self).no_struct,
                    Seq::empty(),
                ) == Out::<Seq<(Seq<char>, ExprTree)>>::Fail(e.failure()),
            },
        decreases
            old(self).max_nesting - old(self).nesting,
            2int,
            rem(old(self).input(), old(self).at()),
            0int,
    {
        let mut out: Vec<(String, Expr)> = Vec::new();
        proof {
            assert(field_values_tree(out@) =~= Seq::empty());
        }
        loop
            invariant
                kept(*old(self), *self, false),
                field_values(self.input(), self.at(), self.nesting as nat, self.no_struct, field_values_tree(out@)) == field_values(
                    old(self).input(),
                    old(self).at(),
                    old(self).nesting as nat,
                    old(self).no_struct,
                    Seq::empty(),
                ),
            decreases rem(self.input(), self.at()),
        {
            let ghost here = field_values(self.input(), self.at(), self.nesting as nat, self.no_struct, field_values_tree(out@));
            if self.cur() == T::RBrace {
                return Ok(out);
            }
            let start = self.range();
            let name = self.expect_ident()?;
            let given = self.accept(T::Colon)?;
            let value = if given {
                self.parse_expr_allow_struct()?
            } else {
                let mut path: Vec<String> = Vec::new();
                path.push(name.clone());
                proof {
                    assert(texts(path@) =~= seq![name@]);
                }
                self.mk(ExprKind::Path(path), start)?
            };
            let ghost had = field_values_tree(out@);
            let ghost model = (name@, value.tree());
            out.push((name, value));
            proof {
                assert(field_values_tree(out@) =~= had.push(model));
            }
            let more = self.accept(T::Comma)?;
            if !more {
                return Ok(out);
            }
            proof {
                assert(here == field_values(self.input(), self.at(), self.nesting as nat, self.no_struct, field_values_tree(out@)));
            }
        }
    }

    /// An `if`.
    pub fn parse_if(&mut self) -> (r: Result<Expr, ParseError>)
        requires
            old(self).wf(),
        ensures
            match r {
                Ok(v) => kept(*old(self), *final(self), true) && if_expr(
                    old(self).input(),
                    old(self).at(),
                    old(self).nesting as nat,
                    old(self).no_struct,
                ) == Out::Done(final(self).at(), v.tree()),
                Err(e) => if_expr(
                    old(self).input(),
                    old(self).at(),
                    old(self).nesting as nat,
                    old(self).no_struct,
                ) == Out::<ExprTree>::Fail(e.failure()),
            },
        decreases
            old(self).max_nesting - old(self).nesting,
            5int,
            rem(old(self).input(), old(self).at()),
            2int,
    {
        let start = self.range();
        self.expect(T::KwIf)?;
        if self.cur() == T::KwLet {
            self.expect(T::KwLet)?;
            let pat = self.parse_pattern()?;
            self.expect(T::Eq)?;
            let expr = self.parse_cond()?;
            let then_block = self.parse_block()?;
            let else_block = self.parse_else()?;
            return self.mk(ExprKind::IfLet {
                pat: Box::new(pat), expr: Box::new(expr), then_block, else_block
            },
            start);
        }
        let cond = self.parse_cond()?;
        let then_block = self.parse_block()?;
        let else_block = self.parse_else()?;
        self.mk(ExprKind::If {
            cond: Box::new(cond), then_block, else_block
        },
        start)
    }

    /// An optional `else`.
    pub fn parse_else(&mut self) -> (r: Result<Option<Box<ElseBranch>>, ParseError>)
        requires
            old(self).wf(),
        ensures
            match r {
                Ok(v) => kept(*old(self), *final(self), false) && else_branch(
                    old(self).input(),
                    old(self).at(),
                    old(self).nesting as nat,
                    old(self).no_struct,
                ) == Out::Done(final(self).at(), optional_boxed_else_branch_tree(v)),
                Err(e) => else_branch(
                    old(self).input(),
                    old(self).at(),
                    old(self).nesting as nat,
                    old(self).no_struct,
                ) == Out::<Option<Box<ElseBranchTree>>>::Fail(e.failure()),
            },
        decreases
            old(self).max_nesting - old(self).nesting,
            5int,
            rem(old(self).input(), old(self).at()),
            1int,
    {
        if self.cur() != T::KwElse {
            return Ok(no_else());
        }
        self.bump()?;
        if self.cur() == T::KwIf {
            let e = self.parse_if()?;
            Ok(else_if(e))
        } else {
            let block = self.parse_block()?;
            Ok(else_block_of(block))
        }
    }
}

} // verus!
