//! Blocks and statements.

use vstd::prelude::*;

use crate::ast::{Block, Expr, Pattern, Stmt};
use crate::parser::pieces::{
    break_of, return_of, empty_block, no_expr, optional_stmt_tree, push_stmt, set_tail, some_expr,
};
use crate::parser::grammar::{
    block_inner, block_stmts, break_stmt, empty_block_tree, for_stmt, keyword_stmt, let_stmt,
    optional_value, p_bin, p_block, p_expr, p_pattern, p_unary, pattern_literal, rem, return_stmt,
    while_stmt, Out,
};
use crate::parser::state::{ends_statement, kept, ParseError, Parser};
use crate::text::cat3;
use crate::token::RuaTokenKind as T;
use crate::tree::{optional_expr_tree, BlockTree, ExprTree, PatternTree, StmtTree};

verus! {

impl<'a> Parser<'a> {
    /// A block.
    pub fn parse_block(&mut self) -> (r: Result<Block, ParseError>)
        requires
            old(self).wf(),
        ensures
            match r {
                Ok(v) => kept(*old(self), *final(self), true) && p_block(
                    old(self).input(),
                    old(self).at(),
                    old(self).nesting as nat,
                    old(self).no_struct,
                ) == Out::Done(final(self).at(), v.tree()),
                Err(e) => p_block(
                    old(self).input(),
                    old(self).at(),
                    old(self).nesting as nat,
                    old(self).no_struct,
                ) == Out::<BlockTree>::Fail(e.failure()),
            },
        decreases
            old(self).max_nesting - old(self).nesting,
            0int,
            rem(old(self).input(), old(self).at()),
            0int,
    {
        if self.nesting >= self.max_nesting {
            return Err(self.nesting_error());
        }
        self.nesting = self.nesting + 1;
        match self.parse_block_inner() {
            Ok(value) => {
                self.nesting = self.nesting - 1;
                Ok(value)
            },
            Err(error) => Err(error),
        }
    }

    /// An expression.
    pub fn parse_expr(&mut self) -> (r: Result<Expr, ParseError>)
        requires
            old(self).wf(),
        ensures
            match r {
                Ok(v) => kept(*old(self), *final(self), true) && p_expr(
                    old(self).input(),
                    old(self).at(),
                    old(self).nesting as nat,
                    old(self).no_struct,
                ) == Out::Done(final(self).at(), v.tree()),
                Err(e) => p_expr(
                    old(self).input(),
                    old(self).at(),
                    old(self).nesting as nat,
                    old(self).no_struct,
                ) == Out::<ExprTree>::Fail(e.failure()),
            },
        decreases
            old(self).max_nesting - old(self).nesting,
            0int,
            rem(old(self).input(), old(self).at()),
            0int,
    {
        if self.nesting >= self.max_nesting {
            return Err(self.nesting_error());
        }
        self.nesting = self.nesting + 1;
        match self.parse_expr_inner() {
            Ok(value) => {
                self.nesting = self.nesting - 1;
                Ok(value)
            },
            Err(error) => Err(error),
        }
    }

    /// Operators that bind at least as tight as a bound.
    pub fn parse_bin(&mut self, min_bp: u8) -> (r: Result<Expr, ParseError>)
        requires
            old(self).wf(),
        ensures
            match r {
                Ok(v) => kept(*old(self), *final(self), true) && p_bin(
                    old(self).input(),
                    old(self).at(),
                    old(self).nesting as nat,
                    old(self).no_struct,
                    min_bp as nat,
                ) == Out::Done(final(self).at(), v.tree()),
                Err(e) => p_bin(
                    old(self).input(),
                    old(self).at(),
                    old(self).nesting as nat,
                    old(self).no_struct,
                    min_bp as nat,
                ) == Out::<ExprTree>::Fail(e.failure()),
            },
        decreases
            old(self).max_nesting - old(self).nesting,
            0int,
            rem(old(self).input(), old(self).at()),
            0int,
    {
        if self.nesting >= self.max_nesting {
            return Err(self.nesting_error());
        }
        self.nesting = self.nesting + 1;
        match self.parse_bin_inner(min_bp) {
            Ok(value) => {
                self.nesting = self.nesting - 1;
                Ok(value)
            },
            Err(error) => Err(error),
        }
    }

    /// A prefix expression.
    pub fn parse_unary(&mut self) -> (r: Result<Expr, ParseError>)
        requires
            old(self).wf(),
        ensures
            match r {
                Ok(v) => kept(*old(self), *final(self), true) && p_unary(
                    old(self).input(),
                    old(self).at(),
                    old(self).nesting as nat,
                    old(self).no_struct,
                ) == Out::Done(final(self).at(), v.tree()),
                Err(e) => p_unary(
                    old(self).input(),
                    old(self).at(),
                    old(self).nesting as nat,
                    old(self).no_struct,
                ) == Out::<ExprTree>::Fail(e.failure()),
            },
        decreases
            old(self).max_nesting - old(self).nesting,
            0int,
            rem(old(self).input(), old(self).at()),
            0int,
    {
        if self.nesting >= self.max_nesting {
            return Err(self.nesting_error());
        }
        self.nesting = self.nesting + 1;
        match self.parse_unary_inner() {
            Ok(value) => {
                self.nesting = self.nesting - 1;
                Ok(value)
            },
            Err(error) => Err(error),
        }
    }

    /// A pattern.
    pub fn parse_pattern(&mut self) -> (r: Result<Pattern, ParseError>)
        requires
            old(self).wf(),
        ensures
            match r {
                Ok(v) => kept(*old(self), *final(self), true) && p_pattern(
                    old(self).input(),
                    old(self).at(),
                    old(self).nesting as nat,
                    old(self).no_struct,
                ) == Out::Done(final(self).at(), v.tree()),
                Err(e) => p_pattern(
                    old(self).input(),
                    old(self).at(),
                    old(self).nesting as nat,
                    old(self).no_struct,
                ) == Out::<PatternTree>::Fail(e.failure()),
            },
        decreases
            old(self).max_nesting - old(self).nesting,
            0int,
            rem(old(self).input(), old(self).at()),
            0int,
    {
        if self.nesting >= self.max_nesting {
            return Err(self.nesting_error());
        }
        self.nesting = self.nesting + 1;
        match self.parse_pattern_inner() {
            Ok(value) => {
                self.nesting = self.nesting - 1;
                Ok(value)
            },
            Err(error) => Err(error),
        }
    }

    /// A literal in a pattern.
    pub fn parse_pattern_literal(&mut self) -> (r: Result<Expr, ParseError>)
        requires
            old(self).wf(),
        ensures
            match r {
                Ok(v) => kept(*old(self), *final(self), true) && pattern_literal(
                    old(self).input(),
                    old(self).at(),
                    old(self).nesting as nat,
                    old(self).no_struct,
                ) == Out::Done(final(self).at(), v.tree()),
                Err(e) => pattern_literal(
                    old(self).input(),
                    old(self).at(),
                    old(self).nesting as nat,
                    old(self).no_struct,
                ) == Out::<ExprTree>::Fail(e.failure()),
            },
        decreases
            old(self).max_nesting - old(self).nesting,
            0int,
            rem(old(self).input(), old(self).at()),
            0int,
    {
        if self.nesting >= self.max_nesting {
            return Err(self.nesting_error());
        }
        self.nesting = self.nesting + 1;
        match self.parse_pattern_literal_inner() {
            Ok(value) => {
                self.nesting = self.nesting - 1;
                Ok(value)
            },
            Err(error) => Err(error),
        }
    }

    /// An optional expression up to a semicolon.
    pub fn parse_optional_value(&mut self) -> (r: Result<Option<Expr>, ParseError>)
        requires
            old(self).wf(),
        ensures
            match r {
                Ok(v) => kept(*old(self), *final(self), true) && optional_value(
                    old(self).input(),
                    old(self).at(),
                    old(self).nesting as nat,
                    old(self).no_struct,
                ) == Out::Done(final(self).at(), optional_expr_tree(v)),
                Err(e) => optional_value(
                    old(self).input(),
                    old(self).at(),
                    old(self).nesting as nat,
                    old(self).no_struct,
                ) == Out::<Option<ExprTree>>::Fail(e.failure()),
            },
        decreases
            old(self).max_nesting - old(self).nesting,
            1int,
            rem(old(self).input(), old(self).at()),
            0int,
    {
        let bare = self.accept(T::Semi)?;
        if bare {
            return Ok(no_expr());
        }
        let value = self.parse_expr()?;
        self.expect(T::Semi)?;
        Ok(some_expr(value))
    }

    /// A `break`.
    pub fn parse_break(&mut self) -> (r: Result<Stmt, ParseError>)
        requires
            old(self).wf(),
        ensures
            match r {
                Ok(v) => kept(*old(self), *final(self), true) && break_stmt(
                    old(self).input(),
                    old(self).at(),
                    old(self).nesting as nat,
                    old(self).no_struct,
                ) == Out::Done(final(self).at(), v.tree()),
                Err(e) => break_stmt(
                    old(self).input(),
                    old(self).at(),
                    old(self).nesting as nat,
                    old(self).no_struct,
                ) == Out::<StmtTree>::Fail(e.failure()),
            },
        decreases
            old(self).max_nesting - old(self).nesting,
            2int,
            rem(old(self).input(), old(self).at()),
            0int,
    {
        self.expect(T::KwBreak)?;
        let value = self.parse_optional_value()?;
        Ok(break_of(value))
    }

    /// A `let`.
    pub fn parse_let(&mut self) -> (r: Result<Stmt, ParseError>)
        requires
            old(self).wf(),
        ensures
            match r {
                Ok(v) => kept(*old(self), *final(self), true) && let_stmt(
                    old(self).input(),
                    old(self).at(),
                    old(self).nesting as nat,
                    old(self).no_struct,
                ) == Out::Done(final(self).at(), v.tree()),
                Err(e) => let_stmt(
                    old(self).input(),
                    old(self).at(),
                    old(self).nesting as nat,
                    old(self).no_struct,
                ) == Out::<StmtTree>::Fail(e.failure()),
            },
        decreases
            old(self).max_nesting - old(self).nesting,
            2int,
            rem(old(self).input(), old(self).at()),
            0int,
    {
        self.expect(T::KwLet)?;
        let mutable = self.accept(T::KwMut)?;
        let name_span = self.range();
        let name = self.expect_ident()?;
        let ty = self.parse_optional_type(T::Colon)?;
        self.expect(T::Eq)?;
        let init = self.parse_expr()?;
        self.expect(T::Semi)?;
        Ok(Stmt::Let {
            name, name_span, mutable, ty, init
        })
    }

    /// A `return`.
    pub fn parse_return(&mut self) -> (r: Result<Stmt, ParseError>)
        requires
            old(self).wf(),
        ensures
            match r {
                Ok(v) => kept(*old(self), *final(self), true) && return_stmt(
                    old(self).input(),
                    old(self).at(),
                    old(self).nesting as nat,
                    old(self).no_struct,
                ) == Out::Done(final(self).at(), v.tree()),
                Err(e) => return_stmt(
                    old(self).input(),
                    old(self).at(),
                    old(self).nesting as nat,
                    old(self).no_struct,
                ) == Out::<StmtTree>::Fail(e.failure()),
            },
        decreases
            old(self).max_nesting - old(self).nesting,
            2int,
            rem(old(self).input(), old(self).at()),
            0int,
    {
        self.expect(T::KwReturn)?;
        let value = self.parse_optional_value()?;
        Ok(return_of(value))
    }

    /// A `while` or a `while let`.
    pub fn parse_while(&mut self) -> (r: Result<Stmt, ParseError>)
        requires
            old(self).wf(),
        ensures
            match r {
                Ok(v) => kept(*old(self), *final(self), true) && while_stmt(
                    old(self).input(),
                    old(self).at(),
                    old(self).nesting as nat,
                    old(self).no_struct,
                ) == Out::Done(final(self).at(), v.tree()),
                Err(e) => while_stmt(
                    old(self).input(),
                    old(self).at(),
                    old(self).nesting as nat,
                    old(self).no_struct,
                ) == Out::<StmtTree>::Fail(e.failure()),
            },
        decreases
            old(self).max_nesting - old(self).nesting,
            2int,
            rem(old(self).input(), old(self).at()),
            0int,
    {
        self.expect(T::KwWhile)?;
        if self.cur() == T::KwLet {
            self.expect(T::KwLet)?;
            let pat = self.parse_pattern()?;
            self.expect(T::Eq)?;
            let expr = self.parse_cond()?;
            let body = self.parse_block()?;
            return Ok(Stmt::WhileLet {
                pat: Box::new(pat), expr, body
            });
        }
        let cond = self.parse_cond()?;
        let body = self.parse_block()?;
        Ok(Stmt::While {
            cond, body
        })
    }

    /// A `for`.
    pub fn parse_for(&mut self) -> (r: Result<Stmt, ParseError>)
        requires
            old(self).wf(),
        ensures
            match r {
                Ok(v) => kept(*old(self), *final(self), true) && for_stmt(
                    old(self).input(),
                    old(self).at(),
                    old(self).nesting as nat,
                    old(self).no_struct,
                ) == Out::Done(final(self).at(), v.tree()),
                Err(e) => for_stmt(
                    old(self).input(),
                    old(self).at(),
                    old(self).nesting as nat,
                    old(self).no_struct,
                ) == Out::<StmtTree>::Fail(e.failure()),
            },
        decreases
            old(self).max_nesting - old(self).nesting,
            2int,
            rem(old(self).input(), old(self).at()),
            0int,
    {
        self.expect(T::KwFor)?;
        let var_span = self.range();
        let var = self.expect_ident()?;
        self.expect(T::KwIn)?;
        let iter = self.parse_cond()?;
        let body = self.parse_block()?;
        Ok(Stmt::For {
            var, var_span, iter, body
        })
    }

    /// A statement that starts with a keyword of its own; none where the text holds
    /// an expression.
    pub fn parse_keyword_stmt(&mut self) -> (r: Result<Option<Stmt>, ParseError>)
        requires
            old(self).wf(),
        ensures
            match r {
                Ok(v) => kept(*old(self), *final(self), v is Some) && keyword_stmt(
                    old(self).input(),
                    old(self).at(),
                    old(self).nesting as nat,
                    old(self).no_struct,
                ) == Out::Done(final(self).at(), optional_stmt_tree(v)),
                Err(e) => keyword_stmt(
                    old(self).input(),
                    old(self).at(),
                    old(self).nesting as nat,
                    old(self).no_struct,
                ) == Out::<Option<StmtTree>>::Fail(e.failure()),
            },
        decreases
            old(self).max_nesting - old(self).nesting,
            3int,
            rem(old(self).input(), old(self).at()),
            0int,
    {
        match self.cur() {
            T::KwLet => {
                let one = self.parse_let()?;
                Ok(Some(one))
            },
            T::KwReturn => {
                let one = self.parse_return()?;
                Ok(Some(one))
            },
            T::KwWhile => {
                let one = self.parse_while()?;
                Ok(Some(one))
            },
            T::KwFor => {
                let one = self.parse_for()?;
                Ok(Some(one))
            },
            T::KwBreak => {
                let one = self.parse_break()?;
                Ok(Some(one))
            },
            T::KwContinue => {
                self.bump()?;
                self.expect(T::Semi)?;
                Ok(Some(Stmt::Continue))
            },
            _ => Ok(None),
        }
    }

    /// The statements of a block up to its closing brace.
    pub fn parse_block_stmts(&mut self) -> (r: Result<Block, ParseError>)
        requires
            old(self).wf(),
        ensures
            match r {
                Ok(v) => kept(*old(self), *final(self), false) && block_stmts(
                    old(self).input(),
                    old(self).at(),
                    old(self).nesting as nat,
                    old(self).no_struct,
                    empty_block_tree(),
                ) == Out::Done(final(self).at(), v.tree()),
                Err(e) => block_stmts(
                    old(self).input(),
                    old(self).at(),
                    old(self).nesting as nat,
                    old(self).no_struct,
                    empty_block_tree(),
                ) == Out::<BlockTree>::Fail(e.failure()),
            },
        decreases
            old(self).max_nesting - old(self).nesting,
            4int,
            rem(old(self).input(), old(self).at()),
            0int,
    {
        let mut out = empty_block();
        loop
            invariant
                kept(*old(self), *self, false),
                block_stmts(self.input(), self.at(), self.nesting as nat, self.no_struct, out.tree()) == block_stmts(
                    old(self).input(),
                    old(self).at(),
                    old(self).nesting as nat,
                    old(self).no_struct,
                    empty_block_tree(),
                ),
            decreases rem(self.input(), self.at()),
        {
            let ghost here = block_stmts(self.input(), self.at(), self.nesting as nat, self.no_struct, out.tree());
            if self.cur() == T::RBrace || self.cur() == T::Eof {
                return Ok(out);
            }
            let blank = self.blank_line_before_current();
            let keyword = self.parse_keyword_stmt()?;
            match keyword {
                Some(one) => {
                    push_stmt(&mut out, one, blank);
                },
                None => {
                    let e = self.parse_expr()?;
                    let closed = self.accept(T::Semi)?;
                    if closed || (self.cur() != T::RBrace && ends_statement(&e)) {
                        push_stmt(&mut out, Stmt::Expr(e), blank);
                    } else if self.cur() == T::RBrace {
                        set_tail(&mut out, e, blank);
                        return Ok(out);
                    } else {
                        return Err(self.err(cat3("expected `;` or `}`, found `", self.cur().user_string(), "`")));
                    }
                },
            }
            proof {
                assert(here == block_stmts(self.input(), self.at(), self.nesting as nat, self.no_struct, out.tree()));
            }
        }
    }

    /// A block, one level further in.
    pub fn parse_block_inner(&mut self) -> (r: Result<Block, ParseError>)
        requires
            old(self).wf(),
        ensures
            match r {
                Ok(v) => kept(*old(self), *final(self), true) && block_inner(
                    old(self).input(),
                    old(self).at(),
                    old(self).nesting as nat,
                    old(self).no_struct,
                ) == Out::Done(final(self).at(), v.tree()),
                Err(e) => block_inner(
                    old(self).input(),
                    old(self).at(),
                    old(self).nesting as nat,
                    old(self).no_struct,
                ) == Out::<BlockTree>::Fail(e.failure()),
            },
        decreases
            old(self).max_nesting - old(self).nesting,
            5int,
            rem(old(self).input(), old(self).at()),
            0int,
    {
        self.expect(T::LBrace)?;
        let saved = self.no_struct;
        self.no_struct = false;
        let block = self.parse_block_stmts()?;
        self.expect(T::RBrace)?;
        self.no_struct = saved;
        Ok(block)
    }
}

} // verus!
