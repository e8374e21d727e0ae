//! Reading expressions never goes back in the input.

use vstd::prelude::*;

use super::grammar::{
    At, Input, Out, accept, args, arm, arms, assign_op, bin_inner, bin_op, bin_rest, block_inner,
    block_stmts, branching, break_stmt, bump, call_args, closure, closure_head, closure_params,
    else_branch, empty_block_tree, enclosed, expect, expr_inner, field_values, for_stmt,
    function_type, group_type, ident, if_expr, is_binding_name, is_block_like, keyword_stmt,
    let_stmt, literal, literal_inner, literal_kind, macro_call, make, map_entries, map_literal,
    match_expr, member, more_patterns, named, optional_type, optional_value, p_bin, p_block,
    p_expr, p_pattern, p_type, p_unary, path_pattern, path_rest, path_type, pattern_elems,
    pattern_fields, pattern_id, pattern_inner, pattern_literal, postfix, primary, range_pattern,
    rem, return_stmt, segments, suffix, suffixes, turbofish, type_id, type_inner, types,
    unary_inner, unary_op, while_stmt, with_stmt,
};
use crate::ast::{BinOp, UnOp};
use crate::documentation::has_blank_line;
use crate::lexer::behind;
use crate::token::{RuaTokenKind as T, SourceRange};
use crate::tree::{
    BlockTree, ClosureBodyTree, ClosureParamTree, ExprKindTree, ExprTree, MatchArmTree,
    PatternTree, StmtTree, TypeTree,
};

verus! {

/// Stepping over a token moves on, unless the input is at its end.
pub proof fn forward_bump(i: Input, p: At)
    ensures
        bump(i, p) matches Out::Done(q, _) ==> p.cur <= q.cur && (i.kind(p.cur) != T::Eof ==> p.cur
            < q.cur),
{
    reveal(bump);
}

proof fn forward_expect(i: Input, p: At, kind: T)
    ensures
        expect(i, p, kind) matches Out::Done(q, _) ==> p.cur <= q.cur,
{
    reveal(expect);
    if i.kind(p.cur) == kind {
        forward_bump(i, p);
    }
}

proof fn forward_accept(i: Input, p: At, kind: T)
    ensures
        accept(i, p, kind) matches Out::Done(q, _) ==> p.cur <= q.cur,
{
    reveal(accept);
    if i.kind(p.cur) == kind {
        forward_bump(i, p);
    }
}

proof fn forward_ident(i: Input, p: At)
    ensures
        ident(i, p) matches Out::Done(q, _) ==> p.cur <= q.cur,
{
    reveal(ident);
    if i.kind(p.cur) == T::Ident || i.kind(p.cur) == T::KwSelf {
        let name = i.text(p.cur);
        forward_bump(i, p);
    }
}

proof fn forward_make(i: Input, p: At, kind: ExprKindTree, start: SourceRange)
    ensures
        make(i, p, kind, start) matches Out::Done(q, _) ==> p.cur <= q.cur,
{
    reveal(make);
}

proof fn forward_pattern_id(i: Input, p: At)
    ensures
        pattern_id(i, p) matches Out::Done(q, _) ==> p.cur <= q.cur,
{
    reveal(pattern_id);
}

proof fn forward_type_id(i: Input, p: At)
    ensures
        type_id(i, p) matches Out::Done(q, _) ==> p.cur <= q.cur,
{
    reveal(type_id);
}

proof fn forward_path_rest(i: Input, p: At, text: Seq<char>)
    ensures
        path_rest(i, p, text) matches Out::Done(q, _) ==> p.cur <= q.cur,
    decreases rem(i, p),
{
    reveal_with_fuel(path_rest, 1);
    if i.kind(p.cur) == T::ColonColon {
        let q = p;
        forward_bump(i, p);
        if let Out::Done(p, _) = bump(i, p) {
            forward_ident(i, p);
            if let Out::Done(p, name) = ident(i, p) {
                if rem(i, p) < rem(i, q) {
                    forward_path_rest(i, p, text + "::"@ + name);
                }
            }
        }
    }
}

proof fn forward_segments(i: Input, p: At, done: Seq<Seq<char>>)
    ensures
        segments(i, p, done) matches Out::Done(q, _) ==> p.cur <= q.cur,
    decreases rem(i, p),
{
    reveal_with_fuel(segments, 1);
    if i.kind(p.cur) == T::ColonColon {
        let q = p;
        forward_bump(i, p);
        if let Out::Done(p, _) = bump(i, p) {
            forward_ident(i, p);
            if let Out::Done(p, name) = ident(i, p) {
                if rem(i, p) < rem(i, q) {
                    forward_segments(i, p, done.push(name));
                }
            }
        }
    }
}

proof fn forward_p_type(i: Input, p: At, d: nat)
    ensures
        p_type(i, p, d) matches Out::Done(q, _) ==> p.cur <= q.cur,
    decreases i.max_nesting - d, 0int, rem(i, p), 0int,
{
    if !(d >= i.max_nesting) {
        forward_type_inner(i, p, d + 1);
    }
}

proof fn forward_types(i: Input, p: At, d: nat, close: T, done: Seq<TypeTree>)
    ensures
        types(i, p, d, close, done) matches Out::Done(q, _) ==> p.cur <= q.cur,
    decreases i.max_nesting - d, 2int, rem(i, p), 0int,
{
    if !(i.kind(p.cur) == close) {
        let q = p;
        forward_p_type(i, p, d);
        if let Out::Done(p, ty) = p_type(i, p, d) {
            forward_accept(i, p, T::Comma);
            if let Out::Done(p, more) = accept(i, p, T::Comma) {
                if more && rem(i, p) < rem(i, q) {
                    forward_types(i, p, d, close, done.push(ty));
                }
            }
        }
    }
}

proof fn forward_function_type(i: Input, p: At, d: nat)
    ensures
        function_type(i, p, d) matches Out::Done(q, _) ==> p.cur <= q.cur,
    decreases i.max_nesting - d, 4int, rem(i, p), 0int,
{
    forward_expect(i, p, T::LParen);
    if let Out::Done(p, _) = expect(i, p, T::LParen) {
        forward_types(i, p, d, T::RParen, Seq::empty());
        if let Out::Done(p, params) = types(i, p, d, T::RParen, Seq::empty()) {
            forward_expect(i, p, T::RParen);
            if let Out::Done(p, _) = expect(i, p, T::RParen) {
                forward_accept(i, p, T::Arrow);
                if let Out::Done(p, some) = accept(i, p, T::Arrow) {
                    if some {
                        forward_p_type(i, p, d);
                    }
                }
            }
        }
    }
}

proof fn forward_group_type(i: Input, p: At, d: nat)
    ensures
        group_type(i, p, d) matches Out::Done(q, _) ==> p.cur <= q.cur,
    decreases i.max_nesting - d, 4int, rem(i, p), 0int,
{
    forward_accept(i, p, T::RParen);
    if let Out::Done(p, unit) = accept(i, p, T::RParen) {
        if !(unit) {
            forward_p_type(i, p, d);
            if let Out::Done(p, first) = p_type(i, p, d) {
                forward_accept(i, p, T::Comma);
                if let Out::Done(p, more) = accept(i, p, T::Comma) {
                    if more {
                        forward_types(i, p, d, T::RParen, seq![first]);
                        if let Out::Done(p, list) = types(i, p, d, T::RParen, seq![first]) {
                            forward_expect(i, p, T::RParen);
                        }
                    } else {
                        forward_expect(i, p, T::RParen);
                    }
                }
            }
        }
    }
}

proof fn forward_path_type(i: Input, p: At, d: nat)
    ensures
        path_type(i, p, d) matches Out::Done(q, _) ==> p.cur <= q.cur,
    decreases i.max_nesting - d, 4int, rem(i, p), 0int,
{
    forward_ident(i, p);
    if let Out::Done(p, first) = ident(i, p) {
        forward_path_rest(i, p, first);
        if let Out::Done(p, name) = path_rest(i, p, first) {
            forward_accept(i, p, T::Lt);
            if let Out::Done(p, angled) = accept(i, p, T::Lt) {
                if angled {
                    forward_types(i, p, d, T::Gt, Seq::empty());
                    if let Out::Done(p, args) = types(i, p, d, T::Gt, Seq::empty()) {
                        forward_expect(i, p, T::Gt);
                        if let Out::Done(p, _) = expect(i, p, T::Gt) {
                            forward_type_id(i, p);
                        }
                    }
                } else {
                    forward_type_id(i, p);
                }
            }
        }
    }
}

proof fn forward_type_inner(i: Input, p: At, d: nat)
    ensures
        type_inner(i, p, d) matches Out::Done(q, _) ==> p.cur <= q.cur,
    decreases i.max_nesting - d, 9int, rem(i, p), 0int,
{
    if i.kind(p.cur) == T::KwFn {
        forward_bump(i, p);
        if let Out::Done(p, _) = bump(i, p) {
            forward_function_type(i, p, d);
        }
    } else {
        if i.kind(p.cur) == T::Amp {
            forward_bump(i, p);
            if let Out::Done(p, _) = bump(i, p) {
                forward_accept(i, p, T::KwMut);
                if let Out::Done(p, mutable) = accept(i, p, T::KwMut) {
                    forward_accept(i, p, T::KwDyn);
                    if let Out::Done(p, _) = accept(i, p, T::KwDyn) {
                        forward_p_type(i, p, d);
                    }
                }
            }
        } else {
            if i.kind(p.cur) == T::LParen {
                forward_bump(i, p);
                if let Out::Done(p, _) = bump(i, p) {
                    forward_group_type(i, p, d);
                }
            } else {
                forward_path_type(i, p, d);
            }
        }
    }
}

proof fn forward_optional_type(i: Input, p: At, d: nat, mark: T)
    ensures
        optional_type(i, p, d, mark) matches Out::Done(q, _) ==> p.cur <= q.cur,
    decreases i.max_nesting - d, 2int, rem(i, p), 0int,
{
    forward_accept(i, p, mark);
    if let Out::Done(p, some) = accept(i, p, mark) {
        if some {
            forward_p_type(i, p, d);
        }
    }
}

proof fn forward_p_block(i: Input, p: At, d: nat, ns: bool)
    ensures
        p_block(i, p, d, ns) matches Out::Done(q, _) ==> p.cur <= q.cur,
    decreases i.max_nesting - d, 0int, rem(i, p), 0int,
{
    if !(d >= i.max_nesting) {
        forward_block_inner(i, p, d + 1, ns);
    }
}

proof fn forward_p_expr(i: Input, p: At, d: nat, ns: bool)
    ensures
        p_expr(i, p, d, ns) matches Out::Done(q, _) ==> p.cur <= q.cur,
    decreases i.max_nesting - d, 0int, rem(i, p), 0int,
{
    if !(d >= i.max_nesting) {
        forward_expr_inner(i, p, d + 1, ns);
    }
}

pub proof fn forward_p_bin(i: Input, p: At, d: nat, ns: bool, min: nat)
    ensures
        p_bin(i, p, d, ns, min) matches Out::Done(q, _) ==> p.cur <= q.cur,
    decreases i.max_nesting - d, 0int, rem(i, p), 0int,
{
    if !(d >= i.max_nesting) {
        forward_bin_inner(i, p, d + 1, ns, min);
    }
}

pub proof fn forward_p_unary(i: Input, p: At, d: nat, ns: bool)
    ensures
        p_unary(i, p, d, ns) matches Out::Done(q, _) ==> p.cur <= q.cur,
    decreases i.max_nesting - d, 0int, rem(i, p), 0int,
{
    if !(d >= i.max_nesting) {
        forward_unary_inner(i, p, d + 1, ns);
    }
}

proof fn forward_p_pattern(i: Input, p: At, d: nat, ns: bool)
    ensures
        p_pattern(i, p, d, ns) matches Out::Done(q, _) ==> p.cur <= q.cur,
    decreases i.max_nesting - d, 0int, rem(i, p), 0int,
{
    if !(d >= i.max_nesting) {
        forward_pattern_inner(i, p, d + 1, ns);
    }
}

proof fn forward_pattern_literal(i: Input, p: At, d: nat, ns: bool)
    ensures
        pattern_literal(i, p, d, ns) matches Out::Done(q, _) ==> p.cur <= q.cur,
    decreases i.max_nesting - d, 0int, rem(i, p), 0int,
{
    if !(d >= i.max_nesting) {
        forward_literal_inner(i, p, d + 1, ns);
    }
}

proof fn forward_optional_value(i: Input, p: At, d: nat, ns: bool)
    ensures
        optional_value(i, p, d, ns) matches Out::Done(q, _) ==> p.cur <= q.cur,
    decreases i.max_nesting - d, 1int, rem(i, p), 0int,
{
    forward_accept(i, p, T::Semi);
    if let Out::Done(p, bare) = accept(i, p, T::Semi) {
        if !(bare) {
            forward_p_expr(i, p, d, ns);
            if let Out::Done(p, value) = p_expr(i, p, d, ns) {
                forward_expect(i, p, T::Semi);
            }
        }
    }
}

proof fn forward_break_stmt(i: Input, p: At, d: nat, ns: bool)
    ensures
        break_stmt(i, p, d, ns) matches Out::Done(q, _) ==> p.cur <= q.cur,
    decreases i.max_nesting - d, 2int, rem(i, p), 0int,
{
    forward_expect(i, p, T::KwBreak);
    if let Out::Done(p, _) = expect(i, p, T::KwBreak) {
        forward_optional_value(i, p, d, ns);
    }
}

proof fn forward_let_stmt(i: Input, p: At, d: nat, ns: bool)
    ensures
        let_stmt(i, p, d, ns) matches Out::Done(q, _) ==> p.cur <= q.cur,
    decreases i.max_nesting - d, 2int, rem(i, p), 0int,
{
    forward_expect(i, p, T::KwLet);
    if let Out::Done(p, _) = expect(i, p, T::KwLet) {
        forward_accept(i, p, T::KwMut);
        if let Out::Done(p, mutable) = accept(i, p, T::KwMut) {
            let name_span = i.range(p.cur);
            forward_ident(i, p);
            if let Out::Done(p, name) = ident(i, p) {
                forward_optional_type(i, p, d, T::Colon);
                if let Out::Done(p, ty) = optional_type(i, p, d, T::Colon) {
                    forward_expect(i, p, T::Eq);
                    if let Out::Done(p, _) = expect(i, p, T::Eq) {
                        forward_p_expr(i, p, d, ns);
                        if let Out::Done(p, init) = p_expr(i, p, d, ns) {
                            forward_expect(i, p, T::Semi);
                        }
                    }
                }
            }
        }
    }
}

proof fn forward_return_stmt(i: Input, p: At, d: nat, ns: bool)
    ensures
        return_stmt(i, p, d, ns) matches Out::Done(q, _) ==> p.cur <= q.cur,
    decreases i.max_nesting - d, 2int, rem(i, p), 0int,
{
    forward_expect(i, p, T::KwReturn);
    if let Out::Done(p, _) = expect(i, p, T::KwReturn) {
        forward_optional_value(i, p, d, ns);
    }
}

proof fn forward_while_stmt(i: Input, p: At, d: nat, ns: bool)
    ensures
        while_stmt(i, p, d, ns) matches Out::Done(q, _) ==> p.cur <= q.cur,
    decreases i.max_nesting - d, 2int, rem(i, p), 0int,
{
    forward_expect(i, p, T::KwWhile);
    if let Out::Done(p, _) = expect(i, p, T::KwWhile) {
        if i.kind(p.cur) == T::KwLet {
            forward_expect(i, p, T::KwLet);
            if let Out::Done(p, _) = expect(i, p, T::KwLet) {
                forward_p_pattern(i, p, d, ns);
                if let Out::Done(p, pat) = p_pattern(i, p, d, ns) {
                    forward_expect(i, p, T::Eq);
                    if let Out::Done(p, _) = expect(i, p, T::Eq) {
                        forward_p_expr(i, p, d, true);
                        if let Out::Done(p, expr) = p_expr(i, p, d, true) {
                            forward_p_block(i, p, d, ns);
                        }
                    }
                }
            }
        } else {
            forward_p_expr(i, p, d, true);
            if let Out::Done(p, cond) = p_expr(i, p, d, true) {
                forward_p_block(i, p, d, ns);
            }
        }
    }
}

proof fn forward_for_stmt(i: Input, p: At, d: nat, ns: bool)
    ensures
        for_stmt(i, p, d, ns) matches Out::Done(q, _) ==> p.cur <= q.cur,
    decreases i.max_nesting - d, 2int, rem(i, p), 0int,
{
    forward_expect(i, p, T::KwFor);
    if let Out::Done(p, _) = expect(i, p, T::KwFor) {
        let var_span = i.range(p.cur);
        forward_ident(i, p);
        if let Out::Done(p, var) = ident(i, p) {
            forward_expect(i, p, T::KwIn);
            if let Out::Done(p, _) = expect(i, p, T::KwIn) {
                forward_p_expr(i, p, d, true);
                if let Out::Done(p, iter) = p_expr(i, p, d, true) {
                    forward_p_block(i, p, d, ns);
                }
            }
        }
    }
}

proof fn forward_keyword_stmt(i: Input, p: At, d: nat, ns: bool)
    ensures
        keyword_stmt(i, p, d, ns) matches Out::Done(q, _) ==> p.cur <= q.cur,
    decreases i.max_nesting - d, 3int, rem(i, p), 0int,
{
    match i.kind(p.cur) {
        T::KwLet => {
            forward_let_stmt(i, p, d, ns);
        },
        T::KwReturn => {
            forward_return_stmt(i, p, d, ns);
        },
        T::KwWhile => {
            forward_while_stmt(i, p, d, ns);
        },
        T::KwFor => {
            forward_for_stmt(i, p, d, ns);
        },
        T::KwBreak => {
            forward_break_stmt(i, p, d, ns);
        },
        T::KwContinue => {
            forward_bump(i, p);
            if let Out::Done(p, _) = bump(i, p) {
                forward_expect(i, p, T::Semi);
            }
        },
        _ => {},
    }
}

proof fn forward_block_stmts(i: Input, p: At, d: nat, ns: bool, done: BlockTree)
    ensures
        block_stmts(i, p, d, ns, done) matches Out::Done(q, _) ==> p.cur <= q.cur,
    decreases i.max_nesting - d, 4int, rem(i, p), 0int,
{
    if !(i.kind(p.cur) == T::RBrace || i.kind(p.cur) == T::Eof) {
        let q = p;
        let blank = has_blank_line(i.trivia(p.cur), 0);
        forward_keyword_stmt(i, p, d, ns);
        if let Out::Done(p, keyword) = keyword_stmt(i, p, d, ns) {
            match keyword {
                Some(s) => {
                    if rem(i, p) < rem(i, q) {
                        forward_block_stmts(i, p, d, ns, with_stmt(done, s, blank));
                    }
                },
                None => {
                    forward_p_expr(i, p, d, ns);
                    if let Out::Done(p, e) = p_expr(i, p, d, ns) {
                        forward_accept(i, p, T::Semi);
                        if let Out::Done(p, closed) = accept(i, p, T::Semi) {
                            if closed || (i.kind(p.cur) != T::RBrace && is_block_like(e)) {
                                if rem(i, p) < rem(i, q) {
                                    forward_block_stmts(
                                        i,
                                        p,
                                        d,
                                        ns,
                                        with_stmt(done, StmtTree::Expr(e), blank),
                                    );
                                }
                            }
                        }
                    }
                },
            }
        }
    }
}

proof fn forward_block_inner(i: Input, p: At, d: nat, ns: bool)
    ensures
        block_inner(i, p, d, ns) matches Out::Done(q, _) ==> p.cur <= q.cur,
    decreases i.max_nesting - d, 5int, rem(i, p), 0int,
{
    forward_expect(i, p, T::LBrace);
    if let Out::Done(p, _) = expect(i, p, T::LBrace) {
        forward_block_stmts(i, p, d, false, empty_block_tree());
        if let Out::Done(p, block) = block_stmts(i, p, d, false, empty_block_tree()) {
            forward_expect(i, p, T::RBrace);
        }
    }
}

proof fn forward_expr_inner(i: Input, p: At, d: nat, ns: bool)
    ensures
        expr_inner(i, p, d, ns) matches Out::Done(q, _) ==> p.cur <= q.cur,
    decreases i.max_nesting - d, 9int, rem(i, p), 0int,
{
    let start = i.range(p.cur);
    forward_p_bin(i, p, d, ns, 0);
    if let Out::Done(p, lhs) = p_bin(i, p, d, ns, 0) {
        match assign_op(i.kind(p.cur)) {
            Some(op) => {
                forward_bump(i, p);
                if let Out::Done(p, _) = bump(i, p) {
                    forward_p_expr(i, p, d, ns);
                    if let Out::Done(p, value) = p_expr(i, p, d, ns) {
                        forward_make(
                            i,
                            p,
                            ExprKindTree::Assign {
                                op,
                                target: Box::new(lhs),
                                value: Box::new(value),
                            },
                            start,
                        );
                    }
                }
            },
            None => {},
        }
    }
}

proof fn forward_bin_rest(
    i: Input,
    p: At,
    d: nat,
    ns: bool,
    min: nat,
    start: SourceRange,
    lhs: ExprTree,
)
    ensures
        bin_rest(i, p, d, ns, min, start, lhs) matches Out::Done(q, _) ==> p.cur <= q.cur,
    decreases i.max_nesting - d, 2int, rem(i, p), 0int,
{
    if i.kind(p.cur) == T::DotDot || i.kind(p.cur) == T::DotDotEq {
        if !(4 < min) {
            let q = p;
            let inclusive = i.kind(p.cur) == T::DotDotEq;
            forward_bump(i, p);
            if let Out::Done(p, _) = bump(i, p) {
                forward_p_bin(i, p, d, ns, 5);
                if let Out::Done(p, rhs) = p_bin(i, p, d, ns, 5) {
                    forward_make(
                        i,
                        p,
                        ExprKindTree::Range { start: Box::new(lhs), end: Box::new(rhs), inclusive },
                        start,
                    );
                    if let Out::Done(p, e) = make(
                        i,
                        p,
                        ExprKindTree::Range { start: Box::new(lhs), end: Box::new(rhs), inclusive },
                        start,
                    ) {
                        if rem(i, p) < rem(i, q) {
                            forward_bin_rest(i, p, d, ns, min, start, e);
                        }
                    }
                }
            }
        }
    } else {
        match bin_op(i.kind(p.cur)) {
            Some((op, tight)) => {
                if !(tight < min) {
                    let q = p;
                    forward_bump(i, p);
                    if let Out::Done(p, _) = bump(i, p) {
                        forward_p_bin(i, p, d, ns, tight + 1);
                        if let Out::Done(p, rhs) = p_bin(i, p, d, ns, tight + 1) {
                            forward_make(
                                i,
                                p,
                                ExprKindTree::Binary { op, lhs: Box::new(lhs), rhs: Box::new(rhs) },
                                start,
                            );
                            if let Out::Done(p, e) = make(
                                i,
                                p,
                                ExprKindTree::Binary { op, lhs: Box::new(lhs), rhs: Box::new(rhs) },
                                start,
                            ) {
                                if rem(i, p) < rem(i, q) {
                                    forward_bin_rest(i, p, d, ns, min, start, e);
                                }
                            }
                        }
                    }
                }
            },
            None => {},
        }
    }
}

proof fn forward_bin_inner(i: Input, p: At, d: nat, ns: bool, min: nat)
    ensures
        bin_inner(i, p, d, ns, min) matches Out::Done(q, _) ==> p.cur <= q.cur,
    decreases i.max_nesting - d, 9int, rem(i, p), 0int,
{
    let start = i.range(p.cur);
    forward_p_unary(i, p, d, ns);
    if let Out::Done(p, lhs) = p_unary(i, p, d, ns) {
        forward_bin_rest(i, p, d, ns, min, start, lhs);
    }
}

proof fn forward_unary_inner(i: Input, p: At, d: nat, ns: bool)
    ensures
        unary_inner(i, p, d, ns) matches Out::Done(q, _) ==> p.cur <= q.cur,
    decreases i.max_nesting - d, 9int, rem(i, p), 0int,
{
    let start = i.range(p.cur);
    match unary_op(i.kind(p.cur)) {
        Some(op) => {
            forward_bump(i, p);
            if let Out::Done(p, _) = bump(i, p) {
                forward_p_unary(i, p, d, ns);
                if let Out::Done(p, e) = p_unary(i, p, d, ns) {
                    forward_make(i, p, ExprKindTree::Unary { op, expr: Box::new(e) }, start);
                }
            }
        },
        None => {
            forward_postfix(i, p, d, ns);
        },
    }
}

proof fn forward_args(i: Input, p: At, d: nat, ns: bool, close: T, done: Seq<ExprTree>)
    ensures
        args(i, p, d, ns, close, done) matches Out::Done(q, _) ==> p.cur <= q.cur,
    decreases i.max_nesting - d, 2int, rem(i, p), 0int,
{
    if !(i.kind(p.cur) == close) {
        let q = p;
        forward_p_expr(i, p, d, false);
        if let Out::Done(p, e) = p_expr(i, p, d, false) {
            forward_accept(i, p, T::Comma);
            if let Out::Done(p, more) = accept(i, p, T::Comma) {
                if more && rem(i, p) < rem(i, q) {
                    forward_args(i, p, d, ns, close, done.push(e));
                }
            }
        }
    }
}

proof fn forward_call_args(i: Input, p: At, d: nat, ns: bool)
    ensures
        call_args(i, p, d, ns) matches Out::Done(q, _) ==> p.cur <= q.cur,
    decreases i.max_nesting - d, 3int, rem(i, p), 0int,
{
    forward_expect(i, p, T::LParen);
    if let Out::Done(p, _) = expect(i, p, T::LParen) {
        forward_args(i, p, d, ns, T::RParen, Seq::empty());
        if let Out::Done(p, list) = args(i, p, d, ns, T::RParen, Seq::empty()) {
            forward_expect(i, p, T::RParen);
        }
    }
}

proof fn forward_turbofish(i: Input, p: At, d: nat, ns: bool)
    ensures
        turbofish(i, p, d, ns) matches Out::Done(q, _) ==> p.cur <= q.cur,
    decreases i.max_nesting - d, 3int, rem(i, p), 0int,
{
    forward_accept(i, p, T::ColonColon);
    if let Out::Done(p, some) = accept(i, p, T::ColonColon) {
        if some {
            forward_expect(i, p, T::Lt);
            if let Out::Done(p, _) = expect(i, p, T::Lt) {
                forward_types(i, p, d, T::Gt, Seq::empty());
                if let Out::Done(p, list) = types(i, p, d, T::Gt, Seq::empty()) {
                    forward_expect(i, p, T::Gt);
                }
            }
        }
    }
}

proof fn forward_member(i: Input, p: At, d: nat, ns: bool, start: SourceRange, base: ExprTree)
    ensures
        member(i, p, d, ns, start, base) matches Out::Done(q, _) ==> p.cur <= q.cur,
    decreases i.max_nesting - d, 4int, rem(i, p), 0int,
{
    let optional = i.kind(p.cur) == T::QuestionDot;
    forward_bump(i, p);
    if let Out::Done(p, _) = bump(i, p) {
        let member_span = i.range(p.cur);
        forward_ident(i, p);
        if let Out::Done(p, name) = ident(i, p) {
            forward_turbofish(i, p, d, ns);
            if let Out::Done(p, type_args) = turbofish(i, p, d, ns) {
                if i.kind(p.cur) == T::LParen {
                    forward_call_args(i, p, d, ns);
                    if let Out::Done(p, args) = call_args(i, p, d, ns) {
                        forward_make(
                            i,
                            p,
                            ExprKindTree::MethodCall {
                                recv: Box::new(base),
                                method: name,
                                optional,
                                type_args,
                                args,
                                method_span: member_span,
                            },
                            start,
                        );
                    }
                } else {
                    if !(type_args.len() > 0) {
                        forward_make(
                            i,
                            p,
                            ExprKindTree::Field {
                                base: Box::new(base),
                                name,
                                optional,
                                name_span: member_span,
                            },
                            start,
                        );
                    }
                }
            }
        }
    }
}

proof fn forward_suffix(i: Input, p: At, d: nat, ns: bool, start: SourceRange, base: ExprTree)
    ensures
        suffix(i, p, d, ns, start, base) matches Out::Done(q, _) ==> p.cur <= q.cur,
    decreases i.max_nesting - d, 5int, rem(i, p), 0int,
{
    match i.kind(p.cur) {
        T::LParen => {
            forward_call_args(i, p, d, ns);
            if let Out::Done(p, args) = call_args(i, p, d, ns) {
                forward_make(i, p, ExprKindTree::Call { callee: Box::new(base), args }, start);
            }
        },
        T::Dot | T::QuestionDot => {
            forward_member(i, p, d, ns, start, base);
        },
        T::Question => {
            forward_bump(i, p);
            if let Out::Done(p, _) = bump(i, p) {
                forward_make(i, p, ExprKindTree::Try { expr: Box::new(base) }, start);
            }
        },
        T::LBracket => {
            forward_bump(i, p);
            if let Out::Done(p, _) = bump(i, p) {
                forward_p_expr(i, p, d, false);
                if let Out::Done(p, index) = p_expr(i, p, d, false) {
                    forward_expect(i, p, T::RBracket);
                    if let Out::Done(p, _) = expect(i, p, T::RBracket) {
                        forward_make(
                            i,
                            p,
                            ExprKindTree::Index { base: Box::new(base), index: Box::new(index) },
                            start,
                        );
                    }
                }
            }
        },
        _ => {},
    }
}

proof fn forward_suffixes(i: Input, p: At, d: nat, ns: bool, start: SourceRange, base: ExprTree)
    ensures
        suffixes(i, p, d, ns, start, base) matches Out::Done(q, _) ==> p.cur <= q.cur,
    decreases i.max_nesting - d, 6int, rem(i, p), 0int,
{
    let q = p;
    forward_suffix(i, p, d, ns, start, base);
    if let Out::Done(p, longer) = suffix(i, p, d, ns, start, base) {
        if longer.0 && rem(i, p) < rem(i, q) {
            forward_suffixes(i, p, d, ns, start, longer.1);
        }
    }
}

proof fn forward_postfix(i: Input, p: At, d: nat, ns: bool)
    ensures
        postfix(i, p, d, ns) matches Out::Done(q, _) ==> p.cur <= q.cur,
    decreases i.max_nesting - d, 8int, rem(i, p), 0int,
{
    let start = i.range(p.cur);
    forward_primary(i, p, d, ns);
    if let Out::Done(p, e) = primary(i, p, d, ns) {
        forward_suffixes(i, p, d, ns, start, e);
    }
}

proof fn forward_literal(i: Input, p: At, d: nat, ns: bool, start: SourceRange)
    ensures
        literal(i, p, d, ns, start) matches Out::Done(q, _) ==> p.cur <= q.cur,
    decreases i.max_nesting - d, 1int, rem(i, p), 0int,
{
    let text = i.text(p.cur);
    let kind = i.kind(p.cur);
    forward_bump(i, p);
    if let Out::Done(p, _) = bump(i, p) {
        forward_make(i, p, literal_kind(kind, text), start);
    }
}

proof fn forward_named(i: Input, p: At, d: nat, ns: bool, start: SourceRange)
    ensures
        named(i, p, d, ns, start) matches Out::Done(q, _) ==> p.cur <= q.cur,
    decreases i.max_nesting - d, 6int, rem(i, p), 0int,
{
    if i.kind(p.cur) == T::Ident && i.kind(behind(i.stream.tokens@.len() as int, p.cur)) == T::Not {
        forward_macro_call(i, p, d, ns);
    } else {
        forward_ident(i, p);
        if let Out::Done(p, first) = ident(i, p) {
            forward_segments(i, p, seq![first]);
            if let Out::Done(p, path) = segments(i, p, seq![first]) {
                if !ns && i.kind(p.cur) == T::LBrace {
                    forward_expect(i, p, T::LBrace);
                    if let Out::Done(p, _) = expect(i, p, T::LBrace) {
                        forward_field_values(i, p, d, ns, Seq::empty());
                        if let Out::Done(p, fields) = field_values(i, p, d, ns, Seq::empty()) {
                            forward_expect(i, p, T::RBrace);
                            if let Out::Done(p, _) = expect(i, p, T::RBrace) {
                                forward_make(i, p, ExprKindTree::StructLit { path, fields }, start);
                            }
                        }
                    }
                } else {
                    forward_make(i, p, ExprKindTree::Path(path), start);
                }
            }
        }
    }
}

proof fn forward_enclosed(i: Input, p: At, d: nat, ns: bool, start: SourceRange)
    ensures
        enclosed(i, p, d, ns, start) matches Out::Done(q, _) ==> p.cur <= q.cur,
    decreases i.max_nesting - d, 4int, rem(i, p), 0int,
{
    if i.kind(p.cur) == T::KwLoop {
        forward_bump(i, p);
        if let Out::Done(p, _) = bump(i, p) {
            forward_p_block(i, p, d, ns);
            if let Out::Done(p, body) = p_block(i, p, d, ns) {
                forward_make(i, p, ExprKindTree::Loop(body), start);
            }
        }
    } else {
        if i.kind(p.cur) == T::LParen {
            forward_bump(i, p);
            if let Out::Done(p, _) = bump(i, p) {
                forward_p_expr(i, p, d, false);
                if let Out::Done(p, e) = p_expr(i, p, d, false) {
                    forward_expect(i, p, T::RParen);
                }
            }
        } else {
            forward_p_block(i, p, d, ns);
            if let Out::Done(p, block) = p_block(i, p, d, ns) {
                forward_make(i, p, ExprKindTree::Block(block), start);
            }
        }
    }
}

proof fn forward_branching(i: Input, p: At, d: nat, ns: bool, start: SourceRange)
    ensures
        branching(i, p, d, ns, start) matches Out::Done(q, _) ==> p.cur <= q.cur,
    decreases i.max_nesting - d, 6int, rem(i, p), 0int,
{
    match i.kind(p.cur) {
        T::Hash => {
            forward_map_literal(i, p, d, ns, start);
        },
        T::KwLoop | T::LParen | T::LBrace => {
            forward_enclosed(i, p, d, ns, start);
        },
        T::KwIf => {
            forward_if_expr(i, p, d, ns);
        },
        T::KwMatch => {
            forward_match_expr(i, p, d, ns);
        },
        other => {},
    }
}

proof fn forward_primary(i: Input, p: At, d: nat, ns: bool)
    ensures
        primary(i, p, d, ns) matches Out::Done(q, _) ==> p.cur <= q.cur,
    decreases i.max_nesting - d, 7int, rem(i, p), 0int,
{
    let start = i.range(p.cur);
    match i.kind(p.cur) {
        T::Pipe | T::OrOr => {
            forward_closure(i, p, d, ns);
        },
        T::Int | T::Float | T::Str | T::KwTrue | T::KwFalse => {
            forward_literal(i, p, d, ns, start);
        },
        T::Ident | T::KwSelf => {
            forward_named(i, p, d, ns, start);
        },
        _ => {
            forward_branching(i, p, d, ns, start);
        },
    }
}

proof fn forward_closure_params(i: Input, p: At, d: nat, ns: bool, done: Seq<ClosureParamTree>)
    ensures
        closure_params(i, p, d, ns, done) matches Out::Done(q, _) ==> p.cur <= q.cur,
    decreases i.max_nesting - d, 4int, rem(i, p), 0int,
{
    if !(i.kind(p.cur) == T::Pipe || i.kind(p.cur) == T::Eof) {
        let q = p;
        let name_span = i.range(p.cur);
        forward_ident(i, p);
        if let Out::Done(p, name) = ident(i, p) {
            forward_optional_type(i, p, d, T::Colon);
            if let Out::Done(p, ty) = optional_type(i, p, d, T::Colon) {
                let done = done.push(ClosureParamTree { name, name_span, ty });
                forward_accept(i, p, T::Comma);
                if let Out::Done(p, more) = accept(i, p, T::Comma) {
                    if more && rem(i, p) < rem(i, q) {
                        forward_closure_params(i, p, d, ns, done);
                    }
                }
            }
        }
    }
}

proof fn forward_closure_head(i: Input, p: At, d: nat, ns: bool)
    ensures
        closure_head(i, p, d, ns) matches Out::Done(q, _) ==> p.cur <= q.cur,
    decreases i.max_nesting - d, 5int, rem(i, p), 0int,
{
    if i.kind(p.cur) == T::OrOr {
        forward_bump(i, p);
    } else {
        forward_expect(i, p, T::Pipe);
        if let Out::Done(p, _) = expect(i, p, T::Pipe) {
            forward_closure_params(i, p, d, ns, Seq::empty());
            if let Out::Done(p, params) = closure_params(i, p, d, ns, Seq::empty()) {
                forward_expect(i, p, T::Pipe);
            }
        }
    }
}

proof fn forward_closure(i: Input, p: At, d: nat, ns: bool)
    ensures
        closure(i, p, d, ns) matches Out::Done(q, _) ==> p.cur <= q.cur,
    decreases i.max_nesting - d, 6int, rem(i, p), 0int,
{
    let start = i.range(p.cur);
    forward_closure_head(i, p, d, ns);
    if let Out::Done(p, params) = closure_head(i, p, d, ns) {
        forward_optional_type(i, p, d, T::Arrow);
        if let Out::Done(p, ret) = optional_type(i, p, d, T::Arrow) {
            if i.kind(p.cur) == T::LBrace {
                forward_p_block(i, p, d, ns);
                if let Out::Done(p, block) = p_block(i, p, d, ns) {
                    forward_make(
                        i,
                        p,
                        ExprKindTree::Closure { params, ret, body: ClosureBodyTree::Block(block) },
                        start,
                    );
                }
            } else {
                forward_p_expr(i, p, d, false);
                if let Out::Done(p, e) = p_expr(i, p, d, false) {
                    forward_make(
                        i,
                        p,
                        ExprKindTree::Closure {
                            params,
                            ret,
                            body: ClosureBodyTree::Expr(Box::new(e)),
                        },
                        start,
                    );
                }
            }
        }
    }
}

proof fn forward_map_entries(i: Input, p: At, d: nat, ns: bool, done: Seq<(ExprTree, ExprTree)>)
    ensures
        map_entries(i, p, d, ns, done) matches Out::Done(q, _) ==> p.cur <= q.cur,
    decreases i.max_nesting - d, 2int, rem(i, p), 0int,
{
    if !(i.kind(p.cur) == T::RBrace) {
        let q = p;
        forward_p_expr(i, p, d, false);
        if let Out::Done(p, key) = p_expr(i, p, d, false) {
            forward_expect(i, p, T::Colon);
            if let Out::Done(p, _) = expect(i, p, T::Colon) {
                forward_p_expr(i, p, d, false);
                if let Out::Done(p, value) = p_expr(i, p, d, false) {
                    let done = done.push((key, value));
                    forward_accept(i, p, T::Comma);
                    if let Out::Done(p, more) = accept(i, p, T::Comma) {
                        if more && rem(i, p) < rem(i, q) {
                            forward_map_entries(i, p, d, ns, done);
                        }
                    }
                }
            }
        }
    }
}

proof fn forward_map_literal(i: Input, p: At, d: nat, ns: bool, start: SourceRange)
    ensures
        map_literal(i, p, d, ns, start) matches Out::Done(q, _) ==> p.cur <= q.cur,
    decreases i.max_nesting - d, 3int, rem(i, p), 0int,
{
    forward_expect(i, p, T::Hash);
    if let Out::Done(p, _) = expect(i, p, T::Hash) {
        forward_expect(i, p, T::LBrace);
        if let Out::Done(p, _) = expect(i, p, T::LBrace) {
            forward_map_entries(i, p, d, ns, Seq::empty());
            if let Out::Done(p, entries) = map_entries(i, p, d, ns, Seq::empty()) {
                forward_expect(i, p, T::RBrace);
                if let Out::Done(p, _) = expect(i, p, T::RBrace) {
                    forward_make(i, p, ExprKindTree::MapLit(entries), start);
                }
            }
        }
    }
}

proof fn forward_macro_call(i: Input, p: At, d: nat, ns: bool)
    ensures
        macro_call(i, p, d, ns) matches Out::Done(q, _) ==> p.cur <= q.cur,
    decreases i.max_nesting - d, 3int, rem(i, p), 0int,
{
    let start = i.range(p.cur);
    forward_ident(i, p);
    if let Out::Done(p, name) = ident(i, p) {
        forward_expect(i, p, T::Not);
        if let Out::Done(p, _) = expect(i, p, T::Not) {
            if !(i.kind(p.cur) != T::LParen && i.kind(p.cur) != T::LBracket) {
                let close = if i.kind(p.cur) == T::LParen { T::RParen } else { T::RBracket };
                forward_bump(i, p);
                if let Out::Done(p, _) = bump(i, p) {
                    forward_args(i, p, d, ns, close, Seq::empty());
                    if let Out::Done(p, list) = args(i, p, d, ns, close, Seq::empty()) {
                        forward_expect(i, p, close);
                        if let Out::Done(p, _) = expect(i, p, close) {
                            forward_make(
                                i,
                                p,
                                if name == "vec"@ {
                                    ExprKindTree::VecLit(list)
                                } else {
                                    ExprKindTree::MacroCall { name, args: list }
                                },
                                start,
                            );
                        }
                    }
                }
            }
        }
    }
}

proof fn forward_field_values(i: Input, p: At, d: nat, ns: bool, done: Seq<(Seq<char>, ExprTree)>)
    ensures
        field_values(i, p, d, ns, done) matches Out::Done(q, _) ==> p.cur <= q.cur,
    decreases i.max_nesting - d, 2int, rem(i, p), 0int,
{
    if !(i.kind(p.cur) == T::RBrace) {
        let q = p;
        let start = i.range(p.cur);
        forward_ident(i, p);
        if let Out::Done(p, name) = ident(i, p) {
            forward_accept(i, p, T::Colon);
            if let Out::Done(p, given) = accept(i, p, T::Colon) {
                if given {
                    forward_p_expr(i, p, d, false);
                } else {
                    forward_make(i, p, ExprKindTree::Path(seq![name]), start);
                }
                if let Out::Done(p, value) = (
                    if given {
                        p_expr(i, p, d, false)
                    } else {
                        make(i, p, ExprKindTree::Path(seq![name]), start)
                    }
                ) {
                    let done = done.push((name, value));
                    forward_accept(i, p, T::Comma);
                    if let Out::Done(p, more) = accept(i, p, T::Comma) {
                        if more && rem(i, p) < rem(i, q) {
                            forward_field_values(i, p, d, ns, done);
                        }
                    }
                }
            }
        }
    }
}

proof fn forward_if_expr(i: Input, p: At, d: nat, ns: bool)
    ensures
        if_expr(i, p, d, ns) matches Out::Done(q, _) ==> p.cur <= q.cur,
    decreases i.max_nesting - d, 5int, rem(i, p), 2int,
{
    let q = p;
    let start = i.range(p.cur);
    forward_expect(i, p, T::KwIf);
    if let Out::Done(p, _) = expect(i, p, T::KwIf) {
        if i.kind(p.cur) == T::KwLet {
            forward_expect(i, p, T::KwLet);
            if let Out::Done(p, _) = expect(i, p, T::KwLet) {
                forward_p_pattern(i, p, d, ns);
                if let Out::Done(p, pat) = p_pattern(i, p, d, ns) {
                    forward_expect(i, p, T::Eq);
                    if let Out::Done(p, _) = expect(i, p, T::Eq) {
                        forward_p_expr(i, p, d, true);
                        if let Out::Done(p, expr) = p_expr(i, p, d, true) {
                            forward_p_block(i, p, d, ns);
                            if let Out::Done(p, then_block) = p_block(i, p, d, ns) {
                                if rem(i, p) < rem(i, q) {
                                    forward_else_branch(i, p, d, ns);
                                }
                                if let Out::Done(p, else_block) = (
                                    if rem(i, p) < rem(i, q) {
                                        else_branch(i, p, d, ns)
                                    } else {
                                        Out::Done(p, None)
                                    }
                                ) {
                                    forward_make(
                                        i,
                                        p,
                                        ExprKindTree::IfLet {
                                            pat: Box::new(pat),
                                            expr: Box::new(expr),
                                            then_block,
                                            else_block,
                                        },
                                        start,
                                    );
                                }
                            }
                        }
                    }
                }
            }
        } else {
            forward_p_expr(i, p, d, true);
            if let Out::Done(p, cond) = p_expr(i, p, d, true) {
                forward_p_block(i, p, d, ns);
                if let Out::Done(p, then_block) = p_block(i, p, d, ns) {
                    if rem(i, p) < rem(i, q) {
                        forward_else_branch(i, p, d, ns);
                    }
                    if let Out::Done(p, else_block) = (
                        if rem(i, p) < rem(i, q) {
                            else_branch(i, p, d, ns)
                        } else {
                            Out::Done(p, None)
                        }
                    ) {
                        forward_make(
                            i,
                            p,
                            ExprKindTree::If { cond: Box::new(cond), then_block, else_block },
                            start,
                        );
                    }
                }
            }
        }
    }
}

proof fn forward_else_branch(i: Input, p: At, d: nat, ns: bool)
    ensures
        else_branch(i, p, d, ns) matches Out::Done(q, _) ==> p.cur <= q.cur,
    decreases i.max_nesting - d, 5int, rem(i, p), 1int,
{
    if i.kind(p.cur) == T::KwElse {
        let q = p;
        forward_bump(i, p);
        if let Out::Done(p, _) = bump(i, p) {
            if i.kind(p.cur) == T::KwIf && rem(i, p) < rem(i, q) {
                forward_if_expr(i, p, d, ns);
            } else {
                forward_p_block(i, p, d, ns);
            }
        }
    }
}

proof fn forward_more_patterns(i: Input, p: At, d: nat, ns: bool, done: Seq<PatternTree>)
    ensures
        more_patterns(i, p, d, ns, done) matches Out::Done(q, _) ==> p.cur <= q.cur,
    decreases i.max_nesting - d, 2int, rem(i, p), 0int,
{
    if i.kind(p.cur) == T::Pipe {
        let q = p;
        forward_bump(i, p);
        if let Out::Done(p, _) = bump(i, p) {
            forward_p_pattern(i, p, d, ns);
            if let Out::Done(p, pat) = p_pattern(i, p, d, ns) {
                if rem(i, p) < rem(i, q) {
                    forward_more_patterns(i, p, d, ns, done.push(pat));
                }
            }
        }
    }
}

proof fn forward_arm(i: Input, p: At, d: nat, ns: bool)
    ensures
        arm(i, p, d, ns) matches Out::Done(q, _) ==> p.cur <= q.cur,
    decreases i.max_nesting - d, 3int, rem(i, p), 0int,
{
    forward_p_pattern(i, p, d, ns);
    if let Out::Done(p, first) = p_pattern(i, p, d, ns) {
        forward_more_patterns(i, p, d, ns, seq![first]);
        if let Out::Done(p, pats) = more_patterns(i, p, d, ns, seq![first]) {
            forward_accept(i, p, T::KwIf);
            if let Out::Done(p, guarded) = accept(i, p, T::KwIf) {
                if guarded {
                    forward_p_expr(i, p, d, true);
                    if let Out::Done(p, guard) = p_expr(i, p, d, true) {
                        forward_expect(i, p, T::FatArrow);
                        if let Out::Done(p, _) = expect(i, p, T::FatArrow) {
                            forward_p_expr(i, p, d, false);
                            if let Out::Done(p, body) = p_expr(i, p, d, false) {
                                forward_accept(i, p, T::Comma);
                            }
                        }
                    }
                } else {
                    forward_expect(i, p, T::FatArrow);
                    if let Out::Done(p, _) = expect(i, p, T::FatArrow) {
                        forward_p_expr(i, p, d, false);
                        if let Out::Done(p, body) = p_expr(i, p, d, false) {
                            forward_accept(i, p, T::Comma);
                        }
                    }
                }
            }
        }
    }
}

proof fn forward_arms(i: Input, p: At, d: nat, ns: bool, done: Seq<MatchArmTree>)
    ensures
        arms(i, p, d, ns, done) matches Out::Done(q, _) ==> p.cur <= q.cur,
    decreases i.max_nesting - d, 4int, rem(i, p), 0int,
{
    if !(i.kind(p.cur) == T::RBrace || i.kind(p.cur) == T::Eof) {
        let q = p;
        forward_arm(i, p, d, ns);
        if let Out::Done(p, one) = arm(i, p, d, ns) {
            if rem(i, p) < rem(i, q) {
                forward_arms(i, p, d, ns, done.push(one));
            }
        }
    }
}

proof fn forward_match_expr(i: Input, p: At, d: nat, ns: bool)
    ensures
        match_expr(i, p, d, ns) matches Out::Done(q, _) ==> p.cur <= q.cur,
    decreases i.max_nesting - d, 5int, rem(i, p), 0int,
{
    let start = i.range(p.cur);
    forward_expect(i, p, T::KwMatch);
    if let Out::Done(p, _) = expect(i, p, T::KwMatch) {
        forward_p_expr(i, p, d, true);
        if let Out::Done(p, scrut) = p_expr(i, p, d, true) {
            forward_expect(i, p, T::LBrace);
            if let Out::Done(p, _) = expect(i, p, T::LBrace) {
                forward_arms(i, p, d, ns, Seq::empty());
                if let Out::Done(p, list) = arms(i, p, d, ns, Seq::empty()) {
                    forward_expect(i, p, T::RBrace);
                    if let Out::Done(p, _) = expect(i, p, T::RBrace) {
                        forward_make(
                            i,
                            p,
                            ExprKindTree::Match { scrut: Box::new(scrut), arms: list },
                            start,
                        );
                    }
                }
            }
        }
    }
}

proof fn forward_pattern_elems(i: Input, p: At, d: nat, ns: bool, done: Seq<PatternTree>)
    ensures
        pattern_elems(i, p, d, ns, done) matches Out::Done(q, _) ==> p.cur <= q.cur,
    decreases i.max_nesting - d, 2int, rem(i, p), 0int,
{
    if !(i.kind(p.cur) == T::RParen) {
        let q = p;
        forward_p_pattern(i, p, d, ns);
        if let Out::Done(p, pat) = p_pattern(i, p, d, ns) {
            forward_accept(i, p, T::Comma);
            if let Out::Done(p, more) = accept(i, p, T::Comma) {
                if more && rem(i, p) < rem(i, q) {
                    forward_pattern_elems(i, p, d, ns, done.push(pat));
                }
            }
        }
    }
}

proof fn forward_pattern_fields(
    i: Input,
    p: At,
    d: nat,
    ns: bool,
    done: Seq<(Seq<char>, PatternTree)>,
)
    ensures
        pattern_fields(i, p, d, ns, done) matches Out::Done(q, _) ==> p.cur <= q.cur,
    decreases i.max_nesting - d, 2int, rem(i, p), 0int,
{
    if !(i.kind(p.cur) == T::RBrace) {
        if i.kind(p.cur) == T::DotDot {
            forward_bump(i, p);
        } else {
            let q = p;
            let span = i.range(p.cur);
            forward_ident(i, p);
            if let Out::Done(p, name) = ident(i, p) {
                forward_accept(i, p, T::Colon);
                if let Out::Done(p, given) = accept(i, p, T::Colon) {
                    if given {
                        forward_p_pattern(i, p, d, ns);
                    }
                    if let Out::Done(p, pat) = (
                        if given {
                            p_pattern(i, p, d, ns)
                        } else {
                            Out::Done(p, PatternTree::Binding(name, span))
                        }
                    ) {
                        let done = done.push((name, pat));
                        forward_accept(i, p, T::Comma);
                        if let Out::Done(p, more) = accept(i, p, T::Comma) {
                            if more && rem(i, p) < rem(i, q) {
                                forward_pattern_fields(i, p, d, ns, done);
                            }
                        }
                    }
                }
            }
        }
    }
}

proof fn forward_range_pattern(i: Input, p: At, d: nat, ns: bool)
    ensures
        range_pattern(i, p, d, ns) matches Out::Done(q, _) ==> p.cur <= q.cur,
    decreases i.max_nesting - d, 4int, rem(i, p), 0int,
{
    forward_pattern_literal(i, p, d, ns);
    if let Out::Done(p, lo) = pattern_literal(i, p, d, ns) {
        if i.kind(p.cur) == T::DotDotEq || i.kind(p.cur) == T::DotDot {
            let inclusive = i.kind(p.cur) == T::DotDotEq;
            forward_bump(i, p);
            if let Out::Done(p, _) = bump(i, p) {
                forward_pattern_literal(i, p, d, ns);
            }
        }
    }
}

proof fn forward_path_pattern(i: Input, p: At, d: nat, ns: bool)
    ensures
        path_pattern(i, p, d, ns) matches Out::Done(q, _) ==> p.cur <= q.cur,
    decreases i.max_nesting - d, 4int, rem(i, p), 0int,
{
    let span = i.range(p.cur);
    forward_ident(i, p);
    if let Out::Done(p, first) = ident(i, p) {
        forward_segments(i, p, seq![first]);
        if let Out::Done(p, path) = segments(i, p, seq![first]) {
            if i.kind(p.cur) == T::LParen {
                forward_bump(i, p);
                if let Out::Done(p, _) = bump(i, p) {
                    forward_pattern_elems(i, p, d, ns, Seq::empty());
                    if let Out::Done(p, elems) = pattern_elems(i, p, d, ns, Seq::empty()) {
                        forward_expect(i, p, T::RParen);
                        if let Out::Done(p, _) = expect(i, p, T::RParen) {
                            forward_pattern_id(i, p);
                        }
                    }
                }
            } else {
                if i.kind(p.cur) == T::LBrace {
                    forward_bump(i, p);
                    if let Out::Done(p, _) = bump(i, p) {
                        forward_pattern_fields(i, p, d, ns, Seq::empty());
                        if let Out::Done(p, fields) = pattern_fields(i, p, d, ns, Seq::empty()) {
                            forward_expect(i, p, T::RBrace);
                            if let Out::Done(p, _) = expect(i, p, T::RBrace) {
                                forward_pattern_id(i, p);
                            }
                        }
                    }
                } else {
                    if !(path.len() == 1 && is_binding_name(first)) {
                        forward_pattern_id(i, p);
                    }
                }
            }
        }
    }
}

proof fn forward_pattern_inner(i: Input, p: At, d: nat, ns: bool)
    ensures
        pattern_inner(i, p, d, ns) matches Out::Done(q, _) ==> p.cur <= q.cur,
    decreases i.max_nesting - d, 9int, rem(i, p), 0int,
{
    match i.kind(p.cur) {
        T::Int | T::Float | T::Str | T::KwTrue | T::KwFalse | T::Minus => {
            forward_range_pattern(i, p, d, ns);
        },
        T::Ident | T::KwSelf => {
            if i.text(p.cur) == "_"@ {
                forward_bump(i, p);
            } else {
                forward_path_pattern(i, p, d, ns);
            }
        },
        other => {},
    }
}

proof fn forward_literal_inner(i: Input, p: At, d: nat, ns: bool)
    ensures
        literal_inner(i, p, d, ns) matches Out::Done(q, _) ==> p.cur <= q.cur,
    decreases i.max_nesting - d, 9int, rem(i, p), 0int,
{
    let start = i.range(p.cur);
    match i.kind(p.cur) {
        T::Minus => {
            forward_bump(i, p);
            if let Out::Done(p, _) = bump(i, p) {
                forward_pattern_literal(i, p, d, ns);
                if let Out::Done(p, inner) = pattern_literal(i, p, d, ns) {
                    forward_make(
                        i,
                        p,
                        ExprKindTree::Unary { op: UnOp::Neg, expr: Box::new(inner) },
                        start,
                    );
                }
            }
        },
        T::Int | T::Float | T::Str | T::KwTrue | T::KwFalse => {
            forward_literal(i, p, d, ns, start);
        },
        other => {},
    }
}

} // verus!
