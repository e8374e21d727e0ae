//! How infix operators group: by how tight they bind, and to the left.

use vstd::prelude::*;

use super::forward::{forward_bump, forward_p_bin, forward_p_unary};
use super::grammar::{
    bin_rest, branching, bump, closure, enclosed, if_expr, literal, macro_call, make, map_literal,
    match_expr, named, p_bin, p_unary, postfix, primary, rem, suffix, suffixes, At, Input, Out,
};
use crate::ast::BinOp;
use crate::token::{RuaTokenKind as T, SourceRange};
use crate::tree::{ExprKindTree, ExprTree};

verus! {

/// The operation that an infix token stands for.
pub open spec fn operation(sign: T) -> Option<BinOp> {
    match sign {
        T::Plus => Some(BinOp::Add),
        T::Minus => Some(BinOp::Sub),
        T::Star => Some(BinOp::Mul),
        T::Slash => Some(BinOp::Div),
        T::Percent => Some(BinOp::Rem),
        T::EqEq => Some(BinOp::Eq),
        T::Ne => Some(BinOp::Ne),
        T::Lt => Some(BinOp::Lt),
        T::Le => Some(BinOp::Le),
        T::Gt => Some(BinOp::Gt),
        T::Ge => Some(BinOp::Ge),
        T::AndAnd => Some(BinOp::And),
        T::OrOr => Some(BinOp::Or),
        T::QuestionQuestion => Some(BinOp::Coalesce),
        T::KwIn => Some(BinOp::Contains),
        _ => None,
    }
}

/// How tight an operation binds: products bind tighter than sums, then ranges,
/// comparisons, `&&`, `||` and, loosest of all, `??`.
pub open spec fn level(op: BinOp) -> nat {
    match op {
        BinOp::Mul | BinOp::Div | BinOp::Rem => 6,
        BinOp::Add | BinOp::Sub => 5,
        BinOp::Eq | BinOp::Ne | BinOp::Lt | BinOp::Le | BinOp::Gt | BinOp::Ge
        | BinOp::Contains => 3,
        BinOp::And => 2,
        BinOp::Or => 1,
        BinOp::Coalesce => 0,
    }
}

/// How tight a token binds that stands between two operands.
pub open spec fn rank(sign: T) -> Option<nat> {
    if sign == T::DotDot || sign == T::DotDotEq {
        Some(4)
    } else {
        match operation(sign) {
            Some(op) => Some(level(op)),
            None => None,
        }
    }
}

/// What two operands and the token between them make.
pub open spec fn joined(sign: T, left: ExprTree, right: ExprTree) -> ExprKindTree {
    if sign == T::DotDot || sign == T::DotDotEq {
        ExprKindTree::Range {
            start: Box::new(left),
            end: Box::new(right),
            inclusive: sign == T::DotDotEq,
        }
    } else {
        ExprKindTree::Binary {
            op: operation(sign)->0,
            lhs: Box::new(left),
            rhs: Box::new(right),
        }
    }
}

/// How tight an expression with two operands binds.
pub open spec fn infix_level(kind: ExprKindTree) -> Option<nat> {
    match kind {
        ExprKindTree::Binary { op, .. } => Some(level(op)),
        ExprKindTree::Range { .. } => Some(4),
        _ => None,
    }
}

/// The left operand of such an expression.
pub open spec fn left_operand(kind: ExprKindTree) -> ExprTree {
    match kind {
        ExprKindTree::Binary { lhs, .. } => *lhs,
        ExprKindTree::Range { start, .. } => *start,
        _ => arbitrary(),
    }
}

/// The right operand of such an expression.
pub open spec fn right_operand(kind: ExprKindTree) -> ExprTree {
    match kind {
        ExprKindTree::Binary { rhs, .. } => *rhs,
        ExprKindTree::Range { end, .. } => *end,
        _ => arbitrary(),
    }
}

/// How a stretch of the input was read: as one operand, which is a prefix
/// expression, a primary one or one in brackets, or as two readings with an infix
/// token between them.
pub enum Reading {
    Operand { from: At, depth: nat, to: At, tree: ExprTree },
    Joined { left: Box<Reading>, right: Box<Reading>, to: At, tree: ExprTree },
}

impl Reading {
    /// Where the reading starts.
    pub open spec fn from(self) -> At
        decreases self,
    {
        match self {
            Reading::Operand { from, .. } => from,
            Reading::Joined { left, .. } => left.from(),
        }
    }

    /// The place behind the reading.
    pub open spec fn to(self) -> At {
        match self {
            Reading::Operand { to, .. } => to,
            Reading::Joined { to, .. } => to,
        }
    }

    /// The expression that was read.
    pub open spec fn tree(self) -> ExprTree {
        match self {
            Reading::Operand { tree, .. } => tree,
            Reading::Joined { tree, .. } => tree,
        }
    }

    /// How tight the token between the two parts binds; nothing for an operand.
    pub open spec fn rank(self, i: Input) -> Option<nat> {
        match self {
            Reading::Operand { .. } => None,
            Reading::Joined { left, .. } => rank(i.kind(left.to().cur)),
        }
    }

    /// Whether the operands and the tokens between them are those of the input, in
    /// its order, and each expression is made of the two that stand beside its token.
    pub open spec fn is_of(self, i: Input, ns: bool) -> bool
        decreases self,
    {
        match self {
            Reading::Operand { from, depth, to, tree } => p_unary(i, from, depth, ns) == Out::Done(
                to,
                tree,
            ),
            Reading::Joined { left, right, to, tree } => {
                &&& left.is_of(i, ns)
                &&& right.is_of(i, ns)
                &&& rank(i.kind(left.to().cur)) is Some
                &&& bump(i, left.to()) matches Out::Done(next, _) && next == right.from()
                &&& make(
                    i,
                    right.to(),
                    joined(i.kind(left.to().cur), left.tree(), right.tree()),
                    i.range(left.from().cur),
                ) == Out::Done(to, tree)
            },
        }
    }

    /// Whether tighter tokens group first and equal ones from the left: the left part
    /// is never looser than its token, the right part always tighter.
    pub open spec fn is_grouped(self, i: Input) -> bool
        decreases self,
    {
        match self {
            Reading::Operand { .. } => true,
            Reading::Joined { left, right, .. } => {
                &&& left.is_grouped(i)
                &&& right.is_grouped(i)
                &&& left.rank(i) is Some ==> left.rank(i)->0 >= self.rank(i)->0
                &&& right.rank(i) is Some ==> right.rank(i)->0 > self.rank(i)->0
            },
        }
    }
}

proof fn lemma_made(i: Input, p: At, kind: ExprKindTree, start: SourceRange)
    ensures
        make(i, p, kind, start) matches Out::Done(q, tree) ==> tree.kind == kind && q.cur == p.cur,
{
    reveal(make);
}

/// Reads on behind a first reading, as long as tokens bind tight enough.
#[verifier::spinoff_prover]
proof fn read_rest(i: Input, p: At, d: nat, ns: bool, min: nat, left: Reading) -> (r: Reading)
    requires
        left.is_of(i, ns),
        left.is_grouped(i),
        left.to() == p,
        left.rank(i) is Some ==> left.rank(i)->0 >= min && (rank(i.kind(p.cur)) is Some ==> rank(
            i.kind(p.cur),
        )->0 <= left.rank(i)->0),
        bin_rest(i, p, d, ns, min, i.range(left.from().cur), left.tree()) is Done,
    ensures
        r.is_of(i, ns),
        r.is_grouped(i),
        r.from() == left.from(),
        bin_rest(i, p, d, ns, min, i.range(left.from().cur), left.tree()) == Out::Done(
            r.to(),
            r.tree(),
        ),
        r.rank(i) is Some ==> r.rank(i)->0 >= min,
        rank(i.kind(r.to().cur)) is Some ==> rank(i.kind(r.to().cur))->0 < min,
    decreases i.max_nesting - d, 2int, rem(i, p), 0int,
{
    let sign = i.kind(p.cur);
    let start = i.range(left.from().cur);
    match rank(sign) {
        Some(tight) => {
            if tight < min {
                left
            } else {
                let next = bump(i, p)->Done_0;
                forward_bump(i, p);
                forward_p_bin(i, next, d, ns, tight + 1);
                let right = read_bin(i, next, d, ns, tight + 1);
                let kind = joined(sign, left.tree(), right.tree());
                let made = make(i, right.to(), kind, start);
                lemma_made(i, right.to(), kind, start);
                let to = made->Done_0;
                let tree = made->Done_1;
                let both = Reading::Joined { left: Box::new(left), right: Box::new(right), to, tree };
                assert(rem(i, to) < rem(i, p));
                read_rest(i, to, d, ns, min, both)
            }
        },
        None => left,
    }
}

/// Reads an operand and what follows it.
#[verifier::spinoff_prover]
proof fn read_bin(i: Input, p: At, d: nat, ns: bool, min: nat) -> (r: Reading)
    requires
        p_bin(i, p, d, ns, min) is Done,
    ensures
        r.is_of(i, ns),
        r.is_grouped(i),
        r.from() == p,
        p_bin(i, p, d, ns, min) == Out::Done(r.to(), r.tree()),
        r.rank(i) is Some ==> r.rank(i)->0 >= min,
        rank(i.kind(r.to().cur)) is Some ==> rank(i.kind(r.to().cur))->0 < min,
    decreases i.max_nesting - d, 0int, rem(i, p), 0int,
{
    let first = p_unary(i, p, d + 1, ns);
    let operand = Reading::Operand {
        from: p,
        depth: d + 1,
        to: first->Done_0,
        tree: first->Done_1,
    };
    read_rest(i, first->Done_0, d + 1, ns, min, operand)
}

/// Whether an expression has two operands, or is an assignment.
pub open spec fn is_infix(kind: ExprKindTree) -> bool {
    kind is Binary || kind is Range || kind is Assign
}

proof fn kind_of_closure(i: Input, p: At, d: nat, ns: bool)
    ensures
        closure(i, p, d, ns) matches Out::Done(_, e) ==> !is_infix(e.kind),
{
    reveal(make);
}

proof fn kind_of_macro_call(i: Input, p: At, d: nat, ns: bool)
    ensures
        macro_call(i, p, d, ns) matches Out::Done(_, e) ==> !is_infix(e.kind),
{
    reveal(make);
}

proof fn kind_of_map_literal(i: Input, p: At, d: nat, ns: bool, start: SourceRange)
    ensures
        map_literal(i, p, d, ns, start) matches Out::Done(_, e) ==> !is_infix(e.kind),
{
    reveal(make);
}

proof fn kind_of_if_expr(i: Input, p: At, d: nat, ns: bool)
    ensures
        if_expr(i, p, d, ns) matches Out::Done(_, e) ==> !is_infix(e.kind),
{
    reveal(make);
}

proof fn kind_of_match_expr(i: Input, p: At, d: nat, ns: bool)
    ensures
        match_expr(i, p, d, ns) matches Out::Done(_, e) ==> !is_infix(e.kind),
{
    reveal(make);
}

proof fn kind_of_named(i: Input, p: At, d: nat, ns: bool, start: SourceRange)
    ensures
        named(i, p, d, ns, start) matches Out::Done(_, e) ==> !is_infix(e.kind),
{
    reveal(make);
    kind_of_macro_call(i, p, d, ns);
}

proof fn kind_of_enclosed(i: Input, p: At, d: nat, ns: bool, start: SourceRange)
    requires
        i.kind(p.cur) != T::LParen,
    ensures
        enclosed(i, p, d, ns, start) matches Out::Done(_, e) ==> !is_infix(e.kind),
{
    reveal(make);
}

proof fn kind_of_literal(i: Input, p: At, d: nat, ns: bool, start: SourceRange)
    ensures
        literal(i, p, d, ns, start) matches Out::Done(_, e) ==> !is_infix(e.kind),
{
    reveal(make);
}

proof fn kind_of_branching(i: Input, p: At, d: nat, ns: bool, start: SourceRange)
    requires
        i.kind(p.cur) != T::LParen,
    ensures
        branching(i, p, d, ns, start) matches Out::Done(_, e) ==> !is_infix(e.kind),
{
    match i.kind(p.cur) {
        T::Hash => {
            kind_of_map_literal(i, p, d, ns, start);
            assert(branching(i, p, d, ns, start) == map_literal(i, p, d, ns, start));
        },
        T::KwLoop | T::LBrace => {
            kind_of_enclosed(i, p, d, ns, start);
            assert(branching(i, p, d, ns, start) == enclosed(i, p, d, ns, start));
        },
        T::KwIf => {
            kind_of_if_expr(i, p, d, ns);
            assert(branching(i, p, d, ns, start) == if_expr(i, p, d, ns));
        },
        T::KwMatch => {
            kind_of_match_expr(i, p, d, ns);
            assert(branching(i, p, d, ns, start) == match_expr(i, p, d, ns));
        },
        _ => {},
    }
}

#[verifier::spinoff_prover]
proof fn kind_of_primary(i: Input, p: At, d: nat, ns: bool)
    requires
        i.kind(p.cur) != T::LParen,
    ensures
        primary(i, p, d, ns) matches Out::Done(_, e) ==> !is_infix(e.kind),
{
    let start = i.range(p.cur);
    match i.kind(p.cur) {
        T::Pipe | T::OrOr => {
            kind_of_closure(i, p, d, ns);
            assert(primary(i, p, d, ns) == closure(i, p, d, ns));
        },
        T::Int | T::Float | T::Str | T::KwTrue | T::KwFalse => {
            kind_of_literal(i, p, d, ns, start);
            assert(primary(i, p, d, ns) == literal(i, p, d, ns, start));
        },
        T::Ident | T::KwSelf => {
            kind_of_named(i, p, d, ns, start);
            assert(primary(i, p, d, ns) == named(i, p, d, ns, start));
        },
        _ => {
            kind_of_branching(i, p, d, ns, start);
            assert(primary(i, p, d, ns) == branching(i, p, d, ns, start));
        },
    }
}

proof fn kind_of_suffix(i: Input, p: At, d: nat, ns: bool, start: SourceRange, base: ExprTree)
    ensures
        suffix(i, p, d, ns, start, base) matches Out::Done(_, longer) ==> !is_infix(longer.1.kind)
            || longer.1 == base,
{
    reveal(make);
}

proof fn kind_of_suffixes(i: Input, p: At, d: nat, ns: bool, start: SourceRange, base: ExprTree)
    ensures
        suffixes(i, p, d, ns, start, base) matches Out::Done(_, e) ==> !is_infix(e.kind) || e
            == base,
    decreases rem(i, p),
{
    kind_of_suffix(i, p, d, ns, start, base);
    if let Out::Done(q, longer) = suffix(i, p, d, ns, start, base) {
        if longer.0 && rem(i, q) < rem(i, p) {
            kind_of_suffixes(i, q, d, ns, start, longer.1);
        }
    }
}

/// An operand that has two operands itself stands in brackets.
pub proof fn law_infix_operands_stand_in_brackets(i: Input, p: At, d: nat, ns: bool)
    ensures
        p_unary(i, p, d, ns) matches Out::Done(_, e) ==> (is_infix(e.kind) ==> i.kind(p.cur)
            == T::LParen),
{
    if i.kind(p.cur) != T::LParen {
        let start = i.range(p.cur);
        reveal(make);
        kind_of_primary(i, p, d + 1, ns);
        if let Out::Done(q, e) = primary(i, p, d + 1, ns) {
            kind_of_suffixes(i, q, d + 1, ns, start, e);
        }
        assert(postfix(i, p, d + 1, ns) matches Out::Done(_, e) ==> !is_infix(e.kind));
    }
}

/// Whether the right operand of an expression is in brackets: it was read from a
/// place behind the token between the operands, where a bracket opens.
pub open spec fn right_in_brackets(i: Input, p: At, ns: bool, tree: ExprTree) -> bool {
    exists|from: At, depth: nat|
        i.kind(from.cur) == T::LParen && p.cur < from.cur && (#[trigger] p_unary(
            i,
            from,
            depth,
            ns,
        ) matches Out::Done(_, operand) && operand == right_operand(tree.kind))
}

/// In every expression with two operands that was not itself put in brackets, the
/// right operand is in brackets or binds tighter, and the left operand starts
/// with a bracket or binds at least as tight: `a - b - c` is `(a - b) - c`, and
/// `a + b * c` is `a + (b * c)`.
pub proof fn law_operands_group_from_the_left(i: Input, p: At, d: nat, ns: bool, min: nat)
    ensures
        p_bin(i, p, d, ns, min) matches Out::Done(_, tree) ==> (infix_level(tree.kind) is Some
            && i.kind(p.cur) != T::LParen ==> {
            let own = infix_level(tree.kind)->0;
            let left = infix_level(left_operand(tree.kind).kind);
            let right = infix_level(right_operand(tree.kind).kind);
            &&& own >= min
            &&& left is Some ==> left->0 >= own
            &&& right is Some ==> right->0 > own || right_in_brackets(i, p, ns, tree)
        }),
{
    if p_bin(i, p, d, ns, min) is Done {
        let r = read_bin(i, p, d, ns, min);
        reveal_with_fuel(Reading::is_of, 2);
        match r {
            Reading::Operand { from, depth, to, tree } => {
                law_infix_operands_stand_in_brackets(i, from, depth, ns);
            },
            Reading::Joined { left, right, to, tree } => {
                let sign = i.kind(left.to().cur);
                lemma_made(
                    i,
                    right.to(),
                    joined(sign, left.tree(), right.tree()),
                    i.range(left.from().cur),
                );
                lemma_level_of_reading(i, ns, *left);
                lemma_level_of_reading(i, ns, *right);
                forward_bump(i, left.to());
                lemma_reading_moves_on(i, ns, *left);
                match *left {
                    Reading::Operand { from, depth, .. } => {
                        law_infix_operands_stand_in_brackets(i, from, depth, ns);
                    },
                    _ => {},
                }
                match *right {
                    Reading::Operand { from, depth, to, tree: operand } => {
                        law_infix_operands_stand_in_brackets(i, from, depth, ns);
                        assert(p_unary(i, from, depth, ns) == Out::Done(
                            to,
                            right_operand(tree.kind),
                        ));
                    },
                    _ => {},
                }
            },
        }
    }
}

/// The level of an expression of two readings is that of the token between them.
proof fn lemma_level_of_reading(i: Input, ns: bool, r: Reading)
    requires
        r.is_of(i, ns),
    ensures
        r.rank(i) is Some ==> infix_level(r.tree().kind) == r.rank(i),
{
    match r {
        Reading::Operand { .. } => {},
        Reading::Joined { left, right, to, tree } => {
            lemma_made(
                i,
                right.to(),
                joined(i.kind(left.to().cur), left.tree(), right.tree()),
                i.range(left.from().cur),
            );
        },
    }
}

proof fn lemma_reading_moves_on(i: Input, ns: bool, r: Reading)
    requires
        r.is_of(i, ns),
    ensures
        r.from().cur <= r.to().cur,
    decreases r,
{
    match r {
        Reading::Operand { from, depth, .. } => {
            forward_p_unary(i, from, depth, ns);
        },
        Reading::Joined { left, right, to, tree } => {
            lemma_reading_moves_on(i, ns, *left);
            lemma_reading_moves_on(i, ns, *right);
            forward_bump(i, left.to());
            lemma_made(
                i,
                right.to(),
                joined(i.kind(left.to().cur), left.tree(), right.tree()),
                i.range(left.from().cur),
            );
        },
    }
}

/// What stands between two places where an expression is read with infix tokens of
/// at least some tightness: operands and tokens in the order of the input, grouped
/// by how tight the tokens bind and, among equals, from the left; and the token
/// behind them is looser or joins nothing.
pub proof fn law_infix_tokens_group_by_tightness(i: Input, p: At, d: nat, ns: bool, min: nat)
    ensures
        p_bin(i, p, d, ns, min) matches Out::Done(q, tree) ==> (exists|r: Reading|
            #[trigger] r.is_of(i, ns) && r.is_grouped(i) && r.from() == p && r.to() == q && r.tree()
                == tree && (r.rank(i) is Some ==> r.rank(i)->0 >= min)) && (rank(
            i.kind(q.cur),
        ) is Some ==> rank(i.kind(q.cur))->0 < min),
{
    if p_bin(i, p, d, ns, min) is Done {
        let r = read_bin(i, p, d, ns, min);
    }
}

} // verus!
