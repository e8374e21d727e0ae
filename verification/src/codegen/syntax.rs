//! Questions about syntax: what it mentions, where it continues a loop, and what
//! its literals mean.

use vstd::prelude::*;

use crate::ast::{Block, ClosureBody, ElseBranch, Expr, ExprKind, MatchArm, Pattern, Stmt};
use crate::text::{chars_of, same_text, signed_decimal, signed_text, text_without, without};
use crate::token::SourceRange;

verus! {

// ---------------------------------------------------------------------------
// `continue`.
// ---------------------------------------------------------------------------

/// Whether a block needs the label that its `continue` statements jump to.
pub open spec fn block_continues(block: Block) -> bool
    decreases block, 0int,
{
    stmts_continue(block.stmts@, 0)
}

/// Whether one of `stmts[from..]` continues a loop.
pub open spec fn stmts_continue(stmts: Seq<Stmt>, from: int) -> bool
    decreases stmts, stmts.len() - from,
{
    if from < 0 || from >= stmts.len() {
        false
    } else {
        stmt_continues(stmts[from]) || stmts_continue(stmts, from + 1)
    }
}

pub open spec fn stmt_continues(statement: Stmt) -> bool
    decreases statement, 0int,
{
    match statement {
        Stmt::Continue => true,
        Stmt::While { body, .. } => block_continues(body),
        Stmt::Loop { body } => block_continues(body),
        Stmt::WhileLet { body, .. } => block_continues(body),
        Stmt::For { body, .. } => block_continues(body),
        Stmt::Expr(expression) => expr_continues(expression),
        _ => false,
    }
}

pub open spec fn expr_continues(expression: Expr) -> bool
    decreases expression, 0int,
{
    match expression.kind {
        ExprKind::Block(block) => block_continues(block),
        ExprKind::Loop(block) => block_continues(block),
        ExprKind::If { then_block, else_block, .. } => block_continues(then_block)
            || match else_block {
            Some(branch) => match *branch {
                ElseBranch::Block(block) => block_continues(block),
                ElseBranch::If(inner) => expr_continues(inner),
            },
            None => false,
        },
        ExprKind::Match { arms, .. } => arms_continue(arms@, 0),
        _ => false,
    }
}

/// Whether the body of one of `arms[from..]` continues a loop.
pub open spec fn arms_continue(arms: Seq<MatchArm>, from: int) -> bool
    decreases arms, arms.len() - from,
{
    if from < 0 || from >= arms.len() {
        false
    } else {
        expr_continues(arms[from].body) || arms_continue(arms, from + 1)
    }
}

pub fn block_has_continue(block: &Block) -> (r: bool)
    ensures
        r == block_continues(*block),
    decreases *block, 0int,
{
    let mut i: usize = 0;
    while i < block.stmts.len()
        invariant
            i <= block.stmts.len(),
            stmts_continue(block.stmts@, i as int) == stmts_continue(block.stmts@, 0),
        decreases block.stmts.len() - i,
    {
        if stmt_has_continue(&block.stmts[i]) {
            return true;
        }
        i += 1;
    }
    false
}

fn stmt_has_continue(statement: &Stmt) -> (r: bool)
    ensures
        r == stmt_continues(*statement),
    decreases *statement, 0int,
{
    match statement {
        Stmt::Continue => true,
        Stmt::While { body, .. } => block_has_continue(body),
        Stmt::Loop { body } => block_has_continue(body),
        Stmt::WhileLet { body, .. } => block_has_continue(body),
        Stmt::For { body, .. } => block_has_continue(body),
        Stmt::Expr(expression) => expr_has_continue(expression),
        _ => false,
    }
}

pub fn expr_has_continue(expression: &Expr) -> (r: bool)
    ensures
        r == expr_continues(*expression),
    decreases *expression, 0int,
{
    match &expression.kind {
        ExprKind::Block(block) => block_has_continue(block),
        ExprKind::Loop(block) => block_has_continue(block),
        ExprKind::If { then_block, else_block, .. } => {
            if block_has_continue(then_block) {
                return true;
            }
            match else_block {
                Some(branch) => match &**branch {
                    ElseBranch::Block(block) => block_has_continue(block),
                    ElseBranch::If(inner) => expr_has_continue(inner),
                },
                None => false,
            }
        },
        ExprKind::Match { arms, .. } => {
            let mut i: usize = 0;
            while i < arms.len()
                invariant
                    i <= arms.len(),
                    decreases_to!(*expression => arms@),
                    arms_continue(arms@, i as int) == arms_continue(arms@, 0),
                    expr_continues(*expression) == arms_continue(arms@, 0),
                decreases arms.len() - i,
            {
                if expr_has_continue(&arms[i].body) {
                    return true;
                }
                i += 1;
            }
            false
        },
        _ => false,
    }
}

// ---------------------------------------------------------------------------
// Bindings.
// ---------------------------------------------------------------------------

/// Whether a block reads a name.
pub open spec fn block_mentions(block: Block, name: Seq<char>) -> bool
    decreases block, 0int,
{
    stmts_mention(block.stmts@, 0, name) || match block.tail {
        Some(tail) => expr_mentions(*tail, name),
        None => false,
    }
}

/// Whether one of `stmts[from..]` reads a name.
pub open spec fn stmts_mention(stmts: Seq<Stmt>, from: int, name: Seq<char>) -> bool
    decreases stmts, stmts.len() - from,
{
    if from < 0 || from >= stmts.len() {
        false
    } else {
        stmt_mentions(stmts[from], name) || stmts_mention(stmts, from + 1, name)
    }
}

pub open spec fn stmt_mentions(statement: Stmt, name: Seq<char>) -> bool
    decreases statement, 0int,
{
    match statement {
        Stmt::Lua { .. } => false,
        Stmt::Let { init, .. } => expr_mentions(init, name),
        Stmt::Expr(expression) => expr_mentions(expression, name),
        Stmt::Return(value) => match value {
            Some(value) => expr_mentions(value, name),
            None => false,
        },
        Stmt::While { cond, body } => expr_mentions(cond, name) || block_mentions(body, name),
        Stmt::Loop { body } => block_mentions(body, name),
        Stmt::For { iter, body, .. } => expr_mentions(iter, name) || block_mentions(body, name),
        Stmt::WhileLet { pat, expr, body } => pattern_mentions(*pat, name) || expr_mentions(
            expr,
            name,
        ) || block_mentions(body, name),
        Stmt::Break(value) => match value {
            Some(value) => expr_mentions(value, name),
            None => false,
        },
        Stmt::Continue => false,
    }
}

/// Whether one of `list[from..]` reads a name.
pub open spec fn exprs_mention(list: Seq<Expr>, from: int, name: Seq<char>) -> bool
    decreases list, list.len() - from,
{
    if from < 0 || from >= list.len() {
        false
    } else {
        expr_mentions(list[from], name) || exprs_mention(list, from + 1, name)
    }
}

/// Whether the value of one of `list[from..]` reads a name.
pub open spec fn fields_mention(list: Seq<(String, Expr)>, from: int, name: Seq<char>) -> bool
    decreases list, list.len() - from,
{
    if from < 0 || from >= list.len() {
        false
    } else {
        expr_mentions(list[from].1, name) || fields_mention(list, from + 1, name)
    }
}

/// Whether one of the pairs `list[from..]` reads a name.
pub open spec fn pairs_mention(list: Seq<(Expr, Expr)>, from: int, name: Seq<char>) -> bool
    decreases list, list.len() - from,
{
    if from < 0 || from >= list.len() {
        false
    } else {
        expr_mentions(list[from].0, name) || expr_mentions(list[from].1, name) || pairs_mention(
            list,
            from + 1,
            name,
        )
    }
}

/// Whether one of `arms[from..]` reads a name.
pub open spec fn arms_mention(arms: Seq<MatchArm>, from: int, name: Seq<char>) -> bool
    decreases arms, arms.len() - from,
{
    if from < 0 || from >= arms.len() {
        false
    } else {
        arm_mentions(arms[from], name) || arms_mention(arms, from + 1, name)
    }
}

pub open spec fn arm_mentions(arm: MatchArm, name: Seq<char>) -> bool
    decreases arm, 0int,
{
    patterns_mention(arm.pats@, 0, name) || match arm.guard {
        Some(guard) => expr_mentions(guard, name),
        None => false,
    } || expr_mentions(arm.body, name)
}

pub open spec fn else_mentions(branch: ElseBranch, name: Seq<char>) -> bool
    decreases branch, 0int,
{
    match branch {
        ElseBranch::Block(block) => block_mentions(block, name),
        ElseBranch::If(expression) => expr_mentions(expression, name),
    }
}

/// Whether an expression reads a name.
pub open spec fn expr_mentions(expression: Expr, name: Seq<char>) -> bool
    decreases expression, 0int,
{
    match expression.kind {
        ExprKind::Path(path) => path@.len() == 1 && path@[0]@ == name,
        ExprKind::Closure { body, .. } => match body {
            ClosureBody::Expr(inner) => expr_mentions(*inner, name),
            ClosureBody::Block(block) => block_mentions(block, name),
        },
        ExprKind::Unary { expr, .. } => expr_mentions(*expr, name),
        ExprKind::Try { expr } => expr_mentions(*expr, name),
        ExprKind::Binary { lhs, rhs, .. } => expr_mentions(*lhs, name) || expr_mentions(*rhs, name),
        ExprKind::Call { callee, args } => expr_mentions(*callee, name) || exprs_mention(
            args@,
            0,
            name,
        ),
        ExprKind::MethodCall { recv, args, .. } => expr_mentions(*recv, name) || exprs_mention(
            args@,
            0,
            name,
        ),
        ExprKind::Field { base, .. } => expr_mentions(*base, name),
        ExprKind::StructLit { fields, .. } => fields_mention(fields@, 0, name),
        ExprKind::MapLit(entries) => pairs_mention(entries@, 0, name),
        ExprKind::Match { scrut, arms } => expr_mentions(*scrut, name) || arms_mention(
            arms@,
            0,
            name,
        ),
        ExprKind::Range { start, end, .. } => expr_mentions(*start, name) || expr_mentions(
            *end,
            name,
        ),
        ExprKind::Index { base, index } => expr_mentions(*base, name) || expr_mentions(
            *index,
            name,
        ),
        ExprKind::VecLit(elements) => exprs_mention(elements@, 0, name),
        ExprKind::MacroCall { args, .. } => exprs_mention(args@, 0, name),
        ExprKind::If { cond, then_block, else_block } => expr_mentions(*cond, name)
            || block_mentions(then_block, name) || match else_block {
            Some(branch) => else_mentions(*branch, name),
            None => false,
        },
        ExprKind::IfLet { pat, expr, then_block, else_block } => pattern_mentions(*pat, name)
            || expr_mentions(*expr, name) || block_mentions(then_block, name) || match else_block {
            Some(branch) => else_mentions(*branch, name),
            None => false,
        },
        ExprKind::Block(block) => block_mentions(block, name),
        ExprKind::Loop(block) => block_mentions(block, name),
        ExprKind::Assign { target, value, .. } => expr_mentions(*target, name) || expr_mentions(
            *value,
            name,
        ),
        ExprKind::Int(_) | ExprKind::Float(_) | ExprKind::Str(_) | ExprKind::Bool(_) => false,
    }
}

/// Whether one of `list[from..]` reads a name.
pub open spec fn patterns_mention(list: Seq<Pattern>, from: int, name: Seq<char>) -> bool
    decreases list, list.len() - from,
{
    if from < 0 || from >= list.len() {
        false
    } else {
        pattern_mentions(list[from], name) || patterns_mention(list, from + 1, name)
    }
}

/// Whether the pattern of one of `list[from..]` reads a name.
pub open spec fn field_patterns_mention(
    list: Seq<(String, Pattern)>,
    from: int,
    name: Seq<char>,
) -> bool
    decreases list, list.len() - from,
{
    if from < 0 || from >= list.len() {
        false
    } else {
        pattern_mentions(list[from].1, name) || field_patterns_mention(list, from + 1, name)
    }
}

/// Whether a literal inside a pattern reads a name.
pub open spec fn pattern_mentions(pattern: Pattern, name: Seq<char>) -> bool
    decreases pattern, 0int,
{
    match pattern {
        Pattern::Literal(expression) => expr_mentions(expression, name),
        Pattern::Range { lo, hi, .. } => expr_mentions(*lo, name) || expr_mentions(*hi, name),
        Pattern::TupleVariant { elems, .. } => patterns_mention(elems@, 0, name),
        Pattern::StructVariant { fields, .. } => field_patterns_mention(fields@, 0, name),
        _ => false,
    }
}

pub fn block_mentions_binding(block: &Block, name: &str) -> (r: bool)
    ensures
        r == block_mentions(*block, name@),
    decreases *block, 0int,
{
    if stmts_mention_binding(&block.stmts, name) {
        return true;
    }
    match &block.tail {
        Some(tail) => expression_mentions_binding(tail, name),
        None => false,
    }
}

fn stmts_mention_binding(list: &Vec<Stmt>, name: &str) -> (r: bool)
    ensures
        r == stmts_mention(list@, 0, name@),
    decreases *list, 0int,
{
    let mut i: usize = 0;
    while i < list.len()
        invariant
            i <= list.len(),
            stmts_mention(list@, i as int, name@) == stmts_mention(list@, 0, name@),
        decreases list.len() - i,
    {
        if statement_mentions_binding(&list[i], name) {
            return true;
        }
        i += 1;
    }
    false
}

fn exprs_mention_binding(list: &Vec<Expr>, name: &str) -> (r: bool)
    ensures
        r == exprs_mention(list@, 0, name@),
    decreases *list, 0int,
{
    let mut i: usize = 0;
    while i < list.len()
        invariant
            i <= list.len(),
            exprs_mention(list@, i as int, name@) == exprs_mention(list@, 0, name@),
        decreases list.len() - i,
    {
        if expression_mentions_binding(&list[i], name) {
            return true;
        }
        i += 1;
    }
    false
}

fn fields_mention_binding(list: &Vec<(String, Expr)>, name: &str) -> (r: bool)
    ensures
        r == fields_mention(list@, 0, name@),
    decreases *list, 0int,
{
    let mut i: usize = 0;
    while i < list.len()
        invariant
            i <= list.len(),
            fields_mention(list@, i as int, name@) == fields_mention(list@, 0, name@),
        decreases list.len() - i,
    {
        if expression_mentions_binding(&list[i].1, name) {
            return true;
        }
        i += 1;
    }
    false
}

fn pairs_mention_binding(list: &Vec<(Expr, Expr)>, name: &str) -> (r: bool)
    ensures
        r == pairs_mention(list@, 0, name@),
    decreases *list, 0int,
{
    let mut i: usize = 0;
    while i < list.len()
        invariant
            i <= list.len(),
            pairs_mention(list@, i as int, name@) == pairs_mention(list@, 0, name@),
        decreases list.len() - i,
    {
        if expression_mentions_binding(&list[i].0, name) || expression_mentions_binding(&list[i].1, name) {
            return true;
        }
        i += 1;
    }
    false
}

fn arms_mention_binding(list: &Vec<MatchArm>, name: &str) -> (r: bool)
    ensures
        r == arms_mention(list@, 0, name@),
    decreases *list, 0int,
{
    let mut i: usize = 0;
    while i < list.len()
        invariant
            i <= list.len(),
            arms_mention(list@, i as int, name@) == arms_mention(list@, 0, name@),
        decreases list.len() - i,
    {
        if arm_mentions_binding(&list[i], name) {
            return true;
        }
        i += 1;
    }
    false
}

fn patterns_mention_binding(list: &Vec<Pattern>, name: &str) -> (r: bool)
    ensures
        r == patterns_mention(list@, 0, name@),
    decreases *list, 0int,
{
    let mut i: usize = 0;
    while i < list.len()
        invariant
            i <= list.len(),
            patterns_mention(list@, i as int, name@) == patterns_mention(list@, 0, name@),
        decreases list.len() - i,
    {
        if pattern_mentions_binding(&list[i], name) {
            return true;
        }
        i += 1;
    }
    false
}

fn field_patterns_mention_binding(list: &Vec<(String, Pattern)>, name: &str) -> (r: bool)
    ensures
        r == field_patterns_mention(list@, 0, name@),
    decreases *list, 0int,
{
    let mut i: usize = 0;
    while i < list.len()
        invariant
            i <= list.len(),
            field_patterns_mention(list@, i as int, name@) == field_patterns_mention(list@, 0, name@),
        decreases list.len() - i,
    {
        if pattern_mentions_binding(&list[i].1, name) {
            return true;
        }
        i += 1;
    }
    false
}

fn statement_mentions_binding(statement: &Stmt, name: &str) -> (r: bool)
    ensures
        r == stmt_mentions(*statement, name@),
    decreases *statement, 0int,
{
    match statement {
        Stmt::Lua { .. } => false,
        Stmt::Let { init, .. } => expression_mentions_binding(init, name),
        Stmt::Expr(expression) => expression_mentions_binding(expression, name),
        Stmt::Return(value) => match value {
            Some(value) => expression_mentions_binding(value, name),
            None => false,
        },
        Stmt::While { cond, body } => expression_mentions_binding(cond, name)
            || block_mentions_binding(body, name),
        Stmt::Loop { body } => block_mentions_binding(body, name),
        Stmt::For { iter, body, .. } => expression_mentions_binding(iter, name)
            || block_mentions_binding(body, name),
        Stmt::WhileLet { pat, expr, body } => pattern_mentions_binding(pat, name)
            || expression_mentions_binding(expr, name) || block_mentions_binding(body, name),
        Stmt::Break(value) => match value {
            Some(value) => expression_mentions_binding(value, name),
            None => false,
        },
        Stmt::Continue => false,
    }
}

fn arm_mentions_binding(arm: &MatchArm, name: &str) -> (r: bool)
    ensures
        r == arm_mentions(*arm, name@),
    decreases *arm, 0int,
{
    if patterns_mention_binding(&arm.pats, name) {
        return true;
    }
    if let Some(guard) = &arm.guard {
        if expression_mentions_binding(guard, name) {
            return true;
        }
    }
    expression_mentions_binding(&arm.body, name)
}

fn else_mentions_binding(branch: &ElseBranch, name: &str) -> (r: bool)
    ensures
        r == else_mentions(*branch, name@),
    decreases *branch, 0int,
{
    match branch {
        ElseBranch::Block(block) => block_mentions_binding(block, name),
        ElseBranch::If(expression) => expression_mentions_binding(expression, name),
    }
}

/// Whether an expression reads a name.
pub fn expression_mentions_binding(expression: &Expr, name: &str) -> (r: bool)
    ensures
        r == expr_mentions(*expression, name@),
    decreases *expression, 0int,
{
    match &expression.kind {
        ExprKind::Path(path) => path.len() == 1 && same_text(path[0].as_str(), name),
        ExprKind::Closure { body, .. } => match body {
            ClosureBody::Expr(inner) => expression_mentions_binding(inner, name),
            ClosureBody::Block(block) => block_mentions_binding(block, name),
        },
        ExprKind::Unary { expr, .. } => expression_mentions_binding(expr, name),
        ExprKind::Try { expr } => expression_mentions_binding(expr, name),
        ExprKind::Binary { lhs, rhs, .. } => expression_mentions_binding(lhs, name)
            || expression_mentions_binding(rhs, name),
        ExprKind::Call { callee, args } => expression_mentions_binding(callee, name)
            || exprs_mention_binding(args, name),
        ExprKind::MethodCall { recv, args, .. } => expression_mentions_binding(recv, name)
            || exprs_mention_binding(args, name),
        ExprKind::Field { base, .. } => expression_mentions_binding(base, name),
        ExprKind::StructLit { fields, .. } => fields_mention_binding(fields, name),
        ExprKind::MapLit(entries) => pairs_mention_binding(entries, name),
        ExprKind::Match { scrut, arms } => expression_mentions_binding(scrut, name)
            || arms_mention_binding(arms, name),
        ExprKind::Range { start, end, .. } => expression_mentions_binding(start, name)
            || expression_mentions_binding(end, name),
        ExprKind::Index { base, index } => expression_mentions_binding(base, name)
            || expression_mentions_binding(index, name),
        ExprKind::VecLit(elements) => exprs_mention_binding(elements, name),
        ExprKind::MacroCall { args, .. } => exprs_mention_binding(args, name),
        ExprKind::If { cond, then_block, else_block } => {
            if expression_mentions_binding(cond, name) || block_mentions_binding(
                then_block,
                name,
            ) {
                return true;
            }
            match else_block {
                Some(branch) => else_mentions_binding(branch, name),
                None => false,
            }
        },
        ExprKind::IfLet { pat, expr, then_block, else_block } => {
            if pattern_mentions_binding(pat, name) || expression_mentions_binding(expr, name)
                || block_mentions_binding(then_block, name) {
                return true;
            }
            match else_block {
                Some(branch) => else_mentions_binding(branch, name),
                None => false,
            }
        },
        ExprKind::Block(block) => block_mentions_binding(block, name),
        ExprKind::Loop(block) => block_mentions_binding(block, name),
        ExprKind::Assign { target, value, .. } => expression_mentions_binding(target, name)
            || expression_mentions_binding(value, name),
        ExprKind::Int(_) => false,
        ExprKind::Float(_) => false,
        ExprKind::Str(_) => false,
        ExprKind::Bool(_) => false,
    }
}

/// Whether a literal inside a pattern reads a name.
pub fn pattern_mentions_binding(pattern: &Pattern, name: &str) -> (r: bool)
    ensures
        r == pattern_mentions(*pattern, name@),
    decreases *pattern, 0int,
{
    match pattern {
        Pattern::Literal(expression) => expression_mentions_binding(expression, name),
        Pattern::Range { lo, hi, .. } => expression_mentions_binding(lo, name)
            || expression_mentions_binding(hi, name),
        Pattern::TupleVariant { elems, .. } => patterns_mention_binding(elems, name),
        Pattern::StructVariant { fields, .. } => field_patterns_mention_binding(fields, name),
        _ => false,
    }
}

// ---------------------------------------------------------------------------
// Integer literals.
// ---------------------------------------------------------------------------

/// The value of a digit in some base.
pub open spec fn digit_value(c: char) -> Option<int> {
    if '0' <= c && c <= '9' {
        Some((c as int) - ('0' as int))
    } else if 'a' <= c && c <= 'z' {
        Some((c as int) - ('a' as int) + 10)
    } else if 'A' <= c && c <= 'Z' {
        Some((c as int) - ('A' as int) + 10)
    } else {
        None
    }
}

/// The number that the digits write, where all of them belong to the base.
pub open spec fn digits_value(digits: Seq<char>, radix: int) -> Option<int>
    decreases digits.len(),
{
    if digits.len() == 0 {
        Some(0)
    } else {
        match (digits_value(digits.drop_last(), radix), digit_value(digits.last())) {
            (Some(high), Some(low)) => if low < radix {
                Some(high * radix + low)
            } else {
                None
            },
            _ => None,
        }
    }
}

/// The signed 64-bit integer that a text writes: an optional sign and at least
/// one digit, in range.
pub open spec fn parsed_int(text: Seq<char>, radix: int) -> Option<i64> {
    let negative = text.len() > 0 && text[0] == '-';
    let signed = text.len() > 0 && (text[0] == '-' || text[0] == '+');
    let digits = if signed {
        text.skip(1)
    } else {
        text
    };
    if digits.len() == 0 {
        None
    } else {
        match digits_value(digits, radix) {
            None => None,
            Some(value) => {
                let result = if negative {
                    -value
                } else {
                    value
                };
                if i64::MIN <= result <= i64::MAX {
                    Some(result as i64)
                } else {
                    None
                }
            },
        }
    }
}

fn digit_number(c: char) -> (r: Option<u32>)
    ensures
        match r {
            Some(v) => digit_value(c) == Some(v as int) && v < 36,
            None => digit_value(c) is None,
        },
{
    if '0' <= c && c <= '9' {
        Some((c as u32) - 48)
    } else if 'a' <= c && c <= 'z' {
        Some((c as u32) - 97 + 10)
    } else if 'A' <= c && c <= 'Z' {
        Some((c as u32) - 65 + 10)
    } else {
        None
    }
}

pub proof fn lemma_digits_prefix(digits: Seq<char>, radix: int, n: int)
    requires
        0 <= n <= digits.len(),
        radix >= 2,
    ensures
        digits_value(digits.take(n), radix) is None ==> digits_value(digits, radix) is None,
        digits_value(digits, radix) is Some ==> 0 <= digits_value(digits.take(n), radix)->0
            <= digits_value(digits, radix)->0,
    decreases digits.len() - n,
{
    if n < digits.len() {
        lemma_digits_prefix(digits, radix, n + 1);
        let longer = digits.take(n + 1);
        assert(longer.drop_last() =~= digits.take(n));
        lemma_digits_nonnegative(digits.take(n), radix);
        if digits_value(longer, radix) is Some {
            let high = digits_value(digits.take(n), radix)->0;
            assert(high <= high * radix) by (nonlinear_arith)
                requires
                    high >= 0,
                    radix >= 1,
            ;
        }
    } else {
        assert(digits.take(n) =~= digits);
        lemma_digits_nonnegative(digits, radix);
    }
}

proof fn lemma_digits_nonnegative(digits: Seq<char>, radix: int)
    requires
        radix >= 2,
    ensures
        digits_value(digits, radix) is Some ==> digits_value(digits, radix)->0 >= 0,
    decreases digits.len(),
{
    if digits.len() > 0 {
        lemma_digits_nonnegative(digits.drop_last(), radix);
        if digits_value(digits, radix) is Some {
            let high = digits_value(digits.drop_last(), radix)->0;
            assert(high * radix >= 0) by (nonlinear_arith)
                requires
                    high >= 0,
                    radix >= 2,
            ;
        }
    }
}

/// Reads a signed 64-bit integer in some base.
pub fn parse_int(text: &str, radix: u32) -> (r: Option<i64>)
    requires
        2 <= radix <= 36,
    ensures
        r == parsed_int(text@, radix as int),
{
    let chars = chars_of(text);
    if chars.len() == 0 {
        return None;
    }
    let negative = chars[0] == '-';
    let start: usize = if chars[0] == '-' || chars[0] == '+' {
        1
    } else {
        0
    };
    if start == chars.len() {
        return None;
    }
    let ghost digits = if start == 1 {
        text@.skip(1)
    } else {
        text@
    };
    let mut i: usize = start;
    let mut value: i128 = 0;
    let mut large = false;
    proof {
        assert(digits.take(0) =~= Seq::empty());
    }
    while i < chars.len()
        invariant
            start <= i <= chars.len(),
            start == 0 || start == 1,
            chars@ == text@,
            digits == if start == 1 {
                text@.skip(1)
            } else {
                text@
            },
            digits.len() == chars@.len() - start,
            digits.len() > 0,
            2 <= radix <= 36,
            digits_value(digits.take(i - start), radix as int) is Some,
            !large ==> digits_value(digits.take(i - start), radix as int) == Some(value as int),
            !large ==> 0 <= value <= 0x8000_0000_0000_0000,
            large ==> digits_value(digits.take(i - start), radix as int)->0
                > 0x8000_0000_0000_0000,
            negative == (text@[0] == '-'),
            (text@[0] == '-' || text@[0] == '+') == (start == 1),
            text@.len() > 0,
        decreases chars.len() - i,
    {
        let ghost before = digits.take(i - start);
        proof {
            let longer = digits.take(i + 1 - start);
            assert(longer.drop_last() =~= before);
            assert(longer.last() == chars@[i as int]);
        }
        let digit = match digit_number(chars[i]) {
            Some(digit) => digit,
            None => {
                proof {
                    lemma_digits_prefix(digits, radix as int, i + 1 - start);
                }
                return None;
            },
        };
        if digit >= radix {
            proof {
                lemma_digits_prefix(digits, radix as int, i + 1 - start);
            }
            return None;
        }
        if large {
            proof {
                let high = digits_value(before, radix as int)->0;
                assert(high * (radix as int) >= high) by (nonlinear_arith)
                    requires
                        high >= 0,
                        radix >= 2,
                ;
            }
        } else {
            proof {
                assert(0 <= value * (radix as int) <= 0x8000_0000_0000_0000 * 36) by (
                nonlinear_arith)
                    requires
                        0 <= value <= 0x8000_0000_0000_0000,
                        2 <= radix <= 36,
                ;
            }
            let next: i128 = value * (radix as i128) + (digit as i128);
            if next > 0x8000_0000_0000_0000 {
                large = true;
            } else {
                value = next;
            }
        }
        i += 1;
    }
    proof {
        assert(digits.take(i - start) =~= digits);
    }
    if large {
        return None;
    }
    let result: i128 = if negative {
        -value
    } else {
        value
    };
    if result > i64::MAX as i128 {
        return None;
    }
    Some(result as i64)
}

/// Whether a text begins with a zero and one of two letters.
pub open spec fn has_base_prefix(text: Seq<char>, lower: char, upper: char) -> bool {
    text.len() >= 2 && text[0] == '0' && (text[1] == lower || text[1] == upper)
}

/// The value of an integer literal: decimal, or with a base prefix.
pub open spec fn literal_value(source: Seq<char>) -> Option<i64> {
    let clean = without(source, '_');
    if has_base_prefix(clean, 'b', 'B') {
        parsed_int(clean.skip(2), 2)
    } else if has_base_prefix(clean, 'o', 'O') {
        parsed_int(clean.skip(2), 8)
    } else if has_base_prefix(clean, 'x', 'X') {
        parsed_int(clean.skip(2), 16)
    } else {
        parsed_int(clean, 10)
    }
}

/// The Lua spelling of an integer literal. Lua has no binary literals.
pub open spec fn literal_text(source: Seq<char>) -> Seq<char> {
    let clean = without(source, '_');
    if has_base_prefix(clean, 'b', 'B') && parsed_int(clean.skip(2), 2) is Some {
        signed_decimal(parsed_int(clean.skip(2), 2)->0 as int)
    } else {
        clean
    }
}

fn base_tail(text: &str, lower: char, upper: char) -> (r: Option<String>)
    ensures
        match r {
            Some(tail) => has_base_prefix(text@, lower, upper) && tail@ == text@.skip(2),
            None => !has_base_prefix(text@, lower, upper),
        },
{
    let chars = chars_of(text);
    if chars.len() >= 2 && chars[0] == '0' && (chars[1] == lower || chars[1] == upper) {
        proof {
            assert(text@.subrange(2, text@.len() as int) =~= text@.skip(2));
        }
        Some(crate::text::text_between(&chars, 2, chars.len()))
    } else {
        None
    }
}

/// The value of an integer literal.
pub fn rua_int_value(source: &str) -> (r: Option<i64>)
    ensures
        r == literal_value(source@),
{
    let clean = text_without(source, '_');
    if let Some(digits) = base_tail(clean.as_str(), 'b', 'B') {
        return parse_int(digits.as_str(), 2);
    }
    if let Some(digits) = base_tail(clean.as_str(), 'o', 'O') {
        return parse_int(digits.as_str(), 8);
    }
    if let Some(digits) = base_tail(clean.as_str(), 'x', 'X') {
        return parse_int(digits.as_str(), 16);
    }
    parse_int(clean.as_str(), 10)
}

/// The Lua spelling of an integer literal.
pub fn lua_int_literal(source: &str) -> (r: String)
    ensures
        r@ == literal_text(source@),
{
    let clean = text_without(source, '_');
    if let Some(bits) = base_tail(clean.as_str(), 'b', 'B') {
        if let Some(value) = parse_int(bits.as_str(), 2) {
            return signed_text(value);
        }
    }
    clean
}

/// The source range that a statement's output is attributed to.
pub open spec fn source_of(statement: Stmt) -> Option<SourceRange> {
    match statement {
        Stmt::Lua { span, .. } => Some(span),
        Stmt::Let { name_span, .. } => Some(name_span),
        Stmt::Expr(expression) => Some(expression.span),
        Stmt::Return(Some(expression)) => Some(expression.span),
        Stmt::While { cond, .. } => Some(cond.span),
        Stmt::For { var_span, .. } => Some(var_span),
        Stmt::WhileLet { expr, .. } => Some(expr.span),
        Stmt::Break(Some(value)) => Some(value.span),
        _ => None,
    }
}

/// The source range that a statement's output is attributed to.
pub fn statement_source(statement: &Stmt) -> (r: Option<SourceRange>)
    ensures
        r == source_of(*statement),
{
    match statement {
        Stmt::Lua { span, .. } => Some(*span),
        Stmt::Let { name_span, .. } => Some(*name_span),
        Stmt::Expr(expression) => Some(expression.span),
        Stmt::Return(Some(expression)) => Some(expression.span),
        Stmt::While { cond, .. } => Some(cond.span),
        Stmt::For { var_span, .. } => Some(*var_span),
        Stmt::WhileLet { expr, .. } => Some(expr.span),
        Stmt::Break(Some(value)) => Some(value.span),
        _ => None,
    }
}

} // verus!
