//! Facts about whole matches: which tags they test and whether they cover every
//! value.

use vstd::prelude::*;

use super::analysis::{resolve_variant, variant_of};
use crate::ast::{ExprKind, MatchArm, Pattern};
use crate::builtins::BuiltinId;
use crate::hir::{DefId, ResolvedHir, ResolvedTarget};
use crate::typed::TypedProgram;

verus! {

/// What the outermost path of a pattern refers to.
pub open spec fn root_target(program: TypedProgram, pattern: Pattern) -> Option<ResolvedTarget> {
    match pattern {
        Pattern::Path { id, .. } => Some(program.spec_pattern_target(id)),
        Pattern::TupleVariant { id, .. } => Some(program.spec_pattern_target(id)),
        Pattern::StructVariant { id, .. } => Some(program.spec_pattern_target(id)),
        _ => None,
    }
}

pub fn root_pattern_target(program: &TypedProgram, pattern: &Pattern) -> (r: Option<ResolvedTarget>)
    ensures
        r == root_target(*program, *pattern),
{
    match pattern {
        Pattern::Path { id, .. } => Some(program.pattern_target(*id)),
        Pattern::TupleVariant { id, .. } => Some(program.pattern_target(*id)),
        Pattern::StructVariant { id, .. } => Some(program.pattern_target(*id)),
        _ => None,
    }
}

/// Whether a pattern tests for one side of a result.
pub open spec fn tests_result(program: TypedProgram, pattern: Pattern) -> bool {
    match root_target(program, pattern) {
        Some(ResolvedTarget::Builtin(BuiltinId::VariantResultOk)) => true,
        Some(ResolvedTarget::Builtin(BuiltinId::VariantResultErr)) => true,
        _ => false,
    }
}

/// Whether a pattern tests the tag of its subject.
pub open spec fn tests_tag(program: TypedProgram, pattern: Pattern) -> bool {
    tests_result(program, pattern) || match root_target(program, pattern) {
        Some(target) => variant_of(program.hir, target) is Some,
        None => false,
    }
}

/// Whether some pattern of a match tests the tag of the subject.
pub open spec fn uses_tag(program: TypedProgram, arms: Seq<MatchArm>) -> bool {
    exists|i: int, j: int|
        0 <= i < arms.len() && 0 <= j < arms[i].pats@.len() && tests_tag(
            program,
            #[trigger] arms[i].pats@[j],
        )
}

/// Whether some pattern of a match tests for one side of a result.
pub open spec fn uses_result_tag(program: TypedProgram, arms: Seq<MatchArm>) -> bool {
    exists|i: int, j: int|
        0 <= i < arms.len() && 0 <= j < arms[i].pats@.len() && tests_result(
            program,
            #[trigger] arms[i].pats@[j],
        )
}

fn pattern_tests_result(program: &TypedProgram, pattern: &Pattern) -> (r: bool)
    ensures
        r == tests_result(*program, *pattern),
{
    match root_pattern_target(program, pattern) {
        Some(ResolvedTarget::Builtin(BuiltinId::VariantResultOk)) => true,
        Some(ResolvedTarget::Builtin(BuiltinId::VariantResultErr)) => true,
        _ => false,
    }
}

fn pattern_tests_tag(program: &TypedProgram, pattern: &Pattern) -> (r: bool)
    ensures
        r == tests_tag(*program, *pattern),
{
    if pattern_tests_result(program, pattern) {
        return true;
    }
    match root_pattern_target(program, pattern) {
        Some(target) => resolve_variant(&program.hir, target).is_some(),
        None => false,
    }
}

/// Whether some pattern of a match tests the tag of the subject.
pub fn match_uses_root_tag(program: &TypedProgram, arms: &Vec<MatchArm>) -> (r: bool)
    ensures
        r == uses_tag(*program, arms@),
{
    let mut i: usize = 0;
    while i < arms.len()
        invariant
            i <= arms.len(),
            forall|a: int, b: int|
                0 <= a < i && 0 <= b < arms@[a].pats@.len() ==> !tests_tag(
                    *program,
                    #[trigger] arms@[a].pats@[b],
                ),
        decreases arms.len() - i,
    {
        let pats = &arms[i].pats;
        let mut j: usize = 0;
        while j < pats.len()
            invariant
                i < arms.len(),
                j <= pats.len(),
                *pats == arms@[i as int].pats,
                forall|b: int| 0 <= b < j ==> !tests_tag(*program, #[trigger] pats@[b]),
            decreases pats.len() - j,
        {
            if pattern_tests_tag(program, &pats[j]) {
                proof {
                    assert(tests_tag(*program, arms@[i as int].pats@[j as int]));
                }
                return true;
            }
            j += 1;
        }
        i += 1;
    }
    false
}

/// Whether some pattern of a match tests for one side of a result.
pub fn match_uses_root_result_tag(program: &TypedProgram, arms: &Vec<MatchArm>) -> (r: bool)
    ensures
        r == uses_result_tag(*program, arms@),
{
    let mut i: usize = 0;
    while i < arms.len()
        invariant
            i <= arms.len(),
            forall|a: int, b: int|
                0 <= a < i && 0 <= b < arms@[a].pats@.len() ==> !tests_result(
                    *program,
                    #[trigger] arms@[a].pats@[b],
                ),
        decreases arms.len() - i,
    {
        let pats = &arms[i].pats;
        let mut j: usize = 0;
        while j < pats.len()
            invariant
                i < arms.len(),
                j <= pats.len(),
                *pats == arms@[i as int].pats,
                forall|b: int| 0 <= b < j ==> !tests_result(*program, #[trigger] pats@[b]),
            decreases pats.len() - j,
        {
            if pattern_tests_result(program, &pats[j]) {
                proof {
                    assert(tests_result(*program, arms@[i as int].pats@[j as int]));
                }
                return true;
            }
            j += 1;
        }
        i += 1;
    }
    false
}

// ---------------------------------------------------------------------------
// Exhaustive matches.
// ---------------------------------------------------------------------------

/// What the patterns read so far cover.
pub struct Cover {
    pub some: bool,
    pub none: bool,
    pub ok: bool,
    pub err: bool,
    pub builtin: bool,
    pub yes: bool,
    pub no: bool,
    pub owner: Option<DefId>,
    pub variants: Seq<DefId>,
    /// Whether a pattern has settled the answer.
    pub decided: Option<bool>,
}

impl Cover {
    pub open spec fn empty() -> Cover {
        Cover {
            some: false,
            none: false,
            ok: false,
            err: false,
            builtin: false,
            yes: false,
            no: false,
            owner: None,
            variants: Seq::empty(),
            decided: None,
        }
    }

    /// One more pattern. A wildcard covers everything; patterns of two enums
    /// cover nothing together.
    pub open spec fn add_pattern(self, program: TypedProgram, pattern: Pattern) -> Cover {
        if self.decided is Some {
            self
        } else {
            match pattern {
                Pattern::Wildcard => Cover { decided: Some(true), ..self },
                Pattern::Binding(_, _) => Cover { decided: Some(true), ..self },
                Pattern::Literal(expression) => match expression.kind {
                    ExprKind::Bool(value) => if value {
                        Cover { yes: true, ..self }
                    } else {
                        Cover { no: true, ..self }
                    },
                    _ => self,
                },
                _ => match root_target(program, pattern) {
                    Some(ResolvedTarget::Builtin(builtin)) => Cover {
                        some: self.some || builtin == BuiltinId::VariantOptionSome,
                        none: self.none || builtin == BuiltinId::VariantOptionNone,
                        ok: self.ok || builtin == BuiltinId::VariantResultOk,
                        err: self.err || builtin == BuiltinId::VariantResultErr,
                        builtin: true,
                        ..self
                    },
                    Some(target) => match variant_of(program.hir, target) {
                        Some((owner, variant, _)) => if self.owner is Some && self.owner != Some(
                            owner,
                        ) {
                            Cover { decided: Some(false), ..self }
                        } else {
                            Cover {
                                owner: Some(owner),
                                variants: if self.variants.contains(variant) {
                                    self.variants
                                } else {
                                    self.variants.push(variant)
                                },
                                ..self
                            }
                        },
                        None => self,
                    },
                    None => self,
                },
            }
        }
    }

    pub open spec fn add_patterns(self, program: TypedProgram, list: Seq<Pattern>, from: int) -> Cover
        decreases list.len() - from,
    {
        if from < 0 || from >= list.len() {
            self
        } else {
            self.add_pattern(program, list[from]).add_patterns(program, list, from + 1)
        }
    }

    pub open spec fn add_arms(self, program: TypedProgram, arms: Seq<MatchArm>, from: int) -> Cover
        decreases arms.len() - from,
    {
        if from < 0 || from >= arms.len() {
            self
        } else {
            self.add_patterns(program, arms[from].pats@, 0).add_arms(program, arms, from + 1)
        }
    }

    /// Whether everything is covered.
    pub open spec fn is_complete(self, hir: ResolvedHir) -> bool {
        match self.decided {
            Some(answer) => answer,
            None => if (self.some && self.none) || (self.ok && self.err) || (self.yes && self.no) {
                true
            } else {
                match self.owner {
                    None => false,
                    Some(owner) => !self.builtin && !self.yes && !self.no && self.variants.len()
                        == variant_count(hir.enum_variants.entries@, owner, 0),
                }
            },
        }
    }
}

/// The number of variants of an enum, from `from` on.
pub open spec fn variant_count(
    entries: Seq<((DefId, String), DefId)>,
    owner: DefId,
    from: int,
) -> nat
    decreases entries.len() - from,
{
    if from < 0 || from >= entries.len() {
        0
    } else {
        variant_count(entries, owner, from + 1) + if entries[from].0.0 == owner {
            1nat
        } else {
            0nat
        }
    }
}

/// Whether the patterns of a match cover every value of its subject.
pub open spec fn is_exhaustive(program: TypedProgram, arms: Seq<MatchArm>) -> bool {
    Cover::empty().add_arms(program, arms, 0).is_complete(program.hir)
}

struct Coverage {
    some: bool,
    none: bool,
    ok: bool,
    err: bool,
    builtin: bool,
    yes: bool,
    no: bool,
    owner: Option<DefId>,
    variants: Vec<DefId>,
    decided: Option<bool>,
}

impl Coverage {
    spec fn view(&self) -> Cover {
        Cover {
            some: self.some,
            none: self.none,
            ok: self.ok,
            err: self.err,
            builtin: self.builtin,
            yes: self.yes,
            no: self.no,
            owner: self.owner,
            variants: self.variants@,
            decided: self.decided,
        }
    }

    fn add_variant(&mut self, variant: DefId)
        ensures
            final(self)@ == (Cover {
                variants: if old(self)@.variants.contains(variant) {
                    old(self)@.variants
                } else {
                    old(self)@.variants.push(variant)
                },
                ..old(self)@
            }),
    {
        let mut i: usize = 0;
        while i < self.variants.len()
            invariant
                i <= self.variants.len(),
                *self == *old(self),
                forall|k: int| 0 <= k < i ==> #[trigger] self.variants@[k] != variant,
            decreases self.variants.len() - i,
        {
            if self.variants[i] == variant {
                proof {
                    assert(self.variants@[i as int] == variant);
                }
                return ;
            }
            i += 1;
        }
        self.variants.push(variant);
    }

    fn add_pattern(&mut self, program: &TypedProgram, pattern: &Pattern)
        ensures
            final(self)@ == old(self)@.add_pattern(*program, *pattern),
    {
        if self.decided.is_some() {
            return ;
        }
        match pattern {
            Pattern::Wildcard => {
                self.decided = Some(true);
            },
            Pattern::Binding(_, _) => {
                self.decided = Some(true);
            },
            Pattern::Literal(expression) => {
                if let ExprKind::Bool(value) = &expression.kind {
                    if *value {
                        self.yes = true;
                    } else {
                        self.no = true;
                    }
                }
            },
            _ => match root_pattern_target(program, pattern) {
                Some(ResolvedTarget::Builtin(builtin)) => {
                    self.builtin = true;
                    self.some = self.some || builtin == BuiltinId::VariantOptionSome;
                    self.none = self.none || builtin == BuiltinId::VariantOptionNone;
                    self.ok = self.ok || builtin == BuiltinId::VariantResultOk;
                    self.err = self.err || builtin == BuiltinId::VariantResultErr;
                },
                Some(target) => {
                    if let Some((owner, variant, _)) = resolve_variant(&program.hir, target) {
                        let other = match self.owner {
                            Some(existing) => existing != owner,
                            None => false,
                        };
                        if other {
                            self.decided = Some(false);
                        } else {
                            self.owner = Some(owner);
                            self.add_variant(variant);
                        }
                    }
                },
                None => {},
            },
        }
    }
}

/// Whether the patterns of a match cover every value of its subject.
pub fn match_is_exhaustive(program: &TypedProgram, arms: &Vec<MatchArm>) -> (r: bool)
    ensures
        r == is_exhaustive(*program, arms@),
{
    let mut cover = Coverage {
        some: false,
        none: false,
        ok: false,
        err: false,
        builtin: false,
        yes: false,
        no: false,
        owner: None,
        variants: Vec::new(),
        decided: None,
    };
    let ghost start = cover@;
    proof {
        assert(start == Cover::empty());
    }
    let mut i: usize = 0;
    while i < arms.len()
        invariant
            i <= arms.len(),
            cover@.add_arms(*program, arms@, i as int) == start.add_arms(*program, arms@, 0),
        decreases arms.len() - i,
    {
        let pats = &arms[i].pats;
        let ghost before = cover@;
        let mut j: usize = 0;
        while j < pats.len()
            invariant
                j <= pats.len(),
                cover@.add_patterns(*program, pats@, j as int) == before.add_patterns(
                    *program,
                    pats@,
                    0,
                ),
            decreases pats.len() - j,
        {
            cover.add_pattern(program, &pats[j]);
            j += 1;
        }
        i += 1;
    }
    if let Some(answer) = cover.decided {
        return answer;
    }
    if (cover.some && cover.none) || (cover.ok && cover.err) || (cover.yes && cover.no) {
        return true;
    }
    let owner = match cover.owner {
        Some(owner) => owner,
        None => {
            return false;
        },
    };
    if cover.builtin || cover.yes || cover.no {
        return false;
    }
    let entries = &program.hir.enum_variants.entries;
    let mut k: usize = 0;
    let mut count: usize = 0;
    while k < entries.len()
        invariant
            k <= entries.len(),
            count <= k,
            count + variant_count(entries@, owner, k as int) == variant_count(entries@, owner, 0),
        decreases entries.len() - k,
    {
        if entries[k].0.0 == owner {
            count += 1;
        }
        k += 1;
    }
    cover.variants.len() == count
}

} // verus!
