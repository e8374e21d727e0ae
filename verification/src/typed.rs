//! The typed program that code generation reads: the resolved syntax with the
//! facts that type checking has established.

use vstd::prelude::*;

use crate::annotations::AnnotationIndex;
use crate::ast::{ExprId, PatternId, Program};
use crate::hir::{DefId, ImplTarget, ModuleId, ResolvedHir, ResolvedTarget};
use crate::table::{KeySet, Table};

verus! {

/// Where the items of an iterator chain come from.
#[derive(Clone, Copy, Debug, PartialEq, Eq, Structural)]
pub enum IterSourceKind {
    ExclusiveRange,
    InclusiveRange,
    Vec,
    VecIter,
    VecIntoIter,
    StringChars,
    StringSplit,
}

/// What one step of an iterator chain does with the items.
#[derive(Clone, Copy, Debug, PartialEq, Eq, Structural)]
pub enum IterAdapterKind {
    MapItems,
    Filter,
    FilterMap,
    Enumerate,
    Skip,
    Take,
}

/// What the end of an iterator chain does with the items.
#[derive(Clone, Copy, Debug, PartialEq, Eq, Structural)]
pub enum IterConsumerKind {
    For,
    CollectVec,
    Fold,
    Count,
    Any,
    All,
    Find,
    Next,
}

/// An iterator chain that compiles to one loop.
#[derive(Debug)]
pub struct IterPlan {
    pub source: IterSourceKind,
    pub adapters: Vec<IterAdapterKind>,
    pub consumer: IterConsumerKind,
}

/// What the right operand of a membership test is.
#[derive(Clone, Copy, Debug, PartialEq, Eq, Structural)]
pub enum ContainsKind {
    Vec,
    HashMap,
    String,
    Iter,
}

/// How a call of a user method is dispatched.
#[derive(Clone, Copy, Debug, PartialEq, Eq, Structural)]
pub enum UserMethodDispatch {
    Static(DefId),
    Dynamic,
}

/// What type checking knows of single expressions.
#[derive(Debug)]
pub struct TypeInfo {
    pub iter_plans: Table<ExprId, IterPlan>,
    pub pure_operators: KeySet<ExprId>,
    pub option_maps: KeySet<ExprId>,
    pub str_methods: KeySet<ExprId>,
    pub result_tries: KeySet<ExprId>,
    pub contains_kinds: Table<ExprId, ContainsKind>,
    pub int_divs: KeySet<ExprId>,
    pub int_rems: KeySet<ExprId>,
    pub str_concats: KeySet<ExprId>,
    pub standard_methods: Table<ExprId, DefId>,
    pub user_methods: Table<ExprId, UserMethodDispatch>,
}

/// A program that has passed every check.
#[derive(Debug)]
pub struct TypedProgram {
    pub syntax: Program,
    pub hir: ResolvedHir,
    pub types: TypeInfo,
    pub annotations: AnnotationIndex,
    /// The only public type of each module that has exactly one.
    pub single_public_types: Table<ModuleId, DefId>,
}

impl TypedProgram {
    /// The definition of a source item.
    pub open spec fn spec_item_definition(&self, module: ModuleId, index: usize) -> Option<DefId> {
        match self.hir.item_targets.at((module, index)) {
            Some(ResolvedTarget::Item(definition)) => Some(definition),
            _ => None,
        }
    }

    /// The module that a source item declares.
    pub open spec fn spec_child_module(&self, module: ModuleId, index: usize) -> Option<ModuleId> {
        match self.hir.item_targets.at((module, index)) {
            Some(ResolvedTarget::Module(child)) => Some(child),
            _ => None,
        }
    }

    /// What a path expression refers to.
    pub open spec fn spec_expression_target(&self, id: ExprId) -> ResolvedTarget {
        match self.hir.expression_targets.at(id) {
            Some(target) => target,
            None => ResolvedTarget::Error,
        }
    }

    /// What a path pattern refers to.
    pub open spec fn spec_pattern_target(&self, id: PatternId) -> ResolvedTarget {
        match self.hir.pattern_targets.at(id) {
            Some(target) => target,
            None => ResolvedTarget::Error,
        }
    }

    /// The definition of a source item.
    pub fn item_definition(&self, module: ModuleId, index: usize) -> (r: Option<DefId>)
        ensures
            r == self.spec_item_definition(module, index),
    {
        match self.hir.item_targets.get(&(module, index)) {
            Some(ResolvedTarget::Item(definition)) => Some(*definition),
            _ => None,
        }
    }

    /// The module that a source item declares.
    pub fn child_module(&self, module: ModuleId, index: usize) -> (r: Option<ModuleId>)
        ensures
            r == self.spec_child_module(module, index),
    {
        match self.hir.item_targets.get(&(module, index)) {
            Some(ResolvedTarget::Module(child)) => Some(*child),
            _ => None,
        }
    }

    /// What a path expression refers to.
    pub fn expression_target(&self, id: ExprId) -> (r: ResolvedTarget)
        ensures
            r == self.spec_expression_target(id),
    {
        match self.hir.expression_targets.get(&id) {
            Some(target) => *target,
            None => ResolvedTarget::Error,
        }
    }

    /// What a path pattern refers to.
    pub fn pattern_target(&self, id: PatternId) -> (r: ResolvedTarget)
        ensures
            r == self.spec_pattern_target(id),
    {
        match self.hir.pattern_targets.get(&id) {
            Some(target) => *target,
            None => ResolvedTarget::Error,
        }
    }

    /// What an implementation block implements.
    pub fn implementation(&self, module: ModuleId, index: usize) -> (r: Option<ImplTarget>)
        ensures
            r == self.hir.impl_targets.at((module, index)),
    {
        match self.hir.impl_targets.get(&(module, index)) {
            Some(target) => Some(*target),
            None => None,
        }
    }
}

} // verus!
