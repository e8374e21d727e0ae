//! Semantic identities and the side tables of name resolution.

use vstd::prelude::*;

use crate::ast::{ExprId, GenericParamId, PatternId, TraitRefId, Type, TypeId};
use crate::builtins::{BuiltinId, BuiltinTraitId, LanguageItem, RuntimeModule};
use crate::diag::StructuredDiagnostic;
use crate::table::{Key, KeySet, Table};
use crate::text::{cat3, copy_texts, join, joined, texts};
use crate::token::SourceRange;

verus! {

/// A module of the program.
#[derive(Clone, Copy, Debug, PartialEq, Eq, PartialOrd, Ord, Hash, Structural)]
pub struct ModuleId(pub u32);

impl ModuleId {
    /// The identity with this number.
    pub fn new(raw: u32) -> (r: Self)
        ensures
            r == ModuleId(raw),
    {
        ModuleId(raw)
    }

    /// The number as an index.
    pub fn index(self) -> (r: usize)
        ensures
            r == self.0,
    {
        self.0 as usize
    }
}

impl Key for ModuleId {
    type Model = ModuleId;

    open spec fn key(&self) -> ModuleId {
        *self
    }

    fn same(&self, other: &Self) -> (r: bool) {
        *self == *other
    }
}

/// A definition of the program.
#[derive(Clone, Copy, Debug, PartialEq, Eq, PartialOrd, Ord, Hash, Structural)]
pub struct DefId(pub u32);

impl DefId {
    /// The identity with this number.
    pub fn new(raw: u32) -> (r: Self)
        ensures
            r == DefId(raw),
    {
        DefId(raw)
    }

    /// The number as an index.
    pub fn index(self) -> (r: usize)
        ensures
            r == self.0,
    {
        self.0 as usize
    }
}

impl Key for DefId {
    type Model = DefId;

    open spec fn key(&self) -> DefId {
        *self
    }

    fn same(&self, other: &Self) -> (r: bool) {
        *self == *other
    }
}

/// A local binding.
#[derive(Clone, Copy, Debug, PartialEq, Eq, PartialOrd, Ord, Hash, Structural)]
pub struct LocalId(pub u32);

impl LocalId {
    /// The identity with this number.
    pub fn new(raw: u32) -> (r: Self)
        ensures
            r == LocalId(raw),
    {
        LocalId(raw)
    }

    /// The number as an index.
    pub fn index(self) -> (r: usize)
        ensures
            r == self.0,
    {
        self.0 as usize
    }
}

impl Key for LocalId {
    type Model = LocalId;

    open spec fn key(&self) -> LocalId {
        *self
    }

    fn same(&self, other: &Self) -> (r: bool) {
        *self == *other
    }
}

/// A function that the host provides.
#[derive(Clone, Copy, Debug, PartialEq, Eq, PartialOrd, Ord, Hash, Structural)]
pub struct ExternId(pub u32);

impl ExternId {
    /// The identity with this number.
    pub fn new(raw: u32) -> (r: Self)
        ensures
            r == ExternId(raw),
    {
        ExternId(raw)
    }

    /// The number as an index.
    pub fn index(self) -> (r: usize)
        ensures
            r == self.0,
    {
        self.0 as usize
    }
}

impl Key for ExternId {
    type Model = ExternId;

    open spec fn key(&self) -> ExternId {
        *self
    }

    fn same(&self, other: &Self) -> (r: bool) {
        *self == *other
    }
}

impl Key for SourceRange {
    type Model = SourceRange;

    open spec fn key(&self) -> SourceRange {
        *self
    }

    fn same(&self, other: &Self) -> (r: bool) {
        *self == *other
    }
}

#[derive(Clone, Copy, Debug, PartialEq, Eq, Structural)]
pub enum Namespace {
    Value,
    Type,
    Module,
}

#[derive(Clone, Copy, Debug, PartialEq, Eq, Structural)]
pub enum VariantShape {
    Unit,
    Tuple,
    Struct,
}

#[derive(Clone, Copy, Debug, PartialEq, Eq, Structural)]
pub enum DefKind {
    Annotation,
    Function,
    Struct,
    Enum,
    EnumVariant { owner: DefId, shape: VariantShape },
    Trait,
    TraitMethod { owner: DefId },
    Method { owner: DefId },
    ExternFunction { extern_id: ExternId },
}

#[derive(Debug)]
pub struct DefData {
    pub id: DefId,
    pub module: ModuleId,
    pub name: String,
    pub kind: DefKind,
    pub is_public: bool,
}

#[derive(Debug)]
pub struct ModuleScope {
    pub values: Table<String, DefId>,
    pub types: Table<String, DefId>,
    pub modules: Table<String, ModuleId>,
}

#[derive(Debug)]
pub struct ModuleData {
    pub id: ModuleId,
    pub parent: Option<ModuleId>,
    /// The segments of the module path; the root has none.
    pub path: Vec<String>,
    pub file: u32,
    pub is_file: bool,
    pub is_declaration: bool,
    pub is_public: bool,
    pub scope: ModuleScope,
}

/// What a path refers to.
#[derive(Clone, Copy, Debug, PartialEq, Eq, Structural)]
pub enum ResolvedTarget {
    Local(LocalId),
    Item(DefId),
    Module(ModuleId),
    Builtin(BuiltinId),
    Extern(ExternId),
    Error,
}

#[derive(Clone, Copy, Debug, PartialEq, Eq, PartialOrd, Ord, Hash, Structural)]
pub enum TraitTarget {
    Item(DefId),
    Builtin(BuiltinTraitId),
}

impl Key for TraitTarget {
    type Model = TraitTarget;

    open spec fn key(&self) -> TraitTarget {
        *self
    }

    fn same(&self, other: &Self) -> (r: bool) {
        *self == *other
    }
}

#[derive(Clone, Copy, Debug, PartialEq, Eq, Structural)]
pub enum PrimitiveType {
    I64,
    F64,
    Bool,
    Box,
}

#[derive(Clone, Copy, Debug, PartialEq, Eq, Structural)]
pub enum TypeTarget {
    Primitive(PrimitiveType),
    Builtin(BuiltinId),
    Item(DefId),
    Generic(GenericParamId),
    SelfType,
    Infer,
    Error,
}

#[derive(Clone, Copy, Debug, PartialEq, Eq, Structural)]
pub struct ImplTarget {
    pub owner: DefId,
    pub trait_target: Option<TraitTarget>,
}

#[derive(Debug)]
pub struct LocalData {
    pub id: LocalId,
    pub name: String,
    pub module: ModuleId,
    pub is_mutable: bool,
}

#[derive(Debug)]
pub struct ResolvedImport {
    pub module: ModuleId,
    pub name: String,
    pub target: ResolvedTarget,
}

/// The resolved program: every declaration with its identity, and what each
/// path in the source refers to.
#[derive(Debug)]
pub struct ResolvedHir {
    pub root: ModuleId,
    pub modules: Vec<ModuleData>,
    pub definitions: Vec<DefData>,
    pub locals: Vec<LocalData>,
    /// The identity of each source item, by its module and its place in it.
    pub item_targets: Table<(ModuleId, usize), ResolvedTarget>,
    pub enum_variant_targets: Table<(DefId, usize), DefId>,
    pub trait_method_targets: Table<(DefId, usize), DefId>,
    pub impl_method_targets: Table<(ModuleId, (usize, usize)), DefId>,
    pub extern_function_targets: Table<(ModuleId, (usize, usize)), DefId>,
    pub expression_targets: Table<ExprId, ResolvedTarget>,
    pub pattern_targets: Table<PatternId, ResolvedTarget>,
    pub type_targets: Table<TypeId, TypeTarget>,
    pub trait_ref_targets: Table<TraitRefId, TraitTarget>,
    pub enum_variants: Table<(DefId, String), DefId>,
    pub associated_items: Table<(DefId, String), DefId>,
    pub trait_items: Table<(DefId, String), DefId>,
    /// Each type with each trait that it implements, in order.
    pub type_traits: Vec<(DefId, TraitTarget)>,
    /// An inherited method with the trait method that it comes from.
    pub method_origins: Table<DefId, DefId>,
    /// A method of an implementation with the trait method that it implements.
    pub trait_method_implementations: Table<DefId, DefId>,
    pub trait_default_methods: KeySet<DefId>,
    pub method_traits: Table<DefId, TraitTarget>,
    pub impl_targets: Table<(ModuleId, usize), ImplTarget>,
    pub imports: Vec<ResolvedImport>,
    pub diagnostics: Vec<StructuredDiagnostic>,
    /// The local that each binding name introduces.
    pub binding_targets: Table<SourceRange, LocalId>,
    pub language_items: Table<DefId, LanguageItem>,
    pub standard_runtimes: Table<DefId, RuntimeModule>,
    pub named_runtimes: Table<String, RuntimeModule>,
    pub runtime_helpers: Table<String, RuntimeModule>,
}

impl ResolvedHir {
    /// Whether the identity is one of this program.
    pub open spec fn has_definition(&self, id: DefId) -> bool {
        (id.0 as int) < self.definitions@.len()
    }

    /// The definition with this identity.
    pub open spec fn spec_definition(&self, id: DefId) -> DefData {
        self.definitions@[id.0 as int]
    }

    /// Whether the identity is one of this program.
    pub open spec fn has_module(&self, id: ModuleId) -> bool {
        (id.0 as int) < self.modules@.len()
    }

    /// The module with this identity.
    pub open spec fn spec_module(&self, id: ModuleId) -> ModuleData {
        self.modules@[id.0 as int]
    }

    /// The definition with this identity.
    pub fn definition(&self, id: DefId) -> (r: &DefData)
        requires
            self.has_definition(id),
        ensures
            *r == self.spec_definition(id),
    {
        &self.definitions[id.index()]
    }

    /// The definition with this identity, where there is one.
    pub fn find_definition(&self, id: DefId) -> (r: Option<&DefData>)
        ensures
            match r {
                Some(data) => self.has_definition(id) && *data == self.spec_definition(id),
                None => !self.has_definition(id),
            },
    {
        if id.index() < self.definitions.len() {
            Some(&self.definitions[id.index()])
        } else {
            None
        }
    }

    /// The module with this identity.
    pub fn module(&self, id: ModuleId) -> (r: &ModuleData)
        requires
            self.has_module(id),
        ensures
            *r == self.spec_module(id),
    {
        &self.modules[id.index()]
    }

    /// The module with this identity, where there is one.
    pub fn find_module(&self, id: ModuleId) -> (r: Option<&ModuleData>)
        ensures
            match r {
                Some(data) => self.has_module(id) && *data == self.spec_module(id),
                None => !self.has_module(id),
            },
    {
        if id.index() < self.modules.len() {
            Some(&self.modules[id.index()])
        } else {
            None
        }
    }

    /// Whether a type is a path to this builtin.
    pub open spec fn spec_type_is_builtin(&self, ty: Type, builtin: BuiltinId) -> bool {
        ty matches Type::Path { id, .. } && self.type_targets.at(id) == Some(
            TypeTarget::Builtin(builtin),
        )
    }

    /// Whether a type is a path to this builtin.
    pub fn type_is_builtin(&self, ty: &Type, builtin: BuiltinId) -> (r: bool)
        ensures
            r == self.spec_type_is_builtin(*ty, builtin),
    {
        match ty {
            Type::Path { id, .. } => match self.type_targets.get(id) {
                Some(TypeTarget::Builtin(found)) => *found == builtin,
                _ => false,
            },
            _ => false,
        }
    }

    /// The definition behind a target.
    pub open spec fn spec_definition_for_target(&self, target: ResolvedTarget) -> Option<DefId> {
        match target {
            ResolvedTarget::Item(definition) => Some(definition),
            ResolvedTarget::Extern(external) => extern_definition(self.definitions@, external, 0),
            _ => None,
        }
    }

    /// The definition behind a target.
    pub fn definition_for_target(&self, target: ResolvedTarget) -> (r: Option<DefId>)
        ensures
            r == self.spec_definition_for_target(target),
    {
        match target {
            ResolvedTarget::Item(definition) => Some(definition),
            ResolvedTarget::Extern(external) => {
                let mut i: usize = 0;
                while i < self.definitions.len()
                    invariant
                        i <= self.definitions.len(),
                        target == ResolvedTarget::Extern(external),
                        extern_definition(self.definitions@, external, i as int)
                            == extern_definition(self.definitions@, external, 0),
                    decreases self.definitions.len() - i,
                {
                    if let DefKind::ExternFunction { extern_id } = self.definitions[i].kind {
                        if extern_id == external {
                            return Some(self.definitions[i].id);
                        }
                    }
                    i += 1;
                }
                None
            },
            _ => None,
        }
    }
}

/// The first definition from `from` on that declares this host function.
pub open spec fn extern_definition(
    definitions: Seq<DefData>,
    external: ExternId,
    from: int,
) -> Option<DefId>
    decreases definitions.len() - from,
{
    if from < 0 || from >= definitions.len() {
        None
    } else if definitions[from].kind == (DefKind::ExternFunction { extern_id: external }) {
        Some(definitions[from].id)
    } else {
        extern_definition(definitions, external, from + 1)
    }
}

/// The qualified name of a definition. `fuel` bounds the chain of owners.
pub open spec fn qualified(hir: ResolvedHir, id: DefId, fuel: nat) -> Seq<char>
    decreases fuel,
{
    if fuel == 0 || !hir.has_definition(id) {
        Seq::empty()
    } else {
        let data = hir.spec_definition(id);
        match data.kind {
            DefKind::EnumVariant { owner, .. }
            | DefKind::TraitMethod { owner }
            | DefKind::Method { owner } => qualified(hir, owner, (fuel - 1) as nat) + "::"@
                + data.name@,
            _ => joined(
                (if hir.has_module(data.module) {
                    texts(hir.spec_module(data.module).path@)
                } else {
                    Seq::empty()
                }).push(data.name@),
                "::"@,
            ),
        }
    }
}

/// The qualified name of a definition: the path of its module or its owner, and
/// its own name.
pub open spec fn qualified_name(hir: ResolvedHir, id: DefId) -> Seq<char> {
    qualified(hir, id, hir.definitions@.len())
}

fn qualified_within(hir: &ResolvedHir, id: DefId, depth: usize) -> (r: String)
    ensures
        r@ == qualified(*hir, id, depth as nat),
    decreases depth,
{
    if depth == 0 {
        return String::new();
    }
    let data = match hir.find_definition(id) {
        Some(data) => data,
        None => {
            return String::new();
        },
    };
    let owner = match data.kind {
        DefKind::EnumVariant { owner, .. } => Some(owner),
        DefKind::TraitMethod { owner } => Some(owner),
        DefKind::Method { owner } => Some(owner),
        _ => None,
    };
    match owner {
        Some(owner) => cat3(
            qualified_within(hir, owner, depth - 1).as_str(),
            "::",
            data.name.as_str(),
        ),
        None => {
            let mut segments = match hir.find_module(data.module) {
                Some(module) => copy_texts(&module.path),
                None => Vec::new(),
            };
            let ghost before = segments@;
            segments.push(data.name.clone());
            proof {
                assert(texts(segments@) =~= texts(before).push(data.name@));
                if !hir.has_module(data.module) {
                    assert(texts(before) =~= Seq::empty());
                }
            }
            join(&segments, "::")
        },
    }
}

/// The qualified name of a definition.
pub fn qualified_definition_name(hir: &ResolvedHir, id: DefId) -> (r: String)
    ensures
        r@ == qualified_name(*hir, id),
{
    qualified_within(hir, id, hir.definitions.len())
}

} // verus!
