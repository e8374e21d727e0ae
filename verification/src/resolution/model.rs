//! The resolved program over mathematical collections.

use vstd::prelude::*;

use crate::ast::{ExprId, PatternId, TraitRefId, TypeId};
use crate::builtins::{BuiltinId, BuiltinTraitId, LanguageItem, RuntimeModule};
use crate::diag::{DiagRecord, StructuredDiagnostic};
use crate::hir::{
    DefData, DefId, DefKind, ImplTarget, LocalData, LocalId, ModuleData, ModuleId, ResolvedHir,
    ResolvedImport, ResolvedTarget, TraitTarget, TypeTarget,
};
use crate::table::Table;
use crate::text::texts;
use crate::token::SourceRange;

verus! {

/// The names that the compiler knows by itself.
#[derive(Debug)]
pub struct BuiltinNames {
    pub types: Table<String, BuiltinId>,
    pub values: Table<String, BuiltinId>,
    pub macros: Table<String, BuiltinId>,
    pub traits: Table<String, BuiltinTraitId>,
}

/// A module with the names it declares.
pub struct ModuleRecord {
    pub id: ModuleId,
    pub parent: Option<ModuleId>,
    pub path: Seq<Seq<char>>,
    pub file: u32,
    pub is_file: bool,
    pub is_declaration: bool,
    pub is_public: bool,
    pub values: Map<Seq<char>, DefId>,
    pub types: Map<Seq<char>, DefId>,
    pub modules: Map<Seq<char>, ModuleId>,
}

pub struct DefRecord {
    pub id: DefId,
    pub module: ModuleId,
    pub name: Seq<char>,
    pub kind: DefKind,
    pub is_public: bool,
}

pub struct LocalRecord {
    pub id: LocalId,
    pub name: Seq<char>,
    pub module: ModuleId,
    pub is_mutable: bool,
}

pub struct ImportRecord {
    pub module: ModuleId,
    pub name: Seq<char>,
    pub target: ResolvedTarget,
}

/// The resolved program.
pub struct HirModel {
    pub root: ModuleId,
    pub modules: Seq<ModuleRecord>,
    pub definitions: Seq<DefRecord>,
    pub locals: Seq<LocalRecord>,
    pub item_targets: Map<(ModuleId, usize), ResolvedTarget>,
    pub enum_variant_targets: Map<(DefId, usize), DefId>,
    pub trait_method_targets: Map<(DefId, usize), DefId>,
    pub impl_method_targets: Map<(ModuleId, (usize, usize)), DefId>,
    pub extern_function_targets: Map<(ModuleId, (usize, usize)), DefId>,
    pub expression_targets: Map<ExprId, ResolvedTarget>,
    pub pattern_targets: Map<PatternId, ResolvedTarget>,
    pub type_targets: Map<TypeId, TypeTarget>,
    pub trait_ref_targets: Map<TraitRefId, TraitTarget>,
    pub enum_variants: Map<(DefId, Seq<char>), DefId>,
    pub associated_items: Map<(DefId, Seq<char>), DefId>,
    pub trait_items: Map<(DefId, Seq<char>), DefId>,
    pub type_traits: Seq<(DefId, TraitTarget)>,
    pub method_origins: Map<DefId, DefId>,
    pub trait_method_implementations: Map<DefId, DefId>,
    pub trait_default_methods: Set<DefId>,
    pub method_traits: Map<DefId, TraitTarget>,
    pub impl_targets: Map<(ModuleId, usize), ImplTarget>,
    pub imports: Seq<ImportRecord>,
    pub diagnostics: Seq<DiagRecord>,
    pub binding_targets: Map<SourceRange, LocalId>,
    pub language_items: Map<DefId, LanguageItem>,
    pub standard_runtimes: Map<DefId, RuntimeModule>,
    pub named_runtimes: Map<Seq<char>, RuntimeModule>,
    pub runtime_helpers: Map<Seq<char>, RuntimeModule>,
}

impl ModuleData {
    pub open spec fn record(self) -> ModuleRecord {
        ModuleRecord {
            id: self.id,
            parent: self.parent,
            path: texts(self.path@),
            file: self.file,
            is_file: self.is_file,
            is_declaration: self.is_declaration,
            is_public: self.is_public,
            values: self.scope.values@,
            types: self.scope.types@,
            modules: self.scope.modules@,
        }
    }
}

impl DefData {
    pub open spec fn record(self) -> DefRecord {
        DefRecord {
            id: self.id,
            module: self.module,
            name: self.name@,
            kind: self.kind,
            is_public: self.is_public,
        }
    }
}

impl LocalData {
    pub open spec fn record(self) -> LocalRecord {
        LocalRecord {
            id: self.id,
            name: self.name@,
            module: self.module,
            is_mutable: self.is_mutable,
        }
    }
}

impl ResolvedImport {
    pub open spec fn record(self) -> ImportRecord {
        ImportRecord { module: self.module, name: self.name@, target: self.target }
    }
}

pub open spec fn module_records(list: Seq<ModuleData>) -> Seq<ModuleRecord> {
    Seq::new(list.len(), |i: int| list[i].record())
}

pub open spec fn def_records(list: Seq<DefData>) -> Seq<DefRecord> {
    Seq::new(list.len(), |i: int| list[i].record())
}

pub open spec fn local_records(list: Seq<LocalData>) -> Seq<LocalRecord> {
    Seq::new(list.len(), |i: int| list[i].record())
}

pub open spec fn import_records(list: Seq<ResolvedImport>) -> Seq<ImportRecord> {
    Seq::new(list.len(), |i: int| list[i].record())
}

pub open spec fn diag_records(list: Seq<StructuredDiagnostic>) -> Seq<DiagRecord> {
    Seq::new(list.len(), |i: int| list[i].record())
}

impl ResolvedHir {
    pub open spec fn view(&self) -> HirModel {
        HirModel {
            root: self.root,
            modules: module_records(self.modules@),
            definitions: def_records(self.definitions@),
            locals: local_records(self.locals@),
            item_targets: self.item_targets@,
            enum_variant_targets: self.enum_variant_targets@,
            trait_method_targets: self.trait_method_targets@,
            impl_method_targets: self.impl_method_targets@,
            extern_function_targets: self.extern_function_targets@,
            expression_targets: self.expression_targets@,
            pattern_targets: self.pattern_targets@,
            type_targets: self.type_targets@,
            trait_ref_targets: self.trait_ref_targets@,
            enum_variants: self.enum_variants@,
            associated_items: self.associated_items@,
            trait_items: self.trait_items@,
            type_traits: self.type_traits@,
            method_origins: self.method_origins@,
            trait_method_implementations: self.trait_method_implementations@,
            trait_default_methods: self.trait_default_methods@,
            method_traits: self.method_traits@,
            impl_targets: self.impl_targets@,
            imports: import_records(self.imports@),
            diagnostics: diag_records(self.diagnostics@),
            binding_targets: self.binding_targets@,
            language_items: self.language_items@,
            standard_runtimes: self.standard_runtimes@,
            named_runtimes: self.named_runtimes@,
            runtime_helpers: self.runtime_helpers@,
        }
    }
}

impl HirModel {
    pub open spec fn has_definition(self, id: DefId) -> bool {
        (id.0 as int) < self.definitions.len()
    }

    pub open spec fn definition(self, id: DefId) -> DefRecord {
        self.definitions[id.0 as int]
    }

    pub open spec fn has_module(self, id: ModuleId) -> bool {
        (id.0 as int) < self.modules.len()
    }

    pub open spec fn module(self, id: ModuleId) -> ModuleRecord {
        self.modules[id.0 as int]
    }
}

} // verus!
