//! Resolution of a whole program.

use vstd::prelude::*;

use super::bodies::{b_block, Body, BodyResolver};
use super::declare::{one_argument, push_argument};
use super::keeping::law_resolution_leaves_the_library_alone;
use super::members::{collect_declarations, declarations_of, trait_named};
use super::model::{BuiltinNames, HirModel, ImportRecord};
use super::paths::{barrier, canonical_value, child_module, path_target};
use super::types::{imported_type, t_block, t_option, t_type, t_types, Scope, ScopeRef};
use crate::ast::{
    Block, ExternFn, Field, FnDecl, GenericParam, GenericParamId, Item, Param, Program,
    TraitMethod, TraitRef, Type, UseImport, Variant, VariantKind,
};
use crate::builtins::{BuiltinId, BuiltinTraitId, LanguageItem, RuntimeModule};
use crate::diag::{arguments_model, DiagnosticCode};
use crate::hir::{DefId, ModuleId, Namespace, ResolvedHir, ResolvedImport, ResolvedTarget};
use crate::table::Table;
use crate::text::{join, joined, texts};

verus! {

// ---------------------------------------------------------------------------
// Types of items.
// ---------------------------------------------------------------------------

/// The generic parameters by their names, with those of `list[from..]`.
pub open spec fn with_generics(
    names: Map<Seq<char>, GenericParamId>,
    list: Seq<GenericParam>,
    from: int,
) -> Map<Seq<char>, GenericParamId>
    decreases list.len() - from,
{
    if from < 0 || from >= list.len() {
        names
    } else {
        with_generics(names.insert(list[from].name@, list[from].id), list, from + 1)
    }
}

/// The scope inside generic parameters.
pub open spec fn generic_scope(scope: Scope, outer: Seq<GenericParam>, inner: Seq<GenericParam>) -> Scope {
    Scope { generics: with_generics(with_generics(Map::empty(), outer, 0), inner, 0), ..scope }
}

/// The traits that the bounds `bounds[from..]` name.
pub open spec fn t_bounds(hir: HirModel, scope: Scope, bounds: Seq<TraitRef>, from: int) -> HirModel
    decreases bounds.len() - from,
{
    if from < 0 || from >= bounds.len() {
        hir
    } else {
        let path = bounds[from].path@;
        let next = match trait_named(hir, imported_type(hir, scope, path), scope.traits, path) {
            Some(target) => HirModel {
                trait_ref_targets: hir.trait_ref_targets.insert(bounds[from].id, target),
                ..hir
            },
            None => hir,
        };
        t_bounds(next, scope, bounds, from + 1)
    }
}

/// The traits that bound the parameters `list[from..]`.
pub open spec fn t_generics(hir: HirModel, scope: Scope, list: Seq<GenericParam>, from: int) -> HirModel
    decreases list.len() - from,
{
    if from < 0 || from >= list.len() {
        hir
    } else {
        t_generics(t_bounds(hir, scope, list[from].bounds@, 0), scope, list, from + 1)
    }
}

/// The types of the parameters `list[from..]`.
pub open spec fn t_params(hir: HirModel, scope: Scope, list: Seq<Param>, from: int) -> HirModel
    decreases list.len() - from,
{
    if from < 0 || from >= list.len() {
        hir
    } else {
        t_params(t_type(hir, scope, list[from].ty), scope, list, from + 1)
    }
}

/// The types of the fields `list[from..]`.
pub open spec fn t_declared_fields(hir: HirModel, scope: Scope, list: Seq<Field>, from: int) -> HirModel
    decreases list.len() - from,
{
    if from < 0 || from >= list.len() {
        hir
    } else {
        t_declared_fields(t_type(hir, scope, list[from].ty), scope, list, from + 1)
    }
}

/// The types of the variants `list[from..]`.
pub open spec fn t_variants(hir: HirModel, scope: Scope, list: Seq<Variant>, from: int) -> HirModel
    decreases list.len() - from,
{
    if from < 0 || from >= list.len() {
        hir
    } else {
        let next = match list[from].kind {
            VariantKind::Unit => hir,
            VariantKind::Tuple(types) => t_types(hir, scope, types@, 0),
            VariantKind::Struct(fields) => t_declared_fields(hir, scope, fields@, 0),
        };
        t_variants(next, scope, list, from + 1)
    }
}

/// The types of the methods `list[from..]` of an implementation.
pub open spec fn t_methods(
    hir: HirModel,
    scope: Scope,
    outer: Seq<GenericParam>,
    list: Seq<FnDecl>,
    from: int,
) -> HirModel
    decreases list.len() - from,
{
    if from < 0 || from >= list.len() {
        hir
    } else {
        let method = list[from];
        let inside = generic_scope(scope, outer, method.generics@);
        let hir = t_generics(hir, scope, method.generics@, 0);
        let hir = t_option(t_params(hir, inside, method.params@, 0), inside, method.ret);
        t_methods(t_block(hir, inside, method.body), scope, outer, list, from + 1)
    }
}

/// The types of the methods `list[from..]` of a trait.
pub open spec fn t_trait_methods(
    hir: HirModel,
    scope: Scope,
    outer: Seq<GenericParam>,
    list: Seq<TraitMethod>,
    from: int,
) -> HirModel
    decreases list.len() - from,
{
    if from < 0 || from >= list.len() {
        hir
    } else {
        let method = list[from];
        let inside = generic_scope(scope, outer, method.generics@);
        let hir = t_generics(hir, scope, method.generics@, 0);
        let hir = t_option(t_params(hir, inside, method.params@, 0), inside, method.ret);
        let hir = match method.default {
            Some(body) => t_block(hir, inside, body),
            None => hir,
        };
        t_trait_methods(hir, scope, outer, list, from + 1)
    }
}

/// The types of the host functions `list[from..]`.
pub open spec fn t_externs(hir: HirModel, scope: Scope, list: Seq<ExternFn>, from: int) -> HirModel
    decreases list.len() - from,
{
    if from < 0 || from >= list.len() {
        hir
    } else {
        t_externs(
            t_option(t_params(hir, scope, list[from].params@, 0), scope, list[from].ret),
            scope,
            list,
            from + 1,
        )
    }
}

/// The types of an item.
pub open spec fn t_item(hir: HirModel, scope: Scope, item: Item) -> HirModel {
    match item {
        Item::Annotation(annotation) => t_params(hir, scope, annotation.params@, 0),
        Item::Fn(function) => {
            let inside = generic_scope(scope, function.generics@, Seq::empty());
            let hir = t_generics(hir, scope, function.generics@, 0);
            let hir = t_option(t_params(hir, inside, function.params@, 0), inside, function.ret);
            t_block(hir, inside, function.body)
        },
        Item::Struct(structure) => t_declared_fields(
            t_generics(hir, scope, structure.generics@, 0),
            generic_scope(scope, structure.generics@, Seq::empty()),
            structure.fields@,
            0,
        ),
        Item::Enum(enumeration) => t_variants(
            t_generics(hir, scope, enumeration.generics@, 0),
            generic_scope(scope, enumeration.generics@, Seq::empty()),
            enumeration.variants@,
            0,
        ),
        Item::Impl(implementation) => t_methods(
            t_generics(hir, scope, implementation.generics@, 0),
            scope,
            implementation.generics@,
            implementation.methods@,
            0,
        ),
        Item::Trait(declaration) => t_trait_methods(
            t_generics(hir, scope, declaration.generics@, 0),
            scope,
            declaration.generics@,
            declaration.methods@,
            0,
        ),
        Item::Extern(block) => t_externs(hir, scope, block.fns@, 0),
        _ => hir,
    }
}

/// The types of the items `items[from..]`.
pub open spec fn t_items(hir: HirModel, scope: Scope, items: Seq<Item>, from: int) -> HirModel
    decreases items.len() - from,
{
    if from < 0 || from >= items.len() {
        hir
    } else {
        t_items(t_item(hir, scope, items[from]), scope, items, from + 1)
    }
}

fn add_generics(names: &mut Table<String, GenericParamId>, list: &Vec<GenericParam>)
    ensures
        final(names)@ == with_generics(old(names)@, list@, 0),
{
    let ghost start = names@;
    let mut i: usize = 0;
    while i < list.len()
        invariant
            i <= list.len(),
            with_generics(names@, list@, i as int) == with_generics(start, list@, 0),
        decreases list.len() - i,
    {
        let _ = names.insert(list[i].name.clone(), list[i].id);
        i += 1;
    }
}

fn generic_names(outer: &Vec<GenericParam>, inner: &Vec<GenericParam>) -> (r: Table<
    String,
    GenericParamId,
>)
    ensures
        r@ == with_generics(with_generics(Map::empty(), outer@, 0), inner@, 0),
{
    let mut names: Table<String, GenericParamId> = Table::new();
    add_generics(&mut names, outer);
    add_generics(&mut names, inner);
    names
}

impl ResolvedHir {
    fn resolve_bounds(&mut self, scope: &ScopeRef, bounds: &Vec<TraitRef>)
        ensures
            final(self)@ == t_bounds(old(self)@, scope@, bounds@, 0),
    {
        let ghost start = self@;
        let mut i: usize = 0;
        while i < bounds.len()
            invariant
                i <= bounds.len(),
                t_bounds(self@, scope@, bounds@, i as int) == t_bounds(start, scope@, bounds@, 0),
            decreases bounds.len() - i,
        {
            let path = &bounds[i].path;
            let named = self.imported_type(scope, path);
            if let Some(target) = self.trait_named(named, &scope.builtins.traits, path) {
                let _ = self.trait_ref_targets.insert(bounds[i].id, target);
            }
            i += 1;
        }
    }

    fn resolve_trait_refs(&mut self, scope: &ScopeRef, list: &Vec<GenericParam>)
        ensures
            final(self)@ == t_generics(old(self)@, scope@, list@, 0),
    {
        let ghost start = self@;
        let mut i: usize = 0;
        while i < list.len()
            invariant
                i <= list.len(),
                t_generics(self@, scope@, list@, i as int) == t_generics(start, scope@, list@, 0),
            decreases list.len() - i,
        {
            self.resolve_bounds(scope, &list[i].bounds);
            i += 1;
        }
    }

    fn resolve_signature_types(&mut self, scope: &ScopeRef, params: &Vec<Param>, ret: &Option<Type>)
        ensures
            final(self)@ == t_option(t_params(old(self)@, scope@, params@, 0), scope@, *ret),
    {
        self.resolve_param_types(scope, params);
        if let Some(ty) = ret {
            self.resolve_type(scope, ty);
        }
    }

    fn resolve_param_types(&mut self, scope: &ScopeRef, params: &Vec<Param>)
        ensures
            final(self)@ == t_params(old(self)@, scope@, params@, 0),
    {
        let ghost start = self@;
        let mut i: usize = 0;
        while i < params.len()
            invariant
                i <= params.len(),
                t_params(self@, scope@, params@, i as int) == t_params(start, scope@, params@, 0),
            decreases params.len() - i,
        {
            self.resolve_type(scope, &params[i].ty);
            i += 1;
        }
    }

    fn resolve_declared_fields(&mut self, scope: &ScopeRef, list: &Vec<Field>)
        ensures
            final(self)@ == t_declared_fields(old(self)@, scope@, list@, 0),
    {
        let ghost start = self@;
        let mut i: usize = 0;
        while i < list.len()
            invariant
                i <= list.len(),
                t_declared_fields(self@, scope@, list@, i as int) == t_declared_fields(
                    start,
                    scope@,
                    list@,
                    0,
                ),
            decreases list.len() - i,
        {
            self.resolve_type(scope, &list[i].ty);
            i += 1;
        }
    }

    fn resolve_variants(&mut self, scope: &ScopeRef, list: &Vec<Variant>)
        ensures
            final(self)@ == t_variants(old(self)@, scope@, list@, 0),
    {
        let ghost start = self@;
        let mut i: usize = 0;
        while i < list.len()
            invariant
                i <= list.len(),
                t_variants(self@, scope@, list@, i as int) == t_variants(start, scope@, list@, 0),
            decreases list.len() - i,
        {
            match &list[i].kind {
                VariantKind::Unit => {},
                VariantKind::Tuple(types) => {
                    self.resolve_types(scope, types);
                },
                VariantKind::Struct(fields) => {
                    self.resolve_declared_fields(scope, fields);
                },
            }
            i += 1;
        }
    }

    fn resolve_methods(
        &mut self,
        scope: &ScopeRef,
        outer: &Vec<GenericParam>,
        list: &Vec<FnDecl>,
    )
        ensures
            final(self)@ == t_methods(old(self)@, scope@, outer@, list@, 0),
    {
        let ghost start = self@;
        let mut i: usize = 0;
        while i < list.len()
            invariant
                i <= list.len(),
                t_methods(self@, scope@, outer@, list@, i as int) == t_methods(
                    start,
                    scope@,
                    outer@,
                    list@,
                    0,
                ),
            decreases list.len() - i,
        {
            let method = &list[i];
            self.resolve_trait_refs(scope, &method.generics);
            let generics = generic_names(outer, &method.generics);
            let inside = ScopeRef {
                module: scope.module,
                aliases: scope.aliases,
                generics: &generics,
                builtins: scope.builtins,
            };
            self.resolve_signature_types(&inside, &method.params, &method.ret);
            self.resolve_block_types(&inside, &method.body);
            i += 1;
        }
    }

    fn resolve_trait_methods(
        &mut self,
        scope: &ScopeRef,
        outer: &Vec<GenericParam>,
        list: &Vec<TraitMethod>,
    )
        ensures
            final(self)@ == t_trait_methods(old(self)@, scope@, outer@, list@, 0),
    {
        let ghost start = self@;
        let mut i: usize = 0;
        while i < list.len()
            invariant
                i <= list.len(),
                t_trait_methods(self@, scope@, outer@, list@, i as int) == t_trait_methods(
                    start,
                    scope@,
                    outer@,
                    list@,
                    0,
                ),
            decreases list.len() - i,
        {
            let method = &list[i];
            self.resolve_trait_refs(scope, &method.generics);
            let generics = generic_names(outer, &method.generics);
            let inside = ScopeRef {
                module: scope.module,
                aliases: scope.aliases,
                generics: &generics,
                builtins: scope.builtins,
            };
            self.resolve_signature_types(&inside, &method.params, &method.ret);
            if let Some(body) = &method.default {
                self.resolve_block_types(&inside, body);
            }
            i += 1;
        }
    }

    fn resolve_externs(&mut self, scope: &ScopeRef, list: &Vec<ExternFn>)
        ensures
            final(self)@ == t_externs(old(self)@, scope@, list@, 0),
    {
        let ghost start = self@;
        let mut i: usize = 0;
        while i < list.len()
            invariant
                i <= list.len(),
                t_externs(self@, scope@, list@, i as int) == t_externs(start, scope@, list@, 0),
            decreases list.len() - i,
        {
            self.resolve_signature_types(scope, &list[i].params, &list[i].ret);
            i += 1;
        }
    }

    fn resolve_item_types(&mut self, scope: &ScopeRef, item: &Item)
        ensures
            final(self)@ == t_item(old(self)@, scope@, *item),
    {
        let none: Vec<GenericParam> = Vec::new();
        proof {
            assert(none@ =~= Seq::empty());
        }
        match item {
            Item::Annotation(annotation) => {
                self.resolve_param_types(scope, &annotation.params);
            },
            Item::Fn(function) => {
                self.resolve_trait_refs(scope, &function.generics);
                let generics = generic_names(&function.generics, &none);
                let inside = ScopeRef {
                    module: scope.module,
                    aliases: scope.aliases,
                    generics: &generics,
                    builtins: scope.builtins,
                };
                self.resolve_signature_types(&inside, &function.params, &function.ret);
                self.resolve_block_types(&inside, &function.body);
            },
            Item::Struct(structure) => {
                self.resolve_trait_refs(scope, &structure.generics);
                let generics = generic_names(&structure.generics, &none);
                let inside = ScopeRef {
                    module: scope.module,
                    aliases: scope.aliases,
                    generics: &generics,
                    builtins: scope.builtins,
                };
                self.resolve_declared_fields(&inside, &structure.fields);
            },
            Item::Enum(enumeration) => {
                self.resolve_trait_refs(scope, &enumeration.generics);
                let generics = generic_names(&enumeration.generics, &none);
                let inside = ScopeRef {
                    module: scope.module,
                    aliases: scope.aliases,
                    generics: &generics,
                    builtins: scope.builtins,
                };
                self.resolve_variants(&inside, &enumeration.variants);
            },
            Item::Impl(implementation) => {
                self.resolve_trait_refs(scope, &implementation.generics);
                self.resolve_methods(scope, &implementation.generics, &implementation.methods);
            },
            Item::Trait(declaration) => {
                self.resolve_trait_refs(scope, &declaration.generics);
                self.resolve_trait_methods(scope, &declaration.generics, &declaration.methods);
            },
            Item::Extern(block) => {
                self.resolve_externs(scope, &block.fns);
            },
            _ => {},
        }
    }

    fn resolve_module_types(&mut self, scope: &ScopeRef, items: &Vec<Item>, chunk: &Block)
        ensures
            final(self)@ == t_block(t_items(old(self)@, scope@, items@, 0), scope@, *chunk),
    {
        let ghost start = self@;
        let mut i: usize = 0;
        while i < items.len()
            invariant
                i <= items.len(),
                t_items(self@, scope@, items@, i as int) == t_items(start, scope@, items@, 0),
            decreases items.len() - i,
        {
            self.resolve_item_types(scope, &items[i]);
            i += 1;
        }
        self.resolve_block_types(scope, chunk);
    }
}

// ---------------------------------------------------------------------------
// Imports.
// ---------------------------------------------------------------------------

/// The name that an import introduces.
pub open spec fn import_name(import: UseImport) -> Seq<char> {
    match import.alias {
        Some(alias) => alias@,
        None => if import.path@.len() == 0 {
            Seq::empty()
        } else {
            import.path@.last()@
        },
    }
}

/// What an import refers to; what it may not refer to is reported.
pub open spec fn import_target(hir: HirModel, module: ModuleId, import: UseImport) -> (
    HirModel,
    ResolvedTarget,
) {
    let path = texts(import.path@);
    let named = match path_target(hir, module, Namespace::Value, path) {
        Some(target) => target,
        None => match path_target(hir, module, Namespace::Type, path) {
            Some(target) => target,
            None => match path_target(hir, module, Namespace::Module, path) {
                Some(target) => target,
                None => ResolvedTarget::Error,
            },
        },
    };
    if named == ResolvedTarget::Error {
        (hir.unresolved(None, joined(path, "::"@)), ResolvedTarget::Error)
    } else {
        match barrier(hir, module, named) {
            Some((name, owner)) => (
                hir.report(
                    DiagnosticCode::NamePrivateAccess,
                    None,
                    seq![("name"@, name), ("owner"@, owner)],
                ),
                ResolvedTarget::Error,
            ),
            None => (hir, canonical_value(hir, named)),
        }
    }
}

/// The imports `imports[from..]`.
pub open spec fn with_imports(
    hir: HirModel,
    module: ModuleId,
    imports: Seq<UseImport>,
    from: int,
    aliases: Map<Seq<char>, ResolvedTarget>,
) -> (HirModel, Map<Seq<char>, ResolvedTarget>)
    decreases imports.len() - from,
{
    if from < 0 || from >= imports.len() {
        (hir, aliases)
    } else {
        let name = import_name(imports[from]);
        let (hir, target) = import_target(hir, module, imports[from]);
        with_imports(
            HirModel { imports: hir.imports.push(ImportRecord { module, name, target }), ..hir },
            module,
            imports,
            from + 1,
            aliases.insert(name, target),
        )
    }
}

/// The imports of the items `items[from..]`.
pub open spec fn with_aliases(
    hir: HirModel,
    module: ModuleId,
    items: Seq<Item>,
    from: int,
    aliases: Map<Seq<char>, ResolvedTarget>,
) -> (HirModel, Map<Seq<char>, ResolvedTarget>)
    decreases items.len() - from,
{
    if from < 0 || from >= items.len() {
        (hir, aliases)
    } else {
        let (hir, aliases) = match items[from] {
            Item::Use(declaration) => with_imports(
                hir,
                module,
                declaration.imports@,
                0,
                aliases,
            ),
            _ => (hir, aliases),
        };
        with_aliases(hir, module, items, from + 1, aliases)
    }
}

fn name_of_import(import: &UseImport) -> (r: String)
    ensures
        r@ == import_name(*import),
{
    match &import.alias {
        Some(alias) => alias.clone(),
        None => {
            let n: usize = import.path.len();
            if n == 0 {
                let text = String::new();
                proof {
                    assert(text@ =~= Seq::empty());
                }
                text
            } else {
                import.path[n - 1].clone()
            }
        },
    }
}

impl ResolvedHir {
    fn import_target(&mut self, module: ModuleId, import: &UseImport) -> (r: ResolvedTarget)
        ensures
            (final(self)@, r) == import_target(old(self)@, module, *import),
    {
        let mut named = self.resolve_path(module, Namespace::Value, &import.path);
        if named.is_none() {
            named = self.resolve_path(module, Namespace::Type, &import.path);
        }
        if named.is_none() {
            named = self.resolve_path(module, Namespace::Module, &import.path);
        }
        let target = match named {
            Some(target) => target,
            None => ResolvedTarget::Error,
        };
        if target == ResolvedTarget::Error {
            self.unresolved(None, join(&import.path, "::").as_str());
            return ResolvedTarget::Error;
        }
        match self.private_barrier(module, target) {
            Some((name, owner)) => {
                let ghost texts_of = (name@, owner@);
                let mut arguments = one_argument("name", name);
                push_argument(&mut arguments, "owner", owner);
                proof {
                    assert(arguments_model(arguments@) =~= seq![
                        ("name"@, texts_of.0),
                        ("owner"@, texts_of.1),
                    ]);
                }
                self.report(DiagnosticCode::NamePrivateAccess, None, arguments);
                ResolvedTarget::Error
            },
            None => self.canonical_value_target(target),
        }
    }

    fn collect_imports(
        &mut self,
        module: ModuleId,
        imports: &Vec<UseImport>,
        aliases: &mut Table<String, ResolvedTarget>,
    )
        ensures
            (final(self)@, final(aliases)@) == with_imports(
                old(self)@,
                module,
                imports@,
                0,
                old(aliases)@,
            ),
    {
        let ghost start = self@;
        let ghost first = aliases@;
        let mut i: usize = 0;
        while i < imports.len()
            invariant
                i <= imports.len(),
                with_imports(self@, module, imports@, i as int, aliases@) == with_imports(
                    start,
                    module,
                    imports@,
                    0,
                    first,
                ),
            decreases imports.len() - i,
        {
            let name = name_of_import(&imports[i]);
            let target = self.import_target(module, &imports[i]);
            let _ = aliases.insert(name.clone(), target);
            let ghost before = self@;
            let record = ResolvedImport { module, name, target };
            self.imports.push(record);
            proof {
                assert(self@.imports =~= before.imports.push(record.record()));
            }
            i += 1;
        }
    }

    fn collect_aliases(&mut self, module: ModuleId, items: &Vec<Item>) -> (r: Table<
        String,
        ResolvedTarget,
    >)
        ensures
            (final(self)@, r@) == with_aliases(old(self)@, module, items@, 0, Map::empty()),
    {
        let ghost start = self@;
        let mut aliases: Table<String, ResolvedTarget> = Table::new();
        let mut i: usize = 0;
        while i < items.len()
            invariant
                i <= items.len(),
                with_aliases(self@, module, items@, i as int, aliases@) == with_aliases(
                    start,
                    module,
                    items@,
                    0,
                    Map::empty(),
                ),
            decreases items.len() - i,
        {
            if let Item::Use(declaration) = &items[i] {
                self.collect_imports(module, &declaration.imports, &mut aliases);
            }
            i += 1;
        }
        aliases
    }
}

// ---------------------------------------------------------------------------
// Bodies.
// ---------------------------------------------------------------------------

/// The parameters `params[from..]` as locals.
pub open spec fn b_params(body: Body, module: ModuleId, params: Seq<Param>, from: int) -> Body
    decreases params.len() - from,
{
    if from < 0 || from >= params.len() {
        body
    } else {
        b_params(
            body.bind(module, params[from].name@, Some(params[from].name_span), false),
            module,
            params,
            from + 1,
        )
    }
}

/// The body of a function with its parameters.
pub open spec fn b_function(
    hir: HirModel,
    scope: Scope,
    has_self: bool,
    receiver_mutable: bool,
    params: Seq<Param>,
    block: Block,
) -> HirModel {
    let body = Body { hir, scopes: Seq::empty() }.push();
    let body = if has_self {
        body.bind(scope.module, "self"@, None, receiver_mutable)
    } else {
        body
    };
    b_block(b_params(body, scope.module, params, 0), scope, block).pop().hir
}

/// The bodies of the methods `list[from..]`.
pub open spec fn b_methods(hir: HirModel, scope: Scope, list: Seq<FnDecl>, from: int) -> HirModel
    decreases list.len() - from,
{
    if from < 0 || from >= list.len() {
        hir
    } else {
        let method = list[from];
        b_methods(
            b_function(
                hir,
                scope,
                method.has_self,
                method.receiver_mutable,
                method.params@,
                method.body,
            ),
            scope,
            list,
            from + 1,
        )
    }
}

/// The default bodies of the methods `list[from..]` of a trait.
pub open spec fn b_defaults(hir: HirModel, scope: Scope, list: Seq<TraitMethod>, from: int) -> HirModel
    decreases list.len() - from,
{
    if from < 0 || from >= list.len() {
        hir
    } else {
        let method = list[from];
        let next = match method.default {
            Some(block) => b_function(
                hir,
                scope,
                method.has_self,
                method.receiver_mutable,
                method.params@,
                block,
            ),
            None => hir,
        };
        b_defaults(next, scope, list, from + 1)
    }
}

/// The names that paths are read against in a module.
pub open spec fn module_scope(
    module: ModuleId,
    aliases: Map<Seq<char>, ResolvedTarget>,
    types: Map<Seq<char>, BuiltinId>,
    values: Map<Seq<char>, BuiltinId>,
    macros: Map<Seq<char>, BuiltinId>,
    traits: Map<Seq<char>, BuiltinTraitId>,
) -> Scope {
    Scope { module, aliases, generics: Map::empty(), types, values, macros, traits }
}

/// The bodies of the items `items[from..]`, modules included.
pub open spec fn b_items(
    hir: HirModel,
    scope: Scope,
    items: Seq<Item>,
    from: int,
) -> HirModel
    decreases items, items.len() - from,
{
    if from < 0 || from >= items.len() {
        hir
    } else {
        let next = match items[from] {
            Item::Fn(function) => b_function(
                hir,
                scope,
                function.has_self,
                function.receiver_mutable,
                function.params@,
                function.body,
            ),
            Item::Impl(implementation) => b_methods(hir, scope, implementation.methods@, 0),
            Item::Trait(declaration) => b_defaults(hir, scope, declaration.methods@, 0),
            Item::Mod(child) => match child_module(hir, scope.module, child.name@) {
                Some(id) => resolved_module(
                    hir,
                    id,
                    child.items@,
                    child.chunk,
                    scope.types,
                    scope.values,
                    scope.macros,
                    scope.traits,
                ),
                None => hir,
            },
            _ => hir,
        };
        b_items(next, scope, items, from + 1)
    }
}

/// Everything in a module: its imports, its types, its bodies and its chunk.
pub open spec fn resolved_module(
    hir: HirModel,
    module: ModuleId,
    items: Seq<Item>,
    chunk: Block,
    types: Map<Seq<char>, BuiltinId>,
    values: Map<Seq<char>, BuiltinId>,
    macros: Map<Seq<char>, BuiltinId>,
    traits: Map<Seq<char>, BuiltinTraitId>,
) -> HirModel
    decreases items, items.len() + 1,
{
    let (hir, aliases) = with_aliases(hir, module, items, 0, Map::empty());
    let scope = module_scope(module, aliases, types, values, macros, traits);
    let hir = t_block(t_items(hir, scope, items, 0), scope, chunk);
    let hir = b_items(hir, scope, items, 0);
    b_block(Body { hir, scopes: Seq::empty() }, scope, chunk).hir
}

/// The resolved program.
pub open spec fn resolved(
    program: Program,
    types: Map<Seq<char>, BuiltinId>,
    values: Map<Seq<char>, BuiltinId>,
    macros: Map<Seq<char>, BuiltinId>,
    traits: Map<Seq<char>, BuiltinTraitId>,
) -> HirModel {
    let hir = declarations_of(program, traits);
    resolved_module(hir, ModuleId(0), program.items@, program.chunk, types, values, macros, traits)
}

impl ResolvedHir {
    fn resolve_function(
        &mut self,
        scope: &ScopeRef,
        has_self: bool,
        receiver_mutable: bool,
        params: &Vec<Param>,
        block: &Block,
    )
        ensures
            final(self)@ == b_function(
                old(self)@,
                scope@,
                has_self,
                receiver_mutable,
                params@,
                *block,
            ),
    {
        let mut resolver = BodyResolver::new();
        resolver.push();
        if has_self {
            resolver.bind(self, scope.module, "self", None, receiver_mutable);
        }
        let ghost start = resolver.with(self@);
        let mut i: usize = 0;
        while i < params.len()
            invariant
                i <= params.len(),
                b_params(resolver.with(self@), scope.module, params@, i as int) == b_params(
                    start,
                    scope.module,
                    params@,
                    0,
                ),
            decreases params.len() - i,
        {
            resolver.bind(
                self,
                scope.module,
                params[i].name.as_str(),
                Some(params[i].name_span),
                false,
            );
            i += 1;
        }
        resolver.block(self, scope, block);
        let ghost done = resolver.with(self@);
        proof {
            assert(done.pop().hir == done.hir);
        }
    }

    fn resolve_method_bodies(&mut self, scope: &ScopeRef, list: &Vec<FnDecl>)
        ensures
            final(self)@ == b_methods(old(self)@, scope@, list@, 0),
    {
        let ghost start = self@;
        let mut i: usize = 0;
        while i < list.len()
            invariant
                i <= list.len(),
                b_methods(self@, scope@, list@, i as int) == b_methods(start, scope@, list@, 0),
            decreases list.len() - i,
        {
            let method = &list[i];
            self.resolve_function(
                scope,
                method.has_self,
                method.receiver_mutable,
                &method.params,
                &method.body,
            );
            i += 1;
        }
    }

    fn resolve_default_bodies(&mut self, scope: &ScopeRef, list: &Vec<TraitMethod>)
        ensures
            final(self)@ == b_defaults(old(self)@, scope@, list@, 0),
    {
        let ghost start = self@;
        let mut i: usize = 0;
        while i < list.len()
            invariant
                i <= list.len(),
                b_defaults(self@, scope@, list@, i as int) == b_defaults(start, scope@, list@, 0),
            decreases list.len() - i,
        {
            let method = &list[i];
            if let Some(block) = &method.default {
                self.resolve_function(
                    scope,
                    method.has_self,
                    method.receiver_mutable,
                    &method.params,
                    block,
                );
            }
            i += 1;
        }
    }

    fn resolve_module_bodies(
        &mut self,
        module: ModuleId,
        items: &Vec<Item>,
        chunk: &Block,
        builtins: &BuiltinNames,
    )
        ensures
            final(self)@ == resolved_module(
                old(self)@,
                module,
                items@,
                *chunk,
                builtins.types@,
                builtins.values@,
                builtins.macros@,
                builtins.traits@,
            ),
        decreases *items,
    {
        let aliases = self.collect_aliases(module, items);
        let generics: Table<String, GenericParamId> = Table::new();
        let scope = ScopeRef { module, aliases: &aliases, generics: &generics, builtins };
        self.resolve_module_types(&scope, items, chunk);
        let ghost start = self@;
        let mut i: usize = 0;
        while i < items.len()
            invariant
                i <= items.len(),
                scope.module == module,
                scope.builtins == builtins,
                b_items(self@, scope@, items@, i as int) == b_items(start, scope@, items@, 0),
            decreases items.len() - i,
        {
            match &items[i] {
                Item::Fn(function) => {
                    self.resolve_function(
                        &scope,
                        function.has_self,
                        function.receiver_mutable,
                        &function.params,
                        &function.body,
                    );
                },
                Item::Impl(implementation) => {
                    self.resolve_method_bodies(&scope, &implementation.methods);
                },
                Item::Trait(declaration) => {
                    self.resolve_default_bodies(&scope, &declaration.methods);
                },
                Item::Mod(child) => {
                    if let Some(id) = self.find_child(module, &child.name) {
                        self.resolve_module_bodies(id, &child.items, &child.chunk, builtins);
                    }
                },
                _ => {},
            }
            i += 1;
        }
        let mut resolver = BodyResolver::new();
        resolver.block(self, &scope, chunk);
    }
}

/// Collects all declarations of a program and resolves every path in it. The
/// tables that describe a standard library are empty.
pub fn resolve(program: &Program, builtins: &BuiltinNames) -> (r: ResolvedHir)
    ensures
        r@ == resolved(*program, builtins.types@, builtins.values@, builtins.macros@, builtins.traits@),
        r.language_items@ == Map::<DefId, LanguageItem>::empty(),
        r.standard_runtimes@ == Map::<DefId, RuntimeModule>::empty(),
        r.named_runtimes@ == Map::<Seq<char>, RuntimeModule>::empty(),
        r.runtime_helpers@ == Map::<Seq<char>, RuntimeModule>::empty(),
{
    let mut hir = collect_declarations(program, builtins);
    hir.resolve_module_bodies(ModuleId::new(0), &program.items, &program.chunk, builtins);
    proof {
        law_resolution_leaves_the_library_alone(
            *program,
            builtins.types@,
            builtins.values@,
            builtins.macros@,
            builtins.traits@,
        );
    }
    hir
}

} // verus!
