//! What collecting declarations promises of the identities that it gives.

use vstd::prelude::*;

use super::declare::{extern_count, shape_of, with_externs, with_items, with_variants};
use super::members::{
    declarations_of, nothing_declared, trait_method_names, with_defaults, with_impl_block,
    with_impl_items, with_impl_methods, with_impl_trait, with_inherited, with_trait_items,
    with_trait_methods,
};
use super::model::{DefRecord, HirModel, ModuleRecord};
use super::paths::{
    child_module, declared, found, named_in, path_target, prelude, segments_of, start_of_path,
    stepped, walked, Cursor,
};
use crate::ast::{ExternFn, FnDecl, ImplDecl, Item, ModDecl, Program, TraitMethod, Variant};
use crate::builtins::BuiltinTraitId;
use crate::hir::{
    DefId, DefKind, ExternId, ImplTarget, ModuleId, Namespace, ResolvedTarget, TraitTarget,
    VariantShape,
};
use crate::layout_laws::owner_of;

verus! {

/// Whether definitions and modules carry their places as identities, every
/// definition stands in a known module, every module comes after the one around
/// it, and every declared name means something known. Identities have 32 bits.
pub open spec fn consistent(modules: Seq<ModuleRecord>, definitions: Seq<DefRecord>) -> bool {
    &&& modules.len() > 0
    &&& forall|i: int|
        0 <= i < definitions.len() && i <= u32::MAX ==> (#[trigger] definitions[i]).id.0 == i
    &&& forall|i: int|
        0 <= i < definitions.len() ==> (#[trigger] definitions[i]).module.0 < modules.len()
    &&& forall|i: int| 0 <= i < modules.len() && i <= u32::MAX ==> (#[trigger] modules[i]).id.0 == i
    &&& forall|i: int|
        0 <= i < modules.len() ==> ((#[trigger] modules[i]).parent matches Some(parent)
            ==> parent.0 < i)
    &&& forall|i: int, name: Seq<char>|
        0 <= i < modules.len() && #[trigger] modules[i].values.dom().contains(name)
            ==> modules[i].values[name].0 < definitions.len()
    &&& forall|i: int, name: Seq<char>|
        0 <= i < modules.len() && #[trigger] modules[i].types.dom().contains(name)
            ==> modules[i].types[name].0 < definitions.len()
    &&& forall|i: int, name: Seq<char>|
        0 <= i < modules.len() && #[trigger] modules[i].modules.dom().contains(name)
            ==> modules[i].modules[name].0 < modules.len()
}

/// Whether every definition comes after the one it belongs to, and everything that
/// an item or a member stands for is known.
pub open spec fn is_known(hir: HirModel) -> bool {
    &&& forall|i: int|
        0 <= i < hir.definitions.len() ==> (owner_of((#[trigger] hir.definitions[i]).kind) matches Some(
            owner,
        ) ==> owner.0 < i)
    &&& forall|key: (ModuleId, usize)| #[trigger]
        hir.item_targets.dom().contains(key) ==> (hir.item_targets[key] matches ResolvedTarget::Item(
            id,
        ) ==> id.0 < hir.definitions.len())
    &&& forall|key: (DefId, Seq<char>)| #[trigger]
        hir.enum_variants.dom().contains(key) ==> hir.enum_variants[key].0 < hir.definitions.len()
    &&& forall|key: (DefId, Seq<char>)| #[trigger]
        hir.associated_items.dom().contains(key) ==> hir.associated_items[key].0
            < hir.definitions.len()
    &&& forall|key: (DefId, Seq<char>)| #[trigger]
        hir.trait_items.dom().contains(key) ==> hir.trait_items[key].0 < hir.definitions.len()
}

/// Whether declarations are consistent and known.
pub open spec fn sound(hir: HirModel) -> bool {
    consistent(hir.modules, hir.definitions) && is_known(hir)
}

/// Whether declarations are consistent and none was lost.
pub open spec fn grown(before: HirModel, after: HirModel) -> bool {
    &&& sound(after)
    &&& before.modules.len() <= after.modules.len()
    &&& before.definitions.len() <= after.definitions.len()
    &&& same_library(before, after)
    &&& after.locals == before.locals
}

/// Whether the tables that describe a standard library are the same.
pub open spec fn same_library(before: HirModel, after: HirModel) -> bool {
    &&& after.language_items == before.language_items
    &&& after.standard_runtimes == before.standard_runtimes
    &&& after.named_runtimes == before.named_runtimes
    &&& after.runtime_helpers == before.runtime_helpers
}

proof fn lemma_definition(
    hir: HirModel,
    module: ModuleId,
    name: Seq<char>,
    kind: DefKind,
    is_public: bool,
)
    requires
        sound(hir),
        module.0 < hir.modules.len(),
        owner_of(kind) matches Some(owner) ==> owner.0 < hir.definitions.len(),
    ensures
        ({
            let (after, id) = hir.with_definition(module, name, kind, is_public);
            grown(hir, after) && id.0 < after.definitions.len() && after.modules == hir.modules
        }),
{
    let (after, id) = hir.with_definition(module, name, kind, is_public);
    let n = hir.definitions.len() as int;
    assert forall|i: int| 0 <= i < after.definitions.len() && i <= u32::MAX implies (
    #[trigger] after.definitions[i]).id.0 == i by {
        if i < n {
            assert(after.definitions[i] == hir.definitions[i]);
        }
    }
    assert forall|i: int| 0 <= i < after.definitions.len() implies (
    #[trigger] after.definitions[i]).module.0 < after.modules.len() by {
        if i < n {
            assert(after.definitions[i] == hir.definitions[i]);
        }
    }
    assert forall|i: int| 0 <= i < after.definitions.len() implies (owner_of(
        (#[trigger] after.definitions[i]).kind,
    ) matches Some(owner) ==> owner.0 < i) by {
        if i < n {
            assert(after.definitions[i] == hir.definitions[i]);
        }
    }
}

/// Naming a known definition in a module.
proof fn lemma_named(hir: HirModel, module: ModuleId, name: Seq<char>, id: DefId)
    requires
        sound(hir),
        id.0 < hir.definitions.len(),
    ensures
        grown(hir, hir.with_value(module, name, id)),
        hir.with_value(module, name, id).definitions == hir.definitions,
        hir.with_value(module, name, id).modules.len() == hir.modules.len(),
        grown(hir, hir.with_type(module, name, id)),
        hir.with_type(module, name, id).definitions == hir.definitions,
        hir.with_type(module, name, id).modules.len() == hir.modules.len(),
{
}

proof fn lemma_module_named(hir: HirModel, module: ModuleId, name: Seq<char>, id: ModuleId)
    requires
        sound(hir),
        id.0 < hir.modules.len(),
    ensures
        grown(hir, hir.with_module(module, name, id)),
{
}

proof fn lemma_module_opened(hir: HirModel, module: ModuleId, child: ModDecl)
    requires
        sound(hir),
        module.0 < hir.modules.len(),
    ensures
        ({
            let (after, id) = hir.open_module(module, child);
            grown(hir, after) && id.0 < after.modules.len()
        }),
{
    let (after, id) = hir.open_module(module, child);
    let n = hir.modules.len() as int;
    let record = ModuleRecord {
        id,
        parent: Some(module),
        path: (if hir.has_module(module) {
            hir.module(module).path
        } else {
            Seq::empty()
        }).push(child.name@),
        file: match super::declare::file_of_items(child.items@, 0) {
            Some(file) => file,
            None => if hir.has_module(module) {
                hir.module(module).file
            } else {
                0
            },
        },
        is_file: child.is_file,
        is_declaration: child.is_decl,
        is_public: child.is_pub,
        values: Map::empty(),
        types: Map::empty(),
        modules: Map::empty(),
    };
    let middle = HirModel { modules: hir.modules.push(record), ..hir };
    assert(id.0 < middle.modules.len());
    assert forall|i: int| 0 <= i < n implies #[trigger] middle.modules[i] == hir.modules[i] by {}
    assert(sound(middle));
    lemma_module_named(middle, module, child.name@, id);
}

proof fn lemma_variants(
    hir: HirModel,
    module: ModuleId,
    owner: DefId,
    variants: Seq<Variant>,
    is_public: bool,
    from: int,
)
    requires
        sound(hir),
        module.0 < hir.modules.len(),
        owner.0 < hir.definitions.len(),
    ensures
        grown(hir, with_variants(hir, module, owner, variants, is_public, from)),
    decreases variants.len() - from,
{
    if 0 <= from < variants.len() {
        let variant = variants[from];
        let kind = DefKind::EnumVariant { owner, shape: shape_of(variant) };
        let (defined, id) = hir.with_definition(module, variant.name@, kind, is_public);
        lemma_definition(hir, module, variant.name@, kind, is_public);
        let repeated = defined.enum_variants.dom().contains((owner, variant.name@));
        let listed = HirModel {
            enum_variants: defined.enum_variants.insert((owner, variant.name@), id),
            ..defined
        };
        let told = if repeated {
            listed.duplicate_variant(owner, variant.name@)
        } else {
            listed
        };
        let placed = HirModel {
            enum_variant_targets: told.enum_variant_targets.insert((owner, from as usize), id),
            ..told
        };
        lemma_named(placed, module, variant.name@, id);
        let next = if shape_of(variant) == VariantShape::Unit {
            placed.with_value(module, variant.name@, id)
        } else {
            placed
        };
        lemma_variants(next, module, owner, variants, is_public, from + 1);
    }
}

proof fn lemma_externs(
    hir: HirModel,
    module: ModuleId,
    item: int,
    functions: Seq<ExternFn>,
    from: int,
)
    requires
        sound(hir),
        module.0 < hir.modules.len(),
    ensures
        grown(hir, with_externs(hir, module, item, functions, from)),
    decreases functions.len() - from,
{
    if 0 <= from < functions.len() {
        let extern_id = ExternId(
            extern_count(hir.definitions, hir.definitions.len() as int) as u32,
        );
        let kind = DefKind::ExternFunction { extern_id };
        let name = functions[from].name@;
        let (defined, id) = hir.with_definition(module, name, kind, true);
        lemma_definition(hir, module, name, kind, true);
        lemma_named(defined, module, name, id);
        let named = defined.with_value(module, name, id);
        let next = HirModel {
            extern_function_targets: named.extern_function_targets.insert(
                (module, (item as usize, from as usize)),
                id,
            ),
            ..named
        };
        lemma_externs(next, module, item, functions, from + 1);
    }
}

/// A definition with its type name, its value name or both.
proof fn lemma_declared(
    hir: HirModel,
    module: ModuleId,
    name: Seq<char>,
    kind: DefKind,
    is_public: bool,
)
    requires
        sound(hir),
        module.0 < hir.modules.len(),
        owner_of(kind) is None,
    ensures
        ({
            let (defined, id) = hir.with_definition(module, name, kind, is_public);
            &&& grown(hir, defined.with_type(module, name, id))
            &&& grown(hir, defined.with_value(module, name, id))
            &&& grown(hir, defined.with_type(module, name, id).with_value(module, name, id))
        }),
{
    let (defined, id) = hir.with_definition(module, name, kind, is_public);
    lemma_definition(hir, module, name, kind, is_public);
    lemma_named(defined, module, name, id);
    lemma_named(defined.with_type(module, name, id), module, name, id);
}

proof fn lemma_items(hir: HirModel, module: ModuleId, items: Seq<Item>, from: int)
    requires
        sound(hir),
        module.0 < hir.modules.len(),
    ensures
        grown(hir, with_items(hir, module, items, from)),
    decreases items, items.len() - from,
{
    if 0 <= from < items.len() {
        let next = one_item(hir, module, items, from);
        match items[from] {
            Item::Annotation(annotation) => {
                lemma_declared(
                    hir,
                    module,
                    annotation.name@,
                    DefKind::Annotation,
                    annotation.is_pub,
                );
            },
            Item::Fn(function) => {
                lemma_declared(hir, module, function.name@, DefKind::Function, function.is_pub);
            },
            Item::Struct(structure) => {
                lemma_declared(hir, module, structure.name@, DefKind::Struct, structure.is_pub);
            },
            Item::Enum(enumeration) => {
                lemma_declared(hir, module, enumeration.name@, DefKind::Enum, enumeration.is_pub);
                let (defined, owner) = hir.with_definition(
                    module,
                    enumeration.name@,
                    DefKind::Enum,
                    enumeration.is_pub,
                );
                let named = defined.with_type(module, enumeration.name@, owner).with_value(
                    module,
                    enumeration.name@,
                    owner,
                ).with_item(module, from, ResolvedTarget::Item(owner));
                lemma_variants(
                    named,
                    module,
                    owner,
                    enumeration.variants@,
                    enumeration.is_pub,
                    0,
                );
            },
            Item::Trait(declaration) => {
                lemma_declared(hir, module, declaration.name@, DefKind::Trait, declaration.is_pub);
            },
            Item::Extern(block) => {
                lemma_externs(hir, module, from, block.fns@, 0);
            },
            Item::Mod(child) => {
                let (opened, id) = hir.open_module(module, child);
                lemma_module_opened(hir, module, child);
                lemma_items(
                    opened.with_item(module, from, ResolvedTarget::Module(id)),
                    id,
                    child.items@,
                    0,
                );
            },
            _ => {},
        }
        assert(grown(hir, next));
        lemma_items(next, module, items, from + 1);
    }
}

/// The declarations of one item.
spec fn one_item(hir: HirModel, module: ModuleId, items: Seq<Item>, from: int) -> HirModel {
    match items[from] {
        Item::Annotation(annotation) => {
            let (hir, id) = hir.with_definition(
                module,
                annotation.name@,
                DefKind::Annotation,
                annotation.is_pub,
            );
            hir.with_type(module, annotation.name@, id).with_item(
                module,
                from,
                ResolvedTarget::Item(id),
            )
        },
        Item::Fn(function) => {
            let (hir, id) = hir.with_definition(
                module,
                function.name@,
                DefKind::Function,
                function.is_pub,
            );
            hir.with_value(module, function.name@, id).with_item(
                module,
                from,
                ResolvedTarget::Item(id),
            )
        },
        Item::Struct(structure) => {
            let (hir, id) = hir.with_definition(
                module,
                structure.name@,
                DefKind::Struct,
                structure.is_pub,
            );
            hir.with_type(module, structure.name@, id).with_value(
                module,
                structure.name@,
                id,
            ).with_item(module, from, ResolvedTarget::Item(id))
        },
        Item::Enum(enumeration) => {
            let (hir, owner) = hir.with_definition(
                module,
                enumeration.name@,
                DefKind::Enum,
                enumeration.is_pub,
            );
            let hir = hir.with_type(module, enumeration.name@, owner).with_value(
                module,
                enumeration.name@,
                owner,
            ).with_item(module, from, ResolvedTarget::Item(owner));
            with_variants(hir, module, owner, enumeration.variants@, enumeration.is_pub, 0)
        },
        Item::Trait(declaration) => {
            let (hir, id) = hir.with_definition(
                module,
                declaration.name@,
                DefKind::Trait,
                declaration.is_pub,
            );
            hir.with_type(module, declaration.name@, id).with_item(
                module,
                from,
                ResolvedTarget::Item(id),
            )
        },
        Item::Extern(block) => with_externs(hir, module, from, block.fns@, 0),
        Item::Mod(child) => {
            let (hir, id) = hir.open_module(module, child);
            with_items(
                hir.with_item(module, from, ResolvedTarget::Module(id)),
                id,
                child.items@,
                0,
            )
        },
        _ => hir,
    }
}

proof fn lemma_trait_methods(
    hir: HirModel,
    module: ModuleId,
    owner: DefId,
    methods: Seq<TraitMethod>,
    is_public: bool,
    from: int,
)
    requires
        sound(hir),
        module.0 < hir.modules.len(),
        owner.0 < hir.definitions.len(),
    ensures
        grown(hir, with_trait_methods(hir, module, owner, methods, is_public, from)),
    decreases methods.len() - from,
{
    if 0 <= from < methods.len() {
        let method = methods[from];
        let kind = DefKind::TraitMethod { owner };
        let (defined, id) = hir.with_definition(module, method.name@, kind, is_public);
        lemma_definition(hir, module, method.name@, kind, is_public);
        let repeated = defined.trait_items.dom().contains((owner, method.name@));
        let listed = HirModel {
            trait_items: defined.trait_items.insert((owner, method.name@), id),
            ..defined
        };
        let told = if repeated {
            listed.duplicate(module, method.name@)
        } else {
            listed
        };
        let next = HirModel {
            trait_default_methods: if method.default is Some {
                told.trait_default_methods.insert(id)
            } else {
                told.trait_default_methods
            },
            trait_method_targets: told.trait_method_targets.insert((owner, from as usize), id),
            ..told
        };
        lemma_trait_methods(next, module, owner, methods, is_public, from + 1);
    }
}

proof fn lemma_trait_items(hir: HirModel, module: ModuleId, items: Seq<Item>, from: int)
    requires
        sound(hir),
        module.0 < hir.modules.len(),
    ensures
        grown(hir, with_trait_items(hir, module, items, from)),
    decreases items, items.len() - from,
{
    if 0 <= from < items.len() {
        let next = match items[from] {
            Item::Trait(declaration) => match found(
                hir.item_targets,
                (module, from as usize),
            ) {
                Some(ResolvedTarget::Item(owner)) => {
                    lemma_trait_methods(
                        hir,
                        module,
                        owner,
                        declaration.methods@,
                        declaration.is_pub,
                        0,
                    );
                    with_trait_methods(
                        hir,
                        module,
                        owner,
                        declaration.methods@,
                        declaration.is_pub,
                        0,
                    )
                },
                _ => hir,
            },
            Item::Mod(child) => match child_module(hir, module, child.name@) {
                Some(id) => {
                    assert(hir.modules[module.0 as int].modules.dom().contains(child.name@));
                    lemma_trait_items(hir, id, child.items@, 0);
                    with_trait_items(hir, id, child.items@, 0)
                },
                None => hir,
            },
            _ => hir,
        };
        lemma_trait_items(next, module, items, from + 1);
    }
}

proof fn lemma_impl_methods(
    hir: HirModel,
    module: ModuleId,
    item: int,
    owner: DefId,
    trait_target: Option<TraitTarget>,
    methods: Seq<FnDecl>,
    from: int,
)
    requires
        sound(hir),
        module.0 < hir.modules.len(),
        owner.0 < hir.definitions.len(),
    ensures
        grown(hir, with_impl_methods(hir, module, item, owner, trait_target, methods, from)),
    decreases methods.len() - from,
{
    if 0 <= from < methods.len() {
        let method = methods[from];
        let kind = DefKind::Method { owner };
        let (defined, id) = hir.with_definition(module, method.name@, kind, method.is_pub);
        lemma_definition(hir, module, method.name@, kind, method.is_pub);
        let repeated = defined.associated_items.dom().contains((owner, method.name@));
        let listed = HirModel {
            associated_items: defined.associated_items.insert((owner, method.name@), id),
            ..defined
        };
        let told = if repeated {
            listed.duplicate(module, method.name@)
        } else {
            listed
        };
        let bound = match trait_target {
            Some(target) => {
                let hir = HirModel { method_traits: told.method_traits.insert(id, target), ..told };
                match target {
                    TraitTarget::Item(trait_id) => match found(
                        hir.trait_items,
                        (trait_id, method.name@),
                    ) {
                        Some(origin) => HirModel {
                            trait_method_implementations: hir.trait_method_implementations.insert(
                                id,
                                origin,
                            ),
                            ..hir
                        },
                        None => hir,
                    },
                    _ => hir,
                }
            },
            None => told,
        };
        let next = HirModel {
            impl_method_targets: bound.impl_method_targets.insert(
                (module, (item as usize, from as usize)),
                id,
            ),
            ..bound
        };
        lemma_impl_methods(next, module, item, owner, trait_target, methods, from + 1);
    }
}

proof fn lemma_named_is_known(
    hir: HirModel,
    module: ModuleId,
    namespace: Namespace,
    name: Seq<char>,
)
    requires
        sound(hir),
    ensures
        named_in(hir, module, namespace, name) matches Some(ResolvedTarget::Item(id)) ==> id.0
            < hir.definitions.len(),
{
    lemma_declared_is_known(hir, module, namespace, name);
    lemma_declared_is_known(hir, hir.root, namespace, name);
    if let Some(builtin) = prelude(hir) {
        lemma_declared_is_known(hir, builtin, namespace, name);
    }
}

proof fn lemma_declared_is_known(
    hir: HirModel,
    module: ModuleId,
    namespace: Namespace,
    name: Seq<char>,
)
    requires
        sound(hir),
    ensures
        declared(hir, module, namespace, name) matches Some(ResolvedTarget::Item(id)) ==> id.0
            < hir.definitions.len(),
{
    if hir.has_module(module) {
        let record = hir.modules[module.0 as int];
        if record.values.dom().contains(name) {
            assert(record.values[name].0 < hir.definitions.len());
        }
        if record.types.dom().contains(name) {
            assert(record.types[name].0 < hir.definitions.len());
        }
    }
}

proof fn lemma_walk_is_known(
    hir: HirModel,
    cursor: Cursor,
    namespace: Namespace,
    segments: Seq<Seq<char>>,
    from: int,
)
    requires
        sound(hir),
    ensures
        walked(hir, cursor, namespace, segments, from) matches Some(ResolvedTarget::Item(id))
            ==> id.0 < hir.definitions.len(),
    decreases segments.len() - from,
{
    if 0 <= from < segments.len() {
        if from + 1 == segments.len() {
            if let Cursor::Module(module) = cursor {
                lemma_named_is_known(hir, module, namespace, segments[from]);
            }
        } else if let Some(next) = stepped(hir, cursor, segments[from]) {
            lemma_walk_is_known(hir, next, namespace, segments, from + 1);
        }
    }
}

proof fn lemma_impl_block(
    hir: HirModel,
    traits: Map<Seq<char>, BuiltinTraitId>,
    module: ModuleId,
    item: int,
    implementation: ImplDecl,
)
    requires
        sound(hir),
        module.0 < hir.modules.len(),
    ensures
        grown(hir, with_impl_block(hir, traits, module, item, implementation)),
{
    if let Some(ResolvedTarget::Item(owner)) = path_target(
        hir,
        module,
        Namespace::Type,
        segments_of(implementation.owner_name@),
    ) {
        let segments = segments_of(implementation.owner_name@);
        if segments.len() == 1 {
            lemma_named_is_known(hir, module, Namespace::Type, segments[0]);
        } else if let Some(cursor) = start_of_path(hir, module, segments[0]) {
            lemma_walk_is_known(hir, cursor, Namespace::Type, segments, 1);
        }
        let (bound, trait_target) = with_impl_trait(
            hir,
            traits,
            module,
            owner,
            implementation.trait_name,
        );
        let placed = HirModel {
            impl_targets: bound.impl_targets.insert(
                (module, item as usize),
                ImplTarget { owner, trait_target },
            ),
            ..bound
        };
        lemma_impl_methods(
            placed,
            module,
            item,
            owner,
            trait_target,
            implementation.methods@,
            0,
        );
    }
}

proof fn lemma_impl_items(
    hir: HirModel,
    traits: Map<Seq<char>, BuiltinTraitId>,
    module: ModuleId,
    items: Seq<Item>,
    from: int,
)
    requires
        sound(hir),
        module.0 < hir.modules.len(),
    ensures
        grown(hir, with_impl_items(hir, traits, module, items, from)),
    decreases items, items.len() - from,
{
    if 0 <= from < items.len() {
        let next = match items[from] {
            Item::Impl(implementation) => {
                lemma_impl_block(hir, traits, module, from, implementation);
                with_impl_block(hir, traits, module, from, implementation)
            },
            Item::Mod(child) => match child_module(hir, module, child.name@) {
                Some(id) => {
                    assert(hir.modules[module.0 as int].modules.dom().contains(child.name@));
                    lemma_impl_items(hir, traits, id, child.items@, 0);
                    with_impl_items(hir, traits, id, child.items@, 0)
                },
                None => hir,
            },
            _ => hir,
        };
        lemma_impl_items(next, traits, module, items, from + 1);
    }
}

proof fn lemma_defaults(
    hir: HirModel,
    owner: DefId,
    trait_id: DefId,
    names: Seq<Seq<char>>,
    from: int,
)
    requires
        sound(hir),
    ensures
        grown(hir, with_defaults(hir, owner, trait_id, names, from)),
    decreases names.len() - from,
{
    if 0 <= from < names.len() {
        let name = names[from];
        let next = match found(hir.trait_items, (trait_id, name)) {
            Some(origin) => if !hir.trait_default_methods.contains(origin)
                || hir.associated_items.dom().contains((owner, name)) || !hir.has_definition(owner)
                || !hir.has_definition(origin) {
                hir
            } else {
                let module = hir.definition(owner).module;
                let kind = DefKind::Method { owner };
                let is_public = hir.definition(origin).is_public;
                lemma_definition(hir, module, name, kind, is_public);
                let (defined, id) = hir.with_definition(module, name, kind, is_public);
                HirModel {
                    associated_items: defined.associated_items.insert((owner, name), id),
                    method_origins: defined.method_origins.insert(id, origin),
                    method_traits: defined.method_traits.insert(id, TraitTarget::Item(trait_id)),
                    ..defined
                }
            },
            None => hir,
        };
        lemma_defaults(next, owner, trait_id, names, from + 1);
    }
}

proof fn lemma_inherited(hir: HirModel, list: Seq<(DefId, TraitTarget)>, from: int)
    requires
        sound(hir),
    ensures
        grown(hir, with_inherited(hir, list, from)),
    decreases list.len() - from,
{
    if 0 <= from < list.len() {
        let next = match list[from].1 {
            TraitTarget::Item(trait_id) => {
                let names = trait_method_names(
                    hir.definitions,
                    trait_id,
                    hir.definitions.len() as int,
                );
                lemma_defaults(hir, list[from].0, trait_id, names, 0);
                with_defaults(hir, list[from].0, trait_id, names, 0)
            },
            _ => hir,
        };
        lemma_inherited(next, list, from + 1);
    }
}

/// The declarations of any program have the identities of their places, every
/// definition stands in a known module, every module comes after the one around
/// it, and every declared name means something known. Variants and methods come
/// after their owners.
pub proof fn law_declarations_are_consistent(
    program: Program,
    traits: Map<Seq<char>, BuiltinTraitId>,
)
    ensures
        consistent(
            declarations_of(program, traits).modules,
            declarations_of(program, traits).definitions,
        ),
        is_known(declarations_of(program, traits)),
{
    lemma_program(program, traits);
}

/// Collecting declarations fills none of the tables that describe a standard
/// library, and declares no locals.
pub proof fn law_declarations_leave_the_library_alone(
    program: Program,
    traits: Map<Seq<char>, BuiltinTraitId>,
)
    ensures
        same_library(nothing_declared(program.is_decl), declarations_of(program, traits)),
        declarations_of(program, traits).locals.len() == 0,
{
    lemma_program(program, traits);
}

proof fn lemma_program(program: Program, traits: Map<Seq<char>, BuiltinTraitId>)
    ensures
        grown(nothing_declared(program.is_decl), declarations_of(program, traits)),
{
    let root = ModuleId(0);
    let items = program.items@;
    let start = nothing_declared(program.is_decl);
    assert(sound(start));
    lemma_items(start, root, items, 0);
    let hir = with_items(start, root, items, 0);
    lemma_trait_items(hir, root, items, 0);
    let hir = with_trait_items(hir, root, items, 0);
    lemma_impl_items(hir, traits, root, items, 0);
    let hir = with_impl_items(hir, traits, root, items, 0);
    lemma_inherited(hir, hir.type_traits, 0);
}

} // verus!
