//! Which types and modules need a Lua table, and how many records it holds.

use vstd::prelude::*;

use super::analysis::{metamethod, op_alias};
use super::state::{Env, EnvModel};
use crate::ast::{ExternFn, Item, TraitDecl};
use crate::backend_layout::{identifier_of, user_identifier};
use crate::hir::{DefId, DefKind, LocalId, ModuleId, ResolvedHir, ResolvedTarget};
use crate::table::{with_text, KeySet, Table, TextSet};
use crate::text::same_text;
use crate::typed::TypedProgram;

verus! {

// ---------------------------------------------------------------------------
// Facts about the whole program.
// ---------------------------------------------------------------------------

/// The types that get a metatable, with those of `items[from..]`: every type
/// that implements a trait, and every public type with methods.
pub open spec fn metatables(
    program: TypedProgram,
    items: Seq<Item>,
    module: ModuleId,
    from: int,
    found: Set<DefId>,
) -> Set<DefId>
    decreases items, items.len() - from,
{
    if from < 0 || from >= items.len() {
        found
    } else {
        let next = match items[from] {
            Item::Impl(_) => match program.hir.impl_targets.at((module, from as usize)) {
                Some(implementation) => if implementation.trait_target is Some || (
                program.hir.has_definition(implementation.owner) && program.hir.spec_definition(
                    implementation.owner,
                ).is_public) {
                    found.insert(implementation.owner)
                } else {
                    found
                },
                None => found,
            },
            Item::Mod(child) => if child.is_decl {
                found
            } else {
                match program.spec_child_module(module, from as usize) {
                    Some(inner) => metatables(program, child.items@, inner, 0, found),
                    None => found,
                }
            },
            _ => found,
        };
        metatables(program, items, module, from + 1, next)
    }
}

/// Collects the types that get a metatable.
pub fn collect_metatable_types(
    program: &TypedProgram,
    items: &Vec<Item>,
    module: ModuleId,
    out: &mut KeySet<DefId>,
)
    ensures
        final(out)@ == metatables(*program, items@, module, 0, old(out)@),
    decreases *items,
{
    let ghost start = out@;
    let mut i: usize = 0;
    while i < items.len()
        invariant
            i <= items.len(),
            metatables(*program, items@, module, i as int, out@) == metatables(
                *program,
                items@,
                module,
                0,
                start,
            ),
        decreases items.len() - i,
    {
        match &items[i] {
            Item::Impl(_) => {
                if let Some(implementation) = program.implementation(module, i) {
                    let public = match program.hir.find_definition(implementation.owner) {
                        Some(data) => data.is_public,
                        None => false,
                    };
                    if implementation.trait_target.is_some() || public {
                        let _ = out.insert(implementation.owner);
                    }
                }
            },
            Item::Mod(child) => {
                if !child.is_decl {
                    if let Some(inner) = program.child_module(module, i) {
                        collect_metatable_types(program, &child.items, inner, out);
                    }
                }
            },
            _ => {},
        }
        i += 1;
    }
}

/// The traits by their definitions, with those of `items[from..]`.
pub open spec fn traits_of(
    program: TypedProgram,
    items: Seq<Item>,
    module: ModuleId,
    from: int,
    found: Map<DefId, &TraitDecl>,
) -> Map<DefId, &TraitDecl>
    decreases items, items.len() - from,
{
    if from < 0 || from >= items.len() {
        found
    } else {
        let next = match items[from] {
            Item::Trait(declaration) => match program.spec_item_definition(module, from as usize) {
                Some(definition) => found.insert(definition, &declaration),
                None => found,
            },
            Item::Mod(child) => match program.spec_child_module(module, from as usize) {
                Some(inner) => traits_of(program, child.items@, inner, 0, found),
                None => found,
            },
            _ => found,
        };
        traits_of(program, items, module, from + 1, next)
    }
}

/// Collects the traits of all modules.
pub fn collect_traits<'p>(
    program: &TypedProgram,
    items: &'p Vec<Item>,
    module: ModuleId,
    out: &mut Table<DefId, &'p TraitDecl>,
)
    ensures
        final(out)@ == traits_of(*program, items@, module, 0, old(out)@),
    decreases *items,
{
    let ghost start = out@;
    let mut i: usize = 0;
    while i < items.len()
        invariant
            i <= items.len(),
            traits_of(*program, items@, module, i as int, out@) == traits_of(
                *program,
                items@,
                module,
                0,
                start,
            ),
        decreases items.len() - i,
    {
        match &items[i] {
            Item::Trait(declaration) => {
                if let Some(definition) = program.item_definition(module, i) {
                    let _ = out.insert(definition, declaration);
                }
            },
            Item::Mod(child) => {
                if let Some(inner) = program.child_module(module, i) {
                    collect_traits(program, &child.items, inner, out);
                }
            },
            _ => {},
        }
        i += 1;
    }
}

/// The locals that some expression refers to.
pub open spec fn locals_read(hir: ResolvedHir) -> Set<LocalId> {
    Set::new(
        |local: LocalId|
            exists|i: int|
                0 <= i < hir.expression_targets.entries@.len() && (
                #[trigger] hir.expression_targets.entries@[i]).1 == ResolvedTarget::Local(local),
    )
}

/// Collects the locals that some expression refers to.
pub fn collect_used_locals(hir: &ResolvedHir) -> (r: KeySet<LocalId>)
    ensures
        r@ == locals_read(*hir),
{
    let mut out: KeySet<LocalId> = KeySet::new();
    let entries = &hir.expression_targets.entries;
    let mut i: usize = 0;
    while i < entries.len()
        invariant
            i <= entries.len(),
            entries@ == hir.expression_targets.entries@,
            forall|local: LocalId| #[trigger]
                out@.contains(local) <==> exists|k: int|
                    0 <= k < i && (#[trigger] entries@[k]).1 == ResolvedTarget::Local(local),
        decreases entries.len() - i,
    {
        let ghost before = out@;
        if let ResolvedTarget::Local(local) = entries[i].1 {
            let _ = out.insert(local);
        }
        proof {
            assert forall|local: LocalId| #[trigger] out@.contains(local) <==> exists|k: int|
                0 <= k < i + 1 && (#[trigger] entries@[k]).1 == ResolvedTarget::Local(local) by {
                if before.contains(local) {
                    let k = choose|k: int|
                        0 <= k < i && (#[trigger] entries@[k]).1 == ResolvedTarget::Local(local);
                    assert(entries@[k].1 == ResolvedTarget::Local(local));
                }
                if entries@[i as int].1 == ResolvedTarget::Local(local) {
                    assert(out@.contains(local));
                }
            }
        }
        i += 1;
    }
    proof {
        assert(out@ =~= locals_read(*hir));
    }
    out
}

// ---------------------------------------------------------------------------
// Tables of types.
// ---------------------------------------------------------------------------

/// The record names in the table of a type, from the first `n` definitions.
pub open spec fn type_fields(env: EnvModel, owner: DefId, n: int) -> Seq<Seq<char>>
    decreases n,
{
    let hir = env.program.hir;
    if n <= 0 || n > hir.definitions@.len() {
        if env.metatable_types.contains(owner) {
            with_text(Seq::empty(), "__index"@)
        } else {
            Seq::empty()
        }
    } else {
        let rest = type_fields(env, owner, n - 1);
        let data = hir.definitions@[n - 1];
        if data.kind == (DefKind::Method { owner }) {
            let named = with_text(rest, identifier_of(data.name@));
            match hir.method_traits.at(data.id) {
                Some(target) => match metamethod(target, data.name@) {
                    Some(alias) => with_text(named, alias),
                    None => named,
                },
                None => named,
            }
        } else {
            rest
        }
    }
}

/// The number of records in the table of a type.
pub open spec fn type_capacity(env: EnvModel, owner: DefId) -> nat {
    type_fields(env, owner, env.program.hir.definitions@.len() as int).len()
}

pub fn type_table_record_capacity(env: &Env, owner: DefId) -> (r: usize)
    ensures
        r == type_capacity(env@, owner),
{
    let hir = &env.program.hir;
    let mut fields = TextSet::new();
    if env.metatable_types.has(&owner) {
        let _ = fields.insert("__index".to_string());
    }
    let mut i: usize = 0;
    while i < hir.definitions.len()
        invariant
            i <= hir.definitions.len(),
            *hir == env.program.hir,
            fields@ == type_fields(env@, owner, i as int),
        decreases hir.definitions.len() - i,
    {
        let data = &hir.definitions[i];
        if data.kind == (DefKind::Method { owner }) {
            let _ = fields.insert(user_identifier(data.name.as_str()));
            if let Some(target) = hir.method_traits.get(&data.id) {
                if let Some(alias) = op_alias(*target, data.name.as_str()) {
                    let _ = fields.insert(alias.to_string());
                }
            }
        }
        i += 1;
    }
    fields.len()
}

/// Whether one of the definitions is a method of the type.
pub open spec fn has_method(hir: ResolvedHir, owner: DefId) -> bool {
    exists|i: int|
        0 <= i < hir.definitions@.len() && (#[trigger] hir.definitions@[i]).kind == (
        DefKind::Method { owner })
}

/// Whether a type needs a table at run time: it is public, its values carry a
/// metatable, or it has methods.
pub open spec fn needs_table(env: EnvModel, owner: DefId) -> bool {
    let hir = env.program.hir;
    (hir.has_definition(owner) && hir.spec_definition(owner).is_public)
        || env.metatable_types.contains(owner) || has_method(hir, owner)
}

pub fn type_needs_runtime_table(env: &Env, owner: DefId) -> (r: bool)
    ensures
        r == needs_table(env@, owner),
{
    let hir = &env.program.hir;
    let public = match hir.find_definition(owner) {
        Some(data) => data.is_public,
        None => false,
    };
    if public || env.metatable_types.has(&owner) {
        return true;
    }
    let mut i: usize = 0;
    while i < hir.definitions.len()
        invariant
            i <= hir.definitions.len(),
            *hir == env.program.hir,
            forall|k: int|
                0 <= k < i ==> (#[trigger] hir.definitions@[k]).kind != (DefKind::Method { owner }),
        decreases hir.definitions.len() - i,
    {
        if hir.definitions[i].kind == (DefKind::Method { owner }) {
            proof {
                assert(hir.definitions@[i as int].kind == (DefKind::Method { owner }));
            }
            return true;
        }
        i += 1;
    }
    false
}

// ---------------------------------------------------------------------------
// Tables of modules.
// ---------------------------------------------------------------------------

/// The record names with one more item. A public item whose name Lua does not
/// accept is reachable under both names.
pub open spec fn with_item(fields: Seq<Seq<char>>, name: Seq<char>, public: bool) -> Seq<Seq<char>> {
    let encoded = with_text(fields, identifier_of(name));
    if public && identifier_of(name) != name {
        with_text(encoded, name)
    } else {
        encoded
    }
}

fn insert_item(fields: &mut TextSet, name: &str, public: bool)
    ensures
        final(fields)@ == with_item(old(fields)@, name@, public),
{
    let encoded = user_identifier(name);
    let differs = !same_text(encoded.as_str(), name);
    let _ = fields.insert(encoded);
    if public && differs {
        let _ = fields.insert(name.to_string());
    }
}

/// The record names with those of the host functions `list[from..]`.
pub open spec fn with_externs(fields: Seq<Seq<char>>, list: Seq<ExternFn>, from: int) -> Seq<
    Seq<char>,
>
    decreases list.len() - from,
{
    if from < 0 || from >= list.len() {
        fields
    } else {
        with_externs(with_item(fields, list[from].name@, false), list, from + 1)
    }
}

/// The record names in the table of a module, with those of `items[from..]`.
pub open spec fn module_fields(
    env: EnvModel,
    declared: Map<ModuleId, Seq<char>>,
    items: Seq<Item>,
    module: ModuleId,
    from: int,
    fields: Seq<Seq<char>>,
) -> Seq<Seq<char>>
    decreases items, items.len() - from,
{
    if from < 0 || from >= items.len() {
        fields
    } else {
        let next = match items[from] {
            Item::Fn(function) => with_item(fields, function.name@, function.is_pub),
            Item::Struct(structure) => match env.program.spec_item_definition(
                module,
                from as usize,
            ) {
                Some(definition) => if needs_table(env, definition) {
                    with_item(fields, structure.name@, structure.is_pub)
                } else {
                    fields
                },
                None => fields,
            },
            Item::Enum(enumeration) => match env.program.spec_item_definition(
                module,
                from as usize,
            ) {
                Some(definition) => if needs_table(env, definition) {
                    with_item(fields, enumeration.name@, enumeration.is_pub)
                } else {
                    fields
                },
                None => fields,
            },
            Item::Mod(child) => match env.program.spec_child_module(module, from as usize) {
                Some(inner) => {
                    let needed = if child.is_decl {
                        declared.dom().contains(inner)
                    } else {
                        child.is_pub || module_fields(
                            env,
                            declared,
                            child.items@,
                            inner,
                            0,
                            Seq::empty(),
                        ).len() > 0
                    };
                    if needed {
                        with_item(fields, child.name@, child.is_pub)
                    } else {
                        fields
                    }
                },
                None => fields,
            },
            Item::Extern(block) => with_externs(fields, block.fns@, 0),
            _ => fields,
        };
        module_fields(env, declared, items, module, from + 1, next)
    }
}

/// The number of records in the table of a module.
pub open spec fn module_capacity(
    env: EnvModel,
    declared: Map<ModuleId, Seq<char>>,
    items: Seq<Item>,
    module: ModuleId,
) -> nat {
    module_fields(env, declared, items, module, 0, Seq::empty()).len()
}

pub fn module_table_record_capacity(
    env: &Env,
    declared: &Table<ModuleId, String>,
    items: &Vec<Item>,
    module: ModuleId,
) -> (r: usize)
    ensures
        r == module_capacity(env@, crate::backend_layout::names_of(*declared), items@, module),
    decreases *items,
{
    let ghost names = crate::backend_layout::names_of(*declared);
    let mut fields = TextSet::new();
    let mut i: usize = 0;
    while i < items.len()
        invariant
            i <= items.len(),
            names == crate::backend_layout::names_of(*declared),
            module_fields(env@, names, items@, module, i as int, fields@) == module_fields(
                env@,
                names,
                items@,
                module,
                0,
                Seq::empty(),
            ),
        decreases items.len() - i,
    {
        match &items[i] {
            Item::Fn(function) => {
                insert_item(&mut fields, function.name.as_str(), function.is_pub);
            },
            Item::Struct(structure) => {
                if let Some(definition) = env.program.item_definition(module, i) {
                    if type_needs_runtime_table(env, definition) {
                        insert_item(&mut fields, structure.name.as_str(), structure.is_pub);
                    }
                }
            },
            Item::Enum(enumeration) => {
                if let Some(definition) = env.program.item_definition(module, i) {
                    if type_needs_runtime_table(env, definition) {
                        insert_item(&mut fields, enumeration.name.as_str(), enumeration.is_pub);
                    }
                }
            },
            Item::Mod(child) => {
                if let Some(inner) = env.program.child_module(module, i) {
                    let needed = if child.is_decl {
                        declared.has(&inner)
                    } else {
                        child.is_pub || module_table_record_capacity(
                            env,
                            declared,
                            &child.items,
                            inner,
                        ) > 0
                    };
                    if needed {
                        insert_item(&mut fields, child.name.as_str(), child.is_pub);
                    }
                }
            },
            Item::Extern(block) => {
                let ghost before = fields@;
                let mut k: usize = 0;
                while k < block.fns.len()
                    invariant
                        k <= block.fns.len(),
                        with_externs(fields@, block.fns@, k as int) == with_externs(
                            before,
                            block.fns@,
                            0,
                        ),
                    decreases block.fns.len() - k,
                {
                    insert_item(&mut fields, block.fns[k].name.as_str(), false);
                    k += 1;
                }
            },
            _ => {},
        }
        i += 1;
    }
    fields.len()
}

} // verus!
