//! What holds of every layout: which places differ, and how locals are named.

use vstd::prelude::*;

use crate::ast::Program;
use crate::backend_layout::{
    allocated, begins_with, dependency_alias, entry, free_name, identifier_of, is_first_free,
    finished, is_plain, law_user_identifier_is_injective, layout_of, names_in, padded, Build,
    LayoutMode, LayoutModel, PlaceModel,
};
use crate::builtins::{BuiltinId, BuiltinTraitId};
use crate::hir::{
    DefData, DefId, DefKind, LocalData, ModuleData, ModuleId, ResolvedHir, ResolvedTarget,
};
use crate::resolution::identity::law_declarations_are_consistent;
use crate::resolution::keeping::{
    law_bodies_keep_declarations, law_resolution_leaves_the_library_alone,
};
use crate::resolution::members::declarations_of;
use crate::resolution::program::resolved;
use crate::text::{decimal, join_from, joined, texts};

verus! {

/// Whether a definition of this kind has a name of its own in its module.
pub open spec fn has_own_name(kind: DefKind) -> bool {
    kind is Function || kind is Struct || kind is Enum || kind is ExternFunction
}

/// The definition that a definition belongs to.
pub open spec fn owner_of(kind: DefKind) -> Option<DefId> {
    match kind {
        DefKind::EnumVariant { owner, .. } => Some(owner),
        DefKind::Method { owner } => Some(owner),
        DefKind::TraitMethod { owner } => Some(owner),
        _ => None,
    }
}

/// Whether definitions are numbered in their order.
pub open spec fn are_numbered(definitions: Seq<DefData>) -> bool {
    forall|i: int| 0 <= i < definitions.len() ==> (#[trigger] definitions[i]).id.0 == i
}

/// Whether a definition comes after the one it belongs to.
pub open spec fn follows_its_owner(definition: DefData) -> bool {
    owner_of(definition.kind) matches Some(owner) ==> owner.0 < definition.id.0
}

/// Whether no two modules have one identity.
pub open spec fn are_distinct_modules(modules: Seq<ModuleData>) -> bool {
    forall|i: int, j: int|
        0 <= i < j < modules.len() ==> (#[trigger] modules[i]).id != (#[trigger] modules[j]).id
}

/// Whether no two locals have one identity.
pub open spec fn are_distinct_locals(locals: Seq<LocalData>) -> bool {
    forall|i: int, j: int|
        0 <= i < j < locals.len() ==> (#[trigger] locals[i]).id != (#[trigger] locals[j]).id
}

/// Whether modules below one parent have different names.
pub open spec fn siblings_differ(modules: Seq<ModuleData>) -> bool {
    forall|i: int, j: int|
        0 <= i < j < modules.len() && (#[trigger] modules[i]).parent is Some && (
        #[trigger] modules[j]).parent == modules[i].parent && modules[i].path@.len() > 0
            && modules[j].path@.len() > 0 ==> modules[i].path@.last()@ != modules[j].path@.last()@
}

/// The place that a definition has among the others: that of its owner, below its
/// owner, or none; a definition with a name of its own is left open.
pub open spec fn derived_place(
    definitions: Map<DefId, PlaceModel>,
    definition: DefData,
) -> Option<PlaceModel> {
    match definition.kind {
        DefKind::EnumVariant { owner, .. } => entry(definitions, owner),
        DefKind::Method { owner } => match entry(definitions, owner) {
            Some(place) => Some(place.field(identifier_of(definition.name@))),
            None => None,
        },
        DefKind::TraitMethod { owner } => match entry(definitions, owner) {
            Some(place) => Some(place.field(identifier_of(definition.name@))),
            None => None,
        },
        DefKind::Annotation | DefKind::Trait => None,
        _ => entry(definitions, definition.id),
    }
}

/// The definitions, modules and locals of a resolved program have the identities
/// that the laws of layouts ask for, as far as identities reach.
pub proof fn law_resolved_programs_are_numbered(
    hir: ResolvedHir,
    program: Program,
    types: Map<Seq<char>, BuiltinId>,
    values: Map<Seq<char>, BuiltinId>,
    macros: Map<Seq<char>, BuiltinId>,
    traits: Map<Seq<char>, BuiltinTraitId>,
)
    requires
        hir@ == resolved(program, types, values, macros, traits),
        hir.definitions@.len() <= u32::MAX,
        hir.modules@.len() <= u32::MAX,
        hir.locals@.len() <= u32::MAX,
    ensures
        are_numbered(hir.definitions@),
        forall|i: int|
            0 <= i < hir.definitions@.len() ==> follows_its_owner(#[trigger] hir.definitions@[i]),
        are_distinct_modules(hir.modules@),
        are_distinct_locals(hir.locals@),
{
    law_declarations_are_consistent(program, traits);
    law_bodies_keep_declarations(program, types, values, macros, traits);
    law_resolution_leaves_the_library_alone(program, types, values, macros, traits);
    assert forall|i: int| 0 <= i < hir.definitions@.len() implies (
    #[trigger] hir.definitions@[i]).id.0 == i by {
        assert(hir@.definitions[i] == hir.definitions@[i].record());
    }
    assert forall|i: int| 0 <= i < hir.definitions@.len() implies follows_its_owner(
        #[trigger] hir.definitions@[i],
    ) by {
        assert(hir@.definitions[i] == hir.definitions@[i].record());
        assert(declarations_of(program, traits).definitions[i] == hir@.definitions[i]);
    }
    assert forall|i: int, j: int| 0 <= i < j < hir.modules@.len() implies (
    #[trigger] hir.modules@[i]).id != (#[trigger] hir.modules@[j]).id by {
        assert(hir@.modules[i] == hir.modules@[i].record());
        assert(hir@.modules[j] == hir.modules@[j].record());
    }
    assert forall|i: int, j: int| 0 <= i < j < hir.locals@.len() implies (
    #[trigger] hir.locals@[i]).id != (#[trigger] hir.locals@[j]).id by {
        assert(hir@.locals[i] == hir.locals@[i].record());
        assert(hir@.locals[j] == hir.locals@[j].record());
    }
}

// ---------------------------------------------------------------------------
// Names of the compiler's own.
// ---------------------------------------------------------------------------

proof fn lemma_no_alias_prefix(name: Seq<char>, suffix: Seq<char>)
    requires
        suffix.len() == 0 || (suffix.len() >= 2 && suffix[0] == '_' && suffix[1] == '_'),
    ensures
        !begins_with(identifier_of(name) + suffix, "__rua_dep_"@),
{
    reveal_strlit("__rua_dep_");
    reveal_strlit("__rua_");
    reveal_strlit("__rua_user_");
    crate::backend_layout::law_user_identifier_is_lua_safe(name);
    let id = identifier_of(name);
    let whole = id + suffix;
    let prefix = "__rua_dep_"@;
    if begins_with(whole, prefix) {
        assert forall|i: int| 0 <= i < 10 implies whole[i] == prefix[i] by {
            assert(whole.take(10)[i] == whole[i]);
        }
        assert(id.len() >= 1);
        if id.len() >= 6 {
            assert(whole[0] == id[0] && whole[1] == id[1] && whole[2] == id[2] && whole[3] == id[3]
                && whole[4] == id[4] && whole[5] == id[5]);
            assert(id.take(6) =~= "__rua_"@);
            assert(begins_with(id, "__rua_"@));
            if is_plain(name) {
                assert(false);
            } else {
                assert(id[6] == "__rua_user_"@[6]);
                assert(whole[6] == id[6]);
            }
        } else {
            let k = id.len() as int;
            assert(whole.len() >= 10);
            assert(whole[k] == suffix[0]);
            assert(whole[k + 1] == suffix[1]);
        }
    }
}

proof fn lemma_allocated_no_alias(
    used: Set<(ModuleId, Seq<char>)>,
    scope: ModuleId,
    source: Seq<char>,
    identity: nat,
)
    requires
        allocated(used, scope, source, identity) is Some,
    ensures
        !begins_with((allocated(used, scope, source, identity)->0).1, "__rua_dep_"@),
{
    reveal_strlit("__");
    let suffix = "__"@ + decimal(identity);
    lemma_no_alias_prefix(source, Seq::empty());
    assert(identifier_of(source) + Seq::<char>::empty() =~= identifier_of(source));
    lemma_no_alias_prefix(source, suffix);
    assert(identifier_of(source) + suffix =~= identifier_of(source) + "__"@ + decimal(identity));
}

proof fn lemma_alias_prefix(segments: Seq<Seq<char>>, identity: nat, used: Set<Seq<char>>)
    requires
        dependency_alias(segments, identity, used) is Some,
    ensures
        begins_with((dependency_alias(segments, identity, used)->0).1, "__rua_dep_"@),
{
    let rest = joined(crate::backend_layout::encoded_path(segments), "_"@);
    let prefix = "__rua_dep_"@;
    assert((prefix + rest).take(prefix.len() as int) =~= prefix);
    assert((prefix + rest + "_"@ + decimal(identity)).take(prefix.len() as int) =~= prefix);
}

proof fn lemma_fields_equal(a: PlaceModel, f: Seq<char>, b: PlaceModel, g: Seq<char>)
    requires
        a.field(f) == b.field(g),
    ensures
        a == b,
        f == g,
{
    assert(a.fields.push(f).drop_last() =~= a.fields);
    assert(b.fields.push(g).drop_last() =~= b.fields);
    assert(a.fields.push(f).last() == f);
    assert(b.fields.push(g).last() == g);
}

// ---------------------------------------------------------------------------
// Modules.
// ---------------------------------------------------------------------------

/// Whether no name in use looks like the local name of a required module.
spec fn no_aliases_in_use(used: Set<(ModuleId, Seq<char>)>) -> bool {
    forall|s: ModuleId, n: Seq<char>| #[trigger]
        used.contains((s, n)) ==> !begins_with(n, "__rua_dep_"@)
}

/// How a module came to its place in a bundle.
spec fn is_bundled(build: Build, root: ModuleId, id: ModuleId) -> bool {
    let place = build.modules[id];
    if place.fields.len() == 0 {
        build.used.contains((root, place.root)) || (build.aliases.contains(place.root)
            && begins_with(place.root, "__rua_dep_"@))
    } else {
        exists|p: ModuleId, f: Seq<char>|
            build.modules.dom().contains(p) && #[trigger] build.used.contains((p, f)) && place
                == build.modules[p].field(f)
    }
}

/// How a module came to its place as another module sees it.
spec fn is_separate(
    build: Build,
    current: ModuleId,
    table: Seq<char>,
    modules: Seq<ModuleData>,
    n: int,
    id: ModuleId,
) -> bool {
    let place = build.modules[id];
    if id == current {
        place == PlaceModel::named(table)
    } else if place.fields.len() == 0 {
        build.aliases.contains(place.root) && place.root != table && begins_with(
            place.root,
            "__rua_dep_"@,
        )
    } else {
        exists|i: int|
            0 <= i < n && (#[trigger] modules[i]).id == id && modules[i].parent is Some
                && modules[i].path@.len() > 0 && build.modules.dom().contains(modules[i].parent->0)
                && place == build.modules[modules[i].parent->0].field(
                identifier_of(modules[i].path@.last()@),
            )
    }
}

spec fn modules_placed(
    build: Build,
    root: ModuleId,
    mode: LayoutMode,
    modules: Seq<ModuleData>,
    n: int,
) -> bool {
    &&& forall|id: ModuleId| #[trigger]
        build.modules.dom().contains(id) ==> exists|i: int|
            0 <= i < n && (#[trigger] modules[i]).id == id
    &&& forall|a: ModuleId, b: ModuleId|
        #![trigger build.modules.dom().contains(a), build.modules.dom().contains(b)]
        build.modules.dom().contains(a) && build.modules.dom().contains(b) && build.modules[a]
            == build.modules[b] ==> a == b
    &&& no_aliases_in_use(build.used)
    &&& match mode {
        LayoutMode::Bundle => {
            &&& !build.modules.dom().contains(root)
            &&& forall|id: ModuleId| #[trigger]
                build.modules.dom().contains(id) ==> is_bundled(build, root, id)
        },
        LayoutMode::Module { current, table } => {
            &&& build.aliases.contains(table)
            &&& forall|id: ModuleId| #[trigger]
                build.modules.dom().contains(id) ==> is_separate(
                    build,
                    current,
                    table,
                    modules,
                    n,
                    id,
                )
        },
    }
}

proof fn lemma_place_bundled(
    build: Build,
    root: ModuleId,
    modules: Seq<ModuleData>,
    n: int,
)
    requires
        0 <= n < modules.len(),
        are_distinct_modules(modules),
        modules_placed(build, root, LayoutMode::Bundle, modules, n),
        build.place_bundled(root, modules[n]) is Some,
    ensures
        modules_placed(
            build.place_bundled(root, modules[n])->0,
            root,
            LayoutMode::Bundle,
            modules,
            n + 1,
        ),
{
    let module = modules[n];
    let next = build.place_bundled(root, module)->0;
    assert(!build.modules.dom().contains(module.id)) by {
        if build.modules.dom().contains(module.id) {
            let i = choose|i: int| 0 <= i < n && (#[trigger] modules[i]).id == module.id;
            assert(modules[i].id != modules[n].id);
        }
    }
    assert forall|id: ModuleId| #[trigger] next.modules.dom().contains(id) implies exists|i: int|
        0 <= i < n + 1 && (#[trigger] modules[i]).id == id by {
        if id == module.id {
            assert(modules[n].id == id);
        } else {
            assert(build.modules.dom().contains(id));
            let i = choose|i: int| 0 <= i < n && (#[trigger] modules[i]).id == id;
            assert(modules[i].id == id);
        }
    }
    if module.id != root {
        let parent = module.parent->0;
        let source = module.path@.last()@;
        let (used, field) = allocated(build.used, parent, source, module.id.0 as nat)->0;
        lemma_allocated_no_alias(build.used, parent, source, module.id.0 as nat);
        crate::backend_layout::law_allocated_names_are_fresh(
            build.used,
            parent,
            source,
            module.id.0 as nat,
        );
        let aliased = parent != root && module.is_declaration && module.is_file;
        if aliased {
            lemma_alias_prefix(texts(module.path@), module.id.0 as nat, build.aliases);
        }
        let place = next.modules[module.id];
        assert(next.used == used);
        assert(no_aliases_in_use(next.used));
        assert forall|id: ModuleId| #[trigger] build.modules.dom().contains(id) implies is_bundled(
            next,
            root,
            id,
        ) && next.modules[id] != place by {
            assert(is_bundled(build, root, id));
            assert(next.modules[id] == build.modules[id]);
            let other = build.modules[id];
            if other.fields.len() > 0 {
                let (p, f) = choose|p: ModuleId, f: Seq<char>|
                    build.modules.dom().contains(p) && #[trigger] build.used.contains((p, f))
                        && other == build.modules[p].field(f);
                assert(next.modules[p] == build.modules[p]);
                assert(next.used.contains((p, f)));
                if place == other {
                    assert(place == build.modules[parent].field(field));
                    lemma_fields_equal(build.modules[parent], field, build.modules[p], f);
                    assert(build.modules.dom().contains(parent) && build.modules.dom().contains(p));
                }
            }
        }
        assert(is_bundled(next, root, module.id)) by {
            if parent != root && !aliased {
                assert(next.used.contains((parent, field)));
                assert(next.modules.dom().contains(parent));
                assert(next.modules[parent] == build.modules[parent]);
            }
        }
        assert forall|a: ModuleId, b: ModuleId|
            #![trigger next.modules.dom().contains(a), next.modules.dom().contains(b)]
            next.modules.dom().contains(a) && next.modules.dom().contains(b) && next.modules[a]
                == next.modules[b] implies a == b by {
            if a != module.id {
                assert(build.modules.dom().contains(a));
            }
            if b != module.id {
                assert(build.modules.dom().contains(b));
            }
        }
        assert forall|id: ModuleId| #[trigger] next.modules.dom().contains(id) implies is_bundled(
            next,
            root,
            id,
        ) by {
            if id != module.id {
                assert(build.modules.dom().contains(id));
            }
        }
    }
}

proof fn lemma_place_separate(
    build: Build,
    root: ModuleId,
    current: ModuleId,
    table: Seq<char>,
    modules: Seq<ModuleData>,
    n: int,
)
    requires
        0 <= n < modules.len(),
        are_distinct_modules(modules),
        siblings_differ(modules),
        modules_placed(build, root, LayoutMode::Module { current, table }, modules, n),
        build.place_separate(current, table, modules[n]) is Some,
    ensures
        modules_placed(
            build.place_separate(current, table, modules[n])->0,
            root,
            LayoutMode::Module { current, table },
            modules,
            n + 1,
        ),
{
    let module = modules[n];
    let next = build.place_separate(current, table, module)->0;
    let place = next.modules[module.id];
    if module.id != current && !(module.is_declaration && !module.is_file) {
        lemma_alias_prefix(texts(module.path@), module.id.0 as nat, build.aliases);
    }
    assert(!build.modules.dom().contains(module.id)) by {
        if build.modules.dom().contains(module.id) {
            let i = choose|i: int| 0 <= i < n && (#[trigger] modules[i]).id == module.id;
            assert(modules[i].id != modules[n].id);
        }
    }
    assert forall|id: ModuleId| #[trigger] next.modules.dom().contains(id) implies exists|i: int|
        0 <= i < n + 1 && (#[trigger] modules[i]).id == id by {
        if id == module.id {
            assert(modules[n].id == id);
        } else {
            assert(build.modules.dom().contains(id));
            let i = choose|i: int| 0 <= i < n && (#[trigger] modules[i]).id == id;
            assert(modules[i].id == id);
        }
    }
    assert forall|id: ModuleId| #[trigger] build.modules.dom().contains(id) implies is_separate(
        next,
        current,
        table,
        modules,
        n + 1,
        id,
    ) && next.modules[id] != place by {
        assert(is_separate(build, current, table, modules, n, id));
        assert(next.modules[id] == build.modules[id]);
        let other = build.modules[id];
        if id != current && other.fields.len() > 0 {
            let i = choose|i: int|
                0 <= i < n && (#[trigger] modules[i]).id == id && modules[i].parent is Some
                    && modules[i].path@.len() > 0 && build.modules.dom().contains(
                    modules[i].parent->0,
                ) && other == build.modules[modules[i].parent->0].field(
                    identifier_of(modules[i].path@.last()@),
                );
            assert(next.modules[modules[i].parent->0] == build.modules[modules[i].parent->0]);
            assert(modules[i].id == id);
            if place == other {
                assert(module.id != current);
                assert(module.is_declaration && !module.is_file);
                let mine = build.modules[module.parent->0];
                assert(place == mine.field(identifier_of(module.path@.last()@)));
                lemma_fields_equal(
                    mine,
                    identifier_of(module.path@.last()@),
                    build.modules[modules[i].parent->0],
                    identifier_of(modules[i].path@.last()@),
                );
                law_user_identifier_is_injective(module.path@.last()@, modules[i].path@.last()@);
                assert(modules[i].parent == modules[n].parent);
            }
        }
    }
    assert(is_separate(next, current, table, modules, n + 1, module.id)) by {
        if module.id != current && module.is_declaration && !module.is_file {
            assert(modules[n].id == module.id);
            assert(next.modules[module.parent->0] == build.modules[module.parent->0]);
        }
    }
    assert forall|a: ModuleId, b: ModuleId|
        #![trigger next.modules.dom().contains(a), next.modules.dom().contains(b)]
        next.modules.dom().contains(a) && next.modules.dom().contains(b) && next.modules[a]
            == next.modules[b] implies a == b by {
        if a != module.id {
            assert(build.modules.dom().contains(a));
        }
        if b != module.id {
            assert(build.modules.dom().contains(b));
        }
    }
    assert forall|id: ModuleId| #[trigger] next.modules.dom().contains(id) implies is_separate(
        next,
        current,
        table,
        modules,
        n + 1,
        id,
    ) by {
        if id != module.id {
            assert(build.modules.dom().contains(id));
        }
    }
}

proof fn lemma_place_modules(
    build: Build,
    root: ModuleId,
    mode: LayoutMode,
    modules: Seq<ModuleData>,
    n: int,
)
    requires
        0 <= n <= modules.len(),
        are_distinct_modules(modules),
        mode is Module ==> siblings_differ(modules),
        modules_placed(build, root, mode, modules, n),
        build.place_modules(root, mode, modules, n) is Some,
    ensures
        modules_placed(
            build.place_modules(root, mode, modules, n)->0,
            root,
            mode,
            modules,
            modules.len() as int,
        ),
    decreases modules.len() - n,
{
    if n < modules.len() {
        match mode {
            LayoutMode::Bundle => {
                lemma_place_bundled(build, root, modules, n);
            },
            LayoutMode::Module { current, table } => {
                lemma_place_separate(build, root, current, table, modules, n);
            },
        }
        lemma_place_modules(
            build.place_module(root, mode, modules[n])->0,
            root,
            mode,
            modules,
            n + 1,
        );
    }
}

// ---------------------------------------------------------------------------
// Definitions.
// ---------------------------------------------------------------------------

/// The name under which a place is known where it stands.
pub open spec fn last_name(place: PlaceModel) -> Seq<char> {
    place.segments().last()
}

/// Whether a definition stands in its module under a name that is in use there.
spec fn is_member(
    build: Build,
    root: ModuleId,
    mode: LayoutMode,
    definition: DefData,
) -> bool {
    &&& build.definitions.dom().contains(definition.id)
    &&& build.used.contains((definition.module, last_name(build.definitions[definition.id])))
    &&& build.member_place(
        root,
        mode,
        definition.module,
        last_name(build.definitions[definition.id]),
    ) == Some(build.definitions[definition.id])
}

spec fn definitions_placed(
    build: Build,
    root: ModuleId,
    mode: LayoutMode,
    definitions: Seq<DefData>,
    n: int,
) -> bool {
    &&& forall|id: DefId| #[trigger] build.definitions.dom().contains(id) ==> id.0 < n
    &&& forall|i: int|
        0 <= i < n && follows_its_owner(#[trigger] definitions[i]) ==> entry(
            build.definitions,
            definitions[i].id,
        ) == derived_place(build.definitions, definitions[i])
    &&& forall|i: int|
        0 <= i < n && has_own_name((#[trigger] definitions[i]).kind) ==> is_member(
            build,
            root,
            mode,
            definitions[i],
        )
    &&& forall|i: int, j: int|
        0 <= i < j < n && has_own_name((#[trigger] definitions[i]).kind) && has_own_name(
            (#[trigger] definitions[j]).kind,
        ) ==> build.definitions[definitions[i].id] != build.definitions[definitions[j].id]
    &&& no_aliases_in_use(build.used)
}

/// Whether different modules have different places.
spec fn modules_differ(build: Build) -> bool {
    forall|a: ModuleId, b: ModuleId|
        #![trigger build.modules.dom().contains(a), build.modules.dom().contains(b)]
        build.modules.dom().contains(a) && build.modules.dom().contains(b) && build.modules[a]
            == build.modules[b] ==> a == b
}

proof fn lemma_last_name(place: PlaceModel, field: Seq<char>)
    ensures
        last_name(PlaceModel::named(field)) == field,
        last_name(place.field(field)) == field,
{
    assert(PlaceModel::named(field).segments() =~= seq![field]);
    assert(place.field(field).segments() =~= place.segments().push(field));
}

#[verifier::rlimit(40)]
proof fn lemma_place_definition(
    build: Build,
    root: ModuleId,
    mode: LayoutMode,
    definitions: Seq<DefData>,
    n: int,
)
    requires
        0 <= n < definitions.len(),
        are_numbered(definitions),
        modules_differ(build),
        definitions_placed(build, root, mode, definitions, n),
        build.place_definition(root, mode, definitions[n]) is Some,
    ensures
        definitions_placed(
            build.place_definition(root, mode, definitions[n])->0,
            root,
            mode,
            definitions,
            n + 1,
        ),
        (build.place_definition(root, mode, definitions[n])->0).modules == build.modules,
        build.used.subset_of((build.place_definition(root, mode, definitions[n])->0).used),
{
    let definition = definitions[n];
    let next = build.place_definition(root, mode, definition)->0;
    assert(definition.id.0 == n);
    assert(!build.definitions.dom().contains(definition.id));
    assert forall|i: int| 0 <= i < n implies (#[trigger] definitions[i]).id != definition.id by {
        assert(definitions[i].id.0 == i);
    }
    let own = has_own_name(definition.kind);
    if own {
        let (used, field) = allocated(
            build.used,
            definition.module,
            definition.name@,
            definition.id.0 as nat,
        )->0;
        lemma_allocated_no_alias(
            build.used,
            definition.module,
            definition.name@,
            definition.id.0 as nat,
        );
        crate::backend_layout::law_allocated_names_are_fresh(
            build.used,
            definition.module,
            definition.name@,
            definition.id.0 as nat,
        );
        let place = build.member_place(root, mode, definition.module, field)->0;
        assert(next.definitions == build.definitions.insert(definition.id, place));
        assert(next.used == used);
        if !(mode is Bundle && definition.module == root) {
            lemma_last_name(build.modules[definition.module], field);
        } else {
            lemma_last_name(place, field);
        }
        assert(last_name(place) == field);
        assert forall|i: int|
            0 <= i < n && has_own_name((#[trigger] definitions[i]).kind) implies build.definitions[definitions[i].id]
            != place by {
            let other = definitions[i];
            assert(is_member(build, root, mode, other));
            let theirs = build.definitions[other.id];
            if theirs == place {
                assert(last_name(theirs) == field);
                let there = mode is Bundle && other.module == root;
                let here = mode is Bundle && definition.module == root;
                if there || here {
                    assert(place.fields.len() == 0);
                    assert(there && here);
                } else {
                    lemma_fields_equal(
                        build.modules[other.module],
                        field,
                        build.modules[definition.module],
                        field,
                    );
                    assert(build.modules.dom().contains(other.module)
                        && build.modules.dom().contains(definition.module));
                }
                assert(build.used.contains((definition.module, field)));
            }
        }
    }
    assert(next.modules == build.modules);
    assert(no_aliases_in_use(next.used));
    assert forall|i: int| 0 <= i < n + 1 && follows_its_owner(
        #[trigger] definitions[i],
    ) implies entry(next.definitions, definitions[i].id) == derived_place(
        next.definitions,
        definitions[i],
    ) by {
        if let Some(owner) = owner_of(definitions[i].kind) {
            assert(owner.0 < i);
            assert(owner != definition.id);
        }
        if i < n {
            assert(entry(build.definitions, definitions[i].id) == derived_place(
                build.definitions,
                definitions[i],
            ));
        }
    }
    assert forall|i: int|
        0 <= i < n + 1 && has_own_name((#[trigger] definitions[i]).kind) implies is_member(
        next,
        root,
        mode,
        definitions[i],
    ) by {
        if i < n {
            assert(is_member(build, root, mode, definitions[i]));
        }
    }
    assert forall|i: int, j: int|
        0 <= i < j < n + 1 && has_own_name((#[trigger] definitions[i]).kind) && has_own_name(
            (#[trigger] definitions[j]).kind,
        ) implies next.definitions[definitions[i].id] != next.definitions[definitions[j].id] by {
        assert(is_member(build, root, mode, definitions[i]));
        if j < n {
            assert(is_member(build, root, mode, definitions[j]));
        }
    }
}

proof fn lemma_place_definitions(
    build: Build,
    root: ModuleId,
    mode: LayoutMode,
    definitions: Seq<DefData>,
    n: int,
)
    requires
        0 <= n <= definitions.len(),
        are_numbered(definitions),
        modules_differ(build),
        definitions_placed(build, root, mode, definitions, n),
        build.place_definitions(root, mode, definitions, n) is Some,
    ensures
        definitions_placed(
            build.place_definitions(root, mode, definitions, n)->0,
            root,
            mode,
            definitions,
            definitions.len() as int,
        ),
        (build.place_definitions(root, mode, definitions, n)->0).modules == build.modules,
        build.used.subset_of((build.place_definitions(root, mode, definitions, n)->0).used),
    decreases definitions.len() - n,
{
    if n < definitions.len() {
        lemma_place_definition(build, root, mode, definitions, n);
        lemma_place_definitions(
            build.place_definition(root, mode, definitions[n])->0,
            root,
            mode,
            definitions,
            n + 1,
        );
    }
}

/// The build of a layout behind its modules, and behind its definitions.
spec fn stages(hir: ResolvedHir, mode: LayoutMode) -> (Build, Build) {
    let modules = Build::initial(mode).place_modules(hir.root, mode, hir.modules@, 0)->0;
    (modules, modules.place_definitions(hir.root, mode, hir.definitions@, 0)->0)
}

proof fn lemma_stages(hir: ResolvedHir, mode: LayoutMode)
    requires
        layout_of(hir, mode) is Some,
        are_distinct_modules(hir.modules@),
        are_numbered(hir.definitions@),
        mode is Module ==> siblings_differ(hir.modules@),
    ensures
        ({
            let (modules, definitions) = stages(hir, mode);
            &&& modules_placed(modules, hir.root, mode, hir.modules@, hir.modules@.len() as int)
            &&& definitions_placed(
                definitions,
                hir.root,
                mode,
                hir.definitions@,
                hir.definitions@.len() as int,
            )
            &&& definitions.modules == modules.modules
            &&& modules.used.subset_of(definitions.used)
            &&& (layout_of(hir, mode)->0).modules == modules.modules
            &&& (layout_of(hir, mode)->0).definitions == definitions.definitions
        }),
{
    let start = Build::initial(mode);
    lemma_place_modules(start, hir.root, mode, hir.modules@, 0);
    let (modules, definitions) = stages(hir, mode);
    lemma_no_definitions_yet(start, hir.root, mode, hir.modules@, 0);
    lemma_place_definitions(modules, hir.root, mode, hir.definitions@, 0);
    crate::backend_layout::lemma_locals_keep_places(definitions, hir.locals@, 0);
}

proof fn lemma_no_definitions_yet(
    build: Build,
    root: ModuleId,
    mode: LayoutMode,
    modules: Seq<ModuleData>,
    n: int,
)
    requires
        build.place_modules(root, mode, modules, n) is Some,
    ensures
        (build.place_modules(root, mode, modules, n)->0).definitions == build.definitions,
        (build.place_modules(root, mode, modules, n)->0).locals == build.locals,
        (build.place_modules(root, mode, modules, n)->0).local_names == build.local_names,
    decreases modules.len() - n,
{
    if 0 <= n < modules.len() {
        lemma_no_definitions_yet(
            build.place_module(root, mode, modules[n])->0,
            root,
            mode,
            modules,
            n + 1,
        );
    }
}

/// Different functions, structs, enums and host functions of a program live at
/// different places.
pub proof fn law_definitions_have_their_own_places(
    hir: ResolvedHir,
    mode: LayoutMode,
    i: int,
    j: int,
)
    requires
        layout_of(hir, mode) is Some,
        are_distinct_modules(hir.modules@),
        are_numbered(hir.definitions@),
        mode is Module ==> siblings_differ(hir.modules@),
        0 <= i < hir.definitions@.len(),
        0 <= j < hir.definitions@.len(),
        i != j,
        has_own_name(hir.definitions@[i].kind),
        has_own_name(hir.definitions@[j].kind),
    ensures
        ({
            let layout = layout_of(hir, mode)->0;
            let first = layout.target(ResolvedTarget::Item(hir.definitions@[i].id));
            let second = layout.target(ResolvedTarget::Item(hir.definitions@[j].id));
            first is Some && second is Some && first != second
        }),
{
    lemma_stages(hir, mode);
    let (_, build) = stages(hir, mode);
    assert(is_member(build, hir.root, mode, hir.definitions@[i]));
    assert(is_member(build, hir.root, mode, hir.definitions@[j]));
    if i < j {
        assert(build.definitions[hir.definitions@[i].id]
            != build.definitions[hir.definitions@[j].id]);
    } else {
        assert(build.definitions[hir.definitions@[j].id]
            != build.definitions[hir.definitions@[i].id]);
    }
}

/// A variant lives where its enum lives, a method below its owner under its own
/// name, and a trait or an annotation nowhere, so that a trait method has no place
/// either.
pub proof fn law_members_follow_their_owners(hir: ResolvedHir, mode: LayoutMode, i: int)
    requires
        layout_of(hir, mode) is Some,
        are_distinct_modules(hir.modules@),
        are_numbered(hir.definitions@),
        mode is Module ==> siblings_differ(hir.modules@),
        0 <= i < hir.definitions@.len(),
        follows_its_owner(hir.definitions@[i]),
    ensures
        ({
            let layout = layout_of(hir, mode)->0;
            let definition = hir.definitions@[i];
            let place = layout.target(ResolvedTarget::Item(definition.id));
            match definition.kind {
                DefKind::EnumVariant { owner, .. } => place == layout.target(
                    ResolvedTarget::Item(owner),
                ),
                DefKind::Method { owner } => match layout.target(ResolvedTarget::Item(owner)) {
                    Some(above) => place == Some(above.field(identifier_of(definition.name@))),
                    None => place is None,
                },
                DefKind::TraitMethod { owner } => match layout.target(
                    ResolvedTarget::Item(owner),
                ) {
                    Some(above) => place == Some(above.field(identifier_of(definition.name@))),
                    None => place is None,
                },
                DefKind::Annotation | DefKind::Trait => place is None,
                _ => place is Some,
            }
        }),
{
    lemma_stages(hir, mode);
    let (_, build) = stages(hir, mode);
    assert(entry(build.definitions, hir.definitions@[i].id) == derived_place(
        build.definitions,
        hir.definitions@[i],
    ));
    if has_own_name(hir.definitions@[i].kind) {
        assert(is_member(build, hir.root, mode, hir.definitions@[i]));
    }
}

/// The root of a bundle has no table: its definitions are locals of the file.
pub proof fn law_root_of_a_bundle_has_no_table(hir: ResolvedHir)
    requires
        layout_of(hir, LayoutMode::Bundle) is Some,
        are_distinct_modules(hir.modules@),
        are_numbered(hir.definitions@),
    ensures
        (layout_of(hir, LayoutMode::Bundle)->0).target(ResolvedTarget::Module(hir.root)) is None,
{
    lemma_stages(hir, LayoutMode::Bundle);
}

/// Different modules of a program have different tables.
pub proof fn law_modules_have_their_own_places(
    hir: ResolvedHir,
    mode: LayoutMode,
    a: ModuleId,
    b: ModuleId,
)
    requires
        layout_of(hir, mode) is Some,
        are_distinct_modules(hir.modules@),
        are_numbered(hir.definitions@),
        mode is Module ==> siblings_differ(hir.modules@),
        a != b,
    ensures
        ({
            let layout = layout_of(hir, mode)->0;
            let first = layout.target(ResolvedTarget::Module(a));
            first is Some ==> first != layout.target(ResolvedTarget::Module(b))
        }),
{
    lemma_stages(hir, mode);
    let (build, _) = stages(hir, mode);
    if build.modules.dom().contains(a) && build.modules.dom().contains(b) {
        assert(build.modules[a] != build.modules[b]);
    }
}

// ---------------------------------------------------------------------------
// Locals.
// ---------------------------------------------------------------------------

/// Whether no name in use is longer than a limit.
spec fn fits(used: Set<(ModuleId, Seq<char>)>, limit: nat) -> bool {
    forall|s: ModuleId, n: Seq<char>| #[trigger] used.contains((s, n)) ==> n.len() <= limit
}

proof fn lemma_fits_more(
    used: Set<(ModuleId, Seq<char>)>,
    limit: nat,
    scope: ModuleId,
    name: Seq<char>,
)
    requires
        fits(used, limit),
    ensures
        fits(
            used.insert((scope, name)),
            if name.len() > limit {
                name.len()
            } else {
                limit
            },
        ),
{
}

proof fn lemma_first_free(names: Set<Seq<char>>, base: Seq<char>, k: nat) -> (least: nat)
    requires
        !names.contains(padded(base, k)),
    ensures
        is_first_free(names, base, least),
    decreases k,
{
    if exists|j: nat| j < k && !names.contains(#[trigger] padded(base, j)) {
        let j = choose|j: nat| j < k && !names.contains(#[trigger] padded(base, j));
        lemma_first_free(names, base, j)
    } else {
        k
    }
}

proof fn lemma_free_name_is_free(
    used: Set<(ModuleId, Seq<char>)>,
    limit: nat,
    scope: ModuleId,
    base: Seq<char>,
)
    requires
        fits(used, limit),
    ensures
        !used.contains((scope, free_name(names_in(used, scope), base))),
        exists|k: nat| free_name(names_in(used, scope), base) == #[trigger] padded(base, k),
{
    let names = names_in(used, scope);
    let far = padded(base, limit + 1);
    assert(far.len() == base.len() + limit + 1);
    assert(!names.contains(far)) by {
        if names.contains(far) {
            assert(used.contains((scope, far)));
        }
    }
    let least = lemma_first_free(names, base, limit + 1);
    let c = choose|k: nat| is_first_free(names, base, k);
    assert(is_first_free(names, base, least));
    assert(is_first_free(names, base, c));
    assert(free_name(names, base) == padded(base, c));
    assert(!names.contains(padded(base, c)));
}

spec fn locals_named(
    build: Build,
    taken: Set<(ModuleId, Seq<char>)>,
    locals: Seq<LocalData>,
    n: int,
) -> bool {
    &&& exists|limit: nat| fits(build.used, limit)
    &&& no_aliases_in_use(build.used)
    &&& taken.subset_of(build.used)
    &&& forall|m: ModuleId, s: Seq<char>| #[trigger]
        build.local_names.dom().contains((m, s)) ==> {
            &&& build.used.contains((m, build.local_names[(m, s)]))
            &&& !taken.contains((m, build.local_names[(m, s)]))
            &&& exists|i: int|
                0 <= i < n && (#[trigger] locals[i]).module == m && locals[i].name@ == s
        }
    &&& forall|m: ModuleId, a: Seq<char>, b: Seq<char>|
        #![trigger build.local_names.dom().contains((m, a)), build.local_names.dom().contains((m, b))]
        build.local_names.dom().contains((m, a)) && build.local_names.dom().contains((m, b))
            && build.local_names[(m, a)] == build.local_names[(m, b)] ==> a == b
    &&& forall|i: int|
        0 <= i < n ==> {
            &&& build.local_names.dom().contains(((#[trigger] locals[i]).module, locals[i].name@))
            &&& entry(build.locals, locals[i].id) == Some(
                PlaceModel::named(build.local_names[(locals[i].module, locals[i].name@)]),
            )
        }
}

#[verifier::rlimit(40)]
proof fn lemma_place_local(
    build: Build,
    taken: Set<(ModuleId, Seq<char>)>,
    locals: Seq<LocalData>,
    n: int,
)
    requires
        0 <= n < locals.len(),
        are_distinct_locals(locals),
        locals_named(build, taken, locals, n),
    ensures
        locals_named(build.place_local(locals[n]), taken, locals, n + 1),
{
    let local = locals[n];
    let next = build.place_local(local);
    let name = build.local_name(local);
    let key = (local.module, local.name@);
    let limit = choose|limit: nat| fits(build.used, limit);
    let candidate = identifier_of(local.name@);
    assert forall|i: int| 0 <= i < n implies (#[trigger] locals[i]).id != local.id by {
        assert(locals[i].id != locals[n].id);
    }
    if !build.local_names.dom().contains(key) {
        lemma_no_alias_prefix(local.name@, Seq::empty());
        assert(candidate + Seq::<char>::empty() =~= candidate);
        if build.used.contains((local.module, candidate)) {
            let base = candidate + "__local"@;
            lemma_free_name_is_free(build.used, limit, local.module, base);
            let k = choose|k: nat| name == #[trigger] padded(base, k);
            reveal_strlit("__local");
            let suffix = "__local"@ + Seq::new(k, |i: int| '_');
            lemma_no_alias_prefix(local.name@, suffix);
            assert(candidate + suffix =~= padded(base, k));
        }
        assert(!build.used.contains((local.module, name)));
        lemma_fits_more(build.used, limit, local.module, name);
        assert(next.used == build.used.insert((local.module, name)));
    } else {
        assert(fits(next.used, limit));
    }
    assert(no_aliases_in_use(next.used));
    assert forall|m: ModuleId, s: Seq<char>| #[trigger]
        next.local_names.dom().contains((m, s)) implies {
        &&& next.used.contains((m, next.local_names[(m, s)]))
        &&& !taken.contains((m, next.local_names[(m, s)]))
        &&& exists|i: int|
            0 <= i < n + 1 && (#[trigger] locals[i]).module == m && locals[i].name@ == s
    } by {
        if build.local_names.dom().contains((m, s)) {
            let i = choose|i: int|
                0 <= i < n && (#[trigger] locals[i]).module == m && locals[i].name@ == s;
            assert(locals[i].module == m);
        } else {
            assert(locals[n].module == m && locals[n].name@ == s);
        }
    }
    assert forall|m: ModuleId, a: Seq<char>, b: Seq<char>|
        #![trigger next.local_names.dom().contains((m, a)), next.local_names.dom().contains((m, b))]
        next.local_names.dom().contains((m, a)) && next.local_names.dom().contains((m, b))
            && next.local_names[(m, a)] == next.local_names[(m, b)] implies a == b by {
        if build.local_names.dom().contains((m, a)) && build.local_names.dom().contains((m, b)) {
            assert(build.local_names[(m, a)] == build.local_names[(m, b)]);
        } else if build.local_names.dom().contains((m, a)) {
            assert(build.used.contains((m, build.local_names[(m, a)])));
        } else if build.local_names.dom().contains((m, b)) {
            assert(build.used.contains((m, build.local_names[(m, b)])));
        }
    }
    assert forall|i: int| 0 <= i < n + 1 implies {
        &&& next.local_names.dom().contains(((#[trigger] locals[i]).module, locals[i].name@))
        &&& entry(next.locals, locals[i].id) == Some(
            PlaceModel::named(next.local_names[(locals[i].module, locals[i].name@)]),
        )
    } by {
        if i < n {
            assert(build.local_names.dom().contains((locals[i].module, locals[i].name@)));
            assert(entry(build.locals, locals[i].id) is Some);
            assert(locals[i].id != local.id);
        }
    }
}

proof fn lemma_place_locals(
    build: Build,
    taken: Set<(ModuleId, Seq<char>)>,
    locals: Seq<LocalData>,
    n: int,
)
    requires
        0 <= n <= locals.len(),
        are_distinct_locals(locals),
        locals_named(build, taken, locals, n),
    ensures
        locals_named(
            build.place_locals(locals, n),
            taken,
            locals,
            locals.len() as int,
        ),
    decreases locals.len() - n,
{
    if n < locals.len() {
        lemma_place_local(build, taken, locals, n);
        lemma_place_locals(build.place_local(locals[n]), taken, locals, n + 1);
    }
}

proof fn lemma_modules_fit(
    build: Build,
    limit: nat,
    root: ModuleId,
    mode: LayoutMode,
    modules: Seq<ModuleData>,
    n: int,
) -> (r: nat)
    requires
        fits(build.used, limit),
        build.place_modules(root, mode, modules, n) is Some,
    ensures
        fits((build.place_modules(root, mode, modules, n)->0).used, r),
    decreases modules.len() - n,
{
    if 0 <= n < modules.len() {
        let module = modules[n];
        let next = build.place_module(root, mode, module)->0;
        if mode is Bundle && module.id != root {
            let parent = module.parent->0;
            let field = (allocated(
                build.used,
                parent,
                module.path@.last()@,
                module.id.0 as nat,
            )->0).1;
            lemma_fits_more(build.used, limit, parent, field);
            assert(next.used == build.used.insert((parent, field)));
            let wider = if field.len() > limit {
                field.len()
            } else {
                limit
            };
            lemma_modules_fit(next, wider, root, mode, modules, n + 1)
        } else {
            assert(next.used == build.used);
            lemma_modules_fit(next, limit, root, mode, modules, n + 1)
        }
    } else {
        limit
    }
}

proof fn lemma_definitions_fit(
    build: Build,
    limit: nat,
    root: ModuleId,
    mode: LayoutMode,
    definitions: Seq<DefData>,
    n: int,
) -> (r: nat)
    requires
        fits(build.used, limit),
        build.place_definitions(root, mode, definitions, n) is Some,
    ensures
        fits((build.place_definitions(root, mode, definitions, n)->0).used, r),
        (build.place_definitions(root, mode, definitions, n)->0).locals == build.locals,
        (build.place_definitions(root, mode, definitions, n)->0).local_names == build.local_names,
    decreases definitions.len() - n,
{
    if 0 <= n < definitions.len() {
        let definition = definitions[n];
        let next = build.place_definition(root, mode, definition)->0;
        if has_own_name(definition.kind) {
            let field = (allocated(
                build.used,
                definition.module,
                definition.name@,
                definition.id.0 as nat,
            )->0).1;
            lemma_fits_more(build.used, limit, definition.module, field);
            assert(next.used == build.used.insert((definition.module, field)));
            let wider = if field.len() > limit {
                field.len()
            } else {
                limit
            };
            lemma_definitions_fit(next, wider, root, mode, definitions, n + 1)
        } else {
            assert(next.used == build.used);
            lemma_definitions_fit(next, limit, root, mode, definitions, n + 1)
        }
    } else {
        limit
    }
}

proof fn lemma_definitions_keep_roots(
    build: Build,
    root: ModuleId,
    mode: LayoutMode,
    definitions: Seq<DefData>,
    n: int,
)
    requires
        build.place_definitions(root, mode, definitions, n) is Some,
    ensures
        (build.place_definitions(root, mode, definitions, n)->0).roots == build.roots,
    decreases definitions.len() - n,
{
    if 0 <= n < definitions.len() {
        lemma_definitions_keep_roots(
            build.place_definition(root, mode, definitions[n])->0,
            root,
            mode,
            definitions,
            n + 1,
        );
    }
}

proof fn lemma_locals_keep_roots(build: Build, locals: Seq<LocalData>, n: int)
    ensures
        build.place_locals(locals, n).roots == build.roots,
    decreases locals.len() - n,
{
    if 0 <= n < locals.len() {
        lemma_locals_keep_roots(build.place_local(locals[n]), locals, n + 1);
    }
}

proof fn lemma_locals(hir: ResolvedHir, mode: LayoutMode) -> (build: Build)
    requires
        layout_of(hir, mode) is Some,
        are_distinct_modules(hir.modules@),
        are_numbered(hir.definitions@),
        mode is Module ==> siblings_differ(hir.modules@),
        are_distinct_locals(hir.locals@),
    ensures
        locals_named(build, stages(hir, mode).1.used, hir.locals@, hir.locals@.len() as int),
        (layout_of(hir, mode)->0).locals == build.locals,
        (layout_of(hir, mode)->0).local_names == build.local_names,
        layout_of(hir, mode)->0 == finished(hir.root, mode, build),
        build.roots == stages(hir, mode).0.roots,
{
    lemma_stages(hir, mode);
    let start = Build::initial(mode);
    let (modules, definitions) = stages(hir, mode);
    assert(fits(start.used, 0));
    let first = lemma_modules_fit(start, 0, hir.root, mode, hir.modules@, 0);
    lemma_no_definitions_yet(start, hir.root, mode, hir.modules@, 0);
    let second = lemma_definitions_fit(modules, first, hir.root, mode, hir.definitions@, 0);
    assert(fits(definitions.used, second));
    lemma_place_locals(definitions, definitions.used, hir.locals@, 0);
    lemma_definitions_keep_roots(modules, hir.root, mode, hir.definitions@, 0);
    lemma_locals_keep_roots(definitions, hir.locals@, 0);
    definitions.place_locals(hir.locals@, 0)
}

/// A local lives under one bare name. Two locals of one module have one name
/// exactly where their source names agree.
pub proof fn law_locals_share_names_with_their_sources(
    hir: ResolvedHir,
    mode: LayoutMode,
    i: int,
    j: int,
)
    requires
        layout_of(hir, mode) is Some,
        are_distinct_modules(hir.modules@),
        are_numbered(hir.definitions@),
        mode is Module ==> siblings_differ(hir.modules@),
        are_distinct_locals(hir.locals@),
        0 <= i < hir.locals@.len(),
        0 <= j < hir.locals@.len(),
        hir.locals@[i].module == hir.locals@[j].module,
    ensures
        ({
            let layout = layout_of(hir, mode)->0;
            let first = layout.target(ResolvedTarget::Local(hir.locals@[i].id));
            let second = layout.target(ResolvedTarget::Local(hir.locals@[j].id));
            &&& first matches Some(place) && place.fields.len() == 0
            &&& second is Some
            &&& first == second <==> hir.locals@[i].name@ == hir.locals@[j].name@
        }),
{
    let build = lemma_locals(hir, mode);
    let (one, two) = (hir.locals@[i], hir.locals@[j]);
    assert(build.local_names.dom().contains((one.module, one.name@)));
    assert(build.local_names.dom().contains((two.module, two.name@)));
}

/// The name of a local is none that its module gave to one of its functions,
/// structs, enums or host functions.
pub proof fn law_locals_avoid_definitions(hir: ResolvedHir, mode: LayoutMode, i: int, j: int)
    requires
        layout_of(hir, mode) is Some,
        are_distinct_modules(hir.modules@),
        are_numbered(hir.definitions@),
        mode is Module ==> siblings_differ(hir.modules@),
        are_distinct_locals(hir.locals@),
        0 <= i < hir.locals@.len(),
        0 <= j < hir.definitions@.len(),
        has_own_name(hir.definitions@[j].kind),
        hir.definitions@[j].module == hir.locals@[i].module,
    ensures
        ({
            let layout = layout_of(hir, mode)->0;
            let local = layout.target(ResolvedTarget::Local(hir.locals@[i].id));
            let definition = layout.target(ResolvedTarget::Item(hir.definitions@[j].id));
            local is Some && definition is Some && last_name(local->0) != last_name(definition->0)
        }),
{
    let build = lemma_locals(hir, mode);
    lemma_stages(hir, mode);
    let (_, definitions) = stages(hir, mode);
    assert(is_member(definitions, hir.root, mode, hir.definitions@[j]));
    let local = hir.locals@[i];
    assert(build.local_names.dom().contains((local.module, local.name@)));
    let name = build.local_names[(local.module, local.name@)];
    assert(PlaceModel::named(name).segments() =~= seq![name]);
}

spec fn children_use_names(build: Build, modules: Seq<ModuleData>, root: ModuleId, n: int) -> bool {
    forall|i: int|
        0 <= i < n && (#[trigger] modules[i]).id != root ==> modules[i].parent is Some
            && build.modules.dom().contains(modules[i].id) && (build.used.contains(
            (modules[i].parent->0, last_name(build.modules[modules[i].id])),
        ) || (modules[i].parent->0 != root && begins_with(
            last_name(build.modules[modules[i].id]),
            "__rua_dep_"@,
        )))
}

proof fn lemma_children_use_names(
    build: Build,
    root: ModuleId,
    modules: Seq<ModuleData>,
    n: int,
)
    requires
        0 <= n <= modules.len(),
        are_distinct_modules(modules),
        children_use_names(build, modules, root, n),
        build.place_modules(root, LayoutMode::Bundle, modules, n) is Some,
    ensures
        children_use_names(
            build.place_modules(root, LayoutMode::Bundle, modules, n)->0,
            modules,
            root,
            modules.len() as int,
        ),
    decreases modules.len() - n,
{
    if n < modules.len() {
        let module = modules[n];
        let next = build.place_bundled(root, module)->0;
        assert forall|i: int| 0 <= i < n implies (#[trigger] modules[i]).id != module.id by {
            assert(modules[i].id != modules[n].id);
        }
        if module.id != root {
            let parent = module.parent->0;
            let field = (allocated(
                build.used,
                parent,
                module.path@.last()@,
                module.id.0 as nat,
            )->0).1;
            if parent != root && !(module.is_declaration && module.is_file) {
                lemma_last_name(build.modules[parent], field);
            } else {
                lemma_last_name(next.modules[module.id], field);
                if parent != root {
                    lemma_alias_prefix(texts(module.path@), module.id.0 as nat, build.aliases);
                    let alias = (dependency_alias(
                        texts(module.path@),
                        module.id.0 as nat,
                        build.aliases,
                    )->0).1;
                    lemma_last_name(next.modules[module.id], alias);
                }
            }
        }
        assert(children_use_names(next, modules, root, n + 1));
        lemma_children_use_names(next, root, modules, n + 1);
    }
}

/// In a bundle, the name of a local is none that its module gave to a child.
pub proof fn law_locals_avoid_child_modules(hir: ResolvedHir, i: int, j: int)
    requires
        layout_of(hir, LayoutMode::Bundle) is Some,
        are_distinct_modules(hir.modules@),
        are_numbered(hir.definitions@),
        are_distinct_locals(hir.locals@),
        0 <= i < hir.locals@.len(),
        0 <= j < hir.modules@.len(),
        hir.modules@[j].id != hir.root,
        hir.modules@[j].parent == Some(hir.locals@[i].module),
    ensures
        ({
            let layout = layout_of(hir, LayoutMode::Bundle)->0;
            let local = layout.target(ResolvedTarget::Local(hir.locals@[i].id));
            let child = layout.target(ResolvedTarget::Module(hir.modules@[j].id));
            local is Some && child is Some && last_name(local->0) != last_name(child->0)
        }),
{
    let mode = LayoutMode::Bundle;
    let build = lemma_locals(hir, mode);
    lemma_stages(hir, mode);
    let (modules, definitions) = stages(hir, mode);
    lemma_children_use_names(Build::initial(mode), hir.root, hir.modules@, 0);
    let local = hir.locals@[i];
    assert(build.local_names.dom().contains((local.module, local.name@)));
    let name = build.local_names[(local.module, local.name@)];
    assert(PlaceModel::named(name).segments() =~= seq![name]);
    assert(build.used.contains((local.module, name)));
    assert(hir.modules@[j].id != hir.root);
}

/// Where modules are emitted on their own, the name of a local is none under which
/// another module is required.
pub proof fn law_locals_avoid_required_modules(
    hir: ResolvedHir,
    current: ModuleId,
    table: Seq<char>,
    i: int,
    other: ModuleId,
)
    requires
        layout_of(hir, LayoutMode::Module { current, table }) is Some,
        are_distinct_modules(hir.modules@),
        are_numbered(hir.definitions@),
        siblings_differ(hir.modules@),
        are_distinct_locals(hir.locals@),
        0 <= i < hir.locals@.len(),
        other != current,
    ensures
        ({
            let layout = layout_of(hir, LayoutMode::Module { current, table })->0;
            let local = layout.target(ResolvedTarget::Local(hir.locals@[i].id));
            let module = layout.target(ResolvedTarget::Module(other));
            local is Some && (module matches Some(place) && place.fields.len() == 0 ==> local
                != module)
        }),
{
    let mode = LayoutMode::Module { current, table };
    let build = lemma_locals(hir, mode);
    lemma_stages(hir, mode);
    let (modules, _) = stages(hir, mode);
    let local = hir.locals@[i];
    assert(build.local_names.dom().contains((local.module, local.name@)));
    let name = build.local_names[(local.module, local.name@)];
    assert(build.used.contains((local.module, name)));
    if modules.modules.dom().contains(other) {
        assert(is_separate(
            modules,
            current,
            table,
            hir.modules@,
            hir.modules@.len() as int,
            other,
        ));
    }
}

/// Asking for the name of a local by its module and its source name gives the text
/// of its place; a source name that no local of the module has stands for itself.
pub proof fn law_local_names_agree_with_places(
    hir: ResolvedHir,
    mode: LayoutMode,
    module: ModuleId,
    name: Seq<char>,
)
    requires
        layout_of(hir, mode) is Some,
        are_distinct_modules(hir.modules@),
        are_numbered(hir.definitions@),
        mode is Module ==> siblings_differ(hir.modules@),
        are_distinct_locals(hir.locals@),
    ensures
        ({
            let layout = layout_of(hir, mode)->0;
            &&& forall|i: int|
                0 <= i < hir.locals@.len() && (#[trigger] hir.locals@[i]).module == module
                    && hir.locals@[i].name@ == name ==> (layout.target(
                    ResolvedTarget::Local(hir.locals@[i].id),
                ) matches Some(place) && place.text() == layout.local_name(module, name))
            &&& (forall|i: int|
                0 <= i < hir.locals@.len() && (#[trigger] hir.locals@[i]).module == module
                    ==> hir.locals@[i].name@ != name) ==> layout.local_name(module, name)
                == identifier_of(name)
        }),
{
    let build = lemma_locals(hir, mode);
    let layout = layout_of(hir, mode)->0;
    assert forall|i: int|
        0 <= i < hir.locals@.len() && (#[trigger] hir.locals@[i]).module == module
            && hir.locals@[i].name@ == name implies (layout.target(
        ResolvedTarget::Local(hir.locals@[i].id),
    ) matches Some(place) && place.text() == layout.local_name(module, name)) by {
        assert(build.local_names.dom().contains((module, name)));
        let found = build.local_names[(module, name)];
        let segments = PlaceModel::named(found).segments();
        assert(segments =~= seq![found]);
        reveal_with_fuel(join_from, 2);
        assert(joined(segments, "."@) =~= found);
    }
}

// ---------------------------------------------------------------------------
// Runtime imports.
// ---------------------------------------------------------------------------

/// The module whose names a file shares with its runtime imports.
pub open spec fn file_module(hir: ResolvedHir, mode: LayoutMode) -> ModuleId {
    match mode {
        LayoutMode::Bundle => hir.root,
        LayoutMode::Module { current, .. } => current,
    }
}

/// Whether a name is taken in the file of a layout: by the compiler, by a definition
/// or a local of the file's module, or by a module that the file names directly.
pub open spec fn is_taken(hir: ResolvedHir, mode: LayoutMode, name: Seq<char>) -> bool {
    let layout = layout_of(hir, mode)->0;
    let home = file_module(hir, mode);
    ||| name == "rt"@
    ||| name == "__rua_table_create"@
    ||| exists|i: int|
        0 <= i < hir.definitions@.len() && has_own_name((#[trigger] hir.definitions@[i]).kind)
            && hir.definitions@[i].module == home && (layout.target(
            ResolvedTarget::Item(hir.definitions@[i].id),
        ) matches Some(place) && last_name(place) == name)
    ||| exists|i: int|
        0 <= i < hir.locals@.len() && (#[trigger] hir.locals@[i]).module == home && (layout.target(
            ResolvedTarget::Local(hir.locals@[i].id),
        ) matches Some(place) && last_name(place) == name)
    ||| exists|i: int|
        0 <= i < hir.modules@.len() && (mode is Module || (#[trigger] hir.modules@[i]).parent
            == Some(home)) && (layout.target(
            ResolvedTarget::Module(hir.modules@[i].id),
        ) matches Some(place) && place.root == name)
}

spec fn roots_hold(build: Build) -> bool {
    forall|id: ModuleId| #[trigger]
        build.modules.dom().contains(id) ==> build.roots.contains(build.modules[id].root)
}

proof fn lemma_roots_hold(
    build: Build,
    root: ModuleId,
    mode: LayoutMode,
    modules: Seq<ModuleData>,
    n: int,
)
    requires
        roots_hold(build),
        build.place_modules(root, mode, modules, n) is Some,
    ensures
        roots_hold(build.place_modules(root, mode, modules, n)->0),
    decreases modules.len() - n,
{
    if 0 <= n < modules.len() {
        let next = build.place_module(root, mode, modules[n])->0;
        assert forall|id: ModuleId| #[trigger]
            next.modules.dom().contains(id) implies next.roots.contains(next.modules[id].root) by {
            if build.modules.dom().contains(id) && id != modules[n].id {
                assert(build.roots.contains(build.modules[id].root));
            }
            if build.modules.dom().contains(id) && mode is Bundle && modules[n].id == root {
                assert(build.roots.contains(build.modules[id].root));
            }
        }
        lemma_roots_hold(next, root, mode, modules, n + 1);
    }
}

/// Every name that is taken in the file of a layout is among the names that runtime
/// imports avoid.
pub proof fn law_taken_names_are_avoided(hir: ResolvedHir, mode: LayoutMode, name: Seq<char>)
    requires
        layout_of(hir, mode) is Some,
        are_distinct_modules(hir.modules@),
        are_numbered(hir.definitions@),
        mode is Module ==> siblings_differ(hir.modules@),
        are_distinct_locals(hir.locals@),
        is_taken(hir, mode, name),
    ensures
        (layout_of(hir, mode)->0).root_names.contains(name),
{
    let layout = layout_of(hir, mode)->0;
    let home = file_module(hir, mode);
    let build = lemma_locals(hir, mode);
    lemma_stages(hir, mode);
    let (modules, definitions) = stages(hir, mode);
    if exists|i: int|
        0 <= i < hir.definitions@.len() && has_own_name((#[trigger] hir.definitions@[i]).kind)
            && hir.definitions@[i].module == home && (layout.target(
            ResolvedTarget::Item(hir.definitions@[i].id),
        ) matches Some(place) && last_name(place) == name) {
        let i = choose|i: int|
            0 <= i < hir.definitions@.len() && has_own_name((#[trigger] hir.definitions@[i]).kind)
                && hir.definitions@[i].module == home && (layout.target(
                ResolvedTarget::Item(hir.definitions@[i].id),
            ) matches Some(place) && last_name(place) == name);
        assert(is_member(definitions, hir.root, mode, hir.definitions@[i]));
        assert(build.used.contains((home, name)));
        assert(names_in(build.used, home).contains(name));
    }
    if exists|i: int|
        0 <= i < hir.locals@.len() && (#[trigger] hir.locals@[i]).module == home && (layout.target(
            ResolvedTarget::Local(hir.locals@[i].id),
        ) matches Some(place) && last_name(place) == name) {
        let i = choose|i: int|
            0 <= i < hir.locals@.len() && (#[trigger] hir.locals@[i]).module == home && (
            layout.target(ResolvedTarget::Local(hir.locals@[i].id)) matches Some(place)
                && last_name(place) == name);
        let local = hir.locals@[i];
        assert(build.local_names.dom().contains((local.module, local.name@)));
        let given = build.local_names[(local.module, local.name@)];
        lemma_last_name(PlaceModel::named(given), given);
        assert(build.used.contains((home, name)));
        assert(names_in(build.used, home).contains(name));
    }
    if exists|i: int|
        0 <= i < hir.modules@.len() && (mode is Module || (#[trigger] hir.modules@[i]).parent
            == Some(home)) && (layout.target(
            ResolvedTarget::Module(hir.modules@[i].id),
        ) matches Some(place) && place.root == name) {
        let i = choose|i: int|
            0 <= i < hir.modules@.len() && (mode is Module || (#[trigger] hir.modules@[i]).parent
                == Some(home)) && (layout.target(
                ResolvedTarget::Module(hir.modules@[i].id),
            ) matches Some(place) && place.root == name);
        let start = Build::initial(mode);
        if mode is Bundle {
            lemma_children_use_names(start, hir.root, hir.modules@, 0);
            let place = modules.modules[hir.modules@[i].id];
            lemma_root_children_are_bare(start, hir.root, hir.modules@, 0);
            assert(place.fields.len() == 0);
            assert(place.segments() =~= seq![place.root]);
            assert(build.used.contains((home, name)));
            assert(names_in(build.used, home).contains(name));
        } else {
            lemma_roots_hold(start, hir.root, mode, hir.modules@, 0);
            assert(modules.modules.dom().contains(hir.modules@[i].id));
            assert(build.roots.contains(name));
        }
    }
}

spec fn root_children_are_bare(build: Build, modules: Seq<ModuleData>, root: ModuleId, n: int) -> bool {
    forall|i: int|
        0 <= i < n && (#[trigger] modules[i]).id != root && modules[i].parent == Some(root)
            ==> build.modules.dom().contains(modules[i].id)
            && build.modules[modules[i].id].fields.len() == 0
}

proof fn lemma_root_children_are_bare(
    build: Build,
    root: ModuleId,
    modules: Seq<ModuleData>,
    n: int,
)
    requires
        0 <= n <= modules.len(),
        are_distinct_modules(modules),
        root_children_are_bare(build, modules, root, n),
        build.place_modules(root, LayoutMode::Bundle, modules, n) is Some,
    ensures
        root_children_are_bare(
            build.place_modules(root, LayoutMode::Bundle, modules, n)->0,
            modules,
            root,
            modules.len() as int,
        ),
    decreases modules.len() - n,
{
    if n < modules.len() {
        let next = build.place_bundled(root, modules[n])->0;
        assert forall|i: int| 0 <= i < n implies (#[trigger] modules[i]).id != modules[n].id by {
            assert(modules[i].id != modules[n].id);
        }
        assert(root_children_are_bare(next, modules, root, n + 1));
        lemma_root_children_are_bare(next, root, modules, n + 1);
    }
}

/// The layout after runtime imports have been named, one behind the other.
pub open spec fn after_aliases(layout: LayoutModel, earlier: Seq<Seq<char>>) -> LayoutModel
    decreases earlier.len(),
{
    if earlier.len() == 0 {
        layout
    } else {
        after_aliases(layout, earlier.drop_last()).with_runtime_alias(earlier.last())
    }
}

/// Whether no name is longer than a limit.
spec fn are_short(names: Set<Seq<char>>, limit: nat) -> bool {
    forall|n: Seq<char>| #[trigger] names.contains(n) ==> n.len() <= limit
}

proof fn lemma_free_among(names: Set<Seq<char>>, limit: nat, base: Seq<char>)
    requires
        are_short(names, limit),
    ensures
        exists|k: nat| #[trigger]
            is_first_free(names, base, k) && free_name(names, base) == padded(base, k),
{
    assert(padded(base, limit + 1).len() == base.len() + limit + 1);
    let least = lemma_first_free(names, base, limit + 1);
    let c = choose|k: nat| is_first_free(names, base, k);
    assert(is_first_free(names, base, least));
    assert(is_first_free(names, base, c));
}

proof fn lemma_aliases_are_taken(layout: LayoutModel, limit: nat, earlier: Seq<Seq<char>>) -> (r: nat)
    requires
        are_short(layout.root_names, limit),
    ensures
        are_short(after_aliases(layout, earlier).root_names, r),
        layout.root_names.subset_of(after_aliases(layout, earlier).root_names),
        forall|k: int|
            0 <= k < earlier.len() ==> after_aliases(layout, earlier).root_names.contains(
                after_aliases(layout, #[trigger] earlier.take(k)).runtime_alias(earlier[k]),
            ),
    decreases earlier.len(),
{
    if earlier.len() == 0 {
        limit
    } else {
        let shorter = earlier.drop_last();
        let before = lemma_aliases_are_taken(layout, limit, shorter);
        let had = after_aliases(layout, shorter);
        let name = had.runtime_alias(earlier.last());
        let after = after_aliases(layout, earlier);
        assert(after.root_names == had.root_names.insert(name));
        assert forall|k: int| 0 <= k < earlier.len() implies after.root_names.contains(
            after_aliases(layout, #[trigger] earlier.take(k)).runtime_alias(earlier[k]),
        ) by {
            if k < shorter.len() {
                assert(shorter.take(k) =~= earlier.take(k));
            } else {
                assert(earlier.take(k) =~= shorter);
            }
        }
        if name.len() > before {
            name.len()
        } else {
            before
        }
    }
}

proof fn lemma_roots_are_short(
    build: Build,
    limit: nat,
    root: ModuleId,
    mode: LayoutMode,
    modules: Seq<ModuleData>,
    n: int,
) -> (r: nat)
    requires
        are_short(build.roots, limit),
        build.place_modules(root, mode, modules, n) is Some,
    ensures
        are_short((build.place_modules(root, mode, modules, n)->0).roots, r),
    decreases modules.len() - n,
{
    if 0 <= n < modules.len() {
        let next = build.place_module(root, mode, modules[n])->0;
        let added = next.modules[modules[n].id].root;
        assert(next.roots == build.roots || next.roots == build.roots.insert(added));
        let wider = if added.len() > limit {
            added.len()
        } else {
            limit
        };
        assert(are_short(next.roots, wider));
        lemma_roots_are_short(next, wider, root, mode, modules, n + 1)
    } else {
        limit
    }
}

/// A runtime import gets a name of its own: none that is taken in its file, and none
/// that an earlier import of the file got. It is the preferred name where that is
/// free, or else the preferred name with a suffix and as few underscores as make it
/// free; it is taken afterwards.
pub proof fn law_runtime_imports_have_their_own_names(
    hir: ResolvedHir,
    mode: LayoutMode,
    earlier: Seq<Seq<char>>,
    preferred: Seq<char>,
)
    requires
        layout_of(hir, mode) is Some,
        are_distinct_modules(hir.modules@),
        are_numbered(hir.definitions@),
        mode is Module ==> siblings_differ(hir.modules@),
        are_distinct_locals(hir.locals@),
    ensures
        ({
            let start = layout_of(hir, mode)->0;
            let layout = after_aliases(start, earlier);
            let base = identifier_of(preferred);
            let name = layout.runtime_alias(preferred);
            &&& !is_taken(hir, mode, name)
            &&& forall|k: int|
                0 <= k < earlier.len() ==> name != after_aliases(
                    start,
                    #[trigger] earlier.take(k),
                ).runtime_alias(earlier[k])
            &&& if layout.root_names.contains(base) {
                exists|k: nat| #[trigger]
                    is_first_free(layout.root_names, base + "__runtime"@, k) && name == padded(
                        base + "__runtime"@,
                        k,
                    )
            } else {
                name == base
            }
            &&& layout.with_runtime_alias(preferred).root_names.contains(name)
        }),
{
    let start = layout_of(hir, mode)->0;
    let layout = after_aliases(start, earlier);
    let base = identifier_of(preferred);
    let name = layout.runtime_alias(preferred);
    let build = lemma_locals(hir, mode);
    let limit = choose|limit: nat| fits(build.used, limit);
    assert(are_short(Build::initial(mode).roots, 0));
    let roots = lemma_roots_are_short(Build::initial(mode), 0, hir.root, mode, hir.modules@, 0);
    let most = limit + roots + "rt"@.len() + "__rua_table_create"@.len();
    assert(are_short(start.root_names, most)) by {
        assert forall|n: Seq<char>| #[trigger] start.root_names.contains(n) implies n.len() <= most by {
            let home = file_module(hir, mode);
            if names_in(build.used, home).contains(n) {
                assert(build.used.contains((home, n)));
            }
        }
    }
    let bound = lemma_aliases_are_taken(start, most, earlier);
    if layout.root_names.contains(base) {
        lemma_free_among(layout.root_names, bound, base + "__runtime"@);
        let k = choose|k: nat| #[trigger]
            is_first_free(layout.root_names, base + "__runtime"@, k) && name == padded(
                base + "__runtime"@,
                k,
            );
        assert(!layout.root_names.contains(padded(base + "__runtime"@, k)));
    }
    assert(!layout.root_names.contains(name));
    if is_taken(hir, mode, name) {
        law_taken_names_are_avoided(hir, mode, name);
    }
}

} // verus!
