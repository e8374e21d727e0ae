//! A whole bundle, and a module as a file of its own.

use vstd::prelude::*;

use super::capacity::{collect_traits, traits_of};
use super::imports::is_builtin_path;
use super::items::{g_function, g_impls};
use super::modules::{
    field_annotations, g_declare_children, g_define, g_externs_from, g_init, g_publish,
    g_root_types, g_type_table, with_definition,
};
use super::registry::g_registry;
use super::schedule::{root_function_schedule, schedule_of};
use super::state::{Cg, Codegen, Env, EnvModel};
use crate::ast::{Block, ChunkEntry, EnumDecl, Item, ModDecl, StructDecl, TraitDecl};
use crate::backend_layout::{entry, identifier_of, user_identifier, Place, PlaceModel};
use crate::hir::{DefId, ModuleId};
use crate::lua_ir::{m_named, named_model, Expr as LuaExpr, ExprModel, StatementModel};
use crate::table::Table;
use crate::text::{cat2, same_text, texts};

verus! {

// ---------------------------------------------------------------------------
// A bundle.
// ---------------------------------------------------------------------------

/// The places of the functions `group[from..]`.
pub open spec fn g_group_names(
    env: EnvModel,
    st: Cg,
    group: Seq<usize>,
    from: int,
    done: Seq<Seq<char>>,
) -> (Cg, Seq<Seq<char>>)
    decreases group.len() - from,
{
    if from < 0 || from >= group.len() {
        (st, done)
    } else {
        match with_definition(env, st, env.program.hir.root, group[from] as int) {
            (st, Some(definition)) => {
                let (st, place) = st.definition_place(definition);
                g_group_names(env, st, group, from + 1, done.push(place.text()))
            },
            (st, None) => g_group_names(env, st, group, from + 1, done.push(Seq::empty())),
        }
    }
}

/// The functions `group[from..]`.
pub open spec fn g_group(
    env: EnvModel,
    st: Cg,
    items: Seq<Item>,
    group: Seq<usize>,
    predeclared: bool,
    from: int,
) -> Cg
    decreases group.len() - from,
{
    if from < 0 || from >= group.len() {
        st
    } else {
        let next = match items[group[from] as int] {
            Item::Fn(function) => match with_definition(
                env,
                st,
                env.program.hir.root,
                group[from] as int,
            ) {
                (st, Some(definition)) => g_function(env, st, function, definition, predeclared),
                (st, None) => st,
            },
            _ => st.fault(),
        };
        g_group(env, next, items, group, predeclared, from + 1)
    }
}

/// The groups `groups[from..]`. Mutually recursive functions are declared before
/// they are defined.
pub open spec fn g_groups(
    env: EnvModel,
    st: Cg,
    items: Seq<Item>,
    groups: Seq<Seq<usize>>,
    from: int,
) -> Cg
    decreases groups.len() - from,
{
    if from < 0 || from >= groups.len() {
        st
    } else {
        let group = groups[from];
        let next = if group.len() > 1 {
            let (st, names) = g_group_names(env, st, group, 0, Seq::empty());
            g_group(env, st.locals(names), items, group, true, 0)
        } else {
            g_group(env, st, items, group, false, 0)
        };
        g_groups(env, next, items, groups, from + 1)
    }
}

/// The definitions and public names of the root modules among `items[from..]`.
pub open spec fn g_define_roots(
    env: EnvModel,
    st: Cg,
    items: Seq<Item>,
    traits: Map<DefId, &TraitDecl>,
    from: int,
) -> Cg
    decreases items.len() - from,
{
    if from < 0 || from >= items.len() {
        st
    } else {
        let next = match items[from] {
            Item::Mod(child) => if child.is_decl {
                st
            } else {
                match env.program.spec_child_module(env.program.hir.root, from as usize) {
                    Some(inner) => g_publish(
                        env,
                        g_define(env, st, child, traits, inner),
                        child,
                        inner,
                    ),
                    None => st.fault(),
                }
            },
            _ => st,
        };
        g_define_roots(env, next, items, traits, from + 1)
    }
}

/// A public definition, where it has a place.
pub open spec fn g_export(
    st: Cg,
    name: Seq<char>,
    definition: Option<DefId>,
    done: Seq<(Seq<char>, ExprModel)>,
) -> (Cg, Seq<(Seq<char>, ExprModel)>) {
    match definition {
        Some(definition) => match entry(st.layout.definitions, definition) {
            Some(place) => (st, done.push((name, place.expression()))),
            None => (st, done),
        },
        None => (st.fault(), done),
    }
}

/// The public items among `items[from..]` with their values.
pub open spec fn g_exports(
    env: EnvModel,
    st: Cg,
    items: Seq<Item>,
    from: int,
    done: Seq<(Seq<char>, ExprModel)>,
) -> (Cg, Seq<(Seq<char>, ExprModel)>)
    decreases items.len() - from,
{
    if from < 0 || from >= items.len() {
        (st, done)
    } else {
        let root = env.program.hir.root;
        let definition = env.program.spec_item_definition(root, from as usize);
        let (st, done) = match items[from] {
            Item::Fn(function) => if function.is_pub {
                g_export(st, function.name@, definition, done)
            } else {
                (st, done)
            },
            Item::Struct(structure) => if structure.is_pub {
                g_export(st, structure.name@, definition, done)
            } else {
                (st, done)
            },
            Item::Enum(enumeration) => if enumeration.is_pub {
                g_export(st, enumeration.name@, definition, done)
            } else {
                (st, done)
            },
            Item::Mod(child) => if child.is_pub && !child.is_decl {
                match env.program.spec_child_module(root, from as usize) {
                    Some(inner) => match entry(st.layout.modules, inner) {
                        Some(place) => (st, done.push((child.name@, place.expression()))),
                        None => (st, done),
                    },
                    None => (st.fault(), done),
                }
            } else {
                (st, done)
            },
            _ => (st, done),
        };
        g_exports(env, st, items, from + 1, done)
    }
}

/// A whole program as one file.
pub open spec fn g_program(env: EnvModel, st: Cg) -> Cg {
    let program = env.program.syntax;
    let root = env.program.hir.root;
    let items = program.items@;
    if program.is_decl {
        st
    } else {
        let traits = traits_of(env.program, items, root, 0, Map::empty());
        let st = g_root_types(env, st, items, 0);
        let st = g_declare_children(env, st, items, root, 0);
        let st = g_externs_from(env, st.within(root), items, root, true, 0).within(st.current);
        let st = g_groups(env, st, items, schedule_of(env.program), 0);
        let st = g_define_roots(env, st, items, traits, 0);
        let st = g_impls(env, st, items, traits, root);
        let st = g_registry(env, st);
        let st = g_init(env, st, program.source_order@, items, program.chunk, root);
        let (st, exports) = g_exports(env, st, items, 0, Seq::empty());
        if exports.len() == 0 {
            st
        } else {
            st.blank().emit(StatementModel::Return(seq![ExprModel::Table(m_named(exports))]))
        }
    }
}

impl Codegen {
    fn group_names(&mut self, env: &Env, group: &Vec<usize>) -> (r: Vec<String>)
        ensures
            (final(self)@, texts(r@)) == g_group_names(env@, old(self)@, group@, 0, Seq::empty()),
            r@.len() == group@.len(),
            final(self)@.lua == old(self)@.lua,
    {
        let ghost start = self@;
        let mut out: Vec<String> = Vec::new();
        let mut i: usize = 0;
        proof {
            assert(texts(out@) =~= Seq::empty());
        }
        while i < group.len()
            invariant
                i <= group.len(),
                out@.len() == i,
                g_group_names(env@, self@, group@, i as int, texts(out@)) == g_group_names(
                    env@,
                    start,
                    group@,
                    0,
                    Seq::empty(),
                ),
                self@.lua == start.lua,
            decreases group.len() - i,
        {
            let ghost before = texts(out@);
            let name = match self.item_definition(env, env.program.hir.root, group[i]) {
                Some(definition) => self.definition_place(definition).text(),
                None => String::new(),
            };
            out.push(name);
            proof {
                assert(texts(out@) =~= before.push(name@));
            }
            i += 1;
        }
        out
    }

    fn gen_group(&mut self, env: &Env, items: &Vec<Item>, group: &Vec<usize>, predeclared: bool)
        requires
            forall|i: int| 0 <= i < group@.len() ==> #[trigger] group@[i] < items@.len(),
        ensures
            final(self)@ == g_group(env@, old(self)@, items@, group@, predeclared, 0),
            final(self)@.lua.shape() == old(self)@.lua.shape(),
    {
        let ghost start = self@;
        let mut i: usize = 0;
        while i < group.len()
            invariant
                i <= group.len(),
                forall|i: int| 0 <= i < group@.len() ==> #[trigger] group@[i] < items@.len(),
                g_group(env@, self@, items@, group@, predeclared, i as int) == g_group(
                    env@,
                    start,
                    items@,
                    group@,
                    predeclared,
                    0,
                ),
                self@.lua.shape() == start.lua.shape(),
            decreases group.len() - i,
        {
            match &items[group[i]] {
                Item::Fn(function) => {
                    if let Some(definition) = self.item_definition(
                        env,
                        env.program.hir.root,
                        group[i],
                    ) {
                        self.gen_free_fn(env, function, definition, predeclared);
                    }
                },
                _ => {
                    self.fault();
                },
            }
            i += 1;
        }
    }

    fn gen_groups(&mut self, env: &Env)
        ensures
            final(self)@ == g_groups(
                env@,
                old(self)@,
                env.program.syntax.items@,
                schedule_of(*env.program),
                0,
            ),
            final(self)@.lua.shape() == old(self)@.lua.shape(),
    {
        let items = &env.program.syntax.items;
        let groups = root_function_schedule(env.program);
        let ghost start = self@;
        let ghost model = schedule_of(*env.program);
        let mut i: usize = 0;
        while i < groups.len()
            invariant
                i <= groups.len(),
                items@ == env.program.syntax.items@,
                model == super::schedule::groups_model(groups@),
                forall|g: int, k: int|
                    0 <= g < groups@.len() && 0 <= k < groups@[g]@.len()
                        ==> #[trigger] groups@[g]@[k] < items@.len(),
                g_groups(env@, self@, items@, model, i as int) == g_groups(
                    env@,
                    start,
                    items@,
                    model,
                    0,
                ),
                self@.lua.shape() == start.lua.shape(),
            decreases groups.len() - i,
        {
            let group = &groups[i];
            proof {
                assert(model[i as int] == group@);
                assert forall|k: int| 0 <= k < group@.len() implies #[trigger] group@[k]
                    < items@.len() by {
                    assert(groups@[i as int]@[k] < items@.len());
                }
            }
            if group.len() > 1 {
                let names = self.group_names(env, group);
                self.locals(names);
                self.gen_group(env, items, group, true);
            } else {
                self.gen_group(env, items, group, false);
            }
            i += 1;
        }
    }

    fn define_roots(&mut self, env: &Env, traits: &Table<DefId, &TraitDecl>)
        ensures
            final(self)@ == g_define_roots(
                env@,
                old(self)@,
                env.program.syntax.items@,
                traits@,
                0,
            ),
            final(self)@.lua.shape() == old(self)@.lua.shape(),
    {
        let items = &env.program.syntax.items;
        let ghost start = self@;
        let mut i: usize = 0;
        while i < items.len()
            invariant
                i <= items.len(),
                items@ == env.program.syntax.items@,
                g_define_roots(env@, self@, items@, traits@, i as int) == g_define_roots(
                    env@,
                    start,
                    items@,
                    traits@,
                    0,
                ),
                self@.lua.shape() == start.lua.shape(),
            decreases items.len() - i,
        {
            if let Item::Mod(child) = &items[i] {
                if !child.is_decl {
                    match env.program.child_module(env.program.hir.root, i) {
                        Some(inner) => {
                            self.define_mod(env, child, traits, inner);
                            self.publish_mod(env, child, inner);
                        },
                        None => {
                            self.fault();
                        },
                    }
                }
            }
            i += 1;
        }
    }

    fn export(
        &mut self,
        name: &str,
        definition: Option<DefId>,
        out: &mut Vec<(String, LuaExpr)>,
    )
        ensures
            (final(self)@, named_model(final(out)@)) == g_export(
                old(self)@,
                name@,
                definition,
                named_model(old(out)@),
            ),
            final(self)@.lua == old(self)@.lua,
    {
        match definition {
            Some(definition) => {
                if let Some(place) = self.layout.definition(definition) {
                    push_named(out, name.to_string(), place.expression());
                }
            },
            None => {
                self.fault();
            },
        }
    }

    fn exports(&mut self, env: &Env) -> (r: Vec<(String, LuaExpr)>)
        ensures
            (final(self)@, named_model(r@)) == g_exports(
                env@,
                old(self)@,
                env.program.syntax.items@,
                0,
                Seq::empty(),
            ),
            final(self)@.lua == old(self)@.lua,
    {
        let items = &env.program.syntax.items;
        let root = env.program.hir.root;
        let ghost start = self@;
        let mut out: Vec<(String, LuaExpr)> = Vec::new();
        let mut i: usize = 0;
        proof {
            assert(named_model(out@) =~= Seq::empty());
        }
        while i < items.len()
            invariant
                i <= items.len(),
                items@ == env.program.syntax.items@,
                root == env.program.hir.root,
                g_exports(env@, self@, items@, i as int, named_model(out@)) == g_exports(
                    env@,
                    start,
                    items@,
                    0,
                    Seq::empty(),
                ),
                self@.lua == start.lua,
            decreases items.len() - i,
        {
            let definition = env.program.item_definition(root, i);
            match &items[i] {
                Item::Fn(function) => {
                    if function.is_pub {
                        self.export(function.name.as_str(), definition, &mut out);
                    }
                },
                Item::Struct(structure) => {
                    if structure.is_pub {
                        self.export(structure.name.as_str(), definition, &mut out);
                    }
                },
                Item::Enum(enumeration) => {
                    if enumeration.is_pub {
                        self.export(enumeration.name.as_str(), definition, &mut out);
                    }
                },
                Item::Mod(child) => {
                    if child.is_pub && !child.is_decl {
                        match env.program.child_module(root, i) {
                            Some(inner) => {
                                if let Some(place) = self.layout.module(inner) {
                                    push_named(&mut out, child.name.clone(), place.expression());
                                }
                            },
                            None => {
                                self.fault();
                            },
                        }
                    }
                },
                _ => {},
            }
            i += 1;
        }
        out
    }

    /// A whole program as one file: types, modules, host functions, root
    /// functions, implementations, initialisation and exports.
    pub fn gen_program(&mut self, env: &Env)
        ensures
            final(self)@ == g_program(env@, old(self)@),
            final(self)@.lua.shape() == old(self)@.lua.shape(),
    {
        let program = &env.program.syntax;
        let root = env.program.hir.root;
        if program.is_decl {
            return ;
        }
        self.gen_root_types(env, &program.items);
        let mut traits: Table<DefId, &TraitDecl> = Table::new();
        collect_traits(env.program, &program.items, root, &mut traits);
        self.declare_children(env, &program.items, root);
        let previous = self.current_module;
        self.current_module = root;
        self.bind_externs(env, &program.items, root, true);
        self.current_module = previous;
        self.gen_groups(env);
        self.define_roots(env, &traits);
        self.gen_impls(env, &program.items, &traits, root);
        self.gen_bundle_annotation_registry(env);
        self.init_entries(env, &program.source_order, &program.items, &program.chunk, root);
        let exports = self.exports(env);
        proof {
            assert(named_model(exports@).len() == exports@.len());
        }
        if exports.len() > 0 {
            self.blank();
            self.lua.return_table(exports);
        }
    }
}

/// Appends a named value.
fn push_named(list: &mut Vec<(String, LuaExpr)>, name: String, value: LuaExpr)
    ensures
        named_model(final(list)@) == named_model(old(list)@).push((name@, value.model())),
{
    list.push((name, value));
    proof {
        assert(named_model(list@) =~= named_model(old(list)@).push((name@, value.model())));
    }
}

// ---------------------------------------------------------------------------
// A module as a file of its own.
// ---------------------------------------------------------------------------

impl Cg {
    /// The blank line between two allocations.
    pub open spec fn separated(self, emitted: bool) -> Cg {
        if emitted {
            self.blank()
        } else {
            self
        }
    }
}

/// Whether a definition stands for its whole module.
pub open spec fn is_flattened(env: EnvModel, definition: DefId) -> bool {
    env.flattened_module_type == Some(definition)
}

/// The class of a struct and the annotations of its fields.
pub open spec fn g_struct_class(env: EnvModel, st: Cg, structure: StructDecl, definition: DefId) -> Cg {
    let st = if is_flattened(env, definition) {
        st.annotation("---@class "@ + env.flattened_module_class)
    } else {
        st.struct_annotation(structure)
    };
    field_annotations(env, st, structure.fields@, 0)
}

/// The class of an enum.
pub open spec fn g_enum_class(env: EnvModel, st: Cg, enumeration: EnumDecl, definition: DefId) -> Cg {
    st.annotation(
        "---@class "@ + if is_flattened(env, definition) {
            env.flattened_module_class
        } else {
            enumeration.name@
        },
    )
}

/// Whether a module inside gets a field in the table of its parent.
pub open spec fn is_unit_child(env: EnvModel, child: ModDecl, inner: ModuleId) -> bool {
    !(env.program.hir.has_module(inner) && is_builtin_path(
        env.program.hir.spec_module(inner).path@,
    )) && !child.is_decl && child.is_file
}

/// The tables of the types among `items[from..]` and the fields of the modules
/// inside. `emitted` tells whether something was allocated, `after_module`
/// whether the last of it was a module.
pub open spec fn g_allocate(
    env: EnvModel,
    st: Cg,
    items: Seq<Item>,
    place: PlaceModel,
    module: ModuleId,
    from: int,
    emitted: bool,
    after_module: bool,
) -> Cg
    decreases items.len() - from,
{
    if from < 0 || from >= items.len() {
        st
    } else {
        match items[from] {
            Item::Struct(structure) => {
                let next = match with_definition(env, st.separated(emitted), module, from) {
                    (st, Some(definition)) => g_type_table(
                        env,
                        g_struct_class(env, st, structure, definition),
                        definition,
                        is_flattened(env, definition),
                    ),
                    (st, None) => st,
                };
                g_allocate(env, next, items, place, module, from + 1, true, false)
            },
            Item::Enum(enumeration) => {
                let next = match with_definition(env, st.separated(emitted), module, from) {
                    (st, Some(definition)) => g_type_table(
                        env,
                        g_enum_class(env, st, enumeration, definition),
                        definition,
                        is_flattened(env, definition),
                    ),
                    (st, None) => st,
                };
                g_allocate(env, next, items, place, module, from + 1, true, false)
            },
            Item::Mod(child) => match env.program.spec_child_module(module, from as usize) {
                None => g_allocate(
                    env,
                    st.fault(),
                    items,
                    place,
                    module,
                    from + 1,
                    emitted,
                    after_module,
                ),
                Some(inner) => if is_unit_child(env, child, inner) {
                    let st = st.separated(emitted && !after_module).depend(env, inner);
                    let (st, value) = st.module_place(inner);
                    let st = st.assign(
                        place.field(identifier_of(child.name@)).expression(),
                        value.expression(),
                    );
                    g_allocate(env, st, items, place, module, from + 1, true, true)
                } else {
                    g_allocate(
                        env,
                        st,
                        items,
                        place,
                        module,
                        from + 1,
                        emitted,
                        after_module,
                    )
                },
            },
            _ => g_allocate(env, st, items, place, module, from + 1, emitted, after_module),
        }
    }
}

/// The functions among `items[from..]`.
pub open spec fn g_unit_functions(
    env: EnvModel,
    st: Cg,
    items: Seq<Item>,
    module: ModuleId,
    from: int,
) -> Cg
    decreases items.len() - from,
{
    if from < 0 || from >= items.len() {
        st
    } else {
        let next = match items[from] {
            Item::Fn(function) => match with_definition(env, st, module, from) {
                (st, Some(definition)) => g_function(env, st, function, definition, true),
                (st, None) => st,
            },
            _ => st,
        };
        g_unit_functions(env, next, items, module, from + 1)
    }
}

/// One item under its public name. In a module without a type that stands for
/// it, only functions and types are published.
pub open spec fn g_publish_item(
    env: EnvModel,
    st: Cg,
    item: Item,
    place: PlaceModel,
    module: ModuleId,
    index: usize,
) -> Cg {
    let definition = env.program.spec_item_definition(module, index);
    let flattened = env.flattened_module_type;
    match item {
        Item::Fn(function) => if definition is Some && definition == flattened
            || !function.is_pub {
            st
        } else {
            st.publish_definition(env, place, function.name@, definition)
        },
        Item::Struct(structure) => if definition is Some && definition == flattened
            || !structure.is_pub {
            st
        } else {
            st.publish_definition(env, place, structure.name@, definition)
        },
        Item::Enum(enumeration) => if definition is Some && definition == flattened
            || !enumeration.is_pub {
            st
        } else {
            st.publish_definition(env, place, enumeration.name@, definition)
        },
        Item::Mod(child) => if flattened is Some && child.is_pub && !child.is_decl && child.is_file {
            st.publish_module(place, child.name@, env.program.spec_child_module(module, index))
        } else {
            st
        },
        _ => st,
    }
}

/// The public names of `items[from..]`.
pub open spec fn g_publish_unit(
    env: EnvModel,
    st: Cg,
    items: Seq<Item>,
    place: PlaceModel,
    module: ModuleId,
    from: int,
) -> Cg
    decreases items.len() - from,
{
    if from < 0 || from >= items.len() {
        st
    } else {
        g_publish_unit(
            env,
            g_publish_item(env, st, items[from], place, module, from as usize),
            items,
            place,
            module,
            from + 1,
        )
    }
}

/// A module as a file of its own.
pub open spec fn g_unit(
    env: EnvModel,
    st: Cg,
    items: Seq<Item>,
    chunk: Block,
    order: Seq<ChunkEntry>,
    module: ModuleId,
) -> Cg {
    let traits = traits_of(
        env.program,
        env.program.syntax.items@,
        env.program.hir.root,
        0,
        Map::empty(),
    );
    let (st, place) = st.within(module).module_place(module);
    let st = g_allocate(env, st, items, place, module, 0, false, false);
    let st = g_externs_from(env, st, items, module, false, 0);
    let st = g_unit_functions(env, st, items, module, 0);
    let st = g_impls(env, st, items, traits, module);
    let st = g_publish_unit(env, st, items, place, module, 0);
    let st = st.separated(chunk.stmts@.len() > 0 || chunk.tail is Some);
    g_init(env, st, order, items, chunk, module)
}

impl Codegen {
    fn separate(&mut self, emitted: bool)
        ensures
            final(self)@ == old(self)@.separated(emitted),
            final(self)@.lua.shape() == old(self)@.lua.shape(),
    {
        if emitted {
            self.blank();
        }
    }

    fn flattened(env: &Env, definition: DefId) -> (r: bool)
        ensures
            r == is_flattened(env@, definition),
    {
        match env.flattened_module_type {
            Some(found) => found == definition,
            None => false,
        }
    }

    fn gen_struct_class(&mut self, env: &Env, structure: &StructDecl, definition: DefId)
        ensures
            final(self)@ == g_struct_class(env@, old(self)@, *structure, definition),
            final(self)@.lua.shape() == old(self)@.lua.shape(),
    {
        if Self::flattened(env, definition) {
            self.annotation(cat2("---@class ", env.flattened_module_class.as_str()).as_str());
        } else {
            self.emit_struct_annotation(structure);
        }
        self.emit_field_annotations(env, &structure.fields);
    }

    fn gen_enum_class(&mut self, env: &Env, enumeration: &EnumDecl, definition: DefId)
        ensures
            final(self)@ == g_enum_class(env@, old(self)@, *enumeration, definition),
            final(self)@.lua.shape() == old(self)@.lua.shape(),
    {
        let class = if Self::flattened(env, definition) {
            env.flattened_module_class.as_str()
        } else {
            enumeration.name.as_str()
        };
        self.annotation(cat2("---@class ", class).as_str());
    }

    fn unit_child(env: &Env, child: &ModDecl, inner: ModuleId) -> (r: bool)
        ensures
            r == is_unit_child(env@, *child, inner),
    {
        let builtin = match env.program.hir.find_module(inner) {
            Some(data) => data.path.len() > 0 && same_text(data.path[0].as_str(), "__rua_builtin"),
            None => false,
        };
        !builtin && !child.is_decl && child.is_file
    }

    fn allocate_module_items(
        &mut self,
        env: &Env,
        items: &Vec<Item>,
        place: &Place,
        module: ModuleId,
    )
        ensures
            final(self)@ == g_allocate(
                env@,
                old(self)@,
                items@,
                place@,
                module,
                0,
                false,
                false,
            ),
            final(self)@.lua.shape() == old(self)@.lua.shape(),
    {
        let ghost start = self@;
        let mut emitted = false;
        let mut after_module = false;
        let mut i: usize = 0;
        while i < items.len()
            invariant
                i <= items.len(),
                g_allocate(
                    env@,
                    self@,
                    items@,
                    place@,
                    module,
                    i as int,
                    emitted,
                    after_module,
                ) == g_allocate(env@, start, items@, place@, module, 0, false, false),
                self@.lua.shape() == start.lua.shape(),
            decreases items.len() - i,
        {
            match &items[i] {
                Item::Struct(structure) => {
                    self.separate(emitted);
                    if let Some(definition) = self.item_definition(env, module, i) {
                        self.gen_struct_class(env, structure, definition);
                        self.gen_type_table(env, definition, Self::flattened(env, definition));
                    }
                    emitted = true;
                    after_module = false;
                },
                Item::Enum(enumeration) => {
                    self.separate(emitted);
                    if let Some(definition) = self.item_definition(env, module, i) {
                        self.gen_enum_class(env, enumeration, definition);
                        self.gen_type_table(env, definition, Self::flattened(env, definition));
                    }
                    emitted = true;
                    after_module = false;
                },
                Item::Mod(child) => match env.program.child_module(module, i) {
                    None => {
                        self.fault();
                    },
                    Some(inner) => {
                        if Self::unit_child(env, child, inner) {
                            self.separate(emitted && !after_module);
                            self.record_module_dependency(env, inner);
                            let value = self.module_place(inner);
                            let field = user_identifier(child.name.as_str());
                            self.assign(
                                place.field(field.as_str()).expression(),
                                value.expression(),
                            );
                            emitted = true;
                            after_module = true;
                        }
                    },
                },
                _ => {},
            }
            i += 1;
        }
    }

    fn define_module_functions(&mut self, env: &Env, items: &Vec<Item>, module: ModuleId)
        ensures
            final(self)@ == g_unit_functions(env@, old(self)@, items@, module, 0),
            final(self)@.lua.shape() == old(self)@.lua.shape(),
    {
        let ghost start = self@;
        let mut i: usize = 0;
        while i < items.len()
            invariant
                i <= items.len(),
                g_unit_functions(env@, self@, items@, module, i as int) == g_unit_functions(
                    env@,
                    start,
                    items@,
                    module,
                    0,
                ),
                self@.lua.shape() == start.lua.shape(),
            decreases items.len() - i,
        {
            if let Item::Fn(function) = &items[i] {
                if let Some(definition) = self.item_definition(env, module, i) {
                    self.gen_free_fn(env, function, definition, true);
                }
            }
            i += 1;
        }
    }

    fn publish_item(
        &mut self,
        env: &Env,
        item: &Item,
        place: &Place,
        module: ModuleId,
        index: usize,
    )
        ensures
            final(self)@ == g_publish_item(env@, old(self)@, *item, place@, module, index),
            final(self)@.lua.shape() == old(self)@.lua.shape(),
    {
        let definition = env.program.item_definition(module, index);
        let whole = match definition {
            Some(definition) => Self::flattened(env, definition),
            None => false,
        };
        match item {
            Item::Fn(function) => {
                if !whole && function.is_pub {
                    self.publish_definition(env, place, function.name.as_str(), definition);
                }
            },
            Item::Struct(structure) => {
                if !whole && structure.is_pub {
                    self.publish_definition(env, place, structure.name.as_str(), definition);
                }
            },
            Item::Enum(enumeration) => {
                if !whole && enumeration.is_pub {
                    self.publish_definition(env, place, enumeration.name.as_str(), definition);
                }
            },
            Item::Mod(child) => {
                if env.flattened_module_type.is_some() && child.is_pub && !child.is_decl
                    && child.is_file {
                    let inner = env.program.child_module(module, index);
                    self.publish_module(place, child.name.as_str(), inner);
                }
            },
            _ => {},
        }
    }

    fn publish_module_items(
        &mut self,
        env: &Env,
        items: &Vec<Item>,
        place: &Place,
        module: ModuleId,
    )
        ensures
            final(self)@ == g_publish_unit(env@, old(self)@, items@, place@, module, 0),
            final(self)@.lua.shape() == old(self)@.lua.shape(),
    {
        let ghost start = self@;
        let mut i: usize = 0;
        while i < items.len()
            invariant
                i <= items.len(),
                g_publish_unit(env@, self@, items@, place@, module, i as int) == g_publish_unit(
                    env@,
                    start,
                    items@,
                    place@,
                    module,
                    0,
                ),
                self@.lua.shape() == start.lua.shape(),
            decreases items.len() - i,
        {
            self.publish_item(env, &items[i], place, module, i);
            i += 1;
        }
    }

    /// A module as a file of its own.
    pub fn gen_module_unit(
        &mut self,
        env: &Env,
        items: &Vec<Item>,
        chunk: &Block,
        order: &Vec<ChunkEntry>,
        module: ModuleId,
    )
        ensures
            final(self)@ == g_unit(env@, old(self)@, items@, *chunk, order@, module),
            final(self)@.lua.shape() == old(self)@.lua.shape(),
    {
        self.current_module = module;
        let mut traits: Table<DefId, &TraitDecl> = Table::new();
        collect_traits(
            env.program,
            &env.program.syntax.items,
            env.program.hir.root,
            &mut traits,
        );
        let place = self.module_place(module);
        self.allocate_module_items(env, items, &place, module);
        self.bind_externs(env, items, module, false);
        self.define_module_functions(env, items, module);
        self.gen_impls(env, items, &traits, module);
        self.publish_module_items(env, items, &place, module);
        self.separate(chunk.stmts.len() > 0 || chunk.tail.is_some());
        self.init_entries(env, order, items, chunk, module);
    }
}

} // verus!
