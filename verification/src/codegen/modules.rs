//! Type tables, host functions, modules and initialisation order.

use vstd::prelude::*;

use super::annotate::{type_text, type_to_emmylua};
use super::capacity::{
    module_capacity, module_table_record_capacity, needs_table, type_capacity,
    type_needs_runtime_table, type_table_record_capacity,
};
use super::items::{g_function, g_impls, parameter_names};
use super::lower::{g_stmt, ne_nil, ok_of, payload_of};
use super::small::{is_not_nil, named, result_is_ok, result_payload};
use super::state::{Cg, Codegen, Env, EnvModel};
use crate::ast::{Block, ChunkEntry, ExternBlock, ExternFn, Field, Item, ModDecl, Param, TraitDecl};
use crate::backend_layout::{entry, identifier_of, user_identifier, Place, PlaceModel};
use crate::builtins::BuiltinId;
use crate::hir::{DefId, ModuleId};
use crate::lua_ir::{
    exprs_model, m_call, m_index, m_name, m_string, no_exprs, one_expr, push_expr, two_exprs,
    two_texts, Expr as LuaExpr, ExprModel, FunctionTarget, OpenerModel, StatementModel,
    TargetModel,
};
use crate::table::Table;
use crate::text::{cat2, cat3, cat4, same_text, texts};

verus! {

// ---------------------------------------------------------------------------
// Type tables.
// ---------------------------------------------------------------------------

/// The annotations of the fields `fields[from..]`.
pub open spec fn field_annotations(env: EnvModel, st: Cg, fields: Seq<Field>, from: int) -> Cg
    decreases fields.len() - from,
{
    if from < 0 || from >= fields.len() {
        st
    } else {
        field_annotations(
            env,
            st.annotation(
                "---@field "@ + fields[from].name@ + " "@ + type_text(env, fields[from].ty),
            ),
            fields,
            from + 1,
        )
    }
}

/// The table of a type, where it needs one.
pub open spec fn g_type_table(env: EnvModel, st: Cg, definition: DefId, local: bool) -> Cg {
    if !needs_table(env, definition) {
        st
    } else {
        let (st, place) = st.definition_place(definition);
        let (st, table) = st.empty_table(type_capacity(env, definition));
        let st = st.define(place, local, table);
        if env.metatable_types.contains(definition) {
            st.assign(place.field("__index"@).expression(), place.expression())
        } else {
            st
        }
    }
}

/// The definition of an item; a broken state where it has none.
pub open spec fn with_definition(env: EnvModel, st: Cg, module: ModuleId, item: int) -> (Cg, Option<
    DefId,
>) {
    match env.program.spec_item_definition(module, item as usize) {
        Some(definition) => (st, Some(definition)),
        None => (st.fault(), None),
    }
}

/// The tables of the root types among `items[from..]`.
pub open spec fn g_root_types(env: EnvModel, st: Cg, items: Seq<Item>, from: int) -> Cg
    decreases items.len() - from,
{
    if from < 0 || from >= items.len() {
        st
    } else {
        let root = env.program.hir.root;
        let next = match items[from] {
            Item::Struct(structure) => match with_definition(env, st, root, from) {
                (st, Some(definition)) => {
                    let (st, _) = st.definition_place(definition);
                    let st = st.struct_annotation(structure);
                    g_type_table(
                        env,
                        field_annotations(env, st, structure.fields@, 0),
                        definition,
                        true,
                    )
                },
                (st, None) => st,
            },
            Item::Enum(enumeration) => match with_definition(env, st, root, from) {
                (st, Some(definition)) => {
                    let (st, _) = st.definition_place(definition);
                    g_type_table(
                        env,
                        st.annotation("---@class "@ + enumeration.name@),
                        definition,
                        true,
                    )
                },
                (st, None) => st,
            },
            _ => st,
        };
        g_root_types(env, next, items, from + 1)
    }
}

impl Codegen {
    pub fn emit_field_annotations(&mut self, env: &Env, fields: &Vec<Field>)
        ensures
            final(self)@ == field_annotations(env@, old(self)@, fields@, 0),
            final(self)@.lua.shape() == old(self)@.lua.shape(),
    {
        let ghost start = self@;
        let mut i: usize = 0;
        while i < fields.len()
            invariant
                i <= fields.len(),
                field_annotations(env@, self@, fields@, i as int) == field_annotations(
                    env@,
                    start,
                    fields@,
                    0,
                ),
                self@.lua.shape() == start.lua.shape(),
            decreases fields.len() - i,
        {
            let ty = type_to_emmylua(env, &fields[i].ty);
            self.annotation(
                cat4("---@field ", fields[i].name.as_str(), " ", ty.as_str()).as_str(),
            );
            i += 1;
        }
    }

    pub fn gen_type_table(&mut self, env: &Env, definition: DefId, local: bool)
        ensures
            final(self)@ == g_type_table(env@, old(self)@, definition, local),
            final(self)@.lua.shape() == old(self)@.lua.shape(),
    {
        if !type_needs_runtime_table(env, definition) {
            return ;
        }
        let place = self.definition_place(definition);
        let table = self.empty_table(type_table_record_capacity(env, definition));
        self.define(&place, local, table);
        if env.metatable_types.has(&definition) {
            self.assign(place.field("__index").expression(), place.expression());
        }
    }

    pub fn item_definition(&mut self, env: &Env, module: ModuleId, item: usize) -> (r: Option<DefId>)
        ensures
            (final(self)@, r) == with_definition(env@, old(self)@, module, item as int),
            final(self)@.lua == old(self)@.lua,
    {
        match env.program.item_definition(module, item) {
            Some(definition) => Some(definition),
            None => {
                self.fault();
                None
            },
        }
    }

    /// The tables of the root types.
    pub fn gen_root_types(&mut self, env: &Env, items: &Vec<Item>)
        ensures
            final(self)@ == g_root_types(env@, old(self)@, items@, 0),
            final(self)@.lua.shape() == old(self)@.lua.shape(),
    {
        let ghost start = self@;
        let root = env.program.hir.root;
        let mut i: usize = 0;
        while i < items.len()
            invariant
                i <= items.len(),
                root == env.program.hir.root,
                g_root_types(env@, self@, items@, i as int) == g_root_types(env@, start, items@, 0),
                self@.lua.shape() == start.lua.shape(),
            decreases items.len() - i,
        {
            match &items[i] {
                Item::Struct(structure) => {
                    if let Some(definition) = self.item_definition(env, root, i) {
                        let _ = self.definition_place(definition);
                        self.emit_struct_annotation(structure);
                        self.emit_field_annotations(env, &structure.fields);
                        self.gen_type_table(env, definition, true);
                    }
                },
                Item::Enum(enumeration) => {
                    if let Some(definition) = self.item_definition(env, root, i) {
                        let _ = self.definition_place(definition);
                        self.annotation(cat2("---@class ", enumeration.name.as_str()).as_str());
                        self.gen_type_table(env, definition, true);
                    }
                },
                _ => {},
            }
            i += 1;
        }
    }
}

// ---------------------------------------------------------------------------
// Host functions.
// ---------------------------------------------------------------------------

/// The value of a host function: the global of that name, which must be there.
pub open spec fn host_value(name: Seq<char>) -> ExprModel {
    m_call(
        m_name("assert"@),
        seq![
            m_index(m_name("_G"@), m_string(name)),
            m_string("missing Lua extern `"@ + name + "`"@),
        ],
    )
}

/// Whether a host function becomes a local of the generated file.
pub open spec fn is_root_local(env: EnvModel, definition: DefId) -> bool {
    !env.separate && env.program.hir.has_definition(definition)
        && env.program.hir.spec_definition(definition).module == env.program.hir.root
}

/// A host function that is called as it stands.
pub open spec fn g_plain_extern(env: EnvModel, st: Cg, function: ExternFn, definition: DefId) -> Cg {
    let (st, place) = st.definition_place(definition);
    st.define(place, is_root_local(env, definition), host_value(function.name@))
}

/// The arguments for the host of the parameters `params[from..]`. A result is
/// handed over as a value and an error.
pub open spec fn g_host_args(
    env: EnvModel,
    st: Cg,
    params: Seq<Param>,
    names: Seq<Seq<char>>,
    from: int,
    done: Seq<ExprModel>,
) -> (Cg, Seq<ExprModel>)
    decreases params.len() - from,
{
    if from < 0 || from >= params.len() || from >= names.len() {
        (st, done)
    } else {
        let name = m_name(names[from]);
        if env.program.hir.spec_type_is_builtin(params[from].ty, BuiltinId::TypeResult) {
            let (st, ok) = st.fresh();
            let (st, error) = st.fresh();
            let st = st.locals(seq![ok, error]).begin_if(ok_of(name)).assign(
                m_name(ok),
                payload_of(name),
            ).begin_else().assign(m_name(error), payload_of(name)).end();
            g_host_args(
                env,
                st,
                params,
                names,
                from + 1,
                done.push(m_name(ok)).push(m_name(error)),
            )
        } else {
            g_host_args(env, st, params, names, from + 1, done.push(name))
        }
    }
}

/// A host function that returns a value and an error, as one that returns a
/// result.
pub open spec fn g_result_extern(env: EnvModel, st: Cg, function: ExternFn, definition: DefId) -> Cg {
    let hir = env.program.hir;
    let st = st.push_anchor(function.name_span);
    let (st, place) = st.definition_place(definition);
    let target = if is_root_local(env, definition) {
        TargetModel::Local(place.text())
    } else {
        place.function_target()
    };
    let (st, host) = st.fresh();
    let st = st.local(host, Some(host_value(function.name@)));
    let names = parameter_names(st, function.params@);
    let st = st.begin(OpenerModel::Function { target, params: names });
    let (st, arguments) = g_host_args(env, st, function.params@, names, 0, Seq::empty());
    let (st, value) = st.fresh();
    let (st, error) = st.fresh();
    let st = st.emit(
        StatementModel::Local {
            names: seq![value, error],
            values: seq![m_call(m_name(host), arguments)],
        },
    ).begin_if(ne_nil(m_name(error)));
    let (st, failure) = st.standard_call(hir, "std::result"@, "err"@, seq![m_name(error)]);
    let st = st.return_value(failure).end();
    let (st, success) = st.standard_call(hir, "std::result"@, "ok"@, seq![m_name(value)]);
    st.return_value(success).end().pop_anchor()
}

/// The host functions `functions[from..]` of a block.
pub open spec fn g_extern_block(
    env: EnvModel,
    st: Cg,
    block: ExternBlock,
    module: ModuleId,
    item: usize,
    from: int,
) -> Cg
    decreases block.fns@.len() - from,
{
    if from < 0 || from >= block.fns@.len() {
        st
    } else {
        let next = match env.program.hir.extern_function_targets.at(
            (module, (item, from as usize)),
        ) {
            None => st.fault(),
            Some(definition) => if block.abi@ == "lua-result"@ {
                g_result_extern(env, st, block.fns@[from], definition)
            } else {
                g_plain_extern(env, st, block.fns@[from], definition)
            },
        };
        g_extern_block(env, next, block, module, item, from + 1)
    }
}

/// The host functions among `items[from..]`, and with `nested` those of the
/// modules inside.
pub open spec fn g_externs_from(
    env: EnvModel,
    st: Cg,
    items: Seq<Item>,
    module: ModuleId,
    nested: bool,
    from: int,
) -> Cg
    decreases items, items.len() - from,
{
    if from < 0 || from >= items.len() {
        st
    } else {
        let next = match items[from] {
            Item::Extern(block) => g_extern_block(env, st, block, module, from as usize, 0),
            Item::Mod(child) => if nested && !child.is_decl {
                match env.program.spec_child_module(module, from as usize) {
                    Some(inner) => g_externs_from(
                        env,
                        st.within(inner),
                        child.items@,
                        inner,
                        nested,
                        0,
                    ).within(st.current),
                    None => st.fault(),
                }
            } else {
                st
            },
            _ => st,
        };
        g_externs_from(env, next, items, module, nested, from + 1)
    }
}

fn host_function(name: &str) -> (r: LuaExpr)
    ensures
        r.model() == host_value(name@),
{
    let ambient = named("_G").index(LuaExpr::string(name));
    let missing = LuaExpr::string(cat3("missing Lua extern `", name, "`").as_str());
    named("assert").call(two_exprs(ambient, missing))
}

fn is_local_extern(env: &Env, definition: DefId) -> (r: bool)
    ensures
        r == is_root_local(env@, definition),
{
    if env.separate {
        return false;
    }
    match env.program.hir.find_definition(definition) {
        Some(data) => data.module == env.program.hir.root,
        None => false,
    }
}

impl Codegen {
    fn bind_plain_extern(&mut self, env: &Env, function: &ExternFn, definition: DefId)
        ensures
            final(self)@ == g_plain_extern(env@, old(self)@, *function, definition),
            final(self)@.lua.shape() == old(self)@.lua.shape(),
    {
        let place = self.definition_place(definition);
        self.define(
            &place,
            is_local_extern(env, definition),
            host_function(function.name.as_str()),
        );
    }

    /// One parameter that is a result: two locals, one of which gets the payload.
    fn split_result(&mut self, name: &str) -> (r: (String, String))
        ensures
            ({
                let (st, ok) = old(self)@.fresh();
                let (st, error) = st.fresh();
                let st = st.locals(seq![ok, error]).begin_if(ok_of(m_name(name@))).assign(
                    m_name(ok),
                    payload_of(m_name(name@)),
                ).begin_else().assign(m_name(error), payload_of(m_name(name@))).end();
                final(self)@ == st && r.0@ == ok && r.1@ == error
            }),
            final(self)@.lua.shape() == old(self)@.lua.shape(),
    {
        let ok = self.fresh_tmp();
        let error = self.fresh_tmp();
        self.locals(two_texts(ok.clone(), error.clone()));
        self.begin_if(result_is_ok(named(name)));
        self.assign(named(ok.as_str()), result_payload(named(name)));
        self.begin_else();
        self.assign(named(error.as_str()), result_payload(named(name)));
        self.end_block();
        (ok, error)
    }

    fn gen_host_args(&mut self, env: &Env, params: &Vec<Param>, names: &Vec<String>) -> (r: Vec<
        LuaExpr,
    >)
        ensures
            (final(self)@, exprs_model(r@)) == g_host_args(
                env@,
                old(self)@,
                params@,
                texts(names@),
                0,
                Seq::empty(),
            ),
            final(self)@.lua.shape() == old(self)@.lua.shape(),
    {
        let ghost start = self@;
        let ghost model = texts(names@);
        let mut out = no_exprs();
        let mut i: usize = 0;
        while i < params.len() && i < names.len()
            invariant
                i <= params.len(),
                i <= names.len(),
                model == texts(names@),
                g_host_args(env@, self@, params@, model, i as int, exprs_model(out@))
                    == g_host_args(env@, start, params@, model, 0, Seq::empty()),
                self@.lua.shape() == start.lua.shape(),
            decreases params.len() - i,
        {
            proof {
                assert(model[i as int] == names@[i as int]@);
            }
            if env.program.hir.type_is_builtin(&params[i].ty, BuiltinId::TypeResult) {
                let (ok, error) = self.split_result(names[i].as_str());
                push_expr(&mut out, LuaExpr::Name(ok));
                push_expr(&mut out, LuaExpr::Name(error));
            } else {
                push_expr(&mut out, named(names[i].as_str()));
            }
            i += 1;
        }
        out
    }

    fn bind_result_extern(&mut self, env: &Env, function: &ExternFn, definition: DefId)
        ensures
            final(self)@ == g_result_extern(env@, old(self)@, *function, definition),
            final(self)@.lua.shape() == old(self)@.lua.shape(),
    {
        let hir = &env.program.hir;
        self.push_anchor(function.name_span);
        let place = self.definition_place(definition);
        let target = if is_local_extern(env, definition) {
            FunctionTarget::Local(place.text())
        } else {
            place.function_target()
        };
        let host = self.fresh_tmp();
        self.local(host.as_str(), host_function(function.name.as_str()));
        let names = self.parameter_names(&function.params);
        let params = crate::text::copy_texts(&names);
        self.begin_function(target, params);
        let arguments = self.gen_host_args(env, &function.params, &names);
        let value = self.fresh_tmp();
        let error = self.fresh_tmp();
        let call = LuaExpr::Name(host).call(arguments);
        self.local_pair(value.as_str(), error.as_str(), call);
        self.begin_if(is_not_nil(named(error.as_str())));
        let failure = self.standard_call(
            hir,
            "std::result",
            "err",
            one_expr(LuaExpr::Name(error)),
        );
        self.return_value(failure);
        self.end_block();
        let success = self.standard_call(hir, "std::result", "ok", one_expr(LuaExpr::Name(value)));
        self.return_value(success);
        self.end_block();
        self.pop_anchor();
        proof {
            assert(self@.lua.anchors =~= old(self)@.lua.anchors);
        }
    }

    /// Two locals with one value.
    fn local_pair(&mut self, first: &str, second: &str, value: LuaExpr)
        ensures
            final(self)@ == old(self)@.emit(
                StatementModel::Local {
                    names: seq![first@, second@],
                    values: seq![value.model()],
                },
            ),
            final(self)@.lua.shape() == old(self)@.lua.shape(),
    {
        let values = one_expr(value);
        proof {
            assert(exprs_model(values@).len() == values@.len());
        }
        self.lua.local(two_texts(first.to_string(), second.to_string()), values);
    }

    fn bind_extern_block(&mut self, env: &Env, block: &ExternBlock, module: ModuleId, item: usize)
        ensures
            final(self)@ == g_extern_block(env@, old(self)@, *block, module, item, 0),
            final(self)@.lua.shape() == old(self)@.lua.shape(),
    {
        let ghost start = self@;
        let mut i: usize = 0;
        while i < block.fns.len()
            invariant
                i <= block.fns.len(),
                g_extern_block(env@, self@, *block, module, item, i as int) == g_extern_block(
                    env@,
                    start,
                    *block,
                    module,
                    item,
                    0,
                ),
                self@.lua.shape() == start.lua.shape(),
            decreases block.fns.len() - i,
        {
            match env.program.hir.extern_function_targets.get(&(module, (item, i))) {
                None => {
                    self.fault();
                },
                Some(definition) => {
                    if same_text(block.abi.as_str(), "lua-result") {
                        self.bind_result_extern(env, &block.fns[i], *definition);
                    } else {
                        self.bind_plain_extern(env, &block.fns[i], *definition);
                    }
                },
            }
            i += 1;
        }
    }

    /// The host functions of a module, and with `nested` those of the modules
    /// inside.
    pub fn bind_externs(&mut self, env: &Env, items: &Vec<Item>, module: ModuleId, nested: bool)
        ensures
            final(self)@ == g_externs_from(env@, old(self)@, items@, module, nested, 0),
            final(self)@.lua.shape() == old(self)@.lua.shape(),
        decreases *items,
    {
        let ghost start = self@;
        let mut i: usize = 0;
        while i < items.len()
            invariant
                i <= items.len(),
                g_externs_from(env@, self@, items@, module, nested, i as int) == g_externs_from(
                    env@,
                    start,
                    items@,
                    module,
                    nested,
                    0,
                ),
                self@.lua.shape() == start.lua.shape(),
            decreases items.len() - i,
        {
            match &items[i] {
                Item::Extern(block) => {
                    self.bind_extern_block(env, block, module, i);
                },
                Item::Mod(child) => {
                    if nested && !child.is_decl {
                        match env.program.child_module(module, i) {
                            Some(inner) => {
                                let previous = self.current_module;
                                self.current_module = inner;
                                self.bind_externs(env, &child.items, inner, nested);
                                self.current_module = previous;
                            },
                            None => {
                                self.fault();
                            },
                        }
                    }
                },
                _ => {},
            }
            i += 1;
        }
    }
}

// ---------------------------------------------------------------------------
// Modules of a bundle.
// ---------------------------------------------------------------------------

/// The tables of the types among `items[from..]` of a module.
pub open spec fn g_module_types(
    env: EnvModel,
    st: Cg,
    items: Seq<Item>,
    module: ModuleId,
    from: int,
) -> Cg
    decreases items.len() - from,
{
    if from < 0 || from >= items.len() {
        st
    } else {
        let next = if items[from] is Struct || items[from] is Enum {
            match with_definition(env, st, module, from) {
                (st, Some(definition)) => g_type_table(
                    env,
                    st.definition_place(definition).0,
                    definition,
                    false,
                ),
                (st, None) => st,
            }
        } else {
            st
        };
        g_module_types(env, next, items, module, from + 1)
    }
}

/// The tables of a module, of its types and of the modules inside.
pub open spec fn g_declare(env: EnvModel, st: Cg, declaration: ModDecl, module: ModuleId) -> Cg
    decreases declaration, 0int,
{
    let (st, place) = st.module_place(module);
    let st = st.blank().annotation("---@class "@ + place.text());
    let capacity = module_capacity(env, st.declarations, declaration.items@, module);
    if !declaration.is_pub && capacity == 0 {
        st
    } else {
        let (st, table) = st.empty_table(capacity);
        let st = if !env.program.hir.has_module(module) {
            st.fault()
        } else {
            st.define(
                place,
                env.program.hir.spec_module(module).parent == Some(env.program.hir.root),
                table,
            )
        };
        let st = g_module_types(env, st, declaration.items@, module, 0);
        g_declare_children(env, st, declaration.items@, module, 0)
    }
}

/// The modules among `items[from..]`.
pub open spec fn g_declare_children(
    env: EnvModel,
    st: Cg,
    items: Seq<Item>,
    module: ModuleId,
    from: int,
) -> Cg
    decreases items, items.len() - from,
{
    if from < 0 || from >= items.len() {
        st
    } else {
        let next = match items[from] {
            Item::Mod(child) => if child.is_decl {
                st
            } else {
                match env.program.spec_child_module(module, from as usize) {
                    Some(inner) => g_declare(env, st, child, inner),
                    None => st.fault(),
                }
            },
            _ => st,
        };
        g_declare_children(env, next, items, module, from + 1)
    }
}

/// The functions and implementations of a module and of the modules inside.
pub open spec fn g_define(
    env: EnvModel,
    st: Cg,
    declaration: ModDecl,
    traits: Map<DefId, &TraitDecl>,
    module: ModuleId,
) -> Cg
    decreases declaration, 0int,
{
    let inside = g_define_items(env, st.within(module), declaration.items@, traits, module, 0);
    g_impls(env, inside, declaration.items@, traits, module).within(st.current)
}

/// The functions and modules among `items[from..]`.
pub open spec fn g_define_items(
    env: EnvModel,
    st: Cg,
    items: Seq<Item>,
    traits: Map<DefId, &TraitDecl>,
    module: ModuleId,
    from: int,
) -> Cg
    decreases items, items.len() - from,
{
    if from < 0 || from >= items.len() {
        st
    } else {
        let next = match items[from] {
            Item::Fn(function) => match with_definition(env, st, module, from) {
                (st, Some(definition)) => g_function(env, st, function, definition, true),
                (st, None) => st,
            },
            Item::Mod(child) => if child.is_decl {
                st
            } else {
                match env.program.spec_child_module(module, from as usize) {
                    Some(inner) => g_define(env, st, child, traits, inner),
                    None => st.fault(),
                }
            },
            _ => st,
        };
        g_define_items(env, next, items, traits, module, from + 1)
    }
}

impl Cg {
    /// A public item is reachable under its source name too, where that differs
    /// from the place it has.
    pub open spec fn publish(self, module: PlaceModel, name: Seq<char>, place: PlaceModel) -> Cg {
        if place != module.field(identifier_of(name)) || identifier_of(name) != name {
            self.assign(m_index(module.expression(), m_string(name)), place.expression())
        } else {
            self
        }
    }

    /// Publishes a definition, where it has a place.
    pub open spec fn publish_definition(
        self,
        env: EnvModel,
        module: PlaceModel,
        name: Seq<char>,
        definition: Option<DefId>,
    ) -> Cg {
        match definition {
            Some(definition) => match entry(self.layout.definitions, definition) {
                Some(place) => self.publish(module, name, place),
                None => self,
            },
            None => self.fault(),
        }
    }

    /// Publishes a module, where it has a place.
    pub open spec fn publish_module(
        self,
        module: PlaceModel,
        name: Seq<char>,
        inner: Option<ModuleId>,
    ) -> Cg {
        match inner {
            Some(inner) => match entry(self.layout.modules, inner) {
                Some(place) => self.publish(module, name, place),
                None => self,
            },
            None => self.fault(),
        }
    }
}

/// The public items of a module and of the modules inside.
pub open spec fn g_publish(env: EnvModel, st: Cg, declaration: ModDecl, module: ModuleId) -> Cg
    decreases declaration, 0int,
{
    let (st, place) = st.module_place(module);
    g_publish_items(env, st, declaration.items@, place, module, 0)
}

/// The public items among `items[from..]`, and the modules.
pub open spec fn g_publish_items(
    env: EnvModel,
    st: Cg,
    items: Seq<Item>,
    place: PlaceModel,
    module: ModuleId,
    from: int,
) -> Cg
    decreases items, items.len() - from,
{
    if from < 0 || from >= items.len() {
        st
    } else {
        let definition = env.program.spec_item_definition(module, from as usize);
        let inner = env.program.spec_child_module(module, from as usize);
        let next = match items[from] {
            Item::Fn(function) => if function.is_pub {
                st.publish_definition(env, place, function.name@, definition)
            } else {
                st
            },
            Item::Struct(structure) => if structure.is_pub {
                st.publish_definition(env, place, structure.name@, definition)
            } else {
                st
            },
            Item::Enum(enumeration) => if enumeration.is_pub {
                st.publish_definition(env, place, enumeration.name@, definition)
            } else {
                st
            },
            Item::Mod(child) => if child.is_decl {
                st
            } else {
                let st = if child.is_pub {
                    st.publish_module(place, child.name@, inner)
                } else {
                    st
                };
                match inner {
                    Some(inner) => g_publish(env, st, child, inner),
                    None => st.fault(),
                }
            },
            _ => st,
        };
        g_publish_items(env, next, items, place, module, from + 1)
    }
}

impl Codegen {
    fn gen_module_types(&mut self, env: &Env, items: &Vec<Item>, module: ModuleId)
        ensures
            final(self)@ == g_module_types(env@, old(self)@, items@, module, 0),
            final(self)@.lua.shape() == old(self)@.lua.shape(),
    {
        let ghost start = self@;
        let mut i: usize = 0;
        while i < items.len()
            invariant
                i <= items.len(),
                g_module_types(env@, self@, items@, module, i as int) == g_module_types(
                    env@,
                    start,
                    items@,
                    module,
                    0,
                ),
                self@.lua.shape() == start.lua.shape(),
            decreases items.len() - i,
        {
            let is_type = match &items[i] {
                Item::Struct(_) => true,
                Item::Enum(_) => true,
                _ => false,
            };
            if is_type {
                if let Some(definition) = self.item_definition(env, module, i) {
                    let _ = self.definition_place(definition);
                    self.gen_type_table(env, definition, false);
                }
            }
            i += 1;
        }
    }

    /// The tables of a module, of its types and of the modules inside.
    pub fn declare_mod(&mut self, env: &Env, declaration: &ModDecl, module: ModuleId)
        ensures
            final(self)@ == g_declare(env@, old(self)@, *declaration, module),
            final(self)@.lua.shape() == old(self)@.lua.shape(),
        decreases *declaration, 0int,
    {
        let place = self.module_place(module);
        self.blank();
        self.annotation(cat2("---@class ", place.text().as_str()).as_str());
        let capacity = module_table_record_capacity(
            env,
            &self.declaration_imports,
            &declaration.items,
            module,
        );
        if !declaration.is_pub && capacity == 0 {
            return ;
        }
        let table = self.empty_table(capacity);
        match env.program.hir.find_module(module) {
            None => {
                self.fault();
            },
            Some(data) => {
                let local = match data.parent {
                    Some(parent) => parent == env.program.hir.root,
                    None => false,
                };
                self.define(&place, local, table);
            },
        }
        self.gen_module_types(env, &declaration.items, module);
        self.declare_children(env, &declaration.items, module);
    }

    /// The tables of the modules among the items.
    pub fn declare_children(&mut self, env: &Env, items: &Vec<Item>, module: ModuleId)
        ensures
            final(self)@ == g_declare_children(env@, old(self)@, items@, module, 0),
            final(self)@.lua.shape() == old(self)@.lua.shape(),
        decreases *items, 0int,
    {
        let ghost start = self@;
        let mut i: usize = 0;
        while i < items.len()
            invariant
                i <= items.len(),
                g_declare_children(env@, self@, items@, module, i as int) == g_declare_children(
                    env@,
                    start,
                    items@,
                    module,
                    0,
                ),
                self@.lua.shape() == start.lua.shape(),
            decreases items.len() - i,
        {
            if let Item::Mod(child) = &items[i] {
                if !child.is_decl {
                    match env.program.child_module(module, i) {
                        Some(inner) => {
                            self.declare_mod(env, child, inner);
                        },
                        None => {
                            self.fault();
                        },
                    }
                }
            }
            i += 1;
        }
    }

    /// The functions and implementations of a module and of the modules inside.
    pub fn define_mod(
        &mut self,
        env: &Env,
        declaration: &ModDecl,
        traits: &Table<DefId, &TraitDecl>,
        module: ModuleId,
    )
        ensures
            final(self)@ == g_define(env@, old(self)@, *declaration, traits@, module),
            final(self)@.lua.shape() == old(self)@.lua.shape(),
        decreases *declaration, 0int,
    {
        let previous = self.current_module;
        self.current_module = module;
        self.define_items(env, &declaration.items, traits, module);
        self.gen_impls(env, &declaration.items, traits, module);
        self.current_module = previous;
    }

    fn define_items(
        &mut self,
        env: &Env,
        items: &Vec<Item>,
        traits: &Table<DefId, &TraitDecl>,
        module: ModuleId,
    )
        ensures
            final(self)@ == g_define_items(env@, old(self)@, items@, traits@, module, 0),
            final(self)@.lua.shape() == old(self)@.lua.shape(),
        decreases *items, 0int,
    {
        let ghost start = self@;
        let mut i: usize = 0;
        while i < items.len()
            invariant
                i <= items.len(),
                g_define_items(env@, self@, items@, traits@, module, i as int) == g_define_items(
                    env@,
                    start,
                    items@,
                    traits@,
                    module,
                    0,
                ),
                self@.lua.shape() == start.lua.shape(),
            decreases items.len() - i,
        {
            match &items[i] {
                Item::Fn(function) => {
                    if let Some(definition) = self.item_definition(env, module, i) {
                        self.gen_free_fn(env, function, definition, true);
                    }
                },
                Item::Mod(child) => {
                    if !child.is_decl {
                        match env.program.child_module(module, i) {
                            Some(inner) => {
                                self.define_mod(env, child, traits, inner);
                            },
                            None => {
                                self.fault();
                            },
                        }
                    }
                },
                _ => {},
            }
            i += 1;
        }
    }

    fn publish(&mut self, module: &Place, name: &str, place: &Place)
        ensures
            final(self)@ == old(self)@.publish(module@, name@, place@),
            final(self)@.lua.shape() == old(self)@.lua.shape(),
    {
        let encoded = user_identifier(name);
        let canonical = module.field(encoded.as_str());
        if !place.same_place(&canonical) || !same_text(encoded.as_str(), name) {
            self.assign(
                module.expression().index(LuaExpr::string(name)),
                place.expression(),
            );
        }
    }

    pub fn publish_definition(
        &mut self,
        env: &Env,
        module: &Place,
        name: &str,
        definition: Option<DefId>,
    )
        ensures
            final(self)@ == old(self)@.publish_definition(env@, module@, name@, definition),
            final(self)@.lua.shape() == old(self)@.lua.shape(),
    {
        match definition {
            Some(definition) => {
                let place = match self.layout.definition(definition) {
                    Some(place) => place.copy(),
                    None => {
                        return ;
                    },
                };
                self.publish(module, name, &place);
            },
            None => {
                self.fault();
            },
        }
    }

    pub fn publish_module(&mut self, module: &Place, name: &str, inner: Option<ModuleId>)
        ensures
            final(self)@ == old(self)@.publish_module(module@, name@, inner),
            final(self)@.lua.shape() == old(self)@.lua.shape(),
    {
        match inner {
            Some(inner) => {
                let place = match self.layout.module(inner) {
                    Some(place) => place.copy(),
                    None => {
                        return ;
                    },
                };
                self.publish(module, name, &place);
            },
            None => {
                self.fault();
            },
        }
    }

    /// The public items of a module and of the modules inside.
    pub fn publish_mod(&mut self, env: &Env, declaration: &ModDecl, module: ModuleId)
        ensures
            final(self)@ == g_publish(env@, old(self)@, *declaration, module),
            final(self)@.lua.shape() == old(self)@.lua.shape(),
        decreases *declaration, 0int,
    {
        let place = self.module_place(module);
        self.publish_items(env, &declaration.items, &place, module);
    }

    fn publish_items(&mut self, env: &Env, items: &Vec<Item>, place: &Place, module: ModuleId)
        ensures
            final(self)@ == g_publish_items(env@, old(self)@, items@, place@, module, 0),
            final(self)@.lua.shape() == old(self)@.lua.shape(),
        decreases *items, 0int,
    {
        let ghost start = self@;
        let mut i: usize = 0;
        while i < items.len()
            invariant
                i <= items.len(),
                g_publish_items(env@, self@, items@, place@, module, i as int) == g_publish_items(
                    env@,
                    start,
                    items@,
                    place@,
                    module,
                    0,
                ),
                self@.lua.shape() == start.lua.shape(),
            decreases items.len() - i,
        {
            let definition = env.program.item_definition(module, i);
            let inner = env.program.child_module(module, i);
            match &items[i] {
                Item::Fn(function) => {
                    if function.is_pub {
                        self.publish_definition(env, place, function.name.as_str(), definition);
                    }
                },
                Item::Struct(structure) => {
                    if structure.is_pub {
                        self.publish_definition(env, place, structure.name.as_str(), definition);
                    }
                },
                Item::Enum(enumeration) => {
                    if enumeration.is_pub {
                        self.publish_definition(env, place, enumeration.name.as_str(), definition);
                    }
                },
                Item::Mod(child) => {
                    if !child.is_decl {
                        if child.is_pub {
                            self.publish_module(place, child.name.as_str(), inner);
                        }
                        match inner {
                            Some(inner) => {
                                self.publish_mod(env, child, inner);
                            },
                            None => {
                                self.fault();
                            },
                        }
                    }
                },
                _ => {},
            }
            i += 1;
        }
    }
}

// ---------------------------------------------------------------------------
// Initialisation in source order.
// ---------------------------------------------------------------------------

/// The initialisation of a module: its statements and the modules inside, in
/// source order.
pub open spec fn g_init(
    env: EnvModel,
    st: Cg,
    order: Seq<ChunkEntry>,
    items: Seq<Item>,
    chunk: Block,
    module: ModuleId,
) -> Cg
    decreases items, order.len() + 1,
{
    g_init_from(
        env,
        st.within(module).push_scope(Map::empty()),
        order,
        items,
        chunk,
        module,
        0,
    ).pop_scope().within(st.current)
}

/// The entries `order[from..]`.
pub open spec fn g_init_from(
    env: EnvModel,
    st: Cg,
    order: Seq<ChunkEntry>,
    items: Seq<Item>,
    chunk: Block,
    module: ModuleId,
    from: int,
) -> Cg
    decreases items, order.len() - from,
{
    if from < 0 || from >= order.len() {
        st
    } else {
        let next = match order[from] {
            ChunkEntry::Statement(index) => if index >= chunk.stmts@.len() {
                st.fault()
            } else {
                g_stmt(
                    env,
                    st.blank_before(chunk.statement_blank_before@, index as int),
                    chunk.stmts@[index as int],
                )
            },
            ChunkEntry::Item(index) => if index >= items.len() {
                st.fault()
            } else {
                match items[index as int] {
                    Item::Mod(child) => if child.is_decl {
                        st
                    } else {
                        match env.program.spec_child_module(module, index) {
                            None => st.fault(),
                            Some(inner) => if env.separate {
                                if child.is_file {
                                    st.depend(env, inner)
                                } else {
                                    st
                                }
                            } else {
                                g_init(
                                    env,
                                    st,
                                    child.source_order@,
                                    child.items@,
                                    child.chunk,
                                    inner,
                                )
                            },
                        }
                    },
                    _ => st,
                }
            },
        };
        g_init_from(env, next, order, items, chunk, module, from + 1)
    }
}

impl Codegen {
    /// The initialisation of a module in source order.
    pub fn init_entries(
        &mut self,
        env: &Env,
        order: &Vec<ChunkEntry>,
        items: &Vec<Item>,
        chunk: &Block,
        module: ModuleId,
    )
        ensures
            final(self)@ == g_init(env@, old(self)@, order@, items@, *chunk, module),
            final(self)@.lua.shape() == old(self)@.lua.shape(),
        decreases *items,
    {
        let previous = self.current_module;
        self.current_module = module;
        self.push_empty_scope();
        let ghost start = self@;
        let mut i: usize = 0;
        while i < order.len()
            invariant
                i <= order.len(),
                g_init_from(env@, self@, order@, items@, *chunk, module, i as int) == g_init_from(
                    env@,
                    start,
                    order@,
                    items@,
                    *chunk,
                    module,
                    0,
                ),
                self@.lua.shape() == start.lua.shape(),
            decreases order.len() - i,
        {
            match order[i] {
                ChunkEntry::Statement(index) => {
                    if index >= chunk.stmts.len() {
                        self.fault();
                    } else {
                        if index >= chunk.statement_blank_before.len() {
                            self.fault();
                        } else if chunk.statement_blank_before[index] {
                            self.blank();
                        }
                        self.gen_stmt(env, &chunk.stmts[index]);
                    }
                },
                ChunkEntry::Item(index) => {
                    if index >= items.len() {
                        self.fault();
                    } else if let Item::Mod(child) = &items[index] {
                        if !child.is_decl {
                            match env.program.child_module(module, index) {
                                None => {
                                    self.fault();
                                },
                                Some(inner) => {
                                    if env.separate {
                                        if child.is_file {
                                            self.record_module_dependency(env, inner);
                                        }
                                    } else {
                                        self.init_entries(
                                            env,
                                            &child.source_order,
                                            &child.items,
                                            &child.chunk,
                                            inner,
                                        );
                                    }
                                },
                            }
                        }
                    }
                },
            }
            i += 1;
        }
        self.pop_scope();
        self.current_module = previous;
    }
}

} // verus!
