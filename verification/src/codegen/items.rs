//! Functions, methods, types, host functions and modules.

use vstd::prelude::*;

use super::analysis::{metamethod, op_alias};
use super::annotate::{type_text, type_to_emmylua};
use super::lower::g_block_to;
use super::state::{Cg, Codegen, DestModel, Dest, Env, EnvModel};
use crate::ast::{FnDecl, ImplDecl, Item, Param, TraitDecl, TraitMethod};
use crate::backend_layout::{Place, PlaceModel};
use crate::hir::{DefId, DefKind, ModuleId, ResolvedTarget, TraitTarget};
use crate::lua_ir::{Expr as LuaExpr, ExprModel, FunctionTarget, OpenerModel, TargetModel};
use crate::table::{KeySet, Table};
use crate::text::{cat4, texts};
use crate::typed::TypedProgram;

verus! {

/// The Lua names of parameters.
pub open spec fn parameter_names(st: Cg, params: Seq<Param>) -> Seq<Seq<char>> {
    Seq::new(params.len(), |i: int| st.local_name(params[i].name@))
}

/// The method of a type that it has from a trait method.
pub open spec fn inherited(program: TypedProgram, owner: DefId, origin: DefId, from: int) -> Option<
    DefId,
>
    decreases program.hir.definitions@.len() - from,
{
    let definitions = program.hir.definitions@;
    if from < 0 || from >= definitions.len() {
        None
    } else if definitions[from].kind == (DefKind::Method { owner })
        && program.hir.method_origins.at(definitions[from].id) == Some(origin) {
        Some(definitions[from].id)
    } else {
        inherited(program, owner, origin, from + 1)
    }
}

fn inherited_method(program: &TypedProgram, owner: DefId, origin: DefId) -> (r: Option<DefId>)
    ensures
        r == inherited(*program, owner, origin, 0),
{
    let definitions = &program.hir.definitions;
    let mut i: usize = 0;
    while i < definitions.len()
        invariant
            i <= definitions.len(),
            definitions@ == program.hir.definitions@,
            inherited(*program, owner, origin, i as int) == inherited(*program, owner, origin, 0),
        decreases definitions.len() - i,
    {
        if definitions[i].kind == (DefKind::Method { owner }) {
            if let Some(found) = program.hir.method_origins.get(&definitions[i].id) {
                if *found == origin {
                    return Some(definitions[i].id);
                }
            }
        }
        i += 1;
    }
    None
}

// ---------------------------------------------------------------------------
// Callables.
// ---------------------------------------------------------------------------

impl Cg {
    /// The state in another module.
    pub open spec fn within(self, module: ModuleId) -> Cg {
        Cg { current: module, ..self }
    }

    /// A local or a place gets a value.
    pub open spec fn define(self, place: PlaceModel, local: bool, value: ExprModel) -> Cg {
        if local {
            self.local(place.text(), Some(value))
        } else {
            self.assign(place.expression(), value)
        }
    }
}

/// A function with its annotation. A function that was not declared before is a
/// local function.
pub open spec fn g_function(
    env: EnvModel,
    st: Cg,
    function: FnDecl,
    definition: DefId,
    predeclared: bool,
) -> Cg {
    let st = st.push_anchor(function.name_span).blank().fn_annotation(env, function);
    let params = parameter_names(st, function.params@);
    let (st, place) = st.definition_place(definition);
    let target = if predeclared {
        place.function_target()
    } else {
        TargetModel::Local(place.text())
    };
    let st = st.begin(OpenerModel::Function { target, params });
    g_block_to(env, st, function.body, DestModel::Return).end().pop_anchor()
}

/// A method of an implementation.
pub open spec fn g_impl_method(env: EnvModel, st: Cg, method: FnDecl, definition: DefId) -> Cg {
    let st = st.push_anchor(method.name_span).blank().return_annotation(env, method.ret);
    let params = parameter_names(st, method.params@);
    let (st, place) = st.definition_place(definition);
    let st = st.begin(
        OpenerModel::Function { target: place.callable_target(method.has_self), params },
    );
    g_block_to(env, st, method.body, DestModel::Return).end().pop_anchor()
}

/// The annotations of the parameters `params[from..]`.
pub open spec fn param_annotations(env: EnvModel, st: Cg, params: Seq<Param>, from: int) -> Cg
    decreases params.len() - from,
{
    if from < 0 || from >= params.len() {
        st
    } else {
        param_annotations(
            env,
            st.annotation(
                "---@param "@ + params[from].name@ + " "@ + type_text(env, params[from].ty),
            ),
            params,
            from + 1,
        )
    }
}

/// A default method of a trait, for a type that does not override it.
pub open spec fn g_default(env: EnvModel, st: Cg, method: TraitMethod, definition: DefId) -> Cg {
    let st = st.push_anchor(method.name_span).blank();
    let st = param_annotations(
        env,
        st,
        method.params@,
        if method.has_self {
            1
        } else {
            0
        },
    ).return_annotation(env, method.ret);
    let params = parameter_names(st, method.params@);
    let (st, place) = st.definition_place(definition);
    let st = st.begin(
        OpenerModel::Function { target: place.callable_target(method.has_self), params },
    );
    let st = match method.default {
        Some(body) => g_block_to(env, st, body, DestModel::Return),
        None => st,
    };
    st.end().pop_anchor()
}

/// The metamethod that stands for an operator method, where it is one.
pub open spec fn g_alias(
    env: EnvModel,
    st: Cg,
    definition: DefId,
    name: Seq<char>,
    owner: PlaceModel,
) -> Cg {
    match env.program.hir.method_traits.at(definition) {
        Some(target) => match metamethod(target, name) {
            Some(alias) => {
                let (st, place) = st.definition_place(definition);
                st.assign(owner.field(alias).expression(), place.expression())
            },
            None => st,
        },
        None => st,
    }
}

/// The methods `methods[from..]` of an implementation. Gives the trait methods
/// that they implement.
pub open spec fn g_impl_methods(
    env: EnvModel,
    st: Cg,
    methods: Seq<FnDecl>,
    module: ModuleId,
    item: usize,
    owner: PlaceModel,
    from: int,
    overridden: Set<DefId>,
) -> (Cg, Set<DefId>)
    decreases methods.len() - from,
{
    if from < 0 || from >= methods.len() {
        (st, overridden)
    } else {
        match env.program.hir.impl_method_targets.at((module, (item, from as usize))) {
            None => g_impl_methods(
                env,
                st.fault(),
                methods,
                module,
                item,
                owner,
                from + 1,
                overridden,
            ),
            Some(definition) => {
                let next = match env.program.hir.trait_method_implementations.at(definition) {
                    Some(origin) => overridden.insert(origin),
                    None => overridden,
                };
                let st = g_impl_method(env, st, methods[from], definition);
                let st = g_alias(env, st, definition, methods[from].name@, owner);
                g_impl_methods(env, st, methods, module, item, owner, from + 1, next)
            },
        }
    }
}

/// The default methods `methods[from..]` of a trait that a type does not
/// override.
pub open spec fn g_defaults(
    env: EnvModel,
    st: Cg,
    methods: Seq<TraitMethod>,
    trait_id: DefId,
    owner: DefId,
    place: PlaceModel,
    from: int,
    overridden: Set<DefId>,
) -> Cg
    decreases methods.len() - from,
{
    if from < 0 || from >= methods.len() {
        st
    } else {
        let next = match env.program.hir.trait_method_targets.at((trait_id, from as usize)) {
            None => st.fault(),
            Some(origin) => if methods[from].default is Some && !overridden.contains(origin) {
                match inherited(env.program, owner, origin, 0) {
                    None => st.fault(),
                    Some(definition) => g_alias(
                        env,
                        g_default(env, st, methods[from], definition),
                        definition,
                        methods[from].name@,
                        place,
                    ),
                }
            } else {
                st
            },
        };
        g_defaults(env, next, methods, trait_id, owner, place, from + 1, overridden)
    }
}

/// One implementation: its methods, and the default methods of its trait.
pub open spec fn g_impl(
    env: EnvModel,
    st: Cg,
    declaration: ImplDecl,
    traits: Map<DefId, &TraitDecl>,
    module: ModuleId,
    item: usize,
) -> Cg {
    match env.program.hir.impl_targets.at((module, item)) {
        None => st.fault(),
        Some(implementation) => match st.target_place(
            env,
            ResolvedTarget::Item(implementation.owner),
        ) {
            (st, None) => st.fault(),
            (st, Some(place)) => {
                let (st, overridden) = g_impl_methods(
                    env,
                    st,
                    declaration.methods@,
                    module,
                    item,
                    place,
                    0,
                    Set::empty(),
                );
                match implementation.trait_target {
                    Some(TraitTarget::Item(trait_id)) => if traits.dom().contains(trait_id) {
                        g_defaults(
                            env,
                            st,
                            traits[trait_id].methods@,
                            trait_id,
                            implementation.owner,
                            place,
                            0,
                            overridden,
                        )
                    } else {
                        st
                    },
                    _ => st,
                }
            },
        },
    }
}

/// The implementations among `items[from..]`.
pub open spec fn g_impls_from(
    env: EnvModel,
    st: Cg,
    items: Seq<Item>,
    traits: Map<DefId, &TraitDecl>,
    module: ModuleId,
    from: int,
) -> Cg
    decreases items.len() - from,
{
    if from < 0 || from >= items.len() {
        st
    } else {
        let next = match items[from] {
            Item::Impl(declaration) => g_impl(
                env,
                st,
                declaration,
                traits,
                module,
                from as usize,
            ),
            _ => st,
        };
        g_impls_from(env, next, items, traits, module, from + 1)
    }
}

/// The implementations of a module.
pub open spec fn g_impls(
    env: EnvModel,
    st: Cg,
    items: Seq<Item>,
    traits: Map<DefId, &TraitDecl>,
    module: ModuleId,
) -> Cg {
    g_impls_from(env, st.within(module), items, traits, module, 0).within(st.current)
}

impl Codegen {
    pub fn parameter_names(&self, params: &Vec<Param>) -> (r: Vec<String>)
        ensures
            texts(r@) == parameter_names(self@, params@),
            r@.len() == params@.len(),
    {
        let mut out: Vec<String> = Vec::new();
        let mut i: usize = 0;
        while i < params.len()
            invariant
                i <= params.len(),
                out@.len() == i,
                forall|k: int|
                    0 <= k < i ==> (#[trigger] out@[k])@ == self@.local_name(params@[k].name@),
            decreases params.len() - i,
        {
            out.push(self.local_name(params[i].name.as_str()));
            i += 1;
        }
        proof {
            assert(texts(out@) =~= parameter_names(self@, params@));
        }
        out
    }

    pub fn define(&mut self, place: &Place, local: bool, value: LuaExpr)
        ensures
            final(self)@ == old(self)@.define(place@, local, value.model()),
            final(self)@.lua.shape() == old(self)@.lua.shape(),
    {
        if local {
            self.local(place.text().as_str(), value);
        } else {
            self.assign(place.expression(), value);
        }
    }

    /// A function with its annotation.
    pub fn gen_free_fn(&mut self, env: &Env, function: &FnDecl, definition: DefId, predeclared: bool)
        ensures
            final(self)@ == g_function(env@, old(self)@, *function, definition, predeclared),
            final(self)@.lua.shape() == old(self)@.lua.shape(),
    {
        self.push_anchor(function.name_span);
        self.blank();
        self.emit_fn_annotation(env, function);
        let params = self.parameter_names(&function.params);
        let place = self.definition_place(definition);
        let target = if predeclared {
            place.function_target()
        } else {
            FunctionTarget::Local(place.text())
        };
        self.begin_function(target, params);
        self.gen_block_to(env, &function.body, &Dest::Return);
        self.end_block();
        self.pop_anchor();
        proof {
            assert(self@.lua.anchors =~= old(self)@.lua.anchors);
        }
    }

    fn gen_impl_method(&mut self, env: &Env, method: &FnDecl, definition: DefId)
        ensures
            final(self)@ == g_impl_method(env@, old(self)@, *method, definition),
            final(self)@.lua.shape() == old(self)@.lua.shape(),
    {
        self.push_anchor(method.name_span);
        self.blank();
        self.emit_return_annotation(env, &method.ret);
        let params = self.parameter_names(&method.params);
        let place = self.definition_place(definition);
        self.begin_function(place.callable_target(method.has_self), params);
        self.gen_block_to(env, &method.body, &Dest::Return);
        self.end_block();
        self.pop_anchor();
        proof {
            assert(self@.lua.anchors =~= old(self)@.lua.anchors);
        }
    }

    fn emit_param_annotations(&mut self, env: &Env, params: &Vec<Param>, from: usize)
        ensures
            final(self)@ == param_annotations(env@, old(self)@, params@, from as int),
            final(self)@.lua.shape() == old(self)@.lua.shape(),
    {
        let ghost start = self@;
        let mut i: usize = from;
        while i < params.len()
            invariant
                param_annotations(env@, self@, params@, i as int) == param_annotations(
                    env@,
                    start,
                    params@,
                    from as int,
                ),
                self@.lua.shape() == start.lua.shape(),
            decreases params.len() - i,
        {
            let ty = type_to_emmylua(env, &params[i].ty);
            self.annotation(
                cat4("---@param ", params[i].name.as_str(), " ", ty.as_str()).as_str(),
            );
            i += 1;
        }
    }

    fn gen_trait_default(&mut self, env: &Env, method: &TraitMethod, definition: DefId)
        ensures
            final(self)@ == g_default(env@, old(self)@, *method, definition),
            final(self)@.lua.shape() == old(self)@.lua.shape(),
    {
        self.push_anchor(method.name_span);
        self.blank();
        self.emit_param_annotations(
            env,
            &method.params,
            if method.has_self {
                1
            } else {
                0
            },
        );
        self.emit_return_annotation(env, &method.ret);
        let params = self.parameter_names(&method.params);
        let place = self.definition_place(definition);
        self.begin_function(place.callable_target(method.has_self), params);
        if let Some(body) = &method.default {
            self.gen_block_to(env, body, &Dest::Return);
        }
        self.end_block();
        self.pop_anchor();
        proof {
            assert(self@.lua.anchors =~= old(self)@.lua.anchors);
        }
    }

    fn gen_alias(&mut self, env: &Env, definition: DefId, name: &str, owner: &Place)
        ensures
            final(self)@ == g_alias(env@, old(self)@, definition, name@, owner@),
            final(self)@.lua.shape() == old(self)@.lua.shape(),
    {
        if let Some(target) = env.program.hir.method_traits.get(&definition) {
            if let Some(alias) = op_alias(*target, name) {
                let place = self.definition_place(definition);
                self.assign(owner.field(alias).expression(), place.expression());
            }
        }
    }

    fn gen_impl_methods(
        &mut self,
        env: &Env,
        methods: &Vec<FnDecl>,
        module: ModuleId,
        item: usize,
        owner: &Place,
    ) -> (r: KeySet<DefId>)
        ensures
            (final(self)@, r@) == g_impl_methods(
                env@,
                old(self)@,
                methods@,
                module,
                item,
                owner@,
                0,
                Set::empty(),
            ),
            final(self)@.lua.shape() == old(self)@.lua.shape(),
    {
        let ghost start = self@;
        let mut overridden: KeySet<DefId> = KeySet::new();
        let mut i: usize = 0;
        while i < methods.len()
            invariant
                i <= methods.len(),
                g_impl_methods(
                    env@,
                    self@,
                    methods@,
                    module,
                    item,
                    owner@,
                    i as int,
                    overridden@,
                ) == g_impl_methods(env@, start, methods@, module, item, owner@, 0, Set::empty()),
                self@.lua.shape() == start.lua.shape(),
            decreases methods.len() - i,
        {
            match env.program.hir.impl_method_targets.get(&(module, (item, i))) {
                None => {
                    self.fault();
                },
                Some(definition) => {
                    if let Some(origin) = env.program.hir.trait_method_implementations.get(
                        definition,
                    ) {
                        let _ = overridden.insert(*origin);
                    }
                    self.gen_impl_method(env, &methods[i], *definition);
                    self.gen_alias(env, *definition, methods[i].name.as_str(), owner);
                },
            }
            i += 1;
        }
        overridden
    }

    fn gen_defaults(
        &mut self,
        env: &Env,
        methods: &Vec<TraitMethod>,
        trait_id: DefId,
        owner: DefId,
        place: &Place,
        overridden: &KeySet<DefId>,
    )
        ensures
            final(self)@ == g_defaults(
                env@,
                old(self)@,
                methods@,
                trait_id,
                owner,
                place@,
                0,
                overridden@,
            ),
            final(self)@.lua.shape() == old(self)@.lua.shape(),
    {
        let ghost start = self@;
        let mut i: usize = 0;
        while i < methods.len()
            invariant
                i <= methods.len(),
                g_defaults(
                    env@,
                    self@,
                    methods@,
                    trait_id,
                    owner,
                    place@,
                    i as int,
                    overridden@,
                ) == g_defaults(env@, start, methods@, trait_id, owner, place@, 0, overridden@),
                self@.lua.shape() == start.lua.shape(),
            decreases methods.len() - i,
        {
            match env.program.hir.trait_method_targets.get(&(trait_id, i)) {
                None => {
                    self.fault();
                },
                Some(origin) => {
                    if methods[i].default.is_some() && !overridden.has(origin) {
                        match inherited_method(env.program, owner, *origin) {
                            None => {
                                self.fault();
                            },
                            Some(definition) => {
                                self.gen_trait_default(env, &methods[i], definition);
                                self.gen_alias(env, definition, methods[i].name.as_str(), place);
                            },
                        }
                    }
                },
            }
            i += 1;
        }
    }

    fn gen_impl(
        &mut self,
        env: &Env,
        declaration: &ImplDecl,
        traits: &Table<DefId, &TraitDecl>,
        module: ModuleId,
        item: usize,
    )
        ensures
            final(self)@ == g_impl(env@, old(self)@, *declaration, traits@, module, item),
            final(self)@.lua.shape() == old(self)@.lua.shape(),
    {
        let implementation = match env.program.implementation(module, item) {
            Some(implementation) => implementation,
            None => {
                self.fault();
                return ;
            },
        };
        let place = match self.target_place(env, ResolvedTarget::Item(implementation.owner)) {
            Some(place) => place,
            None => {
                self.fault();
                return ;
            },
        };
        let overridden = self.gen_impl_methods(env, &declaration.methods, module, item, &place);
        if let Some(TraitTarget::Item(trait_id)) = implementation.trait_target {
            if let Some(declaration) = traits.get(&trait_id) {
                self.gen_defaults(
                    env,
                    &declaration.methods,
                    trait_id,
                    implementation.owner,
                    &place,
                    &overridden,
                );
            }
        }
    }

    /// The implementations of a module.
    pub fn gen_impls(
        &mut self,
        env: &Env,
        items: &Vec<Item>,
        traits: &Table<DefId, &TraitDecl>,
        module: ModuleId,
    )
        ensures
            final(self)@ == g_impls(env@, old(self)@, items@, traits@, module),
            final(self)@.lua.shape() == old(self)@.lua.shape(),
    {
        let previous = self.current_module;
        self.current_module = module;
        let ghost start = self@;
        let mut i: usize = 0;
        while i < items.len()
            invariant
                i <= items.len(),
                g_impls_from(env@, self@, items@, traits@, module, i as int) == g_impls_from(
                    env@,
                    start,
                    items@,
                    traits@,
                    module,
                    0,
                ),
                self@.lua.shape() == start.lua.shape(),
            decreases items.len() - i,
        {
            if let Item::Impl(declaration) = &items[i] {
                self.gen_impl(env, declaration, traits, module, i);
            }
            i += 1;
        }
        self.current_module = previous;
    }
}

} // verus!
