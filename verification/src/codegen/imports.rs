//! The Lua modules that generated code requires, and the places of targets in
//! other modules.

use vstd::prelude::*;

use super::state::{
    imports_model, pairs_model, Cg, Codegen, Env, EnvModel, ImportModel, RuntimeImport,
};
use crate::backend_layout::{names_of, Place, PlaceModel};
use crate::builtins::RuntimeModule;
use crate::hir::{DefId, ModuleId, ResolvedHir, ResolvedTarget};
use crate::lua_ir::{exprs_model, m_call, m_member, m_name, two_exprs, Expr as LuaExpr, ExprModel};
use crate::order::{text_before, text_is_before};
use crate::text::{after_last, join, joined, same_text, tail_after_last, texts};

verus! {

// ---------------------------------------------------------------------------
// Ordered lists of imports and exports.
// ---------------------------------------------------------------------------

/// The place of the import of a module, from `from` on.
pub open spec fn import_index(imports: Seq<ImportModel>, module: Seq<char>, from: int) -> Option<int>
    decreases imports.len() - from,
{
    if from < 0 || from >= imports.len() {
        None
    } else if imports[from].module == module {
        Some(from)
    } else {
        import_index(imports, module, from + 1)
    }
}

/// The imports with one more, in the order of the module names.
pub open spec fn with_import(imports: Seq<ImportModel>, import: ImportModel) -> Seq<ImportModel>
    decreases imports.len(),
{
    if imports.len() == 0 || text_before(imports.last().module, import.module) {
        imports.push(import)
    } else {
        with_import(imports.drop_last(), import).push(imports.last())
    }
}

/// The local name of an export, from `from` on.
pub open spec fn export_alias(
    exports: Seq<(Seq<char>, Seq<char>)>,
    export: Seq<char>,
    from: int,
) -> Option<Seq<char>>
    decreases exports.len() - from,
{
    if from < 0 || from >= exports.len() {
        None
    } else if exports[from].0 == export {
        Some(exports[from].1)
    } else {
        export_alias(exports, export, from + 1)
    }
}

/// The exports with one more, in the order of their names.
pub open spec fn with_export(
    exports: Seq<(Seq<char>, Seq<char>)>,
    export: (Seq<char>, Seq<char>),
) -> Seq<(Seq<char>, Seq<char>)>
    decreases exports.len(),
{
    if exports.len() == 0 || text_before(exports.last().0, export.0) {
        exports.push(export)
    } else {
        with_export(exports.drop_last(), export).push(exports.last())
    }
}

/// The modules with one more, in the order of their identities.
pub open spec fn with_dependency(list: Seq<ModuleId>, module: ModuleId) -> Seq<ModuleId>
    decreases list.len(),
{
    if list.len() == 0 || list.last().0 < module.0 {
        list.push(module)
    } else if list.last() == module {
        list
    } else {
        with_dependency(list.drop_last(), module).push(list.last())
    }
}

proof fn lemma_with_import(list: Seq<ImportModel>, import: ImportModel, at: int)
    requires
        0 <= at <= list.len(),
        at == 0 || text_before(list[at - 1].module, import.module),
        forall|i: int| at <= i < list.len() ==> !text_before((#[trigger] list[i]).module, import.module),
    ensures
        with_import(list, import) == list.insert(at, import),
    decreases list.len(),
{
    if at == list.len() {
        assert(list.insert(at, import) =~= list.push(import));
    } else {
        lemma_with_import(list.drop_last(), import, at);
        assert(list.insert(at, import) =~= list.drop_last().insert(at, import).push(list.last()));
    }
}

proof fn lemma_with_export(
    list: Seq<(Seq<char>, Seq<char>)>,
    export: (Seq<char>, Seq<char>),
    at: int,
)
    requires
        0 <= at <= list.len(),
        at == 0 || text_before(list[at - 1].0, export.0),
        forall|i: int| at <= i < list.len() ==> !text_before((#[trigger] list[i]).0, export.0),
    ensures
        with_export(list, export) == list.insert(at, export),
    decreases list.len(),
{
    if at == list.len() {
        assert(list.insert(at, export) =~= list.push(export));
    } else {
        lemma_with_export(list.drop_last(), export, at);
        assert(list.insert(at, export) =~= list.drop_last().insert(at, export).push(list.last()));
    }
}

proof fn lemma_with_dependency(list: Seq<ModuleId>, module: ModuleId, at: int)
    requires
        0 <= at <= list.len(),
        at == 0 || list[at - 1].0 < module.0,
        forall|i: int| at <= i < list.len() ==> (#[trigger] list[i]).0 > module.0,
    ensures
        with_dependency(list, module) == list.insert(at, module),
    decreases list.len(),
{
    if at == list.len() {
        assert(list.insert(at, module) =~= list.push(module));
    } else {
        lemma_with_dependency(list.drop_last(), module, at);
        assert(list.insert(at, module) =~= list.drop_last().insert(at, module).push(list.last()));
    }
}

proof fn lemma_with_known_dependency(list: Seq<ModuleId>, module: ModuleId, at: int)
    requires
        0 <= at < list.len(),
        list[at] == module,
        forall|i: int| at < i < list.len() ==> (#[trigger] list[i]).0 > module.0,
    ensures
        with_dependency(list, module) == list,
    decreases list.len(),
{
    if at < list.len() - 1 {
        lemma_with_known_dependency(list.drop_last(), module, at);
        assert(list =~= list.drop_last().push(list.last()));
    }
}

pub fn add_dependency(list: &mut Vec<ModuleId>, module: ModuleId)
    ensures
        final(list)@ == with_dependency(old(list)@, module),
{
    let mut at: usize = list.len();
    while at > 0 && list[at - 1].0 > module.0
        invariant
            at <= list.len(),
            list@ == old(list)@,
            forall|i: int| at <= i < list@.len() ==> (#[trigger] list@[i]).0 > module.0,
        decreases at,
    {
        at -= 1;
    }
    if at > 0 && list[at - 1] == module {
        proof {
            lemma_with_known_dependency(list@, module, at - 1);
        }
        return ;
    }
    proof {
        lemma_with_dependency(list@, module, at as int);
    }
    list.insert(at, module);
}

fn find_import(list: &Vec<RuntimeImport>, module: &str) -> (r: Option<usize>)
    ensures
        match r {
            Some(i) => i < list@.len() && import_index(imports_model(list@), module@, 0) == Some(
                i as int,
            ),
            None => import_index(imports_model(list@), module@, 0) is None,
        },
{
    let mut i: usize = 0;
    let ghost all = imports_model(list@);
    while i < list.len()
        invariant
            i <= list.len(),
            all == imports_model(list@),
            import_index(all, module@, i as int) == import_index(all, module@, 0),
        decreases list.len() - i,
    {
        proof {
            assert(all[i as int] == list@[i as int].model());
        }
        if same_text(list[i].module.as_str(), module) {
            return Some(i);
        }
        i += 1;
    }
    None
}

fn add_import(list: &mut Vec<RuntimeImport>, import: RuntimeImport)
    ensures
        imports_model(final(list)@) == with_import(imports_model(old(list)@), import.model()),
{
    let mut at: usize = list.len();
    while at > 0 && !text_is_before(list[at - 1].module.as_str(), import.module.as_str())
        invariant
            at <= list.len(),
            list@ == old(list)@,
            forall|i: int|
                at <= i < list@.len() ==> !text_before(
                    (#[trigger] list@[i]).module@,
                    import.module@,
                ),
        decreases at,
    {
        at -= 1;
    }
    let ghost before = imports_model(list@);
    proof {
        assert forall|i: int| at <= i < before.len() implies !text_before(
            (#[trigger] before[i]).module,
            import.module@,
        ) by {
            assert(before[i] == list@[i].model());
        }
        lemma_with_import(before, import.model(), at as int);
    }
    list.insert(at, import);
    proof {
        assert(imports_model(list@) =~= before.insert(at as int, import.model()));
    }
}

fn add_export(list: &mut Vec<(String, String)>, export: String, alias: String)
    ensures
        pairs_model(final(list)@) == with_export(pairs_model(old(list)@), (export@, alias@)),
{
    let mut at: usize = list.len();
    while at > 0 && !text_is_before(list[at - 1].0.as_str(), export.as_str())
        invariant
            at <= list.len(),
            list@ == old(list)@,
            forall|i: int|
                at <= i < list@.len() ==> !text_before((#[trigger] list@[i]).0@, export@),
        decreases at,
    {
        at -= 1;
    }
    let ghost before = pairs_model(list@);
    proof {
        assert forall|i: int| at <= i < before.len() implies !text_before(
            (#[trigger] before[i]).0,
            export@,
        ) by {
            assert(before[i].0 == list@[i].0@);
        }
        lemma_with_export(before, (export@, alias@), at as int);
    }
    let ghost added = (export@, alias@);
    list.insert(at, (export, alias));
    proof {
        assert(pairs_model(list@) =~= before.insert(at as int, added));
    }
}

fn find_export(list: &Vec<(String, String)>, export: &str) -> (r: Option<String>)
    ensures
        match r {
            Some(alias) => export_alias(pairs_model(list@), export@, 0) == Some(alias@),
            None => export_alias(pairs_model(list@), export@, 0) is None,
        },
{
    let mut i: usize = 0;
    let ghost all = pairs_model(list@);
    while i < list.len()
        invariant
            i <= list.len(),
            all == pairs_model(list@),
            export_alias(all, export@, i as int) == export_alias(all, export@, 0),
        decreases list.len() - i,
    {
        proof {
            assert(all[i as int] == (list@[i as int].0@, list@[i as int].1@));
        }
        if same_text(list[i].0.as_str(), export) {
            return Some(list[i].1.clone());
        }
        i += 1;
    }
    None
}

// ---------------------------------------------------------------------------
// Requiring modules.
// ---------------------------------------------------------------------------

/// The nearest module at or above this one that has a declaration file. Parents
/// come before their children.
pub open spec fn declaration_boundary(hir: ResolvedHir, module: ModuleId) -> Option<ModuleId>
    decreases module.0,
{
    if !hir.has_module(module) {
        None
    } else {
        let data = hir.spec_module(module);
        if data.is_declaration && data.is_file {
            Some(module)
        } else {
            match data.parent {
                Some(parent) => if parent.0 < module.0 {
                    declaration_boundary(hir, parent)
                } else {
                    None
                },
                None => None,
            }
        }
    }
}

fn declaration_runtime_boundary(hir: &ResolvedHir, module: ModuleId) -> (r: Option<ModuleId>)
    ensures
        r == declaration_boundary(*hir, module),
    decreases module.0,
{
    match hir.find_module(module) {
        None => None,
        Some(data) => {
            if data.is_declaration && data.is_file {
                return Some(module);
            }
            match data.parent {
                Some(parent) => {
                    if parent.0 < module.0 {
                        declaration_runtime_boundary(hir, parent)
                    } else {
                        None
                    }
                },
                None => None,
            }
        },
    }
}

/// The module that a target belongs to.
pub open spec fn module_of_target(hir: ResolvedHir, target: ResolvedTarget) -> Option<ModuleId> {
    match target {
        ResolvedTarget::Module(module) => Some(module),
        ResolvedTarget::Item(_) | ResolvedTarget::Extern(_) => match hir.spec_definition_for_target(
            target,
        ) {
            Some(definition) => if hir.has_definition(definition) {
                Some(hir.spec_definition(definition).module)
            } else {
                None
            },
            None => None,
        },
        _ => None,
    }
}

fn target_module(hir: &ResolvedHir, target: ResolvedTarget) -> (r: Option<ModuleId>)
    ensures
        r == module_of_target(*hir, target),
{
    match target {
        ResolvedTarget::Module(module) => Some(module),
        ResolvedTarget::Item(_) | ResolvedTarget::Extern(_) => {
            match hir.definition_for_target(target) {
                Some(definition) => match hir.find_definition(definition) {
                    Some(data) => Some(data.module),
                    None => None,
                },
                None => None,
            }
        },
        _ => None,
    }
}

/// Whether a module belongs to the builtin declarations.
pub open spec fn is_builtin_path(path: Seq<String>) -> bool {
    path.len() > 0 && path[0]@ == "__rua_builtin"@
}

impl Cg {
    /// The state after a runtime module has an import, whether it had one before or not.
    pub open spec fn with_runtime_module(
        self,
        module: Seq<char>,
        export: Option<Seq<char>>,
        preferred: Seq<char>,
        abi: Option<u32>,
    ) -> Cg {
        if import_index(self.imports, module, 0) is Some {
            self
        } else {
            let package = match export {
                Some(_) => after_last(module, '.'),
                None => preferred,
            };
            Cg {
                imports: with_import(
                    self.imports,
                    ImportModel {
                        module,
                        alias: self.layout.runtime_alias(package),
                        abi,
                        exports: Seq::empty(),
                    },
                ),
                layout: self.layout.with_runtime_alias(package),
                ..self
            }
        }
    }

    /// The state after an import has been held to a binary interface.
    pub open spec fn with_abi(self, at: int, abi: Option<u32>) -> Cg {
        match (self.imports[at].abi, abi) {
            (Some(current), Some(required)) => if current == required {
                self
            } else {
                self.fault()
            },
            (None, Some(_)) => Cg {
                imports: self.imports.update(at, ImportModel { abi, ..self.imports[at] }),
                ..self
            },
            _ => self,
        }
    }

    /// Requires a runtime module, or one member of it. Gives the local name.
    pub open spec fn runtime_import(
        self,
        module: Seq<char>,
        export: Option<Seq<char>>,
        preferred: Seq<char>,
        abi: Option<u32>,
    ) -> (Cg, Seq<char>) {
        let known = self.with_runtime_module(module, export, preferred, abi);
        match import_index(known.imports, module, 0) {
            None => (known.fault(), "nil"@),
            Some(at) => {
                let checked = known.with_abi(at, abi);
                let import = checked.imports[at];
                match export {
                    None => (checked, import.alias),
                    Some(export) => match export_alias(import.exports, export, 0) {
                        Some(alias) => (checked, alias),
                        None => {
                            let alias = checked.layout.runtime_alias(preferred);
                            (
                                Cg {
                                    imports: checked.imports.update(
                                        at,
                                        ImportModel {
                                            exports: with_export(import.exports, (export, alias)),
                                            ..import
                                        },
                                    ),
                                    layout: checked.layout.with_runtime_alias(preferred),
                                    ..checked
                                },
                                alias,
                            )
                        },
                    },
                }
            },
        }
    }

    /// The expression for a runtime module.
    pub open spec fn runtime_module(self, runtime: RuntimeModule) -> (Cg, ExprModel) {
        let (next, alias) = self.runtime_import(
            runtime.runtime@,
            match runtime.export {
                Some(export) => Some(export@),
                None => None,
            },
            runtime.alias@,
            runtime.abi,
        );
        (next, m_name(alias))
    }

    /// A call of a member of a runtime module.
    pub open spec fn runtime_call(
        self,
        runtime: RuntimeModule,
        member: Seq<char>,
        arguments: Seq<ExprModel>,
    ) -> (Cg, ExprModel) {
        let (next, module) = self.runtime_module(runtime);
        (next, m_call(m_member(module, member), arguments))
    }

    /// A call of a member of a standard module.
    pub open spec fn standard_call(
        self,
        hir: ResolvedHir,
        module: Seq<char>,
        member: Seq<char>,
        arguments: Seq<ExprModel>,
    ) -> (Cg, ExprModel) {
        match hir.named_runtimes.at(module) {
            Some(runtime) => self.runtime_call(runtime, member, arguments),
            None => (self.fault(), ExprModel::Nil),
        }
    }

    /// A call of a member of a runtime helper.
    pub open spec fn helper_call(
        self,
        hir: ResolvedHir,
        helper: Seq<char>,
        member: Seq<char>,
        arguments: Seq<ExprModel>,
    ) -> (Cg, ExprModel) {
        match hir.runtime_helpers.at(helper) {
            Some(runtime) => self.runtime_call(runtime, member, arguments),
            None => (self.fault(), ExprModel::Nil),
        }
    }

    /// The state after the declaration file around a module has been required.
    pub open spec fn declaration_import(self, hir: ResolvedHir, module: ModuleId) -> Cg {
        match declaration_boundary(hir, module) {
            None => self.fault(),
            Some(boundary) => if self.declarations.dom().contains(boundary) {
                self
            } else {
                let runtime = joined(texts(hir.spec_module(boundary).path@), "."@);
                let (next, place) = self.module_place(boundary);
                Cg {
                    imports: if import_index(next.imports, runtime, 0) is Some {
                        next.imports
                    } else {
                        with_import(
                            next.imports,
                            ImportModel {
                                module: runtime,
                                alias: place.text(),
                                abi: None,
                                exports: Seq::empty(),
                            },
                        )
                    },
                    declarations: next.declarations.insert(boundary, place.text()),
                    ..next
                }
            },
        }
    }

    /// The state after the current module has come to depend on another.
    pub open spec fn depend(self, env: EnvModel, module: ModuleId) -> Cg {
        if env.separate && module != self.current {
            if !env.program.hir.has_module(module) {
                self.fault()
            } else if env.program.hir.spec_module(module).is_declaration {
                self
            } else {
                Cg { dependencies: with_dependency(self.dependencies, module), ..self }
            }
        } else {
            self
        }
    }

    /// The place of a target; what it needs is required.
    pub open spec fn target_place(self, env: EnvModel, target: ResolvedTarget) -> (Cg, Option<
        PlaceModel,
    >) {
        let hir = env.program.hir;
        let next = match module_of_target(hir, target) {
            Some(module) => if module == self.current {
                self
            } else if !hir.has_module(module) {
                self.fault()
            } else if hir.spec_module(module).is_declaration {
                if is_builtin_path(hir.spec_module(module).path@) {
                    self
                } else {
                    self.declaration_import(hir, module)
                }
            } else {
                self.depend(env, module)
            },
            None => self,
        };
        (next, next.layout.target(target))
    }

    /// A value with the metatable of its type, where that has one.
    pub open spec fn attach_metatable(self, env: EnvModel, owner: DefId, value: ExprModel) -> (
        Cg,
        ExprModel,
    ) {
        if !env.metatable_types.contains(owner) {
            (self, value)
        } else {
            match self.target_place(env, ResolvedTarget::Item(owner)) {
                (next, Some(place)) => (
                    next,
                    m_call(m_name("setmetatable"@), seq![value, place.expression()]),
                ),
                (next, None) => (next.fault(), value),
            }
        }
    }
}

impl Codegen {
    /// Requires a runtime module, or one member of it. Gives the local name.
    pub fn register_runtime_import(
        &mut self,
        module: &str,
        export: Option<&str>,
        preferred: &str,
        abi: Option<u32>,
    ) -> (r: String)
        ensures
            (final(self)@, r@) == old(self)@.runtime_import(
                module@,
                match export {
                    Some(e) => Some(e@),
                    None => None,
                },
                preferred@,
                abi,
            ),
            final(self)@.lua == old(self)@.lua,
    {
        if find_import(&self.runtime_imports, module).is_none() {
            let package = match export {
                Some(_) => tail_after_last(module, '.'),
                None => preferred.to_string(),
            };
            let alias = self.layout.runtime_module_alias(package.as_str());
            let exports: Vec<(String, String)> = Vec::new();
            proof {
                assert(pairs_model(exports@) =~= Seq::empty());
            }
            add_import(
                &mut self.runtime_imports,
                RuntimeImport { module: module.to_string(), alias, abi, exports },
            );
        }
        let ghost known = self@;
        let at = match find_import(&self.runtime_imports, module) {
            Some(at) => at,
            None => {
                self.ok = false;
                return "nil".to_string();
            },
        };
        proof {
            assert(known.imports[at as int] == self.runtime_imports@[at as int].model());
        }
        match (self.runtime_imports[at].abi, abi) {
            (Some(current), Some(required)) => {
                if current != required {
                    self.ok = false;
                }
            },
            (None, Some(required)) => {
                self.runtime_imports[at].abi = Some(required);
                proof {
                    assert(self@.imports =~= known.imports.update(
                        at as int,
                        ImportModel { abi, ..known.imports[at as int] },
                    ));
                }
            },
            _ => {},
        }
        let ghost checked = self@;
        proof {
            assert(checked == known.with_abi(at as int, abi));
            assert(checked.imports[at as int] == self.runtime_imports@[at as int].model());
        }
        let export = match export {
            None => {
                return self.runtime_imports[at].alias.clone();
            },
            Some(export) => export,
        };
        if let Some(alias) = find_export(&self.runtime_imports[at].exports, export) {
            return alias;
        }
        let alias = self.layout.runtime_module_alias(preferred);
        add_export(&mut self.runtime_imports[at].exports, export.to_string(), alias.clone());
        proof {
            let import = checked.imports[at as int];
            assert(self@.imports =~= checked.imports.update(
                at as int,
                ImportModel { exports: with_export(import.exports, (export@, alias@)), ..import },
            ));
        }
        alias
    }

    /// The expression for a runtime module.
    pub fn runtime_module(&mut self, runtime: &RuntimeModule) -> (r: LuaExpr)
        ensures
            (final(self)@, r.model()) == old(self)@.runtime_module(*runtime),
            final(self)@.lua == old(self)@.lua,
    {
        let export = match &runtime.export {
            Some(export) => Some(export.as_str()),
            None => None,
        };
        let alias = self.register_runtime_import(
            runtime.runtime.as_str(),
            export,
            runtime.alias.as_str(),
            runtime.abi,
        );
        LuaExpr::Name(alias)
    }

    /// A call of a member of a runtime module.
    pub fn runtime_call(&mut self, runtime: &RuntimeModule, member: &str, arguments: Vec<LuaExpr>) -> (r:
        LuaExpr)
        ensures
            (final(self)@, r.model()) == old(self)@.runtime_call(
                *runtime,
                member@,
                exprs_model(arguments@),
            ),
            final(self)@.lua == old(self)@.lua,
    {
        self.runtime_module(runtime).member(member).call(arguments)
    }

    /// A call of a member of a standard module.
    pub fn standard_call(
        &mut self,
        hir: &ResolvedHir,
        module: &str,
        member: &str,
        arguments: Vec<LuaExpr>,
    ) -> (r: LuaExpr)
        ensures
            (final(self)@, r.model()) == old(self)@.standard_call(
                *hir,
                module@,
                member@,
                exprs_model(arguments@),
            ),
            final(self)@.lua == old(self)@.lua,
    {
        match hir.named_runtimes.get(&module.to_string()) {
            Some(runtime) => self.runtime_call(runtime, member, arguments),
            None => {
                self.ok = false;
                LuaExpr::Nil
            },
        }
    }

    /// A call of a member of a runtime helper.
    pub fn helper_call(
        &mut self,
        hir: &ResolvedHir,
        helper: &str,
        member: &str,
        arguments: Vec<LuaExpr>,
    ) -> (r: LuaExpr)
        ensures
            (final(self)@, r.model()) == old(self)@.helper_call(
                *hir,
                helper@,
                member@,
                exprs_model(arguments@),
            ),
            final(self)@.lua == old(self)@.lua,
    {
        match hir.runtime_helpers.get(&helper.to_string()) {
            Some(runtime) => self.runtime_call(runtime, member, arguments),
            None => {
                self.ok = false;
                LuaExpr::Nil
            },
        }
    }

    /// Requires the declaration file around a module.
    pub fn register_declaration_import(&mut self, hir: &ResolvedHir, module: ModuleId)
        ensures
            final(self)@ == old(self)@.declaration_import(*hir, module),
            final(self)@.lua == old(self)@.lua,
    {
        let boundary = match declaration_runtime_boundary(hir, module) {
            Some(boundary) => boundary,
            None => {
                self.ok = false;
                return ;
            },
        };
        if self.declaration_imports.has(&boundary) {
            return ;
        }
        proof {
            lemma_boundary_is_module(*hir, module);
        }
        let runtime = join(&hir.module(boundary).path, ".");
        let place = self.module_place(boundary);
        let alias = place.text();
        if find_import(&self.runtime_imports, runtime.as_str()).is_none() {
            let exports: Vec<(String, String)> = Vec::new();
            proof {
                assert(pairs_model(exports@) =~= Seq::empty());
            }
            add_import(
                &mut self.runtime_imports,
                RuntimeImport { module: runtime, alias: alias.clone(), abi: None, exports },
            );
        }
        let ghost before = self.declaration_imports;
        let _ = self.declaration_imports.insert(boundary, alias);
        proof {
            crate::table::lemma_insert_at(before, self.declaration_imports, boundary, alias);
            assert(names_of(self.declaration_imports) =~= names_of(before).insert(
                boundary,
                alias@,
            ));
        }
    }

    /// Records that the current module depends on another.
    pub fn record_module_dependency(&mut self, env: &Env, module: ModuleId)
        ensures
            final(self)@ == old(self)@.depend(env@, module),
            final(self)@.lua == old(self)@.lua,
    {
        if env.separate && module != self.current_module {
            match env.program.hir.find_module(module) {
                None => {
                    self.ok = false;
                },
                Some(data) => {
                    if !data.is_declaration {
                        add_dependency(&mut self.module_dependencies, module);
                    }
                },
            }
        }
    }

    /// The place of a target; what it needs is required.
    pub fn target_place(&mut self, env: &Env, target: ResolvedTarget) -> (r: Option<Place>)
        ensures
            final(self)@ == old(self)@.target_place(env@, target).0,
            match r {
                Some(p) => old(self)@.target_place(env@, target).1 == Some(p@),
                None => old(self)@.target_place(env@, target).1 is None,
            },
            final(self)@.lua == old(self)@.lua,
    {
        let hir = &env.program.hir;
        if let Some(module) = target_module(hir, target) {
            if module != self.current_module {
                match hir.find_module(module) {
                    None => {
                        self.ok = false;
                    },
                    Some(data) => {
                        if data.is_declaration {
                            let builtin = data.path.len() > 0 && same_text(
                                data.path[0].as_str(),
                                "__rua_builtin",
                            );
                            if !builtin {
                                self.register_declaration_import(hir, module);
                            }
                        } else {
                            self.record_module_dependency(env, module);
                        }
                    },
                }
            }
        }
        match self.layout.target(target) {
            Some(place) => Some(place.copy()),
            None => None,
        }
    }

    /// A value with the metatable of its type, where that has one.
    pub fn attach_metatable(&mut self, env: &Env, owner: DefId, value: LuaExpr) -> (r: LuaExpr)
        ensures
            (final(self)@, r.model()) == old(self)@.attach_metatable(env@, owner, value.model()),
            final(self)@.lua == old(self)@.lua,
    {
        if !env.metatable_types.has(&owner) {
            return value;
        }
        match self.target_place(env, ResolvedTarget::Item(owner)) {
            Some(place) => LuaExpr::Name("setmetatable".to_string()).call(
                two_exprs(value, place.expression()),
            ),
            None => {
                self.ok = false;
                value
            },
        }
    }
}

proof fn lemma_boundary_is_module(hir: ResolvedHir, module: ModuleId)
    ensures
        declaration_boundary(hir, module) matches Some(m) ==> hir.has_module(m),
    decreases module.0,
{
    if hir.has_module(module) {
        if let Some(parent) = hir.spec_module(module).parent {
            if parent.0 < module.0 {
                lemma_boundary_is_module(hir, parent);
            }
        }
    }
}

} // verus!
