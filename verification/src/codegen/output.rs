//! Generated files: one file for a whole program, or one for each module.

use vstd::prelude::*;
use vstd::utf8::encode_utf8;

use super::annotate::{
    flattened_class, flattened_type_class_name, module_table, module_table_identifier,
};
use super::capacity::{collect_metatable_types, collect_used_locals, locals_read, metatables};
use super::cycle::{dependency_cycle, edges_model, find_module_dependency_cycle};
use super::header::{
    aliases_text, append_aliases, append_body, append_header_section, append_imports,
    append_requires, append_runtime_require, closes_with, ends_with, imports_text, lemma_bytes,
    lua_search_path, require_text, requires_text, search_path, section, shifted, spaced, LuaSourceMapping,
};
use super::imports::{add_dependency, import_index, with_dependency};
use super::metadata::{
    find_package, metadata_of, module_annotation_outputs, package_name, packages_model,
};
use super::program::{g_program, g_unit};
use super::state::{Cg, Codegen, Env, EnvModel, ImportModel};
use crate::annotations::AnnotationIndex;
use crate::ast::{Block, ChunkEntry, Item};
use crate::backend_layout::{
    entry, identifier_of, layout_of, user_identifier, BackendLayout, LayoutMode, LayoutModel,
};
use crate::builtins::CodegenRules;
use crate::hir::{DefId, ModuleId, ResolvedHir};
use crate::lua_ir::{lua_string, quoted, Builder, BuilderModel};
use crate::lua_print::{
    law_mappings_are_ordered, law_mappings_lie_in_the_text, ordered, print_with_source_map,
    printed_page,
};
use crate::table::{with_text, KeySet, Table, TextSet};
use crate::text::{cat2, cat3, chars_of, join, joined, same_text, texts};
use crate::typed::TypedProgram;

verus! {

/// A generated file with the mappings to its source.
#[derive(Debug)]
pub struct GeneratedLua<'a> {
    pub source: String,
    pub source_map: Vec<LuaSourceMapping>,
    /// Paths of the source files, by the file of a mapping; the host fills them in.
    pub source_files: Vec<String>,
    pub annotations: &'a AnnotationIndex,
}

/// The file of one module.
#[derive(Debug)]
pub struct GeneratedLuaModule {
    /// The name under which Lua requires it. The root has the stem of its file.
    pub module_name: String,
    /// The path of the file, relative to the output directory.
    pub output_path: String,
    pub source: String,
    pub source_map: Vec<LuaSourceMapping>,
    pub is_root: bool,
}

/// The files of all modules.
#[derive(Debug)]
pub struct GeneratedLuaModules<'a> {
    pub root_output_path: String,
    pub modules: Vec<GeneratedLuaModule>,
    /// Paths of the source files, by the file of a mapping; the host fills them in.
    pub source_files: Vec<String>,
    pub annotations: &'a AnnotationIndex,
}

/// A text with mappings.
pub struct FileModel {
    pub source: Seq<char>,
    pub source_map: Seq<LuaSourceMapping>,
}

/// The file of one module over mathematical texts.
pub struct ModuleModel {
    pub module_name: Seq<char>,
    pub output_path: Seq<char>,
    pub source: Seq<char>,
    pub source_map: Seq<LuaSourceMapping>,
    pub is_root: bool,
}

impl GeneratedLuaModule {
    pub open spec fn model(self) -> ModuleModel {
        ModuleModel {
            module_name: self.module_name@,
            output_path: self.output_path@,
            source: self.source@,
            source_map: self.source_map@,
            is_root: self.is_root,
        }
    }
}

/// The files over mathematical texts.
pub open spec fn modules_model(list: Seq<GeneratedLuaModule>) -> Seq<ModuleModel> {
    Seq::new(list.len(), |i: int| list[i].model())
}

// ---------------------------------------------------------------------------
// One file for a whole program.
// ---------------------------------------------------------------------------

/// A state before anything is generated.
pub open spec fn start_of(layout: LayoutModel, module: ModuleId) -> Cg {
    Cg {
        lua: BuilderModel::initial(),
        imports: Seq::empty(),
        declarations: Map::empty(),
        table_create: false,
        closure_returns: Seq::empty(),
        breaks: Seq::empty(),
        scopes: Seq::empty(),
        nonnegative: Seq::empty(),
        layout,
        current: module,
        dependencies: Seq::empty(),
        ok: true,
    }
}

/// What generation reads of a program.
pub open spec fn env_of(
    program: TypedProgram,
    separate: bool,
    flattened: Option<DefId>,
    class: Seq<char>,
) -> EnvModel {
    EnvModel {
        program,
        separate,
        flattened_module_type: flattened,
        flattened_module_class: class,
        used_locals: locals_read(program.hir),
        metatable_types: metatables(
            program,
            program.syntax.items@,
            program.hir.root,
            0,
            Set::empty(),
        ),
    }
}

/// The state after a whole program has been generated. There is none where the
/// front end owes something.
pub open spec fn bundle_state(program: TypedProgram) -> Option<Cg> {
    match layout_of(program.hir, LayoutMode::Bundle) {
        None => None,
        Some(layout) => {
            let after = g_program(
                env_of(program, false, None, Seq::empty()),
                start_of(layout, program.hir.root),
            );
            if after.ok {
                Some(after)
            } else {
                None
            }
        },
    }
}

/// The local name of the table constructor with a capacity.
pub open spec fn capacity_text(used: bool) -> Seq<char> {
    if used {
        "local tbcreate = table.create\n"@
    } else {
        Seq::empty()
    }
}

/// The body of a file behind its head.
pub open spec fn file_of(prefix: Seq<char>, lua: BuilderModel) -> FileModel {
    let page = printed_page(lua.root);
    let head = spaced(prefix, page.out);
    FileModel {
        source: head + page.out,
        source_map: shifted(ordered(page.mappings), encode_utf8(head).len()),
    }
}

/// The head of the file of a whole program.
pub open spec fn bundle_prefix(st: Cg, search: Seq<char>) -> Seq<char> {
    "-- Generated by ruac (Rua -> Lua 5.5). Do not edit by hand.\n"@ + search + imports_text(
        st.imports,
        0,
    ) + capacity_text(st.table_create)
}

/// The file of a whole program, or why the search path cannot be extended.
pub open spec fn bundle_of(program: TypedProgram, paths: Seq<Seq<char>>) -> Option<
    Result<FileModel, Seq<char>>,
> {
    match bundle_state(program) {
        None => None,
        Some(st) => Some(
            match search_path(paths) {
                Err(error) => Err(error),
                Ok(search) => Ok(file_of(bundle_prefix(st, search), st.lua)),
            },
        ),
    }
}

/// An environment for generation.
fn environment<'a>(
    program: &'a TypedProgram,
    separate: bool,
    flattened: Option<DefId>,
    class: String,
) -> (r: Env<'a>)
    ensures
        r@ == env_of(*program, separate, flattened, class@),
        r.program == program,
{
    let mut metatable_types: KeySet<DefId> = KeySet::new();
    collect_metatable_types(program, &program.syntax.items, program.hir.root, &mut metatable_types);
    Env {
        program,
        separate,
        flattened_module_type: flattened,
        flattened_module_class: class,
        used_locals: collect_used_locals(&program.hir),
        metatable_types,
    }
}

/// A generator before anything is generated.
fn generator(layout: BackendLayout, module: ModuleId) -> (r: Codegen)
    ensures
        r@ == start_of(layout@, module),
{
    let r = Codegen {
        lua: Builder::new(),
        runtime_imports: Vec::new(),
        declaration_imports: Table::new(),
        uses_table_create: false,
        closure_return_targets: Vec::new(),
        loop_break_targets: Vec::new(),
        local_substitutions: Vec::new(),
        nonnegative_integer_locals: Vec::new(),
        layout,
        current_module: module,
        module_dependencies: Vec::new(),
        ok: true,
    };
    proof {
        let start = start_of(layout@, module);
        assert(r@.imports =~= start.imports);
        assert(r@.declarations =~= start.declarations);
        assert(r@.closure_returns =~= start.closure_returns);
        assert(r@.breaks =~= start.breaks);
        assert(r@.scopes =~= start.scopes);
        assert(r@.nonnegative =~= start.nonnegative);
        assert(r@.dependencies =~= start.dependencies);
    }
    r
}

/// Generates a whole program as one file. There is no file where the front end
/// owes something; an error where the search path cannot be extended.
pub fn try_generate<'a>(program: &'a TypedProgram, lua_path: &Vec<String>) -> (r: Option<
    Result<GeneratedLua<'a>, String>,
>)
    ensures
        match r {
            None => bundle_of(*program, texts(lua_path@)) is None,
            Some(Err(error)) => bundle_of(*program, texts(lua_path@)) == Some(
                Err::<FileModel, Seq<char>>(error@),
            ),
            Some(Ok(file)) => bundle_of(*program, texts(lua_path@)) == Some(
                Ok::<FileModel, Seq<char>>(
                    FileModel { source: file.source@, source_map: file.source_map@ },
                ),
            ) && *file.annotations == program.annotations,
        },
{
    let layout = match BackendLayout::try_new(program) {
        Some(layout) => layout,
        None => {
            return None;
        },
    };
    let env = environment(program, false, None, String::new());
    proof {
        assert(env@.flattened_module_class =~= Seq::empty());
    }
    let mut generator = generator(layout, program.hir.root);
    generator.gen_program(&env);
    if !generator.ok {
        return None;
    }
    let ghost st = generator@;
    let search = match lua_search_path(lua_path) {
        Ok(search) => search,
        Err(error) => {
            return Some(Err(error));
        },
    };
    let mut prefix = "-- Generated by ruac (Rua -> Lua 5.5). Do not edit by hand.\n".to_string();
    prefix.append(search.as_str());
    append_imports(&mut prefix, &generator.runtime_imports);
    if generator.uses_table_create {
        prefix.append("local tbcreate = table.create\n");
    }
    proof {
        assert(prefix@ =~= bundle_prefix(st, search@));
    }
    let printed = print_with_source_map(&generator.lua.finish());
    let source_map = append_body(&mut prefix, printed, Ghost(st.lua.root));
    Some(
        Ok(
            GeneratedLua {
                source: prefix,
                source_map,
                source_files: Vec::new(),
                annotations: &program.annotations,
            },
        ),
    )
}

/// Generates a whole program as one file that extends the search path of Lua.
pub fn generate_with_source_map_and_lua_path<'a>(
    program: &'a TypedProgram,
    _rules: &CodegenRules,
    lua_path: &Vec<String>,
) -> (r: Result<GeneratedLua<'a>, String>)
    requires
        bundle_state(*program) is Some,
    ensures
        match r {
            Ok(file) => bundle_of(*program, texts(lua_path@)) == Some(
                Ok::<FileModel, Seq<char>>(
                    FileModel { source: file.source@, source_map: file.source_map@ },
                ),
            ) && *file.annotations == program.annotations,
            Err(error) => bundle_of(*program, texts(lua_path@)) == Some(
                Err::<FileModel, Seq<char>>(error@),
            ),
        },
{
    try_generate(program, lua_path).unwrap()
}

/// Generates a whole program as one file with the mappings to its source.
pub fn generate_with_source_map<'a>(program: &'a TypedProgram, rules: &CodegenRules) -> (r:
    GeneratedLua<'a>)
    requires
        bundle_state(*program) is Some,
    ensures
        bundle_of(*program, Seq::empty()) == Some(
            Ok::<FileModel, Seq<char>>(
                FileModel { source: r.source@, source_map: r.source_map@ },
            ),
        ),
        *r.annotations == program.annotations,
{
    let paths: Vec<String> = Vec::new();
    proof {
        assert(texts(paths@) =~= Seq::empty());
        assert(search_path(Seq::empty()) is Ok);
    }
    match generate_with_source_map_and_lua_path(program, rules, &paths) {
        Ok(file) => file,
        Err(_) => {
            proof {
                assert(false);
            }
            GeneratedLua {
                source: String::new(),
                source_map: Vec::new(),
                source_files: Vec::new(),
                annotations: &program.annotations,
            }
        },
    }
}

/// Generates a whole program as one file.
pub fn generate(program: &TypedProgram, rules: &CodegenRules) -> (r: String)
    requires
        bundle_state(*program) is Some,
    ensures
        bundle_of(*program, Seq::empty()) matches Some(Ok(file)) && r@ == file.source,
{
    generate_with_source_map(program, rules).source
}

// ---------------------------------------------------------------------------
// One file for each module.
// ---------------------------------------------------------------------------

/// What the file of one module is made from.
pub struct ModuleUnit<'a> {
    pub module: ModuleId,
    pub items: &'a Vec<Item>,
    pub chunk: &'a Block,
    pub source_order: &'a Vec<ChunkEntry>,
    pub is_root: bool,
}

/// The file modules among `items[from..]`, and those inside.
pub open spec fn units_of<'a>(
    program: TypedProgram,
    items: Seq<Item>,
    module: ModuleId,
    from: int,
    done: Seq<ModuleUnit<'a>>,
) -> Seq<ModuleUnit<'a>>
    decreases items, items.len() - from,
{
    if from < 0 || from >= items.len() {
        done
    } else {
        let next = match items[from] {
            Item::Mod(child) => match program.spec_child_module(module, from as usize) {
                Some(inner) => if child.is_decl {
                    done
                } else {
                    let found = if child.is_file {
                        done.push(
                            ModuleUnit {
                                module: inner,
                                items: &child.items,
                                chunk: &child.chunk,
                                source_order: &child.source_order,
                                is_root: false,
                            },
                        )
                    } else {
                        done
                    };
                    units_of(program, child.items@, inner, 0, found)
                },
                None => done,
            },
            _ => done,
        };
        units_of(program, items, module, from + 1, next)
    }
}

/// All modules with a file of their own, the root first.
pub open spec fn all_units<'a>(program: TypedProgram) -> Seq<ModuleUnit<'a>> {
    units_of(
        program,
        program.syntax.items@,
        program.hir.root,
        0,
        seq![
            ModuleUnit {
                module: program.hir.root,
                items: &program.syntax.items,
                chunk: &program.syntax.chunk,
                source_order: &program.syntax.source_order,
                is_root: true,
            },
        ],
    )
}

fn collect_module_units<'a>(
    program: &TypedProgram,
    items: &'a Vec<Item>,
    module: ModuleId,
    out: &mut Vec<ModuleUnit<'a>>,
)
    ensures
        final(out)@ == units_of(*program, items@, module, 0, old(out)@),
    decreases *items,
{
    let ghost start = out@;
    let mut i: usize = 0;
    while i < items.len()
        invariant
            i <= items.len(),
            units_of(*program, items@, module, i as int, out@) == units_of(
                *program,
                items@,
                module,
                0,
                start,
            ),
        decreases items.len() - i,
    {
        if let Item::Mod(child) = &items[i] {
            if let Some(inner) = program.child_module(module, i) {
                if !child.is_decl {
                    if child.is_file {
                        out.push(
                            ModuleUnit {
                                module: inner,
                                items: &child.items,
                                chunk: &child.chunk,
                                source_order: &child.source_order,
                                is_root: false,
                            },
                        );
                    }
                    collect_module_units(program, &child.items, inner, out);
                }
            }
        }
        i += 1;
    }
}

/// The lines that require the modules `dependencies[from..]`. There are none
/// where one of them has no alias or no package name.
pub open spec fn dependency_text(
    st: Cg,
    packages: Seq<(ModuleId, Seq<char>)>,
    from: int,
) -> Option<Seq<char>>
    decreases st.dependencies.len() - from,
{
    if from < 0 || from >= st.dependencies.len() {
        Some(Seq::empty())
    } else {
        let module = st.dependencies[from];
        match (
            entry(st.layout.modules, module),
            package_name(packages, module, 0),
            dependency_text(st, packages, from + 1),
        ) {
            (Some(place), Some(package), Some(rest)) => Some(
                "local "@ + place.text() + " = require("@ + quoted(package) + ")\n"@ + rest,
            ),
            _ => None,
        }
    }
}

/// The name of the table of a module and the class of that table. There are none
/// where the type that stands for the module is missing. Both names are conventions
/// of this back end.
pub open spec fn unit_names(program: TypedProgram, module: ModuleId, module_name: Seq<char>) -> Option<
    (Seq<char>, Seq<char>),
> {
    match program.single_public_types.at(module) {
        None => Some((module_table(module_name), module_name)),
        Some(definition) => if program.hir.has_definition(definition) {
            let name = program.hir.spec_definition(definition).name@;
            Some((identifier_of(name), flattened_class(module_name, name)))
        } else {
            None
        },
    }
}

/// The state after one module has been generated.
pub open spec fn unit_state(program: TypedProgram, unit: ModuleUnit, module_name: Seq<char>) -> Option<
    Cg,
> {
    match unit_names(program, unit.module, module_name) {
        None => None,
        Some((table, class)) => match layout_of(
            program.hir,
            LayoutMode::Module { current: unit.module, table },
        ) {
            None => None,
            Some(layout) => {
                let flattened = program.single_public_types.at(unit.module);
                let after = g_unit(
                    env_of(
                        program,
                        true,
                        flattened,
                        if flattened is Some {
                            class
                        } else {
                            Seq::empty()
                        },
                    ),
                    start_of(layout, unit.module),
                    unit.items@,
                    *unit.chunk,
                    unit.source_order@,
                    unit.module,
                );
                if after.ok {
                    Some(after)
                } else {
                    None
                }
            },
        },
    }
}

/// The lines that require the standard library, where it is used.
pub open spec fn standard_text(imports: Seq<ImportModel>) -> Seq<char> {
    match import_index(imports, "rua_std"@, 0) {
        Some(at) => require_text(imports[at]),
        None => Seq::empty(),
    }
}

/// The head of the file of a module.
pub open spec fn unit_prefix(
    st: Cg,
    search: Seq<char>,
    dependencies: Seq<char>,
    table: Seq<char>,
    class: Seq<char>,
    flattened: bool,
) -> Seq<char> {
    "-- Generated by ruac (Rua -> Lua 5.5 modules). Do not edit by hand.\n\n"@ + section(search)
        + section(standard_text(st.imports)) + section(
        dependencies + requires_text(st.imports, "rua_std"@, 0),
    ) + section(aliases_text(st.imports, 0) + capacity_text(st.table_create)) + if flattened {
        Seq::empty()
    } else {
        "---@class "@ + class + "\nlocal "@ + table + " = {}\n"@
    }
}

/// A text with a blank line at its end.
pub open spec fn with_blank_line(text: Seq<char>) -> Seq<char> {
    if closes_with(text, "\n\n"@) {
        text
    } else if closes_with(text, "\n"@) {
        text + "\n"@
    } else {
        text + "\n"@ + "\n"@
    }
}

/// The file of one module, and what it depends on.
pub open spec fn unit_of(
    program: TypedProgram,
    unit: ModuleUnit,
    module_name: Seq<char>,
    output_path: Seq<char>,
    packages: Seq<(ModuleId, Seq<char>)>,
    search: Seq<char>,
) -> Option<(ModuleModel, Seq<ModuleId>)> {
    match (unit_state(program, unit, module_name), unit_names(program, unit.module, module_name)) {
        (Some(st), Some((table, class))) => match dependency_text(st, packages, 0) {
            None => None,
            Some(dependencies) => {
                let file = file_of(
                    unit_prefix(
                        st,
                        if unit.is_root {
                            search
                        } else {
                            Seq::empty()
                        },
                        dependencies,
                        table,
                        class,
                        program.single_public_types.at(unit.module) is Some,
                    ),
                    st.lua,
                );
                Some(
                    (
                        ModuleModel {
                            module_name,
                            output_path,
                            source: with_blank_line(file.source) + "return "@ + table + "\n"@,
                            source_map: file.source_map,
                            is_root: unit.is_root,
                        },
                        st.dependencies,
                    ),
                )
            },
        },
        _ => None,
    }
}

fn dependency_requires(generator: &Codegen, packages: &Vec<(ModuleId, String)>) -> (r: Option<
    String,
>)
    ensures
        match r {
            Some(text) => dependency_text(generator@, packages_model(packages@), 0) == Some(text@),
            None => dependency_text(generator@, packages_model(packages@), 0) is None,
        },
{
    let ghost st = generator@;
    let ghost model = packages_model(packages@);
    let mut out = String::new();
    let mut i: usize = 0;
    proof {
        match dependency_text(st, model, 0) {
            Some(text) => {
                assert(out@ + text =~= text);
            },
            None => {},
        }
    }
    while i < generator.module_dependencies.len()
        invariant
            i <= generator.module_dependencies.len(),
            st == generator@,
            model == packages_model(packages@),
            match dependency_text(st, model, 0) {
                Some(text) => dependency_text(st, model, i as int) matches Some(rest) && out@ + rest
                    == text,
                None => dependency_text(st, model, i as int) is None,
            },
        decreases generator.module_dependencies.len() - i,
    {
        let ghost before = out@;
        let module = generator.module_dependencies[i];
        let alias = match generator.layout.module(module) {
            Some(place) => place.text(),
            None => {
                return None;
            },
        };
        let package = match find_package(packages, module) {
            Some(package) => package,
            None => {
                return None;
            },
        };
        out.append("local ");
        out.append(alias.as_str());
        out.append(" = require(");
        out.append(lua_string(package.as_str()).as_str());
        out.append(")\n");
        proof {
            match dependency_text(st, model, i + 1) {
                Some(rest) => {
                    let line = "local "@ + alias@ + " = require("@ + quoted(package@) + ")\n"@;
                    assert(dependency_text(st, model, i as int) == Some(line + rest));
                    assert(out@ =~= before + line);
                    assert(out@ + rest =~= before + (line + rest));
                },
                None => {},
            }
        }
        i += 1;
    }
    proof {
        assert(out@ + Seq::<char>::empty() =~= out@);
    }
    Some(out)
}

/// A module with its file.
struct GeneratedModuleUnit {
    module: ModuleId,
    dependencies: Vec<ModuleId>,
    output: GeneratedLuaModule,
}

fn generate_module_unit<'a>(
    program: &TypedProgram,
    unit: &ModuleUnit<'a>,
    module_name: &str,
    output_path: String,
    packages: &Vec<(ModuleId, String)>,
    search: &str,
) -> (r: Option<GeneratedModuleUnit>)
    ensures
        ({
            let model = unit_of(
                *program,
                *unit,
                module_name@,
                output_path@,
                packages_model(packages@),
                search@,
            );
            match r {
                None => model is None,
                Some(found) => model == Some((found.output.model(), found.dependencies@))
                    && found.module == unit.module,
            }
        }),
{
    let flattened = match program.single_public_types.get(&unit.module) {
        Some(definition) => Some(*definition),
        None => None,
    };
    let (table, class) = match flattened {
        None => (module_table_identifier(module_name), module_name.to_string()),
        Some(definition) => match program.hir.find_definition(definition) {
            Some(data) => (
                user_identifier(data.name.as_str()),
                flattened_type_class_name(module_name, data.name.as_str()),
            ),
            None => {
                return None;
            },
        },
    };
    let generator = match unit_generator(program, unit, table.as_str(), class.as_str(), flattened) {
        Some(generator) => generator,
        None => {
            return None;
        },
    };
    let ghost st = generator@;
    proof {
        assert(unit_state(*program, *unit, module_name@) == Some(st));
    }
    let dependencies = match dependency_requires(&generator, packages) {
        Some(dependencies) => dependencies,
        None => {
            return None;
        },
    };
    let search = if unit.is_root {
        search
    } else {
        ""
    };
    proof {
        reveal_strlit("");
        assert(""@ =~= Seq::empty());
    }
    let mut prefix = unit_header(
        &generator,
        search,
        dependencies.as_str(),
        table.as_str(),
        class.as_str(),
        flattened.is_some(),
    );
    let module_dependencies = copy_modules(&generator.module_dependencies);
    let printed = print_with_source_map(&generator.lua.finish());
    let source_map = append_body(&mut prefix, printed, Ghost(st.lua.root));
    append_blank_line(&mut prefix);
    prefix.append("return ");
    prefix.append(table.as_str());
    prefix.append("\n");
    Some(
        GeneratedModuleUnit {
            module: unit.module,
            dependencies: module_dependencies,
            output: GeneratedLuaModule {
                module_name: module_name.to_string(),
                output_path,
                source: prefix,
                source_map,
                is_root: unit.is_root,
            },
        },
    )
}

/// The generator of one module after it has been generated.
fn unit_generator<'a>(
    program: &TypedProgram,
    unit: &ModuleUnit<'a>,
    table: &str,
    class: &str,
    flattened: Option<DefId>,
) -> (r: Option<Codegen>)
    ensures
        match layout_of(
            program.hir,
            LayoutMode::Module { current: unit.module, table: table@ },
        ) {
            None => r is None,
            Some(layout) => {
                let after = g_unit(
                    env_of(
                        *program,
                        true,
                        flattened,
                        if flattened is Some {
                            class@
                        } else {
                            Seq::empty()
                        },
                    ),
                    start_of(layout, unit.module),
                    unit.items@,
                    *unit.chunk,
                    unit.source_order@,
                    unit.module,
                );
                if after.ok {
                    r matches Some(generator) && generator@ == after && after.lua.frames is Empty
                } else {
                    r is None
                }
            },
        },
{
    let layout = match BackendLayout::try_for_module(program, unit.module, table) {
        Some(layout) => layout,
        None => {
            return None;
        },
    };
    let env_class = if flattened.is_some() {
        class.to_string()
    } else {
        String::new()
    };
    let env = environment(program, true, flattened, env_class);
    proof {
        if flattened is None {
            assert(env_class@ =~= Seq::empty());
        }
    }
    let mut generator = generator(layout, unit.module);
    generator.gen_module_unit(&env, unit.items, unit.chunk, unit.source_order, unit.module);
    if generator.ok {
        Some(generator)
    } else {
        None
    }
}

fn append_blank_line(text: &mut String)
    ensures
        final(text)@ == with_blank_line(old(text)@),
{
    if ends_with(text.as_str(), "\n\n") {
        return ;
    }
    if !ends_with(text.as_str(), "\n") {
        text.append("\n");
    }
    text.append("\n");
}

/// The head of the file of a module.
fn unit_header(
    generator: &Codegen,
    search: &str,
    dependencies: &str,
    table: &str,
    class: &str,
    flattened: bool,
) -> (r: String)
    ensures
        r@ == unit_prefix(generator@, search@, dependencies@, table@, class@, flattened),
{
    let ghost st = generator@;
    let mut prefix =
        "-- Generated by ruac (Rua -> Lua 5.5 modules). Do not edit by hand.\n\n".to_string();
    append_header_section(&mut prefix, search);
    let standard = standard_requires(generator);
    append_header_section(&mut prefix, standard.as_str());
    let mut required = dependencies.to_string();
    append_requires(&mut required, &generator.runtime_imports, "rua_std");
    append_header_section(&mut prefix, required.as_str());
    let mut aliases = String::new();
    append_aliases(&mut aliases, &generator.runtime_imports);
    if generator.uses_table_create {
        aliases.append("local tbcreate = table.create\n");
    }
    proof {
        assert(aliases@ =~= aliases_text(st.imports, 0) + capacity_text(st.table_create));
    }
    append_header_section(&mut prefix, aliases.as_str());
    if !flattened {
        prefix.append("---@class ");
        prefix.append(class);
        prefix.append("\nlocal ");
        prefix.append(table);
        prefix.append(" = {}\n");
    }
    proof {
        assert(prefix@ =~= unit_prefix(st, search@, dependencies@, table@, class@, flattened));
    }
    prefix
}

fn copy_modules(list: &Vec<ModuleId>) -> (r: Vec<ModuleId>)
    ensures
        r@ == list@,
{
    let mut out: Vec<ModuleId> = Vec::new();
    let mut i: usize = 0;
    while i < list.len()
        invariant
            i <= list.len(),
            out@ == list@.take(i as int),
        decreases list.len() - i,
    {
        out.push(list[i]);
        i += 1;
        proof {
            assert(out@ =~= list@.take(i as int));
        }
    }
    proof {
        assert(list@.take(list@.len() as int) =~= list@);
    }
    out
}

fn standard_requires(generator: &Codegen) -> (r: String)
    ensures
        r@ == standard_text(generator@.imports),
{
    let ghost model = generator@.imports;
    let mut out = String::new();
    let mut i: usize = 0;
    while i < generator.runtime_imports.len()
        invariant
            i <= generator.runtime_imports.len(),
            model == generator@.imports,
            out@.len() == 0,
            import_index(model, "rua_std"@, i as int) == import_index(model, "rua_std"@, 0),
        decreases generator.runtime_imports.len() - i,
    {
        proof {
            assert(model[i as int] == generator.runtime_imports@[i as int].model());
        }
        if same_text(generator.runtime_imports[i].module.as_str(), "rua_std") {
            append_runtime_require(&mut out, &generator.runtime_imports[i]);
            proof {
                assert(out@ =~= require_text(model[i as int]));
            }
            return out;
        }
        i += 1;
    }
    proof {
        assert(out@ =~= Seq::empty());
    }
    out
}

/// Whether a path is one file name with the ending of Lua.
pub open spec fn is_file_name(path: Seq<char>) -> bool {
    path.len() > 0 && !path.contains('/') && !path.contains('\\') && closes_with(path, ".lua"@)
}

/// The name under which Lua requires a module.
pub open spec fn unit_name(hir: ResolvedHir, unit: ModuleUnit, root_name: Seq<char>) -> Seq<char> {
    if unit.is_root {
        root_name
    } else {
        joined(texts(hir.spec_module(unit.module).path@), "."@)
    }
}

/// The path of the file of a module.
pub open spec fn unit_path(hir: ResolvedHir, unit: ModuleUnit, root_path: Seq<char>) -> Seq<char> {
    if unit.is_root {
        root_path
    } else {
        joined(texts(hir.spec_module(unit.module).path@), "/"@) + ".lua"@
    }
}

/// The package names of the units `units[from..]`, and all output paths; or the
/// path that two modules share. There are none where a module is missing.
pub open spec fn package_names(
    hir: ResolvedHir,
    units: Seq<ModuleUnit>,
    from: int,
    names: Seq<(ModuleId, Seq<char>)>,
    outputs: Seq<Seq<char>>,
) -> Option<Result<(Seq<(ModuleId, Seq<char>)>, Seq<Seq<char>>), Seq<char>>>
    decreases units.len() - from,
{
    if from < 0 || from >= units.len() {
        Some(Ok((names, outputs)))
    } else if !hir.has_module(units[from].module) {
        None
    } else {
        let path = hir.spec_module(units[from].module).path@;
        let output = joined(texts(path), "/"@) + ".lua"@;
        if outputs.contains(output) {
            Some(Err("multiple Rua modules map to `"@ + output + "`"@))
        } else {
            package_names(
                hir,
                units,
                from + 1,
                names.push((units[from].module, joined(texts(path), "."@))),
                with_text(outputs, output),
            )
        }
    }
}

/// The files of the units `units[from..]` with what they depend on.
pub open spec fn generated_units(
    program: TypedProgram,
    units: Seq<ModuleUnit>,
    root_name: Seq<char>,
    root_path: Seq<char>,
    packages: Seq<(ModuleId, Seq<char>)>,
    search: Seq<char>,
    from: int,
    done: Seq<(ModuleModel, Seq<ModuleId>)>,
) -> Option<Seq<(ModuleModel, Seq<ModuleId>)>>
    decreases units.len() - from,
{
    if from < 0 || from >= units.len() {
        Some(done)
    } else if !units[from].is_root && !program.hir.has_module(units[from].module) {
        None
    } else {
        match unit_of(
            program,
            units[from],
            unit_name(program.hir, units[from], root_name),
            unit_path(program.hir, units[from], root_path),
            packages,
            search,
        ) {
            None => None,
            Some(found) => generated_units(
                program,
                units,
                root_name,
                root_path,
                packages,
                search,
                from + 1,
                done.push(found),
            ),
        }
    }
}

/// What each module depends on.
pub open spec fn unit_graph(
    units: Seq<ModuleUnit>,
    generated: Seq<(ModuleModel, Seq<ModuleId>)>,
) -> Seq<(ModuleId, Seq<ModuleId>)> {
    Seq::new(generated.len(), |i: int| (units[i].module, generated[i].1))
}

/// The modules of the first `n` entries in the order of their identities.
pub open spec fn graph_modules(graph: Seq<(ModuleId, Seq<ModuleId>)>, n: int) -> Seq<ModuleId>
    decreases n,
{
    if n <= 0 || n > graph.len() {
        Seq::empty()
    } else {
        with_dependency(graph_modules(graph, n - 1), graph[n - 1].0)
    }
}

/// The package names along a cycle from `from` on.
pub open spec fn cycle_names(
    cycle: Seq<ModuleId>,
    packages: Seq<(ModuleId, Seq<char>)>,
    from: int,
    done: Seq<Seq<char>>,
) -> Option<Seq<Seq<char>>>
    decreases cycle.len() - from,
{
    if from < 0 || from >= cycle.len() {
        Some(done)
    } else {
        match package_name(packages, cycle[from], 0) {
            None => None,
            Some(name) => cycle_names(cycle, packages, from + 1, done.push(name)),
        }
    }
}

/// The file that holds the metadata of runtime annotations.
pub open spec fn metadata_module(text: Seq<char>) -> ModuleModel {
    ModuleModel {
        module_name: "rua_annotations"@,
        output_path: "rua_annotations.lua"@,
        source: text,
        source_map: Seq::empty(),
        is_root: false,
    }
}

/// The files of all modules once their packages are known.
pub open spec fn modules_with(
    program: TypedProgram,
    root_name: Seq<char>,
    root_path: Seq<char>,
    packages: Seq<(ModuleId, Seq<char>)>,
    outputs: Seq<Seq<char>>,
    search: Seq<char>,
) -> Option<Result<Seq<ModuleModel>, Seq<char>>> {
    let units = all_units(program);
    match generated_units(
        program,
        units,
        root_name,
        root_path,
        packages,
        search,
        0,
        Seq::empty(),
    ) {
        None => None,
        Some(generated) => {
            let graph = unit_graph(units, generated);
            match dependency_cycle(graph, graph_modules(graph, graph.len() as int)) {
                Some(cycle) => match cycle_names(cycle, packages, 0, Seq::empty()) {
                    None => None,
                    Some(names) => Some(
                        Err(
                            "modules output cannot lower cyclic Lua require dependency: "@ + joined(
                                names,
                                " -> "@,
                            ),
                        ),
                    ),
                },
                None => {
                    let files = Seq::new(generated.len(), |i: int| generated[i].0);
                    match metadata_of(program, packages) {
                        None => None,
                        Some(Err(error)) => Some(Err(error)),
                        Some(Ok(None)) => Some(Ok(files)),
                        Some(Ok(Some(text))) => if outputs.contains("rua_annotations.lua"@) {
                            Some(
                                Err(
                                    "runtime annotation metadata conflicts with `"@
                                        + "rua_annotations.lua"@ + "`"@,
                                ),
                            )
                        } else {
                            Some(Ok(files.push(metadata_module(text))))
                        },
                    }
                },
            }
        },
    }
}

/// The files of all modules, or why they cannot be separate files. There is
/// nothing where the front end owes something.
pub open spec fn modules_of(
    program: TypedProgram,
    root_path: Seq<char>,
    paths: Seq<Seq<char>>,
) -> Option<Result<Seq<ModuleModel>, Seq<char>>> {
    if program.syntax.is_decl {
        Some(Err("modules output requires an executable `.rua` root"@))
    } else if !is_file_name(root_path) {
        Some(Err("module root output must be one relative `.lua` filename"@))
    } else {
        let root_name = root_path.take(root_path.len() - 4);
        match search_path(paths) {
            Err(error) => Some(Err(error)),
            Ok(search) => if root_name.len() == 0 {
                Some(Err("module root output must have a non-empty file stem"@))
            } else {
                match package_names(
                    program.hir,
                    all_units(program),
                    1,
                    seq![(program.hir.root, root_name)],
                    with_text(Seq::empty(), root_path),
                ) {
                    None => None,
                    Some(Err(error)) => Some(Err(error)),
                    Some(Ok((packages, outputs))) => modules_with(
                        program,
                        root_name,
                        root_path,
                        packages,
                        outputs,
                        search,
                    ),
                }
            },
        }
    }
}

/// Whether an outcome says what the model says.
pub open spec fn says_modules<'a>(
    outcome: Option<Result<Vec<GeneratedLuaModule>, String>>,
    model: Option<Result<Seq<ModuleModel>, Seq<char>>>,
) -> bool {
    match outcome {
        None => model is None,
        Some(Ok(files)) => model == Some(
            Ok::<Seq<ModuleModel>, Seq<char>>(modules_model(files@)),
        ),
        Some(Err(error)) => model == Some(Err::<Seq<ModuleModel>, Seq<char>>(error@)),
    }
}

fn holds(path: &Vec<char>, c: char) -> (r: bool)
    ensures
        r == path@.contains(c),
{
    let mut i: usize = 0;
    while i < path.len()
        invariant
            i <= path.len(),
            forall|k: int| 0 <= k < i ==> #[trigger] path@[k] != c,
        decreases path.len() - i,
    {
        if path[i] == c {
            proof {
                assert(path@[i as int] == c);
            }
            return true;
        }
        i += 1;
    }
    false
}

/// Package names and output paths.
struct Packages {
    names: Vec<(ModuleId, String)>,
    outputs: TextSet,
}

fn collect_packages<'a>(
    hir: &ResolvedHir,
    units: &Vec<ModuleUnit<'a>>,
    root: ModuleId,
    root_name: &str,
    root_path: &str,
) -> (r: Option<Result<Packages, String>>)
    ensures
        ({
            let model = package_names(
                *hir,
                units@,
                1,
                seq![(root, root_name@)],
                with_text(Seq::empty(), root_path@),
            );
            match r {
                None => model is None,
                Some(Ok(found)) => model == Some(
                    Ok::<(Seq<(ModuleId, Seq<char>)>, Seq<Seq<char>>), Seq<char>>(
                        (packages_model(found.names@), found.outputs@),
                    ),
                ),
                Some(Err(error)) => model == Some(
                    Err::<(Seq<(ModuleId, Seq<char>)>, Seq<Seq<char>>), Seq<char>>(error@),
                ),
            }
        }),
{
    let mut names: Vec<(ModuleId, String)> = Vec::new();
    names.push((root, root_name.to_string()));
    let mut outputs = TextSet::new();
    let _ = outputs.insert(root_path.to_string());
    proof {
        assert(packages_model(names@) =~= seq![(root, root_name@)]);
    }
    let mut i: usize = 1;
    while i < units.len()
        invariant
            1 <= i,
            package_names(*hir, units@, i as int, packages_model(names@), outputs@)
                == package_names(
                *hir,
                units@,
                1,
                seq![(root, root_name@)],
                with_text(Seq::empty(), root_path@),
            ),
        decreases units.len() - i,
    {
        let data = match hir.find_module(units[i].module) {
            Some(data) => data,
            None => {
                return None;
            },
        };
        let output = cat2(join(&data.path, "/").as_str(), ".lua");
        if outputs.has(output.as_str()) {
            return Some(Err(cat3("multiple Rua modules map to `", output.as_str(), "`")));
        }
        let name = join(&data.path, ".");
        let _ = outputs.insert(output);
        let ghost before = packages_model(names@);
        names.push((units[i].module, name));
        proof {
            assert(packages_model(names@) =~= before.push((units@[i as int].module, name@)));
        }
        i += 1;
    }
    Some(Ok(Packages { names, outputs }))
}

spec fn generated_model(list: Seq<GeneratedModuleUnit>) -> Seq<(ModuleModel, Seq<ModuleId>)> {
    Seq::new(list.len(), |i: int| (list[i].output.model(), list[i].dependencies@))
}

fn generate_units<'a>(
    program: &TypedProgram,
    units: &Vec<ModuleUnit<'a>>,
    root_name: &str,
    root_path: &str,
    packages: &Vec<(ModuleId, String)>,
    search: &str,
) -> (r: Option<Vec<GeneratedModuleUnit>>)
    ensures
        ({
            let model = generated_units(
                *program,
                units@,
                root_name@,
                root_path@,
                packages_model(packages@),
                search@,
                0,
                Seq::empty(),
            );
            match r {
                None => model is None,
                Some(list) => model == Some(generated_model(list@)) && list@.len() == units@.len()
                    && forall|k: int|
                    0 <= k < list@.len() ==> (#[trigger] list@[k]).module == units@[k].module,
            }
        }),
{
    let ghost model = packages_model(packages@);
    let mut out: Vec<GeneratedModuleUnit> = Vec::new();
    let mut i: usize = 0;
    proof {
        assert(generated_model(out@) =~= Seq::empty());
    }
    while i < units.len()
        invariant
            i <= units.len(),
            model == packages_model(packages@),
            out@.len() == i,
            forall|k: int| 0 <= k < i ==> (#[trigger] out@[k]).module == units@[k].module,
            generated_units(
                *program,
                units@,
                root_name@,
                root_path@,
                model,
                search@,
                i as int,
                generated_model(out@),
            ) == generated_units(
                *program,
                units@,
                root_name@,
                root_path@,
                model,
                search@,
                0,
                Seq::empty(),
            ),
        decreases units.len() - i,
    {
        let unit = &units[i];
        let (name, path) = if unit.is_root {
            (root_name.to_string(), root_path.to_string())
        } else {
            match program.hir.find_module(unit.module) {
                Some(data) => (
                    join(&data.path, "."),
                    cat2(join(&data.path, "/").as_str(), ".lua"),
                ),
                None => {
                    return None;
                },
            }
        };
        match generate_module_unit(program, unit, name.as_str(), path, packages, search) {
            None => {
                return None;
            },
            Some(found) => {
                let ghost before = generated_model(out@);
                out.push(found);
                proof {
                    assert(generated_model(out@) =~= before.push(
                        (found.output.model(), found.dependencies@),
                    ));
                }
            },
        }
        i += 1;
    }
    Some(out)
}

/// The dependencies of each module, and the modules in the order of their
/// identities.
struct UnitGraph {
    edges: Vec<(ModuleId, Vec<ModuleId>)>,
    modules: Vec<ModuleId>,
}

fn graph_of<'a>(units: &Vec<ModuleUnit<'a>>, generated: &Vec<GeneratedModuleUnit>) -> (r: UnitGraph)
    requires
        generated@.len() == units@.len(),
        forall|k: int|
            0 <= k < generated@.len() ==> (#[trigger] generated@[k]).module == units@[k].module,
    ensures
        edges_model(r.edges@) == unit_graph(units@, generated_model(generated@)),
        r.modules@ == graph_modules(
            unit_graph(units@, generated_model(generated@)),
            generated@.len() as int,
        ),
{
    let ghost graph = unit_graph(units@, generated_model(generated@));
    let mut edges: Vec<(ModuleId, Vec<ModuleId>)> = Vec::new();
    let mut modules: Vec<ModuleId> = Vec::new();
    let mut i: usize = 0;
    proof {
        assert(modules@ =~= Seq::empty());
    }
    while i < generated.len()
        invariant
            i <= generated.len(),
            generated@.len() == units@.len(),
            graph == unit_graph(units@, generated_model(generated@)),
            forall|k: int|
                0 <= k < generated@.len() ==> (#[trigger] generated@[k]).module == units@[k].module,
            edges@.len() == i,
            forall|k: int|
                0 <= k < i ==> graph[k] == (
                    (#[trigger] edges@[k]).0,
                    edges@[k].1@,
                ),
            modules@ == graph_modules(graph, i as int),
        decreases generated.len() - i,
    {
        let dependencies = copy_modules(&generated[i].dependencies);
        proof {
            assert(generated@[i as int].module == units@[i as int].module);
            assert(graph[i as int] == (units@[i as int].module, dependencies@));
        }
        edges.push((generated[i].module, dependencies));
        add_dependency(&mut modules, generated[i].module);
        i += 1;
    }
    proof {
        assert(edges_model(edges@) =~= graph);
    }
    UnitGraph { edges, modules }
}

fn cycle_packages(cycle: &Vec<ModuleId>, packages: &Vec<(ModuleId, String)>) -> (r: Option<
    Vec<String>,
>)
    ensures
        match r {
            None => cycle_names(cycle@, packages_model(packages@), 0, Seq::empty()) is None,
            Some(names) => cycle_names(cycle@, packages_model(packages@), 0, Seq::empty()) == Some(
                texts(names@),
            ),
        },
{
    let ghost model = packages_model(packages@);
    let mut out: Vec<String> = Vec::new();
    let mut i: usize = 0;
    proof {
        assert(texts(out@) =~= Seq::empty());
    }
    while i < cycle.len()
        invariant
            i <= cycle.len(),
            model == packages_model(packages@),
            cycle_names(cycle@, model, i as int, texts(out@)) == cycle_names(
                cycle@,
                model,
                0,
                Seq::empty(),
            ),
        decreases cycle.len() - i,
    {
        match find_package(packages, cycle[i]) {
            None => {
                return None;
            },
            Some(name) => {
                let ghost before = texts(out@);
                out.push(name.clone());
                proof {
                    assert(texts(out@) =~= before.push(name@));
                }
            },
        }
        i += 1;
    }
    Some(out)
}

fn generate_with_packages(
    program: &TypedProgram,
    root_name: &str,
    root_path: &str,
    packages: &Packages,
    search: &str,
) -> (r: Option<Result<Vec<GeneratedLuaModule>, String>>)
    ensures
        says_modules(
            r,
            modules_with(
                *program,
                root_name@,
                root_path@,
                packages_model(packages.names@),
                packages.outputs@,
                search@,
            ),
        ),
{
    let units = module_units(program);
    let generated = match generate_units(
        program,
        &units,
        root_name,
        root_path,
        &packages.names,
        search,
    ) {
        None => {
            return None;
        },
        Some(generated) => generated,
    };
    let ghost model = generated_model(generated@);
    let graph = graph_of(&units, &generated);
    proof {
        assert(unit_graph(units@, model).len() == generated@.len());
    }
    if let Some(cycle) = find_module_dependency_cycle(&graph.edges, &graph.modules) {
        return match cycle_packages(&cycle, &packages.names) {
            None => None,
            Some(names) => Some(
                Err(
                    cat2(
                        "modules output cannot lower cyclic Lua require dependency: ",
                        join(&names, " -> ").as_str(),
                    ),
                ),
            ),
        };
    }
    let mut files: Vec<GeneratedLuaModule> = Vec::new();
    let ghost all = generated@;
    for unit in it: generated
        invariant
            it.seq() == all,
            files@.len() == it.index(),
            forall|k: int| 0 <= k < files@.len() ==> #[trigger] files@[k] == all[k].output,
    {
        files.push(unit.output);
    }
    let ghost plain = Seq::new(model.len(), |i: int| model[i].0);
    proof {
        assert(modules_model(files@) =~= plain);
    }
    match module_annotation_outputs(program, &packages.names) {
        None => None,
        Some(Err(error)) => Some(Err(error)),
        Some(Ok(None)) => Some(Ok(files)),
        Some(Ok(Some(text))) => {
            if packages.outputs.has("rua_annotations.lua") {
                return Some(
                    Err(
                        cat3(
                            "runtime annotation metadata conflicts with `",
                            "rua_annotations.lua",
                            "`",
                        ),
                    ),
                );
            }
            let file = GeneratedLuaModule {
                module_name: "rua_annotations".to_string(),
                output_path: "rua_annotations.lua".to_string(),
                source: text,
                source_map: Vec::new(),
                is_root: false,
            };
            files.push(file);
            proof {
                assert(file.source_map@ =~= Seq::empty());
                assert(modules_model(files@) =~= plain.push(metadata_module(text@)));
            }
            Some(Ok(files))
        },
    }
}

fn module_units<'a>(program: &'a TypedProgram) -> (r: Vec<ModuleUnit<'a>>)
    ensures
        r@ == all_units(*program),
{
    let mut units: Vec<ModuleUnit<'a>> = Vec::new();
    units.push(
        ModuleUnit {
            module: program.hir.root,
            items: &program.syntax.items,
            chunk: &program.syntax.chunk,
            source_order: &program.syntax.source_order,
            is_root: true,
        },
    );
    proof {
        assert(units@ =~= seq![
            ModuleUnit {
                module: program.hir.root,
                items: &program.syntax.items,
                chunk: &program.syntax.chunk,
                source_order: &program.syntax.source_order,
                is_root: true,
            },
        ]);
    }
    collect_module_units(program, &program.syntax.items, program.hir.root, &mut units);
    units
}

fn generate_files(program: &TypedProgram, root_path: &str, lua_path: &Vec<String>) -> (r: Option<
    Result<Vec<GeneratedLuaModule>, String>,
>)
    ensures
        says_modules(r, modules_of(*program, root_path@, texts(lua_path@))),
{
    if program.syntax.is_decl {
        return Some(Err("modules output requires an executable `.rua` root".to_string()));
    }
    let path = chars_of(root_path);
    if path.len() == 0 || holds(&path, '/') || holds(&path, '\\') || !ends_with(root_path, ".lua") {
        return Some(Err("module root output must be one relative `.lua` filename".to_string()));
    }
    proof {
        reveal_strlit(".lua");
    }
    let root_name = crate::text::text_between(&path, 0, path.len() - 4);
    proof {
        assert(path@.subrange(0, path@.len() - 4) =~= root_path@.take(root_path@.len() - 4));
    }
    let search = match lua_search_path(lua_path) {
        Ok(search) => search,
        Err(error) => {
            return Some(Err(error));
        },
    };
    if path.len() == 4 {
        return Some(Err("module root output must have a non-empty file stem".to_string()));
    }
    let units = module_units(program);
    match collect_packages(
        &program.hir,
        &units,
        program.hir.root,
        root_name.as_str(),
        root_path,
    ) {
        None => None,
        Some(Err(error)) => Some(Err(error)),
        Some(Ok(packages)) => generate_with_packages(
            program,
            root_name.as_str(),
            root_path,
            &packages,
            search.as_str(),
        ),
    }
}

/// Generates one file for each module. There are none where the front end owes
/// something; an error where the modules cannot be separate files.
pub fn try_generate_modules<'a>(
    program: &'a TypedProgram,
    root_output_path: &str,
    lua_path: &Vec<String>,
) -> (r: Option<Result<GeneratedLuaModules<'a>, String>>)
    ensures
        ({
            let model = modules_of(*program, root_output_path@, texts(lua_path@));
            match r {
                None => model is None,
                Some(Err(error)) => model == Some(Err::<Seq<ModuleModel>, Seq<char>>(error@)),
                Some(Ok(found)) => model == Some(
                    Ok::<Seq<ModuleModel>, Seq<char>>(modules_model(found.modules@)),
                ) && found.root_output_path@ == root_output_path@ && *found.annotations
                    == program.annotations,
            }
        }),
{
    match generate_files(program, root_output_path, lua_path) {
        None => None,
        Some(Err(error)) => Some(Err(error)),
        Some(Ok(modules)) => Some(
            Ok(
                GeneratedLuaModules {
                    root_output_path: root_output_path.to_string(),
                    modules,
                    source_files: Vec::new(),
                    annotations: &program.annotations,
                },
            ),
        ),
    }
}

/// Generates one file for each module.
pub fn generate_modules_with_source_maps<'a>(
    program: &'a TypedProgram,
    _rules: &CodegenRules,
    root_output_path: &str,
    lua_path: &Vec<String>,
) -> (r: Result<GeneratedLuaModules<'a>, String>)
    requires
        modules_of(*program, root_output_path@, texts(lua_path@)) is Some,
    ensures
        ({
            let model = modules_of(*program, root_output_path@, texts(lua_path@));
            match r {
                Err(error) => model == Some(Err::<Seq<ModuleModel>, Seq<char>>(error@)),
                Ok(found) => model == Some(
                    Ok::<Seq<ModuleModel>, Seq<char>>(modules_model(found.modules@)),
                ) && found.root_output_path@ == root_output_path@ && *found.annotations
                    == program.annotations,
            }
        }),
{
    try_generate_modules(program, root_output_path, lua_path).unwrap()
}

/// Every mapping of a generated file is a range of its text, behind its head and the
/// empty line that parts the two.
pub proof fn law_file_mappings_lie_in_the_source(prefix: Seq<char>, lua: BuilderModel, i: int)
    requires
        encode_utf8(file_of(prefix, lua).source).len() <= usize::MAX,
        0 <= i < file_of(prefix, lua).source_map.len(),
    ensures
        ({
            let file = file_of(prefix, lua);
            let head = spaced(prefix, printed_page(lua.root).out);
            encode_utf8(head).len() <= file.source_map[i].generated_start
                <= file.source_map[i].generated_end <= encode_utf8(file.source).len()
        }),
{
    let page = printed_page(lua.root);
    let head = spaced(prefix, page.out);
    let list = ordered(page.mappings);
    lemma_bytes(head, page.out);
    lemma_bytes(prefix, "\n"@);
    law_mappings_are_ordered(page.mappings);
    assert(page.mappings.to_multiset().count(list[i]) > 0) by {
        list.to_multiset_ensures();
        assert(list.contains(list[i]));
    }
    page.mappings.to_multiset_ensures();
    assert(page.mappings.contains(list[i]));
    let k = choose|k: int| 0 <= k < page.mappings.len() && page.mappings[k] == list[i];
    law_mappings_lie_in_the_text(lua.root, k);
}

} // verus!
