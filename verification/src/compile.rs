//! Compilation around the single passes: its inputs, its failures, and the order
//! in which checks can stop it.

use vstd::prelude::*;

use crate::check::{collect_diags_resolved, structural_errors};
use crate::codegen::output::{
    bundle_of, bundle_state, modules_model, modules_of, try_generate, try_generate_modules,
    FileModel, GeneratedLua, GeneratedLuaModules, ModuleModel,
};
use crate::ast::Program;
use crate::diag::{
    bare_diag, diags_model, render_all, rendered_lines, Diag, DiagModel, DiagnosticCode,
    StructuredDiagnostic,
};
use crate::module_tree::{
    leaves_first_place, lemma_first_file_stays_below, materialize_modules, materialized_below,
    parse_diag, parser_diagnostic, streams_end, FilePlaces, LoadedFile,
};
use crate::parser::program::{parse_stream_within, program_within};
use crate::parser::state::{default_budget, ParseBudget, ParseError};
use crate::project::{ends_with_extension, has_extension};
use crate::resolve::{
    contents_error, mark_decl, marked_items, validate_declaration_program, DiscoveredModule,
    FoundModule,
};
use crate::table::Table;
use crate::text::{chars_of, copy_texts, joined, texts};
use crate::token::RuaTokenKind;
use crate::tokenize::StrictTokenStream;
use crate::tree::ProgramTree;
use crate::typed::TypedProgram;

verus! {

/// Inputs of a compilation besides its source text.
#[derive(Debug)]
pub struct CompileOptions {
    /// The root of a standard library that holds `std.toml`.
    pub std_path: Option<String>,
    /// Declaration files, or directories that are searched for them.
    pub library: Vec<String>,
    /// Root modules with the declaration file or directory behind each.
    pub library_mounts: Table<String, String>,
    /// Directories that Lua searches for modules.
    pub lua_path: Vec<String>,
}

impl Default for CompileOptions {
    fn default() -> (r: Self)
        ensures
            r.std_path is None,
            r.library@.len() == 0,
            r.library_mounts@ == Map::<Seq<char>, String>::empty(),
            r.lua_path@.len() == 0,
    {
        CompileOptions {
            std_path: None,
            library: Vec::new(),
            library_mounts: Table::new(),
            lua_path: Vec::new(),
        }
    }
}

/// Why a compilation ended, with the registry that places refer to.
#[derive(Debug)]
pub struct CompileFailure {
    pub diagnostics: Vec<Diag>,
    pub files: Vec<String>,
}

/// A failure over mathematical texts.
pub struct FailureModel {
    pub diagnostics: Seq<DiagModel>,
    pub files: Seq<Seq<char>>,
}

/// Whether a text stands at a position of another.
pub open spec fn stands_at(text: Seq<char>, pattern: Seq<char>, at: int) -> bool {
    0 <= at && at + pattern.len() <= text.len() && text.subrange(at, at + pattern.len()) == pattern
}

fn matches_at(text: &Vec<char>, pattern: &Vec<char>, at: usize) -> (r: bool)
    requires
        at <= text.len(),
    ensures
        r == stands_at(text@, pattern@, at as int),
{
    if pattern.len() > text.len() - at {
        return false;
    }
    let mut i: usize = 0;
    while i < pattern.len()
        invariant
            i <= pattern.len(),
            at + pattern.len() <= text.len(),
            forall|k: int| 0 <= k < i ==> text@[at + k] == #[trigger] pattern@[k],
        decreases pattern.len() - i,
    {
        if text[at + i] != pattern[i] {
            proof {
                assert(text@.subrange(at as int, at + pattern@.len())[i as int] != pattern@[i as int]);
            }
            return false;
        }
        i += 1;
    }
    proof {
        assert(text@.subrange(at as int, at + pattern@.len()) =~= pattern@);
    }
    true
}

impl CompileFailure {
    /// The mathematical form.
    pub open spec fn model(self) -> FailureModel {
        FailureModel {
            diagnostics: diags_model(self.diagnostics@),
            files: texts(self.files@),
        }
    }

    /// The failure as text: one diagnostic on each line.
    pub open spec fn spec_text(self) -> Seq<char> {
        joined(rendered_lines(self.model().diagnostics, self.model().files), "\n"@)
    }

    /// A failure with one diagnostic.
    pub fn single(diagnostic: Diag, files: Vec<String>) -> (r: Self)
        ensures
            r.model() == (FailureModel {
                diagnostics: seq![diagnostic.model()],
                files: texts(files@),
            }),
    {
        let ghost one = diagnostic.model();
        let mut diagnostics: Vec<Diag> = Vec::new();
        diagnostics.push(diagnostic);
        proof {
            assert(diags_model(diagnostics@) =~= seq![one]);
        }
        CompileFailure { diagnostics, files }
    }

    /// The failure of a parse.
    pub fn from_parse(error: ParseError, files: Vec<String>) -> (r: Self)
        ensures
            r.model() == (FailureModel {
                diagnostics: seq![parse_diag(error.failure())],
                files: texts(files@),
            }),
    {
        CompileFailure::single(parser_diagnostic(error), files)
    }

    /// The machine-readable causes.
    pub fn structured_diagnostics(&self) -> (r: Vec<&StructuredDiagnostic>)
        ensures
            r@.len() == self.diagnostics@.len(),
            forall|i: int| 0 <= i < r@.len() ==> *(#[trigger] r@[i]) == self.diagnostics@[i].diagnostic,
    {
        let mut out: Vec<&StructuredDiagnostic> = Vec::new();
        let mut i: usize = 0;
        while i < self.diagnostics.len()
            invariant
                i <= self.diagnostics.len(),
                out@.len() == i,
                forall|k: int|
                    0 <= k < i ==> *(#[trigger] out@[k]) == self.diagnostics@[k].diagnostic,
            decreases self.diagnostics.len() - i,
        {
            out.push(&self.diagnostics[i].diagnostic);
            i += 1;
        }
        out
    }

    /// The failure as text: one diagnostic on each line.
    pub fn render(&self) -> (r: String)
        ensures
            r@ == self.spec_text(),
    {
        render_all(&self.diagnostics, &self.files)
    }

    /// Whether the failure's text holds another.
    pub fn contains(&self, pattern: &str) -> (r: bool)
        ensures
            r == (exists|at: int| stands_at(self.spec_text(), pattern@, at)),
    {
        let text = chars_of(self.render().as_str());
        let wanted = chars_of(pattern);
        let mut at: usize = 0;
        while at < text.len()
            invariant
                at <= text.len(),
                text@ == self.spec_text(),
                wanted@ == pattern@,
                forall|k: int| 0 <= k < at ==> !stands_at(text@, pattern@, k),
            decreases text.len() - at,
        {
            if matches_at(&text, &wanted, at) {
                return true;
            }
            at += 1;
        }
        let last = matches_at(&text, &wanted, at);
        proof {
            if !last {
                assert forall|k: int| !stands_at(text@, pattern@, k) by {
                    if stands_at(text@, pattern@, k) {
                        assert(0 <= k <= text@.len());
                    }
                }
            }
        }
        last
    }

    /// Whether the failure's text starts with another.
    pub fn starts_with(&self, pattern: &str) -> (r: bool)
        ensures
            r == stands_at(self.spec_text(), pattern@, 0),
    {
        matches_at(&chars_of(self.render().as_str()), &chars_of(pattern), 0)
    }
}

/// The diagnostics that stop a compilation: those of the structural checks, or
/// else those of type checking; none where the program can be generated.
pub open spec fn stopping(program: TypedProgram, type_errors: Seq<DiagModel>) -> Seq<DiagModel> {
    let structural = structural_errors(program.syntax, program.hir);
    if structural.len() > 0 {
        structural
    } else {
        type_errors
    }
}

/// Compiles a resolved program, with what type checking reported of it. Structural
/// errors come first: type errors are reported only where there are none. There is
/// no result where nothing stops the program but its tables are not complete.
pub fn try_compile_resolved<'a>(
    program: &'a TypedProgram,
    type_errors: Vec<Diag>,
    lua_path: &Vec<String>,
    files: &Vec<String>,
) -> (r: Option<Result<GeneratedLua<'a>, CompileFailure>>)
    ensures
        match r {
            None => stopping(*program, diags_model(type_errors@)).len() == 0 && bundle_state(
                *program,
            ) is None,
            Some(Ok(generated)) => stopping(*program, diags_model(type_errors@)).len() == 0
                && bundle_of(*program, texts(lua_path@)) == Some(
                Ok::<FileModel, Seq<char>>(
                    FileModel { source: generated.source@, source_map: generated.source_map@ },
                ),
            ) && texts(generated.source_files@) == texts(files@) && *generated.annotations
                == program.annotations,
            Some(Err(failure)) => failure.model().files == texts(files@) && {
                let stop = stopping(*program, diags_model(type_errors@));
                if stop.len() > 0 {
                    failure.model().diagnostics == stop
                } else {
                    bundle_of(*program, texts(lua_path@)) matches Some(Err(message))
                        && failure.model().diagnostics == seq![
                        bare_diag(DiagnosticCode::HostProjectInvalid, message),
                    ]
                }
            },
        },
{
    let structural = collect_diags_resolved(&program.syntax, &program.hir);
    proof {
        assert(diags_model(structural@).len() == structural@.len());
        assert(diags_model(type_errors@).len() == type_errors@.len());
    }
    if structural.len() > 0 {
        return Some(Err(CompileFailure { diagnostics: structural, files: copy_texts(files) }));
    }
    if type_errors.len() > 0 {
        return Some(Err(CompileFailure { diagnostics: type_errors, files: copy_texts(files) }));
    }
    match try_generate(program, lua_path) {
        None => None,
        Some(Ok(generated)) => {
            let mut generated = generated;
            generated.source_files = copy_texts(files);
            Some(Ok(generated))
        },
        Some(Err(message)) => Some(
            Err(
                CompileFailure::single(
                    Diag::bare(DiagnosticCode::HostProjectInvalid, message),
                    copy_texts(files),
                ),
            ),
        ),
    }
}

/// Compiles a resolved program whose tables are complete.
pub fn compile_resolved<'a>(
    program: &'a TypedProgram,
    type_errors: Vec<Diag>,
    lua_path: &Vec<String>,
    files: &Vec<String>,
) -> (r: Result<GeneratedLua<'a>, CompileFailure>)
    requires
        stopping(*program, diags_model(type_errors@)).len() == 0 ==> bundle_state(
            *program,
        ) is Some,
    ensures
        match r {
            Ok(generated) => stopping(*program, diags_model(type_errors@)).len() == 0 && bundle_of(
                *program,
                texts(lua_path@),
            ) == Some(
                Ok::<FileModel, Seq<char>>(
                    FileModel { source: generated.source@, source_map: generated.source_map@ },
                ),
            ) && texts(generated.source_files@) == texts(files@) && *generated.annotations
                == program.annotations,
            Err(failure) => failure.model().files == texts(files@) && {
                let stop = stopping(*program, diags_model(type_errors@));
                if stop.len() > 0 {
                    failure.model().diagnostics == stop
                } else {
                    bundle_of(*program, texts(lua_path@)) matches Some(Err(message))
                        && failure.model().diagnostics == seq![
                        bare_diag(DiagnosticCode::HostProjectInvalid, message),
                    ]
                }
            },
        },
{
    try_compile_resolved(program, type_errors, lua_path, files).unwrap()
}

/// Compiles a resolved program to one file for each module, with what type checking
/// reported of it. Structural errors come first: type errors are reported only where
/// there are none. There is no result where nothing stops the program but its tables
/// are not complete.
pub fn try_compile_modules<'a>(
    program: &'a TypedProgram,
    type_errors: Vec<Diag>,
    root_output_path: &str,
    lua_path: &Vec<String>,
    files: &Vec<String>,
) -> (r: Option<Result<GeneratedLuaModules<'a>, CompileFailure>>)
    ensures
        ({
            let stop = stopping(*program, diags_model(type_errors@));
            let model = modules_of(*program, root_output_path@, texts(lua_path@));
            match r {
                None => stop.len() == 0 && model is None,
                Some(Ok(generated)) => {
                    &&& stop.len() == 0
                    &&& model == Some(
                        Ok::<Seq<ModuleModel>, Seq<char>>(modules_model(generated.modules@)),
                    )
                    &&& generated.root_output_path@ == root_output_path@
                    &&& texts(generated.source_files@) == texts(files@)
                    &&& *generated.annotations == program.annotations
                },
                Some(Err(failure)) => failure.model().files == texts(files@) && if stop.len() > 0 {
                    failure.model().diagnostics == stop
                } else {
                    model matches Some(Err(message)) && failure.model().diagnostics == seq![
                        bare_diag(DiagnosticCode::HostProjectInvalid, message),
                    ]
                },
            }
        }),
{
    let structural = collect_diags_resolved(&program.syntax, &program.hir);
    proof {
        assert(diags_model(structural@).len() == structural@.len());
        assert(diags_model(type_errors@).len() == type_errors@.len());
    }
    if structural.len() > 0 {
        return Some(Err(CompileFailure { diagnostics: structural, files: copy_texts(files) }));
    }
    if type_errors.len() > 0 {
        return Some(Err(CompileFailure { diagnostics: type_errors, files: copy_texts(files) }));
    }
    match try_generate_modules(program, root_output_path, lua_path) {
        None => None,
        Some(Ok(generated)) => {
            let mut generated = generated;
            generated.source_files = copy_texts(files);
            Some(Ok(generated))
        },
        Some(Err(message)) => Some(
            Err(
                CompileFailure::single(
                    Diag::bare(DiagnosticCode::HostProjectInvalid, message),
                    copy_texts(files),
                ),
            ),
        ),
    }
}

/// Everything that the checks report of a resolved program: first the structural
/// errors, then those of type checking.
pub fn check_diagnostics(program: &TypedProgram, type_errors: Vec<Diag>) -> (r: Vec<Diag>)
    ensures
        diags_model(r@) == structural_errors(program.syntax, program.hir) + diags_model(
            type_errors@,
        ),
{
    let mut out = collect_diags_resolved(&program.syntax, &program.hir);
    let ghost first = diags_model(out@);
    let mut rest = type_errors;
    out.append(&mut rest);
    proof {
        assert(diags_model(out@) =~= first + diags_model(type_errors@));
    }
    out
}

/// A root program with its file modules, or what stops it, and the file registry
/// afterwards. A path with the extension of declarations holds only those.
pub open spec fn loaded_root(
    stream: StrictTokenStream,
    path: Seq<char>,
    loaded: Seq<LoadedFile>,
    places: FilePlaces,
    discovered: FoundModule,
) -> (Seq<Seq<char>>, Result<ProgramTree, DiagModel>) {
    let is_declaration = has_extension(path, "ruai"@);
    let files = seq![path];
    match program_within(stream, 0, default_budget()) {
        Err(failure) => (files, Err(parse_diag(failure))),
        Ok(parsed) => match materialized_below(
            loaded,
            places,
            discovered.children,
            0,
            parsed.items,
            Seq::empty(),
            files,
        ) {
            (after, Err(error)) => (after, Err(error)),
            (after, Ok((items, entries))) => {
                let program = ProgramTree {
                    items,
                    source_order: entries + parsed.source_order,
                    is_decl: is_declaration,
                    ..parsed
                };
                if !is_declaration {
                    (after, Ok(program))
                } else {
                    match contents_error(program.items, program.chunk, 0) {
                        Some(error) => (after, Err(error)),
                        None => (
                            after,
                            Ok(ProgramTree { items: marked_items(program.items), ..program }),
                        ),
                    }
                }
            },
        },
    }
}

/// Parses a root file and puts its file modules into it. The root is the first
/// file of the registry; a declaration file may hold nothing to execute.
pub fn parse_and_load_modules(
    stream: &StrictTokenStream,
    path: &str,
    loaded: &Vec<LoadedFile>,
    places: FilePlaces,
    discovered: DiscoveredModule,
) -> (r: Result<(Program, Vec<String>), CompileFailure>)
    requires
        stream.end.kind == RuaTokenKind::Eof,
        streams_end(loaded@),
    ensures
        match r {
            Ok((program, files)) => loaded_root(
                *stream,
                path@,
                loaded@,
                places,
                discovered.model(),
            ) == (texts(files@), Ok::<ProgramTree, DiagModel>(program.tree())),
            Err(failure) => failure.model().diagnostics.len() == 1 && loaded_root(
                *stream,
                path@,
                loaded@,
                places,
                discovered.model(),
            ) == (
                failure.model().files,
                Err::<ProgramTree, DiagModel>(failure.model().diagnostics[0]),
            ),
        },
{
    let is_declaration = ends_with_extension(path, "ruai");
    let mut files: Vec<String> = Vec::new();
    files.push(path.to_string());
    proof {
        assert(texts(files@) =~= seq![path@]);
    }
    let mut program = match parse_stream_within(stream, 0, ParseBudget::default()) {
        Ok(program) => program,
        Err(error) => {
            return Err(CompileFailure::from_parse(error, files));
        },
    };
    program.is_decl = is_declaration;
    if let Err(error) = materialize_modules(&mut program, loaded, places, discovered, &mut files) {
        return Err(CompileFailure::single(error, files));
    }
    if is_declaration {
        if let Err(error) = validate_declaration_program(&program, 0) {
            return Err(CompileFailure::single(error, files));
        }
        mark_decl(&mut program.items);
    }
    Ok((program, files))
}

/// Parses a root file and puts its file modules into it, without semantic checks.
pub fn parse_and_resolve(
    stream: &StrictTokenStream,
    path: &str,
    loaded: &Vec<LoadedFile>,
    places: FilePlaces,
    discovered: DiscoveredModule,
) -> (r: Result<(Program, Vec<String>), CompileFailure>)
    requires
        stream.end.kind == RuaTokenKind::Eof,
        streams_end(loaded@),
    ensures
        match r {
            Ok((program, files)) => loaded_root(
                *stream,
                path@,
                loaded@,
                places,
                discovered.model(),
            ) == (texts(files@), Ok::<ProgramTree, DiagModel>(program.tree())),
            Err(failure) => failure.model().diagnostics.len() == 1 && loaded_root(
                *stream,
                path@,
                loaded@,
                places,
                discovered.model(),
            ) == (
                failure.model().files,
                Err::<ProgramTree, DiagModel>(failure.model().diagnostics[0]),
            ),
        },
{
    parse_and_load_modules(stream, path, loaded, places, discovered)
}

/// Whatever modules are loaded below it, the root stays the first file of the
/// registry. A loaded program is a declaration exactly where its path has the
/// extension of declarations, and it has no standard library of its own.
pub proof fn law_root_stays_first(
    stream: StrictTokenStream,
    path: Seq<char>,
    loaded: Seq<LoadedFile>,
    places: FilePlaces,
    discovered: FoundModule,
)
    requires
        places == FilePlaces::Given ==> leaves_first_place(discovered),
    ensures
        ({
            let (files, result) = loaded_root(stream, path, loaded, places, discovered);
            &&& files.len() > 0
            &&& files[0] == path
            &&& result matches Ok(program) ==> program.is_decl == has_extension(path, "ruai"@)
                && program.standard_library is None
        }),
{
    if let Ok(parsed) = program_within(stream, 0, default_budget()) {
        lemma_first_file_stays_below(
            loaded,
            places,
            discovered.children,
            0,
            parsed.items,
            Seq::empty(),
            seq![path],
        );
    }
}

} // verus!
