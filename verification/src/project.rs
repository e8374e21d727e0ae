//! Projects: a table of files under logical paths, with one root and with libraries
//! of declarations below names of their own.

use vstd::prelude::*;

use crate::ast::Program;
use crate::compile::CompileFailure;
use crate::diag::{bare_diag, Diag, DiagModel, DiagnosticCode};
use crate::module_tree::{
    load_program, loaded_program, materialize_modules, materialized_below, streams_end, FilePlaces,
    LoadedFile,
};
use crate::resolve::{
    contents_error, found_model, insert_discovered_file, mark_decl, marked_items, module_segments,
    module_path_with_root, nothing_found, validate_declaration_program, with_file, DiscoveredFile,
    DiscoveredModule, FoundFile, FoundModule,
};
use crate::text::{chars_of, copy_texts, same_text, text_between, texts};
use crate::tree::ProgramTree;

verus! {

/// A file of a project: its logical path and identity, and what the naming rules
/// of modules make of it, relative to the project's scope and to each library.
#[derive(Debug)]
pub struct ProjectFile {
    pub path: String,
    pub file_id: u32,
    pub in_scope: Result<Option<Vec<String>>, String>,
    pub in_libraries: Vec<Result<Option<Vec<String>>, String>>,
}

/// A library of declarations: the name of its module and the logical path below
/// which its files lie.
#[derive(Debug)]
pub struct LibraryMount {
    pub name: String,
    pub base: String,
}

// ---------------------------------------------------------------------------
// Logical paths.
// ---------------------------------------------------------------------------

/// A path relative to a base that it lies below.
pub open spec fn below(path: Seq<char>, base: Seq<char>) -> Option<Seq<char>> {
    if base.len() == 0 {
        Some(path)
    } else if path == base {
        Some(Seq::empty())
    } else if path.len() > base.len() && path.take(base.len() as int) == base
        && path[base.len() as int] == '/' {
        Some(path.skip(base.len() as int + 1))
    } else {
        None
    }
}

/// Whether the last name of a path has an extension.
pub open spec fn has_extension(path: Seq<char>, extension: Seq<char>) -> bool {
    let dot = path.len() - extension.len() - 1;
    dot > 0 && path[dot] == '.' && path[dot - 1] != '/' && path.skip(dot + 1) == extension
}

/// The position of the last slash among the first `n` characters, or zero.
pub open spec fn last_slash(path: Seq<char>, n: int) -> int
    decreases n,
{
    if n <= 0 || n > path.len() {
        0
    } else if path[n - 1] == '/' {
        n - 1
    } else {
        last_slash(path, n - 1)
    }
}

/// The path of the directory that holds a file.
pub open spec fn directory_of(path: Seq<char>) -> Seq<char> {
    path.take(last_slash(path, path.len() as int))
}

fn cut_below(path: &str, base: &str) -> (r: Option<String>)
    ensures
        match r {
            Some(rest) => below(path@, base@) == Some(rest@),
            None => below(path@, base@) is None,
        },
{
    let long = chars_of(path);
    let short = chars_of(base);
    if short.len() == 0 {
        return Some(path.to_string());
    }
    if same_text(path, base) {
        let rest = String::new();
        proof {
            assert(rest@ =~= Seq::empty());
        }
        return Some(rest);
    }
    if long.len() <= short.len() {
        return None;
    }
    let mut i: usize = 0;
    while i < short.len()
        invariant
            i <= short.len() < long.len(),
            long@ == path@,
            short@ == base@,
            forall|k: int| 0 <= k < i ==> #[trigger] long@[k] == short@[k],
        decreases short.len() - i,
    {
        if long[i] != short[i] {
            proof {
                assert(path@.take(base@.len() as int)[i as int] != base@[i as int]);
            }
            return None;
        }
        i += 1;
    }
    proof {
        assert(path@.take(base@.len() as int) =~= base@);
    }
    if long[short.len()] != '/' {
        return None;
    }
    let rest = text_between(&long, short.len() + 1, long.len());
    proof {
        assert(path@.skip(base@.len() as int + 1) =~= rest@);
    }
    Some(rest)
}

/// Tests whether the last name of a path has an extension.
pub fn ends_with_extension(path: &str, extension: &str) -> (r: bool)
    ensures
        r == has_extension(path@, extension@),
{
    let name = chars_of(path);
    let suffix = chars_of(extension);
    if name.len() < suffix.len() || name.len() - suffix.len() < 2 {
        return false;
    }
    let dot = name.len() - suffix.len() - 1;
    if name[dot] != '.' || name[dot - 1] == '/' {
        return false;
    }
    let tail = text_between(&name, dot + 1, name.len());
    proof {
        assert(tail@ =~= path@.skip(dot + 1));
    }
    same_text(tail.as_str(), extension)
}

/// The path of the directory that holds a file.
pub fn parent_directory(path: &str) -> (r: String)
    ensures
        r@ == directory_of(path@),
{
    let chars = chars_of(path);
    let mut n: usize = chars.len();
    while n > 0 && chars[n - 1] != '/'
        invariant
            n <= chars.len(),
            chars@ == path@,
            last_slash(path@, n as int) == last_slash(path@, path@.len() as int),
        decreases n,
    {
        n -= 1;
    }
    let end = if n > 0 {
        n - 1
    } else {
        0
    };
    let out = text_between(&chars, 0, end);
    proof {
        assert(out@ =~= path@.take(end as int));
    }
    out
}

// ---------------------------------------------------------------------------
// Discovery.
// ---------------------------------------------------------------------------

/// The tree with one more file, or what stops it.
pub open spec fn with_project_file(
    module: FoundModule,
    segments: Result<Seq<Seq<char>>, DiagModel>,
    file: FoundFile,
) -> Result<FoundModule, DiagModel> {
    match segments {
        Err(error) => Err(error),
        Ok(segments) => match with_file(module, segments, 0, file) {
            Ok(after) => Ok(after),
            Err(message) => Err(bare_diag(DiagnosticCode::NameAmbiguousImport, message)),
        },
    }
}

/// The tree with one more file of the scope, where it is one. Sources come before
/// declarations.
pub open spec fn with_scope_file(
    module: FoundModule,
    file: ProjectFile,
    root: u32,
    scope: Seq<char>,
) -> Result<FoundModule, DiagModel> {
    match below(file.path@, scope) {
        None => Ok(module),
        Some(relative) => {
            let declared = has_extension(relative, "ruai"@);
            if file.file_id == root || !(declared || has_extension(relative, "rua"@)) {
                Ok(module)
            } else {
                with_project_file(
                    module,
                    module_segments(found_model(file.in_scope), relative, false),
                    FoundFile {
                        file_id: file.file_id,
                        display: file.path@,
                        is_declaration: declared,
                        precedence: if declared {
                            1
                        } else {
                            0
                        },
                    },
                )
            }
        },
    }
}

/// The tree with the files `files[from..]` of the scope.
pub open spec fn with_scope(
    module: FoundModule,
    files: Seq<ProjectFile>,
    root: u32,
    scope: Seq<char>,
    from: int,
) -> Result<FoundModule, DiagModel>
    decreases files.len() - from,
{
    if from < 0 || from >= files.len() {
        Ok(module)
    } else {
        match with_scope_file(module, files[from], root, scope) {
            Ok(next) => with_scope(next, files, root, scope, from + 1),
            Err(error) => Err(error),
        }
    }
}

/// The module path of a file of a library: below the library's name.
pub open spec fn library_segments(
    name: Seq<char>,
    found: Result<Option<Seq<Seq<char>>>, Seq<char>>,
    relative: Seq<char>,
) -> Result<Seq<Seq<char>>, DiagModel> {
    match module_segments(found, relative, true) {
        Ok(path) => Ok(seq![name] + path),
        Err(error) => Err(error),
    }
}

/// The tree with one more file of a library, where it is one. Only declarations
/// are; an earlier library comes before a later one, and the scope before all.
pub open spec fn with_library_file(
    module: FoundModule,
    file: ProjectFile,
    library: LibraryMount,
    index: int,
) -> Result<FoundModule, DiagModel> {
    match below(file.path@, library.base@) {
        None => Ok(module),
        Some(relative) => if !has_extension(relative, "ruai"@) {
            Ok(module)
        } else {
            with_project_file(
                module,
                library_segments(library.name@, found_model(file.in_libraries@[index]), relative),
                FoundFile {
                    file_id: file.file_id,
                    display: file.path@,
                    is_declaration: true,
                    precedence: (index + 2) as nat,
                },
            )
        },
    }
}

/// The tree with the files `files[from..]` of a library.
pub open spec fn with_library(
    module: FoundModule,
    files: Seq<ProjectFile>,
    library: LibraryMount,
    index: int,
    from: int,
) -> Result<FoundModule, DiagModel>
    decreases files.len() - from,
{
    if from < 0 || from >= files.len() {
        Ok(module)
    } else {
        match with_library_file(module, files[from], library, index) {
            Ok(next) => with_library(next, files, library, index, from + 1),
            Err(error) => Err(error),
        }
    }
}

/// The tree with the libraries `libraries[index..]`.
pub open spec fn with_libraries(
    module: FoundModule,
    files: Seq<ProjectFile>,
    libraries: Seq<LibraryMount>,
    index: int,
) -> Result<FoundModule, DiagModel>
    decreases libraries.len() - index,
{
    if index < 0 || index >= libraries.len() {
        Ok(module)
    } else {
        match with_library(module, files, libraries[index], index, 0) {
            Ok(next) => with_libraries(next, files, libraries, index + 1),
            Err(error) => Err(error),
        }
    }
}

/// The modules of a project: the files of its scope but for the root, and the
/// declarations of its libraries.
pub open spec fn project_modules(
    files: Seq<ProjectFile>,
    root: u32,
    scope: Seq<char>,
    libraries: Seq<LibraryMount>,
) -> Result<FoundModule, DiagModel> {
    match with_scope(nothing_found(), files, root, scope, 0) {
        Ok(module) => with_libraries(module, files, libraries, 0),
        Err(error) => Err(error),
    }
}

/// Whether the naming rules were asked about every file and every library.
pub open spec fn all_named(files: Seq<ProjectFile>, libraries: nat) -> bool {
    forall|i: int| 0 <= i < files.len() ==> (#[trigger] files[i]).in_libraries@.len() == libraries
}

fn copy_found(found: &Result<Option<Vec<String>>, String>) -> (r: Result<
    Option<Vec<String>>,
    String,
>)
    ensures
        found_model(r) == found_model(*found),
{
    match found {
        Ok(Some(path)) => Ok(Some(copy_texts(path))),
        Ok(None) => Ok(None),
        Err(message) => Err(message.clone()),
    }
}

/// Puts a file into the tree of modules.
pub fn place_file(
    module: DiscoveredModule,
    segments: &Vec<String>,
    file: DiscoveredFile,
) -> (r: Result<DiscoveredModule, Diag>)
    ensures
        match r {
            Ok(after) => with_project_file(module.model(), Ok(texts(segments@)), file.model())
                == Ok::<FoundModule, DiagModel>(after.model()),
            Err(error) => with_project_file(module.model(), Ok(texts(segments@)), file.model())
                == Err::<FoundModule, DiagModel>(error.model()),
        },
{
    insert_discovered_file(module, segments, file)
}

fn place_scope_file(
    module: DiscoveredModule,
    file: &ProjectFile,
    root: u32,
    scope: &str,
) -> (r: Result<DiscoveredModule, Diag>)
    ensures
        match r {
            Ok(after) => with_scope_file(module.model(), *file, root, scope@) == Ok::<
                FoundModule,
                DiagModel,
            >(after.model()),
            Err(error) => with_scope_file(module.model(), *file, root, scope@) == Err::<
                FoundModule,
                DiagModel,
            >(error.model()),
        },
{
    let relative = match cut_below(file.path.as_str(), scope) {
        Some(relative) => relative,
        None => {
            return Ok(module);
        },
    };
    let declared = ends_with_extension(relative.as_str(), "ruai");
    if file.file_id == root || !(declared || ends_with_extension(relative.as_str(), "rua")) {
        return Ok(module);
    }
    let segments = match module_path_with_root(
        copy_found(&file.in_scope),
        relative.as_str(),
        false,
    ) {
        Ok(segments) => segments,
        Err(error) => {
            return Err(error);
        },
    };
    place_file(
        module,
        &segments,
        DiscoveredFile {
            file_id: file.file_id,
            display: file.path.clone(),
            is_declaration: declared,
            precedence: if declared {
                1
            } else {
                0
            },
        },
    )
}

fn place_library_file(
    module: DiscoveredModule,
    file: &ProjectFile,
    library: &LibraryMount,
    index: usize,
) -> (r: Result<DiscoveredModule, Diag>)
    requires
        index < file.in_libraries@.len(),
        index + 2 <= usize::MAX,
    ensures
        match r {
            Ok(after) => with_library_file(module.model(), *file, *library, index as int) == Ok::<
                FoundModule,
                DiagModel,
            >(after.model()),
            Err(error) => with_library_file(module.model(), *file, *library, index as int)
                == Err::<FoundModule, DiagModel>(error.model()),
        },
{
    let relative = match cut_below(file.path.as_str(), library.base.as_str()) {
        Some(relative) => relative,
        None => {
            return Ok(module);
        },
    };
    if !ends_with_extension(relative.as_str(), "ruai") {
        return Ok(module);
    }
    let found = copy_found(&file.in_libraries[index]);
    let mut path = match module_path_with_root(found, relative.as_str(), true) {
        Ok(path) => path,
        Err(error) => {
            return Err(error);
        },
    };
    let ghost inner = path@;
    let mut segments: Vec<String> = Vec::new();
    segments.push(library.name.clone());
    segments.append(&mut path);
    proof {
        assert(texts(segments@) =~= seq![library.name@] + texts(inner));
    }
    place_file(
        module,
        &segments,
        DiscoveredFile {
            file_id: file.file_id,
            display: file.path.clone(),
            is_declaration: true,
            precedence: index + 2,
        },
    )
}

/// Finds the modules of a project among its files.
pub fn discover_project(
    files: &Vec<ProjectFile>,
    root: u32,
    scope: &str,
    libraries: &Vec<LibraryMount>,
) -> (r: Result<DiscoveredModule, Diag>)
    requires
        all_named(files@, libraries@.len()),
        libraries@.len() + 2 <= usize::MAX,
    ensures
        match r {
            Ok(found) => project_modules(files@, root, scope@, libraries@) == Ok::<
                FoundModule,
                DiagModel,
            >(found.model()),
            Err(error) => project_modules(files@, root, scope@, libraries@) == Err::<
                FoundModule,
                DiagModel,
            >(error.model()),
        },
{
    let mut found = DiscoveredModule::new();
    let mut i: usize = 0;
    while i < files.len()
        invariant
            i <= files.len(),
            with_scope(found.model(), files@, root, scope@, i as int) == with_scope(
                nothing_found(),
                files@,
                root,
                scope@,
                0,
            ),
        decreases files.len() - i,
    {
        found = match place_scope_file(found, &files[i], root, scope) {
            Ok(next) => next,
            Err(error) => {
                return Err(error);
            },
        };
        i += 1;
    }
    let ghost scoped = found.model();
    let mut index: usize = 0;
    while index < libraries.len()
        invariant
            index <= libraries.len(),
            libraries@.len() + 2 <= usize::MAX,
            all_named(files@, libraries@.len()),
            with_scope(nothing_found(), files@, root, scope@, 0) == Ok::<FoundModule, DiagModel>(
                scoped,
            ),
            with_libraries(found.model(), files@, libraries@, index as int) == with_libraries(
                scoped,
                files@,
                libraries@,
                0,
            ),
        decreases libraries.len() - index,
    {
        let ghost before = found.model();
        let mut k: usize = 0;
        while k < files.len()
            invariant
                k <= files.len(),
                index < libraries.len(),
                libraries@.len() + 2 <= usize::MAX,
                all_named(files@, libraries@.len()),
                with_scope(nothing_found(), files@, root, scope@, 0) == Ok::<
                    FoundModule,
                    DiagModel,
                >(scoped),
                with_libraries(before, files@, libraries@, index as int) == with_libraries(
                    scoped,
                    files@,
                    libraries@,
                    0,
                ),
                with_library(
                    found.model(),
                    files@,
                    libraries@[index as int],
                    index as int,
                    k as int,
                ) == with_library(before, files@, libraries@[index as int], index as int, 0),
            decreases files.len() - k,
        {
            found = match place_library_file(found, &files[k], &libraries[index], index) {
                Ok(next) => next,
                Err(error) => {
                    return Err(error);
                },
            };
            k += 1;
        }
        index += 1;
    }
    Ok(found)
}

// ---------------------------------------------------------------------------
// Loading.
// ---------------------------------------------------------------------------

/// The first of `files[from..]` with an identity.
pub open spec fn file_with(files: Seq<ProjectFile>, id: u32, from: int) -> Option<Seq<char>>
    decreases files.len() - from,
{
    if from < 0 || from >= files.len() {
        None
    } else if files[from].file_id == id {
        Some(files[from].path@)
    } else {
        file_with(files, id, from + 1)
    }
}

/// The error of a project without its root.
pub open spec fn missing_root() -> DiagModel {
    bare_diag(
        DiagnosticCode::HostProjectInvalid,
        "project root_file is not present in ProjectSpec.files"@,
    )
}

/// A project's program with all its modules, or what stops it, and the file
/// registry afterwards. The scope is the directory of the root.
pub open spec fn loaded_project(
    loaded: Seq<LoadedFile>,
    project: Seq<ProjectFile>,
    root: u32,
    libraries: Seq<LibraryMount>,
) -> (Seq<Seq<char>>, Result<ProgramTree, DiagModel>) {
    match file_with(project, root, 0) {
        None => (Seq::empty(), Err(missing_root())),
        Some(path) => {
            let is_decl = has_suffix(path, ".ruai"@);
            let file = FoundFile {
                file_id: root,
                display: path,
                is_declaration: is_decl,
                precedence: 0,
            };
            match loaded_program(loaded, FilePlaces::Given, file, Seq::empty()) {
                (files, Err(error)) => (files, Err(error)),
                (files, Ok((parsed, _))) => match project_modules(
                    project,
                    root,
                    directory_of(path),
                    libraries,
                ) {
                    Err(error) => (files, Err(error)),
                    Ok(found) => match materialized_below(
                        loaded,
                        FilePlaces::Given,
                        found.children,
                        0,
                        parsed.items,
                        Seq::empty(),
                        files,
                    ) {
                        (after, Err(error)) => (after, Err(error)),
                        (after, Ok((items, entries))) => {
                            let program = ProgramTree {
                                items,
                                source_order: entries + parsed.source_order,
                                is_decl,
                                ..parsed
                            };
                            if !is_decl {
                                (after, Ok(program))
                            } else {
                                match contents_error(program.items, program.chunk, root) {
                                    Some(error) => (after, Err(error)),
                                    None => (
                                        after,
                                        Ok(
                                            ProgramTree {
                                                items: marked_items(program.items),
                                                ..program
                                            },
                                        ),
                                    ),
                                }
                            }
                        },
                    },
                },
            }
        },
    }
}

/// Whether a text ends with another.
pub open spec fn has_suffix(text: Seq<char>, suffix: Seq<char>) -> bool {
    suffix.len() <= text.len() && text.skip(text.len() - suffix.len()) == suffix
}

fn ends_with(text: &str, suffix: &str) -> (r: bool)
    ensures
        r == has_suffix(text@, suffix@),
{
    let whole = chars_of(text);
    let short = chars_of(suffix);
    if short.len() > whole.len() {
        return false;
    }
    let tail = text_between(&whole, whole.len() - short.len(), whole.len());
    proof {
        assert(tail@ =~= text@.skip(text@.len() - suffix@.len()));
    }
    same_text(tail.as_str(), suffix)
}

/// Loads the root of a project and puts all modules of the project into it.
pub fn load_project(
    loaded: &Vec<LoadedFile>,
    project: &Vec<ProjectFile>,
    root: u32,
    libraries: &Vec<LibraryMount>,
) -> (r: Result<(Program, Vec<String>), CompileFailure>)
    requires
        streams_end(loaded@),
        all_named(project@, libraries@.len()),
        libraries@.len() + 2 <= usize::MAX,
    ensures
        match r {
            Ok((program, files)) => loaded_project(loaded@, project@, root, libraries@) == (
                texts(files@),
                Ok::<ProgramTree, DiagModel>(program.tree()),
            ),
            Err(failure) => failure.model().diagnostics.len() == 1 && loaded_project(
                loaded@,
                project@,
                root,
                libraries@,
            ) == (
                failure.model().files,
                Err::<ProgramTree, DiagModel>(failure.model().diagnostics[0]),
            ),
        },
{
    let mut files: Vec<String> = Vec::new();
    proof {
        assert(texts(files@) =~= Seq::empty());
    }
    let mut k: usize = 0;
    while k < project.len() && project[k].file_id != root
        invariant
            k <= project.len(),
            file_with(project@, root, k as int) == file_with(project@, root, 0),
        decreases project.len() - k,
    {
        k += 1;
    }
    if k >= project.len() {
        return Err(
            CompileFailure::single(
                Diag::bare(
                    DiagnosticCode::HostProjectInvalid,
                    "project root_file is not present in ProjectSpec.files".to_string(),
                ),
                files,
            ),
        );
    }
    let path = project[k].path.as_str();
    let is_decl = ends_with(path, ".ruai");
    let file = DiscoveredFile {
        file_id: root,
        display: path.to_string(),
        is_declaration: is_decl,
        precedence: 0,
    };
    let mut program = match load_program(loaded, FilePlaces::Given, &file, &mut files) {
        Ok((program, _)) => program,
        Err(error) => {
            return Err(CompileFailure::single(error, files));
        },
    };
    let scope = parent_directory(path);
    let found = match discover_project(project, root, scope.as_str(), libraries) {
        Ok(found) => found,
        Err(error) => {
            return Err(CompileFailure::single(error, files));
        },
    };
    program.is_decl = is_decl;
    if let Err(error) = materialize_modules(
        &mut program,
        loaded,
        FilePlaces::Given,
        found,
        &mut files,
    ) {
        return Err(CompileFailure::single(error, files));
    }
    if is_decl {
        if let Err(error) = validate_declaration_program(&program, root) {
            return Err(CompileFailure::single(error, files));
        }
        mark_decl(&mut program.items);
    }
    Ok((program, files))
}

/// A file that lies neither in the scope nor below a library, or that is the root
/// itself outside all libraries, takes no part in a project.
pub proof fn law_other_files_take_no_part(
    files: Seq<ProjectFile>,
    at: int,
    root: u32,
    scope: Seq<char>,
    libraries: Seq<LibraryMount>,
)
    requires
        0 <= at < files.len(),
        files[at].file_id == root || below(files[at].path@, scope) is None,
        forall|k: int|
            0 <= k < libraries.len() ==> below(
                files[at].path@,
                (#[trigger] libraries[k]).base@,
            ) is None,
    ensures
        project_modules(files, root, scope, libraries) == project_modules(
            files.remove(at),
            root,
            scope,
            libraries,
        ),
{
    lemma_scope_without(nothing_found(), files, at, root, scope, 0);
    if let Ok(module) = with_scope(nothing_found(), files, root, scope, 0) {
        lemma_libraries_without(module, files, at, libraries, 0);
    }
}

proof fn lemma_scope_without(
    module: FoundModule,
    files: Seq<ProjectFile>,
    at: int,
    root: u32,
    scope: Seq<char>,
    from: int,
)
    requires
        0 <= at < files.len(),
        0 <= from,
        files[at].file_id == root || below(files[at].path@, scope) is None,
    ensures
        with_scope(module, files, root, scope, from) == with_scope(
            module,
            files.remove(at),
            root,
            scope,
            if from <= at {
                from
            } else {
                from - 1
            },
        ),
    decreases files.len() - from,
{
    if from < files.len() {
        if from == at {
            lemma_scope_without(module, files, at, root, scope, from + 1);
        } else if let Ok(next) = with_scope_file(module, files[from], root, scope) {
            lemma_scope_without(next, files, at, root, scope, from + 1);
        }
    }
}

proof fn lemma_library_without(
    module: FoundModule,
    files: Seq<ProjectFile>,
    at: int,
    library: LibraryMount,
    index: int,
    from: int,
)
    requires
        0 <= at < files.len(),
        0 <= from,
        below(files[at].path@, library.base@) is None,
    ensures
        with_library(module, files, library, index, from) == with_library(
            module,
            files.remove(at),
            library,
            index,
            if from <= at {
                from
            } else {
                from - 1
            },
        ),
    decreases files.len() - from,
{
    if from < files.len() {
        if from == at {
            lemma_library_without(module, files, at, library, index, from + 1);
        } else if let Ok(next) = with_library_file(module, files[from], library, index) {
            lemma_library_without(next, files, at, library, index, from + 1);
        }
    }
}

proof fn lemma_libraries_without(
    module: FoundModule,
    files: Seq<ProjectFile>,
    at: int,
    libraries: Seq<LibraryMount>,
    index: int,
)
    requires
        0 <= at < files.len(),
        forall|k: int|
            0 <= k < libraries.len() ==> below(
                files[at].path@,
                (#[trigger] libraries[k]).base@,
            ) is None,
    ensures
        with_libraries(module, files, libraries, index) == with_libraries(
            module,
            files.remove(at),
            libraries,
            index,
        ),
    decreases libraries.len() - index,
{
    if 0 <= index < libraries.len() {
        lemma_library_without(module, files, at, libraries[index], index, 0);
        if let Ok(next) = with_library(module, files, libraries[index], index, 0) {
            lemma_libraries_without(next, files, at, libraries, index + 1);
        }
    }
}

} // verus!
