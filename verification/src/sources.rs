//! Module files that were found below roots: the sources around a program, its
//! declarations, and declaration libraries.

use vstd::prelude::*;

use crate::diag::{Diag, DiagModel};
use crate::project::{place_file, with_project_file};
use crate::resolve::{
    found_model, module_path_with_root, module_segments, nothing_found, DiscoveredFile,
    DiscoveredModule, FoundFile, FoundModule,
};
use crate::text::{copy_texts, texts};

verus! {

/// A file below a root: its path as messages show it, alone and relative to the
/// root, and what the naming rules of modules make of it. A library that is a
/// single file under a name of its own needs no naming.
#[derive(Debug)]
pub struct SourceFile {
    pub file_id: u32,
    pub display: String,
    pub relative: String,
    pub named: Option<Result<Option<Vec<String>>, String>>,
}

/// A root with its files in the order in which they were met, each a file or what
/// kept it from being read. Its modules lie below a prefix.
#[derive(Debug)]
pub struct SourceRoot {
    pub prefix: Vec<String>,
    pub is_declaration: bool,
    pub files: Vec<Result<SourceFile, Diag>>,
}

/// The module path of a file below a root. A file at the root stands for a module
/// only below a prefix.
pub open spec fn source_segments(prefix: Seq<Seq<char>>, file: SourceFile) -> Result<
    Seq<Seq<char>>,
    DiagModel,
> {
    match file.named {
        None => Ok(prefix),
        Some(found) => match module_segments(
            found_model(found),
            file.relative@,
            prefix.len() > 0,
        ) {
            Ok(path) => Ok(prefix + path),
            Err(error) => Err(error),
        },
    }
}

/// The tree with the files `files[from..]` of a root. The earlier of two roots has
/// the smaller precedence.
pub open spec fn with_source_files(
    module: FoundModule,
    root: SourceRoot,
    index: int,
    from: int,
) -> Result<FoundModule, DiagModel>
    decreases root.files@.len() - from,
{
    if from < 0 || from >= root.files@.len() {
        Ok(module)
    } else {
        match root.files@[from] {
            Err(error) => Err(error.model()),
            Ok(file) => match with_project_file(
                module,
                source_segments(texts(root.prefix@), file),
                FoundFile {
                    file_id: file.file_id,
                    display: file.display@,
                    is_declaration: root.is_declaration,
                    precedence: index as nat,
                },
            ) {
                Ok(next) => with_source_files(next, root, index, from + 1),
                Err(error) => Err(error),
            },
        }
    }
}

/// The tree with the files of the roots `roots[index..]`.
pub open spec fn with_source_roots(module: FoundModule, roots: Seq<SourceRoot>, index: int) -> Result<
    FoundModule,
    DiagModel,
>
    decreases roots.len() - index,
{
    if index < 0 || index >= roots.len() {
        Ok(module)
    } else {
        match with_source_files(module, roots[index], index, 0) {
            Ok(next) => with_source_roots(next, roots, index + 1),
            Err(error) => Err(error),
        }
    }
}

fn segments_of(prefix: &Vec<String>, named: Option<Result<Option<Vec<String>>, String>>, relative: &str) -> (r:
    Result<Vec<String>, Diag>)
    ensures
        match (r, named) {
            (Ok(path), None) => texts(path@) == texts(prefix@),
            (Ok(path), Some(found)) => module_segments(
                found_model(found),
                relative@,
                prefix@.len() > 0,
            ) matches Ok(inner) && texts(path@) == texts(prefix@) + inner,
            (Err(error), Some(found)) => module_segments(
                found_model(found),
                relative@,
                prefix@.len() > 0,
            ) == Err::<Seq<Seq<char>>, DiagModel>(error.model()),
            (Err(_), None) => false,
        },
{
    let mut path = copy_texts(prefix);
    if let Some(found) = named {
        let ghost outer = path@;
        let mut inner = match module_path_with_root(found, relative, prefix.len() > 0) {
            Ok(inner) => inner,
            Err(error) => {
                return Err(error);
            },
        };
        let ghost behind = inner@;
        path.append(&mut inner);
        proof {
            assert(texts(path@) =~= texts(outer) + texts(behind));
        }
    }
    Ok(path)
}

fn place_root(module: DiscoveredModule, root: SourceRoot, index: usize) -> (r: Result<
    DiscoveredModule,
    Diag,
>)
    ensures
        match r {
            Ok(after) => with_source_files(module.model(), root, index as int, 0) == Ok::<
                FoundModule,
                DiagModel,
            >(after.model()),
            Err(error) => with_source_files(module.model(), root, index as int, 0) == Err::<
                FoundModule,
                DiagModel,
            >(error.model()),
        },
{
    let ghost whole = root;
    let ghost start = module.model();
    let prefix = root.prefix;
    let is_declaration = root.is_declaration;
    let list = root.files;
    let ghost files = list@;
    let mut found = module;
    for entry in it: list
        invariant
            it.seq() == files,
            files == whole.files@,
            prefix == whole.prefix,
            is_declaration == whole.is_declaration,
            start == module.model(),
            whole == root,
            with_source_files(found.model(), whole, index as int, it.index() as int)
                == with_source_files(start, whole, index as int, 0),
    {
        let ghost n = it.index() as int;
        proof {
            assert(entry == files[n]);
            assert(texts(prefix@).len() == prefix@.len());
        }
        let file = match entry {
            Ok(file) => file,
            Err(error) => {
                return Err(error);
            },
        };
        let segments = match segments_of(&prefix, file.named, file.relative.as_str()) {
            Ok(segments) => segments,
            Err(error) => {
                return Err(error);
            },
        };
        let ghost before = found.model();
        found = match place_file(
            found,
            &segments,
            DiscoveredFile {
                file_id: file.file_id,
                display: file.display,
                is_declaration,
                precedence: index,
            },
        ) {
            Ok(next) => next,
            Err(error) => {
                return Err(error);
            },
        };
        proof {
            assert(with_source_files(before, whole, index as int, n) == with_source_files(
                found.model(),
                whole,
                index as int,
                n + 1,
            ));
        }
    }
    Ok(found)
}

/// Puts the files of all roots into one tree of modules. The first thing that is
/// wrong with a file stops it.
pub fn discover_sources(roots: Vec<SourceRoot>) -> (r: Result<DiscoveredModule, Diag>)
    ensures
        match r {
            Ok(found) => with_source_roots(nothing_found(), roots@, 0) == Ok::<
                FoundModule,
                DiagModel,
            >(found.model()),
            Err(error) => with_source_roots(nothing_found(), roots@, 0) == Err::<
                FoundModule,
                DiagModel,
            >(error.model()),
        },
{
    let ghost all = roots@;
    let mut found = DiscoveredModule::new();
    let mut index: usize = 0;
    let total = roots.len();
    for root in it: roots
        invariant
            it.seq() == all,
            all == roots@,
            total == all.len(),
            index == it.index(),
            with_source_roots(found.model(), all, index as int) == with_source_roots(
                nothing_found(),
                all,
                0,
            ),
    {
        let ghost before = found.model();
        proof {
            assert(root == all[index as int]);
        }
        found = match place_root(found, root, index) {
            Ok(next) => next,
            Err(error) => {
                return Err(error);
            },
        };
        proof {
            assert(with_source_roots(before, all, index as int) == with_source_roots(
                found.model(),
                all,
                index + 1,
            ));
        }
        index += 1;
    }
    Ok(found)
}

} // verus!
