//! Module trees from discovered files: every file becomes a module with the
//! modules below it, and the file registry keeps the path of every file.

use vstd::prelude::*;

use crate::ast::{Attribute, Block, ChunkEntry, Item, ModDecl, Program};
use crate::diag::{bare_diag, Diag, DiagModel, DiagnosticCode};
use crate::parser::grammar::{empty_block_tree, Failure};
use crate::parser::pieces::empty_block;
use crate::parser::program::{parse_stream_within, program_within};
use crate::parser::state::{default_budget, ParseBudget, ParseError};
use crate::resolve::{
    children_model, contents_error, mark_decl, marked_items, validate_declaration_contents,
    DiscoveredFile, DiscoveredModule, FoundFile, FoundModule,
};
use crate::stamp::{program_in_file, set_file_program};
use crate::text::{cat2, cat4, texts};
use crate::token::RuaTokenKind;
use crate::tokenize::StrictTokenStream;
use crate::tree::{attributes_tree, items_tree, BlockTree, ItemTree, ModDeclTree, ProgramTree};

verus! {

/// A source file as the host read it: its tokens, or why it could not be read.
#[derive(Debug)]
pub struct LoadedFile {
    pub file_id: u32,
    pub stream: Result<StrictTokenStream, String>,
}

/// How files get their place in the registry.
#[derive(Clone, Copy, Debug, PartialEq, Eq, Structural)]
pub enum FilePlaces {
    /// One behind the other, in the order in which they are read.
    InOrder,
    /// By the identity that the project gave them.
    Given,
}

/// The position of a file among the loaded ones.
pub open spec fn loaded_position(loaded: Seq<LoadedFile>, id: u32, from: int) -> int
    decreases loaded.len() - from,
{
    if from < 0 || from >= loaded.len() || loaded[from].file_id == id {
        from
    } else {
        loaded_position(loaded, id, from + 1)
    }
}

/// The streams of the loaded files end.
pub open spec fn streams_end(loaded: Seq<LoadedFile>) -> bool {
    forall|k: int|
        0 <= k < loaded.len() ==> match (#[trigger] loaded[k]).stream {
            Ok(stream) => stream.end.kind == RuaTokenKind::Eof,
            Err(_) => true,
        }
}

/// The registry with a path at a place.
pub open spec fn registered(files: Seq<Seq<char>>, place: nat, path: Seq<char>) -> Seq<Seq<char>> {
    Seq::new(
        if place < files.len() {
            files.len()
        } else {
            place + 1
        },
        |i: int|
            if i == place {
                path
            } else if i < files.len() {
                files[i]
            } else {
                Seq::empty()
            },
    )
}

/// A parse failure as a diagnostic.
pub open spec fn parse_diag(failure: Failure) -> DiagModel {
    DiagModel {
        diagnostic: failure.diagnostic,
        line: failure.line,
        msg: "parse error: "@ + failure.message,
    }
}

/// The error of a file that could not be read.
pub open spec fn read_error(display: Seq<char>, reason: Seq<char>, places: FilePlaces) -> DiagModel {
    bare_diag(
        DiagnosticCode::HostSourceRead,
        if places == FilePlaces::Given {
            "reading `"@ + display + "`: "@ + reason
        } else {
            "reading "@ + display + ": "@ + reason
        },
    )
}

/// The stamped tree of a file, its place, and the registry behind it.
pub open spec fn loaded_program(
    loaded: Seq<LoadedFile>,
    places: FilePlaces,
    file: FoundFile,
    files: Seq<Seq<char>>,
) -> (Seq<Seq<char>>, Result<(ProgramTree, u32), DiagModel>) {
    let given = places == FilePlaces::Given;
    let place = if given {
        file.file_id
    } else {
        files.len() as u32
    };
    let after = if given {
        registered(files, file.file_id as nat, file.display)
    } else {
        files.push(file.display)
    };
    let k = loaded_position(loaded, file.file_id, 0);
    if k >= loaded.len() {
        (
            if given {
                after
            } else {
                files
            },
            Err(read_error(file.display, "source was not loaded"@, places)),
        )
    } else {
        match loaded[k].stream {
            Err(reason) => (
                if given {
                    after
                } else {
                    files
                },
                Err(read_error(file.display, reason@, places)),
            ),
            Ok(stream) => (
                after,
                match program_within(stream, place, default_budget()) {
                    Ok(program) => Ok((program_in_file(program, place), place)),
                    Err(failure) => Err(parse_diag(failure)),
                },
            ),
        }
    }
}

/// Whether all items are declaration modules.
pub open spec fn all_declarations(items: Seq<ItemTree>, from: int) -> bool
    decreases items.len() - from,
{
    from < 0 || from >= items.len() || (items[from] is Mod && items[from]->Mod_0.is_decl
        && all_declarations(items, from + 1))
}

/// The module that the parts make, or the error of a declaration file.
pub open spec fn assembled(
    name: Seq<char>,
    items: Seq<ItemTree>,
    chunk: BlockTree,
    source_order: Seq<ChunkEntry>,
    declared: bool,
    place: Option<u32>,
) -> Result<ModDeclTree, DiagModel> {
    let is_decl = declared || (items.len() > 0 && all_declarations(items, 0) && chunk.stmts.len()
        == 0);
    let wrong = if declared && place is Some {
        contents_error(items, chunk, place->0)
    } else {
        None
    };
    match wrong {
        Some(error) => Err(error),
        None => Ok(
            ModDeclTree {
                name,
                attributes: Seq::empty(),
                documentation: None,
                items: if is_decl {
                    marked_items(items)
                } else {
                    items
                },
                chunk,
                source_order,
                is_pub: true,
                is_file: true,
                is_decl,
            },
        ),
    }
}

/// The module of a discovered module.
pub open spec fn materialized(
    loaded: Seq<LoadedFile>,
    places: FilePlaces,
    name: Seq<char>,
    module: FoundModule,
    files: Seq<Seq<char>>,
) -> (Seq<Seq<char>>, Result<ModDeclTree, DiagModel>)
    decreases module, 1int, 0int,
{
    match module.source {
        Some(source) => {
            let (files, read) = loaded_program(loaded, places, source, files);
            match read {
                Err(error) => (files, Err(error)),
                Ok((program, place)) => {
                    let (files, below) = materialized_below(
                        loaded,
                        places,
                        module.children,
                        0,
                        program.items,
                        Seq::empty(),
                        files,
                    );
                    match below {
                        Err(error) => (files, Err(error)),
                        Ok((items, entries)) => (
                            files,
                            assembled(
                                name,
                                items,
                                program.chunk,
                                entries + program.source_order,
                                source.is_declaration,
                                Some(place),
                            ),
                        ),
                    }
                },
            }
        },
        None => {
            let (files, below) = materialized_below(
                loaded,
                places,
                module.children,
                0,
                Seq::empty(),
                Seq::empty(),
                files,
            );
            match below {
                Err(error) => (files, Err(error)),
                Ok((items, entries)) => (
                    files,
                    assembled(name, items, empty_block_tree(), entries, false, None),
                ),
            }
        },
    }
}

/// The items with the modules `children[from..]` behind them, and the entries of
/// those modules.
pub open spec fn materialized_below(
    loaded: Seq<LoadedFile>,
    places: FilePlaces,
    children: Seq<(Seq<char>, FoundModule)>,
    from: int,
    items: Seq<ItemTree>,
    entries: Seq<ChunkEntry>,
    files: Seq<Seq<char>>,
) -> (Seq<Seq<char>>, Result<(Seq<ItemTree>, Seq<ChunkEntry>), DiagModel>)
    decreases children, 0int, children.len() - from,
{
    if from < 0 || from >= children.len() {
        (files, Ok((items, entries)))
    } else {
        let (files, one) = materialized(loaded, places, children[from].0, children[from].1, files);
        match one {
            Err(error) => (files, Err(error)),
            Ok(module) => materialized_below(
                loaded,
                places,
                children,
                from + 1,
                items.push(ItemTree::Mod(module)),
                entries.push(ChunkEntry::Item(items.len() as usize)),
                files,
            ),
        }
    }
}

/// Whether no file of a module, or of a module below it, asks for the first place of
/// the registry.
pub open spec fn leaves_first_place(module: FoundModule) -> bool
    decreases module,
{
    &&& module.source matches Some(source) ==> source.file_id != 0
    &&& forall|i: int|
        0 <= i < module.children.len() ==> leaves_first_place((#[trigger] module.children[i]).1)
}

/// Loading a module leaves the first file of the registry where it is.
pub proof fn lemma_first_file_stays(
    loaded: Seq<LoadedFile>,
    places: FilePlaces,
    name: Seq<char>,
    module: FoundModule,
    files: Seq<Seq<char>>,
)
    requires
        files.len() > 0,
        places == FilePlaces::Given ==> leaves_first_place(module),
    ensures
        materialized(loaded, places, name, module, files).0.len() > 0,
        materialized(loaded, places, name, module, files).0[0] == files[0],
    decreases module, 1int, 0int,
{
    match module.source {
        Some(source) => {
            let (after, read) = loaded_program(loaded, places, source, files);
            assert(after.len() > 0 && after[0] == files[0]);
            if let Ok((program, _)) = read {
                lemma_first_file_stays_below(
                    loaded,
                    places,
                    module.children,
                    0,
                    program.items,
                    Seq::empty(),
                    after,
                );
            }
        },
        None => {
            lemma_first_file_stays_below(
                loaded,
                places,
                module.children,
                0,
                Seq::empty(),
                Seq::empty(),
                files,
            );
        },
    }
}

/// Loading modules leaves the first file of the registry where it is.
pub proof fn lemma_first_file_stays_below(
    loaded: Seq<LoadedFile>,
    places: FilePlaces,
    children: Seq<(Seq<char>, FoundModule)>,
    from: int,
    items: Seq<ItemTree>,
    entries: Seq<ChunkEntry>,
    files: Seq<Seq<char>>,
)
    requires
        files.len() > 0,
        places == FilePlaces::Given ==> forall|i: int|
            0 <= i < children.len() ==> leaves_first_place((#[trigger] children[i]).1),
    ensures
        materialized_below(loaded, places, children, from, items, entries, files).0.len() > 0,
        materialized_below(loaded, places, children, from, items, entries, files).0[0] == files[0],
    decreases children, 0int, children.len() - from,
{
    if 0 <= from < children.len() {
        assert(decreases_to!(children => children[from]));
        lemma_first_file_stays(loaded, places, children[from].0, children[from].1, files);
        let (after, one) = materialized(
            loaded,
            places,
            children[from].0,
            children[from].1,
            files,
        );
        if let Ok(module) = one {
            lemma_first_file_stays_below(
                loaded,
                places,
                children,
                from + 1,
                items.push(ItemTree::Mod(module)),
                entries.push(ChunkEntry::Item(items.len() as usize)),
                after,
            );
        }
    }
}

/// Puts a path at a place of the registry.
pub fn ensure_file_registry(files: &mut Vec<String>, place: u32, path: &str)
    ensures
        texts(final(files)@) == registered(texts(old(files)@), place as nat, path@),
{
    let ghost start = texts(files@);
    let index = place as usize;
    while files.len() <= index
        invariant
            start.len() <= files@.len(),
            files@.len() <= index || files@.len() <= start.len() || files@.len() == index + 1,
            forall|k: int| 0 <= k < start.len() ==> (#[trigger] files@[k])@ == start[k],
            forall|k: int|
                start.len() <= k < files@.len() ==> (#[trigger] files@[k])@ == Seq::<char>::empty(),
        decreases index + 1 - files@.len(),
    {
        let blank = String::new();
        proof {
            assert(blank@ =~= Seq::empty());
        }
        files.push(blank);
    }
    files.set(index, path.to_string());
    proof {
        assert(texts(files@) =~= registered(start, place as nat, path@));
    }
}

/// A parse error as a diagnostic.
pub fn parser_diagnostic(error: ParseError) -> (r: Diag)
    ensures
        r.model() == parse_diag(error.failure()),
{
    let message = cat2("parse error: ", error.message.as_str());
    Diag::from_structured(error.diagnostic, error.line, message)
}

fn unread_source(display: &str, reason: &str, places: FilePlaces) -> (r: Diag)
    ensures
        r.model() == read_error(display@, reason@, places),
{
    let message = if places == FilePlaces::Given {
        cat4("reading `", display, "`: ", reason)
    } else {
        cat4("reading ", display, ": ", reason)
    };
    Diag::bare(DiagnosticCode::HostSourceRead, message)
}

/// Loads the file of a module: parsed, stamped, and listed in the registry.
pub fn load_program(
    loaded: &Vec<LoadedFile>,
    places: FilePlaces,
    file: &DiscoveredFile,
    files: &mut Vec<String>,
) -> (r: Result<(Program, u32), Diag>)
    requires
        streams_end(loaded@),
    ensures
        (texts(final(files)@), match r {
            Ok((program, place)) => Ok::<(ProgramTree, u32), DiagModel>((program.tree(), place)),
            Err(error) => Err::<(ProgramTree, u32), DiagModel>(error.model()),
        }) == loaded_program(loaded@, places, file.model(), texts(old(files)@)),
{
    let ghost start = texts(files@);
    let given = places == FilePlaces::Given;
    if given {
        ensure_file_registry(files, file.file_id, file.display.as_str());
    }
    let mut k: usize = 0;
    while k < loaded.len() && loaded[k].file_id != file.file_id
        invariant
            k <= loaded.len(),
            loaded_position(loaded@, file.file_id, k as int) == loaded_position(
                loaded@,
                file.file_id,
                0,
            ),
        decreases loaded.len() - k,
    {
        k += 1;
    }
    if k >= loaded.len() {
        return Err(unread_source(file.display.as_str(), "source was not loaded", places));
    }
    match &loaded[k].stream {
        Err(reason) => Err(unread_source(file.display.as_str(), reason.as_str(), places)),
        Ok(stream) => {
            proof {
                assert(loaded@[k as int].stream == Ok::<StrictTokenStream, String>(*stream));
            }
            let place: u32 = if given {
                file.file_id
            } else {
                files.len() as u32
            };
            proof {
                assert(texts(files@).len() == files@.len());
            }
            if !given {
                files.push(file.display.clone());
                proof {
                    assert(texts(files@) =~= start.push(file.display@));
                }
            }
            match parse_stream_within(stream, place, ParseBudget::default()) {
                Ok(program) => {
                    let mut program = program;
                    set_file_program(&mut program, place);
                    Ok((program, place))
                },
                Err(error) => Err(parser_diagnostic(error)),
            }
        },
    }
}

fn only_declarations(items: &Vec<Item>) -> (r: bool)
    ensures
        r == all_declarations(items_tree(items@), 0),
{
    let ghost model = items_tree(items@);
    let mut i: usize = 0;
    while i < items.len()
        invariant
            i <= items.len(),
            model == items_tree(items@),
            all_declarations(model, i as int) == all_declarations(model, 0),
        decreases items.len() - i,
    {
        proof {
            assert(model[i as int] == items@[i as int].tree());
        }
        match &items[i] {
            Item::Mod(child) => {
                if !child.is_decl {
                    return false;
                }
            },
            _ => {
                return false;
            },
        }
        i += 1;
    }
    true
}

fn assemble(
    name: String,
    items: Vec<Item>,
    chunk: Block,
    source_order: Vec<ChunkEntry>,
    declared: bool,
    place: Option<u32>,
) -> (r: Result<ModDecl, Diag>)
    ensures
        match r {
            Ok(module) => assembled(
                name@,
                items_tree(items@),
                chunk.tree(),
                source_order@,
                declared,
                place,
            ) == Ok::<ModDeclTree, DiagModel>(module.tree()),
            Err(error) => assembled(
                name@,
                items_tree(items@),
                chunk.tree(),
                source_order@,
                declared,
                place,
            ) == Err::<ModDeclTree, DiagModel>(error.model()),
        },
{
    let mut items = items;
    proof {
        assert(items_tree(items@).len() == items@.len());
        assert(crate::tree::stmts_tree(chunk.stmts@).len() == chunk.stmts@.len());
    }
    let is_decl = declared || (items.len() > 0 && only_declarations(&items) && chunk.stmts.len()
        == 0);
    if declared {
        if let Some(place) = place {
            if let Err(error) = validate_declaration_contents(&items, &chunk, place) {
                return Err(error);
            }
        }
    }
    if is_decl {
        mark_decl(&mut items);
    }
    let attributes: Vec<Attribute> = Vec::new();
    proof {
        assert(attributes_tree(attributes@) =~= Seq::empty());
    }
    Ok(
        ModDecl {
            name,
            attributes,
            documentation: None,
            items,
            chunk,
            source_order,
            is_pub: true,
            is_file: true,
            is_decl,
        },
    )
}

/// The module of a discovered module.
pub fn materialize_module(
    loaded: &Vec<LoadedFile>,
    places: FilePlaces,
    name: String,
    module: DiscoveredModule,
    files: &mut Vec<String>,
) -> (r: Result<ModDecl, Diag>)
    requires
        streams_end(loaded@),
    ensures
        (texts(final(files)@), match r {
            Ok(made) => Ok::<ModDeclTree, DiagModel>(made.tree()),
            Err(error) => Err::<ModDeclTree, DiagModel>(error.model()),
        }) == materialized(loaded@, places, name@, module.model(), texts(old(files)@)),
    decreases module, 1int,
{
    let (items, chunk, order, declared, place) = match &module.source {
        Some(source) => match load_program(loaded, places, source, files) {
            Ok((program, place)) => (
                program.items,
                program.chunk,
                program.source_order,
                source.is_declaration,
                Some(place),
            ),
            Err(error) => {
                return Err(error);
            },
        },
        None => {
            let items: Vec<Item> = Vec::new();
            let order: Vec<ChunkEntry> = Vec::new();
            proof {
                assert(items_tree(items@) =~= Seq::empty());
            }
            (items, empty_block(), order, false, None)
        },
    };
    let ghost own = order@;
    let mut items = items;
    let mut order = order;
    let found = module.source;
    match materialize_below(loaded, places, module.children, &mut items, files) {
        Ok(entries) => {
            let mut entries = entries;
            let ghost below = entries@;
            entries.append(&mut order);
            proof {
                assert(entries@ =~= below + own);
                if found is None {
                    assert(below + own =~= below);
                }
            }
            assemble(name, items, chunk, entries, declared, place)
        },
        Err(error) => Err(error),
    }
}

/// Puts the modules behind the items and gives their entries.
pub fn materialize_below(
    loaded: &Vec<LoadedFile>,
    places: FilePlaces,
    children: Vec<(String, DiscoveredModule)>,
    items: &mut Vec<Item>,
    files: &mut Vec<String>,
) -> (r: Result<Vec<ChunkEntry>, Diag>)
    requires
        streams_end(loaded@),
    ensures
        match r {
            Ok(entries) => materialized_below(
                loaded@,
                places,
                children_model(children@),
                0,
                items_tree(old(items)@),
                Seq::empty(),
                texts(old(files)@),
            ) == (
                texts(final(files)@),
                Ok::<(Seq<ItemTree>, Seq<ChunkEntry>), DiagModel>(
                    (items_tree(final(items)@), entries@),
                ),
            ),
            Err(error) => materialized_below(
                loaded@,
                places,
                children_model(children@),
                0,
                items_tree(old(items)@),
                Seq::empty(),
                texts(old(files)@),
            ) == (
                texts(final(files)@),
                Err::<(Seq<ItemTree>, Seq<ChunkEntry>), DiagModel>(error.model()),
            ),
        },
    decreases children, 0int,
{
    let ghost start = children@;
    let ghost model = children_model(children@);
    let ghost first = items_tree(items@);
    let ghost known = texts(files@);
    let mut entries: Vec<ChunkEntry> = Vec::new();
    for child in it: children
        invariant
            it.seq() == start,
            start == children@,
            model == children_model(start),
            streams_end(loaded@),
            materialized_below(
                loaded@,
                places,
                model,
                it.index() as int,
                items_tree(items@),
                entries@,
                texts(files@),
            ) == materialized_below(loaded@, places, model, 0, first, Seq::empty(), known),
            first == items_tree(old(items)@),
            known == texts(old(files)@),
    {
        let ghost n = it.index();
        let ghost had = items_tree(items@);
        proof {
            assert(child == start[n as int]);
            assert(decreases_to!(children => child));
            assert(decreases_to!(children => child.1));
            assert(model[n as int] == (child.0@, child.1.model()));
            assert(items_tree(items@).len() == items@.len());
        }
        let (name, inner) = child;
        let place = items.len();
        match materialize_module(loaded, places, name, inner, files) {
            Ok(made) => {
                let ghost one = made.tree();
                items.push(Item::Mod(made));
                entries.push(ChunkEntry::Item(place));
                proof {
                    assert(items@.last().tree() == ItemTree::Mod(one));
                    assert(items_tree(items@) =~= had.push(ItemTree::Mod(one)));
                }
            },
            Err(error) => {
                return Err(error);
            },
        }
    }
    Ok(entries)
}

/// Puts the discovered modules of a project into its program: their items stand
/// behind the program's own, their entries before.
pub fn materialize_modules(
    program: &mut Program,
    loaded: &Vec<LoadedFile>,
    places: FilePlaces,
    discovered: DiscoveredModule,
    files: &mut Vec<String>,
) -> (r: Result<(), Diag>)
    requires
        streams_end(loaded@),
    ensures
        match r {
            Ok(_) => match materialized_below(
                loaded@,
                places,
                discovered.model().children,
                0,
                old(program).tree().items,
                Seq::empty(),
                texts(old(files)@),
            ) {
                (after, Ok((items, entries))) => texts(final(files)@) == after
                    && final(program).tree() == (ProgramTree {
                    items,
                    source_order: entries + old(program).tree().source_order,
                    ..old(program).tree()
                }),
                _ => false,
            },
            Err(error) => materialized_below(
                loaded@,
                places,
                discovered.model().children,
                0,
                old(program).tree().items,
                Seq::empty(),
                texts(old(files)@),
            ) == (
                texts(final(files)@),
                Err::<(Seq<ItemTree>, Seq<ChunkEntry>), DiagModel>(error.model()),
            ),
        },
{
    match materialize_below(loaded, places, discovered.children, &mut program.items, files) {
        Ok(entries) => {
            let mut entries = entries;
            let ghost below = entries@;
            entries.append(&mut program.source_order);
            proof {
                assert(entries@ =~= below + old(program).source_order@);
            }
            program.source_order = entries;
            Ok(())
        },
        Err(error) => Err(error),
    }
}

/// A registered path is found at its place, and the other places keep theirs.
pub proof fn law_registered_paths_are_found(
    files: Seq<Seq<char>>,
    place: nat,
    path: Seq<char>,
    other: int,
)
    requires
        0 <= other < files.len(),
        other != place,
    ensures
        registered(files, place, path)[place as int] == path,
        registered(files, place, path)[other] == files[other],
{
}

} // verus!
