//! The standard library: its declarations as items, and the runtime modules and
//! language items that its manifest names.

use vstd::prelude::*;

use crate::ast::{Attribute, ChunkEntry, Item, ModDecl, Program};
use crate::builtins::{LanguageItem, RuntimeModule, StandardMetadata, StdDispatch};
use crate::parser::grammar::{empty_block_tree, Failure};
use crate::parser::pieces::empty_block;
use crate::parser::program::{parse_stream_within, program_within};
use crate::parser::state::{default_budget, ParseBudget};
use crate::resolve::{contents_error, validate_declaration_program};
use crate::stamp::{program_in_file, set_file_program};
use crate::table::{lemma_insert_at, Table};
use crate::text::{cat3, cat4, chars_of, decimal, same_text};
use crate::token::RuaTokenKind;
use crate::tokenize::StrictTokenStream;
use crate::tree::{attributes_tree, items_tree, optional_text, ItemTree, ModDeclTree, ProgramTree};

verus! {

/// A declaration file of the library.
#[derive(Debug)]
pub struct StdDeclaration {
    pub path: String,
    pub stream: StrictTokenStream,
}

/// A Lua module of the library and the declaration file that it backs.
#[derive(Debug)]
pub struct StdModule {
    pub name: String,
    pub declaration: String,
    pub runtime: String,
    pub export: Option<String>,
    pub alias: Option<String>,
    pub abi: Option<u32>,
    pub dispatch: StdDispatch,
}

/// A runtime helper of the library.
#[derive(Debug)]
pub struct StdHelper {
    pub name: String,
    pub module: String,
    pub export: Option<String>,
    pub alias: Option<String>,
    pub abi: Option<u32>,
}

/// A library as the host read it: its files and its manifest.
#[derive(Debug)]
pub struct StdLibrary {
    pub declarations: Vec<StdDeclaration>,
    pub modules: Vec<StdModule>,
    pub runtime_helpers: Vec<StdHelper>,
    /// Keys of language items with the paths of their declarations.
    pub lang_items: Vec<(String, String)>,
}

/// A parsed library.
#[derive(Debug)]
pub struct LoadedStandardLibrary {
    pub items: Vec<Item>,
    pub metadata: StandardMetadata,
}

/// A runtime module over mathematical texts.
pub struct RuntimeRecord {
    pub runtime: Seq<char>,
    pub export: Option<Seq<char>>,
    pub alias: Seq<char>,
    pub abi: Option<u32>,
    pub dispatch: StdDispatch,
}

/// Metadata over mathematical texts.
pub struct MetadataRecord {
    pub runtime_modules: Map<u32, RuntimeRecord>,
    pub named_runtime_modules: Map<Seq<char>, RuntimeRecord>,
    pub runtime_helpers: Map<Seq<char>, RuntimeRecord>,
    pub language_items: Map<Seq<char>, LanguageItem>,
}

/// A runtime module over mathematical texts.
pub open spec fn runtime_record(module: RuntimeModule) -> RuntimeRecord {
    RuntimeRecord {
        runtime: module.runtime@,
        export: optional_text(module.export),
        alias: module.alias@,
        abi: module.abi,
        dispatch: module.dispatch,
    }
}

/// Named runtime modules over mathematical texts.
pub open spec fn runtime_records(table: Table<String, RuntimeModule>) -> Map<
    Seq<char>,
    RuntimeRecord,
> {
    Map::new(|k: Seq<char>| table.at(k) is Some, |k: Seq<char>| runtime_record(table.at(k)->0))
}

/// Metadata over mathematical texts.
pub open spec fn metadata_record(metadata: StandardMetadata) -> MetadataRecord {
    MetadataRecord {
        runtime_modules: Map::new(
            |k: u32| metadata.runtime_modules.at(k) is Some,
            |k: u32| runtime_record(metadata.runtime_modules.at(k)->0),
        ),
        named_runtime_modules: runtime_records(metadata.named_runtime_modules),
        runtime_helpers: runtime_records(metadata.runtime_helpers),
        language_items: Map::new(
            |k: Seq<char>| metadata.language_items.at(k) is Some,
            |k: Seq<char>| metadata.language_items.at(k)->0,
        ),
    }
}

/// Metadata that binds nothing.
pub open spec fn no_metadata() -> MetadataRecord {
    MetadataRecord {
        runtime_modules: Map::empty(),
        named_runtime_modules: Map::empty(),
        runtime_helpers: Map::empty(),
        language_items: Map::empty(),
    }
}

/// The number of characters up to and with the last `::` among the first `n`.
pub open spec fn after_last_path(s: Seq<char>, n: int) -> int
    decreases n,
{
    if n < 2 || n > s.len() {
        0
    } else if s[n - 1] == ':' && s[n - 2] == ':' {
        n
    } else {
        after_last_path(s, n - 1)
    }
}

/// A character in lower case, where it is an ASCII letter.
pub open spec fn lowered(c: char) -> char {
    if 'A' <= c <= 'Z' {
        ((c as u32) + 32) as char
    } else {
        c
    }
}

/// The alias of a module without one: the last part of its name in lower case.
pub open spec fn default_alias(name: Seq<char>) -> Seq<char> {
    let last = name.skip(after_last_path(name, name.len() as int));
    Seq::new(last.len(), |i: int| lowered(last[i]))
}

/// The runtime module of a manifest entry.
pub open spec fn module_runtime(module: StdModule) -> RuntimeRecord {
    RuntimeRecord {
        runtime: module.runtime@,
        export: optional_text(module.export),
        alias: match module.alias {
            Some(alias) => alias@,
            None => default_alias(module.name@),
        },
        abi: module.abi,
        dispatch: module.dispatch,
    }
}

/// The runtime module of a helper.
pub open spec fn helper_runtime(helper: StdHelper) -> RuntimeRecord {
    RuntimeRecord {
        runtime: helper.module@,
        export: optional_text(helper.export),
        alias: match helper.alias {
            Some(alias) => alias@,
            None => helper.name@,
        },
        abi: helper.abi,
        dispatch: StdDispatch::Module,
    }
}

/// The position of the first entry from `from` on for a declaration file.
pub open spec fn module_position(modules: Seq<StdModule>, path: Seq<char>, from: int) -> int
    decreases modules.len() - from,
{
    if from < 0 || from >= modules.len() || modules[from].declaration@ == path {
        from
    } else {
        module_position(modules, path, from + 1)
    }
}

/// The metadata with the runtime of a declaration file, where the manifest has one.
pub open spec fn with_runtime(
    metadata: MetadataRecord,
    modules: Seq<StdModule>,
    path: Seq<char>,
    file: u32,
) -> MetadataRecord {
    let k = module_position(modules, path, 0);
    if k < modules.len() {
        let runtime = module_runtime(modules[k]);
        MetadataRecord {
            runtime_modules: metadata.runtime_modules.insert(file, runtime),
            named_runtime_modules: metadata.named_runtime_modules.insert(modules[k].name@, runtime),
            ..metadata
        }
    } else {
        metadata
    }
}

/// A failure as one text.
pub open spec fn failure_text(failure: Failure) -> Seq<char> {
    if failure.line == 0 {
        failure.message
    } else {
        decimal(failure.line as nat) + ": "@ + failure.message
    }
}

/// The error of a declaration file.
pub open spec fn declaration_failure(path: Seq<char>, reason: Seq<char>) -> Seq<char> {
    "standard declaration "@ + path + ": "@ + reason
}

/// The items of a declaration file, stamped with its place.
pub open spec fn declared_items(declaration: StdDeclaration, file: u32) -> Result<
    Seq<ItemTree>,
    Seq<char>,
> {
    match program_within(declaration.stream, file, default_budget()) {
        Err(failure) => Err(declaration_failure(declaration.path@, failure_text(failure))),
        Ok(program) => {
            let stamped = program_in_file(program, file);
            match contents_error(stamped.items, stamped.chunk, file) {
                Some(error) => Err(declaration_failure(declaration.path@, error.msg)),
                None => Ok(stamped.items),
            }
        },
    }
}

/// The place of the declaration file at an index; they count down from the last.
pub open spec fn declaration_place(index: int) -> u32 {
    (u32::MAX - index) as u32
}

/// The items and the runtime modules of the declarations `list[from..]`.
pub open spec fn declared(
    library: StdLibrary,
    from: int,
    items: Seq<ItemTree>,
    metadata: MetadataRecord,
) -> Result<(Seq<ItemTree>, MetadataRecord), Seq<char>>
    decreases library.declarations@.len() - from,
{
    if from < 0 || from >= library.declarations@.len() {
        Ok((items, metadata))
    } else {
        let declaration = library.declarations@[from];
        let file = declaration_place(from);
        match declared_items(declaration, file) {
            Err(message) => Err(message),
            Ok(more) => declared(
                library,
                from + 1,
                items + more,
                with_runtime(metadata, library.modules@, declaration.path@, file),
            ),
        }
    }
}

/// The metadata with the helpers `list[from..]`.
pub open spec fn with_helpers(
    list: Seq<StdHelper>,
    from: int,
    metadata: MetadataRecord,
) -> MetadataRecord
    decreases list.len() - from,
{
    if from < 0 || from >= list.len() {
        metadata
    } else {
        with_helpers(
            list,
            from + 1,
            MetadataRecord {
                runtime_helpers: metadata.runtime_helpers.insert(
                    list[from].name@,
                    helper_runtime(list[from]),
                ),
                ..metadata
            },
        )
    }
}

/// The language items in their order.
pub open spec fn language_item_at(index: int) -> LanguageItem {
    if index == 0 {
        LanguageItem::Option
    } else if index == 1 {
        LanguageItem::OptionSome
    } else if index == 2 {
        LanguageItem::OptionNone
    } else if index == 3 {
        LanguageItem::OptionMap
    } else if index == 4 {
        LanguageItem::OptionUnwrap
    } else if index == 5 {
        LanguageItem::OptionExpect
    } else if index == 6 {
        LanguageItem::OptionUnwrapOr
    } else if index == 7 {
        LanguageItem::OptionIsSome
    } else if index == 8 {
        LanguageItem::OptionIsNone
    } else if index == 9 {
        LanguageItem::Result
    } else if index == 10 {
        LanguageItem::ResultOk
    } else if index == 11 {
        LanguageItem::ResultErr
    } else if index == 12 {
        LanguageItem::ResultMap
    } else if index == 13 {
        LanguageItem::ResultUnwrap
    } else if index == 14 {
        LanguageItem::ResultExpect
    } else if index == 15 {
        LanguageItem::ResultUnwrapOr
    } else if index == 16 {
        LanguageItem::ResultIsOk
    } else {
        LanguageItem::ResultIsErr
    }
}

fn language_item(index: usize) -> (r: LanguageItem)
    ensures
        r == language_item_at(index as int),
{
    match index {
        0 => LanguageItem::Option,
        1 => LanguageItem::OptionSome,
        2 => LanguageItem::OptionNone,
        3 => LanguageItem::OptionMap,
        4 => LanguageItem::OptionUnwrap,
        5 => LanguageItem::OptionExpect,
        6 => LanguageItem::OptionUnwrapOr,
        7 => LanguageItem::OptionIsSome,
        8 => LanguageItem::OptionIsNone,
        9 => LanguageItem::Result,
        10 => LanguageItem::ResultOk,
        11 => LanguageItem::ResultErr,
        12 => LanguageItem::ResultMap,
        13 => LanguageItem::ResultUnwrap,
        14 => LanguageItem::ResultExpect,
        15 => LanguageItem::ResultUnwrapOr,
        16 => LanguageItem::ResultIsOk,
        _ => LanguageItem::ResultIsErr,
    }
}

/// The number of language items.
pub const LANGUAGE_ITEM_COUNT: usize = 18;

/// The position of the first entry from `from` on with a key.
pub open spec fn key_position(list: Seq<(String, String)>, key: Seq<char>, from: int) -> int
    decreases list.len() - from,
{
    if from < 0 || from >= list.len() || list[from].0@ == key {
        from
    } else {
        key_position(list, key, from + 1)
    }
}

/// The metadata with the language items from `from` on.
pub open spec fn with_language_items(
    list: Seq<(String, String)>,
    from: int,
    metadata: MetadataRecord,
) -> Result<MetadataRecord, Seq<char>>
    decreases LANGUAGE_ITEM_COUNT - from,
{
    if from < 0 || from >= LANGUAGE_ITEM_COUNT {
        Ok(metadata)
    } else {
        let item = language_item_at(from);
        let k = key_position(list, item.spec_key(), 0);
        if k >= list.len() {
            Err("std.toml is missing language item `"@ + item.spec_key() + "`"@)
        } else {
            let path = list[k].1@;
            if metadata.language_items.dom().contains(path) {
                Err("std.toml maps more than one language item to `"@ + path + "`"@)
            } else {
                with_language_items(
                    list,
                    from + 1,
                    MetadataRecord {
                        language_items: metadata.language_items.insert(path, item),
                        ..metadata
                    },
                )
            }
        }
    }
}

/// The items and the metadata of a library, or why it is none.
pub open spec fn library_of(library: StdLibrary) -> Result<
    (Seq<ItemTree>, MetadataRecord),
    Seq<char>,
> {
    match declared(library, 0, Seq::empty(), no_metadata()) {
        Err(message) => Err(message),
        Ok((items, metadata)) => match with_language_items(
            library.lang_items@,
            0,
            with_helpers(library.runtime_helpers@, 0, metadata),
        ) {
            Err(message) => Err(message),
            Ok(metadata) => Ok((items, metadata)),
        },
    }
}

/// The streams of the declarations end, and there are not more of them than
/// places.
pub open spec fn library_wf(library: StdLibrary) -> bool {
    &&& library.declarations@.len() <= u32::MAX
    &&& forall|k: int|
        0 <= k < library.declarations@.len() ==> (#[trigger] library.declarations@[k]).stream.end.kind
            == RuaTokenKind::Eof
}

fn lower(c: char) -> (r: char)
    ensures
        r == lowered(c),
{
    if 'A' <= c && c <= 'Z' {
        ((c as u8) + 32) as char
    } else {
        c
    }
}

fn alias_from(name: &str) -> (r: String)
    ensures
        r@ == default_alias(name@),
{
    let chars = chars_of(name);
    let mut start: usize = chars.len();
    while start >= 2 && !(chars[start - 1] == ':' && chars[start - 2] == ':')
        invariant
            start <= chars.len(),
            chars@ == name@,
            after_last_path(name@, start as int) == after_last_path(name@, name@.len() as int),
        decreases start,
    {
        start -= 1;
    }
    if start < 2 {
        start = 0;
    }
    let ghost last = name@.skip(start as int);
    let mut out = String::new();
    let mut i: usize = start;
    proof {
        assert(out@ =~= default_alias(name@).take(0));
    }
    while i < chars.len()
        invariant
            start <= i <= chars.len(),
            chars@ == name@,
            last == name@.skip(start as int),
            default_alias(name@) == Seq::new(last.len(), |k: int| lowered(last[k])),
            out@ == default_alias(name@).take(i - start),
        decreases chars.len() - i,
    {
        out.push(lower(chars[i]));
        i += 1;
        proof {
            assert(out@ =~= default_alias(name@).take(i - start));
        }
    }
    proof {
        assert(default_alias(name@).take(last.len() as int) =~= default_alias(name@));
    }
    out
}

fn copy_optional(value: &Option<String>) -> (r: Option<String>)
    ensures
        optional_text(r) == optional_text(*value),
{
    match value {
        Some(text) => Some(text.clone()),
        None => None,
    }
}

fn runtime_of_module(module: &StdModule) -> (r: RuntimeModule)
    ensures
        runtime_record(r) == module_runtime(*module),
{
    RuntimeModule {
        runtime: module.runtime.clone(),
        export: copy_optional(&module.export),
        alias: match &module.alias {
            Some(alias) => alias.clone(),
            None => alias_from(module.name.as_str()),
        },
        abi: module.abi,
        dispatch: module.dispatch,
    }
}

fn runtime_of_helper(helper: &StdHelper) -> (r: RuntimeModule)
    ensures
        runtime_record(r) == helper_runtime(*helper),
{
    RuntimeModule {
        runtime: helper.module.clone(),
        export: copy_optional(&helper.export),
        alias: match &helper.alias {
            Some(alias) => alias.clone(),
            None => helper.name.clone(),
        },
        abi: helper.abi,
        dispatch: StdDispatch::Module,
    }
}

fn add_named(table: &mut Table<String, RuntimeModule>, name: String, module: RuntimeModule)
    ensures
        runtime_records(*final(table)) == runtime_records(*old(table)).insert(
            name@,
            runtime_record(module),
        ),
{
    let ghost before = *table;
    let _ = table.insert(name, module);
    proof {
        lemma_insert_at(before, *table, name@, module);
        assert(runtime_records(*table) =~= runtime_records(before).insert(
            name@,
            runtime_record(module),
        ));
    }
}

fn bind_runtime(
    metadata: &mut StandardMetadata,
    modules: &Vec<StdModule>,
    path: &str,
    file: u32,
)
    ensures
        metadata_record(*final(metadata)) == with_runtime(
            metadata_record(*old(metadata)),
            modules@,
            path@,
            file,
        ),
{
    let mut k: usize = 0;
    while k < modules.len() && !same_text(modules[k].declaration.as_str(), path)
        invariant
            k <= modules.len(),
            module_position(modules@, path@, k as int) == module_position(modules@, path@, 0),
        decreases modules.len() - k,
    {
        k += 1;
    }
    if k < modules.len() {
        let ghost start = metadata_record(*metadata);
        let ghost before = metadata.runtime_modules;
        let first = runtime_of_module(&modules[k]);
        let ghost one = first;
        let _ = metadata.runtime_modules.insert(file, first);
        proof {
            lemma_insert_at(before, metadata.runtime_modules, file, one);
            assert(metadata_record(*metadata).runtime_modules =~= start.runtime_modules.insert(
                file,
                runtime_record(one),
            ));
        }
        add_named(
            &mut metadata.named_runtime_modules,
            modules[k].name.clone(),
            runtime_of_module(&modules[k]),
        );
    }
}

fn declare(declaration: &StdDeclaration, file: u32) -> (r: Result<Vec<Item>, String>)
    requires
        declaration.stream.end.kind == RuaTokenKind::Eof,
    ensures
        match r {
            Ok(items) => declared_items(*declaration, file) == Ok::<Seq<ItemTree>, Seq<char>>(
                items_tree(items@),
            ),
            Err(message) => declared_items(*declaration, file) == Err::<Seq<ItemTree>, Seq<char>>(
                message@,
            ),
        },
{
    let mut program = match parse_stream_within(
        &declaration.stream,
        file,
        ParseBudget::default(),
    ) {
        Ok(program) => program,
        Err(error) => {
            return Err(
                cat4(
                    "standard declaration ",
                    declaration.path.as_str(),
                    ": ",
                    error.render().as_str(),
                ),
            );
        },
    };
    set_file_program(&mut program, file);
    if let Err(error) = validate_declaration_program(&program, file) {
        return Err(
            cat4("standard declaration ", declaration.path.as_str(), ": ", error.msg.as_str()),
        );
    }
    Ok(program.items)
}

fn declare_all(library: &StdLibrary, metadata: &mut StandardMetadata) -> (r: Result<
    Vec<Item>,
    String,
>)
    requires
        library_wf(*library),
    ensures
        match r {
            Ok(items) => declared(*library, 0, Seq::empty(), metadata_record(*old(metadata)))
                == Ok::<(Seq<ItemTree>, MetadataRecord), Seq<char>>(
                (items_tree(items@), metadata_record(*final(metadata))),
            ),
            Err(message) => declared(*library, 0, Seq::empty(), metadata_record(*old(metadata)))
                == Err::<(Seq<ItemTree>, MetadataRecord), Seq<char>>(message@),
        },
{
    let ghost start = metadata_record(*metadata);
    let list = &library.declarations;
    let mut items: Vec<Item> = Vec::new();
    let mut i: usize = 0;
    proof {
        assert(items_tree(items@) =~= Seq::empty());
    }
    while i < list.len()
        invariant
            i <= list.len(),
            *list == library.declarations,
            library_wf(*library),
            start == metadata_record(*old(metadata)),
            declared(*library, i as int, items_tree(items@), metadata_record(*metadata))
                == declared(*library, 0, Seq::empty(), start),
        decreases list.len() - i,
    {
        proof {
            assert(library.declarations@[i as int].stream.end.kind == RuaTokenKind::Eof);
        }
        let file: u32 = u32::MAX - (i as u32);
        let ghost had = items_tree(items@);
        match declare(&list[i], file) {
            Ok(more) => {
                let mut more = more;
                let ghost one = items_tree(more@);
                items.append(&mut more);
                proof {
                    assert(items_tree(items@) =~= had + one);
                }
            },
            Err(message) => {
                return Err(message);
            },
        }
        bind_runtime(metadata, &library.modules, list[i].path.as_str(), file);
        i += 1;
    }
    Ok(items)
}

fn bind_helpers(list: &Vec<StdHelper>, metadata: &mut StandardMetadata)
    ensures
        metadata_record(*final(metadata)) == with_helpers(
            list@,
            0,
            metadata_record(*old(metadata)),
        ),
{
    let ghost start = metadata_record(*metadata);
    let mut i: usize = 0;
    while i < list.len()
        invariant
            i <= list.len(),
            with_helpers(list@, i as int, metadata_record(*metadata)) == with_helpers(
                list@,
                0,
                start,
            ),
        decreases list.len() - i,
    {
        add_named(
            &mut metadata.runtime_helpers,
            list[i].name.clone(),
            runtime_of_helper(&list[i]),
        );
        i += 1;
    }
}

fn bind_language_items(list: &Vec<(String, String)>, metadata: &mut StandardMetadata) -> (r: Result<
    (),
    String,
>)
    ensures
        match r {
            Ok(_) => with_language_items(list@, 0, metadata_record(*old(metadata))) == Ok::<
                MetadataRecord,
                Seq<char>,
            >(metadata_record(*final(metadata))),
            Err(message) => with_language_items(list@, 0, metadata_record(*old(metadata)))
                == Err::<MetadataRecord, Seq<char>>(message@),
        },
{
    let ghost start = metadata_record(*metadata);
    let mut i: usize = 0;
    while i < LANGUAGE_ITEM_COUNT
        invariant
            i <= LANGUAGE_ITEM_COUNT,
            start == metadata_record(*old(metadata)),
            with_language_items(list@, i as int, metadata_record(*metadata))
                == with_language_items(list@, 0, start),
        decreases LANGUAGE_ITEM_COUNT - i,
    {
        let item = language_item(i);
        let key = item.key();
        let mut k: usize = 0;
        while k < list.len() && !same_text(list[k].0.as_str(), key)
            invariant
                k <= list.len(),
                key_position(list@, key@, k as int) == key_position(list@, key@, 0),
            decreases list.len() - k,
        {
            k += 1;
        }
        if k >= list.len() {
            return Err(cat3("std.toml is missing language item `", key, "`"));
        }
        let ghost before = metadata.language_items;
        let ghost had = metadata_record(*metadata);
        let path = list[k].1.clone();
        if metadata.language_items.has(&path) {
            return Err(
                cat3("std.toml maps more than one language item to `", path.as_str(), "`"),
            );
        }
        let ghost name = path@;
        let _ = metadata.language_items.insert(path, item);
        proof {
            lemma_insert_at(before, metadata.language_items, name, item);
            assert(metadata_record(*metadata).language_items =~= had.language_items.insert(
                name,
                item,
            ));
        }
        i += 1;
    }
    Ok(())
}

/// Parses a library: every declaration file has to parse and to hold nothing to
/// execute, and every language item has to have a path of its own.
pub fn parse_standard_library(library: &StdLibrary) -> (r: Result<LoadedStandardLibrary, String>)
    requires
        library_wf(*library),
    ensures
        match r {
            Ok(loaded) => library_of(*library) == Ok::<
                (Seq<ItemTree>, MetadataRecord),
                Seq<char>,
            >((items_tree(loaded.items@), metadata_record(loaded.metadata))),
            Err(message) => library_of(*library) == Err::<
                (Seq<ItemTree>, MetadataRecord),
                Seq<char>,
            >(message@),
        },
{
    let mut metadata = StandardMetadata {
        runtime_modules: Table::new(),
        named_runtime_modules: Table::new(),
        runtime_helpers: Table::new(),
        language_items: Table::new(),
    };
    proof {
        let model = metadata_record(metadata);
        assert(model.runtime_modules =~= Map::empty());
        assert(model.named_runtime_modules =~= Map::empty());
        assert(model.runtime_helpers =~= Map::empty());
        assert(model.language_items =~= Map::empty());
    }
    let items = match declare_all(library, &mut metadata) {
        Ok(items) => items,
        Err(message) => {
            return Err(message);
        },
    };
    bind_helpers(&library.runtime_helpers, &mut metadata);
    if let Err(message) = bind_language_items(&library.lang_items, &mut metadata) {
        return Err(message);
    }
    Ok(LoadedStandardLibrary { items, metadata })
}

/// The source order behind one item more at the front.
pub open spec fn order_behind(order: Seq<ChunkEntry>) -> Seq<ChunkEntry> {
    Seq::new(
        order.len(),
        |i: int|
            match order[i] {
                ChunkEntry::Item(k) => ChunkEntry::Item((k + 1) as usize),
                ChunkEntry::Statement(k) => ChunkEntry::Statement(k),
            },
    )
}

/// The module that holds the declarations of the library.
pub open spec fn builtin_module(items: Seq<ItemTree>) -> ItemTree {
    ItemTree::Mod(
        ModDeclTree {
            name: "__rua_builtin"@,
            attributes: Seq::empty(),
            documentation: None,
            items,
            chunk: empty_block_tree(),
            source_order: Seq::empty(),
            is_pub: false,
            is_file: false,
            is_decl: true,
        },
    )
}

/// Puts the declarations of a library into a program, as its first module.
pub fn load_builtins(program: &mut Program, loaded: LoadedStandardLibrary)
    requires
        forall|k: int|
            0 <= k < old(program).source_order@.len() ==> match #[trigger] old(
                program,
            ).source_order@[k] {
                ChunkEntry::Item(index) => index < usize::MAX,
                ChunkEntry::Statement(_) => true,
            },
    ensures
        final(program).tree() == (ProgramTree {
            items: seq![builtin_module(items_tree(loaded.items@))] + old(program).tree().items,
            source_order: order_behind(old(program).source_order@),
            standard_library: Some(loaded.metadata),
            ..old(program).tree()
        }),
{
    let ghost start = program.source_order@;
    let ghost own = items_tree(program.items@);
    let mut order: Vec<ChunkEntry> = Vec::new();
    let mut i: usize = 0;
    while i < program.source_order.len()
        invariant
            i <= program.source_order.len(),
            program.source_order@ == start,
            order@ == order_behind(start).take(i as int),
            *program == *old(program),
            forall|k: int|
                0 <= k < start.len() ==> match #[trigger] start[k] {
                    ChunkEntry::Item(index) => index < usize::MAX,
                    ChunkEntry::Statement(_) => true,
                },
        decreases program.source_order.len() - i,
    {
        proof {
            assert(start[i as int] == program.source_order@[i as int]);
        }
        order.push(
            match program.source_order[i] {
                ChunkEntry::Item(k) => ChunkEntry::Item(k + 1),
                ChunkEntry::Statement(k) => ChunkEntry::Statement(k),
            },
        );
        i += 1;
        proof {
            assert(order@ =~= order_behind(start).take(i as int));
        }
    }
    proof {
        assert(order@ =~= order_behind(start));
    }
    let attributes: Vec<Attribute> = Vec::new();
    let empty: Vec<ChunkEntry> = Vec::new();
    proof {
        assert(attributes_tree(attributes@) =~= Seq::empty());
        assert(empty@ =~= Seq::empty());
    }
    let module = Item::Mod(
        ModDecl {
            name: "__rua_builtin".to_string(),
            attributes,
            documentation: None,
            items: loaded.items,
            chunk: empty_block(),
            source_order: empty,
            is_pub: false,
            is_file: false,
            is_decl: true,
        },
    );
    let ghost first = module.tree();
    proof {
        reveal_with_fuel(Item::tree, 2);
        assert(first == builtin_module(items_tree(loaded.items@)));
    }
    program.items.insert(0, module);
    proof {
        assert(items_tree(program.items@) =~= seq![first] + own);
    }
    program.source_order = order;
    program.standard_library = Some(loaded.metadata);
}

} // verus!
