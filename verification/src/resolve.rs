//! Module discovery by path and construction of the module tree.

use vstd::prelude::*;

use crate::ast::{Block, FnDecl, Item, ModDecl, Program, TraitMethod};
use crate::diag::{bare_diag, diag_at, Diag, DiagModel, DiagnosticCode};
use crate::order::{text_before, text_is_before};
use crate::text::{cat2, cat3, cat4, same_text, texts};
use crate::token::SourceRange;
use crate::tree::{
    functions_tree, items_tree, trait_methods_tree, BlockTree, FnDeclTree, ItemTree, ModDeclTree,
    TraitMethodTree,
};

verus! {

// ---------------------------------------------------------------------------
// Declaration files.
// ---------------------------------------------------------------------------

/// Whether a block holds something to execute.
pub open spec fn has_body(block: BlockTree) -> bool {
    block.stmts.len() > 0 || block.tail is Some
}

/// The error of a declaration file at a range.
pub open spec fn invalid_at(span: SourceRange, message: Seq<char>) -> DiagModel {
    diag_at(
        DiagnosticCode::NameInvalidDeclaration,
        span.file,
        span.start,
        span.len,
        span.line,
        message,
    )
}

/// The start of a file.
pub open spec fn file_start(file: u32) -> SourceRange {
    SourceRange { start: 0, len: 0, line: 1, file }
}

/// The first method among `methods[from..]` with a body.
pub open spec fn method_error(methods: Seq<FnDeclTree>, from: int) -> Option<DiagModel>
    decreases methods.len() - from,
{
    if from < 0 || from >= methods.len() {
        None
    } else if has_body(methods[from].body) {
        Some(
            invalid_at(
                methods[from].name_span,
                "method `"@ + methods[from].name
                    + "` in a declaration file must have an empty body"@,
            ),
        )
    } else {
        method_error(methods, from + 1)
    }
}

/// The first trait method among `methods[from..]` with a default body.
pub open spec fn default_error(methods: Seq<TraitMethodTree>, from: int) -> Option<DiagModel>
    decreases methods.len() - from,
{
    if from < 0 || from >= methods.len() {
        None
    } else if methods[from].default is Some && has_body(methods[from].default->0) {
        Some(
            invalid_at(
                methods[from].name_span,
                "trait method `"@ + methods[from].name
                    + "` in a declaration file must have an empty body"@,
            ),
        )
    } else {
        default_error(methods, from + 1)
    }
}

/// The first error of the items `items[from..]` in a declaration file.
pub open spec fn declaration_error(items: Seq<ItemTree>, file: u32, from: int) -> Option<DiagModel>
    decreases items, items.len() - from,
{
    if from < 0 || from >= items.len() {
        None
    } else {
        let here = match items[from] {
            ItemTree::Fn(function) => if has_body(function.body) {
                Some(
                    invalid_at(
                        function.name_span,
                        "function `"@ + function.name
                            + "` in a declaration file must have an empty body"@,
                    ),
                )
            } else {
                None
            },
            ItemTree::Impl(implementation) => method_error(implementation.methods, 0),
            ItemTree::Trait(declaration) => default_error(declaration.methods, 0),
            ItemTree::Mod(module) => if has_body(module.chunk) {
                Some(
                    invalid_at(
                        file_start(file),
                        "module `"@ + module.name
                            + "` in a declaration file cannot contain executable statements"@,
                    ),
                )
            } else {
                declaration_error(module.items, file, 0)
            },
            _ => None,
        };
        match here {
            Some(error) => Some(error),
            None => declaration_error(items, file, from + 1),
        }
    }
}

/// The first error of the contents of a declaration file.
pub open spec fn contents_error(items: Seq<ItemTree>, chunk: BlockTree, file: u32) -> Option<DiagModel> {
    if has_body(chunk) {
        Some(
            invalid_at(
                file_start(file),
                "declaration files cannot contain top-level executable statements"@,
            ),
        )
    } else {
        declaration_error(items, file, 0)
    }
}

/// Whether a block holds something to execute.
pub fn block_has_executable_body(block: &Block) -> (r: bool)
    ensures
        r == has_body(block.tree()),
{
    proof {
        assert(crate::tree::stmts_tree(block.stmts@).len() == block.stmts@.len());
        assert(crate::tree::optional_boxed_expr_tree(block.tail) is Some <==> block.tail is Some);
    }
    block.stmts.len() > 0 || block.tail.is_some()
}

fn invalid_declaration(span: SourceRange, message: String) -> (r: Diag)
    ensures
        r.model() == invalid_at(span, message@),
{
    Diag::new(
        DiagnosticCode::NameInvalidDeclaration,
        span.file,
        span.start,
        span.len,
        span.line,
        message,
    )
}

/// Whether a check found nothing, or the error that it found.
pub open spec fn reported(r: Result<(), Diag>, expected: Option<DiagModel>) -> bool {
    match r {
        Ok(_) => expected is None,
        Err(error) => expected == Some(error.model()),
    }
}

fn validate_methods(methods: &Vec<FnDecl>) -> (r: Result<(), Diag>)
    ensures
        reported(r, method_error(functions_tree(methods@), 0)),
{
    let mut i: usize = 0;
    while i < methods.len()
        invariant
            i <= methods.len(),
            method_error(functions_tree(methods@), i as int) == method_error(functions_tree(methods@), 0),
        decreases methods.len() - i,
    {
        proof {
            assert(functions_tree(methods@)[i as int] == methods@[i as int].tree());
        }
        if block_has_executable_body(&methods[i].body) {
            return Err(
                invalid_declaration(
                    methods[i].name_span,
                    cat3(
                        "method `",
                        methods[i].name.as_str(),
                        "` in a declaration file must have an empty body",
                    ),
                ),
            );
        }
        i += 1;
    }
    Ok(())
}

fn validate_defaults(methods: &Vec<TraitMethod>) -> (r: Result<(), Diag>)
    ensures
        reported(r, default_error(trait_methods_tree(methods@), 0)),
{
    let mut i: usize = 0;
    while i < methods.len()
        invariant
            i <= methods.len(),
            default_error(trait_methods_tree(methods@), i as int) == default_error(
                trait_methods_tree(methods@),
                0,
            ),
        decreases methods.len() - i,
    {
        proof {
            assert(trait_methods_tree(methods@)[i as int] == methods@[i as int].tree());
        }
        let bad = match &methods[i].default {
            Some(body) => block_has_executable_body(body),
            None => false,
        };
        if bad {
            return Err(
                invalid_declaration(
                    methods[i].name_span,
                    cat3(
                        "trait method `",
                        methods[i].name.as_str(),
                        "` in a declaration file must have an empty body",
                    ),
                ),
            );
        }
        i += 1;
    }
    Ok(())
}

fn validate_declaration_items(items: &Vec<Item>, file: u32) -> (r: Result<(), Diag>)
    ensures
        reported(r, declaration_error(items_tree(items@), file, 0)),
    decreases *items,
{
    let mut i: usize = 0;
    while i < items.len()
        invariant
            i <= items.len(),
            declaration_error(items_tree(items@), file, i as int) == declaration_error(
                items_tree(items@),
                file,
                0,
            ),
        decreases items.len() - i,
    {
        proof {
            assert(items_tree(items@)[i as int] == items@[i as int].tree());
        }
        match &items[i] {
            Item::Fn(function) => {
                if block_has_executable_body(&function.body) {
                    return Err(
                        invalid_declaration(
                            function.name_span,
                            cat3(
                                "function `",
                                function.name.as_str(),
                                "` in a declaration file must have an empty body",
                            ),
                        ),
                    );
                }
            },
            Item::Impl(implementation) => {
                if let Err(error) = validate_methods(&implementation.methods) {
                    return Err(error);
                }
            },
            Item::Trait(declaration) => {
                if let Err(error) = validate_defaults(&declaration.methods) {
                    return Err(error);
                }
            },
            Item::Mod(module) => {
                if block_has_executable_body(&module.chunk) {
                    return Err(
                        invalid_declaration(
                            SourceRange { start: 0, len: 0, line: 1, file },
                            cat3(
                                "module `",
                                module.name.as_str(),
                                "` in a declaration file cannot contain executable statements",
                            ),
                        ),
                    );
                }
                if let Err(error) = validate_declaration_items(&module.items, file) {
                    return Err(error);
                }
            },
            _ => {},
        }
        i += 1;
    }
    Ok(())
}

/// Checks that the contents of a declaration file hold nothing to execute.
pub fn validate_declaration_contents(items: &Vec<Item>, chunk: &Block, file: u32) -> (r: Result<
    (),
    Diag,
>)
    ensures
        reported(r, contents_error(items_tree(items@), chunk.tree(), file)),
{
    if block_has_executable_body(chunk) {
        return Err(
            invalid_declaration(
                SourceRange { start: 0, len: 0, line: 1, file },
                "declaration files cannot contain top-level executable statements".to_string(),
            ),
        );
    }
    validate_declaration_items(items, file)
}

/// Checks that a declaration program holds nothing to execute.
pub fn validate_declaration_program(program: &Program, file: u32) -> (r: Result<(), Diag>)
    ensures
        reported(r, contents_error(items_tree(program.items@), program.chunk.tree(), file)),
{
    validate_declaration_contents(&program.items, &program.chunk, file)
}

/// A module and all modules below it as declarations.
pub open spec fn marked_item(item: ItemTree) -> ItemTree
    decreases item,
{
    match item {
        ItemTree::Mod(module) => ItemTree::Mod(
            ModDeclTree { is_decl: true, items: marked_items(module.items), ..module },
        ),
        _ => item,
    }
}

/// The items with all modules below as declarations.
pub open spec fn marked_items(items: Seq<ItemTree>) -> Seq<ItemTree>
    decreases items,
{
    Seq::new(
        items.len(),
        |i: int|
            if 0 <= i < items.len() {
                marked_item(items[i])
            } else {
                arbitrary()
            },
    )
}

fn marked(item: Item) -> (r: Item)
    ensures
        r.tree() == marked_item(item.tree()),
    decreases item,
{
    match item {
        Item::Mod(module) => {
            let items = marked_list(module.items);
            Item::Mod(
                ModDecl {
                    name: module.name,
                    attributes: module.attributes,
                    documentation: module.documentation,
                    items,
                    chunk: module.chunk,
                    source_order: module.source_order,
                    is_pub: module.is_pub,
                    is_file: module.is_file,
                    is_decl: true,
                },
            )
        },
        other => other,
    }
}

fn marked_list(list: Vec<Item>) -> (r: Vec<Item>)
    ensures
        items_tree(r@) == marked_items(items_tree(list@)),
    decreases list,
{
    let ghost start = list@;
    let mut out: Vec<Item> = Vec::new();
    for item in it: list
        invariant
            it.seq() == start,
            start == list@,
            out@.len() == it.index(),
            items_tree(out@) == marked_items(items_tree(start)).take(it.index() as int),
    {
        let ghost n = it.index();
        proof {
            assert(item == start[n as int]);
            assert(decreases_to!(list => item));
        }
        out.push(marked(item));
        proof {
            assert(items_tree(out@) =~= marked_items(items_tree(start)).take(n + 1));
        }
    }
    proof {
        assert(marked_items(items_tree(start)).take(start.len() as int) =~= marked_items(
            items_tree(start),
        ));
    }
    out
}

/// Marks all modules below the items as declarations.
pub fn mark_decl(items: &mut Vec<Item>)
    ensures
        items_tree(final(items)@) == marked_items(items_tree(old(items)@)),
{
    let mut taken: Vec<Item> = Vec::new();
    std::mem::swap(&mut taken, items);
    *items = marked_list(taken);
}

// ---------------------------------------------------------------------------
// Discovery.
// ---------------------------------------------------------------------------

/// A source file that stands for a module. Among several, the one with the
/// smallest precedence counts.
#[derive(Debug)]
pub struct DiscoveredFile {
    /// Identity of the file in its project.
    pub file_id: u32,
    pub display: String,
    pub is_declaration: bool,
    pub precedence: usize,
}

/// A module with the modules below it, in the order of their names.
#[derive(Debug)]
pub struct DiscoveredModule {
    pub source: Option<DiscoveredFile>,
    pub children: Vec<(String, DiscoveredModule)>,
}

/// A discovered file over mathematical texts.
pub struct FoundFile {
    pub file_id: u32,
    pub display: Seq<char>,
    pub is_declaration: bool,
    pub precedence: nat,
}

/// A discovered module over mathematical texts.
pub struct FoundModule {
    pub source: Option<FoundFile>,
    pub children: Seq<(Seq<char>, FoundModule)>,
}

impl DiscoveredFile {
    /// The mathematical form.
    pub open spec fn model(self) -> FoundFile {
        FoundFile {
            file_id: self.file_id,
            display: self.display@,
            is_declaration: self.is_declaration,
            precedence: self.precedence as nat,
        }
    }
}

/// The mathematical forms of named modules.
pub open spec fn children_model(list: Seq<(String, DiscoveredModule)>) -> Seq<
    (Seq<char>, FoundModule),
>
    decreases list,
{
    Seq::new(
        list.len(),
        |i: int|
            if 0 <= i < list.len() {
                (list[i].0@, list[i].1.model())
            } else {
                arbitrary()
            },
    )
}

impl DiscoveredModule {
    /// The mathematical form.
    pub open spec fn model(self) -> FoundModule
        decreases self,
    {
        FoundModule {
            source: match self.source {
                Some(file) => Some(file.model()),
                None => None,
            },
            children: children_model(self.children@),
        }
    }

    /// A module without a file and without modules below it.
    pub fn new() -> (r: Self)
        ensures
            r.model() == nothing_found(),
    {
        let r = DiscoveredModule { source: None, children: Vec::new() };
        proof {
            assert(children_model(r.children@) =~= Seq::empty());
        }
        r
    }
}

/// A module without a file and without modules below it.
pub open spec fn nothing_found() -> FoundModule {
    FoundModule { source: None, children: Seq::empty() }
}

/// The position of the first child from `from` on whose name is not before a name.
pub open spec fn child_position(
    children: Seq<(Seq<char>, FoundModule)>,
    name: Seq<char>,
    from: int,
) -> int
    decreases children.len() - from,
{
    if from < 0 || from >= children.len() || !text_before(children[from].0, name) {
        from
    } else {
        child_position(children, name, from + 1)
    }
}

/// The modules with one more file below the names `segments[from..]`, or the
/// message for two files of one precedence.
pub open spec fn with_file(
    module: FoundModule,
    segments: Seq<Seq<char>>,
    from: int,
    file: FoundFile,
) -> Result<FoundModule, Seq<char>>
    decreases segments.len() - from,
{
    if from < 0 || from >= segments.len() {
        match module.source {
            None => Ok(FoundModule { source: Some(file), ..module }),
            Some(existing) => if file.precedence == existing.precedence {
                Err(
                    "multiple files map to one module: "@ + existing.display + ", "@ + file.display,
                )
            } else if file.precedence < existing.precedence {
                Ok(FoundModule { source: Some(file), ..module })
            } else {
                Ok(module)
            },
        }
    } else {
        let k = child_position(module.children, segments[from], 0);
        let known = k < module.children.len() && module.children[k].0 == segments[from];
        let child = if known {
            module.children[k].1
        } else {
            nothing_found()
        };
        match with_file(child, segments, from + 1, file) {
            Ok(child) => Ok(
                FoundModule {
                    children: if known {
                        module.children.update(k, (segments[from], child))
                    } else {
                        module.children.insert(k, (segments[from], child))
                    },
                    ..module
                },
            ),
            Err(message) => Err(message),
        }
    }
}

fn placed(
    module: DiscoveredModule,
    segments: &Vec<String>,
    from: usize,
    file: DiscoveredFile,
) -> (r: Result<DiscoveredModule, String>)
    requires
        from <= segments.len(),
    ensures
        match r {
            Ok(after) => with_file(module.model(), texts(segments@), from as int, file.model())
                == Ok::<FoundModule, Seq<char>>(after.model()),
            Err(message) => with_file(
                module.model(),
                texts(segments@),
                from as int,
                file.model(),
            ) == Err::<FoundModule, Seq<char>>(message@),
        },
    decreases segments.len() - from,
{
    let ghost start = module.model();
    let ghost names = texts(segments@);
    if from == segments.len() {
        let source = match module.source {
            None => file,
            Some(existing) => {
                if file.precedence == existing.precedence {
                    return Err(
                        cat4(
                            "multiple files map to one module: ",
                            existing.display.as_str(),
                            ", ",
                            file.display.as_str(),
                        ),
                    );
                }
                if file.precedence < existing.precedence {
                    file
                } else {
                    existing
                }
            },
        };
        return Ok(DiscoveredModule { source: Some(source), children: module.children });
    }
    let name = segments[from].as_str();
    let mut children = module.children;
    let ghost had = children_model(children@);
    let mut k: usize = 0;
    while k < children.len() && text_is_before(children[k].0.as_str(), name)
        invariant
            k <= children.len(),
            had == children_model(children@),
            child_position(had, name@, k as int) == child_position(had, name@, 0),
        decreases children.len() - k,
    {
        k += 1;
    }
    let known = k < children.len() && same_text(children[k].0.as_str(), name);
    let child = if known {
        children.remove(k).1
    } else {
        DiscoveredModule::new()
    };
    let ghost rest = children@;
    proof {
        assert(names[from as int] == name@);
        if known {
            assert(child.model() == had[k as int].1);
        }
    }
    match placed(child, segments, from + 1, file) {
        Ok(child) => {
            let ghost inner = child.model();
            children.insert(k, (name.to_string(), child));
            proof {
                if known {
                    assert(children_model(children@) =~= had.update(k as int, (name@, inner)));
                } else {
                    assert(children_model(children@) =~= had.insert(k as int, (name@, inner)));
                }
            }
            Ok(DiscoveredModule { source: module.source, children })
        },
        Err(message) => Err(message),
    }
}

/// Puts a file at its place in the tree; the module keeps the file with the
/// smallest precedence.
pub fn insert_discovered_file(
    root: DiscoveredModule,
    segments: &Vec<String>,
    source: DiscoveredFile,
) -> (r: Result<DiscoveredModule, Diag>)
    ensures
        match r {
            Ok(after) => with_file(root.model(), texts(segments@), 0, source.model()) == Ok::<
                FoundModule,
                Seq<char>,
            >(after.model()),
            Err(error) => match with_file(root.model(), texts(segments@), 0, source.model()) {
                Ok(_) => false,
                Err(message) => error.model() == bare_diag(
                    DiagnosticCode::NameAmbiguousImport,
                    message,
                ),
            },
        },
{
    match placed(root, segments, 0, source) {
        Ok(after) => Ok(after),
        Err(message) => Err(Diag::bare(DiagnosticCode::NameAmbiguousImport, message)),
    }
}

/// The error of a module path, or the path; `found` is what the project's naming
/// rules make of a relative file.
pub open spec fn module_segments(
    found: Result<Option<Seq<Seq<char>>>, Seq<char>>,
    display: Seq<char>,
    allow_root: bool,
) -> Result<Seq<Seq<char>>, DiagModel> {
    match found {
        Err(message) => Err(bare_diag(DiagnosticCode::NameInvalidModulePath, message)),
        Ok(None) => Err(
            bare_diag(
                DiagnosticCode::NameInvalidModulePath,
                "not a Rua module source: "@ + display,
            ),
        ),
        Ok(Some(path)) => if path.len() == 0 && !allow_root {
            Err(
                bare_diag(
                    DiagnosticCode::NameAmbiguousImport,
                    "root-level `"@ + display
                        + "` needs an explicit library mount or must be the project entry"@,
                ),
            )
        } else {
            Ok(path)
        },
    }
}

/// What naming rules make of a relative file, over mathematical texts.
pub open spec fn found_model(found: Result<Option<Vec<String>>, String>) -> Result<
    Option<Seq<Seq<char>>>,
    Seq<char>,
> {
    match found {
        Ok(Some(path)) => Ok(Some(texts(path@))),
        Ok(None) => Ok(None),
        Err(message) => Err(message@),
    }
}

/// The module path of a relative file. A file at the root of a scope stands for
/// a module only below a mount.
pub fn module_path_with_root(
    found: Result<Option<Vec<String>>, String>,
    display: &str,
    allow_root: bool,
) -> (r: Result<Vec<String>, Diag>)
    ensures
        match r {
            Ok(path) => module_segments(found_model(found), display@, allow_root) == Ok::<
                Seq<Seq<char>>,
                DiagModel,
            >(texts(path@)),
            Err(error) => module_segments(found_model(found), display@, allow_root) == Err::<
                Seq<Seq<char>>,
                DiagModel,
            >(error.model()),
        },
{
    match found {
        Err(message) => Err(Diag::bare(DiagnosticCode::NameInvalidModulePath, message)),
        Ok(None) => Err(
            Diag::bare(
                DiagnosticCode::NameInvalidModulePath,
                cat2("not a Rua module source: ", display),
            ),
        ),
        Ok(Some(path)) => {
            proof {
                assert(texts(path@).len() == path@.len());
            }
            if path.len() == 0 && !allow_root {
                Err(
                    Diag::bare(
                        DiagnosticCode::NameAmbiguousImport,
                        cat3(
                            "root-level `",
                            display,
                            "` needs an explicit library mount or must be the project entry",
                        ),
                    ),
                )
            } else {
                Ok(path)
            }
        },
    }
}

proof fn lemma_marked_again(items: Seq<ItemTree>)
    ensures
        marked_items(marked_items(items)) == marked_items(items),
    decreases items,
{
    let once = marked_items(items);
    assert forall|i: int| 0 <= i < items.len() implies #[trigger] marked_items(once)[i]
        == once[i] by {
        if let ItemTree::Mod(module) = items[i] {
            assert(decreases_to!(items => items[i]));
            lemma_marked_again(module.items);
        }
    }
    assert(marked_items(once) =~= once);
}

/// Marking a declaration file again changes nothing.
pub proof fn law_marking_is_idempotent(items: Seq<ItemTree>)
    ensures
        marked_items(marked_items(items)) == marked_items(items),
{
    lemma_marked_again(items);
}

/// Whether all modules among items, and all modules below them, are declarations.
pub open spec fn only_declarations(items: Seq<ItemTree>) -> bool
    decreases items,
{
    forall|i: int|
        0 <= i < items.len() ==> match #[trigger] items[i] {
            ItemTree::Mod(module) => module.is_decl && only_declarations(module.items),
            _ => true,
        }
}

/// A declaration file is declaration-only down to its innermost modules.
pub proof fn law_marking_reaches_every_module(items: Seq<ItemTree>)
    ensures
        only_declarations(marked_items(items)),
    decreases items,
{
    let marked = marked_items(items);
    assert forall|i: int| 0 <= i < marked.len() implies match #[trigger] marked[i] {
        ItemTree::Mod(module) => module.is_decl && only_declarations(module.items),
        _ => true,
    } by {
        if let ItemTree::Mod(module) = items[i] {
            assert(decreases_to!(items => items[i]));
            law_marking_reaches_every_module(module.items);
        }
    }
}

/// The file of the module with the names `segments[from..]` below a module.
pub open spec fn file_at(module: FoundModule, segments: Seq<Seq<char>>, from: int) -> Option<FoundFile>
    decreases segments.len() - from,
{
    if from < 0 || from >= segments.len() {
        module.source
    } else {
        let k = child_position(module.children, segments[from], 0);
        if k < module.children.len() && module.children[k].0 == segments[from] {
            file_at(module.children[k].1, segments, from + 1)
        } else {
            None
        }
    }
}

proof fn lemma_child_position(children: Seq<(Seq<char>, FoundModule)>, name: Seq<char>, from: int)
    requires
        0 <= from <= children.len(),
    ensures
        ({
            let k = child_position(children, name, from);
            &&& from <= k <= children.len()
            &&& forall|i: int| from <= i < k ==> text_before(#[trigger] children[i].0, name)
            &&& k < children.len() ==> !text_before(children[k].0, name)
        }),
    decreases children.len() - from,
{
    if from < children.len() && text_before(children[from].0, name) {
        lemma_child_position(children, name, from + 1);
    }
}

proof fn lemma_position_is(
    children: Seq<(Seq<char>, FoundModule)>,
    name: Seq<char>,
    from: int,
    k: int,
)
    requires
        0 <= from <= k < children.len(),
        forall|i: int| from <= i < k ==> text_before(#[trigger] children[i].0, name),
        !text_before(children[k].0, name),
    ensures
        child_position(children, name, from) == k,
    decreases k - from,
{
    if from < k {
        assert(text_before(children[from].0, name));
        lemma_position_is(children, name, from + 1, k);
    }
}

proof fn lemma_not_before_itself(a: Seq<char>, i: int)
    requires
        0 <= i <= a.len(),
    ensures
        !crate::order::before_from(a, a, i),
    decreases a.len() - i,
{
    if i < a.len() {
        lemma_not_before_itself(a, i + 1);
    }
}

proof fn lemma_file_placed(
    module: FoundModule,
    segments: Seq<Seq<char>>,
    from: int,
    file: FoundFile,
)
    requires
        0 <= from <= segments.len(),
    ensures
        match with_file(module, segments, from, file) {
            Ok(after) => file_at(after, segments, from) == Some(
                match file_at(module, segments, from) {
                    Some(existing) => if existing.precedence < file.precedence {
                        existing
                    } else {
                        file
                    },
                    None => file,
                },
            ),
            Err(_) => file_at(module, segments, from) matches Some(existing) && existing.precedence
                == file.precedence,
        },
        file_at(module, segments, from) matches Some(existing) && existing.precedence
            == file.precedence ==> with_file(module, segments, from, file) is Err,
    decreases segments.len() - from,
{
    if from < segments.len() {
        let name = segments[from];
        let k = child_position(module.children, name, 0);
        lemma_child_position(module.children, name, 0);
        lemma_not_before_itself(name, 0);
        let known = k < module.children.len() && module.children[k].0 == name;
        let child = if known {
            module.children[k].1
        } else {
            nothing_found()
        };
        lemma_file_placed(child, segments, from + 1, file);
        if !known {
            assert(file_at(child, segments, from + 1) is None) by {
                lemma_nothing_found(segments, from + 1);
            }
        }
        if let Ok(inner) = with_file(child, segments, from + 1, file) {
            let after = if known {
                module.children.update(k, (name, inner))
            } else {
                module.children.insert(k, (name, inner))
            };
            assert forall|i: int| 0 <= i < k implies text_before(#[trigger] after[i].0, name) by {
                assert(text_before(module.children[i].0, name));
            }
            assert(after[k] == (name, inner));
            lemma_position_is(after, name, 0, k);
        }
    }
}

proof fn lemma_nothing_found(segments: Seq<Seq<char>>, from: int)
    ensures
        file_at(nothing_found(), segments, from) is None,
{
    if 0 <= from < segments.len() {
        lemma_child_position(Seq::<(Seq<char>, FoundModule)>::empty(), segments[from], 0);
    }
}

/// Of the files that map to one module, the one with the smallest precedence
/// stays, whichever came first. Two files of one precedence are refused, and
/// nothing else is.
pub proof fn law_smallest_precedence_stays(
    module: FoundModule,
    segments: Seq<Seq<char>>,
    file: FoundFile,
)
    ensures
        match with_file(module, segments, 0, file) {
            Ok(after) => file_at(after, segments, 0) == Some(
                match file_at(module, segments, 0) {
                    Some(existing) => if existing.precedence < file.precedence {
                        existing
                    } else {
                        file
                    },
                    None => file,
                },
            ),
            Err(_) => file_at(module, segments, 0) matches Some(existing) && existing.precedence
                == file.precedence,
        },
        file_at(module, segments, 0) matches Some(existing) && existing.precedence
            == file.precedence ==> with_file(module, segments, 0, file) is Err,
{
    lemma_file_placed(module, segments, 0, file);
}

} // verus!
