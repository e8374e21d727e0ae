use ruac::annotation_collect::build;
use ruac::annotation_metadata::metadata_document;
use ruac::annotations::{AnnotationIndex, AnnotationValue};
use ruac::ast::{
    Attribute, Block, ChunkEntry, ExprKind, Item, MetaItem, ModDecl, Pattern, Program, Stmt, Type,
    VariantKind,
};
use ruac::attributes::{apply_cfg, Expanded, ItemOutcome};
use ruac::backend_layout::BackendLayout;
use ruac::builtins::{BuiltinId, BuiltinTraitId, LanguageItem, StandardMetadata};
use ruac::check::check;
use ruac::codegen::cycle::find_module_dependency_cycle;
use ruac::codegen::output::{try_generate, try_generate_modules};
use ruac::compile::{
    check_diagnostics, parse_and_load_modules, parse_and_resolve, try_compile_modules,
};
use ruac::diag::{Diag, DiagnosticCode};
use ruac::hir::{
    DefKind, ModuleId, Namespace, PrimitiveType, ResolvedHir, ResolvedTarget, TraitTarget,
    TypeTarget,
};
use ruac::lexer::RuaLexer;
use ruac::module_tree::{FilePlaces, LoadedFile};
use ruac::parser::program::{
    parse_stream_within, parse_token_stream, parse_token_stream_with_file, parse_with_budget,
};
use ruac::parser::state::{ParseBudget, ParseError};
use ruac::project::{
    discover_project, load_project, parent_directory, LibraryMount, ProjectFile,
};
use ruac::resolution::members::collect_declarations;
use ruac::resolution::model::BuiltinNames;
use ruac::resolution::program::resolve;
use ruac::resolve::{insert_discovered_file, mark_decl, DiscoveredFile, DiscoveredModule};
use ruac::sources::{discover_sources, SourceFile, SourceRoot};
use ruac::stamp::set_file_program;
use ruac::standard_library::{
    load_builtins, parse_standard_library, LoadedStandardLibrary, StdLibrary,
};
use ruac::table::{Key, KeySet, Table};
use ruac::token::{RuaTokenKind as T, SourceRange, TokenData, Trivia};
use ruac::tokenize::{LexErrorKind, StrictTokenStream, TokenizeError};
use ruac::typed::{TypeInfo, TypedProgram};

/// The kind of a word, and the punctuation with its kinds, longest first.
fn word_kind(word: &str) -> T {
    match word {
        "as" => T::KwAs,
        "break" => T::KwBreak,
        "continue" => T::KwContinue,
        "dyn" => T::KwDyn,
        "else" => T::KwElse,
        "enum" => T::KwEnum,
        "extern" => T::KwExtern,
        "false" => T::KwFalse,
        "fn" => T::KwFn,
        "for" => T::KwFor,
        "if" => T::KwIf,
        "impl" => T::KwImpl,
        "in" => T::KwIn,
        "let" => T::KwLet,
        "loop" => T::KwLoop,
        "match" => T::KwMatch,
        "mod" => T::KwMod,
        "mut" => T::KwMut,
        "pub" => T::KwPub,
        "return" => T::KwReturn,
        "self" => T::KwSelf,
        "struct" => T::KwStruct,
        "trait" => T::KwTrait,
        "true" => T::KwTrue,
        "use" => T::KwUse,
        "while" => T::KwWhile,
        _ => T::Ident,
    }
}

fn marks() -> Vec<(&'static str, T)> {
    vec![
        ("..=", T::DotDotEq),
        ("::", T::ColonColon),
        ("->", T::Arrow),
        ("=>", T::FatArrow),
        ("..", T::DotDot),
        ("?.", T::QuestionDot),
        ("??", T::QuestionQuestion),
        ("&&", T::AndAnd),
        ("||", T::OrOr),
        ("==", T::EqEq),
        ("!=", T::Ne),
        ("<=", T::Le),
        (">=", T::Ge),
        ("+=", T::PlusEq),
        ("-=", T::MinusEq),
        ("*=", T::StarEq),
        ("/=", T::SlashEq),
        ("%=", T::PercentEq),
        ("(", T::LParen),
        (")", T::RParen),
        ("{", T::LBrace),
        ("}", T::RBrace),
        ("[", T::LBracket),
        ("]", T::RBracket),
        (",", T::Comma),
        (";", T::Semi),
        (":", T::Colon),
        (".", T::Dot),
        ("#", T::Hash),
        ("?", T::Question),
        ("&", T::Amp),
        ("|", T::Pipe),
        ("!", T::Not),
        ("=", T::Eq),
        ("<", T::Lt),
        (">", T::Gt),
        ("+", T::Plus),
        ("-", T::Minus),
        ("*", T::Star),
        ("/", T::Slash),
        ("%", T::Percent),
    ]
}

/// The tokens of an ASCII text, each with the trivia before it.
fn stream(text: &str) -> StrictTokenStream {
    let mut tokens: Vec<TokenData> = Vec::new();
    let mut trivia: Vec<Trivia> = Vec::new();
    let mut at = 0;
    let mut line = 1;
    while at < text.len() {
        let rest = &text[at..];
        let first = rest.chars().next().unwrap();
        let (kind, len) = if first.is_whitespace() {
            (
                T::Whitespace,
                rest.find(|c: char| !c.is_whitespace()).unwrap_or(rest.len()),
            )
        } else if rest.starts_with("//") {
            (T::LineComment, rest.find('\n').unwrap_or(rest.len()))
        } else if first.is_ascii_alphabetic() || first == '_' {
            let len = rest
                .find(|c: char| !c.is_ascii_alphanumeric() && c != '_')
                .unwrap_or(rest.len());
            (word_kind(&rest[..len]), len)
        } else if first.is_ascii_digit() {
            let digits = |from: usize| {
                from + rest[from..]
                    .find(|c: char| !c.is_ascii_digit())
                    .unwrap_or(rest.len() - from)
            };
            let whole = digits(0);
            let behind = &rest[whole..];
            if behind.starts_with('.') && behind[1..].starts_with(|c: char| c.is_ascii_digit()) {
                (T::Float, digits(whole + 1))
            } else {
                (T::Int, whole)
            }
        } else if first == '"' {
            (T::Str, rest[1..].find('"').unwrap() + 2)
        } else {
            let (mark, kind) = marks()
                .into_iter()
                .find(|(mark, _)| rest.starts_with(mark))
                .unwrap();
            (kind, mark.len())
        };
        let piece = rest[..len].to_string();
        if kind == T::Whitespace || kind == T::LineComment {
            trivia.push(Trivia {
                kind,
                text: piece.clone(),
            });
        } else {
            tokens.push(TokenData {
                kind,
                range: SourceRange::new(at, len, line),
                text: piece.clone(),
                leading_trivia: std::mem::take(&mut trivia),
            });
        }
        line += piece.matches('\n').count();
        at += len;
    }
    StrictTokenStream {
        text: text.to_string(),
        tokens,
        end: TokenData {
            kind: T::Eof,
            range: SourceRange::new(text.len(), 0, line),
            text: String::new(),
            leading_trivia: trivia,
        },
        fault: None,
    }
}

fn parse_in(text: &str, file: u32) -> Result<Program, ParseError> {
    parse_token_stream_with_file(&stream(text), file, ParseBudget::default())
}

fn parse(text: &str) -> Result<Program, ParseError> {
    parse_token_stream(&stream(text), ParseBudget::default())
}

/// The items of a text in which modules are written in place. Every stretch of
/// text between two modules has the identities of a file of its own.
fn items_with_modules(text: &str, next_file: &mut u32) -> Vec<Item> {
    let mut items = Vec::new();
    let mut rest = text;
    loop {
        let place = if rest.starts_with("mod ") {
            Some(0)
        } else {
            rest.find(" mod ").map(|at| at + 1)
        };
        let before = &rest[..place.unwrap_or(rest.len())];
        let file = *next_file;
        *next_file += 1;
        items.extend(parse_in(before, file).unwrap().items);
        let Some(start) = place else {
            return items;
        };
        let opening = start + rest[start..].find('{').unwrap();
        let mut depth = 0;
        let mut closing = opening;
        for (at, c) in rest[opening..].char_indices() {
            if c == '{' {
                depth += 1;
            } else if c == '}' {
                depth -= 1;
                if depth == 0 {
                    closing = opening + at;
                    break;
                }
            }
        }
        let inner = items_with_modules(&rest[opening + 1..closing], next_file);
        let source_order = (0..inner.len()).map(ChunkEntry::Item).collect();
        items.push(Item::Mod(ModDecl {
            name: rest[start + 4..opening].trim().to_string(),
            attributes: Vec::new(),
            documentation: None,
            items: inner,
            chunk: empty_block(),
            source_order,
            is_pub: false,
            is_file: false,
            is_decl: false,
        }));
        rest = &rest[closing + 1..];
    }
}

fn empty_block() -> Block {
    Block {
        stmts: Vec::new(),
        statement_blank_before: Vec::new(),
        tail: None,
        tail_blank_before: false,
    }
}

fn program_of(items: Vec<Item>) -> Program {
    Program {
        source_order: (0..items.len()).map(ChunkEntry::Item).collect(),
        items,
        chunk: empty_block(),
        is_decl: false,
        standard_library: None,
    }
}

fn fixture(text: &str) -> Program {
    let mut next_file = 0;
    program_of(items_with_modules(text, &mut next_file))
}

fn names() -> BuiltinNames {
    let mut types = Table::new();
    types.insert("String".to_string(), BuiltinId::TypeString);
    types.insert("Vec".to_string(), BuiltinId::TypeVec);
    types.insert("HashMap".to_string(), BuiltinId::TypeHashMap);
    types.insert("Option".to_string(), BuiltinId::TypeOption);
    types.insert("Result".to_string(), BuiltinId::TypeResult);
    let mut values = Table::new();
    values.insert("Some".to_string(), BuiltinId::VariantOptionSome);
    values.insert("None".to_string(), BuiltinId::VariantOptionNone);
    values.insert("Ok".to_string(), BuiltinId::VariantResultOk);
    values.insert("Err".to_string(), BuiltinId::VariantResultErr);
    let mut traits = Table::new();
    traits.insert("Add".to_string(), BuiltinTraitId::Add);
    BuiltinNames {
        types,
        values,
        macros: Table::new(),
        traits,
    }
}

fn prelude() -> LoadedStandardLibrary {
    let text = "pub enum Option<T> { Some(T), None } pub enum Result<T, E> { Ok(T), Err(E) } \
                pub struct Vec<T> {} impl<T> Vec<T> { pub fn new() {} } \
                pub struct HashMap<K, V> {} impl<K, V> HashMap<K, V> { pub fn new() {} }";
    LoadedStandardLibrary {
        items: parse_in(text, 100).unwrap().items,
        metadata: StandardMetadata {
            runtime_modules: Table::new(),
            named_runtime_modules: Table::new(),
            runtime_helpers: Table::new(),
            language_items: Table::new(),
        },
    }
}

fn at<K: Key, V: Copy>(table: &Table<K, V>, key: K) -> V {
    *table.get(&key).unwrap()
}

fn text(value: &str) -> String {
    value.to_string()
}

fn path(segments: &[&str]) -> Vec<String> {
    segments.iter().map(|segment| segment.to_string()).collect()
}

fn function(program: &Program, index: usize) -> &ruac::ast::FnDecl {
    let Item::Fn(function) = &program.items[index] else {
        panic!("expected a function");
    };
    function
}

fn callee(statement: &Stmt) -> &ruac::ast::Expr {
    let Stmt::Expr(call) = statement else {
        panic!("expected call statement");
    };
    let ExprKind::Call { callee, .. } = &call.kind else {
        panic!("expected call");
    };
    callee
}

fn no_types() -> TypeInfo {
    TypeInfo {
        iter_plans: Table::new(),
        pure_operators: KeySet::new(),
        option_maps: KeySet::new(),
        str_methods: KeySet::new(),
        result_tries: KeySet::new(),
        contains_kinds: Table::new(),
        int_divs: KeySet::new(),
        int_rems: KeySet::new(),
        str_concats: KeySet::new(),
        standard_methods: Table::new(),
        user_methods: Table::new(),
    }
}

fn typed(syntax: Program, hir: ResolvedHir, annotations: AnnotationIndex) -> TypedProgram {
    TypedProgram {
        syntax,
        hir,
        types: no_types(),
        annotations,
        single_public_types: Table::new(),
    }
}

fn compile(program: Program) -> String {
    let hir = resolve(&program, &names());
    assert!(hir.diagnostics.is_empty(), "{:?}", hir.diagnostics);
    let annotations = build(&program, &hir).unwrap();
    let typed = typed(program, hir, annotations);
    try_generate(&typed, &Vec::new()).unwrap().unwrap().source
}

#[test]
fn builds_identity_index_and_orders_arguments_by_schema() {
    let program = parse(
        r#"
        #[targets(function)]
        pub annotation Route(method: String, path: String);

        #[Route(path = "/users", method = "GET")]
        pub fn users() {}
        "#,
    )
    .unwrap();
    let hir = resolve(&program, &names());
    let index = build(&program, &hir).unwrap();
    assert_eq!(index.definitions().len(), 1);
    assert_eq!(index.instances().len(), 1);
    assert_eq!(index.instances()[0].arguments[0].0, "method");
    assert_eq!(index.instances()[0].arguments[1].0, "path");
}

#[test]
fn rejects_duplicate_non_repeatable_annotation() {
    let program = parse(
        r#"
        #[targets(function)]
        annotation Tag();
        #[Tag]
        #[Tag]
        fn tagged() {}
        "#,
    )
    .unwrap();
    let hir = resolve(&program, &names());
    let diagnostics = build(&program, &hir).unwrap_err();
    assert!(diagnostics
        .iter()
        .any(|diagnostic| diagnostic.diagnostic.code == DiagnosticCode::AnnotationDuplicate));
}

#[test]
fn validates_float_enum_and_list_arguments() {
    let program = parse(
        r#"
        enum Format { Json, MessagePack }
        #[targets(struct)]
        annotation Codec(weight: f64, formats: Vec<Format>);
        #[Codec(weight = 1.5, formats = [Format::Json, Format::MessagePack])]
        struct Payload {}
        "#,
    )
    .unwrap();
    let hir = resolve(&program, &names());
    let index = build(&program, &hir).unwrap();
    assert_eq!(index.instances().len(), 1);
    assert!(matches!(
        &index.instances()[0].arguments[1].1,
        AnnotationValue::List(values) if values.len() == 2
    ));
}

#[test]
fn annotation_declarations_do_not_emit_lua_definitions() {
    let program = parse(
        r#"
        #[targets(function)]
        annotation Trace(name: String);
        #[Trace(name = "users")]
        fn users() -> String { "ok" }
        users();
        "#,
    )
    .unwrap();
    let lua = compile(program);
    assert!(lua.contains("local function users"), "{}", lua);
    assert!(!lua.contains("Trace"));
    assert!(!lua.contains("annotation"));
}

#[test]
fn attributes_hold_words_values_and_lists() {
    let program = parse(
        r#"
        /// Documented.
        #[a::b(word, struct, text = "x", number = 16, share = 2.5, on = true, off = false)]
        #[c(path = d::E, list = [1, [2], "y",], nested(word, deep(inner = 3)),)]
        #[plain]
        pub struct S {}
        "#,
    )
    .unwrap();
    let Item::Struct(structure) = &program.items[0] else {
        panic!("expected a struct");
    };
    assert_eq!(structure.documentation.as_deref(), Some("Documented."));
    assert!(structure.is_pub);
    let names: Vec<&str> = structure.attributes.iter().map(|a| a.name.as_str()).collect();
    assert_eq!(names, ["a::b", "c", "plain"]);
    let first = &structure.attributes[0].items;
    assert_eq!(first.len(), 7);
    assert!(matches!(&first[0], MetaItem::Word(word) if word == "word"));
    assert!(matches!(&first[1], MetaItem::Word(word) if word == "struct"));
    let value = |item: &MetaItem| match item {
        MetaItem::NameValue { value, .. } => format!("{:?}", value),
        _ => String::new(),
    };
    let values: Vec<String> = first[2..].iter().map(value).collect();
    assert_eq!(
        values,
        [
            "String(\"x\")",
            "Integer(16)",
            "Float(\"2.5\")",
            "Bool(true)",
            "Bool(false)"
        ]
    );
    let second = &structure.attributes[1].items;
    assert_eq!(value(&second[0]), "Path(\"d::E\")");
    assert_eq!(
        value(&second[1]),
        "List([Integer(1), List([Integer(2)]), String(\"y\")])"
    );
    let MetaItem::List { name, items } = &second[2] else {
        panic!("expected a list");
    };
    assert_eq!(name, "nested");
    assert!(matches!(&items[1], MetaItem::List { name, items } if name == "deep" && items.len() == 1));
    assert!(structure.attributes[2].items.is_empty());
}

#[test]
fn members_have_attributes_of_their_own() {
    let program = parse(
        "struct S { #[f] a: i64 } enum E { #[v] A, B { #[w] b: i64 } } \
         impl S { #[m] pub fn g() {} } trait T { #[t] fn h(); } \
         #[i] impl S {} #[u] use a::b; #[e] extern \"lua\" { #[x] fn k(); }",
    )
    .unwrap();
    let marks = |list: &Vec<Attribute>| -> Vec<String> {
        list.iter().map(|attribute| attribute.name.clone()).collect()
    };
    let Item::Struct(s) = &program.items[0] else {
        panic!("expected a struct");
    };
    assert_eq!(marks(&s.fields[0].attributes), ["f"]);
    let Item::Enum(e) = &program.items[1] else {
        panic!("expected an enum");
    };
    assert_eq!(marks(&e.variants[0].attributes), ["v"]);
    let VariantKind::Struct(fields) = &e.variants[1].kind else {
        panic!("expected fields");
    };
    assert_eq!(marks(&fields[0].attributes), ["w"]);
    let Item::Impl(i) = &program.items[2] else {
        panic!("expected an impl");
    };
    assert_eq!(marks(&i.methods[0].attributes), ["m"]);
    let Item::Trait(t) = &program.items[3] else {
        panic!("expected a trait");
    };
    assert_eq!(marks(&t.methods[0].attributes), ["t"]);
    assert_eq!(marks(program.items[4].attributes()), ["i"]);
    assert_eq!(marks(program.items[5].attributes()), ["u"]);
    let Item::Extern(block) = &program.items[6] else {
        panic!("expected a host block");
    };
    assert_eq!(marks(&block.attributes), ["e"]);
    assert_eq!(marks(&block.fns[0].attributes), ["x"]);
}

#[test]
fn broken_attributes_are_refused() {
    let message = |text: &str| parse(text).unwrap_err().message;
    assert_eq!(
        message("#[1] fn f() {}"),
        "expected attribute name, found `integer literal`"
    );
    assert_eq!(
        message("#[a(b = ;)] fn f() {}"),
        "expected attribute value, found `;`"
    );
    assert_eq!(
        message("#[a(b = 9223372036854775808)] fn f() {}"),
        "attribute integer is out of range"
    );
    assert_eq!(message("#[a] let x = 1;"), "expected item (`fn`/`struct`/`enum`/`impl`/`trait`/`extern`/`use`), found `let`");
    let deep = |levels: usize| {
        format!("#[a(b = {}{})] fn f() {{}}", "[".repeat(levels), "]".repeat(levels))
    };
    assert!(parse(&deep(512)).is_ok());
    assert_eq!(
        message(&deep(513)),
        "parser nesting budget exceeded (limit 512)"
    );
}

#[test]
fn annotation_is_a_name_elsewhere() {
    let program = parse("fn annotation() {} annotation(); let annotation = 1;").unwrap();
    assert_eq!(program.items.len(), 1);
    assert_eq!(program.chunk.stmts.len(), 2);
}

fn outcome(active: bool) -> ItemOutcome {
    ItemOutcome {
        expanded: Ok(Expanded {
            active,
            attributes: Vec::new(),
        }),
        fields: Vec::new(),
        members: Vec::new(),
        items: Vec::new(),
    }
}

#[test]
fn cfg_filters_items_and_preserves_chunk_order() {
    let mut program = parse(
        r#"
        let before = 1;
        #[cfg(feature = "server")]
        fn server() -> i64 { 1 }
        let after = 2;
        "#,
    )
    .unwrap();
    apply_cfg(&mut program, vec![outcome(false)]).unwrap();
    assert!(program.items.is_empty());
    assert_eq!(program.chunk.stmts.len(), 2);
    assert_eq!(
        program.source_order,
        [ChunkEntry::Statement(0), ChunkEntry::Statement(1)]
    );
}

#[test]
fn cfg_attr_can_enable_an_item() {
    let mut program = parse(
        r#"
        #[cfg_attr(feature = "server", cfg(enabled))]
        fn server() -> i64 { 1 }
        "#,
    )
    .unwrap();
    apply_cfg(&mut program, vec![outcome(true)]).unwrap();
    assert_eq!(program.items.len(), 1);
}

#[test]
fn cfg_errors_are_reported() {
    let mut program =
        parse("fn gone() {} fn kept() {} let x = 1; fn server() -> i64 { 1 } fn rest() {}").unwrap();
    let mut broken = outcome(true);
    broken.expanded = Err(text("unknown predicate"));
    let order = program.source_order.clone();
    let outcomes = vec![outcome(false), outcome(true), broken, outcome(true)];
    assert_eq!(
        apply_cfg(&mut program, outcomes).unwrap_err(),
        "unknown predicate"
    );
    assert_eq!(program.items.len(), 1);
    assert_eq!(function(&program, 0).name, "kept");
    assert_eq!(program.chunk.stmts.len(), 1);
    assert_eq!(program.source_order, order);
}

#[test]
fn cfg_renumbers_the_items_that_stay() {
    let mut program = parse("fn a() {} let x = 1; fn b() {} fn c() {}").unwrap();
    apply_cfg(
        &mut program,
        vec![outcome(false), outcome(true), outcome(true)],
    )
    .unwrap();
    assert_eq!(function(&program, 0).name, "b");
    assert_eq!(
        program.source_order,
        [
            ChunkEntry::Statement(0),
            ChunkEntry::Item(0),
            ChunkEntry::Item(1)
        ]
    );
}

#[test]
fn declaration_collection_is_module_scoped_and_deterministic() {
    let program =
        fixture("mod left { struct Point {} fn make() {} } mod right { struct Point {} }");
    let hir = collect_declarations(&program, &names());
    assert!(hir.diagnostics.is_empty());
    assert_eq!(hir.modules.len(), 3);
    let left = hir.module(at(&hir.module(hir.root).scope.modules, text("left")));
    let right = hir.module(at(&hir.module(hir.root).scope.modules, text("right")));
    assert_ne!(
        at(&left.scope.types, text("Point")),
        at(&right.scope.types, text("Point"))
    );
    assert_eq!(left.path.join("::"), "left");
}

#[test]
fn qualified_and_variant_paths_resolve_to_identity() {
    let program =
        fixture("mod api { enum Status { Ready } fn helper() {} fn call() { helper(); } }");
    let hir = collect_declarations(&program, &names());
    let api = at(&hir.module(hir.root).scope.modules, text("api"));
    let helper = hir.resolve_path(api, Namespace::Value, &path(&["helper"]));
    let qualified = hir.resolve_path(hir.root, Namespace::Value, &path(&["api", "helper"]));
    assert_eq!(helper, qualified);
    assert!(matches!(helper, Some(ResolvedTarget::Item(_))));
    assert!(matches!(
        hir.resolve_path(api, Namespace::Value, &path(&["Status", "Ready"])),
        Some(ResolvedTarget::Item(_))
    ));
}

#[test]
fn associated_function_path_resolves_to_method_identity() {
    let program = fixture(
        "mod api { pub struct Value {} impl Value { pub fn make() -> Value { Value {} } } } fn run() { api::Value::make(); }",
    );
    let hir = resolve(&program, &names());
    assert!(hir.diagnostics.is_empty(), "{:?}", hir.diagnostics);
    let api = at(&hir.module(hir.root).scope.modules, text("api"));
    let value = at(&hir.module(api).scope.types, text("Value"));
    let method = at(&hir.associated_items, (value, text("make")));
    assert!(matches!(
        hir.definition(method).kind,
        DefKind::Method { owner } if owner == value
    ));
    let run = function(&program, 1);
    assert_eq!(
        at(&hir.expression_targets, callee(&run.body.stmts[0]).id),
        ResolvedTarget::Item(method)
    );
}

#[test]
fn body_resolution_preserves_alias_text_and_records_target() {
    let program = fixture("mod api { pub fn f() {} } use api::f as go; fn run() { go(); }");
    let hir = resolve(&program, &names());
    assert!(hir.diagnostics.is_empty());
    let api = at(&hir.module(hir.root).scope.modules, text("api"));
    let expected = hir
        .resolve_path(api, Namespace::Value, &path(&["f"]))
        .unwrap();
    let run = function(&program, 2);
    let callee = callee(&run.body.stmts[0]);
    assert!(matches!(&callee.kind, ExprKind::Path(path) if path == &["go"]));
    assert_eq!(at(&hir.expression_targets, callee.id), expected);
    assert_eq!(hir.imports[0].target, expected);
}

#[test]
fn module_enum_variant_alias_preserves_pattern_text_and_target() {
    let program = fixture(
        "mod api { pub enum Status { Ready, Code(i64) } } use api::Status::Code as C; fn run(value: api::Status) { match value { C(code) => code } }",
    );
    let hir = resolve(&program, &names());
    assert!(hir.diagnostics.is_empty(), "{:?}", hir.diagnostics);
    let run = function(&program, 2);
    let match_expression = run.body.tail.as_ref().expect("match tail expression");
    let ExprKind::Match { arms, .. } = &match_expression.kind else {
        panic!("expected match expression");
    };
    let Pattern::TupleVariant { id, path, .. } = &arms[0].pats[0] else {
        panic!("expected tuple variant pattern");
    };
    assert_eq!(path, &["C"]);
    let target = at(&hir.pattern_targets, *id);
    let definition = hir.definition(match target {
        ResolvedTarget::Item(definition) => definition,
        other => panic!("unexpected target: {:?}", other),
    });
    assert_eq!(definition.name, "Code");
}

#[test]
fn lexical_local_shadows_item_after_declaration() {
    let program =
        parse("fn value() -> i64 { 1 } fn run() { value(); let value = 2; value; }").unwrap();
    let hir = resolve(&program, &names());
    assert!(hir.diagnostics.is_empty());
    let run = function(&program, 1);
    let callee = callee(&run.body.stmts[0]);
    let Stmt::Expr(local_use) = &run.body.stmts[2] else {
        panic!("expected local use");
    };
    assert!(matches!(
        at(&hir.expression_targets, callee.id),
        ResolvedTarget::Item(_)
    ));
    assert!(matches!(
        at(&hir.expression_targets, local_use.id),
        ResolvedTarget::Local(_)
    ));
}

#[test]
fn qualified_sysroot_values_resolve_to_builtin_identity() {
    let mut program = parse(
        "fn run() { Option::Some(1); Result::Err(\"no\"); Vec::new(); HashMap::new(); }",
    )
    .unwrap();
    load_builtins(&mut program, prelude());
    let hir = resolve(&program, &names());
    assert!(hir.diagnostics.is_empty(), "{:?}", hir.diagnostics);
    let run = function(&program, 1);
    let expected = [
        BuiltinId::VariantOptionSome,
        BuiltinId::VariantResultErr,
        BuiltinId::AssociatedVecNew,
        BuiltinId::AssociatedHashMapNew,
    ];
    for (statement, expected) in run.body.stmts.iter().zip(expected) {
        assert_eq!(
            at(&hir.expression_targets, callee(statement).id),
            ResolvedTarget::Builtin(expected)
        );
    }
}

#[test]
fn type_and_trait_uses_resolve_to_exact_identity() {
    let program = fixture(
        "mod a { pub trait Read {} pub struct Item {} } mod b { pub trait Read {} pub struct Item {} } fn use_it<T: a::Read>(left: a::Item, right: b::Item) {}",
    );
    let hir = resolve(&program, &names());
    assert!(hir.diagnostics.is_empty(), "{:?}", hir.diagnostics);
    let a = at(&hir.module(hir.root).scope.modules, text("a"));
    let b = at(&hir.module(hir.root).scope.modules, text("b"));
    let function = function(&program, 2);
    let Type::Path { id: left, .. } = &function.params[0].ty else {
        panic!("expected path type");
    };
    let Type::Path { id: right, .. } = &function.params[1].ty else {
        panic!("expected path type");
    };
    assert_eq!(
        at(&hir.type_targets, *left),
        TypeTarget::Item(at(&hir.module(a).scope.types, text("Item")))
    );
    assert_eq!(
        at(&hir.type_targets, *right),
        TypeTarget::Item(at(&hir.module(b).scope.types, text("Item")))
    );
    assert_ne!(at(&hir.type_targets, *left), at(&hir.type_targets, *right));
    assert_eq!(
        at(&hir.trait_ref_targets, function.generics[0].bounds[0].id),
        TraitTarget::Item(at(&hir.module(a).scope.types, text("Read")))
    );
}

#[test]
fn builtin_injection_does_not_replace_user_expression_identity() {
    let mut program =
        fixture("mod api { fn add(v: i64) -> i64 { v } fn call() -> i64 { add(1) } }");
    load_builtins(&mut program, prelude());
    let hir = resolve(&program, &names());
    let Item::Mod(api) = &program.items[1] else {
        panic!("expected api module");
    };
    let Item::Fn(call) = &api.items[1] else {
        panic!("expected call function");
    };
    let tail = call.body.tail.as_ref().unwrap();
    let ExprKind::Call { callee, .. } = &tail.kind else {
        panic!("expected call");
    };
    assert!(matches!(
        hir.expression_targets.get(&callee.id),
        Some(ResolvedTarget::Item(_))
    ));
    let Item::Fn(add) = &api.items[0] else {
        panic!("expected add function");
    };
    let Type::Path { id, .. } = &add.params[0].ty else {
        panic!("expected parameter type");
    };
    assert_eq!(
        at(&hir.type_targets, *id),
        TypeTarget::Primitive(PrimitiveType::I64)
    );
}

#[test]
fn parser_keeps_items_and_statements_in_source_order() {
    let program = parse("let a = 1;\n\nfn f() {}\nlet b = 2;\n\nlet c = 3;").unwrap();
    assert_eq!(
        program.source_order,
        [
            ChunkEntry::Statement(0),
            ChunkEntry::Item(0),
            ChunkEntry::Statement(1),
            ChunkEntry::Statement(2)
        ]
    );
    assert_eq!(
        program.chunk.statement_blank_before,
        [false, false, true]
    );
}

#[test]
fn lower_case_names_bind_and_others_are_paths() {
    let program =
        parse("fn f(v: i64) { match v { x => 1, Ready => 2, _ => 3 } }").unwrap();
    let tail = function(&program, 0).body.tail.as_ref().unwrap();
    let ExprKind::Match { arms, .. } = &tail.kind else {
        panic!("expected match");
    };
    assert!(matches!(&arms[0].pats[0], Pattern::Binding(name, _) if name == "x"));
    assert!(matches!(&arms[1].pats[0], Pattern::Path { path, .. } if path == &["Ready"]));
    assert!(matches!(&arms[2].pats[0], Pattern::Wildcard));
}

#[test]
fn operators_bind_by_precedence() {
    let program = parse("let a = 1 + 2 * 3;").unwrap();
    let Stmt::Let { init, .. } = &program.chunk.stmts[0] else {
        panic!("expected let");
    };
    let ExprKind::Binary { op, rhs, .. } = &init.kind else {
        panic!("expected sum");
    };
    assert!(matches!(op, ruac::ast::BinOp::Add));
    assert!(matches!(
        &rhs.kind,
        ExprKind::Binary {
            op: ruac::ast::BinOp::Mul,
            ..
        }
    ));
}

#[test]
fn unexpected_tokens_are_reported_where_they_stand() {
    let error = parse("fn f( { }").unwrap_err();
    assert_eq!(error.diagnostic.code, DiagnosticCode::ParseUnexpectedToken);
    assert_eq!(error.line, 1);
}

#[test]
fn macros_are_parsed_by_any_name() {
    let program = parse("let a = vec![1, 2]; let b = other!(a, 3,); other![];").unwrap();
    let Stmt::Let { init: list, .. } = &program.chunk.stmts[0] else {
        panic!("expected a binding");
    };
    assert!(matches!(&list.kind, ExprKind::VecLit(elements) if elements.len() == 2));
    let Stmt::Let { init: call, .. } = &program.chunk.stmts[1] else {
        panic!("expected a binding");
    };
    assert!(
        matches!(&call.kind, ExprKind::MacroCall { name, args } if name == "other" && args.len() == 2)
    );
    let error = parse("let a = other!{1};").unwrap_err();
    assert_eq!(error.message, "expected `(` or `[` after `other!`, found `{`");
}

#[test]
fn macros_mean_what_the_compiler_knows() {
    let program = parse("let a = 1; other!(a, missing);").unwrap();
    let hir = resolve(&program, &names());
    let codes: Vec<DiagnosticCode> = hir.diagnostics.iter().map(|d| d.code).collect();
    assert_eq!(codes, [DiagnosticCode::NameUnresolved, DiagnosticCode::NameUnresolved]);
    assert_eq!(hir.diagnostics[0].arguments[0].1, "other");
    let mut known = names();
    known.macros.insert(text("other"), BuiltinId::AssociatedVecNew);
    let program = parse("let a = 1; other!(a);").unwrap();
    let hir = resolve(&program, &known);
    assert!(hir.diagnostics.is_empty());
    let Stmt::Expr(call) = &program.chunk.stmts[1] else {
        panic!("expected a statement");
    };
    assert_eq!(
        at(&hir.expression_targets, call.id),
        ResolvedTarget::Builtin(BuiltinId::AssociatedVecNew)
    );
}

#[test]
fn nesting_is_limited() {
    let budget = ParseBudget {
        max_tokens: 1000,
        max_nesting: 8,
    };
    let deep = format!("let a = {}1{};", "(".repeat(40), ")".repeat(40));
    let error = parse_token_stream(&stream(&deep), budget).unwrap_err();
    assert_eq!(error.diagnostic.code, DiagnosticCode::ParseResourceLimit);
    assert!(parse("let a = ((1));").is_ok());
}

#[test]
fn a_place_without_a_token_ends_the_parse() {
    let mut broken = stream("let a = 1;");
    broken.tokens.truncate(3);
    broken.fault = Some(TokenizeError {
        kind: LexErrorKind::UnterminatedString,
        range: SourceRange::new(8, 1, 1),
        message: text("unterminated string"),
    });
    let error = parse_token_stream(&broken, ParseBudget::default()).unwrap_err();
    assert_eq!(error.diagnostic.code, DiagnosticCode::ParseUnterminatedString);
}

#[test]
fn documentation_is_kept_with_its_item() {
    let program = parse("/// Adds one.\n/// And returns it.\nfn f() {}").unwrap();
    assert_eq!(
        function(&program, 0).documentation.as_deref(),
        Some("Adds one.\nAnd returns it.")
    );
}

#[test]
fn unresolved_names_are_reported() {
    let program = parse("fn run() { missing(); }").unwrap();
    let hir = resolve(&program, &names());
    assert_eq!(hir.diagnostics.len(), 1);
    assert_eq!(hir.diagnostics[0].code, DiagnosticCode::NameUnresolved);
}

#[test]
fn duplicate_definitions_are_reported() {
    let program = parse("struct A {} struct A {}").unwrap();
    let hir = resolve(&program, &names());
    assert_eq!(
        hir.diagnostics[0].code,
        DiagnosticCode::NameDuplicateDefinition
    );
}

#[test]
fn definitions_are_numbered_in_order() {
    let program = fixture("mod a { fn f() {} enum E { X, Y } } fn g() {}");
    let hir = collect_declarations(&program, &names());
    for (place, definition) in hir.definitions.iter().enumerate() {
        assert_eq!(definition.id.index(), place);
    }
    for (place, module) in hir.modules.iter().enumerate() {
        assert_eq!(module.id.index(), place);
    }
}

#[test]
fn functions_compile_to_lua() {
    let lua = compile(parse("fn add(a: i64, b: i64) -> i64 { a + b } add(1, 2);").unwrap());
    assert!(lua.contains("local function add(a, b)"), "{}", lua);
    assert!(lua.contains("return a + b"), "{}", lua);
    assert!(lua.contains("add(1, 2)"), "{}", lua);
}

#[test]
fn mutually_recursive_functions_share_one_group() {
    let program = parse(
        "fn even(n: i64) -> bool { odd(n) } fn odd(n: i64) -> bool { even(n) } fn last() { even(1); }",
    )
    .unwrap();
    let hir = resolve(&program, &names());
    let typed = typed(program, hir, AnnotationIndex::new());
    let groups = ruac::codegen::schedule::root_function_schedule(&typed);
    assert_eq!(groups.len(), 2);
    let mut first = groups[0].clone();
    first.sort();
    assert_eq!(first, [0, 1]);
    assert_eq!(groups[1], [2]);
}

fn util_module(is_declaration: bool) -> DiscoveredModule {
    insert_discovered_file(
        DiscoveredModule::new(),
        &path(&["util"]),
        DiscoveredFile {
            file_id: 1,
            display: text("util.rua"),
            is_declaration,
            precedence: 0,
        },
    )
    .unwrap()
}

fn load(root: &str, util: Result<&str, &str>) -> Result<(Program, Vec<String>), DiagnosticCode> {
    let loaded = vec![LoadedFile {
        file_id: 1,
        stream: util.map(stream).map_err(text),
    }];
    parse_and_load_modules(
        &stream(root),
        "main.rua",
        &loaded,
        FilePlaces::InOrder,
        util_module(false),
    )
    .map_err(|failure| failure.diagnostics[0].diagnostic.code)
}

#[test]
fn root_files_load_with_their_modules() {
    let (program, files) = load("util::f();", Ok("pub fn f() {}")).unwrap();
    assert_eq!(files, ["main.rua", "util.rua"]);
    assert_eq!(
        program.source_order,
        [ChunkEntry::Item(0), ChunkEntry::Statement(0)]
    );
    let Item::Mod(util) = &program.items[0] else {
        panic!("expected a module");
    };
    assert_eq!(util.name, "util");
    assert!(util.is_file);
    let Item::Fn(f) = &util.items[0] else {
        panic!("expected a function");
    };
    assert_eq!(f.name_span.file, 1);
}

#[test]
fn broken_modules_stop_the_program() {
    assert_eq!(
        load("let a = 1;", Err("denied")).unwrap_err(),
        DiagnosticCode::HostSourceRead
    );
    assert_eq!(
        load("let a = 1;", Ok("fn (")).unwrap_err(),
        DiagnosticCode::ParseUnexpectedToken
    );
    assert_eq!(
        load("let = 1;", Ok("fn f() {}")).unwrap_err(),
        DiagnosticCode::ParseUnexpectedToken
    );
}

#[test]
fn declaration_files_hold_nothing_to_execute() {
    let failure = parse_and_load_modules(
        &stream("let a = 1;"),
        "main.ruai",
        &Vec::new(),
        FilePlaces::InOrder,
        DiscoveredModule::new(),
    )
    .unwrap_err();
    assert_eq!(
        failure.diagnostics[0].diagnostic.code,
        DiagnosticCode::NameInvalidDeclaration
    );
    let (program, _) = parse_and_load_modules(
        &stream("struct A {}"),
        "main.ruai",
        &Vec::new(),
        FilePlaces::InOrder,
        DiscoveredModule::new(),
    )
    .unwrap();
    assert!(program.is_decl);
    assert!(program.standard_library.is_none());
    let (program, files) = parse_and_resolve(
        &stream("let a = 1;"),
        "lib/.ruai",
        &Vec::new(),
        FilePlaces::InOrder,
        DiscoveredModule::new(),
    )
    .unwrap();
    assert!(!program.is_decl);
    assert_eq!(files, ["lib/.ruai"]);
}

#[test]
fn file_modules_generate_their_own_lua() {
    let (program, _) = load("util::f();", Ok("pub fn f() -> i64 { 1 }")).unwrap();
    let hir = resolve(&program, &names());
    assert!(hir.diagnostics.is_empty(), "{:?}", hir.diagnostics);
    let typed = typed(program, hir, AnnotationIndex::new());
    assert!(check_diagnostics(&typed, Vec::new()).is_empty());
    let generated = try_generate_modules(&typed, "main.lua", &Vec::new())
        .unwrap()
        .unwrap();
    assert_eq!(generated.root_output_path, "main.lua");
    assert_eq!(generated.modules.len(), 2);
    assert_eq!(
        generated
            .modules
            .iter()
            .filter(|module| module.is_root)
            .count(),
        1
    );
}

#[test]
fn a_text_with_too_many_tokens_is_refused() {
    let budget = ParseBudget {
        max_tokens: 1,
        max_nesting: 512,
    };
    let error = parse_with_budget("a\nb", Err((2, 1)), budget).unwrap_err();
    assert_eq!(error.diagnostic.code, DiagnosticCode::ParseResourceLimit);
    assert_eq!(error.line, 2);
    assert_eq!(error.message, "token budget exceeded (limit 1)");
    let error = parse_stream_within(&stream("a\n\nb c"), 4, budget).unwrap_err();
    assert_eq!(error.diagnostic.code, DiagnosticCode::ParseResourceLimit);
    assert_eq!(error.diagnostic.file, Some(4));
    assert_eq!(error.line, 3);
    assert_eq!(error.message, "token budget exceeded (limit 1)");
    let enough = ParseBudget {
        max_tokens: 2,
        max_nesting: 512,
    };
    assert!(parse_stream_within(&stream("a;"), 0, enough).is_ok());
}

#[test]
fn a_module_with_too_many_tokens_is_refused() {
    let long = ";".repeat(1_000_001);
    let mut tokens = stream("");
    for at in 0..long.len() {
        tokens.tokens.push(TokenData {
            kind: T::Semi,
            range: SourceRange::new(at, 1, 1),
            text: text(";"),
            leading_trivia: Vec::new(),
        });
    }
    tokens.text = long;
    let failure = parse_and_load_modules(
        &tokens,
        "main.rua",
        &Vec::new(),
        FilePlaces::InOrder,
        DiscoveredModule::new(),
    )
    .unwrap_err();
    let limit = &failure.diagnostics[0];
    assert_eq!(limit.diagnostic.code, DiagnosticCode::ParseResourceLimit);
    assert_eq!(
        limit.msg,
        "parse error: token budget exceeded (limit 1000000)"
    );
    let failure = parse_and_load_modules(
        &stream("fn f() {}"),
        "main.rua",
        &vec![LoadedFile {
            file_id: 1,
            stream: Ok(tokens),
        }],
        FilePlaces::InOrder,
        util_module(false),
    )
    .unwrap_err();
    assert_eq!(
        failure.diagnostics[0].diagnostic.code,
        DiagnosticCode::ParseResourceLimit
    );
    assert_eq!(failure.files[0], "main.rua");
}

#[test]
fn a_cursor_that_meets_a_fault_has_left_its_token() {
    let mut tokens = stream("a b");
    tokens.fault = Some(TokenizeError {
        kind: LexErrorKind::UnknownCharacter,
        range: SourceRange::new(3, 1, 1),
        message: text("unknown character"),
    });
    let mut lexer = RuaLexer::from_stream(&tokens).unwrap();
    assert_eq!(lexer.current_text(), "a");
    let error = lexer.bump().unwrap_err();
    assert_eq!(error.message, "unknown character");
    assert_eq!(lexer.current_text(), "b");
    assert_eq!(lexer.previous_range(), SourceRange::new(0, 1, 1));
    assert_eq!(lexer.peek_next(), T::Ident);
}

#[test]
fn tokens_are_cut_from_their_text() {
    let tokens = stream("let  x // y\n= 1;");
    let mut lexer = RuaLexer::from_stream(&tokens).unwrap();
    let mut whole = String::new();
    loop {
        for piece in lexer.current_leading_trivia() {
            whole.push_str(&piece.text);
        }
        let range = lexer.current_range();
        assert_eq!(whole.len(), range.start);
        assert_eq!(
            lexer.current_text(),
            &lexer.origin_text()[range.start..range.start + range.len]
        );
        whole.push_str(lexer.current_text());
        if lexer.current() == T::Eof {
            break;
        }
        lexer.bump().unwrap();
    }
    assert_eq!(whole, lexer.origin_text());
}

#[test]
fn resolution_leaves_the_library_tables_empty() {
    let hir = resolve(&parse("fn f() {}").unwrap(), &names());
    assert!(hir.language_items.entries.is_empty());
    assert!(hir.standard_runtimes.entries.is_empty());
    assert!(hir.named_runtimes.entries.is_empty());
    assert!(hir.runtime_helpers.entries.is_empty());
}

fn layout_program(text: &str) -> TypedProgram {
    let program = fixture(text);
    let hir = resolve(&program, &names());
    assert!(hir.diagnostics.is_empty(), "{:?}", hir.diagnostics);
    let annotations = build(&program, &hir).unwrap();
    typed(program, hir, annotations)
}

#[test]
fn places_of_a_layout_differ() {
    let program = layout_program(
        "struct S {} enum E { A, B } impl S { fn m() {} } trait T { fn t(); } \
         mod a { fn f() {} mod b { fn f() {} } } fn a() {} fn f() {}",
    );
    let layout = BackendLayout::try_new(&program).unwrap();
    let mut seen: Vec<String> = Vec::new();
    for definition in &program.hir.definitions {
        let place = layout.definition(definition.id).map(|place| place.text());
        let owner = |owner| layout.definition(owner).map(|place| place.text());
        match definition.kind {
            DefKind::Function
            | DefKind::Struct
            | DefKind::Enum
            | DefKind::ExternFunction { .. } => {
                let place = place.unwrap();
                assert!(!seen.contains(&place), "{place}");
                seen.push(place);
            }
            DefKind::EnumVariant { owner: above, .. } => assert_eq!(place, owner(above)),
            DefKind::Method { owner: above } => {
                assert_eq!(place.unwrap(), owner(above).unwrap() + "." + &definition.name);
            }
            _ => assert_eq!(place, None),
        }
    }
    assert_eq!(seen.len(), 6);
    assert!(layout.module(program.hir.root).is_none());
}

#[test]
fn locals_share_names_and_avoid_declarations() {
    let program = layout_program("fn x() {} fn g() { let x = 1; x; } fn h() { let x = 2; let y = x; y; }");
    let layout = BackendLayout::try_new(&program).unwrap();
    let root = program.hir.root;
    let mut by_source: Vec<(String, String)> = Vec::new();
    for local in &program.hir.locals {
        let place = layout.target(ResolvedTarget::Local(local.id)).unwrap();
        assert!(place.fields.is_empty());
        assert_eq!(layout.local_name(root, &local.name), place.text());
        by_source.push((local.name.clone(), place.text()));
    }
    for (source, name) in &by_source {
        for (other, same) in &by_source {
            assert_eq!(source == other, name == same);
        }
        assert_ne!(name, "x");
        assert_ne!(name, "g");
    }
    assert_eq!(layout.local_name(root, "nothing"), "nothing");
}

#[test]
fn identities_follow_the_order_of_declaration() {
    let program = layout_program(
        "enum E { A, B } struct S {} impl S { fn m() { let a = 1; let b = a; b; } } \
         mod x { fn f() {} mod y { fn g() { let c = 2; c; } } }",
    );
    for (index, definition) in program.hir.definitions.iter().enumerate() {
        assert_eq!(definition.id.0 as usize, index);
        if let DefKind::EnumVariant { owner, .. } | DefKind::Method { owner } = definition.kind {
            assert!(owner.0 < definition.id.0);
        }
    }
    for (index, module) in program.hir.modules.iter().enumerate() {
        assert_eq!(module.id.0 as usize, index);
    }
    for (index, local) in program.hir.locals.iter().enumerate() {
        assert_eq!(local.id.0 as usize, index);
    }
    assert_eq!(program.hir.locals.len(), 3);
}

#[test]
fn locals_avoid_the_modules_that_a_file_requires() {
    let program = layout_program(
        "mod util { pub fn help() {} } fn f() { let util = 1; let __rua_dep_util = util; __rua_dep_util; }",
    );
    let root = program.hir.root;
    let layout = BackendLayout::try_for_module(&program, root, "__rua_module").unwrap();
    let required: Vec<String> = program
        .hir
        .modules
        .iter()
        .filter(|module| module.id != root)
        .map(|module| layout.module(module.id).unwrap().text())
        .collect();
    assert_eq!(required, ["__rua_dep_util"]);
    for local in &program.hir.locals {
        let name = layout.target(ResolvedTarget::Local(local.id)).unwrap().text();
        assert!(!required.contains(&name), "{name}");
    }
}

#[test]
fn runtime_imports_have_their_own_names() {
    let program = layout_program("fn string() {} mod text { fn f() {} } fn g() { let list = 1; list; }");
    let mut layout = BackendLayout::try_new(&program).unwrap();
    assert_eq!(layout.runtime_module_alias("number"), "number");
    assert_eq!(layout.runtime_module_alias("number"), "number__runtime");
    assert_eq!(layout.runtime_module_alias("number"), "number__runtime_");
    assert_eq!(layout.runtime_module_alias("string"), "string__runtime");
    assert_eq!(layout.runtime_module_alias("text"), "text__runtime");
    assert_eq!(layout.runtime_module_alias("list"), "list__runtime");
    assert_ne!(layout.runtime_module_alias("rt"), "rt");
}

#[test]
fn structural_errors_stop_modules_first() {
    let type_error = || {
        vec![Diag::bare(
            DiagnosticCode::HostProjectInvalid,
            text("a type error"),
        )]
    };
    let files = vec![text("main.rua")];
    let bad = |source: &str| {
        let program = parse(source).unwrap();
        let hir = resolve(&program, &names());
        let annotations = build(&program, &hir).unwrap();
        typed(program, hir, annotations)
    };
    let program = bad("enum E { A(i64) } fn f() { E::A(1, 2); }");
    let failure = try_compile_modules(&program, type_error(), "main.lua", &Vec::new(), &files)
        .unwrap()
        .unwrap_err();
    assert!(failure.contains("expects 1 argument(s), got 2"), "{}", failure.render());
    assert!(!failure.contains("a type error"));
    let program = bad("fn f() {}");
    let failure = try_compile_modules(&program, type_error(), "main.lua", &Vec::new(), &files)
        .unwrap()
        .unwrap_err();
    assert!(failure.contains("a type error"));
    let modules = try_compile_modules(&program, Vec::new(), "main.lua", &Vec::new(), &files)
        .unwrap()
        .unwrap();
    assert_eq!(modules.root_output_path, "main.lua");
    assert_eq!(modules.source_files, ["main.rua"]);
    let failure = try_compile_modules(&program, Vec::new(), "main", &Vec::new(), &files)
        .unwrap()
        .unwrap_err();
    assert_eq!(
        failure.diagnostics[0].diagnostic.code,
        DiagnosticCode::HostProjectInvalid
    );
}

fn project_file(path: &str, file_id: u32, segments: &[&str], libraries: usize) -> ProjectFile {
    ProjectFile {
        path: text(path),
        file_id,
        in_scope: Ok(Some(self::path(segments))),
        in_libraries: (0..libraries)
            .map(|_| Ok(Some(self::path(&segments[1..]))))
            .collect(),
    }
}

#[test]
fn a_project_finds_its_modules() {
    let libraries = vec![LibraryMount {
        name: text("host"),
        base: text("vendor/host"),
    }];
    let files = vec![
        project_file("README.md", 9, &["README"], 1),
        project_file("src/main.rua", 4, &["main"], 1),
        project_file("src/net/http.rua", 5, &["net", "http"], 1),
        project_file("src/net/http.ruai", 6, &["net", "http"], 1),
        project_file("srcs/other.rua", 7, &["other"], 1),
        project_file("vendor/host/io.ruai", 8, &["vendor", "io"], 1),
        project_file("vendor/host/io.rua", 10, &["vendor", "io"], 1),
    ];
    let found = discover_project(&files, 4, "src", &libraries).unwrap();
    let names: Vec<&str> = found.children.iter().map(|(name, _)| name.as_str()).collect();
    assert_eq!(names, ["host", "net"]);
    let http = found.children[1].1.children[0].1.source.as_ref().unwrap();
    assert_eq!((http.file_id, http.is_declaration, http.precedence), (5, false, 0));
    let io = found.children[0].1.children[0].1.source.as_ref().unwrap();
    assert_eq!((io.file_id, io.is_declaration, io.precedence), (8, true, 2));
    assert_eq!(io.display, "vendor/host/io.ruai");
    assert_eq!(parent_directory("src/main.rua"), "src");
    assert_eq!(parent_directory("main.rua"), "");
}

fn source_root(prefix: &[&str], is_declaration: bool, files: &[(u32, &[&str])]) -> SourceRoot {
    SourceRoot {
        prefix: path(prefix),
        is_declaration,
        files: files
            .iter()
            .map(|(file_id, segments)| {
                Ok(SourceFile {
                    file_id: *file_id,
                    display: format!("file {file_id}"),
                    relative: segments.join("/"),
                    named: Some(Ok(Some(path(segments)))),
                })
            })
            .collect(),
    }
}

#[test]
fn earlier_roots_come_first() {
    let roots = vec![
        source_root(&[], false, &[(1, &["a"]), (2, &["b", "c"])]),
        source_root(&[], true, &[(3, &["a"]), (4, &["d"])]),
        source_root(&["host"], true, &[(5, &[]), (6, &["io"])]),
    ];
    let found = discover_sources(roots).unwrap();
    let names: Vec<&str> = found.children.iter().map(|(name, _)| name.as_str()).collect();
    assert_eq!(names, ["a", "b", "d", "host"]);
    let source = |index: usize| found.children[index].1.source.as_ref().unwrap();
    assert_eq!((source(0).file_id, source(0).precedence), (1, 0));
    assert_eq!((source(2).file_id, source(2).is_declaration), (4, true));
    assert_eq!((source(3).file_id, source(3).precedence), (5, 2));
    assert!(found.children[1].1.source.is_none());
}

#[test]
fn the_first_bad_source_stops_a_search() {
    let code = |roots: Vec<SourceRoot>| discover_sources(roots).unwrap_err().diagnostic.code;
    let mut unread = source_root(&[], true, &[]);
    unread.files.push(Err(Diag::bare(
        DiagnosticCode::HostSourceRead,
        text("reading directory lib"),
    )));
    assert_eq!(
        code(vec![source_root(&[], false, &[(1, &[])]), unread]),
        DiagnosticCode::NameAmbiguousImport
    );
    let mut unread = source_root(&[], true, &[]);
    unread.files.push(Err(Diag::bare(
        DiagnosticCode::HostSourceRead,
        text("reading directory lib"),
    )));
    assert_eq!(
        code(vec![unread, source_root(&[], false, &[(1, &[])])]),
        DiagnosticCode::HostSourceRead
    );
    let mut alone = source_root(&["host"], true, &[(7, &["x"])]);
    if let Ok(file) = &mut alone.files[0] {
        file.named = None;
    }
    let found = discover_sources(vec![alone]).unwrap();
    assert_eq!(found.children[0].1.source.as_ref().unwrap().file_id, 7);
}

#[test]
fn a_project_refuses_bad_files() {
    let code = |files: &Vec<ProjectFile>| {
        discover_project(files, 0, "", &Vec::new())
            .unwrap_err()
            .diagnostic
            .code
    };
    let mut bad = vec![project_file("a.rua", 1, &["a"], 0)];
    bad[0].in_scope = Err(text("bad name"));
    assert_eq!(code(&bad), DiagnosticCode::NameInvalidModulePath);
    bad[0].in_scope = Ok(None);
    assert_eq!(code(&bad), DiagnosticCode::NameInvalidModulePath);
    bad[0].in_scope = Ok(Some(Vec::new()));
    assert_eq!(code(&bad), DiagnosticCode::NameAmbiguousImport);
    let twice = vec![
        project_file("a.rua", 1, &["a"], 0),
        project_file("a/mod.rua", 2, &["a"], 0),
    ];
    assert_eq!(code(&twice), DiagnosticCode::NameAmbiguousImport);
}

#[test]
fn a_project_is_loaded_from_its_root() {
    let loaded = vec![
        LoadedFile {
            file_id: 2,
            stream: Ok(stream("fn main() {}")),
        },
        LoadedFile {
            file_id: 0,
            stream: Ok(stream("pub fn help() {}")),
        },
    ];
    let files = vec![
        project_file("src/main.rua", 2, &["main"], 0),
        project_file("src/util.rua", 0, &["util"], 0),
    ];
    let (program, registry) = load_project(&loaded, &files, 2, &Vec::new()).unwrap();
    assert_eq!(registry, ["src/util.rua", "", "src/main.rua"]);
    assert!(!program.is_decl);
    assert_eq!(function(&program, 0).name_span.file, 2);
    let Item::Mod(util) = &program.items[1] else {
        panic!("expected a module");
    };
    assert_eq!(util.name, "util");
    let failure = load_project(&loaded, &files, 7, &Vec::new()).unwrap_err();
    assert_eq!(
        failure.diagnostics[0].msg,
        "project root_file is not present in ProjectSpec.files"
    );
    assert!(failure.files.is_empty());
    let failure = load_project(&Vec::new(), &files, 2, &Vec::new()).unwrap_err();
    assert_eq!(
        failure.diagnostics[0].diagnostic.code,
        DiagnosticCode::HostSourceRead
    );
}

#[test]
fn other_files_take_no_part_in_a_project() {
    let mut files = vec![
        project_file("src/a.rua", 1, &["a"], 0),
        project_file("docs/b.rua", 2, &["b"], 0),
    ];
    let with = discover_project(&files, 0, "src", &Vec::new()).unwrap();
    files.remove(1);
    let without = discover_project(&files, 0, "src", &Vec::new()).unwrap();
    assert_eq!(format!("{with:?}"), format!("{without:?}"));
}

#[test]
fn the_last_stamp_stays() {
    let mut program = parse("fn f(a: i64) { a; }").unwrap();
    set_file_program(&mut program, 3);
    set_file_program(&mut program, 5);
    let f = function(&program, 0);
    assert_eq!(f.name_span.file, 5);
    assert_eq!(f.params[0].name_span.file, 5);
    let Stmt::Expr(use_of_a) = &f.body.stmts[0] else {
        panic!("expected a statement");
    };
    assert_eq!(use_of_a.id.file, 5);
}

#[test]
fn marking_declarations_again_changes_nothing() {
    let mut items = fixture("mod a { mod b { fn f() {} } }").items;
    mark_decl(&mut items);
    mark_decl(&mut items);
    let Item::Mod(a) = &items[0] else {
        panic!("expected a module");
    };
    let Item::Mod(b) = &a.items[0] else {
        panic!("expected a module");
    };
    assert!(a.is_decl && b.is_decl);
}

#[test]
fn metadata_lists_schemas_and_instances() {
    let program = parse(
        "#[targets(function)] pub annotation Route(method: String); \
         #[Route(method = \"GET\")] pub fn users() {}",
    )
    .unwrap();
    let hir = resolve(&program, &names());
    let index = build(&program, &hir).unwrap();
    let document = metadata_document(&index, &hir, None);
    assert_eq!(document.version, 1);
    assert_eq!(document.definitions.len(), 1);
    assert_eq!(document.definitions[0].name, "Route");
    assert_eq!(document.definitions[0].targets, ["function"]);
    assert_eq!(document.definitions[0].parameters[0].ty, "String");
    assert_eq!(document.instances[0].target, "users");
    assert!(metadata_document(&index, &hir, Some("Other"))
        .definitions
        .is_empty());
}

#[test]
fn wrong_annotation_arguments_are_reported() {
    let codes = |arguments: &str| -> Vec<DiagnosticCode> {
        let program = parse(&format!(
            "#[targets(function)] annotation Tag(name: String); #[Tag{arguments}] fn tagged() {{}}"
        ))
        .unwrap();
        let hir = resolve(&program, &names());
        match build(&program, &hir) {
            Ok(_) => Vec::new(),
            Err(diagnostics) => diagnostics.iter().map(|d| d.diagnostic.code).collect(),
        }
    };
    assert!(codes("(name = \"a\")").is_empty());
    assert_eq!(codes(""), [DiagnosticCode::AnnotationInvalidArguments]);
    assert_eq!(
        codes("(name = 1)"),
        [DiagnosticCode::AnnotationInvalidArguments]
    );
}

#[test]
fn unknown_annotations_and_targets_are_reported() {
    let code = |name: &str, target: &str| -> DiagnosticCode {
        let program = parse(&format!(
            "#[targets({target})] annotation Tag(); #[{name}] fn tagged() {{}}"
        ))
        .unwrap();
        let hir = resolve(&program, &names());
        build(&program, &hir).unwrap_err()[0].diagnostic.code
    };
    assert_eq!(
        code("Missing", "function"),
        DiagnosticCode::AnnotationUnresolved
    );
    assert_eq!(code("Tag", "struct"), DiagnosticCode::AnnotationInvalidTarget);
}

#[test]
fn variant_calls_are_checked() {
    let program = parse("enum E { A(i64) } fn f() { E::A(1, 2); }").unwrap();
    let diagnostics = check(&program, &names()).unwrap_err();
    assert!(
        diagnostics[0].msg.contains("expects 1 argument(s), got 2"),
        "{}",
        diagnostics[0].msg
    );
    let program = parse("enum E { A(i64) } fn f() { E::A(1); }").unwrap();
    assert!(check(&program, &names()).is_ok());
}

#[test]
fn private_items_stay_private() {
    let program = fixture("mod api { fn f() {} } fn run() { api::f(); }");
    let hir = resolve(&program, &names());
    assert_eq!(hir.diagnostics[0].code, DiagnosticCode::NamePrivateAccess);
}

#[test]
fn immutable_locals_stay_as_they_are() {
    let program = parse("fn f() { let a = 1; a = 2; }").unwrap();
    let hir = resolve(&program, &names());
    assert_eq!(
        hir.diagnostics[0].code,
        DiagnosticCode::TypeImmutableAssignment
    );
    let program = parse("fn f() { let mut a = 1; a = 2; }").unwrap();
    assert!(resolve(&program, &names()).diagnostics.is_empty());
}

#[test]
fn a_library_without_language_items_is_refused() {
    let library = StdLibrary {
        declarations: Vec::new(),
        modules: Vec::new(),
        runtime_helpers: Vec::new(),
        lang_items: Vec::new(),
    };
    assert_eq!(
        parse_standard_library(&library).unwrap_err(),
        "std.toml is missing language item `option`"
    );
}

#[test]
fn module_cycles_are_found() {
    let modules = vec![ModuleId::new(0), ModuleId::new(1)];
    let circle = vec![
        (modules[0], vec![modules[1]]),
        (modules[1], vec![modules[0]]),
    ];
    let cycle = find_module_dependency_cycle(&circle, &modules).unwrap();
    assert_eq!(cycle, [modules[0], modules[1], modules[0]]);
    let line = vec![(modules[0], vec![modules[1]]), (modules[1], vec![])];
    assert!(find_module_dependency_cycle(&line, &modules).is_none());
}

#[test]
fn names_end_with_their_block() {
    let program = parse("fn f() { loop { let a = 1; break; } a; }").unwrap();
    let hir = resolve(&program, &names());
    assert_eq!(hir.diagnostics.len(), 1);
    assert_eq!(hir.diagnostics[0].code, DiagnosticCode::NameUnresolved);
}

#[test]
fn bodies_add_no_declarations() {
    let program = fixture("mod a { pub fn f() {} } fn run() { a::f(); }");
    let declared = collect_declarations(&program, &names());
    let hir = resolve(&program, &names());
    assert_eq!(declared.definitions.len(), hir.definitions.len());
    assert_eq!(declared.modules.len(), hir.modules.len());
    for (before, after) in declared.definitions.iter().zip(&hir.definitions) {
        assert_eq!(before.name, after.name);
        assert_eq!(before.kind, after.kind);
    }
}

#[test]
fn source_maps_stay_in_the_text() {
    let program = parse("fn add(a: i64) -> i64 { let b = a; b } add(1);").unwrap();
    let hir = resolve(&program, &names());
    let typed = typed(program, hir, AnnotationIndex::new());
    let generated = try_generate(&typed, &Vec::new()).unwrap().unwrap();
    assert!(!generated.source_map.is_empty());
    for mapping in &generated.source_map {
        assert!(mapping.generated_start <= mapping.generated_end);
        assert!(mapping.generated_end <= generated.source.len());
    }
}

#[test]
fn language_items_come_in_the_order_of_their_paths() {
    let mut language_items = Table::new();
    language_items.insert(text("b"), LanguageItem::OptionSome);
    language_items.insert(text("a"), LanguageItem::Option);
    let metadata = StandardMetadata {
        runtime_modules: Table::new(),
        named_runtime_modules: Table::new(),
        runtime_helpers: Table::new(),
        language_items,
    };
    assert_eq!(
        metadata.language_items(),
        [("a", LanguageItem::Option), ("b", LanguageItem::OptionSome)]
    );
}

const HEAD: &str = "-- Generated by ruac (Rua -> Lua 5.5). Do not edit by hand.\n\n";

#[test]
fn loops_compile_to_loops() {
    let lua = compile(
        parse("fn f(n: i64) -> i64 { let mut s = 0; for i in 0..n { if i == 3 { continue; } s += i; } s }")
            .unwrap(),
    );
    let body = "---@return integer\n\
                local function f(n)\n\
                \x20   local s = 0\n\
                \x20   for i = 0, n - 1 do\n\
                \x20       if i == 3 then\n\
                \x20           goto continue\n\
                \x20       end\n\
                \x20       s = s + i\n\
                \x20       ::continue::\n\
                \x20   end\n\
                \x20   return s\n\
                end\n";
    assert_eq!(lua, format!("{HEAD}{body}"));
}

#[test]
fn matches_compile_to_tests_in_order() {
    let lua = compile(
        parse("enum E { A, B(i64) } fn f(e: E) -> i64 { match e { E::A => 0, E::B(n) if n > 1 => n, E::B(_) => 2 } }")
            .unwrap(),
    );
    let body = "---@class E\n\n\
                ---@return integer\n\
                local function f(e)\n\
                \x20   local __t1 = e\n\
                \x20   local __t2 = false\n\
                \x20   if not __t2 and (__t1.tag == \"A\") then\n\
                \x20       __t2 = true\n\
                \x20       return 0\n\
                \x20   end\n\
                \x20   if not __t2 and (__t1.tag == \"B\") then\n\
                \x20       local n = __t1[1]\n\
                \x20       if n > 1 then\n\
                \x20           __t2 = true\n\
                \x20           return n\n\
                \x20       end\n\
                \x20   end\n\
                \x20   if not __t2 and (__t1.tag == \"B\") then\n\
                \x20       __t2 = true\n\
                \x20       return 2\n\
                \x20   end\n\
                \x20   if not __t2 then error(\"non-exhaustive match\") end\n\
                end\n";
    assert_eq!(lua, format!("{HEAD}{body}"));
}

#[test]
fn lua_keywords_are_renamed() {
    let lua = compile(parse("fn end(repeat: i64) -> i64 { repeat } end(1);").unwrap());
    let body = "---@return integer\n\
                local function __rua_user_656e64(__rua_user_726570656174)\n\
                \x20   return __rua_user_726570656174\n\
                end\n\
                __rua_user_656e64(1)\n";
    assert_eq!(lua, format!("{HEAD}{body}"));
}
