use ruac::cli::{parse_command_args, parse_library_mount, validate_module_name, EmitMode};
use ruac::compile::CompileFailure;
use ruac::diag::{Diag, DiagnosticCode};
use ruac::documentation::{normalize_doc_comment, trim};
use ruac::reader::Reader;
use ruac::resolve::{insert_discovered_file, module_path_with_root, DiscoveredFile, DiscoveredModule};

fn args(list: &[&str]) -> Vec<String> {
    list.iter().map(|arg| arg.to_string()).collect()
}

#[test]
fn build_arguments_are_read_in_any_order() {
    let options =
        parse_command_args(&args(&["-o", "out.lua", "main.rua"]), "build", true).unwrap();
    assert_eq!(options.input, "main.rua");
    assert_eq!(options.output.as_deref(), Some("out.lua"));
    assert_eq!(options.emit, EmitMode::Bundle);
}

#[test]
fn a_command_without_a_file_is_refused() {
    assert_eq!(
        parse_command_args(&args(&[]), "check", false).unwrap_err(),
        "check: missing <file.rua>"
    );
    assert!(parse_command_args(&args(&["a.rua", "--unknown"]), "check", false).is_err());
    assert!(parse_command_args(&args(&["a.rua", "-o", "b.lua"]), "check", false).is_err());
}

#[test]
fn library_mounts_name_a_root_module() {
    assert_eq!(
        parse_library_mount("api=lib/api").unwrap(),
        ("api".to_string(), "lib/api".to_string())
    );
    assert!(parse_library_mount("api").is_err());
    assert!(validate_module_name("9api").is_err());
    assert!(validate_module_name("api").is_ok());
}

#[test]
fn reader_cuts_what_it_has_passed() {
    let mut reader = Reader::new("ab变c");
    reader.bump();
    reader.bump();
    assert_eq!(reader.current_text(), "ab");
    reader.reset_buff();
    reader.bump_char();
    assert_eq!(reader.current_text(), "变");
    assert_eq!(reader.current_char(), 'c');
    reader.bump();
    assert!(reader.is_eof());
}

#[test]
fn documentation_comments_are_normalized() {
    assert_eq!(normalize_doc_comment("/// One.", false).as_deref(), Some("One."));
    assert_eq!(normalize_doc_comment("// One.", false), None);
    assert_eq!(trim("  a b\t\n"), "a b");
}

#[test]
fn failures_render_their_causes() {
    let failure = CompileFailure::single(
        Diag::new(DiagnosticCode::NameUnresolved, 0, 4, 2, 3, "unresolved name `x`".to_string()),
        vec!["main.rua".to_string()],
    );
    assert_eq!(failure.structured_diagnostics().len(), 1);
    assert!(failure.contains("unresolved name `x`"), "{}", failure.render());
    assert!(failure.contains("main.rua:3"), "{}", failure.render());
    assert!(!failure.contains("no such text"));
}

#[test]
fn module_paths_need_a_place_below_a_root() {
    assert_eq!(
        module_path_with_root(Ok(Some(args(&["a", "b"]))), "a/b.rua", false).unwrap(),
        args(&["a", "b"])
    );
    assert!(module_path_with_root(Ok(Some(Vec::new())), "main.rua", false).is_err());
    assert!(module_path_with_root(Ok(Some(Vec::new())), "main.rua", true).is_ok());
}

fn found(display: &str, is_declaration: bool, precedence: usize) -> DiscoveredFile {
    DiscoveredFile {
        file_id: precedence as u32,
        display: display.to_string(),
        is_declaration,
        precedence,
    }
}

#[test]
fn discovery_keeps_the_file_of_smallest_precedence() {
    let tree = DiscoveredModule::new();
    let tree = insert_discovered_file(tree, &args(&["a", "b"]), found("x", true, 2)).unwrap();
    let tree = insert_discovered_file(tree, &args(&["a", "b"]), found("y", true, 1)).unwrap();
    assert_eq!(tree.children.len(), 1);
    assert_eq!(tree.children[0].0, "a");
    let (name, module) = &tree.children[0].1.children[0];
    assert_eq!(name, "b");
    assert_eq!(module.source.as_ref().unwrap().display, "y");
}

#[test]
fn reader_runs_over_equal_characters() {
    let mut reader = Reader::new("--->");
    assert_eq!(reader.eat_when('-'), 3);
    assert_eq!(reader.current_char(), '>');
    assert_eq!(reader.eat_when('-'), 0);
    let mut nulls = Reader::new("\0\0");
    assert_eq!(nulls.eat_when('\0'), 2);
    assert!(nulls.is_eof());
    assert_eq!(nulls.eat_when('\0'), 0);
}

#[test]
fn reader_tokens_make_up_the_text() {
    let text = "let 变 = 1;";
    let mut reader = Reader::new(text);
    let mut seen = String::new();
    for width in [3, 1, 1, 4, 9] {
        for _ in 0..width {
            reader.bump_char();
        }
        seen.push_str(reader.current_text());
        assert_eq!(seen, text[..reader.pos()]);
        reader.reset_buff();
        assert_eq!(reader.current_text(), "");
    }
    assert_eq!(seen, text);
}
