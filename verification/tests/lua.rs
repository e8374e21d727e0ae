use ruac::lua_ir::{BinaryOp, Builder, Expr, FunctionTarget};
use ruac::lua_print::{print_with_source_map, SourceMapping};
use ruac::token::SourceRange;

#[test]
fn printer_owns_nested_control_flow_and_indentation() {
    let mut builder = Builder::new();
    builder.begin_function(
        FunctionTarget::path(vec!["M".into(), "run".into()]),
        vec!["x".into()],
    );
    builder.begin_if(Expr::name("x").binary(BinaryOp::Gt, Expr::integer("0")));
    builder.begin_while(Expr::name("x").binary(BinaryOp::Gt, Expr::integer("1")));
    builder.assign(
        Expr::name("x"),
        Expr::name("x").binary(BinaryOp::Sub, Expr::integer("1")),
    );
    builder.end_block();
    builder.begin_else_if(Expr::name("x").binary(BinaryOp::Eq, Expr::integer("0")));
    builder.return_values(vec![Expr::name("x")]);
    builder.begin_else();
    builder.begin_do();
    builder.return_values(vec![Expr::Nil]);
    builder.end_block();
    builder.end_block();
    builder.end_block();

    assert_eq!(
        print_with_source_map(&builder.finish()).source,
        "function M.run(x)\n\
         \x20   if x > 0 then\n\
         \x20       while x > 1 do\n\
         \x20           x = x - 1\n\
         \x20       end\n\
         \x20   elseif x == 0 then\n\
         \x20       return x\n\
         \x20   else\n\
         \x20       do\n\
         \x20           return nil\n\
         \x20       end\n\
         \x20   end\n\
         end\n"
    );
}

#[test]
fn printer_preserves_source_anchors_for_structured_statements() {
    let mut builder = Builder::new();
    let source = SourceRange {
        start: 7,
        len: 3,
        line: 2,
        file: 4,
    };
    builder.push_anchor(source);
    builder.local(vec!["value".into()], vec![Expr::integer("1")]);
    builder.pop_anchor();

    let printed = print_with_source_map(&builder.finish());
    assert_eq!(printed.source, "local value = 1\n");
    assert_eq!(
        printed.mappings,
        vec![SourceMapping {
            generated_start: 0,
            generated_end: printed.source.len(),
            source,
        }]
    );
}

#[test]
fn operands_are_parenthesized_by_precedence() {
    let mut builder = Builder::new();
    let sum = Expr::name("a").binary(BinaryOp::Add, Expr::name("b"));
    builder.return_values(vec![sum.binary(BinaryOp::Mul, Expr::name("c"))]);
    assert_eq!(
        print_with_source_map(&builder.finish()).source,
        "return (a + b) * c\n"
    );
}

#[test]
fn strings_are_quoted_for_lua() {
    assert_eq!(ruac::lua_ir::lua_string("a\"b\\c\n"), "\"a\\\"b\\\\c\\n\"");
    assert_eq!(ruac::lua_ir::lua_member("t", "end"), "t[\"end\"]");
    assert_eq!(ruac::lua_ir::lua_member("t", "name"), "t.name");
}
