//! The deterministic pretty-printer of the Lua source tree, with source mappings.

use vstd::prelude::*;
use vstd::utf8::encode_utf8;

use crate::lua_ir::{
    entries_model, exprs_model, is_identifier, is_lua_identifier, lua_string, quoted, BinaryOp,
    Block, BranchModel, Entry, EntryModel, Expr, ExprModel, FieldModel, FunctionTarget, IfBranch,
    InlineModel, InlineStatement, Statement, StatementModel, TableField, TargetModel, UnaryOp,
    branches_model, fields_model, inlines_model,
};
use crate::text::{byte_len, cat2, cat3, cat4, cat5, join, joined};
use crate::token::SourceRange;

verus! {

impl BinaryOp {
    /// The operator in Lua text.
    pub open spec fn spec_source(self) -> Seq<char> {
        match self {
            BinaryOp::Or => "or"@,
            BinaryOp::And => "and"@,
            BinaryOp::Eq => "=="@,
            BinaryOp::Ne => "~="@,
            BinaryOp::Lt => "<"@,
            BinaryOp::Le => "<="@,
            BinaryOp::Gt => ">"@,
            BinaryOp::Ge => ">="@,
            BinaryOp::Concat => ".."@,
            BinaryOp::Add => "+"@,
            BinaryOp::Sub => "-"@,
            BinaryOp::Mul => "*"@,
            BinaryOp::Div => "/"@,
            BinaryOp::Rem => "%"@,
        }
    }

    /// How tightly the operator binds.
    pub open spec fn spec_precedence(self) -> u8 {
        match self {
            BinaryOp::Or => 1u8,
            BinaryOp::And => 2u8,
            BinaryOp::Eq => 3u8,
            BinaryOp::Ne => 3u8,
            BinaryOp::Lt => 3u8,
            BinaryOp::Le => 3u8,
            BinaryOp::Gt => 3u8,
            BinaryOp::Ge => 3u8,
            BinaryOp::Concat => 4u8,
            BinaryOp::Add => 5u8,
            BinaryOp::Sub => 5u8,
            BinaryOp::Mul => 6u8,
            BinaryOp::Div => 6u8,
            BinaryOp::Rem => 6u8,
        }
    }

    /// The operator in Lua text.
    pub fn source(self) -> (r: &'static str)
        ensures
            r@ == self.spec_source(),
    {
        match self {
            BinaryOp::Or => "or",
            BinaryOp::And => "and",
            BinaryOp::Eq => "==",
            BinaryOp::Ne => "~=",
            BinaryOp::Lt => "<",
            BinaryOp::Le => "<=",
            BinaryOp::Gt => ">",
            BinaryOp::Ge => ">=",
            BinaryOp::Concat => "..",
            BinaryOp::Add => "+",
            BinaryOp::Sub => "-",
            BinaryOp::Mul => "*",
            BinaryOp::Div => "/",
            BinaryOp::Rem => "%",
        }
    }

    /// How tightly the operator binds.
    pub fn precedence(self) -> (r: u8)
        ensures
            r == self.spec_precedence(),
            1 <= r <= 6,
    {
        match self {
            BinaryOp::Or => 1,
            BinaryOp::And => 2,
            BinaryOp::Eq => 3,
            BinaryOp::Ne => 3,
            BinaryOp::Lt => 3,
            BinaryOp::Le => 3,
            BinaryOp::Gt => 3,
            BinaryOp::Ge => 3,
            BinaryOp::Concat => 4,
            BinaryOp::Add => 5,
            BinaryOp::Sub => 5,
            BinaryOp::Mul => 6,
            BinaryOp::Div => 6,
            BinaryOp::Rem => 6,
        }
    }
}

/// The text in round brackets where they are needed.
pub open spec fn bracketed(text: Seq<char>, needed: bool) -> Seq<char> {
    if needed {
        "("@ + text + ")"@
    } else {
        text
    }
}

/// Whether a binary operation must be bracketed under its parent. Concatenation
/// associates to the right, every other operator to the left.
pub open spec fn needs_brackets(op: BinaryOp, parent: u8, right_child: bool) -> bool {
    op.spec_precedence() < parent || (op.spec_precedence() == parent && if op == BinaryOp::Concat {
        !right_child
    } else {
        right_child
    })
}

/// Whether a suffix can follow the expression without brackets.
pub open spec fn is_prefix(e: ExprModel) -> bool {
    e is Name || e is Field || e is Index || e is Call || e is MethodCall || e is Parenthesized
}

/// The text of an expression under a parent of this precedence.
pub open spec fn expr_text(e: ExprModel, parent: u8, right_child: bool) -> Seq<char>
    decreases e, 0int,
{
    match e {
        ExprModel::Nil => "nil"@,
        ExprModel::Bool(value) => if value {
            "true"@
        } else {
            "false"@
        },
        ExprModel::Integer(source) => source,
        ExprModel::Number(source) => source,
        ExprModel::StringLiteral(source) => source,
        ExprModel::Name(name) => name,
        ExprModel::Field { base, name } => bracketed(
            expr_text(*base, 0, false),
            !is_prefix(*base),
        ) + "."@ + name,
        ExprModel::Index { base, index } => bracketed(
            expr_text(*base, 0, false),
            !is_prefix(*base),
        ) + "["@ + expr_text(*index, 0, false) + "]"@,
        ExprModel::Call { callee, args } => bracketed(
            expr_text(*callee, 0, false),
            !is_prefix(*callee),
        ) + "("@ + exprs_text(args, 0) + ")"@,
        ExprModel::MethodCall { receiver, method, args } => bracketed(
            expr_text(*receiver, 0, false),
            !is_prefix(*receiver),
        ) + ":"@ + method + "("@ + exprs_text(args, 0) + ")"@,
        ExprModel::Unary { op, expression } => bracketed(
            unary_text(op) + expr_text(*expression, 7, false),
            7 < parent,
        ),
        ExprModel::Binary { left, op, right } => bracketed(
            expr_text(*left, op.spec_precedence(), false) + " "@ + op.spec_source() + " "@
                + expr_text(*right, op.spec_precedence(), true),
            needs_brackets(op, parent, right_child),
        ),
        ExprModel::Table(fields) => if fields.len() == 0 {
            "{}"@
        } else {
            "{ "@ + fields_text(fields, 0) + " }"@
        },
        ExprModel::Parenthesized(inner) => "("@ + expr_text(*inner, 0, false) + ")"@,
    }
}

/// The prefix of a unary operation.
pub open spec fn unary_text(op: UnaryOp) -> Seq<char> {
    match op {
        UnaryOp::Neg => "-"@,
        UnaryOp::Not => "not "@,
        UnaryOp::Len => "#"@,
    }
}

/// The texts of `list[from..]` with commas between them.
pub open spec fn exprs_text(list: Seq<ExprModel>, from: int) -> Seq<char>
    decreases list, list.len() - from,
{
    if from < 0 || from >= list.len() {
        Seq::empty()
    } else if from == list.len() - 1 {
        expr_text(list[from], 0, false)
    } else {
        expr_text(list[from], 0, false) + ", "@ + exprs_text(list, from + 1)
    }
}

/// A table key: the bare name where Lua allows it.
pub open spec fn key_text(name: Seq<char>) -> Seq<char> {
    if is_identifier(name) {
        name
    } else {
        "["@ + quoted(name) + "]"@
    }
}

/// The text of a table field.
pub open spec fn field_text(field: FieldModel) -> Seq<char>
    decreases field, 0int,
{
    match field {
        FieldModel::Named(name, value) => key_text(name) + " = "@ + expr_text(value, 0, false),
        FieldModel::Indexed(index, value) => "["@ + expr_text(index, 0, false) + "] = "@
            + expr_text(value, 0, false),
        FieldModel::Value(value) => expr_text(value, 0, false),
    }
}

/// The texts of `fields[from..]` with commas between them.
pub open spec fn fields_text(fields: Seq<FieldModel>, from: int) -> Seq<char>
    decreases fields, fields.len() - from,
{
    if from < 0 || from >= fields.len() {
        Seq::empty()
    } else if from == fields.len() - 1 {
        field_text(fields[from])
    } else {
        field_text(fields[from]) + ", "@ + fields_text(fields, from + 1)
    }
}

/// The text of a statement inside a compact `if`.
pub open spec fn inline_text(statement: InlineModel) -> Seq<char> {
    match statement {
        InlineModel::Expression(expression) => expr_text(expression, 0, false),
        InlineModel::Assign { target, value } => expr_text(target, 0, false) + " = "@ + expr_text(
            value,
            0,
            false,
        ),
        InlineModel::Return(values) => if values.len() == 0 {
            "return"@
        } else {
            "return "@ + exprs_text(values, 0)
        },
        InlineModel::Break => "break"@,
    }
}

/// The texts of `list[from..]` with semicolons between them.
pub open spec fn inlines_text(list: Seq<InlineModel>, from: int) -> Seq<char>
    decreases list.len() - from,
{
    if from < 0 || from >= list.len() {
        Seq::empty()
    } else if from == list.len() - 1 {
        inline_text(list[from])
    } else {
        inline_text(list[from]) + "; "@ + inlines_text(list, from + 1)
    }
}

/// The name that a function statement defines.
pub open spec fn target_text(target: TargetModel) -> Seq<char> {
    match target {
        TargetModel::Local(name) => name,
        TargetModel::Path(segments) => joined(segments, "."@),
        TargetModel::Method { receiver, method } => joined(receiver, "."@) + ":"@ + method,
    }
}

/// A generated byte range with the source range that it came from.
#[derive(Clone, Copy, Debug, PartialEq, Eq, Structural)]
pub struct SourceMapping {
    pub generated_start: usize,
    pub generated_end: usize,
    pub source: SourceRange,
}

/// Printed text with its mappings so far.
pub struct Page {
    pub out: Seq<char>,
    pub mappings: Seq<SourceMapping>,
}

impl Page {
    /// One more line.
    pub open spec fn line(self, indent: Seq<char>, text: Seq<char>) -> Page {
        Page { out: self.out + indent + text + "\n"@, ..self }
    }
}

/// The indentation of a nested block.
pub open spec fn deeper(indent: Seq<char>) -> Seq<char> {
    indent + "    "@
}

/// Prints `entries[from..]` and records a mapping for each anchored statement.
pub open spec fn print_entries(
    entries: Seq<EntryModel>,
    from: int,
    indent: Seq<char>,
    page: Page,
) -> Page
    decreases entries, entries.len() - from,
{
    if from < 0 || from >= entries.len() {
        page
    } else {
        print_entries(entries, from + 1, indent, print_entry(entries[from], indent, page))
    }
}

/// Prints one entry.
pub open spec fn print_entry(entry: EntryModel, indent: Seq<char>, page: Page) -> Page
    decreases entry, 0int,
{
    match entry {
        EntryModel::Blank => Page { out: page.out + "\n"@, ..page },
        EntryModel::Statement { anchor, statement } => {
            let after = print_statement(statement, indent, page);
            match anchor {
                None => after,
                Some(source) => Page {
                    mappings: after.mappings.push(
                        SourceMapping {
                            generated_start: encode_utf8(page.out).len() as usize,
                            generated_end: encode_utf8(after.out).len() as usize,
                            source,
                        },
                    ),
                    ..after
                },
            }
        },
    }
}

/// Prints one statement.
pub open spec fn print_statement(statement: StatementModel, indent: Seq<char>, page: Page) -> Page
    decreases statement, 0int,
{
    match statement {
        StatementModel::Annotation(source) => page.line(indent, source),
        StatementModel::Expression(expression) => page.line(
            indent,
            expr_text(expression, 0, false),
        ),
        StatementModel::Local { names, values } => page.line(
            indent,
            if values.len() == 0 {
                "local "@ + joined(names, ", "@)
            } else {
                "local "@ + joined(names, ", "@) + " = "@ + exprs_text(values, 0)
            },
        ),
        StatementModel::Assign { targets, values } => page.line(
            indent,
            exprs_text(targets, 0) + " = "@ + exprs_text(values, 0),
        ),
        StatementModel::Return(values) => if values.len() == 0 {
            page.line(indent, "return"@)
        } else if values.len() == 1 && values[0] is Table {
            print_fields(values[0]->Table_0, 0, indent, page.line(indent, "return {"@)).line(
                indent,
                "}"@,
            )
        } else {
            page.line(indent, "return "@ + exprs_text(values, 0))
        },
        StatementModel::Break => page.line(indent, "break"@),
        StatementModel::Goto(label) => page.line(indent, "goto "@ + label),
        StatementModel::Label(label) => page.line(indent, "::"@ + label + "::"@),
        StatementModel::Do(body) => print_entries(
            body,
            0,
            deeper(indent),
            page.line(indent, "do"@),
        ).line(indent, "end"@),
        StatementModel::While { condition, body } => print_entries(
            body,
            0,
            deeper(indent),
            page.line(indent, "while "@ + expr_text(condition, 0, false) + " do"@),
        ).line(indent, "end"@),
        StatementModel::NumericFor { variable, start, stop, body } => print_entries(
            body,
            0,
            deeper(indent),
            page.line(
                indent,
                "for "@ + variable + " = "@ + expr_text(start, 0, false) + ", "@ + expr_text(
                    stop,
                    0,
                    false,
                ) + " do"@,
            ),
        ).line(indent, "end"@),
        StatementModel::Function { target, params, body } => print_entries(
            body,
            0,
            deeper(indent),
            page.line(
                indent,
                (if target is Local {
                    "local function "@
                } else {
                    "function "@
                }) + target_text(target) + "("@ + joined(params, ", "@) + ")"@,
            ),
        ).line(indent, "end"@),
        StatementModel::If { branches, else_body } => {
            let printed = print_branches(branches, 0, indent, page);
            let whole = match else_body {
                None => printed,
                Some(body) => print_entries(
                    body,
                    0,
                    deeper(indent),
                    printed.line(indent, "else"@),
                ),
            };
            whole.line(indent, "end"@)
        },
        StatementModel::CompactIf { condition, statements } => page.line(
            indent,
            "if "@ + expr_text(condition, 0, false) + " then "@ + inlines_text(statements, 0)
                + " end"@,
        ),
    }
}

/// Prints `branches[from..]` with their conditions.
pub open spec fn print_branches(
    branches: Seq<BranchModel>,
    from: int,
    indent: Seq<char>,
    page: Page,
) -> Page
    decreases branches, branches.len() - from,
{
    if from < 0 || from >= branches.len() {
        page
    } else {
        print_branches(
            branches,
            from + 1,
            indent,
            print_branch(branches[from], from == 0, indent, page),
        )
    }
}

/// Prints one branch with its condition.
pub open spec fn print_branch(
    branch: BranchModel,
    first: bool,
    indent: Seq<char>,
    page: Page,
) -> Page
    decreases branch, 0int,
{
    print_entries(
        branch.body,
        0,
        deeper(indent),
        page.line(
            indent,
            (if first {
                "if "@
            } else {
                "elseif "@
            }) + expr_text(branch.condition, 0, false) + " then"@,
        ),
    )
}

/// Prints `fields[from..]` of a returned table, one per line.
pub open spec fn print_fields(
    fields: Seq<FieldModel>,
    from: int,
    indent: Seq<char>,
    page: Page,
) -> Page
    decreases fields.len() - from,
{
    if from < 0 || from >= fields.len() {
        page
    } else {
        print_fields(
            fields,
            from + 1,
            indent,
            page.line(deeper(indent), field_text(fields[from]) + ","@),
        )
    }
}

// ---------------------------------------------------------------------------
// The printer.
// ---------------------------------------------------------------------------

/// Text with its mappings.
#[derive(Debug)]
pub struct Printed {
    pub source: String,
    pub mappings: Vec<SourceMapping>,
}

struct Printer {
    output: String,
    mappings: Vec<SourceMapping>,
}

fn in_brackets(text: String, needed: bool) -> (r: String)
    ensures
        r@ == bracketed(text@, needed),
{
    if needed {
        cat3("(", text.as_str(), ")")
    } else {
        text
    }
}

/// The text of an expression.
pub fn expression(e: &Expr) -> (r: String)
    ensures
        r@ == expr_text(e.model(), 0, false),
    decreases *e, 1int,
{
    expression_at(e, 0, false)
}

fn expression_at(e: &Expr, parent_precedence: u8, right_child: bool) -> (r: String)
    ensures
        r@ == expr_text(e.model(), parent_precedence, right_child),
    decreases *e, 0int,
{
    match e {
        Expr::Nil => "nil".to_string(),
        Expr::Bool(value) => {
            if *value {
                "true".to_string()
            } else {
                "false".to_string()
            }
        },
        Expr::Integer(source) => source.clone(),
        Expr::Number(source) => source.clone(),
        Expr::StringLiteral(source) => source.clone(),
        Expr::Name(name) => name.clone(),
        Expr::Field { base, name } => cat3(prefix_expression(base).as_str(), ".", name.as_str()),
        Expr::Index { base, index } => cat4(
            prefix_expression(base).as_str(),
            "[",
            expression(index).as_str(),
            "]",
        ),
        Expr::Call { callee, args } => cat4(
            prefix_expression(callee).as_str(),
            "(",
            expression_list(args).as_str(),
            ")",
        ),
        Expr::MethodCall { receiver, method, args } => {
            let head = cat4(prefix_expression(receiver).as_str(), ":", method.as_str(), "(");
            cat3(head.as_str(), expression_list(args).as_str(), ")")
        },
        Expr::Unary { op, expression } => {
            let source = expression_at(expression, 7, false);
            let prefix = match op {
                UnaryOp::Neg => "-",
                UnaryOp::Not => "not ",
                UnaryOp::Len => "#",
            };
            in_brackets(cat2(prefix, source.as_str()), 7 < parent_precedence)
        },
        Expr::Binary { left, op, right } => {
            let precedence: u8 = op.precedence();
            let left = expression_at(left, precedence, false);
            let right = expression_at(right, precedence, true);
            let rendered = cat5(left.as_str(), " ", op.source(), " ", right.as_str());
            let needed = precedence < parent_precedence || (precedence == parent_precedence
                && if *op == BinaryOp::Concat {
                !right_child
            } else {
                right_child
            });
            in_brackets(rendered, needed)
        },
        Expr::Table(fields) => {
            proof {
                assert(fields_model(fields@).len() == fields@.len());
            }
            if fields.len() == 0 {
                "{}".to_string()
            } else {
                cat3("{ ", field_list(fields).as_str(), " }")
            }
        },
        Expr::Parenthesized(inner) => cat3("(", expression(inner).as_str(), ")"),
    }
}

fn prefix_expression(e: &Expr) -> (r: String)
    ensures
        r@ == bracketed(expr_text(e.model(), 0, false), !is_prefix(e.model())),
    decreases *e, 2int,
{
    let source = expression(e);
    let prefix = match e {
        Expr::Name(_) => true,
        Expr::Field { .. } => true,
        Expr::Index { .. } => true,
        Expr::Call { .. } => true,
        Expr::MethodCall { .. } => true,
        Expr::Parenthesized(_) => true,
        _ => false,
    };
    in_brackets(source, !prefix)
}

fn expression_list(list: &Vec<Expr>) -> (r: String)
    ensures
        r@ == exprs_text(exprs_model(list@), 0),
    decreases *list, 0int,
{
    let mut out = String::new();
    let mut i: usize = 0;
    let ghost all = exprs_model(list@);
    while i < list.len()
        invariant
            i <= list.len(),
            all == exprs_model(list@),
            all.len() == list@.len(),
            out@ + exprs_text(all, i as int) == exprs_text(all, 0),
        decreases list.len() - i,
    {
        let ghost before = out@;
        out.append(expression(&list[i]).as_str());
        if i + 1 < list.len() {
            out.append(", ");
        }
        i += 1;
        proof {
            assert(all[i - 1] == list@[i - 1].model());
            assert(out@ + exprs_text(all, i as int) =~= before + exprs_text(all, i - 1));
        }
    }
    proof {
        assert(out@ + Seq::<char>::empty() =~= out@);
    }
    out
}

fn key(name: &str) -> (r: String)
    ensures
        r@ == key_text(name@),
{
    if is_lua_identifier(name) {
        name.to_string()
    } else {
        cat3("[", lua_string(name).as_str(), "]")
    }
}

fn table_field(field: &TableField) -> (r: String)
    ensures
        r@ == field_text(field.model()),
    decreases *field, 0int,
{
    match field {
        TableField::Named(name, value) => cat3(
            key(name.as_str()).as_str(),
            " = ",
            expression(value).as_str(),
        ),
        TableField::Indexed(index, value) => cat4(
            "[",
            expression(index).as_str(),
            "] = ",
            expression(value).as_str(),
        ),
        TableField::Value(value) => expression(value),
    }
}

fn field_list(list: &Vec<TableField>) -> (r: String)
    ensures
        r@ == fields_text(fields_model(list@), 0),
    decreases *list, 0int,
{
    let mut out = String::new();
    let mut i: usize = 0;
    let ghost all = fields_model(list@);
    while i < list.len()
        invariant
            i <= list.len(),
            all == fields_model(list@),
            all.len() == list@.len(),
            out@ + fields_text(all, i as int) == fields_text(all, 0),
        decreases list.len() - i,
    {
        let ghost before = out@;
        out.append(table_field(&list[i]).as_str());
        if i + 1 < list.len() {
            out.append(", ");
        }
        i += 1;
        proof {
            assert(all[i - 1] == list@[i - 1].model());
            assert(out@ + fields_text(all, i as int) =~= before + fields_text(all, i - 1));
        }
    }
    proof {
        assert(out@ + Seq::<char>::empty() =~= out@);
    }
    out
}

fn inline_statement(statement: &InlineStatement) -> (r: String)
    ensures
        r@ == inline_text(statement.model()),
{
    match statement {
        InlineStatement::Expression(e) => expression(e),
        InlineStatement::Assign { target, value } => cat3(
            expression(target).as_str(),
            " = ",
            expression(value).as_str(),
        ),
        InlineStatement::Return(values) => {
            if values.len() == 0 {
                "return".to_string()
            } else {
                cat2("return ", expression_list(values).as_str())
            }
        },
        InlineStatement::Break => "break".to_string(),
    }
}

fn inline_list(list: &Vec<InlineStatement>) -> (r: String)
    ensures
        r@ == inlines_text(inlines_model(list@), 0),
{
    let mut out = String::new();
    let mut i: usize = 0;
    let ghost all = inlines_model(list@);
    while i < list.len()
        invariant
            i <= list.len(),
            all == inlines_model(list@),
            all.len() == list@.len(),
            out@ + inlines_text(all, i as int) == inlines_text(all, 0),
        decreases list.len() - i,
    {
        let ghost before = out@;
        out.append(inline_statement(&list[i]).as_str());
        if i + 1 < list.len() {
            out.append("; ");
        }
        i += 1;
        proof {
            assert(all[i - 1] == list@[i - 1].model());
            assert(out@ + inlines_text(all, i as int) =~= before + inlines_text(all, i - 1));
        }
    }
    proof {
        assert(out@ + Seq::<char>::empty() =~= out@);
    }
    out
}

fn target_source(target: &FunctionTarget) -> (r: String)
    ensures
        r@ == target_text(target.model()),
{
    match target {
        FunctionTarget::Local(name) => name.clone(),
        FunctionTarget::Path(segments) => join(segments, "."),
        FunctionTarget::Method { receiver, method } => cat3(
            join(receiver, ".").as_str(),
            ":",
            method.as_str(),
        ),
    }
}

impl Printer {
    spec fn view(&self) -> Page {
        Page { out: self.output@, mappings: self.mappings@ }
    }

    fn line(&mut self, indent: &str, source: &str)
        ensures
            final(self)@ == old(self)@.line(indent@, source@),
    {
        self.output.append(indent);
        self.output.append(source);
        self.output.append("\n");
    }

    fn block(&mut self, block: &Block, indent: &str)
        ensures
            final(self)@ == print_entries(block.model(), 0, indent@, old(self)@),
        decreases *block, 0int,
    {
        let mut i: usize = 0;
        let ghost all = block.model();
        let ghost start = self@;
        while i < block.entries.len()
            invariant
                i <= block.entries.len(),
                all == entries_model(block.entries@),
                all.len() == block.entries@.len(),
                print_entries(all, i as int, indent@, self@) == print_entries(
                    all,
                    0,
                    indent@,
                    start,
                ),
            decreases block.entries.len() - i,
        {
            proof {
                assert(all[i as int] == block.entries@[i as int].model());
            }
            self.entry(&block.entries[i], indent);
            i += 1;
        }
    }

    fn entry(&mut self, entry: &Entry, indent: &str)
        ensures
            final(self)@ == print_entry(entry.model(), indent@, old(self)@),
        decreases *entry, 0int,
    {
        match entry {
            Entry::Blank => {
                self.output.append("\n");
            },
            Entry::Statement { anchor, statement } => {
                let generated_start: usize = byte_len(self.output.as_str());
                self.statement(statement, indent);
                if let Some(source) = anchor {
                    let generated_end: usize = byte_len(self.output.as_str());
                    self.mappings.push(
                        SourceMapping { generated_start, generated_end, source: *source },
                    );
                }
            },
        }
    }

    fn statement(&mut self, statement: &Statement, indent: &str)
        ensures
            final(self)@ == print_statement(statement.model(), indent@, old(self)@),
        decreases *statement, 0int,
    {
        match statement {
            Statement::Annotation(source) => self.line(indent, source.as_str()),
            Statement::Expression(e) => self.line(indent, expression(e).as_str()),
            Statement::Local { names, values } => {
                let mut source = cat2("local ", join(names, ", ").as_str());
                if values.len() > 0 {
                    source.append(" = ");
                    source.append(expression_list(values).as_str());
                }
                self.line(indent, source.as_str());
            },
            Statement::Assign { targets, values } => {
                let source = cat3(
                    expression_list(targets).as_str(),
                    " = ",
                    expression_list(values).as_str(),
                );
                self.line(indent, source.as_str());
            },
            Statement::Return(values) => self.print_return(values, indent),
            Statement::Break => self.line(indent, "break"),
            Statement::Goto(label) => self.line(indent, cat2("goto ", label.as_str()).as_str()),
            Statement::Label(label) => self.line(
                indent,
                cat3("::", label.as_str(), "::").as_str(),
            ),
            Statement::Do(body) => {
                self.line(indent, "do");
                self.block(body, cat2(indent, "    ").as_str());
                self.line(indent, "end");
            },
            Statement::While { condition, body } => {
                let head = cat3("while ", expression(condition).as_str(), " do");
                self.line(indent, head.as_str());
                self.block(body, cat2(indent, "    ").as_str());
                self.line(indent, "end");
            },
            Statement::NumericFor { variable, start, stop, body } => {
                let head = cat5(
                    "for ",
                    variable.as_str(),
                    " = ",
                    expression(start).as_str(),
                    ", ",
                );
                let head = cat3(head.as_str(), expression(stop).as_str(), " do");
                self.line(indent, head.as_str());
                self.block(body, cat2(indent, "    ").as_str());
                self.line(indent, "end");
            },
            Statement::Function { target, params, body } => {
                let prefix = match target {
                    FunctionTarget::Local(_) => "local function ",
                    _ => "function ",
                };
                let head = cat5(
                    prefix,
                    target_source(target).as_str(),
                    "(",
                    join(params, ", ").as_str(),
                    ")",
                );
                self.line(indent, head.as_str());
                self.block(body, cat2(indent, "    ").as_str());
                self.line(indent, "end");
            },
            Statement::If { branches, else_body } => {
                self.branches(branches, indent);
                if let Some(body) = else_body {
                    self.line(indent, "else");
                    self.block(body, cat2(indent, "    ").as_str());
                }
                self.line(indent, "end");
            },
            Statement::CompactIf { condition, statements } => {
                let source = cat5(
                    "if ",
                    expression(condition).as_str(),
                    " then ",
                    inline_list(statements).as_str(),
                    " end",
                );
                self.line(indent, source.as_str());
            },
        }
    }

    fn branches(&mut self, branches: &Vec<IfBranch>, indent: &str)
        ensures
            final(self)@ == print_branches(branches_model(branches@), 0, indent@, old(self)@),
        decreases *branches, 0int,
    {
        let mut i: usize = 0;
        let ghost all = branches_model(branches@);
        let ghost start = self@;
        while i < branches.len()
            invariant
                i <= branches.len(),
                all == branches_model(branches@),
                all.len() == branches@.len(),
                print_branches(all, i as int, indent@, self@) == print_branches(
                    all,
                    0,
                    indent@,
                    start,
                ),
            decreases branches.len() - i,
        {
            proof {
                assert(all[i as int] == branches@[i as int].model());
            }
            let branch = &branches[i];
            let ghost before = self@;
            let keyword = if i == 0 {
                "if "
            } else {
                "elseif "
            };
            let head = cat3(keyword, expression(&branch.condition).as_str(), " then");
            self.line(indent, head.as_str());
            self.block(&branch.body, cat2(indent, "    ").as_str());
            proof {
                assert(self@ == print_branch(branch.model(), i == 0, indent@, before));
            }
            i += 1;
        }
    }

    fn print_return(&mut self, values: &Vec<Expr>, indent: &str)
        ensures
            final(self)@ == print_statement(
                StatementModel::Return(exprs_model(values@)),
                indent@,
                old(self)@,
            ),
    {
        if values.len() == 0 {
            self.line(indent, "return");
            return ;
        }
        if values.len() == 1 {
            if let Expr::Table(fields) = &values[0] {
                self.table_return(fields, indent);
                return ;
            }
        }
        self.line(indent, cat2("return ", expression_list(values).as_str()).as_str());
    }

    fn table_return(&mut self, fields: &Vec<TableField>, indent: &str)
        ensures
            final(self)@ == print_fields(
                fields_model(fields@),
                0,
                indent@,
                old(self)@.line(indent@, "return {"@),
            ).line(indent@, "}"@),
    {
        self.line(indent, "return {");
        let inner = cat2(indent, "    ");
        let mut i: usize = 0;
        let ghost all = fields_model(fields@);
        let ghost start = self@;
        while i < fields.len()
            invariant
                i <= fields.len(),
                all == fields_model(fields@),
                all.len() == fields@.len(),
                inner@ == deeper(indent@),
                print_fields(all, i as int, indent@, self@) == print_fields(
                    all,
                    0,
                    indent@,
                    start,
                ),
            decreases fields.len() - i,
        {
            proof {
                assert(all[i as int] == fields@[i as int].model());
            }
            self.line(inner.as_str(), cat2(table_field(&fields[i]).as_str(), ",").as_str());
            i += 1;
        }
        self.line(indent, "}");
    }
}


// ---------------------------------------------------------------------------
// The order of the mappings.
// ---------------------------------------------------------------------------

/// The order of two mappings by their generated range.
pub open spec fn not_after(a: SourceMapping, b: SourceMapping) -> bool {
    a.generated_start < b.generated_start || (a.generated_start == b.generated_start
        && a.generated_end <= b.generated_end)
}

/// The mapping put behind everything that does not come after it.
pub open spec fn inserted(list: Seq<SourceMapping>, mapping: SourceMapping) -> Seq<SourceMapping>
    decreases list.len(),
{
    if list.len() == 0 || not_after(list.last(), mapping) {
        list.push(mapping)
    } else {
        inserted(list.drop_last(), mapping).push(list.last())
    }
}

/// The mappings in order; equal ranges keep their places relative to each other.
pub open spec fn ordered(list: Seq<SourceMapping>) -> Seq<SourceMapping>
    decreases list.len(),
{
    if list.len() == 0 {
        Seq::empty()
    } else {
        inserted(ordered(list.drop_last()), list.last())
    }
}

/// Whether no mapping comes before an earlier one.
pub open spec fn is_ordered(list: Seq<SourceMapping>) -> bool {
    forall|i: int, j: int|
        0 <= i < j < list.len() ==> not_after(#[trigger] list[i], #[trigger] list[j])
}

proof fn lemma_inserted_at(list: Seq<SourceMapping>, mapping: SourceMapping, at: int)
    requires
        0 <= at <= list.len(),
        at == 0 || not_after(list[at - 1], mapping),
        forall|i: int| at <= i < list.len() ==> !not_after(#[trigger] list[i], mapping),
    ensures
        inserted(list, mapping) == list.insert(at, mapping),
    decreases list.len(),
{
    if at == list.len() {
        assert(list.insert(at, mapping) =~= list.push(mapping));
    } else {
        lemma_inserted_at(list.drop_last(), mapping, at);
        assert(list.insert(at, mapping) =~= list.drop_last().insert(at, mapping).push(list.last()));
    }
}

proof fn lemma_inserted(list: Seq<SourceMapping>, mapping: SourceMapping)
    requires
        is_ordered(list),
    ensures
        is_ordered(inserted(list, mapping)),
        inserted(list, mapping).to_multiset() == list.to_multiset().insert(mapping),
        forall|i: int|
            0 <= i < inserted(list, mapping).len() ==> {
                ||| #[trigger] inserted(list, mapping)[i] == mapping
                ||| list.contains(inserted(list, mapping)[i])
            },
    decreases list.len(),
{
    broadcast use vstd::seq_lib::group_to_multiset_ensures;

    let out = inserted(list, mapping);
    if list.len() == 0 || not_after(list.last(), mapping) {
        assert forall|i: int| 0 <= i < out.len() implies {
            ||| #[trigger] out[i] == mapping
            ||| list.contains(out[i])
        } by {
            if i < list.len() {
                assert(out[i] == list[i]);
            }
        }
        assert(forall|i: int| 0 <= i < list.len() ==> not_after(#[trigger] list[i], list.last()));
    } else {
        let rest = list.drop_last();
        lemma_inserted(rest, mapping);
        let front = inserted(rest, mapping);
        assert(list =~= rest.push(list.last()));
        assert(out.to_multiset() =~= list.to_multiset().insert(mapping));
        assert forall|i: int| 0 <= i < out.len() implies {
            ||| #[trigger] out[i] == mapping
            ||| list.contains(out[i])
        } by {
            if i < front.len() {
                assert(out[i] == front[i]);
                if front[i] != mapping {
                    let k = choose|k: int| 0 <= k < rest.len() && rest[k] == front[i];
                    assert(list[k] == out[i]);
                }
            } else {
                assert(list[list.len() - 1] == out[i]);
            }
        }
        assert forall|i: int| 0 <= i < front.len() implies not_after(
            #[trigger] front[i],
            list.last(),
        ) by {
            if front[i] != mapping {
                let k = choose|k: int| 0 <= k < rest.len() && rest[k] == front[i];
                assert(list[k] == front[i]);
            }
        }
    }
}

/// The mappings come out in order, and they are the ones that went in.
pub proof fn law_mappings_are_ordered(list: Seq<SourceMapping>)
    ensures
        is_ordered(ordered(list)),
        ordered(list).to_multiset() == list.to_multiset(),
    decreases list.len(),
{
    broadcast use vstd::seq_lib::group_to_multiset_ensures;

    if list.len() > 0 {
        law_mappings_are_ordered(list.drop_last());
        lemma_inserted(ordered(list.drop_last()), list.last());
        assert(list =~= list.drop_last().push(list.last()));
    } else {
        assert(list =~= Seq::empty());
    }
}

fn order_mappings(list: &Vec<SourceMapping>) -> (r: Vec<SourceMapping>)
    ensures
        r@ == ordered(list@),
{
    let mut out: Vec<SourceMapping> = Vec::new();
    let mut i: usize = 0;
    while i < list.len()
        invariant
            i <= list.len(),
            out@ == ordered(list@.take(i as int)),
        decreases list.len() - i,
    {
        let mapping = list[i];
        let mut at: usize = out.len();
        while at > 0 && !(out[at - 1].generated_start < mapping.generated_start || (
        out[at - 1].generated_start == mapping.generated_start && out[at - 1].generated_end
            <= mapping.generated_end))
            invariant
                at <= out.len(),
                forall|k: int| at <= k < out@.len() ==> !not_after(#[trigger] out@[k], mapping),
            decreases at,
        {
            at -= 1;
        }
        proof {
            lemma_inserted_at(out@, mapping, at as int);
            assert(list@.take(i + 1).drop_last() =~= list@.take(i as int));
        }
        out.insert(at, mapping);
        i += 1;
    }
    proof {
        assert(list@.take(i as int) =~= list@);
    }
    out
}

/// The page that a finished block prints on.
pub open spec fn printed_page(entries: Seq<EntryModel>) -> Page {
    print_entries(entries, 0, Seq::empty(), Page { out: Seq::empty(), mappings: Seq::empty() })
}

/// Prints a block and the mappings of its anchored statements, in order.
pub fn print_with_source_map(block: &Block) -> (r: Printed)
    ensures
        r.source@ == printed_page(block.model()).out,
        r.mappings@ == ordered(printed_page(block.model()).mappings),
{
    let mut printer = Printer { output: String::new(), mappings: Vec::new() };
    let indent = String::new();
    printer.block(block, indent.as_str());
    let mappings = order_mappings(&printer.mappings);
    Printed { source: printer.output, mappings }
}

// ---------------------------------------------------------------------------
// Laws of the printer.
// ---------------------------------------------------------------------------

/// Whether a page continues an earlier one: its text and its mappings begin
/// with the earlier ones, and every new mapping lies between the two ends.
pub open spec fn continues(before: Page, after: Page) -> bool {
    &&& before.out.len() <= after.out.len()
    &&& after.out.take(before.out.len() as int) == before.out
    &&& before.mappings.len() <= after.mappings.len()
    &&& after.mappings.take(before.mappings.len() as int) == before.mappings
    &&& encode_utf8(after.out).len() <= usize::MAX ==> forall|i: int|
        before.mappings.len() <= i < after.mappings.len() ==> encode_utf8(before.out).len() <= (
        #[trigger] after.mappings[i]).generated_start <= after.mappings[i].generated_end
            <= encode_utf8(after.out).len()
}

proof fn lemma_utf8_prefix(s: Seq<char>, n: int)
    requires
        0 <= n <= s.len(),
    ensures
        encode_utf8(s.take(n)).len() <= encode_utf8(s).len(),
    decreases n,
{
    if n > 0 {
        lemma_utf8_prefix(s.drop_first(), n - 1);
        assert(s.take(n).drop_first() =~= s.drop_first().take(n - 1));
        assert(s.take(n)[0] == s[0]);
    } else {
        assert(s.take(0) =~= Seq::empty());
    }
}

proof fn lemma_continues_trans(a: Page, b: Page, c: Page)
    requires
        continues(a, b),
        continues(b, c),
    ensures
        continues(a, c),
{
    lemma_utf8_prefix(c.out, b.out.len() as int);
    lemma_utf8_prefix(b.out, a.out.len() as int);
    assert(c.out.take(a.out.len() as int) =~= c.out.take(b.out.len() as int).take(
        a.out.len() as int,
    ));
    assert(c.mappings.take(a.mappings.len() as int) =~= c.mappings.take(
        b.mappings.len() as int,
    ).take(a.mappings.len() as int));
    if encode_utf8(c.out).len() <= usize::MAX {
        assert forall|i: int| a.mappings.len() <= i < c.mappings.len() implies encode_utf8(
            a.out,
        ).len() <= (#[trigger] c.mappings[i]).generated_start <= c.mappings[i].generated_end
            <= encode_utf8(c.out).len() by {
            if i < b.mappings.len() {
                assert(b.mappings[i] == c.mappings.take(b.mappings.len() as int)[i]);
            }
        }
    }
}

proof fn lemma_continues_line(page: Page, indent: Seq<char>, text: Seq<char>)
    ensures
        continues(page, page.line(indent, text)),
{
    let after = page.line(indent, text);
    assert(after.out.take(page.out.len() as int) =~= page.out);
    assert(after.mappings.take(page.mappings.len() as int) =~= page.mappings);
}

proof fn lemma_continues_self(page: Page)
    ensures
        continues(page, page),
{
    assert(page.out.take(page.out.len() as int) =~= page.out);
    assert(page.mappings.take(page.mappings.len() as int) =~= page.mappings);
}

/// A line, a nested block and a closing line.
proof fn lemma_continues_block(
    page: Page,
    indent: Seq<char>,
    head: Seq<char>,
    body: Seq<EntryModel>,
)
    ensures
        continues(
            page,
            print_entries(body, 0, deeper(indent), page.line(indent, head)).line(indent, "end"@),
        ),
    decreases body, body.len() + 1,
{
    let first = page.line(indent, head);
    let second = print_entries(body, 0, deeper(indent), first);
    lemma_continues_line(page, indent, head);
    lemma_continues_entries(body, 0, deeper(indent), first);
    lemma_continues_line(second, indent, "end"@);
    lemma_continues_trans(page, first, second);
    lemma_continues_trans(page, second, second.line(indent, "end"@));
}

proof fn lemma_continues_entries(
    entries: Seq<EntryModel>,
    from: int,
    indent: Seq<char>,
    page: Page,
)
    ensures
        continues(page, print_entries(entries, from, indent, page)),
    decreases entries, entries.len() - from,
{
    if from < 0 || from >= entries.len() {
        lemma_continues_self(page);
    } else {
        let next = print_entry(entries[from], indent, page);
        lemma_continues_entry(entries[from], indent, page);
        lemma_continues_entries(entries, from + 1, indent, next);
        lemma_continues_trans(page, next, print_entries(entries, from + 1, indent, next));
    }
}

proof fn lemma_continues_entry(entry: EntryModel, indent: Seq<char>, page: Page)
    ensures
        continues(page, print_entry(entry, indent, page)),
    decreases entry, 0int,
{
    match entry {
        EntryModel::Blank => {
            let after = print_entry(entry, indent, page);
            assert(after.out.take(page.out.len() as int) =~= page.out);
            assert(after.mappings.take(page.mappings.len() as int) =~= page.mappings);
        },
        EntryModel::Statement { anchor, statement } => {
            lemma_continues_statement(statement, indent, page);
            let middle = print_statement(statement, indent, page);
            let after = print_entry(entry, indent, page);
            lemma_utf8_prefix(middle.out, page.out.len() as int);
            if anchor is Some {
                assert(after.mappings.take(page.mappings.len() as int) =~= middle.mappings.take(
                    page.mappings.len() as int,
                ));
                assert(forall|i: int|
                    0 <= i < middle.mappings.len() ==> #[trigger] after.mappings[i]
                        == middle.mappings[i]);
            }
        },
    }
}

proof fn lemma_continues_branches(
    branches: Seq<BranchModel>,
    from: int,
    indent: Seq<char>,
    page: Page,
)
    ensures
        continues(page, print_branches(branches, from, indent, page)),
    decreases branches, branches.len() - from,
{
    if from < 0 || from >= branches.len() {
        lemma_continues_self(page);
    } else {
        let next = print_branch(branches[from], from == 0, indent, page);
        lemma_continues_branch(branches[from], from == 0, indent, page);
        lemma_continues_branches(branches, from + 1, indent, next);
        lemma_continues_trans(page, next, print_branches(branches, from + 1, indent, next));
    }
}

proof fn lemma_continues_branch(branch: BranchModel, first: bool, indent: Seq<char>, page: Page)
    ensures
        continues(page, print_branch(branch, first, indent, page)),
    decreases branch, 0int,
{
    let head = (if first {
        "if "@
    } else {
        "elseif "@
    }) + expr_text(branch.condition, 0, false) + " then"@;
    let opened = page.line(indent, head);
    lemma_continues_line(page, indent, head);
    lemma_continues_entries(branch.body, 0, deeper(indent), opened);
    lemma_continues_trans(page, opened, print_entries(branch.body, 0, deeper(indent), opened));
}

proof fn lemma_continues_fields(
    fields: Seq<FieldModel>,
    from: int,
    indent: Seq<char>,
    page: Page,
)
    ensures
        continues(page, print_fields(fields, from, indent, page)),
    decreases fields.len() - from,
{
    if from < 0 || from >= fields.len() {
        lemma_continues_self(page);
    } else {
        let next = page.line(deeper(indent), field_text(fields[from]) + ","@);
        lemma_continues_line(page, deeper(indent), field_text(fields[from]) + ","@);
        lemma_continues_fields(fields, from + 1, indent, next);
        lemma_continues_trans(page, next, print_fields(fields, from + 1, indent, next));
    }
}

proof fn lemma_continues_statement(statement: StatementModel, indent: Seq<char>, page: Page)
    ensures
        continues(page, print_statement(statement, indent, page)),
    decreases statement, 0int,
{
    match statement {
        StatementModel::Annotation(source) => lemma_continues_line(page, indent, source),
        StatementModel::Expression(expression) => lemma_continues_line(
            page,
            indent,
            expr_text(expression, 0, false),
        ),
        StatementModel::Local { names, values } => lemma_continues_line(
            page,
            indent,
            if values.len() == 0 {
                "local "@ + joined(names, ", "@)
            } else {
                "local "@ + joined(names, ", "@) + " = "@ + exprs_text(values, 0)
            },
        ),
        StatementModel::Assign { targets, values } => lemma_continues_line(
            page,
            indent,
            exprs_text(targets, 0) + " = "@ + exprs_text(values, 0),
        ),
        StatementModel::Return(values) => {
            if values.len() == 0 {
                lemma_continues_line(page, indent, "return"@);
            } else if values.len() == 1 && values[0] is Table {
                let fields = values[0]->Table_0;
                let opened = page.line(indent, "return {"@);
                let listed = print_fields(fields, 0, indent, opened);
                lemma_continues_line(page, indent, "return {"@);
                lemma_continues_fields(fields, 0, indent, opened);
                lemma_continues_line(listed, indent, "}"@);
                lemma_continues_trans(page, opened, listed);
                lemma_continues_trans(page, listed, listed.line(indent, "}"@));
            } else {
                lemma_continues_line(page, indent, "return "@ + exprs_text(values, 0));
            }
        },
        StatementModel::Break => lemma_continues_line(page, indent, "break"@),
        StatementModel::Goto(label) => lemma_continues_line(page, indent, "goto "@ + label),
        StatementModel::Label(label) => lemma_continues_line(
            page,
            indent,
            "::"@ + label + "::"@,
        ),
        StatementModel::Do(body) => lemma_continues_block(page, indent, "do"@, body),
        StatementModel::While { condition, body } => lemma_continues_block(
            page,
            indent,
            "while "@ + expr_text(condition, 0, false) + " do"@,
            body,
        ),
        StatementModel::NumericFor { variable, start, stop, body } => lemma_continues_block(
            page,
            indent,
            "for "@ + variable + " = "@ + expr_text(start, 0, false) + ", "@ + expr_text(
                stop,
                0,
                false,
            ) + " do"@,
            body,
        ),
        StatementModel::Function { target, params, body } => lemma_continues_block(
            page,
            indent,
            (if target is Local {
                "local function "@
            } else {
                "function "@
            }) + target_text(target) + "("@ + joined(params, ", "@) + ")"@,
            body,
        ),
        StatementModel::If { branches, else_body } => {
            let printed = print_branches(branches, 0, indent, page);
            lemma_continues_branches(branches, 0, indent, page);
            match else_body {
                None => {
                    lemma_continues_line(printed, indent, "end"@);
                    lemma_continues_trans(page, printed, printed.line(indent, "end"@));
                },
                Some(body) => {
                    lemma_continues_block(printed, indent, "else"@, body);
                    lemma_continues_trans(
                        page,
                        printed,
                        print_statement(statement, indent, page),
                    );
                },
            }
        },
        StatementModel::CompactIf { condition, statements } => lemma_continues_line(
            page,
            indent,
            "if "@ + expr_text(condition, 0, false) + " then "@ + inlines_text(statements, 0)
                + " end"@,
        ),
    }
}

/// Every mapping of a printed block is a range of the printed text.
pub proof fn law_mappings_lie_in_the_text(entries: Seq<EntryModel>, i: int)
    requires
        encode_utf8(printed_page(entries).out).len() <= usize::MAX,
        0 <= i < printed_page(entries).mappings.len(),
    ensures
        printed_page(entries).mappings[i].generated_start <= printed_page(
            entries,
        ).mappings[i].generated_end <= encode_utf8(printed_page(entries).out).len(),
{
    let blank = Page { out: Seq::empty(), mappings: Seq::empty() };
    lemma_continues_entries(entries, 0, Seq::empty(), blank);
}

} // verus!
