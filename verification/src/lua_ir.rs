//! Structured Lua source: expressions, statements and the stack builder that
//! nests them.

use vstd::prelude::*;

use crate::text::{chars_of, same_text, texts};
use crate::token::SourceRange;

verus! {

/// A Lua expression.
#[allow(inconsistent_fields)]
#[derive(Debug)]
pub enum Expr {
    Nil,
    Bool(bool),
    Integer(String),
    Number(String),
    StringLiteral(String),
    Name(String),
    Field { base: Box<Expr>, name: String },
    Index { base: Box<Expr>, index: Box<Expr> },
    Call { callee: Box<Expr>, args: Vec<Expr> },
    MethodCall { receiver: Box<Expr>, method: String, args: Vec<Expr> },
    Unary { op: UnaryOp, expression: Box<Expr> },
    Binary { left: Box<Expr>, op: BinaryOp, right: Box<Expr> },
    Table(Vec<TableField>),
    Parenthesized(Box<Expr>),
}

/// One entry of a table constructor.
#[derive(Debug)]
pub enum TableField {
    Named(String, Expr),
    Indexed(Expr, Expr),
    Value(Expr),
}

#[derive(Clone, Copy, Debug, PartialEq, Eq, Structural)]
pub enum UnaryOp {
    Neg,
    Not,
    Len,
}

#[derive(Clone, Copy, Debug, PartialEq, Eq, Structural)]
pub enum BinaryOp {
    Or,
    And,
    Eq,
    Ne,
    Lt,
    Le,
    Gt,
    Ge,
    Concat,
    Add,
    Sub,
    Mul,
    Div,
    Rem,
}

/// What a function statement defines.
#[derive(Debug)]
pub enum FunctionTarget {
    Local(String),
    Path(Vec<String>),
    Method { receiver: Vec<String>, method: String },
}

/// A sequence of statements and blank lines.
#[derive(Debug)]
pub struct Block {
    pub entries: Vec<Entry>,
}

#[derive(Debug)]
pub enum Entry {
    Blank,
    Statement { anchor: Option<SourceRange>, statement: Statement },
}

/// A Lua statement.
#[derive(Debug)]
pub enum Statement {
    /// A line that is printed as it stands.
    Annotation(String),
    Expression(Expr),
    Local { names: Vec<String>, values: Vec<Expr> },
    Assign { targets: Vec<Expr>, values: Vec<Expr> },
    Return(Vec<Expr>),
    Break,
    Goto(String),
    Label(String),
    Do(Block),
    While { condition: Expr, body: Block },
    NumericFor { variable: String, start: Expr, stop: Expr, body: Block },
    Function { target: FunctionTarget, params: Vec<String>, body: Block },
    If { branches: Vec<IfBranch>, else_body: Option<Block> },
    CompactIf { condition: Expr, statements: Vec<InlineStatement> },
}

/// A statement that fits on the line of a compact `if`.
#[derive(Debug)]
pub enum InlineStatement {
    Expression(Expr),
    Assign { target: Expr, value: Expr },
    Return(Vec<Expr>),
    Break,
}

#[derive(Debug)]
pub struct IfBranch {
    pub condition: Expr,
    pub body: Block,
}

// ---------------------------------------------------------------------------
// Models: the same trees over mathematical sequences.
// ---------------------------------------------------------------------------

#[allow(inconsistent_fields)]
pub enum ExprModel {
    Nil,
    Bool(bool),
    Integer(Seq<char>),
    Number(Seq<char>),
    StringLiteral(Seq<char>),
    Name(Seq<char>),
    Field { base: Box<ExprModel>, name: Seq<char> },
    Index { base: Box<ExprModel>, index: Box<ExprModel> },
    Call { callee: Box<ExprModel>, args: Seq<ExprModel> },
    MethodCall { receiver: Box<ExprModel>, method: Seq<char>, args: Seq<ExprModel> },
    Unary { op: UnaryOp, expression: Box<ExprModel> },
    Binary { left: Box<ExprModel>, op: BinaryOp, right: Box<ExprModel> },
    Table(Seq<FieldModel>),
    Parenthesized(Box<ExprModel>),
}

pub enum FieldModel {
    Named(Seq<char>, ExprModel),
    Indexed(ExprModel, ExprModel),
    Value(ExprModel),
}

pub enum TargetModel {
    Local(Seq<char>),
    Path(Seq<Seq<char>>),
    Method { receiver: Seq<Seq<char>>, method: Seq<char> },
}

pub enum EntryModel {
    Blank,
    Statement { anchor: Option<SourceRange>, statement: StatementModel },
}

pub enum StatementModel {
    Annotation(Seq<char>),
    Expression(ExprModel),
    Local { names: Seq<Seq<char>>, values: Seq<ExprModel> },
    Assign { targets: Seq<ExprModel>, values: Seq<ExprModel> },
    Return(Seq<ExprModel>),
    Break,
    Goto(Seq<char>),
    Label(Seq<char>),
    Do(Seq<EntryModel>),
    While { condition: ExprModel, body: Seq<EntryModel> },
    NumericFor {
        variable: Seq<char>,
        start: ExprModel,
        stop: ExprModel,
        body: Seq<EntryModel>,
    },
    Function { target: TargetModel, params: Seq<Seq<char>>, body: Seq<EntryModel> },
    If { branches: Seq<BranchModel>, else_body: Option<Seq<EntryModel>> },
    CompactIf { condition: ExprModel, statements: Seq<InlineModel> },
}

pub enum InlineModel {
    Expression(ExprModel),
    Assign { target: ExprModel, value: ExprModel },
    Return(Seq<ExprModel>),
    Break,
}

pub struct BranchModel {
    pub condition: ExprModel,
    pub body: Seq<EntryModel>,
}

/// The models of a list of expressions.
pub open spec fn exprs_model(list: Seq<Expr>) -> Seq<ExprModel>
    decreases list,
{
    Seq::new(
        list.len(),
        |i: int|
            if 0 <= i < list.len() {
                list[i].model()
            } else {
                ExprModel::Nil
            },
    )
}

/// The models of a list of table fields.
pub open spec fn fields_model(list: Seq<TableField>) -> Seq<FieldModel>
    decreases list,
{
    Seq::new(
        list.len(),
        |i: int|
            if 0 <= i < list.len() {
                list[i].model()
            } else {
                FieldModel::Value(ExprModel::Nil)
            },
    )
}

impl Expr {
    /// The mathematical tree of the expression.
    pub open spec fn model(self) -> ExprModel
        decreases self,
    {
        match self {
            Expr::Nil => ExprModel::Nil,
            Expr::Bool(value) => ExprModel::Bool(value),
            Expr::Integer(source) => ExprModel::Integer(source@),
            Expr::Number(source) => ExprModel::Number(source@),
            Expr::StringLiteral(source) => ExprModel::StringLiteral(source@),
            Expr::Name(name) => ExprModel::Name(name@),
            Expr::Field { base, name } => ExprModel::Field {
                base: Box::new(base.model()),
                name: name@,
            },
            Expr::Index { base, index } => ExprModel::Index {
                base: Box::new(base.model()),
                index: Box::new(index.model()),
            },
            Expr::Call { callee, args } => ExprModel::Call {
                callee: Box::new(callee.model()),
                args: exprs_model(args@),
            },
            Expr::MethodCall { receiver, method, args } => ExprModel::MethodCall {
                receiver: Box::new(receiver.model()),
                method: method@,
                args: exprs_model(args@),
            },
            Expr::Unary { op, expression } => ExprModel::Unary {
                op,
                expression: Box::new(expression.model()),
            },
            Expr::Binary { left, op, right } => ExprModel::Binary {
                left: Box::new(left.model()),
                op,
                right: Box::new(right.model()),
            },
            Expr::Table(fields) => ExprModel::Table(fields_model(fields@)),
            Expr::Parenthesized(inner) => ExprModel::Parenthesized(Box::new(inner.model())),
        }
    }
}

impl TableField {
    /// The mathematical tree of the field.
    pub open spec fn model(self) -> FieldModel
        decreases self,
    {
        match self {
            TableField::Named(name, value) => FieldModel::Named(name@, value.model()),
            TableField::Indexed(index, value) => FieldModel::Indexed(index.model(), value.model()),
            TableField::Value(value) => FieldModel::Value(value.model()),
        }
    }
}

impl FunctionTarget {
    /// The target over mathematical texts.
    pub open spec fn model(self) -> TargetModel {
        match self {
            FunctionTarget::Local(name) => TargetModel::Local(name@),
            FunctionTarget::Path(segments) => TargetModel::Path(texts(segments@)),
            FunctionTarget::Method { receiver, method } => TargetModel::Method {
                receiver: texts(receiver@),
                method: method@,
            },
        }
    }
}

impl InlineStatement {
    /// The mathematical tree of the statement.
    pub open spec fn model(self) -> InlineModel {
        match self {
            InlineStatement::Expression(expression) => InlineModel::Expression(expression.model()),
            InlineStatement::Assign { target, value } => InlineModel::Assign {
                target: target.model(),
                value: value.model(),
            },
            InlineStatement::Return(values) => InlineModel::Return(exprs_model(values@)),
            InlineStatement::Break => InlineModel::Break,
        }
    }
}

/// The models of a list of inline statements.
pub open spec fn inlines_model(list: Seq<InlineStatement>) -> Seq<InlineModel> {
    Seq::new(list.len(), |i: int| list[i].model())
}

/// The models of a list of entries.
pub open spec fn entries_model(list: Seq<Entry>) -> Seq<EntryModel>
    decreases list,
{
    Seq::new(
        list.len(),
        |i: int|
            if 0 <= i < list.len() {
                list[i].model()
            } else {
                EntryModel::Blank
            },
    )
}

/// The models of a list of branches.
pub open spec fn branches_model(list: Seq<IfBranch>) -> Seq<BranchModel>
    decreases list,
{
    Seq::new(
        list.len(),
        |i: int|
            if 0 <= i < list.len() {
                list[i].model()
            } else {
                BranchModel { condition: ExprModel::Nil, body: Seq::empty() }
            },
    )
}

impl Block {
    /// The entries over mathematical sequences.
    pub open spec fn model(self) -> Seq<EntryModel>
        decreases self,
    {
        entries_model(self.entries@)
    }
}

impl IfBranch {
    /// The mathematical tree of the branch.
    pub open spec fn model(self) -> BranchModel
        decreases self,
    {
        BranchModel { condition: self.condition.model(), body: self.body.model() }
    }
}

impl Entry {
    /// The mathematical tree of the entry.
    pub open spec fn model(self) -> EntryModel
        decreases self,
    {
        match self {
            Entry::Blank => EntryModel::Blank,
            Entry::Statement { anchor, statement } => EntryModel::Statement {
                anchor,
                statement: statement.model(),
            },
        }
    }
}

impl Statement {
    /// The mathematical tree of the statement.
    pub open spec fn model(self) -> StatementModel
        decreases self,
    {
        match self {
            Statement::Annotation(source) => StatementModel::Annotation(source@),
            Statement::Expression(expression) => StatementModel::Expression(expression.model()),
            Statement::Local { names, values } => StatementModel::Local {
                names: texts(names@),
                values: exprs_model(values@),
            },
            Statement::Assign { targets, values } => StatementModel::Assign {
                targets: exprs_model(targets@),
                values: exprs_model(values@),
            },
            Statement::Return(values) => StatementModel::Return(exprs_model(values@)),
            Statement::Break => StatementModel::Break,
            Statement::Goto(label) => StatementModel::Goto(label@),
            Statement::Label(label) => StatementModel::Label(label@),
            Statement::Do(body) => StatementModel::Do(body.model()),
            Statement::While { condition, body } => StatementModel::While {
                condition: condition.model(),
                body: body.model(),
            },
            Statement::NumericFor { variable, start, stop, body } => StatementModel::NumericFor {
                variable: variable@,
                start: start.model(),
                stop: stop.model(),
                body: body.model(),
            },
            Statement::Function { target, params, body } => StatementModel::Function {
                target: target.model(),
                params: texts(params@),
                body: body.model(),
            },
            Statement::If { branches, else_body } => StatementModel::If {
                branches: branches_model(branches@),
                else_body: match else_body {
                    Some(body) => Some(body.model()),
                    None => None,
                },
            },
            Statement::CompactIf { condition, statements } => StatementModel::CompactIf {
                condition: condition.model(),
                statements: inlines_model(statements@),
            },
        }
    }
}

// ---------------------------------------------------------------------------
// Words of Lua.
// ---------------------------------------------------------------------------

/// The reserved words of Lua.
pub open spec fn is_keyword(word: Seq<char>) -> bool {
    ||| word == "and"@
    ||| word == "break"@
    ||| word == "do"@
    ||| word == "else"@
    ||| word == "elseif"@
    ||| word == "end"@
    ||| word == "false"@
    ||| word == "for"@
    ||| word == "function"@
    ||| word == "goto"@
    ||| word == "if"@
    ||| word == "in"@
    ||| word == "local"@
    ||| word == "nil"@
    ||| word == "not"@
    ||| word == "or"@
    ||| word == "repeat"@
    ||| word == "return"@
    ||| word == "then"@
    ||| word == "true"@
    ||| word == "until"@
    ||| word == "while"@
}

/// A letter or an underscore.
pub open spec fn is_name_start(c: char) -> bool {
    ('a' <= c && c <= 'z') || ('A' <= c && c <= 'Z') || c == '_'
}

/// A letter, a digit or an underscore.
pub open spec fn is_name_part(c: char) -> bool {
    is_name_start(c) || ('0' <= c && c <= '9')
}

/// A word of letters, digits and underscores that starts with no digit.
pub open spec fn is_word(word: Seq<char>) -> bool {
    &&& word.len() > 0
    &&& is_name_start(word[0])
    &&& forall|i: int| 0 <= i < word.len() ==> is_name_part(#[trigger] word[i])
}

/// A Lua identifier: a word that is not reserved.
pub open spec fn is_identifier(word: Seq<char>) -> bool {
    is_word(word) && !is_keyword(word)
}

/// Tests for a reserved word.
pub fn keyword(word: &str) -> (r: bool)
    ensures
        r == is_keyword(word@),
{
same_text(word, "and") || same_text(word, "break") || same_text(word, "do") || same_text(word, "else") || same_text(word, "elseif") || same_text(word, "end") || same_text(word, "false") || same_text(word, "for") || same_text(word, "function") || same_text(word, "goto") || same_text(word, "if") || same_text(word, "in") || same_text(word, "local") || same_text(word, "nil") || same_text(word, "not") || same_text(word, "or") || same_text(word, "repeat") || same_text(word, "return") || same_text(word, "then") || same_text(word, "true") || same_text(word, "until") || same_text(word, "while")
}

/// Tests for a word.
pub fn word(text: &str) -> (r: bool)
    ensures
        r == is_word(text@),
{
    let chars = chars_of(text);
    if chars.len() == 0 {
        return false;
    }
    if !name_start(chars[0]) {
        return false;
    }
    let mut i: usize = 0;
    while i < chars.len()
        invariant
            i <= chars.len(),
            chars@ == text@,
            forall|k: int| 0 <= k < i ==> is_name_part(#[trigger] chars@[k]),
        decreases chars.len() - i,
    {
        let c = chars[i];
        if !(name_start(c) || ('0' <= c && c <= '9')) {
            proof {
                assert(!is_name_part(chars@[i as int]));
            }
            return false;
        }
        i += 1;
    }
    true
}

fn name_start(c: char) -> (r: bool)
    ensures
        r == is_name_start(c),
{
    ('a' <= c && c <= 'z') || ('A' <= c && c <= 'Z') || c == '_'
}

/// Tests for a Lua identifier.
pub fn is_lua_identifier(value: &str) -> (r: bool)
    ensures
        r == is_identifier(value@),
{
    word(value) && !keyword(value)
}

/// The text of one character inside a quoted Lua string.
pub open spec fn escaped_char(c: char) -> Seq<char> {
    if c == '\\' {
        seq!['\\', '\\']
    } else if c == '"' {
        seq!['\\', '"']
    } else if c == '\n' {
        seq!['\\', 'n']
    } else if c == '\r' {
        seq!['\\', 'r']
    } else {
        seq![c]
    }
}

/// The escaped characters of a text.
pub open spec fn escaped(value: Seq<char>) -> Seq<char>
    decreases value.len(),
{
    if value.len() == 0 {
        Seq::empty()
    } else {
        escaped(value.drop_last()) + escaped_char(value.last())
    }
}

/// A quoted Lua string with this value.
pub open spec fn quoted(value: Seq<char>) -> Seq<char> {
    seq!['"'] + escaped(value) + seq!['"']
}

/// Quotes a text as a Lua string.
pub fn lua_string(value: &str) -> (r: String)
    ensures
        r@ == quoted(value@),
{
    let chars = chars_of(value);
    let mut out = String::new();
    out.push('"');
    let mut i: usize = 0;
    proof {
        assert(out@ =~= seq!['"'] + escaped(value@.take(0)));
    }
    while i < chars.len()
        invariant
            i <= chars.len(),
            chars@ == value@,
            out@ == seq!['"'] + escaped(value@.take(i as int)),
        decreases chars.len() - i,
    {
        let c = chars[i];
        let ghost before = out@;
        if c == '\\' {
            out.push('\\');
            out.push('\\');
        } else if c == '"' {
            out.push('\\');
            out.push('"');
        } else if c == '\n' {
            out.push('\\');
            out.push('n');
        } else if c == '\r' {
            out.push('\\');
            out.push('r');
        } else {
            out.push(c);
        }
        i += 1;
        proof {
            let head = value@.take(i as int);
            assert(head.drop_last() =~= value@.take(i - 1));
            assert(out@ =~= before + escaped_char(c));
            assert(out@ =~= seq!['"'] + escaped(head));
        }
    }
    out.push('"');
    proof {
        assert(value@.take(i as int) =~= value@);
        assert(out@ =~= quoted(value@));
    }
    out
}

/// A member access: dotted where the name allows it, indexed otherwise.
pub open spec fn member_text(base: Seq<char>, name: Seq<char>) -> Seq<char> {
    if is_identifier(name) {
        base + "."@ + name
    } else {
        base + "["@ + quoted(name) + "]"@
    }
}

/// The text of a member access.
pub fn lua_member(base: &str, name: &str) -> (r: String)
    ensures
        r@ == member_text(base@, name@),
{
    let mut out = base.to_string();
    if is_lua_identifier(name) {
        out.append(".");
        out.append(name);
    } else {
        out.append("[");
        out.append(lua_string(name).as_str());
        out.append("]");
    }
    out
}


// ---------------------------------------------------------------------------
// Expressions.
// ---------------------------------------------------------------------------

/// The model of a name.
pub open spec fn m_name(name: Seq<char>) -> ExprModel {
    ExprModel::Name(name)
}

pub open spec fn m_integer(source: Seq<char>) -> ExprModel {
    ExprModel::Integer(source)
}

/// A string expression with this value.
pub open spec fn m_string(value: Seq<char>) -> ExprModel {
    ExprModel::StringLiteral(quoted(value))
}

pub open spec fn m_field(base: ExprModel, name: Seq<char>) -> ExprModel {
    ExprModel::Field { base: Box::new(base), name }
}

pub open spec fn m_index(base: ExprModel, index: ExprModel) -> ExprModel {
    ExprModel::Index { base: Box::new(base), index: Box::new(index) }
}

/// A member access: a field where the name allows it, indexed otherwise.
pub open spec fn m_member(base: ExprModel, name: Seq<char>) -> ExprModel {
    if is_identifier(name) {
        m_field(base, name)
    } else {
        m_index(base, m_string(name))
    }
}

pub open spec fn m_call(callee: ExprModel, args: Seq<ExprModel>) -> ExprModel {
    ExprModel::Call { callee: Box::new(callee), args }
}

pub open spec fn m_method(receiver: ExprModel, method: Seq<char>, args: Seq<ExprModel>) -> ExprModel {
    ExprModel::MethodCall { receiver: Box::new(receiver), method, args }
}

pub open spec fn m_unary(op: UnaryOp, expression: ExprModel) -> ExprModel {
    ExprModel::Unary { op, expression: Box::new(expression) }
}

pub open spec fn m_binary(left: ExprModel, op: BinaryOp, right: ExprModel) -> ExprModel {
    ExprModel::Binary { left: Box::new(left), op, right: Box::new(right) }
}

pub open spec fn m_parenthesized(inner: ExprModel) -> ExprModel {
    ExprModel::Parenthesized(Box::new(inner))
}

/// The fields of a table whose keys are all named.
pub open spec fn m_named(fields: Seq<(Seq<char>, ExprModel)>) -> Seq<FieldModel> {
    Seq::new(fields.len(), |i: int| FieldModel::Named(fields[i].0, fields[i].1))
}

/// Named values over mathematical texts.
pub open spec fn named_model(fields: Seq<(String, Expr)>) -> Seq<(Seq<char>, ExprModel)> {
    Seq::new(fields.len(), |i: int| (fields[i].0@, fields[i].1.model()))
}

impl Expr {
    /// A name expression.
    pub fn name(name: &str) -> (r: Self)
        requires
            is_identifier(name@),
        ensures
            r.model() == m_name(name@),
    {
        Expr::Name(name.to_string())
    }

    pub fn integer(source: &str) -> (r: Self)
        ensures
            r.model() == m_integer(source@),
    {
        Expr::Integer(source.to_string())
    }

    pub fn number(source: &str) -> (r: Self)
        ensures
            r.model() == ExprModel::Number(source@),
    {
        Expr::Number(source.to_string())
    }

    /// A string token in source spelling, which Rua and Lua share.
    pub fn string_literal(source: &str) -> (r: Self)
        ensures
            r.model() == ExprModel::StringLiteral(source@),
    {
        Expr::StringLiteral(source.to_string())
    }

    /// A string expression with this value.
    pub fn string(value: &str) -> (r: Self)
        ensures
            r.model() == m_string(value@),
    {
        Expr::StringLiteral(lua_string(value))
    }

    pub fn field(self, name: &str) -> (r: Self)
        requires
            is_identifier(name@),
        ensures
            r.model() == m_field(self.model(), name@),
    {
        Expr::Field { base: Box::new(self), name: name.to_string() }
    }

    pub fn index(self, index: Expr) -> (r: Self)
        ensures
            r.model() == m_index(self.model(), index.model()),
    {
        Expr::Index { base: Box::new(self), index: Box::new(index) }
    }

    /// A member access that takes any name.
    pub fn member(self, name: &str) -> (r: Self)
        ensures
            r.model() == m_member(self.model(), name@),
    {
        if is_lua_identifier(name) {
            self.field(name)
        } else {
            self.index(Expr::string(name))
        }
    }

    pub fn call(self, args: Vec<Expr>) -> (r: Self)
        ensures
            r.model() == m_call(self.model(), exprs_model(args@)),
    {
        Expr::Call { callee: Box::new(self), args }
    }

    pub fn method_call(self, method: &str, args: Vec<Expr>) -> (r: Self)
        requires
            is_identifier(method@),
        ensures
            r.model() == m_method(self.model(), method@, exprs_model(args@)),
    {
        Expr::MethodCall { receiver: Box::new(self), method: method.to_string(), args }
    }

    pub fn unary(op: UnaryOp, expression: Expr) -> (r: Self)
        ensures
            r.model() == m_unary(op, expression.model()),
    {
        Expr::Unary { op, expression: Box::new(expression) }
    }

    pub fn binary(self, op: BinaryOp, right: Expr) -> (r: Self)
        ensures
            r.model() == m_binary(self.model(), op, right.model()),
    {
        Expr::Binary { left: Box::new(self), op, right: Box::new(right) }
    }

    pub fn parenthesized(self) -> (r: Self)
        ensures
            r.model() == m_parenthesized(self.model()),
    {
        Expr::Parenthesized(Box::new(self))
    }

    /// A table constructor with named fields.
    pub fn named_table(fields: Vec<(String, Expr)>) -> (r: Self)
        ensures
            r.model() == ExprModel::Table(m_named(named_model(fields@))),
    {
        let mut out: Vec<TableField> = Vec::new();
        let ghost all = fields@;
        for field in it: fields
            invariant
                it.seq() == all,
                out@.len() == it.index(),
                forall|i: int|
                    0 <= i < out@.len() ==> #[trigger] out@[i] == TableField::Named(
                        all[i].0,
                        all[i].1,
                    ),
        {
            out.push(TableField::Named(field.0, field.1));
        }
        proof {
            assert(fields_model(out@) =~= m_named(named_model(all)));
        }
        Expr::Table(out)
    }

    /// A copy with the same tree.
    pub fn copy(&self) -> (r: Self)
        ensures
            r.model() == self.model(),
        decreases *self,
    {
        match self {
            Expr::Nil => Expr::Nil,
            Expr::Bool(value) => Expr::Bool(*value),
            Expr::Integer(source) => Expr::Integer(source.clone()),
            Expr::Number(source) => Expr::Number(source.clone()),
            Expr::StringLiteral(source) => Expr::StringLiteral(source.clone()),
            Expr::Name(name) => Expr::Name(name.clone()),
            Expr::Field { base, name } => Expr::Field {
                base: Box::new(base.copy()),
                name: name.clone(),
            },
            Expr::Index { base, index } => Expr::Index {
                base: Box::new(base.copy()),
                index: Box::new(index.copy()),
            },
            Expr::Call { callee, args } => Expr::Call {
                callee: Box::new(callee.copy()),
                args: copy_exprs(args),
            },
            Expr::MethodCall { receiver, method, args } => Expr::MethodCall {
                receiver: Box::new(receiver.copy()),
                method: method.clone(),
                args: copy_exprs(args),
            },
            Expr::Unary { op, expression } => Expr::Unary {
                op: *op,
                expression: Box::new(expression.copy()),
            },
            Expr::Binary { left, op, right } => Expr::Binary {
                left: Box::new(left.copy()),
                op: *op,
                right: Box::new(right.copy()),
            },
            Expr::Table(fields) => Expr::Table(copy_fields(fields)),
            Expr::Parenthesized(inner) => Expr::Parenthesized(Box::new(inner.copy())),
        }
    }
}

impl TableField {
    /// A copy with the same tree.
    pub fn copy(&self) -> (r: Self)
        ensures
            r.model() == self.model(),
        decreases *self,
    {
        match self {
            TableField::Named(name, value) => TableField::Named(name.clone(), value.copy()),
            TableField::Indexed(index, value) => TableField::Indexed(index.copy(), value.copy()),
            TableField::Value(value) => TableField::Value(value.copy()),
        }
    }
}

/// Copies a list of expressions.
pub fn copy_exprs(list: &Vec<Expr>) -> (r: Vec<Expr>)
    ensures
        exprs_model(r@) == exprs_model(list@),
    decreases *list,
{
    let mut out: Vec<Expr> = Vec::new();
    let mut i: usize = 0;
    while i < list.len()
        invariant
            i == out@.len(),
            i <= list.len(),
            forall|k: int| 0 <= k < i ==> (#[trigger] out@[k]).model() == list@[k].model(),
        decreases list.len() - i,
    {
        out.push(list[i].copy());
        i += 1;
    }
    proof {
        assert(exprs_model(out@) =~= exprs_model(list@));
    }
    out
}

fn copy_fields(list: &Vec<TableField>) -> (r: Vec<TableField>)
    ensures
        fields_model(r@) == fields_model(list@),
    decreases *list,
{
    let mut out: Vec<TableField> = Vec::new();
    let mut i: usize = 0;
    while i < list.len()
        invariant
            i == out@.len(),
            i <= list.len(),
            forall|k: int| 0 <= k < i ==> (#[trigger] out@[k]).model() == list@[k].model(),
        decreases list.len() - i,
    {
        out.push(list[i].copy());
        i += 1;
    }
    proof {
        assert(fields_model(out@) =~= fields_model(list@));
    }
    out
}

/// No expressions.
pub fn no_exprs() -> (r: Vec<Expr>)
    ensures
        exprs_model(r@) == Seq::<ExprModel>::empty(),
{
    let r: Vec<Expr> = Vec::new();
    proof {
        assert(exprs_model(r@) =~= Seq::<ExprModel>::empty());
    }
    r
}

/// A list of one expression.
pub fn one_expr(a: Expr) -> (r: Vec<Expr>)
    ensures
        exprs_model(r@) == seq![a.model()],
{
    let mut r: Vec<Expr> = Vec::new();
    r.push(a);
    proof {
        assert(exprs_model(r@) =~= seq![a.model()]);
    }
    r
}

/// A list of two expressions.
pub fn two_exprs(a: Expr, b: Expr) -> (r: Vec<Expr>)
    ensures
        exprs_model(r@) == seq![a.model(), b.model()],
{
    let mut r: Vec<Expr> = Vec::new();
    r.push(a);
    r.push(b);
    proof {
        assert(exprs_model(r@) =~= seq![a.model(), b.model()]);
    }
    r
}

/// A list of three expressions.
pub fn three_exprs(a: Expr, b: Expr, c: Expr) -> (r: Vec<Expr>)
    ensures
        exprs_model(r@) == seq![a.model(), b.model(), c.model()],
{
    let mut r: Vec<Expr> = Vec::new();
    r.push(a);
    r.push(b);
    r.push(c);
    proof {
        assert(exprs_model(r@) =~= seq![a.model(), b.model(), c.model()]);
    }
    r
}

/// Appends one expression.
pub fn push_expr(list: &mut Vec<Expr>, e: Expr)
    ensures
        exprs_model(final(list)@) == exprs_model(old(list)@).push(e.model()),
{
    list.push(e);
    proof {
        assert(exprs_model(list@) =~= exprs_model(old(list)@).push(e.model()));
    }
}

/// A list of one text.
pub fn one_text(a: String) -> (r: Vec<String>)
    ensures
        r@.len() == 1,
        texts(r@) == seq![a@],
{
    let mut r: Vec<String> = Vec::new();
    r.push(a);
    proof {
        assert(texts(r@) =~= seq![a@]);
    }
    r
}

/// A list of two texts.
pub fn two_texts(a: String, b: String) -> (r: Vec<String>)
    ensures
        r@.len() == 2,
        texts(r@) == seq![a@, b@],
{
    let mut r: Vec<String> = Vec::new();
    r.push(a);
    r.push(b);
    proof {
        assert(texts(r@) =~= seq![a@, b@]);
    }
    r
}

// ---------------------------------------------------------------------------
// The stack builder.
// ---------------------------------------------------------------------------

/// What an open block will become.
#[derive(Debug)]
pub enum Opener {
    Do,
    While { condition: Expr },
    NumericFor { variable: String, start: Expr, stop: Expr },
    Function { target: FunctionTarget, params: Vec<String> },
    /// The branches before the open one, and the condition of the open one.
    If { branches: Vec<IfBranch>, condition: Expr },
    /// All branches of an `if` whose `else` is open.
    Else { branches: Vec<IfBranch> },
}

/// A block that is still open.
#[derive(Debug)]
pub struct Frame {
    pub opener: Opener,
    pub body: Block,
}

pub enum OpenerModel {
    Do,
    While { condition: ExprModel },
    NumericFor { variable: Seq<char>, start: ExprModel, stop: ExprModel },
    Function { target: TargetModel, params: Seq<Seq<char>> },
    If { branches: Seq<BranchModel>, condition: ExprModel },
    Else { branches: Seq<BranchModel> },
}

impl Opener {
    /// The opener over mathematical sequences.
    pub open spec fn model(self) -> OpenerModel {
        match self {
            Opener::Do => OpenerModel::Do,
            Opener::While { condition } => OpenerModel::While { condition: condition.model() },
            Opener::NumericFor { variable, start, stop } => OpenerModel::NumericFor {
                variable: variable@,
                start: start.model(),
                stop: stop.model(),
            },
            Opener::Function { target, params } => OpenerModel::Function {
                target: target.model(),
                params: texts(params@),
            },
            Opener::If { branches, condition } => OpenerModel::If {
                branches: branches_model(branches@),
                condition: condition.model(),
            },
            Opener::Else { branches } => OpenerModel::Else { branches: branches_model(branches@) },
        }
    }
}

/// The open blocks, innermost first.
pub enum Frames {
    Empty,
    Over { opener: OpenerModel, body: Seq<EntryModel>, outer: Box<Frames> },
}

/// The stack of open frames over mathematical sequences.
pub open spec fn frames_model(frames: Seq<Frame>) -> Frames
    decreases frames.len(),
{
    if frames.len() == 0 {
        Frames::Empty
    } else {
        Frames::Over {
            opener: frames.last().opener.model(),
            body: frames.last().body.model(),
            outer: Box::new(frames_model(frames.drop_last())),
        }
    }
}

/// The state of a builder: the root block, the open blocks and the source anchors.
pub struct BuilderModel {
    pub root: Seq<EntryModel>,
    pub frames: Frames,
    pub anchors: Seq<SourceRange>,
}

impl BuilderModel {
    /// Nothing emitted, nothing open.
    pub open spec fn initial() -> BuilderModel {
        BuilderModel { root: Seq::empty(), frames: Frames::Empty, anchors: Seq::empty() }
    }

    /// One more entry in the current block.
    pub open spec fn entry(self, entry: EntryModel) -> BuilderModel {
        match self.frames {
            Frames::Empty => BuilderModel { root: self.root.push(entry), ..self },
            Frames::Over { opener, body, outer } => BuilderModel {
                frames: Frames::Over { opener, body: body.push(entry), outer },
                ..self
            },
        }
    }

    /// The innermost source anchor.
    pub open spec fn anchor(self) -> Option<SourceRange> {
        if self.anchors.len() == 0 {
            None
        } else {
            Some(self.anchors.last())
        }
    }

    /// One more statement in the current block, under the innermost anchor.
    pub open spec fn emit(self, statement: StatementModel) -> BuilderModel {
        self.entry(EntryModel::Statement { anchor: self.anchor(), statement })
    }

    /// A fresh block inside the current one.
    pub open spec fn begin(self, opener: OpenerModel) -> BuilderModel {
        BuilderModel {
            frames: Frames::Over { opener, body: Seq::empty(), outer: Box::new(self.frames) },
            ..self
        }
    }

    /// Whether the innermost block is a branch of an `if` whose `else` is not open.
    pub open spec fn in_branch(self) -> bool {
        self.frames matches Frames::Over { opener, .. } && opener is If
    }

    /// The branches of the innermost `if`, the open one included.
    pub open spec fn closed_branches(self) -> Seq<BranchModel> {
        match self.frames {
            Frames::Over { opener: OpenerModel::If { branches, condition }, body, .. } => branches.push(
                BranchModel { condition, body },
            ),
            _ => Seq::empty(),
        }
    }

    /// The stack with the innermost block replaced by a fresh one.
    pub open spec fn reopen(self, opener: OpenerModel) -> BuilderModel {
        match self.frames {
            Frames::Empty => self,
            Frames::Over { outer, .. } => BuilderModel {
                frames: Frames::Over { opener, body: Seq::empty(), outer },
                ..self
            },
        }
    }

    /// The next branch of the innermost `if`.
    pub open spec fn else_if(self, condition: ExprModel) -> BuilderModel {
        self.reopen(OpenerModel::If { branches: self.closed_branches(), condition })
    }

    /// The `else` of the innermost `if`.
    pub open spec fn begin_else(self) -> BuilderModel {
        self.reopen(OpenerModel::Else { branches: self.closed_branches() })
    }

    /// The innermost block, closed into a statement of the block around it.
    pub open spec fn end(self) -> BuilderModel {
        match self.frames {
            Frames::Empty => self,
            Frames::Over { opener, body, outer } => BuilderModel { frames: *outer, ..self }.emit(
                closed_statement(opener, body),
            ),
        }
    }

    /// What every balanced sequence of operations keeps: the anchors, the root
    /// or not, the kind of the innermost block and all blocks around it.
    pub open spec fn shape(self) -> (Seq<SourceRange>, Option<(OpenerModel, Frames)>) {
        (
            self.anchors,
            match self.frames {
                Frames::Empty => None,
                Frames::Over { opener, outer, .. } => Some((opener, *outer)),
            },
        )
    }
}

/// The statement that a finished block becomes.
pub open spec fn closed_statement(opener: OpenerModel, body: Seq<EntryModel>) -> StatementModel {
    match opener {
        OpenerModel::Do => StatementModel::Do(body),
        OpenerModel::While { condition } => StatementModel::While { condition, body },
        OpenerModel::NumericFor { variable, start, stop } => StatementModel::NumericFor {
            variable,
            start,
            stop,
            body,
        },
        OpenerModel::Function { target, params } => StatementModel::Function {
            target,
            params,
            body,
        },
        OpenerModel::If { branches, condition } => StatementModel::If {
            branches: branches.push(BranchModel { condition, body }),
            else_body: None,
        },
        OpenerModel::Else { branches } => StatementModel::If {
            branches,
            else_body: Some(body),
        },
    }
}

/// Builds nested statements. A block can only be closed as the statement that
/// opened it, so no malformed nesting can be emitted.
#[derive(Debug)]
pub struct Builder {
    pub root: Block,
    pub frames: Vec<Frame>,
    pub anchors: Vec<SourceRange>,
}

impl Builder {
    /// The state of the builder.
    pub open spec fn view(&self) -> BuilderModel {
        BuilderModel {
            root: self.root.model(),
            frames: frames_model(self.frames@),
            anchors: self.anchors@,
        }
    }

    /// An empty builder.
    pub fn new() -> (r: Self)
        ensures
            r@ == BuilderModel::initial(),
    {
        let r = Builder {
            root: Block { entries: Vec::new() },
            frames: Vec::new(),
            anchors: Vec::new(),
        };
        proof {
            assert(r.root.model() =~= Seq::empty());
        }
        r
    }

    /// Attributes what follows to a source range.
    pub fn push_anchor(&mut self, source: SourceRange)
        ensures
            final(self)@ == (BuilderModel { anchors: old(self)@.anchors.push(source), ..old(self)@ }),
    {
        self.anchors.push(source);
    }

    /// Ends the innermost attribution.
    pub fn pop_anchor(&mut self)
        requires
            old(self)@.anchors.len() > 0,
        ensures
            final(self)@ == (BuilderModel { anchors: old(self)@.anchors.drop_last(), ..old(self)@ }),
    {
        let _ = self.anchors.pop();
    }

    fn push_entry(&mut self, entry: Entry)
        ensures
            final(self)@ == old(self)@.entry(entry.model()),
            final(self).anchors == old(self).anchors,
    {
        match self.frames.pop() {
            None => {
                self.root.entries.push(entry);
                proof {
                    assert(self.root.model() =~= old(self).root.model().push(entry.model()));
                    assert(self.frames@ =~= old(self).frames@);
                }
            },
            Some(mut frame) => {
                let ghost before = frame;
                let ghost outer = self.frames@;
                frame.body.entries.push(entry);
                self.frames.push(frame);
                proof {
                    assert(frame.body.model() =~= before.body.model().push(entry.model()));
                    assert(self.frames@.drop_last() =~= outer);
                    assert(old(self).frames@.drop_last() =~= outer);
                }
            },
        }
    }

    /// Appends a statement to the current block.
    pub fn statement(&mut self, statement: Statement)
        ensures
            final(self)@ == old(self)@.emit(statement.model()),
            final(self)@.shape() == old(self)@.shape(),
    {
        let anchor = if self.anchors.len() == 0 {
            None
        } else {
            Some(self.anchors[self.anchors.len() - 1])
        };
        self.push_entry(Entry::Statement { anchor, statement });
    }

    pub fn annotation(&mut self, source: &str)
        ensures
            final(self)@ == old(self)@.emit(StatementModel::Annotation(source@)),
            final(self)@.shape() == old(self)@.shape(),
    {
        self.statement(Statement::Annotation(source.to_string()));
    }

    pub fn expression(&mut self, expression: Expr)
        ensures
            final(self)@ == old(self)@.emit(StatementModel::Expression(expression.model())),
            final(self)@.shape() == old(self)@.shape(),
    {
        self.statement(Statement::Expression(expression));
    }

    pub fn local(&mut self, names: Vec<String>, values: Vec<Expr>)
        requires
            names@.len() > 0,
            values@.len() <= names@.len(),
        ensures
            final(self)@ == old(self)@.emit(
                StatementModel::Local { names: texts(names@), values: exprs_model(values@) },
            ),
            final(self)@.shape() == old(self)@.shape(),
    {
        self.statement(Statement::Local { names, values });
    }

    pub fn assign(&mut self, target: Expr, value: Expr)
        ensures
            final(self)@ == old(self)@.emit(
                StatementModel::Assign {
                    targets: seq![target.model()],
                    values: seq![value.model()],
                },
            ),
            final(self)@.shape() == old(self)@.shape(),
    {
        self.statement(Statement::Assign { targets: one_expr(target), values: one_expr(value) });
    }

    pub fn return_values(&mut self, values: Vec<Expr>)
        ensures
            final(self)@ == old(self)@.emit(StatementModel::Return(exprs_model(values@))),
            final(self)@.shape() == old(self)@.shape(),
    {
        self.statement(Statement::Return(values));
    }

    pub fn break_statement(&mut self)
        ensures
            final(self)@ == old(self)@.emit(StatementModel::Break),
            final(self)@.shape() == old(self)@.shape(),
    {
        self.statement(Statement::Break);
    }

    pub fn goto(&mut self, label: &str)
        ensures
            final(self)@ == old(self)@.emit(StatementModel::Goto(label@)),
            final(self)@.shape() == old(self)@.shape(),
    {
        self.statement(Statement::Goto(label.to_string()));
    }

    pub fn label(&mut self, label: &str)
        ensures
            final(self)@ == old(self)@.emit(StatementModel::Label(label@)),
            final(self)@.shape() == old(self)@.shape(),
    {
        self.statement(Statement::Label(label.to_string()));
    }

    pub fn blank(&mut self)
        ensures
            final(self)@ == old(self)@.entry(EntryModel::Blank),
            final(self)@.shape() == old(self)@.shape(),
    {
        self.push_entry(Entry::Blank);
    }

    fn begin(&mut self, opener: Opener)
        ensures
            final(self)@ == old(self)@.begin(opener.model()),
    {
        let frame = Frame { opener, body: Block { entries: Vec::new() } };
        self.frames.push(frame);
        proof {
            assert(frame.body.model() =~= Seq::empty());
            assert(self.frames@.drop_last() =~= old(self).frames@);
        }
    }

    pub fn begin_do(&mut self)
        ensures
            final(self)@ == old(self)@.begin(OpenerModel::Do),
    {
        self.begin(Opener::Do);
    }

    pub fn begin_while(&mut self, condition: Expr)
        ensures
            final(self)@ == old(self)@.begin(OpenerModel::While { condition: condition.model() }),
    {
        self.begin(Opener::While { condition });
    }

    pub fn begin_numeric_for(&mut self, variable: &str, start: Expr, stop: Expr)
        ensures
            final(self)@ == old(self)@.begin(
                OpenerModel::NumericFor {
                    variable: variable@,
                    start: start.model(),
                    stop: stop.model(),
                },
            ),
    {
        self.begin(Opener::NumericFor { variable: variable.to_string(), start, stop });
    }

    pub fn begin_function(&mut self, target: FunctionTarget, params: Vec<String>)
        ensures
            final(self)@ == old(self)@.begin(
                OpenerModel::Function { target: target.model(), params: texts(params@) },
            ),
    {
        self.begin(Opener::Function { target, params });
    }

    pub fn begin_if(&mut self, condition: Expr)
        ensures
            final(self)@ == old(self)@.begin(
                OpenerModel::If { branches: Seq::empty(), condition: condition.model() },
            ),
    {
        let branches: Vec<IfBranch> = Vec::new();
        proof {
            assert(branches_model(branches@) =~= Seq::empty());
        }
        self.begin(Opener::If { branches, condition });
    }

    /// Closes the open branch of the innermost `if` and gives all its branches.
    fn close_branch(&mut self) -> (r: Vec<IfBranch>)
        requires
            old(self)@.in_branch(),
        ensures
            branches_model(r@) == old(self)@.closed_branches(),
            final(self)@ == (BuilderModel {
                frames: match old(self)@.frames {
                    Frames::Empty => Frames::Empty,
                    Frames::Over { outer, .. } => *outer,
                },
                ..old(self)@
            }),
    {
        let ghost frames = self.frames@;
        match self.frames.pop() {
            None => Vec::new(),
            Some(frame) => {
                proof {
                    assert(self.frames@ =~= frames.drop_last());
                }
                match frame.opener {
                    Opener::If { branches, condition } => {
                        let mut branches = branches;
                        let ghost before = branches@;
                        let branch = IfBranch { condition, body: frame.body };
                        branches.push(branch);
                        proof {
                            assert(branches_model(branches@) =~= branches_model(before).push(
                                branch.model(),
                            ));
                        }
                        branches
                    },
                    _ => Vec::new(),
                }
            },
        }
    }

    pub fn begin_else_if(&mut self, condition: Expr)
        requires
            old(self)@.in_branch(),
        ensures
            final(self)@ == old(self)@.else_if(condition.model()),
    {
        let branches = self.close_branch();
        self.begin(Opener::If { branches, condition });
    }

    pub fn begin_else(&mut self)
        requires
            old(self)@.in_branch(),
        ensures
            final(self)@ == old(self)@.begin_else(),
    {
        let branches = self.close_branch();
        self.begin(Opener::Else { branches });
    }

    /// Closes the innermost block.
    pub fn end_block(&mut self)
        requires
            !(old(self)@.frames is Empty),
        ensures
            final(self)@ == old(self)@.end(),
            final(self)@.shape() == (BuilderModel {
                frames: *old(self)@.frames->outer,
                ..old(self)@
            }).shape(),
    {
        let ghost frames = self.frames@;
        match self.frames.pop() {
            None => {},
            Some(frame) => {
                proof {
                    assert(self.frames@ =~= frames.drop_last());
                }
                let body = frame.body;
                let statement = match frame.opener {
                    Opener::Do => Statement::Do(body),
                    Opener::While { condition } => Statement::While { condition, body },
                    Opener::NumericFor { variable, start, stop } => Statement::NumericFor {
                        variable,
                        start,
                        stop,
                        body,
                    },
                    Opener::Function { target, params } => Statement::Function {
                        target,
                        params,
                        body,
                    },
                    Opener::If { branches, condition } => {
                        let mut branches = branches;
                        let ghost before = branches@;
                        let branch = IfBranch { condition, body };
                        branches.push(branch);
                        proof {
                            assert(branches_model(branches@) =~= branches_model(before).push(
                                branch.model(),
                            ));
                        }
                        Statement::If { branches, else_body: None }
                    },
                    Opener::Else { branches } => Statement::If {
                        branches,
                        else_body: Some(body),
                    },
                };
                self.statement(statement);
            },
        }
    }

    /// Returns a table with named fields.
    pub fn return_table(&mut self, fields: Vec<(String, Expr)>)
        ensures
            final(self)@ == old(self)@.emit(
                StatementModel::Return(seq![ExprModel::Table(m_named(named_model(fields@)))]),
            ),
            final(self)@.shape() == old(self)@.shape(),
    {
        self.statement(Statement::Return(one_expr(Expr::named_table(fields))));
    }

    pub fn compact_if(&mut self, condition: Expr, statements: Vec<InlineStatement>)
        requires
            statements@.len() > 0,
        ensures
            final(self)@ == old(self)@.emit(
                StatementModel::CompactIf {
                    condition: condition.model(),
                    statements: inlines_model(statements@),
                },
            ),
            final(self)@.shape() == old(self)@.shape(),
    {
        self.statement(Statement::CompactIf { condition, statements });
    }

    /// The finished root block.
    pub fn finish(self) -> (r: Block)
        requires
            self@.frames is Empty,
        ensures
            r.model() == self@.root,
    {
        self.root
    }
}

impl InlineStatement {
    pub fn expression(expression: Expr) -> (r: Self)
        ensures
            r.model() == InlineModel::Expression(expression.model()),
    {
        InlineStatement::Expression(expression)
    }

    pub fn assign(target: Expr, value: Expr) -> (r: Self)
        ensures
            r.model() == (InlineModel::Assign { target: target.model(), value: value.model() }),
    {
        InlineStatement::Assign { target, value }
    }

    pub fn return_value(value: Expr) -> (r: Self)
        ensures
            r.model() == InlineModel::Return(seq![value.model()]),
    {
        InlineStatement::Return(one_expr(value))
    }

    pub fn return_nil() -> (r: Self)
        ensures
            r.model() == InlineModel::Return(seq![ExprModel::Nil]),
    {
        InlineStatement::Return(one_expr(Expr::Nil))
    }
}

impl FunctionTarget {
    pub fn local(name: &str) -> (r: Self)
        requires
            is_identifier(name@),
        ensures
            r.model() == TargetModel::Local(name@),
    {
        FunctionTarget::Local(name.to_string())
    }

    pub fn path(segments: Vec<String>) -> (r: Self)
        requires
            segments@.len() > 0,
            forall|i: int| 0 <= i < segments@.len() ==> is_identifier(#[trigger] segments@[i]@),
        ensures
            r.model() == TargetModel::Path(texts(segments@)),
    {
        FunctionTarget::Path(segments)
    }

    pub fn method(receiver: Vec<String>, method: &str) -> (r: Self)
        requires
            receiver@.len() > 0,
            forall|i: int| 0 <= i < receiver@.len() ==> is_identifier(#[trigger] receiver@[i]@),
            is_identifier(method@),
        ensures
            r.model() == (TargetModel::Method { receiver: texts(receiver@), method: method@ }),
    {
        FunctionTarget::Method { receiver, method: method.to_string() }
    }
}

// ---------------------------------------------------------------------------
// Laws of the builder.
// ---------------------------------------------------------------------------

/// Opening a block, emitting inside it and closing it leaves the nesting as it
/// was: whatever keeps the shape of the open block is balanced around it.
pub proof fn law_block_is_balanced(before: BuilderModel, opener: OpenerModel, inside: BuilderModel)
    requires
        inside.shape() == before.begin(opener).shape(),
        inside.root == before.root,
    ensures
        inside.end().shape() == before.shape(),
        inside.end() == before.emit(closed_statement(opener, inside.frames->body)),
{
}

/// A branch that is followed by an `else` becomes one `if` statement with both bodies.
pub proof fn law_if_else_is_one_statement(
    before: BuilderModel,
    condition: ExprModel,
    taken: BuilderModel,
    other: BuilderModel,
)
    requires
        taken.shape() == before.begin(OpenerModel::If { branches: Seq::empty(), condition }).shape(),
        taken.root == before.root,
        other.shape() == taken.begin_else().shape(),
        other.root == before.root,
    ensures
        other.end() == before.emit(
            StatementModel::If {
                branches: seq![BranchModel { condition, body: taken.frames->body }],
                else_body: Some(other.frames->body),
            },
        ),
{
    assert(taken.closed_branches() =~= seq![BranchModel { condition, body: taken.frames->body }]);
}

} // verus!
