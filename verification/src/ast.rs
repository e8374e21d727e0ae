//! The syntax tree. It preserves source order, semantic ranges and normalized
//! documentation, and no other trivia.

use vstd::prelude::*;

use crate::builtins::StandardMetadata;
use crate::table::Key;
use crate::token::SourceRange;

verus! {

/// One `#[name(items)]` attribute.
#[derive(Debug)]
pub struct Attribute {
    pub name: String,
    pub items: Vec<MetaItem>,
}

/// One entry of an attribute's argument list.
#[derive(Debug)]
pub enum MetaItem {
    Word(String),
    NameValue { name: String, value: MetaValue },
    List { name: String, items: Vec<MetaItem> },
}

/// The value of a named attribute argument.
#[derive(Debug)]
pub enum MetaValue {
    String(String),
    Bool(bool),
    Integer(i64),
    /// A float in its source spelling.
    Float(String),
    Path(String),
    List(Vec<MetaValue>),
}

#[derive(Debug)]
pub struct Program {
    pub items: Vec<Item>,
    /// Executable statements in the root Lua-style chunk.
    pub chunk: Block,
    /// Source ordering between declarations and executable statements.
    pub source_order: Vec<ChunkEntry>,
    /// The root source is a declaration-only `.ruai` input.
    pub is_decl: bool,
    /// Versioned standard-library bindings installed by the host. Parsers leave
    /// this empty; `load_builtins` fills it together with declaration items.
    pub standard_library: Option<StandardMetadata>,
}

#[derive(Debug, Clone, Copy, PartialEq, Eq, Structural)]
pub enum ChunkEntry {
    Item(usize),
    Statement(usize),
}

/// Stable expression identity within one parsed file.
#[derive(Debug, Clone, Copy, PartialEq, Eq, PartialOrd, Ord, Hash, Structural)]
pub struct ExprId {
    pub file: u32,
    pub local: u32,
}

/// Stable identity for a path-bearing pattern within one parsed file.
#[derive(Debug, Clone, Copy, PartialEq, Eq, PartialOrd, Ord, Hash, Structural)]
pub struct PatternId {
    pub file: u32,
    pub local: u32,
}

/// Stable identity for a path-bearing type use within one parsed file.
#[derive(Debug, Clone, Copy, PartialEq, Eq, PartialOrd, Ord, Hash, Structural)]
pub struct TypeId {
    pub file: u32,
    pub local: u32,
}

/// Stable identity for one trait path used as a generic bound.
#[derive(Debug, Clone, Copy, PartialEq, Eq, PartialOrd, Ord, Hash, Structural)]
pub struct TraitRefId {
    pub file: u32,
    pub local: u32,
}

/// Stable identity for a declared generic type parameter.
#[derive(Debug, Clone, Copy, PartialEq, Eq, PartialOrd, Ord, Hash, Structural)]
pub struct GenericParamId {
    pub file: u32,
    pub local: u32,
}

#[derive(Debug)]
pub enum Item {
    Annotation(AnnotationDecl),
    Fn(FnDecl),
    Struct(StructDecl),
    Enum(EnumDecl),
    Impl(ImplDecl),
    Trait(TraitDecl),
    Extern(ExternBlock),
    /// Compiler-internal module node synthesized from a source path.
    Mod(ModDecl),
    /// `use a::b::c;` / `use a::b as c;` / `use a::b::{c, d};`.
    Use(UseDecl),
}

impl Item {
    /// The attributes of the item.
    pub open spec fn spec_attributes(&self) -> Vec<Attribute> {
        match *self {
            Item::Annotation(item) => item.attributes,
            Item::Fn(item) => item.attributes,
            Item::Struct(item) => item.attributes,
            Item::Enum(item) => item.attributes,
            Item::Impl(item) => item.attributes,
            Item::Trait(item) => item.attributes,
            Item::Extern(item) => item.attributes,
            Item::Mod(item) => item.attributes,
            Item::Use(item) => item.attributes,
        }
    }

    /// The item with other attributes.
    pub open spec fn spec_with_attributes(&self, attributes: Vec<Attribute>) -> Item {
        match *self {
            Item::Annotation(item) => Item::Annotation(AnnotationDecl { attributes, ..item }),
            Item::Fn(item) => Item::Fn(FnDecl { attributes, ..item }),
            Item::Struct(item) => Item::Struct(StructDecl { attributes, ..item }),
            Item::Enum(item) => Item::Enum(EnumDecl { attributes, ..item }),
            Item::Impl(item) => Item::Impl(ImplDecl { attributes, ..item }),
            Item::Trait(item) => Item::Trait(TraitDecl { attributes, ..item }),
            Item::Extern(item) => Item::Extern(ExternBlock { attributes, ..item }),
            Item::Mod(item) => Item::Mod(ModDecl { attributes, ..item }),
            Item::Use(item) => Item::Use(UseDecl { attributes, ..item }),
        }
    }

    /// The attributes of the item.
    pub fn attributes(&self) -> (r: &Vec<Attribute>)
        ensures
            *r == self.spec_attributes(),
    {
        match self {
            Item::Annotation(item) => &item.attributes,
            Item::Fn(item) => &item.attributes,
            Item::Struct(item) => &item.attributes,
            Item::Enum(item) => &item.attributes,
            Item::Impl(item) => &item.attributes,
            Item::Trait(item) => &item.attributes,
            Item::Extern(item) => &item.attributes,
            Item::Mod(item) => &item.attributes,
            Item::Use(item) => &item.attributes,
        }
    }

    /// Replaces the attributes and nothing else.
    pub fn set_attributes(&mut self, attributes: Vec<Attribute>)
        ensures
            *final(self) == old(self).spec_with_attributes(attributes),
    {
        match self {
            Item::Annotation(item) => item.attributes = attributes,
            Item::Fn(item) => item.attributes = attributes,
            Item::Struct(item) => item.attributes = attributes,
            Item::Enum(item) => item.attributes = attributes,
            Item::Impl(item) => item.attributes = attributes,
            Item::Trait(item) => item.attributes = attributes,
            Item::Extern(item) => item.attributes = attributes,
            Item::Mod(item) => item.attributes = attributes,
            Item::Use(item) => item.attributes = attributes,
        }
    }
}
#[derive(Debug)]
pub struct AnnotationDecl {
    pub name: String,
    pub name_span: SourceRange,
    pub attributes: Vec<Attribute>,
    pub documentation: Option<String>,
    pub params: Vec<Param>,
    pub is_pub: bool,
}

#[derive(Debug)]
pub struct ModDecl {
    pub name: String,
    pub attributes: Vec<Attribute>,
    pub documentation: Option<String>,
    pub items: Vec<Item>,
    /// Executable statements owned by this module's initialization chunk.
    pub chunk: Block,
    /// Source ordering between module declarations and executable statements.
    pub source_order: Vec<ChunkEntry>,
    pub is_pub: bool,
    /// `true` when this module has a physical source or declaration file.
    pub is_file: bool,
    /// `true` when the module's items came from a `.ruai` declaration file: they
    /// are registered with the checkers but emit no definitions. Referenced
    /// declaration modules are loaded with `require` by codegen.
    pub is_decl: bool,
}

#[derive(Debug)]
pub struct UseDecl {
    pub attributes: Vec<Attribute>,
    pub imports: Vec<UseImport>,
}

#[derive(Debug)]
pub struct UseImport {
    /// Fully-qualified path segments; the last is the imported leaf name.
    pub path: Vec<String>,
    /// Optional local alias (`use a::b as c`); defaults to the last segment.
    pub alias: Option<String>,
}

/// Declares ambient Lua symbols. `lua` binds a host global directly, while
/// `lua-result` emits an explicit tagged-Result/multi-return adapter.
#[derive(Debug)]
pub struct ExternBlock {
    pub attributes: Vec<Attribute>,
    pub abi: String,
    pub documentation: Option<String>,
    pub fns: Vec<ExternFn>,
}

#[derive(Debug)]
pub struct ExternFn {
    pub name: String,
    pub attributes: Vec<Attribute>,
    pub name_span: SourceRange,
    pub documentation: Option<String>,
    pub generics: Vec<GenericParam>,
    pub params: Vec<Param>,
    pub ret: Option<Type>,
    /// `true` when the last parameter is `...` (variadic Lua function).
    pub variadic: bool,
}

/// A generic type parameter with optional trait bounds, e.g. `T: Add + Clone`.
/// Bounds are validated (must name real traits) but otherwise erased at codegen;
/// the type checker uses them to resolve method calls on generic-typed values.
#[derive(Debug)]
pub struct GenericParam {
    pub id: GenericParamId,
    pub name: String,
    pub bounds: Vec<TraitRef>,
}

#[derive(Debug)]
pub struct TraitRef {
    pub id: TraitRefId,
    pub path: String,
}

#[derive(Debug)]
pub struct TraitDecl {
    pub name: String,
    pub attributes: Vec<Attribute>,
    pub documentation: Option<String>,
    pub generics: Vec<GenericParam>,
    pub methods: Vec<TraitMethod>,
    pub is_pub: bool,
}

#[derive(Debug)]
pub struct TraitMethod {
    pub name: String,
    pub attributes: Vec<Attribute>,
    pub documentation: Option<String>,
    /// Byte-span of the method name identifier (definition site).
    pub name_span: SourceRange,
    /// Method-level generic parameters, e.g. `fn wrap<U: Clone>(&self, x: U)`.
    pub generics: Vec<GenericParam>,
    pub has_self: bool,
    pub receiver_mutable: bool,
    pub params: Vec<Param>,
    pub ret: Option<Type>,
    /// `Some` for a default method with a body; `None` for a signature only.
    pub default: Option<Block>,
}

#[derive(Debug)]
pub struct StructDecl {
    pub name: String,
    pub attributes: Vec<Attribute>,
    pub documentation: Option<String>,
    pub generics: Vec<GenericParam>,
    pub fields: Vec<Field>,
    pub is_pub: bool,
}

#[derive(Debug)]
pub struct Field {
    pub name: String,
    pub attributes: Vec<Attribute>,
    pub documentation: Option<String>,
    pub ty: Type,
    /// Byte-span of the field name identifier (definition site).
    pub name_span: SourceRange,
}

#[derive(Debug)]
pub struct EnumDecl {
    pub name: String,
    pub attributes: Vec<Attribute>,
    pub documentation: Option<String>,
    pub generics: Vec<GenericParam>,
    pub variants: Vec<Variant>,
    pub is_pub: bool,
}

#[derive(Debug)]
pub struct Variant {
    pub name: String,
    pub attributes: Vec<Attribute>,
    pub documentation: Option<String>,
    pub kind: VariantKind,
}

#[derive(Debug)]
pub enum VariantKind {
    Unit,
    Tuple(Vec<Type>),
    Struct(Vec<Field>),
}

#[derive(Debug)]
pub struct ImplDecl {
    pub attributes: Vec<Attribute>,
    /// Generic parameters of the impl itself, e.g. `impl<T> Foo<T>`.
    pub generics: Vec<GenericParam>,
    /// Type the methods are attached to.
    pub owner_name: String,
    /// `impl Trait for Type` records the trait name (unused by codegen for now).
    pub trait_name: Option<String>,
    pub methods: Vec<FnDecl>,
}

#[derive(Debug)]
pub struct FnDecl {
    pub name: String,
    pub attributes: Vec<Attribute>,
    pub documentation: Option<String>,
    /// Byte-span of the function name identifier (definition site).
    pub name_span: SourceRange,
    pub generics: Vec<GenericParam>,
    pub is_pub: bool,
    /// True when the first parameter is a `self`/`&self`/`&mut self` receiver
    /// (that receiver is not included in `params`).
    pub has_self: bool,
    /// True only for an explicit `&mut self` receiver.
    pub receiver_mutable: bool,
    pub params: Vec<Param>,
    pub ret: Option<Type>,
    pub body: Block,
}

#[derive(Debug)]
pub struct Param {
    pub name: String,
    /// Byte span of the parameter name identifier (for LSP hover/typing).
    pub name_span: SourceRange,
    pub ty: Type,
}

/// Types are parsed but only lightly used in this pass (erased at codegen).
#[derive(Debug)]
pub enum Type {
    /// A named/path type, optionally with generic args, e.g. `Vec<i64>`.
    Path {
        id: TypeId,
        name: String,
        args: Vec<Type>,
    },
    /// Reference type `&T` / `&mut T` (the `mut` flag is retained for later).
    Ref { mutable: bool, inner: Box<Type> },
    /// Callable type `fn(A, B) -> R`.
    Function { params: Vec<Type>, ret: Box<Type> },
    /// Tuple type `(A, B, ...)`.
    Tuple(Vec<Type>),
    /// Never type `!` for expressions that do not return.
    Never,
    /// Unit `()`.
    Unit,
}

#[derive(Debug)]
pub struct Block {
    pub stmts: Vec<Stmt>,
    /// Whether each statement was preceded by at least one empty source line.
    /// This stays parallel to `stmts` and is consumed only by presentation.
    pub statement_blank_before: Vec<bool>,
    /// Trailing expression (block value), if the block ends without `;`.
    pub tail: Option<Box<Expr>>,
    /// Whether the trailing expression was preceded by an empty source line.
    pub tail_blank_before: bool,
}

#[derive(Debug)]
pub enum Stmt {
    /// Raw Lua emitted verbatim inside the surrounding generated chunk.
    Lua {
        code: String,
        span: SourceRange,
    },
    Let {
        name: String,
        /// Byte span of the binding name identifier (for LSP hover/typing).
        name_span: SourceRange,
        mutable: bool,
        ty: Option<Type>,
        init: Expr,
    },
    /// An expression used for its effect (call, assignment, `if` used as stmt).
    Expr(Expr),
    Return(Option<Expr>),
    While {
        cond: Expr,
        body: Block,
    },
    Loop {
        body: Block,
    },
    /// `for <var> in <iter> { ... }` (single-identifier binding for now).
    For {
        var: String,
        /// Byte span of the loop-variable identifier (for LSP hover/typing).
        var_span: SourceRange,
        iter: Expr,
        body: Block,
    },
    /// `while let PAT = EXPR { ... }`.
    WhileLet {
        pat: Box<Pattern>,
        expr: Expr,
        body: Block,
    },
    Break(Option<Expr>),
    Continue,
}

/// An expression plus its source span (for diagnostics and, later, typing).
#[derive(Debug)]
pub struct Expr {
    pub id: ExprId,
    pub kind: ExprKind,
    pub span: SourceRange,
}

impl Expr {
    /// An expression of its three parts.
    pub fn new(id: ExprId, kind: ExprKind, span: SourceRange) -> (r: Self)
        ensures
            r == (Expr { id, kind, span }),
    {
        Expr { id, kind, span }
    }
}
#[derive(Debug)]
pub struct ClosureParam {
    pub name: String,
    pub name_span: SourceRange,
    pub ty: Option<Type>,
}

#[derive(Debug)]
pub enum ClosureBody {
    Expr(Box<Expr>),
    Block(Block),
}

#[allow(inconsistent_fields)]
#[derive(Debug)]
pub enum ExprKind {
    Int(String),
    Float(String),
    Str(String),
    Bool(bool),
    VecLit(Vec<Expr>),
    /// A call `name!(args)` of a macro other than `vec`.
    MacroCall {
        name: String,
        args: Vec<Expr>,
    },
    Closure {
        params: Vec<ClosureParam>,
        ret: Option<Type>,
        body: ClosureBody,
    },
    /// A bare name or `::`-joined path, e.g. `x`, `Foo::bar`.
    Path(Vec<String>),
    Unary {
        op: UnOp,
        expr: Box<Expr>,
    },
    Binary {
        op: BinOp,
        lhs: Box<Expr>,
        rhs: Box<Expr>,
    },
    /// `loop { ... }`, whose value is supplied by `break value;`.
    Loop(Block),
    Call {
        callee: Box<Expr>,
        args: Vec<Expr>,
    },
    /// `recv.method(args)` — always a method call in Rust syntax.
    MethodCall {
        recv: Box<Expr>,
        method: String,
        optional: bool,
        /// Explicit method type arguments from a turbofish, e.g. the
        /// `Vec<i64>` in `.collect::<Vec<i64>>()`.
        type_args: Vec<Type>,
        args: Vec<Expr>,
        /// Byte-span of the method name identifier (use site), for LSP member
        /// resolution. Not used by codegen/checks.
        method_span: SourceRange,
    },
    Field {
        base: Box<Expr>,
        name: String,
        optional: bool,
        /// Byte-span of the field name identifier (use site), for LSP member
        /// resolution. Not used by codegen/checks.
        name_span: SourceRange,
    },
    /// Struct / struct-variant literal: `Path { f: e, .. }`.
    StructLit {
        path: Vec<String>,
        fields: Vec<(String, Expr)>,
    },
    /// Strongly typed `HashMap` literal: `#{ key: value, ... }`.
    MapLit(Vec<(Expr, Expr)>),
    /// The `?` postfix operator (Result propagation; see docs §4.8).
    Try {
        expr: Box<Expr>,
    },
    Match {
        scrut: Box<Expr>,
        arms: Vec<MatchArm>,
    },
    /// `start..end` / `start..=end` (mainly for `for` loops).
    Range {
        start: Box<Expr>,
        end: Box<Expr>,
        inclusive: bool,
    },
    /// `base[index]` (1-based, matching Lua tables).
    Index {
        base: Box<Expr>,
        index: Box<Expr>,
    },
    If {
        cond: Box<Expr>,
        then_block: Block,
        else_block: Option<Box<ElseBranch>>,
    },
    /// `if let PAT = EXPR { .. } else { .. }`.
    IfLet {
        pat: Box<Pattern>,
        expr: Box<Expr>,
        then_block: Block,
        else_block: Option<Box<ElseBranch>>,
    },
    Block(Block),
    Assign {
        /// `None` for `=`, otherwise the arithmetic operation in `op=`.
        op: Option<BinOp>,
        target: Box<Expr>,
        value: Box<Expr>,
    },
}

#[derive(Debug)]
pub enum ElseBranch {
    /// `else { ... }`
    Block(Block),
    /// `else if ...`
    If(Expr),
}

#[derive(Debug)]
pub struct MatchArm {
    /// Or-patterns: `a | b | c`. Multiple patterns are only supported when they
    /// bind no variables.
    pub pats: Vec<Pattern>,
    pub guard: Option<Expr>,
    pub body: Expr,
}

#[derive(Debug)]
pub enum Pattern {
    /// `_`
    Wildcard,
    /// A lowercase binding, e.g. `x`. Carries the binding name's byte span
    /// (for LSP hover/typing).
    Binding(String, SourceRange),
    /// A literal: int/float/str/bool.
    Literal(Expr),
    /// Range `lo..=hi` or `lo..hi`.
    Range {
        lo: Box<Expr>,
        hi: Box<Expr>,
        inclusive: bool,
    },
    /// A path with no payload: unit enum variant or `None`, e.g. `Shape::Unit`.
    Path { id: PatternId, path: Vec<String> },
    /// Tuple variant / built-in payload: `Shape::Circle(r)`, `Some(x)`, `Ok(v)`.
    TupleVariant {
        id: PatternId,
        path: Vec<String>,
        elems: Vec<Pattern>,
    },
    /// Struct pattern / struct variant: `Point { x, y }`, `Shape::Rect { w, h }`.
    StructVariant {
        id: PatternId,
        path: Vec<String>,
        fields: Vec<(String, Pattern)>,
        rest: bool,
    },
}

#[derive(Debug, Clone, Copy, PartialEq, Eq, Structural)]
pub enum UnOp {
    Neg, // -
    Not, // !
}

#[derive(Debug, Clone, Copy, PartialEq, Eq, Structural)]
pub enum BinOp {
    Add,
    Sub,
    Mul,
    Div,
    Rem,
    Eq,
    Ne,
    Lt,
    Le,
    Gt,
    Ge,
    And,
    Or,
    Coalesce,
    Contains,
}

impl BinOp {
    /// The operator as it is written in source text.
    pub open spec fn spec_symbol(self) -> Seq<char> {
        match self {
            BinOp::Add => "+"@,
            BinOp::Sub => "-"@,
            BinOp::Mul => "*"@,
            BinOp::Div => "/"@,
            BinOp::Rem => "%"@,
            BinOp::Eq => "=="@,
            BinOp::Ne => "!="@,
            BinOp::Lt => "<"@,
            BinOp::Le => "<="@,
            BinOp::Gt => ">"@,
            BinOp::Ge => ">="@,
            BinOp::And => "&&"@,
            BinOp::Or => "||"@,
            BinOp::Coalesce => "??"@,
            BinOp::Contains => "in"@,
        }
    }

    /// The operator as it is written in source text.
    pub fn symbol(self) -> (r: &'static str)
        ensures
            r@ == self.spec_symbol(),
    {
        match self {
            BinOp::Add => "+",
            BinOp::Sub => "-",
            BinOp::Mul => "*",
            BinOp::Div => "/",
            BinOp::Rem => "%",
            BinOp::Eq => "==",
            BinOp::Ne => "!=",
            BinOp::Lt => "<",
            BinOp::Le => "<=",
            BinOp::Gt => ">",
            BinOp::Ge => ">=",
            BinOp::And => "&&",
            BinOp::Or => "||",
            BinOp::Coalesce => "??",
            BinOp::Contains => "in",
        }
    }
}

impl Key for ExprId {
    type Model = ExprId;

    open spec fn key(&self) -> ExprId {
        *self
    }

    fn same(&self, other: &Self) -> (r: bool) {
        *self == *other
    }
}

impl Key for PatternId {
    type Model = PatternId;

    open spec fn key(&self) -> PatternId {
        *self
    }

    fn same(&self, other: &Self) -> (r: bool) {
        *self == *other
    }
}

impl Key for TypeId {
    type Model = TypeId;

    open spec fn key(&self) -> TypeId {
        *self
    }

    fn same(&self, other: &Self) -> (r: bool) {
        *self == *other
    }
}

impl Key for TraitRefId {
    type Model = TraitRefId;

    open spec fn key(&self) -> TraitRefId {
        *self
    }

    fn same(&self, other: &Self) -> (r: bool) {
        *self == *other
    }
}

impl Key for GenericParamId {
    type Model = GenericParamId;

    open spec fn key(&self) -> GenericParamId {
        *self
    }

    fn same(&self, other: &Self) -> (r: bool) {
        *self == *other
    }
}

} // verus!
