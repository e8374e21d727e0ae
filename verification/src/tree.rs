//! The mathematical form of syntax trees: texts as sequences of characters and
//! lists as sequences.

use vstd::prelude::*;

use crate::ast::{
    AnnotationDecl, Attribute, BinOp, Block, ChunkEntry, ClosureBody, ClosureParam, ElseBranch,
    EnumDecl, Expr, ExprId, ExprKind, ExternBlock, ExternFn, Field, FnDecl, GenericParam,
    GenericParamId, ImplDecl, Item, MatchArm, MetaItem, MetaValue, ModDecl, Param, Pattern,
    PatternId, Program, Stmt, StructDecl, TraitDecl, TraitMethod, TraitRef, TraitRefId, Type,
    TypeId, UnOp, UseDecl, UseImport, Variant, VariantKind,
};
use crate::builtins::StandardMetadata;
use crate::text::texts;
use crate::token::SourceRange;

verus! {

/// The mathematical form of an optional text.
pub open spec fn optional_text(value: Option<String>) -> Option<Seq<char>> {
    match value {
        Some(inner) => Some(inner@),
        None => None,
    }
}

/// The mathematical form of `Attribute`.
pub struct AttributeTree {
    pub name: Seq<char>,
    pub items: Seq<MetaItemTree>,
}

/// The mathematical form of `MetaItem`.
pub enum MetaItemTree {
    Word(Seq<char>),
    NameValue { name: Seq<char>, value: MetaValueTree },
    List { name: Seq<char>, items: Seq<MetaItemTree> },
}

/// The mathematical form of `MetaValue`.
pub enum MetaValueTree {
    String(Seq<char>),
    Bool(bool),
    Integer(i64),
    Float(Seq<char>),
    Path(Seq<char>),
    List(Seq<MetaValueTree>),
}

/// The mathematical form of `Program`.
pub struct ProgramTree {
    pub items: Seq<ItemTree>,
    pub chunk: BlockTree,
    pub source_order: Seq<ChunkEntry>,
    pub is_decl: bool,
    pub standard_library: Option<StandardMetadata>,
}

/// The mathematical form of `Item`.
pub enum ItemTree {
    Annotation(AnnotationDeclTree),
    Fn(FnDeclTree),
    Struct(StructDeclTree),
    Enum(EnumDeclTree),
    Impl(ImplDeclTree),
    Trait(TraitDeclTree),
    Extern(ExternBlockTree),
    Mod(ModDeclTree),
    Use(UseDeclTree),
}

/// The mathematical form of `AnnotationDecl`.
pub struct AnnotationDeclTree {
    pub name: Seq<char>,
    pub name_span: SourceRange,
    pub attributes: Seq<AttributeTree>,
    pub documentation: Option<Seq<char>>,
    pub params: Seq<ParamTree>,
    pub is_pub: bool,
}

/// The mathematical form of `ModDecl`.
pub struct ModDeclTree {
    pub name: Seq<char>,
    pub attributes: Seq<AttributeTree>,
    pub documentation: Option<Seq<char>>,
    pub items: Seq<ItemTree>,
    pub chunk: BlockTree,
    pub source_order: Seq<ChunkEntry>,
    pub is_pub: bool,
    pub is_file: bool,
    pub is_decl: bool,
}

/// The mathematical form of `UseDecl`.
pub struct UseDeclTree {
    pub attributes: Seq<AttributeTree>,
    pub imports: Seq<UseImportTree>,
}

/// The mathematical form of `UseImport`.
pub struct UseImportTree {
    pub path: Seq<Seq<char>>,
    pub alias: Option<Seq<char>>,
}

/// The mathematical form of `ExternBlock`.
pub struct ExternBlockTree {
    pub attributes: Seq<AttributeTree>,
    pub abi: Seq<char>,
    pub documentation: Option<Seq<char>>,
    pub fns: Seq<ExternFnTree>,
}

/// The mathematical form of `ExternFn`.
pub struct ExternFnTree {
    pub name: Seq<char>,
    pub attributes: Seq<AttributeTree>,
    pub name_span: SourceRange,
    pub documentation: Option<Seq<char>>,
    pub generics: Seq<GenericParamTree>,
    pub params: Seq<ParamTree>,
    pub ret: Option<TypeTree>,
    pub variadic: bool,
}

/// The mathematical form of `GenericParam`.
pub struct GenericParamTree {
    pub id: GenericParamId,
    pub name: Seq<char>,
    pub bounds: Seq<TraitRefTree>,
}

/// The mathematical form of `TraitRef`.
pub struct TraitRefTree {
    pub id: TraitRefId,
    pub path: Seq<char>,
}

/// The mathematical form of `TraitDecl`.
pub struct TraitDeclTree {
    pub name: Seq<char>,
    pub attributes: Seq<AttributeTree>,
    pub documentation: Option<Seq<char>>,
    pub generics: Seq<GenericParamTree>,
    pub methods: Seq<TraitMethodTree>,
    pub is_pub: bool,
}

/// The mathematical form of `TraitMethod`.
pub struct TraitMethodTree {
    pub name: Seq<char>,
    pub attributes: Seq<AttributeTree>,
    pub documentation: Option<Seq<char>>,
    pub name_span: SourceRange,
    pub generics: Seq<GenericParamTree>,
    pub has_self: bool,
    pub receiver_mutable: bool,
    pub params: Seq<ParamTree>,
    pub ret: Option<TypeTree>,
    pub default: Option<BlockTree>,
}

/// The mathematical form of `StructDecl`.
pub struct StructDeclTree {
    pub name: Seq<char>,
    pub attributes: Seq<AttributeTree>,
    pub documentation: Option<Seq<char>>,
    pub generics: Seq<GenericParamTree>,
    pub fields: Seq<FieldTree>,
    pub is_pub: bool,
}

/// The mathematical form of `Field`.
pub struct FieldTree {
    pub name: Seq<char>,
    pub attributes: Seq<AttributeTree>,
    pub documentation: Option<Seq<char>>,
    pub ty: TypeTree,
    pub name_span: SourceRange,
}

/// The mathematical form of `EnumDecl`.
pub struct EnumDeclTree {
    pub name: Seq<char>,
    pub attributes: Seq<AttributeTree>,
    pub documentation: Option<Seq<char>>,
    pub generics: Seq<GenericParamTree>,
    pub variants: Seq<VariantTree>,
    pub is_pub: bool,
}

/// The mathematical form of `Variant`.
pub struct VariantTree {
    pub name: Seq<char>,
    pub attributes: Seq<AttributeTree>,
    pub documentation: Option<Seq<char>>,
    pub kind: VariantKindTree,
}

/// The mathematical form of `VariantKind`.
pub enum VariantKindTree {
    Unit,
    Tuple(Seq<TypeTree>),
    Struct(Seq<FieldTree>),
}

/// The mathematical form of `ImplDecl`.
pub struct ImplDeclTree {
    pub attributes: Seq<AttributeTree>,
    pub generics: Seq<GenericParamTree>,
    pub owner_name: Seq<char>,
    pub trait_name: Option<Seq<char>>,
    pub methods: Seq<FnDeclTree>,
}

/// The mathematical form of `FnDecl`.
pub struct FnDeclTree {
    pub name: Seq<char>,
    pub attributes: Seq<AttributeTree>,
    pub documentation: Option<Seq<char>>,
    pub name_span: SourceRange,
    pub generics: Seq<GenericParamTree>,
    pub is_pub: bool,
    pub has_self: bool,
    pub receiver_mutable: bool,
    pub params: Seq<ParamTree>,
    pub ret: Option<TypeTree>,
    pub body: BlockTree,
}

/// The mathematical form of `Param`.
pub struct ParamTree {
    pub name: Seq<char>,
    pub name_span: SourceRange,
    pub ty: TypeTree,
}

/// The mathematical form of `Type`.
pub enum TypeTree {
    Path { id: TypeId, name: Seq<char>, args: Seq<TypeTree> },
    Ref { mutable: bool, inner: Box<TypeTree> },
    Function { params: Seq<TypeTree>, ret: Box<TypeTree> },
    Tuple(Seq<TypeTree>),
    Never,
    Unit,
}

/// The mathematical form of `Block`.
pub struct BlockTree {
    pub stmts: Seq<StmtTree>,
    pub statement_blank_before: Seq<bool>,
    pub tail: Option<Box<ExprTree>>,
    pub tail_blank_before: bool,
}

/// The mathematical form of `Stmt`.
pub enum StmtTree {
    Lua { code: Seq<char>, span: SourceRange },
    Let { name: Seq<char>, name_span: SourceRange, mutable: bool, ty: Option<TypeTree>, init: ExprTree },
    Expr(ExprTree),
    Return(Option<ExprTree>),
    While { cond: ExprTree, body: BlockTree },
    Loop { body: BlockTree },
    For { var: Seq<char>, var_span: SourceRange, iter: ExprTree, body: BlockTree },
    WhileLet { pat: Box<PatternTree>, expr: ExprTree, body: BlockTree },
    Break(Option<ExprTree>),
    Continue,
}

/// The mathematical form of `Expr`.
pub struct ExprTree {
    pub id: ExprId,
    pub kind: ExprKindTree,
    pub span: SourceRange,
}

/// The mathematical form of `ClosureParam`.
pub struct ClosureParamTree {
    pub name: Seq<char>,
    pub name_span: SourceRange,
    pub ty: Option<TypeTree>,
}

/// The mathematical form of `ClosureBody`.
pub enum ClosureBodyTree {
    Expr(Box<ExprTree>),
    Block(BlockTree),
}

/// The mathematical form of `ExprKind`.
#[allow(inconsistent_fields)]
pub enum ExprKindTree {
    Int(Seq<char>),
    Float(Seq<char>),
    Str(Seq<char>),
    Bool(bool),
    VecLit(Seq<ExprTree>),
    MacroCall { name: Seq<char>, args: Seq<ExprTree> },
    Closure { params: Seq<ClosureParamTree>, ret: Option<TypeTree>, body: ClosureBodyTree },
    Path(Seq<Seq<char>>),
    Unary { op: UnOp, expr: Box<ExprTree> },
    Binary { op: BinOp, lhs: Box<ExprTree>, rhs: Box<ExprTree> },
    Loop(BlockTree),
    Call { callee: Box<ExprTree>, args: Seq<ExprTree> },
    MethodCall { recv: Box<ExprTree>, method: Seq<char>, optional: bool, type_args: Seq<TypeTree>, args: Seq<ExprTree>, method_span: SourceRange },
    Field { base: Box<ExprTree>, name: Seq<char>, optional: bool, name_span: SourceRange },
    StructLit { path: Seq<Seq<char>>, fields: Seq<(Seq<char>, ExprTree)> },
    MapLit(Seq<(ExprTree, ExprTree)>),
    Try { expr: Box<ExprTree> },
    Match { scrut: Box<ExprTree>, arms: Seq<MatchArmTree> },
    Range { start: Box<ExprTree>, end: Box<ExprTree>, inclusive: bool },
    Index { base: Box<ExprTree>, index: Box<ExprTree> },
    If { cond: Box<ExprTree>, then_block: BlockTree, else_block: Option<Box<ElseBranchTree>> },
    IfLet { pat: Box<PatternTree>, expr: Box<ExprTree>, then_block: BlockTree, else_block: Option<Box<ElseBranchTree>> },
    Block(BlockTree),
    Assign { op: Option<BinOp>, target: Box<ExprTree>, value: Box<ExprTree> },
}

/// The mathematical form of `ElseBranch`.
pub enum ElseBranchTree {
    Block(BlockTree),
    If(ExprTree),
}

/// The mathematical form of `MatchArm`.
pub struct MatchArmTree {
    pub pats: Seq<PatternTree>,
    pub guard: Option<ExprTree>,
    pub body: ExprTree,
}

/// The mathematical form of `Pattern`.
pub enum PatternTree {
    Wildcard,
    Binding(Seq<char>, SourceRange),
    Literal(ExprTree),
    Range { lo: Box<ExprTree>, hi: Box<ExprTree>, inclusive: bool },
    Path { id: PatternId, path: Seq<Seq<char>> },
    TupleVariant { id: PatternId, path: Seq<Seq<char>>, elems: Seq<PatternTree> },
    StructVariant { id: PatternId, path: Seq<Seq<char>>, fields: Seq<(Seq<char>, PatternTree)>, rest: bool },
}

/// The mathematical forms of a list.
pub open spec fn meta_items_tree(list: Seq<MetaItem>) -> Seq<MetaItemTree>
    decreases list,
{
    Seq::new(
        list.len(),
        |i: int|
            if 0 <= i < list.len() {
                list[i].tree()
            } else {
                arbitrary()
            },
    )
}

/// The mathematical forms of a list.
pub open spec fn meta_values_tree(list: Seq<MetaValue>) -> Seq<MetaValueTree>
    decreases list,
{
    Seq::new(
        list.len(),
        |i: int|
            if 0 <= i < list.len() {
                list[i].tree()
            } else {
                arbitrary()
            },
    )
}

/// The mathematical forms of a list.
pub open spec fn items_tree(list: Seq<Item>) -> Seq<ItemTree>
    decreases list,
{
    Seq::new(
        list.len(),
        |i: int|
            if 0 <= i < list.len() {
                list[i].tree()
            } else {
                arbitrary()
            },
    )
}

/// The mathematical forms of a list.
pub open spec fn attributes_tree(list: Seq<Attribute>) -> Seq<AttributeTree>
    decreases list,
{
    Seq::new(
        list.len(),
        |i: int|
            if 0 <= i < list.len() {
                list[i].tree()
            } else {
                arbitrary()
            },
    )
}

/// The mathematical forms of a list.
pub open spec fn params_tree(list: Seq<Param>) -> Seq<ParamTree>
    decreases list,
{
    Seq::new(
        list.len(),
        |i: int|
            if 0 <= i < list.len() {
                list[i].tree()
            } else {
                arbitrary()
            },
    )
}

/// The mathematical forms of a list.
pub open spec fn imports_tree(list: Seq<UseImport>) -> Seq<UseImportTree>
    decreases list,
{
    Seq::new(
        list.len(),
        |i: int|
            if 0 <= i < list.len() {
                list[i].tree()
            } else {
                arbitrary()
            },
    )
}

/// The mathematical forms of a list.
pub open spec fn extern_fns_tree(list: Seq<ExternFn>) -> Seq<ExternFnTree>
    decreases list,
{
    Seq::new(
        list.len(),
        |i: int|
            if 0 <= i < list.len() {
                list[i].tree()
            } else {
                arbitrary()
            },
    )
}

/// The mathematical forms of a list.
pub open spec fn generics_tree(list: Seq<GenericParam>) -> Seq<GenericParamTree>
    decreases list,
{
    Seq::new(
        list.len(),
        |i: int|
            if 0 <= i < list.len() {
                list[i].tree()
            } else {
                arbitrary()
            },
    )
}

/// The mathematical forms of a list.
pub open spec fn bounds_tree(list: Seq<TraitRef>) -> Seq<TraitRefTree>
    decreases list,
{
    Seq::new(
        list.len(),
        |i: int|
            if 0 <= i < list.len() {
                list[i].tree()
            } else {
                arbitrary()
            },
    )
}

/// The mathematical forms of a list.
pub open spec fn trait_methods_tree(list: Seq<TraitMethod>) -> Seq<TraitMethodTree>
    decreases list,
{
    Seq::new(
        list.len(),
        |i: int|
            if 0 <= i < list.len() {
                list[i].tree()
            } else {
                arbitrary()
            },
    )
}

/// The mathematical forms of a list.
pub open spec fn fields_tree(list: Seq<Field>) -> Seq<FieldTree>
    decreases list,
{
    Seq::new(
        list.len(),
        |i: int|
            if 0 <= i < list.len() {
                list[i].tree()
            } else {
                arbitrary()
            },
    )
}

/// The mathematical forms of a list.
pub open spec fn variants_tree(list: Seq<Variant>) -> Seq<VariantTree>
    decreases list,
{
    Seq::new(
        list.len(),
        |i: int|
            if 0 <= i < list.len() {
                list[i].tree()
            } else {
                arbitrary()
            },
    )
}

/// The mathematical forms of a list.
pub open spec fn types_tree(list: Seq<Type>) -> Seq<TypeTree>
    decreases list,
{
    Seq::new(
        list.len(),
        |i: int|
            if 0 <= i < list.len() {
                list[i].tree()
            } else {
                arbitrary()
            },
    )
}

/// The mathematical forms of a list.
pub open spec fn functions_tree(list: Seq<FnDecl>) -> Seq<FnDeclTree>
    decreases list,
{
    Seq::new(
        list.len(),
        |i: int|
            if 0 <= i < list.len() {
                list[i].tree()
            } else {
                arbitrary()
            },
    )
}

/// The mathematical forms of a list.
pub open spec fn stmts_tree(list: Seq<Stmt>) -> Seq<StmtTree>
    decreases list,
{
    Seq::new(
        list.len(),
        |i: int|
            if 0 <= i < list.len() {
                list[i].tree()
            } else {
                arbitrary()
            },
    )
}

/// The mathematical forms of a list.
pub open spec fn exprs_tree(list: Seq<Expr>) -> Seq<ExprTree>
    decreases list,
{
    Seq::new(
        list.len(),
        |i: int|
            if 0 <= i < list.len() {
                list[i].tree()
            } else {
                arbitrary()
            },
    )
}

/// The mathematical forms of a list.
pub open spec fn closure_params_tree(list: Seq<ClosureParam>) -> Seq<ClosureParamTree>
    decreases list,
{
    Seq::new(
        list.len(),
        |i: int|
            if 0 <= i < list.len() {
                list[i].tree()
            } else {
                arbitrary()
            },
    )
}

/// The mathematical forms of a list.
pub open spec fn field_values_tree(list: Seq<(String, Expr)>) -> Seq<(Seq<char>, ExprTree)>
    decreases list,
{
    Seq::new(
        list.len(),
        |i: int|
            if 0 <= i < list.len() {
                (list[i].0@, list[i].1.tree())
            } else {
                arbitrary()
            },
    )
}

/// The mathematical forms of a list.
pub open spec fn pairs_tree(list: Seq<(Expr, Expr)>) -> Seq<(ExprTree, ExprTree)>
    decreases list,
{
    Seq::new(
        list.len(),
        |i: int|
            if 0 <= i < list.len() {
                (list[i].0.tree(), list[i].1.tree())
            } else {
                arbitrary()
            },
    )
}

/// The mathematical forms of a list.
pub open spec fn arms_tree(list: Seq<MatchArm>) -> Seq<MatchArmTree>
    decreases list,
{
    Seq::new(
        list.len(),
        |i: int|
            if 0 <= i < list.len() {
                list[i].tree()
            } else {
                arbitrary()
            },
    )
}

/// The mathematical forms of a list.
pub open spec fn patterns_tree(list: Seq<Pattern>) -> Seq<PatternTree>
    decreases list,
{
    Seq::new(
        list.len(),
        |i: int|
            if 0 <= i < list.len() {
                list[i].tree()
            } else {
                arbitrary()
            },
    )
}

/// The mathematical forms of a list.
pub open spec fn field_patterns_tree(list: Seq<(String, Pattern)>) -> Seq<(Seq<char>, PatternTree)>
    decreases list,
{
    Seq::new(
        list.len(),
        |i: int|
            if 0 <= i < list.len() {
                (list[i].0@, list[i].1.tree())
            } else {
                arbitrary()
            },
    )
}

/// The mathematical form of an optional value.
pub open spec fn optional_type_tree(value: Option<Type>) -> Option<TypeTree>
    decreases value,
{
    match value {
        Some(inner) => Some(inner.tree()),
        None => None,
    }
}

/// The mathematical form of an optional value.
pub open spec fn optional_block_tree(value: Option<Block>) -> Option<BlockTree>
    decreases value,
{
    match value {
        Some(inner) => Some(inner.tree()),
        None => None,
    }
}

/// The mathematical form of an optional value.
pub open spec fn optional_boxed_expr_tree(value: Option<Box<Expr>>) -> Option<Box<ExprTree>>
    decreases value,
{
    match value {
        Some(inner) => Some(Box::new(inner.tree())),
        None => None,
    }
}

/// The mathematical form of an optional value.
pub open spec fn optional_expr_tree(value: Option<Expr>) -> Option<ExprTree>
    decreases value,
{
    match value {
        Some(inner) => Some(inner.tree()),
        None => None,
    }
}

/// The mathematical form of an optional value.
pub open spec fn optional_boxed_else_branch_tree(value: Option<Box<ElseBranch>>) -> Option<Box<ElseBranchTree>>
    decreases value,
{
    match value {
        Some(inner) => Some(Box::new(inner.tree())),
        None => None,
    }
}

impl Attribute {
    /// The mathematical form.
    pub open spec fn tree(self) -> AttributeTree
        decreases self,
    {
        AttributeTree {
            name: self.name@,
            items: meta_items_tree(self.items@),
        }
    }
}

impl MetaItem {
    /// The mathematical form.
    pub open spec fn tree(self) -> MetaItemTree
        decreases self,
    {
        match self {
            MetaItem::Word(inner) => MetaItemTree::Word(inner@),
            MetaItem::NameValue { name, value } => MetaItemTree::NameValue {
                name: name@,
                value: value.tree(),
            },
            MetaItem::List { name, items } => MetaItemTree::List {
                name: name@,
                items: meta_items_tree(items@),
            },
        }
    }
}

impl MetaValue {
    /// The mathematical form.
    pub open spec fn tree(self) -> MetaValueTree
        decreases self,
    {
        match self {
            MetaValue::String(inner) => MetaValueTree::String(inner@),
            MetaValue::Bool(inner) => MetaValueTree::Bool(inner),
            MetaValue::Integer(inner) => MetaValueTree::Integer(inner),
            MetaValue::Float(inner) => MetaValueTree::Float(inner@),
            MetaValue::Path(inner) => MetaValueTree::Path(inner@),
            MetaValue::List(inner) => MetaValueTree::List(meta_values_tree(inner@)),
        }
    }
}

impl Program {
    /// The mathematical form.
    pub open spec fn tree(self) -> ProgramTree
        decreases self,
    {
        ProgramTree {
            items: items_tree(self.items@),
            chunk: self.chunk.tree(),
            source_order: self.source_order@,
            is_decl: self.is_decl,
            standard_library: self.standard_library,
        }
    }
}

impl Item {
    /// The mathematical form.
    pub open spec fn tree(self) -> ItemTree
        decreases self,
    {
        match self {
            Item::Annotation(inner) => ItemTree::Annotation(inner.tree()),
            Item::Fn(inner) => ItemTree::Fn(inner.tree()),
            Item::Struct(inner) => ItemTree::Struct(inner.tree()),
            Item::Enum(inner) => ItemTree::Enum(inner.tree()),
            Item::Impl(inner) => ItemTree::Impl(inner.tree()),
            Item::Trait(inner) => ItemTree::Trait(inner.tree()),
            Item::Extern(inner) => ItemTree::Extern(inner.tree()),
            Item::Mod(inner) => ItemTree::Mod(inner.tree()),
            Item::Use(inner) => ItemTree::Use(inner.tree()),
        }
    }
}

impl AnnotationDecl {
    /// The mathematical form.
    pub open spec fn tree(self) -> AnnotationDeclTree
        decreases self,
    {
        AnnotationDeclTree {
            name: self.name@,
            name_span: self.name_span,
            attributes: attributes_tree(self.attributes@),
            documentation: optional_text(self.documentation),
            params: params_tree(self.params@),
            is_pub: self.is_pub,
        }
    }
}

impl ModDecl {
    /// The mathematical form.
    pub open spec fn tree(self) -> ModDeclTree
        decreases self,
    {
        ModDeclTree {
            name: self.name@,
            attributes: attributes_tree(self.attributes@),
            documentation: optional_text(self.documentation),
            items: items_tree(self.items@),
            chunk: self.chunk.tree(),
            source_order: self.source_order@,
            is_pub: self.is_pub,
            is_file: self.is_file,
            is_decl: self.is_decl,
        }
    }
}

impl UseDecl {
    /// The mathematical form.
    pub open spec fn tree(self) -> UseDeclTree
        decreases self,
    {
        UseDeclTree {
            attributes: attributes_tree(self.attributes@),
            imports: imports_tree(self.imports@),
        }
    }
}

impl UseImport {
    /// The mathematical form.
    pub open spec fn tree(self) -> UseImportTree
        decreases self,
    {
        UseImportTree {
            path: texts(self.path@),
            alias: optional_text(self.alias),
        }
    }
}

impl ExternBlock {
    /// The mathematical form.
    pub open spec fn tree(self) -> ExternBlockTree
        decreases self,
    {
        ExternBlockTree {
            attributes: attributes_tree(self.attributes@),
            abi: self.abi@,
            documentation: optional_text(self.documentation),
            fns: extern_fns_tree(self.fns@),
        }
    }
}

impl ExternFn {
    /// The mathematical form.
    pub open spec fn tree(self) -> ExternFnTree
        decreases self,
    {
        ExternFnTree {
            name: self.name@,
            attributes: attributes_tree(self.attributes@),
            name_span: self.name_span,
            documentation: optional_text(self.documentation),
            generics: generics_tree(self.generics@),
            params: params_tree(self.params@),
            ret: optional_type_tree(self.ret),
            variadic: self.variadic,
        }
    }
}

impl GenericParam {
    /// The mathematical form.
    pub open spec fn tree(self) -> GenericParamTree
        decreases self,
    {
        GenericParamTree {
            id: self.id,
            name: self.name@,
            bounds: bounds_tree(self.bounds@),
        }
    }
}

impl TraitRef {
    /// The mathematical form.
    pub open spec fn tree(self) -> TraitRefTree
        decreases self,
    {
        TraitRefTree {
            id: self.id,
            path: self.path@,
        }
    }
}

impl TraitDecl {
    /// The mathematical form.
    pub open spec fn tree(self) -> TraitDeclTree
        decreases self,
    {
        TraitDeclTree {
            name: self.name@,
            attributes: attributes_tree(self.attributes@),
            documentation: optional_text(self.documentation),
            generics: generics_tree(self.generics@),
            methods: trait_methods_tree(self.methods@),
            is_pub: self.is_pub,
        }
    }
}

impl TraitMethod {
    /// The mathematical form.
    pub open spec fn tree(self) -> TraitMethodTree
        decreases self,
    {
        TraitMethodTree {
            name: self.name@,
            attributes: attributes_tree(self.attributes@),
            documentation: optional_text(self.documentation),
            name_span: self.name_span,
            generics: generics_tree(self.generics@),
            has_self: self.has_self,
            receiver_mutable: self.receiver_mutable,
            params: params_tree(self.params@),
            ret: optional_type_tree(self.ret),
            default: optional_block_tree(self.default),
        }
    }
}

impl StructDecl {
    /// The mathematical form.
    pub open spec fn tree(self) -> StructDeclTree
        decreases self,
    {
        StructDeclTree {
            name: self.name@,
            attributes: attributes_tree(self.attributes@),
            documentation: optional_text(self.documentation),
            generics: generics_tree(self.generics@),
            fields: fields_tree(self.fields@),
            is_pub: self.is_pub,
        }
    }
}

impl Field {
    /// The mathematical form.
    pub open spec fn tree(self) -> FieldTree
        decreases self,
    {
        FieldTree {
            name: self.name@,
            attributes: attributes_tree(self.attributes@),
            documentation: optional_text(self.documentation),
            ty: self.ty.tree(),
            name_span: self.name_span,
        }
    }
}

impl EnumDecl {
    /// The mathematical form.
    pub open spec fn tree(self) -> EnumDeclTree
        decreases self,
    {
        EnumDeclTree {
            name: self.name@,
            attributes: attributes_tree(self.attributes@),
            documentation: optional_text(self.documentation),
            generics: generics_tree(self.generics@),
            variants: variants_tree(self.variants@),
            is_pub: self.is_pub,
        }
    }
}

impl Variant {
    /// The mathematical form.
    pub open spec fn tree(self) -> VariantTree
        decreases self,
    {
        VariantTree {
            name: self.name@,
            attributes: attributes_tree(self.attributes@),
            documentation: optional_text(self.documentation),
            kind: self.kind.tree(),
        }
    }
}

impl VariantKind {
    /// The mathematical form.
    pub open spec fn tree(self) -> VariantKindTree
        decreases self,
    {
        match self {
            VariantKind::Unit => VariantKindTree::Unit,
            VariantKind::Tuple(inner) => VariantKindTree::Tuple(types_tree(inner@)),
            VariantKind::Struct(inner) => VariantKindTree::Struct(fields_tree(inner@)),
        }
    }
}

impl ImplDecl {
    /// The mathematical form.
    pub open spec fn tree(self) -> ImplDeclTree
        decreases self,
    {
        ImplDeclTree {
            attributes: attributes_tree(self.attributes@),
            generics: generics_tree(self.generics@),
            owner_name: self.owner_name@,
            trait_name: optional_text(self.trait_name),
            methods: functions_tree(self.methods@),
        }
    }
}

impl FnDecl {
    /// The mathematical form.
    pub open spec fn tree(self) -> FnDeclTree
        decreases self,
    {
        FnDeclTree {
            name: self.name@,
            attributes: attributes_tree(self.attributes@),
            documentation: optional_text(self.documentation),
            name_span: self.name_span,
            generics: generics_tree(self.generics@),
            is_pub: self.is_pub,
            has_self: self.has_self,
            receiver_mutable: self.receiver_mutable,
            params: params_tree(self.params@),
            ret: optional_type_tree(self.ret),
            body: self.body.tree(),
        }
    }
}

impl Param {
    /// The mathematical form.
    pub open spec fn tree(self) -> ParamTree
        decreases self,
    {
        ParamTree {
            name: self.name@,
            name_span: self.name_span,
            ty: self.ty.tree(),
        }
    }
}

impl Type {
    /// The mathematical form.
    pub open spec fn tree(self) -> TypeTree
        decreases self,
    {
        match self {
            Type::Path { id, name, args } => TypeTree::Path {
                id,
                name: name@,
                args: types_tree(args@),
            },
            Type::Ref { mutable, inner } => TypeTree::Ref {
                mutable,
                inner: Box::new(inner.tree()),
            },
            Type::Function { params, ret } => TypeTree::Function {
                params: types_tree(params@),
                ret: Box::new(ret.tree()),
            },
            Type::Tuple(inner) => TypeTree::Tuple(types_tree(inner@)),
            Type::Never => TypeTree::Never,
            Type::Unit => TypeTree::Unit,
        }
    }
}

impl Block {
    /// The mathematical form.
    pub open spec fn tree(self) -> BlockTree
        decreases self,
    {
        BlockTree {
            stmts: stmts_tree(self.stmts@),
            statement_blank_before: self.statement_blank_before@,
            tail: optional_boxed_expr_tree(self.tail),
            tail_blank_before: self.tail_blank_before,
        }
    }
}

impl Stmt {
    /// The mathematical form.
    pub open spec fn tree(self) -> StmtTree
        decreases self,
    {
        match self {
            Stmt::Lua { code, span } => StmtTree::Lua {
                code: code@,
                span,
            },
            Stmt::Let { name, name_span, mutable, ty, init } => StmtTree::Let {
                name: name@,
                name_span,
                mutable,
                ty: optional_type_tree(ty),
                init: init.tree(),
            },
            Stmt::Expr(inner) => StmtTree::Expr(inner.tree()),
            Stmt::Return(inner) => StmtTree::Return(optional_expr_tree(inner)),
            Stmt::While { cond, body } => StmtTree::While {
                cond: cond.tree(),
                body: body.tree(),
            },
            Stmt::Loop { body } => StmtTree::Loop {
                body: body.tree(),
            },
            Stmt::For { var, var_span, iter, body } => StmtTree::For {
                var: var@,
                var_span,
                iter: iter.tree(),
                body: body.tree(),
            },
            Stmt::WhileLet { pat, expr, body } => StmtTree::WhileLet {
                pat: Box::new(pat.tree()),
                expr: expr.tree(),
                body: body.tree(),
            },
            Stmt::Break(inner) => StmtTree::Break(optional_expr_tree(inner)),
            Stmt::Continue => StmtTree::Continue,
        }
    }
}

impl Expr {
    /// The mathematical form.
    pub open spec fn tree(self) -> ExprTree
        decreases self,
    {
        ExprTree {
            id: self.id,
            kind: self.kind.tree(),
            span: self.span,
        }
    }
}

impl ClosureParam {
    /// The mathematical form.
    pub open spec fn tree(self) -> ClosureParamTree
        decreases self,
    {
        ClosureParamTree {
            name: self.name@,
            name_span: self.name_span,
            ty: optional_type_tree(self.ty),
        }
    }
}

impl ClosureBody {
    /// The mathematical form.
    pub open spec fn tree(self) -> ClosureBodyTree
        decreases self,
    {
        match self {
            ClosureBody::Expr(inner) => ClosureBodyTree::Expr(Box::new(inner.tree())),
            ClosureBody::Block(inner) => ClosureBodyTree::Block(inner.tree()),
        }
    }
}

impl ExprKind {
    /// The mathematical form.
    pub open spec fn tree(self) -> ExprKindTree
        decreases self,
    {
        match self {
            ExprKind::Int(inner) => ExprKindTree::Int(inner@),
            ExprKind::Float(inner) => ExprKindTree::Float(inner@),
            ExprKind::Str(inner) => ExprKindTree::Str(inner@),
            ExprKind::Bool(inner) => ExprKindTree::Bool(inner),
            ExprKind::VecLit(inner) => ExprKindTree::VecLit(exprs_tree(inner@)),
            ExprKind::MacroCall { name, args } => ExprKindTree::MacroCall {
                name: name@,
                args: exprs_tree(args@),
            },
            ExprKind::Closure { params, ret, body } => ExprKindTree::Closure {
                params: closure_params_tree(params@),
                ret: optional_type_tree(ret),
                body: body.tree(),
            },
            ExprKind::Path(inner) => ExprKindTree::Path(texts(inner@)),
            ExprKind::Unary { op, expr } => ExprKindTree::Unary {
                op,
                expr: Box::new(expr.tree()),
            },
            ExprKind::Binary { op, lhs, rhs } => ExprKindTree::Binary {
                op,
                lhs: Box::new(lhs.tree()),
                rhs: Box::new(rhs.tree()),
            },
            ExprKind::Loop(inner) => ExprKindTree::Loop(inner.tree()),
            ExprKind::Call { callee, args } => ExprKindTree::Call {
                callee: Box::new(callee.tree()),
                args: exprs_tree(args@),
            },
            ExprKind::MethodCall { recv, method, optional, type_args, args, method_span } => ExprKindTree::MethodCall {
                recv: Box::new(recv.tree()),
                method: method@,
                optional,
                type_args: types_tree(type_args@),
                args: exprs_tree(args@),
                method_span,
            },
            ExprKind::Field { base, name, optional, name_span } => ExprKindTree::Field {
                base: Box::new(base.tree()),
                name: name@,
                optional,
                name_span,
            },
            ExprKind::StructLit { path, fields } => ExprKindTree::StructLit {
                path: texts(path@),
                fields: field_values_tree(fields@),
            },
            ExprKind::MapLit(inner) => ExprKindTree::MapLit(pairs_tree(inner@)),
            ExprKind::Try { expr } => ExprKindTree::Try {
                expr: Box::new(expr.tree()),
            },
            ExprKind::Match { scrut, arms } => ExprKindTree::Match {
                scrut: Box::new(scrut.tree()),
                arms: arms_tree(arms@),
            },
            ExprKind::Range { start, end, inclusive } => ExprKindTree::Range {
                start: Box::new(start.tree()),
                end: Box::new(end.tree()),
                inclusive,
            },
            ExprKind::Index { base, index } => ExprKindTree::Index {
                base: Box::new(base.tree()),
                index: Box::new(index.tree()),
            },
            ExprKind::If { cond, then_block, else_block } => ExprKindTree::If {
                cond: Box::new(cond.tree()),
                then_block: then_block.tree(),
                else_block: optional_boxed_else_branch_tree(else_block),
            },
            ExprKind::IfLet { pat, expr, then_block, else_block } => ExprKindTree::IfLet {
                pat: Box::new(pat.tree()),
                expr: Box::new(expr.tree()),
                then_block: then_block.tree(),
                else_block: optional_boxed_else_branch_tree(else_block),
            },
            ExprKind::Block(inner) => ExprKindTree::Block(inner.tree()),
            ExprKind::Assign { op, target, value } => ExprKindTree::Assign {
                op,
                target: Box::new(target.tree()),
                value: Box::new(value.tree()),
            },
        }
    }
}

impl ElseBranch {
    /// The mathematical form.
    pub open spec fn tree(self) -> ElseBranchTree
        decreases self,
    {
        match self {
            ElseBranch::Block(inner) => ElseBranchTree::Block(inner.tree()),
            ElseBranch::If(inner) => ElseBranchTree::If(inner.tree()),
        }
    }
}

impl MatchArm {
    /// The mathematical form.
    pub open spec fn tree(self) -> MatchArmTree
        decreases self,
    {
        MatchArmTree {
            pats: patterns_tree(self.pats@),
            guard: optional_expr_tree(self.guard),
            body: self.body.tree(),
        }
    }
}

impl Pattern {
    /// The mathematical form.
    pub open spec fn tree(self) -> PatternTree
        decreases self,
    {
        match self {
            Pattern::Wildcard => PatternTree::Wildcard,
            Pattern::Binding(x0, x1) => PatternTree::Binding(x0@, x1),
            Pattern::Literal(inner) => PatternTree::Literal(inner.tree()),
            Pattern::Range { lo, hi, inclusive } => PatternTree::Range {
                lo: Box::new(lo.tree()),
                hi: Box::new(hi.tree()),
                inclusive,
            },
            Pattern::Path { id, path } => PatternTree::Path {
                id,
                path: texts(path@),
            },
            Pattern::TupleVariant { id, path, elems } => PatternTree::TupleVariant {
                id,
                path: texts(path@),
                elems: patterns_tree(elems@),
            },
            Pattern::StructVariant { id, path, fields, rest } => PatternTree::StructVariant {
                id,
                path: texts(path@),
                fields: field_patterns_tree(fields@),
                rest,
            },
        }
    }
}

} // verus!
