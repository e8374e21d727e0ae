//! Stamping the file of origin on syntax trees. Freshly parsed trees carry the
//! first file in every range; once a file has its place in the registry, its tree
//! is walked and every identity and range gets that place.

use vstd::prelude::*;

use crate::ast::{
    AnnotationDecl, Block, ClosureBody, ClosureParam, ElseBranch, EnumDecl, Expr, ExprId, ExprKind,
    ExternBlock, ExternFn, Field, FnDecl, GenericParam, GenericParamId, ImplDecl, Item, MatchArm,
    ModDecl, Param, Pattern, PatternId, Program, Stmt, StructDecl, TraitDecl, TraitMethod,
    TraitRef, TraitRefId, Type, TypeId, Variant, VariantKind,
};
use crate::token::SourceRange;
use crate::tree::{
    AnnotationDeclTree, BlockTree, ClosureBodyTree, ClosureParamTree, ElseBranchTree, EnumDeclTree,
    ExprKindTree, ExprTree, ExternBlockTree, ExternFnTree, FieldTree, FnDeclTree, GenericParamTree,
    ImplDeclTree, ItemTree, MatchArmTree, ModDeclTree, ParamTree, PatternTree, ProgramTree,
    StmtTree, StructDeclTree, TraitDeclTree, TraitMethodTree, TraitRefTree, TypeTree,
    VariantKindTree, VariantTree, arms_tree, bounds_tree, closure_params_tree, exprs_tree,
    extern_fns_tree, field_patterns_tree, field_values_tree, fields_tree, functions_tree,
    generics_tree, items_tree, optional_block_tree, optional_boxed_else_branch_tree,
    optional_boxed_expr_tree, optional_expr_tree, optional_type_tree, pairs_tree, params_tree,
    patterns_tree, stmts_tree, trait_methods_tree, types_tree, variants_tree,
};

verus! {

/// `Item` with every identity and range in the file.
pub open spec fn item_in_file(node: ItemTree, file: u32) -> ItemTree
    decreases node,
{
    match node {
        ItemTree::Annotation(inner) => ItemTree::Annotation(annotation_decl_in_file(inner, file)),
        ItemTree::Fn(inner) => ItemTree::Fn(fn_decl_in_file(inner, file)),
        ItemTree::Struct(inner) => ItemTree::Struct(struct_decl_in_file(inner, file)),
        ItemTree::Enum(inner) => ItemTree::Enum(enum_decl_in_file(inner, file)),
        ItemTree::Impl(inner) => ItemTree::Impl(impl_decl_in_file(inner, file)),
        ItemTree::Trait(inner) => ItemTree::Trait(trait_decl_in_file(inner, file)),
        ItemTree::Extern(inner) => ItemTree::Extern(extern_block_in_file(inner, file)),
        ItemTree::Mod(inner) => ItemTree::Mod(mod_decl_in_file(inner, file)),
        ItemTree::Use(..) => node,
    }
}

/// `AnnotationDecl` with every identity and range in the file.
pub open spec fn annotation_decl_in_file(node: AnnotationDeclTree, file: u32) -> AnnotationDeclTree
    decreases node,
{
    AnnotationDeclTree {
        name_span: SourceRange { file, ..node.name_span },
        params: params_in_file(node.params, file),
        ..node
    }
}

/// `ModDecl` with every identity and range in the file.
pub open spec fn mod_decl_in_file(node: ModDeclTree, file: u32) -> ModDeclTree
    decreases node,
{
    ModDeclTree {
        items: items_in_file(node.items, file),
        chunk: block_in_file(node.chunk, file),
        ..node
    }
}

/// `ExternBlock` with every identity and range in the file.
pub open spec fn extern_block_in_file(node: ExternBlockTree, file: u32) -> ExternBlockTree
    decreases node,
{
    ExternBlockTree {
        fns: extern_fns_in_file(node.fns, file),
        ..node
    }
}

/// `ExternFn` with every identity and range in the file.
pub open spec fn extern_fn_in_file(node: ExternFnTree, file: u32) -> ExternFnTree
    decreases node,
{
    ExternFnTree {
        name_span: SourceRange { file, ..node.name_span },
        generics: generics_in_file(node.generics, file),
        params: params_in_file(node.params, file),
        ret: optional_type_in_file(node.ret, file),
        ..node
    }
}

/// `GenericParam` with every identity and range in the file.
pub open spec fn generic_param_in_file(node: GenericParamTree, file: u32) -> GenericParamTree
    decreases node,
{
    GenericParamTree {
        id: GenericParamId { file, ..node.id },
        bounds: bounds_in_file(node.bounds, file),
        ..node
    }
}

/// `TraitRef` with every identity and range in the file.
pub open spec fn trait_ref_in_file(node: TraitRefTree, file: u32) -> TraitRefTree
    decreases node,
{
    TraitRefTree {
        id: TraitRefId { file, ..node.id },
        ..node
    }
}

/// `TraitDecl` with every identity and range in the file.
pub open spec fn trait_decl_in_file(node: TraitDeclTree, file: u32) -> TraitDeclTree
    decreases node,
{
    TraitDeclTree {
        generics: generics_in_file(node.generics, file),
        methods: trait_methods_in_file(node.methods, file),
        ..node
    }
}

/// `TraitMethod` with every identity and range in the file.
pub open spec fn trait_method_in_file(node: TraitMethodTree, file: u32) -> TraitMethodTree
    decreases node,
{
    TraitMethodTree {
        name_span: SourceRange { file, ..node.name_span },
        generics: generics_in_file(node.generics, file),
        params: params_in_file(node.params, file),
        ret: optional_type_in_file(node.ret, file),
        default: optional_block_in_file(node.default, file),
        ..node
    }
}

/// `StructDecl` with every identity and range in the file.
pub open spec fn struct_decl_in_file(node: StructDeclTree, file: u32) -> StructDeclTree
    decreases node,
{
    StructDeclTree {
        generics: generics_in_file(node.generics, file),
        fields: fields_in_file(node.fields, file),
        ..node
    }
}

/// `Field` with every identity and range in the file.
pub open spec fn field_in_file(node: FieldTree, file: u32) -> FieldTree
    decreases node,
{
    FieldTree {
        ty: type_in_file(node.ty, file),
        name_span: SourceRange { file, ..node.name_span },
        ..node
    }
}

/// `EnumDecl` with every identity and range in the file.
pub open spec fn enum_decl_in_file(node: EnumDeclTree, file: u32) -> EnumDeclTree
    decreases node,
{
    EnumDeclTree {
        generics: generics_in_file(node.generics, file),
        variants: variants_in_file(node.variants, file),
        ..node
    }
}

/// `Variant` with every identity and range in the file.
pub open spec fn variant_in_file(node: VariantTree, file: u32) -> VariantTree
    decreases node,
{
    VariantTree {
        kind: variant_kind_in_file(node.kind, file),
        ..node
    }
}

/// `VariantKind` with every identity and range in the file.
pub open spec fn variant_kind_in_file(node: VariantKindTree, file: u32) -> VariantKindTree
    decreases node,
{
    match node {
        VariantKindTree::Unit => node,
        VariantKindTree::Tuple(inner) => VariantKindTree::Tuple(types_in_file(inner, file)),
        VariantKindTree::Struct(inner) => VariantKindTree::Struct(fields_in_file(inner, file)),
    }
}

/// `ImplDecl` with every identity and range in the file.
pub open spec fn impl_decl_in_file(node: ImplDeclTree, file: u32) -> ImplDeclTree
    decreases node,
{
    ImplDeclTree {
        generics: generics_in_file(node.generics, file),
        methods: functions_in_file(node.methods, file),
        ..node
    }
}

/// `FnDecl` with every identity and range in the file.
pub open spec fn fn_decl_in_file(node: FnDeclTree, file: u32) -> FnDeclTree
    decreases node,
{
    FnDeclTree {
        name_span: SourceRange { file, ..node.name_span },
        generics: generics_in_file(node.generics, file),
        params: params_in_file(node.params, file),
        ret: optional_type_in_file(node.ret, file),
        body: block_in_file(node.body, file),
        ..node
    }
}

/// `Param` with every identity and range in the file.
pub open spec fn param_in_file(node: ParamTree, file: u32) -> ParamTree
    decreases node,
{
    ParamTree {
        name_span: SourceRange { file, ..node.name_span },
        ty: type_in_file(node.ty, file),
        ..node
    }
}

/// `Type` with every identity and range in the file.
pub open spec fn type_in_file(node: TypeTree, file: u32) -> TypeTree
    decreases node,
{
    match node {
        TypeTree::Path { id, name, args } => TypeTree::Path {
            id: TypeId { file, ..id },
            name,
            args: types_in_file(args, file),
        },
        TypeTree::Ref { mutable, inner } => TypeTree::Ref {
            mutable,
            inner: Box::new(type_in_file(*inner, file)),
        },
        TypeTree::Function { params, ret } => TypeTree::Function {
            params: types_in_file(params, file),
            ret: Box::new(type_in_file(*ret, file)),
        },
        TypeTree::Tuple(inner) => TypeTree::Tuple(types_in_file(inner, file)),
        TypeTree::Never => node,
        TypeTree::Unit => node,
    }
}

/// `Block` with every identity and range in the file.
pub open spec fn block_in_file(node: BlockTree, file: u32) -> BlockTree
    decreases node,
{
    BlockTree {
        stmts: stmts_in_file(node.stmts, file),
        tail: optional_boxed_expr_in_file(node.tail, file),
        ..node
    }
}

/// `Stmt` with every identity and range in the file.
pub open spec fn stmt_in_file(node: StmtTree, file: u32) -> StmtTree
    decreases node,
{
    match node {
        StmtTree::Lua { code, span } => StmtTree::Lua {
            code,
            span: SourceRange { file, ..span },
        },
        StmtTree::Let { name, name_span, mutable, ty, init } => StmtTree::Let {
            name,
            name_span: SourceRange { file, ..name_span },
            mutable,
            ty: optional_type_in_file(ty, file),
            init: expr_in_file(init, file),
        },
        StmtTree::Expr(inner) => StmtTree::Expr(expr_in_file(inner, file)),
        StmtTree::Return(inner) => StmtTree::Return(optional_expr_in_file(inner, file)),
        StmtTree::While { cond, body } => StmtTree::While {
            cond: expr_in_file(cond, file),
            body: block_in_file(body, file),
        },
        StmtTree::Loop { body } => StmtTree::Loop {
            body: block_in_file(body, file),
        },
        StmtTree::For { var, var_span, iter, body } => StmtTree::For {
            var,
            var_span: SourceRange { file, ..var_span },
            iter: expr_in_file(iter, file),
            body: block_in_file(body, file),
        },
        StmtTree::WhileLet { pat, expr, body } => StmtTree::WhileLet {
            pat: Box::new(pattern_in_file(*pat, file)),
            expr: expr_in_file(expr, file),
            body: block_in_file(body, file),
        },
        StmtTree::Break(inner) => StmtTree::Break(optional_expr_in_file(inner, file)),
        StmtTree::Continue => node,
    }
}

/// `Expr` with every identity and range in the file.
pub open spec fn expr_in_file(node: ExprTree, file: u32) -> ExprTree
    decreases node,
{
    ExprTree {
        id: ExprId { file, ..node.id },
        kind: expr_kind_in_file(node.kind, file),
        span: SourceRange { file, ..node.span },
    }
}

/// `ClosureParam` with every identity and range in the file.
pub open spec fn closure_param_in_file(node: ClosureParamTree, file: u32) -> ClosureParamTree
    decreases node,
{
    ClosureParamTree {
        name_span: SourceRange { file, ..node.name_span },
        ty: optional_type_in_file(node.ty, file),
        ..node
    }
}

/// `ClosureBody` with every identity and range in the file.
pub open spec fn closure_body_in_file(node: ClosureBodyTree, file: u32) -> ClosureBodyTree
    decreases node,
{
    match node {
        ClosureBodyTree::Expr(inner) => ClosureBodyTree::Expr(Box::new(expr_in_file(*inner, file))),
        ClosureBodyTree::Block(inner) => ClosureBodyTree::Block(block_in_file(inner, file)),
    }
}

/// `ExprKind` with every identity and range in the file.
pub open spec fn expr_kind_in_file(node: ExprKindTree, file: u32) -> ExprKindTree
    decreases node,
{
    match node {
        ExprKindTree::Int(..) => node,
        ExprKindTree::Float(..) => node,
        ExprKindTree::Str(..) => node,
        ExprKindTree::Bool(..) => node,
        ExprKindTree::VecLit(inner) => ExprKindTree::VecLit(exprs_in_file(inner, file)),
        ExprKindTree::MacroCall { name, args } => ExprKindTree::MacroCall {
            name,
            args: exprs_in_file(args, file),
        },
        ExprKindTree::Closure { params, ret, body } => ExprKindTree::Closure {
            params: closure_params_in_file(params, file),
            ret: optional_type_in_file(ret, file),
            body: closure_body_in_file(body, file),
        },
        ExprKindTree::Path(..) => node,
        ExprKindTree::Unary { op, expr } => ExprKindTree::Unary {
            op,
            expr: Box::new(expr_in_file(*expr, file)),
        },
        ExprKindTree::Binary { op, lhs, rhs } => ExprKindTree::Binary {
            op,
            lhs: Box::new(expr_in_file(*lhs, file)),
            rhs: Box::new(expr_in_file(*rhs, file)),
        },
        ExprKindTree::Loop(inner) => ExprKindTree::Loop(block_in_file(inner, file)),
        ExprKindTree::Call { callee, args } => ExprKindTree::Call {
            callee: Box::new(expr_in_file(*callee, file)),
            args: exprs_in_file(args, file),
        },
        ExprKindTree::MethodCall { recv, method, optional, type_args, args, method_span } => ExprKindTree::MethodCall {
            recv: Box::new(expr_in_file(*recv, file)),
            method,
            optional,
            type_args: types_in_file(type_args, file),
            args: exprs_in_file(args, file),
            method_span: SourceRange { file, ..method_span },
        },
        ExprKindTree::Field { base, name, optional, name_span } => ExprKindTree::Field {
            base: Box::new(expr_in_file(*base, file)),
            name,
            optional,
            name_span: SourceRange { file, ..name_span },
        },
        ExprKindTree::StructLit { path, fields } => ExprKindTree::StructLit {
            path,
            fields: field_values_in_file(fields, file),
        },
        ExprKindTree::MapLit(inner) => ExprKindTree::MapLit(pairs_in_file(inner, file)),
        ExprKindTree::Try { expr } => ExprKindTree::Try {
            expr: Box::new(expr_in_file(*expr, file)),
        },
        ExprKindTree::Match { scrut, arms } => ExprKindTree::Match {
            scrut: Box::new(expr_in_file(*scrut, file)),
            arms: arms_in_file(arms, file),
        },
        ExprKindTree::Range { start, end, inclusive } => ExprKindTree::Range {
            start: Box::new(expr_in_file(*start, file)),
            end: Box::new(expr_in_file(*end, file)),
            inclusive,
        },
        ExprKindTree::Index { base, index } => ExprKindTree::Index {
            base: Box::new(expr_in_file(*base, file)),
            index: Box::new(expr_in_file(*index, file)),
        },
        ExprKindTree::If { cond, then_block, else_block } => ExprKindTree::If {
            cond: Box::new(expr_in_file(*cond, file)),
            then_block: block_in_file(then_block, file),
            else_block: optional_boxed_else_branch_in_file(else_block, file),
        },
        ExprKindTree::IfLet { pat, expr, then_block, else_block } => ExprKindTree::IfLet {
            pat: Box::new(pattern_in_file(*pat, file)),
            expr: Box::new(expr_in_file(*expr, file)),
            then_block: block_in_file(then_block, file),
            else_block: optional_boxed_else_branch_in_file(else_block, file),
        },
        ExprKindTree::Block(inner) => ExprKindTree::Block(block_in_file(inner, file)),
        ExprKindTree::Assign { op, target, value } => ExprKindTree::Assign {
            op,
            target: Box::new(expr_in_file(*target, file)),
            value: Box::new(expr_in_file(*value, file)),
        },
    }
}

/// `ElseBranch` with every identity and range in the file.
pub open spec fn else_branch_in_file(node: ElseBranchTree, file: u32) -> ElseBranchTree
    decreases node,
{
    match node {
        ElseBranchTree::Block(inner) => ElseBranchTree::Block(block_in_file(inner, file)),
        ElseBranchTree::If(inner) => ElseBranchTree::If(expr_in_file(inner, file)),
    }
}

/// `MatchArm` with every identity and range in the file.
pub open spec fn match_arm_in_file(node: MatchArmTree, file: u32) -> MatchArmTree
    decreases node,
{
    MatchArmTree {
        pats: patterns_in_file(node.pats, file),
        guard: optional_expr_in_file(node.guard, file),
        body: expr_in_file(node.body, file),
    }
}

/// `Pattern` with every identity and range in the file.
pub open spec fn pattern_in_file(node: PatternTree, file: u32) -> PatternTree
    decreases node,
{
    match node {
        PatternTree::Wildcard => node,
        PatternTree::Binding(x0, x1) => PatternTree::Binding(x0, SourceRange { file, ..x1 }),
        PatternTree::Literal(inner) => PatternTree::Literal(expr_in_file(inner, file)),
        PatternTree::Range { lo, hi, inclusive } => PatternTree::Range {
            lo: Box::new(expr_in_file(*lo, file)),
            hi: Box::new(expr_in_file(*hi, file)),
            inclusive,
        },
        PatternTree::Path { id, path } => PatternTree::Path {
            id: PatternId { file, ..id },
            path,
        },
        PatternTree::TupleVariant { id, path, elems } => PatternTree::TupleVariant {
            id: PatternId { file, ..id },
            path,
            elems: patterns_in_file(elems, file),
        },
        PatternTree::StructVariant { id, path, fields, rest } => PatternTree::StructVariant {
            id: PatternId { file, ..id },
            path,
            fields: field_patterns_in_file(fields, file),
            rest,
        },
    }
}

/// The list with every identity and range in the file.
pub open spec fn params_in_file(list: Seq<ParamTree>, file: u32) -> Seq<ParamTree>
    decreases list,
{
    Seq::new(
        list.len(),
        |i: int|
            if 0 <= i < list.len() {
                param_in_file(list[i], file)
            } else {
                arbitrary()
            },
    )
}

/// The list with every identity and range in the file.
pub open spec fn items_in_file(list: Seq<ItemTree>, file: u32) -> Seq<ItemTree>
    decreases list,
{
    Seq::new(
        list.len(),
        |i: int|
            if 0 <= i < list.len() {
                item_in_file(list[i], file)
            } else {
                arbitrary()
            },
    )
}

/// The list with every identity and range in the file.
pub open spec fn extern_fns_in_file(list: Seq<ExternFnTree>, file: u32) -> Seq<ExternFnTree>
    decreases list,
{
    Seq::new(
        list.len(),
        |i: int|
            if 0 <= i < list.len() {
                extern_fn_in_file(list[i], file)
            } else {
                arbitrary()
            },
    )
}

/// The list with every identity and range in the file.
pub open spec fn generics_in_file(list: Seq<GenericParamTree>, file: u32) -> Seq<GenericParamTree>
    decreases list,
{
    Seq::new(
        list.len(),
        |i: int|
            if 0 <= i < list.len() {
                generic_param_in_file(list[i], file)
            } else {
                arbitrary()
            },
    )
}

/// The list with every identity and range in the file.
pub open spec fn bounds_in_file(list: Seq<TraitRefTree>, file: u32) -> Seq<TraitRefTree>
    decreases list,
{
    Seq::new(
        list.len(),
        |i: int|
            if 0 <= i < list.len() {
                trait_ref_in_file(list[i], file)
            } else {
                arbitrary()
            },
    )
}

/// The list with every identity and range in the file.
pub open spec fn trait_methods_in_file(list: Seq<TraitMethodTree>, file: u32) -> Seq<TraitMethodTree>
    decreases list,
{
    Seq::new(
        list.len(),
        |i: int|
            if 0 <= i < list.len() {
                trait_method_in_file(list[i], file)
            } else {
                arbitrary()
            },
    )
}

/// The list with every identity and range in the file.
pub open spec fn fields_in_file(list: Seq<FieldTree>, file: u32) -> Seq<FieldTree>
    decreases list,
{
    Seq::new(
        list.len(),
        |i: int|
            if 0 <= i < list.len() {
                field_in_file(list[i], file)
            } else {
                arbitrary()
            },
    )
}

/// The list with every identity and range in the file.
pub open spec fn variants_in_file(list: Seq<VariantTree>, file: u32) -> Seq<VariantTree>
    decreases list,
{
    Seq::new(
        list.len(),
        |i: int|
            if 0 <= i < list.len() {
                variant_in_file(list[i], file)
            } else {
                arbitrary()
            },
    )
}

/// The list with every identity and range in the file.
pub open spec fn types_in_file(list: Seq<TypeTree>, file: u32) -> Seq<TypeTree>
    decreases list,
{
    Seq::new(
        list.len(),
        |i: int|
            if 0 <= i < list.len() {
                type_in_file(list[i], file)
            } else {
                arbitrary()
            },
    )
}

/// The list with every identity and range in the file.
pub open spec fn functions_in_file(list: Seq<FnDeclTree>, file: u32) -> Seq<FnDeclTree>
    decreases list,
{
    Seq::new(
        list.len(),
        |i: int|
            if 0 <= i < list.len() {
                fn_decl_in_file(list[i], file)
            } else {
                arbitrary()
            },
    )
}

/// The list with every identity and range in the file.
pub open spec fn stmts_in_file(list: Seq<StmtTree>, file: u32) -> Seq<StmtTree>
    decreases list,
{
    Seq::new(
        list.len(),
        |i: int|
            if 0 <= i < list.len() {
                stmt_in_file(list[i], file)
            } else {
                arbitrary()
            },
    )
}

/// The list with every identity and range in the file.
pub open spec fn exprs_in_file(list: Seq<ExprTree>, file: u32) -> Seq<ExprTree>
    decreases list,
{
    Seq::new(
        list.len(),
        |i: int|
            if 0 <= i < list.len() {
                expr_in_file(list[i], file)
            } else {
                arbitrary()
            },
    )
}

/// The list with every identity and range in the file.
pub open spec fn closure_params_in_file(list: Seq<ClosureParamTree>, file: u32) -> Seq<ClosureParamTree>
    decreases list,
{
    Seq::new(
        list.len(),
        |i: int|
            if 0 <= i < list.len() {
                closure_param_in_file(list[i], file)
            } else {
                arbitrary()
            },
    )
}

/// The list with every identity and range in the file.
pub open spec fn field_values_in_file(list: Seq<(Seq<char>, ExprTree)>, file: u32) -> Seq<(Seq<char>, ExprTree)>
    decreases list,
{
    Seq::new(
        list.len(),
        |i: int|
            if 0 <= i < list.len() {
                (list[i].0, expr_in_file(list[i].1, file))
            } else {
                arbitrary()
            },
    )
}

/// The list with every identity and range in the file.
pub open spec fn pairs_in_file(list: Seq<(ExprTree, ExprTree)>, file: u32) -> Seq<(ExprTree, ExprTree)>
    decreases list,
{
    Seq::new(
        list.len(),
        |i: int|
            if 0 <= i < list.len() {
                (expr_in_file(list[i].0, file), expr_in_file(list[i].1, file))
            } else {
                arbitrary()
            },
    )
}

/// The list with every identity and range in the file.
pub open spec fn arms_in_file(list: Seq<MatchArmTree>, file: u32) -> Seq<MatchArmTree>
    decreases list,
{
    Seq::new(
        list.len(),
        |i: int|
            if 0 <= i < list.len() {
                match_arm_in_file(list[i], file)
            } else {
                arbitrary()
            },
    )
}

/// The list with every identity and range in the file.
pub open spec fn patterns_in_file(list: Seq<PatternTree>, file: u32) -> Seq<PatternTree>
    decreases list,
{
    Seq::new(
        list.len(),
        |i: int|
            if 0 <= i < list.len() {
                pattern_in_file(list[i], file)
            } else {
                arbitrary()
            },
    )
}

/// The list with every identity and range in the file.
pub open spec fn field_patterns_in_file(list: Seq<(Seq<char>, PatternTree)>, file: u32) -> Seq<(Seq<char>, PatternTree)>
    decreases list,
{
    Seq::new(
        list.len(),
        |i: int|
            if 0 <= i < list.len() {
                (list[i].0, pattern_in_file(list[i].1, file))
            } else {
                arbitrary()
            },
    )
}

/// The optional value with every identity and range in the file.
pub open spec fn optional_type_in_file(node: Option<TypeTree>, file: u32) -> Option<TypeTree>
    decreases node,
{
    match node {
        Some(inner) => Some(type_in_file(inner, file)),
        None => None,
    }
}

/// The optional value with every identity and range in the file.
pub open spec fn optional_block_in_file(node: Option<BlockTree>, file: u32) -> Option<BlockTree>
    decreases node,
{
    match node {
        Some(inner) => Some(block_in_file(inner, file)),
        None => None,
    }
}

/// The optional value with every identity and range in the file.
pub open spec fn optional_boxed_expr_in_file(node: Option<Box<ExprTree>>, file: u32) -> Option<Box<ExprTree>>
    decreases node,
{
    match node {
        Some(inner) => Some(Box::new(expr_in_file(*inner, file))),
        None => None,
    }
}

/// The optional value with every identity and range in the file.
pub open spec fn optional_expr_in_file(node: Option<ExprTree>, file: u32) -> Option<ExprTree>
    decreases node,
{
    match node {
        Some(inner) => Some(expr_in_file(inner, file)),
        None => None,
    }
}

/// The optional value with every identity and range in the file.
pub open spec fn optional_boxed_else_branch_in_file(node: Option<Box<ElseBranchTree>>, file: u32) -> Option<Box<ElseBranchTree>>
    decreases node,
{
    match node {
        Some(inner) => Some(Box::new(else_branch_in_file(*inner, file))),
        None => None,
    }
}

/// A program with every identity and range in the file.
pub open spec fn program_in_file(node: ProgramTree, file: u32) -> ProgramTree {
    ProgramTree {
        items: items_in_file(node.items, file),
        chunk: block_in_file(node.chunk, file),
        ..node
    }
}

fn place_item(node: Item, file: u32) -> (r: Item)
    ensures
        r.tree() == item_in_file(node.tree(), file),
    decreases node,
{
    match node {
        Item::Annotation(inner) => Item::Annotation(place_annotation_decl(inner, file)),
        Item::Fn(inner) => Item::Fn(place_fn_decl(inner, file)),
        Item::Struct(inner) => Item::Struct(place_struct_decl(inner, file)),
        Item::Enum(inner) => Item::Enum(place_enum_decl(inner, file)),
        Item::Impl(inner) => Item::Impl(place_impl_decl(inner, file)),
        Item::Trait(inner) => Item::Trait(place_trait_decl(inner, file)),
        Item::Extern(inner) => Item::Extern(place_extern_block(inner, file)),
        Item::Mod(inner) => Item::Mod(place_mod_decl(inner, file)),
        Item::Use(inner) => Item::Use(inner),
    }
}

fn place_annotation_decl(node: AnnotationDecl, file: u32) -> (r: AnnotationDecl)
    ensures
        r.tree() == annotation_decl_in_file(node.tree(), file),
    decreases node,
{
    AnnotationDecl {
        name: node.name,
        name_span: SourceRange { file, ..node.name_span },
        attributes: node.attributes,
        documentation: node.documentation,
        params: place_params(node.params, file),
        is_pub: node.is_pub,
    }
}

fn place_mod_decl(node: ModDecl, file: u32) -> (r: ModDecl)
    ensures
        r.tree() == mod_decl_in_file(node.tree(), file),
    decreases node,
{
    ModDecl {
        name: node.name,
        attributes: node.attributes,
        documentation: node.documentation,
        items: place_items(node.items, file),
        chunk: place_block(node.chunk, file),
        source_order: node.source_order,
        is_pub: node.is_pub,
        is_file: node.is_file,
        is_decl: node.is_decl,
    }
}

fn place_extern_block(node: ExternBlock, file: u32) -> (r: ExternBlock)
    ensures
        r.tree() == extern_block_in_file(node.tree(), file),
    decreases node,
{
    ExternBlock {
        attributes: node.attributes,
        abi: node.abi,
        documentation: node.documentation,
        fns: place_extern_fns(node.fns, file),
    }
}

fn place_extern_fn(node: ExternFn, file: u32) -> (r: ExternFn)
    ensures
        r.tree() == extern_fn_in_file(node.tree(), file),
    decreases node,
{
    ExternFn {
        name: node.name,
        attributes: node.attributes,
        name_span: SourceRange { file, ..node.name_span },
        documentation: node.documentation,
        generics: place_generics(node.generics, file),
        params: place_params(node.params, file),
        ret: place_optional_type(node.ret, file),
        variadic: node.variadic,
    }
}

fn place_generic_param(node: GenericParam, file: u32) -> (r: GenericParam)
    ensures
        r.tree() == generic_param_in_file(node.tree(), file),
    decreases node,
{
    GenericParam {
        id: GenericParamId { file, ..node.id },
        name: node.name,
        bounds: place_bounds(node.bounds, file),
    }
}

fn place_trait_ref(node: TraitRef, file: u32) -> (r: TraitRef)
    ensures
        r.tree() == trait_ref_in_file(node.tree(), file),
    decreases node,
{
    TraitRef {
        id: TraitRefId { file, ..node.id },
        path: node.path,
    }
}

fn place_trait_decl(node: TraitDecl, file: u32) -> (r: TraitDecl)
    ensures
        r.tree() == trait_decl_in_file(node.tree(), file),
    decreases node,
{
    TraitDecl {
        name: node.name,
        attributes: node.attributes,
        documentation: node.documentation,
        generics: place_generics(node.generics, file),
        methods: place_trait_methods(node.methods, file),
        is_pub: node.is_pub,
    }
}

fn place_trait_method(node: TraitMethod, file: u32) -> (r: TraitMethod)
    ensures
        r.tree() == trait_method_in_file(node.tree(), file),
    decreases node,
{
    TraitMethod {
        name: node.name,
        attributes: node.attributes,
        documentation: node.documentation,
        name_span: SourceRange { file, ..node.name_span },
        generics: place_generics(node.generics, file),
        has_self: node.has_self,
        receiver_mutable: node.receiver_mutable,
        params: place_params(node.params, file),
        ret: place_optional_type(node.ret, file),
        default: place_optional_block(node.default, file),
    }
}

fn place_struct_decl(node: StructDecl, file: u32) -> (r: StructDecl)
    ensures
        r.tree() == struct_decl_in_file(node.tree(), file),
    decreases node,
{
    StructDecl {
        name: node.name,
        attributes: node.attributes,
        documentation: node.documentation,
        generics: place_generics(node.generics, file),
        fields: place_fields(node.fields, file),
        is_pub: node.is_pub,
    }
}

fn place_field(node: Field, file: u32) -> (r: Field)
    ensures
        r.tree() == field_in_file(node.tree(), file),
    decreases node,
{
    Field {
        name: node.name,
        attributes: node.attributes,
        documentation: node.documentation,
        ty: place_type(node.ty, file),
        name_span: SourceRange { file, ..node.name_span },
    }
}

fn place_enum_decl(node: EnumDecl, file: u32) -> (r: EnumDecl)
    ensures
        r.tree() == enum_decl_in_file(node.tree(), file),
    decreases node,
{
    EnumDecl {
        name: node.name,
        attributes: node.attributes,
        documentation: node.documentation,
        generics: place_generics(node.generics, file),
        variants: place_variants(node.variants, file),
        is_pub: node.is_pub,
    }
}

fn place_variant(node: Variant, file: u32) -> (r: Variant)
    ensures
        r.tree() == variant_in_file(node.tree(), file),
    decreases node,
{
    Variant {
        name: node.name,
        attributes: node.attributes,
        documentation: node.documentation,
        kind: place_variant_kind(node.kind, file),
    }
}

fn place_variant_kind(node: VariantKind, file: u32) -> (r: VariantKind)
    ensures
        r.tree() == variant_kind_in_file(node.tree(), file),
    decreases node,
{
    match node {
        VariantKind::Unit => VariantKind::Unit,
        VariantKind::Tuple(inner) => VariantKind::Tuple(place_types(inner, file)),
        VariantKind::Struct(inner) => VariantKind::Struct(place_fields(inner, file)),
    }
}

fn place_impl_decl(node: ImplDecl, file: u32) -> (r: ImplDecl)
    ensures
        r.tree() == impl_decl_in_file(node.tree(), file),
    decreases node,
{
    ImplDecl {
        attributes: node.attributes,
        generics: place_generics(node.generics, file),
        owner_name: node.owner_name,
        trait_name: node.trait_name,
        methods: place_functions(node.methods, file),
    }
}

fn place_fn_decl(node: FnDecl, file: u32) -> (r: FnDecl)
    ensures
        r.tree() == fn_decl_in_file(node.tree(), file),
    decreases node,
{
    FnDecl {
        name: node.name,
        attributes: node.attributes,
        documentation: node.documentation,
        name_span: SourceRange { file, ..node.name_span },
        generics: place_generics(node.generics, file),
        is_pub: node.is_pub,
        has_self: node.has_self,
        receiver_mutable: node.receiver_mutable,
        params: place_params(node.params, file),
        ret: place_optional_type(node.ret, file),
        body: place_block(node.body, file),
    }
}

fn place_param(node: Param, file: u32) -> (r: Param)
    ensures
        r.tree() == param_in_file(node.tree(), file),
    decreases node,
{
    Param {
        name: node.name,
        name_span: SourceRange { file, ..node.name_span },
        ty: place_type(node.ty, file),
    }
}

fn place_type(node: Type, file: u32) -> (r: Type)
    ensures
        r.tree() == type_in_file(node.tree(), file),
    decreases node,
{
    match node {
        Type::Path { id, name, args } => Type::Path {
            id: TypeId { file, ..id },
            name,
            args: place_types(args, file),
        },
        Type::Ref { mutable, inner } => Type::Ref {
            mutable,
            inner: Box::new(place_type(*inner, file)),
        },
        Type::Function { params, ret } => Type::Function {
            params: place_types(params, file),
            ret: Box::new(place_type(*ret, file)),
        },
        Type::Tuple(inner) => Type::Tuple(place_types(inner, file)),
        Type::Never => Type::Never,
        Type::Unit => Type::Unit,
    }
}

fn place_block(node: Block, file: u32) -> (r: Block)
    ensures
        r.tree() == block_in_file(node.tree(), file),
    decreases node,
{
    Block {
        stmts: place_stmts(node.stmts, file),
        statement_blank_before: node.statement_blank_before,
        tail: place_optional_boxed_expr(node.tail, file),
        tail_blank_before: node.tail_blank_before,
    }
}

fn place_stmt(node: Stmt, file: u32) -> (r: Stmt)
    ensures
        r.tree() == stmt_in_file(node.tree(), file),
    decreases node,
{
    match node {
        Stmt::Lua { code, span } => Stmt::Lua {
            code,
            span: SourceRange { file, ..span },
        },
        Stmt::Let { name, name_span, mutable, ty, init } => Stmt::Let {
            name,
            name_span: SourceRange { file, ..name_span },
            mutable,
            ty: place_optional_type(ty, file),
            init: place_expr(init, file),
        },
        Stmt::Expr(inner) => Stmt::Expr(place_expr(inner, file)),
        Stmt::Return(inner) => Stmt::Return(place_optional_expr(inner, file)),
        Stmt::While { cond, body } => Stmt::While {
            cond: place_expr(cond, file),
            body: place_block(body, file),
        },
        Stmt::Loop { body } => Stmt::Loop {
            body: place_block(body, file),
        },
        Stmt::For { var, var_span, iter, body } => Stmt::For {
            var,
            var_span: SourceRange { file, ..var_span },
            iter: place_expr(iter, file),
            body: place_block(body, file),
        },
        Stmt::WhileLet { pat, expr, body } => Stmt::WhileLet {
            pat: Box::new(place_pattern(*pat, file)),
            expr: place_expr(expr, file),
            body: place_block(body, file),
        },
        Stmt::Break(inner) => Stmt::Break(place_optional_expr(inner, file)),
        Stmt::Continue => Stmt::Continue,
    }
}

fn place_expr(node: Expr, file: u32) -> (r: Expr)
    ensures
        r.tree() == expr_in_file(node.tree(), file),
    decreases node,
{
    Expr {
        id: ExprId { file, ..node.id },
        kind: place_expr_kind(node.kind, file),
        span: SourceRange { file, ..node.span },
    }
}

fn place_closure_param(node: ClosureParam, file: u32) -> (r: ClosureParam)
    ensures
        r.tree() == closure_param_in_file(node.tree(), file),
    decreases node,
{
    ClosureParam {
        name: node.name,
        name_span: SourceRange { file, ..node.name_span },
        ty: place_optional_type(node.ty, file),
    }
}

fn place_closure_body(node: ClosureBody, file: u32) -> (r: ClosureBody)
    ensures
        r.tree() == closure_body_in_file(node.tree(), file),
    decreases node,
{
    match node {
        ClosureBody::Expr(inner) => ClosureBody::Expr(Box::new(place_expr(*inner, file))),
        ClosureBody::Block(inner) => ClosureBody::Block(place_block(inner, file)),
    }
}

fn place_expr_kind(node: ExprKind, file: u32) -> (r: ExprKind)
    ensures
        r.tree() == expr_kind_in_file(node.tree(), file),
    decreases node,
{
    match node {
        ExprKind::Int(inner) => ExprKind::Int(inner),
        ExprKind::Float(inner) => ExprKind::Float(inner),
        ExprKind::Str(inner) => ExprKind::Str(inner),
        ExprKind::Bool(inner) => ExprKind::Bool(inner),
        ExprKind::VecLit(inner) => ExprKind::VecLit(place_exprs(inner, file)),
        ExprKind::MacroCall { name, args } => ExprKind::MacroCall {
            name,
            args: place_exprs(args, file),
        },
        ExprKind::Closure { params, ret, body } => ExprKind::Closure {
            params: place_closure_params(params, file),
            ret: place_optional_type(ret, file),
            body: place_closure_body(body, file),
        },
        ExprKind::Path(inner) => ExprKind::Path(inner),
        ExprKind::Unary { op, expr } => ExprKind::Unary {
            op,
            expr: Box::new(place_expr(*expr, file)),
        },
        ExprKind::Binary { op, lhs, rhs } => ExprKind::Binary {
            op,
            lhs: Box::new(place_expr(*lhs, file)),
            rhs: Box::new(place_expr(*rhs, file)),
        },
        ExprKind::Loop(inner) => ExprKind::Loop(place_block(inner, file)),
        ExprKind::Call { callee, args } => ExprKind::Call {
            callee: Box::new(place_expr(*callee, file)),
            args: place_exprs(args, file),
        },
        ExprKind::MethodCall { recv, method, optional, type_args, args, method_span } => ExprKind::MethodCall {
            recv: Box::new(place_expr(*recv, file)),
            method,
            optional,
            type_args: place_types(type_args, file),
            args: place_exprs(args, file),
            method_span: SourceRange { file, ..method_span },
        },
        ExprKind::Field { base, name, optional, name_span } => ExprKind::Field {
            base: Box::new(place_expr(*base, file)),
            name,
            optional,
            name_span: SourceRange { file, ..name_span },
        },
        ExprKind::StructLit { path, fields } => ExprKind::StructLit {
            path,
            fields: place_field_values(fields, file),
        },
        ExprKind::MapLit(inner) => ExprKind::MapLit(place_pairs(inner, file)),
        ExprKind::Try { expr } => ExprKind::Try {
            expr: Box::new(place_expr(*expr, file)),
        },
        ExprKind::Match { scrut, arms } => ExprKind::Match {
            scrut: Box::new(place_expr(*scrut, file)),
            arms: place_arms(arms, file),
        },
        ExprKind::Range { start, end, inclusive } => ExprKind::Range {
            start: Box::new(place_expr(*start, file)),
            end: Box::new(place_expr(*end, file)),
            inclusive,
        },
        ExprKind::Index { base, index } => ExprKind::Index {
            base: Box::new(place_expr(*base, file)),
            index: Box::new(place_expr(*index, file)),
        },
        ExprKind::If { cond, then_block, else_block } => ExprKind::If {
            cond: Box::new(place_expr(*cond, file)),
            then_block: place_block(then_block, file),
            else_block: place_optional_boxed_else_branch(else_block, file),
        },
        ExprKind::IfLet { pat, expr, then_block, else_block } => ExprKind::IfLet {
            pat: Box::new(place_pattern(*pat, file)),
            expr: Box::new(place_expr(*expr, file)),
            then_block: place_block(then_block, file),
            else_block: place_optional_boxed_else_branch(else_block, file),
        },
        ExprKind::Block(inner) => ExprKind::Block(place_block(inner, file)),
        ExprKind::Assign { op, target, value } => ExprKind::Assign {
            op,
            target: Box::new(place_expr(*target, file)),
            value: Box::new(place_expr(*value, file)),
        },
    }
}

fn place_else_branch(node: ElseBranch, file: u32) -> (r: ElseBranch)
    ensures
        r.tree() == else_branch_in_file(node.tree(), file),
    decreases node,
{
    match node {
        ElseBranch::Block(inner) => ElseBranch::Block(place_block(inner, file)),
        ElseBranch::If(inner) => ElseBranch::If(place_expr(inner, file)),
    }
}

fn place_match_arm(node: MatchArm, file: u32) -> (r: MatchArm)
    ensures
        r.tree() == match_arm_in_file(node.tree(), file),
    decreases node,
{
    MatchArm {
        pats: place_patterns(node.pats, file),
        guard: place_optional_expr(node.guard, file),
        body: place_expr(node.body, file),
    }
}

fn place_pattern(node: Pattern, file: u32) -> (r: Pattern)
    ensures
        r.tree() == pattern_in_file(node.tree(), file),
    decreases node,
{
    match node {
        Pattern::Wildcard => Pattern::Wildcard,
        Pattern::Binding(x0, x1) => Pattern::Binding(x0, SourceRange { file, ..x1 }),
        Pattern::Literal(inner) => Pattern::Literal(place_expr(inner, file)),
        Pattern::Range { lo, hi, inclusive } => Pattern::Range {
            lo: Box::new(place_expr(*lo, file)),
            hi: Box::new(place_expr(*hi, file)),
            inclusive,
        },
        Pattern::Path { id, path } => Pattern::Path {
            id: PatternId { file, ..id },
            path,
        },
        Pattern::TupleVariant { id, path, elems } => Pattern::TupleVariant {
            id: PatternId { file, ..id },
            path,
            elems: place_patterns(elems, file),
        },
        Pattern::StructVariant { id, path, fields, rest } => Pattern::StructVariant {
            id: PatternId { file, ..id },
            path,
            fields: place_field_patterns(fields, file),
            rest,
        },
    }
}

fn place_params(list: Vec<Param>, file: u32) -> (r: Vec<Param>)
    ensures
        params_tree(r@) == params_in_file(params_tree(list@), file),
    decreases list,
{
    let ghost start = list@;
    let mut out: Vec<Param> = Vec::new();
    for item in it: list
        invariant
            it.seq() == start,
            start == list@,
            out@.len() == it.index(),
            params_tree(out@) == params_in_file(params_tree(start), file).take(it.index() as int),
    {
        let ghost before = out@;
        let ghost n = it.index();
        proof {
            assert(item == start[n as int]);
            assert(decreases_to!(list => item));
        }
        out.push(place_param(item, file));
        proof {
            assert(params_tree(out@) =~= params_in_file(params_tree(start), file).take(n + 1));
        }
    }
    proof {
        assert(params_in_file(params_tree(start), file).take(start.len() as int) =~= params_in_file(
            params_tree(start),
            file,
        ));
    }
    out
}

fn place_items(list: Vec<Item>, file: u32) -> (r: Vec<Item>)
    ensures
        items_tree(r@) == items_in_file(items_tree(list@), file),
    decreases list,
{
    let ghost start = list@;
    let mut out: Vec<Item> = Vec::new();
    for item in it: list
        invariant
            it.seq() == start,
            start == list@,
            out@.len() == it.index(),
            items_tree(out@) == items_in_file(items_tree(start), file).take(it.index() as int),
    {
        let ghost before = out@;
        let ghost n = it.index();
        proof {
            assert(item == start[n as int]);
            assert(decreases_to!(list => item));
        }
        out.push(place_item(item, file));
        proof {
            assert(items_tree(out@) =~= items_in_file(items_tree(start), file).take(n + 1));
        }
    }
    proof {
        assert(items_in_file(items_tree(start), file).take(start.len() as int) =~= items_in_file(
            items_tree(start),
            file,
        ));
    }
    out
}

fn place_extern_fns(list: Vec<ExternFn>, file: u32) -> (r: Vec<ExternFn>)
    ensures
        extern_fns_tree(r@) == extern_fns_in_file(extern_fns_tree(list@), file),
    decreases list,
{
    let ghost start = list@;
    let mut out: Vec<ExternFn> = Vec::new();
    for item in it: list
        invariant
            it.seq() == start,
            start == list@,
            out@.len() == it.index(),
            extern_fns_tree(out@) == extern_fns_in_file(extern_fns_tree(start), file).take(it.index() as int),
    {
        let ghost before = out@;
        let ghost n = it.index();
        proof {
            assert(item == start[n as int]);
            assert(decreases_to!(list => item));
        }
        out.push(place_extern_fn(item, file));
        proof {
            assert(extern_fns_tree(out@) =~= extern_fns_in_file(extern_fns_tree(start), file).take(n + 1));
        }
    }
    proof {
        assert(extern_fns_in_file(extern_fns_tree(start), file).take(start.len() as int) =~= extern_fns_in_file(
            extern_fns_tree(start),
            file,
        ));
    }
    out
}

fn place_generics(list: Vec<GenericParam>, file: u32) -> (r: Vec<GenericParam>)
    ensures
        generics_tree(r@) == generics_in_file(generics_tree(list@), file),
    decreases list,
{
    let ghost start = list@;
    let mut out: Vec<GenericParam> = Vec::new();
    for item in it: list
        invariant
            it.seq() == start,
            start == list@,
            out@.len() == it.index(),
            generics_tree(out@) == generics_in_file(generics_tree(start), file).take(it.index() as int),
    {
        let ghost before = out@;
        let ghost n = it.index();
        proof {
            assert(item == start[n as int]);
            assert(decreases_to!(list => item));
        }
        out.push(place_generic_param(item, file));
        proof {
            assert(generics_tree(out@) =~= generics_in_file(generics_tree(start), file).take(n + 1));
        }
    }
    proof {
        assert(generics_in_file(generics_tree(start), file).take(start.len() as int) =~= generics_in_file(
            generics_tree(start),
            file,
        ));
    }
    out
}

fn place_bounds(list: Vec<TraitRef>, file: u32) -> (r: Vec<TraitRef>)
    ensures
        bounds_tree(r@) == bounds_in_file(bounds_tree(list@), file),
    decreases list,
{
    let ghost start = list@;
    let mut out: Vec<TraitRef> = Vec::new();
    for item in it: list
        invariant
            it.seq() == start,
            start == list@,
            out@.len() == it.index(),
            bounds_tree(out@) == bounds_in_file(bounds_tree(start), file).take(it.index() as int),
    {
        let ghost before = out@;
        let ghost n = it.index();
        proof {
            assert(item == start[n as int]);
            assert(decreases_to!(list => item));
        }
        out.push(place_trait_ref(item, file));
        proof {
            assert(bounds_tree(out@) =~= bounds_in_file(bounds_tree(start), file).take(n + 1));
        }
    }
    proof {
        assert(bounds_in_file(bounds_tree(start), file).take(start.len() as int) =~= bounds_in_file(
            bounds_tree(start),
            file,
        ));
    }
    out
}

fn place_trait_methods(list: Vec<TraitMethod>, file: u32) -> (r: Vec<TraitMethod>)
    ensures
        trait_methods_tree(r@) == trait_methods_in_file(trait_methods_tree(list@), file),
    decreases list,
{
    let ghost start = list@;
    let mut out: Vec<TraitMethod> = Vec::new();
    for item in it: list
        invariant
            it.seq() == start,
            start == list@,
            out@.len() == it.index(),
            trait_methods_tree(out@) == trait_methods_in_file(trait_methods_tree(start), file).take(it.index() as int),
    {
        let ghost before = out@;
        let ghost n = it.index();
        proof {
            assert(item == start[n as int]);
            assert(decreases_to!(list => item));
        }
        out.push(place_trait_method(item, file));
        proof {
            assert(trait_methods_tree(out@) =~= trait_methods_in_file(trait_methods_tree(start), file).take(n + 1));
        }
    }
    proof {
        assert(trait_methods_in_file(trait_methods_tree(start), file).take(start.len() as int) =~= trait_methods_in_file(
            trait_methods_tree(start),
            file,
        ));
    }
    out
}

fn place_fields(list: Vec<Field>, file: u32) -> (r: Vec<Field>)
    ensures
        fields_tree(r@) == fields_in_file(fields_tree(list@), file),
    decreases list,
{
    let ghost start = list@;
    let mut out: Vec<Field> = Vec::new();
    for item in it: list
        invariant
            it.seq() == start,
            start == list@,
            out@.len() == it.index(),
            fields_tree(out@) == fields_in_file(fields_tree(start), file).take(it.index() as int),
    {
        let ghost before = out@;
        let ghost n = it.index();
        proof {
            assert(item == start[n as int]);
            assert(decreases_to!(list => item));
        }
        out.push(place_field(item, file));
        proof {
            assert(fields_tree(out@) =~= fields_in_file(fields_tree(start), file).take(n + 1));
        }
    }
    proof {
        assert(fields_in_file(fields_tree(start), file).take(start.len() as int) =~= fields_in_file(
            fields_tree(start),
            file,
        ));
    }
    out
}

fn place_variants(list: Vec<Variant>, file: u32) -> (r: Vec<Variant>)
    ensures
        variants_tree(r@) == variants_in_file(variants_tree(list@), file),
    decreases list,
{
    let ghost start = list@;
    let mut out: Vec<Variant> = Vec::new();
    for item in it: list
        invariant
            it.seq() == start,
            start == list@,
            out@.len() == it.index(),
            variants_tree(out@) == variants_in_file(variants_tree(start), file).take(it.index() as int),
    {
        let ghost before = out@;
        let ghost n = it.index();
        proof {
            assert(item == start[n as int]);
            assert(decreases_to!(list => item));
        }
        out.push(place_variant(item, file));
        proof {
            assert(variants_tree(out@) =~= variants_in_file(variants_tree(start), file).take(n + 1));
        }
    }
    proof {
        assert(variants_in_file(variants_tree(start), file).take(start.len() as int) =~= variants_in_file(
            variants_tree(start),
            file,
        ));
    }
    out
}

fn place_types(list: Vec<Type>, file: u32) -> (r: Vec<Type>)
    ensures
        types_tree(r@) == types_in_file(types_tree(list@), file),
    decreases list,
{
    let ghost start = list@;
    let mut out: Vec<Type> = Vec::new();
    for item in it: list
        invariant
            it.seq() == start,
            start == list@,
            out@.len() == it.index(),
            types_tree(out@) == types_in_file(types_tree(start), file).take(it.index() as int),
    {
        let ghost before = out@;
        let ghost n = it.index();
        proof {
            assert(item == start[n as int]);
            assert(decreases_to!(list => item));
        }
        out.push(place_type(item, file));
        proof {
            assert(types_tree(out@) =~= types_in_file(types_tree(start), file).take(n + 1));
        }
    }
    proof {
        assert(types_in_file(types_tree(start), file).take(start.len() as int) =~= types_in_file(
            types_tree(start),
            file,
        ));
    }
    out
}

fn place_functions(list: Vec<FnDecl>, file: u32) -> (r: Vec<FnDecl>)
    ensures
        functions_tree(r@) == functions_in_file(functions_tree(list@), file),
    decreases list,
{
    let ghost start = list@;
    let mut out: Vec<FnDecl> = Vec::new();
    for item in it: list
        invariant
            it.seq() == start,
            start == list@,
            out@.len() == it.index(),
            functions_tree(out@) == functions_in_file(functions_tree(start), file).take(it.index() as int),
    {
        let ghost before = out@;
        let ghost n = it.index();
        proof {
            assert(item == start[n as int]);
            assert(decreases_to!(list => item));
        }
        out.push(place_fn_decl(item, file));
        proof {
            assert(functions_tree(out@) =~= functions_in_file(functions_tree(start), file).take(n + 1));
        }
    }
    proof {
        assert(functions_in_file(functions_tree(start), file).take(start.len() as int) =~= functions_in_file(
            functions_tree(start),
            file,
        ));
    }
    out
}

fn place_stmts(list: Vec<Stmt>, file: u32) -> (r: Vec<Stmt>)
    ensures
        stmts_tree(r@) == stmts_in_file(stmts_tree(list@), file),
    decreases list,
{
    let ghost start = list@;
    let mut out: Vec<Stmt> = Vec::new();
    for item in it: list
        invariant
            it.seq() == start,
            start == list@,
            out@.len() == it.index(),
            stmts_tree(out@) == stmts_in_file(stmts_tree(start), file).take(it.index() as int),
    {
        let ghost before = out@;
        let ghost n = it.index();
        proof {
            assert(item == start[n as int]);
            assert(decreases_to!(list => item));
        }
        out.push(place_stmt(item, file));
        proof {
            assert(stmts_tree(out@) =~= stmts_in_file(stmts_tree(start), file).take(n + 1));
        }
    }
    proof {
        assert(stmts_in_file(stmts_tree(start), file).take(start.len() as int) =~= stmts_in_file(
            stmts_tree(start),
            file,
        ));
    }
    out
}

fn place_exprs(list: Vec<Expr>, file: u32) -> (r: Vec<Expr>)
    ensures
        exprs_tree(r@) == exprs_in_file(exprs_tree(list@), file),
    decreases list,
{
    let ghost start = list@;
    let mut out: Vec<Expr> = Vec::new();
    for item in it: list
        invariant
            it.seq() == start,
            start == list@,
            out@.len() == it.index(),
            exprs_tree(out@) == exprs_in_file(exprs_tree(start), file).take(it.index() as int),
    {
        let ghost before = out@;
        let ghost n = it.index();
        proof {
            assert(item == start[n as int]);
            assert(decreases_to!(list => item));
        }
        out.push(place_expr(item, file));
        proof {
            assert(exprs_tree(out@) =~= exprs_in_file(exprs_tree(start), file).take(n + 1));
        }
    }
    proof {
        assert(exprs_in_file(exprs_tree(start), file).take(start.len() as int) =~= exprs_in_file(
            exprs_tree(start),
            file,
        ));
    }
    out
}

fn place_closure_params(list: Vec<ClosureParam>, file: u32) -> (r: Vec<ClosureParam>)
    ensures
        closure_params_tree(r@) == closure_params_in_file(closure_params_tree(list@), file),
    decreases list,
{
    let ghost start = list@;
    let mut out: Vec<ClosureParam> = Vec::new();
    for item in it: list
        invariant
            it.seq() == start,
            start == list@,
            out@.len() == it.index(),
            closure_params_tree(out@) == closure_params_in_file(closure_params_tree(start), file).take(it.index() as int),
    {
        let ghost before = out@;
        let ghost n = it.index();
        proof {
            assert(item == start[n as int]);
            assert(decreases_to!(list => item));
        }
        out.push(place_closure_param(item, file));
        proof {
            assert(closure_params_tree(out@) =~= closure_params_in_file(closure_params_tree(start), file).take(n + 1));
        }
    }
    proof {
        assert(closure_params_in_file(closure_params_tree(start), file).take(start.len() as int) =~= closure_params_in_file(
            closure_params_tree(start),
            file,
        ));
    }
    out
}

fn place_field_values(list: Vec<(String, Expr)>, file: u32) -> (r: Vec<(String, Expr)>)
    ensures
        field_values_tree(r@) == field_values_in_file(field_values_tree(list@), file),
    decreases list,
{
    let ghost start = list@;
    let mut out: Vec<(String, Expr)> = Vec::new();
    for item in it: list
        invariant
            it.seq() == start,
            start == list@,
            out@.len() == it.index(),
            field_values_tree(out@) == field_values_in_file(field_values_tree(start), file).take(it.index() as int),
    {
        let ghost before = out@;
        let ghost n = it.index();
        proof {
            assert(item == start[n as int]);
            assert(decreases_to!(list => item));
        }
        out.push((item.0, place_expr(item.1, file)));
        proof {
            assert(field_values_tree(out@) =~= field_values_in_file(field_values_tree(start), file).take(n + 1));
        }
    }
    proof {
        assert(field_values_in_file(field_values_tree(start), file).take(start.len() as int) =~= field_values_in_file(
            field_values_tree(start),
            file,
        ));
    }
    out
}

fn place_pairs(list: Vec<(Expr, Expr)>, file: u32) -> (r: Vec<(Expr, Expr)>)
    ensures
        pairs_tree(r@) == pairs_in_file(pairs_tree(list@), file),
    decreases list,
{
    let ghost start = list@;
    let mut out: Vec<(Expr, Expr)> = Vec::new();
    for item in it: list
        invariant
            it.seq() == start,
            start == list@,
            out@.len() == it.index(),
            pairs_tree(out@) == pairs_in_file(pairs_tree(start), file).take(it.index() as int),
    {
        let ghost before = out@;
        let ghost n = it.index();
        proof {
            assert(item == start[n as int]);
            assert(decreases_to!(list => item));
        }
        out.push((place_expr(item.0, file), place_expr(item.1, file)));
        proof {
            assert(pairs_tree(out@) =~= pairs_in_file(pairs_tree(start), file).take(n + 1));
        }
    }
    proof {
        assert(pairs_in_file(pairs_tree(start), file).take(start.len() as int) =~= pairs_in_file(
            pairs_tree(start),
            file,
        ));
    }
    out
}

fn place_arms(list: Vec<MatchArm>, file: u32) -> (r: Vec<MatchArm>)
    ensures
        arms_tree(r@) == arms_in_file(arms_tree(list@), file),
    decreases list,
{
    let ghost start = list@;
    let mut out: Vec<MatchArm> = Vec::new();
    for item in it: list
        invariant
            it.seq() == start,
            start == list@,
            out@.len() == it.index(),
            arms_tree(out@) == arms_in_file(arms_tree(start), file).take(it.index() as int),
    {
        let ghost before = out@;
        let ghost n = it.index();
        proof {
            assert(item == start[n as int]);
            assert(decreases_to!(list => item));
        }
        out.push(place_match_arm(item, file));
        proof {
            assert(arms_tree(out@) =~= arms_in_file(arms_tree(start), file).take(n + 1));
        }
    }
    proof {
        assert(arms_in_file(arms_tree(start), file).take(start.len() as int) =~= arms_in_file(
            arms_tree(start),
            file,
        ));
    }
    out
}

fn place_patterns(list: Vec<Pattern>, file: u32) -> (r: Vec<Pattern>)
    ensures
        patterns_tree(r@) == patterns_in_file(patterns_tree(list@), file),
    decreases list,
{
    let ghost start = list@;
    let mut out: Vec<Pattern> = Vec::new();
    for item in it: list
        invariant
            it.seq() == start,
            start == list@,
            out@.len() == it.index(),
            patterns_tree(out@) == patterns_in_file(patterns_tree(start), file).take(it.index() as int),
    {
        let ghost before = out@;
        let ghost n = it.index();
        proof {
            assert(item == start[n as int]);
            assert(decreases_to!(list => item));
        }
        out.push(place_pattern(item, file));
        proof {
            assert(patterns_tree(out@) =~= patterns_in_file(patterns_tree(start), file).take(n + 1));
        }
    }
    proof {
        assert(patterns_in_file(patterns_tree(start), file).take(start.len() as int) =~= patterns_in_file(
            patterns_tree(start),
            file,
        ));
    }
    out
}

fn place_field_patterns(list: Vec<(String, Pattern)>, file: u32) -> (r: Vec<(String, Pattern)>)
    ensures
        field_patterns_tree(r@) == field_patterns_in_file(field_patterns_tree(list@), file),
    decreases list,
{
    let ghost start = list@;
    let mut out: Vec<(String, Pattern)> = Vec::new();
    for item in it: list
        invariant
            it.seq() == start,
            start == list@,
            out@.len() == it.index(),
            field_patterns_tree(out@) == field_patterns_in_file(field_patterns_tree(start), file).take(it.index() as int),
    {
        let ghost before = out@;
        let ghost n = it.index();
        proof {
            assert(item == start[n as int]);
            assert(decreases_to!(list => item));
        }
        out.push((item.0, place_pattern(item.1, file)));
        proof {
            assert(field_patterns_tree(out@) =~= field_patterns_in_file(field_patterns_tree(start), file).take(n + 1));
        }
    }
    proof {
        assert(field_patterns_in_file(field_patterns_tree(start), file).take(start.len() as int) =~= field_patterns_in_file(
            field_patterns_tree(start),
            file,
        ));
    }
    out
}

fn place_optional_type(node: Option<Type>, file: u32) -> (r: Option<Type>)
    ensures
        optional_type_tree(r) == optional_type_in_file(optional_type_tree(node), file),
    decreases node,
{
    match node {
        Some(inner) => Some(place_type(inner, file)),
        None => None,
    }
}

fn place_optional_block(node: Option<Block>, file: u32) -> (r: Option<Block>)
    ensures
        optional_block_tree(r) == optional_block_in_file(optional_block_tree(node), file),
    decreases node,
{
    match node {
        Some(inner) => Some(place_block(inner, file)),
        None => None,
    }
}

fn place_optional_boxed_expr(node: Option<Box<Expr>>, file: u32) -> (r: Option<Box<Expr>>)
    ensures
        optional_boxed_expr_tree(r) == optional_boxed_expr_in_file(optional_boxed_expr_tree(node), file),
    decreases node,
{
    match node {
        Some(inner) => Some(Box::new(place_expr(*inner, file))),
        None => None,
    }
}

fn place_optional_expr(node: Option<Expr>, file: u32) -> (r: Option<Expr>)
    ensures
        optional_expr_tree(r) == optional_expr_in_file(optional_expr_tree(node), file),
    decreases node,
{
    match node {
        Some(inner) => Some(place_expr(inner, file)),
        None => None,
    }
}

fn place_optional_boxed_else_branch(node: Option<Box<ElseBranch>>, file: u32) -> (r: Option<Box<ElseBranch>>)
    ensures
        optional_boxed_else_branch_tree(r) == optional_boxed_else_branch_in_file(optional_boxed_else_branch_tree(node), file),
    decreases node,
{
    match node {
        Some(inner) => Some(Box::new(place_else_branch(*inner, file))),
        None => None,
    }
}

/// Stamps the file on every identity and range of the items.
pub fn set_file_items(items: &mut Vec<Item>, file: u32)
    ensures
        items_tree(final(items)@) == items_in_file(items_tree(old(items)@), file),
{
    let mut taken: Vec<Item> = Vec::new();
    std::mem::swap(&mut taken, items);
    *items = place_items(taken, file);
}

/// Stamps the file on every identity and range of a block.
pub fn set_file_block(block: &mut Block, file: u32)
    ensures
        final(block).tree() == block_in_file(old(block).tree(), file),
{
    let mut taken = Block {
        stmts: Vec::new(),
        statement_blank_before: Vec::new(),
        tail: None,
        tail_blank_before: false,
    };
    std::mem::swap(&mut taken, block);
    *block = place_block(taken, file);
}

/// Stamps the file on every identity and range of a program.
pub fn set_file_program(program: &mut Program, file: u32)
    ensures
        final(program).tree() == program_in_file(old(program).tree(), file),
{
    set_file_items(&mut program.items, file);
    set_file_block(&mut program.chunk, file);
}

} // verus!
