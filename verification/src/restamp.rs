//! Stamping a tree again: only the last file stays.

use vstd::prelude::*;

use crate::stamp::{
    program_in_file, annotation_decl_in_file, arms_in_file, block_in_file, bounds_in_file,
    closure_body_in_file, closure_param_in_file, closure_params_in_file, else_branch_in_file,
    enum_decl_in_file, expr_in_file, expr_kind_in_file, exprs_in_file, extern_block_in_file,
    extern_fn_in_file, extern_fns_in_file, field_in_file, field_patterns_in_file,
    field_values_in_file, fields_in_file, fn_decl_in_file, functions_in_file,
    generic_param_in_file, generics_in_file, impl_decl_in_file, item_in_file, items_in_file,
    match_arm_in_file, mod_decl_in_file, optional_block_in_file,
    optional_boxed_else_branch_in_file, optional_boxed_expr_in_file, optional_expr_in_file,
    optional_type_in_file, pairs_in_file, param_in_file, params_in_file, pattern_in_file,
    patterns_in_file, stmt_in_file, stmts_in_file, struct_decl_in_file, trait_decl_in_file,
    trait_method_in_file, trait_methods_in_file, trait_ref_in_file, type_in_file, types_in_file,
    variant_in_file, variant_kind_in_file, variants_in_file,
};
use crate::tree::{
    AnnotationDeclTree, BlockTree, ClosureBodyTree, ClosureParamTree, ElseBranchTree, EnumDeclTree,
    ExprKindTree, ExprTree, ExternBlockTree, ExternFnTree, FieldTree, FnDeclTree, GenericParamTree,
    ImplDeclTree, ItemTree, MatchArmTree, ModDeclTree, ParamTree, PatternTree, ProgramTree,
    StmtTree, StructDeclTree, TraitDeclTree, TraitMethodTree, TraitRefTree, TypeTree,
    VariantKindTree, VariantTree,
};

verus! {

proof fn again_item(node: ItemTree, a: u32, b: u32)
    ensures
        item_in_file(item_in_file(node, a), b) == item_in_file(node, b),
    decreases node,
{
    match node {
        ItemTree::Annotation(inner) => {
            again_annotation_decl(inner, a, b);
        },
        ItemTree::Fn(inner) => {
            again_fn_decl(inner, a, b);
        },
        ItemTree::Struct(inner) => {
            again_struct_decl(inner, a, b);
        },
        ItemTree::Enum(inner) => {
            again_enum_decl(inner, a, b);
        },
        ItemTree::Impl(inner) => {
            again_impl_decl(inner, a, b);
        },
        ItemTree::Trait(inner) => {
            again_trait_decl(inner, a, b);
        },
        ItemTree::Extern(inner) => {
            again_extern_block(inner, a, b);
        },
        ItemTree::Mod(inner) => {
            again_mod_decl(inner, a, b);
        },
        _ => {},
    }
}

proof fn again_annotation_decl(node: AnnotationDeclTree, a: u32, b: u32)
    ensures
        annotation_decl_in_file(annotation_decl_in_file(node, a), b) == annotation_decl_in_file(node, b),
    decreases node,
{
    again_params(node.params, a, b);
}

proof fn again_mod_decl(node: ModDeclTree, a: u32, b: u32)
    ensures
        mod_decl_in_file(mod_decl_in_file(node, a), b) == mod_decl_in_file(node, b),
    decreases node,
{
    again_items(node.items, a, b);
    again_block(node.chunk, a, b);
}

proof fn again_extern_block(node: ExternBlockTree, a: u32, b: u32)
    ensures
        extern_block_in_file(extern_block_in_file(node, a), b) == extern_block_in_file(node, b),
    decreases node,
{
    again_extern_fns(node.fns, a, b);
}

proof fn again_extern_fn(node: ExternFnTree, a: u32, b: u32)
    ensures
        extern_fn_in_file(extern_fn_in_file(node, a), b) == extern_fn_in_file(node, b),
    decreases node,
{
    again_generics(node.generics, a, b);
    again_params(node.params, a, b);
    again_optional_type(node.ret, a, b);
}

proof fn again_generic_param(node: GenericParamTree, a: u32, b: u32)
    ensures
        generic_param_in_file(generic_param_in_file(node, a), b) == generic_param_in_file(node, b),
    decreases node,
{
    again_bounds(node.bounds, a, b);
}

proof fn again_trait_ref(node: TraitRefTree, a: u32, b: u32)
    ensures
        trait_ref_in_file(trait_ref_in_file(node, a), b) == trait_ref_in_file(node, b),
    decreases node,
{
}

proof fn again_trait_decl(node: TraitDeclTree, a: u32, b: u32)
    ensures
        trait_decl_in_file(trait_decl_in_file(node, a), b) == trait_decl_in_file(node, b),
    decreases node,
{
    again_generics(node.generics, a, b);
    again_trait_methods(node.methods, a, b);
}

proof fn again_trait_method(node: TraitMethodTree, a: u32, b: u32)
    ensures
        trait_method_in_file(trait_method_in_file(node, a), b) == trait_method_in_file(node, b),
    decreases node,
{
    again_generics(node.generics, a, b);
    again_params(node.params, a, b);
    again_optional_type(node.ret, a, b);
    again_optional_block(node.default, a, b);
}

proof fn again_struct_decl(node: StructDeclTree, a: u32, b: u32)
    ensures
        struct_decl_in_file(struct_decl_in_file(node, a), b) == struct_decl_in_file(node, b),
    decreases node,
{
    again_generics(node.generics, a, b);
    again_fields(node.fields, a, b);
}

proof fn again_field(node: FieldTree, a: u32, b: u32)
    ensures
        field_in_file(field_in_file(node, a), b) == field_in_file(node, b),
    decreases node,
{
    again_type(node.ty, a, b);
}

proof fn again_enum_decl(node: EnumDeclTree, a: u32, b: u32)
    ensures
        enum_decl_in_file(enum_decl_in_file(node, a), b) == enum_decl_in_file(node, b),
    decreases node,
{
    again_generics(node.generics, a, b);
    again_variants(node.variants, a, b);
}

proof fn again_variant(node: VariantTree, a: u32, b: u32)
    ensures
        variant_in_file(variant_in_file(node, a), b) == variant_in_file(node, b),
    decreases node,
{
    again_variant_kind(node.kind, a, b);
}

proof fn again_variant_kind(node: VariantKindTree, a: u32, b: u32)
    ensures
        variant_kind_in_file(variant_kind_in_file(node, a), b) == variant_kind_in_file(node, b),
    decreases node,
{
    match node {
        VariantKindTree::Tuple(inner) => {
            again_types(inner, a, b);
        },
        VariantKindTree::Struct(inner) => {
            again_fields(inner, a, b);
        },
        _ => {},
    }
}

proof fn again_impl_decl(node: ImplDeclTree, a: u32, b: u32)
    ensures
        impl_decl_in_file(impl_decl_in_file(node, a), b) == impl_decl_in_file(node, b),
    decreases node,
{
    again_generics(node.generics, a, b);
    again_functions(node.methods, a, b);
}

proof fn again_fn_decl(node: FnDeclTree, a: u32, b: u32)
    ensures
        fn_decl_in_file(fn_decl_in_file(node, a), b) == fn_decl_in_file(node, b),
    decreases node,
{
    again_generics(node.generics, a, b);
    again_params(node.params, a, b);
    again_optional_type(node.ret, a, b);
    again_block(node.body, a, b);
}

proof fn again_param(node: ParamTree, a: u32, b: u32)
    ensures
        param_in_file(param_in_file(node, a), b) == param_in_file(node, b),
    decreases node,
{
    again_type(node.ty, a, b);
}

proof fn again_type(node: TypeTree, a: u32, b: u32)
    ensures
        type_in_file(type_in_file(node, a), b) == type_in_file(node, b),
    decreases node,
{
    match node {
        TypeTree::Path { id, name, args } => {
            again_types(args, a, b);
        },
        TypeTree::Ref { mutable, inner } => {
            again_type(*inner, a, b);
        },
        TypeTree::Function { params, ret } => {
            again_types(params, a, b);
            again_type(*ret, a, b);
        },
        TypeTree::Tuple(inner) => {
            again_types(inner, a, b);
        },
        _ => {},
    }
}

proof fn again_block(node: BlockTree, a: u32, b: u32)
    ensures
        block_in_file(block_in_file(node, a), b) == block_in_file(node, b),
    decreases node,
{
    again_stmts(node.stmts, a, b);
    again_optional_boxed_expr(node.tail, a, b);
}

proof fn again_stmt(node: StmtTree, a: u32, b: u32)
    ensures
        stmt_in_file(stmt_in_file(node, a), b) == stmt_in_file(node, b),
    decreases node,
{
    match node {
        StmtTree::Let { name, name_span, mutable, ty, init } => {
            again_optional_type(ty, a, b);
            again_expr(init, a, b);
        },
        StmtTree::Expr(inner) => {
            again_expr(inner, a, b);
        },
        StmtTree::Return(inner) => {
            again_optional_expr(inner, a, b);
        },
        StmtTree::While { cond, body } => {
            again_expr(cond, a, b);
            again_block(body, a, b);
        },
        StmtTree::Loop { body } => {
            again_block(body, a, b);
        },
        StmtTree::For { var, var_span, iter, body } => {
            again_expr(iter, a, b);
            again_block(body, a, b);
        },
        StmtTree::WhileLet { pat, expr, body } => {
            again_pattern(*pat, a, b);
            again_expr(expr, a, b);
            again_block(body, a, b);
        },
        StmtTree::Break(inner) => {
            again_optional_expr(inner, a, b);
        },
        _ => {},
    }
}

proof fn again_expr(node: ExprTree, a: u32, b: u32)
    ensures
        expr_in_file(expr_in_file(node, a), b) == expr_in_file(node, b),
    decreases node,
{
    again_expr_kind(node.kind, a, b);
}

proof fn again_closure_param(node: ClosureParamTree, a: u32, b: u32)
    ensures
        closure_param_in_file(closure_param_in_file(node, a), b) == closure_param_in_file(node, b),
    decreases node,
{
    again_optional_type(node.ty, a, b);
}

proof fn again_closure_body(node: ClosureBodyTree, a: u32, b: u32)
    ensures
        closure_body_in_file(closure_body_in_file(node, a), b) == closure_body_in_file(node, b),
    decreases node,
{
    match node {
        ClosureBodyTree::Expr(inner) => {
            again_expr(*inner, a, b);
        },
        ClosureBodyTree::Block(inner) => {
            again_block(inner, a, b);
        },
    }
}

proof fn again_expr_kind(node: ExprKindTree, a: u32, b: u32)
    ensures
        expr_kind_in_file(expr_kind_in_file(node, a), b) == expr_kind_in_file(node, b),
    decreases node,
{
    match node {
        ExprKindTree::VecLit(inner) => {
            again_exprs(inner, a, b);
        },
        ExprKindTree::MacroCall { name, args } => {
            again_exprs(args, a, b);
        },
        ExprKindTree::Closure { params, ret, body } => {
            again_closure_params(params, a, b);
            again_optional_type(ret, a, b);
            again_closure_body(body, a, b);
        },
        ExprKindTree::Unary { op, expr } => {
            again_expr(*expr, a, b);
        },
        ExprKindTree::Binary { op, lhs, rhs } => {
            again_expr(*lhs, a, b);
            again_expr(*rhs, a, b);
        },
        ExprKindTree::Loop(inner) => {
            again_block(inner, a, b);
        },
        ExprKindTree::Call { callee, args } => {
            again_expr(*callee, a, b);
            again_exprs(args, a, b);
        },
        ExprKindTree::MethodCall { recv, method, optional, type_args, args, method_span } => {
            again_expr(*recv, a, b);
            again_types(type_args, a, b);
            again_exprs(args, a, b);
        },
        ExprKindTree::Field { base, name, optional, name_span } => {
            again_expr(*base, a, b);
        },
        ExprKindTree::StructLit { path, fields } => {
            again_field_values(fields, a, b);
        },
        ExprKindTree::MapLit(inner) => {
            again_pairs(inner, a, b);
        },
        ExprKindTree::Try { expr } => {
            again_expr(*expr, a, b);
        },
        ExprKindTree::Match { scrut, arms } => {
            again_expr(*scrut, a, b);
            again_arms(arms, a, b);
        },
        ExprKindTree::Range { start, end, inclusive } => {
            again_expr(*start, a, b);
            again_expr(*end, a, b);
        },
        ExprKindTree::Index { base, index } => {
            again_expr(*base, a, b);
            again_expr(*index, a, b);
        },
        ExprKindTree::If { cond, then_block, else_block } => {
            again_expr(*cond, a, b);
            again_block(then_block, a, b);
            again_optional_boxed_else_branch(else_block, a, b);
        },
        ExprKindTree::IfLet { pat, expr, then_block, else_block } => {
            again_pattern(*pat, a, b);
            again_expr(*expr, a, b);
            again_block(then_block, a, b);
            again_optional_boxed_else_branch(else_block, a, b);
        },
        ExprKindTree::Block(inner) => {
            again_block(inner, a, b);
        },
        ExprKindTree::Assign { op, target, value } => {
            again_expr(*target, a, b);
            again_expr(*value, a, b);
        },
        _ => {},
    }
}

proof fn again_else_branch(node: ElseBranchTree, a: u32, b: u32)
    ensures
        else_branch_in_file(else_branch_in_file(node, a), b) == else_branch_in_file(node, b),
    decreases node,
{
    match node {
        ElseBranchTree::Block(inner) => {
            again_block(inner, a, b);
        },
        ElseBranchTree::If(inner) => {
            again_expr(inner, a, b);
        },
    }
}

proof fn again_match_arm(node: MatchArmTree, a: u32, b: u32)
    ensures
        match_arm_in_file(match_arm_in_file(node, a), b) == match_arm_in_file(node, b),
    decreases node,
{
    again_patterns(node.pats, a, b);
    again_optional_expr(node.guard, a, b);
    again_expr(node.body, a, b);
}

proof fn again_pattern(node: PatternTree, a: u32, b: u32)
    ensures
        pattern_in_file(pattern_in_file(node, a), b) == pattern_in_file(node, b),
    decreases node,
{
    match node {
        PatternTree::Literal(inner) => {
            again_expr(inner, a, b);
        },
        PatternTree::Range { lo, hi, inclusive } => {
            again_expr(*lo, a, b);
            again_expr(*hi, a, b);
        },
        PatternTree::TupleVariant { id, path, elems } => {
            again_patterns(elems, a, b);
        },
        PatternTree::StructVariant { id, path, fields, rest } => {
            again_field_patterns(fields, a, b);
        },
        _ => {},
    }
}

proof fn again_params(list: Seq<ParamTree>, a: u32, b: u32)
    ensures
        params_in_file(params_in_file(list, a), b) == params_in_file(list, b),
    decreases list,
{
    assert forall|i: int| 0 <= i < list.len() implies #[trigger] params_in_file(
        params_in_file(list, a),
        b,
    )[i] == params_in_file(list, b)[i] by {
        again_param(list[i], a, b);
    }
    assert(params_in_file(params_in_file(list, a), b) =~= params_in_file(list, b));
}

proof fn again_items(list: Seq<ItemTree>, a: u32, b: u32)
    ensures
        items_in_file(items_in_file(list, a), b) == items_in_file(list, b),
    decreases list,
{
    assert forall|i: int| 0 <= i < list.len() implies #[trigger] items_in_file(
        items_in_file(list, a),
        b,
    )[i] == items_in_file(list, b)[i] by {
        again_item(list[i], a, b);
    }
    assert(items_in_file(items_in_file(list, a), b) =~= items_in_file(list, b));
}

proof fn again_extern_fns(list: Seq<ExternFnTree>, a: u32, b: u32)
    ensures
        extern_fns_in_file(extern_fns_in_file(list, a), b) == extern_fns_in_file(list, b),
    decreases list,
{
    assert forall|i: int| 0 <= i < list.len() implies #[trigger] extern_fns_in_file(
        extern_fns_in_file(list, a),
        b,
    )[i] == extern_fns_in_file(list, b)[i] by {
        again_extern_fn(list[i], a, b);
    }
    assert(extern_fns_in_file(extern_fns_in_file(list, a), b) =~= extern_fns_in_file(list, b));
}

proof fn again_generics(list: Seq<GenericParamTree>, a: u32, b: u32)
    ensures
        generics_in_file(generics_in_file(list, a), b) == generics_in_file(list, b),
    decreases list,
{
    assert forall|i: int| 0 <= i < list.len() implies #[trigger] generics_in_file(
        generics_in_file(list, a),
        b,
    )[i] == generics_in_file(list, b)[i] by {
        again_generic_param(list[i], a, b);
    }
    assert(generics_in_file(generics_in_file(list, a), b) =~= generics_in_file(list, b));
}

proof fn again_bounds(list: Seq<TraitRefTree>, a: u32, b: u32)
    ensures
        bounds_in_file(bounds_in_file(list, a), b) == bounds_in_file(list, b),
    decreases list,
{
    assert forall|i: int| 0 <= i < list.len() implies #[trigger] bounds_in_file(
        bounds_in_file(list, a),
        b,
    )[i] == bounds_in_file(list, b)[i] by {
        again_trait_ref(list[i], a, b);
    }
    assert(bounds_in_file(bounds_in_file(list, a), b) =~= bounds_in_file(list, b));
}

proof fn again_trait_methods(list: Seq<TraitMethodTree>, a: u32, b: u32)
    ensures
        trait_methods_in_file(trait_methods_in_file(list, a), b) == trait_methods_in_file(list, b),
    decreases list,
{
    assert forall|i: int| 0 <= i < list.len() implies #[trigger] trait_methods_in_file(
        trait_methods_in_file(list, a),
        b,
    )[i] == trait_methods_in_file(list, b)[i] by {
        again_trait_method(list[i], a, b);
    }
    assert(trait_methods_in_file(trait_methods_in_file(list, a), b) =~= trait_methods_in_file(list, b));
}

proof fn again_fields(list: Seq<FieldTree>, a: u32, b: u32)
    ensures
        fields_in_file(fields_in_file(list, a), b) == fields_in_file(list, b),
    decreases list,
{
    assert forall|i: int| 0 <= i < list.len() implies #[trigger] fields_in_file(
        fields_in_file(list, a),
        b,
    )[i] == fields_in_file(list, b)[i] by {
        again_field(list[i], a, b);
    }
    assert(fields_in_file(fields_in_file(list, a), b) =~= fields_in_file(list, b));
}

proof fn again_variants(list: Seq<VariantTree>, a: u32, b: u32)
    ensures
        variants_in_file(variants_in_file(list, a), b) == variants_in_file(list, b),
    decreases list,
{
    assert forall|i: int| 0 <= i < list.len() implies #[trigger] variants_in_file(
        variants_in_file(list, a),
        b,
    )[i] == variants_in_file(list, b)[i] by {
        again_variant(list[i], a, b);
    }
    assert(variants_in_file(variants_in_file(list, a), b) =~= variants_in_file(list, b));
}

proof fn again_types(list: Seq<TypeTree>, a: u32, b: u32)
    ensures
        types_in_file(types_in_file(list, a), b) == types_in_file(list, b),
    decreases list,
{
    assert forall|i: int| 0 <= i < list.len() implies #[trigger] types_in_file(
        types_in_file(list, a),
        b,
    )[i] == types_in_file(list, b)[i] by {
        again_type(list[i], a, b);
    }
    assert(types_in_file(types_in_file(list, a), b) =~= types_in_file(list, b));
}

proof fn again_functions(list: Seq<FnDeclTree>, a: u32, b: u32)
    ensures
        functions_in_file(functions_in_file(list, a), b) == functions_in_file(list, b),
    decreases list,
{
    assert forall|i: int| 0 <= i < list.len() implies #[trigger] functions_in_file(
        functions_in_file(list, a),
        b,
    )[i] == functions_in_file(list, b)[i] by {
        again_fn_decl(list[i], a, b);
    }
    assert(functions_in_file(functions_in_file(list, a), b) =~= functions_in_file(list, b));
}

proof fn again_stmts(list: Seq<StmtTree>, a: u32, b: u32)
    ensures
        stmts_in_file(stmts_in_file(list, a), b) == stmts_in_file(list, b),
    decreases list,
{
    assert forall|i: int| 0 <= i < list.len() implies #[trigger] stmts_in_file(
        stmts_in_file(list, a),
        b,
    )[i] == stmts_in_file(list, b)[i] by {
        again_stmt(list[i], a, b);
    }
    assert(stmts_in_file(stmts_in_file(list, a), b) =~= stmts_in_file(list, b));
}

proof fn again_exprs(list: Seq<ExprTree>, a: u32, b: u32)
    ensures
        exprs_in_file(exprs_in_file(list, a), b) == exprs_in_file(list, b),
    decreases list,
{
    assert forall|i: int| 0 <= i < list.len() implies #[trigger] exprs_in_file(
        exprs_in_file(list, a),
        b,
    )[i] == exprs_in_file(list, b)[i] by {
        again_expr(list[i], a, b);
    }
    assert(exprs_in_file(exprs_in_file(list, a), b) =~= exprs_in_file(list, b));
}

proof fn again_closure_params(list: Seq<ClosureParamTree>, a: u32, b: u32)
    ensures
        closure_params_in_file(closure_params_in_file(list, a), b) == closure_params_in_file(list, b),
    decreases list,
{
    assert forall|i: int| 0 <= i < list.len() implies #[trigger] closure_params_in_file(
        closure_params_in_file(list, a),
        b,
    )[i] == closure_params_in_file(list, b)[i] by {
        again_closure_param(list[i], a, b);
    }
    assert(closure_params_in_file(closure_params_in_file(list, a), b) =~= closure_params_in_file(list, b));
}

proof fn again_field_values(list: Seq<(Seq<char>, ExprTree)>, a: u32, b: u32)
    ensures
        field_values_in_file(field_values_in_file(list, a), b) == field_values_in_file(list, b),
    decreases list,
{
    assert forall|i: int| 0 <= i < list.len() implies #[trigger] field_values_in_file(
        field_values_in_file(list, a),
        b,
    )[i] == field_values_in_file(list, b)[i] by {
        again_expr(list[i].1, a, b);
    }
    assert(field_values_in_file(field_values_in_file(list, a), b) =~= field_values_in_file(list, b));
}

proof fn again_pairs(list: Seq<(ExprTree, ExprTree)>, a: u32, b: u32)
    ensures
        pairs_in_file(pairs_in_file(list, a), b) == pairs_in_file(list, b),
    decreases list,
{
    assert forall|i: int| 0 <= i < list.len() implies #[trigger] pairs_in_file(
        pairs_in_file(list, a),
        b,
    )[i] == pairs_in_file(list, b)[i] by {
        again_expr(list[i].0, a, b);
        again_expr(list[i].1, a, b);
    }
    assert(pairs_in_file(pairs_in_file(list, a), b) =~= pairs_in_file(list, b));
}

proof fn again_arms(list: Seq<MatchArmTree>, a: u32, b: u32)
    ensures
        arms_in_file(arms_in_file(list, a), b) == arms_in_file(list, b),
    decreases list,
{
    assert forall|i: int| 0 <= i < list.len() implies #[trigger] arms_in_file(
        arms_in_file(list, a),
        b,
    )[i] == arms_in_file(list, b)[i] by {
        again_match_arm(list[i], a, b);
    }
    assert(arms_in_file(arms_in_file(list, a), b) =~= arms_in_file(list, b));
}

proof fn again_patterns(list: Seq<PatternTree>, a: u32, b: u32)
    ensures
        patterns_in_file(patterns_in_file(list, a), b) == patterns_in_file(list, b),
    decreases list,
{
    assert forall|i: int| 0 <= i < list.len() implies #[trigger] patterns_in_file(
        patterns_in_file(list, a),
        b,
    )[i] == patterns_in_file(list, b)[i] by {
        again_pattern(list[i], a, b);
    }
    assert(patterns_in_file(patterns_in_file(list, a), b) =~= patterns_in_file(list, b));
}

proof fn again_field_patterns(list: Seq<(Seq<char>, PatternTree)>, a: u32, b: u32)
    ensures
        field_patterns_in_file(field_patterns_in_file(list, a), b) == field_patterns_in_file(list, b),
    decreases list,
{
    assert forall|i: int| 0 <= i < list.len() implies #[trigger] field_patterns_in_file(
        field_patterns_in_file(list, a),
        b,
    )[i] == field_patterns_in_file(list, b)[i] by {
        again_pattern(list[i].1, a, b);
    }
    assert(field_patterns_in_file(field_patterns_in_file(list, a), b) =~= field_patterns_in_file(list, b));
}

proof fn again_optional_type(node: Option<TypeTree>, a: u32, b: u32)
    ensures
        optional_type_in_file(optional_type_in_file(node, a), b) == optional_type_in_file(node, b),
    decreases node,
{
    match node {
        Some(inner) => {
            again_type(inner, a, b);
        },
        _ => {},
    }
}

proof fn again_optional_block(node: Option<BlockTree>, a: u32, b: u32)
    ensures
        optional_block_in_file(optional_block_in_file(node, a), b) == optional_block_in_file(node, b),
    decreases node,
{
    match node {
        Some(inner) => {
            again_block(inner, a, b);
        },
        _ => {},
    }
}

proof fn again_optional_boxed_expr(node: Option<Box<ExprTree>>, a: u32, b: u32)
    ensures
        optional_boxed_expr_in_file(optional_boxed_expr_in_file(node, a), b) == optional_boxed_expr_in_file(node, b),
    decreases node,
{
    match node {
        Some(inner) => {
            again_expr(*inner, a, b);
        },
        _ => {},
    }
}

proof fn again_optional_expr(node: Option<ExprTree>, a: u32, b: u32)
    ensures
        optional_expr_in_file(optional_expr_in_file(node, a), b) == optional_expr_in_file(node, b),
    decreases node,
{
    match node {
        Some(inner) => {
            again_expr(inner, a, b);
        },
        _ => {},
    }
}

proof fn again_optional_boxed_else_branch(node: Option<Box<ElseBranchTree>>, a: u32, b: u32)
    ensures
        optional_boxed_else_branch_in_file(optional_boxed_else_branch_in_file(node, a), b) == optional_boxed_else_branch_in_file(node, b),
    decreases node,
{
    match node {
        Some(inner) => {
            again_else_branch(*inner, a, b);
        },
        _ => {},
    }
}

/// Of two files that are stamped on a program, only the last one stays. Stamping
/// the same file twice is stamping it once.
pub proof fn law_last_stamp_stays(program: ProgramTree, a: u32, b: u32)
    ensures
        program_in_file(program_in_file(program, a), b) == program_in_file(program, b),
{
    again_items(program.items, a, b);
    again_block(program.chunk, a, b);
}

} // verus!
