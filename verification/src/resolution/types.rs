//! What the types of a program mean.

use vstd::prelude::*;

use super::model::{BuiltinNames, HirModel};
use super::paths::{found, path_target, prelude, segments_of, split_path};
use crate::ast::{
    Block, ClosureBody, ClosureParam, ElseBranch, Expr, ExprKind, Field, GenericParamId, Item,
    MatchArm, Pattern, Stmt, Type,
};
use crate::builtins::{BuiltinId, BuiltinTraitId};
use crate::hir::{
    DefId, ModuleId, Namespace, PrimitiveType, ResolvedHir, ResolvedTarget, TypeTarget,
};
use crate::table::Table;
use crate::text::{same_text, texts};

verus! {

/// What a path is read against.
pub struct Scope {
    pub module: ModuleId,
    pub aliases: Map<Seq<char>, ResolvedTarget>,
    pub generics: Map<Seq<char>, GenericParamId>,
    pub types: Map<Seq<char>, BuiltinId>,
    pub values: Map<Seq<char>, BuiltinId>,
    pub macros: Map<Seq<char>, BuiltinId>,
    pub traits: Map<Seq<char>, BuiltinTraitId>,
}

/// What a path is read against.
pub struct ScopeRef<'a> {
    pub module: ModuleId,
    pub aliases: &'a Table<String, ResolvedTarget>,
    pub generics: &'a Table<String, GenericParamId>,
    pub builtins: &'a BuiltinNames,
}

impl<'a> ScopeRef<'a> {
    pub open spec fn view(&self) -> Scope {
        Scope {
            module: self.module,
            aliases: self.aliases@,
            generics: self.generics@,
            types: self.builtins.types@,
            values: self.builtins.values@,
            macros: self.builtins.macros@,
            traits: self.builtins.traits@,
        }
    }
}

/// The primitive type of a name.
pub open spec fn primitive(name: Seq<char>) -> Option<PrimitiveType> {
    if name == "i8"@ || name == "i16"@ || name == "i32"@ || name == "i64"@ || name == "isize"@
        || name == "u8"@ || name == "u16"@ || name == "u32"@ || name == "u64"@ || name == "usize"@ {
        Some(PrimitiveType::I64)
    } else if name == "f32"@ || name == "f64"@ {
        Some(PrimitiveType::F64)
    } else if name == "bool"@ {
        Some(PrimitiveType::Bool)
    } else if name == "Box"@ {
        Some(PrimitiveType::Box)
    } else {
        None
    }
}

pub fn primitive_type(name: &str) -> (r: Option<PrimitiveType>)
    ensures
        r == primitive(name@),
{
    if same_text(name, "i8") || same_text(name, "i16") || same_text(name, "i32") || same_text(
        name,
        "i64",
    ) || same_text(name, "isize") || same_text(name, "u8") || same_text(name, "u16") || same_text(
        name,
        "u32",
    ) || same_text(name, "u64") || same_text(name, "usize") {
        Some(PrimitiveType::I64)
    } else if same_text(name, "f32") || same_text(name, "f64") {
        Some(PrimitiveType::F64)
    } else if same_text(name, "bool") {
        Some(PrimitiveType::Bool)
    } else if same_text(name, "Box") {
        Some(PrimitiveType::Box)
    } else {
        None
    }
}

/// What a type path means outside the generic parameters: an import under one
/// name, or a path from the module.
pub open spec fn imported_type(hir: HirModel, scope: Scope, name: Seq<char>) -> Option<
    ResolvedTarget,
> {
    let segments = segments_of(name);
    if segments.len() == 1 && scope.aliases.dom().contains(name) {
        Some(scope.aliases[name])
    } else {
        path_target(hir, scope.module, Namespace::Type, segments)
    }
}

/// A declared type, with the declarations of the prelude under their builtin
/// identities.
pub open spec fn canonical_type(hir: HirModel, types: Map<Seq<char>, BuiltinId>, id: DefId) -> TypeTarget {
    if hir.has_definition(id) && prelude(hir) == Some(hir.definition(id).module) {
        match found(types, hir.definition(id).name) {
            Some(builtin) => TypeTarget::Builtin(builtin),
            None => TypeTarget::Item(id),
        }
    } else {
        TypeTarget::Item(id)
    }
}

/// What the path of a type means.
pub open spec fn type_meaning(hir: HirModel, scope: Scope, name: Seq<char>) -> (HirModel, TypeTarget) {
    if name == "_"@ {
        (hir, TypeTarget::Infer)
    } else if name == "Self"@ {
        (hir, TypeTarget::SelfType)
    } else if segments_of(name).len() == 1 && scope.generics.dom().contains(name) {
        (hir, TypeTarget::Generic(scope.generics[name]))
    } else {
        match imported_type(hir, scope, name) {
            Some(ResolvedTarget::Item(id)) => (hir, canonical_type(hir, scope.types, id)),
            _ => match primitive(name) {
                Some(primitive) => (hir, TypeTarget::Primitive(primitive)),
                None => match found(scope.types, name) {
                    Some(builtin) => (hir, TypeTarget::Builtin(builtin)),
                    None => if name == "str"@ {
                        (hir, TypeTarget::Builtin(BuiltinId::TypeString))
                    } else {
                        (hir.unresolved(None, name), TypeTarget::Error)
                    },
                },
            },
        }
    }
}

/// The types `list[from..]`.
pub open spec fn t_types(hir: HirModel, scope: Scope, list: Seq<Type>, from: int) -> HirModel
    decreases list, list.len() - from,
{
    if from < 0 || from >= list.len() {
        hir
    } else {
        t_types(t_type(hir, scope, list[from]), scope, list, from + 1)
    }
}

/// What the paths of a type mean.
pub open spec fn t_type(hir: HirModel, scope: Scope, ty: Type) -> HirModel
    decreases ty, 0int,
{
    match ty {
        Type::Path { id, name, args } => {
            let hir = t_types(hir, scope, args@, 0);
            let (hir, target) = type_meaning(hir, scope, name@);
            HirModel { type_targets: hir.type_targets.insert(id, target), ..hir }
        },
        Type::Ref { inner, .. } => t_type(hir, scope, *inner),
        Type::Function { params, ret } => t_type(t_types(hir, scope, params@, 0), scope, *ret),
        Type::Tuple(items) => t_types(hir, scope, items@, 0),
        Type::Never => hir,
        Type::Unit => hir,
    }
}

/// The types of an optional type.
pub open spec fn t_option(hir: HirModel, scope: Scope, ty: Option<Type>) -> HirModel
    decreases ty, 0int,
{
    match ty {
        Some(ty) => t_type(hir, scope, ty),
        None => hir,
    }
}

/// The types in a block.
pub open spec fn t_block(hir: HirModel, scope: Scope, block: Block) -> HirModel
    decreases block, 0int,
{
    let hir = t_stmts(hir, scope, block.stmts@, 0);
    match block.tail {
        Some(tail) => t_expr(hir, scope, *tail),
        None => hir,
    }
}

/// The types in the statements `list[from..]`.
pub open spec fn t_stmts(hir: HirModel, scope: Scope, list: Seq<Stmt>, from: int) -> HirModel
    decreases list, list.len() - from,
{
    if from < 0 || from >= list.len() {
        hir
    } else {
        t_stmts(t_stmt(hir, scope, list[from]), scope, list, from + 1)
    }
}

/// The types in a statement.
pub open spec fn t_stmt(hir: HirModel, scope: Scope, statement: Stmt) -> HirModel
    decreases statement, 0int,
{
    match statement {
        Stmt::Lua { .. } => hir,
        Stmt::Let { ty, init, .. } => t_expr(t_option(hir, scope, ty), scope, init),
        Stmt::Expr(expression) => t_expr(hir, scope, expression),
        Stmt::Return(value) => match value {
            Some(value) => t_expr(hir, scope, value),
            None => hir,
        },
        Stmt::Break(value) => match value {
            Some(value) => t_expr(hir, scope, value),
            None => hir,
        },
        Stmt::Continue => hir,
        Stmt::While { cond, body } => t_block(t_expr(hir, scope, cond), scope, body),
        Stmt::Loop { body } => t_block(hir, scope, body),
        Stmt::For { iter, body, .. } => t_block(t_expr(hir, scope, iter), scope, body),
        Stmt::WhileLet { pat, expr, body } => t_block(
            t_expr(t_pattern(hir, scope, *pat), scope, expr),
            scope,
            body,
        ),
    }
}

/// The types in the expressions `list[from..]`.
pub open spec fn t_exprs(hir: HirModel, scope: Scope, list: Seq<Expr>, from: int) -> HirModel
    decreases list, list.len() - from,
{
    if from < 0 || from >= list.len() {
        hir
    } else {
        t_exprs(t_expr(hir, scope, list[from]), scope, list, from + 1)
    }
}

/// The types in the field values `list[from..]`.
pub open spec fn t_fields(hir: HirModel, scope: Scope, list: Seq<(String, Expr)>, from: int) -> HirModel
    decreases list, list.len() - from,
{
    if from < 0 || from >= list.len() {
        hir
    } else {
        t_fields(t_expr(hir, scope, list[from].1), scope, list, from + 1)
    }
}

/// The types in the pairs `list[from..]`.
pub open spec fn t_pairs(hir: HirModel, scope: Scope, list: Seq<(Expr, Expr)>, from: int) -> HirModel
    decreases list, list.len() - from,
{
    if from < 0 || from >= list.len() {
        hir
    } else {
        t_pairs(t_expr(t_expr(hir, scope, list[from].0), scope, list[from].1), scope, list, from + 1)
    }
}

/// The types in the arms `list[from..]`.
pub open spec fn t_arms(hir: HirModel, scope: Scope, list: Seq<MatchArm>, from: int) -> HirModel
    decreases list, list.len() - from,
{
    if from < 0 || from >= list.len() {
        hir
    } else {
        t_arms(t_arm(hir, scope, list[from]), scope, list, from + 1)
    }
}

/// The types in an arm.
pub open spec fn t_arm(hir: HirModel, scope: Scope, arm: MatchArm) -> HirModel
    decreases arm, 0int,
{
    let hir = t_patterns(hir, scope, arm.pats@, 0);
    let hir = match arm.guard {
        Some(guard) => t_expr(hir, scope, guard),
        None => hir,
    };
    t_expr(hir, scope, arm.body)
}

/// The types in an `else`.
pub open spec fn t_else(hir: HirModel, scope: Scope, branch: Option<Box<ElseBranch>>) -> HirModel
    decreases branch, 0int,
{
    match branch {
        Some(branch) => match *branch {
            ElseBranch::Block(block) => t_block(hir, scope, block),
            ElseBranch::If(expression) => t_expr(hir, scope, expression),
        },
        None => hir,
    }
}

/// The types of the closure parameters `list[from..]`.
pub open spec fn t_closure_params(hir: HirModel, scope: Scope, list: Seq<ClosureParam>, from: int) -> HirModel
    decreases list, list.len() - from,
{
    if from < 0 || from >= list.len() {
        hir
    } else {
        t_closure_params(t_option(hir, scope, list[from].ty), scope, list, from + 1)
    }
}

/// The types in the body of a closure.
pub open spec fn t_closure_body(hir: HirModel, scope: Scope, body: ClosureBody) -> HirModel
    decreases body, 0int,
{
    match body {
        ClosureBody::Expr(expression) => t_expr(hir, scope, *expression),
        ClosureBody::Block(block) => t_block(hir, scope, block),
    }
}

/// The types in an expression.
pub open spec fn t_expr(hir: HirModel, scope: Scope, expression: Expr) -> HirModel
    decreases expression, 0int,
{
    match expression.kind {
        ExprKind::Closure { params, ret, body } => t_closure_body(t_option(t_closure_params(hir, scope, params@, 0), scope, ret), scope, body),
        ExprKind::Unary { expr, .. } => t_expr(hir, scope, *expr),
        ExprKind::Try { expr } => t_expr(hir, scope, *expr),
        ExprKind::Binary { lhs, rhs, .. } => t_expr(t_expr(hir, scope, *lhs), scope, *rhs),
        ExprKind::Call { callee, args } => t_exprs(t_expr(hir, scope, *callee), scope, args@, 0),
        ExprKind::MethodCall { recv, type_args, args, .. } => t_exprs(t_types(t_expr(hir, scope, *recv), scope, type_args@, 0), scope, args@, 0),
        ExprKind::Field { base, .. } => t_expr(hir, scope, *base),
        ExprKind::StructLit { fields, .. } => t_fields(hir, scope, fields@, 0),
        ExprKind::MapLit(entries) => t_pairs(hir, scope, entries@, 0),
        ExprKind::Match { scrut, arms } => t_arms(t_expr(hir, scope, *scrut), scope, arms@, 0),
        ExprKind::Range { start, end, .. } => t_expr(t_expr(hir, scope, *start), scope, *end),
        ExprKind::Index { base, index } => t_expr(t_expr(hir, scope, *base), scope, *index),
        ExprKind::VecLit(elements) => t_exprs(hir, scope, elements@, 0),
        ExprKind::MacroCall { args, .. } => t_exprs(hir, scope, args@, 0),
        ExprKind::If { cond, then_block, else_block } => t_else(t_block(t_expr(hir, scope, *cond), scope, then_block), scope, else_block),
        ExprKind::IfLet { pat, expr, then_block, else_block } => t_else(t_block(t_expr(t_pattern(hir, scope, *pat), scope, *expr), scope, then_block), scope, else_block),
        ExprKind::Block(block) => t_block(hir, scope, block),
        ExprKind::Loop(block) => t_block(hir, scope, block),
        ExprKind::Assign { target, value, .. } => t_expr(t_expr(hir, scope, *target), scope, *value),
        _ => hir,
    }
}

/// The types in the patterns `list[from..]`.
pub open spec fn t_patterns(hir: HirModel, scope: Scope, list: Seq<Pattern>, from: int) -> HirModel
    decreases list, list.len() - from,
{
    if from < 0 || from >= list.len() {
        hir
    } else {
        t_patterns(t_pattern(hir, scope, list[from]), scope, list, from + 1)
    }
}

/// The types in the field patterns `list[from..]`.
pub open spec fn t_field_patterns(hir: HirModel, scope: Scope, list: Seq<(String, Pattern)>, from: int) -> HirModel
    decreases list, list.len() - from,
{
    if from < 0 || from >= list.len() {
        hir
    } else {
        t_field_patterns(t_pattern(hir, scope, list[from].1), scope, list, from + 1)
    }
}

/// The types in a pattern.
pub open spec fn t_pattern(hir: HirModel, scope: Scope, pattern: Pattern) -> HirModel
    decreases pattern, 0int,
{
    match pattern {
        Pattern::Literal(expression) => t_expr(hir, scope, expression),
        Pattern::Range { lo, hi, .. } => t_expr(t_expr(hir, scope, *lo), scope, *hi),
        Pattern::TupleVariant { elems, .. } => t_patterns(hir, scope, elems@, 0),
        Pattern::StructVariant { fields, .. } => t_field_patterns(hir, scope, fields@, 0),
        _ => hir,
    }
}

impl ResolvedHir {
    pub fn imported_type(&self, scope: &ScopeRef, name: &String) -> (r: Option<ResolvedTarget>)
        ensures
            r == imported_type(self@, scope@, name@),
    {
        let segments = split_path(name.as_str());
        proof {
            assert(texts(segments@).len() == segments@.len());
        }
        if segments.len() == 1 {
            if let Some(target) = scope.aliases.get(name) {
                return Some(*target);
            }
        }
        self.resolve_path(scope.module, Namespace::Type, &segments)
    }

    fn canonical_type_target(&self, types: &Table<String, BuiltinId>, id: DefId) -> (r: TypeTarget)
        ensures
            r == canonical_type(self@, types@, id),
    {
        if let Some(data) = self.find_definition(id) {
            if let Some(builtin) = self.prelude() {
                if builtin == data.module {
                    if let Some(found) = types.get(&data.name) {
                        return TypeTarget::Builtin(*found);
                    }
                }
            }
        }
        TypeTarget::Item(id)
    }

    fn type_meaning(&mut self, scope: &ScopeRef, name: &String) -> (r: TypeTarget)
        ensures
            (final(self)@, r) == type_meaning(old(self)@, scope@, name@),
    {
        if same_text(name.as_str(), "_") {
            return TypeTarget::Infer;
        }
        if same_text(name.as_str(), "Self") {
            return TypeTarget::SelfType;
        }
        let segments = split_path(name.as_str());
        proof {
            assert(texts(segments@).len() == segments@.len());
        }
        if segments.len() == 1 {
            if let Some(parameter) = scope.generics.get(name) {
                return TypeTarget::Generic(*parameter);
            }
        }
        if let Some(ResolvedTarget::Item(id)) = self.imported_type(scope, name) {
            return self.canonical_type_target(&scope.builtins.types, id);
        }
        if let Some(primitive) = primitive_type(name.as_str()) {
            return TypeTarget::Primitive(primitive);
        }
        if let Some(builtin) = scope.builtins.types.get(name) {
            return TypeTarget::Builtin(*builtin);
        }
        if same_text(name.as_str(), "str") {
            return TypeTarget::Builtin(BuiltinId::TypeString);
        }
        self.unresolved(None, name.as_str());
        TypeTarget::Error
    }

    pub fn resolve_types(&mut self, scope: &ScopeRef, list: &Vec<Type>)
        ensures
            final(self)@ == t_types(old(self)@, scope@, list@, 0),
        decreases *list, 0int,
    {
        let ghost start = self@;
        let mut i: usize = 0;
        while i < list.len()
            invariant
                i <= list.len(),
                t_types(self@, scope@, list@, i as int) == t_types(start, scope@, list@, 0),
            decreases list.len() - i,
        {
            let ghost before = self@;
            self.resolve_type(scope, &list[i]);
            proof {
                assert(t_types(before, scope@, list@, i as int) == t_types(
                    self@,
                    scope@,
                    list@,
                    i + 1,
                ));
            }
            i += 1;
        }
    }

    pub fn resolve_type(&mut self, scope: &ScopeRef, ty: &Type)
        ensures
            final(self)@ == t_type(old(self)@, scope@, *ty),
        decreases *ty, 0int,
    {
        match ty {
            Type::Path { id, name, args } => {
                self.resolve_types(scope, args);
                let target = self.type_meaning(scope, name);
                let _ = self.type_targets.insert(*id, target);
            },
            Type::Ref { inner, .. } => {
                self.resolve_type(scope, inner);
            },
            Type::Function { params, ret } => {
                self.resolve_types(scope, params);
                self.resolve_type(scope, ret);
            },
            Type::Tuple(items) => {
                self.resolve_types(scope, items);
            },
            Type::Never => {},
            Type::Unit => {},
        }
    }

    fn resolve_option_type(&mut self, scope: &ScopeRef, ty: &Option<Type>)
        ensures
            final(self)@ == t_option(old(self)@, scope@, *ty),
        decreases *ty, 0int,
    {
        if let Some(ty) = ty {
            self.resolve_type(scope, ty);
        }
    }

    pub fn resolve_block_types(&mut self, scope: &ScopeRef, block: &Block)
        ensures
            final(self)@ == t_block(old(self)@, scope@, *block),
        decreases *block, 0int,
    {
        self.resolve_stmts(scope, &block.stmts);
        if let Some(tail) = &block.tail {
            self.resolve_expression_types(scope, tail);
        }
    }

    fn resolve_stmts(&mut self, scope: &ScopeRef, list: &Vec<Stmt>)
        ensures
            final(self)@ == t_stmts(old(self)@, scope@, list@, 0),
        decreases *list, 0int,
    {
        let ghost start = self@;
        let mut i: usize = 0;
        while i < list.len()
            invariant
                i <= list.len(),
                t_stmts(self@, scope@, list@, i as int) == t_stmts(start, scope@, list@, 0),
            decreases list.len() - i,
        {
            let ghost before = self@;
            self.resolve_statement_types(scope, &list[i]);
            proof {
                assert(t_stmts(before, scope@, list@, i as int) == t_stmts(
                    self@,
                    scope@,
                    list@,
                    i + 1,
                ));
            }
            i += 1;
        }
    }

    fn resolve_statement_types(&mut self, scope: &ScopeRef, statement: &Stmt)
        ensures
            final(self)@ == t_stmt(old(self)@, scope@, *statement),
        decreases *statement, 0int,
    {
        match statement {
            Stmt::Lua { .. } => {},
            Stmt::Let { ty, init, .. } => {
                self.resolve_option_type(scope, ty);
                self.resolve_expression_types(scope, init);
            },
            Stmt::Expr(expression) => {
                self.resolve_expression_types(scope, expression);
            },
            Stmt::Return(value) => {
                if let Some(value) = value {
                    self.resolve_expression_types(scope, value);
                }
            },
            Stmt::Break(value) => {
                if let Some(value) = value {
                    self.resolve_expression_types(scope, value);
                }
            },
            Stmt::Continue => {},
            Stmt::While { cond, body } => {
                self.resolve_expression_types(scope, cond);
                self.resolve_block_types(scope, body);
            },
            Stmt::Loop { body } => {
                self.resolve_block_types(scope, body);
            },
            Stmt::For { iter, body, .. } => {
                self.resolve_expression_types(scope, iter);
                self.resolve_block_types(scope, body);
            },
            Stmt::WhileLet { pat, expr, body } => {
                self.resolve_pattern_types(scope, pat);
                self.resolve_expression_types(scope, expr);
                self.resolve_block_types(scope, body);
            },
        }
    }

    fn resolve_exprs(&mut self, scope: &ScopeRef, list: &Vec<Expr>)
        ensures
            final(self)@ == t_exprs(old(self)@, scope@, list@, 0),
        decreases *list, 0int,
    {
        let ghost start = self@;
        let mut i: usize = 0;
        while i < list.len()
            invariant
                i <= list.len(),
                t_exprs(self@, scope@, list@, i as int) == t_exprs(start, scope@, list@, 0),
            decreases list.len() - i,
        {
            let ghost before = self@;
            self.resolve_expression_types(scope, &list[i]);
            proof {
                assert(t_exprs(before, scope@, list@, i as int) == t_exprs(
                    self@,
                    scope@,
                    list@,
                    i + 1,
                ));
            }
            i += 1;
        }
    }

    fn resolve_field_values(&mut self, scope: &ScopeRef, list: &Vec<(String, Expr)>)
        ensures
            final(self)@ == t_fields(old(self)@, scope@, list@, 0),
        decreases *list, 0int,
    {
        let ghost start = self@;
        let mut i: usize = 0;
        while i < list.len()
            invariant
                i <= list.len(),
                t_fields(self@, scope@, list@, i as int) == t_fields(start, scope@, list@, 0),
            decreases list.len() - i,
        {
            let ghost before = self@;
            self.resolve_expression_types(scope, &list[i].1);
            proof {
                assert(t_fields(before, scope@, list@, i as int) == t_fields(
                    self@,
                    scope@,
                    list@,
                    i + 1,
                ));
            }
            i += 1;
        }
    }

    fn resolve_pairs(&mut self, scope: &ScopeRef, list: &Vec<(Expr, Expr)>)
        ensures
            final(self)@ == t_pairs(old(self)@, scope@, list@, 0),
        decreases *list, 0int,
    {
        let ghost start = self@;
        let mut i: usize = 0;
        while i < list.len()
            invariant
                i <= list.len(),
                t_pairs(self@, scope@, list@, i as int) == t_pairs(start, scope@, list@, 0),
            decreases list.len() - i,
        {
            let ghost before = self@;
            self.resolve_expression_types(scope, &list[i].0);
            self.resolve_expression_types(scope, &list[i].1);
            proof {
                assert(t_pairs(before, scope@, list@, i as int) == t_pairs(
                    self@,
                    scope@,
                    list@,
                    i + 1,
                ));
            }
            i += 1;
        }
    }

    fn resolve_arms(&mut self, scope: &ScopeRef, list: &Vec<MatchArm>)
        ensures
            final(self)@ == t_arms(old(self)@, scope@, list@, 0),
        decreases *list, 0int,
    {
        let ghost start = self@;
        let mut i: usize = 0;
        while i < list.len()
            invariant
                i <= list.len(),
                t_arms(self@, scope@, list@, i as int) == t_arms(start, scope@, list@, 0),
            decreases list.len() - i,
        {
            let ghost before = self@;
            self.resolve_arm_types(scope, &list[i]);
            proof {
                assert(t_arms(before, scope@, list@, i as int) == t_arms(
                    self@,
                    scope@,
                    list@,
                    i + 1,
                ));
            }
            i += 1;
        }
    }

    fn resolve_arm_types(&mut self, scope: &ScopeRef, arm: &MatchArm)
        ensures
            final(self)@ == t_arm(old(self)@, scope@, *arm),
        decreases *arm, 0int,
    {
        self.resolve_patterns(scope, &arm.pats);
        if let Some(guard) = &arm.guard {
            self.resolve_expression_types(scope, guard);
        }
        self.resolve_expression_types(scope, &arm.body);
    }

    fn resolve_else_types(&mut self, scope: &ScopeRef, branch: &Option<Box<ElseBranch>>)
        ensures
            final(self)@ == t_else(old(self)@, scope@, *branch),
        decreases *branch, 0int,
    {
        match branch {
            Some(branch) => match &**branch {
                ElseBranch::Block(block) => {
                    self.resolve_block_types(scope, block);
                },
                ElseBranch::If(expression) => {
                    self.resolve_expression_types(scope, expression);
                },
            },
            None => {},
        }
    }

    fn resolve_closure_params(&mut self, scope: &ScopeRef, list: &Vec<ClosureParam>)
        ensures
            final(self)@ == t_closure_params(old(self)@, scope@, list@, 0),
        decreases *list, 0int,
    {
        let ghost start = self@;
        let mut i: usize = 0;
        while i < list.len()
            invariant
                i <= list.len(),
                t_closure_params(self@, scope@, list@, i as int) == t_closure_params(start, scope@, list@, 0),
            decreases list.len() - i,
        {
            let ghost before = self@;
            self.resolve_option_type(scope, &list[i].ty);
            proof {
                assert(t_closure_params(before, scope@, list@, i as int) == t_closure_params(
                    self@,
                    scope@,
                    list@,
                    i + 1,
                ));
            }
            i += 1;
        }
    }

    fn resolve_closure_body(&mut self, scope: &ScopeRef, body: &ClosureBody)
        ensures
            final(self)@ == t_closure_body(old(self)@, scope@, *body),
        decreases *body, 0int,
    {
        match body {
            ClosureBody::Expr(expression) => {
                self.resolve_expression_types(scope, expression);
            },
            ClosureBody::Block(block) => {
                self.resolve_block_types(scope, block);
            },
        }
    }

    pub fn resolve_expression_types(&mut self, scope: &ScopeRef, expression: &Expr)
        ensures
            final(self)@ == t_expr(old(self)@, scope@, *expression),
        decreases *expression, 0int,
    {
        match &expression.kind {
            ExprKind::Closure { params, ret, body } => {
                self.resolve_closure_params(scope, params);
                self.resolve_option_type(scope, ret);
                self.resolve_closure_body(scope, body);
            },
            ExprKind::Unary { expr, .. } => {
                self.resolve_expression_types(scope, expr);
            },
            ExprKind::Try { expr } => {
                self.resolve_expression_types(scope, expr);
            },
            ExprKind::Binary { lhs, rhs, .. } => {
                self.resolve_expression_types(scope, lhs);
                self.resolve_expression_types(scope, rhs);
            },
            ExprKind::Call { callee, args } => {
                self.resolve_expression_types(scope, callee);
                self.resolve_exprs(scope, args);
            },
            ExprKind::MethodCall { recv, type_args, args, .. } => {
                self.resolve_expression_types(scope, recv);
                self.resolve_types(scope, type_args);
                self.resolve_exprs(scope, args);
            },
            ExprKind::Field { base, .. } => {
                self.resolve_expression_types(scope, base);
            },
            ExprKind::StructLit { fields, .. } => {
                self.resolve_field_values(scope, fields);
            },
            ExprKind::MapLit(entries) => {
                self.resolve_pairs(scope, entries);
            },
            ExprKind::Match { scrut, arms } => {
                self.resolve_expression_types(scope, scrut);
                self.resolve_arms(scope, arms);
            },
            ExprKind::Range { start, end, .. } => {
                self.resolve_expression_types(scope, start);
                self.resolve_expression_types(scope, end);
            },
            ExprKind::Index { base, index } => {
                self.resolve_expression_types(scope, base);
                self.resolve_expression_types(scope, index);
            },
            ExprKind::VecLit(elements) => {
                self.resolve_exprs(scope, elements);
            },
            ExprKind::MacroCall { args, .. } => {
                self.resolve_exprs(scope, args);
            },
            ExprKind::If { cond, then_block, else_block } => {
                self.resolve_expression_types(scope, cond);
                self.resolve_block_types(scope, then_block);
                self.resolve_else_types(scope, else_block);
            },
            ExprKind::IfLet { pat, expr, then_block, else_block } => {
                self.resolve_pattern_types(scope, pat);
                self.resolve_expression_types(scope, expr);
                self.resolve_block_types(scope, then_block);
                self.resolve_else_types(scope, else_block);
            },
            ExprKind::Block(block) => {
                self.resolve_block_types(scope, block);
            },
            ExprKind::Loop(block) => {
                self.resolve_block_types(scope, block);
            },
            ExprKind::Assign { target, value, .. } => {
                self.resolve_expression_types(scope, target);
                self.resolve_expression_types(scope, value);
            },
            _ => {},
        }
    }

    fn resolve_patterns(&mut self, scope: &ScopeRef, list: &Vec<Pattern>)
        ensures
            final(self)@ == t_patterns(old(self)@, scope@, list@, 0),
        decreases *list, 0int,
    {
        let ghost start = self@;
        let mut i: usize = 0;
        while i < list.len()
            invariant
                i <= list.len(),
                t_patterns(self@, scope@, list@, i as int) == t_patterns(start, scope@, list@, 0),
            decreases list.len() - i,
        {
            let ghost before = self@;
            self.resolve_pattern_types(scope, &list[i]);
            proof {
                assert(t_patterns(before, scope@, list@, i as int) == t_patterns(
                    self@,
                    scope@,
                    list@,
                    i + 1,
                ));
            }
            i += 1;
        }
    }

    fn resolve_field_patterns(&mut self, scope: &ScopeRef, list: &Vec<(String, Pattern)>)
        ensures
            final(self)@ == t_field_patterns(old(self)@, scope@, list@, 0),
        decreases *list, 0int,
    {
        let ghost start = self@;
        let mut i: usize = 0;
        while i < list.len()
            invariant
                i <= list.len(),
                t_field_patterns(self@, scope@, list@, i as int) == t_field_patterns(start, scope@, list@, 0),
            decreases list.len() - i,
        {
            let ghost before = self@;
            self.resolve_pattern_types(scope, &list[i].1);
            proof {
                assert(t_field_patterns(before, scope@, list@, i as int) == t_field_patterns(
                    self@,
                    scope@,
                    list@,
                    i + 1,
                ));
            }
            i += 1;
        }
    }

    fn resolve_pattern_types(&mut self, scope: &ScopeRef, pattern: &Pattern)
        ensures
            final(self)@ == t_pattern(old(self)@, scope@, *pattern),
        decreases *pattern, 0int,
    {
        match pattern {
            Pattern::Literal(expression) => {
                self.resolve_expression_types(scope, expression);
            },
            Pattern::Range { lo, hi, .. } => {
                self.resolve_expression_types(scope, lo);
                self.resolve_expression_types(scope, hi);
            },
            Pattern::TupleVariant { elems, .. } => {
                self.resolve_patterns(scope, elems);
            },
            Pattern::StructVariant { fields, .. } => {
                self.resolve_field_patterns(scope, fields);
            },
            _ => {},
        }
    }
}

} // verus!
