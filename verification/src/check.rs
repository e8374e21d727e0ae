//! Structural checks. They report only what is certain, so no valid program is
//! rejected: repeated fields, literals with unknown or missing fields, variants
//! used with the wrong shape or number of values, unknown traits in bounds, and
//! host adapters that cannot work.

use vstd::prelude::*;

use crate::ast::{
    Block, ClosureBody, ElseBranch, Expr, ExprKind, ExternFn, Field, FnDecl, GenericParam, Item,
    MatchArm, Pattern, PatternId, Program, Stmt, TraitMethod, TraitRef, Variant, VariantKind,
};
use crate::builtins::BuiltinId;
use crate::codegen::syntax::digits_value;
use crate::diag::{
    arguments_model, bare_diag, diag_at, diags_model, Diag, DiagModel, DiagRecord, DiagnosticCode,
    StructuredDiagnostic,
};
use crate::hir::{DefId, DefKind, ModuleId, ResolvedHir, ResolvedTarget};
use crate::resolution::model::BuiltinNames;
use crate::resolution::paths::child_module;
use crate::resolution::program::{resolve, resolved};
use crate::table::Table;
use crate::text::{cat3, cat4, cat5, chars_of, decimal, decimal_text, same_text, texts};
use crate::token::SourceRange;

verus! {

// ---------------------------------------------------------------------------
// Shapes.
// ---------------------------------------------------------------------------

/// The shape of a variant.
pub enum VariantForm {
    Unit,
    Tuple(nat),
    Struct(Seq<Seq<char>>),
}

/// The fields of structs and the shapes of variants.
pub struct Shapes {
    pub structs: Map<DefId, Seq<Seq<char>>>,
    pub variants: Map<DefId, VariantForm>,
}

/// The field names of a struct, each once, with the errors of those that repeat.
pub open spec fn struct_fields(
    errors: Seq<DiagModel>,
    name: Seq<char>,
    fields: Seq<Field>,
    from: int,
    done: Seq<Seq<char>>,
) -> (Seq<DiagModel>, Seq<Seq<char>>)
    decreases fields.len() - from,
{
    if from < 0 || from >= fields.len() {
        (errors, done)
    } else if done.contains(fields[from].name@) {
        struct_fields(
            errors.push(
                bare_diag(
                    DiagnosticCode::NameDuplicateDefinition,
                    "duplicate field `"@ + fields[from].name@ + "` in struct `"@ + name + "`"@,
                ),
            ),
            name,
            fields,
            from + 1,
            done,
        )
    } else {
        struct_fields(errors, name, fields, from + 1, done.push(fields[from].name@))
    }
}

/// The names of declared fields.
pub open spec fn declared_names(fields: Seq<Field>) -> Seq<Seq<char>> {
    Seq::new(fields.len(), |i: int| fields[i].name@)
}

/// The shape of a declared variant.
pub open spec fn form_of(variant: Variant) -> VariantForm {
    match variant.kind {
        VariantKind::Unit => VariantForm::Unit,
        VariantKind::Tuple(types) => VariantForm::Tuple(types@.len()),
        VariantKind::Struct(fields) => VariantForm::Struct(declared_names(fields@)),
    }
}

/// The shapes with those of the variants `variants[from..]`.
pub open spec fn with_forms(
    hir: ResolvedHir,
    owner: DefId,
    variants: Seq<Variant>,
    from: int,
    shapes: Shapes,
) -> Shapes
    decreases variants.len() - from,
{
    if from < 0 || from >= variants.len() {
        shapes
    } else {
        let next = match hir.enum_variants.at((owner, variants[from].name@)) {
            Some(id) => Shapes {
                variants: shapes.variants.insert(id, form_of(variants[from])),
                ..shapes
            },
            None => shapes,
        };
        with_forms(hir, owner, variants, from + 1, next)
    }
}

/// The type that a module declares under a name.
pub open spec fn declared_type(hir: ResolvedHir, module: ModuleId, name: Seq<char>) -> Option<DefId> {
    if hir.has_module(module) {
        hir.spec_module(module).scope.types.at(name)
    } else {
        None
    }
}

/// The shapes of the types among `items[from..]`, with the errors of repeated
/// fields.
pub open spec fn shapes_of(
    hir: ResolvedHir,
    errors: Seq<DiagModel>,
    module: ModuleId,
    items: Seq<Item>,
    from: int,
    shapes: Shapes,
) -> (Seq<DiagModel>, Shapes)
    decreases items, items.len() - from,
{
    if from < 0 || from >= items.len() {
        (errors, shapes)
    } else {
        let (errors, shapes) = match items[from] {
            Item::Struct(structure) => match declared_type(hir, module, structure.name@) {
                Some(owner) => {
                    let (errors, fields) = struct_fields(
                        errors,
                        structure.name@,
                        structure.fields@,
                        0,
                        Seq::empty(),
                    );
                    (errors, Shapes { structs: shapes.structs.insert(owner, fields), ..shapes })
                },
                None => (errors, shapes),
            },
            Item::Enum(enumeration) => match declared_type(hir, module, enumeration.name@) {
                Some(owner) => (
                    errors,
                    with_forms(hir, owner, enumeration.variants@, 0, shapes),
                ),
                None => (errors, shapes),
            },
            Item::Mod(child) => match child_module(hir@, module, child.name@) {
                Some(inner) => shapes_of(hir, errors, inner, child.items@, 0, shapes),
                None => (errors, shapes),
            },
            _ => (errors, shapes),
        };
        shapes_of(hir, errors, module, items, from + 1, shapes)
    }
}

#[derive(Debug)]
enum VKind {
    Unit,
    Tuple(usize),
    Struct(Vec<String>),
}

impl VKind {
    spec fn model(self) -> VariantForm {
        match self {
            VKind::Unit => VariantForm::Unit,
            VKind::Tuple(n) => VariantForm::Tuple(n as nat),
            VKind::Struct(fields) => VariantForm::Struct(texts(fields@)),
        }
    }
}

#[derive(Debug)]
struct Info {
    structs: Table<DefId, Vec<String>>,
    variants: Table<DefId, VKind>,
}

impl Info {
    spec fn view(&self) -> Shapes {
        Shapes {
            structs: Map::new(
                |k: DefId| self.structs.at(k) is Some,
                |k: DefId| texts((self.structs.at(k)->0)@),
            ),
            variants: Map::new(
                |k: DefId| self.variants.at(k) is Some,
                |k: DefId| (self.variants.at(k)->0).model(),
            ),
        }
    }

    fn set_struct(&mut self, owner: DefId, fields: Vec<String>)
        ensures
            final(self)@ == (Shapes {
                structs: old(self)@.structs.insert(owner, texts(fields@)),
                ..old(self)@
            }),
    {
        let ghost before = self.structs;
        let _ = self.structs.insert(owner, fields);
        proof {
            crate::table::lemma_insert_at(before, self.structs, owner, fields);
            assert(self@.structs =~= old(self)@.structs.insert(owner, texts(fields@)));
        }
    }

    fn set_variant(&mut self, id: DefId, kind: VKind)
        ensures
            final(self)@ == (Shapes {
                variants: old(self)@.variants.insert(id, kind.model()),
                ..old(self)@
            }),
    {
        let ghost before = self.variants;
        let _ = self.variants.insert(id, kind);
        proof {
            crate::table::lemma_insert_at(before, self.variants, id, kind);
            assert(self@.variants =~= old(self)@.variants.insert(id, kind.model()));
        }
    }
}

/// Appends a diagnostic.
fn push_diag(errors: &mut Vec<Diag>, diag: Diag)
    ensures
        diags_model(final(errors)@) == diags_model(old(errors)@).push(diag.model()),
{
    let ghost before = diags_model(errors@);
    errors.push(diag);
    proof {
        assert(diags_model(errors@) =~= before.push(diag.model()));
    }
}

fn list_has(list: &Vec<String>, name: &str) -> (r: bool)
    ensures
        r == texts(list@).contains(name@),
{
    let ghost model = texts(list@);
    let mut i: usize = 0;
    while i < list.len()
        invariant
            i <= list.len(),
            model == texts(list@),
            forall|k: int| 0 <= k < i ==> #[trigger] model[k] != name@,
        decreases list.len() - i,
    {
        proof {
            assert(model[i as int] == list@[i as int]@);
        }
        if same_text(list[i].as_str(), name) {
            return true;
        }
        i += 1;
    }
    false
}

fn collect_fields(errors: &mut Vec<Diag>, name: &str, fields: &Vec<Field>) -> (r: Vec<String>)
    ensures
        (diags_model(final(errors)@), texts(r@)) == struct_fields(
            diags_model(old(errors)@),
            name@,
            fields@,
            0,
            Seq::empty(),
        ),
{
    let ghost start = diags_model(errors@);
    let mut out: Vec<String> = Vec::new();
    let mut i: usize = 0;
    proof {
        assert(texts(out@) =~= Seq::empty());
    }
    while i < fields.len()
        invariant
            i <= fields.len(),
            struct_fields(diags_model(errors@), name@, fields@, i as int, texts(out@))
                == struct_fields(start, name@, fields@, 0, Seq::empty()),
        decreases fields.len() - i,
    {
        let field = fields[i].name.as_str();
        if list_has(&out, field) {
            push_diag(
                errors,
                Diag::bare(
                    DiagnosticCode::NameDuplicateDefinition,
                    cat5("duplicate field `", field, "` in struct `", name, "`"),
                ),
            );
        } else {
            let ghost before = texts(out@);
            out.push(field.to_string());
            proof {
                assert(texts(out@) =~= before.push(field@));
            }
        }
        i += 1;
    }
    out
}

fn variant_kind(variant: &Variant) -> (r: VKind)
    ensures
        r.model() == form_of(*variant),
{
    match &variant.kind {
        VariantKind::Unit => VKind::Unit,
        VariantKind::Tuple(types) => VKind::Tuple(types.len()),
        VariantKind::Struct(fields) => {
            let mut names: Vec<String> = Vec::new();
            let mut i: usize = 0;
            while i < fields.len()
                invariant
                    i <= fields.len(),
                    names@.len() == i,
                    forall|k: int| 0 <= k < i ==> (#[trigger] names@[k])@ == fields@[k].name@,
                decreases fields.len() - i,
            {
                names.push(fields[i].name.clone());
                i += 1;
            }
            proof {
                assert(texts(names@) =~= declared_names(fields@));
            }
            VKind::Struct(names)
        },
    }
}

fn find_type(hir: &ResolvedHir, module: ModuleId, name: &String) -> (r: Option<DefId>)
    ensures
        r == declared_type(*hir, module, name@),
{
    match hir.find_module(module) {
        Some(data) => match data.scope.types.get(name) {
            Some(id) => Some(*id),
            None => None,
        },
        None => None,
    }
}

fn collect_forms(hir: &ResolvedHir, owner: DefId, variants: &Vec<Variant>, info: &mut Info)
    ensures
        final(info)@ == with_forms(*hir, owner, variants@, 0, old(info)@),
{
    let ghost start = info@;
    let mut i: usize = 0;
    while i < variants.len()
        invariant
            i <= variants.len(),
            with_forms(*hir, owner, variants@, i as int, info@) == with_forms(
                *hir,
                owner,
                variants@,
                0,
                start,
            ),
        decreases variants.len() - i,
    {
        if let Some(id) = hir.enum_variants.get(&(owner, variants[i].name.clone())) {
            info.set_variant(*id, variant_kind(&variants[i]));
        }
        i += 1;
    }
}

fn collect_shapes(
    hir: &ResolvedHir,
    errors: &mut Vec<Diag>,
    module: ModuleId,
    items: &Vec<Item>,
    info: &mut Info,
)
    ensures
        (diags_model(final(errors)@), final(info)@) == shapes_of(
            *hir,
            diags_model(old(errors)@),
            module,
            items@,
            0,
            old(info)@,
        ),
    decreases *items,
{
    let ghost start = diags_model(errors@);
    let ghost first = info@;
    let mut i: usize = 0;
    while i < items.len()
        invariant
            i <= items.len(),
            shapes_of(*hir, diags_model(errors@), module, items@, i as int, info@) == shapes_of(
                *hir,
                start,
                module,
                items@,
                0,
                first,
            ),
        decreases items.len() - i,
    {
        match &items[i] {
            Item::Struct(structure) => {
                if let Some(owner) = find_type(hir, module, &structure.name) {
                    let fields = collect_fields(errors, structure.name.as_str(), &structure.fields);
                    info.set_struct(owner, fields);
                }
            },
            Item::Enum(enumeration) => {
                if let Some(owner) = find_type(hir, module, &enumeration.name) {
                    collect_forms(hir, owner, &enumeration.variants, info);
                }
            },
            Item::Mod(child) => {
                if let Some(inner) = hir.find_child(module, &child.name) {
                    collect_shapes(hir, errors, inner, &child.items, info);
                }
            },
            _ => {},
        }
        i += 1;
    }
}

// ---------------------------------------------------------------------------
// Uses of variants and fields.
// ---------------------------------------------------------------------------

/// A diagnostic at a source range.
pub open spec fn at_code(code: DiagnosticCode, span: SourceRange, message: Seq<char>) -> DiagModel {
    diag_at(code, span.file, span.start, span.len, span.line, message)
}

/// The path of a variant, where the definition is one.
pub open spec fn variant_path(hir: ResolvedHir, id: DefId) -> Option<Seq<char>> {
    if !hir.has_definition(id) {
        None
    } else {
        match hir.spec_definition(id).kind {
            DefKind::EnumVariant { owner, .. } => if hir.has_definition(owner) {
                Some(hir.spec_definition(owner).name@ + "::"@ + hir.spec_definition(id).name@)
            } else {
                None
            },
            _ => None,
        }
    }
}

/// The name of a builtin variant with one value.
pub open spec fn wrapper_name(builtin: BuiltinId) -> Option<Seq<char>> {
    match builtin {
        BuiltinId::VariantOptionSome => Some("Some"@),
        BuiltinId::VariantResultOk => Some("Ok"@),
        BuiltinId::VariantResultErr => Some("Err"@),
        _ => None,
    }
}

/// The errors of a call with so many arguments.
pub open spec fn call_errors(
    cx: Shapes,
    hir: ResolvedHir,
    errors: Seq<DiagModel>,
    callee: Expr,
    args: nat,
) -> Seq<DiagModel> {
    let span = callee.span;
    match hir.expression_targets.at(callee.id) {
        Some(ResolvedTarget::Builtin(builtin)) => if builtin == BuiltinId::VariantOptionNone {
            errors.push(
                at_code(
                    DiagnosticCode::TypeMismatch,
                    span,
                    "unit variant `Option::None` is not called with `()`"@,
                ),
            )
        } else {
            match wrapper_name(builtin) {
                Some(name) => if args != 1 {
                    errors.push(
                        at_code(
                            DiagnosticCode::TypeArgumentCount,
                            span,
                            "`"@ + name + "` takes exactly 1 argument"@,
                        ),
                    )
                } else {
                    errors
                },
                None => errors,
            }
        },
        Some(ResolvedTarget::Item(id)) => match variant_path(hir, id) {
            Some(path) => if cx.variants.dom().contains(id) {
                match cx.variants[id] {
                    VariantForm::Tuple(expected) => if args != expected {
                        errors.push(
                            at_code(
                                DiagnosticCode::TypeArgumentCount,
                                span,
                                "variant `"@ + path + "` expects "@ + decimal(expected)
                                    + " argument(s), got "@ + decimal(args),
                            ),
                        )
                    } else {
                        errors
                    },
                    VariantForm::Unit => errors.push(
                        at_code(
                            DiagnosticCode::TypeMismatch,
                            span,
                            "unit variant `"@ + path + "` is not called with `()`"@,
                        ),
                    ),
                    VariantForm::Struct(_) => errors.push(
                        at_code(
                            DiagnosticCode::TypeMismatch,
                            span,
                            "struct variant `"@ + path + "` must be built with `{ .. }`"@,
                        ),
                    ),
                }
            } else {
                errors
            },
            None => errors,
        },
        _ => errors,
    }
}

/// The errors of a tuple pattern with so many elements.
pub open spec fn tuple_errors(
    cx: Shapes,
    hir: ResolvedHir,
    errors: Seq<DiagModel>,
    target: Option<ResolvedTarget>,
    elements: nat,
    span: SourceRange,
) -> Seq<DiagModel> {
    match target {
        Some(ResolvedTarget::Builtin(builtin)) => if builtin == BuiltinId::VariantOptionNone {
            errors.push(
                at_code(
                    DiagnosticCode::TypeMismatch,
                    span,
                    "unit variant `Option::None` has no tuple payload"@,
                ),
            )
        } else {
            match wrapper_name(builtin) {
                Some(name) => if elements != 1 {
                    errors.push(
                        at_code(
                            DiagnosticCode::TypeArgumentCount,
                            span,
                            "`"@ + name + "` pattern takes exactly 1 element"@,
                        ),
                    )
                } else {
                    errors
                },
                None => errors,
            }
        },
        Some(ResolvedTarget::Item(id)) => match variant_path(hir, id) {
            Some(path) => if cx.variants.dom().contains(id) {
                match cx.variants[id] {
                    VariantForm::Tuple(expected) => if elements != expected {
                        errors.push(
                            at_code(
                                DiagnosticCode::TypeArgumentCount,
                                span,
                                "variant `"@ + path + "` expects "@ + decimal(expected)
                                    + " element(s) in pattern, got "@ + decimal(elements),
                            ),
                        )
                    } else {
                        errors
                    },
                    VariantForm::Unit => errors.push(
                        at_code(
                            DiagnosticCode::TypeMismatch,
                            span,
                            "unit variant `"@ + path + "` has no tuple payload"@,
                        ),
                    ),
                    VariantForm::Struct(_) => errors.push(
                        at_code(
                            DiagnosticCode::TypeMismatch,
                            span,
                            "struct variant `"@ + path + "` must be matched with `{ .. }`"@,
                        ),
                    ),
                }
            } else {
                errors
            },
            None => errors,
        },
        _ => errors,
    }
}

/// The names `names[from..]` that are not declared.
pub open spec fn unknown_fields(
    errors: Seq<DiagModel>,
    what: Seq<char>,
    declared: Seq<Seq<char>>,
    names: Seq<Seq<char>>,
    span: SourceRange,
    from: int,
) -> Seq<DiagModel>
    decreases names.len() - from,
{
    if from < 0 || from >= names.len() {
        errors
    } else {
        unknown_fields(
            if declared.contains(names[from]) {
                errors
            } else {
                errors.push(
                    at_code(
                        DiagnosticCode::TypeUnknownField,
                        span,
                        what + " has no field `"@ + names[from] + "`"@,
                    ),
                )
            },
            what,
            declared,
            names,
            span,
            from + 1,
        )
    }
}

/// The declared names `declared[from..]` that are not given.
pub open spec fn missing_fields(
    errors: Seq<DiagModel>,
    what: Seq<char>,
    declared: Seq<Seq<char>>,
    names: Seq<Seq<char>>,
    span: SourceRange,
    from: int,
) -> Seq<DiagModel>
    decreases declared.len() - from,
{
    if from < 0 || from >= declared.len() {
        errors
    } else {
        missing_fields(
            if names.contains(declared[from]) {
                errors
            } else {
                errors.push(
                    at_code(
                        DiagnosticCode::TypeUnknownField,
                        span,
                        what + " is missing field `"@ + declared[from] + "`"@,
                    ),
                )
            },
            what,
            declared,
            names,
            span,
            from + 1,
        )
    }
}

/// The errors of a literal with these fields.
pub open spec fn literal_errors(
    cx: Shapes,
    hir: ResolvedHir,
    errors: Seq<DiagModel>,
    expression: Expr,
    names: Seq<Seq<char>>,
) -> Seq<DiagModel> {
    let span = expression.span;
    match hir.expression_targets.at(expression.id) {
        Some(ResolvedTarget::Item(id)) => if cx.variants.dom().contains(id) {
            match variant_path(hir, id) {
                Some(path) => match cx.variants[id] {
                    VariantForm::Struct(declared) => {
                        let what = "variant `"@ + path + "`"@;
                        missing_fields(
                            unknown_fields(errors, what, declared, names, span, 0),
                            what,
                            declared,
                            names,
                            span,
                            0,
                        )
                    },
                    _ => errors.push(
                        at_code(
                            DiagnosticCode::TypeMismatch,
                            span,
                            "variant `"@ + path + "` is not a struct variant"@,
                        ),
                    ),
                },
                None => errors,
            }
        } else if cx.structs.dom().contains(id) && hir.has_definition(id) {
            let what = "struct `"@ + hir.spec_definition(id).name@ + "`"@;
            let declared = cx.structs[id];
            missing_fields(
                unknown_fields(errors, what, declared, names, span, 0),
                what,
                declared,
                names,
                span,
                0,
            )
        } else {
            errors
        },
        _ => errors,
    }
}

/// The errors of a struct pattern with these fields.
pub open spec fn struct_errors(
    cx: Shapes,
    hir: ResolvedHir,
    errors: Seq<DiagModel>,
    target: Option<ResolvedTarget>,
    names: Seq<Seq<char>>,
    span: SourceRange,
) -> Seq<DiagModel> {
    match target {
        Some(ResolvedTarget::Item(id)) => if cx.variants.dom().contains(id) {
            match variant_path(hir, id) {
                Some(path) => match cx.variants[id] {
                    VariantForm::Struct(declared) => unknown_fields(
                        errors,
                        "variant `"@ + path + "`"@,
                        declared,
                        names,
                        span,
                        0,
                    ),
                    _ => errors.push(
                        at_code(
                            DiagnosticCode::TypeMismatch,
                            span,
                            "variant `"@ + path + "` is not a struct variant"@,
                        ),
                    ),
                },
                None => errors,
            }
        } else if cx.structs.dom().contains(id) && hir.has_definition(id) {
            unknown_fields(
                errors,
                "struct `"@ + hir.spec_definition(id).name@ + "`"@,
                cx.structs[id],
                names,
                span,
                0,
            )
        } else {
            errors
        },
        _ => errors,
    }
}

/// The names of given field values.
pub open spec fn field_names(fields: Seq<(String, Expr)>) -> Seq<Seq<char>> {
    Seq::new(fields.len(), |i: int| fields[i].0@)
}

/// The names of given field patterns.
pub open spec fn pattern_names(fields: Seq<(String, Pattern)>) -> Seq<Seq<char>> {
    Seq::new(fields.len(), |i: int| fields[i].0@)
}

fn diag_for(code: DiagnosticCode, span: SourceRange, message: String) -> (r: Diag)
    ensures
        r.model() == at_code(code, span, message@),
{
    Diag::new(code, span.file, span.start, span.len, span.line, message)
}

fn variant_text(hir: &ResolvedHir, id: DefId) -> (r: Option<String>)
    ensures
        match r {
            Some(path) => variant_path(*hir, id) == Some(path@),
            None => variant_path(*hir, id) is None,
        },
{
    match hir.find_definition(id) {
        Some(data) => match data.kind {
            DefKind::EnumVariant { owner, .. } => match hir.find_definition(owner) {
                Some(owner) => Some(cat3(owner.name.as_str(), "::", data.name.as_str())),
                None => None,
            },
            _ => None,
        },
        None => None,
    }
}

fn wrapper_text(builtin: BuiltinId) -> (r: Option<&'static str>)
    ensures
        match r {
            Some(name) => wrapper_name(builtin) == Some(name@),
            None => wrapper_name(builtin) is None,
        },
{
    match builtin {
        BuiltinId::VariantOptionSome => Some("Some"),
        BuiltinId::VariantResultOk => Some("Ok"),
        BuiltinId::VariantResultErr => Some("Err"),
        _ => None,
    }
}

fn count_message(path: &str, expected: usize, middle: &str, got: usize) -> (r: String)
    ensures
        r@ == "variant `"@ + path@ + "` expects "@ + decimal(expected as nat) + middle@ + decimal(
            got as nat,
        ),
{
    let head = cat4(
        "variant `",
        path,
        "` expects ",
        decimal_text(expected as u64).as_str(),
    );
    cat3(head.as_str(), middle, decimal_text(got as u64).as_str())
}

fn check_call(
    info: &Info,
    hir: &ResolvedHir,
    callee: &Expr,
    args: usize,
    errors: &mut Vec<Diag>,
)
    ensures
        diags_model(final(errors)@) == call_errors(
            info@,
            *hir,
            diags_model(old(errors)@),
            *callee,
            args as nat,
        ),
{
    let span = callee.span;
    match hir.expression_targets.get(&callee.id) {
        Some(ResolvedTarget::Builtin(builtin)) => {
            if *builtin == BuiltinId::VariantOptionNone {
                push_diag(
                    errors,
                    diag_for(
                        DiagnosticCode::TypeMismatch,
                        span,
                        "unit variant `Option::None` is not called with `()`".to_string(),
                    ),
                );
            } else if let Some(name) = wrapper_text(*builtin) {
                if args != 1 {
                    push_diag(
                        errors,
                        diag_for(
                            DiagnosticCode::TypeArgumentCount,
                            span,
                            cat3("`", name, "` takes exactly 1 argument"),
                        ),
                    );
                }
            }
        },
        Some(ResolvedTarget::Item(id)) => {
            if let Some(path) = variant_text(hir, *id) {
                let path = path.as_str();
                match info.variants.get(id) {
                    Some(VKind::Tuple(expected)) => {
                        if args != *expected {
                            push_diag(
                                errors,
                                diag_for(
                                    DiagnosticCode::TypeArgumentCount,
                                    span,
                                    count_message(path, *expected, " argument(s), got ", args),
                                ),
                            );
                        }
                    },
                    Some(VKind::Unit) => {
                        push_diag(
                            errors,
                            diag_for(
                                DiagnosticCode::TypeMismatch,
                                span,
                                cat3("unit variant `", path, "` is not called with `()`"),
                            ),
                        );
                    },
                    Some(VKind::Struct(_)) => {
                        push_diag(
                            errors,
                            diag_for(
                                DiagnosticCode::TypeMismatch,
                                span,
                                cat3("struct variant `", path, "` must be built with `{ .. }`"),
                            ),
                        );
                    },
                    None => {},
                }
            }
        },
        _ => {},
    }
}

fn check_tuple_pattern(
    info: &Info,
    hir: &ResolvedHir,
    target: Option<ResolvedTarget>,
    elements: usize,
    span: SourceRange,
    errors: &mut Vec<Diag>,
)
    ensures
        diags_model(final(errors)@) == tuple_errors(
            info@,
            *hir,
            diags_model(old(errors)@),
            target,
            elements as nat,
            span,
        ),
{
    match target {
        Some(ResolvedTarget::Builtin(builtin)) => {
            if builtin == BuiltinId::VariantOptionNone {
                push_diag(
                    errors,
                    diag_for(
                        DiagnosticCode::TypeMismatch,
                        span,
                        "unit variant `Option::None` has no tuple payload".to_string(),
                    ),
                );
            } else if let Some(name) = wrapper_text(builtin) {
                if elements != 1 {
                    push_diag(
                        errors,
                        diag_for(
                            DiagnosticCode::TypeArgumentCount,
                            span,
                            cat3("`", name, "` pattern takes exactly 1 element"),
                        ),
                    );
                }
            }
        },
        Some(ResolvedTarget::Item(id)) => {
            if let Some(path) = variant_text(hir, id) {
                let path = path.as_str();
                match info.variants.get(&id) {
                    Some(VKind::Tuple(expected)) => {
                        if elements != *expected {
                            push_diag(
                                errors,
                                diag_for(
                                    DiagnosticCode::TypeArgumentCount,
                                    span,
                                    count_message(
                                        path,
                                        *expected,
                                        " element(s) in pattern, got ",
                                        elements,
                                    ),
                                ),
                            );
                        }
                    },
                    Some(VKind::Unit) => {
                        push_diag(
                            errors,
                            diag_for(
                                DiagnosticCode::TypeMismatch,
                                span,
                                cat3("unit variant `", path, "` has no tuple payload"),
                            ),
                        );
                    },
                    Some(VKind::Struct(_)) => {
                        push_diag(
                            errors,
                            diag_for(
                                DiagnosticCode::TypeMismatch,
                                span,
                                cat3("struct variant `", path, "` must be matched with `{ .. }`"),
                            ),
                        );
                    },
                    None => {},
                }
            }
        },
        _ => {},
    }
}

fn report_unknown(
    errors: &mut Vec<Diag>,
    what: &str,
    declared: &Vec<String>,
    names: &Vec<String>,
    span: SourceRange,
)
    ensures
        diags_model(final(errors)@) == unknown_fields(
            diags_model(old(errors)@),
            what@,
            texts(declared@),
            texts(names@),
            span,
            0,
        ),
{
    let ghost start = diags_model(errors@);
    let ghost known = texts(declared@);
    let ghost given = texts(names@);
    let mut i: usize = 0;
    while i < names.len()
        invariant
            i <= names.len(),
            known == texts(declared@),
            given == texts(names@),
            unknown_fields(diags_model(errors@), what@, known, given, span, i as int)
                == unknown_fields(start, what@, known, given, span, 0),
        decreases names.len() - i,
    {
        let name = names[i].as_str();
        proof {
            assert(given[i as int] == name@);
        }
        if !list_has(declared, name) {
            push_diag(
                errors,
                diag_for(
                    DiagnosticCode::TypeUnknownField,
                    span,
                    cat4(what, " has no field `", name, "`"),
                ),
            );
        }
        i += 1;
    }
}

fn report_missing(
    errors: &mut Vec<Diag>,
    what: &str,
    declared: &Vec<String>,
    names: &Vec<String>,
    span: SourceRange,
)
    ensures
        diags_model(final(errors)@) == missing_fields(
            diags_model(old(errors)@),
            what@,
            texts(declared@),
            texts(names@),
            span,
            0,
        ),
{
    let ghost start = diags_model(errors@);
    let ghost known = texts(declared@);
    let ghost given = texts(names@);
    let mut i: usize = 0;
    while i < declared.len()
        invariant
            i <= declared.len(),
            known == texts(declared@),
            given == texts(names@),
            missing_fields(diags_model(errors@), what@, known, given, span, i as int)
                == missing_fields(start, what@, known, given, span, 0),
        decreases declared.len() - i,
    {
        let name = declared[i].as_str();
        proof {
            assert(known[i as int] == name@);
        }
        if !list_has(names, name) {
            push_diag(
                errors,
                diag_for(
                    DiagnosticCode::TypeUnknownField,
                    span,
                    cat4(what, " is missing field `", name, "`"),
                ),
            );
        }
        i += 1;
    }
}

fn check_struct_lit(
    info: &Info,
    hir: &ResolvedHir,
    expression: &Expr,
    names: &Vec<String>,
    errors: &mut Vec<Diag>,
)
    ensures
        diags_model(final(errors)@) == literal_errors(
            info@,
            *hir,
            diags_model(old(errors)@),
            *expression,
            texts(names@),
        ),
{
    let span = expression.span;
    let id = match hir.expression_targets.get(&expression.id) {
        Some(ResolvedTarget::Item(id)) => *id,
        _ => {
            return ;
        },
    };
    match info.variants.get(&id) {
        Some(kind) => {
            if let Some(path) = variant_text(hir, id) {
                match kind {
                    VKind::Struct(declared) => {
                        let what = cat3("variant `", path.as_str(), "`");
                        report_unknown(errors, what.as_str(), declared, names, span);
                        report_missing(errors, what.as_str(), declared, names, span);
                    },
                    _ => {
                        push_diag(
                            errors,
                            diag_for(
                                DiagnosticCode::TypeMismatch,
                                span,
                                cat3("variant `", path.as_str(), "` is not a struct variant"),
                            ),
                        );
                    },
                }
            }
        },
        None => {
            if let Some(declared) = info.structs.get(&id) {
                if let Some(data) = hir.find_definition(id) {
                    let what = cat3("struct `", data.name.as_str(), "`");
                    report_unknown(errors, what.as_str(), declared, names, span);
                    report_missing(errors, what.as_str(), declared, names, span);
                }
            }
        },
    }
}

fn check_struct_pattern(
    info: &Info,
    hir: &ResolvedHir,
    target: Option<ResolvedTarget>,
    names: &Vec<String>,
    span: SourceRange,
    errors: &mut Vec<Diag>,
)
    ensures
        diags_model(final(errors)@) == struct_errors(
            info@,
            *hir,
            diags_model(old(errors)@),
            target,
            texts(names@),
            span,
        ),
{
    let id = match target {
        Some(ResolvedTarget::Item(id)) => id,
        _ => {
            return ;
        },
    };
    match info.variants.get(&id) {
        Some(kind) => {
            if let Some(path) = variant_text(hir, id) {
                match kind {
                    VKind::Struct(declared) => {
                        let what = cat3("variant `", path.as_str(), "`");
                        report_unknown(errors, what.as_str(), declared, names, span);
                    },
                    _ => {
                        push_diag(
                            errors,
                            diag_for(
                                DiagnosticCode::TypeMismatch,
                                span,
                                cat3("variant `", path.as_str(), "` is not a struct variant"),
                            ),
                        );
                    },
                }
            }
        },
        None => {
            if let Some(declared) = info.structs.get(&id) {
                if let Some(data) = hir.find_definition(id) {
                    let what = cat3("struct `", data.name.as_str(), "`");
                    report_unknown(errors, what.as_str(), declared, names, span);
                }
            }
        },
    }
}

fn names_of_values(fields: &Vec<(String, Expr)>) -> (r: Vec<String>)
    ensures
        texts(r@) == field_names(fields@),
{
    let mut out: Vec<String> = Vec::new();
    let mut i: usize = 0;
    while i < fields.len()
        invariant
            i <= fields.len(),
            out@.len() == i,
            forall|k: int| 0 <= k < i ==> (#[trigger] out@[k])@ == fields@[k].0@,
        decreases fields.len() - i,
    {
        out.push(fields[i].0.clone());
        i += 1;
    }
    proof {
        assert(texts(out@) =~= field_names(fields@));
    }
    out
}

fn names_of_patterns(fields: &Vec<(String, Pattern)>) -> (r: Vec<String>)
    ensures
        texts(r@) == pattern_names(fields@),
{
    let mut out: Vec<String> = Vec::new();
    let mut i: usize = 0;
    while i < fields.len()
        invariant
            i <= fields.len(),
            out@.len() == i,
            forall|k: int| 0 <= k < i ==> (#[trigger] out@[k])@ == fields@[k].0@,
        decreases fields.len() - i,
    {
        out.push(fields[i].0.clone());
        i += 1;
    }
    proof {
        assert(texts(out@) =~= pattern_names(fields@));
    }
    out
}

fn target_of_pattern(hir: &ResolvedHir, id: PatternId) -> (r: Option<ResolvedTarget>)
    ensures
        r == hir.pattern_targets.at(id),
{
    match hir.pattern_targets.get(&id) {
        Some(target) => Some(*target),
        None => None,
    }
}

// ---------------------------------------------------------------------------
// Bodies.
// ---------------------------------------------------------------------------

/// The errors of a block.
pub open spec fn c_block(
    cx: Shapes,
    hir: ResolvedHir,
    errors: Seq<DiagModel>,
    block: Block,
) -> Seq<DiagModel>
    decreases block, 0int,
{
    let errors = c_stmts(cx, hir, errors, block.stmts@, 0);
    match block.tail {
        Some(tail) => c_expr(cx, hir, errors, *tail),
        None => errors,
    }
}

/// The errors of the statements `list[from..]`.
pub open spec fn c_stmts(
    cx: Shapes,
    hir: ResolvedHir,
    errors: Seq<DiagModel>,
    list: Seq<Stmt>,
    from: int,
) -> Seq<DiagModel>
    decreases list, list.len() - from,
{
    if from < 0 || from >= list.len() {
        errors
    } else {
        c_stmts(cx, hir, c_stmt(cx, hir, errors, list[from]), list, from + 1)
    }
}

/// The errors of a statement.
pub open spec fn c_stmt(
    cx: Shapes,
    hir: ResolvedHir,
    errors: Seq<DiagModel>,
    statement: Stmt,
) -> Seq<DiagModel>
    decreases statement, 0int,
{
    match statement {
        Stmt::Lua { .. } => errors,
        Stmt::Let { init, .. } => c_expr(cx, hir, errors, init),
        Stmt::Expr(expression) => c_expr(cx, hir, errors, expression),
        Stmt::Return(value) => match value {
            Some(value) => c_expr(cx, hir, errors, value),
            None => errors,
        },
        Stmt::While { cond, body } => c_block(cx, hir, c_expr(cx, hir, errors, cond), body),
        Stmt::Loop { body } => c_block(cx, hir, errors, body),
        Stmt::For { iter, body, .. } => c_block(cx, hir, c_expr(cx, hir, errors, iter), body),
        Stmt::WhileLet { pat, expr, body } => c_block(
            cx,
            hir,
            c_expr(cx, hir, c_pattern(cx, hir, errors, *pat, expr.span), expr),
            body,
        ),
        Stmt::Break(value) => match value {
            Some(value) => c_expr(cx, hir, errors, value),
            None => errors,
        },
        Stmt::Continue => errors,
    }
}

/// The errors of the expressions `list[from..]`.
pub open spec fn c_exprs(
    cx: Shapes,
    hir: ResolvedHir,
    errors: Seq<DiagModel>,
    list: Seq<Expr>,
    from: int,
) -> Seq<DiagModel>
    decreases list, list.len() - from,
{
    if from < 0 || from >= list.len() {
        errors
    } else {
        c_exprs(cx, hir, c_expr(cx, hir, errors, list[from]), list, from + 1)
    }
}

/// The errors of the field values `list[from..]`.
pub open spec fn c_fields(
    cx: Shapes,
    hir: ResolvedHir,
    errors: Seq<DiagModel>,
    list: Seq<(String, Expr)>,
    from: int,
) -> Seq<DiagModel>
    decreases list, list.len() - from,
{
    if from < 0 || from >= list.len() {
        errors
    } else {
        c_fields(cx, hir, c_expr(cx, hir, errors, list[from].1), list, from + 1)
    }
}

/// The errors of the pairs `list[from..]`.
pub open spec fn c_pairs(
    cx: Shapes,
    hir: ResolvedHir,
    errors: Seq<DiagModel>,
    list: Seq<(Expr, Expr)>,
    from: int,
) -> Seq<DiagModel>
    decreases list, list.len() - from,
{
    if from < 0 || from >= list.len() {
        errors
    } else {
        c_pairs(cx, hir, c_expr(cx, hir, c_expr(cx, hir, errors, list[from].0), list[from].1), list, from + 1)
    }
}

/// The errors of the arms `list[from..]`.
pub open spec fn c_arms(
    cx: Shapes,
    hir: ResolvedHir,
    errors: Seq<DiagModel>,
    list: Seq<MatchArm>,
    from: int,
) -> Seq<DiagModel>
    decreases list, list.len() - from,
{
    if from < 0 || from >= list.len() {
        errors
    } else {
        c_arms(cx, hir, c_arm(cx, hir, errors, list[from]), list, from + 1)
    }
}

/// The errors of an arm.
pub open spec fn c_arm(
    cx: Shapes,
    hir: ResolvedHir,
    errors: Seq<DiagModel>,
    arm: MatchArm,
) -> Seq<DiagModel>
    decreases arm, 0int,
{
    let errors = c_patterns(cx, hir, errors, arm.pats@, arm.body.span, 0);
    let errors = match arm.guard {
        Some(guard) => c_expr(cx, hir, errors, guard),
        None => errors,
    };
    c_expr(cx, hir, errors, arm.body)
}

/// The errors of an `else`.
pub open spec fn c_else(
    cx: Shapes,
    hir: ResolvedHir,
    errors: Seq<DiagModel>,
    branch: Option<Box<ElseBranch>>,
) -> Seq<DiagModel>
    decreases branch, 0int,
{
    match branch {
        Some(branch) => match *branch {
            ElseBranch::Block(block) => c_block(cx, hir, errors, block),
            ElseBranch::If(expression) => c_expr(cx, hir, errors, expression),
        },
        None => errors,
    }
}

/// The errors of the body of a closure.
pub open spec fn c_closure_body(
    cx: Shapes,
    hir: ResolvedHir,
    errors: Seq<DiagModel>,
    body: ClosureBody,
) -> Seq<DiagModel>
    decreases body, 0int,
{
    match body {
        ClosureBody::Expr(expression) => c_expr(cx, hir, errors, *expression),
        ClosureBody::Block(block) => c_block(cx, hir, errors, block),
    }
}

/// The errors of an expression.
pub open spec fn c_expr(
    cx: Shapes,
    hir: ResolvedHir,
    errors: Seq<DiagModel>,
    expression: Expr,
) -> Seq<DiagModel>
    decreases expression, 0int,
{
    match expression.kind {
        ExprKind::Call { callee, args } => {
            let errors = call_errors(cx, hir, errors, *callee, args@.len());
            let errors = c_exprs(cx, hir, errors, args@, 0);
            if callee.kind is Path {
                errors
            } else {
                c_expr(cx, hir, errors, *callee)
            }
        },
        ExprKind::StructLit { fields, .. } => c_fields(
            cx,
            hir,
            literal_errors(cx, hir, errors, expression, field_names(fields@)),
            fields@,
            0,
        ),
        ExprKind::Closure { body, .. } => c_closure_body(cx, hir, errors, body),
        ExprKind::Unary { expr, .. } => c_expr(cx, hir, errors, *expr),
        ExprKind::Try { expr } => c_expr(cx, hir, errors, *expr),
        ExprKind::Binary { lhs, rhs, .. } => c_expr(cx, hir, c_expr(cx, hir, errors, *lhs), *rhs),
        ExprKind::MethodCall { recv, args, .. } => c_exprs(cx, hir, c_expr(cx, hir, errors, *recv), args@, 0),
        ExprKind::Field { base, .. } => c_expr(cx, hir, errors, *base),
        ExprKind::MapLit(entries) => c_pairs(cx, hir, errors, entries@, 0),
        ExprKind::Match { scrut, arms } => c_arms(cx, hir, c_expr(cx, hir, errors, *scrut), arms@, 0),
        ExprKind::Range { start, end, .. } => c_expr(cx, hir, c_expr(cx, hir, errors, *start), *end),
        ExprKind::Index { base, index } => c_expr(cx, hir, c_expr(cx, hir, errors, *base), *index),
        ExprKind::VecLit(elements) => c_exprs(cx, hir, errors, elements@, 0),
        ExprKind::MacroCall { args, .. } => c_exprs(cx, hir, errors, args@, 0),
        ExprKind::If { cond, then_block, else_block } => c_else(cx, hir, c_block(cx, hir, c_expr(cx, hir, errors, *cond), then_block), else_block),
        ExprKind::IfLet { pat, expr, then_block, else_block } => c_else(cx, hir, c_block(cx, hir, c_expr(cx, hir, c_pattern(cx, hir, errors, *pat, expr.span), *expr), then_block), else_block),
        ExprKind::Block(block) => c_block(cx, hir, errors, block),
        ExprKind::Loop(block) => c_block(cx, hir, errors, block),
        ExprKind::Assign { target, value, .. } => c_expr(cx, hir, c_expr(cx, hir, errors, *target), *value),
        _ => errors,
    }
}

/// The errors of the patterns `list[from..]`.
pub open spec fn c_patterns(
    cx: Shapes,
    hir: ResolvedHir,
    errors: Seq<DiagModel>,
    list: Seq<Pattern>,
    span: SourceRange,
    from: int,
) -> Seq<DiagModel>
    decreases list, list.len() - from,
{
    if from < 0 || from >= list.len() {
        errors
    } else {
        c_patterns(cx, hir, c_pattern(cx, hir, errors, list[from], span), list, span, from + 1)
    }
}

/// The errors of the field patterns `list[from..]`.
pub open spec fn c_field_patterns(
    cx: Shapes,
    hir: ResolvedHir,
    errors: Seq<DiagModel>,
    list: Seq<(String, Pattern)>,
    span: SourceRange,
    from: int,
) -> Seq<DiagModel>
    decreases list, list.len() - from,
{
    if from < 0 || from >= list.len() {
        errors
    } else {
        c_field_patterns(cx, hir, c_pattern(cx, hir, errors, list[from].1, span), list, span, from + 1)
    }
}

/// The errors of a pattern.
pub open spec fn c_pattern(
    cx: Shapes,
    hir: ResolvedHir,
    errors: Seq<DiagModel>,
    pattern: Pattern,
    span: SourceRange,
) -> Seq<DiagModel>
    decreases pattern, 0int,
{
    match pattern {
        Pattern::Literal(expression) => c_expr(cx, hir, errors, expression),
        Pattern::Range { lo, hi, .. } => c_expr(cx, hir, c_expr(cx, hir, errors, *lo), *hi),
        Pattern::TupleVariant { id, elems, .. } => c_patterns(
            cx,
            hir,
            tuple_errors(cx, hir, errors, hir.pattern_targets.at(id), elems@.len(), span),
            elems@,
            span,
            0,
        ),
        Pattern::StructVariant { id, fields, .. } => c_field_patterns(
            cx,
            hir,
            struct_errors(
                cx,
                hir,
                errors,
                hir.pattern_targets.at(id),
                pattern_names(fields@),
                span,
            ),
            fields@,
            span,
            0,
        ),
        _ => errors,
    }
}

fn walk_block(
    info: &Info,
    hir: &ResolvedHir,
    block: &Block,
    errors: &mut Vec<Diag>,
)
    ensures
        diags_model(final(errors)@) == c_block(
            info@,
            *hir,
            diags_model(old(errors)@),
            *block,
        ),
    decreases *block, 0int,
{
    walk_stmts(info, hir, &block.stmts, errors);
    if let Some(tail) = &block.tail {
        walk_expr(info, hir, tail, errors);
    }
}

fn walk_stmts(
    info: &Info,
    hir: &ResolvedHir,
    list: &Vec<Stmt>,
    errors: &mut Vec<Diag>,
)
    ensures
        diags_model(final(errors)@) == c_stmts(
            info@,
            *hir,
            diags_model(old(errors)@),
            list@,
            0,
        ),
    decreases *list, 0int,
{
    let ghost start = diags_model(errors@);
    let mut i: usize = 0;
    while i < list.len()
        invariant
            i <= list.len(),
            c_stmts(info@, *hir, diags_model(errors@), list@, i as int) == c_stmts(
                info@,
                *hir,
                start,
                list@,
                0,
            ),
        decreases list.len() - i,
    {
        let ghost before = diags_model(errors@);
        walk_stmt(info, hir, &list[i], errors);
        proof {
            assert(c_stmts(info@, *hir, before, list@, i as int) == c_stmts(
                info@,
                *hir,
                diags_model(errors@),
                list@,
                i + 1,
            ));
        }
        i += 1;
    }
}

fn walk_stmt(
    info: &Info,
    hir: &ResolvedHir,
    statement: &Stmt,
    errors: &mut Vec<Diag>,
)
    ensures
        diags_model(final(errors)@) == c_stmt(
            info@,
            *hir,
            diags_model(old(errors)@),
            *statement,
        ),
    decreases *statement, 0int,
{
    match statement {
        Stmt::Lua { .. } => {},
        Stmt::Let { init, .. } => {
            walk_expr(info, hir, init, errors);
        },
        Stmt::Expr(expression) => {
            walk_expr(info, hir, expression, errors);
        },
        Stmt::Return(value) => {
            if let Some(value) = value {
                walk_expr(info, hir, value, errors);
            }
        },
        Stmt::While { cond, body } => {
            walk_expr(info, hir, cond, errors);
            walk_block(info, hir, body, errors);
        },
        Stmt::Loop { body } => {
            walk_block(info, hir, body, errors);
        },
        Stmt::For { iter, body, .. } => {
            walk_expr(info, hir, iter, errors);
            walk_block(info, hir, body, errors);
        },
        Stmt::WhileLet { pat, expr, body } => {
            check_pattern(info, hir, pat, expr.span, errors);
            walk_expr(info, hir, expr, errors);
            walk_block(info, hir, body, errors);
        },
        Stmt::Break(value) => {
            if let Some(value) = value {
                walk_expr(info, hir, value, errors);
            }
        },
        Stmt::Continue => {},
    }
}

fn walk_exprs(
    info: &Info,
    hir: &ResolvedHir,
    list: &Vec<Expr>,
    errors: &mut Vec<Diag>,
)
    ensures
        diags_model(final(errors)@) == c_exprs(
            info@,
            *hir,
            diags_model(old(errors)@),
            list@,
            0,
        ),
    decreases *list, 0int,
{
    let ghost start = diags_model(errors@);
    let mut i: usize = 0;
    while i < list.len()
        invariant
            i <= list.len(),
            c_exprs(info@, *hir, diags_model(errors@), list@, i as int) == c_exprs(
                info@,
                *hir,
                start,
                list@,
                0,
            ),
        decreases list.len() - i,
    {
        let ghost before = diags_model(errors@);
        walk_expr(info, hir, &list[i], errors);
        proof {
            assert(c_exprs(info@, *hir, before, list@, i as int) == c_exprs(
                info@,
                *hir,
                diags_model(errors@),
                list@,
                i + 1,
            ));
        }
        i += 1;
    }
}

fn walk_fields(
    info: &Info,
    hir: &ResolvedHir,
    list: &Vec<(String, Expr)>,
    errors: &mut Vec<Diag>,
)
    ensures
        diags_model(final(errors)@) == c_fields(
            info@,
            *hir,
            diags_model(old(errors)@),
            list@,
            0,
        ),
    decreases *list, 0int,
{
    let ghost start = diags_model(errors@);
    let mut i: usize = 0;
    while i < list.len()
        invariant
            i <= list.len(),
            c_fields(info@, *hir, diags_model(errors@), list@, i as int) == c_fields(
                info@,
                *hir,
                start,
                list@,
                0,
            ),
        decreases list.len() - i,
    {
        let ghost before = diags_model(errors@);
        walk_expr(info, hir, &list[i].1, errors);
        proof {
            assert(c_fields(info@, *hir, before, list@, i as int) == c_fields(
                info@,
                *hir,
                diags_model(errors@),
                list@,
                i + 1,
            ));
        }
        i += 1;
    }
}

fn walk_pairs(
    info: &Info,
    hir: &ResolvedHir,
    list: &Vec<(Expr, Expr)>,
    errors: &mut Vec<Diag>,
)
    ensures
        diags_model(final(errors)@) == c_pairs(
            info@,
            *hir,
            diags_model(old(errors)@),
            list@,
            0,
        ),
    decreases *list, 0int,
{
    let ghost start = diags_model(errors@);
    let mut i: usize = 0;
    while i < list.len()
        invariant
            i <= list.len(),
            c_pairs(info@, *hir, diags_model(errors@), list@, i as int) == c_pairs(
                info@,
                *hir,
                start,
                list@,
                0,
            ),
        decreases list.len() - i,
    {
        let ghost before = diags_model(errors@);
        walk_expr(info, hir, &list[i].0, errors);
        walk_expr(info, hir, &list[i].1, errors);
        proof {
            assert(c_pairs(info@, *hir, before, list@, i as int) == c_pairs(
                info@,
                *hir,
                diags_model(errors@),
                list@,
                i + 1,
            ));
        }
        i += 1;
    }
}

fn walk_arms(
    info: &Info,
    hir: &ResolvedHir,
    list: &Vec<MatchArm>,
    errors: &mut Vec<Diag>,
)
    ensures
        diags_model(final(errors)@) == c_arms(
            info@,
            *hir,
            diags_model(old(errors)@),
            list@,
            0,
        ),
    decreases *list, 0int,
{
    let ghost start = diags_model(errors@);
    let mut i: usize = 0;
    while i < list.len()
        invariant
            i <= list.len(),
            c_arms(info@, *hir, diags_model(errors@), list@, i as int) == c_arms(
                info@,
                *hir,
                start,
                list@,
                0,
            ),
        decreases list.len() - i,
    {
        let ghost before = diags_model(errors@);
        walk_arm(info, hir, &list[i], errors);
        proof {
            assert(c_arms(info@, *hir, before, list@, i as int) == c_arms(
                info@,
                *hir,
                diags_model(errors@),
                list@,
                i + 1,
            ));
        }
        i += 1;
    }
}

fn walk_arm(
    info: &Info,
    hir: &ResolvedHir,
    arm: &MatchArm,
    errors: &mut Vec<Diag>,
)
    ensures
        diags_model(final(errors)@) == c_arm(
            info@,
            *hir,
            diags_model(old(errors)@),
            *arm,
        ),
    decreases *arm, 0int,
{
    check_patterns(info, hir, &arm.pats, arm.body.span, errors);
    if let Some(guard) = &arm.guard {
        walk_expr(info, hir, guard, errors);
    }
    walk_expr(info, hir, &arm.body, errors);
}

fn walk_else(
    info: &Info,
    hir: &ResolvedHir,
    branch: &Option<Box<ElseBranch>>,
    errors: &mut Vec<Diag>,
)
    ensures
        diags_model(final(errors)@) == c_else(
            info@,
            *hir,
            diags_model(old(errors)@),
            *branch,
        ),
    decreases *branch, 0int,
{
    match branch {
        Some(branch) => match &**branch {
            ElseBranch::Block(block) => {
                walk_block(info, hir, block, errors);
            },
            ElseBranch::If(expression) => {
                walk_expr(info, hir, expression, errors);
            },
        },
        None => {},
    }
}

fn walk_closure_body(
    info: &Info,
    hir: &ResolvedHir,
    body: &ClosureBody,
    errors: &mut Vec<Diag>,
)
    ensures
        diags_model(final(errors)@) == c_closure_body(
            info@,
            *hir,
            diags_model(old(errors)@),
            *body,
        ),
    decreases *body, 0int,
{
    match body {
        ClosureBody::Expr(expression) => {
            walk_expr(info, hir, expression, errors);
        },
        ClosureBody::Block(block) => {
            walk_block(info, hir, block, errors);
        },
    }
}

fn walk_expr(
    info: &Info,
    hir: &ResolvedHir,
    expression: &Expr,
    errors: &mut Vec<Diag>,
)
    ensures
        diags_model(final(errors)@) == c_expr(
            info@,
            *hir,
            diags_model(old(errors)@),
            *expression,
        ),
    decreases *expression, 0int,
{
    match &expression.kind {
        ExprKind::Call { callee, args } => {
            check_call(info, hir, callee, args.len(), errors);
            walk_exprs(info, hir, args, errors);
            let is_path = match &callee.kind {
                ExprKind::Path(_) => true,
                _ => false,
            };
            if !is_path {
                walk_expr(info, hir, callee, errors);
            }
        },
        ExprKind::StructLit { fields, .. } => {
            let names = names_of_values(fields);
            check_struct_lit(info, hir, expression, &names, errors);
            walk_fields(info, hir, fields, errors);
        },
        ExprKind::Closure { body, .. } => {
            walk_closure_body(info, hir, body, errors);
        },
        ExprKind::Unary { expr, .. } => {
            walk_expr(info, hir, expr, errors);
        },
        ExprKind::Try { expr } => {
            walk_expr(info, hir, expr, errors);
        },
        ExprKind::Binary { lhs, rhs, .. } => {
            walk_expr(info, hir, lhs, errors);
            walk_expr(info, hir, rhs, errors);
        },
        ExprKind::MethodCall { recv, args, .. } => {
            walk_expr(info, hir, recv, errors);
            walk_exprs(info, hir, args, errors);
        },
        ExprKind::Field { base, .. } => {
            walk_expr(info, hir, base, errors);
        },
        ExprKind::MapLit(entries) => {
            walk_pairs(info, hir, entries, errors);
        },
        ExprKind::Match { scrut, arms } => {
            walk_expr(info, hir, scrut, errors);
            walk_arms(info, hir, arms, errors);
        },
        ExprKind::Range { start, end, .. } => {
            walk_expr(info, hir, start, errors);
            walk_expr(info, hir, end, errors);
        },
        ExprKind::Index { base, index } => {
            walk_expr(info, hir, base, errors);
            walk_expr(info, hir, index, errors);
        },
        ExprKind::VecLit(elements) => {
            walk_exprs(info, hir, elements, errors);
        },
        ExprKind::MacroCall { args, .. } => {
            walk_exprs(info, hir, args, errors);
        },
        ExprKind::If { cond, then_block, else_block } => {
            walk_expr(info, hir, cond, errors);
            walk_block(info, hir, then_block, errors);
            walk_else(info, hir, else_block, errors);
        },
        ExprKind::IfLet { pat, expr, then_block, else_block } => {
            check_pattern(info, hir, pat, expr.span, errors);
            walk_expr(info, hir, expr, errors);
            walk_block(info, hir, then_block, errors);
            walk_else(info, hir, else_block, errors);
        },
        ExprKind::Block(block) => {
            walk_block(info, hir, block, errors);
        },
        ExprKind::Loop(block) => {
            walk_block(info, hir, block, errors);
        },
        ExprKind::Assign { target, value, .. } => {
            walk_expr(info, hir, target, errors);
            walk_expr(info, hir, value, errors);
        },
        _ => {},
    }
}

fn check_patterns(
    info: &Info,
    hir: &ResolvedHir,
    list: &Vec<Pattern>,
    span: SourceRange,
    errors: &mut Vec<Diag>,
)
    ensures
        diags_model(final(errors)@) == c_patterns(
            info@,
            *hir,
            diags_model(old(errors)@),
            list@, span,
            0,
        ),
    decreases *list, 0int,
{
    let ghost start = diags_model(errors@);
    let mut i: usize = 0;
    while i < list.len()
        invariant
            i <= list.len(),
            c_patterns(info@, *hir, diags_model(errors@), list@, span, i as int) == c_patterns(
                info@,
                *hir,
                start,
                list@, span,
                0,
            ),
        decreases list.len() - i,
    {
        let ghost before = diags_model(errors@);
        check_pattern(info, hir, &list[i], span, errors);
        proof {
            assert(c_patterns(info@, *hir, before, list@, span, i as int) == c_patterns(
                info@,
                *hir,
                diags_model(errors@),
                list@, span,
                i + 1,
            ));
        }
        i += 1;
    }
}

fn check_field_patterns(
    info: &Info,
    hir: &ResolvedHir,
    list: &Vec<(String, Pattern)>,
    span: SourceRange,
    errors: &mut Vec<Diag>,
)
    ensures
        diags_model(final(errors)@) == c_field_patterns(
            info@,
            *hir,
            diags_model(old(errors)@),
            list@, span,
            0,
        ),
    decreases *list, 0int,
{
    let ghost start = diags_model(errors@);
    let mut i: usize = 0;
    while i < list.len()
        invariant
            i <= list.len(),
            c_field_patterns(info@, *hir, diags_model(errors@), list@, span, i as int) == c_field_patterns(
                info@,
                *hir,
                start,
                list@, span,
                0,
            ),
        decreases list.len() - i,
    {
        let ghost before = diags_model(errors@);
        check_pattern(info, hir, &list[i].1, span, errors);
        proof {
            assert(c_field_patterns(info@, *hir, before, list@, span, i as int) == c_field_patterns(
                info@,
                *hir,
                diags_model(errors@),
                list@, span,
                i + 1,
            ));
        }
        i += 1;
    }
}

fn check_pattern(
    info: &Info,
    hir: &ResolvedHir,
    pattern: &Pattern,
    span: SourceRange,
    errors: &mut Vec<Diag>,
)
    ensures
        diags_model(final(errors)@) == c_pattern(
            info@,
            *hir,
            diags_model(old(errors)@),
            *pattern, span,
        ),
    decreases *pattern, 0int,
{
    match pattern {
        Pattern::Literal(expression) => {
            walk_expr(info, hir, expression, errors);
        },
        Pattern::Range { lo, hi, .. } => {
            walk_expr(info, hir, lo, errors);
            walk_expr(info, hir, hi, errors);
        },
        Pattern::TupleVariant { id, elems, .. } => {
            let target = target_of_pattern(hir, *id);
            check_tuple_pattern(info, hir, target, elems.len(), span, errors);
            check_patterns(info, hir, elems, span, errors);
        },
        Pattern::StructVariant { id, fields, .. } => {
            let target = target_of_pattern(hir, *id);
            let names = names_of_patterns(fields);
            check_struct_pattern(info, hir, target, &names, span, errors);
            check_field_patterns(info, hir, fields, span, errors);
        },
        _ => {},
    }
}

// ---------------------------------------------------------------------------
// Items.
// ---------------------------------------------------------------------------

/// The errors of the methods `list[from..]`.
pub open spec fn c_methods(
    cx: Shapes,
    hir: ResolvedHir,
    errors: Seq<DiagModel>,
    list: Seq<FnDecl>,
    from: int,
) -> Seq<DiagModel>
    decreases list.len() - from,
{
    if from < 0 || from >= list.len() {
        errors
    } else {
        c_methods(cx, hir, c_block(cx, hir, errors, list[from].body), list, from + 1)
    }
}

/// The errors of the default methods `list[from..]`.
pub open spec fn c_defaults(
    cx: Shapes,
    hir: ResolvedHir,
    errors: Seq<DiagModel>,
    list: Seq<TraitMethod>,
    from: int,
) -> Seq<DiagModel>
    decreases list.len() - from,
{
    if from < 0 || from >= list.len() {
        errors
    } else {
        let next = match list[from].default {
            Some(body) => c_block(cx, hir, errors, body),
            None => errors,
        };
        c_defaults(cx, hir, next, list, from + 1)
    }
}

/// The errors in the bodies of the items `items[from..]`, modules included.
pub open spec fn c_items(
    cx: Shapes,
    hir: ResolvedHir,
    errors: Seq<DiagModel>,
    items: Seq<Item>,
    from: int,
) -> Seq<DiagModel>
    decreases items, items.len() - from,
{
    if from < 0 || from >= items.len() {
        errors
    } else {
        let next = match items[from] {
            Item::Fn(function) => c_block(cx, hir, errors, function.body),
            Item::Impl(implementation) => c_methods(cx, hir, errors, implementation.methods@, 0),
            Item::Trait(declaration) => c_defaults(cx, hir, errors, declaration.methods@, 0),
            Item::Mod(child) => c_block(
                cx,
                hir,
                c_items(cx, hir, errors, child.items@, 0),
                child.chunk,
            ),
            _ => errors,
        };
        c_items(cx, hir, next, items, from + 1)
    }
}

/// The bounds `bounds[from..]` that name no trait.
pub open spec fn bound_errors(
    hir: ResolvedHir,
    errors: Seq<DiagModel>,
    parameter: Seq<char>,
    bounds: Seq<TraitRef>,
    from: int,
) -> Seq<DiagModel>
    decreases bounds.len() - from,
{
    if from < 0 || from >= bounds.len() {
        errors
    } else {
        let path = bounds[from].path@;
        bound_errors(
            hir,
            if hir.trait_ref_targets.at(bounds[from].id) is Some {
                errors
            } else {
                errors.push(
                    bare_diag(
                        DiagnosticCode::TypeUnsatisfiedTraitBound,
                        "unknown trait `"@ + path + "` in bound `"@ + parameter + ": "@ + path
                            + "`"@,
                    ),
                )
            },
            parameter,
            bounds,
            from + 1,
        )
    }
}

/// The bounds of the parameters `list[from..]`.
pub open spec fn generic_errors(
    hir: ResolvedHir,
    errors: Seq<DiagModel>,
    list: Seq<GenericParam>,
    from: int,
) -> Seq<DiagModel>
    decreases list.len() - from,
{
    if from < 0 || from >= list.len() {
        errors
    } else {
        generic_errors(
            hir,
            bound_errors(hir, errors, list[from].name@, list[from].bounds@, 0),
            list,
            from + 1,
        )
    }
}

/// The bounds of the methods `list[from..]`.
pub open spec fn method_bounds(
    hir: ResolvedHir,
    errors: Seq<DiagModel>,
    list: Seq<FnDecl>,
    from: int,
) -> Seq<DiagModel>
    decreases list.len() - from,
{
    if from < 0 || from >= list.len() {
        errors
    } else {
        method_bounds(hir, generic_errors(hir, errors, list[from].generics@, 0), list, from + 1)
    }
}

/// The bounds of the trait methods `list[from..]`.
pub open spec fn trait_method_bounds(
    hir: ResolvedHir,
    errors: Seq<DiagModel>,
    list: Seq<TraitMethod>,
    from: int,
) -> Seq<DiagModel>
    decreases list.len() - from,
{
    if from < 0 || from >= list.len() {
        errors
    } else {
        trait_method_bounds(
            hir,
            generic_errors(hir, errors, list[from].generics@, 0),
            list,
            from + 1,
        )
    }
}

/// The bounds of the host functions `list[from..]`.
pub open spec fn extern_bounds(
    hir: ResolvedHir,
    errors: Seq<DiagModel>,
    list: Seq<ExternFn>,
    from: int,
) -> Seq<DiagModel>
    decreases list.len() - from,
{
    if from < 0 || from >= list.len() {
        errors
    } else {
        extern_bounds(hir, generic_errors(hir, errors, list[from].generics@, 0), list, from + 1)
    }
}

/// The bounds of the items `items[from..]`, modules included.
pub open spec fn item_bounds(
    hir: ResolvedHir,
    errors: Seq<DiagModel>,
    module: ModuleId,
    items: Seq<Item>,
    from: int,
) -> Seq<DiagModel>
    decreases items, items.len() - from,
{
    if from < 0 || from >= items.len() {
        errors
    } else {
        let next = match items[from] {
            Item::Fn(function) => generic_errors(hir, errors, function.generics@, 0),
            Item::Struct(structure) => generic_errors(hir, errors, structure.generics@, 0),
            Item::Enum(enumeration) => generic_errors(hir, errors, enumeration.generics@, 0),
            Item::Trait(declaration) => trait_method_bounds(
                hir,
                generic_errors(hir, errors, declaration.generics@, 0),
                declaration.methods@,
                0,
            ),
            Item::Impl(implementation) => method_bounds(
                hir,
                generic_errors(hir, errors, implementation.generics@, 0),
                implementation.methods@,
                0,
            ),
            Item::Extern(block) => extern_bounds(hir, errors, block.fns@, 0),
            Item::Mod(child) => match child_module(hir@, module, child.name@) {
                Some(inner) => item_bounds(hir, errors, inner, child.items@, 0),
                None => errors,
            },
            _ => errors,
        };
        item_bounds(hir, next, module, items, from + 1)
    }
}

/// The adapters `list[from..]` that cannot work.
pub open spec fn adapter_errors(
    hir: ResolvedHir,
    errors: Seq<DiagModel>,
    list: Seq<ExternFn>,
    from: int,
) -> Seq<DiagModel>
    decreases list.len() - from,
{
    if from < 0 || from >= list.len() {
        errors
    } else {
        let function = list[from];
        let errors = if function.variadic {
            errors.push(
                at_code(
                    DiagnosticCode::TypeInvalidFfiAdapter,
                    function.name_span,
                    "`lua-result` adapters cannot be variadic"@,
                ),
            )
        } else {
            errors
        };
        let fits = match function.ret {
            Some(ty) => hir.spec_type_is_builtin(ty, BuiltinId::TypeResult),
            None => false,
        };
        let errors = if fits {
            errors
        } else {
            errors.push(
                at_code(
                    DiagnosticCode::TypeInvalidFfiAdapter,
                    function.name_span,
                    "`lua-result` adapter must return builtin `Result<T, E>`"@,
                ),
            )
        };
        adapter_errors(hir, errors, list, from + 1)
    }
}

/// The adapters of the items `items[from..]`, modules included.
pub open spec fn item_adapters(
    hir: ResolvedHir,
    errors: Seq<DiagModel>,
    module: ModuleId,
    items: Seq<Item>,
    from: int,
) -> Seq<DiagModel>
    decreases items, items.len() - from,
{
    if from < 0 || from >= items.len() {
        errors
    } else {
        let next = match items[from] {
            Item::Extern(block) => if block.abi@ == "lua-result"@ {
                adapter_errors(hir, errors, block.fns@, 0)
            } else {
                errors
            },
            Item::Mod(child) => match hir.item_targets.at((module, from as usize)) {
                Some(ResolvedTarget::Module(inner)) => item_adapters(
                    hir,
                    errors,
                    inner,
                    child.items@,
                    0,
                ),
                _ => errors,
            },
            _ => errors,
        };
        item_adapters(hir, next, module, items, from + 1)
    }
}

/// The first argument of a name, from `from` on.
pub open spec fn argument_of(
    arguments: Seq<(Seq<char>, Seq<char>)>,
    name: Seq<char>,
    from: int,
) -> Seq<char>
    decreases arguments.len() - from,
{
    if from < 0 || from >= arguments.len() {
        "<unknown>"@
    } else if arguments[from].0 == name {
        arguments[from].1
    } else {
        argument_of(arguments, name, from + 1)
    }
}

/// The number that a text writes; zero where it writes none.
pub open spec fn line_number(text: Seq<char>) -> int {
    let digits = if text.len() > 0 && text[0] == '+' {
        text.skip(1)
    } else {
        text
    };
    match digits_value(digits, 10) {
        Some(value) => if digits.len() > 0 && value <= usize::MAX {
            value
        } else {
            0
        },
        None => 0,
    }
}

/// The message of a resolution diagnostic, where it has one.
pub open spec fn resolution_message(diagnostic: DiagRecord) -> Option<Seq<char>> {
    let arguments = diagnostic.arguments;
    let name = argument_of(arguments, "name"@, 0);
    let owner = argument_of(arguments, "owner"@, 0);
    let kind = argument_of(arguments, "kind"@, 0);
    let member = argument_of(arguments, "member"@, 0);
    match diagnostic.code {
        DiagnosticCode::NameUnresolved => Some("cannot resolve name `"@ + name + "`"@),
        DiagnosticCode::NameUnknownMember => Some(
            if kind == "enum"@ {
                "enum `"@ + owner + "` has no variant `"@ + member + "`"@
            } else {
                "`"@ + owner + "` has no member `"@ + member + "`"@
            },
        ),
        DiagnosticCode::NamePrivateAccess => Some("`"@ + name + "` is private to "@ + owner),
        DiagnosticCode::NameDuplicateDefinition => Some(
            if kind == "variant"@ {
                "duplicate variant `"@ + name + "` in enum `"@ + owner + "`"@
            } else if owner.len() == 0 {
                "duplicate top-level definition `"@ + name + "`"@
            } else {
                "duplicate definition `"@ + name + "` in module `"@ + owner + "`"@
            },
        ),
        DiagnosticCode::TypeImmutableAssignment => Some(
            "cannot assign to immutable binding `"@ + name + "`"@,
        ),
        _ => None,
    }
}

/// A resolution diagnostic with its message.
pub open spec fn resolution_diag(diagnostic: DiagRecord, message: Seq<char>) -> DiagModel {
    let (start, len) = match diagnostic.range {
        Some(range) => (range.start as usize, range.len as usize),
        None => (0usize, 0usize),
    };
    diag_at(
        diagnostic.code,
        match diagnostic.file {
            Some(file) => file,
            None => 0,
        },
        start,
        len,
        line_number(argument_of(diagnostic.arguments, "line"@, 0)) as usize,
        message,
    )
}

/// The resolution diagnostics `list[from..]` with their messages.
pub open spec fn resolution_errors(
    errors: Seq<DiagModel>,
    list: Seq<DiagRecord>,
    from: int,
) -> Seq<DiagModel>
    decreases list.len() - from,
{
    if from < 0 || from >= list.len() {
        errors
    } else {
        resolution_errors(
            match resolution_message(list[from]) {
                Some(message) => errors.push(resolution_diag(list[from], message)),
                None => errors,
            },
            list,
            from + 1,
        )
    }
}

/// Everything that the structural checks report of a resolved program.
pub open spec fn structural_errors(program: Program, hir: ResolvedHir) -> Seq<DiagModel> {
    let items = program.items@;
    let (errors, cx) = shapes_of(
        hir,
        Seq::empty(),
        hir.root,
        items,
        0,
        Shapes { structs: Map::empty(), variants: Map::empty() },
    );
    let errors = resolution_errors(errors, hir@.diagnostics, 0);
    let errors = c_items(cx, hir, errors, items, 0);
    let errors = c_block(cx, hir, errors, program.chunk);
    let errors = item_bounds(hir, errors, hir.root, items, 0);
    item_adapters(hir, errors, hir.root, items, 0)
}

fn walk_methods(info: &Info, hir: &ResolvedHir, list: &Vec<FnDecl>, errors: &mut Vec<Diag>)
    ensures
        diags_model(final(errors)@) == c_methods(
            info@,
            *hir,
            diags_model(old(errors)@),
            list@,
            0,
        ),
{
    let ghost start = diags_model(errors@);
    let mut i: usize = 0;
    while i < list.len()
        invariant
            i <= list.len(),
            c_methods(info@, *hir, diags_model(errors@), list@, i as int) == c_methods(
                info@,
                *hir,
                start,
                list@,
                0,
            ),
        decreases list.len() - i,
    {
        walk_block(info, hir, &list[i].body, errors);
        i += 1;
    }
}

fn walk_defaults(info: &Info, hir: &ResolvedHir, list: &Vec<TraitMethod>, errors: &mut Vec<Diag>)
    ensures
        diags_model(final(errors)@) == c_defaults(
            info@,
            *hir,
            diags_model(old(errors)@),
            list@,
            0,
        ),
{
    let ghost start = diags_model(errors@);
    let mut i: usize = 0;
    while i < list.len()
        invariant
            i <= list.len(),
            c_defaults(info@, *hir, diags_model(errors@), list@, i as int) == c_defaults(
                info@,
                *hir,
                start,
                list@,
                0,
            ),
        decreases list.len() - i,
    {
        if let Some(body) = &list[i].default {
            walk_block(info, hir, body, errors);
        }
        i += 1;
    }
}

fn walk_items(info: &Info, hir: &ResolvedHir, items: &Vec<Item>, errors: &mut Vec<Diag>)
    ensures
        diags_model(final(errors)@) == c_items(
            info@,
            *hir,
            diags_model(old(errors)@),
            items@,
            0,
        ),
    decreases *items,
{
    let ghost start = diags_model(errors@);
    let mut i: usize = 0;
    while i < items.len()
        invariant
            i <= items.len(),
            c_items(info@, *hir, diags_model(errors@), items@, i as int) == c_items(
                info@,
                *hir,
                start,
                items@,
                0,
            ),
        decreases items.len() - i,
    {
        match &items[i] {
            Item::Fn(function) => {
                walk_block(info, hir, &function.body, errors);
            },
            Item::Impl(implementation) => {
                walk_methods(info, hir, &implementation.methods, errors);
            },
            Item::Trait(declaration) => {
                walk_defaults(info, hir, &declaration.methods, errors);
            },
            Item::Mod(child) => {
                walk_items(info, hir, &child.items, errors);
                walk_block(info, hir, &child.chunk, errors);
            },
            _ => {},
        }
        i += 1;
    }
}

fn check_bound_list(
    hir: &ResolvedHir,
    parameter: &str,
    bounds: &Vec<TraitRef>,
    errors: &mut Vec<Diag>,
)
    ensures
        diags_model(final(errors)@) == bound_errors(
            *hir,
            diags_model(old(errors)@),
            parameter@,
            bounds@,
            0,
        ),
{
    let ghost start = diags_model(errors@);
    let mut i: usize = 0;
    while i < bounds.len()
        invariant
            i <= bounds.len(),
            bound_errors(*hir, diags_model(errors@), parameter@, bounds@, i as int)
                == bound_errors(*hir, start, parameter@, bounds@, 0),
        decreases bounds.len() - i,
    {
        if !hir.trait_ref_targets.has(&bounds[i].id) {
            let path = bounds[i].path.as_str();
            let head = cat4("unknown trait `", path, "` in bound `", parameter);
            push_diag(
                errors,
                Diag::bare(
                    DiagnosticCode::TypeUnsatisfiedTraitBound,
                    cat4(head.as_str(), ": ", path, "`"),
                ),
            );
        }
        i += 1;
    }
}

fn check_generics(hir: &ResolvedHir, list: &Vec<GenericParam>, errors: &mut Vec<Diag>)
    ensures
        diags_model(final(errors)@) == generic_errors(*hir, diags_model(old(errors)@), list@, 0),
{
    let ghost start = diags_model(errors@);
    let mut i: usize = 0;
    while i < list.len()
        invariant
            i <= list.len(),
            generic_errors(*hir, diags_model(errors@), list@, i as int) == generic_errors(
                *hir,
                start,
                list@,
                0,
            ),
        decreases list.len() - i,
    {
        check_bound_list(hir, list[i].name.as_str(), &list[i].bounds, errors);
        i += 1;
    }
}

fn check_bounds(hir: &ResolvedHir, module: ModuleId, items: &Vec<Item>, errors: &mut Vec<Diag>)
    ensures
        diags_model(final(errors)@) == item_bounds(
            *hir,
            diags_model(old(errors)@),
            module,
            items@,
            0,
        ),
    decreases *items,
{
    let ghost start = diags_model(errors@);
    let mut i: usize = 0;
    while i < items.len()
        invariant
            i <= items.len(),
            item_bounds(*hir, diags_model(errors@), module, items@, i as int) == item_bounds(
                *hir,
                start,
                module,
                items@,
                0,
            ),
        decreases items.len() - i,
    {
        match &items[i] {
            Item::Fn(function) => {
                check_generics(hir, &function.generics, errors);
            },
            Item::Struct(structure) => {
                check_generics(hir, &structure.generics, errors);
            },
            Item::Enum(enumeration) => {
                check_generics(hir, &enumeration.generics, errors);
            },
            Item::Trait(declaration) => {
                check_generics(hir, &declaration.generics, errors);
                let list = &declaration.methods;
                let ghost middle = diags_model(errors@);
                let mut k: usize = 0;
                while k < list.len()
                    invariant
                        k <= list.len(),
                        trait_method_bounds(*hir, diags_model(errors@), list@, k as int)
                            == trait_method_bounds(*hir, middle, list@, 0),
                    decreases list.len() - k,
                {
                    check_generics(hir, &list[k].generics, errors);
                    k += 1;
                }
            },
            Item::Impl(implementation) => {
                check_generics(hir, &implementation.generics, errors);
                let list = &implementation.methods;
                let ghost middle = diags_model(errors@);
                let mut k: usize = 0;
                while k < list.len()
                    invariant
                        k <= list.len(),
                        method_bounds(*hir, diags_model(errors@), list@, k as int)
                            == method_bounds(*hir, middle, list@, 0),
                    decreases list.len() - k,
                {
                    check_generics(hir, &list[k].generics, errors);
                    k += 1;
                }
            },
            Item::Extern(block) => {
                let list = &block.fns;
                let ghost middle = diags_model(errors@);
                let mut k: usize = 0;
                while k < list.len()
                    invariant
                        k <= list.len(),
                        extern_bounds(*hir, diags_model(errors@), list@, k as int)
                            == extern_bounds(*hir, middle, list@, 0),
                    decreases list.len() - k,
                {
                    check_generics(hir, &list[k].generics, errors);
                    k += 1;
                }
            },
            Item::Mod(child) => {
                if let Some(inner) = hir.find_child(module, &child.name) {
                    check_bounds(hir, inner, &child.items, errors);
                }
            },
            _ => {},
        }
        i += 1;
    }
}

fn check_adapters(hir: &ResolvedHir, list: &Vec<ExternFn>, errors: &mut Vec<Diag>)
    ensures
        diags_model(final(errors)@) == adapter_errors(*hir, diags_model(old(errors)@), list@, 0),
{
    let ghost start = diags_model(errors@);
    let mut i: usize = 0;
    while i < list.len()
        invariant
            i <= list.len(),
            adapter_errors(*hir, diags_model(errors@), list@, i as int) == adapter_errors(
                *hir,
                start,
                list@,
                0,
            ),
        decreases list.len() - i,
    {
        let function = &list[i];
        if function.variadic {
            push_diag(
                errors,
                diag_for(
                    DiagnosticCode::TypeInvalidFfiAdapter,
                    function.name_span,
                    "`lua-result` adapters cannot be variadic".to_string(),
                ),
            );
        }
        let fits = match &function.ret {
            Some(ty) => hir.type_is_builtin(ty, BuiltinId::TypeResult),
            None => false,
        };
        if !fits {
            push_diag(
                errors,
                diag_for(
                    DiagnosticCode::TypeInvalidFfiAdapter,
                    function.name_span,
                    "`lua-result` adapter must return builtin `Result<T, E>`".to_string(),
                ),
            );
        }
        i += 1;
    }
}

fn check_extern_adapters(
    hir: &ResolvedHir,
    module: ModuleId,
    items: &Vec<Item>,
    errors: &mut Vec<Diag>,
)
    ensures
        diags_model(final(errors)@) == item_adapters(
            *hir,
            diags_model(old(errors)@),
            module,
            items@,
            0,
        ),
    decreases *items,
{
    let ghost start = diags_model(errors@);
    let mut i: usize = 0;
    while i < items.len()
        invariant
            i <= items.len(),
            item_adapters(*hir, diags_model(errors@), module, items@, i as int)
                == item_adapters(*hir, start, module, items@, 0),
        decreases items.len() - i,
    {
        match &items[i] {
            Item::Extern(block) => {
                if same_text(block.abi.as_str(), "lua-result") {
                    check_adapters(hir, &block.fns, errors);
                }
            },
            Item::Mod(child) => {
                if let Some(ResolvedTarget::Module(inner)) = hir.item_targets.get(&(module, i)) {
                    check_extern_adapters(hir, *inner, &child.items, errors);
                }
            },
            _ => {},
        }
        i += 1;
    }
}

fn find_argument<'a>(arguments: &'a Vec<(String, String)>, name: &str) -> (r: &'a str)
    ensures
        r@ == argument_of(arguments_model(arguments@), name@, 0),
{
    let ghost model = arguments_model(arguments@);
    let mut i: usize = 0;
    while i < arguments.len()
        invariant
            i <= arguments.len(),
            model == arguments_model(arguments@),
            argument_of(model, name@, i as int) == argument_of(model, name@, 0),
        decreases arguments.len() - i,
    {
        proof {
            assert(model[i as int] == (arguments@[i as int].0@, arguments@[i as int].1@));
        }
        if same_text(arguments[i].0.as_str(), name) {
            return arguments[i].1.as_str();
        }
        i += 1;
    }
    "<unknown>"
}

fn parse_line(text: &str) -> (r: usize)
    ensures
        r == line_number(text@),
{
    let chars = chars_of(text);
    let from: usize = if chars.len() > 0 && chars[0] == '+' {
        1
    } else {
        0
    };
    let ghost digits = text@.skip(from as int);
    proof {
        if from == 0 {
            assert(digits =~= text@);
        }
    }
    if chars.len() == from {
        return 0;
    }
    let mut value: usize = 0;
    let mut i: usize = from;
    proof {
        assert(digits.take(0) =~= Seq::empty());
    }
    while i < chars.len()
        invariant
            from <= i <= chars.len(),
            chars@ == text@,
            digits == text@.skip(from as int),
            digits == (if text@.len() > 0 && text@[0] == '+' {
                text@.skip(1)
            } else {
                text@
            }),
            digits.len() > 0,
            digits_value(digits.take(i - from), 10) == Some(value as int),
        decreases chars.len() - i,
    {
        let c = chars[i];
        let ghost head = digits.take(i - from + 1);
        proof {
            assert(head.drop_last() =~= digits.take(i - from));
            assert(head.last() == c);
            crate::codegen::syntax::lemma_digits_prefix(digits, 10, i - from + 1);
        }
        if !('0' <= c && c <= '9') {
            proof {
                assert(digits_value(head, 10) is None);
            }
            return 0;
        }
        let digit: usize = (c as u32 - 48) as usize;
        if value > (usize::MAX - digit) / 10 {
            proof {
                assert(value * 10 + digit > usize::MAX) by (nonlinear_arith)
                    requires
                        value > (usize::MAX - digit) / 10,
                        digit <= 9,
                ;
                assert(digits_value(head, 10) == Some(value * 10 + digit));
            }
            return 0;
        }
        proof {
            assert(value * 10 + digit <= usize::MAX) by (nonlinear_arith)
                requires
                    value <= (usize::MAX - digit) / 10,
                    digit <= 9,
            ;
        }
        value = value * 10 + digit;
        i += 1;
    }
    proof {
        assert(digits.take(digits.len() as int) =~= digits);
    }
    value
}

fn message_of(diagnostic: &StructuredDiagnostic) -> (r: Option<String>)
    ensures
        match r {
            Some(message) => resolution_message(diagnostic.record()) == Some(message@),
            None => resolution_message(diagnostic.record()) is None,
        },
{
    let arguments = &diagnostic.arguments;
    let name = find_argument(arguments, "name");
    let owner = find_argument(arguments, "owner");
    let kind = find_argument(arguments, "kind");
    let member = find_argument(arguments, "member");
    match diagnostic.code {
        DiagnosticCode::NameUnresolved => Some(cat3("cannot resolve name `", name, "`")),
        DiagnosticCode::NameUnknownMember => {
            if same_text(kind, "enum") {
                Some(cat5("enum `", owner, "` has no variant `", member, "`"))
            } else {
                Some(cat5("`", owner, "` has no member `", member, "`"))
            }
        },
        DiagnosticCode::NamePrivateAccess => Some(cat4("`", name, "` is private to ", owner)),
        DiagnosticCode::NameDuplicateDefinition => {
            if same_text(kind, "variant") {
                Some(cat5("duplicate variant `", name, "` in enum `", owner, "`"))
            } else if chars_of(owner).len() == 0 {
                Some(cat3("duplicate top-level definition `", name, "`"))
            } else {
                Some(cat5("duplicate definition `", name, "` in module `", owner, "`"))
            }
        },
        DiagnosticCode::TypeImmutableAssignment => Some(
            cat3("cannot assign to immutable binding `", name, "`"),
        ),
        _ => None,
    }
}

fn report_resolution(diagnostics: &Vec<StructuredDiagnostic>, errors: &mut Vec<Diag>)
    ensures
        diags_model(final(errors)@) == resolution_errors(
            diags_model(old(errors)@),
            crate::resolution::model::diag_records(diagnostics@),
            0,
        ),
{
    let ghost start = diags_model(errors@);
    let ghost model = crate::resolution::model::diag_records(diagnostics@);
    let mut i: usize = 0;
    while i < diagnostics.len()
        invariant
            i <= diagnostics.len(),
            model == crate::resolution::model::diag_records(diagnostics@),
            resolution_errors(diags_model(errors@), model, i as int) == resolution_errors(
                start,
                model,
                0,
            ),
        decreases diagnostics.len() - i,
    {
        let diagnostic = &diagnostics[i];
        proof {
            assert(model[i as int] == diagnostic.record());
        }
        if let Some(message) = message_of(diagnostic) {
            let file = match diagnostic.file {
                Some(file) => file,
                None => 0,
            };
            let (start, len) = match diagnostic.range {
                Some(range) => (range.start as usize, range.len as usize),
                None => (0usize, 0usize),
            };
            let line = parse_line(find_argument(&diagnostic.arguments, "line"));
            push_diag(errors, Diag::new(diagnostic.code, file, start, len, line, message));
        }
        i += 1;
    }
}

/// Everything that the structural checks report of a resolved program.
pub fn collect_diags_resolved(program: &Program, hir: &ResolvedHir) -> (r: Vec<Diag>)
    ensures
        diags_model(r@) == structural_errors(*program, *hir),
{
    let mut errors: Vec<Diag> = Vec::new();
    let mut info = Info { structs: Table::new(), variants: Table::new() };
    proof {
        assert(diags_model(errors@) =~= Seq::empty());
        assert(info@.structs =~= Map::empty());
        assert(info@.variants =~= Map::empty());
    }
    collect_shapes(hir, &mut errors, hir.root, &program.items, &mut info);
    report_resolution(&hir.diagnostics, &mut errors);
    walk_items(&info, hir, &program.items, &mut errors);
    walk_block(&info, hir, &program.chunk, &mut errors);
    check_bounds(hir, hir.root, &program.items, &mut errors);
    check_extern_adapters(hir, hir.root, &program.items, &mut errors);
    errors
}

/// Resolves a program and gives everything that the structural checks report.
pub fn collect_diags(program: &Program, builtins: &BuiltinNames) -> (r: Vec<Diag>)
    ensures
        exists|hir: ResolvedHir|
            hir@ == resolved(*program, builtins.types@, builtins.values@, builtins.macros@, builtins.traits@)
                && diags_model(r@) == #[trigger] structural_errors(*program, hir),
{
    let hir = resolve(program, builtins);
    collect_diags_resolved(program, &hir)
}

/// Whether the structural checks accept a resolved program.
pub fn check_resolved(program: &Program, hir: &ResolvedHir) -> (r: Result<(), Vec<Diag>>)
    ensures
        match r {
            Ok(_) => structural_errors(*program, *hir).len() == 0,
            Err(errors) => errors@.len() > 0 && diags_model(errors@) == structural_errors(
                *program,
                *hir,
            ),
        },
{
    let errors = collect_diags_resolved(program, hir);
    proof {
        assert(diags_model(errors@).len() == errors@.len());
    }
    if errors.len() == 0 {
        Ok(())
    } else {
        Err(errors)
    }
}

/// Resolves a program and tells whether the structural checks accept it.
pub fn check(program: &Program, builtins: &BuiltinNames) -> (r: Result<(), Vec<Diag>>)
    ensures
        exists|hir: ResolvedHir|
            hir@ == resolved(*program, builtins.types@, builtins.values@, builtins.macros@, builtins.traits@)
                && match r {
                Ok(_) => (#[trigger] structural_errors(*program, hir)).len() == 0,
                Err(errors) => errors@.len() > 0 && diags_model(errors@) == structural_errors(
                    *program,
                    hir,
                ),
            },
{
    let hir = resolve(program, builtins);
    check_resolved(program, &hir)
}

} // verus!
