//! Checks annotation schemas and instances, and indexes those that hold.

use vstd::prelude::*;

use crate::annotations::{
    parameters_model, values_model, AnnotationParameter, AnnotationParameterType,
    AnnotationRetention, AnnotationTargetKind, AnnotationValue, ValueModel,
};
use crate::ast::{Attribute, Field, Item, MetaItem, MetaValue, Param, Type, Variant};
use crate::diag::{diag_at, diags_model, Diag, DiagModel, DiagnosticCode};
use crate::hir::{DefId, DefKind, ModuleId, Namespace, ResolvedHir, ResolvedTarget, TypeTarget};
use crate::resolution::model::{HirModel, ImportRecord};
use crate::resolution::paths::{path_target, segments_of, split_path};
use crate::table::{with_text, TextSet};
use crate::text::{cat3, same_text, texts};
use crate::token::SourceRange;

verus! {

// ---------------------------------------------------------------------------
// Diagnostics.
// ---------------------------------------------------------------------------

/// The errors with one more.
pub open spec fn error_at(
    errors: Seq<DiagModel>,
    code: DiagnosticCode,
    span: SourceRange,
    message: Seq<char>,
) -> Seq<DiagModel> {
    errors.push(diag_at(code, span.file, span.start, span.len, span.line, message))
}

pub fn push_error(errors: &mut Vec<Diag>, code: DiagnosticCode, span: SourceRange, message: String)
    ensures
        diags_model(final(errors)@) == error_at(diags_model(old(errors)@), code, span, message@),
{
    let ghost before = diags_model(errors@);
    let diag = Diag::new(code, span.file, span.start, span.len, span.line, message);
    errors.push(diag);
    proof {
        assert(diags_model(errors@) =~= before.push(diag.model()));
    }
}

// ---------------------------------------------------------------------------
// Schemas.
// ---------------------------------------------------------------------------

/// The kind of target that a word names.
pub open spec fn kind_named(name: Seq<char>) -> Option<AnnotationTargetKind> {
    if name == "struct"@ {
        Some(AnnotationTargetKind::Struct)
    } else if name == "enum"@ {
        Some(AnnotationTargetKind::Enum)
    } else if name == "function"@ {
        Some(AnnotationTargetKind::Function)
    } else if name == "method"@ {
        Some(AnnotationTargetKind::Method)
    } else if name == "field"@ {
        Some(AnnotationTargetKind::Field)
    } else if name == "variant"@ {
        Some(AnnotationTargetKind::Variant)
    } else if name == "extern_function"@ {
        Some(AnnotationTargetKind::ExternFunction)
    } else {
        None
    }
}

/// The number of a kind of target.
pub open spec fn kind_rank(kind: AnnotationTargetKind) -> int {
    match kind {
        AnnotationTargetKind::Struct => 0,
        AnnotationTargetKind::Enum => 1,
        AnnotationTargetKind::Function => 2,
        AnnotationTargetKind::Method => 3,
        AnnotationTargetKind::Field => 4,
        AnnotationTargetKind::Variant => 5,
        AnnotationTargetKind::ExternFunction => 6,
    }
}

/// A kind of target in a message.
pub open spec fn kind_label(kind: AnnotationTargetKind) -> Seq<char> {
    match kind {
        AnnotationTargetKind::Struct => "Struct"@,
        AnnotationTargetKind::Enum => "Enum"@,
        AnnotationTargetKind::Function => "Function"@,
        AnnotationTargetKind::Method => "Method"@,
        AnnotationTargetKind::Field => "Field"@,
        AnnotationTargetKind::Variant => "Variant"@,
        AnnotationTargetKind::ExternFunction => "ExternFunction"@,
    }
}

/// The kinds with one more, in order and each once.
pub open spec fn with_kind(kinds: Seq<AnnotationTargetKind>, kind: AnnotationTargetKind) -> Seq<
    AnnotationTargetKind,
>
    decreases kinds.len(),
{
    if kinds.len() == 0 || kind_rank(kinds.last()) < kind_rank(kind) {
        kinds.push(kind)
    } else if kinds.last() == kind {
        kinds
    } else {
        with_kind(kinds.drop_last(), kind).push(kinds.last())
    }
}

/// What the attributes of a schema say so far.
pub struct Schema {
    pub targets: Option<Seq<AnnotationTargetKind>>,
    pub retention: AnnotationRetention,
    pub repeatable: bool,
    pub valid: bool,
}

/// The targets that the words `items[from..]` name.
pub open spec fn schema_targets(
    errors: Seq<DiagModel>,
    items: Seq<MetaItem>,
    span: SourceRange,
    from: int,
    kinds: Seq<AnnotationTargetKind>,
    valid: bool,
) -> (Seq<DiagModel>, Seq<AnnotationTargetKind>, bool)
    decreases items.len() - from,
{
    if from < 0 || from >= items.len() {
        (errors, kinds, valid)
    } else {
        match items[from] {
            MetaItem::Word(name) => match kind_named(name@) {
                Some(kind) => schema_targets(
                    errors,
                    items,
                    span,
                    from + 1,
                    with_kind(kinds, kind),
                    valid,
                ),
                None => schema_targets(
                    error_at(
                        errors,
                        DiagnosticCode::AnnotationInvalidSchema,
                        span,
                        "unknown annotation target `"@ + name@ + "`"@,
                    ),
                    items,
                    span,
                    from + 1,
                    kinds,
                    false,
                ),
            },
            _ => schema_targets(
                error_at(
                    errors,
                    DiagnosticCode::AnnotationInvalidSchema,
                    span,
                    "`targets` only accepts target names"@,
                ),
                items,
                span,
                from + 1,
                kinds,
                false,
            ),
        }
    }
}

/// The retention that a word names.
pub open spec fn retention_named(name: Seq<char>) -> Option<AnnotationRetention> {
    if name == "source"@ {
        Some(AnnotationRetention::Source)
    } else if name == "build"@ {
        Some(AnnotationRetention::Build)
    } else if name == "runtime"@ {
        Some(AnnotationRetention::Runtime)
    } else {
        None
    }
}

/// The policy of a retention attribute: one word.
pub open spec fn policy_of(items: Seq<MetaItem>) -> Option<Seq<char>> {
    if items.len() == 1 {
        match items[0] {
            MetaItem::Word(policy) => Some(policy@),
            _ => None,
        }
    } else {
        None
    }
}

/// One attribute of a schema.
pub open spec fn schema_attribute(
    errors: Seq<DiagModel>,
    schema: Schema,
    attribute: Attribute,
    span: SourceRange,
) -> (Seq<DiagModel>, Schema) {
    let invalid = Schema { valid: false, ..schema };
    if attribute.name@ == "targets"@ {
        if schema.targets is Some {
            (
                error_at(
                    errors,
                    DiagnosticCode::AnnotationInvalidSchema,
                    span,
                    "duplicate `targets` schema attribute"@,
                ),
                invalid,
            )
        } else {
            let (errors, kinds, valid) = schema_targets(
                errors,
                attribute.items@,
                span,
                0,
                Seq::empty(),
                schema.valid,
            );
            (errors, Schema { targets: Some(kinds), valid, ..schema })
        }
    } else if attribute.name@ == "retention"@ {
        match policy_of(attribute.items@) {
            Some(policy) => match retention_named(policy) {
                Some(retention) => (errors, Schema { retention, ..schema }),
                None => (
                    error_at(
                        errors,
                        DiagnosticCode::AnnotationInvalidSchema,
                        span,
                        "unknown annotation retention `"@ + policy + "`"@,
                    ),
                    invalid,
                ),
            },
            None => (
                error_at(
                    errors,
                    DiagnosticCode::AnnotationInvalidSchema,
                    span,
                    "`retention` requires one of source, build, or runtime"@,
                ),
                invalid,
            ),
        }
    } else if attribute.name@ == "repeatable"@ && attribute.items@.len() == 0 {
        (errors, Schema { repeatable: true, ..schema })
    } else {
        (
            error_at(
                errors,
                DiagnosticCode::AnnotationInvalidSchema,
                span,
                "unsupported annotation schema attribute `"@ + attribute.name@ + "`"@,
            ),
            invalid,
        )
    }
}

/// The attributes `attributes[from..]` of a schema.
pub open spec fn schema_attributes(
    errors: Seq<DiagModel>,
    schema: Schema,
    attributes: Seq<Attribute>,
    span: SourceRange,
    from: int,
) -> (Seq<DiagModel>, Schema)
    decreases attributes.len() - from,
{
    if from < 0 || from >= attributes.len() {
        (errors, schema)
    } else {
        let (errors, schema) = schema_attribute(errors, schema, attributes[from], span);
        schema_attributes(errors, schema, attributes, span, from + 1)
    }
}

/// The schema that attributes write, where it is valid.
pub open spec fn schema_of(errors: Seq<DiagModel>, attributes: Seq<Attribute>, span: SourceRange) -> (
    Seq<DiagModel>,
    Option<(Seq<AnnotationTargetKind>, AnnotationRetention, bool)>,
) {
    let start = Schema {
        targets: None,
        retention: AnnotationRetention::Build,
        repeatable: false,
        valid: true,
    };
    let (errors, schema) = schema_attributes(errors, start, attributes, span, 0);
    match schema.targets {
        None => (
            error_at(
                errors,
                DiagnosticCode::AnnotationInvalidSchema,
                span,
                "annotation declaration requires `#[targets(...)]`"@,
            ),
            None,
        ),
        Some(targets) => (
            errors,
            if schema.valid {
                Some((targets, schema.retention, schema.repeatable))
            } else {
                None
            },
        ),
    }
}

impl AnnotationTargetKind {
    fn parse(name: &str) -> (r: Option<Self>)
        ensures
            r == kind_named(name@),
    {
        if same_text(name, "struct") {
            Some(AnnotationTargetKind::Struct)
        } else if same_text(name, "enum") {
            Some(AnnotationTargetKind::Enum)
        } else if same_text(name, "function") {
            Some(AnnotationTargetKind::Function)
        } else if same_text(name, "method") {
            Some(AnnotationTargetKind::Method)
        } else if same_text(name, "field") {
            Some(AnnotationTargetKind::Field)
        } else if same_text(name, "variant") {
            Some(AnnotationTargetKind::Variant)
        } else if same_text(name, "extern_function") {
            Some(AnnotationTargetKind::ExternFunction)
        } else {
            None
        }
    }

    fn rank(self) -> (r: u8)
        ensures
            r == kind_rank(self),
    {
        match self {
            AnnotationTargetKind::Struct => 0,
            AnnotationTargetKind::Enum => 1,
            AnnotationTargetKind::Function => 2,
            AnnotationTargetKind::Method => 3,
            AnnotationTargetKind::Field => 4,
            AnnotationTargetKind::Variant => 5,
            AnnotationTargetKind::ExternFunction => 6,
        }
    }

    pub fn label(self) -> (r: &'static str)
        ensures
            r@ == kind_label(self),
    {
        match self {
            AnnotationTargetKind::Struct => "Struct",
            AnnotationTargetKind::Enum => "Enum",
            AnnotationTargetKind::Function => "Function",
            AnnotationTargetKind::Method => "Method",
            AnnotationTargetKind::Field => "Field",
            AnnotationTargetKind::Variant => "Variant",
            AnnotationTargetKind::ExternFunction => "ExternFunction",
        }
    }
}

proof fn lemma_with_kind(kinds: Seq<AnnotationTargetKind>, kind: AnnotationTargetKind, at: int)
    requires
        0 <= at <= kinds.len(),
        at == 0 || kind_rank(kinds[at - 1]) < kind_rank(kind) || kinds[at - 1] == kind,
        forall|i: int|
            at <= i < kinds.len() ==> kind_rank(#[trigger] kinds[i]) > kind_rank(kind),
    ensures
        with_kind(kinds, kind) == if at > 0 && kinds[at - 1] == kind {
            kinds
        } else {
            kinds.insert(at, kind)
        },
    decreases kinds.len(),
{
    if at == kinds.len() {
        if !(at > 0 && kinds[at - 1] == kind) {
            assert(kinds.insert(at, kind) =~= kinds.push(kind));
        }
    } else {
        lemma_with_kind(kinds.drop_last(), kind, at);
        if at > 0 && kinds[at - 1] == kind {
            assert(kinds.drop_last().push(kinds.last()) =~= kinds);
        } else {
            assert(kinds.insert(at, kind) =~= kinds.drop_last().insert(at, kind).push(
                kinds.last(),
            ));
        }
    }
}

fn insert_kind(kinds: &mut Vec<AnnotationTargetKind>, kind: AnnotationTargetKind)
    ensures
        final(kinds)@ == with_kind(old(kinds)@, kind),
{
    let mut at: usize = kinds.len();
    while at > 0 && kinds[at - 1].rank() > kind.rank()
        invariant
            at <= kinds.len(),
            kinds@ == old(kinds)@,
            forall|i: int|
                at <= i < kinds@.len() ==> kind_rank(#[trigger] kinds@[i]) > kind_rank(kind),
        decreases at,
    {
        at -= 1;
    }
    proof {
        if at > 0 && kind_rank(kinds@[at - 1]) == kind_rank(kind) {
            assert(kinds@[at - 1] == kind);
        }
        lemma_with_kind(kinds@, kind, at as int);
    }
    if at > 0 && kinds[at - 1] == kind {
        return ;
    }
    kinds.insert(at, kind);
}

fn parse_targets(errors: &mut Vec<Diag>, items: &Vec<MetaItem>, span: SourceRange, valid: bool) -> (r: (
    Vec<AnnotationTargetKind>,
    bool,
))
    ensures
        (diags_model(final(errors)@), r.0@, r.1) == schema_targets(
            diags_model(old(errors)@),
            items@,
            span,
            0,
            Seq::empty(),
            valid,
        ),
{
    let ghost start = diags_model(errors@);
    let mut kinds: Vec<AnnotationTargetKind> = Vec::new();
    let mut sound = valid;
    let mut i: usize = 0;
    proof {
        assert(kinds@ =~= Seq::empty());
    }
    while i < items.len()
        invariant
            i <= items.len(),
            schema_targets(diags_model(errors@), items@, span, i as int, kinds@, sound)
                == schema_targets(start, items@, span, 0, Seq::empty(), valid),
        decreases items.len() - i,
    {
        match &items[i] {
            MetaItem::Word(name) => match AnnotationTargetKind::parse(name.as_str()) {
                Some(kind) => {
                    insert_kind(&mut kinds, kind);
                },
                None => {
                    push_error(
                        errors,
                        DiagnosticCode::AnnotationInvalidSchema,
                        span,
                        cat3("unknown annotation target `", name.as_str(), "`"),
                    );
                    sound = false;
                },
            },
            _ => {
                push_error(
                    errors,
                    DiagnosticCode::AnnotationInvalidSchema,
                    span,
                    "`targets` only accepts target names".to_string(),
                );
                sound = false;
            },
        }
        i += 1;
    }
    (kinds, sound)
}

fn parse_retention(name: &str) -> (r: Option<AnnotationRetention>)
    ensures
        r == retention_named(name@),
{
    if same_text(name, "source") {
        Some(AnnotationRetention::Source)
    } else if same_text(name, "build") {
        Some(AnnotationRetention::Build)
    } else if same_text(name, "runtime") {
        Some(AnnotationRetention::Runtime)
    } else {
        None
    }
}

fn retention_policy(items: &Vec<MetaItem>) -> (r: Option<&String>)
    ensures
        match r {
            Some(policy) => policy_of(items@) == Some(policy@),
            None => policy_of(items@) is None,
        },
{
    if items.len() != 1 {
        return None;
    }
    match &items[0] {
        MetaItem::Word(policy) => Some(policy),
        _ => None,
    }
}

struct SchemaState {
    targets: Option<Vec<AnnotationTargetKind>>,
    retention: AnnotationRetention,
    repeatable: bool,
    valid: bool,
}

impl SchemaState {
    spec fn view(&self) -> Schema {
        Schema {
            targets: match self.targets {
                Some(kinds) => Some(kinds@),
                None => None,
            },
            retention: self.retention,
            repeatable: self.repeatable,
            valid: self.valid,
        }
    }

    fn attribute(&mut self, errors: &mut Vec<Diag>, attribute: &Attribute, span: SourceRange)
        ensures
            (diags_model(final(errors)@), final(self)@) == schema_attribute(
                diags_model(old(errors)@),
                old(self)@,
                *attribute,
                span,
            ),
    {
        let name = attribute.name.as_str();
        if same_text(name, "targets") {
            if self.targets.is_some() {
                push_error(
                    errors,
                    DiagnosticCode::AnnotationInvalidSchema,
                    span,
                    "duplicate `targets` schema attribute".to_string(),
                );
                self.valid = false;
            } else {
                let (kinds, valid) = parse_targets(errors, &attribute.items, span, self.valid);
                self.targets = Some(kinds);
                self.valid = valid;
            }
        } else if same_text(name, "retention") {
            match retention_policy(&attribute.items) {
                Some(policy) => match parse_retention(policy.as_str()) {
                    Some(retention) => {
                        self.retention = retention;
                    },
                    None => {
                        push_error(
                            errors,
                            DiagnosticCode::AnnotationInvalidSchema,
                            span,
                            cat3("unknown annotation retention `", policy.as_str(), "`"),
                        );
                        self.valid = false;
                    },
                },
                None => {
                    push_error(
                        errors,
                        DiagnosticCode::AnnotationInvalidSchema,
                        span,
                        "`retention` requires one of source, build, or runtime".to_string(),
                    );
                    self.valid = false;
                },
            }
        } else if same_text(name, "repeatable") && attribute.items.len() == 0 {
            self.repeatable = true;
        } else {
            push_error(
                errors,
                DiagnosticCode::AnnotationInvalidSchema,
                span,
                cat3("unsupported annotation schema attribute `", name, "`"),
            );
            self.valid = false;
        }
    }
}

pub fn parse_schema(errors: &mut Vec<Diag>, attributes: &Vec<Attribute>, span: SourceRange) -> (r: Option<
    (Vec<AnnotationTargetKind>, AnnotationRetention, bool),
>)
    ensures
        ({
            let (after, schema) = schema_of(diags_model(old(errors)@), attributes@, span);
            diags_model(final(errors)@) == after && match r {
                Some((kinds, retention, repeatable)) => schema == Some(
                    (kinds@, retention, repeatable),
                ),
                None => schema is None,
            }
        }),
{
    let ghost start = diags_model(errors@);
    let mut state = SchemaState {
        targets: None,
        retention: AnnotationRetention::Build,
        repeatable: false,
        valid: true,
    };
    let ghost first = state@;
    let mut i: usize = 0;
    while i < attributes.len()
        invariant
            i <= attributes.len(),
            schema_attributes(diags_model(errors@), state@, attributes@, span, i as int)
                == schema_attributes(start, first, attributes@, span, 0),
        decreases attributes.len() - i,
    {
        state.attribute(errors, &attributes[i], span);
        i += 1;
    }
    match state.targets {
        None => {
            push_error(
                errors,
                DiagnosticCode::AnnotationInvalidSchema,
                span,
                "annotation declaration requires `#[targets(...)]`".to_string(),
            );
            None
        },
        Some(kinds) => {
            if state.valid {
                Some((kinds, state.retention, state.repeatable))
            } else {
                None
            }
        },
    }
}

// ---------------------------------------------------------------------------
// Parameters.
// ---------------------------------------------------------------------------

/// The type of an annotation parameter, where it is one that annotations have.
pub open spec fn parameter_type(hir: ResolvedHir, ty: Type) -> Option<AnnotationParameterType>
    decreases ty,
{
    match ty {
        Type::Path { id, name, args } => if (name@ == "Vec"@ || name@ == "List"@) && args@.len()
            == 1 {
            match parameter_type(hir, args@[0]) {
                Some(element) => Some(AnnotationParameterType::List(Box::new(element))),
                None => None,
            }
        } else if args@.len() > 0 {
            None
        } else if name@ == "String"@ {
            Some(AnnotationParameterType::String)
        } else if name@ == "bool"@ {
            Some(AnnotationParameterType::Bool)
        } else if name@ == "i64"@ {
            Some(AnnotationParameterType::Integer)
        } else if name@ == "f64"@ {
            Some(AnnotationParameterType::Float)
        } else {
            match hir.type_targets.at(id) {
                Some(TypeTarget::Item(definition)) => if hir.has_definition(definition)
                    && hir.spec_definition(definition).kind == DefKind::Enum {
                    Some(AnnotationParameterType::Enum(definition))
                } else {
                    None
                },
                _ => None,
            }
        },
        _ => None,
    }
}

fn annotation_parameter_type(hir: &ResolvedHir, ty: &Type) -> (r: Option<AnnotationParameterType>)
    ensures
        r == parameter_type(*hir, *ty),
    decreases *ty,
{
    match ty {
        Type::Path { id, name, args } => {
            let text = name.as_str();
            if (same_text(text, "Vec") || same_text(text, "List")) && args.len() == 1 {
                return match annotation_parameter_type(hir, &args[0]) {
                    Some(element) => Some(AnnotationParameterType::List(Box::new(element))),
                    None => None,
                };
            }
            if args.len() > 0 {
                return None;
            }
            if same_text(text, "String") {
                Some(AnnotationParameterType::String)
            } else if same_text(text, "bool") {
                Some(AnnotationParameterType::Bool)
            } else if same_text(text, "i64") {
                Some(AnnotationParameterType::Integer)
            } else if same_text(text, "f64") {
                Some(AnnotationParameterType::Float)
            } else {
                match hir.type_targets.get(id) {
                    Some(TypeTarget::Item(definition)) => match hir.find_definition(*definition) {
                        Some(data) => {
                            if data.kind == DefKind::Enum {
                                Some(AnnotationParameterType::Enum(*definition))
                            } else {
                                None
                            }
                        },
                        None => None,
                    },
                    _ => None,
                }
            }
        },
        _ => None,
    }
}

/// The parameters `params[from..]` checked, and whether all of them hold so far.
pub open spec fn checked_params(
    hir: ResolvedHir,
    errors: Seq<DiagModel>,
    params: Seq<Param>,
    from: int,
    names: Seq<Seq<char>>,
    done: Seq<(Seq<char>, AnnotationParameterType)>,
    valid: bool,
) -> (Seq<DiagModel>, Seq<(Seq<char>, AnnotationParameterType)>, bool)
    decreases params.len() - from,
{
    if from < 0 || from >= params.len() {
        (errors, done, valid)
    } else {
        let parameter = params[from];
        let repeated = names.contains(parameter.name@);
        let errors = if repeated {
            error_at(
                errors,
                DiagnosticCode::AnnotationInvalidSchema,
                parameter.name_span,
                "duplicate annotation parameter `"@ + parameter.name@ + "`"@,
            )
        } else {
            errors
        };
        match parameter_type(hir, parameter.ty) {
            Some(ty) => checked_params(
                hir,
                errors,
                params,
                from + 1,
                with_text(names, parameter.name@),
                done.push((parameter.name@, ty)),
                valid && !repeated,
            ),
            None => checked_params(
                hir,
                error_at(
                    errors,
                    DiagnosticCode::AnnotationInvalidSchema,
                    parameter.name_span,
                    "unsupported type for annotation parameter `"@ + parameter.name@ + "`"@,
                ),
                params,
                from + 1,
                with_text(names, parameter.name@),
                done,
                false,
            ),
        }
    }
}

pub fn check_params(hir: &ResolvedHir, errors: &mut Vec<Diag>, params: &Vec<Param>) -> (r: (
    Vec<AnnotationParameter>,
    bool,
))
    ensures
        (diags_model(final(errors)@), parameters_model(r.0@), r.1) == checked_params(
            *hir,
            diags_model(old(errors)@),
            params@,
            0,
            Seq::empty(),
            Seq::empty(),
            true,
        ),
{
    let ghost start = diags_model(errors@);
    let mut names = TextSet::new();
    let mut out: Vec<AnnotationParameter> = Vec::new();
    let mut valid = true;
    let mut i: usize = 0;
    proof {
        assert(parameters_model(out@) =~= Seq::empty());
    }
    while i < params.len()
        invariant
            i <= params.len(),
            checked_params(
                *hir,
                diags_model(errors@),
                params@,
                i as int,
                names@,
                parameters_model(out@),
                valid,
            ) == checked_params(*hir, start, params@, 0, Seq::empty(), Seq::empty(), true),
        decreases params.len() - i,
    {
        let parameter = &params[i];
        if !names.insert(parameter.name.clone()) {
            push_error(
                errors,
                DiagnosticCode::AnnotationInvalidSchema,
                parameter.name_span,
                cat3("duplicate annotation parameter `", parameter.name.as_str(), "`"),
            );
            valid = false;
        }
        match annotation_parameter_type(hir, &parameter.ty) {
            Some(ty) => {
                let ghost before = parameters_model(out@);
                out.push(AnnotationParameter { name: parameter.name.clone(), ty });
                proof {
                    assert(parameters_model(out@) =~= before.push((parameter.name@, ty)));
                }
            },
            None => {
                push_error(
                    errors,
                    DiagnosticCode::AnnotationInvalidSchema,
                    parameter.name_span,
                    cat3(
                        "unsupported type for annotation parameter `",
                        parameter.name.as_str(),
                        "`",
                    ),
                );
                valid = false;
            },
        }
        i += 1;
    }
    (out, valid)
}

// ---------------------------------------------------------------------------
// Arguments.
// ---------------------------------------------------------------------------

/// The last import of a name into a module, among the first `n`.
pub open spec fn imported(imports: Seq<ImportRecord>, module: ModuleId, name: Seq<char>, n: int) -> Option<
    ResolvedTarget,
>
    decreases n,
{
    if n <= 0 || n > imports.len() {
        None
    } else if imports[n - 1].module == module && imports[n - 1].name == name {
        Some(imports[n - 1].target)
    } else {
        imported(imports, module, name, n - 1)
    }
}

/// What a path in an attribute means: an import under one name, or a path from
/// the module.
pub open spec fn attribute_path(
    hir: HirModel,
    module: ModuleId,
    namespace: Namespace,
    path: Seq<char>,
) -> Option<ResolvedTarget> {
    let segments = segments_of(path);
    if segments.len() == 1 {
        match imported(hir.imports, module, segments[0], hir.imports.len() as int) {
            Some(target) => Some(target),
            None => path_target(hir, module, namespace, segments),
        }
    } else {
        path_target(hir, module, namespace, segments)
    }
}

/// The annotation that an attribute names.
pub open spec fn annotation_named(hir: ResolvedHir, module: ModuleId, name: Seq<char>) -> Option<DefId> {
    match attribute_path(hir@, module, Namespace::Type, name) {
        Some(ResolvedTarget::Item(id)) => if hir.has_definition(id) && hir.spec_definition(id).kind
            == DefKind::Annotation {
            Some(id)
        } else {
            None
        },
        _ => None,
    }
}

/// The value of an argument, where it has the type of its parameter.
pub open spec fn typed_value(
    hir: ResolvedHir,
    module: ModuleId,
    value: MetaValue,
    ty: AnnotationParameterType,
) -> Option<ValueModel>
    decreases value, 0int,
{
    match (ty, value) {
        (AnnotationParameterType::String, MetaValue::String(text)) => Some(
            ValueModel::String(text@),
        ),
        (AnnotationParameterType::Bool, MetaValue::Bool(flag)) => Some(ValueModel::Bool(flag)),
        (AnnotationParameterType::Integer, MetaValue::Integer(number)) => Some(
            ValueModel::Integer(number),
        ),
        (AnnotationParameterType::Float, MetaValue::Float(text)) => Some(ValueModel::Float(text@)),
        (AnnotationParameterType::Enum(owner), MetaValue::Path(path)) => match attribute_path(
            hir@,
            module,
            Namespace::Value,
            path@,
        ) {
            Some(ResolvedTarget::Item(id)) => if hir.has_definition(id) {
                match hir.spec_definition(id).kind {
                    DefKind::EnumVariant { owner: found, .. } => if found == owner {
                        Some(ValueModel::EnumVariant(id))
                    } else {
                        None
                    },
                    _ => None,
                }
            } else {
                None
            },
            _ => None,
        },
        (AnnotationParameterType::List(element), MetaValue::List(values)) => match typed_values(
            hir,
            module,
            values@,
            *element,
            0,
            Seq::empty(),
        ) {
            Some(list) => Some(ValueModel::List(list)),
            None => None,
        },
        _ => None,
    }
}

/// The values `values[from..]`, where all of them have the type.
pub open spec fn typed_values(
    hir: ResolvedHir,
    module: ModuleId,
    values: Seq<MetaValue>,
    ty: AnnotationParameterType,
    from: int,
    done: Seq<ValueModel>,
) -> Option<Seq<ValueModel>>
    decreases values, values.len() - from,
{
    if from < 0 || from >= values.len() {
        Some(done)
    } else {
        match typed_value(hir, module, values[from], ty) {
            Some(value) => typed_values(hir, module, values, ty, from + 1, done.push(value)),
            None => None,
        }
    }
}

fn find_import(hir: &ResolvedHir, module: ModuleId, name: &str) -> (r: Option<ResolvedTarget>)
    ensures
        r == imported(hir@.imports, module, name@, hir@.imports.len() as int),
{
    let ghost model = hir@.imports;
    let mut n: usize = hir.imports.len();
    while n > 0
        invariant
            n <= hir.imports.len(),
            model == hir@.imports,
            imported(model, module, name@, n as int) == imported(
                model,
                module,
                name@,
                model.len() as int,
            ),
        decreases n,
    {
        proof {
            assert(model[n - 1] == hir.imports@[n - 1].record());
        }
        if hir.imports[n - 1].module == module && same_text(
            hir.imports[n - 1].name.as_str(),
            name,
        ) {
            return Some(hir.imports[n - 1].target);
        }
        n -= 1;
    }
    None
}

fn resolve_attribute_path(hir: &ResolvedHir, module: ModuleId, namespace: Namespace, path: &str) -> (r:
    Option<ResolvedTarget>)
    ensures
        r == attribute_path(hir@, module, namespace, path@),
{
    let segments = split_path(path);
    proof {
        assert(texts(segments@).len() == segments@.len());
        assert(texts(segments@)[0] == segments@[0]@);
    }
    if segments.len() == 1 {
        if let Some(target) = find_import(hir, module, segments[0].as_str()) {
            return Some(target);
        }
    }
    hir.resolve_path(module, namespace, &segments)
}

pub fn resolve_annotation(hir: &ResolvedHir, module: ModuleId, name: &str) -> (r: Option<DefId>)
    ensures
        r == annotation_named(*hir, module, name@),
{
    match resolve_attribute_path(hir, module, Namespace::Type, name) {
        Some(ResolvedTarget::Item(id)) => match hir.find_definition(id) {
            Some(data) => {
                if data.kind == DefKind::Annotation {
                    Some(id)
                } else {
                    None
                }
            },
            None => None,
        },
        _ => None,
    }
}

pub fn resolve_value(
    hir: &ResolvedHir,
    module: ModuleId,
    value: &MetaValue,
    ty: &AnnotationParameterType,
) -> (r: Option<AnnotationValue>)
    ensures
        match r {
            Some(found) => typed_value(*hir, module, *value, *ty) == Some(found.model()),
            None => typed_value(*hir, module, *value, *ty) is None,
        },
    decreases *value, 0int,
{
    match (ty, value) {
        (AnnotationParameterType::String, MetaValue::String(text)) => Some(
            AnnotationValue::String(text.clone()),
        ),
        (AnnotationParameterType::Bool, MetaValue::Bool(flag)) => Some(AnnotationValue::Bool(*flag)),
        (AnnotationParameterType::Integer, MetaValue::Integer(number)) => Some(
            AnnotationValue::Integer(*number),
        ),
        (AnnotationParameterType::Float, MetaValue::Float(text)) => Some(
            AnnotationValue::Float(text.clone()),
        ),
        (AnnotationParameterType::Enum(owner), MetaValue::Path(path)) => {
            match resolve_attribute_path(hir, module, Namespace::Value, path.as_str()) {
                Some(ResolvedTarget::Item(id)) => match hir.find_definition(id) {
                    Some(data) => match data.kind {
                        DefKind::EnumVariant { owner: found, .. } => {
                            if found == *owner {
                                Some(AnnotationValue::EnumVariant(id))
                            } else {
                                None
                            }
                        },
                        _ => None,
                    },
                    None => None,
                },
                _ => None,
            }
        },
        (AnnotationParameterType::List(element), MetaValue::List(values)) => {
            match resolve_values(hir, module, values, element) {
                Some(list) => Some(AnnotationValue::List(list)),
                None => None,
            }
        },
        _ => None,
    }
}

fn resolve_values(
    hir: &ResolvedHir,
    module: ModuleId,
    values: &Vec<MetaValue>,
    ty: &AnnotationParameterType,
) -> (r: Option<Vec<AnnotationValue>>)
    ensures
        match r {
            Some(list) => typed_values(*hir, module, values@, *ty, 0, Seq::empty()) == Some(
                values_model(list@),
            ),
            None => typed_values(*hir, module, values@, *ty, 0, Seq::empty()) is None,
        },
    decreases *values, 0int,
{
    let mut out: Vec<AnnotationValue> = Vec::new();
    let mut i: usize = 0;
    proof {
        assert(values_model(out@) =~= Seq::empty());
    }
    while i < values.len()
        invariant
            i <= values.len(),
            typed_values(*hir, module, values@, *ty, i as int, values_model(out@)) == typed_values(
                *hir,
                module,
                values@,
                *ty,
                0,
                Seq::empty(),
            ),
        decreases values.len() - i,
    {
        let ghost before = values_model(out@);
        match resolve_value(hir, module, &values[i], ty) {
            Some(value) => {
                out.push(value);
                proof {
                    assert(values_model(out@) =~= before.push(value.model()));
                    assert(typed_values(*hir, module, values@, *ty, i as int, before)
                        == typed_values(
                        *hir,
                        module,
                        values@,
                        *ty,
                        i + 1,
                        before.push(value.model()),
                    ));
                }
            },
            None => {
                proof {
                    assert(typed_values(*hir, module, values@, *ty, i as int, before) is None);
                }
                return None;
            },
        }
        i += 1;
    }
    Some(out)
}

} // verus!
