//! Collects the annotations of a program.

use vstd::prelude::*;

use crate::annotation_build::{
    annotation_named, check_params, checked_params, error_at, kind_label, parse_schema, push_error,
    resolve_annotation, resolve_value, schema_of, typed_value,
};
use crate::annotations::{
    arguments_model, definitions_model, parameters_model, AnnotationDefinition, AnnotationIndex,
    AnnotationInstance, AnnotationParameter, AnnotationParameterType, AnnotationRetention,
    AnnotationTarget, AnnotationTargetKind, AnnotationValue, DefinitionModel, IndexModel,
    InstanceModel, ValueModel,
};
use crate::ast::{
    AnnotationDecl, Attribute, ExternFn, Field, FnDecl, Item, MetaItem, MetaValue, Program,
    StructDecl, TraitMethod, Variant, VariantKind,
};
use crate::backend_layout::names_of;
use crate::diag::{bare_diag, diags_model, Diag, DiagModel, DiagnosticCode};
use crate::hir::{
    qualified_definition_name, qualified_name, DefId, DefKind, ModuleId, ResolvedHir,
    ResolvedTarget,
};
use crate::order::{text_before, text_is_before};
use crate::table::KeySet;
use crate::text::{cat3, cat4, decimal, decimal_text, same_text};
use crate::token::SourceRange;

verus! {

// ---------------------------------------------------------------------------
// Arguments.
// ---------------------------------------------------------------------------

/// The arguments with one more, in the order of their names. A later one takes
/// the place of an earlier one of the same name.
pub open spec fn with_given(
    given: Seq<(Seq<char>, MetaValue)>,
    name: Seq<char>,
    value: MetaValue,
) -> Seq<(Seq<char>, MetaValue)>
    decreases given.len(),
{
    if given.len() == 0 || text_before(given.last().0, name) {
        given.push((name, value))
    } else if given.last().0 == name {
        given.drop_last().push((name, value))
    } else {
        with_given(given.drop_last(), name, value).push(given.last())
    }
}

/// The place of an argument from `from` on.
pub open spec fn given_at(given: Seq<(Seq<char>, MetaValue)>, name: Seq<char>, from: int) -> Option<int>
    decreases given.len() - from,
{
    if from < 0 || from >= given.len() {
        None
    } else if given[from].0 == name {
        Some(from)
    } else {
        given_at(given, name, from + 1)
    }
}

/// The named arguments among `items[from..]`.
pub open spec fn given_arguments(
    errors: Seq<DiagModel>,
    items: Seq<MetaItem>,
    annotation: Seq<char>,
    span: SourceRange,
    from: int,
    given: Seq<(Seq<char>, MetaValue)>,
    valid: bool,
) -> (Seq<DiagModel>, Seq<(Seq<char>, MetaValue)>, bool)
    decreases items.len() - from,
{
    if from < 0 || from >= items.len() {
        (errors, given, valid)
    } else {
        match items[from] {
            MetaItem::NameValue { name, value } => {
                let repeated = given_at(given, name@, 0) is Some;
                given_arguments(
                    if repeated {
                        error_at(
                            errors,
                            DiagnosticCode::AnnotationInvalidArguments,
                            span,
                            "duplicate annotation argument `"@ + name@ + "`"@,
                        )
                    } else {
                        errors
                    },
                    items,
                    annotation,
                    span,
                    from + 1,
                    with_given(given, name@, value),
                    valid && !repeated,
                )
            },
            _ => given_arguments(
                error_at(
                    errors,
                    DiagnosticCode::AnnotationInvalidArguments,
                    span,
                    "annotation `"@ + annotation + "` requires named arguments"@,
                ),
                items,
                annotation,
                span,
                from + 1,
                given,
                false,
            ),
        }
    }
}

/// The arguments for the parameters `parameters[from..]`, in the order of the
/// schema, and what was given beyond them.
pub open spec fn matched_arguments(
    hir: ResolvedHir,
    module: ModuleId,
    errors: Seq<DiagModel>,
    parameters: Seq<(Seq<char>, AnnotationParameterType)>,
    span: SourceRange,
    from: int,
    given: Seq<(Seq<char>, MetaValue)>,
    done: Seq<(Seq<char>, ValueModel)>,
    valid: bool,
) -> (Seq<DiagModel>, Seq<(Seq<char>, MetaValue)>, Seq<(Seq<char>, ValueModel)>, bool)
    decreases parameters.len() - from,
{
    if from < 0 || from >= parameters.len() {
        (errors, given, done, valid)
    } else {
        let (name, ty) = parameters[from];
        match given_at(given, name, 0) {
            None => matched_arguments(
                hir,
                module,
                error_at(
                    errors,
                    DiagnosticCode::AnnotationInvalidArguments,
                    span,
                    "missing annotation argument `"@ + name + "`"@,
                ),
                parameters,
                span,
                from + 1,
                given,
                done,
                false,
            ),
            Some(at) => match typed_value(hir, module, given[at].1, ty) {
                None => matched_arguments(
                    hir,
                    module,
                    error_at(
                        errors,
                        DiagnosticCode::AnnotationInvalidArguments,
                        span,
                        "annotation argument `"@ + name + "` has the wrong type"@,
                    ),
                    parameters,
                    span,
                    from + 1,
                    given.remove(at),
                    done,
                    false,
                ),
                Some(value) => matched_arguments(
                    hir,
                    module,
                    errors,
                    parameters,
                    span,
                    from + 1,
                    given.remove(at),
                    done.push((name, value)),
                    valid,
                ),
            },
        }
    }
}

/// The arguments `given[from..]` that no parameter takes.
pub open spec fn unknown_arguments(
    errors: Seq<DiagModel>,
    given: Seq<(Seq<char>, MetaValue)>,
    span: SourceRange,
    from: int,
) -> Seq<DiagModel>
    decreases given.len() - from,
{
    if from < 0 || from >= given.len() {
        errors
    } else {
        unknown_arguments(
            error_at(
                errors,
                DiagnosticCode::AnnotationInvalidArguments,
                span,
                "unknown annotation argument `"@ + given[from].0 + "`"@,
            ),
            given,
            span,
            from + 1,
        )
    }
}

/// The arguments of an instance, where they fit the schema.
pub open spec fn valid_arguments(
    hir: ResolvedHir,
    module: ModuleId,
    errors: Seq<DiagModel>,
    definition: DefinitionModel,
    attribute: Attribute,
    span: SourceRange,
) -> (Seq<DiagModel>, Option<Seq<(Seq<char>, ValueModel)>>) {
    let (errors, given, valid) = given_arguments(
        errors,
        attribute.items@,
        definition.qualified_name,
        span,
        0,
        Seq::empty(),
        true,
    );
    let (errors, rest, arguments, valid) = matched_arguments(
        hir,
        module,
        errors,
        definition.parameters,
        span,
        0,
        given,
        Seq::empty(),
        valid,
    );
    (
        unknown_arguments(errors, rest, span, 0),
        if valid && rest.len() == 0 {
            Some(arguments)
        } else {
            None
        },
    )
}

/// Arguments behind references.
spec fn given_model<'a>(list: Seq<(&'a String, &'a MetaValue)>) -> Seq<(Seq<char>, MetaValue)> {
    Seq::new(list.len(), |i: int| (list[i].0@, *list[i].1))
}

proof fn lemma_with_given(
    given: Seq<(Seq<char>, MetaValue)>,
    name: Seq<char>,
    value: MetaValue,
    at: int,
)
    requires
        0 <= at <= given.len(),
        at == 0 || text_before(given[at - 1].0, name) || given[at - 1].0 == name,
        forall|i: int| at <= i < given.len() ==> !text_before((#[trigger] given[i]).0, name),
        forall|i: int| at <= i < given.len() ==> (#[trigger] given[i]).0 != name,
    ensures
        with_given(given, name, value) == if at > 0 && !text_before(given[at - 1].0, name)
            && given[at - 1].0 == name {
            given.update(at - 1, (name, value))
        } else {
            given.insert(at, (name, value))
        },
    decreases given.len(),
{
    if at == given.len() {
        if at > 0 && !text_before(given[at - 1].0, name) && given[at - 1].0 == name {
            assert(given.drop_last().push((name, value)) =~= given.update(at - 1, (name, value)));
        } else {
            assert(given.insert(at, (name, value)) =~= given.push((name, value)));
        }
    } else {
        lemma_with_given(given.drop_last(), name, value, at);
        if at > 0 && !text_before(given[at - 1].0, name) && given[at - 1].0 == name {
            assert(given.drop_last().update(at - 1, (name, value)).push(given.last())
                =~= given.update(at - 1, (name, value)));
        } else {
            assert(given.insert(at, (name, value)) =~= given.drop_last().insert(
                at,
                (name, value),
            ).push(given.last()));
        }
    }
}

fn insert_given<'a>(
    list: &mut Vec<(&'a String, &'a MetaValue)>,
    name: &'a String,
    value: &'a MetaValue,
)
    ensures
        given_model(final(list)@) == with_given(given_model(old(list)@), name@, *value),
{
    let ghost model = given_model(list@);
    let mut at: usize = list.len();
    while at > 0 && !text_is_before(list[at - 1].0.as_str(), name.as_str()) && !same_text(
        list[at - 1].0.as_str(),
        name.as_str(),
    )
        invariant
            at <= list.len(),
            list@ == old(list)@,
            model == given_model(list@),
            forall|i: int| at <= i < model.len() ==> !text_before((#[trigger] model[i]).0, name@),
            forall|i: int| at <= i < model.len() ==> (#[trigger] model[i]).0 != name@,
        decreases at,
    {
        at -= 1;
    }
    proof {
        if at > 0 {
            assert(model[at - 1] == (list@[at - 1].0@, *list@[at - 1].1));
        }
        lemma_with_given(model, name@, *value, at as int);
    }
    if at > 0 && !text_is_before(list[at - 1].0.as_str(), name.as_str()) {
        list.set(at - 1, (name, value));
        proof {
            assert(given_model(list@) =~= model.update(at - 1, (name@, *value)));
        }
    } else {
        list.insert(at, (name, value));
        proof {
            assert(given_model(list@) =~= model.insert(at as int, (name@, *value)));
        }
    }
}

fn find_given<'a>(list: &Vec<(&'a String, &'a MetaValue)>, name: &str) -> (r: Option<usize>)
    ensures
        match r {
            Some(at) => given_at(given_model(list@), name@, 0) == Some(at as int) && at
                < list@.len(),
            None => given_at(given_model(list@), name@, 0) is None,
        },
{
    let ghost model = given_model(list@);
    let mut i: usize = 0;
    while i < list.len()
        invariant
            i <= list.len(),
            model == given_model(list@),
            given_at(model, name@, i as int) == given_at(model, name@, 0),
        decreases list.len() - i,
    {
        proof {
            assert(model[i as int] == (list@[i as int].0@, *list@[i as int].1));
        }
        if same_text(list[i].0.as_str(), name) {
            return Some(i);
        }
        i += 1;
    }
    None
}

fn collect_given<'a>(
    errors: &mut Vec<Diag>,
    items: &'a Vec<MetaItem>,
    annotation: &str,
    span: SourceRange,
) -> (r: (Vec<(&'a String, &'a MetaValue)>, bool))
    ensures
        (diags_model(final(errors)@), given_model(r.0@), r.1) == given_arguments(
            diags_model(old(errors)@),
            items@,
            annotation@,
            span,
            0,
            Seq::empty(),
            true,
        ),
{
    let ghost start = diags_model(errors@);
    let mut given: Vec<(&'a String, &'a MetaValue)> = Vec::new();
    let mut valid = true;
    let mut i: usize = 0;
    proof {
        assert(given_model(given@) =~= Seq::empty());
    }
    while i < items.len()
        invariant
            i <= items.len(),
            given_arguments(
                diags_model(errors@),
                items@,
                annotation@,
                span,
                i as int,
                given_model(given@),
                valid,
            ) == given_arguments(start, items@, annotation@, span, 0, Seq::empty(), true),
        decreases items.len() - i,
    {
        match &items[i] {
            MetaItem::NameValue { name, value } => {
                if find_given(&given, name.as_str()).is_some() {
                    push_error(
                        errors,
                        DiagnosticCode::AnnotationInvalidArguments,
                        span,
                        cat3("duplicate annotation argument `", name.as_str(), "`"),
                    );
                    valid = false;
                }
                insert_given(&mut given, name, value);
            },
            _ => {
                push_error(
                    errors,
                    DiagnosticCode::AnnotationInvalidArguments,
                    span,
                    cat3("annotation `", annotation, "` requires named arguments"),
                );
                valid = false;
            },
        }
        i += 1;
    }
    (given, valid)
}

/// Arguments in the order of the schema, what is left, and whether all fit.
struct Matched<'a> {
    arguments: Vec<(String, AnnotationValue)>,
    rest: Vec<(&'a String, &'a MetaValue)>,
    valid: bool,
}

fn match_arguments<'a>(
    hir: &ResolvedHir,
    module: ModuleId,
    errors: &mut Vec<Diag>,
    parameters: &Vec<AnnotationParameter>,
    span: SourceRange,
    given: Vec<(&'a String, &'a MetaValue)>,
    sound: bool,
) -> (r: Matched<'a>)
    ensures
        (
            diags_model(final(errors)@),
            given_model(r.rest@),
            arguments_model(r.arguments@),
            r.valid,
        ) == matched_arguments(
            *hir,
            module,
            diags_model(old(errors)@),
            parameters_model(parameters@),
            span,
            0,
            given_model(given@),
            Seq::empty(),
            sound,
        ),
{
    let ghost start = diags_model(errors@);
    let ghost model = parameters_model(parameters@);
    let ghost first = given_model(given@);
    let mut rest = given;
    let mut arguments: Vec<(String, AnnotationValue)> = Vec::new();
    let mut valid = sound;
    let mut i: usize = 0;
    proof {
        assert(arguments_model(arguments@) =~= Seq::empty());
    }
    while i < parameters.len()
        invariant
            i <= parameters.len(),
            model == parameters_model(parameters@),
            matched_arguments(
                *hir,
                module,
                diags_model(errors@),
                model,
                span,
                i as int,
                given_model(rest@),
                arguments_model(arguments@),
                valid,
            ) == matched_arguments(*hir, module, start, model, span, 0, first, Seq::empty(), sound),
        decreases parameters.len() - i,
    {
        let parameter = &parameters[i];
        let name = parameter.name.as_str();
        proof {
            assert(model[i as int] == (parameter.name@, parameter.ty));
        }
        match find_given(&rest, name) {
            None => {
                push_error(
                    errors,
                    DiagnosticCode::AnnotationInvalidArguments,
                    span,
                    cat3("missing annotation argument `", name, "`"),
                );
                valid = false;
            },
            Some(at) => {
                let ghost before = given_model(rest@);
                proof {
                    assert(before[at as int] == (rest@[at as int].0@, *rest@[at as int].1));
                }
                let value = resolve_value(hir, module, rest[at].1, &parameter.ty);
                let _ = rest.remove(at);
                proof {
                    assert(given_model(rest@) =~= before.remove(at as int));
                }
                match value {
                    None => {
                        push_error(
                            errors,
                            DiagnosticCode::AnnotationInvalidArguments,
                            span,
                            cat3("annotation argument `", name, "` has the wrong type"),
                        );
                        valid = false;
                    },
                    Some(value) => {
                        let ghost done = arguments_model(arguments@);
                        arguments.push((parameter.name.clone(), value));
                        proof {
                            assert(arguments_model(arguments@) =~= done.push(
                                (parameter.name@, value.model()),
                            ));
                        }
                    },
                }
            },
        }
        i += 1;
    }
    Matched { arguments, rest, valid }
}

fn validate_arguments(
    hir: &ResolvedHir,
    module: ModuleId,
    errors: &mut Vec<Diag>,
    definition: &AnnotationDefinition,
    attribute: &Attribute,
    span: SourceRange,
) -> (r: Option<Vec<(String, AnnotationValue)>>)
    ensures
        ({
            let (after, arguments) = valid_arguments(
                *hir,
                module,
                diags_model(old(errors)@),
                definition.model(),
                *attribute,
                span,
            );
            diags_model(final(errors)@) == after && match r {
                Some(list) => arguments == Some(arguments_model(list@)),
                None => arguments is None,
            }
        }),
{
    let (given, valid) = collect_given(
        errors,
        &attribute.items,
        definition.qualified_name.as_str(),
        span,
    );
    let matched = match_arguments(hir, module, errors, &definition.parameters, span, given, valid);
    let ghost middle = diags_model(errors@);
    let ghost rest = given_model(matched.rest@);
    let mut i: usize = 0;
    while i < matched.rest.len()
        invariant
            i <= matched.rest.len(),
            rest == given_model(matched.rest@),
            unknown_arguments(diags_model(errors@), rest, span, i as int) == unknown_arguments(
                middle,
                rest,
                span,
                0,
            ),
        decreases matched.rest.len() - i,
    {
        proof {
            assert(rest[i as int].0 == matched.rest@[i as int].0@);
        }
        push_error(
            errors,
            DiagnosticCode::AnnotationInvalidArguments,
            span,
            cat3("unknown annotation argument `", matched.rest[i].0.as_str(), "`"),
        );
        i += 1;
    }
    if matched.valid && matched.rest.len() == 0 {
        Some(matched.arguments)
    } else {
        None
    }
}

// ---------------------------------------------------------------------------
// Attributes.
// ---------------------------------------------------------------------------

/// The state of the collection.
pub struct Build {
    pub index: IndexModel,
    pub errors: Seq<DiagModel>,
    pub source_order: u32,
}

/// The name of an annotated declaration.
pub open spec fn target_label(hir: ResolvedHir, target: AnnotationTarget) -> Seq<char> {
    match target {
        AnnotationTarget::Definition(id) => qualified_name(hir, id),
        AnnotationTarget::Field { owner, index } => qualified_name(hir, owner) + "::field["@
            + decimal(index as nat) + "]"@,
        AnnotationTarget::VariantField { variant, index } => qualified_name(hir, variant)
            + "::field["@ + decimal(index as nat) + "]"@,
    }
}

/// Whether a declaration can be found again at run time.
pub open spec fn has_locator(hir: ResolvedHir, target: AnnotationTarget) -> bool {
    match target {
        AnnotationTarget::Field { owner, .. } => hir.has_definition(owner) && hir.spec_definition(
            owner,
        ).kind == DefKind::Struct,
        AnnotationTarget::VariantField { variant, .. } => hir.has_definition(variant)
            && hir.spec_definition(variant).kind is EnumVariant,
        AnnotationTarget::Definition(id) => hir.has_definition(id) && match hir.spec_definition(
            id,
        ).kind {
            DefKind::Function => true,
            DefKind::Struct => true,
            DefKind::Enum => true,
            DefKind::EnumVariant { .. } => true,
            DefKind::Method { owner } => hir.has_definition(owner) && (hir.spec_definition(
                owner,
            ).kind == DefKind::Struct || hir.spec_definition(owner).kind == DefKind::Enum),
            _ => false,
        },
    }
}

impl Build {
    pub open spec fn error(self, code: DiagnosticCode, span: SourceRange, message: Seq<char>) -> Build {
        Build { errors: error_at(self.errors, code, span, message), ..self }
    }

    /// The name of a declaration, where it is not named yet.
    pub open spec fn named(self, hir: ResolvedHir, target: AnnotationTarget) -> Build {
        if self.index.target_names.dom().contains(target) {
            self
        } else {
            self.with_name(target, target_label(hir, target))
        }
    }

    pub open spec fn with_name(self, target: AnnotationTarget, name: Seq<char>) -> Build {
        Build {
            index: IndexModel {
                target_names: self.index.target_names.insert(target, name),
                ..self.index
            },
            ..self
        }
    }

    /// One more instance, unless it is kept in the source only.
    pub open spec fn with_instance(
        self,
        retention: AnnotationRetention,
        annotation: DefId,
        target: AnnotationTarget,
        arguments: Seq<(Seq<char>, ValueModel)>,
    ) -> Build {
        if retention == AnnotationRetention::Source {
            self
        } else {
            Build {
                index: self.index.push(
                    InstanceModel {
                        annotation,
                        target,
                        arguments,
                        source_order: self.source_order,
                    },
                ),
                source_order: if self.source_order == u32::MAX {
                    0
                } else {
                    (self.source_order + 1) as u32
                },
                ..self
            }
        }
    }
}

/// One attribute of a declaration, and the annotations that stand on it already.
pub open spec fn with_attribute(
    hir: ResolvedHir,
    build: Build,
    seen: Set<DefId>,
    module: ModuleId,
    attribute: Attribute,
    kind: AnnotationTargetKind,
    target: AnnotationTarget,
    span: SourceRange,
    is_public: bool,
) -> (Build, Set<DefId>) {
    match annotation_named(hir, module, attribute.name@) {
        None => (
            build.error(
                DiagnosticCode::AnnotationUnresolved,
                span,
                "unresolved annotation `"@ + attribute.name@ + "`"@,
            ),
            seen,
        ),
        Some(annotation) => if !build.index.definitions.dom().contains(annotation) {
            (
                build.error(
                    DiagnosticCode::AnnotationUnresolved,
                    span,
                    "`"@ + attribute.name@ + "` does not name an annotation"@,
                ),
                seen,
            )
        } else {
            let definition = build.index.definitions[annotation];
            let name = definition.qualified_name;
            let runtime = definition.retention == AnnotationRetention::Runtime;
            if !definition.targets.contains(kind) {
                (
                    build.error(
                        DiagnosticCode::AnnotationInvalidTarget,
                        span,
                        "annotation `"@ + name + "` cannot target "@ + kind_label(kind),
                    ),
                    seen,
                )
            } else if runtime && !is_public {
                (
                    build.error(
                        DiagnosticCode::AnnotationRuntimePrivate,
                        span,
                        "runtime annotation `"@ + name + "` requires a public target"@,
                    ),
                    seen,
                )
            } else if runtime && !has_locator(hir, target) {
                (
                    build.error(
                        DiagnosticCode::AnnotationInvalidTarget,
                        span,
                        "runtime annotation `"@ + name + "` has no stable Lua target locator"@,
                    ),
                    seen,
                )
            } else if !definition.repeatable && seen.contains(annotation) {
                (
                    build.error(
                        DiagnosticCode::AnnotationDuplicate,
                        span,
                        "annotation `"@ + name + "` is not repeatable"@,
                    ),
                    seen,
                )
            } else {
                let seen = if definition.repeatable {
                    seen
                } else {
                    seen.insert(annotation)
                };
                match valid_arguments(hir, module, build.errors, definition, attribute, span) {
                    (errors, None) => (Build { errors, ..build }, seen),
                    (errors, Some(arguments)) => (
                        Build { errors, ..build }.with_instance(
                            definition.retention,
                            annotation,
                            target,
                            arguments,
                        ),
                        seen,
                    ),
                }
            }
        },
    }
}

/// The attributes `attributes[from..]` of a declaration.
pub open spec fn with_attributes_from(
    hir: ResolvedHir,
    build: Build,
    seen: Set<DefId>,
    module: ModuleId,
    attributes: Seq<Attribute>,
    kind: AnnotationTargetKind,
    target: AnnotationTarget,
    span: SourceRange,
    is_public: bool,
    from: int,
) -> Build
    decreases attributes.len() - from,
{
    if from < 0 || from >= attributes.len() {
        build
    } else {
        let (build, seen) = with_attribute(
            hir,
            build,
            seen,
            module,
            attributes[from],
            kind,
            target,
            span,
            is_public,
        );
        with_attributes_from(
            hir,
            build,
            seen,
            module,
            attributes,
            kind,
            target,
            span,
            is_public,
            from + 1,
        )
    }
}

/// All attributes of a declaration.
pub open spec fn with_attributes(
    hir: ResolvedHir,
    build: Build,
    module: ModuleId,
    attributes: Seq<Attribute>,
    kind: AnnotationTargetKind,
    target: AnnotationTarget,
    span: SourceRange,
    is_public: bool,
) -> Build {
    with_attributes_from(
        hir,
        build.named(hir, target),
        Set::empty(),
        module,
        attributes,
        kind,
        target,
        span,
        is_public,
        0,
    )
}

/// Attributes `attributes[from..]` where none may stand.
pub open spec fn rejected(
    errors: Seq<DiagModel>,
    attributes: Seq<Attribute>,
    target: Seq<char>,
    from: int,
) -> Seq<DiagModel>
    decreases attributes.len() - from,
{
    if from < 0 || from >= attributes.len() {
        errors
    } else {
        rejected(
            errors.push(
                bare_diag(
                    DiagnosticCode::AnnotationInvalidTarget,
                    "annotation `"@ + attributes[from].name@ + "` cannot target "@ + target,
                ),
            ),
            attributes,
            target,
            from + 1,
        )
    }
}

fn target_text(hir: &ResolvedHir, target: AnnotationTarget) -> (r: String)
    ensures
        r@ == target_label(*hir, target),
{
    match target {
        AnnotationTarget::Definition(id) => qualified_definition_name(hir, id),
        AnnotationTarget::Field { owner, index } => cat4(
            qualified_definition_name(hir, owner).as_str(),
            "::field[",
            decimal_text(index as u64).as_str(),
            "]",
        ),
        AnnotationTarget::VariantField { variant, index } => cat4(
            qualified_definition_name(hir, variant).as_str(),
            "::field[",
            decimal_text(index as u64).as_str(),
            "]",
        ),
    }
}

fn runtime_target_supported(hir: &ResolvedHir, target: AnnotationTarget) -> (r: bool)
    ensures
        r == has_locator(*hir, target),
{
    match target {
        AnnotationTarget::Field { owner, .. } => match hir.find_definition(owner) {
            Some(data) => data.kind == DefKind::Struct,
            None => false,
        },
        AnnotationTarget::VariantField { variant, .. } => match hir.find_definition(variant) {
            Some(data) => match data.kind {
                DefKind::EnumVariant { .. } => true,
                _ => false,
            },
            None => false,
        },
        AnnotationTarget::Definition(id) => match hir.find_definition(id) {
            Some(data) => match data.kind {
                DefKind::Function => true,
                DefKind::Struct => true,
                DefKind::Enum => true,
                DefKind::EnumVariant { .. } => true,
                DefKind::Method { owner } => match hir.find_definition(owner) {
                    Some(owner) => owner.kind == DefKind::Struct || owner.kind == DefKind::Enum,
                    None => false,
                },
                _ => false,
            },
            None => false,
        },
    }
}

fn has_kind(kinds: &Vec<AnnotationTargetKind>, kind: AnnotationTargetKind) -> (r: bool)
    ensures
        r == kinds@.contains(kind),
{
    let mut i: usize = 0;
    while i < kinds.len()
        invariant
            i <= kinds.len(),
            forall|k: int| 0 <= k < i ==> #[trigger] kinds@[k] != kind,
        decreases kinds.len() - i,
    {
        if kinds[i] == kind {
            proof {
                assert(kinds@[i as int] == kind);
            }
            return true;
        }
        i += 1;
    }
    false
}

struct Builder<'a> {
    hir: &'a ResolvedHir,
    index: AnnotationIndex,
    diagnostics: Vec<Diag>,
    source_order: u32,
}

impl<'a> Builder<'a> {
    spec fn view(&self) -> Build {
        Build {
            index: self.index@,
            errors: diags_model(self.diagnostics@),
            source_order: self.source_order,
        }
    }

    fn error(&mut self, code: DiagnosticCode, span: SourceRange, message: String)
        ensures
            final(self)@ == old(self)@.error(code, span, message@),
            final(self).hir == old(self).hir,
    {
        push_error(&mut self.diagnostics, code, span, message);
    }

    fn set_name(&mut self, target: AnnotationTarget, name: String)
        ensures
            final(self)@ == old(self)@.with_name(target, name@),
            final(self).hir == old(self).hir,
    {
        let ghost before = self.index.target_names;
        let _ = self.index.target_names.insert(target, name);
        proof {
            crate::table::lemma_insert_at(before, self.index.target_names, target, name);
            assert(names_of(self.index.target_names) =~= names_of(before).insert(target, name@));
        }
    }

    fn name_target(&mut self, target: AnnotationTarget)
        ensures
            final(self)@ == old(self)@.named(*old(self).hir, target),
            final(self).hir == old(self).hir,
    {
        if !self.index.target_names.has(&target) {
            let name = target_text(self.hir, target);
            self.set_name(target, name);
        }
    }

    fn add_instance(
        &mut self,
        retention: AnnotationRetention,
        annotation: DefId,
        target: AnnotationTarget,
        arguments: Vec<(String, AnnotationValue)>,
    )
        ensures
            final(self)@ == old(self)@.with_instance(
                retention,
                annotation,
                target,
                arguments_model(arguments@),
            ),
            final(self).hir == old(self).hir,
    {
        if retention != AnnotationRetention::Source {
            let source_order = self.source_order;
            self.source_order = if source_order == u32::MAX {
                0
            } else {
                source_order + 1
            };
            self.index.push(AnnotationInstance { annotation, target, arguments, source_order });
        }
    }

    fn attribute(
        &mut self,
        seen: &mut KeySet<DefId>,
        module: ModuleId,
        attribute: &Attribute,
        kind: AnnotationTargetKind,
        target: AnnotationTarget,
        span: SourceRange,
        is_public: bool,
    )
        ensures
            (final(self)@, final(seen)@) == with_attribute(
                *old(self).hir,
                old(self)@,
                old(seen)@,
                module,
                *attribute,
                kind,
                target,
                span,
                is_public,
            ),
            final(self).hir == old(self).hir,
    {
        let name = attribute.name.as_str();
        let annotation = match resolve_annotation(self.hir, module, name) {
            Some(annotation) => annotation,
            None => {
                self.error(
                    DiagnosticCode::AnnotationUnresolved,
                    span,
                    cat3("unresolved annotation `", name, "`"),
                );
                return ;
            },
        };
        let definition = match self.index.definitions.get(&annotation) {
            Some(definition) => definition,
            None => {
                push_error(
                    &mut self.diagnostics,
                    DiagnosticCode::AnnotationUnresolved,
                    span,
                    cat3("`", name, "` does not name an annotation"),
                );
                return ;
            },
        };
        proof {
            assert(self@.index.definitions[annotation] == definition.model());
        }
        let label = definition.qualified_name.as_str();
        let runtime = definition.retention == AnnotationRetention::Runtime;
        if !has_kind(&definition.targets, kind) {
            push_error(
                &mut self.diagnostics,
                DiagnosticCode::AnnotationInvalidTarget,
                span,
                cat4("annotation `", label, "` cannot target ", kind.label()),
            );
            return ;
        }
        if runtime && !is_public {
            push_error(
                &mut self.diagnostics,
                DiagnosticCode::AnnotationRuntimePrivate,
                span,
                cat3("runtime annotation `", label, "` requires a public target"),
            );
            return ;
        }
        if runtime && !runtime_target_supported(self.hir, target) {
            push_error(
                &mut self.diagnostics,
                DiagnosticCode::AnnotationInvalidTarget,
                span,
                cat3("runtime annotation `", label, "` has no stable Lua target locator"),
            );
            return ;
        }
        if !definition.repeatable && !seen.insert(annotation) {
            push_error(
                &mut self.diagnostics,
                DiagnosticCode::AnnotationDuplicate,
                span,
                cat3("annotation `", label, "` is not repeatable"),
            );
            proof {
                assert(seen@ =~= old(seen)@);
            }
            return ;
        }
        let retention = definition.retention;
        if let Some(arguments) = validate_arguments(
            self.hir,
            module,
            &mut self.diagnostics,
            definition,
            attribute,
            span,
        ) {
            self.add_instance(retention, annotation, target, arguments);
        }
    }

    fn attributes(
        &mut self,
        module: ModuleId,
        attributes: &Vec<Attribute>,
        kind: AnnotationTargetKind,
        target: AnnotationTarget,
        span: SourceRange,
        is_public: bool,
    )
        ensures
            final(self)@ == with_attributes(
                *old(self).hir,
                old(self)@,
                module,
                attributes@,
                kind,
                target,
                span,
                is_public,
            ),
            final(self).hir == old(self).hir,
    {
        self.name_target(target);
        let ghost start = self@;
        let ghost hir = *self.hir;
        let mut seen: KeySet<DefId> = KeySet::new();
        let mut i: usize = 0;
        while i < attributes.len()
            invariant
                i <= attributes.len(),
                hir == *self.hir,
                self.hir == old(self).hir,
                with_attributes_from(
                    hir,
                    self@,
                    seen@,
                    module,
                    attributes@,
                    kind,
                    target,
                    span,
                    is_public,
                    i as int,
                ) == with_attributes_from(
                    hir,
                    start,
                    Set::empty(),
                    module,
                    attributes@,
                    kind,
                    target,
                    span,
                    is_public,
                    0,
                ),
            decreases attributes.len() - i,
        {
            self.attribute(&mut seen, module, &attributes[i], kind, target, span, is_public);
            i += 1;
        }
    }

    fn reject_block_attributes(&mut self, attributes: &Vec<Attribute>, target: &str)
        ensures
            final(self)@ == (Build {
                errors: rejected(old(self)@.errors, attributes@, target@, 0),
                ..old(self)@
            }),
            final(self).hir == old(self).hir,
    {
        let ghost start = self@;
        let mut i: usize = 0;
        while i < attributes.len()
            invariant
                i <= attributes.len(),
                self.hir == old(self).hir,
                self@.index == start.index,
                self@.source_order == start.source_order,
                rejected(self@.errors, attributes@, target@, i as int) == rejected(
                    start.errors,
                    attributes@,
                    target@,
                    0,
                ),
            decreases attributes.len() - i,
        {
            let ghost before = diags_model(self.diagnostics@);
            let diag = Diag::bare(
                DiagnosticCode::AnnotationInvalidTarget,
                cat4("annotation `", attributes[i].name.as_str(), "` cannot target ", target),
            );
            self.diagnostics.push(diag);
            proof {
                assert(diags_model(self.diagnostics@) =~= before.push(diag.model()));
            }
            i += 1;
        }
    }
}

// ---------------------------------------------------------------------------
// Definitions.
// ---------------------------------------------------------------------------

/// The identity of an item.
pub open spec fn item_definition(hir: ResolvedHir, module: ModuleId, item: int) -> Option<DefId> {
    match hir.item_targets.at((module, item as usize)) {
        Some(ResolvedTarget::Item(id)) => Some(id),
        _ => None,
    }
}

/// The module that an item declares.
pub open spec fn item_module(hir: ResolvedHir, module: ModuleId, item: int) -> Option<ModuleId> {
    match hir.item_targets.at((module, item as usize)) {
        Some(ResolvedTarget::Module(id)) => Some(id),
        _ => None,
    }
}

/// The schema of an annotation declaration, where it is valid.
pub open spec fn with_declaration(
    hir: ResolvedHir,
    build: Build,
    id: DefId,
    annotation: AnnotationDecl,
) -> Build {
    match schema_of(build.errors, annotation.attributes@, annotation.name_span) {
        (errors, None) => Build { errors, ..build },
        (errors, Some((targets, retention, repeatable))) => {
            let (errors, parameters, valid) = checked_params(
                hir,
                errors,
                annotation.params@,
                0,
                Seq::empty(),
                Seq::empty(),
                true,
            );
            if valid {
                Build {
                    errors,
                    index: IndexModel {
                        definitions: build.index.definitions.insert(
                            id,
                            DefinitionModel {
                                id,
                                qualified_name: qualified_name(hir, id),
                                parameters,
                                targets,
                                retention,
                                repeatable,
                            },
                        ),
                        ..build.index
                    },
                    ..build
                }
            } else {
                Build { errors, ..build }
            }
        },
    }
}

/// The schemas of the annotations among `items[from..]`.
pub open spec fn with_definitions(
    hir: ResolvedHir,
    build: Build,
    module: ModuleId,
    items: Seq<Item>,
    from: int,
) -> Build
    decreases items, items.len() - from,
{
    if from < 0 || from >= items.len() {
        build
    } else {
        let next = match items[from] {
            Item::Annotation(annotation) => match item_definition(hir, module, from) {
                Some(id) => with_declaration(hir, build, id, annotation),
                None => build,
            },
            Item::Mod(child) => match item_module(hir, module, from) {
                Some(inner) => with_definitions(hir, build, inner, child.items@, 0),
                None => build,
            },
            _ => build,
        };
        with_definitions(hir, next, module, items, from + 1)
    }
}

// ---------------------------------------------------------------------------
// Instances.
// ---------------------------------------------------------------------------

/// The range that stands for a declaration without one.
pub open spec fn no_span() -> SourceRange {
    SourceRange::spec_new(0, 0, 1)
}

/// The attributes of the fields `fields[from..]` of a struct or a variant.
pub open spec fn with_fields(
    hir: ResolvedHir,
    build: Build,
    module: ModuleId,
    owner: DefId,
    of_variant: bool,
    fields: Seq<Field>,
    is_public: bool,
    from: int,
) -> Build
    decreases fields.len() - from,
{
    if from < 0 || from >= fields.len() {
        build
    } else {
        let field = fields[from];
        let target = if of_variant {
            AnnotationTarget::VariantField { variant: owner, index: from as u32 }
        } else {
            AnnotationTarget::Field { owner, index: from as u32 }
        };
        let build = build.with_name(target, qualified_name(hir, owner) + "::"@ + field.name@);
        with_fields(
            hir,
            with_attributes(
                hir,
                build,
                module,
                field.attributes@,
                AnnotationTargetKind::Field,
                target,
                field.name_span,
                is_public,
            ),
            module,
            owner,
            of_variant,
            fields,
            is_public,
            from + 1,
        )
    }
}

/// The attributes of a struct and its fields.
pub open spec fn with_struct(
    hir: ResolvedHir,
    build: Build,
    module: ModuleId,
    owner: DefId,
    structure: StructDecl,
) -> Build {
    with_fields(
        hir,
        with_attributes(
            hir,
            build,
            module,
            structure.attributes@,
            AnnotationTargetKind::Struct,
            AnnotationTarget::Definition(owner),
            if structure.fields@.len() > 0 {
                structure.fields@[0].name_span
            } else {
                no_span()
            },
            structure.is_pub,
        ),
        module,
        owner,
        false,
        structure.fields@,
        structure.is_pub,
        0,
    )
}

/// The attributes of the variants `variants[from..]` and their fields.
pub open spec fn with_variants(
    hir: ResolvedHir,
    build: Build,
    module: ModuleId,
    owner: DefId,
    variants: Seq<Variant>,
    is_public: bool,
    from: int,
) -> Build
    decreases variants.len() - from,
{
    if from < 0 || from >= variants.len() {
        build
    } else {
        let variant = variants[from];
        let next = match hir.enum_variant_targets.at((owner, from as usize)) {
            None => build,
            Some(id) => {
                let build = with_attributes(
                    hir,
                    build,
                    module,
                    variant.attributes@,
                    AnnotationTargetKind::Variant,
                    AnnotationTarget::Definition(id),
                    no_span(),
                    is_public,
                );
                match variant.kind {
                    VariantKind::Struct(fields) => with_fields(
                        hir,
                        build,
                        module,
                        id,
                        true,
                        fields@,
                        is_public,
                        0,
                    ),
                    _ => build,
                }
            },
        };
        with_variants(hir, next, module, owner, variants, is_public, from + 1)
    }
}

/// The attributes of the methods `methods[from..]` of an implementation.
pub open spec fn with_methods(
    hir: ResolvedHir,
    build: Build,
    module: ModuleId,
    item: int,
    methods: Seq<FnDecl>,
    from: int,
) -> Build
    decreases methods.len() - from,
{
    if from < 0 || from >= methods.len() {
        build
    } else {
        let method = methods[from];
        let next = match hir.impl_method_targets.at((module, (item as usize, from as usize))) {
            None => build,
            Some(id) => with_attributes(
                hir,
                build,
                module,
                method.attributes@,
                AnnotationTargetKind::Method,
                AnnotationTarget::Definition(id),
                method.name_span,
                method.is_pub,
            ),
        };
        with_methods(hir, next, module, item, methods, from + 1)
    }
}

/// The attributes of the methods `methods[from..]` of a trait.
pub open spec fn with_trait_methods(
    hir: ResolvedHir,
    build: Build,
    module: ModuleId,
    owner: DefId,
    methods: Seq<TraitMethod>,
    is_public: bool,
    from: int,
) -> Build
    decreases methods.len() - from,
{
    if from < 0 || from >= methods.len() {
        build
    } else {
        let method = methods[from];
        let next = match hir.trait_method_targets.at((owner, from as usize)) {
            None => build,
            Some(id) => with_attributes(
                hir,
                build,
                module,
                method.attributes@,
                AnnotationTargetKind::Method,
                AnnotationTarget::Definition(id),
                method.name_span,
                is_public,
            ),
        };
        with_trait_methods(hir, next, module, owner, methods, is_public, from + 1)
    }
}

/// The attributes of the host functions `functions[from..]`.
pub open spec fn with_externs(
    hir: ResolvedHir,
    build: Build,
    module: ModuleId,
    item: int,
    functions: Seq<ExternFn>,
    from: int,
) -> Build
    decreases functions.len() - from,
{
    if from < 0 || from >= functions.len() {
        build
    } else {
        let function = functions[from];
        let next = match hir.extern_function_targets.at(
            (module, (item as usize, from as usize)),
        ) {
            None => build,
            Some(id) => with_attributes(
                hir,
                build,
                module,
                function.attributes@,
                AnnotationTargetKind::ExternFunction,
                AnnotationTarget::Definition(id),
                function.name_span,
                true,
            ),
        };
        with_externs(hir, next, module, item, functions, from + 1)
    }
}

impl Build {
    /// Attributes on a block that none may stand on.
    pub open spec fn reject(self, attributes: Seq<Attribute>, target: Seq<char>) -> Build {
        Build { errors: rejected(self.errors, attributes, target, 0), ..self }
    }
}

/// The attributes of the items `items[from..]` and of what is inside them.
pub open spec fn with_instances(
    hir: ResolvedHir,
    build: Build,
    module: ModuleId,
    items: Seq<Item>,
    from: int,
) -> Build
    decreases items, items.len() - from,
{
    if from < 0 || from >= items.len() {
        build
    } else {
        let definition = item_definition(hir, module, from);
        let next = match items[from] {
            Item::Annotation(_) => build,
            Item::Fn(function) => match definition {
                Some(id) => with_attributes(
                    hir,
                    build,
                    module,
                    function.attributes@,
                    AnnotationTargetKind::Function,
                    AnnotationTarget::Definition(id),
                    function.name_span,
                    function.is_pub,
                ),
                None => build,
            },
            Item::Struct(structure) => match definition {
                Some(owner) => with_struct(hir, build, module, owner, structure),
                None => build,
            },
            Item::Enum(enumeration) => match definition {
                Some(owner) => with_variants(
                    hir,
                    with_attributes(
                        hir,
                        build,
                        module,
                        enumeration.attributes@,
                        AnnotationTargetKind::Enum,
                        AnnotationTarget::Definition(owner),
                        no_span(),
                        enumeration.is_pub,
                    ),
                    module,
                    owner,
                    enumeration.variants@,
                    enumeration.is_pub,
                    0,
                ),
                None => build,
            },
            Item::Impl(implementation) => with_methods(
                hir,
                build,
                module,
                from,
                implementation.methods@,
                0,
            ).reject(implementation.attributes@, "impl"@),
            Item::Trait(declaration) => (match definition {
                Some(owner) => with_trait_methods(
                    hir,
                    build,
                    module,
                    owner,
                    declaration.methods@,
                    declaration.is_pub,
                    0,
                ),
                None => build,
            }).reject(declaration.attributes@, "trait"@),
            Item::Extern(block) => with_externs(hir, build, module, from, block.fns@, 0).reject(
                block.attributes@,
                "extern block"@,
            ),
            Item::Mod(child) => {
                let build = build.reject(child.attributes@, "module"@);
                match item_module(hir, module, from) {
                    Some(inner) => with_instances(hir, build, inner, child.items@, 0),
                    None => build,
                }
            },
            Item::Use(import) => build.reject(import.attributes@, "use"@),
        };
        with_instances(hir, next, module, items, from + 1)
    }
}

/// All annotations of a program, with everything that is wrong with them.
pub open spec fn collected(program: Program, hir: ResolvedHir) -> Build {
    let start = Build { index: IndexModel::empty(), errors: Seq::empty(), source_order: 0 };
    with_instances(
        hir,
        with_definitions(hir, start, hir.root, program.items@, 0),
        hir.root,
        program.items@,
        0,
    )
}

fn definition_of_item(hir: &ResolvedHir, module: ModuleId, item: usize) -> (r: Option<DefId>)
    ensures
        r == item_definition(*hir, module, item as int),
{
    match hir.item_targets.get(&(module, item)) {
        Some(ResolvedTarget::Item(id)) => Some(*id),
        _ => None,
    }
}

fn module_of_item(hir: &ResolvedHir, module: ModuleId, item: usize) -> (r: Option<ModuleId>)
    ensures
        r == item_module(*hir, module, item as int),
{
    match hir.item_targets.get(&(module, item)) {
        Some(ResolvedTarget::Module(id)) => Some(*id),
        _ => None,
    }
}

fn fallback_span() -> (r: SourceRange)
    ensures
        r == no_span(),
{
    SourceRange::new(0, 0, 1)
}

impl<'a> Builder<'a> {
    fn declare(&mut self, id: DefId, annotation: &AnnotationDecl)
        ensures
            final(self)@ == with_declaration(*old(self).hir, old(self)@, id, *annotation),
            final(self).hir == old(self).hir,
    {
        let (targets, retention, repeatable) = match parse_schema(
            &mut self.diagnostics,
            &annotation.attributes,
            annotation.name_span,
        ) {
            Some(schema) => schema,
            None => {
                return ;
            },
        };
        let (parameters, valid) = check_params(
            self.hir,
            &mut self.diagnostics,
            &annotation.params,
        );
        if valid {
            let definition = AnnotationDefinition {
                id,
                qualified_name: qualified_definition_name(self.hir, id),
                parameters,
                targets,
                retention,
                repeatable,
            };
            let ghost before = self.index.definitions;
            let _ = self.index.definitions.insert(id, definition);
            proof {
                crate::table::lemma_insert_at(before, self.index.definitions, id, definition);
                assert(definitions_model(self.index.definitions) =~= definitions_model(
                    before,
                ).insert(id, definition.model()));
            }
        }
    }

    fn collect_definitions(&mut self, module: ModuleId, items: &Vec<Item>)
        ensures
            final(self)@ == with_definitions(*old(self).hir, old(self)@, module, items@, 0),
            final(self).hir == old(self).hir,
        decreases *items,
    {
        let ghost start = self@;
        let ghost hir = *self.hir;
        let mut i: usize = 0;
        while i < items.len()
            invariant
                i <= items.len(),
                hir == *self.hir,
                self.hir == old(self).hir,
                with_definitions(hir, self@, module, items@, i as int) == with_definitions(
                    hir,
                    start,
                    module,
                    items@,
                    0,
                ),
            decreases items.len() - i,
        {
            match &items[i] {
                Item::Annotation(annotation) => {
                    if let Some(id) = definition_of_item(self.hir, module, i) {
                        self.declare(id, annotation);
                    }
                },
                Item::Mod(child) => {
                    if let Some(inner) = module_of_item(self.hir, module, i) {
                        self.collect_definitions(inner, &child.items);
                    }
                },
                _ => {},
            }
            i += 1;
        }
    }

    fn field_attributes(
        &mut self,
        module: ModuleId,
        owner: DefId,
        of_variant: bool,
        fields: &Vec<Field>,
        is_public: bool,
    )
        ensures
            final(self)@ == with_fields(
                *old(self).hir,
                old(self)@,
                module,
                owner,
                of_variant,
                fields@,
                is_public,
                0,
            ),
            final(self).hir == old(self).hir,
    {
        let ghost start = self@;
        let ghost hir = *self.hir;
        let mut i: usize = 0;
        while i < fields.len()
            invariant
                i <= fields.len(),
                hir == *self.hir,
                self.hir == old(self).hir,
                with_fields(
                    hir,
                    self@,
                    module,
                    owner,
                    of_variant,
                    fields@,
                    is_public,
                    i as int,
                ) == with_fields(hir, start, module, owner, of_variant, fields@, is_public, 0),
            decreases fields.len() - i,
        {
            let field = &fields[i];
            let index = i as u32;
            let target = if of_variant {
                AnnotationTarget::VariantField { variant: owner, index }
            } else {
                AnnotationTarget::Field { owner, index }
            };
            let name = cat3(
                qualified_definition_name(self.hir, owner).as_str(),
                "::",
                field.name.as_str(),
            );
            self.set_name(target, name);
            self.attributes(
                module,
                &field.attributes,
                AnnotationTargetKind::Field,
                target,
                field.name_span,
                is_public,
            );
            i += 1;
        }
    }

    fn struct_attributes(&mut self, module: ModuleId, owner: DefId, structure: &StructDecl)
        ensures
            final(self)@ == with_struct(*old(self).hir, old(self)@, module, owner, *structure),
            final(self).hir == old(self).hir,
    {
        let span = if structure.fields.len() > 0 {
            structure.fields[0].name_span
        } else {
            fallback_span()
        };
        self.attributes(
            module,
            &structure.attributes,
            AnnotationTargetKind::Struct,
            AnnotationTarget::Definition(owner),
            span,
            structure.is_pub,
        );
        self.field_attributes(module, owner, false, &structure.fields, structure.is_pub);
    }

    fn variant_attributes(
        &mut self,
        module: ModuleId,
        owner: DefId,
        variants: &Vec<Variant>,
        is_public: bool,
    )
        ensures
            final(self)@ == with_variants(
                *old(self).hir,
                old(self)@,
                module,
                owner,
                variants@,
                is_public,
                0,
            ),
            final(self).hir == old(self).hir,
    {
        let ghost start = self@;
        let ghost hir = *self.hir;
        let mut i: usize = 0;
        while i < variants.len()
            invariant
                i <= variants.len(),
                hir == *self.hir,
                self.hir == old(self).hir,
                with_variants(hir, self@, module, owner, variants@, is_public, i as int)
                    == with_variants(hir, start, module, owner, variants@, is_public, 0),
            decreases variants.len() - i,
        {
            let variant = &variants[i];
            if let Some(id) = self.hir.enum_variant_targets.get(&(owner, i)) {
                self.attributes(
                    module,
                    &variant.attributes,
                    AnnotationTargetKind::Variant,
                    AnnotationTarget::Definition(*id),
                    fallback_span(),
                    is_public,
                );
                if let VariantKind::Struct(fields) = &variant.kind {
                    self.field_attributes(module, *id, true, fields, is_public);
                }
            }
            i += 1;
        }
    }

    fn method_attributes(&mut self, module: ModuleId, item: usize, methods: &Vec<FnDecl>)
        ensures
            final(self)@ == with_methods(
                *old(self).hir,
                old(self)@,
                module,
                item as int,
                methods@,
                0,
            ),
            final(self).hir == old(self).hir,
    {
        let ghost start = self@;
        let ghost hir = *self.hir;
        let mut i: usize = 0;
        while i < methods.len()
            invariant
                i <= methods.len(),
                hir == *self.hir,
                self.hir == old(self).hir,
                with_methods(hir, self@, module, item as int, methods@, i as int) == with_methods(
                    hir,
                    start,
                    module,
                    item as int,
                    methods@,
                    0,
                ),
            decreases methods.len() - i,
        {
            let method = &methods[i];
            if let Some(id) = self.hir.impl_method_targets.get(&(module, (item, i))) {
                self.attributes(
                    module,
                    &method.attributes,
                    AnnotationTargetKind::Method,
                    AnnotationTarget::Definition(*id),
                    method.name_span,
                    method.is_pub,
                );
            }
            i += 1;
        }
    }

    fn trait_method_attributes(
        &mut self,
        module: ModuleId,
        owner: DefId,
        methods: &Vec<TraitMethod>,
        is_public: bool,
    )
        ensures
            final(self)@ == with_trait_methods(
                *old(self).hir,
                old(self)@,
                module,
                owner,
                methods@,
                is_public,
                0,
            ),
            final(self).hir == old(self).hir,
    {
        let ghost start = self@;
        let ghost hir = *self.hir;
        let mut i: usize = 0;
        while i < methods.len()
            invariant
                i <= methods.len(),
                hir == *self.hir,
                self.hir == old(self).hir,
                with_trait_methods(hir, self@, module, owner, methods@, is_public, i as int)
                    == with_trait_methods(hir, start, module, owner, methods@, is_public, 0),
            decreases methods.len() - i,
        {
            let method = &methods[i];
            if let Some(id) = self.hir.trait_method_targets.get(&(owner, i)) {
                self.attributes(
                    module,
                    &method.attributes,
                    AnnotationTargetKind::Method,
                    AnnotationTarget::Definition(*id),
                    method.name_span,
                    is_public,
                );
            }
            i += 1;
        }
    }

    fn extern_attributes(&mut self, module: ModuleId, item: usize, functions: &Vec<ExternFn>)
        ensures
            final(self)@ == with_externs(
                *old(self).hir,
                old(self)@,
                module,
                item as int,
                functions@,
                0,
            ),
            final(self).hir == old(self).hir,
    {
        let ghost start = self@;
        let ghost hir = *self.hir;
        let mut i: usize = 0;
        while i < functions.len()
            invariant
                i <= functions.len(),
                hir == *self.hir,
                self.hir == old(self).hir,
                with_externs(hir, self@, module, item as int, functions@, i as int)
                    == with_externs(hir, start, module, item as int, functions@, 0),
            decreases functions.len() - i,
        {
            let function = &functions[i];
            if let Some(id) = self.hir.extern_function_targets.get(&(module, (item, i))) {
                self.attributes(
                    module,
                    &function.attributes,
                    AnnotationTargetKind::ExternFunction,
                    AnnotationTarget::Definition(*id),
                    function.name_span,
                    true,
                );
            }
            i += 1;
        }
    }

    fn collect_instances(&mut self, module: ModuleId, items: &Vec<Item>)
        ensures
            final(self)@ == with_instances(*old(self).hir, old(self)@, module, items@, 0),
            final(self).hir == old(self).hir,
        decreases *items,
    {
        let ghost start = self@;
        let ghost hir = *self.hir;
        let mut i: usize = 0;
        while i < items.len()
            invariant
                i <= items.len(),
                hir == *self.hir,
                self.hir == old(self).hir,
                with_instances(hir, self@, module, items@, i as int) == with_instances(
                    hir,
                    start,
                    module,
                    items@,
                    0,
                ),
            decreases items.len() - i,
        {
            let definition = definition_of_item(self.hir, module, i);
            match &items[i] {
                Item::Annotation(_) => {},
                Item::Fn(function) => {
                    if let Some(id) = definition {
                        self.attributes(
                            module,
                            &function.attributes,
                            AnnotationTargetKind::Function,
                            AnnotationTarget::Definition(id),
                            function.name_span,
                            function.is_pub,
                        );
                    }
                },
                Item::Struct(structure) => {
                    if let Some(owner) = definition {
                        self.struct_attributes(module, owner, structure);
                    }
                },
                Item::Enum(enumeration) => {
                    if let Some(owner) = definition {
                        self.attributes(
                            module,
                            &enumeration.attributes,
                            AnnotationTargetKind::Enum,
                            AnnotationTarget::Definition(owner),
                            fallback_span(),
                            enumeration.is_pub,
                        );
                        self.variant_attributes(
                            module,
                            owner,
                            &enumeration.variants,
                            enumeration.is_pub,
                        );
                    }
                },
                Item::Impl(implementation) => {
                    self.method_attributes(module, i, &implementation.methods);
                    self.reject_block_attributes(&implementation.attributes, "impl");
                },
                Item::Trait(declaration) => {
                    if let Some(owner) = definition {
                        self.trait_method_attributes(
                            module,
                            owner,
                            &declaration.methods,
                            declaration.is_pub,
                        );
                    }
                    self.reject_block_attributes(&declaration.attributes, "trait");
                },
                Item::Extern(block) => {
                    self.extern_attributes(module, i, &block.fns);
                    self.reject_block_attributes(&block.attributes, "extern block");
                },
                Item::Mod(child) => {
                    self.reject_block_attributes(&child.attributes, "module");
                    if let Some(inner) = module_of_item(self.hir, module, i) {
                        self.collect_instances(inner, &child.items);
                    }
                },
                Item::Use(import) => {
                    self.reject_block_attributes(&import.attributes, "use");
                },
            }
            i += 1;
        }
    }
}

/// Collects and checks all annotations of a program. With a single error there
/// is no index.
pub fn build(program: &Program, hir: &ResolvedHir) -> (r: Result<AnnotationIndex, Vec<Diag>>)
    ensures
        match r {
            Ok(index) => collected(*program, *hir).errors.len() == 0 && index@ == collected(
                *program,
                *hir,
            ).index,
            Err(errors) => errors@.len() > 0 && diags_model(errors@) == collected(
                *program,
                *hir,
            ).errors,
        },
{
    let mut builder = Builder {
        hir,
        index: AnnotationIndex::new(),
        diagnostics: Vec::new(),
        source_order: 0,
    };
    proof {
        assert(diags_model(builder.diagnostics@) =~= Seq::empty());
    }
    builder.collect_definitions(hir.root, &program.items);
    builder.collect_instances(hir.root, &program.items);
    proof {
        assert(diags_model(builder.diagnostics@).len() == builder.diagnostics@.len());
    }
    if builder.diagnostics.len() == 0 {
        Ok(builder.index)
    } else {
        Err(builder.diagnostics)
    }
}

} // verus!
