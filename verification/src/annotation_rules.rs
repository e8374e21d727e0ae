//! What collecting annotations promises of their arguments and repetitions.

use vstd::prelude::*;

use crate::annotation_build::{annotation_named, error_at, typed_value};
use crate::annotation_collect::{
    given_arguments, given_at, matched_arguments, unknown_arguments, valid_arguments,
    with_attribute, with_attributes, with_attributes_from, with_given, Build,
};
use crate::annotations::{
    AnnotationParameterType, AnnotationTarget, AnnotationTargetKind, DefinitionModel, ValueModel,
};
use crate::ast::{Attribute, MetaItem, MetaValue};
use crate::diag::{DiagModel, DiagnosticCode};
use crate::hir::{DefId, ModuleId, ResolvedHir};
use crate::token::SourceRange;

verus! {

/// Whether arguments have the names of the parameters, in their order.
pub open spec fn in_schema_order(
    arguments: Seq<(Seq<char>, ValueModel)>,
    parameters: Seq<(Seq<char>, AnnotationParameterType)>,
) -> bool {
    &&& arguments.len() == parameters.len()
    &&& forall|i: int|
        0 <= i < arguments.len() ==> (#[trigger] arguments[i]).0 == parameters[i].0
}

proof fn lemma_given(
    errors: Seq<DiagModel>,
    items: Seq<MetaItem>,
    annotation: Seq<char>,
    span: SourceRange,
    from: int,
    given: Seq<(Seq<char>, MetaValue)>,
    valid: bool,
)
    ensures
        errors.len() <= given_arguments(
            errors,
            items,
            annotation,
            span,
            from,
            given,
            valid,
        ).0.len(),
    decreases items.len() - from,
{
    if 0 <= from < items.len() {
        match items[from] {
            MetaItem::NameValue { name, value } => {
                let repeated = given_at(given, name@, 0) is Some;
                let next = if repeated {
                    error_at(
                        errors,
                        DiagnosticCode::AnnotationInvalidArguments,
                        span,
                        "duplicate annotation argument `"@ + name@ + "`"@,
                    )
                } else {
                    errors
                };
                lemma_given(
                    next,
                    items,
                    annotation,
                    span,
                    from + 1,
                    with_given(given, name@, value),
                    valid && !repeated,
                );
            },
            _ => {
                lemma_given(
                    error_at(
                        errors,
                        DiagnosticCode::AnnotationInvalidArguments,
                        span,
                        "annotation `"@ + annotation + "` requires named arguments"@,
                    ),
                    items,
                    annotation,
                    span,
                    from + 1,
                    given,
                    false,
                );
            },
        }
    }
}

proof fn lemma_matched(
    hir: ResolvedHir,
    module: ModuleId,
    errors: Seq<DiagModel>,
    parameters: Seq<(Seq<char>, AnnotationParameterType)>,
    span: SourceRange,
    from: int,
    given: Seq<(Seq<char>, MetaValue)>,
    done: Seq<(Seq<char>, ValueModel)>,
    valid: bool,
)
    requires
        0 <= from <= parameters.len(),
        valid ==> in_schema_order(done, parameters.take(from)),
    ensures
        ({
            let (after, _, arguments, fits) = matched_arguments(
                hir,
                module,
                errors,
                parameters,
                span,
                from,
                given,
                done,
                valid,
            );
            &&& errors.len() <= after.len()
            &&& fits ==> in_schema_order(arguments, parameters)
        }),
    decreases parameters.len() - from,
{
    if from < parameters.len() {
        let (name, ty) = parameters[from];
        match given_at(given, name, 0) {
            None => {
                lemma_matched(
                    hir,
                    module,
                    error_at(
                        errors,
                        DiagnosticCode::AnnotationInvalidArguments,
                        span,
                        "missing annotation argument `"@ + name + "`"@,
                    ),
                    parameters,
                    span,
                    from + 1,
                    given,
                    done,
                    false,
                );
            },
            Some(at) => match typed_value(hir, module, given[at].1, ty) {
                None => {
                    lemma_matched(
                        hir,
                        module,
                        error_at(
                            errors,
                            DiagnosticCode::AnnotationInvalidArguments,
                            span,
                            "annotation argument `"@ + name + "` has the wrong type"@,
                        ),
                        parameters,
                        span,
                        from + 1,
                        given.remove(at),
                        done,
                        false,
                    );
                },
                Some(value) => {
                    let more = done.push((name, value));
                    if valid {
                        assert forall|i: int| 0 <= i < more.len() implies (#[trigger] more[i]).0
                            == parameters.take(from + 1)[i].0 by {
                            if i < from {
                                assert(done[i].0 == parameters.take(from)[i].0);
                            }
                        }
                    }
                    lemma_matched(
                        hir,
                        module,
                        errors,
                        parameters,
                        span,
                        from + 1,
                        given.remove(at),
                        more,
                        valid,
                    );
                },
            },
        }
    } else {
        assert(parameters.take(from) =~= parameters);
    }
}

proof fn lemma_unknown(
    errors: Seq<DiagModel>,
    given: Seq<(Seq<char>, MetaValue)>,
    span: SourceRange,
    from: int,
)
    ensures
        errors.len() <= unknown_arguments(errors, given, span, from).len(),
    decreases given.len() - from,
{
    if 0 <= from < given.len() {
        lemma_unknown(
            error_at(
                errors,
                DiagnosticCode::AnnotationInvalidArguments,
                span,
                "unknown annotation argument `"@ + given[from].0 + "`"@,
            ),
            given,
            span,
            from + 1,
        );
    }
}

proof fn lemma_arguments(
    hir: ResolvedHir,
    module: ModuleId,
    errors: Seq<DiagModel>,
    definition: DefinitionModel,
    attribute: Attribute,
    span: SourceRange,
)
    ensures
        ({
            let (after, arguments) = valid_arguments(
                hir,
                module,
                errors,
                definition,
                attribute,
                span,
            );
            &&& errors.len() <= after.len()
            &&& arguments matches Some(list) ==> in_schema_order(list, definition.parameters)
        }),
{
    let (first, given, valid) = given_arguments(
        errors,
        attribute.items@,
        definition.qualified_name,
        span,
        0,
        Seq::empty(),
        true,
    );
    lemma_given(
        errors,
        attribute.items@,
        definition.qualified_name,
        span,
        0,
        Seq::empty(),
        true,
    );
    let (second, rest, _, _) = matched_arguments(
        hir,
        module,
        first,
        definition.parameters,
        span,
        0,
        given,
        Seq::empty(),
        valid,
    );
    lemma_matched(
        hir,
        module,
        first,
        definition.parameters,
        span,
        0,
        given,
        Seq::empty(),
        valid,
    );
    lemma_unknown(second, rest, span, 0);
}

/// The arguments of an annotation that fits its schema stand in the order of the
/// schema, one for each parameter, whatever order they were given in.
pub proof fn law_arguments_follow_the_schema(
    hir: ResolvedHir,
    module: ModuleId,
    errors: Seq<DiagModel>,
    definition: DefinitionModel,
    attribute: Attribute,
    span: SourceRange,
)
    ensures
        valid_arguments(hir, module, errors, definition, attribute, span).1 matches Some(arguments)
            ==> in_schema_order(arguments, definition.parameters),
{
    lemma_arguments(hir, module, errors, definition, attribute, span);
}

/// What one attribute does to the errors and to the annotations seen so far.
proof fn lemma_attribute(
    hir: ResolvedHir,
    build: Build,
    seen: Set<DefId>,
    module: ModuleId,
    attribute: Attribute,
    kind: AnnotationTargetKind,
    target: AnnotationTarget,
    span: SourceRange,
    is_public: bool,
    annotation: DefId,
)
    ensures
        ({
            let (after, then_seen) = with_attribute(
                hir,
                build,
                seen,
                module,
                attribute,
                kind,
                target,
                span,
                is_public,
            );
            &&& build.errors.len() <= after.errors.len()
            &&& after.index.definitions == build.index.definitions
            &&& seen.contains(annotation) ==> then_seen.contains(annotation)
            &&& annotation_named(hir, module, attribute.name@) == Some(annotation)
                && !build.index.definitions[annotation].repeatable ==> {
                ||| build.errors.len() < after.errors.len()
                ||| !seen.contains(annotation) && then_seen.contains(annotation)
            }
        }),
{
    if let Some(named) = annotation_named(hir, module, attribute.name@) {
        if build.index.definitions.dom().contains(named) {
            lemma_arguments(
                hir,
                module,
                build.errors,
                build.index.definitions[named],
                attribute,
                span,
            );
        }
    }
}

proof fn lemma_repeated(
    hir: ResolvedHir,
    build: Build,
    seen: Set<DefId>,
    module: ModuleId,
    attributes: Seq<Attribute>,
    kind: AnnotationTargetKind,
    target: AnnotationTarget,
    span: SourceRange,
    is_public: bool,
    from: int,
    annotation: DefId,
    i: int,
    j: int,
)
    requires
        0 <= from <= attributes.len(),
        !build.index.definitions[annotation].repeatable,
        0 <= i < j < attributes.len(),
        annotation_named(hir, module, attributes[i].name@) == Some(annotation),
        annotation_named(hir, module, attributes[j].name@) == Some(annotation),
    ensures
        ({
            let after = with_attributes_from(
                hir,
                build,
                seen,
                module,
                attributes,
                kind,
                target,
                span,
                is_public,
                from,
            );
            &&& build.errors.len() <= after.errors.len()
            &&& from <= i || (seen.contains(annotation) && from <= j) ==> build.errors.len()
                < after.errors.len()
        }),
    decreases attributes.len() - from,
{
    if from < attributes.len() {
        lemma_attribute(
            hir,
            build,
            seen,
            module,
            attributes[from],
            kind,
            target,
            span,
            is_public,
            annotation,
        );
        let (next, then_seen) = with_attribute(
            hir,
            build,
            seen,
            module,
            attributes[from],
            kind,
            target,
            span,
            is_public,
        );
        lemma_repeated(
            hir,
            next,
            then_seen,
            module,
            attributes,
            kind,
            target,
            span,
            is_public,
            from + 1,
            annotation,
            i,
            j,
        );
    }
}

/// An annotation that is not repeatable and stands twice on one declaration is
/// reported.
pub proof fn law_repetition_is_reported(
    hir: ResolvedHir,
    build: Build,
    module: ModuleId,
    attributes: Seq<Attribute>,
    kind: AnnotationTargetKind,
    target: AnnotationTarget,
    span: SourceRange,
    is_public: bool,
    annotation: DefId,
    i: int,
    j: int,
)
    requires
        !build.index.definitions[annotation].repeatable,
        0 <= i < j < attributes.len(),
        annotation_named(hir, module, attributes[i].name@) == Some(annotation),
        annotation_named(hir, module, attributes[j].name@) == Some(annotation),
    ensures
        build.errors.len() < with_attributes(
            hir,
            build,
            module,
            attributes,
            kind,
            target,
            span,
            is_public,
        ).errors.len(),
{
    lemma_repeated(
        hir,
        build.named(hir, target),
        Set::empty(),
        module,
        attributes,
        kind,
        target,
        span,
        is_public,
        0,
        annotation,
        i,
        j,
    );
}

} // verus!
