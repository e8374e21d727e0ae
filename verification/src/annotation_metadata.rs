//! Annotation metadata as a plain document.

use vstd::prelude::*;

use crate::annotations::{
    ordered_schemas, schemas, AnnotationDefinition, AnnotationIndex, AnnotationInstance,
    AnnotationParameterType, AnnotationRetention, AnnotationTargetKind, AnnotationValue,
};
use crate::hir::{qualified_definition_name, qualified_name, ResolvedHir};
use crate::text::{cat3, chars_of, same_text};

verus! {

/// A value in a metadata document. Variants are written by their names.
#[derive(Debug)]
pub enum MetadataValue {
    String(String),
    Bool(bool),
    Integer(i64),
    /// A float in its source spelling.
    Float(String),
    List(Vec<MetadataValue>),
}

#[derive(Debug)]
pub struct MetadataParameter {
    pub name: String,
    pub ty: String,
}

#[derive(Debug)]
pub struct MetadataDefinition {
    pub name: String,
    pub retention: &'static str,
    pub repeatable: bool,
    pub targets: Vec<&'static str>,
    pub parameters: Vec<MetadataParameter>,
}

#[derive(Debug)]
pub struct MetadataInstance {
    pub annotation: String,
    pub target: String,
    pub source_order: u32,
    pub arguments: Vec<(String, MetadataValue)>,
}

/// The schemas and instances of a program.
#[derive(Debug)]
pub struct MetadataDocument {
    pub version: u32,
    pub definitions: Vec<MetadataDefinition>,
    pub instances: Vec<MetadataInstance>,
}

// ---------------------------------------------------------------------------
// Models.
// ---------------------------------------------------------------------------

pub enum PlainValue {
    String(Seq<char>),
    Bool(bool),
    Integer(i64),
    Float(Seq<char>),
    List(Seq<PlainValue>),
}

impl MetadataValue {
    pub open spec fn model(self) -> PlainValue
        decreases self,
    {
        match self {
            MetadataValue::String(text) => PlainValue::String(text@),
            MetadataValue::Bool(flag) => PlainValue::Bool(flag),
            MetadataValue::Integer(number) => PlainValue::Integer(number),
            MetadataValue::Float(text) => PlainValue::Float(text@),
            MetadataValue::List(values) => PlainValue::List(plain_list(values@)),
        }
    }
}

pub open spec fn plain_list(list: Seq<MetadataValue>) -> Seq<PlainValue>
    decreases list,
{
    Seq::new(
        list.len(),
        |i: int|
            if 0 <= i < list.len() {
                list[i].model()
            } else {
                PlainValue::Bool(false)
            },
    )
}

/// A value with variants written by their names.
pub open spec fn plain_value(value: AnnotationValue, hir: ResolvedHir) -> PlainValue
    decreases value, 0int,
{
    match value {
        AnnotationValue::String(text) => PlainValue::String(text@),
        AnnotationValue::Bool(flag) => PlainValue::Bool(flag),
        AnnotationValue::Integer(number) => PlainValue::Integer(number),
        AnnotationValue::Float(text) => PlainValue::Float(text@),
        AnnotationValue::EnumVariant(id) => PlainValue::String(qualified_name(hir, id)),
        AnnotationValue::List(values) => PlainValue::List(
            plain_values(values@, hir, 0, Seq::empty()),
        ),
    }
}

/// The values `values[from..]`.
pub open spec fn plain_values(
    values: Seq<AnnotationValue>,
    hir: ResolvedHir,
    from: int,
    done: Seq<PlainValue>,
) -> Seq<PlainValue>
    decreases values, values.len() - from,
{
    if from < 0 || from >= values.len() {
        done
    } else {
        plain_values(values, hir, from + 1, done.push(plain_value(values[from], hir)))
    }
}

pub open spec fn retention_label(retention: AnnotationRetention) -> Seq<char> {
    match retention {
        AnnotationRetention::Source => "source"@,
        AnnotationRetention::Build => "build"@,
        AnnotationRetention::Runtime => "runtime"@,
    }
}

pub open spec fn target_word(kind: AnnotationTargetKind) -> Seq<char> {
    match kind {
        AnnotationTargetKind::Struct => "struct"@,
        AnnotationTargetKind::Enum => "enum"@,
        AnnotationTargetKind::Function => "function"@,
        AnnotationTargetKind::Method => "method"@,
        AnnotationTargetKind::Field => "field"@,
        AnnotationTargetKind::Variant => "variant"@,
        AnnotationTargetKind::ExternFunction => "extern_function"@,
    }
}

/// The source spelling of a parameter type.
pub open spec fn parameter_label(ty: AnnotationParameterType, hir: ResolvedHir) -> Seq<char>
    decreases ty,
{
    match ty {
        AnnotationParameterType::String => "String"@,
        AnnotationParameterType::Bool => "bool"@,
        AnnotationParameterType::Integer => "i64"@,
        AnnotationParameterType::Float => "f64"@,
        AnnotationParameterType::Enum(id) => qualified_name(hir, id),
        AnnotationParameterType::List(element) => "Vec<"@ + parameter_label(*element, hir) + ">"@,
    }
}

/// A filter with path separators in place of dots.
pub open spec fn path_filter(filter: Seq<char>, n: int) -> Seq<char>
    decreases n,
{
    if n <= 0 || n > filter.len() {
        Seq::empty()
    } else if filter[n - 1] == '.' {
        path_filter(filter, n - 1) + "::"@
    } else {
        path_filter(filter, n - 1).push(filter[n - 1])
    }
}

/// Whether a name passes a filter.
pub open spec fn passes(filter: Option<Seq<char>>, name: Seq<char>) -> bool {
    match filter {
        Some(filter) => name == path_filter(filter, filter.len() as int),
        None => true,
    }
}

/// Whether a definition in a document says what a schema says.
pub open spec fn describes_definition(
    written: MetadataDefinition,
    definition: AnnotationDefinition,
    hir: ResolvedHir,
) -> bool {
    &&& written.name@ == definition.qualified_name@
    &&& written.retention@ == retention_label(definition.retention)
    &&& written.repeatable == definition.repeatable
    &&& written.targets@.len() == definition.targets@.len()
    &&& forall|i: int|
        0 <= i < written.targets@.len() ==> (#[trigger] written.targets@[i])@ == target_word(
            definition.targets@[i],
        )
    &&& written.parameters@.len() == definition.parameters@.len()
    &&& forall|i: int|
        0 <= i < written.parameters@.len() ==> (#[trigger] written.parameters@[i]).name@
            == definition.parameters@[i].name@ && written.parameters@[i].ty@ == parameter_label(
            definition.parameters@[i].ty,
            hir,
        )
}

/// Whether an instance in a document says what an instance says.
pub open spec fn describes_instance(
    written: MetadataInstance,
    instance: AnnotationInstance,
    index: AnnotationIndex,
    hir: ResolvedHir,
) -> bool {
    &&& index.definitions.at(instance.annotation) matches Some(definition)
        && written.annotation@ == definition.qualified_name@
    &&& written.target@ == if index@.target_names.dom().contains(instance.target) {
        index@.target_names[instance.target]
    } else {
        "<unknown-target>"@
    }
    &&& written.source_order == instance.source_order
    &&& written.arguments@.len() == instance.arguments@.len()
    &&& forall|i: int|
        0 <= i < written.arguments@.len() ==> (#[trigger] written.arguments@[i]).0@
            == instance.arguments@[i].0@ && written.arguments@[i].1.model() == plain_value(
            instance.arguments@[i].1,
            hir,
        )
}

/// The schemas of the first `n` that pass a filter.
pub open spec fn kept_definitions(
    list: Seq<AnnotationDefinition>,
    filter: Option<Seq<char>>,
    n: int,
) -> Seq<AnnotationDefinition>
    decreases n,
{
    if n <= 0 || n > list.len() {
        Seq::empty()
    } else if passes(filter, list[n - 1].qualified_name@) {
        kept_definitions(list, filter, n - 1).push(list[n - 1])
    } else {
        kept_definitions(list, filter, n - 1)
    }
}

/// Whether an instance of a schema that passes a filter.
pub open spec fn keeps_instance(
    index: AnnotationIndex,
    filter: Option<Seq<char>>,
    instance: AnnotationInstance,
) -> bool {
    match index.definitions.at(instance.annotation) {
        Some(definition) => passes(filter, definition.qualified_name@),
        None => false,
    }
}

/// The instances of the first `n` whose schemas pass a filter.
pub open spec fn kept_instances(
    index: AnnotationIndex,
    filter: Option<Seq<char>>,
    n: int,
) -> Seq<AnnotationInstance>
    decreases n,
{
    let list = index.instances@;
    if n <= 0 || n > list.len() {
        Seq::empty()
    } else if keeps_instance(index, filter, list[n - 1]) {
        kept_instances(index, filter, n - 1).push(list[n - 1])
    } else {
        kept_instances(index, filter, n - 1)
    }
}

// ---------------------------------------------------------------------------
// The document.
// ---------------------------------------------------------------------------

fn metadata_value(value: &AnnotationValue, hir: &ResolvedHir) -> (r: MetadataValue)
    ensures
        r.model() == plain_value(*value, *hir),
    decreases *value, 0int,
{
    match value {
        AnnotationValue::String(text) => MetadataValue::String(text.clone()),
        AnnotationValue::Bool(flag) => MetadataValue::Bool(*flag),
        AnnotationValue::Integer(number) => MetadataValue::Integer(*number),
        AnnotationValue::Float(text) => MetadataValue::Float(text.clone()),
        AnnotationValue::EnumVariant(id) => MetadataValue::String(
            qualified_definition_name(hir, *id),
        ),
        AnnotationValue::List(values) => MetadataValue::List(metadata_values(values, hir)),
    }
}

fn metadata_values(values: &Vec<AnnotationValue>, hir: &ResolvedHir) -> (r: Vec<MetadataValue>)
    ensures
        plain_list(r@) == plain_values(values@, *hir, 0, Seq::empty()),
    decreases *values, 0int,
{
    let mut out: Vec<MetadataValue> = Vec::new();
    let mut i: usize = 0;
    proof {
        assert(plain_list(out@) =~= Seq::empty());
    }
    while i < values.len()
        invariant
            i <= values.len(),
            plain_values(values@, *hir, i as int, plain_list(out@)) == plain_values(
                values@,
                *hir,
                0,
                Seq::empty(),
            ),
        decreases values.len() - i,
    {
        let ghost before = plain_list(out@);
        let value = metadata_value(&values[i], hir);
        out.push(value);
        proof {
            assert(plain_list(out@) =~= before.push(value.model()));
        }
        i += 1;
    }
    out
}

fn retention_name(retention: AnnotationRetention) -> (r: &'static str)
    ensures
        r@ == retention_label(retention),
{
    match retention {
        AnnotationRetention::Source => "source",
        AnnotationRetention::Build => "build",
        AnnotationRetention::Runtime => "runtime",
    }
}

fn target_kind_name(kind: AnnotationTargetKind) -> (r: &'static str)
    ensures
        r@ == target_word(kind),
{
    match kind {
        AnnotationTargetKind::Struct => "struct",
        AnnotationTargetKind::Enum => "enum",
        AnnotationTargetKind::Function => "function",
        AnnotationTargetKind::Method => "method",
        AnnotationTargetKind::Field => "field",
        AnnotationTargetKind::Variant => "variant",
        AnnotationTargetKind::ExternFunction => "extern_function",
    }
}

fn parameter_type_name(ty: &AnnotationParameterType, hir: &ResolvedHir) -> (r: String)
    ensures
        r@ == parameter_label(*ty, *hir),
    decreases *ty,
{
    match ty {
        AnnotationParameterType::String => "String".to_string(),
        AnnotationParameterType::Bool => "bool".to_string(),
        AnnotationParameterType::Integer => "i64".to_string(),
        AnnotationParameterType::Float => "f64".to_string(),
        AnnotationParameterType::Enum(id) => qualified_definition_name(hir, *id),
        AnnotationParameterType::List(element) => cat3(
            "Vec<",
            parameter_type_name(element, hir).as_str(),
            ">",
        ),
    }
}

fn separated(filter: &str) -> (r: String)
    ensures
        r@ == path_filter(filter@, filter@.len() as int),
{
    let chars = chars_of(filter);
    let mut out = String::new();
    let mut i: usize = 0;
    proof {
        assert(out@ =~= Seq::empty());
    }
    while i < chars.len()
        invariant
            i <= chars.len(),
            chars@ == filter@,
            out@ == path_filter(filter@, i as int),
        decreases chars.len() - i,
    {
        if chars[i] == '.' {
            out.append("::");
        } else {
            out.push(chars[i]);
        }
        i += 1;
    }
    out
}

fn name_passes(filter: &Option<String>, name: &str, Ghost(given): Ghost<Option<Seq<char>>>) -> (r: bool)
    requires
        match (*filter, given) {
            (Some(path), Some(text)) => path@ == path_filter(text, text.len() as int),
            (None, None) => true,
            _ => false,
        },
    ensures
        r == passes(given, name@),
{
    match filter {
        Some(filter) => same_text(name, filter.as_str()),
        None => true,
    }
}

fn metadata_definition(definition: &AnnotationDefinition, hir: &ResolvedHir) -> (r:
    MetadataDefinition)
    ensures
        describes_definition(r, *definition, *hir),
{
    let mut targets: Vec<&'static str> = Vec::new();
    let mut i: usize = 0;
    while i < definition.targets.len()
        invariant
            i <= definition.targets.len(),
            targets@.len() == i,
            forall|k: int|
                0 <= k < i ==> (#[trigger] targets@[k])@ == target_word(definition.targets@[k]),
        decreases definition.targets.len() - i,
    {
        targets.push(target_kind_name(definition.targets[i]));
        i += 1;
    }
    let mut parameters: Vec<MetadataParameter> = Vec::new();
    let mut i: usize = 0;
    while i < definition.parameters.len()
        invariant
            i <= definition.parameters.len(),
            parameters@.len() == i,
            forall|k: int|
                0 <= k < i ==> (#[trigger] parameters@[k]).name@ == definition.parameters@[k].name@
                    && parameters@[k].ty@ == parameter_label(definition.parameters@[k].ty, *hir),
        decreases definition.parameters.len() - i,
    {
        parameters.push(
            MetadataParameter {
                name: definition.parameters[i].name.clone(),
                ty: parameter_type_name(&definition.parameters[i].ty, hir),
            },
        );
        i += 1;
    }
    MetadataDefinition {
        name: definition.qualified_name.clone(),
        retention: retention_name(definition.retention),
        repeatable: definition.repeatable,
        targets,
        parameters,
    }
}

fn metadata_instance(
    instance: &AnnotationInstance,
    annotation: &str,
    index: &AnnotationIndex,
    hir: &ResolvedHir,
) -> (r: MetadataInstance)
    requires
        index.definitions.at(instance.annotation) matches Some(definition) && annotation@
            == definition.qualified_name@,
    ensures
        describes_instance(r, *instance, *index, *hir),
{
    let target = match index.target_name(instance.target) {
        Some(name) => name.to_string(),
        None => "<unknown-target>".to_string(),
    };
    let mut arguments: Vec<(String, MetadataValue)> = Vec::new();
    let mut i: usize = 0;
    while i < instance.arguments.len()
        invariant
            i <= instance.arguments.len(),
            arguments@.len() == i,
            forall|k: int|
                0 <= k < i ==> (#[trigger] arguments@[k]).0@ == instance.arguments@[k].0@
                    && arguments@[k].1.model() == plain_value(instance.arguments@[k].1, *hir),
        decreases instance.arguments.len() - i,
    {
        arguments.push(
            (instance.arguments[i].0.clone(), metadata_value(&instance.arguments[i].1, hir)),
        );
        i += 1;
    }
    MetadataInstance {
        annotation: annotation.to_string(),
        target,
        source_order: instance.source_order,
        arguments,
    }
}

/// An optional filter over mathematical texts.
pub open spec fn filter_model(filter: Option<&str>) -> Option<Seq<char>> {
    match filter {
        Some(text) => Some(text@),
        None => None,
    }
}

/// The document of all schemas and instances, or of those of one annotation.
pub fn metadata_document(index: &AnnotationIndex, hir: &ResolvedHir, filter: Option<&str>) -> (r:
    MetadataDocument)
    ensures
        r.version == 1,
        ({
            let all = ordered_schemas(
                index.definitions.entries@,
                index.definitions.entries@.len() as int,
            );
            let kept = kept_definitions(all, filter_model(filter), all.len() as int);
            &&& r.definitions@.len() == kept.len()
            &&& forall|i: int|
                0 <= i < kept.len() ==> describes_definition(
                    #[trigger] r.definitions@[i],
                    kept[i],
                    *hir,
                )
        }),
        ({
            let kept = kept_instances(
                *index,
                filter_model(filter),
                index.instances@.len() as int,
            );
            &&& r.instances@.len() == kept.len()
            &&& forall|i: int|
                0 <= i < kept.len() ==> describes_instance(
                    #[trigger] r.instances@[i],
                    kept[i],
                    *index,
                    *hir,
                )
        }),
{
    let ghost given = filter_model(filter);
    let path = match filter {
        Some(text) => Some(separated(text)),
        None => None,
    };
    let all = index.definitions();
    let ghost ordered = schemas(all@);
    let mut definitions: Vec<MetadataDefinition> = Vec::new();
    let mut i: usize = 0;
    while i < all.len()
        invariant
            i <= all.len(),
            ordered == schemas(all@),
            match (path, given) {
                (Some(path), Some(text)) => path@ == path_filter(text, text.len() as int),
                (None, None) => true,
                _ => false,
            },
            definitions@.len() == kept_definitions(ordered, given, i as int).len(),
            forall|k: int|
                0 <= k < definitions@.len() ==> describes_definition(
                    #[trigger] definitions@[k],
                    kept_definitions(ordered, given, i as int)[k],
                    *hir,
                ),
        decreases all.len() - i,
    {
        proof {
            assert(ordered[i as int] == *all@[i as int]);
        }
        if name_passes(&path, all[i].qualified_name.as_str(), Ghost(given)) {
            definitions.push(metadata_definition(all[i], hir));
        }
        i += 1;
    }
    let mut instances: Vec<MetadataInstance> = Vec::new();
    let mut i: usize = 0;
    while i < index.instances.len()
        invariant
            i <= index.instances.len(),
            match (path, given) {
                (Some(path), Some(text)) => path@ == path_filter(text, text.len() as int),
                (None, None) => true,
                _ => false,
            },
            instances@.len() == kept_instances(*index, given, i as int).len(),
            forall|k: int|
                0 <= k < instances@.len() ==> describes_instance(
                    #[trigger] instances@[k],
                    kept_instances(*index, given, i as int)[k],
                    *index,
                    *hir,
                ),
        decreases index.instances.len() - i,
    {
        let instance = &index.instances[i];
        if let Some(definition) = index.definition(instance.annotation) {
            let name = definition.qualified_name.as_str();
            if name_passes(&path, name, Ghost(given)) {
                instances.push(metadata_instance(instance, name, index, hir));
            }
        }
        i += 1;
    }
    MetadataDocument { version: 1, definitions, instances }
}

} // verus!
