//! The table of runtime annotations of a program in separate modules.

use vstd::prelude::*;

use super::registry::{collect_annotation_field_names, field_names};
use crate::annotations::{
    AnnotationInstance, AnnotationRetention, AnnotationTarget, AnnotationValue,
};
use crate::backend_layout::{
    entry, identifier_of, layout_of, names_of, user_identifier, BackendLayout, LayoutMode,
};
use crate::hir::{qualified_definition_name, qualified_name, DefId, DefKind, ModuleId, ResolvedHir};
use crate::lua_ir::{lua_string, quoted};
use crate::table::Table;
use crate::text::{
    cat3, cat4, copy_texts, decimal, decimal_text, join, joined, signed_decimal, signed_text,
    texts,
};
use crate::typed::TypedProgram;

verus! {

// ---------------------------------------------------------------------------
// Where an annotated declaration is.
// ---------------------------------------------------------------------------

/// The text of a definition identity in a message.
pub open spec fn definition_label(id: DefId) -> Seq<char> {
    "DefId("@ + decimal(id.0 as nat) + ")"@
}

/// The text of a kind of definition in a message.
pub open spec fn kind_label(kind: DefKind) -> Seq<char> {
    match kind {
        DefKind::Annotation => "Annotation"@,
        DefKind::Function => "Function"@,
        DefKind::Struct => "Struct"@,
        DefKind::Enum => "Enum"@,
        DefKind::Trait => "Trait"@,
        DefKind::TraitMethod { owner } => "TraitMethod { owner: "@ + definition_label(owner)
            + " }"@,
        DefKind::ExternFunction { extern_id } => "ExternFunction { extern_id: ExternId("@ + decimal(
            extern_id.0 as nat,
        ) + ") }"@,
        _ => Seq::empty(),
    }
}

fn definition_text(id: DefId) -> (r: String)
    ensures
        r@ == definition_label(id),
{
    cat3("DefId(", decimal_text(id.0 as u64).as_str(), ")")
}

fn kind_text(kind: DefKind) -> (r: String)
    ensures
        r@ == kind_label(kind),
{
    match kind {
        DefKind::Annotation => "Annotation".to_string(),
        DefKind::Function => "Function".to_string(),
        DefKind::Struct => "Struct".to_string(),
        DefKind::Enum => "Enum".to_string(),
        DefKind::Trait => "Trait".to_string(),
        DefKind::TraitMethod { owner } => cat3(
            "TraitMethod { owner: ",
            definition_text(owner).as_str(),
            " }",
        ),
        DefKind::ExternFunction { extern_id } => cat3(
            "ExternFunction { extern_id: ExternId(",
            decimal_text(extern_id.0 as u64).as_str(),
            ") }",
        ),
        _ => {
            let text = String::new();
            proof {
                assert(text@ =~= Seq::empty());
            }
            text
        },
    }
}

/// The module of a declaration, the definition with a place that holds it, the
/// names that lead from there to it, and what it is.
pub struct Location {
    pub module: ModuleId,
    pub base: DefId,
    pub extra: Seq<Seq<char>>,
    pub kind: Seq<char>,
}

/// What can be said of a declaration: nothing where the front end owes something,
/// where it is, or why it cannot carry runtime metadata.
pub open spec fn location(
    hir: ResolvedHir,
    names: Map<AnnotationTarget, Seq<char>>,
    target: AnnotationTarget,
) -> Option<Result<Location, Seq<char>>> {
    match target {
        AnnotationTarget::Definition(id) => if !hir.has_definition(id) {
            None
        } else {
            let data = hir.spec_definition(id);
            match data.kind {
                DefKind::EnumVariant { owner, .. } => if hir.has_definition(owner) {
                    Some(
                        Ok(
                            Location {
                                module: hir.spec_definition(owner).module,
                                base: owner,
                                extra: seq![identifier_of(data.name@)],
                                kind: "variant"@,
                            },
                        ),
                    )
                } else {
                    None
                },
                DefKind::Method { owner } => if hir.has_definition(owner) {
                    Some(
                        Ok(
                            Location {
                                module: hir.spec_definition(owner).module,
                                base: id,
                                extra: Seq::empty(),
                                kind: "method"@,
                            },
                        ),
                    )
                } else {
                    None
                },
                DefKind::Function => Some(
                    Ok(
                        Location {
                            module: data.module,
                            base: id,
                            extra: Seq::empty(),
                            kind: "function"@,
                        },
                    ),
                ),
                DefKind::Struct => Some(
                    Ok(
                        Location {
                            module: data.module,
                            base: id,
                            extra: Seq::empty(),
                            kind: "struct"@,
                        },
                    ),
                ),
                DefKind::Enum => Some(
                    Ok(
                        Location {
                            module: data.module,
                            base: id,
                            extra: Seq::empty(),
                            kind: "enum"@,
                        },
                    ),
                ),
                other => Some(
                    Err(
                        "runtime annotation target `"@ + data.name@
                            + "` has unsupported backend kind "@ + kind_label(other),
                    ),
                ),
            }
        },
        AnnotationTarget::Field { owner, index } => if !hir.has_definition(owner) {
            None
        } else {
            match entry(names, target) {
                None => Some(
                    Err(
                        "missing runtime field locator for "@ + definition_label(owner) + "/"@
                            + decimal(index as nat),
                    ),
                ),
                Some(name) => Some(
                    Ok(
                        Location {
                            module: hir.spec_definition(owner).module,
                            base: owner,
                            extra: seq![identifier_of(name)],
                            kind: "field"@,
                        },
                    ),
                ),
            }
        },
        AnnotationTarget::VariantField { variant, index } => if !hir.has_definition(variant) {
            None
        } else {
            match hir.spec_definition(variant).kind {
                DefKind::EnumVariant { owner, .. } => if !hir.has_definition(owner) {
                    None
                } else {
                    match entry(names, target) {
                        None => Some(
                            Err(
                                "missing runtime variant field locator for "@ + definition_label(
                                    variant,
                                ) + "/"@ + decimal(index as nat),
                            ),
                        ),
                        Some(name) => Some(
                            Ok(
                                Location {
                                    module: hir.spec_definition(owner).module,
                                    base: owner,
                                    extra: seq![
                                        identifier_of(hir.spec_definition(variant).name@),
                                        identifier_of(name),
                                    ],
                                    kind: "variant_field"@,
                                },
                            ),
                        ),
                    }
                },
                _ => Some(Err("runtime variant-field target has no enum owner"@)),
            }
        },
    }
}

struct Located {
    module: ModuleId,
    base: DefId,
    extra: Vec<String>,
    kind: &'static str,
}

impl Located {
    spec fn model(self) -> Location {
        Location {
            module: self.module,
            base: self.base,
            extra: texts(self.extra@),
            kind: self.kind@,
        }
    }
}

/// Whether an outcome says what the model says.
spec fn says_location(
    outcome: Option<Result<Located, String>>,
    model: Option<Result<Location, Seq<char>>>,
) -> bool {
    match outcome {
        None => model is None,
        Some(Ok(found)) => model == Some(Ok::<Location, Seq<char>>(found.model())),
        Some(Err(error)) => model == Some(Err::<Location, Seq<char>>(error@)),
    }
}

fn located(module: ModuleId, base: DefId, kind: &'static str) -> (r: Located)
    ensures
        r.model() == (Location { module, base, extra: Seq::empty(), kind: kind@ }),
{
    let r = Located { module, base, extra: Vec::new(), kind };
    proof {
        assert(texts(r.extra@) =~= Seq::empty());
    }
    r
}

fn locate(hir: &ResolvedHir, names: &Table<AnnotationTarget, String>, target: AnnotationTarget) -> (r:
    Option<Result<Located, String>>)
    ensures
        says_location(r, location(*hir, names_of(*names), target)),
{
    match target {
        AnnotationTarget::Definition(id) => {
            let data = match hir.find_definition(id) {
                Some(data) => data,
                None => {
                    return None;
                },
            };
            match data.kind {
                DefKind::EnumVariant { owner, .. } => match hir.find_definition(owner) {
                    None => None,
                    Some(parent) => Some(
                        Ok(
                            Located {
                                module: parent.module,
                                base: owner,
                                extra: crate::lua_ir::one_text(
                                    user_identifier(data.name.as_str()),
                                ),
                                kind: "variant",
                            },
                        ),
                    ),
                },
                DefKind::Method { owner } => match hir.find_definition(owner) {
                    None => None,
                    Some(parent) => Some(Ok(located(parent.module, id, "method"))),
                },
                DefKind::Function => Some(Ok(located(data.module, id, "function"))),
                DefKind::Struct => Some(Ok(located(data.module, id, "struct"))),
                DefKind::Enum => Some(Ok(located(data.module, id, "enum"))),
                other => Some(
                    Err(
                        cat4(
                            "runtime annotation target `",
                            data.name.as_str(),
                            "` has unsupported backend kind ",
                            kind_text(other).as_str(),
                        ),
                    ),
                ),
            }
        },
        AnnotationTarget::Field { owner, index } => {
            let data = match hir.find_definition(owner) {
                Some(data) => data,
                None => {
                    return None;
                },
            };
            match names.get(&target) {
                None => Some(
                    Err(
                        cat4(
                            "missing runtime field locator for ",
                            definition_text(owner).as_str(),
                            "/",
                            decimal_text(index as u64).as_str(),
                        ),
                    ),
                ),
                Some(name) => Some(
                    Ok(
                        Located {
                            module: data.module,
                            base: owner,
                            extra: crate::lua_ir::one_text(user_identifier(name.as_str())),
                            kind: "field",
                        },
                    ),
                ),
            }
        },
        AnnotationTarget::VariantField { variant, index } => {
            let data = match hir.find_definition(variant) {
                Some(data) => data,
                None => {
                    return None;
                },
            };
            match data.kind {
                DefKind::EnumVariant { owner, .. } => {
                    let parent = match hir.find_definition(owner) {
                        Some(parent) => parent,
                        None => {
                            return None;
                        },
                    };
                    match names.get(&target) {
                        None => Some(
                            Err(
                                cat4(
                                    "missing runtime variant field locator for ",
                                    definition_text(variant).as_str(),
                                    "/",
                                    decimal_text(index as u64).as_str(),
                                ),
                            ),
                        ),
                        Some(name) => Some(
                            Ok(
                                Located {
                                    module: parent.module,
                                    base: owner,
                                    extra: crate::lua_ir::two_texts(
                                        user_identifier(data.name.as_str()),
                                        user_identifier(name.as_str()),
                                    ),
                                    kind: "variant_field",
                                },
                            ),
                        ),
                    }
                },
                _ => Some(Err("runtime variant-field target has no enum owner".to_string())),
            }
        },
    }
}

// ---------------------------------------------------------------------------
// Entries.
// ---------------------------------------------------------------------------

/// One line of the metadata table.
pub struct EntryLine {
    pub annotation: Seq<char>,
    pub module_name: Seq<char>,
    pub fields: Seq<Seq<char>>,
    pub kind: Seq<char>,
    pub arguments: Seq<(String, AnnotationValue)>,
    pub source_order: u32,
}

/// The package name of a module, from entry `from` on.
pub open spec fn package_name(names: Seq<(ModuleId, Seq<char>)>, module: ModuleId, from: int) -> Option<
    Seq<char>,
>
    decreases names.len() - from,
{
    if from < 0 || from >= names.len() {
        None
    } else if names[from].0 == module {
        Some(names[from].1)
    } else {
        package_name(names, module, from + 1)
    }
}

/// The package names over mathematical texts.
pub open spec fn packages_model(names: Seq<(ModuleId, String)>) -> Seq<(ModuleId, Seq<char>)> {
    Seq::new(names.len(), |i: int| (names[i].0, names[i].1@))
}

/// The name under which a module is known at run time.
pub open spec fn runtime_module_name(
    hir: ResolvedHir,
    names: Seq<(ModuleId, Seq<char>)>,
    module: ModuleId,
) -> Seq<char> {
    match package_name(names, module, 0) {
        Some(name) => name,
        None => if module == hir.root {
            "main"@
        } else if hir.has_module(module) {
            joined(texts(hir.spec_module(module).path@), "."@)
        } else {
            Seq::empty()
        },
    }
}

/// The line of one runtime instance.
pub open spec fn entry_line(
    program: TypedProgram,
    packages: Seq<(ModuleId, Seq<char>)>,
    names: Map<AnnotationTarget, Seq<char>>,
    instance: AnnotationInstance,
    annotation: Seq<char>,
) -> Option<Result<EntryLine, Seq<char>>> {
    match location(program.hir, names, instance.target) {
        None => None,
        Some(Err(error)) => Some(Err(error)),
        Some(Ok(found)) => match layout_of(
            program.hir,
            LayoutMode::Module { current: found.module, table: "__rua_module"@ },
        ) {
            None => None,
            Some(layout) => match entry(layout.definitions, found.base) {
                None => Some(
                    Err(
                        "runtime annotation target "@ + definition_label(found.base)
                            + " has no backend place"@,
                    ),
                ),
                Some(place) => Some(
                    Ok(
                        EntryLine {
                            annotation,
                            module_name: runtime_module_name(
                                program.hir,
                                packages,
                                found.module,
                            ),
                            fields: place.fields + found.extra,
                            kind: found.kind,
                            arguments: instance.arguments@,
                            source_order: instance.source_order,
                        },
                    ),
                ),
            },
        },
    }
}

/// The lines with one more, in source order; equal ones keep their order.
pub open spec fn with_line(lines: Seq<EntryLine>, line: EntryLine) -> Seq<EntryLine>
    decreases lines.len(),
{
    if lines.len() == 0 || lines.last().source_order <= line.source_order {
        lines.push(line)
    } else {
        with_line(lines.drop_last(), line).push(lines.last())
    }
}

/// The lines of the runtime instances among `instances[from..]`, in source order.
pub open spec fn entry_lines(
    program: TypedProgram,
    packages: Seq<(ModuleId, Seq<char>)>,
    names: Map<AnnotationTarget, Seq<char>>,
    instances: Seq<AnnotationInstance>,
    from: int,
    done: Seq<EntryLine>,
) -> Option<Result<Seq<EntryLine>, Seq<char>>>
    decreases instances.len() - from,
{
    if from < 0 || from >= instances.len() {
        Some(Ok(done))
    } else {
        match program.annotations.definitions.at(instances[from].annotation) {
            None => None,
            Some(definition) => if definition.retention != AnnotationRetention::Runtime {
                entry_lines(program, packages, names, instances, from + 1, done)
            } else {
                match entry_line(
                    program,
                    packages,
                    names,
                    instances[from],
                    definition.qualified_name@,
                ) {
                    None => None,
                    Some(Err(error)) => Some(Err(error)),
                    Some(Ok(line)) => entry_lines(
                        program,
                        packages,
                        names,
                        instances,
                        from + 1,
                        with_line(done, line),
                    ),
                }
            },
        }
    }
}

struct RuntimeEntry<'a> {
    annotation: String,
    module_name: String,
    fields: Vec<String>,
    kind: &'static str,
    arguments: &'a Vec<(String, AnnotationValue)>,
    source_order: u32,
}

impl<'a> RuntimeEntry<'a> {
    spec fn model(self) -> EntryLine {
        EntryLine {
            annotation: self.annotation@,
            module_name: self.module_name@,
            fields: texts(self.fields@),
            kind: self.kind@,
            arguments: self.arguments@,
            source_order: self.source_order,
        }
    }
}

spec fn entries_model<'a>(list: Seq<RuntimeEntry<'a>>) -> Seq<EntryLine> {
    Seq::new(list.len(), |i: int| list[i].model())
}

/// The package name of a module.
pub fn find_package(names: &Vec<(ModuleId, String)>, module: ModuleId) -> (r: Option<&String>)
    ensures
        match r {
            Some(name) => package_name(packages_model(names@), module, 0) == Some(name@),
            None => package_name(packages_model(names@), module, 0) is None,
        },
{
    let ghost model = packages_model(names@);
    let mut i: usize = 0;
    while i < names.len()
        invariant
            i <= names.len(),
            model == packages_model(names@),
            package_name(model, module, i as int) == package_name(model, module, 0),
        decreases names.len() - i,
    {
        proof {
            assert(model[i as int] == (names@[i as int].0, names@[i as int].1@));
        }
        if names[i].0 == module {
            return Some(&names[i].1);
        }
        i += 1;
    }
    None
}

fn module_label(hir: &ResolvedHir, packages: &Vec<(ModuleId, String)>, module: ModuleId) -> (r:
    String)
    ensures
        r@ == runtime_module_name(*hir, packages_model(packages@), module),
{
    if let Some(name) = find_package(packages, module) {
        return name.clone();
    }
    if module == hir.root {
        return "main".to_string();
    }
    match hir.find_module(module) {
        Some(data) => join(&data.path, "."),
        None => {
            let text = String::new();
            proof {
                assert(text@ =~= Seq::empty());
            }
            text
        },
    }
}

fn runtime_entry<'a>(
    program: &TypedProgram,
    packages: &Vec<(ModuleId, String)>,
    names: &Table<AnnotationTarget, String>,
    instance: &'a AnnotationInstance,
    annotation: &str,
) -> (r: Option<Result<RuntimeEntry<'a>, String>>)
    ensures
        ({
            let model = entry_line(
                *program,
                packages_model(packages@),
                names_of(*names),
                *instance,
                annotation@,
            );
            match r {
                None => model is None,
                Some(Ok(found)) => model == Some(Ok::<EntryLine, Seq<char>>(found.model())),
                Some(Err(error)) => model == Some(Err::<EntryLine, Seq<char>>(error@)),
            }
        }),
{
    let found = match locate(&program.hir, names, instance.target) {
        None => {
            return None;
        },
        Some(Err(error)) => {
            return Some(Err(error));
        },
        Some(Ok(found)) => found,
    };
    let layout = match BackendLayout::try_for_module(program, found.module, "__rua_module") {
        None => {
            return None;
        },
        Some(layout) => layout,
    };
    let place = match layout.definition(found.base) {
        None => {
            return Some(
                Err(
                    cat3(
                        "runtime annotation target ",
                        definition_text(found.base).as_str(),
                        " has no backend place",
                    ),
                ),
            );
        },
        Some(place) => place,
    };
    let mut fields = copy_texts(&place.fields);
    let ghost first = texts(fields@);
    let ghost extra = texts(found.extra@);
    let mut i: usize = 0;
    while i < found.extra.len()
        invariant
            i <= found.extra.len(),
            extra == texts(found.extra@),
            texts(fields@) == first + extra.take(i as int),
        decreases found.extra.len() - i,
    {
        let ghost before = texts(fields@);
        fields.push(found.extra[i].clone());
        i += 1;
        proof {
            assert(texts(fields@) =~= before.push(extra[i - 1]));
            assert(texts(fields@) =~= first + extra.take(i as int));
        }
    }
    proof {
        assert(extra.take(extra.len() as int) =~= extra);
        assert(first + extra.take(0) =~= first);
    }
    Some(
        Ok(
            RuntimeEntry {
                annotation: annotation.to_string(),
                module_name: module_label(&program.hir, packages, found.module),
                fields,
                kind: found.kind,
                arguments: &instance.arguments,
                source_order: instance.source_order,
            },
        ),
    )
}

proof fn lemma_with_line(lines: Seq<EntryLine>, line: EntryLine, at: int)
    requires
        0 <= at <= lines.len(),
        at == 0 || lines[at - 1].source_order <= line.source_order,
        forall|i: int|
            at <= i < lines.len() ==> (#[trigger] lines[i]).source_order > line.source_order,
    ensures
        with_line(lines, line) == lines.insert(at, line),
    decreases lines.len(),
{
    if at == lines.len() {
        assert(lines.insert(at, line) =~= lines.push(line));
    } else {
        lemma_with_line(lines.drop_last(), line, at);
        assert(lines.insert(at, line) =~= lines.drop_last().insert(at, line).push(lines.last()));
    }
}

fn insert_entry<'a>(list: &mut Vec<RuntimeEntry<'a>>, line: RuntimeEntry<'a>)
    ensures
        entries_model(final(list)@) == with_line(entries_model(old(list)@), line.model()),
{
    let ghost before = entries_model(list@);
    let mut at: usize = list.len();
    while at > 0 && list[at - 1].source_order > line.source_order
        invariant
            at <= list.len(),
            before == entries_model(list@),
            forall|i: int|
                at <= i < before.len() ==> (#[trigger] before[i]).source_order > line.source_order,
        decreases at,
    {
        at -= 1;
    }
    proof {
        if at > 0 {
            assert(before[at - 1] == list@[at - 1].model());
        }
        lemma_with_line(before, line.model(), at as int);
    }
    list.insert(at, line);
    proof {
        assert(entries_model(list@) =~= before.insert(at as int, line.model()));
    }
}

// ---------------------------------------------------------------------------
// The table as text.
// ---------------------------------------------------------------------------

/// An annotation value as Lua text.
pub open spec fn value_text(value: AnnotationValue, hir: ResolvedHir) -> Seq<char>
    decreases value, 0int,
{
    match value {
        AnnotationValue::String(text) => quoted(text@),
        AnnotationValue::Bool(flag) => if flag {
            "true"@
        } else {
            "false"@
        },
        AnnotationValue::Integer(number) => signed_decimal(number as int),
        AnnotationValue::Float(text) => text@,
        AnnotationValue::EnumVariant(definition) => quoted(qualified_name(hir, definition)),
        AnnotationValue::List(values) => "{"@ + values_text(values@, hir, 0) + "}"@,
    }
}

/// The values `values[from..]`.
pub open spec fn values_text(values: Seq<AnnotationValue>, hir: ResolvedHir, from: int) -> Seq<char>
    decreases values, values.len() - from,
{
    if from < 0 || from >= values.len() {
        Seq::empty()
    } else {
        (if from > 0 {
            ", "@
        } else {
            Seq::empty()
        }) + value_text(values[from], hir) + values_text(values, hir, from + 1)
    }
}

/// The arguments `arguments[from..]` under their names.
pub open spec fn arguments_text(
    arguments: Seq<(String, AnnotationValue)>,
    hir: ResolvedHir,
    from: int,
) -> Seq<char>
    decreases arguments.len() - from,
{
    if from < 0 || from >= arguments.len() {
        Seq::empty()
    } else {
        (if from > 0 {
            ", "@
        } else {
            Seq::empty()
        }) + "["@ + quoted(arguments[from].0@) + "] = "@ + value_text(arguments[from].1, hir)
            + arguments_text(arguments, hir, from + 1)
    }
}

/// The names `fields[from..]`, quoted.
pub open spec fn path_text(fields: Seq<Seq<char>>, from: int) -> Seq<char>
    decreases fields.len() - from,
{
    if from < 0 || from >= fields.len() {
        Seq::empty()
    } else {
        (if from > 0 {
            ", "@
        } else {
            Seq::empty()
        }) + quoted(fields[from]) + path_text(fields, from + 1)
    }
}

/// One line of the table.
pub open spec fn line_text(line: EntryLine, hir: ResolvedHir) -> Seq<char> {
    "    { annotation = "@ + quoted(line.annotation) + ", target = { module = "@ + quoted(
        line.module_name,
    ) + ", kind = "@ + quoted(line.kind) + ", path = {"@ + path_text(line.fields, 0)
        + "} }, args = {"@ + arguments_text(line.arguments, hir, 0) + "} },\n"@
}

/// The lines `lines[from..]`.
pub open spec fn lines_text(lines: Seq<EntryLine>, hir: ResolvedHir, from: int) -> Seq<char>
    decreases lines.len() - from,
{
    if from < 0 || from >= lines.len() {
        Seq::empty()
    } else {
        line_text(lines[from], hir) + lines_text(lines, hir, from + 1)
    }
}

/// The file with the metadata of all runtime annotations.
pub open spec fn table_text(lines: Seq<EntryLine>, hir: ResolvedHir) -> Seq<char> {
    "-- Generated by ruac. Runtime annotation metadata ABI 1.\nlocal entries = {\n"@ + lines_text(
        lines,
        hir,
        0,
    ) + "}\n"@ + "local M = require(\"rua_std\").annotations\nM.set_entries(entries)\nreturn M\n"@
}

fn push_value(out: &mut String, value: &AnnotationValue, hir: &ResolvedHir)
    ensures
        final(out)@ == old(out)@ + value_text(*value, *hir),
    decreases *value, 0int,
{
    let ghost before = out@;
    match value {
        AnnotationValue::String(text) => {
            out.append(lua_string(text.as_str()).as_str());
        },
        AnnotationValue::Bool(flag) => {
            out.append(
                if *flag {
                    "true"
                } else {
                    "false"
                },
            );
        },
        AnnotationValue::Integer(number) => {
            out.append(signed_text(*number).as_str());
        },
        AnnotationValue::Float(text) => {
            out.append(text.as_str());
        },
        AnnotationValue::EnumVariant(definition) => {
            let name = qualified_definition_name(hir, *definition);
            out.append(lua_string(name.as_str()).as_str());
        },
        AnnotationValue::List(values) => {
            out.append("{");
            push_values(out, values, hir);
            out.append("}");
        },
    }
    proof {
        assert(out@ =~= before + value_text(*value, *hir));
    }
}

fn push_values(out: &mut String, values: &Vec<AnnotationValue>, hir: &ResolvedHir)
    ensures
        final(out)@ == old(out)@ + values_text(values@, *hir, 0),
    decreases *values, 0int,
{
    let ghost start = out@;
    let mut i: usize = 0;
    while i < values.len()
        invariant
            i <= values.len(),
            out@ + values_text(values@, *hir, i as int) == start + values_text(values@, *hir, 0),
        decreases values.len() - i,
    {
        let ghost before = out@;
        if i > 0 {
            out.append(", ");
        }
        push_value(out, &values[i], hir);
        i += 1;
        proof {
            assert(values_text(values@, *hir, i - 1) == (if i - 1 > 0 {
                ", "@
            } else {
                Seq::empty()
            }) + value_text(values@[i - 1], *hir) + values_text(values@, *hir, i as int));
            assert(out@ + values_text(values@, *hir, i as int) =~= before + values_text(
                values@,
                *hir,
                i - 1,
            ));
        }
    }
    proof {
        assert(out@ + Seq::<char>::empty() =~= out@);
    }
}

fn push_arguments(out: &mut String, arguments: &Vec<(String, AnnotationValue)>, hir: &ResolvedHir)
    ensures
        final(out)@ == old(out)@ + arguments_text(arguments@, *hir, 0),
{
    let ghost start = out@;
    let mut i: usize = 0;
    while i < arguments.len()
        invariant
            i <= arguments.len(),
            out@ + arguments_text(arguments@, *hir, i as int) == start + arguments_text(
                arguments@,
                *hir,
                0,
            ),
        decreases arguments.len() - i,
    {
        let ghost before = out@;
        if i > 0 {
            out.append(", ");
        }
        out.append("[");
        out.append(lua_string(arguments[i].0.as_str()).as_str());
        out.append("] = ");
        push_value(out, &arguments[i].1, hir);
        i += 1;
        proof {
            assert(out@ + arguments_text(arguments@, *hir, i as int) =~= before + arguments_text(
                arguments@,
                *hir,
                i - 1,
            ));
        }
    }
    proof {
        assert(out@ + Seq::<char>::empty() =~= out@);
    }
}

fn push_path(out: &mut String, fields: &Vec<String>)
    ensures
        final(out)@ == old(out)@ + path_text(texts(fields@), 0),
{
    let ghost start = out@;
    let ghost model = texts(fields@);
    let mut i: usize = 0;
    while i < fields.len()
        invariant
            i <= fields.len(),
            model == texts(fields@),
            out@ + path_text(model, i as int) == start + path_text(model, 0),
        decreases fields.len() - i,
    {
        let ghost before = out@;
        proof {
            assert(model[i as int] == fields@[i as int]@);
        }
        if i > 0 {
            out.append(", ");
        }
        out.append(lua_string(fields[i].as_str()).as_str());
        i += 1;
        proof {
            assert(out@ + path_text(model, i as int) =~= before + path_text(model, i - 1));
        }
    }
    proof {
        assert(out@ + Seq::<char>::empty() =~= out@);
    }
}

fn push_line<'a>(out: &mut String, line: &RuntimeEntry<'a>, hir: &ResolvedHir)
    ensures
        final(out)@ == old(out)@ + line_text(line.model(), *hir),
{
    let ghost before = out@;
    out.append("    { annotation = ");
    out.append(lua_string(line.annotation.as_str()).as_str());
    out.append(", target = { module = ");
    out.append(lua_string(line.module_name.as_str()).as_str());
    out.append(", kind = ");
    out.append(lua_string(line.kind).as_str());
    out.append(", path = {");
    push_path(out, &line.fields);
    out.append("} }, args = {");
    push_arguments(out, line.arguments, hir);
    out.append("} },\n");
    proof {
        assert(out@ =~= before + line_text(line.model(), *hir));
    }
}

fn render_annotation_table<'a>(entries: &Vec<RuntimeEntry<'a>>, hir: &ResolvedHir) -> (r: String)
    ensures
        r@ == table_text(entries_model(entries@), *hir),
{
    let mut out =
        "-- Generated by ruac. Runtime annotation metadata ABI 1.\nlocal entries = {\n".to_string();
    let ghost start = out@;
    let ghost model = entries_model(entries@);
    let mut i: usize = 0;
    while i < entries.len()
        invariant
            i <= entries.len(),
            model == entries_model(entries@),
            out@ + lines_text(model, *hir, i as int) == start + lines_text(model, *hir, 0),
        decreases entries.len() - i,
    {
        let ghost before = out@;
        proof {
            assert(model[i as int] == entries@[i as int].model());
        }
        push_line(&mut out, &entries[i], hir);
        i += 1;
        proof {
            assert(out@ + lines_text(model, *hir, i as int) =~= before + lines_text(
                model,
                *hir,
                i - 1,
            ));
        }
    }
    proof {
        assert(out@ + Seq::<char>::empty() =~= out@);
    }
    out.append("}\n");
    out.append("local M = require(\"rua_std\").annotations\nM.set_entries(entries)\nreturn M\n");
    proof {
        assert(out@ =~= table_text(model, *hir));
    }
    out
}

/// The metadata file of a program: nothing where the front end owes something,
/// no file without runtime annotations, or why there can be none.
pub open spec fn metadata_of(program: TypedProgram, packages: Seq<(ModuleId, Seq<char>)>) -> Option<
    Result<Option<Seq<char>>, Seq<char>>,
> {
    let names = field_names(program, program.syntax.items@, program.hir.root, 0, Map::empty());
    match entry_lines(
        program,
        packages,
        names,
        program.annotations.instances@,
        0,
        Seq::empty(),
    ) {
        None => None,
        Some(Err(error)) => Some(Err(error)),
        Some(Ok(lines)) => Some(
            Ok(
                if lines.len() == 0 {
                    None
                } else {
                    Some(table_text(lines, program.hir))
                },
            ),
        ),
    }
}

/// The metadata file of a program.
pub fn module_annotation_outputs(program: &TypedProgram, packages: &Vec<(ModuleId, String)>) -> (r:
    Option<Result<Option<String>, String>>)
    ensures
        ({
            let model = metadata_of(*program, packages_model(packages@));
            match r {
                None => model is None,
                Some(Err(error)) => model == Some(Err::<Option<Seq<char>>, Seq<char>>(error@)),
                Some(Ok(None)) => model == Some(Ok::<Option<Seq<char>>, Seq<char>>(None)),
                Some(Ok(Some(text))) => model == Some(
                    Ok::<Option<Seq<char>>, Seq<char>>(Some(text@)),
                ),
            }
        }),
{
    let mut names: Table<AnnotationTarget, String> = Table::new();
    proof {
        assert(names_of(names) =~= Map::empty());
    }
    collect_annotation_field_names(program, &program.syntax.items, program.hir.root, &mut names);
    let ghost field_map = names_of(names);
    let ghost model = packages_model(packages@);
    let instances = &program.annotations.instances;
    let mut entries: Vec<RuntimeEntry> = Vec::new();
    let mut i: usize = 0;
    proof {
        assert(entries_model(entries@) =~= Seq::empty());
    }
    while i < instances.len()
        invariant
            i <= instances.len(),
            field_map == names_of(names),
            model == packages_model(packages@),
            instances@ == program.annotations.instances@,
            field_map == field_names(
                *program,
                program.syntax.items@,
                program.hir.root,
                0,
                Map::empty(),
            ),
            entry_lines(
                *program,
                model,
                field_map,
                instances@,
                i as int,
                entries_model(entries@),
            ) == entry_lines(*program, model, field_map, instances@, 0, Seq::empty()),
        decreases instances.len() - i,
    {
        let instance = &instances[i];
        let definition = match program.annotations.definitions.get(&instance.annotation) {
            Some(definition) => definition,
            None => {
                return None;
            },
        };
        if definition.retention == AnnotationRetention::Runtime {
            match runtime_entry(
                program,
                packages,
                &names,
                instance,
                definition.qualified_name.as_str(),
            ) {
                None => {
                    return None;
                },
                Some(Err(error)) => {
                    return Some(Err(error));
                },
                Some(Ok(line)) => {
                    insert_entry(&mut entries, line);
                },
            }
        }
        i += 1;
    }
    proof {
        assert(entries_model(entries@).len() == entries@.len());
    }
    if entries.len() == 0 {
        return Some(Ok(None));
    }
    Some(Ok(Some(render_annotation_table(&entries, &program.hir))))
}

} // verus!
