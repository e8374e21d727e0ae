//! Runtime annotation metadata.

use vstd::prelude::*;

use super::small::{append_field, named, no_fields};
use super::state::{Cg, Codegen, Env, EnvModel};
use crate::annotations::{
    AnnotationInstance, AnnotationRetention, AnnotationTarget, AnnotationValue,
};
use crate::ast::{Field, Item, Variant, VariantKind};
use crate::backend_layout::{entry, identifier_of, names_of, user_identifier};
use crate::hir::{qualified_definition_name, qualified_name, DefId, DefKind, ModuleId, ResolvedHir};
use crate::lua_ir::{
    fields_model, m_call, m_field, m_index, m_name, m_named, m_string, named_model, one_expr,
    Expr as LuaExpr, ExprModel, FieldModel, FunctionTarget, OpenerModel, TableField, TargetModel,
};
use crate::table::Table;
use crate::text::{signed_decimal, signed_text};
use crate::typed::TypedProgram;

verus! {

// ---------------------------------------------------------------------------
// Names.
// ---------------------------------------------------------------------------

/// The names of fields, with those of `fields[from..]`.
pub open spec fn with_fields(
    names: Map<AnnotationTarget, Seq<char>>,
    owner: DefId,
    of_variant: bool,
    fields: Seq<Field>,
    from: int,
) -> Map<AnnotationTarget, Seq<char>>
    decreases fields.len() - from,
{
    if from < 0 || from >= fields.len() || from > u32::MAX {
        names
    } else {
        let target = if of_variant {
            AnnotationTarget::VariantField { variant: owner, index: from as u32 }
        } else {
            AnnotationTarget::Field { owner, index: from as u32 }
        };
        with_fields(names.insert(target, fields[from].name@), owner, of_variant, fields, from + 1)
    }
}

/// The names of fields, with those of the variants `variants[from..]`.
pub open spec fn with_variants(
    names: Map<AnnotationTarget, Seq<char>>,
    hir: ResolvedHir,
    owner: DefId,
    variants: Seq<Variant>,
    from: int,
) -> Map<AnnotationTarget, Seq<char>>
    decreases variants.len() - from,
{
    if from < 0 || from >= variants.len() {
        names
    } else {
        let next = match (
            hir.enum_variant_targets.at((owner, from as usize)),
            variants[from].kind,
        ) {
            (Some(variant), VariantKind::Struct(fields)) => with_fields(
                names,
                variant,
                true,
                fields@,
                0,
            ),
            _ => names,
        };
        with_variants(next, hir, owner, variants, from + 1)
    }
}

/// The names of the fields that an annotation can stand on, with those of
/// `items[from..]`.
pub open spec fn field_names(
    program: TypedProgram,
    items: Seq<Item>,
    module: ModuleId,
    from: int,
    names: Map<AnnotationTarget, Seq<char>>,
) -> Map<AnnotationTarget, Seq<char>>
    decreases items, items.len() - from,
{
    if from < 0 || from >= items.len() {
        names
    } else {
        let next = match items[from] {
            Item::Struct(structure) => match program.spec_item_definition(module, from as usize) {
                Some(owner) => with_fields(names, owner, false, structure.fields@, 0),
                None => names,
            },
            Item::Enum(enumeration) => match program.spec_item_definition(module, from as usize) {
                Some(owner) => with_variants(names, program.hir, owner, enumeration.variants@, 0),
                None => names,
            },
            Item::Mod(child) => match program.spec_child_module(module, from as usize) {
                Some(inner) => field_names(program, child.items@, inner, 0, names),
                None => names,
            },
            _ => names,
        };
        field_names(program, items, module, from + 1, next)
    }
}

fn insert_name(names: &mut Table<AnnotationTarget, String>, target: AnnotationTarget, name: String)
    ensures
        names_of(*final(names)) == names_of(*old(names)).insert(target, name@),
{
    let ghost before = *names;
    let _ = names.insert(target, name);
    proof {
        crate::table::lemma_insert_at(before, *names, target, name);
        assert(names_of(*names) =~= names_of(before).insert(target, name@));
    }
}

fn collect_fields(
    names: &mut Table<AnnotationTarget, String>,
    owner: DefId,
    of_variant: bool,
    fields: &Vec<Field>,
)
    ensures
        names_of(*final(names)) == with_fields(
            names_of(*old(names)),
            owner,
            of_variant,
            fields@,
            0,
        ),
{
    let ghost start = names_of(*names);
    let mut i: usize = 0;
    while i < fields.len() && i <= u32::MAX as usize
        invariant
            i <= fields.len(),
            with_fields(names_of(*names), owner, of_variant, fields@, i as int) == with_fields(
                start,
                owner,
                of_variant,
                fields@,
                0,
            ),
        decreases fields.len() - i,
    {
        let index = i as u32;
        let target = if of_variant {
            AnnotationTarget::VariantField { variant: owner, index }
        } else {
            AnnotationTarget::Field { owner, index }
        };
        insert_name(names, target, fields[i].name.clone());
        i += 1;
    }
}

/// Collects the names of the fields that an annotation can stand on.
pub fn collect_annotation_field_names(
    program: &TypedProgram,
    items: &Vec<Item>,
    module: ModuleId,
    names: &mut Table<AnnotationTarget, String>,
)
    ensures
        names_of(*final(names)) == field_names(
            *program,
            items@,
            module,
            0,
            names_of(*old(names)),
        ),
    decreases *items,
{
    let ghost start = names_of(*names);
    let mut i: usize = 0;
    while i < items.len()
        invariant
            i <= items.len(),
            field_names(*program, items@, module, i as int, names_of(*names)) == field_names(
                *program,
                items@,
                module,
                0,
                start,
            ),
        decreases items.len() - i,
    {
        match &items[i] {
            Item::Struct(structure) => {
                if let Some(owner) = program.item_definition(module, i) {
                    collect_fields(names, owner, false, &structure.fields);
                }
            },
            Item::Enum(enumeration) => {
                if let Some(owner) = program.item_definition(module, i) {
                    let ghost before = names_of(*names);
                    let variants = &enumeration.variants;
                    let mut k: usize = 0;
                    while k < variants.len()
                        invariant
                            k <= variants.len(),
                            with_variants(
                                names_of(*names),
                                program.hir,
                                owner,
                                variants@,
                                k as int,
                            ) == with_variants(before, program.hir, owner, variants@, 0),
                        decreases variants.len() - k,
                    {
                        if let Some(variant) = program.hir.enum_variant_targets.get(&(owner, k)) {
                            if let VariantKind::Struct(fields) = &variants[k].kind {
                                collect_fields(names, *variant, true, fields);
                            }
                        }
                        k += 1;
                    }
                }
            },
            Item::Mod(child) => {
                if let Some(inner) = program.child_module(module, i) {
                    collect_annotation_field_names(program, &child.items, inner, names);
                }
            },
            _ => {},
        }
        i += 1;
    }
}

// ---------------------------------------------------------------------------
// Values.
// ---------------------------------------------------------------------------

/// An annotation value as a Lua expression.
pub open spec fn value_expr(value: AnnotationValue, hir: ResolvedHir) -> ExprModel
    decreases value, 0int,
{
    match value {
        AnnotationValue::String(text) => m_string(text@),
        AnnotationValue::Bool(flag) => ExprModel::Bool(flag),
        AnnotationValue::Integer(number) => ExprModel::Integer(signed_decimal(number as int)),
        AnnotationValue::Float(text) => ExprModel::Number(text@),
        AnnotationValue::EnumVariant(definition) => m_string(qualified_name(hir, definition)),
        AnnotationValue::List(values) => ExprModel::Table(
            value_fields(values@, hir, 0, Seq::empty()),
        ),
    }
}

/// The values `values[from..]` as positional fields.
pub open spec fn value_fields(
    values: Seq<AnnotationValue>,
    hir: ResolvedHir,
    from: int,
    done: Seq<FieldModel>,
) -> Seq<FieldModel>
    decreases values, values.len() - from,
{
    if from < 0 || from >= values.len() {
        done
    } else {
        value_fields(
            values,
            hir,
            from + 1,
            done.push(FieldModel::Value(value_expr(values[from], hir))),
        )
    }
}

/// The arguments `arguments[from..]` as fields under their names.
pub open spec fn argument_fields(
    arguments: Seq<(String, AnnotationValue)>,
    hir: ResolvedHir,
    from: int,
    done: Seq<FieldModel>,
) -> Seq<FieldModel>
    decreases arguments.len() - from,
{
    if from < 0 || from >= arguments.len() {
        done
    } else {
        argument_fields(
            arguments,
            hir,
            from + 1,
            done.push(
                FieldModel::Indexed(
                    m_string(arguments[from].0@),
                    value_expr(arguments[from].1, hir),
                ),
            ),
        )
    }
}

fn annotation_value_expr(value: &AnnotationValue, hir: &ResolvedHir) -> (r: LuaExpr)
    ensures
        r.model() == value_expr(*value, *hir),
    decreases *value, 0int,
{
    match value {
        AnnotationValue::String(text) => LuaExpr::string(text.as_str()),
        AnnotationValue::Bool(flag) => LuaExpr::Bool(*flag),
        AnnotationValue::Integer(number) => LuaExpr::Integer(signed_text(*number)),
        AnnotationValue::Float(text) => LuaExpr::Number(text.clone()),
        AnnotationValue::EnumVariant(definition) => LuaExpr::string(
            qualified_definition_name(hir, *definition).as_str(),
        ),
        AnnotationValue::List(values) => LuaExpr::Table(annotation_values(values, hir)),
    }
}

fn annotation_values(values: &Vec<AnnotationValue>, hir: &ResolvedHir) -> (r: Vec<TableField>)
    ensures
        fields_model(r@) == value_fields(values@, *hir, 0, Seq::empty()),
    decreases *values, 0int,
{
    let mut out = no_fields();
    let mut i: usize = 0;
    while i < values.len()
        invariant
            i <= values.len(),
            value_fields(values@, *hir, i as int, fields_model(out@)) == value_fields(
                values@,
                *hir,
                0,
                Seq::empty(),
            ),
        decreases values.len() - i,
    {
        append_field(&mut out, TableField::Value(annotation_value_expr(&values[i], hir)));
        i += 1;
    }
    out
}

fn annotation_arguments_expr(arguments: &Vec<(String, AnnotationValue)>, hir: &ResolvedHir) -> (r:
    LuaExpr)
    ensures
        r.model() == ExprModel::Table(argument_fields(arguments@, *hir, 0, Seq::empty())),
{
    let mut out = no_fields();
    let mut i: usize = 0;
    while i < arguments.len()
        invariant
            i <= arguments.len(),
            argument_fields(arguments@, *hir, i as int, fields_model(out@)) == argument_fields(
                arguments@,
                *hir,
                0,
                Seq::empty(),
            ),
        decreases arguments.len() - i,
    {
        append_field(
            &mut out,
            TableField::Indexed(
                LuaExpr::string(arguments[i].0.as_str()),
                annotation_value_expr(&arguments[i].1, hir),
            ),
        );
        i += 1;
    }
    LuaExpr::Table(out)
}

// ---------------------------------------------------------------------------
// The registry of a bundle.
// ---------------------------------------------------------------------------

/// A member of a type, as a target of an annotation.
pub open spec fn member_target(owner: ExprModel, member: Seq<char>, kind: Seq<char>) -> ExprModel {
    ExprModel::Table(
        m_named(
            seq![("owner"@, owner), ("member"@, m_string(member)), ("kind"@, m_string(kind))],
        ),
    )
}

/// The name of the field that an annotation stands on.
pub open spec fn target_member(
    st: Cg,
    names: Map<AnnotationTarget, Seq<char>>,
    target: AnnotationTarget,
) -> (Cg, Seq<char>) {
    match entry(names, target) {
        Some(name) => (st, identifier_of(name)),
        None => (st.fault(), Seq::empty()),
    }
}

/// What an annotation stands on, as a Lua expression.
pub open spec fn g_target(
    env: EnvModel,
    st: Cg,
    names: Map<AnnotationTarget, Seq<char>>,
    target: AnnotationTarget,
) -> (Cg, ExprModel) {
    let hir = env.program.hir;
    match target {
        AnnotationTarget::Definition(definition) => if !hir.has_definition(definition) {
            (st.fault(), ExprModel::Nil)
        } else {
            let data = hir.spec_definition(definition);
            match data.kind {
                DefKind::EnumVariant { owner, .. } => {
                    let (st, place) = st.definition_place(owner);
                    (st, place.field(identifier_of(data.name@)).expression())
                },
                _ => {
                    let (st, place) = st.definition_place(definition);
                    (st, place.expression())
                },
            }
        },
        AnnotationTarget::Field { owner, .. } => {
            let (st, place) = st.definition_place(owner);
            let (st, member) = target_member(st, names, target);
            (st, member_target(place.expression(), member, "field"@))
        },
        AnnotationTarget::VariantField { variant, .. } => if !hir.has_definition(variant) {
            (st.fault(), ExprModel::Nil)
        } else {
            match hir.spec_definition(variant).kind {
                DefKind::EnumVariant { owner, .. } => {
                    let (st, place) = st.definition_place(owner);
                    let (st, member) = target_member(st, names, target);
                    (
                        st,
                        member_target(
                            place.field(
                                identifier_of(hir.spec_definition(variant).name@),
                            ).expression(),
                            member,
                            "variant_field"@,
                        ),
                    )
                },
                _ => (st.fault(), ExprModel::Nil),
            }
        },
    }
}

/// The registry entries of the runtime instances among `instances[from..]`.
pub open spec fn g_entries(
    env: EnvModel,
    st: Cg,
    names: Map<AnnotationTarget, Seq<char>>,
    instances: Seq<AnnotationInstance>,
    from: int,
    done: Seq<FieldModel>,
) -> (Cg, Seq<FieldModel>)
    decreases instances.len() - from,
{
    if from < 0 || from >= instances.len() {
        (st, done)
    } else {
        let instance = instances[from];
        match env.program.annotations.definitions.at(instance.annotation) {
            Some(definition) => if definition.retention == AnnotationRetention::Runtime {
                let (st, target) = g_target(env, st, names, instance.target);
                let value = ExprModel::Table(
                    m_named(
                        seq![
                            ("annotation"@, m_string(definition.qualified_name@)),
                            ("target"@, target),
                            (
                                "args"@,
                                ExprModel::Table(
                                    argument_fields(
                                        instance.arguments@,
                                        env.program.hir,
                                        0,
                                        Seq::empty(),
                                    ),
                                ),
                            ),
                        ],
                    ),
                );
                g_entries(env, st, names, instances, from + 1, done.push(FieldModel::Value(value)))
            } else {
                g_entries(env, st, names, instances, from + 1, done)
            },
            None => g_entries(env, st, names, instances, from + 1, done),
        }
    }
}

/// The registry of all runtime annotations of a bundle, where there are any.
pub open spec fn g_registry(env: EnvModel, st: Cg) -> Cg {
    let program = env.program;
    let names = field_names(program, program.syntax.items@, program.hir.root, 0, Map::empty());
    let (after, entries) = g_entries(
        env,
        st,
        names,
        program.annotations.instances@,
        0,
        Seq::empty(),
    );
    if entries.len() == 0 {
        st
    } else {
        let registry = m_name("__rua_annotations"@);
        after.local("__rua_annotation_entries"@, Some(ExprModel::Table(entries))).local(
            "__rua_annotations"@,
            Some(m_field(m_call(m_name("require"@), seq![m_string("rua_std"@)]), "annotations"@)),
        ).expression(
            m_call(m_field(registry, "set_entries"@), seq![m_name("__rua_annotation_entries"@)]),
        ).begin(
            OpenerModel::Function {
                target: TargetModel::Path(seq!["__rua_annotations"@, "load"@]),
                params: seq!["entry"@],
            },
        ).return_value(m_field(m_name("entry"@), "target"@)).end().assign(
            m_index(m_field(m_name("package"@), "loaded"@), m_string("rua_annotations"@)),
            registry,
        ).blank()
    }
}

/// A field of a Lua expression.
fn part(value: LuaExpr, name: &str) -> (r: LuaExpr)
    ensures
        r.model() == m_field(value.model(), name@),
{
    LuaExpr::Field { base: Box::new(value), name: name.to_string() }
}

fn member_entry(owner: LuaExpr, member: &str, kind: &str) -> (r: LuaExpr)
    ensures
        r.model() == member_target(owner.model(), member@, kind@),
{
    let mut fields: Vec<(String, LuaExpr)> = Vec::new();
    let member = LuaExpr::string(member);
    let kind = LuaExpr::string(kind);
    fields.push(("owner".to_string(), owner));
    fields.push(("member".to_string(), member));
    fields.push(("kind".to_string(), kind));
    proof {
        assert(named_model(fields@) =~= seq![
            ("owner"@, owner.model()),
            ("member"@, member.model()),
            ("kind"@, kind.model()),
        ]);
    }
    LuaExpr::named_table(fields)
}

fn registry_entry(annotation: &str, target: LuaExpr, arguments: LuaExpr) -> (r: LuaExpr)
    ensures
        r.model() == ExprModel::Table(
            m_named(
                seq![
                    ("annotation"@, m_string(annotation@)),
                    ("target"@, target.model()),
                    ("args"@, arguments.model()),
                ],
            ),
        ),
{
    let mut fields: Vec<(String, LuaExpr)> = Vec::new();
    let name = LuaExpr::string(annotation);
    fields.push(("annotation".to_string(), name));
    fields.push(("target".to_string(), target));
    fields.push(("args".to_string(), arguments));
    proof {
        assert(named_model(fields@) =~= seq![
            ("annotation"@, m_string(annotation@)),
            ("target"@, target.model()),
            ("args"@, arguments.model()),
        ]);
    }
    LuaExpr::named_table(fields)
}

impl Codegen {
    fn target_member(&mut self, names: &Table<AnnotationTarget, String>, target: AnnotationTarget) -> (r:
        String)
        ensures
            (final(self)@, r@) == target_member(old(self)@, names_of(*names), target),
            final(self)@.lua == old(self)@.lua,
    {
        match names.get(&target) {
            Some(name) => user_identifier(name.as_str()),
            None => {
                self.fault();
                String::new()
            },
        }
    }

    fn gen_target(
        &mut self,
        env: &Env,
        names: &Table<AnnotationTarget, String>,
        target: AnnotationTarget,
    ) -> (r: LuaExpr)
        ensures
            (final(self)@, r.model()) == g_target(env@, old(self)@, names_of(*names), target),
            final(self)@.lua == old(self)@.lua,
    {
        let hir = &env.program.hir;
        match target {
            AnnotationTarget::Definition(definition) => match hir.find_definition(definition) {
                None => {
                    self.fault();
                    LuaExpr::Nil
                },
                Some(data) => match data.kind {
                    DefKind::EnumVariant { owner, .. } => {
                        let place = self.definition_place(owner);
                        place.field(user_identifier(data.name.as_str()).as_str()).expression()
                    },
                    _ => self.definition_place(definition).expression(),
                },
            },
            AnnotationTarget::Field { owner, .. } => {
                let place = self.definition_place(owner);
                let member = self.target_member(names, target);
                member_entry(place.expression(), member.as_str(), "field")
            },
            AnnotationTarget::VariantField { variant, .. } => match hir.find_definition(variant) {
                None => {
                    self.fault();
                    LuaExpr::Nil
                },
                Some(data) => match data.kind {
                    DefKind::EnumVariant { owner, .. } => {
                        let place = self.definition_place(owner);
                        let member = self.target_member(names, target);
                        member_entry(
                            place.field(user_identifier(data.name.as_str()).as_str()).expression(),
                            member.as_str(),
                            "variant_field",
                        )
                    },
                    _ => {
                        self.fault();
                        LuaExpr::Nil
                    },
                },
            },
        }
    }

    fn gen_entries(&mut self, env: &Env, names: &Table<AnnotationTarget, String>) -> (r: Vec<
        TableField,
    >)
        ensures
            (final(self)@, fields_model(r@)) == g_entries(
                env@,
                old(self)@,
                names_of(*names),
                env.program.annotations.instances@,
                0,
                Seq::empty(),
            ),
            final(self)@.lua == old(self)@.lua,
    {
        let ghost start = self@;
        let ghost model = names_of(*names);
        let instances = &env.program.annotations.instances;
        let mut out = no_fields();
        let mut i: usize = 0;
        while i < instances.len()
            invariant
                i <= instances.len(),
                model == names_of(*names),
                instances@ == env.program.annotations.instances@,
                g_entries(env@, self@, model, instances@, i as int, fields_model(out@))
                    == g_entries(env@, start, model, instances@, 0, Seq::empty()),
                self@.lua == start.lua,
            decreases instances.len() - i,
        {
            let instance = &instances[i];
            if let Some(definition) = env.program.annotations.definitions.get(
                &instance.annotation,
            ) {
                if definition.retention == AnnotationRetention::Runtime {
                    let target = self.gen_target(env, names, instance.target);
                    let arguments = annotation_arguments_expr(
                        &instance.arguments,
                        &env.program.hir,
                    );
                    let value = registry_entry(
                        definition.qualified_name.as_str(),
                        target,
                        arguments,
                    );
                    append_field(&mut out, TableField::Value(value));
                }
            }
            i += 1;
        }
        out
    }

    /// The registry of all runtime annotations of a bundle, where there are any.
    pub fn gen_bundle_annotation_registry(&mut self, env: &Env)
        ensures
            final(self)@ == g_registry(env@, old(self)@),
            final(self)@.lua.shape() == old(self)@.lua.shape(),
    {
        let program = env.program;
        let mut names: Table<AnnotationTarget, String> = Table::new();
        proof {
            assert(names_of(names) =~= Map::empty());
        }
        collect_annotation_field_names(program, &program.syntax.items, program.hir.root, &mut names);
        let ghost before = self@;
        let entries = self.gen_entries(env, &names);
        proof {
            assert(fields_model(entries@).len() == entries@.len());
        }
        if entries.len() == 0 {
            proof {
                lemma_no_entries(
                    env@,
                    before,
                    names_of(names),
                    env.program.annotations.instances@,
                    0,
                    Seq::empty(),
                );
            }
            return ;
        }
        self.local("__rua_annotation_entries", LuaExpr::Table(entries));
        self.local(
            "__rua_annotations",
            part(named("require").call(one_expr(LuaExpr::string("rua_std"))), "annotations"),
        );
        self.expression_statement(
            part(named("__rua_annotations"), "set_entries").call(
                one_expr(named("__rua_annotation_entries")),
            ),
        );
        let target = crate::lua_ir::two_texts("__rua_annotations".to_string(), "load".to_string());
        let params = crate::lua_ir::one_text("entry".to_string());
        self.begin_function(FunctionTarget::Path(target), params);
        self.return_value(part(named("entry"), "target"));
        self.end_block();
        self.assign(
            part(named("package"), "loaded").index(LuaExpr::string("rua_annotations")),
            named("__rua_annotations"),
        );
        self.blank();
    }
}

/// Without an entry nothing has changed.
proof fn lemma_no_entries(
    env: EnvModel,
    st: Cg,
    names: Map<AnnotationTarget, Seq<char>>,
    instances: Seq<AnnotationInstance>,
    from: int,
    done: Seq<FieldModel>,
)
    ensures
        g_entries(env, st, names, instances, from, done).1.len() >= done.len(),
        g_entries(env, st, names, instances, from, done).1.len() == done.len() ==> g_entries(
            env,
            st,
            names,
            instances,
            from,
            done,
        ).0 == st,
    decreases instances.len() - from,
{
    if 0 <= from < instances.len() {
        let instance = instances[from];
        match env.program.annotations.definitions.at(instance.annotation) {
            Some(definition) => if definition.retention == AnnotationRetention::Runtime {
                let (next, target) = g_target(env, st, names, instance.target);
                let value = ExprModel::Table(
                    m_named(
                        seq![
                            ("annotation"@, m_string(definition.qualified_name@)),
                            ("target"@, target),
                            (
                                "args"@,
                                ExprModel::Table(
                                    argument_fields(
                                        instance.arguments@,
                                        env.program.hir,
                                        0,
                                        Seq::empty(),
                                    ),
                                ),
                            ),
                        ],
                    ),
                );
                lemma_no_entries(
                    env,
                    next,
                    names,
                    instances,
                    from + 1,
                    done.push(FieldModel::Value(value)),
                );
            } else {
                lemma_no_entries(env, st, names, instances, from + 1, done);
            },
            None => {
                lemma_no_entries(env, st, names, instances, from + 1, done);
            },
        }
    }
}

} // verus!
