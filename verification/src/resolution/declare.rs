//! Collection of declarations: every item, variant and method gets an identity.

use vstd::prelude::*;

use super::model::{DefRecord, HirModel, ModuleRecord};
use super::paths::found;
use crate::ast::{ExternFn, Item, Variant, VariantKind};
use crate::diag::{arguments_model, DiagRecord, DiagnosticCode, StructuredDiagnostic};
use crate::hir::{
    DefData, DefId, DefKind, ExternId, ModuleData, ModuleId, ModuleScope, ResolvedHir,
    ResolvedTarget, VariantShape,
};
use crate::table::Table;
use crate::text::{copy_texts, join, joined, same_text, texts};

verus! {

// ---------------------------------------------------------------------------
// Elementary steps.
// ---------------------------------------------------------------------------

/// Whether the arguments hold this one.
pub open spec fn has_argument(
    arguments: Seq<(Seq<char>, Seq<char>)>,
    name: Seq<char>,
    value: Seq<char>,
) -> bool {
    exists|i: int| 0 <= i < arguments.len() && #[trigger] arguments[i] == (name, value)
}

/// Whether a repeated definition was reported before.
pub open spec fn reports_duplicate(diagnostic: DiagRecord, name: Seq<char>, owner: Seq<char>) -> bool {
    diagnostic.code == DiagnosticCode::NameDuplicateDefinition && has_argument(
        diagnostic.arguments,
        "name"@,
        name,
    ) && has_argument(diagnostic.arguments, "owner"@, owner)
}

impl HirModel {
    /// One more definition.
    pub open spec fn with_definition(
        self,
        module: ModuleId,
        name: Seq<char>,
        kind: DefKind,
        is_public: bool,
    ) -> (HirModel, DefId) {
        let id = DefId(self.definitions.len() as u32);
        (
            HirModel {
                definitions: self.definitions.push(DefRecord { id, module, name, kind, is_public }),
                ..self
            },
            id,
        )
    }

    /// One more diagnostic.
    pub open spec fn diagnose(self, diagnostic: DiagRecord) -> HirModel {
        HirModel { diagnostics: self.diagnostics.push(diagnostic), ..self }
    }

    /// A repeated definition, reported once for its name and owner.
    pub open spec fn duplicate(self, module: ModuleId, name: Seq<char>) -> HirModel {
        let owner = if self.has_module(module) {
            joined(self.module(module).path, "::"@)
        } else {
            Seq::empty()
        };
        if exists|i: int|
            0 <= i < self.diagnostics.len() && reports_duplicate(
                #[trigger] self.diagnostics[i],
                name,
                owner,
            ) {
            self
        } else {
            self.diagnose(
                DiagRecord {
                    code: DiagnosticCode::NameDuplicateDefinition,
                    file: None,
                    range: None,
                    arguments: seq![("name"@, name), ("owner"@, owner)],
                },
            )
        }
    }

    /// A repeated variant.
    pub open spec fn duplicate_variant(self, owner: DefId, name: Seq<char>) -> HirModel {
        self.diagnose(
            DiagRecord {
                code: DiagnosticCode::NameDuplicateDefinition,
                file: None,
                range: None,
                arguments: seq![
                    ("name"@, name),
                    (
                        "owner"@,
                        if self.has_definition(owner) {
                            self.definition(owner).name
                        } else {
                            Seq::empty()
                        },
                    ),
                    ("kind"@, "variant"@),
                ],
            },
        )
    }

    /// Whether two definitions are variants of one enum.
    pub open spec fn same_enum(self, a: DefId, b: DefId) -> bool {
        self.has_definition(a) && self.has_definition(b) && match (
            self.definition(a).kind,
            self.definition(b).kind,
        ) {
            (
                DefKind::EnumVariant { owner: left, .. },
                DefKind::EnumVariant { owner: right, .. },
            ) => left == right,
            _ => false,
        }
    }

    /// The repetition of a name, unless both are variants of one enum.
    pub open spec fn repeated(
        self,
        module: ModuleId,
        previous: Option<DefId>,
        name: Seq<char>,
        id: DefId,
    ) -> HirModel {
        match previous {
            Some(previous) => if self.same_enum(previous, id) {
                self
            } else {
                self.duplicate(module, name)
            },
            None => self,
        }
    }

    /// A value name in a module.
    pub open spec fn with_value(self, module: ModuleId, name: Seq<char>, id: DefId) -> HirModel {
        if !self.has_module(module) {
            self
        } else {
            let data = self.module(module);
            HirModel {
                modules: self.modules.update(
                    module.0 as int,
                    ModuleRecord { values: data.values.insert(name, id), ..data },
                ),
                ..self
            }.repeated(module, found(data.values, name), name, id)
        }
    }

    /// A type name in a module.
    pub open spec fn with_type(self, module: ModuleId, name: Seq<char>, id: DefId) -> HirModel {
        if !self.has_module(module) {
            self
        } else {
            let data = self.module(module);
            HirModel {
                modules: self.modules.update(
                    module.0 as int,
                    ModuleRecord { types: data.types.insert(name, id), ..data },
                ),
                ..self
            }.repeated(module, found(data.types, name), name, id)
        }
    }

    /// A module name in a module.
    pub open spec fn with_module(self, module: ModuleId, name: Seq<char>, id: ModuleId) -> HirModel {
        if !self.has_module(module) {
            self
        } else {
            let data = self.module(module);
            let next = HirModel {
                modules: self.modules.update(
                    module.0 as int,
                    ModuleRecord { modules: data.modules.insert(name, id), ..data },
                ),
                ..self
            };
            if data.modules.dom().contains(name) {
                next.duplicate(module, name)
            } else {
                next
            }
        }
    }

    /// The identity of a source item.
    pub open spec fn with_item(self, module: ModuleId, item: int, target: ResolvedTarget) -> HirModel {
        HirModel {
            item_targets: self.item_targets.insert((module, item as usize), target),
            ..self
        }
    }
}

fn argument_present(arguments: &Vec<(String, String)>, name: &str, value: &str) -> (r: bool)
    ensures
        r == has_argument(arguments_model(arguments@), name@, value@),
{
    let ghost model = arguments_model(arguments@);
    let mut i: usize = 0;
    while i < arguments.len()
        invariant
            i <= arguments.len(),
            model == arguments_model(arguments@),
            forall|k: int| 0 <= k < i ==> #[trigger] model[k] != (name@, value@),
        decreases arguments.len() - i,
    {
        proof {
            assert(model[i as int] == (arguments@[i as int].0@, arguments@[i as int].1@));
        }
        if same_text(arguments[i].0.as_str(), name) && same_text(arguments[i].1.as_str(), value) {
            return true;
        }
        i += 1;
    }
    false
}

/// The start of a list of named arguments.
pub fn one_argument(name: &str, value: String) -> (r: Vec<(String, String)>)
    ensures
        arguments_model(r@) == seq![(name@, value@)],
{
    let mut r: Vec<(String, String)> = Vec::new();
    r.push((name.to_string(), value));
    proof {
        assert(arguments_model(r@) =~= seq![(name@, value@)]);
    }
    r
}

/// One more named argument.
pub fn push_argument(list: &mut Vec<(String, String)>, name: &str, value: String)
    ensures
        arguments_model(final(list)@) == arguments_model(old(list)@).push((name@, value@)),
{
    list.push((name.to_string(), value));
    proof {
        assert(arguments_model(list@) =~= arguments_model(old(list)@).push((name@, value@)));
    }
}

impl ResolvedHir {
    pub fn alloc_def(&mut self, module: ModuleId, name: &str, kind: DefKind, is_public: bool) -> (r: DefId)
        ensures
            (final(self)@, r) == old(self)@.with_definition(module, name@, kind, is_public),
    {
        let id = DefId::new(self.definitions.len() as u32);
        let data = DefData { id, module, name: name.to_string(), kind, is_public };
        self.definitions.push(data);
        proof {
            assert(self@.definitions =~= old(self)@.definitions.push(data.record()));
        }
        id
    }

    /// Records a diagnostic.
    pub fn diagnose(&mut self, diagnostic: StructuredDiagnostic)
        ensures
            final(self)@ == old(self)@.diagnose(diagnostic.record()),
    {
        self.diagnostics.push(diagnostic);
        proof {
            assert(self@.diagnostics =~= old(self)@.diagnostics.push(diagnostic.record()));
        }
    }

    fn already_reported(&self, name: &str, owner: &str) -> (r: bool)
        ensures
            r == (exists|i: int|
                0 <= i < self@.diagnostics.len() && reports_duplicate(
                    #[trigger] self@.diagnostics[i],
                    name@,
                    owner@,
                )),
    {
        let ghost model = self@.diagnostics;
        let mut i: usize = 0;
        while i < self.diagnostics.len()
            invariant
                i <= self.diagnostics.len(),
                model == self@.diagnostics,
                forall|k: int|
                    0 <= k < i ==> !reports_duplicate(#[trigger] model[k], name@, owner@),
            decreases self.diagnostics.len() - i,
        {
            let diagnostic = &self.diagnostics[i];
            proof {
                assert(model[i as int] == diagnostic.record());
            }
            if diagnostic.code == DiagnosticCode::NameDuplicateDefinition && argument_present(
                &diagnostic.arguments,
                "name",
                name,
            ) && argument_present(&diagnostic.arguments, "owner", owner) {
                return true;
            }
            i += 1;
        }
        false
    }

    pub fn duplicate(&mut self, module: ModuleId, name: &str)
        ensures
            final(self)@ == old(self)@.duplicate(module, name@),
    {
        let owner = match self.find_module(module) {
            Some(data) => join(&data.path, "::"),
            None => {
                let text = String::new();
                proof {
                    assert(text@ =~= Seq::empty());
                }
                text
            },
        };
        if self.already_reported(name, owner.as_str()) {
            return ;
        }
        let ghost owner_text = owner@;
        let mut arguments = one_argument("name", name.to_string());
        push_argument(&mut arguments, "owner", owner);
        proof {
            assert(arguments_model(arguments@) =~= seq![("name"@, name@), ("owner"@, owner_text)]);
        }
        self.diagnose(
            StructuredDiagnostic {
                code: DiagnosticCode::NameDuplicateDefinition,
                file: None,
                range: None,
                arguments,
            },
        );
    }

    fn duplicate_variant(&mut self, owner: DefId, name: &str)
        ensures
            final(self)@ == old(self)@.duplicate_variant(owner, name@),
    {
        let owner = match self.find_definition(owner) {
            Some(data) => data.name.clone(),
            None => {
                let text = String::new();
                proof {
                    assert(text@ =~= Seq::empty());
                }
                text
            },
        };
        let ghost owner_text = owner@;
        let mut arguments = one_argument("name", name.to_string());
        push_argument(&mut arguments, "owner", owner);
        push_argument(&mut arguments, "kind", "variant".to_string());
        proof {
            assert(arguments_model(arguments@) =~= seq![
                ("name"@, name@),
                ("owner"@, owner_text),
                ("kind"@, "variant"@),
            ]);
        }
        self.diagnose(
            StructuredDiagnostic {
                code: DiagnosticCode::NameDuplicateDefinition,
                file: None,
                range: None,
                arguments,
            },
        );
    }

    fn same_enum(&self, a: DefId, b: DefId) -> (r: bool)
        ensures
            r == self@.same_enum(a, b),
    {
        match (self.find_definition(a), self.find_definition(b)) {
            (Some(left), Some(right)) => match (left.kind, right.kind) {
                (
                    DefKind::EnumVariant { owner: left, .. },
                    DefKind::EnumVariant { owner: right, .. },
                ) => left == right,
                _ => false,
            },
            _ => false,
        }
    }

    fn report_repeated(&mut self, module: ModuleId, previous: Option<DefId>, name: &str, id: DefId)
        ensures
            final(self)@ == old(self)@.repeated(module, previous, name@, id),
    {
        if let Some(previous) = previous {
            if !self.same_enum(previous, id) {
                self.duplicate(module, name);
            }
        }
    }

    fn insert_value(&mut self, module: ModuleId, name: &str, id: DefId)
        ensures
            final(self)@ == old(self)@.with_value(module, name@, id),
    {
        let at = module.index();
        if at >= self.modules.len() {
            return ;
        }
        let key = name.to_string();
        let previous = match self.modules[at].scope.values.get(&key) {
            Some(found) => Some(*found),
            None => None,
        };
        let ghost before = *self;
        proof {
            assert(before@.module(module) == before.modules@[at as int].record());
        }
        let _ = self.modules[at].scope.values.insert(key, id);
        proof {
            let data = before@.module(module);
            assert(self@.modules =~= before@.modules.update(
                at as int,
                ModuleRecord { values: data.values.insert(name@, id), ..data },
            ));
        }
        self.report_repeated(module, previous, name, id);
    }

    fn insert_type(&mut self, module: ModuleId, name: &str, id: DefId)
        ensures
            final(self)@ == old(self)@.with_type(module, name@, id),
    {
        let at = module.index();
        if at >= self.modules.len() {
            return ;
        }
        let key = name.to_string();
        let previous = match self.modules[at].scope.types.get(&key) {
            Some(found) => Some(*found),
            None => None,
        };
        let ghost before = *self;
        proof {
            assert(before@.module(module) == before.modules@[at as int].record());
        }
        let _ = self.modules[at].scope.types.insert(key, id);
        proof {
            let data = before@.module(module);
            assert(self@.modules =~= before@.modules.update(
                at as int,
                ModuleRecord { types: data.types.insert(name@, id), ..data },
            ));
        }
        self.report_repeated(module, previous, name, id);
    }

    fn insert_module(&mut self, module: ModuleId, name: &str, id: ModuleId)
        ensures
            final(self)@ == old(self)@.with_module(module, name@, id),
    {
        let at = module.index();
        if at >= self.modules.len() {
            return ;
        }
        let ghost before = *self;
        proof {
            assert(before@.module(module) == before.modules@[at as int].record());
        }
        let repeated = self.modules[at].scope.modules.insert(name.to_string(), id);
        proof {
            let data = before@.module(module);
            assert(self@.modules =~= before@.modules.update(
                at as int,
                ModuleRecord { modules: data.modules.insert(name@, id), ..data },
            ));
        }
        if repeated {
            self.duplicate(module, name);
        }
    }

    fn set_item(&mut self, module: ModuleId, item: usize, target: ResolvedTarget)
        ensures
            final(self)@ == old(self)@.with_item(module, item as int, target),
    {
        let _ = self.item_targets.insert((module, item), target);
    }
}

// ---------------------------------------------------------------------------
// Items.
// ---------------------------------------------------------------------------

/// The shape of a variant.
pub open spec fn shape_of(variant: Variant) -> VariantShape {
    match variant.kind {
        VariantKind::Unit => VariantShape::Unit,
        VariantKind::Tuple(_) => VariantShape::Tuple,
        VariantKind::Struct(_) => VariantShape::Struct,
    }
}

/// The variants `variants[from..]` of an enum.
pub open spec fn with_variants(
    hir: HirModel,
    module: ModuleId,
    owner: DefId,
    variants: Seq<Variant>,
    is_public: bool,
    from: int,
) -> HirModel
    decreases variants.len() - from,
{
    if from < 0 || from >= variants.len() {
        hir
    } else {
        let variant = variants[from];
        let (hir, id) = hir.with_definition(
            module,
            variant.name@,
            DefKind::EnumVariant { owner, shape: shape_of(variant) },
            is_public,
        );
        let repeated = hir.enum_variants.dom().contains((owner, variant.name@));
        let hir = HirModel {
            enum_variants: hir.enum_variants.insert((owner, variant.name@), id),
            ..hir
        };
        let hir = if repeated {
            hir.duplicate_variant(owner, variant.name@)
        } else {
            hir
        };
        let hir = HirModel {
            enum_variant_targets: hir.enum_variant_targets.insert((owner, from as usize), id),
            ..hir
        };
        let hir = if shape_of(variant) == VariantShape::Unit {
            hir.with_value(module, variant.name@, id)
        } else {
            hir
        };
        with_variants(hir, module, owner, variants, is_public, from + 1)
    }
}

/// The number of host functions among the first `n` definitions.
pub open spec fn extern_count(definitions: Seq<DefRecord>, n: int) -> nat
    decreases n,
{
    if n <= 0 || n > definitions.len() {
        0
    } else {
        extern_count(definitions, n - 1) + if definitions[n - 1].kind is ExternFunction {
            1nat
        } else {
            0nat
        }
    }
}

/// The host functions `functions[from..]` of a block.
pub open spec fn with_externs(
    hir: HirModel,
    module: ModuleId,
    item: int,
    functions: Seq<ExternFn>,
    from: int,
) -> HirModel
    decreases functions.len() - from,
{
    if from < 0 || from >= functions.len() {
        hir
    } else {
        let extern_id = ExternId(
            extern_count(hir.definitions, hir.definitions.len() as int) as u32,
        );
        let (hir, id) = hir.with_definition(
            module,
            functions[from].name@,
            DefKind::ExternFunction { extern_id },
            true,
        );
        let hir = hir.with_value(module, functions[from].name@, id);
        let hir = HirModel {
            extern_function_targets: hir.extern_function_targets.insert(
                (module, (item as usize, from as usize)),
                id,
            ),
            ..hir
        };
        with_externs(hir, module, item, functions, from + 1)
    }
}

/// The file of the first item from `from` on that tells its file.
pub open spec fn file_of_items(items: Seq<Item>, from: int) -> Option<u32>
    decreases items, items.len() - from,
{
    if from < 0 || from >= items.len() {
        None
    } else {
        let file = match items[from] {
            Item::Fn(function) => Some(function.name_span.file),
            Item::Struct(structure) => if structure.fields@.len() > 0 {
                Some(structure.fields@[0].name_span.file)
            } else {
                None
            },
            Item::Trait(declaration) => if declaration.methods@.len() > 0 {
                Some(declaration.methods@[0].name_span.file)
            } else {
                None
            },
            Item::Impl(implementation) => if implementation.methods@.len() > 0 {
                Some(implementation.methods@[0].name_span.file)
            } else {
                None
            },
            Item::Mod(module) => file_of_items(module.items@, 0),
            _ => None,
        };
        match file {
            Some(file) => Some(file),
            None => file_of_items(items, from + 1),
        }
    }
}

impl HirModel {
    /// A module inside another.
    pub open spec fn open_module(self, module: ModuleId, child: crate::ast::ModDecl) -> (
        HirModel,
        ModuleId,
    ) {
        let id = ModuleId(self.modules.len() as u32);
        let known = self.has_module(module);
        let record = ModuleRecord {
            id,
            parent: Some(module),
            path: (if known {
                self.module(module).path
            } else {
                Seq::empty()
            }).push(child.name@),
            file: match file_of_items(child.items@, 0) {
                Some(file) => file,
                None => if known {
                    self.module(module).file
                } else {
                    0
                },
            },
            is_file: child.is_file,
            is_declaration: child.is_decl,
            is_public: child.is_pub,
            values: Map::empty(),
            types: Map::empty(),
            modules: Map::empty(),
        };
        (
            HirModel { modules: self.modules.push(record), ..self }.with_module(
                module,
                child.name@,
                id,
            ),
            id,
        )
    }
}

/// The declarations of `items[from..]`.
pub open spec fn with_items(hir: HirModel, module: ModuleId, items: Seq<Item>, from: int) -> HirModel
    decreases items, items.len() - from,
{
    if from < 0 || from >= items.len() {
        hir
    } else {
        let next = match items[from] {
            Item::Annotation(annotation) => {
                let (hir, id) = hir.with_definition(
                    module,
                    annotation.name@,
                    DefKind::Annotation,
                    annotation.is_pub,
                );
                hir.with_type(module, annotation.name@, id).with_item(
                    module,
                    from,
                    ResolvedTarget::Item(id),
                )
            },
            Item::Fn(function) => {
                let (hir, id) = hir.with_definition(module, function.name@, DefKind::Function, function.is_pub);
                hir.with_value(module, function.name@, id).with_item(
                    module,
                    from,
                    ResolvedTarget::Item(id),
                )
            },
            Item::Struct(structure) => {
                let (hir, id) = hir.with_definition(
                    module,
                    structure.name@,
                    DefKind::Struct,
                    structure.is_pub,
                );
                hir.with_type(module, structure.name@, id).with_value(
                    module,
                    structure.name@,
                    id,
                ).with_item(module, from, ResolvedTarget::Item(id))
            },
            Item::Enum(enumeration) => {
                let (hir, owner) = hir.with_definition(
                    module,
                    enumeration.name@,
                    DefKind::Enum,
                    enumeration.is_pub,
                );
                let hir = hir.with_type(module, enumeration.name@, owner).with_value(
                    module,
                    enumeration.name@,
                    owner,
                ).with_item(module, from, ResolvedTarget::Item(owner));
                with_variants(
                    hir,
                    module,
                    owner,
                    enumeration.variants@,
                    enumeration.is_pub,
                    0,
                )
            },
            Item::Trait(declaration) => {
                let (hir, id) = hir.with_definition(
                    module,
                    declaration.name@,
                    DefKind::Trait,
                    declaration.is_pub,
                );
                hir.with_type(module, declaration.name@, id).with_item(
                    module,
                    from,
                    ResolvedTarget::Item(id),
                )
            },
            Item::Extern(block) => with_externs(hir, module, from, block.fns@, 0),
            Item::Mod(child) => {
                let (hir, id) = hir.open_module(module, child);
                with_items(
                    hir.with_item(module, from, ResolvedTarget::Module(id)),
                    id,
                    child.items@,
                    0,
                )
            },
            _ => hir,
        };
        with_items(next, module, items, from + 1)
    }
}

fn variant_shape(variant: &Variant) -> (r: VariantShape)
    ensures
        r == shape_of(*variant),
{
    match &variant.kind {
        VariantKind::Unit => VariantShape::Unit,
        VariantKind::Tuple(_) => VariantShape::Tuple,
        VariantKind::Struct(_) => VariantShape::Struct,
    }
}

fn first_file(items: &Vec<Item>) -> (r: Option<u32>)
    ensures
        r == file_of_items(items@, 0),
    decreases *items,
{
    let mut i: usize = 0;
    while i < items.len()
        invariant
            i <= items.len(),
            file_of_items(items@, i as int) == file_of_items(items@, 0),
        decreases items.len() - i,
    {
        let file = match &items[i] {
            Item::Fn(function) => Some(function.name_span.file),
            Item::Struct(structure) => {
                if structure.fields.len() > 0 {
                    Some(structure.fields[0].name_span.file)
                } else {
                    None
                }
            },
            Item::Trait(declaration) => {
                if declaration.methods.len() > 0 {
                    Some(declaration.methods[0].name_span.file)
                } else {
                    None
                }
            },
            Item::Impl(implementation) => {
                if implementation.methods.len() > 0 {
                    Some(implementation.methods[0].name_span.file)
                } else {
                    None
                }
            },
            Item::Mod(module) => first_file(&module.items),
            _ => None,
        };
        if let Some(file) = file {
            return Some(file);
        }
        i += 1;
    }
    None
}

impl ResolvedHir {
    fn collect_variant(
        &mut self,
        module: ModuleId,
        owner: DefId,
        variant: &Variant,
        is_public: bool,
        index: usize,
    )
        ensures
            forall|variants: Seq<Variant>|
                index < variants.len() && variants[index as int] == *variant ==> #[trigger]
                    with_variants(old(self)@, module, owner, variants, is_public, index as int)
                    == with_variants(final(self)@, module, owner, variants, is_public, index + 1),
    {
        let shape = variant_shape(variant);
        let id = self.alloc_def(
            module,
            variant.name.as_str(),
            DefKind::EnumVariant { owner, shape },
            is_public,
        );
        if self.enum_variants.insert((owner, variant.name.clone()), id) {
            self.duplicate_variant(owner, variant.name.as_str());
        }
        let _ = self.enum_variant_targets.insert((owner, index), id);
        if shape == VariantShape::Unit {
            self.insert_value(module, variant.name.as_str(), id);
        }
    }

    fn collect_variants(
        &mut self,
        module: ModuleId,
        owner: DefId,
        variants: &Vec<Variant>,
        is_public: bool,
    )
        ensures
            final(self)@ == with_variants(old(self)@, module, owner, variants@, is_public, 0),
    {
        let ghost start = self@;
        let mut i: usize = 0;
        while i < variants.len()
            invariant
                i <= variants.len(),
                with_variants(self@, module, owner, variants@, is_public, i as int)
                    == with_variants(start, module, owner, variants@, is_public, 0),
            decreases variants.len() - i,
        {
            self.collect_variant(module, owner, &variants[i], is_public, i);
            i += 1;
        }
    }

    fn count_externs(&self) -> (r: usize)
        ensures
            r == extern_count(self@.definitions, self@.definitions.len() as int),
    {
        let ghost model = self@.definitions;
        let mut n: usize = 0;
        let mut i: usize = 0;
        while i < self.definitions.len()
            invariant
                i <= self.definitions.len(),
                model == self@.definitions,
                n <= i,
                n == extern_count(model, i as int),
            decreases self.definitions.len() - i,
        {
            proof {
                assert(model[i as int] == self.definitions@[i as int].record());
            }
            if let DefKind::ExternFunction { .. } = self.definitions[i].kind {
                n += 1;
            }
            i += 1;
        }
        n
    }

    fn collect_externs(&mut self, module: ModuleId, item: usize, functions: &Vec<ExternFn>)
        ensures
            final(self)@ == with_externs(old(self)@, module, item as int, functions@, 0),
    {
        let ghost start = self@;
        let mut i: usize = 0;
        while i < functions.len()
            invariant
                i <= functions.len(),
                with_externs(self@, module, item as int, functions@, i as int) == with_externs(
                    start,
                    module,
                    item as int,
                    functions@,
                    0,
                ),
            decreases functions.len() - i,
        {
            let extern_id = ExternId::new(self.count_externs() as u32);
            let name = functions[i].name.as_str();
            let id = self.alloc_def(module, name, DefKind::ExternFunction { extern_id }, true);
            self.insert_value(module, name, id);
            let _ = self.extern_function_targets.insert((module, (item, i)), id);
            i += 1;
        }
    }

    fn open_module(&mut self, module: ModuleId, child: &crate::ast::ModDecl) -> (r: ModuleId)
        ensures
            (final(self)@, r) == old(self)@.open_module(module, *child),
    {
        let id = ModuleId::new(self.modules.len() as u32);
        let (parent_path, parent_file) = match self.find_module(module) {
            Some(data) => (copy_texts(&data.path), data.file),
            None => (Vec::new(), 0),
        };
        let mut path = parent_path;
        let ghost before_path = texts(path@);
        path.push(child.name.clone());
        let file = match first_file(&child.items) {
            Some(file) => file,
            None => parent_file,
        };
        let data = ModuleData {
            id,
            parent: Some(module),
            path,
            file,
            is_file: child.is_file,
            is_declaration: child.is_decl,
            is_public: child.is_pub,
            scope: ModuleScope {
                values: Table::new(),
                types: Table::new(),
                modules: Table::new(),
            },
        };
        proof {
            assert(texts(data.path@) =~= before_path.push(child.name@));
            if !self@.has_module(module) {
                assert(before_path =~= Seq::empty());
            }
        }
        let ghost before = self@;
        self.modules.push(data);
        proof {
            assert(self@.modules =~= before.modules.push(data.record()));
        }
        self.insert_module(module, child.name.as_str(), id);
        id
    }

    pub fn collect_items(&mut self, module: ModuleId, items: &Vec<Item>)
        ensures
            final(self)@ == with_items(old(self)@, module, items@, 0),
        decreases *items,
    {
        let ghost start = self@;
        let mut i: usize = 0;
        while i < items.len()
            invariant
                i <= items.len(),
                with_items(self@, module, items@, i as int) == with_items(start, module, items@, 0),
            decreases items.len() - i,
        {
            match &items[i] {
                Item::Annotation(annotation) => {
                    let name = annotation.name.as_str();
                    let id = self.alloc_def(module, name, DefKind::Annotation, annotation.is_pub);
                    self.insert_type(module, name, id);
                    self.set_item(module, i, ResolvedTarget::Item(id));
                },
                Item::Fn(function) => {
                    let name = function.name.as_str();
                    let id = self.alloc_def(module, name, DefKind::Function, function.is_pub);
                    self.insert_value(module, name, id);
                    self.set_item(module, i, ResolvedTarget::Item(id));
                },
                Item::Struct(structure) => {
                    let name = structure.name.as_str();
                    let id = self.alloc_def(module, name, DefKind::Struct, structure.is_pub);
                    self.insert_type(module, name, id);
                    self.insert_value(module, name, id);
                    self.set_item(module, i, ResolvedTarget::Item(id));
                },
                Item::Enum(enumeration) => {
                    let name = enumeration.name.as_str();
                    let owner = self.alloc_def(module, name, DefKind::Enum, enumeration.is_pub);
                    self.insert_type(module, name, owner);
                    self.insert_value(module, name, owner);
                    self.set_item(module, i, ResolvedTarget::Item(owner));
                    self.collect_variants(
                        module,
                        owner,
                        &enumeration.variants,
                        enumeration.is_pub,
                    );
                },
                Item::Trait(declaration) => {
                    let name = declaration.name.as_str();
                    let id = self.alloc_def(module, name, DefKind::Trait, declaration.is_pub);
                    self.insert_type(module, name, id);
                    self.set_item(module, i, ResolvedTarget::Item(id));
                },
                Item::Extern(block) => {
                    self.collect_externs(module, i, &block.fns);
                },
                Item::Mod(child) => {
                    let id = self.open_module(module, child);
                    self.set_item(module, i, ResolvedTarget::Module(id));
                    self.collect_items(id, &child.items);
                },
                _ => {},
            }
            i += 1;
        }
    }
}

} // verus!
