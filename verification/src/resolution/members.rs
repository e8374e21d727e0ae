//! Methods: those of traits, those of implementations, and those that a type
//! inherits from its traits.

use vstd::prelude::*;

use super::declare::{one_argument, push_argument, with_items};
use super::model::{BuiltinNames, DefRecord, HirModel, ModuleRecord};
use super::paths::{child_module, found, path_target, segments_of, split_path};
use crate::ast::{FnDecl, ImplDecl, Item, Program, TraitMethod};
use crate::builtins::BuiltinTraitId;
use crate::diag::{arguments_model, DiagRecord, DiagnosticCode, StructuredDiagnostic, TextRange};
use crate::hir::{
    DefId, DefKind, ImplTarget, ModuleData, ModuleId, ModuleScope, Namespace, ResolvedHir,
    ResolvedTarget, TraitTarget,
};
use crate::order::{text_before, text_is_before};
use crate::table::{KeySet, Table};
use crate::text::{decimal, decimal_text, same_text, texts};
use crate::token::SourceRange;

verus! {

// ---------------------------------------------------------------------------
// Unresolved names.
// ---------------------------------------------------------------------------

/// Where in the source a diagnostic points.
pub open spec fn place_of(span: Option<SourceRange>) -> (Option<u32>, Option<TextRange>) {
    match span {
        Some(span) => (
            Some(span.file),
            Some(TextRange { start: span.start as u32, len: span.len as u32 }),
        ),
        None => (None, None),
    }
}

/// The arguments with the line of a diagnostic, where it has a place.
pub open spec fn with_line(
    arguments: Seq<(Seq<char>, Seq<char>)>,
    span: Option<SourceRange>,
) -> Seq<(Seq<char>, Seq<char>)> {
    match span {
        Some(span) => arguments.push(("line"@, decimal(span.line as nat))),
        None => arguments,
    }
}

impl HirModel {
    /// A diagnostic at a place.
    pub open spec fn report(
        self,
        code: DiagnosticCode,
        span: Option<SourceRange>,
        arguments: Seq<(Seq<char>, Seq<char>)>,
    ) -> HirModel {
        self.diagnose(
            DiagRecord {
                code,
                file: place_of(span).0,
                range: place_of(span).1,
                arguments: with_line(arguments, span),
            },
        )
    }

    /// A name that means nothing.
    pub open spec fn unresolved(self, span: Option<SourceRange>, name: Seq<char>) -> HirModel {
        self.report(DiagnosticCode::NameUnresolved, span, seq![("name"@, name)])
    }
}

impl ResolvedHir {
    /// Records a diagnostic at a place.
    pub fn report(
        &mut self,
        code: DiagnosticCode,
        span: Option<SourceRange>,
        arguments: Vec<(String, String)>,
    )
        ensures
            final(self)@ == old(self)@.report(code, span, arguments_model(arguments@)),
    {
        let mut arguments = arguments;
        let (file, range) = match span {
            Some(span) => {
                push_argument(&mut arguments, "line", decimal_text(span.line as u64));
                (
                    Some(span.file),
                    Some(TextRange { start: span.start as u32, len: span.len as u32 }),
                )
            },
            None => (None, None),
        };
        self.diagnose(StructuredDiagnostic { code, file, range, arguments });
    }

    /// Records a name that means nothing.
    pub fn unresolved(&mut self, span: Option<SourceRange>, name: &str)
        ensures
            final(self)@ == old(self)@.unresolved(span, name@),
    {
        self.report(
            DiagnosticCode::NameUnresolved,
            span,
            one_argument("name", name.to_string()),
        );
    }
}

// ---------------------------------------------------------------------------
// Methods of traits.
// ---------------------------------------------------------------------------

/// The methods `methods[from..]` of a trait.
pub open spec fn with_trait_methods(
    hir: HirModel,
    module: ModuleId,
    owner: DefId,
    methods: Seq<TraitMethod>,
    is_public: bool,
    from: int,
) -> HirModel
    decreases methods.len() - from,
{
    if from < 0 || from >= methods.len() {
        hir
    } else {
        let method = methods[from];
        let (hir, id) = hir.with_definition(
            module,
            method.name@,
            DefKind::TraitMethod { owner },
            is_public,
        );
        let repeated = hir.trait_items.dom().contains((owner, method.name@));
        let hir = HirModel {
            trait_items: hir.trait_items.insert((owner, method.name@), id),
            ..hir
        };
        let hir = if repeated {
            hir.duplicate(module, method.name@)
        } else {
            hir
        };
        let hir = HirModel {
            trait_default_methods: if method.default is Some {
                hir.trait_default_methods.insert(id)
            } else {
                hir.trait_default_methods
            },
            trait_method_targets: hir.trait_method_targets.insert((owner, from as usize), id),
            ..hir
        };
        with_trait_methods(hir, module, owner, methods, is_public, from + 1)
    }
}

/// The methods of the traits among `items[from..]`.
pub open spec fn with_trait_items(
    hir: HirModel,
    module: ModuleId,
    items: Seq<Item>,
    from: int,
) -> HirModel
    decreases items, items.len() - from,
{
    if from < 0 || from >= items.len() {
        hir
    } else {
        let next = match items[from] {
            Item::Trait(declaration) => match found(hir.item_targets, (module, from as usize)) {
                Some(ResolvedTarget::Item(owner)) => with_trait_methods(
                    hir,
                    module,
                    owner,
                    declaration.methods@,
                    declaration.is_pub,
                    0,
                ),
                _ => hir,
            },
            Item::Mod(child) => match child_module(hir, module, child.name@) {
                Some(id) => with_trait_items(hir, id, child.items@, 0),
                None => hir,
            },
            _ => hir,
        };
        with_trait_items(next, module, items, from + 1)
    }
}

impl ResolvedHir {
    fn collect_trait_methods(
        &mut self,
        module: ModuleId,
        owner: DefId,
        methods: &Vec<TraitMethod>,
        is_public: bool,
    )
        ensures
            final(self)@ == with_trait_methods(old(self)@, module, owner, methods@, is_public, 0),
    {
        let ghost start = self@;
        let mut i: usize = 0;
        while i < methods.len()
            invariant
                i <= methods.len(),
                with_trait_methods(self@, module, owner, methods@, is_public, i as int)
                    == with_trait_methods(start, module, owner, methods@, is_public, 0),
            decreases methods.len() - i,
        {
            let method = &methods[i];
            let name = method.name.as_str();
            let id = self.alloc_def(module, name, DefKind::TraitMethod { owner }, is_public);
            if self.trait_items.insert((owner, method.name.clone()), id) {
                self.duplicate(module, name);
            }
            if method.default.is_some() {
                let _ = self.trait_default_methods.insert(id);
            }
            let _ = self.trait_method_targets.insert((owner, i), id);
            i += 1;
        }
    }

    fn collect_trait_items(&mut self, module: ModuleId, items: &Vec<Item>)
        ensures
            final(self)@ == with_trait_items(old(self)@, module, items@, 0),
        decreases *items,
    {
        let ghost start = self@;
        let mut i: usize = 0;
        while i < items.len()
            invariant
                i <= items.len(),
                with_trait_items(self@, module, items@, i as int) == with_trait_items(
                    start,
                    module,
                    items@,
                    0,
                ),
            decreases items.len() - i,
        {
            match &items[i] {
                Item::Trait(declaration) => {
                    let target = match self.item_targets.get(&(module, i)) {
                        Some(target) => Some(*target),
                        None => None,
                    };
                    if let Some(ResolvedTarget::Item(owner)) = target {
                        self.collect_trait_methods(
                            module,
                            owner,
                            &declaration.methods,
                            declaration.is_pub,
                        );
                    }
                },
                Item::Mod(child) => {
                    if let Some(id) = self.find_child(module, &child.name) {
                        self.collect_trait_items(id, &child.items);
                    }
                },
                _ => {},
            }
            i += 1;
        }
    }
}

// ---------------------------------------------------------------------------
// Methods of implementations.
// ---------------------------------------------------------------------------

/// The number of a builtin trait.
pub open spec fn builtin_rank(id: BuiltinTraitId) -> int {
    match id {
        BuiltinTraitId::Add => 0,
        BuiltinTraitId::Sub => 1,
        BuiltinTraitId::Mul => 2,
        BuiltinTraitId::Div => 3,
        BuiltinTraitId::Rem => 4,
        BuiltinTraitId::Neg => 5,
        BuiltinTraitId::PartialEq => 6,
        BuiltinTraitId::Eq => 7,
    }
}

/// Whether one implementation comes before another: by the type, then by the
/// trait, declared traits first.
pub open spec fn impl_before(a: (DefId, TraitTarget), b: (DefId, TraitTarget)) -> bool {
    if a.0 != b.0 {
        a.0.0 < b.0.0
    } else {
        match (a.1, b.1) {
            (TraitTarget::Item(x), TraitTarget::Item(y)) => x.0 < y.0,
            (TraitTarget::Item(_), TraitTarget::Builtin(_)) => true,
            (TraitTarget::Builtin(_), TraitTarget::Item(_)) => false,
            (TraitTarget::Builtin(x), TraitTarget::Builtin(y)) => builtin_rank(x) < builtin_rank(y),
        }
    }
}

/// The implementations with one more, in order and each once.
pub open spec fn with_impl(
    list: Seq<(DefId, TraitTarget)>,
    new: (DefId, TraitTarget),
) -> Seq<(DefId, TraitTarget)>
    decreases list.len(),
{
    if list.len() == 0 || impl_before(list.last(), new) {
        list.push(new)
    } else if list.last() == new {
        list
    } else {
        with_impl(list.drop_last(), new).push(list.last())
    }
}

/// The trait that a path names: a declared one or a builtin.
pub open spec fn trait_named(
    hir: HirModel,
    target: Option<ResolvedTarget>,
    traits: Map<Seq<char>, BuiltinTraitId>,
    name: Seq<char>,
) -> Option<TraitTarget> {
    match target {
        Some(ResolvedTarget::Item(id)) => if hir.has_definition(id) && hir.definition(id).kind
            == DefKind::Trait {
            Some(TraitTarget::Item(id))
        } else {
            match found(traits, name) {
                Some(builtin) => Some(TraitTarget::Builtin(builtin)),
                None => None,
            }
        },
        _ => match found(traits, name) {
            Some(builtin) => Some(TraitTarget::Builtin(builtin)),
            None => None,
        },
    }
}

/// The trait of an implementation, recorded for its type.
pub open spec fn with_impl_trait(
    hir: HirModel,
    traits: Map<Seq<char>, BuiltinTraitId>,
    module: ModuleId,
    owner: DefId,
    name: Option<String>,
) -> (HirModel, Option<TraitTarget>) {
    match name {
        None => (hir, None),
        Some(name) => match trait_named(
            hir,
            path_target(hir, module, Namespace::Type, segments_of(name@)),
            traits,
            name@,
        ) {
            Some(target) => (
                HirModel { type_traits: with_impl(hir.type_traits, (owner, target)), ..hir },
                Some(target),
            ),
            None => (hir.unresolved(None, name@), None),
        },
    }
}

/// The methods `methods[from..]` of an implementation.
pub open spec fn with_impl_methods(
    hir: HirModel,
    module: ModuleId,
    item: int,
    owner: DefId,
    trait_target: Option<TraitTarget>,
    methods: Seq<FnDecl>,
    from: int,
) -> HirModel
    decreases methods.len() - from,
{
    if from < 0 || from >= methods.len() {
        hir
    } else {
        let method = methods[from];
        let (hir, id) = hir.with_definition(
            module,
            method.name@,
            DefKind::Method { owner },
            method.is_pub,
        );
        let repeated = hir.associated_items.dom().contains((owner, method.name@));
        let hir = HirModel {
            associated_items: hir.associated_items.insert((owner, method.name@), id),
            ..hir
        };
        let hir = if repeated {
            hir.duplicate(module, method.name@)
        } else {
            hir
        };
        let hir = match trait_target {
            Some(target) => {
                let hir = HirModel { method_traits: hir.method_traits.insert(id, target), ..hir };
                match target {
                    TraitTarget::Item(trait_id) => match found(
                        hir.trait_items,
                        (trait_id, method.name@),
                    ) {
                        Some(origin) => HirModel {
                            trait_method_implementations: hir.trait_method_implementations.insert(
                                id,
                                origin,
                            ),
                            ..hir
                        },
                        None => hir,
                    },
                    _ => hir,
                }
            },
            None => hir,
        };
        let hir = HirModel {
            impl_method_targets: hir.impl_method_targets.insert(
                (module, (item as usize, from as usize)),
                id,
            ),
            ..hir
        };
        with_impl_methods(hir, module, item, owner, trait_target, methods, from + 1)
    }
}

/// One implementation.
pub open spec fn with_impl_block(
    hir: HirModel,
    traits: Map<Seq<char>, BuiltinTraitId>,
    module: ModuleId,
    item: int,
    implementation: ImplDecl,
) -> HirModel {
    match path_target(hir, module, Namespace::Type, segments_of(implementation.owner_name@)) {
        Some(ResolvedTarget::Item(owner)) => {
            let (hir, trait_target) = with_impl_trait(
                hir,
                traits,
                module,
                owner,
                implementation.trait_name,
            );
            let hir = HirModel {
                impl_targets: hir.impl_targets.insert(
                    (module, item as usize),
                    ImplTarget { owner, trait_target },
                ),
                ..hir
            };
            with_impl_methods(
                hir,
                module,
                item,
                owner,
                trait_target,
                implementation.methods@,
                0,
            )
        },
        _ => hir.unresolved(None, implementation.owner_name@),
    }
}

/// The implementations among `items[from..]`.
pub open spec fn with_impl_items(
    hir: HirModel,
    traits: Map<Seq<char>, BuiltinTraitId>,
    module: ModuleId,
    items: Seq<Item>,
    from: int,
) -> HirModel
    decreases items, items.len() - from,
{
    if from < 0 || from >= items.len() {
        hir
    } else {
        let next = match items[from] {
            Item::Impl(implementation) => with_impl_block(
                hir,
                traits,
                module,
                from,
                implementation,
            ),
            Item::Mod(child) => match child_module(hir, module, child.name@) {
                Some(id) => with_impl_items(hir, traits, id, child.items@, 0),
                None => hir,
            },
            _ => hir,
        };
        with_impl_items(next, traits, module, items, from + 1)
    }
}

fn trait_number(id: BuiltinTraitId) -> (r: u8)
    ensures
        r == builtin_rank(id),
{
    match id {
        BuiltinTraitId::Add => 0,
        BuiltinTraitId::Sub => 1,
        BuiltinTraitId::Mul => 2,
        BuiltinTraitId::Div => 3,
        BuiltinTraitId::Rem => 4,
        BuiltinTraitId::Neg => 5,
        BuiltinTraitId::PartialEq => 6,
        BuiltinTraitId::Eq => 7,
    }
}

fn implementation_before(a: (DefId, TraitTarget), b: (DefId, TraitTarget)) -> (r: bool)
    ensures
        r == impl_before(a, b),
{
    if a.0 != b.0 {
        return a.0.0 < b.0.0;
    }
    match (a.1, b.1) {
        (TraitTarget::Item(x), TraitTarget::Item(y)) => x.0 < y.0,
        (TraitTarget::Item(_), TraitTarget::Builtin(_)) => true,
        (TraitTarget::Builtin(_), TraitTarget::Item(_)) => false,
        (TraitTarget::Builtin(x), TraitTarget::Builtin(y)) => trait_number(x) < trait_number(y),
    }
}

proof fn lemma_with_impl(
    list: Seq<(DefId, TraitTarget)>,
    new: (DefId, TraitTarget),
    at: int,
)
    requires
        0 <= at <= list.len(),
        at == 0 || impl_before(list[at - 1], new) || list[at - 1] == new,
        forall|i: int| at <= i < list.len() ==> !impl_before(#[trigger] list[i], new),
        forall|i: int| at <= i < list.len() ==> #[trigger] list[i] != new,
    ensures
        with_impl(list, new) == if at > 0 && list[at - 1] == new {
            list
        } else {
            list.insert(at, new)
        },
    decreases list.len(),
{
    if at == list.len() {
        if at > 0 && list[at - 1] == new {
            lemma_not_before_itself(new);
        } else {
            assert(list.insert(at, new) =~= list.push(new));
        }
    } else {
        lemma_with_impl(list.drop_last(), new, at);
        if at > 0 && list[at - 1] == new {
            assert(list.drop_last().push(list.last()) =~= list);
        } else {
            assert(list.insert(at, new) =~= list.drop_last().insert(at, new).push(list.last()));
        }
    }
}

proof fn lemma_not_before_itself(a: (DefId, TraitTarget))
    ensures
        !impl_before(a, a),
{
}

fn insert_impl(list: &mut Vec<(DefId, TraitTarget)>, new: (DefId, TraitTarget))
    ensures
        final(list)@ == with_impl(old(list)@, new),
{
    let mut at: usize = list.len();
    while at > 0 && !implementation_before(list[at - 1], new) && !(list[at - 1].0 == new.0
        && list[at - 1].1 == new.1)
        invariant
            at <= list.len(),
            list@ == old(list)@,
            forall|i: int| at <= i < list@.len() ==> !impl_before(#[trigger] list@[i], new),
            forall|i: int| at <= i < list@.len() ==> #[trigger] list@[i] != new,
        decreases at,
    {
        at -= 1;
    }
    proof {
        lemma_with_impl(list@, new, at as int);
    }
    if at > 0 && list[at - 1].0 == new.0 && list[at - 1].1 == new.1 {
        proof {
            assert(list@[at - 1] == new);
        }
        return ;
    }
    list.insert(at, new);
}

impl ResolvedHir {
    /// The trait that a path names: a declared one or a builtin.
    pub fn trait_named(
        &self,
        target: Option<ResolvedTarget>,
        traits: &Table<String, BuiltinTraitId>,
        name: &String,
    ) -> (r: Option<TraitTarget>)
        ensures
            r == trait_named(self@, target, traits@, name@),
    {
        if let Some(ResolvedTarget::Item(id)) = target {
            if let Some(data) = self.find_definition(id) {
                if data.kind == DefKind::Trait {
                    return Some(TraitTarget::Item(id));
                }
            }
        }
        match traits.get(name) {
            Some(builtin) => Some(TraitTarget::Builtin(*builtin)),
            None => None,
        }
    }

    fn collect_impl_trait(
        &mut self,
        traits: &Table<String, BuiltinTraitId>,
        module: ModuleId,
        owner: DefId,
        name: &Option<String>,
    ) -> (r: Option<TraitTarget>)
        ensures
            (final(self)@, r) == with_impl_trait(old(self)@, traits@, module, owner, *name),
    {
        let name = match name {
            Some(name) => name,
            None => {
                return None;
            },
        };
        let target = self.resolve_path(module, Namespace::Type, &split_path(name.as_str()));
        match self.trait_named(target, traits, name) {
            Some(target) => {
                insert_impl(&mut self.type_traits, (owner, target));
                Some(target)
            },
            None => {
                self.unresolved(None, name.as_str());
                None
            },
        }
    }

    fn collect_impl_methods(
        &mut self,
        module: ModuleId,
        item: usize,
        owner: DefId,
        trait_target: Option<TraitTarget>,
        methods: &Vec<FnDecl>,
    )
        ensures
            final(self)@ == with_impl_methods(
                old(self)@,
                module,
                item as int,
                owner,
                trait_target,
                methods@,
                0,
            ),
    {
        let ghost start = self@;
        let mut i: usize = 0;
        while i < methods.len()
            invariant
                i <= methods.len(),
                with_impl_methods(
                    self@,
                    module,
                    item as int,
                    owner,
                    trait_target,
                    methods@,
                    i as int,
                ) == with_impl_methods(
                    start,
                    module,
                    item as int,
                    owner,
                    trait_target,
                    methods@,
                    0,
                ),
            decreases methods.len() - i,
        {
            let method = &methods[i];
            let name = method.name.as_str();
            let id = self.alloc_def(module, name, DefKind::Method { owner }, method.is_pub);
            if self.associated_items.insert((owner, method.name.clone()), id) {
                self.duplicate(module, name);
            }
            if let Some(target) = trait_target {
                let _ = self.method_traits.insert(id, target);
                if let TraitTarget::Item(trait_id) = target {
                    let origin = match self.trait_items.get(&(trait_id, method.name.clone())) {
                        Some(origin) => Some(*origin),
                        None => None,
                    };
                    if let Some(origin) = origin {
                        let _ = self.trait_method_implementations.insert(id, origin);
                    }
                }
            }
            let _ = self.impl_method_targets.insert((module, (item, i)), id);
            i += 1;
        }
    }

    fn collect_impl_block(
        &mut self,
        traits: &Table<String, BuiltinTraitId>,
        module: ModuleId,
        item: usize,
        implementation: &ImplDecl,
    )
        ensures
            final(self)@ == with_impl_block(
                old(self)@,
                traits@,
                module,
                item as int,
                *implementation,
            ),
    {
        let segments = split_path(implementation.owner_name.as_str());
        let owner = match self.resolve_path(module, Namespace::Type, &segments) {
            Some(ResolvedTarget::Item(owner)) => owner,
            _ => {
                self.unresolved(None, implementation.owner_name.as_str());
                return ;
            },
        };
        let trait_target = self.collect_impl_trait(
            traits,
            module,
            owner,
            &implementation.trait_name,
        );
        let _ = self.impl_targets.insert((module, item), ImplTarget { owner, trait_target });
        self.collect_impl_methods(module, item, owner, trait_target, &implementation.methods);
    }

    fn collect_impl_items(
        &mut self,
        traits: &Table<String, BuiltinTraitId>,
        module: ModuleId,
        items: &Vec<Item>,
    )
        ensures
            final(self)@ == with_impl_items(old(self)@, traits@, module, items@, 0),
        decreases *items,
    {
        let ghost start = self@;
        let mut i: usize = 0;
        while i < items.len()
            invariant
                i <= items.len(),
                with_impl_items(self@, traits@, module, items@, i as int) == with_impl_items(
                    start,
                    traits@,
                    module,
                    items@,
                    0,
                ),
            decreases items.len() - i,
        {
            match &items[i] {
                Item::Impl(implementation) => {
                    self.collect_impl_block(traits, module, i, implementation);
                },
                Item::Mod(child) => {
                    if let Some(id) = self.find_child(module, &child.name) {
                        self.collect_impl_items(traits, id, &child.items);
                    }
                },
                _ => {},
            }
            i += 1;
        }
    }
}

// ---------------------------------------------------------------------------
// Inherited methods.
// ---------------------------------------------------------------------------

/// The names with one more, in order and each once.
pub open spec fn with_name(names: Seq<Seq<char>>, name: Seq<char>) -> Seq<Seq<char>>
    decreases names.len(),
{
    if names.len() == 0 || text_before(names.last(), name) {
        names.push(name)
    } else if names.last() == name {
        names
    } else {
        with_name(names.drop_last(), name).push(names.last())
    }
}

/// The names of the methods of a trait among the first `n` definitions, in order.
pub open spec fn trait_method_names(definitions: Seq<DefRecord>, trait_id: DefId, n: int) -> Seq<
    Seq<char>,
>
    decreases n,
{
    if n <= 0 || n > definitions.len() {
        Seq::empty()
    } else {
        let rest = trait_method_names(definitions, trait_id, n - 1);
        if definitions[n - 1].kind == (DefKind::TraitMethod { owner: trait_id }) {
            with_name(rest, definitions[n - 1].name)
        } else {
            rest
        }
    }
}

/// The default methods `names[from..]` of a trait, for a type that has no item of
/// that name.
pub open spec fn with_defaults(
    hir: HirModel,
    owner: DefId,
    trait_id: DefId,
    names: Seq<Seq<char>>,
    from: int,
) -> HirModel
    decreases names.len() - from,
{
    if from < 0 || from >= names.len() {
        hir
    } else {
        let name = names[from];
        let next = match found(hir.trait_items, (trait_id, name)) {
            Some(origin) => if !hir.trait_default_methods.contains(origin)
                || hir.associated_items.dom().contains((owner, name))
                || !hir.has_definition(owner) || !hir.has_definition(origin) {
                hir
            } else {
                let (hir, id) = hir.with_definition(
                    hir.definition(owner).module,
                    name,
                    DefKind::Method { owner },
                    hir.definition(origin).is_public,
                );
                HirModel {
                    associated_items: hir.associated_items.insert((owner, name), id),
                    method_origins: hir.method_origins.insert(id, origin),
                    method_traits: hir.method_traits.insert(id, TraitTarget::Item(trait_id)),
                    ..hir
                }
            },
            None => hir,
        };
        with_defaults(next, owner, trait_id, names, from + 1)
    }
}

/// The inherited methods of the implementations `list[from..]`.
pub open spec fn with_inherited(
    hir: HirModel,
    list: Seq<(DefId, TraitTarget)>,
    from: int,
) -> HirModel
    decreases list.len() - from,
{
    if from < 0 || from >= list.len() {
        hir
    } else {
        let next = match list[from].1 {
            TraitTarget::Item(trait_id) => with_defaults(
                hir,
                list[from].0,
                trait_id,
                trait_method_names(hir.definitions, trait_id, hir.definitions.len() as int),
                0,
            ),
            _ => hir,
        };
        with_inherited(next, list, from + 1)
    }
}

proof fn lemma_with_name(names: Seq<Seq<char>>, name: Seq<char>, at: int)
    requires
        0 <= at <= names.len(),
        at == 0 || text_before(names[at - 1], name) || names[at - 1] == name,
        forall|i: int| at <= i < names.len() ==> !text_before(#[trigger] names[i], name),
        forall|i: int| at <= i < names.len() ==> #[trigger] names[i] != name,
    ensures
        with_name(names, name) == if at > 0 && names[at - 1] == name {
            names
        } else {
            names.insert(at, name)
        },
    decreases names.len(),
{
    if at == names.len() {
        if at > 0 && names[at - 1] == name {
            lemma_text_not_before_itself(name, 0);
        } else {
            assert(names.insert(at, name) =~= names.push(name));
        }
    } else {
        lemma_with_name(names.drop_last(), name, at);
        if at > 0 && names[at - 1] == name {
            assert(names.drop_last().push(names.last()) =~= names);
        } else {
            assert(names.insert(at, name) =~= names.drop_last().insert(at, name).push(
                names.last(),
            ));
        }
    }
}

proof fn lemma_text_not_before_itself(a: Seq<char>, i: int)
    requires
        0 <= i <= a.len(),
    ensures
        !crate::order::before_from(a, a, i),
    decreases a.len() - i,
{
    if i < a.len() {
        lemma_text_not_before_itself(a, i + 1);
    }
}

fn insert_name(names: &mut Vec<String>, name: &String)
    ensures
        texts(final(names)@) == with_name(texts(old(names)@), name@),
{
    let ghost model = texts(names@);
    let mut at: usize = names.len();
    while at > 0 && !text_is_before(names[at - 1].as_str(), name.as_str()) && !same_text(
        names[at - 1].as_str(),
        name.as_str(),
    )
        invariant
            at <= names.len(),
            names@ == old(names)@,
            model == texts(names@),
            forall|i: int| at <= i < model.len() ==> !text_before(#[trigger] model[i], name@),
            forall|i: int| at <= i < model.len() ==> #[trigger] model[i] != name@,
        decreases at,
    {
        at -= 1;
    }
    proof {
        if at > 0 {
            assert(model[at - 1] == names@[at - 1]@);
        }
        lemma_with_name(model, name@, at as int);
    }
    if at > 0 && same_text(names[at - 1].as_str(), name.as_str()) {
        return ;
    }
    names.insert(at, name.clone());
    proof {
        assert(texts(names@) =~= model.insert(at as int, name@));
    }
}

impl ResolvedHir {
    fn default_names(&self, trait_id: DefId) -> (r: Vec<String>)
        ensures
            texts(r@) == trait_method_names(
                self@.definitions,
                trait_id,
                self@.definitions.len() as int,
            ),
    {
        let ghost model = self@.definitions;
        let mut names: Vec<String> = Vec::new();
        let mut i: usize = 0;
        proof {
            assert(texts(names@) =~= Seq::empty());
        }
        while i < self.definitions.len()
            invariant
                i <= self.definitions.len(),
                model == self@.definitions,
                texts(names@) == trait_method_names(model, trait_id, i as int),
            decreases self.definitions.len() - i,
        {
            proof {
                assert(model[i as int] == self.definitions@[i as int].record());
            }
            if self.definitions[i].kind == (DefKind::TraitMethod { owner: trait_id }) {
                insert_name(&mut names, &self.definitions[i].name);
            }
            i += 1;
        }
        names
    }

    fn inherit(&mut self, owner: DefId, trait_id: DefId, names: &Vec<String>)
        ensures
            final(self)@ == with_defaults(old(self)@, owner, trait_id, texts(names@), 0),
    {
        let ghost start = self@;
        let ghost model = texts(names@);
        let mut i: usize = 0;
        while i < names.len()
            invariant
                i <= names.len(),
                model == texts(names@),
                with_defaults(self@, owner, trait_id, model, i as int) == with_defaults(
                    start,
                    owner,
                    trait_id,
                    model,
                    0,
                ),
            decreases names.len() - i,
        {
            let name = &names[i];
            proof {
                assert(model[i as int] == name@);
            }
            let origin = match self.trait_items.get(&(trait_id, name.clone())) {
                Some(origin) => Some(*origin),
                None => None,
            };
            if let Some(origin) = origin {
                if self.trait_default_methods.has(&origin) && !self.associated_items.has(
                    &(owner, name.clone()),
                ) {
                    let facts = match (self.find_definition(owner), self.find_definition(origin)) {
                        (Some(owner), Some(origin)) => Some((owner.module, origin.is_public)),
                        _ => None,
                    };
                    if let Some((module, is_public)) = facts {
                        let id = self.alloc_def(
                            module,
                            name.as_str(),
                            DefKind::Method { owner },
                            is_public,
                        );
                        let _ = self.associated_items.insert((owner, name.clone()), id);
                        let _ = self.method_origins.insert(id, origin);
                        let _ = self.method_traits.insert(id, TraitTarget::Item(trait_id));
                    }
                }
            }
            i += 1;
        }
    }

    fn collect_inherited_methods(&mut self)
        ensures
            final(self)@ == with_inherited(old(self)@, old(self)@.type_traits, 0),
    {
        let ghost start = self@;
        let list = copy_impls(&self.type_traits);
        let mut i: usize = 0;
        while i < list.len()
            invariant
                i <= list.len(),
                list@ == start.type_traits,
                with_inherited(self@, list@, i as int) == with_inherited(start, list@, 0),
            decreases list.len() - i,
        {
            if let TraitTarget::Item(trait_id) = list[i].1 {
                let names = self.default_names(trait_id);
                self.inherit(list[i].0, trait_id, &names);
            }
            i += 1;
        }
    }
}

fn copy_impls(list: &Vec<(DefId, TraitTarget)>) -> (r: Vec<(DefId, TraitTarget)>)
    ensures
        r@ == list@,
{
    let mut out: Vec<(DefId, TraitTarget)> = Vec::new();
    let mut i: usize = 0;
    while i < list.len()
        invariant
            i <= list.len(),
            out@ == list@.take(i as int),
        decreases list.len() - i,
    {
        out.push((list[i].0, list[i].1));
        i += 1;
        proof {
            assert(out@ =~= list@.take(i as int));
        }
    }
    proof {
        assert(list@.take(list@.len() as int) =~= list@);
    }
    out
}

// ---------------------------------------------------------------------------
// All declarations.
// ---------------------------------------------------------------------------

/// A program without any declaration.
pub open spec fn nothing_declared(is_declaration: bool) -> HirModel {
    HirModel {
        root: ModuleId(0),
        modules: seq![
            ModuleRecord {
                id: ModuleId(0),
                parent: None,
                path: Seq::empty(),
                file: 0,
                is_file: true,
                is_declaration,
                is_public: true,
                values: Map::empty(),
                types: Map::empty(),
                modules: Map::empty(),
            },
        ],
        definitions: Seq::empty(),
        locals: Seq::empty(),
        item_targets: Map::empty(),
        enum_variant_targets: Map::empty(),
        trait_method_targets: Map::empty(),
        impl_method_targets: Map::empty(),
        extern_function_targets: Map::empty(),
        expression_targets: Map::empty(),
        pattern_targets: Map::empty(),
        type_targets: Map::empty(),
        trait_ref_targets: Map::empty(),
        enum_variants: Map::empty(),
        associated_items: Map::empty(),
        trait_items: Map::empty(),
        type_traits: Seq::empty(),
        method_origins: Map::empty(),
        trait_method_implementations: Map::empty(),
        trait_default_methods: Set::empty(),
        method_traits: Map::empty(),
        impl_targets: Map::empty(),
        imports: Seq::empty(),
        diagnostics: Seq::empty(),
        binding_targets: Map::empty(),
        language_items: Map::empty(),
        standard_runtimes: Map::empty(),
        named_runtimes: Map::empty(),
        runtime_helpers: Map::empty(),
    }
}

/// All declarations of a program.
pub open spec fn declarations_of(program: Program, traits: Map<Seq<char>, BuiltinTraitId>) -> HirModel {
    let root = ModuleId(0);
    let items = program.items@;
    let hir = with_items(nothing_declared(program.is_decl), root, items, 0);
    let hir = with_trait_items(hir, root, items, 0);
    let hir = with_impl_items(hir, traits, root, items, 0);
    with_inherited(hir, hir.type_traits, 0)
}

fn empty_hir(is_declaration: bool) -> (r: ResolvedHir)
    ensures
        r@ == nothing_declared(is_declaration),
{
    let root = ModuleId::new(0);
    let mut modules: Vec<ModuleData> = Vec::new();
    modules.push(
        ModuleData {
            id: root,
            parent: None,
            path: Vec::new(),
            file: 0,
            is_file: true,
            is_declaration,
            is_public: true,
            scope: ModuleScope {
                values: Table::new(),
                types: Table::new(),
                modules: Table::new(),
            },
        },
    );
    let r = ResolvedHir {
        root,
        modules,
        definitions: Vec::new(),
        locals: Vec::new(),
        item_targets: Table::new(),
        enum_variant_targets: Table::new(),
        trait_method_targets: Table::new(),
        impl_method_targets: Table::new(),
        extern_function_targets: Table::new(),
        expression_targets: Table::new(),
        pattern_targets: Table::new(),
        type_targets: Table::new(),
        trait_ref_targets: Table::new(),
        enum_variants: Table::new(),
        associated_items: Table::new(),
        trait_items: Table::new(),
        type_traits: Vec::new(),
        method_origins: Table::new(),
        trait_method_implementations: Table::new(),
        trait_default_methods: KeySet::new(),
        method_traits: Table::new(),
        impl_targets: Table::new(),
        imports: Vec::new(),
        diagnostics: Vec::new(),
        binding_targets: Table::new(),
        language_items: Table::new(),
        standard_runtimes: Table::new(),
        named_runtimes: Table::new(),
        runtime_helpers: Table::new(),
    };
    proof {
        let start = nothing_declared(is_declaration);
        assert(texts(r.modules@[0].path@) =~= Seq::empty());
        assert(r@.modules =~= start.modules);
        assert(r@.definitions =~= start.definitions);
        assert(r@.locals =~= start.locals);
        assert(r@.type_traits =~= start.type_traits);
        assert(r@.imports =~= start.imports);
        assert(r@.diagnostics =~= start.diagnostics);
    }
    r
}

/// Collects all declarations of a program.
pub fn collect_declarations(program: &Program, builtins: &BuiltinNames) -> (r: ResolvedHir)
    ensures
        r@ == declarations_of(*program, builtins.traits@),
{
    let mut hir = empty_hir(program.is_decl);
    let root = ModuleId::new(0);
    hir.collect_items(root, &program.items);
    hir.collect_trait_items(root, &program.items);
    hir.collect_impl_items(&builtins.traits, root, &program.items);
    hir.collect_inherited_methods();
    hir
}

} // verus!
