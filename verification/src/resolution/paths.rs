//! What a path refers to, and who may refer to it.

use vstd::prelude::*;

use super::model::HirModel;
use crate::builtins::BuiltinId;
use crate::hir::{DefId, DefKind, ModuleId, Namespace, ResolvedHir, ResolvedTarget};
use crate::text::{cat3, chars_of, join, joined, same_text, text_between, texts};

verus! {

/// The value behind a key, where there is one.
pub open spec fn found<K, V>(map: Map<K, V>, key: K) -> Option<V> {
    if map.dom().contains(key) {
        Some(map[key])
    } else {
        None
    }
}

// ---------------------------------------------------------------------------
// Segments.
// ---------------------------------------------------------------------------

/// The place of the first `::` from `from` on; the end where there is none.
pub open spec fn separator(text: Seq<char>, from: int) -> int
    decreases text.len() - from,
{
    if from < 0 || from >= text.len() {
        text.len() as int
    } else if from + 1 < text.len() && text[from] == ':' && text[from + 1] == ':' {
        from
    } else {
        separator(text, from + 1)
    }
}

/// The parts of a text between its `::`, from `from` on.
pub open spec fn segments_from(text: Seq<char>, from: int) -> Seq<Seq<char>>
    decreases text.len() - from,
{
    if from < 0 || from > text.len() {
        Seq::empty()
    } else {
        let at = separator(text, from);
        if at + 1 >= text.len() || at < from {
            seq![text.skip(from)]
        } else {
            seq![text.subrange(from, at)] + segments_from(text, at + 2)
        }
    }
}

/// The parts of a text between its `::`.
pub open spec fn segments_of(text: Seq<char>) -> Seq<Seq<char>> {
    segments_from(text, 0)
}

/// Splits a path at its `::`.
pub fn split_path(text: &str) -> (r: Vec<String>)
    ensures
        texts(r@) == segments_of(text@),
        r@.len() > 0,
{
    let chars = chars_of(text);
    let mut out: Vec<String> = Vec::new();
    let mut from: usize = 0;
    let mut at: usize = 0;
    proof {
        assert(texts(out@) + segments_from(text@, 0) =~= segments_of(text@));
    }
    while at < chars.len()
        invariant
            chars@ == text@,
            from <= at <= chars.len(),
            separator(text@, at as int) == separator(text@, from as int),
            texts(out@) + segments_from(text@, from as int) == segments_of(text@),
        decreases chars.len() - at,
    {
        if at + 1 < chars.len() && chars[at] == ':' && chars[at + 1] == ':' {
            let ghost before = texts(out@);
            let part = text_between(&chars, from, at);
            out.push(part);
            proof {
                assert(texts(out@) =~= before.push(part@));
                assert(segments_from(text@, from as int) == seq![part@] + segments_from(
                    text@,
                    at + 2,
                ));
                assert(texts(out@) + segments_from(text@, at + 2) =~= before + (seq![part@]
                    + segments_from(text@, at + 2)));
            }
            at = at + 2;
            from = at;
        } else {
            at = at + 1;
        }
    }
    let ghost before = texts(out@);
    let part = text_between(&chars, from, chars.len());
    out.push(part);
    proof {
        assert(part@ =~= text@.skip(from as int));
        assert(texts(out@) =~= before.push(part@));
        assert(before + seq![part@] =~= before.push(part@));
    }
    out
}

// ---------------------------------------------------------------------------
// Paths.
// ---------------------------------------------------------------------------

/// What a value definition is as a target.
pub open spec fn value_target(hir: HirModel, id: DefId) -> ResolvedTarget {
    if hir.has_definition(id) {
        match hir.definition(id).kind {
            DefKind::ExternFunction { extern_id } => ResolvedTarget::Extern(extern_id),
            _ => ResolvedTarget::Item(id),
        }
    } else {
        ResolvedTarget::Item(id)
    }
}

/// What a module itself declares under a name.
pub open spec fn declared(
    hir: HirModel,
    module: ModuleId,
    namespace: Namespace,
    name: Seq<char>,
) -> Option<ResolvedTarget> {
    if !hir.has_module(module) {
        None
    } else {
        match namespace {
            Namespace::Value => match found(hir.module(module).values, name) {
                Some(id) => Some(value_target(hir, id)),
                None => None,
            },
            Namespace::Type => match found(hir.module(module).types, name) {
                Some(id) => Some(ResolvedTarget::Item(id)),
                None => None,
            },
            Namespace::Module => match found(hir.module(module).modules, name) {
                Some(id) => Some(ResolvedTarget::Module(id)),
                None => None,
            },
        }
    }
}

/// A module that a module declares.
pub open spec fn child_module(hir: HirModel, module: ModuleId, name: Seq<char>) -> Option<ModuleId> {
    if hir.has_module(module) {
        found(hir.module(module).modules, name)
    } else {
        None
    }
}

/// The module of builtin declarations.
pub open spec fn prelude(hir: HirModel) -> Option<ModuleId> {
    child_module(hir, hir.root, "__rua_builtin"@)
}

/// What a name means in a module: what the module declares, what the root
/// declares, or what the prelude declares.
pub open spec fn named_in(
    hir: HirModel,
    module: ModuleId,
    namespace: Namespace,
    name: Seq<char>,
) -> Option<ResolvedTarget> {
    match declared(hir, module, namespace, name) {
        Some(target) => Some(target),
        None => match if module != hir.root {
            declared(hir, hir.root, namespace, name)
        } else {
            None
        } {
            Some(target) => Some(target),
            None => match prelude(hir) {
                Some(builtin) => if builtin == module || namespace == Namespace::Module {
                    None
                } else {
                    declared(hir, builtin, namespace, name)
                },
                None => None,
            },
        },
    }
}

/// A member of a type or trait: a variant, an associated item or a trait item.
pub open spec fn member_of(hir: HirModel, owner: DefId, name: Seq<char>) -> Option<ResolvedTarget> {
    match found(hir.enum_variants, (owner, name)) {
        Some(id) => Some(ResolvedTarget::Item(id)),
        None => match found(hir.associated_items, (owner, name)) {
            Some(id) => Some(ResolvedTarget::Item(id)),
            None => match found(hir.trait_items, (owner, name)) {
                Some(id) => Some(ResolvedTarget::Item(id)),
                None => None,
            },
        },
    }
}

/// Where a path has led so far.
pub enum Cursor {
    Module(ModuleId),
    Item(DefId),
}

/// One step along a path that goes on.
pub open spec fn stepped(hir: HirModel, cursor: Cursor, segment: Seq<char>) -> Option<Cursor> {
    match cursor {
        Cursor::Module(module) => match child_module(hir, module, segment) {
            Some(child) => Some(Cursor::Module(child)),
            None => match named_in(hir, module, Namespace::Type, segment) {
                Some(ResolvedTarget::Item(item)) => Some(Cursor::Item(item)),
                _ => None,
            },
        },
        Cursor::Item(_) => None,
    }
}

/// Where a path leads from a place on it.
pub open spec fn walked(
    hir: HirModel,
    cursor: Cursor,
    namespace: Namespace,
    segments: Seq<Seq<char>>,
    from: int,
) -> Option<ResolvedTarget>
    decreases segments.len() - from,
{
    if from < 0 || from >= segments.len() {
        None
    } else if from + 1 == segments.len() {
        match cursor {
            Cursor::Module(module) => named_in(hir, module, namespace, segments[from]),
            Cursor::Item(owner) => member_of(hir, owner, segments[from]),
        }
    } else {
        match stepped(hir, cursor, segments[from]) {
            Some(next) => walked(hir, next, namespace, segments, from + 1),
            None => None,
        }
    }
}

/// Where a path with more than one segment starts.
pub open spec fn start_of_path(hir: HirModel, from: ModuleId, head: Seq<char>) -> Option<Cursor> {
    match child_module(hir, from, head) {
        Some(module) => Some(Cursor::Module(module)),
        None => match child_module(hir, hir.root, head) {
            Some(module) => Some(Cursor::Module(module)),
            None => match named_in(hir, from, Namespace::Type, head) {
                Some(ResolvedTarget::Item(item)) => Some(Cursor::Item(item)),
                _ => None,
            },
        },
    }
}

/// What a path means in a module.
pub open spec fn path_target(
    hir: HirModel,
    from: ModuleId,
    namespace: Namespace,
    segments: Seq<Seq<char>>,
) -> Option<ResolvedTarget> {
    if segments.len() == 0 {
        None
    } else if segments.len() == 1 {
        named_in(hir, from, namespace, segments[0])
    } else {
        match start_of_path(hir, from, segments[0]) {
            Some(cursor) => walked(hir, cursor, namespace, segments, 1),
            None => None,
        }
    }
}

enum Position {
    Module(ModuleId),
    Item(DefId),
}

impl Position {
    spec fn model(self) -> Cursor {
        match self {
            Position::Module(module) => Cursor::Module(module),
            Position::Item(item) => Cursor::Item(item),
        }
    }
}

spec fn position_model(position: Option<Position>) -> Option<Cursor> {
    match position {
        Some(position) => Some(position.model()),
        None => None,
    }
}

impl ResolvedHir {
    fn target(&self, id: DefId) -> (r: ResolvedTarget)
        ensures
            r == value_target(self@, id),
    {
        match self.find_definition(id) {
            Some(data) => match data.kind {
                DefKind::ExternFunction { extern_id } => ResolvedTarget::Extern(extern_id),
                _ => ResolvedTarget::Item(id),
            },
            None => ResolvedTarget::Item(id),
        }
    }

    fn declared(&self, module: ModuleId, namespace: Namespace, name: &String) -> (r: Option<
        ResolvedTarget,
    >)
        ensures
            r == declared(self@, module, namespace, name@),
    {
        let data = match self.find_module(module) {
            Some(data) => data,
            None => {
                return None;
            },
        };
        match namespace {
            Namespace::Value => match data.scope.values.get(name) {
                Some(id) => Some(self.target(*id)),
                None => None,
            },
            Namespace::Type => match data.scope.types.get(name) {
                Some(id) => Some(ResolvedTarget::Item(*id)),
                None => None,
            },
            Namespace::Module => match data.scope.modules.get(name) {
                Some(id) => Some(ResolvedTarget::Module(*id)),
                None => None,
            },
        }
    }

    /// A module that a module declares.
    pub fn find_child(&self, module: ModuleId, name: &String) -> (r: Option<ModuleId>)
        ensures
            r == child_module(self@, module, name@),
    {
        match self.find_module(module) {
            Some(data) => match data.scope.modules.get(name) {
                Some(id) => Some(*id),
                None => None,
            },
            None => None,
        }
    }

    /// The module of builtin declarations.
    pub fn prelude(&self) -> (r: Option<ModuleId>)
        ensures
            r == prelude(self@),
    {
        self.find_child(self.root, &"__rua_builtin".to_string())
    }

    fn resolve_in_module(&self, module: ModuleId, namespace: Namespace, name: &String) -> (r: Option<
        ResolvedTarget,
    >)
        ensures
            r == named_in(self@, module, namespace, name@),
    {
        if let Some(target) = self.declared(module, namespace, name) {
            return Some(target);
        }
        if module != self.root {
            if let Some(target) = self.declared(self.root, namespace, name) {
                return Some(target);
            }
        }
        match self.prelude() {
            Some(builtin) => {
                if builtin == module || namespace == Namespace::Module {
                    None
                } else {
                    self.declared(builtin, namespace, name)
                }
            },
            None => None,
        }
    }

    /// A member of a type or trait.
    pub fn find_member(&self, owner: DefId, name: &String) -> (r: Option<ResolvedTarget>)
        ensures
            r == member_of(self@, owner, name@),
    {
        let key = (owner, name.clone());
        if let Some(id) = self.enum_variants.get(&key) {
            return Some(ResolvedTarget::Item(*id));
        }
        if let Some(id) = self.associated_items.get(&key) {
            return Some(ResolvedTarget::Item(*id));
        }
        match self.trait_items.get(&key) {
            Some(id) => Some(ResolvedTarget::Item(*id)),
            None => None,
        }
    }

    fn step(&self, position: Position, segment: &String) -> (r: Option<Position>)
        ensures
            position_model(r) == stepped(self@, position.model(), segment@),
    {
        match position {
            Position::Module(module) => match self.find_child(module, segment) {
                Some(child) => Some(Position::Module(child)),
                None => match self.resolve_in_module(module, Namespace::Type, segment) {
                    Some(ResolvedTarget::Item(item)) => Some(Position::Item(item)),
                    _ => None,
                },
            },
            Position::Item(_) => None,
        }
    }

    fn path_start(&self, from: ModuleId, head: &String) -> (r: Option<Position>)
        ensures
            position_model(r) == start_of_path(self@, from, head@),
    {
        if let Some(module) = self.find_child(from, head) {
            return Some(Position::Module(module));
        }
        if let Some(module) = self.find_child(self.root, head) {
            return Some(Position::Module(module));
        }
        match self.resolve_in_module(from, Namespace::Type, head) {
            Some(ResolvedTarget::Item(item)) => Some(Position::Item(item)),
            _ => None,
        }
    }

    /// What a path means in a module.
    pub fn resolve_path(&self, from: ModuleId, namespace: Namespace, segments: &Vec<String>) -> (r:
        Option<ResolvedTarget>)
        ensures
            r == path_target(self@, from, namespace, texts(segments@)),
    {
        proof {
            assert(texts(segments@).subrange(0, segments@.len() as int) =~= texts(segments@));
        }
        self.resolve_part(from, namespace, segments, 0, segments.len())
    }

    /// What the part of a path from `first` up to `last` means in a module.
    pub fn resolve_part(
        &self,
        from: ModuleId,
        namespace: Namespace,
        segments: &Vec<String>,
        first: usize,
        last: usize,
    ) -> (r: Option<ResolvedTarget>)
        requires
            first <= last <= segments@.len(),
        ensures
            r == path_target(
                self@,
                from,
                namespace,
                texts(segments@).subrange(first as int, last as int),
            ),
    {
        let ghost model = texts(segments@).subrange(first as int, last as int);
        if last - first == 0 {
            return None;
        }
        proof {
            assert(model[0] == segments@[first as int]@);
        }
        if last - first == 1 {
            return self.resolve_in_module(from, namespace, &segments[first]);
        }
        let mut position = match self.path_start(from, &segments[first]) {
            Some(position) => position,
            None => {
                return None;
            },
        };
        let mut i: usize = first + 1;
        while i < last
            invariant
                first < i < last,
                last <= segments.len(),
                model == texts(segments@).subrange(first as int, last as int),
                walked(self@, position.model(), namespace, model, i - first) == path_target(
                    self@,
                    from,
                    namespace,
                    model,
                ),
            decreases last - i,
        {
            let segment = &segments[i];
            proof {
                assert(model[i - first] == segment@);
            }
            if i + 1 == last {
                return match position {
                    Position::Module(module) => self.resolve_in_module(module, namespace, segment),
                    Position::Item(owner) => self.find_member(owner, segment),
                };
            }
            position = match self.step(position, segment) {
                Some(next) => next,
                None => {
                    return None;
                },
            };
            i += 1;
        }
        None
    }
}

// ---------------------------------------------------------------------------
// Builtin identities.
// ---------------------------------------------------------------------------

/// The builtin identity of a declared member of the prelude.
pub open spec fn builtin_member(owner: Seq<char>, name: Seq<char>) -> Option<BuiltinId> {
    if owner == "Option"@ && name == "Some"@ {
        Some(BuiltinId::VariantOptionSome)
    } else if owner == "Option"@ && name == "None"@ {
        Some(BuiltinId::VariantOptionNone)
    } else if owner == "Result"@ && name == "Ok"@ {
        Some(BuiltinId::VariantResultOk)
    } else if owner == "Result"@ && name == "Err"@ {
        Some(BuiltinId::VariantResultErr)
    } else if owner == "Vec"@ && name == "new"@ {
        Some(BuiltinId::AssociatedVecNew)
    } else if owner == "HashMap"@ && name == "new"@ {
        Some(BuiltinId::AssociatedHashMapNew)
    } else {
        None
    }
}

/// A value target, with the declared members of the prelude under their builtin
/// identities.
pub open spec fn canonical_value(hir: HirModel, target: ResolvedTarget) -> ResolvedTarget {
    match target {
        ResolvedTarget::Item(id) => if !hir.has_definition(id) {
            target
        } else {
            match hir.definition(id).kind {
                DefKind::EnumVariant { owner, .. } | DefKind::Method { owner } => match prelude(
                    hir,
                ) {
                    Some(builtin) => if !hir.has_definition(owner) || hir.definition(owner).module
                        != builtin {
                        target
                    } else {
                        match builtin_member(hir.definition(owner).name, hir.definition(id).name) {
                            Some(found) => ResolvedTarget::Builtin(found),
                            None => target,
                        }
                    },
                    None => target,
                },
                _ => target,
            }
        },
        _ => target,
    }
}

fn builtin_member_of(owner: &str, name: &str) -> (r: Option<BuiltinId>)
    ensures
        r == builtin_member(owner@, name@),
{
    if same_text(owner, "Option") && same_text(name, "Some") {
        Some(BuiltinId::VariantOptionSome)
    } else if same_text(owner, "Option") && same_text(name, "None") {
        Some(BuiltinId::VariantOptionNone)
    } else if same_text(owner, "Result") && same_text(name, "Ok") {
        Some(BuiltinId::VariantResultOk)
    } else if same_text(owner, "Result") && same_text(name, "Err") {
        Some(BuiltinId::VariantResultErr)
    } else if same_text(owner, "Vec") && same_text(name, "new") {
        Some(BuiltinId::AssociatedVecNew)
    } else if same_text(owner, "HashMap") && same_text(name, "new") {
        Some(BuiltinId::AssociatedHashMapNew)
    } else {
        None
    }
}

// ---------------------------------------------------------------------------
// Access.
// ---------------------------------------------------------------------------

/// Whether a module is another one or lies inside it. Parents come before the
/// modules inside them.
pub open spec fn lies_in(hir: HirModel, module: ModuleId, ancestor: ModuleId) -> bool
    decreases module.0,
{
    if module == ancestor {
        true
    } else if !hir.has_module(module) {
        false
    } else {
        match hir.module(module).parent {
            Some(parent) => if parent.0 < module.0 {
                lies_in(hir, parent, ancestor)
            } else {
                false
            },
            None => false,
        }
    }
}

/// How a message names a module that owns something.
pub open spec fn owner_label(hir: HirModel, module: ModuleId) -> Seq<char> {
    if hir.has_module(module) && hir.module(module).path.len() > 0 {
        "module `"@ + joined(hir.module(module).path, "::"@) + "`"@
    } else {
        "crate root"@
    }
}

/// The outermost private module on the way to a module that another module may
/// not pass, and its owner.
pub open spec fn module_barrier(hir: HirModel, from: ModuleId, module: ModuleId) -> Option<
    (Seq<char>, Seq<char>),
>
    decreases module.0,
{
    if !hir.has_module(module) {
        None
    } else {
        let data = hir.module(module);
        match data.parent {
            None => None,
            Some(parent) => {
                let outer = if parent.0 < module.0 {
                    module_barrier(hir, from, parent)
                } else {
                    None
                };
                if outer is Some {
                    outer
                } else if !data.is_public && !lies_in(hir, from, parent) {
                    Some(
                        (
                            if data.path.len() == 0 {
                                Seq::empty()
                            } else {
                                data.path.last()
                            },
                            owner_label(hir, parent),
                        ),
                    )
                } else {
                    None
                }
            },
        }
    }
}

/// What keeps a module from referring to a target, and its owner.
pub open spec fn barrier(hir: HirModel, from: ModuleId, target: ResolvedTarget) -> Option<
    (Seq<char>, Seq<char>),
> {
    match target {
        ResolvedTarget::Item(id) => if !hir.has_definition(id) {
            None
        } else {
            let data = hir.definition(id);
            if !data.is_public && !lies_in(hir, from, data.module) {
                Some((data.name, owner_label(hir, data.module)))
            } else {
                module_barrier(hir, from, data.module)
            }
        },
        ResolvedTarget::Module(module) => module_barrier(hir, from, module),
        _ => None,
    }
}

/// A barrier over mathematical texts.
pub open spec fn pair_model(pair: Option<(String, String)>) -> Option<(Seq<char>, Seq<char>)> {
    match pair {
        Some((a, b)) => Some((a@, b@)),
        None => None,
    }
}

impl ResolvedHir {
    /// A value target, with the declared members of the prelude under their
    /// builtin identities.
    pub fn canonical_value_target(&self, target: ResolvedTarget) -> (r: ResolvedTarget)
        ensures
            r == canonical_value(self@, target),
    {
        let id = match target {
            ResolvedTarget::Item(id) => id,
            _ => {
                return target;
            },
        };
        let data = match self.find_definition(id) {
            Some(data) => data,
            None => {
                return target;
            },
        };
        let owner = match data.kind {
            DefKind::EnumVariant { owner, .. } => owner,
            DefKind::Method { owner } => owner,
            _ => {
                return target;
            },
        };
        let builtin = match self.prelude() {
            Some(builtin) => builtin,
            None => {
                return target;
            },
        };
        match self.find_definition(owner) {
            Some(owner) => {
                if owner.module != builtin {
                    return target;
                }
                match builtin_member_of(owner.name.as_str(), data.name.as_str()) {
                    Some(found) => ResolvedTarget::Builtin(found),
                    None => target,
                }
            },
            None => target,
        }
    }

    fn is_descendant_of(&self, module: ModuleId, ancestor: ModuleId) -> (r: bool)
        ensures
            r == lies_in(self@, module, ancestor),
    {
        let mut cursor = module;
        loop
            invariant
                lies_in(self@, cursor, ancestor) == lies_in(self@, module, ancestor),
            decreases cursor.0,
        {
            if cursor == ancestor {
                return true;
            }
            match self.find_module(cursor) {
                Some(data) => match data.parent {
                    Some(parent) => {
                        if parent.0 < cursor.0 {
                            cursor = parent;
                        } else {
                            return false;
                        }
                    },
                    None => {
                        return false;
                    },
                },
                None => {
                    return false;
                },
            }
        }
    }

    fn module_owner_label(&self, module: ModuleId) -> (r: String)
        ensures
            r@ == owner_label(self@, module),
    {
        match self.find_module(module) {
            Some(data) => {
                if data.path.len() > 0 {
                    cat3("module `", join(&data.path, "::").as_str(), "`")
                } else {
                    "crate root".to_string()
                }
            },
            None => "crate root".to_string(),
        }
    }

    fn module_barrier(&self, from: ModuleId, module: ModuleId) -> (r: Option<(String, String)>)
        ensures
            pair_model(r) == module_barrier(self@, from, module),
        decreases module.0,
    {
        let data = match self.find_module(module) {
            Some(data) => data,
            None => {
                return None;
            },
        };
        let parent = match data.parent {
            Some(parent) => parent,
            None => {
                return None;
            },
        };
        if parent.0 < module.0 {
            if let Some(outer) = self.module_barrier(from, parent) {
                return Some(outer);
            }
        }
        if !data.is_public && !self.is_descendant_of(from, parent) {
            let n: usize = data.path.len();
            let name = if n == 0 {
                let text = String::new();
                proof {
                    assert(text@ =~= Seq::empty());
                }
                text
            } else {
                proof {
                    assert(texts(data.path@).last() == data.path@[n - 1]@);
                }
                data.path[n - 1].clone()
            };
            return Some((name, self.module_owner_label(parent)));
        }
        None
    }

    /// What keeps a module from referring to a target, and its owner.
    pub fn private_barrier(&self, from: ModuleId, target: ResolvedTarget) -> (r: Option<
        (String, String),
    >)
        ensures
            pair_model(r) == barrier(self@, from, target),
    {
        match target {
            ResolvedTarget::Item(id) => match self.find_definition(id) {
                None => None,
                Some(data) => {
                    if !data.is_public && !self.is_descendant_of(from, data.module) {
                        return Some((data.name.clone(), self.module_owner_label(data.module)));
                    }
                    self.module_barrier(from, data.module)
                },
            },
            ResolvedTarget::Module(module) => self.module_barrier(from, module),
            _ => None,
        }
    }
}

} // verus!
