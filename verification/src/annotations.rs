//! Resolved user annotations: schemas, instances and their index.

use vstd::prelude::*;

use crate::backend_layout::names_of;
use crate::hir::DefId;
use crate::table::{Key, Table};

verus! {

/// What an annotation may stand on.
#[derive(Clone, Copy, Debug, PartialEq, Eq, PartialOrd, Ord, Hash, Structural)]
pub enum AnnotationTargetKind {
    Struct,
    Enum,
    Function,
    Method,
    Field,
    Variant,
    ExternFunction,
}

/// How long an annotation is kept.
#[derive(Clone, Copy, Debug, PartialEq, Eq, PartialOrd, Ord, Hash, Structural)]
pub enum AnnotationRetention {
    Source,
    Build,
    Runtime,
}

#[derive(Debug)]
pub struct AnnotationParameter {
    pub name: String,
    pub ty: AnnotationParameterType,
}

#[derive(Debug)]
pub enum AnnotationParameterType {
    String,
    Bool,
    Integer,
    Float,
    Enum(DefId),
    List(Box<AnnotationParameterType>),
}

#[derive(Debug)]
pub enum AnnotationValue {
    String(String),
    Bool(bool),
    Integer(i64),
    Float(String),
    EnumVariant(DefId),
    List(Vec<AnnotationValue>),
}

#[derive(Debug)]
pub struct AnnotationDefinition {
    pub id: DefId,
    pub qualified_name: String,
    pub parameters: Vec<AnnotationParameter>,
    pub targets: Vec<AnnotationTargetKind>,
    pub retention: AnnotationRetention,
    pub repeatable: bool,
}

/// The declaration that an annotation stands on.
#[derive(Clone, Copy, Debug, PartialEq, Eq, PartialOrd, Ord, Hash, Structural)]
pub enum AnnotationTarget {
    Definition(DefId),
    Field { owner: DefId, index: u32 },
    VariantField { variant: DefId, index: u32 },
}

impl Key for AnnotationTarget {
    type Model = AnnotationTarget;

    open spec fn key(&self) -> AnnotationTarget {
        *self
    }

    fn same(&self, other: &Self) -> (r: bool) {
        *self == *other
    }
}

#[derive(Debug)]
pub struct AnnotationInstance {
    pub annotation: DefId,
    pub target: AnnotationTarget,
    pub arguments: Vec<(String, AnnotationValue)>,
    pub source_order: u32,
}

/// All annotation schemas and instances of a program.
#[derive(Debug)]
pub struct AnnotationIndex {
    pub definitions: Table<DefId, AnnotationDefinition>,
    pub instances: Vec<AnnotationInstance>,
    pub by_annotation: Table<DefId, Vec<usize>>,
    pub by_target: Table<AnnotationTarget, Vec<usize>>,
    pub target_names: Table<AnnotationTarget, String>,
}

/// An annotation value over mathematical texts.
pub enum ValueModel {
    String(Seq<char>),
    Bool(bool),
    Integer(i64),
    Float(Seq<char>),
    EnumVariant(DefId),
    List(Seq<ValueModel>),
}

impl AnnotationValue {
    pub open spec fn model(self) -> ValueModel
        decreases self,
    {
        match self {
            AnnotationValue::String(text) => ValueModel::String(text@),
            AnnotationValue::Bool(flag) => ValueModel::Bool(flag),
            AnnotationValue::Integer(number) => ValueModel::Integer(number),
            AnnotationValue::Float(text) => ValueModel::Float(text@),
            AnnotationValue::EnumVariant(id) => ValueModel::EnumVariant(id),
            AnnotationValue::List(values) => ValueModel::List(values_model(values@)),
        }
    }
}

pub open spec fn values_model(list: Seq<AnnotationValue>) -> Seq<ValueModel>
    decreases list,
{
    Seq::new(
        list.len(),
        |i: int|
            if 0 <= i < list.len() {
                list[i].model()
            } else {
                ValueModel::Bool(false)
            },
    )
}

/// A schema over mathematical collections.
pub struct DefinitionModel {
    pub id: DefId,
    pub qualified_name: Seq<char>,
    pub parameters: Seq<(Seq<char>, AnnotationParameterType)>,
    pub targets: Seq<AnnotationTargetKind>,
    pub retention: AnnotationRetention,
    pub repeatable: bool,
}

/// An instance over mathematical collections.
pub struct InstanceModel {
    pub annotation: DefId,
    pub target: AnnotationTarget,
    pub arguments: Seq<(Seq<char>, ValueModel)>,
    pub source_order: u32,
}

/// The index over mathematical collections.
pub struct IndexModel {
    pub definitions: Map<DefId, DefinitionModel>,
    pub instances: Seq<InstanceModel>,
    pub by_annotation: Map<DefId, Seq<usize>>,
    pub by_target: Map<AnnotationTarget, Seq<usize>>,
    pub target_names: Map<AnnotationTarget, Seq<char>>,
}

pub open spec fn parameters_model(list: Seq<AnnotationParameter>) -> Seq<
    (Seq<char>, AnnotationParameterType),
> {
    Seq::new(list.len(), |i: int| (list[i].name@, list[i].ty))
}

pub open spec fn arguments_model(list: Seq<(String, AnnotationValue)>) -> Seq<
    (Seq<char>, ValueModel),
> {
    Seq::new(list.len(), |i: int| (list[i].0@, list[i].1.model()))
}

impl AnnotationDefinition {
    pub open spec fn model(self) -> DefinitionModel {
        DefinitionModel {
            id: self.id,
            qualified_name: self.qualified_name@,
            parameters: parameters_model(self.parameters@),
            targets: self.targets@,
            retention: self.retention,
            repeatable: self.repeatable,
        }
    }
}

impl AnnotationInstance {
    pub open spec fn model(self) -> InstanceModel {
        InstanceModel {
            annotation: self.annotation,
            target: self.target,
            arguments: arguments_model(self.arguments@),
            source_order: self.source_order,
        }
    }
}

pub open spec fn instances_model(list: Seq<AnnotationInstance>) -> Seq<InstanceModel> {
    Seq::new(list.len(), |i: int| list[i].model())
}

pub open spec fn definitions_model(table: Table<DefId, AnnotationDefinition>) -> Map<
    DefId,
    DefinitionModel,
> {
    Map::new(|k: DefId| table.at(k) is Some, |k: DefId| (table.at(k)->0).model())
}

/// The lists of a table over mathematical sequences.
pub open spec fn lists_of<K: Key>(table: Table<K, Vec<usize>>) -> Map<K::Model, Seq<usize>> {
    Map::new(|k: K::Model| table.at(k) is Some, |k: K::Model| (table.at(k)->0)@)
}

/// The list under a key; empty where there is none.
pub open spec fn list_at<K>(lists: Map<K, Seq<usize>>, key: K) -> Seq<usize> {
    if lists.dom().contains(key) {
        lists[key]
    } else {
        Seq::empty()
    }
}

impl IndexModel {
    /// Nothing indexed.
    pub open spec fn empty() -> IndexModel {
        IndexModel {
            definitions: Map::empty(),
            instances: Seq::empty(),
            by_annotation: Map::empty(),
            by_target: Map::empty(),
            target_names: Map::empty(),
        }
    }

    /// One more instance.
    pub open spec fn push(self, instance: InstanceModel) -> IndexModel {
        let index = self.instances.len() as usize;
        IndexModel {
            by_annotation: self.by_annotation.insert(
                instance.annotation,
                list_at(self.by_annotation, instance.annotation).push(index),
            ),
            by_target: self.by_target.insert(
                instance.target,
                list_at(self.by_target, instance.target).push(index),
            ),
            instances: self.instances.push(instance),
            ..self
        }
    }

    /// Whether the lists name exactly the instances with their annotation and
    /// their target, in order.
    pub open spec fn is_consistent(self) -> bool {
        &&& forall|id: DefId, i: int|
            0 <= i < self.instances.len() ==> (#[trigger] list_at(self.by_annotation, id).contains(
                i as usize,
            ) <==> (#[trigger] self.instances[i]).annotation == id)
        &&& forall|target: AnnotationTarget, i: int|
            0 <= i < self.instances.len() ==> (#[trigger] list_at(self.by_target, target).contains(
                i as usize,
            ) <==> (#[trigger] self.instances[i]).target == target)
        &&& forall|id: DefId, k: int|
            0 <= k < list_at(self.by_annotation, id).len() ==> (#[trigger] list_at(
                self.by_annotation,
                id,
            )[k]) < self.instances.len()
        &&& forall|target: AnnotationTarget, k: int|
            0 <= k < list_at(self.by_target, target).len() ==> (#[trigger] list_at(
                self.by_target,
                target,
            )[k]) < self.instances.len()
    }
}

/// Indexing an instance keeps the lists in step with the instances.
pub proof fn law_index_stays_consistent(index: IndexModel, instance: InstanceModel)
    requires
        index.is_consistent(),
        index.instances.len() < usize::MAX,
    ensures
        index.push(instance).is_consistent(),
{
    let after = index.push(instance);
    let n = index.instances.len();
    let new = n as usize;
    assert forall|id: DefId, i: int| 0 <= i < after.instances.len() implies (#[trigger] list_at(
        after.by_annotation,
        id,
    ).contains(i as usize) <==> (#[trigger] after.instances[i]).annotation == id) by {
        let old_list = list_at(index.by_annotation, id);
        if id == instance.annotation {
            let list = old_list.push(new);
            assert(list_at(after.by_annotation, id) == list);
            if i < n {
                assert(after.instances[i] == index.instances[i]);
                if old_list.contains(i as usize) {
                    let k = choose|k: int| 0 <= k < old_list.len() && old_list[k] == i as usize;
                    assert(list[k] == i as usize);
                }
                if list.contains(i as usize) {
                    let k = choose|k: int| 0 <= k < list.len() && list[k] == i as usize;
                    assert(old_list[k] == i as usize);
                }
            } else {
                assert(list[old_list.len() as int] == new);
            }
        } else {
            assert(list_at(after.by_annotation, id) == old_list);
            if i < n {
                assert(after.instances[i] == index.instances[i]);
            } else if old_list.contains(i as usize) {
                let k = choose|k: int| 0 <= k < old_list.len() && old_list[k] == i as usize;
                assert(old_list[k] < index.instances.len());
            }
        }
    }
    assert forall|target: AnnotationTarget, i: int|
        0 <= i < after.instances.len() implies (#[trigger] list_at(
        after.by_target,
        target,
    ).contains(i as usize) <==> (#[trigger] after.instances[i]).target == target) by {
        let old_list = list_at(index.by_target, target);
        if target == instance.target {
            let list = old_list.push(new);
            assert(list_at(after.by_target, target) == list);
            if i < n {
                assert(after.instances[i] == index.instances[i]);
                if old_list.contains(i as usize) {
                    let k = choose|k: int| 0 <= k < old_list.len() && old_list[k] == i as usize;
                    assert(list[k] == i as usize);
                }
                if list.contains(i as usize) {
                    let k = choose|k: int| 0 <= k < list.len() && list[k] == i as usize;
                    assert(old_list[k] == i as usize);
                }
            } else {
                assert(list[old_list.len() as int] == new);
            }
        } else {
            assert(list_at(after.by_target, target) == old_list);
            if i < n {
                assert(after.instances[i] == index.instances[i]);
            } else if old_list.contains(i as usize) {
                let k = choose|k: int| 0 <= k < old_list.len() && old_list[k] == i as usize;
                assert(old_list[k] < index.instances.len());
            }
        }
    }
    assert forall|id: DefId, k: int|
        0 <= k < list_at(after.by_annotation, id).len() implies (#[trigger] list_at(
        after.by_annotation,
        id,
    )[k]) < after.instances.len() by {
        let old_list = list_at(index.by_annotation, id);
        if k < old_list.len() {
            assert(list_at(after.by_annotation, id)[k] == old_list[k]);
        }
    }
    assert forall|target: AnnotationTarget, k: int|
        0 <= k < list_at(after.by_target, target).len() implies (#[trigger] list_at(
        after.by_target,
        target,
    )[k]) < after.instances.len() by {
        let old_list = list_at(index.by_target, target);
        if k < old_list.len() {
            assert(list_at(after.by_target, target)[k] == old_list[k]);
        }
    }
}

fn append_to<K: Key>(table: &mut Table<K, Vec<usize>>, key: K, value: usize)
    ensures
        lists_of(*final(table)) == lists_of(*old(table)).insert(
            key.key(),
            list_at(lists_of(*old(table)), key.key()).push(value),
        ),
{
    let ghost name = key.key();
    let ghost before = *table;
    let mut list: Vec<usize> = Vec::new();
    if let Some(found) = table.get(&key) {
        let mut i: usize = 0;
        while i < found.len()
            invariant
                i <= found.len(),
                list@ == found@.take(i as int),
            decreases found.len() - i,
        {
            list.push(found[i]);
            i += 1;
            proof {
                assert(list@ =~= found@.take(i as int));
            }
        }
        proof {
            assert(found@.take(found@.len() as int) =~= found@);
        }
    }
    proof {
        assert(list@ =~= list_at(lists_of(before), name));
    }
    list.push(value);
    let _ = table.insert(key, list);
    proof {
        crate::table::lemma_insert_at(before, *table, name, list);
        assert(lists_of(*table) =~= lists_of(before).insert(name, list@));
    }
}

impl Default for AnnotationIndex {
    fn default() -> (r: Self)
        ensures
            r@ == IndexModel::empty(),
    {
        AnnotationIndex::new()
    }
}

impl AnnotationIndex {
    /// The index over mathematical collections.
    pub open spec fn view(&self) -> IndexModel {
        IndexModel {
            definitions: definitions_model(self.definitions),
            instances: instances_model(self.instances@),
            by_annotation: lists_of(self.by_annotation),
            by_target: lists_of(self.by_target),
            target_names: names_of(self.target_names),
        }
    }

    /// An empty index.
    pub fn new() -> (r: Self)
        ensures
            r@ == IndexModel::empty(),
    {
        let r = AnnotationIndex {
            definitions: Table::new(),
            instances: Vec::new(),
            by_annotation: Table::new(),
            by_target: Table::new(),
            target_names: Table::new(),
        };
        proof {
            let empty = IndexModel::empty();
            assert(r@.definitions =~= empty.definitions);
            assert(r@.instances =~= empty.instances);
            assert(r@.by_annotation =~= empty.by_annotation);
            assert(r@.by_target =~= empty.by_target);
            assert(r@.target_names =~= empty.target_names);
        }
        r
    }

    /// The schemas in the order of their identities.
    pub fn definitions(&self) -> (r: Vec<&AnnotationDefinition>)
        ensures
            schemas(r@) == ordered_schemas(
                self.definitions.entries@,
                self.definitions.entries@.len() as int,
            ),
    {
        let entries = &self.definitions.entries;
        let mut out: Vec<&AnnotationDefinition> = Vec::new();
        let mut i: usize = 0;
        proof {
            assert(schemas(out@) =~= Seq::empty());
        }
        while i < entries.len()
            invariant
                i <= entries.len(),
                entries@ == self.definitions.entries@,
                schemas(out@) == ordered_schemas(entries@, i as int),
            decreases entries.len() - i,
        {
            insert_schema(&mut out, &entries[i].1);
            i += 1;
        }
        out
    }

    /// All instances in source order.
    pub fn instances(&self) -> (r: &Vec<AnnotationInstance>)
        ensures
            r@ == self.instances@,
    {
        &self.instances
    }

    /// The schema with this identity.
    pub fn definition(&self, id: DefId) -> (r: Option<&AnnotationDefinition>)
        ensures
            match r {
                Some(definition) => self.definitions.at(id) == Some(*definition),
                None => self.definitions.at(id) is None,
            },
    {
        self.definitions.get(&id)
    }

    fn listed(&self, list: Option<&Vec<usize>>) -> (r: Vec<&AnnotationInstance>)
        ensures
            chosen(r@) == selected(
                self.instances@,
                match list {
                    Some(list) => list@,
                    None => Seq::empty(),
                },
                0,
                Seq::empty(),
            ),
    {
        let mut out: Vec<&AnnotationInstance> = Vec::new();
        proof {
            assert(chosen(out@) =~= Seq::empty());
        }
        if let Some(list) = list {
            let mut i: usize = 0;
            while i < list.len()
                invariant
                    i <= list.len(),
                    selected(self.instances@, list@, i as int, chosen(out@)) == selected(
                        self.instances@,
                        list@,
                        0,
                        Seq::empty(),
                    ),
                decreases list.len() - i,
            {
                if list[i] < self.instances.len() {
                    let ghost before = chosen(out@);
                    out.push(&self.instances[list[i]]);
                    proof {
                        assert(chosen(out@) =~= before.push(self.instances@[list@[i as int] as int]));
                    }
                }
                i += 1;
            }
        }
        out
    }

    /// The instances of one annotation.
    pub fn by_annotation(&self, id: DefId) -> (r: Vec<&AnnotationInstance>)
        ensures
            chosen(r@) == selected(
                self.instances@,
                list_at(lists_of(self.by_annotation), id),
                0,
                Seq::empty(),
            ),
    {
        self.listed(self.by_annotation.get(&id))
    }

    /// The instances on one declaration.
    pub fn for_target(&self, target: AnnotationTarget) -> (r: Vec<&AnnotationInstance>)
        ensures
            chosen(r@) == selected(
                self.instances@,
                list_at(lists_of(self.by_target), target),
                0,
                Seq::empty(),
            ),
    {
        self.listed(self.by_target.get(&target))
    }

    /// The name of an annotated declaration.
    pub fn target_name(&self, target: AnnotationTarget) -> (r: Option<&str>)
        ensures
            match r {
                Some(name) => self@.target_names.dom().contains(target) && name@
                    == self@.target_names[target],
                None => !self@.target_names.dom().contains(target),
            },
    {
        match self.target_names.get(&target) {
            Some(name) => Some(name.as_str()),
            None => None,
        }
    }

    /// Indexes one more instance.
    pub fn push(&mut self, instance: AnnotationInstance)
        ensures
            final(self)@ == old(self)@.push(instance.model()),
    {
        let index = self.instances.len();
        append_to(&mut self.by_annotation, instance.annotation, index);
        append_to(&mut self.by_target, instance.target, index);
        let ghost before = self.instances@;
        self.instances.push(instance);
        proof {
            assert(instances_model(self.instances@) =~= instances_model(before).push(
                instance.model(),
            ));
        }
    }
}

/// The schemas behind references.
pub open spec fn schemas(list: Seq<&AnnotationDefinition>) -> Seq<AnnotationDefinition> {
    Seq::new(list.len(), |i: int| *list[i])
}

/// The instances behind references.
pub open spec fn chosen(list: Seq<&AnnotationInstance>) -> Seq<AnnotationInstance> {
    Seq::new(list.len(), |i: int| *list[i])
}

/// The instances with the numbers `list[from..]`.
pub open spec fn selected(
    instances: Seq<AnnotationInstance>,
    list: Seq<usize>,
    from: int,
    done: Seq<AnnotationInstance>,
) -> Seq<AnnotationInstance>
    decreases list.len() - from,
{
    if from < 0 || from >= list.len() {
        done
    } else {
        selected(
            instances,
            list,
            from + 1,
            if list[from] < instances.len() {
                done.push(instances[list[from] as int])
            } else {
                done
            },
        )
    }
}

/// The schemas with one more, in the order of their identities.
pub open spec fn with_schema(list: Seq<AnnotationDefinition>, new: AnnotationDefinition) -> Seq<
    AnnotationDefinition,
>
    decreases list.len(),
{
    if list.len() == 0 || list.last().id.0 <= new.id.0 {
        list.push(new)
    } else {
        with_schema(list.drop_last(), new).push(list.last())
    }
}

/// The schemas of the first `n` entries in the order of their identities.
pub open spec fn ordered_schemas(entries: Seq<(DefId, AnnotationDefinition)>, n: int) -> Seq<
    AnnotationDefinition,
>
    decreases n,
{
    if n <= 0 || n > entries.len() {
        Seq::empty()
    } else {
        with_schema(ordered_schemas(entries, n - 1), entries[n - 1].1)
    }
}

proof fn lemma_with_schema(list: Seq<AnnotationDefinition>, new: AnnotationDefinition, at: int)
    requires
        0 <= at <= list.len(),
        at == 0 || list[at - 1].id.0 <= new.id.0,
        forall|i: int| at <= i < list.len() ==> (#[trigger] list[i]).id.0 > new.id.0,
    ensures
        with_schema(list, new) == list.insert(at, new),
    decreases list.len(),
{
    if at == list.len() {
        assert(list.insert(at, new) =~= list.push(new));
    } else {
        lemma_with_schema(list.drop_last(), new, at);
        assert(list.insert(at, new) =~= list.drop_last().insert(at, new).push(list.last()));
    }
}

fn insert_schema<'a>(list: &mut Vec<&'a AnnotationDefinition>, new: &'a AnnotationDefinition)
    ensures
        schemas(final(list)@) == with_schema(schemas(old(list)@), *new),
{
    let ghost before = schemas(list@);
    let mut at: usize = list.len();
    while at > 0 && list[at - 1].id.0 > new.id.0
        invariant
            at <= list.len(),
            before == schemas(list@),
            forall|i: int| at <= i < before.len() ==> (#[trigger] before[i]).id.0 > new.id.0,
        decreases at,
    {
        at -= 1;
    }
    proof {
        if at > 0 {
            assert(before[at - 1] == *list@[at - 1]);
        }
        lemma_with_schema(before, *new, at as int);
    }
    list.insert(at, new);
    proof {
        assert(schemas(list@) =~= before.insert(at as int, *new));
    }
}

} // verus!
