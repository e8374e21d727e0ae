//! Conditional compilation: the active part of a program.
//!
//! What the options make of each list of attributes is given along with the
//! program, in the shape of the program: whether what carries the list is active,
//! and the attributes that it keeps.

use vstd::prelude::*;

use crate::ast::{
    Attribute, ChunkEntry, ExternFn, Field, FnDecl, Item, Program, TraitMethod, Variant,
    VariantKind,
};
use crate::tree::{
    attributes_tree, extern_fns_tree, fields_tree, functions_tree, items_tree, trait_methods_tree,
    variants_tree, EnumDeclTree, ExternBlockTree, ExternFnTree, FieldTree, FnDeclTree,
    ImplDeclTree, ItemTree, ModDeclTree, ProgramTree, StructDeclTree, TraitDeclTree,
    TraitMethodTree, VariantKindTree, VariantTree,
};

verus! {

/// What the options make of one list of attributes.
#[derive(Debug)]
pub struct Expanded {
    pub active: bool,
    pub attributes: Vec<Attribute>,
}

/// What the options make of a member and of the fields below it.
#[derive(Debug)]
pub struct MemberOutcome {
    pub expanded: Result<Expanded, String>,
    pub fields: Vec<Result<Expanded, String>>,
}

/// What the options make of an item, its members and the items below it.
#[derive(Debug)]
pub struct ItemOutcome {
    pub expanded: Result<Expanded, String>,
    pub fields: Vec<Result<Expanded, String>>,
    pub members: Vec<MemberOutcome>,
    pub items: Vec<ItemOutcome>,
}

/// The payload of a variant with its active fields.
pub open spec fn variant_fields(
    kind: VariantKindTree,
    outcomes: Seq<Result<Expanded, String>>,
) -> Result<VariantKindTree, Seq<char>> {
    match kind {
        VariantKindTree::Struct(fields) => match active_fields(fields, outcomes, 0, Seq::empty()) {
            Ok(fields) => Ok(VariantKindTree::Struct(fields)),
            Err(error) => Err(error),
        },
        _ => Ok(kind),
    }
}

/// The active ones among `list[from..]`, behind those before.
pub open spec fn active_fields(
    list: Seq<FieldTree>,
    outcomes: Seq<Result<Expanded, String>>,
    from: int,
    done: Seq<FieldTree>,
) -> Result<Seq<FieldTree>, Seq<char>>
    decreases list.len() - from,
{
    if from < 0 || from >= list.len() {
        Ok(done)
    } else if from >= outcomes.len() {
        active_fields(list, outcomes, from + 1, done.push(list[from]))
    } else {
        let outcome = outcomes[from];
        match outcome {
            Err(error) => Err(error@),
            Ok(expanded) => if !expanded.active {
                active_fields(list, outcomes, from + 1, done)
            } else {
                active_fields(
                    list,
                    outcomes,
                    from + 1,
                    done.push(FieldTree { attributes: attributes_tree(expanded.attributes@), ..list[from] }),
                )
            },
        }
    }
}

/// The active ones among `list[from..]`, behind those before.
pub open spec fn active_variants(
    list: Seq<VariantTree>,
    outcomes: Seq<MemberOutcome>,
    from: int,
    done: Seq<VariantTree>,
) -> Result<Seq<VariantTree>, Seq<char>>
    decreases list.len() - from,
{
    if from < 0 || from >= list.len() {
        Ok(done)
    } else if from >= outcomes.len() {
        active_variants(list, outcomes, from + 1, done.push(list[from]))
    } else {
        let outcome = outcomes[from];
        match outcome.expanded {
            Err(error) => Err(error@),
            Ok(expanded) => if !expanded.active {
                active_variants(list, outcomes, from + 1, done)
            } else {
                match variant_fields(list[from].kind, outcome.fields@) {
                    Err(error) => Err(error),
                    Ok(kind) => active_variants(
                        list,
                        outcomes,
                        from + 1,
                        done.push(
                            VariantTree { attributes: attributes_tree(expanded.attributes@), kind, ..list[from] },
                        ),
                    ),
                }
            },
        }
    }
}

/// The active ones among `list[from..]`, behind those before.
pub open spec fn active_functions(
    list: Seq<FnDeclTree>,
    outcomes: Seq<MemberOutcome>,
    from: int,
    done: Seq<FnDeclTree>,
) -> Result<Seq<FnDeclTree>, Seq<char>>
    decreases list.len() - from,
{
    if from < 0 || from >= list.len() {
        Ok(done)
    } else if from >= outcomes.len() {
        active_functions(list, outcomes, from + 1, done.push(list[from]))
    } else {
        let outcome = outcomes[from];
        match outcome.expanded {
            Err(error) => Err(error@),
            Ok(expanded) => if !expanded.active {
                active_functions(list, outcomes, from + 1, done)
            } else {
                active_functions(
                    list,
                    outcomes,
                    from + 1,
                    done.push(FnDeclTree { attributes: attributes_tree(expanded.attributes@), ..list[from] }),
                )
            },
        }
    }
}

/// The active ones among `list[from..]`, behind those before.
pub open spec fn active_trait_methods(
    list: Seq<TraitMethodTree>,
    outcomes: Seq<MemberOutcome>,
    from: int,
    done: Seq<TraitMethodTree>,
) -> Result<Seq<TraitMethodTree>, Seq<char>>
    decreases list.len() - from,
{
    if from < 0 || from >= list.len() {
        Ok(done)
    } else if from >= outcomes.len() {
        active_trait_methods(list, outcomes, from + 1, done.push(list[from]))
    } else {
        let outcome = outcomes[from];
        match outcome.expanded {
            Err(error) => Err(error@),
            Ok(expanded) => if !expanded.active {
                active_trait_methods(list, outcomes, from + 1, done)
            } else {
                active_trait_methods(
                    list,
                    outcomes,
                    from + 1,
                    done.push(TraitMethodTree { attributes: attributes_tree(expanded.attributes@), ..list[from] }),
                )
            },
        }
    }
}

/// The active ones among `list[from..]`, behind those before.
pub open spec fn active_extern_fns(
    list: Seq<ExternFnTree>,
    outcomes: Seq<MemberOutcome>,
    from: int,
    done: Seq<ExternFnTree>,
) -> Result<Seq<ExternFnTree>, Seq<char>>
    decreases list.len() - from,
{
    if from < 0 || from >= list.len() {
        Ok(done)
    } else if from >= outcomes.len() {
        active_extern_fns(list, outcomes, from + 1, done.push(list[from]))
    } else {
        let outcome = outcomes[from];
        match outcome.expanded {
            Err(error) => Err(error@),
            Ok(expanded) => if !expanded.active {
                active_extern_fns(list, outcomes, from + 1, done)
            } else {
                active_extern_fns(
                    list,
                    outcomes,
                    from + 1,
                    done.push(ExternFnTree { attributes: attributes_tree(expanded.attributes@), ..list[from] }),
                )
            },
        }
    }
}

/// An item with its active members.
pub open spec fn active_members(item: ItemTree, outcome: ItemOutcome) -> Result<ItemTree, Seq<char>>
    decreases item, 0int,
{
    match item {
        ItemTree::Struct(structure) => match active_fields(
            structure.fields,
            outcome.fields@,
            0,
            Seq::empty(),
        ) {
            Ok(fields) => Ok(ItemTree::Struct(StructDeclTree { fields, ..structure })),
            Err(error) => Err(error),
        },
        ItemTree::Enum(enumeration) => match active_variants(
            enumeration.variants,
            outcome.members@,
            0,
            Seq::empty(),
        ) {
            Ok(variants) => Ok(ItemTree::Enum(EnumDeclTree { variants, ..enumeration })),
            Err(error) => Err(error),
        },
        ItemTree::Impl(implementation) => match active_functions(
            implementation.methods,
            outcome.members@,
            0,
            Seq::empty(),
        ) {
            Ok(methods) => Ok(ItemTree::Impl(ImplDeclTree { methods, ..implementation })),
            Err(error) => Err(error),
        },
        ItemTree::Trait(declaration) => match active_trait_methods(
            declaration.methods,
            outcome.members@,
            0,
            Seq::empty(),
        ) {
            Ok(methods) => Ok(ItemTree::Trait(TraitDeclTree { methods, ..declaration })),
            Err(error) => Err(error),
        },
        ItemTree::Extern(block) => match active_extern_fns(
            block.fns,
            outcome.members@,
            0,
            Seq::empty(),
        ) {
            Ok(fns) => Ok(ItemTree::Extern(ExternBlockTree { fns, ..block })),
            Err(error) => Err(error),
        },
        ItemTree::Mod(module) => match active_items(
            module.items,
            outcome.items@,
            0,
            Seq::empty(),
            Seq::empty(),
        ) {
            Ok((items, places)) => Ok(
                ItemTree::Mod(
                    ModDeclTree {
                        items,
                        source_order: active_order(module.source_order, places, 0),
                        ..module
                    },
                ),
            ),
            Err(error) => Err(error),
        },
        _ => Ok(item),
    }
}

/// An item with other attributes.
pub open spec fn with_attributes(
    item: ItemTree,
    attributes: Seq<crate::tree::AttributeTree>,
) -> ItemTree {
    match item {
        ItemTree::Annotation(inner) => ItemTree::Annotation(
            crate::tree::AnnotationDeclTree { attributes, ..inner },
        ),
        ItemTree::Fn(inner) => ItemTree::Fn(FnDeclTree { attributes, ..inner }),
        ItemTree::Struct(inner) => ItemTree::Struct(StructDeclTree { attributes, ..inner }),
        ItemTree::Enum(inner) => ItemTree::Enum(EnumDeclTree { attributes, ..inner }),
        ItemTree::Impl(inner) => ItemTree::Impl(ImplDeclTree { attributes, ..inner }),
        ItemTree::Trait(inner) => ItemTree::Trait(TraitDeclTree { attributes, ..inner }),
        ItemTree::Extern(inner) => ItemTree::Extern(ExternBlockTree { attributes, ..inner }),
        ItemTree::Mod(inner) => ItemTree::Mod(ModDeclTree { attributes, ..inner }),
        ItemTree::Use(inner) => ItemTree::Use(crate::tree::UseDeclTree { attributes, ..inner }),
    }
}

/// An item as it stays; none where it is inactive.
pub open spec fn active_item(item: ItemTree, outcome: ItemOutcome) -> Result<
    Option<ItemTree>,
    Seq<char>,
>
    decreases item, 1int,
{
    match outcome.expanded {
        Err(error) => Err(error@),
        Ok(expanded) => if !expanded.active {
            Ok(None)
        } else {
            match active_members(item, outcome) {
                Err(error) => Err(error),
                Ok(inner) => Ok(
                    Some(with_attributes(inner, attributes_tree(expanded.attributes@))),
                ),
            }
        },
    }
}

/// The active ones among `items[from..]`, behind those before, and the new place
/// of every item that is active.
pub open spec fn active_items(
    items: Seq<ItemTree>,
    outcomes: Seq<ItemOutcome>,
    from: int,
    done: Seq<ItemTree>,
    places: Seq<Option<usize>>,
) -> Result<(Seq<ItemTree>, Seq<Option<usize>>), Seq<char>>
    decreases items, items.len() - from,
{
    if from < 0 || from >= items.len() {
        Ok((done, places))
    } else if from >= outcomes.len() {
        active_items(
            items,
            outcomes,
            from + 1,
            done.push(items[from]),
            places.push(Some(done.len() as usize)),
        )
    } else {
        match active_item(items[from], outcomes[from]) {
            Err(error) => Err(error),
            Ok(None) => active_items(items, outcomes, from + 1, done, places.push(None)),
            Ok(Some(item)) => active_items(
                items,
                outcomes,
                from + 1,
                done.push(item),
                places.push(Some(done.len() as usize)),
            ),
        }
    }
}

/// The source order from `from` on without inactive items, over the new places.
pub open spec fn active_order(
    order: Seq<ChunkEntry>,
    places: Seq<Option<usize>>,
    from: int,
) -> Seq<ChunkEntry>
    decreases order.len() - from,
{
    if from < 0 || from >= order.len() {
        Seq::empty()
    } else {
        let rest = active_order(order, places, from + 1);
        match order[from] {
            ChunkEntry::Statement(_) => seq![order[from]] + rest,
            ChunkEntry::Item(k) => if k < places.len() && places[k as int] is Some {
                seq![ChunkEntry::Item(places[k as int]->0)] + rest
            } else {
                rest
            },
        }
    }
}

/// The active part of a program.
pub open spec fn active_program(
    program: ProgramTree,
    outcomes: Seq<ItemOutcome>,
) -> Result<ProgramTree, Seq<char>> {
    match active_items(program.items, outcomes, 0, Seq::empty(), Seq::empty()) {
        Ok((items, places)) => Ok(
            ProgramTree {
                items,
                source_order: active_order(program.source_order, places, 0),
                ..program
            },
        ),
        Err(error) => Err(error),
    }
}

/// The active ones among `items[from..]`, behind those before, as far as nothing
/// fails.
pub open spec fn kept_before_error(
    items: Seq<ItemTree>,
    outcomes: Seq<ItemOutcome>,
    from: int,
    done: Seq<ItemTree>,
) -> Seq<ItemTree>
    decreases items.len() - from,
{
    if from < 0 || from >= items.len() {
        done
    } else if from >= outcomes.len() {
        kept_before_error(items, outcomes, from + 1, done.push(items[from]))
    } else {
        match active_item(items[from], outcomes[from]) {
            Err(_) => done,
            Ok(None) => kept_before_error(items, outcomes, from + 1, done),
            Ok(Some(item)) => kept_before_error(items, outcomes, from + 1, done.push(item)),
        }
    }
}

fn filter_variant(kind: VariantKind, outcomes: Vec<Result<Expanded, String>>) -> (r: Result<
    VariantKind,
    String,
>)
    ensures
        match r {
            Ok(kept) => variant_fields(kind.tree(), outcomes@) == Ok::<VariantKindTree, Seq<char>>(
                kept.tree(),
            ),
            Err(error) => variant_fields(kind.tree(), outcomes@) == Err::<
                VariantKindTree,
                Seq<char>,
            >(error@),
        },
{
    match kind {
        VariantKind::Struct(fields) => match filter_fields(fields, outcomes) {
            Ok(fields) => Ok(VariantKind::Struct(fields)),
            Err(error) => Err(error),
        },
        VariantKind::Tuple(types) => Ok(VariantKind::Tuple(types)),
        VariantKind::Unit => Ok(VariantKind::Unit),
    }
}

fn filter_fields(list: Vec<Field>, given: Vec<Result<Expanded, String>>) -> (r: Result<Vec<Field>, String>)
    ensures
        match r {
            Ok(kept) => active_fields(fields_tree(list@), given@, 0, Seq::empty()) == Ok::<
                Seq<FieldTree>,
                Seq<char>,
            >(fields_tree(kept@)),
            Err(error) => active_fields(fields_tree(list@), given@, 0, Seq::empty()) == Err::<
                Seq<FieldTree>,
                Seq<char>,
            >(error@),
        },
{
    let ghost start = list@;
    let ghost model = fields_tree(list@);
    let ghost all = given@;
    let mut outcomes = given;
    let mut out: Vec<Field> = Vec::new();
    proof {
        assert(fields_tree(out@) =~= Seq::empty());
        assert(all.skip(0) =~= all);
    }
    for item in it: list
        invariant
            it.seq() == start,
            start == list@,
            all == given@,
            model == fields_tree(start),
            outcomes@ == (if it.index() < all.len() {
                all.skip(it.index() as int)
            } else {
                Seq::empty()
            }),
            active_fields(model, all, it.index() as int, fields_tree(out@)) == active_fields(
                model,
                all,
                0,
                Seq::empty(),
            ),
    {
        let ghost n = it.index() as int;
        let ghost had = fields_tree(out@);
        let mut item = item;
        let mut keep = true;
        proof {
            assert(model[n] == item.tree());
        }
        if outcomes.len() > 0 {
            let outcome = outcomes.remove(0);
            proof {
                assert(outcome == all[n]);
                if n + 1 < all.len() {
                    assert(outcomes@ =~= all.skip(n + 1));
                } else {
                    assert(outcomes@ =~= Seq::empty());
                }
            }
            let expanded = match outcome {
                Ok(expanded) => expanded,
                Err(error) => {
                    return Err(error);
                },
            };
            keep = expanded.active;
            if keep {
                item.attributes = expanded.attributes;
            }
        }
        if keep {
            let ghost one = item.tree();
            out.push(item);
            proof {
                assert(fields_tree(out@) =~= had.push(one));
            }
        }
    }
    Ok(out)
}

fn filter_variants(list: Vec<Variant>, given: Vec<MemberOutcome>) -> (r: Result<Vec<Variant>, String>)
    ensures
        match r {
            Ok(kept) => active_variants(variants_tree(list@), given@, 0, Seq::empty()) == Ok::<
                Seq<VariantTree>,
                Seq<char>,
            >(variants_tree(kept@)),
            Err(error) => active_variants(variants_tree(list@), given@, 0, Seq::empty()) == Err::<
                Seq<VariantTree>,
                Seq<char>,
            >(error@),
        },
{
    let ghost start = list@;
    let ghost model = variants_tree(list@);
    let ghost all = given@;
    let mut outcomes = given;
    let mut out: Vec<Variant> = Vec::new();
    proof {
        assert(variants_tree(out@) =~= Seq::empty());
        assert(all.skip(0) =~= all);
    }
    for item in it: list
        invariant
            it.seq() == start,
            start == list@,
            all == given@,
            model == variants_tree(start),
            outcomes@ == (if it.index() < all.len() {
                all.skip(it.index() as int)
            } else {
                Seq::empty()
            }),
            active_variants(model, all, it.index() as int, variants_tree(out@)) == active_variants(
                model,
                all,
                0,
                Seq::empty(),
            ),
    {
        let ghost n = it.index() as int;
        let ghost had = variants_tree(out@);
        let mut item = item;
        let mut keep = true;
        proof {
            assert(model[n] == item.tree());
        }
        if outcomes.len() > 0 {
            let outcome = outcomes.remove(0);
            proof {
                assert(outcome == all[n]);
                if n + 1 < all.len() {
                    assert(outcomes@ =~= all.skip(n + 1));
                } else {
                    assert(outcomes@ =~= Seq::empty());
                }
            }
            let expanded = match outcome.expanded {
                Ok(expanded) => expanded,
                Err(error) => {
                    return Err(error);
                },
            };
            keep = expanded.active;
            if keep {
                item.attributes = expanded.attributes;
                match filter_variant(item.kind, outcome.fields) {
                    Ok(kind) => {
                        item.kind = kind;
                    },
                    Err(error) => {
                        return Err(error);
                    },
                }
            }
        }
        if keep {
            let ghost one = item.tree();
            out.push(item);
            proof {
                assert(variants_tree(out@) =~= had.push(one));
            }
        }
    }
    Ok(out)
}

fn filter_functions(list: Vec<FnDecl>, given: Vec<MemberOutcome>) -> (r: Result<Vec<FnDecl>, String>)
    ensures
        match r {
            Ok(kept) => active_functions(functions_tree(list@), given@, 0, Seq::empty()) == Ok::<
                Seq<FnDeclTree>,
                Seq<char>,
            >(functions_tree(kept@)),
            Err(error) => active_functions(functions_tree(list@), given@, 0, Seq::empty()) == Err::<
                Seq<FnDeclTree>,
                Seq<char>,
            >(error@),
        },
{
    let ghost start = list@;
    let ghost model = functions_tree(list@);
    let ghost all = given@;
    let mut outcomes = given;
    let mut out: Vec<FnDecl> = Vec::new();
    proof {
        assert(functions_tree(out@) =~= Seq::empty());
        assert(all.skip(0) =~= all);
    }
    for item in it: list
        invariant
            it.seq() == start,
            start == list@,
            all == given@,
            model == functions_tree(start),
            outcomes@ == (if it.index() < all.len() {
                all.skip(it.index() as int)
            } else {
                Seq::empty()
            }),
            active_functions(model, all, it.index() as int, functions_tree(out@)) == active_functions(
                model,
                all,
                0,
                Seq::empty(),
            ),
    {
        let ghost n = it.index() as int;
        let ghost had = functions_tree(out@);
        let mut item = item;
        let mut keep = true;
        proof {
            assert(model[n] == item.tree());
        }
        if outcomes.len() > 0 {
            let outcome = outcomes.remove(0);
            proof {
                assert(outcome == all[n]);
                if n + 1 < all.len() {
                    assert(outcomes@ =~= all.skip(n + 1));
                } else {
                    assert(outcomes@ =~= Seq::empty());
                }
            }
            let expanded = match outcome.expanded {
                Ok(expanded) => expanded,
                Err(error) => {
                    return Err(error);
                },
            };
            keep = expanded.active;
            if keep {
                item.attributes = expanded.attributes;
            }
        }
        if keep {
            let ghost one = item.tree();
            out.push(item);
            proof {
                assert(functions_tree(out@) =~= had.push(one));
            }
        }
    }
    Ok(out)
}

fn filter_trait_methods(list: Vec<TraitMethod>, given: Vec<MemberOutcome>) -> (r: Result<Vec<TraitMethod>, String>)
    ensures
        match r {
            Ok(kept) => active_trait_methods(trait_methods_tree(list@), given@, 0, Seq::empty()) == Ok::<
                Seq<TraitMethodTree>,
                Seq<char>,
            >(trait_methods_tree(kept@)),
            Err(error) => active_trait_methods(trait_methods_tree(list@), given@, 0, Seq::empty()) == Err::<
                Seq<TraitMethodTree>,
                Seq<char>,
            >(error@),
        },
{
    let ghost start = list@;
    let ghost model = trait_methods_tree(list@);
    let ghost all = given@;
    let mut outcomes = given;
    let mut out: Vec<TraitMethod> = Vec::new();
    proof {
        assert(trait_methods_tree(out@) =~= Seq::empty());
        assert(all.skip(0) =~= all);
    }
    for item in it: list
        invariant
            it.seq() == start,
            start == list@,
            all == given@,
            model == trait_methods_tree(start),
            outcomes@ == (if it.index() < all.len() {
                all.skip(it.index() as int)
            } else {
                Seq::empty()
            }),
            active_trait_methods(model, all, it.index() as int, trait_methods_tree(out@)) == active_trait_methods(
                model,
                all,
                0,
                Seq::empty(),
            ),
    {
        let ghost n = it.index() as int;
        let ghost had = trait_methods_tree(out@);
        let mut item = item;
        let mut keep = true;
        proof {
            assert(model[n] == item.tree());
        }
        if outcomes.len() > 0 {
            let outcome = outcomes.remove(0);
            proof {
                assert(outcome == all[n]);
                if n + 1 < all.len() {
                    assert(outcomes@ =~= all.skip(n + 1));
                } else {
                    assert(outcomes@ =~= Seq::empty());
                }
            }
            let expanded = match outcome.expanded {
                Ok(expanded) => expanded,
                Err(error) => {
                    return Err(error);
                },
            };
            keep = expanded.active;
            if keep {
                item.attributes = expanded.attributes;
            }
        }
        if keep {
            let ghost one = item.tree();
            out.push(item);
            proof {
                assert(trait_methods_tree(out@) =~= had.push(one));
            }
        }
    }
    Ok(out)
}

fn filter_extern_fns(list: Vec<ExternFn>, given: Vec<MemberOutcome>) -> (r: Result<Vec<ExternFn>, String>)
    ensures
        match r {
            Ok(kept) => active_extern_fns(extern_fns_tree(list@), given@, 0, Seq::empty()) == Ok::<
                Seq<ExternFnTree>,
                Seq<char>,
            >(extern_fns_tree(kept@)),
            Err(error) => active_extern_fns(extern_fns_tree(list@), given@, 0, Seq::empty()) == Err::<
                Seq<ExternFnTree>,
                Seq<char>,
            >(error@),
        },
{
    let ghost start = list@;
    let ghost model = extern_fns_tree(list@);
    let ghost all = given@;
    let mut outcomes = given;
    let mut out: Vec<ExternFn> = Vec::new();
    proof {
        assert(extern_fns_tree(out@) =~= Seq::empty());
        assert(all.skip(0) =~= all);
    }
    for item in it: list
        invariant
            it.seq() == start,
            start == list@,
            all == given@,
            model == extern_fns_tree(start),
            outcomes@ == (if it.index() < all.len() {
                all.skip(it.index() as int)
            } else {
                Seq::empty()
            }),
            active_extern_fns(model, all, it.index() as int, extern_fns_tree(out@)) == active_extern_fns(
                model,
                all,
                0,
                Seq::empty(),
            ),
    {
        let ghost n = it.index() as int;
        let ghost had = extern_fns_tree(out@);
        let mut item = item;
        let mut keep = true;
        proof {
            assert(model[n] == item.tree());
        }
        if outcomes.len() > 0 {
            let outcome = outcomes.remove(0);
            proof {
                assert(outcome == all[n]);
                if n + 1 < all.len() {
                    assert(outcomes@ =~= all.skip(n + 1));
                } else {
                    assert(outcomes@ =~= Seq::empty());
                }
            }
            let expanded = match outcome.expanded {
                Ok(expanded) => expanded,
                Err(error) => {
                    return Err(error);
                },
            };
            keep = expanded.active;
            if keep {
                item.attributes = expanded.attributes;
            }
        }
        if keep {
            let ghost one = item.tree();
            out.push(item);
            proof {
                assert(extern_fns_tree(out@) =~= had.push(one));
            }
        }
    }
    Ok(out)
}

fn filter_item_members(
    item: Item,
    fields: Vec<Result<Expanded, String>>,
    members: Vec<MemberOutcome>,
    below: Vec<ItemOutcome>,
    Ghost(outcome): Ghost<ItemOutcome>,
) -> (r: Result<Item, String>)
    requires
        outcome.fields == fields,
        outcome.members == members,
        outcome.items == below,
    ensures
        match r {
            Ok(kept) => active_members(item.tree(), outcome) == Ok::<ItemTree, Seq<char>>(
                kept.tree(),
            ),
            Err(error) => active_members(item.tree(), outcome) == Err::<ItemTree, Seq<char>>(error@),
        },
    decreases item, 0int,
{
    match item {
        Item::Struct(node) => {
            let mut node = node;
            let mut taken: Vec<Field> = Vec::new();
            std::mem::swap(&mut taken, &mut node.fields);
            match filter_fields(taken, fields) {
                Ok(kept) => {
                    node.fields = kept;
                    Ok(Item::Struct(node))
                },
                Err(error) => Err(error),
            }
        },
        Item::Enum(node) => {
            let mut node = node;
            let mut taken: Vec<Variant> = Vec::new();
            std::mem::swap(&mut taken, &mut node.variants);
            match filter_variants(taken, members) {
                Ok(kept) => {
                    node.variants = kept;
                    Ok(Item::Enum(node))
                },
                Err(error) => Err(error),
            }
        },
        Item::Impl(node) => {
            let mut node = node;
            let mut taken: Vec<FnDecl> = Vec::new();
            std::mem::swap(&mut taken, &mut node.methods);
            match filter_functions(taken, members) {
                Ok(kept) => {
                    node.methods = kept;
                    Ok(Item::Impl(node))
                },
                Err(error) => Err(error),
            }
        },
        Item::Trait(node) => {
            let mut node = node;
            let mut taken: Vec<TraitMethod> = Vec::new();
            std::mem::swap(&mut taken, &mut node.methods);
            match filter_trait_methods(taken, members) {
                Ok(kept) => {
                    node.methods = kept;
                    Ok(Item::Trait(node))
                },
                Err(error) => Err(error),
            }
        },
        Item::Extern(node) => {
            let mut node = node;
            let mut taken: Vec<ExternFn> = Vec::new();
            std::mem::swap(&mut taken, &mut node.fns);
            match filter_extern_fns(taken, members) {
                Ok(kept) => {
                    node.fns = kept;
                    Ok(Item::Extern(node))
                },
                Err(error) => Err(error),
            }
        },
        Item::Mod(node) => match filter_items(node.items, below) {
            Ok((items, places)) => {
                let source_order = filter_order(&node.source_order, &places);
                Ok(
                    Item::Mod(
                        crate::ast::ModDecl {
                            name: node.name,
                            attributes: node.attributes,
                            documentation: node.documentation,
                            items,
                            chunk: node.chunk,
                            source_order,
                            is_pub: node.is_pub,
                            is_file: node.is_file,
                            is_decl: node.is_decl,
                        },
                    ),
                )
            },
            Err((_, error)) => Err(error),
        },
        Item::Annotation(node) => Ok(Item::Annotation(node)),
        Item::Fn(node) => Ok(Item::Fn(node)),
        Item::Use(node) => Ok(Item::Use(node)),
    }
}

fn filter_order(order: &Vec<ChunkEntry>, places: &Vec<Option<usize>>) -> (r: Vec<ChunkEntry>)
    ensures
        r@ == active_order(order@, places@, 0),
{
    let mut out: Vec<ChunkEntry> = Vec::new();
    let mut i: usize = 0;
    proof {
        assert(out@ + active_order(order@, places@, 0) =~= active_order(order@, places@, 0));
    }
    while i < order.len()
        invariant
            i <= order.len(),
            out@ + active_order(order@, places@, i as int) == active_order(order@, places@, 0),
        decreases order.len() - i,
    {
        let ghost had = out@;
        let ghost rest = active_order(order@, places@, i + 1);
        match order[i] {
            ChunkEntry::Statement(k) => {
                out.push(ChunkEntry::Statement(k));
                proof {
                    assert(out@ + rest =~= had + (seq![order@[i as int]] + rest));
                }
            },
            ChunkEntry::Item(k) => {
                if k < places.len() {
                    if let Some(place) = places[k] {
                        out.push(ChunkEntry::Item(place));
                        proof {
                            assert(out@ + rest =~= had + (seq![ChunkEntry::Item(place)] + rest));
                        }
                    }
                }
            },
        }
        i += 1;
    }
    proof {
        assert(out@ + Seq::<ChunkEntry>::empty() =~= out@);
    }
    out
}

fn filter_item(item: Item, outcome: ItemOutcome) -> (r: Result<Option<Item>, String>)
    ensures
        match r {
            Ok(Some(kept)) => active_item(item.tree(), outcome) == Ok::<
                Option<ItemTree>,
                Seq<char>,
            >(Some(kept.tree())),
            Ok(None) => active_item(item.tree(), outcome) == Ok::<Option<ItemTree>, Seq<char>>(None),
            Err(error) => active_item(item.tree(), outcome) == Err::<Option<ItemTree>, Seq<char>>(
                error@,
            ),
        },
    decreases item, 1int,
{
    let ghost whole = outcome;
    let expanded = match outcome.expanded {
        Ok(expanded) => expanded,
        Err(error) => {
            return Err(error);
        },
    };
    if !expanded.active {
        return Ok(None);
    }
    match filter_item_members(
        item,
        outcome.fields,
        outcome.members,
        outcome.items,
        Ghost(whole),
    ) {
        Ok(inner) => {
            let mut inner = inner;
            let ghost had = inner.tree();
            inner.set_attributes(expanded.attributes);
            proof {
                assert(inner.tree() == with_attributes(had, attributes_tree(expanded.attributes@)));
            }
            Ok(Some(inner))
        },
        Err(error) => Err(error),
    }
}

fn filter_items(list: Vec<Item>, given: Vec<ItemOutcome>) -> (r: Result<
    (Vec<Item>, Vec<Option<usize>>),
    (Vec<Item>, String),
>)
    ensures
        match r {
            Ok((kept, places)) => active_items(
                items_tree(list@),
                given@,
                0,
                Seq::empty(),
                Seq::empty(),
            ) == Ok::<(Seq<ItemTree>, Seq<Option<usize>>), Seq<char>>(
                (items_tree(kept@), places@),
            ),
            Err((kept, error)) => active_items(
                items_tree(list@),
                given@,
                0,
                Seq::empty(),
                Seq::empty(),
            ) == Err::<(Seq<ItemTree>, Seq<Option<usize>>), Seq<char>>(error@) && items_tree(kept@)
                == kept_before_error(items_tree(list@), given@, 0, Seq::empty()),
        },
    decreases list, 2int,
{
    let ghost start = list@;
    let ghost model = items_tree(list@);
    let ghost all = given@;
    let mut outcomes = given;
    let mut out: Vec<Item> = Vec::new();
    let mut places: Vec<Option<usize>> = Vec::new();
    proof {
        assert(items_tree(out@) =~= Seq::empty());
        assert(all.skip(0) =~= all);
    }
    for item in it: list
        invariant
            it.seq() == start,
            start == list@,
            all == given@,
            model == items_tree(start),
            outcomes@ == (if it.index() < all.len() {
                all.skip(it.index() as int)
            } else {
                Seq::empty()
            }),
            active_items(model, all, it.index() as int, items_tree(out@), places@) == active_items(
                model,
                all,
                0,
                Seq::empty(),
                Seq::empty(),
            ),
            kept_before_error(model, all, it.index() as int, items_tree(out@)) == kept_before_error(
                model,
                all,
                0,
                Seq::empty(),
            ),
    {
        let ghost n = it.index() as int;
        let ghost had = items_tree(out@);
        let ghost seen = places@;
        proof {
            assert(item == start[n]);
            assert(decreases_to!(list => item));
            assert(model[n] == item.tree());
            assert(items_tree(out@).len() == out@.len());
        }
        let mut kept: Option<Item> = None;
        if outcomes.len() == 0 {
            kept = Some(item);
        } else {
            let outcome = outcomes.remove(0);
            proof {
                assert(outcome == all[n]);
                if n + 1 < all.len() {
                    assert(outcomes@ =~= all.skip(n + 1));
                } else {
                    assert(outcomes@ =~= Seq::empty());
                }
            }
            match filter_item(item, outcome) {
                Ok(inner) => {
                    kept = inner;
                },
                Err(error) => {
                    return Err((out, error));
                },
            }
        }
        match kept {
            Some(inner) => {
                let ghost one = inner.tree();
                places.push(Some(out.len()));
                out.push(inner);
                proof {
                    assert(items_tree(out@) =~= had.push(one));
                }
            },
            None => {
                places.push(None);
            },
        }
        proof {
            assert(kept_before_error(model, all, n, had) == kept_before_error(
                model,
                all,
                n + 1,
                items_tree(out@),
            ));
            assert(active_items(model, all, n, had, seen) == active_items(
                model,
                all,
                n + 1,
                items_tree(out@),
                places@,
            ));
        }
    }
    Ok((out, places))
}

/// Keeps the active part of a program. An error leaves the active items before the
/// failing one, and the statements and the source order as they were.
pub fn apply_cfg(program: &mut Program, outcomes: Vec<ItemOutcome>) -> (r: Result<(), String>)
    ensures
        match r {
            Ok(_) => active_program(old(program).tree(), outcomes@) == Ok::<ProgramTree, Seq<char>>(
                final(program).tree(),
            ),
            Err(error) => active_program(old(program).tree(), outcomes@) == Err::<
                ProgramTree,
                Seq<char>,
            >(error@) && final(program).tree() == (ProgramTree {
                items: kept_before_error(old(program).tree().items, outcomes@, 0, Seq::empty()),
                ..old(program).tree()
            }),
        },
{
    let mut taken: Vec<Item> = Vec::new();
    std::mem::swap(&mut taken, &mut program.items);
    match filter_items(taken, outcomes) {
        Ok((items, places)) => {
            program.source_order = filter_order(&program.source_order, &places);
            program.items = items;
            Ok(())
        },
        Err((items, error)) => {
            program.items = items;
            Err(error)
        },
    }
}

/// The places of the statements in a source order.
pub open spec fn statements_in(order: Seq<ChunkEntry>) -> Seq<usize>
    decreases order.len(),
{
    if order.len() == 0 {
        Seq::empty()
    } else {
        let rest = statements_in(order.drop_last());
        match order.last() {
            ChunkEntry::Statement(k) => rest.push(k),
            ChunkEntry::Item(_) => rest,
        }
    }
}

proof fn lemma_statements_behind(first: ChunkEntry, order: Seq<ChunkEntry>)
    ensures
        statements_in(seq![first] + order) == (match first {
            ChunkEntry::Statement(k) => seq![k],
            ChunkEntry::Item(_) => Seq::empty(),
        }) + statements_in(order),
    decreases order.len(),
{
    let all = seq![first] + order;
    if order.len() == 0 {
        assert(all.drop_last() =~= Seq::empty());
        assert(all.last() == first);
        assert(statements_in(all.drop_last()) =~= Seq::empty());
    } else {
        lemma_statements_behind(first, order.drop_last());
        assert(all.drop_last() =~= seq![first] + order.drop_last());
        assert(all.last() == order.last());
    }
}

proof fn lemma_active_statements(order: Seq<ChunkEntry>, places: Seq<Option<usize>>, from: int)
    requires
        0 <= from <= order.len(),
    ensures
        statements_in(active_order(order, places, from)) == statements_in(order.skip(from)),
    decreases order.len() - from,
{
    if from < order.len() {
        lemma_active_statements(order, places, from + 1);
        let rest = active_order(order, places, from + 1);
        assert(order.skip(from) =~= seq![order[from]] + order.skip(from + 1));
        lemma_statements_behind(order[from], order.skip(from + 1));
        lemma_statements_behind(order[from], rest);
        if let ChunkEntry::Item(k) = order[from] {
            if k < places.len() && places[k as int] is Some {
                lemma_statements_behind(ChunkEntry::Item(places[k as int]->0), rest);
            }
        }
    }
}

/// Taking inactive items out of a program keeps its statements and the order in
/// which they run.
pub proof fn law_statements_keep_their_order(program: ProgramTree, outcomes: Seq<ItemOutcome>)
    requires
        active_program(program, outcomes) is Ok,
    ensures
        (active_program(program, outcomes)->Ok_0).chunk == program.chunk,
        statements_in((active_program(program, outcomes)->Ok_0).source_order) == statements_in(
            program.source_order,
        ),
{
    let places = (active_items(program.items, outcomes, 0, Seq::empty(), Seq::empty())->Ok_0).1;
    lemma_active_statements(program.source_order, places, 0);
    assert(program.source_order.skip(0) =~= program.source_order);
}

proof fn lemma_active_places(
    items: Seq<ItemTree>,
    outcomes: Seq<ItemOutcome>,
    from: int,
    done: Seq<ItemTree>,
    places: Seq<Option<usize>>,
)
    requires
        0 <= from <= items.len() <= usize::MAX,
        places.len() == from,
        done.len() <= from,
        forall|i: int|
            0 <= i < places.len() && (#[trigger] places[i]) is Some ==> places[i]->0 < done.len(),
        forall|i: int, j: int|
            0 <= i < j < places.len() && (#[trigger] places[i]) is Some && (
            #[trigger] places[j]) is Some ==> places[i]->0 < places[j]->0,
        active_items(items, outcomes, from, done, places) is Ok,
    ensures
        ({
            let (kept, new) = active_items(items, outcomes, from, done, places)->Ok_0;
            &&& new.len() == items.len()
            &&& kept.len() <= items.len()
            &&& forall|i: int|
                0 <= i < new.len() && (#[trigger] new[i]) is Some ==> new[i]->0 < kept.len()
            &&& forall|i: int, j: int|
                0 <= i < j < new.len() && (#[trigger] new[i]) is Some && (#[trigger] new[j]) is Some
                    ==> new[i]->0 < new[j]->0
        }),
    decreases items.len() - from,
{
    if from < items.len() {
        let stays = places.push(Some(done.len() as usize));
        let leaves = places.push(None);
        assert forall|i: int|
            0 <= i < stays.len() && (#[trigger] stays[i]) is Some implies stays[i]->0 < done.len()
            + 1 by {
            if i < places.len() {
                assert(stays[i] == places[i]);
            }
        }
        assert forall|i: int, j: int|
            0 <= i < j < stays.len() && (#[trigger] stays[i]) is Some && (
            #[trigger] stays[j]) is Some implies stays[i]->0 < stays[j]->0 by {
            assert(stays[i] == places[i]);
            if j < places.len() {
                assert(stays[j] == places[j]);
            }
        }
        assert forall|i: int|
            0 <= i < leaves.len() && (#[trigger] leaves[i]) is Some implies leaves[i]->0
            < done.len() by {
            assert(leaves[i] == places[i]);
        }
        assert forall|i: int, j: int|
            0 <= i < j < leaves.len() && (#[trigger] leaves[i]) is Some && (
            #[trigger] leaves[j]) is Some implies leaves[i]->0 < leaves[j]->0 by {
            assert(leaves[i] == places[i]);
            assert(leaves[j] == places[j]);
        }
        if from >= outcomes.len() {
            lemma_active_places(items, outcomes, from + 1, done.push(items[from]), stays);
        } else {
            match active_item(items[from], outcomes[from]) {
                Ok(Some(item)) => {
                    lemma_active_places(items, outcomes, from + 1, done.push(item), stays);
                },
                _ => {
                    lemma_active_places(items, outcomes, from + 1, done, leaves);
                },
            }
        }
    }
}

/// The items that stay keep their order, and every one has a place of its own
/// among them.
pub proof fn law_active_items_keep_their_order(items: Seq<ItemTree>, outcomes: Seq<ItemOutcome>)
    requires
        items.len() <= usize::MAX,
        active_items(items, outcomes, 0, Seq::empty(), Seq::empty()) is Ok,
    ensures
        ({
            let (kept, places) = active_items(
                items,
                outcomes,
                0,
                Seq::empty(),
                Seq::empty(),
            )->Ok_0;
            &&& places.len() == items.len()
            &&& forall|i: int|
                0 <= i < places.len() && (#[trigger] places[i]) is Some ==> places[i]->0 < kept.len()
            &&& forall|i: int, j: int|
                0 <= i < j < places.len() && (#[trigger] places[i]) is Some && (
                #[trigger] places[j]) is Some ==> places[i]->0 < places[j]->0
        }),
{
    lemma_active_places(items, outcomes, 0, Seq::empty(), Seq::empty());
}

} // verus!
