//! Cycles among the modules that require each other.

use vstd::prelude::*;

use crate::hir::ModuleId;

verus! {

/// What a module depends on, from entry `from` on.
pub open spec fn needs_from(
    graph: Seq<(ModuleId, Seq<ModuleId>)>,
    module: ModuleId,
    from: int,
) -> Seq<ModuleId>
    decreases graph.len() - from,
{
    if from < 0 || from >= graph.len() {
        Seq::empty()
    } else if graph[from].0 == module {
        graph[from].1
    } else {
        needs_from(graph, module, from + 1)
    }
}

/// What a module depends on.
pub open spec fn needs(graph: Seq<(ModuleId, Seq<ModuleId>)>, module: ModuleId) -> Seq<ModuleId> {
    needs_from(graph, module, 0)
}

/// The graph over mathematical sequences.
pub open spec fn edges_model(graph: Seq<(ModuleId, Vec<ModuleId>)>) -> Seq<
    (ModuleId, Seq<ModuleId>),
> {
    Seq::new(graph.len(), |i: int| (graph[i].0, graph[i].1@))
}

/// The state of the search: the modules on the current path and the modules
/// behind which no cycle was found.
pub struct Search {
    pub stack: Seq<ModuleId>,
    pub done: Seq<ModuleId>,
}

/// The first place of a module on a path.
pub open spec fn place_on(stack: Seq<ModuleId>, module: ModuleId, from: int) -> Option<int>
    decreases stack.len() - from,
{
    if from < 0 || from >= stack.len() {
        None
    } else if stack[from] == module {
        Some(from)
    } else {
        place_on(stack, module, from + 1)
    }
}

/// Follows the dependencies of a module. `fuel` bounds the length of the path.
pub open spec fn explore(
    graph: Seq<(ModuleId, Seq<ModuleId>)>,
    search: Search,
    module: ModuleId,
    fuel: nat,
) -> (Search, Option<Seq<ModuleId>>)
    decreases fuel, needs(graph, module).len() + 1,
{
    if fuel == 0 {
        (search, None)
    } else {
        let entered = Search { stack: search.stack.push(module), ..search };
        match explore_from(graph, entered, module, 0, fuel) {
            (found, Some(cycle)) => (found, Some(cycle)),
            (left, None) => (
                Search {
                    stack: if left.stack.len() == 0 {
                        left.stack
                    } else {
                        left.stack.drop_last()
                    },
                    done: left.done.push(module),
                },
                None,
            ),
        }
    }
}

/// Follows the dependencies of a module from number `k` on.
pub open spec fn explore_from(
    graph: Seq<(ModuleId, Seq<ModuleId>)>,
    search: Search,
    module: ModuleId,
    k: int,
    fuel: nat,
) -> (Search, Option<Seq<ModuleId>>)
    decreases fuel, needs(graph, module).len() - k,
{
    if fuel == 0 || k < 0 || k >= needs(graph, module).len() {
        (search, None)
    } else {
        let dependency = needs(graph, module)[k];
        match place_on(search.stack, dependency, 0) {
            Some(at) => (search, Some(search.stack.skip(at).push(dependency))),
            None => if search.done.contains(dependency) {
                explore_from(graph, search, module, k + 1, fuel)
            } else {
                match explore(graph, search, dependency, (fuel - 1) as nat) {
                    (found, Some(cycle)) => (found, Some(cycle)),
                    (left, None) => explore_from(graph, left, module, k + 1, fuel),
                }
            },
        }
    }
}

/// Starts at each of `modules[from..]` that was not reached yet.
pub open spec fn explore_all(
    graph: Seq<(ModuleId, Seq<ModuleId>)>,
    search: Search,
    modules: Seq<ModuleId>,
    from: int,
    fuel: nat,
) -> Option<Seq<ModuleId>>
    decreases modules.len() - from,
{
    if from < 0 || from >= modules.len() {
        None
    } else if search.done.contains(modules[from]) || search.stack.contains(modules[from]) {
        explore_all(graph, search, modules, from + 1, fuel)
    } else {
        match explore(graph, search, modules[from], fuel) {
            (_, Some(cycle)) => Some(cycle),
            (left, None) => explore_all(graph, left, modules, from + 1, fuel),
        }
    }
}

/// The first cycle that a search from the modules in this order meets.
pub open spec fn dependency_cycle(
    graph: Seq<(ModuleId, Seq<ModuleId>)>,
    modules: Seq<ModuleId>,
) -> Option<Seq<ModuleId>> {
    explore_all(
        graph,
        Search { stack: Seq::empty(), done: Seq::empty() },
        modules,
        0,
        graph.len() + 1,
    )
}

// ---------------------------------------------------------------------------
// Laws.
// ---------------------------------------------------------------------------

/// Whether one module directly depends on another.
pub open spec fn edge(graph: Seq<(ModuleId, Seq<ModuleId>)>, from: ModuleId, to: ModuleId) -> bool {
    needs(graph, from).contains(to)
}

/// Whether each module on the path depends on the next.
pub open spec fn is_path(graph: Seq<(ModuleId, Seq<ModuleId>)>, path: Seq<ModuleId>) -> bool {
    forall|i: int| 0 <= i < path.len() - 1 ==> edge(graph, #[trigger] path[i], path[i + 1])
}

/// Whether the path is a cycle: it ends where it starts.
pub open spec fn is_cycle(graph: Seq<(ModuleId, Seq<ModuleId>)>, path: Seq<ModuleId>) -> bool {
    path.len() >= 2 && path[0] == path.last() && is_path(graph, path)
}

/// Whether each finished module depends only on modules finished before it.
pub open spec fn is_layered(graph: Seq<(ModuleId, Seq<ModuleId>)>, done: Seq<ModuleId>) -> bool {
    forall|i: int, k: int|
        0 <= i < done.len() && 0 <= k < needs(graph, done[i]).len() ==> done.take(i).contains(
            #[trigger] needs(graph, #[trigger] done[i])[k],
        )
}

proof fn lemma_place_on(stack: Seq<ModuleId>, module: ModuleId, from: int)
    requires
        0 <= from <= stack.len(),
    ensures
        match place_on(stack, module, from) {
            Some(at) => from <= at < stack.len() && stack[at] == module,
            None => forall|i: int| from <= i < stack.len() ==> #[trigger] stack[i] != module,
        },
    decreases stack.len() - from,
{
    if from < stack.len() && stack[from] != module {
        lemma_place_on(stack, module, from + 1);
    }
}

/// Whether the first list is the start of the second.
pub open spec fn is_prefix(a: Seq<ModuleId>, b: Seq<ModuleId>) -> bool {
    a.len() <= b.len() && b.take(a.len() as int) == a
}

/// How many entries of the graph are for a module of the path.
pub open spec fn on_path(graph: Seq<(ModuleId, Seq<ModuleId>)>, stack: Seq<ModuleId>) -> nat {
    marked(graph, stack, graph.len() as int)
}

/// How many of the first `n` entries are for a module of the path.
pub open spec fn marked(
    entries: Seq<(ModuleId, Seq<ModuleId>)>,
    stack: Seq<ModuleId>,
    n: int,
) -> nat
    decreases n,
{
    if n <= 0 {
        0
    } else {
        marked(entries, stack, n - 1) + if stack.contains(entries[n - 1].0) {
            1nat
        } else {
            0nat
        }
    }
}

/// Whether the bound on the path leaves room for every module that is not yet
/// on it.
pub open spec fn adequate(
    graph: Seq<(ModuleId, Seq<ModuleId>)>,
    stack: Seq<ModuleId>,
    fuel: nat,
) -> bool {
    fuel + on_path(graph, stack) >= graph.len() + 1
}

proof fn lemma_marked_bound(
    entries: Seq<(ModuleId, Seq<ModuleId>)>,
    stack: Seq<ModuleId>,
    n: int,
)
    requires
        0 <= n,
    ensures
        marked(entries, stack, n) <= n,
    decreases n,
{
    if n > 0 {
        lemma_marked_bound(entries, stack, n - 1);
    }
}

proof fn lemma_marked_push(
    entries: Seq<(ModuleId, Seq<ModuleId>)>,
    stack: Seq<ModuleId>,
    module: ModuleId,
    n: int,
    at: int,
)
    requires
        0 <= n <= entries.len(),
        !stack.contains(module),
        0 <= at < entries.len(),
        entries[at].0 == module,
    ensures
        marked(entries, stack.push(module), n) >= marked(entries, stack, n) + if at < n {
            1nat
        } else {
            0nat
        },
    decreases n,
{
    if n > 0 {
        lemma_marked_push(entries, stack, module, n - 1, at);
        let longer = stack.push(module);
        if stack.contains(entries[n - 1].0) {
            let i = choose|i: int| 0 <= i < stack.len() && stack[i] == entries[n - 1].0;
            assert(longer[i] == entries[n - 1].0);
            assert(longer.contains(entries[n - 1].0));
        }
        if at == n - 1 {
            assert(longer[stack.len() as int] == module);
            assert(longer.contains(entries[n - 1].0));
        }
    }
}

proof fn lemma_entry_of(
    entries: Seq<(ModuleId, Seq<ModuleId>)>,
    module: ModuleId,
    from: int,
) -> (at: int)
    requires
        0 <= from,
        needs_from(entries, module, from).len() > 0,
    ensures
        from <= at < entries.len(),
        0 <= at,
        entries[at].0 == module,
    decreases entries.len() - from,
{
    if entries[from].0 == module {
        from
    } else {
        lemma_entry_of(entries, module, from + 1)
    }
}

/// A module with dependencies has an entry, so each such step uses one up.
proof fn lemma_adequate(
    graph: Seq<(ModuleId, Seq<ModuleId>)>,
    stack: Seq<ModuleId>,
    module: ModuleId,
    fuel: nat,
)
    requires
        adequate(graph, stack, fuel),
        !stack.contains(module),
    ensures
        fuel > 0,
        needs(graph, module).len() > 0 ==> adequate(graph, stack.push(module), (fuel - 1) as nat),
{
    lemma_marked_bound(graph, stack, graph.len() as int);
    if needs(graph, module).len() > 0 {
        let at = lemma_entry_of(graph, module, 0);
        lemma_marked_push(graph, stack, module, graph.len() as int, at);
    }
}

/// Without a cycle the path is afterwards what it was.
proof fn lemma_path_kept(
    graph: Seq<(ModuleId, Seq<ModuleId>)>,
    search: Search,
    module: ModuleId,
    fuel: nat,
)
    ensures
        explore(graph, search, module, fuel).1 is None ==> explore(
            graph,
            search,
            module,
            fuel,
        ).0.stack == search.stack,
    decreases fuel, needs(graph, module).len() + 1,
{
    if fuel > 0 {
        let entered = Search { stack: search.stack.push(module), ..search };
        lemma_path_kept_from(graph, entered, module, 0, fuel);
        assert(entered.stack.drop_last() =~= search.stack);
    }
}

proof fn lemma_path_kept_from(
    graph: Seq<(ModuleId, Seq<ModuleId>)>,
    search: Search,
    module: ModuleId,
    k: int,
    fuel: nat,
)
    ensures
        explore_from(graph, search, module, k, fuel).1 is None ==> explore_from(
            graph,
            search,
            module,
            k,
            fuel,
        ).0.stack == search.stack,
    decreases fuel, needs(graph, module).len() - k,
{
    if fuel > 0 && 0 <= k < needs(graph, module).len() {
        let dependency = needs(graph, module)[k];
        if place_on(search.stack, dependency, 0) is None {
            if search.done.contains(dependency) {
                lemma_path_kept_from(graph, search, module, k + 1, fuel);
            } else {
                lemma_path_kept(graph, search, dependency, (fuel - 1) as nat);
                let left = explore(graph, search, dependency, (fuel - 1) as nat).0;
                lemma_path_kept_from(graph, left, module, k + 1, fuel);
            }
        }
    }
}

proof fn lemma_kept(a: Seq<ModuleId>, b: Seq<ModuleId>, module: ModuleId)
    requires
        is_prefix(a, b),
        a.contains(module),
    ensures
        b.contains(module),
{
    let i = choose|i: int| 0 <= i < a.len() && a[i] == module;
    assert(b.take(a.len() as int)[i] == module);
    assert(b[i] == module);
}

proof fn lemma_prefix_step(a: Seq<ModuleId>, b: Seq<ModuleId>, c: Seq<ModuleId>)
    requires
        is_prefix(a, b),
        is_prefix(b, c),
    ensures
        is_prefix(a, c),
{
    assert(c.take(a.len() as int) =~= c.take(b.len() as int).take(a.len() as int));
}

/// What the search from one module keeps.
proof fn lemma_explore(
    graph: Seq<(ModuleId, Seq<ModuleId>)>,
    search: Search,
    module: ModuleId,
    fuel: nat,
)
    requires
        is_path(graph, search.stack.push(module)),
        is_layered(graph, search.done),
        !search.stack.contains(module),
        adequate(graph, search.stack, fuel),
    ensures
        match explore(graph, search, module, fuel) {
            (_, Some(cycle)) => is_cycle(graph, cycle),
            (after, None) => {
                &&& is_layered(graph, after.done)
                &&& is_prefix(search.done, after.done)
                &&& after.done.contains(module)
            },
        },
    decreases fuel, needs(graph, module).len() + 1,
{
    lemma_adequate(graph, search.stack, module, fuel);
    let entered = Search { stack: search.stack.push(module), ..search };
    lemma_explore_from(graph, entered, module, 0, fuel);
    let (left, cycle) = explore_from(graph, entered, module, 0, fuel);
    if cycle is None {
        let after = left.done.push(module);
        assert(after.last() == module);
        assert(after.take(search.done.len() as int) =~= left.done.take(search.done.len() as int));
        assert forall|i: int, k: int|
            0 <= i < after.len() && 0 <= k < needs(graph, after[i]).len() implies after.take(
            i,
        ).contains(#[trigger] needs(graph, #[trigger] after[i])[k]) by {
            assert(after.take(i) =~= left.done.take(i));
            if i < left.done.len() {
                assert(after[i] == left.done[i]);
                assert(left.done.take(i).contains(needs(graph, left.done[i])[k]));
            } else {
                assert(left.done.take(i) =~= left.done);
                assert(left.done.contains(needs(graph, module)[k]));
            }
        }
    }
}

proof fn lemma_explore_from(
    graph: Seq<(ModuleId, Seq<ModuleId>)>,
    search: Search,
    module: ModuleId,
    k: int,
    fuel: nat,
)
    requires
        0 <= k,
        fuel > 0,
        is_path(graph, search.stack),
        search.stack.len() > 0,
        search.stack.last() == module,
        is_layered(graph, search.done),
        needs(graph, module).len() > 0 ==> adequate(graph, search.stack, (fuel - 1) as nat),
    ensures
        match explore_from(graph, search, module, k, fuel) {
            (_, Some(cycle)) => is_cycle(graph, cycle),
            (after, None) => {
                &&& is_layered(graph, after.done)
                &&& is_prefix(search.done, after.done)
                &&& forall|i: int|
                    k <= i < needs(graph, module).len() ==> after.done.contains(
                        #[trigger] needs(graph, module)[i],
                    )
            },
        },
    decreases fuel, needs(graph, module).len() - k,
{
    if k < needs(graph, module).len() {
        let dependency = needs(graph, module)[k];
        assert(needs(graph, module).contains(dependency));
        lemma_place_on(search.stack, dependency, 0);
        match place_on(search.stack, dependency, 0) {
            Some(at) => {
                let c = search.stack.skip(at).push(dependency);
                assert(c[0] == dependency);
                assert forall|i: int| 0 <= i < c.len() - 1 implies edge(
                    graph,
                    #[trigger] c[i],
                    c[i + 1],
                ) by {
                    assert(c[i] == search.stack[at + i]);
                    if i + 1 < c.len() - 1 {
                        assert(c[i + 1] == search.stack[at + i + 1]);
                    }
                }
            },
            None => {
                assert(!search.stack.contains(dependency));
                if search.done.contains(dependency) {
                    lemma_explore_from(graph, search, module, k + 1, fuel);
                    let (after, cycle) = explore_from(graph, search, module, k + 1, fuel);
                    if cycle is None {
                        lemma_kept(search.done, after.done, dependency);
                    }
                } else {
                    let longer = search.stack.push(dependency);
                    assert forall|i: int| 0 <= i < longer.len() - 1 implies edge(
                        graph,
                        #[trigger] longer[i],
                        longer[i + 1],
                    ) by {
                        assert(longer[i] == search.stack[i]);
                        if i + 1 < search.stack.len() {
                            assert(longer[i + 1] == search.stack[i + 1]);
                        }
                    }
                    lemma_explore(graph, search, dependency, (fuel - 1) as nat);
                    lemma_path_kept(graph, search, dependency, (fuel - 1) as nat);
                    let (left, cycle) = explore(graph, search, dependency, (fuel - 1) as nat);
                    if cycle is None {
                        lemma_explore_from(graph, left, module, k + 1, fuel);
                        let (after, cycle) = explore_from(graph, left, module, k + 1, fuel);
                        if cycle is None {
                            lemma_kept(left.done, after.done, dependency);
                            lemma_prefix_step(search.done, left.done, after.done);
                        }
                    }
                }
            },
        }
    } else {
        assert(search.done.take(search.done.len() as int) =~= search.done);
    }
}

proof fn lemma_explore_all(
    graph: Seq<(ModuleId, Seq<ModuleId>)>,
    search: Search,
    modules: Seq<ModuleId>,
    from: int,
    fuel: nat,
)
    requires
        0 <= from <= modules.len(),
        search.stack.len() == 0,
        is_layered(graph, search.done),
        fuel == graph.len() + 1,
        forall|i: int| 0 <= i < from ==> search.done.contains(#[trigger] modules[i]),
    ensures
        match explore_all(graph, search, modules, from, fuel) {
            Some(cycle) => is_cycle(graph, cycle),
            None => exists|done: Seq<ModuleId>| #[trigger]
                is_layered(graph, done) && forall|i: int|
                    0 <= i < modules.len() ==> done.contains(#[trigger] modules[i]),
        },
    decreases modules.len() - from,
{
    if from < modules.len() {
        if search.done.contains(modules[from]) {
            lemma_explore_all(graph, search, modules, from + 1, fuel);
        } else {
            lemma_explore(graph, search, modules[from], fuel);
            lemma_path_kept(graph, search, modules[from], fuel);
            let (left, cycle) = explore(graph, search, modules[from], fuel);
            if cycle is None {
                assert forall|i: int| 0 <= i < from + 1 implies left.done.contains(
                    #[trigger] modules[i],
                ) by {
                    if i < from {
                        lemma_kept(search.done, left.done, modules[i]);
                    }
                }
                lemma_explore_all(graph, left, modules, from + 1, fuel);
            }
        }
    } else {
        assert(is_layered(graph, search.done));
    }
}

/// A layered list rules out every cycle through one of its modules.
proof fn lemma_layers_have_no_cycle(
    graph: Seq<(ModuleId, Seq<ModuleId>)>,
    done: Seq<ModuleId>,
    path: Seq<ModuleId>,
    at: int,
    n: int,
)
    requires
        is_layered(graph, done),
        is_path(graph, path),
        path.len() >= 1,
        0 <= n < path.len(),
        0 <= at < done.len(),
        done[at] == path[0],
    ensures
        exists|i: int| 0 <= i <= at && #[trigger] done[i] == path[n] && i + n <= at,
    decreases n,
{
    if n == 0 {
        assert(done[at] == path[n] && at + n <= at);
    } else {
        lemma_layers_have_no_cycle(graph, done, path, at, n - 1);
        let i = choose|i: int| 0 <= i <= at && #[trigger] done[i] == path[n - 1] && i + (n - 1) <= at;
        assert(edge(graph, path[n - 1], path[n - 1 + 1]));
        let list = needs(graph, path[n - 1]);
        let k = choose|k: int| 0 <= k < list.len() && list[k] == path[n];
        assert(done.take(i).contains(needs(graph, done[i])[k]));
        let j = choose|j: int| 0 <= j < done.take(i).len() && done.take(i)[j] == path[n];
        assert(done[j] == path[n] && j + n <= at);
    }
}

/// Going around a cycle once more.
proof fn lemma_repeat(
    graph: Seq<(ModuleId, Seq<ModuleId>)>,
    cycle: Seq<ModuleId>,
    times: nat,
) -> (path: Seq<ModuleId>)
    requires
        is_cycle(graph, cycle),
    ensures
        is_path(graph, path),
        path.len() == (cycle.len() - 1) * times + 1,
        path[0] == cycle[0],
        path.last() == cycle[0],
    decreases times,
{
    if times == 0 {
        assert((cycle.len() - 1) * 0 == 0) by (nonlinear_arith);
        seq![cycle[0]]
    } else {
        let shorter = lemma_repeat(graph, cycle, (times - 1) as nat);
        let path = shorter + cycle.skip(1);
        assert((cycle.len() - 1) * times == (cycle.len() - 1) * (times - 1) + (cycle.len() - 1))
            by (nonlinear_arith);
        assert(cycle.skip(1).last() == cycle.last());
        assert(path.last() == cycle.skip(1).last());
        assert forall|i: int| 0 <= i < path.len() - 1 implies edge(
            graph,
            #[trigger] path[i],
            path[i + 1],
        ) by {
            if i + 1 < shorter.len() {
                assert(path[i] == shorter[i] && path[i + 1] == shorter[i + 1]);
            } else {
                let j = i - (shorter.len() - 1);
                assert(path[i + 1] == cycle[j + 1]);
                if j == 0 {
                    assert(path[i] == shorter.last());
                } else {
                    assert(path[i] == cycle[j]);
                }
                assert(edge(graph, cycle[j], cycle[j + 1]));
            }
        }
        path
    }
}

/// A reported cycle is one: each of its modules depends on the next, and it ends
/// where it starts.
pub proof fn law_reported_cycle_is_a_cycle(
    graph: Seq<(ModuleId, Seq<ModuleId>)>,
    modules: Seq<ModuleId>,
)
    ensures
        dependency_cycle(graph, modules) matches Some(cycle) ==> is_cycle(graph, cycle),
{
    let search = Search { stack: Seq::empty(), done: Seq::empty() };
    lemma_explore_all(graph, search, modules, 0, graph.len() + 1);
}

/// Whether the modules of a cycle differ, but for the last, which closes it.
pub open spec fn is_simple(cycle: Seq<ModuleId>) -> bool {
    forall|i: int, j: int|
        0 <= i < j < cycle.len() - 1 ==> (#[trigger] cycle[i]) != (#[trigger] cycle[j])
}

proof fn lemma_simple(
    graph: Seq<(ModuleId, Seq<ModuleId>)>,
    search: Search,
    module: ModuleId,
    fuel: nat,
)
    requires
        search.stack.no_duplicates(),
        !search.stack.contains(module),
    ensures
        explore(graph, search, module, fuel).1 matches Some(cycle) ==> is_simple(cycle),
    decreases fuel, needs(graph, module).len() + 1,
{
    if fuel > 0 {
        let entered = Search { stack: search.stack.push(module), ..search };
        assert forall|i: int, j: int|
            0 <= i < entered.stack.len() && 0 <= j < entered.stack.len() && i
                != j implies entered.stack[i] != entered.stack[j] by {
            if i == search.stack.len() {
                assert(search.stack.contains(search.stack[j]));
            } else if j == search.stack.len() {
                assert(search.stack.contains(search.stack[i]));
            }
        }
        lemma_simple_from(graph, entered, module, 0, fuel);
    }
}

proof fn lemma_simple_from(
    graph: Seq<(ModuleId, Seq<ModuleId>)>,
    search: Search,
    module: ModuleId,
    k: int,
    fuel: nat,
)
    requires
        search.stack.no_duplicates(),
    ensures
        explore_from(graph, search, module, k, fuel).1 matches Some(cycle) ==> is_simple(cycle),
    decreases fuel, needs(graph, module).len() - k,
{
    if fuel > 0 && 0 <= k < needs(graph, module).len() {
        let dependency = needs(graph, module)[k];
        lemma_place_on(search.stack, dependency, 0);
        match place_on(search.stack, dependency, 0) {
            Some(at) => {
                let cycle = search.stack.skip(at).push(dependency);
                assert forall|i: int, j: int| 0 <= i < j < cycle.len() - 1 implies (
                #[trigger] cycle[i]) != (#[trigger] cycle[j]) by {
                    assert(cycle[i] == search.stack[at + i]);
                    assert(cycle[j] == search.stack[at + j]);
                }
            },
            None => {
                if search.done.contains(dependency) {
                    lemma_simple_from(graph, search, module, k + 1, fuel);
                } else {
                    lemma_simple(graph, search, dependency, (fuel - 1) as nat);
                    lemma_path_kept(graph, search, dependency, (fuel - 1) as nat);
                    let left = explore(graph, search, dependency, (fuel - 1) as nat).0;
                    if explore(graph, search, dependency, (fuel - 1) as nat).1 is None {
                        lemma_simple_from(graph, left, module, k + 1, fuel);
                    }
                }
            },
        }
    }
}

proof fn lemma_simple_all(
    graph: Seq<(ModuleId, Seq<ModuleId>)>,
    search: Search,
    modules: Seq<ModuleId>,
    from: int,
    fuel: nat,
)
    requires
        search.stack.no_duplicates(),
    ensures
        explore_all(graph, search, modules, from, fuel) matches Some(cycle) ==> is_simple(cycle),
    decreases modules.len() - from,
{
    if 0 <= from < modules.len() {
        if search.done.contains(modules[from]) || search.stack.contains(modules[from]) {
            lemma_simple_all(graph, search, modules, from + 1, fuel);
        } else {
            lemma_simple(graph, search, modules[from], fuel);
            lemma_path_kept(graph, search, modules[from], fuel);
            let (left, cycle) = explore(graph, search, modules[from], fuel);
            if cycle is None {
                lemma_simple_all(graph, left, modules, from + 1, fuel);
            }
        }
    }
}

/// A reported cycle passes through each of its modules once; only the closing one
/// is named twice.
pub proof fn law_reported_cycle_is_simple(
    graph: Seq<(ModuleId, Seq<ModuleId>)>,
    modules: Seq<ModuleId>,
)
    ensures
        dependency_cycle(graph, modules) matches Some(cycle) ==> is_simple(cycle),
{
    let search = Search { stack: Seq::empty(), done: Seq::empty() };
    lemma_simple_all(graph, search, modules, 0, graph.len() + 1);
}

/// Where no cycle is reported, no cycle leads through any of the modules.
pub proof fn law_no_cycle_is_missed(
    graph: Seq<(ModuleId, Seq<ModuleId>)>,
    modules: Seq<ModuleId>,
    cycle: Seq<ModuleId>,
)
    requires
        dependency_cycle(graph, modules) is None,
        cycle.len() > 0,
        modules.contains(cycle[0]),
    ensures
        !is_cycle(graph, cycle),
{
    if is_cycle(graph, cycle) {
        let search = Search { stack: Seq::empty(), done: Seq::empty() };
        lemma_explore_all(graph, search, modules, 0, graph.len() + 1);
        let done = choose|done: Seq<ModuleId>| #[trigger]
            is_layered(graph, done) && forall|i: int|
                0 <= i < modules.len() ==> done.contains(#[trigger] modules[i]);
        let m = choose|m: int| 0 <= m < modules.len() && modules[m] == cycle[0];
        assert(done.contains(modules[m]));
        let at = choose|at: int| 0 <= at < done.len() && done[at] == cycle[0];
        let path = lemma_repeat(graph, cycle, (at + 1) as nat);
        assert((cycle.len() - 1) * (at + 1) >= at + 1) by (nonlinear_arith)
            requires
                cycle.len() >= 2,
                at >= 0,
        ;
        lemma_layers_have_no_cycle(graph, done, path, at, path.len() - 1);
        assert(false);
    }
}

// ---------------------------------------------------------------------------
// The search.
// ---------------------------------------------------------------------------

/// The place of a module in a list.
fn position(list: &Vec<ModuleId>, module: ModuleId) -> (r: Option<usize>)
    ensures
        match r {
            Some(at) => place_on(list@, module, 0) == Some(at as int) && at < list@.len()
                && list@.contains(module),
            None => place_on(list@, module, 0) is None && !list@.contains(module),
        },
{
    let mut i: usize = 0;
    while i < list.len()
        invariant
            i <= list.len(),
            place_on(list@, module, i as int) == place_on(list@, module, 0),
            forall|k: int| 0 <= k < i ==> #[trigger] list@[k] != module,
        decreases list.len() - i,
    {
        if list[i] == module {
            proof {
                assert(list@[i as int] == module);
            }
            return Some(i);
        }
        i += 1;
    }
    None
}

/// What a module depends on.
fn dependencies_of(graph: &Vec<(ModuleId, Vec<ModuleId>)>, module: ModuleId) -> (r: Option<
    &Vec<ModuleId>,
>)
    ensures
        match r {
            Some(list) => list@ == needs(edges_model(graph@), module),
            None => needs(edges_model(graph@), module).len() == 0,
        },
{
    let ghost model = edges_model(graph@);
    let mut i: usize = 0;
    while i < graph.len()
        invariant
            i <= graph.len(),
            model == edges_model(graph@),
            needs_from(model, module, i as int) == needs(model, module),
        decreases graph.len() - i,
    {
        proof {
            assert(model[i as int] == (graph@[i as int].0, graph@[i as int].1@));
        }
        if graph[i].0 == module {
            return Some(&graph[i].1);
        }
        i += 1;
    }
    None
}

struct Explorer {
    stack: Vec<ModuleId>,
    done: Vec<ModuleId>,
}

impl Explorer {
    spec fn view(&self) -> Search {
        Search { stack: self.stack@, done: self.done@ }
    }

    fn visit(
        &mut self,
        module: ModuleId,
        graph: &Vec<(ModuleId, Vec<ModuleId>)>,
        Ghost(fuel): Ghost<nat>,
    ) -> (r: Option<Vec<ModuleId>>)
        requires
            adequate(edges_model(graph@), old(self)@.stack, fuel),
            !old(self)@.stack.contains(module),
        ensures
            match r {
                Some(cycle) => explore(edges_model(graph@), old(self)@, module, fuel).1 == Some(cycle@),
                None => explore(edges_model(graph@), old(self)@, module, fuel) == (
                    final(self)@,
                    None::<Seq<ModuleId>>,
                ),
            },
        decreases fuel,
    {
        proof {
            lemma_adequate(edges_model(graph@), self@.stack, module, fuel);
        }
        self.stack.push(module);
        let ghost entered = self@;
        if let Some(dependencies) = dependencies_of(graph, module) {
            let mut k: usize = 0;
            while k < dependencies.len()
                invariant
                    k <= dependencies.len(),
                    fuel > 0,
                    dependencies@ == needs(edges_model(graph@), module),
                    self@.stack == entered.stack,
                    needs(edges_model(graph@), module).len() > 0 ==> adequate(
                        edges_model(graph@),
                        entered.stack,
                        (fuel - 1) as nat,
                    ),
                    explore_from(edges_model(graph@), self@, module, k as int, fuel) == explore_from(
                        edges_model(graph@),
                        entered,
                        module,
                        0,
                        fuel,
                    ),
                    entered.stack == old(self)@.stack.push(module),
                    entered.done == old(self)@.done,
                decreases dependencies.len() - k,
            {
                let dependency = dependencies[k];
                match position(&self.stack, dependency) {
                    Some(at) => {
                        let mut cycle: Vec<ModuleId> = Vec::new();
                        let mut i: usize = at;
                        while i < self.stack.len()
                            invariant
                                at <= i <= self.stack.len(),
                                cycle@ == self.stack@.subrange(at as int, i as int),
                            decreases self.stack.len() - i,
                        {
                            cycle.push(self.stack[i]);
                            i += 1;
                            proof {
                                assert(cycle@ =~= self.stack@.subrange(at as int, i as int));
                            }
                        }
                        cycle.push(dependency);
                        proof {
                            assert(cycle@ =~= self@.stack.skip(at as int).push(dependency));
                        }
                        return Some(cycle);
                    },
                    None => {
                        if position(&self.done, dependency).is_none() {
                            let ghost before = self@;
                            proof {
                                lemma_path_kept(edges_model(graph@), before, dependency, (fuel - 1) as nat);
                            }
                            if let Some(cycle) = self.visit(
                                dependency,
                                graph,
                                Ghost((fuel - 1) as nat),
                            ) {
                                return Some(cycle);
                            }
                        }
                    },
                }
                k += 1;
            }
        }
        let _ = self.stack.pop();
        self.done.push(module);
        None
    }
}

/// A cycle among the modules that require each other, where there is one. The
/// search starts at the modules in the given order.
pub fn find_module_dependency_cycle(
    graph: &Vec<(ModuleId, Vec<ModuleId>)>,
    modules: &Vec<ModuleId>,
) -> (r: Option<Vec<ModuleId>>)
    ensures
        match r {
            Some(cycle) => dependency_cycle(edges_model(graph@), modules@) == Some(cycle@),
            None => dependency_cycle(edges_model(graph@), modules@) is None,
        },
{
    let mut explorer = Explorer { stack: Vec::new(), done: Vec::new() };
    let ghost fuel = edges_model(graph@).len() + 1;
    let mut i: usize = 0;
    while i < modules.len()
        invariant
            i <= modules.len(),
            fuel == edges_model(graph@).len() + 1,
            explorer@.stack.len() == 0,
            explore_all(edges_model(graph@), explorer@, modules@, i as int, fuel) == dependency_cycle(
                edges_model(graph@),
                modules@,
            ),
        decreases modules.len() - i,
    {
        if position(&explorer.done, modules[i]).is_none() {
            proof {
                assert(!explorer@.stack.contains(modules@[i as int]));
                lemma_path_kept(edges_model(graph@), explorer@, modules@[i as int], fuel);
            }
            if let Some(cycle) = explorer.visit(modules[i], graph, Ghost(fuel)) {
                return Some(cycle);
            }
        }
        i += 1;
    }
    None
}

} // verus!
