//! The order in which root functions are defined: dependencies first, with
//! mutually recursive functions in one group.

use vstd::prelude::*;

use super::calls::{block_calls, collect_block_function_dependencies};
use crate::ast::Item;
use crate::hir::{DefId, ResolvedHir};
use crate::table::{KeySet, Table};
use crate::typed::TypedProgram;

verus! {

/// The state of the depth-first walk.
pub struct Walk {
    pub next: usize,
    pub indices: Seq<Option<usize>>,
    pub lowlinks: Seq<usize>,
    /// The functions whose group is still open.
    pub stack: Seq<usize>,
    pub on_stack: Seq<bool>,
    pub components: Seq<Seq<usize>>,
}

/// An ascending list with one more number.
pub open spec fn with_number(list: Seq<usize>, number: usize) -> Seq<usize>
    decreases list.len(),
{
    if list.len() == 0 || list.last() <= number {
        list.push(number)
    } else {
        with_number(list.drop_last(), number).push(list.last())
    }
}

/// The numbers of a list in ascending order.
pub open spec fn ascending(list: Seq<usize>) -> Seq<usize>
    decreases list.len(),
{
    if list.len() == 0 {
        Seq::empty()
    } else {
        with_number(ascending(list.skip(1)), list[0])
    }
}

/// The topmost place of a function on the stack below `n`; the bottom where it
/// is not there.
pub open spec fn topmost(stack: Seq<usize>, function: usize, n: int) -> int
    decreases n,
{
    if n <= 0 || n > stack.len() {
        0
    } else if stack[n - 1] == function {
        n - 1
    } else {
        topmost(stack, function, n - 1)
    }
}

/// The flags with those of the listed functions cleared, from the top down to
/// place `to`.
pub open spec fn cleared(flags: Seq<bool>, stack: Seq<usize>, to: int, n: int) -> Seq<bool>
    decreases n,
{
    if n <= to || n <= 0 || n > stack.len() {
        flags
    } else {
        cleared(flags.update(stack[n - 1] as int, false), stack, to, n - 1)
    }
}

impl Walk {
    /// Nothing visited.
    pub open spec fn start(n: nat) -> Walk {
        Walk {
            next: 0,
            indices: Seq::new(n, |i: int| None),
            lowlinks: Seq::new(n, |i: int| 0usize),
            stack: Seq::empty(),
            on_stack: Seq::new(n, |i: int| false),
            components: Seq::empty(),
        }
    }

    /// A function is reached.
    pub open spec fn enter(self, function: usize) -> Walk {
        Walk {
            next: (self.next + 1) as usize,
            indices: self.indices.update(function as int, Some(self.next)),
            lowlinks: self.lowlinks.update(function as int, self.next),
            stack: self.stack.push(function),
            on_stack: self.on_stack.update(function as int, true),
            ..self
        }
    }

    /// A function is known to lead back to number `number`.
    pub open spec fn lower(self, function: usize, number: usize) -> Walk {
        if number < self.lowlinks[function as int] {
            Walk { lowlinks: self.lowlinks.update(function as int, number), ..self }
        } else {
            self
        }
    }

    /// All dependencies of a function have been followed. Where it leads back no
    /// further than to itself, what lies above it on the stack is its group.
    pub open spec fn leave(self, function: usize, index: usize) -> Walk {
        if self.lowlinks[function as int] != index {
            self
        } else {
            let n = self.stack.len() as int;
            let at = topmost(self.stack, function, n);
            Walk {
                stack: self.stack.take(at),
                on_stack: cleared(self.on_stack, self.stack, at, n),
                components: self.components.push(ascending(self.stack.skip(at))),
                ..self
            }
        }
    }
}

/// Follows the dependencies of a function. `fuel` bounds the depth of the walk.
pub open spec fn visited(graph: Seq<Seq<usize>>, walk: Walk, function: usize, fuel: nat) -> Walk
    decreases fuel, graph[function as int].len() + 1,
{
    if fuel == 0 {
        walk
    } else {
        visited_from(graph, walk.enter(function), function, 0, fuel).leave(function, walk.next)
    }
}

/// Follows the dependencies of a function from number `k` on.
pub open spec fn visited_from(
    graph: Seq<Seq<usize>>,
    walk: Walk,
    function: usize,
    k: int,
    fuel: nat,
) -> Walk
    decreases fuel, graph[function as int].len() - k,
{
    if fuel == 0 || k < 0 || k >= graph[function as int].len() {
        walk
    } else {
        let dependency = graph[function as int][k];
        let next = match walk.indices[dependency as int] {
            None => {
                let inner = visited(graph, walk, dependency, (fuel - 1) as nat);
                inner.lower(function, inner.lowlinks[dependency as int])
            },
            Some(index) => if walk.on_stack[dependency as int] {
                walk.lower(function, index)
            } else {
                walk
            },
        };
        visited_from(graph, next, function, k + 1, fuel)
    }
}

/// Starts at each function from `from` on that was not reached yet.
pub open spec fn visited_all(graph: Seq<Seq<usize>>, walk: Walk, from: int) -> Walk
    decreases graph.len() - from,
{
    if from < 0 || from >= graph.len() {
        walk
    } else {
        visited_all(
            graph,
            match walk.indices[from] {
                None => visited(graph, walk, from as usize, graph.len()),
                Some(_) => walk,
            },
            from + 1,
        )
    }
}

/// The groups of the functions, dependencies first.
pub open spec fn components_of(graph: Seq<Seq<usize>>) -> Seq<Seq<usize>> {
    visited_all(graph, Walk::start(graph.len()), 0).components
}

/// Whether every dependency is a function of the graph.
pub open spec fn is_graph(graph: Seq<Seq<usize>>) -> bool {
    forall|f: int, k: int|
        0 <= f < graph.len() && 0 <= k < graph[f].len() ==> (#[trigger] graph[f][k]) < graph.len()
}

/// How many functions have not been reached.
pub open spec fn unvisited(indices: Seq<Option<usize>>) -> nat
    decreases indices.len(),
{
    if indices.len() == 0 {
        0
    } else {
        unvisited(indices.drop_last()) + if indices.last() is None {
            1nat
        } else {
            0nat
        }
    }
}

/// What was reached before is still reached.
pub open spec fn reaches(before: Seq<Option<usize>>, after: Seq<Option<usize>>) -> bool {
    before.len() == after.len() && forall|i: int|
        0 <= i < before.len() && before[i] is Some ==> #[trigger] after[i] == before[i]
}

pub proof fn lemma_unvisited_reaches(before: Seq<Option<usize>>, after: Seq<Option<usize>>)
    requires
        reaches(before, after),
    ensures
        unvisited(after) <= unvisited(before) <= before.len(),
    decreases before.len(),
{
    if before.len() > 0 {
        assert forall|i: int|
            0 <= i < before.drop_last().len() && before.drop_last()[
                i
            ] is Some implies #[trigger] after.drop_last()[i] == before.drop_last()[i] by {
            assert(after[i] == before[i]);
        }
        lemma_unvisited_reaches(before.drop_last(), after.drop_last());
        assert(before.last() is Some ==> after[before.len() - 1] == before[before.len() - 1]);
    }
}

pub proof fn lemma_unvisited_update(indices: Seq<Option<usize>>, at: int, number: usize)
    requires
        0 <= at < indices.len(),
        indices[at] is None,
    ensures
        unvisited(indices.update(at, Some(number))) + 1 == unvisited(indices),
    decreases indices.len(),
{
    let updated = indices.update(at, Some(number));
    if at == indices.len() - 1 {
        assert(updated.drop_last() =~= indices.drop_last());
    } else {
        assert(updated.drop_last() =~= indices.drop_last().update(at, Some(number)));
        lemma_unvisited_update(indices.drop_last(), at, number);
    }
}

pub proof fn lemma_unvisited_start(n: nat)
    ensures
        unvisited(Seq::new(n, |i: int| None::<usize>)) == n,
    decreases n,
{
    let all = Seq::new(n, |i: int| None::<usize>);
    if n > 0 {
        assert(all.drop_last() =~= Seq::new((n - 1) as nat, |i: int| None::<usize>));
        lemma_unvisited_start((n - 1) as nat);
    }
}

/// The graph over mathematical sequences.
pub open spec fn graph_model(graph: Seq<Vec<usize>>) -> Seq<Seq<usize>> {
    Seq::new(graph.len(), |i: int| graph[i]@)
}

/// The groups over mathematical sequences.
pub open spec fn groups_model(groups: Seq<Vec<usize>>) -> Seq<Seq<usize>> {
    Seq::new(groups.len(), |i: int| groups[i]@)
}

struct FunctionComponents<'a> {
    graph: &'a Vec<Vec<usize>>,
    next_index: usize,
    indices: Vec<Option<usize>>,
    lowlinks: Vec<usize>,
    stack: Vec<usize>,
    on_stack: Vec<bool>,
    components: Vec<Vec<usize>>,
}

impl<'a> FunctionComponents<'a> {
    spec fn view(&self) -> Walk {
        Walk {
            next: self.next_index,
            indices: self.indices@,
            lowlinks: self.lowlinks@,
            stack: self.stack@,
            on_stack: self.on_stack@,
            components: groups_model(self.components@),
        }
    }

    /// The tables cover all functions, and the next number is the number of
    /// functions that were reached.
    spec fn valid(&self) -> bool {
        let n = self.graph@.len();
        &&& is_graph(graph_model(self.graph@))
        &&& self.indices@.len() == n
        &&& self.lowlinks@.len() == n
        &&& self.on_stack@.len() == n
        &&& self.next_index + unvisited(self.indices@) == n
        &&& forall|i: int| 0 <= i < self.stack@.len() ==> (#[trigger] self.stack@[i]) < n
        &&& forall|c: int, i: int|
            0 <= c < self.components@.len() && 0 <= i < self.components@[c]@.len()
                ==> #[trigger] self.components@[c]@[i] < n
    }

    fn new(graph: &'a Vec<Vec<usize>>) -> (r: Self)
        requires
            is_graph(graph_model(graph@)),
        ensures
            r.valid(),
            r@ == Walk::start(graph@.len()),
            r.graph@ == graph@,
    {
        let mut indices: Vec<Option<usize>> = Vec::new();
        let mut lowlinks: Vec<usize> = Vec::new();
        let mut on_stack: Vec<bool> = Vec::new();
        let mut i: usize = 0;
        while i < graph.len()
            invariant
                i <= graph.len(),
                indices@ == Seq::new(i as nat, |k: int| None::<usize>),
                lowlinks@ == Seq::new(i as nat, |k: int| 0usize),
                on_stack@ == Seq::new(i as nat, |k: int| false),
            decreases graph.len() - i,
        {
            indices.push(None);
            lowlinks.push(0);
            on_stack.push(false);
            i += 1;
            proof {
                assert(indices@ =~= Seq::new(i as nat, |k: int| None::<usize>));
                assert(lowlinks@ =~= Seq::new(i as nat, |k: int| 0usize));
                assert(on_stack@ =~= Seq::new(i as nat, |k: int| false));
            }
        }
        proof {
            lemma_unvisited_start(graph@.len());
        }
        let r = FunctionComponents {
            graph,
            next_index: 0,
            indices,
            lowlinks,
            stack: Vec::new(),
            on_stack,
            components: Vec::new(),
        };
        proof {
            assert(r@.components =~= Seq::empty());
            assert(r@.stack =~= Seq::empty());
        }
        r
    }

    fn lower(&mut self, function: usize, number: usize)
        requires
            old(self).valid(),
            function < old(self).graph@.len(),
        ensures
            final(self).valid(),
            final(self).graph == old(self).graph,
            final(self)@ == old(self)@.lower(function, number),
            final(self).indices == old(self).indices,
    {
        if number < self.lowlinks[function] {
            self.lowlinks[function] = number;
        }
    }

    fn leave(&mut self, function: usize, index: usize)
        requires
            old(self).valid(),
            function < old(self).graph@.len(),
        ensures
            final(self).valid(),
            final(self).graph == old(self).graph,
            final(self)@ == old(self)@.leave(function, index),
            final(self).indices == old(self).indices,
    {
        if self.lowlinks[function] != index {
            return ;
        }
        let ghost start = *self;
        let ghost stack = self.stack@;
        let ghost n = stack.len() as int;
        let ghost at = topmost(stack, function, n);
        let mut component: Vec<usize> = Vec::new();
        let mut open = true;
        proof {
            lemma_topmost(stack, function, n);
            assert(stack.take(n) =~= stack);
            assert(stack.skip(n) =~= Seq::empty());
        }
        while open && self.stack.len() > 0
            invariant
                self.valid(),
                self.graph == start.graph,
                self.indices == start.indices,
                self.lowlinks == start.lowlinks,
                self.next_index == start.next_index,
                self.components == start.components,
                n == stack.len(),
                at == topmost(stack, function, n),
                0 <= at,
                self.stack@.len() <= n,
                self.stack@ == stack.take(self.stack@.len() as int),
                component@ == ascending(stack.skip(self.stack@.len() as int)),
                cleared(self.on_stack@, stack, at, self.stack@.len() as int) == cleared(
                    start.on_stack@,
                    stack,
                    at,
                    n,
                ),
                open ==> topmost(stack, function, self.stack@.len() as int) == at,
                !open ==> self.stack@.len() == at,
                at <= self.stack@.len(),
                forall|i: int| 0 <= i < component@.len() ==> #[trigger] component@[i] < self.graph@.len(),
            decreases self.stack@.len(),
        {
            let ghost height = self.stack@.len() as int;
            proof {
                lemma_topmost(stack, function, height);
            }
            match self.stack.pop() {
                Some(member) => {
                    proof {
                        assert(member == stack[height - 1]);
                        assert(self.stack@ =~= stack.take(height - 1));
                        assert(stack.skip(height - 1).skip(1) =~= stack.skip(height));
                        assert(stack.skip(height - 1)[0] == member);
                    }
                    self.on_stack[member] = false;
                    let ghost members = component@;
                    insert_number(&mut component, member);
                    proof {
                        assert forall|i: int| 0 <= i < component@.len() implies #[trigger] component@[i]
                            < self.graph@.len() by {
                            if component@[i] != member {
                                let j = choose|j: int|
                                    0 <= j < members.len() && members[j] == component@[i];
                                assert(members[j] < self.graph@.len());
                            }
                        }
                    }
                    if member == function {
                        open = false;
                    }
                },
                None => {},
            }
        }
        self.components.push(component);
        proof {
            assert(self@.components =~= start@.components.push(component@));
            assert(self.stack@.len() == at);
        }
    }

    fn visit(&mut self, function: usize, Ghost(fuel): Ghost<nat>)
        requires
            old(self).valid(),
            function < old(self).graph@.len(),
            old(self).indices@[function as int] is None,
            fuel >= unvisited(old(self).indices@),
        ensures
            final(self).valid(),
            final(self).graph == old(self).graph,
            final(self)@ == visited(graph_model(old(self).graph@), old(self)@, function, fuel),
            reaches(old(self).indices@, final(self).indices@),
        decreases fuel,
    {
        let ghost graph = graph_model(self.graph@);
        let ghost before = self.indices@;
        let index = self.next_index;
        proof {
            lemma_unvisited_update(self.indices@, function as int, index);
            assert(self.graph.len() == self.graph@.len());
        }
        self.next_index = self.next_index + 1;
        self.indices[function] = Some(index);
        self.lowlinks[function] = index;
        self.stack.push(function);
        self.on_stack[function] = true;
        let ghost entered = *self;
        let mut k: usize = 0;
        while k < self.graph[function].len()
            invariant
                self.valid(),
                self.graph == entered.graph,
                graph == graph_model(self.graph@),
                function < self.graph@.len(),
                k <= self.graph@[function as int]@.len(),
                fuel >= unvisited(before),
                unvisited(entered.indices@) + 1 == unvisited(before),
                reaches(entered.indices@, self.indices@),
                visited_from(graph, self@, function, k as int, fuel) == visited_from(
                    graph,
                    entered@,
                    function,
                    0,
                    fuel,
                ),
            decreases self.graph@[function as int]@.len() - k,
        {
            let dependency = self.graph[function][k];
            proof {
                assert(graph[function as int][k as int] == dependency);
                lemma_unvisited_reaches(entered.indices@, self.indices@);
            }
            let ghost middle = self.indices@;
            match self.indices[dependency] {
                None => {
                    self.visit(dependency, Ghost((fuel - 1) as nat));
                    let low = self.lowlinks[dependency];
                    self.lower(function, low);
                    proof {
                        assert forall|i: int|
                            0 <= i < entered.indices@.len()
                                && entered.indices@[i] is Some implies #[trigger] self.indices@[i]
                            == entered.indices@[i] by {
                            assert(middle[i] == entered.indices@[i]);
                        }
                    }
                },
                Some(number) => {
                    if self.on_stack[dependency] {
                        self.lower(function, number);
                    }
                },
            }
            k += 1;
        }
        proof {
            assert forall|i: int|
                0 <= i < before.len() && before[i] is Some implies #[trigger] self.indices@[i]
                == before[i] by {
                assert(entered.indices@[i] == before[i]);
            }
        }
        self.leave(function, index);
    }

    fn run(&mut self)
        requires
            old(self).valid(),
        ensures
            final(self).valid(),
            final(self).graph == old(self).graph,
            final(self)@ == visited_all(graph_model(old(self).graph@), old(self)@, 0),
    {
        let ghost start = *self;
        let ghost graph = graph_model(self.graph@);
        let mut f: usize = 0;
        while f < self.graph.len()
            invariant
                self.valid(),
                self.graph == start.graph,
                graph == graph_model(self.graph@),
                f <= self.graph@.len(),
                visited_all(graph, self@, f as int) == visited_all(graph, start@, 0),
            decreases self.graph@.len() - f,
        {
            proof {
                lemma_unvisited_reaches(self.indices@, self.indices@);
            }
            if self.indices[f].is_none() {
                self.visit(f, Ghost(self.graph@.len()));
            }
            f += 1;
        }
    }
}

proof fn lemma_topmost(stack: Seq<usize>, function: usize, n: int)
    requires
        0 <= n <= stack.len(),
    ensures
        0 <= topmost(stack, function, n) <= n,
        n > 0 ==> topmost(stack, function, n) < n,
    decreases n,
{
    if n > 0 {
        lemma_topmost(stack, function, n - 1);
    }
}

/// Puts a number into an ascending list.
fn insert_number(list: &mut Vec<usize>, number: usize)
    ensures
        final(list)@ == with_number(old(list)@, number),
        forall|i: int|
            0 <= i < final(list)@.len() ==> #[trigger] final(list)@[i] == number || old(
                list,
            )@.contains(final(list)@[i]),
{
    let ghost before = list@;
    let mut at: usize = list.len();
    proof {
        assert(before.take(at as int) =~= before);
        assert(before.skip(at as int) =~= Seq::empty());
        assert(with_number(before.take(at as int), number) + before.skip(at as int) =~= with_number(
            before,
            number,
        ));
    }
    while at > 0 && list[at - 1] > number
        invariant
            at <= list@.len(),
            list@ == before,
            with_number(before.take(at as int), number) + before.skip(at as int) == with_number(
                before,
                number,
            ),
        decreases at,
    {
        proof {
            let head = before.take(at as int);
            assert(head.drop_last() =~= before.take(at - 1));
            assert(before.skip(at - 1) =~= seq![head.last()] + before.skip(at as int));
            assert(with_number(before.take(at - 1), number) + before.skip(at - 1) =~= with_number(
                head,
                number,
            ) + before.skip(at as int));
        }
        at -= 1;
    }
    list.insert(at, number);
    proof {
        assert(list@ =~= before.take(at as int).push(number) + before.skip(at as int));
        assert forall|i: int| 0 <= i < list@.len() implies #[trigger] list@[i] == number
            || before.contains(list@[i]) by {
            if i < at {
                assert(list@[i] == before[i]);
            } else if i > at {
                assert(list@[i] == before[i - 1]);
            }
        }
    }
}

// ---------------------------------------------------------------------------
// The schedule of the root functions.
// ---------------------------------------------------------------------------

/// The places of the functions among the first `n` items.
pub open spec fn fn_items(items: Seq<Item>, n: int) -> Seq<usize>
    decreases n,
{
    if n <= 0 || n > items.len() {
        Seq::empty()
    } else if items[n - 1] is Fn {
        fn_items(items, n - 1).push((n - 1) as usize)
    } else {
        fn_items(items, n - 1)
    }
}

/// The numbers of the first `n` functions by their definitions.
pub open spec fn fn_numbers(program: TypedProgram, functions: Seq<usize>, n: int) -> Map<
    DefId,
    usize,
>
    decreases n,
{
    if n <= 0 || n > functions.len() {
        Map::empty()
    } else {
        let rest = fn_numbers(program, functions, n - 1);
        match program.spec_item_definition(program.hir.root, functions[n - 1]) {
            Some(definition) => rest.insert(definition, (n - 1) as usize),
            None => rest,
        }
    }
}

/// The functions below `n` that an item refers to, in ascending order.
pub open spec fn callees(item: Item, hir: ResolvedHir, numbers: Map<DefId, usize>, n: int) -> Seq<
    usize,
>
    decreases n,
{
    if n <= 0 {
        Seq::empty()
    } else {
        let rest = callees(item, hir, numbers, n - 1);
        if item matches Item::Fn(function) && block_calls(
            function.body,
            hir,
            numbers,
            (n - 1) as usize,
        ) {
            rest.push((n - 1) as usize)
        } else {
            rest
        }
    }
}

/// Which root functions each root function refers to.
pub open spec fn fn_graph(program: TypedProgram) -> Seq<Seq<usize>> {
    let items = program.syntax.items@;
    let functions = fn_items(items, items.len() as int);
    let numbers = fn_numbers(program, functions, functions.len() as int);
    Seq::new(
        functions.len(),
        |i: int|
            callees(items[functions[i] as int], program.hir, numbers, functions.len() as int),
    )
}

/// The items of the functions in a group.
pub open spec fn items_of(functions: Seq<usize>, group: Seq<usize>) -> Seq<usize> {
    Seq::new(group.len(), |i: int| functions[group[i] as int])
}

/// The groups of the root functions, dependencies first.
pub open spec fn schedule_of(program: TypedProgram) -> Seq<Seq<usize>> {
    let items = program.syntax.items@;
    let functions = fn_items(items, items.len() as int);
    let groups = components_of(fn_graph(program));
    Seq::new(groups.len(), |g: int| items_of(functions, groups[g]))
}

pub proof fn lemma_fn_items(items: Seq<Item>, n: int)
    requires
        0 <= n <= items.len(),
        n <= usize::MAX,
    ensures
        fn_items(items, n).len() <= n,
        forall|i: int|
            0 <= i < fn_items(items, n).len() ==> (#[trigger] fn_items(items, n)[i]) < n
                && items[fn_items(items, n)[i] as int] is Fn,
    decreases n,
{
    if n > 0 {
        lemma_fn_items(items, n - 1);
    }
}

pub proof fn lemma_callees(item: Item, hir: ResolvedHir, numbers: Map<DefId, usize>, n: int)
    requires
        0 <= n <= usize::MAX,
    ensures
        forall|i: int|
            0 <= i < callees(item, hir, numbers, n).len() ==> (#[trigger] callees(
                item,
                hir,
                numbers,
                n,
            )[i]) < n,
    decreases n,
{
    if n > 0 {
        lemma_callees(item, hir, numbers, n - 1);
        let rest = callees(item, hir, numbers, n - 1);
        assert forall|i: int| 0 <= i < callees(item, hir, numbers, n).len() implies (
        #[trigger] callees(item, hir, numbers, n)[i]) < n by {
            if i < rest.len() {
                assert(rest[i] < n - 1);
            }
        }
    }
}

fn function_callees(
    item: &Item,
    hir: &ResolvedHir,
    numbers: &Table<DefId, usize>,
    n: usize,
) -> (r: Vec<usize>)
    ensures
        r@ == callees(*item, *hir, numbers@, n as int),
{
    let mut found: KeySet<usize> = KeySet::new();
    let mut out: Vec<usize> = Vec::new();
    let body = match item {
        Item::Fn(function) => &function.body,
        _ => {
            proof {
                lemma_no_callees(*item, *hir, numbers@, n as int);
                assert(out@ =~= Seq::empty());
            }
            return out;
        },
    };
    collect_block_function_dependencies(body, hir, numbers, &mut found);
    let mut j: usize = 0;
    proof {
        assert(out@ =~= Seq::empty());
    }
    while j < n
        invariant
            j <= n,
            item matches Item::Fn(function) && *body == function.body,
            forall|k: usize| #[trigger]
                found@.contains(k) == block_calls(*body, *hir, numbers@, k),
            out@ == callees(*item, *hir, numbers@, j as int),
        decreases n - j,
    {
        if found.has(&j) {
            out.push(j);
        }
        j += 1;
    }
    out
}

proof fn lemma_no_callees(item: Item, hir: ResolvedHir, numbers: Map<DefId, usize>, n: int)
    requires
        !(item is Fn),
    ensures
        callees(item, hir, numbers, n).len() == 0,
    decreases n,
{
    if n > 0 {
        lemma_no_callees(item, hir, numbers, n - 1);
    }
}

/// The groups of the root functions, dependencies first. Only a group with more
/// than one member needs forward declarations.
pub fn root_function_schedule(program: &TypedProgram) -> (r: Vec<Vec<usize>>)
    ensures
        groups_model(r@) == schedule_of(*program),
        forall|g: int, i: int|
            0 <= g < r@.len() && 0 <= i < r@[g]@.len() ==> #[trigger] r@[g]@[i]
                < program.syntax.items@.len() && program.syntax.items@[r@[g]@[i] as int] is Fn,
{
    let items = &program.syntax.items;
    let mut functions: Vec<usize> = Vec::new();
    let mut i: usize = 0;
    proof {
        assert(functions@ =~= Seq::empty());
    }
    while i < items.len()
        invariant
            i <= items.len(),
            functions@ == fn_items(items@, i as int),
        decreases items.len() - i,
    {
        let is_function = match &items[i] {
            Item::Fn(_) => true,
            _ => false,
        };
        if is_function {
            functions.push(i);
        }
        i += 1;
    }
    proof {
        lemma_fn_items(items@, items@.len() as int);
    }
    let mut numbers: Table<DefId, usize> = Table::new();
    let mut i: usize = 0;
    while i < functions.len()
        invariant
            i <= functions.len(),
            numbers@ == fn_numbers(*program, functions@, i as int),
        decreases functions.len() - i,
    {
        if let Some(definition) = program.item_definition(program.hir.root, functions[i]) {
            let _ = numbers.insert(definition, i);
        }
        i += 1;
    }
    let n: usize = functions.len();
    let mut graph: Vec<Vec<usize>> = Vec::new();
    let mut i: usize = 0;
    while i < n
        invariant
            i <= n,
            n == functions@.len(),
            items@ == program.syntax.items@,
            functions@ == fn_items(items@, items@.len() as int),
            forall|k: int| 0 <= k < n ==> (#[trigger] functions@[k]) < items@.len(),
            numbers@ == fn_numbers(*program, functions@, n as int),
            graph@.len() == i,
            forall|k: int|
                0 <= k < i ==> (#[trigger] graph@[k])@ == callees(
                    items@[functions@[k] as int],
                    program.hir,
                    numbers@,
                    n as int,
                ),
        decreases n - i,
    {
        graph.push(function_callees(&items[functions[i]], &program.hir, &numbers, n));
        i += 1;
    }
    proof {
        assert(graph_model(graph@) =~= fn_graph(*program));
        assert forall|f: int, k: int|
            0 <= f < graph_model(graph@).len() && 0 <= k < graph_model(graph@)[f].len() implies (
        #[trigger] graph_model(graph@)[f][k]) < graph_model(graph@).len() by {
            lemma_callees(items@[functions@[f] as int], program.hir, numbers@, n as int);
            assert(graph@[f]@ == graph_model(graph@)[f]);
        }
    }
    let mut components = FunctionComponents::new(&graph);
    components.run();
    let groups = components.components;
    let mut out: Vec<Vec<usize>> = Vec::new();
    let mut g: usize = 0;
    while g < groups.len()
        invariant
            g <= groups.len(),
            out@.len() == g,
            n == functions@.len(),
            functions@ == fn_items(items@, items@.len() as int),
            forall|k: int|
                0 <= k < n ==> (#[trigger] functions@[k]) < items@.len()
                    && items@[functions@[k] as int] is Fn,
            forall|c: int, i: int|
                0 <= c < groups@.len() && 0 <= i < groups@[c]@.len() ==> #[trigger] groups@[c]@[i]
                    < n,
            forall|k: int| 0 <= k < g ==> (#[trigger] out@[k])@ == items_of(functions@, groups@[k]@),
            forall|k: int, i: int|
                0 <= k < g && 0 <= i < out@[k]@.len() ==> #[trigger] out@[k]@[i] < items@.len()
                    && items@[out@[k]@[i] as int] is Fn,
        decreases groups.len() - g,
    {
        let mut group: Vec<usize> = Vec::new();
        let mut i: usize = 0;
        while i < groups[g].len()
            invariant
                g < groups.len(),
                i <= groups@[g as int]@.len(),
                n == functions@.len(),
                forall|k: int|
                    0 <= k < n ==> (#[trigger] functions@[k]) < items@.len()
                        && items@[functions@[k] as int] is Fn,
                forall|c: int, i: int|
                    0 <= c < groups@.len() && 0 <= i < groups@[c]@.len()
                        ==> #[trigger] groups@[c]@[i] < n,
                group@.len() == i,
                forall|k: int|
                    0 <= k < i ==> #[trigger] group@[k]
                        == functions@[groups@[g as int]@[k] as int] && group@[k] < items@.len()
                        && items@[group@[k] as int] is Fn,
            decreases groups@[g as int]@.len() - i,
        {
            let number = groups[g][i];
            proof {
                assert(groups@[g as int]@[i as int] < n);
            }
            group.push(functions[number]);
            i += 1;
        }
        proof {
            assert(group@ =~= items_of(functions@, groups@[g as int]@));
        }
        out.push(group);
        g += 1;
    }
    proof {
        assert(groups_model(out@) =~= schedule_of(*program));
    }
    out
}

} // verus!
