//! What the schedule of functions promises: every function is in one group,
//! groups come after those that they depend on, and a group holds exactly the
//! functions that lead to each other.

use vstd::prelude::*;

use super::schedule::{
    ascending, callees, cleared, components_of, fn_graph, fn_items, fn_numbers, is_graph,
    lemma_callees, lemma_fn_items, lemma_unvisited_reaches, lemma_unvisited_start,
    lemma_unvisited_update, reaches, topmost, unvisited, visited, visited_all, visited_from,
    with_number, Walk,
};
use crate::typed::TypedProgram;

verus! {

/// Whether a function refers to another.
pub open spec fn refers(graph: Seq<Seq<usize>>, a: usize, b: usize) -> bool {
    a < graph.len() && graph[a as int].contains(b)
}

/// Whether `n` references lead from one function to another.
pub open spec fn leads_in(graph: Seq<Seq<usize>>, a: usize, b: usize, n: nat) -> bool
    decreases n,
{
    if n == 0 {
        a == b
    } else {
        exists|m: usize| #[trigger]
            refers(graph, a, m) && leads_in(graph, m, b, (n - 1) as nat)
    }
}

/// Whether references lead from one function to another.
pub open spec fn leads(graph: Seq<Seq<usize>>, a: usize, b: usize) -> bool {
    exists|n: nat| leads_in(graph, a, b, n)
}

/// Whether some group holds a function.
pub open spec fn grouped(groups: Seq<Seq<usize>>, f: usize) -> bool {
    exists|c: int| 0 <= c < groups.len() && #[trigger] groups[c].contains(f)
}

/// Whether no function is in two places of the groups.
pub open spec fn apart(groups: Seq<Seq<usize>>) -> bool {
    forall|c: int, i: int, d: int, j: int|
        0 <= c < groups.len() && 0 <= i < groups[c].len() && 0 <= d < groups.len() && 0 <= j
            < groups[d].len() && #[trigger] groups[c][i] == #[trigger] groups[d][j] ==> c == d && i
            == j
}

/// Whether what a function refers to is in its group or in one before.
pub open spec fn dependencies_first(graph: Seq<Seq<usize>>, groups: Seq<Seq<usize>>) -> bool {
    forall|c: int, f: usize, d: usize|
        0 <= c < groups.len() && #[trigger] groups[c].contains(f) && #[trigger] refers(graph, f, d)
            ==> grouped(groups.take(c + 1), d)
}

/// Whether the functions of each group lead to each other.
pub open spec fn mutually_recursive(graph: Seq<Seq<usize>>, groups: Seq<Seq<usize>>) -> bool {
    forall|c: int, f: usize, d: usize|
        0 <= c < groups.len() && #[trigger] groups[c].contains(f) && #[trigger] groups[c].contains(
            d,
        ) ==> leads(graph, f, d)
}

proof fn lemma_leads_in(graph: Seq<Seq<usize>>, a: usize, b: usize, c: usize, n: nat, m: nat)
    requires
        leads_in(graph, a, b, n),
        leads_in(graph, b, c, m),
    ensures
        leads_in(graph, a, c, n + m),
    decreases n,
{
    if n > 0 {
        let next = choose|next: usize| #[trigger]
            refers(graph, a, next) && leads_in(graph, next, b, (n - 1) as nat);
        lemma_leads_in(graph, next, b, c, (n - 1) as nat, m);
        assert((n + m - 1) as nat == (n - 1) as nat + m);
    }
}

proof fn lemma_leads(graph: Seq<Seq<usize>>, a: usize, b: usize, c: usize)
    requires
        leads(graph, a, b),
        leads(graph, b, c),
    ensures
        leads(graph, a, c),
{
    let n = choose|n: nat| leads_in(graph, a, b, n);
    let m = choose|m: nat| leads_in(graph, b, c, m);
    lemma_leads_in(graph, a, b, c, n, m);
}

proof fn lemma_leads_self(graph: Seq<Seq<usize>>, a: usize)
    ensures
        leads(graph, a, a),
{
    assert(leads_in(graph, a, a, 0));
}

proof fn lemma_leads_step(graph: Seq<Seq<usize>>, a: usize, b: usize, c: usize)
    requires
        refers(graph, a, b),
        leads(graph, b, c),
    ensures
        leads(graph, a, c),
{
    let n = choose|n: nat| leads_in(graph, b, c, n);
    assert(leads_in(graph, a, c, n + 1));
}

proof fn lemma_with_number(list: Seq<usize>, number: usize)
    ensures
        forall|x: usize| #[trigger]
            with_number(list, number).contains(x) <==> list.contains(x) || x == number,
        list.no_duplicates() && !list.contains(number) ==> with_number(list, number).no_duplicates(),
    decreases list.len(),
{
    let all = with_number(list, number);
    if list.len() == 0 || list.last() <= number {
        assert(all[list.len() as int] == number);
        assert forall|x: usize| #[trigger] all.contains(x) <==> list.contains(x) || x == number by {
            if list.contains(x) {
                let i = choose|i: int| 0 <= i < list.len() && list[i] == x;
                assert(all[i] == x);
            }
        }
    } else {
        let rest = list.drop_last();
        let inner = with_number(rest, number);
        lemma_with_number(rest, number);
        assert(all == inner.push(list.last()));
        assert(all[inner.len() as int] == list.last());
        assert forall|x: usize| #[trigger] all.contains(x) <==> list.contains(x) || x == number by {
            if all.contains(x) {
                let i = choose|i: int| 0 <= i < all.len() && all[i] == x;
                if i < inner.len() {
                    assert(inner[i] == x);
                    assert(inner.contains(x));
                    if rest.contains(x) {
                        let j = choose|j: int| 0 <= j < rest.len() && rest[j] == x;
                        assert(list[j] == x);
                    }
                } else {
                    assert(list[list.len() - 1] == x);
                }
            }
            if list.contains(x) || x == number {
                if list.contains(x) {
                    let i = choose|i: int| 0 <= i < list.len() && list[i] == x;
                    if i < list.len() - 1 {
                        assert(rest[i] == x);
                        assert(rest.contains(x));
                        assert(inner.contains(x));
                    }
                } else {
                    assert(inner.contains(x));
                }
                if inner.contains(x) {
                    let j = choose|j: int| 0 <= j < inner.len() && inner[j] == x;
                    assert(all[j] == x);
                }
            }
        }
        if list.no_duplicates() && !list.contains(number) {
            assert(!rest.contains(number)) by {
                if rest.contains(number) {
                    let i = choose|i: int| 0 <= i < rest.len() && rest[i] == number;
                    assert(list[i] == number);
                }
            }
            assert(!inner.contains(list.last())) by {
                if rest.contains(list.last()) {
                    let i = choose|i: int| 0 <= i < rest.len() && rest[i] == list.last();
                    assert(list[i] == list[list.len() - 1]);
                }
                assert(list[list.len() - 1] == list.last());
            }
            assert forall|i: int, j: int|
                0 <= i < all.len() && 0 <= j < all.len() && i != j implies all[i] != all[j] by {
                if i < inner.len() {
                    assert(inner.contains(all[i]));
                }
                if j < inner.len() {
                    assert(inner.contains(all[j]));
                }
            }
        }
    }
}

proof fn lemma_ascending(list: Seq<usize>)
    ensures
        forall|x: usize| #[trigger] ascending(list).contains(x) <==> list.contains(x),
        list.no_duplicates() ==> ascending(list).no_duplicates(),
    decreases list.len(),
{
    if list.len() > 0 {
        let rest = list.skip(1);
        lemma_ascending(rest);
        lemma_with_number(ascending(rest), list[0]);
        assert forall|x: usize| #[trigger] ascending(list).contains(x) <==> list.contains(x) by {
            if rest.contains(x) {
                let i = choose|i: int| 0 <= i < rest.len() && rest[i] == x;
                assert(list[i + 1] == x);
            }
            if list.contains(x) {
                let i = choose|i: int| 0 <= i < list.len() && list[i] == x;
                if i > 0 {
                    assert(rest[i - 1] == x);
                    assert(rest.contains(x));
                }
                assert(ascending(rest).contains(x) || x == list[0]);
            }
        }
        if list.no_duplicates() {
            if rest.contains(list[0]) {
                let i = choose|i: int| 0 <= i < rest.len() && rest[i] == list[0];
                assert(list[i + 1] == list[0]);
            }
            assert(!ascending(rest).contains(list[0]));
        }
    }
}

/// The number of a function that was reached.
pub open spec fn number(walk: Walk, f: usize) -> usize {
    walk.indices[f as int]->0
}

/// Whether the tables belong together and the closed groups are as promised.
pub open spec fn sound(graph: Seq<Seq<usize>>, walk: Walk) -> bool {
    &&& walk.indices.len() == graph.len()
    &&& walk.lowlinks.len() == graph.len()
    &&& walk.on_stack.len() == graph.len()
    &&& walk.next + unvisited(walk.indices) == graph.len()
    &&& forall|f: int|
        0 <= f < graph.len() && (#[trigger] walk.indices[f]) is Some ==> walk.indices[f]->0
            < walk.next
    &&& forall|p: int|
        0 <= p < walk.stack.len() ==> (#[trigger] walk.stack[p]) < graph.len()
            && walk.on_stack[walk.stack[p] as int] && walk.indices[walk.stack[p] as int] is Some
    &&& forall|p: int, q: int|
        0 <= p < q < walk.stack.len() ==> number(walk, #[trigger] walk.stack[p]) < number(
            walk,
            #[trigger] walk.stack[q],
        )
    &&& forall|f: usize|
        f < graph.len() && #[trigger] walk.on_stack[f as int] ==> walk.stack.contains(f)
    &&& forall|f: usize|
        #![trigger grouped(walk.components, f)]
        f < graph.len() ==> (grouped(walk.components, f) <==> walk.indices[f as int] is Some
            && !walk.on_stack[f as int])
    &&& forall|f: usize| #[trigger] grouped(walk.components, f) ==> f < graph.len()
    &&& apart(walk.components)
    &&& dependencies_first(graph, walk.components)
    &&& mutually_recursive(graph, walk.components)
}

/// Whether a function was reached, and stands no lower than `low` where it is on
/// the stack.
pub open spec fn no_lower(walk: Walk, f: usize, low: usize) -> bool {
    walk.indices[f as int] is Some && (walk.on_stack[f as int] ==> low <= number(walk, f))
}

/// Whether a function leads to the function on the stack that its lowest number
/// belongs to, below place `p`.
pub open spec fn leads_back(graph: Seq<Seq<usize>>, walk: Walk, f: usize, p: int) -> bool {
    exists|q: int|
        0 <= q < p && q < walk.stack.len() && number(walk, #[trigger] walk.stack[q])
            == walk.lowlinks[f as int] && leads(graph, f, walk.stack[q])
}

/// Whether the function at a place of the stack has been followed to the end,
/// with nothing lower than `low` in reach.
pub open spec fn followed(graph: Seq<Seq<usize>>, walk: Walk, p: int, low: usize) -> bool {
    let f = walk.stack[p];
    &&& low <= walk.lowlinks[f as int] < number(walk, f)
    &&& leads_back(graph, walk, f, p)
    &&& forall|d: usize| #[trigger] refers(graph, f, d) ==> no_lower(walk, d, low)
}

/// Whether the stack holds at `s` a function whose first `k` references have
/// been followed.
pub open spec fn following(graph: Seq<Seq<usize>>, walk: Walk, s: int, k: int) -> bool {
    let f = walk.stack[s];
    &&& sound(graph, walk)
    &&& 0 <= s < walk.stack.len()
    &&& 0 <= k <= graph[f as int].len()
    &&& walk.lowlinks[f as int] <= number(walk, f)
    &&& leads_back(graph, walk, f, s + 1)
    &&& forall|j: int|
        0 <= j < k ==> no_lower(walk, #[trigger] graph[f as int][j], walk.lowlinks[f as int])
    &&& forall|p: int|
        s < p < walk.stack.len() ==> followed(graph, walk, p, walk.lowlinks[f as int]) && leads(
            graph,
            f,
            #[trigger] walk.stack[p],
        )
}

/// Whether what was known of the functions that were reached is still so, but
/// for the lowest number of one.
pub open spec fn kept(before: Walk, after: Walk, but: Option<usize>) -> bool {
    &&& reaches(before.indices, after.indices)
    &&& before.on_stack.len() == after.on_stack.len()
    &&& before.lowlinks.len() == after.lowlinks.len()
    &&& forall|f: usize|
        #![trigger before.indices[f as int]]
        f < before.indices.len() && before.indices[f as int] is Some ==> after.on_stack[f as int]
            == before.on_stack[f as int] && (Some(f) != but ==> after.lowlinks[f as int]
            == before.lowlinks[f as int])
}

/// What holds after a function was visited.
pub open spec fn visit_done(graph: Seq<Seq<usize>>, before: Walk, after: Walk, f: usize) -> bool {
    let s = before.stack.len() as int;
    &&& sound(graph, after)
    &&& kept(before, after, None)
    &&& after.indices[f as int] == Some(before.next)
    &&& s <= after.stack.len()
    &&& after.stack.take(s) == before.stack
    &&& after.lowlinks[f as int] <= before.next
    &&& after.stack.len() == s ==> after.lowlinks[f as int] == before.next
    &&& after.stack.len() > s ==> after.stack[s] == f
    &&& forall|p: int|
        s <= p < after.stack.len() ==> followed(graph, after, p, after.lowlinks[f as int]) && leads(
            graph,
            f,
            #[trigger] after.stack[p],
        )
}

proof fn lemma_followed_kept(
    graph: Seq<Seq<usize>>,
    before: Walk,
    after: Walk,
    but: Option<usize>,
    p: int,
    low: usize,
    lower: usize,
)
    requires
        is_graph(graph),
        sound(graph, before),
        sound(graph, after),
        kept(before, after, but),
        0 <= p < before.stack.len() <= after.stack.len(),
        after.stack.take(before.stack.len() as int) == before.stack,
        but != Some(before.stack[p]),
        lower <= low,
        followed(graph, before, p, low),
    ensures
        followed(graph, after, p, lower),
{
    let f = before.stack[p];
    assert(after.stack[p] == after.stack.take(before.stack.len() as int)[p]);
    assert(before.indices[f as int] is Some);
    assert(after.indices[f as int] == before.indices[f as int]);
    let q = choose|q: int|
        0 <= q < p && q < before.stack.len() && number(before, #[trigger] before.stack[q])
            == before.lowlinks[f as int] && leads(graph, f, before.stack[q]);
    assert(after.stack[q] == after.stack.take(before.stack.len() as int)[q]);
    assert(before.indices[before.stack[q] as int] is Some);
    assert(number(after, after.stack[q]) == after.lowlinks[f as int]);
    assert forall|d: usize| #[trigger] refers(graph, f, d) implies no_lower(after, d, lower) by {
        assert(no_lower(before, d, low));
        let i = choose|i: int| 0 <= i < graph[f as int].len() && graph[f as int][i] == d;
        assert(graph[f as int][i] < graph.len());
        assert(before.indices[d as int] is Some);
        assert(after.indices[d as int] == before.indices[d as int]);
    }
}

proof fn lemma_position(graph: Seq<Seq<usize>>, walk: Walk, p: int, q: int)
    requires
        sound(graph, walk),
        0 <= p < walk.stack.len(),
        0 <= q < walk.stack.len(),
    ensures
        number(walk, walk.stack[p]) < number(walk, walk.stack[q]) <==> p < q,
        walk.stack[p] == walk.stack[q] <==> p == q,
{
    if p < q {
        assert(number(walk, walk.stack[p]) < number(walk, walk.stack[q]));
    } else if q < p {
        assert(number(walk, walk.stack[q]) < number(walk, walk.stack[p]));
    }
}

/// A lower number for the function at `s` keeps all that `following` says of the
/// references before.
proof fn lemma_lower(graph: Seq<Seq<usize>>, walk: Walk, s: int, k: int, found: usize, q: int)
    requires
        is_graph(graph),
        following(graph, walk, s, k),
        0 <= q < walk.stack.len(),
        number(walk, walk.stack[q]) == found,
        leads(graph, walk.stack[s], walk.stack[q]),
    ensures
        following(graph, walk.lower(walk.stack[s], found), s, k),
        walk.lower(walk.stack[s], found).lowlinks[walk.stack[s] as int] <= found,
        kept(walk, walk.lower(walk.stack[s], found), Some(walk.stack[s])),
{
    let f = walk.stack[s];
    let low = walk.lowlinks[f as int];
    let after = walk.lower(f, found);
    if found < low {
        assert(after.stack.take(walk.stack.len() as int) =~= walk.stack);
        assert(sound(graph, after));
        lemma_position(graph, walk, q, s);
        assert(number(after, after.stack[q]) == after.lowlinks[f as int]);
        assert(leads_back(graph, after, f, s + 1));
        assert forall|p: int| s < p < after.stack.len() implies followed(graph, after, p, found)
            && leads(graph, f, #[trigger] after.stack[p]) by {
            lemma_position(graph, walk, s, p);
            assert(walk.stack[p] == after.stack[p]);
            lemma_followed_kept(graph, walk, after, Some(f), p, low, found);
        }
        assert forall|j: int| 0 <= j < k implies no_lower(
            after,
            #[trigger] graph[f as int][j],
            found,
        ) by {
            assert(no_lower(walk, graph[f as int][j], low));
        }
    }
}

proof fn lemma_reaches(a: Seq<Option<usize>>, b: Seq<Option<usize>>, c: Seq<Option<usize>>)
    requires
        reaches(a, b),
        reaches(b, c),
    ensures
        reaches(a, c),
{
    assert forall|i: int| 0 <= i < a.len() && a[i] is Some implies #[trigger] c[i] == a[i] by {
        assert(b[i] == a[i]);
    }
}

proof fn lemma_kept(a: Walk, b: Walk, c: Walk, but: Option<usize>)
    requires
        kept(a, b, but),
        kept(b, c, but),
    ensures
        kept(a, c, but),
{
    lemma_reaches(a.indices, b.indices, c.indices);
    assert forall|f: usize|
        #![trigger a.indices[f as int]]
        f < a.indices.len() && a.indices[f as int] is Some implies c.on_stack[f as int]
        == a.on_stack[f as int] && (Some(f) != but ==> c.lowlinks[f as int] == a.lowlinks[f as int]) by {
        assert(b.indices[f as int] == a.indices[f as int]);
        assert(b.indices[f as int] is Some);
    }
}

/// After a new function was visited, the one that refers to it is further on.
#[verifier::rlimit(80)]
#[verifier::spinoff_prover]
proof fn lemma_visited_next(
    graph: Seq<Seq<usize>>,
    walk: Walk,
    inner: Walk,
    s: int,
    k: int,
)
    requires
        is_graph(graph),
        following(graph, walk, s, k),
        k < graph[walk.stack[s] as int].len(),
        walk.indices[graph[walk.stack[s] as int][k] as int] is None,
        visit_done(graph, walk, inner, graph[walk.stack[s] as int][k]),
    ensures
        ({
            let f = walk.stack[s];
            let d = graph[f as int][k];
            let next = inner.lower(f, inner.lowlinks[d as int]);
            &&& following(graph, next, s, k + 1)
            &&& kept(walk, next, Some(f))
            &&& next.stack.len() > s
            &&& next.stack.take(s + 1) == walk.stack.take(s + 1)
        }),
{
    let f = walk.stack[s];
    let d = graph[f as int][k];
    let n = walk.stack.len() as int;
    let low = walk.lowlinks[f as int];
    assert(f < graph.len());
    assert(d < graph.len());
    assert forall|p: int| 0 <= p < n implies inner.stack[p] == #[trigger] walk.stack[p] by {
        assert(inner.stack.take(n)[p] == inner.stack[p]);
    }
    assert(inner.stack[s] == f);
    assert(walk.indices[f as int] is Some);
    assert(inner.indices[f as int] == walk.indices[f as int]);
    assert(inner.lowlinks[f as int] == low);
    assert(refers(graph, f, d));
    assert(number(inner, d) == walk.next);
    assert(number(walk, f) < walk.next);
    // The function at `s` with the new one's part of the stack, before lowering.
    let found = inner.lowlinks[d as int];
    let m = if found < low {
        found
    } else {
        low
    };
    assert(leads_back(graph, inner, f, s + 1)) by {
        let q = choose|q: int|
            0 <= q < s + 1 && q < walk.stack.len() && number(walk, #[trigger] walk.stack[q]) == low
                && leads(graph, f, walk.stack[q]);
        assert(inner.stack[q] == walk.stack[q]);
        assert(walk.indices[walk.stack[q] as int] is Some);
        assert(number(inner, inner.stack[q]) == inner.lowlinks[f as int]);
    }
    let next = inner.lower(f, found);
    assert(next.stack == inner.stack && next.indices == inner.indices && next.on_stack
        == inner.on_stack && next.components == inner.components);
    assert(sound(graph, next));
    assert(next.lowlinks[f as int] == m);
    assert(f != d);
    assert(kept(inner, next, Some(f)));
    assert forall|p: int| s < p < next.stack.len() implies followed(graph, next, p, m) && leads(
        graph,
        f,
        #[trigger] next.stack[p],
    ) by {
        lemma_position(graph, inner, s, p);
        assert(inner.stack.take(inner.stack.len() as int) =~= inner.stack);
        if p < n {
            assert(followed(graph, walk, p, low) && leads(graph, f, walk.stack[p]));
            lemma_followed_kept(graph, walk, inner, None, p, low, m);
        } else {
            assert(followed(graph, inner, p, found) && leads(graph, d, inner.stack[p]));
            lemma_leads_step(graph, f, d, inner.stack[p]);
            lemma_followed_kept(graph, inner, inner, None, p, found, m);
        }
        lemma_followed_kept(graph, inner, next, Some(f), p, m, m);
    }
    assert forall|j: int| 0 <= j < k + 1 implies no_lower(next, #[trigger] graph[f as int][j], m) by {
        let e = graph[f as int][j];
        assert(e < graph.len());
        if j < k {
            assert(no_lower(walk, e, low));
            assert(walk.indices[e as int] is Some);
            assert(inner.indices[e as int] == walk.indices[e as int]);
        }
    }
    assert(leads_back(graph, next, f, s + 1)) by {
        if found < low {
            assert(inner.stack.len() > n);
            assert(followed(graph, inner, n, found));
            let q = choose|q: int|
                0 <= q < n && q < inner.stack.len() && number(inner, #[trigger] inner.stack[q])
                    == found && leads(graph, d, inner.stack[q]);
            lemma_leads_step(graph, f, d, inner.stack[q]);
            lemma_position(graph, inner, q, s);
            assert(number(next, next.stack[q]) == next.lowlinks[f as int]);
        } else {
            let q = choose|q: int|
                0 <= q < s + 1 && q < inner.stack.len() && number(inner, #[trigger] inner.stack[q])
                    == inner.lowlinks[f as int] && leads(graph, f, inner.stack[q]);
            assert(number(next, next.stack[q]) == next.lowlinks[f as int]);
        }
    }
    assert(kept(walk, inner, Some(f)));
    lemma_kept(walk, inner, next, Some(f));
    assert(next.stack.take(s + 1) =~= walk.stack.take(s + 1));
}

/// The function at `s` leads to what is above it, and that leads back.
proof fn lemma_segment_leads(graph: Seq<Seq<usize>>, walk: Walk, s: int, p: int)
    requires
        following(graph, walk, s, graph[walk.stack[s] as int].len() as int),
        walk.lowlinks[walk.stack[s] as int] == number(walk, walk.stack[s]),
        s <= p < walk.stack.len(),
    ensures
        leads(graph, walk.stack[s], walk.stack[p]),
        leads(graph, walk.stack[p], walk.stack[s]),
    decreases p,
{
    let f = walk.stack[s];
    lemma_leads_self(graph, f);
    if p > s {
        let v = walk.stack[p];
        assert(followed(graph, walk, p, walk.lowlinks[f as int]) && leads(graph, f, walk.stack[p]));
        let q = choose|q: int|
            0 <= q < p && q < walk.stack.len() && number(walk, #[trigger] walk.stack[q])
                == walk.lowlinks[v as int] && leads(graph, v, walk.stack[q]);
        lemma_position(graph, walk, q, s);
        lemma_segment_leads(graph, walk, s, q);
        lemma_leads(graph, v, walk.stack[q], f);
    }
}

proof fn lemma_topmost_at(stack: Seq<usize>, s: int, n: int)
    requires
        0 <= s < n <= stack.len(),
        forall|p: int| s < p < n ==> #[trigger] stack[p] != stack[s],
    ensures
        topmost(stack, stack[s], n) == s,
    decreases n,
{
    if n - 1 > s {
        assert(stack[n - 1] != stack[s]);
        lemma_topmost_at(stack, s, n - 1);
    }
}

proof fn lemma_cleared(flags: Seq<bool>, stack: Seq<usize>, to: int, n: int)
    requires
        0 <= to <= n <= stack.len(),
        forall|p: int| 0 <= p < stack.len() ==> #[trigger] stack[p] < flags.len(),
    ensures
        cleared(flags, stack, to, n).len() == flags.len(),
        forall|f: usize|
            f < flags.len() ==> (#[trigger] cleared(flags, stack, to, n)[f as int] <==> flags[f as int]
                && !stack.subrange(to, n).contains(f)),
    decreases n,
{
    let result = cleared(flags, stack, to, n);
    if n > to {
        let next = flags.update(stack[n - 1] as int, false);
        assert(stack[n - 1] < flags.len());
        lemma_cleared(next, stack, to, n - 1);
        let part = stack.subrange(to, n);
        let rest = stack.subrange(to, n - 1);
        assert forall|f: usize| f < flags.len() implies (#[trigger] result[f as int] <==> flags[f as int]
            && !part.contains(f)) by {
            assert(result[f as int] <==> next[f as int] && !rest.contains(f));
            if rest.contains(f) {
                let i = choose|i: int| 0 <= i < rest.len() && rest[i] == f;
                assert(part[i] == f);
            }
            assert(part[n - 1 - to] == stack[n - 1]);
            if part.contains(f) {
                let i = choose|i: int| 0 <= i < part.len() && part[i] == f;
                if i < n - 1 - to {
                    assert(rest[i] == f);
                }
            }
        }
    } else {
        assert(stack.subrange(to, n).len() == 0);
    }
}

/// Closing a group keeps what is promised of the groups.
#[verifier::rlimit(80)]
#[verifier::spinoff_prover]
proof fn lemma_group_closed(graph: Seq<Seq<usize>>, walk: Walk, s: int)
    requires
        is_graph(graph),
        following(graph, walk, s, graph[walk.stack[s] as int].len() as int),
        walk.lowlinks[walk.stack[s] as int] == number(walk, walk.stack[s]),
    ensures
        ({
            let groups = walk.components.push(ascending(walk.stack.skip(s)));
            &&& apart(groups)
            &&& dependencies_first(graph, groups)
            &&& mutually_recursive(graph, groups)
            &&& forall|f: usize| #[trigger]
                grouped(groups, f) <==> grouped(walk.components, f) || walk.stack.skip(s).contains(f)
        }),
{
    let had = walk.components;
    let part = walk.stack.skip(s);
    let group = ascending(part);
    let groups = had.push(group);
    let last = had.len() as int;
    lemma_ascending(part);
    assert(part.no_duplicates()) by {
        assert forall|i: int, j: int|
            0 <= i < part.len() && 0 <= j < part.len() && i != j implies part[i] != part[j] by {
            lemma_position(graph, walk, s + i, s + j);
        }
    }
    assert forall|f: usize| part.contains(f) implies !grouped(had, f) && f < graph.len() by {
        let i = choose|i: int| 0 <= i < part.len() && part[i] == f;
        assert(walk.stack[s + i] == f);
    }
    assert forall|f: usize| #[trigger] grouped(groups, f) <==> grouped(had, f) || part.contains(f) by {
        if grouped(groups, f) {
            let c = choose|c: int| 0 <= c < groups.len() && #[trigger] groups[c].contains(f);
            if c < last {
                assert(had[c].contains(f));
            }
        }
        if grouped(had, f) {
            let c = choose|c: int| 0 <= c < had.len() && #[trigger] had[c].contains(f);
            assert(groups[c].contains(f));
        }
        if part.contains(f) {
            assert(groups[last].contains(f));
        }
    }
    assert forall|c: int, i: int, d: int, j: int|
        0 <= c < groups.len() && 0 <= i < groups[c].len() && 0 <= d < groups.len() && 0 <= j
            < groups[d].len() && #[trigger] groups[c][i] == #[trigger] groups[d][j] implies c == d
        && i == j by {
        let f = groups[c][i];
        assert(groups[c].contains(f));
        assert(groups[d].contains(f));
        if c < last && d < last {
            assert(had[c][i] == had[d][j]);
        } else if c < last {
            assert(had[c].contains(f));
            assert(group.contains(f));
            assert(part.contains(f));
        } else if d < last {
            assert(had[d].contains(f));
            assert(group.contains(f));
            assert(part.contains(f));
        }
    }
    assert forall|c: int, f: usize, d: usize|
        0 <= c < groups.len() && #[trigger] groups[c].contains(f) && #[trigger] refers(
            graph,
            f,
            d,
        ) implies grouped(groups.take(c + 1), d) by {
        if c < last {
            assert(had[c].contains(f));
            assert(grouped(had.take(c + 1), d));
            assert(groups.take(c + 1) =~= had.take(c + 1));
        } else {
            assert(groups.take(c + 1) =~= groups);
            assert(group.contains(f));
            assert(part.contains(f));
            let i = choose|i: int| 0 <= i < part.len() && part[i] == f;
            let p = s + i;
            assert(walk.stack[p] == f);
            let root = walk.stack[s];
            let low = walk.lowlinks[root as int];
            let e = choose|e: int| 0 <= e < graph[f as int].len() && graph[f as int][e] == d;
            assert(graph[f as int][e] < graph.len());
            if p > s {
                assert(followed(graph, walk, p, low) && leads(graph, root, walk.stack[p]));
            }
            assert(no_lower(walk, d, low));
            if walk.on_stack[d as int] {
                assert(walk.stack.contains(d));
                let q = choose|q: int| 0 <= q < walk.stack.len() && walk.stack[q] == d;
                lemma_position(graph, walk, q, s);
                assert(part[q - s] == d);
                assert(part.contains(d));
            } else {
                assert(grouped(had, d));
            }
        }
    }
    assert forall|c: int, f: usize, d: usize|
        0 <= c < groups.len() && #[trigger] groups[c].contains(f) && #[trigger] groups[c].contains(
            d,
        ) implies leads(graph, f, d) by {
        if c < last {
            assert(had[c].contains(f) && had[c].contains(d));
        } else {
            assert(group.contains(f) && group.contains(d));
            assert(part.contains(f) && part.contains(d));
            let i = choose|i: int| 0 <= i < part.len() && part[i] == f;
            let j = choose|j: int| 0 <= j < part.len() && part[j] == d;
            lemma_segment_leads(graph, walk, s, s + i);
            lemma_segment_leads(graph, walk, s, s + j);
            lemma_leads(graph, f, walk.stack[s], d);
        }
    }
}

proof fn lemma_enter(graph: Seq<Seq<usize>>, walk: Walk, f: usize)
    requires
        graph.len() <= usize::MAX,
        sound(graph, walk),
        f < graph.len(),
        walk.indices[f as int] is None,
    ensures
        following(graph, walk.enter(f), walk.stack.len() as int, 0),
        kept(walk, walk.enter(f), None),
        unvisited(walk.enter(f).indices) + 1 == unvisited(walk.indices),
{
    let after = walk.enter(f);
    let s = walk.stack.len() as int;
    lemma_unvisited_update(walk.indices, f as int, walk.next);
    assert(after.next == walk.next + 1);
    assert(!walk.on_stack[f as int]) by {
        if walk.on_stack[f as int] {
            assert(walk.stack.contains(f));
            let p = choose|p: int| 0 <= p < walk.stack.len() && walk.stack[p] == f;
            assert(walk.indices[walk.stack[p] as int] is Some);
        }
    }
    assert forall|p: int| 0 <= p < s implies after.stack[p] == #[trigger] walk.stack[p] && walk.stack[p]
        != f && after.indices[walk.stack[p] as int] == walk.indices[walk.stack[p] as int] by {
        assert(walk.indices[walk.stack[p] as int] is Some);
    }
    assert(after.stack[s] == f);
    assert forall|p: int| 0 <= p < after.stack.len() implies (#[trigger] after.stack[p])
        < graph.len() && after.on_stack[after.stack[p] as int] && after.indices[after.stack[p] as int] is Some by {
        if p < s {
            assert(walk.stack[p] < graph.len());
        }
    }
    assert forall|p: int, q: int| 0 <= p < q < after.stack.len() implies number(
        after,
        #[trigger] after.stack[p],
    ) < number(after, #[trigger] after.stack[q]) by {
        assert(walk.stack[p] < graph.len());
        if q < s {
            assert(number(walk, walk.stack[p]) < number(walk, walk.stack[q]));
        }
    }
    assert forall|g: usize| g < graph.len() && #[trigger] after.on_stack[g as int] implies after.stack.contains(
        g,
    ) by {
        if g != f {
            assert(walk.on_stack[g as int]);
            let p = choose|p: int| 0 <= p < walk.stack.len() && walk.stack[p] == g;
            assert(after.stack[p] == g);
        }
    }
    assert(sound(graph, after));
    lemma_leads_self(graph, f);
    assert(number(after, after.stack[s]) == after.lowlinks[f as int]);
    assert(leads_back(graph, after, f, s + 1));
}

proof fn lemma_leave(graph: Seq<Seq<usize>>, before: Walk, walk: Walk, f: usize)
    requires
        is_graph(graph),
        sound(graph, before),
        f < graph.len(),
        before.indices[f as int] is None,
        ({
            let s = before.stack.len() as int;
            &&& following(graph, walk, s, graph[f as int].len() as int)
            &&& walk.stack[s] == f
            &&& walk.stack.take(s) == before.stack
        }),
        kept(before, walk, None),
        walk.indices[f as int] == Some(before.next),
    ensures
        visit_done(graph, before, walk.leave(f, before.next), f),
{
    let s = before.stack.len() as int;
    let n = walk.stack.len() as int;
    let low = walk.lowlinks[f as int];
    let after = walk.leave(f, before.next);
    if low != before.next {
        assert forall|p: int| s <= p < after.stack.len() implies followed(graph, after, p, low)
            && leads(graph, f, #[trigger] after.stack[p]) by {
            if p == s {
                lemma_leads_self(graph, f);
                let q = choose|q: int|
                    0 <= q < s + 1 && q < walk.stack.len() && number(walk, #[trigger] walk.stack[q])
                        == low && leads(graph, f, walk.stack[q]);
                lemma_position(graph, walk, q, s);
                assert(leads_back(graph, after, f, s));
                assert forall|d: usize| #[trigger] refers(graph, f, d) implies no_lower(
                    after,
                    d,
                    low,
                ) by {
                    let e = choose|e: int| 0 <= e < graph[f as int].len() && graph[f as int][e] == d;
                    assert(no_lower(walk, graph[f as int][e], low));
                }
            }
        }
    } else {
        assert forall|p: int| s < p < n implies #[trigger] walk.stack[p] != walk.stack[s] by {
            lemma_position(graph, walk, s, p);
        }
        lemma_topmost_at(walk.stack, s, n);
        lemma_group_closed(graph, walk, s);
        lemma_cleared(walk.on_stack, walk.stack, s, n);
        let part = walk.stack.skip(s);
        assert(walk.stack.subrange(s, n) =~= part);
        assert(after.stack == walk.stack.take(s));
        assert forall|p: int| 0 <= p < s implies after.stack[p] == #[trigger] walk.stack[p]
            && !part.contains(walk.stack[p]) by {
            if part.contains(walk.stack[p]) {
                let i = choose|i: int| 0 <= i < part.len() && part[i] == walk.stack[p];
                lemma_position(graph, walk, p, s + i);
            }
        }
        assert forall|p: int| 0 <= p < after.stack.len() implies (#[trigger] after.stack[p])
            < graph.len() && after.on_stack[after.stack[p] as int] && after.indices[after.stack[p] as int] is Some by {
            assert(walk.stack[p] < graph.len());
        }
        assert forall|p: int, q: int| 0 <= p < q < after.stack.len() implies number(
            after,
            #[trigger] after.stack[p],
        ) < number(after, #[trigger] after.stack[q]) by {
            assert(number(walk, walk.stack[p]) < number(walk, walk.stack[q]));
        }
        assert forall|g: usize| g < graph.len() && #[trigger] after.on_stack[g as int] implies after.stack.contains(
            g,
        ) by {
            assert(walk.on_stack[g as int] && !part.contains(g));
            let p = choose|p: int| 0 <= p < walk.stack.len() && walk.stack[p] == g;
            if p >= s {
                assert(part[p - s] == g);
            }
            assert(after.stack[p] == g);
        }
        assert forall|g: usize|
            #![trigger grouped(after.components, g)]
            g < graph.len() implies (grouped(after.components, g) <==> after.indices[g as int] is Some
            && !after.on_stack[g as int]) by {
            assert(after.on_stack[g as int] <==> walk.on_stack[g as int] && !part.contains(g));
            assert(grouped(walk.components, g) <==> walk.indices[g as int] is Some
                && !walk.on_stack[g as int]);
            if part.contains(g) {
                let i = choose|i: int| 0 <= i < part.len() && part[i] == g;
                assert(walk.stack[s + i] == g);
            }
        }
        assert forall|g: usize| #[trigger] grouped(after.components, g) implies g < graph.len() by {
            if part.contains(g) {
                let i = choose|i: int| 0 <= i < part.len() && part[i] == g;
                assert(walk.stack[s + i] == g);
            } else {
                assert(grouped(walk.components, g));
            }
        }
        assert(sound(graph, after));
        assert forall|g: usize|
            #![trigger before.indices[g as int]]
            g < before.indices.len() && before.indices[g as int] is Some implies after.on_stack[g as int]
            == before.on_stack[g as int] by {
            assert(walk.on_stack[g as int] == before.on_stack[g as int]);
            if part.contains(g) {
                let i = choose|i: int| 0 <= i < part.len() && part[i] == g;
                assert(walk.stack[s + i] == g);
                assert(before.on_stack[g as int]);
                let p = choose|p: int| 0 <= p < before.stack.len() && before.stack[p] == g;
                assert(walk.stack.take(s)[p] == walk.stack[p]);
                lemma_position(graph, walk, p, s + i);
            }
        }
        assert(after.stack.take(s) =~= before.stack);
    }
}

proof fn lemma_visited(graph: Seq<Seq<usize>>, walk: Walk, f: usize, fuel: nat)
    requires
        graph.len() <= usize::MAX,
        is_graph(graph),
        sound(graph, walk),
        f < graph.len(),
        walk.indices[f as int] is None,
        unvisited(walk.indices) <= fuel,
    ensures
        visit_done(graph, walk, visited(graph, walk, f, fuel), f),
    decreases fuel, graph[f as int].len() + 1,
{
    let s = walk.stack.len() as int;
    let entered = walk.enter(f);
    lemma_enter(graph, walk, f);
    assert(entered.stack[s] == f);
    lemma_visited_from(graph, entered, s, 0, fuel);
    let inner = visited_from(graph, entered, f, 0, fuel);
    assert(entered.stack.take(s + 1) =~= entered.stack);
    assert(inner.stack.take(s) =~= inner.stack.take(s + 1).take(s));
    assert(inner.stack.take(s) =~= walk.stack);
    assert(inner.stack[s] == inner.stack.take(s + 1)[s]);
    assert(entered.indices[f as int] is Some);
    assert(inner.indices[f as int] == entered.indices[f as int]);
    assert(kept(walk, inner, None)) by {
        lemma_reaches(walk.indices, entered.indices, inner.indices);
        assert forall|g: usize|
            #![trigger walk.indices[g as int]]
            g < walk.indices.len() && walk.indices[g as int] is Some implies inner.on_stack[g as int]
            == walk.on_stack[g as int] && inner.lowlinks[g as int] == walk.lowlinks[g as int] by {
            assert(g != f);
            assert(entered.indices[g as int] is Some);
        }
    }
    lemma_leave(graph, walk, inner, f);
}

proof fn lemma_visited_from(graph: Seq<Seq<usize>>, walk: Walk, s: int, k: int, fuel: nat)
    requires
        graph.len() <= usize::MAX,
        is_graph(graph),
        following(graph, walk, s, k),
        unvisited(walk.indices) < fuel,
    ensures
        ({
            let f = walk.stack[s];
            let after = visited_from(graph, walk, f, k, fuel);
            &&& following(graph, after, s, graph[f as int].len() as int)
            &&& after.stack.take(s + 1) == walk.stack.take(s + 1)
            &&& after.stack[s] == f
            &&& kept(walk, after, Some(f))
        }),
    decreases fuel, graph[walk.stack[s] as int].len() - k,
{
    let f = walk.stack[s];
    assert(f < graph.len());
    if k < graph[f as int].len() {
        let d = graph[f as int][k];
        assert(d < graph.len());
        let next = match walk.indices[d as int] {
            None => {
                let inner = visited(graph, walk, d, (fuel - 1) as nat);
                inner.lower(f, inner.lowlinks[d as int])
            },
            Some(index) => if walk.on_stack[d as int] {
                walk.lower(f, index)
            } else {
                walk
            },
        };
        if walk.indices[d as int] is None {
            lemma_visited(graph, walk, d, (fuel - 1) as nat);
            lemma_visited_next(graph, walk, visited(graph, walk, d, (fuel - 1) as nat), s, k);
        } else if walk.on_stack[d as int] {
            assert(walk.stack.contains(d));
            let q = choose|q: int| 0 <= q < walk.stack.len() && walk.stack[q] == d;
            lemma_leads_self(graph, d);
            assert(refers(graph, f, d));
            lemma_leads_step(graph, f, d, d);
            lemma_lower(graph, walk, s, k, number(walk, d), q);
        }
        assert(following(graph, next, s, k + 1)) by {
            if walk.indices[d as int] is Some {
                assert forall|j: int| 0 <= j < k + 1 implies no_lower(
                    next,
                    #[trigger] graph[f as int][j],
                    next.lowlinks[f as int],
                ) by {
                    if j < k {
                    }
                }
            }
        }
        assert(next.stack[s] == f) by {
            assert(next.stack.take(s + 1)[s] == next.stack[s]);
            assert(walk.stack.take(s + 1)[s] == f);
        }
        lemma_unvisited_reaches(walk.indices, next.indices);
        lemma_visited_from(graph, next, s, k + 1, fuel);
        lemma_kept(walk, next, visited_from(graph, walk, f, k, fuel), Some(f));
    } else {
        assert(kept(walk, walk, Some(f)));
        let after = visited_from(graph, walk, f, k, fuel);
        assert(after == walk);
    }
}

proof fn lemma_visited_all(graph: Seq<Seq<usize>>, walk: Walk, from: int)
    requires
        graph.len() <= usize::MAX,
        is_graph(graph),
        sound(graph, walk),
        walk.stack.len() == 0,
        0 <= from <= graph.len(),
        forall|f: int| 0 <= f < from ==> (#[trigger] walk.indices[f]) is Some,
    ensures
        sound(graph, visited_all(graph, walk, from)),
        visited_all(graph, walk, from).stack.len() == 0,
        forall|f: int|
            0 <= f < graph.len() ==> (#[trigger] visited_all(graph, walk, from).indices[f]) is Some,
    decreases graph.len() - from,
{
    if from < graph.len() {
        if walk.indices[from] is None {
            let next = visited(graph, walk, from as usize, graph.len());
            lemma_unvisited_reaches(walk.indices, walk.indices);
            lemma_visited(graph, walk, from as usize, graph.len());
            if next.stack.len() > 0 {
                assert(followed(graph, next, 0, next.lowlinks[from]) && leads(
                    graph,
                    from as usize,
                    next.stack[0],
                ));
                assert(leads_back(graph, next, next.stack[0], 0));
            }
            assert forall|f: int| 0 <= f < from + 1 implies (#[trigger] next.indices[f]) is Some by {
                if f < from {
                    assert(walk.indices[f] is Some);
                }
            }
            lemma_visited_all(graph, next, from + 1);
        } else {
            lemma_visited_all(graph, walk, from + 1);
        }
    }
}

/// Every function is in exactly one place of the groups, what a function refers
/// to is in its group or in one before, and the functions of a group lead to
/// each other.
pub proof fn law_groups_partition_the_functions(graph: Seq<Seq<usize>>)
    requires
        graph.len() <= usize::MAX,
        is_graph(graph),
    ensures
        forall|f: usize| #[trigger] grouped(components_of(graph), f) <==> f < graph.len(),
        apart(components_of(graph)),
        dependencies_first(graph, components_of(graph)),
        mutually_recursive(graph, components_of(graph)),
{
    let start = Walk::start(graph.len());
    lemma_unvisited_start(graph.len());
    assert(sound(graph, start));
    lemma_visited_all(graph, start, 0);
    let walk = visited_all(graph, start, 0);
    assert forall|f: usize| #[trigger] grouped(components_of(graph), f) <==> f < graph.len() by {
        if f < graph.len() {
            assert(walk.indices[f as int] is Some);
            if walk.on_stack[f as int] {
                assert(walk.stack.contains(f));
            }
        }
    }
}

proof fn lemma_no_later_group(
    graph: Seq<Seq<usize>>,
    groups: Seq<Seq<usize>>,
    a: usize,
    b: usize,
    n: nat,
    c: int,
)
    requires
        dependencies_first(graph, groups),
        leads_in(graph, a, b, n),
        0 <= c < groups.len(),
        groups[c].contains(a),
    ensures
        exists|d: int| 0 <= d <= c && #[trigger] groups[d].contains(b),
    decreases n,
{
    if n > 0 {
        let m = choose|m: usize| #[trigger]
            refers(graph, a, m) && leads_in(graph, m, b, (n - 1) as nat);
        assert(grouped(groups.take(c + 1), m));
        let d = choose|d: int|
            0 <= d < groups.take(c + 1).len() && #[trigger] groups.take(c + 1)[d].contains(m);
        assert(groups[d].contains(m));
        lemma_no_later_group(graph, groups, m, b, (n - 1) as nat, d);
    }
}

/// Functions that lead to each other are in one group.
pub proof fn law_mutual_recursion_is_one_group(graph: Seq<Seq<usize>>, a: usize, b: usize)
    requires
        graph.len() <= usize::MAX,
        is_graph(graph),
        a < graph.len(),
        b < graph.len(),
        leads(graph, a, b),
        leads(graph, b, a),
    ensures
        exists|c: int|
            0 <= c < components_of(graph).len() && #[trigger] components_of(graph)[c].contains(a)
                && components_of(graph)[c].contains(b),
{
    let groups = components_of(graph);
    law_groups_partition_the_functions(graph);
    assert(grouped(groups, a));
    let c = choose|c: int| 0 <= c < groups.len() && #[trigger] groups[c].contains(a);
    let n = choose|n: nat| leads_in(graph, a, b, n);
    let m = choose|m: nat| leads_in(graph, b, a, m);
    lemma_no_later_group(graph, groups, a, b, n, c);
    let d = choose|d: int| 0 <= d <= c && #[trigger] groups[d].contains(b);
    lemma_no_later_group(graph, groups, b, a, m, d);
    let e = choose|e: int| 0 <= e <= d && #[trigger] groups[e].contains(a);
    let i = choose|i: int| 0 <= i < groups[c].len() && groups[c][i] == a;
    let j = choose|j: int| 0 <= j < groups[e].len() && groups[e][j] == a;
    assert(groups[c][i] == groups[e][j]);
    assert(c == d);
}

/// The root functions of every program are scheduled so: each in one group, what
/// it refers to in its group or in one before.
pub proof fn law_root_functions_are_scheduled(program: TypedProgram)
    ensures
        is_graph(fn_graph(program)),
        fn_graph(program).len() <= usize::MAX,
        forall|f: usize| #[trigger]
            grouped(components_of(fn_graph(program)), f) <==> f < fn_graph(program).len(),
        apart(components_of(fn_graph(program))),
        dependencies_first(fn_graph(program), components_of(fn_graph(program))),
        mutually_recursive(fn_graph(program), components_of(fn_graph(program))),
{
    let items = program.syntax.items@;
    assert(program.syntax.items.len() <= usize::MAX);
    assert(items.len() == program.syntax.items.len());
    lemma_fn_items(items, items.len() as int);
    let functions = fn_items(items, items.len() as int);
    let numbers = fn_numbers(program, functions, functions.len() as int);
    let graph = fn_graph(program);
    assert forall|f: int, k: int| 0 <= f < graph.len() && 0 <= k < graph[f].len() implies (
    #[trigger] graph[f][k]) < graph.len() by {
        lemma_callees(items[functions[f] as int], program.hir, numbers, functions.len() as int);
        assert(graph[f] == callees(
            items[functions[f] as int],
            program.hir,
            numbers,
            functions.len() as int,
        ));
    }
    law_groups_partition_the_functions(graph);
}

} // verus!
