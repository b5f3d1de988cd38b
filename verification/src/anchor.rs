//! The anchor pre-pass decisions: which reference rectangle a node's anchor
//! is resolved against, and the sibling-dependency processing order.
//!
//! A node may carry `anchor-sibling="<id>"`, deriving its position from a
//! sibling in the same scope. The pre-pass must therefore process every scope
//! in an order where a referenced sibling comes before its dependents. The
//! order is Kahn's algorithm over the in-scope dependency graph, with ties
//! between ready nodes broken by the smallest id (`str` order), followed by the
//! nodes Kahn never emitted (non-anchor kinds and cycle members) in source
//! order.

use vstd::prelude::*;

use crate::text::{str_eq, str_lt, str_lt_spec, lemma_str_lt_strict_total};

verus! {

/// One child of a sibling scope as the anchor pre-pass sees it.
pub struct ScopeChild {
    /// The node id when the node kind carries anchor fields; `None` for kinds
    /// that never carry an anchor.
    pub anchor_id: Option<String>,
    /// The authored `anchor-sibling` target id, if any.
    pub anchor_sibling: Option<String>,
}

/// The id of an anchor-bearing child.
pub open spec fn id_of(c: ScopeChild) -> Option<Seq<char>> {
    match c.anchor_id {
        Some(x) => Some(x@),
        None => None,
    }
}

/// The authored sibling target of a child.
pub open spec fn sib_of(c: ScopeChild) -> Option<Seq<char>> {
    match c.anchor_sibling {
        Some(x) => Some(x@),
        None => None,
    }
}

/// Some anchor-bearing child of the scope has id `t`.
pub open spec fn has_id(s: Seq<ScopeChild>, t: Seq<char>) -> bool {
    exists|i: int| 0 <= i < s.len() && id_of(s[i]) == Some(t)
}

/// Child `i` is the one the scope's id lookup resolves to: anchor-bearing, and
/// no later child carries the same id (a later duplicate replaces an earlier).
pub open spec fn is_rep(s: Seq<ScopeChild>, i: int) -> bool {
    &&& 0 <= i < s.len()
    &&& id_of(s[i]) is Some
    &&& forall|j: int| i < j < s.len() ==> id_of(s[j]) != id_of(s[i])
}

/// The in-scope sibling child `i` depends on: its `anchor-sibling` target when
/// that target differs from its own id and names an anchor-bearing child.
pub open spec fn dep_of(s: Seq<ScopeChild>, i: int) -> Option<Seq<char>> {
    match (id_of(s[i]), sib_of(s[i])) {
        (Some(id), Some(t)) => if t != id && has_id(s, t) {
            Some(t)
        } else {
            None
        },
        _ => None,
    }
}

/// Some child already emitted in `e` carries id `t`.
pub open spec fn emitted_id(s: Seq<ScopeChild>, e: Seq<usize>, t: Seq<char>) -> bool {
    exists|k: int| 0 <= k < e.len() && id_of(s[e[k] as int]) == Some(t)
}

/// Child `i` has no pending dependency once `e` has been emitted.
pub open spec fn ready(s: Seq<ScopeChild>, e: Seq<usize>, i: int) -> bool {
    match dep_of(s, i) {
        None => true,
        Some(t) => emitted_id(s, e, t),
    }
}

/// Child `i` may be emitted next after `e`.
pub open spec fn candidate(s: Seq<ScopeChild>, e: Seq<usize>, i: int) -> bool {
    &&& is_rep(s, i)
    &&& !e.contains(i as usize)
    &&& ready(s, e, i)
}

/// The `k`-th emitted child was a candidate with the smallest id.
pub open spec fn kahn_step(s: Seq<ScopeChild>, e: Seq<usize>, k: int) -> bool {
    &&& candidate(s, e.take(k), e[k] as int)
    &&& forall|j: int|
        #![trigger candidate(s, e.take(k), j)]
        candidate(s, e.take(k), j) ==> !str_lt_spec(
            id_of(s[j]).unwrap(),
            id_of(s[e[k] as int]).unwrap(),
        )
}

/// Every step of `e` follows Kahn's rule with smallest-id tie breaking.
pub open spec fn kahn_prefix(s: Seq<ScopeChild>, e: Seq<usize>) -> bool {
    forall|k: int| 0 <= k < e.len() ==> #[trigger] kahn_step(s, e, k)
}

/// Nothing is left to emit after `e`.
pub open spec fn kahn_complete(s: Seq<ScopeChild>, e: Seq<usize>) -> bool {
    forall|j: int| 0 <= j < s.len() ==> !#[trigger] candidate(s, e, j)
}

/// Child `i` was placed by Kahn: it is anchor-bearing and its id was emitted.
pub open spec fn placed(s: Seq<ScopeChild>, e: Seq<usize>, i: int) -> bool {
    match id_of(s[i]) {
        Some(t) => emitted_id(s, e, t),
        None => false,
    }
}

/// The children among the first `n` that Kahn did not place, in source order.
pub open spec fn leftover(s: Seq<ScopeChild>, e: Seq<usize>, n: int) -> Seq<usize>
    decreases n,
{
    if n <= 0 {
        Seq::empty()
    } else if placed(s, e, n - 1) {
        leftover(s, e, n - 1)
    } else {
        leftover(s, e, n - 1).push((n - 1) as usize)
    }
}

/// `order` is the processing order of the scope `s`: the Kahn emission
/// sequence `e`, then the unplaced children in source order.
pub open spec fn is_topo_order(s: Seq<ScopeChild>, order: Seq<usize>) -> bool {
    exists|e: Seq<usize>|
        #![trigger kahn_prefix(s, e)]
        kahn_prefix(s, e) && kahn_complete(s, e) && order == e + leftover(s, e, s.len() as int)
}

/// The anchor-bearing children of `s` have pairwise different ids.
pub open spec fn ids_distinct(s: Seq<ScopeChild>) -> bool {
    forall|i: int, j: int|
        0 <= i < s.len() && 0 <= j < s.len() && i != j && id_of(s[i]) is Some ==> id_of(s[i])
            != id_of(s[j])
}

/// Two representatives with the same id are the same child.
proof fn lemma_rep_unique(s: Seq<ScopeChild>, a: int, b: int)
    requires
        is_rep(s, a),
        is_rep(s, b),
        id_of(s[a]) == id_of(s[b]),
    ensures
        a == b,
{
}

/// Number of `true` flags.
spec fn count_true(f: Seq<bool>) -> nat
    decreases f.len(),
{
    if f.len() == 0 {
        0
    } else {
        count_true(f.drop_last()) + (if f.last() {
            1nat
        } else {
            0nat
        })
    }
}

proof fn lemma_count_true_update(f: Seq<bool>, i: int)
    requires
        0 <= i < f.len(),
        !f[i],
    ensures
        count_true(f.update(i, true)) == count_true(f) + 1,
        count_true(f) < f.len(),
    decreases f.len(),
{
    let g = f.update(i, true);
    if i == f.len() - 1 {
        assert(g.drop_last() =~= f.drop_last());
        lemma_count_true_le(f.drop_last());
    } else {
        assert(g.drop_last() =~= f.drop_last().update(i, true));
        lemma_count_true_update(f.drop_last(), i);
    }
}

proof fn lemma_count_true_le(f: Seq<bool>)
    ensures
        count_true(f) <= f.len(),
    decreases f.len(),
{
    if f.len() > 0 {
        lemma_count_true_le(f.drop_last());
    }
}

/// The index of the last child whose anchor id is `t`, if any.
fn last_with_id(children: &[ScopeChild], t: &str) -> (r: Option<usize>)
    ensures
        match r {
            Some(k) => k < children@.len() && id_of(children@[k as int]) == Some(t@) && forall|
                j: int,
            |
                k < j < children@.len() ==> id_of(children@[j]) != Some(t@),
            None => !has_id(children@, t@),
        },
{
    let mut i = children.len();
    while i > 0
        invariant
            i <= children@.len(),
            forall|j: int| i <= j < children@.len() ==> id_of(children@[j]) != Some(t@),
        decreases i,
    {
        i = i - 1;
        match &children[i].anchor_id {
            Some(x) => {
                if str_eq(x.as_str(), t) {
                    return Some(i);
                }
            },
            None => {},
        }
    }
    None
}

/// Order the children of one sibling scope for the anchor pre-pass.
///
/// Returns indices into `children`. Anchor-bearing children come first, in
/// Kahn order over the in-scope `anchor-sibling` dependencies (a referenced
/// sibling before its dependents), the smallest id first among those ready.
/// A later child with a duplicate id replaces an earlier one for lookup, and
/// every child whose id was emitted is left out of the tail. The tail holds,
/// in source order, every other child: non-anchor kinds and members of a
/// dependency cycle.
pub fn sibling_topo_order(children: &[ScopeChild]) -> (order: Vec<usize>)
    ensures
        is_topo_order(children@, order@),
        order@.no_duplicates(),
        forall|k: int| 0 <= k < order@.len() ==> order@[k] < children@.len(),
        ids_distinct(children@) ==> forall|i: int|
            0 <= i < children@.len() ==> #[trigger] order@.contains(i as usize),
{
    let n = children.len();
    let ghost s = children@;

    // The child each anchor id resolves to, and each child's dependency.
    let mut rep_of: Vec<usize> = Vec::new();
    let mut dep: Vec<Option<usize>> = Vec::new();
    let mut i: usize = 0;
    while i < n
        invariant
            s == children@,
            n == s.len(),
            i <= n,
            rep_of@.len() == i,
            dep@.len() == i,
            forall|j: int|
                0 <= j < i ==> {
                    &&& (id_of(s[j]) is Some ==> is_rep(s, rep_of@[j] as int) && id_of(
                        s[rep_of@[j] as int],
                    ) == id_of(s[j]))
                    &&& (id_of(s[j]) is None ==> rep_of@[j] == j)
                    &&& match dep@[j] {
                        Some(r) => is_rep(s, r as int) && dep_of(s, j) == id_of(s[r as int]),
                        None => dep_of(s, j) is None,
                    }
                },
        decreases n - i,
    {
        let c = &children[i];
        match &c.anchor_id {
            Some(id) => {
                let r = last_with_id(children, id.as_str());
                match r {
                    Some(k) => {
                        rep_of.push(k);
                    },
                    None => {
                        assert(id_of(s[i as int]) == Some(id@));
                        rep_of.push(i);
                    },
                }
                match &c.anchor_sibling {
                    Some(t) => {
                        if str_eq(t.as_str(), id.as_str()) {
                            dep.push(None);
                        } else {
                            let d = last_with_id(children, t.as_str());
                            dep.push(d);
                        }
                    },
                    None => {
                        dep.push(None);
                    },
                }
            },
            None => {
                rep_of.push(i);
                dep.push(None);
            },
        }
        i = i + 1;
    }

    // Kahn's loop: repeatedly emit the ready child with the smallest id.
    let mut done: Vec<bool> = Vec::new();
    let mut k: usize = 0;
    while k < n
        invariant
            n == s.len(),
            k <= n,
            done@.len() == k,
            forall|j: int| 0 <= j < k ==> !done@[j],
        decreases n - k,
    {
        done.push(false);
        k = k + 1;
    }
    proof {
        assert(count_true(done@) == 0) by {
            lemma_count_all_false(done@);
        }
    }
    let mut emitted: Vec<usize> = Vec::new();
    loop
        invariant
            s == children@,
            n == s.len(),
            rep_of@.len() == n,
            dep@.len() == n,
            done@.len() == n,
            forall|j: int|
                0 <= j < n ==> {
                    &&& (id_of(s[j]) is Some ==> is_rep(s, rep_of@[j] as int) && id_of(
                        s[rep_of@[j] as int],
                    ) == id_of(s[j]))
                    &&& (id_of(s[j]) is None ==> rep_of@[j] == j)
                    &&& match dep@[j] {
                        Some(r) => is_rep(s, r as int) && dep_of(s, j) == id_of(s[r as int]),
                        None => dep_of(s, j) is None,
                    }
                },
            forall|j: int| 0 <= j < n ==> (done@[j] <==> emitted@.contains(j as usize)),
            forall|q: int| 0 <= q < emitted@.len() ==> is_rep(s, emitted@[q] as int),
            count_true(done@) == emitted@.len(),
            kahn_prefix(s, emitted@),
        decreases n - emitted@.len(),
    {
        proof {
            lemma_count_true_le(done@);
        }
        let ghost e = emitted@;
        let mut best: Option<usize> = None;
        let mut j: usize = 0;
        while j < n
            invariant
                s == children@,
                n == s.len(),
                j <= n,
                e == emitted@,
                rep_of@.len() == n,
                dep@.len() == n,
                done@.len() == n,
                forall|x: int|
                    0 <= x < n ==> {
                        &&& (id_of(s[x]) is Some ==> is_rep(s, rep_of@[x] as int) && id_of(
                            s[rep_of@[x] as int],
                        ) == id_of(s[x]))
                        &&& (id_of(s[x]) is None ==> rep_of@[x] == x)
                        &&& match dep@[x] {
                            Some(r) => is_rep(s, r as int) && dep_of(s, x) == id_of(
                                s[r as int],
                            ),
                            None => dep_of(s, x) is None,
                        }
                    },
                forall|x: int| 0 <= x < n ==> (done@[x] <==> e.contains(x as usize)),
                forall|q: int| 0 <= q < e.len() ==> is_rep(s, e[q] as int),
                match best {
                    Some(b) => b < n && candidate(s, e, b as int) && forall|x: int|
                        0 <= x < j && #[trigger] candidate(s, e, x) ==> !str_lt_spec(
                            id_of(s[x]).unwrap(),
                            id_of(s[b as int]).unwrap(),
                        ),
                    None => forall|x: int| 0 <= x < j ==> !#[trigger] candidate(s, e, x),
                },
            decreases n - j,
        {
            let is_cand = is_candidate(children, &rep_of, &dep, &done, j, Ghost(e));
            if is_cand {
                match best {
                    None => {
                        best = Some(j);
                        proof {
                            lemma_str_lt_strict_total(
                                id_of(s[j as int]).unwrap(),
                                id_of(s[j as int]).unwrap(),
                                id_of(s[j as int]).unwrap(),
                            );
                        }
                    },
                    Some(b) => {
                        let idj = children[j].anchor_id.as_ref().unwrap();
                        let idb = children[b].anchor_id.as_ref().unwrap();
                        if str_lt(idj.as_str(), idb.as_str()) {
                            best = Some(j);
                            proof {
                                assert forall|x: int|
                                    0 <= x < j + 1 && #[trigger] candidate(
                                        s,
                                        e,
                                        x,
                                    ) implies !str_lt_spec(
                                    id_of(s[x]).unwrap(),
                                    id_of(s[j as int]).unwrap(),
                                ) by {
                                    lemma_str_lt_strict_total(
                                        id_of(s[x]).unwrap(),
                                        id_of(s[j as int]).unwrap(),
                                        id_of(s[b as int]).unwrap(),
                                    );
                                    lemma_str_lt_strict_total(
                                        id_of(s[j as int]).unwrap(),
                                        id_of(s[j as int]).unwrap(),
                                        id_of(s[j as int]).unwrap(),
                                    );
                                }
                            }
                        }
                    },
                }
            }
            j = j + 1;
        }
        match best {
            None => {
                proof {
                    assert(kahn_complete(s, e));
                }
                return finish_order(children, &rep_of, &done, emitted, Ghost(e));
            },
            Some(b) => {
                proof {
                    lemma_count_true_update(done@, b as int);
                    assert(e.push(b).take(e.len() as int) =~= e);
                    assert forall|q: int| 0 <= q < e.len() + 1 implies #[trigger] kahn_step(
                        s,
                        e.push(b),
                        q,
                    ) by {
                        if q < e.len() {
                            assert(kahn_step(s, e, q));
                            assert(e.push(b).take(q) =~= e.take(q));
                        }
                    }
                }
                emitted.push(b);
                done.set(b, true);
                proof {
                    assert forall|x: int| 0 <= x < n implies (done@[x] <==> emitted@.contains(
                        x as usize,
                    )) by {
                        if x == b as int {
                            assert(emitted@[e.len() as int] == b);
                        } else {
                            if e.contains(x as usize) {
                                let q = choose|q: int| 0 <= q < e.len() && e[q] == x as usize;
                                assert(emitted@[q] == x as usize);
                            }
                            if emitted@.contains(x as usize) {
                                let q = choose|q: int|
                                    0 <= q < emitted@.len() && emitted@[q] == x as usize;
                                assert(q < e.len());
                                assert(e[q] == x as usize);
                            }
                        }
                    }
                }
            },
        }
    }
}

proof fn lemma_count_all_false(f: Seq<bool>)
    requires
        forall|j: int| 0 <= j < f.len() ==> !f[j],
    ensures
        count_true(f) == 0,
    decreases f.len(),
{
    if f.len() > 0 {
        lemma_count_all_false(f.drop_last());
    }
}

/// Whether child `j` may be emitted next.
fn is_candidate(
    children: &[ScopeChild],
    rep_of: &Vec<usize>,
    dep: &Vec<Option<usize>>,
    done: &Vec<bool>,
    j: usize,
    Ghost(e): Ghost<Seq<usize>>,
) -> (r: bool)
    requires
        j < children@.len(),
        rep_of@.len() == children@.len(),
        dep@.len() == children@.len(),
        done@.len() == children@.len(),
        forall|x: int|
            0 <= x < children@.len() ==> {
                &&& (id_of(children@[x]) is Some ==> is_rep(children@, rep_of@[x] as int)
                    && id_of(children@[rep_of@[x] as int]) == id_of(children@[x]))
                &&& (id_of(children@[x]) is None ==> rep_of@[x] == x)
                &&& match dep@[x] {
                    Some(r) => is_rep(children@, r as int) && dep_of(children@, x) == id_of(
                        children@[r as int],
                    ),
                    None => dep_of(children@, x) is None,
                }
            },
        forall|x: int| 0 <= x < children@.len() ==> (done@[x] <==> e.contains(x as usize)),
        forall|q: int| 0 <= q < e.len() ==> is_rep(children@, e[q] as int),
    ensures
        r == candidate(children@, e, j as int),
{
    let ghost s = children@;
    let rep = children[j].anchor_id.is_some() && rep_of[j] == j;
    proof {
        if children[j as int].anchor_id.is_some() {
            if is_rep(s, j as int) {
                lemma_rep_unique(s, j as int, rep_of@[j as int] as int);
            }
        }
    }
    if !rep || done[j] {
        return false;
    }
    match dep[j] {
        None => true,
        Some(r) => {
            proof {
                if emitted_id(s, e, id_of(s[r as int]).unwrap()) {
                    let q = choose|q: int|
                        0 <= q < e.len() && id_of(s[e[q] as int]) == Some(
                            id_of(s[r as int]).unwrap(),
                        );
                    lemma_rep_unique(s, e[q] as int, r as int);
                    assert(e.contains(r));
                }
                if done@[r as int] {
                    let q = choose|q: int| 0 <= q < e.len() && e[q] == r;
                    assert(id_of(s[e[q] as int]) == Some(id_of(s[r as int]).unwrap()));
                }
            }
            done[r]
        },
    }
}

/// Append the children Kahn did not place, in source order.
fn finish_order(
    children: &[ScopeChild],
    rep_of: &Vec<usize>,
    done: &Vec<bool>,
    emitted: Vec<usize>,
    Ghost(e): Ghost<Seq<usize>>,
) -> (order: Vec<usize>)
    requires
        e == emitted@,
        rep_of@.len() == children@.len(),
        done@.len() == children@.len(),
        forall|x: int|
            0 <= x < children@.len() ==> {
                &&& (id_of(children@[x]) is Some ==> is_rep(children@, rep_of@[x] as int)
                    && id_of(children@[rep_of@[x] as int]) == id_of(children@[x]))
                &&& (id_of(children@[x]) is None ==> rep_of@[x] == x)
            },
        forall|x: int| 0 <= x < children@.len() ==> (done@[x] <==> e.contains(x as usize)),
        forall|q: int| 0 <= q < e.len() ==> is_rep(children@, e[q] as int),
        kahn_prefix(children@, e),
        kahn_complete(children@, e),
    ensures
        is_topo_order(children@, order@),
        order@.no_duplicates(),
        forall|k: int| 0 <= k < order@.len() ==> order@[k] < children@.len(),
        ids_distinct(children@) ==> forall|i: int|
            0 <= i < children@.len() ==> #[trigger] order@.contains(i as usize),
{
    let ghost s = children@;
    let n = children.len();
    let mut order = emitted;
    let mut i: usize = 0;
    proof {
        lemma_emitted_distinct(s, e);
        assert(order@ =~= e + leftover(s, e, 0));
    }
    while i < n
        invariant
            s == children@,
            n == s.len(),
            i <= n,
            rep_of@.len() == n,
            done@.len() == n,
            forall|x: int|
                0 <= x < n ==> {
                    &&& (id_of(s[x]) is Some ==> is_rep(s, rep_of@[x] as int) && id_of(
                        s[rep_of@[x] as int],
                    ) == id_of(s[x]))
                    &&& (id_of(s[x]) is None ==> rep_of@[x] == x)
                },
            forall|x: int| 0 <= x < n ==> (done@[x] <==> e.contains(x as usize)),
            forall|q: int| 0 <= q < e.len() ==> is_rep(s, e[q] as int),
            order@ == e + leftover(s, e, i as int),
        decreases n - i,
    {
        let skip = children[i].anchor_id.is_some() && done[rep_of[i]];
        proof {
            lemma_placed_iff(s, e, rep_of@[i as int] as int, i as int);
            if id_of(s[i as int]) is Some {
                assert(skip == placed(s, e, i as int));
            }
        }
        if !skip {
            order.push(i);
        }
        proof {
            assert(order@ =~= e + leftover(s, e, i + 1));
        }
        i = i + 1;
    }
    proof {
        assert(kahn_prefix(s, e));
        lemma_order_facts(s, e);
    }
    order
}

/// For an anchor-bearing child `i` whose id resolves to `r`: it is placed
/// exactly when `r` was emitted.
proof fn lemma_placed_iff(s: Seq<ScopeChild>, e: Seq<usize>, r: int, i: int)
    requires
        0 <= i < s.len(),
        s.len() <= usize::MAX,
        id_of(s[i]) is Some ==> is_rep(s, r) && id_of(s[r]) == id_of(s[i]),
        forall|q: int| 0 <= q < e.len() ==> is_rep(s, e[q] as int),
    ensures
        id_of(s[i]) is Some ==> (placed(s, e, i) <==> e.contains(r as usize)),
{
    if id_of(s[i]) is Some {
        if placed(s, e, i) {
            let q = choose|q: int| 0 <= q < e.len() && id_of(s[e[q] as int]) == id_of(s[i]);
            lemma_rep_unique(s, e[q] as int, r);
            assert(e[q] == r as usize);
        }
        if e.contains(r as usize) {
            let q = choose|q: int| 0 <= q < e.len() && e[q] == r as usize;
            assert(id_of(s[e[q] as int]) == id_of(s[i]));
        }
    }
}

/// A Kahn sequence never repeats a child.
proof fn lemma_emitted_distinct(s: Seq<ScopeChild>, e: Seq<usize>)
    requires
        kahn_prefix(s, e),
    ensures
        e.no_duplicates(),
        forall|q: int| 0 <= q < e.len() ==> is_rep(s, e[q] as int),
{
    assert forall|a: int, b: int| 0 <= a < e.len() && 0 <= b < e.len() && a != b implies e[a]
        != e[b] by {
        if a < b {
            assert(kahn_step(s, e, b));
            assert(e.take(b)[a] == e[a]);
        } else {
            assert(kahn_step(s, e, a));
            assert(e.take(a)[b] == e[b]);
        }
    }
    assert forall|q: int| 0 <= q < e.len() implies is_rep(s, e[q] as int) by {
        assert(kahn_step(s, e, q));
    }
}

/// Facts about the tail of unplaced children.
proof fn lemma_leftover(s: Seq<ScopeChild>, e: Seq<usize>, n: int)
    requires
        0 <= n <= s.len(),
        s.len() <= usize::MAX,
    ensures
        forall|k: int|
            0 <= k < leftover(s, e, n).len() ==> leftover(s, e, n)[k] < n && !placed(
                s,
                e,
                leftover(s, e, n)[k] as int,
            ),
        forall|a: int, b: int|
            0 <= a < b < leftover(s, e, n).len() ==> leftover(s, e, n)[a] < leftover(s, e, n)[b],
        forall|i: int|
            0 <= i < n && !placed(s, e, i) ==> #[trigger] leftover(s, e, n).contains(i as usize),
    decreases n,
{
    if n > 0 {
        lemma_leftover(s, e, n - 1);
        let prev = leftover(s, e, n - 1);
        let cur = leftover(s, e, n);
        if placed(s, e, n - 1) {
            assert(cur == prev);
        } else {
            assert(cur == prev.push((n - 1) as usize));
            assert forall|k: int| 0 <= k < cur.len() implies cur[k] < n && !placed(
                s,
                e,
                cur[k] as int,
            ) by {
                if k < prev.len() {
                    assert(cur[k] == prev[k]);
                }
            }
            assert forall|a: int, b: int| 0 <= a < b < cur.len() implies cur[a] < cur[b] by {
                assert(cur[a] == prev[a]);
                if b < prev.len() {
                    assert(cur[b] == prev[b]);
                }
            }
            assert forall|i: int| 0 <= i < n && !placed(s, e, i) implies #[trigger] cur.contains(
                i as usize,
            ) by {
                if i < n - 1 {
                    assert(prev.contains(i as usize));
                    let k = choose|k: int| 0 <= k < prev.len() && prev[k] == i as usize;
                    assert(cur[k] == i as usize);
                } else {
                    assert(cur[prev.len() as int] == i as usize);
                }
            }
        }
    }
}

/// The order is duplicate-free, in range, and (with distinct ids) complete.
proof fn lemma_order_facts(s: Seq<ScopeChild>, e: Seq<usize>)
    requires
        s.len() <= usize::MAX,
        kahn_prefix(s, e),
        kahn_complete(s, e),
    ensures
        is_topo_order(s, e + leftover(s, e, s.len() as int)),
        (e + leftover(s, e, s.len() as int)).no_duplicates(),
        forall|k: int|
            0 <= k < (e + leftover(s, e, s.len() as int)).len() ==> (e + leftover(
                s,
                e,
                s.len() as int,
            ))[k] < s.len(),
        ids_distinct(s) ==> forall|i: int|
            0 <= i < s.len() ==> #[trigger] (e + leftover(s, e, s.len() as int)).contains(
                i as usize,
            ),
{
    let l = leftover(s, e, s.len() as int);
    let o = e + l;
    lemma_emitted_distinct(s, e);
    lemma_leftover(s, e, s.len() as int);
    assert forall|q: int| 0 <= q < e.len() implies placed(s, e, e[q] as int) by {
        assert(id_of(s[e[q] as int]) is Some);
    }
    assert forall|a: int, b: int| 0 <= a < o.len() && 0 <= b < o.len() && a != b implies o[a]
        != o[b] by {
        if a < e.len() && b >= e.len() {
            assert(placed(s, e, e[a] as int));
        } else if b < e.len() && a >= e.len() {
            assert(placed(s, e, e[b] as int));
        }
    }
    if ids_distinct(s) {
        assert forall|i: int| 0 <= i < s.len() implies #[trigger] o.contains(i as usize) by {
            if placed(s, e, i) {
                let q = choose|q: int|
                    0 <= q < e.len() && id_of(s[e[q] as int]) == Some(id_of(s[i]).unwrap());
                assert(o[q] == i as usize);
            } else {
                assert(l.contains(i as usize));
                let k = choose|k: int| 0 <= k < l.len() && l[k] == i as usize;
                assert(o[e.len() + k] == i as usize);
            }
        }
    }
    assert(kahn_prefix(s, e) && kahn_complete(s, e) && o == e + leftover(s, e, s.len() as int));
}


/// The rectangle a node's anchor position is derived from.
#[derive(Clone, Copy, PartialEq, Eq, Structural, Debug)]
pub enum AnchorReference {
    /// The named safe zone of the page (`anchor-zone`).
    Zone,
    /// The resolved box of the named sibling (`anchor-sibling`).
    Sibling,
    /// The direct parent container's box (`anchor-parent="true"`).
    Parent,
    /// The whole page.
    Page,
}

/// Reference precedence: zone, then sibling, then parent, then page.
pub open spec fn anchor_reference_spec(
    has_zone: bool,
    has_sibling: bool,
    anchor_parent: Option<bool>,
) -> AnchorReference {
    if has_zone {
        AnchorReference::Zone
    } else if has_sibling {
        AnchorReference::Sibling
    } else if anchor_parent == Some(true) {
        AnchorReference::Parent
    } else {
        AnchorReference::Page
    }
}

/// Choose the reference rectangle for an anchored node: `anchor-zone` wins
/// when set; `anchor-sibling` when no zone; `anchor-parent="true"` when
/// neither; the page otherwise.
pub fn anchor_reference(
    anchor_zone: Option<&str>,
    anchor_sibling: Option<&str>,
    anchor_parent: Option<bool>,
) -> (r: AnchorReference)
    ensures
        r == anchor_reference_spec(anchor_zone is Some, anchor_sibling is Some, anchor_parent),
{
    if anchor_zone.is_some() {
        AnchorReference::Zone
    } else if anchor_sibling.is_some() {
        AnchorReference::Sibling
    } else if anchor_parent == Some(true) {
        AnchorReference::Parent
    } else {
        AnchorReference::Page
    }
}

/// What the anchor pre-pass learned about a node's `anchor-sibling`.
#[derive(Clone, Copy, PartialEq, Eq, Structural, Debug)]
pub struct SiblingOutcome {
    /// The named sibling is an anchor-bearing node of the same scope.
    pub in_scope: bool,
    /// The sibling's `w` and `h` are authored and convert to pixels.
    pub size_px: bool,
    /// The sibling's `x` (resp. `y`) is authored and converts to pixels.
    pub x_px: bool,
    pub y_px: bool,
    /// The sibling already has an anchor-map entry.
    pub has_entry: bool,
}

/// The sibling's box resolves: it is in scope, its size converts, and each
/// axis of its origin comes from its own `x`/`y` or, failing that, from its
/// anchor-map entry.
pub open spec fn sibling_resolves(s: SiblingOutcome) -> bool {
    s.in_scope && s.size_px && (s.x_px || s.has_entry) && (s.y_px || s.has_entry)
}

/// The reference a node's anchor-map entry is derived against, when the
/// node gets one: it must carry a recognised `anchor`, its own `w`/`h` must
/// convert to pixels, and the reference chosen by precedence must resolve
/// (the named zone exists with pixel geometry, the sibling resolves, the
/// parent container's box is known; the page always does).
pub open spec fn anchor_entry_spec(
    anchor_recognised: bool,
    size_px: bool,
    anchor_zone: Option<&str>,
    anchor_sibling: Option<&str>,
    anchor_parent: Option<bool>,
    zone_resolves: bool,
    sibling: SiblingOutcome,
    parent_box_known: bool,
) -> Option<AnchorReference> {
    if !anchor_recognised || !size_px {
        None
    } else {
        let r = anchor_reference_spec(anchor_zone is Some, anchor_sibling is Some, anchor_parent);
        let resolves = match r {
            AnchorReference::Zone => zone_resolves,
            AnchorReference::Sibling => sibling_resolves(sibling),
            AnchorReference::Parent => parent_box_known,
            AnchorReference::Page => true,
        };
        if resolves {
            Some(r)
        } else {
            None
        }
    }
}

/// Decide whether a node gets an anchor-map entry, and against which
/// reference (see `anchor_entry_spec`). `anchor_recognised` says the node
/// carries an `anchor` that names a known anchor point; the other flags are
/// the outcomes of converting its size and resolving its references.
pub fn anchor_entry(
    anchor_recognised: bool,
    size_px: bool,
    anchor_zone: Option<&str>,
    anchor_sibling: Option<&str>,
    anchor_parent: Option<bool>,
    zone_resolves: bool,
    sibling: SiblingOutcome,
    parent_box_known: bool,
) -> (r: Option<AnchorReference>)
    ensures
        r == anchor_entry_spec(
            anchor_recognised,
            size_px,
            anchor_zone,
            anchor_sibling,
            anchor_parent,
            zone_resolves,
            sibling,
            parent_box_known,
        ),
{
    if !anchor_recognised || !size_px {
        return None;
    }
    let reference = anchor_reference(anchor_zone, anchor_sibling, anchor_parent);
    let resolves = match reference {
        AnchorReference::Zone => zone_resolves,
        AnchorReference::Sibling => sibling.in_scope && sibling.size_px && (sibling.x_px
            || sibling.has_entry) && (sibling.y_px || sibling.has_entry),
        AnchorReference::Parent => parent_box_known,
        AnchorReference::Page => true,
    };
    if resolves {
        Some(reference)
    } else {
        None
    }
}

/// A node anchored to a sibling (with no zone) gets an entry derived from
/// that sibling exactly when its anchor is recognised, its own size
/// converts, and the sibling is in scope, with a converting size and, on
/// each axis, an authored origin or an anchor-map entry of its own. In
/// particular a sibling placed by its own anchor resolves without authored
/// `x`/`y`.
pub proof fn law_sibling_anchor_entry(
    anchor_recognised: bool,
    size_px: bool,
    anchor_sibling: Option<&str>,
    anchor_parent: Option<bool>,
    zone_resolves: bool,
    sibling: SiblingOutcome,
    parent_box_known: bool,
)
    requires
        anchor_sibling is Some,
    ensures
        anchor_entry_spec(
            anchor_recognised,
            size_px,
            None,
            anchor_sibling,
            anchor_parent,
            zone_resolves,
            sibling,
            parent_box_known,
        ) == (if anchor_recognised && size_px && sibling.in_scope && sibling.size_px && (sibling.x_px
            || sibling.has_entry) && (sibling.y_px || sibling.has_entry) {
            Some(AnchorReference::Sibling)
        } else {
            None
        }),
        anchor_recognised && size_px && sibling.in_scope && sibling.size_px && sibling.has_entry
            ==> anchor_entry_spec(
            anchor_recognised,
            size_px,
            None,
            anchor_sibling,
            anchor_parent,
            zone_resolves,
            sibling,
            parent_box_known,
        ) == Some(AnchorReference::Sibling),
{
}

/// The other references: a zone reference resolves with the zone, a parent
/// reference with the parent's box, and a page reference always; a node
/// without a recognised anchor or a converting size never gets an entry.
pub proof fn law_anchor_entry_references(
    anchor_recognised: bool,
    size_px: bool,
    anchor_zone: Option<&str>,
    anchor_sibling: Option<&str>,
    anchor_parent: Option<bool>,
    zone_resolves: bool,
    sibling: SiblingOutcome,
    parent_box_known: bool,
)
    ensures
        !(anchor_recognised && size_px) ==> anchor_entry_spec(
            anchor_recognised,
            size_px,
            anchor_zone,
            anchor_sibling,
            anchor_parent,
            zone_resolves,
            sibling,
            parent_box_known,
        ) is None,
        anchor_recognised && size_px && anchor_zone is Some ==> anchor_entry_spec(
            anchor_recognised,
            size_px,
            anchor_zone,
            anchor_sibling,
            anchor_parent,
            zone_resolves,
            sibling,
            parent_box_known,
        ) == (if zone_resolves {
            Some(AnchorReference::Zone)
        } else {
            None
        }),
        anchor_recognised && size_px && anchor_zone is None && anchor_sibling is None
            && anchor_parent == Some(true) ==> anchor_entry_spec(
            anchor_recognised,
            size_px,
            anchor_zone,
            anchor_sibling,
            anchor_parent,
            zone_resolves,
            sibling,
            parent_box_known,
        ) == (if parent_box_known {
            Some(AnchorReference::Parent)
        } else {
            None
        }),
        anchor_recognised && size_px && anchor_zone is None && anchor_sibling is None
            && anchor_parent != Some(true) ==> anchor_entry_spec(
            anchor_recognised,
            size_px,
            anchor_zone,
            anchor_sibling,
            anchor_parent,
            zone_resolves,
            sibling,
            parent_box_known,
        ) == Some(AnchorReference::Page),
{
}

} // verus!
