//! Text-chain membership: which text boxes thread one article, in flow
//! order, and which member supplies the article's content.
//!
//! A chain is the set of `text` nodes sharing a `chain` id. Members are
//! collected in document source order (a depth-first walk that enters frames,
//! groups, and table cells). The content source of a chain is its first member
//! that carries non-empty spans; a member takes part in the flow only when its
//! box (`x`/`y`/`w`/`h`) resolves to pixels.

use vstd::prelude::*;

use crate::node_tree::NodeKind;
use crate::text::str_eq;

verus! {

/// A node of the page tree as the chain walk sees it.
pub struct ChainNode {
    /// The node kind.
    pub kind: NodeKind,
    /// The node id.
    pub id: String,
    /// The `chain` id of a text node.
    pub chain: Option<String>,
    /// The text node has at least one span with non-empty text.
    pub has_spans: bool,
    /// The text node's explicit box resolves to pixels.
    pub has_box: bool,
    /// A frame's or group's children, or a table's cell contents (row by
    /// row, cell by cell).
    pub children: Vec<ChainNode>,
}

/// The walk enters frames, groups, and table cells.
pub open spec fn chain_walk_descends(k: NodeKind) -> bool {
    k == NodeKind::Frame || k == NodeKind::Group || k == NodeKind::Table
}

/// The text nodes carrying a `chain` id, in document source order.
pub open spec fn chain_texts(nodes: Seq<ChainNode>) -> Seq<ChainNode>
    decreases nodes, 0int,
{
    if nodes.len() == 0 {
        Seq::empty()
    } else {
        proof {
            assert(decreases_to!(nodes => nodes.drop_last()));
        }
        chain_texts(nodes.drop_last()) + chain_texts_of(nodes.last())
    }
}

/// The chained text nodes at and below one node.
pub open spec fn chain_texts_of(n: ChainNode) -> Seq<ChainNode>
    decreases n, 1int,
{
    if n.kind == NodeKind::Text {
        if n.chain is Some {
            seq![n]
        } else {
            Seq::empty()
        }
    } else if chain_walk_descends(n.kind) {
        proof {
            assert(decreases_to!(n => n.children));
        }
        chain_texts(n.children@)
    } else {
        Seq::empty()
    }
}

/// One chain member: the chain id and the member node id.
pub open spec fn member_entry(n: ChainNode) -> (Seq<char>, Seq<char>) {
    (n.chain.unwrap()@, n.id@)
}

/// The flow members among `texts`: those whose box resolves, in order.
pub open spec fn members_of(texts: Seq<ChainNode>) -> Seq<(Seq<char>, Seq<char>)>
    decreases texts.len(),
{
    if texts.len() == 0 {
        Seq::empty()
    } else if texts.last().has_box {
        members_of(texts.drop_last()).push(member_entry(texts.last()))
    } else {
        members_of(texts.drop_last())
    }
}

/// Some text in `texts` is a span-bearing member of chain `c`.
pub open spec fn has_source(texts: Seq<ChainNode>, c: Seq<char>) -> bool {
    exists|i: int| 0 <= i < texts.len() && texts[i].has_spans && texts[i].chain.unwrap()@ == c
}

/// The content sources among `texts`: for each chain, its first span-bearing
/// member, in the order those members appear.
pub open spec fn sources_of(texts: Seq<ChainNode>) -> Seq<(Seq<char>, Seq<char>)>
    decreases texts.len(),
{
    if texts.len() == 0 {
        Seq::empty()
    } else {
        let last = texts.last();
        let prev = texts.drop_last();
        if last.has_spans && !has_source(prev, last.chain.unwrap()@) {
            sources_of(prev).push(member_entry(last))
        } else {
            sources_of(prev)
        }
    }
}

/// Chain members and content sources of a page tree.
pub struct ChainCollection {
    /// `(chain id, member id)` of every member whose box resolves, in
    /// document source order (the flow order).
    pub members: Vec<(String, String)>,
    /// `(chain id, source id)`: for each chain that has one, its first
    /// span-bearing member, in document source order.
    pub sources: Vec<(String, String)>,
}

/// The view of a list of id pairs.
pub open spec fn pairs_view(v: Seq<(String, String)>) -> Seq<(Seq<char>, Seq<char>)> {
    Seq::new(v.len(), |i: int| (v[i].0@, v[i].1@))
}

/// Whether `pairs` already holds a source for chain `c`.
fn has_source_for(pairs: &Vec<(String, String)>, c: &str) -> (r: bool)
    ensures
        r == exists|i: int| 0 <= i < pairs@.len() && #[trigger] pairs@[i].0@ == c@,
{
    let mut i: usize = 0;
    while i < pairs.len()
        invariant
            i <= pairs@.len(),
            forall|j: int| 0 <= j < i ==> #[trigger] pairs@[j].0@ != c@,
        decreases pairs@.len() - i,
    {
        if str_eq(pairs[i].0.as_str(), c) {
            return true;
        }
        i = i + 1;
    }
    false
}

/// Sources hold one entry per chain that has a source.
pub open spec fn sources_invariant(
    texts: Seq<ChainNode>,
    sources: Seq<(Seq<char>, Seq<char>)>,
) -> bool {
    forall|c: Seq<char>|
        has_source(texts, c) <==> exists|i: int| 0 <= i < sources.len() && #[trigger] sources[i].0 == c
}

proof fn lemma_sources_invariant(texts: Seq<ChainNode>)
    ensures
        sources_invariant(texts, sources_of(texts)),
    decreases texts.len(),
{
    if texts.len() > 0 {
        let prev = texts.drop_last();
        let last = texts.last();
        lemma_sources_invariant(prev);
        let sp = sources_of(prev);
        let s = sources_of(texts);
        let added = last.has_spans && !has_source(prev, last.chain.unwrap()@);
        if added {
            assert(s == sp.push(member_entry(last)));
        } else {
            assert(s == sp);
        }
        assert forall|c: Seq<char>| has_source(texts, c) <==> exists|i: int|
            0 <= i < s.len() && #[trigger] s[i].0 == c by {
            if has_source(texts, c) {
                let i = choose|i: int|
                    0 <= i < texts.len() && texts[i].has_spans && texts[i].chain.unwrap()@ == c;
                if i < texts.len() - 1 {
                    assert(prev[i] == texts[i]);
                    assert(has_source(prev, c));
                    let k = choose|k: int| 0 <= k < sp.len() && #[trigger] sp[k].0 == c;
                    assert(s[k] == sp[k]);
                } else if has_source(prev, c) {
                    let k = choose|k: int| 0 <= k < sp.len() && #[trigger] sp[k].0 == c;
                    assert(s[k] == sp[k]);
                } else {
                    assert(i == texts.len() - 1);
                    assert(added);
                    assert(s[sp.len() as int].0 == c);
                }
            }
            if exists|i: int| 0 <= i < s.len() && #[trigger] s[i].0 == c {
                let i = choose|i: int| 0 <= i < s.len() && #[trigger] s[i].0 == c;
                if i < sp.len() {
                    assert(s[i] == sp[i]);
                    assert(exists|k: int| 0 <= k < sp.len() && #[trigger] sp[k].0 == c);
                    assert(has_source(prev, c));
                    let j = choose|j: int|
                        0 <= j < prev.len() && prev[j].has_spans && prev[j].chain.unwrap()@ == c;
                    assert(texts[j] == prev[j]);
                } else {
                    assert(added);
                    assert(texts[texts.len() - 1] == last);
                    assert(has_source(texts, c));
                }
            }
        }
    }
}

/// Collect, in document source order, every chain member whose box resolves
/// and the content source of every chain (its first span-bearing member).
pub fn collect_chains(nodes: &Vec<ChainNode>) -> (c: ChainCollection)
    ensures
        pairs_view(c.members@) == members_of(chain_texts(nodes@)),
        pairs_view(c.sources@) == sources_of(chain_texts(nodes@)),
{
    let mut members: Vec<(String, String)> = Vec::new();
    let mut sources: Vec<(String, String)> = Vec::new();
    proof {
        assert(pairs_view(members@) =~= members_of(Seq::<ChainNode>::empty()));
        assert(pairs_view(sources@) =~= sources_of(Seq::<ChainNode>::empty()));
    }
    collect_into(nodes, &mut members, &mut sources, Ghost(Seq::empty()));
    proof {
        assert(Seq::<ChainNode>::empty() + chain_texts(nodes@) =~= chain_texts(nodes@));
    }
    ChainCollection { members, sources }
}

#[verifier::loop_isolation(false)]
fn collect_into(
    nodes: &Vec<ChainNode>,
    members: &mut Vec<(String, String)>,
    sources: &mut Vec<(String, String)>,
    Ghost(before): Ghost<Seq<ChainNode>>,
)
    requires
        pairs_view(old(members)@) == members_of(before),
        pairs_view(old(sources)@) == sources_of(before),
    ensures
        pairs_view(final(members)@) == members_of(before + chain_texts(nodes@)),
        pairs_view(final(sources)@) == sources_of(before + chain_texts(nodes@)),
    decreases nodes,
{
    let n = nodes.len();
    let mut i: usize = 0;
    proof {
        assert(nodes@.take(0) =~= Seq::<ChainNode>::empty());
        assert(before + chain_texts(Seq::<ChainNode>::empty()) =~= before);
    }
    while i < n
        invariant
            n == nodes@.len(),
            i <= n,
            pairs_view(members@) == members_of(before + chain_texts(nodes@.take(i as int))),
            pairs_view(sources@) == sources_of(before + chain_texts(nodes@.take(i as int))),
        decreases n - i,
    {
        let node = &nodes[i];
        let ghost acc = before + chain_texts(nodes@.take(i as int));
        proof {
            assert(nodes@.take(i + 1).drop_last() =~= nodes@.take(i as int));
            assert(nodes@.take(i + 1).last() == nodes@[i as int]);
            assert(chain_texts(nodes@.take(i + 1)) == chain_texts(nodes@.take(i as int))
                + chain_texts_of(nodes@[i as int]));
            assert(before + chain_texts(nodes@.take(i + 1)) =~= acc + chain_texts_of(
                nodes@[i as int],
            ));
        }
        match node.kind {
            NodeKind::Text => {
                match &node.chain {
                    Some(chain_id) => {
                        let ghost ext = acc.push(*node);
                        proof {
                            assert(chain_texts_of(*node) =~= seq![*node]);
                            assert(acc + seq![*node] =~= ext);
                            assert(ext.drop_last() =~= acc);
                            assert(ext.last() == *node);
                        }
                        if node.has_spans {
                            let present = has_source_for(sources, chain_id.as_str());
                            proof {
                                lemma_sources_invariant(acc);
                                let sv = pairs_view(sources@);
                                if present {
                                    let k = choose|k: int|
                                        0 <= k < sources@.len() && #[trigger] sources@[k].0@
                                            == chain_id@;
                                    assert(sv[k].0 == chain_id@);
                                } else {
                                    assert forall|k: int| 0 <= k < sv.len() implies #[trigger] sv[k].0
                                        != chain_id@ by {
                                        assert(sources@[k].0@ != chain_id@);
                                    }
                                }
                            }
                            if !present {
                                sources.push((chain_id.clone(), node.id.clone()));
                                proof {
                                    assert(pairs_view(sources@) =~= sources_of(acc).push(
                                        member_entry(*node),
                                    ));
                                }
                            }
                        }
                        if node.has_box {
                            members.push((chain_id.clone(), node.id.clone()));
                            proof {
                                assert(pairs_view(members@) =~= members_of(acc).push(
                                    member_entry(*node),
                                ));
                            }
                        }
                    },
                    None => {
                        proof {
                            assert(acc + chain_texts_of(*node) =~= acc);
                        }
                    },
                }
            },
            NodeKind::Frame | NodeKind::Group | NodeKind::Table => {
                proof {
                    vstd::std_specs::vec::axiom_vec_index_decreases(*nodes, i as int);
                    assert(decreases_to!(*nodes => nodes@[i as int]));
                    assert(decreases_to!(nodes@[i as int] => nodes@[i as int].children));
                }
                collect_into(&node.children, members, sources, Ghost(acc));
                proof {
                    assert(acc + chain_texts(node.children@) =~= acc + chain_texts_of(*node));
                }
            },
            _ => {
                proof {
                    assert(acc + chain_texts_of(*node) =~= acc);
                }
            },
        }
        i = i + 1;
    }
    proof {
        assert(nodes@.take(n as int) =~= nodes@);
    }
}

} // verus!
