//! Cycles in a dependency graph.
//!
//! A graph maps each defined name to the set of names that it reads. It has a
//! cycle when some name reads itself through one or more steps.
use crate::names::{lemma_slot, names_of, slot, NameMap, NameSet};
use vstd::prelude::*;

verus! {

/// A dependency graph as contracts see it.
pub type Graph = Map<Seq<char>, Set<Seq<char>>>;

/// `a` reads `b`.
pub open spec fn reads(g: Graph, a: Seq<char>, b: Seq<char>) -> bool {
    g.contains_key(a) && g[a].contains(b)
}

/// The `i`-th name of `p` reads the next one.
pub open spec fn link(g: Graph, p: Seq<Seq<char>>, i: int) -> bool {
    reads(g, p[i], p[i + 1])
}

/// Each name of `p` reads the next one.
pub open spec fn is_walk(g: Graph, p: Seq<Seq<char>>) -> bool {
    forall|i: int| 0 <= i < p.len() - 1 ==> #[trigger] link(g, p, i)
}

/// `p` leads from a name back to it through at least one step.
pub open spec fn is_cycle(g: Graph, p: Seq<Seq<char>>) -> bool {
    &&& p.len() >= 2
    &&& p.first() == p.last()
    &&& is_walk(g, p)
}

/// Some name of the graph reads itself through one or more steps.
pub open spec fn cyclic(g: Graph) -> bool {
    exists|p: Seq<Seq<char>>| is_cycle(g, p)
}

/// Whatever a name of `d` reads is in `d` too.
pub open spec fn closed(g: Graph, d: Set<Seq<char>>) -> bool {
    forall|a: Seq<char>, b: Seq<char>| d.contains(a) && #[trigger] reads(g, a, b) ==> d.contains(b)
}

/// No cycle starts at a name of `d`.
pub open spec fn cycle_free(g: Graph, d: Set<Seq<char>>) -> bool {
    forall|p: Seq<Seq<char>>| #[trigger] is_cycle(g, p) ==> !d.contains(p[0])
}

/// A walk that starts in a closed set stays in it.
pub proof fn lemma_walk_stays(g: Graph, d: Set<Seq<char>>, p: Seq<Seq<char>>, i: int)
    requires
        closed(g, d),
        is_walk(g, p),
        0 <= i < p.len(),
        d.contains(p[0]),
    ensures
        d.contains(p[i]),
    decreases i,
{
    if i > 0 {
        lemma_walk_stays(g, d, p, i - 1);
        assert(link(g, p, i - 1));
    }
}

/// A closed set from which no cycle starts can take in a name all of whose
/// reads it holds already.
pub proof fn lemma_settle(g: Graph, d: Set<Seq<char>>, x: Seq<char>)
    requires
        closed(g, d),
        cycle_free(g, d),
        forall|b: Seq<char>| #[trigger] reads(g, x, b) ==> d.contains(b),
    ensures
        closed(g, d.insert(x)),
        cycle_free(g, d.insert(x)),
{
    let d2 = d.insert(x);
    assert forall|p: Seq<Seq<char>>| #[trigger] is_cycle(g, p) implies !d2.contains(p[0]) by {
        if d2.contains(p[0]) {
            if d.contains(p[0]) {
                assert(false);
            } else {
                assert(p[0] == x);
                assert(link(g, p, 0));
                let q = p.subrange(1, p.len() as int);
                assert(d.contains(q[0]));
                assert forall|i: int| 0 <= i < q.len() - 1 implies #[trigger] link(g, q, i) by {
                    assert(link(g, p, i + 1));
                }
                lemma_walk_stays(g, d, q, q.len() - 1);
                assert(q[q.len() - 1] == p.last());
                assert(false);
            }
        }
    }
}

/// A graph has no cycle if no cycle starts at any of its keys.
pub proof fn lemma_acyclic(g: Graph, d: Set<Seq<char>>)
    requires
        cycle_free(g, d),
        forall|a: Seq<char>| g.contains_key(a) ==> d.contains(a),
    ensures
        !cyclic(g),
{
    if cyclic(g) {
        let p = choose|p: Seq<Seq<char>>| is_cycle(g, p);
        assert(link(g, p, 0));
        assert(d.contains(p[0]));
    }
}

/// The graph without entries has no cycle.
pub proof fn lemma_empty_acyclic()
    ensures
        !cyclic(Map::<Seq<char>, Set<Seq<char>>>::empty()),
{
    let g = Map::<Seq<char>, Set<Seq<char>>>::empty();
    if cyclic(g) {
        let p = choose|p: Seq<Seq<char>>| is_cycle(g, p);
        assert(link(g, p, 0));
    }
}

/// The dependency graph: for each defined name, the set of names it reads.
pub type DependencyGraph = NameMap<NameSet>;

/// How far the search has come with a key.
#[derive(Debug, Clone, Copy, PartialEq, Eq, Structural)]
pub enum Mark {
    /// Not reached yet.
    Fresh,
    /// On the path from the root of the search to the key in hand.
    OnPath,
    /// All that the key reads has been searched.
    Done,
}

/// The number of keys not reached yet.
pub open spec fn untouched(s: Seq<Mark>) -> nat
    decreases s.len(),
{
    if s.len() == 0 {
        0
    } else {
        untouched(s.drop_last()) + if s.last() == Mark::Fresh {
            1nat
        } else {
            0nat
        }
    }
}

/// What a change of one mark does to the number of keys not reached yet.
pub proof fn lemma_untouched_update(s: Seq<Mark>, i: int, v: Mark)
    requires
        0 <= i < s.len(),
    ensures
        untouched(s.update(i, v)) + (if s[i] == Mark::Fresh {
            1nat
        } else {
            0nat
        }) == untouched(s) + (if v == Mark::Fresh {
            1nat
        } else {
            0nat
        }),
    decreases s.len(),
{
    let t = s.update(i, v);
    if i == s.len() - 1 {
        assert(t.drop_last() =~= s.drop_last());
    } else {
        lemma_untouched_update(s.drop_last(), i, v);
        assert(t.drop_last() =~= s.drop_last().update(i, v));
    }
}

/// The names that the search has settled: those that are no key of the
/// graph, and the keys that are done.
pub open spec fn settled(keys: Seq<Seq<char>>, marks: Seq<Mark>) -> Set<Seq<char>> {
    Set::new(|m: Seq<char>| !keys.contains(m) || marks[slot(keys, m)] == Mark::Done)
}

/// The state of the search is sound: every key has a mark, the settled names
/// are closed under reading, and no cycle starts at one of them.
pub open spec fn sound(graph: &DependencyGraph, marks: Seq<Mark>) -> bool {
    &&& graph.wf()
    &&& marks.len() == graph.keys@.len()
    &&& closed(graph@, settled(names_of(graph.keys@), marks))
    &&& cycle_free(graph@, settled(names_of(graph.keys@), marks))
}

/// The keys marked as on the path are those on `path`.
pub open spec fn on_path(keys: Seq<Seq<char>>, marks: Seq<Mark>, path: Seq<Seq<char>>) -> bool {
    forall|j: int|
        0 <= j < keys.len() ==> (marks[j] == Mark::OnPath <==> path.contains(#[trigger] keys[j]))
}

/// Searches the graph from the key at `node`, depth first, for a cycle.
///
/// Returns `false` when a key reads one that is on the path from the root of
/// the search to it.
pub(crate) fn visit(
    graph: &DependencyGraph,
    node: usize,
    marks: &mut Vec<Mark>,
    Ghost(path): Ghost<Seq<Seq<char>>>,
) -> (ok: bool)
    requires
        sound(graph, old(marks)@),
        node < graph.keys@.len(),
        old(marks)@[node as int] == Mark::Fresh,
        is_walk(graph@, path),
        path.len() > 0,
        path.last() == graph.keys@[node as int]@,
        on_path(names_of(graph.keys@), old(marks)@, path.drop_last()),
    ensures
        !ok ==> cyclic(graph@),
        ok ==> sound(graph, final(marks)@),
        ok ==> final(marks)@[node as int] == Mark::Done,
        ok ==> on_path(names_of(graph.keys@), final(marks)@, path.drop_last()),
        ok ==> forall|j: int|
            0 <= j < old(marks)@.len() && old(marks)@[j] == Mark::Done ==> final(marks)@[j]
                == Mark::Done,
        ok ==> untouched(final(marks)@) < untouched(old(marks)@),
    decreases untouched(old(marks)@),
{
    let ghost g = graph@;
    let ghost keys = names_of(graph.keys@);
    let ghost me = graph.keys@[node as int]@;
    proof {
        lemma_untouched_update(marks@, node as int, Mark::OnPath);
        graph.lemma_entry(node as int);
        lemma_slot(keys, node as int);
    }
    marks.set(node, Mark::OnPath);
    proof {
        assert(settled(keys, marks@) =~= settled(keys, old(marks)@)) by {
            assert forall|m: Seq<char>| keys.contains(m) implies (marks@[slot(keys, m)]
                == Mark::Done <==> old(marks)@[slot(keys, m)] == Mark::Done) by {}
        }
        assert forall|j: int| 0 <= j < keys.len() implies (marks@[j] == Mark::OnPath
            <==> path.contains(#[trigger] keys[j])) by {
            lemma_slot(keys, j);
            if j == node {
                assert(path[path.len() - 1] == keys[j]);
            } else {
                if path.contains(keys[j]) {
                    let k = choose|k: int| 0 <= k < path.len() && path[k] == keys[j];
                    assert(k < path.len() - 1);
                    assert(path.drop_last()[k] == keys[j]);
                }
                if path.drop_last().contains(keys[j]) {
                    let k = choose|k: int|
                        0 <= k < path.drop_last().len() && path.drop_last()[k] == keys[j];
                    assert(path[k] == keys[j]);
                }
            }
        }
    }
    let succs = &graph.vals[node].names;
    let ghost theirs = names_of(succs@);
    let mut k: usize = 0;
    while k < succs.len()
        invariant
            k <= succs.len(),
            sound(graph, marks@),
            node < graph.keys@.len(),
            g == graph@,
            keys == names_of(graph.keys@),
            me == graph.keys@[node as int]@,
            succs == &graph.vals@[node as int].names,
            theirs == names_of(succs@),
            marks@[node as int] == Mark::OnPath,
            is_walk(g, path),
            path.len() > 0,
            path.last() == me,
            on_path(keys, marks@, path),
            old(marks)@.len() == graph.keys@.len(),
            forall|j: int|
                0 <= j < old(marks)@.len() && old(marks)@[j] == Mark::Done ==> marks@[j]
                    == Mark::Done,
            untouched(marks@) < untouched(old(marks)@),
            forall|i: int| 0 <= i < k ==> settled(keys, marks@).contains(#[trigger] theirs[i]),
        decreases succs.len() - k,
    {
        let ghost before = marks@;
        let ghost next = succs@[k as int]@;
        proof {
            graph.lemma_entry(node as int);
            assert(theirs[k as int] == next);
            assert(reads(g, me, next));
        }
        match graph.find(&succs[k]) {
            None => {},
            Some(j) => {
                proof {
                    lemma_slot(keys, j as int);
                }
                let mark = marks[j];
                if mark == Mark::OnPath {
                    proof {
                        let at = choose|at: int| 0 <= at < path.len() && path[at] == keys[j as int];
                        let c = path.subrange(at, path.len() as int).push(next);
                        assert forall|i: int| 0 <= i < c.len() - 1 implies #[trigger] link(
                            g,
                            c,
                            i,
                        ) by {
                            if i < c.len() - 2 {
                                assert(link(g, path, at + i));
                            }
                        }
                        assert(is_cycle(g, c));
                    }
                    return false;
                } else if mark == Mark::Fresh {
                    let ghost longer = path.push(next);
                    proof {
                        assert forall|i: int| 0 <= i < longer.len() - 1 implies #[trigger] link(
                            g,
                            longer,
                            i,
                        ) by {
                            if i < path.len() - 1 {
                                assert(link(g, path, i));
                            }
                        }
                        assert(longer.drop_last() =~= path);
                    }
                    if !visit(graph, j, marks, Ghost(longer)) {
                        return false;
                    }
                    proof {
                        assert(longer.drop_last() =~= path);
                        assert(keys[node as int] == me);
                        assert(path[path.len() - 1] == keys[node as int]);
                    }
                }
            },
        }
        proof {
            assert forall|i: int| 0 <= i < k + 1 implies settled(keys, marks@).contains(
                #[trigger] theirs[i],
            ) by {
                if i < k {
                    assert(settled(keys, before).contains(theirs[i]));
                    if keys.contains(theirs[i]) {
                        lemma_slot(keys, slot(keys, theirs[i]));
                    }
                }
            }
        }
        k += 1;
    }
    let ghost before = marks@;
    proof {
        lemma_untouched_update(marks@, node as int, Mark::Done);
    }
    marks.set(node, Mark::Done);
    proof {
        let d = settled(keys, before);
        assert forall|b: Seq<char>| #[trigger] reads(g, me, b) implies d.contains(b) by {
            graph.lemma_entry(node as int);
            assert(theirs.contains(b));
            let i = choose|i: int| 0 <= i < theirs.len() && theirs[i] == b;
            assert(d.contains(theirs[i]));
        }
        lemma_settle(g, d, me);
        assert(settled(keys, marks@) =~= d.insert(me)) by {
            assert forall|m: Seq<char>| settled(keys, marks@).contains(m) <==> d.insert(
                me,
            ).contains(m) by {
                if keys.contains(m) {
                    lemma_slot(keys, slot(keys, m));
                }
            }
        }
        assert forall|j: int| 0 <= j < keys.len() implies (marks@[j] == Mark::OnPath
            <==> path.drop_last().contains(#[trigger] keys[j])) by {
            lemma_slot(keys, j);
            if j != node {
                if path.contains(keys[j]) {
                    let a = choose|a: int| 0 <= a < path.len() && path[a] == keys[j];
                    assert(a < path.len() - 1);
                    assert(path.drop_last()[a] == keys[j]);
                }
                if path.drop_last().contains(keys[j]) {
                    let a = choose|a: int|
                        0 <= a < path.drop_last().len() && path.drop_last()[a] == keys[j];
                    assert(path[a] == keys[j]);
                }
            } else {
                assert(old(marks)@[j] == Mark::Fresh);
            }
        }
    }
    true
}

} // verus!
