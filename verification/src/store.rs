//! The model of the two underlying stores.
//!
//! The content store holds immutable nodes, deduplicated by content: storing
//! a node whose components are identical to one already present yields the
//! existing identifier, so identifiers are a deterministic function of
//! content. The reference store is a map from names to node identifiers whose
//! only mutating primitives are an atomic compare-and-swap, a delete, and a
//! rename; the compare-and-swap is the sole serialization point of the whole
//! system.

use vstd::prelude::*;
use crate::node::{ChainNode, NodeView};
use crate::text::str_eq;

verus! {

/// The binding of `name` among `pairs`, if any (the last one governs).
pub open spec fn lookup(pairs: Seq<(String, usize)>, name: Seq<char>) -> Option<usize>
    decreases pairs.len(),
{
    if pairs.len() == 0 {
        None
    } else if pairs.last().0@ == name {
        Some(pairs.last().1)
    } else {
        lookup(pairs.drop_last(), name)
    }
}

/// No two entries bind the same name.
pub open spec fn names_unique(pairs: Seq<(String, usize)>) -> bool {
    forall|i: int, j: int|
        0 <= i < j < pairs.len() ==> (#[trigger] pairs[i]).0@ != (#[trigger] pairs[j]).0@
}

/// Every binding targets one of the first `n` nodes.
pub open spec fn targets_below(pairs: Seq<(String, usize)>, n: int) -> bool {
    forall|i: int| 0 <= i < pairs.len() ==> (#[trigger] pairs[i]).1 < n
}

/// A binding found by `lookup` is one of the entries.
pub proof fn lemma_lookup_entry(pairs: Seq<(String, usize)>, name: Seq<char>)
    requires
        lookup(pairs, name) is Some,
    ensures
        exists|i: int|
            0 <= i < pairs.len() && (#[trigger] pairs[i]).0@ == name && pairs[i].1 == lookup(
                pairs,
                name,
            )->0,
    decreases pairs.len(),
{
    if pairs.last().0@ == name {
        assert(pairs[pairs.len() - 1].0@ == name);
    } else {
        lemma_lookup_entry(pairs.drop_last(), name);
        let i = choose|i: int|
            0 <= i < pairs.drop_last().len() && (#[trigger] pairs.drop_last()[i]).0@ == name
                && pairs.drop_last()[i].1 == lookup(pairs.drop_last(), name)->0;
        assert(pairs[i].0@ == name && pairs[i].1 == lookup(pairs, name)->0);
    }
}

/// `lookup` misses exactly when no entry binds the name.
pub proof fn lemma_lookup_none(pairs: Seq<(String, usize)>, name: Seq<char>)
    ensures
        (lookup(pairs, name) is None) <==> (forall|i: int|
            0 <= i < pairs.len() ==> (#[trigger] pairs[i]).0@ != name),
    decreases pairs.len(),
{
    if pairs.len() == 0 {
    } else {
        lemma_lookup_none(pairs.drop_last(), name);
        if lookup(pairs, name) is None {
            assert forall|i: int| 0 <= i < pairs.len() implies (#[trigger] pairs[i]).0@
                != name by {
                if i < pairs.len() - 1 {
                    assert(pairs.drop_last()[i].0@ != name);
                }
            }
        } else {
            if pairs.last().0@ == name {
                assert(pairs[pairs.len() - 1].0@ == name);
            } else {
                let i = choose|i: int|
                    0 <= i < pairs.drop_last().len() && (#[trigger] pairs.drop_last()[i]).0@
                        == name;
                assert(pairs[i].0@ == name);
            }
        }
    }
}

/// Appending a binding shadows nothing but its own name.
pub proof fn lemma_lookup_push(pairs: Seq<(String, usize)>, entry: (String, usize), name: Seq<char>)
    ensures
        lookup(pairs.push(entry), name) == (if entry.0@ == name {
            Some(entry.1)
        } else {
            lookup(pairs, name)
        }),
{
    assert(pairs.push(entry).drop_last() =~= pairs);
}

/// Removing the entry at `k` unbinds its name and nothing else.
pub proof fn lemma_lookup_remove(pairs: Seq<(String, usize)>, k: int, name: Seq<char>)
    requires
        0 <= k < pairs.len(),
        names_unique(pairs),
    ensures
        lookup(pairs.remove(k), name) == (if pairs[k].0@ == name {
            None::<usize>
        } else {
            lookup(pairs, name)
        }),
        names_unique(pairs.remove(k)),
    decreases pairs.len(),
{
    let removed = pairs.remove(k);
    assert forall|i: int, j: int| 0 <= i < j < removed.len() implies (#[trigger] removed[i]).0@
        != (#[trigger] removed[j]).0@ by {
        let i0 = if i < k { i } else { i + 1 };
        let j0 = if j < k { j } else { j + 1 };
        assert(removed[i] == pairs[i0] && removed[j] == pairs[j0]);
    }
    if k == pairs.len() - 1 {
        assert(removed =~= pairs.drop_last());
        if pairs[k].0@ == name {
            lemma_lookup_none(pairs.drop_last(), name);
            assert forall|i: int| 0 <= i < pairs.drop_last().len() implies (#[trigger] pairs.drop_last()[i]).0@
                != name by {
                assert(pairs[i].0@ != pairs[k].0@);
            }
        }
    } else {
        assert(removed.last() == pairs.last());
        assert(removed.drop_last() =~= pairs.drop_last().remove(k));
        assert(names_unique(pairs.drop_last()));
        lemma_lookup_remove(pairs.drop_last(), k, name);
    }
}

/// A fresh binding keeps the names unique.
pub proof fn lemma_unique_push(pairs: Seq<(String, usize)>, entry: (String, usize))
    requires
        names_unique(pairs),
        lookup(pairs, entry.0@) is None,
    ensures
        names_unique(pairs.push(entry)),
{
    lemma_lookup_none(pairs, entry.0@);
    let pushed = pairs.push(entry);
    assert forall|i: int, j: int| 0 <= i < j < pushed.len() implies (#[trigger] pushed[i]).0@
        != (#[trigger] pushed[j]).0@ by {
        if j < pairs.len() {
            assert(pushed[i] == pairs[i] && pushed[j] == pairs[j]);
        } else {
            assert(pushed[i] == pairs[i] && pushed[j] == entry);
        }
    }
}

/// Finds the index of the binding of `name`, if there is one.
pub(crate) fn find_binding(pairs: &Vec<(String, usize)>, name: &str) -> (r: Option<usize>)
    ensures
        match r {
            Some(k) => k < pairs@.len() && pairs@[k as int].0@ == name@ && lookup(pairs@, name@)
                == Some(pairs@[k as int].1),
            None => lookup(pairs@, name@) is None,
        },
{
    let mut i: usize = pairs.len();
    proof {
        assert(pairs@.take(i as int) =~= pairs@);
    }
    while i > 0
        invariant
            i <= pairs@.len(),
            lookup(pairs@, name@) == lookup(pairs@.take(i as int), name@),
        decreases i,
    {
        let k = i - 1;
        proof {
            assert(pairs@.take(i as int).drop_last() =~= pairs@.take(k as int));
            assert(pairs@.take(i as int).last() == pairs@[k as int]);
        }
        if str_eq(pairs[k].0.as_str(), name) {
            return Some(k);
        }
        i = k;
    }
    proof {
        assert(pairs@.take(0) =~= Seq::<(String, usize)>::empty());
    }
    None
}

/// Reads the current target of `name`: `None` means the pointer is absent.
pub(crate) fn read_ref(pairs: &Vec<(String, usize)>, name: &str) -> (r: Option<usize>)
    ensures
        r == lookup(pairs@, name@),
{
    match find_binding(pairs, name) {
        Some(k) => Some(pairs[k].1),
        None => None,
    }
}

/// Atomically replaces the target of `name` with `new_id`, but only if its
/// current target (or absence) equals `expected`; otherwise reports a
/// conflict and mutates nothing.
pub(crate) fn cas_ref(
    pairs: &mut Vec<(String, usize)>,
    name: &str,
    expected: Option<usize>,
    new_id: usize,
) -> (r: Result<(), ()>)
    requires
        names_unique(old(pairs)@),
    ensures
        names_unique(final(pairs)@),
        r is Ok <==> lookup(old(pairs)@, name@) == expected,
        r is Ok ==> lookup(final(pairs)@, name@) == Some(new_id) && (forall|n: Seq<char>|
            n != name@ ==> lookup(final(pairs)@, n) == lookup(old(pairs)@, n)),
        r is Err ==> final(pairs)@ == old(pairs)@,
        forall|m: int|
            targets_below(old(pairs)@, m) && new_id < m ==> #[trigger] targets_below(
                final(pairs)@,
                m,
            ),
{
    let found = find_binding(pairs, name);
    match (found, expected) {
        (Some(k), Some(e)) => {
            if pairs[k].1 == e {
                let ghost pre = pairs@;
                proof {
                    lemma_lookup_remove(pre, k as int, name@);
                }
                let _ = pairs.remove(k);
                let ghost mid = pairs@;
                let entry = (name.to_owned(), new_id);
                let ghost ge = entry;
                proof {
                    lemma_unique_push(mid, ge);
                    lemma_lookup_push(mid, ge, name@);
                }
                pairs.push(entry);
                proof {
                    assert forall|n: Seq<char>| n != name@ implies lookup(pairs@, n) == lookup(
                        pre,
                        n,
                    ) by {
                        lemma_lookup_remove(pre, k as int, n);
                        lemma_lookup_push(mid, ge, n);
                    }
                }
                Ok(())
            } else {
                Err(())
            }
        },
        (None, None) => {
            let ghost pre = pairs@;
            let entry = (name.to_owned(), new_id);
            let ghost ge = entry;
            proof {
                lemma_unique_push(pre, ge);
                lemma_lookup_push(pre, ge, name@);
            }
            pairs.push(entry);
            proof {
                assert forall|n: Seq<char>| n != name@ implies lookup(pairs@, n) == lookup(
                    pre,
                    n,
                ) by {
                    lemma_lookup_push(pre, ge, n);
                }
            }
            Ok(())
        },
        _ => Err(()),
    }
}

/// Unbinds `name`; reports whether a binding was there to delete.
pub(crate) fn delete_ref(pairs: &mut Vec<(String, usize)>, name: &str) -> (r: bool)
    requires
        names_unique(old(pairs)@),
    ensures
        names_unique(final(pairs)@),
        r == (lookup(old(pairs)@, name@) is Some),
        lookup(final(pairs)@, name@) is None,
        forall|n: Seq<char>| n != name@ ==> lookup(final(pairs)@, n) == lookup(old(pairs)@, n),
        forall|m: int|
            targets_below(old(pairs)@, m) ==> #[trigger] targets_below(final(pairs)@, m),
{
    match find_binding(pairs, name) {
        Some(k) => {
            let ghost pre = pairs@;
            proof {
                lemma_lookup_remove(pre, k as int, name@);
            }
            let _ = pairs.remove(k);
            proof {
                assert forall|n: Seq<char>| n != name@ implies lookup(pairs@, n) == lookup(
                    pre,
                    n,
                ) by {
                    lemma_lookup_remove(pre, k as int, n);
                }
            }
            true
        },
        None => false,
    }
}

/// The in-memory realization of the two stores: an append-only, content-
/// deduplicated node table, and one name-to-identifier binding table per
/// namespace (live and archive).
pub struct MemStore {
    /// The stored nodes; a node's identifier is its index.
    pub nodes: Vec<ChainNode>,
    /// The live head pointers, keyed by category name.
    pub live: Vec<(String, usize)>,
    /// The archived head pointers, keyed by category name.
    pub archive: Vec<(String, usize)>,
}

/// Every stored node's parent precedes it.
pub open spec fn parents_before(nodes: Seq<NodeView>, i: int) -> bool {
    nodes[i].parent matches Some(p) ==> 0 <= p < i
}

/// No two stored nodes have the same content.
pub open spec fn nodes_distinct(nodes: Seq<NodeView>) -> bool {
    forall|i: int, j: int|
        0 <= i < j < nodes.len() ==> #[trigger] nodes[i] != #[trigger] nodes[j]
}

impl MemStore {
    /// The stored node contents, by identifier.
    pub open spec fn nodes_view(self) -> Seq<NodeView> {
        self.nodes@.map(|i: int, n: ChainNode| n@)
    }

    /// The live head of `name`, if the category exists.
    pub open spec fn live_head(self, name: Seq<char>) -> Option<usize> {
        lookup(self.live@, name)
    }

    /// The archived head of `name`, if an archive exists.
    pub open spec fn archive_head(self, name: Seq<char>) -> Option<usize> {
        lookup(self.archive@, name)
    }

    /// The store invariant: parents precede their children (chains are
    /// acyclic), content is deduplicated, names bind at most once, and every
    /// pointer targets a stored node.
    pub open spec fn wf(self) -> bool {
        &&& forall|i: int|
            0 <= i < self.nodes_view().len() ==> #[trigger] parents_before(self.nodes_view(), i)
        &&& nodes_distinct(self.nodes_view())
        &&& names_unique(self.live@)
        &&& names_unique(self.archive@)
        &&& targets_below(self.live@, self.nodes@.len() as int)
        &&& targets_below(self.archive@, self.nodes@.len() as int)
    }

    /// An empty store: no nodes, no pointers.
    pub fn new() -> (s: MemStore)
        ensures
            s.wf(),
            s.nodes_view().len() == 0,
            s.live@.len() == 0,
            s.archive@.len() == 0,
    {
        MemStore { nodes: Vec::new(), live: Vec::new(), archive: Vec::new() }
    }

    /// Stores a node and returns its identifier. Idempotent: content already
    /// present is not stored again, and the identifier returned is the one
    /// and only identifier of that content.
    pub fn put(&mut self, node: ChainNode) -> (id: usize)
        requires
            old(self).wf(),
            node.parent matches Some(p) ==> p < old(self).nodes@.len(),
        ensures
            final(self).wf(),
            final(self).live == old(self).live,
            final(self).archive == old(self).archive,
            id < final(self).nodes_view().len(),
            final(self).nodes_view()[id as int] == node@,
            old(self).nodes_view().is_prefix_of(final(self).nodes_view()),
            final(self).nodes_view().len() <= old(self).nodes_view().len() + 1,
            forall|k: int|
                0 <= k < final(self).nodes_view().len() && final(self).nodes_view()[k] == node@
                    ==> k == id,
            (exists|k: int|
                0 <= k < old(self).nodes_view().len() && old(self).nodes_view()[k] == node@)
                ==> final(self).nodes_view() == old(self).nodes_view(),
    {
        let n = self.nodes.len();
        let mut i: usize = 0;
        while i < n
            invariant
                *self == *old(self),
                old(self).wf(),
                node.parent matches Some(p) ==> p < old(self).nodes@.len(),
                n == self.nodes@.len(),
                i <= n,
                forall|j: int| 0 <= j < i ==> self.nodes_view()[j] != node@,
            decreases n - i,
        {
            if self.nodes[i].same_content(&node) {
                proof {
                    assert(self.nodes_view()[i as int] == node@);
                    assert forall|k: int|
                        0 <= k < self.nodes_view().len() && self.nodes_view()[k] == node@
                            implies k == i as int by {
                        if k < i as int {
                        } else if k > i as int {
                            assert(self.nodes_view()[i as int] != self.nodes_view()[k]);
                        }
                    }
                    assert(self.nodes_view().is_prefix_of(self.nodes_view()));
                }
                return i;
            }
            i = i + 1;
        }
        let ghost pre = self.nodes_view();
        self.nodes.push(node);
        proof {
            assert(self.nodes_view() =~= pre.push(node@));
            assert(pre.is_prefix_of(self.nodes_view()));
            assert forall|k: int|
                0 <= k < self.nodes_view().len() implies #[trigger] parents_before(
                self.nodes_view(),
                k,
            ) by {
                if k < pre.len() {
                    assert(parents_before(pre, k));
                    assert(self.nodes_view()[k] == pre[k]);
                }
            }
            assert forall|i2: int, j2: int|
                0 <= i2 < j2 < self.nodes_view().len() implies #[trigger] self.nodes_view()[i2]
                != #[trigger] self.nodes_view()[j2] by {
                if j2 < pre.len() {
                    assert(pre[i2] != pre[j2]);
                } else {
                    assert(self.nodes_view()[j2] == node@);
                    assert(pre[i2] != node@);
                }
            }
        }
        n
    }
}

} // verus!
