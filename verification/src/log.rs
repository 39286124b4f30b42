//! The per-category log operations over a store: `append`, `read_all`,
//! `amend_latest`, `archive`, and `remove`, together with the laws of the
//! chain they maintain.
//!
//! A category's history is the chain of nodes reached from its head pointer
//! by following parent links; `read_all` reports it oldest first. `append` is
//! the only operation that extends a chain; it reads the head, stores a node
//! whose parent is exactly that head, and publishes it with one atomic
//! compare-and-swap on the pointer.

use vstd::prelude::*;
use crate::category::{valid_category, validate_category};
use crate::errors::MemoError;
use crate::identity::{opt_view, resolve_identity, spec_present, spec_resolve_email};
use crate::node::{ChainNode, NodeView, Timestamp};
use crate::store::{
    cas_ref, delete_ref, lemma_lookup_entry, read_ref, MemStore, parents_before, targets_below,
};
use crate::text::{first_line, spec_first_line};
use vstd::pervasive::unreached;

verus! {

/// The identifiers of the chain ending at node `h`, oldest first.
pub open spec fn chain_ids(nodes: Seq<NodeView>, h: int) -> Seq<int>
    decreases h,
{
    if 0 <= h < nodes.len() {
        match nodes[h].parent {
            Some(p) => if 0 <= p < h {
                chain_ids(nodes, p).push(h)
            } else {
                seq![h]
            },
            None => seq![h],
        }
    } else {
        Seq::empty()
    }
}

/// The history reached from an optional head: empty when the pointer is
/// absent.
pub open spec fn chain_of(nodes: Seq<NodeView>, head: Option<usize>) -> Seq<int> {
    match head {
        Some(h) => chain_ids(nodes, h as int),
        None => Seq::empty(),
    }
}

/// A chain's identifiers are strictly increasing and end at its head: the
/// head is the newest node, every link leads strictly into the past, and no
/// record appears twice.
pub proof fn lemma_chain_ids_increasing(nodes: Seq<NodeView>, h: int)
    requires
        0 <= h < nodes.len(),
        forall|i: int| 0 <= i < nodes.len() ==> #[trigger] parents_before(nodes, i),
    ensures
        chain_ids(nodes, h).len() >= 1,
        chain_ids(nodes, h).last() == h,
        forall|a: int, b: int|
            0 <= a < b < chain_ids(nodes, h).len() ==> #[trigger] chain_ids(nodes, h)[a]
                < #[trigger] chain_ids(nodes, h)[b],
        forall|a: int|
            0 <= a < chain_ids(nodes, h).len() ==> 0 <= #[trigger] chain_ids(nodes, h)[a] <= h,
    decreases h,
{
    assert(parents_before(nodes, h));
    let c = chain_ids(nodes, h);
    match nodes[h].parent {
        Some(p) => {
            lemma_chain_ids_increasing(nodes, p);
            let pc = chain_ids(nodes, p);
            assert forall|a: int, b: int| 0 <= a < b < c.len() implies #[trigger] c[a]
                < #[trigger] c[b] by {
                if b < pc.len() {
                    assert(pc[a] < pc[b]);
                } else {
                    assert(c[b] == h);
                    if a < pc.len() {
                        assert(pc[a] <= p);
                    }
                }
            }
        },
        None => {},
    }
}

/// A chain never looks past its head, so extending the store with newer
/// nodes leaves every existing history as it was.
pub proof fn lemma_chain_ids_prefix(nodes1: Seq<NodeView>, nodes2: Seq<NodeView>, h: int)
    requires
        nodes1.is_prefix_of(nodes2),
        0 <= h < nodes1.len(),
    ensures
        chain_ids(nodes2, h) == chain_ids(nodes1, h),
    decreases h,
{
    assert(nodes2[h] == nodes1[h]);
    match nodes1[h].parent {
        Some(p) => {
            if 0 <= p < h {
                lemma_chain_ids_prefix(nodes1, nodes2, p);
            }
        },
        None => {},
    }
}

/// Law: identifiers are content-addressed. Two stored nodes with identical
/// content are one and the same node.
pub proof fn lemma_content_addressed(s: MemStore, i: int, j: int)
    requires
        s.wf(),
        0 <= i < s.nodes_view().len(),
        0 <= j < s.nodes_view().len(),
        s.nodes_view()[i] == s.nodes_view()[j],
    ensures
        i == j,
{
    if i < j {
        assert(s.nodes_view()[i] != s.nodes_view()[j]);
    } else if j < i {
        assert(s.nodes_view()[j] != s.nodes_view()[i]);
    }
}

/// The shape of a successful append, as `MemStore::append` ensures it: the
/// store grew by at most the one node, the published node's parent is the
/// head that was read, and the pointer now designates the published node.
pub open spec fn append_shape(pre: MemStore, post: MemStore, name: Seq<char>, id: usize) -> bool {
    &&& pre.wf()
    &&& post.wf()
    &&& pre.nodes_view().is_prefix_of(post.nodes_view())
    &&& id < post.nodes_view().len()
    &&& post.nodes_view()[id as int].parent == (match pre.live_head(name) {
        Some(p) => Some(p as int),
        None => None::<int>,
    })
    &&& post.live_head(name) == Some(id)
}

/// Law: a successful append extends the category's history by exactly one
/// record — the published node — and leaves every earlier record, and its
/// order, untouched (chain integrity).
pub proof fn lemma_append_extends_history(pre: MemStore, post: MemStore, name: Seq<char>, id: usize)
    requires
        append_shape(pre, post, name, id),
    ensures
        chain_of(post.nodes_view(), post.live_head(name)) == chain_of(
            pre.nodes_view(),
            pre.live_head(name),
        ).push(id as int),
{
    assert(parents_before(post.nodes_view(), id as int));
    match pre.live_head(name) {
        Some(p) => {
            lemma_lookup_entry(pre.live@, name);
            assert(p < pre.nodes@.len());
            assert(pre.nodes_view().len() == pre.nodes@.len());
            lemma_chain_ids_prefix(pre.nodes_view(), post.nodes_view(), p as int);
            assert(chain_ids(post.nodes_view(), id as int) == chain_ids(
                post.nodes_view(),
                p as int,
            ).push(id as int));
        },
        None => {
            assert(chain_ids(post.nodes_view(), id as int) =~= Seq::<int>::empty().push(
                id as int,
            ));
        },
    }
}

/// Law: the record a successful append publishes is new to its chain — it
/// did not appear in the category's history before, so no concurrent
/// writer's record is duplicated and none is lost.
pub proof fn lemma_append_head_is_new(pre: MemStore, post: MemStore, name: Seq<char>, id: usize)
    requires
        append_shape(pre, post, name, id),
    ensures
        !chain_of(pre.nodes_view(), pre.live_head(name)).contains(id as int),
        chain_of(post.nodes_view(), post.live_head(name)).len() == chain_of(
            pre.nodes_view(),
            pre.live_head(name),
        ).len() + 1,
{
    lemma_append_extends_history(pre, post, name, id);
    assert(parents_before(post.nodes_view(), id as int));
    match pre.live_head(name) {
        Some(p) => {
            lemma_lookup_entry(pre.live@, name);
            lemma_chain_ids_increasing(pre.nodes_view(), p as int);
            assert forall|a: int|
                0 <= a < chain_of(pre.nodes_view(), pre.live_head(name)).len() implies chain_of(
                pre.nodes_view(),
                pre.live_head(name),
            )[a] != id as int by {
                assert(chain_ids(pre.nodes_view(), p as int)[a] <= p as int);
                assert((p as int) < (id as int));
            }
        },
        None => {},
    }
}

/// Law: archiving moves a history wholesale. After an archive, the live
/// pointer reports no log at all, and the archive pointer reproduces exactly
/// the records that were live before.
pub proof fn lemma_archive_preserves_history(pre: MemStore, post: MemStore, name: Seq<char>)
    requires
        pre.wf(),
        post.wf(),
        post.nodes == pre.nodes,
        post.live_head(name) is None,
        post.archive_head(name) == pre.live_head(name),
    ensures
        chain_of(post.nodes_view(), post.live_head(name)) == Seq::<int>::empty(),
        chain_of(post.nodes_view(), post.archive_head(name)) == chain_of(
            pre.nodes_view(),
            pre.live_head(name),
        ),
{
}

/// Law: an append to a category whose pointer is absent — as after a remove
/// — starts a fresh chain: the new record has no parent, and the history is
/// that one record, whatever the deleted chain held.
pub proof fn lemma_fresh_chain(pre: MemStore, post: MemStore, name: Seq<char>, id: usize)
    requires
        append_shape(pre, post, name, id),
        pre.live_head(name) is None,
    ensures
        post.nodes_view()[id as int].parent is None,
        chain_of(post.nodes_view(), post.live_head(name)) == seq![id as int],
{
    lemma_append_extends_history(pre, post, name, id);
    assert(Seq::<int>::empty().push(id as int) =~= seq![id as int]);
}

/// Law: a category's history never repeats a record.
pub proof fn lemma_history_no_duplicates(s: MemStore, name: Seq<char>)
    requires
        s.wf(),
    ensures
        forall|a: int, b: int|
            0 <= a < b < chain_of(s.nodes_view(), s.live_head(name)).len()
                ==> #[trigger] chain_of(s.nodes_view(), s.live_head(name))[a]
                != #[trigger] chain_of(s.nodes_view(), s.live_head(name))[b],
{
    match s.live_head(name) {
        Some(h) => {
            lemma_lookup_entry(s.live@, name);
            lemma_chain_ids_increasing(s.nodes_view(), h as int);
        },
        None => {},
    }
}

impl MemStore {
    /// Appends a record to `category`'s log: reads the head, stores a node
    /// whose parent is that head, and publishes it by compare-and-swap. An
    /// invalid category and a missing author name are rejected before the
    /// store is touched in any way.
    pub fn append(
        &mut self,
        category: &str,
        payload: &str,
        author_name: Option<String>,
        author_email: Option<String>,
        timestamp: Timestamp,
    ) -> (r: Result<usize, MemoError>)
        requires
            old(self).wf(),
        ensures
            final(self).wf(),
            r is Ok <==> valid_category(category@) && spec_present(opt_view(author_name)),
            r matches Err(e) ==> e matches MemoError::InvalidCategory { category: c } ==> (c@
                == category@ && !valid_category(category@)),
            !valid_category(category@) ==> (r matches Err(e) && e is InvalidCategory
                && *final(self) == *old(self)),
            valid_category(category@) && !spec_present(opt_view(author_name)) ==> (r matches Err(e)
                && e is MissingIdentity && *final(self) == *old(self)),
            r matches Ok(id) ==> {
                &&& append_shape(*old(self), *final(self), category@, id)
                &&& final(self).nodes_view().len() <= old(self).nodes_view().len() + 1
                &&& final(self).nodes_view()[id as int] == (NodeView {
                    payload: payload@,
                    author_name: author_name->0@,
                    author_email: spec_resolve_email(opt_view(author_email)),
                    secs: timestamp.secs as int,
                    offset_min: timestamp.offset_min as int,
                    parent: match old(self).live_head(category@) {
                        Some(p) => Some(p as int),
                        None => None::<int>,
                    },
                })
                &&& forall|n: Seq<char>|
                    n != category@ ==> final(self).live_head(n) == old(self).live_head(n)
                &&& final(self).archive == old(self).archive
            },
    {
        if let Err(_) = validate_category(category) {
            return Err(MemoError::InvalidCategory { category: category.to_owned() });
        }
        let author = match resolve_identity(author_name, author_email) {
            Ok(a) => a,
            Err(e) => {
                return Err(e);
            },
        };
        let head = read_ref(&self.live, category);
        let node = ChainNode {
            payload: payload.to_owned(),
            author,
            timestamp,
            parent: head,
        };
        proof {
            if head matches Some(h) {
                lemma_lookup_entry(self.live@, category@);
            }
        }
        let id = self.put(node);
        let ghost mid = *self;
        match cas_ref(&mut self.live, category, head, id) {
            Ok(()) => {
                proof {
                    assert(targets_below(mid.live@, mid.nodes@.len() as int));
                    assert(targets_below(self.live@, self.nodes@.len() as int));
                }
                Ok(id)
            },
            Err(()) => unreached(),
        }
    }

    /// Walks the chain ending at `head` and reports it oldest first: each
    /// record's identifier with the first line of its payload.
    fn read_chain(&self, head: usize) -> (out: Vec<(usize, String)>)
        requires
            self.wf(),
            head < self.nodes_view().len(),
        ensures
            out@.len() == chain_ids(self.nodes_view(), head as int).len(),
            forall|b: int|
                0 <= b < out@.len() ==> (#[trigger] out@[b]).0 == chain_ids(
                    self.nodes_view(),
                    head as int,
                )[b] && out@[b].1@ == spec_first_line(
                    self.nodes_view()[chain_ids(self.nodes_view(), head as int)[b]].payload,
                ),
    {
        let ghost nodes = self.nodes_view();
        let ghost ids = chain_ids(nodes, head as int);
        proof {
            lemma_chain_ids_increasing(nodes, head as int);
            assert(ids.take(ids.len() as int) =~= ids);
        }
        let mut rev: Vec<usize> = Vec::new();
        let mut cur: usize = head;
        let mut more: bool = true;
        while more
            invariant
                self.wf(),
                nodes == self.nodes_view(),
                ids == chain_ids(nodes, head as int),
                rev@.len() <= ids.len(),
                more ==> cur < nodes.len(),
                more ==> rev@.len() < ids.len(),
                more ==> chain_ids(nodes, cur as int) == ids.take(ids.len() - rev@.len()),
                !more ==> rev@.len() == ids.len(),
                forall|k: int|
                    0 <= k < rev@.len() ==> (#[trigger] rev@[k]) as int == ids[ids.len() - 1 - k],
            decreases (if more {
                cur as int + 1
            } else {
                0
            }),
        {
            let ghost m = ids.len() - rev@.len();
            proof {
                assert(parents_before(nodes, cur as int));
                assert(chain_ids(nodes, cur as int).len() >= 1) by {
                    lemma_chain_ids_increasing(nodes, cur as int);
                }
                assert(ids.take(m as int).last() == ids[m - 1]);
            }
            rev.push(cur);
            match self.nodes[cur].parent {
                Some(p) => {
                    proof {
                        assert(chain_ids(nodes, cur as int) == chain_ids(nodes, p as int).push(
                            cur as int,
                        ));
                        assert(chain_ids(nodes, p as int) =~= ids.take(m as int).drop_last());
                        assert(ids.take(m as int).drop_last() =~= ids.take(m - 1));
                        lemma_chain_ids_increasing(nodes, p as int);
                    }
                    cur = p;
                },
                None => {
                    proof {
                        assert(chain_ids(nodes, cur as int) =~= seq![cur as int]);
                        assert(m == 1);
                        assert(ids[0] == cur as int);
                    }
                    more = false;
                },
            }
        }
        let n = rev.len();
        let mut out: Vec<(usize, String)> = Vec::new();
        let mut a: usize = 0;
        proof {
            assert forall|k: int| 0 <= k < ids.len() implies 0 <= #[trigger] ids[k]
                < nodes.len() by {
                lemma_chain_ids_increasing(nodes, head as int);
            }
        }
        while a < n
            invariant
                self.wf(),
                nodes == self.nodes_view(),
                ids == chain_ids(nodes, head as int),
                n == rev@.len(),
                n == ids.len(),
                a <= n,
                forall|k: int|
                    0 <= k < rev@.len() ==> (#[trigger] rev@[k]) as int == ids[ids.len() - 1 - k],
                forall|k: int| 0 <= k < ids.len() ==> 0 <= #[trigger] ids[k] < nodes.len(),
                out@.len() == a,
                forall|b: int|
                    0 <= b < a ==> (#[trigger] out@[b]).0 == ids[b] && out@[b].1@
                        == spec_first_line(nodes[ids[b]].payload),
            decreases n - a,
        {
            let idx = rev[n - 1 - a];
            proof {
                assert(rev@[n - 1 - a as int] as int == ids[a as int]);
            }
            let line = first_line(self.nodes[idx].payload.as_str());
            out.push((idx, line));
            a = a + 1;
        }
        out
    }

    /// Reads the full history of `category`, oldest record first. An absent
    /// pointer is a normal outcome — no log exists — and is distinguished
    /// from an existing log.
    pub fn read_all(&self, category: &str) -> (r: Result<ReadOutcome, MemoError>)
        requires
            self.wf(),
        ensures
            r is Ok <==> valid_category(category@),
            !valid_category(category@) ==> (r matches Err(e) && e is InvalidCategory),
            r matches Err(e) ==> e matches MemoError::InvalidCategory { category: c } ==> (c@
                == category@ && !valid_category(category@)),
            r matches Ok(out) ==> read_outcome_matches(*self, self.live_head(category@), out),
    {
        if let Err(_) = validate_category(category) {
            return Err(MemoError::InvalidCategory { category: category.to_owned() });
        }
        match read_ref(&self.live, category) {
            None => Ok(ReadOutcome::Absent),
            Some(h) => {
                proof {
                    lemma_lookup_entry(self.live@, category@);
                }
                Ok(ReadOutcome::Records(self.read_chain(h)))
            },
        }
    }

    /// Reads the history preserved under `category`'s archive pointer,
    /// oldest record first.
    pub fn read_archived(&self, category: &str) -> (r: Result<ReadOutcome, MemoError>)
        requires
            self.wf(),
        ensures
            r is Ok <==> valid_category(category@),
            !valid_category(category@) ==> (r matches Err(e) && e is InvalidCategory),
            r matches Err(e) ==> e matches MemoError::InvalidCategory { category: c } ==> (c@
                == category@ && !valid_category(category@)),
            r matches Ok(out) ==> read_outcome_matches(*self, self.archive_head(category@), out),
    {
        if let Err(_) = validate_category(category) {
            return Err(MemoError::InvalidCategory { category: category.to_owned() });
        }
        match read_ref(&self.archive, category) {
            None => Ok(ReadOutcome::Absent),
            Some(h) => {
                proof {
                    lemma_lookup_entry(self.archive@, category@);
                }
                Ok(ReadOutcome::Records(self.read_chain(h)))
            },
        }
    }

    /// Replaces the newest record of `category` by one with the same parent
    /// but a new payload, in a single non-retried compare-and-swap. An absent
    /// category is "nothing to amend", not an error.
    pub fn amend_latest(
        &mut self,
        category: &str,
        new_payload: &str,
        author_name: Option<String>,
        author_email: Option<String>,
        timestamp: Timestamp,
    ) -> (r: Result<AmendOutcome, MemoError>)
        requires
            old(self).wf(),
        ensures
            final(self).wf(),
            r matches Err(e) ==> e matches MemoError::InvalidCategory { category: c } ==> (c@
                == category@ && !valid_category(category@)),
            !valid_category(category@) ==> (r matches Err(e) && e is InvalidCategory
                && *final(self) == *old(self)),
            valid_category(category@) && old(self).live_head(category@) is None ==> (r
                == Ok::<AmendOutcome, MemoError>(AmendOutcome::NothingToAmend) && *final(self)
                == *old(self)),
            valid_category(category@) && old(self).live_head(category@) is Some && !spec_present(
                opt_view(author_name),
            ) ==> (r matches Err(e) && e is MissingIdentity && *final(self) == *old(self)),
            valid_category(category@) && old(self).live_head(category@) is Some && spec_present(
                opt_view(author_name),
            ) ==> (r matches Ok(out) && out is Amended),
            r matches Ok(out) ==> out matches AmendOutcome::Amended(id) ==> {
                &&& old(self).live_head(category@) is Some
                &&& id < final(self).nodes_view().len()
                &&& final(self).nodes_view()[id as int] == (NodeView {
                    payload: new_payload@,
                    author_name: author_name->0@,
                    author_email: spec_resolve_email(opt_view(author_email)),
                    secs: timestamp.secs as int,
                    offset_min: timestamp.offset_min as int,
                    parent: old(self).nodes_view()[old(self).live_head(category@)->0 as int].parent,
                })
                &&& final(self).live_head(category@) == Some(id)
                &&& old(self).nodes_view().is_prefix_of(final(self).nodes_view())
                &&& forall|n: Seq<char>|
                    n != category@ ==> final(self).live_head(n) == old(self).live_head(n)
                &&& final(self).archive == old(self).archive
            },
    {
        if let Err(_) = validate_category(category) {
            return Err(MemoError::InvalidCategory { category: category.to_owned() });
        }
        let head = match read_ref(&self.live, category) {
            None => {
                return Ok(AmendOutcome::NothingToAmend);
            },
            Some(h) => h,
        };
        proof {
            lemma_lookup_entry(self.live@, category@);
        }
        let author = match resolve_identity(author_name, author_email) {
            Ok(a) => a,
            Err(e) => {
                return Err(e);
            },
        };
        let parent = self.nodes[head].parent;
        let node = ChainNode {
            payload: new_payload.to_owned(),
            author,
            timestamp,
            parent,
        };
        proof {
            assert(parents_before(self.nodes_view(), head as int));
        }
        let id = self.put(node);
        let ghost mid = *self;
        match cas_ref(&mut self.live, category, Some(head), id) {
            Ok(()) => {
                proof {
                    assert(targets_below(mid.live@, mid.nodes@.len() as int));
                    assert(targets_below(self.live@, self.nodes@.len() as int));
                }
                Ok(AmendOutcome::Amended(id))
            },
            Err(()) => unreached(),
        }
    }

    /// Moves `category`'s pointer from the live namespace to the disjoint
    /// archive namespace, never overwriting an existing archive. An absent
    /// live pointer is "nothing to archive", not an error.
    pub fn archive(&mut self, category: &str) -> (r: Result<ArchiveOutcome, MemoError>)
        requires
            old(self).wf(),
        ensures
            final(self).wf(),
            final(self).nodes == old(self).nodes,
            r matches Err(e) ==> e matches MemoError::InvalidCategory { category: c } ==> (c@
                == category@ && !valid_category(category@)),
            !valid_category(category@) ==> (r matches Err(e) && e is InvalidCategory
                && *final(self) == *old(self)),
            valid_category(category@) && old(self).live_head(category@) is None ==> (r
                == Ok::<ArchiveOutcome, MemoError>(ArchiveOutcome::NothingToArchive) && *final(self)
                == *old(self)),
            valid_category(category@) && old(self).live_head(category@) is Some && old(
                self,
            ).archive_head(category@) is Some ==> (r matches Err(e) && e is AlreadyExists
                && *final(self) == *old(self)),
            valid_category(category@) && old(self).live_head(category@) is Some && old(
                self,
            ).archive_head(category@) is None ==> r == Ok::<ArchiveOutcome, MemoError>(
                ArchiveOutcome::Archived,
            ),
            r == Ok::<ArchiveOutcome, MemoError>(ArchiveOutcome::Archived) ==> {
                &&& old(self).live_head(category@) is Some
                &&& old(self).archive_head(category@) is None
                &&& final(self).live_head(category@) is None
                &&& final(self).archive_head(category@) == old(self).live_head(category@)
                &&& forall|n: Seq<char>|
                    n != category@ ==> final(self).live_head(n) == old(self).live_head(n)
                &&& forall|n: Seq<char>|
                    n != category@ ==> final(self).archive_head(n) == old(self).archive_head(n)
            },
    {
        if let Err(_) = validate_category(category) {
            return Err(MemoError::InvalidCategory { category: category.to_owned() });
        }
        let head = match read_ref(&self.live, category) {
            None => {
                return Ok(ArchiveOutcome::NothingToArchive);
            },
            Some(h) => h,
        };
        if read_ref(&self.archive, category).is_some() {
            let refname = "refs/archive/".to_owned().concat(category);
            return Err(MemoError::AlreadyExists { refname });
        }
        proof {
            lemma_lookup_entry(self.live@, category@);
        }
        let _ = delete_ref(&mut self.live, category);
        let ghost mid = *self;
        match cas_ref(&mut self.archive, category, None, head) {
            Ok(()) => {
                proof {
                    assert(targets_below(mid.archive@, mid.nodes@.len() as int));
                    assert(targets_below(self.archive@, self.nodes@.len() as int));
                    assert(targets_below(self.live@, self.nodes@.len() as int));
                }
                Ok(ArchiveOutcome::Archived)
            },
            Err(()) => unreached(),
        }
    }

    /// Deletes `category`'s live pointer outright; the chain's nodes stay in
    /// the content store. An absent pointer is a no-op, not an error.
    pub fn remove(&mut self, category: &str) -> (r: Result<RemoveOutcome, MemoError>)
        requires
            old(self).wf(),
        ensures
            final(self).wf(),
            final(self).nodes == old(self).nodes,
            final(self).archive == old(self).archive,
            r matches Err(e) ==> e matches MemoError::InvalidCategory { category: c } ==> (c@
                == category@ && !valid_category(category@)),
            !valid_category(category@) ==> (r matches Err(e) && e is InvalidCategory
                && *final(self) == *old(self)),
            valid_category(category@) ==> {
                &&& r == Ok::<RemoveOutcome, MemoError>(
                    if old(self).live_head(category@) is Some {
                        RemoveOutcome::Removed
                    } else {
                        RemoveOutcome::NothingToRemove
                    },
                )
                &&& final(self).live_head(category@) is None
                &&& forall|n: Seq<char>|
                    n != category@ ==> final(self).live_head(n) == old(self).live_head(n)
            },
    {
        if let Err(_) = validate_category(category) {
            return Err(MemoError::InvalidCategory { category: category.to_owned() });
        }
        let ghost pre = *self;
        let was_there = delete_ref(&mut self.live, category);
        proof {
            assert(targets_below(pre.live@, pre.nodes@.len() as int));
            assert(targets_below(self.live@, self.nodes@.len() as int));
        }
        if was_there {
            Ok(RemoveOutcome::Removed)
        } else {
            Ok(RemoveOutcome::NothingToRemove)
        }
    }
}

/// What a read reports when the pointer it follows exists or is absent.
pub enum ReadOutcome {
    /// The pointer is absent: no log exists for this category.
    Absent,
    /// The records of the chain, oldest first: each record's identifier with
    /// the first line of its payload.
    Records(Vec<(usize, String)>),
}

/// How `ReadOutcome` reflects a store and a head pointer.
pub open spec fn read_outcome_matches(s: MemStore, head: Option<usize>, out: ReadOutcome) -> bool {
    match out {
        ReadOutcome::Absent => head is None,
        ReadOutcome::Records(v) => {
            &&& head is Some
            &&& v@.len() == chain_of(s.nodes_view(), head).len()
            &&& forall|b: int|
                0 <= b < v@.len() ==> (#[trigger] v@[b]).0 == chain_of(s.nodes_view(), head)[b]
                    && v@[b].1@ == spec_first_line(
                    s.nodes_view()[chain_of(s.nodes_view(), head)[b]].payload,
                )
        },
    }
}

/// What `amend_latest` reports.
pub enum AmendOutcome {
    /// The category has no records: nothing to amend, and no error.
    NothingToAmend,
    /// The newest record was replaced by the one named here.
    Amended(usize),
}

/// What `archive` reports.
pub enum ArchiveOutcome {
    /// The category has no live pointer: nothing to archive, and no error.
    NothingToArchive,
    /// The live pointer now lives under the archive namespace.
    Archived,
}

/// What `remove` reports.
pub enum RemoveOutcome {
    /// The category has no live pointer: nothing to remove, and no error.
    NothingToRemove,
    /// The live pointer is gone.
    Removed,
}

} // verus!
