//! The append controller: the bounded retry protocol that makes `append`
//! safe under concurrent writers.
//!
//! An append cycles through reading the head, building and storing a node
//! whose parent is that head, and attempting one atomic compare-and-swap on
//! the pointer. A conflict means another writer moved the pointer in
//! between; the only correct reaction is to re-read the head and rebuild the
//! node with the fresh parent, since a node's parent must reflect the chain
//! at commit time. The cycle repeats up to a fixed ceiling of attempts, after
//! which the append fails with an exhaustion error; it is never silently
//! dropped.

use vstd::prelude::*;
use crate::category::Category;
use crate::identity::Identity;
use crate::log::append_shape;
use crate::node::{ChainNode, NodeView, Timestamp};
use crate::store::{cas_ref, read_ref, targets_below, MemStore};

verus! {

/// The retry ceiling: how many compare-and-swap attempts one append makes
/// before giving up.
pub const MAX_ATTEMPTS: u64 = 5;

/// What the controller does with a run of compare-and-swap outcomes (`true`
/// is a success, `false` a conflict) under attempt ceiling `max`: whether the
/// append succeeds, and how many attempts are made. Each attempt consumes one
/// outcome; the run stops at the first success or when the ceiling is
/// reached.
pub open spec fn cas_run(outcomes: Seq<bool>, max: nat) -> (bool, nat)
    decreases outcomes.len(),
{
    if max == 0 || outcomes.len() == 0 {
        (false, 0)
    } else if outcomes[0] {
        (true, 1)
    } else {
        let rest = cas_run(outcomes.drop_first(), (max - 1) as nat);
        (rest.0, rest.1 + 1)
    }
}

/// Law: a single conflicting compare-and-swap does not defeat an append.
/// When the first attempt conflicts and the second lands, the controller has
/// retried exactly once and the append succeeds.
pub proof fn lemma_one_conflict_still_succeeds(max: nat)
    requires
        max >= 2,
    ensures
        cas_run(seq![false, true], max) == (true, 2 as nat),
{
    assert(seq![false, true].drop_first() =~= seq![true]);
    assert(cas_run(seq![true], (max - 1) as nat) == (true, 1 as nat));
}

/// Law: conflicts on every attempt exhaust the append at the ceiling:
/// exactly `max` attempts are made, and the append fails rather than loop
/// on.
pub proof fn lemma_every_conflict_exhausts(outcomes: Seq<bool>, max: nat)
    requires
        outcomes.len() >= max,
        forall|i: int| 0 <= i < outcomes.len() ==> !outcomes[i],
    ensures
        cas_run(outcomes, max) == (false, max),
    decreases max,
{
    if max == 0 {
    } else {
        assert(!outcomes[0]);
        assert forall|i: int| 0 <= i < outcomes.drop_first().len() implies !outcomes.drop_first()[i] by {
            assert(!outcomes[i + 1]);
        }
        lemma_every_conflict_exhausts(outcomes.drop_first(), (max - 1) as nat);
    }
}

/// Where an in-flight append stands.
pub enum Phase {
    /// About to read the current head of the pointer.
    ReadHead,
    /// A node is stored and ready: `expected` is the head that was read and
    /// that the compare-and-swap will insist on, `node_id` the stored node.
    TryCas {
        /// The head the pointer is expected to still hold.
        expected: Option<usize>,
        /// The stored node to publish.
        node_id: usize,
    },
    /// The append succeeded; the pointer now designates `head`.
    Done {
        /// The published record.
        head: usize,
    },
    /// Every attempt up to the ceiling conflicted.
    Exhausted,
}

/// One in-flight append, driven one transition at a time so that other
/// writers can act between its read of the head and its compare-and-swap.
pub struct AppendMachine {
    /// The category appended to.
    pub category: Category,
    /// The payload of the record under construction.
    pub payload: String,
    /// Its author.
    pub author: Identity,
    /// Its timestamp.
    pub timestamp: Timestamp,
    /// The attempt ceiling.
    pub ceiling: u64,
    /// Compare-and-swap attempts made so far.
    pub attempts: u64,
    /// Where the append stands.
    pub phase: Phase,
}

impl AppendMachine {
    /// The content of the node this machine publishes when the head it read
    /// was `expected`.
    pub open spec fn node_content(self, expected: Option<usize>) -> NodeView {
        NodeView {
            payload: self.payload@,
            author_name: self.author.name@,
            author_email: self.author.email@,
            secs: self.timestamp.secs as int,
            offset_min: self.timestamp.offset_min as int,
            parent: match expected {
                Some(p) => Some(p as int),
                None => None::<int>,
            },
        }
    }

    /// The machine invariant against the store it runs on. It survives any
    /// interleaved operation by other writers, since stored nodes are
    /// immutable and the node table only grows.
    pub open spec fn inv(self, s: MemStore) -> bool {
        &&& self.ceiling >= 1
        &&& self.attempts <= self.ceiling
        &&& (self.phase matches Phase::ReadHead ==> self.attempts < self.ceiling)
        &&& (self.phase matches Phase::TryCas { expected, node_id } ==> {
            &&& self.attempts < self.ceiling
            &&& node_id < s.nodes_view().len()
            &&& s.nodes_view()[node_id as int] == self.node_content(expected)
        })
    }

    /// A fresh append of one record, ready to read the head.
    pub fn new(
        category: Category,
        payload: String,
        author: Identity,
        timestamp: Timestamp,
        ceiling: u64,
    ) -> (m: AppendMachine)
        requires
            ceiling >= 1,
        ensures
            m.category == category,
            m.payload == payload,
            m.author == author,
            m.timestamp == timestamp,
            m.ceiling == ceiling,
            m.attempts == 0,
            m.phase is ReadHead,
            forall|s: MemStore| m.inv(s),
    {
        AppendMachine { category, payload, author, timestamp, ceiling, attempts: 0, phase: Phase::ReadHead }
    }

    /// Performs one transition against the store: from `ReadHead` it reads
    /// the head and stores the node to publish; from `TryCas` it attempts the
    /// compare-and-swap, and on a conflict either goes back to `ReadHead` or,
    /// at the ceiling, gives up.
    pub fn step(&mut self, s: &mut MemStore)
        requires
            old(s).wf(),
            old(self).inv(*old(s)),
            old(self).phase matches Phase::ReadHead || old(self).phase matches Phase::TryCas {
                ..
            },
        ensures
            final(s).wf(),
            final(self).inv(*final(s)),
            final(self).category == old(self).category,
            final(self).payload == old(self).payload,
            final(self).author == old(self).author,
            final(self).timestamp == old(self).timestamp,
            final(self).ceiling == old(self).ceiling,
            old(self).phase matches Phase::ReadHead ==> {
                &&& final(self).attempts == old(self).attempts
                &&& final(self).phase matches Phase::TryCas { expected, node_id }
                    && expected == old(s).live_head(old(self).category@)
                    && final(s).nodes_view()[node_id as int] == old(self).node_content(expected)
                &&& old(s).nodes_view().is_prefix_of(final(s).nodes_view())
                &&& final(s).live == old(s).live
                &&& final(s).archive == old(s).archive
            },
            old(self).phase matches Phase::TryCas { expected, node_id } ==> {
                &&& final(self).attempts == old(self).attempts + 1
                &&& final(s).nodes == old(s).nodes
                &&& final(s).archive == old(s).archive
                &&& if old(s).live_head(old(self).category@) == expected {
                    &&& final(self).phase == (Phase::Done { head: node_id })
                    &&& final(s).live_head(old(self).category@) == Some(node_id)
                    &&& append_shape(*old(s), *final(s), old(self).category@, node_id)
                    &&& (forall|n: Seq<char>|
                        n != old(self).category@ ==> final(s).live_head(n) == old(s).live_head(n))
                } else {
                    &&& final(s).live@ == old(s).live@
                    &&& final(self).phase == (if old(self).attempts + 1 < old(self).ceiling {
                        Phase::ReadHead
                    } else {
                        Phase::Exhausted
                    })
                }
            },
    {
        match self.phase {
            Phase::ReadHead => {
                let expected = read_ref(&s.live, self.category.as_str());
                proof {
                    if expected matches Some(h) {
                        crate::store::lemma_lookup_entry(s.live@, self.category@);
                    }
                }
                let node = ChainNode {
                    payload: self.payload.clone(),
                    author: Identity {
                        name: self.author.name.clone(),
                        email: self.author.email.clone(),
                    },
                    timestamp: self.timestamp,
                    parent: expected,
                };
                let node_id = s.put(node);
                self.phase = Phase::TryCas { expected, node_id };
            },
            Phase::TryCas { expected, node_id } => {
                let ghost pre = *s;
                match cas_ref(&mut s.live, self.category.as_str(), expected, node_id) {
                    Ok(()) => {
                        proof {
                            assert(targets_below(pre.live@, pre.nodes@.len() as int));
                            assert(targets_below(s.live@, s.nodes@.len() as int));
                        }
                        self.attempts = self.attempts + 1;
                        self.phase = Phase::Done { head: node_id };
                    },
                    Err(()) => {
                        self.attempts = self.attempts + 1;
                        if self.attempts < self.ceiling {
                            self.phase = Phase::ReadHead;
                        } else {
                            self.phase = Phase::Exhausted;
                        }
                    },
                }
            },
            Phase::Done { .. } => {},
            Phase::Exhausted => {},
        }
    }
}

} // verus!
