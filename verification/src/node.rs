//! Chain nodes: the record type of a log.
//!
//! A node holds a payload, the author identity, a timestamp, and at most one
//! parent — the previous node of the same category's chain. A node's
//! identifier is a deterministic function of exactly these four components,
//! so reconstructing a node from identical inputs always yields the same
//! identifier.

use vstd::prelude::*;
use crate::identity::Identity;

verus! {

/// Seconds since the epoch plus a timezone offset in minutes.
#[derive(Clone, Copy, PartialEq, Eq, Structural)]
pub struct Timestamp {
    /// Seconds since the epoch.
    pub secs: i64,
    /// Timezone offset in minutes.
    pub offset_min: i32,
}

/// The mathematical content of one record: everything its identifier is a
/// function of.
pub ghost struct NodeView {
    /// The payload characters.
    pub payload: Seq<char>,
    /// The author's display name.
    pub author_name: Seq<char>,
    /// The author's contact string.
    pub author_email: Seq<char>,
    /// Seconds since the epoch.
    pub secs: int,
    /// Timezone offset in minutes.
    pub offset_min: int,
    /// The identifier of the previous node in the chain, if any.
    pub parent: Option<int>,
}

/// One appended record.
pub struct ChainNode {
    /// The recorded payload; may span several lines.
    pub payload: String,
    /// Who recorded it.
    pub author: Identity,
    /// When it was recorded.
    pub timestamp: Timestamp,
    /// The previous node of the same chain; `None` only for the first node.
    pub parent: Option<usize>,
}

impl View for ChainNode {
    type V = NodeView;

    open spec fn view(&self) -> NodeView {
        NodeView {
            payload: self.payload@,
            author_name: self.author.name@,
            author_email: self.author.email@,
            secs: self.timestamp.secs as int,
            offset_min: self.timestamp.offset_min as int,
            parent: match self.parent {
                Some(p) => Some(p as int),
                None => None,
            },
        }
    }
}

impl ChainNode {
    /// Whether two nodes were constructed from identical inputs.
    pub fn same_content(&self, other: &ChainNode) -> (r: bool)
        ensures
            r == (self@ == other@),
    {
        let parents_eq = match (self.parent, other.parent) {
            (Some(a), Some(b)) => a == b,
            (None, None) => true,
            _ => false,
        };
        parents_eq && self.timestamp == other.timestamp && self.payload == other.payload
            && self.author.name == other.author.name && self.author.email == other.author.email
    }
}

} // verus!
