//! Instants, identities and who may see a record.

use vstd::prelude::*;

verus! {

/// An instant of simulated time, in nanoseconds.
pub type SimTime = u64;

/// The identity of a node.
pub type NodeId = u32;

/// The identity of an actor: the vehicle or road user itself, which no receiver learns.
pub type ActorId = u32;

/// Nanoseconds in a second.
pub const NS_PER_S: u64 = 1_000_000_000;

/// Nanoseconds in a millisecond.
pub const NS_PER_MS: u64 = 1_000_000;

/// Who may see a record.
#[derive(Clone, Copy, Debug, PartialEq, Eq, Structural)]
pub enum Visibility {
    /// Ground truth: what only the simulator knows.
    Gt,
    /// What a node can know.
    Node,
    /// What a node can know, with ground-truth fields beside it.
    NodeAndGt,
    /// What anybody can know.
    Public,
    /// Derived from other records.
    Derived,
    /// About the run itself.
    Meta,
    /// A mixture of the others.
    Mixed,
}

impl Visibility {
    /// True if a record with this tag holds ground truth.
    pub open spec fn tainted(self) -> bool {
        match self {
            Visibility::Gt => true,
            Visibility::NodeAndGt => true,
            Visibility::Mixed => true,
            Visibility::Node => false,
            Visibility::Public => false,
            Visibility::Derived => false,
            Visibility::Meta => false,
        }
    }

    /// True if a record with this tag holds ground truth.
    pub fn is_gt_tainted(self) -> (r: bool)
        ensures
            r == self.tainted(),
    {
        match self {
            Visibility::Gt => true,
            Visibility::NodeAndGt => true,
            Visibility::Mixed => true,
            Visibility::Node => false,
            Visibility::Public => false,
            Visibility::Derived => false,
            Visibility::Meta => false,
        }
    }

    /// True if a record with this tag may stand on a channel that nodes read.
    pub fn allowed_on_node_channel(self) -> (r: bool)
        ensures
            r == !self.tainted(),
    {
        !self.is_gt_tainted()
    }

    /// The position of this tag in the order of the tags.
    pub open spec fn place(self) -> u64 {
        match self {
            Visibility::Gt => 0,
            Visibility::Node => 1,
            Visibility::NodeAndGt => 2,
            Visibility::Public => 3,
            Visibility::Derived => 4,
            Visibility::Meta => 5,
            Visibility::Mixed => 6,
        }
    }

    /// The position of this tag in the order of the tags.
    pub fn position(self) -> (r: u64)
        ensures
            r == self.place(),
    {
        match self {
            Visibility::Gt => 0,
            Visibility::Node => 1,
            Visibility::NodeAndGt => 2,
            Visibility::Public => 3,
            Visibility::Derived => 4,
            Visibility::Meta => 5,
            Visibility::Mixed => 6,
        }
    }

    /// The tag as it is written.
    pub open spec fn text(self) -> Seq<char> {
        match self {
            Visibility::Gt => "gt"@,
            Visibility::Node => "node"@,
            Visibility::NodeAndGt => "node+gt"@,
            Visibility::Public => "public"@,
            Visibility::Derived => "derived"@,
            Visibility::Meta => "meta"@,
            Visibility::Mixed => "mixed"@,
        }
    }

    /// The tag as it is written.
    pub fn as_str(self) -> (r: &'static str)
        ensures
            r@ == self.text(),
    {
        match self {
            Visibility::Gt => "gt",
            Visibility::Node => "node",
            Visibility::NodeAndGt => "node+gt",
            Visibility::Public => "public",
            Visibility::Derived => "derived",
            Visibility::Meta => "meta",
            Visibility::Mixed => "mixed",
        }
    }
}

} // verus!
