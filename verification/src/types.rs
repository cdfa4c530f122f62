//! Identifiers, node context, events, actions, and the role trait shared by
//! the three Paxos roles.

use vstd::prelude::*;

use crate::msg::PaxosMsg;

verus! {

/// Opaque, totally ordered identifier of a participant.
pub type NodeId = u64;

/// Totally ordered proposal identifier, unique per proposer across rounds.
///
/// It is a pair `(round, node)` under lexicographic order, so ties between
/// proposers in the same round are broken by the proposer's `NodeId`.
#[derive(Clone, Copy, PartialEq, Eq, Structural, Debug)]
pub struct ProposalId {
    pub round: u64,
    pub node: NodeId,
}

impl ProposalId {
    /// Lexicographic order on `(round, node)`.
    pub open spec fn spec_le(self, other: ProposalId) -> bool {
        self.round < other.round || (self.round == other.round && self.node <= other.node)
    }

    /// Strict lexicographic order on `(round, node)`.
    pub open spec fn spec_lt(self, other: ProposalId) -> bool {
        self.spec_le(other) && self != other
    }

    /// `self >= other` in the lexicographic proposal order.
    pub fn ge(self, other: ProposalId) -> (r: bool)
        ensures
            r == other.spec_le(self),
    {
        other.round < self.round || (other.round == self.round && other.node <= self.node)
    }

    /// `self > other` in the lexicographic proposal order.
    pub fn gt(self, other: ProposalId) -> (r: bool)
        ensures
            r == other.spec_lt(self),
    {
        other.round < self.round || (other.round == self.round && other.node < self.node)
    }
}

/// `a <= b` on optional proposal identifiers, where `None` stands for "no
/// promise yet" and is below everything.
pub open spec fn opt_pid_le(a: Option<ProposalId>, b: Option<ProposalId>) -> bool {
    match a {
        Option::None => true,
        Option::Some(x) => match b {
            Option::None => false,
            Option::Some(y) => x.spec_le(y),
        },
    }
}

/// Opaque identifier attached by a proposer to each timer it requests; the
/// driver echoes it back on expiry.  Staleness is detected by comparing
/// against the currently active `TimerId`.
#[derive(Clone, Copy, PartialEq, Eq, Structural, Debug)]
pub struct TimerId {
    pub seq: u64,
    pub node: NodeId,
}

/// Immutable record of the cluster configuration a role was created with.
#[derive(Clone, Copy, PartialEq, Eq, Structural, Debug)]
pub struct NodeContext {
    pub number_of_nodes: u64,
}

impl NodeContext {
    /// The quorum size derived from the cluster size: any two sets of
    /// `number_of_nodes / 2 + 1` acceptors intersect.
    pub open spec fn spec_quorum(self) -> int {
        self.number_of_nodes as int / 2 + 1
    }

    /// Computes `number_of_nodes / 2 + 1`.
    pub fn quorum(self) -> (q: u64)
        ensures
            q as int == self.spec_quorum(),
    {
        self.number_of_nodes / 2 + 1
    }
}

/// Inputs fed to a role's state machine to trigger transitions: an incoming
/// message from another node, or the expiry of a previously requested timer.
#[derive(Clone, Copy, Debug)]
pub enum Event<V> {
    Message { from: NodeId, msg: PaxosMsg<V> },
    Timeout { id: TimerId },
}

/// Outputs of a role's state machine; the driver is obliged to honor them in
/// the order they were emitted.
#[derive(Clone, Copy, Debug)]
pub enum Action<V> {
    /// Transmit `msg` to node `to`, stamped with origin `from`.
    Send { to: NodeId, from: NodeId, msg: PaxosMsg<V> },
    /// After at least `ms` milliseconds, deliver `Event::Timeout { id }`.
    SetTimer { id: TimerId, ms: u64 },
    /// Do not deliver a `Timeout` for `id` afterward (late delivery is
    /// nevertheless tolerated as a stale event).
    CancelTimer { id: TimerId },
    /// A proposer exposing the value it settled on during Phase 1.
    ProposeValue { v: V },
    /// A decision; the driver surfaces this to the application.
    ChoseValue { v: V },
}

/// Event handling shared by the Paxos roles: each role reacts to messages and
/// timeouts while preserving its own well-formedness invariant `wf`.
pub trait HandlesEvents<V: Copy> {
    /// The role's internal invariant, established by its constructor and
    /// preserved by every handler.
    spec fn wf(&self) -> bool;

    /// Hook to emit actions right after creation.
    fn on_init(&mut self) -> (actions: Vec<Action<V>>)
        requires
            old(self).wf(),
        ensures
            final(self).wf(),
    ;

    /// Handle an inbound Paxos message.
    fn on_message(&mut self, from: NodeId, msg: PaxosMsg<V>) -> (actions: Vec<Action<V>>)
        requires
            old(self).wf(),
        ensures
            final(self).wf(),
    ;

    /// Handle a timer expiry.
    fn on_timeout(&mut self, id: TimerId) -> (actions: Vec<Action<V>>)
        requires
            old(self).wf(),
        ensures
            final(self).wf(),
    ;

    /// Unified dispatcher a scheduler can feed events into.
    fn on_event(&mut self, e: Event<V>) -> (actions: Vec<Action<V>>)
        requires
            old(self).wf(),
        ensures
            final(self).wf(),
    ;
}

} // verus!
