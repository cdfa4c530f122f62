//! The closed message alphabet exchanged between the Paxos roles.

use vstd::prelude::*;

use crate::proposer::Proposal;
use crate::types::NodeId;
use crate::types::ProposalId;

verus! {

/// A tagged Paxos message; each variant carries exactly the fields its
/// recipient needs.  Values are opaque to the protocol.
#[derive(Clone, Copy, Debug)]
pub enum PaxosMsg<V> {
    /// Proposer to acceptor: open a round under `proposal_id`.
    Prepare { proposal_id: ProposalId, from: NodeId },
    /// Acceptor to proposer: a commitment not to accept lower-numbered
    /// proposals.  `proposal_response` echoes the `Prepare.proposal_id` so
    /// the proposer can match replies to its round; `accepted_proposal`
    /// carries whatever the acceptor last accepted, if anything.
    Promise { accepted_proposal: Option<Proposal<V>>, proposal_response: ProposalId },
    /// Proposer to acceptor: ask to accept `value` under `proposal_id`.
    AcceptProposal { proposal_id: ProposalId, value: V },
    /// Acceptor to learners: notification that `proposal` was accepted.
    Accepted { proposal: Proposal<V> },
    /// Alias of `Accepted` carrying primitive fields; learners treat it the
    /// same way.
    Learn { proposal_id: ProposalId, value: V },
}

} // verus!
