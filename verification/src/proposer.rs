//! The Proposer role: drives rounds through Phase 1 (Prepare/Promise) and
//! Phase 2 (AcceptProposal/Accepted), respecting the rule that a previously
//! accepted value reported by a quorum must be re-proposed.

use vstd::prelude::*;

use crate::kv::contains_node;
use crate::msg::PaxosMsg;
use crate::types::Action;
use crate::types::Event;
use crate::types::HandlesEvents;
use crate::types::NodeContext;
use crate::types::NodeId;
use crate::types::ProposalId;
use crate::types::TimerId;

verus! {

/// A pair of a `ProposalId` and a value that a proposer tries to get chosen.
/// Equality is on the identifier only; the value is payload.
#[derive(Clone, Copy, Debug)]
pub struct Proposal<V> {
    pub id: ProposalId,
    pub value: V,
}

impl<V> PartialEq for Proposal<V> {
    fn eq(&self, other: &Proposal<V>) -> (r: bool) {
        self.id == other.id
    }
}

impl<V> Eq for Proposal<V> {

}

impl<V> vstd::std_specs::cmp::PartialEqSpecImpl for Proposal<V> {
    open spec fn obeys_eq_spec() -> bool {
        true
    }

    open spec fn eq_spec(&self, other: &Proposal<V>) -> bool {
        self.id == other.id
    }
}

/// `x + 1`, stopping at the largest representable value.
pub open spec fn sat_add_one(x: u64) -> u64 {
    if x == u64::MAX {
        u64::MAX
    } else {
        (x + 1) as u64
    }
}

/// `2 * x`, stopping at the largest representable value.
pub open spec fn sat_double(x: u64) -> u64 {
    if x > u64::MAX / 2 {
        u64::MAX
    } else {
        (2 * x) as u64
    }
}

/// The abstract state of the round a proposer is currently driving.
pub struct RoundView<V> {
    pub proposal_id: ProposalId,
    pub promises_from: Set<NodeId>,
    pub highest_accepted: Option<Proposal<V>>,
    pub accept_acks: Set<NodeId>,
}

/// The abstract state of a proposer: everything its behaviour depends on.
pub struct ProposerView<V> {
    pub node_id: NodeId,
    pub number_of_nodes: u64,
    pub peers: Seq<NodeId>,
    pub next_pid: ProposalId,
    pub candidate_value: V,
    pub quorum: int,
    pub round: Option<RoundView<V>>,
    pub timer_id: TimerId,
    pub timer_ms: u64,
}

impl<V> ProposerView<V> {
    /// A meaningful quorum, and finite bookkeeping sets.
    pub open spec fn wf(self) -> bool {
        self.quorum >= 1 && match self.round {
            Option::Some(r) => r.promises_from.finite() && r.accept_acks.finite(),
            Option::None => true,
        }
    }

    /// One `Prepare` per peer, in order.
    pub open spec fn prepare_broadcast(self, pid: ProposalId) -> Seq<Action<V>> {
        Seq::new(
            self.peers.len(),
            |i: int|
                Action::Send {
                    to: self.peers[i],
                    from: self.node_id,
                    msg: PaxosMsg::Prepare { proposal_id: pid, from: self.node_id },
                },
        )
    }

    /// One `AcceptProposal` per peer, in order.
    pub open spec fn accept_broadcast(self, pid: ProposalId, v: V) -> Seq<Action<V>> {
        Seq::new(
            self.peers.len(),
            |i: int|
                Action::Send {
                    to: self.peers[i],
                    from: self.node_id,
                    msg: PaxosMsg::AcceptProposal { proposal_id: pid, value: v },
                },
        )
    }

    /// Transition that opens a round: allocate the next proposal identifier
    /// and a fresh timer identifier, install empty round bookkeeping, send
    /// `Prepare` to every peer, and finally arm the timer.
    pub open spec fn step_start_round(self) -> (ProposerView<V>, Seq<Action<V>>) {
        let pid = self.next_pid;
        let tid = TimerId { seq: sat_add_one(self.timer_id.seq), node: self.timer_id.node };
        let post = ProposerView {
            node_id: self.node_id,
            number_of_nodes: self.number_of_nodes,
            peers: self.peers,
            next_pid: ProposalId { round: sat_add_one(pid.round), node: pid.node },
            candidate_value: self.candidate_value,
            quorum: self.quorum,
            round: Option::Some(
                RoundView {
                    proposal_id: pid,
                    promises_from: Set::<NodeId>::empty(),
                    highest_accepted: Option::None,
                    accept_acks: Set::<NodeId>::empty(),
                },
            ),
            timer_id: tid,
            timer_ms: self.timer_ms,
        };
        (post, self.prepare_broadcast(pid).push(Action::SetTimer { id: tid, ms: self.timer_ms }))
    }

    /// The value Phase 2 must propose: the value of the highest proposal
    /// reported accepted during Phase 1, or the proposer's own candidate if
    /// none was reported.
    pub open spec fn phase2_value(self, ha: Option<Proposal<V>>) -> V {
        match ha {
            Option::Some(p) => p.value,
            Option::None => self.candidate_value,
        }
    }

    /// Transition on `Promise { accepted_proposal, proposal_response }` from
    /// `from`: ignore it when no round is active, when it answers another
    /// round, or when `from` already promised; otherwise record it, keep the
    /// highest reported accepted proposal, and on the quorum-completing
    /// promise broadcast `AcceptProposal` with the value Phase 1 settled on.
    pub open spec fn step_promise(
        self,
        from: NodeId,
        accepted_proposal: Option<Proposal<V>>,
        proposal_response: ProposalId,
    ) -> (ProposerView<V>, Seq<Action<V>>) {
        match self.round {
            Option::None => (self, Seq::<Action<V>>::empty()),
            Option::Some(r) => {
                if r.proposal_id != proposal_response {
                    (self, Seq::<Action<V>>::empty())
                } else if r.promises_from.contains(from) {
                    (self, Seq::<Action<V>>::empty())
                } else {
                    let pf2 = r.promises_from.insert(from);
                    let ha2 = match accepted_proposal {
                        Option::Some(p) => match r.highest_accepted {
                            Option::Some(best) => if best.id.spec_lt(p.id) {
                                Option::Some(p)
                            } else {
                                Option::Some(best)
                            },
                            Option::None => Option::Some(p),
                        },
                        Option::None => r.highest_accepted,
                    };
                    let post = ProposerView {
                        node_id: self.node_id,
                        number_of_nodes: self.number_of_nodes,
                        peers: self.peers,
                        next_pid: self.next_pid,
                        candidate_value: self.candidate_value,
                        quorum: self.quorum,
                        round: Option::Some(
                            RoundView {
                                proposal_id: r.proposal_id,
                                promises_from: pf2,
                                highest_accepted: ha2,
                                accept_acks: r.accept_acks,
                            },
                        ),
                        timer_id: self.timer_id,
                        timer_ms: self.timer_ms,
                    };
                    if pf2.len() == self.quorum {
                        (post, self.accept_broadcast(r.proposal_id, self.phase2_value(ha2)))
                    } else {
                        (post, Seq::<Action<V>>::empty())
                    }
                }
            },
        }
    }

    /// Transition on `Accepted { proposal }` from `from`: ignore it when it
    /// does not acknowledge the active round or duplicates an earlier
    /// acknowledgment; otherwise record it, and on quorum emit `ChoseValue`,
    /// cancel the timer, and return to idle.
    pub open spec fn step_accepted(self, from: NodeId, proposal: Proposal<V>) -> (ProposerView<V>,
    Seq<Action<V>>) {
        match self.round {
            Option::None => (self, Seq::<Action<V>>::empty()),
            Option::Some(r) => {
                if proposal.id != r.proposal_id {
                    (self, Seq::<Action<V>>::empty())
                } else if r.accept_acks.contains(from) {
                    (self, Seq::<Action<V>>::empty())
                } else {
                    let aa2 = r.accept_acks.insert(from);
                    if aa2.len() == self.quorum {
                        (
                            ProposerView {
                                node_id: self.node_id,
                                number_of_nodes: self.number_of_nodes,
                                peers: self.peers,
                                next_pid: self.next_pid,
                                candidate_value: self.candidate_value,
                                quorum: self.quorum,
                                round: Option::None,
                                timer_id: self.timer_id,
                                timer_ms: self.timer_ms,
                            },
                            seq![
                                (Action::ChoseValue { v: proposal.value }),
                                (Action::CancelTimer { id: self.timer_id }),
                            ],
                        )
                    } else {
                        (
                            ProposerView {
                                node_id: self.node_id,
                                number_of_nodes: self.number_of_nodes,
                                peers: self.peers,
                                next_pid: self.next_pid,
                                candidate_value: self.candidate_value,
                                quorum: self.quorum,
                                round: Option::Some(
                                    RoundView {
                                        proposal_id: r.proposal_id,
                                        promises_from: r.promises_from,
                                        highest_accepted: r.highest_accepted,
                                        accept_acks: aa2,
                                    },
                                ),
                                timer_id: self.timer_id,
                                timer_ms: self.timer_ms,
                            },
                            Seq::<Action<V>>::empty(),
                        )
                    }
                }
            },
        }
    }

    /// Transition on any inbound message; everything but `Promise` and
    /// `Accepted` is ignored.
    pub open spec fn step_message(self, from: NodeId, msg: PaxosMsg<V>) -> (ProposerView<V>, Seq<
        Action<V>,
    >) {
        match msg {
            PaxosMsg::Promise { accepted_proposal, proposal_response } => self.step_promise(
                from,
                accepted_proposal,
                proposal_response,
            ),
            PaxosMsg::Accepted { proposal } => self.step_accepted(from, proposal),
            _ => (self, Seq::<Action<V>>::empty()),
        }
    }

    /// Transition on a timer expiry: a stale identifier is ignored; the live
    /// one doubles the backoff and restarts a round under a fresh proposal
    /// identifier, discarding the previous round's state.
    pub open spec fn step_timeout(self, id: TimerId) -> (ProposerView<V>, Seq<Action<V>>) {
        if id != self.timer_id {
            (self, Seq::<Action<V>>::empty())
        } else {
            ProposerView { timer_ms: sat_double(self.timer_ms), ..self }.step_start_round()
        }
    }

    /// Transition on any event.
    pub open spec fn step_event(self, e: Event<V>) -> (ProposerView<V>, Seq<Action<V>>) {
        match e {
            Event::Message { from, msg } => self.step_message(from, msg),
            Event::Timeout { id } => self.step_timeout(id),
        }
    }
}

/// Consecutive round starts allocate strictly increasing proposal
/// identifiers (strictness holds as long as the round counter has not
/// saturated).
pub proof fn lemma_start_round_ids_increase<V>(p: ProposerView<V>)
    requires
        p.next_pid.round < u64::MAX,
    ensures
        ({
            let p1 = p.step_start_round().0;
            let p2 = p1.step_start_round().0;
            &&& p1.round matches Option::Some(r1) && r1.proposal_id == p.next_pid
            &&& p2.round matches Option::Some(r2) && r2.proposal_id == p1.next_pid
            &&& p.next_pid.spec_lt(p1.next_pid)
        }),
{
}

/// A timeout whose identifier differs from the currently armed timer
/// changes nothing and produces zero actions.
pub proof fn lemma_stale_timer_ignored<V>(p: ProposerView<V>, id: TimerId)
    requires
        id != p.timer_id,
    ensures
        p.step_timeout(id).0 == p,
        p.step_timeout(id).1.len() == 0,
{
}

/// A proposer enters Phase 2 only on the strength of Phase 1: it broadcasts
/// `AcceptProposal` only when the handled message is a `Promise` answering
/// the active round and completing a quorum of distinct promising peers; and
/// the set of recorded promises only ever grows by a peer whose `Promise`
/// answered the active round.
pub proof fn lemma_phase2_needs_promise_quorum<V>(p: ProposerView<V>, from: NodeId, msg: PaxosMsg<
    V,
>)
    ensures
        ({
            let (p2, out) = p.step_message(from, msg);
            (exists|i: int|
                0 <= i < out.len() && (#[trigger] out[i]) matches Action::Send {
                    msg: PaxosMsg::AcceptProposal { .. },
                    ..
                }) ==> {
                &&& msg matches PaxosMsg::Promise { proposal_response, .. }
                &&& p.round matches Option::Some(r) && proposal_response == r.proposal_id
                &&& p2.round matches Option::Some(r2) && r2.promises_from.len() == p.quorum
            }
        }),
        ({
            let (p2, out) = p.step_message(from, msg);
            match (p.round, p2.round) {
                (Option::Some(r), Option::Some(r2)) => r2.promises_from != r.promises_from ==> {
                    &&& msg matches PaxosMsg::Promise { proposal_response, .. }
                    &&& proposal_response == r.proposal_id
                    &&& r2.promises_from == r.promises_from.insert(from)
                },
                _ => true,
            }
        }),
{
}

/// State for the round a proposer is currently driving.
pub struct RoundState<V> {
    pub proposal_id: ProposalId,
    pub promises_from: Vec<NodeId>,
    pub highest_accepted: Option<Proposal<V>>,
    pub accept_acks: Vec<NodeId>,
}

impl<V> RoundState<V> {
    /// Fresh bookkeeping for a round driven under `proposal_id`.
    pub fn new(proposal_id: ProposalId) -> (r: RoundState<V>)
        ensures
            r.proposal_id == proposal_id,
            r.promises_from@ == Seq::<NodeId>::empty(),
            r.highest_accepted is None,
            r.accept_acks@ == Seq::<NodeId>::empty(),
    {
        RoundState {
            proposal_id,
            promises_from: Vec::new(),
            highest_accepted: Option::None,
            accept_acks: Vec::new(),
        }
    }
}

/// Executable proposer state, as configured by the driver.
pub struct Proposer<V> {
    pub node_id: NodeId,
    pub ctx: NodeContext,
    pub peers: Vec<NodeId>,
    pub next_pid: ProposalId,
    pub candidate_value: V,
    pub quorum: u64,
    pub round: Option<RoundState<V>>,
    pub timer_id: TimerId,
    pub timer_ms: u64,
}

impl<V> View for Proposer<V> {
    type V = ProposerView<V>;

    open spec fn view(&self) -> ProposerView<V> {
        ProposerView {
            node_id: self.node_id,
            number_of_nodes: self.ctx.number_of_nodes,
            peers: self.peers@,
            next_pid: self.next_pid,
            candidate_value: self.candidate_value,
            quorum: self.quorum as int,
            round: match self.round {
                Option::Some(r) => Option::Some(
                    RoundView {
                        proposal_id: r.proposal_id,
                        promises_from: r.promises_from@.to_set(),
                        highest_accepted: r.highest_accepted,
                        accept_acks: r.accept_acks@.to_set(),
                    },
                ),
                Option::None => Option::None,
            },
            timer_id: self.timer_id,
            timer_ms: self.timer_ms,
        }
    }
}

impl<V> Proposer<V> {
    /// The representation invariant: a meaningful quorum, and no duplicates
    /// in the round bookkeeping.
    pub open spec fn inv(self) -> bool {
        &&& self.quorum >= 1
        &&& match self.round {
            Option::Some(r) => r.promises_from@.no_duplicates() && r.accept_acks@.no_duplicates(),
            Option::None => true,
        }
    }
}

/// The representation invariant gives a well-formed abstract state.
pub proof fn lemma_proposer_inv_wf<V>(p: Proposer<V>)
    requires
        p.inv(),
    ensures
        p@.wf(),
{
    broadcast use vstd::seq_lib::seq_to_set_is_finite;

}

impl<V: Copy> Proposer<V> {
    /// A fresh, idle proposer that will drive its first round under
    /// proposal identifier `(1, node_id)`.
    pub fn new(
        node_id: NodeId,
        ctx: NodeContext,
        peers: Vec<NodeId>,
        candidate_value: V,
        timer_ms: u64,
        quorum: u64,
    ) -> (p: Proposer<V>)
        requires
            quorum >= 1,
        ensures
            p@.node_id == node_id,
            p@.number_of_nodes == ctx.number_of_nodes,
            p@.peers == peers@,
            p@.next_pid == (ProposalId { round: 1, node: node_id }),
            p@.candidate_value == candidate_value,
            p@.quorum == quorum as int,
            p@.round is None,
            p@.timer_id == (TimerId { seq: 0, node: node_id }),
            p@.timer_ms == timer_ms,
            p.inv(),
    {
        Proposer {
            node_id,
            ctx,
            peers,
            quorum,
            next_pid: ProposalId { round: 1, node: node_id },
            candidate_value,
            round: Option::None,
            timer_id: TimerId { seq: 0, node: node_id },
            timer_ms,
        }
    }

    /// The quorum size the node context prescribes.
    pub fn quorum(&self) -> (q: u64)
        ensures
            q as int == self.ctx.spec_quorum(),
    {
        self.ctx.quorum()
    }

    /// Allocates the next proposal identifier, advancing the monotonic
    /// counter.
    fn next_proposal_id(&mut self) -> (pid: ProposalId)
        ensures
            pid == old(self).next_pid,
            final(self).next_pid == (ProposalId {
                round: sat_add_one(old(self).next_pid.round),
                node: old(self).next_pid.node,
            }),
            final(self).node_id == old(self).node_id,
            final(self).ctx == old(self).ctx,
            final(self).peers == old(self).peers,
            final(self).candidate_value == old(self).candidate_value,
            final(self).quorum == old(self).quorum,
            final(self).round == old(self).round,
            final(self).timer_id == old(self).timer_id,
            final(self).timer_ms == old(self).timer_ms,
    {
        let pid = self.next_pid;
        self.next_pid.round = self.next_pid.round.saturating_add(1);
        pid
    }

    /// Allocates a fresh timer identifier and makes it the active one.
    fn next_timer_id(&mut self) -> (tid: TimerId)
        ensures
            tid == final(self).timer_id,
            final(self).timer_id == (TimerId {
                seq: sat_add_one(old(self).timer_id.seq),
                node: old(self).timer_id.node,
            }),
            final(self).node_id == old(self).node_id,
            final(self).ctx == old(self).ctx,
            final(self).peers == old(self).peers,
            final(self).next_pid == old(self).next_pid,
            final(self).candidate_value == old(self).candidate_value,
            final(self).quorum == old(self).quorum,
            final(self).round == old(self).round,
            final(self).timer_ms == old(self).timer_ms,
    {
        self.timer_id.seq = self.timer_id.seq.saturating_add(1);
        self.timer_id
    }

    /// Sends `Prepare { pid }` to every peer, in order.
    fn broadcast_prepare(&self, pid: ProposalId) -> (actions: Vec<Action<V>>)
        ensures
            actions@ == self@.prepare_broadcast(pid),
    {
        let mut actions: Vec<Action<V>> = Vec::new();
        let mut i: usize = 0;
        while i < self.peers.len()
            invariant
                i <= self@.peers.len(),
                actions@.len() == i,
                forall|j: int| 0 <= j < i ==> actions@[j] == self@.prepare_broadcast(pid)[j],
            decreases self@.peers.len() - i,
        {
            actions.push(
                Action::Send {
                    to: self.peers[i],
                    from: self.node_id,
                    msg: PaxosMsg::Prepare { proposal_id: pid, from: self.node_id },
                },
            );
            i = i + 1;
        }
        proof {
            assert(actions@ =~= self@.prepare_broadcast(pid));
        }
        actions
    }

    /// Sends `AcceptProposal { pid, v }` to every peer, in order.
    fn broadcast_accept(&self, pid: ProposalId, v: V) -> (actions: Vec<Action<V>>)
        ensures
            actions@ == self@.accept_broadcast(pid, v),
    {
        let mut actions: Vec<Action<V>> = Vec::new();
        let mut i: usize = 0;
        while i < self.peers.len()
            invariant
                i <= self@.peers.len(),
                actions@.len() == i,
                forall|j: int| 0 <= j < i ==> actions@[j] == self@.accept_broadcast(pid, v)[j],
            decreases self@.peers.len() - i,
        {
            actions.push(
                Action::Send {
                    to: self.peers[i],
                    from: self.node_id,
                    msg: PaxosMsg::AcceptProposal { proposal_id: pid, value: v },
                },
            );
            i = i + 1;
        }
        proof {
            assert(actions@ =~= self@.accept_broadcast(pid, v));
        }
        actions
    }

    /// Opens a new round, discarding any previous round state.
    fn start_round(&mut self) -> (actions: Vec<Action<V>>)
        requires
            old(self).inv(),
        ensures
            final(self).inv(),
            final(self)@ == old(self)@.step_start_round().0,
            actions@ == old(self)@.step_start_round().1,
    {
        let ghost pre = self@;
        let pid = self.next_proposal_id();
        self.round = Option::Some(RoundState::new(pid));
        let tid = self.next_timer_id();
        let mut actions: Vec<Action<V>> = self.broadcast_prepare(pid);
        actions.push(Action::SetTimer { id: tid, ms: self.timer_ms });
        proof {
            assert(Seq::<NodeId>::empty().to_set() =~= Set::<NodeId>::empty());
            assert(self@ == pre.step_start_round().0);
            assert(actions@ =~= pre.step_start_round().1);
        }
        actions
    }

    /// Starting up means driving the first round.
    pub fn on_init(&mut self) -> (actions: Vec<Action<V>>)
        requires
            old(self).inv(),
        ensures
            final(self).inv(),
            final(self)@ == old(self)@.step_start_round().0,
            actions@ == old(self)@.step_start_round().1,
    {
        self.start_round()
    }

    /// Handles an inbound message exactly as the abstract transition says.
    pub fn on_message(&mut self, from: NodeId, msg: PaxosMsg<V>) -> (actions: Vec<Action<V>>)
        requires
            old(self).inv(),
        ensures
            final(self).inv(),
            final(self)@ == old(self)@.step_message(from, msg).0,
            actions@ == old(self)@.step_message(from, msg).1,
    {
        let ghost pre = self@;
        match msg {
            PaxosMsg::Promise { accepted_proposal, proposal_response } => {
                let round = self.round.take();
                match round {
                    Option::None => Vec::new(),
                    Option::Some(mut r) => {
                        if !(r.proposal_id == proposal_response) {
                            self.round = Option::Some(r);
                            return Vec::new();
                        }
                        if contains_node(&r.promises_from, from) {
                            self.round = Option::Some(r);
                            proof {
                                assert(self@ == pre);
                            }
                            return Vec::new();
                        }
                        let ghost old_promises = r.promises_from@;
                        r.promises_from.push(from);
                        proof {
                            old_promises.lemma_push_to_set_commute(from);
                            old_promises.unique_seq_to_set();
                            r.promises_from@.unique_seq_to_set();
                        }
                        match accepted_proposal {
                            Option::Some(p) => {
                                let replace = match r.highest_accepted {
                                    Option::Some(best) => p.id.gt(best.id),
                                    Option::None => true,
                                };
                                if replace {
                                    r.highest_accepted = Option::Some(p);
                                }
                            },
                            Option::None => {},
                        }
                        let count = r.promises_from.len() as u64;
                        let pid = r.proposal_id;
                        let v = match r.highest_accepted {
                            Option::Some(p) => p.value,
                            Option::None => self.candidate_value,
                        };
                        self.round = Option::Some(r);
                        if count == self.quorum {
                            let actions = self.broadcast_accept(pid, v);
                            proof {
                                assert(self@ == pre.step_message(from, msg).0);
                                assert(actions@ =~= pre.step_message(from, msg).1);
                            }
                            actions
                        } else {
                            proof {
                                assert(self@ == pre.step_message(from, msg).0);
                            }
                            Vec::new()
                        }
                    },
                }
            },
            PaxosMsg::Accepted { proposal } => {
                let round = self.round.take();
                match round {
                    Option::None => Vec::new(),
                    Option::Some(mut r) => {
                        if !(proposal.id == r.proposal_id) {
                            self.round = Option::Some(r);
                            return Vec::new();
                        }
                        if contains_node(&r.accept_acks, from) {
                            self.round = Option::Some(r);
                            proof {
                                assert(self@ == pre);
                            }
                            return Vec::new();
                        }
                        let ghost old_acks = r.accept_acks@;
                        r.accept_acks.push(from);
                        proof {
                            old_acks.lemma_push_to_set_commute(from);
                            old_acks.unique_seq_to_set();
                            r.accept_acks@.unique_seq_to_set();
                        }
                        let count = r.accept_acks.len() as u64;
                        if count == self.quorum {
                            let mut actions: Vec<Action<V>> = Vec::new();
                            actions.push(Action::ChoseValue { v: proposal.value });
                            actions.push(Action::CancelTimer { id: self.timer_id });
                            proof {
                                assert(self@ == pre.step_message(from, msg).0);
                                assert(actions@ =~= pre.step_message(from, msg).1);
                            }
                            actions
                        } else {
                            self.round = Option::Some(r);
                            proof {
                                assert(self@ == pre.step_message(from, msg).0);
                            }
                            Vec::new()
                        }
                    },
                }
            },
            _ => Vec::new(),
        }
    }

    /// Handles a timer expiry: stale identifiers are ignored; the live one
    /// doubles the backoff and restarts a round under a fresh proposal
    /// identifier.
    pub fn on_timeout(&mut self, id: TimerId) -> (actions: Vec<Action<V>>)
        requires
            old(self).inv(),
        ensures
            final(self).inv(),
            final(self)@ == old(self)@.step_timeout(id).0,
            actions@ == old(self)@.step_timeout(id).1,
    {
        if !(self.timer_id == id) {
            return Vec::new();
        }
        if self.timer_ms > u64::MAX / 2 {
            self.timer_ms = u64::MAX;
        } else {
            self.timer_ms = 2 * self.timer_ms;
        }
        self.start_round()
    }

    /// Unified dispatcher over the two event kinds.
    pub fn on_event(&mut self, e: Event<V>) -> (actions: Vec<Action<V>>)
        requires
            old(self).inv(),
        ensures
            final(self).inv(),
            final(self)@ == old(self)@.step_event(e).0,
            actions@ == old(self)@.step_event(e).1,
    {
        match e {
            Event::Message { from, msg } => self.on_message(from, msg),
            Event::Timeout { id } => self.on_timeout(id),
        }
    }
}

impl<V: Copy> HandlesEvents<V> for Proposer<V> {
    open spec fn wf(&self) -> bool {
        self.inv()
    }

    fn on_init(&mut self) -> (actions: Vec<Action<V>>) {
        Proposer::on_init(self)
    }

    fn on_message(&mut self, from: NodeId, msg: PaxosMsg<V>) -> (actions: Vec<Action<V>>) {
        Proposer::on_message(self, from, msg)
    }

    fn on_timeout(&mut self, id: TimerId) -> (actions: Vec<Action<V>>) {
        Proposer::on_timeout(self, id)
    }

    fn on_event(&mut self, e: Event<V>) -> (actions: Vec<Action<V>>) {
        Proposer::on_event(self, e)
    }
}

} // verus!
