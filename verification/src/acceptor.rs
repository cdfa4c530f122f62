//! The Acceptor role: enforces the Paxos safety rules at the acceptance
//! layer and notifies Learners on acceptance.

use vstd::prelude::*;

use crate::msg::PaxosMsg;
use crate::proposer::Proposal;
use crate::types::Action;
use crate::types::Event;
use crate::types::HandlesEvents;
use crate::types::NodeContext;
use crate::types::NodeId;
use crate::types::ProposalId;
use crate::types::TimerId;
use crate::types::opt_pid_le;

verus! {

/// The abstract state of an acceptor: everything its behaviour depends on.
pub struct AcceptorView<V> {
    pub node_id: NodeId,
    pub number_of_nodes: u64,
    pub latest_accepted: Option<Proposal<V>>,
    pub latest_promise: Option<ProposalId>,
    pub learners: Seq<NodeId>,
}

impl<V> AcceptorView<V> {
    /// Whenever something has been accepted, a promise at least as high is
    /// in place.
    pub open spec fn wf(self) -> bool {
        match self.latest_accepted {
            Option::Some(p) => self.latest_promise matches Option::Some(n) && p.id.spec_le(n),
            Option::None => true,
        }
    }

    /// The promise rule: a proposal identifier passes when no promise is in
    /// place yet, or when it is at least the promised one.
    pub open spec fn admits(self, n: ProposalId) -> bool {
        match self.latest_promise {
            Option::None => true,
            Option::Some(p) => p.spec_le(n),
        }
    }

    /// Transition on `Prepare { proposal_id: n, from: proposer }`: promise
    /// `n` and reply with whatever was last accepted, or drop the message.
    pub open spec fn step_prepare(self, n: ProposalId, proposer: NodeId) -> (AcceptorView<V>, Seq<
        Action<V>,
    >) {
        if self.admits(n) {
            (
                AcceptorView {
                    node_id: self.node_id,
                    number_of_nodes: self.number_of_nodes,
                    latest_accepted: self.latest_accepted,
                    latest_promise: Option::Some(n),
                    learners: self.learners,
                },
                seq![
                    (Action::Send {
                        to: proposer,
                        from: self.node_id,
                        msg: PaxosMsg::Promise {
                            accepted_proposal: self.latest_accepted,
                            proposal_response: n,
                        },
                    }),
                ],
            )
        } else {
            (self, Seq::<Action<V>>::empty())
        }
    }

    /// One `Accepted` notification per configured learner, in order.
    pub open spec fn accepted_broadcast(self, p: Proposal<V>) -> Seq<Action<V>> {
        Seq::new(
            self.learners.len(),
            |i: int|
                Action::Send {
                    to: self.learners[i],
                    from: self.node_id,
                    msg: PaxosMsg::Accepted { proposal: p },
                },
        )
    }

    /// Transition on `AcceptProposal { proposal_id: n, value: v }`: accept
    /// and notify every learner, or drop the message silently.
    pub open spec fn step_accept(self, n: ProposalId, v: V) -> (AcceptorView<V>, Seq<Action<V>>) {
        if self.admits(n) {
            let p = Proposal { id: n, value: v };
            (
                AcceptorView {
                    node_id: self.node_id,
                    number_of_nodes: self.number_of_nodes,
                    latest_accepted: Option::Some(p),
                    latest_promise: Option::Some(n),
                    learners: self.learners,
                },
                self.accepted_broadcast(p),
            )
        } else {
            (self, Seq::<Action<V>>::empty())
        }
    }

    /// Transition on any inbound message; everything but `Prepare` and
    /// `AcceptProposal` is ignored.
    pub open spec fn step_message(self, from: NodeId, msg: PaxosMsg<V>) -> (AcceptorView<V>, Seq<
        Action<V>,
    >) {
        match msg {
            PaxosMsg::Prepare { proposal_id, from: proposer } => self.step_prepare(
                proposal_id,
                proposer,
            ),
            PaxosMsg::AcceptProposal { proposal_id, value } => self.step_accept(
                proposal_id,
                value,
            ),
            _ => (self, Seq::<Action<V>>::empty()),
        }
    }
}

/// An acceptor's `latest_promise` never decreases, whatever message arrives.
pub proof fn lemma_acceptor_promise_monotonic<V>(a: AcceptorView<V>, from: NodeId, msg: PaxosMsg<
    V,
>)
    ensures
        opt_pid_le(a.latest_promise, a.step_message(from, msg).0.latest_promise),
{
}

/// Handling a message preserves the acceptor invariant: the accepted
/// proposal never exceeds the promise.
pub proof fn lemma_acceptor_wf_preserved<V>(a: AcceptorView<V>, from: NodeId, msg: PaxosMsg<V>)
    requires
        a.wf(),
    ensures
        a.step_message(from, msg).0.wf(),
{
}

/// Replying to a `Prepare` is idempotent: delivering the same `Prepare`
/// twice produces a second `Promise` with identical contents.
pub proof fn lemma_prepare_idempotent<V>(a: AcceptorView<V>, n: ProposalId, proposer: NodeId)
    ensures
        ({
            let (a1, out1) = a.step_prepare(n, proposer);
            let (a2, out2) = a1.step_prepare(n, proposer);
            out1.len() > 0 ==> out2 == out1
        }),
{
}

/// Executable acceptor state, as configured by the driver.
pub struct Acceptor<V> {
    pub context: NodeContext,
    pub node_id: NodeId,
    pub latest_accepted_proposal: Option<Proposal<V>>,
    pub latest_promise: Option<ProposalId>,
    pub learners: Vec<NodeId>,
}

impl<V> View for Acceptor<V> {
    type V = AcceptorView<V>;

    open spec fn view(&self) -> AcceptorView<V> {
        AcceptorView {
            node_id: self.node_id,
            number_of_nodes: self.context.number_of_nodes,
            latest_accepted: self.latest_accepted_proposal,
            latest_promise: self.latest_promise,
            learners: self.learners@,
        }
    }
}

impl<V: Copy> Acceptor<V> {
    /// A fresh acceptor: nothing promised, nothing accepted.
    pub fn new(node_id: NodeId, context: NodeContext, learners: Vec<NodeId>) -> (a: Acceptor<V>)
        ensures
            a@.node_id == node_id,
            a@.number_of_nodes == context.number_of_nodes,
            a@.latest_promise is None,
            a@.latest_accepted is None,
            a@.learners == learners@,
            a@.wf(),
    {
        Acceptor {
            node_id,
            context,
            latest_accepted_proposal: Option::None,
            latest_promise: Option::None,
            learners,
        }
    }

    /// Sends `msg` to every configured learner, in order.
    fn learners_broadcast(&self, msg: PaxosMsg<V>) -> (actions: Vec<Action<V>>)
        ensures
            actions@.len() == self@.learners.len(),
            forall|i: int|
                0 <= i < actions@.len() ==> actions@[i] == (Action::Send {
                    to: self@.learners[i],
                    from: self@.node_id,
                    msg,
                }),
    {
        let mut actions: Vec<Action<V>> = Vec::new();
        let mut i: usize = 0;
        while i < self.learners.len()
            invariant
                i <= self@.learners.len(),
                actions@.len() == i,
                forall|j: int|
                    0 <= j < i ==> actions@[j] == (Action::Send {
                        to: self@.learners[j],
                        from: self@.node_id,
                        msg,
                    }),
            decreases self@.learners.len() - i,
        {
            actions.push(Action::Send { to: self.learners[i], from: self.node_id, msg });
            i = i + 1;
        }
        actions
    }

    /// Handles an inbound message exactly as the abstract transition says.
    pub fn on_message(&mut self, from: NodeId, msg: PaxosMsg<V>) -> (actions: Vec<Action<V>>)
        ensures
            final(self)@ == old(self)@.step_message(from, msg).0,
            actions@ == old(self)@.step_message(from, msg).1,
            opt_pid_le(old(self)@.latest_promise, final(self)@.latest_promise),
            old(self)@.wf() ==> final(self)@.wf(),
    {
        proof {
            lemma_acceptor_promise_monotonic(self@, from, msg);
            if self@.wf() {
                lemma_acceptor_wf_preserved(self@, from, msg);
            }
        }
        match msg {
            PaxosMsg::Prepare { proposal_id, from: proposer } => {
                let can_promise = match self.latest_promise {
                    Option::None => true,
                    Option::Some(p) => proposal_id.ge(p),
                };
                if can_promise {
                    let reply = PaxosMsg::Promise {
                        accepted_proposal: self.latest_accepted_proposal,
                        proposal_response: proposal_id,
                    };
                    self.latest_promise = Option::Some(proposal_id);
                    let mut actions: Vec<Action<V>> = Vec::new();
                    actions.push(Action::Send { to: proposer, from: self.node_id, msg: reply });
                    proof {
                        assert(actions@ =~= old(self)@.step_message(from, msg).1);
                    }
                    actions
                } else {
                    Vec::new()
                }
            },
            PaxosMsg::AcceptProposal { proposal_id, value } => {
                let can_accept = match self.latest_promise {
                    Option::None => true,
                    Option::Some(p) => proposal_id.ge(p),
                };
                if can_accept {
                    let accepted = Proposal { id: proposal_id, value };
                    self.latest_promise = Option::Some(proposal_id);
                    self.latest_accepted_proposal = Option::Some(accepted);
                    let actions = self.learners_broadcast(
                        PaxosMsg::Accepted { proposal: accepted },
                    );
                    proof {
                        assert(actions@ =~= old(self)@.step_message(from, msg).1);
                    }
                    actions
                } else {
                    Vec::new()
                }
            },
            _ => Vec::new(),
        }
    }

    /// An acceptor emits nothing on creation.
    pub fn on_init(&mut self) -> (actions: Vec<Action<V>>)
        ensures
            *final(self) == *old(self),
            actions@ == Seq::<Action<V>>::empty(),
    {
        Vec::new()
    }

    /// Timers are a proposer concern; an acceptor ignores every expiry.
    pub fn on_timeout(&mut self, id: TimerId) -> (actions: Vec<Action<V>>)
        ensures
            *final(self) == *old(self),
            actions@ == Seq::<Action<V>>::empty(),
    {
        Vec::new()
    }

    /// Unified dispatcher over the two event kinds.
    pub fn on_event(&mut self, e: Event<V>) -> (actions: Vec<Action<V>>)
        ensures
            ({
                match e {
                    Event::Message { from, msg } => final(self)@ == old(self)@.step_message(
                        from,
                        msg,
                    ).0 && actions@ == old(self)@.step_message(from, msg).1,
                    Event::Timeout { id } => *final(self) == *old(self) && actions@.len() == 0,
                }
            }),
            old(self)@.wf() ==> final(self)@.wf(),
    {
        match e {
            Event::Message { from, msg } => self.on_message(from, msg),
            Event::Timeout { id } => self.on_timeout(id),
        }
    }
}

impl<V: Copy> HandlesEvents<V> for Acceptor<V> {
    open spec fn wf(&self) -> bool {
        self@.wf()
    }

    fn on_init(&mut self) -> (actions: Vec<Action<V>>) {
        Acceptor::on_init(self)
    }

    fn on_message(&mut self, from: NodeId, msg: PaxosMsg<V>) -> (actions: Vec<Action<V>>) {
        Acceptor::on_message(self, from, msg)
    }

    fn on_timeout(&mut self, id: TimerId) -> (actions: Vec<Action<V>>) {
        Acceptor::on_timeout(self, id)
    }

    fn on_event(&mut self, e: Event<V>) -> (actions: Vec<Action<V>>) {
        Acceptor::on_event(self, e)
    }
}

} // verus!
