//! The agreement argument of the protocol, proved over an abstraction of a
//! whole cluster: quorum intersection; a voting model whose steps are the
//! promise, accept, and propose rules the roles implement; the inductive
//! invariant those steps preserve; and the agreement theorem — in every
//! execution of the rules, any two chosen proposals carry the same value.

use vstd::prelude::*;

use vstd::set_lib::lemma_len_subset;
use vstd::set_lib::lemma_set_disjoint_lens;

use crate::acceptor::AcceptorView;
use crate::learner::LearnerView;
use crate::proposer::Proposal;
use crate::types::NodeContext;
use crate::types::NodeId;
use crate::types::ProposalId;
use crate::types::opt_pid_le;

verus! {

/// Any two quorum-sized subsets of the same finite universe of acceptors
/// share a member.  This intersection property is what lets separate
/// quorums constrain each other.
pub proof fn lemma_quorum_overlap(q1: Set<NodeId>, q2: Set<NodeId>, all: Set<NodeId>, quorum: int)
    requires
        all.finite(),
        q1.finite(),
        q2.finite(),
        q1.subset_of(all),
        q2.subset_of(all),
        q1.len() >= quorum,
        q2.len() >= quorum,
        2 * quorum > all.len(),
    ensures
        exists|a: NodeId| q1.contains(a) && q2.contains(a),
{
    if !(exists|a: NodeId| q1.contains(a) && q2.contains(a)) {
        assert(q1.disjoint(q2));
        lemma_set_disjoint_lens(q1, q2);
        assert((q1 + q2).len() == q1.len() + q2.len());
        assert((q1 + q2).subset_of(all));
        lemma_len_subset(q1 + q2, all);
        assert(false);
    }
}

/// The quorum size every role derives from the cluster size is a strict
/// majority: two such quorums together exceed the cluster.
pub proof fn lemma_quorum_is_majority(ctx: NodeContext)
    ensures
        2 * ctx.spec_quorum() > ctx.number_of_nodes as int,
{
}

/// The acceptance state of a whole cluster, abstracted to what the safety
/// argument depends on: which acceptors promised how far, which votes
/// (`Accepted` notifications) were cast, and which proposals
/// (`AcceptProposal` broadcasts) were made.
#[verifier::reject_recursive_types(V)]
pub struct VoteState<V> {
    /// The universe of acceptors.
    pub all: Set<NodeId>,
    /// The quorum size every role was configured with.
    pub quorum: int,
    /// Each acceptor's `latest_promise`.
    pub maxbal: Map<NodeId, Option<ProposalId>>,
    /// Every `Accepted` notification any acceptor ever sent.
    pub votes: Set<(NodeId, Proposal<V>)>,
    /// Every proposal any proposer ever asked acceptors to accept.
    pub proposals: Set<Proposal<V>>,
}

impl<V> VoteState<V> {
    /// A finite cluster, a majority quorum, and promise bookkeeping for
    /// every acceptor.
    pub open spec fn wf(self) -> bool {
        &&& self.all.finite()
        &&& self.quorum >= 1
        &&& 2 * self.quorum > self.all.len()
        &&& self.maxbal.dom() == self.all
    }

    /// A quorum-sized set of acceptors.
    pub open spec fn is_quorum(self, q: Set<NodeId>) -> bool {
        q.subset_of(self.all) && q.finite() && q.len() >= self.quorum
    }

    /// Acceptor `a` sent `Accepted` for exactly `p`.
    pub open spec fn voted(self, a: NodeId, p: Proposal<V>) -> bool {
        self.votes.contains((a, p))
    }

    /// Acceptor `a` could still accept a proposal at round `b`.
    pub open spec fn can_vote_at(self, a: NodeId, b: ProposalId) -> bool {
        opt_pid_le(self.maxbal[a], Option::Some(b))
    }

    /// Value `v` could still be chosen at round `b`: some quorum exists in
    /// which every member either already voted `(b, v)` or has made no
    /// promise that rules out doing so.
    pub open spec fn choosable(self, b: ProposalId, v: V) -> bool {
        exists|q: Set<NodeId>|
            #[trigger] self.is_quorum(q) && (forall|a: NodeId|
                q.contains(a) ==> self.voted(a, Proposal { id: b, value: v })
                    || self.can_vote_at(a, b))
    }

    /// Nothing that could still be chosen below `p.id` differs from
    /// `p.value`.
    pub open spec fn safe_at(self, p: Proposal<V>) -> bool {
        forall|b: ProposalId, v: V|
            b.spec_lt(p.id) && #[trigger] self.choosable(b, v) ==> v == p.value
    }

    /// A quorum of acceptors voted for `p`.
    pub open spec fn chosen(self, p: Proposal<V>) -> bool {
        exists|q: Set<NodeId>|
            #[trigger] self.is_quorum(q) && (forall|a: NodeId|
                q.contains(a) ==> self.voted(a, p))
    }

    /// The inductive invariant of the protocol: votes are cast by cluster
    /// members for proposals that were made; each round carries at most one
    /// value; an acceptor's promise covers every vote it cast; and every
    /// proposal made is safe.
    pub open spec fn inv(self) -> bool {
        &&& self.wf()
        &&& forall|x: (NodeId, Proposal<V>)|
            #[trigger] self.votes.contains(x) ==> self.all.contains(x.0)
                && self.proposals.contains(x.1)
        &&& forall|p1: Proposal<V>, p2: Proposal<V>|
            #[trigger] self.proposals.contains(p1) && #[trigger] self.proposals.contains(p2)
                && p1.id == p2.id ==> p1.value == p2.value
        &&& forall|x: (NodeId, Proposal<V>)|
            #[trigger] self.votes.contains(x) ==> opt_pid_le(
                Option::Some(x.1.id),
                self.maxbal[x.0],
            )
        &&& forall|p: Proposal<V>| #[trigger] self.proposals.contains(p) ==> self.safe_at(p)
    }

    /// The starting state: nothing promised, nothing proposed, nothing
    /// voted.
    pub open spec fn init(self) -> bool {
        &&& self.wf()
        &&& self.votes == Set::<(NodeId, Proposal<V>)>::empty()
        &&& self.proposals == Set::<Proposal<V>>::empty()
        &&& forall|a: NodeId| self.all.contains(a) ==> #[trigger] self.maxbal[a] is None
    }
}

/// An acceptor `a` answers `Prepare` at round `b`: allowed exactly when it
/// has not promised above `b`; its promise becomes `b`.
pub open spec fn promise_step<V>(
    pre: VoteState<V>,
    post: VoteState<V>,
    a: NodeId,
    b: ProposalId,
) -> bool {
    &&& pre.all.contains(a)
    &&& opt_pid_le(pre.maxbal[a], Option::Some(b))
    &&& post == (VoteState {
        maxbal: pre.maxbal.insert(a, Option::Some(b)),
        ..pre
    })
}

/// An acceptor `a` accepts proposal `p`: allowed exactly when it has not
/// promised above `p.id`; it casts its vote and raises its promise to
/// `p.id`.
pub open spec fn vote_step<V>(
    pre: VoteState<V>,
    post: VoteState<V>,
    a: NodeId,
    p: Proposal<V>,
) -> bool {
    &&& pre.all.contains(a)
    &&& pre.proposals.contains(p)
    &&& opt_pid_le(pre.maxbal[a], Option::Some(p.id))
    &&& post == (VoteState {
        maxbal: pre.maxbal.insert(a, Option::Some(p.id)),
        votes: pre.votes.insert((a, p)),
        ..pre
    })
}

/// The proposer owning round `p.id` finishes Phase 1 against quorum `q` and
/// broadcasts `AcceptProposal { p.id, p.value }`: every member of `q`
/// promised at or above `p.id`; no proposal was ever made for this round
/// before; and `p.value` repeats the value of the highest vote any member
/// cast below `p.id` — reported as `prior` — or is free when no member
/// voted below `p.id`.
pub open spec fn propose_step<V>(
    pre: VoteState<V>,
    post: VoteState<V>,
    p: Proposal<V>,
    q: Set<NodeId>,
    prior: Option<Proposal<V>>,
) -> bool {
    &&& pre.is_quorum(q)
    &&& forall|a: NodeId| #[trigger] q.contains(a) ==> opt_pid_le(Option::Some(p.id), pre.maxbal[a])
    &&& forall|pp: Proposal<V>| #[trigger] pre.proposals.contains(pp) ==> pp.id != p.id
    &&& match prior {
        Option::None => forall|a: NodeId, pp: Proposal<V>|
            #[trigger] q.contains(a) && #[trigger] pre.voted(a, pp) ==> !pp.id.spec_lt(p.id),
        Option::Some(pr) => {
            &&& exists|a: NodeId| #[trigger] q.contains(a) && pre.voted(a, pr)
            &&& pr.id.spec_lt(p.id)
            &&& forall|a: NodeId, pp: Proposal<V>|
                #[trigger] q.contains(a) && #[trigger] pre.voted(a, pp) && pp.id.spec_lt(p.id)
                    ==> pp.id.spec_le(pr.id)
            &&& p.value == pr.value
        },
    }
    &&& post == (VoteState { proposals: pre.proposals.insert(p), ..pre })
}

/// The starting state satisfies the invariant.
pub proof fn lemma_init_inv<V>(s: VoteState<V>)
    requires
        s.init(),
    ensures
        s.inv(),
{
}

/// Promising preserves the invariant: a higher promise only narrows what is
/// still choosable.
pub proof fn lemma_promise_preserves_inv<V>(
    pre: VoteState<V>,
    post: VoteState<V>,
    a: NodeId,
    b: ProposalId,
)
    requires
        pre.inv(),
        promise_step(pre, post, a, b),
    ensures
        post.inv(),
{
    assert forall|b2: ProposalId, v: V| #[trigger] post.choosable(b2, v) implies pre.choosable(
        b2,
        v,
    ) by {
        let q = choose|q: Set<NodeId>|
            #[trigger] post.is_quorum(q) && (forall|x: NodeId|
                q.contains(x) ==> post.voted(x, Proposal { id: b2, value: v })
                    || post.can_vote_at(x, b2));
        assert(pre.is_quorum(q));
        assert forall|x: NodeId| q.contains(x) implies pre.voted(
            x,
            Proposal { id: b2, value: v },
        ) || pre.can_vote_at(x, b2) by {
            if !pre.voted(x, Proposal { id: b2, value: v }) && x == a {
                assert(post.can_vote_at(a, b2));
            }
        }
    }
    assert(post.maxbal.dom() =~= pre.all);
    assert forall|p: Proposal<V>| #[trigger] post.proposals.contains(p) implies post.safe_at(
        p,
    ) by {
        assert(pre.safe_at(p));
        assert forall|b2: ProposalId, v: V|
            b2.spec_lt(p.id) && #[trigger] post.choosable(b2, v) implies v == p.value by {
            assert(pre.choosable(b2, v));
        }
    }
}

/// Voting preserves the invariant: a vote at a round the acceptor is still
/// free to vote at creates no new possibility that its promise did not
/// already allow.
pub proof fn lemma_vote_preserves_inv<V>(
    pre: VoteState<V>,
    post: VoteState<V>,
    a: NodeId,
    p: Proposal<V>,
)
    requires
        pre.inv(),
        vote_step(pre, post, a, p),
    ensures
        post.inv(),
{
    assert forall|b2: ProposalId, v: V| #[trigger] post.choosable(b2, v) implies pre.choosable(
        b2,
        v,
    ) by {
        let q = choose|q: Set<NodeId>|
            #[trigger] post.is_quorum(q) && (forall|x: NodeId|
                q.contains(x) ==> post.voted(x, Proposal { id: b2, value: v })
                    || post.can_vote_at(x, b2));
        assert(pre.is_quorum(q));
        assert forall|x: NodeId| q.contains(x) implies pre.voted(
            x,
            Proposal { id: b2, value: v },
        ) || pre.can_vote_at(x, b2) by {
            if x == a {
                if post.voted(a, Proposal { id: b2, value: v }) && !pre.voted(
                    a,
                    Proposal { id: b2, value: v },
                ) {
                    // the fresh vote: it sits exactly at p.id, which the old
                    // promise still allowed
                    assert(Proposal { id: b2, value: v } == p);
                    assert(pre.can_vote_at(a, b2));
                }
                if post.can_vote_at(a, b2) {
                    assert(pre.can_vote_at(a, b2));
                }
            }
        }
    }
    assert(post.maxbal.dom() =~= pre.all);
    assert forall|p2: Proposal<V>| #[trigger] post.proposals.contains(p2) implies post.safe_at(
        p2,
    ) by {
        assert(pre.safe_at(p2));
        assert forall|b2: ProposalId, v: V|
            b2.spec_lt(p2.id) && #[trigger] post.choosable(b2, v) implies v == p2.value by {
            assert(pre.choosable(b2, v));
        }
    }
}

/// Proposing preserves the invariant.  The new proposal is safe: below the
/// reported highest prior vote its value is protected by that vote's own
/// proposal; at the prior vote's round every round carries one value; and
/// between that round and the new one, the quorum's promises leave no
/// quorum able to choose anything.
pub proof fn lemma_propose_preserves_inv<V>(
    pre: VoteState<V>,
    post: VoteState<V>,
    p: Proposal<V>,
    q: Set<NodeId>,
    prior: Option<Proposal<V>>,
)
    requires
        pre.inv(),
        propose_step(pre, post, p, q, prior),
    ensures
        post.inv(),
{
    assert forall|b2: ProposalId, v: V| #[trigger] post.choosable(b2, v) implies pre.choosable(
        b2,
        v,
    ) by {
        let qw = choose|qq: Set<NodeId>|
            #[trigger] post.is_quorum(qq) && (forall|x: NodeId|
                qq.contains(x) ==> post.voted(x, Proposal { id: b2, value: v })
                    || post.can_vote_at(x, b2));
        assert(pre.is_quorum(qw));
        assert(forall|x: NodeId|
            qw.contains(x) ==> pre.voted(x, Proposal { id: b2, value: v }) || pre.can_vote_at(
                x,
                b2,
            ));
    }
    // every previously made proposal stays safe
    assert forall|p2: Proposal<V>|
        #[trigger] post.proposals.contains(p2) && p2 != p implies post.safe_at(p2) by {
        assert(pre.proposals.contains(p2));
        assert(pre.safe_at(p2));
    }
    // the new proposal is safe
    assert forall|b2: ProposalId, v: V|
        b2.spec_lt(p.id) && #[trigger] post.choosable(b2, v) implies v == p.value by {
        assert(pre.choosable(b2, v));
        let qw = choose|qq: Set<NodeId>|
            #[trigger] pre.is_quorum(qq) && (forall|x: NodeId|
                qq.contains(x) ==> pre.voted(x, Proposal { id: b2, value: v })
                    || pre.can_vote_at(x, b2));
        lemma_quorum_overlap(q, qw, pre.all, pre.quorum);
        let c = choose|c: NodeId| q.contains(c) && qw.contains(c);
        // the common member promised at or above p.id, so it can no longer
        // vote below p.id: it must have voted (b2, v) already
        assert(!pre.can_vote_at(c, b2));
        assert(pre.voted(c, Proposal { id: b2, value: v }));
        let vote_p = Proposal { id: b2, value: v };
        match prior {
            Option::None => {
                assert(false);
            },
            Option::Some(pr) => {
                assert(vote_p.id.spec_le(pr.id));
                let ar = choose|ar: NodeId| #[trigger] q.contains(ar) && pre.voted(ar, pr);
                assert(pre.proposals.contains(pr));
                assert(pre.proposals.contains(vote_p));
                if b2 == pr.id {
                    assert(v == pr.value);
                } else {
                    assert(b2.spec_lt(pr.id));
                    assert(pre.safe_at(pr));
                    assert(v == pr.value);
                }
            },
        }
    }
    assert forall|p2: Proposal<V>| #[trigger] post.proposals.contains(p2) implies post.safe_at(
        p2,
    ) by {
        if p2 == p {
            assert forall|b2: ProposalId, v: V|
                b2.spec_lt(p2.id) && #[trigger] post.choosable(b2, v) implies v == p2.value by {}
        }
    }
}

/// One protocol step: an acceptor answers a `Prepare`, an acceptor accepts
/// a proposal, or a proposer completes Phase 1 and proposes.
pub open spec fn next_step<V>(pre: VoteState<V>, post: VoteState<V>) -> bool {
    ||| exists|a: NodeId, b: ProposalId| #[trigger] promise_step(pre, post, a, b)
    ||| exists|a: NodeId, p: Proposal<V>| #[trigger] vote_step(pre, post, a, p)
    ||| exists|p: Proposal<V>, q: Set<NodeId>, prior: Option<Proposal<V>>|
        #[trigger] propose_step(pre, post, p, q, prior)
}

/// Every protocol step preserves the invariant.
pub proof fn lemma_next_preserves_inv<V>(pre: VoteState<V>, post: VoteState<V>)
    requires
        pre.inv(),
        next_step(pre, post),
    ensures
        post.inv(),
{
    if exists|a: NodeId, b: ProposalId| #[trigger] promise_step(pre, post, a, b) {
        let (a, b) = choose|a: NodeId, b: ProposalId| #[trigger] promise_step(pre, post, a, b);
        lemma_promise_preserves_inv(pre, post, a, b);
    } else if exists|a: NodeId, p: Proposal<V>| #[trigger] vote_step(pre, post, a, p) {
        let (a, p) = choose|a: NodeId, p: Proposal<V>| #[trigger] vote_step(pre, post, a, p);
        lemma_vote_preserves_inv(pre, post, a, p);
    } else {
        let (p, q, prior) = choose|p: Proposal<V>, q: Set<NodeId>, prior: Option<Proposal<V>>|
            #[trigger] propose_step(pre, post, p, q, prior);
        lemma_propose_preserves_inv(pre, post, p, q, prior);
    }
}

/// An execution: a nonempty run of states that starts in the initial state
/// and moves by protocol steps.
pub open spec fn execution<V>(tr: Seq<VoteState<V>>) -> bool {
    &&& tr.len() > 0
    &&& tr[0].init()
    &&& forall|i: int| 0 <= i < tr.len() - 1 ==> #[trigger] next_step(tr[i], tr[i + 1])
}

/// Every state of an execution satisfies the invariant.
pub proof fn lemma_execution_inv<V>(tr: Seq<VoteState<V>>, i: int)
    requires
        execution(tr),
        0 <= i < tr.len(),
    ensures
        tr[i].inv(),
    decreases i,
{
    if i == 0 {
        lemma_init_inv(tr[0]);
    } else {
        lemma_execution_inv(tr, i - 1);
        assert(next_step(tr[i - 1], tr[(i - 1) + 1]));
        lemma_next_preserves_inv(tr[i - 1], tr[i]);
    }
}

/// The agreement property over whole executions: whenever two proposals are
/// chosen — a quorum of acceptors voted for each, which is exactly what a
/// learner requires before it decides — the two carry the same value, at
/// any point of any execution of the protocol rules.
pub proof fn lemma_execution_agreement<V>(
    tr: Seq<VoteState<V>>,
    i: int,
    p1: Proposal<V>,
    p2: Proposal<V>,
)
    requires
        execution(tr),
        0 <= i < tr.len(),
        tr[i].chosen(p1),
        tr[i].chosen(p2),
    ensures
        p1.value == p2.value,
{
    lemma_execution_inv(tr, i);
    lemma_agreement(tr[i], p1, p2);
}

/// Agreement: under the invariant, any two chosen proposals carry the same
/// value.  Decisions are chosen proposals, so any two decisions agree.
pub proof fn lemma_agreement<V>(s: VoteState<V>, p1: Proposal<V>, p2: Proposal<V>)
    requires
        s.inv(),
        s.chosen(p1),
        s.chosen(p2),
    ensures
        p1.value == p2.value,
{
    lemma_chosen_is_proposal(s, p1);
    lemma_chosen_is_proposal(s, p2);
    if p1.id == p2.id {
    } else if p1.id.spec_lt(p2.id) {
        lemma_chosen_choosable(s, p1);
        assert(s.safe_at(p2));
    } else {
        assert(p2.id.spec_lt(p1.id));
        lemma_chosen_choosable(s, p2);
        assert(s.safe_at(p1));
    }
}

/// An acceptor that admits a `Prepare` performs exactly a promise step of
/// the protocol model, seen through its own slot of the cluster state; one
/// that does not admit it leaves the cluster state untouched.
pub proof fn lemma_acceptor_prepare_refines<V>(
    s: VoteState<V>,
    a: AcceptorView<V>,
    n: ProposalId,
    proposer: NodeId,
)
    requires
        s.all.contains(a.node_id),
        s.maxbal[a.node_id] == a.latest_promise,
        a.admits(n),
    ensures
        ({
            let a2 = a.step_prepare(n, proposer).0;
            let s2 = VoteState { maxbal: s.maxbal.insert(a.node_id, a2.latest_promise), ..s };
            promise_step(s, s2, a.node_id, n) && s2.maxbal[a.node_id] == a2.latest_promise
        }),
{
}

/// An acceptor that admits an `AcceptProposal` echoing a proposal that was
/// really made performs exactly a vote step of the protocol model.
pub proof fn lemma_acceptor_accept_refines<V>(s: VoteState<V>, a: AcceptorView<V>, n: ProposalId, v: V)
    requires
        s.all.contains(a.node_id),
        s.maxbal[a.node_id] == a.latest_promise,
        s.proposals.contains(Proposal { id: n, value: v }),
        a.admits(n),
    ensures
        ({
            let a2 = a.step_accept(n, v).0;
            let s2 = VoteState {
                maxbal: s.maxbal.insert(a.node_id, a2.latest_promise),
                votes: s.votes.insert((a.node_id, Proposal { id: n, value: v })),
                ..s
            };
            &&& vote_step(s, s2, a.node_id, Proposal { id: n, value: v })
            &&& a2.latest_accepted == Option::Some(Proposal { id: n, value: v })
        }),
{
}

/// A learner's decision marks a chosen proposal: when the acknowledgment
/// completing its quorum arrives, and every recorded acknowledgment really
/// echoes a vote some acceptor cast, the decided proposal is `chosen` in
/// the protocol model — so `lemma_agreement` applies to it.
pub proof fn lemma_learner_decision_chosen<V>(
    s: VoteState<V>,
    l: LearnerView<V>,
    from: NodeId,
    pid: ProposalId,
    v: V,
)
    requires
        l.quorum == s.quorum,
        l.ack_set(pid).finite(),
        l.ack_set(pid).insert(from).len() >= l.quorum,
        forall|a: NodeId|
            #[trigger] l.ack_set(pid).contains(a) ==> s.all.contains(a) && s.votes.contains(
                (a, Proposal { id: pid, value: v }),
            ),
        s.all.contains(from),
        s.votes.contains((from, Proposal { id: pid, value: v })),
    ensures
        s.chosen(Proposal { id: pid, value: v }),
{
    let q = l.ack_set(pid).insert(from);
    assert(s.is_quorum(q) && (forall|a: NodeId|
        q.contains(a) ==> s.voted(a, Proposal { id: pid, value: v })));
}

/// A chosen proposal was proposed.
proof fn lemma_chosen_is_proposal<V>(s: VoteState<V>, p: Proposal<V>)
    requires
        s.inv(),
        s.chosen(p),
    ensures
        s.proposals.contains(p),
{
    let q = choose|q: Set<NodeId>|
        #[trigger] s.is_quorum(q) && (forall|a: NodeId| q.contains(a) ==> s.voted(a, p));
    assert(exists|a: NodeId| q.contains(a)) by {
        if !(exists|a: NodeId| q.contains(a)) {
            assert(q =~= Set::<NodeId>::empty());
        }
    }
    let a = choose|a: NodeId| q.contains(a);
    assert(s.votes.contains((a, p)));
}

/// A chosen proposal's value is still choosable at its own round.
proof fn lemma_chosen_choosable<V>(s: VoteState<V>, p: Proposal<V>)
    requires
        s.inv(),
        s.chosen(p),
    ensures
        s.choosable(p.id, p.value),
{
    let q = choose|q: Set<NodeId>|
        #[trigger] s.is_quorum(q) && (forall|a: NodeId| q.contains(a) ==> s.voted(a, p));
    assert(s.is_quorum(q) && (forall|a: NodeId|
        q.contains(a) ==> s.voted(a, Proposal { id: p.id, value: p.value }) || s.can_vote_at(
            a,
            p.id,
        )));
}

} // verus!
