//! The Learner role: collects acceptance notifications and decides a value
//! once a quorum of acceptors has acknowledged the same proposal.

use vstd::prelude::*;

use crate::kv::find_index;
use crate::kv::contains_node;
use crate::kv::has_key;
use crate::kv::keys_distinct;
use crate::kv::kv_map;
use crate::kv::lemma_entry_at;
use crate::kv::lemma_push_fresh;
use crate::kv::lemma_remove_entry;
use crate::kv::value_at;
use crate::msg::PaxosMsg;
use crate::types::Action;
use crate::types::Event;
use crate::types::HandlesEvents;
use crate::types::NodeContext;
use crate::types::NodeId;
use crate::types::ProposalId;
use crate::types::TimerId;

verus! {

/// The abstract state of a learner: who acknowledged which proposal, and
/// which decisions have been reached.
pub struct LearnerView<V> {
    pub node_id: NodeId,
    pub quorum: int,
    pub acks: Map<ProposalId, Set<NodeId>>,
    pub chosen: Map<ProposalId, V>,
}

impl<V> LearnerView<V> {
    /// A meaningful quorum, and finite acknowledgment sets.
    pub open spec fn wf(self) -> bool {
        self.quorum >= 1 && (forall|k: ProposalId|
            #[trigger] self.acks.dom().contains(k) ==> self.acks[k].finite())
    }

    /// The set of acceptors that have acknowledged `pid` so far.
    pub open spec fn ack_set(self, pid: ProposalId) -> Set<NodeId> {
        if self.acks.dom().contains(pid) {
            self.acks[pid]
        } else {
            Set::<NodeId>::empty()
        }
    }

    /// Transition on an acceptance notification for `(pid, v)` sent by
    /// acceptor `from`: ignore it if `pid` is already decided or `from`
    /// already acknowledged it; otherwise record the acknowledgment, and on
    /// quorum decide `v`, emit `ChoseValue`, and drop the bookkeeping for
    /// `pid`.
    pub open spec fn step_accepted(self, from: NodeId, pid: ProposalId, v: V) -> (LearnerView<V>,
    Seq<Action<V>>) {
        if self.chosen.dom().contains(pid) {
            (self, Seq::<Action<V>>::empty())
        } else if self.ack_set(pid).contains(from) {
            (self, Seq::<Action<V>>::empty())
        } else {
            let s2 = self.ack_set(pid).insert(from);
            if s2.len() >= self.quorum {
                (
                    LearnerView {
                        node_id: self.node_id,
                        quorum: self.quorum,
                        acks: self.acks.remove(pid),
                        chosen: self.chosen.insert(pid, v),
                    },
                    seq![(Action::ChoseValue { v })],
                )
            } else {
                (
                    LearnerView {
                        node_id: self.node_id,
                        quorum: self.quorum,
                        acks: self.acks.insert(pid, s2),
                        chosen: self.chosen,
                    },
                    Seq::<Action<V>>::empty(),
                )
            }
        }
    }

    /// Transition on any inbound message; only acceptance notifications
    /// (`Accepted`, or its primitive-field alias `Learn`) matter to a
    /// learner.
    pub open spec fn step_message(self, from: NodeId, msg: PaxosMsg<V>) -> (LearnerView<V>, Seq<
        Action<V>,
    >) {
        match msg {
            PaxosMsg::Accepted { proposal } => self.step_accepted(
                from,
                proposal.id,
                proposal.value,
            ),
            PaxosMsg::Learn { proposal_id, value } => self.step_accepted(from, proposal_id, value),
            _ => (self, Seq::<Action<V>>::empty()),
        }
    }

    /// Transition on any event: timer expirations are ignored entirely.
    pub open spec fn step_event(self, e: Event<V>) -> (LearnerView<V>, Seq<Action<V>>) {
        match e {
            Event::Message { from, msg } => self.step_message(from, msg),
            Event::Timeout { id } => (self, Seq::<Action<V>>::empty()),
        }
    }
}

/// Once a value is chosen for a proposal identifier, no later event revises
/// or removes that decision.
pub proof fn lemma_chosen_stable<V>(l: LearnerView<V>, e: Event<V>, pid: ProposalId)
    requires
        l.chosen.dom().contains(pid),
    ensures
        ({
            let l2 = l.step_event(e).0;
            l2.chosen.dom().contains(pid) && l2.chosen[pid] == l.chosen[pid]
        }),
{
}

/// A learner emits `ChoseValue` exactly when the acknowledgment it is
/// handling is new, the proposal is undecided, and it completes a quorum;
/// the decision then records the acknowledged value.
pub proof fn lemma_quorum_trigger<V>(l: LearnerView<V>, from: NodeId, pid: ProposalId, v: V)
    ensures
        ({
            let (l2, out) = l.step_accepted(from, pid, v);
            &&& out.len() > 0 <==> {
                &&& !l.chosen.dom().contains(pid)
                &&& !l.ack_set(pid).contains(from)
                &&& l.ack_set(pid).insert(from).len() >= l.quorum
            }
            &&& out.len() > 0 ==> out == seq![(Action::ChoseValue { v })]
                && l2.chosen.dom().contains(pid) && l2.chosen[pid] == v
        }),
{
}

/// Delivering the same acceptance notification twice changes nothing the
/// second time: in particular, `acks[pid]` advances by at most one across
/// both deliveries.
pub proof fn lemma_accepted_idempotent<V>(l: LearnerView<V>, from: NodeId, pid: ProposalId, v: V)
    ensures
        ({
            let l1 = l.step_accepted(from, pid, v).0;
            l1.step_accepted(from, pid, v).0 == l1
        }),
        ({
            let l1 = l.step_accepted(from, pid, v).0;
            l1.step_accepted(from, pid, v).1.len() == 0
        }),
{
    let l1 = l.step_accepted(from, pid, v).0;
    if !l.chosen.dom().contains(pid) && !l.ack_set(pid).contains(from) {
        let s2 = l.ack_set(pid).insert(from);
        if s2.len() >= l.quorum {
            assert(l1.chosen.dom().contains(pid));
        } else {
            assert(l1.ack_set(pid).contains(from));
        }
    }
}

/// The acknowledgment-set map an association list of node vectors stands
/// for.
pub open spec fn acks_view(s: Seq<(ProposalId, Vec<NodeId>)>) -> Map<ProposalId, Set<NodeId>> {
    Map::new(|k: ProposalId| has_key(s, k), |k: ProposalId| value_at(s, k)@.to_set())
}

/// Removing the entry at index `i` removes that entry's key from the
/// acknowledgment-set map.
pub proof fn lemma_acks_view_remove(s: Seq<(ProposalId, Vec<NodeId>)>, i: int)
    requires
        keys_distinct(s),
        0 <= i < s.len(),
    ensures
        acks_view(s.remove(i)) == acks_view(s).remove(s[i].0),
{
    lemma_remove_entry(s, i);
    let t = s.remove(i);
    assert forall|k: ProposalId| #[trigger] has_key(t, k) <==> (has_key(s, k) && k != s[i].0) by {
        assert(has_key(t, k) == kv_map(t).dom().contains(k));
        assert(has_key(s, k) == kv_map(s).dom().contains(k));
        assert(kv_map(t).dom() == kv_map(s).remove(s[i].0).dom());
    }
    assert forall|k: ProposalId| has_key(t, k) implies #[trigger] value_at(t, k) == value_at(
        s,
        k,
    ) by {
        assert(kv_map(t)[k] == value_at(t, k));
        assert(kv_map(s)[k] == value_at(s, k));
        assert(kv_map(t)[k] == kv_map(s).remove(s[i].0)[k]);
    }
    assert(acks_view(t) =~= acks_view(s).remove(s[i].0));
}

/// Appending an entry under a fresh key inserts its node set into the
/// acknowledgment-set map.
pub proof fn lemma_acks_view_push(s: Seq<(ProposalId, Vec<NodeId>)>, e: (ProposalId, Vec<NodeId>))
    requires
        keys_distinct(s),
        !has_key(s, e.0),
    ensures
        acks_view(s.push(e)) == acks_view(s).insert(e.0, e.1@.to_set()),
{
    lemma_push_fresh(s, e);
    let t = s.push(e);
    assert forall|k: ProposalId| #[trigger] has_key(t, k) <==> (has_key(s, k) || k == e.0) by {
        assert(has_key(t, k) == kv_map(t).dom().contains(k));
        assert(has_key(s, k) == kv_map(s).dom().contains(k));
        assert(kv_map(t).dom() == kv_map(s).insert(e.0, e.1).dom());
    }
    assert forall|k: ProposalId| has_key(t, k) implies #[trigger] value_at(t, k) == (if k == e.0 {
        e.1
    } else {
        value_at(s, k)
    }) by {
        assert(kv_map(t)[k] == value_at(t, k));
        assert(kv_map(t)[k] == kv_map(s).insert(e.0, e.1)[k]);
        if k != e.0 {
            assert(kv_map(s)[k] == value_at(s, k));
        }
    }
    assert(acks_view(t) =~= acks_view(s).insert(e.0, e.1@.to_set()));
}

/// Executable learner state, as configured by the driver.
pub struct Learner<V> {
    pub node_id: NodeId,
    pub quorum: u64,
    pub acks: Vec<(ProposalId, Vec<NodeId>)>,
    pub chosen: Vec<(ProposalId, V)>,
}

impl<V> View for Learner<V> {
    type V = LearnerView<V>;

    open spec fn view(&self) -> LearnerView<V> {
        LearnerView {
            node_id: self.node_id,
            quorum: self.quorum as int,
            acks: acks_view(self.acks@),
            chosen: kv_map(self.chosen@),
        }
    }
}

impl<V> Learner<V> {
    /// The representation invariant: association lists carry distinct keys,
    /// acknowledgment lists carry distinct nodes, and the quorum is
    /// meaningful.
    pub open spec fn inv(self) -> bool {
        &&& keys_distinct(self.acks@)
        &&& keys_distinct(self.chosen@)
        &&& self.quorum >= 1
        &&& forall|i: int| 0 <= i < self.acks@.len() ==> (#[trigger] self.acks@[i].1)@.no_duplicates()
    }
}

/// The representation invariant gives a well-formed abstract state.
pub proof fn lemma_learner_inv_wf<V>(l: Learner<V>)
    requires
        l.inv(),
    ensures
        l@.wf(),
{
    broadcast use vstd::seq_lib::seq_to_set_is_finite;

    assert forall|k: ProposalId| #[trigger] l@.acks.dom().contains(k) implies l@.acks[k].finite() by {
        assert(has_key(l.acks@, k));
    }
}

impl<V: Copy> Learner<V> {
    /// A fresh learner for a cluster of `context.number_of_nodes` nodes: no
    /// acknowledgments, no decisions.
    pub fn new(node_id: NodeId, context: NodeContext) -> (l: Learner<V>)
        ensures
            l@.node_id == node_id,
            l@.quorum == context.spec_quorum(),
            l@.acks == Map::<ProposalId, Set<NodeId>>::empty(),
            l@.chosen == Map::<ProposalId, V>::empty(),
            l.inv(),
    {
        let quorum = context.quorum();
        let l = Learner::<V> { node_id, quorum, acks: Vec::new(), chosen: Vec::new() };
        proof {
            assert(l@.acks =~= Map::<ProposalId, Set<NodeId>>::empty());
            assert(l@.chosen =~= Map::<ProposalId, V>::empty());
        }
        l
    }

    /// The decision reached for `pid`, if any.
    pub fn get_chosen(&self, pid: ProposalId) -> (r: Option<V>)
        requires
            self.inv(),
        ensures
            match r {
                Option::Some(v) => self@.chosen.dom().contains(pid) && v == self@.chosen[pid],
                Option::None => !self@.chosen.dom().contains(pid),
            },
    {
        match find_index(&self.chosen, pid) {
            Option::Some(i) => {
                proof {
                    lemma_entry_at(self.chosen@, i as int);
                }
                Option::Some(self.chosen[i].1)
            },
            Option::None => Option::None,
        }
    }

    /// Records that acceptor `from` acknowledged `(pid, v)`; returns the
    /// newly decided value when this acknowledgment completes a quorum.
    fn record_accepted(&mut self, from: NodeId, pid: ProposalId, v: V) -> (r: Option<V>)
        requires
            old(self).inv(),
        ensures
            final(self).inv(),
            final(self)@ == old(self)@.step_accepted(from, pid, v).0,
            r == (if old(self)@.step_accepted(from, pid, v).1.len() > 0 {
                Option::Some(v)
            } else {
                Option::None::<V>
            }),
    {
        broadcast use vstd::set::axiom_set_insert_len;
        broadcast use vstd::seq_lib::seq_to_set_is_finite;

        let ghost pre = self@;
        match find_index(&self.chosen, pid) {
            Option::Some(ci) => {
                proof {
                    lemma_entry_at(self.chosen@, ci as int);
                    assert(pre.chosen.dom().contains(pid));
                }
                return Option::None;
            },
            Option::None => {},
        }
        proof {
            assert(!pre.chosen.dom().contains(pid));
        }
        match find_index(&self.acks, pid) {
            Option::Some(i) => {
                proof {
                    lemma_entry_at(self.acks@, i as int);
                    assert(pre.acks.dom().contains(pid));
                    assert(pre.ack_set(pid) == self.acks@[i as int].1@.to_set());
                }
                if contains_node(&self.acks[i].1, from) {
                    proof {
                        assert(pre.ack_set(pid).contains(from));
                    }
                    return Option::None;
                }
                let ghost old_acks = self.acks@;
                let mut entry = self.acks.remove(i);
                entry.1.push(from);
                proof {
                    lemma_remove_entry(old_acks, i as int);
                    lemma_acks_view_remove(old_acks, i as int);
                    assert(acks_view(self.acks@) == pre.acks.remove(pid));
                    old_acks[i as int].1@.lemma_push_to_set_commute(from);
                    assert(entry.1@.to_set() == pre.ack_set(pid).insert(from));
                    assert(entry.1@.no_duplicates());
                    old_acks[i as int].1@.unique_seq_to_set();
                    entry.1@.unique_seq_to_set();
                    assert(entry.1@.len() == pre.ack_set(pid).insert(from).len());
                }
                let count = entry.1.len() as u64;
                if count >= self.quorum {
                    let ghost mid_chosen = self.chosen@;
                    self.chosen.push((pid, v));
                    proof {
                        lemma_push_fresh(mid_chosen, (pid, v));
                        assert(self@ == pre.step_accepted(from, pid, v).0);
                    }
                    Option::Some(v)
                } else {
                    let ghost mid_acks = self.acks@;
                    self.acks.push(entry);
                    proof {
                        assert(!has_key(mid_acks, pid)) by {
                            if has_key(mid_acks, pid) {
                                assert(acks_view(mid_acks).dom().contains(pid));
                                assert(pre.acks.remove(pid).dom().contains(pid));
                            }
                        }
                        lemma_acks_view_push(mid_acks, entry);
                        assert(self@.acks == pre.acks.remove(pid).insert(
                            pid,
                            pre.ack_set(pid).insert(from),
                        ));
                        assert(self@.acks =~= pre.acks.insert(pid, pre.ack_set(pid).insert(from)));
                        assert(self@.chosen =~= pre.chosen);
                        assert(self@ == pre.step_accepted(from, pid, v).0);
                        assert forall|j: int|
                            0 <= j < self.acks@.len() implies (#[trigger] self.acks@[j].1)@.no_duplicates() by {
                            if j < mid_acks.len() {
                                let j2 = if j < i { j } else { j + 1 };
                                assert(mid_acks[j] == old_acks[j2]);
                            }
                        }
                    }
                    Option::None
                }
            },
            Option::None => {
                proof {
                    assert(!pre.acks.dom().contains(pid));
                    assert(pre.ack_set(pid) == Set::<NodeId>::empty());
                    assert(pre.ack_set(pid).insert(from).len() == 1) by {
                        assert(Set::<NodeId>::empty().insert(from).len() == 1);
                    }
                }
                if self.quorum <= 1 {
                    let ghost mid_chosen = self.chosen@;
                    self.chosen.push((pid, v));
                    proof {
                        lemma_push_fresh(mid_chosen, (pid, v));
                        assert(self@.acks =~= pre.acks.remove(pid));
                        assert(self@ == pre.step_accepted(from, pid, v).0);
                    }
                    Option::Some(v)
                } else {
                    let mut nodes: Vec<NodeId> = Vec::new();
                    nodes.push(from);
                    proof {
                        Seq::<NodeId>::empty().lemma_push_to_set_commute(from);
                        assert(Seq::<NodeId>::empty().to_set() =~= Set::<NodeId>::empty());
                        assert(nodes@ == Seq::<NodeId>::empty().push(from));
                        assert(nodes@.to_set() =~= Set::<NodeId>::empty().insert(from));
                    }
                    let ghost mid_acks = self.acks@;
                    self.acks.push((pid, nodes));
                    proof {
                        lemma_acks_view_push(mid_acks, (pid, nodes));
                        assert(self@.acks =~= pre.acks.insert(pid, pre.ack_set(pid).insert(from)));
                        assert(self@.chosen =~= pre.chosen);
                        assert(self@ == pre.step_accepted(from, pid, v).0);
                        assert forall|j: int|
                            0 <= j < self.acks@.len() implies (#[trigger] self.acks@[j].1)@.no_duplicates() by {
                        }
                    }
                    Option::None
                }
            },
        }
    }

    /// Handles an inbound message exactly as the abstract transition says.
    pub fn on_message(&mut self, from: NodeId, msg: PaxosMsg<V>) -> (actions: Vec<Action<V>>)
        requires
            old(self).inv(),
        ensures
            final(self).inv(),
            final(self)@ == old(self)@.step_message(from, msg).0,
            actions@ == old(self)@.step_message(from, msg).1,
    {
        match msg {
            PaxosMsg::Accepted { proposal } => {
                let r = self.record_accepted(from, proposal.id, proposal.value);
                match r {
                    Option::Some(chosen_v) => {
                        let mut actions: Vec<Action<V>> = Vec::new();
                        actions.push(Action::ChoseValue { v: chosen_v });
                        proof {
                            assert(actions@ =~= old(self)@.step_message(from, msg).1);
                        }
                        actions
                    },
                    Option::None => Vec::new(),
                }
            },
            PaxosMsg::Learn { proposal_id, value } => {
                let r = self.record_accepted(from, proposal_id, value);
                match r {
                    Option::Some(chosen_v) => {
                        let mut actions: Vec<Action<V>> = Vec::new();
                        actions.push(Action::ChoseValue { v: chosen_v });
                        proof {
                            assert(actions@ =~= old(self)@.step_message(from, msg).1);
                        }
                        actions
                    },
                    Option::None => Vec::new(),
                }
            },
            _ => Vec::new(),
        }
    }

    /// A learner emits nothing on creation.
    pub fn on_init(&mut self) -> (actions: Vec<Action<V>>)
        ensures
            *final(self) == *old(self),
            actions@ == Seq::<Action<V>>::empty(),
    {
        Vec::new()
    }

    /// Timers are a proposer concern; a learner ignores every expiry.
    pub fn on_timeout(&mut self, id: TimerId) -> (actions: Vec<Action<V>>)
        ensures
            *final(self) == *old(self),
            actions@ == Seq::<Action<V>>::empty(),
    {
        Vec::new()
    }

    /// Unified dispatcher over the two event kinds.
    pub fn on_event(&mut self, e: Event<V>) -> (actions: Vec<Action<V>>)
        requires
            old(self).inv(),
        ensures
            final(self).inv(),
            final(self)@ == old(self)@.step_event(e).0,
            actions@ == old(self)@.step_event(e).1,
    {
        match e {
            Event::Message { from, msg } => self.on_message(from, msg),
            Event::Timeout { id } => self.on_timeout(id),
        }
    }
}

impl<V: Copy> HandlesEvents<V> for Learner<V> {
    open spec fn wf(&self) -> bool {
        self.inv()
    }

    fn on_init(&mut self) -> (actions: Vec<Action<V>>) {
        Learner::on_init(self)
    }

    fn on_message(&mut self, from: NodeId, msg: PaxosMsg<V>) -> (actions: Vec<Action<V>>) {
        Learner::on_message(self, from, msg)
    }

    fn on_timeout(&mut self, id: TimerId) -> (actions: Vec<Action<V>>) {
        Learner::on_timeout(self, id)
    }

    fn on_event(&mut self, e: Event<V>) -> (actions: Vec<Action<V>>) {
        Learner::on_event(self, e)
    }
}

} // verus!
