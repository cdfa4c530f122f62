use paxos_state_machine::acceptor::Acceptor;
use paxos_state_machine::learner::Learner;
use paxos_state_machine::msg::PaxosMsg;
use paxos_state_machine::proposer::Proposal;
use paxos_state_machine::proposer::Proposer;
use paxos_state_machine::types::Action;
use paxos_state_machine::types::NodeContext;
use paxos_state_machine::types::NodeId;
use paxos_state_machine::types::ProposalId;
use paxos_state_machine::types::TimerId;

fn pid(round: u64, node: NodeId) -> ProposalId {
    ProposalId { round, node }
}

fn ctx3() -> NodeContext {
    NodeContext { number_of_nodes: 3 }
}

#[test]
fn quorum_formula() {
    assert_eq!(NodeContext { number_of_nodes: 1 }.quorum(), 1);
    assert_eq!(NodeContext { number_of_nodes: 2 }.quorum(), 2);
    assert_eq!(NodeContext { number_of_nodes: 3 }.quorum(), 2);
    assert_eq!(NodeContext { number_of_nodes: 4 }.quorum(), 3);
    assert_eq!(NodeContext { number_of_nodes: 5 }.quorum(), 3);
}

#[test]
fn proposal_id_order() {
    assert!(pid(1, 2).gt(pid(1, 1)));
    assert!(pid(2, 1).gt(pid(1, 3)));
    assert!(pid(1, 1).ge(pid(1, 1)));
    assert!(!pid(1, 1).gt(pid(1, 1)));
    assert!(!pid(1, 1).ge(pid(1, 2)));
}

#[test]
fn acceptor_promise_monotonic() {
    let mut acc: Acceptor<&'static str> = Acceptor::new(1, ctx3(), vec![1, 2, 3]);
    let out = acc.on_message(2, PaxosMsg::Prepare { proposal_id: pid(2, 2), from: 2 });
    assert_eq!(out.len(), 1);
    assert_eq!(acc.latest_promise, Some(pid(2, 2)));
    // a lower-numbered prepare is dropped and the promise stands
    let out = acc.on_message(3, PaxosMsg::Prepare { proposal_id: pid(1, 3), from: 3 });
    assert!(out.is_empty());
    assert_eq!(acc.latest_promise, Some(pid(2, 2)));
}

#[test]
fn acceptor_accepted_below_promise() {
    let mut acc: Acceptor<&'static str> = Acceptor::new(1, ctx3(), vec![1, 2, 3]);
    acc.on_message(2, PaxosMsg::Prepare { proposal_id: pid(2, 2), from: 2 });
    // an accept request below the promise is dropped silently
    let out = acc.on_message(3, PaxosMsg::AcceptProposal { proposal_id: pid(1, 3), value: "x" });
    assert!(out.is_empty());
    assert!(acc.latest_accepted_proposal.is_none());
}

#[test]
fn acceptor_accept_updates_state_and_notifies() {
    let mut acc: Acceptor<&'static str> = Acceptor::new(1, ctx3(), vec![1, 2, 3]);
    let out = acc.on_message(2, PaxosMsg::AcceptProposal { proposal_id: pid(1, 2), value: "x" });
    assert_eq!(out.len(), 3);
    for (i, a) in out.iter().enumerate() {
        match a {
            Action::Send { to, from, msg: PaxosMsg::Accepted { proposal } } => {
                assert_eq!(*to, (i + 1) as u64);
                assert_eq!(*from, 1);
                assert_eq!(proposal.id, pid(1, 2));
                assert_eq!(proposal.value, "x");
            }
            _ => panic!("expected an Accepted notification"),
        }
    }
    // the acceptor invariant: the accepted id never exceeds the promise
    assert_eq!(acc.latest_promise, Some(pid(1, 2)));
    let accepted = acc.latest_accepted_proposal.unwrap();
    assert_eq!(accepted.id, pid(1, 2));
    assert!(acc.latest_promise.unwrap().ge(accepted.id));
}

#[test]
fn acceptor_prepare_idempotent() {
    let mut acc: Acceptor<&'static str> = Acceptor::new(1, ctx3(), vec![1, 2, 3]);
    let first = acc.on_message(2, PaxosMsg::Prepare { proposal_id: pid(3, 2), from: 2 });
    let second = acc.on_message(2, PaxosMsg::Prepare { proposal_id: pid(3, 2), from: 2 });
    assert_eq!(first.len(), 1);
    assert_eq!(second.len(), 1);
    let as_fields = |a: &Action<&'static str>| match a {
        Action::Send {
            to,
            from,
            msg: PaxosMsg::Promise { accepted_proposal, proposal_response },
        } => (*to, *from, accepted_proposal.map(|p| (p.id, p.value)), *proposal_response),
        _ => panic!("expected a Promise"),
    };
    assert_eq!(as_fields(&first[0]), as_fields(&second[0]));
}

#[test]
fn acceptor_ignores_unrelated_messages() {
    let mut acc: Acceptor<&'static str> = Acceptor::new(1, ctx3(), vec![1, 2, 3]);
    let out = acc.on_message(
        2,
        PaxosMsg::Promise { accepted_proposal: None, proposal_response: pid(1, 2) },
    );
    assert!(out.is_empty());
    let out = acc.on_timeout(TimerId { seq: 1, node: 1 });
    assert!(out.is_empty());
    assert!(acc.latest_promise.is_none());
}

#[test]
fn learner_decides_on_quorum_exactly_once() {
    let mut l: Learner<&'static str> = Learner::new(9, ctx3());
    let accepted = |_node: NodeId| PaxosMsg::Accepted {
        proposal: Proposal { id: pid(1, 1), value: "x" },
    };
    let out = l.on_message(1, accepted(1));
    assert!(out.is_empty());
    assert_eq!(l.get_chosen(pid(1, 1)), None);
    let out = l.on_message(2, accepted(2));
    assert_eq!(out.len(), 1);
    assert!(matches!(out[0], Action::ChoseValue { v: "x" }));
    assert_eq!(l.get_chosen(pid(1, 1)), Some("x"));
    // a third acknowledgment does not decide again
    let out = l.on_message(3, accepted(3));
    assert!(out.is_empty());
    assert_eq!(l.get_chosen(pid(1, 1)), Some("x"));
}

#[test]
fn learner_chosen_never_revised() {
    let mut l: Learner<&'static str> = Learner::new(9, ctx3());
    let vote = |_node: NodeId, value: &'static str| PaxosMsg::Accepted {
        proposal: Proposal { id: pid(1, 1), value },
    };
    l.on_message(1, vote(1, "x"));
    l.on_message(2, vote(2, "x"));
    assert_eq!(l.get_chosen(pid(1, 1)), Some("x"));
    // later votes for the same round, even with another payload, change nothing
    let out = l.on_message(3, vote(3, "y"));
    assert!(out.is_empty());
    assert_eq!(l.get_chosen(pid(1, 1)), Some("x"));
}

#[test]
fn learner_duplicate_ack_counts_once() {
    let mut l: Learner<&'static str> = Learner::new(9, ctx3());
    let accepted = PaxosMsg::Accepted {
        proposal: Proposal { id: pid(1, 1), value: "x" },
    };
    l.on_message(1, accepted);
    l.on_message(1, accepted);
    assert_eq!(l.acks.len(), 1);
    assert_eq!(l.acks[0].0, pid(1, 1));
    assert_eq!(l.acks[0].1.len(), 1);
    assert_eq!(l.get_chosen(pid(1, 1)), None);
}

#[test]
fn learner_handles_learn_alias() {
    let mut l: Learner<&'static str> = Learner::new(9, ctx3());
    l.on_message(1, PaxosMsg::Learn { proposal_id: pid(1, 1), value: "x" });
    let out = l.on_message(2, PaxosMsg::Learn { proposal_id: pid(1, 1), value: "x" });
    assert_eq!(out.len(), 1);
    assert!(matches!(out[0], Action::ChoseValue { v: "x" }));
    assert_eq!(l.get_chosen(pid(1, 1)), Some("x"));
}

#[test]
fn learner_ignores_unrelated_messages() {
    let mut l: Learner<&'static str> = Learner::new(9, ctx3());
    let out = l.on_message(1, PaxosMsg::Prepare { proposal_id: pid(1, 1), from: 1 });
    assert!(out.is_empty());
    let out = l.on_timeout(TimerId { seq: 1, node: 9 });
    assert!(out.is_empty());
    assert!(l.acks.is_empty());
    assert!(l.chosen.is_empty());
}

#[test]
fn learner_quorum_of_one_decides_immediately() {
    let mut l: Learner<&'static str> = Learner::new(7, NodeContext { number_of_nodes: 1 });
    let out = l.on_message(
        1,
        PaxosMsg::Accepted {
            proposal: Proposal { id: pid(1, 1), value: "x" },
        },
    );
    assert_eq!(out.len(), 1);
    assert!(matches!(out[0], Action::ChoseValue { v: "x" }));
}

#[test]
fn proposer_round_ids_strictly_increase() {
    let mut p: Proposer<&'static str> = Proposer::new(1, ctx3(), vec![1, 2, 3], "x", 100, 2);
    let first = p.on_init();
    let first_pid = match &first[0] {
        Action::Send { msg: PaxosMsg::Prepare { proposal_id, .. }, .. } => *proposal_id,
        _ => panic!("expected a Prepare"),
    };
    assert_eq!(first_pid, pid(1, 1));
    let second = p.on_timeout(p.timer_id);
    let second_pid = match &second[0] {
        Action::Send { msg: PaxosMsg::Prepare { proposal_id, .. }, .. } => *proposal_id,
        _ => panic!("expected a Prepare"),
    };
    assert_eq!(second_pid, pid(2, 1));
    assert!(second_pid.gt(first_pid));
}

#[test]
fn proposer_start_round_action_shape() {
    let mut p: Proposer<&'static str> = Proposer::new(1, ctx3(), vec![1, 2, 3], "x", 100, 2);
    let out = p.on_init();
    // all sends precede the timer request
    assert_eq!(out.len(), 4);
    for (i, a) in out.iter().take(3).enumerate() {
        match a {
            Action::Send { to, from, msg: PaxosMsg::Prepare { proposal_id, from: origin } } => {
                assert_eq!(*to, (i + 1) as u64);
                assert_eq!(*from, 1);
                assert_eq!(*origin, 1);
                assert_eq!(*proposal_id, pid(1, 1));
            }
            _ => panic!("expected a Prepare"),
        }
    }
    match out[3] {
        Action::SetTimer { id, ms } => {
            assert_eq!(id, TimerId { seq: 1, node: 1 });
            assert_eq!(ms, 100);
        }
        _ => panic!("expected a timer request"),
    }
}

#[test]
fn proposer_phase2_needs_quorum() {
    let mut p: Proposer<&'static str> = Proposer::new(1, ctx3(), vec![1, 2, 3], "x", 100, 2);
    p.on_init();
    let promise = |resp: ProposalId| PaxosMsg::Promise {
        accepted_proposal: None,
        proposal_response: resp,
    };
    // one promise is below the quorum of two: no broadcast yet
    let out = p.on_message(1, promise(pid(1, 1)));
    assert!(out.is_empty());
    // the second promise completes the quorum: accept requests to every peer
    let out = p.on_message(2, promise(pid(1, 1)));
    assert_eq!(out.len(), 3);
    for a in &out {
        assert!(matches!(
            a,
            Action::Send { msg: PaxosMsg::AcceptProposal { .. }, .. }
        ));
    }
    // a third promise crosses no fresh quorum: no second broadcast
    let out = p.on_message(3, promise(pid(1, 1)));
    assert!(out.is_empty());
}

#[test]
fn proposer_deduplicates_promises() {
    let mut p: Proposer<&'static str> = Proposer::new(1, ctx3(), vec![1, 2, 3], "x", 100, 2);
    p.on_init();
    let promise = PaxosMsg::Promise { accepted_proposal: None, proposal_response: pid(1, 1) };
    let out = p.on_message(2, promise);
    assert!(out.is_empty());
    // the same peer promising again must not complete the quorum
    let out = p.on_message(2, promise);
    assert!(out.is_empty());
}

#[test]
fn proposer_ignores_promise_for_other_round() {
    let mut p: Proposer<&'static str> = Proposer::new(1, ctx3(), vec![1, 2, 3], "x", 100, 2);
    p.on_init();
    let out = p.on_message(
        2,
        PaxosMsg::Promise { accepted_proposal: None, proposal_response: pid(7, 1) },
    );
    assert!(out.is_empty());
}

#[test]
fn proposer_reproposes_highest_accepted_value() {
    let mut p: Proposer<&'static str> = Proposer::new(1, ctx3(), vec![1, 2, 3], "z", 100, 2);
    p.on_init();
    let reported = Proposal { id: pid(0, 2), value: "x" };
    p.on_message(
        2,
        PaxosMsg::Promise { accepted_proposal: Some(reported), proposal_response: pid(1, 1) },
    );
    let out = p.on_message(
        3,
        PaxosMsg::Promise { accepted_proposal: None, proposal_response: pid(1, 1) },
    );
    assert_eq!(out.len(), 3);
    match &out[0] {
        Action::Send { msg: PaxosMsg::AcceptProposal { proposal_id, value }, .. } => {
            assert_eq!(*proposal_id, pid(1, 1));
            assert_eq!(*value, "x");
        }
        _ => panic!("expected an AcceptProposal"),
    }
}

#[test]
fn proposer_decides_on_accepted_quorum() {
    let mut p: Proposer<&'static str> = Proposer::new(1, ctx3(), vec![1, 2, 3], "x", 100, 2);
    p.on_init();
    let vote = PaxosMsg::Accepted {
        proposal: Proposal { id: pid(1, 1), value: "x" },
    };
    let out = p.on_message(1, vote);
    assert!(out.is_empty());
    let out = p.on_message(2, vote);
    assert_eq!(out.len(), 2);
    assert!(matches!(out[0], Action::ChoseValue { v: "x" }));
    assert!(matches!(out[1], Action::CancelTimer { .. }));
    assert!(p.round.is_none());
}

#[test]
fn proposer_timeout_doubles_backoff() {
    let mut p: Proposer<&'static str> = Proposer::new(1, ctx3(), vec![1, 2, 3], "x", 100, 2);
    p.on_init();
    assert_eq!(p.timer_ms, 100);
    let live = p.timer_id;
    let out = p.on_timeout(live);
    assert_eq!(p.timer_ms, 200);
    match out[3] {
        Action::SetTimer { id, ms } => {
            assert_eq!(id, TimerId { seq: 2, node: 1 });
            assert_eq!(ms, 200);
        }
        _ => panic!("expected a timer request"),
    }
}

#[test]
fn proposer_backoff_saturates() {
    let mut p: Proposer<&'static str> =
        Proposer::new(1, ctx3(), vec![1, 2, 3], "x", u64::MAX - 1, 2);
    p.on_init();
    p.on_timeout(p.timer_id);
    assert_eq!(p.timer_ms, u64::MAX);
}

#[test]
fn proposer_stale_timer_produces_nothing() {
    let mut p: Proposer<&'static str> = Proposer::new(1, ctx3(), vec![1, 2, 3], "x", 100, 2);
    p.on_init();
    let stale = TimerId { seq: 0, node: 1 };
    assert_ne!(stale, p.timer_id);
    let out = p.on_timeout(stale);
    assert!(out.is_empty());
    assert!(p.round.is_some());
    assert_eq!(p.timer_ms, 100);
}
