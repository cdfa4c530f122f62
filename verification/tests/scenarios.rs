// End-to-end runs over a three-node cluster (nodes 1, 2, 3), every node
// hosting all three roles, with a quorum of two.  A hand-driven scheduler
// moves messages between the roles.

use paxos_state_machine::acceptor::Acceptor;
use paxos_state_machine::learner::Learner;
use paxos_state_machine::msg::PaxosMsg;
use paxos_state_machine::proposer::Proposal;
use paxos_state_machine::proposer::Proposer;
use paxos_state_machine::types::Action;
use paxos_state_machine::types::Event;
use paxos_state_machine::types::HandlesEvents;
use paxos_state_machine::types::NodeContext;
use paxos_state_machine::types::NodeId;
use paxos_state_machine::types::ProposalId;
use paxos_state_machine::types::TimerId;

type Val = &'static str;

fn pid(round: u64, node: NodeId) -> ProposalId {
    ProposalId { round, node }
}

fn ctx3() -> NodeContext {
    NodeContext { number_of_nodes: 3 }
}

fn new_proposer(node: NodeId, value: Val) -> Proposer<Val> {
    Proposer::new(node, ctx3(), vec![1, 2, 3], value, 100, 2)
}

fn new_acceptors() -> Vec<Acceptor<Val>> {
    (1..=3).map(|n| Acceptor::new(n, ctx3(), vec![1, 2, 3])).collect()
}

fn new_learners() -> Vec<Learner<Val>> {
    (1..=3).map(|n| Learner::new(n, ctx3())).collect()
}

/// The message of a `Send` action, with its origin.
fn sent(a: &Action<Val>) -> (NodeId, NodeId, PaxosMsg<Val>) {
    match a {
        Action::Send { to, from, msg } => (*to, *from, *msg),
        _ => panic!("expected a Send action"),
    }
}

/// Extracts the one message a single-reply action list carries.
fn single_reply(actions: &[Action<Val>]) -> (NodeId, NodeId, PaxosMsg<Val>) {
    assert_eq!(actions.len(), 1);
    sent(&actions[0])
}

/// Delivers every `Send` in `actions` addressed to an acceptor to the
/// acceptors it names and returns the actions each produced.
fn deliver_to_acceptors(
    acceptors: &mut [Acceptor<Val>],
    actions: &[Action<Val>],
) -> Vec<Vec<Action<Val>>> {
    let mut produced = Vec::new();
    for a in actions {
        if let Action::Send { to, from, msg } = a {
            produced.push(acceptors[(*to - 1) as usize].on_message(*from, *msg));
        }
    }
    produced
}

/// Delivers every `Send` in `actions` to the learner it names and returns
/// the actions each produced.
fn deliver_to_learners(
    learners: &mut [Learner<Val>],
    actions: &[Action<Val>],
) -> Vec<Vec<Action<Val>>> {
    let mut produced = Vec::new();
    for a in actions {
        if let Action::Send { to, from, msg } = a {
            produced.push(learners[(*to - 1) as usize].on_message(*from, *msg));
        }
    }
    produced
}

#[test]
fn single_proposer_clean_run() {
    let mut proposer = new_proposer(1, "x");
    let mut acceptors = new_acceptors();
    let mut learners = new_learners();

    let opening = proposer.on_init();
    assert_eq!(opening.len(), 4);

    // every acceptor promises; none has an accepted proposal yet
    let replies = deliver_to_acceptors(&mut acceptors, &opening);
    assert_eq!(replies.len(), 3);
    let mut accept_broadcast = Vec::new();
    for reply in &replies {
        let (_to, from, msg) = single_reply(reply);
        match msg {
            PaxosMsg::Promise { accepted_proposal, proposal_response } => {
                assert!(accepted_proposal.is_none());
                assert_eq!(proposal_response, pid(1, 1));
            }
            _ => panic!("expected a Promise"),
        }
        let out = proposer.on_message(from, msg);
        if !out.is_empty() {
            accept_broadcast = out;
        }
    }

    // the quorum-completing promise triggers accept requests for "x"
    assert_eq!(accept_broadcast.len(), 3);
    match sent(&accept_broadcast[0]).2 {
        PaxosMsg::AcceptProposal { proposal_id, value } => {
            assert_eq!(proposal_id, pid(1, 1));
            assert_eq!(value, "x");
        }
        _ => panic!("expected an AcceptProposal"),
    }

    // every acceptor accepts and notifies all learners
    let notifications = deliver_to_acceptors(&mut acceptors, &accept_broadcast);
    let mut decisions = 0;
    for per_acceptor in &notifications {
        assert_eq!(per_acceptor.len(), 3);
        for outcome in deliver_to_learners(&mut learners, per_acceptor) {
            for action in outcome {
                assert!(matches!(action, Action::ChoseValue { v: "x" }));
                decisions += 1;
            }
        }
    }

    // every learner decides "x" exactly once
    assert_eq!(decisions, 3);
    for l in &learners {
        assert_eq!(l.get_chosen(pid(1, 1)), Some("x"));
    }
}

#[test]
fn competing_proposers_later_round_wins() {
    let mut proposer_a = new_proposer(1, "x");
    let mut proposer_b = new_proposer(2, "y");
    let mut acceptors = new_acceptors();
    let mut learners = new_learners();

    // A opens round (1,1); acceptors 1 and 3 see it first and promise
    let opening_a = proposer_a.on_init();
    let (_, _, prepare_a) = sent(&opening_a[0]);
    let promise_a1 = single_reply(&acceptors[0].on_message(1, prepare_a));
    let promise_a3 = single_reply(&acceptors[2].on_message(1, prepare_a));

    // B opens round (1,2), lexicographically greater because 2 > 1
    let opening_b = proposer_b.on_init();
    let (_, _, prepare_b) = sent(&opening_b[0]);
    assert!(pid(1, 2).gt(pid(1, 1)));

    // all three acceptors promise (1,2), superseding (1,1)
    let _promise_b1 = single_reply(&acceptors[0].on_message(2, prepare_b));
    let promise_b2 = single_reply(&acceptors[1].on_message(2, prepare_b));
    let promise_b3 = single_reply(&acceptors[2].on_message(2, prepare_b));

    // B reaches quorum through acceptors 2 and 3 and asks them to accept "y"
    assert!(proposer_b.on_message(promise_b2.1, promise_b2.2).is_empty());
    let accepts_b = proposer_b.on_message(promise_b3.1, promise_b3.2);
    assert_eq!(accepts_b.len(), 3);

    // quorum accepts; the learners decide "y"
    let notifications = deliver_to_acceptors(&mut acceptors, &accepts_b[1..]);
    for per_acceptor in &notifications {
        assert_eq!(per_acceptor.len(), 3);
        deliver_to_learners(&mut learners, per_acceptor);
    }
    for l in &learners {
        assert_eq!(l.get_chosen(pid(1, 2)), Some("y"));
    }

    // A's promises arrive late; A broadcasts accept requests for (1,1)
    assert!(proposer_a.on_message(promise_a1.1, promise_a1.2).is_empty());
    let accepts_a = proposer_a.on_message(promise_a3.1, promise_a3.2);
    assert_eq!(accepts_a.len(), 3);

    // acceptors 2 and 3 reject them: their promise (1,2) is higher
    assert!(acceptors[1]
        .on_message(1, sent(&accepts_a[1]).2)
        .is_empty());
    assert!(acceptors[2]
        .on_message(1, sent(&accepts_a[2]).2)
        .is_empty());
    assert_eq!(acceptors[1].latest_accepted_proposal.unwrap().value, "y");
    assert_eq!(acceptors[2].latest_accepted_proposal.unwrap().value, "y");
}

#[test]
fn value_preservation_across_rounds() {
    let mut proposer_a = new_proposer(1, "x");
    let mut proposer_c = new_proposer(3, "z");
    let mut acceptors = new_acceptors();
    let mut learners = new_learners();

    // A gets (1,1) accepted with "x" at acceptors 1 and 2, then crashes
    // before any learner hears enough
    let opening_a = proposer_a.on_init();
    let (_, _, prepare_a) = sent(&opening_a[0]);
    let p1 = single_reply(&acceptors[0].on_message(1, prepare_a));
    let p2 = single_reply(&acceptors[1].on_message(1, prepare_a));
    assert!(proposer_a.on_message(p1.1, p1.2).is_empty());
    let accepts_a = proposer_a.on_message(p2.1, p2.2);
    acceptors[0].on_message(1, sent(&accepts_a[0]).2);
    acceptors[1].on_message(1, sent(&accepts_a[1]).2);

    // C starts its own round with candidate "z"
    let opening_c = proposer_c.on_init();
    let (_, _, prepare_c) = sent(&opening_c[0]);
    let round_c = pid(1, 3);

    // acceptor 2 reports the accepted proposal ((1,1), "x") in its promise
    let promise_2 = single_reply(&acceptors[1].on_message(3, prepare_c));
    match promise_2.2 {
        PaxosMsg::Promise { accepted_proposal, proposal_response } => {
            let reported = accepted_proposal.expect("acceptor 2 accepted earlier");
            assert_eq!(reported.id, pid(1, 1));
            assert_eq!(reported.value, "x");
            assert_eq!(proposal_response, round_c);
        }
        _ => panic!("expected a Promise"),
    }
    let promise_3 = single_reply(&acceptors[2].on_message(3, prepare_c));

    // on quorum, C must re-propose "x", not its own "z"
    assert!(proposer_c.on_message(promise_2.1, promise_2.2).is_empty());
    let accepts_c = proposer_c.on_message(promise_3.1, promise_3.2);
    assert_eq!(accepts_c.len(), 3);
    match sent(&accepts_c[0]).2 {
        PaxosMsg::AcceptProposal { proposal_id, value } => {
            assert_eq!(proposal_id, round_c);
            assert_eq!(value, "x");
        }
        _ => panic!("expected an AcceptProposal"),
    }

    // the final decision is "x"
    let notifications = deliver_to_acceptors(&mut acceptors, &accepts_c);
    for per_acceptor in &notifications {
        deliver_to_learners(&mut learners, per_acceptor);
    }
    for l in &learners {
        assert_eq!(l.get_chosen(round_c), Some("x"));
    }
}

#[test]
fn proposer_timeout_and_restart() {
    let mut proposer = new_proposer(1, "x");
    let opening = proposer.on_init();
    let (_, _, first_prepare) = sent(&opening[0]);
    match first_prepare {
        PaxosMsg::Prepare { proposal_id, .. } => assert_eq!(proposal_id, pid(1, 1)),
        _ => panic!("expected a Prepare"),
    }

    // no promise arrives; the timer fires
    let live_timer = proposer.timer_id;
    let restart = proposer.on_timeout(live_timer);
    assert_eq!(proposer.timer_ms, 200);
    match sent(&restart[0]).2 {
        PaxosMsg::Prepare { proposal_id, .. } => assert_eq!(proposal_id, pid(2, 1)),
        _ => panic!("expected a Prepare"),
    }

    // a stale promise answering (1,1) is ignored
    let stale = proposer.on_message(
        2,
        PaxosMsg::Promise { accepted_proposal: None, proposal_response: pid(1, 1) },
    );
    assert!(stale.is_empty());
    let round = proposer.round.as_ref().expect("round is active");
    assert_eq!(round.proposal_id, pid(2, 1));
    assert!(round.promises_from.is_empty());
}

#[test]
fn duplicate_accepted_counts_once() {
    let mut learner: Learner<Val> = Learner::new(9, ctx3());
    let notification = PaxosMsg::Accepted {
        proposal: Proposal { id: pid(1, 1), value: "x" },
    };

    // the driver duplicates acceptor 1's notification
    assert!(learner.on_message(1, notification).is_empty());
    assert!(learner.on_message(1, notification).is_empty());

    // the acknowledgment set grew by exactly one across both deliveries
    assert_eq!(learner.acks.len(), 1);
    assert_eq!(learner.acks[0].1.len(), 1);
}

#[test]
fn stale_timer_delivery() {
    let mut proposer = new_proposer(1, "x");
    proposer.on_init();
    let t1 = proposer.timer_id;
    assert_eq!(t1, TimerId { seq: 1, node: 1 });

    // the live timer fires and the round restarts under a fresh timer
    proposer.on_timeout(t1);
    let t2 = proposer.timer_id;
    assert_eq!(t2, TimerId { seq: 2, node: 1 });
    assert_ne!(t1, t2);

    // the driver later delivers the old timer: nothing happens
    let out = proposer.on_timeout(t1);
    assert!(out.is_empty());
    let round = proposer.round.as_ref().expect("round is active");
    assert_eq!(round.proposal_id, pid(2, 1));
}

#[test]
fn unified_dispatch_drives_all_roles() {
    let mut proposer = new_proposer(1, "x");
    let mut acceptor: Acceptor<Val> = Acceptor::new(2, ctx3(), vec![1, 2, 3]);
    let mut learner: Learner<Val> = Learner::new(3, ctx3());

    let opening = HandlesEvents::on_init(&mut proposer);
    let (_, _, prepare) = sent(&opening[1]);
    let reply = HandlesEvents::on_event(
        &mut acceptor,
        Event::Message { from: 1, msg: prepare },
    );
    let (_, from, promise) = single_reply(&reply);
    assert!(matches!(promise, PaxosMsg::Promise { .. }));
    assert!(HandlesEvents::on_message(&mut proposer, from, promise).is_empty());
    let ignored = HandlesEvents::on_timeout(&mut learner, TimerId { seq: 5, node: 3 });
    assert!(ignored.is_empty());
}
