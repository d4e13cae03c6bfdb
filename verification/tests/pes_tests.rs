use consensus::threshold::coin_message_bytes;
use consensus::{
    Action, Authority, Block, Committee, ConsensusError, ConsensusMessage, Core, Digest, Input,
    MDoneAndShare, MHalt, MPreVote, MVote, MVoteTag, Output, Parameters, PrePare, PrePareProof,
    PreVoteTag, PublicKey, RandomnessShare, SPBProof, SPBValue, SPBVote, Signature,
    SignatureShare, Signed, FIN_PHASE, INIT_PHASE, LOCK_PHASE, OPT, PES, QC,
};
use threshold_crypto::SecretKeySet;

fn key(n: u64) -> PublicKey {
    PublicKey { w0: 0, w1: 0, w2: 0, w3: n }
}

fn digest(n: u64) -> Digest {
    Digest { w0: 7, w1: 0, w2: 0, w3: n }
}

fn sig(n: u8) -> Signature {
    Signature { bytes: [n; 64] }
}

fn committee() -> Committee {
    let members = (1..=4).map(|i| Authority { name: key(i), stake: 1 }).collect();
    Committee::new(members).expect("valid committee")
}

fn parameters(exp: usize) -> Parameters {
    Parameters { max_payload_size: 500, min_block_delay: 100, ddos: true, sync_retry_delay: 10_000, exp }
}

struct Fixture {
    core: Core,
    keys: SecretKeySet,
}

fn fixture(name: u64) -> Fixture {
    let keys = SecretKeySet::random(1, &mut rand::thread_rng());
    let encoded = bincode::serialize(&keys.public_keys()).expect("key set can be encoded");
    let core = Core::new(key(name), committee(), parameters(1), encoded, true, true);
    Fixture { core, keys }
}

fn from_network(message: ConsensusMessage) -> Input {
    Input { message, own: false, signatures_ok: true, ancestors: Vec::new() }
}

fn own(message: ConsensusMessage) -> Input {
    Input { message, own: true, signatures_ok: false, ancestors: Vec::new() }
}

fn value(author: u64, height: u64, round: u64, phase: u8) -> SPBValue {
    SPBValue {
        block: Block {
            qc: QC::genesis(),
            author: key(author),
            height,
            epoch: 0,
            payload: vec![digest(500 + author)],
            signature: sig(author as u8),
            tag: PES,
            digest: digest(100 * height + 10 * round + author),
        },
        round,
        phase,
        val: OPT,
        signatures: Vec::new(),
    }
}

fn share(v: &SPBValue, author: u64, phase: u8) -> SPBVote {
    SPBVote {
        hash: v.block.digest,
        phase,
        height: v.block.height,
        epoch: v.block.epoch,
        round: v.round,
        proposer: v.block.author,
        author: key(author),
        signature: sig(author as u8),
    }
}

fn quorum_proof(v: &SPBValue, phase: u8, voters: &[u64]) -> SPBProof {
    SPBProof {
        height: v.block.height,
        round: v.round,
        phase,
        shares: voters.iter().map(|a| share(v, *a, phase - 1)).collect(),
    }
}

fn finish(author: u64, height: u64, round: u64) -> ConsensusMessage {
    let v = value(author, height, round, FIN_PHASE);
    let p = quorum_proof(&v, FIN_PHASE, &[1, 2, 3]);
    ConsensusMessage::SPBFinish(v, p)
}

fn lock(author: u64, height: u64, round: u64) -> ConsensusMessage {
    let v = value(author, height, round, LOCK_PHASE);
    let p = quorum_proof(&v, LOCK_PHASE, &[1, 2, 3]);
    ConsensusMessage::SPBPropose(v, p)
}

fn done(author: u64, height: u64, round: u64) -> ConsensusMessage {
    ConsensusMessage::SPBDoneAndShare(MDoneAndShare {
        author: key(author),
        epoch: 0,
        height,
        round,
        signature: sig(author as u8),
    })
}

fn coin_share(keys: &SecretKeySet, author: u64, height: u64, round: u64) -> ConsensusMessage {
    let message = coin_message_bytes(0, height, round);
    let signed = keys.secret_key_share((author - 1) as usize).sign(&message);
    ConsensusMessage::SMVBACoinShare(RandomnessShare {
        height,
        epoch: 0,
        round,
        author: key(author),
        signature_share: SignatureShare { bytes: signed.to_bytes() },
    })
}

/// Reveals the coin of (height, round) to the replica and returns the
/// elected leader with what the replica said.
fn reveal_coin(f: &mut Fixture, height: u64, round: u64) -> (PublicKey, Output) {
    let first = f.core.handle(from_network(coin_share(&f.keys, 1, height, round)));
    assert_eq!(first.result, Ok(()));
    assert!(first.actions.is_empty());
    let out = f.core.handle(from_network(coin_share(&f.keys, 2, height, round)));
    assert_eq!(out.result, Ok(()));
    assert_eq!(out.actions.len(), 1);
    let leader = match &out.actions[0] {
        Action::Send { message: ConsensusMessage::SMVBAHalt(h), .. } => h.leader,
        Action::Send { message: ConsensusMessage::SMVBAPreVote(p), .. } => p.leader,
        other => panic!("unexpected action {:?}", other),
    };
    (leader, out)
}

fn number(k: PublicKey) -> u64 {
    k.w3
}

fn sent(out: &Output) -> Vec<&ConsensusMessage> {
    let mut messages = Vec::new();
    for a in out.actions.iter() {
        if let Action::Send { message, .. } = a {
            messages.push(message);
        }
    }
    messages
}

#[test]
fn first_phase_proposal_is_voted_for_once() {
    let mut f = fixture(2);
    let v = value(1, 1, 1, INIT_PHASE);
    let out = f.core.handle(from_network(ConsensusMessage::SPBPropose(v.clone(), SPBProof::initial(1, 1))));
    assert_eq!(out.result, Ok(()));
    assert_eq!(out.actions.len(), 1);
    match &out.actions[0] {
        Action::Send { message: ConsensusMessage::SPBVote(vote), to } => {
            assert_eq!(*to, Some(key(1)));
            assert_eq!(vote.hash, v.block.digest);
            assert_eq!((vote.phase, vote.height, vote.round, vote.epoch), (INIT_PHASE, 1, 1, 0));
            assert_eq!((vote.proposer, vote.author), (key(1), key(2)));
        }
        other => panic!("unexpected action {:?}", other),
    }
    assert_eq!(f.core.round_state(1, 1).inits, vec![key(1)]);
    // A second first-phase value of the same broadcaster is passed over.
    let mut rival = value(1, 1, 1, INIT_PHASE);
    rival.block.digest = digest(999);
    let out = f.core.handle(from_network(ConsensusMessage::SPBPropose(rival, SPBProof::initial(1, 1))));
    assert_eq!(out.result, Ok(()));
    assert!(out.actions.is_empty());
}

#[test]
fn locked_value_is_kept_and_voted_for() {
    let mut f = fixture(2);
    let out = f.core.handle(from_network(lock(3, 1, 1)));
    assert_eq!(out.result, Ok(()));
    match &out.actions[0] {
        Action::Send { message: ConsensusMessage::SPBVote(vote), to } => {
            assert_eq!(*to, Some(key(3)));
            assert_eq!(vote.phase, LOCK_PHASE);
        }
        other => panic!("unexpected action {:?}", other),
    }
    let st = f.core.round_state(1, 1);
    assert_eq!(st.locks.len(), 1);
    assert_eq!(st.locks[0].value.block.author, key(3));
    assert_eq!(st.locks[0].proof.phase, LOCK_PHASE);
    let out = f.core.handle(from_network(lock(3, 1, 1)));
    assert!(out.actions.is_empty());
    assert_eq!(f.core.round_state(1, 1).locks.len(), 1);
}

#[test]
fn proposal_in_the_last_phase_gets_no_vote() {
    let mut f = fixture(2);
    let v = value(3, 1, 1, FIN_PHASE);
    let p = quorum_proof(&v, FIN_PHASE, &[1, 2, 3]);
    let out = f.core.handle(from_network(ConsensusMessage::SPBPropose(v, p)));
    assert_eq!(out.result, Ok(()));
    assert!(out.actions.is_empty());
}

#[test]
fn proposal_without_its_quorum_is_refused_under_full_validation() {
    let mut f = fixture(2);
    let v = value(3, 1, 1, LOCK_PHASE);
    let p = quorum_proof(&v, LOCK_PHASE, &[1, 2]);
    let out = f.core.handle(from_network(ConsensusMessage::SPBPropose(v.clone(), p.clone())));
    assert_eq!(out.result, Err(ConsensusError::SPBRequiresQuorum));
    assert!(f.core.round_state(1, 1).locks.is_empty());
    // Without full validation the proof is not looked at.
    let keys = bincode::serialize(&SecretKeySet::random(1, &mut rand::thread_rng()).public_keys())
        .expect("key set can be encoded");
    let mut lax = Core::new(key(2), committee(), parameters(0), keys, true, true);
    let out = lax.handle(from_network(ConsensusMessage::SPBPropose(v, p)));
    assert_eq!(out.result, Ok(()));
    assert_eq!(lax.round_state(1, 1).locks.len(), 1);
}

#[test]
fn stale_messages_are_refused() {
    let mut f = fixture(2);
    // A round that is over.
    let out = f.core.handle(from_network(finish(1, 1, 0)));
    assert_eq!(out.result, Err(ConsensusError::TimeOutMessage(1, 0)));
    // A height two below ours.
    let mut b = value(3, 5, 1, INIT_PHASE).block;
    b.tag = OPT;
    b.author = key(2);
    b.qc = QC {
        hash: digest(4),
        height: 4,
        epoch: 0,
        votes: (1..=3).map(|v| Signed { author: key(v), signature: sig(v as u8) }).collect(),
    };
    assert_eq!(f.core.handle(from_network(ConsensusMessage::HsPropose(b))).result, Ok(()));
    assert_eq!(f.core.height(), 5);
    assert_eq!(f.core.handle(from_network(done(1, 3, 1))).result, Err(ConsensusError::TimeOutMessage(3, 1)));
    assert_eq!(f.core.handle(from_network(done(1, 4, 1))).result, Ok(()));
    // An epoch that is over.
    f.core.epoch_init(2);
    assert_eq!(f.core.handle(from_network(done(1, 1, 1))).result, Err(ConsensusError::TimeOutMessage(1, 1)));
    assert!(f.core.round_state(1, 1).dones.is_empty());
}

#[test]
fn future_epoch_deferral() {
    // During epoch 0 a proposal of epoch 1 arrives.
    let mut f = fixture(2);
    let mut v = value(1, 1, 1, INIT_PHASE);
    v.block.epoch = 1;
    let out = f.core.handle(from_network(ConsensusMessage::SPBPropose(v.clone(), SPBProof::initial(1, 1))));
    assert_eq!(out.result, Err(ConsensusError::EpochEnd(0)));
    assert!(out.actions.is_empty());
    assert_eq!(f.core.deferred_count(), 1);
    assert!(f.core.round_state(1, 1).inits.is_empty());
    // When epoch 1 starts, the message is replayed into the queue of the
    // pessimistic path.
    let replay = f.core.run_epoch();
    assert_eq!(f.core.epoch(), 1);
    assert_eq!(f.core.height(), 1);
    assert_eq!(replay.len(), 1);
    assert_eq!(replay[0].path(), PES);
    let again = replay.into_iter().next().expect("one message");
    assert!(matches!(&again, ConsensusMessage::SPBPropose(w, _) if w.block.digest == v.block.digest));
    let out = f.core.handle(from_network(again));
    assert_eq!(out.result, Ok(()));
    assert_eq!(sent(&out).len(), 1);
    assert_eq!(f.core.deferred_count(), 0);
}

#[test]
fn messages_for_other_epochs_are_dropped_when_an_epoch_begins() {
    let mut f = fixture(2);
    for epoch in [3, 1, 1, 2] {
        let mut v = value(1, 1, 1, INIT_PHASE);
        v.block.epoch = epoch;
        v.block.digest = digest(epoch * 10 + f.core.deferred_count() as u64);
        let out = f.core.handle(from_network(ConsensusMessage::SPBPropose(v, SPBProof::initial(1, 1))));
        assert_eq!(out.result, Err(ConsensusError::EpochEnd(0)));
    }
    assert_eq!(f.core.deferred_count(), 4);
    let replay = f.core.run_epoch();
    assert_eq!(replay.len(), 2);
    assert!(matches!(&replay[0], ConsensusMessage::SPBPropose(v, _) if v.block.digest == digest(11)));
    assert!(matches!(&replay[1], ConsensusMessage::SPBPropose(v, _) if v.block.digest == digest(12)));
    assert_eq!(f.core.deferred_count(), 0);
}

#[test]
fn own_proposal_is_kept_as_the_value_of_the_round() {
    let mut f = fixture(2);
    let v = value(2, 1, 1, INIT_PHASE);
    let out = f.core.handle(own(ConsensusMessage::SPBPropose(v.clone(), SPBProof::initial(1, 1))));
    assert_eq!(out.result, Ok(()));
    assert_eq!(f.core.round_state(1, 1).propose.map(|p| p.block.digest), Some(v.block.digest));
    // We vote for our own value, and pause since pauses belong to this path.
    assert!(matches!(&out.actions[0], Action::Send { message: ConsensusMessage::SPBVote(_), to } if *to == Some(key(2))));
    assert!(matches!(out.actions.last(), Some(Action::Delay(100))));
}

#[test]
fn quorum_of_votes_moves_our_value_through_the_phases() {
    let mut f = fixture(2);
    let v = value(2, 1, 1, INIT_PHASE);
    f.core.handle(own(ConsensusMessage::SPBPropose(v.clone(), SPBProof::initial(1, 1))));
    for author in [1, 2] {
        let out = f.core.handle(from_network(ConsensusMessage::SPBVote(share(&v, author, INIT_PHASE))));
        assert_eq!(out.result, Ok(()));
        assert!(out.actions.is_empty());
    }
    let out = f.core.handle(from_network(ConsensusMessage::SPBVote(share(&v, 3, INIT_PHASE))));
    let messages = sent(&out);
    assert_eq!(messages.len(), 1);
    let locked = match messages[0] {
        ConsensusMessage::SPBPropose(w, p) => {
            assert_eq!(w.phase, LOCK_PHASE);
            assert_eq!(w.block.digest, v.block.digest);
            assert_eq!((p.phase, p.height, p.round), (LOCK_PHASE, 1, 1));
            assert_eq!(p.shares.len(), 3);
            assert_eq!(w.verify(&committee(), p, true), Ok(()));
            w.clone()
        }
        other => panic!("unexpected message {:?}", other),
    };
    assert_eq!(f.core.round_state(1, 1).phase, LOCK_PHASE);
    // A fourth vote changes nothing.
    let out = f.core.handle(from_network(ConsensusMessage::SPBVote(share(&v, 4, INIT_PHASE))));
    assert!(out.actions.is_empty());
    for author in [4, 3] {
        let out = f.core.handle(from_network(ConsensusMessage::SPBVote(share(&locked, author, LOCK_PHASE))));
        assert!(out.actions.is_empty());
    }
    let out = f.core.handle(from_network(ConsensusMessage::SPBVote(share(&locked, 1, LOCK_PHASE))));
    let messages = sent(&out);
    assert_eq!(messages.len(), 1);
    match messages[0] {
        ConsensusMessage::SPBFinish(w, p) => {
            assert_eq!(w.phase, FIN_PHASE);
            assert_eq!(p.phase, FIN_PHASE);
            assert_eq!(p.shares.len(), 3);
            assert!(p.shares.iter().all(|s| s.phase == LOCK_PHASE && s.hash == v.block.digest));
            assert_eq!(w.verify(&committee(), p, true), Ok(()));
        }
        other => panic!("unexpected message {:?}", other),
    }
    assert_eq!(f.core.round_state(1, 1).phase, FIN_PHASE);
}

#[test]
fn second_vote_of_an_author_for_our_broadcast_is_refused() {
    let mut f = fixture(2);
    let v = value(2, 1, 1, INIT_PHASE);
    f.core.handle(own(ConsensusMessage::SPBPropose(v.clone(), SPBProof::initial(1, 1))));
    let vote = ConsensusMessage::SPBVote(share(&v, 3, INIT_PHASE));
    assert_eq!(f.core.handle(from_network(vote.clone())).result, Ok(()));
    assert_eq!(
        f.core.handle(from_network(vote)).result,
        Err(ConsensusError::AuthorityReuseinSPB(key(3)))
    );
    let stranger = ConsensusMessage::SPBVote(share(&v, 8, INIT_PHASE));
    assert_eq!(
        f.core.handle(from_network(stranger)).result,
        Err(ConsensusError::UnknownAuthority(key(8)))
    );
    let late = ConsensusMessage::SPBVote(share(&v, 4, FIN_PHASE));
    assert_eq!(
        f.core.handle(from_network(late)).result,
        Err(ConsensusError::SPBPhaseWrong(FIN_PHASE, FIN_PHASE))
    );
}

#[test]
fn votes_that_are_not_for_our_value_are_passed_over() {
    let mut f = fixture(2);
    // Before we broadcast anything, no vote is ours to count.
    let early = value(2, 1, 1, INIT_PHASE);
    let out = f.core.handle(from_network(ConsensusMessage::SPBVote(share(&early, 1, INIT_PHASE))));
    assert_eq!(out.result, Ok(()));
    assert!(out.actions.is_empty());
    let mine = value(2, 1, 1, INIT_PHASE);
    f.core.handle(own(ConsensusMessage::SPBPropose(mine.clone(), SPBProof::initial(1, 1))));
    for author in [1, 3] {
        f.core.handle(from_network(ConsensusMessage::SPBVote(share(&mine, author, INIT_PHASE))));
    }
    // Votes that name another digest, another proposer, another round or
    // another height complete no quorum.
    let mut other_digest = share(&mine, 4, INIT_PHASE);
    other_digest.hash = digest(4242);
    let mut other_proposer = share(&mine, 4, INIT_PHASE);
    other_proposer.proposer = key(3);
    let mut other_round = share(&mine, 4, INIT_PHASE);
    other_round.round = 2;
    let mut other_height = share(&mine, 4, INIT_PHASE);
    other_height.height = 2;
    for vote in [other_digest, other_proposer, other_round, other_height] {
        let out = f.core.handle(from_network(ConsensusMessage::SPBVote(vote)));
        assert_eq!(out.result, Ok(()));
        assert!(out.actions.is_empty());
    }
    assert_eq!(f.core.round_state(1, 1).phase, INIT_PHASE);
    // The vote of the same author for our value does.
    let out = f.core.handle(from_network(ConsensusMessage::SPBVote(share(&mine, 4, INIT_PHASE))));
    assert_eq!(sent(&out).len(), 1);
    assert_eq!(f.core.round_state(1, 1).phase, LOCK_PHASE);
}

#[test]
fn locking_votes_for_another_value_do_not_finish_ours() {
    let mut f = fixture(2);
    let mine = value(2, 1, 1, INIT_PHASE);
    f.core.handle(own(ConsensusMessage::SPBPropose(mine.clone(), SPBProof::initial(1, 1))));
    let mut theirs = value(3, 1, 1, LOCK_PHASE);
    theirs.block.digest = digest(777);
    for author in [1, 3, 4] {
        let out = f.core.handle(from_network(ConsensusMessage::SPBVote(share(&theirs, author, LOCK_PHASE))));
        assert_eq!(out.result, Ok(()));
        assert!(out.actions.is_empty());
    }
    assert_eq!(f.core.round_state(1, 1).phase, INIT_PHASE);
}

#[test]
fn quorum_of_finished_values_makes_us_done() {
    let mut f = fixture(2);
    for author in [1, 3] {
        let out = f.core.handle(from_network(finish(author, 1, 1)));
        assert_eq!(out.result, Ok(()));
        assert!(out.actions.is_empty());
    }
    // The same finished value again does not count twice.
    assert!(f.core.handle(from_network(finish(3, 1, 1))).actions.is_empty());
    assert!(!f.core.round_state(1, 1).d_flag);
    let out = f.core.handle(from_network(finish(4, 1, 1)));
    assert!(f.core.round_state(1, 1).d_flag);
    let messages = sent(&out);
    assert_eq!(messages.len(), 2);
    match messages[0] {
        ConsensusMessage::SPBDoneAndShare(d) => {
            assert_eq!((d.author, d.epoch, d.height, d.round), (key(2), 0, 1, 1));
        }
        other => panic!("unexpected message {:?}", other),
    }
    match messages[1] {
        ConsensusMessage::SMVBACoinShare(s) => {
            assert_eq!((s.author, s.epoch, s.height, s.round), (key(2), 0, 1, 1));
            assert_eq!(s.signature_share.bytes, [0u8; 96]);
        }
        other => panic!("unexpected message {:?}", other),
    }
    // A fourth finished value is kept, and we do not announce again.
    let out = f.core.handle(from_network(finish(2, 1, 1)));
    assert!(out.actions.is_empty());
    assert_eq!(f.core.round_state(1, 1).finishes.len(), 4);
}

#[test]
fn finish_that_is_not_in_the_last_phase_is_refused() {
    let mut f = fixture(2);
    let v = value(3, 1, 1, LOCK_PHASE);
    let p = quorum_proof(&v, LOCK_PHASE, &[1, 2, 3]);
    let out = f.core.handle(from_network(ConsensusMessage::SPBFinish(v, p)));
    assert_eq!(out.result, Err(ConsensusError::SPBPhaseWrong(LOCK_PHASE, LOCK_PHASE)));
    assert!(f.core.round_state(1, 1).finishes.is_empty());
}

#[test]
fn early_done_trigger() {
    // f+1 done messages before 2f+1 finished values.
    let mut f = fixture(2);
    assert!(f.core.handle(from_network(finish(1, 1, 1))).actions.is_empty());
    let out = f.core.handle(from_network(done(1, 1, 1)));
    assert_eq!(out.result, Ok(()));
    assert!(out.actions.is_empty());
    // A repeated announcement counts once.
    assert!(f.core.handle(from_network(done(1, 1, 1))).actions.is_empty());
    assert_eq!(f.core.round_state(1, 1).dones, vec![key(1)]);
    let out = f.core.handle(from_network(done(3, 1, 1)));
    let messages = sent(&out);
    assert_eq!(messages.len(), 2);
    assert!(matches!(messages[0], ConsensusMessage::SPBDoneAndShare(d) if d.author == key(2)));
    assert!(matches!(messages[1], ConsensusMessage::SMVBACoinShare(s) if s.author == key(2)));
    let st = f.core.round_state(1, 1);
    assert!(st.d_flag);
    assert!(!st.abandon);
    // Finished values that come later do not make us announce again.
    for author in [3, 4] {
        assert!(f.core.handle(from_network(finish(author, 1, 1))).actions.is_empty());
    }
}

#[test]
fn quorum_of_done_abandons_the_broadcasts() {
    let mut f = fixture(2);
    for author in [1, 3] {
        f.core.handle(from_network(done(author, 1, 1)));
    }
    assert!(!f.core.round_state(1, 1).abandon);
    // Our own announcement comes back and completes the quorum.
    let out = f.core.handle(own(done(2, 1, 1)));
    assert_eq!(out.result, Ok(()));
    assert!(f.core.round_state(1, 1).abandon);
    // Proposals of the round are no longer looked at.
    let out = f.core.handle(from_network(lock(4, 1, 1)));
    assert_eq!(out.result, Ok(()));
    assert!(out.actions.is_empty());
    assert!(f.core.round_state(1, 1).locks.is_empty());
}

#[test]
fn coin_before_any_finish_of_the_leader_makes_a_no_prevote() {
    let mut f = fixture(2);
    let (leader, out) = reveal_coin(&mut f, 1, 1);
    match &out.actions[0] {
        Action::Send { message: ConsensusMessage::SMVBAPreVote(pv), to } => {
            assert_eq!(*to, None);
            assert_eq!((pv.author, pv.leader, pv.height, pv.round, pv.epoch), (key(2), leader, 1, 1, 0));
            assert!(matches!(pv.tag, PreVoteTag::No));
        }
        other => panic!("unexpected action {:?}", other),
    }
    // The coin of the round is known: further shares are ignored.
    let out = f.core.handle(from_network(coin_share(&f.keys, 3, 1, 1)));
    assert_eq!(out.result, Ok(()));
    assert!(out.actions.is_empty());
}

#[test]
fn coin_with_the_leaders_lock_makes_a_yes_prevote() {
    let mut f = fixture(2);
    for author in 1..=4 {
        f.core.handle(from_network(lock(author, 1, 1)));
    }
    let (leader, out) = reveal_coin(&mut f, 1, 1);
    match &out.actions[0] {
        Action::Send { message: ConsensusMessage::SMVBAPreVote(pv), .. } => match &pv.tag {
            PreVoteTag::Yes(v, p) => {
                assert_eq!(v.block.author, leader);
                assert_eq!(v.phase, LOCK_PHASE);
                assert_eq!(p.phase, LOCK_PHASE);
                assert_eq!(pv.verify(&committee(), true), Ok(()));
            }
            PreVoteTag::No => panic!("the lock of the leader is held"),
        },
        other => panic!("unexpected action {:?}", other),
    }
}

#[test]
fn coin_with_the_leaders_finish_makes_a_halt() {
    let mut f = fixture(2);
    for author in 1..=4 {
        f.core.handle(from_network(lock(author, 1, 1)));
        f.core.handle(from_network(finish(author, 1, 1)));
    }
    let (leader, out) = reveal_coin(&mut f, 1, 1);
    match &out.actions[0] {
        Action::Send { message: ConsensusMessage::SMVBAHalt(h), to } => {
            assert_eq!(*to, None);
            assert_eq!((h.author, h.leader, h.height, h.round), (key(2), leader, 1, 1));
            assert_eq!(h.value.block.author, leader);
            assert_eq!(h.value.phase, FIN_PHASE);
            assert_eq!(h.verify(&committee(), true), Ok(()));
        }
        other => panic!("unexpected action {:?}", other),
    }
}

#[test]
fn coin_share_that_does_not_verify_is_refused() {
    let mut f = fixture(2);
    let forged = match coin_share(&f.keys, 3, 1, 1) {
        ConsensusMessage::SMVBACoinShare(mut s) => {
            s.author = key(1);
            ConsensusMessage::SMVBACoinShare(s)
        }
        other => other,
    };
    let out = f.core.handle(from_network(forged));
    assert_eq!(out.result, Err(ConsensusError::InvalidThresholdSignature(key(1))));
    let share = coin_share(&f.keys, 3, 1, 1);
    assert_eq!(f.core.handle(from_network(share.clone())).result, Ok(()));
    assert_eq!(
        f.core.handle(from_network(share)).result,
        Err(ConsensusError::AuthorityReuseinCoin(key(3)))
    );
}

fn prevote(author: u64, leader: PublicKey, tag: PreVoteTag) -> ConsensusMessage {
    ConsensusMessage::SMVBAPreVote(MPreVote {
        author: key(author),
        leader,
        round: 1,
        height: 1,
        epoch: 0,
        tag,
        signature: sig(author as u8),
    })
}

#[test]
fn first_yes_prevote_makes_us_vote_yes() {
    let mut f = fixture(2);
    let v = value(3, 1, 1, LOCK_PHASE);
    let p = quorum_proof(&v, LOCK_PHASE, &[1, 2, 3]);
    let out = f.core.handle(from_network(prevote(1, key(3), PreVoteTag::Yes(v.clone(), p))));
    assert_eq!(out.result, Ok(()));
    let messages = sent(&out);
    assert_eq!(messages.len(), 1);
    match messages[0] {
        ConsensusMessage::SMVBAVote(mv) => {
            assert_eq!((mv.author, mv.leader, mv.height, mv.round), (key(2), key(3), 1, 1));
            match &mv.tag {
                MVoteTag::Yes(w, _, vote) => {
                    assert_eq!(w.block.digest, v.block.digest);
                    assert_eq!((vote.author, vote.phase, vote.hash), (key(2), LOCK_PHASE, v.block.digest));
                }
                MVoteTag::No => panic!("a yes was due"),
            }
            assert_eq!(mv.verify(&committee(), true), Ok(()));
        }
        other => panic!("unexpected message {:?}", other),
    }
    let st = f.core.round_state(1, 1);
    assert!(st.y_flag && !st.n_flag);
    // Either flag suppresses the other: no further reaction in this round.
    for author in [1, 3, 4] {
        let out = f.core.handle(from_network(prevote(author, key(3), PreVoteTag::No)));
        assert_eq!(out.result, Ok(()));
        assert!(out.actions.is_empty());
    }
    assert!(!f.core.round_state(1, 1).n_flag);
}

#[test]
fn quorum_of_no_prevotes_makes_us_vote_no() {
    let mut f = fixture(2);
    for author in [1, 1, 3] {
        let out = f.core.handle(from_network(prevote(author, key(3), PreVoteTag::No)));
        assert_eq!(out.result, Ok(()));
        assert!(out.actions.is_empty());
    }
    let out = f.core.handle(from_network(prevote(4, key(3), PreVoteTag::No)));
    let messages = sent(&out);
    assert_eq!(messages.len(), 1);
    assert!(matches!(messages[0], ConsensusMessage::SMVBAVote(mv) if matches!(mv.tag, MVoteTag::No) && mv.author == key(2)));
    let st = f.core.round_state(1, 1);
    assert!(st.n_flag && !st.y_flag);
    assert_eq!(st.no_prevotes, vec![key(1), key(3), key(4)]);
    // A yes that comes now is too late.
    let v = value(3, 1, 1, LOCK_PHASE);
    let p = quorum_proof(&v, LOCK_PHASE, &[1, 2, 3]);
    assert!(f.core.handle(from_network(prevote(3, key(3), PreVoteTag::Yes(v, p)))).actions.is_empty());
}

fn mvote(author: u64, leader: u64, tag: MVoteTag) -> ConsensusMessage {
    ConsensusMessage::SMVBAVote(MVote {
        author: key(author),
        leader: key(leader),
        round: 1,
        height: 1,
        epoch: 0,
        tag,
        signature: sig(author as u8),
    })
}

fn yes(author: u64, v: &SPBValue) -> MVoteTag {
    MVoteTag::Yes(v.clone(), quorum_proof(v, LOCK_PHASE, &[1, 2, 3]), share(v, author, LOCK_PHASE))
}

#[test]
fn quorum_of_yes_votes_makes_us_halt() {
    let mut f = fixture(2);
    let v = value(3, 1, 1, LOCK_PHASE);
    for author in [1, 4] {
        let out = f.core.handle(from_network(mvote(author, 3, yes(author, &v))));
        assert_eq!(out.result, Ok(()));
        assert!(out.actions.is_empty());
    }
    let out = f.core.handle(from_network(mvote(2, 3, yes(2, &v))));
    let messages = sent(&out);
    assert_eq!(messages.len(), 1);
    match messages[0] {
        ConsensusMessage::SMVBAHalt(h) => {
            assert_eq!((h.author, h.leader, h.height, h.round), (key(2), key(3), 1, 1));
            assert_eq!(h.value.phase, FIN_PHASE);
            assert_eq!(h.proof.phase, FIN_PHASE);
            assert_eq!(h.proof.shares.len(), 3);
            assert_eq!(h.verify(&committee(), true), Ok(()));
        }
        other => panic!("unexpected message {:?}", other),
    }
    assert_eq!(f.core.height_state(1).current_round, 1);
    // The same vote again is a reuse.
    assert_eq!(
        f.core.handle(from_network(mvote(4, 3, yes(4, &v)))).result,
        Err(ConsensusError::AuthorityReuseinProof(key(4)))
    );
}

#[test]
fn yes_votes_that_do_not_back_the_leaders_value_are_passed_over() {
    let keys = bincode::serialize(&SecretKeySet::random(1, &mut rand::thread_rng()).public_keys())
        .expect("key set can be encoded");
    // Without full validation nothing else stands between the vote and the count.
    let mut lax = Core::new(key(2), committee(), parameters(0), keys, true, true);
    let v = value(3, 1, 1, LOCK_PHASE);
    let mut other = value(3, 1, 1, LOCK_PHASE);
    other.block.digest = digest(4711);
    for author in [1, 2, 4] {
        // The inner vote names another digest than the value that comes with it.
        let tag = MVoteTag::Yes(
            v.clone(),
            quorum_proof(&v, LOCK_PHASE, &[1, 2, 3]),
            share(&other, author, LOCK_PHASE),
        );
        let out = lax.handle(from_network(mvote(author, 3, tag)));
        assert_eq!(out.result, Ok(()));
        assert!(out.actions.is_empty());
        // The value is not that of the leader whom the vote names.
        let out = lax.handle(from_network(mvote(author, 4, yes(author, &v))));
        assert_eq!(out.result, Ok(()));
        assert!(out.actions.is_empty());
    }
    assert!(lax.round_state(1, 1).votes.is_empty());
    // Votes that do back it make us halt.
    for author in [1, 4] {
        assert!(lax.handle(from_network(mvote(author, 3, yes(author, &v)))).actions.is_empty());
    }
    let out = lax.handle(from_network(mvote(2, 3, yes(2, &v))));
    assert!(matches!(sent(&out)[0], ConsensusMessage::SMVBAHalt(h) if h.proof.shares.len() == 3));
}

#[test]
fn quorum_of_votes_without_a_finish_moves_to_the_next_round() {
    let mut f = fixture(2);
    // Our value of round 1, which the next round takes up again.
    let mine = value(2, 1, 1, INIT_PHASE);
    f.core.handle(own(ConsensusMessage::SPBPropose(mine.clone(), SPBProof::initial(1, 1))));
    for author in [1, 3] {
        let out = f.core.handle(from_network(mvote(author, 3, MVoteTag::No)));
        assert_eq!(out.result, Ok(()));
        assert!(out.actions.is_empty());
    }
    let v = value(3, 1, 1, LOCK_PHASE);
    let out = f.core.handle(from_network(mvote(4, 3, yes(4, &v))));
    assert_eq!(out.result, Ok(()));
    assert_eq!(f.core.height_state(1).current_round, 2);
    assert_eq!(out.actions.len(), 1);
    match &out.actions[0] {
        Action::ProposePes(w, p) => {
            assert_eq!((w.block.height, w.round, w.phase, w.val), (1, 2, INIT_PHASE, mine.val));
            assert_eq!(w.block.author, key(2));
            assert_eq!((p.height, p.round, p.phase), (1, 2, INIT_PHASE));
        }
        other => panic!("unexpected action {:?}", other),
    }
    // Round 1 is over.
    assert_eq!(
        f.core.handle(from_network(mvote(2, 3, MVoteTag::No))).result,
        Err(ConsensusError::TimeOutMessage(1, 1))
    );
}

#[test]
fn next_round_without_a_value_of_ours_proposes_nothing() {
    let mut f = fixture(2);
    for author in [1, 3] {
        f.core.handle(from_network(mvote(author, 3, MVoteTag::No)));
    }
    let out = f.core.handle(from_network(mvote(4, 3, MVoteTag::No)));
    assert_eq!(out.result, Ok(()));
    assert!(out.actions.is_empty());
    assert_eq!(f.core.height_state(1).current_round, 2);
}

fn halt(author: u64, v: &SPBValue) -> ConsensusMessage {
    let fin = SPBValue { phase: FIN_PHASE, ..v.clone() };
    ConsensusMessage::SMVBAHalt(MHalt {
        author: key(author),
        leader: v.block.author,
        proof: quorum_proof(&fin, FIN_PHASE, &[1, 3, 4]),
        value: fin,
        epoch: 0,
        height: v.block.height,
        round: v.round,
        signature: sig(author as u8),
    })
}

#[test]
fn halt_before_the_coin_is_dropped() {
    let mut f = fixture(2);
    let v = value(3, 1, 1, FIN_PHASE);
    let out = f.core.handle(from_network(halt(1, &v)));
    assert_eq!(out.result, Ok(()));
    assert!(out.actions.is_empty());
    assert!(!f.core.height_state(1).halt);
    assert!(f.core.height_state(1).output.is_none());
}

#[test]
fn halt_for_the_elected_leader_ends_the_agreement() {
    let mut f = fixture(2);
    let (leader, _) = reveal_coin(&mut f, 1, 1);
    // A halt with the value of another broadcaster is ignored.
    let other = value(number(leader) % 4 + 1, 1, 1, FIN_PHASE);
    let out = f.core.handle(from_network(halt(1, &other)));
    assert!(out.actions.is_empty());
    assert!(!f.core.height_state(1).halt);
    let v = value(number(leader), 1, 1, FIN_PHASE);
    let out = f.core.handle(from_network(halt(1, &v)));
    assert_eq!(out.result, Ok(()));
    let hs = f.core.height_state(1);
    assert!(hs.halt);
    assert_eq!(hs.output.map(|b| b.digest), Some(v.block.digest));
    // The value is delivered: our arbitration message for the next height
    // argues for the pessimistic path with the finishing proof.
    let messages = sent(&out);
    assert_eq!(messages.len(), 1);
    match messages[0] {
        ConsensusMessage::ParPrePare(p) => {
            assert_eq!((p.author, p.height, p.val, p.epoch), (key(2), 2, PES, 0));
            assert!(matches!(&p.proof, PrePareProof::PESProof(fin) if fin.phase == FIN_PHASE && fin.height == 1));
        }
        other => panic!("unexpected message {:?}", other),
    }
    assert!(f.core.height_state(2).prepare_sent);
    // Exactly one halt per height: every further message of the agreement
    // of this height is stale.
    assert_eq!(f.core.handle(from_network(halt(3, &v))).result, Err(ConsensusError::TimeOutMessage(1, 1)));
    assert_eq!(f.core.handle(from_network(done(1, 1, 1))).result, Err(ConsensusError::TimeOutMessage(1, 1)));
    assert_eq!(f.core.handle(from_network(finish(1, 1, 2))).result, Err(ConsensusError::TimeOutMessage(1, 2)));
}

#[test]
fn halt_without_a_finishing_proof_is_refused() {
    let mut f = fixture(2);
    let (leader, _) = reveal_coin(&mut f, 1, 1);
    let v = value(number(leader), 1, 1, LOCK_PHASE);
    let bad = ConsensusMessage::SMVBAHalt(MHalt {
        author: key(1),
        leader,
        proof: quorum_proof(&v, LOCK_PHASE, &[1, 3, 4]),
        value: v,
        epoch: 0,
        height: 1,
        round: 1,
        signature: sig(1),
    });
    assert_eq!(f.core.handle(from_network(bad)).result, Err(ConsensusError::InvalidFinProof));
    assert!(!f.core.height_state(1).halt);
}

fn opt_prepare(author: u64, height: u64) -> ConsensusMessage {
    let proof = if height == 1 {
        PrePareProof::OPTProof(QC::genesis())
    } else {
        PrePareProof::OPTProof(QC {
            hash: digest(height - 1),
            height: height - 1,
            epoch: 0,
            votes: (1..=3).map(|v| Signed { author: key(v), signature: sig(v as u8) }).collect(),
        })
    };
    ConsensusMessage::ParPrePare(PrePare {
        author: key(author),
        epoch: 0,
        height,
        proof,
        val: OPT,
        signature: sig(author as u8),
    })
}

fn pes_prepare(author: u64, height: u64) -> ConsensusMessage {
    let v = value(3, height - 1, 1, FIN_PHASE);
    ConsensusMessage::ParPrePare(PrePare {
        author: key(author),
        epoch: 0,
        height,
        proof: PrePareProof::PESProof(quorum_proof(&v, FIN_PHASE, &[1, 2, 3])),
        val: PES,
        signature: sig(author as u8),
    })
}

#[test]
fn arbitration_copies_the_optimistic_tag_at_the_coin_threshold() {
    let mut f = fixture(2);
    let out = f.core.handle(from_network(opt_prepare(1, 2)));
    assert_eq!(out.result, Ok(()));
    assert!(out.actions.is_empty());
    let out = f.core.handle(from_network(opt_prepare(3, 2)));
    let messages = sent(&out);
    assert_eq!(messages.len(), 1);
    match messages[0] {
        ConsensusMessage::ParPrePare(p) => {
            assert_eq!((p.author, p.height, p.val), (key(2), 2, OPT));
            assert!(matches!(&p.proof, PrePareProof::OPTProof(q) if q.height == 1));
        }
        other => panic!("unexpected message {:?}", other),
    }
    assert!(f.core.height_state(2).prepare_sent);
    // Our own message comes back and completes the quorum: the broadcast
    // for height 2 starts on the certificate, with the signatures as evidence.
    let out = f.core.handle(own(opt_prepare(2, 2)));
    assert_eq!(out.result, Ok(()));
    assert_eq!(out.actions.len(), 1);
    match &out.actions[0] {
        Action::ProposePes(v, p) => {
            assert_eq!((v.block.height, v.round, v.phase, v.val), (2, 1, INIT_PHASE, OPT));
            assert_eq!((v.block.qc.height, v.block.qc.hash), (1, digest(1)));
            let signers: Vec<PublicKey> = v.signatures.iter().map(|s| s.author).collect();
            assert_eq!(signers, vec![key(1), key(3), key(2)]);
            assert_eq!((p.height, p.round, p.phase), (2, 1, INIT_PHASE));
        }
        other => panic!("unexpected action {:?}", other),
    }
    // The fourth message starts nothing again.
    assert!(f.core.handle(from_network(opt_prepare(4, 2))).actions.is_empty());
}

#[test]
fn second_arbitration_message_of_an_author_is_refused() {
    let mut f = fixture(2);
    assert_eq!(f.core.handle(from_network(opt_prepare(1, 1))).result, Ok(()));
    let out = f.core.handle(from_network(opt_prepare(1, 1)));
    assert_eq!(out.result, Err(ConsensusError::AuthorityReuseinPrePare(key(1))));
    assert_eq!(f.core.height_state(1).prepare_opts.len(), 1);
    assert_eq!(f.core.handle(from_network(pes_prepare(1, 2))).result, Ok(()));
    assert_eq!(
        f.core.handle(from_network(pes_prepare(1, 2))).result,
        Err(ConsensusError::AuthorityReuseinPrePare(key(1)))
    );
}

#[test]
fn arbitration_that_is_stale_or_malformed_is_refused() {
    let mut f = fixture(2);
    let later = match opt_prepare(1, 1) {
        ConsensusMessage::ParPrePare(mut p) => {
            p.epoch = 4;
            ConsensusMessage::ParPrePare(p)
        }
        other => other,
    };
    // A message of a later epoch is set aside and ends the epoch.
    assert_eq!(f.core.handle(from_network(later.clone())).result, Err(ConsensusError::EpochEnd(0)));
    assert_eq!(f.core.deferred_count(), 1);
    // Our own message of another epoch is stale.
    assert_eq!(f.core.handle(own(later)).result, Err(ConsensusError::TimeOutMessage(4, 1)));
    let wrong_tag = match opt_prepare(1, 1) {
        ConsensusMessage::ParPrePare(mut p) => {
            p.val = 7;
            ConsensusMessage::ParPrePare(p)
        }
        other => other,
    };
    assert_eq!(f.core.handle(from_network(wrong_tag)).result, Err(ConsensusError::InvalidPrePareTag(7)));
    let unsigned = Input { signatures_ok: false, ..from_network(opt_prepare(1, 1)) };
    assert_eq!(f.core.handle(unsigned).result, Err(ConsensusError::InvalidSignature));
    assert!(f.core.height_state(1).prepare_opts.is_empty());
}

#[test]
fn quorum_for_the_pessimistic_path_commits_the_output_of_the_height_before() {
    let mut f = fixture(2);
    let (leader, _) = reveal_coin(&mut f, 1, 1);
    let v = value(number(leader), 1, 1, FIN_PHASE);
    f.core.handle(from_network(halt(1, &v)));
    assert!(f.core.handle(from_network(pes_prepare(1, 2))).actions.is_empty());
    assert!(f.core.handle(from_network(pes_prepare(3, 2))).actions.is_empty());
    let out = f.core.handle(from_network(pes_prepare(4, 2)));
    assert_eq!(out.result, Ok(()));
    assert_eq!(out.actions.len(), 2);
    match &out.actions[0] {
        Action::ProposePes(w, _) => {
            assert_eq!((w.block.height, w.round, w.val), (2, 1, PES));
            assert!(w.block.qc.is_genesis());
            assert_eq!(w.signatures.len(), 3);
        }
        other => panic!("unexpected action {:?}", other),
    }
    let block = match &out.actions[1] {
        Action::VerifyPayload(b, tag) => {
            assert_eq!(*tag, PES);
            assert_eq!(b.digest, v.block.digest);
            b.clone()
        }
        other => panic!("unexpected action {:?}", other),
    };
    // The payload is there: the block comes back and is committed, which
    // ends the epoch.
    let out = f.core.handle(Input {
        message: ConsensusMessage::ParLoopBack(block.clone()),
        own: false,
        signatures_ok: true,
        ancestors: vec![Block::genesis(), Block::genesis()],
    });
    assert_eq!(out.result, Err(ConsensusError::EpochEnd(0)));
    assert_eq!(out.actions.len(), 2);
    assert!(matches!(&out.actions[0], Action::Store(b) if b.digest == block.digest));
    assert!(matches!(&out.actions[1], Action::Commit(b) if b.digest == block.digest));
    assert_eq!(f.core.last_committed_height(), 1);
}

#[test]
fn delivered_block_of_the_optimistic_path_is_committed_without_ending_the_epoch() {
    let mut f = fixture(2);
    let mut block = value(3, 2, 1, FIN_PHASE).block;
    block.tag = OPT;
    let input = |b: &Block| Input {
        message: ConsensusMessage::ParLoopBack(b.clone()),
        own: false,
        signatures_ok: true,
        ancestors: vec![Block::genesis(), Block::genesis()],
    };
    let out = f.core.handle(input(&block));
    assert_eq!(out.result, Ok(()));
    assert_eq!(out.actions.len(), 3);
    assert!(matches!(&out.actions[0], Action::Store(_)));
    assert!(matches!(&out.actions[1], Action::Commit(b) if b.height == 2));
    assert!(matches!(&out.actions[2], Action::Cleanup(_)));
    assert_eq!(f.core.last_committed_height(), 2);
    // A block that is not above our last commit is stored and released only.
    let out = f.core.handle(input(&block));
    assert_eq!(out.actions.len(), 2);
    assert!(matches!(&out.actions[1], Action::Cleanup(_)));
}

#[test]
fn epoch_isolation() {
    let mut f = fixture(2);
    for author in 1..=4 {
        f.core.handle(from_network(lock(author, 1, 1)));
        f.core.handle(from_network(finish(author, 1, 1)));
        f.core.handle(from_network(opt_prepare(author, 1)));
    }
    reveal_coin(&mut f, 1, 1);
    let mut block = value(3, 2, 1, FIN_PHASE).block;
    block.tag = OPT;
    f.core.handle(Input {
        message: ConsensusMessage::ParLoopBack(block),
        own: false,
        signatures_ok: true,
        ancestors: vec![Block::genesis(), Block::genesis()],
    });
    assert_eq!(f.core.last_committed_height(), 2);
    let replay = f.core.run_epoch();
    assert!(replay.is_empty());
    assert_eq!(f.core.epoch(), 1);
    assert_eq!(f.core.height(), 1);
    assert_eq!(f.core.last_voted_height(), 0);
    assert_eq!(f.core.last_committed_height(), 0);
    assert!(f.core.high_qc().is_genesis());
    let st = f.core.round_state(1, 1);
    assert!(st.locks.is_empty() && st.finishes.is_empty() && !st.d_flag && !st.proposed);
    let hs = f.core.height_state(1);
    assert!(hs.prepare_opts.is_empty() && !hs.prepare_sent && !hs.halt);
    // The coin of the epoch before is forgotten: a share of the old epoch is stale.
    assert_eq!(
        f.core.handle(from_network(coin_share(&f.keys, 3, 1, 1))).result,
        Err(ConsensusError::TimeOutMessage(1, 1))
    );
}

#[test]
fn what_is_held_per_height_outlives_the_cleanup() {
    let mut f = fixture(2);
    let (leader, _) = reveal_coin(&mut f, 1, 1);
    let v = value(number(leader), 1, 1, FIN_PHASE);
    f.core.handle(from_network(lock(3, 1, 1)));
    f.core.handle(from_network(halt(1, &v)));
    f.core.handle(from_network(opt_prepare(1, 1)));
    f.core.clean_smvba_state(1);
    assert!(f.core.round_state(1, 1).locks.is_empty());
    let hs = f.core.height_state(1);
    assert!(hs.halt);
    assert_eq!(hs.prepare_opts.len(), 1);
    assert_eq!(hs.output.map(|b| b.digest), Some(v.block.digest));
    // The agreement of the height stays closed.
    assert_eq!(f.core.handle(from_network(done(1, 1, 1))).result, Err(ConsensusError::TimeOutMessage(1, 1)));
}

#[test]
fn committing_a_delivered_block_drops_the_rounds_up_to_its_height() {
    let mut f = fixture(2);
    f.core.handle(from_network(lock(3, 1, 1)));
    f.core.handle(from_network(lock(3, 2, 1)));
    f.core.handle(from_network(lock(3, 3, 1)));
    let mut block = value(3, 2, 1, FIN_PHASE).block;
    block.tag = OPT;
    let out = f.core.handle(Input {
        message: ConsensusMessage::ParLoopBack(block),
        own: false,
        signatures_ok: true,
        ancestors: Vec::new(),
    });
    assert_eq!(out.result, Ok(()));
    assert!(f.core.round_state(1, 1).locks.is_empty());
    assert!(f.core.round_state(2, 1).locks.is_empty());
    assert_eq!(f.core.round_state(3, 1).locks.len(), 1);
}

#[test]
fn garbage_collection_follows_the_optimistic_path() {
    let mut f = fixture(2);
    for author in [1, 3] {
        f.core.handle(from_network(lock(author, 1, 1)));
        f.core.handle(from_network(lock(author, 3, 1)));
    }
    assert_eq!(f.core.round_state(1, 1).locks.len(), 2);
    // A block of height 3 carries the certificate of height 2: we enter
    // height 3, and processing the block drops what belongs to height 1.
    let certificate = |h: u64| QC {
        hash: digest(h),
        height: h,
        epoch: 0,
        votes: (1..=3).map(|v| Signed { author: key(v), signature: sig(v as u8) }).collect(),
    };
    let opt_block = |h: u64| Block {
        qc: if h == 1 { QC::genesis() } else { certificate(h - 1) },
        author: key(h % 4 + 1),
        height: h,
        epoch: 0,
        payload: Vec::new(),
        signature: sig(h as u8),
        tag: OPT,
        digest: digest(h),
    };
    assert_eq!(f.core.handle(from_network(ConsensusMessage::HsPropose(opt_block(3)))).result, Ok(()));
    assert_eq!(f.core.height(), 3);
    let out = f.core.handle(Input {
        message: ConsensusMessage::HsLoopBack(opt_block(3)),
        own: false,
        signatures_ok: true,
        ancestors: vec![opt_block(2), opt_block(1), Block::genesis(), Block::genesis()],
    });
    assert_eq!(out.result, Ok(()));
    assert!(f.core.round_state(1, 1).locks.is_empty());
    assert_eq!(f.core.round_state(3, 1).locks.len(), 2);
    f.core.clean_smvba_state(3);
    assert!(f.core.round_state(3, 1).locks.is_empty());
}

#[test]
fn counters_at_the_end_of_their_range_do_not_wrap() {
    // A round that has no successor is not left.
    let mut f = fixture(2);
    let last_round = |author: u64| {
        ConsensusMessage::SMVBAVote(MVote {
            author: key(author),
            leader: key(3),
            round: u64::MAX,
            height: 1,
            epoch: 0,
            tag: MVoteTag::No,
            signature: sig(author as u8),
        })
    };
    for author in [1, 3, 4] {
        let out = f.core.handle(from_network(last_round(author)));
        assert_eq!(out.result, Ok(()));
        assert!(out.actions.is_empty());
    }
    assert_eq!(f.core.height_state(1).current_round, 1);
    assert_eq!(f.core.round_state(1, u64::MAX).votes.len(), 3);
    // An arbitration message for the last height is not stale.
    let out = f.core.handle(from_network(ConsensusMessage::ParPrePare(PrePare {
        author: key(1),
        epoch: 0,
        height: u64::MAX,
        proof: PrePareProof::OPTProof(QC {
            hash: digest(9),
            height: u64::MAX - 1,
            epoch: 0,
            votes: (1..=3).map(|v| Signed { author: key(v), signature: sig(v as u8) }).collect(),
        }),
        val: OPT,
        signature: sig(1),
    })));
    assert_eq!(out.result, Ok(()));
    assert_eq!(f.core.height_state(u64::MAX).prepare_opts.len(), 1);
    // A certificate of the last height does not move us on.
    let mut core = Core::new(
        key(2),
        committee(),
        parameters(1),
        bincode::serialize(&f.keys.public_keys()).expect("key set can be encoded"),
        true,
        false,
    );
    core.update_high_qc(&QC { hash: digest(9), height: u64::MAX, epoch: 0, votes: Vec::new() });
    core.advance_height(u64::MAX);
    assert_eq!(core.height(), 1);
    assert_eq!(core.high_qc().height, u64::MAX);
    core.advance_height(u64::MAX - 1);
    assert_eq!(core.height(), u64::MAX);
    // The last epoch has no successor.
    core.epoch_init(u64::MAX);
    assert!(core.run_epoch().is_empty());
    assert_eq!(core.epoch(), u64::MAX);
}
