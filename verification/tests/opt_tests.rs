use consensus::{
    Action, Authority, Block, Committee, ConsensusError, ConsensusMessage, Core, Digest, HVote,
    Input, Output, Parameters, PrePareProof, PublicKey, Signature, Signed, SyncAction,
    Synchronizer, OPT, PES, QC,
};
use threshold_crypto::SecretKeySet;

fn key(n: u64) -> PublicKey {
    PublicKey { w0: 0, w1: 0, w2: 0, w3: n }
}

fn digest(n: u64) -> Digest {
    Digest { w0: 7, w1: 0, w2: 0, w3: n }
}

fn sig(n: u8) -> Signature {
    Signature { bytes: [n; 64] }
}

fn committee() -> Committee {
    let members = (1..=4).map(|i| Authority { name: key(i), stake: 1 }).collect();
    Committee::new(members).expect("valid committee")
}

fn parameters() -> Parameters {
    Parameters { max_payload_size: 500, min_block_delay: 100, ddos: false, sync_retry_delay: 10_000, exp: 1 }
}

fn replica(name: u64, opt_path: bool, pes_path: bool) -> Core {
    let keys = bincode::serialize(&SecretKeySet::random(1, &mut rand::thread_rng()).public_keys())
        .expect("key set can be encoded");
    Core::new(key(name), committee(), parameters(), keys, opt_path, pes_path)
}

fn qc(hash: Digest, height: u64, voters: &[u64]) -> QC {
    QC {
        hash,
        height,
        epoch: 0,
        votes: voters.iter().map(|v| Signed { author: key(*v), signature: sig(*v as u8) }).collect(),
    }
}

/// The leader of height h is member number h modulo 4, counted from 0.
fn leader(height: u64) -> u64 {
    height % 4 + 1
}

/// Block number h of a chain of blocks that each extend the one before.
fn chain_block(height: u64) -> Block {
    let parent = if height == 1 {
        QC::genesis()
    } else {
        qc(digest(height - 1), height - 1, &[1, 2, 3])
    };
    Block {
        qc: parent,
        author: key(leader(height)),
        height,
        epoch: 0,
        payload: vec![digest(1000 + height)],
        signature: sig(height as u8),
        tag: OPT,
        digest: digest(height),
    }
}

/// The ancestors of block number h, the parent first, down to genesis twice.
fn chain_ancestors(height: u64) -> Vec<Block> {
    let mut out = Vec::new();
    let mut h = height;
    while h > 1 {
        h -= 1;
        out.push(chain_block(h));
    }
    out.push(Block::genesis());
    out.push(Block::genesis());
    out
}

fn from_network(message: ConsensusMessage) -> Input {
    Input { message, own: false, signatures_ok: true, ancestors: Vec::new() }
}

fn looped_back(block: Block, ancestors: Vec<Block>) -> Input {
    Input { message: ConsensusMessage::HsLoopBack(block), own: false, signatures_ok: true, ancestors }
}

fn vote_in(out: &Output) -> Option<(HVote, Option<PublicKey>)> {
    for a in out.actions.iter() {
        if let Action::Send { message: ConsensusMessage::HSVote(v), to } = a {
            return Some((*v, *to));
        }
    }
    None
}

fn commits_in(out: &Output) -> Vec<u64> {
    let mut heights = Vec::new();
    for a in out.actions.iter() {
        if let Action::Commit(b) = a {
            heights.push(b.height);
        }
    }
    heights
}

fn hs_vote(author: u64, block: &Block) -> HVote {
    HVote {
        hash: block.digest,
        height: block.height,
        epoch: block.epoch,
        proposer: block.author,
        author: key(author),
        signature: sig(author as u8),
    }
}

#[test]
fn replica_begins_at_height_one_of_epoch_zero() {
    let core = replica(1, true, true);
    assert_eq!(core.name(), key(1));
    assert_eq!(core.height(), 1);
    assert_eq!(core.epoch(), 0);
    assert_eq!(core.last_voted_height(), 0);
    assert_eq!(core.last_committed_height(), 0);
    assert!(core.high_qc().is_genesis());
    assert_eq!(core.deferred_count(), 0);
    assert_eq!(core.height_state(1).current_round, 1);
    assert!(!core.round_state(1, 1).d_flag);
}

#[test]
fn leader_of_the_first_height_proposes_on_genesis() {
    // Height-1 proposer with no prior certificate.
    let mut core = replica(leader(1), true, false);
    let out = core.run();
    assert_eq!(out.result, Ok(()));
    assert_eq!(out.actions.len(), 1);
    match &out.actions[0] {
        Action::ProposeOpt(b) => {
            assert_eq!(b.author, key(leader(1)));
            assert_eq!(b.height, 1);
            assert_eq!(b.epoch, 0);
            assert!(b.qc.is_genesis());
            assert!(b.payload.is_empty());
            assert_eq!(b.tag, OPT);
        }
        other => panic!("unexpected action {:?}", other),
    }
}

#[test]
fn others_do_not_propose_at_boot() {
    let mut core = replica(leader(2), true, false);
    assert!(core.run().actions.is_empty());
    let mut off = replica(leader(1), false, false);
    assert!(off.run().actions.is_empty());
}

#[test]
fn boot_with_both_paths_proposes_on_both() {
    let mut core = replica(leader(1), true, true);
    let out = core.run();
    assert_eq!(out.actions.len(), 2);
    assert!(matches!(&out.actions[0], Action::ProposeOpt(_)));
    match &out.actions[1] {
        Action::ProposePes(v, p) => {
            assert_eq!((v.block.height, v.round, v.phase, v.val), (1, 1, 0, PES));
            assert_eq!(v.block.tag, PES);
            assert!(v.block.qc.is_genesis());
            assert!(v.signatures.is_empty());
            assert_eq!((p.height, p.round, p.phase), (1, 1, 0));
            assert!(p.shares.is_empty());
        }
        other => panic!("unexpected action {:?}", other),
    }
    assert!(core.round_state(1, 1).proposed);
    // The broadcast of a round is started once.
    assert!(core.run().actions.iter().all(|a| !matches!(a, Action::ProposePes(_, _))));
}

#[test]
fn proposal_of_the_leader_asks_for_its_payload() {
    let mut core = replica(3, true, false);
    let b = chain_block(1);
    let out = core.handle(from_network(ConsensusMessage::HsPropose(b.clone())));
    assert_eq!(out.result, Ok(()));
    assert_eq!(out.actions.len(), 1);
    match &out.actions[0] {
        Action::VerifyPayload(block, tag) => {
            assert_eq!(block.digest, b.digest);
            assert_eq!(*tag, OPT);
        }
        other => panic!("unexpected action {:?}", other),
    }
    // Genesis certificate acceptance: nothing to advance to.
    assert_eq!(core.height(), 1);
}

#[test]
fn proposal_of_another_than_the_leader_is_refused() {
    let mut core = replica(3, true, false);
    let mut b = chain_block(1);
    b.author = key(4);
    let out = core.handle(from_network(ConsensusMessage::HsPropose(b.clone())));
    assert_eq!(
        out.result,
        Err(ConsensusError::WrongLeader { digest: b.digest, leader: key(4), round: 1 })
    );
    assert!(out.actions.is_empty());
}

#[test]
fn proposal_with_a_bad_signature_is_refused() {
    let mut core = replica(3, true, false);
    let input = Input {
        message: ConsensusMessage::HsPropose(chain_block(1)),
        own: false,
        signatures_ok: false,
        ancestors: Vec::new(),
    };
    assert_eq!(core.handle(input).result, Err(ConsensusError::InvalidSignature));
    assert_eq!(core.height(), 1);
}

#[test]
fn proposal_carries_its_certificate_forward() {
    let mut core = replica(3, true, false);
    let b = chain_block(5);
    let out = core.handle(from_network(ConsensusMessage::SyncReply(b)));
    assert_eq!(out.result, Ok(()));
    assert_eq!(core.height(), 5);
    assert_eq!(core.high_qc().height, 4);
    assert_eq!(core.high_qc().hash, digest(4));
    // An older certificate changes nothing.
    let out = core.handle(from_network(ConsensusMessage::HsPropose(chain_block(3))));
    assert_eq!(out.result, Ok(()));
    assert_eq!(core.height(), 5);
    assert_eq!(core.high_qc().height, 4);
}

#[test]
fn proposal_of_an_earlier_epoch_is_ignored() {
    let mut core = replica(3, true, false);
    core.epoch_init(2);
    let out = core.handle(from_network(ConsensusMessage::HsPropose(chain_block(1))));
    assert_eq!(out.result, Ok(()));
    assert!(out.actions.is_empty());
    assert_eq!(core.deferred_count(), 0);
}

#[test]
fn proposal_of_a_later_epoch_is_set_aside() {
    let mut core = replica(3, true, false);
    let mut b = chain_block(1);
    b.epoch = 1;
    let out = core.handle(from_network(ConsensusMessage::HsPropose(b.clone())));
    assert_eq!(out.result, Err(ConsensusError::EpochEnd(0)));
    assert!(out.actions.is_empty());
    assert_eq!(core.deferred_count(), 1);
    let replay = core.run_epoch();
    assert_eq!(core.epoch(), 1);
    assert_eq!(core.deferred_count(), 0);
    assert_eq!(replay.len(), 1);
    match &replay[0] {
        ConsensusMessage::HsPropose(again) => assert_eq!(again.digest, b.digest),
        other => panic!("unexpected message {:?}", other),
    }
    assert_eq!(replay[0].path(), OPT);
}

#[test]
fn block_without_its_ancestors_waits() {
    let mut core = replica(3, true, false);
    let out = core.handle(looped_back(chain_block(1), Vec::new()));
    assert_eq!(out.result, Ok(()));
    assert!(out.actions.is_empty());
    // Ancestors that are not the block's own do not count.
    let wrong = vec![chain_block(7), chain_block(6)];
    let out = core.handle(looped_back(chain_block(2), wrong));
    assert!(out.actions.is_empty());
    assert_eq!(core.last_voted_height(), 0);
}

#[test]
fn block_of_our_height_gets_our_vote() {
    let mut core = replica(3, true, false);
    let b = chain_block(1);
    let out = core.handle(looped_back(b.clone(), chain_ancestors(1)));
    assert_eq!(out.result, Ok(()));
    assert!(matches!(&out.actions[0], Action::Store(s) if s.digest == b.digest));
    let (vote, to) = vote_in(&out).expect("a vote");
    assert_eq!(to, Some(b.author));
    assert_eq!(vote.hash, b.digest);
    assert_eq!(vote.height, 1);
    assert_eq!(vote.epoch, 0);
    assert_eq!(vote.proposer, b.author);
    assert_eq!(vote.author, key(3));
    assert_eq!(vote.signature.bytes, [0u8; 64]);
    assert_eq!(core.last_voted_height(), 1);
}

#[test]
fn no_second_vote_for_a_height() {
    let mut core = replica(3, true, false);
    let out = core.handle(looped_back(chain_block(1), chain_ancestors(1)));
    assert!(vote_in(&out).is_some());
    // The same block again, and another block of the same height.
    let out = core.handle(looped_back(chain_block(1), chain_ancestors(1)));
    assert!(vote_in(&out).is_none());
    let mut rival = chain_block(1);
    rival.digest = digest(77);
    let out = core.handle(looped_back(rival, chain_ancestors(1)));
    assert!(vote_in(&out).is_none());
    assert_eq!(core.last_voted_height(), 1);
}

#[test]
fn block_of_another_height_gets_no_vote() {
    let mut core = replica(3, true, false);
    let out = core.handle(looped_back(chain_block(3), chain_ancestors(3)));
    assert_eq!(out.result, Ok(()));
    assert!(vote_in(&out).is_none());
    assert_eq!(core.last_voted_height(), 0);
}

#[test]
fn grandparent_is_committed_with_its_ancestors() {
    let mut core = replica(3, true, false);
    // Nothing to commit below the third block.
    let out = core.handle(looped_back(chain_block(1), chain_ancestors(1)));
    assert!(commits_in(&out).is_empty());
    let out = core.handle(looped_back(chain_block(2), chain_ancestors(2)));
    assert!(commits_in(&out).is_empty());
    let out = core.handle(looped_back(chain_block(3), chain_ancestors(3)));
    assert_eq!(commits_in(&out), vec![1]);
    assert_eq!(core.last_committed_height(), 1);
    // Heights 2 to 4 were missed: block 6 commits them all, lowest first.
    let out = core.handle(looped_back(chain_block(6), chain_ancestors(6)));
    assert_eq!(commits_in(&out), vec![2, 3, 4]);
    assert_eq!(core.last_committed_height(), 4);
    // Nothing is committed twice.
    let out = core.handle(looped_back(chain_block(6), chain_ancestors(6)));
    assert!(commits_in(&out).is_empty());
    let out = core.handle(looped_back(chain_block(5), chain_ancestors(5)));
    assert!(commits_in(&out).is_empty());
    assert_eq!(core.last_committed_height(), 4);
}

#[test]
fn commit_stops_where_the_chain_is_not_at_hand() {
    let mut core = replica(3, true, false);
    let mut ancestors = chain_ancestors(6);
    ancestors.truncate(3); // blocks 5, 4 and 3 only
    let out = core.handle(looped_back(chain_block(6), ancestors));
    assert_eq!(commits_in(&out), vec![3, 4]);
    assert_eq!(core.last_committed_height(), 4);
}

#[test]
fn heights_that_do_not_follow_each_other_are_refused() {
    let mut core = replica(3, true, false);
    let mut b = chain_block(9);
    b.qc = qc(digest(4), 4, &[1, 2, 3]);
    let out = core.handle(looped_back(b, chain_ancestors(5)));
    assert_eq!(
        out.result,
        Err(ConsensusError::NonConsecutiveRounds { rd1: 3, rd2: 4, rd3: 9 })
    );
    assert!(out.actions.is_empty());
    assert_eq!(core.last_committed_height(), 0);
}

#[test]
fn block_of_another_epoch_is_passed_over() {
    let mut core = replica(3, true, false);
    core.epoch_init(1);
    let out = core.handle(looped_back(chain_block(3), chain_ancestors(3)));
    assert_eq!(out.result, Ok(()));
    assert!(out.actions.is_empty());
    assert_eq!(core.last_committed_height(), 0);
}

#[test]
fn boot_with_the_pessimistic_path_alone_starts_its_broadcast() {
    // The leader of height 1 with the optimistic path off.
    let mut core = replica(leader(1), false, true);
    let out = core.run();
    assert_eq!(out.result, Ok(()));
    assert_eq!(out.actions.len(), 1);
    match &out.actions[0] {
        Action::ProposePes(v, p) => {
            assert_eq!((v.round, v.phase, v.val), (1, 0, PES));
            assert_eq!((v.block.height, v.block.author, v.block.epoch), (1, key(leader(1)), 0));
            assert!(v.block.qc.is_genesis());
            assert!(v.signatures.is_empty());
            assert_eq!((p.height, p.round, p.phase), (1, 1, 0));
            assert!(p.shares.is_empty());
        }
        other => panic!("unexpected action {:?}", other),
    }
}

#[test]
fn processing_a_block_above_height_two_sends_our_arbitration_message() {
    let mut core = replica(3, true, true);
    // Blocks of heights 1 and 2 cause no arbitration.
    for height in [1, 2] {
        let out = core.handle(looped_back(chain_block(height), chain_ancestors(height)));
        assert_eq!(out.result, Ok(()));
        assert!(out
            .actions
            .iter()
            .all(|a| !matches!(a, Action::Send { message: ConsensusMessage::ParPrePare(_), .. })));
        assert!(!core.height_state(height).prepare_sent);
    }
    let b = chain_block(3);
    let out = core.handle(looped_back(b.clone(), chain_ancestors(3)));
    let mut seen = false;
    for a in out.actions.iter() {
        if let Action::Send { message: ConsensusMessage::ParPrePare(p), to } = a {
            assert_eq!(*to, None);
            assert_eq!((p.author, p.epoch, p.height, p.val), (key(3), 0, 3, OPT));
            assert!(matches!(&p.proof, PrePareProof::OPTProof(q) if q.height == 2 && q.hash == digest(2)));
            seen = true;
        }
    }
    assert!(seen);
    assert!(core.height_state(3).prepare_sent);
    // Once per height.
    let out = core.handle(looped_back(b, chain_ancestors(3)));
    assert!(out
        .actions
        .iter()
        .all(|a| !matches!(a, Action::Send { message: ConsensusMessage::ParPrePare(_), .. })));
}

#[test]
fn own_proposal_is_followed_by_a_pause() {
    let mut core = replica(leader(1), true, false);
    let input = Input {
        message: ConsensusMessage::HsPropose(chain_block(1)),
        own: true,
        signatures_ok: false,
        ancestors: chain_ancestors(1),
    };
    let out = core.handle(input);
    assert_eq!(out.result, Ok(()));
    let (vote, to) = vote_in(&out).expect("a vote for our own block");
    assert_eq!(to, Some(key(leader(1))));
    assert_eq!(vote.author, key(leader(1)));
    assert!(matches!(out.actions.last(), Some(Action::Delay(100))));
}

#[test]
fn vote_for_an_earlier_height_is_ignored() {
    let mut core = replica(leader(1), true, false);
    core.handle(from_network(ConsensusMessage::HsPropose(chain_block(5))));
    assert_eq!(core.height(), 5);
    let out = core.handle(from_network(ConsensusMessage::HSVote(hs_vote(2, &chain_block(4)))));
    assert_eq!(out.result, Ok(()));
    assert_eq!(core.hs_vote_count(), 0);
    core.epoch_init(2);
    let out = core.handle(from_network(ConsensusMessage::HSVote(hs_vote(2, &chain_block(1)))));
    assert_eq!(out.result, Ok(()));
    assert_eq!(core.hs_vote_count(), 0);
}

#[test]
fn vote_of_a_later_epoch_is_set_aside() {
    let mut core = replica(leader(1), true, false);
    let mut early = hs_vote(2, &chain_block(1));
    early.epoch = 1;
    let out = core.handle(from_network(ConsensusMessage::HSVote(early)));
    assert_eq!(out.result, Err(ConsensusError::EpochEnd(0)));
    assert!(out.actions.is_empty());
    assert_eq!(core.hs_vote_count(), 0);
    assert_eq!(core.deferred_count(), 1);
    // A vote of our own is never set aside.
    let mut mine = hs_vote(leader(1), &chain_block(1));
    mine.epoch = 1;
    let out = core.handle(Input {
        message: ConsensusMessage::HSVote(mine),
        own: true,
        signatures_ok: true,
        ancestors: Vec::new(),
    });
    assert_eq!(out.result, Ok(()));
    assert_eq!(core.deferred_count(), 1);
    // When the epoch begins, the vote is taken up again and counted.
    let replay = core.run_epoch();
    assert_eq!(core.epoch(), 1);
    assert_eq!(replay.len(), 1);
    assert_eq!(replay[0].epoch(), Some(1));
    let again = replay.into_iter().next().expect("one message");
    assert_eq!(core.handle(from_network(again)).result, Ok(()));
    assert_eq!(core.hs_vote_count(), 1);
}

#[test]
fn vote_of_a_stranger_is_refused() {
    let mut core = replica(leader(1), true, false);
    let out = core.handle(from_network(ConsensusMessage::HSVote(hs_vote(9, &chain_block(1)))));
    assert_eq!(out.result, Err(ConsensusError::UnknownAuthority(key(9))));
    assert_eq!(core.hs_vote_count(), 0);
}

#[test]
fn duplicate_vote_rejection() {
    // Two votes from B for the same height and block: the second is a reuse,
    // and the aggregator still holds one vote.
    let b = key(3);
    let mut core = replica(leader(1), true, false);
    let block = chain_block(1);
    let vote = hs_vote(3, &block);
    let out = core.handle(from_network(ConsensusMessage::HSVote(vote)));
    assert_eq!(out.result, Ok(()));
    assert_eq!(core.hs_vote_count(), 1);
    let out = core.handle(from_network(ConsensusMessage::HSVote(vote)));
    assert_eq!(out.result, Err(ConsensusError::AuthorityReuseinQC(b)));
    assert!(out.actions.is_empty());
    assert_eq!(core.hs_vote_count(), 1);
}

#[test]
fn quorum_of_votes_makes_a_certificate_and_moves_on() {
    let block = chain_block(1);
    let mut core = replica(leader(1), true, false);
    for author in [1, 3] {
        let out = core.handle(from_network(ConsensusMessage::HSVote(hs_vote(author, &block))));
        assert_eq!(out.result, Ok(()));
        assert!(out.actions.is_empty());
        assert_eq!(core.height(), 1);
    }
    let out = core.handle(from_network(ConsensusMessage::HSVote(hs_vote(4, &block))));
    assert_eq!(out.result, Ok(()));
    assert_eq!(core.height(), 2);
    assert_eq!(core.high_qc().height, 1);
    assert_eq!(core.high_qc().hash, block.digest);
    assert_eq!(core.high_qc().votes.len(), 3);
    // We lead height 1, not height 2: no proposal.
    assert!(out.actions.is_empty());
}

#[test]
fn leader_of_the_next_height_proposes_on_the_new_certificate() {
    // One member holds all the stake that counts and leads every other height.
    let members = vec![
        Authority { name: key(1), stake: 5 },
        Authority { name: key(2), stake: 1 },
    ];
    let committee = Committee::new(members).expect("valid committee");
    let keys = bincode::serialize(&SecretKeySet::random(1, &mut rand::thread_rng()).public_keys())
        .expect("key set can be encoded");
    let mut core = Core::new(key(1), committee, parameters(), keys, true, false);
    core.handle(from_network(ConsensusMessage::HsPropose(Block {
        author: key(2),
        qc: QC::genesis(),
        ..chain_block(1)
    })));
    let block = Block { author: key(2), ..chain_block(1) };
    let out = core.handle(from_network(ConsensusMessage::HSVote(hs_vote(1, &block))));
    assert_eq!(core.height(), 2);
    assert_eq!(out.actions.len(), 1);
    match &out.actions[0] {
        Action::ProposeOpt(b) => {
            assert_eq!((b.author, b.height), (key(1), 2));
            assert_eq!((b.qc.height, b.qc.hash), (1, block.digest));
        }
        other => panic!("unexpected action {:?}", other),
    }
}

#[test]
fn request_for_a_block_is_answered_from_the_store() {
    let mut core = replica(1, true, false);
    let out = core.handle(from_network(ConsensusMessage::SyncRequest(digest(5), key(4))));
    assert_eq!(out.result, Ok(()));
    assert_eq!(out.actions.len(), 1);
    assert!(matches!(
        &out.actions[0],
        Action::Reply { digest: d, requester } if *d == digest(5) && *requester == key(4)
    ));
}

#[test]
fn payload_missing() {
    // A valid block at height 5 arrives, but its payload is not in the store.
    let mut core = replica(3, true, false);
    let mut sync = Synchronizer::new(key(3), 10_000);
    let block = chain_block(5);
    let out = core.handle(from_network(ConsensusMessage::HsPropose(block.clone())));
    assert_eq!(out.result, Ok(()));
    assert_eq!(core.height(), 5);
    let asked = match &out.actions[0] {
        Action::VerifyPayload(b, tag) => (b.clone(), *tag),
        other => panic!("unexpected action {:?}", other),
    };
    // Processing is suspended: no vote so far.
    assert!(vote_in(&out).is_none());
    assert_eq!(core.last_voted_height(), 0);
    let (there, actions) = sync.verify_payload(asked.0, asked.1, &vec![false], 1_000);
    assert!(!there);
    assert_eq!(actions.len(), 2);
    assert!(matches!(&actions[0], SyncAction::Wait { missing, .. } if *missing == vec![digest(1005)]));
    assert!(matches!(
        &actions[1],
        SyncAction::Request { digests, to } if *digests == vec![digest(1005)] && *to == Some(block.author)
    ));
    assert_eq!(sync.pending_count(), 1);
    // The payload arrives: the block loops back, is processed and voted for.
    let back = sync.delivered(block.clone(), OPT);
    assert_eq!(sync.pending_count(), 0);
    assert_eq!(sync.request_count(), 0);
    let message = match back.into_iter().next() {
        Some(SyncAction::LoopBack(m)) => m,
        other => panic!("unexpected action {:?}", other),
    };
    assert!(matches!(&message, ConsensusMessage::HsLoopBack(b) if b.digest == block.digest));
    let out = core.handle(Input {
        message,
        own: false,
        signatures_ok: true,
        ancestors: chain_ancestors(5),
    });
    assert_eq!(out.result, Ok(()));
    let (vote, to) = vote_in(&out).expect("a vote");
    assert_eq!((vote.height, vote.hash, to), (5, block.digest, Some(block.author)));
    assert_eq!(core.last_voted_height(), 5);
}

#[test]
fn handling_a_taken_message_twice_changes_nothing_more() {
    let mut core = replica(3, true, true);
    let input = || looped_back(chain_block(3), chain_ancestors(3));
    core.handle(input());
    let (h, v, c) = (core.height(), core.last_voted_height(), core.last_committed_height());
    let sent = core.height_state(3).prepare_sent;
    let out = core.handle(input());
    assert_eq!(out.result, Ok(()));
    assert_eq!((core.height(), core.last_voted_height(), core.last_committed_height()), (h, v, c));
    assert_eq!(core.height_state(3).prepare_sent, sent);
    assert!(commits_in(&out).is_empty());
    assert!(vote_in(&out).is_none());
}

#[test]
fn ancestors_are_wanted_down_to_the_last_commit() {
    let mut core = replica(3, true, false);
    let all = chain_ancestors(6); // blocks 5, 4, 3, 2, 1, genesis, genesis
    assert!(core.wants_ancestor(&Vec::new()));
    assert!(core.wants_ancestor(&all[0..1].to_vec()));
    // Nothing is committed yet: every ancestor above genesis is wanted.
    assert!(core.wants_ancestor(&all[0..5].to_vec()));
    assert!(!core.wants_ancestor(&all[0..6].to_vec()));
    core.handle(looped_back(chain_block(5), chain_ancestors(5)));
    assert_eq!(core.last_committed_height(), 3);
    assert!(core.wants_ancestor(&all[0..2].to_vec()));
    assert!(!core.wants_ancestor(&all[0..3].to_vec()));
    // Parent and grandparent are wanted in any case.
    let below = chain_ancestors(3);
    assert!(core.wants_ancestor(&below[0..1].to_vec()));
    assert!(!core.wants_ancestor(&below[0..2].to_vec()));
}

#[test]
fn stored_block_is_sent_to_the_one_who_asked() {
    let core = replica(1, true, false);
    let b = chain_block(5);
    let out = core.answer_sync_request(b.digest, key(4), Some(b.clone()));
    assert_eq!(out.result, Ok(()));
    assert_eq!(out.actions.len(), 1);
    match &out.actions[0] {
        Action::Send { message: ConsensusMessage::SyncReply(sent), to } => {
            assert_eq!(*to, Some(key(4)));
            assert_eq!(sent.digest, b.digest);
            assert_eq!((sent.height, sent.author), (b.height, b.author));
        }
        other => panic!("unexpected action {:?}", other),
    }
    // Nothing in the store, or a block of another digest: nothing is sent.
    assert!(core.answer_sync_request(b.digest, key(4), None).actions.is_empty());
    assert!(core.answer_sync_request(digest(77), key(4), Some(b)).actions.is_empty());
    assert_eq!(core.height(), 1);
}
