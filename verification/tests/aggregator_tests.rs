use consensus::threshold::{coin_message_bytes, elect, toss};
use consensus::{
    Aggregator, Authority, Committee, ConsensusError, Digest, HVote, LeaderElector, PublicKey,
    RandomCoin, RandomnessShare, SPBVote, Signature, SignatureShare, FIN_PHASE, INIT_PHASE,
    LOCK_PHASE,
};
use threshold_crypto::SecretKeySet;

fn key(n: u64) -> PublicKey {
    PublicKey { w0: 0, w1: 0, w2: 0, w3: n }
}

fn digest(n: u64) -> Digest {
    Digest { w0: 7, w1: 0, w2: 0, w3: n }
}

fn sig(n: u8) -> Signature {
    Signature { bytes: [n; 64] }
}

fn committee() -> Committee {
    let members = (1..=4).map(|i| Authority { name: key(i), stake: 1 }).collect();
    Committee::new(members).expect("valid committee")
}

fn hs_vote(author: u64, height: u64, block: u64) -> HVote {
    HVote {
        hash: digest(block),
        height,
        epoch: 0,
        proposer: key(1),
        author: key(author),
        signature: sig(author as u8),
    }
}

fn spb_vote(author: u64, height: u64, round: u64, phase: u8, block: u64) -> SPBVote {
    SPBVote {
        hash: digest(block),
        phase,
        height,
        epoch: 0,
        round,
        proposer: key(1),
        author: key(author),
        signature: sig(author as u8),
    }
}

fn secret_keys() -> SecretKeySet {
    SecretKeySet::random(1, &mut rand::thread_rng())
}

/// The public keys of the scheme, encoded.
fn encoded(keys: &SecretKeySet) -> Vec<u8> {
    bincode::serialize(&keys.public_keys()).expect("key set can be encoded")
}

fn coin_share(keys: &SecretKeySet, author: u64, height: u64, round: u64) -> RandomnessShare {
    let message = coin_message_bytes(0, height, round);
    let index = (author - 1) as usize;
    let signed = keys.secret_key_share(index).sign(&message);
    RandomnessShare {
        height,
        epoch: 0,
        round,
        author: key(author),
        signature_share: SignatureShare { bytes: signed.to_bytes() },
    }
}

#[test]
fn certificate_comes_with_the_vote_that_completes_the_quorum() {
    let mut a = Aggregator::new(committee());
    assert_eq!(a.add_hs_vote(hs_vote(1, 1, 1)).map(|q| q.is_some()), Ok(false));
    assert_eq!(a.add_hs_vote(hs_vote(2, 1, 1)).map(|q| q.is_some()), Ok(false));
    let qc = a.add_hs_vote(hs_vote(3, 1, 1)).expect("no reuse").expect("quorum reached");
    assert_eq!(qc.hash, digest(1));
    assert_eq!(qc.height, 1);
    assert_eq!(qc.votes.len(), 3);
    assert_eq!(qc.votes[0].author, key(1));
    assert_eq!(qc.votes[1].author, key(2));
    assert_eq!(qc.votes[2].author, key(3));
    assert_eq!(qc.votes[2].signature.bytes, [3u8; 64]);
    assert_eq!(qc.verify(&committee()), Ok(()));
}

#[test]
fn certificate_is_handed_out_once() {
    let mut a = Aggregator::new(committee());
    for author in 1..=2 {
        assert!(a.add_hs_vote(hs_vote(author, 1, 1)).expect("no reuse").is_none());
    }
    assert!(a.add_hs_vote(hs_vote(3, 1, 1)).expect("no reuse").is_some());
    assert!(a.add_hs_vote(hs_vote(4, 1, 1)).expect("no reuse").is_none());
    assert_eq!(a.hs_vote_count(), 4);
}

#[test]
fn second_vote_of_an_author_for_a_height_is_refused() {
    let mut a = Aggregator::new(committee());
    assert!(a.add_hs_vote(hs_vote(2, 1, 1)).expect("no reuse").is_none());
    assert_eq!(
        a.add_hs_vote(hs_vote(2, 1, 1)).map(|q| q.is_some()),
        Err(ConsensusError::AuthorityReuseinQC(key(2)))
    );
    // Whatever block the second vote is for.
    assert_eq!(
        a.add_hs_vote(hs_vote(2, 1, 5)).map(|q| q.is_some()),
        Err(ConsensusError::AuthorityReuseinQC(key(2)))
    );
    assert_eq!(a.hs_vote_count(), 1);
    // Another height is another slot.
    assert!(a.add_hs_vote(hs_vote(2, 2, 2)).expect("no reuse").is_none());
    assert_eq!(a.hs_vote_count(), 2);
}

#[test]
fn votes_for_different_blocks_do_not_add_up() {
    let mut a = Aggregator::new(committee());
    assert!(a.add_hs_vote(hs_vote(1, 1, 1)).expect("no reuse").is_none());
    assert!(a.add_hs_vote(hs_vote(2, 1, 2)).expect("no reuse").is_none());
    assert!(a.add_hs_vote(hs_vote(3, 1, 1)).expect("no reuse").is_none());
    let qc = a.add_hs_vote(hs_vote(4, 1, 1)).expect("no reuse").expect("quorum for block 1");
    assert_eq!(qc.hash, digest(1));
    let authors: Vec<PublicKey> = qc.votes.iter().map(|v| v.author).collect();
    assert_eq!(authors, vec![key(1), key(3), key(4)]);
}

#[test]
fn votes_that_name_another_proposer_or_epoch_do_not_add_up() {
    let mut a = Aggregator::new(committee());
    let mut other_proposer = spb_vote(1, 2, 1, INIT_PHASE, 1);
    other_proposer.proposer = key(4);
    let mut other_epoch = spb_vote(2, 2, 1, INIT_PHASE, 1);
    other_epoch.epoch = 7;
    assert!(a.add_spb_vote(other_proposer).expect("no reuse").is_none());
    assert!(a.add_spb_vote(other_epoch).expect("no reuse").is_none());
    assert!(a.add_spb_vote(spb_vote(3, 2, 1, INIT_PHASE, 1)).expect("no reuse").is_none());
    assert!(a.add_spb_vote(spb_vote(4, 2, 1, INIT_PHASE, 1)).expect("no reuse").is_none());
    // Four votes in the slot, but only two for one and the same cause.
    let mut b = Aggregator::new(committee());
    for author in [1, 2] {
        assert!(b.add_spb_vote(spb_vote(author, 2, 1, INIT_PHASE, 1)).expect("no reuse").is_none());
    }
    let proof = b.add_spb_vote(spb_vote(3, 2, 1, INIT_PHASE, 1)).expect("no reuse").expect("quorum");
    assert!(proof.shares.iter().all(|s| s.proposer == key(1) && s.epoch == 0));
}

#[test]
fn votes_are_weighed_by_stake() {
    let members = vec![
        Authority { name: key(1), stake: 1 },
        Authority { name: key(2), stake: 1 },
        Authority { name: key(3), stake: 5 },
    ];
    let c = Committee::new(members).expect("valid committee");
    assert_eq!(c.quorum_threshold(), 5);
    let mut a = Aggregator::new(c);
    assert!(a.add_hs_vote(hs_vote(3, 1, 1)).expect("no reuse").is_some());
    let mut b = Aggregator::new(committee());
    // A stranger's vote is recorded but weighs nothing.
    assert!(b.add_hs_vote(hs_vote(9, 1, 1)).expect("no reuse").is_none());
    assert!(b.add_hs_vote(hs_vote(1, 1, 1)).expect("no reuse").is_none());
    assert!(b.add_hs_vote(hs_vote(2, 1, 1)).expect("no reuse").is_none());
    assert!(b.add_hs_vote(hs_vote(3, 1, 1)).expect("no reuse").is_some());
}

#[test]
fn broadcast_votes_yield_the_proof_of_the_next_phase() {
    let mut a = Aggregator::new(committee());
    assert!(a.add_spb_vote(spb_vote(1, 2, 1, INIT_PHASE, 1)).expect("no reuse").is_none());
    assert!(a.add_spb_vote(spb_vote(2, 2, 1, INIT_PHASE, 1)).expect("no reuse").is_none());
    let lock = a.add_spb_vote(spb_vote(3, 2, 1, INIT_PHASE, 1)).expect("no reuse").expect("quorum");
    assert_eq!((lock.height, lock.round, lock.phase), (2, 1, LOCK_PHASE));
    assert_eq!(lock.shares.len(), 3);
    assert_eq!(lock.shares[2].author, key(3));
    // The next phase is a slot of its own.
    assert!(a.add_spb_vote(spb_vote(1, 2, 1, LOCK_PHASE, 1)).expect("no reuse").is_none());
    assert!(a.add_spb_vote(spb_vote(2, 2, 1, LOCK_PHASE, 1)).expect("no reuse").is_none());
    let fin = a.add_spb_vote(spb_vote(4, 2, 1, LOCK_PHASE, 1)).expect("no reuse").expect("quorum");
    assert_eq!(fin.phase, FIN_PHASE);
    assert_eq!(fin.shares.len(), 3);
    assert!(fin.shares.iter().all(|s| s.phase == LOCK_PHASE));
}

#[test]
fn second_broadcast_vote_of_an_author_is_refused() {
    let mut a = Aggregator::new(committee());
    assert!(a.add_spb_vote(spb_vote(1, 2, 1, INIT_PHASE, 1)).expect("no reuse").is_none());
    assert_eq!(
        a.add_spb_vote(spb_vote(1, 2, 1, INIT_PHASE, 1)).map(|p| p.is_some()),
        Err(ConsensusError::AuthorityReuseinSPB(key(1)))
    );
    // Another round is another slot.
    assert!(a.add_spb_vote(spb_vote(1, 2, 2, INIT_PHASE, 1)).expect("no reuse").is_none());
}

#[test]
fn broadcast_vote_of_the_last_phase_is_refused() {
    let mut a = Aggregator::new(committee());
    assert_eq!(
        a.add_spb_vote(spb_vote(1, 2, 1, FIN_PHASE, 1)).map(|p| p.is_some()),
        Err(ConsensusError::SPBPhaseWrong(FIN_PHASE, FIN_PHASE))
    );
    assert_eq!(
        a.add_spb_vote(spb_vote(1, 2, 1, 255, 1)).map(|p| p.is_some()),
        Err(ConsensusError::SPBPhaseWrong(255, 255))
    );
}

#[test]
fn votes_for_a_locked_value_yield_the_finishing_proof() {
    let mut a = Aggregator::new(committee());
    assert!(a.add_pre_vote(spb_vote(1, 2, 1, LOCK_PHASE, 1)).expect("no reuse").is_none());
    assert_eq!(
        a.add_pre_vote(spb_vote(1, 2, 1, LOCK_PHASE, 1)).map(|p| p.is_some()),
        Err(ConsensusError::AuthorityReuseinProof(key(1)))
    );
    assert_eq!(
        a.add_pre_vote(spb_vote(2, 2, 1, INIT_PHASE, 1)).map(|p| p.is_some()),
        Err(ConsensusError::SPBPhaseWrong(INIT_PHASE, LOCK_PHASE))
    );
    assert!(a.add_pre_vote(spb_vote(2, 2, 1, LOCK_PHASE, 1)).expect("no reuse").is_none());
    let fin = a.add_pre_vote(spb_vote(3, 2, 1, LOCK_PHASE, 1)).expect("no reuse").expect("quorum");
    assert_eq!((fin.height, fin.round, fin.phase), (2, 1, FIN_PHASE));
    assert_eq!(fin.shares.len(), 3);
}

#[test]
fn cleanup_forgets_the_heights_up_to_the_given_one() {
    let mut a = Aggregator::new(committee());
    for height in 1..=4 {
        assert!(a.add_hs_vote(hs_vote(1, height, height)).expect("no reuse").is_none());
    }
    a.cleanup_hs_vote(2);
    assert_eq!(a.hs_vote_count(), 2);
    // What was forgotten can be voted for again, what was kept cannot.
    assert!(a.add_hs_vote(hs_vote(1, 2, 2)).expect("no reuse").is_none());
    assert_eq!(
        a.add_hs_vote(hs_vote(1, 3, 3)).map(|q| q.is_some()),
        Err(ConsensusError::AuthorityReuseinQC(key(1)))
    );
    assert!(a.add_spb_vote(spb_vote(1, 5, 1, INIT_PHASE, 1)).expect("no reuse").is_none());
    a.cleanup_spb_vote(4);
    assert_eq!(
        a.add_spb_vote(spb_vote(1, 5, 1, INIT_PHASE, 1)).map(|p| p.is_some()),
        Err(ConsensusError::AuthorityReuseinSPB(key(1)))
    );
    a.cleanup_spb_vote(5);
    assert!(a.add_spb_vote(spb_vote(1, 5, 1, INIT_PHASE, 1)).expect("no reuse").is_none());
}

#[test]
fn coin_message_spells_epoch_height_and_round() {
    let bytes = coin_message_bytes(1, 0x0102030405060708, 258);
    assert_eq!(bytes.len(), 24);
    assert_eq!(&bytes[0..8], &[0, 0, 0, 0, 0, 0, 0, 1]);
    assert_eq!(&bytes[8..16], &[1, 2, 3, 4, 5, 6, 7, 8]);
    assert_eq!(&bytes[16..24], &[0, 0, 0, 0, 0, 0, 1, 2]);
    assert_eq!(coin_message_bytes(u64::MAX, 0, 0)[0..8], [255u8; 8]);
}

#[test]
fn combined_signature_elects_by_its_leading_number() {
    let c = committee();
    let mut s = SignatureShare { bytes: [0u8; 96] };
    assert_eq!(elect(&c, &s), key(1));
    s.bytes[7] = 6;
    assert_eq!(elect(&c, &s), key(3));
    s.bytes[6] = 1;
    // 256 + 6 = 262 = 65 * 4 + 2
    assert_eq!(elect(&c, &s), key(3));
    s.bytes = [255u8; 96];
    // 2^64 - 1 = 3 modulo 4
    assert_eq!(elect(&c, &s), key(4));
    s.bytes = [0u8; 96];
    s.bytes[0] = 1;
    s.bytes[8] = 9;
    // 2^56 is a multiple of 4; the ninth byte does not count.
    assert_eq!(elect(&c, &s), key(1));
}

#[test]
fn coin_share_that_verifies_is_taken() {
    let sk = secret_keys();
    let pk = encoded(&sk);
    let share = coin_share(&sk, 2, 3, 1);
    assert_eq!(share.verify(&committee(), &pk), Ok(()));
}

#[test]
fn coin_share_under_the_wrong_key_is_refused() {
    let sk = secret_keys();
    let pk = encoded(&sk);
    // Signed by member 3, claimed by member 2.
    let mut forged = coin_share(&sk, 3, 3, 1);
    forged.author = key(2);
    assert_eq!(
        forged.verify(&committee(), &pk),
        Err(ConsensusError::InvalidThresholdSignature(key(2)))
    );
    // Signed for another round.
    let mut moved = coin_share(&sk, 2, 3, 1);
    moved.round = 2;
    assert_eq!(
        moved.verify(&committee(), &pk),
        Err(ConsensusError::InvalidThresholdSignature(key(2)))
    );
    // Bytes that are no point of the curve.
    let mut broken = coin_share(&sk, 2, 3, 1);
    broken.signature_share = SignatureShare { bytes: [255u8; 96] };
    assert_eq!(
        broken.verify(&committee(), &pk),
        Err(ConsensusError::InvalidThresholdSignature(key(2)))
    );
    // A share under another key set.
    let other = encoded(&secret_keys());
    assert_eq!(
        coin_share(&sk, 2, 3, 1).verify(&committee(), &other),
        Err(ConsensusError::InvalidThresholdSignature(key(2)))
    );
    let mut stranger = coin_share(&sk, 2, 3, 1);
    stranger.author = key(9);
    assert_eq!(
        stranger.verify(&committee(), &pk),
        Err(ConsensusError::UnknownAuthority(key(9)))
    );
}

fn expected_leader(sk: &SecretKeySet, height: u64, round: u64, signers: &[usize]) -> PublicKey {
    let message = coin_message_bytes(0, height, round);
    let shares: Vec<(usize, threshold_crypto::SignatureShare)> =
        signers.iter().map(|i| (*i, sk.secret_key_share(*i).sign(&message))).collect();
    let combined = sk
        .public_keys()
        .combine_signatures(shares.iter().map(|(i, s)| (*i, s)))
        .expect("enough shares");
    assert!(sk.public_keys().public_key().verify(&combined, &message));
    let bytes = combined.to_bytes();
    let mut number: u64 = 0;
    for b in bytes[0..8].iter() {
        number = number * 256 + *b as u64;
    }
    key(number % 4 + 1)
}

#[test]
fn coin_is_revealed_by_the_share_that_reaches_the_threshold() {
    let sk = secret_keys();
    let pk = encoded(&sk);
    let mut a = Aggregator::new(committee());
    assert!(a.add_smvba_random(coin_share(&sk, 2, 3, 1), &pk).expect("valid").is_none());
    let coin: RandomCoin =
        a.add_smvba_random(coin_share(&sk, 4, 3, 1), &pk).expect("valid").expect("threshold");
    assert_eq!((coin.height, coin.round, coin.epoch), (3, 1, 0));
    assert_eq!(coin.shares.len(), 2);
    assert_eq!(coin.shares[0].author, key(2));
    assert_eq!(coin.shares[1].author, key(4));
    assert_eq!(coin.leader, expected_leader(&sk, 3, 1, &[1, 3]));
    // Any two shares reveal the same coin.
    assert_eq!(coin.leader, expected_leader(&sk, 3, 1, &[0, 2]));
    // Once revealed, further shares reveal nothing.
    assert!(a.add_smvba_random(coin_share(&sk, 1, 3, 1), &pk).expect("valid").is_none());
}

#[test]
fn second_coin_share_of_an_author_is_refused() {
    let sk = secret_keys();
    let pk = encoded(&sk);
    let mut a = Aggregator::new(committee());
    assert!(a.add_smvba_random(coin_share(&sk, 2, 3, 1), &pk).expect("valid").is_none());
    assert_eq!(
        a.add_smvba_random(coin_share(&sk, 2, 3, 1), &pk).map(|c| c.is_some()),
        Err(ConsensusError::AuthorityReuseinCoin(key(2)))
    );
    let mut forged = coin_share(&sk, 3, 3, 1);
    forged.author = key(1);
    assert_eq!(
        a.add_smvba_random(forged, &pk).map(|c| c.is_some()),
        Err(ConsensusError::InvalidThresholdSignature(key(1)))
    );
    // The refused shares left no trace: the next valid one crosses the threshold.
    assert!(a.add_smvba_random(coin_share(&sk, 3, 3, 1), &pk).expect("valid").is_some());
    a.cleanup_mvba_random(3);
    assert!(a.add_smvba_random(coin_share(&sk, 2, 3, 1), &pk).expect("valid").is_none());
}

#[test]
fn bytes_that_are_no_key_set_verify_and_elect_nothing() {
    let sk = secret_keys();
    let c = committee();
    let share = coin_share(&sk, 2, 3, 1);
    let two = vec![coin_share(&sk, 1, 3, 1), coin_share(&sk, 2, 3, 1)];
    // No bytes, a key set without coefficients, and a truncated key set.
    let mut truncated = encoded(&sk);
    truncated.pop();
    for bytes in [Vec::new(), vec![0u8; 8], vec![0u8; 200], truncated] {
        assert_eq!(
            share.verify(&c, &bytes),
            Err(ConsensusError::InvalidThresholdSignature(key(2)))
        );
        assert_eq!(toss(&two, &c, &bytes), None);
    }
    assert!(!consensus::threshold::has_coefficients(&vec![0u8; 8]));
    assert!(!consensus::threshold::has_coefficients(&vec![1u8; 7]));
    assert!(consensus::threshold::has_coefficients(&encoded(&sk)));
    assert_eq!(encoded(&sk).len(), 8 + 2 * 48);
}

#[test]
fn toss_needs_enough_shares() {
    let sk = secret_keys();
    let pk = encoded(&sk);
    let c = committee();
    assert_eq!(toss(&vec![coin_share(&sk, 1, 1, 1)], &c, &pk), None);
    let two = vec![coin_share(&sk, 1, 1, 1), coin_share(&sk, 3, 1, 1)];
    assert_eq!(toss(&two, &c, &pk), Some(expected_leader(&sk, 1, 1, &[0, 2])));
    let mut broken = two.clone();
    broken[0].signature_share = SignatureShare { bytes: [255u8; 96] };
    assert_eq!(toss(&broken, &c, &pk), None);
}

#[test]
fn coin_leader_is_recorded_once() {
    let mut elector = LeaderElector::new(committee());
    assert_eq!(elector.get_coin_leader(3, 1), None);
    let coin = RandomCoin { height: 3, epoch: 0, round: 1, leader: key(2), shares: Vec::new() };
    elector.add_random_coin(&coin);
    assert_eq!(elector.get_coin_leader(3, 1), Some(key(2)));
    assert_eq!(elector.get_coin_leader(3, 1), Some(key(2)));
    assert_eq!(elector.get_coin_leader(3, 2), None);
    let later = RandomCoin { leader: key(4), ..coin.clone() };
    elector.add_random_coin(&later);
    assert_eq!(elector.get_coin_leader(3, 1), Some(key(2)));
}
