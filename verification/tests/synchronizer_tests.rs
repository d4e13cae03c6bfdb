use consensus::{
    Authority, Block, Committee, ConsensusError, ConsensusMessage, Digest, PublicKey, Signature,
    SyncAction, Synchronizer, OPT, PES, QC,
};

fn key(n: u64) -> PublicKey {
    PublicKey { w0: 0, w1: 0, w2: 0, w3: n }
}

fn digest(n: u64) -> Digest {
    Digest { w0: 7, w1: 0, w2: 0, w3: n }
}

fn committee() -> Committee {
    let members = (1..=4).map(|i| Authority { name: key(i), stake: 1 }).collect();
    Committee::new(members).expect("valid committee")
}

fn block(height: u64, author: u64, payload: &[u64]) -> Block {
    Block {
        qc: QC::genesis(),
        author: key(author),
        height,
        epoch: 0,
        payload: payload.iter().map(|p| digest(*p)).collect(),
        signature: Signature { bytes: [0u8; 64] },
        tag: OPT,
        digest: digest(9000 + height),
    }
}

#[test]
fn payload_that_is_stored_needs_no_sync() {
    let mut sync = Synchronizer::new(key(1), 5_000);
    let (there, actions) = sync.verify_payload(block(1, 2, &[10, 11]), OPT, &vec![true, true], 0);
    assert!(there);
    assert!(actions.is_empty());
    assert_eq!(sync.pending_count(), 0);
    // A block without payload misses nothing.
    let (there, actions) = sync.verify_payload(block(2, 2, &[]), OPT, &vec![], 0);
    assert!(there);
    assert!(actions.is_empty());
}

#[test]
fn missing_payload_is_asked_of_the_author() {
    let mut sync = Synchronizer::new(key(1), 5_000);
    let b = block(1, 2, &[10, 11, 12, 11]);
    let (there, actions) = sync.verify_payload(b, OPT, &vec![true, false, false, false], 700);
    assert!(!there);
    assert_eq!(actions.len(), 2);
    match &actions[0] {
        SyncAction::Wait { block, tag, missing } => {
            assert_eq!(block.digest, digest(9001));
            assert_eq!(*tag, OPT);
            assert_eq!(*missing, vec![digest(11), digest(12)]);
        }
        other => panic!("unexpected action {:?}", other),
    }
    match &actions[1] {
        SyncAction::Request { digests, to } => {
            assert_eq!(*digests, vec![digest(11), digest(12)]);
            assert_eq!(*to, Some(key(2)));
        }
        other => panic!("unexpected action {:?}", other),
    }
    assert_eq!(sync.pending_count(), 1);
    assert_eq!(sync.request_count(), 2);
}

#[test]
fn payload_that_was_not_reported_counts_as_missing() {
    let mut sync = Synchronizer::new(key(1), 5_000);
    let (there, actions) = sync.verify_payload(block(1, 2, &[10, 11]), OPT, &vec![true], 0);
    assert!(!there);
    assert!(matches!(&actions[0], SyncAction::Wait { missing, .. } if *missing == vec![digest(11)]));
}

#[test]
fn block_that_waits_is_not_put_on_record_twice() {
    let mut sync = Synchronizer::new(key(1), 5_000);
    let (_, first) = sync.verify_payload(block(1, 2, &[10]), OPT, &vec![false], 0);
    assert_eq!(first.len(), 2);
    let (there, again) = sync.verify_payload(block(1, 2, &[10]), OPT, &vec![false], 50);
    assert!(!there);
    assert!(again.is_empty());
    assert_eq!(sync.pending_count(), 1);
    assert_eq!(sync.request_count(), 1);
}

#[test]
fn payload_is_asked_for_once() {
    let mut sync = Synchronizer::new(key(1), 5_000);
    sync.verify_payload(block(1, 2, &[10, 11]), OPT, &vec![false, false], 0);
    // Another block needs one payload that was asked for and one that was not.
    let (_, actions) = sync.verify_payload(block(2, 3, &[11, 12]), PES, &vec![false, false], 10);
    assert_eq!(actions.len(), 2);
    assert!(matches!(&actions[0], SyncAction::Wait { missing, tag, .. } if *missing == vec![digest(11), digest(12)] && *tag == PES));
    assert!(matches!(&actions[1], SyncAction::Request { digests, to } if *digests == vec![digest(12)] && *to == Some(key(3))));
    // A third block needs only what was asked for: it waits, nothing is asked.
    let (_, actions) = sync.verify_payload(block(3, 4, &[10]), OPT, &vec![false], 20);
    assert_eq!(actions.len(), 1);
    assert!(matches!(&actions[0], SyncAction::Wait { .. }));
    assert_eq!(sync.pending_count(), 3);
    assert_eq!(sync.request_count(), 3);
}

#[test]
fn delivered_block_loops_back_on_its_path() {
    let mut sync = Synchronizer::new(key(1), 5_000);
    sync.verify_payload(block(1, 2, &[10, 11]), OPT, &vec![false, false], 0);
    sync.verify_payload(block(2, 3, &[11, 12]), PES, &vec![false, false], 0);
    let actions = sync.delivered(block(1, 2, &[10, 11]), OPT);
    assert_eq!(actions.len(), 1);
    assert!(matches!(&actions[0], SyncAction::LoopBack(ConsensusMessage::HsLoopBack(b)) if b.height == 1));
    assert_eq!(sync.pending_count(), 1);
    assert_eq!(sync.request_count(), 1);
    let actions = sync.delivered(block(2, 3, &[11, 12]), PES);
    assert!(matches!(&actions[0], SyncAction::LoopBack(ConsensusMessage::ParLoopBack(b)) if b.height == 2));
    assert_eq!(sync.pending_count(), 0);
    assert_eq!(sync.request_count(), 0);
}

#[test]
fn cleanup_cancels_what_is_old() {
    let mut sync = Synchronizer::new(key(1), 5_000);
    for height in 1..=4 {
        sync.verify_payload(block(height, 2, &[100 + height]), OPT, &vec![false], 0);
    }
    let actions = sync.cleanup(2);
    assert_eq!(actions.len(), 2);
    assert!(matches!(&actions[0], SyncAction::Cancel(d) if *d == digest(9001)));
    assert!(matches!(&actions[1], SyncAction::Cancel(d) if *d == digest(9002)));
    assert_eq!(sync.pending_count(), 2);
    assert_eq!(sync.request_count(), 2);
    assert!(sync.cleanup(2).is_empty());
    assert_eq!(sync.cleanup(u64::MAX).len(), 2);
    assert_eq!(sync.pending_count(), 0);
    assert_eq!(sync.request_count(), 0);
}

#[test]
fn overdue_requests_are_repeated_to_everyone() {
    let mut sync = Synchronizer::new(key(1), 5_000);
    sync.verify_payload(block(1, 2, &[10]), OPT, &vec![false], 1_000);
    sync.verify_payload(block(2, 3, &[11]), OPT, &vec![false], 3_000);
    // timestamp + delay < now
    assert!(sync.retry(6_000).is_empty());
    let actions = sync.retry(6_001);
    assert_eq!(actions.len(), 1);
    assert!(matches!(&actions[0], SyncAction::Request { digests, to } if *digests == vec![digest(10)] && to.is_none()));
    let actions = sync.retry(8_001);
    assert!(matches!(&actions[0], SyncAction::Request { digests, .. } if *digests == vec![digest(10), digest(11)]));
    assert!(sync.retry(0).is_empty());
    // Times near the end of the range do not wrap around.
    let mut late = Synchronizer::new(key(1), u64::MAX);
    late.verify_payload(block(1, 2, &[10]), OPT, &vec![false], u128::MAX - 5);
    assert!(late.retry(u128::MAX).is_empty());
}

#[test]
fn messages_go_to_one_member_or_to_all_others() {
    let c = committee();
    assert_eq!(Synchronizer::transmit(&key(1), Some(&key(3)), &c), Ok(vec![key(3)]));
    assert_eq!(Synchronizer::transmit(&key(1), None, &c), Ok(vec![key(2), key(3), key(4)]));
    assert_eq!(
        Synchronizer::transmit(&key(1), Some(&key(9)), &c),
        Err(ConsensusError::NotInCommittee(key(9)))
    );
}
