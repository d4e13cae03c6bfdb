use consensus::{Authority, Committee, Digest, LeaderElector, PublicKey};

fn key(n: u64) -> PublicKey {
    PublicKey { w0: 0, w1: 0, w2: 0, w3: n }
}

fn members(stakes: &[u32]) -> Vec<Authority> {
    let mut out = Vec::new();
    for (i, stake) in stakes.iter().enumerate() {
        out.push(Authority { name: key(i as u64 + 1), stake: *stake });
    }
    out
}

#[test]
fn thresholds_for_four_equal_members() {
    let committee = Committee::new(members(&[1, 1, 1, 1])).expect("valid committee");
    assert_eq!(committee.size(), 4);
    assert_eq!(committee.total_votes(), 4);
    assert_eq!(committee.quorum_threshold(), 3);
    assert_eq!(committee.random_coin_threshold(), 2);
}

#[test]
fn thresholds_follow_the_formulas() {
    // quorum = 2 * total / 3 + 1, coin = (total + 2) / 3
    let cases: [(&[u32], u32, u32); 5] = [
        (&[1], 1, 1),
        (&[1, 1, 1], 3, 1),
        (&[1, 1, 1, 1, 1, 1, 1], 5, 3),
        (&[10, 20, 30, 40], 67, 34),
        (&[4294967295], 2863311531, 1431655765),
    ];
    for (stakes, quorum, coin) in cases.iter() {
        let committee = Committee::new(members(stakes)).expect("valid committee");
        assert_eq!(committee.quorum_threshold(), *quorum);
        assert_eq!(committee.random_coin_threshold(), *coin);
    }
}

#[test]
fn stake_of_a_stranger_is_zero() {
    let committee = Committee::new(members(&[3, 5])).expect("valid committee");
    assert_eq!(committee.stake(&key(1)), 3);
    assert_eq!(committee.stake(&key(2)), 5);
    assert_eq!(committee.stake(&key(7)), 0);
    assert_eq!(committee.id(&key(2)), Some(1));
    assert_eq!(committee.id(&key(7)), None);
}

#[test]
fn empty_committee_is_refused() {
    assert!(Committee::new(Vec::new()).is_none());
}

#[test]
fn members_that_are_named_twice_are_refused() {
    let repeated = vec![
        Authority { name: key(1), stake: 1 },
        Authority { name: key(1), stake: 1 },
    ];
    assert!(Committee::new(repeated).is_none());
    let far_apart = vec![
        Authority { name: key(3), stake: 1 },
        Authority { name: key(1), stake: 2 },
        Authority { name: key(2), stake: 1 },
        Authority { name: key(3), stake: 5 },
    ];
    assert!(Committee::new(far_apart).is_none());
}

#[test]
fn members_are_ordered_by_key_whatever_order_they_are_given_in() {
    let listed = vec![
        Authority { name: key(9), stake: 1 },
        Authority { name: key(2), stake: 3 },
        Authority { name: key(5), stake: 1 },
    ];
    let committee = Committee::new(listed).expect("valid committee");
    assert_eq!(committee.size(), 3);
    assert_eq!(committee.member(0), key(2));
    assert_eq!(committee.member(1), key(5));
    assert_eq!(committee.member(2), key(9));
    assert_eq!(committee.id(&key(5)), Some(1));
    assert_eq!(committee.id(&key(9)), Some(2));
    assert_eq!(committee.stake(&key(2)), 3);
    assert_eq!(committee.stake(&key(9)), 1);
    assert_eq!(committee.total_votes(), 5);
    assert_eq!(committee.others(&key(5)), vec![key(2), key(9)]);
    // Every order of the same members gives the same leaders.
    let orders: [[u64; 3]; 6] =
        [[2, 5, 9], [2, 9, 5], [5, 2, 9], [5, 9, 2], [9, 2, 5], [9, 5, 2]];
    for order in orders.iter() {
        let members = order.iter().map(|k| Authority { name: key(*k), stake: 1 }).collect();
        let elector = LeaderElector::new(Committee::new(members).expect("valid committee"));
        assert_eq!(elector.get_leader(0), key(2));
        assert_eq!(elector.get_leader(1), key(5));
        assert_eq!(elector.get_leader(2), key(9));
        assert_eq!(elector.get_leader(3), key(2));
    }
    // Keys are ordered by their words, the first word first.
    let wide = vec![
        Authority { name: PublicKey { w0: 1, w1: 0, w2: 0, w3: 0 }, stake: 1 },
        Authority { name: PublicKey { w0: 0, w1: 0, w2: 0, w3: u64::MAX }, stake: 1 },
        Authority { name: PublicKey { w0: 0, w1: 0, w2: 1, w3: 0 }, stake: 1 },
    ];
    let committee = Committee::new(wide).expect("valid committee");
    assert_eq!(committee.member(0), PublicKey { w0: 0, w1: 0, w2: 0, w3: u64::MAX });
    assert_eq!(committee.member(1), PublicKey { w0: 0, w1: 0, w2: 1, w3: 0 });
    assert_eq!(committee.member(2), PublicKey { w0: 1, w1: 0, w2: 0, w3: 0 });
}

#[test]
fn total_stake_beyond_the_range_is_refused() {
    let heavy = vec![
        Authority { name: key(1), stake: 4294967295 },
        Authority { name: key(2), stake: 1 },
    ];
    assert!(Committee::new(heavy).is_none());
    let just_fits = vec![
        Authority { name: key(1), stake: 4294967294 },
        Authority { name: key(2), stake: 1 },
    ];
    assert!(Committee::new(just_fits).is_some());
}

#[test]
fn keys_are_ordered_by_their_words() {
    let low = PublicKey { w0: 0, w1: 9, w2: 9, w3: 9 };
    let high = PublicKey { w0: 1, w1: 0, w2: 0, w3: 0 };
    assert!(low.lt(&high));
    assert!(!high.lt(&low));
    assert!(!low.lt(&low));
    let a = PublicKey { w0: 1, w1: 2, w2: 3, w3: 4 };
    let b = PublicKey { w0: 1, w1: 2, w2: 3, w3: 5 };
    assert!(a.lt(&b));
    let ordered = vec![
        Authority { name: low, stake: 1 },
        Authority { name: high, stake: 1 },
    ];
    assert!(Committee::new(ordered).is_some());
}

#[test]
fn others_leaves_out_the_sender() {
    let committee = Committee::new(members(&[1, 1, 1, 1])).expect("valid committee");
    assert_eq!(committee.others(&key(2)), vec![key(1), key(3), key(4)]);
    assert_eq!(committee.others(&key(9)), vec![key(1), key(2), key(3), key(4)]);
}

#[test]
fn leaders_take_turns_in_committee_order() {
    let committee = Committee::new(members(&[1, 1, 1, 1])).expect("valid committee");
    let elector = LeaderElector::new(committee);
    assert_eq!(elector.get_leader(0), key(1));
    assert_eq!(elector.get_leader(1), key(2));
    assert_eq!(elector.get_leader(2), key(3));
    assert_eq!(elector.get_leader(3), key(4));
    assert_eq!(elector.get_leader(4), key(1));
    assert_eq!(elector.get_leader(u64::MAX), key(4));
}

#[test]
fn keys_spell_their_bytes_most_significant_first() {
    let k = PublicKey { w0: 0x0102030405060708, w1: 0, w2: u64::MAX, w3: 0x1122334455667788 };
    let bytes = k.to_bytes();
    assert_eq!(&bytes[0..8], &[1, 2, 3, 4, 5, 6, 7, 8]);
    assert_eq!(&bytes[8..16], &[0u8; 8]);
    assert_eq!(&bytes[16..24], &[255u8; 8]);
    assert_eq!(&bytes[24..32], &[0x11, 0x22, 0x33, 0x44, 0x55, 0x66, 0x77, 0x88]);
    assert_eq!(PublicKey::from_bytes(&bytes), k);
    let d = Digest { w0: 1, w1: 2, w2: 3, w3: 4 };
    assert_eq!(Digest::from_bytes(&d.to_bytes()), d);
    assert_eq!(Digest::zero().to_bytes(), [0u8; 32]);
}

#[test]
fn bytes_survive_the_way_through_a_key_and_back() {
    let mut bytes = [0u8; 32];
    for (i, b) in bytes.iter_mut().enumerate() {
        *b = (i as u8).wrapping_mul(37).wrapping_add(11);
    }
    assert_eq!(PublicKey::from_bytes(&bytes).to_bytes(), bytes);
    assert_eq!(Digest::from_bytes(&bytes).to_bytes(), bytes);
    assert_eq!(PublicKey::from_bytes(&[255u8; 32]).w3, u64::MAX);
}

#[test]
fn order_of_keys_is_the_order_of_their_bytes() {
    let keys = [
        PublicKey { w0: 0, w1: 0, w2: 0, w3: 255 },
        PublicKey { w0: 0, w1: 0, w2: 0, w3: 256 },
        PublicKey { w0: 0, w1: 0, w2: 1, w3: 0 },
        PublicKey { w0: 0, w1: u64::MAX, w2: 0, w3: 0 },
        PublicKey { w0: 1, w1: 0, w2: 0, w3: 0 },
    ];
    for a in keys.iter() {
        for b in keys.iter() {
            assert_eq!(a.lt(b), a.to_bytes() < b.to_bytes());
        }
    }
}
