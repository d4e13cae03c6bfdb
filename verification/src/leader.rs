//! Who leads: by rotation on the optimistic path, by the common coin on the
//! pessimistic one.

use crate::config::{Authority, Committee};
use crate::messages::RandomCoin;
use crate::types::{PublicKey, SeqNumber};
use vstd::prelude::*;

verus! {

/// The leader that the coin of one round elected.
#[derive(Clone, Copy, Debug)]
pub struct Elected {
    pub height: SeqNumber,
    pub round: SeqNumber,
    pub leader: PublicKey,
}

/// The leader of `height` on the optimistic path: the members take turns in
/// the committee's order.
pub open spec fn leader_of(members: Seq<Authority>, height: SeqNumber) -> PublicKey
    recommends
        members.len() > 0,
{
    members[(height as int) % (members.len() as int)].name
}

/// The leader on record for (height, round), if a coin was recorded for it.
pub open spec fn coin_of(coins: Seq<Elected>, height: SeqNumber, round: SeqNumber) -> Option<
    PublicKey,
>
    decreases coins.len(),
{
    if coins.len() == 0 {
        None
    } else if coins.last().height == height && coins.last().round == round {
        Some(coins.last().leader)
    } else {
        coin_of(coins.drop_last(), height, round)
    }
}

/// The record after the coin of (height, round) elected `leader`. The first
/// coin of a round stands: a later one for the same round changes nothing.
pub open spec fn with_coin(
    coins: Seq<Elected>,
    height: SeqNumber,
    round: SeqNumber,
    leader: PublicKey,
) -> Seq<Elected> {
    if coin_of(coins, height, round).is_some() {
        coins
    } else {
        coins.push(Elected { height, round, leader })
    }
}

/// Elects the leaders of one epoch.
pub struct LeaderElector {
    committee: Committee,
    coins: Vec<Elected>,
}

impl View for LeaderElector {
    type V = Seq<Elected>;

    closed spec fn view(&self) -> Seq<Elected> {
        self.coins@
    }
}

impl LeaderElector {
    /// The members that take turns.
    pub closed spec fn members(&self) -> Seq<Authority> {
        self.committee@
    }

    /// The invariant of an elector: its committee is well formed.
    pub closed spec fn wf(&self) -> bool {
        self.committee.wf()
    }

    /// An elector for `committee` that has seen no coin.
    pub fn new(committee: Committee) -> (r: LeaderElector)
        requires
            committee.wf(),
        ensures
            r.wf(),
            r.members() == committee@,
            r@ == Seq::<Elected>::empty(),
    {
        LeaderElector { committee, coins: Vec::new() }
    }

    /// The leader of `height` on the optimistic path.
    pub fn get_leader(&self, height: SeqNumber) -> (r: PublicKey)
        requires
            self.wf(),
        ensures
            r == leader_of(self.members(), height),
    {
        let size = self.committee.size();
        self.committee.member((height % (size as u64)) as usize)
    }

    /// The leader that the coin of (height, round) elected, once that coin
    /// has been recorded.
    pub fn get_coin_leader(&self, height: SeqNumber, round: SeqNumber) -> (r: Option<PublicKey>)
        ensures
            r == coin_of(self@, height, round),
    {
        let mut best: Option<PublicKey> = None;
        let mut i: usize = 0;
        while i < self.coins.len()
            invariant
                i <= self.coins.len(),
                best == coin_of(self.coins@.subrange(0, i as int), height, round),
            decreases self.coins.len() - i,
        {
            assert(self.coins@.subrange(0, i as int + 1).drop_last() =~= self.coins@.subrange(
                0,
                i as int,
            ));
            if self.coins[i].height == height && self.coins[i].round == round {
                best = Some(self.coins[i].leader);
            }
            i += 1;
        }
        assert(self.coins@.subrange(0, i as int) =~= self.coins@);
        best
    }

    /// Records the leader that `coin` elected, unless its round has one.
    pub fn add_random_coin(&mut self, coin: &RandomCoin)
        requires
            old(self).wf(),
        ensures
            final(self).wf(),
            final(self).members() == old(self).members(),
            final(self)@ == with_coin(old(self)@, coin.height, coin.round, coin.leader),
    {
        if self.get_coin_leader(coin.height, coin.round).is_none() {
            self.coins.push(Elected { height: coin.height, round: coin.round, leader: coin.leader });
        }
    }
}

/// Once the coin of a round is on record, its leader is returned, and no
/// later coin changes it.
pub proof fn law_coin_leader_is_stable(
    coins: Seq<Elected>,
    height: SeqNumber,
    round: SeqNumber,
    leader: PublicKey,
    later: PublicKey,
)
    ensures
        coin_of(with_coin(coins, height, round, leader), height, round).is_some(),
        coin_of(coins, height, round).is_none() ==> coin_of(
            with_coin(coins, height, round, leader),
            height,
            round,
        ) == Some(leader),
        coin_of(with_coin(with_coin(coins, height, round, leader), height, round, later), height, round)
            == coin_of(with_coin(coins, height, round, leader), height, round),
{
    let once = with_coin(coins, height, round, leader);
    if coin_of(coins, height, round).is_none() {
        assert(once.drop_last() =~= coins);
    }
}

} // verus!
