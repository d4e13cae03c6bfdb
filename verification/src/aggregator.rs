//! Collects votes and coin shares, one contribution per replica and slot, and
//! hands out a certificate, a proof or a coin when the contribution arrives
//! that lifts the voting power behind one value over the threshold.

use crate::config::{
    coin_threshold_of, quorum_of, stake_of, total_stake, Authority, Committee,
};
use crate::error::ConsensusError;
use crate::messages::{
    HVote, QCView, RandomCoin, RandomCoinView, RandomnessShare, SPBProof, SPBProofView, SPBVote,
    Signed, QC,
};
use crate::threshold::{coin_leader, share_check, toss};
use crate::types::{
    Digest, PublicKey, SeqNumber, Signature, SignatureShare, Stake, FIN_PHASE, LOCK_PHASE,
};
use vstd::prelude::*;

verus! {

/// One recorded contribution: who backs which digest in which slot, and the
/// signature of type `S` that says so.
#[derive(Debug)]
pub struct Ballot<S> {
    pub hash: Digest,
    pub phase: u8,
    pub height: SeqNumber,
    pub epoch: SeqNumber,
    pub round: SeqNumber,
    pub proposer: PublicKey,
    pub author: PublicKey,
    pub signature: S,
}

impl<S: Copy> Copy for Ballot<S> {

}

impl<S: Copy> Clone for Ballot<S> {
    fn clone(&self) -> (r: Self)
        ensures
            r == *self,
    {
        *self
    }
}

/// Whether two ballots belong to one slot: same height, round and phase.
pub open spec fn same_slot<S>(a: Ballot<S>, b: Ballot<S>) -> bool {
    a.height == b.height && a.round == b.round && a.phase == b.phase
}

/// Whether the author of `b` has a ballot in the slot of `b` among `list`.
pub open spec fn has_cast<S>(list: Seq<Ballot<S>>, b: Ballot<S>) -> bool {
    exists|i: int|
        0 <= i < list.len() && same_slot(#[trigger] list[i], b) && list[i].author == b.author
}

/// Whether two ballots back one and the same thing: they are of one slot
/// and name the same digest, the same proposer and the same epoch.
pub open spec fn same_cause<S>(a: Ballot<S>, b: Ballot<S>) -> bool {
    same_slot(a, b) && a.hash == b.hash && a.proposer == b.proposer && a.epoch == b.epoch
}

/// The ballots of `list` that back what `b` backs, in order.
pub open spec fn backing<S>(list: Seq<Ballot<S>>, b: Ballot<S>) -> Seq<Ballot<S>>
    decreases list.len(),
{
    if list.len() == 0 {
        Seq::empty()
    } else {
        let front = backing(list.drop_last(), b);
        if same_cause(list.last(), b) {
            front.push(list.last())
        } else {
            front
        }
    }
}

/// Summed voting power of the authors of `list`.
pub open spec fn ballot_stake<S>(list: Seq<Ballot<S>>, members: Seq<Authority>) -> nat
    decreases list.len(),
{
    if list.len() == 0 {
        0
    } else {
        ballot_stake(list.drop_last(), members) + stake_of(members, list.last().author)
    }
}

/// Voting power behind what `b` backs.
pub open spec fn backing_stake<S>(list: Seq<Ballot<S>>, b: Ballot<S>, members: Seq<Authority>) -> nat {
    ballot_stake(backing(list, b), members)
}

/// The ballots of `list` above `height`, in order.
pub open spec fn above<S>(list: Seq<Ballot<S>>, height: SeqNumber) -> Seq<Ballot<S>>
    decreases list.len(),
{
    if list.len() == 0 {
        Seq::empty()
    } else {
        let front = above(list.drop_last(), height);
        if list.last().height > height {
            front.push(list.last())
        } else {
            front
        }
    }
}

/// What becomes of a ballot that is handed in.
pub enum Cast<S> {
    /// Its author had a ballot in the slot already: it is refused.
    Reuse,
    /// It is recorded.
    Counted,
    /// It is recorded, and with it the voting power behind what it backs
    /// reaches the threshold: these are the ballots that back the same, the
    /// new one last.
    Crossed(Seq<Ballot<S>>),
}

/// What becomes of `b`, handed in after `list`, with the given threshold.
pub open spec fn cast_outcome<S>(
    list: Seq<Ballot<S>>,
    b: Ballot<S>,
    members: Seq<Authority>,
    threshold: nat,
) -> Cast<S> {
    if has_cast(list, b) {
        Cast::Reuse
    } else if backing_stake(list, b, members) < threshold <= backing_stake(list, b, members)
        + stake_of(members, b.author) {
        Cast::Crossed(backing(list, b).push(b))
    } else {
        Cast::Counted
    }
}

/// The record after `b` was handed in.
pub open spec fn cast_record<S>(list: Seq<Ballot<S>>, b: Ballot<S>) -> Seq<Ballot<S>> {
    if has_cast(list, b) {
        list
    } else {
        list.push(b)
    }
}

/// Recording one more ballot takes no voting power away from any digest.
pub proof fn lemma_backing_grows<S>(
    list: Seq<Ballot<S>>,
    x: Ballot<S>,
    b: Ballot<S>,
    members: Seq<Authority>,
)
    ensures
        backing_stake(list.push(x), b, members) >= backing_stake(list, b, members),
{
    assert(list.push(x).drop_last() =~= list);
    let front = backing(list, b);
    if same_cause(x, b) {
        assert(front.push(x).drop_last() =~= front);
    }
}

/// The ballots of `list` in the slot of `b` for its digest, with their summed
/// voting power, and whether the author of `b` is on record in that slot.
fn survey<S: Copy>(list: &Vec<Ballot<S>>, b: &Ballot<S>, committee: &Committee) -> (r: (
    bool,
    u128,
    Vec<Ballot<S>>,
))
    requires
        committee.wf(),
    ensures
        r.0 == has_cast(list@, *b),
        r.1 as nat == backing_stake(list@, *b, committee@),
        r.2@ == backing(list@, *b),
        r.1 <= list@.len() * Stake::MAX,
{
    let mut found = false;
    let mut weight: u128 = 0;
    let mut backers: Vec<Ballot<S>> = Vec::new();
    let mut i: usize = 0;
    while i < list.len()
        invariant
            i <= list.len(),
            committee.wf(),
            found == has_cast(list@.subrange(0, i as int), *b),
            backers@ == backing(list@.subrange(0, i as int), *b),
            weight as nat == ballot_stake(backers@, committee@),
            weight <= i * Stake::MAX,
        decreases list.len() - i,
    {
        let ghost front = list@.subrange(0, i as int);
        let ghost next = list@.subrange(0, i as int + 1);
        assert(next.drop_last() =~= front);
        let x = list[i];
        let here = x.height == b.height && x.round == b.round && x.phase == b.phase;
        proof {
            if has_cast(front, *b) {
                let k = choose|k: int|
                    0 <= k < front.len() && same_slot(#[trigger] front[k], *b) && front[k].author
                        == b.author;
                assert(next[k] == front[k]);
            }
            if has_cast(next, *b) && !(here && x.author == b.author) {
                let k = choose|k: int|
                    0 <= k < next.len() && same_slot(#[trigger] next[k], *b) && next[k].author
                        == b.author;
                assert(front[k] == next[k]);
            }
            if here && x.author == b.author {
                assert(same_slot(next[i as int], *b));
            }
        }
        if here && x.author == b.author {
            found = true;
        }
        if here && x.hash == b.hash && x.proposer == b.proposer && x.epoch == b.epoch {
            let stake = committee.stake(&x.author);
            proof {
                assert(backers@.push(x).drop_last() =~= backers@);
                assert(i * Stake::MAX + Stake::MAX == (i + 1) * Stake::MAX) by (nonlinear_arith);
            }
            backers.push(x);
            weight = weight + stake as u128;
        } else {
            proof {
                assert(i * Stake::MAX <= (i + 1) * Stake::MAX) by (nonlinear_arith);
            }
        }
        i += 1;
    }
    assert(list@.subrange(0, i as int) =~= list@);
    (found, weight, backers)
}

/// The ballots of `list` above `height`.
fn keep_above<S: Copy>(list: &Vec<Ballot<S>>, height: SeqNumber) -> (r: Vec<Ballot<S>>)
    ensures
        r@ == above(list@, height),
{
    let mut out: Vec<Ballot<S>> = Vec::new();
    let mut i: usize = 0;
    while i < list.len()
        invariant
            i <= list.len(),
            out@ == above(list@.subrange(0, i as int), height),
        decreases list.len() - i,
    {
        assert(list@.subrange(0, i as int + 1).drop_last() =~= list@.subrange(0, i as int));
        if list[i].height > height {
            out.push(list[i]);
        }
        i += 1;
    }
    assert(list@.subrange(0, i as int) =~= list@);
    out
}

/// What a call of `hand_in` found.
enum Found<S> {
    Reuse,
    Counted,
    Crossed(Vec<Ballot<S>>),
}

/// Hands `b` in to `list` with the given threshold.
fn hand_in<S: Copy>(
    list: &mut Vec<Ballot<S>>,
    b: Ballot<S>,
    committee: &Committee,
    threshold: Stake,
) -> (r: Found<S>)
    requires
        committee.wf(),
    ensures
        final(list)@ == cast_record(old(list)@, b),
        match cast_outcome(old(list)@, b, committee@, threshold as nat) {
            Cast::Reuse => r is Reuse,
            Cast::Counted => r is Counted,
            Cast::Crossed(s) => r is Crossed && r->Crossed_0@ == s,
        },
{
    let (found, weight, mut backers) = survey(list, &b, committee);
    if found {
        return Found::Reuse;
    }
    let n: usize = list.len();
    list.push(b);
    let stake = committee.stake(&b.author);
    proof {
        assert(n * Stake::MAX <= usize::MAX * Stake::MAX) by (nonlinear_arith)
            requires
                n <= usize::MAX,
        ;
    }
    if weight < threshold as u128 && weight + stake as u128 >= threshold as u128 {
        backers.push(b);
        Found::Crossed(backers)
    } else {
        Found::Counted
    }
}

/// The signatures of `ballots` with their authors, in order.
pub open spec fn signed_by(ballots: Seq<Ballot<Signature>>) -> Seq<Signed> {
    ballots.map_values(|b: Ballot<Signature>| Signed { author: b.author, signature: b.signature })
}

/// The ballots as votes of a provable broadcast, in order.
pub open spec fn as_votes(ballots: Seq<Ballot<Signature>>) -> Seq<SPBVote> {
    ballots.map_values(
        |b: Ballot<Signature>|
            SPBVote {
                hash: b.hash,
                phase: b.phase,
                height: b.height,
                epoch: b.epoch,
                round: b.round,
                proposer: b.proposer,
                author: b.author,
                signature: b.signature,
            },
    )
}

/// The ballots as coin shares, in order.
pub open spec fn as_shares(ballots: Seq<Ballot<SignatureShare>>) -> Seq<RandomnessShare> {
    ballots.map_values(
        |b: Ballot<SignatureShare>|
            RandomnessShare {
                height: b.height,
                epoch: b.epoch,
                round: b.round,
                author: b.author,
                signature_share: b.signature,
            },
    )
}

impl HVote {
    /// This vote as a ballot: the optimistic path has no rounds and no phases.
    pub open spec fn spec_ballot(self) -> Ballot<Signature> {
        Ballot {
            hash: self.hash,
            phase: 0,
            height: self.height,
            epoch: self.epoch,
            round: 0,
            proposer: self.proposer,
            author: self.author,
            signature: self.signature,
        }
    }

    fn ballot(&self) -> (r: Ballot<Signature>)
        ensures
            r == self.spec_ballot(),
    {
        Ballot {
            hash: self.hash,
            phase: 0,
            height: self.height,
            epoch: self.epoch,
            round: 0,
            proposer: self.proposer,
            author: self.author,
            signature: self.signature,
        }
    }
}

impl SPBVote {
    /// This vote as a ballot.
    pub open spec fn spec_ballot(self) -> Ballot<Signature> {
        Ballot {
            hash: self.hash,
            phase: self.phase,
            height: self.height,
            epoch: self.epoch,
            round: self.round,
            proposer: self.proposer,
            author: self.author,
            signature: self.signature,
        }
    }

    fn ballot(&self) -> (r: Ballot<Signature>)
        ensures
            r == self.spec_ballot(),
    {
        Ballot {
            hash: self.hash,
            phase: self.phase,
            height: self.height,
            epoch: self.epoch,
            round: self.round,
            proposer: self.proposer,
            author: self.author,
            signature: self.signature,
        }
    }
}

impl RandomnessShare {
    /// This share as a ballot: all shares of a round of an epoch back one and
    /// the same coin, which nobody proposes.
    pub open spec fn spec_ballot(self) -> Ballot<SignatureShare> {
        Ballot {
            hash: Digest::spec_zero(),
            phase: 0,
            height: self.height,
            epoch: self.epoch,
            round: self.round,
            proposer: PublicKey { w0: 0, w1: 0, w2: 0, w3: 0 },
            author: self.author,
            signature: self.signature_share,
        }
    }

    fn ballot(&self) -> (r: Ballot<SignatureShare>)
        ensures
            r == self.spec_ballot(),
    {
        Ballot {
            hash: Digest::zero(),
            phase: 0,
            height: self.height,
            epoch: self.epoch,
            round: self.round,
            proposer: PublicKey { w0: 0, w1: 0, w2: 0, w3: 0 },
            author: self.author,
            signature: self.signature_share,
        }
    }
}

fn to_signed(ballots: &Vec<Ballot<Signature>>) -> (r: Vec<Signed>)
    ensures
        r@ == signed_by(ballots@),
{
    let mut out: Vec<Signed> = Vec::new();
    let mut i: usize = 0;
    while i < ballots.len()
        invariant
            i <= ballots.len(),
            out@ == signed_by(ballots@.subrange(0, i as int)),
        decreases ballots.len() - i,
    {
        out.push(Signed { author: ballots[i].author, signature: ballots[i].signature });
        i += 1;
        assert(out@ =~= signed_by(ballots@.subrange(0, i as int)));
    }
    assert(ballots@.subrange(0, i as int) =~= ballots@);
    out
}

fn to_votes(ballots: &Vec<Ballot<Signature>>) -> (r: Vec<SPBVote>)
    ensures
        r@ == as_votes(ballots@),
{
    let mut out: Vec<SPBVote> = Vec::new();
    let mut i: usize = 0;
    while i < ballots.len()
        invariant
            i <= ballots.len(),
            out@ == as_votes(ballots@.subrange(0, i as int)),
        decreases ballots.len() - i,
    {
        let b = ballots[i];
        out.push(
            SPBVote {
                hash: b.hash,
                phase: b.phase,
                height: b.height,
                epoch: b.epoch,
                round: b.round,
                proposer: b.proposer,
                author: b.author,
                signature: b.signature,
            },
        );
        i += 1;
        assert(out@ =~= as_votes(ballots@.subrange(0, i as int)));
    }
    assert(ballots@.subrange(0, i as int) =~= ballots@);
    out
}

fn to_shares(ballots: &Vec<Ballot<SignatureShare>>) -> (r: Vec<RandomnessShare>)
    ensures
        r@ == as_shares(ballots@),
{
    let mut out: Vec<RandomnessShare> = Vec::new();
    let mut i: usize = 0;
    while i < ballots.len()
        invariant
            i <= ballots.len(),
            out@ == as_shares(ballots@.subrange(0, i as int)),
        decreases ballots.len() - i,
    {
        let b = ballots[i];
        out.push(
            RandomnessShare {
                height: b.height,
                epoch: b.epoch,
                round: b.round,
                author: b.author,
                signature_share: b.signature,
            },
        );
        i += 1;
        assert(out@ =~= as_shares(ballots@.subrange(0, i as int)));
    }
    assert(ballots@.subrange(0, i as int) =~= ballots@);
    out
}

/// The ballots that an aggregator holds.
pub struct AggregatorView {
    /// Votes of the optimistic path.
    pub hs_votes: Seq<Ballot<Signature>>,
    /// Votes of the provable broadcasts.
    pub spb_votes: Seq<Ballot<Signature>>,
    /// Votes for locked values that came inside votes of the agreement.
    pub pre_votes: Seq<Ballot<Signature>>,
    /// Shares of the common coins.
    pub coin_shares: Seq<Ballot<SignatureShare>>,
}

impl AggregatorView {
    /// An aggregator that holds nothing.
    pub open spec fn empty() -> AggregatorView {
        AggregatorView {
            hs_votes: Seq::empty(),
            spb_votes: Seq::empty(),
            pre_votes: Seq::empty(),
            coin_shares: Seq::empty(),
        }
    }

    /// What handing in a vote of the optimistic path yields: a certificate
    /// when the vote completes a quorum for its block.
    pub open spec fn hs_result(self, vote: HVote, members: Seq<Authority>) -> Result<
        Option<QCView>,
        ConsensusError,
    > {
        match cast_outcome(
            self.hs_votes,
            vote.spec_ballot(),
            members,
            quorum_of(total_stake(members)),
        ) {
            Cast::Reuse => Err(ConsensusError::AuthorityReuseinQC(vote.author)),
            Cast::Counted => Ok(None),
            Cast::Crossed(s) => Ok(
                Some(
                    QCView {
                        hash: vote.hash,
                        height: vote.height,
                        epoch: vote.epoch,
                        votes: signed_by(s),
                    },
                ),
            ),
        }
    }

    /// The aggregator after a vote of the optimistic path was handed in.
    pub open spec fn after_hs(self, vote: HVote) -> AggregatorView {
        AggregatorView { hs_votes: cast_record(self.hs_votes, vote.spec_ballot()), ..self }
    }

    /// What handing in a broadcast vote yields: the proof of the next phase
    /// when the vote completes a quorum for its value. A vote of a phase
    /// after the locking phase is refused.
    pub open spec fn spb_result(self, vote: SPBVote, members: Seq<Authority>) -> Result<
        Option<SPBProofView>,
        ConsensusError,
    > {
        if vote.phase > LOCK_PHASE {
            Err(ConsensusError::SPBPhaseWrong(vote.phase, vote.phase))
        } else {
            match cast_outcome(
                self.spb_votes,
                vote.spec_ballot(),
                members,
                quorum_of(total_stake(members)),
            ) {
                Cast::Reuse => Err(ConsensusError::AuthorityReuseinSPB(vote.author)),
                Cast::Counted => Ok(None),
                Cast::Crossed(s) => Ok(
                    Some(
                        SPBProofView {
                            height: vote.height,
                            round: vote.round,
                            phase: (vote.phase + 1) as u8,
                            shares: as_votes(s),
                        },
                    ),
                ),
            }
        }
    }

    /// The aggregator after a broadcast vote was handed in.
    pub open spec fn after_spb(self, vote: SPBVote) -> AggregatorView {
        if vote.phase > LOCK_PHASE {
            self
        } else {
            AggregatorView { spb_votes: cast_record(self.spb_votes, vote.spec_ballot()), ..self }
        }
    }

    /// What handing in a vote for a locked value yields: the finishing proof
    /// when the vote completes a quorum for the value. Only votes of the
    /// locking phase are taken.
    pub open spec fn pre_result(self, vote: SPBVote, members: Seq<Authority>) -> Result<
        Option<SPBProofView>,
        ConsensusError,
    > {
        if vote.phase != LOCK_PHASE {
            Err(ConsensusError::SPBPhaseWrong(vote.phase, LOCK_PHASE))
        } else {
            match cast_outcome(
                self.pre_votes,
                vote.spec_ballot(),
                members,
                quorum_of(total_stake(members)),
            ) {
                Cast::Reuse => Err(ConsensusError::AuthorityReuseinProof(vote.author)),
                Cast::Counted => Ok(None),
                Cast::Crossed(s) => Ok(
                    Some(
                        SPBProofView {
                            height: vote.height,
                            round: vote.round,
                            phase: FIN_PHASE,
                            shares: as_votes(s),
                        },
                    ),
                ),
            }
        }
    }

    /// The aggregator after a vote for a locked value was handed in.
    pub open spec fn after_pre(self, vote: SPBVote) -> AggregatorView {
        if vote.phase != LOCK_PHASE {
            self
        } else {
            AggregatorView { pre_votes: cast_record(self.pre_votes, vote.spec_ballot()), ..self }
        }
    }

    /// What handing in a coin share yields: the coin when the share is in
    /// order, lifts the voting power behind the round's coin to the coin
    /// threshold, and the shares on record combine.
    pub open spec fn coin_result(
        self,
        share: RandomnessShare,
        members: Seq<Authority>,
        keys: Seq<u8>,
    ) -> Result<Option<RandomCoinView>, ConsensusError> {
        if share_check(share, members, keys).is_err() {
            Err(share_check(share, members, keys)->Err_0)
        } else {
            match cast_outcome(
                self.coin_shares,
                share.spec_ballot(),
                members,
                coin_threshold_of(total_stake(members)),
            ) {
                Cast::Reuse => Err(ConsensusError::AuthorityReuseinCoin(share.author)),
                Cast::Counted => Ok(None),
                Cast::Crossed(s) => match coin_leader(as_shares(s), members, keys) {
                    Some(leader) => Ok(
                        Some(
                            RandomCoinView {
                                height: share.height,
                                epoch: share.epoch,
                                round: share.round,
                                leader,
                                shares: as_shares(s),
                            },
                        ),
                    ),
                    None => Ok(None),
                },
            }
        }
    }

    /// The aggregator after a coin share was handed in.
    pub open spec fn after_coin(
        self,
        share: RandomnessShare,
        members: Seq<Authority>,
        keys: Seq<u8>,
    ) -> AggregatorView {
        if share_check(share, members, keys).is_err() {
            self
        } else {
            AggregatorView {
                coin_shares: cast_record(self.coin_shares, share.spec_ballot()),
                ..self
            }
        }
    }

    /// The aggregator without the votes of the optimistic path up to `height`.
    pub open spec fn without_hs(self, height: SeqNumber) -> AggregatorView {
        AggregatorView { hs_votes: above(self.hs_votes, height), ..self }
    }

    /// The aggregator without the broadcast votes, and the votes for locked
    /// values, up to `height`.
    pub open spec fn without_spb(self, height: SeqNumber) -> AggregatorView {
        AggregatorView {
            spb_votes: above(self.spb_votes, height),
            pre_votes: above(self.pre_votes, height),
            ..self
        }
    }

    /// The aggregator without the coin shares up to `height`.
    pub open spec fn without_coin(self, height: SeqNumber) -> AggregatorView {
        AggregatorView { coin_shares: above(self.coin_shares, height), ..self }
    }
}

/// The view of an optional certificate.
pub open spec fn qc_option_view(r: Result<Option<QC>, ConsensusError>) -> Result<
    Option<QCView>,
    ConsensusError,
> {
    match r {
        Ok(Some(qc)) => Ok(Some(qc@)),
        Ok(None) => Ok(None),
        Err(e) => Err(e),
    }
}

/// The view of an optional proof.
pub open spec fn proof_option_view(r: Result<Option<SPBProof>, ConsensusError>) -> Result<
    Option<SPBProofView>,
    ConsensusError,
> {
    match r {
        Ok(Some(p)) => Ok(Some(p@)),
        Ok(None) => Ok(None),
        Err(e) => Err(e),
    }
}

/// The view of an optional coin.
pub open spec fn coin_option_view(r: Result<Option<RandomCoin>, ConsensusError>) -> Result<
    Option<RandomCoinView>,
    ConsensusError,
> {
    match r {
        Ok(Some(c)) => Ok(Some(c@)),
        Ok(None) => Ok(None),
        Err(e) => Err(e),
    }
}

/// Collects the votes and coin shares of one epoch.
pub struct Aggregator {
    committee: Committee,
    hs_votes: Vec<Ballot<Signature>>,
    spb_votes: Vec<Ballot<Signature>>,
    pre_votes: Vec<Ballot<Signature>>,
    coin_shares: Vec<Ballot<SignatureShare>>,
}

impl View for Aggregator {
    type V = AggregatorView;

    closed spec fn view(&self) -> AggregatorView {
        AggregatorView {
            hs_votes: self.hs_votes@,
            spb_votes: self.spb_votes@,
            pre_votes: self.pre_votes@,
            coin_shares: self.coin_shares@,
        }
    }
}

impl Aggregator {
    /// The members whose votes are counted.
    pub closed spec fn members(&self) -> Seq<Authority> {
        self.committee@
    }

    /// The invariant of an aggregator: its committee is well formed.
    pub closed spec fn wf(&self) -> bool {
        self.committee.wf()
    }

    /// An aggregator for `committee` that holds nothing.
    pub fn new(committee: Committee) -> (r: Aggregator)
        requires
            committee.wf(),
        ensures
            r.wf(),
            r.members() == committee@,
            r@ == AggregatorView::empty(),
    {
        Aggregator {
            committee,
            hs_votes: Vec::new(),
            spb_votes: Vec::new(),
            pre_votes: Vec::new(),
            coin_shares: Vec::new(),
        }
    }

    /// Number of votes of the optimistic path on record.
    pub fn hs_vote_count(&self) -> (r: usize)
        ensures
            r == self@.hs_votes.len(),
    {
        self.hs_votes.len()
    }

    /// Hands in a vote of the optimistic path. A second vote of one author
    /// for one height is refused and changes nothing.
    pub fn add_hs_vote(&mut self, vote: HVote) -> (r: Result<Option<QC>, ConsensusError>)
        requires
            old(self).wf(),
        ensures
            final(self).wf(),
            final(self).members() == old(self).members(),
            final(self)@ == old(self)@.after_hs(vote),
            qc_option_view(r) == old(self)@.hs_result(vote, old(self).members()),
    {
        let threshold = self.committee.quorum_threshold();
        match hand_in(&mut self.hs_votes, vote.ballot(), &self.committee, threshold) {
            Found::Reuse => Err(ConsensusError::AuthorityReuseinQC(vote.author)),
            Found::Counted => Ok(None),
            Found::Crossed(backers) => Ok(
                Some(
                    QC {
                        hash: vote.hash,
                        height: vote.height,
                        epoch: vote.epoch,
                        votes: to_signed(&backers),
                    },
                ),
            ),
        }
    }

    /// Hands in a vote of a provable broadcast. A second vote of one author
    /// for one height, round and phase is refused and changes nothing.
    pub fn add_spb_vote(&mut self, vote: SPBVote) -> (r: Result<Option<SPBProof>, ConsensusError>)
        requires
            old(self).wf(),
        ensures
            final(self).wf(),
            final(self).members() == old(self).members(),
            final(self)@ == old(self)@.after_spb(vote),
            proof_option_view(r) == old(self)@.spb_result(vote, old(self).members()),
    {
        if vote.phase > LOCK_PHASE {
            return Err(ConsensusError::SPBPhaseWrong(vote.phase, vote.phase));
        }
        let threshold = self.committee.quorum_threshold();
        match hand_in(&mut self.spb_votes, vote.ballot(), &self.committee, threshold) {
            Found::Reuse => Err(ConsensusError::AuthorityReuseinSPB(vote.author)),
            Found::Counted => Ok(None),
            Found::Crossed(backers) => Ok(
                Some(
                    SPBProof {
                        height: vote.height,
                        round: vote.round,
                        phase: vote.phase + 1,
                        shares: to_votes(&backers),
                    },
                ),
            ),
        }
    }

    /// Hands in the vote for a locked value that came inside a vote of the
    /// agreement. A second vote of one author for one height and round is
    /// refused and changes nothing.
    pub fn add_pre_vote(&mut self, vote: SPBVote) -> (r: Result<Option<SPBProof>, ConsensusError>)
        requires
            old(self).wf(),
        ensures
            final(self).wf(),
            final(self).members() == old(self).members(),
            final(self)@ == old(self)@.after_pre(vote),
            proof_option_view(r) == old(self)@.pre_result(vote, old(self).members()),
    {
        if vote.phase != LOCK_PHASE {
            return Err(ConsensusError::SPBPhaseWrong(vote.phase, LOCK_PHASE));
        }
        let threshold = self.committee.quorum_threshold();
        match hand_in(&mut self.pre_votes, vote.ballot(), &self.committee, threshold) {
            Found::Reuse => Err(ConsensusError::AuthorityReuseinProof(vote.author)),
            Found::Counted => Ok(None),
            Found::Crossed(backers) => Ok(
                Some(
                    SPBProof {
                        height: vote.height,
                        round: vote.round,
                        phase: FIN_PHASE,
                        shares: to_votes(&backers),
                    },
                ),
            ),
        }
    }

    /// Hands in a share of a coin, after checking it under `keys`. A second
    /// share of one author for one height and round is refused and changes nothing.
    pub fn add_smvba_random(&mut self, share: RandomnessShare, keys: &Vec<u8>) -> (r: Result<
        Option<RandomCoin>,
        ConsensusError,
    >)
        requires
            old(self).wf(),
        ensures
            final(self).wf(),
            final(self).members() == old(self).members(),
            final(self)@ == old(self)@.after_coin(share, old(self).members(), keys@),
            coin_option_view(r) == old(self)@.coin_result(share, old(self).members(), keys@),
    {
        let checked = share.verify(&self.committee, keys);
        match checked {
            Err(e) => {
                return Err(e);
            },
            Ok(_) => {},
        }
        let threshold = self.committee.random_coin_threshold();
        match hand_in(&mut self.coin_shares, share.ballot(), &self.committee, threshold) {
            Found::Reuse => Err(ConsensusError::AuthorityReuseinCoin(share.author)),
            Found::Counted => Ok(None),
            Found::Crossed(backers) => {
                let shares = to_shares(&backers);
                match toss(&shares, &self.committee, keys) {
                    Some(leader) => Ok(
                        Some(
                            RandomCoin {
                                height: share.height,
                                epoch: share.epoch,
                                round: share.round,
                                leader,
                                shares,
                            },
                        ),
                    ),
                    None => Ok(None),
                }
            },
        }
    }

    /// Forgets the votes of the optimistic path for heights up to `height`.
    pub fn cleanup_hs_vote(&mut self, height: SeqNumber)
        requires
            old(self).wf(),
        ensures
            final(self).wf(),
            final(self).members() == old(self).members(),
            final(self)@ == old(self)@.without_hs(height),
    {
        self.hs_votes = keep_above(&self.hs_votes, height);
    }

    /// Forgets the broadcast votes for heights up to `height`.
    pub fn cleanup_spb_vote(&mut self, height: SeqNumber)
        requires
            old(self).wf(),
        ensures
            final(self).wf(),
            final(self).members() == old(self).members(),
            final(self)@ == old(self)@.without_spb(height),
    {
        self.spb_votes = keep_above(&self.spb_votes, height);
        self.pre_votes = keep_above(&self.pre_votes, height);
    }

    /// Forgets the coin shares for heights up to `height`.
    pub fn cleanup_mvba_random(&mut self, height: SeqNumber)
        requires
            old(self).wf(),
        ensures
            final(self).wf(),
            final(self).members() == old(self).members(),
            final(self)@ == old(self)@.without_coin(height),
    {
        self.coin_shares = keep_above(&self.coin_shares, height);
    }
}

/// The record after each ballot of `later` was handed in, in order.
pub open spec fn cast_all<S>(list: Seq<Ballot<S>>, later: Seq<Ballot<S>>) -> Seq<Ballot<S>>
    decreases later.len(),
{
    if later.len() == 0 {
        list
    } else {
        cast_record(cast_all(list, later.drop_last()), later.last())
    }
}

proof fn lemma_backing_same<S>(list: Seq<Ballot<S>>, b: Ballot<S>, c: Ballot<S>)
    requires
        same_cause(c, b),
    ensures
        backing(list, c) == backing(list, b),
    decreases list.len(),
{
    if list.len() > 0 {
        lemma_backing_same(list.drop_last(), b, c);
    }
}

proof fn lemma_cast_all_grows<S>(
    list: Seq<Ballot<S>>,
    later: Seq<Ballot<S>>,
    b: Ballot<S>,
    members: Seq<Authority>,
)
    ensures
        backing_stake(cast_all(list, later), b, members) >= backing_stake(list, b, members),
    decreases later.len(),
{
    if later.len() > 0 {
        lemma_cast_all_grows(list, later.drop_last(), b, members);
        lemma_backing_grows(cast_all(list, later.drop_last()), later.last(), b, members);
    }
}

/// A replica contributes once to a slot: after a ballot was handed in, a
/// second one of the same author for the same slot is refused and changes
/// nothing, whatever it backs.
pub proof fn law_second_ballot_is_refused<S>(
    list: Seq<Ballot<S>>,
    first: Ballot<S>,
    second: Ballot<S>,
    members: Seq<Authority>,
    threshold: nat,
)
    requires
        same_slot(second, first),
        second.author == first.author,
    ensures
        cast_outcome(cast_record(list, first), second, members, threshold) is Reuse,
        cast_record(cast_record(list, first), second) == cast_record(list, first),
{
    let record = cast_record(list, first);
    if has_cast(list, first) {
        let i = choose|i: int|
            0 <= i < list.len() && same_slot(#[trigger] list[i], first) && list[i].author
                == first.author;
        assert(same_slot(record[i], second) && record[i].author == second.author);
    } else {
        let i = list.len() as int;
        assert(same_slot(record[i], second) && record[i].author == second.author);
    }
}

/// The threshold is crossed once: after the ballot that lifted the voting
/// power behind what it backs over the threshold, no ballot that backs the
/// same does so again, whatever was handed in between.
pub proof fn law_threshold_is_crossed_once<S>(
    list: Seq<Ballot<S>>,
    b: Ballot<S>,
    between: Seq<Ballot<S>>,
    c: Ballot<S>,
    members: Seq<Authority>,
    threshold: nat,
)
    requires
        cast_outcome(list, b, members, threshold) is Crossed,
        same_cause(c, b),
    ensures
        !(cast_outcome(cast_all(cast_record(list, b), between), c, members, threshold)
            is Crossed),
{
    let record = cast_record(list, b);
    assert(record.drop_last() =~= list);
    assert(backing(list, b).push(b).drop_last() =~= backing(list, b));
    assert(backing_stake(record, b, members) >= threshold);
    lemma_cast_all_grows(record, between, b, members);
    lemma_backing_same(cast_all(record, between), b, c);
}

/// A second vote of the optimistic path by one author for one height is
/// refused as a reuse, and the aggregator holds no more than before.
pub proof fn law_duplicate_hs_vote_is_refused(
    a: AggregatorView,
    first: HVote,
    second: HVote,
    members: Seq<Authority>,
)
    requires
        second.author == first.author,
        second.height == first.height,
    ensures
        a.after_hs(first).hs_result(second, members) == Err::<Option<QCView>, ConsensusError>(
            ConsensusError::AuthorityReuseinQC(second.author),
        ),
        a.after_hs(first).after_hs(second) == a.after_hs(first),
{
    law_second_ballot_is_refused(
        a.hs_votes,
        first.spec_ballot(),
        second.spec_ballot(),
        members,
        quorum_of(total_stake(members)),
    );
}

/// A second broadcast vote by one author for one height, round and phase is
/// refused as a reuse, and the aggregator holds no more than before.
pub proof fn law_duplicate_spb_vote_is_refused(
    a: AggregatorView,
    first: SPBVote,
    second: SPBVote,
    members: Seq<Authority>,
)
    requires
        second.author == first.author,
        second.height == first.height,
        second.round == first.round,
        second.phase == first.phase,
        first.phase <= LOCK_PHASE,
    ensures
        a.after_spb(first).spb_result(second, members) == Err::<
            Option<SPBProofView>,
            ConsensusError,
        >(ConsensusError::AuthorityReuseinSPB(second.author)),
        a.after_spb(first).after_spb(second) == a.after_spb(first),
{
    law_second_ballot_is_refused(
        a.spb_votes,
        first.spec_ballot(),
        second.spec_ballot(),
        members,
        quorum_of(total_stake(members)),
    );
}

/// A second vote for a locked value by one author for one height and round
/// is refused as a reuse, and the aggregator holds no more than before.
pub proof fn law_duplicate_pre_vote_is_refused(
    a: AggregatorView,
    first: SPBVote,
    second: SPBVote,
    members: Seq<Authority>,
)
    requires
        second.author == first.author,
        second.height == first.height,
        second.round == first.round,
        first.phase == LOCK_PHASE,
        second.phase == LOCK_PHASE,
    ensures
        a.after_pre(first).pre_result(second, members) == Err::<
            Option<SPBProofView>,
            ConsensusError,
        >(ConsensusError::AuthorityReuseinProof(second.author)),
        a.after_pre(first).after_pre(second) == a.after_pre(first),
{
    law_second_ballot_is_refused(
        a.pre_votes,
        first.spec_ballot(),
        second.spec_ballot(),
        members,
        quorum_of(total_stake(members)),
    );
}

/// A second coin share by one author for one height and round is refused as
/// a reuse, and the aggregator holds no more than before.
pub proof fn law_duplicate_coin_share_is_refused(
    a: AggregatorView,
    first: RandomnessShare,
    second: RandomnessShare,
    members: Seq<Authority>,
    keys: Seq<u8>,
)
    requires
        second.author == first.author,
        second.height == first.height,
        second.round == first.round,
        share_check(first, members, keys).is_ok(),
        share_check(second, members, keys).is_ok(),
    ensures
        a.after_coin(first, members, keys).coin_result(second, members, keys) == Err::<
            Option<RandomCoinView>,
            ConsensusError,
        >(ConsensusError::AuthorityReuseinCoin(second.author)),
        a.after_coin(first, members, keys).after_coin(second, members, keys) == a.after_coin(
            first,
            members,
            keys,
        ),
{
    law_second_ballot_is_refused(
        a.coin_shares,
        first.spec_ballot(),
        second.spec_ballot(),
        members,
        coin_threshold_of(total_stake(members)),
    );
}

/// Whether no replica has two ballots in one slot of `list`.
pub open spec fn one_ballot_each<S>(list: Seq<Ballot<S>>) -> bool {
    forall|a: int, b: int|
        0 <= a < b < list.len() && same_slot(#[trigger] list[a], #[trigger] list[b])
            ==> list[a].author != list[b].author
}

/// The authors of `list`, in order.
pub open spec fn authors_of<S>(list: Seq<Ballot<S>>) -> Seq<PublicKey> {
    list.map_values(|b: Ballot<S>| b.author)
}

pub proof fn lemma_cast_record_keeps_one_each<S>(list: Seq<Ballot<S>>, x: Ballot<S>)
    requires
        one_ballot_each(list),
    ensures
        one_ballot_each(cast_record(list, x)),
{
    if !has_cast(list, x) {
        let record = list.push(x);
        assert forall|a: int, b: int|
            0 <= a < b < record.len() && same_slot(
                #[trigger] record[a],
                #[trigger] record[b],
            ) implies record[a].author != record[b].author by {
            if b < list.len() {
                assert(same_slot(list[a], list[b]));
            } else {
                if list[a].author == x.author {
                    assert(same_slot(list[a], x));
                }
            }
        }
    }
}

proof fn lemma_cast_all_keeps_one_each<S>(list: Seq<Ballot<S>>, later: Seq<Ballot<S>>)
    requires
        one_ballot_each(list),
    ensures
        one_ballot_each(cast_all(list, later)),
    decreases later.len(),
{
    if later.len() > 0 {
        lemma_cast_all_keeps_one_each(list, later.drop_last());
        lemma_cast_record_keeps_one_each(cast_all(list, later.drop_last()), later.last());
    }
}

proof fn lemma_cast_all_split<S>(list: Seq<Ballot<S>>, ballots: Seq<Ballot<S>>, at: int, upto: int)
    requires
        0 <= at <= upto <= ballots.len(),
    ensures
        cast_all(list, ballots.subrange(0, upto)) == cast_all(
            cast_all(list, ballots.subrange(0, at)),
            ballots.subrange(at, upto),
        ),
    decreases upto - at,
{
    if at == upto {
        assert(ballots.subrange(at, upto) =~= Seq::empty());
    } else {
        lemma_cast_all_split(list, ballots, at, upto - 1);
        assert(ballots.subrange(0, upto).drop_last() =~= ballots.subrange(0, upto - 1));
        assert(ballots.subrange(at, upto).drop_last() =~= ballots.subrange(at, upto - 1));
        assert(ballots.subrange(0, upto).last() == ballots.subrange(at, upto).last());
    }
}

pub proof fn lemma_ballot_stake_is_stake_sum<S>(list: Seq<Ballot<S>>, members: Seq<Authority>)
    ensures
        ballot_stake(list, members) == crate::quorum::stake_sum(authors_of(list), members),
    decreases list.len(),
{
    if list.len() > 0 {
        lemma_ballot_stake_is_stake_sum(list.drop_last(), members);
        assert(authors_of(list).drop_last() =~= authors_of(list.drop_last()));
    }
}

pub proof fn lemma_backing_members<S>(list: Seq<Ballot<S>>, b: Ballot<S>)
    ensures
        forall|k: int|
            0 <= k < backing(list, b).len() ==> {
                &&& same_cause(#[trigger] backing(list, b)[k], b)
                &&& list.contains(backing(list, b)[k])
            },
    decreases list.len(),
{
    if list.len() > 0 {
        let front = list.drop_last();
        lemma_backing_members(front, b);
        let back = backing(front, b);
        assert forall|k: int| 0 <= k < backing(list, b).len() implies {
            &&& same_cause(#[trigger] backing(list, b)[k], b)
            &&& list.contains(backing(list, b)[k])
        } by {
            if k < back.len() {
                let e = back[k];
                assert(front.contains(e));
                let w = choose|w: int| 0 <= w < front.len() && front[w] == e;
                assert(list[w] == e);
            } else {
                assert(list[list.len() - 1] == list.last());
            }
        }
    }
}

pub proof fn lemma_backing_authors_distinct<S>(list: Seq<Ballot<S>>, b: Ballot<S>)
    requires
        one_ballot_each(list),
    ensures
        authors_of(backing(list, b)).no_duplicates(),
    decreases list.len(),
{
    if list.len() > 0 {
        let front = list.drop_last();
        assert forall|x: int, y: int|
            0 <= x < y < front.len() && same_slot(
                #[trigger] front[x],
                #[trigger] front[y],
            ) implies front[x].author != front[y].author by {
            assert(same_slot(list[x], list[y]));
        }
        lemma_backing_authors_distinct(front, b);
        lemma_backing_members(front, b);
        let back = backing(front, b);
        let last = list.last();
        if same_cause(last, b) {
            let all = authors_of(back.push(last));
            assert forall|x: int, y: int| 0 <= x < all.len() && 0 <= y < all.len() && x
                != y implies all[x] != all[y] by {
                if x < back.len() && y < back.len() {
                    assert(authors_of(back)[x] != authors_of(back)[y]);
                } else {
                    let k = if x < back.len() {
                        x
                    } else {
                        y
                    };
                    let e = back[k];
                    assert(front.contains(e));
                    let w = choose|w: int| 0 <= w < front.len() && front[w] == e;
                    assert(same_slot(list[w], list[list.len() - 1]));
                }
            }
        }
    }
}

/// One aggregate per slot. Among the ballots that an aggregator takes from
/// its beginning, with the quorum as threshold, at most one of a slot lifts
/// the voting power behind what it backs over the threshold, whatever the
/// ballots back: a certificate or a proof is handed out once per height,
/// round and phase.
pub proof fn law_one_aggregate_per_slot<S>(
    ballots: Seq<Ballot<S>>,
    i: int,
    j: int,
    members: Seq<Authority>,
)
    requires
        0 <= i < j < ballots.len(),
        same_slot(ballots[i], ballots[j]),
        cast_outcome(
            cast_all(Seq::empty(), ballots.subrange(0, i)),
            ballots[i],
            members,
            quorum_of(total_stake(members)),
        ) is Crossed,
    ensures
        !(cast_outcome(
            cast_all(Seq::empty(), ballots.subrange(0, j)),
            ballots[j],
            members,
            quorum_of(total_stake(members)),
        ) is Crossed),
{
    let q = quorum_of(total_stake(members));
    let none = Seq::<Ballot<S>>::empty();
    let first = ballots[i];
    let second = ballots[j];
    let before = cast_all(none, ballots.subrange(0, i));
    let record = cast_record(before, first);
    let between = ballots.subrange(i + 1, j);
    let now = cast_all(none, ballots.subrange(0, j));
    lemma_cast_all_split(none, ballots, i + 1, j);
    assert(ballots.subrange(0, i + 1).drop_last() =~= ballots.subrange(0, i));
    assert(ballots.subrange(0, i + 1).last() == first);
    assert(now == cast_all(record, between));
    if same_cause(second, first) {
        law_threshold_is_crossed_once(before, first, between, second, members, q);
    } else if cast_outcome(now, second, members, q) is Crossed {
        lemma_cast_all_keeps_one_each(none, ballots.subrange(0, j));
        // What backs the first digest by now still makes a quorum.
        assert(record.drop_last() =~= before);
        assert(backing(before, first).push(first).drop_last() =~= backing(before, first));
        lemma_cast_all_grows(record, between, first, members);
        let ones = backing(now, first);
        let twos = backing(now, second);
        lemma_backing_members(now, first);
        lemma_backing_members(now, second);
        lemma_backing_authors_distinct(now, first);
        lemma_backing_authors_distinct(now, second);
        lemma_ballot_stake_is_stake_sum(ones, members);
        lemma_ballot_stake_is_stake_sum(twos, members);
        let a = authors_of(ones);
        let b = authors_of(twos).push(second.author);
        let all = a + b;
        assert forall|x: int, y: int| 0 <= x < all.len() && 0 <= y < all.len() && x
            != y implies all[x] != all[y] by {
            if x < a.len() && y < a.len() {
            } else if x >= a.len() && y >= a.len() {
                let u = x - a.len();
                let v = y - a.len();
                if u < twos.len() && v < twos.len() {
                    assert(authors_of(twos)[u] != authors_of(twos)[v]);
                } else {
                    let k = if u < twos.len() {
                        u
                    } else {
                        v
                    };
                    let e = twos[k];
                    assert(now.contains(e));
                    let w = choose|w: int| 0 <= w < now.len() && now[w] == e;
                    assert(same_slot(now[w], second));
                }
            } else {
                let u = if x < a.len() {
                    x
                } else {
                    y
                };
                let v = (if x < a.len() {
                    y
                } else {
                    x
                }) - a.len();
                let e = ones[u];
                assert(now.contains(e));
                let w = choose|w: int| 0 <= w < now.len() && now[w] == e;
                if v < twos.len() {
                    let g = twos[v];
                    assert(now.contains(g));
                    let z = choose|z: int| 0 <= z < now.len() && now[z] == g;
                    assert(same_slot(now[w], now[z]));
                    assert(w != z);
                } else {
                    assert(same_slot(now[w], second));
                }
            }
        }
        crate::quorum::lemma_distinct_voters_within_total(all, members);
        lemma_stake_sum_of_parts(a, authors_of(twos), second.author, members);
    }
}

proof fn lemma_stake_sum_of_parts(
    a: Seq<PublicKey>,
    b: Seq<PublicKey>,
    last: PublicKey,
    members: Seq<Authority>,
)
    ensures
        crate::quorum::stake_sum(a + b.push(last), members) == crate::quorum::stake_sum(a, members)
            + crate::quorum::stake_sum(b, members) + stake_of(members, last),
{
    assert((a + b.push(last)).drop_last() =~= a + b);
    assert((a + b.push(last)).last() == last);
    crate::quorum::lemma_stake_sum_sum(a, b, members);
}

proof fn lemma_above_members<S>(list: Seq<Ballot<S>>, height: SeqNumber)
    ensures
        forall|k: int|
            0 <= k < above(list, height).len() ==> list.contains(#[trigger] above(list, height)[k]),
    decreases list.len(),
{
    if list.len() > 0 {
        let front = list.drop_last();
        lemma_above_members(front, height);
        let kept = above(front, height);
        assert forall|k: int| 0 <= k < above(list, height).len() implies list.contains(
            #[trigger] above(list, height)[k],
        ) by {
            if k < kept.len() {
                let e = kept[k];
                assert(front.contains(e));
                let w = choose|w: int| 0 <= w < front.len() && front[w] == e;
                assert(list[w] == e);
            } else {
                assert(list[list.len() - 1] == list.last());
            }
        }
    }
}

/// Forgetting the ballots up to a height leaves one ballot each.
pub proof fn lemma_above_keeps_one_each<S>(list: Seq<Ballot<S>>, height: SeqNumber)
    requires
        one_ballot_each(list),
    ensures
        one_ballot_each(above(list, height)),
    decreases list.len(),
{
    if list.len() > 0 {
        let front = list.drop_last();
        assert forall|x: int, y: int|
            0 <= x < y < front.len() && same_slot(
                #[trigger] front[x],
                #[trigger] front[y],
            ) implies front[x].author != front[y].author by {
            assert(same_slot(list[x], list[y]));
        }
        lemma_above_keeps_one_each(front, height);
        lemma_above_members(front, height);
        let kept = above(front, height);
        let last = list.last();
        if last.height > height {
            let all = kept.push(last);
            assert forall|x: int, y: int|
                0 <= x < y < all.len() && same_slot(
                    #[trigger] all[x],
                    #[trigger] all[y],
                ) implies all[x].author != all[y].author by {
                if y < kept.len() {
                    assert(same_slot(kept[x], kept[y]));
                } else {
                    let e = kept[x];
                    assert(front.contains(e));
                    let w = choose|w: int| 0 <= w < front.len() && front[w] == e;
                    assert(same_slot(list[w], list[list.len() - 1]));
                }
            }
        }
    }
}

impl AggregatorView {
    /// Whether no replica has two ballots in one slot of any of the records.
    pub open spec fn tidy(self) -> bool {
        &&& one_ballot_each(self.hs_votes)
        &&& one_ballot_each(self.spb_votes)
        &&& one_ballot_each(self.pre_votes)
        &&& one_ballot_each(self.coin_shares)
    }
}

/// Whatever is handed in or forgotten, an aggregator stays tidy: it begins
/// without ballots, and no replica gets a second ballot into a slot.
pub proof fn law_aggregator_stays_tidy(
    a: AggregatorView,
    hs: HVote,
    spb: SPBVote,
    share: RandomnessShare,
    height: SeqNumber,
    members: Seq<Authority>,
    keys: Seq<u8>,
)
    requires
        a.tidy(),
    ensures
        AggregatorView::empty().tidy(),
        a.after_hs(hs).tidy(),
        a.after_spb(spb).tidy(),
        a.after_pre(spb).tidy(),
        a.after_coin(share, members, keys).tidy(),
        a.without_hs(height).tidy(),
        a.without_spb(height).tidy(),
        a.without_coin(height).tidy(),
{
    lemma_cast_record_keeps_one_each(a.hs_votes, hs.spec_ballot());
    lemma_cast_record_keeps_one_each(a.spb_votes, spb.spec_ballot());
    lemma_cast_record_keeps_one_each(a.pre_votes, spb.spec_ballot());
    lemma_cast_record_keeps_one_each(a.coin_shares, share.spec_ballot());
    lemma_above_keeps_one_each(a.hs_votes, height);
    lemma_above_keeps_one_each(a.spb_votes, height);
    lemma_above_keeps_one_each(a.pre_votes, height);
    lemma_above_keeps_one_each(a.coin_shares, height);
}

} // verus!
