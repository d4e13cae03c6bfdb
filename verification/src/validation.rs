//! Structural validation of inbound messages.
//!
//! Whether the signatures inside a message verify is for the runtime to
//! find out; each check takes that verdict as `signatures_ok` and looks at it
//! last, when the shape of the message has been found in order.

use crate::config::{quorum_of, stake_of, total_stake, Authority, Committee};
use crate::error::ConsensusError;
use crate::messages::{
    Block, BlockView, HVote, MDoneAndShare, MHalt, MHaltView, MPreVote, MPreVoteView, MVote,
    MVoteTag, MVoteTagView, MVoteView, PrePare, PrePareProof, PrePareProofView, PrePareView,
    PreVoteTag, PreVoteTagView, QCView, SPBProof, SPBProofView, SPBValue, SPBValueView, SPBVote,
    Signed, QC,
};
use crate::quorum::{first_fault, is_quorum, lemma_faultless_voters, stake_sum, VoterFault};
use crate::types::{PublicKey, SeqNumber, FIN_PHASE, INIT_PHASE, LOCK_PHASE, OPT, PES};
use vstd::prelude::*;

verus! {

/// The replicas that signed `votes`, in order.
pub open spec fn signers(votes: Seq<Signed>) -> Seq<PublicKey> {
    votes.map_values(|s: Signed| s.author)
}

/// The replicas that cast `shares`, in order.
pub open spec fn voters(shares: Seq<SPBVote>) -> Seq<PublicKey> {
    shares.map_values(|s: SPBVote| s.author)
}

/// Whether `signers` are faultless and make a quorum; else the error that
/// `reuse` makes of a repeated voter, or `short` for a lack of voting power.
pub open spec fn quorum_check(
    voters: Seq<PublicKey>,
    members: Seq<Authority>,
    reuse: spec_fn(PublicKey) -> ConsensusError,
    short: ConsensusError,
) -> Result<(), ConsensusError> {
    match first_fault(voters, members) {
        Some(VoterFault::Reuse(k)) => Err(reuse(k)),
        Some(VoterFault::Unknown(k)) => Err(ConsensusError::UnknownAuthority(k)),
        None => if stake_sum(voters, members) < quorum_of(total_stake(members)) {
            Err(short)
        } else {
            Ok(())
        },
    }
}

/// A certificate is in order when its voters are distinct members that make a quorum.
pub open spec fn qc_check(qc: QCView, members: Seq<Authority>) -> Result<(), ConsensusError> {
    quorum_check(
        signers(qc.votes),
        members,
        |k: PublicKey| ConsensusError::AuthorityReuseinQC(k),
        ConsensusError::QCRequiresQuorum,
    )
}

/// A block is in order when its author is a member, it extends its parent
/// certificate by one height or extends genesis, that certificate is in order,
/// and its signatures verify.
pub open spec fn block_check(b: BlockView, members: Seq<Authority>, signatures_ok: bool) -> Result<
    (),
    ConsensusError,
> {
    if stake_of(members, b.author) == 0 {
        Err(ConsensusError::UnknownAuthority(b.author))
    } else if !(b.qc.is_genesis() || b.qc.height + 1 == b.height) {
        Err(ConsensusError::MalformedBlock(b.digest))
    } else if !b.qc.is_genesis() && qc_check(b.qc, members).is_err() {
        qc_check(b.qc, members)
    } else if !signatures_ok {
        Err(ConsensusError::InvalidSignature)
    } else {
        Ok(())
    }
}

/// A vote is in order when its author is a member and its signature verifies.
pub open spec fn vote_check(author: PublicKey, members: Seq<Authority>, signatures_ok: bool) -> Result<
    (),
    ConsensusError,
> {
    if stake_of(members, author) == 0 {
        Err(ConsensusError::UnknownAuthority(author))
    } else if !signatures_ok {
        Err(ConsensusError::InvalidSignature)
    } else {
        Ok(())
    }
}

/// Whether `share` is a vote for `value` in the phase before that of `proof`.
pub open spec fn share_matches(share: SPBVote, value: SPBValueView, proof: SPBProofView) -> bool {
    &&& share.hash == value.block.digest
    &&& share.phase + 1 == proof.phase
    &&& share.height == proof.height
    &&& share.round == proof.round
    &&& share.epoch == value.block.epoch
    &&& share.proposer == value.block.author
}

/// Whether `proof` has the shape of a proof for `value`: same phase, height
/// and round, no shares at the first phase, and later only votes for `value`
/// in the phase before.
pub open spec fn shape_ok(value: SPBValueView, proof: SPBProofView) -> bool {
    &&& value.phase == proof.phase
    &&& proof.phase <= FIN_PHASE
    &&& proof.height == value.block.height
    &&& proof.round == value.round
    &&& (proof.phase == INIT_PHASE ==> proof.shares.len() == 0)
    &&& forall|i: int|
        0 <= i < proof.shares.len() ==> share_matches(#[trigger] proof.shares[i], value, proof)
}

/// A broadcast value with its proof is in order when the broadcaster is a
/// member, the proof has the shape of a proof for the value, past the first
/// phase its voters are distinct members that make a quorum, and the
/// signatures verify.
pub open spec fn value_check(
    value: SPBValueView,
    proof: SPBProofView,
    members: Seq<Authority>,
    signatures_ok: bool,
) -> Result<(), ConsensusError> {
    let quorum = quorum_check(
        voters(proof.shares),
        members,
        |k: PublicKey| ConsensusError::AuthorityReuseinSPB(k),
        ConsensusError::SPBRequiresQuorum,
    );
    if stake_of(members, value.block.author) == 0 {
        Err(ConsensusError::UnknownAuthority(value.block.author))
    } else if !shape_ok(value, proof) {
        Err(ConsensusError::SPBPhaseWrong(value.phase, proof.phase))
    } else if proof.phase > INIT_PHASE && quorum.is_err() {
        quorum
    } else if !signatures_ok {
        Err(ConsensusError::InvalidSignature)
    } else {
        Ok(())
    }
}

/// Whether `proof` stands for the broadcast of `leader` in `phase` at the
/// given height and round.
pub open spec fn anchored(
    value: SPBValueView,
    proof: SPBProofView,
    phase: u8,
    height: SeqNumber,
    round: SeqNumber,
    leader: PublicKey,
) -> bool {
    &&& proof.phase == phase
    &&& proof.height == height
    &&& proof.round == round
    &&& value.block.author == leader
}

/// Whether the shares of a finishing proof are votes of the locking phase for
/// one digest, at the proof's height and round, and the proof is of the
/// height before `height`.
pub open spec fn fin_shape_ok(proof: SPBProofView, height: SeqNumber) -> bool {
    &&& proof.phase == FIN_PHASE
    &&& proof.height + 1 == height
    &&& forall|i: int|
        0 <= i < proof.shares.len() ==> {
            &&& (#[trigger] proof.shares[i]).phase == LOCK_PHASE
            &&& proof.shares[i].height == proof.height
            &&& proof.shares[i].round == proof.round
            &&& proof.shares[i].hash == proof.shares[0].hash
        }
}

/// An arbitration message is in order when its author is a member, it names
/// a path, carries the evidence of that path for the height before its own,
/// that evidence is in order, and its signatures verify.
pub open spec fn prepare_check(p: PrePareView, members: Seq<Authority>, signatures_ok: bool) -> Result<
    (),
    ConsensusError,
> {
    if stake_of(members, p.author) == 0 {
        Err(ConsensusError::UnknownAuthority(p.author))
    } else if p.val != OPT && p.val != PES {
        Err(ConsensusError::InvalidPrePareTag(p.val))
    } else {
        let evidence: Result<(), ConsensusError> = match p.proof {
            PrePareProofView::OPTProof(qc) => if p.val != OPT || !(qc.is_genesis() || qc.height
                + 1 == p.height) {
                Err(ConsensusError::InvalidPreParePESQC(p.height))
            } else if qc.is_genesis() {
                Ok(())
            } else {
                qc_check(qc, members)
            },
            PrePareProofView::PESProof(f) => if p.val != PES {
                Err(ConsensusError::InvalidPreParePESQC(p.height))
            } else if !fin_shape_ok(f, p.height) {
                Err(ConsensusError::InvalidFinProof)
            } else {
                quorum_check(
                    voters(f.shares),
                    members,
                    |k: PublicKey| ConsensusError::AuthorityReuseinSPB(k),
                    ConsensusError::SPBRequiresQuorum,
                )
            },
        };
        if evidence.is_err() {
            evidence
        } else if !signatures_ok {
            Err(ConsensusError::InvalidSignature)
        } else {
            Ok(())
        }
    }
}

/// A pre-vote is in order when its author is a member, a `Yes` carries the
/// leader's locked value with a proof that is in order, and its signatures verify.
pub open spec fn prevote_check(pv: MPreVoteView, members: Seq<Authority>, signatures_ok: bool) -> Result<
    (),
    ConsensusError,
> {
    let inner: Result<(), ConsensusError> = match pv.tag {
        PreVoteTagView::Yes(value, proof) => if !anchored(
            value,
            proof,
            LOCK_PHASE,
            pv.height,
            pv.round,
            pv.leader,
        ) {
            Err(ConsensusError::SPBPhaseWrong(value.phase, proof.phase))
        } else {
            value_check(value, proof, members, true)
        },
        PreVoteTagView::No => Ok(()),
    };
    if stake_of(members, pv.author) == 0 {
        Err(ConsensusError::UnknownAuthority(pv.author))
    } else if inner.is_err() {
        inner
    } else if !signatures_ok {
        Err(ConsensusError::InvalidSignature)
    } else {
        Ok(())
    }
}

/// Whether `vote` is the vote of `author` for the locked `value`.
pub open spec fn lock_vote_matches(
    vote: SPBVote,
    value: SPBValueView,
    author: PublicKey,
    height: SeqNumber,
    round: SeqNumber,
) -> bool {
    &&& vote.hash == value.block.digest
    &&& vote.phase == LOCK_PHASE
    &&& vote.height == height
    &&& vote.round == round
    &&& vote.author == author
}

/// A vote of the agreement is in order when its author is a member, a `Yes`
/// carries the leader's locked value with a proof that is in order and the
/// author's own vote for that value, and its signatures verify.
pub open spec fn mvote_check(mv: MVoteView, members: Seq<Authority>, signatures_ok: bool) -> Result<
    (),
    ConsensusError,
> {
    let inner: Result<(), ConsensusError> = match mv.tag {
        MVoteTagView::Yes(value, proof, vote) => if !anchored(
            value,
            proof,
            LOCK_PHASE,
            mv.height,
            mv.round,
            mv.leader,
        ) || !lock_vote_matches(vote, value, mv.author, mv.height, mv.round) {
            Err(ConsensusError::SPBPhaseWrong(value.phase, proof.phase))
        } else {
            value_check(value, proof, members, true)
        },
        MVoteTagView::No => Ok(()),
    };
    if stake_of(members, mv.author) == 0 {
        Err(ConsensusError::UnknownAuthority(mv.author))
    } else if inner.is_err() {
        inner
    } else if !signatures_ok {
        Err(ConsensusError::InvalidSignature)
    } else {
        Ok(())
    }
}

/// A halt is in order when its author is a member, it carries the leader's
/// finished value with a proof that is in order, and its signatures verify.
pub open spec fn halt_check(h: MHaltView, members: Seq<Authority>, signatures_ok: bool) -> Result<
    (),
    ConsensusError,
> {
    if stake_of(members, h.author) == 0 {
        Err(ConsensusError::UnknownAuthority(h.author))
    } else if !anchored(h.value, h.proof, FIN_PHASE, h.height, h.round, h.leader) {
        Err(ConsensusError::InvalidFinProof)
    } else if value_check(h.value, h.proof, members, true).is_err() {
        value_check(h.value, h.proof, members, true)
    } else if !signatures_ok {
        Err(ConsensusError::InvalidSignature)
    } else {
        Ok(())
    }
}


/// The replicas that signed `votes`, in order.
pub fn signers_of(votes: &Vec<Signed>) -> (r: Vec<PublicKey>)
    ensures
        r@ == signers(votes@),
{
    let mut out: Vec<PublicKey> = Vec::new();
    let mut i: usize = 0;
    while i < votes.len()
        invariant
            i <= votes.len(),
            out@ == signers(votes@.subrange(0, i as int)),
        decreases votes.len() - i,
    {
        out.push(votes[i].author);
        i += 1;
        assert(out@ =~= signers(votes@.subrange(0, i as int)));
    }
    assert(votes@.subrange(0, i as int) =~= votes@);
    out
}

/// The replicas that cast `shares`, in order.
pub fn voters_of(shares: &Vec<SPBVote>) -> (r: Vec<PublicKey>)
    ensures
        r@ == voters(shares@),
{
    let mut out: Vec<PublicKey> = Vec::new();
    let mut i: usize = 0;
    while i < shares.len()
        invariant
            i <= shares.len(),
            out@ == voters(shares@.subrange(0, i as int)),
        decreases shares.len() - i,
    {
        out.push(shares[i].author);
        i += 1;
        assert(out@ =~= voters(shares@.subrange(0, i as int)));
    }
    assert(shares@.subrange(0, i as int) =~= shares@);
    out
}

impl Committee {
    /// Whether `voters` are distinct members that make a quorum of this
    /// committee; else the first fault among them.
    pub fn quorum_fault(&self, voters: &Vec<PublicKey>) -> (r: Result<bool, VoterFault>)
        requires
            self.wf(),
        ensures
            match first_fault(voters@, self@) {
                Some(f) => r == Err::<bool, VoterFault>(f),
                None => r == Ok::<bool, VoterFault>(
                    stake_sum(voters@, self@) >= quorum_of(total_stake(self@)),
                ),
            },
    {
        match self.audit(voters) {
            Ok(weight) => Ok(weight >= self.quorum_threshold() as u128),
            Err(f) => Err(f),
        }
    }
}

impl QC {
    /// Checks that the voters of this certificate are distinct members that
    /// make a quorum.
    pub fn verify(&self, committee: &Committee) -> (r: Result<(), ConsensusError>)
        requires
            committee.wf(),
        ensures
            r == qc_check(self@, committee@),
    {
        let names = signers_of(&self.votes);
        match committee.quorum_fault(&names) {
            Err(VoterFault::Reuse(k)) => Err(ConsensusError::AuthorityReuseinQC(k)),
            Err(VoterFault::Unknown(k)) => Err(ConsensusError::UnknownAuthority(k)),
            Ok(false) => Err(ConsensusError::QCRequiresQuorum),
            Ok(true) => Ok(()),
        }
    }
}

impl Block {
    /// Checks this block as `block_check` says.
    pub fn verify(&self, committee: &Committee, signatures_ok: bool) -> (r: Result<
        (),
        ConsensusError,
    >)
        requires
            committee.wf(),
        ensures
            r == block_check(self@, committee@, signatures_ok),
    {
        if committee.stake(&self.author) == 0 {
            return Err(ConsensusError::UnknownAuthority(self.author));
        }
        let genesis = self.qc.is_genesis();
        if !(genesis || (self.qc.height < u64::MAX && self.qc.height + 1 == self.height)) {
            return Err(ConsensusError::MalformedBlock(self.digest));
        }
        if !genesis {
            let inner = self.qc.verify(committee);
            if inner.is_err() {
                return inner;
            }
        }
        if !signatures_ok {
            return Err(ConsensusError::InvalidSignature);
        }
        Ok(())
    }
}

impl HVote {
    /// Checks that the author is a member and the signature verifies.
    pub fn verify(&self, committee: &Committee, signatures_ok: bool) -> (r: Result<
        (),
        ConsensusError,
    >)
        requires
            committee.wf(),
        ensures
            r == vote_check(self.author, committee@, signatures_ok),
    {
        if committee.stake(&self.author) == 0 {
            Err(ConsensusError::UnknownAuthority(self.author))
        } else if !signatures_ok {
            Err(ConsensusError::InvalidSignature)
        } else {
            Ok(())
        }
    }
}

impl SPBVote {
    /// Checks that the author is a member and the signature verifies.
    pub fn verify(&self, committee: &Committee, signatures_ok: bool) -> (r: Result<
        (),
        ConsensusError,
    >)
        requires
            committee.wf(),
        ensures
            r == vote_check(self.author, committee@, signatures_ok),
    {
        if committee.stake(&self.author) == 0 {
            Err(ConsensusError::UnknownAuthority(self.author))
        } else if !signatures_ok {
            Err(ConsensusError::InvalidSignature)
        } else {
            Ok(())
        }
    }
}

impl SPBProof {
    /// Whether the voters of this proof are distinct members that make a quorum.
    pub fn verify_quorum(&self, committee: &Committee) -> (r: Result<(), ConsensusError>)
        requires
            committee.wf(),
        ensures
            r == quorum_check(
                voters(self@.shares),
                committee@,
                |k: PublicKey| ConsensusError::AuthorityReuseinSPB(k),
                ConsensusError::SPBRequiresQuorum,
            ),
    {
        let names = voters_of(&self.shares);
        match committee.quorum_fault(&names) {
            Err(VoterFault::Reuse(k)) => Err(ConsensusError::AuthorityReuseinSPB(k)),
            Err(VoterFault::Unknown(k)) => Err(ConsensusError::UnknownAuthority(k)),
            Ok(false) => Err(ConsensusError::SPBRequiresQuorum),
            Ok(true) => Ok(()),
        }
    }

    /// Whether this proof has the shape of a finishing proof for the height
    /// before `height`.
    pub fn fin_shape_ok(&self, height: SeqNumber) -> (r: bool)
        ensures
            r == fin_shape_ok(self@, height),
    {
        if !(self.phase == FIN_PHASE && self.height < u64::MAX && self.height + 1 == height) {
            return false;
        }
        let mut i: usize = 0;
        while i < self.shares.len()
            invariant
                i <= self.shares.len(),
                forall|k: int|
                    0 <= k < i ==> {
                        &&& (#[trigger] self.shares@[k]).phase == LOCK_PHASE
                        &&& self.shares@[k].height == self.height
                        &&& self.shares@[k].round == self.round
                        &&& self.shares@[k].hash == self.shares@[0].hash
                    },
            decreases self.shares.len() - i,
        {
            let s = &self.shares[i];
            if !(s.phase == LOCK_PHASE && s.height == self.height && s.round == self.round
                && s.hash == self.shares[0].hash) {
                assert(self@.shares[i as int] == *s);
                return false;
            }
            i += 1;
        }
        true
    }
}

impl SPBValue {
    /// Whether `proof` has the shape of a proof for this value.
    pub fn shape_ok(&self, proof: &SPBProof) -> (r: bool)
        ensures
            r == shape_ok(self@, proof@),
    {
        if !(self.phase == proof.phase && proof.phase <= FIN_PHASE && proof.height
            == self.block.height && proof.round == self.round) {
            return false;
        }
        if proof.phase == INIT_PHASE && proof.shares.len() != 0 {
            return false;
        }
        let mut i: usize = 0;
        while i < proof.shares.len()
            invariant
                i <= proof.shares.len(),
                proof.phase <= FIN_PHASE,
                forall|k: int| 0 <= k < i ==> share_matches(#[trigger] proof.shares@[k], self@, proof@),
            decreases proof.shares.len() - i,
        {
            let s = &proof.shares[i];
            if !(s.hash == self.block.digest && s.phase < FIN_PHASE && s.phase + 1 == proof.phase
                && s.height == proof.height && s.round == proof.round && s.epoch
                == self.block.epoch && s.proposer == self.block.author) {
                assert(proof@.shares[i as int] == *s);
                assert(!share_matches(proof@.shares[i as int], self@, proof@));
                return false;
            }
            i += 1;
        }
        true
    }

    /// Checks this value against `proof` as `value_check` says.
    pub fn verify(&self, committee: &Committee, proof: &SPBProof, signatures_ok: bool) -> (r:
        Result<(), ConsensusError>)
        requires
            committee.wf(),
        ensures
            r == value_check(self@, proof@, committee@, signatures_ok),
    {
        if committee.stake(&self.block.author) == 0 {
            return Err(ConsensusError::UnknownAuthority(self.block.author));
        }
        if !self.shape_ok(proof) {
            return Err(ConsensusError::SPBPhaseWrong(self.phase, proof.phase));
        }
        if proof.phase > INIT_PHASE {
            let quorum = proof.verify_quorum(committee);
            if quorum.is_err() {
                return quorum;
            }
        }
        if !signatures_ok {
            return Err(ConsensusError::InvalidSignature);
        }
        Ok(())
    }

    /// Whether `proof` stands for this value as the broadcast of `leader` in
    /// `phase` at the given height and round.
    pub fn anchored(
        &self,
        proof: &SPBProof,
        phase: u8,
        height: SeqNumber,
        round: SeqNumber,
        leader: &PublicKey,
    ) -> (r: bool)
        ensures
            r == anchored(self@, proof@, phase, height, round, *leader),
    {
        proof.phase == phase && proof.height == height && proof.round == round
            && self.block.author == *leader
    }
}

impl PrePare {
    /// Checks this arbitration message as `prepare_check` says.
    pub fn verify(&self, committee: &Committee, signatures_ok: bool) -> (r: Result<
        (),
        ConsensusError,
    >)
        requires
            committee.wf(),
        ensures
            r == prepare_check(self@, committee@, signatures_ok),
    {
        if committee.stake(&self.author) == 0 {
            return Err(ConsensusError::UnknownAuthority(self.author));
        }
        if self.val != OPT && self.val != PES {
            return Err(ConsensusError::InvalidPrePareTag(self.val));
        }
        let evidence: Result<(), ConsensusError> = match &self.proof {
            PrePareProof::OPTProof(qc) => {
                let genesis = qc.is_genesis();
                if self.val != OPT || !(genesis || (qc.height < u64::MAX && qc.height + 1
                    == self.height)) {
                    Err(ConsensusError::InvalidPreParePESQC(self.height))
                } else if genesis {
                    Ok(())
                } else {
                    qc.verify(committee)
                }
            },
            PrePareProof::PESProof(f) => {
                if self.val != PES {
                    Err(ConsensusError::InvalidPreParePESQC(self.height))
                } else if !f.fin_shape_ok(self.height) {
                    Err(ConsensusError::InvalidFinProof)
                } else {
                    f.verify_quorum(committee)
                }
            },
        };
        if evidence.is_err() {
            return evidence;
        }
        if !signatures_ok {
            return Err(ConsensusError::InvalidSignature);
        }
        Ok(())
    }
}

impl MPreVote {
    /// Checks this pre-vote as `prevote_check` says.
    pub fn verify(&self, committee: &Committee, signatures_ok: bool) -> (r: Result<
        (),
        ConsensusError,
    >)
        requires
            committee.wf(),
        ensures
            r == prevote_check(self@, committee@, signatures_ok),
    {
        if committee.stake(&self.author) == 0 {
            return Err(ConsensusError::UnknownAuthority(self.author));
        }
        match &self.tag {
            PreVoteTag::Yes(value, proof) => {
                if !value.anchored(proof, LOCK_PHASE, self.height, self.round, &self.leader) {
                    return Err(ConsensusError::SPBPhaseWrong(value.phase, proof.phase));
                }
                let inner = value.verify(committee, proof, true);
                if inner.is_err() {
                    return inner;
                }
            },
            PreVoteTag::No => {},
        }
        if !signatures_ok {
            return Err(ConsensusError::InvalidSignature);
        }
        Ok(())
    }
}

impl MVote {
    /// Checks this vote as `mvote_check` says.
    pub fn verify(&self, committee: &Committee, signatures_ok: bool) -> (r: Result<
        (),
        ConsensusError,
    >)
        requires
            committee.wf(),
        ensures
            r == mvote_check(self@, committee@, signatures_ok),
    {
        if committee.stake(&self.author) == 0 {
            return Err(ConsensusError::UnknownAuthority(self.author));
        }
        match &self.tag {
            MVoteTag::Yes(value, proof, vote) => {
                let own = vote.hash == value.block.digest && vote.phase == LOCK_PHASE
                    && vote.height == self.height && vote.round == self.round && vote.author
                    == self.author;
                if !value.anchored(proof, LOCK_PHASE, self.height, self.round, &self.leader)
                    || !own {
                    return Err(ConsensusError::SPBPhaseWrong(value.phase, proof.phase));
                }
                let inner = value.verify(committee, proof, true);
                if inner.is_err() {
                    return inner;
                }
            },
            MVoteTag::No => {},
        }
        if !signatures_ok {
            return Err(ConsensusError::InvalidSignature);
        }
        Ok(())
    }
}

impl MHalt {
    /// Checks this halt as `halt_check` says.
    pub fn verify(&self, committee: &Committee, signatures_ok: bool) -> (r: Result<
        (),
        ConsensusError,
    >)
        requires
            committee.wf(),
        ensures
            r == halt_check(self@, committee@, signatures_ok),
    {
        if committee.stake(&self.author) == 0 {
            return Err(ConsensusError::UnknownAuthority(self.author));
        }
        if !self.value.anchored(&self.proof, FIN_PHASE, self.height, self.round, &self.leader) {
            return Err(ConsensusError::InvalidFinProof);
        }
        let inner = self.value.verify(committee, &self.proof, true);
        if inner.is_err() {
            return inner;
        }
        if !signatures_ok {
            return Err(ConsensusError::InvalidSignature);
        }
        Ok(())
    }
}

impl MDoneAndShare {
    /// Checks that the author is a member and the signature verifies.
    pub fn verify(&self, committee: &Committee, signatures_ok: bool) -> (r: Result<
        (),
        ConsensusError,
    >)
        requires
            committee.wf(),
        ensures
            r == vote_check(self.author, committee@, signatures_ok),
    {
        if committee.stake(&self.author) == 0 {
            Err(ConsensusError::UnknownAuthority(self.author))
        } else if !signatures_ok {
            Err(ConsensusError::InvalidSignature)
        } else {
            Ok(())
        }
    }
}

/// A finishing proof that is in order for a value rests on the votes of a
/// quorum for that value in the locking phase: its shares are votes of
/// distinct members for the value's digest at the proof's height and round,
/// cast in the locking phase, and their voting power makes a quorum.
pub proof fn law_fin_proof_rests_on_lock_quorum(
    value: SPBValueView,
    proof: SPBProofView,
    members: Seq<Authority>,
    signatures_ok: bool,
)
    requires
        value_check(value, proof, members, signatures_ok).is_ok(),
        proof.phase == FIN_PHASE,
    ensures
        is_quorum(voters(proof.shares), members),
        forall|i: int|
            0 <= i < proof.shares.len() ==> {
                &&& (#[trigger] proof.shares[i]).phase == LOCK_PHASE
                &&& proof.shares[i].hash == value.block.digest
                &&& proof.shares[i].height == proof.height
                &&& proof.shares[i].round == proof.round
            },
{
    lemma_faultless_voters(voters(proof.shares), members);
    assert forall|i: int| 0 <= i < proof.shares.len() implies {
        &&& (#[trigger] proof.shares[i]).phase == LOCK_PHASE
        &&& proof.shares[i].hash == value.block.digest
        &&& proof.shares[i].height == proof.height
        &&& proof.shares[i].round == proof.round
    } by {
        assert(share_matches(proof.shares[i], value, proof));
    }
}

/// Two certificates that are in order share a signer: the members that
/// signed both hold more than a third of the stake. Where members that hold
/// less than a third of the stake are faulty, a correct member signed both; and
/// a correct member signs one vote per height.
pub proof fn law_certificates_share_a_signer(
    one: QCView,
    other: QCView,
    members: Seq<Authority>,
)
    requires
        qc_check(one, members).is_ok(),
        qc_check(other, members).is_ok(),
    ensures
        3 * stake_sum(crate::quorum::common(signers(one.votes), signers(other.votes)), members)
            > total_stake(members),
        exists|k: PublicKey|
            signers(one.votes).contains(k) && signers(other.votes).contains(k) && stake_of(
                members,
                k,
            ) > 0,
{
    lemma_faultless_voters(signers(one.votes), members);
    lemma_faultless_voters(signers(other.votes), members);
    crate::quorum::law_quorums_overlap(members, signers(one.votes), signers(other.votes));
}

/// Two proofs past the first phase that are in order for their values share
/// a voter: the members that voted for both hold more than a third of the
/// stake.
pub proof fn law_proofs_share_a_voter(
    one: SPBValueView,
    one_proof: SPBProofView,
    other: SPBValueView,
    other_proof: SPBProofView,
    members: Seq<Authority>,
)
    requires
        value_check(one, one_proof, members, true).is_ok(),
        value_check(other, other_proof, members, true).is_ok(),
        one_proof.phase > INIT_PHASE,
        other_proof.phase > INIT_PHASE,
    ensures
        3 * stake_sum(
            crate::quorum::common(voters(one_proof.shares), voters(other_proof.shares)),
            members,
        ) > total_stake(members),
        exists|k: PublicKey|
            voters(one_proof.shares).contains(k) && voters(other_proof.shares).contains(k)
                && stake_of(members, k) > 0,
{
    lemma_faultless_voters(voters(one_proof.shares), members);
    lemma_faultless_voters(voters(other_proof.shares), members);
    crate::quorum::law_quorums_overlap(
        members,
        voters(one_proof.shares),
        voters(other_proof.shares),
    );
}

} // verus!
