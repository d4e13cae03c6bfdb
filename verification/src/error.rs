//! The ways in which handling an input can fail.

use crate::types::{Digest, PublicKey, SeqNumber};
use vstd::prelude::*;

verus! {

/// Why an input was not, or not fully, applied.
///
/// No error is fatal. `EpochEnd` tells the runtime to move on to the next
/// epoch; `TimeOutMessage` marks a stale message; every other error means that
/// the message was dropped and the state left as it was.
#[derive(Clone, Copy, PartialEq, Eq, Structural, Debug)]
pub enum ConsensusError {
    /// The given epoch is over.
    EpochEnd(SeqNumber),
    /// A send to the network failed.
    NetworkError,
    /// Stored bytes could not be decoded.
    SerializationError,
    /// The store failed.
    StoreError,
    /// The named replica is not a member of the committee.
    NotInCommittee(PublicKey),
    /// The phases of a broadcast value and of its proof do not go together.
    SPBPhaseWrong(u8, u8),
    /// A proof that should show a finished broadcast does not.
    InvalidFinProof,
    /// An author's signature does not verify.
    InvalidSignature,
    /// A threshold-signature share of the named replica does not verify.
    InvalidThresholdSignature(PublicKey),
    /// An arbitration message names neither path.
    InvalidPrePareTag(u8),
    /// An arbitration message for the given height carries a proof of the wrong kind.
    InvalidPreParePESQC(SeqNumber),
    /// A message for the given height and round came too late.
    TimeOutMessage(SeqNumber, SeqNumber),
    /// A coin names a leader other than the one its shares elect.
    RandomCoinWithWrongLeader,
    /// The shares of a coin do not combine.
    RandomCoinWithWrongShares,
    /// Two votes of one replica in a quorum certificate.
    AuthorityReuseinQC(PublicKey),
    /// Two votes of one replica for a finishing proof.
    AuthorityReuseinProof(PublicKey),
    /// Two arbitration messages of one replica for one height.
    AuthorityReuseinPrePare(PublicKey),
    /// Two timeouts of one replica.
    AuthorityReuseinTC(PublicKey),
    /// Two coin shares of one replica for one round.
    AuthorityReuseinCoin(PublicKey),
    /// Two broadcast votes of one replica for one phase.
    AuthorityReuseinSPB(PublicKey),
    /// A vote of a replica without voting power.
    UnknownAuthority(PublicKey),
    /// A quorum certificate without a quorum.
    QCRequiresQuorum,
    /// A timeout certificate without a quorum.
    TCRequiresQuorum,
    /// A coin with too few shares.
    RandomCoinRequiresQuorum,
    /// A broadcast proof without a quorum.
    SPBRequiresQuorum,
    /// A block that is not well formed.
    MalformedBlock(Digest),
    /// A block whose author does not lead its height.
    WrongLeader { digest: Digest, leader: PublicKey, round: SeqNumber },
    /// A payload that is not available.
    InvalidPayload,
    /// A chain of three blocks whose heights do not follow each other.
    NonConsecutiveRounds { rd1: SeqNumber, rd2: SeqNumber, rd3: SeqNumber },
}

/// What the main loop does with the result of a handler.
#[derive(Clone, Copy, PartialEq, Eq, Structural, Debug)]
pub enum Disposition {
    /// Nothing to report: go on with the next input.
    Continue,
    /// Go on; the failure is worth a warning.
    Warn,
    /// Go on; the failure suggests a corrupted store.
    StoreCorrupted,
    /// Leave the loop: the epoch is over.
    EndEpoch(SeqNumber),
}

impl ConsensusError {
    /// How the main loop reacts to this error.
    pub open spec fn spec_disposition(self) -> Disposition {
        match self {
            ConsensusError::EpochEnd(e) => Disposition::EndEpoch(e),
            ConsensusError::SerializationError => Disposition::StoreCorrupted,
            ConsensusError::TimeOutMessage(_, _) => Disposition::Continue,
            _ => Disposition::Warn,
        }
    }

    /// How the main loop reacts to this error.
    pub fn disposition(&self) -> (r: Disposition)
        ensures
            r == self.spec_disposition(),
    {
        match self {
            ConsensusError::EpochEnd(e) => Disposition::EndEpoch(*e),
            ConsensusError::SerializationError => Disposition::StoreCorrupted,
            ConsensusError::TimeOutMessage(_, _) => Disposition::Continue,
            _ => Disposition::Warn,
        }
    }
}

} // verus!
