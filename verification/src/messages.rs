//! The values that replicas exchange, and their mathematical views.
//!
//! A value that holds a list has a view in which the list is a `Seq`; a value
//! made of plain fields is its own model.

use crate::types::{copy_vec, Digest, PublicKey, SeqNumber, Signature, SignatureShare, OPT};
use vstd::prelude::*;

verus! {

/// A signature together with the replica that made it.
#[derive(Clone, Copy, Debug)]
pub struct Signed {
    pub author: PublicKey,
    pub signature: Signature,
}

/// A quorum certificate: the votes of a quorum for one block.
#[derive(Debug)]
pub struct QC {
    pub hash: Digest,
    pub height: SeqNumber,
    pub epoch: SeqNumber,
    pub votes: Vec<Signed>,
}

pub struct QCView {
    pub hash: Digest,
    pub height: SeqNumber,
    pub epoch: SeqNumber,
    pub votes: Seq<Signed>,
}

impl View for QC {
    type V = QCView;

    open spec fn view(&self) -> QCView {
        QCView { hash: self.hash, height: self.height, epoch: self.epoch, votes: self.votes@ }
    }
}

impl Clone for QC {
    fn clone(&self) -> (r: Self)
        ensures
            r@ == self@,
    {
        QC {
            hash: self.hash,
            height: self.height,
            epoch: self.epoch,
            votes: copy_vec(&self.votes),
        }
    }
}

impl QCView {
    /// The certificate that stands before the first block: no votes, height 0.
    pub open spec fn genesis() -> QCView {
        QCView { hash: Digest::spec_zero(), height: 0, epoch: 0, votes: Seq::empty() }
    }

    /// Whether this certificate names the genesis block. Certificates are
    /// told apart by the block they certify, not by their votes.
    pub open spec fn is_genesis(self) -> bool {
        self.hash == Digest::spec_zero() && self.height == 0
    }
}

impl QC {
    /// The genesis certificate.
    pub fn genesis() -> (r: QC)
        ensures
            r@ == QCView::genesis(),
    {
        QC { hash: Digest::zero(), height: 0, epoch: 0, votes: Vec::new() }
    }

    /// Whether this certificate names the genesis block.
    pub fn is_genesis(&self) -> (r: bool)
        ensures
            r == self@.is_genesis(),
    {
        self.hash == Digest::zero() && self.height == 0
    }
}

/// A block of the chain.
#[derive(Debug)]
pub struct Block {
    /// Certificate of the parent block.
    pub qc: QC,
    pub author: PublicKey,
    pub height: SeqNumber,
    pub epoch: SeqNumber,
    /// Digests of the payload batches that the block orders.
    pub payload: Vec<Digest>,
    pub signature: Signature,
    /// The path that produced the block.
    pub tag: u8,
    /// The digest that names the block.
    pub digest: Digest,
}

pub struct BlockView {
    pub qc: QCView,
    pub author: PublicKey,
    pub height: SeqNumber,
    pub epoch: SeqNumber,
    pub payload: Seq<Digest>,
    pub signature: Signature,
    pub tag: u8,
    pub digest: Digest,
}

impl View for Block {
    type V = BlockView;

    open spec fn view(&self) -> BlockView {
        BlockView {
            qc: self.qc@,
            author: self.author,
            height: self.height,
            epoch: self.epoch,
            payload: self.payload@,
            signature: self.signature,
            tag: self.tag,
            digest: self.digest,
        }
    }
}

impl Clone for Block {
    fn clone(&self) -> (r: Self)
        ensures
            r@ == self@,
    {
        Block {
            qc: self.qc.clone(),
            author: self.author,
            height: self.height,
            epoch: self.epoch,
            payload: copy_vec(&self.payload),
            signature: self.signature,
            tag: self.tag,
            digest: self.digest,
        }
    }
}

impl BlockView {
    /// The block before the first: height 0, no author, no payload.
    pub open spec fn genesis() -> BlockView {
        BlockView {
            qc: QCView::genesis(),
            author: PublicKey { w0: 0, w1: 0, w2: 0, w3: 0 },
            height: 0,
            epoch: 0,
            payload: Seq::empty(),
            signature: Signature::spec_empty(),
            tag: OPT,
            digest: Digest::spec_zero(),
        }
    }

    /// A block as its author drafts it: the runtime still has to add the
    /// payload, the digest and the signature.
    pub open spec fn draft(
        qc: QCView,
        author: PublicKey,
        height: SeqNumber,
        epoch: SeqNumber,
        tag: u8,
    ) -> BlockView {
        BlockView {
            qc,
            author,
            height,
            epoch,
            payload: Seq::empty(),
            signature: Signature::spec_empty(),
            tag,
            digest: Digest::spec_zero(),
        }
    }

    /// The digest under which the parent is stored, or `None` when the parent
    /// is the genesis block, which is never stored.
    pub open spec fn parent(self) -> Option<Digest> {
        if self.qc.is_genesis() {
            None
        } else {
            Some(self.qc.hash)
        }
    }
}

impl Block {
    /// The genesis block.
    pub fn genesis() -> (r: Block)
        ensures
            r@ == BlockView::genesis(),
    {
        Block {
            qc: QC::genesis(),
            author: PublicKey { w0: 0, w1: 0, w2: 0, w3: 0 },
            height: 0,
            epoch: 0,
            payload: Vec::new(),
            signature: Signature::empty(),
            tag: OPT,
            digest: Digest::zero(),
        }
    }

    /// A block that extends `qc`, still without payload, digest and signature.
    pub fn draft(qc: QC, author: PublicKey, height: SeqNumber, epoch: SeqNumber, tag: u8) -> (r:
        Block)
        ensures
            r@ == BlockView::draft(qc@, author, height, epoch, tag),
    {
        Block {
            qc,
            author,
            height,
            epoch,
            payload: Vec::new(),
            signature: Signature::empty(),
            tag,
            digest: Digest::zero(),
        }
    }

    /// The digest under which the parent is stored, or `None` for a child of genesis.
    pub fn parent(&self) -> (r: Option<Digest>)
        ensures
            r == self@.parent(),
    {
        if self.qc.is_genesis() {
            None
        } else {
            Some(self.qc.hash)
        }
    }
}

/// A vote of the optimistic path for one block.
#[derive(Clone, Copy, Debug)]
pub struct HVote {
    pub hash: Digest,
    pub height: SeqNumber,
    pub epoch: SeqNumber,
    pub proposer: PublicKey,
    pub author: PublicKey,
    pub signature: Signature,
}

/// A vote for one phase of a provable broadcast.
#[derive(Clone, Copy, Debug)]
pub struct SPBVote {
    pub hash: Digest,
    pub phase: u8,
    pub height: SeqNumber,
    pub epoch: SeqNumber,
    pub round: SeqNumber,
    pub proposer: PublicKey,
    pub author: PublicKey,
    pub signature: Signature,
}

/// The value that a provable broadcast carries.
#[derive(Debug)]
pub struct SPBValue {
    pub block: Block,
    pub round: SeqNumber,
    pub phase: u8,
    /// The path that the broadcaster argues for.
    pub val: u8,
    /// The arbitration signatures that started the broadcast.
    pub signatures: Vec<Signed>,
}

pub struct SPBValueView {
    pub block: BlockView,
    pub round: SeqNumber,
    pub phase: u8,
    pub val: u8,
    pub signatures: Seq<Signed>,
}

impl View for SPBValue {
    type V = SPBValueView;

    open spec fn view(&self) -> SPBValueView {
        SPBValueView {
            block: self.block@,
            round: self.round,
            phase: self.phase,
            val: self.val,
            signatures: self.signatures@,
        }
    }
}

impl Clone for SPBValue {
    fn clone(&self) -> (r: Self)
        ensures
            r@ == self@,
    {
        SPBValue {
            block: self.block.clone(),
            round: self.round,
            phase: self.phase,
            val: self.val,
            signatures: copy_vec(&self.signatures),
        }
    }
}

impl SPBValueView {
    /// The same value at another phase.
    pub open spec fn at_phase(self, phase: u8) -> SPBValueView {
        SPBValueView { phase, ..self }
    }
}

/// The proof that lets a provable broadcast enter a phase: the votes of a
/// quorum for the phase before.
#[derive(Debug)]
pub struct SPBProof {
    pub height: SeqNumber,
    pub round: SeqNumber,
    pub phase: u8,
    pub shares: Vec<SPBVote>,
}

pub struct SPBProofView {
    pub height: SeqNumber,
    pub round: SeqNumber,
    pub phase: u8,
    pub shares: Seq<SPBVote>,
}

impl View for SPBProof {
    type V = SPBProofView;

    open spec fn view(&self) -> SPBProofView {
        SPBProofView {
            height: self.height,
            round: self.round,
            phase: self.phase,
            shares: self.shares@,
        }
    }
}

impl Clone for SPBProof {
    fn clone(&self) -> (r: Self)
        ensures
            r@ == self@,
    {
        SPBProof {
            height: self.height,
            round: self.round,
            phase: self.phase,
            shares: copy_vec(&self.shares),
        }
    }
}

impl SPBProofView {
    /// The proof that opens a broadcast: nothing to show yet.
    pub open spec fn initial(height: SeqNumber, round: SeqNumber) -> SPBProofView {
        SPBProofView { height, round, phase: crate::types::INIT_PHASE, shares: Seq::empty() }
    }
}

impl SPBProof {
    /// The proof that opens a broadcast.
    pub fn initial(height: SeqNumber, round: SeqNumber) -> (r: SPBProof)
        ensures
            r@ == SPBProofView::initial(height, round),
    {
        SPBProof { height, round, phase: crate::types::INIT_PHASE, shares: Vec::new() }
    }
}

/// A value of a provable broadcast with the proof of its phase.
#[derive(Debug)]
pub struct Broadcast {
    pub value: SPBValue,
    pub proof: SPBProof,
}

pub struct BroadcastView {
    pub value: SPBValueView,
    pub proof: SPBProofView,
}

impl View for Broadcast {
    type V = BroadcastView;

    open spec fn view(&self) -> BroadcastView {
        BroadcastView { value: self.value@, proof: self.proof@ }
    }
}

impl Clone for Broadcast {
    fn clone(&self) -> (r: Self)
        ensures
            r@ == self@,
    {
        Broadcast { value: self.value.clone(), proof: self.proof.clone() }
    }
}

/// The evidence inside an arbitration message.
#[derive(Debug)]
pub enum PrePareProof {
    /// The optimistic path got as far as this certificate.
    OPTProof(QC),
    /// The pessimistic path finished a broadcast with this proof.
    PESProof(SPBProof),
}

pub enum PrePareProofView {
    OPTProof(QCView),
    PESProof(SPBProofView),
}

impl View for PrePareProof {
    type V = PrePareProofView;

    open spec fn view(&self) -> PrePareProofView {
        match self {
            PrePareProof::OPTProof(qc) => PrePareProofView::OPTProof(qc@),
            PrePareProof::PESProof(p) => PrePareProofView::PESProof(p@),
        }
    }
}

impl Clone for PrePareProof {
    fn clone(&self) -> (r: Self)
        ensures
            r@ == self@,
    {
        match self {
            PrePareProof::OPTProof(qc) => PrePareProof::OPTProof(qc.clone()),
            PrePareProof::PESProof(p) => PrePareProof::PESProof(p.clone()),
        }
    }
}

/// An arbitration message: its author's choice of path for one height.
#[derive(Debug)]
pub struct PrePare {
    pub author: PublicKey,
    pub epoch: SeqNumber,
    pub height: SeqNumber,
    pub proof: PrePareProof,
    pub val: u8,
    pub signature: Signature,
}

pub struct PrePareView {
    pub author: PublicKey,
    pub epoch: SeqNumber,
    pub height: SeqNumber,
    pub proof: PrePareProofView,
    pub val: u8,
    pub signature: Signature,
}

impl View for PrePare {
    type V = PrePareView;

    open spec fn view(&self) -> PrePareView {
        PrePareView {
            author: self.author,
            epoch: self.epoch,
            height: self.height,
            proof: self.proof@,
            val: self.val,
            signature: self.signature,
        }
    }
}

impl Clone for PrePare {
    fn clone(&self) -> (r: Self)
        ensures
            r@ == self@,
    {
        PrePare {
            author: self.author,
            epoch: self.epoch,
            height: self.height,
            proof: self.proof.clone(),
            val: self.val,
            signature: self.signature,
        }
    }
}

/// A share of the common coin of one round.
#[derive(Clone, Copy, Debug)]
pub struct RandomnessShare {
    pub height: SeqNumber,
    pub epoch: SeqNumber,
    pub round: SeqNumber,
    pub author: PublicKey,
    pub signature_share: SignatureShare,
}

/// The common coin of one round, once revealed.
#[derive(Debug)]
pub struct RandomCoin {
    pub height: SeqNumber,
    pub epoch: SeqNumber,
    pub round: SeqNumber,
    pub leader: PublicKey,
    pub shares: Vec<RandomnessShare>,
}

pub struct RandomCoinView {
    pub height: SeqNumber,
    pub epoch: SeqNumber,
    pub round: SeqNumber,
    pub leader: PublicKey,
    pub shares: Seq<RandomnessShare>,
}

impl View for RandomCoin {
    type V = RandomCoinView;

    open spec fn view(&self) -> RandomCoinView {
        RandomCoinView {
            height: self.height,
            epoch: self.epoch,
            round: self.round,
            leader: self.leader,
            shares: self.shares@,
        }
    }
}

impl Clone for RandomCoin {
    fn clone(&self) -> (r: Self)
        ensures
            r@ == self@,
    {
        RandomCoin {
            height: self.height,
            epoch: self.epoch,
            round: self.round,
            leader: self.leader,
            shares: copy_vec(&self.shares),
        }
    }
}

/// The announcement that its author is done with the broadcasts of a round.
/// It goes out together with the author's share of the round's coin.
#[derive(Clone, Copy, Debug)]
pub struct MDoneAndShare {
    pub author: PublicKey,
    pub epoch: SeqNumber,
    pub height: SeqNumber,
    pub round: SeqNumber,
    pub signature: Signature,
}

/// What a pre-vote says about the elected leader's broadcast.
#[derive(Debug)]
pub enum PreVoteTag {
    /// The author holds the leader's locked value, with its proof.
    Yes(SPBValue, SPBProof),
    /// The author holds nothing of the leader.
    No,
}

pub enum PreVoteTagView {
    Yes(SPBValueView, SPBProofView),
    No,
}

impl View for PreVoteTag {
    type V = PreVoteTagView;

    open spec fn view(&self) -> PreVoteTagView {
        match self {
            PreVoteTag::Yes(v, p) => PreVoteTagView::Yes(v@, p@),
            PreVoteTag::No => PreVoteTagView::No,
        }
    }
}

impl Clone for PreVoteTag {
    fn clone(&self) -> (r: Self)
        ensures
            r@ == self@,
    {
        match self {
            PreVoteTag::Yes(v, p) => PreVoteTag::Yes(v.clone(), p.clone()),
            PreVoteTag::No => PreVoteTag::No,
        }
    }
}

/// A pre-vote of the agreement.
#[derive(Debug)]
pub struct MPreVote {
    pub author: PublicKey,
    pub leader: PublicKey,
    pub round: SeqNumber,
    pub height: SeqNumber,
    pub epoch: SeqNumber,
    pub tag: PreVoteTag,
    pub signature: Signature,
}

pub struct MPreVoteView {
    pub author: PublicKey,
    pub leader: PublicKey,
    pub round: SeqNumber,
    pub height: SeqNumber,
    pub epoch: SeqNumber,
    pub tag: PreVoteTagView,
    pub signature: Signature,
}

impl View for MPreVote {
    type V = MPreVoteView;

    open spec fn view(&self) -> MPreVoteView {
        MPreVoteView {
            author: self.author,
            leader: self.leader,
            round: self.round,
            height: self.height,
            epoch: self.epoch,
            tag: self.tag@,
            signature: self.signature,
        }
    }
}

impl Clone for MPreVote {
    fn clone(&self) -> (r: Self)
        ensures
            r@ == self@,
    {
        MPreVote {
            author: self.author,
            leader: self.leader,
            round: self.round,
            height: self.height,
            epoch: self.epoch,
            tag: self.tag.clone(),
            signature: self.signature,
        }
    }
}

/// What a vote says about the elected leader's broadcast.
#[derive(Debug)]
pub enum MVoteTag {
    /// The leader's locked value, its proof, and the author's vote for it.
    Yes(SPBValue, SPBProof, SPBVote),
    /// A quorum holds nothing of the leader.
    No,
}

pub enum MVoteTagView {
    Yes(SPBValueView, SPBProofView, SPBVote),
    No,
}

impl View for MVoteTag {
    type V = MVoteTagView;

    open spec fn view(&self) -> MVoteTagView {
        match self {
            MVoteTag::Yes(v, p, s) => MVoteTagView::Yes(v@, p@, *s),
            MVoteTag::No => MVoteTagView::No,
        }
    }
}

impl Clone for MVoteTag {
    fn clone(&self) -> (r: Self)
        ensures
            r@ == self@,
    {
        match self {
            MVoteTag::Yes(v, p, s) => MVoteTag::Yes(v.clone(), p.clone(), *s),
            MVoteTag::No => MVoteTag::No,
        }
    }
}

/// A vote of the agreement.
#[derive(Debug)]
pub struct MVote {
    pub author: PublicKey,
    pub leader: PublicKey,
    pub round: SeqNumber,
    pub height: SeqNumber,
    pub epoch: SeqNumber,
    pub tag: MVoteTag,
    pub signature: Signature,
}

pub struct MVoteView {
    pub author: PublicKey,
    pub leader: PublicKey,
    pub round: SeqNumber,
    pub height: SeqNumber,
    pub epoch: SeqNumber,
    pub tag: MVoteTagView,
    pub signature: Signature,
}

impl View for MVote {
    type V = MVoteView;

    open spec fn view(&self) -> MVoteView {
        MVoteView {
            author: self.author,
            leader: self.leader,
            round: self.round,
            height: self.height,
            epoch: self.epoch,
            tag: self.tag@,
            signature: self.signature,
        }
    }
}

impl Clone for MVote {
    fn clone(&self) -> (r: Self)
        ensures
            r@ == self@,
    {
        MVote {
            author: self.author,
            leader: self.leader,
            round: self.round,
            height: self.height,
            epoch: self.epoch,
            tag: self.tag.clone(),
            signature: self.signature,
        }
    }
}

/// The message that ends the agreement of a height: the elected leader's
/// finished value with its proof.
#[derive(Debug)]
pub struct MHalt {
    pub author: PublicKey,
    pub leader: PublicKey,
    pub value: SPBValue,
    pub proof: SPBProof,
    pub epoch: SeqNumber,
    pub height: SeqNumber,
    pub round: SeqNumber,
    pub signature: Signature,
}

pub struct MHaltView {
    pub author: PublicKey,
    pub leader: PublicKey,
    pub value: SPBValueView,
    pub proof: SPBProofView,
    pub epoch: SeqNumber,
    pub height: SeqNumber,
    pub round: SeqNumber,
    pub signature: Signature,
}

impl View for MHalt {
    type V = MHaltView;

    open spec fn view(&self) -> MHaltView {
        MHaltView {
            author: self.author,
            leader: self.leader,
            value: self.value@,
            proof: self.proof@,
            epoch: self.epoch,
            height: self.height,
            round: self.round,
            signature: self.signature,
        }
    }
}

impl Clone for MHalt {
    fn clone(&self) -> (r: Self)
        ensures
            r@ == self@,
    {
        MHalt {
            author: self.author,
            leader: self.leader,
            value: self.value.clone(),
            proof: self.proof.clone(),
            epoch: self.epoch,
            height: self.height,
            round: self.round,
            signature: self.signature,
        }
    }
}

/// Every message of the protocol.
#[derive(Debug)]
pub enum ConsensusMessage {
    HsPropose(Block),
    HSVote(HVote),
    HsLoopBack(Block),
    SyncRequest(Digest, PublicKey),
    SyncReply(Block),
    SPBPropose(SPBValue, SPBProof),
    SPBVote(SPBVote),
    SPBFinish(SPBValue, SPBProof),
    SPBDoneAndShare(MDoneAndShare),
    SMVBAPreVote(MPreVote),
    SMVBAVote(MVote),
    SMVBACoinShare(RandomnessShare),
    SMVBAHalt(MHalt),
    ParPrePare(PrePare),
    ParLoopBack(Block),
}

pub enum ConsensusMessageView {
    HsPropose(BlockView),
    HSVote(HVote),
    HsLoopBack(BlockView),
    SyncRequest(Digest, PublicKey),
    SyncReply(BlockView),
    SPBPropose(SPBValueView, SPBProofView),
    SPBVote(SPBVote),
    SPBFinish(SPBValueView, SPBProofView),
    SPBDoneAndShare(MDoneAndShare),
    SMVBAPreVote(MPreVoteView),
    SMVBAVote(MVoteView),
    SMVBACoinShare(RandomnessShare),
    SMVBAHalt(MHaltView),
    ParPrePare(PrePareView),
    ParLoopBack(BlockView),
}

impl View for ConsensusMessage {
    type V = ConsensusMessageView;

    open spec fn view(&self) -> ConsensusMessageView {
        match self {
            ConsensusMessage::HsPropose(b) => ConsensusMessageView::HsPropose(b@),
            ConsensusMessage::HSVote(v) => ConsensusMessageView::HSVote(*v),
            ConsensusMessage::HsLoopBack(b) => ConsensusMessageView::HsLoopBack(b@),
            ConsensusMessage::SyncRequest(d, k) => ConsensusMessageView::SyncRequest(*d, *k),
            ConsensusMessage::SyncReply(b) => ConsensusMessageView::SyncReply(b@),
            ConsensusMessage::SPBPropose(v, p) => ConsensusMessageView::SPBPropose(v@, p@),
            ConsensusMessage::SPBVote(v) => ConsensusMessageView::SPBVote(*v),
            ConsensusMessage::SPBFinish(v, p) => ConsensusMessageView::SPBFinish(v@, p@),
            ConsensusMessage::SPBDoneAndShare(d) => ConsensusMessageView::SPBDoneAndShare(*d),
            ConsensusMessage::SMVBAPreVote(v) => ConsensusMessageView::SMVBAPreVote(v@),
            ConsensusMessage::SMVBAVote(v) => ConsensusMessageView::SMVBAVote(v@),
            ConsensusMessage::SMVBACoinShare(s) => ConsensusMessageView::SMVBACoinShare(*s),
            ConsensusMessage::SMVBAHalt(h) => ConsensusMessageView::SMVBAHalt(h@),
            ConsensusMessage::ParPrePare(p) => ConsensusMessageView::ParPrePare(p@),
            ConsensusMessage::ParLoopBack(b) => ConsensusMessageView::ParLoopBack(b@),
        }
    }
}

impl Clone for ConsensusMessage {
    fn clone(&self) -> (r: Self)
        ensures
            r@ == self@,
    {
        match self {
            ConsensusMessage::HsPropose(b) => ConsensusMessage::HsPropose(b.clone()),
            ConsensusMessage::HSVote(v) => ConsensusMessage::HSVote(*v),
            ConsensusMessage::HsLoopBack(b) => ConsensusMessage::HsLoopBack(b.clone()),
            ConsensusMessage::SyncRequest(d, k) => ConsensusMessage::SyncRequest(*d, *k),
            ConsensusMessage::SyncReply(b) => ConsensusMessage::SyncReply(b.clone()),
            ConsensusMessage::SPBPropose(v, p) => ConsensusMessage::SPBPropose(
                v.clone(),
                p.clone(),
            ),
            ConsensusMessage::SPBVote(v) => ConsensusMessage::SPBVote(*v),
            ConsensusMessage::SPBFinish(v, p) => ConsensusMessage::SPBFinish(v.clone(), p.clone()),
            ConsensusMessage::SPBDoneAndShare(d) => ConsensusMessage::SPBDoneAndShare(*d),
            ConsensusMessage::SMVBAPreVote(v) => ConsensusMessage::SMVBAPreVote(v.clone()),
            ConsensusMessage::SMVBAVote(v) => ConsensusMessage::SMVBAVote(v.clone()),
            ConsensusMessage::SMVBACoinShare(s) => ConsensusMessage::SMVBACoinShare(*s),
            ConsensusMessage::SMVBAHalt(h) => ConsensusMessage::SMVBAHalt(h.clone()),
            ConsensusMessage::ParPrePare(p) => ConsensusMessage::ParPrePare(p.clone()),
            ConsensusMessage::ParLoopBack(b) => ConsensusMessage::ParLoopBack(b.clone()),
        }
    }
}

impl ConsensusMessageView {
    /// The epoch that the message belongs to; a request for a block belongs
    /// to none.
    pub open spec fn epoch(self) -> Option<SeqNumber> {
        match self {
            ConsensusMessageView::HsPropose(b) => Some(b.epoch),
            ConsensusMessageView::HSVote(v) => Some(v.epoch),
            ConsensusMessageView::HsLoopBack(b) => Some(b.epoch),
            ConsensusMessageView::SyncRequest(_, _) => None,
            ConsensusMessageView::SyncReply(b) => Some(b.epoch),
            ConsensusMessageView::SPBPropose(v, _) => Some(v.block.epoch),
            ConsensusMessageView::SPBVote(v) => Some(v.epoch),
            ConsensusMessageView::SPBFinish(v, _) => Some(v.block.epoch),
            ConsensusMessageView::SPBDoneAndShare(d) => Some(d.epoch),
            ConsensusMessageView::SMVBAPreVote(pv) => Some(pv.epoch),
            ConsensusMessageView::SMVBAVote(mv) => Some(mv.epoch),
            ConsensusMessageView::SMVBACoinShare(share) => Some(share.epoch),
            ConsensusMessageView::SMVBAHalt(h) => Some(h.epoch),
            ConsensusMessageView::ParPrePare(p) => Some(p.epoch),
            ConsensusMessageView::ParLoopBack(b) => Some(b.epoch),
        }
    }

    /// The path whose queue and whose network lane the message belongs to.
    pub open spec fn path(self) -> u8 {
        match self {
            ConsensusMessageView::HsPropose(_) => OPT,
            ConsensusMessageView::HSVote(_) => OPT,
            ConsensusMessageView::HsLoopBack(_) => OPT,
            ConsensusMessageView::SyncRequest(_, _) => OPT,
            ConsensusMessageView::SyncReply(_) => OPT,
            _ => crate::types::PES,
        }
    }
}

impl ConsensusMessage {
    /// The epoch that the message belongs to.
    pub fn epoch(&self) -> (r: Option<SeqNumber>)
        ensures
            r == self@.epoch(),
    {
        match self {
            ConsensusMessage::HsPropose(b) => Some(b.epoch),
            ConsensusMessage::HSVote(v) => Some(v.epoch),
            ConsensusMessage::HsLoopBack(b) => Some(b.epoch),
            ConsensusMessage::SyncRequest(_, _) => None,
            ConsensusMessage::SyncReply(b) => Some(b.epoch),
            ConsensusMessage::SPBPropose(v, _) => Some(v.block.epoch),
            ConsensusMessage::SPBVote(v) => Some(v.epoch),
            ConsensusMessage::SPBFinish(v, _) => Some(v.block.epoch),
            ConsensusMessage::SPBDoneAndShare(d) => Some(d.epoch),
            ConsensusMessage::SMVBAPreVote(pv) => Some(pv.epoch),
            ConsensusMessage::SMVBAVote(mv) => Some(mv.epoch),
            ConsensusMessage::SMVBACoinShare(share) => Some(share.epoch),
            ConsensusMessage::SMVBAHalt(h) => Some(h.epoch),
            ConsensusMessage::ParPrePare(p) => Some(p.epoch),
            ConsensusMessage::ParLoopBack(b) => Some(b.epoch),
        }
    }

    /// The path whose queue and whose network lane the message belongs to.
    pub fn path(&self) -> (r: u8)
        ensures
            r == self@.path(),
    {
        match self {
            ConsensusMessage::HsPropose(_) => OPT,
            ConsensusMessage::HSVote(_) => OPT,
            ConsensusMessage::HsLoopBack(_) => OPT,
            ConsensusMessage::SyncRequest(_, _) => OPT,
            ConsensusMessage::SyncReply(_) => OPT,
            _ => crate::types::PES,
        }
    }
}

} // verus!
