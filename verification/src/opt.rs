//! The optimistic path: chained proposals, votes, certificates, and the
//! 2-chain commit rule.

use crate::error::ConsensusError;
use crate::leader::leader_of;
use crate::messages::{
    Block, BlockView, ConsensusMessage, ConsensusMessageView, HVote, PrePare, PrePareProof,
    PrePareProofView, PrePareView, QCView, QC,
};
use crate::state::{
    no_actions, push_action, Action, ActionView, Core, CoreView, Deferred, DeferredView,
    HeightView, Output, OutputView, Step,
};
use crate::types::{seq_view, Digest, PublicKey, SeqNumber, Signature, OPT};
use crate::validation::block_check;
use crate::validation::vote_check;
use vstd::prelude::*;

verus! {

/// Whether `parent` is the block that `child` extends: the genesis block for
/// a child that carries the genesis certificate, else the block that the
/// child's certificate names.
pub open spec fn extends(child: BlockView, parent: BlockView) -> bool {
    if child.qc.is_genesis() {
        parent.height == 0 && parent.digest == Digest::spec_zero()
    } else {
        parent.digest == child.qc.hash
    }
}

/// Whether `ancestors` begins with the parent and the grandparent of `block`.
pub open spec fn has_ancestors(block: BlockView, ancestors: Seq<BlockView>) -> bool {
    &&& ancestors.len() >= 2
    &&& extends(block, ancestors[0])
    &&& extends(ancestors[0], ancestors[1])
}

/// Whether the heights of a block, its parent `b1` and its grandparent `b0`
/// follow each other.
pub open spec fn consecutive(b0: BlockView, b1: BlockView, block: BlockView) -> bool {
    b0.height + 1 == b1.height && b1.height + 1 == block.height
}

/// Whether the ancestor at position `k` is to be committed, where position
/// 0 holds the parent of the block that is processed, position 1 its
/// grandparent, and so on: the ancestor lies above `floor` and, past the
/// grandparent, is the parent of the one before, at a lower height.
pub open spec fn committable(ancestors: Seq<BlockView>, k: int, floor: SeqNumber) -> bool {
    &&& 1 <= k < ancestors.len()
    &&& ancestors[k].height > floor
    &&& (k > 1 ==> extends(ancestors[k - 1], ancestors[k]) && ancestors[k].height < ancestors[k
        - 1].height)
}

/// The first position from `k` on that is not to be committed.
pub open spec fn commit_end(ancestors: Seq<BlockView>, k: int, floor: SeqNumber) -> int
    decreases ancestors.len() - k,
{
    if committable(ancestors, k, floor) {
        commit_end(ancestors, k + 1, floor)
    } else {
        k
    }
}

/// The commits that the ancestors of a block give rise to: the grandparent
/// last, and before it each of its ancestors down to the first that is
/// committed already or does not fit the chain. The lowest height comes first.
pub open spec fn commits_of(ancestors: Seq<BlockView>, floor: SeqNumber) -> Seq<ActionView> {
    let end = commit_end(ancestors, 1, floor);
    Seq::new((end - 1) as nat, |i: int| ActionView::Commit(ancestors[end - 1 - i]))
}

/// Whether more ancestors are wanted to process a block: fewer than the
/// parent and the grandparent are at hand, or the last one at hand lies above
/// `floor`, so that its parent may have to be committed too.
pub open spec fn wants_more(ancestors: Seq<BlockView>, floor: SeqNumber) -> bool {
    ancestors.len() < 2 || ancestors.last().height > floor
}

/// The vote of `author` for `block`, still to be signed.
pub open spec fn vote_draft(block: BlockView, author: PublicKey) -> HVote {
    HVote {
        hash: block.digest,
        height: block.height,
        epoch: block.epoch,
        proposer: block.author,
        author,
        signature: Signature::spec_empty(),
    }
}

/// The arbitration message of `author`, still to be signed.
pub open spec fn prepare_draft(
    author: PublicKey,
    epoch: SeqNumber,
    height: SeqNumber,
    proof: PrePareProofView,
    val: u8,
) -> PrePareView {
    PrePareView { author, epoch, height, proof, val, signature: Signature::spec_empty() }
}

impl CoreView {
    /// This state after entering the height that follows `height`, if we
    /// were not past it: votes for earlier heights are forgotten.
    pub open spec fn advanced(self, height: SeqNumber) -> CoreView {
        if height < self.height || height == u64::MAX {
            self
        } else {
            CoreView {
                height: (height + 1) as u64,
                aggregator: self.aggregator.without_hs((self.height - 1) as u64),
                ..self
            }
        }
    }

    /// This state with `qc` as highest certificate, if it is higher.
    pub open spec fn with_high_qc(self, qc: QCView) -> CoreView {
        if qc.height > self.high_qc.height {
            CoreView { high_qc: qc, ..self }
        } else {
            self
        }
    }

    /// This state after processing a certificate.
    pub open spec fn after_qc(self, qc: QCView) -> CoreView {
        self.advanced(qc.height).with_high_qc(qc)
    }

    /// The proposal for our height on the optimistic path, if we lead it.
    pub open spec fn own_proposal(self) -> Seq<ActionView> {
        if self.name == leader_of(self.members, self.height) {
            seq![
                ActionView::ProposeOpt(
                    BlockView::draft(self.high_qc, self.name, self.height, self.epoch, OPT),
                ),
            ]
        } else {
            Seq::empty()
        }
    }

    /// This state once our arbitration message for `height` is out.
    pub open spec fn prepared(self, height: SeqNumber) -> CoreView {
        if self.at(height).prepare_sent {
            self
        } else {
            self.with_at(height, HeightView { prepare_sent: true, ..self.at(height) })
        }
    }

    /// Our arbitration message for `height`, unless it is out already.
    pub open spec fn prepare_action(self, height: SeqNumber, proof: PrePareProofView, val: u8) -> Seq<
        ActionView,
    > {
        if self.at(height).prepare_sent {
            Seq::empty()
        } else {
            seq![
                ActionView::Send {
                    message: ConsensusMessageView::ParPrePare(
                        prepare_draft(self.name, self.epoch, height, proof, val),
                    ),
                    to: None,
                },
            ]
        }
    }

    /// A proposal of the optimistic path arrives from the network.
    ///
    /// One of an earlier epoch is ignored; one of a later epoch is set aside
    /// and ends the epoch. Else the author must lead the block's height and
    /// the block must be in order; its certificate is then processed and the
    /// mempool asked for its payload.
    pub open spec fn opt_proposal(self, block: BlockView, signatures_ok: bool) -> Step {
        if block.epoch < self.epoch {
            self.idle()
        } else if block.epoch > self.epoch {
            Step {
                state: CoreView {
                    deferred: self.deferred.push(
                        DeferredView {
                            epoch: block.epoch,
                            message: ConsensusMessageView::HsPropose(block),
                        },
                    ),
                    ..self
                },
                output: OutputView::refused(ConsensusError::EpochEnd(self.epoch)),
            }
        } else if block.author != leader_of(self.members, block.height) {
            self.refuse(
                ConsensusError::WrongLeader {
                    digest: block.digest,
                    leader: block.author,
                    round: block.height,
                },
            )
        } else if block_check(block, self.members, signatures_ok).is_err() {
            self.refuse(block_check(block, self.members, signatures_ok)->Err_0)
        } else {
            self.after_qc(block.qc).taken(seq![ActionView::VerifyPayload(block, OPT)])
        }
    }

    /// A vote of the optimistic path arrives.
    ///
    /// One for an earlier height or another epoch is ignored. Else it must
    /// be in order and its author's first for the height. When it completes
    /// a quorum, the certificate is processed and, if we lead the height
    /// that follows, we propose.
    pub open spec fn opt_vote(self, vote: HVote, signatures_ok: bool) -> Step {
        if vote.height < self.height || self.epoch != vote.epoch {
            self.idle()
        } else if vote_check(vote.author, self.members, signatures_ok).is_err() {
            self.refuse(vote_check(vote.author, self.members, signatures_ok)->Err_0)
        } else {
            let counted = CoreView { aggregator: self.aggregator.after_hs(vote), ..self };
            match self.aggregator.hs_result(vote, self.members) {
                Err(e) => self.refuse(e),
                Ok(None) => counted.idle(),
                Ok(Some(qc)) => {
                    let next = counted.after_qc(qc);
                    next.taken(next.own_proposal())
                },
            }
        }
    }

    /// A block is processed: one that the mempool handed back, or our own
    /// proposal. `ancestors` are the stored ancestors of the block, the
    /// parent first.
    ///
    /// A block of another epoch is passed over. Without parent and
    /// grandparent the block waits. Heights that do not follow each other
    /// refuse a block that does not extend genesis. Else, with the
    /// pessimistic path on, our arbitration message for the block's height
    /// goes out if that height is above 2, and what is held per round for
    /// the heights up to two below ours is dropped; the block is stored; where the heights follow each
    /// other, the grandparent and its uncommitted ancestors are committed,
    /// lowest first; and a block of our height that is higher than our last
    /// vote and extends its certificate by one gets our vote.
    pub open spec fn opt_block(self, block: BlockView, ancestors: Seq<BlockView>) -> Step {
        if block.epoch != self.epoch || !has_ancestors(block, ancestors) {
            self.idle()
        } else if !(consecutive(ancestors[1], ancestors[0], block) || block.qc.is_genesis()) {
            self.refuse(
                ConsensusError::NonConsecutiveRounds {
                    rd1: ancestors[1].height,
                    rd2: ancestors[0].height,
                    rd3: block.height,
                },
            )
        } else {
            let s1 = if self.pes_path && block.height > 2 {
                self.prepared(block.height)
            } else {
                self
            };
            let a1 = if self.pes_path && block.height > 2 {
                self.prepare_action(block.height, PrePareProofView::OPTProof(block.qc), OPT)
            } else {
                Seq::empty()
            };
            let s2 = if self.pes_path && self.height > 2 {
                s1.cleaned((self.height - 2) as u64)
            } else {
                s1
            };
            let a2 = a1.push(ActionView::Store(block));
            let commits = consecutive(ancestors[1], ancestors[0], block) && ancestors[1].height
                > self.last_committed_height;
            let s3 = if commits {
                CoreView { last_committed_height: ancestors[1].height, ..s2 }
            } else {
                s2
            };
            let a3 = if commits {
                a2 + commits_of(ancestors, self.last_committed_height)
            } else {
                a2
            };
            if block.height == self.height && block.height > self.last_voted_height
                && block.qc.height + 1 == block.height {
                CoreView { last_voted_height: block.height, ..s3 }.taken(
                    a3.push(
                        ActionView::Send {
                            message: ConsensusMessageView::HSVote(vote_draft(block, self.name)),
                            to: Some(block.author),
                        },
                    ),
                )
            } else {
                s3.taken(a3)
            }
        }
    }

    /// Our own proposal of the optimistic path comes back: it is processed
    /// as a block, and a pause follows unless pauses belong to the
    /// pessimistic path.
    pub open spec fn own_opt_proposal(self, block: BlockView, ancestors: Seq<BlockView>) -> Step {
        let step = self.opt_block(block, ancestors);
        if step.output.result.is_ok() && !self.parameters.ddos {
            Step {
                state: step.state,
                output: OutputView {
                    actions: step.output.actions.push(
                        ActionView::Delay(self.parameters.min_block_delay),
                    ),
                    result: step.output.result,
                },
            }
        } else {
            step
        }
    }
}

impl Block {
    /// Whether `parent` is the block that this block extends.
    pub fn extends(&self, parent: &Block) -> (r: bool)
        ensures
            r == extends(self@, parent@),
    {
        if self.qc.is_genesis() {
            parent.height == 0 && parent.digest == Digest::zero()
        } else {
            parent.digest == self.qc.hash
        }
    }
}

impl Core {
    /// Whether the runtime should read one more ancestor from the store
    /// before it hands a block over: `ancestors` are those read so far, the
    /// parent first.
    pub fn wants_ancestor(&self, ancestors: &Vec<Block>) -> (r: bool)
        ensures
            r == wants_more(seq_view(ancestors@), self@.last_committed_height),
    {
        ancestors.len() < 2 || ancestors[ancestors.len() - 1].height > self.last_committed_height
    }

    /// Enters the height that follows `height`, unless we are past it.
    pub fn advance_height(&mut self, height: SeqNumber)
        requires
            old(self).wf(),
        ensures
            final(self).wf(),
            final(self)@ == old(self)@.advanced(height),
    {
        if height < self.height || height == u64::MAX {
            return ;
        }
        self.aggregator.cleanup_hs_vote(self.height - 1);
        self.height = height + 1;
    }

    /// Keeps `qc` as highest certificate if it is higher than the one we have.
    pub fn update_high_qc(&mut self, qc: &QC)
        requires
            old(self).wf(),
        ensures
            final(self).wf(),
            final(self)@ == old(self)@.with_high_qc(qc@),
    {
        if qc.height > self.high_qc.height {
            self.high_qc = qc.clone();
        }
    }

    /// Processes a certificate: it may let us enter a height, and may
    /// become our highest.
    pub fn process_qc(&mut self, qc: &QC)
        requires
            old(self).wf(),
        ensures
            final(self).wf(),
            final(self)@ == old(self)@.after_qc(qc@),
    {
        self.advance_height(qc.height);
        self.update_high_qc(qc);
    }

    /// A draft of the block that extends `qc` at `height`, by us.
    pub fn generate_proposal(&self, height: SeqNumber, qc: Option<QC>, tag: u8) -> (r: Block)
        ensures
            r@ == BlockView::draft(
                (match qc {
                    Some(q) => q@,
                    None => QCView::genesis(),
                }),
                self@.name,
                height,
                self@.epoch,
                tag,
            ),
    {
        let parent = match qc {
            Some(q) => q,
            None => QC::genesis(),
        };
        Block::draft(parent, self.name, height, self.epoch, tag)
    }

    /// Our proposal for our height on the optimistic path, if we lead it.
    pub fn propose_if_leader(&self) -> (r: Vec<Action>)
        requires
            self.wf(),
        ensures
            seq_view(r@) == self@.own_proposal(),
    {
        let mut actions = no_actions();
        if self.name == self.leader_elector.get_leader(self.height) {
            let block = self.generate_proposal(self.height, Some(self.high_qc.clone()), OPT);
            push_action(&mut actions, Action::ProposeOpt(block));
        }
        assert(seq_view(actions@) =~= self@.own_proposal());
        actions
    }

    /// Sends our arbitration message for `height`, unless it is out.
    pub fn active_prepare_pahse(
        &mut self,
        height: SeqNumber,
        proof: PrePareProof,
        val: u8,
        actions: &mut Vec<Action>,
    )
        requires
            old(self).wf(),
        ensures
            final(self).wf(),
            final(self)@ == old(self)@.prepared(height),
            seq_view(final(actions)@) == seq_view(old(actions)@) + old(self)@.prepare_action(
                height,
                proof@,
                val,
            ),
    {
        let mut st = self.height_state(height);
        if st.prepare_sent {
            assert(seq_view(actions@) =~= seq_view(actions@) + Seq::<ActionView>::empty());
            return ;
        }
        st.prepare_sent = true;
        let prepare = PrePare {
            author: self.name,
            epoch: self.epoch,
            height,
            proof,
            val,
            signature: Signature::empty(),
        };
        push_action(actions, Action::Send { message: ConsensusMessage::ParPrePare(prepare), to: None });
        self.set_height_state(height, st);
        assert(seq_view(actions@) =~= seq_view(old(actions)@) + old(self)@.prepare_action(
            height,
            proof@,
            val,
        ));
    }

    /// Handles a proposal of the optimistic path from the network.
    pub fn handle_opt_proposal(&mut self, block: &Block, signatures_ok: bool) -> (r: Output)
        requires
            old(self).wf(),
        ensures
            final(self).wf(),
            (Step { state: final(self)@, output: r@ }) == old(self)@.opt_proposal(
                block@,
                signatures_ok,
            ),
    {
        if block.epoch < self.epoch {
            return Output::nothing();
        }
        if block.epoch > self.epoch {
            let d = Deferred { epoch: block.epoch, message: ConsensusMessage::HsPropose(block.clone()) };
            proof {
                crate::types::lemma_seq_view_push(self.unhandle_message@, d);
            }
            self.unhandle_message.push(d);
            return Output::refused(ConsensusError::EpochEnd(self.epoch));
        }
        if block.author != self.leader_elector.get_leader(block.height) {
            return Output::refused(
                ConsensusError::WrongLeader {
                    digest: block.digest,
                    leader: block.author,
                    round: block.height,
                },
            );
        }
        match block.verify(&self.committee, signatures_ok) {
            Err(e) => {
                return Output::refused(e);
            },
            Ok(_) => {},
        }
        self.process_qc(&block.qc);
        let mut actions = no_actions();
        push_action(&mut actions, Action::VerifyPayload(block.clone(), OPT));
        assert(seq_view(actions@) =~= seq![ActionView::VerifyPayload(block@, OPT)]);
        Output::doing(actions)
    }

    /// Handles a vote of the optimistic path.
    pub fn handle_opt_vote(&mut self, vote: &HVote, signatures_ok: bool) -> (r: Output)
        requires
            old(self).wf(),
        ensures
            final(self).wf(),
            (Step { state: final(self)@, output: r@ }) == old(self)@.opt_vote(*vote, signatures_ok),
    {
        if vote.height < self.height || self.epoch != vote.epoch {
            return Output::nothing();
        }
        match vote.verify(&self.committee, signatures_ok) {
            Err(e) => {
                return Output::refused(e);
            },
            Ok(_) => {},
        }
        match self.aggregator.add_hs_vote(*vote) {
            Err(e) => Output::refused(e),
            Ok(None) => Output::nothing(),
            Ok(Some(qc)) => {
                self.process_qc(&qc);
                Output::doing(self.propose_if_leader())
            },
        }
    }

    /// The vote that a block earns, if it earns one: the block is of our
    /// height, higher than our last vote, and one above its certificate.
    pub fn make_opt_vote(&mut self, block: &Block) -> (r: Option<HVote>)
        requires
            old(self).wf(),
        ensures
            final(self).wf(),
            r.is_some() == (block.height > old(self)@.last_voted_height && block.qc.height + 1
                == block.height),
            r.is_some() ==> r.unwrap() == vote_draft(block@, old(self)@.name) && final(self)@
                == (CoreView { last_voted_height: block.height, ..old(self)@ }),
            r.is_none() ==> final(self)@ == old(self)@,
    {
        let rule_1 = block.height > self.last_voted_height;
        let rule_2 = block.qc.height < u64::MAX && block.qc.height + 1 == block.height;
        if !(rule_1 && rule_2) {
            return None;
        }
        self.last_voted_height = block.height;
        Some(
            HVote {
                hash: block.digest,
                height: block.height,
                epoch: block.epoch,
                proposer: block.author,
                author: self.name,
                signature: Signature::empty(),
            },
        )
    }

    /// The commits that `ancestors` give rise to above our last commit,
    /// added to `actions`.
    fn commit(&self, ancestors: &Vec<Block>, actions: &mut Vec<Action>)
        requires
            ancestors.len() >= 2,
        ensures
            seq_view(final(actions)@) == seq_view(old(actions)@) + commits_of(
                seq_view(ancestors@),
                self@.last_committed_height,
            ),
    {
        let ghost a = seq_view(ancestors@);
        let floor = self.last_committed_height;
        let mut end: usize = 1;
        while end < ancestors.len() && ancestors[end].height > floor && (end == 1 || (ancestors[end
            - 1].extends(&ancestors[end]) && ancestors[end].height < ancestors[end - 1].height))
            invariant
                1 <= end <= ancestors.len(),
                a == seq_view(ancestors@),
                floor == self@.last_committed_height,
                commit_end(a, 1, floor) == commit_end(a, end as int, floor),
            decreases ancestors.len() - end,
        {
            assert(committable(a, end as int, floor));
            end += 1;
        }
        assert(!committable(a, end as int, floor));
        assert(commit_end(a, 1, floor) == end);
        let ghost base = seq_view(actions@);
        let mut i: usize = end;
        while i > 1
            invariant
                1 <= i <= end <= ancestors.len(),
                a == seq_view(ancestors@),
                seq_view(actions@) == base + Seq::new(
                    (end - i) as nat,
                    |k: int| ActionView::Commit(a[end - 1 - k]),
                ),
            decreases i,
        {
            i -= 1;
            push_action(actions, Action::Commit(ancestors[i].clone()));
            assert(seq_view(actions@) =~= base + Seq::new(
                (end - i) as nat,
                |k: int| ActionView::Commit(a[end - 1 - k]),
            ));
        }
    }

    /// Processes a block whose payload is at hand.
    pub fn process_opt_block(&mut self, block: &Block, ancestors: &Vec<Block>) -> (r: Output)
        requires
            old(self).wf(),
        ensures
            final(self).wf(),
            (Step { state: final(self)@, output: r@ }) == old(self)@.opt_block(
                block@,
                seq_view(ancestors@),
            ),
    {
        if block.epoch != self.epoch {
            return Output::nothing();
        }
        if !(ancestors.len() >= 2 && block.extends(&ancestors[0]) && ancestors[0].extends(
            &ancestors[1],
        )) {
            return Output::nothing();
        }
        let b1 = &ancestors[0];
        let b0 = &ancestors[1];
        let follow = b0.height < u64::MAX && b0.height + 1 == b1.height && b1.height < u64::MAX
            && b1.height + 1 == block.height;
        if !(follow || block.qc.is_genesis()) {
            return Output::refused(
                ConsensusError::NonConsecutiveRounds {
                    rd1: b0.height,
                    rd2: b1.height,
                    rd3: block.height,
                },
            );
        }
        let mut actions = no_actions();
        let height = self.height;
        if self.pes_path && block.height > 2 {
            self.active_prepare_pahse(
                block.height,
                PrePareProof::OPTProof(block.qc.clone()),
                OPT,
                &mut actions,
            );
        }
        if self.pes_path && height > 2 {
            self.clean_smvba_state(height - 2);
        }
        push_action(&mut actions, Action::Store(block.clone()));
        if follow && b0.height > self.last_committed_height {
            self.commit(ancestors, &mut actions);
            self.last_committed_height = b0.height;
        }
        if block.height != self.height {
            return Output::doing(actions);
        }
        match self.make_opt_vote(block) {
            Some(vote) => {
                push_action(
                    &mut actions,
                    Action::Send { message: ConsensusMessage::HSVote(vote), to: Some(block.author) },
                );
            },
            None => {},
        }
        Output::doing(actions)
    }

    /// Processes our own proposal of the optimistic path, once it is out:
    /// the block is processed like any other, and a pause follows unless
    /// pauses belong to the pessimistic path.
    pub fn broadcast_opt_propose(&mut self, block: &Block, ancestors: &Vec<Block>) -> (r: Output)
        requires
            old(self).wf(),
        ensures
            final(self).wf(),
            (Step { state: final(self)@, output: r@ }) == old(self)@.own_opt_proposal(
                block@,
                seq_view(ancestors@),
            ),
    {
        let ddos = self.parameters.ddos;
        let delay = self.parameters.min_block_delay;
        let mut out = self.process_opt_block(block, ancestors);
        if out.result.is_ok() && !ddos {
            push_action(&mut out.actions, Action::Delay(delay));
        }
        out
    }
}

} // verus!
