//! The arbitration between the two paths, and the commit that the
//! pessimistic path ends with.

use crate::config::{coin_threshold_of, quorum_of, total_stake};
use crate::error::ConsensusError;
use crate::messages::{
    Block, BlockView, ConsensusMessage, ConsensusMessageView, PrePare, PrePareProof,
    PrePareProofView, PrePareView, QCView, Signed,
};
use crate::mvba::to_all;
use crate::opt::prepare_draft;
use crate::state::{
    has_signed, no_actions, push_action, signed_in, Action, ActionView, Core, CoreView,
    HeightView, Output, OutputView, Step,
};
use crate::types::{copy_vec, seq_view, SeqNumber, Signature, OPT, PES};
use crate::validation::prepare_check;
use vstd::prelude::*;

verus! {

impl CoreView {
    /// The request to look up the payload of the block that the agreement of
    /// the height before `height` delivered, if it delivered one.
    pub open spec fn output_before(self, height: SeqNumber) -> Seq<ActionView> {
        if height == 0 {
            Seq::empty()
        } else {
            match self.at((height - 1) as u64).output {
                Some(b) => seq![ActionView::VerifyPayload(b, PES)],
                None => Seq::empty(),
            }
        }
    }

    /// An arbitration message for the optimistic path is counted. With it,
    /// the signatures for the path may reach the coin threshold: if our own
    /// message for the height is not out, we send one for the same path with
    /// the same evidence. They may reach a quorum: the broadcast for the
    /// height is then started on the certificate that the message carries,
    /// with the signatures as evidence.
    pub open spec fn prepare_opt(self, p: PrePareView) -> Step {
        let hs = self.at(p.height);
        let opts = hs.prepare_opts.push(Signed { author: p.author, signature: p.signature });
        let copy = !hs.prepare_sent && opts.len() == coin_threshold_of(total_stake(self.members));
        let counted = self.with_at(
            p.height,
            HeightView { prepare_opts: opts, prepare_sent: hs.prepare_sent || copy, ..hs },
        );
        let ours = if copy {
            to_all(
                ConsensusMessageView::ParPrePare(
                    prepare_draft(self.name, self.epoch, p.height, p.proof, OPT),
                ),
            )
        } else {
            Seq::empty()
        };
        match p.proof {
            PrePareProofView::OPTProof(qc) => if opts.len() == quorum_of(
                total_stake(self.members),
            ) {
                let started = counted.invoke(p.height, 1, qc, OPT, opts);
                Step {
                    state: started.state,
                    output: OutputView::doing(ours + started.output.actions),
                }
            } else {
                counted.taken(ours)
            },
            PrePareProofView::PESProof(_) => counted.taken(ours),
        }
    }

    /// An arbitration message for the pessimistic path is counted. When the
    /// signatures for the path reach a quorum, the broadcast for the height
    /// is started on no certificate, with the signatures as evidence, and
    /// the block that the agreement of the height before delivered is on its
    /// way to be committed: the mempool is asked for its payload.
    pub open spec fn prepare_pes(self, p: PrePareView) -> Step {
        let hs = self.at(p.height);
        let pess = hs.prepare_pess.push(Signed { author: p.author, signature: p.signature });
        let counted = self.with_at(p.height, HeightView { prepare_pess: pess, ..hs });
        if pess.len() == quorum_of(total_stake(self.members)) {
            let started = counted.invoke(p.height, 1, QCView::genesis(), PES, pess);
            Step {
                state: started.state,
                output: OutputView::doing(
                    started.output.actions + counted.output_before(p.height),
                ),
            }
        } else {
            counted.idle()
        }
    }

    /// An arbitration message arrives.
    ///
    /// One of another epoch, or for a height two or more below ours, is
    /// refused as stale. It must be in order, and its author's first for its
    /// height and path. Then it is counted for its path.
    pub open spec fn par_prepare(self, p: PrePareView, signatures_ok: bool) -> Step {
        let hs = self.at(p.height);
        if !(p.epoch == self.epoch && p.height + 2 > self.height) {
            self.refuse(ConsensusError::TimeOutMessage(p.epoch, p.height))
        } else if prepare_check(p, self.members, signatures_ok).is_err() {
            self.refuse(prepare_check(p, self.members, signatures_ok)->Err_0)
        } else if p.val == OPT {
            if has_signed(hs.prepare_opts, p.author) {
                self.refuse(ConsensusError::AuthorityReuseinPrePare(p.author))
            } else {
                self.prepare_opt(p)
            }
        } else {
            if has_signed(hs.prepare_pess, p.author) {
                self.refuse(ConsensusError::AuthorityReuseinPrePare(p.author))
            } else {
                self.prepare_pes(p)
            }
        }
    }

    /// A block that the pessimistic path delivered comes back from the
    /// mempool with its payload at hand.
    ///
    /// A block of another epoch is passed over. Else the block is stored. If
    /// it lies above our last commit, it is committed, and what is held per
    /// round up to its height is dropped; a block of the pessimistic path
    /// then ends the epoch. Else, and for a block of the optimistic path,
    /// its payload is released.
    pub open spec fn par_out(self, block: BlockView) -> Step {
        let stored = seq![ActionView::Store(block)];
        if block.epoch != self.epoch {
            self.idle()
        } else if block.height > self.last_committed_height {
            let committed = CoreView {
                last_committed_height: block.height,
                ..self.cleaned(block.height)
            };
            let actions = stored.push(ActionView::Commit(block));
            if block.tag == PES {
                Step {
                    state: committed,
                    output: OutputView {
                        actions,
                        result: Err(ConsensusError::EpochEnd(self.epoch)),
                    },
                }
            } else {
                committed.taken(actions.push(ActionView::Cleanup(block)))
            }
        } else {
            self.taken(stored.push(ActionView::Cleanup(block)))
        }
    }
}

impl Core {
    /// The request to look up the payload of what the agreement of the
    /// height before `height` delivered.
    fn output_before(&self, height: SeqNumber, actions: &mut Vec<Action>)
        ensures
            seq_view(final(actions)@) == seq_view(old(actions)@) + self@.output_before(height),
    {
        if height > 0 {
            let hs = self.height_state(height - 1);
            match hs.output {
                Some(b) => {
                    push_action(actions, Action::VerifyPayload(b, PES));
                },
                None => {},
            }
        }
        assert(seq_view(actions@) =~= seq_view(old(actions)@) + self@.output_before(height));
    }

    /// Handles an arbitration message.
    pub fn handle_par_prepare(&mut self, prepare: PrePare, signatures_ok: bool) -> (r: Output)
        requires
            old(self).wf(),
        ensures
            final(self).wf(),
            (Step { state: final(self)@, output: r@ }) == old(self)@.par_prepare(
                prepare@,
                signatures_ok,
            ),
    {
        if !(prepare.epoch == self.epoch && (prepare.height > u64::MAX - 2 || prepare.height + 2
            > self.height)) {
            return Output::refused(ConsensusError::TimeOutMessage(prepare.epoch, prepare.height));
        }
        match prepare.verify(&self.committee, signatures_ok) {
            Err(e) => {
                return Output::refused(e);
            },
            Ok(_) => {},
        }
        let ghost expected = old(self)@.par_prepare(prepare@, signatures_ok).output.actions;
        let height = prepare.height;
        let mut hs = self.height_state(height);
        let mine = Signed { author: prepare.author, signature: prepare.signature };
        let quorum = self.committee.quorum_threshold() as u64;
        let mut actions = no_actions();
        if prepare.val == OPT {
            if signed_in(&hs.prepare_opts, &prepare.author) {
                return Output::refused(ConsensusError::AuthorityReuseinPrePare(prepare.author));
            }
            hs.prepare_opts.push(mine);
            let count = hs.prepare_opts.len() as u64;
            let copy = !hs.prepare_sent && count == self.committee.random_coin_threshold() as u64;
            if copy {
                hs.prepare_sent = true;
                let ours = PrePare {
                    author: self.name,
                    epoch: self.epoch,
                    height,
                    proof: prepare.proof.clone(),
                    val: OPT,
                    signature: Signature::empty(),
                };
                push_action(
                    &mut actions,
                    Action::Send { message: ConsensusMessage::ParPrePare(ours), to: None },
                );
            }
            let signatures = copy_vec(&hs.prepare_opts);
            self.set_height_state(height, hs);
            match prepare.proof {
                PrePareProof::OPTProof(qc) => {
                    if count == quorum {
                        let mut started = self.invoke_smvba(height, 1, OPT, signatures, Some(qc));
                        append_actions(&mut actions, &mut started.actions);
                    }
                },
                PrePareProof::PESProof(_) => {},
            }
            assert(seq_view(actions@) =~= expected);
            Output::doing(actions)
        } else {
            if signed_in(&hs.prepare_pess, &prepare.author) {
                return Output::refused(ConsensusError::AuthorityReuseinPrePare(prepare.author));
            }
            hs.prepare_pess.push(mine);
            let count = hs.prepare_pess.len() as u64;
            let signatures = copy_vec(&hs.prepare_pess);
            self.set_height_state(height, hs);
            if count != quorum {
                return Output::nothing();
            }
            self.output_before(height, &mut actions);
            let mut started = self.invoke_smvba(height, 1, PES, signatures, None);
            append_actions(&mut started.actions, &mut actions);
            assert(seq_view(started.actions@) =~= expected);
            Output::doing(started.actions)
        }
    }

    /// Commits a block that the pessimistic path delivered.
    pub fn process_par_out(&mut self, block: &Block) -> (r: Output)
        requires
            old(self).wf(),
        ensures
            final(self).wf(),
            (Step { state: final(self)@, output: r@ }) == old(self)@.par_out(block@),
    {
        if block.epoch != self.epoch {
            return Output::nothing();
        }
        let mut actions = no_actions();
        push_action(&mut actions, Action::Store(block.clone()));
        assert(seq_view(actions@) =~= seq![ActionView::Store(block@)]);
        if block.height > self.last_committed_height {
            push_action(&mut actions, Action::Commit(block.clone()));
            self.clean_smvba_state(block.height);
            self.last_committed_height = block.height;
            if block.tag == PES {
                return Output { actions, result: Err(ConsensusError::EpochEnd(self.epoch)) };
            }
        }
        push_action(&mut actions, Action::Cleanup(block.clone()));
        Output::doing(actions)
    }
}

/// Moves the actions of `more` to the end of `actions`.
pub fn append_actions(actions: &mut Vec<Action>, more: &mut Vec<Action>)
    ensures
        seq_view(final(actions)@) == seq_view(old(actions)@) + seq_view(old(more)@),
        final(more)@.len() == 0,
{
    proof {
        assert(seq_view(actions@ + more@) =~= seq_view(actions@) + seq_view(more@));
    }
    actions.append(more);
}

} // verus!
