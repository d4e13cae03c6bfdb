//! The strong provable broadcast: a value goes through three phases, and
//! enters each of the later two with the votes of a quorum for the one before.

use crate::config::{quorum_of, total_stake};
use crate::error::ConsensusError;
use crate::messages::{
    Broadcast, BroadcastView, ConsensusMessage, ConsensusMessageView, MDoneAndShare,
    RandomnessShare, SPBProof, SPBProofView, SPBValue, SPBValueView, SPBVote,
};
use crate::state::{
    find_broadcast, held, no_actions, push_action, Action, ActionView, Core, CoreView, Deferred,
    DeferredView, Output, OutputView, RoundView, Step,
};
use crate::types::{seq_view, PublicKey, SeqNumber, Signature, FIN_PHASE, INIT_PHASE, LOCK_PHASE};
use crate::validation::{value_check, vote_check};
use vstd::prelude::*;

verus! {

/// The vote of `author` for `value` in the value's phase, still to be signed.
pub open spec fn spb_vote_draft(value: SPBValueView, author: PublicKey) -> SPBVote {
    SPBVote {
        hash: value.block.digest,
        phase: value.phase,
        height: value.block.height,
        epoch: value.block.epoch,
        round: value.round,
        proposer: value.block.author,
        author,
        signature: Signature::spec_empty(),
    }
}

/// Whether `vote` is a vote for `value` as the broadcast of `name`: it names
/// the digest, the epoch, the height and the round of the value, and `name`
/// as the proposer, who is the author of the value's block.
pub open spec fn is_vote_for(vote: SPBVote, value: SPBValueView, name: PublicKey) -> bool {
    &&& vote.hash == value.block.digest
    &&& vote.proposer == name
    &&& value.block.author == name
    &&& vote.epoch == value.block.epoch
    &&& vote.height == value.block.height
    &&& vote.round == value.round
}

/// The announcement of `author` that it is done with a round, and its share
/// of the round's coin, both still to be signed.
pub open spec fn done_and_share(
    author: PublicKey,
    epoch: SeqNumber,
    height: SeqNumber,
    round: SeqNumber,
) -> Seq<ActionView> {
    seq![
        ActionView::Send {
            message: ConsensusMessageView::SPBDoneAndShare(
                MDoneAndShare { author, epoch, height, round, signature: Signature::spec_empty() },
            ),
            to: None,
        },
        ActionView::Send {
            message: ConsensusMessageView::SMVBACoinShare(
                RandomnessShare::spec_draft(height, epoch, round, author),
            ),
            to: None,
        },
    ]
}

impl CoreView {
    /// Whether a message of the pessimistic path for (height, round) of
    /// `epoch` is still of use: its epoch is not over, its height is less
    /// than two below ours, its round is not over, and the agreement of its
    /// height has not ended.
    pub open spec fn passes_filter(self, epoch: SeqNumber, height: SeqNumber, round: SeqNumber) -> bool {
        &&& self.epoch <= epoch
        &&& self.height < height + 2
        &&& self.at(height).current_round <= round
        &&& !self.at(height).halt
    }

    /// Our vote for `value`, sent to its broadcaster.
    pub open spec fn spb_vote_action(self, value: SPBValueView) -> Seq<ActionView> {
        seq![
            ActionView::Send {
                message: ConsensusMessageView::SPBVote(spb_vote_draft(value, self.name)),
                to: Some(value.block.author),
            },
        ]
    }

    /// A value of a broadcast is processed. The first value of a
    /// broadcaster in the first phase, and its first in the locking phase,
    /// is kept and voted for; any other is passed over.
    pub open spec fn spb_process(self, value: SPBValueView, proof: SPBProofView) -> Step {
        let height = value.block.height;
        let st = self.round(height, value.round);
        let author = value.block.author;
        if value.phase == INIT_PHASE && !st.inits.contains(author) {
            self.with_round(
                height,
                value.round,
                RoundView { inits: st.inits.push(author), ..st },
            ).taken(self.spb_vote_action(value))
        } else if value.phase == LOCK_PHASE && held(st.locks, author).is_none() {
            self.with_round(
                height,
                value.round,
                RoundView { locks: st.locks.push(BroadcastView { value, proof }), ..st },
            ).taken(self.spb_vote_action(value))
        } else {
            self.idle()
        }
    }

    /// A proposal of the pessimistic path arrives from the network.
    ///
    /// One of a later epoch is set aside and ends the epoch; a stale one is
    /// refused; one for an abandoned round is ignored. With full
    /// validation on, value and proof must be in order. Then the value is
    /// processed.
    pub open spec fn spb_proposal(
        self,
        value: SPBValueView,
        proof: SPBProofView,
        signatures_ok: bool,
    ) -> Step {
        if value.block.epoch > self.epoch {
            Step {
                state: CoreView {
                    deferred: self.deferred.push(
                        DeferredView {
                            epoch: value.block.epoch,
                            message: ConsensusMessageView::SPBPropose(value, proof),
                        },
                    ),
                    ..self
                },
                output: OutputView::refused(ConsensusError::EpochEnd(self.epoch)),
            }
        } else if !self.passes_filter(value.block.epoch, proof.height, proof.round) {
            self.refuse(ConsensusError::TimeOutMessage(proof.height, proof.round))
        } else if self.round(proof.height, proof.round).abandon {
            self.idle()
        } else if self.parameters.exp == 1 && value_check(
            value,
            proof,
            self.members,
            signatures_ok,
        ).is_err() {
            self.refuse(value_check(value, proof, self.members, signatures_ok)->Err_0)
        } else {
            self.spb_process(value, proof)
        }
    }

    /// Our own proposal of the pessimistic path comes back. At the first
    /// phase it is kept as the value that we broadcast in its round. It is
    /// processed like any other, and a pause follows if pauses belong to the
    /// pessimistic path.
    pub open spec fn own_spb_proposal(self, value: SPBValueView, proof: SPBProofView) -> Step {
        let height = value.block.height;
        let st = self.round(height, value.round);
        let kept = if proof.phase == INIT_PHASE && st.propose.is_none() {
            self.with_round(height, value.round, RoundView { propose: Some(value), ..st })
        } else {
            self
        };
        let step = kept.spb_process(value, proof);
        if self.parameters.ddos {
            Step {
                state: step.state,
                output: OutputView {
                    actions: step.output.actions.push(
                        ActionView::Delay(self.parameters.min_block_delay),
                    ),
                    result: step.output.result,
                },
            }
        } else {
            step
        }
    }

    /// A vote for our broadcast arrives.
    ///
    /// A stale one is refused. With full validation on it must be in order.
    /// A vote that is not for the value that we broadcast in its round is
    /// passed over. It must be its author's first for the height, round and
    /// phase. When it completes a quorum, our value enters the next phase: it
    /// goes out again with the proof, as a proposal in the locking phase, as
    /// a finish in the last.
    pub open spec fn spb_vote(self, vote: SPBVote, signatures_ok: bool) -> Step {
        let st = self.round(vote.height, vote.round);
        if !self.passes_filter(vote.epoch, vote.height, vote.round) {
            self.refuse(ConsensusError::TimeOutMessage(vote.height, vote.round))
        } else if self.parameters.exp == 1 && vote_check(
            vote.author,
            self.members,
            signatures_ok,
        ).is_err() {
            self.refuse(vote_check(vote.author, self.members, signatures_ok)->Err_0)
        } else if st.propose.is_none() || !is_vote_for(vote, st.propose.unwrap(), self.name) {
            self.idle()
        } else {
            let value = st.propose.unwrap();
            let counted = CoreView { aggregator: self.aggregator.after_spb(vote), ..self };
            match self.aggregator.spb_result(vote, self.members) {
                Err(e) => self.refuse(e),
                Ok(None) => counted.idle(),
                Ok(Some(proof)) => {
                    let message = if proof.phase == LOCK_PHASE {
                        ConsensusMessageView::SPBPropose(value.at_phase(LOCK_PHASE), proof)
                    } else {
                        ConsensusMessageView::SPBFinish(value.at_phase(FIN_PHASE), proof)
                    };
                    counted.with_round(
                        vote.height,
                        vote.round,
                        RoundView { phase: proof.phase, ..st },
                    ).taken(seq![ActionView::Send { message, to: None }])
                },
            }
        }
    }

    /// A finished value arrives.
    ///
    /// A stale one is refused, and so is one that is not in the last phase.
    /// With full validation on, value and proof must be in order. The first
    /// finished value of a broadcaster is kept. When the values kept make a
    /// quorum and we have not announced it yet, we announce that we are done
    /// and share the coin.
    pub open spec fn spb_finish(
        self,
        value: SPBValueView,
        proof: SPBProofView,
        signatures_ok: bool,
    ) -> Step {
        let st = self.round(proof.height, proof.round);
        let finishes = st.finishes.push(BroadcastView { value, proof });
        if !self.passes_filter(value.block.epoch, proof.height, proof.round) {
            self.refuse(ConsensusError::TimeOutMessage(proof.height, proof.round))
        } else if !(proof.phase == FIN_PHASE && value.phase == FIN_PHASE) {
            self.refuse(ConsensusError::SPBPhaseWrong(value.phase, proof.phase))
        } else if self.parameters.exp == 1 && value_check(
            value,
            proof,
            self.members,
            signatures_ok,
        ).is_err() {
            self.refuse(value_check(value, proof, self.members, signatures_ok)->Err_0)
        } else if held(st.finishes, value.block.author).is_some() {
            self.idle()
        } else if st.d_flag || finishes.len() != quorum_of(total_stake(self.members)) {
            self.with_round(proof.height, proof.round, RoundView { finishes, ..st }).idle()
        } else {
            self.with_round(
                proof.height,
                proof.round,
                RoundView { finishes, d_flag: true, ..st },
            ).taken(done_and_share(self.name, self.epoch, proof.height, proof.round))
        }
    }
}

impl Core {
    /// Whether a message of the pessimistic path is still of use.
    pub fn smvba_msg_filter(
        &self,
        epoch: SeqNumber,
        height: SeqNumber,
        round: SeqNumber,
        _phase: u8,
    ) -> (r: bool)
        ensures
            r == self@.passes_filter(epoch, height, round),
    {
        if self.epoch > epoch {
            return false;
        }
        if height <= u64::MAX - 2 && self.height >= height + 2 {
            return false;
        }
        let st = self.height_state(height);
        if st.current_round > round {
            return false;
        }
        if st.halt {
            return false;
        }
        true
    }

    /// Our vote for `value`, if it is in a phase that is voted on.
    pub fn make_spb_vote(&self, value: &SPBValue) -> (r: Option<SPBVote>)
        ensures
            r == (if value.phase > LOCK_PHASE {
                None
            } else {
                Some(spb_vote_draft(value@, self@.name))
            }),
    {
        if value.phase > LOCK_PHASE {
            return None;
        }
        Some(
            SPBVote {
                hash: value.block.digest,
                phase: value.phase,
                height: value.block.height,
                epoch: value.block.epoch,
                round: value.round,
                proposer: value.block.author,
                author: self.name,
                signature: Signature::empty(),
            },
        )
    }

    /// Our announcement that we are done with a round, and our share of its coin.
    pub fn invoke_done_and_share(&self, height: SeqNumber, round: SeqNumber) -> (r: Vec<Action>)
        ensures
            seq_view(r@) == done_and_share(self@.name, self@.epoch, height, round),
    {
        let mut actions = no_actions();
        let done = MDoneAndShare {
            author: self.name,
            epoch: self.epoch,
            height,
            round,
            signature: Signature::empty(),
        };
        let share = RandomnessShare::draft(height, self.epoch, round, self.name);
        push_action(
            &mut actions,
            Action::Send { message: ConsensusMessage::SPBDoneAndShare(done), to: None },
        );
        push_action(
            &mut actions,
            Action::Send { message: ConsensusMessage::SMVBACoinShare(share), to: None },
        );
        assert(seq_view(actions@) =~= done_and_share(self@.name, self@.epoch, height, round));
        actions
    }

    /// Processes a value of a broadcast.
    pub fn process_spb_propose(&mut self, value: &SPBValue, proof: &SPBProof) -> (r: Output)
        requires
            old(self).wf(),
        ensures
            final(self).wf(),
            (Step { state: final(self)@, output: r@ }) == old(self)@.spb_process(value@, proof@),
    {
        let height = value.block.height;
        let mut st = self.round_state(height, value.round);
        let author = value.block.author;
        if value.phase == INIT_PHASE && !crate::quorum::occurs(&st.inits, &author) {
            st.inits.push(author);
        } else if value.phase == LOCK_PHASE && find_broadcast(&st.locks, &author).is_none() {
            let b = Broadcast { value: value.clone(), proof: proof.clone() };
            proof {
                crate::types::lemma_seq_view_push(st.locks@, b);
            }
            st.locks.push(b);
        } else {
            return Output::nothing();
        }
        self.set_round_state(height, value.round, st);
        let mut actions = no_actions();
        match self.make_spb_vote(value) {
            Some(vote) => {
                push_action(
                    &mut actions,
                    Action::Send { message: ConsensusMessage::SPBVote(vote), to: Some(author) },
                );
            },
            None => {},
        }
        assert(seq_view(actions@) =~= old(self)@.spb_vote_action(value@));
        Output::doing(actions)
    }

    /// Handles a proposal of the pessimistic path from the network.
    pub fn handle_spb_proposal(&mut self, value: SPBValue, proof: SPBProof, signatures_ok: bool) -> (r:
        Output)
        requires
            old(self).wf(),
        ensures
            final(self).wf(),
            (Step { state: final(self)@, output: r@ }) == old(self)@.spb_proposal(
                value@,
                proof@,
                signatures_ok,
            ),
    {
        if value.block.epoch > self.epoch {
            let d = Deferred {
                epoch: value.block.epoch,
                message: ConsensusMessage::SPBPropose(value, proof),
            };
            proof {
                crate::types::lemma_seq_view_push(self.unhandle_message@, d);
            }
            self.unhandle_message.push(d);
            return Output::refused(ConsensusError::EpochEnd(self.epoch));
        }
        if !self.smvba_msg_filter(value.block.epoch, proof.height, proof.round, proof.phase) {
            return Output::refused(ConsensusError::TimeOutMessage(proof.height, proof.round));
        }
        if self.round_state(proof.height, proof.round).abandon {
            return Output::nothing();
        }
        if self.parameters.exp == 1 {
            match value.verify(&self.committee, &proof, signatures_ok) {
                Err(e) => {
                    return Output::refused(e);
                },
                Ok(_) => {},
            }
        }
        self.process_spb_propose(&value, &proof)
    }

    /// Processes our own proposal of the pessimistic path, once it is out:
    /// in the first phase it is kept as the value of its round, it is
    /// processed like any other, and a pause follows if pauses belong to
    /// this path.
    pub fn broadcast_pes_propose(&mut self, value: &SPBValue, proof: &SPBProof) -> (r: Output)
        requires
            old(self).wf(),
        ensures
            final(self).wf(),
            (Step { state: final(self)@, output: r@ }) == old(self)@.own_spb_proposal(
                value@,
                proof@,
            ),
    {
        let ddos = self.parameters.ddos;
        let delay = self.parameters.min_block_delay;
        let height = value.block.height;
        let mut st = self.round_state(height, value.round);
        if proof.phase == INIT_PHASE && st.propose.is_none() {
            st.propose = Some(value.clone());
            self.set_round_state(height, value.round, st);
        }
        let mut out = self.process_spb_propose(value, proof);
        if ddos {
            push_action(&mut out.actions, Action::Delay(delay));
        }
        out
    }

    /// Handles a vote for our broadcast.
    pub fn handle_spb_vote(&mut self, vote: &SPBVote, signatures_ok: bool) -> (r: Output)
        requires
            old(self).wf(),
        ensures
            final(self).wf(),
            (Step { state: final(self)@, output: r@ }) == old(self)@.spb_vote(*vote, signatures_ok),
    {
        if !self.smvba_msg_filter(vote.epoch, vote.height, vote.round, vote.phase) {
            return Output::refused(ConsensusError::TimeOutMessage(vote.height, vote.round));
        }
        if self.parameters.exp == 1 {
            match vote.verify(&self.committee, signatures_ok) {
                Err(e) => {
                    return Output::refused(e);
                },
                Ok(_) => {},
            }
        }
        let mut st = self.round_state(vote.height, vote.round);
        let mut value = match &st.propose {
            None => {
                return Output::nothing();
            },
            Some(v) => v.clone(),
        };
        if !(vote.hash == value.block.digest && vote.proposer == self.name && value.block.author
            == self.name && vote.epoch == value.block.epoch && vote.height == value.block.height
            && vote.round == value.round) {
            return Output::nothing();
        }
        match self.aggregator.add_spb_vote(*vote) {
            Err(e) => Output::refused(e),
            Ok(None) => Output::nothing(),
            Ok(Some(proof)) => {
                st.phase = proof.phase;
                self.set_round_state(vote.height, vote.round, st);
                let mut actions = no_actions();
                if proof.phase == LOCK_PHASE {
                    value.phase = LOCK_PHASE;
                    push_action(
                        &mut actions,
                        Action::Send {
                            message: ConsensusMessage::SPBPropose(value, proof),
                            to: None,
                        },
                    );
                } else {
                    value.phase = FIN_PHASE;
                    push_action(
                        &mut actions,
                        Action::Send { message: ConsensusMessage::SPBFinish(value, proof), to: None },
                    );
                }
                assert(seq_view(actions@) =~= old(self)@.spb_vote(
                    *vote,
                    signatures_ok,
                ).output.actions);
                Output::doing(actions)
            },
        }
    }

    /// Handles a finished value.
    pub fn handle_spb_finish(&mut self, value: SPBValue, proof: SPBProof, signatures_ok: bool) -> (r:
        Output)
        requires
            old(self).wf(),
        ensures
            final(self).wf(),
            (Step { state: final(self)@, output: r@ }) == old(self)@.spb_finish(
                value@,
                proof@,
                signatures_ok,
            ),
    {
        if !self.smvba_msg_filter(value.block.epoch, proof.height, proof.round, proof.phase) {
            return Output::refused(ConsensusError::TimeOutMessage(proof.height, proof.round));
        }
        if !(proof.phase == FIN_PHASE && value.phase == FIN_PHASE) {
            return Output::refused(ConsensusError::SPBPhaseWrong(value.phase, proof.phase));
        }
        if self.parameters.exp == 1 {
            match value.verify(&self.committee, &proof, signatures_ok) {
                Err(e) => {
                    return Output::refused(e);
                },
                Ok(_) => {},
            }
        }
        let height = proof.height;
        let round = proof.round;
        let mut st = self.round_state(height, round);
        if find_broadcast(&st.finishes, &value.block.author).is_some() {
            return Output::nothing();
        }
        let b = Broadcast { value, proof };
        proof {
            crate::types::lemma_seq_view_push(st.finishes@, b);
        }
        st.finishes.push(b);
        let quorum = self.committee.quorum_threshold();
        if st.d_flag || st.finishes.len() as u64 != quorum as u64 {
            self.set_round_state(height, round, st);
            return Output::nothing();
        }
        st.d_flag = true;
        self.set_round_state(height, round, st);
        Output::doing(self.invoke_done_and_share(height, round))
    }
}

} // verus!
