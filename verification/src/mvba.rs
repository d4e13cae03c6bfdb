//! The multi-valued agreement: done, coin, pre-vote, vote, halt, and the
//! move to the next round.

use crate::config::{coin_threshold_of, quorum_of, total_stake};
use crate::error::ConsensusError;
use crate::leader::{coin_of, with_coin};
use crate::messages::{
    BlockView, ConsensusMessage, ConsensusMessageView, MDoneAndShare, MHalt, MHaltView, MPreVote,
    MPreVoteView, MVote, MVoteTag, MVoteTagView, MVoteView, PrePareProof, PrePareProofView,
    PreVoteTag, PreVoteTagView, QC, QCView, RandomnessShare, Signed, SPBProof, SPBProofView,
    SPBValue, SPBValueView, SPBVote,
};
use crate::spb::{done_and_share, spb_vote_draft};
use crate::state::{
    find_broadcast, held, insert_key, no_actions, push_action, with_key, Action, ActionView, Core,
    CoreView, HeightView, Output, RoundView, Step,
};
use crate::types::{
    seq_view, PublicKey, SeqNumber, Signature, FIN_PHASE, INIT_PHASE, LOCK_PHASE, PES,
};
use crate::validation::{halt_check, mvote_check, prevote_check, vote_check};
use vstd::prelude::*;

verus! {

/// A halt of `author`, still to be signed.
pub open spec fn halt_draft(
    author: PublicKey,
    leader: PublicKey,
    value: SPBValueView,
    proof: SPBProofView,
    epoch: SeqNumber,
    height: SeqNumber,
    round: SeqNumber,
) -> MHaltView {
    MHaltView {
        author,
        leader,
        value,
        proof,
        epoch,
        height,
        round,
        signature: Signature::spec_empty(),
    }
}

/// The view of the certificate that a broadcast extends: the genesis
/// certificate where none is given.
pub open spec fn qc_or_genesis(qc: Option<QC>) -> QCView {
    match qc {
        Some(q) => q@,
        None => QCView::genesis(),
    }
}

/// Whether the vote inside a `Yes` is the vote of the author of `mv` for
/// `value` as the locked value of the leader: it names the digest, the
/// proposer, the epoch, the height and the round of the value, which are
/// those of `mv`, and the value is the leader's.
pub open spec fn backs_leaders_lock(vote: SPBVote, value: SPBValueView, mv: MVoteView) -> bool {
    &&& vote.hash == value.block.digest
    &&& vote.proposer == value.block.author
    &&& vote.epoch == value.block.epoch
    &&& vote.height == value.block.height
    &&& vote.round == value.round
    &&& vote.author == mv.author
    &&& value.block.author == mv.leader
    &&& value.block.height == mv.height
    &&& value.round == mv.round
}

/// The message that sends `m` to everyone.
pub open spec fn to_all(m: ConsensusMessageView) -> Seq<ActionView> {
    seq![ActionView::Send { message: m, to: None }]
}

impl CoreView {
    /// A broadcast of the pessimistic path is started for (height, round),
    /// unless our proposal for the round is out: a draft block that extends
    /// `qc` goes out as a value of the first phase.
    pub open spec fn invoke(
        self,
        height: SeqNumber,
        round: SeqNumber,
        qc: QCView,
        val: u8,
        signatures: Seq<Signed>,
    ) -> Step {
        let st = self.round(height, round);
        if st.proposed {
            self.idle()
        } else {
            self.with_round(height, round, RoundView { proposed: true, ..st }).taken(
                seq![
                    ActionView::ProposePes(
                        SPBValueView {
                            block: BlockView::draft(qc, self.name, height, self.epoch, PES),
                            round,
                            phase: INIT_PHASE,
                            val,
                            signatures,
                        },
                        SPBProofView::initial(height, round),
                    ),
                ],
            )
        }
    }

    /// This state with the agreement of `height` in `round`, the flags and
    /// counts of the round afresh.
    pub open spec fn entered(self, height: SeqNumber, round: SeqNumber) -> CoreView {
        self.with_round(height, round, self.round(height, round).entered()).with_at(
            height,
            HeightView { current_round: round, ..self.at(height) },
        )
    }

    /// The agreement of `height` enters `round`: the round's flags and
    /// counts start afresh, and the value that we broadcast in the round
    /// before, if there is one, is proposed again on a new block.
    pub open spec fn round_advance(self, height: SeqNumber, round: SeqNumber) -> Step {
        let entered = self.entered(height, round);
        match self.round(height, (round - 1) as u64).propose {
            None => entered.idle(),
            Some(last) => entered.invoke(height, round, last.block.qc, last.val, last.signatures),
        }
    }

    /// A replica announces that it is done with the broadcasts of a round.
    ///
    /// A stale message is refused. With full validation on it must be in
    /// order. The author is counted. When the count reaches the coin
    /// threshold and we have not announced it yet, we too announce that we
    /// are done and share the coin; when it reaches a quorum, the broadcasts
    /// of the round are abandoned.
    pub open spec fn smvba_done(self, done: MDoneAndShare, signatures_ok: bool) -> Step {
        let st = self.round(done.height, done.round);
        let dones = with_key(st.dones, done.author);
        let join = !st.d_flag && dones.len() == coin_threshold_of(total_stake(self.members));
        if !self.passes_filter(done.epoch, done.height, done.round) {
            self.refuse(ConsensusError::TimeOutMessage(done.height, done.round))
        } else if self.parameters.exp == 1 && vote_check(
            done.author,
            self.members,
            signatures_ok,
        ).is_err() {
            self.refuse(vote_check(done.author, self.members, signatures_ok)->Err_0)
        } else {
            self.with_round(
                done.height,
                done.round,
                RoundView {
                    dones,
                    d_flag: st.d_flag || join,
                    abandon: st.abandon || dones.len() == quorum_of(total_stake(self.members)),
                    ..st
                },
            ).taken(
                if join {
                    done_and_share(self.name, self.epoch, done.height, done.round)
                } else {
                    Seq::empty()
                },
            )
        }
    }

    /// What we say once the coin of (height, round) elected `leader`: a
    /// halt if we hold the leader's finished value; else a pre-vote, with the
    /// leader's locked value if we hold it, with nothing if we do not.
    pub open spec fn after_coin(
        self,
        height: SeqNumber,
        round: SeqNumber,
        epoch: SeqNumber,
        leader: PublicKey,
    ) -> Seq<ActionView> {
        let st = self.round(height, round);
        match held(st.finishes, leader) {
            Some(b) => to_all(
                ConsensusMessageView::SMVBAHalt(
                    halt_draft(self.name, leader, b.value, b.proof, epoch, height, round),
                ),
            ),
            None => to_all(
                ConsensusMessageView::SMVBAPreVote(
                    MPreVoteView {
                        author: self.name,
                        leader,
                        round,
                        height,
                        epoch,
                        tag: match held(st.locks, leader) {
                            Some(b) => PreVoteTagView::Yes(b.value, b.proof),
                            None => PreVoteTagView::No,
                        },
                        signature: Signature::spec_empty(),
                    },
                ),
            ),
        }
    }

    /// A share of the coin arrives.
    ///
    /// A stale one is refused; one for a round whose coin is known is
    /// ignored. It must verify and be its author's first for the round. When
    /// it reveals the coin, the elected leader is recorded and we halt or
    /// pre-vote.
    pub open spec fn smvba_rs(self, share: RandomnessShare) -> Step {
        if !self.passes_filter(share.epoch, share.height, share.round) {
            self.refuse(ConsensusError::TimeOutMessage(share.height, share.round))
        } else if coin_of(self.coins, share.height, share.round).is_some() {
            self.idle()
        } else {
            let counted = CoreView {
                aggregator: self.aggregator.after_coin(share, self.members, self.keys),
                ..self
            };
            match self.aggregator.coin_result(share, self.members, self.keys) {
                Err(e) => self.refuse(e),
                Ok(None) => counted.idle(),
                Ok(Some(coin)) => CoreView {
                    coins: with_coin(self.coins, coin.height, coin.round, coin.leader),
                    ..counted
                }.taken(self.after_coin(coin.height, coin.round, coin.epoch, coin.leader)),
            }
        }
    }

    /// Our vote of the agreement, still to be signed.
    pub open spec fn mvote_draft(self, pv: MPreVoteView, tag: MVoteTagView) -> MVoteView {
        MVoteView {
            author: self.name,
            leader: pv.leader,
            round: pv.round,
            height: pv.height,
            epoch: pv.epoch,
            tag,
            signature: Signature::spec_empty(),
        }
    }

    /// A pre-vote arrives.
    ///
    /// A stale one is refused. With full validation on it must be in order.
    /// Once we reacted to the pre-votes of the round, further ones are
    /// ignored. The first `Yes` makes us vote `Yes`, with our own vote for
    /// the value it carries if that value is in a phase that is voted on.
    /// A `No` counts its author; when the count reaches a quorum we vote `No`.
    pub open spec fn smvba_prevote(self, pv: MPreVoteView, signatures_ok: bool) -> Step {
        let st = self.round(pv.height, pv.round);
        if !self.passes_filter(pv.epoch, pv.height, pv.round) {
            self.refuse(ConsensusError::TimeOutMessage(pv.height, pv.round))
        } else if self.parameters.exp == 1 && prevote_check(pv, self.members, signatures_ok).is_err() {
            self.refuse(prevote_check(pv, self.members, signatures_ok)->Err_0)
        } else if st.y_flag || st.n_flag {
            self.idle()
        } else {
            match pv.tag {
                PreVoteTagView::Yes(value, proof) => {
                    let next = self.with_round(pv.height, pv.round, RoundView { y_flag: true, ..st });
                    if value.phase > LOCK_PHASE {
                        next.idle()
                    } else {
                        next.taken(
                            to_all(
                                ConsensusMessageView::SMVBAVote(
                                    self.mvote_draft(
                                        pv,
                                        MVoteTagView::Yes(
                                            value,
                                            proof,
                                            spb_vote_draft(value, self.name),
                                        ),
                                    ),
                                ),
                            ),
                        )
                    }
                },
                PreVoteTagView::No => {
                    let nos = with_key(st.no_prevotes, pv.author);
                    if nos.len() == quorum_of(total_stake(self.members)) {
                        self.with_round(
                            pv.height,
                            pv.round,
                            RoundView { no_prevotes: nos, n_flag: true, ..st },
                        ).taken(
                            to_all(
                                ConsensusMessageView::SMVBAVote(
                                    self.mvote_draft(pv, MVoteTagView::No),
                                ),
                            ),
                        )
                    } else {
                        self.with_round(
                            pv.height,
                            pv.round,
                            RoundView { no_prevotes: nos, ..st },
                        ).idle()
                    }
                },
            }
        }
    }

    /// This state with the author of a vote counted.
    pub open spec fn with_voter(self, height: SeqNumber, round: SeqNumber, author: PublicKey) -> CoreView {
        let st = self.round(height, round);
        self.with_round(height, round, RoundView { votes: with_key(st.votes, author), ..st })
    }

    /// The author of a vote is counted; when the count reaches a quorum the
    /// agreement enters the next round.
    pub open spec fn tally(self, height: SeqNumber, round: SeqNumber, author: PublicKey) -> Step {
        let counted = self.with_voter(height, round, author);
        if counted.round(height, round).votes.len() == quorum_of(total_stake(self.members))
            && round < u64::MAX {
            counted.round_advance(height, (round + 1) as u64)
        } else {
            counted.idle()
        }
    }

    /// A vote of the agreement arrives.
    ///
    /// A stale one is refused. With full validation on it must be in order.
    /// A `Yes` whose inner vote is not its author's vote for the value that
    /// it carries, as the leader's, is passed over. The vote inside a `Yes`
    /// must be its author's first for the round; when it completes a quorum
    /// for the locked value, we halt with the value and the finishing proof. Else the author is counted, and a
    /// quorum of votes moves the agreement to the next round.
    pub open spec fn smvba_mvote(self, mv: MVoteView, signatures_ok: bool) -> Step {
        if !self.passes_filter(mv.epoch, mv.height, mv.round) {
            self.refuse(ConsensusError::TimeOutMessage(mv.height, mv.round))
        } else if self.parameters.exp == 1 && mvote_check(mv, self.members, signatures_ok).is_err() {
            self.refuse(mvote_check(mv, self.members, signatures_ok)->Err_0)
        } else {
            match mv.tag {
                MVoteTagView::Yes(value, _, vote) => if !backs_leaders_lock(vote, value, mv) {
                    self.idle()
                } else {
                    let counted = CoreView { aggregator: self.aggregator.after_pre(vote), ..self };
                    match self.aggregator.pre_result(vote, self.members) {
                        Err(e) => self.refuse(e),
                        Ok(Some(fin)) => counted.with_voter(mv.height, mv.round, mv.author).taken(
                            to_all(
                                ConsensusMessageView::SMVBAHalt(
                                    halt_draft(
                                        self.name,
                                        mv.leader,
                                        value.at_phase(FIN_PHASE),
                                        fin,
                                        mv.epoch,
                                        mv.height,
                                        mv.round,
                                    ),
                                ),
                            ),
                        ),
                        Ok(None) => counted.tally(mv.height, mv.round, mv.author),
                    }
                },
                MVoteTagView::No => self.tally(mv.height, mv.round, mv.author),
            }
        }
    }

    /// The agreement of `height` delivers `block`: the block is kept as the
    /// output of the height, and our arbitration message for the next height
    /// goes out with the finishing proof, for the pessimistic path.
    pub open spec fn smvba_out(self, height: SeqNumber, block: BlockView, proof: SPBProofView) -> Step {
        let kept = self.with_at(height, HeightView { output: Some(block), ..self.at(height) });
        if height == u64::MAX {
            kept.idle()
        } else {
            kept.prepared((height + 1) as u64).taken(
                kept.prepare_action((height + 1) as u64, PrePareProofView::PESProof(proof), PES),
            )
        }
    }

    /// A halt arrives.
    ///
    /// A stale one is refused. Unless the coin of its round is known and
    /// elected the broadcaster of the value it carries, it is ignored. With
    /// full validation on it must be in order. Then the agreement of the
    /// height has ended, and the value is delivered.
    pub open spec fn smvba_halt(self, halt: MHaltView, signatures_ok: bool) -> Step {
        if !self.passes_filter(halt.epoch, halt.height, halt.round) {
            self.refuse(ConsensusError::TimeOutMessage(halt.height, halt.round))
        } else if coin_of(self.coins, halt.height, halt.round) != Some(halt.value.block.author) {
            self.idle()
        } else if self.parameters.exp == 1 && halt_check(halt, self.members, signatures_ok).is_err() {
            self.refuse(halt_check(halt, self.members, signatures_ok)->Err_0)
        } else {
            self.with_at(halt.height, HeightView { halt: true, ..self.at(halt.height) }).smvba_out(
                halt.height,
                halt.value.block,
                halt.proof,
            )
        }
    }
}

impl Core {
    /// Starts a broadcast of the pessimistic path for (height, round),
    /// unless our proposal for the round is out.
    pub fn invoke_smvba(
        &mut self,
        height: SeqNumber,
        round: SeqNumber,
        val: u8,
        signatures: Vec<Signed>,
        qc: Option<QC>,
    ) -> (r: Output)
        requires
            old(self).wf(),
        ensures
            final(self).wf(),
            (Step { state: final(self)@, output: r@ }) == old(self)@.invoke(
                height,
                round,
                qc_or_genesis(qc),
                val,
                signatures@,
            ),
    {
        let ghost expected = old(self)@.invoke(
            height,
            round,
            qc_or_genesis(qc),
            val,
            signatures@,
        ).output.actions;
        let mut st = self.round_state(height, round);
        if st.proposed {
            return Output::nothing();
        }
        st.proposed = true;
        self.set_round_state(height, round, st);
        let block = self.generate_proposal(height, qc, PES);
        let value = SPBValue { block, round, phase: INIT_PHASE, val, signatures };
        let proof = SPBProof::initial(height, round);
        let mut actions = no_actions();
        push_action(&mut actions, Action::ProposePes(value, proof));
        assert(seq_view(actions@) =~= expected);
        Output::doing(actions)
    }

    /// Enters `round` of the agreement of `height`: the round's flags and
    /// counts start afresh.
    pub fn update_smvba_state(&mut self, height: SeqNumber, round: SeqNumber)
        requires
            old(self).wf(),
        ensures
            final(self).wf(),
            final(self)@ == old(self)@.entered(height, round),
    {
        let mut st = self.round_state(height, round);
        st.d_flag = false;
        st.y_flag = false;
        st.n_flag = false;
        st.phase = INIT_PHASE;
        st.dones = Vec::new();
        st.votes = Vec::new();
        st.no_prevotes = Vec::new();
        self.set_round_state(height, round, st);
        let mut hs = self.height_state(height);
        hs.current_round = round;
        self.set_height_state(height, hs);
    }

    /// Moves the agreement of `height` to `round`.
    fn smvba_round_advance(&mut self, height: SeqNumber, round: SeqNumber) -> (r: Output)
        requires
            old(self).wf(),
            round >= 1,
        ensures
            final(self).wf(),
            (Step { state: final(self)@, output: r@ }) == old(self)@.round_advance(height, round),
    {
        let last = self.round_state(height, round - 1);
        self.update_smvba_state(height, round);
        match last.propose {
            None => Output::nothing(),
            Some(value) => self.invoke_smvba(
                height,
                round,
                value.val,
                value.signatures,
                Some(value.block.qc),
            ),
        }
    }

    /// Handles the announcement that a replica is done with a round.
    pub fn handle_smvba_done(&mut self, done: MDoneAndShare, signatures_ok: bool) -> (r: Output)
        requires
            old(self).wf(),
        ensures
            final(self).wf(),
            (Step { state: final(self)@, output: r@ }) == old(self)@.smvba_done(
                done,
                signatures_ok,
            ),
    {
        if !self.smvba_msg_filter(done.epoch, done.height, done.round, FIN_PHASE) {
            return Output::refused(ConsensusError::TimeOutMessage(done.height, done.round));
        }
        if self.parameters.exp == 1 {
            match done.verify(&self.committee, signatures_ok) {
                Err(e) => {
                    return Output::refused(e);
                },
                Ok(_) => {},
            }
        }
        let mut st = self.round_state(done.height, done.round);
        insert_key(&mut st.dones, done.author);
        let weight = st.dones.len() as u64;
        let join = !st.d_flag && weight == self.committee.random_coin_threshold() as u64;
        if join {
            st.d_flag = true;
        }
        if weight == self.committee.quorum_threshold() as u64 {
            st.abandon = true;
        }
        self.set_round_state(done.height, done.round, st);
        if join {
            Output::doing(self.invoke_done_and_share(done.height, done.round))
        } else {
            Output::doing(no_actions())
        }
    }

    /// What we say once the coin of (height, round) elected `leader`.
    fn react_to_coin(
        &self,
        height: SeqNumber,
        round: SeqNumber,
        epoch: SeqNumber,
        leader: PublicKey,
    ) -> (r: Vec<Action>)
        ensures
            seq_view(r@) == self@.after_coin(height, round, epoch, leader),
    {
        let st = self.round_state(height, round);
        let mut actions = no_actions();
        match find_broadcast(&st.finishes, &leader) {
            Some(b) => {
                let halt = MHalt {
                    author: self.name,
                    leader,
                    value: b.value.clone(),
                    proof: b.proof.clone(),
                    epoch,
                    height,
                    round,
                    signature: Signature::empty(),
                };
                push_action(
                    &mut actions,
                    Action::Send { message: ConsensusMessage::SMVBAHalt(halt), to: None },
                );
            },
            None => {
                let tag = match find_broadcast(&st.locks, &leader) {
                    Some(b) => PreVoteTag::Yes(b.value.clone(), b.proof.clone()),
                    None => PreVoteTag::No,
                };
                let pv = MPreVote {
                    author: self.name,
                    leader,
                    round,
                    height,
                    epoch,
                    tag,
                    signature: Signature::empty(),
                };
                push_action(
                    &mut actions,
                    Action::Send { message: ConsensusMessage::SMVBAPreVote(pv), to: None },
                );
            },
        }
        assert(seq_view(actions@) =~= self@.after_coin(height, round, epoch, leader));
        actions
    }

    /// Handles a share of the coin.
    pub fn handle_smvba_rs(&mut self, share: RandomnessShare) -> (r: Output)
        requires
            old(self).wf(),
        ensures
            final(self).wf(),
            (Step { state: final(self)@, output: r@ }) == old(self)@.smvba_rs(share),
    {
        if !self.smvba_msg_filter(share.epoch, share.height, share.round, FIN_PHASE) {
            return Output::refused(ConsensusError::TimeOutMessage(share.height, share.round));
        }
        if self.leader_elector.get_coin_leader(share.height, share.round).is_some() {
            return Output::nothing();
        }
        match self.aggregator.add_smvba_random(share, &self.keys) {
            Err(e) => Output::refused(e),
            Ok(None) => Output::nothing(),
            Ok(Some(coin)) => {
                self.leader_elector.add_random_coin(&coin);
                Output::doing(self.react_to_coin(coin.height, coin.round, coin.epoch, coin.leader))
            },
        }
    }

    /// Handles a pre-vote.
    pub fn handle_smvba_prevote(&mut self, prevote: MPreVote, signatures_ok: bool) -> (r: Output)
        requires
            old(self).wf(),
        ensures
            final(self).wf(),
            (Step { state: final(self)@, output: r@ }) == old(self)@.smvba_prevote(
                prevote@,
                signatures_ok,
            ),
    {
        if !self.smvba_msg_filter(prevote.epoch, prevote.height, prevote.round, FIN_PHASE) {
            return Output::refused(ConsensusError::TimeOutMessage(prevote.height, prevote.round));
        }
        if self.parameters.exp == 1 {
            match prevote.verify(&self.committee, signatures_ok) {
                Err(e) => {
                    return Output::refused(e);
                },
                Ok(_) => {},
            }
        }
        let mut st = self.round_state(prevote.height, prevote.round);
        if st.y_flag || st.n_flag {
            return Output::nothing();
        }
        let ghost expected = old(self)@.smvba_prevote(prevote@, signatures_ok).output.actions;
        let mut actions = no_actions();
        match prevote.tag {
            PreVoteTag::Yes(value, proof) => {
                st.y_flag = true;
                self.set_round_state(prevote.height, prevote.round, st);
                match self.make_spb_vote(&value) {
                    Some(vote) => {
                        let mvote = MVote {
                            author: self.name,
                            leader: prevote.leader,
                            round: prevote.round,
                            height: prevote.height,
                            epoch: prevote.epoch,
                            tag: MVoteTag::Yes(value, proof, vote),
                            signature: Signature::empty(),
                        };
                        push_action(
                            &mut actions,
                            Action::Send { message: ConsensusMessage::SMVBAVote(mvote), to: None },
                        );
                    },
                    None => {
                        return Output::nothing();
                    },
                }
            },
            PreVoteTag::No => {
                insert_key(&mut st.no_prevotes, prevote.author);
                let full = st.no_prevotes.len() as u64 == self.committee.quorum_threshold() as u64;
                if full {
                    st.n_flag = true;
                }
                self.set_round_state(prevote.height, prevote.round, st);
                if !full {
                    return Output::nothing();
                }
                let mvote = MVote {
                    author: self.name,
                    leader: prevote.leader,
                    round: prevote.round,
                    height: prevote.height,
                    epoch: prevote.epoch,
                    tag: MVoteTag::No,
                    signature: Signature::empty(),
                };
                push_action(
                    &mut actions,
                    Action::Send { message: ConsensusMessage::SMVBAVote(mvote), to: None },
                );
            },
        }
        assert(seq_view(actions@) =~= expected);
        Output::doing(actions)
    }

    /// Counts the author of a vote, and moves on to the next round when the
    /// count reaches a quorum.
    fn count_vote(&mut self, height: SeqNumber, round: SeqNumber, author: PublicKey) -> (r: Output)
        requires
            old(self).wf(),
        ensures
            final(self).wf(),
            (Step { state: final(self)@, output: r@ }) == old(self)@.tally(height, round, author),
    {
        let mut st = self.round_state(height, round);
        insert_key(&mut st.votes, author);
        let full = st.votes.len() as u64 == self.committee.quorum_threshold() as u64;
        self.set_round_state(height, round, st);
        if full && round < u64::MAX {
            self.smvba_round_advance(height, round + 1)
        } else {
            Output::nothing()
        }
    }

    /// Handles a vote of the agreement.
    pub fn handle_smvba_mvote(&mut self, mvote: MVote, signatures_ok: bool) -> (r: Output)
        requires
            old(self).wf(),
        ensures
            final(self).wf(),
            (Step { state: final(self)@, output: r@ }) == old(self)@.smvba_mvote(
                mvote@,
                signatures_ok,
            ),
    {
        if !self.smvba_msg_filter(mvote.epoch, mvote.height, mvote.round, FIN_PHASE) {
            return Output::refused(ConsensusError::TimeOutMessage(mvote.height, mvote.round));
        }
        if self.parameters.exp == 1 {
            match mvote.verify(&self.committee, signatures_ok) {
                Err(e) => {
                    return Output::refused(e);
                },
                Ok(_) => {},
            }
        }
        let ghost expected = old(self)@.smvba_mvote(mvote@, signatures_ok).output.actions;
        match mvote.tag {
            MVoteTag::Yes(value, _, vote) => {
                if !(vote.hash == value.block.digest && vote.proposer == value.block.author
                    && vote.epoch == value.block.epoch && vote.height == value.block.height
                    && vote.round == value.round && vote.author == mvote.author
                    && value.block.author == mvote.leader && value.block.height == mvote.height
                    && value.round == mvote.round) {
                    return Output::nothing();
                }
                match self.aggregator.add_pre_vote(vote) {
                    Err(e) => Output::refused(e),
                    Ok(Some(fin)) => {
                        let mut st = self.round_state(mvote.height, mvote.round);
                        insert_key(&mut st.votes, mvote.author);
                        self.set_round_state(mvote.height, mvote.round, st);
                        let mut value = value;
                        value.phase = FIN_PHASE;
                        let halt = MHalt {
                            author: self.name,
                            leader: mvote.leader,
                            value,
                            proof: fin,
                            epoch: mvote.epoch,
                            height: mvote.height,
                            round: mvote.round,
                            signature: Signature::empty(),
                        };
                        let mut actions = no_actions();
                        push_action(
                            &mut actions,
                            Action::Send { message: ConsensusMessage::SMVBAHalt(halt), to: None },
                        );
                        assert(seq_view(actions@) =~= expected);
                        Output::doing(actions)
                    },
                    Ok(None) => self.count_vote(mvote.height, mvote.round, mvote.author),
                }
            },
            MVoteTag::No => self.count_vote(mvote.height, mvote.round, mvote.author),
        }
    }

    /// Delivers the value that the agreement of `height` ended with.
    pub fn handle_smvba_out(&mut self, height: SeqNumber, value: &SPBValue, proof: &SPBProof) -> (r:
        Output)
        requires
            old(self).wf(),
        ensures
            final(self).wf(),
            (Step { state: final(self)@, output: r@ }) == old(self)@.smvba_out(
                height,
                value@.block,
                proof@,
            ),
    {
        let mut hs = self.height_state(height);
        hs.output = Some(value.block.clone());
        self.set_height_state(height, hs);
        if height == u64::MAX {
            return Output::nothing();
        }
        let mut actions = no_actions();
        self.active_prepare_pahse(height + 1, PrePareProof::PESProof(proof.clone()), PES, &mut actions);
        assert(seq_view(actions@) =~= old(self)@.smvba_out(height, value@.block, proof@).output.actions);
        Output::doing(actions)
    }

    /// Handles a halt.
    pub fn handle_smvba_halt(&mut self, halt: MHalt, signatures_ok: bool) -> (r: Output)
        requires
            old(self).wf(),
        ensures
            final(self).wf(),
            (Step { state: final(self)@, output: r@ }) == old(self)@.smvba_halt(
                halt@,
                signatures_ok,
            ),
    {
        if !self.smvba_msg_filter(halt.epoch, halt.height, halt.round, FIN_PHASE) {
            return Output::refused(ConsensusError::TimeOutMessage(halt.height, halt.round));
        }
        match self.leader_elector.get_coin_leader(halt.height, halt.round) {
            Some(leader) => {
                if leader != halt.value.block.author {
                    return Output::nothing();
                }
            },
            None => {
                return Output::nothing();
            },
        }
        if self.parameters.exp == 1 {
            match halt.verify(&self.committee, signatures_ok) {
                Err(e) => {
                    return Output::refused(e);
                },
                Ok(_) => {},
            }
        }
        let mut hs = self.height_state(halt.height);
        hs.halt = true;
        self.set_height_state(halt.height, hs);
        self.handle_smvba_out(halt.height, &halt.value, &halt.proof)
    }
}

} // verus!
