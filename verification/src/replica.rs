//! The replica as a whole: its beginning, its epochs, and the dispatch of
//! its inputs.

use crate::aggregator::{Aggregator, AggregatorView};
use crate::config::{Authority, Committee, Parameters};
use crate::error::ConsensusError;
use crate::leader::LeaderElector;
use crate::messages::{Block, BlockView, ConsensusMessage, ConsensusMessageView, QCView, QC};
use crate::prepare::append_actions;
use crate::state::{
    no_actions, push_action, Action, ActionView, Core, CoreView, Deferred, DeferredView, Output,
    OutputView, Step,
};
use crate::table::Table;
use crate::types::{seq_view, Digest, PublicKey, SeqNumber, PES};
use vstd::prelude::*;

verus! {

/// One input of the core: a message, and what the runtime found out about it.
#[derive(Debug)]
pub struct Input {
    pub message: ConsensusMessage,
    /// The message is our own, handed back after it went out.
    pub own: bool,
    /// Every signature inside the message verifies.
    pub signatures_ok: bool,
    /// For a block of the optimistic path that is to be processed: its
    /// stored ancestors, the parent first, as far as they are needed and at hand.
    pub ancestors: Vec<Block>,
}

pub struct InputView {
    pub message: ConsensusMessageView,
    pub own: bool,
    pub signatures_ok: bool,
    pub ancestors: Seq<BlockView>,
}

impl View for Input {
    type V = InputView;

    open spec fn view(&self) -> InputView {
        InputView {
            message: self.message@,
            own: self.own,
            signatures_ok: self.signatures_ok,
            ancestors: seq_view(self.ancestors@),
        }
    }
}

/// The messages that are taken up again when `epoch` begins: those that were
/// set aside for it, in the order in which they came.
pub open spec fn replayed(deferred: Seq<DeferredView>, epoch: SeqNumber) -> Seq<ConsensusMessageView>
    decreases deferred.len(),
{
    if deferred.len() == 0 {
        Seq::empty()
    } else if deferred.last().epoch == epoch {
        replayed(deferred.drop_last(), epoch).push(deferred.last().message)
    } else {
        replayed(deferred.drop_last(), epoch)
    }
}

impl CoreView {
    /// The state in which a replica begins.
    pub open spec fn initial(
        name: PublicKey,
        members: Seq<Authority>,
        parameters: Parameters,
        keys: Seq<u8>,
        opt_path: bool,
        pes_path: bool,
    ) -> CoreView {
        CoreView {
            name,
            members,
            parameters,
            keys,
            opt_path,
            pes_path,
            height: 1,
            epoch: 0,
            last_voted_height: 0,
            last_committed_height: 0,
            high_qc: QCView::genesis(),
            deferred: Seq::empty(),
            aggregator: AggregatorView::empty(),
            coins: Seq::empty(),
            rounds: Map::empty(),
            heights: Map::empty(),
        }
    }

    /// The state in which `epoch` begins: nothing of the epoch before is
    /// left but who we are, how we are configured, and the messages set aside.
    pub open spec fn epoch_started(self, epoch: SeqNumber) -> CoreView {
        CoreView {
            epoch,
            deferred: self.deferred,
            ..CoreView::initial(
                self.name,
                self.members,
                self.parameters,
                self.keys,
                self.opt_path,
                self.pes_path,
            )
        }
    }

    /// The epoch that follows ours.
    pub open spec fn following_epoch(self) -> SeqNumber {
        if self.epoch == u64::MAX {
            self.epoch
        } else {
            (self.epoch + 1) as u64
        }
    }

    /// The state in which the following epoch begins. Of the messages that
    /// were set aside none is left: those for the epoch are taken up again,
    /// the others are dropped.
    pub open spec fn next_epoch(self) -> CoreView {
        CoreView { deferred: Seq::empty(), ..self.epoch_started(self.following_epoch()) }
    }

    /// Whether a message is set aside: it arrives from the network, is of
    /// a later epoch than ours, and is no proposal, which its handler sets
    /// aside itself.
    pub open spec fn sets_aside(self, input: InputView) -> bool {
        &&& !input.own
        &&& input.message.epoch().is_some()
        &&& input.message.epoch().unwrap() > self.epoch
        &&& !(input.message is HsPropose || input.message is SyncReply
            || input.message is SPBPropose)
    }

    /// What a replica does when it starts to run an epoch: with the
    /// optimistic path on it proposes if it leads its height, and with the
    /// pessimistic path on it starts the broadcast of its height, arguing for
    /// the pessimistic path: at the beginning there is no certificate and
    /// no arbitration to argue for the optimistic one.
    pub open spec fn booted(self) -> Step {
        let ours = if self.opt_path {
            self.own_proposal()
        } else {
            Seq::empty()
        };
        if self.pes_path {
            let started = self.invoke(self.height, 1, QCView::genesis(), PES, Seq::empty());
            Step { state: started.state, output: OutputView::doing(ours + started.output.actions) }
        } else {
            self.taken(ours)
        }
    }

    /// A replica asks for a block: the runtime is to look into the store.
    pub open spec fn sync_request(self, digest: Digest, requester: PublicKey) -> Step {
        self.taken(seq![ActionView::Reply { digest, requester }])
    }

    /// The answer to a replica that asked for the block of `digest`, once
    /// the runtime has looked into the store: if the store holds a block of
    /// that digest, it is sent to the one who asked and to nobody else; if
    /// not, nothing is sent. The state stays as it is.
    pub open spec fn sync_reply(
        self,
        digest: Digest,
        requester: PublicKey,
        stored: Option<BlockView>,
    ) -> Step {
        match stored {
            Some(b) => if b.digest == digest {
                self.taken(
                    seq![
                        ActionView::Send {
                            message: ConsensusMessageView::SyncReply(b),
                            to: Some(requester),
                        },
                    ],
                )
            } else {
                self.idle()
            },
            None => self.idle(),
        }
    }

    /// What one input does to the state, and what it asks of the runtime.
    ///
    /// A message of a later epoch that arrives from the network is set
    /// aside, and ends the epoch. A message of our own is handled as one from
    /// the network whose signatures verify, except for our own proposals,
    /// which are processed without being checked again.
    pub open spec fn handled(self, input: InputView) -> Step {
        if self.sets_aside(input) {
            Step {
                state: CoreView {
                    deferred: self.deferred.push(
                        DeferredView {
                            epoch: input.message.epoch().unwrap(),
                            message: input.message,
                        },
                    ),
                    ..self
                },
                output: OutputView::refused(ConsensusError::EpochEnd(self.epoch)),
            }
        } else {
            self.dispatched(input)
        }
    }

    /// What an input that is not set aside does, by the kind of its message.
    pub open spec fn dispatched(self, input: InputView) -> Step {
        let ok = input.own || input.signatures_ok;
        match input.message {
            ConsensusMessageView::HsPropose(b) => if input.own {
                self.own_opt_proposal(b, input.ancestors)
            } else {
                self.opt_proposal(b, input.signatures_ok)
            },
            ConsensusMessageView::HSVote(v) => self.opt_vote(v, ok),
            ConsensusMessageView::HsLoopBack(b) => self.opt_block(b, input.ancestors),
            ConsensusMessageView::SyncRequest(digest, requester) => self.sync_request(
                digest,
                requester,
            ),
            ConsensusMessageView::SyncReply(b) => self.opt_proposal(b, input.signatures_ok),
            ConsensusMessageView::SPBPropose(v, p) => if input.own {
                self.own_spb_proposal(v, p)
            } else {
                self.spb_proposal(v, p, input.signatures_ok)
            },
            ConsensusMessageView::SPBVote(v) => self.spb_vote(v, ok),
            ConsensusMessageView::SPBFinish(v, p) => self.spb_finish(v, p, ok),
            ConsensusMessageView::SPBDoneAndShare(d) => self.smvba_done(d, ok),
            ConsensusMessageView::SMVBAPreVote(pv) => self.smvba_prevote(pv, ok),
            ConsensusMessageView::SMVBAVote(mv) => self.smvba_mvote(mv, ok),
            ConsensusMessageView::SMVBACoinShare(s) => self.smvba_rs(s),
            ConsensusMessageView::SMVBAHalt(h) => self.smvba_halt(h, ok),
            ConsensusMessageView::ParPrePare(p) => self.par_prepare(p, ok),
            ConsensusMessageView::ParLoopBack(b) => self.par_out(b),
        }
    }
}

/// The views of a list of messages.
pub open spec fn message_views(list: Seq<ConsensusMessage>) -> Seq<ConsensusMessageView> {
    seq_view(list)
}

impl Core {
    /// A replica at its beginning: height 1 of epoch 0, nothing voted,
    /// nothing committed, nothing held. `keys` are the public keys of the
    /// coin's threshold scheme, as `bincode` encodes them.
    pub fn new(
        name: PublicKey,
        committee: Committee,
        parameters: Parameters,
        keys: Vec<u8>,
        opt_path: bool,
        pes_path: bool,
    ) -> (r: Core)
        requires
            committee.wf(),
        ensures
            r.wf(),
            r@ == CoreView::initial(name, committee@, parameters, keys@, opt_path, pes_path),
    {
        let aggregator = Aggregator::new(committee.clone());
        let leader_elector = LeaderElector::new(committee.clone());
        let r = Core {
            name,
            committee,
            parameters,
            keys,
            leader_elector,
            aggregator,
            opt_path,
            pes_path,
            height: 1,
            epoch: 0,
            last_voted_height: 0,
            last_committed_height: 0,
            unhandle_message: Vec::new(),
            high_qc: QC::genesis(),
            rounds: Table::new(),
            heights: Table::new(),
        };
        assert(r@.deferred =~= Seq::empty());
        r
    }

    /// Begins `epoch`: everything held is dropped but the messages set aside.
    pub fn epoch_init(&mut self, epoch: SeqNumber)
        requires
            old(self).wf(),
        ensures
            final(self).wf(),
            final(self)@ == old(self)@.epoch_started(epoch),
    {
        self.leader_elector = LeaderElector::new(self.committee.clone());
        self.aggregator = Aggregator::new(self.committee.clone());
        self.height = 1;
        self.epoch = epoch;
        self.high_qc = QC::genesis();
        self.last_voted_height = 0;
        self.last_committed_height = 0;
        self.rounds.clear();
        self.heights.clear();
    }

    /// Starts to run the epoch that we are in.
    pub fn run(&mut self) -> (r: Output)
        requires
            old(self).wf(),
        ensures
            final(self).wf(),
            (Step { state: final(self)@, output: r@ }) == old(self)@.booted(),
    {
        let mut actions = if self.opt_path {
            self.propose_if_leader()
        } else {
            no_actions()
        };
        if self.pes_path {
            let height = self.height;
            let mut started = self.invoke_smvba(height, 1, PES, Vec::new(), None);
            append_actions(&mut actions, &mut started.actions);
        }
        Output::doing(actions)
    }

    /// Moves on to the epoch that follows ours, and hands out the messages
    /// that were set aside for it, in the order in which they came.
    pub fn run_epoch(&mut self) -> (r: Vec<ConsensusMessage>)
        requires
            old(self).wf(),
        ensures
            final(self).wf(),
            final(self)@ == old(self)@.next_epoch(),
            message_views(r@) == replayed(old(self)@.deferred, old(self)@.following_epoch()),
    {
        let epoch = if self.epoch == u64::MAX {
            self.epoch
        } else {
            self.epoch + 1
        };
        self.epoch_init(epoch);
        let ghost all = seq_view(self.unhandle_message@);
        let mut replay: Vec<ConsensusMessage> = Vec::new();
        let mut i: usize = 0;
        assert(seq_view(replay@) =~= Seq::<ConsensusMessageView>::empty());
        while i < self.unhandle_message.len()
            invariant
                i <= self.unhandle_message.len(),
                all == seq_view(self.unhandle_message@),
                seq_view(replay@) == replayed(all.subrange(0, i as int), epoch),
            decreases self.unhandle_message.len() - i,
        {
            let d = &self.unhandle_message[i];
            proof {
                assert(all.subrange(0, i as int + 1).drop_last() =~= all.subrange(0, i as int));
                assert(all.subrange(0, i as int + 1).last() == d@);
            }
            if d.epoch == epoch {
                let m = d.message.clone();
                proof {
                    crate::types::lemma_seq_view_push(replay@, m);
                }
                replay.push(m);
            }
            i += 1;
        }
        proof {
            assert(all.subrange(0, i as int) =~= all);
        }
        self.unhandle_message = Vec::new();
        assert(seq_view(self.unhandle_message@) =~= Seq::<DeferredView>::empty());
        replay
    }

    /// Handles the request of a replica for a block.
    pub fn handle_sync_request(&self, digest: Digest, sender: PublicKey) -> (r: Output)
        ensures
            (Step { state: self@, output: r@ }) == self@.sync_request(digest, sender),
    {
        let mut actions = no_actions();
        push_action(&mut actions, Action::Reply { digest, requester: sender });
        assert(seq_view(actions@) =~= seq![ActionView::Reply { digest, requester: sender }]);
        Output::doing(actions)
    }

    /// Answers the request of `sender` for the block of `digest` with what
    /// the runtime found in the store under that digest.
    pub fn answer_sync_request(&self, digest: Digest, sender: PublicKey, stored: Option<Block>) -> (r:
        Output)
        ensures
            (Step { state: self@, output: r@ }) == self@.sync_reply(
                digest,
                sender,
                crate::state::block_option_view(stored),
            ),
    {
        match stored {
            Some(b) => {
                if b.digest == digest {
                    let mut actions = no_actions();
                    let ghost view = b@;
                    push_action(
                        &mut actions,
                        Action::Send { message: ConsensusMessage::SyncReply(b), to: Some(sender) },
                    );
                    assert(seq_view(actions@) =~= seq![
                        ActionView::Send {
                            message: ConsensusMessageView::SyncReply(view),
                            to: Some(sender),
                        },
                    ]);
                    Output::doing(actions)
                } else {
                    Output::nothing()
                }
            },
            None => Output::nothing(),
        }
    }

    /// Handles one input.
    pub fn handle(&mut self, input: Input) -> (r: Output)
        requires
            old(self).wf(),
        ensures
            final(self).wf(),
            (Step { state: final(self)@, output: r@ }) == old(self)@.handled(input@),
    {
        let later = match input.message.epoch() {
            Some(e) => e > self.epoch,
            None => false,
        };
        let proposal = match &input.message {
            ConsensusMessage::HsPropose(_) => true,
            ConsensusMessage::SyncReply(_) => true,
            ConsensusMessage::SPBPropose(_, _) => true,
            _ => false,
        };
        if !input.own && later && !proposal {
            let d = Deferred {
                epoch: match input.message.epoch() {
                    Some(e) => e,
                    None => self.epoch,
                },
                message: input.message,
            };
            proof {
                crate::types::lemma_seq_view_push(self.unhandle_message@, d);
            }
            self.unhandle_message.push(d);
            return Output::refused(ConsensusError::EpochEnd(self.epoch));
        }
        let ok = input.own || input.signatures_ok;
        match input.message {
            ConsensusMessage::HsPropose(b) => {
                if input.own {
                    self.broadcast_opt_propose(&b, &input.ancestors)
                } else {
                    self.handle_opt_proposal(&b, input.signatures_ok)
                }
            },
            ConsensusMessage::HSVote(v) => self.handle_opt_vote(&v, ok),
            ConsensusMessage::HsLoopBack(b) => self.process_opt_block(&b, &input.ancestors),
            ConsensusMessage::SyncRequest(digest, requester) => self.handle_sync_request(
                digest,
                requester,
            ),
            ConsensusMessage::SyncReply(b) => self.handle_opt_proposal(&b, input.signatures_ok),
            ConsensusMessage::SPBPropose(v, p) => {
                if input.own {
                    self.broadcast_pes_propose(&v, &p)
                } else {
                    self.handle_spb_proposal(v, p, input.signatures_ok)
                }
            },
            ConsensusMessage::SPBVote(v) => self.handle_spb_vote(&v, ok),
            ConsensusMessage::SPBFinish(v, p) => self.handle_spb_finish(v, p, ok),
            ConsensusMessage::SPBDoneAndShare(d) => self.handle_smvba_done(d, ok),
            ConsensusMessage::SMVBAPreVote(pv) => self.handle_smvba_prevote(pv, ok),
            ConsensusMessage::SMVBAVote(mv) => self.handle_smvba_mvote(mv, ok),
            ConsensusMessage::SMVBACoinShare(s) => self.handle_smvba_rs(s),
            ConsensusMessage::SMVBAHalt(h) => self.handle_smvba_halt(h, ok),
            ConsensusMessage::ParPrePare(p) => self.handle_par_prepare(p, ok),
            ConsensusMessage::ParLoopBack(b) => self.process_par_out(&b),
        }
    }
}

} // verus!
