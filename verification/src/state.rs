//! The state of a replica, and what a handler hands back.

use crate::aggregator::{Aggregator, AggregatorView};
use crate::config::{Authority, Committee, Parameters};
use crate::error::ConsensusError;
use crate::leader::{Elected, LeaderElector};
use crate::messages::{
    Block, BlockView, Broadcast, BroadcastView, ConsensusMessage, ConsensusMessageView, QCView,
    SPBProof, SPBProofView, SPBValue, SPBValueView, Signed, QC,
};
use crate::table::Table;
use crate::types::{copy_vec, seq_view, Digest, PublicKey, SeqNumber, INIT_PHASE};
use vstd::prelude::*;

verus! {

/// What the runtime has to do for the core.
#[derive(Debug)]
pub enum Action {
    /// Complete the draft block (payload from the mempool, digest,
    /// signature), send it to every other member as a proposal of the
    /// optimistic path, and hand the proposal back as our own.
    ProposeOpt(Block),
    /// Complete the draft block inside the value, send value and proof to
    /// every other member as a proposal of the pessimistic path, and hand the
    /// proposal back as our own.
    ProposePes(SPBValue, SPBProof),
    /// Sign the message where it lacks our signature, send it to `to`, or to
    /// every other member when `to` is `None`, and hand it back as our own
    /// when it went to everyone or to ourselves.
    Send { message: ConsensusMessage, to: Option<PublicKey> },
    /// Ask the mempool for the payload of the block. When it is there, hand
    /// the block back as a loop-back message of the given path; when it is
    /// not, the mempool fetches it and hands the block back later.
    VerifyPayload(Block, u8),
    /// Write the block to the store.
    Store(Block),
    /// The block is final: push it into the commit channel and release its
    /// payload from the mempool.
    Commit(Block),
    /// Release the payload of the block from the mempool.
    Cleanup(Block),
    /// Read the block of this digest from the store and hand what was
    /// found to `Core::answer_sync_request`, with the digest and the requester.
    Reply { digest: Digest, requester: PublicKey },
    /// Wait this many milliseconds before taking the next input.
    Delay(u64),
}

pub enum ActionView {
    ProposeOpt(BlockView),
    ProposePes(SPBValueView, SPBProofView),
    Send { message: ConsensusMessageView, to: Option<PublicKey> },
    VerifyPayload(BlockView, u8),
    Store(BlockView),
    Commit(BlockView),
    Cleanup(BlockView),
    Reply { digest: Digest, requester: PublicKey },
    Delay(u64),
}

impl View for Action {
    type V = ActionView;

    open spec fn view(&self) -> ActionView {
        match self {
            Action::ProposeOpt(b) => ActionView::ProposeOpt(b@),
            Action::ProposePes(v, p) => ActionView::ProposePes(v@, p@),
            Action::Send { message, to } => ActionView::Send { message: message@, to: *to },
            Action::VerifyPayload(b, tag) => ActionView::VerifyPayload(b@, *tag),
            Action::Store(b) => ActionView::Store(b@),
            Action::Commit(b) => ActionView::Commit(b@),
            Action::Cleanup(b) => ActionView::Cleanup(b@),
            Action::Reply { digest, requester } => ActionView::Reply {
                digest: *digest,
                requester: *requester,
            },
            Action::Delay(ms) => ActionView::Delay(*ms),
        }
    }
}

/// What a handler hands back: the actions to perform, in order, and whether
/// the input was taken.
#[derive(Debug)]
pub struct Output {
    pub actions: Vec<Action>,
    pub result: Result<(), ConsensusError>,
}

pub struct OutputView {
    pub actions: Seq<ActionView>,
    pub result: Result<(), ConsensusError>,
}

impl View for Output {
    type V = OutputView;

    open spec fn view(&self) -> OutputView {
        OutputView { actions: seq_view(self.actions@), result: self.result }
    }
}

impl OutputView {
    /// Nothing to do, input taken.
    pub open spec fn nothing() -> OutputView {
        OutputView { actions: Seq::empty(), result: Ok(()) }
    }

    /// Nothing to do, input refused.
    pub open spec fn refused(e: ConsensusError) -> OutputView {
        OutputView { actions: Seq::empty(), result: Err(e) }
    }

    /// These actions, input taken.
    pub open spec fn doing(actions: Seq<ActionView>) -> OutputView {
        OutputView { actions, result: Ok(()) }
    }
}

impl Output {
    /// Nothing to do, input taken.
    pub fn nothing() -> (r: Output)
        ensures
            r@ == OutputView::nothing(),
    {
        let r = Output { actions: Vec::new(), result: Ok(()) };
        assert(r@.actions =~= Seq::empty());
        r
    }

    /// Nothing to do, input refused.
    pub fn refused(e: ConsensusError) -> (r: Output)
        ensures
            r@ == OutputView::refused(e),
    {
        let r = Output { actions: Vec::new(), result: Err(e) };
        assert(r@.actions =~= Seq::empty());
        r
    }

    /// These actions, input taken.
    pub fn doing(actions: Vec<Action>) -> (r: Output)
        ensures
            r@ == OutputView::doing(seq_view(actions@)),
    {
        Output { actions, result: Ok(()) }
    }
}

/// Adds `action` to `actions`.
pub fn push_action(actions: &mut Vec<Action>, action: Action)
    ensures
        seq_view(final(actions)@) == seq_view(old(actions)@).push(action@),
{
    proof {
        crate::types::lemma_seq_view_push(actions@, action);
    }
    actions.push(action);
}

/// No actions.
pub fn no_actions() -> (r: Vec<Action>)
    ensures
        seq_view(r@) == Seq::<ActionView>::empty(),
{
    let r: Vec<Action> = Vec::new();
    assert(seq_view(r@) =~= Seq::<ActionView>::empty());
    r
}

/// `list` with `name` added, unless it is there.
pub open spec fn with_key(list: Seq<PublicKey>, name: PublicKey) -> Seq<PublicKey> {
    if list.contains(name) {
        list
    } else {
        list.push(name)
    }
}

/// The broadcast of `author` in `list`, if it holds one.
pub open spec fn held(list: Seq<BroadcastView>, author: PublicKey) -> Option<BroadcastView>
    decreases list.len(),
{
    if list.len() == 0 {
        None
    } else if list.last().value.block.author == author {
        Some(list.last())
    } else {
        held(list.drop_last(), author)
    }
}

/// Whether `list` holds a signature of `author`.
pub open spec fn has_signed(list: Seq<Signed>, author: PublicKey) -> bool {
    exists|i: int| 0 <= i < list.len() && (#[trigger] list[i]).author == author
}

/// Adds `name` to `list`, unless it is there.
pub fn insert_key(list: &mut Vec<PublicKey>, name: PublicKey)
    ensures
        final(list)@ == with_key(old(list)@, name),
{
    if !crate::quorum::occurs(list, &name) {
        list.push(name);
    }
}

/// Whether `list` holds a signature of `author`.
pub fn signed_in(list: &Vec<Signed>, author: &PublicKey) -> (r: bool)
    ensures
        r == has_signed(list@, *author),
{
    let mut i: usize = 0;
    while i < list.len()
        invariant
            i <= list.len(),
            forall|k: int| 0 <= k < i ==> (#[trigger] list@[k]).author != *author,
        decreases list.len() - i,
    {
        if list[i].author == *author {
            return true;
        }
        i += 1;
    }
    false
}

/// What a replica holds for one round of one height.
#[derive(Debug)]
pub struct RoundState {
    /// We announced that we are done with the broadcasts of the round.
    pub d_flag: bool,
    /// We reacted to a pre-vote that holds the leader's value.
    pub y_flag: bool,
    /// We reacted to a quorum of pre-votes that hold nothing.
    pub n_flag: bool,
    /// A quorum is done: broadcasts of the round are no longer looked at.
    pub abandon: bool,
    /// Phase of our own broadcast.
    pub phase: u8,
    /// Our proposal for the round is out.
    pub proposed: bool,
    /// The value that we broadcast.
    pub propose: Option<SPBValue>,
    /// Whose first-phase proposal we accepted.
    pub inits: Vec<PublicKey>,
    /// The locked values that we accepted, one per broadcaster.
    pub locks: Vec<Broadcast>,
    /// The finished values that we accepted, one per broadcaster.
    pub finishes: Vec<Broadcast>,
    /// Who announced to be done.
    pub dones: Vec<PublicKey>,
    /// Who voted.
    pub votes: Vec<PublicKey>,
    /// Who pre-voted that it holds nothing.
    pub no_prevotes: Vec<PublicKey>,
}

pub struct RoundView {
    pub d_flag: bool,
    pub y_flag: bool,
    pub n_flag: bool,
    pub abandon: bool,
    pub phase: u8,
    pub proposed: bool,
    pub propose: Option<SPBValueView>,
    pub inits: Seq<PublicKey>,
    pub locks: Seq<BroadcastView>,
    pub finishes: Seq<BroadcastView>,
    pub dones: Seq<PublicKey>,
    pub votes: Seq<PublicKey>,
    pub no_prevotes: Seq<PublicKey>,
}

impl RoundView {
    /// The state of a round of which nothing is known yet.
    pub open spec fn fresh() -> RoundView {
        RoundView {
            d_flag: false,
            y_flag: false,
            n_flag: false,
            abandon: false,
            phase: INIT_PHASE,
            proposed: false,
            propose: None,
            inits: Seq::empty(),
            locks: Seq::empty(),
            finishes: Seq::empty(),
            dones: Seq::empty(),
            votes: Seq::empty(),
            no_prevotes: Seq::empty(),
        }
    }

    /// The state in which a round is entered: what was held of its
    /// broadcasts stays, its flags and its counts start afresh.
    pub open spec fn entered(self) -> RoundView {
        RoundView {
            d_flag: false,
            y_flag: false,
            n_flag: false,
            phase: INIT_PHASE,
            dones: Seq::empty(),
            votes: Seq::empty(),
            no_prevotes: Seq::empty(),
            ..self
        }
    }
}

/// The view of an optional value.
pub open spec fn value_option_view(v: Option<SPBValue>) -> Option<SPBValueView> {
    match v {
        Some(x) => Some(x@),
        None => None,
    }
}

/// The view of an optional block.
pub open spec fn block_option_view(b: Option<Block>) -> Option<BlockView> {
    match b {
        Some(x) => Some(x@),
        None => None,
    }
}

impl View for RoundState {
    type V = RoundView;

    open spec fn view(&self) -> RoundView {
        RoundView {
            d_flag: self.d_flag,
            y_flag: self.y_flag,
            n_flag: self.n_flag,
            abandon: self.abandon,
            phase: self.phase,
            proposed: self.proposed,
            propose: value_option_view(self.propose),
            inits: self.inits@,
            locks: seq_view(self.locks@),
            finishes: seq_view(self.finishes@),
            dones: self.dones@,
            votes: self.votes@,
            no_prevotes: self.no_prevotes@,
        }
    }
}

/// A copy of `list`.
pub fn copy_broadcasts(list: &Vec<Broadcast>) -> (r: Vec<Broadcast>)
    ensures
        seq_view(r@) == seq_view(list@),
{
    let mut out: Vec<Broadcast> = Vec::new();
    let mut i: usize = 0;
    while i < list.len()
        invariant
            i <= list.len(),
            seq_view(out@) == seq_view(list@.subrange(0, i as int)),
        decreases list.len() - i,
    {
        let b = list[i].clone();
        proof {
            crate::types::lemma_seq_view_push(out@, b);
            assert(seq_view(list@.subrange(0, i as int + 1)) =~= seq_view(
                list@.subrange(0, i as int),
            ).push(list@[i as int]@));
        }
        out.push(b);
        i += 1;
    }
    assert(list@.subrange(0, i as int) =~= list@);
    out
}

/// The broadcast of `author` in `list`, if it holds one.
pub fn find_broadcast<'a>(list: &'a Vec<Broadcast>, author: &PublicKey) -> (r: Option<&'a Broadcast>)
    ensures
        match r {
            Some(b) => held(seq_view(list@), *author) == Some(b@),
            None => held(seq_view(list@), *author).is_none(),
        },
{
    let mut best: Option<&Broadcast> = None;
    let mut i: usize = 0;
    while i < list.len()
        invariant
            i <= list.len(),
            match best {
                Some(b) => held(seq_view(list@.subrange(0, i as int)), *author) == Some(b@),
                None => held(seq_view(list@.subrange(0, i as int)), *author).is_none(),
            },
        decreases list.len() - i,
    {
        proof {
            let next = seq_view(list@.subrange(0, i as int + 1));
            assert(next.drop_last() =~= seq_view(list@.subrange(0, i as int)));
            assert(next.last() == list@[i as int]@);
        }
        if list[i].value.block.author == *author {
            best = Some(&list[i]);
        }
        i += 1;
    }
    assert(list@.subrange(0, i as int) =~= list@);
    best
}

impl RoundState {
    /// The state of a round of which nothing is known yet.
    pub fn fresh() -> (r: RoundState)
        ensures
            r@ == RoundView::fresh(),
    {
        let r = RoundState {
            d_flag: false,
            y_flag: false,
            n_flag: false,
            abandon: false,
            phase: INIT_PHASE,
            proposed: false,
            propose: None,
            inits: Vec::new(),
            locks: Vec::new(),
            finishes: Vec::new(),
            dones: Vec::new(),
            votes: Vec::new(),
            no_prevotes: Vec::new(),
        };
        assert(r@.locks =~= Seq::empty());
        assert(r@.finishes =~= Seq::empty());
        r
    }

    /// A copy of this state.
    pub fn copy(&self) -> (r: RoundState)
        ensures
            r@ == self@,
    {
        RoundState {
            d_flag: self.d_flag,
            y_flag: self.y_flag,
            n_flag: self.n_flag,
            abandon: self.abandon,
            phase: self.phase,
            proposed: self.proposed,
            propose: match &self.propose {
                Some(v) => Some(v.clone()),
                None => None,
            },
            inits: copy_vec(&self.inits),
            locks: copy_broadcasts(&self.locks),
            finishes: copy_broadcasts(&self.finishes),
            dones: copy_vec(&self.dones),
            votes: copy_vec(&self.votes),
            no_prevotes: copy_vec(&self.no_prevotes),
        }
    }
}

/// What a replica holds for one height.
#[derive(Debug)]
pub struct HeightState {
    /// The round of the agreement that we are in.
    pub current_round: SeqNumber,
    /// The agreement of this height has ended.
    pub halt: bool,
    /// We sent our arbitration message for this height.
    pub prepare_sent: bool,
    /// Arbitration signatures for the optimistic path, one per author.
    pub prepare_opts: Vec<Signed>,
    /// Arbitration signatures for the pessimistic path, one per author.
    pub prepare_pess: Vec<Signed>,
    /// The block that the agreement of this height delivered.
    pub output: Option<Block>,
}

pub struct HeightView {
    pub current_round: SeqNumber,
    pub halt: bool,
    pub prepare_sent: bool,
    pub prepare_opts: Seq<Signed>,
    pub prepare_pess: Seq<Signed>,
    pub output: Option<BlockView>,
}

impl HeightView {
    /// The state of a height of which nothing is known yet: its agreement is
    /// in round 1.
    pub open spec fn fresh() -> HeightView {
        HeightView {
            current_round: 1,
            halt: false,
            prepare_sent: false,
            prepare_opts: Seq::empty(),
            prepare_pess: Seq::empty(),
            output: None,
        }
    }
}

impl View for HeightState {
    type V = HeightView;

    open spec fn view(&self) -> HeightView {
        HeightView {
            current_round: self.current_round,
            halt: self.halt,
            prepare_sent: self.prepare_sent,
            prepare_opts: self.prepare_opts@,
            prepare_pess: self.prepare_pess@,
            output: block_option_view(self.output),
        }
    }
}

impl HeightState {
    /// The state of a height of which nothing is known yet.
    pub fn fresh() -> (r: HeightState)
        ensures
            r@ == HeightView::fresh(),
    {
        HeightState {
            current_round: 1,
            halt: false,
            prepare_sent: false,
            prepare_opts: Vec::new(),
            prepare_pess: Vec::new(),
            output: None,
        }
    }

    /// A copy of this state.
    pub fn copy(&self) -> (r: HeightState)
        ensures
            r@ == self@,
    {
        HeightState {
            current_round: self.current_round,
            halt: self.halt,
            prepare_sent: self.prepare_sent,
            prepare_opts: copy_vec(&self.prepare_opts),
            prepare_pess: copy_vec(&self.prepare_pess),
            output: match &self.output {
                Some(b) => Some(b.clone()),
                None => None,
            },
        }
    }
}

/// A message of a later epoch, set aside until that epoch begins.
#[derive(Debug)]
pub struct Deferred {
    pub epoch: SeqNumber,
    pub message: ConsensusMessage,
}

pub struct DeferredView {
    pub epoch: SeqNumber,
    pub message: ConsensusMessageView,
}

impl View for Deferred {
    type V = DeferredView;

    open spec fn view(&self) -> DeferredView {
        DeferredView { epoch: self.epoch, message: self.message@ }
    }
}

/// The state of a replica as the contracts see it.
pub struct CoreView {
    pub name: PublicKey,
    pub members: Seq<Authority>,
    pub parameters: Parameters,
    /// The public keys of the coin's threshold scheme, encoded.
    pub keys: Seq<u8>,
    pub opt_path: bool,
    pub pes_path: bool,
    pub height: SeqNumber,
    pub epoch: SeqNumber,
    pub last_voted_height: SeqNumber,
    pub last_committed_height: SeqNumber,
    pub high_qc: QCView,
    pub deferred: Seq<DeferredView>,
    pub aggregator: AggregatorView,
    pub coins: Seq<Elected>,
    /// Per round: what is held under (height, round).
    pub rounds: Map<(SeqNumber, SeqNumber), RoundView>,
    /// Per height: what is held under (height, 0).
    pub heights: Map<(SeqNumber, SeqNumber), HeightView>,
}

impl CoreView {
    /// What is held for (height, round).
    pub open spec fn round(self, height: SeqNumber, round: SeqNumber) -> RoundView {
        if self.rounds.dom().contains((height, round)) {
            self.rounds[(height, round)]
        } else {
            RoundView::fresh()
        }
    }

    /// What is held for `height`.
    pub open spec fn at(self, height: SeqNumber) -> HeightView {
        if self.heights.dom().contains((height, 0)) {
            self.heights[(height, 0)]
        } else {
            HeightView::fresh()
        }
    }

    /// This state with `st` for (height, round).
    pub open spec fn with_round(self, height: SeqNumber, round: SeqNumber, st: RoundView) -> CoreView {
        CoreView { rounds: self.rounds.insert((height, round), st), ..self }
    }

    /// This state with `st` for `height`.
    pub open spec fn with_at(self, height: SeqNumber, st: HeightView) -> CoreView {
        CoreView { heights: self.heights.insert((height, 0), st), ..self }
    }
}

/// The state of a replica.
pub struct Core {
    pub(crate) name: PublicKey,
    pub(crate) committee: Committee,
    pub(crate) parameters: Parameters,
    pub(crate) keys: Vec<u8>,
    pub(crate) leader_elector: LeaderElector,
    pub(crate) aggregator: Aggregator,
    pub(crate) opt_path: bool,
    pub(crate) pes_path: bool,
    pub(crate) height: SeqNumber,
    pub(crate) epoch: SeqNumber,
    pub(crate) last_voted_height: SeqNumber,
    pub(crate) last_committed_height: SeqNumber,
    pub(crate) unhandle_message: Vec<Deferred>,
    pub(crate) high_qc: QC,
    pub(crate) rounds: Table<RoundState>,
    pub(crate) heights: Table<HeightState>,
}

impl View for Core {
    type V = CoreView;

    open(crate) spec fn view(&self) -> CoreView {
        CoreView {
            name: self.name,
            members: self.committee@,
            parameters: self.parameters,
            keys: self.keys@,
            opt_path: self.opt_path,
            pes_path: self.pes_path,
            height: self.height,
            epoch: self.epoch,
            last_voted_height: self.last_voted_height,
            last_committed_height: self.last_committed_height,
            high_qc: self.high_qc@,
            deferred: seq_view(self.unhandle_message@),
            aggregator: self.aggregator@,
            coins: self.leader_elector@,
            rounds: self.rounds@,
            heights: self.heights@,
        }
    }
}

impl Core {
    /// The invariant of a replica's state: one well-formed committee
    /// throughout, and a height of at least 1.
    pub open(crate) spec fn wf(&self) -> bool {
        &&& self.committee.wf()
        &&& self.aggregator.wf()
        &&& self.aggregator.members() == self.committee@
        &&& self.leader_elector.wf()
        &&& self.leader_elector.members() == self.committee@
        &&& self.height >= 1
    }

    /// What is held for (height, round).
    pub fn round_state(&self, height: SeqNumber, round: SeqNumber) -> (r: RoundState)
        ensures
            r@ == self@.round(height, round),
    {
        match self.rounds.get(height, round) {
            Some(st) => st.copy(),
            None => RoundState::fresh(),
        }
    }

    /// Puts `st` in place for (height, round).
    pub fn set_round_state(&mut self, height: SeqNumber, round: SeqNumber, st: RoundState)
        requires
            old(self).wf(),
        ensures
            final(self).wf(),
            final(self)@ == old(self)@.with_round(height, round, st@),
    {
        self.rounds.set(height, round, st);
    }

    /// What is held for `height`.
    pub fn height_state(&self, height: SeqNumber) -> (r: HeightState)
        ensures
            r@ == self@.at(height),
    {
        match self.heights.get(height, 0) {
            Some(st) => st.copy(),
            None => HeightState::fresh(),
        }
    }

    /// Puts `st` in place for `height`.
    pub fn set_height_state(&mut self, height: SeqNumber, st: HeightState)
        requires
            old(self).wf(),
        ensures
            final(self).wf(),
            final(self)@ == old(self)@.with_at(height, st@),
    {
        self.heights.set(height, 0, st);
    }

    /// Our own name.
    pub fn name(&self) -> (r: PublicKey)
        ensures
            r == self@.name,
    {
        self.name
    }

    /// The height that we are at.
    pub fn height(&self) -> (r: SeqNumber)
        ensures
            r == self@.height,
    {
        self.height
    }

    /// The epoch that we are in.
    pub fn epoch(&self) -> (r: SeqNumber)
        ensures
            r == self@.epoch,
    {
        self.epoch
    }

    /// The greatest height that we voted for on the optimistic path.
    pub fn last_voted_height(&self) -> (r: SeqNumber)
        ensures
            r == self@.last_voted_height,
    {
        self.last_voted_height
    }

    /// The greatest height that we committed.
    pub fn last_committed_height(&self) -> (r: SeqNumber)
        ensures
            r == self@.last_committed_height,
    {
        self.last_committed_height
    }

    /// The certificate of the greatest height that we know.
    pub fn high_qc(&self) -> (r: &QC)
        ensures
            r@ == self@.high_qc,
    {
        &self.high_qc
    }

    /// The parameters that we run with.
    pub fn parameters(&self) -> (r: Parameters)
        ensures
            r == self@.parameters,
    {
        self.parameters
    }

    /// Number of messages set aside for later epochs.
    pub fn deferred_count(&self) -> (r: usize)
        ensures
            r == self@.deferred.len(),
    {
        self.unhandle_message.len()
    }

    /// Number of votes of the optimistic path that the aggregator holds.
    pub fn hs_vote_count(&self) -> (r: usize)
        ensures
            r == self@.aggregator.hs_votes.len(),
    {
        self.aggregator.hs_vote_count()
    }
}

} // verus!

verus! {

/// The outcome of one handler in the model: the state it leaves and what it
/// hands back.
pub struct Step {
    pub state: CoreView,
    pub output: OutputView,
}

impl CoreView {
    /// The input changes nothing and asks for nothing.
    pub open spec fn idle(self) -> Step {
        Step { state: self, output: OutputView::nothing() }
    }

    /// The input is refused and changes nothing.
    pub open spec fn refuse(self, e: ConsensusError) -> Step {
        Step { state: self, output: OutputView::refused(e) }
    }

    /// The input is taken: these actions follow.
    pub open spec fn taken(self, actions: Seq<ActionView>) -> Step {
        Step { state: self, output: OutputView::doing(actions) }
    }

    /// This state without what is held per round for heights up to
    /// `height`, and without what the aggregator holds of their broadcasts
    /// and coins. What is held per height stays until the epoch ends.
    pub open spec fn cleaned(self, height: SeqNumber) -> CoreView {
        CoreView {
            rounds: crate::table::map_above(self.rounds, height),
            aggregator: self.aggregator.without_coin(height).without_spb(height),
            ..self
        }
    }
}

impl Core {
    /// Drops what is held per round for heights up to `height`.
    pub fn clean_smvba_state(&mut self, height: SeqNumber)
        requires
            old(self).wf(),
        ensures
            final(self).wf(),
            final(self)@ == old(self)@.cleaned(height),
    {
        self.rounds.retain_above(height);
        self.aggregator.cleanup_mvba_random(height);
        self.aggregator.cleanup_spb_vote(height);
    }
}

} // verus!
