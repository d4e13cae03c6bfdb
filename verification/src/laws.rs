//! What holds of every run of a replica.
//!
//! A run is a sequence of events: the replica starts to run its epoch, or it
//! handles an input. The laws below speak of the model of the handlers, which
//! is what the handlers are proved to compute.

use crate::config::{coin_threshold_of, total_stake};
use crate::messages::{
    BlockView, ConsensusMessageView, HVote, MDoneAndShare, MHaltView, MPreVoteView, MVoteTagView,
    MVoteView, PrePareProofView, PrePareView, QCView, RandomnessShare, SPBProofView,
    SPBValueView, SPBVote, Signed,
};
use crate::opt::{commit_end, commits_of, committable};
use crate::replica::InputView;
use crate::state::{ActionView, CoreView, HeightView, OutputView, RoundView, Step};
use crate::types::{PublicKey, SeqNumber, INIT_PHASE, OPT, PES};
use vstd::prelude::*;

verus! {

/// One event in the run of a replica within an epoch.
pub enum EventView {
    /// The replica starts to run the epoch.
    Boot,
    /// The replica handles an input.
    Handle(InputView),
}

/// What one event does.
pub open spec fn step(s: CoreView, e: EventView) -> Step {
    match e {
        EventView::Boot => s.booted(),
        EventView::Handle(input) => s.handled(input),
    }
}

/// The state after a run of events that starts in `s`.
pub open spec fn state_after(s: CoreView, events: Seq<EventView>) -> CoreView
    decreases events.len(),
{
    if events.len() == 0 {
        s
    } else {
        step(state_after(s, events.drop_last()), events.last()).state
    }
}

/// What the event at position `i` of a run hands back.
pub open spec fn output_at(s: CoreView, events: Seq<EventView>, i: int) -> OutputView
    recommends
        0 <= i < events.len(),
{
    step(state_after(s, events.subrange(0, i)), events[i]).output
}

/// Whether `a` sends a vote of the optimistic path.
pub open spec fn is_vote(a: ActionView) -> bool {
    a is Send && a->message is HSVote
}

/// Whether no action of `actions` sends a vote of the optimistic path.
pub open spec fn voteless(actions: Seq<ActionView>) -> bool {
    forall|k: int| 0 <= k < actions.len() ==> !is_vote(#[trigger] actions[k])
}

/// Whether no action of `actions` commits a block.
pub open spec fn commitless(actions: Seq<ActionView>) -> bool {
    forall|k: int| 0 <= k < actions.len() ==> !((#[trigger] actions[k]) is Commit)
}

/// The height of the block that `a` commits.
pub open spec fn committed_height(a: ActionView) -> SeqNumber
    recommends
        a is Commit,
{
    a->Commit_0.height
}

/// Whether the agreement of `height` is over for the replica: it has ended,
/// or the replica is two heights or more past it.
pub open spec fn closed(s: CoreView, height: SeqNumber) -> bool {
    (#[trigger] s.at(height)).halt || s.height >= height + 2
}

/// What every event keeps to.
///
/// Who the replica is and how it is configured does not change, nor its
/// epoch. Its height, the height of its last vote and the height of its last
/// commit never go down. An event sends at most one vote of the optimistic
/// path, for a height above the last vote before, which becomes the height
/// of the last vote. The commits of an event are for
/// heights above the last commit before, in strictly increasing order, up to
/// the height of the last commit after. An input that is refused, for
/// another reason than the end of the epoch, changes nothing and causes no
/// action. An agreement that is over stays over. No replica gets a second
/// ballot into a slot of the aggregator.
pub open spec fn orderly(s: CoreView, st: Step) -> bool {
    let actions = st.output.actions;
    &&& st.state.name == s.name
    &&& st.state.members == s.members
    &&& st.state.parameters == s.parameters
    &&& st.state.keys == s.keys
    &&& st.state.opt_path == s.opt_path
    &&& st.state.pes_path == s.pes_path
    &&& st.state.epoch == s.epoch
    &&& st.state.height >= s.height
    &&& st.state.last_voted_height >= s.last_voted_height
    &&& st.state.last_committed_height >= s.last_committed_height
    &&& forall|k: int|
        0 <= k < actions.len() && is_vote(#[trigger] actions[k]) ==> {
            &&& s.last_voted_height < actions[k]->message->HSVote_0.height
            &&& actions[k]->message->HSVote_0.height == st.state.last_voted_height
        }
    &&& forall|j: int, k: int|
        0 <= j < actions.len() && 0 <= k < actions.len() && is_vote(#[trigger] actions[j])
            && is_vote(#[trigger] actions[k]) ==> j == k
    &&& forall|k: int|
        0 <= k < actions.len() && (#[trigger] actions[k]) is Commit ==> {
            &&& s.last_committed_height < committed_height(actions[k])
            &&& committed_height(actions[k]) <= st.state.last_committed_height
        }
    &&& forall|j: int, k: int|
        0 <= j < k < actions.len() && (#[trigger] actions[j]) is Commit && (
        #[trigger] actions[k]) is Commit ==> committed_height(actions[j]) < committed_height(
            actions[k],
        )
    &&& (st.output.result.is_err() && !(st.output.result->Err_0 is EpochEnd) ==> st.state == s
        && actions.len() == 0)
    &&& forall|h: SeqNumber| closed(s, h) ==> closed(st.state, h)
    &&& (s.aggregator.tidy() ==> st.state.aggregator.tidy())
}

/// The ancestors that are committed lie above the floor, at heights that go
/// down along the chain.
pub proof fn lemma_commit_end(ancestors: Seq<BlockView>, k: int, floor: SeqNumber)
    requires
        1 <= k <= ancestors.len(),
    ensures
        k <= commit_end(ancestors, k, floor) <= ancestors.len(),
        forall|j: int| k <= j < commit_end(ancestors, k, floor) ==> committable(ancestors, j, floor),
    decreases ancestors.len() - k,
{
    if committable(ancestors, k, floor) {
        lemma_commit_end(ancestors, k + 1, floor);
    }
}

proof fn lemma_chain_descends(ancestors: Seq<BlockView>, floor: SeqNumber, a: int, b: int)
    requires
        1 <= a < b < ancestors.len(),
        forall|j: int| 1 <= j <= b ==> committable(ancestors, j, floor),
    ensures
        ancestors[b].height < ancestors[a].height,
    decreases b - a,
{
    assert(committable(ancestors, b, floor));
    if a < b - 1 {
        lemma_chain_descends(ancestors, floor, a, b - 1);
    }
}

/// The commits of a chain of ancestors are for heights above the floor, in
/// strictly increasing order, up to the height of the grandparent.
pub proof fn lemma_commits_ordered(ancestors: Seq<BlockView>, floor: SeqNumber)
    requires
        ancestors.len() >= 2,
    ensures
        ({
            let c = commits_of(ancestors, floor);
            &&& forall|k: int| 0 <= k < c.len() ==> (#[trigger] c[k]) is Commit
            &&& forall|k: int|
                0 <= k < c.len() ==> floor < committed_height(#[trigger] c[k])
                    <= ancestors[1].height
            &&& forall|j: int, k: int|
                0 <= j < k < c.len() ==> committed_height(#[trigger] c[j]) < committed_height(
                    #[trigger] c[k],
                )
        }),
{
    lemma_commit_end(ancestors, 1, floor);
    let end = commit_end(ancestors, 1, floor);
    let c = commits_of(ancestors, floor);
    assert forall|k: int| 0 <= k < c.len() implies floor < committed_height(#[trigger] c[k])
        <= ancestors[1].height by {
        let at = end - 1 - k;
        assert(committable(ancestors, at, floor));
        if at > 1 {
            lemma_chain_descends(ancestors, floor, 1, at);
        }
    }
    assert forall|j: int, k: int| 0 <= j < k < c.len() implies committed_height(#[trigger] c[j])
        < committed_height(#[trigger] c[k]) by {
        lemma_chain_descends(ancestors, floor, end - 1 - k, end - 1 - j);
    }
}

proof fn lemma_invoke_orderly(
    s: CoreView,
    height: SeqNumber,
    round: SeqNumber,
    qc: QCView,
    val: u8,
    signatures: Seq<Signed>,
)
    ensures
        orderly(s, s.invoke(height, round, qc, val, signatures)),
        s.invoke(height, round, qc, val, signatures).output.result.is_ok(),
        commitless(s.invoke(height, round, qc, val, signatures).output.actions),
        voteless(s.invoke(height, round, qc, val, signatures).output.actions),
{
}

proof fn lemma_booted_orderly(s: CoreView)
    ensures
        orderly(s, s.booted()),
{
    lemma_invoke_orderly(s, s.height, 1, QCView::genesis(), PES, Seq::empty());
}

proof fn lemma_opt_proposal_orderly(s: CoreView, b: BlockView, ok: bool)
    ensures
        orderly(s, s.opt_proposal(b, ok)),
{
    if s.aggregator.tidy() {
        crate::aggregator::lemma_above_keeps_one_each(
            s.aggregator.hs_votes,
            (s.height - 1) as u64,
        );
    }
}

proof fn lemma_opt_vote_orderly(s: CoreView, v: HVote, ok: bool)
    ensures
        orderly(s, s.opt_vote(v, ok)),
{
    if s.aggregator.tidy() {
        crate::aggregator::lemma_cast_record_keeps_one_each(s.aggregator.hs_votes, v.spec_ballot());
        crate::aggregator::lemma_above_keeps_one_each(
            s.aggregator.after_hs(v).hs_votes,
            (s.height - 1) as u64,
        );
    }
}

proof fn lemma_opt_block_orderly(s: CoreView, b: BlockView, ancestors: Seq<BlockView>)
    ensures
        orderly(s, s.opt_block(b, ancestors)),
{
    if ancestors.len() >= 2 {
        lemma_commits_ordered(ancestors, s.last_committed_height);
    }
    lemma_cleaned_tidy(s, (s.height - 2) as u64);
}

proof fn lemma_cleaned_tidy(s: CoreView, height: SeqNumber)
    ensures
        s.aggregator.tidy() ==> s.cleaned(height).aggregator.tidy(),
        forall|h: SeqNumber, st: HeightView|
            s.aggregator.tidy() ==> (#[trigger] s.with_at(h, st)).cleaned(height).aggregator.tidy(),
{
    if s.aggregator.tidy() {
        crate::aggregator::lemma_above_keeps_one_each(s.aggregator.spb_votes, height);
        crate::aggregator::lemma_above_keeps_one_each(s.aggregator.pre_votes, height);
        crate::aggregator::lemma_above_keeps_one_each(s.aggregator.coin_shares, height);
    }
}

proof fn lemma_own_opt_proposal_orderly(s: CoreView, b: BlockView, ancestors: Seq<BlockView>)
    ensures
        orderly(s, s.own_opt_proposal(b, ancestors)),
{
    lemma_opt_block_orderly(s, b, ancestors);
}

proof fn lemma_spb_process_orderly(s: CoreView, v: SPBValueView, p: SPBProofView)
    ensures
        orderly(s, s.spb_process(v, p)),
        s.spb_process(v, p).output.result.is_ok(),
        commitless(s.spb_process(v, p).output.actions),
        voteless(s.spb_process(v, p).output.actions),
{
}

proof fn lemma_spb_proposal_orderly(s: CoreView, v: SPBValueView, p: SPBProofView, ok: bool)
    ensures
        orderly(s, s.spb_proposal(v, p, ok)),
{
    lemma_spb_process_orderly(s, v, p);
}

proof fn lemma_own_spb_proposal_orderly(s: CoreView, v: SPBValueView, p: SPBProofView)
    ensures
        orderly(s, s.own_spb_proposal(v, p)),
{
    let st = s.round(v.block.height, v.round);
    let kept = if p.phase == INIT_PHASE && st.propose.is_none() {
        s.with_round(v.block.height, v.round, RoundView { propose: Some(v), ..st })
    } else {
        s
    };
    lemma_spb_process_orderly(kept, v, p);
}

proof fn lemma_spb_vote_orderly(s: CoreView, v: SPBVote, ok: bool)
    ensures
        orderly(s, s.spb_vote(v, ok)),
{
}

proof fn lemma_spb_finish_orderly(s: CoreView, v: SPBValueView, p: SPBProofView, ok: bool)
    ensures
        orderly(s, s.spb_finish(v, p, ok)),
{
}

proof fn lemma_smvba_done_orderly(s: CoreView, d: MDoneAndShare, ok: bool)
    ensures
        orderly(s, s.smvba_done(d, ok)),
{
}

proof fn lemma_smvba_rs_orderly(s: CoreView, share: RandomnessShare)
    ensures
        orderly(s, s.smvba_rs(share)),
{
}

proof fn lemma_smvba_prevote_orderly(s: CoreView, pv: MPreVoteView, ok: bool)
    ensures
        orderly(s, s.smvba_prevote(pv, ok)),
{
}

proof fn lemma_round_advance_orderly(s: CoreView, height: SeqNumber, round: SeqNumber)
    ensures
        orderly(s, s.round_advance(height, round)),
        s.round_advance(height, round).output.result.is_ok(),
{
    let entered = s.entered(height, round);
    match s.round(height, (round - 1) as u64).propose {
        None => {},
        Some(last) => {
            lemma_invoke_orderly(entered, height, round, last.block.qc, last.val, last.signatures);
        },
    }
}

proof fn lemma_tally_orderly(s: CoreView, height: SeqNumber, round: SeqNumber, author: PublicKey)
    ensures
        orderly(s, s.tally(height, round, author)),
        s.tally(height, round, author).output.result.is_ok(),
{
    let counted = s.with_voter(height, round, author);
    if round < u64::MAX {
        lemma_round_advance_orderly(counted, height, (round + 1) as u64);
    }
}

proof fn lemma_smvba_mvote_orderly(s: CoreView, mv: MVoteView, ok: bool)
    ensures
        orderly(s, s.smvba_mvote(mv, ok)),
{
    match mv.tag {
        MVoteTagView::Yes(value, _, vote) => {
            let counted = CoreView { aggregator: s.aggregator.after_pre(vote), ..s };
            lemma_tally_orderly(counted, mv.height, mv.round, mv.author);
        },
        MVoteTagView::No => {
            lemma_tally_orderly(s, mv.height, mv.round, mv.author);
        },
    }
}

proof fn lemma_smvba_out_orderly(s: CoreView, height: SeqNumber, block: BlockView, fin: SPBProofView)
    ensures
        orderly(s, s.smvba_out(height, block, fin)),
        s.smvba_out(height, block, fin).output.result.is_ok(),
{
}

proof fn lemma_smvba_halt_orderly(s: CoreView, h: MHaltView, ok: bool)
    ensures
        orderly(s, s.smvba_halt(h, ok)),
{
    let halted = s.with_at(h.height, HeightView { halt: true, ..s.at(h.height) });
    lemma_smvba_out_orderly(halted, h.height, h.value.block, h.proof);
}

proof fn lemma_par_prepare_orderly(s: CoreView, p: PrePareView, ok: bool)
    ensures
        orderly(s, s.par_prepare(p, ok)),
{
    let hs = s.at(p.height);
    let mine = Signed { author: p.author, signature: p.signature };
    let opts = hs.prepare_opts.push(mine);
    let copy = !hs.prepare_sent && opts.len() == coin_threshold_of(total_stake(s.members));
    let counted = s.with_at(
        p.height,
        HeightView { prepare_opts: opts, prepare_sent: hs.prepare_sent || copy, ..hs },
    );
    match p.proof {
        PrePareProofView::OPTProof(qc) => {
            lemma_invoke_orderly(counted, p.height, 1, qc, OPT, opts);
        },
        _ => {},
    }
    let pess = hs.prepare_pess.push(mine);
    let counted2 = s.with_at(p.height, HeightView { prepare_pess: pess, ..hs });
    lemma_invoke_orderly(counted2, p.height, 1, QCView::genesis(), PES, pess);
}

proof fn lemma_par_out_orderly(s: CoreView, b: BlockView)
    ensures
        orderly(s, s.par_out(b)),
{
    lemma_cleaned_tidy(s, b.height);
}

/// Every event keeps to what `orderly` says.
pub proof fn law_every_step_is_orderly(s: CoreView, e: EventView)
    ensures
        orderly(s, step(s, e)),
{
    match e {
        EventView::Boot => {
            lemma_booted_orderly(s);
        },
        EventView::Handle(input) => {
            let ok = input.own || input.signatures_ok;
            match input.message {
                ConsensusMessageView::HsPropose(b) => {
                    lemma_own_opt_proposal_orderly(s, b, input.ancestors);
                    lemma_opt_proposal_orderly(s, b, input.signatures_ok);
                },
                ConsensusMessageView::HSVote(v) => {
                    lemma_opt_vote_orderly(s, v, ok);
                },
                ConsensusMessageView::HsLoopBack(b) => {
                    lemma_opt_block_orderly(s, b, input.ancestors);
                },
                ConsensusMessageView::SyncRequest(_, _) => {},
                ConsensusMessageView::SyncReply(b) => {
                    lemma_opt_proposal_orderly(s, b, input.signatures_ok);
                },
                ConsensusMessageView::SPBPropose(v, p) => {
                    lemma_own_spb_proposal_orderly(s, v, p);
                    lemma_spb_proposal_orderly(s, v, p, input.signatures_ok);
                },
                ConsensusMessageView::SPBVote(v) => {
                    lemma_spb_vote_orderly(s, v, ok);
                },
                ConsensusMessageView::SPBFinish(v, p) => {
                    lemma_spb_finish_orderly(s, v, p, ok);
                },
                ConsensusMessageView::SPBDoneAndShare(d) => {
                    lemma_smvba_done_orderly(s, d, ok);
                },
                ConsensusMessageView::SMVBAPreVote(pv) => {
                    lemma_smvba_prevote_orderly(s, pv, ok);
                },
                ConsensusMessageView::SMVBAVote(mv) => {
                    lemma_smvba_mvote_orderly(s, mv, ok);
                },
                ConsensusMessageView::SMVBACoinShare(share) => {
                    lemma_smvba_rs_orderly(s, share);
                },
                ConsensusMessageView::SMVBAHalt(h) => {
                    lemma_smvba_halt_orderly(s, h, ok);
                },
                ConsensusMessageView::ParPrePare(p) => {
                    lemma_par_prepare_orderly(s, p, ok);
                },
                ConsensusMessageView::ParLoopBack(b) => {
                    lemma_par_out_orderly(s, b);
                },
            }
        },
    }
}

/// The state after the first `n` events of a run.
pub open spec fn state_at(s: CoreView, events: Seq<EventView>, n: int) -> CoreView
    recommends
        0 <= n <= events.len(),
{
    state_after(s, events.subrange(0, n))
}

proof fn lemma_state_at_next(s: CoreView, events: Seq<EventView>, n: int)
    requires
        0 <= n < events.len(),
    ensures
        state_at(s, events, n + 1) == step(state_at(s, events, n), events[n]).state,
        output_at(s, events, n) == step(state_at(s, events, n), events[n]).output,
        orderly(state_at(s, events, n), step(state_at(s, events, n), events[n])),
{
    assert(events.subrange(0, n + 1).drop_last() =~= events.subrange(0, n));
    law_every_step_is_orderly(state_at(s, events, n), events[n]);
}

/// Along a run the epoch stays, the heights never go down, an agreement
/// that is over stays over, and the aggregator stays tidy.
pub proof fn law_run_is_monotone(s: CoreView, events: Seq<EventView>, m: int, n: int)
    requires
        0 <= m <= n <= events.len(),
    ensures
        state_at(s, events, n).epoch == state_at(s, events, m).epoch,
        state_at(s, events, n).height >= state_at(s, events, m).height,
        state_at(s, events, n).last_voted_height >= state_at(s, events, m).last_voted_height,
        state_at(s, events, n).last_committed_height >= state_at(
            s,
            events,
            m,
        ).last_committed_height,
        forall|h: SeqNumber|
            closed(state_at(s, events, m), h) ==> closed(state_at(s, events, n), h),
        state_at(s, events, m).aggregator.tidy() ==> state_at(s, events, n).aggregator.tidy(),
    decreases n - m,
{
    if m < n {
        law_run_is_monotone(s, events, m, n - 1);
        lemma_state_at_next(s, events, n - 1);
    }
}

/// No replica sends two votes of the optimistic path for one height in
/// one epoch: of two votes that a run sends, the later is for the greater
/// height.
pub proof fn law_no_two_votes_for_one_height(
    s: CoreView,
    events: Seq<EventView>,
    i: int,
    a: int,
    j: int,
    b: int,
)
    requires
        0 <= i <= j < events.len(),
        0 <= a < output_at(s, events, i).actions.len(),
        0 <= b < output_at(s, events, j).actions.len(),
        is_vote(output_at(s, events, i).actions[a]),
        is_vote(output_at(s, events, j).actions[b]),
        i != j || a != b,
    ensures
        i < j,
        output_at(s, events, i).actions[a]->message->HSVote_0.height < output_at(
            s,
            events,
            j,
        ).actions[b]->message->HSVote_0.height,
{
    lemma_state_at_next(s, events, i);
    lemma_state_at_next(s, events, j);
    if i < j {
        law_run_is_monotone(s, events, i + 1, j);
    }
}

/// For any height at most one block is committed in one epoch: of two
/// commits of a run, the later is for the greater height.
pub proof fn law_no_two_commits_for_one_height(
    s: CoreView,
    events: Seq<EventView>,
    i: int,
    a: int,
    j: int,
    b: int,
)
    requires
        0 <= i <= j < events.len(),
        0 <= a < output_at(s, events, i).actions.len(),
        0 <= b < output_at(s, events, j).actions.len(),
        output_at(s, events, i).actions[a] is Commit,
        output_at(s, events, j).actions[b] is Commit,
        i < j || a < b,
    ensures
        committed_height(output_at(s, events, i).actions[a]) < committed_height(
            output_at(s, events, j).actions[b],
        ),
{
    lemma_state_at_next(s, events, i);
    lemma_state_at_next(s, events, j);
    if i < j {
        law_run_is_monotone(s, events, i + 1, j);
    }
}

/// The height and round of the agreement that a message of the broadcasts
/// or of the agreement is about.
pub open spec fn slot_of(m: ConsensusMessageView) -> Option<(SeqNumber, SeqNumber)> {
    match m {
        ConsensusMessageView::SPBPropose(_, p) => Some((p.height, p.round)),
        ConsensusMessageView::SPBVote(v) => Some((v.height, v.round)),
        ConsensusMessageView::SPBFinish(_, p) => Some((p.height, p.round)),
        ConsensusMessageView::SPBDoneAndShare(d) => Some((d.height, d.round)),
        ConsensusMessageView::SMVBAPreVote(pv) => Some((pv.height, pv.round)),
        ConsensusMessageView::SMVBAVote(mv) => Some((mv.height, mv.round)),
        ConsensusMessageView::SMVBACoinShare(share) => Some((share.height, share.round)),
        ConsensusMessageView::SMVBAHalt(h) => Some((h.height, h.round)),
        _ => None,
    }
}

/// Epochs are isolated. When an epoch begins, nothing is left of the state
/// before but who the replica is, how it is configured, and the messages
/// that were set aside for later: two replicas that agree on these begin the
/// epoch in one and the same state, and so run it alike.
pub proof fn law_epoch_begins_afresh(a: CoreView, b: CoreView, epoch: SeqNumber, events: Seq<EventView>)
    requires
        a.name == b.name,
        a.members == b.members,
        a.parameters == b.parameters,
        a.keys == b.keys,
        a.opt_path == b.opt_path,
        a.pes_path == b.pes_path,
        a.deferred == b.deferred,
    ensures
        a.epoch_started(epoch) == b.epoch_started(epoch),
        state_after(a.epoch_started(epoch), events) == state_after(b.epoch_started(epoch), events),
        a.epoch == b.epoch ==> a.next_epoch() == b.next_epoch(),
        a.epoch_started(epoch).last_committed_height == 0,
        a.epoch_started(epoch).last_voted_height == 0,
        a.epoch_started(epoch).aggregator == crate::aggregator::AggregatorView::empty(),
        a.epoch_started(epoch).rounds == Map::<(SeqNumber, SeqNumber), RoundView>::empty(),
        a.epoch_started(epoch).heights == Map::<(SeqNumber, SeqNumber), HeightView>::empty(),
{
}

/// A message of an epoch that is over, arriving from the network, changes
/// nothing and causes no action: in particular no commit.
pub proof fn law_stale_epoch_is_dropped(s: CoreView, input: InputView)
    requires
        !input.own,
        input.message.epoch().is_some(),
        input.message.epoch().unwrap() < s.epoch,
    ensures
        s.handled(input).state == s,
        s.handled(input).output.actions.len() == 0,
{
}

/// Once the agreement of a height is over, a message of the broadcasts or
/// of the agreement for that height that arrives from the network, and is
/// not of a later epoch, is refused as stale and changes nothing.
pub proof fn law_closed_agreement_takes_nothing(s: CoreView, input: InputView)
    requires
        !input.own,
        slot_of(input.message).is_some(),
        input.message.epoch().unwrap() <= s.epoch,
        closed(s, slot_of(input.message).unwrap().0),
    ensures
        s.handled(input) == s.refuse(
            crate::error::ConsensusError::TimeOutMessage(
                slot_of(input.message).unwrap().0,
                slot_of(input.message).unwrap().1,
            ),
        ),
{
}

proof fn lemma_held_is_of_author(list: Seq<crate::messages::BroadcastView>, author: PublicKey)
    ensures
        crate::state::held(list, author).is_some() ==> crate::state::held(
            list,
            author,
        ).unwrap().value.block.author == author && list.contains(
            crate::state::held(list, author).unwrap(),
        ),
    decreases list.len(),
{
    if list.len() > 0 {
        if list.last().value.block.author == author {
            assert(list[list.len() - 1] == list.last());
        } else {
            lemma_held_is_of_author(list.drop_last(), author);
            if crate::state::held(list.drop_last(), author).is_some() {
                let b = crate::state::held(list.drop_last(), author).unwrap();
                let i = choose|i: int| 0 <= i < list.drop_last().len() && list.drop_last()[i] == b;
                assert(list[i] == b);
            }
        }
    }
}

/// The value that a halt delivers is the finished value of the leader that
/// the coin elected. A halt ends the agreement of its height only if the
/// coin of its round is on record and elected the broadcaster of the value
/// that the halt carries; that value's block then is the output of the
/// height. With full validation on, value and proof are in the last phase
/// and the proof rests on the votes of a quorum for the value in the
/// locking phase.
pub proof fn law_halt_delivers_the_leaders_value(s: CoreView, halt: MHaltView, signatures_ok: bool)
    requires
        !s.at(halt.height).halt,
        s.smvba_halt(halt, signatures_ok).state.at(halt.height).halt,
    ensures
        crate::leader::coin_of(s.coins, halt.height, halt.round) == Some(halt.value.block.author),
        s.smvba_halt(halt, signatures_ok).state.at(halt.height).output == Some(halt.value.block),
        s.parameters.exp == 1 ==> {
            &&& halt.value.phase == crate::types::FIN_PHASE
            &&& halt.proof.phase == crate::types::FIN_PHASE
            &&& halt.value.block.author == halt.leader
            &&& crate::quorum::is_quorum(
                crate::validation::voters(halt.proof.shares),
                s.members,
            )
            &&& forall|i: int|
                0 <= i < halt.proof.shares.len() ==> {
                    &&& (#[trigger] halt.proof.shares[i]).phase == crate::types::LOCK_PHASE
                    &&& halt.proof.shares[i].hash == halt.value.block.digest
                }
        },
{
    if s.parameters.exp == 1 {
        crate::validation::law_fin_proof_rests_on_lock_quorum(
            halt.value,
            halt.proof,
            s.members,
            true,
        );
    }
}

/// What a replica says when the coin is revealed is about the elected
/// leader: a halt of its own carries a finished value that the leader
/// broadcast, a pre-vote with `Yes` a locked value that the leader broadcast.
pub proof fn law_coin_reaction_is_about_the_leader(
    s: CoreView,
    height: SeqNumber,
    round: SeqNumber,
    epoch: SeqNumber,
    leader: PublicKey,
)
    ensures
        s.after_coin(height, round, epoch, leader).len() == 1,
        match s.after_coin(height, round, epoch, leader)[0] {
            ActionView::Send { message: ConsensusMessageView::SMVBAHalt(h), to } => {
                &&& to.is_none()
                &&& h.value.block.author == leader
                &&& h.leader == leader
                &&& s.round(height, round).finishes.contains(
                    crate::messages::BroadcastView { value: h.value, proof: h.proof },
                )
            },
            ActionView::Send { message: ConsensusMessageView::SMVBAPreVote(pv), to } => {
                &&& to.is_none()
                &&& pv.leader == leader
                &&& crate::state::held(s.round(height, round).finishes, leader).is_none()
                &&& match pv.tag {
                    crate::messages::PreVoteTagView::Yes(v, p) => v.block.author == leader
                        && s.round(height, round).locks.contains(
                        crate::messages::BroadcastView { value: v, proof: p },
                    ),
                    crate::messages::PreVoteTagView::No => crate::state::held(
                        s.round(height, round).locks,
                        leader,
                    ).is_none(),
                }
            },
            _ => false,
        },
{
    lemma_held_is_of_author(s.round(height, round).finishes, leader);
    lemma_held_is_of_author(s.round(height, round).locks, leader);
}

/// A broadcaster is heard once per phase: after a value of a broadcast was
/// processed, a second value of the same broadcaster for the same height,
/// round and phase is passed over.
pub proof fn law_broadcast_is_taken_once(
    s: CoreView,
    first: SPBValueView,
    first_proof: SPBProofView,
    second: SPBValueView,
    second_proof: SPBProofView,
)
    requires
        second.block.author == first.block.author,
        second.block.height == first.block.height,
        second.round == first.round,
        second.phase == first.phase,
    ensures
        s.spb_process(first, first_proof).state.spb_process(second, second_proof) == s.spb_process(
            first,
            first_proof,
        ).state.idle(),
{
    let st = s.round(first.block.height, first.round);
    let author = first.block.author;
    if first.phase == INIT_PHASE && !st.inits.contains(author) {
        assert(st.inits.push(author)[st.inits.len() as int] == author);
    } else if first.phase == crate::types::LOCK_PHASE && crate::state::held(st.locks, author).is_none() {
        let b = crate::messages::BroadcastView { value: first, proof: first_proof };
        assert(st.locks.push(b).last() == b);
    } else if first.phase == INIT_PHASE {
    } else if first.phase == crate::types::LOCK_PHASE {
    }
}

/// A finished value is taken once per broadcaster: after a finished value
/// was taken, a second one of the same broadcaster for the same height and
/// round changes nothing and causes no action.
pub proof fn law_finish_is_taken_once(
    s: CoreView,
    first: SPBValueView,
    first_proof: SPBProofView,
    second: SPBValueView,
    second_proof: SPBProofView,
    first_ok: bool,
    second_ok: bool,
)
    requires
        s.spb_finish(first, first_proof, first_ok).output.result.is_ok(),
        s.spb_finish(first, first_proof, first_ok).state.spb_finish(
            second,
            second_proof,
            second_ok,
        ).output.result.is_ok(),
        second.block.author == first.block.author,
        second_proof.height == first_proof.height,
        second_proof.round == first_proof.round,
    ensures
        s.spb_finish(first, first_proof, first_ok).state.spb_finish(
            second,
            second_proof,
            second_ok,
        ) == s.spb_finish(first, first_proof, first_ok).state.idle(),
{
    let st = s.round(first_proof.height, first_proof.round);
    let b = crate::messages::BroadcastView { value: first, proof: first_proof };
    assert(st.finishes.push(b).last() == b);
}

/// A replica is heard once in the arbitration of a height: after an
/// arbitration message was taken, a second one of the same author for the
/// same height and path is refused as a reuse and changes nothing.
pub proof fn law_duplicate_prepare_is_refused(
    s: CoreView,
    first: PrePareView,
    second: PrePareView,
    first_ok: bool,
    second_ok: bool,
)
    requires
        s.par_prepare(first, first_ok).output.result.is_ok(),
        second.author == first.author,
        second.height == first.height,
        second.epoch == first.epoch,
        second.val == first.val,
        crate::validation::prepare_check(second, s.members, second_ok).is_ok(),
    ensures
        s.par_prepare(first, first_ok).state.par_prepare(second, second_ok) == s.par_prepare(
            first,
            first_ok,
        ).state.refuse(crate::error::ConsensusError::AuthorityReuseinPrePare(second.author)),
{
    let hs = s.at(first.height);
    let mine = Signed { author: first.author, signature: first.signature };
    assert(hs.prepare_opts.push(mine)[hs.prepare_opts.len() as int].author == second.author);
    assert(hs.prepare_pess.push(mine)[hs.prepare_pess.len() as int].author == second.author);
}

/// A block is committed on a chain of two: whenever processing a block
/// commits anything, the block extends its parent, the parent extends the
/// grandparent, the heights of the three follow each other, and what is
/// committed is the grandparent, last, after ancestors of it.
pub proof fn law_commit_rests_on_a_chain_of_two(
    s: CoreView,
    block: BlockView,
    ancestors: Seq<BlockView>,
    k: int,
)
    requires
        0 <= k < s.opt_block(block, ancestors).output.actions.len(),
        s.opt_block(block, ancestors).output.actions[k] is Commit,
    ensures
        block.epoch == s.epoch,
        crate::opt::has_ancestors(block, ancestors),
        crate::opt::consecutive(ancestors[1], ancestors[0], block),
        s.opt_block(block, ancestors).state.last_committed_height == ancestors[1].height,
        exists|j: int|
            1 <= j < ancestors.len() && s.opt_block(block, ancestors).output.actions[k]
                == ActionView::Commit(#[trigger] ancestors[j]),
        committed_height(s.opt_block(block, ancestors).output.actions[k]) <= ancestors[1].height,
{
    if crate::opt::has_ancestors(block, ancestors) {
        lemma_commit_end(ancestors, 1, s.last_committed_height);
        lemma_commits_ordered(ancestors, s.last_committed_height);
        let c = commits_of(ancestors, s.last_committed_height);
        let end = commit_end(ancestors, 1, s.last_committed_height);
        let actions = s.opt_block(block, ancestors).output.actions;
        let a1 = if s.pes_path && block.height > 2 {
            s.prepare_action(block.height, crate::messages::PrePareProofView::OPTProof(block.qc), OPT)
        } else {
            Seq::empty()
        };
        let a2 = a1.push(ActionView::Store(block));
        if k >= a2.len() && k < a2.len() + c.len() {
            let j = end - 1 - (k - a2.len());
            assert(actions[k] == c[k - a2.len()]);
            assert(actions[k] == ActionView::Commit(ancestors[j]));
        }
    }
}

/// A commit of the optimistic path closes the height for the pessimistic
/// path. When a replica that has entered the height of a block commits on
/// processing it, the agreement of every height that is committed is over:
/// from then on no halt for such a height is taken, so the pessimistic path
/// delivers no other block for it.
pub proof fn law_optimistic_commit_closes_the_height(
    s: CoreView,
    block: BlockView,
    ancestors: Seq<BlockView>,
    k: int,
    halt: MHaltView,
    signatures_ok: bool,
)
    requires
        s.height >= block.height,
        0 <= k < s.opt_block(block, ancestors).output.actions.len(),
        s.opt_block(block, ancestors).output.actions[k] is Commit,
        halt.height == committed_height(s.opt_block(block, ancestors).output.actions[k]),
        halt.epoch <= s.epoch,
    ensures
        closed(s.opt_block(block, ancestors).state, halt.height),
        s.opt_block(block, ancestors).state.smvba_halt(halt, signatures_ok) == s.opt_block(
            block,
            ancestors,
        ).state.refuse(crate::error::ConsensusError::TimeOutMessage(halt.height, halt.round)),
{
    law_commit_rests_on_a_chain_of_two(s, block, ancestors, k);
    lemma_opt_block_orderly(s, block, ancestors);
}

/// The value and the proof that `a` sends to everyone as a proposal or as a
/// finish of a broadcast, if it does.
pub open spec fn broadcast_in(a: ActionView) -> Option<(SPBValueView, SPBProofView)> {
    match a {
        ActionView::Send { message: ConsensusMessageView::SPBPropose(v, p), to: None } => Some(
            (v, p),
        ),
        ActionView::Send { message: ConsensusMessageView::SPBFinish(v, p), to: None } => Some(
            (v, p),
        ),
        _ => None,
    }
}

/// A proof that we send rests on votes for our value. Whatever a vote for
/// our broadcast makes us send is the value that we broadcast in the round,
/// in the phase after that of the vote, with a proof whose shares are votes
/// for that very value in the phase of the vote: each names its digest, its
/// proposer, its epoch, height and round. The voters hold a quorum of the
/// stake, and, where no replica has two ballots in one slot of the record,
/// as is so from the beginning of an epoch on, no voter occurs twice. So a
/// finish goes out only on the votes of a quorum of distinct replicas for
/// the value in the locking phase.
pub proof fn law_our_proof_rests_on_votes_for_our_value(
    s: CoreView,
    vote: SPBVote,
    signatures_ok: bool,
)
    requires
        s.spb_vote(vote, signatures_ok).output.actions.len() > 0,
    ensures
        s.spb_vote(vote, signatures_ok).output.actions.len() == 1,
        broadcast_in(s.spb_vote(vote, signatures_ok).output.actions[0]).is_some(),
        ({
            let sent = s.spb_vote(vote, signatures_ok).output.actions[0];
            let (v, p) = broadcast_in(sent).unwrap();
            let ours = s.round(vote.height, vote.round).propose;
            &&& ours.is_some()
            &&& v == ours.unwrap().at_phase(p.phase)
            &&& v.block.author == s.name
            &&& p.phase == vote.phase + 1
            &&& (sent->message is SPBFinish) == (p.phase == crate::types::FIN_PHASE)
            &&& crate::validation::shape_ok(v, p)
            &&& crate::quorum::stake_sum(crate::validation::voters(p.shares), s.members)
                >= crate::config::quorum_of(total_stake(s.members))
            &&& (crate::aggregator::one_ballot_each(s.aggregator.spb_votes)
                ==> crate::validation::voters(p.shares).no_duplicates())
        }),
{
    let list = s.aggregator.spb_votes;
    let b = vote.spec_ballot();
    let back = crate::aggregator::backing(list, b);
    let all = back.push(b);
    let value = s.round(vote.height, vote.round).propose.unwrap();
    let sent = s.spb_vote(vote, signatures_ok).output.actions[0];
    let (v, p) = broadcast_in(sent).unwrap();
    assert(p.shares == crate::aggregator::as_votes(all));
    crate::aggregator::lemma_backing_members(list, b);
    assert forall|i: int| 0 <= i < p.shares.len() implies crate::validation::share_matches(
        #[trigger] p.shares[i],
        v,
        p,
    ) by {
        if i < back.len() {
            assert(crate::aggregator::same_cause(back[i], b));
            assert(all[i] == back[i]);
        } else {
            assert(all[i] == b);
        }
    }
    assert(all.drop_last() =~= back);
    crate::aggregator::lemma_ballot_stake_is_stake_sum(all, s.members);
    assert(crate::validation::voters(p.shares) =~= crate::aggregator::authors_of(all));
    if crate::aggregator::one_ballot_each(list) {
        crate::aggregator::lemma_cast_record_keeps_one_each(list, b);
        let record = list.push(b);
        assert(record.drop_last() =~= list);
        assert(crate::aggregator::backing(record, b) == all);
        crate::aggregator::lemma_backing_authors_distinct(record, b);
    }
}

/// From the beginning of an epoch on, no replica has two ballots in one
/// slot of the aggregator: so every proof that we send along the run names
/// no voter twice.
pub proof fn law_a_run_keeps_the_aggregator_tidy(s: CoreView, epoch: SeqNumber, events: Seq<EventView>)
    ensures
        state_after(s.epoch_started(epoch), events).aggregator.tidy(),
        state_after(
            CoreView::initial(s.name, s.members, s.parameters, s.keys, s.opt_path, s.pes_path),
            events,
        ).aggregator.tidy(),
{
    let first = s.epoch_started(epoch);
    law_run_is_monotone(first, events, 0, events.len() as int);
    assert(events.subrange(0, 0) =~= Seq::<EventView>::empty());
    assert(events.subrange(0, events.len() as int) =~= events);
    let start = CoreView::initial(s.name, s.members, s.parameters, s.keys, s.opt_path, s.pes_path);
    law_run_is_monotone(start, events, 0, events.len() as int);
}

/// The vote that completes a quorum makes the certificate and moves the
/// replica on. A vote of our epoch for our height or a later one, in order
/// and its author's first for the height, that lifts the voting power behind
/// its block to the quorum yields the certificate over the votes for that
/// block, the new one last; the replica enters the height after that of the
/// vote, holds the certificate as its highest unless it held a higher one,
/// and proposes if and only if it leads the height that it entered. A vote
/// that is counted without reaching the quorum changes nothing but the record.
pub proof fn law_quorum_of_votes_moves_on(s: CoreView, vote: HVote, signatures_ok: bool)
    requires
        vote.height >= s.height,
        vote.height < u64::MAX,
        vote.epoch == s.epoch,
        crate::validation::vote_check(vote.author, s.members, signatures_ok).is_ok(),
        !crate::aggregator::has_cast(s.aggregator.hs_votes, vote.spec_ballot()),
    ensures
        ({
            let q = crate::config::quorum_of(total_stake(s.members));
            let behind = crate::aggregator::backing_stake(
                s.aggregator.hs_votes,
                vote.spec_ballot(),
                s.members,
            );
            let reached = behind < q <= behind + crate::config::stake_of(s.members, vote.author);
            let after = s.opt_vote(vote, signatures_ok);
            let qc = QCView {
                hash: vote.hash,
                height: vote.height,
                epoch: vote.epoch,
                votes: crate::aggregator::signed_by(
                    crate::aggregator::backing(s.aggregator.hs_votes, vote.spec_ballot()).push(
                        vote.spec_ballot(),
                    ),
                ),
            };
            &&& after.output.result.is_ok()
            &&& reached ==> {
                &&& after.state.height == vote.height + 1
                &&& after.state.high_qc == (if vote.height > s.high_qc.height {
                    qc
                } else {
                    s.high_qc
                })
                &&& after.output.actions == after.state.own_proposal()
                &&& crate::quorum::stake_sum(crate::validation::signers(qc.votes), s.members) >= q
            }
            &&& !reached ==> {
                &&& after.state == (CoreView {
                    aggregator: s.aggregator.after_hs(vote),
                    ..s
                })
                &&& after.output.actions.len() == 0
            }
        }),
{
    let b = vote.spec_ballot();
    let back = crate::aggregator::backing(s.aggregator.hs_votes, b);
    let all = back.push(b);
    assert(all.drop_last() =~= back);
    crate::aggregator::lemma_ballot_stake_is_stake_sum(all, s.members);
    assert(crate::validation::signers(crate::aggregator::signed_by(all))
        =~= crate::aggregator::authors_of(all));
}

/// A halt that we build from votes carries a value with a proof that
/// rests on votes for it. Whatever a vote of the agreement makes us send is
/// a halt with the leader's value in the last phase and a proof whose shares
/// are votes for that very value in the locking phase. The voters hold a
/// quorum of the stake, and in a tidy aggregator no voter occurs twice.
pub proof fn law_our_halt_rests_on_votes_for_its_value(
    s: CoreView,
    mv: MVoteView,
    signatures_ok: bool,
    k: int,
)
    requires
        0 <= k < s.smvba_mvote(mv, signatures_ok).output.actions.len(),
        s.smvba_mvote(mv, signatures_ok).output.actions[k] is Send,
        s.smvba_mvote(mv, signatures_ok).output.actions[k]->message is SMVBAHalt,
    ensures
        ({
            let h = s.smvba_mvote(mv, signatures_ok).output.actions[k]->message->SMVBAHalt_0;
            &&& mv.tag is Yes
            &&& h.value == mv.tag->Yes_0.at_phase(crate::types::FIN_PHASE)
            &&& h.value.block.author == h.leader
            &&& h.leader == mv.leader
            &&& h.height == mv.height
            &&& h.round == mv.round
            &&& h.proof.phase == crate::types::FIN_PHASE
            &&& crate::validation::shape_ok(h.value, h.proof)
            &&& crate::quorum::stake_sum(crate::validation::voters(h.proof.shares), s.members)
                >= crate::config::quorum_of(total_stake(s.members))
            &&& (s.aggregator.tidy() ==> crate::validation::voters(h.proof.shares).no_duplicates())
        }),
{
    let counted = match mv.tag {
        MVoteTagView::Yes(_, _, vote) => CoreView {
            aggregator: s.aggregator.after_pre(vote),
            ..s
        },
        MVoteTagView::No => s,
    };
    lemma_tally_orderly(counted, mv.height, mv.round, mv.author);
    lemma_tally_haltless(counted, mv.height, mv.round, mv.author);
    match mv.tag {
        MVoteTagView::Yes(value, _, vote) => {
            let list = s.aggregator.pre_votes;
            let b = vote.spec_ballot();
            let back = crate::aggregator::backing(list, b);
            let all = back.push(b);
            let h = s.smvba_mvote(mv, signatures_ok).output.actions[k]->message->SMVBAHalt_0;
            assert(h.proof.shares == crate::aggregator::as_votes(all));
            crate::aggregator::lemma_backing_members(list, b);
            assert forall|i: int|
                0 <= i < h.proof.shares.len() implies crate::validation::share_matches(
                #[trigger] h.proof.shares[i],
                h.value,
                h.proof,
            ) by {
                if i < back.len() {
                    assert(crate::aggregator::same_cause(back[i], b));
                    assert(all[i] == back[i]);
                } else {
                    assert(all[i] == b);
                }
            }
            assert(all.drop_last() =~= back);
            crate::aggregator::lemma_ballot_stake_is_stake_sum(all, s.members);
            assert(crate::validation::voters(h.proof.shares) =~= crate::aggregator::authors_of(
                all,
            ));
            if s.aggregator.tidy() {
                crate::aggregator::lemma_cast_record_keeps_one_each(list, b);
                let record = list.push(b);
                assert(record.drop_last() =~= list);
                assert(crate::aggregator::backing(record, b) == all);
                crate::aggregator::lemma_backing_authors_distinct(record, b);
            }
        },
        MVoteTagView::No => {},
    }
}

proof fn lemma_tally_haltless(s: CoreView, height: SeqNumber, round: SeqNumber, author: PublicKey)
    ensures
        forall|k: int|
            0 <= k < s.tally(height, round, author).output.actions.len() ==> !((
            #[trigger] s.tally(height, round, author).output.actions[k]) is Send),
{
}

} // verus!
