//! Handling an input a second time.
//!
//! An input that was taken leaves the state such that the same input, handled
//! again, leaves it as it is: what the input had to add is there, and is not
//! added twice.

use crate::aggregator::{above, cast_record, has_cast, same_slot, Ballot};
use crate::messages::{
    BlockView, BroadcastView, ConsensusMessageView, HVote, MDoneAndShare, MHaltView, MPreVoteView,
    MVoteTagView, MVoteView, PrePareView, RandomnessShare, SPBProofView, SPBValueView, SPBVote,
    Signed,
};
use crate::replica::InputView;
use crate::state::{has_signed, with_key, CoreView, RoundView};
use crate::types::{PublicKey, SeqNumber, INIT_PHASE};
use vstd::prelude::*;

verus! {

proof fn lemma_above_twice<S>(list: Seq<Ballot<S>>, height: SeqNumber)
    ensures
        above(above(list, height), height) == above(list, height),
    decreases list.len(),
{
    if list.len() > 0 {
        lemma_above_twice(list.drop_last(), height);
        let front = above(list.drop_last(), height);
        if list.last().height > height {
            assert(front.push(list.last()).drop_last() =~= front);
        }
    }
}

proof fn lemma_cleaned_twice(s: CoreView, height: SeqNumber)
    ensures
        s.cleaned(height).cleaned(height) == s.cleaned(height),
{
    lemma_above_twice(s.aggregator.coin_shares, height);
    lemma_above_twice(s.aggregator.spb_votes, height);
    lemma_above_twice(s.aggregator.pre_votes, height);
    let once = s.cleaned(height);
    let twice = once.cleaned(height);
    assert(twice.rounds =~= once.rounds);
    assert(twice.heights =~= once.heights);
}

proof fn lemma_has_cast_after<S>(list: Seq<Ballot<S>>, b: Ballot<S>)
    ensures
        has_cast(cast_record(list, b), b),
{
    if !has_cast(list, b) {
        let record = list.push(b);
        assert(same_slot(record[list.len() as int], b));
    }
}

proof fn lemma_with_key_twice(list: Seq<PublicKey>, name: PublicKey)
    ensures
        with_key(with_key(list, name), name) == with_key(list, name),
{
    if !list.contains(name) {
        assert(list.push(name)[list.len() as int] == name);
    }
}

proof fn lemma_has_signed_after(list: Seq<Signed>, mine: Signed)
    ensures
        has_signed(list.push(mine), mine.author),
{
    assert(list.push(mine)[list.len() as int].author == mine.author);
}

proof fn lemma_opt_proposal_twice(s: CoreView, b: BlockView, ok: bool)
    requires
        s.opt_proposal(b, ok).output.result.is_ok(),
    ensures
        s.opt_proposal(b, ok).state.opt_proposal(b, ok).state == s.opt_proposal(b, ok).state,
{
}

proof fn lemma_opt_vote_twice(s: CoreView, v: HVote, ok: bool)
    requires
        s.opt_vote(v, ok).output.result.is_ok(),
    ensures
        s.opt_vote(v, ok).state.opt_vote(v, ok).state == s.opt_vote(v, ok).state,
{
    lemma_has_cast_after(s.aggregator.hs_votes, v.spec_ballot());
}

proof fn lemma_opt_block_twice(s: CoreView, b: BlockView, ancestors: Seq<BlockView>)
    requires
        s.opt_block(b, ancestors).output.result.is_ok(),
    ensures
        s.opt_block(b, ancestors).state.opt_block(b, ancestors).state == s.opt_block(
            b,
            ancestors,
        ).state,
{
    let once = s.opt_block(b, ancestors).state;
    let twice = once.opt_block(b, ancestors).state;
    if s.pes_path && s.height > 2 {
        let floor = (s.height - 2) as u64;
        lemma_cleaned_twice(s.prepared(b.height), floor);
        lemma_above_twice(s.aggregator.coin_shares, floor);
        lemma_above_twice(s.aggregator.spb_votes, floor);
        lemma_above_twice(s.aggregator.pre_votes, floor);
    }
    assert(twice.rounds =~= once.rounds);
    assert(twice.heights =~= once.heights);
}

proof fn lemma_spb_process_twice(s: CoreView, v: SPBValueView, p: SPBProofView)
    ensures
        s.spb_process(v, p).state.spb_process(v, p).state == s.spb_process(v, p).state,
{
    crate::laws::law_broadcast_is_taken_once(s, v, p, v, p);
}

proof fn lemma_spb_proposal_twice(s: CoreView, v: SPBValueView, p: SPBProofView, ok: bool)
    requires
        s.spb_proposal(v, p, ok).output.result.is_ok(),
    ensures
        s.spb_proposal(v, p, ok).state.spb_proposal(v, p, ok).state == s.spb_proposal(
            v,
            p,
            ok,
        ).state,
{
    lemma_spb_process_twice(s, v, p);
}

proof fn lemma_own_spb_proposal_twice(s: CoreView, v: SPBValueView, p: SPBProofView)
    ensures
        s.own_spb_proposal(v, p).state.own_spb_proposal(v, p).state == s.own_spb_proposal(
            v,
            p,
        ).state,
{
    let st = s.round(v.block.height, v.round);
    let kept = if p.phase == INIT_PHASE && st.propose.is_none() {
        s.with_round(v.block.height, v.round, RoundView { propose: Some(v), ..st })
    } else {
        s
    };
    lemma_spb_process_twice(kept, v, p);
}

proof fn lemma_spb_vote_twice(s: CoreView, v: SPBVote, ok: bool)
    requires
        s.spb_vote(v, ok).output.result.is_ok(),
    ensures
        s.spb_vote(v, ok).state.spb_vote(v, ok).state == s.spb_vote(v, ok).state,
{
    lemma_has_cast_after(s.aggregator.spb_votes, v.spec_ballot());
}

proof fn lemma_spb_finish_twice(s: CoreView, v: SPBValueView, p: SPBProofView, ok: bool)
    requires
        s.spb_finish(v, p, ok).output.result.is_ok(),
    ensures
        s.spb_finish(v, p, ok).state.spb_finish(v, p, ok).state == s.spb_finish(v, p, ok).state,
{
    let st = s.round(p.height, p.round);
    let b = BroadcastView { value: v, proof: p };
    assert(st.finishes.push(b).last() == b);
}

proof fn lemma_smvba_done_twice(s: CoreView, d: MDoneAndShare, ok: bool)
    requires
        s.smvba_done(d, ok).output.result.is_ok(),
    ensures
        s.smvba_done(d, ok).state.smvba_done(d, ok).state == s.smvba_done(d, ok).state,
{
    let st = s.round(d.height, d.round);
    lemma_with_key_twice(st.dones, d.author);
    let once = s.smvba_done(d, ok).state;
    let twice = once.smvba_done(d, ok).state;
    assert(twice.rounds =~= once.rounds);
}

proof fn lemma_smvba_rs_twice(s: CoreView, share: RandomnessShare)
    requires
        s.smvba_rs(share).output.result.is_ok(),
    ensures
        s.smvba_rs(share).state.smvba_rs(share).state == s.smvba_rs(share).state,
{
    lemma_has_cast_after(s.aggregator.coin_shares, share.spec_ballot());
    match s.aggregator.coin_result(share, s.members, s.keys) {
        Ok(Some(coin)) => {
            crate::leader::law_coin_leader_is_stable(
                s.coins,
                coin.height,
                coin.round,
                coin.leader,
                coin.leader,
            );
        },
        _ => {},
    }
}

proof fn lemma_smvba_prevote_twice(s: CoreView, pv: MPreVoteView, ok: bool)
    requires
        s.smvba_prevote(pv, ok).output.result.is_ok(),
    ensures
        s.smvba_prevote(pv, ok).state.smvba_prevote(pv, ok).state == s.smvba_prevote(
            pv,
            ok,
        ).state,
{
    let st = s.round(pv.height, pv.round);
    lemma_with_key_twice(st.no_prevotes, pv.author);
    let once = s.smvba_prevote(pv, ok).state;
    let twice = once.smvba_prevote(pv, ok).state;
    assert(twice.rounds =~= once.rounds);
}

proof fn lemma_tally_twice(s: CoreView, height: SeqNumber, round: SeqNumber, author: PublicKey)
    ensures
        ({
            let once = s.tally(height, round, author).state;
            ||| once.tally(height, round, author).state == once
            ||| once.at(height).current_round > round
        }),
        s.tally(height, round, author).state.aggregator == s.aggregator,
        s.tally(height, round, author).state.epoch == s.epoch,
        s.tally(height, round, author).state.height == s.height,
        s.tally(height, round, author).state.members == s.members,
        s.tally(height, round, author).state.parameters == s.parameters,
{
    let st = s.round(height, round);
    lemma_with_key_twice(st.votes, author);
    let once = s.tally(height, round, author).state;
    let counted = s.with_voter(height, round, author);
    if counted.round(height, round).votes.len() == crate::config::quorum_of(
        crate::config::total_stake(s.members),
    ) && round < u64::MAX {
    } else {
        let twice = once.tally(height, round, author).state;
        assert(twice.rounds =~= once.rounds);
    }
}

proof fn lemma_smvba_mvote_twice(s: CoreView, mv: MVoteView, ok: bool)
    requires
        s.smvba_mvote(mv, ok).output.result.is_ok(),
    ensures
        s.smvba_mvote(mv, ok).state.smvba_mvote(mv, ok).state == s.smvba_mvote(mv, ok).state,
{
    match mv.tag {
        MVoteTagView::Yes(value, _, vote) => {
            lemma_has_cast_after(s.aggregator.pre_votes, vote.spec_ballot());
            let counted = CoreView { aggregator: s.aggregator.after_pre(vote), ..s };
            lemma_tally_twice(counted, mv.height, mv.round, mv.author);
        },
        MVoteTagView::No => {
            lemma_tally_twice(s, mv.height, mv.round, mv.author);
        },
    }
}

proof fn lemma_smvba_halt_twice(s: CoreView, h: MHaltView, ok: bool)
    requires
        s.smvba_halt(h, ok).output.result.is_ok(),
    ensures
        s.smvba_halt(h, ok).state.smvba_halt(h, ok).state == s.smvba_halt(h, ok).state,
{
}

proof fn lemma_par_prepare_twice(s: CoreView, p: PrePareView, ok: bool)
    requires
        s.par_prepare(p, ok).output.result.is_ok(),
    ensures
        s.par_prepare(p, ok).state.par_prepare(p, ok).state == s.par_prepare(p, ok).state,
{
    let hs = s.at(p.height);
    let mine = Signed { author: p.author, signature: p.signature };
    lemma_has_signed_after(hs.prepare_opts, mine);
    lemma_has_signed_after(hs.prepare_pess, mine);
}

proof fn lemma_par_out_twice(s: CoreView, b: BlockView)
    requires
        s.par_out(b).output.result.is_ok(),
    ensures
        s.par_out(b).state.par_out(b).state == s.par_out(b).state,
{
}

/// Handling a message that was taken a second time leaves the state as the
/// first handling left it.
pub proof fn law_handling_twice_is_handling_once(s: CoreView, input: InputView)
    requires
        s.handled(input).output.result.is_ok(),
    ensures
        s.handled(input).state.handled(input).state == s.handled(input).state,
{
    let ok = input.own || input.signatures_ok;
    match input.message {
        ConsensusMessageView::HsPropose(b) => {
            if input.own {
                lemma_opt_block_twice(s, b, input.ancestors);
            } else {
                lemma_opt_proposal_twice(s, b, input.signatures_ok);
            }
        },
        ConsensusMessageView::HSVote(v) => {
            lemma_opt_vote_twice(s, v, ok);
        },
        ConsensusMessageView::HsLoopBack(b) => {
            lemma_opt_block_twice(s, b, input.ancestors);
        },
        ConsensusMessageView::SyncRequest(_, _) => {},
        ConsensusMessageView::SyncReply(b) => {
            lemma_opt_proposal_twice(s, b, input.signatures_ok);
        },
        ConsensusMessageView::SPBPropose(v, p) => {
            if input.own {
                lemma_own_spb_proposal_twice(s, v, p);
            } else {
                lemma_spb_proposal_twice(s, v, p, input.signatures_ok);
            }
        },
        ConsensusMessageView::SPBVote(v) => {
            lemma_spb_vote_twice(s, v, ok);
        },
        ConsensusMessageView::SPBFinish(v, p) => {
            lemma_spb_finish_twice(s, v, p, ok);
        },
        ConsensusMessageView::SPBDoneAndShare(d) => {
            lemma_smvba_done_twice(s, d, ok);
        },
        ConsensusMessageView::SMVBAPreVote(pv) => {
            lemma_smvba_prevote_twice(s, pv, ok);
        },
        ConsensusMessageView::SMVBAVote(mv) => {
            lemma_smvba_mvote_twice(s, mv, ok);
        },
        ConsensusMessageView::SMVBACoinShare(share) => {
            lemma_smvba_rs_twice(s, share);
        },
        ConsensusMessageView::SMVBAHalt(h) => {
            lemma_smvba_halt_twice(s, h, ok);
        },
        ConsensusMessageView::ParPrePare(p) => {
            lemma_par_prepare_twice(s, p, ok);
        },
        ConsensusMessageView::ParLoopBack(b) => {
            lemma_par_out_twice(s, b);
        },
    }
}

} // verus!
