//! Keeps track of the blocks that wait for their payload, and of the payload
//! that was asked for.
//!
//! The synchronizer decides; the runtime reads the store and the clock,
//! waits, and sends. Each function here takes what the runtime found and hands
//! back what it has to do.

use crate::config::{index_of, others_of, Committee};
use crate::error::ConsensusError;
use crate::messages::{Block, BlockView, ConsensusMessage, ConsensusMessageView};
use crate::types::{seq_view, Digest, PublicKey, SeqNumber, OPT};
use vstd::prelude::*;

verus! {

/// A block that waits for its payload.
#[derive(Clone, Copy, Debug)]
pub struct Waiting {
    /// Digest of the block.
    pub block: Digest,
    /// Height of the block.
    pub round: SeqNumber,
}

/// A payload that was asked for.
#[derive(Clone, Copy, Debug)]
pub struct Asked {
    /// Digest of the payload.
    pub payload: Digest,
    /// Height of the block that needs it.
    pub round: SeqNumber,
    /// When it was asked for, in milliseconds.
    pub timestamp: u128,
}

/// What the runtime has to do for the synchronizer.
#[derive(Debug)]
pub enum SyncAction {
    /// Wait until the store holds every payload in `missing`, then hand the
    /// block to `Synchronizer::delivered` with the same tag, unless the wait
    /// is cancelled first.
    Wait { block: Block, tag: u8, missing: Vec<Digest> },
    /// Ask `to`, or every other member when `to` is `None`, for these payloads.
    Request { digests: Vec<Digest>, to: Option<PublicKey> },
    /// Cancel the wait for the block of this digest.
    Cancel(Digest),
    /// Hand this message to the consensus core.
    LoopBack(ConsensusMessage),
}

pub enum SyncActionView {
    Wait { block: BlockView, tag: u8, missing: Seq<Digest> },
    Request { digests: Seq<Digest>, to: Option<PublicKey> },
    Cancel(Digest),
    LoopBack(ConsensusMessageView),
}

impl View for SyncAction {
    type V = SyncActionView;

    open spec fn view(&self) -> SyncActionView {
        match self {
            SyncAction::Wait { block, tag, missing } => SyncActionView::Wait {
                block: block@,
                tag: *tag,
                missing: missing@,
            },
            SyncAction::Request { digests, to } => SyncActionView::Request {
                digests: digests@,
                to: *to,
            },
            SyncAction::Cancel(d) => SyncActionView::Cancel(*d),
            SyncAction::LoopBack(m) => SyncActionView::LoopBack(m@),
        }
    }
}

/// The elements of `s` that satisfy `p`, in order.
pub open spec fn keep<T>(s: Seq<T>, p: spec_fn(T) -> bool) -> Seq<T>
    decreases s.len(),
{
    if s.len() == 0 {
        Seq::empty()
    } else if p(s.last()) {
        keep(s.drop_last(), p).push(s.last())
    } else {
        keep(s.drop_last(), p)
    }
}

/// Whether the payload at position `i` is in the store, by what the runtime
/// found: a position that it did not report counts as missing.
pub open spec fn stored_at(stored: Seq<bool>, i: int) -> bool {
    0 <= i < stored.len() && stored[i]
}

/// The payloads of `payload` that are not in the store, each once, in the
/// order in which they first occur.
pub open spec fn missing_of(payload: Seq<Digest>, stored: Seq<bool>) -> Seq<Digest>
    decreases payload.len(),
{
    if payload.len() == 0 {
        Seq::empty()
    } else {
        let front = missing_of(payload.drop_last(), stored);
        if !stored_at(stored, payload.len() - 1) && !front.contains(payload.last()) {
            front.push(payload.last())
        } else {
            front
        }
    }
}

/// Whether `block` waits for its payload.
pub open spec fn is_waiting(pending: Seq<Waiting>, block: Digest) -> bool {
    exists|i: int| 0 <= i < pending.len() && (#[trigger] pending[i]).block == block
}

/// Whether `payload` was asked for.
pub open spec fn is_asked(requests: Seq<Asked>, payload: Digest) -> bool {
    exists|i: int| 0 <= i < requests.len() && (#[trigger] requests[i]).payload == payload
}

/// The requests on record after `digests` were asked for at `now` for a
/// block of height `round`.
pub open spec fn with_asked(requests: Seq<Asked>, digests: Seq<Digest>, round: SeqNumber, now: u128) -> Seq<
    Asked,
> {
    requests + digests.map_values(|d: Digest| Asked { payload: d, round, timestamp: now })
}

/// The digests of the blocks in `pending`.
pub open spec fn blocks_of(pending: Seq<Waiting>) -> Seq<Digest> {
    pending.map_values(|w: Waiting| w.block)
}

/// The digests of the payloads in `requests`.
pub open spec fn payloads_of(requests: Seq<Asked>) -> Seq<Digest> {
    requests.map_values(|a: Asked| a.payload)
}

/// One cancellation for each digest.
pub open spec fn cancels(digests: Seq<Digest>) -> Seq<SyncActionView> {
    digests.map_values(|d: Digest| SyncActionView::Cancel(d))
}

/// The message that hands `block` back to the core on the path of `tag`.
pub open spec fn loop_back(block: BlockView, tag: u8) -> ConsensusMessageView {
    if tag == OPT {
        ConsensusMessageView::HsLoopBack(block)
    } else {
        ConsensusMessageView::ParLoopBack(block)
    }
}

/// The state of a synchronizer as the contracts see it.
pub struct SynchronizerView {
    pub name: PublicKey,
    pub sync_retry_delay: u64,
    pub pending: Seq<Waiting>,
    pub requests: Seq<Asked>,
}

/// The outcome of one function of the synchronizer in the model.
pub struct SyncStep {
    pub state: SynchronizerView,
    pub actions: Seq<SyncActionView>,
}

impl SynchronizerView {
    /// A block misses payload. If the block waits already, nothing happens.
    /// Else it is put on record and waited for, and the payloads that were
    /// not asked for yet are asked of the block's author.
    pub open spec fn sync(self, missing: Seq<Digest>, block: BlockView, tag: u8, now: u128) -> SyncStep {
        let fresh = keep(missing, |d: Digest| !is_asked(self.requests, d));
        let wait = SyncActionView::Wait { block, tag, missing };
        if is_waiting(self.pending, block.digest) {
            SyncStep { state: self, actions: Seq::empty() }
        } else {
            SyncStep {
                state: SynchronizerView {
                    pending: self.pending.push(Waiting { block: block.digest, round: block.height }),
                    requests: if fresh.len() == 0 {
                        self.requests
                    } else {
                        with_asked(self.requests, fresh, block.height, now)
                    },
                    ..self
                },
                actions: if fresh.len() == 0 {
                    seq![wait]
                } else {
                    seq![wait, SyncActionView::Request { digests: fresh, to: Some(block.author) }]
                },
            }
        }
    }

    /// Everything up to height `round` is dropped: the waits for such blocks
    /// are cancelled, and what was asked for them is forgotten.
    pub open spec fn clean(self, round: SeqNumber) -> SyncStep {
        SyncStep {
            state: SynchronizerView {
                pending: keep(self.pending, |w: Waiting| w.round > round),
                requests: keep(self.requests, |a: Asked| a.round > round),
                ..self
            },
            actions: cancels(blocks_of(keep(self.pending, |w: Waiting| w.round <= round))),
        }
    }

    /// The payload of a block has arrived: the block no longer waits, its
    /// payloads are no longer asked for, and it goes back to the core on the
    /// path that it came from.
    pub open spec fn deliver(self, block: BlockView, tag: u8) -> SyncStep {
        SyncStep {
            state: SynchronizerView {
                pending: keep(self.pending, |w: Waiting| w.block != block.digest),
                requests: keep(self.requests, |a: Asked| !block.payload.contains(a.payload)),
                ..self
            },
            actions: seq![SyncActionView::LoopBack(loop_back(block, tag))],
        }
    }

    /// The payloads that were asked for longer ago than the retry delay.
    pub open spec fn overdue(self, now: u128) -> Seq<Digest> {
        payloads_of(
            keep(self.requests, |a: Asked| a.timestamp + self.sync_retry_delay < now),
        )
    }

    /// The timer fires: what is overdue is asked of everyone.
    pub open spec fn tick(self, now: u128) -> Seq<SyncActionView> {
        if self.overdue(now).len() == 0 {
            Seq::empty()
        } else {
            seq![SyncActionView::Request { digests: self.overdue(now), to: None }]
        }
    }
}

/// The recipients of a message of `from`: `to` alone if it is a member, or
/// every other member when `to` is `None`.
pub open spec fn recipients(members: Seq<crate::config::Authority>, from: PublicKey, to: Option<PublicKey>) -> Result<
    Seq<PublicKey>,
    ConsensusError,
> {
    match to {
        Some(k) => if index_of(members, k).is_some() {
            Ok(seq![k])
        } else {
            Err(ConsensusError::NotInCommittee(k))
        },
        None => Ok(others_of(members, from)),
    }
}

/// The view of a list of recipients.
pub open spec fn recipients_view(r: Result<Vec<PublicKey>, ConsensusError>) -> Result<
    Seq<PublicKey>,
    ConsensusError,
> {
    match r {
        Ok(v) => Ok(v@),
        Err(e) => Err(e),
    }
}

/// Tracks the blocks that wait for payload.
pub struct Synchronizer {
    name: PublicKey,
    sync_retry_delay: u64,
    pending: Vec<Waiting>,
    requests: Vec<Asked>,
}

impl View for Synchronizer {
    type V = SynchronizerView;

    closed spec fn view(&self) -> SynchronizerView {
        SynchronizerView {
            name: self.name,
            sync_retry_delay: self.sync_retry_delay,
            pending: self.pending@,
            requests: self.requests@,
        }
    }
}

fn waits(pending: &Vec<Waiting>, block: &Digest) -> (r: bool)
    ensures
        r == is_waiting(pending@, *block),
{
    let mut i: usize = 0;
    while i < pending.len()
        invariant
            i <= pending.len(),
            forall|k: int| 0 <= k < i ==> (#[trigger] pending@[k]).block != *block,
        decreases pending.len() - i,
    {
        if pending[i].block == *block {
            return true;
        }
        i += 1;
    }
    false
}

fn asked(requests: &Vec<Asked>, payload: &Digest) -> (r: bool)
    ensures
        r == is_asked(requests@, *payload),
{
    let mut i: usize = 0;
    while i < requests.len()
        invariant
            i <= requests.len(),
            forall|k: int| 0 <= k < i ==> (#[trigger] requests@[k]).payload != *payload,
        decreases requests.len() - i,
    {
        if requests[i].payload == *payload {
            return true;
        }
        i += 1;
    }
    false
}

fn holds(list: &Vec<Digest>, d: &Digest) -> (r: bool)
    ensures
        r == list@.contains(*d),
{
    let mut i: usize = 0;
    while i < list.len()
        invariant
            i <= list.len(),
            forall|k: int| 0 <= k < i ==> list@[k] != *d,
        decreases list.len() - i,
    {
        if list[i] == *d {
            return true;
        }
        i += 1;
    }
    false
}

/// The views of the actions.
pub open spec fn sync_views(actions: Seq<SyncAction>) -> Seq<SyncActionView> {
    seq_view(actions)
}

impl Synchronizer {
    /// A synchronizer of the replica `name` that tracks nothing yet.
    pub fn new(name: PublicKey, sync_retry_delay: u64) -> (r: Synchronizer)
        ensures
            r@ == (SynchronizerView {
                name,
                sync_retry_delay,
                pending: Seq::empty(),
                requests: Seq::empty(),
            }),
    {
        Synchronizer { name, sync_retry_delay, pending: Vec::new(), requests: Vec::new() }
    }

    /// Number of blocks that wait.
    pub fn pending_count(&self) -> (r: usize)
        ensures
            r == self@.pending.len(),
    {
        self.pending.len()
    }

    /// Number of payloads that were asked for and have not arrived.
    pub fn request_count(&self) -> (r: usize)
        ensures
            r == self@.requests.len(),
    {
        self.requests.len()
    }

    /// The members that a message of `from` goes to.
    pub fn transmit(from: &PublicKey, to: Option<&PublicKey>, committee: &Committee) -> (r: Result<
        Vec<PublicKey>,
        ConsensusError,
    >)
        requires
            committee.wf(),
        ensures
            recipients_view(r) == recipients(
                committee@,
                *from,
                match to {
                    Some(k) => Some(*k),
                    None => None,
                },
            ),
    {
        match to {
            Some(k) => {
                if committee.id(k).is_some() {
                    let mut out: Vec<PublicKey> = Vec::new();
                    out.push(*k);
                    assert(out@ =~= seq![*k]);
                    Ok(out)
                } else {
                    Err(ConsensusError::NotInCommittee(*k))
                }
            },
            None => Ok(committee.others(from)),
        }
    }

    /// Puts a block that misses payload on record.
    fn sync(&mut self, missing: Vec<Digest>, block: Block, tag: u8, now: u128) -> (r: Vec<
        SyncAction,
    >)
        ensures
            (SyncStep { state: final(self)@, actions: sync_views(r@) }) == old(self)@.sync(
                missing@,
                block@,
                tag,
                now,
            ),
    {
        let mut actions: Vec<SyncAction> = Vec::new();
        if waits(&self.pending, &block.digest) {
            assert(sync_views(actions@) =~= Seq::empty());
            return actions;
        }
        let ghost before = self.requests@;
        let author = block.author;
        let round = block.height;
        self.pending.push(Waiting { block: block.digest, round });
        let mut fresh: Vec<Digest> = Vec::new();
        let mut i: usize = 0;
        while i < missing.len()
            invariant
                i <= missing.len(),
                before == self.requests@,
                fresh@ == keep(missing@.subrange(0, i as int), |d: Digest| !is_asked(before, d)),
            decreases missing.len() - i,
        {
            assert(missing@.subrange(0, i as int + 1).drop_last() =~= missing@.subrange(
                0,
                i as int,
            ));
            if !asked(&self.requests, &missing[i]) {
                fresh.push(missing[i]);
            }
            i += 1;
        }
        assert(missing@.subrange(0, i as int) =~= missing@);
        let wait = SyncAction::Wait { block, tag, missing };
        if fresh.len() == 0 {
            actions.push(wait);
            assert(sync_views(actions@) =~= seq![wait@]);
            return actions;
        }
        let ghost waiting = self.pending@;
        let mut j: usize = 0;
        assert(self.requests@ =~= with_asked(before, fresh@.subrange(0, 0), round, now));
        while j < fresh.len()
            invariant
                j <= fresh.len(),
                self.requests@ == with_asked(before, fresh@.subrange(0, j as int), round, now),
                self.pending@ == waiting,
                self.name == old(self).name,
                self.sync_retry_delay == old(self).sync_retry_delay,
            decreases fresh.len() - j,
        {
            self.requests.push(Asked { payload: fresh[j], round, timestamp: now });
            j += 1;
            assert(self.requests@ =~= with_asked(before, fresh@.subrange(0, j as int), round, now));
        }
        assert(fresh@.subrange(0, j as int) =~= fresh@);
        let request = SyncAction::Request { digests: fresh, to: Some(author) };
        actions.push(wait);
        actions.push(request);
        assert(sync_views(actions@) =~= seq![wait@, request@]);
        actions
    }

    /// Checks what the store holds of the payload of `block`: `stored` says
    /// for each payload, in order, whether the store holds it. Returns
    /// whether all of it is there; if not, the block is put on record.
    pub fn verify_payload(&mut self, block: Block, tag: u8, stored: &Vec<bool>, now: u128) -> (r: (
        bool,
        Vec<SyncAction>,
    ))
        ensures
            r.0 == (missing_of(block@.payload, stored@).len() == 0),
            r.0 ==> final(self)@ == old(self)@ && r.1@.len() == 0,
            !r.0 ==> (SyncStep { state: final(self)@, actions: sync_views(r.1@) }) == old(
                self,
            )@.sync(missing_of(block@.payload, stored@), block@, tag, now),
    {
        let mut missing: Vec<Digest> = Vec::new();
        let mut i: usize = 0;
        while i < block.payload.len()
            invariant
                i <= block.payload.len(),
                missing@ == missing_of(block.payload@.subrange(0, i as int), stored@),
            decreases block.payload.len() - i,
        {
            assert(block.payload@.subrange(0, i as int + 1).drop_last() =~= block.payload@.subrange(
                0,
                i as int,
            ));
            let there = i < stored.len() && stored[i];
            if !there && !holds(&missing, &block.payload[i]) {
                missing.push(block.payload[i]);
            }
            i += 1;
        }
        assert(block.payload@.subrange(0, i as int) =~= block.payload@);
        if missing.len() == 0 {
            return (true, Vec::new());
        }
        let actions = self.sync(missing, block, tag, now);
        (false, actions)
    }

    /// Drops everything up to height `round`.
    pub fn cleanup(&mut self, round: SeqNumber) -> (r: Vec<SyncAction>)
        ensures
            (SyncStep { state: final(self)@, actions: sync_views(r@) }) == old(self)@.clean(round),
    {
        let mut actions: Vec<SyncAction> = Vec::new();
        let mut pending: Vec<Waiting> = Vec::new();
        let ghost mut gone: Seq<Waiting> = Seq::empty();
        let mut i: usize = 0;
        assert(sync_views(actions@) =~= cancels(blocks_of(gone)));
        while i < self.pending.len()
            invariant
                i <= self.pending.len(),
                pending@ == keep(self.pending@.subrange(0, i as int), |w: Waiting| w.round > round),
                gone == keep(self.pending@.subrange(0, i as int), |w: Waiting| w.round <= round),
                sync_views(actions@) == cancels(blocks_of(gone)),
            decreases self.pending.len() - i,
        {
            assert(self.pending@.subrange(0, i as int + 1).drop_last() =~= self.pending@.subrange(
                0,
                i as int,
            ));
            let w = self.pending[i];
            if w.round > round {
                pending.push(w);
            } else {
                let cancel = SyncAction::Cancel(w.block);
                proof {
                    crate::types::lemma_seq_view_push(actions@, cancel);
                    gone = gone.push(w);
                }
                actions.push(cancel);
                assert(sync_views(actions@) =~= cancels(blocks_of(gone)));
            }
            i += 1;
        }
        assert(self.pending@.subrange(0, i as int) =~= self.pending@);
        let mut requests: Vec<Asked> = Vec::new();
        let mut j: usize = 0;
        while j < self.requests.len()
            invariant
                j <= self.requests.len(),
                requests@ == keep(self.requests@.subrange(0, j as int), |a: Asked| a.round > round),
            decreases self.requests.len() - j,
        {
            assert(self.requests@.subrange(0, j as int + 1).drop_last()
                =~= self.requests@.subrange(0, j as int));
            if self.requests[j].round > round {
                requests.push(self.requests[j]);
            }
            j += 1;
        }
        assert(self.requests@.subrange(0, j as int) =~= self.requests@);
        self.pending = pending;
        self.requests = requests;
        actions
    }

    /// Takes a block whose payload has arrived.
    pub fn delivered(&mut self, block: Block, tag: u8) -> (r: Vec<SyncAction>)
        ensures
            (SyncStep { state: final(self)@, actions: sync_views(r@) }) == old(self)@.deliver(
                block@,
                tag,
            ),
    {
        let mut pending: Vec<Waiting> = Vec::new();
        let mut i: usize = 0;
        while i < self.pending.len()
            invariant
                i <= self.pending.len(),
                pending@ == keep(
                    self.pending@.subrange(0, i as int),
                    |w: Waiting| w.block != block@.digest,
                ),
            decreases self.pending.len() - i,
        {
            assert(self.pending@.subrange(0, i as int + 1).drop_last() =~= self.pending@.subrange(
                0,
                i as int,
            ));
            if self.pending[i].block != block.digest {
                pending.push(self.pending[i]);
            }
            i += 1;
        }
        assert(self.pending@.subrange(0, i as int) =~= self.pending@);
        let mut requests: Vec<Asked> = Vec::new();
        let mut j: usize = 0;
        while j < self.requests.len()
            invariant
                j <= self.requests.len(),
                requests@ == keep(
                    self.requests@.subrange(0, j as int),
                    |a: Asked| !block@.payload.contains(a.payload),
                ),
            decreases self.requests.len() - j,
        {
            assert(self.requests@.subrange(0, j as int + 1).drop_last()
                =~= self.requests@.subrange(0, j as int));
            if !holds(&block.payload, &self.requests[j].payload) {
                requests.push(self.requests[j]);
            }
            j += 1;
        }
        assert(self.requests@.subrange(0, j as int) =~= self.requests@);
        self.pending = pending;
        self.requests = requests;
        let message = if tag == OPT {
            ConsensusMessage::HsLoopBack(block)
        } else {
            ConsensusMessage::ParLoopBack(block)
        };
        let mut actions: Vec<SyncAction> = Vec::new();
        let back = SyncAction::LoopBack(message);
        actions.push(back);
        assert(sync_views(actions@) =~= seq![back@]);
        actions
    }

    /// The timer has fired at `now`: asks everyone for what is overdue.
    pub fn retry(&self, now: u128) -> (r: Vec<SyncAction>)
        ensures
            sync_views(r@) == self@.tick(now),
    {
        let delay = self.sync_retry_delay;
        let mut late: Vec<Digest> = Vec::new();
        let ghost mut kept: Seq<Asked> = Seq::empty();
        let mut i: usize = 0;
        assert(late@ =~= payloads_of(kept));
        while i < self.requests.len()
            invariant
                i <= self.requests.len(),
                delay == self.sync_retry_delay,
                kept == keep(
                    self.requests@.subrange(0, i as int),
                    |a: Asked| a.timestamp + delay < now,
                ),
                late@ == payloads_of(kept),
            decreases self.requests.len() - i,
        {
            assert(self.requests@.subrange(0, i as int + 1).drop_last()
                =~= self.requests@.subrange(0, i as int));
            let a = self.requests[i];
            if a.timestamp < now && now - a.timestamp > delay as u128 {
                late.push(a.payload);
                proof {
                    kept = kept.push(a);
                }
                assert(late@ =~= payloads_of(kept));
            }
            i += 1;
        }
        assert(self.requests@.subrange(0, i as int) =~= self.requests@);
        let mut actions: Vec<SyncAction> = Vec::new();
        if late.len() == 0 {
            assert(sync_views(actions@) =~= Seq::empty());
            return actions;
        }
        let request = SyncAction::Request { digests: late, to: None };
        actions.push(request);
        assert(sync_views(actions@) =~= seq![request@]);
        actions
    }
}

} // verus!
