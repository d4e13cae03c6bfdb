//! The committee of replicas and the protocol parameters.

use crate::types::{PublicKey, Stake};
use vstd::prelude::*;

verus! {

/// One member of the committee.
#[derive(Clone, Copy, Debug)]
pub struct Authority {
    pub name: PublicKey,
    pub stake: Stake,
}

/// Tunable parameters of the protocol.
#[derive(Clone, Copy, Debug)]
pub struct Parameters {
    /// Cap on the payload of a block, in bytes.
    pub max_payload_size: usize,
    /// Pause after broadcasting a proposal, in milliseconds.
    pub min_block_delay: u64,
    /// When set, the pause follows pessimistic proposals instead of optimistic ones.
    pub ddos: bool,
    /// Period after which a payload request is repeated, in milliseconds.
    pub sync_retry_delay: u64,
    /// When 1, messages of the pessimistic path are fully validated.
    pub exp: usize,
}

/// Sum of the stakes of `members`.
pub open spec fn total_stake(members: Seq<Authority>) -> nat
    decreases members.len(),
{
    if members.len() == 0 {
        0
    } else {
        total_stake(members.drop_last()) + members.last().stake as nat
    }
}

/// Position of `name` among `members`, if it is one of them.
pub open spec fn index_of(members: Seq<Authority>, name: PublicKey) -> Option<int>
    decreases members.len(),
{
    if members.len() == 0 {
        None
    } else if members.last().name == name {
        Some(members.len() - 1)
    } else {
        index_of(members.drop_last(), name)
    }
}

/// Stake of `name` among `members`; zero for a stranger.
pub open spec fn stake_of(members: Seq<Authority>, name: PublicKey) -> nat {
    match index_of(members, name) {
        Some(i) => members[i].stake as nat,
        None => 0,
    }
}

/// Whether no two of `members` have the same key.
pub open spec fn distinct_names(members: Seq<Authority>) -> bool {
    forall|i: int, j: int|
        0 <= i < j < members.len() ==> (#[trigger] members[i]).name != (
        #[trigger] members[j]).name
}

/// The names of `members` other than `name`, in committee order.
pub open spec fn others_of(members: Seq<Authority>, name: PublicKey) -> Seq<PublicKey>
    decreases members.len(),
{
    if members.len() == 0 {
        Seq::empty()
    } else if members.last().name == name {
        others_of(members.drop_last(), name)
    } else {
        others_of(members.drop_last(), name).push(members.last().name)
    }
}

/// Smallest stake that makes a quorum out of `total`: more than two thirds.
pub open spec fn quorum_of(total: nat) -> nat {
    2 * total / 3 + 1
}

/// Smallest stake that surely holds one correct replica: a third, rounded up.
pub open spec fn coin_threshold_of(total: nat) -> nat {
    (total + 2) / 3
}

/// Whether the keys of `members` are strictly increasing.
pub open spec fn strictly_sorted(members: Seq<Authority>) -> bool {
    forall|i: int, j: int|
        0 <= i < j < members.len() ==> (#[trigger] members[i]).name.spec_lt(
            (#[trigger] members[j]).name,
        )
}

/// Whether one of `members` has the key `name`.
pub open spec fn has_name(members: Seq<Authority>, name: PublicKey) -> bool {
    exists|k: int| 0 <= k < members.len() && (#[trigger] members[k]).name == name
}

/// `sorted` with `a` put in behind the last member whose key comes before
/// that of `a`.
pub open spec fn inserted(sorted: Seq<Authority>, a: Authority) -> Seq<Authority>
    decreases sorted.len(),
{
    if sorted.len() == 0 {
        seq![a]
    } else if sorted.last().name.spec_lt(a.name) {
        sorted.push(a)
    } else {
        inserted(sorted.drop_last(), a).push(sorted.last())
    }
}

/// The committee's order: `members` by increasing key. Whatever order a
/// replica is given its members in, it elects the same leaders.
pub open spec fn ordered(members: Seq<Authority>) -> Seq<Authority>
    decreases members.len(),
{
    if members.len() == 0 {
        Seq::empty()
    } else {
        inserted(ordered(members.drop_last()), members.last())
    }
}

/// A list of members is valid as a committee, in any order, when it is not
/// empty, names no member twice, and its total stake fits a `Stake`.
pub open spec fn valid_members(members: Seq<Authority>) -> bool {
    &&& members.len() > 0
    &&& distinct_names(members)
    &&& total_stake(members) <= Stake::MAX
}

pub proof fn lemma_index_of_found(members: Seq<Authority>, name: PublicKey)
    ensures
        match index_of(members, name) {
            Some(i) => 0 <= i < members.len() && members[i].name == name,
            None => forall|k: int| 0 <= k < members.len() ==> (#[trigger] members[k]).name != name,
        },
    decreases members.len(),
{
    if members.len() > 0 {
        let front = members.drop_last();
        lemma_index_of_found(front, name);
        if members.last().name != name && index_of(front, name).is_none() {
            assert forall|k: int| 0 <= k < members.len() implies (#[trigger] members[k]).name
                != name by {
                if k < front.len() {
                    assert(front[k].name != name);
                }
            }
        }
    }
}

pub proof fn lemma_index_of_at(members: Seq<Authority>, i: int)
    requires
        distinct_names(members),
        0 <= i < members.len(),
    ensures
        index_of(members, members[i].name) == Some(i),
    decreases members.len(),
{
    let last = members.len() - 1;
    if i < last {
        assert(members[i].name != members[last].name);
        let front = members.drop_last();
        assert forall|a: int, b: int| 0 <= a < b < front.len() implies (#[trigger] front[a]).name
            != (#[trigger] front[b]).name by {
            assert(members[a].name != members[b].name);
        }
        lemma_index_of_at(front, i);
    }
}

/// The replicas that run the protocol, with their voting power.
#[derive(Debug)]
pub struct Committee {
    members: Vec<Authority>,
    total: Stake,
}

impl View for Committee {
    type V = Seq<Authority>;

    closed spec fn view(&self) -> Seq<Authority> {
        self.members@
    }
}

impl Clone for Committee {
    fn clone(&self) -> (r: Self)
        ensures
            r@ == self@,
            self.wf() ==> r.wf(),
    {
        Committee { members: crate::types::copy_vec(&self.members), total: self.total }
    }
}

impl Committee {
    /// The invariant of a committee: its members are valid and the cached
    /// total is their total stake.
    pub closed spec fn wf(&self) -> bool {
        &&& valid_members(self.members@)
        &&& strictly_sorted(self.members@)
        &&& self.total as nat == total_stake(self.members@)
    }

    /// Builds the committee of `members`, ordered by key; `None` when the
    /// list is empty, names a member twice, or holds more stake than fits.
    pub fn new(members: Vec<Authority>) -> (r: Option<Committee>)
        ensures
            r.is_some() == valid_members(members@),
            r.is_some() ==> r.unwrap().wf() && r.unwrap()@ == ordered(members@),
    {
        if members.len() == 0 {
            return None;
        }
        let mut total: u64 = 0;
        let mut sorted: Vec<Authority> = Vec::new();
        let mut i: usize = 0;
        while i < members.len()
            invariant
                i <= members.len(),
                total as nat == total_stake(members@.subrange(0, i as int)),
                total <= Stake::MAX,
                forall|a: int, b: int|
                    0 <= a < b < i ==> (#[trigger] members@[a]).name != (
                    #[trigger] members@[b]).name,
                sorted@ == ordered(members@.subrange(0, i as int)),
            decreases members.len() - i,
        {
            let ghost prefix = members@.subrange(0, i as int);
            let ghost next = members@.subrange(0, i as int + 1);
            assert(next.drop_last() =~= prefix);
            assert(next.last() == members@[i as int]);
            proof {
                lemma_total_stake_prefix(members@, i as int + 1);
            }
            if named_before(&members, i, &members[i].name) {
                assert(!distinct_names(members@));
                return None;
            }
            if total + members[i].stake as u64 > Stake::MAX as u64 {
                assert(total_stake(members@) > Stake::MAX);
                return None;
            }
            total = total + members[i].stake as u64;
            let a = members[i];
            let mut j: usize = sorted.len();
            while j > 0 && !sorted[j - 1].name.lt(&a.name)
                invariant
                    j <= sorted.len(),
                    forall|k: int| j <= k < sorted.len() ==> !(#[trigger] sorted@[k]).name.spec_lt(a.name),
                decreases j,
            {
                j -= 1;
            }
            proof {
                lemma_inserted_at(sorted@, a, j as int);
            }
            sorted.insert(j, a);
            i += 1;
        }
        assert(members@.subrange(0, i as int) =~= members@);
        proof {
            lemma_ordered(members@);
        }
        Some(Committee { members: sorted, total: total as Stake })
    }

    /// Number of members.
    pub fn size(&self) -> (r: usize)
        requires
            self.wf(),
        ensures
            r == self@.len(),
            r > 0,
    {
        self.members.len()
    }

    /// The member at position `i` of the committee's order.
    pub fn member(&self, i: usize) -> (r: PublicKey)
        requires
            self.wf(),
            i < self@.len(),
        ensures
            r == self@[i as int].name,
    {
        self.members[i].name
    }

    /// Position of `name` in the committee's order.
    pub fn id(&self, name: &PublicKey) -> (r: Option<usize>)
        requires
            self.wf(),
        ensures
            match r {
                Some(i) => index_of(self@, *name) == Some(i as int) && i < self@.len(),
                None => index_of(self@, *name).is_none(),
            },
    {
        let mut i: usize = 0;
        while i < self.members.len()
            invariant
                i <= self.members.len(),
                self.wf(),
                forall|k: int| 0 <= k < i ==> (#[trigger] self.members@[k]).name != *name,
            decreases self.members.len() - i,
        {
            if self.members[i].name == *name {
                proof {
                    lemma_index_of_at(self.members@, i as int);
                }
                return Some(i);
            }
            i += 1;
        }
        proof {
            lemma_index_of_found(self.members@, *name);
        }
        None
    }

    /// Voting power of `name`; zero for a stranger.
    pub fn stake(&self, name: &PublicKey) -> (r: Stake)
        requires
            self.wf(),
        ensures
            r as nat == stake_of(self@, *name),
    {
        match self.id(name) {
            Some(i) => self.members[i].stake,
            None => 0,
        }
    }

    /// Total voting power.
    pub fn total_votes(&self) -> (r: Stake)
        requires
            self.wf(),
        ensures
            r as nat == total_stake(self@),
    {
        self.total
    }

    /// Stake needed for a quorum: more than two thirds of the total.
    pub fn quorum_threshold(&self) -> (r: Stake)
        requires
            self.wf(),
        ensures
            r as nat == quorum_of(total_stake(self@)),
    {
        let total: u64 = self.total as u64;
        (2 * total / 3 + 1) as Stake
    }

    /// Stake needed to reveal the common coin: a third of the total, rounded up.
    pub fn random_coin_threshold(&self) -> (r: Stake)
        requires
            self.wf(),
        ensures
            r as nat == coin_threshold_of(total_stake(self@)),
    {
        let total: u64 = self.total as u64;
        ((total + 2) / 3) as Stake
    }

    /// Every member but `name`, in committee order: the recipients of a
    /// broadcast by `name`.
    pub fn others(&self, name: &PublicKey) -> (r: Vec<PublicKey>)
        requires
            self.wf(),
        ensures
            r@ == others_of(self@, *name),
    {
        let mut out: Vec<PublicKey> = Vec::new();
        let mut i: usize = 0;
        while i < self.members.len()
            invariant
                i <= self.members.len(),
                out@ == others_of(self.members@.subrange(0, i as int), *name),
            decreases self.members.len() - i,
        {
            assert(self.members@.subrange(0, i as int + 1).drop_last() =~= self.members@.subrange(
                0,
                i as int,
            ));
            if self.members[i].name != *name {
                out.push(self.members[i].name);
            }
            i += 1;
        }
        assert(self.members@.subrange(0, i as int) =~= self.members@);
        out
    }
}

proof fn lemma_inserted_at(sorted: Seq<Authority>, a: Authority, at: int)
    requires
        0 <= at <= sorted.len(),
        forall|k: int| at <= k < sorted.len() ==> !(#[trigger] sorted[k]).name.spec_lt(a.name),
        at > 0 ==> sorted[at - 1].name.spec_lt(a.name),
    ensures
        inserted(sorted, a) == sorted.insert(at, a),
    decreases sorted.len(),
{
    if sorted.len() == 0 {
        assert(sorted.insert(at, a) =~= seq![a]);
    } else if at == sorted.len() {
        assert(sorted.insert(at, a) =~= sorted.push(a));
    } else {
        let front = sorted.drop_last();
        assert(!sorted[sorted.len() - 1].name.spec_lt(a.name));
        assert forall|k: int| at <= k < front.len() implies !(#[trigger] front[k]).name.spec_lt(
            a.name,
        ) by {
            assert(front[k] == sorted[k]);
        }
        lemma_inserted_at(front, a, at);
        assert(front.insert(at, a).push(sorted.last()) =~= sorted.insert(at, a));
    }
}

/// Putting a new member into a sorted list leaves it sorted, adds the
/// member's key to its keys and the member's stake to its stake.
proof fn lemma_inserted(sorted: Seq<Authority>, a: Authority)
    requires
        strictly_sorted(sorted),
        !has_name(sorted, a.name),
    ensures
        strictly_sorted(inserted(sorted, a)),
        inserted(sorted, a).len() == sorted.len() + 1,
        total_stake(inserted(sorted, a)) == total_stake(sorted) + a.stake,
        forall|name: PublicKey|
            has_name(inserted(sorted, a), name) <==> (name == a.name || has_name(sorted, name)),
    decreases sorted.len(),
{
    let r = inserted(sorted, a);
    if sorted.len() == 0 {
        assert(r.drop_last() =~= sorted);
        assert forall|name: PublicKey| has_name(r, name) <==> (name == a.name || has_name(
            sorted,
            name,
        )) by {
            if name == a.name {
                assert(r[0].name == name);
            }
        }
    } else {
        let last = sorted.last();
        let front = sorted.drop_last();
        assert(sorted[sorted.len() - 1] == last);
        if last.name.spec_lt(a.name) {
            assert(r.drop_last() =~= sorted);
            assert forall|i: int, j: int| 0 <= i < j < r.len() implies (#[trigger] r[i]).name.spec_lt(
                (#[trigger] r[j]).name,
            ) by {
                if j < sorted.len() {
                    assert(sorted[i].name.spec_lt(sorted[j].name));
                } else if i < sorted.len() - 1 {
                    assert(sorted[i].name.spec_lt(sorted[sorted.len() - 1].name));
                }
            }
            assert forall|name: PublicKey| has_name(r, name) <==> (name == a.name || has_name(
                sorted,
                name,
            )) by {
                if name == a.name {
                    assert(r[r.len() - 1].name == name);
                }
                if has_name(sorted, name) {
                    let k = choose|k: int| 0 <= k < sorted.len() && (#[trigger] sorted[k]).name == name;
                    assert(r[k].name == name);
                }
                if has_name(r, name) && name != a.name {
                    let k = choose|k: int| 0 <= k < r.len() && (#[trigger] r[k]).name == name;
                    assert(sorted[k].name == name);
                }
            }
        } else {
            assert forall|i: int, j: int| 0 <= i < j < front.len() implies (
            #[trigger] front[i]).name.spec_lt((#[trigger] front[j]).name) by {
                assert(sorted[i].name.spec_lt(sorted[j].name));
            }
            if has_name(front, a.name) {
                let k = choose|k: int| 0 <= k < front.len() && (#[trigger] front[k]).name == a.name;
                assert(sorted[k].name == a.name);
            }
            lemma_inserted(front, a);
            let inner = inserted(front, a);
            assert(r.drop_last() =~= inner);
            assert(last.name != a.name);
            assert(a.name.spec_lt(last.name));
            assert forall|i: int, j: int| 0 <= i < j < r.len() implies (#[trigger] r[i]).name.spec_lt(
                (#[trigger] r[j]).name,
            ) by {
                if j < inner.len() {
                    assert(inner[i].name.spec_lt(inner[j].name));
                } else {
                    assert(has_name(inner, inner[i].name));
                    if inner[i].name != a.name {
                        assert(has_name(front, inner[i].name));
                        let k = choose|k: int|
                            0 <= k < front.len() && (#[trigger] front[k]).name == inner[i].name;
                        assert(sorted[k].name.spec_lt(sorted[sorted.len() - 1].name));
                    }
                }
            }
            assert forall|name: PublicKey| has_name(r, name) <==> (name == a.name || has_name(
                sorted,
                name,
            )) by {
                if has_name(inner, name) {
                    let k = choose|k: int| 0 <= k < inner.len() && (#[trigger] inner[k]).name == name;
                    assert(r[k].name == name);
                }
                if has_name(front, name) {
                    let k = choose|k: int| 0 <= k < front.len() && (#[trigger] front[k]).name == name;
                    assert(sorted[k].name == name);
                }
                if name == last.name {
                    assert(r[r.len() - 1].name == name);
                }
                if has_name(r, name) {
                    let k = choose|k: int| 0 <= k < r.len() && (#[trigger] r[k]).name == name;
                    if k < inner.len() {
                        assert(inner[k].name == name);
                    }
                }
                if has_name(sorted, name) {
                    let k = choose|k: int| 0 <= k < sorted.len() && (#[trigger] sorted[k]).name == name;
                    if k < front.len() {
                        assert(front[k].name == name);
                    }
                }
            }
        }
    }
}

/// The committee's order of a list without repeated keys is strictly
/// sorted, and holds the same keys and the same stake as the list.
pub proof fn lemma_ordered(members: Seq<Authority>)
    requires
        distinct_names(members),
    ensures
        strictly_sorted(ordered(members)),
        distinct_names(ordered(members)),
        ordered(members).len() == members.len(),
        total_stake(ordered(members)) == total_stake(members),
        forall|name: PublicKey| has_name(ordered(members), name) <==> has_name(members, name),
    decreases members.len(),
{
    if members.len() > 0 {
        let front = members.drop_last();
        let last = members.last();
        assert(members[members.len() - 1] == last);
        assert forall|i: int, j: int| 0 <= i < j < front.len() implies (#[trigger] front[i]).name
            != (#[trigger] front[j]).name by {
            assert(members[i].name != members[j].name);
        }
        lemma_ordered(front);
        if has_name(front, last.name) {
            let k = choose|k: int| 0 <= k < front.len() && (#[trigger] front[k]).name == last.name;
            assert(members[k].name == members[members.len() - 1].name);
        }
        lemma_inserted(ordered(front), last);
        assert forall|name: PublicKey| has_name(ordered(members), name) <==> has_name(
            members,
            name,
        ) by {
            if has_name(front, name) {
                let k = choose|k: int| 0 <= k < front.len() && (#[trigger] front[k]).name == name;
                assert(members[k].name == name);
            }
            if has_name(members, name) {
                let k = choose|k: int| 0 <= k < members.len() && (#[trigger] members[k]).name == name;
                if k < front.len() {
                    assert(front[k].name == name);
                }
            }
        }
    }
    lemma_sorted_is_distinct(ordered(members));
}

/// Members in strictly increasing order of their keys are distinct.
pub proof fn lemma_sorted_is_distinct(members: Seq<Authority>)
    requires
        strictly_sorted(members),
    ensures
        distinct_names(members),
{
    assert forall|i: int, j: int| 0 <= i < j < members.len() implies (#[trigger] members[i]).name
        != (#[trigger] members[j]).name by {
        assert(members[i].name.spec_lt(members[j].name));
    }
}

/// Whether one of the first `upto` members has the key `name`.
fn named_before(members: &Vec<Authority>, upto: usize, name: &PublicKey) -> (r: bool)
    requires
        upto <= members.len(),
    ensures
        r == exists|k: int| 0 <= k < upto && (#[trigger] members@[k]).name == *name,
{
    let mut k: usize = 0;
    while k < upto
        invariant
            k <= upto <= members.len(),
            forall|j: int| 0 <= j < k ==> (#[trigger] members@[j]).name != *name,
        decreases upto - k,
    {
        if members[k].name == *name {
            return true;
        }
        k += 1;
    }
    false
}

pub proof fn lemma_total_stake_prefix(members: Seq<Authority>, n: int)
    requires
        0 <= n <= members.len(),
    ensures
        total_stake(members.subrange(0, n)) <= total_stake(members),
    decreases members.len() - n,
{
    if n < members.len() {
        assert(members.subrange(0, n + 1).drop_last() =~= members.subrange(0, n));
        lemma_total_stake_prefix(members, n + 1);
    } else {
        assert(members.subrange(0, n) =~= members);
    }
}

} // verus!
