//! Counting the voting power behind a list of voters.

use crate::config::{quorum_of, stake_of, total_stake, Authority, Committee};
use crate::types::{PublicKey, Stake};
use vstd::prelude::*;

verus! {

/// What disqualifies a list of voters.
#[derive(Clone, Copy, PartialEq, Eq, Structural, Debug)]
pub enum VoterFault {
    /// The replica occurs a second time.
    Reuse(PublicKey),
    /// The replica has no voting power.
    Unknown(PublicKey),
}

/// The first fault of `voters`, going through them in order: a voter that
/// occurred before, or one without voting power.
pub open spec fn first_fault(voters: Seq<PublicKey>, members: Seq<Authority>) -> Option<VoterFault>
    decreases voters.len(),
{
    if voters.len() == 0 {
        None
    } else {
        match first_fault(voters.drop_last(), members) {
            Some(f) => Some(f),
            None => if voters.drop_last().contains(voters.last()) {
                Some(VoterFault::Reuse(voters.last()))
            } else if stake_of(members, voters.last()) == 0 {
                Some(VoterFault::Unknown(voters.last()))
            } else {
                None
            },
        }
    }
}

/// Sum of the voting power of `voters`, each counted as often as it occurs.
pub open spec fn stake_sum(voters: Seq<PublicKey>, members: Seq<Authority>) -> nat
    decreases voters.len(),
{
    if voters.len() == 0 {
        0
    } else {
        stake_sum(voters.drop_last(), members) + stake_of(members, voters.last())
    }
}

/// Whether `voters` are distinct members whose voting power makes a quorum.
pub open spec fn is_quorum(voters: Seq<PublicKey>, members: Seq<Authority>) -> bool {
    &&& voters.no_duplicates()
    &&& forall|i: int| 0 <= i < voters.len() ==> stake_of(members, #[trigger] voters[i]) > 0
    &&& stake_sum(voters, members) >= quorum_of(total_stake(members))
}

/// A list of voters without fault holds distinct members only.
pub proof fn lemma_faultless_voters(voters: Seq<PublicKey>, members: Seq<Authority>)
    requires
        first_fault(voters, members).is_none(),
    ensures
        voters.no_duplicates(),
        forall|i: int| 0 <= i < voters.len() ==> stake_of(members, #[trigger] voters[i]) > 0,
    decreases voters.len(),
{
    if voters.len() > 0 {
        let front = voters.drop_last();
        lemma_faultless_voters(front, members);
        assert forall|i: int, j: int| 0 <= i < voters.len() && 0 <= j < voters.len() && i
            != j implies voters[i] != voters[j] by {
            if i < front.len() && j < front.len() {
                assert(front[i] != front[j]);
            } else if i < front.len() {
                assert(front[i] == voters[i]);
            } else {
                assert(front[j] == voters[j]);
            }
        }
        assert forall|i: int| 0 <= i < voters.len() implies stake_of(
            members,
            #[trigger] voters[i],
        ) > 0 by {
            if i < front.len() {
                assert(front[i] == voters[i]);
            }
        }
    }
}

pub proof fn lemma_stake_sum_bound(voters: Seq<PublicKey>, members: Seq<Authority>)
    ensures
        stake_sum(voters, members) <= voters.len() * Stake::MAX,
    decreases voters.len(),
{
    if voters.len() > 0 {
        lemma_stake_sum_bound(voters.drop_last(), members);
        crate::config::lemma_index_of_found(members, voters.last());
        assert(stake_of(members, voters.last()) <= Stake::MAX);
        assert(stake_sum(voters, members) <= (voters.len() - 1) * Stake::MAX + Stake::MAX);
        assert((voters.len() - 1) * Stake::MAX + Stake::MAX == voters.len() * Stake::MAX)
            by (nonlinear_arith);
    }
}

/// Whether `name` is among the first `upto` entries of `list`.
fn occurs_before(list: &Vec<PublicKey>, upto: usize, name: &PublicKey) -> (r: bool)
    requires
        upto <= list.len(),
    ensures
        r == list@.subrange(0, upto as int).contains(*name),
{
    let mut i: usize = 0;
    while i < upto
        invariant
            i <= upto <= list.len(),
            forall|k: int| 0 <= k < i ==> list@[k] != *name,
        decreases upto - i,
    {
        if list[i] == *name {
            assert(list@.subrange(0, upto as int)[i as int] == *name);
            return true;
        }
        i += 1;
    }
    false
}

/// Whether `name` is in `list`.
pub fn occurs(list: &Vec<PublicKey>, name: &PublicKey) -> (r: bool)
    ensures
        r == list@.contains(*name),
{
    assert(list@.subrange(0, list@.len() as int) =~= list@);
    occurs_before(list, list.len(), name)
}

impl Committee {
    /// Goes through `voters` in order and reports their first fault, or
    /// their summed voting power when there is none.
    pub fn audit(&self, voters: &Vec<PublicKey>) -> (r: Result<u128, VoterFault>)
        requires
            self.wf(),
        ensures
            match first_fault(voters@, self@) {
                Some(f) => r == Err::<u128, VoterFault>(f),
                None => r == Ok::<u128, VoterFault>(stake_sum(voters@, self@) as u128),
            },
            stake_sum(voters@, self@) <= u128::MAX,
    {
        let n: usize = voters.len();
        proof {
            lemma_stake_sum_bound(voters@, self@);
            assert(n * Stake::MAX <= usize::MAX * Stake::MAX) by (nonlinear_arith)
                requires
                    n <= usize::MAX,
            ;
        }
        let mut sum: u128 = 0;
        let mut i: usize = 0;
        while i < voters.len()
            invariant
                i <= voters.len(),
                self.wf(),
                first_fault(voters@.subrange(0, i as int), self@).is_none(),
                sum as nat == stake_sum(voters@.subrange(0, i as int), self@),
                stake_sum(voters@, self@) <= u128::MAX,
            decreases voters.len() - i,
        {
            let ghost front = voters@.subrange(0, i as int);
            let ghost next = voters@.subrange(0, i as int + 1);
            assert(next.drop_last() =~= front);
            assert(next.last() == voters@[i as int]);
            proof {
                lemma_first_fault_prefix(voters@, self@, i as int + 1);
                lemma_stake_sum_prefix(voters@, self@, i as int + 1);
            }
            if occurs_before(voters, i, &voters[i]) {
                return Err(VoterFault::Reuse(voters[i]));
            }
            let stake = self.stake(&voters[i]);
            if stake == 0 {
                return Err(VoterFault::Unknown(voters[i]));
            }
            sum = sum + stake as u128;
            i += 1;
        }
        assert(voters@.subrange(0, i as int) =~= voters@);
        Ok(sum)
    }
}

/// A fault among the first `n` voters is the first fault of the whole list.
pub proof fn lemma_first_fault_prefix(voters: Seq<PublicKey>, members: Seq<Authority>, n: int)
    requires
        0 <= n <= voters.len(),
    ensures
        first_fault(voters.subrange(0, n), members).is_some() ==> first_fault(voters, members)
            == first_fault(voters.subrange(0, n), members),
    decreases voters.len() - n,
{
    if n < voters.len() {
        assert(voters.subrange(0, n + 1).drop_last() =~= voters.subrange(0, n));
        lemma_first_fault_prefix(voters, members, n + 1);
    } else {
        assert(voters.subrange(0, n) =~= voters);
    }
}

pub proof fn lemma_stake_sum_prefix(voters: Seq<PublicKey>, members: Seq<Authority>, n: int)
    requires
        0 <= n <= voters.len(),
    ensures
        stake_sum(voters.subrange(0, n), members) <= stake_sum(voters, members),
    decreases voters.len() - n,
{
    if n < voters.len() {
        assert(voters.subrange(0, n + 1).drop_last() =~= voters.subrange(0, n));
        lemma_stake_sum_prefix(voters, members, n + 1);
    } else {
        assert(voters.subrange(0, n) =~= voters);
    }
}

/// The voters of `a` that are also among `b`, in the order of `a`.
pub open spec fn common(a: Seq<PublicKey>, b: Seq<PublicKey>) -> Seq<PublicKey>
    decreases a.len(),
{
    if a.len() == 0 {
        Seq::empty()
    } else if b.contains(a.last()) {
        common(a.drop_last(), b).push(a.last())
    } else {
        common(a.drop_last(), b)
    }
}

/// The voters of `a` that are not among `b`, in the order of `a`.
pub open spec fn apart(a: Seq<PublicKey>, b: Seq<PublicKey>) -> Seq<PublicKey>
    decreases a.len(),
{
    if a.len() == 0 {
        Seq::empty()
    } else if b.contains(a.last()) {
        apart(a.drop_last(), b)
    } else {
        apart(a.drop_last(), b).push(a.last())
    }
}

proof fn lemma_stake_sum_remove(voters: Seq<PublicKey>, at: int, members: Seq<Authority>)
    requires
        0 <= at < voters.len(),
    ensures
        stake_sum(voters, members) == stake_sum(voters.remove(at), members) + stake_of(
            members,
            voters[at],
        ),
    decreases voters.len(),
{
    if at == voters.len() - 1 {
        assert(voters.remove(at) =~= voters.drop_last());
    } else {
        assert(voters.remove(at).drop_last() =~= voters.drop_last().remove(at));
        assert(voters.remove(at).last() == voters.last());
        lemma_stake_sum_remove(voters.drop_last(), at, members);
    }
}

proof fn lemma_stake_sum_agree(voters: Seq<PublicKey>, one: Seq<Authority>, other: Seq<Authority>)
    requires
        forall|i: int|
            0 <= i < voters.len() ==> stake_of(one, #[trigger] voters[i]) == stake_of(
                other,
                voters[i],
            ),
    ensures
        stake_sum(voters, one) == stake_sum(voters, other),
    decreases voters.len(),
{
    if voters.len() > 0 {
        let front = voters.drop_last();
        assert forall|i: int| 0 <= i < front.len() implies stake_of(one, #[trigger] front[i])
            == stake_of(other, front[i]) by {
            assert(front[i] == voters[i]);
        }
        lemma_stake_sum_agree(front, one, other);
        assert(voters.last() == voters[voters.len() - 1]);
    }
}

/// The stake of two lists of voters, one after the other, is the sum of
/// their stakes.
pub proof fn lemma_stake_sum_sum(a: Seq<PublicKey>, b: Seq<PublicKey>, members: Seq<Authority>)
    ensures
        stake_sum(a + b, members) == stake_sum(a, members) + stake_sum(b, members),
    decreases b.len(),
{
    if b.len() == 0 {
        assert(a + b =~= a);
    } else {
        assert((a + b).drop_last() =~= a + b.drop_last());
        assert((a + b).last() == b.last());
        lemma_stake_sum_sum(a, b.drop_last(), members);
    }
}

/// Distinct voters hold no more than the total stake.
pub proof fn lemma_distinct_voters_within_total(voters: Seq<PublicKey>, members: Seq<Authority>)
    requires
        voters.no_duplicates(),
    ensures
        stake_sum(voters, members) <= total_stake(members),
    decreases members.len(),
{
    if members.len() == 0 {
        let none = Seq::<Authority>::empty();
        assert(members =~= none);
        lemma_stake_sum_bound_zero(voters, members);
    } else {
        let m = members.last();
        let rest = members.drop_last();
        assert forall|k: PublicKey| k != m.name implies stake_of(members, k) == stake_of(rest, k) by {
            crate::config::lemma_index_of_found(rest, k);
        }
        if voters.contains(m.name) {
            let at = choose|i: int| 0 <= i < voters.len() && voters[i] == m.name;
            let others = voters.remove(at);
            lemma_stake_sum_remove(voters, at, members);
            assert forall|i: int, j: int| 0 <= i < others.len() && 0 <= j < others.len() && i
                != j implies others[i] != others[j] by {
                let a = if i < at {
                    i
                } else {
                    i + 1
                };
                let b = if j < at {
                    j
                } else {
                    j + 1
                };
                assert(others[i] == voters[a]);
                assert(others[j] == voters[b]);
            }
            assert forall|i: int| 0 <= i < others.len() implies stake_of(
                members,
                #[trigger] others[i],
            ) == stake_of(rest, others[i]) by {
                let a = if i < at {
                    i
                } else {
                    i + 1
                };
                assert(others[i] == voters[a]);
                assert(voters[a] != voters[at]);
            }
            lemma_stake_sum_agree(others, members, rest);
            lemma_distinct_voters_within_total(others, rest);
        } else {
            assert forall|i: int| 0 <= i < voters.len() implies stake_of(
                members,
                #[trigger] voters[i],
            ) == stake_of(rest, voters[i]) by {
                assert(voters.contains(voters[i]));
            }
            lemma_stake_sum_agree(voters, members, rest);
            lemma_distinct_voters_within_total(voters, rest);
        }
    }
}

proof fn lemma_stake_sum_bound_zero(voters: Seq<PublicKey>, members: Seq<Authority>)
    requires
        members.len() == 0,
    ensures
        stake_sum(voters, members) == 0,
    decreases voters.len(),
{
    if voters.len() > 0 {
        lemma_stake_sum_bound_zero(voters.drop_last(), members);
    }
}

proof fn lemma_split(a: Seq<PublicKey>, b: Seq<PublicKey>, members: Seq<Authority>)
    requires
        a.no_duplicates(),
    ensures
        stake_sum(a, members) == stake_sum(common(a, b), members) + stake_sum(
            apart(a, b),
            members,
        ),
        apart(a, b).no_duplicates(),
        forall|k: PublicKey| apart(a, b).contains(k) ==> a.contains(k) && !b.contains(k),
        forall|k: PublicKey| common(a, b).contains(k) ==> a.contains(k) && b.contains(k),
    decreases a.len(),
{
    if a.len() > 0 {
        let front = a.drop_last();
        assert forall|i: int, j: int| 0 <= i < front.len() && 0 <= j < front.len() && i
            != j implies front[i] != front[j] by {
            assert(front[i] == a[i] && front[j] == a[j]);
        }
        lemma_split(front, b, members);
        let last = a.last();
        assert(a[a.len() - 1] == last);
        assert forall|k: PublicKey| front.contains(k) implies a.contains(k) by {
            let i = choose|i: int| 0 <= i < front.len() && front[i] == k;
            assert(a[i] == k);
        }
        if b.contains(last) {
            let c = common(front, b);
            assert(c.push(last).drop_last() =~= c);
            assert forall|k: PublicKey| common(a, b).contains(k) implies a.contains(k)
                && b.contains(k) by {
                let i = choose|i: int| 0 <= i < c.push(last).len() && c.push(last)[i] == k;
                if i < c.len() {
                    assert(c[i] == k);
                }
            }
        } else {
            let d = apart(front, b);
            assert(d.push(last).drop_last() =~= d);
            assert forall|k: PublicKey| apart(a, b).contains(k) implies a.contains(k)
                && !b.contains(k) by {
                let i = choose|i: int| 0 <= i < d.push(last).len() && d.push(last)[i] == k;
                if i < d.len() {
                    assert(d[i] == k);
                }
            }
            assert forall|i: int, j: int| 0 <= i < d.push(last).len() && 0 <= j < d.push(
                last,
            ).len() && i != j implies d.push(last)[i] != d.push(last)[j] by {
                if i < d.len() && j < d.len() {
                } else if i < d.len() {
                    assert(d.contains(d[i]));
                    if d[i] == last {
                        let w = choose|w: int| 0 <= w < front.len() && front[w] == last;
                        assert(a[w] == a[a.len() - 1]);
                    }
                } else {
                    assert(d.contains(d[j]));
                    if d[j] == last {
                        let w = choose|w: int| 0 <= w < front.len() && front[w] == last;
                        assert(a[w] == a[a.len() - 1]);
                    }
                }
            }
        }
    }
}

/// Any two quorums of a committee overlap in more than a third of its
/// stake: the voters that two quorums have in common hold more than a third
/// of the total, so one of them at least is common to both, and, where less
/// than a third of the stake is faulty, one that is correct.
pub proof fn law_quorums_overlap(members: Seq<Authority>, a: Seq<PublicKey>, b: Seq<PublicKey>)
    requires
        is_quorum(a, members),
        is_quorum(b, members),
    ensures
        3 * stake_sum(common(a, b), members) > total_stake(members),
        exists|k: PublicKey| a.contains(k) && b.contains(k) && stake_of(members, k) > 0,
{
    lemma_split(a, b, members);
    let rest = apart(a, b);
    let all = rest + b;
    assert forall|i: int, j: int| 0 <= i < all.len() && 0 <= j < all.len() && i != j implies all[i]
        != all[j] by {
        if i < rest.len() && j < rest.len() {
        } else if i >= rest.len() && j >= rest.len() {
            assert(all[i] == b[i - rest.len()] && all[j] == b[j - rest.len()]);
        } else if i < rest.len() {
            assert(rest.contains(rest[i]));
            assert(b.contains(b[j - rest.len()]));
        } else {
            assert(rest.contains(rest[j]));
            assert(b.contains(b[i - rest.len()]));
        }
    }
    lemma_stake_sum_sum(rest, b, members);
    lemma_distinct_voters_within_total(all, members);
    let shared = common(a, b);
    assert(stake_sum(shared, members) > 0);
    lemma_positive_sum_has_a_holder(shared, members);
    let at = choose|i: int| 0 <= i < shared.len() && stake_of(members, shared[i]) > 0;
    let k = shared[at];
    assert(shared.contains(k));
    assert(a.contains(k) && b.contains(k) && stake_of(members, k) > 0);
}

proof fn lemma_positive_sum_has_a_holder(voters: Seq<PublicKey>, members: Seq<Authority>)
    requires
        stake_sum(voters, members) > 0,
    ensures
        exists|i: int| 0 <= i < voters.len() && stake_of(members, #[trigger] voters[i]) > 0,
    decreases voters.len(),
{
    if voters.len() > 0 {
        if stake_of(members, voters.last()) > 0 {
            assert(voters[voters.len() - 1] == voters.last());
        } else {
            lemma_positive_sum_has_a_holder(voters.drop_last(), members);
            let i = choose|i: int|
                0 <= i < voters.drop_last().len() && stake_of(
                    members,
                    #[trigger] voters.drop_last()[i],
                ) > 0;
            assert(voters[i] == voters.drop_last()[i]);
        }
    }
}

} // verus!
