//! A small map from (height, round) to a value, kept in a vector.
//!
//! The protocol holds a handful of live heights and rounds at a time, so a
//! linear search is all it needs. The view of a table is a `Map`.

use crate::types::SeqNumber;
use vstd::prelude::*;

verus! {

/// One entry of a table.
pub struct Entry<T> {
    pub height: SeqNumber,
    pub round: SeqNumber,
    pub value: T,
}

/// The value under (height, round): that of the last entry with this key.
pub open spec fn lookup<T>(entries: Seq<Entry<T>>, height: SeqNumber, round: SeqNumber) -> Option<T>
    decreases entries.len(),
{
    if entries.len() == 0 {
        None
    } else if entries.last().height == height && entries.last().round == round {
        Some(entries.last().value)
    } else {
        lookup(entries.drop_last(), height, round)
    }
}

/// The entries above `height`, in order.
pub open spec fn entries_above<T>(entries: Seq<Entry<T>>, height: SeqNumber) -> Seq<Entry<T>>
    decreases entries.len(),
{
    if entries.len() == 0 {
        Seq::empty()
    } else {
        let front = entries_above(entries.drop_last(), height);
        if entries.last().height > height {
            front.push(entries.last())
        } else {
            front
        }
    }
}

/// The keys of `m` above `height`, with their values.
pub open spec fn map_above<V>(m: Map<(SeqNumber, SeqNumber), V>, height: SeqNumber) -> Map<
    (SeqNumber, SeqNumber),
    V,
> {
    Map::new(|k: (SeqNumber, SeqNumber)| m.dom().contains(k) && k.0 > height, |k: (SeqNumber, SeqNumber)| m[k])
}

/// The map that `entries` stand for.
pub open spec fn entries_map<T: View>(entries: Seq<Entry<T>>) -> Map<(SeqNumber, SeqNumber), T::V> {
    Map::new(
        |k: (SeqNumber, SeqNumber)| lookup(entries, k.0, k.1).is_some(),
        |k: (SeqNumber, SeqNumber)| lookup(entries, k.0, k.1).unwrap()@,
    )
}

proof fn lemma_lookup_at<T>(entries: Seq<Entry<T>>, height: SeqNumber, round: SeqNumber, at: int)
    requires
        0 <= at < entries.len(),
        entries[at].height == height && entries[at].round == round,
        forall|j: int|
            at < j < entries.len() ==> !((#[trigger] entries[j]).height == height
                && entries[j].round == round),
    ensures
        lookup(entries, height, round) == Some(entries[at].value),
    decreases entries.len(),
{
    if at < entries.len() - 1 {
        assert(!(entries[entries.len() - 1].height == height && entries[entries.len() - 1].round
            == round));
        lemma_lookup_at(entries.drop_last(), height, round, at);
    }
}

proof fn lemma_lookup_absent<T>(entries: Seq<Entry<T>>, height: SeqNumber, round: SeqNumber)
    requires
        forall|j: int|
            0 <= j < entries.len() ==> !((#[trigger] entries[j]).height == height
                && entries[j].round == round),
    ensures
        lookup(entries, height, round).is_none(),
    decreases entries.len(),
{
    if entries.len() > 0 {
        assert(!(entries[entries.len() - 1].height == height && entries[entries.len() - 1].round
            == round));
        lemma_lookup_absent(entries.drop_last(), height, round);
    }
}

proof fn lemma_lookup_update<T>(
    entries: Seq<Entry<T>>,
    at: int,
    e: Entry<T>,
    height: SeqNumber,
    round: SeqNumber,
)
    requires
        0 <= at < entries.len(),
        entries[at].height == e.height && entries[at].round == e.round,
        forall|j: int|
            at < j < entries.len() ==> !((#[trigger] entries[j]).height == e.height
                && entries[j].round == e.round),
    ensures
        lookup(entries.update(at, e), height, round) == (if height == e.height && round
            == e.round {
            Some(e.value)
        } else {
            lookup(entries, height, round)
        }),
    decreases entries.len(),
{
    let updated = entries.update(at, e);
    if at == entries.len() - 1 {
        assert(updated.drop_last() =~= entries.drop_last());
    } else {
        assert(!(entries[entries.len() - 1].height == e.height && entries[entries.len() - 1].round
            == e.round));
        assert(updated.drop_last() =~= entries.drop_last().update(at, e));
        lemma_lookup_update(entries.drop_last(), at, e, height, round);
    }
}

proof fn lemma_lookup_above<T>(
    entries: Seq<Entry<T>>,
    floor: SeqNumber,
    height: SeqNumber,
    round: SeqNumber,
)
    ensures
        lookup(entries_above(entries, floor), height, round) == (if height > floor {
            lookup(entries, height, round)
        } else {
            None
        }),
        forall|j: int|
            0 <= j < entries_above(entries, floor).len() ==> (#[trigger] entries_above(
                entries,
                floor,
            )[j]).height > floor,
    decreases entries.len(),
{
    if entries.len() > 0 {
        lemma_lookup_above(entries.drop_last(), floor, height, round);
        let front = entries_above(entries.drop_last(), floor);
        if entries.last().height > floor {
            assert(front.push(entries.last()).drop_last() =~= front);
        } else {
            if height <= floor {
            } else {
            }
        }
        if height <= floor {
            lemma_lookup_absent(entries_above(entries, floor), height, round);
        }
    }
}

/// A map from (height, round) to `T`.
pub struct Table<T> {
    entries: Vec<Entry<T>>,
}

impl<T: View> View for Table<T> {
    type V = Map<(SeqNumber, SeqNumber), T::V>;

    closed spec fn view(&self) -> Map<(SeqNumber, SeqNumber), T::V> {
        entries_map(self.entries@)
    }
}

impl<T: View> Table<T> {
    /// A table without entries.
    pub fn new() -> (r: Table<T>)
        ensures
            r@ == Map::<(SeqNumber, SeqNumber), T::V>::empty(),
    {
        let r = Table { entries: Vec::new() };
        assert(r@ =~= Map::<(SeqNumber, SeqNumber), T::V>::empty());
        r
    }

    /// Position of the last entry under (height, round).
    fn position(&self, height: SeqNumber, round: SeqNumber) -> (r: Option<usize>)
        ensures
            match r {
                Some(at) => {
                    &&& at < self.entries@.len()
                    &&& self.entries@[at as int].height == height
                    &&& self.entries@[at as int].round == round
                    &&& forall|j: int|
                        at < j < self.entries@.len() ==> !((#[trigger] self.entries@[j]).height
                            == height && self.entries@[j].round == round)
                    &&& lookup(self.entries@, height, round) == Some(
                        self.entries@[at as int].value,
                    )
                },
                None => lookup(self.entries@, height, round).is_none(),
            },
    {
        let mut best: Option<usize> = None;
        let mut i: usize = 0;
        while i < self.entries.len()
            invariant
                i <= self.entries.len(),
                match best {
                    Some(at) => {
                        &&& at < i
                        &&& self.entries@[at as int].height == height
                        &&& self.entries@[at as int].round == round
                        &&& forall|j: int|
                            at < j < i ==> !((#[trigger] self.entries@[j]).height == height
                                && self.entries@[j].round == round)
                    },
                    None => forall|j: int|
                        0 <= j < i ==> !((#[trigger] self.entries@[j]).height == height
                            && self.entries@[j].round == round),
                },
            decreases self.entries.len() - i,
        {
            if self.entries[i].height == height && self.entries[i].round == round {
                best = Some(i);
            }
            i += 1;
        }
        proof {
            match best {
                Some(at) => lemma_lookup_at(self.entries@, height, round, at as int),
                None => lemma_lookup_absent(self.entries@, height, round),
            }
        }
        best
    }

    /// The value under (height, round), if there is one.
    pub fn get(&self, height: SeqNumber, round: SeqNumber) -> (r: Option<&T>)
        ensures
            match r {
                Some(v) => self@.dom().contains((height, round)) && self@[(height, round)] == v@,
                None => !self@.dom().contains((height, round)),
            },
    {
        match self.position(height, round) {
            Some(at) => Some(&self.entries[at].value),
            None => None,
        }
    }

    /// Puts `value` under (height, round), in place of what was there.
    pub fn set(&mut self, height: SeqNumber, round: SeqNumber, value: T)
        ensures
            final(self)@ == old(self)@.insert((height, round), value@),
    {
        let e = Entry { height, round, value };
        match self.position(height, round) {
            Some(at) => {
                proof {
                    assert forall|k: (SeqNumber, SeqNumber)|
                        lookup(self.entries@.update(at as int, e), k.0, k.1) == (if k == (
                            height,
                            round,
                        ) {
                            Some(e.value)
                        } else {
                            lookup(self.entries@, k.0, k.1)
                        }) by {
                        lemma_lookup_update(self.entries@, at as int, e, k.0, k.1);
                    }
                }
                self.entries.set(at, e);
            },
            None => {
                proof {
                    assert(self.entries@.push(e).drop_last() =~= self.entries@);
                }
                self.entries.push(e);
            },
        }
        assert(self@ =~= old(self)@.insert((height, round), value@));
    }

    /// Drops the entries of heights up to `height`.
    pub fn retain_above(&mut self, height: SeqNumber)
        ensures
            final(self)@ == map_above(old(self)@, height),
    {
        let ghost before = self.entries@;
        let mut i: usize = 0;
        let ghost mut done: int = 0;
        while i < self.entries.len()
            invariant
                0 <= done <= before.len(),
                i <= self.entries@.len(),
                self.entries@.len() - i == before.len() - done,
                self.entries@.subrange(0, i as int) == entries_above(
                    before.subrange(0, done),
                    height,
                ),
                self.entries@.subrange(i as int, self.entries@.len() as int) == before.subrange(
                    done,
                    before.len() as int,
                ),
            decreases self.entries@.len() - i,
        {
            let ghost cur = self.entries@;
            assert(cur[i as int] == cur.subrange(i as int, cur.len() as int)[0]);
            assert(before[done] == before.subrange(done, before.len() as int)[0]);
            assert(cur[i as int] == before[done]);
            assert(before.subrange(0, done + 1).drop_last() =~= before.subrange(0, done));
            if self.entries[i].height <= height {
                self.entries.remove(i);
                assert(self.entries@.subrange(0, i as int) =~= cur.subrange(0, i as int));
                let ghost rest = self.entries@.subrange(i as int, self.entries@.len() as int);
                let ghost goal = before.subrange(done + 1, before.len() as int);
                assert forall|k: int| 0 <= k < rest.len() implies #[trigger] rest[k] == goal[k] by {
                    assert(cur[i + 1 + k] == cur.subrange(i as int, cur.len() as int)[k + 1]);
                    assert(before[done + 1 + k] == before.subrange(done, before.len() as int)[k
                        + 1]);
                }
                assert(self.entries@.subrange(i as int, self.entries@.len() as int)
                    =~= before.subrange(done + 1, before.len() as int));
            } else {
                i += 1;
                assert(self.entries@.subrange(0, i as int) =~= cur.subrange(0, i as int - 1).push(
                    cur[i as int - 1],
                ));
                let ghost rest = self.entries@.subrange(i as int, self.entries@.len() as int);
                let ghost goal = before.subrange(done + 1, before.len() as int);
                assert forall|k: int| 0 <= k < rest.len() implies #[trigger] rest[k] == goal[k] by {
                    assert(cur[i + k] == cur.subrange(i as int - 1, cur.len() as int)[k + 1]);
                    assert(before[done + 1 + k] == before.subrange(done, before.len() as int)[k
                        + 1]);
                }
                assert(self.entries@.subrange(i as int, self.entries@.len() as int)
                    =~= before.subrange(done + 1, before.len() as int));
            }
            proof {
                done = done + 1;
            }
        }
        proof {
            assert(self.entries@.subrange(0, i as int) =~= self.entries@);
            assert(before.subrange(done, before.len() as int).len() == 0);
            assert(before.subrange(0, done) =~= before);
            assert forall|k: (SeqNumber, SeqNumber)|
                lookup(self.entries@, k.0, k.1) == (if k.0 > height {
                    lookup(before, k.0, k.1)
                } else {
                    None
                }) by {
                lemma_lookup_above(before, height, k.0, k.1);
            }
            assert(self@ =~= map_above(old(self)@, height));
        }
    }

    /// Drops every entry.
    pub fn clear(&mut self)
        ensures
            final(self)@ == Map::<(SeqNumber, SeqNumber), T::V>::empty(),
    {
        self.entries = Vec::new();
        assert(self@ =~= Map::<(SeqNumber, SeqNumber), T::V>::empty());
    }
}

} // verus!
