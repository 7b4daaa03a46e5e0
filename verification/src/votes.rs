//! The votes one user holds: a list of (proposal index, vote) pairs kept in strictly
//! increasing order of proposal index, so that each proposal occurs at most once.
use vstd::prelude::*;
use crate::types::{lock_amount_of, Vote};

verus! {

/// A user's votes, one per proposal.
#[derive(Clone, Debug, PartialEq, Eq)]
pub struct ProposalVotes {
    /// Vote per proposal, ordered by proposal index.
    pub votes: Vec<(u32, Vote)>,
}

/// The list is ordered by proposal index, strictly: no proposal occurs twice.
pub open spec fn votes_sorted(s: Seq<(u32, Vote)>) -> bool {
    forall|i: int, j: int| 0 <= i < j < s.len() ==> #[trigger] s[i].0 < #[trigger] s[j].0
}

/// The list holds a vote on proposal `index`.
pub open spec fn has_vote(s: Seq<(u32, Vote)>, index: u32) -> bool {
    exists|i: int| 0 <= i < s.len() && #[trigger] s[i].0 == index
}

/// Position of the vote on proposal `index` (meaningful where `has_vote` holds).
pub open spec fn vote_position(s: Seq<(u32, Vote)>, index: u32) -> int {
    choose|i: int| 0 <= i < s.len() && #[trigger] s[i].0 == index
}

/// `p` splits the list into the votes on proposals before `index` and those after it.
pub open spec fn splits_at(s: Seq<(u32, Vote)>, index: u32, p: int) -> bool {
    &&& 0 <= p <= s.len()
    &&& forall|i: int| 0 <= i < p ==> #[trigger] s[i].0 < index
    &&& forall|i: int| p <= i < s.len() ==> index < #[trigger] s[i].0
}

/// Where a vote on proposal `index` goes in the list (meaningful where it holds none).
pub open spec fn insert_position(s: Seq<(u32, Vote)>, index: u32) -> int {
    choose|p: int| splits_at(s, index, p)
}

/// The user's vote on proposal `index`, if any.
pub open spec fn vote_on(s: Seq<(u32, Vote)>, index: u32) -> Option<Vote> {
    if has_vote(s, index) {
        Some(s[vote_position(s, index)].1)
    } else {
        None
    }
}

/// The list after voting `vote` on proposal `index`: a vote already there is replaced,
/// otherwise the vote goes in its place in the order.
pub open spec fn votes_with(s: Seq<(u32, Vote)>, index: u32, vote: Vote) -> Seq<(u32, Vote)> {
    if has_vote(s, index) {
        s.update(vote_position(s, index), (index, vote))
    } else {
        s.insert(insert_position(s, index), (index, vote))
    }
}

/// The list without its vote on proposal `index`.
pub open spec fn votes_without(s: Seq<(u32, Vote)>, index: u32) -> Seq<(u32, Vote)> {
    if has_vote(s, index) {
        s.remove(vote_position(s, index))
    } else {
        s
    }
}

/// The largest lock amount among the votes, 0 for no votes.
pub open spec fn max_lock(s: Seq<(u32, Vote)>) -> u128
    decreases s.len(),
{
    if s.len() == 0 {
        0
    } else {
        let rest = max_lock(s.drop_last());
        let last = lock_amount_of(s.last().1);
        if rest >= last {
            rest
        } else {
            last
        }
    }
}

/// In an ordered list, the vote on a proposal found at `i` is the one `vote_position` names.
pub proof fn lemma_vote_position(s: Seq<(u32, Vote)>, index: u32, i: int)
    requires
        votes_sorted(s),
        0 <= i < s.len(),
        s[i].0 == index,
    ensures
        has_vote(s, index),
        vote_position(s, index) == i,
{
    assert(has_vote(s, index));
    let j = vote_position(s, index);
    if j < i {
        assert(s[j].0 < s[i].0);
    } else if i < j {
        assert(s[i].0 < s[j].0);
    }
}

/// In an ordered list split at `p` around `index`, there is no vote on `index`,
/// and `p` is where one goes.
pub proof fn lemma_insert_position(s: Seq<(u32, Vote)>, index: u32, p: int)
    requires
        votes_sorted(s),
        splits_at(s, index, p),
    ensures
        !has_vote(s, index),
        insert_position(s, index) == p,
{
    if has_vote(s, index) {
        let i = vote_position(s, index);
        if i < p {
            assert(s[i].0 < index);
        } else {
            assert(index < s[i].0);
        }
    }
    assert(splits_at(s, index, p));
    let q = insert_position(s, index);
    if q < p {
        assert(index < s[q].0);
        assert(s[q].0 < index);
    } else if p < q {
        assert(index < s[p].0);
        assert(s[p].0 < index);
    }
}

/// An ordered list without a vote on `index` splits around `index` somewhere.
pub proof fn lemma_split_exists(s: Seq<(u32, Vote)>, index: u32)
    requires
        votes_sorted(s),
        !has_vote(s, index),
    ensures
        splits_at(s, index, insert_position(s, index)),
    decreases s.len(),
{
    if s.len() == 0 {
        assert(splits_at(s, index, 0));
    } else {
        let rest = s.drop_last();
        assert forall|i: int| 0 <= i < rest.len() implies #[trigger] rest[i].0 != index by {
            assert(rest[i] == s[i]);
        }
        assert(!has_vote(rest, index));
        lemma_split_exists(rest, index);
        let p = insert_position(rest, index);
        if s.last().0 < index {
            assert(splits_at(s, index, s.len() as int));
        } else {
            assert(s[s.len() - 1].0 != index);
            assert(splits_at(s, index, p)) by {
                assert forall|i: int| 0 <= i < p implies #[trigger] s[i].0 < index by {
                    assert(rest[i] == s[i]);
                }
                assert forall|i: int| p <= i < s.len() implies index < #[trigger] s[i].0 by {
                    if i < s.len() - 1 {
                        assert(rest[i] == s[i]);
                    }
                }
            }
        }
    }
}

/// Voting keeps a list ordered.
pub proof fn lemma_votes_with_sorted(s: Seq<(u32, Vote)>, index: u32, vote: Vote)
    requires
        votes_sorted(s),
    ensures
        votes_sorted(votes_with(s, index, vote)),
        has_vote(votes_with(s, index, vote), index),
        vote_on(votes_with(s, index, vote), index) == Some(vote),
{
    if has_vote(s, index) {
        let i = vote_position(s, index);
        let t = s.update(i, (index, vote));
        assert forall|a: int, b: int| 0 <= a < b < t.len() implies #[trigger] t[a].0
            < #[trigger] t[b].0 by {
            assert(s[a].0 < s[b].0);
        }
        lemma_vote_position(t, index, i);
    } else {
        lemma_split_exists(s, index);
        let p = insert_position(s, index);
        let t = s.insert(p, (index, vote));
        assert forall|a: int, b: int| 0 <= a < b < t.len() implies #[trigger] t[a].0
            < #[trigger] t[b].0 by {
            if b < p {
                assert(s[a].0 < s[b].0);
            } else if b == p {
                assert(s[a].0 < index);
            } else if a < p {
                assert(s[a].0 < index);
                assert(index < s[b - 1].0);
            } else if a == p {
                assert(index < s[b - 1].0);
            } else {
                assert(s[a - 1].0 < s[b - 1].0);
            }
        }
        lemma_vote_position(t, index, p);
    }
}

/// Removing a vote keeps a list ordered, and leaves no vote on that proposal.
pub proof fn lemma_votes_without_sorted(s: Seq<(u32, Vote)>, index: u32)
    requires
        votes_sorted(s),
    ensures
        votes_sorted(votes_without(s, index)),
        !has_vote(votes_without(s, index), index),
{
    let t = votes_without(s, index);
    if has_vote(s, index) {
        let i = vote_position(s, index);
        assert forall|a: int, b: int| 0 <= a < b < t.len() implies #[trigger] t[a].0
            < #[trigger] t[b].0 by {
            if b < i {
                assert(s[a].0 < s[b].0);
            } else if a < i {
                assert(s[a].0 < s[b + 1].0);
            } else {
                assert(s[a + 1].0 < s[b + 1].0);
            }
        }
        if has_vote(t, index) {
            let j = vote_position(t, index);
            if j < i {
                assert(s[j].0 < s[i].0);
            } else {
                assert(s[i].0 < s[j + 1].0);
            }
        }
    }
}

/// The lock of the votes is at least the lock of each vote, and it is 0 or the lock of
/// one of them.
pub proof fn lemma_max_lock(s: Seq<(u32, Vote)>)
    ensures
        forall|i: int| 0 <= i < s.len() ==> lock_amount_of(#[trigger] s[i].1) <= max_lock(s),
        max_lock(s) == 0 || exists|i: int|
            0 <= i < s.len() && max_lock(s) == lock_amount_of(#[trigger] s[i].1),
    decreases s.len(),
{
    if s.len() > 0 {
        let rest = s.drop_last();
        lemma_max_lock(rest);
        assert forall|i: int| 0 <= i < s.len() implies lock_amount_of(#[trigger] s[i].1)
            <= max_lock(s) by {
            if i < s.len() - 1 {
                assert(rest[i] == s[i]);
            }
        }
        if max_lock(s) != 0 {
            if max_lock(s) == lock_amount_of(s[s.len() - 1].1) {
            } else {
                let i = choose|i: int|
                    0 <= i < rest.len() && max_lock(rest) == lock_amount_of(#[trigger] rest[i].1);
                assert(rest[i] == s[i]);
            }
        }
    }
}

/// Voting on proposal `index` changes the user's vote on `index` only.
pub proof fn lemma_vote_on_with(s: Seq<(u32, Vote)>, index: u32, vote: Vote, q: u32)
    requires
        votes_sorted(s),
    ensures
        vote_on(votes_with(s, index, vote), q) == if q == index {
            Some(vote)
        } else {
            vote_on(s, q)
        },
{
    lemma_votes_with_sorted(s, index, vote);
    let t = votes_with(s, index, vote);
    if q != index {
        // positions in `t` of the entries of `s`, and back
        let shift = |i: int| -> int
            {
                if has_vote(s, index) {
                    i
                } else if i < insert_position(s, index) {
                    i
                } else {
                    i + 1
                }
            };
        if !has_vote(s, index) {
            lemma_split_exists(s, index);
        }
        assert forall|i: int| 0 <= i < s.len() && s[i].0 != index implies #[trigger] t[shift(i)]
            == s[i] && 0 <= shift(i) < t.len() by {
            if has_vote(s, index) {
                assert(i != vote_position(s, index));
            }
        }
        if has_vote(s, q) {
            let i = vote_position(s, q);
            assert(t[shift(i)] == s[i]);
            lemma_vote_position(t, q, shift(i));
        } else if has_vote(t, q) {
            let j = vote_position(t, q);
            if has_vote(s, index) {
                if j == vote_position(s, index) {
                    assert(t[j].0 == index);
                }
                assert(t[j] == s[j]);
            } else {
                let p = insert_position(s, index);
                if j < p {
                    assert(t[j] == s[j]);
                } else if j == p {
                    assert(t[j].0 == index);
                } else {
                    assert(t[j] == s[j - 1]);
                }
            }
        }
    }
}

/// Removing the vote on proposal `index` changes the user's vote on `index` only.
pub proof fn lemma_vote_on_without(s: Seq<(u32, Vote)>, index: u32, q: u32)
    requires
        votes_sorted(s),
    ensures
        vote_on(votes_without(s, index), q) == if q == index {
            None
        } else {
            vote_on(s, q)
        },
{
    lemma_votes_without_sorted(s, index);
    let t = votes_without(s, index);
    if q != index && has_vote(s, index) {
        let k = vote_position(s, index);
        if has_vote(s, q) {
            let i = vote_position(s, q);
            assert(i != k);
            if i < k {
                assert(t[i] == s[i]);
                lemma_vote_position(t, q, i);
            } else {
                assert(t[i - 1] == s[i]);
                lemma_vote_position(t, q, i - 1);
            }
        } else if has_vote(t, q) {
            let j = vote_position(t, q);
            if j < k {
                assert(t[j] == s[j]);
            } else {
                assert(t[j] == s[j + 1]);
            }
        }
    }
}

/// Outcome of looking a proposal up in a user's votes: its position, or where a vote on it
/// would go.
pub fn find_vote(votes: &Vec<(u32, Vote)>, index: u32) -> (r: Result<usize, usize>)
    requires
        votes_sorted(votes@),
    ensures
        match r {
            Ok(i) => has_vote(votes@, index) && i == vote_position(votes@, index) && i
                < votes@.len(),
            Err(p) => !has_vote(votes@, index) && p == insert_position(votes@, index) && p
                <= votes@.len(),
        },
{
    let mut lo: usize = 0;
    let mut hi: usize = votes.len();
    while lo < hi
        invariant
            votes_sorted(votes@),
            0 <= lo <= hi <= votes@.len(),
            forall|i: int| 0 <= i < lo ==> #[trigger] votes@[i].0 < index,
            forall|i: int| hi <= i < votes@.len() ==> index < #[trigger] votes@[i].0,
        decreases hi - lo,
    {
        let mid = lo + (hi - lo) / 2;
        let key = votes[mid].0;
        if key == index {
            proof {
                lemma_vote_position(votes@, index, mid as int);
            }
            return Ok(mid);
        } else if key < index {
            proof {
                assert forall|i: int| 0 <= i < mid + 1 implies #[trigger] votes@[i].0 < index by {
                    if i < mid {
                        assert(votes@[i].0 < votes@[mid as int].0);
                    }
                }
            }
            lo = mid + 1;
        } else {
            proof {
                assert forall|i: int| mid <= i < votes@.len() implies index
                    < #[trigger] votes@[i].0 by {
                    if i > mid {
                        assert(votes@[mid as int].0 < votes@[i].0);
                    }
                }
            }
            hi = mid;
        }
    }
    proof {
        lemma_insert_position(votes@, index, lo as int);
    }
    Err(lo)
}

impl Default for ProposalVotes {
    /// No votes.
    fn default() -> (v: Self)
        ensures
            v.votes@ == Seq::<(u32, Vote)>::empty(),
    {
        ProposalVotes { votes: Vec::new() }
    }
}

impl ProposalVotes {
    /// The biggest balance lock among the user's votes: the balance the user's account
    /// has to keep locked. A vote whose lock overflows counts as 0.
    pub fn get_balance_lock(&self) -> (lock: u128)
        ensures
            lock == max_lock(self.votes@),
    {
        let mut acc: u128 = 0;
        let mut i: usize = 0;
        while i < self.votes.len()
            invariant
                0 <= i <= self.votes@.len(),
                acc == max_lock(self.votes@.take(i as int)),
            decreases self.votes@.len() - i,
        {
            let lock = match self.votes[i].1.get_balance_lock() {
                Some(l) => l,
                None => 0,
            };
            proof {
                assert(self.votes@.take(i + 1).drop_last() =~= self.votes@.take(i as int));
            }
            acc = if acc >= lock {
                acc
            } else {
                lock
            };
            i = i + 1;
        }
        proof {
            assert(self.votes@.take(i as int) =~= self.votes@);
        }
        acc
    }

    /// Whether the votes are ordered by proposal index, each proposal at most once.
    pub fn is_ordered(&self) -> (r: bool)
        ensures
            r == votes_sorted(self.votes@),
    {
        let mut i: usize = 1;
        if self.votes.len() == 0 {
            return true;
        }
        while i < self.votes.len()
            invariant
                1 <= i <= self.votes@.len(),
                forall|a: int, b: int| 0 <= a < b < i ==> #[trigger] self.votes@[a].0
                    < #[trigger] self.votes@[b].0,
            decreases self.votes@.len() - i,
        {
            if self.votes[i - 1].0 >= self.votes[i].0 {
                return false;
            }
            proof {
                assert forall|a: int, b: int| 0 <= a < b < i + 1 implies #[trigger] self.votes@[a].0
                    < #[trigger] self.votes@[b].0 by {
                    if b == i && a < i - 1 {
                        assert(self.votes@[a].0 < self.votes@[i - 1].0);
                    }
                }
            }
            i = i + 1;
        }
        true
    }

    /// A copy of the votes.
    pub fn copy(&self) -> (r: ProposalVotes)
        ensures
            r.votes@ == self.votes@,
    {
        let mut out: Vec<(u32, Vote)> = Vec::new();
        let mut i: usize = 0;
        while i < self.votes.len()
            invariant
                0 <= i <= self.votes@.len(),
                out@ == self.votes@.take(i as int),
            decreases self.votes@.len() - i,
        {
            let e = self.votes[i];
            out.push(e);
            proof {
                assert(out@ =~= self.votes@.take(i + 1));
            }
            i = i + 1;
        }
        proof {
            assert(self.votes@.take(i as int) =~= self.votes@);
        }
        ProposalVotes { votes: out }
    }
}

} // verus!
