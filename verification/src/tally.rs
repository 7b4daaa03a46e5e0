//! The tally of an ongoing proposal is the sum of the votes recorded on it.
use vstd::prelude::*;
use crate::laws::{storage_invariant, votes_valid};
use crate::model::{
    genesis, votes_ordered, record_step, start_checks, close_step, unlock_step, unvote_step, vote_step,
    votes_of, PalletView,
};
use crate::types::{Config, Vote};
use crate::votes::{
    has_vote, lemma_vote_on_with, lemma_vote_on_without, vote_on, votes_sorted,
};

verus! {

/// The sum of `f` over a finite set of accounts.
pub open spec fn sum_over(keys: Set<u64>, f: spec_fn(u64) -> nat) -> nat
    decreases keys.len(),
    when keys.finite()
{
    if keys.len() == 0 {
        0
    } else {
        let k = keys.choose();
        f(k) + sum_over(keys.remove(k), f)
    }
}

/// A sum is any one of its terms plus the sum of the others.
pub proof fn lemma_sum_split(keys: Set<u64>, f: spec_fn(u64) -> nat, x: u64)
    requires
        keys.finite(),
        keys.contains(x),
    ensures
        sum_over(keys, f) == f(x) + sum_over(keys.remove(x), f),
    decreases keys.len(),
{
    assert(keys.remove(x).len() == keys.len() - 1);
    let k = keys.choose();
    if k != x {
        lemma_sum_split(keys.remove(k), f, x);
        lemma_sum_split(keys.remove(x), f, k);
        assert(keys.remove(k).remove(x) =~= keys.remove(x).remove(k));
    }
}

/// Sums of functions that agree on the set are equal.
pub proof fn lemma_sum_congruent(keys: Set<u64>, f: spec_fn(u64) -> nat, g: spec_fn(u64) -> nat)
    requires
        keys.finite(),
        forall|k: u64| keys.contains(k) ==> f(k) == g(k),
    ensures
        sum_over(keys, f) == sum_over(keys, g),
    decreases keys.len(),
{
    if keys.len() != 0 {
        let k = keys.choose();
        lemma_sum_congruent(keys.remove(k), f, g);
    }
}

/// A sum of zeros is zero.
pub proof fn lemma_sum_zero(keys: Set<u64>, f: spec_fn(u64) -> nat)
    requires
        keys.finite(),
        forall|k: u64| keys.contains(k) ==> f(k) == 0,
    ensures
        sum_over(keys, f) == 0,
    decreases keys.len(),
{
    if keys.len() != 0 {
        let k = keys.choose();
        lemma_sum_zero(keys.remove(k), f);
    }
}

/// The sum over all users of what each user's votes contribute.
pub open spec fn total(voting: Map<u64, Seq<(u32, Vote)>>, c: spec_fn(Seq<(u32, Vote)>) -> nat) -> nat {
    sum_over(voting.dom(), |a: u64| c(voting[a]))
}

/// What a user's entry contributes; nothing where the user has none.
pub open spec fn entry_part(
    voting: Map<u64, Seq<(u32, Vote)>>,
    a: u64,
    c: spec_fn(Seq<(u32, Vote)>) -> nat,
) -> nat {
    if voting.contains_key(a) {
        c(voting[a])
    } else {
        0
    }
}

/// Replacing one user's votes changes the total by the difference of their parts.
pub proof fn lemma_total_insert(
    m: Map<u64, Seq<(u32, Vote)>>,
    a: u64,
    v: Seq<(u32, Vote)>,
    c: spec_fn(Seq<(u32, Vote)>) -> nat,
)
    requires
        m.dom().finite(),
    ensures
        total(m.insert(a, v), c) + entry_part(m, a, c) == total(m, c) + c(v),
        entry_part(m, a, c) <= total(m, c),
{
    let m2 = m.insert(a, v);
    let f = |k: u64| c(m[k]);
    let f2 = |k: u64| c(m2[k]);
    lemma_sum_split(m2.dom(), f2, a);
    assert(m2.dom().remove(a) =~= m.dom().remove(a));
    lemma_sum_congruent(m.dom().remove(a), f2, f);
    if m.contains_key(a) {
        lemma_sum_split(m.dom(), f, a);
    } else {
        assert(m.dom().remove(a) =~= m.dom());
    }
}

/// Removing one user's entry takes their part off the total.
pub proof fn lemma_total_remove(
    m: Map<u64, Seq<(u32, Vote)>>,
    a: u64,
    c: spec_fn(Seq<(u32, Vote)>) -> nat,
)
    requires
        m.dom().finite(),
    ensures
        total(m.remove(a), c) + entry_part(m, a, c) == total(m, c),
{
    let m2 = m.remove(a);
    let f = |k: u64| c(m[k]);
    let f2 = |k: u64| c(m2[k]);
    lemma_sum_congruent(m2.dom(), f2, f);
    if m.contains_key(a) {
        lemma_sum_split(m.dom(), f, a);
        assert(m2.dom() =~= m.dom().remove(a));
    } else {
        assert(m2.dom() =~= m.dom());
    }
}

/// The aye weight a user's votes put on proposal `p`.
pub open spec fn aye_of(votes: Seq<(u32, Vote)>, p: u32) -> nat {
    match vote_on(votes, p) {
        Some(Vote::Aye(w)) => w as nat,
        _ => 0,
    }
}

/// The nay weight a user's votes put on proposal `p`.
pub open spec fn nay_of(votes: Seq<(u32, Vote)>, p: u32) -> nat {
    match vote_on(votes, p) {
        Some(Vote::Nay(w)) => w as nat,
        _ => 0,
    }
}

/// The part of a user's votes that counts in the aye tally of `p`.
pub open spec fn aye_part(p: u32) -> spec_fn(Seq<(u32, Vote)>) -> nat {
    |votes: Seq<(u32, Vote)>| aye_of(votes, p)
}

/// The part of a user's votes that counts in the nay tally of `p`.
pub open spec fn nay_part(p: u32) -> spec_fn(Seq<(u32, Vote)>) -> nat {
    |votes: Seq<(u32, Vote)>| nay_of(votes, p)
}

/// The sum of the aye weights that all users recorded on proposal `p`.
pub open spec fn aye_total(s: PalletView, p: u32) -> nat {
    total(s.voting, aye_part(p))
}

/// The sum of the nay weights that all users recorded on proposal `p`.
pub open spec fn nay_total(s: PalletView, p: u32) -> nat {
    total(s.voting, nay_part(p))
}

/// At block `now`, the tally of every proposal still open for voting is the sum of the
/// votes that users have recorded on it.
pub open spec fn tallies_match(s: PalletView, now: u64) -> bool {
    &&& s.voting.dom().finite()
    &&& forall|p: u32|
        #![trigger s.proposals[p]]
        s.proposals.contains_key(p) && now <= s.proposals[p].end ==> s.proposals[p].aye
            == aye_total(s, p) && s.proposals[p].nay == nay_total(s, p)
}

/// The tallies match at genesis.
pub proof fn lemma_genesis_tallies(config: Config, now: u64)
    ensures
        tallies_match(genesis(config), now),
{
}

/// Every recorded vote is on a proposal that was started.
pub open spec fn votes_on_started(s: PalletView) -> bool {
    forall|a: u64, i: int|
        s.voting.contains_key(a) && 0 <= i < s.voting[a].len() ==> #[trigger] s.voting[a][i].0
            < s.proposal_count
}

/// The storage invariant has every recorded vote on a started proposal.
pub proof fn lemma_invariant_votes_on_started(s: PalletView)
    requires
        storage_invariant(s),
    ensures
        votes_on_started(s),
{
    assert forall|a: u64, i: int|
        s.voting.contains_key(a) && 0 <= i < s.voting[a].len() implies #[trigger] s.voting[a][i].0
        < s.proposal_count by {
        assert(votes_valid(s, s.voting[a]));
    }
}

/// Starting a proposal keeps the tallies matching: nobody has voted on it yet.
pub proof fn lemma_start_keeps_tallies(
    s: PalletView,
    who: u64,
    hash: [u8; 32],
    voting_period: u64,
    now: u64,
)
    requires
        votes_on_started(s),
        tallies_match(s, now),
        start_checks(s, Ok(()), who, hash, voting_period, now) is Ok,
    ensures
        tallies_match(
            record_step(s, start_checks(s, Ok(()), who, hash, voting_period, now)->Ok_0).0,
            now,
        ),
{
    let np = start_checks(s, Ok(()), who, hash, voting_period, now)->Ok_0;
    let t = record_step(s, np).0;
    let q = np.proposal_index;
    assert forall|a: u64| s.voting.dom().contains(a) implies !has_vote(#[trigger] s.voting[a], q) by {
        if has_vote(s.voting[a], q) {
            let i = choose|i: int| 0 <= i < s.voting[a].len() && #[trigger] s.voting[a][i].0 == q;
            assert(s.voting[a][i].0 < s.proposal_count);
        }
    }
    lemma_sum_zero(s.voting.dom(), |a: u64| aye_part(q)(s.voting[a]));
    lemma_sum_zero(s.voting.dom(), |a: u64| nay_part(q)(s.voting[a]));
    assert forall|p: u32|
        #![trigger t.proposals[p]]
        t.proposals.contains_key(p) && now <= t.proposals[p].end implies t.proposals[p].aye
        == aye_total(t, p) && t.proposals[p].nay == nay_total(t, p) by {
        if p != q {
            assert(s.proposals[p] == t.proposals[p]);
        }
    }
}

/// Closing a proposal keeps the tallies matching.
pub proof fn lemma_close_keeps_tallies(s: PalletView, index: u32, now: u64)
    requires
        tallies_match(s, now),
        close_step(s, Ok(()), index, now) is Ok,
    ensures
        tallies_match(close_step(s, Ok(()), index, now)->Ok_0.0, now),
{
    let t = close_step(s, Ok(()), index, now)->Ok_0.0;
    assert forall|p: u32|
        #![trigger t.proposals[p]]
        t.proposals.contains_key(p) && now <= t.proposals[p].end implies t.proposals[p].aye
        == aye_total(t, p) && t.proposals[p].nay == nay_total(t, p) by {
        assert(s.proposals[p] == t.proposals[p]);
    }
}

proof fn lemma_votes_of_sorted(s: PalletView, who: u64)
    requires
        votes_ordered(s),
    ensures
        votes_sorted(votes_of(s, who)),
        !s.voting.contains_key(who) ==> votes_of(s, who) == Seq::<(u32, Vote)>::empty(),
{
}

/// Replacing a user's votes by `nv` changes the totals of `p` by the user's change on `p`.
proof fn lemma_totals_after(s: PalletView, who: u64, nv: Seq<(u32, Vote)>, p: u32)
    requires
        votes_ordered(s),
        s.voting.dom().finite(),
    ensures
        total(s.voting.insert(who, nv), aye_part(p)) + aye_of(votes_of(s, who), p) == aye_total(
            s,
            p,
        ) + aye_of(nv, p),
        total(s.voting.insert(who, nv), nay_part(p)) + nay_of(votes_of(s, who), p) == nay_total(
            s,
            p,
        ) + nay_of(nv, p),
        aye_of(votes_of(s, who), p) <= aye_total(s, p),
        nay_of(votes_of(s, who), p) <= nay_total(s, p),
{
    lemma_total_insert(s.voting, who, nv, aye_part(p));
    lemma_total_insert(s.voting, who, nv, nay_part(p));
    if !s.voting.contains_key(who) {
        assert(!has_vote(votes_of(s, who), p));
    }
}

/// Voting keeps the tallies matching, where the sums it makes fit in a balance.
pub proof fn lemma_vote_keeps_tallies(
    s: PalletView,
    who: u64,
    index: u32,
    vote: Vote,
    now: u64,
    free_balance: u128,
)
    requires
        votes_ordered(s),
        tallies_match(s, now),
        vote_step(s, Ok(()), who, index, vote, now, free_balance) is Ok,
        aye_total(vote_step(s, Ok(()), who, index, vote, now, free_balance)->Ok_0.0, index)
            <= u128::MAX,
        nay_total(vote_step(s, Ok(()), who, index, vote, now, free_balance)->Ok_0.0, index)
            <= u128::MAX,
    ensures
        tallies_match(vote_step(s, Ok(()), who, index, vote, now, free_balance)->Ok_0.0, now),
{
    let t = vote_step(s, Ok(()), who, index, vote, now, free_balance)->Ok_0.0;
    let votes = votes_of(s, who);
    lemma_votes_of_sorted(s, who);
    let nv = crate::votes::votes_with(votes, index, vote);
    assert(t.voting == s.voting.insert(who, nv));
    assert forall|p: u32|
        #![trigger t.proposals[p]]
        t.proposals.contains_key(p) && now <= t.proposals[p].end implies t.proposals[p].aye
        == aye_total(t, p) && t.proposals[p].nay == nay_total(t, p) by {
        lemma_totals_after(s, who, nv, p);
        lemma_vote_on_with(votes, index, vote, p);
        if p != index {
            assert(s.proposals[p] == t.proposals[p]);
        } else {
            assert(s.proposals.contains_key(index) && now <= s.proposals[index].end);
            if has_vote(votes, index) {
                assert(vote_on(votes, index) == Some(
                    votes[crate::votes::vote_position(votes, index)].1,
                ));
            }
        }
    }
}

/// Unvoting keeps the tallies matching.
pub proof fn lemma_unvote_keeps_tallies(s: PalletView, who: u64, index: u32, now: u64)
    requires
        votes_ordered(s),
        tallies_match(s, now),
        unvote_step(s, Ok(()), who, index, now) is Ok,
    ensures
        tallies_match(unvote_step(s, Ok(()), who, index, now)->Ok_0.0, now),
{
    let t = unvote_step(s, Ok(()), who, index, now)->Ok_0.0;
    let votes = votes_of(s, who);
    lemma_votes_of_sorted(s, who);
    let nv = crate::votes::votes_without(votes, index);
    assert(t.voting == s.voting.insert(who, nv));
    assert forall|p: u32|
        #![trigger t.proposals[p]]
        t.proposals.contains_key(p) && now <= t.proposals[p].end implies t.proposals[p].aye
        == aye_total(t, p) && t.proposals[p].nay == nay_total(t, p) by {
        lemma_totals_after(s, who, nv, p);
        lemma_vote_on_without(votes, index, p);
        if p != index {
            assert(s.proposals[p] == t.proposals[p]);
        } else {
            assert(vote_on(votes, index) == Some(
                votes[crate::votes::vote_position(votes, index)].1,
            ));
        }
    }
}

/// Unlocking keeps the tallies matching: it drops only votes on proposals whose voting has
/// ended.
pub proof fn lemma_unlock_keeps_tallies(
    s: PalletView,
    who: u64,
    account: u64,
    index: u32,
    now: u64,
)
    requires
        votes_ordered(s),
        tallies_match(s, now),
    ensures
        tallies_match(unlock_step(s, Ok(()), who, account, index, now)->Ok_0.0, now),
{
    let t = unlock_step(s, Ok(()), who, account, index, now)->Ok_0.0;
    let votes = votes_of(s, account);
    lemma_votes_of_sorted(s, account);
    let end: u64 = if s.proposals.contains_key(index) {
        s.proposals[index].end
    } else {
        0
    };
    let drops = has_vote(votes, index) && end < now;
    let kept = if drops {
        crate::votes::votes_without(votes, index)
    } else {
        votes
    };
    assert forall|p: u32|
        #![trigger t.proposals[p]]
        t.proposals.contains_key(p) && now <= t.proposals[p].end implies t.proposals[p].aye
        == aye_total(t, p) && t.proposals[p].nay == nay_total(t, p) by {
        assert(s.proposals[p] == t.proposals[p]);
        lemma_totals_after(s, account, kept, p);
        lemma_vote_on_without(votes, index, p);
        if drops && kept.len() == 0 {
            lemma_total_remove(s.voting, account, aye_part(p));
            lemma_total_remove(s.voting, account, nay_part(p));
            assert(!has_vote(kept, p));
            assert(t.voting == s.voting.remove(account));
        } else {
            assert(t.voting == s.voting.insert(account, kept));
        }
    }
}

} // verus!
