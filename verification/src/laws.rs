//! What holds of the pallet across its calls.
use vstd::prelude::*;
use crate::model::{
    close_step, genesis, lock_action, record_step, start_checks, unlock_step, unvote_step,
    vote_step, votes_of, votes_ordered, PalletView,
};
use crate::types::{
    balance_lock_of, is_spam, lock_amount_of, outcome_of, weight_of, with_vote, without_vote,
    Config, CurrencyAction, Error, Event, NewProposal, Proposal, ProposalStatus, Vote,
};
use crate::votes::{
    has_vote, lemma_max_lock, lemma_vote_position, lemma_votes_with_sorted,
    lemma_votes_without_sorted, max_lock, vote_on, vote_position, votes_sorted, votes_with,
    votes_without,
};

verus! {

/// What the storage keeps between calls:
/// - every user's votes are ordered by proposal index, at most `max_votes` of them, each on
///   a proposal that was started, each with a weight whose square fits in a balance;
/// - proposals are numbered below the counter, which stays within `max_proposals`;
/// - a proposal is stored, in the started status, exactly while its deposit is stored,
///   and that deposit is the configured one.
pub open spec fn storage_invariant(s: PalletView) -> bool {
    &&& votes_ordered(s)
    &&& s.proposal_count <= s.config.max_proposals
    &&& forall|k: u32| #[trigger]
        s.proposals.contains_key(k) ==> k < s.proposal_count && s.proposals[k].status
            == ProposalStatus::ProposalStarted
    &&& forall|k: u32| #[trigger] s.proposals.contains_key(k) <==> s.deposits.contains_key(k)
    &&& forall|k: u32| #[trigger]
        s.deposits.contains_key(k) ==> s.deposits[k].1 == s.config.proposal_deposit
    &&& forall|who: u64| #[trigger] s.voting.contains_key(who) ==> votes_valid(s, s.voting[who])
}

/// A user's votes as the storage keeps them.
pub open spec fn votes_valid(s: PalletView, votes: Seq<(u32, Vote)>) -> bool {
    &&& votes.len() <= s.config.max_votes
    &&& forall|i: int| 0 <= i < votes.len() ==> #[trigger] votes[i].0 < s.proposal_count
    &&& forall|i: int| 0 <= i < votes.len() ==> balance_lock_of(#[trigger] votes[i].1) is Some
}

/// Counting `vote` in the proposal's tally does not saturate the side it is on.
pub open spec fn tally_fits(p: Proposal, vote: Vote) -> bool {
    match vote {
        Vote::Aye(w) => p.aye + w <= u128::MAX,
        Vote::Nay(w) => p.nay + w <= u128::MAX,
    }
}

/// The storage at genesis keeps the invariant.
pub proof fn lemma_genesis_invariant(config: Config)
    ensures
        storage_invariant(genesis(config)),
{
}

proof fn lemma_votes_of_valid(s: PalletView, who: u64)
    requires
        storage_invariant(s),
    ensures
        votes_valid(s, votes_of(s, who)),
        votes_sorted(votes_of(s, who)),
{
    if s.voting.contains_key(who) {
        assert(votes_valid(s, s.voting[who]));
    }
}

/// Recording a proposal that `start_proposal` admitted keeps the invariant.
pub proof fn lemma_start_keeps_invariant(
    s: PalletView,
    who: u64,
    hash: [u8; 32],
    voting_period: u64,
    now: u64,
)
    requires
        storage_invariant(s),
        start_checks(s, Ok(()), who, hash, voting_period, now) is Ok,
    ensures
        storage_invariant(
            record_step(s, start_checks(s, Ok(()), who, hash, voting_period, now)->Ok_0).0,
        ),
{
    let np = start_checks(s, Ok(()), who, hash, voting_period, now)->Ok_0;
    let t = record_step(s, np).0;
    assert forall|who2: u64| #[trigger] t.voting.contains_key(who2) implies votes_valid(
        t,
        t.voting[who2],
    ) by {
        assert(votes_valid(s, s.voting[who2]));
    }
}

/// Closing a proposal keeps the invariant.
pub proof fn lemma_close_keeps_invariant(s: PalletView, index: u32, now: u64)
    requires
        storage_invariant(s),
        close_step(s, Ok(()), index, now) is Ok,
    ensures
        storage_invariant(close_step(s, Ok(()), index, now)->Ok_0.0),
{
    let t = close_step(s, Ok(()), index, now)->Ok_0.0;
    assert forall|who2: u64| #[trigger] t.voting.contains_key(who2) implies votes_valid(
        t,
        t.voting[who2],
    ) by {
        assert(votes_valid(s, s.voting[who2]));
    }
}

/// Voting keeps the invariant.
pub proof fn lemma_vote_keeps_invariant(
    s: PalletView,
    who: u64,
    index: u32,
    vote: Vote,
    now: u64,
    free_balance: u128,
)
    requires
        storage_invariant(s),
        vote_step(s, Ok(()), who, index, vote, now, free_balance) is Ok,
    ensures
        storage_invariant(vote_step(s, Ok(()), who, index, vote, now, free_balance)->Ok_0.0),
{
    let t = vote_step(s, Ok(()), who, index, vote, now, free_balance)->Ok_0.0;
    let votes = votes_of(s, who);
    lemma_votes_of_valid(s, who);
    lemma_votes_with_sorted(votes, index, vote);
    let nv = votes_with(votes, index, vote);
    assert(t.voting[who] == nv);
    assert(s.proposals.contains_key(index));
    if has_vote(votes, index) {
        let i = vote_position(votes, index);
        assert forall|j: int| 0 <= j < nv.len() implies #[trigger] nv[j].0 < t.proposal_count
            && balance_lock_of(nv[j].1) is Some by {
            if j != i {
                assert(nv[j] == votes[j]);
            }
        }
    } else {
        crate::votes::lemma_split_exists(votes, index);
        let p = crate::votes::insert_position(votes, index);
        assert forall|j: int| 0 <= j < nv.len() implies #[trigger] nv[j].0 < t.proposal_count
            && balance_lock_of(nv[j].1) is Some by {
            if j < p {
                assert(nv[j] == votes[j]);
            } else if j > p {
                assert(nv[j] == votes[j - 1]);
            }
        }
    }
    assert(votes_ordered(t));
    assert forall|who2: u64| #[trigger] t.voting.contains_key(who2) implies votes_valid(
        t,
        t.voting[who2],
    ) by {
        if who2 != who {
            assert(votes_valid(s, s.voting[who2]));
        }
    }
}

/// Removing a vote keeps a user's votes valid.
proof fn lemma_votes_without_valid(s: PalletView, votes: Seq<(u32, Vote)>, index: u32)
    requires
        votes_valid(s, votes),
        votes_sorted(votes),
    ensures
        votes_valid(s, votes_without(votes, index)),
{
    let nv = votes_without(votes, index);
    if has_vote(votes, index) {
        let i = vote_position(votes, index);
        assert forall|j: int| 0 <= j < nv.len() implies #[trigger] nv[j].0 < s.proposal_count
            && balance_lock_of(nv[j].1) is Some by {
            if j < i {
                assert(nv[j] == votes[j]);
            } else {
                assert(nv[j] == votes[j + 1]);
            }
        }
    }
}

/// Unvoting keeps the invariant.
pub proof fn lemma_unvote_keeps_invariant(s: PalletView, who: u64, index: u32, now: u64)
    requires
        storage_invariant(s),
        unvote_step(s, Ok(()), who, index, now) is Ok,
    ensures
        storage_invariant(unvote_step(s, Ok(()), who, index, now)->Ok_0.0),
{
    let t = unvote_step(s, Ok(()), who, index, now)->Ok_0.0;
    let votes = votes_of(s, who);
    lemma_votes_of_valid(s, who);
    lemma_votes_without_sorted(votes, index);
    lemma_votes_without_valid(s, votes, index);
    assert(votes_ordered(t));
    assert forall|who2: u64| #[trigger] t.voting.contains_key(who2) implies votes_valid(
        t,
        t.voting[who2],
    ) by {
        if who2 != who {
            assert(votes_valid(s, s.voting[who2]));
        }
    }
}

/// Unlocking keeps the invariant.
pub proof fn lemma_unlock_keeps_invariant(
    s: PalletView,
    who: u64,
    account: u64,
    index: u32,
    now: u64,
)
    requires
        storage_invariant(s),
    ensures
        unlock_step(s, Ok(()), who, account, index, now) is Ok,
        storage_invariant(unlock_step(s, Ok(()), who, account, index, now)->Ok_0.0),
{
    let t = unlock_step(s, Ok(()), who, account, index, now)->Ok_0.0;
    let votes = votes_of(s, account);
    lemma_votes_of_valid(s, account);
    lemma_votes_without_sorted(votes, index);
    lemma_votes_without_valid(s, votes, index);
    assert(votes_ordered(t));
    assert forall|who2: u64| #[trigger] t.voting.contains_key(who2) implies votes_valid(
        t,
        t.voting[who2],
    ) by {
        if who2 != account {
            assert(votes_valid(s, s.voting[who2]));
        }
    }
}

/// Proposals are numbered from 0 in the order they start: a started proposal gets the
/// current count as its index, and the count goes up by one. Its voting runs until block
/// `now + voting_period` (saturating), with an empty tally.
pub proof fn lemma_proposal_numbering(
    s: PalletView,
    who: u64,
    hash: [u8; 32],
    voting_period: u64,
    now: u64,
)
    requires
        start_checks(s, Ok(()), who, hash, voting_period, now) is Ok,
    ensures
        ({
            let np = start_checks(s, Ok(()), who, hash, voting_period, now)->Ok_0;
            let t = record_step(s, np).0;
            &&& np.proposal_index == s.proposal_count
            &&& t.proposal_count == s.proposal_count + 1
            &&& t.proposals[np.proposal_index] == np.proposal
            &&& np.proposal.aye == 0 && np.proposal.nay == 0
            &&& np.proposal.end == crate::types::sat_add_block(now, voting_period)
            &&& t.deposits[np.proposal_index] == (who, s.config.proposal_deposit)
        }),
{
}

/// A started proposal records the hash it was started with, voting open until block
/// `now + voting_period` (saturating), an empty tally and the started status; the stored
/// proposal under the new index is exactly that.
pub proof fn lemma_start_records_hash(
    s: PalletView,
    who: u64,
    hash: [u8; 32],
    voting_period: u64,
    now: u64,
)
    requires
        start_checks(s, Ok(()), who, hash, voting_period, now) is Ok,
    ensures
        ({
            let np = start_checks(s, Ok(()), who, hash, voting_period, now)->Ok_0;
            let t = record_step(s, np).0;
            &&& np.who == who
            &&& np.proposal == (Proposal {
                end: crate::types::sat_add_block(now, voting_period),
                proposal: hash,
                aye: 0,
                nay: 0,
                status: ProposalStatus::ProposalStarted,
            })
            &&& t.proposals.contains_key(s.proposal_count)
            &&& t.proposals[s.proposal_count].proposal == hash
        }),
{
}

/// A proposal is approved exactly when more than half of the voted weight is aye.
pub proof fn lemma_majority_decides(p: Proposal)
    ensures
        (outcome_of(p) == ProposalStatus::ProposalApproved) <==> 2 * p.aye > p.aye + p.nay,
        (outcome_of(p) == ProposalStatus::ProposalRejected) <==> 2 * p.aye <= p.aye + p.nay,
{
}

/// Where the sums involved fit in a balance, a proposal is spam exactly when the nay weight
/// is at least `threshold` percent of the total weight.
pub proof fn lemma_spam_threshold(p: Proposal, threshold: u32)
    requires
        p.aye + p.nay <= u128::MAX,
        (p.aye + p.nay) * threshold <= u128::MAX,
        p.nay * 100 <= u128::MAX,
    ensures
        is_spam(p, threshold) <==> (p.aye + p.nay) * threshold <= p.nay * 100,
{
}

/// The balance a vote locks is the square of its weight: a successful vote extends the
/// voter's lock to exactly that.
pub proof fn lemma_quadratic_lock(
    s: PalletView,
    who: u64,
    index: u32,
    vote: Vote,
    now: u64,
    free_balance: u128,
)
    requires
        vote_step(s, Ok(()), who, index, vote, now, free_balance) is Ok,
    ensures
        vote_step(s, Ok(()), who, index, vote, now, free_balance)->Ok_0.2 == seq![
            CurrencyAction::ExtendLock { who, amount: (weight_of(vote) * weight_of(vote)) as u128 },
        ],
        weight_of(vote) * weight_of(vote) <= free_balance,
{
}

/// Voting is not allowed once the voting period has ended.
pub proof fn lemma_no_vote_after_end(
    s: PalletView,
    identity: Result<(), Error>,
    who: u64,
    index: u32,
    vote: Vote,
    now: u64,
    free_balance: u128,
)
    requires
        s.proposals.contains_key(index),
        s.proposals[index].end < now,
    ensures
        !(vote_step(s, identity, who, index, vote, now, free_balance) is Ok),
        !(unvote_step(s, identity, who, index, now) is Ok),
{
}

/// A proposal can be closed only after its voting period, and closing it removes it
/// together with its deposit.
pub proof fn lemma_close_after_end(s: PalletView, index: u32, now: u64)
    requires
        close_step(s, Ok(()), index, now) is Ok,
    ensures
        s.proposals.contains_key(index),
        s.proposals[index].end < now,
        !close_step(s, Ok(()), index, now)->Ok_0.0.proposals.contains_key(index),
        !close_step(s, Ok(()), index, now)->Ok_0.0.deposits.contains_key(index),
{
}

/// Closing publishes the majority result of the stored tally: the proposal is approved
/// exactly when its aye weight exceeds its nay weight (over half of the voted weight is
/// aye), and rejected otherwise.
pub proof fn lemma_close_publishes_majority(s: PalletView, index: u32, now: u64)
    requires
        close_step(s, Ok(()), index, now) is Ok,
    ensures
        ({
            let p = s.proposals[index];
            let status = if p.aye > p.nay {
                ProposalStatus::ProposalApproved
            } else {
                ProposalStatus::ProposalRejected
            };
            &&& close_step(s, Ok(()), index, now)->Ok_0.1 == seq![
                Event::ProposalClosed { proposal_index: index, status },
            ]
            &&& (status == ProposalStatus::ProposalApproved) <==> 2 * p.aye > p.aye + p.nay
        }),
{
}

/// Closing slashes the configured deposit of exactly the spam proposals, those whose nay
/// weight reaches the configured `slash_threshold` percent of all weight (each product and
/// sum clamped to the largest balance), and gives the stored deposit back to its owner
/// otherwise; a proposal without a stored deposit asks for no balance change. Where the
/// sums and products fit, spam means `(aye + nay) * slash_threshold <= nay * 100`.
pub proof fn lemma_close_slashes_spam(s: PalletView, index: u32, now: u64)
    requires
        close_step(s, Ok(()), index, now) is Ok,
    ensures
        ({
            let p = s.proposals[index];
            let threshold = s.config.slash_threshold;
            let total: int = if p.aye + p.nay > u128::MAX {
                u128::MAX as int
            } else {
                p.aye + p.nay
            };
            let weighted: int = if total * threshold > u128::MAX {
                u128::MAX as int
            } else {
                total * threshold
            };
            let nay_percent: int = if p.nay * 100 > u128::MAX {
                u128::MAX as int
            } else {
                p.nay * 100
            };
            let actions = close_step(s, Ok(()), index, now)->Ok_0.2;
            &&& !s.deposits.contains_key(index) ==> actions == Seq::<CurrencyAction>::empty()
            &&& s.deposits.contains_key(index) && weighted <= nay_percent ==> actions == seq![
                CurrencyAction::SlashReserved {
                    who: s.deposits[index].0,
                    amount: s.config.proposal_deposit,
                },
            ]
            &&& s.deposits.contains_key(index) && weighted > nay_percent ==> actions == seq![
                CurrencyAction::Unreserve { who: s.deposits[index].0, amount: s.deposits[index].1 },
            ]
            &&& (p.aye + p.nay <= u128::MAX && (p.aye + p.nay) * threshold <= u128::MAX && p.nay
                * 100 <= u128::MAX) ==> (weighted <= nay_percent <==> (p.aye + p.nay) * threshold
                <= p.nay * 100)
        }),
{
    let p = s.proposals[index];
    let threshold = s.config.slash_threshold;
    let total: int = if p.aye + p.nay > u128::MAX {
        u128::MAX as int
    } else {
        p.aye + p.nay
    };
    assert(crate::types::sat_add(p.aye, p.nay) == total);
    assert(is_spam(p, threshold) <==> (if total * threshold > u128::MAX {
        u128::MAX as int
    } else {
        total * threshold
    }) <= (if p.nay * 100 > u128::MAX {
        u128::MAX as int
    } else {
        p.nay * 100
    }));
}

/// Unlocking touches only the account's votes: proposals (with their tallies), deposits,
/// the proposal counter and the parameters stay as they are, no event is deposited, and
/// every other user's votes are unchanged.
pub proof fn lemma_unlock_leaves_proposals(
    s: PalletView,
    who: u64,
    account: u64,
    index: u32,
    now: u64,
)
    ensures
        ({
            let step = unlock_step(s, Ok(()), who, account, index, now);
            &&& step is Ok
            &&& step->Ok_0.0.proposals == s.proposals
            &&& step->Ok_0.0.deposits == s.deposits
            &&& step->Ok_0.0.proposal_count == s.proposal_count
            &&& step->Ok_0.0.config == s.config
            &&& step->Ok_0.1 == Seq::<Event>::empty()
            &&& forall|other: u64|
                other != account ==> #[trigger] votes_of(step->Ok_0.0, other) == votes_of(
                    s,
                    other,
                )
        }),
{
}

/// Unlocking an account's balance before a proposal is closed does not change how it
/// closes: closing after the unlock gives the same result, events and balance changes as
/// closing without it.
pub proof fn lemma_unlock_then_close(
    s: PalletView,
    who: u64,
    account: u64,
    index: u32,
    now: u64,
    closed: u32,
    close_now: u64,
)
    ensures
        ({
            let t = unlock_step(s, Ok(()), who, account, index, now)->Ok_0.0;
            let after = close_step(t, Ok(()), closed, close_now);
            let direct = close_step(s, Ok(()), closed, close_now);
            match (after, direct) {
                (Ok(a), Ok(d)) => a.1 == d.1 && a.2 == d.2,
                (Err(a), Err(d)) => a == d,
                _ => false,
            }
        }),
{
}

/// Once a proposal's voting has ended, its tally is frozen: voting, unvoting and unlocking
/// at any block after its end leave the stored proposal as it is, so it is closed with the
/// tally of the votes cast while its voting was open.
pub proof fn lemma_ended_tally_frozen(
    s: PalletView,
    k: u32,
    who: u64,
    account: u64,
    index: u32,
    vote: Vote,
    now: u64,
    free_balance: u128,
)
    requires
        s.proposals.contains_key(k),
        s.proposals[k].end < now,
    ensures
        vote_step(s, Ok(()), who, index, vote, now, free_balance) matches Ok(r) ==> r.0.proposals.contains_key(
            k,
        ) && r.0.proposals[k] == s.proposals[k],
        unvote_step(s, Ok(()), who, index, now) matches Ok(r) ==> r.0.proposals.contains_key(k)
            && r.0.proposals[k] == s.proposals[k],
        unlock_step(s, Ok(()), who, account, index, now) matches Ok(r)
            ==> r.0.proposals.contains_key(k) && r.0.proposals[k] == s.proposals[k],
{
}

/// A vote counts its weight on its side of the proposal's tally, and the user's earlier
/// vote on the proposal, if any, stops counting: where nothing saturates, the aye and nay
/// weights change by exactly that. The proposal's hash, end and status stay, and the
/// events report the earlier vote's removal, if any, then the vote.
pub proof fn lemma_vote_moves_weight(
    s: PalletView,
    who: u64,
    index: u32,
    vote: Vote,
    now: u64,
    free_balance: u128,
)
    requires
        vote_step(s, Ok(()), who, index, vote, now, free_balance) is Ok,
    ensures
        ({
            let r = vote_step(s, Ok(()), who, index, vote, now, free_balance)->Ok_0;
            let p = s.proposals[index];
            let q = r.0.proposals[index];
            let earlier = vote_on(votes_of(s, who), index);
            let old_aye: int = match earlier {
                Some(Vote::Aye(w)) => w as int,
                _ => 0,
            };
            let old_nay: int = match earlier {
                Some(Vote::Nay(w)) => w as int,
                _ => 0,
            };
            let new_aye: int = match vote {
                Vote::Aye(w) => w as int,
                _ => 0,
            };
            let new_nay: int = match vote {
                Vote::Nay(w) => w as int,
                _ => 0,
            };
            &&& r.0.proposals.contains_key(index)
            &&& q.proposal == p.proposal && q.end == p.end && q.status == p.status
            &&& old_aye <= p.aye && p.aye - old_aye + new_aye <= u128::MAX ==> q.aye == p.aye
                - old_aye + new_aye
            &&& old_nay <= p.nay && p.nay - old_nay + new_nay <= u128::MAX ==> q.nay == p.nay
                - old_nay + new_nay
            &&& r.1 == match earlier {
                Some(e) => seq![
                    Event::UnVoted { account: who, proposal_index: index, vote: e },
                    Event::Voted { account: who, proposal_index: index, vote },
                ],
                None => seq![Event::Voted { account: who, proposal_index: index, vote }],
            }
        }),
{
}

/// Unvoting takes the user's vote on the proposal out of its tally: where the tally holds
/// it, its side goes down by exactly its weight and the other side stays; the proposal's
/// hash, end and status stay, and the event reports the removed vote.
pub proof fn lemma_unvote_removes_weight(s: PalletView, who: u64, index: u32, now: u64)
    requires
        unvote_step(s, Ok(()), who, index, now) is Ok,
    ensures
        ({
            let r = unvote_step(s, Ok(()), who, index, now)->Ok_0;
            let p = s.proposals[index];
            let q = r.0.proposals[index];
            let earlier = vote_on(votes_of(s, who), index);
            &&& earlier is Some
            &&& r.0.proposals.contains_key(index)
            &&& q.proposal == p.proposal && q.end == p.end && q.status == p.status
            &&& r.1 == seq![
                Event::UnVoted { account: who, proposal_index: index, vote: earlier->Some_0 },
            ]
            &&& match earlier->Some_0 {
                Vote::Aye(w) => q.nay == p.nay && (w <= p.aye ==> q.aye == p.aye - w),
                Vote::Nay(w) => q.aye == p.aye && (w <= p.nay ==> q.nay == p.nay - w),
            }
        }),
{
}

/// When a proposal can be started: the voting period must be at least one block, and
/// fewer than `max_proposals` proposals may have been started.
pub proof fn lemma_start_admission(
    s: PalletView,
    who: u64,
    hash: [u8; 32],
    voting_period: u64,
    now: u64,
)
    ensures
        ({
            let r = start_checks(s, Ok(()), who, hash, voting_period, now);
            &&& voting_period == 0 ==> r == Err::<NewProposal, Error>(Error::VotingPeriodLow)
            &&& voting_period > 0 && s.proposal_count >= s.config.max_proposals ==> r == Err::<
                NewProposal,
                Error,
            >(Error::ProposalsMaxCount)
            &&& voting_period > 0 && s.proposal_count < s.config.max_proposals ==> r is Ok
        }),
{
}

/// When a vote is taken: the square of its weight must not exceed the voter's free
/// balance; then the proposal must exist and its voting must not have ended; then the
/// user must either hold a vote on it already (which is replaced) or hold fewer than
/// `max_votes` votes.
pub proof fn lemma_vote_admission(
    s: PalletView,
    who: u64,
    index: u32,
    vote: Vote,
    now: u64,
    free_balance: u128,
)
    ensures
        ({
            let r = vote_step(s, Ok(()), who, index, vote, now, free_balance);
            let square = weight_of(vote) * weight_of(vote);
            let votes = votes_of(s, who);
            &&& square > free_balance ==> r == Err::<(PalletView, Seq<Event>, Seq<CurrencyAction>), Error>(
                Error::BalanceToLow,
            )
            &&& square <= free_balance && !s.proposals.contains_key(index) ==> r == Err::<
                (PalletView, Seq<Event>, Seq<CurrencyAction>),
                Error,
            >(Error::ProposalIndexInvalid)
            &&& square <= free_balance && s.proposals.contains_key(index) && s.proposals[index].end
                < now ==> r == Err::<(PalletView, Seq<Event>, Seq<CurrencyAction>), Error>(
                Error::ProposalClosedForVoting,
            )
            &&& square <= free_balance && s.proposals.contains_key(index) && now
                <= s.proposals[index].end && !has_vote(votes, index) && votes.len()
                >= s.config.max_votes ==> r == Err::<
                (PalletView, Seq<Event>, Seq<CurrencyAction>),
                Error,
            >(Error::VotesMaxCount)
            &&& square <= free_balance && s.proposals.contains_key(index) && now
                <= s.proposals[index].end && (has_vote(votes, index) || votes.len()
                < s.config.max_votes) ==> r is Ok
        }),
{
}

/// When a vote is removed: the proposal must exist, its voting must not have ended, and
/// the user must hold a vote on it.
pub proof fn lemma_unvote_admission(s: PalletView, who: u64, index: u32, now: u64)
    ensures
        ({
            let r = unvote_step(s, Ok(()), who, index, now);
            &&& !s.proposals.contains_key(index) ==> r == Err::<
                (PalletView, Seq<Event>, Seq<CurrencyAction>),
                Error,
            >(Error::ProposalIndexInvalid)
            &&& s.proposals.contains_key(index) && s.proposals[index].end < now ==> r == Err::<
                (PalletView, Seq<Event>, Seq<CurrencyAction>),
                Error,
            >(Error::ProposalClosedForVoting)
            &&& s.proposals.contains_key(index) && now <= s.proposals[index].end && !has_vote(
                votes_of(s, who),
                index,
            ) ==> r == Err::<(PalletView, Seq<Event>, Seq<CurrencyAction>), Error>(
                Error::ProposalIndexInvalid,
            )
            &&& s.proposals.contains_key(index) && now <= s.proposals[index].end && has_vote(
                votes_of(s, who),
                index,
            ) ==> r is Ok
        }),
{
}

/// When a proposal is closed: it must exist and its voting must have ended.
pub proof fn lemma_close_admission(s: PalletView, index: u32, now: u64)
    ensures
        ({
            let r = close_step(s, Ok(()), index, now);
            &&& !s.proposals.contains_key(index) ==> r == Err::<
                (PalletView, Seq<Event>, Seq<CurrencyAction>),
                Error,
            >(Error::ProposalIndexInvalid)
            &&& s.proposals.contains_key(index) && now <= s.proposals[index].end ==> r == Err::<
                (PalletView, Seq<Event>, Seq<CurrencyAction>),
                Error,
            >(Error::ProposalUnderVoting)
            &&& s.proposals.contains_key(index) && s.proposals[index].end < now ==> r is Ok
        }),
{
}

/// Unvoting leaves the balance lock as it is: it asks for no balance change.
pub proof fn lemma_unvote_keeps_lock(s: PalletView, who: u64, index: u32, now: u64)
    requires
        unvote_step(s, Ok(()), who, index, now) is Ok,
    ensures
        unvote_step(s, Ok(()), who, index, now)->Ok_0.2 == Seq::<CurrencyAction>::empty(),
{
}

/// After unlocking, the lock on the account is the biggest balance among the account's
/// remaining votes (the square of its weight), or there is no lock when no vote is left;
/// every vote of the account on a proposal whose voting has not ended stays, and stays
/// covered by the lock, whoever asks for the unlock.
pub proof fn lemma_unlock_sets_biggest_lock(
    s: PalletView,
    who: u64,
    account: u64,
    index: u32,
    now: u64,
)
    requires
        storage_invariant(s),
    ensures
        ({
            let step = unlock_step(s, Ok(()), who, account, index, now);
            let kept = votes_of(step->Ok_0.0, account);
            &&& step is Ok
            &&& step->Ok_0.2 == seq![lock_action(account, max_lock(kept))]
            &&& max_lock(kept) == 0 ==> step->Ok_0.2 == seq![
                CurrencyAction::RemoveLock { who: account },
            ]
            &&& max_lock(kept) != 0 ==> step->Ok_0.2 == seq![
                CurrencyAction::SetLock { who: account, amount: max_lock(kept) },
            ]
            &&& forall|i: int|
                0 <= i < kept.len() ==> lock_amount_of(#[trigger] kept[i].1) <= max_lock(kept)
            &&& max_lock(kept) == 0 || exists|i: int|
                0 <= i < kept.len() && max_lock(kept) == weight_of(#[trigger] kept[i].1)
                    * weight_of(kept[i].1)
            &&& forall|i: int|
                #![trigger votes_of(s, account)[i]]
                0 <= i < votes_of(s, account).len() && s.proposals.contains_key(
                    votes_of(s, account)[i].0,
                ) && now <= s.proposals[votes_of(s, account)[i].0].end ==> {
                    &&& kept.contains(votes_of(s, account)[i])
                    &&& weight_of(votes_of(s, account)[i].1) * weight_of(
                        votes_of(s, account)[i].1,
                    ) <= max_lock(kept)
                }
        }),
{
    let step = unlock_step(s, Ok(()), who, account, index, now);
    let t = step->Ok_0.0;
    let votes = votes_of(s, account);
    lemma_votes_of_valid(s, account);
    lemma_votes_without_valid(s, votes, index);
    let end: u64 = if s.proposals.contains_key(index) {
        s.proposals[index].end
    } else {
        0
    };
    let drops = has_vote(votes, index) && end < now;
    let kept = if drops {
        votes_without(votes, index)
    } else {
        votes
    };
    assert(votes_of(t, account) == kept);
    lemma_max_lock(kept);
    if max_lock(kept) != 0 {
        let i = choose|i: int|
            0 <= i < kept.len() && max_lock(kept) == lock_amount_of(#[trigger] kept[i].1);
        assert(balance_lock_of(kept[i].1) is Some);
    }
    assert forall|i: int|
        #![trigger votes[i]]
        0 <= i < votes.len() && s.proposals.contains_key(votes[i].0) && now
            <= s.proposals[votes[i].0].end implies kept.contains(votes[i]) && weight_of(
        votes[i].1,
    ) * weight_of(votes[i].1) <= max_lock(kept) by {
        assert(balance_lock_of(votes[i].1) is Some);
        let k: int = if drops {
            let pos = vote_position(votes, index);
            if votes[i].0 == index {
                lemma_vote_position(votes, index, i);
                assert(false);
                i
            } else {
                lemma_vote_position(votes, index, pos);
                if i < pos {
                    i
                } else {
                    assert(i != pos);
                    i - 1
                }
            }
        } else {
            i
        };
        assert(0 <= k < kept.len() && kept[k] == votes[i]);
        assert(lock_amount_of(kept[k].1) <= max_lock(kept));
    }
}

/// Voting again on the same proposal replaces the earlier vote: the user's votes are
/// those of a single vote with the later choice, and, where the earlier vote did not
/// saturate the tally, so is the proposal's tally.
pub proof fn lemma_vote_replaces_earlier(
    s: PalletView,
    who: u64,
    index: u32,
    first: Vote,
    second: Vote,
    now: u64,
    free_balance1: u128,
    free_balance2: u128,
)
    requires
        votes_ordered(s),
        vote_step(s, Ok(()), who, index, first, now, free_balance1) is Ok,
        vote_step(s, Ok(()), who, index, second, now, free_balance2) is Ok,
        ({
            let p = s.proposals[index];
            let base = match vote_on(votes_of(s, who), index) {
                Some(e) => without_vote(p, e),
                None => p,
            };
            tally_fits(base, first)
        }),
    ensures
        ({
            let s1 = vote_step(s, Ok(()), who, index, first, now, free_balance1)->Ok_0.0;
            let twice = vote_step(s1, Ok(()), who, index, second, now, free_balance2);
            let once = vote_step(s, Ok(()), who, index, second, now, free_balance2);
            &&& twice is Ok
            &&& twice->Ok_0.0 == once->Ok_0.0
        }),
{
    let votes = votes_of(s, who);
    assert(votes_sorted(votes));
    let s1 = vote_step(s, Ok(()), who, index, first, now, free_balance1)->Ok_0.0;
    lemma_votes_with_sorted(votes, index, first);
    let v1 = votes_with(votes, index, first);
    assert(votes_of(s1, who) == v1);
    let i = vote_position(v1, index);
    assert(v1[i].1 == first);
    let twice = vote_step(s1, Ok(()), who, index, second, now, free_balance2);
    let once = vote_step(s, Ok(()), who, index, second, now, free_balance2);
    // the user's votes
    let v2 = votes_with(v1, index, second);
    let v3 = votes_with(votes, index, second);
    if has_vote(votes, index) {
        let j = vote_position(votes, index);
        lemma_vote_position(v1, index, j);
        assert(v2 =~= v3);
    } else {
        crate::votes::lemma_split_exists(votes, index);
        let p = crate::votes::insert_position(votes, index);
        lemma_vote_position(v1, index, p);
        assert(v2 =~= v3);
    }
    // the tally
    let p = s.proposals[index];
    let base = match vote_on(votes, index) {
        Some(e) => without_vote(p, e),
        None => p,
    };
    assert(without_vote(with_vote(base, first), first) == base);
    assert(twice->Ok_0.0.proposals =~= once->Ok_0.0.proposals);
    assert(twice->Ok_0.0.voting =~= once->Ok_0.0.voting);
}

/// Unvoting undoes a vote on a proposal the user had not voted on: the user's votes and,
/// where the vote did not saturate the tally, the proposal are as before.
pub proof fn lemma_unvote_undoes_vote(
    s: PalletView,
    who: u64,
    index: u32,
    vote: Vote,
    now: u64,
    free_balance: u128,
)
    requires
        votes_ordered(s),
        !has_vote(votes_of(s, who), index),
        vote_step(s, Ok(()), who, index, vote, now, free_balance) is Ok,
        tally_fits(s.proposals[index], vote),
    ensures
        ({
            let s1 = vote_step(s, Ok(()), who, index, vote, now, free_balance)->Ok_0.0;
            let s2 = unvote_step(s1, Ok(()), who, index, now);
            &&& s2 is Ok
            &&& s2->Ok_0.0.proposals == s.proposals
            &&& votes_of(s2->Ok_0.0, who) == votes_of(s, who)
            &&& forall|other: u64| other != who ==> #[trigger] votes_of(s2->Ok_0.0, other)
                == votes_of(s, other)
        }),
{
    let votes = votes_of(s, who);
    let s1 = vote_step(s, Ok(()), who, index, vote, now, free_balance)->Ok_0.0;
    crate::votes::lemma_split_exists(votes, index);
    let p = crate::votes::insert_position(votes, index);
    let v1 = votes_with(votes, index, vote);
    lemma_vote_position(v1, index, p);
    assert(votes_of(s1, who) == v1);
    assert(votes_without(v1, index) =~= votes);
    let s2 = unvote_step(s1, Ok(()), who, index, now)->Ok_0.0;
    assert(s2.proposals =~= s.proposals);
}

/// A vote of weight 0 is allowed and does not change the tally of a proposal the user had
/// not voted on; it locks nothing beyond 0.
pub proof fn lemma_zero_weight_vote(
    s: PalletView,
    who: u64,
    index: u32,
    vote: Vote,
    now: u64,
    free_balance: u128,
)
    requires
        weight_of(vote) == 0,
        !has_vote(votes_of(s, who), index),
        vote_step(s, Ok(()), who, index, vote, now, free_balance) is Ok,
    ensures
        vote_step(s, Ok(()), who, index, vote, now, free_balance)->Ok_0.0.proposals[index]
            == s.proposals[index],
        vote_step(s, Ok(()), who, index, vote, now, free_balance)->Ok_0.2 == seq![
            CurrencyAction::ExtendLock { who, amount: 0 },
        ],
{
}

} // verus!
