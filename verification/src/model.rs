//! The pallet's storage as mathematical values, and what each call does to it.
use vstd::prelude::*;
use crate::types::{
    balance_lock_of, is_spam, new_proposal, outcome_of, sat_add_block, with_vote, without_vote,
    CurrencyAction, Config, Effects, Error, Event, NewProposal, Proposal, Vote,
};
use crate::votes::{has_vote, max_lock, vote_position, votes_with, votes_without};

verus! {

/// The pallet's storage: proposal counter, proposals, deposits and each user's votes.
#[verifier::ext_equal]
pub struct PalletView {
    /// Parameters.
    pub config: Config,
    /// Number of proposals started so far; also the index of the next one.
    pub proposal_count: u32,
    /// Proposals that are started and not closed, by index.
    pub proposals: Map<u32, Proposal>,
    /// Owner and reserved deposit of each such proposal.
    pub deposits: Map<u32, (u64, u128)>,
    /// The votes of each user, ordered by proposal index.
    pub voting: Map<u64, Seq<(u32, Vote)>>,
}

/// Outcome of a call: the new storage with the events and balance changes, or an error.
pub type Step = Result<(PalletView, Seq<Event>, Seq<CurrencyAction>), Error>;

/// The storage right after genesis.
pub open spec fn genesis(config: Config) -> PalletView {
    PalletView {
        config,
        proposal_count: 0,
        proposals: Map::empty(),
        deposits: Map::empty(),
        voting: Map::empty(),
    }
}

/// The map that stores the given entries one after the other (a later entry for a key
/// replaces an earlier one).
pub open spec fn entries_map<K, V>(entries: Seq<(K, V)>) -> Map<K, V>
    decreases entries.len(),
{
    if entries.len() == 0 {
        Map::empty()
    } else {
        entries_map(entries.drop_last()).insert(entries.last().0, entries.last().1)
    }
}

/// A user's votes; none where the user has no entry.
pub open spec fn votes_of(s: PalletView, who: u64) -> Seq<(u32, Vote)> {
    if s.voting.contains_key(who) {
        s.voting[who]
    } else {
        Seq::empty()
    }
}

/// Every user's votes are ordered by proposal index.
pub open spec fn votes_ordered(s: PalletView) -> bool {
    forall|who: u64| #[trigger]
        s.voting.contains_key(who) ==> crate::votes::votes_sorted(s.voting[who])
}

/// Whether proposal `index` still takes votes at block `now`.
pub open spec fn ongoing(s: PalletView, index: u32, now: u64) -> Result<(), Error> {
    if !s.proposals.contains_key(index) {
        Err(Error::ProposalIndexInvalid)
    } else if s.proposals[index].end < now {
        Err(Error::ProposalClosedForVoting)
    } else {
        Ok(())
    }
}

/// The checks of `start_proposal` and the proposal they admit.
pub open spec fn start_checks(
    s: PalletView,
    identity: Result<(), Error>,
    who: u64,
    hash: [u8; 32],
    voting_period: u64,
    now: u64,
) -> Result<NewProposal, Error> {
    match identity {
        Err(e) => Err(e),
        Ok(_) => {
            if voting_period == 0 {
                Err(Error::VotingPeriodLow)
            } else if s.proposal_count >= s.config.max_proposals {
                Err(Error::ProposalsMaxCount)
            } else {
                Ok(
                    NewProposal {
                        who,
                        proposal_index: s.proposal_count,
                        proposal: new_proposal(hash, sat_add_block(now, voting_period)),
                        deposit: s.config.proposal_deposit,
                    },
                )
            }
        },
    }
}

/// Recording an admitted proposal once its deposit is reserved.
pub open spec fn record_step(s: PalletView, np: NewProposal) -> (PalletView, Seq<Event>) {
    (
        PalletView {
            proposal_count: (np.proposal_index + 1) as u32,
            proposals: s.proposals.insert(np.proposal_index, np.proposal),
            deposits: s.deposits.insert(np.proposal_index, (np.who, np.deposit)),
            ..s
        },
        seq![Event::ProposalStarted { account: np.who, proposal_index: np.proposal_index }],
    )
}

/// `start_proposal` as a whole, where reserving the deposit succeeds.
pub open spec fn start_step(
    s: PalletView,
    identity: Result<(), Error>,
    who: u64,
    hash: [u8; 32],
    voting_period: u64,
    now: u64,
) -> Step {
    match start_checks(s, identity, who, hash, voting_period, now) {
        Err(e) => Err(e),
        Ok(np) => {
            let (post, events) = record_step(s, np);
            Ok((post, events, Seq::empty()))
        },
    }
}

/// `close_proposal`: after its voting period, the proposal's result is published, its
/// deposit is given back (or slashed if the proposal is spam) and it is removed.
pub open spec fn close_step(s: PalletView, identity: Result<(), Error>, index: u32, now: u64) -> Step {
    match identity {
        Err(e) => Err(e),
        Ok(_) => {
            if !s.proposals.contains_key(index) {
                Err(Error::ProposalIndexInvalid)
            } else if !(s.proposals[index].end < now) {
                Err(Error::ProposalUnderVoting)
            } else {
                let p = s.proposals[index];
                let actions = if s.deposits.contains_key(index) {
                    if is_spam(p, s.config.slash_threshold) {
                        seq![
                            CurrencyAction::SlashReserved {
                                who: s.deposits[index].0,
                                amount: s.config.proposal_deposit,
                            },
                        ]
                    } else {
                        seq![
                            CurrencyAction::Unreserve {
                                who: s.deposits[index].0,
                                amount: s.deposits[index].1,
                            },
                        ]
                    }
                } else {
                    Seq::empty()
                };
                Ok(
                    (
                        PalletView {
                            proposals: s.proposals.remove(index),
                            deposits: s.deposits.remove(index),
                            ..s
                        },
                        seq![Event::ProposalClosed { proposal_index: index, status: outcome_of(p) }],
                        actions,
                    ),
                )
            }
        },
    }
}

/// `vote`: the vote is counted on the proposal (replacing the user's earlier vote on it,
/// if any), recorded among the user's votes, and the user's lock is extended to the
/// square of its weight.
pub open spec fn vote_step(
    s: PalletView,
    identity: Result<(), Error>,
    who: u64,
    index: u32,
    vote: Vote,
    now: u64,
    free_balance: u128,
) -> Step {
    match identity {
        Err(e) => Err(e),
        Ok(_) => match balance_lock_of(vote) {
            None => Err(Error::BalanceToLow),
            Some(lock) => {
                if lock > free_balance {
                    Err(Error::BalanceToLow)
                } else {
                    match ongoing(s, index, now) {
                        Err(e) => Err(e),
                        Ok(_) => {
                            let p = s.proposals[index];
                            let votes = votes_of(s, who);
                            if has_vote(votes, index) {
                                let earlier = votes[vote_position(votes, index)].1;
                                Ok(
                                    (
                                        PalletView {
                                            proposals: s.proposals.insert(
                                                index,
                                                with_vote(without_vote(p, earlier), vote),
                                            ),
                                            voting: s.voting.insert(
                                                who,
                                                votes_with(votes, index, vote),
                                            ),
                                            ..s
                                        },
                                        seq![
                                            Event::UnVoted {
                                                account: who,
                                                proposal_index: index,
                                                vote: earlier,
                                            },
                                            Event::Voted {
                                                account: who,
                                                proposal_index: index,
                                                vote,
                                            },
                                        ],
                                        seq![CurrencyAction::ExtendLock { who, amount: lock }],
                                    ),
                                )
                            } else if votes.len() >= s.config.max_votes {
                                Err(Error::VotesMaxCount)
                            } else {
                                Ok(
                                    (
                                        PalletView {
                                            proposals: s.proposals.insert(
                                                index,
                                                with_vote(p, vote),
                                            ),
                                            voting: s.voting.insert(
                                                who,
                                                votes_with(votes, index, vote),
                                            ),
                                            ..s
                                        },
                                        seq![
                                            Event::Voted {
                                                account: who,
                                                proposal_index: index,
                                                vote,
                                            },
                                        ],
                                        seq![CurrencyAction::ExtendLock { who, amount: lock }],
                                    ),
                                )
                            }
                        },
                    }
                }
            },
        },
    }
}

/// `unvote`: the user's vote on an ongoing proposal is taken out of its tally and off the
/// user's votes. The user's lock stays as it is.
pub open spec fn unvote_step(
    s: PalletView,
    identity: Result<(), Error>,
    who: u64,
    index: u32,
    now: u64,
) -> Step {
    match identity {
        Err(e) => Err(e),
        Ok(_) => match ongoing(s, index, now) {
            Err(e) => Err(e),
            Ok(_) => {
                let votes = votes_of(s, who);
                if !has_vote(votes, index) {
                    Err(Error::ProposalIndexInvalid)
                } else {
                    let v = votes[vote_position(votes, index)].1;
                    Ok(
                        (
                            PalletView {
                                proposals: s.proposals.insert(
                                    index,
                                    without_vote(s.proposals[index], v),
                                ),
                                voting: s.voting.insert(who, votes_without(votes, index)),
                                ..s
                            },
                            seq![Event::UnVoted { account: who, proposal_index: index, vote: v }],
                            Seq::empty(),
                        ),
                    )
                }
            },
        },
    }
}

/// The lock to put on `account` for a lock amount: none for 0, else that amount.
pub open spec fn lock_action(account: u64, lock: u128) -> CurrencyAction {
    if lock == 0 {
        CurrencyAction::RemoveLock { who: account }
    } else {
        CurrencyAction::SetLock { who: account, amount: lock }
    }
}

/// `unlock_account_balance`, called by `who` for `account`: `account`'s vote on a proposal
/// whose voting has ended (or that is closed) is dropped, and the lock on `account` is set
/// to the biggest lock among `account`'s remaining votes, or removed when that is 0.
pub open spec fn unlock_step(
    s: PalletView,
    identity: Result<(), Error>,
    who: u64,
    account: u64,
    index: u32,
    now: u64,
) -> Step {
    match identity {
        Err(e) => Err(e),
        Ok(_) => {
            let end: u64 = if s.proposals.contains_key(index) {
                s.proposals[index].end
            } else {
                0
            };
            let votes = votes_of(s, account);
            let drops = has_vote(votes, index) && end < now;
            let kept = if drops {
                votes_without(votes, index)
            } else {
                votes
            };
            let action = lock_action(account, max_lock(kept));
            let voting = if drops && kept.len() == 0 {
                s.voting.remove(account)
            } else {
                s.voting.insert(account, kept)
            };
            Ok((PalletView { voting, ..s }, Seq::empty(), seq![action]))
        },
    }
}

/// The call's result `r` and the storage `post` after it are those `step` describes for
/// the storage `pre` before it; a refused call leaves the storage as it was.
pub open spec fn step_matches(pre: PalletView, post: PalletView, r: Result<Effects, Error>, step: Step) -> bool {
    match step {
        Ok((s, events, actions)) => {
            &&& r is Ok
            &&& post == s
            &&& r->Ok_0.events@ == events
            &&& r->Ok_0.actions@ == actions
        },
        Err(e) => r == Err::<Effects, Error>(e) && post == pre,
    }
}

/// As `step_matches` for the verdict `Ok(())` of the identity check, or the call was
/// refused by the identity check and changed nothing.
pub open spec fn step_matches_judged(
    pre: PalletView,
    post: PalletView,
    r: Result<Effects, Error>,
    step_if_identified: Step,
) -> bool {
    ||| step_matches(pre, post, r, step_if_identified)
    ||| (r == Err::<Effects, Error>(Error::WithoutIdentityDisplayAndWebsite) && post == pre)
    ||| (r == Err::<Effects, Error>(Error::WithoutGoodIdentityJudgement) && post == pre)
}

} // verus!
