//! The voting pallet: its storage and its calls.
//!
//! A call that changes balances or needs the chain's state gets what it reads as
//! arguments (the current block, the caller's free balance) and answers with the events
//! to deposit and the balance changes for the currency to make. Starting a proposal takes
//! two steps, because the deposit is reserved between the checks and the recording:
//! `start_proposal` checks, the currency reserves, `record_proposal` records.
use vstd::prelude::*;
use std::collections::HashMap;
use crate::identity::{
    always_accepts, refusal_backed, identity_judgement, identity_verdict, may_answer_identity, may_answer_judgement,
    required_identity_fields, IdentityVerifier,
};
use crate::model::{
    entries_map, close_step, genesis, lock_action, ongoing, record_step, start_checks, step_matches,
    step_matches_judged, unlock_step, unvote_step, vote_step, votes_of, votes_ordered,
    PalletView,
};
use crate::types::{
    is_spam, sat_add_block, Config, CurrencyAction, Effects, Error, Event, NewProposal, Proposal,
    ProposalStatus, Vote,
};
use crate::votes::{
    find_vote, votes_sorted, lemma_votes_with_sorted, lemma_votes_without_sorted, max_lock, ProposalVotes,
};

verus! {

broadcast use vstd::std_specs::hash::group_hash_axioms;

/// The voting pallet with its storage.
pub struct Pallet {
    config: Config,
    proposal_count: u32,
    proposals: HashMap<u32, Proposal>,
    deposits: HashMap<u32, (u64, u128)>,
    voting: HashMap<u64, ProposalVotes>,
}

/// The proposal admitted for `who` on `hash`: the next index, the hash as given, voting
/// open until block `now + voting_period` (saturating), an empty tally, the started
/// status, and the configured deposit.
pub open spec fn started_as(
    s: PalletView,
    np: NewProposal,
    who: u64,
    hash: [u8; 32],
    voting_period: u64,
    now: u64,
) -> bool {
    &&& np.who == who
    &&& np.proposal_index == s.proposal_count
    &&& np.proposal.proposal == hash
    &&& np.proposal.end == sat_add_block(now, voting_period)
    &&& np.proposal.aye == 0
    &&& np.proposal.nay == 0
    &&& np.proposal.status == ProposalStatus::ProposalStarted
    &&& np.deposit == s.config.proposal_deposit
}

/// What closing proposal `index` of storage `s` reports: its majority result (approved
/// exactly when the aye weight exceeds the nay weight), and the stored deposit given back
/// to its owner, or the configured deposit slashed when the proposal is spam under the
/// configured threshold.
pub open spec fn closed_as(s: PalletView, index: u32, e: Effects) -> bool {
    let p = s.proposals[index];
    &&& e.events@ == seq![
        Event::ProposalClosed {
            proposal_index: index,
            status: if p.aye > p.nay {
                ProposalStatus::ProposalApproved
            } else {
                ProposalStatus::ProposalRejected
            },
        },
    ]
    &&& !s.deposits.contains_key(index) ==> e.actions@ == Seq::<CurrencyAction>::empty()
    &&& s.deposits.contains_key(index) ==> e.actions@ == seq![
        if is_spam(p, s.config.slash_threshold) {
            CurrencyAction::SlashReserved { who: s.deposits[index].0, amount: s.config.proposal_deposit }
        } else {
            CurrencyAction::Unreserve { who: s.deposits[index].0, amount: s.deposits[index].1 }
        },
    ]
}

/// Unlocking `account` changes nothing but `account`'s votes: proposals, deposits, the
/// counter, the parameters and every other user's votes stay.
pub open spec fn unlock_leaves(pre: PalletView, post: PalletView, account: u64) -> bool {
    &&& post.proposals == pre.proposals
    &&& post.deposits == pre.deposits
    &&& post.proposal_count == pre.proposal_count
    &&& post.config == pre.config
    &&& forall|other: u64| other != account ==> #[trigger] votes_of(post, other) == votes_of(pre, other)
}

impl View for Pallet {
    type V = PalletView;

    closed spec fn view(&self) -> PalletView {
        PalletView {
            config: self.config,
            proposal_count: self.proposal_count,
            proposals: self.proposals@,
            deposits: self.deposits@,
            voting: self.voting@.map_values(|pv: ProposalVotes| pv.votes@),
        }
    }
}

/// Genesis configuration of the pallet: the proposal counter starts at 0.
#[derive(Clone, Copy, Debug, Default, PartialEq, Eq)]
pub struct GenesisConfig {}

impl GenesisConfig {
    /// The pallet's storage at genesis.
    pub fn build(&self, config: Config) -> (p: Pallet)
        ensures
            p@ == genesis(config),
            p.wf(),
    {
        Pallet::new(config)
    }
}

impl Pallet {
    /// The calls of the pallet rely on every user's votes being ordered; every call keeps it so.
    pub open spec fn wf(&self) -> bool {
        votes_ordered(self@)
    }

    /// The pallet with empty storage.
    pub fn new(config: Config) -> (p: Pallet)
        ensures
            p@ == genesis(config),
            p.wf(),
    {
        let p = Pallet {
            config,
            proposal_count: 0,
            proposals: HashMap::new(),
            deposits: HashMap::new(),
            voting: HashMap::new(),
        };
        assert(p@.voting =~= Map::empty());
        p
    }

    /// The pallet with the given storage contents, entered one after the other; `None`
    /// where some user's votes are not ordered by proposal index.
    pub fn restore(
        config: Config,
        proposal_count: u32,
        proposals: &Vec<(u32, Proposal)>,
        deposits: &Vec<(u32, (u64, u128))>,
        voting: &Vec<(u64, ProposalVotes)>,
    ) -> (r: Option<Pallet>)
        ensures
            r is Some <==> forall|i: int|
                0 <= i < voting@.len() ==> votes_sorted(#[trigger] voting@[i].1.votes@),
            r matches Some(p) ==> {
                &&& p.wf()
                &&& p@ == PalletView {
                    config,
                    proposal_count,
                    proposals: entries_map(proposals@),
                    deposits: entries_map(deposits@),
                    voting: entries_map(voting@.map_values(|e: (u64, ProposalVotes)| (e.0, e.1.votes@))),
                }
            },
    {
        let mut p = Pallet {
            config,
            proposal_count,
            proposals: HashMap::new(),
            deposits: HashMap::new(),
            voting: HashMap::new(),
        };
        let mut i: usize = 0;
        while i < proposals.len()
            invariant
                0 <= i <= proposals@.len(),
                p.proposals@ == entries_map(proposals@.take(i as int)),
                p.deposits@ == Map::<u32, (u64, u128)>::empty(),
                p.voting@ == Map::<u64, ProposalVotes>::empty(),
                p.config == config,
                p.proposal_count == proposal_count,
            decreases proposals@.len() - i,
        {
            let (k, v) = proposals[i];
            p.proposals.insert(k, v);
            proof {
                assert(proposals@.take(i + 1).drop_last() =~= proposals@.take(i as int));
            }
            i = i + 1;
        }
        assert(proposals@.take(proposals@.len() as int) =~= proposals@);
        let mut i: usize = 0;
        while i < deposits.len()
            invariant
                0 <= i <= deposits@.len(),
                p.deposits@ == entries_map(deposits@.take(i as int)),
                p.proposals@ == entries_map(proposals@),
                p.voting@ == Map::<u64, ProposalVotes>::empty(),
                p.config == config,
                p.proposal_count == proposal_count,
            decreases deposits@.len() - i,
        {
            let (k, v) = deposits[i];
            p.deposits.insert(k, v);
            proof {
                assert(deposits@.take(i + 1).drop_last() =~= deposits@.take(i as int));
            }
            i = i + 1;
        }
        assert(deposits@.take(deposits@.len() as int) =~= deposits@);
        assert(p.voting@.map_values(|pv: ProposalVotes| pv.votes@) =~= Map::empty());
        let ghost entries = voting@.map_values(|e: (u64, ProposalVotes)| (e.0, e.1.votes@));
        let mut i: usize = 0;
        while i < voting.len()
            invariant
                0 <= i <= voting@.len(),
                entries == voting@.map_values(|e: (u64, ProposalVotes)| (e.0, e.1.votes@)),
                p.voting@.map_values(|pv: ProposalVotes| pv.votes@) == entries_map(
                    entries.take(i as int),
                ),
                forall|j: int| 0 <= j < i ==> votes_sorted(#[trigger] voting@[j].1.votes@),
                p.proposals@ == entries_map(proposals@),
                p.deposits@ == entries_map(deposits@),
                p.config == config,
                p.proposal_count == proposal_count,
                forall|who: u64| #[trigger]
                    p.voting@.contains_key(who) ==> votes_sorted(p.voting@[who].votes@),
            decreases voting@.len() - i,
        {
            if !voting[i].1.is_ordered() {
                return None;
            }
            let who = voting[i].0;
            let votes = voting[i].1.copy();
            p.voting.insert(who, votes);
            proof {
                assert(entries.take(i + 1).drop_last() =~= entries.take(i as int));
                assert(p.voting@.map_values(|pv: ProposalVotes| pv.votes@) =~= entries_map(
                    entries.take(i + 1),
                ));
            }
            i = i + 1;
        }
        proof {
            assert(proposals@.take(proposals@.len() as int) =~= proposals@);
            assert(deposits@.take(deposits@.len() as int) =~= deposits@);
            assert(entries.take(entries.len() as int) =~= entries);
        }
        Some(p)
    }

    /// The pallet's parameters.
    pub fn config(&self) -> (c: Config)
        ensures
            c == self@.config,
    {
        self.config
    }

    /// Number of proposals started so far.
    pub fn proposal_count(&self) -> (n: u32)
        ensures
            n == self@.proposal_count,
    {
        self.proposal_count
    }

    /// Owner and reserved deposit of a proposal that is not closed.
    pub fn proposal_owner(&self, index: u32) -> (r: Option<(u64, u128)>)
        ensures
            r == self@.deposits.get(index),
    {
        match self.deposits.get(&index) {
            Some(d) => Some(*d),
            None => None,
        }
    }

    /// A proposal that is not closed.
    pub fn proposal_info(&self, index: u32) -> (r: Option<Proposal>)
        ensures
            r == self@.proposals.get(index),
    {
        match self.proposals.get(&index) {
            Some(p) => Some(*p),
            None => None,
        }
    }

    /// The votes of a user; none where the user has none recorded.
    pub fn user_votes(&self, account: u64) -> (v: ProposalVotes)
        ensures
            v.votes@ == votes_of(self@, account),
    {
        match self.voting.get(&account) {
            Some(v) => v.copy(),
            None => ProposalVotes::default(),
        }
    }

    /// Checks that `who` has an identity with display name and website, judged good.
    /// The answers come from the runtime's identity provider `I`; the judgement is asked
    /// for only when the identity is there.
    pub fn has_identity<I: IdentityVerifier<u64>>(who: &u64) -> (r: Result<(), Error>)
        ensures
            crate::identity::is_identity_outcome(r),
            exists|a: bool, g: bool|
                #![trigger identity_verdict(a, g)]
                may_answer_identity::<I>(who, 5, a) && (a ==> may_answer_judgement::<I>(who, g))
                    && r == identity_verdict(a, g),
            always_accepts::<I>(who, 5) ==> r is Ok,
            refusal_backed::<(), I>(who, r),
    {
        let fields = required_identity_fields();
        let identified = I::has_identity(who, fields);
        assert(may_answer_identity::<I>(who, 5, identified));
        if !identified {
            assert(identity_verdict(false, false) == identity_verdict(false, true));
            return identity_judgement(false, false);
        }
        let good = I::has_good_judgement(who);
        assert(may_answer_judgement::<I>(who, good));
        identity_judgement(true, good)
    }

    /// Whether proposal `index` still takes votes at block `now`.
    pub fn is_proposal_ongoing(&self, index: u32, now: u64) -> (r: Result<(), Error>)
        ensures
            r == ongoing(self@, index, now),
    {
        match self.proposals.get(&index) {
            None => Err(Error::ProposalIndexInvalid),
            Some(p) => {
                if p.end >= now {
                    Ok(())
                } else {
                    Err(Error::ProposalClosedForVoting)
                }
            },
        }
    }

    /// The lock to put on `account` for the given votes: the biggest of their locks, or no
    /// lock when that is 0.
    pub fn try_unlock(account: u64, votes: &ProposalVotes) -> (a: CurrencyAction)
        ensures
            a == lock_action(account, max_lock(votes.votes@)),
            max_lock(votes.votes@) == 0 ==> a == (CurrencyAction::RemoveLock { who: account }),
            max_lock(votes.votes@) != 0 ==> a == (CurrencyAction::SetLock {
                who: account,
                amount: max_lock(votes.votes@),
            }),
    {
        let balance = votes.get_balance_lock();
        if balance == 0 {
            CurrencyAction::RemoveLock { who: account }
        } else {
            CurrencyAction::SetLock { who: account, amount: balance }
        }
    }

    // -----------------------------------------------------------------------------------
    // start_proposal
    // -----------------------------------------------------------------------------------

    /// Checks for starting a proposal on `proposal` at block `now`, voting for
    /// `voting_period` blocks, given the verdict of the identity check on `who`. On
    /// success, the deposit is to be reserved on `who` and the proposal then recorded
    /// with `record_proposal`.
    pub fn start_proposal_with_verdict(
        &self,
        identity: Result<(), Error>,
        who: u64,
        proposal: [u8; 32],
        voting_period: u64,
        now: u64,
    ) -> (r: Result<NewProposal, Error>)
        ensures
            r == start_checks(self@, identity, who, proposal, voting_period, now),
            r matches Ok(np) ==> started_as(self@, np, who, proposal, voting_period, now),
    {
        match identity {
            Err(e) => {
                return Err(e);
            },
            Ok(()) => {},
        }
        if voting_period == 0 {
            return Err(Error::VotingPeriodLow);
        }
        let voting_end = now.saturating_add(voting_period);
        let index = self.proposal_count;
        if index >= self.config.max_proposals {
            return Err(Error::ProposalsMaxCount);
        }
        Ok(
            NewProposal {
                who,
                proposal_index: index,
                proposal: Proposal::new(proposal, voting_end),
                deposit: self.config.proposal_deposit,
            },
        )
    }

    /// Start proposal, first step: the checks. Only users with an identity (judged by
    /// the identity provider `I`) can start a proposal. Voting is open until block
    /// `now + voting_period`.
    pub fn start_proposal<I: IdentityVerifier<u64>>(
        &self,
        who: u64,
        proposal: [u8; 32],
        voting_period: u64,
        now: u64,
    ) -> (r: Result<NewProposal, Error>)
        ensures
            r == start_checks(self@, Ok(()), who, proposal, voting_period, now) || r == Err::<
                NewProposal,
                Error,
            >(Error::WithoutIdentityDisplayAndWebsite) || r == Err::<NewProposal, Error>(
                Error::WithoutGoodIdentityJudgement,
            ),
            always_accepts::<I>(&who, 5) ==> r == start_checks(
                self@,
                Ok(()),
                who,
                proposal,
                voting_period,
                now,
            ),
            r matches Ok(np) ==> started_as(self@, np, who, proposal, voting_period, now),
            refusal_backed::<NewProposal, I>(&who, r),
    {
        let identity = Self::has_identity::<I>(&who);
        self.start_proposal_with_verdict(identity, who, proposal, voting_period, now)
    }

    /// Start proposal, second step: records the proposal admitted by `start_proposal`,
    /// once its deposit is reserved, under the next index.
    pub fn record_proposal(&mut self, new: NewProposal) -> (r: Effects)
        requires
            old(self).wf(),
            new.proposal_index == old(self)@.proposal_count,
            old(self)@.proposal_count < old(self)@.config.max_proposals,
        ensures
            final(self).wf(),
            (final(self)@, r.events@) == record_step(old(self)@, new),
            r.actions@ == Seq::<CurrencyAction>::empty(),
    {
        let index = new.proposal_index;
        self.proposals.insert(index, new.proposal);
        self.proposal_count = index + 1;
        self.deposits.insert(index, (new.who, new.deposit));
        let mut events: Vec<Event> = Vec::new();
        events.push(Event::ProposalStarted { account: new.who, proposal_index: index });
        let actions: Vec<CurrencyAction> = Vec::new();
        proof {
            assert(events@ =~= record_step(old(self)@, new).1);
            assert(self@ =~= record_step(old(self)@, new).0);
        }
        Effects { events, actions }
    }

    // -----------------------------------------------------------------------------------
    // close_proposal
    // -----------------------------------------------------------------------------------

    /// Close proposal `index` at block `now`, given the verdict of the identity check on
    /// the caller.
    pub fn close_proposal_with_verdict(
        &mut self,
        identity: Result<(), Error>,
        index: u32,
        now: u64,
    ) -> (r: Result<Effects, Error>)
        requires
            old(self).wf(),
        ensures
            final(self).wf(),
            step_matches(old(self)@, final(self)@, r, close_step(old(self)@, identity, index, now)),
            r matches Ok(e) ==> closed_as(old(self)@, index, e),
    {
        match identity {
            Err(e) => {
                return Err(e);
            },
            Ok(()) => {},
        }
        let mut proposal = match self.proposals.get(&index) {
            Some(p) => *p,
            None => {
                return Err(Error::ProposalIndexInvalid);
            },
        };
        if !(proposal.end < now) {
            return Err(Error::ProposalUnderVoting);
        }
        let ghost pre = self@;
        let mut actions: Vec<CurrencyAction> = Vec::new();
        match self.deposits.remove(&index) {
            Some((owner, deposit)) => {
                if proposal.check_spam(self.config.slash_threshold) {
                    actions.push(
                        CurrencyAction::SlashReserved {
                            who: owner,
                            amount: self.config.proposal_deposit,
                        },
                    );
                } else {
                    actions.push(CurrencyAction::Unreserve { who: owner, amount: deposit });
                }
            },
            None => {},
        }
        self.proposals.remove(&index);
        let status = proposal.finalize();
        let mut events: Vec<Event> = Vec::new();
        events.push(Event::ProposalClosed { proposal_index: index, status });
        proof {
            let step = close_step(pre, identity, index, now);
            assert(step is Ok);
            assert(events@ =~= step->Ok_0.1);
            assert(actions@ =~= step->Ok_0.2);
            assert(self@ =~= step->Ok_0.0);
        }
        Ok(Effects { events, actions })
    }

    /// Close proposal `index`: possible once voting has ended, i.e. at a block `now` after
    /// the proposal's end. Only users with an identity can close a proposal. The result of
    /// the vote is published, the deposit is given back or, for spam, slashed, and the
    /// proposal is removed.
    pub fn close_proposal<I: IdentityVerifier<u64>>(
        &mut self,
        who: u64,
        index: u32,
        now: u64,
    ) -> (r: Result<Effects, Error>)
        requires
            old(self).wf(),
        ensures
            final(self).wf(),
            step_matches_judged(
                old(self)@,
                final(self)@,
                r,
                close_step(old(self)@, Ok(()), index, now),
            ),
            always_accepts::<I>(&who, 5) ==> step_matches(
                old(self)@,
                final(self)@,
                r,
                close_step(old(self)@, Ok(()), index, now),
            ),
            r matches Ok(e) ==> closed_as(old(self)@, index, e),
            refusal_backed::<Effects, I>(&who, r),
    {
        let identity = Self::has_identity::<I>(&who);
        self.close_proposal_with_verdict(identity, index, now)
    }

    // -----------------------------------------------------------------------------------
    // vote
    // -----------------------------------------------------------------------------------

    /// Vote `vote` on proposal `index` at block `now` for `who`, whose free balance is
    /// `free_balance`, given the verdict of the identity check on `who`.
    pub fn vote_with_verdict(
        &mut self,
        identity: Result<(), Error>,
        who: u64,
        index: u32,
        vote: Vote,
        now: u64,
        free_balance: u128,
    ) -> (r: Result<Effects, Error>)
        requires
            old(self).wf(),
        ensures
            final(self).wf(),
            step_matches(
                old(self)@,
                final(self)@,
                r,
                vote_step(old(self)@, identity, who, index, vote, now, free_balance),
            ),
    {
        match identity {
            Err(e) => {
                return Err(e);
            },
            Ok(()) => {},
        }
        let balance = match vote.get_balance_lock() {
            Some(b) => b,
            None => {
                return Err(Error::BalanceToLow);
            },
        };
        if balance > free_balance {
            return Err(Error::BalanceToLow);
        }
        match self.is_proposal_ongoing(index, now) {
            Err(e) => {
                return Err(e);
            },
            Ok(()) => {},
        }
        let ghost pre = self@;
        let mut proposal = *self.proposals.get(&index).unwrap();
        let mut votes = match self.voting.get(&who) {
            Some(v) => v.copy(),
            None => ProposalVotes::default(),
        };
        assert(votes.votes@ == votes_of(pre, who));
        assert(crate::votes::votes_sorted(votes.votes@));
        let mut events: Vec<Event> = Vec::new();
        match find_vote(&votes.votes, index) {
            Ok(idx) => {
                let earlier = votes.votes[idx].1;
                proposal.remove_vote(&earlier);
                events.push(Event::UnVoted { account: who, proposal_index: index, vote: earlier });
                proposal.add_vote(&vote);
                votes.votes.set(idx, (index, vote));
                events.push(Event::Voted { account: who, proposal_index: index, vote });
            },
            Err(idx) => {
                if votes.votes.len() >= self.config.max_votes as usize {
                    return Err(Error::VotesMaxCount);
                }
                proposal.add_vote(&vote);
                votes.votes.insert(idx, (index, vote));
                events.push(Event::Voted { account: who, proposal_index: index, vote });
            },
        }
        proof {
            lemma_votes_with_sorted(votes_of(pre, who), index, vote);
        }
        self.proposals.insert(index, proposal);
        self.voting.insert(who, votes);
        let mut actions: Vec<CurrencyAction> = Vec::new();
        actions.push(CurrencyAction::ExtendLock { who, amount: balance });
        proof {
            let step = vote_step(pre, identity, who, index, vote, now, free_balance);
            assert(step is Ok);
            assert(events@ =~= step->Ok_0.1);
            assert(actions@ =~= step->Ok_0.2);
            assert(self@.voting =~= step->Ok_0.0.voting);
            assert(self@ =~= step->Ok_0.0);
        }
        Ok(Effects { events, actions })
    }

    /// Vote on proposal `index`. Only users with an identity can vote. The square of the
    /// vote's weight is the balance locked for it, which must not exceed the voter's free
    /// balance. A vote on a proposal the user already voted on replaces the earlier one.
    /// The lock on the voter's account is extended to the vote's balance lock.
    pub fn vote<I: IdentityVerifier<u64>>(
        &mut self,
        who: u64,
        index: u32,
        vote: Vote,
        now: u64,
        free_balance: u128,
    ) -> (r: Result<Effects, Error>)
        requires
            old(self).wf(),
        ensures
            final(self).wf(),
            step_matches_judged(
                old(self)@,
                final(self)@,
                r,
                vote_step(old(self)@, Ok(()), who, index, vote, now, free_balance),
            ),
            always_accepts::<I>(&who, 5) ==> step_matches(
                old(self)@,
                final(self)@,
                r,
                vote_step(old(self)@, Ok(()), who, index, vote, now, free_balance),
            ),
            refusal_backed::<Effects, I>(&who, r),
    {
        let identity = Self::has_identity::<I>(&who);
        self.vote_with_verdict(identity, who, index, vote, now, free_balance)
    }

    // -----------------------------------------------------------------------------------
    // unvote
    // -----------------------------------------------------------------------------------

    /// Remove `who`'s vote on proposal `index` at block `now`, given the verdict of the
    /// identity check on `who`.
    pub fn unvote_with_verdict(
        &mut self,
        identity: Result<(), Error>,
        who: u64,
        index: u32,
        now: u64,
    ) -> (r: Result<Effects, Error>)
        requires
            old(self).wf(),
        ensures
            final(self).wf(),
            step_matches(old(self)@, final(self)@, r, unvote_step(old(self)@, identity, who, index, now)),
    {
        match identity {
            Err(e) => {
                return Err(e);
            },
            Ok(()) => {},
        }
        match self.is_proposal_ongoing(index, now) {
            Err(e) => {
                return Err(e);
            },
            Ok(()) => {},
        }
        let ghost pre = self@;
        let mut proposal = *self.proposals.get(&index).unwrap();
        let mut votes = match self.voting.get(&who) {
            Some(v) => v.copy(),
            None => ProposalVotes::default(),
        };
        assert(votes.votes@ == votes_of(pre, who));
        let mut events: Vec<Event> = Vec::new();
        match find_vote(&votes.votes, index) {
            Ok(idx) => {
                let v = votes.votes[idx].1;
                proposal.remove_vote(&v);
                events.push(Event::UnVoted { account: who, proposal_index: index, vote: v });
                votes.votes.remove(idx);
            },
            Err(_) => {
                return Err(Error::ProposalIndexInvalid);
            },
        }
        proof {
            lemma_votes_without_sorted(votes_of(pre, who), index);
        }
        self.proposals.insert(index, proposal);
        self.voting.insert(who, votes);
        let actions: Vec<CurrencyAction> = Vec::new();
        proof {
            let step = unvote_step(pre, identity, who, index, now);
            assert(step is Ok);
            assert(events@ =~= step->Ok_0.1);
            assert(actions@ =~= step->Ok_0.2);
            assert(self@.voting =~= step->Ok_0.0.voting);
            assert(self@ =~= step->Ok_0.0);
        }
        Ok(Effects { events, actions })
    }

    /// Unvote proposal `index`, which must still be ongoing. Only users with an identity
    /// can unvote. The balance lock stays; `unlock_account_balance` adjusts it.
    pub fn unvote<I: IdentityVerifier<u64>>(&mut self, who: u64, index: u32, now: u64) -> (r:
        Result<Effects, Error>)
        requires
            old(self).wf(),
        ensures
            final(self).wf(),
            step_matches_judged(
                old(self)@,
                final(self)@,
                r,
                unvote_step(old(self)@, Ok(()), who, index, now),
            ),
            always_accepts::<I>(&who, 5) ==> step_matches(
                old(self)@,
                final(self)@,
                r,
                unvote_step(old(self)@, Ok(()), who, index, now),
            ),
            refusal_backed::<Effects, I>(&who, r),
    {
        let identity = Self::has_identity::<I>(&who);
        self.unvote_with_verdict(identity, who, index, now)
    }

    // -----------------------------------------------------------------------------------
    // unlock_account_balance
    // -----------------------------------------------------------------------------------

    /// Unlock the balance of `account` at block `now` as `who` asks, given the verdict of
    /// the identity check on `who`: `account`'s own votes decide its lock.
    pub fn unlock_account_balance_with_verdict(
        &mut self,
        identity: Result<(), Error>,
        who: u64,
        account: u64,
        index: u32,
        now: u64,
    ) -> (r: Result<Effects, Error>)
        requires
            old(self).wf(),
        ensures
            final(self).wf(),
            step_matches(
                old(self)@,
                final(self)@,
                r,
                unlock_step(old(self)@, identity, who, account, index, now),
            ),
            unlock_leaves(old(self)@, final(self)@, account),
    {
        match identity {
            Err(e) => {
                return Err(e);
            },
            Ok(()) => {},
        }
        let ghost pre = self@;
        let end: u64 = match self.proposals.get(&index) {
            Some(p) => p.end,
            None => 0,
        };
        let mut votes = match self.voting.get(&account) {
            Some(v) => v.copy(),
            None => ProposalVotes::default(),
        };
        assert(votes.votes@ == votes_of(pre, account));
        let mut empty = false;
        match find_vote(&votes.votes, index) {
            Ok(idx) => {
                if end < now {
                    votes.votes.remove(idx);
                    empty = votes.votes.len() == 0;
                }
            },
            Err(_) => {},
        }
        proof {
            lemma_votes_without_sorted(votes_of(pre, account), index);
        }
        let action = Self::try_unlock(account, &votes);
        if empty {
            self.voting.remove(&account);
        } else {
            self.voting.insert(account, votes);
        }
        let events: Vec<Event> = Vec::new();
        let mut actions: Vec<CurrencyAction> = Vec::new();
        actions.push(action);
        proof {
            let step = unlock_step(pre, identity, who, account, index, now);
            assert(step is Ok);
            assert(events@ =~= step->Ok_0.1);
            assert(actions@ =~= step->Ok_0.2);
            assert(self@.voting =~= step->Ok_0.0.voting);
            assert(self@ =~= step->Ok_0.0);
        }
        Ok(Effects { events, actions })
    }

    /// Unlock account balance on user request. Only users with an identity can call it.
    /// `account`'s vote on proposal `index` is dropped if that proposal's voting has ended
    /// (or it is closed); then the lock on `account` is set to the biggest lock among
    /// `account`'s remaining votes, or removed. Any user with an identity may ask this
    /// for any account.
    pub fn unlock_account_balance<I: IdentityVerifier<u64>>(
        &mut self,
        who: u64,
        account: u64,
        index: u32,
        now: u64,
    ) -> (r: Result<Effects, Error>)
        requires
            old(self).wf(),
        ensures
            final(self).wf(),
            step_matches_judged(
                old(self)@,
                final(self)@,
                r,
                unlock_step(old(self)@, Ok(()), who, account, index, now),
            ),
            always_accepts::<I>(&who, 5) ==> step_matches(
                old(self)@,
                final(self)@,
                r,
                unlock_step(old(self)@, Ok(()), who, account, index, now),
            ),
            unlock_leaves(old(self)@, final(self)@, account),
            refusal_backed::<Effects, I>(&who, r),
    {
        let identity = Self::has_identity::<I>(&who);
        self.unlock_account_balance_with_verdict(identity, who, account, index, now)
    }
}

} // verus!
