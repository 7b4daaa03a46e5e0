use pallet_voting::{
    Config, CurrencyAction, Effects, Error, Event, IdentityVerifier, Pallet, Proposal,
    ProposalIndex, ProposalStatus, ProposalVotes, Vote,
};
use std::collections::HashMap;

/// Identities as the test runtime registers them: accounts 1, 2, 3, 4, 5, 6, 8 and 9 have
/// a display name and a website; 1, 3, 4, 5, 8 and 9 are judged good, 2 is judged
/// erroneous and 6 has no judgement.
struct TestIdentity;

impl IdentityVerifier<u64> for TestIdentity {
    fn has_identity(who: &u64, fields: u64) -> bool {
        matches!(*who, 1 | 2 | 3 | 4 | 5 | 6 | 8 | 9) && fields & !5u64 == 0
    }

    fn has_good_judgement(who: &u64) -> bool {
        matches!(*who, 1 | 3 | 4 | 5 | 8 | 9)
    }
}

#[derive(Debug, PartialEq, Eq)]
enum CallError {
    Voting(Error),
    InsufficientBalance,
    LiquidityRestrictions,
}

impl From<Error> for CallError {
    fn from(e: Error) -> Self {
        CallError::Voting(e)
    }
}

#[derive(Debug, PartialEq, Eq, Clone)]
enum ChainEvent {
    Voting(Event),
    Reserved { who: u64, amount: u128 },
    Unreserved { who: u64, amount: u128 },
    Slashed { who: u64, amount: u128 },
}

const PROPOSAL_DEPOSIT: u128 = 10;
const MAX_VOTES: u32 = 4;

/// A small chain around the pallet: block number, balances with reserves and the voting
/// lock, and the events deposited so far.
struct Chain {
    pallet: Pallet,
    block: u64,
    free: HashMap<u64, u128>,
    reserved: HashMap<u64, u128>,
    locks: HashMap<u64, u128>,
    events: Vec<ChainEvent>,
}

fn new_test_ext() -> Chain {
    let config = Config {
        max_proposals: 16,
        max_votes: MAX_VOTES,
        proposal_deposit: PROPOSAL_DEPOSIT,
        slash_threshold: 90,
    };
    let mut free = HashMap::new();
    for (who, balance) in [(1u64, 5u128), (2, 20), (3, 30), (4, 40), (5, 50), (6, 60)] {
        free.insert(who, balance);
    }
    Chain {
        pallet: pallet_voting::GenesisConfig::default().build(config),
        block: 1,
        free,
        reserved: HashMap::new(),
        locks: HashMap::new(),
        events: Vec::new(),
    }
}

fn new_proposal() -> [u8; 32] {
    let mut h = [0u8; 32];
    for (i, b) in "my new proposal".bytes().enumerate() {
        h[i] = b;
    }
    h
}

fn the_lock(amount: u128) -> Option<u128> {
    Some(amount)
}

impl Chain {
    fn set_block_number(&mut self, n: u64) {
        self.block = n;
    }

    fn run_to_block(&mut self, n: u64) {
        while self.block < n {
            self.block += 1;
        }
    }

    fn free_balance(&self, who: u64) -> u128 {
        *self.free.get(&who).unwrap_or(&0)
    }

    fn locks(&self, who: u64) -> Option<u128> {
        self.locks.get(&who).copied()
    }

    fn reserve(&mut self, who: u64, amount: u128) -> Result<(), CallError> {
        let free = self.free_balance(who);
        if free < amount {
            return Err(CallError::InsufficientBalance);
        }
        if free - amount < self.locks(who).unwrap_or(0) {
            return Err(CallError::LiquidityRestrictions);
        }
        self.free.insert(who, free - amount);
        *self.reserved.entry(who).or_insert(0) += amount;
        self.events.push(ChainEvent::Reserved { who, amount });
        Ok(())
    }

    fn apply(&mut self, effects: Effects) {
        for action in effects.actions {
            match action {
                CurrencyAction::Unreserve { who, amount } => {
                    let r = self.reserved.entry(who).or_insert(0);
                    let back = amount.min(*r);
                    *r -= back;
                    *self.free.entry(who).or_insert(0) += back;
                    self.events.push(ChainEvent::Unreserved { who, amount: back });
                },
                CurrencyAction::SlashReserved { who, amount } => {
                    let r = self.reserved.entry(who).or_insert(0);
                    let slashed = amount.min(*r);
                    *r -= slashed;
                    self.events.push(ChainEvent::Slashed { who, amount: slashed });
                },
                CurrencyAction::ExtendLock { who, amount } => {
                    let now = self.locks(who).unwrap_or(0);
                    self.locks.insert(who, now.max(amount));
                },
                CurrencyAction::SetLock { who, amount } => {
                    self.locks.insert(who, amount);
                },
                CurrencyAction::RemoveLock { who } => {
                    self.locks.remove(&who);
                },
            }
        }
        for e in effects.events {
            self.events.push(ChainEvent::Voting(e));
        }
    }

    fn start_proposal(&mut self, who: u64, proposal: [u8; 32], period: u64) -> Result<(), CallError> {
        let new = self.pallet.start_proposal::<TestIdentity>(who, proposal, period, self.block)?;
        self.reserve(who, new.deposit)?;
        assert_eq!(new.proposal_index, self.pallet.proposal_count());
        let effects = self.pallet.record_proposal(new);
        self.apply(effects);
        Ok(())
    }

    fn close_proposal(&mut self, who: u64, index: ProposalIndex) -> Result<(), CallError> {
        let effects = self.pallet.close_proposal::<TestIdentity>(who, index, self.block)?;
        self.apply(effects);
        Ok(())
    }

    fn vote(&mut self, who: u64, index: ProposalIndex, vote: Vote) -> Result<(), CallError> {
        let free = self.free_balance(who);
        let effects = self.pallet.vote::<TestIdentity>(who, index, vote, self.block, free)?;
        self.apply(effects);
        Ok(())
    }

    fn unvote(&mut self, who: u64, index: ProposalIndex) -> Result<(), CallError> {
        let effects = self.pallet.unvote::<TestIdentity>(who, index, self.block)?;
        self.apply(effects);
        Ok(())
    }

    fn unlock_account_balance(
        &mut self,
        who: u64,
        account: u64,
        index: ProposalIndex,
    ) -> Result<(), CallError> {
        let effects =
            self.pallet.unlock_account_balance::<TestIdentity>(who, account, index, self.block)?;
        self.apply(effects);
        Ok(())
    }

    fn storage_proposal(&self, index: ProposalIndex) -> Option<Proposal> {
        self.pallet.proposal_info(index)
    }

    fn storage_proposal_counter(&self) -> ProposalIndex {
        self.pallet.proposal_count()
    }

    fn storage_deposit(&self, index: ProposalIndex) -> Option<(u64, u128)> {
        self.pallet.proposal_owner(index)
    }

    fn storage_user_votes(&self, account: u64) -> ProposalVotes {
        self.pallet.user_votes(account)
    }

    fn has_event(&self, e: ChainEvent) -> bool {
        self.events.contains(&e)
    }

    /// Everything a call could change, to check that a refused call changed nothing.
    fn snapshot(&self) -> String {
        let mut out = format!("count {} block {}\n", self.storage_proposal_counter(), self.block);
        for i in 0..20u32 {
            out += &format!("{:?} {:?}\n", self.storage_proposal(i), self.storage_deposit(i));
        }
        for a in 0..12u64 {
            out += &format!(
                "{:?} {:?} {:?} {:?}\n",
                self.storage_user_votes(a),
                self.free.get(&a),
                self.reserved.get(&a),
                self.locks(a)
            );
        }
        out += &format!("{:?}", self.events);
        out
    }

    fn assert_noop<F: FnOnce(&mut Chain) -> Result<(), CallError>>(&mut self, f: F, expected: CallError) {
        let before = self.snapshot();
        let r = f(self);
        assert_eq!(r, Err(expected));
        assert_eq!(before, self.snapshot());
    }
}

fn started(end: u64, aye: u128, nay: u128) -> Proposal {
    Proposal {
        end,
        proposal: new_proposal(),
        aye,
        nay,
        status: ProposalStatus::ProposalStarted,
    }
}

fn new_votes_of(v: Vec<(ProposalIndex, Vote)>) -> Vec<(ProposalIndex, Vote)> {
    v
}

// Start proposal insufficient account balance error
#[test]
fn balance_error_for_start_proposal() {
    let mut t = new_test_ext();
    t.set_block_number(0);
    t.assert_noop(|t| t.start_proposal(1, new_proposal(), 3), CallError::InsufficientBalance);
}

// Start proposal identity error WithoutIdentityDisplayAndWebsite
#[test]
fn identity_error_for_start_proposal() {
    let mut t = new_test_ext();
    t.set_block_number(0);
    t.assert_noop(
        |t| t.start_proposal(7, new_proposal(), 3),
        CallError::Voting(Error::WithoutIdentityDisplayAndWebsite),
    );
}

// Start proposal identity error WithoutGoodIdentityJudgement
#[test]
fn identity_error_for_start_proposal2() {
    let mut t = new_test_ext();
    t.set_block_number(0);
    t.assert_noop(
        |t| t.start_proposal(2, new_proposal(), 3),
        CallError::Voting(Error::WithoutGoodIdentityJudgement),
    );
}

// Start proposal to low duration - 0
#[test]
fn lowperiod_error_for_start_proposal() {
    let mut t = new_test_ext();
    t.set_block_number(0);
    t.assert_noop(
        |t| t.start_proposal(3, new_proposal(), 0),
        CallError::Voting(Error::VotingPeriodLow),
    );
}

// Start proposal successfull flow
#[test]
fn start_proposal_works() {
    let mut t = new_test_ext();
    t.set_block_number(1);
    assert_eq!(t.start_proposal(3, new_proposal(), 3), Ok(()));
    assert!(t.has_event(ChainEvent::Reserved { who: 3, amount: PROPOSAL_DEPOSIT }));
    assert!(t.has_event(ChainEvent::Voting(Event::ProposalStarted { account: 3, proposal_index: 0 })));
    assert_eq!(t.events.len(), 2);
    assert_eq!(t.storage_proposal_counter(), 1);
    assert_eq!(t.storage_deposit(0).unwrap(), (3, PROPOSAL_DEPOSIT));
    assert_eq!(t.storage_proposal(0).unwrap(), started(4, 0, 0));
}

// Start proposal successfull flow many proposals at the same time
#[test]
fn start_many_proposals_works() {
    let mut t = new_test_ext();
    t.set_block_number(1);
    assert_eq!(t.start_proposal(3, new_proposal(), 3), Ok(()));
    assert_eq!(t.start_proposal(4, new_proposal(), 4), Ok(()));
    assert_eq!(t.start_proposal(5, new_proposal(), 5), Ok(()));
    assert!(t.has_event(ChainEvent::Reserved { who: 3, amount: PROPOSAL_DEPOSIT }));
    assert!(t.has_event(ChainEvent::Reserved { who: 4, amount: PROPOSAL_DEPOSIT }));
    assert!(t.has_event(ChainEvent::Reserved { who: 5, amount: PROPOSAL_DEPOSIT }));
    assert!(t.has_event(ChainEvent::Voting(Event::ProposalStarted { account: 3, proposal_index: 0 })));
    assert!(t.has_event(ChainEvent::Voting(Event::ProposalStarted { account: 4, proposal_index: 1 })));
    assert!(t.has_event(ChainEvent::Voting(Event::ProposalStarted { account: 5, proposal_index: 2 })));
    assert_eq!(t.storage_proposal_counter(), 3);
    assert_eq!(t.storage_deposit(0).unwrap(), (3, PROPOSAL_DEPOSIT));
    assert_eq!(t.storage_proposal(0).unwrap(), started(4, 0, 0));
    assert_eq!(t.storage_proposal(1).unwrap(), started(5, 0, 0));
    assert_eq!(t.storage_proposal(2).unwrap(), started(6, 0, 0));
}

// Close proposal wrong proposal index
#[test]
fn index_error_for_close_proposal() {
    let mut t = new_test_ext();
    t.set_block_number(1);
    assert_eq!(t.start_proposal(3, new_proposal(), 3), Ok(()));
    t.run_to_block(4);
    t.assert_noop(|t| t.close_proposal(3, 1), CallError::Voting(Error::ProposalIndexInvalid));
}

// Close proposal which is still under voting - error
#[test]
fn under_voting_error_for_close_proposal() {
    let mut t = new_test_ext();
    t.set_block_number(1);
    assert_eq!(t.start_proposal(3, new_proposal(), 3), Ok(()));
    t.run_to_block(2);
    t.assert_noop(|t| t.close_proposal(3, 0), CallError::Voting(Error::ProposalUnderVoting));
}

// Close proposal user identity error
#[test]
fn identity_error_for_close_proposal() {
    let mut t = new_test_ext();
    t.set_block_number(1);
    assert_eq!(t.start_proposal(3, new_proposal(), 3), Ok(()));
    t.run_to_block(4);
    t.assert_noop(
        |t| t.close_proposal(2, 1),
        CallError::Voting(Error::WithoutGoodIdentityJudgement),
    );
}

// Close proposal successfull flow with reject
#[test]
fn close_proposal_rejected_works() {
    let mut t = new_test_ext();
    t.set_block_number(1);
    assert_eq!(t.start_proposal(3, new_proposal(), 3), Ok(()));
    assert_eq!(t.vote(3, 0, Vote::Aye(1)), Ok(()));
    assert_eq!(t.vote(4, 0, Vote::Nay(4)), Ok(()));
    t.run_to_block(5);
    assert_eq!(t.close_proposal(3, 0), Ok(()));
    assert!(t.has_event(ChainEvent::Voting(Event::ProposalClosed {
        proposal_index: 0,
        status: ProposalStatus::ProposalRejected
    })));
    assert!(t.has_event(ChainEvent::Unreserved { who: 3, amount: PROPOSAL_DEPOSIT }));
    assert_eq!(t.storage_proposal_counter(), 1);
    assert_eq!(t.storage_deposit(0), None);
    assert_eq!(t.storage_proposal(0), None);
}

// Close proposal successfull flow with approve
#[test]
fn close_proposal_approved_works() {
    let mut t = new_test_ext();
    t.set_block_number(1);
    assert_eq!(t.start_proposal(3, new_proposal(), 3), Ok(()));
    assert_eq!(t.vote(3, 0, Vote::Aye(4)), Ok(()));
    t.run_to_block(5);
    assert_eq!(t.close_proposal(3, 0), Ok(()));
    assert!(t.has_event(ChainEvent::Voting(Event::ProposalClosed {
        proposal_index: 0,
        status: ProposalStatus::ProposalApproved
    })));
    assert!(t.has_event(ChainEvent::Unreserved { who: 3, amount: PROPOSAL_DEPOSIT }));
    assert_eq!(t.storage_proposal_counter(), 1);
    assert_eq!(t.storage_deposit(0), None);
    assert_eq!(t.storage_proposal(0), None);
}

// Close proposal successfull flow with reject
#[test]
fn close_proposal_rejected_works2() {
    let mut t = new_test_ext();
    t.set_block_number(1);
    assert_eq!(t.start_proposal(3, new_proposal(), 3), Ok(()));
    assert_eq!(t.vote(3, 0, Vote::Aye(4)), Ok(()));
    assert_eq!(t.vote(4, 0, Vote::Nay(1)), Ok(()));
    assert_eq!(t.vote(1, 0, Vote::Nay(2)), Ok(()));
    assert_eq!(t.vote(5, 0, Vote::Nay(1)), Ok(()));
    t.run_to_block(5);
    assert_eq!(t.close_proposal(3, 0), Ok(()));
    assert!(t.has_event(ChainEvent::Voting(Event::ProposalClosed {
        proposal_index: 0,
        status: ProposalStatus::ProposalRejected
    })));
    assert!(t.has_event(ChainEvent::Unreserved { who: 3, amount: PROPOSAL_DEPOSIT }));
}

// Close proposal successfull flow with many proposals at the same time
#[test]
fn close_many_proposals_approved_works() {
    let mut t = new_test_ext();
    t.set_block_number(1);
    let aye = Vote::Aye(2);
    assert_eq!(t.start_proposal(3, new_proposal(), 3), Ok(()));
    assert_eq!(t.vote(3, 0, aye.clone()), Ok(()));
    t.run_to_block(2);
    assert_eq!(t.start_proposal(3, new_proposal(), 3), Ok(()));
    assert_eq!(t.vote(3, 1, aye), Ok(()));
    t.run_to_block(5);
    assert_eq!(t.close_proposal(4, 0), Ok(()));
    assert!(t.has_event(ChainEvent::Voting(Event::ProposalClosed {
        proposal_index: 0,
        status: ProposalStatus::ProposalApproved
    })));
    assert!(t.has_event(ChainEvent::Unreserved { who: 3, amount: PROPOSAL_DEPOSIT }));
    t.run_to_block(6);
    assert_eq!(t.close_proposal(4, 1), Ok(()));
    assert!(t.has_event(ChainEvent::Voting(Event::ProposalClosed {
        proposal_index: 1,
        status: ProposalStatus::ProposalApproved
    })));
    assert!(t.has_event(ChainEvent::Unreserved { who: 3, amount: PROPOSAL_DEPOSIT }));
    assert_eq!(t.storage_proposal_counter(), 2);
    assert_eq!(t.storage_deposit(0), None);
    assert_eq!(t.storage_proposal(0), None);
}

// Close bad proposal successfull flow with slash
#[test]
fn close_proposal_reject_slash_works() {
    let mut t = new_test_ext();
    t.set_block_number(1);
    assert_eq!(t.start_proposal(3, new_proposal(), 3), Ok(()));
    assert_eq!(t.vote(3, 0, Vote::Nay(4)), Ok(()));
    t.run_to_block(5);
    assert_eq!(t.close_proposal(3, 0), Ok(()));
    assert!(t.has_event(ChainEvent::Voting(Event::ProposalClosed {
        proposal_index: 0,
        status: ProposalStatus::ProposalRejected
    })));
    assert!(t.has_event(ChainEvent::Slashed { who: 3, amount: PROPOSAL_DEPOSIT }));
    assert_eq!(t.storage_proposal_counter(), 1);
    assert_eq!(t.storage_deposit(0), None);
    assert_eq!(t.storage_proposal(0), None);
}

// Vote proposal successfull flow
#[test]
fn vote_works() {
    let mut t = new_test_ext();
    t.set_block_number(1);
    assert_eq!(t.start_proposal(3, new_proposal(), 3), Ok(()));
    assert_eq!(t.vote(3, 0, Vote::Aye(4)), Ok(()));
    assert_eq!(t.storage_proposal(0).unwrap(), started(4, 4, 0));
    t.run_to_block(5);
    assert_eq!(t.close_proposal(3, 0), Ok(()));
    assert!(t.has_event(ChainEvent::Voting(Event::ProposalClosed {
        proposal_index: 0,
        status: ProposalStatus::ProposalApproved
    })));
    assert!(t.has_event(ChainEvent::Unreserved { who: 3, amount: PROPOSAL_DEPOSIT }));
    let v: Vec<(ProposalIndex, Vote)> = vec![(0, Vote::Aye(4))];
    assert_eq!(t.storage_user_votes(3), ProposalVotes { votes: new_votes_of(v) });
    assert_eq!(t.storage_proposal_counter(), 1);
    assert_eq!(t.storage_deposit(0), None);
    assert_eq!(t.storage_proposal(0), None);
}

// Vote aye proposal successfull flow
#[test]
fn vote_aye_works() {
    let mut t = new_test_ext();
    t.set_block_number(1);
    assert_eq!(t.start_proposal(3, new_proposal(), 3), Ok(()));
    let aye = Vote::Aye(4);
    assert_eq!(t.vote(4, 0, aye.clone()), Ok(()));
    assert!(t.has_event(ChainEvent::Voting(Event::Voted {
        account: 4,
        proposal_index: 0,
        vote: aye.clone()
    })));
    let v: Vec<(ProposalIndex, Vote)> = vec![(0, aye)];
    assert_eq!(t.storage_user_votes(4), ProposalVotes { votes: new_votes_of(v) });
    assert_eq!(t.storage_proposal(0).unwrap(), started(4, 4u128, 0));
}

// Vote nay proposal successfull flow
#[test]
fn vote_nay_works() {
    let mut t = new_test_ext();
    t.set_block_number(1);
    assert_eq!(t.start_proposal(3, new_proposal(), 3), Ok(()));
    let nay = Vote::Nay(4);
    assert_eq!(t.vote(4, 0, nay.clone()), Ok(()));
    assert!(t.has_event(ChainEvent::Voting(Event::Voted {
        account: 4,
        proposal_index: 0,
        vote: nay.clone()
    })));
    let v: Vec<(ProposalIndex, Vote)> = vec![(0, nay)];
    assert_eq!(t.storage_user_votes(4), ProposalVotes { votes: new_votes_of(v) });
    assert_eq!(t.storage_proposal(0).unwrap(), started(4, 0, 4u128));
}

// Vote 0 nay proposal successfull flow
#[test]
fn vote_nay_0_works() {
    let mut t = new_test_ext();
    t.set_block_number(1);
    assert_eq!(t.start_proposal(3, new_proposal(), 3), Ok(()));
    let nay = Vote::Nay(0);
    assert_eq!(t.vote(4, 0, nay.clone()), Ok(()));
    assert!(t.has_event(ChainEvent::Voting(Event::Voted {
        account: 4,
        proposal_index: 0,
        vote: nay.clone()
    })));
    let v: Vec<(ProposalIndex, Vote)> = vec![(0, nay)];
    assert_eq!(t.storage_user_votes(4), ProposalVotes { votes: new_votes_of(v) });
    assert_eq!(t.storage_proposal(0).unwrap(), started(4, 0, 0));
}

// Vote mutliple time as one user successfull flow
#[test]
fn vote_multi_times_same_user_works() {
    let mut t = new_test_ext();
    t.set_block_number(1);
    assert_eq!(t.start_proposal(3, new_proposal(), 3), Ok(()));
    let nay = Vote::Nay(4);
    let aye = Vote::Aye(4);
    assert_eq!(t.vote(4, 0, nay.clone()), Ok(()));
    assert!(t.has_event(ChainEvent::Voting(Event::Voted { account: 4, proposal_index: 0, vote: nay })));
    assert_eq!(t.vote(4, 0, aye.clone()), Ok(()));
    assert!(t.has_event(ChainEvent::Voting(Event::Voted {
        account: 4,
        proposal_index: 0,
        vote: aye.clone()
    })));
    assert_eq!(t.vote(4, 0, aye.clone()), Ok(()));
    assert!(t.has_event(ChainEvent::Voting(Event::Voted {
        account: 4,
        proposal_index: 0,
        vote: aye.clone()
    })));
    let v: Vec<(ProposalIndex, Vote)> = vec![(0, aye)];
    assert_eq!(t.storage_user_votes(4), ProposalVotes { votes: new_votes_of(v) });
    assert_eq!(t.storage_proposal(0).unwrap(), started(4, 4, 0));
}

// Vote user identity error
#[test]
fn identity_error_for_vote() {
    let mut t = new_test_ext();
    t.set_block_number(1);
    assert_eq!(t.start_proposal(3, new_proposal(), 3), Ok(()));
    let nay = Vote::Nay(4);
    t.assert_noop(|t| t.vote(2, 0, nay), CallError::Voting(Error::WithoutGoodIdentityJudgement));
}

// Vote max count proposals voted by user error
#[test]
fn max_votes_error_for_vote() {
    let mut t = new_test_ext();
    t.set_block_number(0);
    assert_eq!(t.start_proposal(3, new_proposal(), 3), Ok(()));
    let nay = Vote::Nay(1);
    for i in 0..MAX_VOTES {
        assert_eq!(t.start_proposal(5, new_proposal(), 3), Ok(()));
        assert_eq!(t.vote(5, i, nay.clone()), Ok(()));
    }
    t.assert_noop(|t| t.vote(5, 4, nay), CallError::Voting(Error::VotesMaxCount));
}

// Vote wrong proposals index error
#[test]
fn proposal_index_error_for_vote() {
    let mut t = new_test_ext();
    t.set_block_number(1);
    assert_eq!(t.start_proposal(3, new_proposal(), 3), Ok(()));
    let nay = Vote::Nay(4);
    t.assert_noop(|t| t.vote(4, 1, nay), CallError::Voting(Error::ProposalIndexInvalid));
}

// Vote max weight low balance error
#[test]
fn max_vote_low_balance_error_for_vote() {
    let mut t = new_test_ext();
    t.set_block_number(1);
    assert_eq!(t.start_proposal(3, new_proposal(), 3), Ok(()));
    let nay = Vote::Nay(u128::MAX);
    t.assert_noop(|t| t.vote(4, 0, nay), CallError::Voting(Error::BalanceToLow));
}

// Vote for ended proposal error
#[test]
fn proposal_closed_error_for_vote() {
    let mut t = new_test_ext();
    t.set_block_number(1);
    assert_eq!(t.start_proposal(3, new_proposal(), 3), Ok(()));
    let nay = Vote::Nay(4);
    t.run_to_block(6);
    t.assert_noop(|t| t.vote(4, 0, nay), CallError::Voting(Error::ProposalClosedForVoting));
}

// Vote from account with to low balance to lock
#[test]
fn balance_low_error_for_vote() {
    let mut t = new_test_ext();
    t.set_block_number(1);
    assert_eq!(t.start_proposal(3, new_proposal(), 3), Ok(()));
    let nay = Vote::Nay(100);
    t.run_to_block(6);
    t.assert_noop(|t| t.vote(4, 0, nay), CallError::Voting(Error::BalanceToLow));
}

// Unvote successfull flow
#[test]
fn unvote_works() {
    let mut t = new_test_ext();
    t.set_block_number(1);
    assert_eq!(t.start_proposal(3, new_proposal(), 3), Ok(()));
    let nay = Vote::Nay(2);
    assert_eq!(t.vote(4, 0, nay.clone()), Ok(()));
    assert!(t.has_event(ChainEvent::Voting(Event::Voted {
        account: 4,
        proposal_index: 0,
        vote: nay.clone()
    })));
    assert_eq!(t.unvote(4, 0), Ok(()));
    assert!(t.has_event(ChainEvent::Voting(Event::UnVoted { account: 4, proposal_index: 0, vote: nay })));
    let v: Vec<(ProposalIndex, Vote)> = vec![];
    assert_eq!(t.storage_user_votes(4), ProposalVotes { votes: new_votes_of(v) });
    assert_eq!(t.storage_proposal(0).unwrap(), started(4, 0, 0));
}

// Unvote identity error for user
#[test]
fn identity_error_for_unvote() {
    let mut t = new_test_ext();
    t.set_block_number(0);
    assert_eq!(t.start_proposal(3, new_proposal(), 3), Ok(()));
    t.assert_noop(|t| t.unvote(2, 0), CallError::Voting(Error::WithoutGoodIdentityJudgement));
}

// Unvote proposal using wrong proposal index
#[test]
fn proposal_index_error_for_unvote() {
    let mut t = new_test_ext();
    t.set_block_number(0);
    assert_eq!(t.start_proposal(3, new_proposal(), 3), Ok(()));
    t.assert_noop(|t| t.unvote(4, 1), CallError::Voting(Error::ProposalIndexInvalid));
}

// Unvote proposal which is ended error
#[test]
fn proposal_closed_error_for_unvote() {
    let mut t = new_test_ext();
    t.set_block_number(0);
    assert_eq!(t.start_proposal(3, new_proposal(), 3), Ok(()));
    t.run_to_block(6);
    t.assert_noop(|t| t.unvote(4, 0), CallError::Voting(Error::ProposalClosedForVoting));
}

// Unvote proposal which is closed error
#[test]
fn proposal_closed_error_for_unvote2() {
    let mut t = new_test_ext();
    t.set_block_number(0);
    assert_eq!(t.start_proposal(3, new_proposal(), 3), Ok(()));
    t.run_to_block(5);
    assert_eq!(t.close_proposal(3, 0), Ok(()));
    t.assert_noop(|t| t.unvote(4, 0), CallError::Voting(Error::ProposalIndexInvalid));
}

// Identity error to unlock balance
#[test]
fn identity_error_for_unlock_account_balance() {
    let mut t = new_test_ext();
    t.set_block_number(0);
    assert_eq!(t.start_proposal(3, new_proposal(), 3), Ok(()));
    t.assert_noop(
        |t| t.unlock_account_balance(2, 2, 0),
        CallError::Voting(Error::WithoutGoodIdentityJudgement),
    );
}

// Unlock balance successfull flow
#[test]
fn unlock_account_balance_works() {
    let mut t = new_test_ext();
    t.set_block_number(0);
    assert_eq!(t.start_proposal(3, new_proposal(), 3), Ok(()));
    assert_eq!(t.vote(4, 0, Vote::Nay(4)), Ok(()));
    t.run_to_block(5);
    assert_eq!(t.close_proposal(3, 0), Ok(()));
    assert_eq!(t.locks(4), the_lock(16));
    assert_eq!(t.unlock_account_balance(4, 4, 0), Ok(()));
    assert_eq!(t.locks(4), None);
}

// Unlock balance successfull flow
#[test]
fn unlock_account_balance_works2() {
    let mut t = new_test_ext();
    t.set_block_number(0);
    assert_eq!(t.start_proposal(3, new_proposal(), 3), Ok(()));
    assert_eq!(t.vote(4, 0, Vote::Nay(4)), Ok(()));
    assert_eq!(t.vote(4, 0, Vote::Nay(3)), Ok(()));
    assert_eq!(t.unlock_account_balance(4, 4, 0), Ok(()));
    assert_eq!(t.locks(4), the_lock(9));
    assert_eq!(t.unvote(4, 0), Ok(()));
    assert_eq!(t.unlock_account_balance(4, 4, 0), Ok(()));
    assert_eq!(t.locks(4), None);
    assert_eq!(t.vote(4, 0, Vote::Nay(5)), Ok(()));
    t.run_to_block(5);
    assert_eq!(t.close_proposal(3, 0), Ok(()));
    assert_eq!(t.locks(4), the_lock(25));
    assert_eq!(t.unlock_account_balance(4, 4, 0), Ok(()));
    assert_eq!(t.locks(4), None);
}

// Unlock balance successfull flow
#[test]
fn unlock_account_balance_works3() {
    let mut t = new_test_ext();
    t.set_block_number(0);
    assert_eq!(t.start_proposal(3, new_proposal(), 3), Ok(()));
    assert_eq!(t.start_proposal(3, new_proposal(), 8), Ok(()));
    assert_eq!(t.vote(4, 1, Vote::Nay(4)), Ok(()));
    assert_eq!(t.vote(4, 0, Vote::Nay(3)), Ok(()));
    assert_eq!(t.locks(4), the_lock(16));
    assert_eq!(t.unvote(4, 1), Ok(()));
    assert_eq!(t.unlock_account_balance(4, 4, 1), Ok(()));
    assert_eq!(t.locks(4), the_lock(9));
    assert_eq!(t.vote(4, 1, Vote::Nay(6)), Ok(()));
    t.run_to_block(4);
    assert_eq!(t.close_proposal(3, 0), Ok(()));
    assert_eq!(t.locks(4), the_lock(36));
    assert_eq!(t.unlock_account_balance(4, 4, 0), Ok(()));
    assert_eq!(t.locks(4), the_lock(36));
    t.run_to_block(4);
    assert_eq!(t.unlock_account_balance(4, 4, 1), Ok(()));
    assert_eq!(t.locks(4), the_lock(36));
}

// Unlock balance for another account successfull flow
#[test]
fn another_account_unlock_account_balance_works() {
    let mut t = new_test_ext();
    t.set_block_number(0);
    assert_eq!(t.start_proposal(3, new_proposal(), 3), Ok(()));
    assert_eq!(t.vote(4, 0, Vote::Nay(4)), Ok(()));
    t.run_to_block(5);
    assert_eq!(t.close_proposal(3, 0), Ok(()));
    assert_eq!(t.locks(4), the_lock(16));
    assert_eq!(t.unlock_account_balance(3, 4, 0), Ok(()));
    assert_eq!(t.locks(4), None);
}
