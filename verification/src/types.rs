//! Plain data of the voting pallet: proposals, votes, statuses, errors and events,
//! together with the arithmetic that a proposal's tally is kept with.
use vstd::prelude::*;

verus! {

/// Handle of a proposal: proposals are numbered 0, 1, 2, ... in the order they start.
pub type ProposalIndex = u32;

/// Account identifier.
pub type AccountId = u64;

/// Block number.
pub type BlockNumber = u64;

/// Currency amount.
pub type Balance = u128;

/// Hash of the subject being voted on; the pallet never looks inside it.
pub type ProposalHash = [u8; 32];

// ---------------------------------------------------------------------------
// Saturating arithmetic, as a mathematical statement.
// ---------------------------------------------------------------------------

/// `a + b`, clamped to `u128::MAX`.
pub open spec fn sat_add(a: u128, b: u128) -> u128 {
    if a + b > u128::MAX {
        u128::MAX
    } else {
        (a + b) as u128
    }
}

/// `a - b`, clamped to 0.
pub open spec fn sat_sub(a: u128, b: u128) -> u128 {
    if a < b {
        0
    } else {
        (a - b) as u128
    }
}

/// `a * b`, clamped to `u128::MAX`.
pub open spec fn sat_mul(a: u128, b: u128) -> u128 {
    if a * b > u128::MAX {
        u128::MAX
    } else {
        (a * b) as u128
    }
}

/// `a + b` on block numbers, clamped to `u64::MAX`.
pub open spec fn sat_add_block(a: u64, b: u64) -> u64 {
    if a + b > u64::MAX {
        u64::MAX
    } else {
        (a + b) as u64
    }
}

/// Saturating multiplication of two balances.
pub fn saturating_mul(a: u128, b: u128) -> (r: u128)
    ensures
        r == sat_mul(a, b),
{
    match a.checked_mul(b) {
        Some(product) => product,
        None => u128::MAX,
    }
}

// ---------------------------------------------------------------------------
// Proposal status
// ---------------------------------------------------------------------------

/// Status of a proposal from its start to its close.
#[derive(Clone, Copy, Debug, PartialEq, Eq, Structural)]
pub enum ProposalStatus {
    /// Proposal is started and ongoing.
    ProposalStarted,
    /// Proposal is closed with approved status.
    ProposalApproved,
    /// Proposal is closed with rejected status.
    ProposalRejected,
}

impl Default for ProposalStatus {
    /// A proposal starts in the `ProposalStarted` status.
    fn default() -> (status: Self)
        ensures
            status == ProposalStatus::ProposalStarted,
    {
        ProposalStatus::ProposalStarted
    }
}

// ---------------------------------------------------------------------------
// Votes
// ---------------------------------------------------------------------------

/// A user's vote on a proposal, with its weight.
#[derive(Clone, Copy, Debug, PartialEq, Eq, Structural)]
pub enum Vote {
    /// Vote for the proposal.
    Aye(u128),
    /// Vote against the proposal.
    Nay(u128),
}

/// The weight a vote carries, whichever side it is on.
pub open spec fn weight_of(vote: Vote) -> u128 {
    match vote {
        Vote::Aye(w) => w,
        Vote::Nay(w) => w,
    }
}

/// The balance that a vote locks: the square of its weight, when that square fits.
pub open spec fn balance_lock_of(vote: Vote) -> Option<u128> {
    let w = weight_of(vote);
    if w * w > u128::MAX {
        None
    } else {
        Some((w * w) as u128)
    }
}

/// The balance that a vote contributes to an account lock: its balance lock, or 0 where
/// the square of its weight does not fit.
pub open spec fn lock_amount_of(vote: Vote) -> u128 {
    match balance_lock_of(vote) {
        Some(lock) => lock,
        None => 0,
    }
}

impl Vote {
    /// Weight of the vote.
    pub fn get_weight(&self) -> (w: u128)
        ensures
            w == weight_of(*self),
    {
        match *self {
            Vote::Aye(b) => b,
            Vote::Nay(b) => b,
        }
    }

    /// Balance that the vote locks: the square of its weight, `None` where it overflows.
    pub fn get_balance_lock(&self) -> (lock: Option<u128>)
        ensures
            lock == balance_lock_of(*self),
    {
        let v = self.get_weight();
        v.checked_mul(v)
    }
}

// ---------------------------------------------------------------------------
// Proposals
// ---------------------------------------------------------------------------

/// A proposal being voted on.
#[derive(Clone, Copy, Debug, PartialEq, Eq)]
pub struct Proposal {
    /// Block after which voting on this proposal ends.
    pub end: u64,
    /// Hash of the proposal being voted on.
    pub proposal: [u8; 32],
    /// Sum of the weights of the aye votes.
    pub aye: u128,
    /// Sum of the weights of the nay votes.
    pub nay: u128,
    /// Status of voting.
    pub status: ProposalStatus,
}

/// A freshly started proposal: no votes yet.
pub open spec fn new_proposal(hash: [u8; 32], end: u64) -> Proposal {
    Proposal { end, proposal: hash, aye: 0, nay: 0, status: ProposalStatus::ProposalStarted }
}

/// The proposal with `vote` counted in its tally (saturating).
pub open spec fn with_vote(p: Proposal, vote: Vote) -> Proposal {
    match vote {
        Vote::Aye(w) => Proposal { aye: sat_add(p.aye, w), ..p },
        Vote::Nay(w) => Proposal { nay: sat_add(p.nay, w), ..p },
    }
}

/// The proposal with `vote` taken out of its tally (saturating).
pub open spec fn without_vote(p: Proposal, vote: Vote) -> Proposal {
    match vote {
        Vote::Aye(w) => Proposal { aye: sat_sub(p.aye, w), ..p },
        Vote::Nay(w) => Proposal { nay: sat_sub(p.nay, w), ..p },
    }
}

/// The result of a vote: approved exactly when the aye weight exceeds the nay weight.
pub open spec fn outcome_of(p: Proposal) -> ProposalStatus {
    if p.aye > p.nay {
        ProposalStatus::ProposalApproved
    } else {
        ProposalStatus::ProposalRejected
    }
}

/// A proposal is spam when the nay weight reaches `threshold` percent of the total
/// weight (with saturating arithmetic throughout).
pub open spec fn is_spam(p: Proposal, threshold: u32) -> bool {
    sat_mul(sat_add(p.aye, p.nay), threshold as u128) <= sat_mul(p.nay, 100)
}

impl Proposal {
    /// Records the result of the vote in the status and returns it.
    pub fn finalize(&mut self) -> (status: ProposalStatus)
        ensures
            status == outcome_of(*old(self)),
            status == (if old(self).aye > old(self).nay {
                ProposalStatus::ProposalApproved
            } else {
                ProposalStatus::ProposalRejected
            }),
            *final(self) == (Proposal { status, ..*old(self) }),
    {
        self.status = if self.aye > self.nay {
            ProposalStatus::ProposalApproved
        } else {
            ProposalStatus::ProposalRejected
        };
        self.status
    }

    /// Creates a new proposal on `hash` whose voting ends after block `end`.
    pub fn new(hash: [u8; 32], end: u64) -> (p: Proposal)
        ensures
            p == new_proposal(hash, end),
            p.proposal == hash,
            p.end == end,
            p.aye == 0,
            p.nay == 0,
            p.status == ProposalStatus::ProposalStarted,
    {
        Proposal {
            end,
            proposal: hash,
            aye: 0,
            nay: 0,
            status: ProposalStatus::default(),
        }
    }

    /// Counts `vote` in the tally.
    pub fn add_vote(&mut self, vote: &Vote)
        ensures
            *final(self) == with_vote(*old(self), *vote),
    {
        match *vote {
            Vote::Aye(v) => {
                self.aye = self.aye.saturating_add(v);
            },
            Vote::Nay(v) => {
                self.nay = self.nay.saturating_add(v);
            },
        }
    }

    /// Takes `vote` out of the tally.
    pub fn remove_vote(&mut self, vote: &Vote)
        ensures
            *final(self) == without_vote(*old(self), *vote),
    {
        match *vote {
            Vote::Aye(v) => {
                self.aye = self.aye.saturating_sub(v);
            },
            Vote::Nay(v) => {
                self.nay = self.nay.saturating_sub(v);
            },
        }
    }

    /// Whether the proposal is spam under the slash threshold `threshold` (a percentage).
    pub fn check_spam(&self, threshold: u32) -> (spam: bool)
        ensures
            spam == is_spam(*self, threshold),
    {
        let total = self.aye.saturating_add(self.nay);
        saturating_mul(total, threshold as u128) <= saturating_mul(self.nay, 100)
    }
}

// ---------------------------------------------------------------------------
// Errors, events and currency actions
// ---------------------------------------------------------------------------

/// Why a call of the pallet was refused.
#[derive(Clone, Copy, Debug, PartialEq, Eq, Structural)]
pub enum Error {
    /// The account's identity does not have display field and website field.
    WithoutIdentityDisplayAndWebsite,
    /// The account's identity has no good judgement.
    WithoutGoodIdentityJudgement,
    /// The voting period is too low.
    VotingPeriodLow,
    /// The number of proposals reached its limit.
    ProposalsMaxCount,
    /// Invalid proposal index.
    ProposalIndexInvalid,
    /// The proposal is still under voting.
    ProposalUnderVoting,
    /// The proposal is closed for voting.
    ProposalClosedForVoting,
    /// The account's free balance is too low for the vote.
    BalanceToLow,
    /// The account has used all its votes.
    VotesMaxCount,
}

/// What the pallet reports of a successful call.
#[derive(Clone, Copy, Debug, PartialEq, Eq)]
pub enum Event {
    /// A proposal was started by `account` under `proposal_index`.
    ProposalStarted { account: u64, proposal_index: u32 },
    /// A proposal was closed with the given result.
    ProposalClosed { proposal_index: u32, status: ProposalStatus },
    /// `account` voted `vote` on the proposal.
    Voted { account: u64, proposal_index: u32, vote: Vote },
    /// `account`'s vote `vote` on the proposal was removed.
    UnVoted { account: u64, proposal_index: u32, vote: Vote },
}

/// A change to an account's balance that a call of the pallet asks the currency to make.
#[derive(Clone, Copy, Debug, PartialEq, Eq)]
pub enum CurrencyAction {
    /// Give `amount` of `who`'s reserved balance back.
    Unreserve { who: u64, amount: u128 },
    /// Slash `amount` of `who`'s reserved balance.
    SlashReserved { who: u64, amount: u128 },
    /// Make the voting lock on `who` at least `amount`.
    ExtendLock { who: u64, amount: u128 },
    /// Set the voting lock on `who` to `amount`.
    SetLock { who: u64, amount: u128 },
    /// Remove the voting lock from `who`.
    RemoveLock { who: u64 },
}

/// What a successful call reports: the events to deposit and the balance changes to make.
pub struct Effects {
    /// Events, in the order they are deposited.
    pub events: Vec<Event>,
    /// Balance changes for the currency, in order.
    pub actions: Vec<CurrencyAction>,
}

/// A proposal that passed the checks of `start_proposal`, to be recorded once the
/// deposit is reserved on the account that starts it.
#[derive(Clone, Copy, Debug, PartialEq, Eq)]
pub struct NewProposal {
    /// The account that starts the proposal and pays the deposit.
    pub who: u64,
    /// The index the proposal gets.
    pub proposal_index: u32,
    /// The proposal as it is recorded.
    pub proposal: Proposal,
    /// The balance to reserve on `who`.
    pub deposit: u128,
}

/// Parameters of the pallet.
#[derive(Clone, Copy, Debug, PartialEq, Eq, Structural)]
pub struct Config {
    /// Maximal number of proposals that can be started.
    pub max_proposals: u32,
    /// Maximal number of votes that a user can hold at once.
    pub max_votes: u32,
    /// Balance reserved on the account that starts a proposal.
    pub proposal_deposit: u128,
    /// Percentage of nay weight from which a proposal counts as spam.
    pub slash_threshold: u32,
}

} // verus!
