//! Quadratic voting on proposals: the decisions of the voting pallet, verified.
//!
//! Users with an identity start proposals (reserving a deposit), vote on them with a
//! weight whose square is locked on their account, unvote, close proposals after their
//! voting period (the deposit of a spam proposal is slashed) and unlock their balance.
use vstd::prelude::*;

pub mod types;
pub mod votes;
pub mod identity;
pub mod model;
pub mod pallet;
pub mod laws;
pub mod tally;

pub use identity::IdentityVerifier;
pub use pallet::{GenesisConfig, Pallet};
pub use types::{
    Config, CurrencyAction, Effects, Error, Event, NewProposal, Proposal, ProposalIndex,
    ProposalStatus, Vote,
};
pub use votes::ProposalVotes;

verus! {

} // verus!
