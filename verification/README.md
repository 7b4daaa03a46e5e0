# pallet_voting

Quadratic voting on proposals, as a verified library.

Users with a registered identity (display name and website, judged good) start
proposals, which reserves a deposit on their account. While a proposal is ongoing,
users vote aye or nay with a weight; the square of the weight is locked on their
account. A later vote on the same proposal replaces the earlier one; a vote can be
withdrawn. After the voting period a proposal is closed: it is approved when the aye
weight exceeds the nay weight, and its deposit is given back, or slashed when the nay
weight reaches the configured percentage of all weight. Users then unlock their balance.

Layout:

- `src/types.rs`: proposals, votes, statuses, errors, events, balance changes, and the
  saturating arithmetic of the tallies.
- `src/votes.rs`: a user's votes, kept ordered by proposal index; search and lock.
- `src/identity.rs`: the identity provider interface and the identity verdict.
- `src/model.rs`: the storage as mathematical values and what each call does to it.
- `src/pallet.rs`: the pallet's storage and calls, each proved to do what `model.rs` says.
- `src/tally.rs`: the tally of every open proposal is the sum of the recorded votes.
- `src/laws.rs`: what holds across calls (the storage invariant, replacement of votes,
  unvoting, majority, spam threshold, locks).
- `app/lib.rs`: the calls on a FRAME chain: origin, block number, storage, currency,
  events.
