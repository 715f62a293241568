use vstd::prelude::*;

verus! {

/// Every way an operation can be rejected. A rejection is final: the ledger
/// state is unchanged whenever one of these is returned.
#[derive(Clone, Copy, Debug, PartialEq, Eq)]
pub enum Error {
    /// The named class id is not registered.
    ClassNotFound,
    /// The named token id is not present (never minted, or burned).
    NftNotFound,
    /// No offer is listed under the given class and token ids.
    OfferNotFound,
    /// No auction is open under the given class and token ids.
    AuctionNotFound,
    /// The caller does not own the record it tries to act on.
    NotOwner,
    /// Only the auction's seller may finish it.
    OnlyOwner,
    /// A price, reserve or bid is below what the operation demands.
    AmountTooLow,
    /// The payer's balance cannot cover the transfer while keeping its
    /// minimum-existence balance.
    InsufficientFunds,
    /// A bid arrived before the auction's start time.
    TimeNotStarted,
    /// A bid arrived at or after the auction's end time.
    TimeOut,
    /// An auction's start time lies before the current time.
    UnderTime,
    /// An auction's end time does not lie after its start time.
    EndTimeUnderStartTime,
    /// The auction's end time has not been reached yet.
    WaitWhenAuctionFinish,
    /// The offer is stale: the token's ownership changed under it.
    NftBuyed,
    /// A fixed-price offer is listed for the token the bid is aimed at.
    OfferIsRun,
    /// The auction cannot settle because no bid was ever accepted.
    NoBodyParticipatedWithThisAuction,
    /// The auction cannot be cancelled once a bid has been accepted.
    CantCloseAuction,
}

} // verus!
