use vstd::prelude::*;

verus! {

/// Append-only, side-effect-only notifications of state changes. Every
/// successful operation appends exactly one of these; a rejected operation
/// appends none. Notifications never influence control flow.
#[derive(Debug, PartialEq, Eq)]
pub enum Event {
    ClassCreated {
        owner: u64,
        name: Vec<u8>,
        url: Vec<u8>,
        external_url: Vec<u8>,
        class_id: u64,
        description: Vec<u8>,
    },
    Minted {
        class_id: u64,
        owner: u64,
        name: Vec<u8>,
        url: Vec<u8>,
        external_url: Vec<u8>,
        description: Vec<u8>,
    },
    Burned {
        nft_id: u64,
        class_id: u64,
    },
    TransferNft {
        from: u64,
        to: u64,
        nft_id: u64,
        class_id: u64,
    },
    OfferCreated {
        class_id: u64,
        nft_id: u64,
        owner: u64,
        amount: u128,
    },
    OfferBuyed {
        buyer: u64,
        sender: u64,
        amount: u128,
        nft_id: u64,
    },
    AuctionCreated {
        class_id: u64,
        nft_id: u64,
        owner: u64,
        min_amount: u128,
        amount: u128,
        start_time: u64,
        end_time: u64,
    },
    NewUserAuctioner {
        nft_id: u64,
        class_id: u64,
        auctioner: u64,
        amount: u128,
    },
    AuctionFinished {
        nft_id: u64,
        class_id: u64,
        spender: u64,
        amount: u128,
    },
    AuctionCanceled {
        class_id: u64,
        nft_id: u64,
    },
    OfferCanceled {
        class_id: u64,
        nft_id: u64,
    },
}

} // verus!
