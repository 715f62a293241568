use vstd::prelude::*;

verus! {

/// A collection that tokens belong to. Created once; its owner is fixed at
/// creation and classes are never deleted.
#[derive(Debug, PartialEq, Eq)]
pub struct Class {
    pub owner: u64,
    pub description: Vec<u8>,
    pub name: Vec<u8>,
    pub url: Vec<u8>,
    pub external_url: Vec<u8>,
}

/// An individually owned, non-fungible token. Metadata is immutable after
/// minting; only the owner field changes, and only through the defined
/// transfer paths (direct transfer, offer settlement, auction settlement).
#[derive(Debug, PartialEq, Eq)]
pub struct Nft {
    pub owner: u64,
    pub description: Vec<u8>,
    pub name: Vec<u8>,
    pub url: Vec<u8>,
    pub external_url: Vec<u8>,
    pub class_id: u64,
}

/// A standing fixed-price sale listing for one token.
#[derive(Clone, Copy, Debug, PartialEq, Eq)]
pub struct Offer {
    pub nft_id: u64,
    pub class_id: u64,
    pub amount: u128,
    pub owner: u64,
}

/// A time-boxed competitive sale. `owner` is the seller. `spender` is the
/// current highest bidder; it equals `owner` while no bid has been accepted.
/// `amount` is the reserve price fixed at creation; `min_amount` is the
/// current highest accepted bid (0 while there is none).
#[derive(Clone, Copy, Debug, PartialEq, Eq)]
pub struct Auction {
    pub owner: u64,
    pub nft_id: u64,
    pub spender: u64,
    pub class_id: u64,
    pub min_amount: u128,
    pub amount: u128,
    pub start_time: u64,
    pub end_time: u64,
}

/// Copies a metadata buffer byte for byte.
pub fn dup_bytes(v: &Vec<u8>) -> (r: Vec<u8>)
    ensures
        r@ == v@,
{
    let mut r: Vec<u8> = Vec::new();
    let mut i: usize = 0;
    while i < v.len()
        invariant
            i <= v.len(),
            r@ == v@.subrange(0, i as int),
        decreases v.len() - i,
    {
        r.push(v[i]);
        proof {
            assert(r@ =~= v@.subrange(0, i + 1 as int));
        }
        i = i + 1;
    }
    proof {
        assert(r@ =~= v@);
    }
    r
}

} // verus!
