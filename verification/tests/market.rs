use nft_marketplace::ledger::Ledger;
use nft_marketplace::types::{Auction, Class, Nft, Offer};

fn meta() -> Vec<u8> {
    b"first".to_vec()
}

#[test]
fn tests_it_works_for_default_value() {
    let _ledger = Ledger::new(0);
}

#[test]
fn tests_correct_error_for_none_value() {
    let mut l = Ledger::new(0);
    l.endow(1, 1_000);
    l.endow(2, 1_000);
    assert_eq!(l.create_class(1, meta(), meta(), meta(), meta()), 0);
    assert_eq!(
        l.classes(0),
        Some(&Class {
            owner: 1,
            description: vec![102, 105, 114, 115, 116],
            name: vec![102, 105, 114, 115, 116],
            url: vec![102, 105, 114, 115, 116],
            external_url: vec![102, 105, 114, 115, 116],
        })
    );
    assert_eq!(l.mint(1, 0, meta(), meta(), meta(), meta()), Ok(0));
    assert_eq!(
        l.nfts(0, 0),
        Some(&Nft {
            owner: 1,
            class_id: 0,
            description: vec![102, 105, 114, 115, 116],
            name: vec![102, 105, 114, 115, 116],
            url: vec![102, 105, 114, 115, 116],
            external_url: vec![102, 105, 114, 115, 116],
        })
    );
    assert_eq!(l.next_nft_id(), 1);
    assert_eq!(l.next_class_id(), 1);

    assert_eq!(l.create_offer(1, 0, 0, 100), Ok(()));
    assert_eq!(
        l.offers(0, 0),
        Some(&Offer { owner: 1, class_id: 0, nft_id: 0, amount: 100 })
    );

    assert_eq!(l.buy_offer(2, 0, 0, 100), Ok(()));
    assert_eq!(l.offers(0, 0), None);
    assert_eq!(
        l.nfts(0, 0),
        Some(&Nft {
            owner: 2,
            class_id: 0,
            description: vec![102, 105, 114, 115, 116],
            name: vec![102, 105, 114, 115, 116],
            url: vec![102, 105, 114, 115, 116],
            external_url: vec![102, 105, 114, 115, 116],
        })
    );
    assert_eq!(
        l.classes(0),
        Some(&Class {
            owner: 1,
            description: vec![102, 105, 114, 115, 116],
            name: vec![102, 105, 114, 115, 116],
            url: vec![102, 105, 114, 115, 116],
            external_url: vec![102, 105, 114, 115, 116],
        })
    );

    let now: u64 = 1_000;
    assert_eq!(l.create_auction(2, 0, 0, 100, now, now + 100, now), Ok(()));
    assert_eq!(
        l.auctions(0, 0),
        Some(&Auction {
            owner: 2,
            nft_id: 0,
            spender: 2,
            class_id: 0,
            min_amount: 0,
            amount: 100,
            start_time: now,
            end_time: now + 100,
        })
    );

    assert_eq!(l.bid(1, 0, 0, 101, now), Ok(()));
    let c = l.auctions(0, 0).unwrap();
    assert_eq!(c.spender, 1);

    assert_eq!(l.mint(1, 0, meta(), meta(), meta(), meta()), Ok(1));
    assert_eq!(
        l.nfts(0, 1),
        Some(&Nft {
            owner: 1,
            class_id: 0,
            description: vec![102, 105, 114, 115, 116],
            name: vec![102, 105, 114, 115, 116],
            url: vec![102, 105, 114, 115, 116],
            external_url: vec![102, 105, 114, 115, 116],
        })
    );
    assert_eq!(l.next_nft_id(), 2);

    assert_eq!(l.create_offer(1, 0, 1, 100), Ok(()));
    assert_eq!(l.cancel_offer(1, 1, 0), Ok(()));
    assert_eq!(l.offers(0, 1), None);
}
