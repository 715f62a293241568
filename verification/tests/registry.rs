use nft_marketplace::ledger::Ledger;
use nft_marketplace::types::{Class, Nft};

fn meta() -> Vec<u8> {
    b"first".to_vec()
}

#[test]
fn it_works_for_default_value() {
    let _ledger = Ledger::new(0);
}

#[test]
fn correct_error_for_none_value() {
    let mut l = Ledger::new(0);
    assert_eq!(l.create_class(1, meta(), meta(), meta(), meta()), 0);
    assert_eq!(
        l.classes(0),
        Some(&Class {
            owner: 1,
            description: vec![102, 105, 114, 115, 116],
            name: vec![102, 105, 114, 115, 116],
            url: vec![102, 105, 114, 115, 116],
            external_url: vec![102, 105, 114, 115, 116],
        })
    );
    assert_eq!(l.mint(1, 0, meta(), meta(), meta(), meta()), Ok(0));
    assert_eq!(
        l.nfts(0, 0),
        Some(&Nft {
            owner: 1,
            class_id: 0,
            description: vec![102, 105, 114, 115, 116],
            name: vec![102, 105, 114, 115, 116],
            url: vec![102, 105, 114, 115, 116],
            external_url: vec![102, 105, 114, 115, 116],
        })
    );
    assert_eq!(l.next_nft_id(), 1);
    assert_eq!(l.next_class_id(), 1);
    assert_eq!(l.transfer(1, 2, 0, 0), Ok(()));
    assert_eq!(l.burn(2, 0, 0), Ok(()));
    assert_eq!(l.nfts(0, 0), None);
}
