use market_mirror::backfill::{
    build_collections, build_items, build_offers, flatten_offers, mirror_from_parts,
    unique_offerers, BackfillError, ItemSlot, OfferSlot,
};
use market_mirror::models::{Addr, Offer};

fn addr(tag: u8) -> Addr {
    Addr::new([tag; 20])
}

fn item_slot(item_id: u64, owner: Addr, price: u64) -> ItemSlot {
    ItemSlot { item_id, nft_contract: addr(0xcc), token_id: item_id, owner, price }
}

#[test]
fn full_backfill_of_three_collections_and_five_items_without_offers() {
    let fetched_collections = vec![Some(addr(1)), Some(addr(2)), Some(addr(3))];
    let collections = build_collections(&fetched_collections).unwrap();
    assert_eq!(collections.len(), 3);
    assert_eq!(collections[0].id.as_str(), "1");
    assert_eq!(collections[1].id.as_str(), "2");
    assert_eq!(collections[2].id.as_str(), "3");
    assert_eq!(collections[1].nft_collection.bytes, [2; 20]);

    let fetched_items: Vec<Option<ItemSlot>> = (1..=5u64)
        .map(|i| Some(item_slot(i, addr(0xaa), 0)))
        .collect();
    let items = build_items(&fetched_items).unwrap();
    assert_eq!(items.len(), 5);
    assert_eq!(items[4].item_id, 5);
    assert_eq!(items[4].price, 0);
    assert!(items[4].name.is_none());

    let per_item: Vec<Vec<Offer>> = vec![vec![]; 5];
    let offers = flatten_offers(&per_item);
    assert_eq!(offers.len(), 0);

    let m = mirror_from_parts(collections, items, offers).unwrap();
    assert_eq!(m.collections.len(), 3);
    assert_eq!(m.items.len(), 5);
    assert_eq!(m.offers.len(), 0);
}

#[test]
fn one_failed_item_fetch_aborts_the_whole_batch() {
    let mut fetched: Vec<Option<ItemSlot>> = (1..=5u64)
        .map(|i| Some(item_slot(i, addr(0xaa), 0)))
        .collect();
    fetched[2] = None;
    let r = build_items(&fetched);
    assert_eq!(r.err(), Some(BackfillError::FailedSlot));
}

#[test]
fn one_failed_collection_fetch_aborts_the_whole_batch() {
    let fetched = vec![Some(addr(1)), None, Some(addr(3))];
    let r = build_collections(&fetched);
    assert_eq!(r.err(), Some(BackfillError::FailedSlot));
}

#[test]
fn one_failed_offer_fetch_aborts_the_item_batch() {
    let slot = OfferSlot {
        item_id: 1,
        nft_contract: addr(0xcc),
        token_id: 1,
        offerer: addr(0xbb),
        seller: addr(0xaa),
        price: 10,
        is_accepted: false,
    };
    let r = build_offers(&vec![Some(slot), None]);
    assert_eq!(r.err(), Some(BackfillError::FailedSlot));
}

#[test]
fn fetched_offer_records_become_offer_documents() {
    let slot = OfferSlot {
        item_id: 3,
        nft_contract: addr(0xcc),
        token_id: 3,
        offerer: addr(0xbb),
        seller: addr(0xaa),
        price: 17,
        is_accepted: true,
    };
    let offers = build_offers(&vec![Some(slot)]).unwrap();
    assert_eq!(offers.len(), 1);
    assert_eq!(offers[0].item_id, 3);
    assert_eq!(offers[0].offerer.bytes, [0xbb; 20]);
    assert_eq!(offers[0].seller.bytes, [0xaa; 20]);
    assert_eq!(offers[0].price, 17);
    assert!(offers[0].is_accepted);
}

#[test]
fn repeated_offerers_are_read_once() {
    let reported = vec![addr(1), addr(2), addr(1), addr(3), addr(2), addr(1)];
    let unique = unique_offerers(&reported);
    assert_eq!(unique.len(), 3);
    assert_eq!(unique[0].bytes, [1; 20]);
    assert_eq!(unique[1].bytes, [2; 20]);
    assert_eq!(unique[2].bytes, [3; 20]);
}

#[test]
fn flattening_keeps_the_per_item_order_and_skips_empty_lists() {
    let offer = |id: u64, tag: u8| Offer {
        item_id: id,
        offerer: addr(tag),
        seller: addr(0xaa),
        price: 5,
        is_accepted: false,
    };
    let per_item = vec![vec![offer(1, 1)], vec![], vec![offer(3, 2), offer(3, 3)]];
    let flat = flatten_offers(&per_item);
    assert_eq!(flat.len(), 3);
    assert_eq!(flat[0].item_id, 1);
    assert_eq!(flat[1].item_id, 3);
    assert_eq!(flat[1].offerer.bytes, [2; 20]);
    assert_eq!(flat[2].offerer.bytes, [3; 20]);
}

#[test]
fn seeding_refuses_documents_that_repeat_an_item_identifier() {
    let items = vec![
        market_mirror::models::Item {
            item_id: 1,
            nft_contract: addr(0xcc),
            token_id: 1,
            owner: addr(0xaa),
            price: 0,
            name: None,
            description: None,
            image: None,
        },
        market_mirror::models::Item {
            item_id: 1,
            nft_contract: addr(0xcc),
            token_id: 2,
            owner: addr(0xab),
            price: 3,
            name: None,
            description: None,
            image: None,
        },
    ];
    assert!(mirror_from_parts(vec![], items, vec![]).is_none());
}

#[test]
fn seeding_refuses_documents_that_repeat_an_offer_key() {
    let o = Offer {
        item_id: 1,
        offerer: addr(0xbb),
        seller: addr(0xaa),
        price: 10,
        is_accepted: false,
    };
    let mut o2 = o;
    o2.price = 20;
    assert!(mirror_from_parts(vec![], vec![], vec![o, o2]).is_none());
}
