use market_mirror::mirror::Mirror;
use market_mirror::models::Addr;
use market_mirror::reconcile::{apply_event, audit_line, needs_seller, MarketEvent, StoreOp};

fn addr(tag: u8) -> Addr {
    Addr::new([tag; 20])
}

fn mirror_with_item(item_id: u64, owner: Addr) -> Mirror {
    let mut m = Mirror::new();
    let ops = apply_event(
        &mut m,
        &MarketEvent::ItemAdded {
            id: item_id,
            nft_contract: addr(0xcc),
            token_id: 9,
            owner,
        },
        None,
    );
    assert_eq!(ops.len(), 1);
    m
}

#[test]
fn listing_with_no_offers_sets_price_and_leaves_no_offers() {
    let mut m = mirror_with_item(1, addr(0xaa));
    assert_eq!(m.items[0].price, 0);
    let ops = apply_event(&mut m, &MarketEvent::ItemListed { id: 1, price: 42 }, None);
    assert_eq!(m.items.len(), 1);
    assert_eq!(m.items[0].price, 42);
    assert_eq!(m.offers.len(), 0);
    assert_eq!(ops.len(), 2);
    match &ops[0] {
        StoreOp::SetItemPrice { item_id, price } => {
            assert_eq!(*item_id, 1);
            assert_eq!(*price, 42);
        }
        _ => panic!("expected a price update"),
    }
    match &ops[1] {
        StoreOp::DeleteItemOffers { item_id } => assert_eq!(*item_id, 1),
        _ => panic!("expected an offer deletion"),
    }
}

#[test]
fn placing_twice_keeps_one_offer_at_the_second_price() {
    let mut m = mirror_with_item(1, addr(0xaa));
    let seller = Some(addr(0xaa));
    let ops = apply_event(
        &mut m,
        &MarketEvent::OfferPlaced { id: 1, buyer: addr(0xbb), price: 10 },
        seller,
    );
    assert_eq!(ops.len(), 1);
    assert!(matches!(ops[0], StoreOp::InsertOffer { .. }));
    let ops = apply_event(
        &mut m,
        &MarketEvent::OfferPlaced { id: 1, buyer: addr(0xbb), price: 20 },
        seller,
    );
    assert_eq!(ops.len(), 1);
    assert!(matches!(ops[0], StoreOp::UpdateOfferPrice { .. }));
    assert_eq!(m.offers.len(), 1);
    assert_eq!(m.offers[0].item_id, 1);
    assert_eq!(m.offers[0].offerer.bytes, [0xbb; 20]);
    assert_eq!(m.offers[0].price, 20);
    assert!(!m.offers[0].is_accepted);
}

#[test]
fn claiming_deletes_every_offer_of_the_item() {
    let mut m = mirror_with_item(1, addr(0xaa));
    let seller = Some(addr(0xaa));
    apply_event(&mut m, &MarketEvent::OfferPlaced { id: 1, buyer: addr(0xbb), price: 10 }, seller);
    apply_event(&mut m, &MarketEvent::OfferPlaced { id: 1, buyer: addr(0xcd), price: 11 }, seller);
    assert_eq!(m.offers.len(), 2);
    apply_event(&mut m, &MarketEvent::ItemClaimed { id: 1, claimer: addr(0xbb) }, None);
    assert_eq!(m.offers.len(), 0);
    assert_eq!(m.items[0].owner.bytes, [0xbb; 20]);
}

#[test]
fn listing_deletes_every_offer_of_the_item() {
    let mut m = mirror_with_item(1, addr(0xaa));
    let seller = Some(addr(0xaa));
    apply_event(&mut m, &MarketEvent::OfferPlaced { id: 1, buyer: addr(0xbb), price: 10 }, seller);
    assert_eq!(m.offers.len(), 1);
    apply_event(&mut m, &MarketEvent::ItemListed { id: 1, price: 5 }, None);
    assert_eq!(m.offers.len(), 0);
    assert_eq!(m.items[0].price, 5);
}

#[test]
fn accepting_an_unrecorded_offer_changes_nothing() {
    let mut m = mirror_with_item(1, addr(0xaa));
    let seller = Some(addr(0xaa));
    apply_event(&mut m, &MarketEvent::OfferPlaced { id: 1, buyer: addr(0xbb), price: 10 }, seller);
    let ops = apply_event(
        &mut m,
        &MarketEvent::OfferAccepted { id: 1, offerer: addr(0x77) },
        None,
    );
    assert_eq!(ops.len(), 0);
    assert_eq!(m.offers.len(), 1);
    assert_eq!(m.offers[0].price, 10);
    assert!(!m.offers[0].is_accepted);
}

#[test]
fn accepting_a_recorded_offer_marks_it_accepted() {
    let mut m = mirror_with_item(1, addr(0xaa));
    let seller = Some(addr(0xaa));
    apply_event(&mut m, &MarketEvent::OfferPlaced { id: 1, buyer: addr(0xbb), price: 10 }, seller);
    let ops = apply_event(
        &mut m,
        &MarketEvent::OfferAccepted { id: 1, offerer: addr(0xbb) },
        None,
    );
    assert_eq!(ops.len(), 1);
    match &ops[0] {
        StoreOp::AcceptOffer { item_id, offerer } => {
            assert_eq!(*item_id, 1);
            assert_eq!(offerer.bytes, [0xbb; 20]);
        }
        _ => panic!("expected an accept"),
    }
    assert!(m.offers[0].is_accepted);
}

#[test]
fn selling_hands_the_item_over_and_unlists_it() {
    let mut m = mirror_with_item(4, addr(0xaa));
    apply_event(&mut m, &MarketEvent::ItemListed { id: 4, price: 99 }, None);
    assert_eq!(m.items[0].price, 99);
    let ops = apply_event(&mut m, &MarketEvent::ItemSold { id: 4, buyer: addr(0x11) }, None);
    assert_eq!(ops.len(), 1);
    assert_eq!(m.items[0].owner.bytes, [0x11; 20]);
    assert_eq!(m.items[0].price, 0);
}

#[test]
fn collection_added_renders_the_id_in_decimal() {
    let mut m = Mirror::new();
    let ops = apply_event(
        &mut m,
        &MarketEvent::CollectionAdded { id: 12, nft_collection: addr(0x55) },
        None,
    );
    assert_eq!(m.collections.len(), 1);
    assert_eq!(m.collections[0].id.as_str(), "12");
    assert_eq!(m.collections[0].nft_collection.bytes, [0x55; 20]);
    assert_eq!(ops.len(), 1);
    match &ops[0] {
        StoreOp::InsertCollection { collection } => assert_eq!(collection.id.as_str(), "12"),
        _ => panic!("expected a collection insert"),
    }
}

#[test]
fn ownership_transfer_has_no_mirror_effect() {
    let mut m = mirror_with_item(1, addr(0xaa));
    let ops = apply_event(
        &mut m,
        &MarketEvent::OwnershipTransferred {
            previous_owner: addr(0x01),
            new_owner: addr(0x02),
        },
        None,
    );
    assert_eq!(ops.len(), 0);
    assert_eq!(m.collections.len(), 0);
    assert_eq!(m.items.len(), 1);
    assert_eq!(m.offers.len(), 0);
}

#[test]
fn only_offer_placed_needs_the_seller_resolved() {
    assert!(needs_seller(&MarketEvent::OfferPlaced { id: 1, buyer: addr(1), price: 2 }));
    assert!(!needs_seller(&MarketEvent::ItemListed { id: 1, price: 2 }));
    assert!(!needs_seller(&MarketEvent::OfferAccepted { id: 1, offerer: addr(1) }));
    assert!(!needs_seller(&MarketEvent::ItemAdded {
        id: 1,
        nft_contract: addr(1),
        token_id: 1,
        owner: addr(2),
    }));
}

#[test]
fn accepting_touches_only_the_first_offer_of_a_twice_recorded_pair() {
    // An offer re-placed after the item changed hands resolves a new
    // seller, so the same (item, offerer) pair ends up recorded under two
    // keys; an accept then marks only the first recorded document.
    let mut m = mirror_with_item(1, addr(0xaa));
    apply_event(
        &mut m,
        &MarketEvent::OfferPlaced { id: 1, buyer: addr(0xbb), price: 10 },
        Some(addr(0xaa)),
    );
    apply_event(&mut m, &MarketEvent::ItemSold { id: 1, buyer: addr(0xee) }, None);
    apply_event(
        &mut m,
        &MarketEvent::OfferPlaced { id: 1, buyer: addr(0xbb), price: 20 },
        Some(addr(0xee)),
    );
    assert_eq!(m.offers.len(), 2);
    apply_event(&mut m, &MarketEvent::OfferAccepted { id: 1, offerer: addr(0xbb) }, None);
    assert!(m.offers[0].is_accepted);
    assert_eq!(m.offers[0].seller.bytes, [0xaa; 20]);
    assert!(!m.offers[1].is_accepted);
}

#[test]
fn listing_an_unknown_item_changes_no_item_document() {
    let mut m = mirror_with_item(1, addr(0xaa));
    apply_event(&mut m, &MarketEvent::ItemListed { id: 9, price: 4 }, None);
    assert_eq!(m.items.len(), 1);
    assert_eq!(m.items[0].item_id, 1);
    assert_eq!(m.items[0].price, 0);
}

#[test]
fn has_item_reports_exactly_the_recorded_identifiers() {
    let m = mirror_with_item(6, addr(0xaa));
    assert!(m.has_item(6));
    assert!(!m.has_item(7));
}

#[test]
fn each_event_gets_one_audit_line() {
    assert_eq!(
        audit_line(&MarketEvent::ItemListed { id: 31, price: 4000 }).as_str(),
        "Item 31 listed for 4000 wei \n"
    );
    assert_eq!(
        audit_line(&MarketEvent::ItemSold { id: 2, buyer: addr(0xab) }).as_str(),
        "Item 2 sold to 0xabababababababababababababababababababab \n"
    );
    assert_eq!(
        audit_line(&MarketEvent::OfferAccepted { id: 7, offerer: addr(0x01) }).as_str(),
        "Offer on item 7 by 0x0101010101010101010101010101010101010101 accepted \n"
    );
}
