use vstd::prelude::*;

use crate::mirror::{
    has_item_id, has_offer_key, has_offer_pair, spec_collection_added, spec_item_added,
    spec_item_claimed, spec_item_listed, spec_item_sold, spec_offer_accepted, spec_offer_placed,
    Mirror, MirrorV,
};
use crate::models::{
    addr_hex_chars, dec_chars, u64_to_dec_string, Addr, CollectionV, Item, ItemV, NFTCollection,
    Offer, OfferV,
};
use vstd::pervasive::unreached;

verus! {

// ----------------------------------------------------------------------------
// Decoded events.
// ----------------------------------------------------------------------------

/// A decoded contract event, one per log entry, in delivery order.
pub enum MarketEvent {
    CollectionAdded { id: u64, nft_collection: Addr },
    ItemAdded { id: u64, nft_contract: Addr, token_id: u64, owner: Addr },
    ItemListed { id: u64, price: u64 },
    ItemSold { id: u64, buyer: Addr },
    ItemClaimed { id: u64, claimer: Addr },
    OfferPlaced { id: u64, buyer: Addr, price: u64 },
    OfferAccepted { id: u64, offerer: Addr },
    OwnershipTransferred { previous_owner: Addr, new_owner: Addr },
}

/// An offer-placed event does not say who the seller is by then; the item's
/// current owner has to be read from the chain before the event can apply.
pub open spec fn spec_needs_seller(ev: MarketEvent) -> bool {
    ev matches MarketEvent::OfferPlaced { .. }
}

/// Whether this event needs the item's current owner resolved first.
pub fn needs_seller(ev: &MarketEvent) -> (r: bool)
    ensures
        r == spec_needs_seller(*ev),
{
    match ev {
        MarketEvent::OfferPlaced { .. } => true,
        _ => false,
    }
}

// ----------------------------------------------------------------------------
// Store writes.
// ----------------------------------------------------------------------------

/// One write against the document store. The caller replays each returned
/// operation, in order, against the collection it names.
pub enum StoreOp {
    InsertCollection { collection: NFTCollection },
    InsertItem { item: Item },
    SetItemPrice { item_id: u64, price: u64 },
    SetItemOwnerPrice { item_id: u64, owner: Addr, price: u64 },
    SetItemOwner { item_id: u64, owner: Addr },
    DeleteItemOffers { item_id: u64 },
    InsertOffer { offer: Offer },
    UpdateOfferPrice { item_id: u64, offerer: Addr, seller: Addr, price: u64 },
    AcceptOffer { item_id: u64, offerer: Addr },
}

/// The mathematical value of a store operation.
#[verifier::ext_equal]
pub ghost enum OpV {
    InsertCollection { collection: CollectionV },
    InsertItem { item: ItemV },
    SetItemPrice { item_id: u64, price: u64 },
    SetItemOwnerPrice { item_id: u64, owner: Seq<u8>, price: u64 },
    SetItemOwner { item_id: u64, owner: Seq<u8> },
    DeleteItemOffers { item_id: u64 },
    InsertOffer { offer: OfferV },
    UpdateOfferPrice { item_id: u64, offerer: Seq<u8>, seller: Seq<u8>, price: u64 },
    AcceptOffer { item_id: u64, offerer: Seq<u8> },
}

impl View for StoreOp {
    type V = OpV;

    open spec fn view(&self) -> OpV {
        match self {
            StoreOp::InsertCollection { collection } => OpV::InsertCollection {
                collection: collection@,
            },
            StoreOp::InsertItem { item } => OpV::InsertItem { item: item@ },
            StoreOp::SetItemPrice { item_id, price } => OpV::SetItemPrice {
                item_id: *item_id,
                price: *price,
            },
            StoreOp::SetItemOwnerPrice { item_id, owner, price } => OpV::SetItemOwnerPrice {
                item_id: *item_id,
                owner: owner@,
                price: *price,
            },
            StoreOp::SetItemOwner { item_id, owner } => OpV::SetItemOwner {
                item_id: *item_id,
                owner: owner@,
            },
            StoreOp::DeleteItemOffers { item_id } => OpV::DeleteItemOffers { item_id: *item_id },
            StoreOp::InsertOffer { offer } => OpV::InsertOffer { offer: offer@ },
            StoreOp::UpdateOfferPrice { item_id, offerer, seller, price } => OpV::UpdateOfferPrice {
                item_id: *item_id,
                offerer: offerer@,
                seller: seller@,
                price: *price,
            },
            StoreOp::AcceptOffer { item_id, offerer } => OpV::AcceptOffer {
                item_id: *item_id,
                offerer: offerer@,
            },
        }
    }
}

/// The mathematical values of a list of store operations.
pub open spec fn ops_v(ops: Seq<StoreOp>) -> Seq<OpV> {
    ops.map_values(|op: StoreOp| op@)
}

// ----------------------------------------------------------------------------
// One event, one transition, one list of writes.
// ----------------------------------------------------------------------------

/// The mirror after one event. An offer-placed event without a resolved
/// seller, and an ownership transfer, change nothing.
pub open spec fn spec_apply_event(m: MirrorV, ev: MarketEvent, seller: Option<Addr>) -> MirrorV {
    match ev {
        MarketEvent::CollectionAdded { id, nft_collection } => spec_collection_added(
            m,
            id,
            nft_collection@,
        ),
        MarketEvent::ItemAdded { id, nft_contract, token_id, owner } => spec_item_added(
            m,
            id,
            nft_contract@,
            token_id,
            owner@,
        ),
        MarketEvent::ItemListed { id, price } => spec_item_listed(m, id, price),
        MarketEvent::ItemSold { id, buyer } => spec_item_sold(m, id, buyer@),
        MarketEvent::ItemClaimed { id, claimer } => spec_item_claimed(m, id, claimer@),
        MarketEvent::OfferPlaced { id, buyer, price } => match seller {
            Some(s) => spec_offer_placed(m, id, buyer@, s@, price),
            None => m,
        },
        MarketEvent::OfferAccepted { id, offerer } => spec_offer_accepted(m, id, offerer@),
        MarketEvent::OwnershipTransferred { .. } => m,
    }
}

/// The store writes owed for one event, given the mirror it meets.
pub open spec fn spec_event_ops(m: MirrorV, ev: MarketEvent, seller: Option<Addr>) -> Seq<OpV> {
    match ev {
        MarketEvent::CollectionAdded { id, nft_collection } => seq![
            OpV::InsertCollection {
                collection: CollectionV {
                    id: dec_chars(id as nat),
                    nft_collection: nft_collection@,
                },
            },
        ],
        MarketEvent::ItemAdded { id, nft_contract, token_id, owner } => seq![
            OpV::InsertItem {
                item: ItemV {
                    item_id: id,
                    nft_contract: nft_contract@,
                    token_id,
                    owner: owner@,
                    price: 0,
                    name: None,
                    description: None,
                    image: None,
                },
            },
        ],
        MarketEvent::ItemListed { id, price } => seq![
            OpV::SetItemPrice { item_id: id, price },
            OpV::DeleteItemOffers { item_id: id },
        ],
        MarketEvent::ItemSold { id, buyer } => seq![
            OpV::SetItemOwnerPrice { item_id: id, owner: buyer@, price: 0 },
        ],
        MarketEvent::ItemClaimed { id, claimer } => seq![
            OpV::SetItemOwner { item_id: id, owner: claimer@ },
            OpV::DeleteItemOffers { item_id: id },
        ],
        MarketEvent::OfferPlaced { id, buyer, price } => match seller {
            Some(s) => if has_offer_key(m.offers, id, buyer@, s@) {
                seq![
                    OpV::UpdateOfferPrice { item_id: id, offerer: buyer@, seller: s@, price },
                ]
            } else {
                seq![
                    OpV::InsertOffer {
                        offer: OfferV {
                            item_id: id,
                            offerer: buyer@,
                            seller: s@,
                            price,
                            is_accepted: false,
                        },
                    },
                ]
            },
            None => Seq::empty(),
        },
        MarketEvent::OfferAccepted { id, offerer } => if has_offer_pair(m.offers, id, offerer@) {
            seq![OpV::AcceptOffer { item_id: id, offerer: offerer@ }]
        } else {
            Seq::empty()
        },
        MarketEvent::OwnershipTransferred { .. } => Seq::empty(),
    }
}

/// The characters of the one audit line owed per processed event.
pub open spec fn audit_chars(ev: MarketEvent) -> Seq<char> {
    match ev {
        MarketEvent::CollectionAdded { id, nft_collection } => "Collection "@ + dec_chars(
            id as nat,
        ) + " added at "@ + addr_hex_chars(nft_collection@) + " \n"@,
        MarketEvent::ItemAdded { id, owner, .. } => "Item "@ + dec_chars(id as nat)
            + " added, owned by "@ + addr_hex_chars(owner@) + " \n"@,
        MarketEvent::ItemListed { id, price } => "Item "@ + dec_chars(id as nat) + " listed for "@
            + dec_chars(price as nat) + " wei \n"@,
        MarketEvent::ItemSold { id, buyer } => "Item "@ + dec_chars(id as nat) + " sold to "@
            + addr_hex_chars(buyer@) + " \n"@,
        MarketEvent::ItemClaimed { id, claimer } => "Item "@ + dec_chars(id as nat)
            + " claimed by "@ + addr_hex_chars(claimer@) + " \n"@,
        MarketEvent::OfferPlaced { id, buyer, price } => "Offer placed on item "@ + dec_chars(
            id as nat,
        ) + " by "@ + addr_hex_chars(buyer@) + " for "@ + dec_chars(price as nat) + " wei \n"@,
        MarketEvent::OfferAccepted { id, offerer } => "Offer on item "@ + dec_chars(id as nat)
            + " by "@ + addr_hex_chars(offerer@) + " accepted \n"@,
        MarketEvent::OwnershipTransferred { previous_owner, new_owner } => {
            "Ownership transferred from "@ + addr_hex_chars(previous_owner@) + " to "@
                + addr_hex_chars(new_owner@) + " \n"@
        },
    }
}

/// The one audit line for an event, ready for the sink.
pub fn audit_line(ev: &MarketEvent) -> (s: String)
    ensures
        s@ == audit_chars(*ev),
{
    match ev {
        MarketEvent::CollectionAdded { id, nft_collection } => {
            let mut s = String::from_str("Collection ");
            s.append(u64_to_dec_string(*id).as_str());
            s.append(" added at ");
            s.append(nft_collection.hex_string().as_str());
            s.append(" \n");
            proof {
                assert(s@ =~= audit_chars(*ev));
            }
            s
        },
        MarketEvent::ItemAdded { id, owner, .. } => {
            let mut s = String::from_str("Item ");
            s.append(u64_to_dec_string(*id).as_str());
            s.append(" added, owned by ");
            s.append(owner.hex_string().as_str());
            s.append(" \n");
            proof {
                assert(s@ =~= audit_chars(*ev));
            }
            s
        },
        MarketEvent::ItemListed { id, price } => {
            let mut s = String::from_str("Item ");
            s.append(u64_to_dec_string(*id).as_str());
            s.append(" listed for ");
            s.append(u64_to_dec_string(*price).as_str());
            s.append(" wei \n");
            proof {
                assert(s@ =~= audit_chars(*ev));
            }
            s
        },
        MarketEvent::ItemSold { id, buyer } => {
            let mut s = String::from_str("Item ");
            s.append(u64_to_dec_string(*id).as_str());
            s.append(" sold to ");
            s.append(buyer.hex_string().as_str());
            s.append(" \n");
            proof {
                assert(s@ =~= audit_chars(*ev));
            }
            s
        },
        MarketEvent::ItemClaimed { id, claimer } => {
            let mut s = String::from_str("Item ");
            s.append(u64_to_dec_string(*id).as_str());
            s.append(" claimed by ");
            s.append(claimer.hex_string().as_str());
            s.append(" \n");
            proof {
                assert(s@ =~= audit_chars(*ev));
            }
            s
        },
        MarketEvent::OfferPlaced { id, buyer, price } => {
            let mut s = String::from_str("Offer placed on item ");
            s.append(u64_to_dec_string(*id).as_str());
            s.append(" by ");
            s.append(buyer.hex_string().as_str());
            s.append(" for ");
            s.append(u64_to_dec_string(*price).as_str());
            s.append(" wei \n");
            proof {
                assert(s@ =~= audit_chars(*ev));
            }
            s
        },
        MarketEvent::OfferAccepted { id, offerer } => {
            let mut s = String::from_str("Offer on item ");
            s.append(u64_to_dec_string(*id).as_str());
            s.append(" by ");
            s.append(offerer.hex_string().as_str());
            s.append(" accepted \n");
            proof {
                assert(s@ =~= audit_chars(*ev));
            }
            s
        },
        MarketEvent::OwnershipTransferred { previous_owner, new_owner } => {
            let mut s = String::from_str("Ownership transferred from ");
            s.append(previous_owner.hex_string().as_str());
            s.append(" to ");
            s.append(new_owner.hex_string().as_str());
            s.append(" \n");
            proof {
                assert(s@ =~= audit_chars(*ev));
            }
            s
        },
    }
}

/// Applies one decoded event to the mirror and returns the store writes
/// that replay it, in order. Events arrive one at a time; the write for
/// event N is replayed before event N+1 is handed in.
pub fn apply_event(m: &mut Mirror, ev: &MarketEvent, resolved_seller: Option<Addr>) -> (ops: Vec<
    StoreOp,
>)
    requires
        old(m).wf(),
        spec_needs_seller(*ev) ==> resolved_seller is Some,
        *ev matches MarketEvent::ItemAdded { id, .. } ==> !has_item_id(old(m)@.items, id),
    ensures
        final(m).wf(),
        final(m)@ == spec_apply_event(old(m)@, *ev, resolved_seller),
        ops_v(ops@) == spec_event_ops(old(m)@, *ev, resolved_seller),
{
    match ev {
        MarketEvent::CollectionAdded { id, nft_collection } => {
            let doc = m.apply_collection_added(*id, *nft_collection);
            let mut ops: Vec<StoreOp> = Vec::new();
            ops.push(StoreOp::InsertCollection { collection: doc });
            proof {
                assert(ops_v(ops@) =~= spec_event_ops(old(m)@, *ev, resolved_seller));
            }
            ops
        },
        MarketEvent::ItemAdded { id, nft_contract, token_id, owner } => {
            m.apply_item_added(*id, *nft_contract, *token_id, *owner);
            let doc = Item {
                item_id: *id,
                nft_contract: *nft_contract,
                token_id: *token_id,
                owner: *owner,
                price: 0,
                name: None,
                description: None,
                image: None,
            };
            let mut ops: Vec<StoreOp> = Vec::new();
            ops.push(StoreOp::InsertItem { item: doc });
            proof {
                assert(ops_v(ops@) =~= spec_event_ops(old(m)@, *ev, resolved_seller));
            }
            ops
        },
        MarketEvent::ItemListed { id, price } => {
            m.apply_item_listed(*id, *price);
            let mut ops: Vec<StoreOp> = Vec::new();
            ops.push(StoreOp::SetItemPrice { item_id: *id, price: *price });
            ops.push(StoreOp::DeleteItemOffers { item_id: *id });
            proof {
                assert(ops_v(ops@) =~= spec_event_ops(old(m)@, *ev, resolved_seller));
            }
            ops
        },
        MarketEvent::ItemSold { id, buyer } => {
            m.apply_item_sold(*id, *buyer);
            let mut ops: Vec<StoreOp> = Vec::new();
            ops.push(StoreOp::SetItemOwnerPrice { item_id: *id, owner: *buyer, price: 0 });
            proof {
                assert(ops_v(ops@) =~= spec_event_ops(old(m)@, *ev, resolved_seller));
            }
            ops
        },
        MarketEvent::ItemClaimed { id, claimer } => {
            m.apply_item_claimed(*id, *claimer);
            let mut ops: Vec<StoreOp> = Vec::new();
            ops.push(StoreOp::SetItemOwner { item_id: *id, owner: *claimer });
            ops.push(StoreOp::DeleteItemOffers { item_id: *id });
            proof {
                assert(ops_v(ops@) =~= spec_event_ops(old(m)@, *ev, resolved_seller));
            }
            ops
        },
        MarketEvent::OfferPlaced { id, buyer, price } => {
            match resolved_seller {
                Some(seller) => {
                    let inserted = m.apply_offer_placed(*id, *buyer, seller, *price);
                    let mut ops: Vec<StoreOp> = Vec::new();
                    if inserted {
                        ops.push(
                            StoreOp::InsertOffer {
                                offer: Offer {
                                    item_id: *id,
                                    offerer: *buyer,
                                    seller,
                                    price: *price,
                                    is_accepted: false,
                                },
                            },
                        );
                    } else {
                        ops.push(
                            StoreOp::UpdateOfferPrice {
                                item_id: *id,
                                offerer: *buyer,
                                seller,
                                price: *price,
                            },
                        );
                    }
                    proof {
                        assert(ops_v(ops@) =~= spec_event_ops(old(m)@, *ev, resolved_seller));
                    }
                    ops
                },
                None => unreached(),
            }
        },
        MarketEvent::OfferAccepted { id, offerer } => {
            let updated = m.apply_offer_accepted(*id, *offerer);
            let mut ops: Vec<StoreOp> = Vec::new();
            if updated {
                ops.push(StoreOp::AcceptOffer { item_id: *id, offerer: *offerer });
            }
            proof {
                assert(ops_v(ops@) =~= spec_event_ops(old(m)@, *ev, resolved_seller));
            }
            ops
        },
        MarketEvent::OwnershipTransferred { .. } => {
            let ops: Vec<StoreOp> = Vec::new();
            proof {
                assert(ops_v(ops@) =~= spec_event_ops(old(m)@, *ev, resolved_seller));
            }
            ops
        },
    }
}

} // verus!
