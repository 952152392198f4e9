use vstd::prelude::*;

use crate::mirror::{
    has_offer_key, has_offer_pair, lemma_filter_in_source, offer_key_match, offer_pair_match,
    offers_for_item, offers_for_pair, other_item_pred, pair_pred, same_item_pred,
    spec_item_claimed, spec_item_listed, spec_offer_accepted, spec_offer_placed, MirrorV,
};
use crate::models::OfferV;

verus! {

/// A filter keeps nothing when its test holds nowhere.
proof fn lemma_filter_none(s: Seq<OfferV>, pred: spec_fn(OfferV) -> bool)
    requires
        forall|k: int| 0 <= k < s.len() ==> !pred(#[trigger] s[k]),
    ensures
        s.filter(pred).len() == 0,
{
    broadcast use vstd::seq_lib::group_filter_ensures;

    if s.filter(pred).len() > 0 {
        lemma_filter_in_source(s, pred);
        let e = s.filter(pred)[0];
        assert(pred(e));
        let j = choose|j: int| 0 <= j < s.len() && s.filter(pred)[0] == s[j];
        assert(false);
    }
}

/// After the offers of one item are deleted, none is recorded for it.
proof fn lemma_no_offers_after_invalidation(offers: Seq<OfferV>, item_id: u64)
    ensures
        offers_for_item(offers.filter(other_item_pred(item_id)), item_id).len() == 0,
{
    broadcast use vstd::seq_lib::group_filter_ensures;

    let kept = offers.filter(other_item_pred(item_id));
    assert forall|k: int| 0 <= k < kept.len() implies !(same_item_pred(item_id))(
        #[trigger] kept[k],
    ) by {
        assert((other_item_pred(item_id))(kept[k]));
    }
    lemma_filter_none(kept, same_item_pred(item_id));
}

/// Listing an item that has no recorded offers prices the item at the
/// event's price and leaves its offer set empty, for every price.
pub proof fn lemma_idempotent_listing(m: MirrorV, item_id: u64, price: u64)
    requires
        offers_for_item(m.offers, item_id).len() == 0,
    ensures
        spec_item_listed(m, item_id, price).items.len() == m.items.len(),
        forall|i: int|
            0 <= i < m.items.len() && m.items[i].item_id == item_id ==> spec_item_listed(
                m,
                item_id,
                price,
            ).items[i].price == price,
        offers_for_item(spec_item_listed(m, item_id, price).offers, item_id).len() == 0,
{
    lemma_no_offers_after_invalidation(m.offers, item_id);
}

/// Two offers placed in a row by one offerer on one item, the seller
/// resolving the same both times, leave exactly one offer document for
/// that (item, offerer) pair: priced at the second price, not accepted.
pub proof fn lemma_offer_upsert(
    m: MirrorV,
    item_id: u64,
    offerer: Seq<u8>,
    seller: Seq<u8>,
    p1: u64,
    p2: u64,
)
    requires
        !has_offer_pair(m.offers, item_id, offerer),
    ensures
        ({
            let m2 = spec_offer_placed(
                spec_offer_placed(m, item_id, offerer, seller, p1),
                item_id,
                offerer,
                seller,
                p2,
            );
            offers_for_pair(m2.offers, item_id, offerer) =~= seq![
                OfferV { item_id, offerer, seller, price: p2, is_accepted: false },
            ]
        }),
{
    let doc1 = OfferV { item_id, offerer, seller, price: p1, is_accepted: false };
    let doc2 = OfferV { item_id, offerer, seller, price: p2, is_accepted: false };
    let m1 = spec_offer_placed(m, item_id, offerer, seller, p1);
    assert(!has_offer_key(m.offers, item_id, offerer, seller)) by {
        if has_offer_key(m.offers, item_id, offerer, seller) {
            let w = choose|w: int|
                0 <= w < m.offers.len() && offer_key_match(m.offers[w], item_id, offerer, seller);
            assert(offer_pair_match(m.offers[w], item_id, offerer));
        }
    }
    assert(m1.offers == m.offers.push(doc1));
    assert(offer_key_match(m1.offers[m.offers.len() as int], item_id, offerer, seller));
    assert(has_offer_key(m1.offers, item_id, offerer, seller));
    let m2 = spec_offer_placed(m1, item_id, offerer, seller, p2);
    let pfx = m2.offers.take(m.offers.len() as int);
    assert forall|k: int| 0 <= k < pfx.len() implies !(pair_pred(item_id, offerer))(
        #[trigger] pfx[k],
    ) by {
        assert(m1.offers[k] == m.offers[k]);
        assert(!offer_pair_match(m.offers[k], item_id, offerer));
        assert(pfx[k] == m2.offers[k]);
    }
    assert(m2.offers =~= pfx.push(doc2)) by {
        assert(m2.offers[m.offers.len() as int] == doc2);
    }
    lemma_filter_none(pfx, pair_pred(item_id, offerer));
    pfx.lemma_filter_push(doc2, pair_pred(item_id, offerer));
    assert((pair_pred(item_id, offerer))(doc2));
    assert(offers_for_pair(m2.offers, item_id, offerer) =~= seq![doc2]) by {
        assert(pfx.filter(pair_pred(item_id, offerer)) =~= Seq::<OfferV>::empty());
        assert(m2.offers.filter(pair_pred(item_id, offerer)) == pfx.push(doc2).filter(
            pair_pred(item_id, offerer),
        ));
    }
}

/// With offers recorded for an item, a listing or a claim event leaves no
/// offer document for that item.
pub proof fn lemma_invalidation(m: MirrorV, item_id: u64, price: u64, claimer: Seq<u8>)
    requires
        offers_for_item(m.offers, item_id).len() >= 1,
    ensures
        offers_for_item(spec_item_listed(m, item_id, price).offers, item_id).len() == 0,
        offers_for_item(spec_item_claimed(m, item_id, claimer).offers, item_id).len() == 0,
{
    lemma_no_offers_after_invalidation(m.offers, item_id);
}

/// An accept event for a (item, offerer) pair the mirror never recorded
/// changes nothing at all.
pub proof fn lemma_accept_without_record(m: MirrorV, item_id: u64, offerer: Seq<u8>)
    requires
        !has_offer_pair(m.offers, item_id, offerer),
    ensures
        spec_offer_accepted(m, item_id, offerer) == m,
{
}

} // verus!
