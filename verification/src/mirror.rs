use vstd::prelude::*;

use crate::models::{
    dec_chars, u64_to_dec_string, Addr, CollectionV, Item, ItemV, NFTCollection, Offer, OfferV,
};

verus! {

// ----------------------------------------------------------------------------
// The mathematical mirror.
// ----------------------------------------------------------------------------

/// The mathematical value of the whole mirror: the three collections as
/// sequences of document values, in insertion order.
#[verifier::ext_equal]
pub ghost struct MirrorV {
    pub collections: Seq<CollectionV>,
    pub items: Seq<ItemV>,
    pub offers: Seq<OfferV>,
}

/// Whether some item document carries this identifier.
pub open spec fn has_item_id(items: Seq<ItemV>, item_id: u64) -> bool {
    exists|i: int| 0 <= i < items.len() && items[i].item_id == item_id
}

/// One item document per identifier.
pub open spec fn items_unique(items: Seq<ItemV>) -> bool {
    forall|i: int, j: int|
        0 <= i < j < items.len() ==> items[i].item_id != items[j].item_id
}

/// Whether an offer document carries exactly this (item, offerer, seller) key.
pub open spec fn offer_key_match(o: OfferV, item_id: u64, offerer: Seq<u8>, seller: Seq<u8>) -> bool {
    o.item_id == item_id && o.offerer == offerer && o.seller == seller
}

/// Whether an offer document carries this (item, offerer) pair.
pub open spec fn offer_pair_match(o: OfferV, item_id: u64, offerer: Seq<u8>) -> bool {
    o.item_id == item_id && o.offerer == offerer
}

/// One offer document per (item, offerer, seller) key.
pub open spec fn offers_unique(offers: Seq<OfferV>) -> bool {
    forall|i: int, j: int|
        0 <= i < j < offers.len() ==> !(offers[i].item_id == offers[j].item_id
            && offers[i].offerer == offers[j].offerer && offers[i].seller == offers[j].seller)
}

pub open spec fn has_offer_key(offers: Seq<OfferV>, item_id: u64, offerer: Seq<u8>, seller: Seq<u8>) -> bool {
    exists|i: int| 0 <= i < offers.len() && offer_key_match(offers[i], item_id, offerer, seller)
}

pub open spec fn has_offer_pair(offers: Seq<OfferV>, item_id: u64, offerer: Seq<u8>) -> bool {
    exists|i: int| 0 <= i < offers.len() && offer_pair_match(offers[i], item_id, offerer)
}

/// Keeps the offers that belong to this item.
pub open spec fn same_item_pred(item_id: u64) -> spec_fn(OfferV) -> bool {
    |o: OfferV| o.item_id == item_id
}

/// Keeps the offers that belong to any other item.
pub open spec fn other_item_pred(item_id: u64) -> spec_fn(OfferV) -> bool {
    |o: OfferV| o.item_id != item_id
}

/// Keeps the offers of one offerer on one item.
pub open spec fn pair_pred(item_id: u64, offerer: Seq<u8>) -> spec_fn(OfferV) -> bool {
    |o: OfferV| offer_pair_match(o, item_id, offerer)
}

/// The offer documents recorded for one item, in order.
pub open spec fn offers_for_item(offers: Seq<OfferV>, item_id: u64) -> Seq<OfferV> {
    offers.filter(same_item_pred(item_id))
}

/// The offer documents recorded for one (item, offerer) pair, in order.
pub open spec fn offers_for_pair(offers: Seq<OfferV>, item_id: u64, offerer: Seq<u8>) -> Seq<OfferV> {
    offers.filter(pair_pred(item_id, offerer))
}

// ----------------------------------------------------------------------------
// One transition per event kind.
// ----------------------------------------------------------------------------

/// A collection-added event inserts one collection document, its identifier
/// rendered in decimal.
pub open spec fn spec_collection_added(m: MirrorV, id: u64, nft_collection: Seq<u8>) -> MirrorV {
    MirrorV {
        collections: m.collections.push(
            CollectionV { id: dec_chars(id as nat), nft_collection },
        ),
        ..m
    }
}

/// An item-added event inserts one unlisted item document with no metadata.
pub open spec fn spec_item_added(
    m: MirrorV,
    item_id: u64,
    nft_contract: Seq<u8>,
    token_id: u64,
    owner: Seq<u8>,
) -> MirrorV {
    MirrorV {
        items: m.items.push(
            ItemV {
                item_id,
                nft_contract,
                token_id,
                owner,
                price: 0,
                name: None,
                description: None,
                image: None,
            },
        ),
        ..m
    }
}

/// The item documents with the price of the matching item replaced.
pub open spec fn items_with_price(items: Seq<ItemV>, item_id: u64, price: u64) -> Seq<ItemV> {
    Seq::new(
        items.len(),
        |i: int|
            if items[i].item_id == item_id {
                ItemV { price, ..items[i] }
            } else {
                items[i]
            },
    )
}

/// The item documents with the owner of the matching item replaced, and its
/// price as given.
pub open spec fn items_with_owner_price(
    items: Seq<ItemV>,
    item_id: u64,
    owner: Seq<u8>,
    price: u64,
) -> Seq<ItemV> {
    Seq::new(
        items.len(),
        |i: int|
            if items[i].item_id == item_id {
                ItemV { owner, price, ..items[i] }
            } else {
                items[i]
            },
    )
}

/// The item documents with the owner of the matching item replaced.
pub open spec fn items_with_owner(items: Seq<ItemV>, item_id: u64, owner: Seq<u8>) -> Seq<ItemV> {
    Seq::new(
        items.len(),
        |i: int|
            if items[i].item_id == item_id {
                ItemV { owner, ..items[i] }
            } else {
                items[i]
            },
    )
}

/// A listing event sets the item's price and invalidates every outstanding
/// offer for that item.
pub open spec fn spec_item_listed(m: MirrorV, item_id: u64, price: u64) -> MirrorV {
    MirrorV {
        items: items_with_price(m.items, item_id, price),
        offers: m.offers.filter(other_item_pred(item_id)),
        ..m
    }
}

/// A sale event hands the item to the buyer and takes it off the listing.
pub open spec fn spec_item_sold(m: MirrorV, item_id: u64, buyer: Seq<u8>) -> MirrorV {
    MirrorV { items: items_with_owner_price(m.items, item_id, buyer, 0), ..m }
}

/// A claim event hands the item to the claimer and invalidates every
/// outstanding offer for that item.
pub open spec fn spec_item_claimed(m: MirrorV, item_id: u64, claimer: Seq<u8>) -> MirrorV {
    MirrorV {
        items: items_with_owner(m.items, item_id, claimer),
        offers: m.offers.filter(other_item_pred(item_id)),
        ..m
    }
}

/// An offer-placed event updates the offer recorded under the same
/// (item, offerer, seller) key, or inserts a fresh one; either way the
/// resulting document carries the new price and is not accepted.
pub open spec fn spec_offer_placed(
    m: MirrorV,
    item_id: u64,
    offerer: Seq<u8>,
    seller: Seq<u8>,
    price: u64,
) -> MirrorV {
    if has_offer_key(m.offers, item_id, offerer, seller) {
        MirrorV {
            offers: Seq::new(
                m.offers.len(),
                |i: int|
                    if offer_key_match(m.offers[i], item_id, offerer, seller) {
                        OfferV { price, is_accepted: false, ..m.offers[i] }
                    } else {
                        m.offers[i]
                    },
            ),
            ..m
        }
    } else {
        MirrorV {
            offers: m.offers.push(OfferV { item_id, offerer, seller, price, is_accepted: false }),
            ..m
        }
    }
}

/// The position of the first offer document for a (item, offerer) pair;
/// the sequence length when there is none.
pub open spec fn first_pair_idx(offers: Seq<OfferV>, item_id: u64, offerer: Seq<u8>) -> int
    decreases offers.len(),
{
    if offers.len() == 0 {
        0
    } else if offer_pair_match(offers[0], item_id, offerer) {
        0
    } else {
        1 + first_pair_idx(offers.drop_first(), item_id, offerer)
    }
}

/// An accept event flips `is_accepted` on the first recorded offer for the
/// (item, offerer) pair; with none recorded, nothing changes.
pub open spec fn spec_offer_accepted(m: MirrorV, item_id: u64, offerer: Seq<u8>) -> MirrorV {
    if has_offer_pair(m.offers, item_id, offerer) {
        let i = first_pair_idx(m.offers, item_id, offerer);
        MirrorV {
            offers: m.offers.update(i, OfferV { is_accepted: true, ..m.offers[i] }),
            ..m
        }
    } else {
        m
    }
}

/// The first-match position is sound: in range, matching, and nothing
/// before it matches.
pub proof fn lemma_first_pair_idx(offers: Seq<OfferV>, item_id: u64, offerer: Seq<u8>)
    ensures
        0 <= first_pair_idx(offers, item_id, offerer) <= offers.len(),
        has_offer_pair(offers, item_id, offerer) ==> first_pair_idx(offers, item_id, offerer)
            < offers.len() && offer_pair_match(
            offers[first_pair_idx(offers, item_id, offerer)],
            item_id,
            offerer,
        ),
        forall|j: int|
            0 <= j < first_pair_idx(offers, item_id, offerer) ==> !offer_pair_match(
                offers[j],
                item_id,
                offerer,
            ),
        !has_offer_pair(offers, item_id, offerer) ==> first_pair_idx(offers, item_id, offerer)
            == offers.len(),
    decreases offers.len(),
{
    if offers.len() == 0 {
    } else if offer_pair_match(offers[0], item_id, offerer) {
        assert(has_offer_pair(offers, item_id, offerer));
    } else {
        let rest = offers.drop_first();
        lemma_first_pair_idx(rest, item_id, offerer);
        assert(forall|i: int| 0 <= i < rest.len() ==> rest[i] == offers[i + 1]);
        if has_offer_pair(offers, item_id, offerer) {
            let w = choose|i: int|
                0 <= i < offers.len() && offer_pair_match(offers[i], item_id, offerer);
            assert(w != 0);
            assert(rest[w - 1] == offers[w]);
            assert(has_offer_pair(rest, item_id, offerer));
        }
        if has_offer_pair(rest, item_id, offerer) {
            let w = choose|i: int|
                0 <= i < rest.len() && offer_pair_match(rest[i], item_id, offerer);
            assert(offers[w + 1] == rest[w]);
            assert(has_offer_pair(offers, item_id, offerer));
        }
        assert forall|j: int|
            0 <= j < first_pair_idx(offers, item_id, offerer) implies !offer_pair_match(
            offers[j],
            item_id,
            offerer,
        ) by {
            if j > 0 {
                assert(offers[j] == rest[j - 1]);
            }
        }
    }
}

/// Every element of a filtered sequence stands somewhere in the source.
pub proof fn lemma_filter_in_source(s: Seq<OfferV>, pred: spec_fn(OfferV) -> bool)
    ensures
        forall|k: int| #![trigger s.filter(pred)[k]]
            0 <= k < s.filter(pred).len() ==> exists|j: int|
                0 <= j < s.len() && s.filter(pred)[k] == #[trigger] s[j],
    decreases s.len(),
{
    reveal(Seq::filter);
    if s.len() == 0 {
    } else {
        let rest = s.drop_last();
        lemma_filter_in_source(rest, pred);
        assert forall|k: int| #![trigger s.filter(pred)[k]]
            0 <= k < s.filter(pred).len() implies exists|j: int|
            0 <= j < s.len() && s.filter(pred)[k] == #[trigger] s[j] by {
            if k < rest.filter(pred).len() {
                let j = choose|j: int| 0 <= j < rest.len() && rest.filter(pred)[k] == rest[j];
                assert(s[j] == rest[j]);
                assert(s.filter(pred)[k] == s[j]);
            } else {
                assert(s.filter(pred)[k] == s[s.len() - 1]);
            }
        }
    }
}

/// Deleting offers never makes two documents share a key: a filtered
/// key-unique sequence is key-unique.
pub proof fn lemma_filter_unique(s: Seq<OfferV>, pred: spec_fn(OfferV) -> bool)
    requires
        offers_unique(s),
    ensures
        offers_unique(s.filter(pred)),
    decreases s.len(),
{
    reveal(Seq::filter);
    if s.len() == 0 {
    } else {
        let rest = s.drop_last();
        assert(offers_unique(rest)) by {
            assert(forall|i: int| 0 <= i < rest.len() ==> rest[i] == s[i]);
        }
        lemma_filter_unique(rest, pred);
        lemma_filter_in_source(rest, pred);
        let f = rest.filter(pred);
        if pred(s.last()) {
            assert(s.filter(pred) == f.push(s.last()));
            assert forall|i: int, j: int| 0 <= i < j < s.filter(pred).len() implies !(s.filter(
                pred,
            )[i].item_id == s.filter(pred)[j].item_id && s.filter(pred)[i].offerer == s.filter(
                pred,
            )[j].offerer && s.filter(pred)[i].seller == s.filter(pred)[j].seller) by {
                if j < f.len() {
                    assert(s.filter(pred)[i] == f[i]);
                    assert(s.filter(pred)[j] == f[j]);
                } else {
                    let w = choose|w: int| 0 <= w < rest.len() && f[i] == rest[w];
                    assert(s[w] == rest[w]);
                    assert(s.filter(pred)[i] == s[w]);
                    assert(s.filter(pred)[j] == s[s.len() - 1]);
                }
            }
        }
    }
}

/// Key-uniqueness carries over to any sequence with the same keys slot by
/// slot.
proof fn lemma_unique_same_keys(a: Seq<OfferV>, b: Seq<OfferV>)
    requires
        offers_unique(a),
        a.len() == b.len(),
        forall|i: int| #![trigger b[i]]
            0 <= i < a.len() ==> b[i].item_id == a[i].item_id && b[i].offerer == a[i].offerer
                && b[i].seller == a[i].seller,
    ensures
        offers_unique(b),
{
}

/// Identifier-uniqueness carries over to any item sequence with the same
/// identifiers slot by slot.
proof fn lemma_items_unique_same_ids(a: Seq<ItemV>, b: Seq<ItemV>)
    requires
        items_unique(a),
        a.len() == b.len(),
        forall|i: int| #![trigger b[i]] 0 <= i < a.len() ==> b[i].item_id == a[i].item_id,
    ensures
        items_unique(b),
{
}

// ----------------------------------------------------------------------------
// The executable mirror.
// ----------------------------------------------------------------------------

/// The document values of a sequence of collection documents.
pub open spec fn collections_v(s: Seq<NFTCollection>) -> Seq<CollectionV> {
    s.map_values(|c: NFTCollection| c@)
}

/// The document values of a sequence of item documents.
pub open spec fn items_v(s: Seq<Item>) -> Seq<ItemV> {
    s.map_values(|it: Item| it@)
}

/// The document values of a sequence of offer documents.
pub open spec fn offers_v(s: Seq<Offer>) -> Seq<OfferV> {
    s.map_values(|o: Offer| o@)
}

/// The in-memory image of the three mirrored store collections. During live
/// reconciliation it is the single writer's own record of what the store
/// holds, so a lookup here answers what a store lookup would.
pub struct Mirror {
    pub collections: Vec<NFTCollection>,
    pub items: Vec<Item>,
    pub offers: Vec<Offer>,
}

impl View for Mirror {
    type V = MirrorV;

    open spec fn view(&self) -> MirrorV {
        MirrorV {
            collections: collections_v(self.collections@),
            items: items_v(self.items@),
            offers: offers_v(self.offers@),
        }
    }
}

impl Mirror {
    /// One item document per identifier, one offer document per key.
    pub open spec fn wf(&self) -> bool {
        items_unique(self@.items) && offers_unique(self@.offers)
    }

    /// The empty mirror.
    pub fn new() -> (m: Mirror)
        ensures
            m@.collections.len() == 0,
            m@.items.len() == 0,
            m@.offers.len() == 0,
            m.wf(),
    {
        Mirror { collections: Vec::new(), items: Vec::new(), offers: Vec::new() }
    }

    /// Whether the mirror holds an item document with this identifier.
    pub fn has_item(&self, item_id: u64) -> (r: bool)
        ensures
            r == has_item_id(self@.items, item_id),
    {
        let mut i: usize = 0;
        while i < self.items.len()
            invariant
                i <= self.items@.len(),
                forall|j: int| 0 <= j < i ==> items_v(self.items@)[j].item_id != item_id,
            decreases self.items@.len() - i,
        {
            if self.items[i].item_id == item_id {
                proof {
                    assert(items_v(self.items@)[i as int].item_id == item_id);
                }
                return true;
            }
            i += 1;
        }
        false
    }

    /// Inserts the collection document for a collection-added event and
    /// returns a copy of it for the store.
    pub fn apply_collection_added(&mut self, id: u64, nft_collection: Addr) -> (c: NFTCollection)
        requires
            old(self).wf(),
        ensures
            final(self).wf(),
            final(self)@ == spec_collection_added(old(self)@, id, nft_collection@),
            c@ == (CollectionV { id: dec_chars(id as nat), nft_collection: nft_collection@ }),
    {
        let doc = NFTCollection { id: u64_to_dec_string(id), nft_collection };
        let copy = doc.clone();
        self.collections.push(doc);
        proof {
            assert(self@.collections =~= old(self)@.collections.push(copy@));
            assert(self@ =~= spec_collection_added(old(self)@, id, nft_collection@));
        }
        copy
    }

    /// Inserts the item document for an item-added event: unlisted, without
    /// metadata.
    pub fn apply_item_added(
        &mut self,
        item_id: u64,
        nft_contract: Addr,
        token_id: u64,
        owner: Addr,
    )
        requires
            old(self).wf(),
            !has_item_id(old(self)@.items, item_id),
        ensures
            final(self).wf(),
            final(self)@ == spec_item_added(
                old(self)@,
                item_id,
                nft_contract@,
                token_id,
                owner@,
            ),
    {
        let doc = Item {
            item_id,
            nft_contract,
            token_id,
            owner,
            price: 0,
            name: None,
            description: None,
            image: None,
        };
        self.items.push(doc);
        proof {
            assert(self@.items =~= old(self)@.items.push(
                ItemV {
                    item_id,
                    nft_contract: nft_contract@,
                    token_id,
                    owner: owner@,
                    price: 0,
                    name: None,
                    description: None,
                    image: None,
                },
            ));
            assert(self@ =~= spec_item_added(old(self)@, item_id, nft_contract@, token_id, owner@));
            assert forall|i: int, j: int| 0 <= i < j < self@.items.len() implies self@.items[i].item_id
                != self@.items[j].item_id by {
                if j < self@.items.len() - 1 {
                    assert(self@.items[i] == old(self)@.items[i]);
                    assert(self@.items[j] == old(self)@.items[j]);
                } else {
                    assert(self@.items[i] == old(self)@.items[i]);
                    assert(!(old(self)@.items[i].item_id == item_id));
                }
            }
        }
    }

    /// Sets the price of the item named by a listing event and removes every
    /// offer recorded for it: a direct-sale listing invalidates them.
    pub fn apply_item_listed(&mut self, item_id: u64, price: u64)
        requires
            old(self).wf(),
        ensures
            final(self).wf(),
            final(self)@ == spec_item_listed(old(self)@, item_id, price),
    {
        let n = self.items.len();
        let mut i: usize = 0;
        while i < n
            invariant
                n == self.items@.len(),
                self.items@.len() == old(self).items@.len(),
                i <= n,
                self.collections@ == old(self).collections@,
                self.offers@ == old(self).offers@,
                forall|k: int| i <= k < n ==> self.items@[k] == old(self).items@[k],
                forall|k: int|
                    0 <= k < i ==> items_v(self.items@)[k] == items_with_price(
                        items_v(old(self).items@),
                        item_id,
                        price,
                    )[k],
            decreases n - i,
        {
            let ghost prev_items = self.items@;
            if self.items[i].item_id == item_id {
                self.items[i].price = price;
            }
            proof {
                assert forall|k: int| 0 <= k < i + 1 implies items_v(self.items@)[k]
                    == items_with_price(items_v(old(self).items@), item_id, price)[k] by {
                    if k < i as int {
                        assert(self.items@[k] == prev_items[k]);
                        assert(items_v(prev_items)[k] == items_with_price(
                            items_v(old(self).items@),
                            item_id,
                            price,
                        )[k]);
                    } else {
                        assert(prev_items[i as int] == old(self).items@[i as int]);
                        assert(items_v(self.items@)[k] =~= items_with_price(
                            items_v(old(self).items@),
                            item_id,
                            price,
                        )[k]);
                    }
                }
            }
            i += 1;
        }
        proof {
            assert(items_v(self.items@) =~= items_with_price(
                items_v(old(self).items@),
                item_id,
                price,
            ));
        }
        delete_offers_for_item(&mut self.offers, item_id);
        proof {
            assert(self@ =~= spec_item_listed(old(self)@, item_id, price));
            lemma_filter_unique(offers_v(old(self).offers@), other_item_pred(item_id));
            lemma_items_unique_same_ids(old(self)@.items, self@.items);
        }
    }

    /// Hands the item named by a sale event to the buyer and takes it off
    /// the listing.
    pub fn apply_item_sold(&mut self, item_id: u64, buyer: Addr)
        requires
            old(self).wf(),
        ensures
            final(self).wf(),
            final(self)@ == spec_item_sold(old(self)@, item_id, buyer@),
    {
        let n = self.items.len();
        let mut i: usize = 0;
        while i < n
            invariant
                n == self.items@.len(),
                self.items@.len() == old(self).items@.len(),
                i <= n,
                self.collections@ == old(self).collections@,
                self.offers@ == old(self).offers@,
                forall|k: int| i <= k < n ==> self.items@[k] == old(self).items@[k],
                forall|k: int|
                    0 <= k < i ==> items_v(self.items@)[k] == items_with_owner_price(
                        items_v(old(self).items@),
                        item_id,
                        buyer@,
                        0,
                    )[k],
            decreases n - i,
        {
            let ghost prev_items = self.items@;
            if self.items[i].item_id == item_id {
                self.items[i].owner = buyer;
                self.items[i].price = 0;
            }
            proof {
                assert forall|k: int| 0 <= k < i + 1 implies items_v(self.items@)[k]
                    == items_with_owner_price(items_v(old(self).items@), item_id, buyer@, 0)[k] by {
                    if k < i as int {
                        assert(self.items@[k] == prev_items[k]);
                        assert(items_v(prev_items)[k] == items_with_owner_price(
                            items_v(old(self).items@),
                            item_id,
                            buyer@,
                            0,
                        )[k]);
                    } else {
                        assert(prev_items[i as int] == old(self).items@[i as int]);
                        assert(items_v(self.items@)[k] =~= items_with_owner_price(
                            items_v(old(self).items@),
                            item_id,
                            buyer@,
                            0,
                        )[k]);
                    }
                }
            }
            i += 1;
        }
        proof {
            assert(items_v(self.items@) =~= items_with_owner_price(
                items_v(old(self).items@),
                item_id,
                buyer@,
                0,
            ));
            assert(self@ =~= spec_item_sold(old(self)@, item_id, buyer@));
            lemma_items_unique_same_ids(old(self)@.items, self@.items);
        }
    }

    /// Hands the item named by a claim event to the claimer and removes
    /// every offer recorded for it: a claim invalidates them.
    pub fn apply_item_claimed(&mut self, item_id: u64, claimer: Addr)
        requires
            old(self).wf(),
        ensures
            final(self).wf(),
            final(self)@ == spec_item_claimed(old(self)@, item_id, claimer@),
    {
        let n = self.items.len();
        let mut i: usize = 0;
        while i < n
            invariant
                n == self.items@.len(),
                self.items@.len() == old(self).items@.len(),
                i <= n,
                self.collections@ == old(self).collections@,
                self.offers@ == old(self).offers@,
                forall|k: int| i <= k < n ==> self.items@[k] == old(self).items@[k],
                forall|k: int|
                    0 <= k < i ==> items_v(self.items@)[k] == items_with_owner(
                        items_v(old(self).items@),
                        item_id,
                        claimer@,
                    )[k],
            decreases n - i,
        {
            let ghost prev_items = self.items@;
            if self.items[i].item_id == item_id {
                self.items[i].owner = claimer;
            }
            proof {
                assert forall|k: int| 0 <= k < i + 1 implies items_v(self.items@)[k]
                    == items_with_owner(items_v(old(self).items@), item_id, claimer@)[k] by {
                    if k < i as int {
                        assert(self.items@[k] == prev_items[k]);
                        assert(items_v(prev_items)[k] == items_with_owner(
                            items_v(old(self).items@),
                            item_id,
                            claimer@,
                        )[k]);
                    } else {
                        assert(prev_items[i as int] == old(self).items@[i as int]);
                        assert(items_v(self.items@)[k] =~= items_with_owner(
                            items_v(old(self).items@),
                            item_id,
                            claimer@,
                        )[k]);
                    }
                }
            }
            i += 1;
        }
        proof {
            assert(items_v(self.items@) =~= items_with_owner(
                items_v(old(self).items@),
                item_id,
                claimer@,
            ));
        }
        delete_offers_for_item(&mut self.offers, item_id);
        proof {
            assert(self@ =~= spec_item_claimed(old(self)@, item_id, claimer@));
            lemma_filter_unique(offers_v(old(self).offers@), other_item_pred(item_id));
            lemma_items_unique_same_ids(old(self)@.items, self@.items);
        }
    }

    /// The position of some offer document carrying exactly this key.
    fn find_offer_key(&self, item_id: u64, offerer: &Addr, seller: &Addr) -> (r: Option<usize>)
        ensures
            match r {
                Some(i) => i < self@.offers.len() && offer_key_match(
                    self@.offers[i as int],
                    item_id,
                    offerer@,
                    seller@,
                ),
                None => !has_offer_key(self@.offers, item_id, offerer@, seller@),
            },
    {
        let mut i: usize = 0;
        while i < self.offers.len()
            invariant
                i <= self.offers@.len(),
                forall|j: int|
                    0 <= j < i ==> !offer_key_match(
                        offers_v(self.offers@)[j],
                        item_id,
                        offerer@,
                        seller@,
                    ),
            decreases self.offers@.len() - i,
        {
            if self.offers[i].item_id == item_id && self.offers[i].offerer.eq_addr(offerer)
                && self.offers[i].seller.eq_addr(seller) {
                return Some(i);
            }
            i += 1;
        }
        None
    }

    /// The position of the first offer document for this (item, offerer)
    /// pair.
    fn find_offer_pair(&self, item_id: u64, offerer: &Addr) -> (r: Option<usize>)
        ensures
            match r {
                Some(i) => i < self@.offers.len() && offer_pair_match(
                    self@.offers[i as int],
                    item_id,
                    offerer@,
                ) && forall|j: int|
                    0 <= j < i ==> !offer_pair_match(self@.offers[j], item_id, offerer@),
                None => !has_offer_pair(self@.offers, item_id, offerer@),
            },
    {
        let mut i: usize = 0;
        while i < self.offers.len()
            invariant
                i <= self.offers@.len(),
                forall|j: int|
                    0 <= j < i ==> !offer_pair_match(offers_v(self.offers@)[j], item_id, offerer@),
            decreases self.offers@.len() - i,
        {
            if self.offers[i].item_id == item_id && self.offers[i].offerer.eq_addr(offerer) {
                return Some(i);
            }
            i += 1;
        }
        None
    }

    /// Records a placed offer. The document recorded under the same
    /// (item, offerer, seller) key is updated to the new price and marked
    /// not accepted; with none recorded, a fresh document is inserted.
    /// Returns whether a fresh document was inserted.
    pub fn apply_offer_placed(
        &mut self,
        item_id: u64,
        offerer: Addr,
        seller: Addr,
        price: u64,
    ) -> (inserted: bool)
        requires
            old(self).wf(),
        ensures
            final(self).wf(),
            final(self)@ == spec_offer_placed(old(self)@, item_id, offerer@, seller@, price),
            inserted == !has_offer_key(old(self)@.offers, item_id, offerer@, seller@),
    {
        match self.find_offer_key(item_id, &offerer, &seller) {
            Some(i) => {
                proof {
                    assert(has_offer_key(old(self)@.offers, item_id, offerer@, seller@));
                }
                self.offers[i].price = price;
                self.offers[i].is_accepted = false;
                proof {
                    let m0 = old(self)@;
                    assert forall|k: int|
                        0 <= k < m0.offers.len() && k != i as int implies !offer_key_match(
                        m0.offers[k],
                        item_id,
                        offerer@,
                        seller@,
                    ) by {
                        if offer_key_match(m0.offers[k], item_id, offerer@, seller@) {
                            if k < i as int {
                                assert(!(m0.offers[k].item_id == m0.offers[i as int].item_id
                                    && m0.offers[k].offerer == m0.offers[i as int].offerer
                                    && m0.offers[k].seller == m0.offers[i as int].seller));
                            } else {
                                assert(!(m0.offers[i as int].item_id == m0.offers[k].item_id
                                    && m0.offers[i as int].offerer == m0.offers[k].offerer
                                    && m0.offers[i as int].seller == m0.offers[k].seller));
                            }
                        }
                    }
                    assert(self@.offers =~= Seq::new(
                        m0.offers.len(),
                        |k: int|
                            if offer_key_match(m0.offers[k], item_id, offerer@, seller@) {
                                OfferV { price, is_accepted: false, ..m0.offers[k] }
                            } else {
                                m0.offers[k]
                            },
                    ));
                    assert(self@ =~= spec_offer_placed(m0, item_id, offerer@, seller@, price));
                    lemma_unique_same_keys(m0.offers, self@.offers);
                }
                false
            },
            None => {
                self.offers.push(Offer { item_id, offerer, seller, price, is_accepted: false });
                proof {
                    let m0 = old(self)@;
                    let doc = OfferV {
                        item_id,
                        offerer: offerer@,
                        seller: seller@,
                        price,
                        is_accepted: false,
                    };
                    assert(self@.offers =~= m0.offers.push(doc));
                    assert(self@ =~= spec_offer_placed(m0, item_id, offerer@, seller@, price));
                    assert forall|a: int, b: int|
                        0 <= a < b < self@.offers.len() implies !(self@.offers[a].item_id
                        == self@.offers[b].item_id && self@.offers[a].offerer
                        == self@.offers[b].offerer && self@.offers[a].seller
                        == self@.offers[b].seller) by {
                        if b == self@.offers.len() - 1 {
                            assert(self@.offers[a] == m0.offers[a]);
                            assert(!offer_key_match(m0.offers[a], item_id, offerer@, seller@));
                        } else {
                            assert(self@.offers[a] == m0.offers[a]);
                            assert(self@.offers[b] == m0.offers[b]);
                        }
                    }
                }
                true
            },
        }
    }

    /// Marks the first offer recorded for this (item, offerer) pair as
    /// accepted. An accept event for a pair the mirror never recorded
    /// changes nothing. Returns whether a document was updated.
    pub fn apply_offer_accepted(&mut self, item_id: u64, offerer: Addr) -> (updated: bool)
        requires
            old(self).wf(),
        ensures
            final(self).wf(),
            final(self)@ == spec_offer_accepted(old(self)@, item_id, offerer@),
            updated == has_offer_pair(old(self)@.offers, item_id, offerer@),
    {
        match self.find_offer_pair(item_id, &offerer) {
            Some(i) => {
                proof {
                    let m0 = old(self)@;
                    assert(has_offer_pair(m0.offers, item_id, offerer@));
                    lemma_first_pair_idx(m0.offers, item_id, offerer@);
                    let f = first_pair_idx(m0.offers, item_id, offerer@);
                    if f < i as int {
                        assert(!offer_pair_match(m0.offers[f], item_id, offerer@));
                        assert(false);
                    }
                    if f > i as int {
                        assert(!offer_pair_match(m0.offers[i as int], item_id, offerer@));
                        assert(false);
                    }
                }
                self.offers[i].is_accepted = true;
                proof {
                    let m0 = old(self)@;
                    assert(self@.offers =~= m0.offers.update(
                        i as int,
                        OfferV { is_accepted: true, ..m0.offers[i as int] },
                    ));
                    assert(self@ =~= spec_offer_accepted(m0, item_id, offerer@));
                    lemma_unique_same_keys(m0.offers, self@.offers);
                }
                true
            },
            None => {
                proof {
                    assert(self@ =~= spec_offer_accepted(old(self)@, item_id, offerer@));
                }
                false
            },
        }
    }
}

/// Removes every offer document recorded for one item, keeping the others
/// in order.
fn delete_offers_for_item(offers: &mut Vec<Offer>, item_id: u64)
    ensures
        offers_v(final(offers)@) == offers_v(old(offers)@).filter(other_item_pred(item_id)),
{
    let mut out: Vec<Offer> = Vec::new();
    let mut i: usize = 0;
    while i < offers.len()
        invariant
            offers@ == old(offers)@,
            i <= offers@.len(),
            offers_v(out@) =~= offers_v(offers@).take(i as int).filter(other_item_pred(item_id)),
        decreases offers@.len() - i,
    {
        let ghost tk = offers_v(offers@).take(i as int);
        let ghost elem = offers_v(offers@)[i as int];
        let keep = offers[i].item_id != item_id;
        if keep {
            let o = offers[i];
            out.push(o);
        }
        proof {
            tk.lemma_filter_push(elem, other_item_pred(item_id));
            assert(offers_v(offers@).take(i as int + 1) =~= tk.push(elem));
            assert(offers_v(out@) =~= offers_v(offers@).take(i as int + 1).filter(
                other_item_pred(item_id),
            ));
        }
        i += 1;
    }
    proof {
        assert(offers_v(offers@).take(offers@.len() as int) =~= offers_v(offers@));
    }
    *offers = out;
}

} // verus!
