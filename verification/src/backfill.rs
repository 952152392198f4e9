use vstd::prelude::*;

use crate::mirror::{collections_v, items_unique, items_v, offers_unique, offers_v, Mirror};
use crate::models::{dec_chars, u64_to_dec_string, Addr, CollectionV, Item, ItemV, NFTCollection, Offer, OfferV};

verus! {

/// Why a backfill run is abandoned: a slot read came back failed, and the
/// run is all-or-nothing.
#[derive(Clone, Copy, Debug, PartialEq, Eq, Structural)]
pub enum BackfillError {
    FailedSlot,
}

/// One fetched item slot, as the chain stores it.
#[derive(Clone, Copy)]
pub struct ItemSlot {
    pub item_id: u64,
    pub nft_contract: Addr,
    pub token_id: u64,
    pub owner: Addr,
    pub price: u64,
}

/// One fetched offer record: the stored tuple, together with the offerer
/// it was read under.
#[derive(Clone, Copy)]
pub struct OfferSlot {
    pub item_id: u64,
    pub nft_contract: Addr,
    pub token_id: u64,
    pub offerer: Addr,
    pub seller: Addr,
    pub price: u64,
    pub is_accepted: bool,
}

/// The item document a fetched slot turns into: listed as stored, without
/// metadata.
pub open spec fn item_of_slot(s: ItemSlot) -> ItemV {
    ItemV {
        item_id: s.item_id,
        nft_contract: s.nft_contract@,
        token_id: s.token_id,
        owner: s.owner@,
        price: s.price,
        name: None,
        description: None,
        image: None,
    }
}

/// The offer document a fetched record turns into; the asset fields are
/// dropped, the mirror keys offers by (item, offerer, seller).
pub open spec fn offer_of_slot(s: OfferSlot) -> OfferV {
    OfferV {
        item_id: s.item_id,
        offerer: s.offerer@,
        seller: s.seller@,
        price: s.price,
        is_accepted: s.is_accepted,
    }
}

/// Builds the collection documents from the fetched slots; slot `i` holds
/// chain index `i + 1`, rendered in decimal. A single failed read aborts
/// the whole run: no document comes out of a partial fetch.
pub fn build_collections(fetched: &Vec<Option<Addr>>) -> (r: Result<
    Vec<NFTCollection>,
    BackfillError,
>)
    ensures
        r is Ok <==> (forall|i: int| 0 <= i < fetched@.len() ==> fetched@[i] is Some),
        r matches Ok(out) ==> out@.len() == fetched@.len() && forall|i: int| #![trigger out@[i]]
            0 <= i < fetched@.len() ==> (fetched@[i] matches Some(a) && out@[i]@ == (CollectionV {
                id: dec_chars((i + 1) as nat),
                nft_collection: a@,
            })),
{
    let n = fetched.len();
    let mut out: Vec<NFTCollection> = Vec::new();
    let mut i: usize = 0;
    while i < n
        invariant
            n == fetched@.len(),
            i <= n,
            out@.len() == i,
            forall|j: int| 0 <= j < i ==> fetched@[j] is Some,
            forall|j: int| #![trigger out@[j]]
                0 <= j < i ==> (fetched@[j] matches Some(a) && out@[j]@ == (CollectionV {
                    id: dec_chars((j + 1) as nat),
                    nft_collection: a@,
                })),
        decreases n - i,
    {
        match fetched[i] {
            Some(a) => {
                let idx = (i + 1) as u64;
                out.push(NFTCollection { id: u64_to_dec_string(idx), nft_collection: a });
            },
            None => {
                proof {
                    assert(!(fetched@[i as int] is Some));
                }
                return Err(BackfillError::FailedSlot);
            },
        }
        i += 1;
    }
    Ok(out)
}

/// Builds the item documents from the fetched slots. A single failed read
/// aborts the whole run: no document comes out of a partial fetch.
pub fn build_items(fetched: &Vec<Option<ItemSlot>>) -> (r: Result<Vec<Item>, BackfillError>)
    ensures
        r is Ok <==> (forall|i: int| 0 <= i < fetched@.len() ==> fetched@[i] is Some),
        r matches Ok(out) ==> out@.len() == fetched@.len() && forall|i: int| #![trigger out@[i]]
            0 <= i < fetched@.len() ==> (fetched@[i] matches Some(s) && out@[i]@ == item_of_slot(
                s,
            )),
{
    let n = fetched.len();
    let mut out: Vec<Item> = Vec::new();
    let mut i: usize = 0;
    while i < n
        invariant
            n == fetched@.len(),
            i <= n,
            out@.len() == i,
            forall|j: int| 0 <= j < i ==> fetched@[j] is Some,
            forall|j: int| #![trigger out@[j]]
                0 <= j < i ==> (fetched@[j] matches Some(s) && out@[j]@ == item_of_slot(s)),
        decreases n - i,
    {
        match fetched[i] {
            Some(s) => {
                out.push(
                    Item {
                        item_id: s.item_id,
                        nft_contract: s.nft_contract,
                        token_id: s.token_id,
                        owner: s.owner,
                        price: s.price,
                        name: None,
                        description: None,
                        image: None,
                    },
                );
            },
            None => {
                proof {
                    assert(!(fetched@[i as int] is Some));
                }
                return Err(BackfillError::FailedSlot);
            },
        }
        i += 1;
    }
    Ok(out)
}

/// Builds the offer documents of one item from the fetched records. A
/// single failed read aborts the whole run.
pub fn build_offers(fetched: &Vec<Option<OfferSlot>>) -> (r: Result<Vec<Offer>, BackfillError>)
    ensures
        r is Ok <==> (forall|i: int| 0 <= i < fetched@.len() ==> fetched@[i] is Some),
        r matches Ok(out) ==> out@.len() == fetched@.len() && forall|i: int| #![trigger out@[i]]
            0 <= i < fetched@.len() ==> (fetched@[i] matches Some(s) && out@[i]@ == offer_of_slot(
                s,
            )),
{
    let n = fetched.len();
    let mut out: Vec<Offer> = Vec::new();
    let mut i: usize = 0;
    while i < n
        invariant
            n == fetched@.len(),
            i <= n,
            out@.len() == i,
            forall|j: int| 0 <= j < i ==> fetched@[j] is Some,
            forall|j: int| #![trigger out@[j]]
                0 <= j < i ==> (fetched@[j] matches Some(s) && out@[j]@ == offer_of_slot(s)),
        decreases n - i,
    {
        match fetched[i] {
            Some(s) => {
                out.push(
                    Offer {
                        item_id: s.item_id,
                        offerer: s.offerer,
                        seller: s.seller,
                        price: s.price,
                        is_accepted: s.is_accepted,
                    },
                );
            },
            None => {
                proof {
                    assert(!(fetched@[i as int] is Some));
                }
                return Err(BackfillError::FailedSlot);
            },
        }
        i += 1;
    }
    Ok(out)
}

/// Whether some address in the list holds these bytes.
pub open spec fn contains_addr(s: Seq<Addr>, a: Seq<u8>) -> bool {
    exists|i: int| 0 <= i < s.len() && #[trigger] s[i]@ == a
}

/// Appending never loses an address already in the list.
proof fn lemma_contains_push(s: Seq<Addr>, c: Addr, a: Seq<u8>)
    requires
        contains_addr(s, a),
    ensures
        contains_addr(s.push(c), a),
{
    let w = choose|i: int| 0 <= i < s.len() && #[trigger] s[i]@ == a;
    assert(s.push(c)[w]@ == a);
}

/// The distinct offerer addresses of one item, first occurrence first: the
/// chain may report an address more than once, the offer record is read
/// once per address.
pub fn unique_offerers(offerers: &Vec<Addr>) -> (r: Vec<Addr>)
    ensures
        forall|i: int, j: int| 0 <= i < j < r@.len() ==> r@[i]@ != r@[j]@,
        forall|i: int| 0 <= i < r@.len() ==> contains_addr(offerers@, #[trigger] r@[i]@),
        forall|j: int| 0 <= j < offerers@.len() ==> contains_addr(r@, #[trigger] offerers@[j]@),
{
    let mut out: Vec<Addr> = Vec::new();
    let mut i: usize = 0;
    while i < offerers.len()
        invariant
            i <= offerers@.len(),
            forall|a: int, b: int| 0 <= a < b < out@.len() ==> out@[a]@ != out@[b]@,
            forall|a: int| 0 <= a < out@.len() ==> contains_addr(offerers@, #[trigger] out@[a]@),
            forall|j: int| 0 <= j < i ==> contains_addr(out@, #[trigger] offerers@[j]@),
        decreases offerers@.len() - i,
    {
        let candidate = offerers[i];
        let mut dup = false;
        let mut k: usize = 0;
        while k < out.len()
            invariant
                k <= out@.len(),
                dup ==> contains_addr(out@, candidate@),
                !dup ==> forall|t: int| 0 <= t < k ==> out@[t]@ != candidate@,
            decreases out@.len() - k,
        {
            if out[k].eq_addr(&candidate) {
                proof {
                    assert(out@[k as int]@ == candidate@);
                }
                dup = true;
            }
            k += 1;
        }
        let ghost prev_out = out@;
        if !dup {
            out.push(candidate);
        }
        proof {
            if !dup {
                assert forall|a: int, b: int| 0 <= a < b < out@.len() implies out@[a]@
                    != out@[b]@ by {
                    if b < prev_out.len() {
                        assert(out@[a] == prev_out[a] && out@[b] == prev_out[b]);
                    } else {
                        assert(out@[b] == candidate);
                        assert(out@[a] == prev_out[a]);
                    }
                }
                assert forall|a: int| 0 <= a < out@.len() implies contains_addr(
                    offerers@,
                    #[trigger] out@[a]@,
                ) by {
                    if a < prev_out.len() {
                        assert(out@[a] == prev_out[a]);
                    } else {
                        assert(out@[a]@ == offerers@[i as int]@);
                    }
                }
                assert forall|j: int| 0 <= j < i + 1 implies contains_addr(
                    out@,
                    #[trigger] offerers@[j]@,
                ) by {
                    if j < i {
                        lemma_contains_push(prev_out, candidate, offerers@[j]@);
                    } else {
                        assert(out@[prev_out.len() as int]@ == offerers@[j]@);
                    }
                }
            } else {
                assert forall|j: int| 0 <= j < i + 1 implies contains_addr(
                    out@,
                    #[trigger] offerers@[j]@,
                ) by {
                    if j == i {
                        assert(contains_addr(out@, candidate@));
                    }
                }
            }
        }
        i += 1;
    }
    out
}

/// The offer documents of a list of per-item offer lists, in order, the
/// lists laid end to end.
pub open spec fn flat_offers(lists: Seq<Vec<Offer>>) -> Seq<OfferV>
    decreases lists.len(),
{
    if lists.len() == 0 {
        Seq::empty()
    } else {
        flat_offers(lists.drop_last()) + offers_v(lists.last()@)
    }
}

/// Lays the per-item offer lists end to end for the bulk insert and the
/// mirror seed; an empty per-item list contributes nothing.
pub fn flatten_offers(lists: &Vec<Vec<Offer>>) -> (r: Vec<Offer>)
    ensures
        offers_v(r@) == flat_offers(lists@),
{
    let mut out: Vec<Offer> = Vec::new();
    let mut i: usize = 0;
    while i < lists.len()
        invariant
            i <= lists@.len(),
            offers_v(out@) =~= flat_offers(lists@.take(i as int)),
        decreases lists@.len() - i,
    {
        let inner = &lists[i];
        let mut j: usize = 0;
        while j < inner.len()
            invariant
                j <= inner@.len(),
                i < lists@.len(),
                inner@ == lists@[i as int]@,
                offers_v(out@) =~= flat_offers(lists@.take(i as int)) + offers_v(
                    inner@.take(j as int),
                ),
            decreases inner@.len() - j,
        {
            let ghost prev_out = out@;
            out.push(inner[j]);
            proof {
                assert(offers_v(out@) =~= offers_v(prev_out).push(inner@[j as int]@));
                assert(offers_v(inner@.take(j as int + 1)) =~= offers_v(inner@.take(j as int)).push(
                    inner@[j as int]@,
                ));
                assert(offers_v(out@) =~= flat_offers(lists@.take(i as int)) + offers_v(
                    inner@.take(j as int + 1),
                ));
            }
            j += 1;
        }
        proof {
            assert(lists@.take(i as int + 1).drop_last() =~= lists@.take(i as int));
            assert(inner@.take(inner@.len() as int) =~= inner@);
            assert(offers_v(out@) =~= flat_offers(lists@.take(i as int + 1)));
        }
        i += 1;
    }
    proof {
        assert(lists@.take(lists@.len() as int) =~= lists@);
    }
    out
}

/// Whether every item document carries its own identifier.
fn check_items_unique(items: &Vec<Item>) -> (r: bool)
    ensures
        r == items_unique(items_v(items@)),
{
    let n = items.len();
    let mut i: usize = 0;
    while i < n
        invariant
            n == items@.len(),
            i <= n,
            forall|a: int, b: int|
                0 <= a < b < n && a < i ==> items_v(items@)[a].item_id != items_v(
                    items@,
                )[b].item_id,
        decreases n - i,
    {
        let mut j: usize = i + 1;
        while j < n
            invariant
                n == items@.len(),
                i < j <= n,
                forall|b: int|
                    i < b < j ==> items_v(items@)[i as int].item_id != items_v(
                        items@,
                    )[b].item_id,
            decreases n - j,
        {
            if items[i].item_id == items[j].item_id {
                proof {
                    assert(items_v(items@)[i as int].item_id == items_v(items@)[j as int].item_id);
                }
                return false;
            }
            j += 1;
        }
        i += 1;
    }
    true
}

/// Whether no two offer documents share a (item, offerer, seller) key.
fn check_offers_unique(offers: &Vec<Offer>) -> (r: bool)
    ensures
        r == offers_unique(offers_v(offers@)),
{
    let n = offers.len();
    let mut i: usize = 0;
    while i < n
        invariant
            n == offers@.len(),
            i <= n,
            forall|a: int, b: int|
                0 <= a < b < n && a < i ==> !(offers_v(offers@)[a].item_id == offers_v(
                    offers@,
                )[b].item_id && offers_v(offers@)[a].offerer == offers_v(offers@)[b].offerer
                    && offers_v(offers@)[a].seller == offers_v(offers@)[b].seller),
        decreases n - i,
    {
        let mut j: usize = i + 1;
        while j < n
            invariant
                n == offers@.len(),
                i < j <= n,
                forall|b: int|
                    i < b < j ==> !(offers_v(offers@)[i as int].item_id == offers_v(
                        offers@,
                    )[b].item_id && offers_v(offers@)[i as int].offerer == offers_v(
                        offers@,
                    )[b].offerer && offers_v(offers@)[i as int].seller == offers_v(
                        offers@,
                    )[b].seller),
            decreases n - j,
        {
            if offers[i].item_id == offers[j].item_id && offers[i].offerer.eq_addr(
                &offers[j].offerer,
            ) && offers[i].seller.eq_addr(&offers[j].seller) {
                proof {
                    assert(offers_v(offers@)[i as int].item_id == offers_v(offers@)[j as int].item_id
                        && offers_v(offers@)[i as int].offerer == offers_v(offers@)[j as int].offerer
                        && offers_v(offers@)[i as int].seller == offers_v(offers@)[j as int].seller);
                }
                return false;
            }
            j += 1;
        }
        i += 1;
    }
    true
}

/// Seeds the reconciler's mirror from the backfill documents, after
/// checking the uniqueness the reconciler relies on; documents that repeat
/// an item identifier or an offer key are refused.
pub fn mirror_from_parts(
    collections: Vec<NFTCollection>,
    items: Vec<Item>,
    offers: Vec<Offer>,
) -> (r: Option<Mirror>)
    ensures
        r is Some <==> items_unique(items_v(items@)) && offers_unique(offers_v(offers@)),
        r matches Some(m) ==> m.wf() && m@.collections == collections_v(collections@)
            && m@.items == items_v(items@) && m@.offers == offers_v(offers@),
{
    if !check_items_unique(&items) {
        return None;
    }
    if !check_offers_unique(&offers) {
        return None;
    }
    Some(Mirror { collections, items, offers })
}

} // verus!
