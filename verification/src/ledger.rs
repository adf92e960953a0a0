//! The product ledger: the canonical catalog of products and the purchase
//! state transition.
//!
//! The catalog is the single source of truth; the by-owner and by-shop
//! indexes are derived views over it (filters of the catalog sequence), so a
//! mutation of a record is visible through every index without re-insertion.
//! A purchase commits atomically: every precondition is checked before the
//! first mutation, so a failed purchase leaves the catalog untouched.

use vstd::prelude::*;
use vstd::relations::injective_on;
use vstd::set_lib::lemma_int_range;
use vstd::set_lib::lemma_len_subset;
use vstd::set_lib::lemma_map_size;
use vstd::set_lib::set_int_range;

use crate::errors::MarketError;
use crate::ids::lemma_holding_id_injective;
use crate::ids::spec_holding_id;
use crate::ids::holding_id;
use crate::records::ProductRecord;
use crate::records::Settlement;
use crate::records::SpecProduct;
use crate::records::SpecSettlement;

verus! {

broadcast use
    vstd::seq_lib::group_filter_ensures,
    Seq::lemma_filter_push,
    Seq::lemma_filter_contains_rev,
;

/// Whether some record of `cat` carries the id `id`.
pub open spec fn spec_contains_id(cat: Seq<SpecProduct>, id: Seq<char>) -> bool {
    exists|i: int| 0 <= i < cat.len() && cat[i].id == id
}

/// The index of the record of `cat` with id `id`; meaningful when the id is
/// present and the ids of `cat` are unique.
pub open spec fn spec_index_of(cat: Seq<SpecProduct>, id: Seq<char>) -> int {
    choose|i: int| 0 <= i < cat.len() && cat[i].id == id
}

/// No two records of `cat` share an id.
pub open spec fn spec_unique_ids(cat: Seq<SpecProduct>) -> bool {
    forall|i: int, j: int| 0 <= i < j < cat.len() ==> cat[i].id != cat[j].id
}

/// The by-owner index: the records of `cat` owned by `owner`, in catalog
/// order. A derived view, never stored.
pub open spec fn spec_products_of_owner(cat: Seq<SpecProduct>, owner: Seq<char>) -> Seq<
    SpecProduct,
> {
    cat.filter(|p: SpecProduct| p.owner == owner)
}

/// The by-shop index: the listings of `cat` under shop `shop`, in catalog
/// order. A derived view, never stored. Holdings (`shop_id` absent) never
/// appear in it.
pub open spec fn spec_listings_of_shop(cat: Seq<SpecProduct>, shop: Seq<char>) -> Seq<
    SpecProduct,
> {
    cat.filter(|p: SpecProduct| p.shop_id == Some(shop))
}

/// The least counter at or above `k` whose holding id for `base` is absent
/// from `cat`; `cat.len()` bounds the search, which is enough because among
/// `cat.len() + 1` distinct candidates one must be free.
pub open spec fn spec_free_counter_from(cat: Seq<SpecProduct>, base: Seq<char>, k: int) -> int
    decreases cat.len() + 1 - k,
{
    if k >= cat.len() || !spec_contains_id(cat, spec_holding_id(base, k)) {
        k
    } else {
        spec_free_counter_from(cat, base, k + 1)
    }
}

/// The counter a purchase of the product `base` mints its holding id from:
/// the least counter whose holding id is absent from `cat`.
pub open spec fn spec_free_counter(cat: Seq<SpecProduct>, base: Seq<char>) -> int {
    spec_free_counter_from(cat, base, 0)
}

/// The record a successful `list_product` call appends to the catalog.
pub open spec fn spec_listing(
    id: Seq<char>,
    name: Seq<char>,
    category: Seq<char>,
    unit_price: u128,
    total_supply: u64,
    owner: Seq<char>,
    shop_id: Option<Seq<char>>,
) -> SpecProduct {
    SpecProduct {
        id: id,
        name: name,
        category: category,
        unit_price: unit_price,
        remaining_supply: total_supply,
        owner: owner,
        shop_id: shop_id,
    }
}

/// What `purchase` returns on the catalog `cat`: the settlement instruction
/// when every precondition holds, else the first failing check's error, in
/// the order not-found, stock, overflow, funds.
pub open spec fn spec_purchase_outcome(
    cat: Seq<SpecProduct>,
    id: Seq<char>,
    quantity: u64,
    buyer: Seq<char>,
    funds: u128,
) -> Result<SpecSettlement, MarketError> {
    if !spec_contains_id(cat, id) {
        Err(MarketError::NotFound)
    } else {
        let p = cat[spec_index_of(cat, id)];
        if p.remaining_supply < quantity {
            Err(MarketError::InsufficientStock)
        } else if p.unit_price * quantity > u128::MAX {
            Err(MarketError::Overflow)
        } else if funds < p.unit_price * quantity {
            Err(MarketError::InsufficientFunds)
        } else {
            Ok(
                SpecSettlement {
                    payer: buyer,
                    payee: p.owner,
                    amount: (p.unit_price * quantity) as u128,
                },
            )
        }
    }
}

/// The catalog a successful `purchase` leaves behind: the sold record's
/// supply decremented in place, and the buyer's holding appended with a
/// fresh id, the bought quantity, and no shop.
pub open spec fn spec_purchase_post(
    cat: Seq<SpecProduct>,
    id: Seq<char>,
    quantity: u64,
    buyer: Seq<char>,
) -> Seq<SpecProduct> {
    let i = spec_index_of(cat, id);
    let p = cat[i];
    let sold = SpecProduct { remaining_supply: (p.remaining_supply - quantity) as u64, ..p };
    let holding = SpecProduct {
        id: spec_holding_id(id, spec_free_counter(cat, id)),
        name: p.name,
        category: p.category,
        unit_price: p.unit_price,
        remaining_supply: quantity,
        owner: buyer,
        shop_id: None,
    };
    cat.update(i, sold).push(holding)
}

/// `purchase`'s result, seen at the specification level.
pub open spec fn spec_result_view(r: Result<Settlement, MarketError>) -> Result<
    SpecSettlement,
    MarketError,
> {
    match r {
        Ok(s) => Ok(s@),
        Err(e) => Err(e),
    }
}

/// An id present in a catalog with unique ids names exactly one index.
pub proof fn lemma_index_of_unique(cat: Seq<SpecProduct>, id: Seq<char>, i: int)
    requires
        spec_unique_ids(cat),
        0 <= i < cat.len(),
        cat[i].id == id,
    ensures
        spec_index_of(cat, id) == i,
{
    assert(spec_contains_id(cat, id));
    let j = spec_index_of(cat, id);
    assert(0 <= j < cat.len() && cat[j].id == id);
}

/// The canonical catalog of products and its derived indexes.
pub struct ProductLedger {
    catalog: Vec<ProductRecord>,
}

impl View for ProductLedger {
    type V = Seq<SpecProduct>;

    closed spec fn view(&self) -> Seq<SpecProduct> {
        self.catalog@.map_values(|p: ProductRecord| p@)
    }
}

impl ProductLedger {
    /// The catalog invariant: ids are globally unique.
    pub open spec fn wf(&self) -> bool {
        spec_unique_ids(self@)
    }

    /// An empty catalog.
    pub fn new() -> (l: ProductLedger)
        ensures
            l.wf(),
            l@ == Seq::<SpecProduct>::empty(),
    {
        let l = ProductLedger { catalog: Vec::new() };
        proof {
            assert(l@ =~= Seq::<SpecProduct>::empty());
        }
        l
    }

    /// The index of the record with id `id`, if one exists.
    fn index_of(&self, id: &String) -> (r: Option<usize>)
        ensures
            r is Some <==> spec_contains_id(self@, id@),
            r matches Some(i) ==> i < self@.len() && self@[i as int].id == id@,
    {
        let n = self.catalog.len();
        let mut i: usize = 0;
        while i < n
            invariant
                i <= n,
                n == self@.len(),
                forall|j: int| 0 <= j < i ==> self@[j].id != id@,
            decreases n - i,
        {
            if self.catalog[i].id == *id {
                return Some(i);
            }
            i += 1;
        }
        None
    }

    /// Whether some record carries the id `id`.
    pub fn contains_id(&self, id: &String) -> (b: bool)
        ensures
            b == spec_contains_id(self@, id@),
    {
        self.index_of(id).is_some()
    }

    /// Resolves a product by id through the canonical store. A pure read:
    /// the result is a function of the catalog and the id alone.
    pub fn get_product(&self, id: &String) -> (r: Option<ProductRecord>)
        requires
            self.wf(),
        ensures
            match r {
                Some(p) => spec_contains_id(self@, id@) && p@ == self@[spec_index_of(self@, id@)],
                None => !spec_contains_id(self@, id@),
            },
    {
        match self.index_of(id) {
            Some(i) => {
                proof {
                    lemma_index_of_unique(self@, id@, i as int);
                }
                Some(self.catalog[i].clone())
            },
            None => None,
        }
    }

    /// The by-owner index, resolved through the canonical store. A pure
    /// read: an owner with no products gets an empty sequence, not an error.
    pub fn get_products_by_owner(&self, owner: &String) -> (r: Vec<ProductRecord>)
        ensures
            r@.map_values(|p: ProductRecord| p@) == spec_products_of_owner(self@, owner@),
    {
        let n = self.catalog.len();
        let mut out: Vec<ProductRecord> = Vec::new();
        let mut i: usize = 0;
        proof {
            assert(out@.map_values(|p: ProductRecord| p@) =~= Seq::<SpecProduct>::empty());
            assert(self@.subrange(0, 0) =~= Seq::<SpecProduct>::empty());
            assert(Seq::<SpecProduct>::empty().filter(|p: SpecProduct| p.owner == owner@)
                =~= Seq::<SpecProduct>::empty());
        }
        while i < n
            invariant
                i <= n,
                n == self@.len(),
                out@.map_values(|p: ProductRecord| p@) == spec_products_of_owner(
                    self@.subrange(0, i as int),
                    owner@,
                ),
            decreases n - i,
        {
            let ghost prefix = self@.subrange(0, i as int);
            if self.catalog[i].owner == *owner {
                out.push(self.catalog[i].clone());
            }
            proof {
                assert(self@.subrange(0, i + 1) =~= prefix.push(self@[i as int]));
                if self@[i as int].owner == owner@ {
                    assert(out@.map_values(|p: ProductRecord| p@) =~= spec_products_of_owner(
                        prefix,
                        owner@,
                    ).push(self@[i as int]));
                }
            }
            i += 1;
        }
        proof {
            assert(self@.subrange(0, n as int) =~= self@);
        }
        out
    }

    /// The by-shop index, resolved through the canonical store. A pure read:
    /// a shop with no listings gets an empty sequence, not an error.
    pub fn get_products_by_shop(&self, shop_id: &String) -> (r: Vec<ProductRecord>)
        ensures
            r@.map_values(|p: ProductRecord| p@) == spec_listings_of_shop(self@, shop_id@),
    {
        let n = self.catalog.len();
        let mut out: Vec<ProductRecord> = Vec::new();
        let mut i: usize = 0;
        proof {
            assert(out@.map_values(|p: ProductRecord| p@) =~= Seq::<SpecProduct>::empty());
            assert(self@.subrange(0, 0) =~= Seq::<SpecProduct>::empty());
            assert(Seq::<SpecProduct>::empty().filter(|p: SpecProduct| p.shop_id == Some(shop_id@))
                =~= Seq::<SpecProduct>::empty());
        }
        while i < n
            invariant
                i <= n,
                n == self@.len(),
                out@.map_values(|p: ProductRecord| p@) == spec_listings_of_shop(
                    self@.subrange(0, i as int),
                    shop_id@,
                ),
            decreases n - i,
        {
            let ghost prefix = self@.subrange(0, i as int);
            let matches_shop = match &self.catalog[i].shop_id {
                Some(s) => *s == *shop_id,
                None => false,
            };
            if matches_shop {
                out.push(self.catalog[i].clone());
            }
            proof {
                assert(self@.subrange(0, i + 1) =~= prefix.push(self@[i as int]));
                if self@[i as int].shop_id == Some(shop_id@) {
                    assert(out@.map_values(|p: ProductRecord| p@) =~= spec_listings_of_shop(
                        prefix,
                        shop_id@,
                    ).push(self@[i as int]));
                }
            }
            i += 1;
        }
        proof {
            assert(self@.subrange(0, n as int) =~= self@);
        }
        out
    }

    /// Lists a product against a shop. The id must not collide with any
    /// catalog id, else the call refuses with `DuplicateId` and commits
    /// nothing. The caller is expected to be the shop's registered owner;
    /// that authorization check is the calling shell's responsibility.
    pub fn list_product(
        &mut self,
        shop_id: Option<String>,
        id: String,
        name: String,
        category: String,
        unit_price: u128,
        total_supply: u64,
        owner: String,
    ) -> (r: Result<ProductRecord, MarketError>)
        requires
            old(self).wf(),
            unit_price > 0,
        ensures
            final(self).wf(),
            spec_contains_id(old(self)@, id@) ==> r == Err::<ProductRecord, MarketError>(
                MarketError::DuplicateId,
            ) && final(self)@ == old(self)@,
            !spec_contains_id(old(self)@, id@) ==> {
                let listed = spec_listing(
                    id@,
                    name@,
                    category@,
                    unit_price,
                    total_supply,
                    owner@,
                    match shop_id {
                        Some(s) => Some(s@),
                        None => None,
                    },
                );
                &&& r matches Ok(p) && p@ == listed
                &&& final(self)@ == old(self)@.push(listed)
            },
    {
        if self.contains_id(&id) {
            return Err(MarketError::DuplicateId);
        }
        let rec = ProductRecord {
            id: id,
            name: name,
            category: category,
            unit_price: unit_price,
            remaining_supply: total_supply,
            owner: owner,
            shop_id: shop_id,
        };
        let out = rec.clone();
        let ghost before = self@;
        self.catalog.push(rec);
        proof {
            assert(self@ =~= before.push(out@));
        }
        Ok(out)
    }

    /// A holding id for the product `base` that no catalog record carries:
    /// the one minted from the least free counter. Among `n + 1` candidate
    /// ids over a catalog of `n` records, at least one must be free, so the
    /// bounded search always finds it.
    fn fresh_holding_id(&self, base: &String) -> (r: String)
        requires
            self.wf(),
        ensures
            r@ == spec_holding_id(base@, spec_free_counter(self@, base@)),
            !spec_contains_id(self@, r@),
    {
        let n = self.catalog.len();
        let mut k: usize = 0;
        while k < n
            invariant
                k <= n,
                n == self@.len(),
                self.wf(),
                spec_free_counter(self@, base@) == spec_free_counter_from(self@, base@, k as int),
                forall|j: int| 0 <= j < k ==> spec_contains_id(
                    self@,
                    #[trigger] spec_holding_id(base@, j),
                ),
            decreases n - k,
        {
            let cand = holding_id(base, k);
            if !self.contains_id(&cand) {
                proof {
                    assert(spec_free_counter_from(self@, base@, k as int) == k as int);
                }
                return cand;
            }
            proof {
                assert(spec_free_counter_from(self@, base@, k as int) == spec_free_counter_from(
                    self@,
                    base@,
                    k as int + 1,
                ));
            }
            k += 1;
        }
        let cand = holding_id(base, n);
        proof {
            assert(spec_free_counter_from(self@, base@, n as int) == n as int);
            lemma_candidate_past_len_free(self@, base@);
        }
        cand
    }

    /// The central state transition: buys `quantity` units of the product
    /// `product_id` for `buyer`, whose available funds the external funds
    /// provider reports as `buyer_funds`.
    ///
    /// The checks run in order — resolution, stock, overflow-checked price,
    /// funds — and the first failure returns its error with the catalog
    /// untouched. On success the catalog changes in exactly two places: the
    /// sold record's supply drops by `quantity`, and the buyer's holding is
    /// appended; the returned settlement instruction asks the external
    /// payment collaborator to move the total price from the buyer to the
    /// seller, exactly once.
    pub fn purchase(
        &mut self,
        product_id: &String,
        quantity: u64,
        buyer: &String,
        buyer_funds: u128,
    ) -> (r: Result<Settlement, MarketError>)
        requires
            old(self).wf(),
        ensures
            final(self).wf(),
            spec_result_view(r) == spec_purchase_outcome(
                old(self)@,
                product_id@,
                quantity,
                buyer@,
                buyer_funds,
            ),
            r is Ok ==> final(self)@ == spec_purchase_post(
                old(self)@,
                product_id@,
                quantity,
                buyer@,
            ),
            r is Err ==> final(self)@ == old(self)@,
    {
        let idx = match self.index_of(product_id) {
            None => {
                return Err(MarketError::NotFound);
            },
            Some(i) => i,
        };
        proof {
            lemma_index_of_unique(self@, product_id@, idx as int);
        }
        let supply = self.catalog[idx].remaining_supply;
        if supply < quantity {
            return Err(MarketError::InsufficientStock);
        }
        let price = self.catalog[idx].unit_price;
        let total = match price.checked_mul(quantity as u128) {
            None => {
                return Err(MarketError::Overflow);
            },
            Some(t) => t,
        };
        if buyer_funds < total {
            return Err(MarketError::InsufficientFunds);
        }
        let fresh = self.fresh_holding_id(product_id);
        let seller = self.catalog[idx].owner.clone();
        let name = self.catalog[idx].name.clone();
        let category = self.catalog[idx].category.clone();
        let ghost before = self@;
        self.catalog[idx].remaining_supply = supply - quantity;
        let holding = ProductRecord {
            id: fresh,
            name: name,
            category: category,
            unit_price: price,
            remaining_supply: quantity,
            owner: buyer.clone(),
            shop_id: None,
        };
        let ghost sold = self@[idx as int];
        self.catalog.push(holding);
        proof {
            assert(self@ =~= before.update(idx as int, sold).push(
                SpecProduct {
                    id: spec_holding_id(product_id@, spec_free_counter(before, product_id@)),
                    name: before[idx as int].name,
                    category: before[idx as int].category,
                    unit_price: price,
                    remaining_supply: quantity,
                    owner: buyer@,
                    shop_id: None,
                },
            ));
            assert(self@ =~= spec_purchase_post(before, product_id@, quantity, buyer@));
            assert forall|i: int, j: int| 0 <= i < j < self@.len() implies self@[i].id
                != self@[j].id by {
                if j < self@.len() - 1 {
                    assert(self@[i].id == before[i].id && self@[j].id == before[j].id);
                } else {
                    assert(self@[i].id == before[i].id);
                    assert(!spec_contains_id(before, self@[j].id));
                }
            }
        }
        Ok(Settlement { payer: buyer.clone(), payee: seller, amount: total })
    }
}

/// When every holding id minted from a counter below `cat.len()` collides
/// with a catalog id, the one minted from `cat.len()` itself cannot: the
/// candidates are pairwise distinct and a catalog with unique ids has only
/// `cat.len()` ids to offer.
proof fn lemma_candidate_past_len_free(cat: Seq<SpecProduct>, base: Seq<char>)
    requires
        spec_unique_ids(cat),
        forall|j: int| 0 <= j < cat.len() ==> spec_contains_id(
            cat,
            #[trigger] spec_holding_id(base, j),
        ),
    ensures
        !spec_contains_id(cat, spec_holding_id(base, cat.len() as int)),
{
    if spec_contains_id(cat, spec_holding_id(base, cat.len() as int)) {
        let n = cat.len() as int;
        let ids = cat.map_values(|p: SpecProduct| p.id);
        assert(ids.no_duplicates());
        ids.unique_seq_to_set();
        let idset = ids.to_set();
        let f = |k: int| spec_holding_id(base, k);
        let dom = set_int_range(0, n + 1);
        lemma_int_range(0, n + 1);
        assert(injective_on(f, dom)) by {
            assert forall|k1: int, k2: int|
                dom.contains(k1) && dom.contains(k2) && #[trigger] f(k1) == #[trigger] f(
                    k2,
                ) implies k1 == k2 by {
                lemma_holding_id_injective(base, k1, k2);
            }
        }
        let image = dom.map(f);
        lemma_map_size(dom, image, f);
        assert(image.subset_of(idset)) by {
            assert forall|e: Seq<char>| image.contains(e) implies idset.contains(e) by {
                let k = choose|k: int| dom.contains(k) && e == f(k);
                assert(spec_contains_id(cat, spec_holding_id(base, k)));
                let i = choose|i: int| 0 <= i < cat.len() && cat[i].id == e;
                assert(ids[i] == e);
                assert(ids.contains(e));
            }
        }
        lemma_len_subset(image, idset);
        assert(n + 1 <= n);
    }
}

/// Conservation: the catalog a successful purchase leaves behind holds
/// exactly `quantity` units less on the sold record, a new holding of
/// exactly `quantity` units owned by the buyer and listed in no shop, and
/// every other record untouched.
pub proof fn lemma_purchase_conservation(
    cat: Seq<SpecProduct>,
    id: Seq<char>,
    quantity: u64,
    buyer: Seq<char>,
)
    requires
        spec_contains_id(cat, id),
        cat[spec_index_of(cat, id)].remaining_supply >= quantity,
    ensures
        ({
            let i = spec_index_of(cat, id);
            let post = spec_purchase_post(cat, id, quantity, buyer);
            &&& post.len() == cat.len() + 1
            &&& cat[i].remaining_supply - post[i].remaining_supply == quantity
            &&& post[i] == (SpecProduct {
                remaining_supply: (cat[i].remaining_supply - quantity) as u64,
                ..cat[i]
            })
            &&& post.last() == (SpecProduct {
                id: spec_holding_id(id, spec_free_counter(cat, id)),
                name: cat[i].name,
                category: cat[i].category,
                unit_price: cat[i].unit_price,
                remaining_supply: quantity,
                owner: buyer,
                shop_id: None,
            })
            &&& forall|j: int| 0 <= j < cat.len() && j != i ==> post[j] == cat[j]
        }),
{
}

/// Uniqueness: in a well-formed catalog no two committed records ever share
/// an id, whatever sequence of listings and purchases produced it.
pub proof fn lemma_catalog_ids_unique(cat: Seq<SpecProduct>)
    requires
        spec_unique_ids(cat),
    ensures
        cat.map_values(|p: SpecProduct| p.id).no_duplicates(),
{
}

/// Index consistency: every catalog record appears in its owner's index
/// and, when it is a listing, in its shop's index — and nowhere else: the
/// indexes hold only catalog records, filed under their own owner and shop.
pub proof fn lemma_index_consistency(cat: Seq<SpecProduct>)
    ensures
        forall|i: int| 0 <= i < cat.len() ==> spec_products_of_owner(
            cat,
            cat[i].owner,
        ).contains(#[trigger] cat[i]),
        forall|i: int| 0 <= i < cat.len() && cat[i].shop_id is Some ==> spec_listings_of_shop(
            cat,
            cat[i].shop_id->0,
        ).contains(#[trigger] cat[i]),
        forall|o: Seq<char>, p: SpecProduct| #[trigger] spec_products_of_owner(
            cat,
            o,
        ).contains(p) ==> cat.contains(p) && p.owner == o,
        forall|s: Seq<char>, p: SpecProduct| #[trigger] spec_listings_of_shop(
            cat,
            s,
        ).contains(p) ==> cat.contains(p) && p.shop_id == Some(s),
{
    assert forall|i: int| 0 <= i < cat.len() implies spec_products_of_owner(
        cat,
        cat[i].owner,
    ).contains(#[trigger] cat[i]) by {
        cat.lemma_filter_contains(|p: SpecProduct| p.owner == cat[i].owner, i);
    }
    assert forall|i: int| 0 <= i < cat.len() && cat[i].shop_id is Some implies spec_listings_of_shop(
        cat,
        cat[i].shop_id->0,
    ).contains(#[trigger] cat[i]) by {
        let s = cat[i].shop_id->0;
        cat.lemma_filter_contains(|p: SpecProduct| p.shop_id == Some(s), i);
    }
    assert forall|o: Seq<char>, p: SpecProduct| #[trigger] spec_products_of_owner(
        cat,
        o,
    ).contains(p) implies cat.contains(p) && p.owner == o by {
        let filtered = spec_products_of_owner(cat, o);
        let j = choose|j: int| 0 <= j < filtered.len() && filtered[j] == p;
        assert((|p: SpecProduct| p.owner == o)(filtered[j]));
    }
    assert forall|s: Seq<char>, p: SpecProduct| #[trigger] spec_listings_of_shop(
        cat,
        s,
    ).contains(p) implies cat.contains(p) && p.shop_id == Some(s) by {
        let filtered = spec_listings_of_shop(cat, s);
        let j = choose|j: int| 0 <= j < filtered.len() && filtered[j] == p;
        assert((|p: SpecProduct| p.shop_id == Some(s))(filtered[j]));
    }
}

} // verus!
