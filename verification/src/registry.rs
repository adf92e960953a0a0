//! The shop registry: which shops each owner has registered.
//!
//! Independent of the product ledger: it owns its own store and nothing
//! mutates across the two. A shop is created once at registration and is
//! immutable thereafter; the by-owner view is derived from the one canonical
//! sequence of registrations.

use vstd::prelude::*;

use crate::errors::MarketError;
use crate::records::ShopInfo;
use crate::records::SpecShop;

verus! {

broadcast use
    vstd::seq_lib::group_filter_ensures,
    Seq::lemma_filter_push,
;

/// The mathematical view of one registration: who registered which shop.
pub ghost struct SpecRegistration {
    pub owner: Seq<char>,
    pub shop: SpecShop,
}

/// One registration of the registry's store.
struct Registration {
    owner: String,
    shop: ShopInfo,
}

impl View for Registration {
    type V = SpecRegistration;

    closed spec fn view(&self) -> SpecRegistration {
        SpecRegistration { owner: self.owner@, shop: self.shop@ }
    }
}

/// Whether some registration of `regs` carries the shop id `id`.
pub open spec fn spec_contains_shop_id(regs: Seq<SpecRegistration>, id: Seq<char>) -> bool {
    exists|i: int| 0 <= i < regs.len() && regs[i].shop.id == id
}

/// No two registered shops share an id.
pub open spec fn spec_unique_shop_ids(regs: Seq<SpecRegistration>) -> bool {
    forall|i: int, j: int| 0 <= i < j < regs.len() ==> regs[i].shop.id != regs[j].shop.id
}

/// The shops `owner` has registered, in registration order. A derived view,
/// never stored.
pub open spec fn spec_shops_of_owner(regs: Seq<SpecRegistration>, owner: Seq<char>) -> Seq<
    SpecShop,
> {
    regs.filter(|r: SpecRegistration| r.owner == owner).map_values(
        |r: SpecRegistration| r.shop,
    )
}

/// The store of shop registrations.
pub struct ShopRegistry {
    entries: Vec<Registration>,
}

impl View for ShopRegistry {
    type V = Seq<SpecRegistration>;

    closed spec fn view(&self) -> Seq<SpecRegistration> {
        self.entries@.map_values(|r: Registration| r@)
    }
}

impl ShopRegistry {
    /// The registry invariant: shop ids are unique.
    pub open spec fn wf(&self) -> bool {
        spec_unique_shop_ids(self@)
    }

    /// An empty registry.
    pub fn new() -> (r: ShopRegistry)
        ensures
            r.wf(),
            r@ == Seq::<SpecRegistration>::empty(),
    {
        let r = ShopRegistry { entries: Vec::new() };
        proof {
            assert(r@ =~= Seq::<SpecRegistration>::empty());
        }
        r
    }

    /// Whether some registration carries the shop id `id`.
    pub fn contains_shop_id(&self, id: &String) -> (b: bool)
        ensures
            b == spec_contains_shop_id(self@, id@),
    {
        let n = self.entries.len();
        let mut i: usize = 0;
        while i < n
            invariant
                i <= n,
                n == self@.len(),
                forall|j: int| 0 <= j < i ==> self@[j].shop.id != id@,
            decreases n - i,
        {
            if self.entries[i].shop.id == *id {
                proof {
                    assert(self@[i as int].shop.id == id@);
                }
                return true;
            }
            i += 1;
        }
        false
    }

    /// Registers a shop for `owner`. The id must not collide with any
    /// registered shop's id, else the call refuses with `DuplicateId` and
    /// commits nothing. There is no removal or update.
    pub fn register_shop(
        &mut self,
        owner: String,
        id: String,
        name: String,
        location: String,
    ) -> (r: Result<ShopInfo, MarketError>)
        requires
            old(self).wf(),
        ensures
            final(self).wf(),
            spec_contains_shop_id(old(self)@, id@) ==> r == Err::<ShopInfo, MarketError>(
                MarketError::DuplicateId,
            ) && final(self)@ == old(self)@,
            !spec_contains_shop_id(old(self)@, id@) ==> {
                let shop = SpecShop { id: id@, name: name@, location: location@ };
                &&& r matches Ok(info) && info@ == shop
                &&& final(self)@ == old(self)@.push(
                    SpecRegistration { owner: owner@, shop: shop },
                )
            },
    {
        if self.contains_shop_id(&id) {
            return Err(MarketError::DuplicateId);
        }
        let info = ShopInfo { id: id, name: name, location: location };
        let out = info.clone();
        let ghost before = self@;
        self.entries.push(Registration { owner: owner, shop: info });
        proof {
            assert(self@ =~= before.push(
                SpecRegistration { owner: self.entries@.last().owner@, shop: out@ },
            ));
        }
        Ok(out)
    }

    /// The shops `owner` has registered. A pure read: an owner with no
    /// shops gets an empty sequence, not an absent or error state.
    pub fn list_shops_by_owner(&self, owner: &String) -> (r: Vec<ShopInfo>)
        ensures
            r@.map_values(|s: ShopInfo| s@) == spec_shops_of_owner(self@, owner@),
    {
        let n = self.entries.len();
        let mut out: Vec<ShopInfo> = Vec::new();
        let mut i: usize = 0;
        proof {
            assert(out@.map_values(|s: ShopInfo| s@) =~= Seq::<SpecShop>::empty());
            assert(self@.subrange(0, 0) =~= Seq::<SpecRegistration>::empty());
            assert(spec_shops_of_owner(self@.subrange(0, 0), owner@) =~= Seq::<SpecShop>::empty());
        }
        while i < n
            invariant
                i <= n,
                n == self@.len(),
                out@.map_values(|s: ShopInfo| s@) == spec_shops_of_owner(
                    self@.subrange(0, i as int),
                    owner@,
                ),
            decreases n - i,
        {
            let ghost prefix = self@.subrange(0, i as int);
            if self.entries[i].owner == *owner {
                out.push(self.entries[i].shop.clone());
            }
            proof {
                assert(self@.subrange(0, i + 1) =~= prefix.push(self@[i as int]));
                if self@[i as int].owner == owner@ {
                    assert(prefix.push(self@[i as int]).filter(
                        |r: SpecRegistration| r.owner == owner@,
                    ) == prefix.filter(|r: SpecRegistration| r.owner == owner@).push(
                        self@[i as int],
                    ));
                    assert(out@.map_values(|s: ShopInfo| s@) =~= spec_shops_of_owner(
                        prefix,
                        owner@,
                    ).push(self@[i as int].shop));
                } else {
                    assert(out@.map_values(|s: ShopInfo| s@) =~= spec_shops_of_owner(
                        prefix,
                        owner@,
                    ));
                }
            }
            i += 1;
        }
        proof {
            assert(self@.subrange(0, n as int) =~= self@);
        }
        out
    }
}

} // verus!
