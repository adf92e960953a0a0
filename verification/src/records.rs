//! The record types of the marketplace: products, shops and the settlement
//! instruction a purchase emits, each with its mathematical view.
//!
//! Identities (account names) are carried as plain strings: who resolves and
//! authenticates them is an external collaborator's concern.

use vstd::prelude::*;

verus! {

/// The mathematical view of a [`ProductRecord`].
pub ghost struct SpecProduct {
    pub id: Seq<char>,
    pub name: Seq<char>,
    pub category: Seq<char>,
    pub unit_price: u128,
    pub remaining_supply: u64,
    pub owner: Seq<char>,
    pub shop_id: Option<Seq<char>>,
}

/// One product of the catalog.
///
/// A record with `shop_id` present is a listing, available for purchase from
/// that shop; one with `shop_id` absent is a holding, a buyer's post-purchase
/// private ownership. The `id` is globally unique across the catalog.
#[derive(Debug, PartialEq)]
pub struct ProductRecord {
    pub id: String,
    pub name: String,
    pub category: String,
    pub unit_price: u128,
    pub remaining_supply: u64,
    pub owner: String,
    pub shop_id: Option<String>,
}

impl View for ProductRecord {
    type V = SpecProduct;

    open spec fn view(&self) -> SpecProduct {
        SpecProduct {
            id: self.id@,
            name: self.name@,
            category: self.category@,
            unit_price: self.unit_price,
            remaining_supply: self.remaining_supply,
            owner: self.owner@,
            shop_id: match self.shop_id {
                Some(s) => Some(s@),
                None => None,
            },
        }
    }
}

impl Clone for ProductRecord {
    fn clone(&self) -> (r: Self)
        ensures
            r == *self,
    {
        ProductRecord {
            id: self.id.clone(),
            name: self.name.clone(),
            category: self.category.clone(),
            unit_price: self.unit_price,
            remaining_supply: self.remaining_supply,
            owner: self.owner.clone(),
            shop_id: match &self.shop_id {
                Some(s) => Some(s.clone()),
                None => None,
            },
        }
    }
}

/// The mathematical view of a [`ShopInfo`].
pub ghost struct SpecShop {
    pub id: Seq<char>,
    pub name: Seq<char>,
    pub location: Seq<char>,
}

/// One registered shop. Immutable after registration.
#[derive(Debug, PartialEq)]
pub struct ShopInfo {
    pub id: String,
    pub name: String,
    pub location: String,
}

impl View for ShopInfo {
    type V = SpecShop;

    open spec fn view(&self) -> SpecShop {
        SpecShop { id: self.id@, name: self.name@, location: self.location@ }
    }
}

impl Clone for ShopInfo {
    fn clone(&self) -> (r: Self)
        ensures
            r == *self,
    {
        ShopInfo { id: self.id.clone(), name: self.name.clone(), location: self.location.clone() }
    }
}

/// The mathematical view of a [`Settlement`].
pub ghost struct SpecSettlement {
    pub payer: Seq<char>,
    pub payee: Seq<char>,
    pub amount: u128,
}

/// The payment instruction a successful purchase emits.
///
/// The ledger never moves value itself: it asks the external payment
/// collaborator to transfer `amount` from `payer` to `payee`, exactly once
/// per committed purchase.
#[derive(Debug, PartialEq)]
pub struct Settlement {
    pub payer: String,
    pub payee: String,
    pub amount: u128,
}

impl View for Settlement {
    type V = SpecSettlement;

    open spec fn view(&self) -> SpecSettlement {
        SpecSettlement { payer: self.payer@, payee: self.payee@, amount: self.amount }
    }
}

} // verus!
