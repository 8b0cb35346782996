//! Store search hits, as shown to the user.

use vstd::prelude::*;
use crate::text::{decimal, decimal_of, trim, trimmed};

verus! {

broadcast use vstd::string::group_string_axioms;

/// A store search hit.
#[derive(Clone, Debug)]
pub struct SteamSearchResult {
    pub id: u32,
    pub name: String,
    pub cover_url: Option<String>,
    pub price: Option<String>,
}

/// The price of a hit as the store gives it: final price in cents, and the currency.
#[derive(Clone, Debug)]
pub struct StorePrice {
    pub final_cents: u32,
    pub currency: String,
}

/// The portrait cover image of an app.
pub open spec fn cover_url_of(id: u32) -> Seq<char> {
    "https://shared.fastly.steamstatic.com/store_item_assets/steam/apps/"@ + decimal_of(id as nat)
        + "/library_600x900.jpg"@
}

/// A price as shown: whole units (cents divided by 100, rounded down), a
/// space, and the currency.
pub open spec fn price_text(p: StorePrice) -> Seq<char> {
    decimal_of((p.final_cents / 100) as nat) + " "@ + p.currency@
}

/// The hit shown for a store item: its id and name, its cover image, and
/// its price if it has one.
pub fn steam_result(id: u32, name: String, price: Option<StorePrice>) -> (r: SteamSearchResult)
    ensures
        r.id == id,
        r.name == name,
        r.cover_url is Some && r.cover_url->0@ == cover_url_of(id),
        match price {
            Some(p) => r.price is Some && r.price->0@ == price_text(p),
            None => r.price is None,
        },
{
    let mut cover = String::from_str("https://shared.fastly.steamstatic.com/store_item_assets/steam/apps/");
    let digits = decimal(id as u64);
    cover.append(digits.as_str());
    cover.append("/library_600x900.jpg");
    let price_shown = match price {
        Some(p) => {
            let mut t = decimal((p.final_cents / 100) as u64);
            t.append(" ");
            t.append(p.currency.as_str());
            Some(t)
        },
        None => None,
    };
    SteamSearchResult { id, name, cover_url: Some(cover), price: price_shown }
}

/// The store search to run: the trimmed query; none when it is empty once
/// trimmed, which yields no hits.
pub fn store_query(query: &str) -> (r: Option<String>)
    ensures
        trimmed(query@).len() == 0 <==> r is None,
        r is Some ==> r->0@ == trimmed(query@),
{
    let q = trim(query);
    if q.as_str().unicode_len() == 0 {
        None
    } else {
        Some(q)
    }
}

} // verus!
