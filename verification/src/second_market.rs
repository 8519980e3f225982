//! The secondary-market feed: its record types and the configuration of its
//! REST fetch collaborator. The floor price itself is carried as the decimal
//! string the marketplace reports, so the engine never computes on it.

use vstd::prelude::*;

verus! {

/// Royalty settings of a collection.
#[derive(Clone, Debug)]
pub struct Royalties {
    pub recipient: Option<String>,
    pub breakdown: Vec<String>,
    pub bps: u64,
}

/// Royalty settings per marketplace.
#[derive(Clone, Debug)]
pub struct AllRoyalties {
    pub opensea: Vec<String>,
}

/// The currency a price is denominated in.
#[derive(Clone, Debug)]
pub struct Currency {
    pub contract: String,
    pub name: String,
    pub symbol: String,
    pub decimals: u8,
}

/// The token behind the current floor ask.
#[derive(Clone, Debug)]
pub struct Token {
    pub contract: String,
    pub token_id: String,
    pub name: String,
    pub image: String,
}

/// Where the marketplace's REST endpoint listens, with its credential and
/// the collection watched.
pub struct RestFetcher {
    api_key: String,
    base_url: String,
    collection: String,
}

/// The mathematical value of a [`RestFetcher`] configuration.
pub ghost struct RestFetcherView {
    pub api_key: Seq<char>,
    pub base_url: Seq<char>,
    pub collection: Seq<char>,
}

impl View for RestFetcher {
    type V = RestFetcherView;

    closed spec fn view(&self) -> RestFetcherView {
        RestFetcherView {
            api_key: self.api_key@,
            base_url: self.base_url@,
            collection: self.collection@,
        }
    }
}

impl RestFetcher {
    pub fn new(api_key: String, base_url: String, collection: String) -> (f: RestFetcher)
        ensures
            f@.api_key == api_key@,
            f@.base_url == base_url@,
            f@.collection == collection@,
    {
        RestFetcher { api_key, base_url, collection }
    }

    /// The configured credential.
    pub fn api_key(&self) -> (r: &String)
        ensures
            r@ == self@.api_key,
    {
        &self.api_key
    }

    /// The configured endpoint.
    pub fn base_url(&self) -> (r: &String)
        ensures
            r@ == self@.base_url,
    {
        &self.base_url
    }

    /// The watched collection.
    pub fn collection(&self) -> (r: &String)
        ensures
            r@ == self@.collection,
    {
        &self.collection
    }
}

} // verus!
