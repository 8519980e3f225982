//! The Prop House feed: its record types and the configuration of its
//! collaborators.

use vstd::prelude::*;

verus! {

/// A funding round.
#[derive(Clone, Debug)]
pub struct Auction {
    pub id: isize,
    pub title: String,
    pub description: String,
}

/// A proposal submitted to a round.
#[derive(Clone, Debug)]
pub struct Proposal {
    pub id: isize,
    pub title: String,
    pub tldr: String,
    pub address: String,
    pub auction_id: isize,
}

/// A vote cast on a proposal. `direction` is 1 for, anything else against.
#[derive(Clone, Debug)]
pub struct Vote {
    pub id: isize,
    pub address: String,
    pub auction_id: isize,
    pub proposal_id: isize,
    pub direction: isize,
}

/// Everything the platform's collaborators are constructed from.
pub struct Config {
    pub base_url: String,
    pub graphql_url: String,
    pub community_id: String,
    pub bearer_token: String,
    pub webhook_url: String,
}

impl Config {
    pub fn new(
        base_url: String,
        graphql_url: String,
        community_id: String,
        bearer_token: String,
        webhook_url: String,
    ) -> (c: Config)
        ensures
            c.base_url == base_url,
            c.graphql_url == graphql_url,
            c.community_id == community_id,
            c.bearer_token == bearer_token,
            c.webhook_url == webhook_url,
    {
        Config { base_url, graphql_url, community_id, bearer_token, webhook_url }
    }
}

/// Where the feed's GraphQL endpoint listens, and for which community.
pub struct GraphQLFetcher {
    graphql_url: String,
    community_id: String,
}

/// The mathematical value of a [`GraphQLFetcher`] configuration.
pub ghost struct FetcherView {
    pub graphql_url: Seq<char>,
    pub community_id: Seq<char>,
}

impl View for GraphQLFetcher {
    type V = FetcherView;

    closed spec fn view(&self) -> FetcherView {
        FetcherView { graphql_url: self.graphql_url@, community_id: self.community_id@ }
    }
}

impl GraphQLFetcher {
    pub fn new(graphql_url: String, community_id: String) -> (f: GraphQLFetcher)
        ensures
            f@.graphql_url == graphql_url@,
            f@.community_id == community_id@,
    {
        GraphQLFetcher { graphql_url, community_id }
    }

    /// The configured endpoint.
    pub fn graphql_url(&self) -> (r: &String)
        ensures
            r@ == self@.graphql_url,
    {
        &self.graphql_url
    }

    /// The configured community.
    pub fn community_id(&self) -> (r: &String)
        ensures
            r@ == self@.community_id,
    {
        &self.community_id
    }
}

} // verus!
