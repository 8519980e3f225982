//! The Lil Nouns governance feed: its record types and the configuration of
//! its fetch collaborator. Fetching itself is HTTP and lives with the host
//! process; the records come back here as plain values.

use vstd::prelude::*;

verus! {

/// A governance proposal.
#[derive(Clone, Debug)]
pub struct Proposal {
    pub id: usize,
    pub title: String,
    pub proposer: String,
}

/// A vote cast on a proposal. `direction` is 0 against, 1 for, 2 abstain.
#[derive(Clone, Debug)]
pub struct Vote {
    pub id: usize,
    pub voter: String,
    pub proposal_id: usize,
    pub direction: usize,
}

/// Where the feed's GraphQL endpoint listens.
pub struct GraphQLFetcher {
    graphql_url: String,
}

impl View for GraphQLFetcher {
    type V = Seq<char>;

    closed spec fn view(&self) -> Seq<char> {
        self.graphql_url@
    }
}

impl GraphQLFetcher {
    pub fn new(graphql_url: String) -> (f: GraphQLFetcher)
        ensures
            f@ == graphql_url@,
    {
        GraphQLFetcher { graphql_url }
    }

    /// The configured endpoint.
    pub fn graphql_url(&self) -> (r: &String)
        ensures
            r@ == self@,
    {
        &self.graphql_url
    }
}

} // verus!
