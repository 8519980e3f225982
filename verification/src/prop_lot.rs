//! The Prop Lot feed: its record types and the configuration of its
//! collaborators.

use vstd::prelude::*;

verus! {

/// An idea put up for community voting.
#[derive(Clone, Debug)]
pub struct Idea {
    pub id: isize,
    pub title: String,
    pub tldr: String,
    pub creator_id: String,
}

/// A vote cast on an idea. `direction` is positive for, negative against,
/// weighted by `voter_weight`.
#[derive(Clone, Debug)]
pub struct Vote {
    pub id: isize,
    pub voter_id: String,
    pub idea_id: isize,
    pub direction: isize,
    pub voter_weight: isize,
}

/// A comment left on an idea.
#[derive(Clone, Debug)]
pub struct Comment {
    pub id: isize,
    pub idea_id: isize,
    pub author_id: String,
    pub body: String,
}

/// How many comments an idea has gathered.
#[derive(Clone, Debug)]
pub struct IdeaCount {
    pub comments: i32,
}

/// Who cast a vote on an idea.
#[derive(Clone, Debug)]
pub struct IdeaVoter {
    pub id: i32,
    pub wallet: String,
    pub ens: Option<String>,
    pub lilnoun_count: i32,
}

/// How many votes an idea needs before it is called popular.
pub const POPULARITY_THRESHOLD: i32 = 200;

/// Should a popularity alert go out for an idea: it has reached the
/// threshold and no alert was sent for it before. The alert is sent at most
/// once per idea; the host records the sent flag beside the snapshots.
pub fn should_alert_popularity(votecount: i32, already_alerted: bool) -> (r: bool)
    ensures
        r == (votecount >= POPULARITY_THRESHOLD && !already_alerted),
{
    votecount >= POPULARITY_THRESHOLD && !already_alerted
}

/// Everything the platform's collaborators are constructed from.
pub struct Config {
    pub base_url: String,
    pub graphql_url: String,
    pub bearer_token: String,
    pub webhook_url: String,
}

impl Config {
    pub fn new(
        base_url: String,
        graphql_url: String,
        bearer_token: String,
        webhook_url: String,
    ) -> (c: Config)
        ensures
            c.base_url == base_url,
            c.graphql_url == graphql_url,
            c.bearer_token == bearer_token,
            c.webhook_url == webhook_url,
    {
        Config { base_url, graphql_url, bearer_token, webhook_url }
    }
}

/// Where the feed's GraphQL endpoint listens.
pub struct GraphQLFetcher {
    graphql_url: String,
}

impl View for GraphQLFetcher {
    type V = Seq<char>;

    closed spec fn view(&self) -> Seq<char> {
        self.graphql_url@
    }
}

impl GraphQLFetcher {
    pub fn new(graphql_url: String) -> (f: GraphQLFetcher)
        ensures
            f@ == graphql_url@,
    {
        GraphQLFetcher { graphql_url }
    }

    /// The configured endpoint.
    pub fn graphql_url(&self) -> (r: &String)
        ensures
            r@ == self@,
    {
        &self.graphql_url
    }
}

} // verus!
