use govsync::event::Event;
use govsync::meta_gov::extract_proposal_info;
use govsync::utils::link::Link;
use govsync::utils::{get_explorer_address, get_short_address};

#[test]
fn short_address_abbreviates() {
    assert_eq!(
        get_short_address("0x281eC184E704CE57570614C33B3477Ec7Ff07243"),
        "0x28...7243"
    );
    assert_eq!(get_short_address("abcd"), "abcd...abcd");
    assert_eq!(get_short_address("abc"), "abc");
    assert_eq!(get_short_address(""), "");
}

#[test]
fn explorer_address_links_to_the_explorer() {
    assert_eq!(
        get_explorer_address("0xabc"),
        "https://etherscan.io/address/0xabc"
    );
}

#[test]
fn proposal_titles_split_into_number_and_title() {
    assert_eq!(
        extract_proposal_info("12: Fund the library"),
        Some((12, "Fund the library".to_string()))
    );
    // The number may sit anywhere in the title; the first match wins.
    assert_eq!(
        extract_proposal_info("Prop 7: Renew the contract"),
        Some((7, "Renew the contract".to_string()))
    );
    assert_eq!(extract_proposal_info("No number here"), None);
    assert_eq!(extract_proposal_info("12:"), None);
    assert_eq!(extract_proposal_info("12: "), None);
    assert_eq!(extract_proposal_info(""), None);
    // A number too large for the proposal id is rejected.
    assert_eq!(extract_proposal_info("99999999999: too big"), None);
    // A run not followed by ": " does not match; a later one may.
    assert_eq!(
        extract_proposal_info("v2 beta 44: ship it"),
        Some((44, "ship it".to_string()))
    );
}

#[test]
fn vote_directions_have_their_wording() {
    assert_eq!(govsync::utils::vote_direction_words(0), "against");
    assert_eq!(govsync::utils::vote_direction_words(1), "for");
    assert_eq!(govsync::utils::vote_direction_words(2), "abstain on");
    assert_eq!(govsync::utils::vote_direction_words(3), "unknown");
}

#[test]
fn long_reasons_are_truncated() {
    assert_eq!(govsync::utils::truncate_with_ellipsis("short", 10), "short");
    assert_eq!(govsync::utils::truncate_with_ellipsis("exactly", 7), "exactly");
    assert_eq!(
        govsync::utils::truncate_with_ellipsis("a rather long reason", 8),
        "a rather..."
    );
    assert_eq!(govsync::utils::truncate_with_ellipsis("abc", 0), "...");
}

#[test]
fn event_holds_what_it_was_given() {
    let mut event = Event::new(
        "proposal".to_string(),
        Some("New Proposal".to_string()),
        None,
    );
    assert_eq!(event.kind(), "proposal");
    assert_eq!(event.title(), Some(&"New Proposal".to_string()));
    assert_eq!(event.description(), None);

    event.set_kind("vote".to_string());
    event.set_title(None);
    event.set_description(Some("body".to_string()));
    assert_eq!(event.kind(), "vote");
    assert_eq!(event.title(), None);
    assert_eq!(event.description(), Some(&"body".to_string()));
}

#[test]
fn fetcher_configurations_keep_their_endpoints() {
    let lil = govsync::lil_nouns::GraphQLFetcher::new("https://lil.example/graphql".to_string());
    assert_eq!(lil.graphql_url(), "https://lil.example/graphql");

    let meta = govsync::meta_gov::GraphQLFetcher::new(
        "https://hub.example/graphql".to_string(),
        "space.eth".to_string(),
    );
    assert_eq!(meta.graphql_url(), "https://hub.example/graphql");
    assert_eq!(meta.space_id(), "space.eth");

    let ph = govsync::prop_house::GraphQLFetcher::new(
        "https://ph.example/graphql".to_string(),
        "2".to_string(),
    );
    assert_eq!(ph.graphql_url(), "https://ph.example/graphql");
    assert_eq!(ph.community_id(), "2");

    let pl = govsync::prop_lot::GraphQLFetcher::new("https://pl.example/graphql".to_string());
    assert_eq!(pl.graphql_url(), "https://pl.example/graphql");

    let sm = govsync::second_market::RestFetcher::new(
        "SECRET-REDACTED".to_string(),
        "https://market.example".to_string(),
        "0xdeadbeef".to_string(),
    );
    assert_eq!(sm.api_key(), "SECRET-REDACTED");
    assert_eq!(sm.base_url(), "https://market.example");
    assert_eq!(sm.collection(), "0xdeadbeef");
}

#[test]
fn configs_keep_their_fields() {
    let ph = govsync::prop_house::Config::new(
        "https://prop.house".to_string(),
        "https://ph.example/graphql".to_string(),
        "2".to_string(),
        "SECRET-REDACTED".to_string(),
        "https://discord.example/webhook".to_string(),
    );
    assert_eq!(ph.base_url, "https://prop.house");
    assert_eq!(ph.community_id, "2");

    let pl = govsync::prop_lot::Config::new(
        "https://lilnouns.wtf".to_string(),
        "https://pl.example/graphql".to_string(),
        "SECRET-REDACTED".to_string(),
        "https://discord.example/webhook".to_string(),
    );
    assert_eq!(pl.base_url, "https://lilnouns.wtf");
    assert_eq!(pl.webhook_url, "https://discord.example/webhook");
}

#[test]
fn link_keeps_its_endpoint() {
    let link = Link::new("https://short.example".to_string());
    assert_eq!(link.endpoint(), "https://short.example");
}

#[test]
fn short_link_used_only_when_the_service_echoes_the_url() {
    let link = Link::new("https://short.example".to_string());
    assert_eq!(
        link.shortened("https://a.example/5", "https://a.example/5", "k9"),
        "https://short.example/k9"
    );
    assert_eq!(
        link.shortened("https://a.example/5", "https://other.example", "k9"),
        "https://a.example/5"
    );
}

#[test]
fn popularity_alert_fires_once_at_the_threshold() {
    assert!(govsync::prop_lot::should_alert_popularity(200, false));
    assert!(govsync::prop_lot::should_alert_popularity(201, false));
    assert!(!govsync::prop_lot::should_alert_popularity(199, false));
    assert!(!govsync::prop_lot::should_alert_popularity(500, true));
}

#[test]
fn platform_records_hold_their_fields() {
    let p = govsync::lil_nouns::Proposal {
        id: 310,
        title: "A proposal".to_string(),
        proposer: "0xabc".to_string(),
    };
    assert_eq!(p.id, 310);

    let v = govsync::prop_house::Vote {
        id: 1,
        address: "0xdef".to_string(),
        auction_id: 2,
        proposal_id: 3,
        direction: 1,
    };
    assert_eq!(v.direction, 1);

    let c = govsync::prop_lot::Comment {
        id: 5,
        idea_id: 6,
        author_id: "0x123".to_string(),
        body: "sounds good".to_string(),
    };
    assert_eq!(c.idea_id, 6);

    let t = govsync::second_market::Token {
        contract: "0x1".to_string(),
        token_id: "2".to_string(),
        name: "Noun".to_string(),
        image: "https://img.example/2.png".to_string(),
    };
    assert_eq!(t.token_id, "2");
}
