use govsync::codec::{decode_entities, encode_entities};
use govsync::cycle::{cache_key, casts_key, run_cycle, sync_state, CycleKind, SyncState};
use govsync::entity::Entity;
use govsync::handler::{dispatch, RecordingHandler};
use govsync::links::ThreadLinks;
use govsync::store::SnapshotStore;

fn entity(id: u64) -> Entity {
    Entity::new(id, vec![id as u8, 0xAB])
}

fn ids(entities: &[Entity]) -> Vec<u64> {
    entities.iter().map(|e| e.id).collect()
}

#[test]
fn cold_start_stores_and_stays_silent() {
    let mut store = SnapshotStore::new();
    let mut handlers = vec![RecordingHandler::reliable()];
    let key = cache_key("lil_nouns", "proposals");

    assert_eq!(sync_state(&store, &key), SyncState::Uninitialized);
    let fetched = vec![entity(1), entity(2), entity(3)];
    let report = run_cycle(&mut store, &key, Some(fetched), &mut handlers);

    assert_eq!(report.kind, CycleKind::ColdStart);
    assert!(report.fresh.is_empty());
    assert!(report.outcomes.is_empty());
    assert!(handlers[0].log().is_empty());
    assert_eq!(sync_state(&store, &key), SyncState::Tracking);

    let snapshot = decode_entities(&store.get(&key).unwrap()).unwrap();
    assert_eq!(ids(&snapshot), vec![1, 2, 3]);
}

#[test]
fn unchanged_fetch_announces_nothing_twice() {
    let mut store = SnapshotStore::new();
    let mut handlers = vec![RecordingHandler::reliable()];
    let key = cache_key("lil_nouns", "votes");

    let fetch = || vec![entity(10), entity(11)];
    run_cycle(&mut store, &key, Some(fetch()), &mut handlers);

    let second = run_cycle(&mut store, &key, Some(fetch()), &mut handlers);
    assert_eq!(second.kind, CycleKind::Synced);
    assert!(second.fresh.is_empty());
    assert!(second.outcomes.is_empty());
    assert!(handlers[0].log().is_empty());

    let third = run_cycle(&mut store, &key, Some(fetch()), &mut handlers);
    assert!(third.fresh.is_empty());
    assert!(handlers[0].log().is_empty());
}

#[test]
fn new_entity_reported_exactly_once() {
    let mut store = SnapshotStore::new();
    let mut handlers = vec![RecordingHandler::reliable()];
    let key = cache_key("meta_gov", "proposals");

    run_cycle(&mut store, &key, Some(vec![entity(1)]), &mut handlers);

    // Entity 2 appears in this cycle's fetch: reported now, exactly once.
    let report = run_cycle(&mut store, &key, Some(vec![entity(1), entity(2)]), &mut handlers);
    assert_eq!(report.kind, CycleKind::Synced);
    assert_eq!(ids(&report.fresh), vec![2]);
    assert_eq!(handlers[0].log().as_slice(), &[2]);
    assert_eq!(handlers[0].attempts().as_slice(), &[2]);

    // And never again on the next cycle with the same fetch.
    let again = run_cycle(&mut store, &key, Some(vec![entity(1), entity(2)]), &mut handlers);
    assert!(again.fresh.is_empty());
    assert_eq!(handlers[0].log().as_slice(), &[2]);
}

#[test]
fn handler_failure_is_isolated() {
    let entity9 = entity(9);
    let mut handlers = vec![
        RecordingHandler::unreachable_channel(),
        RecordingHandler::reliable(),
    ];

    let outcomes = dispatch(&entity9, &mut handlers);
    assert_eq!(outcomes.len(), 2);
    assert!(outcomes[0].is_err());
    assert!(outcomes[1].is_ok());
    // The failing sibling did not stop the delivery through handler B,
    // and both handlers were asked.
    assert!(handlers[0].log().is_empty());
    assert_eq!(handlers[1].log().as_slice(), &[9]);
    assert_eq!(handlers[0].attempts().as_slice(), &[9]);
    assert_eq!(handlers[1].attempts().as_slice(), &[9]);
}

#[test]
fn thread_link_round_trip() {
    let mut links = ThreadLinks::new();
    links.record(21, "0xcast21".to_string());
    assert_eq!(links.resolve(21), Some("0xcast21".to_string()));

    // Links recorded for other roots later do not disturb it.
    links.record(22, "0xcast22".to_string());
    links.record(23, "0xcast23".to_string());
    assert_eq!(links.resolve(21), Some("0xcast21".to_string()));
    assert_eq!(links.resolve(22), Some("0xcast22".to_string()));
    assert_eq!(links.resolve(99), None);
}

#[test]
fn thread_links_survive_persistence() {
    let mut links = ThreadLinks::new();
    links.record(1, "a".to_string());
    links.record(2, "b".to_string());
    let copied: Vec<_> = links
        .entries()
        .iter()
        .map(|l| govsync::links::ThreadLink {
            entity_id: l.entity_id,
            thread_id: l.thread_id.clone(),
        })
        .collect();
    let restored = ThreadLinks::from_entries(copied);
    assert_eq!(restored.resolve(1), Some("a".to_string()));
    assert_eq!(restored.resolve(2), Some("b".to_string()));
}

#[test]
fn shrinkage_is_not_reacted_to() {
    let mut store = SnapshotStore::new();
    let mut handlers = vec![RecordingHandler::reliable()];
    let key = cache_key("prop_house", "auctions");

    run_cycle(&mut store, &key, Some(vec![entity(1), entity(2), entity(3)]), &mut handlers);

    // Upstream lost two entities: a strict subset comes back.
    let report = run_cycle(&mut store, &key, Some(vec![entity(2)]), &mut handlers);
    assert_eq!(report.kind, CycleKind::Synced);
    assert!(report.fresh.is_empty());
    assert!(handlers[0].log().is_empty());

    // No deletion is produced: the snapshot still holds all three.
    let snapshot = decode_entities(&store.get(&key).unwrap()).unwrap();
    assert_eq!(ids(&snapshot), vec![1, 2, 3]);
}

#[test]
fn example_scenario() {
    // snapshot = {id:1}; fetch = [{id:1},{id:2}] -> new = [{id:2}];
    // one handler succeeds, one fails -> [Ok, Err]; snapshot = {1, 2}.
    let mut store = SnapshotStore::new();
    let key = cache_key("lil_nouns", "proposals");
    let mut handlers = vec![
        RecordingHandler::reliable(),
        RecordingHandler::unreachable_channel(),
    ];

    run_cycle(&mut store, &key, Some(vec![entity(1)]), &mut handlers);

    let report = run_cycle(&mut store, &key, Some(vec![entity(1), entity(2)]), &mut handlers);
    assert_eq!(report.kind, CycleKind::Synced);
    assert_eq!(ids(&report.fresh), vec![2]);
    assert_eq!(report.outcomes.len(), 1);
    assert!(report.outcomes[0][0].is_ok());
    assert!(report.outcomes[0][1].is_err());

    let snapshot = decode_entities(&store.get(&key).unwrap()).unwrap();
    assert_eq!(ids(&snapshot), vec![1, 2]);
}

#[test]
fn fetch_failure_leaves_everything_untouched() {
    let mut store = SnapshotStore::new();
    let mut handlers = vec![RecordingHandler::reliable()];
    let key = cache_key("prop_lot", "ideas");

    run_cycle(&mut store, &key, Some(vec![entity(4)]), &mut handlers);
    let before = store.get(&key).unwrap();

    let report = run_cycle(&mut store, &key, None, &mut handlers);
    assert_eq!(report.kind, CycleKind::FetchFailed);
    assert!(report.fresh.is_empty());
    assert!(handlers[0].log().is_empty());
    assert_eq!(store.get(&key).unwrap(), before);
}

#[test]
fn empty_fetch_is_a_result_not_a_failure() {
    // An empty collection from upstream diffs as "nothing new"; it is not
    // treated as everything-deleted and it does not touch the snapshot.
    let mut store = SnapshotStore::new();
    let mut handlers = vec![RecordingHandler::reliable()];
    let key = cache_key("prop_house", "votes");

    run_cycle(&mut store, &key, Some(vec![entity(5)]), &mut handlers);
    let report = run_cycle(&mut store, &key, Some(vec![]), &mut handlers);
    assert_eq!(report.kind, CycleKind::Synced);
    assert!(report.fresh.is_empty());
    let snapshot = decode_entities(&store.get(&key).unwrap()).unwrap();
    assert_eq!(ids(&snapshot), vec![5]);
}

#[test]
fn unreadable_snapshot_is_left_in_place() {
    let mut store = SnapshotStore::new();
    let mut handlers = vec![RecordingHandler::reliable()];
    let key = cache_key("second_market", "collections");

    store.put(&key, vec![0xFF, 0x01, 0x02]);
    let report = run_cycle(&mut store, &key, Some(vec![entity(1)]), &mut handlers);
    assert_eq!(report.kind, CycleKind::SnapshotUnreadable);
    assert!(report.fresh.is_empty());
    assert!(handlers[0].log().is_empty());
    assert_eq!(store.get(&key).unwrap(), vec![0xFF, 0x01, 0x02]);
}

#[test]
fn duplicate_ids_reported_once() {
    let mut store = SnapshotStore::new();
    let mut handlers = vec![RecordingHandler::reliable()];
    let key = cache_key("lil_nouns", "votes");

    run_cycle(&mut store, &key, Some(vec![entity(1)]), &mut handlers);

    // Upstream should not produce duplicates; when it does, the later
    // occurrence wins and the identity is reported once.
    let fetched = vec![entity(1), Entity::new(7, vec![1]), Entity::new(7, vec![2])];
    let report = run_cycle(&mut store, &key, Some(fetched), &mut handlers);
    assert_eq!(ids(&report.fresh), vec![7]);
    assert_eq!(report.fresh[0].payload, vec![2]);
    assert_eq!(handlers[0].log().as_slice(), &[7]);
}

#[test]
fn codec_round_trip() {
    let entities = vec![
        Entity::new(0, vec![]),
        Entity::new(u64::MAX, vec![1, 2, 3, 4, 5]),
        Entity::new(42, vec![0; 300]),
    ];
    let bytes = encode_entities(&entities);
    let back = decode_entities(&bytes).unwrap();
    assert_eq!(back.len(), 3);
    for (a, b) in entities.iter().zip(back.iter()) {
        assert_eq!(a.id, b.id);
        assert_eq!(a.payload, b.payload);
    }
}

#[test]
fn codec_rejects_damaged_bytes() {
    assert!(decode_entities(&vec![]).is_none());
    assert!(decode_entities(&vec![1, 2, 3]).is_none());

    let mut bytes = encode_entities(&vec![Entity::new(1, vec![9, 9])]);
    // Truncated payload.
    bytes.pop();
    assert!(decode_entities(&bytes).is_none());

    // Trailing garbage after a well-formed collection.
    let mut bytes = encode_entities(&vec![Entity::new(1, vec![9, 9])]);
    bytes.push(0);
    assert!(decode_entities(&bytes).is_none());

    // The empty collection still encodes and decodes.
    let bytes = encode_entities(&vec![]);
    assert_eq!(decode_entities(&bytes).unwrap().len(), 0);
}

#[test]
fn store_is_last_writer_wins() {
    let mut store = SnapshotStore::new();
    assert!(!store.has("k"));
    assert!(store.get("k").is_none());

    store.put("k", vec![1]);
    store.put("other", vec![2]);
    assert!(store.has("k"));
    assert_eq!(store.get("k").unwrap(), vec![1]);

    store.put("k", vec![3, 4]);
    assert_eq!(store.get("k").unwrap(), vec![3, 4]);
    assert_eq!(store.get("other").unwrap(), vec![2]);
}

#[test]
fn store_survives_persistence() {
    let mut store = SnapshotStore::new();
    store.put("a", vec![1]);
    store.put("b", vec![2]);
    let copied: Vec<_> = store
        .entries()
        .iter()
        .map(|e| govsync::store::StoreEntry {
            key: e.key.clone(),
            value: e.value.clone(),
        })
        .collect();
    let restored = SnapshotStore::from_entries(copied);
    assert_eq!(restored.get("a").unwrap(), vec![1]);
    assert_eq!(restored.get("b").unwrap(), vec![2]);
    assert!(restored.get("c").is_none());
}

#[test]
fn cache_keys_have_the_documented_shape() {
    assert_eq!(cache_key("lil_nouns", "proposals"), "lil_nouns:proposals");
    assert_eq!(casts_key("lil_nouns", "proposals"), "lil_nouns:proposals:casts");
    assert_eq!(cache_key("second_market", "collections"), "second_market:collections");
}

#[test]
fn platforms_do_not_share_snapshots() {
    let mut store = SnapshotStore::new();
    let mut handlers = vec![RecordingHandler::reliable()];
    let key_a = cache_key("lil_nouns", "proposals");
    let key_b = cache_key("meta_gov", "proposals");

    run_cycle(&mut store, &key_a, Some(vec![entity(1)]), &mut handlers);
    assert_eq!(sync_state(&store, &key_a), SyncState::Tracking);
    assert_eq!(sync_state(&store, &key_b), SyncState::Uninitialized);

    // The other platform's first cycle is its own cold start.
    let report = run_cycle(&mut store, &key_b, Some(vec![entity(1)]), &mut handlers);
    assert_eq!(report.kind, CycleKind::ColdStart);
    assert!(handlers[0].log().is_empty());
}
