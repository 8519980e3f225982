//! The sync cycle orchestrator.
//!
//! Per platform and entity type the engine is a two-state machine keyed by
//! the snapshot key `{platform}:{entity-type}`: **Uninitialized** while no
//! snapshot is stored, **Tracking** afterwards. One cycle takes the outcome
//! of a fetch and drives diff, dispatch and write-back:
//!
//! - a failed fetch leaves state, snapshot and handlers untouched — an empty
//!   upstream answer is a fetch result, an unreachable upstream is not;
//! - the first successful fetch stores the whole collection and announces
//!   nothing (cold start: never announce on the very first observation);
//! - while tracking, every newly appeared entity is dispatched to every
//!   handler, failures isolated, and the freshly fetched collection replaces
//!   the snapshot wholesale — only when new entities were found, so a quiet
//!   cycle writes nothing (this engine picks that variant of the write-back
//!   policy and documents it here);
//! - a snapshot that no longer deserializes is left in place and the cycle
//!   reports it, announcing nothing rather than re-announcing everything.

use vstd::prelude::*;
use vstd::string::StringExecFns;

use crate::codec::{decode_entities, encode_entities, spec_decode, spec_encode};
use crate::diff::{diff_new, fresh_entities};
use crate::entity::{Entity, EntityView};
use crate::handler::{dispatch, ChannelHandler, HandlerError};
use crate::store::SnapshotStore;

verus! {

/// The snapshot key of one platform's collection of one entity type.
pub open spec fn spec_cache_key(platform: Seq<char>, entity_type: Seq<char>) -> Seq<char> {
    platform + seq![':'] + entity_type
}

/// The key under which thread links of one entity type are kept.
pub open spec fn spec_casts_key(platform: Seq<char>, entity_type: Seq<char>) -> Seq<char> {
    spec_cache_key(platform, entity_type) + seq![':', 'c', 'a', 's', 't', 's']
}

/// Build the snapshot key `{platform}:{entity-type}`.
pub fn cache_key(platform: &str, entity_type: &str) -> (k: String)
    ensures
        k@ == spec_cache_key(platform@, entity_type@),
{
    let k = platform.to_owned().concat(":").concat(entity_type);
    proof {
        reveal_strlit(":");
        assert(":"@ =~= seq![':']);
        assert(k@ =~= spec_cache_key(platform@, entity_type@));
    }
    k
}

/// Build the thread-link key `{platform}:{entity-type}:casts`.
pub fn casts_key(platform: &str, entity_type: &str) -> (k: String)
    ensures
        k@ == spec_casts_key(platform@, entity_type@),
{
    let k = cache_key(platform, entity_type).concat(":casts");
    proof {
        reveal_strlit(":casts");
        assert(":casts"@ =~= seq![':', 'c', 'a', 's', 't', 's']);
        assert(k@ =~= spec_casts_key(platform@, entity_type@));
    }
    k
}

/// The two states of the machine for one (platform, entity type).
#[derive(Clone, Copy, Debug, PartialEq, Eq, Structural)]
pub enum SyncState {
    /// No snapshot stored yet: the next successful fetch is the baseline.
    Uninitialized,
    /// A snapshot is stored: fetches are diffed against it.
    Tracking,
}

/// The state the store holds for `key`.
pub fn sync_state(store: &SnapshotStore, key: &str) -> (s: SyncState)
    ensures
        s == (if store@.contains_key(key@) {
            SyncState::Tracking
        } else {
            SyncState::Uninitialized
        }),
{
    if store.has(key) {
        SyncState::Tracking
    } else {
        SyncState::Uninitialized
    }
}

/// How one cycle ended.
#[derive(Clone, Copy, Debug, PartialEq, Eq, Structural)]
pub enum CycleKind {
    /// The fetch collaborator produced nothing; everything is untouched.
    FetchFailed,
    /// First observation: the collection was stored, nothing announced.
    ColdStart,
    /// The stored snapshot did not deserialize; it was left in place and
    /// nothing was announced.
    SnapshotUnreadable,
    /// A tracked cycle: diff, dispatch, and write-back if anything was new.
    Synced,
}

/// What one cycle did: its kind, the entities that newly appeared, and for
/// each of them one delivery outcome per handler, in handler list order.
pub struct CycleReport {
    pub kind: CycleKind,
    pub fresh: Vec<Entity>,
    pub outcomes: Vec<Vec<Result<(), HandlerError>>>,
}

/// The outcome matrix as a sequence of rows.
pub open spec fn rows_of(outcomes: Seq<Vec<Result<(), HandlerError>>>) -> Seq<
    Seq<Result<(), HandlerError>>,
> {
    outcomes.map_values(|row: Vec<Result<(), HandlerError>>| row@)
}

/// The identities of a cycle's fresh entities, in fetch order: what every
/// handler is asked to announce.
pub open spec fn all_ids(fresh: Seq<EntityView>) -> Seq<u64> {
    fresh.map_values(|e: EntityView| e.id)
}

/// The identities that handler `h` delivered during one cycle, in order:
/// those fresh entities whose outcome row marks handler `h` successful.
pub open spec fn ok_ids(
    fresh: Seq<EntityView>,
    rows: Seq<Seq<Result<(), HandlerError>>>,
    h: int,
) -> Seq<u64>
    decreases fresh.len(),
{
    if fresh.len() == 0 || rows.len() == 0 {
        Seq::empty()
    } else {
        let rest = ok_ids(fresh.drop_first(), rows.drop_first(), h);
        if 0 <= h < rows[0].len() && rows[0][h] is Ok {
            seq![fresh[0].id] + rest
        } else {
            rest
        }
    }
}

proof fn lemma_ok_ids_snoc(
    fresh: Seq<EntityView>,
    rows: Seq<Seq<Result<(), HandlerError>>>,
    e: EntityView,
    row: Seq<Result<(), HandlerError>>,
    h: int,
)
    requires
        fresh.len() == rows.len(),
    ensures
        ok_ids(fresh.push(e), rows.push(row), h) == ok_ids(fresh, rows, h) + (if 0 <= h < row.len()
            && row[h] is Ok {
            seq![e.id]
        } else {
            Seq::<u64>::empty()
        }),
    decreases fresh.len(),
{
    let tail = if 0 <= h < row.len() && row[h] is Ok {
        seq![e.id]
    } else {
        Seq::<u64>::empty()
    };
    if fresh.len() == 0 {
        assert(fresh.push(e)[0] == e);
        assert(rows.push(row)[0] == row);
        assert(fresh.push(e).drop_first() =~= Seq::<EntityView>::empty());
        assert(rows.push(row).drop_first() =~= Seq::<Seq<Result<(), HandlerError>>>::empty());
        assert(ok_ids(
            Seq::<EntityView>::empty(),
            Seq::<Seq<Result<(), HandlerError>>>::empty(),
            h,
        ) =~= Seq::<u64>::empty());
        assert(ok_ids(fresh.push(e), rows.push(row), h) =~= ok_ids(fresh, rows, h) + tail);
    } else {
        assert(fresh.push(e)[0] == fresh[0]);
        assert(rows.push(row)[0] == rows[0]);
        assert(fresh.push(e).drop_first() =~= fresh.drop_first().push(e));
        assert(rows.push(row).drop_first() =~= rows.drop_first().push(row));
        lemma_ok_ids_snoc(fresh.drop_first(), rows.drop_first(), e, row, h);
        if 0 <= h < rows[0].len() && rows[0][h] is Ok {
            assert(seq![fresh[0].id] + (ok_ids(fresh.drop_first(), rows.drop_first(), h) + tail)
                =~= (seq![fresh[0].id] + ok_ids(fresh.drop_first(), rows.drop_first(), h)) + tail);
        }
    }
}

/// Read the snapshot stored under `key` as a collection.
///
/// `None` both when the key is absent and when the stored bytes do not
/// deserialize; the two answers are told apart by `sync_state`.
pub fn read_snapshot(store: &SnapshotStore, key: &str) -> (r: Option<Vec<Entity>>)
    ensures
        match r {
            Some(entities) => store@.contains_key(key@) && spec_decode(store@[key@]) == Some(
                entities.deep_view(),
            ),
            None => !store@.contains_key(key@) || spec_decode(store@[key@]) is None,
        },
{
    match store.get(key) {
        Some(bytes) => decode_entities(&bytes),
        None => None,
    }
}

/// Replace the snapshot under `key` wholesale with `entities`.
pub fn write_snapshot(store: &mut SnapshotStore, key: &str, entities: &Vec<Entity>)
    ensures
        final(store)@ == old(store)@.insert(key@, spec_encode(entities.deep_view())),
{
    let bytes = encode_entities(entities);
    store.put(key, bytes);
}

/// Run one sync cycle for one (platform, entity type) snapshot key.
///
/// `fetched` is what the fetch collaborator produced: `None` on any
/// transport, parse or upstream-schema error. The report says which path was
/// taken; its outcome matrix has one row per fresh entity and one column per
/// handler. The last two clauses pin the deliveries down exactly: handler
/// `h` delivered precisely the fresh entities its column marks `Ok`, in
/// fetch order, whatever the other handlers did — and on every path that
/// announces nothing the handlers are untouched.
pub fn run_cycle<H: ChannelHandler>(
    store: &mut SnapshotStore,
    key: &str,
    fetched: Option<Vec<Entity>>,
    handlers: &mut Vec<H>,
) -> (report: CycleReport)
    ensures
        final(handlers).len() == old(handlers).len(),
        report.outcomes.len() == report.fresh.len(),
        forall|j: int|
            0 <= j < report.outcomes.len() ==> (#[trigger] report.outcomes[j]).len() == old(
                handlers,
            ).len(),
        fetched is None ==> report.kind == CycleKind::FetchFailed && final(store)@ == old(store)@
            && report.fresh.len() == 0,
        fetched is Some && !old(store)@.contains_key(key@) ==> report.kind == CycleKind::ColdStart
            && final(store)@ == old(store)@.insert(
            key@,
            spec_encode(fetched.unwrap().deep_view()),
        ) && report.fresh.len() == 0,
        fetched is Some && old(store)@.contains_key(key@) && spec_decode(old(store)@[key@]) is None
            ==> report.kind == CycleKind::SnapshotUnreadable && final(store)@ == old(store)@
            && report.fresh.len() == 0,
        fetched is Some && old(store)@.contains_key(key@) && spec_decode(old(store)@[key@])
            is Some ==> {
            &&& report.kind == CycleKind::Synced
            &&& report.fresh.deep_view() == fresh_entities(
                fetched.unwrap().deep_view(),
                spec_decode(old(store)@[key@]).unwrap(),
            )
            &&& (report.fresh.len() > 0 ==> final(store)@ == old(store)@.insert(
                key@,
                spec_encode(fetched.unwrap().deep_view()),
            ))
            &&& (report.fresh.len() == 0 ==> final(store)@ == old(store)@)
        },
        forall|h: int|
            0 <= h < old(handlers).len() ==> (#[trigger] final(handlers)@[h]).attempted() == old(
                handlers,
            )@[h].attempted() + all_ids(report.fresh.deep_view()),
        forall|h: int|
            0 <= h < old(handlers).len() ==> (#[trigger] final(handlers)@[h]).delivered() == old(
                handlers,
            )@[h].delivered() + ok_ids(report.fresh.deep_view(), rows_of(report.outcomes@), h),
        report.fresh.len() == 0 ==> final(handlers)@ == old(handlers)@,
{
    match fetched {
        None => {
            let report = CycleReport {
                kind: CycleKind::FetchFailed,
                fresh: Vec::new(),
                outcomes: Vec::new(),
            };
            proof {
                lemma_no_deliveries::<H>(handlers@, report.fresh.deep_view(), report.outcomes@);
            }
            report
        },
        Some(collection) => {
            if !store.has(key) {
                write_snapshot(store, key, &collection);
                let report = CycleReport {
                    kind: CycleKind::ColdStart,
                    fresh: Vec::new(),
                    outcomes: Vec::new(),
                };
                proof {
                    lemma_no_deliveries::<H>(
                        handlers@,
                        report.fresh.deep_view(),
                        report.outcomes@,
                    );
                }
                report
            } else {
                match read_snapshot(store, key) {
                    None => {
                        let report = CycleReport {
                            kind: CycleKind::SnapshotUnreadable,
                            fresh: Vec::new(),
                            outcomes: Vec::new(),
                        };
                        proof {
                            lemma_no_deliveries::<H>(
                                handlers@,
                                report.fresh.deep_view(),
                                report.outcomes@,
                            );
                        }
                        report
                    },
                    Some(cached) => {
                        let fresh = diff_new(&collection, &cached);
                        let mut outcomes: Vec<Vec<Result<(), HandlerError>>> = Vec::new();
                        let mut j: usize = 0;
                        while j < fresh.len()
                            invariant
                                j <= fresh.len(),
                                outcomes.len() == j,
                                handlers.len() == old(handlers).len(),
                                j == 0 ==> handlers@ == old(handlers)@,
                                forall|t: int|
                                    0 <= t < j ==> (#[trigger] outcomes[t]).len() == old(
                                        handlers,
                                    ).len(),
                                forall|h: int|
                                    0 <= h < old(handlers).len() ==> (
                                    #[trigger] handlers@[h]).attempted() == old(
                                        handlers,
                                    )@[h].attempted() + all_ids(
                                        fresh.deep_view().take(j as int),
                                    ),
                                forall|h: int|
                                    0 <= h < old(handlers).len() ==> (
                                    #[trigger] handlers@[h]).delivered() == old(
                                        handlers,
                                    )@[h].delivered() + ok_ids(
                                        fresh.deep_view().take(j as int),
                                        rows_of(outcomes@),
                                        h,
                                    ),
                            decreases fresh.len() - j,
                        {
                            let ghost fresh_before = fresh.deep_view().take(j as int);
                            let ghost rows_before = rows_of(outcomes@);
                            let row = dispatch(&fresh[j], handlers);
                            outcomes.push(row);
                            proof {
                                assert(fresh.deep_view().take(j + 1) =~= fresh_before.push(
                                    fresh.deep_view()[j as int],
                                ));
                                assert(rows_of(outcomes@) =~= rows_before.push(row@));
                                assert(all_ids(fresh.deep_view().take(j + 1)) =~= all_ids(
                                    fresh_before,
                                ).push(fresh.deep_view()[j as int].id));
                                assert forall|h: int|
                                    0 <= h < old(handlers).len() implies (
                                #[trigger] handlers@[h]).attempted() == old(
                                    handlers,
                                )@[h].attempted() + all_ids(fresh.deep_view().take(j + 1)) by {
                                    let base = old(handlers)@[h].attempted();
                                    let prefix = all_ids(fresh_before);
                                    assert(handlers@[h].attempted() == (base + prefix).push(
                                        fresh.deep_view()[j as int].id,
                                    ));
                                    assert((base + prefix).push(fresh.deep_view()[j as int].id)
                                        =~= base + prefix.push(fresh.deep_view()[j as int].id));
                                }
                                assert forall|h: int|
                                    0 <= h < old(handlers).len() implies (
                                #[trigger] handlers@[h]).delivered() == old(
                                    handlers,
                                )@[h].delivered() + ok_ids(
                                    fresh.deep_view().take(j + 1),
                                    rows_of(outcomes@),
                                    h,
                                ) by {
                                    lemma_ok_ids_snoc(
                                        fresh_before,
                                        rows_before,
                                        fresh.deep_view()[j as int],
                                        row@,
                                        h,
                                    );
                                    let base = old(handlers)@[h].delivered();
                                    let prefix = ok_ids(fresh_before, rows_before, h);
                                    if row@[h] is Ok {
                                        assert(handlers@[h].delivered() == (base
                                            + prefix).push(fresh.deep_view()[j as int].id));
                                        assert((base + prefix).push(fresh.deep_view()[j as int].id)
                                            =~= base + (prefix + seq![
                                            fresh.deep_view()[j as int].id,
                                        ]));
                                    } else {
                                        assert(prefix + Seq::<u64>::empty() =~= prefix);
                                    }
                                }
                            }
                            j = j + 1;
                        }
                        proof {
                            assert(fresh.deep_view().take(fresh.len() as int) =~= fresh.deep_view());
                        }
                        if fresh.len() > 0 {
                            write_snapshot(store, key, &collection);
                        }
                        CycleReport { kind: CycleKind::Synced, fresh, outcomes }
                    },
                }
            }
        },
    }
}

proof fn lemma_no_deliveries<H: ChannelHandler>(
    hs: Seq<H>,
    fresh: Seq<EntityView>,
    outcomes: Seq<Vec<Result<(), HandlerError>>>,
)
    requires
        fresh.len() == 0,
    ensures
        forall|h: int|
            0 <= h < hs.len() ==> (#[trigger] hs[h]).attempted() == hs[h].attempted() + all_ids(
                fresh,
            ),
        forall|h: int|
            0 <= h < hs.len() ==> (#[trigger] hs[h]).delivered() == hs[h].delivered() + ok_ids(
                fresh,
                rows_of(outcomes),
                h,
            ),
{
    assert(all_ids(fresh) =~= Seq::<u64>::empty());
    assert forall|h: int|
        0 <= h < hs.len() implies (#[trigger] hs[h]).attempted() == hs[h].attempted() + all_ids(
        fresh,
    ) by {
        assert(hs[h].attempted() + Seq::<u64>::empty() =~= hs[h].attempted());
    }
    assert forall|h: int|
        0 <= h < hs.len() implies (#[trigger] hs[h]).delivered() == hs[h].delivered() + ok_ids(
        fresh,
        rows_of(outcomes),
        h,
    ) by {
        assert(ok_ids(fresh, rows_of(outcomes), h) =~= Seq::<u64>::empty());
        assert(hs[h].delivered() + Seq::<u64>::empty() =~= hs[h].delivered());
    }
}

/// Idempotence across cycles: a tracked cycle that found anything new wrote
/// `spec_encode` of its fetch as the snapshot; a later cycle whose fetch is
/// unchanged decodes exactly that collection back and reports nothing — so
/// by `run_cycle`'s contract it announces nothing, leaves the store
/// untouched and leaves every handler untouched.
pub proof fn lemma_repeated_fetch_is_quiet(f: Seq<EntityView>)
    requires
        crate::codec::bounded_collection(f),
    ensures
        spec_decode(spec_encode(f)) == Some(f),
        fresh_entities(f, f) == Seq::<EntityView>::empty(),
{
    crate::codec::lemma_codec_round_trip(f);
    crate::diff::lemma_unchanged_fetch_reports_nothing(f);
}

} // verus!
