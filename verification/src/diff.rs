//! The diff engine: which entities of a freshly fetched collection were not
//! present in the cached snapshot.

use vstd::prelude::*;

use crate::entity::{Entity, EntityView};

verus! {

/// Does some entity of `s` carry the identity `id`?
pub open spec fn contains_id(s: Seq<EntityView>, id: u64) -> bool {
    exists|i: int| 0 <= i < s.len() && s[i].id == id
}

/// How many entities of `s` carry the identity `id`.
pub open spec fn count_id(s: Seq<EntityView>, id: u64) -> nat
    decreases s.len(),
{
    if s.len() == 0 {
        0
    } else {
        (if s[0].id == id {
            1nat
        } else {
            0nat
        }) + count_id(s.drop_first(), id)
    }
}

/// Position `i` of `fetched` is reported as new against `cached` when its
/// identity appears neither in the cached snapshot nor later in `fetched`
/// itself: of duplicated identities (which upstream should not produce) only
/// the later occurrence counts, so no identity is reported twice.
pub open spec fn reported_at(fetched: Seq<EntityView>, cached: Seq<EntityView>, i: int) -> bool {
    &&& !contains_id(cached, fetched[i].id)
    &&& !contains_id(fetched.skip(i + 1), fetched[i].id)
}

/// The entities of `fetched` from position `i` on that are new against
/// `cached`, in fetch order.
pub open spec fn fresh_from(fetched: Seq<EntityView>, cached: Seq<EntityView>, i: int) -> Seq<
    EntityView,
>
    decreases fetched.len() - i,
{
    if i < 0 || i >= fetched.len() {
        Seq::empty()
    } else if reported_at(fetched, cached, i) {
        seq![fetched[i]] + fresh_from(fetched, cached, i + 1)
    } else {
        fresh_from(fetched, cached, i + 1)
    }
}

/// The newly appeared entities of `fetched` against the snapshot `cached`:
/// those whose identity the snapshot does not contain, in fetch order, each
/// identity at most once.
pub open spec fn fresh_entities(fetched: Seq<EntityView>, cached: Seq<EntityView>) -> Seq<
    EntityView,
> {
    fresh_from(fetched, cached, 0)
}

/// Does any entity of `entities`, at position `from` or later, carry `id`?
fn contains_id_from(entities: &Vec<Entity>, id: u64, from: usize) -> (r: bool)
    requires
        from <= entities.len(),
    ensures
        r == contains_id(entities.deep_view().skip(from as int), id),
{
    let ghost suffix = entities.deep_view().skip(from as int);
    let mut j: usize = from;
    while j < entities.len()
        invariant
            from <= j <= entities.len(),
            suffix == entities.deep_view().skip(from as int),
            forall|k: int| from <= k < j ==> entities.deep_view()[k].id != id,
        decreases entities.len() - j,
    {
        if entities[j].id == id {
            proof {
                assert(suffix[j - from] == entities.deep_view()[j as int]);
            }
            return true;
        }
        j = j + 1;
    }
    proof {
        assert forall|i: int| 0 <= i < suffix.len() implies suffix[i].id != id by {
            assert(suffix[i] == entities.deep_view()[i + from]);
        }
    }
    false
}

proof fn lemma_cons_count(x: EntityView, s: Seq<EntityView>, id: u64)
    ensures
        count_id(seq![x] + s, id) == (if x.id == id {
            1nat
        } else {
            0nat
        }) + count_id(s, id),
{
    let t = seq![x] + s;
    assert(t[0] == x);
    assert(t.drop_first() =~= s);
}

proof fn lemma_contains_id_skip(f: Seq<EntityView>, id: u64, i: int)
    requires
        0 <= i < f.len(),
    ensures
        contains_id(f.skip(i), id) <==> (f[i].id == id || contains_id(f.skip(i + 1), id)),
{
    let s = f.skip(i);
    let t = f.skip(i + 1);
    assert(s[0] == f[i]);
    assert forall|k: int| 0 <= k < t.len() implies t[k] == s[k + 1] by {
        assert(t[k] == f[k + i + 1]);
        assert(s[k + 1] == f[k + 1 + i]);
    }
    if contains_id(s, id) {
        let k = choose|k: int| 0 <= k < s.len() && s[k].id == id;
        if k > 0 {
            assert(t[k - 1] == s[k]);
        }
    }
    if contains_id(t, id) {
        let k = choose|k: int| 0 <= k < t.len() && t[k].id == id;
        assert(s[k + 1] == t[k]);
    }
}

proof fn lemma_fresh_from_count_new(f: Seq<EntityView>, c: Seq<EntityView>, id: u64, i: int)
    requires
        0 <= i <= f.len(),
        !contains_id(c, id),
    ensures
        count_id(fresh_from(f, c, i), id) == (if contains_id(f.skip(i), id) {
            1nat
        } else {
            0nat
        }),
    decreases f.len() - i,
{
    if i == f.len() {
        assert(f.skip(i) =~= Seq::<EntityView>::empty());
    } else {
        lemma_fresh_from_count_new(f, c, id, i + 1);
        lemma_contains_id_skip(f, id, i);
        let rest = fresh_from(f, c, i + 1);
        if reported_at(f, c, i) {
            lemma_cons_count(f[i], rest, id);
        }
        if f[i].id == id && contains_id(f.skip(i + 1), id) {
            assert(!reported_at(f, c, i));
        }
        if f[i].id == id && !contains_id(f.skip(i + 1), id) {
            assert(reported_at(f, c, i));
        }
    }
}

proof fn lemma_fresh_from_count_old(f: Seq<EntityView>, c: Seq<EntityView>, id: u64, i: int)
    requires
        0 <= i <= f.len(),
        contains_id(c, id),
    ensures
        count_id(fresh_from(f, c, i), id) == 0,
    decreases f.len() - i,
{
    if i < f.len() {
        lemma_fresh_from_count_old(f, c, id, i + 1);
        let rest = fresh_from(f, c, i + 1);
        if reported_at(f, c, i) {
            assert(f[i].id != id);
            lemma_cons_count(f[i], rest, id);
        }
    }
}

/// Monotonic detection, the appearing side: an identity present in the fetch
/// and absent from the snapshot is reported as new exactly once in that
/// cycle.
pub proof fn lemma_new_id_reported_once(fetched: Seq<EntityView>, cached: Seq<EntityView>, id: u64)
    requires
        contains_id(fetched, id),
        !contains_id(cached, id),
    ensures
        count_id(fresh_entities(fetched, cached), id) == 1,
{
    assert(fetched.skip(0) =~= fetched);
    lemma_fresh_from_count_new(fetched, cached, id, 0);
}

/// Monotonic detection, the settled side: an identity the snapshot already
/// contains is never reported again, so nothing is announced more than once
/// across cycles.
pub proof fn lemma_known_id_not_reported(fetched: Seq<EntityView>, cached: Seq<EntityView>, id: u64)
    requires
        contains_id(cached, id),
    ensures
        count_id(fresh_entities(fetched, cached), id) == 0,
{
    lemma_fresh_from_count_old(fetched, cached, id, 0);
}

proof fn lemma_fresh_from_subset_empty(f: Seq<EntityView>, c: Seq<EntityView>, i: int)
    requires
        0 <= i <= f.len(),
        forall|j: int| 0 <= j < f.len() ==> contains_id(c, #[trigger] f[j].id),
    ensures
        fresh_from(f, c, i) == Seq::<EntityView>::empty(),
    decreases f.len() - i,
{
    if i < f.len() {
        assert(contains_id(c, f[i].id));
        assert(!reported_at(f, c, i));
        lemma_fresh_from_subset_empty(f, c, i + 1);
    }
}

/// Shrinkage non-reaction: when every fetched identity is already in the
/// snapshot — in particular when the fetch is a strict subset of it, as after
/// upstream removals — nothing at all is reported; the diff never produces a
/// deletion.
pub proof fn lemma_shrinkage_reports_nothing(fetched: Seq<EntityView>, cached: Seq<EntityView>)
    requires
        forall|j: int| 0 <= j < fetched.len() ==> contains_id(cached, #[trigger] fetched[j].id),
    ensures
        fresh_entities(fetched, cached) == Seq::<EntityView>::empty(),
{
    lemma_fresh_from_subset_empty(fetched, cached, 0);
}

/// Idempotence at the diff: a fetch identical to the snapshot reports
/// nothing, so a cycle repeated on an unchanged collection announces nothing.
pub proof fn lemma_unchanged_fetch_reports_nothing(s: Seq<EntityView>)
    ensures
        fresh_entities(s, s) == Seq::<EntityView>::empty(),
{
    assert forall|j: int| 0 <= j < s.len() implies contains_id(s, #[trigger] s[j].id) by {
        assert(0 <= j < s.len() && s[j].id == s[j].id);
    }
    lemma_shrinkage_reports_nothing(s, s);
}

/// Compute the newly appeared entities of `fetched` against `cached`.
///
/// The result is exactly `fresh_entities` of the two collections: the
/// entities whose identity the snapshot lacks, in fetch order, with a
/// duplicated identity reported only once. An absent snapshot is not an empty
/// one; the cold-start rule lives in the cycle orchestrator, which does not
/// call the diff engine at all on the first observation.
pub fn diff_new(fetched: &Vec<Entity>, cached: &Vec<Entity>) -> (fresh: Vec<Entity>)
    ensures
        fresh.deep_view() == fresh_entities(fetched.deep_view(), cached.deep_view()),
{
    let ghost f = fetched.deep_view();
    let ghost c = cached.deep_view();
    let mut fresh: Vec<Entity> = Vec::new();
    let mut i: usize = 0;
    while i < fetched.len()
        invariant
            i <= fetched.len(),
            f == fetched.deep_view(),
            c == cached.deep_view(),
            fresh_entities(f, c) == fresh.deep_view() + fresh_from(f, c, i as int),
        decreases fetched.len() - i,
    {
        let in_cache = contains_id_from(cached, fetched[i].id, 0);
        let repeated_later = contains_id_from(fetched, fetched[i].id, i + 1);
        proof {
            assert(c.skip(0) =~= c);
            assert(fetched.deep_view()[i as int] == f[i as int]);
        }
        if !in_cache && !repeated_later {
            let ghost before = fresh.deep_view();
            fresh.push(fetched[i].duplicate());
            proof {
                assert(reported_at(f, c, i as int));
                assert(fresh.deep_view() =~= before + seq![f[i as int]]);
                assert(before + (seq![f[i as int]] + fresh_from(f, c, i as int + 1)) =~= (before
                    + seq![f[i as int]]) + fresh_from(f, c, i as int + 1));
            }
        } else {
            proof {
                assert(!reported_at(f, c, i as int));
            }
        }
        i = i + 1;
    }
    proof {
        assert(fresh.deep_view() + fresh_from(f, c, i as int) =~= fresh.deep_view());
    }
    fresh
}

} // verus!
