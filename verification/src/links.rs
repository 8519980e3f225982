//! The thread-link tracker: a specialization of the snapshot store that maps
//! a root entity's identity to the thread identifier its announcement
//! received from the destination system.
//!
//! A threading-capable channel handler records the link right after the root
//! entity (say, a proposal) is posted, and resolves it when a dependent
//! entity (a vote or comment on that proposal) is announced, to reply
//! in-thread. Links are never expired or deleted; when one is absent the
//! handler degrades to a non-threaded post or skips, by its own policy.

use vstd::prelude::*;

verus! {

/// The mathematical value of one recorded link.
pub ghost struct ThreadLinkView {
    pub entity_id: u64,
    pub thread_id: Seq<char>,
}

/// One recorded link, exposed so that a host process can load and persist
/// the tracker's contents.
pub struct ThreadLink {
    pub entity_id: u64,
    pub thread_id: String,
}

impl View for ThreadLink {
    type V = ThreadLinkView;

    open spec fn view(&self) -> ThreadLinkView {
        ThreadLinkView { entity_id: self.entity_id, thread_id: self.thread_id@ }
    }
}

impl DeepView for ThreadLink {
    type V = ThreadLinkView;

    open spec fn deep_view(&self) -> ThreadLinkView {
        self.view()
    }
}

/// The map a link sequence denotes.
pub open spec fn links_map(s: Seq<ThreadLinkView>) -> Map<u64, Seq<char>>
    decreases s.len(),
{
    if s.len() == 0 {
        Map::empty()
    } else {
        links_map(s.drop_last()).insert(s.last().entity_id, s.last().thread_id)
    }
}

spec fn distinct_ids(s: Seq<ThreadLinkView>) -> bool {
    forall|i: int, j: int| 0 <= i < j < s.len() ==> s[i].entity_id != s[j].entity_id
}

proof fn lemma_links_map_lookup(s: Seq<ThreadLinkView>, i: int)
    requires
        distinct_ids(s),
        0 <= i < s.len(),
    ensures
        links_map(s).contains_key(s[i].entity_id),
        links_map(s)[s[i].entity_id] == s[i].thread_id,
    decreases s.len(),
{
    if i < s.len() - 1 {
        assert(s.drop_last()[i] == s[i]);
        lemma_links_map_lookup(s.drop_last(), i);
        assert(s[i].entity_id != s.last().entity_id);
    }
}

proof fn lemma_links_map_absent(s: Seq<ThreadLinkView>, id: u64)
    requires
        forall|i: int| 0 <= i < s.len() ==> (#[trigger] s[i].entity_id) != id,
    ensures
        !links_map(s).contains_key(id),
    decreases s.len(),
{
    if s.len() > 0 {
        assert(forall|i: int|
            0 <= i < s.drop_last().len() ==> (#[trigger] s.drop_last()[i].entity_id)
                == s[i].entity_id);
        lemma_links_map_absent(s.drop_last(), id);
    }
}

proof fn lemma_links_map_update(s: Seq<ThreadLinkView>, i: int, e: ThreadLinkView)
    requires
        distinct_ids(s),
        0 <= i < s.len(),
        e.entity_id == s[i].entity_id,
    ensures
        links_map(s.update(i, e)) =~= links_map(s).insert(e.entity_id, e.thread_id),
    decreases s.len(),
{
    let t = s.update(i, e);
    if i == s.len() - 1 {
        assert(t.drop_last() =~= s.drop_last());
        assert(t.last() == e);
    } else {
        assert(t.drop_last() =~= s.drop_last().update(i, e));
        assert(s.drop_last()[i] == s[i]);
        lemma_links_map_update(s.drop_last(), i, e);
        assert(t.last() == s.last());
        assert(e.entity_id != s.last().entity_id);
    }
}

/// The tracker. Its abstract value is a map from a root entity's identity to
/// the thread identifier under which it was announced.
pub struct ThreadLinks {
    links: Vec<ThreadLink>,
}

impl View for ThreadLinks {
    type V = Map<u64, Seq<char>>;

    closed spec fn view(&self) -> Map<u64, Seq<char>> {
        links_map(self.links.deep_view())
    }
}

impl ThreadLinks {
    #[verifier::type_invariant]
    spec fn wf(self) -> bool {
        distinct_ids(self.links.deep_view())
    }

    /// A tracker with no recorded links.
    pub fn new() -> (t: ThreadLinks)
        ensures
            t@ == Map::<u64, Seq<char>>::empty(),
    {
        ThreadLinks { links: Vec::new() }
    }

    fn position_of(&self, entity_id: u64) -> (r: Option<usize>)
        ensures
            match r {
                Some(i) => i < self.links.len() && self.links.deep_view()[i as int].entity_id
                    == entity_id,
                None => forall|i: int|
                    0 <= i < self.links.len() ==> (#[trigger] self.links.deep_view()[i].entity_id)
                        != entity_id,
            },
    {
        let mut i: usize = 0;
        while i < self.links.len()
            invariant
                i <= self.links.len(),
                forall|k: int|
                    0 <= k < i ==> (#[trigger] self.links.deep_view()[k].entity_id) != entity_id,
            decreases self.links.len() - i,
        {
            if self.links[i].entity_id == entity_id {
                return Some(i);
            }
            i = i + 1;
        }
        None
    }

    /// Record the thread identifier a root entity's announcement received.
    /// Recording again for the same identity replaces the link.
    pub fn record(&mut self, entity_id: u64, thread_id: String)
        ensures
            final(self)@ == old(self)@.insert(entity_id, thread_id@),
    {
        proof {
            use_type_invariant(&*self);
        }
        let ghost s0 = self.links.deep_view();
        let position = self.position_of(entity_id);
        let mut links: Vec<ThreadLink> = Vec::new();
        std::mem::swap(&mut links, &mut self.links);
        match position {
            Some(i) => {
                let ghost thread_view = thread_id@;
                let link = &mut links[i];
                link.thread_id = thread_id;
                proof {
                    assert(links.deep_view() =~= s0.update(
                        i as int,
                        ThreadLinkView { entity_id, thread_id: thread_view },
                    ));
                    lemma_links_map_update(
                        s0,
                        i as int,
                        ThreadLinkView { entity_id, thread_id: thread_view },
                    );
                    assert(distinct_ids(links.deep_view()));
                }
            },
            None => {
                links.push(ThreadLink { entity_id, thread_id });
                proof {
                    assert(links.deep_view().drop_last() =~= s0);
                    assert forall|i: int, j: int|
                        0 <= i < j < links.deep_view().len() implies links.deep_view()[i].entity_id
                        != links.deep_view()[j].entity_id by {
                        if j < links.deep_view().len() - 1 {
                            assert(s0[i].entity_id != s0[j].entity_id);
                        } else {
                            assert(links.deep_view()[i] == s0[i]);
                        }
                    }
                }
            },
        }
        self.links = links;
        proof {
            assert(final(self)@ =~= old(self)@.insert(entity_id, thread_id@));
        }
    }

    /// The thread identifier recorded for `entity_id`, if any: a dependent
    /// entity's handler calls this to post its notification in-thread.
    pub fn resolve(&self, entity_id: u64) -> (r: Option<String>)
        ensures
            match r {
                Some(thread_id) => self@.contains_key(entity_id) && thread_id@ == self@[entity_id],
                None => !self@.contains_key(entity_id),
            },
    {
        proof {
            use_type_invariant(&*self);
        }
        match self.position_of(entity_id) {
            Some(i) => {
                proof {
                    lemma_links_map_lookup(self.links.deep_view(), i as int);
                }
                Some(self.links[i].thread_id.clone())
            },
            None => {
                proof {
                    lemma_links_map_absent(self.links.deep_view(), entity_id);
                }
                None
            },
        }
    }

    /// The recorded links, for a host process that persists the tracker:
    /// they denote exactly the tracker's map, so a tracker rebuilt from them
    /// is the same tracker.
    pub fn entries(&self) -> (r: &Vec<ThreadLink>)
        ensures
            links_map(r.deep_view()) == self@,
            forall|i: int|
                0 <= i < r.deep_view().len() ==> self@.contains_key(
                    (#[trigger] r.deep_view()[i]).entity_id,
                ) && self@[r.deep_view()[i].entity_id] == r.deep_view()[i].thread_id,
    {
        proof {
            use_type_invariant(&*self);
            assert forall|i: int|
                0 <= i < self.links.deep_view().len() implies self@.contains_key(
                (#[trigger] self.links.deep_view()[i]).entity_id,
            ) && self@[self.links.deep_view()[i].entity_id]
                == self.links.deep_view()[i].thread_id by {
                lemma_links_map_lookup(self.links.deep_view(), i);
            }
        }
        &self.links
    }

    /// Rebuild a tracker from persisted links; of links sharing one identity
    /// the later wins, as in a replayed sequence of records.
    pub fn from_entries(pairs: Vec<ThreadLink>) -> (t: ThreadLinks)
        ensures
            t@ == links_map(pairs.deep_view()),
    {
        let mut t = ThreadLinks::new();
        let mut i: usize = 0;
        while i < pairs.len()
            invariant
                i <= pairs.len(),
                t@ =~= links_map(pairs.deep_view().take(i as int)),
            decreases pairs.len() - i,
        {
            let link = &pairs[i];
            t.record(link.entity_id, link.thread_id.clone());
            proof {
                let u = pairs.deep_view().take(i + 1);
                assert(u.drop_last() =~= pairs.deep_view().take(i as int));
                assert(u.last() == pairs.deep_view()[i as int]);
            }
            i = i + 1;
        }
        proof {
            assert(pairs.deep_view().take(pairs.len() as int) =~= pairs.deep_view());
        }
        t
    }
}

/// The thread-link round trip: once a root entity's thread identifier is
/// recorded, resolving that identity yields that identifier, in the same
/// cycle and in every later one — links recorded for other roots in between
/// do not disturb it, and links are never deleted.
pub proof fn lemma_thread_link_round_trip(
    m: Map<u64, Seq<char>>,
    root: u64,
    thread: Seq<char>,
    other: u64,
    other_thread: Seq<char>,
)
    requires
        other != root,
    ensures
        m.insert(root, thread).contains_key(root),
        m.insert(root, thread)[root] == thread,
        m.insert(root, thread).insert(other, other_thread).contains_key(root),
        m.insert(root, thread).insert(other, other_thread)[root] == thread,
{
}

} // verus!
