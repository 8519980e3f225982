use vstd::prelude::*;

verus! {

/// The mathematical value of an [`Entity`]: its identity and the bytes of its
/// payload. Contracts throughout the engine speak of sequences of these.
pub ghost struct EntityView {
    pub id: u64,
    pub payload: Seq<u8>,
}

/// A record fetched from a platform feed: a stable numeric identity plus an
/// opaque payload the engine stores and forwards but never interprets.
///
/// Within one collection of a single entity type the identities are expected
/// to be unique; the diff engine nevertheless has a defined answer when they
/// are not (see `fresh_entities`).
#[derive(Clone, Debug)]
pub struct Entity {
    pub id: u64,
    pub payload: Vec<u8>,
}

impl View for Entity {
    type V = EntityView;

    open spec fn view(&self) -> EntityView {
        EntityView { id: self.id, payload: self.payload@ }
    }
}

impl DeepView for Entity {
    type V = EntityView;

    open spec fn deep_view(&self) -> EntityView {
        self.view()
    }
}

impl Entity {
    pub fn new(id: u64, payload: Vec<u8>) -> (e: Entity)
        ensures
            e.id == id,
            e.payload == payload,
    {
        Entity { id, payload }
    }

    /// A copy whose value is provably that of the original.
    pub fn duplicate(&self) -> (e: Entity)
        ensures
            e@ == self@,
    {
        let payload = self.payload.clone();
        proof {
            assert(payload@ =~= self.payload@);
        }
        Entity { id: self.id, payload }
    }
}

} // verus!
