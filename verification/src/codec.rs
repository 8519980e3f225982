//! The snapshot wire format: a collection of entities as a flat byte value
//! for the snapshot store, and back.
//!
//! Layout: an eight-byte little-endian count, then per entity its eight-byte
//! identity, the eight-byte length of its payload, and the payload bytes.
//! Decoding accepts exactly the byte strings this layout produces and
//! consumes them wholly; anything else is rejected, and the typed read of a
//! snapshot answers `None` as it does for an absent key.

use vstd::bytes::lemma_auto_spec_u64_to_from_le_bytes;
use vstd::bytes::spec_u64_from_le_bytes;
use vstd::bytes::spec_u64_to_le_bytes;
use vstd::bytes::u64_from_le_bytes;
use vstd::bytes::u64_to_le_bytes;
use vstd::prelude::*;
use vstd::slice::slice_subrange;
use vstd::slice::slice_to_vec;

use crate::entity::{Entity, EntityView};

verus! {

/// The payload length fits the eight-byte length field.
pub open spec fn bounded_entity(e: EntityView) -> bool {
    e.payload.len() <= u64::MAX
}

/// Every payload and the collection's own length fit their length fields.
/// Every collection held in an executable vector satisfies this.
pub open spec fn bounded_collection(s: Seq<EntityView>) -> bool {
    &&& s.len() <= u64::MAX
    &&& forall|i: int| 0 <= i < s.len() ==> bounded_entity(#[trigger] s[i])
}

/// The bytes of one entity: identity, payload length, payload.
pub open spec fn enc_entity(e: EntityView) -> Seq<u8> {
    spec_u64_to_le_bytes(e.id) + spec_u64_to_le_bytes(e.payload.len() as u64) + e.payload
}

/// The bytes of the entities of `s`, in order, without the leading count.
pub open spec fn enc_list(s: Seq<EntityView>) -> Seq<u8>
    decreases s.len(),
{
    if s.len() == 0 {
        Seq::empty()
    } else {
        enc_entity(s[0]) + enc_list(s.drop_first())
    }
}

/// The serialized form of a collection.
pub open spec fn spec_encode(s: Seq<EntityView>) -> Seq<u8> {
    spec_u64_to_le_bytes(s.len() as u64) + enc_list(s)
}

/// Decode one entity from the front of `b`: the entity and the remaining
/// bytes, or `None` when `b` does not start with a well-formed entity.
pub open spec fn dec_entity(b: Seq<u8>) -> Option<(EntityView, Seq<u8>)> {
    if b.len() < 16 {
        None
    } else {
        let id = spec_u64_from_le_bytes(b.subrange(0, 8));
        let len = spec_u64_from_le_bytes(b.subrange(8, 16)) as int;
        if b.len() - 16 < len {
            None
        } else {
            Some(
                (
                    EntityView { id, payload: b.subrange(16, 16 + len) },
                    b.skip(16 + len),
                ),
            )
        }
    }
}

/// Decode `n` entities from the front of `b`: the entities and the remaining
/// bytes.
pub open spec fn dec_list(b: Seq<u8>, n: nat) -> Option<(Seq<EntityView>, Seq<u8>)>
    decreases n,
{
    if n == 0 {
        Some((Seq::empty(), b))
    } else {
        match dec_entity(b) {
            None => None,
            Some((e, rest)) => match dec_list(rest, (n - 1) as nat) {
                None => None,
                Some((s, tail)) => Some((seq![e] + s, tail)),
            },
        }
    }
}

/// The collection a byte value denotes, if it is exactly a serialized
/// collection.
pub open spec fn spec_decode(b: Seq<u8>) -> Option<Seq<EntityView>> {
    if b.len() < 8 {
        None
    } else {
        let n = spec_u64_from_le_bytes(b.subrange(0, 8));
        match dec_list(b.skip(8), n as nat) {
            None => None,
            Some((s, tail)) => if tail.len() == 0 {
                Some(s)
            } else {
                None
            },
        }
    }
}

proof fn lemma_enc_list_snoc(s: Seq<EntityView>, e: EntityView)
    ensures
        enc_list(s.push(e)) == enc_list(s) + enc_entity(e),
    decreases s.len(),
{
    if s.len() == 0 {
        assert(s.push(e)[0] == e);
        assert(s.push(e).drop_first() =~= Seq::<EntityView>::empty());
        assert(enc_list(Seq::<EntityView>::empty()) =~= Seq::<u8>::empty());
        assert(enc_list(s.push(e)) =~= enc_entity(e) + Seq::<u8>::empty());
        assert(enc_list(s.push(e)) =~= enc_list(s) + enc_entity(e));
    } else {
        assert(s.push(e)[0] == s[0]);
        assert(s.push(e).drop_first() =~= s.drop_first().push(e));
        lemma_enc_list_snoc(s.drop_first(), e);
        assert(enc_entity(s[0]) + (enc_list(s.drop_first()) + enc_entity(e)) =~= (enc_entity(s[0])
            + enc_list(s.drop_first())) + enc_entity(e));
    }
}

/// Serialize a collection for the snapshot store.
pub fn encode_entities(entities: &Vec<Entity>) -> (b: Vec<u8>)
    ensures
        b@ == spec_encode(entities.deep_view()),
{
    proof {
        lemma_auto_spec_u64_to_from_le_bytes();
    }
    let ghost s = entities.deep_view();
    let mut b: Vec<u8> = u64_to_le_bytes(entities.len() as u64);
    let mut i: usize = 0;
    while i < entities.len()
        invariant
            i <= entities.len(),
            s == entities.deep_view(),
            b@ == spec_u64_to_le_bytes(s.len() as u64) + enc_list(s.take(i as int)),
        decreases entities.len() - i,
    {
        let entity = &entities[i];
        let ghost b_before = b@;
        let mut id_bytes = u64_to_le_bytes(entity.id);
        b.append(&mut id_bytes);
        let mut len_bytes = u64_to_le_bytes(entity.payload.len() as u64);
        b.append(&mut len_bytes);
        b.extend_from_slice(entity.payload.as_slice());
        proof {
            assert(b@ =~= b_before + enc_entity(s[i as int])) by {
                assert(entity.deep_view() == s[i as int]);
                assert(forall|k: int|
                    0 <= k < entity.payload@.len() ==> b@[b_before.len() + 16 + k]
                        == entity.payload@[k]);
            }
            lemma_enc_list_snoc(s.take(i as int), s[i as int]);
            assert(s.take(i as int).push(s[i as int]) =~= s.take(i + 1));
            assert(b@ =~= spec_u64_to_le_bytes(s.len() as u64) + enc_list(s.take(i + 1)));
        }
        i = i + 1;
    }
    proof {
        assert(s.take(s.len() as int) =~= s);
    }
    b
}

/// Prefix already-decoded entities onto the outcome of decoding the rest.
spec fn prepend_decoded(p: Seq<EntityView>, o: Option<(Seq<EntityView>, Seq<u8>)>) -> Option<
    (Seq<EntityView>, Seq<u8>),
> {
    match o {
        None => None,
        Some((s, tail)) => Some((p + s, tail)),
    }
}

fn read_u64_at(bytes: &Vec<u8>, pos: usize) -> (x: u64)
    requires
        pos + 8 <= bytes.len(),
    ensures
        x == spec_u64_from_le_bytes(bytes@.subrange(pos as int, pos as int + 8)),
{
    let s = slice_subrange(bytes.as_slice(), pos, pos + 8);
    u64_from_le_bytes(s)
}

/// Deserialize a byte value read from the snapshot store.
///
/// Succeeds exactly on the byte strings that `spec_decode` accepts, and then
/// returns the collection they denote.
pub fn decode_entities(bytes: &Vec<u8>) -> (r: Option<Vec<Entity>>)
    ensures
        match r {
            Some(entities) => spec_decode(bytes@) == Some(entities.deep_view()),
            None => spec_decode(bytes@) is None,
        },
{
    if bytes.len() < 8 {
        return None;
    }
    let n = read_u64_at(bytes, 0);
    let mut acc: Vec<Entity> = Vec::new();
    let mut pos: usize = 8;
    let mut k: u64 = 0;
    while k < n
        invariant
            8 <= pos <= bytes.len(),
            k <= n,
            n == spec_u64_from_le_bytes(bytes@.subrange(0, 8)),
            dec_list(bytes@.skip(8), n as nat) == prepend_decoded(
                acc.deep_view(),
                dec_list(bytes@.skip(pos as int), (n - k) as nat),
            ),
        decreases n - k,
    {
        let ghost here = bytes@.skip(pos as int);
        if bytes.len() - pos < 16 {
            proof {
                assert(here.len() < 16);
            }
            return None;
        }
        let id = read_u64_at(bytes, pos);
        let len64 = read_u64_at(bytes, pos + 8);
        proof {
            assert(here.subrange(0, 8) =~= bytes@.subrange(pos as int, pos as int + 8));
            assert(here.subrange(8, 16) =~= bytes@.subrange(pos as int + 8, pos as int + 16));
        }
        let remaining = bytes.len() - pos - 16;
        if len64 > remaining as u64 {
            proof {
                assert(here.len() - 16 < len64 as int);
            }
            return None;
        }
        let len: usize = len64 as usize;
        let payload = slice_to_vec(slice_subrange(bytes.as_slice(), pos + 16, pos + 16 + len));
        let entity = Entity::new(id, payload);
        let ghost acc_before = acc.deep_view();
        acc.push(entity);
        let ghost new_pos = pos + 16 + len;
        proof {
            assert(here.subrange(16, 16 + len64 as int) =~= bytes@.subrange(
                pos as int + 16,
                pos as int + 16 + len64 as int,
            ));
            assert(here.skip(16 + len64 as int) =~= bytes@.skip(new_pos as int));
            assert(dec_entity(here) == Some((entity.deep_view(), bytes@.skip(new_pos as int))));
            assert(acc.deep_view() =~= acc_before + seq![entity.deep_view()]);
            let o = dec_list(bytes@.skip(new_pos as int), (n - k - 1) as nat);
            assert(dec_list(here, (n - k) as nat) == prepend_decoded(seq![entity.deep_view()], o));
            match o {
                None => {},
                Some((s, tail)) => {
                    assert(acc_before + (seq![entity.deep_view()] + s) =~= (acc_before + seq![
                        entity.deep_view(),
                    ]) + s);
                },
            }
        }
        pos = pos + 16 + len;
        k = k + 1;
    }
    proof {
        assert(dec_list(bytes@.skip(pos as int), 0) == Some(
            (Seq::<EntityView>::empty(), bytes@.skip(pos as int)),
        ));
        assert(acc.deep_view() + Seq::<EntityView>::empty() =~= acc.deep_view());
    }
    if pos == bytes.len() {
        proof {
            assert(bytes@.skip(pos as int).len() == 0);
        }
        Some(acc)
    } else {
        proof {
            assert(bytes@.skip(pos as int).len() > 0);
        }
        None
    }
}

proof fn lemma_dec_entity_of_enc(e: EntityView, rest: Seq<u8>)
    requires
        bounded_entity(e),
    ensures
        dec_entity(enc_entity(e) + rest) == Some((e, rest)),
{
    lemma_auto_spec_u64_to_from_le_bytes();
    let b = enc_entity(e) + rest;
    let len = e.payload.len() as int;
    assert(spec_u64_to_le_bytes(e.id).len() == 8);
    assert(spec_u64_to_le_bytes(e.payload.len() as u64).len() == 8);
    assert(b.subrange(0, 8) =~= spec_u64_to_le_bytes(e.id));
    assert(b.subrange(8, 16) =~= spec_u64_to_le_bytes(e.payload.len() as u64));
    assert(spec_u64_from_le_bytes(b.subrange(8, 16)) == e.payload.len() as u64);
    assert(e.payload.len() as u64 as int == len);
    assert(b.subrange(16, 16 + len) =~= e.payload);
    assert(b.skip(16 + len) =~= rest);
}

proof fn lemma_dec_list_of_enc(s: Seq<EntityView>, rest: Seq<u8>)
    requires
        forall|i: int| 0 <= i < s.len() ==> bounded_entity(#[trigger] s[i]),
    ensures
        dec_list(enc_list(s) + rest, s.len()) == Some((s, rest)),
    decreases s.len(),
{
    if s.len() == 0 {
        assert(enc_list(s) + rest =~= rest);
    } else {
        let tail_bytes = enc_list(s.drop_first()) + rest;
        assert((enc_entity(s[0]) + enc_list(s.drop_first())) + rest =~= enc_entity(s[0])
            + tail_bytes);
        lemma_dec_entity_of_enc(s[0], tail_bytes);
        assert(forall|i: int|
            0 <= i < s.drop_first().len() ==> bounded_entity(#[trigger] s.drop_first()[i]));
        lemma_dec_list_of_enc(s.drop_first(), rest);
        assert(seq![s[0]] + s.drop_first() =~= s);
    }
}

/// The codec round trip: decoding what was encoded gives back exactly the
/// encoded collection, so a snapshot written by one cycle is read intact by
/// the next.
pub proof fn lemma_codec_round_trip(s: Seq<EntityView>)
    requires
        bounded_collection(s),
    ensures
        spec_decode(spec_encode(s)) == Some(s),
{
    lemma_auto_spec_u64_to_from_le_bytes();
    let b = spec_encode(s);
    assert(spec_u64_to_le_bytes(s.len() as u64).len() == 8);
    assert(b.subrange(0, 8) =~= spec_u64_to_le_bytes(s.len() as u64));
    assert(spec_u64_from_le_bytes(b.subrange(0, 8)) == s.len() as u64);
    assert(b.skip(8) =~= enc_list(s) + Seq::<u8>::empty());
    lemma_dec_list_of_enc(s, Seq::empty());
    assert(s.len() as u64 as nat == s.len());
}

/// Every collection held in an executable vector fits the wire format's
/// length fields.
pub proof fn lemma_exec_collection_bounded(entities: Vec<Entity>)
    ensures
        bounded_collection(entities.deep_view()),
{
    assert(entities.deep_view().len() == entities@.len());
    assert(entities.len() == entities@.len());
    assert forall|i: int|
        0 <= i < entities.deep_view().len() implies bounded_entity(
        #[trigger] entities.deep_view()[i],
    ) by {
        assert(entities.deep_view()[i].payload == entities@[i].payload@);
        assert(entities@[i].payload.len() == entities@[i].payload@.len());
    }
}

} // verus!
