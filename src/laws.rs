//! How the owner's replies and the requestor's reassembly fit together.

use vstd::prelude::*;
use crate::owner::{begin_spec, incr_chunk, lemma_begin_agrees, maps_agree, IncrState};
use crate::INCR_CHUNK_SIZE;

verus! {

/// The bytes that an INCR transfer delivers from offset `pos` on: the chunk
/// at `pos`, then the rest from where that chunk ends, until the offset
/// reaches the end of the payload (the empty chunk that follows adds nothing).
pub open spec fn incr_stream(payload: Seq<u8>, pos: int) -> Seq<u8>
    decreases payload.len() - pos,
{
    if pos < 0 || pos >= payload.len() {
        Seq::empty()
    } else {
        incr_chunk(payload, pos) + incr_stream(payload, pos + incr_chunk(payload, pos).len())
    }
}

/// The bytes that a requestor receives when it converts `selection` to
/// `target` from an owner whose store is `store`, whose TARGETS atom is
/// `targets` and whose single-write limit is `max`: the whole payload in one
/// reply below the limit, the INCR stream from offset zero at or above it.
/// It is `None` where the owner refuses or ignores the request, and for a
/// TARGETS request, which the owner answers with its atom list rather than
/// with a payload.
pub open spec fn served(
    store: Map<u64, (u64, Seq<u8>)>,
    targets: u64,
    max: int,
    selection: u64,
    target: u64,
) -> Option<Seq<u8>> {
    if !store.contains_key(selection) || target == targets || target != store[selection].0 {
        None
    } else if store[selection].1.len() < max {
        Some(store[selection].1)
    } else {
        Some(incr_stream(store[selection].1, 0))
    }
}

proof fn lemma_incr_stream_rest(payload: Seq<u8>, pos: int)
    requires
        0 <= pos <= payload.len(),
    ensures
        incr_stream(payload, pos) == payload.subrange(pos, payload.len() as int),
    decreases payload.len() - pos,
{
    if pos < payload.len() {
        let c = incr_chunk(payload, pos);
        lemma_incr_stream_rest(payload, pos + c.len());
        assert(c + payload.subrange(pos + c.len(), payload.len() as int) =~= payload.subrange(
            pos,
            payload.len() as int,
        ));
    } else {
        assert(payload.subrange(pos, payload.len() as int) =~= Seq::<u8>::empty());
    }
}

/// INCR round trip: the chunks that the owner serves from offset zero,
/// appended in order, are the payload itself, whatever its length.
pub proof fn law_incr_round_trip(payload: Seq<u8>)
    ensures
        incr_stream(payload, 0) == payload,
{
    lemma_incr_stream_rest(payload, 0);
    assert(payload.subrange(0, payload.len() as int) =~= payload);
}

/// Each INCR chunk but the last has exactly `INCR_CHUNK_SIZE` bytes, the
/// last one holds what remains, and the chunk at the end of the payload is
/// the empty one that ends the stream.
pub proof fn law_incr_chunk_sizes(payload: Seq<u8>, pos: int)
    requires
        0 <= pos <= payload.len(),
    ensures
        pos + INCR_CHUNK_SIZE <= payload.len() ==> incr_chunk(payload, pos).len() == INCR_CHUNK_SIZE,
        pos + INCR_CHUNK_SIZE > payload.len() ==> incr_chunk(payload, pos).len() == payload.len() - pos,
        pos == payload.len() ==> incr_chunk(payload, pos).len() == 0,
{
}

/// Read after write: once `(target, bytes)` is stored for `selection`, a
/// conversion of `selection` to `target` receives exactly `bytes`.
pub proof fn law_read_after_write(
    store: Map<u64, (u64, Seq<u8>)>,
    targets: u64,
    max: int,
    selection: u64,
    target: u64,
    bytes: Seq<u8>,
)
    requires
        target != targets,
    ensures
        served(store.insert(selection, (target, bytes)), targets, max, selection, target) == Some(
            bytes,
        ),
{
    law_incr_round_trip(bytes);
}

/// Overwrite: of two stores on one selection, a later conversion receives
/// the second payload.
pub proof fn law_overwrite(
    store: Map<u64, (u64, Seq<u8>)>,
    targets: u64,
    max: int,
    selection: u64,
    target: u64,
    first: Seq<u8>,
    second: Seq<u8>,
)
    requires
        target != targets,
    ensures
        served(
            store.insert(selection, (target, first)).insert(selection, (target, second)),
            targets,
            max,
            selection,
            target,
        ) == Some(second),
{
    law_read_after_write(store.insert(selection, (target, first)), targets, max, selection, target, second);
}

/// A load does not depend on the transfers that earlier loads left in flight:
/// the INCR transfer that a request starts is recorded at offset zero under
/// its selection and property, and the index and the transfer states still
/// describe the same transfers.
pub proof fn law_load_idempotent(
    index: Map<u64, u64>,
    transfers: Map<u64, IncrState>,
    selection: u64,
    requestor: u64,
    property: u64,
)
    requires
        maps_agree(index, transfers),
    ensures
        ({
            let st = IncrState { selection, requestor, property, pos: 0 };
            let (idx, tr) = begin_spec(index, transfers, st);
            &&& maps_agree(idx, tr)
            &&& idx[selection] == property
            &&& tr[property] == st
        }),
{
    lemma_begin_agrees(index, transfers, IncrState { selection, requestor, property, pos: 0 });
}

/// The chunks `cs`, appended in order.
pub open spec fn concat_chunks(cs: Seq<Seq<u8>>) -> Seq<u8>
    decreases cs.len(),
{
    if cs.len() == 0 {
        Seq::empty()
    } else {
        concat_chunks(cs.drop_last()) + cs.last()
    }
}

/// Whether `cs` is what an INCR transfer of `payload` serves from offset zero:
/// each chunk is `incr_chunk` at the offset that the chunks before it reach,
/// which is how the owner advances a transfer on each PropertyDelete.
pub open spec fn served_chunks(payload: Seq<u8>, cs: Seq<Seq<u8>>) -> bool {
    forall|i: int| 0 <= i < cs.len() ==> #[trigger] cs[i] == incr_chunk(
        payload,
        concat_chunks(cs.take(i)).len() as int,
    )
}

proof fn lemma_served_prefix(payload: Seq<u8>, cs: Seq<Seq<u8>>, k: int)
    requires
        served_chunks(payload, cs),
        0 <= k <= cs.len(),
    ensures
        concat_chunks(cs.take(k)).len() <= payload.len(),
        concat_chunks(cs.take(k)) == payload.subrange(0, concat_chunks(cs.take(k)).len() as int),
    decreases k,
{
    if k == 0 {
        assert(cs.take(0) =~= Seq::<Seq<u8>>::empty());
        assert(payload.subrange(0, 0) =~= Seq::<u8>::empty());
    } else {
        lemma_served_prefix(payload, cs, k - 1);
        assert(cs.take(k).drop_last() =~= cs.take(k - 1));
        let pos = concat_chunks(cs.take(k - 1)).len() as int;
        let c = cs[k - 1];
        assert(c == incr_chunk(payload, pos));
        assert(concat_chunks(cs.take(k)) == concat_chunks(cs.take(k - 1)) + c);
        assert(concat_chunks(cs.take(k)) =~= payload.subrange(0, pos + c.len()));
    }
}

/// INCR reassembly: the chunks that the owner serves from offset zero, up to
/// and including the first empty one, appended in order by the requestor, are
/// the payload.
pub proof fn law_chunks_reassemble(payload: Seq<u8>, cs: Seq<Seq<u8>>)
    requires
        served_chunks(payload, cs),
        cs.len() > 0,
        cs.last().len() == 0,
    ensures
        concat_chunks(cs) == payload,
{
    let n = cs.len() as int;
    lemma_served_prefix(payload, cs, n - 1);
    assert(cs.take(n) =~= cs);
    assert(cs.drop_last() =~= cs.take(n - 1));
    let pos = concat_chunks(cs.take(n - 1)).len() as int;
    assert(cs[n - 1] == incr_chunk(payload, pos));
    assert(pos == payload.len());
    assert(concat_chunks(cs) =~= payload);
}

/// The number of non-empty chunks that an INCR transfer serves from offset
/// `pos` on.
pub open spec fn incr_chunk_count(payload: Seq<u8>, pos: int) -> nat
    decreases payload.len() - pos,
{
    if pos < 0 || pos >= payload.len() {
        0
    } else {
        1 + incr_chunk_count(payload, pos + incr_chunk(payload, pos).len())
    }
}

/// An INCR transfer of `n` bytes serves `ceil(n / INCR_CHUNK_SIZE)` non-empty
/// chunks before the empty one.
pub proof fn law_incr_chunk_count(payload: Seq<u8>, pos: int)
    requires
        0 <= pos <= payload.len(),
    ensures
        incr_chunk_count(payload, pos) == (payload.len() - pos + INCR_CHUNK_SIZE - 1)
            / INCR_CHUNK_SIZE as int,
    decreases payload.len() - pos,
{
    let r = payload.len() - pos;
    if pos < payload.len() {
        let next = pos + incr_chunk(payload, pos).len();
        law_incr_chunk_count(payload, next);
        if r <= 4000 {
            assert((r + 3999) / 4000 == 1);
            assert((0 + 3999int) / 4000 == 0);
        } else {
            assert((r + 3999) / 4000 == (r - 4000 + 3999) / 4000 + 1);
        }
    } else {
        assert((0 + 3999int) / 4000 == 0);
    }
}

} // verus!
