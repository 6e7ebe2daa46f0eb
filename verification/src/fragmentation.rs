//! Cutting messages into fragments, and why they come back whole.

use crate::framing::{
    self, FragmentHeader, FrameView, FLAG_FRAGMENTED, FLAG_MAC_PRESENT, FRAG_HEADER_SIZE, MAGIC,
    MAX_PAYLOAD_SIZE,
};
use crate::reassembly::{self, Absorbed, StreamView, MAX_REASSEMBLY_STREAMS};
use vstd::prelude::*;

verus! {

/// How many fragments a message of `len` bytes is cut into. An empty message
/// has one fragment too.
pub open spec fn fragment_count(len: nat, chunk_size: nat) -> nat {
    if len == 0 {
        1
    } else {
        (len + chunk_size - 1) as nat / chunk_size
    }
}

/// Where the first `i` chunks of a message end.
pub open spec fn cut(len: nat, chunk_size: nat, i: nat) -> nat {
    if i * chunk_size < len {
        i * chunk_size
    } else {
        len
    }
}

/// The chunk at position `i`.
pub open spec fn chunk_at(payload: Seq<u8>, chunk_size: nat, i: nat) -> Seq<u8> {
    payload.subrange(
        cut(payload.len(), chunk_size, i) as int,
        cut(payload.len(), chunk_size, i + 1) as int,
    )
}

/// The fragment header at position `i`.
pub open spec fn header_at(len: nat, chunk_size: nat, stream_id: u32, i: nat) -> FragmentHeader {
    FragmentHeader {
        fragment_id: (stream_id & 0xFFFF) as u16,
        sequence: i as u16,
        total: fragment_count(len, chunk_size) as u16,
        stream_id,
    }
}

/// The payload of the fragment at position `i`.
pub open spec fn fragment_at(payload: Seq<u8>, chunk_size: nat, stream_id: u32, i: nat) -> Seq<u8> {
    framing::frag_header_bytes(header_at(payload.len(), chunk_size, stream_id, i)) + chunk_at(
        payload,
        chunk_size,
        i,
    )
}

/// The chunks that a message is cut into.
pub open spec fn cuts(payload: Seq<u8>, chunk_size: nat) -> Seq<Seq<u8>> {
    Seq::new(
        fragment_count(payload.len(), chunk_size),
        |i: int| chunk_at(payload, chunk_size, i as nat),
    )
}

/// The first `end` chunks, one after another.
pub open spec fn glued(chunks: Seq<Seq<u8>>, end: nat) -> Seq<u8>
    decreases end,
{
    if end == 0 {
        seq![]
    } else {
        glued(chunks, (end - 1) as nat) + chunks[end - 1]
    }
}

/// All chunks, one after another.
pub open spec fn whole(chunks: Seq<Seq<u8>>) -> Seq<u8> {
    glued(chunks, chunks.len())
}

/// The chunks can make up one message: there is one at least, their number
/// fits in a fragment header, and together they fit in one payload. They may
/// be of any sizes.
pub open spec fn make_a_message(chunks: Seq<Seq<u8>>) -> bool {
    &&& 1 <= chunks.len() <= u16::MAX
    &&& whole(chunks).len() <= MAX_PAYLOAD_SIZE
}

/// The payload of a frame is the fragment at position `i` of a message that
/// is cut into these chunks.
pub open spec fn is_fragment(
    payload: Seq<u8>,
    chunks: Seq<Seq<u8>>,
    stream_id: u32,
    i: nat,
) -> bool {
    &&& framing::frag_header_of(payload) matches Some(header)
    &&& header.sequence == i
    &&& header.total == chunks.len()
    &&& header.stream_id == stream_id
    &&& payload.skip(FRAG_HEADER_SIZE as int) == chunks[i as int]
}

/// Takes in frames one after another, each at its time: what is held
/// afterwards, and what each of them led to.
pub open spec fn absorb_all(
    streams: Map<u32, StreamView>,
    frames: Seq<FrameView>,
    times: Seq<nat>,
) -> (Map<u32, StreamView>, Seq<Absorbed>)
    decreases frames.len(),
{
    if frames.len() == 0 {
        (streams, seq![])
    } else {
        let (held, outcomes) = absorb_all(streams, frames.drop_last(), times.drop_last());
        let (after, last) = reassembly::absorb(held, frames.last(), times.last());
        (after, outcomes.push(last))
    }
}

/// Each position below `n` once, in some order.
pub open spec fn is_arrangement(order: Seq<nat>, n: nat) -> bool {
    &&& order.len() == n
    &&& order.no_duplicates()
    &&& forall|k: int| 0 <= k < n ==> #[trigger] order[k] < n
    &&& forall|i: nat| i < n ==> #[trigger] order.contains(i)
}

/// The message that the fragments of a payload stand for.
pub open spec fn message(target: Seq<u8>, flags: u16, payload: Seq<u8>) -> FrameView {
    FrameView {
        magic: MAGIC,
        flags: reassembly::message_flags(flags),
        length: payload.len() as u32,
        target,
        crc32: framing::crc32(payload),
        payload,
        mac: None,
    }
}

/// The stream after the fragments at the positions in `arrived`, the first of
/// which came in the frame `first` at time `first_seen`.
pub open spec fn partial(
    chunks: Seq<Seq<u8>>,
    first: FrameView,
    first_seen: nat,
    arrived: Seq<nat>,
) -> StreamView {
    StreamView {
        fragments: Map::new(
            |i: u16| arrived.contains(i as nat),
            |i: u16| chunks[i as int],
        ),
        total: chunks.len() as u16,
        target: first.target,
        flags: reassembly::message_flags(first.flags),
        first_seen,
    }
}

/// Fragments come back whole, however the message was cut: the fragments,
/// each taken in once and in any order, all within the time limit of the
/// first, leave the receiver waiting until the last one, which gives back all
/// chunks one after another, with the target and the flags of the first
/// frame; nothing of the message is held then. The receiver needs room for
/// one more stream, and no unfinished message under the same stream id.
pub proof fn fragments_come_back_whole(
    streams: Map<u32, StreamView>,
    chunks: Seq<Seq<u8>>,
    stream_id: u32,
    order: Seq<nat>,
    arrivals: Seq<FrameView>,
    times: Seq<nat>,
)
    requires
        make_a_message(chunks),
        !reassembly::live_streams(streams, times[0]).contains_key(stream_id),
        reassembly::live_streams(streams, times[0]).len() < MAX_REASSEMBLY_STREAMS,
        is_arrangement(order, chunks.len()),
        arrivals.len() == order.len(),
        times.len() == order.len(),
        forall|k: int|
            0 <= k < order.len() ==> is_fragment(
                (#[trigger] arrivals[k]).payload,
                chunks,
                stream_id,
                order[k],
            ),
        forall|k: int|
            0 <= k < times.len() ==> crate::span::younger_than(
                times[0],
                reassembly::reassembly_timeout(),
                #[trigger] times[k],
            ),
    ensures
        ({
            let (after, outcomes) = absorb_all(streams, arrivals, times);
            &&& outcomes.len() == order.len()
            &&& forall|k: int|
                0 <= k < order.len() - 1 ==> #[trigger] outcomes[k] == Absorbed::Waiting
            &&& outcomes.last() == Absorbed::Complete(
                message(arrivals[0].target, arrivals[0].flags, whole(chunks)),
            )
            &&& !after.contains_key(stream_id)
        }),
{
    let last = order.len() - 1;
    prefix_is_partial(streams, chunks, stream_id, order, arrivals, times, last as nat);
    let held = absorb_all(streams, arrivals.take(last), times.take(last)).0;
    assert(arrivals.drop_last() =~= arrivals.take(last));
    assert(times.drop_last() =~= times.take(last));
    one_more(
        held,
        chunks,
        stream_id,
        order,
        arrivals[0],
        times[0],
        arrivals[last],
        times[last],
        last,
    );
}

proof fn prefix_is_partial(
    streams: Map<u32, StreamView>,
    chunks: Seq<Seq<u8>>,
    stream_id: u32,
    order: Seq<nat>,
    arrivals: Seq<FrameView>,
    times: Seq<nat>,
    k: nat,
)
    requires
        make_a_message(chunks),
        !reassembly::live_streams(streams, times[0]).contains_key(stream_id),
        reassembly::live_streams(streams, times[0]).len() < MAX_REASSEMBLY_STREAMS,
        is_arrangement(order, chunks.len()),
        arrivals.len() == order.len(),
        times.len() == order.len(),
        forall|k: int|
            0 <= k < order.len() ==> is_fragment(
                (#[trigger] arrivals[k]).payload,
                chunks,
                stream_id,
                order[k],
            ),
        forall|k: int|
            0 <= k < times.len() ==> crate::span::younger_than(
                times[0],
                reassembly::reassembly_timeout(),
                #[trigger] times[k],
            ),
        k < order.len(),
    ensures
        ({
            let (held, outcomes) = absorb_all(
                streams,
                arrivals.take(k as int),
                times.take(k as int),
            );
            &&& outcomes.len() == k
            &&& forall|j: int| 0 <= j < k ==> #[trigger] outcomes[j] == Absorbed::Waiting
            &&& k == 0 ==> held == streams
            &&& k > 0 ==> held.contains_key(stream_id) && held[stream_id] == partial(
                chunks,
                arrivals[0],
                times[0],
                order.take(k as int),
            )
        }),
    decreases k,
{
    if k > 0 {
        let j = (k - 1) as nat;
        prefix_is_partial(streams, chunks, stream_id, order, arrivals, times, j);
        assert(arrivals.take(k as int).drop_last() =~= arrivals.take(j as int));
        assert(times.take(k as int).drop_last() =~= times.take(j as int));
        let held = absorb_all(streams, arrivals.take(j as int), times.take(j as int)).0;
        one_more(
            held,
            chunks,
            stream_id,
            order,
            arrivals[0],
            times[0],
            arrivals[j as int],
            times[j as int],
            j as int,
        );
    }
}

/// The fragment at place `k` of the order, on top of those before it.
pub(crate) proof fn one_more(
    held: Map<u32, StreamView>,
    chunks: Seq<Seq<u8>>,
    stream_id: u32,
    order: Seq<nat>,
    first: FrameView,
    first_seen: nat,
    arrival: FrameView,
    now: nat,
    k: int,
)
    requires
        make_a_message(chunks),
        is_arrangement(order, chunks.len()),
        0 <= k < order.len(),
        is_fragment(arrival.payload, chunks, stream_id, order[k]),
        crate::span::younger_than(first_seen, reassembly::reassembly_timeout(), now),
        k == 0 ==> {
            &&& arrival == first
            &&& now == first_seen
            &&& !reassembly::live_streams(held, now).contains_key(stream_id)
            &&& reassembly::live_streams(held, now).len() < MAX_REASSEMBLY_STREAMS
        },
        k > 0 ==> held.contains_key(stream_id) && held[stream_id] == partial(
            chunks,
            first,
            first_seen,
            order.take(k),
        ),
    ensures
        ({
            let (after, outcome) = reassembly::absorb(held, arrival, now);
            &&& k + 1 < order.len() ==> {
                &&& outcome == Absorbed::Waiting
                &&& after.contains_key(stream_id)
                &&& after[stream_id] == partial(chunks, first, first_seen, order.take(k + 1))
            }
            &&& k + 1 == order.len() ==> {
                &&& outcome == Absorbed::Complete(
                    message(first.target, first.flags, whole(chunks)),
                )
                &&& !after.contains_key(stream_id)
            }
        }),
{
    let n = chunks.len();
    let i = order[k];
    let shorter = order.take(k);
    let longer = order.take(k + 1);
    let position = i as u16;
    let before = partial(chunks, first, first_seen, shorter);
    let after = partial(chunks, first, first_seen, longer);
    if k == 0 {
        assert(before.fragments =~= Map::<u16, Seq<u8>>::empty());
    }
    assert(longer =~= shorter.push(i));
    assert(before.fragments.insert(position, chunks[i as int]) =~= after.fragments) by {
        assert forall|p: u16| #[trigger]
            after.fragments.contains_key(p) <==> before.fragments.contains_key(p) || p
                == position by {
            if before.fragments.contains_key(p) {
                let q = choose|q: int|
                    0 <= q < shorter.len() && shorter[q] == p as nat;
                assert(longer[q] == p as nat);
            }
            if p == position {
                assert(longer[k] == p as nat);
            }
            if after.fragments.contains_key(p) {
                let q = choose|q: int|
                    0 <= q < longer.len() && longer[q] == p as nat;
                if q < k {
                    assert(shorter[q] == p as nat);
                }
            }
        }
    }
    chunks_fit(chunks, after.fragments, n);
    if k + 1 < order.len() {
        let missing = order[k + 1] as u16;
        assert(missing < after.total);
        assert(!after.fragments.contains_key(missing)) by {
            if after.fragments.contains_key(missing) {
                let q = choose|q: int|
                    0 <= q < longer.len() && longer[q] == missing as nat;
                assert(order[q] == order[k + 1]);
            }
        }
    } else {
        assert(longer =~= order);
        assert forall|p: u16| p < after.total implies #[trigger] after.fragments.contains_key(
            p,
        ) by {
            assert(order.contains(p as nat));
        }
        chunks_are_glued(chunks, after.fragments, n);
    }
}

/// Some of the chunks hold no more than all of them.
proof fn chunks_fit(chunks: Seq<Seq<u8>>, fragments: Map<u16, Seq<u8>>, end: nat)
    requires
        end <= u16::MAX,
        forall|p: u16| #[trigger]
            fragments.contains_key(p) ==> fragments[p] == chunks[p as int],
    ensures
        reassembly::buffered(fragments, end) <= glued(chunks, end).len(),
    decreases end,
{
    if end > 0 {
        chunks_fit(chunks, fragments, (end - 1) as nat);
    }
}

/// All chunks that are held, one after another.
proof fn chunks_are_glued(chunks: Seq<Seq<u8>>, fragments: Map<u16, Seq<u8>>, end: nat)
    requires
        end <= u16::MAX,
        forall|p: u16|
            p < end ==> #[trigger] fragments.contains_key(p) && fragments[p]
                == chunks[p as int],
    ensures
        reassembly::concatenated(fragments, end) == glued(chunks, end),
    decreases end,
{
    if end > 0 {
        chunks_are_glued(chunks, fragments, (end - 1) as nat);
        assert(fragments.contains_key((end - 1) as u16));
    }
}

/// The chunks that a message is cut into make up that message, and the
/// fragments made of them are fragments of it.
pub proof fn cuts_make_up_the_message(payload: Seq<u8>, chunk_size: nat, stream_id: u32)
    requires
        payload.len() <= MAX_PAYLOAD_SIZE,
        0 < chunk_size,
        fragment_count(payload.len(), chunk_size) <= u16::MAX,
    ensures
        make_a_message(cuts(payload, chunk_size)),
        whole(cuts(payload, chunk_size)) == payload,
        forall|i: nat|
            i < fragment_count(payload.len(), chunk_size) ==> is_fragment(
                #[trigger] fragment_at(payload, chunk_size, stream_id, i),
                cuts(payload, chunk_size),
                stream_id,
                i,
            ),
{
    let n = fragment_count(payload.len(), chunk_size);
    count_covers(payload.len(), chunk_size);
    glued_to_the_cut(payload, chunk_size, n);
    assert(payload.take(payload.len() as int) =~= payload);
    assert forall|i: nat| i < n implies is_fragment(
        #[trigger] fragment_at(payload, chunk_size, stream_id, i),
        cuts(payload, chunk_size),
        stream_id,
        i,
    ) by {
        framing::frag_header_round_trip(
            header_at(payload.len(), chunk_size, stream_id, i),
            chunk_at(payload, chunk_size, i),
        );
    }
}

proof fn glued_to_the_cut(payload: Seq<u8>, chunk_size: nat, end: nat)
    requires
        0 < chunk_size,
        end <= fragment_count(payload.len(), chunk_size),
    ensures
        glued(cuts(payload, chunk_size), end) == payload.take(
            cut(payload.len(), chunk_size, end) as int,
        ),
    decreases end,
{
    if end == 0 {
        assert(cut(payload.len(), chunk_size, 0) == 0) by (nonlinear_arith);
        assert(glued(cuts(payload, chunk_size), end) =~= payload.take(0));
    } else {
        let before = (end - 1) as nat;
        glued_to_the_cut(payload, chunk_size, before);
        assert(before * chunk_size <= end * chunk_size) by (nonlinear_arith)
            requires
                before <= end,
        ;
        assert(glued(cuts(payload, chunk_size), end) =~= payload.take(
            cut(payload.len(), chunk_size, end) as int,
        ));
    }
}

/// The last cut is at the end of the payload.
proof fn count_covers(len: nat, chunk_size: nat)
    requires
        0 < chunk_size,
    ensures
        cut(len, chunk_size, fragment_count(len, chunk_size)) == len,
        fragment_count(len, chunk_size) >= 1,
{
    if len > 0 {
        let n = fragment_count(len, chunk_size);
        vstd::arithmetic::div_mod::lemma_fundamental_div_mod(
            len + chunk_size - 1,
            chunk_size as int,
        );
        vstd::arithmetic::div_mod::lemma_mod_bound(len + chunk_size - 1, chunk_size as int);
        assert(n * chunk_size >= len) by (nonlinear_arith)
            requires
                len + chunk_size - 1 == chunk_size * n + (len + chunk_size - 1) % (
                chunk_size as int),
                (len + chunk_size - 1) % (chunk_size as int) < chunk_size,
        ;
        if n == 0 {
            assert(n * chunk_size == 0) by (nonlinear_arith)
                requires
                    n == 0,
            ;
        }
    }
}

/// A message sent in fragments arrives without flags, tagged or not.
pub proof fn fragment_flags_are_dropped()
    ensures
        reassembly::message_flags(FLAG_FRAGMENTED) == 0,
        reassembly::message_flags(FLAG_MAC_PRESENT | FLAG_FRAGMENTED) == 0,
{
    assert(0x0004u16 & !(0x0004u16 | 0x0001u16) == 0) by (bit_vector);
    assert((0x0001u16 | 0x0004u16) & !(0x0004u16 | 0x0001u16) == 0) by (bit_vector);
}

/// Streams do not get in each other's way: a fragment of one stream leaves
/// every other stream that is within its time as it was.
pub proof fn streams_do_not_interfere(
    streams: Map<u32, StreamView>,
    frame: FrameView,
    now: nat,
    other: u32,
)
    requires
        framing::frag_header_of(frame.payload) matches Some(header) && header.stream_id != other,
        streams.contains_key(other),
        reassembly::is_live(streams[other], now),
    ensures
        reassembly::absorb(streams, frame, now).0.contains_key(other),
        reassembly::absorb(streams, frame, now).0[other] == streams[other],
{
}

/// A fragment that arrives once more changes nothing: the receiver goes on
/// waiting with what it has.
pub proof fn repeated_fragments_change_nothing(
    streams: Map<u32, StreamView>,
    frame: FrameView,
    header: FragmentHeader,
    now: nat,
)
    requires
        reassembly::within_bounds(streams),
        framing::frag_header_of(frame.payload) == Some(header),
        reassembly::live_streams(streams, now).contains_key(header.stream_id),
        streams[header.stream_id].total == header.total,
        streams[header.stream_id].fragments.contains_key(header.sequence),
        streams[header.stream_id].fragments[header.sequence] == frame.payload.skip(
            FRAG_HEADER_SIZE as int,
        ),
    ensures
        reassembly::absorb(streams, frame, now) == (
            reassembly::live_streams(streams, now),
            Absorbed::Waiting,
        ),
{
    let live = reassembly::live_streams(streams, now);
    let held = live[header.stream_id];
    assert(streams[header.stream_id].unfinished());
    assert(held.fragments.insert(header.sequence, held.fragments[header.sequence])
        =~= held.fragments);
    assert(live.insert(header.stream_id, held) =~= live);
}

/// A stream whose time is over is forgotten by the next fragment, whatever
/// that is, unless it is the first of a new message under the same id.
pub proof fn late_streams_are_forgotten(
    streams: Map<u32, StreamView>,
    frame: FrameView,
    now: nat,
    late: u32,
)
    requires
        streams.contains_key(late),
        !reassembly::is_live(streams[late], now),
    ensures
        reassembly::absorb(streams, frame, now).0.contains_key(late) ==> reassembly::absorb(
            streams,
            frame,
            now,
        ).0[late].first_seen == now,
{
}

/// A chunk ends one chunk size after it starts, or with the message if that
/// comes first; no chunk before the last one ends with the message.
pub proof fn cut_steps(len: nat, chunk_size: nat, i: nat)
    requires
        0 < chunk_size,
        i < fragment_count(len, chunk_size),
    ensures
        cut(len, chunk_size, 0) == 0,
        cut(len, chunk_size, i) <= len,
        len > 0 ==> cut(len, chunk_size, i) < len,
        cut(len, chunk_size, i + 1) == if len - cut(len, chunk_size, i) > chunk_size {
            cut(len, chunk_size, i) + chunk_size
        } else {
            len
        },
{
    if len > 0 {
        let n = (len + chunk_size - 1) as nat;
        assert((n / chunk_size) * chunk_size <= n) by (nonlinear_arith)
            requires
                0 < chunk_size,
        ;
        assert((i + 1) * chunk_size <= (n / chunk_size) * chunk_size) by (nonlinear_arith)
            requires
                i + 1 <= n / chunk_size,
        ;
        assert((i + 1) * chunk_size == i * chunk_size + chunk_size) by (nonlinear_arith);
    }
}

} // verus!
