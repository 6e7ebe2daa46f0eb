//! What holds of a connection as a whole.

use crate::client::{self, ClientView, TransportKind};
use crate::error::ErrorView;
use crate::fragmentation;
use crate::frame_mac;
use crate::framing::{
    self, FrameView, FLAG_COMPRESSED, FLAG_FRAGMENTED, FLAG_MAC_PRESENT, FLAG_RAW_BINARY,
    FRAG_HEADER_SIZE, MAX_PAYLOAD_SIZE,
};
use crate::proto::{Envelope, Payload, PluginRegisterAck};
use crate::reassembly::{self, Absorbed, StreamView, MAX_REASSEMBLY_STREAMS};
use vstd::prelude::*;

verus! {

/// What one end sends, the other end with the same key takes for authentic,
/// tagged or not.
pub proof fn sent_frames_are_authentic(
    key: Option<Seq<u8>>,
    target: Seq<u8>,
    extra_flags: u16,
    payload: Seq<u8>,
)
    ensures
        client::authentic(key, client::outgoing(key, target, extra_flags, payload)),
{
    assert((0x0001u16 | extra_flags) & 0x0001u16 != 0) by (bit_vector);
    if key is Some {
        let plain = framing::plain_frame(target, FLAG_MAC_PRESENT | extra_flags, payload);
        let sent = client::outgoing(key, target, extra_flags, payload);
        assert(framing::header_bytes(sent) == framing::header_bytes(plain));
    }
}

/// A secured connection takes no frame without a tag, nor one whose tag is
/// not that over its header and payload: the frame leads to an error and
/// changes nothing.
pub proof fn untagged_frames_are_refused(
    key: Seq<u8>,
    streams: Map<u32, StreamView>,
    frame: FrameView,
    now: nat,
)
    ensures
        frame.mac is None || frame.flags & FLAG_MAC_PRESENT == 0 || frame.mac->0
            != frame_mac::hmac_sha256(key, framing::header_bytes(frame) + frame.payload)
            ==> client::received(Some(key), streams, frame, now) == (
            streams,
            Absorbed::Failed(ErrorView::Internal("frame MAC verification failed"@)),
        ),
{
}

/// A message sent in one frame arrives as it was sent and leaves messages in
/// the making alone.
pub proof fn single_frames_arrive(
    key: Option<Seq<u8>>,
    streams: Map<u32, StreamView>,
    target: Seq<u8>,
    extra_flags: u16,
    payload: Seq<u8>,
    now: nat,
)
    requires
        extra_flags & FLAG_FRAGMENTED == 0,
    ensures
        client::received(
            key,
            streams,
            client::outgoing(key, target, extra_flags, payload),
            now,
        ) == (streams, Absorbed::Complete(client::outgoing(key, target, extra_flags, payload))),
        client::outgoing(key, target, extra_flags, payload).payload == payload,
{
    sent_frames_are_authentic(key, target, extra_flags, payload);
    assert((0x0001u16 | extra_flags) & 0x0004u16 == extra_flags & 0x0004u16) by (bit_vector);
    assert((0u16 | extra_flags) & 0x0004u16 == extra_flags & 0x0004u16) by (bit_vector);
}

/// What is sent as a message is read as the same bytes, and what is sent as
/// raw binary is not read as a message.
pub proof fn messages_and_raw_binary_are_told_apart(
    key: Option<Seq<u8>>,
    streams: Map<u32, StreamView>,
    target: Seq<u8>,
    payload: Seq<u8>,
    now: nat,
)
    ensures
        client::message_payload(
            client::received(key, streams, client::outgoing(key, target, 0, payload), now).1,
        ) == Ok::<Option<Seq<u8>>, ErrorView>(Some(payload)),
        client::message_payload(
            client::received(
                key,
                streams,
                client::outgoing(key, target, FLAG_RAW_BINARY, payload),
                now,
            ).1,
        ) == Err::<Option<Seq<u8>>, ErrorView>(
            ErrorView::Internal("received raw-binary frame; use recv_frame() for audio"@),
        ),
{
    assert(0u16 & 0x0004u16 == 0 && 0x0010u16 & 0x0004u16 == 0) by (bit_vector);
    assert((0x0001u16 | 0u16) & 0x0010u16 == 0 && (0u16 | 0u16) & 0x0010u16 == 0) by (bit_vector);
    assert((0x0001u16 | 0x0010u16) & 0x0010u16 != 0 && (0u16 | 0x0010u16) & 0x0010u16 != 0)
        by (bit_vector);
    single_frames_arrive(key, streams, target, 0, payload, now);
    single_frames_arrive(key, streams, target, FLAG_RAW_BINARY, payload, now);
}

/// While a request waits for its answer, raw binary is passed over and leaves
/// messages in the making alone, and a message still brings its payload.
pub proof fn raw_binary_does_not_end_a_wait(
    key: Option<Seq<u8>>,
    streams: Map<u32, StreamView>,
    target: Seq<u8>,
    payload: Seq<u8>,
    now: nat,
)
    ensures
        ({
            let (after, taken) = client::received(
                key,
                streams,
                client::outgoing(key, target, FLAG_RAW_BINARY, payload),
                now,
            );
            &&& client::awaited_payload(taken) == Ok::<Option<Seq<u8>>, ErrorView>(None)
            &&& after == streams
        }),
        client::awaited_payload(
            client::received(key, streams, client::outgoing(key, target, 0, payload), now).1,
        ) == Ok::<Option<Seq<u8>>, ErrorView>(Some(payload)),
{
    assert(0u16 & 0x0004u16 == 0 && 0x0010u16 & 0x0004u16 == 0) by (bit_vector);
    assert((0x0001u16 | 0u16) & 0x0010u16 == 0 && (0u16 | 0u16) & 0x0010u16 == 0) by (bit_vector);
    assert((0x0001u16 | 0x0010u16) & 0x0010u16 != 0 && (0u16 | 0x0010u16) & 0x0010u16 != 0)
        by (bit_vector);
    single_frames_arrive(key, streams, target, 0, payload, now);
    single_frames_arrive(key, streams, target, FLAG_RAW_BINARY, payload, now);
}

/// Takes in frames one after another, each at its time: the messages in the
/// making afterwards, and what each frame led to.
pub open spec fn received_all(
    key: Option<Seq<u8>>,
    streams: Map<u32, StreamView>,
    frames: Seq<FrameView>,
    times: Seq<nat>,
) -> (Map<u32, StreamView>, Seq<Absorbed>)
    decreases frames.len(),
{
    if frames.len() == 0 {
        (streams, seq![])
    } else {
        let (held, outcomes) = received_all(key, streams, frames.drop_last(), times.drop_last());
        let (after, last) = client::received(key, held, frames.last(), times.last());
        (after, outcomes.push(last))
    }
}

/// A message sent in fragments arrives whole, in whatever order the frames
/// arrive, as long as they do so within the time limit of the first: the
/// receiver waits until the last one, which gives back the payload and the
/// target, without flags. The receiver needs the key of the sender, room for
/// one more message in the making, and none under the same stream id.
pub proof fn fragmented_messages_arrive(
    key: Option<Seq<u8>>,
    streams: Map<u32, StreamView>,
    target: Seq<u8>,
    payload: Seq<u8>,
    chunk_size: nat,
    stream_id: u32,
    order: Seq<nat>,
    arrivals: Seq<FrameView>,
    times: Seq<nat>,
)
    requires
        client::fragmentation_fault(TransportKind::Uds, payload.len(), chunk_size) is None,
        !reassembly::live_streams(streams, times[0]).contains_key(stream_id),
        reassembly::live_streams(streams, times[0]).len() < MAX_REASSEMBLY_STREAMS,
        fragmentation::is_arrangement(
            order,
            fragmentation::fragment_count(payload.len(), chunk_size),
        ),
        arrivals == Seq::new(
            order.len(),
            |k: int|
                client::fragment_frames(key, target, payload, chunk_size, stream_id)[order[k] as int],
        ),
        times.len() == order.len(),
        forall|k: int|
            0 <= k < times.len() ==> crate::span::younger_than(
                times[0],
                reassembly::reassembly_timeout(),
                #[trigger] times[k],
            ),
    ensures
        ({
            let (after, outcomes) = received_all(key, streams, arrivals, times);
            &&& outcomes.len() == order.len()
            &&& forall|k: int|
                0 <= k < order.len() - 1 ==> #[trigger] outcomes[k] == Absorbed::Waiting
            &&& outcomes.last() == Absorbed::Complete(
                framing::plain_frame(target, 0, payload),
            )
            &&& !after.contains_key(stream_id)
        }),
{
    let flags = client::base_flags(key) | FLAG_FRAGMENTED;
    assert((0u16 | 0x0004u16) == 0x0004u16) by (bit_vector);
    fragmentation::fragment_flags_are_dropped();
    let count = fragmentation::fragment_count(payload.len(), chunk_size);
    let chunks = fragmentation::cuts(payload, chunk_size);
    fragmentation::cuts_make_up_the_message(payload, chunk_size, stream_id);
    assert forall|k: int| 0 <= k < order.len() implies {
        &&& fragmentation::is_fragment(
            (#[trigger] arrivals[k]).payload,
            chunks,
            stream_id,
            order[k],
        )
        &&& arrivals[k].target == framing::target_field(target)
        &&& arrivals[k].flags == flags
        &&& client::authentic(key, arrivals[k])
    } by {
        assert(order[k] < count);
        sent_frames_are_authentic(
            key,
            target,
            FLAG_FRAGMENTED,
            fragmentation::fragment_at(payload, chunk_size, stream_id, order[k]),
        );
    }
    fragmentation::fragments_come_back_whole(streams, chunks, stream_id, order, arrivals, times);
    fragments_are_absorbed(key, streams, arrivals, times);
}

/// Authentic fragments go to reassembly one and all.
proof fn fragments_are_absorbed(
    key: Option<Seq<u8>>,
    streams: Map<u32, StreamView>,
    frames: Seq<FrameView>,
    times: Seq<nat>,
)
    requires
        forall|k: int|
            0 <= k < frames.len() ==> {
                &&& client::authentic(key, #[trigger] frames[k])
                &&& frames[k].flags == client::base_flags(key) | FLAG_FRAGMENTED
            },
    ensures
        received_all(key, streams, frames, times) == fragmentation::absorb_all(
            streams,
            frames,
            times,
        ),
    decreases frames.len(),
{
    if frames.len() > 0 {
        let earlier = frames.drop_last();
        assert forall|k: int| 0 <= k < earlier.len() implies {
            &&& client::authentic(key, #[trigger] earlier[k])
            &&& earlier[k].flags == client::base_flags(key) | FLAG_FRAGMENTED
        } by {
            assert(earlier[k] == frames[k]);
        }
        fragments_are_absorbed(key, streams, earlier, times.drop_last());
        assert(frames.last() == frames[frames.len() - 1]);
        assert((0x0001u16 | 0x0004u16) & 0x0004u16 != 0 && (0u16 | 0x0004u16) & 0x0004u16 != 0)
            by (bit_vector);
    }
}

/// How many of the first `k` frames are marked.
pub open spec fn rank(marks: Seq<bool>, k: nat) -> nat
    decreases k,
{
    if k == 0 {
        0
    } else {
        rank(marks, (k - 1) as nat) + if marks[k - 1] {
            1nat
        } else {
            0
        }
    }
}

/// The frame has nothing to do with a stream: it is refused for its tag, is
/// no fragment, or names another stream or none.
pub open spec fn is_other(key: Option<Seq<u8>>, stream_id: u32, frame: FrameView) -> bool {
    ||| !client::authentic(key, frame)
    ||| frame.flags & FLAG_FRAGMENTED == 0
    ||| framing::frag_header_of(frame.payload) matches Some(header) ==> header.stream_id
        != stream_id
}

/// The frame is taken for the fragment at position `i` of a message that is
/// cut into these chunks.
pub open spec fn brings_fragment(
    key: Option<Seq<u8>>,
    frame: FrameView,
    chunks: Seq<Seq<u8>>,
    stream_id: u32,
    i: nat,
) -> bool {
    &&& client::authentic(key, frame)
    &&& frame.flags & FLAG_FRAGMENTED != 0
    &&& fragmentation::is_fragment(frame.payload, chunks, stream_id, i)
}

/// A message in fragments on its way amid other traffic.
pub struct Passage {
    /// The key of both ends.
    pub key: Option<Seq<u8>>,
    /// What the receiver has in the making at first.
    pub streams: Map<u32, StreamView>,
    /// The chunks that the message is cut into, of whatever sizes.
    pub chunks: Seq<Seq<u8>>,
    pub stream_id: u32,
    /// The order in which the fragments arrive.
    pub order: Seq<nat>,
    /// All frames that arrive.
    pub frames: Seq<FrameView>,
    /// When each of them arrives.
    pub times: Seq<nat>,
    /// Which of them are fragments of the message.
    pub marks: Seq<bool>,
    /// The first of those.
    pub first: nat,
}

impl Passage {
    /// The messages in the making before frame `k`.
    pub open spec fn held_before(self, k: int) -> Map<u32, StreamView> {
        received_all(self.key, self.streams, self.frames.take(k), self.times.take(k)).0
    }

    /// The marked frames are the fragments of the message in their order, and
    /// no other frame has to do with its stream.
    pub open spec fn carries_the_message(self) -> bool {
        &&& fragmentation::make_a_message(self.chunks)
        &&& fragmentation::is_arrangement(self.order, self.chunks.len())
        &&& self.marks.len() == self.frames.len()
        &&& rank(self.marks, self.marks.len()) == self.order.len()
        &&& forall|k: int|
            0 <= k < self.frames.len() ==> if self.marks[k] {
                brings_fragment(
                    self.key,
                    #[trigger] self.frames[k],
                    self.chunks,
                    self.stream_id,
                    self.order[rank(self.marks, k as nat) as int],
                )
            } else {
                is_other(self.key, self.stream_id, self.frames[k])
            }
    }

    /// From the first fragment until the last, all frames arrive within the
    /// time limit of the message. When the first one comes, there is room for
    /// the message, and none in the making under its stream id.
    pub open spec fn is_timely(self) -> bool {
        &&& self.times.len() == self.frames.len()
        &&& self.first < self.frames.len()
        &&& self.marks[self.first as int]
        &&& rank(self.marks, self.first) == 0
        &&& ({
            let live = reassembly::live_streams(
                self.held_before(self.first as int),
                self.times[self.first as int],
            );
            &&& live.len() < MAX_REASSEMBLY_STREAMS
            &&& !live.contains_key(self.stream_id)
        })
        &&& forall|k: int|
            self.first <= k < self.times.len() && rank(self.marks, k as nat) < self.order.len()
                ==> crate::span::younger_than(
                self.times[self.first as int],
                reassembly::reassembly_timeout(),
                #[trigger] self.times[k],
            )
    }

    /// What is held of the message once `arrived` of its fragments have come.
    spec fn is_in_the_making(self, held: Map<u32, StreamView>, arrived: nat) -> bool {
        &&& 0 < arrived < self.order.len() ==> {
            &&& held.contains_key(self.stream_id)
            &&& held[self.stream_id] == fragmentation::partial(
                self.chunks,
                self.frames[self.first as int],
                self.times[self.first as int],
                self.order.take(arrived as int),
            )
        }
        &&& arrived >= self.order.len() ==> !held.contains_key(self.stream_id)
    }

    /// What the marked frame `k` leads to: the last one gives back the
    /// message, with the target and the flags of the first.
    pub open spec fn outcome_of_fragment(self, k: int) -> Absorbed {
        if rank(self.marks, k as nat) + 1 == self.order.len() {
            Absorbed::Complete(
                fragmentation::message(
                    self.frames[self.first as int].target,
                    self.frames[self.first as int].flags,
                    fragmentation::whole(self.chunks),
                ),
            )
        } else {
            Absorbed::Waiting
        }
    }

    /// The state of the message before frame `k`.
    proof fn message_in_the_making(self, k: nat)
        requires
            self.carries_the_message(),
            self.is_timely(),
            k <= self.frames.len(),
        ensures
            self.is_in_the_making(self.held_before(k as int), rank(self.marks, k)),
        decreases k,
    {
        if k > 0 {
            let m = (k - 1) as nat;
            self.message_in_the_making(m);
            let held = self.held_before(m as int);
            let frame = self.frames[m as int];
            assert(self.frames.take(k as int).drop_last() =~= self.frames.take(m as int));
            assert(self.times.take(k as int).drop_last() =~= self.times.take(m as int));
            assert(self.held_before(k as int) == client::received(
                self.key,
                held,
                frame,
                self.times[m as int],
            ).0);
            if self.marks[m as int] {
                self.next_fragment(m);
            } else {
                if rank(self.marks, m) > 0 && m < self.first {
                    rank_grows(self.marks, m, self.first);
                }
                assert(is_other(self.key, self.stream_id, frame));
                if 0 < rank(self.marks, m) < self.order.len() {
                    assert(reassembly::is_live(held[self.stream_id], self.times[m as int]));
                }
            }
        }
    }

    /// The next fragment of the message, on top of those before it.
    proof fn next_fragment(self, m: nat)
        requires
            self.carries_the_message(),
            self.is_timely(),
            m < self.frames.len(),
            self.marks[m as int],
            self.is_in_the_making(self.held_before(m as int), rank(self.marks, m)),
        ensures
            ({
                let (after, outcome) = client::received(
                    self.key,
                    self.held_before(m as int),
                    self.frames[m as int],
                    self.times[m as int],
                );
                &&& self.is_in_the_making(after, rank(self.marks, m + 1))
                &&& outcome == self.outcome_of_fragment(m as int)
            }),
    {
        let j = rank(self.marks, m);
        rank_grows(self.marks, m, self.marks.len());
        if m < self.first {
            rank_grows(self.marks, m, self.first);
        } else if self.first < m {
            rank_grows(self.marks, self.first, m);
        }
        fragmentation::one_more(
            self.held_before(m as int),
            self.chunks,
            self.stream_id,
            self.order,
            self.frames[self.first as int],
            self.times[self.first as int],
            self.frames[m as int],
            self.times[m as int],
            j as int,
        );
    }
}

/// A message in fragments arrives whole amid all other traffic, however it
/// was cut: single frames, fragments of other messages, refused frames may
/// come in between, in whatever mixture, and whatever becomes of them. As
/// long as its own fragments are each taken in once, in whatever order, and
/// all within the time limit of the first, the last of them gives back the
/// message, and none before it. There must be room for one more message in
/// the making when the first of them comes.
pub proof fn fragmented_messages_arrive_amid_traffic(passage: Passage)
    requires
        passage.carries_the_message(),
        passage.is_timely(),
    ensures
        ({
            let (after, outcomes) = received_all(
                passage.key,
                passage.streams,
                passage.frames,
                passage.times,
            );
            &&& outcomes.len() == passage.frames.len()
            &&& forall|k: int|
                0 <= k < passage.frames.len() && passage.marks[k] ==> #[trigger] outcomes[k]
                    == passage.outcome_of_fragment(k)
            &&& !after.contains_key(passage.stream_id)
        }),
{
    let frames = passage.frames;
    let times = passage.times;
    let outcomes = received_all(passage.key, passage.streams, frames, times).1;
    outcomes_are_steps(passage.key, passage.streams, frames, times);
    assert forall|k: int| 0 <= k < frames.len() && passage.marks[k] implies #[trigger] outcomes[k]
        == passage.outcome_of_fragment(k) by {
        passage.message_in_the_making(k as nat);
        passage.next_fragment(k as nat);
    }
    passage.message_in_the_making(frames.len());
    assert(frames.take(frames.len() as int) =~= frames);
    assert(times.take(times.len() as int) =~= times);
}

/// What a client sends in fragments arrives whole amid all other traffic at
/// an end with the same key: the last of the frames gives back the payload
/// and the target, without flags.
pub proof fn sent_fragments_arrive_amid_traffic(
    passage: Passage,
    target: Seq<u8>,
    payload: Seq<u8>,
    chunk_size: nat,
)
    requires
        client::fragmentation_fault(TransportKind::Uds, payload.len(), chunk_size) is None,
        passage.chunks == fragmentation::cuts(payload, chunk_size),
        fragmentation::is_arrangement(passage.order, passage.chunks.len()),
        passage.marks.len() == passage.frames.len(),
        rank(passage.marks, passage.marks.len()) == passage.order.len(),
        forall|k: int|
            0 <= k < passage.frames.len() ==> if passage.marks[k] {
                #[trigger] passage.frames[k] == client::fragment_frames(
                    passage.key,
                    target,
                    payload,
                    chunk_size,
                    passage.stream_id,
                )[passage.order[rank(passage.marks, k as nat) as int] as int]
            } else {
                is_other(passage.key, passage.stream_id, passage.frames[k])
            },
        passage.is_timely(),
    ensures
        ({
            let (after, outcomes) = received_all(
                passage.key,
                passage.streams,
                passage.frames,
                passage.times,
            );
            &&& outcomes.len() == passage.frames.len()
            &&& forall|k: int|
                0 <= k < passage.frames.len() && passage.marks[k] ==> #[trigger] outcomes[k]
                    == if rank(passage.marks, k as nat) + 1 == passage.order.len() {
                    Absorbed::Complete(framing::plain_frame(target, 0, payload))
                } else {
                    Absorbed::Waiting
                }
            &&& !after.contains_key(passage.stream_id)
        }),
{
    let key = passage.key;
    assert((0x0001u16 | 0x0004u16) & 0x0004u16 != 0 && (0u16 | 0x0004u16) & 0x0004u16 != 0)
        by (bit_vector);
    assert((0u16 | 0x0004u16) == 0x0004u16) by (bit_vector);
    fragmentation::fragment_flags_are_dropped();
    fragmentation::cuts_make_up_the_message(payload, chunk_size, passage.stream_id);
    assert forall|k: int| 0 <= k < passage.frames.len() && passage.marks[k] implies ({
        let i = passage.order[rank(passage.marks, k as nat) as int];
        &&& brings_fragment(
            key,
            #[trigger] passage.frames[k],
            passage.chunks,
            passage.stream_id,
            i,
        )
        &&& passage.frames[k].target == framing::target_field(target)
        &&& passage.frames[k].flags == client::base_flags(key) | FLAG_FRAGMENTED
    }) by {
        rank_grows(passage.marks, k as nat, passage.marks.len());
        let i = passage.order[rank(passage.marks, k as nat) as int];
        let fragment = fragmentation::fragment_at(payload, chunk_size, passage.stream_id, i);
        assert(passage.frames[k] == client::outgoing(key, target, FLAG_FRAGMENTED, fragment));
        sent_frames_are_authentic(key, target, FLAG_FRAGMENTED, fragment);
    }
    fragmented_messages_arrive_amid_traffic(passage);
}

/// A mark counts from its place on.
proof fn rank_grows(marks: Seq<bool>, a: nat, b: nat)
    requires
        a < b <= marks.len(),
    ensures
        rank(marks, a) <= rank(marks, b),
        marks[a as int] ==> rank(marks, a) < rank(marks, b),
    decreases b,
{
    if a + 1 < b {
        rank_grows(marks, a, (b - 1) as nat);
    }
}

/// Each outcome is that of its frame on what is held by then.
proof fn outcomes_are_steps(
    key: Option<Seq<u8>>,
    streams: Map<u32, StreamView>,
    frames: Seq<FrameView>,
    times: Seq<nat>,
)
    requires
        frames.len() == times.len(),
    ensures
        ({
            let outcomes = received_all(key, streams, frames, times).1;
            &&& outcomes.len() == frames.len()
            &&& forall|k: int|
                0 <= k < frames.len() ==> #[trigger] outcomes[k] == client::received(
                    key,
                    received_all(key, streams, frames.take(k), times.take(k)).0,
                    frames[k],
                    times[k],
                ).1
        }),
    decreases frames.len(),
{
    if frames.len() > 0 {
        let earlier = frames.drop_last();
        let before = times.drop_last();
        outcomes_are_steps(key, streams, earlier, before);
        let outcomes = received_all(key, streams, frames, times).1;
        assert forall|k: int| 0 <= k < frames.len() implies #[trigger] outcomes[k]
            == client::received(
            key,
            received_all(key, streams, frames.take(k), times.take(k)).0,
            frames[k],
            times[k],
        ).1 by {
            assert(frames.take(k) =~= earlier.take(k));
            assert(times.take(k) =~= before.take(k));
            if k < earlier.len() {
                assert(received_all(key, streams, earlier, before).1[k] == outcomes[k]);
            } else {
                assert(earlier.take(k) =~= earlier);
                assert(before.take(k) =~= before);
            }
        }
    }
}

/// Fragments fit in a frame of their own, and so does the message.
pub proof fn fragments_fit(
    transport: TransportKind,
    payload: Seq<u8>,
    chunk_size: nat,
    stream_id: u32,
    i: nat,
)
    requires
        client::fragmentation_fault(transport, payload.len(), chunk_size) is None,
        i < fragmentation::fragment_count(payload.len(), chunk_size),
    ensures
        fragmentation::fragment_at(payload, chunk_size, stream_id, i).len() <= MAX_PAYLOAD_SIZE,
        payload.len() > 0 ==> fragmentation::fragment_at(payload, chunk_size, stream_id, i).len()
            > FRAG_HEADER_SIZE,
        payload.len() <= MAX_PAYLOAD_SIZE,
{
    fragmentation::cut_steps(payload.len(), chunk_size, i);
}

/// Nothing is sent in fragments over a WebSocket.
pub proof fn websocket_takes_no_fragments(len: nat, chunk_size: nat)
    ensures
        client::fragmentation_fault(TransportKind::Ws, len, chunk_size) is Some,
{
}

/// Frames are compressed, fragmented or raw only where the sender asks for
/// it: a client adds nothing to the flags but the mark of the tag.
pub proof fn flags_are_kept(
    key: Option<Seq<u8>>,
    target: Seq<u8>,
    extra_flags: u16,
    payload: Seq<u8>,
)
    ensures
        ({
            let flags = client::outgoing(key, target, extra_flags, payload).flags;
            &&& flags & !FLAG_MAC_PRESENT == extra_flags & !FLAG_MAC_PRESENT
            &&& flags & FLAG_COMPRESSED == extra_flags & FLAG_COMPRESSED
            &&& key is Some ==> flags & FLAG_MAC_PRESENT != 0
            &&& key is None ==> flags == extra_flags
        }),
{
    assert((0x0001u16 | extra_flags) & !0x0001u16 == extra_flags & !0x0001u16) by (bit_vector);
    assert((0u16 | extra_flags) == extra_flags) by (bit_vector);
    assert((0x0001u16 | extra_flags) & 0x0002u16 == extra_flags & 0x0002u16) by (bit_vector);
    assert((0x0001u16 | extra_flags) & 0x0001u16 != 0) by (bit_vector);
}

/// The `n`-th stream id after `id`.
pub open spec fn later_stream(id: u32, n: nat) -> u32
    decreases n,
{
    if n == 0 {
        id
    } else {
        client::following_stream(later_stream(id, (n - 1) as nat))
    }
}

/// Stream ids are never 0, and none comes again before all others have been
/// used.
pub proof fn stream_ids_do_not_repeat(id: u32, n: nat)
    requires
        id >= 1,
        0 < n < u32::MAX,
    ensures
        later_stream(id, n) >= 1,
        later_stream(id, n) != id,
{
    later_stream_is_sum(id, n);
}

proof fn later_stream_is_sum(id: u32, n: nat)
    requires
        id >= 1,
        n < u32::MAX,
    ensures
        later_stream(id, n) == if id + n <= u32::MAX {
            id + n
        } else {
            id + n - u32::MAX
        },
    decreases n,
{
    if n > 0 {
        later_stream_is_sum(id, (n - 1) as nat);
    }
}

/// A registration secures a connection exactly if the client has a secret
/// and the answer brings a nonce; the key depends on secret, nonce and plugin
/// id alone, so that both ends come to the same.
pub proof fn registration_secures(
    client: ClientView,
    plugin_id: Seq<char>,
    reply: Envelope,
    ack: PluginRegisterAck,
)
    requires
        client.session_key is None,
        reply.payload == Some(Payload::PluginRegisterAck(ack)),
    ensures
        ({
            let key = client::key_after_registration(client, plugin_id, reply);
            &&& key is Some <==> (client.secret is Some && ack.session_nonce@.len() > 0)
            &&& key is Some ==> key == Some(
                frame_mac::session_key(client.secret->0, ack.session_nonce@, plugin_id),
            )
        }),
{
}

} // verus!
