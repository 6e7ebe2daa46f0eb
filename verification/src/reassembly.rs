//! Putting fragmented messages back together.

use crate::error::{ErrorView, VynkorError};
use crate::framing::{
    self, parse_frag_header, push_bytes, restored_frame, Frame, FrameView, FLAG_FRAGMENTED,
    FLAG_MAC_PRESENT, FRAG_HEADER_SIZE, MAGIC, MAX_PAYLOAD_SIZE,
};
use crate::span::{self, Span, NANOS_PER_SEC};
use crate::text::{self, push_decimal};
use std::collections::HashMap;
use vstd::prelude::*;
use vstd::slice::{slice_subrange, slice_to_vec};
use vstd::string::*;

verus! {

broadcast use vstd::std_specs::hash::group_hash_axioms;

/// How many messages may be in the making at once.
pub const MAX_REASSEMBLY_STREAMS: usize = 64;

/// How many seconds a message may stay in the making.
pub const REASSEMBLY_TIMEOUT_SECS: u64 = 30;

/// A message in the making: the fragments that have arrived so far.
pub struct ReassemblyBuf {
    fragments: HashMap<u16, Vec<u8>>,
    total: u16,
    target: [u8; 32],
    flags: u16,
    first_seen: Span,
    buffered_bytes: usize,
}

/// The model of a message in the making.
#[verifier::ext_equal]
pub struct StreamView {
    /// The chunks that have arrived, by their position.
    pub fragments: Map<u16, Seq<u8>>,
    /// How many chunks the message has.
    pub total: u16,
    pub target: Seq<u8>,
    pub flags: u16,
    /// When the first chunk arrived, in nanoseconds.
    pub first_seen: nat,
}

impl View for ReassemblyBuf {
    type V = StreamView;

    closed spec fn view(&self) -> StreamView {
        StreamView {
            fragments: self.fragments@.map_values(|chunk: Vec<u8>| chunk@),
            total: self.total,
            target: self.target@,
            flags: self.flags,
            first_seen: self.first_seen@,
        }
    }
}

/// Bytes held in the chunks before position `end`.
pub open spec fn buffered(fragments: Map<u16, Seq<u8>>, end: nat) -> nat
    decreases end,
{
    if end == 0 {
        0
    } else {
        let last = (end - 1) as u16;
        buffered(fragments, (end - 1) as nat) + if fragments.contains_key(last) {
            fragments[last].len()
        } else {
            0
        }
    }
}

/// The chunks before position `end`, one after another.
pub open spec fn concatenated(fragments: Map<u16, Seq<u8>>, end: nat) -> Seq<u8>
    decreases end,
{
    if end == 0 {
        seq![]
    } else {
        let last = (end - 1) as u16;
        concatenated(fragments, (end - 1) as nat) + if fragments.contains_key(last) {
            fragments[last]
        } else {
            seq![]
        }
    }
}

impl StreamView {
    /// Every chunk has arrived.
    pub open spec fn complete(self) -> bool {
        forall|i: u16| i < self.total ==> #[trigger] self.fragments.contains_key(i)
    }

    /// Only positions of the message are taken.
    pub open spec fn in_range(self) -> bool {
        &&& self.fragments.dom().finite()
        &&& forall|i: u16| #[trigger] self.fragments.contains_key(i) ==> i < self.total
    }

    /// What is held of an unfinished message: at least one chunk is there and
    /// at least one is missing, and what is there fits in one payload.
    pub open spec fn unfinished(self) -> bool {
        &&& self.in_range()
        &&& exists|i: u16| #[trigger] self.fragments.contains_key(i)
        &&& !self.complete()
        &&& buffered(self.fragments, self.total as nat) <= MAX_PAYLOAD_SIZE
    }
}

/// The bounds on everything that is held: few streams, each of them
/// unfinished and within one payload.
pub open spec fn within_bounds(streams: Map<u32, StreamView>) -> bool {
    &&& streams.dom().finite()
    &&& streams.len() <= MAX_REASSEMBLY_STREAMS
    &&& forall|id: u32| #[trigger] streams.contains_key(id) ==> streams[id].unfinished()
}

/// A chunk replaced: what was held at its position no longer counts.
proof fn buffered_after_insert(
    fragments: Map<u16, Seq<u8>>,
    position: u16,
    chunk: Seq<u8>,
    end: nat,
)
    requires
        end <= u16::MAX,
    ensures
        buffered(fragments.insert(position, chunk), end) == if position < end {
            buffered(fragments, end) + chunk.len() - if fragments.contains_key(position) {
                fragments[position].len()
            } else {
                0
            }
        } else {
            buffered(fragments, end) as int
        },
        position < end && fragments.contains_key(position) ==> fragments[position].len()
            <= buffered(fragments, end),
    decreases end,
{
    if end > 0 {
        buffered_after_insert(fragments, position, chunk, (end - 1) as nat);
    }
}

proof fn concatenated_len(fragments: Map<u16, Seq<u8>>, end: nat)
    ensures
        concatenated(fragments, end).len() == buffered(fragments, end),
    decreases end,
{
    if end > 0 {
        concatenated_len(fragments, (end - 1) as nat);
    }
}

proof fn nothing_buffered(end: nat)
    ensures
        buffered(Map::empty(), end) == 0,
    decreases end,
{
    if end > 0 {
        nothing_buffered((end - 1) as nat);
    }
}

/// All positions are taken exactly when as many chunks are held as the
/// message has.
proof fn complete_by_count(stream: StreamView)
    requires
        stream.in_range(),
    ensures
        stream.complete() <==> stream.fragments.len() == stream.total,
{
    let positions = Set::<u16>::new(|i: u16| 0 <= i < stream.total);
    positions_counted(stream.total);
    let held = stream.fragments.dom();
    assert(held.subset_of(positions));
    if stream.complete() {
        assert(positions.subset_of(held));
        assert(held =~= positions);
    }
    if held.len() == stream.total {
        vstd::set_lib::lemma_subset_equality(held, positions);
        assert forall|i: u16| i < stream.total implies #[trigger] stream.fragments.contains_key(
            i,
        ) by {
            assert(positions.contains(i));
        }
    }
}

proof fn positions_counted(total: u16)
    ensures
        Set::<u16>::new(|i: u16| 0 <= i < total).finite(),
        Set::<u16>::new(|i: u16| 0 <= i < total).len() == total,
    decreases total,
{
    let positions = Set::<u16>::new(|i: u16| 0 <= i < total);
    if total == 0 {
        assert(positions =~= Set::<u16>::empty());
    } else {
        let last = (total - 1) as u16;
        positions_counted(last);
        assert(positions =~= Set::<u16>::new(|i: u16| 0 <= i < last).insert(last));
    }
}

impl ReassemblyBuf {
    /// The byte count is right, and only positions of the message are taken.
    pub closed spec fn wf(self) -> bool {
        &&& self@.in_range()
        &&& self.buffered_bytes == buffered(self@.fragments, self.total as nat)
    }

    /// Whether every chunk has arrived.
    pub fn is_complete(&self) -> (complete: bool)
        requires
            self.wf(),
        ensures
            complete == self@.complete(),
    {
        proof {
            complete_by_count(self@);
            assert(self@.fragments.dom() =~= self.fragments@.dom());
        }
        self.fragments.len() == self.total as usize
    }

    /// Starts a message of `total` chunks with the first fragment's frame.
    fn open(frame: &Frame, total: u16, now: Span) -> (stream: ReassemblyBuf)
        ensures
            stream.wf(),
            stream@ == new_stream(frame@, total, now@),
            buffered(stream@.fragments, total as nat) == 0,
    {
        let stream = ReassemblyBuf {
            fragments: HashMap::new(),
            total,
            target: frame.target,
            flags: frame.flags & !(FLAG_FRAGMENTED | FLAG_MAC_PRESENT),
            first_seen: now,
            buffered_bytes: 0,
        };
        proof {
            assert(stream@.fragments =~= Map::<u16, Seq<u8>>::empty());
            nothing_buffered(total as nat);
        }
        stream
    }

    /// Puts a chunk at its position, in place of one that is there. Refused,
    /// with nothing changed, when the chunks would outgrow one payload.
    fn put(&mut self, position: u16, chunk: Vec<u8>) -> (fits: bool)
        requires
            old(self).wf(),
            position < old(self)@.total,
            buffered(old(self)@.fragments, old(self)@.total as nat) <= MAX_PAYLOAD_SIZE,
        ensures
            final(self).wf(),
            fits == (buffered(
                old(self)@.fragments.insert(position, chunk@),
                old(self)@.total as nat,
            ) <= MAX_PAYLOAD_SIZE),
            fits ==> final(self)@ == (StreamView {
                fragments: old(self)@.fragments.insert(position, chunk@),
                ..old(self)@
            }),
            !fits ==> final(self)@ == old(self)@,
    {
        proof {
            buffered_after_insert(self@.fragments, position, chunk@, self.total as nat);
        }
        let replaced_len: usize = match self.fragments.get(&position) {
            Some(held) => held.len(),
            None => 0,
        };
        if chunk.len() > MAX_PAYLOAD_SIZE {
            return false;
        }
        let new_total: usize = self.buffered_bytes - replaced_len + chunk.len();
        if new_total > MAX_PAYLOAD_SIZE {
            return false;
        }
        let ghost inserted = self@.fragments.insert(position, chunk@);
        self.buffered_bytes = new_total;
        self.fragments.insert(position, chunk);
        assert(self@.fragments =~= inserted);
        true
    }

    /// The chunks, in the order of their positions.
    pub fn reassemble(self) -> (payload: Vec<u8>)
        ensures
            payload@ == concatenated(self@.fragments, self@.total as nat),
    {
        let mut out: Vec<u8> = Vec::new();
        let mut position: u16 = 0;
        while position < self.total
            invariant
                position <= self.total,
                out@ == concatenated(self@.fragments, position as nat),
            decreases self.total - position,
        {
            match self.fragments.get(&position) {
                Some(chunk) => {
                    push_bytes(&mut out, chunk);
                },
                None => {},
            }
            position = position + 1;
            assert(out@ =~= concatenated(self@.fragments, position as nat));
        }
        out
    }
}

/// The messages in the making, by the id of their stream.
pub struct Reassembly {
    streams: HashMap<u32, ReassemblyBuf>,
}

impl View for Reassembly {
    type V = Map<u32, StreamView>;

    closed spec fn view(&self) -> Map<u32, StreamView> {
        self.streams@.map_values(|stream: ReassemblyBuf| stream@)
    }
}

/// What taking in one fragment leads to.
pub enum Absorbed {
    /// More fragments are needed.
    Waiting,
    /// The message is whole.
    Complete(FrameView),
    /// The fragment was refused.
    Failed(ErrorView),
}

/// The outcome that a result stands for.
pub open spec fn outcome(result: Result<Option<Frame>, VynkorError>) -> Absorbed {
    match result {
        Ok(None) => Absorbed::Waiting,
        Ok(Some(frame)) => Absorbed::Complete(frame@),
        Err(error) => Absorbed::Failed(error@),
    }
}

/// Nanoseconds that a message may stay in the making.
pub open spec fn reassembly_timeout() -> nat {
    (REASSEMBLY_TIMEOUT_SECS * NANOS_PER_SEC) as nat
}

/// Whether a stream is still within its time.
pub open spec fn is_live(stream: StreamView, now: nat) -> bool {
    span::younger_than(stream.first_seen, reassembly_timeout(), now)
}

/// The streams that are still within their time.
pub open spec fn live_streams(streams: Map<u32, StreamView>, now: nat) -> Map<u32, StreamView> {
    Map::new(
        |id: u32| streams.contains_key(id) && is_live(streams[id], now),
        |id: u32| streams[id],
    )
}

/// The flags of a message that arrived in fragments with these flags.
pub open spec fn message_flags(flags: u16) -> u16 {
    flags & !(FLAG_FRAGMENTED | FLAG_MAC_PRESENT)
}

/// A stream that has no chunk yet.
pub open spec fn new_stream(frame: FrameView, total: u16, now: nat) -> StreamView {
    StreamView {
        fragments: Map::empty(),
        total,
        target: frame.target,
        flags: message_flags(frame.flags),
        first_seen: now,
    }
}

/// The message that the chunks of a complete stream make up.
pub open spec fn whole_message(stream: StreamView) -> FrameView {
    let payload = concatenated(stream.fragments, stream.total as nat);
    FrameView {
        magic: MAGIC,
        flags: stream.flags,
        length: payload.len() as u32,
        target: stream.target,
        crc32: framing::crc32(payload),
        payload,
        mac: None,
    }
}

/// The message of a fragment header whose position is not one of the message.
pub open spec fn bad_position(sequence: u16, total: u16) -> Seq<char> {
    "invalid fragment header: seq "@ + text::decimal(sequence as nat) + " / total "@ + text::decimal(
        total as nat,
    )
}

/// Takes in one fragment: what is held afterwards, and what it led to.
///
/// Streams whose time is over are dropped first. A fragment for an unknown
/// stream opens it, unless too many are open; a second chunk for a position
/// replaces the first. A stream is closed when its message is whole, when a
/// fragment contradicts its number of chunks, or when it outgrows one payload.
pub open spec fn absorb(streams: Map<u32, StreamView>, frame: FrameView, now: nat) -> (
    Map<u32, StreamView>,
    Absorbed,
) {
    let live = live_streams(streams, now);
    match framing::frag_header_of(frame.payload) {
        None => (live, Absorbed::Failed(ErrorView::Internal("fragment header too short"@))),
        Some(header) => {
            let id = header.stream_id;
            if header.sequence >= header.total {
                (
                    live,
                    Absorbed::Failed(
                        ErrorView::Internal(bad_position(header.sequence, header.total)),
                    ),
                )
            } else if live.contains_key(id) && live[id].total != header.total {
                (
                    live.remove(id),
                    Absorbed::Failed(
                        ErrorView::Internal("fragment total mismatch within stream"@),
                    ),
                )
            } else if !live.contains_key(id) && live.len() >= MAX_REASSEMBLY_STREAMS {
                (
                    live,
                    Absorbed::Failed(ErrorView::Internal("too many concurrent fragment streams"@)),
                )
            } else {
                let before = if live.contains_key(id) {
                    live[id]
                } else {
                    new_stream(frame, header.total, now)
                };
                let after = StreamView {
                    fragments: before.fragments.insert(
                        header.sequence,
                        frame.payload.skip(FRAG_HEADER_SIZE as int),
                    ),
                    ..before
                };
                if buffered(after.fragments, after.total as nat) > MAX_PAYLOAD_SIZE {
                    (
                        live.remove(id),
                        Absorbed::Failed(
                            ErrorView::PayloadTooLarge((MAX_PAYLOAD_SIZE + 1) as nat),
                        ),
                    )
                } else if after.complete() {
                    (live.remove(id), Absorbed::Complete(whole_message(after)))
                } else {
                    (live.insert(id, after), Absorbed::Waiting)
                }
            }
        },
    }
}

impl Reassembly {
    /// Each stream's byte count is right, and the bounds are kept.
    pub closed spec fn wf(self) -> bool {
        &&& forall|id: u32| #[trigger]
            self.streams@.contains_key(id) ==> self.streams@[id].wf()
        &&& within_bounds(self@)
    }

    /// The bounds are kept.
    pub proof fn wf_is_within_bounds(self)
        requires
            self.wf(),
        ensures
            within_bounds(self@),
    {
    }

    /// Holds nothing.
    pub fn new() -> (reassembly: Reassembly)
        ensures
            reassembly.wf(),
            reassembly@ == Map::<u32, StreamView>::empty(),
    {
        let reassembly = Reassembly { streams: HashMap::new() };
        assert(reassembly@ =~= Map::<u32, StreamView>::empty());
        reassembly
    }

    /// Drops the streams whose time is over.
    fn prune(&mut self, now: Span)
        requires
            old(self).wf(),
        ensures
            final(self).wf(),
            final(self)@ == live_streams(old(self)@, now@),
    {
        let limit = Span::from_secs(REASSEMBLY_TIMEOUT_SECS);
        let mut expired: Vec<u32> = Vec::new();
        for id in keys: self.streams.keys()
            invariant
                limit@ == reassembly_timeout(),
                forall|i: int|
                    0 <= i < expired@.len() ==> self.streams@.contains_key(#[trigger] expired@[i])
                        && !is_live(self@[expired@[i]], now@),
                keys.seq().unref().to_set() == self.streams@.dom(),
                forall|i: int|
                    0 <= i < keys.index() && !is_live(self@[*#[trigger] keys.seq()[i]], now@)
                        ==> expired@.contains(*keys.seq()[i]),
                keys.index() == keys.seq().len() ==> forall|id: u32| #[trigger]
                    self.streams@.contains_key(id) && !is_live(self@[id], now@)
                        ==> expired@.contains(id),
        {
            match self.streams.get(id) {
                Some(stream) => {
                    if !stream.first_seen.is_younger_than(limit, now) {
                        let ghost before = expired@;
                        expired.push(*id);
                        assert forall|x: u32| before.contains(x) implies expired@.contains(x) by {
                            let i = choose|i: int| 0 <= i < before.len() && before[i] == x;
                            assert(expired@[i] == x);
                        }
                        assert(expired@[before.len() as int] == *id);
                    }
                },
                None => {},
            }
            assert forall|id: u32|
                keys.index() + 1 == keys.seq().len() && #[trigger] self.streams@.contains_key(id)
                    && !is_live(self@[id], now@) implies expired@.contains(id) by {
                assert(keys.seq().unref().to_set().contains(id));
                let i = choose|i: int|
                    0 <= i < keys.seq().unref().len() && keys.seq().unref()[i] == id;
                assert(*keys.seq()[i] == id);
            }
        }
        let mut i: usize = 0;
        while i < expired.len()
            invariant
                i <= expired@.len(),
                forall|id: u32| #[trigger]
                    self.streams@.contains_key(id) <==> old(self).streams@.contains_key(id)
                        && !expired@.take(i as int).contains(id),
                forall|id: u32| #[trigger]
                    self.streams@.contains_key(id) ==> self.streams@[id] == old(self).streams@[id],
            decreases expired@.len() - i,
        {
            let id: u32 = expired[i];
            self.streams.remove(&id);
            proof {
                let done = expired@.take(i as int);
                let longer = expired@.take(i + 1);
                assert(longer =~= done.push(id));
                assert(longer[i as int] == id);
                assert forall|x: u32| longer.contains(x) <==> done.contains(x) || x == id by {
                    if done.contains(x) {
                        let k = choose|k: int| 0 <= k < done.len() && done[k] == x;
                        assert(longer[k] == x);
                    }
                }
            }
            i = i + 1;
        }
        proof {
            assert(expired@.take(expired@.len() as int) =~= expired@);
            let live = live_streams(old(self)@, now@);
            assert forall|id: u32| self@.contains_key(id) <==> live.contains_key(id) by {
                if expired@.contains(id) {
                    let k = choose|k: int| 0 <= k < expired@.len() && expired@[k] == id;
                    assert(!is_live(old(self)@[expired@[k]], now@));
                }
                assert(self@.contains_key(id) <==> self.streams@.contains_key(id));
                assert(old(self)@.contains_key(id) <==> old(self).streams@.contains_key(id));
            }
            assert(self@ =~= live);
            live_streams_within_bounds(old(self)@, now@);
        }
    }
}

impl Reassembly {
    /// Takes in one fragment and returns the message once it is whole.
    pub fn absorb_fragment(&mut self, frame: Frame, now: Span) -> (result: Result<
        Option<Frame>,
        VynkorError,
    >)
        requires
            old(self).wf(),
        ensures
            final(self).wf(),
            (final(self)@, outcome(result)) == absorb(old(self)@, frame@, now@),
    {
        proof {
            absorb_keeps_bounds(self@, frame@, now@);
        }
        // Streams whose time is over go first, so that an abandoned one does
        // not hold on to memory.
        self.prune(now);
        let ghost live = self@;
        let header = match parse_frag_header(&frame.payload) {
            Some(header) => header,
            None => return Err(VynkorError::Internal("fragment header too short".to_string())),
        };
        if header.total == 0 || header.sequence >= header.total {
            return Err(VynkorError::Internal(bad_position_text(header.sequence, header.total)));
        }
        let id: u32 = header.stream_id;
        let open_streams: usize = self.streams.len();
        let mut stream = match self.streams.remove(&id) {
            Some(stream) => {
                assert(self@ =~= live.remove(id));
                if stream.total != header.total {
                    return Err(
                        VynkorError::Internal(
                            "fragment total mismatch within stream".to_string(),
                        ),
                    );
                }
                stream
            },
            None => {
                assert(self@ =~= live);
                assert(live.dom() =~= self.streams@.dom());
                if open_streams >= MAX_REASSEMBLY_STREAMS {
                    return Err(
                        VynkorError::Internal("too many concurrent fragment streams".to_string()),
                    );
                }
                ReassemblyBuf::open(&frame, header.total, now)
            },
        };
        assert(self@ =~= live.remove(id));
        let chunk = slice_to_vec(
            slice_subrange(&frame.payload, FRAG_HEADER_SIZE, frame.payload.len()),
        );
        assert(chunk@ =~= frame@.payload.skip(FRAG_HEADER_SIZE as int));
        if !stream.put(header.sequence, chunk) {
            return Err(VynkorError::PayloadTooLarge(MAX_PAYLOAD_SIZE + 1));
        }
        if stream.is_complete() {
            let target = stream.target;
            let flags = stream.flags;
            let payload = stream.reassemble();
            return Ok(Some(restored_frame(target, flags, payload)));
        }
        let ghost held = stream@;
        self.streams.insert(id, stream);
        assert(self@ =~= live.insert(id, held));
        Ok(None)
    }
}

fn bad_position_text(sequence: u16, total: u16) -> (text: String)
    ensures
        text@ == bad_position(sequence, total),
{
    let mut text = String::from_str("invalid fragment header: seq ");
    push_decimal(&mut text, sequence as u64);
    text.append(" / total ");
    push_decimal(&mut text, total as u64);
    text
}

/// The bounds on what is held are kept by every fragment, whatever it says:
/// at most 64 streams, each of them unfinished and within one payload.
pub proof fn absorb_keeps_bounds(streams: Map<u32, StreamView>, frame: FrameView, now: nat)
    requires
        within_bounds(streams),
    ensures
        within_bounds(absorb(streams, frame, now).0),
{
    let live = live_streams(streams, now);
    live_streams_within_bounds(streams, now);
    match framing::frag_header_of(frame.payload) {
        Some(header) => {
            let id = header.stream_id;
            assert(live.remove(id).dom() =~= live.dom().remove(id));
            vstd::set_lib::lemma_len_subset(live.remove(id).dom(), live.dom());
            let after = absorb(streams, frame, now).0;
            if absorb(streams, frame, now).1 is Waiting {
                assert(after[id].fragments.contains_key(header.sequence));
            }
        },
        None => {},
    }
}

/// Dropping streams keeps the bounds.
proof fn live_streams_within_bounds(streams: Map<u32, StreamView>, now: nat)
    requires
        within_bounds(streams),
    ensures
        within_bounds(live_streams(streams, now)),
        live_streams(streams, now).len() <= streams.len(),
{
    let live = live_streams(streams, now);
    assert(live.dom().subset_of(streams.dom()));
    vstd::set_lib::lemma_len_subset(live.dom(), streams.dom());
}

/// A message that arrived in fragments is no larger than one payload, and
/// its header says how long it is.
pub proof fn whole_messages_fit(streams: Map<u32, StreamView>, frame: FrameView, now: nat)
    ensures
        absorb(streams, frame, now).1 matches Absorbed::Complete(message) ==> {
            &&& message.payload.len() <= MAX_PAYLOAD_SIZE
            &&& message.length == message.payload.len()
            &&& message.crc32 == framing::crc32(message.payload)
        },
{
    if absorb(streams, frame, now).1 is Complete {
        let live = live_streams(streams, now);
        let header = framing::frag_header_of(frame.payload)->0;
        let before = if live.contains_key(header.stream_id) {
            live[header.stream_id]
        } else {
            new_stream(frame, header.total, now)
        };
        concatenated_len(
            before.fragments.insert(
                header.sequence,
                frame.payload.skip(FRAG_HEADER_SIZE as int),
            ),
            before.total as nat,
        );
    }
}

} // verus!
