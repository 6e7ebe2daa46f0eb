//! What becomes of a fragment, in plain numbers and texts.

use crate::error::VynkorError;
use crate::framing::{self, Frame};
use crate::reassembly::{self, Reassembly, ReassemblyBuf, StreamView};
use crate::span::Span;
use crate::text;
use vstd::prelude::*;
use vstd::string::*;

verus! {

/// A message in the making is kept for half a minute from its first fragment
/// on, and not a nanosecond longer.
pub proof fn streams_live_half_a_minute(streams: Map<u32, StreamView>, now: nat, id: u32)
    ensures
        reassembly::live_streams(streams, now).contains_key(id) <==> streams.contains_key(id) && now
            < streams[id].first_seen + 30_000_000_000,
        reassembly::live_streams(streams, now).contains_key(id) ==> reassembly::live_streams(
            streams,
            now,
        )[id] == streams[id],
{
}

/// What is held of a message counts every chunk that is there with its length,
/// and gives the chunks back in their order.
pub proof fn every_chunk_counts(fragments: Map<u16, Seq<u8>>, end: u16)
    ensures
        reassembly::buffered(fragments, 0) == 0,
        reassembly::concatenated(fragments, 0).len() == 0,
        reassembly::buffered(fragments, (end + 1) as nat) == reassembly::buffered(
            fragments,
            end as nat,
        ) + if fragments.contains_key(end) {
            fragments[end].len()
        } else {
            0
        },
        fragments.contains_key(end) ==> reassembly::concatenated(fragments, (end + 1) as nat)
            == reassembly::concatenated(fragments, end as nat) + fragments[end],
        !fragments.contains_key(end) ==> reassembly::concatenated(fragments, (end + 1) as nat)
            == reassembly::concatenated(fragments, end as nat),
{
    let i = (end + 1 - 1) as u16;
    assert(i == end);
    assert(reassembly::concatenated(fragments, (end + 1) as nat)
        =~= reassembly::concatenated(fragments, end as nat) + if fragments.contains_key(end) {
        fragments[end]
    } else {
        Seq::empty()
    });
}

/// A message arrives with the flags of its first fragment but for the mark of
/// the tag and that of the fragment.
pub proof fn other_flags_are_kept(flags: u16)
    ensures
        reassembly::message_flags(flags) == flags & 0xFFFA,
{
    assert(flags & !(0x0004u16 | 0x0001u16) == flags & 0xFFFA) by (bit_vector);
}

/// Every position of a message is taken.
pub open spec fn all_there(fragments: Map<u16, Seq<u8>>, total: u16) -> bool {
    forall|i: u16| i < total ==> #[trigger] fragments.contains_key(i)
}

/// A message in the making with one more chunk: as it was but for that, or a
/// new one with the target and the flags of its frame.
pub open spec fn grown(
    live: Map<u32, StreamView>,
    id: u32,
    position: u16,
    total: u16,
    target: Seq<u8>,
    flags: u16,
    chunk: Seq<u8>,
    now: nat,
) -> StreamView {
    if live.contains_key(id) {
        StreamView {
            fragments: live[id].fragments.insert(position, chunk),
            total: live[id].total,
            target: live[id].target,
            flags: live[id].flags,
            first_seen: live[id].first_seen,
        }
    } else {
        StreamView {
            fragments: Map::empty().insert(position, chunk),
            total,
            target,
            flags: flags & 0xFFFA,
            first_seen: now,
        }
    }
}

/// What becomes of a fragment. What says no position, or none of its message,
/// is refused. A message whose fragments disagree on their number is given up.
/// A new message is refused while sixty-four others are in the making. A
/// message that outgrows a mebibyte is given up. Otherwise the chunk takes its
/// position, in place of one that was there; the last one gives back the
/// message, and before it the receiver waits. Messages whose time is over are
/// forgotten, and all others stay as they are.
pub proof fn fragments_are_taken_in(
    reassembly: &mut Reassembly,
    frame: Frame,
    now: Span,
    result: Result<Option<Frame>, VynkorError>,
)
    requires
        old(reassembly).wf(),
        call_ensures(Reassembly::absorb_fragment, (reassembly, frame, now), result),
    ensures
        final(reassembly).wf(),
        ({
            let live = reassembly::live_streams(old(reassembly)@, now@);
            let bytes = frame.payload@;
            if bytes.len() < 10 {
                &&& result matches Err(VynkorError::Internal(text)) && text@
                    == "fragment header too short"@
                &&& final(reassembly)@ == live
            } else {
                let position = bytes[2] * 256 + bytes[3];
                let total = bytes[4] * 256 + bytes[5];
                let id = (bytes[6] * 16_777_216 + bytes[7] * 65_536 + bytes[8] * 256
                    + bytes[9]) as u32;
                if position >= total {
                    &&& result matches Err(VynkorError::Internal(text)) && text@
                        == "invalid fragment header: seq "@ + text::decimal(position as nat)
                        + " / total "@ + text::decimal(total as nat)
                    &&& final(reassembly)@ == live
                } else if live.contains_key(id) && live[id].total != total {
                    &&& result matches Err(VynkorError::Internal(text)) && text@
                        == "fragment total mismatch within stream"@
                    &&& final(reassembly)@ == live.remove(id)
                } else if !live.contains_key(id) && live.len() >= 64 {
                    &&& result matches Err(VynkorError::Internal(text)) && text@
                        == "too many concurrent fragment streams"@
                    &&& final(reassembly)@ == live
                } else {
                    let stream = grown(
                        live,
                        id,
                        position as u16,
                        total as u16,
                        frame.target@,
                        frame.flags,
                        bytes.skip(10),
                        now@,
                    );
                    if reassembly::buffered(stream.fragments, total as nat) > 1_048_576 {
                        &&& result matches Err(VynkorError::PayloadTooLarge(size)) && size
                            == 1_048_577
                        &&& final(reassembly)@ == live.remove(id)
                    } else if all_there(stream.fragments, total as u16) {
                        &&& final(reassembly)@ == live.remove(id)
                        &&& result matches Ok(Some(whole))
                        &&& whole.magic == 0x5652
                        &&& whole.flags == stream.flags
                        &&& whole.target@ == stream.target
                        &&& whole.payload@ == reassembly::concatenated(
                            stream.fragments,
                            total as nat,
                        )
                        &&& whole.length == whole.payload@.len()
                        &&& whole.crc32 == framing::crc32(whole.payload@)
                        &&& whole.mac is None
                    } else {
                        &&& result matches Ok(None)
                        &&& final(reassembly)@ == live.insert(id, stream)
                    }
                }
            }
        }),
{
    other_flags_are_kept(frame.flags);
    reassembly::whole_messages_fit(old(reassembly)@, frame@, now@);
    assert(frame@.payload == frame.payload@ && frame@.target == frame.target@);
    if frame.payload@.len() >= 10 {
        let header = framing::frag_header_of(frame.payload@)->0;
        let bytes = frame.payload@;
        assert(header.sequence == bytes[2] * 256 + bytes[3]);
        assert(header.total == bytes[4] * 256 + bytes[5]);
        assert(header.stream_id == bytes[6] * 16_777_216 + bytes[7] * 65_536 + bytes[8] * 256
            + bytes[9]);
        let live = reassembly::live_streams(old(reassembly)@, now@);
        let stream = grown(
            live,
            header.stream_id,
            header.sequence,
            header.total,
            frame.target@,
            frame.flags,
            bytes.skip(10),
            now@,
        );
        assert(stream.complete() == all_there(stream.fragments, stream.total));
        if let Ok(Some(whole)) = result {
            assert(whole@.target == whole.target@ && whole@.payload == whole.payload@);
            assert(whole@.mac is None <==> whole.mac is None);
        }
    }
}

/// Nothing is in the making at first.
pub proof fn reassembly_begins_empty(fresh: Reassembly)
    requires
        call_ensures(Reassembly::new, (), fresh),
    ensures
        call_requires(Reassembly::new, ()),
        fresh.wf(),
        forall|id: u32| !#[trigger] fresh@.contains_key(id),
{
}

/// A message in the making is complete exactly if every position is taken, and
/// its payload is then all chunks in their order.
pub proof fn complete_messages_are_glued(
    stream: ReassemblyBuf,
    complete: bool,
    payload: Vec<u8>,
)
    requires
        stream.wf(),
        call_ensures(ReassemblyBuf::is_complete, (&stream,), complete),
        call_ensures(ReassemblyBuf::reassemble, (stream,), payload),
    ensures
        call_requires(ReassemblyBuf::is_complete, (&stream,)),
        complete <==> all_there(stream@.fragments, stream@.total),
        payload@ == reassembly::concatenated(stream@.fragments, stream@.total as nat),
{
    assert(stream@.complete() == all_there(stream@.fragments, stream@.total));
}

} // verus!
