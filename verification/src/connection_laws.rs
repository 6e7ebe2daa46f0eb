//! What a client does on its connection, call by call.

use crate::client::{
    self, checked_ws_protocol, token_fits_header, ws_protocol, TransportKind, VynkorClient,
};
use crate::error::VynkorError;
use crate::fragmentation;
use crate::frame_mac;
use crate::framing::{self, serialize_header, Frame};
use crate::proto::{Envelope, Outgoing, Payload, PluginManifest, PluginRegisterAck};
use crate::reassembly;
use crate::span::Span;
use crate::text;
use vstd::prelude::*;
use vstd::string::*;

verus! {

/// A new client is unsecured and holds nothing; a device id is added to it and
/// changes nothing else; it is secured from the moment it has a key.
pub proof fn clients_begin_unsecured(
    transport: TransportKind,
    secret: Option<Vec<u8>>,
    device_id: String,
    fresh: VynkorClient,
    device: VynkorClient,
    any: &VynkorClient,
    secured: bool,
)
    requires
        call_ensures(VynkorClient::new, (transport, secret), fresh),
        call_ensures(VynkorClient::with_device_id, (fresh, device_id), device),
        call_ensures(VynkorClient::is_secured, (any,), secured),
    ensures
        call_requires(VynkorClient::new, (transport, secret)),
        call_requires(VynkorClient::with_device_id, (fresh, device_id)),
        call_requires(VynkorClient::is_secured, (any,)),
        fresh.wf(),
        fresh@.transport == transport,
        secret matches Some(bytes) ==> fresh@.secret == Some(bytes@),
        secret is None ==> fresh@.secret is None,
        fresh@.device_id is None,
        fresh@.session_key is None,
        fresh@.streams.dom() =~= Set::empty(),
        fresh@.next_stream_id == 1,
        device.wf(),
        device@.device_id == Some(device_id@),
        device@.transport == transport,
        device@.secret == fresh@.secret,
        device@.session_key is None,
        device@.streams == fresh@.streams,
        device@.next_stream_id == 1,
        secured <==> any@.session_key is Some,
{
}

/// The frame is what a client with this key sends: the payload unchanged, to
/// its target, with the flags that were asked for and the mark of the tag,
/// and a tag over header and payload exactly if there is a key.
pub open spec fn is_sealed(
    frame: Frame,
    header: Seq<u8>,
    key: Option<Seq<u8>>,
    target: Seq<u8>,
    extra_flags: u16,
    payload: Seq<u8>,
) -> bool {
    &&& frame.magic == 0x5652
    &&& frame.payload@ == payload
    &&& frame.length == payload.len() as u32
    &&& frame.crc32 == framing::crc32(payload)
    &&& forall|i: int|
        0 <= i < 32 ==> #[trigger] frame.target@[i] == if i < target.len() {
            target[i]
        } else {
            0u8
        }
    &&& match key {
        None => frame.flags == extra_flags && frame.mac is None,
        Some(key) => {
            &&& frame.flags == 0x0001u16 | extra_flags
            &&& frame.mac matches Some(tag)
            &&& tag@ == frame_mac::hmac_sha256(key, header + payload)
        },
    }
}

/// What is sent arrives as it was handed in: [`is_sealed`] holds of every
/// frame, whatever is sent and whoever it is for; plain messages add no flag,
/// and audio is marked as raw binary.
pub proof fn sent_frames_are_sealed(
    client: &VynkorClient,
    target: &str,
    extra_flags: u16,
    payload: Vec<u8>,
    plain: Frame,
    flagged: Frame,
    audio: Frame,
    plain_header: [u8; 44],
    flagged_header: [u8; 44],
    audio_header: [u8; 44],
)
    requires
        call_ensures(VynkorClient::send_raw, (client, target, payload), plain),
        call_ensures(
            VynkorClient::send_raw_with_flags,
            (client, target, extra_flags, payload),
            flagged,
        ),
        call_ensures(VynkorClient::send_raw_audio, (client, target, payload), audio),
        call_ensures(serialize_header, (&plain,), plain_header),
        call_ensures(serialize_header, (&flagged,), flagged_header),
        call_ensures(serialize_header, (&audio,), audio_header),
    ensures
        call_requires(VynkorClient::send_raw, (client, target, payload)),
        call_requires(VynkorClient::send_raw_with_flags, (client, target, extra_flags, payload)),
        call_requires(VynkorClient::send_raw_audio, (client, target, payload)),
        call_requires(serialize_header, (&plain,)),
        call_requires(serialize_header, (&flagged,)),
        call_requires(serialize_header, (&audio,)),
        is_sealed(
            plain,
            plain_header@,
            client@.session_key,
            target.spec_bytes(),
            0,
            payload@,
        ),
        is_sealed(
            flagged,
            flagged_header@,
            client@.session_key,
            target.spec_bytes(),
            extra_flags,
            payload@,
        ),
        is_sealed(
            audio,
            audio_header@,
            client@.session_key,
            target.spec_bytes(),
            0x0010,
            payload@,
        ),
{
    outgoing_is_sealed(client@.session_key, target.spec_bytes(), 0, payload@, plain, plain_header);
    outgoing_is_sealed(
        client@.session_key,
        target.spec_bytes(),
        extra_flags,
        payload@,
        flagged,
        flagged_header,
    );
    outgoing_is_sealed(
        client@.session_key,
        target.spec_bytes(),
        0x0010,
        payload@,
        audio,
        audio_header,
    );
}

proof fn outgoing_is_sealed(
    key: Option<Seq<u8>>,
    target: Seq<u8>,
    extra_flags: u16,
    payload: Seq<u8>,
    frame: Frame,
    header: [u8; 44],
)
    requires
        frame@ == client::outgoing(key, target, extra_flags, payload),
        call_ensures(serialize_header, (&frame,), header),
    ensures
        is_sealed(frame, header@, key, target, extra_flags, payload),
{
    assert((0u16 | extra_flags) == extra_flags) by (bit_vector);
    assert(frame@.target == frame.target@ && frame@.payload == frame.payload@);
    assert(frame@.mac is Some <==> frame.mac is Some);
    let plain = framing::plain_frame(target, client::base_flags(key) | extra_flags, payload);
    assert(framing::header_bytes(frame@) == framing::header_bytes(plain));
}

/// A secured connection takes a frame exactly if it is marked as tagged and
/// carries the tag over its header and payload; an unsecured one takes every
/// frame.
pub proof fn only_tagged_frames_are_taken(
    client: &VynkorClient,
    frame: &Frame,
    header: [u8; 44],
    checked: Result<(), VynkorError>,
)
    requires
        call_ensures(VynkorClient::verify_frame_mac, (client, frame), checked),
        call_ensures(serialize_header, (frame,), header),
    ensures
        call_requires(VynkorClient::verify_frame_mac, (client, frame)),
        call_requires(serialize_header, (frame,)),
        client@.session_key is None ==> checked is Ok,
        client@.session_key matches Some(key) ==> (checked is Ok <==> frame.flags & 0x0001 != 0
            && (frame.mac matches Some(tag) && tag@ == frame_mac::hmac_sha256(
            key,
            header@ + frame.payload@,
        ))),
        checked is Err ==> (checked matches Err(VynkorError::Internal(text)) && text@
            == "frame MAC verification failed"@),
{
    assert(frame@.mac is Some <==> frame.mac is Some);
}

/// A frame that is not taken for authentic is refused and changes nothing; one
/// that is no fragment is handed on as it is and changes nothing; a fragment
/// goes to reassembly and changes nothing but the messages in the making.
pub proof fn received_frames_are_handed_on(
    client: &mut VynkorClient,
    frame: Frame,
    now: Span,
    checked: Result<(), VynkorError>,
    result: Result<Option<Frame>, VynkorError>,
)
    requires
        old(client).wf(),
        call_ensures(VynkorClient::verify_frame_mac, (&*old(client), &frame), checked),
        call_ensures(VynkorClient::recv_frame, (client, frame, now), result),
    ensures
        call_requires(VynkorClient::verify_frame_mac, (&*old(client), &frame)),
        call_requires(VynkorClient::recv_frame, (client, frame, now)),
        final(client).wf(),
        final(client)@.transport == old(client)@.transport,
        final(client)@.secret == old(client)@.secret,
        final(client)@.device_id == old(client)@.device_id,
        final(client)@.session_key == old(client)@.session_key,
        final(client)@.next_stream_id == old(client)@.next_stream_id,
        checked is Err ==> final(client)@.streams == old(client)@.streams && (result matches Err(
            VynkorError::Internal(text),
        ) && text@ == "frame MAC verification failed"@),
        checked is Ok && frame.flags & 0x0004 == 0 ==> final(client)@.streams
            == old(client)@.streams && (result matches Ok(Some(whole)) && whole.magic
            == frame.magic && whole.flags == frame.flags && whole.length == frame.length
            && whole.target@ == frame.target@ && whole.crc32 == frame.crc32 && whole.payload@
            == frame.payload@ && whole@.mac == frame@.mac && (whole.mac is Some <==> frame.mac
            is Some)),
        checked is Ok && frame.flags & 0x0004 != 0 ==> (
            final(client)@.streams,
            reassembly::outcome(result),
        ) == reassembly::absorb(old(client)@.streams, frame@, now@),
{
    if checked is Ok && frame.flags & 0x0004 == 0 {
        let whole = result->Ok_0->0;
        assert(whole@ == frame@);
        assert(whole@.target == whole.target@ && whole@.payload == whole.payload@);
        assert(frame@.target == frame.target@ && frame@.payload == frame.payload@);
    }
}

/// Readers of messages get what readers of frames get: the payload of a whole
/// frame, nothing while fragments lack, and the same errors. Raw binary is an
/// error to a reader of messages, and passed over while a request waits.
pub proof fn messages_are_read_from_frames(
    frames: &mut VynkorClient,
    messages: &mut VynkorClient,
    awaiting: &mut VynkorClient,
    frame: Frame,
    now: Span,
    whole: Result<Option<Frame>, VynkorError>,
    read: Result<Option<Vec<u8>>, VynkorError>,
    awaited: Result<Option<Vec<u8>>, VynkorError>,
)
    requires
        old(frames).wf() && old(messages).wf() && old(awaiting).wf(),
        old(frames)@ == old(messages)@ && old(frames)@ == old(awaiting)@,
        call_ensures(VynkorClient::recv_frame, (frames, frame, now), whole),
        call_ensures(VynkorClient::recv, (messages, frame, now), read),
        call_ensures(VynkorClient::recv_awaited, (awaiting, frame, now), awaited),
    ensures
        call_requires(VynkorClient::recv_frame, (frames, frame, now)),
        call_requires(VynkorClient::recv, (messages, frame, now)),
        call_requires(VynkorClient::recv_awaited, (awaiting, frame, now)),
        final(messages)@ == final(frames)@,
        final(awaiting)@ == final(frames)@,
        match whole {
            Ok(Some(complete)) => if complete.flags & 0x0010 != 0 {
                &&& read matches Err(VynkorError::Internal(text)) && text@
                    == "received raw-binary frame; use recv_frame() for audio"@
                &&& awaited matches Ok(None)
            } else {
                &&& read matches Ok(Some(payload)) && payload@ == complete.payload@
                &&& awaited matches Ok(Some(payload)) && payload@ == complete.payload@
            },
            Ok(None) => read matches Ok(None) && awaited matches Ok(None),
            Err(error) => (read matches Err(fault) && fault@ == error@) && (awaited matches Err(
                fault,
            ) && fault@ == error@),
        },
{
    if let Ok(Some(complete)) = whole {
        assert(complete@.flags == complete.flags && complete@.payload == complete.payload@);
    }
}

/// Over a Unix socket nothing but its limits keeps a message from being sent in
/// fragments: at most a mebibyte in all, from one byte to what fits in a frame
/// beside the fragment header for a chunk, and at most 65535 chunks.
pub proof fn only_limits_refuse_fragments(len: nat, chunk_size: nat)
    ensures
        client::fragmentation_fault(TransportKind::Uds, len, chunk_size) is None <==> {
            &&& len <= 1_048_576
            &&& 1 <= chunk_size <= 1_048_566
            &&& len <= 65_535 * chunk_size
        },
{
    if 1 <= chunk_size {
        let n = fragmentation::fragment_count(len, chunk_size);
        count_is_ceiling(len, chunk_size);
        assert(n <= 65_535 <==> len <= 65_535 * chunk_size) by (nonlinear_arith)
            requires
                n >= 1,
                len <= n * chunk_size,
                len > 0 ==> (n - 1) * chunk_size < len,
                len == 0 ==> n == 1,
                chunk_size >= 1,
        ;
    }
}

/// As many fragments as it takes, and no more.
pub proof fn count_is_ceiling(len: nat, chunk_size: nat)
    requires
        1 <= chunk_size,
    ensures
        ({
            let n = fragmentation::fragment_count(len, chunk_size);
            &&& n >= 1
            &&& len <= n * chunk_size
            &&& len > 0 ==> (n - 1) * chunk_size < len
            &&& len == 0 ==> n == 1
        }),
{
    if len > 0 {
        let n = fragmentation::fragment_count(len, chunk_size);
        let all = len + chunk_size - 1;
        vstd::arithmetic::div_mod::lemma_fundamental_div_mod(all, chunk_size as int);
        vstd::arithmetic::div_mod::lemma_mod_bound(all, chunk_size as int);
        assert(len <= n * chunk_size && (n - 1) * chunk_size < len) by (nonlinear_arith)
            requires
                all == len + chunk_size - 1,
                all == chunk_size * n + all % (chunk_size as int),
                0 <= all % (chunk_size as int) < chunk_size,
        ;
        assert(n >= 1) by (nonlinear_arith)
            requires
                0 < len <= n * chunk_size,
                chunk_size >= 1,
        ;
    } else {
        assert(0 <= 1 * chunk_size);
    }
}

/// Sending in fragments: over a Unix socket what is within the limits is sent,
/// and what is not is refused for the first limit that it breaks; over a
/// WebSocket nothing is. What is refused changes nothing, and what is sent
/// nothing but the stream of the next message.
pub proof fn limits_decide_on_fragments(
    client: &mut VynkorClient,
    target: &str,
    payload: &[u8],
    chunk_size: usize,
    sent: Result<Vec<Frame>, VynkorError>,
)
    requires
        old(client).wf(),
        call_ensures(
            VynkorClient::send_fragmented,
            (client, target, payload, chunk_size),
            sent,
        ),
    ensures
        call_requires(VynkorClient::send_fragmented, (client, target, payload, chunk_size)),
        final(client).wf(),
        old(client)@.transport is Ws ==> (sent matches Err(VynkorError::Internal(text)) && text@
            == "fragmented frames are not supported over WebSocket (R5-03)"@),
        old(client)@.transport is Uds ==> {
            let len = payload@.len();
            &&& len > 1_048_576 ==> (sent matches Err(VynkorError::PayloadTooLarge(size)) && size
                == len)
            &&& len <= 1_048_576 && (chunk_size == 0 || chunk_size > 1_048_566) ==> (
            sent matches Err(VynkorError::Internal(text)) && text@
                == "invalid fragment chunk_size: "@ + text::decimal(chunk_size as nat))
            &&& len <= 1_048_576 && 1 <= chunk_size <= 1_048_566 && len > 65_535 * chunk_size
                ==> (sent matches Err(VynkorError::Internal(text)) && exists|n: nat|
                text@ == "payload needs "@ + #[trigger] text::decimal(n)
                    + " fragments; max is 65535"@ && len <= n * chunk_size && (n - 1) * chunk_size
                    < len)
            &&& len <= 1_048_576 && 1 <= chunk_size <= 1_048_566 && len <= 65_535 * chunk_size
                ==> sent is Ok
        },
        sent is Err ==> final(client)@ == old(client)@,
        sent is Ok ==> {
            &&& final(client)@.next_stream_id == if old(client)@.next_stream_id == 0xFFFF_FFFF {
                1
            } else {
                old(client)@.next_stream_id + 1
            }
            &&& final(client)@.transport == old(client)@.transport
            &&& final(client)@.secret == old(client)@.secret
            &&& final(client)@.device_id == old(client)@.device_id
            &&& final(client)@.session_key == old(client)@.session_key
            &&& final(client)@.streams == old(client)@.streams
        },
{
    let len = payload@.len();
    if old(client)@.transport is Uds {
        only_limits_refuse_fragments(len, chunk_size as nat);
        if len <= 1_048_576 && 1 <= chunk_size <= 1_048_566 {
            count_is_ceiling(len, chunk_size as nat);
            let n = fragmentation::fragment_count(len, chunk_size as nat);
            assert(text::decimal(n).len() >= 0);
        }
    }
}

/// What is sent in fragments is the message, cut every `chunk_size` bytes, in
/// as many frames as it takes and no more. Each frame is marked as a fragment,
/// sealed like any other, and says its position, the number of frames, and the
/// stream.
pub proof fn messages_are_cut_as_asked(
    client: &mut VynkorClient,
    target: &str,
    payload: &[u8],
    chunk_size: usize,
    sent: Result<Vec<Frame>, VynkorError>,
)
    requires
        old(client).wf(),
        call_ensures(
            VynkorClient::send_fragmented,
            (client, target, payload, chunk_size),
            sent,
        ),
    ensures
        call_requires(VynkorClient::send_fragmented, (client, target, payload, chunk_size)),
        sent matches Ok(frames) ==> {
            let n = frames@.len();
            &&& 1 <= n <= 65_535
            &&& payload@.len() <= n * chunk_size
            &&& payload@.len() > 0 ==> (n - 1) * chunk_size < payload@.len()
            &&& payload@.len() == 0 ==> n == 1
        },
        sent matches Ok(frames) ==> forall|i: int|
            0 <= i < frames@.len() ==> is_cut_of(
                (#[trigger] frames@[i]).payload@,
                payload@,
                chunk_size as int,
                frames@.len() as int,
                old(client)@.next_stream_id,
                i,
            ),
        sent matches Ok(frames) ==> forall|i: int, header: [u8; 44]|
            0 <= i < frames@.len() && #[trigger] call_ensures(
                serialize_header,
                (&frames@[i],),
                header,
            ) ==> is_sealed(
                frames@[i],
                header@,
                old(client)@.session_key,
                target.spec_bytes(),
                0x0004,
                frames@[i].payload@,
            ),
{
    if let Ok(frames) = sent {
        let key = old(client)@.session_key;
        let stream_id = old(client)@.next_stream_id;
        assert(client::fragmentation_fault(
            old(client)@.transport,
            payload@.len(),
            chunk_size as nat,
        ) is None);
        count_is_ceiling(payload@.len(), chunk_size as nat);
        frames_are_cuts(
            frames@,
            key,
            target.spec_bytes(),
            payload@,
            chunk_size as nat,
            stream_id,
        );
        assert forall|i: int, header: [u8; 44]|
            0 <= i < frames@.len() && #[trigger] call_ensures(
                serialize_header,
                (&frames@[i],),
                header,
            ) implies is_sealed(
            frames@[i],
            header@,
            key,
            target.spec_bytes(),
            0x0004,
            frames@[i].payload@,
        ) by {
            outgoing_is_sealed(
                key,
                target.spec_bytes(),
                0x0004,
                frames@[i].payload@,
                frames@[i],
                header,
            );
        }
    }
}

proof fn frames_are_cuts(
    frames: Seq<Frame>,
    key: Option<Seq<u8>>,
    target: Seq<u8>,
    payload: Seq<u8>,
    chunk_size: nat,
    stream_id: u32,
)
    requires
        1 <= chunk_size,
        fragmentation::fragment_count(payload.len(), chunk_size) <= 65_535,
        client::frame_views(frames) == client::fragment_frames(
            key,
            target,
            payload,
            chunk_size,
            stream_id,
        ),
    ensures
        frames.len() == fragmentation::fragment_count(payload.len(), chunk_size),
        forall|i: int|
            0 <= i < frames.len() ==> is_cut_of(
                (#[trigger] frames[i]).payload@,
                payload,
                chunk_size as int,
                frames.len() as int,
                stream_id,
                i,
            ) && frames[i]@ == client::outgoing(key, target, 0x0004, frames[i].payload@),
{
    let views = client::frame_views(frames);
    let expected = client::fragment_frames(key, target, payload, chunk_size, stream_id);
    assert(views.len() == frames.len());
    assert(expected.len() == fragmentation::fragment_count(payload.len(), chunk_size));
    assert forall|i: int| 0 <= i < frames.len() implies is_cut_of(
        (#[trigger] frames[i]).payload@,
        payload,
        chunk_size as int,
        frames.len() as int,
        stream_id,
        i,
    ) && frames[i]@ == client::outgoing(key, target, 0x0004, frames[i].payload@) by {
        let fragment = fragmentation::fragment_at(payload, chunk_size, stream_id, i as nat);
        assert(views[i] == frames[i]@);
        assert(expected[i] == client::outgoing(key, target, 0x0004, fragment));
        assert(frames[i]@.payload == frames[i].payload@);
        fragments_are_cuts(payload, chunk_size, stream_id, i as nat);
    }
}

/// The fragment at position `i` of `n`: ten bytes that say so, and the bytes
/// of the message from `i` chunks on, one chunk or what is left.
pub open spec fn is_cut_of(
    fragment: Seq<u8>,
    payload: Seq<u8>,
    chunk_size: int,
    n: int,
    stream_id: u32,
    i: int,
) -> bool {
    let start = i * chunk_size;
    let end = if start + chunk_size < payload.len() {
        start + chunk_size
    } else {
        payload.len() as int
    };
    &&& fragment.len() == 10 + end - start
    &&& fragment[0] * 256 + fragment[1] == stream_id % 65_536
    &&& fragment[2] * 256 + fragment[3] == i
    &&& fragment[4] * 256 + fragment[5] == n
    &&& fragment[6] * 16_777_216 + fragment[7] * 65_536 + fragment[8] * 256 + fragment[9]
        == stream_id
    &&& fragment.skip(10) == payload.subrange(start, end)
}

proof fn fragments_are_cuts(payload: Seq<u8>, chunk_size: nat, stream_id: u32, i: nat)
    requires
        1 <= chunk_size,
        fragmentation::fragment_count(payload.len(), chunk_size) <= 65_535,
        i < fragmentation::fragment_count(payload.len(), chunk_size),
    ensures
        is_cut_of(
            fragmentation::fragment_at(payload, chunk_size, stream_id, i),
            payload,
            chunk_size as int,
            fragmentation::fragment_count(payload.len(), chunk_size) as int,
            stream_id,
            i as int,
        ),
{
    let len = payload.len();
    let n = fragmentation::fragment_count(len, chunk_size);
    let header = fragmentation::header_at(len, chunk_size, stream_id, i);
    let chunk = fragmentation::chunk_at(payload, chunk_size, i);
    let fragment = fragmentation::fragment_at(payload, chunk_size, stream_id, i);
    count_is_ceiling(len, chunk_size);
    assert(i * chunk_size <= (n - 1) * chunk_size) by (nonlinear_arith)
        requires
            i <= n - 1,
    ;
    assert((i + 1) * chunk_size == i * chunk_size + chunk_size) by (nonlinear_arith);
    if len == 0 {
        assert(0 * chunk_size == 0) by (nonlinear_arith);
    }
    framing::frag_header_round_trip(header, chunk);
    assert((stream_id & 0xFFFF) == stream_id % 65_536) by (bit_vector);
    assert(fragment.skip(10) =~= chunk);
    assert(framing::frag_header_of(fragment) == Some(header));
}

/// The registration says what the caller says: the plugin, its version, its
/// manifest and its token, for local plugins and for paired devices alike;
/// the id of the device is that of the client, or empty. The shorter forms
/// stand for version 1.0.0 and for no token.
pub proof fn registrations_say_what_the_caller_says(
    client: &VynkorClient,
    plugin_id: &str,
    version: &str,
    manifest: PluginManifest,
    jwt_token: &str,
    full: Outgoing,
    with_token: Outgoing,
    plain: Outgoing,
)
    requires
        call_ensures(
            VynkorClient::register_full,
            (client, plugin_id, version, manifest, jwt_token),
            full,
        ),
        call_ensures(
            VynkorClient::register_with_token,
            (client, plugin_id, manifest, jwt_token),
            with_token,
        ),
        call_ensures(VynkorClient::register, (client, plugin_id, manifest), plain),
    ensures
        call_requires(
            VynkorClient::register_full,
            (client, plugin_id, version, manifest, jwt_token),
        ),
        call_requires(VynkorClient::register_with_token, (client, plugin_id, manifest, jwt_token)),
        call_requires(VynkorClient::register, (client, plugin_id, manifest)),
        forall|message: Outgoing|
            message == full || message == with_token || message == plain ==> {
                &&& (#[trigger] message.target)@ == "kernel"@
                &&& message.envelope.message_id@.len() == 0
                &&& message.envelope.timestamp == 0
                &&& message.envelope.sender_id@.len() == 0
                &&& message.envelope.payload matches Some(Payload::PluginRegister(register))
                &&& register.plugin_id@ == plugin_id@
                &&& register.manifest == Some(manifest)
                &&& client@.device_id matches Some(id) ==> register.device_id@ == id
                &&& client@.device_id is None ==> register.device_id@.len() == 0
                &&& register.description@.len() == 0
                &&& register.os == 0
                &&& register.arch@.len() == 0
                &&& register.os_version@.len() == 0
                &&& register.capabilities@.len() == 0
                &&& register.protocol_version@.len() == 0
                &&& register.user_id@.len() == 0
            },
        full.envelope.payload matches Some(Payload::PluginRegister(register)) && register.version@
            == version@ && register.jwt_token@ == jwt_token@,
        with_token.envelope.payload matches Some(Payload::PluginRegister(register))
            && register.version@ == "1.0.0"@ && register.jwt_token@ == jwt_token@,
        plain.envelope.payload matches Some(Payload::PluginRegister(register))
            && register.version@ == "1.0.0"@ && register.jwt_token@.len() == 0,
{
    reveal_strlit("");
}

/// A registration is over with its acknowledgement, which is handed on as it
/// is, or fails in the words of the kernel. Only an acknowledgement with a
/// nonce changes the client, and only if it has a secret: from then on its key
/// is the one derived from secret, nonce and plugin, whether it had one before
/// or not.
pub proof fn acknowledgements_secure_the_connection(
    client: &mut VynkorClient,
    plugin_id: &str,
    reply: Envelope,
    result: Result<PluginRegisterAck, VynkorError>,
)
    requires
        old(client).wf(),
        call_ensures(VynkorClient::registered, (client, plugin_id, reply), result),
    ensures
        call_requires(VynkorClient::registered, (client, plugin_id, reply)),
        final(client).wf(),
        final(client)@.transport == old(client)@.transport,
        final(client)@.secret == old(client)@.secret,
        final(client)@.device_id == old(client)@.device_id,
        final(client)@.streams == old(client)@.streams,
        final(client)@.next_stream_id == old(client)@.next_stream_id,
        match reply.payload {
            Some(Payload::PluginRegisterAck(ack)) => {
                &&& result == Ok::<PluginRegisterAck, VynkorError>(ack)
                &&& old(client)@.secret is Some && ack.session_nonce@.len() > 0
                    ==> final(client)@.session_key == Some(
                    frame_mac::hmac_sha256(
                        frame_mac::hmac_sha256(ack.session_nonce@, old(client)@.secret->0),
                        vstd::utf8::encode_utf8("vynkor-frame-mac-v1|"@)
                            + vstd::utf8::encode_utf8(plugin_id@) + seq![1u8],
                    ),
                )
                &&& old(client)@.secret is None || ack.session_nonce@.len() == 0
                    ==> final(client)@.session_key == old(client)@.session_key
            },
            Some(Payload::Error(error)) => {
                &&& result matches Err(VynkorError::Internal(text)) && text@
                    == "registration rejected: "@ + error.message@ + " ("@ + error.details@ + ")"@
                &&& final(client)@.session_key == old(client)@.session_key
            },
            _ => {
                &&& result matches Err(VynkorError::Internal(text)) && text@
                    == "expected PluginRegisterAck"@
                &&& final(client)@.session_key == old(client)@.session_key
            },
        },
{
}

/// The token stands in the offer behind the marker, unchanged, and without one
/// the marker stands alone. The offer is made exactly if all its bytes may
/// stand in a header.
pub proof fn tokens_are_offered(
    jwt_token: &str,
    offer: String,
    fits: bool,
    checked: Result<String, VynkorError>,
)
    requires
        call_ensures(ws_protocol, (jwt_token,), offer),
        call_ensures(token_fits_header, (jwt_token,), fits),
        call_ensures(checked_ws_protocol, (jwt_token,), checked),
    ensures
        call_requires(ws_protocol, (jwt_token,)),
        call_requires(token_fits_header, (jwt_token,)),
        call_requires(checked_ws_protocol, (jwt_token,)),
        jwt_token@.len() == 0 ==> offer@ == "vynkor"@,
        jwt_token@.len() > 0 ==> offer@ == "vynkor, "@ + jwt_token@,
        fits <==> forall|i: int|
            0 <= i < vstd::utf8::encode_utf8(offer@).len() ==> {
                let byte = #[trigger] vstd::utf8::encode_utf8(offer@)[i];
                byte == 9 || 32 <= byte <= 126 || 128 <= byte
            },
        fits ==> (checked matches Ok(made) && made@ == offer@),
        !fits ==> (checked matches Err(VynkorError::Internal(text)) && text@
            == "invalid jwt for ws header: failed to parse header value"@),
{
}

} // verus!
