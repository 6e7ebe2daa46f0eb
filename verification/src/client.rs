//! One end of a connection to the kernel: what goes into the frames that are
//! sent, and what is made of the frames that arrive.

use crate::error::{ErrorView, VynkorError};
use crate::fragmentation;
use crate::frame_mac::{self, compute_tag, derive_session_key, verify_tag};
use crate::framing::{
    self, build_frame, fragment_payload, serialize_header, FragmentHeader, Frame, FrameView,
    FLAG_FRAGMENTED, FLAG_MAC_PRESENT, FLAG_RAW_BINARY, FRAG_HEADER_SIZE, MAX_PAYLOAD_SIZE,
};
use crate::proto::{Envelope, Outgoing, Payload, PluginManifest, PluginRegister, PluginRegisterAck};
use crate::reassembly::{self, Absorbed, Reassembly, StreamView};
use crate::span::Span;
use crate::text::{self, push_decimal};
use vstd::prelude::*;
use vstd::slice::slice_subrange;
use vstd::string::*;

verus! {

/// What carries the frames of a connection.
#[derive(Clone, Copy, Debug)]
pub enum TransportKind {
    /// A Unix domain socket.
    Uds,
    /// The kernel's WebSocket gateway, which takes neither compressed nor
    /// fragmented frames.
    Ws,
}

/// The state of a client on one connection.
pub struct VynkorClient {
    transport: TransportKind,
    /// What session keys are derived from: the shared secret of the host, or
    /// a paired device's own. Without one, frames carry no tag.
    secret: Option<Vec<u8>>,
    /// The paired device that the connection belongs to.
    device_id: Option<String>,
    /// The key that frames are tagged with, once a registration has set it.
    session_key: Option<[u8; 32]>,
    /// The messages that are arriving in fragments.
    reassembly: Reassembly,
    /// The stream id for the next message that is sent in fragments.
    next_stream_id: u32,
}

/// The model of a client.
#[verifier::ext_equal]
pub struct ClientView {
    pub transport: TransportKind,
    pub secret: Option<Seq<u8>>,
    pub device_id: Option<Seq<char>>,
    pub session_key: Option<Seq<u8>>,
    pub streams: Map<u32, StreamView>,
    pub next_stream_id: u32,
}

impl View for VynkorClient {
    type V = ClientView;

    closed spec fn view(&self) -> ClientView {
        ClientView {
            transport: self.transport,
            secret: match self.secret {
                Some(secret) => Some(secret@),
                None => None,
            },
            device_id: match self.device_id {
                Some(id) => Some(id@),
                None => None,
            },
            session_key: match self.session_key {
                Some(key) => Some(key@),
                None => None,
            },
            streams: self.reassembly@,
            next_stream_id: self.next_stream_id,
        }
    }
}

/// A client that has not registered yet.
pub open spec fn fresh_client(transport: TransportKind, secret: Option<Seq<u8>>) -> ClientView {
    ClientView {
        transport,
        secret,
        device_id: None,
        session_key: None,
        streams: Map::empty(),
        next_stream_id: 1,
    }
}

/// The flags that a frame gets for being tagged or not.
pub open spec fn base_flags(key: Option<Seq<u8>>) -> u16 {
    if key is Some {
        FLAG_MAC_PRESENT
    } else {
        0
    }
}

/// The frame that carries a payload: tagged under the key, if there is one.
pub open spec fn outgoing(
    key: Option<Seq<u8>>,
    target: Seq<u8>,
    extra_flags: u16,
    payload: Seq<u8>,
) -> FrameView {
    let plain = framing::plain_frame(target, base_flags(key) | extra_flags, payload);
    match key {
        None => plain,
        Some(key) => FrameView {
            mac: Some(frame_mac::hmac_sha256(key, framing::header_bytes(plain) + payload)),
            ..plain
        },
    }
}

/// Whether a frame is what a holder of the key sent: without a key every
/// frame is, with one it must carry the tag over its header and payload.
pub open spec fn authentic(key: Option<Seq<u8>>, frame: FrameView) -> bool {
    match key {
        None => true,
        Some(key) => {
            &&& frame.flags & FLAG_MAC_PRESENT != 0
            &&& frame.mac == Some(
                frame_mac::hmac_sha256(key, framing::header_bytes(frame) + frame.payload),
            )
        },
    }
}

/// Takes in one frame from the wire: the messages in the making afterwards,
/// and what it led to.
pub open spec fn received(
    key: Option<Seq<u8>>,
    streams: Map<u32, StreamView>,
    frame: FrameView,
    now: nat,
) -> (Map<u32, StreamView>, Absorbed) {
    if !authentic(key, frame) {
        (streams, Absorbed::Failed(ErrorView::Internal("frame MAC verification failed"@)))
    } else if frame.flags & FLAG_FRAGMENTED != 0 {
        reassembly::absorb(streams, frame, now)
    } else {
        (streams, Absorbed::Complete(frame))
    }
}

/// The stream id after `id`.
pub open spec fn following_stream(id: u32) -> u32 {
    if id == u32::MAX {
        1
    } else {
        (id + 1) as u32
    }
}

/// Why a message cannot be sent in fragments of this size, if so.
pub open spec fn fragmentation_fault(
    transport: TransportKind,
    len: nat,
    chunk_size: nat,
) -> Option<ErrorView> {
    if transport is Ws {
        Some(
            ErrorView::Internal("fragmented frames are not supported over WebSocket (R5-03)"@),
        )
    } else if len > MAX_PAYLOAD_SIZE {
        Some(ErrorView::PayloadTooLarge(len))
    } else if chunk_size == 0 || chunk_size + FRAG_HEADER_SIZE > MAX_PAYLOAD_SIZE {
        Some(
            ErrorView::Internal("invalid fragment chunk_size: "@ + text::decimal(chunk_size)),
        )
    } else if fragmentation::fragment_count(len, chunk_size) > u16::MAX {
        Some(
            ErrorView::Internal(
                "payload needs "@ + text::decimal(fragmentation::fragment_count(len, chunk_size))
                    + " fragments; max is 65535"@,
            ),
        )
    } else {
        None
    }
}

/// The offer of protocols in a WebSocket handshake: the marker of the
/// gateway, and the token behind it if there is one.
pub open spec fn protocol_offer(jwt_token: Seq<char>) -> Seq<char> {
    if jwt_token.len() == 0 {
        "vynkor"@
    } else {
        "vynkor, "@ + jwt_token
    }
}

/// Writes out the offer of protocols for a WebSocket handshake.
pub fn ws_protocol(jwt_token: &str) -> (offer: String)
    ensures
        offer@ == protocol_offer(jwt_token@),
{
    if jwt_token.is_empty() {
        "vynkor".to_string()
    } else {
        let mut offer = String::from_str("vynkor, ");
        offer.append(jwt_token);
        offer
    }
}

/// Whether a text can be the value of an HTTP header: its bytes are tabs, or
/// at least 32 and not 127.
pub open spec fn fits_header(text: Seq<char>) -> bool {
    forall|i: int|
        0 <= i < vstd::utf8::encode_utf8(text).len() ==> {
            let byte = #[trigger] vstd::utf8::encode_utf8(text)[i];
            byte == 9 || (byte >= 32 && byte != 127)
        }
}

/// Whether the offer with a token can be sent in a handshake.
pub fn token_fits_header(jwt_token: &str) -> (fits: bool)
    ensures
        fits == fits_header(protocol_offer(jwt_token@)),
{
    let offer: String = ws_protocol(jwt_token);
    let bytes: &[u8] = offer.as_str().as_bytes();
    let mut i: usize = 0;
    while i < bytes.len()
        invariant
            i <= bytes@.len(),
            bytes@ == vstd::utf8::encode_utf8(protocol_offer(jwt_token@)),
            forall|j: int|
                0 <= j < i ==> {
                    let byte = #[trigger] bytes@[j];
                    byte == 9 || (byte >= 32 && byte != 127)
                },
        decreases bytes@.len() - i,
    {
        let byte: u8 = bytes[i];
        if byte != 9 && (byte < 32 || byte == 127) {
            assert(bytes@[i as int] == byte);
            return false;
        }
        i = i + 1;
    }
    true
}

/// The offer of protocols for a handshake, unless the token cannot stand in
/// a header.
pub fn checked_ws_protocol(jwt_token: &str) -> (offer: Result<String, VynkorError>)
    ensures
        fits_header(protocol_offer(jwt_token@)) ==> (offer matches Ok(offer) && offer@
            == protocol_offer(jwt_token@)),
        !fits_header(protocol_offer(jwt_token@)) ==> (offer matches Err(error) && error@
            == ErrorView::Internal(
            "invalid jwt for ws header: failed to parse header value"@,
        )),
{
    if token_fits_header(jwt_token) {
        Ok(ws_protocol(jwt_token))
    } else {
        Err(
            VynkorError::Internal(
                "invalid jwt for ws header: failed to parse header value".to_string(),
            ),
        )
    }
}

impl VynkorClient {
    /// The messages in the making are in order, and stream id 0 is not used.
    pub closed spec fn wf(self) -> bool {
        &&& self.reassembly.wf()
        &&& self.next_stream_id >= 1
    }

    /// A client on a new connection. With a secret, frames are tagged once
    /// the client has registered.
    pub fn new(transport: TransportKind, secret: Option<Vec<u8>>) -> (client: VynkorClient)
        ensures
            client.wf(),
            client@ == fresh_client(
                transport,
                match secret {
                    Some(secret) => Some(secret@),
                    None => None,
                },
            ),
    {
        VynkorClient {
            transport,
            secret,
            device_id: None,
            session_key: None,
            reassembly: Reassembly::new(),
            next_stream_id: 1,
        }
    }

    /// Marks the connection as one of a paired device, whose own secret the
    /// client must then have been given.
    pub fn with_device_id(self, device_id: String) -> (client: VynkorClient)
        ensures
            self.wf() ==> client.wf(),
            client@ == (ClientView { device_id: Some(device_id@), ..self@ }),
    {
        let mut client = self;
        client.device_id = Some(device_id);
        client
    }

    /// Whether frames are tagged and tags are asked for.
    pub fn is_secured(&self) -> (secured: bool)
        ensures
            secured == (self@.session_key is Some),
    {
        self.session_key.is_some()
    }

    /// The frame that carries a payload.
    pub fn send_raw(&self, target: &str, payload: Vec<u8>) -> (frame: Frame)
        ensures
            frame@ == outgoing(self@.session_key, target.spec_bytes(), 0, payload@),
    {
        self.send_raw_with_flags(target, 0, payload)
    }

    /// The frame that carries a payload, with these flags beside those that
    /// the client sets itself.
    pub fn send_raw_with_flags(&self, target: &str, extra_flags: u16, payload: Vec<u8>) -> (frame:
        Frame)
        ensures
            frame@ == outgoing(self@.session_key, target.spec_bytes(), extra_flags, payload@),
    {
        let base: u16 = if self.session_key.is_some() {
            FLAG_MAC_PRESENT
        } else {
            0
        };
        let mut frame = build_frame(target, base | extra_flags, payload);
        match &self.session_key {
            Some(key) => {
                let header = serialize_header(&frame);
                let tag = compute_tag(key, &header, &frame.payload);
                frame.mac = Some(tag);
            },
            None => {},
        }
        frame
    }

    /// The frame that carries raw audio.
    pub fn send_raw_audio(&self, target: &str, data: Vec<u8>) -> (frame: Frame)
        ensures
            frame@ == outgoing(
                self@.session_key,
                target.spec_bytes(),
                FLAG_RAW_BINARY,
                data@,
            ),
    {
        self.send_raw_with_flags(target, FLAG_RAW_BINARY, data)
    }
}

/// The frames that carry the fragments of a message.
pub open spec fn fragment_frames(
    key: Option<Seq<u8>>,
    target: Seq<u8>,
    payload: Seq<u8>,
    chunk_size: nat,
    stream_id: u32,
) -> Seq<FrameView> {
    Seq::new(
        fragmentation::fragment_count(payload.len(), chunk_size),
        |i: int|
            outgoing(
                key,
                target,
                FLAG_FRAGMENTED,
                fragmentation::fragment_at(payload, chunk_size, stream_id, i as nat),
            ),
    )
}

/// The models of a run of frames.
pub open spec fn frame_views(frames: Seq<Frame>) -> Seq<FrameView> {
    Seq::new(frames.len(), |i: int| frames[i]@)
}

fn numbered(before: &str, n: usize, after: &str) -> (text: String)
    ensures
        text@ == before@ + text::decimal(n as nat) + after@,
{
    let mut text = String::from_str(before);
    push_decimal(&mut text, n as u64);
    text.append(after);
    text
}

impl VynkorClient {
    /// The frames that carry a message in fragments of at most `chunk_size`
    /// bytes, on a stream of their own. The kernel puts them together to one
    /// message for `target`. An empty message is one empty fragment.
    pub fn send_fragmented(&mut self, target: &str, payload: &[u8], chunk_size: usize) -> (frames:
        Result<Vec<Frame>, VynkorError>)
        requires
            old(self).wf(),
        ensures
            final(self).wf(),
            match fragmentation_fault(
                old(self)@.transport,
                payload@.len(),
                chunk_size as nat,
            ) {
                Some(fault) => {
                    &&& frames matches Err(error) && error@ == fault
                    &&& final(self)@ == old(self)@
                },
                None => {
                    &&& frames matches Ok(frames) && frame_views(frames@) == fragment_frames(
                        old(self)@.session_key,
                        target.spec_bytes(),
                        payload@,
                        chunk_size as nat,
                        old(self)@.next_stream_id,
                    )
                    &&& final(self)@ == (ClientView {
                        next_stream_id: following_stream(old(self)@.next_stream_id),
                        ..old(self)@
                    })
                },
            },
    {
        match self.transport {
            TransportKind::Ws => {
                return Err(
                    VynkorError::Internal(
                        "fragmented frames are not supported over WebSocket (R5-03)".to_string(),
                    ),
                );
            },
            TransportKind::Uds => {},
        }
        let len: usize = payload.len();
        if len > MAX_PAYLOAD_SIZE {
            return Err(VynkorError::PayloadTooLarge(len));
        }
        if chunk_size == 0 || chunk_size > MAX_PAYLOAD_SIZE - FRAG_HEADER_SIZE {
            let mut message = String::from_str("invalid fragment chunk_size: ");
            push_decimal(&mut message, chunk_size as u64);
            return Err(VynkorError::Internal(message));
        }
        let count: usize = if len == 0 {
            1
        } else {
            (len + chunk_size - 1) / chunk_size
        };
        if count > 65535 {
            return Err(
                VynkorError::Internal(
                    numbered("payload needs ", count, " fragments; max is 65535"),
                ),
            );
        }
        let total: u16 = count as u16;
        let stream_id: u32 = self.next_stream_id;
        self.next_stream_id = if stream_id == u32::MAX {
            1
        } else {
            stream_id + 1
        };
        let mut frames: Vec<Frame> = Vec::new();
        let mut start: usize = 0;
        let mut i: usize = 0;
        while i < count
            invariant
                i <= count <= 65535,
                count == fragmentation::fragment_count(len as nat, chunk_size as nat),
                total == count,
                len == payload@.len(),
                0 < chunk_size <= MAX_PAYLOAD_SIZE,
                len <= MAX_PAYLOAD_SIZE,
                start == fragmentation::cut(len as nat, chunk_size as nat, i as nat),
                self.session_key == old(self).session_key,
                frames@.len() == i,
                forall|j: int|
                    0 <= j < i ==> (#[trigger] frames@[j])@ == outgoing(
                        self@.session_key,
                        target.spec_bytes(),
                        FLAG_FRAGMENTED,
                        fragmentation::fragment_at(
                            payload@,
                            chunk_size as nat,
                            stream_id,
                            j as nat,
                        ),
                    ),
            decreases count - i,
        {
            proof {
                fragmentation::cut_steps(len as nat, chunk_size as nat, i as nat);
            }
            let end: usize = if len - start > chunk_size {
                start + chunk_size
            } else {
                len
            };
            let header = FragmentHeader {
                fragment_id: (stream_id & 0xFFFF) as u16,
                sequence: i as u16,
                total,
                stream_id,
            };
            let fragment: Vec<u8> = fragment_payload(header, slice_subrange(payload, start, end));
            frames.push(self.send_raw_with_flags(target, FLAG_FRAGMENTED, fragment));
            start = end;
            i = i + 1;
        }
        proof {
            assert(frame_views(frames@) =~= fragment_frames(
                self@.session_key,
                target.spec_bytes(),
                payload@,
                chunk_size as nat,
                stream_id,
            ));
        }
        Ok(frames)
    }
}

/// What a frame leads to for a reader of messages: the payload of the
/// message, unless it is raw binary.
pub open spec fn message_payload(taken: Absorbed) -> Result<Option<Seq<u8>>, ErrorView> {
    match taken {
        Absorbed::Waiting => Ok(None),
        Absorbed::Failed(error) => Err(error),
        Absorbed::Complete(frame) => if frame.flags & FLAG_RAW_BINARY != 0 {
            Err(
                ErrorView::Internal("received raw-binary frame; use recv_frame() for audio"@),
            )
        } else {
            Ok(Some(frame.payload))
        },
    }
}

impl VynkorClient {
    /// Checks the tag of a frame, if the connection is secured.
    pub fn verify_frame_mac(&self, frame: &Frame) -> (checked: Result<(), VynkorError>)
        ensures
            authentic(self@.session_key, frame@) ==> checked is Ok,
            !authentic(self@.session_key, frame@) ==> (checked matches Err(error) && error@
                == ErrorView::Internal("frame MAC verification failed"@)),
    {
        match &self.session_key {
            Some(key) => {
                let valid: bool = frame.flags & FLAG_MAC_PRESENT != 0 && match &frame.mac {
                    Some(tag) => {
                        let header = serialize_header(frame);
                        verify_tag(key, &header, &frame.payload, tag)
                    },
                    None => false,
                };
                if valid {
                    Ok(())
                } else {
                    Err(VynkorError::Internal("frame MAC verification failed".to_string()))
                }
            },
            None => Ok(()),
        }
    }

    /// Takes in one frame from the wire at time `now`. Returns the frame
    /// itself or the message that it completes; `None` while a message lacks
    /// fragments.
    pub fn recv_frame(&mut self, frame: Frame, now: Span) -> (result: Result<
        Option<Frame>,
        VynkorError,
    >)
        requires
            old(self).wf(),
        ensures
            final(self).wf(),
            ({
                let (streams, taken) = received(
                    old(self)@.session_key,
                    old(self)@.streams,
                    frame@,
                    now@,
                );
                &&& reassembly::outcome(result) == taken
                &&& final(self)@ == (ClientView { streams, ..old(self)@ })
            }),
    {
        match self.verify_frame_mac(&frame) {
            Ok(()) => {},
            Err(error) => return Err(error),
        }
        if frame.flags & FLAG_FRAGMENTED != 0 {
            return self.reassembly.absorb_fragment(frame, now);
        }
        Ok(Some(frame))
    }

    /// Takes in one frame from the wire at time `now`, for a reader of
    /// encoded messages: as [`VynkorClient::recv_frame`], but raw binary is
    /// an error.
    pub fn recv(&mut self, frame: Frame, now: Span) -> (result: Result<
        Option<Vec<u8>>,
        VynkorError,
    >)
        requires
            old(self).wf(),
        ensures
            final(self).wf(),
            ({
                let (streams, taken) = received(
                    old(self)@.session_key,
                    old(self)@.streams,
                    frame@,
                    now@,
                );
                &&& final(self)@ == (ClientView { streams, ..old(self)@ })
                &&& match message_payload(taken) {
                    Ok(None) => result matches Ok(None),
                    Ok(Some(payload)) => result matches Ok(Some(bytes)) && bytes@ == payload,
                    Err(fault) => result matches Err(error) && error@ == fault,
                }
            }),
    {
        match self.recv_frame(frame, now) {
            Err(error) => Err(error),
            Ok(None) => Ok(None),
            Ok(Some(complete)) => if complete.flags & FLAG_RAW_BINARY != 0 {
                Err(
                    VynkorError::Internal(
                        "received raw-binary frame; use recv_frame() for audio".to_string(),
                    ),
                )
            } else {
                Ok(Some(complete.payload))
            },
        }
    }
}

/// What a frame brings to a request that waits for its answer: the payload of
/// a message, or nothing. Raw binary brings nothing, and is passed over.
pub open spec fn awaited_payload(taken: Absorbed) -> Result<Option<Seq<u8>>, ErrorView> {
    match taken {
        Absorbed::Waiting => Ok(None),
        Absorbed::Failed(error) => Err(error),
        Absorbed::Complete(frame) => if frame.flags & FLAG_RAW_BINARY != 0 {
            Ok(None)
        } else {
            Ok(Some(frame.payload))
        },
    }
}

impl VynkorClient {
    /// Takes in one frame from the wire at time `now`, while a request waits
    /// for its answer: as [`VynkorClient::recv`], but raw binary is passed
    /// over.
    pub fn recv_awaited(&mut self, frame: Frame, now: Span) -> (result: Result<
        Option<Vec<u8>>,
        VynkorError,
    >)
        requires
            old(self).wf(),
        ensures
            final(self).wf(),
            ({
                let (streams, taken) = received(
                    old(self)@.session_key,
                    old(self)@.streams,
                    frame@,
                    now@,
                );
                &&& final(self)@ == (ClientView { streams, ..old(self)@ })
                &&& match awaited_payload(taken) {
                    Ok(None) => result matches Ok(None),
                    Ok(Some(payload)) => result matches Ok(Some(bytes)) && bytes@ == payload,
                    Err(fault) => result matches Err(error) && error@ == fault,
                }
            }),
    {
        match self.recv_frame(frame, now) {
            Err(error) => Err(error),
            Ok(None) => Ok(None),
            Ok(Some(complete)) => if complete.flags & FLAG_RAW_BINARY != 0 {
                Ok(None)
            } else {
                Ok(Some(complete.payload))
            },
        }
    }
}

/// The message registers a plugin.
pub open spec fn registers(
    message: Outgoing,
    device_id: Option<Seq<char>>,
    plugin_id: Seq<char>,
    version: Seq<char>,
    manifest: PluginManifest,
    jwt_token: Seq<char>,
) -> bool {
    &&& message.is_for_kernel()
    &&& message.envelope.payload matches Some(Payload::PluginRegister(register)) && {
        &&& register.plugin_id@ == plugin_id
        &&& register.version@ == version
        &&& register.description@ == Seq::<char>::empty()
        &&& register.manifest == Some(manifest)
        &&& register.jwt_token@ == jwt_token
        &&& register.device_id@ == match device_id {
            Some(id) => id,
            None => Seq::empty(),
        }
        &&& register.os == 0
        &&& register.arch@ == Seq::<char>::empty()
        &&& register.os_version@ == Seq::<char>::empty()
        &&& register.capabilities@ == Seq::<String>::empty()
        &&& register.protocol_version@ == Seq::<char>::empty()
        &&& register.user_id@ == Seq::<char>::empty()
    }
}

/// What the answer to a registration comes to.
pub open spec fn registration_answer(reply: Envelope) -> Result<PluginRegisterAck, ErrorView> {
    match reply.payload {
        Some(Payload::PluginRegisterAck(ack)) => Ok(ack),
        Some(Payload::Error(error)) => Err(
            ErrorView::Internal(
                "registration rejected: "@ + error.message@ + " ("@ + error.details@ + ")"@,
            ),
        ),
        _ => Err(ErrorView::Internal("expected PluginRegisterAck"@)),
    }
}

/// The key of the connection after the answer to a registration: derived
/// anew if there is a secret and the answer brings a nonce.
pub open spec fn key_after_registration(
    client: ClientView,
    plugin_id: Seq<char>,
    reply: Envelope,
) -> Option<Seq<u8>> {
    match (client.secret, registration_answer(reply)) {
        (Some(secret), Ok(ack)) => if ack.session_nonce@.len() > 0 {
            Some(frame_mac::session_key(secret, ack.session_nonce@, plugin_id))
        } else {
            client.session_key
        },
        _ => client.session_key,
    }
}

/// A failure that the kernel reports, in words.
pub(crate) fn reported(before: &str, message: &String, details: &String) -> (text: String)
    ensures
        text@ == before@ + message@ + " ("@ + details@ + ")"@,
{
    let mut text = String::from_str(before);
    text.append(message.as_str());
    text.append(" (");
    text.append(details.as_str());
    text.append(")");
    text
}

impl VynkorClient {
    /// The message that registers a plugin without a token.
    pub fn register(&self, plugin_id: &str, manifest: PluginManifest) -> (message: Outgoing)
        ensures
            registers(message, self@.device_id, plugin_id@, "1.0.0"@, manifest, ""@),
    {
        self.register_with_token(plugin_id, manifest, "")
    }

    /// The message that registers a plugin with a token.
    pub fn register_with_token(&self, plugin_id: &str, manifest: PluginManifest, jwt_token: &str)
        -> (message: Outgoing)
        ensures
            registers(message, self@.device_id, plugin_id@, "1.0.0"@, manifest, jwt_token@),
    {
        self.register_full(plugin_id, "1.0.0", manifest, jwt_token)
    }

    /// The message that registers a plugin with its version and a token.
    pub fn register_full(
        &self,
        plugin_id: &str,
        version: &str,
        manifest: PluginManifest,
        jwt_token: &str,
    ) -> (message: Outgoing)
        ensures
            registers(message, self@.device_id, plugin_id@, version@, manifest, jwt_token@),
    {
        let device_id: String = match &self.device_id {
            Some(id) => id.clone(),
            None => String::new(),
        };
        Outgoing::to_kernel(
            Payload::PluginRegister(
                PluginRegister {
                    plugin_id: plugin_id.to_string(),
                    version: version.to_string(),
                    description: String::new(),
                    manifest: Some(manifest),
                    jwt_token: jwt_token.to_string(),
                    device_id,
                    os: 0,
                    arch: String::new(),
                    os_version: String::new(),
                    capabilities: Vec::new(),
                    protocol_version: String::new(),
                    user_id: String::new(),
                },
            ),
        )
    }

    /// Takes in the answer to a registration. An acknowledgement with a nonce
    /// secures the connection if the client has a secret, whether or not the
    /// kernel accepted the plugin.
    pub fn registered(&mut self, plugin_id: &str, reply: Envelope) -> (result: Result<
        PluginRegisterAck,
        VynkorError,
    >)
        requires
            old(self).wf(),
        ensures
            final(self).wf(),
            final(self)@ == (ClientView {
                session_key: key_after_registration(old(self)@, plugin_id@, reply),
                ..old(self)@
            }),
            match registration_answer(reply) {
                Ok(ack) => result == Ok::<PluginRegisterAck, VynkorError>(ack),
                Err(fault) => result matches Err(error) && error@ == fault,
            },
    {
        match reply.payload {
            Some(Payload::PluginRegisterAck(ack)) => {
                if ack.session_nonce.len() > 0 {
                    let key: Option<[u8; 32]> = match &self.secret {
                        Some(secret) => Some(
                            derive_session_key(secret, &ack.session_nonce, plugin_id),
                        ),
                        None => None,
                    };
                    if key.is_some() {
                        self.session_key = key;
                    }
                }
                Ok(ack)
            },
            Some(Payload::Error(error)) => Err(
                VynkorError::Internal(
                    reported("registration rejected: ", &error.message, &error.details),
                ),
            ),
            _ => Err(VynkorError::Internal("expected PluginRegisterAck".to_string())),
        }
    }
}

/// A client never holds more than its bounds allow: as many messages in the
/// making as there may be, each of them no larger than one payload.
pub proof fn held_messages_are_bounded(client: VynkorClient)
    requires
        client.wf(),
    ensures
        reassembly::within_bounds(client@.streams),
        client@.next_stream_id >= 1,
{
    client.reassembly.wf_is_within_bounds();
}

} // verus!
