//! What the building blocks of the protocol do, in plain numbers and texts.

use crate::concurrent::response_envelope;
use crate::error::VynkorError;
use crate::frame_mac::{self, compute_tag, derive_session_key, verify_tag};
use crate::framing::{
    self, build_frame, fragment_payload, parse_frag_header, push_bytes, restored_frame,
    serialize_header, ws_message, FragmentHeader, Frame,
};
use crate::ids::{next_request_id, stamp, Sequence};
use crate::json::{self, string_member, Document, Member};
use crate::proto::{ActionRisk, ActionStatus, Envelope, Outgoing, Payload, PluginManifest};
use crate::span::Span;
use crate::text::{self, begins_with, chars_of, join, push_decimal};
use vstd::prelude::*;
use vstd::string::*;

verus! {

/// The number that a run of decimal digits stands for.
pub open spec fn value_of(digits: Seq<char>) -> int
    decreases digits.len(),
{
    if digits.len() == 0 {
        0
    } else {
        10 * value_of(digits.drop_last()) + (digits.last() as int - '0' as int)
    }
}

/// Numbers are written in decimal: the digits stand for the number, there are
/// only digits, at least one, and no zero in front.
pub proof fn decimals_read_back(n: nat)
    ensures
        value_of(text::decimal(n)) == n,
        text::decimal(n).len() >= 1,
        forall|i: int|
            0 <= i < text::decimal(n).len() ==> '0' <= #[trigger] text::decimal(n)[i] <= '9',
        n > 0 ==> text::decimal(n)[0] != '0',
        n == 0 ==> text::decimal(n).len() == 1,
    decreases n,
{
    if n < 10 {
        assert(text::digit(n) as int == 48 + n);
        assert(text::decimal(n).drop_last() =~= seq![]);
        assert(value_of(seq![]) == 0);
    } else {
        decimals_read_back(n / 10);
        assert(text::digit(n % 10) as int == 48 + n % 10);
        assert(text::decimal(n).drop_last() =~= text::decimal(n / 10));
    }
}

/// A number that is appended follows the text that is there.
pub proof fn numbers_are_appended(text: &mut String, n: u64, result: ())
    requires
        call_ensures(push_decimal, (text, n), result),
    ensures
        final(text)@ == old(text)@ + text::decimal(n as nat),
{
}

/// Texts are joined with the separator between neighbours and nowhere else:
/// one more text adds the separator, if it is not the first, and itself.
pub proof fn joined_texts_grow_by_one(
    parts: &Vec<String>,
    more: &Vec<String>,
    last: String,
    separator: &str,
    shorter: String,
    longer: String,
)
    requires
        more@ == parts@.push(last),
        call_ensures(join, (parts, separator), shorter),
        call_ensures(join, (more, separator), longer),
    ensures
        call_requires(join, (parts, separator)),
        call_requires(join, (more, separator)),
        parts@.len() == 0 ==> shorter@ == Seq::<char>::empty() && longer@ == last@,
        parts@.len() > 0 ==> longer@ == shorter@ + separator@ + last@,
{
    assert(text::views(more@).drop_last() =~= text::views(parts@));
    assert(text::views(more@).last() == last@);
}

/// Lengths of time are counted in nanoseconds.
pub proof fn spans_are_nanoseconds(
    secs: u64,
    millis: u64,
    subsec_nanos: u32,
    made: Span,
    from_secs: Span,
    from_millis: Span,
)
    requires
        subsec_nanos < 1_000_000_000,
        call_ensures(Span::new, (secs, subsec_nanos), made),
        call_ensures(Span::from_secs, (secs,), from_secs),
        call_ensures(Span::from_millis, (millis,), from_millis),
    ensures
        call_requires(Span::from_secs, (secs,)),
        call_requires(Span::from_millis, (millis,)),
        call_requires(Span::new, (secs, subsec_nanos)),
        made@ == secs * 1_000_000_000 + subsec_nanos,
        from_secs@ == secs * 1_000_000_000,
        from_millis@ == millis * 1_000_000,
{
}

/// Reading lengths of time, and reckoning with them.
pub proof fn spans_are_reckoned(
    a: &Span,
    b: Span,
    c: Span,
    secs: u64,
    nanos: u128,
    sum: Span,
    elapsed: Span,
    zero: bool,
    younger: bool,
)
    requires
        call_ensures(Span::as_secs, (a,), secs),
        call_ensures(Span::as_nanos, (a,), nanos),
        call_ensures(Span::plus, (a, b), sum),
        call_ensures(Span::since, (a, b), elapsed),
        call_ensures(Span::is_zero, (a,), zero),
        call_ensures(Span::is_younger_than, (a, b, c), younger),
    ensures
        call_requires(Span::as_secs, (a,)),
        call_requires(Span::as_nanos, (a,)),
        call_requires(Span::since, (a, b)),
        call_requires(Span::is_zero, (a,)),
        call_requires(Span::is_younger_than, (a, b, c)),
        secs * 1_000_000_000 <= a@ < secs * 1_000_000_000 + 1_000_000_000,
        nanos == a@,
        a@ + b@ <= 18_446_744_073_709_551_615_999_999_999 ==> call_requires(Span::plus, (a, b))
            && sum@ == a@ + b@,
        a@ >= b@ ==> b@ + elapsed@ == a@,
        a@ < b@ ==> elapsed@ == 0,
        zero <==> a@ == 0,
        younger <==> b@ > 0 && c@ < a@ + b@,
{
}

/// Errors are described in these words.
pub proof fn errors_are_told(error: &VynkorError, told: String)
    requires
        call_ensures(VynkorError::describe, (error,), told),
    ensures
        call_requires(VynkorError::describe, (error,)),
        match error {
            VynkorError::PayloadTooLarge(size) => told@ == "payload too large: "@ + text::decimal(
                *size as nat,
            ) + " bytes"@,
            VynkorError::Timeout => told@ == "operation timed out"@,
            VynkorError::PermissionDenied(reason) => told@ == "permission denied: "@ + reason@,
            VynkorError::Internal(message) => told@ == "internal error: "@ + message@,
        },
{
}

/// Ids are made of prefix, time and number, with dashes between them, and the
/// sequence goes on by one with each of them.
pub proof fn ids_are_stamped(
    sequence: &mut Sequence,
    prefix: &str,
    millis: u64,
    n: u64,
    stamped: String,
    id: String,
)
    requires
        call_ensures(stamp, (prefix, millis, n), stamped),
        call_ensures(next_request_id, (sequence, prefix, millis), id),
    ensures
        call_requires(stamp, (prefix, millis, n)),
        call_requires(next_request_id, (sequence, prefix, millis)),
        stamped@ == prefix@ + "-"@ + text::decimal(millis as nat) + "-"@ + text::decimal(n as nat),
        id@ == prefix@ + "-"@ + text::decimal(millis as nat) + "-"@ + text::decimal(
            old(sequence)@ as nat,
        ),
        final(sequence)@ == (old(sequence)@ + 1) % 0x1_0000_0000_0000_0000,
{
}

/// A sequence begins at zero and goes on by one.
pub proof fn sequences_count_up(sequence: &mut Sequence, n: u64, fresh: Sequence)
    requires
        call_ensures(Sequence::new, (), fresh),
        call_ensures(Sequence::next_seq, (sequence,), n),
    ensures
        call_requires(Sequence::new, ()),
        call_requires(Sequence::next_seq, (sequence,)),
        fresh@ == 0,
        n == old(sequence)@,
        final(sequence)@ == (old(sequence)@ + 1) % 0x1_0000_0000_0000_0000,
{
}

/// A status and a risk have these numbers on the wire.
pub proof fn codes_are_fixed(status: ActionStatus, risk: ActionRisk, s: i32, r: i32)
    requires
        call_ensures(ActionStatus::code, (status,), s),
        call_ensures(ActionRisk::code, (risk,), r),
    ensures
        call_requires(ActionStatus::code, (status,)),
        call_requires(ActionRisk::code, (risk,)),
        status is ActionUnknown <==> s == 0,
        status is ActionOk <==> s == 1,
        status is ActionError <==> s == 2,
        status is ActionTimeout <==> s == 3,
        status is ActionPermissionDeny <==> s == 4,
        status is ActionNotFound <==> s == 5,
        status is ActionQuotaExceeded <==> s == 6,
        status is ActionStreamBackpressure <==> s == 7,
        risk is Unknown <==> r == 0,
        risk is Low <==> r == 1,
        risk is Medium <==> r == 2,
        risk is High <==> r == 3,
        risk is Critical <==> r == 4,
{
}

/// An envelope around a message holds that message and nothing else, and a
/// message for the kernel is addressed to it.
pub proof fn envelopes_hold_their_message(payload: Payload, bare: Envelope, outgoing: Outgoing)
    requires
        call_ensures(Envelope::bare, (payload,), bare),
        call_ensures(Outgoing::to_kernel, (payload,), outgoing),
    ensures
        call_requires(Envelope::bare, (payload,)),
        call_requires(Outgoing::to_kernel, (payload,)),
        bare.message_id@.len() == 0,
        bare.timestamp == 0,
        bare.sender_id@.len() == 0,
        bare.payload == Some(payload),
        outgoing.target@ == "kernel"@,
        outgoing.envelope.message_id@.len() == 0,
        outgoing.envelope.timestamp == 0,
        outgoing.envelope.sender_id@.len() == 0,
        outgoing.envelope.payload == Some(payload),
{
}

/// An answer carries the id of its request and either the data, with the
/// status for success and no error, or the error, with the status for failure
/// and no data.
pub proof fn answers_carry_their_result(
    action_id: String,
    result: Result<Vec<u8>, String>,
    envelope: Envelope,
)
    requires
        call_ensures(response_envelope, (action_id, result), envelope),
    ensures
        call_requires(response_envelope, (action_id, result)),
        envelope.message_id@.len() == 0,
        envelope.timestamp == 0,
        envelope.sender_id@.len() == 0,
        envelope.payload matches Some(Payload::ActionResponse(response)) && {
            &&& response.action_id@ == action_id@
            &&& match result {
                Ok(data) => response.status == 1 && response.data_json@ == data@
                    && response.error@.len() == 0,
                Err(error) => response.status == 2 && response.data_json@.len() == 0
                    && response.error@ == error@,
            }
        },
{
}

/// The header of a frame: 44 bytes with the magic number, the flags and the
/// length, the target in 32 bytes, and the checksum, numbers with the most
/// significant byte first.
pub proof fn headers_are_laid_out(frame: &Frame, header: [u8; 44])
    requires
        call_ensures(serialize_header, (frame,), header),
    ensures
        call_requires(serialize_header, (frame,)),
        header@[0] * 256 + header@[1] == frame.magic,
        header@[2] * 256 + header@[3] == frame.flags,
        header@[4] * 16_777_216 + header@[5] * 65_536 + header@[6] * 256 + header@[7]
            == frame.length,
        forall|i: int| 0 <= i < 32 ==> #[trigger] header@[8 + i] == frame.target@[i],
        header@[40] * 16_777_216 + header@[41] * 65_536 + header@[42] * 256 + header@[43]
            == frame.crc32,
{
    let (magic, flags) = (framing::be16(frame.magic), framing::be16(frame.flags));
    let (length, crc32) = (framing::be32(frame.length), framing::be32(frame.crc32));
    let target = frame.target@;
    two_bytes(frame.magic);
    two_bytes(frame.flags);
    four_bytes(frame.length);
    four_bytes(frame.crc32);
    assert(frame@.magic == frame.magic && frame@.flags == frame.flags);
    assert(frame@.length == frame.length && frame@.crc32 == frame.crc32);
    assert(frame@.target == target && target.len() == 32);
    joined_fields(magic, flags, length, target, crc32);
    assert(header@ == magic + flags + length + target + crc32);
}

/// Fields one after another, each at its place.
proof fn joined_fields(a: Seq<u8>, b: Seq<u8>, c: Seq<u8>, d: Seq<u8>, e: Seq<u8>)
    requires
        a.len() == 2,
        b.len() == 2,
        c.len() == 4,
        d.len() == 32,
        e.len() == 4,
    ensures
        ({
            let all = a + b + c + d + e;
            &&& all[0] == a[0] && all[1] == a[1]
            &&& all[2] == b[0] && all[3] == b[1]
            &&& all[4] == c[0] && all[5] == c[1] && all[6] == c[2] && all[7] == c[3]
            &&& forall|i: int| 0 <= i < 32 ==> #[trigger] all[8 + i] == d[i]
            &&& all[40] == e[0] && all[41] == e[1] && all[42] == e[2] && all[43] == e[3]
        }),
{
}

/// A 16-bit number from its bytes.
proof fn two_bytes(n: u16)
    ensures
        framing::be16(n).len() == 2,
        framing::be16(n)[0] * 256 + framing::be16(n)[1] == n,
{
}

/// A 32-bit number from its bytes.
proof fn four_bytes(n: u32)
    ensures
        framing::be32(n).len() == 4,
        framing::be32(n)[0] * 16_777_216 + framing::be32(n)[1] * 65_536 + framing::be32(n)[2] * 256
            + framing::be32(n)[3] == n,
{
}

/// The header of a fragment: ten bytes with the id of the fragment, its
/// position, the number of fragments, and the stream, numbers with the most
/// significant byte first; the chunk follows. It is read back as it was
/// written, from any payload that is long enough, and from no other.
pub proof fn fragment_headers_are_laid_out(
    header: FragmentHeader,
    chunk: &[u8],
    bytes: &[u8],
    written: Vec<u8>,
    read: Option<FragmentHeader>,
)
    requires
        call_ensures(fragment_payload, (header, chunk), written),
        call_ensures(parse_frag_header, (bytes,), read),
    ensures
        call_requires(fragment_payload, (header, chunk)),
        call_requires(parse_frag_header, (bytes,)),
        written@.len() == 10 + chunk@.len(),
        written@[0] * 256 + written@[1] == header.fragment_id,
        written@[2] * 256 + written@[3] == header.sequence,
        written@[4] * 256 + written@[5] == header.total,
        written@[6] * 16_777_216 + written@[7] * 65_536 + written@[8] * 256 + written@[9]
            == header.stream_id,
        written@.skip(10) == chunk@,
        read is None <==> bytes@.len() < 10,
        read matches Some(found) ==> {
            &&& found.fragment_id == bytes@[0] * 256 + bytes@[1]
            &&& found.sequence == bytes@[2] * 256 + bytes@[3]
            &&& found.total == bytes@[4] * 256 + bytes@[5]
            &&& found.stream_id == bytes@[6] * 16_777_216 + bytes@[7] * 65_536 + bytes@[8] * 256
                + bytes@[9]
        },
{
    assert(written@.skip(10) =~= chunk@);
}

/// A frame carries its payload unchanged to its target, whose id is cut off or
/// filled up with zeros to 32 bytes; length and checksum are those of the
/// payload, and there is no tag.
pub proof fn frames_carry_their_payload(
    target: &str,
    field: [u8; 32],
    flags: u16,
    payload: Vec<u8>,
    built: Frame,
    restored: Frame,
)
    requires
        call_ensures(build_frame, (target, flags, payload), built),
        call_ensures(restored_frame, (field, flags, payload), restored),
    ensures
        call_requires(build_frame, (target, flags, payload)),
        call_requires(restored_frame, (field, flags, payload)),
        forall|frame: Frame|
            frame == built || frame == restored ==> {
                &&& (#[trigger] frame.magic) == 0x5652
                &&& frame.flags == flags
                &&& frame.payload@ == payload@
                &&& frame.length == payload@.len() as u32
                &&& frame.crc32 == framing::crc32(payload@)
                &&& frame.mac is None
            },
        restored.target@ == field@,
        forall|i: int|
            0 <= i < 32 ==> #[trigger] built.target@[i] == if i < target.spec_bytes().len() {
                target.spec_bytes()[i]
            } else {
                0u8
            },
{
    assert(built@.mac is None && restored@.mac is None);
    assert(built@.payload == payload@ && restored@.payload == payload@);
    assert(built@.target == built.target@);
}

/// One WebSocket message holds one frame: its header, its payload, and its tag
/// if it has one. Only a payload over one mebibyte does not go.
pub proof fn websocket_messages_hold_one_frame(
    frame: &Frame,
    header: [u8; 44],
    message: Result<Vec<u8>, VynkorError>,
)
    requires
        call_ensures(serialize_header, (frame,), header),
        call_ensures(ws_message, (frame,), message),
    ensures
        call_requires(serialize_header, (frame,)),
        call_requires(ws_message, (frame,)),
        frame.payload@.len() <= 1_048_576 ==> (message matches Ok(bytes) && bytes@ == header@
            + frame.payload@ + match frame.mac {
            Some(tag) => tag@,
            None => Seq::<u8>::empty(),
        }),
        frame.payload@.len() > 1_048_576 ==> (message matches Err(
            VynkorError::PayloadTooLarge(size),
        ) && size == frame.payload@.len()),
{
}

/// The key of a connection is bound to the secret, the nonce and the plugin:
/// HMAC-SHA256, under the HMAC-SHA256 of the secret under the nonce, of the
/// label, the id of the plugin and the byte 1.
pub proof fn session_keys_are_bound(
    secret: &[u8],
    nonce: &[u8],
    plugin_id: &str,
    key: [u8; 32],
)
    requires
        call_ensures(derive_session_key, (secret, nonce, plugin_id), key),
    ensures
        call_requires(derive_session_key, (secret, nonce, plugin_id)),
        key@ == frame_mac::hmac_sha256(
            frame_mac::hmac_sha256(nonce@, secret@),
            vstd::utf8::encode_utf8("vynkor-frame-mac-v1|"@) + vstd::utf8::encode_utf8(plugin_id@)
                + seq![1u8],
        ),
{
}

/// A tag is that over header and payload, one after the other; it is accepted
/// under the same key, and no other run of bytes is.
pub proof fn tags_are_told_apart(
    key: &[u8; 32],
    header: &[u8],
    payload: &[u8],
    other: &[u8],
    tag: [u8; 32],
    valid: bool,
)
    requires
        call_ensures(compute_tag, (key, header, payload), tag),
        call_ensures(verify_tag, (key, header, payload, other), valid),
    ensures
        call_requires(compute_tag, (key, header, payload)),
        call_requires(verify_tag, (key, header, payload, other)),
        tag@ == frame_mac::hmac_sha256(key@, header@ + payload@),
        valid <==> other@ == tag@,
{
}

/// A string member is found in a JSON object that has it, and nowhere else;
/// what is no JSON is told in the words of its error.
pub proof fn string_members_are_found(
    bytes: &[u8],
    name: &str,
    found: Result<Option<String>, String>,
)
    requires
        call_ensures(string_member, (bytes, name), found),
    ensures
        call_requires(string_member, (bytes, name)),
        match json::json_document(bytes@) {
            Document::Malformed(fault) => found matches Err(error) && error@ == fault,
            Document::Other => found matches Ok(None),
            Document::Object(contents) => if contents.contains_key(name@) {
                match contents[name@] {
                    Member::Text(text) => found matches Ok(Some(value)) && value@ == text,
                    _ => found matches Ok(None),
                }
            } else {
                found matches Ok(None)
            },
        },
{
}

/// Bytes are appended, characters are listed, and beginnings are compared, one
/// by one.
pub proof fn runs_are_handled_one_by_one(
    out: &mut Vec<u8>,
    bytes: &[u8],
    text: &str,
    chars: Vec<char>,
    a: &Vec<char>,
    b: &Vec<char>,
    len: usize,
    begins: bool,
    unit: (),
)
    requires
        len <= b@.len(),
        call_ensures(push_bytes, (out, bytes), unit),
        call_ensures(chars_of, (text,), chars),
        call_ensures(begins_with, (a, b, len), begins),
    ensures
        call_requires(push_bytes, (out, bytes)),
        call_requires(chars_of, (text,)),
        call_requires(begins_with, (a, b, len)),
        final(out)@ == old(out)@ + bytes@,
        chars@ == text@,
        begins <==> a@.len() >= len && forall|i: int|
            0 <= i < len ==> #[trigger] a@[i] == b@[i],
{
    let first = b@.take(len as int);
    if a@.len() >= len && forall|i: int| 0 <= i < len ==> #[trigger] a@[i] == b@[i] {
        assert(first =~= a@.subrange(0, len as int));
    }
    if begins {
        assert forall|i: int| 0 <= i < len implies #[trigger] a@[i] == b@[i] by {
            assert(a@.subrange(0, len as int)[i] == first[i]);
        }
    }
}

/// A manifest declares nothing unless it is told to.
pub proof fn manifests_begin_empty(manifest: PluginManifest)
    requires
        call_ensures(<PluginManifest as Default>::default, (), manifest),
    ensures
        manifest.permissions@.len() == 0,
        manifest.actions@.len() == 0,
        manifest.events@.len() == 0,
        manifest.ipc_targets@.len() == 0,
        manifest.platforms@.len() == 0,
        manifest.action_specs@.len() == 0,
{
}

} // verus!
