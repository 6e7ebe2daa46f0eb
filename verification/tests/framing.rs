use vynkor_sdk::error::VynkorError;
use vynkor_sdk::frame_mac::{compute_tag, derive_session_key, verify_tag};
use vynkor_sdk::framing::{
    build_frame, fragment_payload, parse_frag_header, restored_frame, serialize_header, ws_message,
    FragmentHeader, Frame, FLAG_COMPRESSED, FLAG_FRAGMENTED, FLAG_MAC_PRESENT, FLAG_RAW_BINARY,
    FRAG_HEADER_SIZE, MAX_PAYLOAD_SIZE,
};
use vynkor_sdk::json::string_member;
use vynkor_sdk::reassembly::{Reassembly, MAX_REASSEMBLY_STREAMS};
use vynkor_sdk::span::Span;
use vynkor_sdk::text::{join, push_decimal};

fn hex(bytes: &[u8]) -> String {
    bytes.iter().map(|b| format!("{b:02x}")).collect()
}

#[test]
fn build_frame_truncates_long_target() {
    let long = "x".repeat(64);
    let frame = build_frame(&long, 0, vec![1, 2, 3]);
    assert_eq!(frame.target, [b'x'; 32]);
    assert_eq!(frame.length, 3);
    assert_eq!(frame.crc32, crc32fast::hash(&[1, 2, 3]));
}

#[test]
fn build_frame_pads_short_target() {
    let frame = build_frame("p\u{e9}", FLAG_RAW_BINARY, Vec::new());
    let mut target = [0u8; 32];
    target[..3].copy_from_slice(&[b'p', 0xC3, 0xA9]);
    assert_eq!(frame.target, target);
    assert_eq!(frame.magic, 0x5652);
    assert_eq!(frame.flags, 0x0010);
    assert_eq!(frame.length, 0);
    assert_eq!(frame.crc32, 0);
    assert!(frame.mac.is_none());
}

#[test]
fn checksums_are_crc32() {
    assert_eq!(build_frame("t", 0, b"123456789".to_vec()).crc32, 0xCBF4_3926);
    assert_eq!(restored_frame([1u8; 32], 0, vec![1, 2, 3]).crc32, 0x55BC_801D);
}

#[test]
fn mac_tag_roundtrip_over_serialized_header() {
    let key = derive_session_key(b"secret", b"0123456789abcdef", "p");
    let frame = Frame {
        magic: 0x5652,
        flags: FLAG_MAC_PRESENT,
        length: 5,
        target: [7u8; 32],
        crc32: 0xDEADBEEF,
        payload: b"hello".to_vec(),
        mac: None,
    };
    let header = serialize_header(&frame);
    let tag = compute_tag(&key, &header, &frame.payload);
    assert!(verify_tag(&key, &header, &frame.payload, &tag));
    assert!(!verify_tag(&key, &header, b"hellp", &tag));
}

#[test]
fn session_keys_are_hkdf_sha256() {
    let key = derive_session_key(b"secret", b"0123456789abcdef", "p");
    assert_eq!(
        hex(&key),
        "1a62ad4fd741ca179db668900aaaed28bc9e0b7ecee90c45ee29e71539fb3202"
    );
    assert_ne!(key, derive_session_key(b"secret", b"0123456789abcdef", "q"));
    assert_ne!(key, derive_session_key(b"secret", b"0123456789abcdeF", "p"));
    assert_ne!(key, derive_session_key(b"Secret", b"0123456789abcdef", "p"));
}

#[test]
fn tags_are_hmac_sha256_over_header_and_payload() {
    let mut key = [0u8; 32];
    key[..4].copy_from_slice(b"Jefe");
    let tag = compute_tag(&key, b"what do ya want ", b"for nothing?");
    assert_eq!(
        hex(&tag),
        "5bdcc146bf60754e6a042426089575c75a003f089d2739839dec58b964ec3843"
    );
    assert!(verify_tag(&key, b"what do ya want for", b" nothing?", &tag));
    assert!(!verify_tag(&key, b"what do ya want ", b"for nothing?", &tag[..31]));
}

#[test]
fn header_layout() {
    let frame = Frame {
        magic: 0x5652,
        flags: 0x0102,
        length: 0x0304_0506,
        target: [7u8; 32],
        crc32: 0x08090A0B,
        payload: Vec::new(),
        mac: None,
    };
    let header = serialize_header(&frame);
    assert_eq!(header[..8], [0x56, 0x52, 1, 2, 3, 4, 5, 6]);
    assert_eq!(header[8..40], [7u8; 32]);
    assert_eq!(header[40..], [8, 9, 10, 11]);
}

#[test]
fn fragment_headers_round_trip() {
    let header = FragmentHeader {
        fragment_id: 0x0102,
        sequence: 0x0304,
        total: 0x0506,
        stream_id: 0x0708_090A,
    };
    let payload = fragment_payload(header, b"xyz");
    assert_eq!(payload, [1, 2, 3, 4, 5, 6, 7, 8, 9, 10, b'x', b'y', b'z']);
    assert_eq!(parse_frag_header(&payload), Some(header));
    assert_eq!(payload.len() - FRAG_HEADER_SIZE, 3);
    assert_eq!(parse_frag_header(&payload[..9]), None);
}

#[test]
fn websocket_messages_hold_header_payload_and_tag() {
    let mut frame = build_frame("peer", FLAG_RAW_BINARY, vec![1, 2, 3]);
    let bytes = ws_message(&frame).unwrap();
    assert_eq!(bytes.len(), 47);
    assert_eq!(bytes[..44], serialize_header(&frame));
    assert_eq!(bytes[44..], [1, 2, 3]);
    frame.mac = Some([9u8; 32]);
    let bytes = ws_message(&frame).unwrap();
    assert_eq!(bytes.len(), 79);
    assert_eq!(bytes[47..], [9u8; 32]);

    let frame = build_frame("peer", 0, vec![0u8; MAX_PAYLOAD_SIZE]);
    let bytes = ws_message(&frame).unwrap();
    assert_eq!(bytes.len(), 44 + MAX_PAYLOAD_SIZE);
    assert_eq!(bytes[3] as u16 & FLAG_COMPRESSED, 0);
    let frame = build_frame("peer", 0, vec![0u8; MAX_PAYLOAD_SIZE + 1]);
    assert!(matches!(
        ws_message(&frame),
        Err(VynkorError::PayloadTooLarge(1_048_577))
    ));
}

fn fragment(stream_id: u32, sequence: u16, total: u16, chunk: &[u8]) -> Frame {
    let header = FragmentHeader {
        fragment_id: 1,
        sequence,
        total,
        stream_id,
    };
    build_frame("peer", FLAG_FRAGMENTED, fragment_payload(header, chunk))
}

fn told(error: VynkorError) -> String {
    match error {
        VynkorError::Internal(message) => message,
        other => panic!("unexpected {other:?}"),
    }
}

#[test]
fn fragments_come_back_in_any_order() {
    let now = Span::from_secs(1);
    for order in [[0u16, 1, 2], [2, 1, 0], [1, 2, 0]] {
        let mut reassembly = Reassembly::new();
        let chunks = [&b"ab"[..], b"cd", b"e"];
        for (k, i) in order.iter().enumerate() {
            let frame = fragment(7, *i, 3, chunks[*i as usize]);
            let result = reassembly.absorb_fragment(frame, now).unwrap();
            if k < 2 {
                assert!(result.is_none());
            } else {
                let whole = result.unwrap();
                assert_eq!(whole.payload, b"abcde");
                assert_eq!(whole.flags, 0);
                assert_eq!(whole.length, 5);
                assert_eq!(whole.target[..4], *b"peer");
                assert_eq!(whole.crc32, crc32fast::hash(b"abcde"));
                assert!(whole.mac.is_none());
            }
        }
    }
}

#[test]
fn messages_may_be_cut_into_chunks_of_any_sizes() {
    let now = Span::from_secs(1);
    let mut reassembly = Reassembly::new();
    for (i, chunk) in [(3u16, &b"gh"[..]), (0, b""), (2, b"bcdef"), (4, b"")] {
        let frame = fragment(9, i, 5, chunk);
        assert!(reassembly.absorb_fragment(frame, now).unwrap().is_none());
    }
    let whole = reassembly.absorb_fragment(fragment(9, 1, 5, b"a"), now).unwrap().unwrap();
    assert_eq!(whole.payload, b"abcdefgh");
    let whole = reassembly.absorb_fragment(fragment(9, 0, 1, b""), now).unwrap().unwrap();
    assert!(whole.payload.is_empty());
}

#[test]
fn a_repeated_fragment_replaces_the_first() {
    let mut reassembly = Reassembly::new();
    let now = Span::from_secs(1);
    assert!(reassembly.absorb_fragment(fragment(7, 0, 2, b"old"), now).unwrap().is_none());
    assert!(reassembly.absorb_fragment(fragment(7, 0, 2, b"new!"), now).unwrap().is_none());
    let whole = reassembly.absorb_fragment(fragment(7, 1, 2, b"."), now).unwrap().unwrap();
    assert_eq!(whole.payload, b"new!.");
}

#[test]
fn faulty_fragments_are_refused() {
    let mut reassembly = Reassembly::new();
    let now = Span::from_secs(1);
    let short = build_frame("peer", FLAG_FRAGMENTED, vec![0u8; 9]);
    assert_eq!(
        told(reassembly.absorb_fragment(short, now).unwrap_err()),
        "fragment header too short"
    );
    assert_eq!(
        told(reassembly.absorb_fragment(fragment(7, 3, 3, b""), now).unwrap_err()),
        "invalid fragment header: seq 3 / total 3"
    );
    assert_eq!(
        told(reassembly.absorb_fragment(fragment(7, 0, 0, b""), now).unwrap_err()),
        "invalid fragment header: seq 0 / total 0"
    );
    assert!(reassembly.absorb_fragment(fragment(7, 0, 2, b"a"), now).unwrap().is_none());
    assert_eq!(
        told(reassembly.absorb_fragment(fragment(7, 1, 3, b"b"), now).unwrap_err()),
        "fragment total mismatch within stream"
    );
    // The stream was closed: its other fragment opens it anew.
    assert!(reassembly.absorb_fragment(fragment(7, 1, 2, b"b"), now).unwrap().is_none());
}

#[test]
fn streams_are_bounded_in_number() {
    let mut reassembly = Reassembly::new();
    let now = Span::from_secs(1);
    for id in 0..MAX_REASSEMBLY_STREAMS as u32 {
        assert!(reassembly.absorb_fragment(fragment(id, 0, 2, b"a"), now).unwrap().is_none());
    }
    assert_eq!(
        told(reassembly.absorb_fragment(fragment(64, 0, 2, b"a"), now).unwrap_err()),
        "too many concurrent fragment streams"
    );
    // Fragments of open streams still go through, and make room.
    let whole = reassembly.absorb_fragment(fragment(5, 1, 2, b"b"), now).unwrap().unwrap();
    assert_eq!(whole.payload, b"ab");
    assert!(reassembly.absorb_fragment(fragment(64, 0, 2, b"a"), now).unwrap().is_none());
}

#[test]
fn streams_are_bounded_in_size() {
    let mut reassembly = Reassembly::new();
    let now = Span::from_secs(1);
    let half = vec![1u8; MAX_PAYLOAD_SIZE / 2];
    assert!(reassembly.absorb_fragment(fragment(1, 0, 3, &half), now).unwrap().is_none());
    assert!(reassembly.absorb_fragment(fragment(1, 1, 3, &half), now).unwrap().is_none());
    assert!(matches!(
        reassembly.absorb_fragment(fragment(1, 2, 3, b"x"), now),
        Err(VynkorError::PayloadTooLarge(1_048_577))
    ));
    assert!(reassembly.absorb_fragment(fragment(2, 0, 2, &half), now).unwrap().is_none());
    let whole = reassembly.absorb_fragment(fragment(2, 1, 2, &half), now).unwrap().unwrap();
    assert_eq!(whole.payload.len(), MAX_PAYLOAD_SIZE);
}

#[test]
fn streams_are_forgotten_after_thirty_seconds() {
    for (late, complete) in [(999_999_999u32, true), (0u32, false)] {
        let mut reassembly = Reassembly::new();
        let start = Span::from_secs(10);
        assert!(reassembly.absorb_fragment(fragment(1, 0, 2, b"a"), start).unwrap().is_none());
        let then = if complete { Span::new(39, late) } else { Span::new(40, late) };
        let result = reassembly.absorb_fragment(fragment(1, 1, 2, b"b"), then).unwrap();
        assert_eq!(result.is_some(), complete);
    }
}

#[test]
fn spans_count_nanoseconds() {
    assert_eq!(Span::from_millis(1_234).as_nanos(), 1_234_000_000);
    assert_eq!(Span::new(2, 5).as_nanos(), 2_000_000_005);
    assert_eq!(Span::from_millis(1_999).as_secs(), 1);
    let sum = Span::new(1, 600_000_000).plus(Span::new(2, 500_000_000));
    assert_eq!(sum.as_nanos(), 4_100_000_000);
    assert_eq!(sum.since(Span::new(3, 200_000_000)).as_nanos(), 900_000_000);
    assert_eq!(sum.since(Span::new(1, 0)).as_nanos(), 3_100_000_000);
    assert!(Span::from_secs(1).since(sum).is_zero());
    assert!(!sum.is_zero());
}

#[test]
fn texts_are_joined_and_numbers_written() {
    let mut text = String::from("n=");
    push_decimal(&mut text, 0);
    push_decimal(&mut text, 1_048_577);
    assert_eq!(text, "n=01048577");
    assert_eq!(join(&vec![], ", "), "");
    assert_eq!(join(&vec!["a".to_string()], ", "), "a");
    assert_eq!(join(&vec!["a".to_string(), "".to_string(), "b".to_string()], ", "), "a, , b");
}

#[test]
fn errors_are_described() {
    assert_eq!(
        VynkorError::PayloadTooLarge(5).describe(),
        "payload too large: 5 bytes"
    );
    assert_eq!(VynkorError::Timeout.describe(), "operation timed out");
    assert_eq!(
        VynkorError::PermissionDenied("no".to_string()).describe(),
        "permission denied: no"
    );
    assert_eq!(
        VynkorError::Internal("odd".to_string()).describe(),
        "internal error: odd"
    );
}

#[test]
fn string_members_are_found() {
    assert_eq!(string_member(br#"{"a":"x","b":1}"#, "a"), Ok(Some("x".to_string())));
    assert_eq!(string_member(br#"{"a":"x","b":1}"#, "b"), Ok(None));
    assert_eq!(string_member(br#"{"a":"x","b":1}"#, "c"), Ok(None));
    assert_eq!(string_member(br#""a""#, "a"), Ok(None));
    assert_eq!(string_member(br#"{"a":"x","a":"y"}"#, "a"), Ok(Some("y".to_string())));
    assert!(string_member(b"{\"a\":\"x\"} trailing", "a").is_err());
    assert!(string_member(b"\xff", "a").is_err());
}

#[test]
fn a_fragment_that_comes_twice_changes_nothing() {
    let mut reassembly = Reassembly::new();
    let now = Span::from_secs(1);
    for _ in 0..3 {
        assert!(reassembly.absorb_fragment(fragment(7, 0, 2, b"ab"), now).unwrap().is_none());
    }
    let whole = reassembly.absorb_fragment(fragment(7, 1, 2, b"c"), now).unwrap().unwrap();
    assert_eq!(whole.payload, b"abc");
}

#[test]
fn different_frames_have_different_headers() {
    let base = || build_frame("peer", 1, vec![1, 2, 3]);
    let header = serialize_header(&base());
    assert_eq!(header.len(), 44);
    assert_eq!(header, serialize_header(&base()));
    assert_ne!(header, serialize_header(&build_frame("peer", 2, vec![1, 2, 3])));
    assert_ne!(header, serialize_header(&build_frame("peers", 1, vec![1, 2, 3])));
    assert_ne!(header, serialize_header(&build_frame("peer", 1, vec![1, 2, 4])));
    assert_ne!(header, serialize_header(&build_frame("peer", 1, vec![1, 2])));
}
