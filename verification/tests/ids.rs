use vynkor_sdk::ids::{next_request_id, stamp, Sequence};

#[test]
fn request_ids_are_unique() {
    let mut sequence = Sequence::new();
    let a = next_request_id(&mut sequence, "act", 1_700_000_000_000);
    let b = next_request_id(&mut sequence, "act", 1_700_000_000_000);
    assert_ne!(a, b);
}

#[test]
fn ids_are_made_of_prefix_time_and_number() {
    let mut sequence = Sequence::new();
    assert_eq!(next_request_id(&mut sequence, "act", 12), "act-12-0");
    assert_eq!(next_request_id(&mut sequence, "act", 0), "act-0-1");
    assert_eq!(sequence.next_seq(), 2);
    assert_eq!(
        stamp("p", u64::MAX, u64::MAX),
        "p-18446744073709551615-18446744073709551615"
    );
    // The dash keeps the digits of time and number apart.
    assert_ne!(stamp("p", 1, 11), stamp("p", 11, 1));
    // Different numbers tell ids apart whatever stands before them.
    assert_eq!(stamp("p-1", 2, 3), "p-1-2-3");
    assert_ne!(stamp("p", 1, 2), stamp("p-1", 2, 3));
    assert_ne!(stamp("act", 5, 1), stamp("pending", 5, 2));
}
