use salience_gateway::trace::{generate_trace_id, get_or_create_trace_id, trace_id_from_nanos};

#[test]
fn trace_ids_are_twelve_hex_digits() {
    assert_eq!(trace_id_from_nanos(0), "000000000000");
    assert_eq!(trace_id_from_nanos(0xabc), "000000000abc");
    assert_eq!(trace_id_from_nanos(0x1234_5678_9abc_def0), "56789abcdef0");
    assert_eq!(trace_id_from_nanos(0xffff_ffff_ffff), "ffffffffffff");
    assert_eq!(trace_id_from_nanos(u128::MAX), "ffffffffffff");
    assert_eq!(trace_id_from_nanos(0x1_0000_0000_0000), "000000000000");
    let n: u128 = 1_700_000_000_123_456_789;
    assert_eq!(trace_id_from_nanos(n), format!("{:012x}", n & 0xffffffffffff));
}

#[test]
fn generated_trace_ids_have_the_form() {
    let id = generate_trace_id();
    assert_eq!(id.len(), 12);
    assert!(id.chars().all(|c| c.is_ascii_digit() || ('a'..='f').contains(&c)));
}

#[test]
fn a_received_trace_id_is_kept() {
    assert_eq!(get_or_create_trace_id(Some("abc-1".to_string())), "abc-1");
    assert_eq!(get_or_create_trace_id(Some(String::new())), "");
    assert_eq!(get_or_create_trace_id(None).len(), 12);
}
