use carillon_server::event::{event_id, now_secs, secs_from_clock, ChangeEvent};

#[test]
fn event_id_formats_32_lowercase_hex_digits() {
    assert_eq!(event_id(0), "00000000000000000000000000000000");
    assert_eq!(event_id(u128::MAX), "ffffffffffffffffffffffffffffffff");
    assert_eq!(event_id(0xab), "000000000000000000000000000000ab");
    let bits = 0x0123_4567_89ab_cdef_fedc_ba98_7654_3210u128;
    assert_eq!(event_id(bits), format!("{:032x}", bits));
}

#[test]
fn distinct_bits_give_distinct_ids() {
    assert_ne!(event_id(1), event_id(1 << 4));
    assert_ne!(event_id(1 << 127), event_id(1 << 123));
}

#[test]
fn stamped_event_carries_exactly_what_it_was_given() {
    let ev = ChangeEvent::stamped(0x2a, 1_700_000_000, "watch-1", "imap", "INBOX", Some("7:42".into()));
    assert_eq!(ev.id, "0000000000000000000000000000002a");
    assert_eq!(ev.ts, 1_700_000_000);
    assert_eq!(ev.account, "watch-1");
    assert_eq!(ev.source, "imap");
    assert_eq!(ev.target, "INBOX");
    assert_eq!(ev.state.as_deref(), Some("7:42"));
}

#[test]
fn new_event_is_stamped_with_a_fresh_id_and_time() {
    let a = ChangeEvent::new("watch-1", "carddav", "/addressbooks/me/", None);
    let b = ChangeEvent::new("watch-1", "carddav", "/addressbooks/me/", None);
    assert_eq!(a.id.len(), 32);
    assert!(a.id.chars().all(|c| c.is_ascii_hexdigit() && !c.is_ascii_uppercase()));
    assert_ne!(a.id, b.id);
    assert!(a.ts >= 1_600_000_000);
    assert_eq!(a.account, "watch-1");
    assert_eq!(a.source, "carddav");
    assert_eq!(a.target, "/addressbooks/me/");
    assert_eq!(a.state, None);
}

#[test]
fn a_retry_clone_keeps_id_and_timestamp() {
    let ev = ChangeEvent::new("w", "imap", "INBOX", Some("1:2".into()));
    let retry = ev.clone();
    assert_eq!(retry.id, ev.id);
    assert_eq!(retry.ts, ev.ts);
}

#[test]
fn clock_readings_map_to_timestamps() {
    assert_eq!(secs_from_clock(None), 0);
    assert_eq!(secs_from_clock(Some(5)), 5);
    assert_eq!(secs_from_clock(Some(i64::MAX as u64)), i64::MAX);
    assert_eq!(secs_from_clock(Some(u64::MAX)), i64::MAX);
    assert!(now_secs() > 1_600_000_000);
}
