use papyrus_network::db::{get_page_size, KeyAlreadyExistsError, RO, RW};
use papyrus_network::peer::PeerId;
use papyrus_network::session_id::{InboundSessionId, OutboundSessionId, SessionId};

#[test]
fn session_id_conversions_tag_the_kind() {
    let i: SessionId = InboundSessionId { value: 3 }.into();
    let o: SessionId = OutboundSessionId { value: 3 }.into();
    assert_eq!(i, SessionId::InboundSessionId(InboundSessionId { value: 3 }));
    assert_eq!(o, SessionId::OutboundSessionId(OutboundSessionId { value: 3 }));
    assert_ne!(i, o);
}

#[test]
fn outbound_ids_count_up_from_zero() {
    let first = OutboundSessionId::default();
    assert_eq!(first.value, 0);
    assert_eq!(first.next().value, 1);
}

#[test]
fn peer_ids_compare_by_bytes() {
    let a = PeerId::from_bytes(vec![1, 2]);
    assert!(a.same_as(&PeerId::from_bytes(vec![1, 2])));
    assert!(!a.same_as(&PeerId::from_bytes(vec![1, 3])));
    assert!(!a.same_as(&PeerId::from_bytes(vec![1, 2, 3])));
    assert_eq!(a.duplicate().bytes, vec![1, 2]);
}

#[test]
fn key_already_exists_error_keeps_debug_forms() {
    let e = KeyAlreadyExistsError::new("headers", &5u32, &"value");
    assert_eq!(e.table_name, "headers");
    assert_eq!(e.key, "5");
    assert_eq!(e.value, "\"value\"");
}

#[test]
fn transaction_markers_are_copyable() {
    let r = RO {};
    let w = RW {};
    let (r2, w2) = (r, w);
    assert_eq!(format!("{:?} {:?} {:?} {:?}", r, w, r2, w2), "RO RW RO RW");
}

#[test]
fn page_size_is_a_bounded_power_of_two() {
    assert_eq!(get_page_size(4096), 4096);
    assert_eq!(get_page_size(16384), 16384);
    assert_eq!(get_page_size(5000), 4096);
    assert_eq!(get_page_size(100), 256);
    assert_eq!(get_page_size(0), 256);
    assert_eq!(get_page_size(256), 256);
    assert_eq!(get_page_size(65536), 65536);
    assert_eq!(get_page_size(1 << 20), 65536);
    assert_eq!(get_page_size(usize::MAX), 65536);
    assert_eq!(get_page_size(65535), 32768);
}
