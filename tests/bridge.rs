use companion_core::bridge::{is_ingestion_route, Delivery, Incoming, IngestionBridge, Reply};
use companion_core::records::Person;

const NOW: i64 = 1_700_000_000_000;

fn record(referral: i32) -> Person {
    Person {
        person_guid: "g".to_string(),
        first_name: Some("A".to_string()),
        last_name: Some("B".to_string()),
        referral_status_id: Some(referral),
        person_status_id: Some(1),
        zone_name: Some("West".to_string()),
        area_name: Some("Downtown".to_string()),
        find_id: Some(7),
        referral_assigned_date: Some(NOW),
    }
}

fn respond_parts(r: Reply) -> (u16, String) {
    match r {
        Reply::Respond { status, text } => (status, text),
        _ => panic!("expected a response"),
    }
}

#[test]
fn route_is_post_receive() {
    assert!(is_ingestion_route("POST", "/receive"));
    assert!(!is_ingestion_route("GET", "/receive"));
    assert!(!is_ingestion_route("POST", "/receive/"));
    assert!(!is_ingestion_route("post", "/receive"));
    assert!(!is_ingestion_route("POST", "/"));
}

#[test]
fn invalid_payload_then_valid_then_closed() {
    let mut b = IngestionBridge::new();
    assert!(!b.is_completed());
    assert_eq!(respond_parts(b.handle(Incoming::Ingest(Delivery::Malformed), NOW)), (400, "Invalid MsgPack".to_string()));
    assert!(!b.is_completed());
    match b.handle(Incoming::Ingest(Delivery::Batch(vec![record(10), record(20)])), NOW) {
        Reply::Deliver { status, text, payload } => {
            assert_eq!(status, 200);
            assert_eq!(text, "OK");
            assert_eq!(payload.names("West", "Downtown").cloned(), Some(vec!["AB\u{2757}".to_string(), "AB".to_string()]));
        },
        _ => panic!("expected a delivery"),
    }
    assert!(b.is_completed());
    assert!(matches!(b.handle(Incoming::Ingest(Delivery::Batch(vec![record(10)])), NOW), Reply::Closed));
    assert!(matches!(b.handle(Incoming::Ingest(Delivery::Malformed), NOW), Reply::Closed));
    assert!(matches!(b.handle(Incoming::OtherRoute, NOW), Reply::Closed));
}

#[test]
fn other_routes_get_not_found() {
    let mut b = IngestionBridge::new();
    assert_eq!(respond_parts(b.handle(Incoming::OtherRoute, NOW)), (404, "Not Found".to_string()));
    assert!(!b.is_completed());
}

#[test]
fn unreadable_body_gets_bad_request() {
    let mut b = IngestionBridge::new();
    assert_eq!(respond_parts(b.handle(Incoming::Ingest(Delivery::Unreadable), NOW)), (400, "Bad Request".to_string()));
    assert!(!b.is_completed());
}

#[test]
fn empty_batch_still_completes() {
    let mut b = IngestionBridge::new();
    match b.handle(Incoming::Ingest(Delivery::Batch(Vec::new())), NOW) {
        Reply::Deliver { payload, .. } => assert!(payload.zones().is_empty()),
        _ => panic!("expected a delivery"),
    }
    assert!(b.is_completed());
}
