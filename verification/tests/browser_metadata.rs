use kitsupin::browser_metadata::protocol::{answer_line, socket_path, LineReply};
use kitsupin::browser_metadata::{
    get_last_browser_copy_metadata_at, get_last_extension_handshake_at, get_last_message_at,
    is_handshake_active, is_handshake_active_at, record_copy_metadata_received,
    record_copy_metadata_received_at, record_extension_handshake_received,
    record_extension_handshake_received_at, BrowserActivity, BrowserCopyEvent, ClipUpsertReceipt,
    EventError, MetadataBuffer, RECEIPT_MATCH_WINDOW_MS,
};
use kitsupin::clock::Moment;
use kitsupin::native_host::handle;
use kitsupin::persistence::Repository;

fn uuid() -> u128 {
    uuid::Uuid::new_v4().as_u128()
}

fn moment(at: chrono::DateTime<chrono::Utc>) -> Moment {
    Moment { secs: at.timestamp(), nanos: at.timestamp_subsec_nanos() }
}

fn event(hash: &str, at: chrono::DateTime<chrono::Utc>) -> BrowserCopyEvent {
    BrowserCopyEvent {
        event_id: uuid(),
        version: 1,
        event: "copy".to_owned(),
        content_hash: hash.to_owned(),
        content_length: 5,
        domain: "example.com".to_owned(),
        page_title: "Title".to_owned(),
        timestamp: at.to_rfc3339(),
    }
}

fn receipt(clip_id: &str, hash: &str, length: usize, at: i64) -> ClipUpsertReceipt {
    ClipUpsertReceipt {
        receipt_id: uuid(),
        clip_id: clip_id.to_owned(),
        content_hash: hash.to_owned(),
        normalized_length_bytes: length,
        previous_last_copied_at: None,
        previous_sort_key: None,
        previous_copy_count: 0,
        previous_content: None,
        resulting_last_copied_at: at,
        resulting_sort_key: 1,
        resulting_copy_count: 1,
        copy_timestamp: at,
    }
}

#[test]
fn validates_messages_and_matches_reliably() {
    let mut b = MetadataBuffer::default();
    let now = chrono::Utc::now();
    let mut e = event(&"a".repeat(64), now);
    e.domain = "WWW.Example.COM.".to_owned();
    e.page_title = " Page ".to_owned();
    b.push(e).unwrap();
    assert!(b.take_match(&"b".repeat(64), 5, moment(now)).is_none());
    let found = b.take_match(&"a".repeat(64), 5, moment(now)).unwrap();
    assert_eq!(found.domain, "example.com");
    assert_eq!(found.page_title, "Page");
}

#[test]
fn receipt_matching_uses_timestamp_delta_and_picks_closest() {
    let mut b = MetadataBuffer::default();
    let hash = "a".repeat(64);
    let now_ms = chrono::Utc::now().timestamp_millis();

    let mut r1 = receipt("clip_1", &hash, 10, now_ms - 1500);
    r1.previous_last_copied_at = Some(now_ms - 5000);
    r1.previous_sort_key = Some(10);
    r1.previous_copy_count = 1;
    r1.resulting_sort_key = 11;
    r1.resulting_copy_count = 2;

    let mut r2 = receipt("clip_2", &hash, 10, now_ms - 300);
    r2.previous_last_copied_at = Some(now_ms - 3000);
    r2.previous_sort_key = Some(20);
    r2.previous_copy_count = 1;
    r2.resulting_sort_key = 21;
    r2.resulting_copy_count = 2;

    b.push_receipt(&hash, 10, r1);
    b.push_receipt(&hash, 10, r2);

    let matched = b
        .take_matching_receipt(&hash, 10, now_ms - 200, RECEIPT_MATCH_WINDOW_MS)
        .expect("should match r2");
    assert_eq!(matched.clip_id, "clip_2");

    let matched2 = b
        .take_matching_receipt(&hash, 10, now_ms - 1400, RECEIPT_MATCH_WINDOW_MS)
        .expect("should match r1");
    assert_eq!(matched2.clip_id, "clip_1");
}

#[test]
fn rejects_unknown_protocol() {
    let now = chrono::Utc::now();
    let mut e = event(&"a".repeat(64), now);
    e.event = "exec".to_owned();
    e.content_length = 1;
    e.page_title = "x".to_owned();
    assert!(e.validate().is_err());
}

#[test]
fn every_fault_of_an_event_is_told() {
    let now = chrono::Utc::now();
    let good = event(&"a".repeat(64), now);
    assert!(good.clone().validate().is_ok());
    let mut e = good.clone();
    e.version = 2;
    assert_eq!(e.validate().err(), Some(EventError::Unsupported));
    let mut e = good.clone();
    e.content_hash = "short".to_owned();
    assert_eq!(e.validate().err(), Some(EventError::BadHash));
    let mut e = good.clone();
    e.content_length = 1_000_001;
    assert_eq!(e.validate().err(), Some(EventError::TooLong));
    let mut e = good.clone();
    e.domain = "https://example.com".to_owned();
    assert_eq!(e.validate().err(), Some(EventError::BadDomain));
    let mut e = good.clone();
    e.timestamp = "soon".to_owned();
    assert_eq!(e.validate().err(), Some(EventError::BadTimestamp));
    let mut e = good;
    e.event_id = 0;
    assert_ne!(e.validate().unwrap().event_id, 0);
}

#[test]
fn reservation_locks_both_event_and_receipt_and_blocks_take_match() {
    let mut b = MetadataBuffer::default();
    let hash = "a".repeat(64);
    let now = chrono::Utc::now();
    let now_ms = now.timestamp_millis();

    let e = event(&hash, now);
    let r = receipt("clip_1", &hash, 5, now_ms);
    let (event_id, receipt_id) = (e.event_id, r.receipt_id);

    b.push(e).unwrap();
    b.push_receipt(&hash, 5, r);

    let (reserved_event, reserved_receipt) =
        b.reserve_matching_pair(RECEIPT_MATCH_WINDOW_MS).expect("should reserve pair");
    assert_eq!(reserved_event.event_id, event_id);
    assert_eq!(reserved_receipt.receipt_id, receipt_id);

    assert!(b.take_match(&hash, 5, moment(now)).is_none());

    assert!(b.reserve_matching_pair(RECEIPT_MATCH_WINDOW_MS).is_none());

    b.release_event(event_id);
    let matched = b.take_match(&hash, 5, moment(now)).expect("should take match after release");
    assert_eq!(matched.event_id, event_id);
}

#[test]
fn unreserving_event_keeps_it_for_next_receipt_on_stale_receipt_cleanup() {
    let mut b = MetadataBuffer::default();
    let hash = "a".repeat(64);
    let now = chrono::Utc::now();
    let now_ms = now.timestamp_millis();

    let e = event(&hash, now);
    let event_id = e.event_id;
    let r_stale = receipt("clip_stale", &hash, 5, now_ms - 100);

    b.push(e).unwrap();
    b.push_receipt(&hash, 5, r_stale);

    let (reserved_event, reserved_receipt) =
        b.reserve_matching_pair(RECEIPT_MATCH_WINDOW_MS).unwrap();

    b.remove_receipt(reserved_receipt.receipt_id);
    b.release_event(reserved_event.event_id);

    let mut r_fresh = receipt("clip_fresh", &hash, 5, now_ms);
    r_fresh.resulting_sort_key = 2;
    let fresh_id = r_fresh.receipt_id;
    b.push_receipt(&hash, 5, r_fresh);

    let (e2, r2) = b.reserve_matching_pair(RECEIPT_MATCH_WINDOW_MS).unwrap();
    assert_eq!(e2.event_id, event_id);
    assert_eq!(r2.receipt_id, fresh_id);
}

fn parse(line: &str) -> Option<BrowserCopyEvent> {
    let value: serde_json::Value = serde_json::from_str(line).ok()?;
    let text = |key: &str| value.get(key).and_then(|v| v.as_str()).map(|v| v.to_owned());
    Some(BrowserCopyEvent {
        event_id: text("eventId")
            .and_then(|id| uuid::Uuid::parse_str(&id).ok())
            .map_or(0, |id| id.as_u128()),
        version: value.get("version")?.as_u64()? as u8,
        event: text("event")?,
        content_hash: text("contentHash")?,
        content_length: value.get("contentLength")?.as_u64()? as usize,
        domain: text("domain")?,
        page_title: text("pageTitle")?,
        timestamp: text("timestamp")?,
    })
}

fn copy_line(hash: &str) -> String {
    format!(
        r#"{{"eventId":"{}","version":1,"event":"copy","contentHash":"{hash}","contentLength":10,"domain":"example.com","pageTitle":"Test","timestamp":"{}"}}"#,
        uuid::Uuid::new_v4(),
        chrono::Utc::now().to_rfc3339()
    )
}

#[test]
fn copy_event_activates_connection_status_and_socket_acknowledges() {
    let mut buffer = MetadataBuffer::default();
    let mut repo = Repository::open_in_memory();
    assert!(!is_handshake_active(buffer.activity()));

    let status = format!(
        r#"{{"version":1,"event":"status","timestamp":"{}"}}"#,
        chrono::Utc::now().to_rfc3339()
    );
    let (reply, _) = answer_line(&mut buffer, &mut repo, &status, || parse(&status));
    let answer: serde_json::Value = serde_json::from_str(reply.answer().unwrap()).unwrap();
    assert_eq!(answer.get("ok").and_then(|v| v.as_bool()), Some(true));
    assert_eq!(answer.get("accepted").and_then(|v| v.as_bool()), Some(true));

    let copy = copy_line(&"a".repeat(64));
    let (reply, _) = answer_line(&mut buffer, &mut repo, &copy, || parse(&copy));
    let answer: serde_json::Value = serde_json::from_str(reply.answer().unwrap()).unwrap();
    assert_eq!(answer.get("ok").and_then(|v| v.as_bool()), Some(true));
    assert_eq!(answer.get("accepted").and_then(|v| v.as_bool()), Some(true));

    assert!(is_handshake_active(buffer.activity()));
    assert!(get_last_extension_handshake_at(buffer.activity()).is_some());
    assert!(get_last_browser_copy_metadata_at(buffer.activity()).is_some());
}

#[test]
fn socket_server_rejects_invalid_copy_payload() {
    let mut buffer = MetadataBuffer::default();
    let mut repo = Repository::open_in_memory();
    let invalid = copy_line("short");
    let (reply, _) = answer_line(&mut buffer, &mut repo, &invalid, || parse(&invalid));
    assert_eq!(reply, LineReply::ValidationFailed);
    let answer: serde_json::Value = serde_json::from_str(reply.answer().unwrap()).unwrap();
    assert_eq!(answer.get("ok").and_then(|v| v.as_bool()), Some(false));
}

#[test]
fn other_lines_are_refused_or_passed_over() {
    let mut buffer = MetadataBuffer::default();
    let mut repo = Repository::open_in_memory();
    let mut answer = |line: &str| answer_line(&mut buffer, &mut repo, line, || parse(line)).0;
    assert_eq!(answer("no json"), LineReply::Silence);
    assert_eq!(answer("{\"event\":\"exec\"}"), LineReply::UnknownEvent);
    assert_eq!(answer("[1]"), LineReply::UnknownEvent);
    assert_eq!(answer("{\"event\":\"copy\"}"), LineReply::InvalidPayload);
    assert_eq!(answer(&" ".repeat(16_385)), LineReply::Stop);
    assert_eq!(LineReply::Silence.answer(), None);
    assert_eq!(socket_path("/d"), "/d/native.sock");
}

#[test]
fn signs_of_life_count_for_a_while() {
    let mut activity = BrowserActivity::default();
    assert_eq!(get_last_message_at(&activity), None);
    record_extension_handshake_received_at(&mut activity, 1_000);
    record_copy_metadata_received_at(&mut activity, 2_000);
    assert_eq!(get_last_message_at(&activity), Some(2_000));
    assert!(is_handshake_active_at(&activity, 47_000));
    assert!(!is_handshake_active_at(&activity, 47_001));
}

#[test]
fn stale_items_are_cleaned_up_unless_reserved() {
    let mut b = MetadataBuffer::default();
    let hash = "a".repeat(64);
    let now = chrono::Utc::now();
    let now_ms = now.timestamp_millis();
    b.push(event(&hash, now)).unwrap();
    b.push_receipt(&hash, 5, receipt("clip", &hash, 5, now_ms));
    let (e, r) = b.reserve_matching_pair(RECEIPT_MATCH_WINDOW_MS).unwrap();
    b.cleanup_stale(now_ms + 60_000);
    b.release_event(e.event_id);
    b.release_receipt(r.receipt_id);
    assert!(b.reserve_matching_pair(RECEIPT_MATCH_WINDOW_MS).is_some());
    b.acknowledge_pair(e.event_id, r.receipt_id);
    assert!(b.reserve_matching_pair(RECEIPT_MATCH_WINDOW_MS).is_none());
    b.push_receipt(&hash, 5, receipt("clip", &hash, 5, now_ms));
    b.cleanup_stale(now_ms + 10_001);
    assert!(b.take_matching_receipt(&hash, 5, now_ms, RECEIPT_MATCH_WINDOW_MS).is_none());
}

#[test]
fn a_passed_on_report_is_accepted() {
    let mut buffer = MetadataBuffer::default();
    let mut repo = Repository::open_in_memory();
    let sent = std::cell::RefCell::new(String::new());
    let message = format!(" {} ", copy_line(&"b".repeat(64)));
    let passed = handle(
        Some(message.as_str()),
        Some("/s"),
        |_: &str| Some(()),
        |_: (), line: &str| {
            sent.borrow_mut().push_str(line);
            true
        },
    );
    assert_eq!(passed, Ok(()));
    let line = sent.borrow().trim_end_matches('\n').to_owned();
    assert_ne!(line, message);
    let (reply, _) = answer_line(&mut buffer, &mut repo, &line, || parse(&line));
    assert_eq!(reply, LineReply::Accepted);
}

#[test]
fn what_is_recorded_now_is_recent() {
    let unset = BrowserActivity { extension_handshake_at: -1, copy_metadata_at: -1 };
    let mut greeted = unset;
    record_extension_handshake_received(&mut greeted);
    assert!(greeted.extension_handshake_at > 0);
    assert_eq!(greeted.copy_metadata_at, -1);
    assert!(is_handshake_active(&greeted));
    let mut reported = unset;
    record_copy_metadata_received(&mut reported);
    assert!(reported.copy_metadata_at > 0);
    assert_eq!(reported.extension_handshake_at, -1);
    assert!(is_handshake_active(&reported));
}
