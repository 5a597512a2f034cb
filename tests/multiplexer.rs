use xenstore_rs::client::{directory_response, read_response};
use xenstore_rs::multiplexer::{
    XsTokioMessage, XsTokioOutcome, XsTokioRequest, XsTokioState, MAX_REQUEST_COUNT,
};
use xenstore_rs::{XsErrorKind, XsMessage, XsMessageType, XsWatchToken};

type Mux = XsTokioState<u32, u32, u32>;

/// Bytes on the wire in both directions, so that every message passes the codec.
fn over_the_wire(m: &XsMessage) -> XsMessage {
    let mut bytes = Vec::new();
    m.write_to(&mut bytes).unwrap();
    XsMessage::read_from(&bytes).unwrap()
}

fn request(mux: &mut Mux, msg: XsMessage, waiter: u32) -> XsMessage {
    let sent = mux
        .process_message(XsTokioMessage::Request(XsTokioRequest { request: msg, response_sender: waiter }))
        .unwrap();
    over_the_wire(&sent)
}

fn answer(msg_type: XsMessageType, request_id: u32, payload: &[u8]) -> XsMessage {
    over_the_wire(&XsMessage { msg_type, request_id, payload: payload.to_vec() })
}

fn expect_reply(mux: &mut Mux, response: XsMessage) -> (u32, XsMessage) {
    match mux.process_response(response) {
        Ok(XsTokioOutcome::Reply(waiter, m)) => (waiter, m),
        _ => panic!("expected a reply"),
    }
}

fn subscribe(mux: &mut Mux, path: &str, sink: u32, result: u32) -> (XsMessage, String) {
    let sent = mux
        .process_message(XsTokioMessage::WatchSubscribe {
            path: path.to_string(),
            event_sender: sink,
            result_channel: result,
        })
        .unwrap();
    let seen = over_the_wire(&sent);
    assert_eq!(seen.msg_type, XsMessageType::Watch);
    let parts: Vec<String> = seen.parse_payload_list().unwrap().iter().map(|s| s.to_string()).collect();
    assert_eq!(parts.len(), 2);
    assert_eq!(parts[0], path);
    (seen, parts[1].clone())
}

fn confirm(mux: &mut Mux, watch: &XsMessage) -> (u32, XsWatchToken) {
    match mux.process_response(answer(XsMessageType::Watch, watch.request_id, b"OK\0")) {
        Ok(XsTokioOutcome::WatchConfirmed(result, token)) => (result, token),
        _ => panic!("expected a confirmed watch"),
    }
}

fn event(path: &str, token: &str) -> XsMessage {
    let payload = format!("{path}\0{token}\0");
    answer(XsMessageType::WatchEvent, 0, payload.as_bytes())
}

#[test]
fn read_hit() {
    let mut mux = Mux::new();
    let seen = request(&mut mux, XsMessage::from_string(XsMessageType::Read, 0, "/foo"), 1);
    assert_eq!(seen.msg_type, XsMessageType::Read);
    assert_eq!(seen.payload, b"/foo\0".to_vec());
    let (waiter, response) = expect_reply(&mut mux, answer(XsMessageType::Read, seen.request_id, b"bar\0"));
    assert_eq!(waiter, 1);
    assert_eq!(read_response(response).unwrap(), "bar");
}

#[test]
fn read_missing() {
    let mut mux = Mux::new();
    let seen = request(&mut mux, XsMessage::from_string(XsMessageType::Read, 0, "/foo"), 1);
    let (waiter, response) = expect_reply(&mut mux, answer(XsMessageType::Error, seen.request_id, b"ENOENT\0"));
    assert_eq!(waiter, 1);
    let e = read_response(response).unwrap_err();
    assert_eq!(e.kind, XsErrorKind::NotFound);
    assert!(e.message.contains("ENOENT"));
}

#[test]
fn directory_listing() {
    let mut mux = Mux::new();
    let seen = request(&mut mux, XsMessage::from_string(XsMessageType::Directory, 0, "/"), 4);
    let (waiter, response) =
        expect_reply(&mut mux, answer(XsMessageType::Directory, seen.request_id, b"a\0b\0c\0"));
    assert_eq!(waiter, 4);
    assert_eq!(directory_response(response).unwrap(), vec!["a", "b", "c"]);
}

#[test]
fn concurrent_reads() {
    let mut mux = Mux::new();
    let x = request(&mut mux, XsMessage::from_string(XsMessageType::Read, 0, "/x"), 10);
    let y = request(&mut mux, XsMessage::from_string(XsMessageType::Read, 0, "/y"), 20);
    assert_ne!(x.request_id, y.request_id);
    let (wy, ry) = expect_reply(&mut mux, answer(XsMessageType::Read, y.request_id, b"value-y\0"));
    let (wx, rx) = expect_reply(&mut mux, answer(XsMessageType::Read, x.request_id, b"value-x\0"));
    assert_eq!((wx, read_response(rx).unwrap().as_str()), (10, "value-x"));
    assert_eq!((wy, read_response(ry).unwrap().as_str()), (20, "value-y"));
}

#[test]
fn watch_roundtrip() {
    let mut mux = Mux::new();
    let (watch, token_text) = subscribe(&mut mux, "/n", 5, 6);
    let (result, token) = confirm(&mut mux, &watch);
    assert_eq!(result, 6);
    assert_eq!(token_text, uuid::Uuid::from_u128(token.0).to_string());
    for path in ["/n/a", "/n/b"] {
        match mux.process_response(event(path, &token_text)) {
            Ok(XsTokioOutcome::WatchEvent(t, p)) => {
                assert_eq!(t, token);
                assert_eq!(p, path);
                assert_eq!(mux.watch_sink(t), Some(&5));
            },
            _ => panic!("expected a watch event"),
        }
    }
}

#[test]
fn watch_drop() {
    let mut mux = Mux::new();
    let (watch, token_text) = subscribe(&mut mux, "/n", 5, 6);
    let (_, token) = confirm(&mut mux, &watch);
    let sent = mux.process_message(XsTokioMessage::WatchUnsubscribe(token)).unwrap();
    let seen = over_the_wire(&sent);
    assert_eq!(seen.msg_type, XsMessageType::Unwatch);
    assert_eq!(seen.parse_payload_list().unwrap(), vec!["/n", token_text.as_str()]);
    match mux.process_response(answer(XsMessageType::Unwatch, seen.request_id, b"OK\0")) {
        Ok(XsTokioOutcome::Unwatched(t)) => assert_eq!(t, token),
        _ => panic!("expected an unwatch"),
    }
    assert_eq!(mux.watch_sink(token), None);
}

#[test]
fn request_ids_are_distinct_and_reused() {
    let mut mux = Mux::new();
    let mut ids = Vec::new();
    for i in 0..MAX_REQUEST_COUNT as u32 {
        assert!(!mux.is_full());
        let seen = request(&mut mux, XsMessage::from_string(XsMessageType::Read, 99, "/k"), i);
        ids.push(seen.request_id);
    }
    assert_eq!(ids, (0..MAX_REQUEST_COUNT as u32).collect::<Vec<_>>());
    assert!(mux.is_full());
    let e = mux
        .process_message(XsTokioMessage::Request(XsTokioRequest {
            request: XsMessage::from_string(XsMessageType::Read, 0, "/k"),
            response_sender: 100,
        }))
        .unwrap_err()
        .0;
    assert_eq!(e.kind, XsErrorKind::Other);
    let (waiter, _) = expect_reply(&mut mux, answer(XsMessageType::Read, 5, b"v\0"));
    assert_eq!(waiter, 5);
    assert!(!mux.is_full());
    let seen = request(&mut mux, XsMessage::from_string(XsMessageType::Read, 0, "/k"), 101);
    assert_eq!(seen.request_id, 5);
    assert!(mux.is_full());
}

#[test]
fn answers_must_name_a_pending_request() {
    let mut mux = Mux::new();
    assert!(mux.process_response(answer(XsMessageType::Read, 0, b"")).is_err());
    assert!(mux.process_response(answer(XsMessageType::Read, 32, b"")).is_err());
    let seen = request(&mut mux, XsMessage::from_string(XsMessageType::Read, 0, "/k"), 1);
    expect_reply(&mut mux, answer(XsMessageType::Read, seen.request_id, b""));
    assert!(mux.process_response(answer(XsMessageType::Read, seen.request_id, b"")).is_err());
}

#[test]
fn responses_of_another_kind_reach_the_waiter() {
    let mut mux = Mux::new();
    let seen = request(&mut mux, XsMessage::from_string(XsMessageType::Read, 0, "/k"), 1);
    let (_, response) = expect_reply(&mut mux, answer(XsMessageType::Write, seen.request_id, b""));
    assert_eq!(read_response(response).unwrap_err().kind, XsErrorKind::InvalidData);
}

#[test]
fn oversized_request_takes_no_slot() {
    let mut mux = Mux::new();
    let big = "x".repeat(5000);
    let (e, back) = mux
        .process_message(XsTokioMessage::Request(XsTokioRequest {
            request: XsMessage::from_string(XsMessageType::Write, 0, &big),
            response_sender: 1,
        }))
        .unwrap_err();
    assert_eq!(e.kind, XsErrorKind::InvalidData);
    match back {
        XsTokioMessage::Request(r) => {
            assert_eq!(r.response_sender, 1);
            assert_eq!(r.request.payload.len(), 5001);
        },
        _ => panic!("expected the request back"),
    }
    let seen = request(&mut mux, XsMessage::from_string(XsMessageType::Read, 0, "/k"), 2);
    assert_eq!(seen.request_id, 0);
}

#[test]
fn oversized_watch_path_is_refused() {
    let mut mux = Mux::new();
    let e = mux
        .process_message(XsTokioMessage::WatchSubscribe {
            path: "p".repeat(4096),
            event_sender: 1,
            result_channel: 2,
        })
        .unwrap_err()
        .0;
    assert_eq!(e.kind, XsErrorKind::InvalidData);
    assert!(!mux.is_full());
}

#[test]
fn watch_tokens_are_unique() {
    let mut mux = Mux::new();
    let mut tokens = std::collections::HashSet::new();
    let mut pending = Vec::new();
    for i in 0..MAX_REQUEST_COUNT as u32 {
        let (watch, text) = subscribe(&mut mux, &format!("/w/{i}"), i, i);
        assert!(tokens.insert(text));
        pending.push(watch);
    }
    for watch in &pending {
        confirm(&mut mux, watch);
    }
    for i in 0..MAX_REQUEST_COUNT as u32 {
        let (_, text) = subscribe(&mut mux, &format!("/v/{i}"), i, i);
        assert!(tokens.insert(text));
    }
    assert_eq!(tokens.len(), 2 * MAX_REQUEST_COUNT);
}

#[test]
fn refused_watch_reports_the_error() {
    let mut mux = Mux::new();
    let (watch, _) = subscribe(&mut mux, "/n", 5, 6);
    match mux.process_response(answer(XsMessageType::Error, watch.request_id, b"EACCES\0")) {
        Ok(XsTokioOutcome::WatchRefused(result, e)) => {
            assert_eq!(result, 6);
            assert_eq!(e.kind, XsErrorKind::PermissionDenied);
            assert_eq!(e.message, "EACCES");
        },
        _ => panic!("expected a refused watch"),
    }
    let (watch, _) = subscribe(&mut mux, "/n", 5, 7);
    match mux.process_response(answer(XsMessageType::Read, watch.request_id, b"")) {
        Ok(XsTokioOutcome::WatchViolation(result, e)) => {
            assert_eq!(result, 7);
            assert_eq!(e.kind, XsErrorKind::InvalidData);
        },
        _ => panic!("expected a protocol violation"),
    }
    assert!(!mux.is_full());
}

#[test]
fn events_before_confirmation_are_unknown() {
    let mut mux = Mux::new();
    let (_, text) = subscribe(&mut mux, "/n", 5, 6);
    match mux.process_response(event("/n", &text)) {
        Ok(XsTokioOutcome::UnknownWatch(t)) => assert_eq!(uuid::Uuid::from_u128(t.0).to_string(), text),
        _ => panic!("expected an unknown watch"),
    }
}

#[test]
fn malformed_events_are_refused() {
    let mut mux = Mux::new();
    let e = mux.process_response(event("/n", "not-a-uuid")).err().unwrap();
    assert_eq!(e.kind, XsErrorKind::InvalidData);
    let e = mux.process_response(answer(XsMessageType::WatchEvent, 0, b"/n\0")).err().unwrap();
    assert_eq!(e.kind, XsErrorKind::InvalidData);
    let e = mux.process_response(answer(XsMessageType::WatchEvent, 0, b"/n\0a\0b\0")).err().unwrap();
    assert_eq!(e.kind, XsErrorKind::InvalidData);
}

#[test]
fn unwatch_needs_a_confirmed_watch() {
    let mut mux = Mux::new();
    let (e, back) = mux.process_message(XsTokioMessage::WatchUnsubscribe(XsWatchToken(42))).unwrap_err();
    assert_eq!(e.kind, XsErrorKind::InvalidInput);
    assert!(matches!(back, XsTokioMessage::WatchUnsubscribe(XsWatchToken(42))));
    assert!(!mux.is_full());
}

#[test]
fn refused_unwatch_poisons_the_connection() {
    let mut mux = Mux::new();
    let (watch, _) = subscribe(&mut mux, "/n", 5, 6);
    let (_, token) = confirm(&mut mux, &watch);
    let sent = mux.process_message(XsTokioMessage::WatchUnsubscribe(token)).unwrap();
    match mux.process_response(answer(XsMessageType::Error, sent.request_id, b"EINVAL\0")) {
        Ok(XsTokioOutcome::Poisoned(e)) => {
            assert_eq!(e.kind, XsErrorKind::InvalidInput);
            assert_eq!(e.message, "EINVAL");
        },
        _ => panic!("expected a poisoned connection"),
    }
    assert_eq!(mux.watch_sink(token), Some(&5));
    assert!(!mux.is_full());
}

#[test]
fn closed_sink_is_removed() {
    let mut mux = Mux::new();
    let (watch, text) = subscribe(&mut mux, "/n", 5, 6);
    let (_, token) = confirm(&mut mux, &watch);
    mux.remove_watch(token);
    assert_eq!(mux.watch_sink(token), None);
    assert!(matches!(mux.process_response(event("/n", &text)), Ok(XsTokioOutcome::UnknownWatch(_))));
}

#[test]
fn suitable_token_is_free() {
    let mut mux = Mux::new();
    let (watch, _) = subscribe(&mut mux, "/n", 5, 6);
    let (_, token) = confirm(&mut mux, &watch);
    let fresh = mux.find_suitable_token();
    assert_ne!(fresh, token);
}

#[test]
fn unwatch_answered_wrongly_is_invalid_data() {
    let mut mux = Mux::new();
    let (watch, _) = subscribe(&mut mux, "/n", 5, 6);
    let (_, token) = confirm(&mut mux, &watch);
    let sent = mux.process_message(XsTokioMessage::WatchUnsubscribe(token)).unwrap();
    let e = mux.process_response(answer(XsMessageType::Read, sent.request_id, b"")).err().unwrap();
    assert_eq!(e.kind, XsErrorKind::InvalidData);
}

#[test]
fn watch_payload_has_the_canonical_token_text() {
    let mut mux = Mux::new();
    let (watch, text) = subscribe(&mut mux, "/n", 5, 6);
    assert_eq!(text.len(), 36);
    for (i, c) in text.chars().enumerate() {
        if [8, 13, 18, 23].contains(&i) {
            assert_eq!(c, '-');
        } else {
            assert!(c.is_ascii_hexdigit() && !c.is_ascii_uppercase());
        }
    }
    assert_eq!(watch.payload.len(), "/n".len() + 38);
    let (_, token) = confirm(&mut mux, &watch);
    assert_eq!(u128::from_str_radix(&text.replace('-', ""), 16).unwrap(), token.0);
}
