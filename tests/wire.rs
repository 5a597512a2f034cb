use xenstore_rs::wire::error_kind_from_name;
use xenstore_rs::{UnknownMessageType, XsErrorKind, XsMessage, XsMessageType, XENSTORE_PAYLOAD_MAX};

const ALL_KINDS: [(XsMessageType, u32); 22] = [
    (XsMessageType::Control, 0),
    (XsMessageType::Directory, 1),
    (XsMessageType::Read, 2),
    (XsMessageType::GetPerms, 3),
    (XsMessageType::Watch, 4),
    (XsMessageType::Unwatch, 5),
    (XsMessageType::TransactionStart, 6),
    (XsMessageType::TransactionEnd, 7),
    (XsMessageType::Introduce, 8),
    (XsMessageType::Release, 9),
    (XsMessageType::GetDomainPath, 10),
    (XsMessageType::Write, 11),
    (XsMessageType::Mkdir, 12),
    (XsMessageType::Rm, 13),
    (XsMessageType::SetPerms, 14),
    (XsMessageType::WatchEvent, 15),
    (XsMessageType::Error, 16),
    (XsMessageType::IsDomainIntroduced, 17),
    (XsMessageType::Resume, 18),
    (XsMessageType::SetTarget, 19),
    (XsMessageType::ResetWatches, 21),
    (XsMessageType::DirectoryPart, 22),
];

fn message(msg_type: XsMessageType, request_id: u32, payload: &[u8]) -> XsMessage {
    XsMessage { msg_type, request_id, payload: payload.to_vec() }
}

fn header(kind: u32, req: u32, tx: u32, len: u32) -> Vec<u8> {
    let mut h = Vec::new();
    h.extend_from_slice(&kind.to_ne_bytes());
    h.extend_from_slice(&req.to_ne_bytes());
    h.extend_from_slice(&tx.to_ne_bytes());
    h.extend_from_slice(&len.to_ne_bytes());
    h
}

#[test]
fn kind_numbers_follow_the_table() {
    for (kind, code) in ALL_KINDS {
        assert_eq!(u32::from(kind), code);
        assert_eq!(XsMessageType::try_from(code).unwrap(), kind);
    }
}

#[test]
fn unassigned_kind_numbers_are_refused() {
    for code in [20u32, 23, 100, u32::MAX] {
        assert!(matches!(XsMessageType::try_from(code), Err(UnknownMessageType)));
    }
}

#[test]
fn encoding_lays_out_header_then_payload() {
    let m = message(XsMessageType::Read, 7, b"/foo\0");
    let mut out = Vec::new();
    m.write_to(&mut out).unwrap();
    let mut expected = header(2, 7, 0, 5);
    expected.extend_from_slice(b"/foo\0");
    assert_eq!(out, expected);
}

#[test]
fn encoding_appends_to_what_is_there() {
    let m = message(XsMessageType::Rm, 1, b"");
    let mut out = vec![9u8, 9];
    m.write_to(&mut out).unwrap();
    assert_eq!(out.len(), 2 + 16);
    assert_eq!(&out[..2], &[9, 9]);
    assert_eq!(&out[2..], &header(13, 1, 0, 0)[..]);
}

#[test]
fn reset_watches_and_directory_part_use_their_table_numbers() {
    let mut out = Vec::new();
    message(XsMessageType::ResetWatches, 0, b"").write_to(&mut out).unwrap();
    assert_eq!(&out[..4], &21u32.to_ne_bytes());
    let mut out = Vec::new();
    message(XsMessageType::DirectoryPart, 0, b"").write_to(&mut out).unwrap();
    assert_eq!(&out[..4], &22u32.to_ne_bytes());
}

#[test]
fn every_kind_survives_a_round_trip() {
    for (kind, _) in ALL_KINDS {
        let m = message(kind, 31, b"a\0b\0");
        let mut out = Vec::new();
        m.write_to(&mut out).unwrap();
        let back = XsMessage::read_from(&out).unwrap();
        assert_eq!(back.msg_type, kind);
        assert_eq!(back.request_id, 31);
        assert_eq!(back.payload, b"a\0b\0".to_vec());
    }
}

#[test]
fn largest_payload_survives_a_round_trip() {
    let payload: Vec<u8> = (0..XENSTORE_PAYLOAD_MAX).map(|i| (i % 251) as u8).collect();
    let m = message(XsMessageType::Write, 3, &payload);
    let mut out = Vec::new();
    m.write_to(&mut out).unwrap();
    assert_eq!(out.len(), 16 + XENSTORE_PAYLOAD_MAX);
    let back = XsMessage::read_from(&out).unwrap();
    assert_eq!(back.payload, payload);
}

#[test]
fn oversized_payload_is_refused_and_nothing_is_written() {
    let m = message(XsMessageType::Write, 0, &vec![b'x'; XENSTORE_PAYLOAD_MAX + 1]);
    let mut out = vec![1u8];
    let e = m.write_to(&mut out).unwrap_err();
    assert_eq!(e.kind, XsErrorKind::InvalidData);
    assert_eq!(out, vec![1u8]);
}

#[test]
fn decoding_ignores_the_transaction_id_and_what_follows() {
    let mut bytes = header(4, 9, 77, 2);
    bytes.extend_from_slice(b"ok");
    bytes.extend_from_slice(b"trailing");
    let m = XsMessage::read_from(&bytes).unwrap();
    assert_eq!(m.msg_type, XsMessageType::Watch);
    assert_eq!(m.request_id, 9);
    assert_eq!(m.payload, b"ok".to_vec());
}

#[test]
fn truncated_header_is_an_unexpected_eof() {
    let bytes = header(2, 0, 0, 0);
    let e = XsMessage::read_from(&bytes[..15]).unwrap_err();
    assert_eq!(e.kind, XsErrorKind::UnexpectedEof);
    let e = XsMessage::read_from(&[]).unwrap_err();
    assert_eq!(e.kind, XsErrorKind::UnexpectedEof);
}

#[test]
fn truncated_payload_is_an_unexpected_eof() {
    let mut bytes = header(2, 0, 0, 4);
    bytes.extend_from_slice(b"abc");
    let e = XsMessage::read_from(&bytes).unwrap_err();
    assert_eq!(e.kind, XsErrorKind::UnexpectedEof);
}

#[test]
fn unknown_kind_is_unsupported() {
    let mut bytes = header(20, 0, 0, 1);
    bytes.push(0);
    let e = XsMessage::read_from(&bytes).unwrap_err();
    assert_eq!(e.kind, XsErrorKind::Unsupported);
}

#[test]
fn from_string_terminates_with_nul() {
    let m = XsMessage::from_string(XsMessageType::Read, 5, "/foo");
    assert_eq!(m.msg_type, XsMessageType::Read);
    assert_eq!(m.request_id, 5);
    assert_eq!(m.payload, b"/foo\0".to_vec());
    let m = XsMessage::from_string(XsMessageType::Read, 0, "");
    assert_eq!(m.payload, b"\0".to_vec());
}

#[test]
fn from_string_slice_terminates_each_string() {
    let m = XsMessage::from_string_slice(XsMessageType::Write, 2, &["/a", "value", "é"]);
    assert_eq!(m.payload, "/a\0value\0é\0".as_bytes().to_vec());
    let m = XsMessage::from_string_slice(XsMessageType::Write, 2, &[]);
    assert!(m.payload.is_empty());
}

#[test]
fn payload_string_tolerates_a_missing_nul() {
    let m = message(XsMessageType::Read, 0, b"bar\0");
    assert_eq!(m.parse_payload_str().unwrap(), Some("bar"));
    let m = message(XsMessageType::Read, 0, b"bar");
    assert_eq!(m.parse_payload_str().unwrap(), Some("bar"));
}

#[test]
fn empty_payload_holds_no_string() {
    let m = message(XsMessageType::Read, 0, b"");
    assert_eq!(m.parse_payload_str().unwrap(), None);
    let m = message(XsMessageType::Read, 0, b"\0");
    assert_eq!(m.parse_payload_str().unwrap(), Some(""));
}

#[test]
fn payload_string_must_be_utf8() {
    let m = message(XsMessageType::Read, 0, b"\xff\xfe\0");
    assert!(m.parse_payload_str().is_err());
}

#[test]
fn payload_list_splits_at_each_nul() {
    let m = message(XsMessageType::Directory, 0, b"a\0b\0c\0");
    assert_eq!(m.parse_payload_list().unwrap(), vec!["a", "b", "c"]);
}

#[test]
fn payload_list_tolerates_a_missing_last_nul() {
    let m = message(XsMessageType::Directory, 0, b"a\0b\0c");
    assert_eq!(m.parse_payload_list().unwrap(), vec!["a", "b", "c"]);
}

#[test]
fn payload_list_keeps_empty_strings() {
    let m = message(XsMessageType::Directory, 0, b"a\0\0b\0");
    assert_eq!(m.parse_payload_list().unwrap(), vec!["a", "", "b"]);
    let m = message(XsMessageType::Directory, 0, b"");
    assert!(m.parse_payload_list().unwrap().is_empty());
}

#[test]
fn payload_list_must_be_utf8() {
    let m = message(XsMessageType::Directory, 0, b"a\0\xff\0");
    assert!(m.parse_payload_list().is_err());
}

#[test]
fn string_list_round_trip() {
    let lists: [&[&str]; 4] = [&["one"], &["a", "b", "c"], &["", "x"], &["dé", "ünï", "/local/domain/0"]];
    for list in lists {
        let m = XsMessage::from_string_slice(XsMessageType::Directory, 0, list);
        assert_eq!(m.parse_payload_list().unwrap(), list.to_vec());
        let mut shorter = m.clone();
        shorter.payload.pop();
        assert_eq!(shorter.parse_payload_list().unwrap(), list.to_vec());
    }
}

#[test]
fn error_names_map_to_their_kinds() {
    let table = [
        ("EINVAL", XsErrorKind::InvalidInput),
        ("ENOTEMPTY", XsErrorKind::InvalidInput),
        ("EACCES", XsErrorKind::PermissionDenied),
        ("EPERM", XsErrorKind::PermissionDenied),
        ("EROFS", XsErrorKind::PermissionDenied),
        ("EEXIST", XsErrorKind::AlreadyExists),
        ("EISDIR", XsErrorKind::AlreadyExists),
        ("EBUSY", XsErrorKind::AlreadyExists),
        ("ENOENT", XsErrorKind::NotFound),
        ("ENOMEM", XsErrorKind::OutOfMemory),
        ("ENOSPC", XsErrorKind::OutOfMemory),
        ("ENOSYS", XsErrorKind::Unsupported),
        ("EAGAIN", XsErrorKind::WouldBlock),
        ("EISCONN", XsErrorKind::AddrInUse),
        ("E2BIG", XsErrorKind::InvalidData),
        ("EIO", XsErrorKind::Other),
        ("EWHATEVER", XsErrorKind::Other),
        ("", XsErrorKind::Other),
        ("ENOENTX", XsErrorKind::Other),
    ];
    for (name, kind) in table {
        assert_eq!(error_kind_from_name(name), kind, "{name}");
        let mut payload = name.as_bytes().to_vec();
        payload.push(0);
        let e = message(XsMessageType::Error, 0, &payload).parse_error();
        assert_eq!(e.kind, kind, "{name}");
        assert!(e.message.contains(name));
    }
}

#[test]
fn unreadable_error_payload_is_other() {
    let e = message(XsMessageType::Error, 0, b"").parse_error();
    assert_eq!(e.kind, XsErrorKind::Other);
    let e = message(XsMessageType::Error, 0, b"\xff\0").parse_error();
    assert_eq!(e.kind, XsErrorKind::Other);
}

#[test]
fn header_announces_the_payload_length() {
    let m = message(XsMessageType::Write, 1, b"/a\0b\0");
    let mut out = Vec::new();
    m.write_to(&mut out).unwrap();
    assert_eq!(XsMessage::payload_len(&out[..16]), 5);
    assert_eq!(XsMessage::payload_len(&header(0, 0, 0, 4096)), 4096);
}
