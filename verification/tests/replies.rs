use clearcore::controller::clear_core::{check_reply, reply_end, Error, ErrorKind};
use clearcore::controller::motor::{decode_position, decode_status, Status};

#[test]
fn accepted_reply() {
    assert!(check_reply(b"\x02M1E\0").is_ok());
    assert!(check_reply(b"\x02M10\0").is_ok());
    assert!(check_reply(b"abcd").is_ok());
    assert!(check_reply(b"???!").is_ok());
}

#[test]
fn rejected_reply_carries_its_text() {
    let reply = b"\x02M1?\0";
    let e = check_reply(reply).unwrap_err();
    assert_eq!(e.kind, ErrorKind::CommandRejected);
    assert_eq!(e.message, "\u{2}M1?\0");
    assert_eq!(e.to_string(), "\u{2}M1?\0");

    let e = check_reply(b"abc?defg").unwrap_err();
    assert_eq!(e.kind, ErrorKind::CommandRejected);
    assert_eq!(e.message, "abc?defg");
}

#[test]
fn rejected_reply_with_wide_characters() {
    let text = "\u{e9}1?\u{20ac}";
    assert_eq!(text.as_bytes()[3], b'?');
    let e = check_reply(text.as_bytes()).unwrap_err();
    assert_eq!(e.kind, ErrorKind::CommandRejected);
    assert_eq!(e.message, text);
}

#[test]
fn rejected_reply_that_is_no_text() {
    let reply: [u8; 5] = [0xff, b'M', b'1', b'?', 0];
    let e = check_reply(reply.as_slice()).unwrap_err();
    assert_eq!(e.kind, ErrorKind::CommandRejected);
    let fault = std::str::from_utf8(reply.as_slice()).unwrap_err();
    assert_eq!(e.message, fault.to_string());
}

#[test]
fn short_reply_is_malformed() {
    for reply in [&b""[..], &b"\0"[..], &b"\x02M"[..], &b"???"[..]] {
        let e = check_reply(reply).unwrap_err();
        assert_eq!(e.kind, ErrorKind::MalformedReply);
        assert_eq!(e.message, "malformed reply");
    }
}

#[test]
fn status_table() {
    assert_eq!(decode_status(b"\x02M10\0").unwrap(), Status::Disabled);
    assert_eq!(decode_status(b"\x02M11\0").unwrap(), Status::Enabling);
    assert_eq!(decode_status(b"\x02M12\0").unwrap(), Status::Faulted);
    assert_eq!(decode_status(b"\x02M13\0").unwrap(), Status::Ready);
    assert_eq!(decode_status(b"\x02M14\0").unwrap(), Status::Moving);
    let reply: [u8; 4] = [2, 77, 49, 51];
    assert_eq!(decode_status(reply.as_slice()).unwrap(), Status::Ready);
}

#[test]
fn unknown_status() {
    let reply: [u8; 5] = [2, 77, 49, 53, 0];
    let e = decode_status(reply.as_slice()).unwrap_err();
    assert_eq!(e.kind, ErrorKind::UnknownStatus);
    assert_eq!(e.message, "unknown status");
    for byte in [b'/', b'5', b'9', b'A', 0u8, 255u8] {
        let reply: [u8; 5] = [2, 77, 49, byte, 0];
        let e = decode_status(reply.as_slice()).unwrap_err();
        assert_eq!(e.kind, ErrorKind::UnknownStatus);
    }
}

#[test]
fn status_of_a_faulty_reply() {
    let e = decode_status(b"\x02M1?\0").unwrap_err();
    assert_eq!(e.kind, ErrorKind::CommandRejected);
    assert_eq!(e.message, "\u{2}M1?\0");
    let e = decode_status(b"\x02M1").unwrap_err();
    assert_eq!(e.kind, ErrorKind::MalformedReply);
}

#[test]
fn position_in_counts() {
    assert_eq!(decode_position(b"\x02MGP1200\0").unwrap(), 1200);
    assert_eq!(decode_position(b"-\x02GP1200\0").unwrap(), -1200);
    assert_eq!(decode_position(b"\x02MGP\0").unwrap(), 0);
    assert_eq!(decode_position(b"\x02M1P20\0").unwrap(), 120);
    let counts = decode_position(b"\x02MGP1200\0").unwrap();
    assert_eq!((counts as f64) / 800.0, 1.5);
}

#[test]
fn position_of_a_faulty_reply() {
    let e = decode_position(b"\x02M1?12\0").unwrap_err();
    assert_eq!(e.kind, ErrorKind::CommandRejected);
    assert_eq!(e.message, "\u{2}M1?12\0");
    let e = decode_position(b"12").unwrap_err();
    assert_eq!(e.kind, ErrorKind::MalformedReply);
    assert_eq!(e.message, "malformed reply");
}

#[test]
fn position_beyond_the_machine_word() {
    let e = decode_position(b"\x02MGP99999999999999999999999999\0").unwrap_err();
    assert_eq!(e.kind, ErrorKind::MalformedReply);
    assert_eq!(e.message, "position out of range");
}

#[test]
fn transport_errors_keep_their_text() {
    let e = Error::connection("connection refused".to_string());
    assert_eq!(e.kind, ErrorKind::Connection);
    assert_eq!(e.message, "connection refused");
    assert_eq!(e.to_string(), "connection refused");
    let e = Error::io("connection reset by peer".to_string());
    assert_eq!(e.kind, ErrorKind::Io);
    assert_eq!(e.to_string(), "connection reset by peer");
}

#[test]
fn reply_ends_behind_the_first_terminator() {
    assert_eq!(reply_end(b"\x02M1E\0"), Some(5));
    assert_eq!(reply_end(b"\0"), Some(1));
    assert_eq!(reply_end(b"ab\0cd\0"), Some(3));
    assert_eq!(reply_end(b""), None);
    assert_eq!(reply_end(b"\x02M1E"), None);
}

#[test]
fn rejection_takes_either_text() {
    let e = Error::rejected(Ok("\u{2}M1?\0".to_string()));
    assert_eq!(e.kind, ErrorKind::CommandRejected);
    assert_eq!(e.message, "\u{2}M1?\0");
    let e = Error::rejected(Err("invalid utf-8 sequence of 1 bytes from index 0".to_string()));
    assert_eq!(e.kind, ErrorKind::CommandRejected);
    assert_eq!(e.message, "invalid utf-8 sequence of 1 bytes from index 0");
}
