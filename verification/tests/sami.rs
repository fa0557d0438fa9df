use doubao_asr::sami::{
    append_varint, decode, encode_finish_session, encode_start_session, encode_start_task,
    encode_task_request, looks_json, read_varint, Frame, FRAME_STATE_FIRST, FRAME_STATE_LAST,
};

#[test]
fn known_request_vectors() {
    assert_eq!(
        encode_start_task("token", "request"),
        b"\x12\x05token\x1a\x03ASR\x2a\x09StartTask\x42\x07request"
    );
    assert_eq!(
        encode_start_session("k", "r", br#"{"audio_info":{}}"#),
        b"\x12\x01k\x1a\x03ASR\x2a\x0cStartSession\x32\x11{\"audio_info\":{}}\x42\x01r"
    );
    assert_eq!(
        encode_finish_session("k", "r"),
        b"\x12\x01k\x1a\x03ASR\x2a\x0dFinishSession\x42\x01r"
    );
    assert_eq!(encode_task_request("r", 20, FRAME_STATE_FIRST, &[1, 2]), b"\x1a\x03ASR\x2a\x0bTaskRequest\x32\x1e{\"extra\":{},\"timestamp_ms\":20}\x3a\x02\x01\x02\x42\x01r\x48\x01");
}

#[test]
fn request_frames_decode() {
    for (bytes, event) in [
        (encode_start_task("token", "request"), "StartTask"),
        (
            encode_start_session("token", "request", br#"{"audio_info":{}}"#),
            "StartSession",
        ),
        (
            encode_task_request("request", 1234, FRAME_STATE_LAST, &[1, 2, 3]),
            "TaskRequest",
        ),
        (encode_finish_session("token", "request"), "FinishSession"),
    ] {
        let frame = decode(&bytes).unwrap();
        assert_eq!(frame.event, event);
        assert_eq!(frame.request_id, "request");
        if event == "TaskRequest" {
            assert!(frame.payload_json.contains(r#""timestamp_ms":1234"#));
        }
    }
}

#[test]
fn decodes_response_fields_and_skips_unknown_wire_fields() {
    // request ID (field 1), event (4), status code (5), status text (6), JSON (7),
    // followed by unknown fixed64 and fixed32 fields.
    let bytes = b"\x0a\x03rid\x22\x0bTaskStarted\x28\xac\x02\x32\x02ok\x3a\x08 {\"x\":1}\x51\0\0\0\0\0\0\0\0\x5d\0\0\0\0";
    let frame = decode(bytes).unwrap();
    assert_eq!(frame.request_id, "rid");
    assert_eq!(frame.event, "TaskStarted");
    assert_eq!(frame.status_code, 300);
    assert_eq!(frame.status_text, "ok");
    assert_eq!(frame.payload_json, " {\"x\":1}");
}

#[test]
fn invalid_and_truncated_inputs_are_rejected() {
    for bytes in [
        &b"\x80"[..],
        &b"\x08\x80"[..],
        &b"\x0a\x03x"[..],
        &b"\x09\0"[..],
        &b"\x0d\0"[..],
        &b"\x0b"[..],
    ] {
        assert!(decode(bytes).is_err(), "accepted {bytes:?}");
    }
}

#[test]
fn non_utf8_strings_are_ignored() {
    assert_eq!(decode(b"\x0a\x01\xff").unwrap(), Frame::default());
}

#[test]
fn malformed_messages_say_why() {
    for (bytes, reason) in [
        (&b"\x80"[..], "invalid SAMI field key"),
        (&b"\x08\x80"[..], "invalid SAMI varint"),
        (&b"\x09\0"[..], "truncated SAMI fixed64"),
        (&b"\x0a\x80"[..], "invalid SAMI length"),
        (&b"\x0a\x03x"[..], "truncated SAMI bytes"),
        (&b"\x0d\0"[..], "truncated SAMI fixed32"),
        (&b"\x0b"[..], "unsupported SAMI wire type"),
    ] {
        assert_eq!(decode(bytes).unwrap_err().message(), reason);
    }
}

#[test]
fn varints_read_back() {
    for value in [0, 1, 127, 128, 300, 16383, 16384, u32::MAX as u64, u64::MAX - 1, u64::MAX] {
        let mut bytes = Vec::new();
        append_varint(&mut bytes, value);
        let length = bytes.len();
        bytes.push(0xff);
        assert_eq!(read_varint(&bytes), Some((value, length)));
        assert_eq!(read_varint(&bytes[..length - 1]), None);
    }
    assert_eq!(read_varint(&[0x80; 10]), None);
    assert_eq!(read_varint(&[]), None);
    // Bits beyond the sixty-fourth are dropped.
    let overlong = [0xff, 0xff, 0xff, 0xff, 0xff, 0xff, 0xff, 0xff, 0xff, 0x7f];
    assert_eq!(read_varint(&overlong), Some((u64::MAX, 10)));
}

#[test]
fn later_fields_win_and_messages_concatenate() {
    let first = b"\x0a\x01a\x22\x01x";
    let second = b"\x42\x01b\x28\x07";
    let frame = decode(&[first.as_slice(), second].concat()).unwrap();
    assert_eq!(frame.request_id, "b");
    assert_eq!(frame.event, "x");
    assert_eq!(frame.status_code, 7);
    // A field that is not read changes nothing.
    let ignored = [first.as_slice(), b"\x1a\x03ASR"].concat();
    assert_eq!(decode(&ignored).unwrap(), decode(first).unwrap());
    // Bytes that are malformed make the whole malformed.
    let broken = [first.as_slice(), b"\x0d\0"].concat();
    assert_eq!(
        decode(&broken).unwrap_err().message(),
        "truncated SAMI fixed32"
    );
    // Each part is what its last field says.
    let repeated = decode(b"\x28\x01\x32\x01a\x28\x02\x32\x02{}\x32\x01b\x3a\x02[]").unwrap();
    assert_eq!(repeated.status_code, 2);
    assert_eq!(repeated.status_text, "b");
    assert_eq!(repeated.payload_json, "[]");
    assert_eq!(repeated.event, "");
}

#[test]
fn frames_are_dated_below_zero_too() {
    let frame = decode(&encode_task_request("r", -20, 3, b"x")).unwrap();
    assert_eq!(frame.payload_json, r#"{"extra":{},"timestamp_ms":-20}"#);
    let frame = decode(&encode_task_request("r", i64::MIN, 3, b"x")).unwrap();
    assert_eq!(
        frame.payload_json,
        r#"{"extra":{},"timestamp_ms":-9223372036854775808}"#
    );
}

#[test]
fn audio_that_looks_like_json_takes_the_payload() {
    let frame = decode(&encode_task_request("r", 0, 3, b"[1]")).unwrap();
    assert_eq!(frame.payload_json, "[1]");
    assert!(looks_json("\t\r\n {"));
    assert!(looks_json("["));
    assert!(!looks_json(" x{"));
    assert!(!looks_json("\u{a0}{"));
    assert!(!looks_json(""));
    let frame = decode(b"\x32\x02ok").unwrap();
    assert_eq!(frame.status_text, "ok");
    assert_eq!(decode(b"\x3a\x02ok").unwrap(), Frame::default());
}
