use doubao_asr::config::Config;
use doubao_asr::credentials::Credentials;
use doubao_asr::error::Error;
use doubao_asr::provider::{
    payload_events, route, unconnected, unprepared, unwritten, Action, Event, Incoming, Pending,
    Progress, Recognition, Routed, Session, Stage, TextAccumulator, WireResult,
};
use doubao_asr::sami;

fn result(text: &str, final_result: bool) -> Recognition {
    Recognition {
        text: text.to_owned(),
        final_result,
    }
}

#[test]
fn accumulator_deduplicates_finals() {
    let mut a = TextAccumulator::default();
    a.consume(result(" 第一 句 ", false));
    a.consume(result("第一句。", true));
    a.consume(result("第一句。", true));
    a.consume(result("第二句。", true));
    assert_eq!(a.text(), "第一句。\n第二句。");
}

#[test]
fn accumulator_uses_interim_fallback() {
    let mut a = TextAccumulator::default();
    a.consume(result("临时结果", false));
    assert_eq!(a.text(), "临时结果");
}

#[test]
fn accumulator_keeps_the_order_of_finals() {
    let mut a = TextAccumulator::default();
    assert_eq!(a.text(), "");
    for text in ["b", " a ", "b", "\u{3000}", "c", "a"] {
        a.consume(result(text, true));
    }
    assert_eq!(a.text(), "b\na\nc");
    a.consume(result("later", false));
    assert_eq!(a.text(), "b\na\nc");
    let mut a = TextAccumulator::default();
    a.consume(result(" one ", false));
    a.consume(result("  ", false));
    assert_eq!(a.text(), "one");
    a.consume(result("two", false));
    assert_eq!(a.text(), "two");
}

fn failed(event: &str, status: &str) -> Vec<u8> {
    let mut message = Vec::new();
    sami::append_bytes(&mut message, 4, event.as_bytes());
    sami::append_varint_field(&mut message, 5, 40100004);
    sami::append_bytes(&mut message, 6, status.as_bytes());
    message
}

fn routed_error(message: Incoming) -> Error {
    match route(message) {
        Routed::Event(Event::Error(error)) => error,
        _ => panic!("no error"),
    }
}

#[test]
fn messages_are_routed() {
    for kind in ["TaskStarted", "SessionStarted", "SessionFinished"] {
        let mut message = Vec::new();
        sami::append_bytes(&mut message, 4, kind.as_bytes());
        match route(Incoming::Binary(message)) {
            Routed::Event(Event::Kind(found)) => assert_eq!(found, kind),
            _ => panic!("no state"),
        }
    }
    for event in ["TaskFailed", "SessionFailed"] {
        assert!(matches!(
            routed_error(Incoming::Binary(failed(event, "denied"))),
            Error::ProviderRejected(40100004)
        ));
        assert!(matches!(
            routed_error(Incoming::Binary(failed(
                event,
                "x: Service Discovery FAILURE."
            ))),
            Error::Unroutable
        ));
    }
    assert_eq!(
        routed_error(Incoming::Binary(vec![0x80])).message(),
        "Doubao ASR returned an invalid protocol frame"
    );
    assert!(matches!(route(Incoming::Other), Routed::Ignored));
    match route(Incoming::Closed) {
        Routed::Last(Event::Error(error)) => assert_eq!(
            error.message(),
            "Doubao ASR connection closed unexpectedly"
        ),
        _ => panic!("no end"),
    }
    let mut message = Vec::new();
    sami::append_bytes(&mut message, 4, b"TaskRequest");
    sami::append_bytes(&mut message, 7, br#"{"results":[]}"#);
    match route(Incoming::Binary(message)) {
        Routed::Payload(payload) => assert_eq!(payload, r#"{"results":[]}"#),
        _ => panic!("no payload"),
    }
}

#[test]
fn results_become_recognitions() {
    assert!(payload_events(None).is_empty());
    let events = payload_events(Some(vec![
        WireResult {
            text: "a".to_owned(),
            is_interim: true,
        },
        WireResult {
            text: "b".to_owned(),
            is_interim: false,
        },
    ]));
    let found: Vec<(String, bool)> = events
        .into_iter()
        .map(|event| match event {
            Event::Recognition(r) => (r.text, r.final_result),
            _ => panic!("no recognition"),
        })
        .collect();
    assert_eq!(found, [("a".to_owned(), false), ("b".to_owned(), true)]);
}

fn session() -> Session {
    let credentials = Credentials::for_test("d", "i", "token");
    Session::with_task(&Config::new(&credentials, true), "task".to_owned())
}

fn sent(action: Action) -> Vec<u8> {
    match action {
        Action::Send(message) => message,
        _ => panic!("nothing is sent"),
    }
}

fn opened() -> Session {
    let mut session = session();
    for _ in 0..5 {
        session.advance(Progress::Done);
    }
    assert!(matches!(
        session.advance(Progress::Done),
        Action::ReadPacket
    ));
    session
}

#[test]
fn session_opens_before_audio_is_read() {
    let mut s = session();
    assert_eq!(
        sent(s.advance(Progress::Done)),
        sami::encode_start_task("token", "task")
    );
    assert!(matches!(
        s.advance(Progress::Done),
        Action::Await {
            expected: "TaskStarted",
            seconds: 15
        }
    ));
    assert!(s
        .observe(Some(Event::Kind("SessionStarted".to_owned())))
        .is_none());
    assert!(s.observe(Some(Event::Recognition(result("early", true)))).is_none());
    assert!(s
        .observe(Some(Event::Kind("TaskStarted".to_owned())))
        .unwrap()
        .is_ok());
    let settings = Config::new(&Credentials::for_test("d", "i", "token"), true).session_json();
    let message = sent(s.advance(Progress::Done));
    assert_eq!(
        message,
        sami::encode_start_session("token", "task", &settings)
    );
    assert_eq!(
        sami::decode(&message).unwrap().payload_json.as_bytes(),
        settings
    );
    assert!(matches!(
        s.advance(Progress::Done),
        Action::Await {
            expected: "SessionStarted",
            seconds: 15
        }
    ));
    assert_eq!(
        s.timed_out().message(),
        "timeout waiting for Doubao ASR SessionStarted"
    );
    assert!(matches!(s.advance(Progress::Done), Action::OpenStream));
    assert!(matches!(s.advance(Progress::Done), Action::ReadPacket));
    assert_eq!(s.stage(), Stage::FirstPacket);
    assert_eq!(
        Session::new(&Config::new(&Credentials::for_test("d", "i", "t"), true)).frames(),
        0
    );
}

#[test]
fn every_packet_is_sent_once_in_order() {
    let packets: [&[u8]; 3] = [b"one", b"two", b"three"];
    let states = [
        sami::FRAME_STATE_FIRST,
        sami::FRAME_STATE_MIDDLE,
        sami::FRAME_STATE_LAST,
    ];
    let mut s = opened();
    s.advance(Progress::Packet(Some(packets[0].to_vec())));
    for i in 0..3 {
        let next = packets.get(i + 1).map(|packet| packet.to_vec());
        match s.advance(Progress::Packet(next)) {
            Action::Pace(index) => assert_eq!(index, i),
            _ => panic!("not paced"),
        }
        assert_eq!(
            sent(s.advance(Progress::Done)),
            sami::encode_task_request("task", 20 * i as i64, states[i], packets[i])
        );
        assert!(matches!(s.advance(Progress::Done), Action::Drain));
        assert!(s.drain(Pending::Event(Event::Kind("x".to_owned()))).is_none());
        assert!(s
            .drain(Pending::Event(Event::Recognition(result("heard", true))))
            .is_none());
        assert!(s.drain(Pending::Nothing).unwrap().is_ok());
        match s.advance(Progress::Done) {
            Action::ReadPacket => assert!(i < 2),
            Action::CloseStream => assert_eq!(i, 2),
            _ => panic!("unexpected"),
        }
    }
    assert_eq!(
        sent(s.advance(Progress::Done)),
        sami::encode_finish_session("token", "task")
    );
    assert!(matches!(
        s.advance(Progress::Done),
        Action::Await {
            expected: "SessionFinished",
            seconds: 20
        }
    ));
    assert!(s
        .observe(Some(Event::Recognition(result("last", true))))
        .is_none());
    assert!(s
        .observe(Some(Event::Kind("SessionFinished".to_owned())))
        .unwrap()
        .is_ok());
    match s.advance(Progress::Done) {
        Action::Finish(Ok(transcript)) => {
            assert_eq!(transcript.text, "heard\nlast");
            assert_eq!(transcript.duration_ms, 60);
            assert_eq!(transcript.frames, 3);
        }
        _ => panic!("no transcript"),
    }
}

#[test]
fn a_single_packet_is_the_last() {
    let mut s = opened();
    s.advance(Progress::Packet(Some(b"only".to_vec())));
    s.advance(Progress::Packet(None));
    assert_eq!(
        sent(s.advance(Progress::Done)),
        sami::encode_task_request("task", 0, sami::FRAME_STATE_LAST, b"only")
    );
}

#[test]
fn sessions_fail_with_a_reason() {
    let finish = |action| match action {
        Action::Finish(Err(error)) => error,
        _ => panic!("no failure"),
    };
    let error: Error = finish(opened().advance(Progress::Packet(None)));
    assert_eq!(error.message(), "the input contains no decodable audio");
    let mut s = opened();
    s.advance(Progress::Packet(Some(Vec::new())));
    s.advance(Progress::Packet(None));
    assert_eq!(
        finish(s.advance(Progress::Done)).message(),
        "refusing to send an empty Opus packet"
    );
    assert_eq!(s.stage(), Stage::Ended);
    assert_eq!(
        finish(opened().advance(Progress::Failed(unwritten()))).message(),
        "Doubao ASR connection write failed"
    );
    let mut s = session();
    assert_eq!(
        s.observe(None).unwrap().unwrap_err().message(),
        "Doubao ASR connection closed unexpectedly"
    );
    assert!(matches!(
        s.observe(Some(Event::Error(Error::Unroutable))),
        Some(Err(Error::Unroutable))
    ));
    assert_eq!(
        s.drain(Pending::Disconnected).unwrap().unwrap_err().message(),
        "Doubao ASR connection closed unexpectedly"
    );
    assert!(matches!(
        s.drain(Pending::Event(Event::Error(Error::Timeout))),
        Some(Err(Error::Timeout))
    ));
    assert_eq!(
        unprepared().message(),
        "could not prepare Doubao ASR connection"
    );
    assert_eq!(unconnected().message(), "could not connect to Doubao ASR");
}

#[test]
fn what_is_heard_before_the_upload_does_not_count() {
    let mut s = session();
    s.advance(Progress::Done);
    s.advance(Progress::Done);
    s.observe(Some(Event::Recognition(result("early", true))));
    for _ in 0..4 {
        s.advance(Progress::Done);
    }
    s.advance(Progress::Packet(Some(b"only".to_vec())));
    s.advance(Progress::Packet(None));
    for _ in 0..5 {
        s.advance(Progress::Done);
    }
    assert_eq!(s.stage(), Stage::FinishAwaited);
    match s.advance(Progress::Done) {
        Action::Finish(Ok(transcript)) => assert_eq!(transcript.text, ""),
        _ => panic!("no transcript"),
    }
}
