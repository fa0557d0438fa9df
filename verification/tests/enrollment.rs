use doubao_asr::credentials::{Credentials, ServiceRequest, REGISTER_URL, SETTINGS_URL};
use doubao_asr::enrollment::{EnrollAction, EnrollEvent, EnrollStage, Enrollment};
use doubao_asr::error::Error;

const OK: EnrollEvent = EnrollEvent::Answered {
    status: 200,
    announced: None,
};

fn request(action: EnrollAction) -> ServiceRequest {
    match action {
        EnrollAction::Send(request) => request,
        _ => panic!("nothing is sent"),
    }
}

fn failure(action: EnrollAction) -> Error {
    match action {
        EnrollAction::Finish(Err(error)) => error,
        _ => panic!("no failure"),
    }
}

fn parsing() -> Enrollment {
    let (mut enrollment, _) = Enrollment::register();
    enrollment.advance(OK);
    enrollment.advance(EnrollEvent::Complete { now: 1 });
    assert_eq!(enrollment.stage(), EnrollStage::Parsing);
    enrollment
}

fn refreshing() -> Enrollment {
    let (mut enrollment, action) =
        Enrollment::refresh(&Credentials::for_test("1", "2", "old-token"));
    assert!(request(action)
        .url
        .as_str()
        .starts_with(SETTINGS_URL));
    enrollment.advance(OK);
    enrollment
}

#[test]
fn a_device_is_registered_and_given_a_token() {
    let (mut enrollment, action) = Enrollment::register();
    let registration = request(action);
    assert!(registration.url.as_str().starts_with(REGISTER_URL));
    let start = registration.body.find("\"openudid\":\"").unwrap() + 12;
    let openudid = &registration.body[start..start + 16];
    assert!(openudid
        .bytes()
        .all(|b| b.is_ascii_digit() || (b'a'..=b'f').contains(&b)));
    assert!(matches!(enrollment.advance(OK), EnrollAction::Read));
    for part in [&b"{\"device_id\":1,"[..], b"\"install_id\":2}"] {
        assert!(matches!(
            enrollment.advance(EnrollEvent::Chunk(part.to_vec())),
            EnrollAction::Read
        ));
    }
    match enrollment.advance(EnrollEvent::Complete { now: 5 }) {
        EnrollAction::Parse(body) => assert_eq!(body, b"{\"device_id\":1,\"install_id\":2}"),
        _ => panic!("nothing to parse"),
    }
    let token = request(enrollment.advance(EnrollEvent::Identifiers(Some((1, 2)))));
    assert!(token.url.as_str().starts_with(SETTINGS_URL));
    assert!(token.url.as_str().ends_with("&device_id=1"));
    enrollment.advance(OK);
    enrollment.advance(EnrollEvent::Chunk(
        br#"{"data":{"settings":{"asr_config":{"app_key":"refreshed-token"}}}}"#.to_vec(),
    ));
    match enrollment.advance(EnrollEvent::Complete { now: 9 }) {
        EnrollAction::Finish(Ok(credentials)) => {
            assert!(credentials.complete());
            assert_eq!(credentials.device_id, "1");
            assert_eq!(credentials.install_id, "2");
            assert_eq!(credentials.token, "refreshed-token");
            assert_eq!(credentials.refreshed_at, 9);
            assert_eq!(credentials.cdid.len(), 36);
        }
        _ => panic!("no credentials"),
    }
    assert_eq!(enrollment.stage(), EnrollStage::Ended);
}

#[test]
fn a_refresh_keeps_the_device() {
    let mut enrollment = refreshing();
    enrollment.advance(EnrollEvent::Chunk(
        br#"{"data":{"settings":{"asr_config":{"app_key":"refreshed-token"}}}}"#.to_vec(),
    ));
    match enrollment.advance(EnrollEvent::Complete { now: 7 }) {
        EnrollAction::Finish(Ok(credentials)) => {
            assert_eq!(credentials.device_id, "1");
            assert_eq!(credentials.install_id, "2");
            assert_eq!(credentials.token, "refreshed-token");
            assert_eq!(credentials.refreshed_at, 7);
        }
        _ => panic!("no credentials"),
    }
}

#[test]
fn enrollments_fail_with_a_reason() {
    let (mut enrollment, _) = Enrollment::register();
    assert_eq!(
        failure(enrollment.advance(EnrollEvent::Unsent)).message(),
        "Doubao device registration request failed"
    );
    let (mut enrollment, _) = Enrollment::register();
    assert_eq!(
        failure(enrollment.advance(EnrollEvent::Answered {
            status: 500,
            announced: None
        }))
        .message(),
        "Doubao device registration failed with HTTP 500"
    );
    let (mut enrollment, _) = Enrollment::register();
    assert_eq!(
        failure(enrollment.advance(EnrollEvent::Answered {
            status: 200,
            announced: Some((1 << 20) + 1)
        }))
        .message(),
        "Doubao device registration returned an invalid response"
    );
    for found in [None, Some((0, 2)), Some((1, 0))] {
        assert_eq!(
            failure(parsing().advance(EnrollEvent::Identifiers(found))).message(),
            "Doubao device registration returned an invalid response"
        );
    }
    for event in [
        EnrollEvent::Broken,
        EnrollEvent::Chunk(vec![0; (1 << 20) + 1]),
        EnrollEvent::Complete { now: 1 },
    ] {
        assert_eq!(
            failure(refreshing().advance(event)).message(),
            "Doubao ASR token response was invalid"
        );
    }
    let (mut enrollment, _) = Enrollment::refresh(&Credentials::for_test("1", "2", "t"));
    assert_eq!(
        failure(enrollment.advance(EnrollEvent::Unsent)).message(),
        "Doubao ASR token request failed"
    );
}
