use doubao_asr::client::{
    check_session_speed, public_transcript, refresh_backoff, Client, CredentialState, Need,
    Transcript, PROVIDER,
};
use doubao_asr::clock::{millis_at, unix_millis, unix_seconds, whole_seconds};
use doubao_asr::credentials::Credentials;
use doubao_asr::error::Error;
use doubao_asr::flow::{
    validate_input, Holder, InputPath, Phase, StepAction, StepOutcome, TranscriptionFlow, Upkeep,
    UpkeepAction,
};
use doubao_asr::provider::ProviderTranscript;

#[test]
fn builder_defaults_and_validation() {
    let c = Client::builder()
        .credentials_path(b"test.json")
        .build()
        .unwrap();
    assert!(c.options.punctuation);
    assert_eq!(f64::from_bits(c.options.speed), 1.0);
    assert!(Client::builder()
        .upload_speed(0.0f64.to_bits())
        .build()
        .is_err());
    assert!(Client::builder()
        .upload_speed(4.1f64.to_bits())
        .build()
        .is_err());
    assert!(Client::builder().credentials_path(b"").build().is_err());
}

#[test]
fn speeds_are_above_zero_and_at_most_four() {
    for speed in [
        f64::MIN_POSITIVE,
        5e-324,
        0.5,
        1.0,
        3.9999999999999996,
        4.0,
    ] {
        assert!(check_session_speed(speed.to_bits()).is_ok(), "{speed}");
        assert!(Client::builder()
            .upload_speed(speed.to_bits())
            .build()
            .is_ok());
    }
    for speed in [
        0.0,
        -0.0,
        -1.0,
        4.000000000000001,
        1e300,
        f64::INFINITY,
        f64::NEG_INFINITY,
        f64::NAN,
        -f64::NAN,
    ] {
        assert_eq!(
            check_session_speed(speed.to_bits()).unwrap_err().message(),
            "speed must be greater than 0 and no more than 4"
        );
        assert_eq!(
            Client::builder()
                .upload_speed(speed.to_bits())
                .credentials_path(b"")
                .build()
                .err()
                .unwrap()
                .message(),
            "upload speed must be greater than 0 and no more than 4"
        );
    }
    assert_eq!(
        Client::builder()
            .credentials_path(b"")
            .build()
            .err()
            .unwrap()
            .message(),
        "credential path must not be empty"
    );
}

#[test]
fn options_are_kept() {
    let c = Client::new().unwrap();
    assert!(c.options.credentials_path.is_none());
    assert!(c.options.credential_refresh_interval.is_none());
    let c = Client::builder()
        .punctuation(false)
        .credential_refresh_interval(5, 7)
        .upload_speed(2.0f64.to_bits())
        .credentials_path(b"p")
        .build()
        .unwrap();
    assert!(!c.options.punctuation);
    assert_eq!(c.options.credential_refresh_interval, Some((5, 7)));
    assert_eq!(c.options.credentials_path.unwrap(), b"p");
    assert_eq!(f64::from_bits(c.options.speed), 2.0);
    let c = Client::builder()
        .credential_refresh_interval(5, 0)
        .credential_refresh_interval(0, 0)
        .build()
        .unwrap();
    assert!(c.options.credential_refresh_interval.is_none());
    assert_eq!(c.state.need(), Need::Load);
    let builder = Client::builder()
        .punctuation(false)
        .credential_refresh_interval(5, 7)
        .credentials_path(b"p");
    let copy = builder.clone().upload_speed(2.0f64.to_bits()).build().unwrap();
    assert_eq!(copy.options.credentials_path.unwrap(), b"p");
    assert_eq!(copy.options.credential_refresh_interval, Some((5, 7)));
    assert!(!copy.options.punctuation);
    let first = builder.build().unwrap();
    assert_eq!(f64::from_bits(first.options.speed), 1.0);
}

#[test]
fn empty_text_is_no_speech() {
    let err = public_transcript(ProviderTranscript {
        text: String::new(),
        duration_ms: 0,
        frames: 0,
    })
    .unwrap_err();
    assert!(matches!(err, Error::NoSpeech));
}

#[test]
fn rejects_directory_input_before_network() {
    let mut flow = TranscriptionFlow::new();
    assert!(matches!(
        flow.advance(StepOutcome::Done),
        StepAction::Validate
    ));
    let error = validate_input(InputPath::NotAFile).unwrap_err();
    assert!(error.message().contains("regular local file"));
    // The transcription ends so: nothing is asked for that needs the network.
    match flow.advance(StepOutcome::Failed(error)) {
        StepAction::Finish(Err(error)) => assert!(error.message().contains("regular local file")),
        _ => panic!("no failure"),
    }
    assert_eq!(flow.phase(), Phase::Ended);
}

#[test]
fn inputs_are_refused_with_a_reason() {
    assert!(validate_input(InputPath::File).is_ok());
    assert_eq!(
        validate_input(InputPath::Empty).unwrap_err().message(),
        "input path must not be empty"
    );
    assert_eq!(
        validate_input(InputPath::Unresolved("x".to_owned()))
            .unwrap_err()
            .message(),
        "resolve path: x"
    );
    assert_eq!(
        validate_input(InputPath::Unreadable("x".to_owned()))
            .unwrap_err()
            .message(),
        "read input file: x"
    );
}

#[test]
fn transcripts_are_rendered() {
    let transcript = public_transcript(ProviderTranscript {
        text: "一\n\"二\"".to_owned(),
        duration_ms: 40,
        frames: 2,
    })
    .unwrap();
    assert_eq!(
        transcript,
        Transcript {
            text: "一\n\"二\"".to_owned(),
            duration_ms: 40,
            frames: 2,
            provider: PROVIDER.to_owned(),
        }
    );
    assert_eq!(PROVIDER, "doubao-ime");
    assert_eq!(transcript.render(false), "一\n\"二\"\n");
    assert_eq!(
        transcript.render(true),
        "{\"text\":\"一\\n\\\"二\\\"\",\"duration_ms\":40,\"frames\":2,\"provider\":\"doubao-ime\"}\n"
    );
}

fn legacy_state() -> CredentialState {
    let mut stored = Credentials::for_test("1", "2", "old-token");
    stored.cdid = "c".to_owned();
    stored.openudid = "o".to_owned();
    stored.clientudid = "u".to_owned();
    let mut state = CredentialState::default();
    assert_eq!(state.need(), Need::Load);
    state.load(Some(stored));
    assert_eq!(state.need(), Need::Nothing);
    state
}

fn refreshed(state: &CredentialState, now: u64) -> Credentials {
    let mut candidate = state.current().unwrap();
    candidate
        .adopt_token(Some("refreshed-token".to_owned()), now)
        .unwrap();
    candidate
}

#[test]
fn legacy_credentials_refresh_once_across_concurrent_callers() {
    let mut state = legacy_state();
    let mut refreshes = 0;
    let mut installed = 0;
    for _ in 0..8 {
        let now = unix_seconds();
        let (mut upkeep, action) = Upkeep::begin(Some((6 * 60 * 60, 0)));
        assert!(matches!(action, UpkeepAction::Acquire));
        match upkeep.acquired(&state, Ok(()), now) {
            UpkeepAction::Refresh => {
                refreshes += 1;
                let candidate = refreshed(&state, now);
                assert!(matches!(
                    upkeep.refreshed(&mut state, Ok(candidate)),
                    UpkeepAction::Persist
                ));
                assert!(state.must_save(state.number()));
                state.saved();
                assert!(!state.must_save(state.number()));
                assert!(matches!(
                    upkeep.persisted(Ok(())),
                    UpkeepAction::Finish(Ok(true))
                ));
                installed += 1;
            }
            UpkeepAction::Finish(Ok(refreshed)) => assert!(!refreshed),
            _ => panic!("unexpected"),
        }
    }
    assert_eq!(installed, 1);
    assert_eq!(refreshes, 1);
    let stored = state.current().unwrap();
    assert_eq!(stored.token, "refreshed-token");
    assert!(stored.refreshed_at > 0);
}

#[test]
fn refresh_failure_retains_credentials_and_starts_backoff() {
    let mut state = legacy_state();
    let now = unix_seconds();
    let (mut upkeep, _) = Upkeep::begin(Some((6 * 60 * 60, 0)));
    assert!(matches!(
        upkeep.acquired(&state, Ok(()), now),
        UpkeepAction::Refresh
    ));
    assert!(matches!(
        upkeep.refreshed(&mut state, Err(Error::msg("refresh failed"))),
        UpkeepAction::Finish(Err(_))
    ));
    let (mut upkeep, _) = Upkeep::begin(Some((6 * 60 * 60, 0)));
    assert!(matches!(
        upkeep.acquired(&state, Ok(()), now),
        UpkeepAction::Finish(Ok(false))
    ));
    assert_eq!(state.current().unwrap().token, "old-token");
}

#[test]
fn disabled_proactive_refresh_does_not_load_or_refresh_credentials() {
    let (_, action) = Upkeep::begin(None);
    assert!(matches!(action, UpkeepAction::Finish(Ok(false))));
}

#[test]
fn refreshes_back_off_and_recover() {
    for (failures, wait) in [
        (0, 60),
        (1, 60),
        (2, 300),
        (3, 900),
        (4, 3600),
        (5, 3600),
        (usize::MAX, 3600),
    ] {
        assert_eq!(refresh_backoff(failures), wait);
    }
    let mut state = legacy_state();
    for wait in [60, 300, 900, 3600, 3600] {
        state.fail_refresh(1000);
        assert!(!state.refresh_due(1, 1000 + wait - 1));
        assert!(state.refresh_due(1, 1000 + wait));
    }
    let number = state.number();
    let candidate = refreshed(&state, 2000);
    assert!(state.refresh(number, candidate));
    assert!(!state.refresh_due(10, 2009));
    assert!(state.refresh_due(10, 2010));
    state.fail_refresh(3000);
    assert!(state.refresh_due(10, 3060));
    state.fail_refresh(u64::MAX);
    assert!(state.refresh_due(10, u64::MAX));
}

#[test]
fn stale_refreshes_change_nothing() {
    let mut state = legacy_state();
    let number = state.number();
    let candidate = refreshed(&state, 5);
    assert!(state.is_current(number));
    assert!(!CredentialState::default().is_current(0));
    state.activate(Credentials::for_test("9", "9", "other"));
    assert!(!state.is_current(number));
    assert!(state.is_current(state.number()));
    assert!(!state.refresh(number, candidate));
    assert_eq!(state.current().unwrap().token, "other");
    assert!(!state.must_save(number));
    assert!(state.must_save(state.number()));
}

#[test]
fn a_device_is_registered_only_where_none_is_stored() {
    let mut state = CredentialState::default();
    assert!(state.current().is_none());
    assert!(!state.refresh_due(0, u64::MAX));
    state.load(None);
    assert_eq!(state.need(), Need::Register);
    state.register(Credentials::for_test("1", "2", "t"));
    assert_eq!(state.need(), Need::Nothing);
    assert!(state.must_save(state.number()));
    let stored = legacy_state();
    assert!(!stored.must_save(stored.number()));
}

#[test]
fn upkeep_passes_failures_on() {
    let state = legacy_state();
    let (mut upkeep, _) = Upkeep::begin(Some((1, 0)));
    match upkeep.acquired(&state, Err(Error::msg("no network")), 9) {
        UpkeepAction::Finish(Err(error)) => assert_eq!(error.message(), "no network"),
        _ => panic!("no failure"),
    }
    match upkeep.persisted(Err(Error::msg("disk full"))) {
        UpkeepAction::Finish(Err(error)) => assert_eq!(error.message(), "disk full"),
        _ => panic!("no failure"),
    }
}

fn tried() -> TranscriptionFlow {
    let mut flow = TranscriptionFlow::new();
    assert!(matches!(
        flow.advance(StepOutcome::Done),
        StepAction::Validate
    ));
    assert!(matches!(
        flow.advance(StepOutcome::Done),
        StepAction::Maintain
    ));
    // Upkeep that fails does not matter.
    assert!(matches!(
        flow.advance(StepOutcome::Failed(Error::msg("upkeep"))),
        StepAction::Acquire
    ));
    assert!(matches!(
        flow.advance(StepOutcome::Done),
        StepAction::Transcribe(Holder::Held)
    ));
    flow
}

fn recognized() -> StepOutcome {
    StepOutcome::Recognized(ProviderTranscript {
        text: "text".to_owned(),
        duration_ms: 20,
        frames: 1,
    })
}

fn rejected() -> StepOutcome {
    StepOutcome::Failed(Error::ProviderRejected(1))
}

#[test]
fn a_transcription_that_succeeds_stores_its_credentials() {
    let mut flow = tried();
    assert!(matches!(
        flow.advance(recognized()),
        StepAction::Persist(Holder::Held)
    ));
    match flow.advance(StepOutcome::Done) {
        StepAction::Finish(Ok(transcript)) => {
            assert_eq!(transcript.text, "text");
            assert_eq!(transcript.provider, PROVIDER);
        }
        _ => panic!("no transcript"),
    }
    assert_eq!(flow.phase(), Phase::Ended);
    let mut flow = tried();
    flow.advance(recognized());
    match flow.advance(StepOutcome::Failed(Error::msg("disk full"))) {
        StepAction::Finish(Err(error)) => assert_eq!(error.message(), "disk full"),
        _ => panic!("no failure"),
    }
}

#[test]
fn rejections_refresh_and_then_register() {
    let mut flow = tried();
    assert!(matches!(flow.advance(rejected()), StepAction::Reacquire));
    assert!(matches!(
        flow.advance(StepOutcome::Available { same: false }),
        StepAction::Transcribe(Holder::Current)
    ));
    assert!(matches!(flow.advance(rejected()), StepAction::Refresh));
    assert!(matches!(
        flow.advance(StepOutcome::Done),
        StepAction::Transcribe(Holder::Candidate)
    ));
    assert!(matches!(
        flow.advance(StepOutcome::Failed(Error::Unroutable)),
        StepAction::Register
    ));
    assert!(matches!(
        flow.advance(StepOutcome::Done),
        StepAction::Transcribe(Holder::Candidate)
    ));
    // The last rejection is returned.
    assert!(matches!(
        flow.advance(rejected()),
        StepAction::Finish(Err(Error::ProviderRejected(1)))
    ));
}

#[test]
fn refreshed_credentials_are_installed_once_accepted() {
    let mut flow = tried();
    flow.advance(rejected());
    assert!(matches!(
        flow.advance(StepOutcome::Available { same: true }),
        StepAction::Refresh
    ));
    flow.advance(StepOutcome::Done);
    assert!(matches!(flow.advance(recognized()), StepAction::Activate));
    assert!(matches!(
        flow.advance(StepOutcome::Done),
        StepAction::Finish(Ok(_))
    ));
    let mut flow = tried();
    flow.advance(rejected());
    flow.advance(StepOutcome::Available { same: true });
    // A refresh that fails is returned; no device is registered.
    match flow.advance(StepOutcome::Failed(Error::msg("refresh"))) {
        StepAction::Finish(Err(error)) => assert_eq!(error.message(), "refresh"),
        _ => panic!("no failure"),
    }
    assert_eq!(flow.phase(), Phase::Ended);
    let mut flow = tried();
    flow.advance(rejected());
    flow.advance(StepOutcome::Available { same: true });
    // Even where the refresh itself is rejected.
    assert!(matches!(
        flow.advance(rejected()),
        StepAction::Finish(Err(Error::ProviderRejected(1)))
    ));
    let mut flow = tried();
    flow.advance(rejected());
    flow.advance(StepOutcome::Available { same: false });
    assert!(matches!(
        flow.advance(recognized()),
        StepAction::Persist(Holder::Current)
    ));
}

#[test]
fn other_failures_are_returned() {
    for error in [Error::Timeout, Error::NoSpeech, Error::msg("x")] {
        let message = error.message();
        match tried().advance(StepOutcome::Failed(error)) {
            StepAction::Finish(Err(found)) => assert_eq!(found.message(), message),
            _ => panic!("no failure"),
        }
    }
    let mut flow = TranscriptionFlow::new();
    flow.advance(StepOutcome::Done);
    assert!(matches!(
        flow.advance(StepOutcome::Failed(Error::msg("input"))),
        StepAction::Finish(Err(_))
    ));
}

#[test]
fn the_clock_counts_from_the_epoch() {
    let before = unix_millis();
    let seconds = unix_seconds();
    let after = unix_millis();
    assert!(before > 1_600_000_000_000);
    assert!(before / 1000 <= seconds as u128 && seconds as u128 <= after / 1000);
    assert_eq!(whole_seconds(1999), 1);
}

#[test]
fn clock_readings_are_measured_from_the_epoch() {
    let epoch = std::time::UNIX_EPOCH;
    assert_eq!(millis_at(epoch), 0);
    assert_eq!(
        millis_at(epoch + std::time::Duration::new(12, 345_999_999)),
        12_345
    );
    assert_eq!(millis_at(epoch - std::time::Duration::from_secs(5)), 0);
}
