use doubao_asr::error::Error;

#[test]
fn failures_are_described() {
    assert_eq!(Error::msg("why").message(), "why");
    assert_eq!(Error::detailed("because: ", "x").message(), "because: x");
    assert_eq!(
        Error::NoSpeech.message(),
        "Doubao ASR completed but returned no text"
    );
    assert_eq!(
        Error::Unroutable.message(),
        "Doubao did not provide a routable ASR device"
    );
    assert_eq!(
        Error::ProviderRejected(40100004).message(),
        "Doubao ASR rejected the session (code 40100004)"
    );
    assert_eq!(
        Error::Timeout.message(),
        "operation was cancelled or timed out"
    );
    assert_eq!(Error::Io("disk full".to_owned()).message(), "disk full");
}

#[test]
fn only_rejections_ask_for_new_credentials() {
    assert!(Error::Unroutable.should_refresh_credentials());
    assert!(Error::ProviderRejected(0).should_refresh_credentials());
    for error in [
        Error::msg("x"),
        Error::NoSpeech,
        Error::Timeout,
        Error::Io(String::new()),
    ] {
        assert!(!error.should_refresh_credentials());
    }
}
