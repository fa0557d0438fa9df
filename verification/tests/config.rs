use doubao_asr::config::Config;
use doubao_asr::credentials::Credentials;
use doubao_asr::provider::connection_request;
use serde_json::Value;

#[test]
fn url_contains_compatibility_parameters() {
    let c = Credentials::for_test("d", "i", "t");
    let url = Config::new(&c, true).ws_url().unwrap();
    assert_eq!(
        url.query_pairs().find(|(k, _)| k == "aid").unwrap().1,
        "401734"
    );
    assert_eq!(url.query_pairs().find(|(k, _)| k == "did").unwrap().1, "d");
}

#[test]
fn session_punctuation_is_configurable() {
    let c = Credentials::for_test("d", "i", "t");
    let v: Value = serde_json::from_slice(&Config::new(&c, false).session_json()).unwrap();
    assert_eq!(v["enable_punctuation"], false);
    assert_eq!(v["audio_info"]["format"], "speech_opus");
}

#[test]
fn session_url_lists_every_parameter_once() {
    let c = Credentials::for_test("d&1", "i 2", "t");
    let mut config = Config::new(&c, true);
    config.websocket_url = "wss://example.com/ws?old=1".to_owned();
    let url = config.ws_url().unwrap();
    let pairs: Vec<(String, String)> = url.query_pairs().into_owned().collect();
    let expected = [
        ("uid", "0"),
        ("aid", "401734"),
        ("app_name", "oime"),
        ("did", "d&1"),
        ("iid", "i 2"),
        ("install_id", "i 2"),
        ("channel", "official"),
        ("os_version", "9"),
        ("version_code", "100311008"),
        ("update_version_code", "100311008"),
        ("version_name", "1.3.11"),
        ("device_platform", "android"),
        ("device_type", "Redmi Note 7"),
        ("brand", "xiaomi"),
        ("device_id", "d&1"),
        ("ip", "0"),
        ("user_agent", ""),
        ("forwarded", ""),
        ("target", ""),
        ("mobile", ""),
    ];
    assert_eq!(pairs.len(), expected.len());
    for (pair, (name, value)) in pairs.iter().zip(expected) {
        assert_eq!((pair.0.as_str(), pair.1.as_str()), (name, value));
    }
    assert!(url.as_str().starts_with("wss://example.com/ws?uid=0&"));
    config.websocket_url = "no url".to_owned();
    assert!(config.ws_url().is_err());
    assert_eq!(
        connection_request(&config).err().unwrap().message(),
        "could not prepare Doubao ASR connection"
    );
}

#[test]
fn connection_presents_the_device() {
    let c = Credentials::for_test("d", "i", "t");
    let config = Config::new(&c, true);
    let request = connection_request(&config).unwrap();
    assert!(request
        .url
        .as_str()
        .starts_with("wss://frontier-audio-ime-ws.doubao.com/ocean/api/v1/ws?uid=0&aid=401734"));
    assert_eq!(request.headers.len(), 3);
    assert_eq!(request.headers[0], ("user-agent", config.user_agent()));
    assert!(config.user_agent().starts_with("com.bytedance.android.doubaoime/100311008 ("));
    assert_eq!(request.headers[1], ("proto-version", "v2"));
    assert_eq!(request.headers[2], ("x-custom-keepalive", "true"));
}

#[test]
fn session_settings_are_complete() {
    let c = Credentials::for_test("d\"1", "i", "t");
    let text = String::from_utf8(Config::new(&c, true).session_json()).unwrap();
    let v: Value = serde_json::from_str(&text).unwrap();
    // The document is written as its parsed form is: compact, with sorted names.
    assert_eq!(v.to_string(), text);
    assert_eq!(v["enable_punctuation"], true);
    assert_eq!(v["enable_speech_rejection"], false);
    assert_eq!(v["audio_info"]["channel"], 1);
    assert_eq!(v["audio_info"]["sample_rate"], 16000);
    let extra = v["extra"].as_object().unwrap();
    assert_eq!(extra.len(), 27);
    assert_eq!(extra["did"], "d\"1");
    assert_eq!(extra["cell_compress_rate"], 8);
    assert_eq!(extra["end_smooth_window_ms"], 800);
    assert_eq!(extra["network_change"]["switch_network_rtt_threshold"], 273);
    assert_eq!(extra["retry_server_code"][3], 50700000);
    assert_eq!(extra["s2a_send_commands"][0], "帮我发送");
    assert_eq!(extra["use_twopass_retry"], true);
    assert_eq!(extra["strong_ddc"], false);
}
