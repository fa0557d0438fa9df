use doubao_asr::clock::unix_millis;
use doubao_asr::credentials::{
    device_url, device_url_at, Credentials, Exchange, LimitedBody, MAX_RESPONSE_BYTES,
    REGISTER_URL, SETTINGS_URL,
};
use doubao_asr::error::Error;
use doubao_asr::storage::{
    default_location, load, temporary_name, temporary_name_for, AtomicSave, Purpose, SaveStep,
    StoredFile,
};
use serde_json::Value;

#[test]
fn generated_identifiers_have_expected_shapes() {
    let credentials = Credentials::new();
    assert_eq!(credentials.openudid.len(), 16);
    assert_eq!(credentials.cdid.len(), 36);
    assert_eq!(credentials.clientudid.len(), 36);
}

#[test]
fn device_parameters_match_android_client() {
    let credentials = Credentials::for_test("123", "456", "token");
    let url = device_url(REGISTER_URL, &credentials, true).unwrap();
    let pairs: std::collections::HashMap<_, _> = url.query_pairs().into_owned().collect();
    assert_eq!(pairs.get("aid").unwrap(), "401734");
    assert_eq!(pairs.get("device_id").unwrap(), "123");
    assert_eq!(pairs.get("resolution").unwrap(), "1080*2340");
}

#[test]
fn generated_identifiers_differ() {
    let one = Credentials::new();
    let two = Credentials::new();
    assert_ne!(one.cdid, two.cdid);
    assert_ne!(one.cdid, one.clientudid);
    assert_ne!(one.openudid, two.openudid);
    assert!(one.openudid.bytes().all(|b| b.is_ascii_hexdigit()));
    assert_eq!(one.cdid.as_bytes()[14], b'4');
    assert!(!one.complete());
    assert_eq!(one.refreshed_at, 0);
    let fixed = Credentials::unregistered("c".to_owned(), &[0x0f, 0xa0], "u".to_owned());
    assert_eq!(fixed.openudid, "0fa0");
    assert_eq!(fixed.cdid, "c");
    assert_eq!(fixed.clientudid, "u");
}

#[test]
fn device_url_carries_the_time() {
    let credentials = Credentials::for_test("12 3", "456", "token");
    let url = device_url_at("https://example.com/x/?a=b", &credentials, true, 1234).unwrap();
    assert_eq!(
        url.as_str(),
        "https://example.com/x/?a=b&device_platform=android&os=android&ssmix=a&_rticket=1234\
         &cdid=00000000-0000-4000-8000-000000000000&aid=401734&app_name=oime\
         &version_code=100311008&version_name=1.3.11&channel=official&ac=wifi\
         &resolution=1080*2340&dpi=440&device_type=Redmi+Note+7&device_brand=xiaomi\
         &language=zh&os_api=28&os_version=9&device_id=12+3"
    );
    let url = device_url_at(SETTINGS_URL, &credentials, false, 0).unwrap();
    assert!(url.query_pairs().all(|(name, _)| name != "device_id"));
    assert_eq!(
        device_url_at("nowhere", &credentials, true, 0)
            .unwrap_err()
            .message(),
        "could not prepare Doubao request"
    );
}

#[test]
fn registration_describes_the_device() {
    let mut credentials = Credentials::for_test("", "", "");
    credentials.cdid = "c\"".to_owned();
    credentials.openudid = "o".to_owned();
    credentials.clientudid = "u".to_owned();
    let request = credentials.registration_request_at(1700000000123, 5).unwrap();
    assert!(request.url.as_str().starts_with(REGISTER_URL));
    assert!(request.url.as_str().contains("&_rticket=5&"));
    assert_eq!(request.headers.len(), 2);
    assert_eq!(request.headers[1].0, "content-type");
    assert_eq!(request.headers[1].1, "application/json");
    let v: Value = serde_json::from_str(&request.body).unwrap();
    assert_eq!(v.to_string(), request.body);
    assert_eq!(v["_gen_time"], 1700000000123u64);
    assert_eq!(v["magic_tag"], "ss_app_log");
    let header = v["header"].as_object().unwrap();
    assert_eq!(header.len(), 39);
    for (name, value) in [
        ("app_name", "oime"),
        ("version_name", "1.3.11"),
        ("channel", "official"),
        ("package", "com.bytedance.android.doubaoime"),
        ("device_platform", "android"),
        ("os", "android"),
        ("os_api", "28"),
        ("os_version", "9"),
        ("device_type", "Redmi Note 7"),
        ("device_brand", "xiaomi"),
        ("device_model", "Redmi Note 7"),
        ("resolution", "1080*2340"),
        ("dpi", "440"),
        ("language", "zh"),
        ("access", "wifi"),
        ("rom", "PKQ1.181121.001"),
        ("rom_version", "PKQ1.181121.001"),
        ("openudid", "o"),
        ("clientudid", "u"),
        ("cdid", "c\""),
        ("region", "CN"),
        ("tz_name", "Asia/Shanghai"),
        ("sim_region", "cn"),
        ("carrier_region", "cn"),
        ("cpu_abi", "arm64-v8a"),
        ("build_serial", "unknown"),
        ("sig_hash", ""),
        ("google_aid", ""),
        ("mc", ""),
        ("serial_number", ""),
    ] {
        assert_eq!(header[name], value, "{name}");
    }
    for (name, value) in [
        ("device_id", 0),
        ("install_id", 0),
        ("aid", 401734),
        ("version_code", 100311008),
        ("manifest_version_code", 100311008),
        ("update_version_code", 100311008),
        ("timezone", 8),
        ("tz_offset", 28800),
        ("not_request_sender", 0),
    ] {
        assert_eq!(header[name], value, "{name}");
    }
    let now = credentials.registration_request().unwrap();
    let dated: Value = serde_json::from_str(&now.body).unwrap();
    assert!(dated["_gen_time"].as_u64().unwrap() > 1_600_000_000_000);
}

#[test]
fn token_request_carries_the_digest_of_its_body() {
    let credentials = Credentials::for_test("123", "456", "");
    let request = credentials.token_request_at(7).unwrap();
    assert!(request.url.as_str().starts_with(SETTINGS_URL));
    assert!(request.url.as_str().ends_with("&device_id=123"));
    assert_eq!(request.body, "body=null");
    assert_eq!(request.headers[1].0, "x-ss-stub");
    assert_eq!(
        request.headers[1].1,
        format!("{:X}", md5::compute("body=null"))
    );
    assert_eq!(request.headers[1].1.len(), 32);
    assert_eq!(request.headers[2].1, "application/x-www-form-urlencoded");
    assert!(credentials.token_request().is_ok());
}

#[test]
fn exchanges_fail_in_their_own_words() {
    for (exchange, unsent, refused, invalid) in [
        (
            Exchange::Registration,
            "Doubao device registration request failed",
            "Doubao device registration failed with HTTP 503",
            "Doubao device registration returned an invalid response",
        ),
        (
            Exchange::Token,
            "Doubao ASR token request failed",
            "Doubao ASR token request failed with HTTP 503",
            "Doubao ASR token response was invalid",
        ),
    ] {
        assert_eq!(exchange.unsent().message(), unsent);
        assert_eq!(exchange.check_status(503).unwrap_err().message(), refused);
        assert_eq!(exchange.invalid().message(), invalid);
        for status in [200, 204, 299] {
            assert!(exchange.check_status(status).is_ok());
        }
        for status in [100, 199, 300, 404] {
            assert!(exchange.check_status(status).is_err());
        }
        assert_eq!(
            LimitedBody::begin(exchange, Some(MAX_RESPONSE_BYTES as u64 + 1))
                .err()
                .unwrap()
                .message(),
            invalid
        );
    }
}

#[test]
fn bodies_are_read_up_to_a_mebibyte() {
    let mut body = LimitedBody::begin(Exchange::Token, Some(1 << 20)).unwrap();
    let half = vec![1u8; 1 << 19];
    body.push(&half).unwrap();
    body.push(&half).unwrap();
    assert_eq!(
        body.push(&[1]).unwrap_err().message(),
        "Doubao ASR token response was invalid"
    );
    body.push(&[]).unwrap();
    assert_eq!(body.finish(), vec![1u8; 1 << 20]);
    let mut body = LimitedBody::begin(Exchange::Registration, None).unwrap();
    assert!(body.push(&vec![0; (1 << 20) + 1]).is_err());
    assert!(body.finish().is_empty());
}

#[test]
fn registration_and_token_complete_the_credentials() {
    let mut credentials = Credentials::new();
    let cdid = credentials.cdid.clone();
    for (device, install) in [(0, 1), (1, 0)] {
        assert_eq!(
            credentials
                .accept_registration(device, install)
                .unwrap_err()
                .message(),
            "Doubao device registration returned an invalid response"
        );
    }
    credentials.accept_registration(7, -8).unwrap();
    assert_eq!(credentials.device_id, "7");
    assert_eq!(credentials.install_id, "-8");
    assert!(!credentials.complete());
    for body in [
        &b"not json"[..],
        br#"{"data":{}}"#,
        br#"{"data":{"settings":{"asr_config":{"app_key":""}}}}"#,
        br#"{"data":{"settings":{"asr_config":{"app_key":5}}}}"#,
    ] {
        assert_eq!(
            credentials.accept_token(body, 9).unwrap_err().message(),
            "Doubao ASR token response was invalid"
        );
        assert_eq!(credentials.token, "");
        assert_eq!(credentials.refreshed_at, 0);
    }
    credentials
        .accept_token(
            br#"{"data":{"settings":{"asr_config":{"app_key":"SECRET-REDACTED"}}}}"#,
            9,
        )
        .unwrap();
    assert_eq!(credentials.token, "SECRET-REDACTED");
    assert_eq!(credentials.refreshed_at, 9);
    assert_eq!(credentials.cdid, cdid);
    assert!(credentials.complete());
    // A refresh keeps the device.
    let mut refreshed = credentials.clone();
    refreshed.adopt_token(Some("other".to_owned()), 10).unwrap();
    assert_eq!(refreshed.device_id, credentials.device_id);
    assert_eq!(refreshed.install_id, credentials.install_id);
    assert_eq!(refreshed.openudid, credentials.openudid);
    assert_eq!(refreshed.token, "other");
    assert_eq!(refreshed.refreshed_at, 10);
    assert!(refreshed.adopt_token(None, 11).is_err());
    assert!(refreshed.adopt_token(Some(String::new()), 11).is_err());
    assert_eq!(refreshed.refreshed_at, 10);
}

#[test]
fn refresh_is_due_after_the_interval() {
    let mut credentials = Credentials::for_test("1", "2", "t");
    assert_eq!(credentials.refresh_due_at(60), 60);
    credentials.refreshed_at = u64::MAX - 1;
    assert_eq!(credentials.refresh_due_at(60), u64::MAX);
}

#[test]
fn missing_file_loads_as_none() {
    assert!(load(StoredFile::Missing).unwrap().is_none());
}

#[test]
fn malformed_and_incomplete_files_are_rejected_safely() {
    assert!(load(StoredFile::Malformed)
        .err()
        .unwrap()
        .message()
        .contains("malformed"));
    let stored = Credentials::for_test("1", "2", "");
    let error = load(StoredFile::Parsed(stored)).err().unwrap();
    assert!(error.message().contains("incomplete"));
    assert_eq!(
        load(StoredFile::Unreadable("denied".to_owned()))
            .err()
            .unwrap()
            .message(),
        "read ASR credentials: denied"
    );
    let stored = Credentials::for_test("3", "4", "secret-two");
    let loaded = load(StoredFile::Parsed(stored)).unwrap().unwrap();
    assert_eq!(loaded.device_id, "3");
    assert_eq!(loaded.token, "secret-two");
}

fn steps(mut save: AtomicSave, fail_at: Option<SaveStep>) -> (Vec<SaveStep>, Result<(), Error>) {
    let mut taken = Vec::new();
    while save.step() != SaveStep::Finished {
        let step = save.step();
        taken.push(step);
        save.advance(if Some(step) == fail_at || step == SaveStep::Discard {
            Err("why".to_owned())
        } else {
            Ok(())
        });
    }
    (taken, save.finish())
}

#[test]
fn credentials_are_replaced_as_a_whole() {
    let credentials = Credentials::for_test("1", "2", "secret");
    let start = |modes, existed| AtomicSave::credentials(&credentials, modes, existed).unwrap();
    let (taken, result) = steps(start(true, false), None);
    assert!(result.is_ok());
    assert_eq!(
        taken,
        [
            SaveStep::CreateDirectory,
            SaveStep::ProtectDirectory,
            SaveStep::Encode,
            SaveStep::CreateTemporary,
            SaveStep::Write,
            SaveStep::Flush,
            SaveStep::Sync,
            SaveStep::ProtectTemporary,
            SaveStep::Replace,
        ]
    );
    let (taken, _) = steps(start(true, true), None);
    assert!(!taken.contains(&SaveStep::ProtectDirectory));
    assert!(taken.contains(&SaveStep::ProtectTemporary));
    let (taken, _) = steps(start(false, false), None);
    assert!(!taken.contains(&SaveStep::ProtectDirectory));
    assert!(!taken.contains(&SaveStep::ProtectTemporary));
    for (step, message, discards) in [
        (SaveStep::CreateDirectory, "create credential directory: why", false),
        (SaveStep::ProtectDirectory, "protect credential directory: why", false),
        (SaveStep::Encode, "encode ASR credentials", false),
        (SaveStep::CreateTemporary, "create temporary credential file: why", true),
        (SaveStep::Write, "write ASR credentials: why", true),
        (SaveStep::Flush, "write ASR credentials: why", true),
        (SaveStep::Sync, "write ASR credentials: why", true),
        (SaveStep::ProtectTemporary, "protect ASR credentials: why", true),
        (SaveStep::Replace, "replace ASR credentials: why", true),
    ] {
        let (taken, result) = steps(start(true, false), Some(step));
        assert_eq!(result.unwrap_err().message(), message);
        assert_eq!(taken.last() == Some(&SaveStep::Discard), discards);
        assert_eq!(
            taken.contains(&SaveStep::Replace),
            step == SaveStep::Replace
        );
    }
    assert_eq!(
        AtomicSave::credentials(&Credentials::new(), true, true)
            .err()
            .unwrap()
            .message(),
        "refusing to save incomplete ASR credentials"
    );
}

#[test]
fn transcripts_are_replaced_as_a_whole() {
    let (taken, result) = steps(AtomicSave::transcript(), None);
    assert!(result.is_ok());
    assert_eq!(
        taken,
        [
            SaveStep::CreateDirectory,
            SaveStep::CreateTemporary,
            SaveStep::Write,
            SaveStep::Flush,
            SaveStep::Sync,
            SaveStep::Replace,
        ]
    );
    let (taken, result) = steps(AtomicSave::transcript(), Some(SaveStep::Sync));
    assert_eq!(result.unwrap_err().message(), "why");
    assert_eq!(taken.last(), Some(&SaveStep::Discard));
}

#[test]
fn files_have_their_names() {
    assert_eq!(
        default_location(true).unwrap(),
        ("doubao-asr-skill", "asr_credentials.json")
    );
    assert_eq!(
        default_location(false).unwrap_err().message(),
        "find user config directory: no user config directory is available"
    );
    assert_eq!(
        temporary_name_for(Purpose::Credentials, "u"),
        ".asr_credentials.u.tmp"
    );
    assert_eq!(
        temporary_name_for(Purpose::Transcript, "u"),
        ".transcript.u.tmp"
    );
    let name = temporary_name(Purpose::Transcript);
    assert_eq!(name.len(), ".transcript..tmp".len() + 36);
    assert_ne!(name, temporary_name(Purpose::Transcript));
}

/// A file and its temporary file, as the steps of a save change them.
#[derive(Clone, Debug, Default, PartialEq)]
struct Files {
    target: Option<String>,
    temporary: Option<String>,
}

fn save_to(files: &mut Files, token: &str, fail_at: Option<SaveStep>) -> Result<(), Error> {
    let credentials = Credentials::for_test("device", "install", token);
    let mut save = AtomicSave::credentials(&credentials, true, false).unwrap();
    loop {
        let step = save.step();
        let mut outcome = Ok(());
        if Some(step) == fail_at {
            outcome = Err("failed".to_owned());
        }
        match step {
            SaveStep::Finished => return save.finish(),
            SaveStep::Discard => files.temporary = None,
            // A write that fails may leave a part behind.
            SaveStep::Write if outcome.is_err() => files.temporary = Some("sec".to_owned()),
            _ if outcome.is_err() => {}
            SaveStep::CreateTemporary => {
                assert!(files.temporary.is_none());
                files.temporary = Some(String::new());
            }
            SaveStep::Write => files.temporary = Some(credentials.token.clone()),
            SaveStep::Replace => files.target = files.temporary.take(),
            _ => {}
        }
        save.advance(outcome);
    }
}

#[test]
fn the_second_save_is_what_loads() {
    let mut files = Files::default();
    save_to(&mut files, "secret-one", None).unwrap();
    save_to(&mut files, "secret-two", None).unwrap();
    assert!(files.temporary.is_none());
    let token = files.target.clone().unwrap();
    let stored = StoredFile::Parsed(Credentials::for_test("device", "install", &token));
    assert_eq!(load(stored).unwrap().unwrap().token, "secret-two");
    // A save that fails leaves what was there, and no temporary file.
    for step in [
        SaveStep::CreateDirectory,
        SaveStep::ProtectDirectory,
        SaveStep::Encode,
        SaveStep::CreateTemporary,
        SaveStep::Write,
        SaveStep::Flush,
        SaveStep::Sync,
        SaveStep::ProtectTemporary,
        SaveStep::Replace,
    ] {
        let before = files.clone();
        assert!(save_to(&mut files, "secret-three", Some(step)).is_err());
        assert_eq!(files, before);
    }
}

#[test]
fn descriptions_leave_the_token_out() {
    let credentials = Credentials::for_test("12\"3", "456", "secret");
    assert_eq!(
        credentials.describe(),
        [
            r#"Credentials { device_id: "12\"3", install_id: "456", "#,
            r#"cdid: "00000000-0000-4000-8000-000000000000", "#,
            r#"openudid: "0000000000000000", "#,
            r#"clientudid: "00000000-0000-4000-8000-000000000000", "#,
            r#"token: "[REDACTED]" }"#,
        ]
        .concat()
    );
    let other = Credentials::for_test("12\"3", "456", "another");
    assert_eq!(credentials.describe(), other.describe());
}

#[test]
fn parameters_go_before_a_fragment() {
    let credentials = Credentials::for_test("123", "456", "token");
    let url = device_url_at("https://host/path?a=b#part", &credentials, true, 7).unwrap();
    assert!(url.as_str().starts_with("https://host/path?a=b&device_platform=android&"));
    assert!(url.as_str().ends_with("&device_id=123#part"));
}

#[test]
fn requests_are_dated_by_the_clock() {
    let credentials = Credentials::for_test("123", "456", "token");
    let before = unix_millis();
    let urls = [
        device_url(SETTINGS_URL, &credentials, true).unwrap(),
        credentials.registration_request().unwrap().url,
        credentials.token_request().unwrap().url,
    ];
    let body = credentials.registration_request().unwrap().body;
    let document: Value = serde_json::from_str(&body).unwrap();
    let after = unix_millis();
    let dated = document["_gen_time"].as_u64().unwrap() as u128;
    assert!(before <= dated && dated <= after);
    for url in urls {
        let ticket = url
            .query_pairs()
            .find(|pair| pair.0 == "_rticket")
            .unwrap()
            .1
            .into_owned();
        let ticket: u128 = ticket.parse().unwrap();
        assert!(before <= ticket && ticket <= after);
    }
}
