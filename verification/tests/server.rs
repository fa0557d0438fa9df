use base64::engine::general_purpose::STANDARD;
use base64::Engine;
use doubao_asr::client::{Transcript, PROVIDER};
use doubao_asr::clock::unix_seconds;
use doubao_asr::error::Error;
use doubao_asr::server::app::{
    authorize, completion_response, completion_response_at, get_model, health, last_answer,
    list_models, request_id, request_id_or, streaming_response, streaming_response_at, Answer,
    AnswerBody, ApiError, AppConfig, ChatAction, ChatFlow, Payload,
};
use doubao_asr::server::audio_input::{
    decode_base64, extension_for_mime, file_name, judge_decoded, judge_scheme, materialize,
    split_data_url, AudioPlan, Download, SourceKind, MAX_AUDIO_BYTES, MAX_ENCODED_BYTES,
    MAX_JSON_BYTES,
};
use doubao_asr::server::protocol::{
    extract_audio, AudioSource, AudioUrl, ChatCompletionRequest, ChatMessage, ContentPart,
    InputAudio, MessageContent,
};
use doubao_asr::server::settings::{assemble, Settings};
use serde_json::Value;

fn request(parts: Vec<ContentPart>) -> ChatCompletionRequest {
    ChatCompletionRequest {
        model: "doubao-asr".to_owned(),
        messages: vec![ChatMessage {
            role: "user".to_owned(),
            content: MessageContent::Parts(parts),
        }],
        stream: false,
    }
}

fn input_audio() -> ContentPart {
    ContentPart::InputAudio {
        input_audio: InputAudio {
            data: "YQ==".to_owned(),
            format: "wav".to_owned(),
        },
    }
}

fn audio_url() -> ContentPart {
    ContentPart::AudioUrl {
        audio_url: AudioUrl {
            url: "https://example.com/a.wav".to_owned(),
        },
    }
}

#[test]
fn extracts_both_audio_schemas() {
    let (source, _) = extract_audio(request(vec![input_audio()]), "doubao-asr").unwrap();
    assert!(matches!(source, AudioSource::InputAudio { .. }));

    let (source, _) = extract_audio(request(vec![audio_url()]), "doubao-asr").unwrap();
    assert!(matches!(source, AudioSource::AudioUrl(_)));
}

#[test]
fn requires_exactly_one_audio_and_known_model() {
    assert!(extract_audio(request(vec![]), "doubao-asr").is_err());
    assert!(extract_audio(request(vec![input_audio(), audio_url()]), "doubao-asr").is_err());
    let mut wrong = request(vec![input_audio()]);
    wrong.model = "other".into();
    assert_eq!(
        extract_audio(wrong, "doubao-asr").unwrap_err().status,
        axum::http::StatusCode::NOT_FOUND.as_u16()
    );
}

#[test]
fn other_parts_and_messages_are_passed_over() {
    let text = || ContentPart::Text {
        text: "please".to_owned(),
    };
    let mut mixed = request(vec![text(), audio_url(), text()]);
    mixed.stream = true;
    mixed.messages.insert(
        0,
        ChatMessage {
            role: "system".to_owned(),
            content: MessageContent::Parts(vec![ContentPart::Unsupported, input_audio()]),
        },
    );
    mixed.messages.push(ChatMessage {
        role: "user".to_owned(),
        content: MessageContent::Text("hello".to_owned()),
    });
    let (source, stream) = extract_audio(mixed, "doubao-asr").unwrap();
    assert!(stream);
    match source {
        AudioSource::AudioUrl(url) => assert_eq!(url, "https://example.com/a.wav"),
        _ => panic!("no URL"),
    }
    for (parts, message) in [
        (
            vec![audio_url(), ContentPart::Unsupported, audio_url()],
            "unsupported user content part",
        ),
        (
            vec![audio_url(), audio_url(), ContentPart::Unsupported],
            "exactly one audio input is required",
        ),
        (vec![text()], "exactly one audio input is required"),
    ] {
        let error = extract_audio(request(parts), "doubao-asr").unwrap_err();
        assert_eq!(error.status, 400);
        assert_eq!(error.message, message);
        assert_eq!(error.param, Some("messages"));
    }
    let mut wrong = request(vec![]);
    wrong.model = "o`".to_owned();
    assert_eq!(
        extract_audio(wrong, "m").unwrap_err().message,
        "The model `o`` does not exist"
    );
}

fn config(api_key: Option<&str>) -> AppConfig {
    AppConfig {
        model: "doubao-asr".to_owned(),
        api_key: api_key.map(str::to_owned),
        max_concurrency: 2,
        request_timeout: 5,
    }
}

fn chat_request(streaming: bool) -> ChatCompletionRequest {
    let mut request = request(vec![ContentPart::InputAudio {
        input_audio: InputAudio {
            data: STANDARD.encode(b"RIFFdata"),
            format: "wav".to_owned(),
        },
    }]);
    request.stream = streaming;
    request
}

fn transcript() -> Transcript {
    Transcript {
        text: "测试文本".to_owned(),
        duration_ms: 1000,
        frames: 50,
        provider: PROVIDER.to_owned(),
    }
}

fn json(answer: &Answer) -> Value {
    match &answer.body {
        AnswerBody::Json(body) => serde_json::from_str(body).unwrap(),
        AnswerBody::Events(_) => panic!("no document"),
    }
}

fn complete(streaming: bool) -> Answer {
    let config = config(None);
    let mut flow = ChatFlow::new();
    assert!(matches!(
        flow.receive(&config, None, Payload::Parsed(chat_request(streaming))),
        ChatAction::Reserve
    ));
    let source = match flow.reserve(true) {
        ChatAction::Materialize(source) => source,
        _ => panic!("no audio"),
    };
    assert!(matches!(
        materialize(source).unwrap(),
        AudioPlan::Store { .. }
    ));
    assert!(matches!(
        flow.materialize(Ok(())),
        ChatAction::Transcribe
    ));
    last_answer(&config, flow.transcribe(Ok(transcript()))).unwrap()
}

#[test]
fn the_last_action_is_the_answer() {
    let config = config(None);
    let refusal = last_answer(&config, ChatAction::Refuse(ApiError::rate_limited())).unwrap();
    assert_eq!(refusal.status, 429);
    assert_eq!(json(&refusal), json(&ApiError::rate_limited().into_answer()));
    for streaming in [false, true] {
        let action = ChatAction::Complete {
            content: "text".to_owned(),
            streaming,
        };
        let answer = last_answer(&config, action).unwrap();
        assert_eq!(answer.status, 200);
        assert_eq!(matches!(answer.body, AnswerBody::Events(_)), streaming);
    }
    assert!(last_answer(&config, ChatAction::Reserve).is_none());
    assert!(last_answer(&config, ChatAction::Transcribe).is_none());
}

#[test]
fn completions_are_dated_by_the_clock() {
    let before = unix_seconds();
    let plain = json(&completion_response("m", "x"))["created"].as_u64().unwrap();
    let streamed = match streaming_response("m", "x").body {
        AnswerBody::Events(events) => {
            let first: Value = serde_json::from_str(&events[0]).unwrap();
            first["created"].as_u64().unwrap()
        }
        AnswerBody::Json(_) => panic!("no events"),
    };
    let after = unix_seconds();
    assert!(before <= plain && plain <= after);
    assert!(before <= streamed && streamed <= after);
}

#[test]
fn texts_do_not_matter_wherever_they_stand() {
    let text = |value: &str| ContentPart::Text {
        text: value.to_owned(),
    };
    let user = |parts: Vec<ContentPart>| ChatMessage {
        role: "user".to_owned(),
        content: MessageContent::Parts(parts),
    };
    let mut spread = request(vec![text("a")]);
    spread.messages.push(user(vec![audio_url(), text("b"), text("")]));
    spread.messages.push(user(vec![text("c")]));
    let (source, stream) = extract_audio(spread, "doubao-asr").unwrap();
    assert!(!stream);
    match source {
        AudioSource::AudioUrl(url) => assert_eq!(url, "https://example.com/a.wav"),
        _ => panic!("no URL"),
    }
    let mut twice = request(vec![audio_url()]);
    twice.messages.push(user(vec![text("a"), input_audio()]));
    assert_eq!(
        extract_audio(twice, "doubao-asr").unwrap_err().message,
        "exactly one audio input is required"
    );
}

#[test]
fn returns_standard_completion_and_delayed_sse() {
    let response = complete(false);
    assert_eq!(response.status, axum::http::StatusCode::OK.as_u16());
    let value = json(&response);
    assert_eq!(value["object"], "chat.completion");
    assert_eq!(value["choices"][0]["message"]["content"], "测试文本");

    let response = complete(true);
    assert_eq!(response.status, axum::http::StatusCode::OK.as_u16());
    match response.body {
        AnswerBody::Events(events) => {
            assert!(events[1].contains("测试文本"));
            assert_eq!(events[3], "[DONE]");
        }
        AnswerBody::Json(_) => panic!("no events"),
    }
}

#[test]
fn enforces_optional_bearer_auth_and_models() {
    let mut flow = ChatFlow::new();
    match flow.receive(
        &config(Some("secret")),
        None,
        Payload::Parsed(chat_request(false)),
    ) {
        ChatAction::Refuse(error) => assert_eq!(
            error.status,
            axum::http::StatusCode::UNAUTHORIZED.as_u16()
        ),
        _ => panic!("not refused"),
    }
    let response = list_models(&config(None), None);
    assert_eq!(response.status, axum::http::StatusCode::OK.as_u16());
}

#[test]
fn rejects_requests_above_the_concurrency_limit() {
    let config = config(None);
    let mut second = ChatFlow::new();
    second.receive(&config, None, Payload::Parsed(chat_request(false)));
    match second.reserve(false) {
        ChatAction::Refuse(error) => assert_eq!(
            error.status,
            axum::http::StatusCode::TOO_MANY_REQUESTS.as_u16()
        ),
        _ => panic!("not refused"),
    }
}

#[test]
fn only_the_key_lets_in() {
    let keyed = config(Some("secret"));
    assert!(authorize(&keyed, Some(b"Bearer secret")).is_ok());
    for header in [
        &b"Bearer secret "[..],
        b"Bearer Secret",
        b"Bearer ",
        b"bearer secret",
        b"secret",
        b"Bearer secre",
        b"Bearer secret\xc3",
        b"",
    ] {
        let error = authorize(&keyed, Some(header)).unwrap_err();
        assert_eq!(error.status, 401);
        assert_eq!(error.code, "invalid_api_key");
    }
    assert!(authorize(&keyed, None).is_err());
    assert!(authorize(&config(None), Some(b"anything")).is_ok());
    // A key beyond ASCII cannot stand in a header that is read as text.
    assert!(authorize(&config(Some("é")), Some("Bearer é".as_bytes())).is_err());
    assert_eq!(list_models(&keyed, None).status, 401);
    assert_eq!(get_model(&keyed, None, "doubao-asr").status, 401);
}

#[test]
fn models_are_described() {
    let config = config(None);
    let list = json(&list_models(&config, None));
    assert_eq!(list["object"], "list");
    assert_eq!(list["data"][0]["id"], "doubao-asr");
    let model = json(&get_model(&config, None, "doubao-asr"));
    assert_eq!(model, list["data"][0]);
    assert_eq!(model["object"], "model");
    assert_eq!(model["created"], 0);
    assert_eq!(model["owned_by"], "doubao");
    let missing = get_model(&config, None, "gpt");
    assert_eq!(missing.status, 404);
    let error = json(&missing);
    assert_eq!(
        error["error"]["message"],
        "The model `gpt` does not exist"
    );
    assert_eq!(json(&health())["status"], "ok");
    assert_eq!(health().status, 200);
}

#[test]
fn completions_are_written_exactly() {
    match completion_response_at("chatcmpl-1", 7, "m", "a\"b").body {
        AnswerBody::Json(body) => assert_eq!(
            body,
            r#"{"choices":[{"finish_reason":"stop","index":0,"message":{"content":"a\"b","role":"assistant"}}],"created":7,"id":"chatcmpl-1","model":"m","object":"chat.completion"}"#
        ),
        AnswerBody::Events(_) => panic!("no document"),
    }
    match streaming_response_at("chatcmpl-1", 7, "m", "a\"b").body {
        AnswerBody::Events(events) => assert_eq!(
            events,
            [
                r#"{"choices":[{"delta":{"content":"","role":"assistant"},"finish_reason":null,"index":0}],"created":7,"id":"chatcmpl-1","model":"m","object":"chat.completion.chunk"}"#,
                r#"{"choices":[{"delta":{"content":"a\"b"},"finish_reason":null,"index":0}],"created":7,"id":"chatcmpl-1","model":"m","object":"chat.completion.chunk"}"#,
                r#"{"choices":[{"delta":{},"finish_reason":"stop","index":0}],"created":7,"id":"chatcmpl-1","model":"m","object":"chat.completion.chunk"}"#,
                "[DONE]",
            ]
        ),
        AnswerBody::Json(_) => panic!("no events"),
    }
    let value = json(&completion_response("m", "x"));
    let id = value["id"].as_str().unwrap();
    assert!(id.starts_with("chatcmpl-"));
    assert_eq!(id.len(), 9 + 36);
    assert!(value["created"].as_u64().unwrap() > 1_600_000_000);
}

#[test]
fn refusals_are_written_exactly() {
    assert_eq!(
        ApiError::invalid_request("a\"b", None).body(),
        r#"{"error":{"message":"a\"b","type":"invalid_request_error","param":null,"code":"invalid_request"}}"#
    );
    for (error, status, kind, param, code, message) in [
        (
            ApiError::payload_too_large(),
            413,
            "invalid_request_error",
            Some("messages"),
            "request_too_large",
            "audio input exceeds the 25 MiB limit",
        ),
        (
            ApiError::rate_limited(),
            429,
            "rate_limit_error",
            None,
            "rate_limit_exceeded",
            "the transcription concurrency limit has been reached",
        ),
        (
            ApiError::internal_io(),
            500,
            "api_error",
            None,
            "internal_error",
            "could not prepare the audio input",
        ),
        (
            ApiError::from_provider(Error::Timeout),
            504,
            "api_error",
            None,
            "timeout",
            "transcription timed out",
        ),
        (
            ApiError::from_provider(Error::NoSpeech),
            400,
            "invalid_request_error",
            Some("messages"),
            "invalid_request",
            "the input contains no recognizable speech",
        ),
        (
            ApiError::from_provider(Error::ProviderRejected(5)),
            502,
            "api_error",
            None,
            "upstream_error",
            "Doubao ASR rejected the session (code 5)",
        ),
        (
            ApiError::unauthorized(),
            401,
            "authentication_error",
            None,
            "invalid_api_key",
            "Incorrect API key provided",
        ),
    ] {
        let answer = error.into_answer();
        assert_eq!(answer.status, status);
        let body = json(&answer);
        assert_eq!(body["error"]["type"], kind);
        assert_eq!(body["error"]["param"].as_str(), param);
        assert_eq!(body["error"]["code"], code);
        assert_eq!(body["error"]["message"], message);
    }
}

#[test]
fn requests_are_named() {
    assert_eq!(request_id(Some(b"my id\t1")), "my id\t1");
    assert_eq!(request_id(Some(&[b'x'; 128])).len(), 128);
    for header in [
        None,
        Some(&b""[..]),
        Some(&[b'x'; 129][..]),
        Some("é".as_bytes()),
        Some(b"a\x7f"),
        Some(b"a\n"),
    ] {
        let name = request_id(header);
        assert!(name.starts_with("req_"));
        assert_eq!(name.len(), 40);
        assert!(axum::http::HeaderValue::from_str(&name).is_ok());
        assert_eq!(request_id_or(header, "u"), "req_u");
    }
    assert_ne!(request_id(None), request_id(None));
}

#[test]
fn requests_are_refused_on_their_way() {
    let config = config(None);
    let refusal = |action| match action {
        ChatAction::Refuse(error) => error,
        _ => panic!("not refused"),
    };
    let mut flow = ChatFlow::new();
    let error: ApiError = refusal(flow.receive(&config, None, Payload::TooLarge));
    assert_eq!(error.status, 413);
    let error = refusal(flow.receive(&config, None, Payload::Invalid));
    assert_eq!(error.message, "request body must be valid JSON");
    assert_eq!(error.param, None);
    let error = refusal(flow.receive(&config, None, Payload::Parsed(request(vec![]))));
    assert_eq!(error.status, 400);
    let error = refusal(flow.time_out());
    assert_eq!(error.status, 504);

    let mut flow = ChatFlow::new();
    flow.receive(&config, None, Payload::Parsed(chat_request(true)));
    flow.reserve(true);
    let error = refusal(flow.materialize(Err(ApiError::bad_gateway("down"))));
    assert_eq!(error.status, 502);
    assert_eq!(error.message, "down");

    let mut flow = ChatFlow::new();
    flow.receive(&config, None, Payload::Parsed(chat_request(true)));
    flow.reserve(true);
    flow.materialize(Ok(()));
    let error = refusal(flow.transcribe(Err(Error::msg("broken"))));
    assert_eq!(error.status, 502);
    assert_eq!(error.message, "broken");
}

#[test]
fn materializes_input_audio_and_data_urls() {
    let plan = materialize(AudioSource::InputAudio {
        data: STANDARD.encode(b"RIFFdata"),
        format: "wav".into(),
    })
    .unwrap();
    match plan {
        AudioPlan::Store {
            bytes,
            extension,
            kind,
        } => {
            assert_eq!(bytes, b"RIFFdata");
            assert_eq!(kind.as_str(), "input_audio");
            assert_eq!(file_name(&extension), "input.wav");
        }
        AudioPlan::Download(_) => panic!("not stored"),
    }

    let plan = materialize(AudioSource::AudioUrl(format!(
        "data:audio/mpeg;base64,{}",
        STANDARD.encode(b"ID3data")
    )))
    .unwrap();
    match plan {
        AudioPlan::Store {
            bytes,
            extension,
            kind,
        } => {
            assert_eq!(bytes.len(), 7);
            assert_eq!(kind.as_str(), "data_url");
            assert_eq!(extension, "mp3");
        }
        AudioPlan::Download(_) => panic!("not stored"),
    }
}

#[test]
fn rejects_invalid_encodings_formats_and_schemes() {
    assert!(materialize(AudioSource::InputAudio {
        data: "not base64".into(),
        format: "wav".into()
    })
    .is_err());
    assert!(materialize(AudioSource::InputAudio {
        data: STANDARD.encode(b"x"),
        format: "flac".into()
    })
    .is_err());
    assert!(materialize(AudioSource::AudioUrl("file:///etc/passwd".into())).is_err());
}

#[test]
fn audio_is_refused_with_a_reason() {
    let refusal = |source| materialize(source).err().unwrap();
    for (url, message) in [
        ("data:audio/wav", "invalid audio data URL"),
        ("data:audio/wav,x", "audio data URL must use base64 encoding"),
        (
            "data:text/plain;base64,eA==",
            "audio data URL must use an audio MIME type",
        ),
        (
            "data:;base64,eA==",
            "audio data URL must use an audio MIME type",
        ),
        ("data:audio/wav;base64,?", "audio data is not valid base64"),
        ("data:audio/wav;base64,", "audio input must not be empty"),
        (
            "file:///tmp/recording.wav",
            "audio_url must be an HTTP(S) or data URL",
        ),
        ("ftp://x/y", "audio_url must be an HTTP(S) or data URL"),
        ("recording.wav", "audio_url must be an HTTP(S) or data URL"),
    ] {
        let error = refusal(AudioSource::AudioUrl(url.to_owned()));
        assert_eq!(error.message, message);
        assert_eq!(error.status, 400);
        assert_eq!(error.param, Some("messages"));
    }
    let error = refusal(AudioSource::InputAudio {
        data: "eA==".to_owned(),
        format: "ogg".to_owned(),
    });
    assert_eq!(error.message, "input_audio format must be wav or mp3");
    match materialize(AudioSource::InputAudio {
        data: "eA==".to_owned(),
        format: "MP3".to_owned(),
    })
    .unwrap()
    {
        AudioPlan::Store {
            bytes, extension, ..
        } => {
            assert_eq!(bytes, b"x");
            assert_eq!(extension, "mp3");
        }
        AudioPlan::Download(_) => panic!("not stored"),
    }
    for url in ["http://localhost/a", "HTTPS://Example.com/b?c#d"] {
        match materialize(AudioSource::AudioUrl(url.to_owned())).unwrap() {
            AudioPlan::Download(found) => assert_eq!(found, url),
            AudioPlan::Store { .. } => panic!("not downloaded"),
        }
    }
    assert!(judge_scheme(Some("http")).is_ok());
    assert!(judge_scheme(Some("https")).is_ok());
    assert!(judge_scheme(Some("httpss")).is_err());
    assert!(judge_scheme(None).is_err());
}

#[test]
fn data_urls_are_taken_apart() {
    assert_eq!(
        split_data_url("data:audio/x-wav;base64,a,b").unwrap(),
        ("wav", "a,b")
    );
    assert_eq!(
        split_data_url("data:audio/x;v=1;base64,").unwrap(),
        ("media", "")
    );
    for (mime, extension) in [
        ("audio/mpeg", "mp3"),
        ("audio/mp3", "mp3"),
        ("audio/wav", "wav"),
        ("audio/x-wav", "wav"),
        ("audio/flac", "flac"),
        ("audio/ogg", "ogg"),
        ("audio/webm", "webm"),
        ("audio/mp4", "m4a"),
        ("audio/aac", "media"),
    ] {
        assert_eq!(extension_for_mime(mime), extension);
    }
}

#[test]
fn audio_is_limited_to_25_mebibytes() {
    assert_eq!(MAX_AUDIO_BYTES, 25 * 1024 * 1024);
    assert_eq!(MAX_JSON_BYTES, 36 * 1024 * 1024);
    assert_eq!(MAX_ENCODED_BYTES, MAX_AUDIO_BYTES * 4 / 3 + 4);
    assert_eq!(
        decode_base64(&"A".repeat(MAX_ENCODED_BYTES + 1))
            .unwrap_err()
            .status,
        413
    );
    assert_eq!(
        judge_decoded(Some(vec![0; MAX_AUDIO_BYTES + 1]))
            .unwrap_err()
            .status,
        413
    );
    assert_eq!(
        judge_decoded(Some(vec![0; MAX_AUDIO_BYTES])).unwrap().len(),
        MAX_AUDIO_BYTES
    );
    assert_eq!(judge_decoded(Some(vec![])).unwrap_err().status, 400);
    assert_eq!(
        judge_decoded(None).unwrap_err().message,
        "audio data is not valid base64"
    );
    assert_eq!(decode_base64("aGk=").unwrap(), b"hi");
}

#[test]
fn audio_in_base64_reads_back() {
    for length in [1, 2, 3, 4, 5, 255, 256] {
        let bytes: Vec<u8> = (0..length).map(|i| (i * 37 % 256) as u8).collect();
        let value = STANDARD.encode(&bytes);
        let found = decode_base64(&value).unwrap();
        assert_eq!(found, bytes);
        assert_eq!(STANDARD.encode(&found), value);
    }
    assert_eq!(decode_base64("+/Aa").unwrap(), [0xfb, 0xf0, 0x1a]);
    let largest = vec![7; MAX_AUDIO_BYTES];
    assert_eq!(decode_base64(&STANDARD.encode(&largest)).unwrap(), largest);
    for extra in [1, 2, 3, 4] {
        let value = STANDARD.encode(vec![7; MAX_AUDIO_BYTES + extra]);
        assert_eq!(decode_base64(&value).unwrap_err().status, 413);
    }
    assert_eq!(decode_base64("").unwrap_err().status, 400);
    // Only the text that the bytes are encoded to is accepted.
    for value in ["aGk", "aGl=", "aGk==", "aG=k", "a===", "aGk=\n", "aG-_", "\u{e4}aa", "aGk=aGk="] {
        assert_eq!(
            decode_base64(value).unwrap_err().message,
            "audio data is not valid base64"
        );
    }
}

#[test]
fn downloads_are_measured() {
    assert_eq!(SourceKind::RemoteUrl.as_str(), "remote_url");
    for status in [199, 300, 404] {
        assert_eq!(
            Download::begin(status, None).err().unwrap().message,
            "audio_url returned a non-success status"
        );
    }
    assert_eq!(
        Download::begin(200, Some(MAX_AUDIO_BYTES as u64 + 1))
            .err()
            .unwrap()
            .status,
        413
    );
    let mut download = Download::begin(200, Some(10)).unwrap();
    download.accept(4).unwrap();
    download.accept(6).unwrap();
    assert_eq!(download.finish().unwrap(), 10);
    let mut download = Download::begin(206, None).unwrap();
    download.accept(MAX_AUDIO_BYTES).unwrap();
    assert_eq!(download.accept(1).unwrap_err().status, 413);
    assert_eq!(download.accept(usize::MAX).unwrap_err().status, 413);
    assert_eq!(
        Download::begin(200, None)
            .unwrap()
            .finish()
            .unwrap_err()
            .message,
        "audio input must not be empty"
    );
    assert_eq!(
        Download::unanswered().message,
        "could not download audio_url"
    );
    assert_eq!(Download::interrupted().message, "audio_url download failed");
}

fn settings() -> Settings {
    Settings {
        credentials: None,
        model: "doubao-asr".to_owned(),
        upload_speed: 1.0f64.to_bits(),
        max_concurrency: 2,
        request_timeout_secs: 1800,
        credential_refresh_secs: 21600,
        api_key: Some(String::new()),
    }
}

#[test]
fn settings_are_checked_and_put_together() {
    let parts = assemble(settings()).unwrap();
    assert!(parts.upkeep);
    assert!(parts.config.api_key.is_none());
    assert_eq!(parts.config.request_timeout, 1800);
    assert_eq!(parts.config.max_concurrency, 2);
    assert_eq!(
        parts.client.options.credential_refresh_interval,
        Some((21600, 0))
    );
    let mut changed = settings();
    changed.credential_refresh_secs = 0;
    changed.api_key = Some("k".to_owned());
    changed.credentials = Some(b"path".to_vec());
    let parts = assemble(changed).unwrap();
    assert!(!parts.upkeep);
    assert_eq!(parts.config.api_key.as_deref(), Some("k"));
    assert!(parts.client.options.credential_refresh_interval.is_none());
    assert_eq!(parts.client.options.credentials_path.unwrap(), b"path");

    let fault = |settings| assemble(settings).err().unwrap().message();
    let mut s = settings();
    s.model = " \u{3000}".to_owned();
    s.max_concurrency = 0;
    assert_eq!(fault(s), "model must not be empty");
    let mut s = settings();
    s.max_concurrency = 0;
    s.request_timeout_secs = 0;
    assert_eq!(fault(s), "max concurrency must be greater than zero");
    let mut s = settings();
    s.request_timeout_secs = 0;
    s.upload_speed = 0;
    assert_eq!(fault(s), "request timeout must be greater than zero");
    let mut s = settings();
    s.upload_speed = 9.0f64.to_bits();
    s.credentials = Some(Vec::new());
    assert_eq!(
        fault(s),
        "upload speed must be greater than 0 and no more than 4"
    );
    let mut s = settings();
    s.credentials = Some(Vec::new());
    assert_eq!(fault(s), "credential path must not be empty");
}

#[test]
fn streamed_events_are_single_lines() {
    match streaming_response_at("id\n", 0, "m\r", "one\ntwo\r\n\u{0}").body {
        AnswerBody::Events(events) => {
            assert_eq!(events.len(), 4);
            for event in &events {
                assert!(event.chars().all(|c| c as u32 >= 32), "{event:?}");
            }
            let value: Value = serde_json::from_str(&events[1]).unwrap();
            assert_eq!(
                value["choices"][0]["delta"]["content"],
                "one\ntwo\r\n\u{0}"
            );
        }
        AnswerBody::Json(_) => panic!("no events"),
    }
}
