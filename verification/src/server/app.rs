//! Answers of the server.

use subtle::ConstantTimeEq;
use vstd::prelude::*;
use crate::client::Transcript;
use crate::clock;
use crate::error::Error;
use crate::identity;
use crate::json;
use crate::server::protocol;
use crate::server::protocol::{AudioSource, ChatCompletionRequest};
use crate::text;

verus! {

/// An answer that refuses a request.
#[derive(Debug)]
pub struct ApiError {
    /// The HTTP status.
    pub status: u16,
    pub message: String,
    pub error_type: &'static str,
    pub param: Option<&'static str>,
    pub code: &'static str,
}

/// What an [`ApiError`] says.
#[verifier::ext_equal]
pub struct ApiErrorModel {
    pub status: u16,
    pub message: Seq<char>,
    pub error_type: Seq<char>,
    pub param: Option<Seq<char>>,
    pub code: Seq<char>,
}

impl View for ApiError {
    type V = ApiErrorModel;

    open spec fn view(&self) -> ApiErrorModel {
        ApiErrorModel {
            status: self.status,
            message: self.message@,
            error_type: self.error_type@,
            param: text::optional(self.param),
            code: self.code@,
        }
    }
}

/// The answer to a request that is not valid.
pub open spec fn invalid_request_answer(
    message: Seq<char>,
    param: Option<Seq<char>>,
) -> ApiErrorModel {
    ApiErrorModel {
        status: 400,
        message,
        error_type: "invalid_request_error"@,
        param,
        code: "invalid_request"@,
    }
}

/// The answer to a request whose messages are not valid.
pub open spec fn invalid_messages_answer(message: Seq<char>) -> ApiErrorModel {
    invalid_request_answer(message, Some("messages"@))
}

/// The answer to a request for another model.
pub open spec fn model_not_found_answer(model: Seq<char>) -> ApiErrorModel {
    ApiErrorModel {
        status: 404,
        message: "The model `"@ + model + "` does not exist"@,
        error_type: "invalid_request_error"@,
        param: Some("model"@),
        code: "model_not_found"@,
    }
}

/// The answer to a request that is too large.
pub open spec fn payload_too_large_answer() -> ApiErrorModel {
    ApiErrorModel {
        status: 413,
        message: "audio input exceeds the 25 MiB limit"@,
        error_type: "invalid_request_error"@,
        param: Some("messages"@),
        code: "request_too_large"@,
    }
}

/// The answer to a request without the API key.
pub open spec fn unauthorized_answer() -> ApiErrorModel {
    ApiErrorModel {
        status: 401,
        message: "Incorrect API key provided"@,
        error_type: "authentication_error"@,
        param: None,
        code: "invalid_api_key"@,
    }
}

/// The answer to a request beyond the concurrency limit.
pub open spec fn rate_limited_answer() -> ApiErrorModel {
    ApiErrorModel {
        status: 429,
        message: "the transcription concurrency limit has been reached"@,
        error_type: "rate_limit_error"@,
        param: None,
        code: "rate_limit_exceeded"@,
    }
}

/// The answer to a request that failed upstream.
pub open spec fn bad_gateway_answer(message: Seq<char>) -> ApiErrorModel {
    ApiErrorModel {
        status: 502,
        message,
        error_type: "api_error"@,
        param: None,
        code: "upstream_error"@,
    }
}

/// The answer to a request that took too long.
pub open spec fn gateway_timeout_answer() -> ApiErrorModel {
    ApiErrorModel {
        status: 504,
        message: "transcription timed out"@,
        error_type: "api_error"@,
        param: None,
        code: "timeout"@,
    }
}

/// The answer to a request whose audio could not be stored.
pub open spec fn internal_io_answer() -> ApiErrorModel {
    ApiErrorModel {
        status: 500,
        message: "could not prepare the audio input"@,
        error_type: "api_error"@,
        param: None,
        code: "internal_error"@,
    }
}

/// The answer to a request whose transcription failed.
pub open spec fn provider_answer(error: crate::error::ErrorModel) -> ApiErrorModel {
    match error {
        crate::error::ErrorModel::NoSpeech => invalid_messages_answer(
            "the input contains no recognizable speech"@,
        ),
        crate::error::ErrorModel::Timeout => gateway_timeout_answer(),
        _ => bad_gateway_answer(error.text()),
    }
}

/// The JSON body of a refusal.
pub open spec fn error_body(error: ApiErrorModel) -> Seq<char> {
    "{\"error\":{\"message\":"@ + json::quoted(error.message) + ",\"type\":"@ + json::quoted(
        error.error_type,
    ) + ",\"param\":"@ + (match error.param {
        Some(param) => json::quoted(param),
        None => "null"@,
    }) + ",\"code\":"@ + json::quoted(error.code) + "}}"@
}

impl ApiError {
    /// Refuses a request that is not valid.
    pub fn invalid_request(message: &str, param: Option<&'static str>) -> (r: ApiError)
        ensures
            r@ == invalid_request_answer(message@, text::optional(param)),
    {
        ApiError {
            status: 400,
            message: message.to_owned(),
            error_type: "invalid_request_error",
            param,
            code: "invalid_request",
        }
    }

    /// Refuses a request for another model.
    pub fn model_not_found(model: &str) -> (r: ApiError)
        ensures
            r@ == model_not_found_answer(model@),
    {
        let mut message = "The model `".to_owned();
        message.append(model);
        message.append("` does not exist");
        ApiError {
            status: 404,
            message,
            error_type: "invalid_request_error",
            param: Some("model"),
            code: "model_not_found",
        }
    }

    /// Refuses a request that is too large.
    pub fn payload_too_large() -> (r: ApiError)
        ensures
            r@ == payload_too_large_answer(),
    {
        ApiError {
            status: 413,
            message: "audio input exceeds the 25 MiB limit".to_owned(),
            error_type: "invalid_request_error",
            param: Some("messages"),
            code: "request_too_large",
        }
    }

    /// Refuses a request without the API key.
    pub fn unauthorized() -> (r: ApiError)
        ensures
            r@ == unauthorized_answer(),
    {
        ApiError {
            status: 401,
            message: "Incorrect API key provided".to_owned(),
            error_type: "authentication_error",
            param: None,
            code: "invalid_api_key",
        }
    }

    /// Refuses a request beyond the concurrency limit.
    pub fn rate_limited() -> (r: ApiError)
        ensures
            r@ == rate_limited_answer(),
    {
        ApiError {
            status: 429,
            message: "the transcription concurrency limit has been reached".to_owned(),
            error_type: "rate_limit_error",
            param: None,
            code: "rate_limit_exceeded",
        }
    }

    /// Reports a failure upstream.
    pub fn bad_gateway(message: &str) -> (r: ApiError)
        ensures
            r@ == bad_gateway_answer(message@),
    {
        ApiError {
            status: 502,
            message: message.to_owned(),
            error_type: "api_error",
            param: None,
            code: "upstream_error",
        }
    }

    /// Reports that the transcription took too long.
    pub fn gateway_timeout() -> (r: ApiError)
        ensures
            r@ == gateway_timeout_answer(),
    {
        ApiError {
            status: 504,
            message: "transcription timed out".to_owned(),
            error_type: "api_error",
            param: None,
            code: "timeout",
        }
    }

    /// Reports that the audio could not be stored, without saying why.
    pub fn internal_io() -> (r: ApiError)
        ensures
            r@ == internal_io_answer(),
    {
        ApiError {
            status: 500,
            message: "could not prepare the audio input".to_owned(),
            error_type: "api_error",
            param: None,
            code: "internal_error",
        }
    }

    /// Reports a failed transcription.
    pub fn from_provider(error: Error) -> (r: ApiError)
        ensures
            r@ == provider_answer(error@),
    {
        match error {
            Error::NoSpeech => ApiError::invalid_request(
                "the input contains no recognizable speech",
                Some("messages"),
            ),
            Error::Timeout => ApiError::gateway_timeout(),
            other => ApiError::bad_gateway(other.message().as_str()),
        }
    }

    /// Writes the JSON body of the refusal.
    pub fn body(&self) -> (r: String)
        ensures
            r@ == error_body(self@),
    {
        let mut out = "{\"error\":{\"message\":".to_owned();
        json::push_quoted(&mut out, self.message.as_str());
        out.append(",\"type\":");
        json::push_quoted(&mut out, self.error_type);
        out.append(",\"param\":");
        match self.param {
            Some(param) => {
                json::push_quoted(&mut out, param);
            },
            None => {
                out.append("null");
            },
        }
        out.append(",\"code\":");
        json::push_quoted(&mut out, self.code);
        out.append("}}");
        out
    }
}

/// The settings of the server.
pub struct AppConfig {
    /// The model that is advertised and accepted.
    pub model: String,
    /// The key that requests have to carry, if any.
    pub api_key: Option<String>,
    /// How many requests are worked on at a time.
    pub max_concurrency: usize,
    /// How many seconds a request may take.
    pub request_timeout: u64,
}

impl AppConfig {
    /// The bytes of the key that requests have to carry.
    pub open spec fn key(&self) -> Option<Seq<u8>> {
        match self.api_key {
            Some(key) => Some(vstd::utf8::encode_utf8(key@)),
            None => None,
        }
    }
}

/// Whether a byte of a header is visible ASCII, a space or a tab.
pub open spec fn is_visible(b: u8) -> bool {
    32 <= b < 127 || b == 9
}

/// Whether a header is a text of visible ASCII.
pub open spec fn is_visible_text(value: Seq<u8>) -> bool {
    forall|i: int| 0 <= i < value.len() ==> is_visible(#[trigger] value[i])
}

/// Tells whether a header is a text of visible ASCII.
pub fn visible_text(value: &[u8]) -> (r: bool)
    ensures
        r == is_visible_text(value@),
{
    for i in 0..value.len()
        invariant
            forall|k: int| 0 <= k < i ==> is_visible(#[trigger] value@[k]),
    {
        let b: u8 = value[i];
        if !((32 <= b && b < 127) || b == 9) {
            assert(!is_visible(value@[i as int]));
            return false;
        }
    }
    true
}

/// The token of a bearer authorization.
pub open spec fn bearer_token(header: Option<Seq<u8>>) -> Option<Seq<u8>> {
    match header {
        Some(value) if is_visible_text(value) && bearer_prefix().is_prefix_of(value) => Some(
            value.skip(7),
        ),
        _ => None,
    }
}

/// `Bearer` and a space.
pub open spec fn bearer_prefix() -> Seq<u8> {
    seq![0x42u8, 0x65, 0x61, 0x72, 0x65, 0x72, 0x20]
}

/// An optional header.
pub open spec fn optional_header(value: Option<&[u8]>) -> Option<Seq<u8>> {
    match value {
        Some(found) => Some(found@),
        None => None,
    }
}

/// `subtle::ConstantTimeEq::ct_eq` on slices tells whether they are the same
/// bytes. That it takes as long for any bytes of the same length is not stated.
#[verifier::external_body]
fn same_bytes(a: &[u8], b: &[u8]) -> (r: bool)
    ensures
        r == (a@ == b@),
{
    bool::from(a.ct_eq(b))
}

/// Whether a request may be answered: no key is set, or the request carries it.
pub open spec fn is_authorized(key: Option<Seq<u8>>, header: Option<Seq<u8>>) -> bool {
    match key {
        None => true,
        Some(expected) => bearer_token(header) == Some(expected),
    }
}

/// Finds the token of a bearer authorization.
fn find_bearer<'a>(header: Option<&'a [u8]>) -> (r: Option<&'a [u8]>)
    ensures
        optional_header(r) == bearer_token(optional_header(header)),
{
    if let Some(value) = header {
        let prefix: [u8; 7] = [0x42, 0x65, 0x61, 0x72, 0x65, 0x72, 0x20];
        assert(prefix@ =~= bearer_prefix());
        if visible_text(value) && text::bytes_start_with(value, prefix.as_slice()) {
            let token = vstd::slice::slice_subrange(value, 7, value.len());
            assert(token@ =~= value@.skip(7));
            return Some(token);
        }
    }
    None
}

/// Checks the authorization of a request by its header.
pub fn authorize(config: &AppConfig, header: Option<&[u8]>) -> (r: Result<(), ApiError>)
    ensures
        match r {
            Ok(_) => is_authorized(config.key(), optional_header(header)),
            Err(e) => !is_authorized(config.key(), optional_header(header)) && e@
                == unauthorized_answer(),
        },
{
    let expected = match &config.api_key {
        Some(key) => key.as_str().as_bytes(),
        None => {
            return Ok(());
        },
    };
    if let Some(token) = find_bearer(header) {
        if same_bytes(token, expected) {
            return Ok(());
        }
    }
    Err(ApiError::unauthorized())
}

/// Whether a request identifier is taken over from its header.
pub open spec fn is_request_id(header: Option<Seq<u8>>) -> bool {
    header matches Some(value) && is_visible_text(value) && 0 < value.len() <= 128
}

/// Whether a text can stand in a header.
pub open spec fn is_header_safe(value: Seq<char>) -> bool {
    forall|i: int| 0 <= i < value.len() ==> is_visible_char(#[trigger] value[i])
}

/// Whether a character is visible ASCII, a space or a tab.
pub open spec fn is_visible_char(c: char) -> bool {
    32 <= c as u32 && (c as u32) < 127 || c as u32 == 9
}

/// The text of ASCII bytes.
proof fn lemma_visible_bytes(value: Seq<u8>)
    requires
        is_visible_text(value),
    ensures
        vstd::utf8::valid_utf8(value),
        vstd::utf8::encode_utf8(value.map_values(|b: u8| b as char)) == value,
        vstd::utf8::decode_utf8(value) == value.map_values(|b: u8| b as char),
        is_header_safe(value.map_values(|b: u8| b as char)),
{
    let chars = value.map_values(|b: u8| b as char);
    assert forall|i: int| 0 <= i < value.len() implies is_visible(#[trigger] value[i]) && (
    chars[i] as u32) == value[i] by {
    }
    assert(vstd::utf8::is_ascii_chars(chars)) by {
        assert forall|i: int| 0 <= i < chars.len() implies (#[trigger] chars[i] as u32)
            < 128 by {
            assert(is_visible(value[i]));
        }
    }
    vstd::utf8::is_ascii_chars_encode_utf8(chars);
    assert(vstd::utf8::encode_utf8(chars) =~= value) by {
        assert forall|i: int| 0 <= i < value.len() implies #[trigger] vstd::utf8::encode_utf8(
            chars,
        )[i] == value[i] by {
            assert(is_visible(value[i]));
        }
    }
    vstd::utf8::encode_utf8_valid_utf8(chars);
    vstd::utf8::encode_utf8_decode_utf8(chars);
    assert forall|i: int| 0 <= i < chars.len() implies is_visible_char(#[trigger] chars[i]) by {
        assert(is_visible(value[i]));
    }
}

/// Names a request by its header, or by a UUID where the header is of no use.
pub fn request_id_or(header: Option<&[u8]>, uuid: &str) -> (r: String)
    ensures
        is_request_id(optional_header(header)) ==> vstd::utf8::encode_utf8(r@) == optional_header(
            header,
        )->0 && is_header_safe(r@),
        !is_request_id(optional_header(header)) ==> r@ == "req_"@ + uuid@,
{
    if let Some(value) = header {
        if visible_text(value) && 0 < value.len() && value.len() <= 128 {
            proof {
                lemma_visible_bytes(value@);
            }
            if let Some(found) = text::utf8_text(value) {
                return found;
            }
        }
    }
    let mut name = "req_".to_owned();
    name.append(uuid);
    name
}

/// Names a request. The name can always stand in a header.
pub fn request_id(header: Option<&[u8]>) -> (r: String)
    ensures
        is_request_id(optional_header(header)) ==> vstd::utf8::encode_utf8(r@) == optional_header(
            header,
        )->0,
        !is_request_id(optional_header(header)) ==> exists|uuid: Seq<char>|
            #[trigger] identity::is_uuid_v4(uuid) && r@ == "req_"@ + uuid,
        is_header_safe(r@),
{
    let uuid = identity::new_uuid();
    let r = request_id_or(header, uuid.as_str());
    proof {
        if !is_request_id(optional_header(header)) {
            reveal_strlit("req_");
            assert forall|i: int| 0 <= i < r@.len() implies is_visible_char(#[trigger] r@[i]) by {
                if i >= 4 {
                    assert(r@[i] == uuid@[i - 4]);
                }
            }
        }
    }
    r
}

/// The body of an answer.
#[derive(Debug)]
pub enum AnswerBody {
    /// A JSON document.
    Json(String),
    /// Server-sent events, by their data.
    Events(Vec<String>),
}

/// An answer: its HTTP status and its body.
#[derive(Debug)]
pub struct Answer {
    pub status: u16,
    pub body: AnswerBody,
}

/// What an [`Answer`] holds.
#[verifier::ext_equal]
pub enum AnswerModel {
    Json { status: u16, body: Seq<char> },
    Events { status: u16, events: Seq<Seq<char>> },
}

impl View for Answer {
    type V = AnswerModel;

    open spec fn view(&self) -> AnswerModel {
        match self.body {
            AnswerBody::Json(body) => AnswerModel::Json { status: self.status, body: body@ },
            AnswerBody::Events(events) => AnswerModel::Events {
                status: self.status,
                events: text::owned_texts(events@),
            },
        }
    }
}

/// The answer that a refusal is sent as.
pub open spec fn refusal(error: ApiErrorModel) -> AnswerModel {
    AnswerModel::Json { status: error.status, body: error_body(error) }
}

/// A document that is sent as a success.
pub open spec fn success(body: Seq<char>) -> AnswerModel {
    AnswerModel::Json { status: 200, body }
}

impl ApiError {
    /// Sends the refusal as an answer.
    pub fn into_answer(self) -> (r: Answer)
        ensures
            r@ == refusal(self@),
    {
        let body = self.body();
        Answer { status: self.status, body: AnswerBody::Json(body) }
    }
}

/// Answers that the server is well.
pub fn health() -> (r: Answer)
    ensures
        r@ == success("{\"status\":\"ok\"}"@),
{
    Answer { status: 200, body: AnswerBody::Json("{\"status\":\"ok\"}".to_owned()) }
}

/// The JSON object that describes a model.
pub open spec fn model_text(model: Seq<char>) -> Seq<char> {
    "{\"created\":0,\"id\":"@ + json::quoted(model)
        + ",\"object\":\"model\",\"owned_by\":\"doubao\"}"@
}

/// Writes the JSON object that describes a model.
pub fn model_object(model: &str) -> (r: String)
    ensures
        r@ == model_text(model@),
{
    let mut out = "{\"created\":0,\"id\":".to_owned();
    json::push_quoted(&mut out, model);
    out.append(",\"object\":\"model\",\"owned_by\":\"doubao\"}");
    out
}

/// The answer to a request for the models.
pub open spec fn models_answer(
    key: Option<Seq<u8>>,
    header: Option<Seq<u8>>,
    model: Seq<char>,
) -> AnswerModel {
    if !is_authorized(key, header) {
        refusal(unauthorized_answer())
    } else {
        success("{\"data\":["@ + model_text(model) + "],\"object\":\"list\"}"@)
    }
}

/// Answers a request for the models.
pub fn list_models(config: &AppConfig, header: Option<&[u8]>) -> (r: Answer)
    ensures
        r@ == models_answer(config.key(), optional_header(header), config.model@),
{
    match authorize(config, header) {
        Err(error) => error.into_answer(),
        Ok(_) => {
            let mut out = "{\"data\":[".to_owned();
            out.append(model_object(config.model.as_str()).as_str());
            out.append("],\"object\":\"list\"}");
            Answer { status: 200, body: AnswerBody::Json(out) }
        },
    }
}

/// The answer to a request for one model.
pub open spec fn model_answer(
    key: Option<Seq<u8>>,
    header: Option<Seq<u8>>,
    model: Seq<char>,
    asked: Seq<char>,
) -> AnswerModel {
    if !is_authorized(key, header) {
        refusal(unauthorized_answer())
    } else if asked != model {
        refusal(model_not_found_answer(asked))
    } else {
        success(model_text(model))
    }
}

/// Answers a request for one model.
pub fn get_model(config: &AppConfig, header: Option<&[u8]>, model: &str) -> (r: Answer)
    ensures
        r@ == model_answer(config.key(), optional_header(header), config.model@, model@),
{
    match authorize(config, header) {
        Err(error) => error.into_answer(),
        Ok(_) => if !text::text_eq(model, config.model.as_str()) {
            ApiError::model_not_found(model).into_answer()
        } else {
            Answer {
                status: 200,
                body: AnswerBody::Json(model_object(config.model.as_str())),
            }
        },
    }
}

/// The JSON of a completion.
pub open spec fn completion_text(
    id: Seq<char>,
    created: u64,
    model: Seq<char>,
    content: Seq<char>,
) -> Seq<char> {
    "{\"choices\":[{\"finish_reason\":\"stop\",\"index\":0,\"message\":{\"content\":"@
        + json::quoted(content) + ",\"role\":\"assistant\"}}],\"created\":"@ + text::decimal(
        created as nat,
    ) + ",\"id\":"@ + json::quoted(id) + ",\"model\":"@ + json::quoted(model)
        + ",\"object\":\"chat.completion\"}"@
}

/// The end of the JSON of a chunk.
pub open spec fn chunk_end(id: Seq<char>, created: u64, model: Seq<char>) -> Seq<char> {
    ",\"index\":0}],\"created\":"@ + text::decimal(created as nat) + ",\"id\":"@ + json::quoted(id)
        + ",\"model\":"@ + json::quoted(model) + ",\"object\":\"chat.completion.chunk\"}"@
}

/// The events of a completion that is streamed: the role, the text, the end of
/// the message and the end of the stream.
pub open spec fn stream_events(
    id: Seq<char>,
    created: u64,
    model: Seq<char>,
    content: Seq<char>,
) -> Seq<Seq<char>> {
    seq![
        "{\"choices\":[{\"delta\":{\"content\":\"\",\"role\":\"assistant\"},\"finish_reason\":null"@
            + chunk_end(id, created, model),
        "{\"choices\":[{\"delta\":{\"content\":"@ + json::quoted(content)
            + "},\"finish_reason\":null"@ + chunk_end(id, created, model),
        "{\"choices\":[{\"delta\":{},\"finish_reason\":\"stop\""@ + chunk_end(id, created, model),
        "[DONE]"@,
    ]
}

/// The identifier of a completion.
pub open spec fn completion_id(uuid: Seq<char>) -> Seq<char> {
    "chatcmpl-"@ + uuid
}

/// Answers with a completion under an identifier and a time in seconds.
pub fn completion_response_at(id: &str, created: u64, model: &str, content: &str) -> (r: Answer)
    ensures
        r@ == success(completion_text(id@, created, model@, content@)),
{
    let mut out =
        "{\"choices\":[{\"finish_reason\":\"stop\",\"index\":0,\"message\":{\"content\":".to_owned();
    json::push_quoted(&mut out, content);
    out.append(",\"role\":\"assistant\"}}],\"created\":");
    text::push_decimal(&mut out, created as u128);
    out.append(",\"id\":");
    json::push_quoted(&mut out, id);
    out.append(",\"model\":");
    json::push_quoted(&mut out, model);
    out.append(",\"object\":\"chat.completion\"}");
    Answer { status: 200, body: AnswerBody::Json(out) }
}

/// Appends the end of the JSON of a chunk.
fn push_chunk_end(out: &mut String, id: &str, created: u64, model: &str)
    ensures
        final(out)@ == old(out)@ + chunk_end(id@, created, model@),
{
    out.append(",\"index\":0}],\"created\":");
    text::push_decimal(out, created as u128);
    out.append(",\"id\":");
    json::push_quoted(out, id);
    out.append(",\"model\":");
    json::push_quoted(out, model);
    out.append(",\"object\":\"chat.completion.chunk\"}");
    assert(out@ =~= old(out)@ + chunk_end(id@, created, model@));
}

/// Answers with a streamed completion under an identifier and a time in seconds.
pub fn streaming_response_at(id: &str, created: u64, model: &str, content: &str) -> (r: Answer)
    ensures
        r@ == (AnswerModel::Events {
            status: 200,
            events: stream_events(id@, created, model@, content@),
        }),
{
    let mut first =
        "{\"choices\":[{\"delta\":{\"content\":\"\",\"role\":\"assistant\"},\"finish_reason\":null".to_owned();
    push_chunk_end(&mut first, id, created, model);
    let mut second = "{\"choices\":[{\"delta\":{\"content\":".to_owned();
    json::push_quoted(&mut second, content);
    second.append("},\"finish_reason\":null");
    push_chunk_end(&mut second, id, created, model);
    let mut third = "{\"choices\":[{\"delta\":{},\"finish_reason\":\"stop\"".to_owned();
    push_chunk_end(&mut third, id, created, model);
    let events: Vec<String> = vec![first, second, third, "[DONE]".to_owned()];
    assert(text::owned_texts(events@) =~= stream_events(id@, created, model@, content@));
    Answer { status: 200, body: AnswerBody::Events(events) }
}

/// Makes up the identifier of a completion.
fn new_completion_id() -> (r: String)
    ensures
        exists|uuid: Seq<char>| #[trigger] identity::is_uuid_v4(uuid) && r@ == completion_id(uuid),
{
    let uuid = identity::new_uuid();
    let mut id = "chatcmpl-".to_owned();
    id.append(uuid.as_str());
    id
}

/// Whether an answer is a completion under a random identifier, dated by a
/// reading of the clock.
pub open spec fn is_completion(answer: AnswerModel, model: Seq<char>, content: Seq<char>) -> bool {
    exists|uuid: Seq<char>, now: std::time::SystemTime|
        #[trigger] identity::is_uuid_v4(uuid) && answer == success(
            completion_text(
                completion_id(uuid),
                #[trigger] clock::clock_seconds(now) as u64,
                model,
                content,
            ),
        )
}

/// Whether an answer is a streamed completion under a random identifier, dated by
/// a reading of the clock.
pub open spec fn is_streamed_completion(
    answer: AnswerModel,
    model: Seq<char>,
    content: Seq<char>,
) -> bool {
    exists|uuid: Seq<char>, now: std::time::SystemTime|
        #[trigger] identity::is_uuid_v4(uuid) && answer == (AnswerModel::Events {
            status: 200,
            events: stream_events(
                completion_id(uuid),
                #[trigger] clock::clock_seconds(now) as u64,
                model,
                content,
            ),
        })
}

/// Answers with a completion.
pub fn completion_response(model: &str, content: &str) -> (r: Answer)
    ensures
        is_completion(r@, model@, content@),
{
    let id = new_completion_id();
    let created = clock::unix_seconds();
    completion_response_at(id.as_str(), created, model, content)
}

/// Answers with a streamed completion.
pub fn streaming_response(model: &str, content: &str) -> (r: Answer)
    ensures
        is_streamed_completion(r@, model@, content@),
{
    let id = new_completion_id();
    let created = clock::unix_seconds();
    streaming_response_at(id.as_str(), created, model, content)
}

/// The payload of a request, as far as it was understood.
pub enum Payload {
    /// A request.
    Parsed(ChatCompletionRequest),
    /// More than is accepted.
    TooLarge,
    /// Something else.
    Invalid,
}

/// What a request for a completion is waiting for.
pub enum ChatStage {
    /// The request itself.
    Receiving,
    /// A place among the requests that are worked on.
    Reserving { source: AudioSource, streaming: bool },
    /// Its audio.
    Materializing { streaming: bool },
    /// Its transcript.
    Transcribing { streaming: bool },
    /// Nothing any more.
    Answered,
}

/// What a [`ChatStage`] says.
pub enum StageModel {
    Receiving,
    Reserving { source: protocol::SourceModel, streaming: bool },
    Materializing { streaming: bool },
    Transcribing { streaming: bool },
    Answered,
}

impl View for ChatStage {
    type V = StageModel;

    open spec fn view(&self) -> StageModel {
        match self {
            ChatStage::Receiving => StageModel::Receiving,
            ChatStage::Reserving { source, streaming } => StageModel::Reserving {
                source: source@,
                streaming: *streaming,
            },
            ChatStage::Materializing { streaming } => StageModel::Materializing {
                streaming: *streaming,
            },
            ChatStage::Transcribing { streaming } => StageModel::Transcribing {
                streaming: *streaming,
            },
            ChatStage::Answered => StageModel::Answered,
        }
    }
}

/// What a request for a completion asks for next.
pub enum ChatAction {
    /// Try to get a place among the requests that are worked on.
    Reserve,
    /// Bring about this audio.
    Materialize(AudioSource),
    /// Transcribe the audio.
    Transcribe,
    /// Send this refusal.
    Refuse(ApiError),
    /// Send this text as a completion, streamed or not.
    Complete { content: String, streaming: bool },
}

/// What a [`ChatAction`] says.
pub enum ChatActionModel {
    Reserve,
    Materialize(protocol::SourceModel),
    Transcribe,
    Refuse(ApiErrorModel),
    Complete { content: Seq<char>, streaming: bool },
}

impl View for ChatAction {
    type V = ChatActionModel;

    open spec fn view(&self) -> ChatActionModel {
        match self {
            ChatAction::Reserve => ChatActionModel::Reserve,
            ChatAction::Materialize(source) => ChatActionModel::Materialize(source@),
            ChatAction::Transcribe => ChatActionModel::Transcribe,
            ChatAction::Refuse(error) => ChatActionModel::Refuse(error@),
            ChatAction::Complete { content, streaming } => ChatActionModel::Complete {
                content: content@,
                streaming: *streaming,
            },
        }
    }
}

/// What follows the arrival of a request: its authorization is checked before
/// anything of its payload is looked at.
pub open spec fn received(
    key: Option<Seq<u8>>,
    header: Option<Seq<u8>>,
    model: Seq<char>,
    payload: Payload,
) -> (StageModel, ChatActionModel) {
    if !is_authorized(key, header) {
        (StageModel::Answered, ChatActionModel::Refuse(unauthorized_answer()))
    } else {
        match payload {
            Payload::TooLarge => (
                StageModel::Answered,
                ChatActionModel::Refuse(payload_too_large_answer()),
            ),
            Payload::Invalid => (
                StageModel::Answered,
                ChatActionModel::Refuse(
                    invalid_request_answer("request body must be valid JSON"@, None),
                ),
            ),
            Payload::Parsed(request) => match protocol::extracted(request, model) {
                Err(error) => (StageModel::Answered, ChatActionModel::Refuse(error)),
                Ok((source, streaming)) => (
                    StageModel::Reserving { source, streaming },
                    ChatActionModel::Reserve,
                ),
            },
        }
    }
}

/// What follows the try to get a place.
pub open spec fn reserved(stage: StageModel, granted: bool) -> (StageModel, ChatActionModel) {
    match stage {
        StageModel::Reserving { source, streaming } if granted => (
            StageModel::Materializing { streaming },
            ChatActionModel::Materialize(source),
        ),
        _ => (StageModel::Answered, ChatActionModel::Refuse(rate_limited_answer())),
    }
}

/// What follows the audio.
pub open spec fn materialized(stage: StageModel, failure: Option<ApiErrorModel>) -> (
    StageModel,
    ChatActionModel,
) {
    match (failure, stage) {
        (None, StageModel::Materializing { streaming }) => (
            StageModel::Transcribing { streaming },
            ChatActionModel::Transcribe,
        ),
        (Some(error), _) => (StageModel::Answered, ChatActionModel::Refuse(error)),
        (None, _) => (stage, ChatActionModel::Transcribe),
    }
}

/// What follows the transcript.
pub open spec fn transcribed(
    stage: StageModel,
    outcome: Result<crate::client::TranscriptModel, crate::error::ErrorModel>,
) -> (StageModel, ChatActionModel) {
    match outcome {
        Ok(transcript) => (
            StageModel::Answered,
            ChatActionModel::Complete {
                content: transcript.text,
                streaming: stage == (StageModel::Transcribing { streaming: true }),
            },
        ),
        Err(error) => (StageModel::Answered, ChatActionModel::Refuse(provider_answer(error))),
    }
}

/// An outcome by its refusal.
pub open spec fn refused(outcome: Result<(), ApiError>) -> Option<ApiErrorModel> {
    match outcome {
        Ok(_) => None,
        Err(error) => Some(error@),
    }
}

/// The course of one request for a completion.
pub struct ChatFlow {
    stage: ChatStage,
}

impl View for ChatFlow {
    type V = StageModel;

    closed spec fn view(&self) -> StageModel {
        self.stage@
    }
}

impl ChatFlow {
    /// Prepares for a request.
    pub fn new() -> (r: ChatFlow)
        ensures
            r@ == StageModel::Receiving,
    {
        ChatFlow { stage: ChatStage::Receiving }
    }

    /// Goes on after the request arrived.
    pub fn receive(&mut self, config: &AppConfig, header: Option<&[u8]>, payload: Payload) -> (r:
        ChatAction)
        ensures
            (final(self)@, r@) == received(
                config.key(),
                optional_header(header),
                config.model@,
                payload,
            ),
    {
        self.stage = ChatStage::Answered;
        if let Err(error) = authorize(config, header) {
            return ChatAction::Refuse(error);
        }
        let request = match payload {
            Payload::TooLarge => {
                return ChatAction::Refuse(ApiError::payload_too_large());
            },
            Payload::Invalid => {
                return ChatAction::Refuse(
                    ApiError::invalid_request("request body must be valid JSON", None),
                );
            },
            Payload::Parsed(request) => request,
        };
        match protocol::extract_audio(request, config.model.as_str()) {
            Err(error) => ChatAction::Refuse(error),
            Ok((source, streaming)) => {
                self.stage = ChatStage::Reserving { source, streaming };
                ChatAction::Reserve
            },
        }
    }

    /// Goes on after a place was granted or not.
    pub fn reserve(&mut self, granted: bool) -> (r: ChatAction)
        requires
            old(self)@ is Reserving,
        ensures
            (final(self)@, r@) == reserved(old(self)@, granted),
    {
        let mut stage = ChatStage::Answered;
        std::mem::swap(&mut stage, &mut self.stage);
        if granted {
            if let ChatStage::Reserving { source, streaming } = stage {
                self.stage = ChatStage::Materializing { streaming };
                return ChatAction::Materialize(source);
            }
        }
        ChatAction::Refuse(ApiError::rate_limited())
    }

    /// Goes on after the audio was brought about or not.
    pub fn materialize(&mut self, outcome: Result<(), ApiError>) -> (r: ChatAction)
        requires
            old(self)@ is Materializing,
        ensures
            (final(self)@, r@) == materialized(old(self)@, refused(outcome)),
    {
        let streaming = match &self.stage {
            ChatStage::Materializing { streaming } => *streaming,
            _ => false,
        };
        match outcome {
            Ok(_) => {
                self.stage = ChatStage::Transcribing { streaming };
                ChatAction::Transcribe
            },
            Err(error) => {
                self.stage = ChatStage::Answered;
                ChatAction::Refuse(error)
            },
        }
    }

    /// Goes on after the audio was transcribed or not.
    pub fn transcribe(&mut self, outcome: Result<Transcript, Error>) -> (r: ChatAction)
        requires
            old(self)@ is Transcribing,
        ensures
            (final(self)@, r@) == transcribed(
                old(self)@,
                crate::client::transcription(outcome),
            ),
    {
        let streaming = match &self.stage {
            ChatStage::Transcribing { streaming } => *streaming,
            _ => false,
        };
        self.stage = ChatStage::Answered;
        match outcome {
            Ok(transcript) => ChatAction::Complete { content: transcript.text, streaming },
            Err(error) => ChatAction::Refuse(ApiError::from_provider(error)),
        }
    }

    /// Gives up on a request that took too long.
    pub fn time_out(&mut self) -> (r: ChatAction)
        ensures
            final(self)@ == StageModel::Answered,
            r@ == ChatActionModel::Refuse(gateway_timeout_answer()),
    {
        self.stage = ChatStage::Answered;
        ChatAction::Refuse(ApiError::gateway_timeout())
    }
}

/// Whether an answer is the one that ends a request by its last action: the
/// refusal of a refusal, and the completion of a text, streamed or not. Other
/// actions end no request.
pub open spec fn ends_with(
    action: ChatActionModel,
    model: Seq<char>,
    answer: Option<AnswerModel>,
) -> bool {
    match action {
        ChatActionModel::Refuse(error) => answer == Some(refusal(error)),
        ChatActionModel::Complete { content, streaming: true } => answer matches Some(found)
            && is_streamed_completion(found, model, content),
        ChatActionModel::Complete { content, streaming: false } => answer matches Some(found)
            && is_completion(found, model, content),
        _ => answer is None,
    }
}

/// An optional answer by what it holds.
pub open spec fn optional_answer(value: Option<Answer>) -> Option<AnswerModel> {
    match value {
        Some(answer) => Some(answer@),
        None => None,
    }
}

/// Answers a request by its last action; an action that ends no request has no
/// answer.
pub fn last_answer(config: &AppConfig, action: ChatAction) -> (r: Option<Answer>)
    ensures
        ends_with(action@, config.model@, optional_answer(r)),
{
    match action {
        ChatAction::Refuse(error) => Some(error.into_answer()),
        ChatAction::Complete { content, streaming } => if streaming {
            Some(streaming_response(config.model.as_str(), content.as_str()))
        } else {
            Some(completion_response(config.model.as_str(), content.as_str()))
        },
        _ => None,
    }
}

/// Whether an action works on a request's audio.
pub open spec fn works(action: ChatActionModel) -> bool {
    action is Materialize || action is Transcribe
}

/// A request without the key is answered that its key is incorrect, whatever
/// its payload, and nothing is worked on.
pub proof fn law_unauthorized_requests_are_refused(
    key: Seq<u8>,
    header: Option<Seq<u8>>,
    model: Seq<char>,
    asked: Seq<char>,
    payload: Payload,
)
    requires
        bearer_token(header) != Some(key),
    ensures
        received(Some(key), header, model, payload) == (
            StageModel::Answered,
            ChatActionModel::Refuse(unauthorized_answer()),
        ),
        models_answer(Some(key), header, model) == refusal(unauthorized_answer()),
        model_answer(Some(key), header, model, asked) == refusal(unauthorized_answer()),
        unauthorized_answer().status == 401,
{
}

/// Without a key every request is let in, whatever it carries.
pub proof fn law_no_key_lets_everyone_in(header: Option<Seq<u8>>)
    ensures
        is_authorized(None, header),
{
}

/// A request that carries the key as its bearer token is let in.
pub proof fn law_the_key_lets_in(key: Seq<u8>)
    requires
        is_visible_text(key),
    ensures
        is_authorized(Some(key), Some(bearer_prefix() + key)),
{
    let header = bearer_prefix() + key;
    assert(header.skip(7) =~= key);
    assert(bearer_prefix() =~= header.subrange(0, 7));
    assert forall|i: int| 0 <= i < header.len() implies is_visible(#[trigger] header[i]) by {
        if i >= 7 {
            assert(is_visible(key[i - 7]));
        }
    }
}

/// Nothing is worked on before a place was granted; without one the request is
/// answered that the limit is reached.
pub proof fn law_work_needs_a_place(
    key: Option<Seq<u8>>,
    header: Option<Seq<u8>>,
    model: Seq<char>,
    payload: Payload,
    stage: StageModel,
)
    requires
        stage is Reserving,
    ensures
        !works(received(key, header, model, payload).1),
        works(reserved(stage, true).1),
        reserved(stage, false) == (
            StageModel::Answered,
            ChatActionModel::Refuse(rate_limited_answer()),
        ),
        rate_limited_answer().status == 429,
{
}

/// A request that is accepted, granted a place and transcribed is answered with
/// the text of the transcript, and streamed if and only if it asked for that.
pub proof fn law_transcripts_are_the_answer(
    key: Option<Seq<u8>>,
    header: Option<Seq<u8>>,
    model: Seq<char>,
    request: ChatCompletionRequest,
    transcript: crate::client::TranscriptModel,
)
    requires
        is_authorized(key, header),
        protocol::extracted(request, model) is Ok,
    ensures
        ({
            let (s1, _) = received(key, header, model, Payload::Parsed(request));
            let (s2, a2) = reserved(s1, true);
            let (s3, a3) = materialized(s2, None);
            let (s4, a4) = transcribed(s3, Ok(transcript));
            &&& a2 == ChatActionModel::Materialize(
                protocol::extracted(request, model)->Ok_0.0,
            )
            &&& a3 is Transcribe
            &&& a4 == (ChatActionModel::Complete {
                content: transcript.text,
                streaming: request.stream,
            })
            &&& s4 is Answered
        }),
{
}

/// The document of a completion: the whole text of the transcript is the content
/// of the assistant's one message, which is finished, and the date, the identifier
/// and the model stand behind it, each as it is.
pub proof fn law_completions_hold_the_whole_text(
    id: Seq<char>,
    created: u64,
    model: Seq<char>,
    content: Seq<char>,
)
    ensures
        completion_text(id, created, model, content)
            == "{\"choices\":[{\"finish_reason\":\"stop\",\"index\":0,\"message\":{\"content\":"@ + (
        json::quoted(content) + (",\"role\":\"assistant\"}}],\"created\":"@ + (text::decimal(
            created as nat,
        ) + (",\"id\":"@ + (json::quoted(id) + (",\"model\":"@ + (json::quoted(model)
            + ",\"object\":\"chat.completion\"}"@))))))),
{
    let a = "{\"choices\":[{\"finish_reason\":\"stop\",\"index\":0,\"message\":{\"content\":"@;
    let b = ",\"role\":\"assistant\"}}],\"created\":"@;
    let c = ",\"id\":"@;
    let d = ",\"model\":"@;
    let e = ",\"object\":\"chat.completion\"}"@;
    let q = json::quoted(content);
    let n = text::decimal(created as nat);
    let i = json::quoted(id);
    let m = json::quoted(model);
    assert(a + q + b + n + c + i + d + m + e =~= a + (q + (b + (n + (c + (i + (d + (m + e))))))));
}

/// Two completions are the same document only if they are the same in everything:
/// text, date, identifier and model can be told from the document.
pub proof fn law_completions_tell_everything(
    id: Seq<char>,
    created: u64,
    model: Seq<char>,
    content: Seq<char>,
    other_id: Seq<char>,
    other_created: u64,
    other_model: Seq<char>,
    other_content: Seq<char>,
)
    requires
        completion_text(id, created, model, content) == completion_text(
            other_id,
            other_created,
            other_model,
            other_content,
        ),
    ensures
        content == other_content,
        created == other_created,
        id == other_id,
        model == other_model,
{
    law_completions_hold_the_whole_text(id, created, model, content);
    law_completions_hold_the_whole_text(other_id, other_created, other_model, other_content);
    reveal_strlit(",\"id\":");
    let a = "{\"choices\":[{\"finish_reason\":\"stop\",\"index\":0,\"message\":{\"content\":"@;
    let b = ",\"role\":\"assistant\"}}],\"created\":"@;
    let c = ",\"id\":"@;
    let d = ",\"model\":"@;
    let e = ",\"object\":\"chat.completion\"}"@;
    let s3 = d + (json::quoted(model) + e);
    let t3 = d + (json::quoted(other_model) + e);
    let s2 = c + (json::quoted(id) + s3);
    let t2 = c + (json::quoted(other_id) + t3);
    let s1 = b + (text::decimal(created as nat) + s2);
    let t1 = b + (text::decimal(other_created as nat) + t2);
    json::lemma_after_same_beginning(a, json::quoted(content) + s1, json::quoted(other_content) + t1);
    json::law_strings_hold_their_whole_text(content, other_content, s1, t1);
    json::lemma_after_same_beginning(
        b,
        text::decimal(created as nat) + s2,
        text::decimal(other_created as nat) + t2,
    );
    assert(s2[0] == ',' && t2[0] == ',');
    json::law_numerals_end_before_other_characters(created as nat, other_created as nat, s2, t2);
    json::lemma_after_same_beginning(c, json::quoted(id) + s3, json::quoted(other_id) + t3);
    json::law_strings_hold_their_whole_text(id, other_id, s3, t3);
    json::lemma_after_same_beginning(d, json::quoted(model) + e, json::quoted(other_model) + e);
    json::law_strings_hold_their_whole_text(model, other_model, e, e);
}

/// The end of every chunk of a stream: its date, its identifier and its model,
/// each as it is.
proof fn lemma_chunk_end_parts(id: Seq<char>, created: u64, model: Seq<char>)
    ensures
        chunk_end(id, created, model) == ",\"index\":0}],\"created\":"@ + (text::decimal(
            created as nat,
        ) + (",\"id\":"@ + (json::quoted(id) + (",\"model\":"@ + (json::quoted(model)
            + ",\"object\":\"chat.completion.chunk\"}"@))))),
{
    let a = ",\"index\":0}],\"created\":"@;
    let n = text::decimal(created as nat);
    let c = ",\"id\":"@;
    let i = json::quoted(id);
    let d = ",\"model\":"@;
    let m = json::quoted(model);
    let e = ",\"object\":\"chat.completion.chunk\"}"@;
    assert(a + n + c + i + d + m + e =~= a + (n + (c + (i + (d + (m + e))))));
}

/// The events of a stream: the first gives the role, the second the whole text of
/// the transcript and nothing but it, the third the end of the message, and all
/// three bear the date, the identifier and the model.
pub proof fn law_streams_hold_the_whole_text(
    id: Seq<char>,
    created: u64,
    model: Seq<char>,
    content: Seq<char>,
)
    ensures
        ({
            let events = stream_events(id, created, model, content);
            let end = ",\"index\":0}],\"created\":"@ + (text::decimal(created as nat)
                + (",\"id\":"@ + (json::quoted(id) + (",\"model\":"@ + (json::quoted(model)
                + ",\"object\":\"chat.completion.chunk\"}"@)))));
            &&& events.len() == 4
            &&& events[0]
                == "{\"choices\":[{\"delta\":{\"content\":\"\",\"role\":\"assistant\"},\"finish_reason\":null"@
                + end
            &&& events[1] == "{\"choices\":[{\"delta\":{\"content\":"@ + (json::quoted(content)
                + ("},\"finish_reason\":null"@ + end))
            &&& events[2] == "{\"choices\":[{\"delta\":{},\"finish_reason\":\"stop\""@ + end
            &&& events[3] == "[DONE]"@
        }),
{
    lemma_chunk_end_parts(id, created, model);
    let end = chunk_end(id, created, model);
    let a = "{\"choices\":[{\"delta\":{\"content\":"@;
    let q = json::quoted(content);
    let b = "},\"finish_reason\":null"@;
    assert(a + q + b + end =~= a + (q + (b + end)));
}

/// Two streams have the same second event only if they are the same in
/// everything: text, date, identifier and model can be told from it.
pub proof fn law_streams_tell_everything(
    id: Seq<char>,
    created: u64,
    model: Seq<char>,
    content: Seq<char>,
    other_id: Seq<char>,
    other_created: u64,
    other_model: Seq<char>,
    other_content: Seq<char>,
)
    requires
        stream_events(id, created, model, content)[1] == stream_events(
            other_id,
            other_created,
            other_model,
            other_content,
        )[1],
    ensures
        content == other_content,
        created == other_created,
        id == other_id,
        model == other_model,
{
    law_streams_hold_the_whole_text(id, created, model, content);
    law_streams_hold_the_whole_text(other_id, other_created, other_model, other_content);
    reveal_strlit(",\"id\":");
    let a = "{\"choices\":[{\"delta\":{\"content\":"@;
    let b = "},\"finish_reason\":null"@;
    let h = ",\"index\":0}],\"created\":"@;
    let c = ",\"id\":"@;
    let d = ",\"model\":"@;
    let e = ",\"object\":\"chat.completion.chunk\"}"@;
    let s3 = d + (json::quoted(model) + e);
    let t3 = d + (json::quoted(other_model) + e);
    let s2 = c + (json::quoted(id) + s3);
    let t2 = c + (json::quoted(other_id) + t3);
    let s1 = h + (text::decimal(created as nat) + s2);
    let t1 = h + (text::decimal(other_created as nat) + t2);
    json::lemma_after_same_beginning(
        a,
        json::quoted(content) + (b + s1),
        json::quoted(other_content) + (b + t1),
    );
    json::law_strings_hold_their_whole_text(content, other_content, b + s1, b + t1);
    json::lemma_after_same_beginning(b, s1, t1);
    json::lemma_after_same_beginning(
        h,
        text::decimal(created as nat) + s2,
        text::decimal(other_created as nat) + t2,
    );
    assert(s2[0] == ',' && t2[0] == ',');
    json::law_numerals_end_before_other_characters(created as nat, other_created as nat, s2, t2);
    json::lemma_after_same_beginning(c, json::quoted(id) + s3, json::quoted(other_id) + t3);
    json::law_strings_hold_their_whole_text(id, other_id, s3, t3);
    json::lemma_after_same_beginning(d, json::quoted(model) + e, json::quoted(other_model) + e);
    json::law_strings_hold_their_whole_text(model, other_model, e, e);
}

/// The answer that ends a request. A text is sent whole: as the content of one
/// document with the status of success, or, where a stream was asked for, in the
/// second of four events that end with the mark of the end. A refusal is sent with
/// its status and its words.
pub proof fn law_requests_end_with_the_whole_text(
    content: Seq<char>,
    model: Seq<char>,
    error: ApiErrorModel,
    answer: AnswerModel,
)
    ensures
        ends_with(
            ChatActionModel::Complete { content, streaming: false },
            model,
            Some(answer),
        ) ==> exists|id: Seq<char>, created: u64|
            answer == (AnswerModel::Json {
                status: 200,
                body: #[trigger] completion_text(id, created, model, content),
            }),
        ends_with(
            ChatActionModel::Complete { content, streaming: true },
            model,
            Some(answer),
        ) ==> exists|id: Seq<char>, created: u64|
            answer == (AnswerModel::Events {
                status: 200,
                events: #[trigger] stream_events(id, created, model, content),
            }),
        ends_with(ChatActionModel::Refuse(error), model, Some(answer)) ==> answer
            == (AnswerModel::Json { status: error.status, body: error_body(error) }),
        !ends_with(ChatActionModel::Refuse(error), model, None),
        !ends_with(ChatActionModel::Complete { content, streaming: false }, model, None),
        !ends_with(ChatActionModel::Complete { content, streaming: true }, model, None),
{
}

/// What stands in JSON for an optional text: the text, or null.
pub open spec fn optional_json(value: Option<Seq<char>>) -> Seq<char> {
    match value {
        Some(found) => json::quoted(found),
        None => seq!['n', 'u', 'l', 'l'],
    }
}

/// The document of a refusal: its message, its type, the parameter to blame or
/// null, and its code, each as it is.
pub proof fn law_refusals_hold_their_words(error: ApiErrorModel)
    ensures
        error_body(error) == "{\"error\":{\"message\":"@ + (json::quoted(error.message)
            + (",\"type\":"@ + (json::quoted(error.error_type) + (",\"param\":"@ + (
        optional_json(error.param) + (",\"code\":"@ + (json::quoted(error.code) + "}}"@))))))),
{
    reveal_strlit("null");
    assert("null"@ =~= seq!['n', 'u', 'l', 'l']);
    let a = "{\"error\":{\"message\":"@;
    let m = json::quoted(error.message);
    let b = ",\"type\":"@;
    let t = json::quoted(error.error_type);
    let c = ",\"param\":"@;
    let p = optional_json(error.param);
    let d = ",\"code\":"@;
    let k = json::quoted(error.code);
    let e = "}}"@;
    assert(a + m + b + t + c + p + d + k + e =~= a + (m + (b + (t + (c + (p + (d + (k + e))))))));
}

/// Two refusals with the same document have the same message.
pub proof fn law_refusals_tell_their_message(error: ApiErrorModel, other: ApiErrorModel)
    requires
        error_body(error) == error_body(other),
    ensures
        error.message == other.message,
{
    law_refusals_hold_their_words(error);
    law_refusals_hold_their_words(other);
    let s = ",\"type\":"@ + (json::quoted(error.error_type) + (",\"param\":"@ + (optional_json(
        error.param,
    ) + (",\"code\":"@ + (json::quoted(error.code) + "}}"@)))));
    let t = ",\"type\":"@ + (json::quoted(other.error_type) + (",\"param\":"@ + (optional_json(
        other.param,
    ) + (",\"code\":"@ + (json::quoted(other.code) + "}}"@)))));
    json::lemma_after_same_beginning(
        "{\"error\":{\"message\":"@,
        json::quoted(error.message) + s,
        json::quoted(other.message) + t,
    );
    json::law_strings_hold_their_whole_text(error.message, other.message, s, t);
}

/// The status of each refusal, and what it says: 400 for a request that is not
/// valid, with the reason as it is, 401 without the key, 404 for another model, 413
/// for too much, 429 for too many at a time, 500 for a file that could not be
/// written, 502 for a failure upstream, with its reason, and 504 for too long.
pub proof fn law_refusals_have_their_status(
    message: Seq<char>,
    param: Option<Seq<char>>,
    model: Seq<char>,
)
    ensures
        invalid_request_answer(message, param).status == 400,
        invalid_request_answer(message, param).message == message,
        invalid_request_answer(message, param).param == param,
        invalid_messages_answer(message).status == 400,
        invalid_messages_answer(message).message == message,
        invalid_messages_answer(message).param == Some("messages"@),
        unauthorized_answer().status == 401,
        model_not_found_answer(model).status == 404,
        model_not_found_answer(model).message == "The model `"@ + model + "` does not exist"@,
        payload_too_large_answer().status == 413,
        rate_limited_answer().status == 429,
        internal_io_answer().status == 500,
        bad_gateway_answer(message).status == 502,
        bad_gateway_answer(message).message == message,
        gateway_timeout_answer().status == 504,
{
}

/// The words, the type, the parameter and the code of each refusal: those that the
/// request is to blame for name the part that is at fault, and the others none.
pub proof fn law_refusals_have_their_code(
    message: Seq<char>,
    param: Option<Seq<char>>,
    model: Seq<char>,
)
    ensures
        invalid_request_answer(message, param).error_type == "invalid_request_error"@,
        invalid_request_answer(message, param).code == "invalid_request"@,
        invalid_messages_answer(message).error_type == "invalid_request_error"@,
        invalid_messages_answer(message).code == "invalid_request"@,
        unauthorized_answer().message == "Incorrect API key provided"@,
        unauthorized_answer().error_type == "authentication_error"@,
        unauthorized_answer().param is None,
        unauthorized_answer().code == "invalid_api_key"@,
        model_not_found_answer(model).error_type == "invalid_request_error"@,
        model_not_found_answer(model).param == Some("model"@),
        model_not_found_answer(model).code == "model_not_found"@,
        payload_too_large_answer().message == "audio input exceeds the 25 MiB limit"@,
        payload_too_large_answer().error_type == "invalid_request_error"@,
        payload_too_large_answer().param == Some("messages"@),
        payload_too_large_answer().code == "request_too_large"@,
        rate_limited_answer().message == "the transcription concurrency limit has been reached"@,
        rate_limited_answer().error_type == "rate_limit_error"@,
        rate_limited_answer().param is None,
        rate_limited_answer().code == "rate_limit_exceeded"@,
        internal_io_answer().message == "could not prepare the audio input"@,
        internal_io_answer().error_type == "api_error"@,
        internal_io_answer().param is None,
        internal_io_answer().code == "internal_error"@,
        bad_gateway_answer(message).error_type == "api_error"@,
        bad_gateway_answer(message).param is None,
        bad_gateway_answer(message).code == "upstream_error"@,
        gateway_timeout_answer().message == "transcription timed out"@,
        gateway_timeout_answer().error_type == "api_error"@,
        gateway_timeout_answer().param is None,
        gateway_timeout_answer().code == "timeout"@,
        provider_answer(crate::error::ErrorModel::NoSpeech).message
            == "the input contains no recognizable speech"@,
        provider_answer(crate::error::ErrorModel::NoSpeech).param == Some("messages"@),
{
}

/// What a failed transcription is answered with: a recording without speech is the
/// fault of the request, one that took too long a timeout, and any other failure
/// is one upstream, in its own words.
pub proof fn law_failures_are_answered_in_their_words(error: crate::error::ErrorModel)
    ensures
        provider_answer(error).status == if error is NoSpeech {
            400u16
        } else if error is Timeout {
            504u16
        } else {
            502u16
        },
        !(error is NoSpeech) && !(error is Timeout) ==> provider_answer(error).message
            == error.text(),
{
}

/// A request is let in by its key if and only if its header is `Bearer`, a space
/// and the key, all of it visible ASCII, spaces or tabs.
pub proof fn law_only_the_key_lets_in(key: Seq<u8>, header: Seq<u8>)
    ensures
        is_authorized(Some(key), Some(header)) <==> header == seq![
            0x42u8,
            0x65,
            0x61,
            0x72,
            0x65,
            0x72,
            0x20,
        ] + key && forall|i: int|
            0 <= i < header.len() ==> 0x20 <= #[trigger] header[i] <= 0x7e || header[i] == 0x9,
        !is_authorized(Some(key), None),
        is_authorized(None, Some(header)),
{
    let prefix = seq![0x42u8, 0x65, 0x61, 0x72, 0x65, 0x72, 0x20];
    if is_authorized(Some(key), Some(header)) {
        assert(is_visible_text(header));
        assert(prefix =~= header.subrange(0, 7));
        assert(header =~= prefix + header.skip(7));
        assert forall|i: int| 0 <= i < header.len() implies 0x20 <= #[trigger] header[i] <= 0x7e
            || header[i] == 0x9 by {
            assert(is_visible(header[i]));
        }
    }
    if header == prefix + key && forall|i: int|
        0 <= i < header.len() ==> 0x20 <= #[trigger] header[i] <= 0x7e || header[i] == 0x9 {
        assert(header.subrange(0, 7) =~= prefix);
        assert(header.skip(7) =~= key);
        assert forall|i: int| 0 <= i < header.len() implies is_visible(#[trigger] header[i]) by {
            assert(0x20 <= header[i] <= 0x7e || header[i] == 0x9);
        }
    }
}

/// A request is named by its header if and only if the header holds from 1 to 128
/// bytes, all of them visible ASCII, spaces or tabs.
pub proof fn law_names_of_requests_are_short_and_visible(header: Seq<u8>)
    ensures
        is_request_id(Some(header)) <==> 1 <= header.len() <= 128 && forall|i: int|
            0 <= i < header.len() ==> 0x20 <= #[trigger] header[i] <= 0x7e || header[i] == 0x9,
        !is_request_id(None),
{
    if is_request_id(Some(header)) {
        assert forall|i: int| 0 <= i < header.len() implies 0x20 <= #[trigger] header[i] <= 0x7e
            || header[i] == 0x9 by {
            assert(is_visible(header[i]));
        }
    }
    if forall|i: int|
        0 <= i < header.len() ==> 0x20 <= #[trigger] header[i] <= 0x7e || header[i] == 0x9 {
        assert forall|i: int| 0 <= i < header.len() implies is_visible(#[trigger] header[i]) by {
            assert(0x20 <= header[i] <= 0x7e || header[i] == 0x9);
        }
    }
}

/// The model that is served is described under its whole name, alone and in the
/// list of models; any other is said not to exist, by the name that was asked for.
pub proof fn law_models_are_named(
    key: Option<Seq<u8>>,
    header: Option<Seq<u8>>,
    model: Seq<char>,
    asked: Seq<char>,
)
    requires
        is_authorized(key, header),
    ensures
        asked == model ==> model_answer(key, header, model, asked) == (AnswerModel::Json {
            status: 200,
            body: "{\"created\":0,\"id\":"@ + json::quoted(model)
                + ",\"object\":\"model\",\"owned_by\":\"doubao\"}"@,
        }),
        asked != model ==> model_answer(key, header, model, asked) == (AnswerModel::Json {
            status: 404,
            body: error_body(model_not_found_answer(asked)),
        }),
        models_answer(key, header, model) == (AnswerModel::Json {
            status: 200,
            body: "{\"data\":["@ + ("{\"created\":0,\"id\":"@ + json::quoted(model)
                + ",\"object\":\"model\",\"owned_by\":\"doubao\"}"@)
                + "],\"object\":\"list\"}"@,
        }),
{
}

/// A request that is let in and cannot be used is refused: 413 where it is too
/// large, 400 where it is no request. One that asks for no audio that can be
/// transcribed is refused as its parts say, and any other waits for a place with
/// the audio that it asks for.
pub proof fn law_requests_are_judged_before_a_place(
    key: Option<Seq<u8>>,
    header: Option<Seq<u8>>,
    model: Seq<char>,
    request: ChatCompletionRequest,
)
    requires
        is_authorized(key, header),
    ensures
        received(key, header, model, Payload::TooLarge).1 matches ChatActionModel::Refuse(error)
            && error.status == 413,
        received(key, header, model, Payload::Invalid).1 matches ChatActionModel::Refuse(error)
            && error.status == 400 && error.message == "request body must be valid JSON"@
            && error.param is None,
        match protocol::extracted(request, model) {
            Ok((source, streaming)) => received(key, header, model, Payload::Parsed(request)) == (
                StageModel::Reserving { source, streaming },
                ChatActionModel::Reserve,
            ),
            Err(error) => received(key, header, model, Payload::Parsed(request)) == (
                StageModel::Answered,
                ChatActionModel::Refuse(error),
            ),
        },
{
}

/// A failure on the way is what the request is answered with: that of its audio as
/// it is, and that of its transcription as failures are answered.
pub proof fn law_failures_on_the_way_are_answered(
    stage: StageModel,
    refused: ApiErrorModel,
    error: crate::error::ErrorModel,
)
    ensures
        materialized(stage, Some(refused)) == (
            StageModel::Answered,
            ChatActionModel::Refuse(refused),
        ),
        transcribed(stage, Err(error)) == (
            StageModel::Answered,
            ChatActionModel::Refuse(provider_answer(error)),
        ),
{
}

/// A streamed completion ends with the mark of its end, and its text stands in
/// the second event alone.
pub proof fn law_streams_end_with_done(
    id: Seq<char>,
    created: u64,
    model: Seq<char>,
    content: Seq<char>,
    other: Seq<char>,
)
    ensures
        stream_events(id, created, model, content).len() == 4,
        stream_events(id, created, model, content)[3] == "[DONE]"@,
        stream_events(id, created, model, content)[0] == stream_events(
            id,
            created,
            model,
            other,
        )[0],
        stream_events(id, created, model, content)[2] == stream_events(
            id,
            created,
            model,
            other,
        )[2],
{
}

/// The end of a chunk has no line ends.
proof fn lemma_chunk_end_is_line(id: Seq<char>, created: u64, model: Seq<char>)
    ensures
        json::is_line(chunk_end(id, created, model)),
{
    reveal_strlit(",\"index\":0}],\"created\":");
    reveal_strlit(",\"id\":");
    reveal_strlit(",\"model\":");
    reveal_strlit(",\"object\":\"chat.completion.chunk\"}");
    let a = ",\"index\":0}],\"created\":"@;
    let b = a + text::decimal(created as nat);
    let c = b + ",\"id\":"@;
    let d = c + json::quoted(id);
    let e = d + ",\"model\":"@;
    let f = e + json::quoted(model);
    json::lemma_decimal_is_line(created as nat);
    json::law_quoted_text_is_one_line(id);
    json::law_quoted_text_is_one_line(model);
    json::lemma_line_concat(a, text::decimal(created as nat));
    json::lemma_line_concat(b, ",\"id\":"@);
    json::lemma_line_concat(c, json::quoted(id));
    json::lemma_line_concat(d, ",\"model\":"@);
    json::lemma_line_concat(e, json::quoted(model));
    json::lemma_line_concat(f, ",\"object\":\"chat.completion.chunk\"}"@);
}

/// Every event of a streamed completion is one line, whatever the transcript
/// holds, so that none is taken for several.
pub proof fn law_stream_events_are_lines(
    id: Seq<char>,
    created: u64,
    model: Seq<char>,
    content: Seq<char>,
    at: int,
)
    requires
        0 <= at < 4,
    ensures
        json::is_line(stream_events(id, created, model, content)[at]),
{
    let end = chunk_end(id, created, model);
    lemma_chunk_end_is_line(id, created, model);
    if at == 0 {
        reveal_strlit(
            "{\"choices\":[{\"delta\":{\"content\":\"\",\"role\":\"assistant\"},\"finish_reason\":null",
        );
        json::lemma_line_concat(
            "{\"choices\":[{\"delta\":{\"content\":\"\",\"role\":\"assistant\"},\"finish_reason\":null"@,
            end,
        );
    } else if at == 1 {
        reveal_strlit("{\"choices\":[{\"delta\":{\"content\":");
        reveal_strlit("},\"finish_reason\":null");
        json::law_quoted_text_is_one_line(content);
        let a = "{\"choices\":[{\"delta\":{\"content\":"@;
        let b = a + json::quoted(content);
        json::lemma_line_concat(a, json::quoted(content));
        json::lemma_line_concat(b, "},\"finish_reason\":null"@);
        json::lemma_line_concat(b + "},\"finish_reason\":null"@, end);
    } else if at == 2 {
        reveal_strlit("{\"choices\":[{\"delta\":{},\"finish_reason\":\"stop\"");
        json::lemma_line_concat("{\"choices\":[{\"delta\":{},\"finish_reason\":\"stop\""@, end);
    } else {
        reveal_strlit("[DONE]");
    }
}

/// A refusal is known by all that it says, and an answer by its status and the whole of
/// the document or the events that are sent.
pub proof fn law_answers_are_known_by_what_is_sent(
    error: ApiError,
    status: u16,
    body: String,
    events: Vec<String>,
)
    ensures
        error@.status == error.status,
        error@.message == error.message@,
        error@.error_type == error.error_type@,
        error.param matches Some(param) ==> error@.param == Some(param@),
        error.param is None ==> error@.param is None,
        error@.code == error.code@,
        (Answer { status, body: AnswerBody::Json(body) })@ == (AnswerModel::Json {
            status,
            body: body@,
        }),
        (Answer { status, body: AnswerBody::Events(events) })@ matches AnswerModel::Events {
            status: shown,
            events: texts,
        } && shown == status && texts.len() == events@.len() && forall|i: int|
            0 <= i < events@.len() ==> #[trigger] texts[i] == events@[i]@,
{
}

/// What a request asks of its caller is known by the whole source, the whole refusal or
/// the whole text.
pub proof fn law_chat_actions_are_known_by_what_they_hold(action: ChatAction)
    ensures
        action is Reserve ==> action@ == ChatActionModel::Reserve,
        action is Transcribe ==> action@ == ChatActionModel::Transcribe,
        action matches ChatAction::Materialize(source) ==> action@ == ChatActionModel::Materialize(
            source@,
        ),
        action matches ChatAction::Refuse(error) ==> action@ == ChatActionModel::Refuse(error@),
        action matches ChatAction::Complete { content, streaming } ==> action@
            == (ChatActionModel::Complete { content: content@, streaming }),
{
}

/// A completion is a success that holds the model and the whole text, under an
/// identifier of its own and the seconds of a reading of the clock; a streamed one is
/// the stream of the same.
pub proof fn law_completions_are_successes(
    answer: AnswerModel,
    model: Seq<char>,
    content: Seq<char>,
)
    ensures
        is_completion(answer, model, content) ==> (answer matches AnswerModel::Json { status, body }
            && status == 200 && exists|uuid: Seq<char>, now: std::time::SystemTime| #[trigger]
            identity::is_uuid_v4(uuid) && body == completion_text(
            "chatcmpl-"@ + uuid,
            #[trigger] clock::clock_seconds(now) as u64,
            model,
            content,
        )),
        is_streamed_completion(answer, model, content) ==> (answer matches AnswerModel::Events {
            status,
            events,
        } && status == 200 && exists|uuid: Seq<char>, now: std::time::SystemTime| #[trigger]
            identity::is_uuid_v4(uuid) && events == stream_events(
            "chatcmpl-"@ + uuid,
            #[trigger] clock::clock_seconds(now) as u64,
            model,
            content,
        )),
        success(content) == (AnswerModel::Json { status: 200, body: content }),
{
}

/// A text can stand in a header if and only if each of its characters is visible ASCII,
/// a space or a tab.
pub proof fn law_headers_hold_visible_texts(value: Seq<char>)
    ensures
        is_header_safe(value) <==> forall|i: int|
            0 <= i < value.len() ==> 0x20 <= (#[trigger] value[i]) as u32 <= 0x7e || value[i] as u32 == 0x9,
{
    if is_header_safe(value) {
        assert forall|i: int| 0 <= i < value.len() implies 0x20 <= (#[trigger] value[i]) as u32
            <= 0x7e || value[i] as u32 == 0x9 by {
            assert(is_visible_char(value[i]));
        }
    }
    if forall|i: int|
        0 <= i < value.len() ==> 0x20 <= (#[trigger] value[i]) as u32 <= 0x7e || value[i] as u32 == 0x9 {
        assert forall|i: int| 0 <= i < value.len() implies is_visible_char(#[trigger] value[i]) by {
            assert(0x20 <= value[i] as u32 <= 0x7e || value[i] as u32 == 0x9);
        }
    }
}

} // verus!
