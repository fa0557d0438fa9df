//! The audio of a request, as it is decoded or downloaded.

use base64::Engine;
use vstd::prelude::*;
use crate::server::app::ApiError;
use crate::server::protocol::AudioSource;
use crate::text;
use crate::urls;

verus! {

/// The largest audio that is accepted.
pub const MAX_AUDIO_BYTES: usize = 26_214_400;

/// The largest request that is accepted.
pub const MAX_JSON_BYTES: usize = 37_748_736;

/// The longest base64 text that is decoded: four thirds of the largest audio,
/// and four.
pub const MAX_ENCODED_BYTES: usize = 34_952_537;

/// Where audio came from.
#[derive(Clone, Copy, Debug, PartialEq, Eq, Structural)]
pub enum SourceKind {
    InputAudio,
    DataUrl,
    RemoteUrl,
}

impl SourceKind {
    /// The name of the kind of source.
    pub open spec fn name(self) -> Seq<char> {
        match self {
            SourceKind::InputAudio => "input_audio"@,
            SourceKind::DataUrl => "data_url"@,
            SourceKind::RemoteUrl => "remote_url"@,
        }
    }

    /// Names the kind of source.
    pub fn as_str(self) -> (r: &'static str)
        ensures
            r@ == self.name(),
    {
        match self {
            SourceKind::InputAudio => "input_audio",
            SourceKind::DataUrl => "data_url",
            SourceKind::RemoteUrl => "remote_url",
        }
    }
}

/// The character for six bits in the standard alphabet of base64.
pub open spec fn base64_digit(bits: int) -> char {
    if bits < 26 {
        ('A' as int + bits) as char
    } else if bits < 52 {
        ('a' as int + (bits - 26)) as char
    } else if bits < 62 {
        ('0' as int + (bits - 52)) as char
    } else if bits == 62 {
        '+'
    } else {
        '/'
    }
}

/// The base64 text for bytes, in the standard alphabet with padding: four
/// characters for each three bytes, and as many for what is left.
pub open spec fn base64_text(bytes: Seq<u8>) -> Seq<char>
    decreases bytes.len(),
{
    let a = bytes[0] as int;
    let b = bytes[1] as int;
    let c = bytes[2] as int;
    if bytes.len() == 0 {
        Seq::empty()
    } else if bytes.len() == 1 {
        seq![base64_digit(a / 4), base64_digit(a % 4 * 16), '=', '=']
    } else if bytes.len() == 2 {
        seq![
            base64_digit(a / 4),
            base64_digit(a % 4 * 16 + b / 16),
            base64_digit(b % 16 * 4),
            '=',
        ]
    } else {
        seq![
            base64_digit(a / 4),
            base64_digit(a % 4 * 16 + b / 16),
            base64_digit(b % 16 * 4 + c / 64),
            base64_digit(c % 64),
        ] + base64_text(bytes.skip(3))
    }
}

/// The bytes that a text is the base64 text for, if there are any.
pub open spec fn base64_bytes(value: Seq<char>) -> Option<Seq<u8>> {
    if exists|bytes: Seq<u8>| #[trigger] base64_text(bytes) == value {
        Some(choose|bytes: Seq<u8>| #[trigger] base64_text(bytes) == value)
    } else {
        None
    }
}

/// Six bits are written as a character of their own, which is ASCII and not the
/// padding.
proof fn lemma_base64_digits(x: int, y: int)
    requires
        0 <= x < 64,
        0 <= y < 64,
    ensures
        base64_digit(x) == base64_digit(y) ==> x == y,
        base64_digit(x) != '=',
        base64_digit(y) != '=',
        '\0' <= base64_digit(x) <= '\u{7f}',
{
}

/// The length of a base64 text, and that it is ASCII.
proof fn lemma_base64_size(bytes: Seq<u8>)
    ensures
        base64_text(bytes).len() == (bytes.len() + 2) / 3 * 4,
        vstd::utf8::is_ascii_chars(base64_text(bytes)),
        vstd::utf8::encode_utf8(base64_text(bytes)).len() == base64_text(bytes).len(),
    decreases bytes.len(),
{
    assert forall|x: int| 0 <= x < 64 implies '\0' <= #[trigger] base64_digit(x) <= '\u{7f}' by {
        lemma_base64_digits(x, x);
    }
    if bytes.len() >= 3 {
        let rest = base64_text(bytes.skip(3));
        lemma_base64_size(bytes.skip(3));
        let text = base64_text(bytes);
        assert forall|i: int| 0 <= i < text.len() implies '\0' <= #[trigger] text[i]
            <= '\u{7f}' by {
            if i >= 4 {
                assert(text[i] == rest[i - 4]);
            }
        }
    }
    vstd::utf8::is_ascii_chars_encode_utf8(base64_text(bytes));
}

/// Different bytes have different base64 texts.
pub proof fn law_base64_tells_bytes_apart(x: Seq<u8>, y: Seq<u8>)
    requires
        base64_text(x) == base64_text(y),
    ensures
        x == y,
    decreases x.len(),
{
    lemma_base64_size(x);
    lemma_base64_size(y);
    let s = base64_text(x);
    let t = base64_text(y);
    if x.len() > 0 && y.len() > 0 {
        assert(s[0] == t[0] && s[1] == t[1] && s[2] == t[2] && s[3] == t[3]);
        let (xa, ya) = (x[0] as int, y[0] as int);
        let (xb, yb) = (x[1] as int, y[1] as int);
        let (xc, yc) = (x[2] as int, y[2] as int);
        lemma_base64_digits(xa / 4, ya / 4);
        lemma_base64_digits(xb % 16 * 4, yb % 16 * 4);
        lemma_base64_digits(xb % 16 * 4 + xc / 64, yb % 16 * 4 + yc / 64);
        lemma_base64_digits(xc % 64, yc % 64);
        if x.len() == 1 {
            assert(y.len() == 1);
            lemma_base64_digits(xa % 4 * 16, ya % 4 * 16);
            assert(xa == ya);
            assert(x =~= y);
        } else {
            assert(y.len() > 1);
            lemma_base64_digits(xa % 4 * 16 + xb / 16, ya % 4 * 16 + yb / 16);
            assert(s[1] == base64_digit(xa % 4 * 16 + xb / 16));
            assert(t[1] == base64_digit(ya % 4 * 16 + yb / 16));
            assert(xa == ya && xb / 16 == yb / 16);
            if x.len() == 2 {
                assert(y.len() == 2);
                assert(xb == yb);
                assert(x =~= y);
            } else {
                assert(y.len() > 2);
                assert(base64_text(x.skip(3)) =~= s.skip(4));
                assert(base64_text(y.skip(3)) =~= t.skip(4));
                law_base64_tells_bytes_apart(x.skip(3), y.skip(3));
                assert(x =~= seq![x[0], x[1], x[2]] + x.skip(3));
                assert(y =~= seq![y[0], y[1], y[2]] + y.skip(3));
                assert(s[2] == base64_digit(xb % 16 * 4 + xc / 64));
                assert(t[2] == base64_digit(yb % 16 * 4 + yc / 64));
                assert(s[3] == base64_digit(xc % 64) && t[3] == base64_digit(yc % 64));
                assert(xb == yb && xc == yc);
                assert(x =~= y);
            }
        }
    }
    assert(x =~= y);
}

/// Optional bytes.
pub open spec fn optional_bytes(value: Option<Vec<u8>>) -> Option<Seq<u8>> {
    match value {
        Some(bytes) => Some(bytes@),
        None => None,
    }
}

/// `base64::engine::general_purpose::STANDARD.decode` gives the bytes whose
/// base64 text, in the standard alphabet with its padding, the text is, and
/// refuses a text that is that of no bytes: one with other characters, without
/// its padding, or with bits set that stand for no byte.
#[verifier::external_body]
fn standard_decode(value: &str) -> (r: Option<Vec<u8>>)
    ensures
        match r {
            Some(bytes) => base64_text(bytes@) == value@,
            None => forall|bytes: Seq<u8>| #[trigger] base64_text(bytes) != value@,
        },
{
    base64::engine::general_purpose::STANDARD.decode(value).ok()
}

/// The audio that decoding gave, or why it is refused.
pub open spec fn judged(decoded: Option<Seq<u8>>) -> Result<
    Seq<u8>,
    crate::server::app::ApiErrorModel,
> {
    match decoded {
        None => Err(
            crate::server::app::invalid_messages_answer("audio data is not valid base64"@),
        ),
        Some(bytes) => if bytes.len() > MAX_AUDIO_BYTES {
            Err(crate::server::app::payload_too_large_answer())
        } else if bytes.len() == 0 {
            Err(crate::server::app::invalid_messages_answer("audio input must not be empty"@))
        } else {
            Ok(bytes)
        },
    }
}

/// A result by what it holds.
pub open spec fn bytes_result(r: Result<Vec<u8>, ApiError>) -> Result<
    Seq<u8>,
    crate::server::app::ApiErrorModel,
> {
    match r {
        Ok(bytes) => Ok(bytes@),
        Err(error) => Err(error@),
    }
}

/// Refuses messages for a reason.
fn invalid_messages(reason: &str) -> (r: ApiError)
    ensures
        r@ == crate::server::app::invalid_messages_answer(reason@),
{
    ApiError::invalid_request(reason, Some("messages"))
}

/// Judges the audio that decoding gave.
pub fn judge_decoded(decoded: Option<Vec<u8>>) -> (r: Result<Vec<u8>, ApiError>)
    ensures
        bytes_result(r) == judged(optional_bytes(decoded)),
{
    match decoded {
        None => Err(invalid_messages("audio data is not valid base64")),
        Some(bytes) => if bytes.len() > MAX_AUDIO_BYTES {
            Err(ApiError::payload_too_large())
        } else if bytes.len() == 0 {
            Err(invalid_messages("audio input must not be empty"))
        } else {
            Ok(bytes)
        },
    }
}

/// The audio that a base64 text stands for, or why it is refused; a text that is
/// too long is not decoded.
pub open spec fn decoded_audio(value: Seq<char>) -> Result<
    Seq<u8>,
    crate::server::app::ApiErrorModel,
> {
    if vstd::utf8::encode_utf8(value).len() > MAX_ENCODED_BYTES {
        Err(crate::server::app::payload_too_large_answer())
    } else {
        judged(base64_bytes(value))
    }
}

/// Decodes audio in base64.
pub fn decode_base64(value: &str) -> (r: Result<Vec<u8>, ApiError>)
    ensures
        bytes_result(r) == decoded_audio(value@),
{
    if value.as_bytes().len() > MAX_ENCODED_BYTES {
        return Err(ApiError::payload_too_large());
    }
    let decoded = standard_decode(value);
    proof {
        if decoded is Some {
            law_base64_tells_bytes_apart(decoded->0@, base64_bytes(value@)->0);
        }
    }
    judge_decoded(decoded)
}

/// The file extension for a MIME type.
pub open spec fn mime_extension(mime: Seq<char>) -> Seq<char> {
    if mime == "audio/mpeg"@ || mime == "audio/mp3"@ {
        "mp3"@
    } else if mime == "audio/wav"@ || mime == "audio/x-wav"@ {
        "wav"@
    } else if mime == "audio/flac"@ {
        "flac"@
    } else if mime == "audio/ogg"@ {
        "ogg"@
    } else if mime == "audio/webm"@ {
        "webm"@
    } else if mime == "audio/mp4"@ {
        "m4a"@
    } else {
        "media"@
    }
}

/// Picks the file extension for a MIME type.
pub fn extension_for_mime(mime: &str) -> (r: &'static str)
    ensures
        r@ == mime_extension(mime@),
{
    if text::text_eq(mime, "audio/mpeg") || text::text_eq(mime, "audio/mp3") {
        "mp3"
    } else if text::text_eq(mime, "audio/wav") || text::text_eq(mime, "audio/x-wav") {
        "wav"
    } else if text::text_eq(mime, "audio/flac") {
        "flac"
    } else if text::text_eq(mime, "audio/ogg") {
        "ogg"
    } else if text::text_eq(mime, "audio/webm") {
        "webm"
    } else if text::text_eq(mime, "audio/mp4") {
        "m4a"
    } else {
        "media"
    }
}

/// The parts of an audio data URL: the extension for its MIME type and its
/// base64 text, or why it is refused.
pub open spec fn data_url(value: Seq<char>) -> Result<
    (Seq<char>, Seq<char>),
    crate::server::app::ApiErrorModel,
> {
    match text::split_first(value, ',') {
        None => Err(crate::server::app::invalid_messages_answer("invalid audio data URL"@)),
        Some((metadata, data)) => if !";base64"@.is_suffix_of(metadata) {
            Err(
                crate::server::app::invalid_messages_answer(
                    "audio data URL must use base64 encoding"@,
                ),
            )
        } else if !"audio/"@.is_prefix_of(mime_of(metadata)) {
            Err(
                crate::server::app::invalid_messages_answer(
                    "audio data URL must use an audio MIME type"@,
                ),
            )
        } else {
            Ok((mime_extension(mime_of(metadata)), data))
        },
    }
}

/// The MIME type that the metadata of a data URL in base64 names.
pub open spec fn mime_of(metadata: Seq<char>) -> Seq<char> {
    let rest = metadata.skip("data:"@.len() as int);
    if "data:"@.is_prefix_of(metadata) && ";base64"@.is_suffix_of(rest) {
        rest.take(rest.len() - ";base64"@.len())
    } else {
        Seq::empty()
    }
}

/// Finds the MIME type that the metadata of a data URL in base64 names.
fn find_mime<'a>(metadata: &'a str) -> (r: &'a str)
    ensures
        r@ == mime_of(metadata@),
{
    if let Some(rest) = text::strip_prefix(metadata, "data:") {
        if let Some(mime) = text::strip_suffix(rest, ";base64") {
            return mime;
        }
    }
    let nothing = metadata.substring_char(0, 0);
    assert(nothing@ =~= Seq::empty());
    nothing
}

/// Takes an audio data URL apart.
pub fn split_data_url<'a>(value: &'a str) -> (r: Result<(&'static str, &'a str), ApiError>)
    ensures
        match r {
            Ok(parts) => data_url(value@) == Ok::<
                (Seq<char>, Seq<char>),
                crate::server::app::ApiErrorModel,
            >((parts.0@, parts.1@)),
            Err(e) => data_url(value@) == Err::<
                (Seq<char>, Seq<char>),
                crate::server::app::ApiErrorModel,
            >(e@),
        },
{
    let (metadata, data) = match text::split_once(value, ',') {
        Some(parts) => parts,
        None => {
            return Err(invalid_messages("invalid audio data URL"));
        },
    };
    if !text::ends_with(metadata, ";base64") {
        return Err(invalid_messages("audio data URL must use base64 encoding"));
    }
    let mime = find_mime(metadata);
    if !text::starts_with(mime, "audio/") {
        return Err(invalid_messages("audio data URL must use an audio MIME type"));
    }
    Ok((extension_for_mime(mime), data))
}

/// How the audio of a request is brought about.
pub enum AudioPlan {
    /// These bytes are stored under this extension.
    Store { bytes: Vec<u8>, extension: String, kind: SourceKind },
    /// The audio is downloaded from this URL.
    Download(String),
}

/// What an [`AudioPlan`] says.
#[verifier::ext_equal]
pub enum PlanModel {
    Store { bytes: Seq<u8>, extension: Seq<char>, kind: SourceKind },
    Download(Seq<char>),
}

impl View for AudioPlan {
    type V = PlanModel;

    open spec fn view(&self) -> PlanModel {
        match self {
            AudioPlan::Store { bytes, extension, kind } => PlanModel::Store {
                bytes: bytes@,
                extension: extension@,
                kind: *kind,
            },
            AudioPlan::Download(url) => PlanModel::Download(url@),
        }
    }
}

/// Decoded audio as it is stored.
pub open spec fn stored(
    decoded: Result<Seq<u8>, crate::server::app::ApiErrorModel>,
    extension: Seq<char>,
    kind: SourceKind,
) -> Result<PlanModel, crate::server::app::ApiErrorModel> {
    match decoded {
        Ok(bytes) => Ok(PlanModel::Store { bytes, extension, kind }),
        Err(error) => Err(error),
    }
}

/// The failure of a URL that no audio can be downloaded from.
pub open spec fn unusable_url() -> crate::server::app::ApiErrorModel {
    crate::server::app::invalid_messages_answer("audio_url must be an HTTP(S) or data URL"@)
}

/// The scheme that a URL text parses to.
pub open spec fn scheme_of(value: Seq<char>) -> Option<Seq<char>> {
    match urls::url_parse(value) {
        Some((target, _)) => match text::split_first(target, ':') {
            Some((scheme, _)) => Some(scheme),
            None => None,
        },
        None => None,
    }
}

/// Whether audio can be downloaded from URLs of a scheme.
pub open spec fn is_web_scheme(scheme: Option<Seq<char>>) -> bool {
    scheme == Some("http"@) || scheme == Some("https"@)
}

/// How the audio of a request is brought about, or why it is refused.
pub open spec fn planned(source: crate::server::protocol::SourceModel) -> Result<
    PlanModel,
    crate::server::app::ApiErrorModel,
> {
    match source {
        crate::server::protocol::SourceModel::InputAudio { data, format } => {
            let lower = format.map_values(|c: char| text::ascii_lower(c));
            if lower == "wav"@ || lower == "mp3"@ {
                stored(decoded_audio(data), lower, SourceKind::InputAudio)
            } else {
                Err(
                    crate::server::app::invalid_messages_answer(
                        "input_audio format must be wav or mp3"@,
                    ),
                )
            }
        },
        crate::server::protocol::SourceModel::AudioUrl(value) => if "data:"@.is_prefix_of(value) {
            match data_url(value) {
                Ok((extension, data)) => stored(
                    decoded_audio(data),
                    extension,
                    SourceKind::DataUrl,
                ),
                Err(error) => Err(error),
            }
        } else if is_web_scheme(scheme_of(value)) {
            Ok(PlanModel::Download(value))
        } else {
            Err(unusable_url())
        },
    }
}

/// A plan by what it says.
pub open spec fn plan_result(r: Result<AudioPlan, ApiError>) -> Result<
    PlanModel,
    crate::server::app::ApiErrorModel,
> {
    match r {
        Ok(plan) => Ok(plan@),
        Err(error) => Err(error@),
    }
}

/// Plans to store decoded audio.
fn store(decoded: Result<Vec<u8>, ApiError>, extension: &str, kind: SourceKind) -> (r: Result<
    AudioPlan,
    ApiError,
>)
    ensures
        plan_result(r) == stored(bytes_result(decoded), extension@, kind),
{
    match decoded {
        Ok(bytes) => Ok(AudioPlan::Store { bytes, extension: extension.to_owned(), kind }),
        Err(error) => Err(error),
    }
}

/// Judges the scheme of a URL that audio is to be downloaded from; a text that
/// is no URL has none.
pub fn judge_scheme(scheme: Option<&str>) -> (r: Result<(), ApiError>)
    ensures
        match r {
            Ok(_) => is_web_scheme(text::optional(scheme)),
            Err(e) => !is_web_scheme(text::optional(scheme)) && e@ == unusable_url(),
        },
{
    if let Some(found) = scheme {
        if text::text_eq(found, "http") || text::text_eq(found, "https") {
            return Ok(());
        }
    }
    Err(invalid_messages("audio_url must be an HTTP(S) or data URL"))
}

/// Decides how the audio of a request is brought about.
pub fn materialize(source: AudioSource) -> (r: Result<AudioPlan, ApiError>)
    ensures
        plan_result(r) == planned(source@),
{
    match source {
        AudioSource::InputAudio { data, format } => {
            let lower = text::lowercase_ascii(format.as_str());
            if !text::text_eq(lower.as_str(), "wav") && !text::text_eq(lower.as_str(), "mp3") {
                return Err(invalid_messages("input_audio format must be wav or mp3"));
            }
            store(decode_base64(data.as_str()), lower.as_str(), SourceKind::InputAudio)
        },
        AudioSource::AudioUrl(value) => if text::starts_with(value.as_str(), "data:") {
            match split_data_url(value.as_str()) {
                Ok((extension, data)) => store(
                    decode_base64(data),
                    extension,
                    SourceKind::DataUrl,
                ),
                Err(error) => Err(error),
            }
        } else {
            let verdict = match urls::url_scheme(value.as_str()) {
                Some(scheme) => judge_scheme(Some(scheme.as_str())),
                None => judge_scheme(None),
            };
            match verdict {
                Ok(_) => Ok(AudioPlan::Download(value)),
                Err(error) => Err(error),
            }
        },
    }
}

/// Names the file that audio is stored in by its extension.
pub fn file_name(extension: &str) -> (r: String)
    ensures
        r@ == "input."@ + extension@,
{
    let mut name = "input.".to_owned();
    name.append(extension);
    name
}

/// The extension that downloaded audio is stored under.
pub const DOWNLOAD_EXTENSION: &'static str = "media";

/// The size of a download, which stays within the limit.
pub struct Download {
    received: usize,
}

impl Download {
    /// How many bytes came so far.
    pub closed spec fn size(&self) -> nat {
        self.received as nat
    }

    /// Whether the download is within the limit.
    pub open spec fn wf(&self) -> bool {
        self.size() <= MAX_AUDIO_BYTES
    }

    /// Reports that the download got no answer.
    pub fn unanswered() -> (r: ApiError)
        ensures
            r@ == crate::server::app::bad_gateway_answer("could not download audio_url"@),
    {
        ApiError::bad_gateway("could not download audio_url")
    }

    /// Reports that the download broke off.
    pub fn interrupted() -> (r: ApiError)
        ensures
            r@ == crate::server::app::bad_gateway_answer("audio_url download failed"@),
    {
        ApiError::bad_gateway("audio_url download failed")
    }

    /// Starts a download by the HTTP status and the announced length of the answer.
    pub fn begin(status: u16, announced: Option<u64>) -> (r: Result<Download, ApiError>)
        ensures
            match r {
                Ok(download) => 200 <= status <= 299 && (announced matches Some(length) ==> length
                    <= MAX_AUDIO_BYTES) && download.size() == 0 && download.wf(),
                Err(e) => if !(200 <= status <= 299) {
                    e@ == crate::server::app::bad_gateway_answer(
                        "audio_url returned a non-success status"@,
                    )
                } else {
                    &&& announced matches Some(length) && length > MAX_AUDIO_BYTES
                    &&& e@ == crate::server::app::payload_too_large_answer()
                },
            },
    {
        if !(200 <= status && status <= 299) {
            return Err(ApiError::bad_gateway("audio_url returned a non-success status"));
        }
        if let Some(length) = announced {
            if length > MAX_AUDIO_BYTES as u64 {
                return Err(ApiError::payload_too_large());
            }
        }
        Ok(Download { received: 0 })
    }

    /// Takes note of a chunk before it is stored; one that goes over the limit is
    /// refused.
    pub fn accept(&mut self, length: usize) -> (r: Result<(), ApiError>)
        requires
            old(self).wf(),
        ensures
            final(self).wf(),
            match r {
                Ok(_) => old(self).size() + length <= MAX_AUDIO_BYTES && final(self).size() == old(
                    self,
                ).size() + length,
                Err(e) => old(self).size() + length > MAX_AUDIO_BYTES && final(self).size() == old(
                    self,
                ).size() && e@ == crate::server::app::payload_too_large_answer(),
            },
    {
        if length > MAX_AUDIO_BYTES - self.received {
            return Err(ApiError::payload_too_large());
        }
        self.received = self.received + length;
        Ok(())
    }

    /// Ends the download and tells its size; an empty one is refused.
    pub fn finish(self) -> (r: Result<usize, ApiError>)
        ensures
            match r {
                Ok(size) => size == self.size() && size > 0,
                Err(e) => self.size() == 0 && e@ == crate::server::app::invalid_messages_answer(
                    "audio input must not be empty"@,
                ),
            },
    {
        if self.received == 0 {
            return Err(invalid_messages("audio input must not be empty"));
        }
        Ok(self.received)
    }
}

/// Audio in base64 is decoded to the bytes that were encoded: at least one byte
/// and at most as many as are accepted, that number included. More are refused
/// as too large, and none as empty.
pub proof fn law_encoded_audio_reads_back(bytes: Seq<u8>)
    ensures
        decoded_audio(base64_text(bytes)) == if bytes.len() > MAX_AUDIO_BYTES {
            Err::<Seq<u8>, crate::server::app::ApiErrorModel>(
                crate::server::app::payload_too_large_answer(),
            )
        } else if bytes.len() == 0 {
            Err(crate::server::app::invalid_messages_answer("audio input must not be empty"@))
        } else {
            Ok(bytes)
        },
{
    lemma_base64_size(bytes);
    law_base64_tells_bytes_apart(bytes, base64_bytes(base64_text(bytes))->0);
}

/// Audio within a request is stored as it was encoded: from 1 byte to 25 MiB, all
/// of them and nothing else, under the lower-case form of its format, which is wav
/// or mp3.
pub proof fn law_input_audio_is_stored_whole(format: Seq<char>, bytes: Seq<u8>)
    requires
        1 <= bytes.len() <= 25 * 1024 * 1024,
        format.map_values(|c: char| text::ascii_lower(c)) == "wav"@ || format.map_values(
            |c: char| text::ascii_lower(c),
        ) == "mp3"@,
    ensures
        planned(
            crate::server::protocol::SourceModel::InputAudio { data: base64_text(bytes), format },
        ) == Ok::<PlanModel, crate::server::app::ApiErrorModel>(
            PlanModel::Store {
                bytes,
                extension: format.map_values(|c: char| text::ascii_lower(c)),
                kind: SourceKind::InputAudio,
            },
        ),
        MAX_AUDIO_BYTES == 25 * 1024 * 1024,
        MAX_JSON_BYTES == 36 * 1024 * 1024,
{
    law_encoded_audio_reads_back(bytes);
}

/// Audio within a request of any other format is refused by that, whatever it holds;
/// audio that is no base64 text, holds no byte or more than 25 MiB is refused too.
pub proof fn law_unusable_input_audio_is_refused(
    format: Seq<char>,
    data: Seq<char>,
    bytes: Seq<u8>,
)
    ensures
        ({
            let lower = format.map_values(|c: char| text::ascii_lower(c));
            let found = planned(
                crate::server::protocol::SourceModel::InputAudio { data, format },
            );
            let encoded = planned(
                crate::server::protocol::SourceModel::InputAudio {
                    data: base64_text(bytes),
                    format,
                },
            );
            &&& lower != "wav"@ && lower != "mp3"@ ==> (found matches Err(error) && error.status
                == 400 && error.message == "input_audio format must be wav or mp3"@)
            &&& lower == "wav"@ || lower == "mp3"@ ==> {
                &&& (forall|b: Seq<u8>| #[trigger] base64_text(b) != data)
                    && vstd::utf8::encode_utf8(data).len() <= MAX_ENCODED_BYTES ==> (
                found matches Err(error) && error.status == 400 && error.message
                    == "audio data is not valid base64"@)
                &&& bytes.len() == 0 ==> (encoded matches Err(error) && error.status == 400
                    && error.message == "audio input must not be empty"@)
                &&& bytes.len() > 25 * 1024 * 1024 ==> (encoded matches Err(error)
                    && error.status == 413)
            }
        }),
{
    law_encoded_audio_reads_back(bytes);
}

/// A data URL of an audio type in base64 is stored as it was encoded: from 1 byte to
/// 25 MiB, all of them and nothing else.
pub proof fn law_data_urls_are_stored_whole(mime: Seq<char>, bytes: Seq<u8>)
    requires
        1 <= bytes.len() <= 25 * 1024 * 1024,
        "audio/"@.is_prefix_of(mime),
        !mime.contains(','),
    ensures
        planned(
            crate::server::protocol::SourceModel::AudioUrl(
                "data:"@ + mime + ";base64,"@ + base64_text(bytes),
            ),
        ) == Ok::<PlanModel, crate::server::app::ApiErrorModel>(
            PlanModel::Store {
                bytes,
                extension: mime_extension(mime),
                kind: SourceKind::DataUrl,
            },
        ),
{
    law_encoded_audio_reads_back(bytes);
    law_data_urls_decode_as_input(mime, base64_text(bytes));
}

/// The extension for each audio type that is known, and that of any other.
pub proof fn law_extensions_go_by_type(mime: Seq<char>)
    ensures
        mime == "audio/mpeg"@ || mime == "audio/mp3"@ ==> mime_extension(mime) == "mp3"@,
        mime == "audio/wav"@ || mime == "audio/x-wav"@ ==> mime_extension(mime) == "wav"@,
        mime == "audio/flac"@ ==> mime_extension(mime) == "flac"@,
        mime == "audio/ogg"@ ==> mime_extension(mime) == "ogg"@,
        mime == "audio/webm"@ ==> mime_extension(mime) == "webm"@,
        mime == "audio/mp4"@ ==> mime_extension(mime) == "m4a"@,
        mime != "audio/mpeg"@ && mime != "audio/mp3"@ && mime != "audio/wav"@ && mime
            != "audio/x-wav"@ && mime != "audio/flac"@ && mime != "audio/ogg"@ && mime
            != "audio/webm"@ && mime != "audio/mp4"@ ==> mime_extension(mime) == "media"@,
{
    reveal_strlit("audio/mpeg");
    reveal_strlit("audio/mp3");
    reveal_strlit("audio/wav");
    reveal_strlit("audio/x-wav");
    reveal_strlit("audio/flac");
    reveal_strlit("audio/ogg");
    reveal_strlit("audio/webm");
    reveal_strlit("audio/mp4");
    assert("audio/wav"@[6] == 'w' && "audio/wav"@[7] == 'a');
    assert("audio/webm"@[7] == 'e');
    assert("audio/mp3"@[8] == '3' && "audio/mp4"@[8] == '4');
    assert("audio/mpeg"@[8] == 'e');
    assert("audio/flac"@[6] == 'f');
    assert("audio/ogg"@[6] == 'o');
    assert("audio/x-wav"@[6] == 'x');
}

/// A data URL without a comma, one that is not in base64 and one of another type
/// than audio are refused, each for its reason.
pub proof fn law_unusable_data_urls_are_refused(
    metadata: Seq<char>,
    mime: Seq<char>,
    data: Seq<char>,
)
    requires
        !metadata.contains(','),
        !mime.contains(','),
    ensures
        data_url(metadata) matches Err(error) && error.status == 400 && error.message
            == "invalid audio data URL"@,
        !";base64"@.is_suffix_of(metadata) ==> (data_url(metadata.push(',') + data) matches Err(
            error,
        ) && error.status == 400 && error.message == "audio data URL must use base64 encoding"@),
        !"audio/"@.is_prefix_of(mime) ==> (data_url(
            ("data:"@ + mime + ";base64"@).push(',') + data,
        ) matches Err(error) && error.status == 400 && error.message
            == "audio data URL must use an audio MIME type"@),
{
    text::law_splitting_at_the_first_separator(metadata, ',', data);
    if !"audio/"@.is_prefix_of(mime) {
        reveal_strlit("data:");
        reveal_strlit(";base64");
        let whole = "data:"@ + mime + ";base64"@;
        assert(!whole.contains(',')) by {
            if whole.contains(',') {
                let k = choose|k: int| 0 <= k < whole.len() && whole[k] == ',';
                if 5 <= k < 5 + mime.len() {
                    assert(mime[k - 5] == ',');
                }
            }
        }
        text::law_splitting_at_the_first_separator(whole, ',', data);
        let rest = whole.skip(5);
        assert(rest =~= mime + ";base64"@);
        assert("data:"@ =~= whole.subrange(0, 5));
        assert(";base64"@ =~= whole.subrange(whole.len() - 7, whole.len() as int));
        assert(";base64"@ =~= rest.subrange(rest.len() - 7, rest.len() as int));
        assert(rest.take(rest.len() - 7) =~= mime);
    }
}

/// A URL that parses to one of the scheme http or https is downloaded, the whole of
/// it as it was given; one of another scheme, and a text that is no URL, are
/// refused.
pub proof fn law_web_urls_are_downloaded_as_given(
    value: Seq<char>,
    scheme: Seq<char>,
    rest: Seq<char>,
    pairs: Seq<(Seq<char>, Seq<char>)>,
)
    requires
        !"data:"@.is_prefix_of(value),
        !scheme.contains(':'),
    ensures
        urls::url_parse(value) == Some((scheme.push(':') + rest, pairs)) ==> planned(
            crate::server::protocol::SourceModel::AudioUrl(value),
        ) == if scheme == "http"@ || scheme == "https"@ {
            Ok::<PlanModel, crate::server::app::ApiErrorModel>(PlanModel::Download(value))
        } else {
            Err(
                crate::server::app::invalid_messages_answer(
                    "audio_url must be an HTTP(S) or data URL"@,
                ),
            )
        },
        urls::url_parse(value) is None ==> planned(
            crate::server::protocol::SourceModel::AudioUrl(value),
        ) == Err::<PlanModel, crate::server::app::ApiErrorModel>(
            crate::server::app::invalid_messages_answer(
                "audio_url must be an HTTP(S) or data URL"@,
            ),
        ),
{
    text::law_splitting_at_the_first_separator(scheme, ':', rest);
}

/// The names of the kinds of source.
pub proof fn law_sources_have_their_names(kind: SourceKind)
    ensures
        kind == SourceKind::InputAudio ==> kind.name() == "input_audio"@,
        kind == SourceKind::DataUrl ==> kind.name() == "data_url"@,
        kind == SourceKind::RemoteUrl ==> kind.name() == "remote_url"@,
{
}

/// A text that is accepted as audio is the base64 text for what it is decoded
/// to: no other text stands for the same audio.
pub proof fn law_accepted_audio_encodes_back(value: Seq<char>)
    ensures
        decoded_audio(value) matches Ok(bytes) ==> base64_text(bytes) == value,
{
}

/// Audio that is stored is never empty and never over the limit, whichever way
/// the request carried it.
pub proof fn law_stored_audio_is_within_limits(source: crate::server::protocol::SourceModel)
    ensures
        planned(source) matches Ok(PlanModel::Store { bytes, .. }) ==> 0 < bytes.len()
            <= MAX_AUDIO_BYTES,
{
}

/// Only web URLs are downloaded: no URL of another scheme, such as that of a
/// local file, leads to anything but a refusal.
pub proof fn law_only_web_urls_are_downloaded(value: Seq<char>)
    ensures
        planned(crate::server::protocol::SourceModel::AudioUrl(value)) matches Ok(
            PlanModel::Download(url),
        ) ==> url == value && is_web_scheme(scheme_of(value)),
        !"data:"@.is_prefix_of(value) && !is_web_scheme(scheme_of(value)) ==> planned(
            crate::server::protocol::SourceModel::AudioUrl(value),
        ) == Err::<PlanModel, crate::server::app::ApiErrorModel>(unusable_url()),
{
}

/// A data URL of an audio type in base64 is decoded as the same text would be
/// within the request.
pub proof fn law_data_urls_decode_as_input(mime: Seq<char>, data: Seq<char>)
    requires
        "audio/"@.is_prefix_of(mime),
        !mime.contains(','),
    ensures
        data_url("data:"@ + mime + ";base64,"@ + data) == Ok::<
            (Seq<char>, Seq<char>),
            crate::server::app::ApiErrorModel,
        >((mime_extension(mime), data)),
        planned(
            crate::server::protocol::SourceModel::AudioUrl(
                "data:"@ + mime + ";base64,"@ + data,
            ),
        ) == stored(decoded_audio(data), mime_extension(mime), SourceKind::DataUrl),
{
    reveal_strlit("data:");
    reveal_strlit(";base64,");
    reveal_strlit(";base64");
    let value = "data:"@ + mime + ";base64,"@ + data;
    let metadata = "data:"@ + mime + ";base64"@;
    let at = metadata.len() as int;
    value.index_of_first_ensures(',');
    assert(value[at] == ',');
    assert forall|k: int| 0 <= k < at implies value[k] != ',' by {
        if 5 <= k < 5 + mime.len() {
            assert(value[k] == mime[k - 5]);
        }
    }
    assert(value.index_of_first(',') == Some(at));
    assert(value.take(at) =~= metadata);
    assert(value.skip(at + 1) =~= data);
    let rest = metadata.skip(5);
    assert(rest =~= mime + ";base64"@);
    assert("data:"@ =~= metadata.subrange(0, 5));
    assert("data:"@ =~= value.subrange(0, 5));
    assert(";base64"@ =~= metadata.subrange(metadata.len() - 7, metadata.len() as int));
    assert(";base64"@ =~= rest.subrange(rest.len() - 7, rest.len() as int));
    assert(rest.take(rest.len() - 7) =~= mime);
}

/// A plan is known by the whole of what is stored, or by the whole URL.
pub proof fn law_plans_are_known_by_what_they_hold(plan: AudioPlan, error: ApiError)
    ensures
        plan matches AudioPlan::Store { bytes, extension, kind } ==> plan@ == (PlanModel::Store {
            bytes: bytes@,
            extension: extension@,
            kind,
        }),
        plan matches AudioPlan::Download(url) ==> plan@ == PlanModel::Download(url@),
        plan_result(Ok(plan)) == Ok::<PlanModel, crate::server::app::ApiErrorModel>(plan@),
        plan_result(Err(error)) == Err::<PlanModel, crate::server::app::ApiErrorModel>(error@),
{
}

/// Audio of up to 25 MiB is taken, and its text in base64 is within the limit on such
/// texts, which a request can hold.
pub proof fn law_limits_fit_each_other()
    ensures
        MAX_AUDIO_BYTES == 25 * 1024 * 1024,
        MAX_JSON_BYTES == 36 * 1024 * 1024,
        4 * ((MAX_AUDIO_BYTES + 2) / 3) <= MAX_ENCODED_BYTES < MAX_JSON_BYTES,
{
}

} // verus!
