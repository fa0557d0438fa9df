//! The client: its options, the credentials it holds, and the course of a
//! transcription.

use vstd::prelude::*;
use crate::credentials::Credentials;
use crate::error::Error;
use crate::json;
use crate::provider::ProviderTranscript;
use crate::text;

verus! {

/// Provider identifier returned in every successful transcript.
pub const PROVIDER: &'static str = "doubao-ime";

/// A completed transcription.
#[derive(Debug, Clone, PartialEq, Eq)]
pub struct Transcript {
    pub text: String,
    pub duration_ms: u64,
    pub frames: usize,
    pub provider: String,
}

/// What a [`Transcript`] holds.
pub struct TranscriptModel {
    pub text: Seq<char>,
    pub duration_ms: u64,
    pub frames: usize,
    pub provider: Seq<char>,
}

impl View for Transcript {
    type V = TranscriptModel;

    open spec fn view(&self) -> TranscriptModel {
        TranscriptModel {
            text: self.text@,
            duration_ms: self.duration_ms,
            frames: self.frames,
            provider: self.provider@,
        }
    }
}

/// A transcription by what it holds or why it failed.
pub open spec fn transcription(r: Result<Transcript, Error>) -> Result<
    TranscriptModel,
    crate::error::ErrorModel,
> {
    match r {
        Ok(transcript) => Ok(transcript@),
        Err(error) => Err(error@),
    }
}

/// The transcript that a recognition is published as; one without text is a
/// failure.
pub open spec fn published(result: crate::provider::ProviderTranscriptModel) -> Result<
    TranscriptModel,
    crate::error::ErrorModel,
> {
    if result.text.len() == 0 {
        Err(crate::error::ErrorModel::NoSpeech)
    } else {
        Ok(
            TranscriptModel {
                text: result.text,
                duration_ms: result.duration_ms,
                frames: result.frames,
                provider: PROVIDER@,
            },
        )
    }
}

/// Publishes a recognition.
pub fn public_transcript(result: ProviderTranscript) -> (r: Result<Transcript, Error>)
    ensures
        transcription(r) == published(result@),
{
    if result.text.as_str().unicode_len() == 0 {
        return Err(Error::NoSpeech);
    }
    Ok(
        Transcript {
            text: result.text,
            duration_ms: result.duration_ms,
            frames: result.frames,
            provider: PROVIDER.to_owned(),
        },
    )
}

/// The JSON of a transcript.
pub open spec fn transcript_json(transcript: TranscriptModel) -> Seq<char> {
    "{\"text\":"@ + json::quoted(transcript.text) + ",\"duration_ms\":"@ + text::decimal(
        transcript.duration_ms as nat,
    ) + ",\"frames\":"@ + text::decimal(transcript.frames as nat) + ",\"provider\":"@
        + json::quoted(transcript.provider) + "}"@
}

impl Transcript {
    /// Writes the transcript as one line of JSON, or its text alone, with a line
    /// end.
    pub fn render(&self, as_json: bool) -> (r: String)
        ensures
            r@ == (if as_json {
                transcript_json(self@)
            } else {
                self@.text
            }) + "\n"@,
    {
        let mut out = String::new();
        if as_json {
            out.append("{\"text\":");
            json::push_quoted(&mut out, self.text.as_str());
            out.append(",\"duration_ms\":");
            text::push_decimal(&mut out, self.duration_ms as u128);
            out.append(",\"frames\":");
            text::push_decimal(&mut out, self.frames as u128);
            out.append(",\"provider\":");
            json::push_quoted(&mut out, self.provider.as_str());
            out.append("}");
            assert(out@ =~= transcript_json(self@));
        } else {
            out.append(self.text.as_str());
            assert(out@ =~= self@.text);
        }
        out.append("\n");
        out
    }
}

/// The JSON of a transcript is one line, whatever its text holds.
pub proof fn law_transcript_json_is_one_line(transcript: TranscriptModel)
    ensures
        json::is_line(transcript_json(transcript)),
{
    reveal_strlit("{\"text\":");
    reveal_strlit(",\"duration_ms\":");
    reveal_strlit(",\"frames\":");
    reveal_strlit(",\"provider\":");
    reveal_strlit("}");
    let a = "{\"text\":"@;
    let b = a + json::quoted(transcript.text);
    let c = b + ",\"duration_ms\":"@;
    let d = c + text::decimal(transcript.duration_ms as nat);
    let e = d + ",\"frames\":"@;
    let f = e + text::decimal(transcript.frames as nat);
    let g = f + ",\"provider\":"@;
    let h = g + json::quoted(transcript.provider);
    json::law_quoted_text_is_one_line(transcript.text);
    json::law_quoted_text_is_one_line(transcript.provider);
    json::lemma_decimal_is_line(transcript.duration_ms as nat);
    json::lemma_decimal_is_line(transcript.frames as nat);
    json::lemma_line_concat(a, json::quoted(transcript.text));
    json::lemma_line_concat(b, ",\"duration_ms\":"@);
    json::lemma_line_concat(c, text::decimal(transcript.duration_ms as nat));
    json::lemma_line_concat(d, ",\"frames\":"@);
    json::lemma_line_concat(e, text::decimal(transcript.frames as nat));
    json::lemma_line_concat(f, ",\"provider\":"@);
    json::lemma_line_concat(g, json::quoted(transcript.provider));
    json::lemma_line_concat(h, "}"@);
}

/// The bits of the default upload speed, 1.0.
pub const DEFAULT_SPEED_BITS: u64 = 0x3ff0_0000_0000_0000;

/// The bits of the highest upload speed, 4.0.
pub const MAX_SPEED_BITS: u64 = 0x4010_0000_0000_0000;

/// Whether the bits of a double-precision number are those of a number greater
/// than zero and no more than four. Positive numbers are ordered as their bits
/// are; zero has no bit set, and negative numbers, infinities and numbers that
/// are none have bits beyond those of four.
pub open spec fn is_speed(bits: u64) -> bool {
    0 < bits <= MAX_SPEED_BITS
}

/// Judges the upload speed of a session by its bits.
pub fn check_session_speed(bits: u64) -> (r: Result<(), Error>)
    ensures
        crate::error::failure(r) == if is_speed(bits) {
            None
        } else {
            Some(
                crate::error::ErrorModel::Message(
                    "speed must be greater than 0 and no more than 4"@,
                ),
            )
        },
{
    if 0 < bits && bits <= MAX_SPEED_BITS {
        Ok(())
    } else {
        Err(Error::msg("speed must be greater than 0 and no more than 4"))
    }
}

/// Configures and constructs a [`Client`].
#[derive(Debug)]
pub struct ClientBuilder {
    credentials_path: Option<Vec<u8>>,
    punctuation: bool,
    upload_speed: u64,
    credential_refresh_interval: Option<(u64, u32)>,
}

/// What a [`ClientBuilder`] holds.
#[verifier::ext_equal]
pub struct OptionsModel {
    /// The credential path as the system encodes it, if one was given.
    pub credentials_path: Option<Seq<u8>>,
    pub punctuation: bool,
    /// The bits of the upload speed.
    pub speed: u64,
    /// The refresh interval in seconds and nanoseconds, if there is one.
    pub credential_refresh_interval: Option<(u64, u32)>,
}

/// An optional path by its bytes.
pub open spec fn optional_path(value: Option<Vec<u8>>) -> Option<Seq<u8>> {
    match value {
        Some(path) => Some(path@),
        None => None,
    }
}

impl View for ClientBuilder {
    type V = OptionsModel;

    closed spec fn view(&self) -> OptionsModel {
        OptionsModel {
            credentials_path: optional_path(self.credentials_path),
            punctuation: self.punctuation,
            speed: self.upload_speed,
            credential_refresh_interval: self.credential_refresh_interval,
        }
    }
}

impl Clone for ClientBuilder {
    fn clone(&self) -> (r: ClientBuilder)
        ensures
            r@ == self@,
    {
        let credentials_path = match &self.credentials_path {
            Some(path) => Some(vstd::slice::slice_to_vec(path.as_slice())),
            None => None,
        };
        ClientBuilder {
            credentials_path,
            punctuation: self.punctuation,
            upload_speed: self.upload_speed,
            credential_refresh_interval: self.credential_refresh_interval,
        }
    }
}

/// The options of a client that nothing was set for.
pub open spec fn default_options() -> OptionsModel {
    OptionsModel {
        credentials_path: None,
        punctuation: true,
        speed: DEFAULT_SPEED_BITS,
        credential_refresh_interval: None,
    }
}

impl Default for ClientBuilder {
    fn default() -> (r: ClientBuilder)
        ensures
            r@ == default_options(),
    {
        ClientBuilder {
            credentials_path: None,
            punctuation: true,
            upload_speed: DEFAULT_SPEED_BITS,
            credential_refresh_interval: None,
        }
    }
}

/// Why options are refused.
pub open spec fn options_fault(options: OptionsModel) -> Option<crate::error::ErrorModel> {
    if !is_speed(options.speed) {
        Some(
            crate::error::ErrorModel::Message(
                "upload speed must be greater than 0 and no more than 4"@,
            ),
        )
    } else if options.credentials_path matches Some(path) && path.len() == 0 {
        Some(crate::error::ErrorModel::Message("credential path must not be empty"@))
    } else {
        None
    }
}

impl ClientBuilder {
    /// Overrides the OS-specific credential location with a path as the system
    /// encodes it.
    pub fn credentials_path(self, path: &[u8]) -> (r: ClientBuilder)
        ensures
            r@ == (OptionsModel { credentials_path: Some(path@), ..self@ }),
    {
        ClientBuilder { credentials_path: Some(vstd::slice::slice_to_vec(path)), ..self }
    }

    /// Enables or disables provider punctuation (enabled by default).
    pub fn punctuation(self, enabled: bool) -> (r: ClientBuilder)
        ensures
            r@ == (OptionsModel { punctuation: enabled, ..self@ }),
    {
        ClientBuilder { punctuation: enabled, ..self }
    }

    /// Sets upload pacing by the bits of a double-precision number
    /// (`0 < speed <= 4`; default `1`).
    pub fn upload_speed(self, bits: u64) -> (r: ClientBuilder)
        ensures
            r@ == (OptionsModel { speed: bits, ..self@ }),
    {
        ClientBuilder { upload_speed: bits, ..self }
    }

    /// Enables time-based credential refresh; an interval of zero disables it.
    /// Provider rejection recovery is always enabled.
    pub fn credential_refresh_interval(self, seconds: u64, nanos: u32) -> (r: ClientBuilder)
        ensures
            r@ == (OptionsModel {
                credential_refresh_interval: if seconds == 0 && nanos == 0 {
                    None
                } else {
                    Some((seconds, nanos))
                },
                ..self@
            }),
    {
        let interval = if seconds == 0 && nanos == 0 {
            None
        } else {
            Some((seconds, nanos))
        };
        ClientBuilder { credential_refresh_interval: interval, ..self }
    }

    /// Validates options and builds a client.
    pub fn build(self) -> (r: Result<Client, Error>)
        ensures
            match r {
                Ok(client) => options_fault(self@) is None && client.options_model() == self@
                    && client.state@ == StateModel::initial(),
                Err(e) => options_fault(self@) == Some(e@),
            },
    {
        if !(0 < self.upload_speed && self.upload_speed <= MAX_SPEED_BITS) {
            return Err(Error::msg("upload speed must be greater than 0 and no more than 4"));
        }
        if let Some(path) = &self.credentials_path {
            if path.len() == 0 {
                return Err(Error::msg("credential path must not be empty"));
            }
        }
        Ok(
            Client {
                options: Options {
                    credentials_path: self.credentials_path,
                    punctuation: self.punctuation,
                    speed: self.upload_speed,
                    credential_refresh_interval: self.credential_refresh_interval,
                },
                state: CredentialState::default(),
            },
        )
    }
}

/// The options of a client.
#[derive(Debug)]
pub struct Options {
    /// The credential path as the system encodes it; the default place where
    /// there is none.
    pub credentials_path: Option<Vec<u8>>,
    pub punctuation: bool,
    /// The bits of the upload speed.
    pub speed: u64,
    /// The refresh interval in seconds and nanoseconds.
    pub credential_refresh_interval: Option<(u64, u32)>,
}

/// A client: its options and the credentials it holds.
pub struct Client {
    pub options: Options,
    pub state: CredentialState,
}

impl Client {
    /// What the options hold.
    pub open spec fn options_model(&self) -> OptionsModel {
        OptionsModel {
            credentials_path: optional_path(self.options.credentials_path),
            punctuation: self.options.punctuation,
            speed: self.options.speed,
            credential_refresh_interval: self.options.credential_refresh_interval,
        }
    }

    /// Starts to configure a client.
    pub fn builder() -> (r: ClientBuilder)
        ensures
            r@ == default_options(),
    {
        ClientBuilder::default()
    }

    /// Builds a client with the default options.
    pub fn new() -> (r: Result<Client, Error>)
        ensures
            r matches Ok(client) && client.options_model() == default_options() && client.state@
                == StateModel::initial(),
    {
        Client::builder().build()
    }
}

/// What a client knows of its credentials.
#[verifier::ext_equal]
pub struct StateModel {
    /// Whether the stored credentials were looked for.
    pub loaded: bool,
    /// The current credentials.
    pub credentials: Option<crate::credentials::CredentialsModel>,
    /// How many credentials were installed so far: the number of the current ones.
    pub installs: nat,
    /// Whether the current credentials are still to be stored.
    pub dirty: bool,
    /// How many refreshes failed in a row.
    pub refresh_failures: nat,
    /// The time in seconds before which no refresh is tried.
    pub retry_after: u64,
}

/// How long no refresh is tried after so many failures in a row, in seconds.
pub open spec fn backoff(failures: nat) -> u64 {
    if failures <= 1 {
        60
    } else if failures == 2 {
        300
    } else if failures == 3 {
        900
    } else {
        3600
    }
}

/// Tells how long no refresh is tried after so many failures in a row.
pub fn refresh_backoff(failures: usize) -> (r: u64)
    ensures
        r == backoff(failures as nat),
{
    if failures <= 1 {
        60
    } else if failures == 2 {
        300
    } else if failures == 3 {
        900
    } else {
        3600
    }
}

/// What is missing before credentials can be used.
#[derive(Clone, Copy, Debug, PartialEq, Eq, Structural)]
pub enum Need {
    /// The stored credentials are to be loaded.
    Load,
    /// A device is to be registered.
    Register,
    /// Nothing.
    Nothing,
}

/// A sum that does not go beyond 64 bits.
pub open spec fn saturated(a: int) -> u64 {
    if a > u64::MAX {
        u64::MAX
    } else {
        a as u64
    }
}

impl StateModel {
    /// Before anything was looked for.
    pub open spec fn initial() -> StateModel {
        StateModel {
            loaded: false,
            credentials: None,
            installs: 0,
            dirty: false,
            refresh_failures: 0,
            retry_after: 0,
        }
    }

    /// What is missing before credentials can be used.
    pub open spec fn need(self) -> Need {
        if !self.loaded {
            Need::Load
        } else if self.credentials is None {
            Need::Register
        } else {
            Need::Nothing
        }
    }

    /// Whether credentials of this number are the current ones.
    pub open spec fn is_current(self, number: nat) -> bool {
        self.credentials is Some && self.installs == number
    }

    /// The state with new credentials.
    pub open spec fn with_credentials(
        self,
        credentials: crate::credentials::CredentialsModel,
    ) -> StateModel {
        StateModel { credentials: Some(credentials), installs: self.installs + 1, ..self }
    }

    /// The state after the stored credentials were looked for.
    pub open spec fn after_load(
        self,
        found: Option<crate::credentials::CredentialsModel>,
    ) -> StateModel {
        match found {
            Some(credentials) => StateModel { loaded: true, ..self.with_credentials(credentials) },
            None => StateModel { loaded: true, credentials: None, ..self },
        }
    }

    /// The state after a device was registered.
    pub open spec fn after_registration(
        self,
        credentials: crate::credentials::CredentialsModel,
    ) -> StateModel {
        StateModel { dirty: true, ..self.with_credentials(credentials) }
    }

    /// Whether the token is to be refreshed: its interval is over and no
    /// failure holds the refresh back.
    pub open spec fn is_due(self, interval_seconds: u64, now: u64) -> bool {
        self.credentials matches Some(credentials) && self.retry_after <= now && credentials.due_at(
            interval_seconds,
        ) <= now
    }

    /// The state with credentials that were proved good or were fetched anew.
    pub open spec fn activated(
        self,
        credentials: crate::credentials::CredentialsModel,
    ) -> StateModel {
        StateModel {
            loaded: true,
            dirty: true,
            refresh_failures: 0,
            retry_after: 0,
            ..self.with_credentials(credentials)
        }
    }

    /// The state after a refresh of the credentials of a number succeeded:
    /// where others have taken their place, nothing changes.
    pub open spec fn after_refresh(
        self,
        number: nat,
        candidate: crate::credentials::CredentialsModel,
    ) -> StateModel {
        if self.is_current(number) {
            StateModel {
                dirty: true,
                refresh_failures: 0,
                retry_after: 0,
                ..self.with_credentials(candidate)
            }
        } else {
            self
        }
    }

    /// The state after a refresh failed.
    pub open spec fn after_refresh_failure(self, now: u64) -> StateModel {
        let failures = if self.refresh_failures >= usize::MAX {
            usize::MAX as nat
        } else {
            self.refresh_failures + 1
        };
        StateModel {
            refresh_failures: failures,
            retry_after: saturated(now + backoff(failures)),
            ..self
        }
    }

    /// Whether the credentials of a number are to be stored.
    pub open spec fn must_save(self, number: nat) -> bool {
        self.is_current(number) && self.dirty
    }
}

/// What a client knows of its credentials.
pub struct CredentialState {
    loaded: bool,
    credentials: Option<Credentials>,
    installs: u64,
    dirty: bool,
    refresh_failures: usize,
    retry_after: u64,
}

impl View for CredentialState {
    type V = StateModel;

    closed spec fn view(&self) -> StateModel {
        StateModel {
            loaded: self.loaded,
            credentials: crate::storage::optional_credentials(self.credentials),
            installs: self.installs as nat,
            dirty: self.dirty,
            refresh_failures: self.refresh_failures as nat,
            retry_after: self.retry_after,
        }
    }
}

impl Default for CredentialState {
    fn default() -> (r: CredentialState)
        ensures
            r@ == StateModel::initial(),
    {
        CredentialState {
            loaded: false,
            credentials: None,
            installs: 0,
            dirty: false,
            refresh_failures: 0,
            retry_after: 0,
        }
    }
}

impl CredentialState {
    /// Tells what is missing before credentials can be used.
    pub fn need(&self) -> (r: Need)
        ensures
            r == self@.need(),
    {
        if !self.loaded {
            Need::Load
        } else if self.credentials.is_none() {
            Need::Register
        } else {
            Need::Nothing
        }
    }

    /// Tells how many credentials were installed, which is the number of the
    /// current ones.
    pub fn number(&self) -> (r: u64)
        ensures
            r == self@.installs,
    {
        self.installs
    }

    /// Copies the current credentials.
    pub fn current(&self) -> (r: Option<Credentials>)
        ensures
            crate::storage::optional_credentials(r) == self@.credentials,
    {
        match &self.credentials {
            Some(credentials) => Some(credentials.clone()),
            None => None,
        }
    }

    /// Takes note of the stored credentials.
    pub fn load(&mut self, found: Option<Credentials>)
        requires
            old(self)@.installs < u64::MAX,
        ensures
            final(self)@ == old(self)@.after_load(crate::storage::optional_credentials(found)),
    {
        self.loaded = true;
        if found.is_some() {
            self.installs = self.installs + 1;
        }
        self.credentials = found;
    }

    /// Takes note of the credentials of a device that was registered.
    pub fn register(&mut self, credentials: Credentials)
        requires
            old(self)@.installs < u64::MAX,
        ensures
            final(self)@ == old(self)@.after_registration(credentials@),
    {
        self.credentials = Some(credentials);
        self.installs = self.installs + 1;
        self.dirty = true;
    }

    /// Tells whether credentials of this number are the current ones.
    pub fn is_current(&self, number: u64) -> (r: bool)
        ensures
            r == self@.is_current(number as nat),
    {
        self.credentials.is_some() && self.installs == number
    }

    /// Tells whether the token is to be refreshed.
    pub fn refresh_due(&self, interval_seconds: u64, now: u64) -> (r: bool)
        ensures
            r == self@.is_due(interval_seconds, now),
    {
        match &self.credentials {
            Some(credentials) => !(self.retry_after > now || credentials.refresh_due_at(
                interval_seconds,
            ) > now),
            None => false,
        }
    }

    /// Installs refreshed credentials in the place of those of a number, unless
    /// others have taken that place, and tells whether it did.
    pub fn refresh(&mut self, number: u64, candidate: Credentials) -> (r: bool)
        requires
            old(self)@.installs < u64::MAX,
        ensures
            r == old(self)@.is_current(number as nat),
            final(self)@ == old(self)@.after_refresh(number as nat, candidate@),
    {
        if !self.is_current(number) {
            return false;
        }
        self.credentials = Some(candidate);
        self.installs = self.installs + 1;
        self.dirty = true;
        self.refresh_failures = 0;
        self.retry_after = 0;
        true
    }

    /// Takes note of a refresh that failed at a time in seconds.
    pub fn fail_refresh(&mut self, now: u64)
        ensures
            final(self)@ == old(self)@.after_refresh_failure(now),
    {
        self.refresh_failures = self.refresh_failures.saturating_add(1);
        self.retry_after = now.saturating_add(refresh_backoff(self.refresh_failures));
    }

    /// Tells whether the credentials of a number are to be stored.
    pub fn must_save(&self, number: u64) -> (r: bool)
        ensures
            r == self@.must_save(number as nat),
    {
        self.is_current(number) && self.dirty
    }

    /// Takes note that the current credentials were stored.
    pub fn saved(&mut self)
        ensures
            final(self)@ == (StateModel { dirty: false, ..old(self)@ }),
    {
        self.dirty = false;
    }

    /// Installs credentials that were proved good.
    pub fn activate(&mut self, candidate: Credentials)
        requires
            old(self)@.installs < u64::MAX,
        ensures
            final(self)@ == old(self)@.activated(candidate@),
    {
        self.credentials = Some(candidate);
        self.installs = self.installs + 1;
        self.loaded = true;
        self.dirty = true;
        self.refresh_failures = 0;
        self.retry_after = 0;
    }
}

/// A recognition with text is published as it is, under the name of the provider: the
/// whole text, the duration and the number of frames. One without text is a failure.
pub proof fn law_recognitions_are_published_whole(
    result: crate::provider::ProviderTranscriptModel,
)
    ensures
        result.text.len() > 0 ==> (published(result) matches Ok(transcript) && transcript.text
            == result.text && transcript.duration_ms == result.duration_ms && transcript.frames
            == result.frames && transcript.provider == "doubao-ime"@),
        result.text.len() == 0 ==> published(result) == Err::<
            TranscriptModel,
            crate::error::ErrorModel,
        >(crate::error::ErrorModel::NoSpeech),
{
}

/// Two transcripts have the same JSON only if they are the same in everything: text,
/// duration, frames and provider stand in it whole.
pub proof fn law_transcript_json_tells_everything(one: TranscriptModel, other: TranscriptModel)
    requires
        transcript_json(one) == transcript_json(other),
    ensures
        one.text == other.text,
        one.duration_ms == other.duration_ms,
        one.frames == other.frames,
        one.provider == other.provider,
{
    let a = "{\"text\":"@;
    let b = ",\"duration_ms\":"@;
    let c = ",\"frames\":"@;
    let d = ",\"provider\":"@;
    let e = "}"@;
    reveal_strlit(",\"frames\":");
    reveal_strlit(",\"provider\":");
    let s3 = d + (json::quoted(one.provider) + e);
    let t3 = d + (json::quoted(other.provider) + e);
    let s2 = c + (text::decimal(one.frames as nat) + s3);
    let t2 = c + (text::decimal(other.frames as nat) + t3);
    let s1 = b + (text::decimal(one.duration_ms as nat) + s2);
    let t1 = b + (text::decimal(other.duration_ms as nat) + t2);
    assert(transcript_json(one) =~= a + (json::quoted(one.text) + s1));
    assert(transcript_json(other) =~= a + (json::quoted(other.text) + t1));
    json::lemma_after_same_beginning(a, json::quoted(one.text) + s1, json::quoted(other.text) + t1);
    json::law_strings_hold_their_whole_text(one.text, other.text, s1, t1);
    json::lemma_after_same_beginning(
        b,
        text::decimal(one.duration_ms as nat) + s2,
        text::decimal(other.duration_ms as nat) + t2,
    );
    assert(s2[0] == ',' && t2[0] == ',');
    json::law_numerals_end_before_other_characters(
        one.duration_ms as nat,
        other.duration_ms as nat,
        s2,
        t2,
    );
    json::lemma_after_same_beginning(
        c,
        text::decimal(one.frames as nat) + s3,
        text::decimal(other.frames as nat) + t3,
    );
    assert(s3[0] == ',' && t3[0] == ',');
    json::law_numerals_end_before_other_characters(one.frames as nat, other.frames as nat, s3, t3);
    json::lemma_after_same_beginning(
        d,
        json::quoted(one.provider) + e,
        json::quoted(other.provider) + e,
    );
    json::law_strings_hold_their_whole_text(one.provider, other.provider, e, e);
}

/// The JSON of a transcript: its text, its duration, its frames and its provider, each
/// under its name and as it is.
pub proof fn law_transcript_json_names_its_parts(transcript: TranscriptModel)
    ensures
        transcript_json(transcript) == "{\"text\":"@ + json::quoted(transcript.text)
            + ",\"duration_ms\":"@ + text::decimal(transcript.duration_ms as nat)
            + ",\"frames\":"@ + text::decimal(transcript.frames as nat) + ",\"provider\":"@
            + json::quoted(transcript.provider) + "}"@,
{
}

/// A speed is accepted if and only if its bits are from those of the smallest number
/// above zero to those of 4.0.
pub proof fn law_speeds_are_above_zero_and_at_most_four(bits: u64)
    ensures
        is_speed(bits) <==> 1 <= bits && bits <= 0x4010_0000_0000_0000,
        default_options().speed == 0x3ff0_0000_0000_0000,
        default_options().punctuation,
        default_options().credentials_path is None,
        default_options().credential_refresh_interval is None,
{
}

/// Options are refused for their speed, and else for a credential path that is empty,
/// and for nothing else.
pub proof fn law_options_are_refused_for_two_reasons(options: OptionsModel)
    ensures
        options_fault(options) is None <==> 1 <= options.speed && options.speed
            <= 0x4010_0000_0000_0000 && options.credentials_path != Some(Seq::<u8>::empty()),
        !(1 <= options.speed && options.speed <= 0x4010_0000_0000_0000) ==> options_fault(options)
            == Some(
            crate::error::ErrorModel::Message(
                "upload speed must be greater than 0 and no more than 4"@,
            ),
        ),
        1 <= options.speed && options.speed <= 0x4010_0000_0000_0000 && options.credentials_path
            == Some(Seq::<u8>::empty()) ==> options_fault(options) == Some(
            crate::error::ErrorModel::Message("credential path must not be empty"@),
        ),
{
    if let Some(path) = options.credentials_path {
        assert(path.len() == 0 ==> path =~= Seq::<u8>::empty());
    }
}

/// Credentials that are loaded, registered, refreshed or proved good are the current
/// ones from then on, whole and under a new number. All but the loaded ones are still
/// to be stored.
pub proof fn law_new_credentials_become_current(
    m: StateModel,
    credentials: crate::credentials::CredentialsModel,
)
    ensures
        ({
            let loaded = m.after_load(Some(credentials));
            let registered = m.after_registration(credentials);
            let good = m.activated(credentials);
            &&& loaded.credentials == Some(credentials) && loaded.installs == m.installs + 1
            &&& loaded.loaded && loaded.dirty == m.dirty
            &&& registered.credentials == Some(credentials) && registered.installs == m.installs
                + 1
            &&& registered.dirty && registered.loaded == m.loaded
            &&& good.credentials == Some(credentials) && good.installs == m.installs + 1
            &&& good.dirty && good.loaded
            &&& m.is_current(m.installs) ==> {
                let fresh = m.after_refresh(m.installs, credentials);
                &&& fresh.credentials == Some(credentials)
                &&& fresh.installs == m.installs + 1
                &&& fresh.dirty
            }
            &&& m.after_load(None).loaded && m.after_load(None).credentials is None
                && m.after_load(None).installs == m.installs
        }),
        StateModel::initial().need() == Need::Load,
{
}

/// A refresh is due if and only if there are credentials, no failure holds it back, and
/// the interval since the token was fetched is over.
pub proof fn law_refreshes_are_due_by_the_clock(
    m: StateModel,
    interval_seconds: u64,
    now: u64,
)
    requires
        now < u64::MAX,
    ensures
        m.is_due(interval_seconds, now) <==> (m.credentials matches Some(credentials)
            && m.retry_after <= now && credentials.refreshed_at + interval_seconds <= now),
{
}

/// Credentials are to be stored if and only if they are the current ones and were not
/// stored yet.
pub proof fn law_only_current_credentials_are_stored(m: StateModel, number: nat)
    ensures
        m.must_save(number) <==> m.credentials is Some && m.installs == number && m.dirty,
        m.is_current(number) <==> m.credentials is Some && m.installs == number,
{
}

/// A transcript is known by its whole text, its length and its provider, and a
/// transcription by its transcript or its failure.
pub proof fn law_transcripts_are_known_by_what_they_hold(transcript: Transcript, error: Error)
    ensures
        transcript@.text == transcript.text@,
        transcript@.duration_ms == transcript.duration_ms,
        transcript@.frames == transcript.frames,
        transcript@.provider == transcript.provider@,
        transcription(Ok(transcript)) == Ok::<TranscriptModel, crate::error::ErrorModel>(
            transcript@,
        ),
        transcription(Err(error)) == Err::<TranscriptModel, crate::error::ErrorModel>(error@),
{
}

} // verus!
