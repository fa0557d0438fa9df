//! The anonymous device identity and its token.

use vstd::prelude::*;
use crate::clock;
use crate::error::Error;
use crate::identity;
use crate::json;
use crate::text;
use crate::urls;

verus! {

/// Where a device is registered.
pub const REGISTER_URL: &'static str = "https://log.snssdk.com/service/2/device_register/";

/// Where a device asks for its token.
pub const SETTINGS_URL: &'static str = "https://is.snssdk.com/service/settings/v3/";

/// The largest response body that is read.
pub const MAX_RESPONSE_BYTES: usize = 0x10_0000;

/// How the client presents itself to the service.
pub const DEVICE_USER_AGENT: &'static str =
    "com.bytedance.android.doubaoime/100311008 (Linux; U; Android 9; zh_CN; Redmi Note 7; Build/PKQ1.181121.001; Cronet/TTNetVersion:94cf429a 2025-11-17 QuicVersion:1f89f732 2025-05-08)";

/// A device identity, its token and when the token was fetched.
pub struct Credentials {
    pub device_id: String,
    pub install_id: String,
    pub cdid: String,
    pub openudid: String,
    pub clientudid: String,
    pub token: String,
    /// The seconds since the epoch at which the token was fetched; zero where
    /// that is not known.
    pub refreshed_at: u64,
}

/// What [`Credentials`] hold.
#[verifier::ext_equal]
pub struct CredentialsModel {
    pub device_id: Seq<char>,
    pub install_id: Seq<char>,
    pub cdid: Seq<char>,
    pub openudid: Seq<char>,
    pub clientudid: Seq<char>,
    pub token: Seq<char>,
    pub refreshed_at: u64,
}

impl View for Credentials {
    type V = CredentialsModel;

    open spec fn view(&self) -> CredentialsModel {
        CredentialsModel {
            device_id: self.device_id@,
            install_id: self.install_id@,
            cdid: self.cdid@,
            openudid: self.openudid@,
            clientudid: self.clientudid@,
            token: self.token@,
            refreshed_at: self.refreshed_at,
        }
    }
}

impl CredentialsModel {
    /// Whether the identity was registered and has a token.
    pub open spec fn is_complete(self) -> bool {
        self.device_id.len() > 0 && self.install_id.len() > 0 && self.token.len() > 0
    }

    /// When the token is to be fetched anew.
    pub open spec fn due_at(self, interval_seconds: u64) -> int {
        if self.refreshed_at + interval_seconds > u64::MAX {
            u64::MAX as int
        } else {
            self.refreshed_at + interval_seconds
        }
    }
}

/// Tells whether a text is empty.
fn empty(value: &str) -> (r: bool)
    ensures
        r == (value@.len() == 0),
{
    value.unicode_len() == 0
}

impl Credentials {
    /// Builds an unregistered identity from its random parts.
    pub fn unregistered(cdid: String, openudid: &[u8], clientudid: String) -> (r: Credentials)
        ensures
            r@ == (CredentialsModel {
                device_id: Seq::empty(),
                install_id: Seq::empty(),
                cdid: cdid@,
                openudid: text::hex_of(openudid@),
                clientudid: clientudid@,
                token: Seq::empty(),
                refreshed_at: 0,
            }),
    {
        Credentials {
            device_id: String::new(),
            install_id: String::new(),
            cdid,
            openudid: text::hex(openudid),
            clientudid,
            token: String::new(),
            refreshed_at: 0,
        }
    }

    /// Makes up an unregistered identity.
    pub fn new() -> (r: Credentials)
        ensures
            identity::is_uuid_v4(r@.cdid),
            identity::is_uuid_v4(r@.clientudid),
            r@.openudid.len() == 16,
            forall|i: int| 0 <= i < 16 ==> identity::is_lower_hex(#[trigger] r@.openudid[i]),
            r@.device_id.len() == 0,
            r@.install_id.len() == 0,
            r@.token.len() == 0,
            r@.refreshed_at == 0,
    {
        let cdid = identity::new_uuid();
        let openudid = identity::random_bytes();
        let clientudid = identity::new_uuid();
        Credentials::unregistered(cdid, openudid.as_slice(), clientudid)
    }

    /// Tells whether the identity was registered and has a token.
    pub fn complete(&self) -> (r: bool)
        ensures
            r == self@.is_complete(),
    {
        !empty(self.device_id.as_str()) && !empty(self.install_id.as_str()) && !empty(
            self.token.as_str(),
        )
    }

    /// Builds credentials with made-up identifiers for fixtures.
    pub fn for_test(device_id: &str, install_id: &str, token: &str) -> (r: Credentials)
        ensures
            r@ == (CredentialsModel {
                device_id: device_id@,
                install_id: install_id@,
                cdid: "00000000-0000-4000-8000-000000000000"@,
                openudid: "0000000000000000"@,
                clientudid: "00000000-0000-4000-8000-000000000000"@,
                token: token@,
                refreshed_at: 0,
            }),
    {
        Credentials {
            device_id: device_id.to_owned(),
            install_id: install_id.to_owned(),
            cdid: "00000000-0000-4000-8000-000000000000".to_owned(),
            openudid: "0000000000000000".to_owned(),
            clientudid: "00000000-0000-4000-8000-000000000000".to_owned(),
            token: token.to_owned(),
            refreshed_at: 0,
        }
    }

    /// Tells when the token is to be fetched anew.
    pub fn refresh_due_at(&self, interval_seconds: u64) -> (r: u64)
        ensures
            r == self@.due_at(interval_seconds),
    {
        self.refreshed_at.saturating_add(interval_seconds)
    }
}

/// What is shown of credentials: their identifiers, quoted, and a mark in place
/// of the token.
pub open spec fn description(credentials: CredentialsModel) -> Seq<char> {
    "Credentials { device_id: "@ + text::quoted_text(credentials.device_id) + ", install_id: "@
        + text::quoted_text(credentials.install_id) + ", cdid: "@ + text::quoted_text(
        credentials.cdid,
    ) + ", openudid: "@ + text::quoted_text(credentials.openudid) + ", clientudid: "@
        + text::quoted_text(credentials.clientudid) + ", token: \"[REDACTED]\" }"@
}

impl Credentials {
    /// Describes the credentials without their token.
    pub fn describe(&self) -> (r: String)
        ensures
            r@ == description(self@),
    {
        let mut out = "Credentials { device_id: ".to_owned();
        out.append(text::quote(self.device_id.as_str()).as_str());
        out.append(", install_id: ");
        out.append(text::quote(self.install_id.as_str()).as_str());
        out.append(", cdid: ");
        out.append(text::quote(self.cdid.as_str()).as_str());
        out.append(", openudid: ");
        out.append(text::quote(self.openudid.as_str()).as_str());
        out.append(", clientudid: ");
        out.append(text::quote(self.clientudid.as_str()).as_str());
        out.append(", token: \"[REDACTED]\" }");
        out
    }
}

/// Credentials that differ in their token and its date alone are described the
/// same: nothing of the token is shown.
pub proof fn law_description_hides_the_token(
    credentials: CredentialsModel,
    token: Seq<char>,
    refreshed_at: u64,
)
    ensures
        description(credentials) == description(
            CredentialsModel { token, refreshed_at, ..credentials },
        ),
{
}

impl Clone for Credentials {
    fn clone(&self) -> (r: Credentials)
        ensures
            r@ == self@,
    {
        Credentials {
            device_id: self.device_id.as_str().to_owned(),
            install_id: self.install_id.as_str().to_owned(),
            cdid: self.cdid.as_str().to_owned(),
            openudid: self.openudid.as_str().to_owned(),
            clientudid: self.clientudid.as_str().to_owned(),
            token: self.token.as_str().to_owned(),
            refreshed_at: self.refreshed_at,
        }
    }
}

/// The parameters that a request of the device carries.
pub open spec fn device_pairs(
    credentials: CredentialsModel,
    include_device_id: bool,
    millis: nat,
) -> Seq<(Seq<char>, Seq<char>)> {
    let common = seq![
        ("device_platform"@, "android"@),
        ("os"@, "android"@),
        ("ssmix"@, "a"@),
        ("_rticket"@, text::decimal(millis)),
        ("cdid"@, credentials.cdid),
        ("aid"@, "401734"@),
        ("app_name"@, "oime"@),
        ("version_code"@, "100311008"@),
        ("version_name"@, "1.3.11"@),
        ("channel"@, "official"@),
        ("ac"@, "wifi"@),
        ("resolution"@, "1080*2340"@),
        ("dpi"@, "440"@),
        ("device_type"@, "Redmi Note 7"@),
        ("device_brand"@, "xiaomi"@),
        ("language"@, "zh"@),
        ("os_api"@, "28"@),
        ("os_version"@, "9"@),
    ];
    if include_device_id {
        common.push(("device_id"@, credentials.device_id))
    } else {
        common
    }
}

/// Builds the URL of a request that the device makes at a time in milliseconds.
pub fn device_url_at(
    base: &str,
    credentials: &Credentials,
    include_device_id: bool,
    millis: u128,
) -> (r: Result<url::Url, Error>)
    requires
        urls::url_fits(base@, device_pairs(credentials@, include_device_id, millis as nat)),
    ensures
        match urls::url_parse(base@) {
            Some(parsed) => r matches Ok(url) && urls::url_target(url) == parsed.0
                && urls::url_pairs(url) == parsed.1 + device_pairs(
                credentials@,
                include_device_id,
                millis as nat,
            ),
            None => crate::error::failure(r) == Some(
                crate::error::ErrorModel::Message("could not prepare Doubao request"@),
            ),
        },
{
    let rticket = text::decimal_text(millis);
    let mut pairs: Vec<(&str, &str)> = vec![
        ("device_platform", "android"),
        ("os", "android"),
        ("ssmix", "a"),
        ("_rticket", rticket.as_str()),
        ("cdid", credentials.cdid.as_str()),
        ("aid", "401734"),
        ("app_name", "oime"),
        ("version_code", "100311008"),
        ("version_name", "1.3.11"),
        ("channel", "official"),
        ("ac", "wifi"),
        ("resolution", "1080*2340"),
        ("dpi", "440"),
        ("device_type", "Redmi Note 7"),
        ("device_brand", "xiaomi"),
        ("language", "zh"),
        ("os_api", "28"),
        ("os_version", "9"),
    ];
    if include_device_id {
        pairs.push(("device_id", credentials.device_id.as_str()));
    }
    assert(urls::pair_texts(pairs@) =~= device_pairs(
        credentials@,
        include_device_id,
        millis as nat,
    ));
    match urls::url_adding(base, pairs.as_slice()) {
        Ok(url) => Ok(url),
        Err(_) => Err(Error::msg("could not prepare Doubao request")),
    }
}

/// Builds the URL of a request that the device makes now.
pub fn device_url(base: &str, credentials: &Credentials, include_device_id: bool) -> (r: Result<
    url::Url,
    Error,
>)
    requires
        forall|millis: nat|
            millis <= u64::MAX * 1000 + 999 ==> urls::url_fits(
                base@,
                #[trigger] device_pairs(credentials@, include_device_id, millis),
            ),
    ensures
        match urls::url_parse(base@) {
            Some(parsed) => r matches Ok(url) && urls::url_target(url) == parsed.0 && exists|
                now: std::time::SystemTime,
            |
                urls::url_pairs(url) == parsed.1 + device_pairs(
                    credentials@,
                    include_device_id,
                    #[trigger] clock::clock_millis(now) as nat,
                ),
            None => crate::error::failure(r) == Some(
                crate::error::ErrorModel::Message("could not prepare Doubao request"@),
            ),
        },
{
    let millis = clock::unix_millis();
    device_url_at(base, credentials, include_device_id, millis)
}

/// The URLs of the service are short and without a fragment, so that any
/// parameters go with them.
pub proof fn lemma_service_urls_fit()
    ensures
        forall|pairs: Seq<(Seq<char>, Seq<char>)>| #[trigger] urls::url_fits(REGISTER_URL@, pairs),
        forall|pairs: Seq<(Seq<char>, Seq<char>)>| #[trigger] urls::url_fits(SETTINGS_URL@, pairs),
{
    reveal_strlit("https://log.snssdk.com/service/2/device_register/");
    reveal_strlit("https://is.snssdk.com/service/settings/v3/");
    vstd::utf8::is_ascii_chars_encode_utf8(REGISTER_URL@);
    vstd::utf8::is_ascii_chars_encode_utf8(SETTINGS_URL@);
}

/// The JSON body that registers a device at a time in milliseconds.
pub open spec fn registration_text(credentials: CredentialsModel, millis: nat) -> Seq<char> {
    "{\"_gen_time\":"@ + text::decimal(millis)
        + ",\"header\":{\"access\":\"wifi\",\"aid\":401734,\"app_name\":\"oime\",\"build_serial\":\"unknown\",\"carrier_region\":\"cn\",\"cdid\":"@
        + json::quoted(credentials.cdid) + ",\"channel\":\"official\",\"clientudid\":"@
        + json::quoted(credentials.clientudid)
        + ",\"cpu_abi\":\"arm64-v8a\",\"device_brand\":\"xiaomi\",\"device_id\":0,\"device_model\":\"Redmi Note 7\",\"device_platform\":\"android\",\"device_type\":\"Redmi Note 7\",\"dpi\":\"440\",\"google_aid\":\"\",\"install_id\":0,\"language\":\"zh\",\"manifest_version_code\":100311008,\"mc\":\"\",\"not_request_sender\":0,\"openudid\":"@
        + json::quoted(credentials.openudid)
        + ",\"os\":\"android\",\"os_api\":\"28\",\"os_version\":\"9\",\"package\":\"com.bytedance.android.doubaoime\",\"region\":\"CN\",\"resolution\":\"1080*2340\",\"rom\":\"PKQ1.181121.001\",\"rom_version\":\"PKQ1.181121.001\",\"serial_number\":\"\",\"sig_hash\":\"\",\"sim_region\":\"cn\",\"timezone\":8,\"tz_name\":\"Asia/Shanghai\",\"tz_offset\":28800,\"update_version_code\":100311008,\"version_code\":100311008,\"version_name\":\"1.3.11\"},\"magic_tag\":\"ss_app_log\"}"@
}

/// A request to the service: where it goes, its headers and its body.
pub struct ServiceRequest {
    pub url: url::Url,
    pub headers: Vec<(&'static str, String)>,
    pub body: String,
}

/// Headers by their characters.
pub open spec fn header_texts(headers: Seq<(&'static str, String)>) -> Seq<(Seq<char>, Seq<char>)> {
    headers.map_values(|header: (&'static str, String)| (header.0@, header.1@))
}

/// The headers of a registration.
pub open spec fn registration_headers() -> Seq<(Seq<char>, Seq<char>)> {
    seq![
        ("user-agent"@, DEVICE_USER_AGENT@),
        ("content-type"@, "application/json"@),
    ]
}

/// The body of a request for a token.
pub open spec fn token_body() -> Seq<char> {
    "body=null"@
}

/// The headers of a request for a token, with the digest of its body.
pub open spec fn token_headers() -> Seq<(Seq<char>, Seq<char>)> {
    seq![
        ("user-agent"@, DEVICE_USER_AGENT@),
        (
            "x-ss-stub"@,
            text::hex_upper_of(
                identity::md5_digest(vstd::utf8::encode_utf8(token_body())),
            ),
        ),
        ("content-type"@, "application/x-www-form-urlencoded"@),
    ]
}

/// The failure to build a request.
pub open spec fn unprepared() -> crate::error::ErrorModel {
    crate::error::ErrorModel::Message("could not prepare Doubao request"@)
}

impl Credentials {
    /// Writes the body that registers the device at a time in milliseconds.
    pub fn registration_body(&self, millis: u128) -> (r: String)
        ensures
            r@ == registration_text(self@, millis as nat),
    {
        let mut out = "{\"_gen_time\":".to_owned();
        text::push_decimal(&mut out, millis);
        out.append(
            ",\"header\":{\"access\":\"wifi\",\"aid\":401734,\"app_name\":\"oime\",\"build_serial\":\"unknown\",\"carrier_region\":\"cn\",\"cdid\":",
        );
        json::push_quoted(&mut out, self.cdid.as_str());
        out.append(",\"channel\":\"official\",\"clientudid\":");
        json::push_quoted(&mut out, self.clientudid.as_str());
        out.append(
            ",\"cpu_abi\":\"arm64-v8a\",\"device_brand\":\"xiaomi\",\"device_id\":0,\"device_model\":\"Redmi Note 7\",\"device_platform\":\"android\",\"device_type\":\"Redmi Note 7\",\"dpi\":\"440\",\"google_aid\":\"\",\"install_id\":0,\"language\":\"zh\",\"manifest_version_code\":100311008,\"mc\":\"\",\"not_request_sender\":0,\"openudid\":",
        );
        json::push_quoted(&mut out, self.openudid.as_str());
        out.append(
            ",\"os\":\"android\",\"os_api\":\"28\",\"os_version\":\"9\",\"package\":\"com.bytedance.android.doubaoime\",\"region\":\"CN\",\"resolution\":\"1080*2340\",\"rom\":\"PKQ1.181121.001\",\"rom_version\":\"PKQ1.181121.001\",\"serial_number\":\"\",\"sig_hash\":\"\",\"sim_region\":\"cn\",\"timezone\":8,\"tz_name\":\"Asia/Shanghai\",\"tz_offset\":28800,\"update_version_code\":100311008,\"version_code\":100311008,\"version_name\":\"1.3.11\"},\"magic_tag\":\"ss_app_log\"}",
        );
        out
    }

    /// Builds the request that registers the device, with its body dated by one
    /// time in milliseconds and its URL by another.
    pub fn registration_request_at(&self, body_millis: u128, url_millis: u128) -> (r: Result<
        ServiceRequest,
        Error,
    >)
        ensures
            match urls::url_parse(REGISTER_URL@) {
                Some(parsed) => r matches Ok(request) && {
                    &&& urls::url_target(request.url) == parsed.0
                    &&& urls::url_pairs(request.url) == parsed.1 + device_pairs(
                        self@,
                        false,
                        url_millis as nat,
                    )
                    &&& header_texts(request.headers@) == registration_headers()
                    &&& request.body@ == registration_text(self@, body_millis as nat)
                },
                None => crate::error::failure(r) == Some(unprepared()),
            },
    {
        let body = self.registration_body(body_millis);
        proof {
            lemma_service_urls_fit();
        }
        match device_url_at(REGISTER_URL, self, false, url_millis) {
            Ok(url) => {
                let headers: Vec<(&'static str, String)> = vec![
                    ("user-agent", DEVICE_USER_AGENT.to_owned()),
                    ("content-type", "application/json".to_owned()),
                ];
                assert(header_texts(headers@) =~= registration_headers());
                Ok(ServiceRequest { url, headers, body })
            },
            Err(error) => Err(error),
        }
    }

    /// Builds the request that registers the device now.
    pub fn registration_request(&self) -> (r: Result<ServiceRequest, Error>)
        ensures
            match urls::url_parse(REGISTER_URL@) {
                Some(parsed) => r matches Ok(request) && {
                    &&& urls::url_target(request.url) == parsed.0
                    &&& header_texts(request.headers@) == registration_headers()
                    &&& exists|body_time: std::time::SystemTime, url_time: std::time::SystemTime|
                        request.body@ == registration_text(
                            self@,
                            #[trigger] clock::clock_millis(body_time) as nat,
                        ) && urls::url_pairs(request.url) == parsed.1 + device_pairs(
                            self@,
                            false,
                            #[trigger] clock::clock_millis(url_time) as nat,
                        )
                },
                None => crate::error::failure(r) == Some(unprepared()),
            },
    {
        let body_millis = clock::unix_millis();
        let url_millis = clock::unix_millis();
        self.registration_request_at(body_millis, url_millis)
    }

    /// Builds the request for a token that the device makes at a time in
    /// milliseconds.
    pub fn token_request_at(&self, millis: u128) -> (r: Result<ServiceRequest, Error>)
        ensures
            match urls::url_parse(SETTINGS_URL@) {
                Some(parsed) => r matches Ok(request) && {
                    &&& urls::url_target(request.url) == parsed.0
                    &&& urls::url_pairs(request.url) == parsed.1 + device_pairs(
                        self@,
                        true,
                        millis as nat,
                    )
                    &&& header_texts(request.headers@) == token_headers()
                    &&& request.body@ == token_body()
                },
                None => crate::error::failure(r) == Some(unprepared()),
            },
    {
        let body = "body=null";
        let digest = identity::digest(body.as_bytes());
        let stub = text::hex_upper(digest.as_slice());
        proof {
            lemma_service_urls_fit();
        }
        match device_url_at(SETTINGS_URL, self, true, millis) {
            Ok(url) => {
                let headers: Vec<(&'static str, String)> = vec![
                    ("user-agent", DEVICE_USER_AGENT.to_owned()),
                    ("x-ss-stub", stub),
                    ("content-type", "application/x-www-form-urlencoded".to_owned()),
                ];
                assert(header_texts(headers@) =~= token_headers());
                Ok(ServiceRequest { url, headers, body: body.to_owned() })
            },
            Err(error) => Err(error),
        }
    }

    /// Builds the request for a token that the device makes now.
    pub fn token_request(&self) -> (r: Result<ServiceRequest, Error>)
        ensures
            match urls::url_parse(SETTINGS_URL@) {
                Some(parsed) => r matches Ok(request) && {
                    &&& urls::url_target(request.url) == parsed.0
                    &&& header_texts(request.headers@) == token_headers()
                    &&& request.body@ == token_body()
                    &&& exists|now: std::time::SystemTime|
                        urls::url_pairs(request.url) == parsed.1 + device_pairs(
                            self@,
                            true,
                            #[trigger] clock::clock_millis(now) as nat,
                        )
                },
                None => crate::error::failure(r) == Some(unprepared()),
            },
    {
        let millis = clock::unix_millis();
        self.token_request_at(millis)
    }
}

/// An exchange with the service.
#[derive(Clone, Copy, Debug, PartialEq, Eq, Structural)]
pub enum Exchange {
    /// The registration of a device.
    Registration,
    /// The request for a token.
    Token,
}

impl Exchange {
    /// The failure of a request that got no answer.
    pub open spec fn unsent_text(self) -> Seq<char> {
        match self {
            Exchange::Registration => "Doubao device registration request failed"@,
            Exchange::Token => "Doubao ASR token request failed"@,
        }
    }

    /// The failure of a request that was answered with an HTTP error.
    pub open spec fn refused_text(self, status: u16) -> Seq<char> {
        match self {
            Exchange::Registration => "Doubao device registration failed with HTTP "@
                + text::decimal(status as nat),
            Exchange::Token => "Doubao ASR token request failed with HTTP "@ + text::decimal(
                status as nat,
            ),
        }
    }

    /// The failure of a request whose answer was of no use.
    pub open spec fn invalid_text(self) -> Seq<char> {
        match self {
            Exchange::Registration => "Doubao device registration returned an invalid response"@,
            Exchange::Token => "Doubao ASR token response was invalid"@,
        }
    }

    /// Reports that a request got no answer.
    pub fn unsent(self) -> (r: Error)
        ensures
            r@ == crate::error::ErrorModel::Message(self.unsent_text()),
    {
        match self {
            Exchange::Registration => Error::msg("Doubao device registration request failed"),
            Exchange::Token => Error::msg("Doubao ASR token request failed"),
        }
    }

    /// Judges the HTTP status of an answer: success is from 200 to 299.
    pub fn check_status(self, status: u16) -> (r: Result<(), Error>)
        ensures
            crate::error::failure(r) == if 200 <= status <= 299 {
                None
            } else {
                Some(crate::error::ErrorModel::Message(self.refused_text(status)))
            },
    {
        if 200 <= status && status <= 299 {
            return Ok(());
        }
        let code = text::decimal_text(status as u128);
        Err(
            match self {
                Exchange::Registration => Error::detailed(
                    "Doubao device registration failed with HTTP ",
                    code.as_str(),
                ),
                Exchange::Token => Error::detailed(
                    "Doubao ASR token request failed with HTTP ",
                    code.as_str(),
                ),
            },
        )
    }

    /// Reports that an answer was of no use.
    pub fn invalid(self) -> (r: Error)
        ensures
            r@ == crate::error::ErrorModel::Message(self.invalid_text()),
    {
        match self {
            Exchange::Registration => Error::msg(
                "Doubao device registration returned an invalid response",
            ),
            Exchange::Token => Error::msg("Doubao ASR token response was invalid"),
        }
    }
}

/// A response body that is read in chunks up to the limit.
pub struct LimitedBody {
    bytes: Vec<u8>,
    exchange: Exchange,
}

impl LimitedBody {
    /// What was read so far.
    pub closed spec fn content(&self) -> Seq<u8> {
        self.bytes@
    }

    /// The exchange that the body belongs to.
    pub closed spec fn of(&self) -> Exchange {
        self.exchange
    }

    /// Whether the body is within the limit.
    pub open spec fn wf(&self) -> bool {
        self.content().len() <= MAX_RESPONSE_BYTES
    }

    /// Starts to read a body; one that is announced as too long is refused.
    pub fn begin(exchange: Exchange, announced: Option<u64>) -> (r: Result<LimitedBody, Error>)
        ensures
            match r {
                Ok(body) => (announced matches Some(length) ==> length <= MAX_RESPONSE_BYTES)
                    && body.content().len() == 0 && body.of() == exchange && body.wf(),
                Err(e) => (announced matches Some(length) && length > MAX_RESPONSE_BYTES) && e@
                    == crate::error::ErrorModel::Message(exchange.invalid_text()),
            },
    {
        if let Some(length) = announced {
            if length > MAX_RESPONSE_BYTES as u64 {
                return Err(exchange.invalid());
            }
        }
        Ok(LimitedBody { bytes: Vec::new(), exchange })
    }

    /// Reads one more chunk; a chunk that goes over the limit is refused.
    pub fn push(&mut self, chunk: &[u8]) -> (r: Result<(), Error>)
        requires
            old(self).wf(),
        ensures
            final(self).wf(),
            final(self).of() == old(self).of(),
            if old(self).content().len() + chunk@.len() <= MAX_RESPONSE_BYTES {
                r is Ok && final(self).content() == old(self).content() + chunk@
            } else {
                crate::error::failure(r) == Some(
                    crate::error::ErrorModel::Message(old(self).of().invalid_text()),
                ) && final(self).content() == old(self).content()
            },
    {
        if chunk.len() > MAX_RESPONSE_BYTES - self.bytes.len() {
            return Err(self.exchange.invalid());
        }
        self.bytes.extend_from_slice(chunk);
        assert(self.content() =~= old(self).content() + chunk@);
        Ok(())
    }

    /// Hands over what was read.
    pub fn finish(self) -> (r: Vec<u8>)
        ensures
            r@ == self.content(),
    {
        self.bytes
    }
}

/// The text at a JSON pointer into the document that bytes hold, as
/// `serde_json::from_slice`, `Value::pointer` and `Value::as_str` find it;
/// nothing where the bytes are no document or no text stands there.
pub uninterp spec fn json_text_at(bytes: Seq<u8>, pointer: Seq<char>) -> Option<Seq<char>>;

/// `serde_json::from_slice`, `Value::pointer` and `Value::as_str`: finds the
/// text at a JSON pointer into a document. What it finds is left to the name.
#[verifier::external_body]
fn document_text(bytes: &[u8], pointer: &str) -> (r: Option<String>)
    ensures
        text::optional_owned(r) == json_text_at(bytes@, pointer@),
{
    let document = serde_json::from_slice::<serde_json::Value>(bytes).ok()?;
    document.pointer(pointer)?.as_str().map(str::to_owned)
}

/// Where the token stands in the answer of the service.
pub const TOKEN_POINTER: &'static str = "/data/settings/asr_config/app_key";

/// The credentials that an answer leaves, and whether it is refused: a token
/// that is not empty is taken over and dated.
pub open spec fn with_token(
    credentials: CredentialsModel,
    token: Option<Seq<char>>,
    now: u64,
) -> Option<CredentialsModel> {
    match token {
        Some(value) if value.len() > 0 => Some(
            CredentialsModel { token: value, refreshed_at: now, ..credentials },
        ),
        _ => None,
    }
}

impl Credentials {
    /// Takes over the identity that a registration gave.
    pub fn accept_registration(&mut self, device_id: i64, install_id: i64) -> (r: Result<(), Error>)
        ensures
            if device_id == 0 || install_id == 0 {
                crate::error::failure(r) == Some(
                    crate::error::ErrorModel::Message(Exchange::Registration.invalid_text()),
                ) && final(self)@ == old(self)@
            } else {
                r is Ok && final(self)@ == (CredentialsModel {
                    device_id: text::decimal_int(device_id as int),
                    install_id: text::decimal_int(install_id as int),
                    ..old(self)@
                })
            },
    {
        if device_id == 0 || install_id == 0 {
            return Err(Exchange::Registration.invalid());
        }
        self.device_id = text::decimal_int_text(device_id);
        self.install_id = text::decimal_int_text(install_id);
        Ok(())
    }

    /// Takes over a token that was found in an answer at a time in seconds.
    pub fn adopt_token(&mut self, token: Option<String>, now: u64) -> (r: Result<(), Error>)
        ensures
            match with_token(old(self)@, text::optional_owned(token), now) {
                Some(after) => r is Ok && final(self)@ == after,
                None => crate::error::failure(r) == Some(
                    crate::error::ErrorModel::Message(Exchange::Token.invalid_text()),
                ) && final(self)@ == old(self)@,
            },
    {
        if let Some(value) = token {
            if !empty(value.as_str()) {
                self.token = value;
                self.refreshed_at = now;
                return Ok(());
            }
        }
        Err(Exchange::Token.invalid())
    }

    /// Takes over the token in the answer of the service at a time in seconds.
    pub fn accept_token(&mut self, body: &[u8], now: u64) -> (r: Result<(), Error>)
        ensures
            match with_token(old(self)@, json_text_at(body@, TOKEN_POINTER@), now) {
                Some(after) => r is Ok && final(self)@ == after,
                None => crate::error::failure(r) == Some(
                    crate::error::ErrorModel::Message(Exchange::Token.invalid_text()),
                ) && final(self)@ == old(self)@,
            },
    {
        let found = document_text(body, TOKEN_POINTER);
        self.adopt_token(found, now)
    }
}

/// An identity that was registered and then given a token is complete, and
/// keeps the identifiers it was made up with.
pub proof fn law_registered_credentials_are_complete(
    fresh: CredentialsModel,
    device_id: i64,
    install_id: i64,
    token: Option<Seq<char>>,
    now: u64,
)
    requires
        device_id != 0,
        install_id != 0,
    ensures
        with_token(
            CredentialsModel {
                device_id: text::decimal_int(device_id as int),
                install_id: text::decimal_int(install_id as int),
                ..fresh
            },
            token,
            now,
        ) matches Some(after) ==> after.is_complete() && after.cdid == fresh.cdid && after.openudid
            == fresh.openudid && after.clientudid == fresh.clientudid && after.refreshed_at == now,
{
    text::lemma_decimal_is_ascii(
        (if device_id < 0 {
            -device_id
        } else {
            device_id as int
        }) as nat,
    );
    text::lemma_decimal_is_ascii(
        (if install_id < 0 {
            -install_id
        } else {
            install_id as int
        }) as nat,
    );
}

/// A refresh keeps the device: only the token and its date change, and complete
/// credentials stay complete.
pub proof fn law_refresh_keeps_the_device(
    current: CredentialsModel,
    token: Option<Seq<char>>,
    now: u64,
)
    ensures
        with_token(current, token, now) matches Some(after) ==> after == (CredentialsModel {
            token: after.token,
            refreshed_at: now,
            ..current
        }) && (current.is_complete() ==> after.is_complete()),
{
}

/// Two registrations have the same body only if they are the same in everything that
/// is their own: the time and the three identifiers stand in it whole.
pub proof fn law_registrations_hold_the_whole_identity(
    one: CredentialsModel,
    other: CredentialsModel,
    millis: nat,
    other_millis: nat,
)
    requires
        registration_text(one, millis) == registration_text(other, other_millis),
    ensures
        millis == other_millis,
        one.cdid == other.cdid,
        one.clientudid == other.clientudid,
        one.openudid == other.openudid,
{
    let a = "{\"_gen_time\":"@;
    let b =
        ",\"header\":{\"access\":\"wifi\",\"aid\":401734,\"app_name\":\"oime\",\"build_serial\":\"unknown\",\"carrier_region\":\"cn\",\"cdid\":"@;
    let c = ",\"channel\":\"official\",\"clientudid\":"@;
    let e =
        ",\"cpu_abi\":\"arm64-v8a\",\"device_brand\":\"xiaomi\",\"device_id\":0,\"device_model\":\"Redmi Note 7\",\"device_platform\":\"android\",\"device_type\":\"Redmi Note 7\",\"dpi\":\"440\",\"google_aid\":\"\",\"install_id\":0,\"language\":\"zh\",\"manifest_version_code\":100311008,\"mc\":\"\",\"not_request_sender\":0,\"openudid\":"@;
    let g =
        ",\"os\":\"android\",\"os_api\":\"28\",\"os_version\":\"9\",\"package\":\"com.bytedance.android.doubaoime\",\"region\":\"CN\",\"resolution\":\"1080*2340\",\"rom\":\"PKQ1.181121.001\",\"rom_version\":\"PKQ1.181121.001\",\"serial_number\":\"\",\"sig_hash\":\"\",\"sim_region\":\"cn\",\"timezone\":8,\"tz_name\":\"Asia/Shanghai\",\"tz_offset\":28800,\"update_version_code\":100311008,\"version_code\":100311008,\"version_name\":\"1.3.11\"},\"magic_tag\":\"ss_app_log\"}"@;
    let s3 = e + (json::quoted(one.openudid) + g);
    let t3 = e + (json::quoted(other.openudid) + g);
    let s2 = c + (json::quoted(one.clientudid) + s3);
    let t2 = c + (json::quoted(other.clientudid) + t3);
    let s1 = b + (json::quoted(one.cdid) + s2);
    let t1 = b + (json::quoted(other.cdid) + t2);
    lemma_regrouped(
        a,
        text::decimal(millis),
        b,
        json::quoted(one.cdid),
        c,
        json::quoted(one.clientudid),
        e,
        json::quoted(one.openudid),
        g,
    );
    lemma_regrouped(
        a,
        text::decimal(other_millis),
        b,
        json::quoted(other.cdid),
        c,
        json::quoted(other.clientudid),
        e,
        json::quoted(other.openudid),
        g,
    );
    json::lemma_after_same_beginning(a, text::decimal(millis) + s1, text::decimal(other_millis) + t1);
    lemma_header_follows_a_comma();
    assert(s1[0] == ',' && t1[0] == ',');
    json::law_numerals_end_before_other_characters(millis, other_millis, s1, t1);
    json::lemma_after_same_beginning(b, json::quoted(one.cdid) + s2, json::quoted(other.cdid) + t2);
    json::law_strings_hold_their_whole_text(one.cdid, other.cdid, s2, t2);
    json::lemma_after_same_beginning(
        c,
        json::quoted(one.clientudid) + s3,
        json::quoted(other.clientudid) + t3,
    );
    json::law_strings_hold_their_whole_text(one.clientudid, other.clientudid, s3, t3);
    json::lemma_after_same_beginning(
        e,
        json::quoted(one.openudid) + g,
        json::quoted(other.openudid) + g,
    );
    json::law_strings_hold_their_whole_text(one.openudid, other.openudid, g, g);
}

/// Concatenation may be grouped from either end.
proof fn lemma_regrouped(
    a: Seq<char>,
    b: Seq<char>,
    c: Seq<char>,
    d: Seq<char>,
    e: Seq<char>,
    f: Seq<char>,
    g: Seq<char>,
    h: Seq<char>,
    i: Seq<char>,
)
    ensures
        a + b + c + d + e + f + g + h + i == a + (b + (c + (d + (e + (f + (g + (h + i))))))),
{
    assert(a + b + c + d + e + f + g + h + i =~= a + (b + (c + (d + (e + (f + (g + (h + i))))))));
}

/// The time of a registration ends before a comma.
proof fn lemma_header_follows_a_comma()
    ensures
        ({
            let header =
                ",\"header\":{\"access\":\"wifi\",\"aid\":401734,\"app_name\":\"oime\",\"build_serial\":\"unknown\",\"carrier_region\":\"cn\",\"cdid\":"@;
            header.len() > 0 && header[0] == ','
        }),
{
    reveal_strlit(
        ",\"header\":{\"access\":\"wifi\",\"aid\":401734,\"app_name\":\"oime\",\"build_serial\":\"unknown\",\"carrier_region\":\"cn\",\"cdid\":",
    );
}

/// Credentials are complete if and only if the device, its installation and the token
/// are all there.
pub proof fn law_complete_credentials_have_all_three(credentials: CredentialsModel)
    ensures
        credentials.is_complete() <==> credentials.device_id != Seq::<char>::empty()
            && credentials.install_id != Seq::<char>::empty() && credentials.token != Seq::<
            char,
        >::empty(),
{
    assert(credentials.device_id.len() == 0 ==> credentials.device_id =~= Seq::<char>::empty());
    assert(credentials.install_id.len() == 0 ==> credentials.install_id =~= Seq::<char>::empty());
    assert(credentials.token.len() == 0 ==> credentials.token =~= Seq::<char>::empty());
}

/// A token is due for a refresh one interval after it was fetched, or at the end of
/// time where that is beyond it.
pub proof fn law_tokens_are_due_after_the_interval(
    credentials: CredentialsModel,
    interval_seconds: u64,
)
    ensures
        credentials.due_at(interval_seconds) <= u64::MAX,
        credentials.refreshed_at + interval_seconds <= u64::MAX ==> credentials.due_at(
            interval_seconds,
        ) - credentials.refreshed_at == interval_seconds,
        credentials.refreshed_at + interval_seconds > u64::MAX ==> credentials.due_at(
            interval_seconds,
        ) == u64::MAX,
{
}

/// The parameters of a request carry the whole of what is its own: the time, which
/// can be read back from its numeral, the identifier of the client, and that of the
/// device where it is asked for and nowhere else.
pub proof fn law_requests_carry_the_device(
    credentials: CredentialsModel,
    include_device_id: bool,
    millis: nat,
)
    ensures
        ({
            let pairs = device_pairs(credentials, include_device_id, millis);
            &&& pairs.len() == if include_device_id {
                19int
            } else {
                18int
            }
            &&& pairs[3].0 == "_rticket"@ && text::numeral_value(pairs[3].1) == millis
            &&& pairs[4] == ("cdid"@, credentials.cdid)
            &&& pairs[5] == ("aid"@, "401734"@)
            &&& include_device_id ==> pairs[18] == ("device_id"@, credentials.device_id)
            &&& pairs.take(18) == device_pairs(credentials, false, millis)
        }),
{
    text::law_numerals_read_back(millis);
    let pairs = device_pairs(credentials, include_device_id, millis);
    assert(pairs.take(18) =~= device_pairs(credentials, false, millis));
}

/// A token that is there is taken over whole and dated by the time that it came;
/// nothing else of the credentials changes. An answer without a token, or with an
/// empty one, is of no use.
pub proof fn law_tokens_are_taken_over_whole(
    credentials: CredentialsModel,
    token: Seq<char>,
    now: u64,
)
    ensures
        token.len() > 0 ==> with_token(credentials, Some(token), now) == Some(
            CredentialsModel {
                device_id: credentials.device_id,
                install_id: credentials.install_id,
                cdid: credentials.cdid,
                openudid: credentials.openudid,
                clientudid: credentials.clientudid,
                token,
                refreshed_at: now,
            },
        ),
        token.len() == 0 ==> with_token(credentials, Some(token), now) is None,
        with_token(credentials, None, now) is None,
{
}

/// The words for an exchange that failed: without an answer, by the status of the
/// answer, which can be read back from its numeral, or by an answer of no use.
pub proof fn law_exchanges_fail_in_their_words(status: u16)
    ensures
        Exchange::Registration.unsent_text() == "Doubao device registration request failed"@,
        Exchange::Token.unsent_text() == "Doubao ASR token request failed"@,
        Exchange::Registration.refused_text(status)
            == "Doubao device registration failed with HTTP "@ + text::decimal(status as nat),
        Exchange::Token.refused_text(status) == "Doubao ASR token request failed with HTTP "@
            + text::decimal(status as nat),
        Exchange::Registration.invalid_text()
            == "Doubao device registration returned an invalid response"@,
        Exchange::Token.invalid_text() == "Doubao ASR token response was invalid"@,
        MAX_RESPONSE_BYTES == 1024 * 1024,
{
}

/// A request for a token has the body `body=null`, which its header digests.
pub proof fn law_token_requests_digest_their_body()
    ensures
        token_body() == "body=null"@,
        token_headers().len() == 3,
        token_headers()[1] == (
            "x-ss-stub"@,
            text::hex_upper_of(identity::md5_digest(vstd::utf8::encode_utf8("body=null"@))),
        ),
        token_headers()[0] == ("user-agent"@, DEVICE_USER_AGENT@),
        registration_headers()[0] == ("user-agent"@, DEVICE_USER_AGENT@),
{
}

/// A description shows the identifiers whole, and a mark where the token is.
pub proof fn law_descriptions_show_the_identifiers(credentials: CredentialsModel)
    ensures
        description(credentials) == "Credentials { device_id: "@ + text::quoted_text(
            credentials.device_id,
        ) + ", install_id: "@ + text::quoted_text(credentials.install_id) + ", cdid: "@
            + text::quoted_text(credentials.cdid) + ", openudid: "@ + text::quoted_text(
            credentials.openudid,
        ) + ", clientudid: "@ + text::quoted_text(credentials.clientudid)
            + ", token: \"[REDACTED]\" }"@,
{
}

/// Credentials are known by each of their texts and the time of their token, and
/// headers by each name and value in its place.
pub proof fn law_credentials_are_known_by_what_they_hold(
    credentials: Credentials,
    headers: Seq<(&'static str, String)>,
    i: int,
)
    ensures
        credentials@.device_id == credentials.device_id@,
        credentials@.install_id == credentials.install_id@,
        credentials@.cdid == credentials.cdid@,
        credentials@.openudid == credentials.openudid@,
        credentials@.clientudid == credentials.clientudid@,
        credentials@.token == credentials.token@,
        credentials@.refreshed_at == credentials.refreshed_at,
        header_texts(headers).len() == headers.len(),
        0 <= i < headers.len() ==> header_texts(headers)[i].0 == headers[i].0@ && header_texts(
            headers,
        )[i].1 == headers[i].1@,
{
}

/// Every request describes the same device and the same application, whoever makes it
/// and whenever.
pub proof fn law_requests_describe_the_device(
    credentials: CredentialsModel,
    include_device_id: bool,
    millis: nat,
)
    ensures
        ({
            let pairs = device_pairs(credentials, include_device_id, millis);
            &&& pairs.contains(("device_platform"@, "android"@))
            &&& pairs.contains(("os"@, "android"@))
            &&& pairs.contains(("ssmix"@, "a"@))
            &&& pairs.contains(("app_name"@, "oime"@))
            &&& pairs.contains(("version_code"@, "100311008"@))
            &&& pairs.contains(("version_name"@, "1.3.11"@))
            &&& pairs.contains(("channel"@, "official"@))
            &&& pairs.contains(("ac"@, "wifi"@))
            &&& pairs.contains(("resolution"@, "1080*2340"@))
            &&& pairs.contains(("dpi"@, "440"@))
            &&& pairs.contains(("device_type"@, "Redmi Note 7"@))
            &&& pairs.contains(("device_brand"@, "xiaomi"@))
            &&& pairs.contains(("language"@, "zh"@))
            &&& pairs.contains(("os_api"@, "28"@))
            &&& pairs.contains(("os_version"@, "9"@))
        }),
        token_headers()[2] == ("content-type"@, "application/x-www-form-urlencoded"@),
        registration_headers().len() == 2,
        registration_headers()[1] == ("content-type"@, "application/json"@),
{
    let pairs = device_pairs(credentials, include_device_id, millis);
    assert(pairs[0] == ("device_platform"@, "android"@));
    assert(pairs[1] == ("os"@, "android"@));
    assert(pairs[2] == ("ssmix"@, "a"@));
    assert(pairs[6] == ("app_name"@, "oime"@));
    assert(pairs[7] == ("version_code"@, "100311008"@));
    assert(pairs[8] == ("version_name"@, "1.3.11"@));
    assert(pairs[9] == ("channel"@, "official"@));
    assert(pairs[10] == ("ac"@, "wifi"@));
    assert(pairs[11] == ("resolution"@, "1080*2340"@));
    assert(pairs[12] == ("dpi"@, "440"@));
    assert(pairs[13] == ("device_type"@, "Redmi Note 7"@));
    assert(pairs[14] == ("device_brand"@, "xiaomi"@));
    assert(pairs[15] == ("language"@, "zh"@));
    assert(pairs[16] == ("os_api"@, "28"@));
    assert(pairs[17] == ("os_version"@, "9"@));
}

} // verus!
