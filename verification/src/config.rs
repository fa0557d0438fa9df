//! The settings of one recognition session.

use vstd::prelude::*;
use crate::credentials;
use crate::credentials::Credentials;
use crate::json;
use crate::urls;

verus! {

/// Where sessions are opened.
pub const DEFAULT_WEBSOCKET_URL: &'static str =
    "wss://frontier-audio-ime-ws.doubao.com/ocean/api/v1/ws";

/// The settings of one recognition session.
pub struct Config {
    pub device_id: String,
    pub install_id: String,
    pub token: String,
    pub punctuation: bool,
    pub websocket_url: String,
}

/// What a [`Config`] holds.
#[verifier::ext_equal]
pub struct ConfigModel {
    pub device_id: Seq<char>,
    pub install_id: Seq<char>,
    pub token: Seq<char>,
    pub punctuation: bool,
    pub websocket_url: Seq<char>,
}

impl View for Config {
    type V = ConfigModel;

    open spec fn view(&self) -> ConfigModel {
        ConfigModel {
            device_id: self.device_id@,
            install_id: self.install_id@,
            token: self.token@,
            punctuation: self.punctuation,
            websocket_url: self.websocket_url@,
        }
    }
}

impl Clone for Config {
    fn clone(&self) -> (r: Config)
        ensures
            r@ == self@,
    {
        Config {
            device_id: self.device_id.as_str().to_owned(),
            install_id: self.install_id.as_str().to_owned(),
            token: self.token.as_str().to_owned(),
            punctuation: self.punctuation,
            websocket_url: self.websocket_url.as_str().to_owned(),
        }
    }
}

/// The settings for a session of a device.
pub open spec fn config_for(
    credentials: credentials::CredentialsModel,
    punctuation: bool,
) -> ConfigModel {
    ConfigModel {
        device_id: credentials.device_id,
        install_id: credentials.install_id,
        token: credentials.token,
        punctuation,
        websocket_url: DEFAULT_WEBSOCKET_URL@,
    }
}

/// The parameters that open a session.
pub open spec fn session_pairs(config: ConfigModel) -> Seq<(Seq<char>, Seq<char>)> {
    seq![
        ("uid"@, "0"@),
        ("aid"@, "401734"@),
        ("app_name"@, "oime"@),
        ("did"@, config.device_id),
        ("iid"@, config.install_id),
        ("install_id"@, config.install_id),
        ("channel"@, "official"@),
        ("os_version"@, "9"@),
        ("version_code"@, "100311008"@),
        ("update_version_code"@, "100311008"@),
        ("version_name"@, "1.3.11"@),
        ("device_platform"@, "android"@),
        ("device_type"@, "Redmi Note 7"@),
        ("brand"@, "xiaomi"@),
        ("device_id"@, config.device_id),
        ("ip"@, "0"@),
        ("user_agent"@, ""@),
        ("forwarded"@, ""@),
        ("target"@, ""@),
        ("mobile"@, ""@),
    ]
}

/// The JSON that sets up a session.
pub open spec fn session_text(device_id: Seq<char>, punctuation: bool) -> Seq<char> {
    "{\"audio_info\":{\"channel\":1,\"format\":\"speech_opus\",\"sample_rate\":16000},\"enable_punctuation\":"@
        + json::boolean(punctuation)
        + ",\"enable_speech_rejection\":false,\"extra\":{\"app_name\":\"com.android.chrome\",\"app_version\":\"1.3.11\",\"cell_compress_rate\":8,\"device_brand\":\"xiaomi\",\"device_model\":\"Redmi Note 7\",\"did\":"@
        + json::quoted(device_id)
        + ",\"disable_user_words\":false,\"enable_asr_threepass\":true,\"enable_asr_twopass\":true,\"enable_print_chinese\":false,\"end_smooth_window_ms\":800,\"finish_wait_offline_time\":1000,\"input_mode\":\"tool\",\"join_user_experience_improve_program\":false,\"max_wait_switch_offline_time\":1000,\"network_change\":{\"switch_network_ping_timeout\":2000,\"switch_network_quality_threshold\":4,\"switch_network_rtt_threshold\":273},\"offline_wait_online_interval_time\":5000,\"offline_wait_online_time\":5000,\"os\":\"Android\",\"os_version\":\"9\",\"remove_space_between_han_eng\":false,\"remove_space_between_han_num\":false,\"retry_server_code\":[40100000,40100004,50000104,50700000],\"s2a_send_commands\":[\"帮我发送\"],\"s2a_send_enable\":false,\"strong_ddc\":false,\"use_twopass_retry\":true}}"@
}

/// The default URL is short and without a fragment, so that any parameters go
/// with it.
pub proof fn lemma_default_url_fits()
    ensures
        forall|pairs: Seq<(Seq<char>, Seq<char>)>|
            #[trigger] urls::url_fits(DEFAULT_WEBSOCKET_URL@, pairs),
{
    reveal_strlit("wss://frontier-audio-ime-ws.doubao.com/ocean/api/v1/ws");
    vstd::utf8::is_ascii_chars_encode_utf8(DEFAULT_WEBSOCKET_URL@);
}

/// The JSON that sets up a session is an object.
pub proof fn lemma_session_text_opens(device_id: Seq<char>, punctuation: bool)
    ensures
        session_text(device_id, punctuation).len() > 0,
        session_text(device_id, punctuation)[0] == '{',
{
    reveal_strlit(
        "{\"audio_info\":{\"channel\":1,\"format\":\"speech_opus\",\"sample_rate\":16000},\"enable_punctuation\":",
    );
}

impl Config {
    /// Settings for a session with the service.
    pub fn new(credentials: &Credentials, punctuation: bool) -> (r: Config)
        ensures
            r@ == config_for(credentials@, punctuation),
            urls::url_fits(r@.websocket_url, session_pairs(r@)),
    {
        proof {
            lemma_default_url_fits();
        }
        Config {
            device_id: credentials.device_id.as_str().to_owned(),
            install_id: credentials.install_id.as_str().to_owned(),
            token: credentials.token.as_str().to_owned(),
            punctuation,
            websocket_url: DEFAULT_WEBSOCKET_URL.to_owned(),
        }
    }

    /// Builds the URL that opens a session: the service's URL with the
    /// parameters of the session as its query.
    pub fn ws_url(&self) -> (r: Result<url::Url, url::ParseError>)
        requires
            urls::url_fits(self@.websocket_url, session_pairs(self@)),
        ensures
            match r {
                Ok(url) => urls::url_parse(self@.websocket_url) matches Some(parsed)
                    && urls::url_target(url) == parsed.0 && urls::url_pairs(url) == session_pairs(
                    self@,
                ),
                Err(_) => urls::url_parse(self@.websocket_url) is None,
            },
    {
        let values: Vec<(&str, &str)> = vec![
            ("uid", "0"),
            ("aid", "401734"),
            ("app_name", "oime"),
            ("did", self.device_id.as_str()),
            ("iid", self.install_id.as_str()),
            ("install_id", self.install_id.as_str()),
            ("channel", "official"),
            ("os_version", "9"),
            ("version_code", "100311008"),
            ("update_version_code", "100311008"),
            ("version_name", "1.3.11"),
            ("device_platform", "android"),
            ("device_type", "Redmi Note 7"),
            ("brand", "xiaomi"),
            ("device_id", self.device_id.as_str()),
            ("ip", "0"),
            ("user_agent", ""),
            ("forwarded", ""),
            ("target", ""),
            ("mobile", ""),
        ];
        assert(urls::pair_texts(values@) =~= session_pairs(self@));
        urls::url_replacing(self.websocket_url.as_str(), values.as_slice())
    }

    /// How the client presents itself to the service.
    pub fn user_agent(&self) -> (r: &'static str)
        ensures
            r@ == credentials::DEVICE_USER_AGENT@,
    {
        credentials::DEVICE_USER_AGENT
    }

    /// Writes the JSON that sets up a session.
    pub fn session_json(&self) -> (r: Vec<u8>)
        ensures
            r@ == vstd::utf8::encode_utf8(session_text(self@.device_id, self@.punctuation)),
    {
        let mut out =
            "{\"audio_info\":{\"channel\":1,\"format\":\"speech_opus\",\"sample_rate\":16000},\"enable_punctuation\":".to_owned();
        json::push_boolean(&mut out, self.punctuation);
        out.append(
            ",\"enable_speech_rejection\":false,\"extra\":{\"app_name\":\"com.android.chrome\",\"app_version\":\"1.3.11\",\"cell_compress_rate\":8,\"device_brand\":\"xiaomi\",\"device_model\":\"Redmi Note 7\",\"did\":",
        );
        json::push_quoted(&mut out, self.device_id.as_str());
        out.append(
            ",\"disable_user_words\":false,\"enable_asr_threepass\":true,\"enable_asr_twopass\":true,\"enable_print_chinese\":false,\"end_smooth_window_ms\":800,\"finish_wait_offline_time\":1000,\"input_mode\":\"tool\",\"join_user_experience_improve_program\":false,\"max_wait_switch_offline_time\":1000,\"network_change\":{\"switch_network_ping_timeout\":2000,\"switch_network_quality_threshold\":4,\"switch_network_rtt_threshold\":273},\"offline_wait_online_interval_time\":5000,\"offline_wait_online_time\":5000,\"os\":\"Android\",\"os_version\":\"9\",\"remove_space_between_han_eng\":false,\"remove_space_between_han_num\":false,\"retry_server_code\":[40100000,40100004,50000104,50700000],\"s2a_send_commands\":[\"帮我发送\"],\"s2a_send_enable\":false,\"strong_ddc\":false,\"use_twopass_retry\":true}}",
        );
        vstd::slice::slice_to_vec(out.as_str().as_bytes())
    }
}

/// Two sessions have the same settings only if they are for the same device and agree
/// in whether punctuation is wanted: both stand in the settings, the device whole.
pub proof fn law_settings_hold_the_device_and_punctuation(
    device_id: Seq<char>,
    punctuation: bool,
    other_id: Seq<char>,
    other_punctuation: bool,
)
    requires
        session_text(device_id, punctuation) == session_text(other_id, other_punctuation),
    ensures
        device_id == other_id,
        punctuation == other_punctuation,
{
    let a =
        "{\"audio_info\":{\"channel\":1,\"format\":\"speech_opus\",\"sample_rate\":16000},\"enable_punctuation\":"@;
    let b =
        ",\"enable_speech_rejection\":false,\"extra\":{\"app_name\":\"com.android.chrome\",\"app_version\":\"1.3.11\",\"cell_compress_rate\":8,\"device_brand\":\"xiaomi\",\"device_model\":\"Redmi Note 7\",\"did\":"@;
    let c =
        ",\"disable_user_words\":false,\"enable_asr_threepass\":true,\"enable_asr_twopass\":true,\"enable_print_chinese\":false,\"end_smooth_window_ms\":800,\"finish_wait_offline_time\":1000,\"input_mode\":\"tool\",\"join_user_experience_improve_program\":false,\"max_wait_switch_offline_time\":1000,\"network_change\":{\"switch_network_ping_timeout\":2000,\"switch_network_quality_threshold\":4,\"switch_network_rtt_threshold\":273},\"offline_wait_online_interval_time\":5000,\"offline_wait_online_time\":5000,\"os\":\"Android\",\"os_version\":\"9\",\"remove_space_between_han_eng\":false,\"remove_space_between_han_num\":false,\"retry_server_code\":[40100000,40100004,50000104,50700000],\"s2a_send_commands\":[\"帮我发送\"],\"s2a_send_enable\":false,\"strong_ddc\":false,\"use_twopass_retry\":true}}"@;
    let s = b + (json::quoted(device_id) + c);
    let t = b + (json::quoted(other_id) + c);
    let x = json::boolean(punctuation) + s;
    let y = json::boolean(other_punctuation) + t;
    assert(session_text(device_id, punctuation) =~= a + x);
    assert(session_text(other_id, other_punctuation) =~= a + y);
    json::lemma_after_same_beginning(a, x, y);
    json::law_truth_values_are_literals(punctuation);
    json::law_truth_values_are_literals(other_punctuation);
    assert(x[0] == json::boolean(punctuation)[0]);
    assert(y[0] == json::boolean(other_punctuation)[0]);
    json::lemma_after_same_beginning(json::boolean(punctuation), s, t);
    json::lemma_after_same_beginning(b, json::quoted(device_id) + c, json::quoted(other_id) + c);
    json::law_strings_hold_their_whole_text(device_id, other_id, c, c);
}

/// Punctuation is wanted in the settings if and only if it was asked for: the word
/// behind its name is the truth value.
pub proof fn law_punctuation_is_set_as_asked_for(device_id: Seq<char>, punctuation: bool)
    ensures
        ({
            let before =
                "{\"audio_info\":{\"channel\":1,\"format\":\"speech_opus\",\"sample_rate\":16000},\"enable_punctuation\":"@;
            let word = if punctuation {
                seq!['t', 'r', 'u', 'e']
            } else {
                seq!['f', 'a', 'l', 's', 'e']
            };
            (before + word).is_prefix_of(session_text(device_id, punctuation))
        }),
{
    let before =
        "{\"audio_info\":{\"channel\":1,\"format\":\"speech_opus\",\"sample_rate\":16000},\"enable_punctuation\":"@;
    json::law_truth_values_are_literals(punctuation);
    let whole = session_text(device_id, punctuation);
    let front = before + json::boolean(punctuation);
    assert(front =~= whole.subrange(0, front.len() as int));
}

/// The parameters that open a session carry the whole of the device and its
/// installation, each under both of its names.
pub proof fn law_sessions_carry_the_device(config: ConfigModel)
    ensures
        session_pairs(config).len() == 20,
        session_pairs(config)[3] == ("did"@, config.device_id),
        session_pairs(config)[14] == ("device_id"@, config.device_id),
        session_pairs(config)[4] == ("iid"@, config.install_id),
        session_pairs(config)[5] == ("install_id"@, config.install_id),
        session_pairs(config)[1] == ("aid"@, "401734"@),
{
}

/// The settings for a session are those of the credentials, and punctuation as it was
/// asked for.
pub proof fn law_settings_are_those_of_the_credentials(
    credentials: credentials::CredentialsModel,
    punctuation: bool,
)
    ensures
        config_for(credentials, punctuation).device_id == credentials.device_id,
        config_for(credentials, punctuation).install_id == credentials.install_id,
        config_for(credentials, punctuation).token == credentials.token,
        config_for(credentials, punctuation).punctuation == punctuation,
        config_for(credentials, punctuation).websocket_url == DEFAULT_WEBSOCKET_URL@,
{
}

/// A session describes the device and the application as the requests for credentials
/// do, leaves the rest empty, and goes to the address of the service.
pub proof fn law_sessions_describe_the_same_device(
    config: ConfigModel,
    credentials: credentials::CredentialsModel,
    millis: nat,
)
    ensures
        ({
            let pairs = session_pairs(config);
            let device = credentials::device_pairs(credentials, false, millis);
            &&& pairs[2] == device[6]
            &&& pairs[6] == device[9]
            &&& pairs[7] == device[17]
            &&& pairs[8] == device[7]
            &&& pairs[9].1 == device[7].1
            &&& pairs[10] == device[8]
            &&& pairs[11] == device[0]
            &&& pairs[12] == device[13]
            &&& pairs[13].1 == device[14].1
            &&& pairs.contains(("uid"@, "0"@))
            &&& pairs.contains(("app_name"@, "oime"@))
            &&& pairs.contains(("channel"@, "official"@))
            &&& pairs.contains(("os_version"@, "9"@))
            &&& pairs.contains(("version_code"@, "100311008"@))
            &&& pairs.contains(("update_version_code"@, "100311008"@))
            &&& pairs.contains(("version_name"@, "1.3.11"@))
            &&& pairs.contains(("device_platform"@, "android"@))
            &&& pairs.contains(("device_type"@, "Redmi Note 7"@))
            &&& pairs.contains(("brand"@, "xiaomi"@))
            &&& pairs.contains(("ip"@, "0"@))
            &&& pairs.contains(("user_agent"@, ""@))
            &&& pairs.contains(("forwarded"@, ""@))
            &&& pairs.contains(("target"@, ""@))
            &&& pairs.contains(("mobile"@, ""@))
        }),
        DEFAULT_WEBSOCKET_URL@ == "wss://frontier-audio-ime-ws.doubao.com/ocean/api/v1/ws"@,
{
    let pairs = session_pairs(config);
    assert(pairs[0] == ("uid"@, "0"@));
    assert(pairs[2] == ("app_name"@, "oime"@));
    assert(pairs[6] == ("channel"@, "official"@));
    assert(pairs[7] == ("os_version"@, "9"@));
    assert(pairs[8] == ("version_code"@, "100311008"@));
    assert(pairs[9] == ("update_version_code"@, "100311008"@));
    assert(pairs[10] == ("version_name"@, "1.3.11"@));
    assert(pairs[11] == ("device_platform"@, "android"@));
    assert(pairs[12] == ("device_type"@, "Redmi Note 7"@));
    assert(pairs[13] == ("brand"@, "xiaomi"@));
    assert(pairs[15] == ("ip"@, "0"@));
    assert(pairs[16] == ("user_agent"@, ""@));
    assert(pairs[17] == ("forwarded"@, ""@));
    assert(pairs[18] == ("target"@, ""@));
    assert(pairs[19] == ("mobile"@, ""@));
}

} // verus!
