//! What the server is started with.

use vstd::prelude::*;
use crate::client;
use crate::client::{Client, ClientBuilder};
use crate::error::Error;
use crate::server::app::AppConfig;
use crate::text;

verus! {

/// How often the upkeep of the credentials is looked after, in seconds.
pub const UPKEEP_PERIOD_SECONDS: u64 = 60;

/// How long a download may take to connect, in seconds.
pub const DOWNLOAD_CONNECT_SECONDS: u64 = 10;

/// How long a download may take, in seconds.
pub const DOWNLOAD_SECONDS: u64 = 30;

/// How many redirects a download follows.
pub const DOWNLOAD_REDIRECTS: usize = 5;

/// What the server is started with.
pub struct Settings {
    /// The credential path as the system encodes it, if one was given.
    pub credentials: Option<Vec<u8>>,
    pub model: String,
    /// The bits of the upload speed.
    pub upload_speed: u64,
    pub max_concurrency: usize,
    pub request_timeout_secs: u64,
    pub credential_refresh_secs: u64,
    /// The value of the variable that holds the key, if it is set.
    pub api_key: Option<String>,
}

/// What the server is made of.
pub struct Assembly {
    pub client: Client,
    pub config: AppConfig,
    /// Whether the credentials are kept up in the background.
    pub upkeep: bool,
}

/// The options of the client that settings ask for.
pub open spec fn client_options(settings: Settings) -> client::OptionsModel {
    client::OptionsModel {
        credentials_path: client::optional_path(settings.credentials),
        punctuation: true,
        speed: settings.upload_speed,
        credential_refresh_interval: if settings.credential_refresh_secs > 0 {
            Some((settings.credential_refresh_secs, 0u32))
        } else {
            None
        },
    }
}

/// Why settings are refused, by the first fault.
pub open spec fn settings_fault(settings: Settings) -> Option<crate::error::ErrorModel> {
    if text::trimmed(settings.model@).len() == 0 {
        Some(crate::error::ErrorModel::Message("model must not be empty"@))
    } else if settings.max_concurrency == 0 {
        Some(crate::error::ErrorModel::Message("max concurrency must be greater than zero"@))
    } else if settings.request_timeout_secs == 0 {
        Some(crate::error::ErrorModel::Message("request timeout must be greater than zero"@))
    } else {
        client::options_fault(client_options(settings))
    }
}

/// The key that settings ask for: an empty one is none.
pub open spec fn settings_key(settings: Settings) -> Option<Seq<u8>> {
    match settings.api_key {
        Some(key) if key@.len() > 0 => Some(vstd::utf8::encode_utf8(key@)),
        _ => None,
    }
}

/// Checks settings and puts the parts of the server together.
pub fn assemble(settings: Settings) -> (r: Result<Assembly, Error>)
    ensures
        match r {
            Ok(assembly) => {
                &&& settings_fault(settings) is None
                &&& assembly.client.options_model() == client_options(settings)
                &&& assembly.client.state@ == client::StateModel::initial()
                &&& assembly.config.model@ == settings.model@
                &&& assembly.config.key() == settings_key(settings)
                &&& assembly.config.max_concurrency == settings.max_concurrency
                &&& assembly.config.request_timeout == settings.request_timeout_secs
                &&& assembly.upkeep == (settings.credential_refresh_secs > 0)
            },
            Err(e) => settings_fault(settings) == Some(e@),
        },
{
    if text::trim(settings.model.as_str()).unicode_len() == 0 {
        return Err(Error::msg("model must not be empty"));
    }
    if settings.max_concurrency == 0 {
        return Err(Error::msg("max concurrency must be greater than zero"));
    }
    if settings.request_timeout_secs == 0 {
        return Err(Error::msg("request timeout must be greater than zero"));
    }
    let mut builder: ClientBuilder = Client::builder().upload_speed(settings.upload_speed);
    if let Some(path) = &settings.credentials {
        builder = builder.credentials_path(path.as_slice());
    }
    if settings.credential_refresh_secs > 0 {
        builder = builder.credential_refresh_interval(settings.credential_refresh_secs, 0);
    }
    assert(builder@ =~= client_options(settings));
    let client = match builder.build() {
        Ok(client) => client,
        Err(error) => {
            return Err(error);
        },
    };
    let api_key = match settings.api_key {
        Some(key) => if key.as_str().unicode_len() > 0 {
            Some(key)
        } else {
            None
        },
        None => None,
    };
    let config = AppConfig {
        model: settings.model,
        api_key,
        max_concurrency: settings.max_concurrency,
        request_timeout: settings.request_timeout_secs,
    };
    Ok(Assembly { client, config, upkeep: settings.credential_refresh_secs > 0 })
}

/// An interval of zero disables the proactive refresh, and any other enables it
/// with that interval.
pub proof fn law_zero_disables_refresh(settings: Settings)
    ensures
        client_options(settings).credential_refresh_interval is None
            <==> settings.credential_refresh_secs == 0,
        client_options(settings).credential_refresh_interval matches Some(interval) ==> interval.0
            == settings.credential_refresh_secs,
{
}

/// Settings are refused for a model of white space alone, for no place or no time for a
/// request, and else for what the client refuses; an empty key is none, and any other
/// is taken over whole.
pub proof fn law_settings_are_refused_by_the_first_fault(settings: Settings)
    ensures
        text::trimmed(settings.model@).len() == 0 ==> settings_fault(settings) == Some(
            crate::error::ErrorModel::Message("model must not be empty"@),
        ),
        text::trimmed(settings.model@).len() > 0 && settings.max_concurrency == 0
            ==> settings_fault(settings) == Some(
            crate::error::ErrorModel::Message("max concurrency must be greater than zero"@),
        ),
        text::trimmed(settings.model@).len() > 0 && settings.max_concurrency > 0
            && settings.request_timeout_secs == 0 ==> settings_fault(settings) == Some(
            crate::error::ErrorModel::Message("request timeout must be greater than zero"@),
        ),
        settings_fault(settings) is None <==> text::trimmed(settings.model@).len() > 0
            && settings.max_concurrency > 0 && settings.request_timeout_secs > 0 && 1
            <= settings.upload_speed && settings.upload_speed <= 0x4010_0000_0000_0000 && !(
        settings.credentials matches Some(path) && path@.len() == 0),
        client_options(settings).speed == settings.upload_speed,
        client_options(settings).punctuation,
        settings.credentials matches Some(path) ==> client_options(settings).credentials_path
            == Some(path@),
        settings.credentials is None ==> client_options(settings).credentials_path is None,
        settings.api_key matches Some(key) && key@.len() > 0 ==> settings_key(settings) == Some(
            vstd::utf8::encode_utf8(settings.api_key->0@),
        ),
        settings.api_key is None || settings.api_key->0@.len() == 0 ==> settings_key(settings)
            is None,
{
}

} // verus!
