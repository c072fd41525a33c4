//! The command line's metrics command: where it fetches the metrics from
//! and with which key.
use vstd::prelude::*;

use crate::ids::ApiKey;
use crate::url_model::{UrlParseError, WebUrl};

verus! {

/// Why the metrics command has no target.
pub enum MetricsTargetError {
    /// The metrics URL of the settings does not parse
    Url(UrlParseError),
    /// The settings hold no api key
    MissingApiKey,
}

/// Whether the settings are read: unless both the endpoint and the key are
/// given on the command line.
pub fn needs_settings(endpoint: &Option<WebUrl>, api_key: &Option<ApiKey>) -> (r: bool)
    ensures
        r == !(endpoint is Some && api_key is Some),
{
    !(endpoint.is_some() && api_key.is_some())
}

/// The endpoint and the key of the metrics command. Where one of them is
/// missing, the settings are read (`settings`: their metrics URL and their
/// first api key) and fill in what is missing; then the settings' URL must
/// parse and the settings must hold a key, even for what the command line
/// gave.
pub fn metrics_target(
    endpoint: Option<WebUrl>,
    api_key: Option<ApiKey>,
    settings: Option<(Result<WebUrl, UrlParseError>, Option<ApiKey>)>,
) -> (r: Result<(WebUrl, ApiKey), MetricsTargetError>)
    requires
        (endpoint is Some && api_key is Some) || settings is Some,
    ensures
        endpoint is Some && api_key is Some ==> (r matches Ok(p) && p.0@ == endpoint->0@ && p.1.id@ == api_key->0.id@
            && p.1.secret@ == api_key->0.secret@),
        !(endpoint is Some && api_key is Some) ==> match settings->0 {
            (Err(e), _) => r matches Err(MetricsTargetError::Url(f)) && f@ == e@,
            (Ok(_), None) => r matches Err(MetricsTargetError::MissingApiKey),
            (Ok(u), Some(k)) => r matches Ok(p) && p.0@ == (match endpoint {
                Some(x) => x@,
                None => u@,
            }) && p.1.id@ == (match api_key {
                Some(x) => x.id@,
                None => k.id@,
            }) && p.1.secret@ == (match api_key {
                Some(x) => x.secret@,
                None => k.secret@,
            }),
        },
{
    let (endpoint, api_key) = match (endpoint, api_key) {
        (Some(e), Some(k)) => return Ok((e, k)),
        pair => pair,
    };
    let (settings_url, first_key) = match settings {
        Some(s) => s,
        None => {
            assert(false);
            return Err(MetricsTargetError::MissingApiKey);
        },
    };
    let settings_url = match settings_url {
        Ok(u) => u,
        Err(e) => return Err(MetricsTargetError::Url(e)),
    };
    let first_key = match first_key {
        Some(k) => k,
        None => return Err(MetricsTargetError::MissingApiKey),
    };
    let url = match endpoint {
        Some(e) => e,
        None => settings_url,
    };
    let key = match api_key {
        Some(k) => k,
        None => first_key,
    };
    Ok((url, key))
}

} // verus!
