//! The HTTP client.

use std::time::Duration;

use reqwest::redirect::Policy;
use reqwest::Client;
use vstd::prelude::*;

use crate::config::Config;
use crate::error::TrafficReplayerError;

verus! {

/// `reqwest::Client`.
#[verifier::external_type_specification]
#[verifier::external_body]
pub struct ExClient(reqwest::Client);

/// `reqwest::Error`, of which only the words are used.
#[verifier::external_type_specification]
#[verifier::external_body]
pub struct ExRequestError(reqwest::Error);

/// `reqwest::redirect::Policy`.
#[verifier::external_type_specification]
#[verifier::external_body]
pub struct ExPolicy(reqwest::redirect::Policy);

/// What a client is built with.
#[derive(Debug, Clone, Copy, PartialEq, Eq, Structural)]
pub struct ClientSettings {
    pub timeout_ms: u64,
    pub connect_timeout_ms: u64,
    pub follow_redirects: bool,
    pub gzip: bool,
    pub max_idle_per_host: usize,
    pub accept_invalid_certs: bool,
}

/// Whether a redirect policy follows any redirect.
pub uninterp spec fn follows_redirects(policy: Policy) -> bool;

/// What a client was built with.
pub uninterp spec fn built_with(client: Client) -> ClientSettings;

/// `Policy::default`, which follows up to ten redirects.
#[verifier::external_body]
fn default_policy() -> (r: Policy)
    ensures
        follows_redirects(r),
{
    Policy::default()
}

/// `Policy::none`, which follows no redirect.
#[verifier::external_body]
fn no_redirects() -> (r: Policy)
    ensures
        !follows_redirects(r),
{
    Policy::none()
}

/// `ClientBuilder::build`, with the settings handed to the builder one by one. Whether
/// it succeeds depends on the TLS of the machine.
#[verifier::external_body]
fn make_client(settings: &ClientSettings, policy: Policy) -> (r: Result<Client, reqwest::Error>)
    requires
        follows_redirects(policy) == settings.follow_redirects,
    ensures
        r matches Ok(client) ==> built_with(client) == *settings,
{
    Client::builder()
        .timeout(Duration::from_millis(settings.timeout_ms))
        .connect_timeout(Duration::from_millis(settings.connect_timeout_ms))
        .redirect(policy)
        .gzip(settings.gzip)
        .pool_max_idle_per_host(settings.max_idle_per_host)
        .danger_accept_invalid_certs(settings.accept_invalid_certs)
        .build()
}

/// The words of a `reqwest::Error`, of which nothing is promised.
#[verifier::external_body]
fn words_of(e: reqwest::Error) -> (r: String) {
    e.to_string()
}

/// The settings that a configuration asks for. Answers may be compressed, and as many
/// connections are kept as requests may be in flight.
pub open spec fn wanted_settings(config: Config) -> ClientSettings {
    ClientSettings {
        timeout_ms: config.timeout_ms,
        connect_timeout_ms: config.connect_timeout_ms,
        follow_redirects: config.follow_redirects,
        gzip: true,
        max_idle_per_host: config.concurrency as usize,
        accept_invalid_certs: config.insecure_skip_tls_verify,
    }
}

/// The settings of the client.
pub fn client_settings(config: &Config) -> (r: ClientSettings)
    ensures
        r == wanted_settings(*config),
        r.timeout_ms == config.timeout_ms,
        r.connect_timeout_ms == config.connect_timeout_ms,
        r.follow_redirects == config.follow_redirects,
        r.gzip,
        r.max_idle_per_host == config.concurrency,
        r.accept_invalid_certs == config.insecure_skip_tls_verify,
{
    ClientSettings {
        timeout_ms: config.timeout_ms,
        connect_timeout_ms: config.connect_timeout_ms,
        follow_redirects: config.follow_redirects,
        gzip: true,
        max_idle_per_host: config.concurrency as usize,
        accept_invalid_certs: config.insecure_skip_tls_verify,
    }
}

/// The client that a configuration asks for.
pub fn build_client(config: &Config) -> (r: Result<Client, TrafficReplayerError>)
    ensures
        r matches Ok(client) ==> built_with(client) == wanted_settings(*config),
        r matches Ok(client) ==> {
            let settings = built_with(client);
            &&& settings.timeout_ms == config.timeout_ms
            &&& settings.connect_timeout_ms == config.connect_timeout_ms
            &&& settings.follow_redirects == config.follow_redirects
            &&& settings.gzip
            &&& settings.max_idle_per_host == config.concurrency
            &&& settings.accept_invalid_certs == config.insecure_skip_tls_verify
        },
        r matches Err(e) ==> e is Request,
{
    let settings = client_settings(config);
    let policy = if settings.follow_redirects {
        default_policy()
    } else {
        no_redirects()
    };
    match make_client(&settings, policy) {
        Ok(client) => Ok(client),
        Err(e) => Err(TrafficReplayerError::Request(words_of(e))),
    }
}

} // verus!
