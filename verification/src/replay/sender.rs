//! What is sent, and what comes of it.

use bytes::Bytes;
use reqwest::header::{HeaderMap, HeaderValue};
use reqwest::{Client, Method};
use vstd::prelude::*;

use crate::config::Config;
use crate::error::TrafficReplayerError;
use crate::headers;
use crate::models::{ReplayOutcome, SanitizedReplayRecord};
use crate::replay::client;

verus! {

/// `http::Method`.
#[verifier::external_type_specification]
#[verifier::external_body]
pub struct ExMethod(reqwest::Method);

/// The text of a method.
pub uninterp spec fn method_text(method: Method) -> Seq<char>;

/// `Method::from_bytes` on the bytes of a text: succeeds on a token, which it keeps as
/// it is; its error always reads the same.
#[verifier::external_body]
fn parse_method(s: &str) -> (r: Result<Method, String>)
    ensures
        r is Ok <==> headers::is_token(s@),
        r matches Ok(m) ==> method_text(m) == s@,
        r matches Err(e) ==> e@ == "invalid HTTP method"@,
{
    Method::from_bytes(s.as_bytes()).map_err(|e| e.to_string())
}

/// A request in the terms of the HTTP client.
pub struct HttpRequest {
    pub method: Method,
    pub url: String,
    pub headers: HeaderMap<HeaderValue>,
    pub body: Option<Bytes>,
}

/// Sends requests over the network.
pub struct HttpSender {
    pub client: Client,
}

impl HttpSender {
    /// A sender that uses this client.
    pub fn new(client: Client) -> (r: Self)
        ensures
            r.client == client,
    {
        HttpSender { client }
    }

    /// The request for a record, or what comes of a record whose method is none.
    pub fn prepare(&self, record: SanitizedReplayRecord) -> (r: Result<HttpRequest, ReplayOutcome>)
        ensures
            r is Ok <==> headers::is_token(record.method@),
            r matches Ok(q) ==> {
                &&& method_text(q.method) == record.method@
                &&& q.url == record.url
                &&& q.headers == record.headers
                &&& q.body == record.body
            },
            r matches Err(o) ==> {
                &&& o.status is None
                &&& o.latency_us == 0
                &&& o.error matches Some(e)
                &&& e@ == "Invalid method "@ + record.method@ + ": "@ + "invalid HTTP method"@
                &&& !o.was_dry_run
            },
    {
        match parse_method(record.method.as_str()) {
            Ok(method) => Ok(
                HttpRequest {
                    method,
                    url: record.url,
                    headers: record.headers,
                    body: record.body,
                },
            ),
            Err(e) => {
                let error = "Invalid method ".to_owned().concat(record.method.as_str()).concat(
                    ": ",
                ).concat(e.as_str());
                Err(
                    ReplayOutcome {
                        status: None,
                        latency_us: 0,
                        error: Some(error),
                        was_dry_run: false,
                    },
                )
            },
        }
    }

    /// What comes of a request that was answered, whatever the status.
    pub fn answered(&self, status: u16, latency_us: u64) -> (r: ReplayOutcome)
        ensures
            r == (ReplayOutcome {
                status: Some(status),
                latency_us,
                error: None,
                was_dry_run: false,
            }),
    {
        ReplayOutcome { status: Some(status), latency_us, error: None, was_dry_run: false }
    }

    /// What comes of a request that was not answered.
    pub fn unanswered(&self, error: String, latency_us: u64) -> (r: ReplayOutcome)
        ensures
            r == (ReplayOutcome {
                status: None,
                latency_us,
                error: Some(error),
                was_dry_run: false,
            }),
    {
        ReplayOutcome { status: None, latency_us, error: Some(error), was_dry_run: false }
    }
}

/// Sends nothing.
pub struct DryRunSender;

impl DryRunSender {
    /// What comes of a record that is not sent.
    pub fn send(&self, _record: SanitizedReplayRecord) -> (r: ReplayOutcome)
        ensures
            r == (ReplayOutcome { status: None, latency_us: 0, error: None, was_dry_run: true }),
    {
        ReplayOutcome { status: None, latency_us: 0, error: None, was_dry_run: true }
    }
}

/// A way of sending.
pub enum Sender {
    DryRun(DryRunSender),
    Http(HttpSender),
}

/// Chooses the way of sending that a configuration asks for.
pub struct SenderFactory;

impl SenderFactory {
    /// Nothing is sent in a dry run, and no HTTP client is made for it.
    pub fn from_config(config: &Config) -> (r: Result<Sender, TrafficReplayerError>)
        ensures
            config.dry_run ==> r matches Ok(Sender::DryRun(_)),
            r matches Ok(s) ==> (s is DryRun <==> config.dry_run),
            r matches Ok(Sender::Http(h)) ==> client::built_with(h.client)
                == client::wanted_settings(*config),
            r matches Ok(Sender::Http(h)) ==> {
                let settings = client::built_with(h.client);
                &&& settings.timeout_ms == config.timeout_ms
                &&& settings.connect_timeout_ms == config.connect_timeout_ms
                &&& settings.follow_redirects == config.follow_redirects
                &&& settings.gzip
                &&& settings.max_idle_per_host == config.concurrency
                &&& settings.accept_invalid_certs == config.insecure_skip_tls_verify
            },
            r matches Err(e) ==> e is Request,
    {
        if config.dry_run {
            Ok(Sender::DryRun(DryRunSender))
        } else {
            match client::build_client(config) {
                Ok(client) => Ok(Sender::Http(HttpSender::new(client))),
                Err(e) => Err(e),
            }
        }
    }
}

} // verus!
