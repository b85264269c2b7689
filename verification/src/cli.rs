//! The command line.

use std::path::PathBuf;

use vstd::prelude::*;

use crate::text;

verus! {

/// `std::path::PathBuf`, which is carried through unread.
#[verifier::external_type_specification]
#[verifier::external_body]
pub struct ExPathBuf(std::path::PathBuf);

/// The bytes of a path.
pub uninterp spec fn path_bytes(path: PathBuf) -> Seq<u8>;

/// `PathBuf::clone`: the same path.
#[verifier::external_body]
pub(crate) fn copy_path(path: &PathBuf) -> (r: PathBuf)
    ensures
        path_bytes(r) == path_bytes(*path),
{
    path.clone()
}

/// The bytes of a path, if there is one.
pub open spec fn optional_path(path: Option<PathBuf>) -> Option<Seq<u8>> {
    match path {
        Some(p) => Some(path_bytes(p)),
        None => None,
    }
}

/// The same path, if there is one.
pub fn copy_optional_path(path: &Option<PathBuf>) -> (r: Option<PathBuf>)
    ensures
        optional_path(r) == optional_path(*path),
        r is Some <==> *path is Some,
        *path matches Some(p) ==> path_bytes(r->Some_0) == path_bytes(p),
{
    match path {
        Some(p) => Some(copy_path(p)),
        None => None,
    }
}

/// The flags as they were given.
#[derive(Debug)]
pub struct Cli {
    /// Target base URL.
    pub base_url: String,
    /// Local NDJSON file; excludes the two S3 flags.
    pub input_file: Option<PathBuf>,
    /// S3 bucket; needs the key.
    pub s3_bucket: Option<String>,
    /// S3 object key; needs the bucket.
    pub s3_key: Option<String>,
    /// How many requests may be in flight.
    pub concurrency: u32,
    /// Time limit of a request, in milliseconds.
    pub timeout_ms: u64,
    /// Time limit of a connect, in milliseconds.
    pub connect_timeout_ms: u64,
    /// Methods that are replayed; all if empty.
    pub methods: Vec<String>,
    /// Path prefixes that are replayed; all if empty.
    pub path_prefixes: Vec<String>,
    /// Recorded statuses that are replayed; all if empty.
    pub statuses: Vec<u16>,
    /// Requests per second.
    pub rate: Option<u32>,
    /// Do everything but send.
    pub dry_run: bool,
    /// Log in detail.
    pub verbose: bool,
    /// Where the statistics are written as JSON.
    pub output_stats: Option<PathBuf>,
    /// Stop after this many records.
    pub max_records: Option<u64>,
    /// Do not verify TLS certificates.
    pub insecure_skip_tls_verify: bool,
    /// Follow redirects.
    pub follow_redirects: bool,
    /// AWS region.
    pub aws_region: Option<String>,
    /// Keys that are exempt from sanitization, between commas.
    pub sanitize_passthrough_keys: Option<String>,
    /// How long requests in flight are waited for at the end, in milliseconds.
    pub drain_timeout_ms: u64,
}

impl Clone for Cli {
    fn clone(&self) -> (r: Self)
        ensures
            r.base_url@ == self.base_url@,
            optional_path(r.input_file) == optional_path(self.input_file),
            text::optional_text(r.s3_bucket) == text::optional_text(self.s3_bucket),
            text::optional_text(r.s3_key) == text::optional_text(self.s3_key),
            r.concurrency == self.concurrency,
            r.timeout_ms == self.timeout_ms,
            r.connect_timeout_ms == self.connect_timeout_ms,
            text::texts(r.methods@) == text::texts(self.methods@),
            text::texts(r.path_prefixes@) == text::texts(self.path_prefixes@),
            r.statuses@ == self.statuses@,
            r.rate == self.rate,
            r.dry_run == self.dry_run,
            r.verbose == self.verbose,
            optional_path(r.output_stats) == optional_path(self.output_stats),
            r.max_records == self.max_records,
            r.insecure_skip_tls_verify == self.insecure_skip_tls_verify,
            r.follow_redirects == self.follow_redirects,
            text::optional_text(r.aws_region) == text::optional_text(self.aws_region),
            text::optional_text(r.sanitize_passthrough_keys) == text::optional_text(self.sanitize_passthrough_keys),
            r.drain_timeout_ms == self.drain_timeout_ms,
    {
        Cli {
            base_url: self.base_url.clone(),
            input_file: copy_optional_path(&self.input_file),
            s3_bucket: text::copy_text(&self.s3_bucket),
            s3_key: text::copy_text(&self.s3_key),
            concurrency: self.concurrency,
            timeout_ms: self.timeout_ms,
            connect_timeout_ms: self.connect_timeout_ms,
            methods: text::copy_texts(&self.methods),
            path_prefixes: text::copy_texts(&self.path_prefixes),
            statuses: self.statuses.clone(),
            rate: self.rate,
            dry_run: self.dry_run,
            verbose: self.verbose,
            output_stats: copy_optional_path(&self.output_stats),
            max_records: self.max_records,
            insecure_skip_tls_verify: self.insecure_skip_tls_verify,
            follow_redirects: self.follow_redirects,
            aws_region: text::copy_text(&self.aws_region),
            sanitize_passthrough_keys: text::copy_text(&self.sanitize_passthrough_keys),
            drain_timeout_ms: self.drain_timeout_ms,
        }
    }
}

} // verus!
