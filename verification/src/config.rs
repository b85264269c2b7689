//! The validated configuration of a run.

use std::path::PathBuf;

use vstd::prelude::*;

use crate::cli;
use crate::cli::Cli;
use crate::error::TrafficReplayerError;
use crate::keys::KeySet;
use crate::text;

verus! {

/// Where the records come from.
#[derive(Debug)]
pub enum InputSource {
    LocalFile(PathBuf),
    S3 { bucket: String, key: String },
}

impl InputSource {
    /// The path of a local file; nothing for another source.
    pub fn as_local_path(&self) -> (r: Option<&PathBuf>)
        ensures
            r == (match *self {
                InputSource::LocalFile(p) => Some(&p),
                InputSource::S3 { .. } => None,
            }),
    {
        match self {
            InputSource::LocalFile(p) => Some(p),
            InputSource::S3 { .. } => None,
        }
    }
}

/// What a run goes by.
#[derive(Debug)]
pub struct Config {
    pub base_url: String,
    pub input_source: InputSource,
    pub concurrency: u32,
    pub timeout_ms: u64,
    pub connect_timeout_ms: u64,
    pub methods: Vec<String>,
    pub path_prefixes: Vec<String>,
    pub statuses: Vec<u16>,
    pub rate: Option<u32>,
    pub dry_run: bool,
    pub verbose: bool,
    pub output_stats: Option<PathBuf>,
    pub max_records: Option<u64>,
    pub insecure_skip_tls_verify: bool,
    pub follow_redirects: bool,
    pub aws_region: Option<String>,
    pub passthrough_keys: KeySet,
    pub drain_timeout_ms: u64,
}

/// The input source that the flags name, or what is wrong with them.
pub open spec fn chosen_source(cli: Cli) -> Result<InputSource, Seq<char>> {
    match (cli.input_file, cli.s3_bucket, cli.s3_key) {
        (Some(path), None, None) => Ok(InputSource::LocalFile(path)),
        (None, Some(bucket), Some(key)) => Ok(InputSource::S3 { bucket, key }),
        (None, None, None) => Err(
            "Must provide either --input-file or both --s3-bucket and --s3-key"@,
        ),
        _ => Err("--input-file and --s3-bucket/--s3-key are mutually exclusive"@),
    }
}

/// What is wrong with the flags, if anything: the source first, the base URL second.
pub open spec fn rejection(cli: Cli) -> Option<Seq<char>> {
    match chosen_source(cli) {
        Err(e) => Some(e),
        Ok(_) => if cli.base_url@.len() == 0 {
            Some("--base-url cannot be empty"@)
        } else {
            None
        },
    }
}

/// The keys in a list between commas: without the space around them and in lower case.
/// Where nothing stands between two commas there is no key.
pub open spec fn listed_keys(list: Option<Seq<char>>) -> Set<Seq<char>> {
    let pieces = text::split(
        match list {
            Some(l) => l,
            None => Seq::empty(),
        },
        ',',
    );
    Set::new(
        |k: Seq<char>|
            exists|i: int|
                0 <= i < pieces.len() && (#[trigger] pieces[i]).len() > 0 && k == text::lowercase(
                    text::trimmed(pieces[i]),
                ),
    )
}

/// Between commas stand the keys: of pieces that hold no comma and are joined by commas,
/// each that is not empty gives its lower-case form without the space around it.
pub proof fn keys_stand_between_commas(pieces: Seq<Seq<char>>, key: Seq<char>)
    requires
        pieces.len() > 0,
        forall|i: int| 0 <= i < pieces.len() ==> !(#[trigger] pieces[i]).contains(','),
    ensures
        listed_keys(Some(text::join(pieces, ','))).contains(key) <==> exists|i: int|
            0 <= i < pieces.len() && (#[trigger] pieces[i]).len() > 0 && key == text::lowercase(
                text::trimmed(pieces[i]),
            ),
{
    text::split_undoes_join(pieces, ',');
}

/// Without a list there are no keys.
pub proof fn no_list_gives_no_keys(key: Seq<char>)
    ensures
        !listed_keys(None).contains(key),
{
    let none = Seq::<char>::empty();
    text::first_of_is(none, ',', 0);
    assert(text::split(none, ',') =~= seq![none]);
}

fn collect_keys(list: &str) -> (r: KeySet)
    ensures
        r@ == listed_keys(Some(list@)),
{
    let pieces = text::split_text(list, ',');
    let ghost all = text::texts(pieces@);
    let mut keys = KeySet::new();
    let mut i: usize = 0;
    while i < pieces.len()
        invariant
            all == text::texts(pieces@),
            i <= pieces@.len(),
            forall|k: Seq<char>| #[trigger]
                keys@.contains(k) == exists|j: int|
                    0 <= j < i && (#[trigger] all[j]).len() > 0 && k == text::lowercase(
                        text::trimmed(all[j]),
                    ),
        decreases pieces@.len() - i,
    {
        let ghost before = keys@;
        assert(all[i as int] == pieces@[i as int]@);
        if pieces[i].as_str().unicode_len() > 0 {
            let key = text::trim(pieces[i].as_str());
            keys.insert(key.as_str().to_lowercase());
        }
        i += 1;
    }
    assert(keys@ =~= listed_keys(Some(list@)));
    keys
}

impl Config {
    /// The configuration that the flags ask for, or what is wrong with them. The base
    /// URL loses the slashes at its end, and methods go by their upper-case names.
    pub fn from_cli(cli: Cli) -> (r: Result<Self, TrafficReplayerError>)
        ensures
            r is Ok <==> rejection(cli) is None,
            r is Ok <==> cli.base_url@.len() > 0 && (if cli.input_file is Some {
                cli.s3_bucket is None && cli.s3_key is None
            } else {
                cli.s3_bucket is Some && cli.s3_key is Some
            }),
            r matches Err(e) ==> (e matches TrafficReplayerError::ConfigValidation(t) && t@
                == if cli.input_file is None && cli.s3_bucket is None && cli.s3_key is None {
                "Must provide either --input-file or both --s3-bucket and --s3-key"@
            } else if cli.input_file is Some && (cli.s3_bucket is Some || cli.s3_key is Some) || (
            cli.s3_bucket is Some) != (cli.s3_key is Some) {
                "--input-file and --s3-bucket/--s3-key are mutually exclusive"@
            } else {
                "--base-url cannot be empty"@
            }),
            r matches Err(e) ==> (e matches TrafficReplayerError::ConfigValidation(t) && rejection(
                cli,
            ) == Some(t@)),
            r matches Ok(c) ==> {
                &&& c.base_url@ == text::without_trailing(cli.base_url@, '/')
                &&& c.base_url@.len() > 0 ==> c.base_url@.last() != '/'
                &&& chosen_source(cli) == Ok::<InputSource, Seq<char>>(c.input_source)
                &&& cli.input_file matches Some(path) ==> c.input_source == InputSource::LocalFile(
                    path,
                )
                &&& cli.input_file is None ==> (c.input_source matches InputSource::S3 {
                    bucket,
                    key,
                } && cli.s3_bucket == Some(bucket) && cli.s3_key == Some(key))
                &&& c.concurrency == cli.concurrency
                &&& c.timeout_ms == cli.timeout_ms
                &&& c.connect_timeout_ms == cli.connect_timeout_ms
                &&& text::texts(c.methods@) == text::uppercase_all(text::texts(cli.methods@))
                &&& c.methods@.len() == cli.methods@.len()
                &&& forall|i: int|
                    0 <= i < c.methods@.len() ==> (#[trigger] c.methods@[i])@ == text::uppercase(
                        cli.methods@[i]@,
                    )
                &&& c.path_prefixes == cli.path_prefixes
                &&& c.statuses == cli.statuses
                &&& c.rate == cli.rate
                &&& c.dry_run == cli.dry_run
                &&& c.verbose == cli.verbose
                &&& c.output_stats == cli.output_stats
                &&& c.max_records == cli.max_records
                &&& c.insecure_skip_tls_verify == cli.insecure_skip_tls_verify
                &&& c.follow_redirects == cli.follow_redirects
                &&& c.aws_region == cli.aws_region
                &&& c.passthrough_keys@ == listed_keys(
                    text::optional_text(cli.sanitize_passthrough_keys),
                )
                &&& c.drain_timeout_ms == cli.drain_timeout_ms
            },
    {
        let input_source = match (cli.input_file, cli.s3_bucket, cli.s3_key) {
            (Some(path), None, None) => InputSource::LocalFile(path),
            (None, Some(bucket), Some(key)) => InputSource::S3 { bucket, key },
            (None, None, None) => {
                return Err(
                    TrafficReplayerError::ConfigValidation(
                        "Must provide either --input-file or both --s3-bucket and --s3-key".to_owned(),
                    ),
                );
            },
            _ => {
                return Err(
                    TrafficReplayerError::ConfigValidation(
                        "--input-file and --s3-bucket/--s3-key are mutually exclusive".to_owned(),
                    ),
                );
            },
        };
        if cli.base_url.as_str().unicode_len() == 0 {
            return Err(
                TrafficReplayerError::ConfigValidation("--base-url cannot be empty".to_owned()),
            );
        }
        let passthrough_keys = match &cli.sanitize_passthrough_keys {
            Some(list) => collect_keys(list.as_str()),
            None => collect_keys(""),
        };
        proof {
            reveal_strlit("");
            assert(""@ =~= Seq::<char>::empty());
            text::trailing_is_gone(cli.base_url@, '/');
        }
        Ok(
            Config {
                base_url: text::trim_end_char(cli.base_url.as_str(), '/'),
                input_source,
                concurrency: cli.concurrency,
                timeout_ms: cli.timeout_ms,
                connect_timeout_ms: cli.connect_timeout_ms,
                methods: text::to_uppercase_all(&cli.methods),
                path_prefixes: cli.path_prefixes,
                statuses: cli.statuses,
                rate: cli.rate,
                dry_run: cli.dry_run,
                verbose: cli.verbose,
                output_stats: cli.output_stats,
                max_records: cli.max_records,
                insecure_skip_tls_verify: cli.insecure_skip_tls_verify,
                follow_redirects: cli.follow_redirects,
                aws_region: cli.aws_region,
                passthrough_keys,
                drain_timeout_ms: cli.drain_timeout_ms,
            },
        )
    }
}

/// Whether two sources are the same.
pub open spec fn same_source(a: InputSource, b: InputSource) -> bool {
    match (a, b) {
        (InputSource::LocalFile(p), InputSource::LocalFile(q)) => cli::path_bytes(p)
            == cli::path_bytes(q),
        (InputSource::S3 { bucket: b1, key: k1 }, InputSource::S3 { bucket: b2, key: k2 }) => b1@
            == b2@ && k1@ == k2@,
        _ => false,
    }
}

impl Clone for InputSource {
    fn clone(&self) -> (r: Self)
        ensures
            same_source(r, *self),
            *self matches InputSource::LocalFile(p) ==> (r matches InputSource::LocalFile(q)
                && cli::path_bytes(q) == cli::path_bytes(p)),
            *self matches InputSource::S3 { bucket: b1, key: k1 } ==> (r matches InputSource::S3 {
                bucket: b2,
                key: k2,
            } && b2@ == b1@ && k2@ == k1@),
    {
        match self {
            InputSource::LocalFile(p) => InputSource::LocalFile(cli::copy_path(p)),
            InputSource::S3 { bucket, key } => InputSource::S3 {
                bucket: bucket.clone(),
                key: key.clone(),
            },
        }
    }
}

impl Clone for Config {
    fn clone(&self) -> (r: Self)
        ensures
            r.base_url@ == self.base_url@,
            same_source(r.input_source, self.input_source),
            self.input_source matches InputSource::LocalFile(p) ==> (
            r.input_source matches InputSource::LocalFile(q) && cli::path_bytes(q)
                == cli::path_bytes(p)),
            self.input_source matches InputSource::S3 { bucket: b1, key: k1 } ==> (
            r.input_source matches InputSource::S3 { bucket: b2, key: k2 } && b2@ == b1@ && k2@
                == k1@),
            r.concurrency == self.concurrency,
            r.timeout_ms == self.timeout_ms,
            r.connect_timeout_ms == self.connect_timeout_ms,
            text::texts(r.methods@) == text::texts(self.methods@),
            text::texts(r.path_prefixes@) == text::texts(self.path_prefixes@),
            r.statuses@ == self.statuses@,
            r.rate == self.rate,
            r.dry_run == self.dry_run,
            r.verbose == self.verbose,
            cli::optional_path(r.output_stats) == cli::optional_path(self.output_stats),
            r.max_records == self.max_records,
            r.insecure_skip_tls_verify == self.insecure_skip_tls_verify,
            r.follow_redirects == self.follow_redirects,
            text::optional_text(r.aws_region) == text::optional_text(self.aws_region),
            r.passthrough_keys@ == self.passthrough_keys@,
            r.drain_timeout_ms == self.drain_timeout_ms,
    {
        Config {
            base_url: self.base_url.clone(),
            input_source: self.input_source.clone(),
            concurrency: self.concurrency,
            timeout_ms: self.timeout_ms,
            connect_timeout_ms: self.connect_timeout_ms,
            methods: text::copy_texts(&self.methods),
            path_prefixes: text::copy_texts(&self.path_prefixes),
            statuses: self.statuses.clone(),
            rate: self.rate,
            dry_run: self.dry_run,
            verbose: self.verbose,
            output_stats: cli::copy_optional_path(&self.output_stats),
            max_records: self.max_records,
            insecure_skip_tls_verify: self.insecure_skip_tls_verify,
            follow_redirects: self.follow_redirects,
            aws_region: text::copy_text(&self.aws_region),
            passthrough_keys: self.passthrough_keys.clone(),
            drain_timeout_ms: self.drain_timeout_ms,
        }
    }
}

} // verus!
