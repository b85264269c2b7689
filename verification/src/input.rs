//! Where the lines come from.

use std::path::PathBuf;

use vstd::prelude::*;

use crate::config::{Config, InputSource};

verus! {

/// A source that is to be opened.
pub enum SourcePlan<'a> {
    /// A file.
    Local(&'a PathBuf),
    /// An S3 object; without a region the SDK looks for one.
    S3 { bucket: &'a String, key: &'a String, region: Option<String> },
}

/// The AWS region: the flag's, else that of `AWS_DEFAULT_REGION`, else none.
pub fn resolve_region(flag: &Option<String>, default_region: Option<String>) -> (r: Option<String>)
    ensures
        r is Some <==> *flag is Some || default_region is Some,
        *flag matches Some(region) ==> (r matches Some(t) && t@ == region@),
        *flag is None ==> r == default_region,
{
    match flag {
        Some(region) => Some(region.clone()),
        None => default_region,
    }
}

/// Chooses the source that a configuration asks for.
pub struct SourceFactory;

impl SourceFactory {
    /// The source to open, given the value of `AWS_DEFAULT_REGION`.
    pub fn create(config: &Config, default_region: Option<String>) -> (r: SourcePlan<'_>)
        ensures
            match config.input_source {
                InputSource::LocalFile(path) => r == SourcePlan::Local(&path),
                InputSource::S3 { bucket, key } => r matches SourcePlan::S3 {
                    bucket: b,
                    key: k,
                    region,
                } && *b == bucket && *k == key && (config.aws_region matches Some(flag) ==> (
                region matches Some(t) && t@ == flag@)) && (config.aws_region is None ==> region
                    == default_region),
            },
    {
        match &config.input_source {
            InputSource::LocalFile(path) => SourcePlan::Local(path),
            InputSource::S3 { bucket, key } => SourcePlan::S3 {
                bucket,
                key,
                region: resolve_region(&config.aws_region, default_region),
            },
        }
    }
}

} // verus!
