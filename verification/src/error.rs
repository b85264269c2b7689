//! What can go wrong.

use vstd::prelude::*;

verus! {

/// The errors of a replay. Each holds the words of what caused it.
#[derive(Debug)]
pub enum TrafficReplayerError {
    Io(String),
    S3(String),
    JsonParse(String),
    UrlConstruction(String),
    Request(String),
    ConfigValidation(String),
    Base64Decode(String),
}

impl TrafficReplayerError {
    /// What the error reads when it is shown.
    pub open spec fn shown(self) -> Seq<char> {
        match self {
            TrafficReplayerError::Io(e) => "IO error: "@ + e@,
            TrafficReplayerError::S3(e) => "S3 error: "@ + e@,
            TrafficReplayerError::JsonParse(e) => "JSON parse error: "@ + e@,
            TrafficReplayerError::UrlConstruction(e) => "URL construction error: "@ + e@,
            TrafficReplayerError::Request(e) => "Request error: "@ + e@,
            TrafficReplayerError::ConfigValidation(e) => "Config validation error: "@ + e@,
            TrafficReplayerError::Base64Decode(e) => "Base64 decode error: "@ + e@,
        }
    }

    /// The error in words.
    pub fn message(&self) -> (r: String)
        ensures
            r@ == self.shown(),
            *self matches TrafficReplayerError::Io(e) ==> r@ == "IO error: "@ + e@,
            *self matches TrafficReplayerError::S3(e) ==> r@ == "S3 error: "@ + e@,
            *self matches TrafficReplayerError::JsonParse(e) ==> r@ == "JSON parse error: "@ + e@,
            *self matches TrafficReplayerError::UrlConstruction(e) ==> r@
                == "URL construction error: "@ + e@,
            *self matches TrafficReplayerError::Request(e) ==> r@ == "Request error: "@ + e@,
            *self matches TrafficReplayerError::ConfigValidation(e) ==> r@
                == "Config validation error: "@ + e@,
            *self matches TrafficReplayerError::Base64Decode(e) ==> r@ == "Base64 decode error: "@
                + e@,
    {
        match self {
            TrafficReplayerError::Io(e) => "IO error: ".to_owned().concat(e.as_str()),
            TrafficReplayerError::S3(e) => "S3 error: ".to_owned().concat(e.as_str()),
            TrafficReplayerError::JsonParse(e) => "JSON parse error: ".to_owned().concat(e.as_str()),
            TrafficReplayerError::UrlConstruction(e) => "URL construction error: ".to_owned().concat(
                e.as_str(),
            ),
            TrafficReplayerError::Request(e) => "Request error: ".to_owned().concat(e.as_str()),
            TrafficReplayerError::ConfigValidation(e) => "Config validation error: ".to_owned().concat(
                e.as_str(),
            ),
            TrafficReplayerError::Base64Decode(e) => "Base64 decode error: ".to_owned().concat(
                e.as_str(),
            ),
        }
    }
}

} // verus!
