//! Removal of personal data from records before they are sent again.
//!
//! A key is looked up in its lower-case form and as a whole: `Email` is on a list that
//! holds `email`, `email_address` is not. The keys that the user exempts are left alone
//! in headers, query and body alike.

pub mod body;
pub mod query;
pub mod record;
pub mod removal;

use vstd::prelude::*;

pub use crate::sanitize::body::BodySanitizer;
pub use crate::sanitize::query::QuerySanitizer;
pub use crate::sanitize::record::{
    decoded_body, sanitize_body, sanitize_headers, sanitize_query, sanitize_record,
    RecordSanitizer, SanitizerFactory,
};
pub use crate::sanitize::removal::HeaderSanitizer;

verus! {

/// A marker for everything that takes personal data out of a part of a record.
pub trait Sanitizer: Send + Sync {

}

} // verus!
