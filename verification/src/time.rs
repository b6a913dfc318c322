//! Instants as text, which is done by the crate `chrono`.
//!
//! The contract in this module is believed, not proved.

use vstd::prelude::*;
use crate::text::text_view;

verus! {

/// What `chrono` writes, in the form `%Y-%m-%d %H:%M:%S UTC`, for the
/// instant in universal time that lies the given seconds and nanoseconds
/// after the start of 1970; `None` where it holds no such instant.
pub uninterp spec fn utc_text(seconds: i64, nanos: u32) -> Option<Seq<char>>;

/// Calls `chrono::DateTime::from_timestamp` and, on the instant it gives,
/// `format` with `%Y-%m-%d %H:%M:%S UTC`.
#[verifier::external_body]
pub(crate) fn format_utc(seconds: i64, nanos: u32) -> (text: Option<String>)
    ensures
        text_view(text) == utc_text(seconds, nanos),
{
    let instant = chrono::DateTime::<chrono::Utc>::from_timestamp(seconds, nanos)?;
    Some(instant.format("%Y-%m-%d %H:%M:%S UTC").to_string())
}

} // verus!
