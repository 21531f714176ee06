//! Fresh identifiers and the current time.
use vstd::prelude::*;

verus! {

/// Calls `uuid::Uuid::new_v4` and renders it with `Display`, which the uuid
/// crate documents as the 36-character hyphenated form. The value is random:
/// nothing else is promised.
#[verifier::external_body]
pub(crate) fn new_record_id() -> (res: String)
    ensures
        res@.len() == 36,
{
    uuid::Uuid::new_v4().to_string()
}

/// Calls `chrono::Utc::now` and formats it as `%Y-%m-%d %H:%M:%S`. The value
/// depends on the clock: nothing is promised of it.
#[verifier::external_body]
pub(crate) fn timestamp_now() -> (res: String) {
    chrono::Utc::now().format("%Y-%m-%d %H:%M:%S").to_string()
}

} // verus!
