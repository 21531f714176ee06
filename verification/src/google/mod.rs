//! Google Calendar: discovery of the account's calendars, conversion of API
//! records into local ones, and the decisions of a sync.
pub mod discovery;
pub mod types;
pub mod sync;
pub mod percent;
pub mod auth;
