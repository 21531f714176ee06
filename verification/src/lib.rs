//! SolverForge Calendar: the verified core of a terminal calendar with
//! dependency-linked events.

pub mod recurrence;
pub mod reach;
pub mod models;
mod stamp;
pub mod dag;
pub mod text;
pub mod ui;
pub mod keys;
pub mod timestamp;
pub mod cli;
pub mod calendar_service;
pub mod theme;
pub mod worker;
pub mod ical;
pub mod app;
pub mod notifications;
mod ics;
pub mod google;
