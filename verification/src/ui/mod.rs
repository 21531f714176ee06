//! Presentation helpers shared by the views.

pub mod util;
pub mod help;
pub mod views;
pub mod context;
