//! Quota snapshots of GitHub Copilot: reading them, judging them and laying
//! them out for a status bar.

pub mod binary64;
pub mod decimal;
pub mod display_laws;
pub mod json;
pub mod laws;
mod natural;
pub mod number_laws;
pub mod numeral;
pub mod placeholders;
pub mod quota_laws;
pub mod reading_laws;
pub mod reset;
pub mod rounding;
pub mod toolkit;
pub mod types;
pub mod vendor;
