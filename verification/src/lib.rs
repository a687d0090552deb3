//! Battery-charging helpers for Chromebooks: parsers for the text that `ectool`
//! prints, the arguments handed to it, the charge settings, and the decision
//! logic of the charge current search.

pub mod config;
pub mod decimal;
pub mod ectool;
pub mod find_lowest_current_above;
pub mod is_plugged_in;
pub mod rtc;
pub mod text;
