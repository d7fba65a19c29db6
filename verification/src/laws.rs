//! What holds of the library as a whole: each proof function states, for all
//! inputs, what a result must be in terms of the inputs, or how the results of
//! several calls relate.

pub mod commands;
pub mod configuration;
pub mod lookups;
pub mod pacman_lines;
pub mod records;
pub mod reports;
pub mod texts;
