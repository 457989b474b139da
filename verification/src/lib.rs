//! Core of a cycling activity journal: typed extraction of decoded workout
//! messages, an overlap-guarded activity store, rollup summaries and
//! chart-ready series. Every function here is verified against its contract.

pub mod app;
pub mod calendar;
pub mod db;
pub mod import;
pub mod parser;
pub mod rows;
pub mod summary;
pub mod text;
pub mod ui;
pub mod util;
