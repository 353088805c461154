//! A verified core for a personal-finance terminal dashboard.
//!
//! The library owns the data model (transactions, categories, kinds),
//! the substring-keyed learning map used for auto-categorization, the
//! interactive table state machine with its modal edit form, verified
//! sorting and searching, monthly chart aggregation, and the row
//! normalization rules for the two supported bank-export layouts.
//! Terminal rendering, event plumbing and persistence live outside the
//! library and exchange plain values with it.

pub mod app;
pub mod chart;
pub mod footer;
pub mod form;
pub mod import;
pub mod input;
pub mod labeling;
pub mod models;
pub mod sort;
pub mod table;
pub mod text;
