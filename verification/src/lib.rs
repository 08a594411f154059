//! A command-line currency converter's verified core.
//!
//! The library holds the logic of the program: validating currency codes
//! against a fetched catalog, choosing which provider call to make from the
//! parsed command line, exact conversion arithmetic, calendar dates with
//! ISO parsing and Unix timestamps, and the projection of a rate series
//! into chart points with axis bounds. The surrounding program does the
//! HTTP calls, JSON decoding and terminal drawing, and hands the results
//! to these functions as plain values.

pub mod catalog;
pub mod date;
pub mod decimal;
pub mod errors;
pub mod orchestrator;
pub mod projector;
pub mod rates;
pub mod render;
