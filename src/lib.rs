//! Localised, de-duplicated views of a vocational-education module catalogue.
//!
//! Upstream rows arrive as [`json::Json`] values. [`module`] groups the rows
//! of the list view by module number and keeps the newest of each;
//! [`detail`] and [`objective`] assemble the view of one module; [`cache`]
//! decides when a stored answer is served; [`job`] is the directory of
//! training jobs; [`upstream`] writes the queries sent to the catalogue.

pub mod cache;
pub mod detail;
pub mod documentation;
pub mod job;
pub mod json;
pub mod language;
pub mod level;
pub mod module;
pub mod objective;
pub mod route;
pub mod text;
pub mod upstream;
