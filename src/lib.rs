//! A small job-listing site: the job list is decoded from a JSON document,
//! rendered into an HTML page, and served by a request dispatcher.

pub mod dispatch;
pub mod json;
pub mod loader;
pub mod model;
pub mod render;
pub mod text;
