//! Verified core of a Pinboard account backup tool.
//!
//! The library holds the logic of the pipeline: classifying the login
//! response, accumulating cache identifiers across index pages without
//! duplication, and driving the bounded-concurrency archive dispatch as a
//! state machine. Network and file I/O, process invocation and the async
//! runtime live outside the library and hand plain values in.

pub mod auth;
pub mod cli;
pub mod crawl;
pub mod dispatch;
pub mod html;
pub mod service;
pub mod text;
