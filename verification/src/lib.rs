//! loghound: capture of user-mode debug output, as a verified library.
//!
//! The library holds the logic of the collector: decoding a raw debug-output
//! record, the process filter, the bounded process-name cache, configuration
//! checks, the rendering of a log line and the decisions of the capture loop.
//! Everything that talks to the operating system lives in the program around it.

pub mod capture;
pub mod cli;
pub mod config;
pub mod filter;
pub mod logger;
pub mod model;
pub mod process;
pub mod service;
pub mod startup;
pub mod text;
