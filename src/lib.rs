//! Core of a small static-file HTTP server: bounded request reading,
//! request-target resolution, response framing and the job queue that
//! feeds a fixed set of workers.
pub mod answer;
pub mod bytes;
pub mod error;
pub mod request;
pub mod target;
pub mod work_queue;
