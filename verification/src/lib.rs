//! Decision core of a background job that keeps a locally cached geo-location
//! database in step with a remote copy.
//!
//! Nothing in this crate touches the network, the disk or a clock. The host
//! performs those operations and reports what came back; the functions here
//! decide what happens next and what readers of the shared handle may observe.

pub mod digest;
pub mod download;
pub mod publish;
pub mod scheduler;
