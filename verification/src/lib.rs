//! Buffering and upload rules of a journal-to-CloudWatch log shipper.
//!
//! The library holds the decisions of the shipper: how events are weighed,
//! when a buffer is closed, how a batch is cut into time windows, and how the
//! sequence token of the log stream is tracked. The program around it reads the
//! journal and talks to the remote service.

pub mod batcher;
mod clock;
pub mod configuration;
pub mod ec2;
pub mod event;
pub mod grouping;
pub mod journal;
pub mod uploader;
