//! Verified core of a multi-threaded image-decoding pipeline.
//!
//! Worker threads pull load requests from a shared queue, decode image
//! files (streaming animated formats frame by frame), and publish an
//! ordered stream of per-request result events to a single consumer.
//! This crate holds the parts of that pipeline that are pure logic:
//! the per-request event protocol and its state machine, the format
//! sniffer, the frame-delay arithmetic, the extension allow-list, and
//! the mipmap sizing used when a decoded frame becomes a GPU texture.
//! The threads, the filesystem and the GPU live outside it.

pub mod events;
pub mod mipmap;
pub mod protocol;
pub mod session;
pub mod sniff;
pub mod supported;
