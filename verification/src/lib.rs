//! Server-side support for running an async rendering pipeline inside a
//! single-threaded WASI HTTP guest component.
//!
//! The host exposes only synchronous reads and writes plus explicit
//! "pollable" readiness objects, while the rendering pipeline expects a
//! future executor. This crate bridges the two worlds: a cooperative
//! executor, a two-variant body model (materialized bytes vs. a lazy chunk
//! sequence), a request/response translator, and a streaming writer that
//! pushes bounded-size chunks to the host under backpressure.

use vstd::prelude::*;

pub mod body;
pub mod chunks;
pub mod executor;
pub mod handler;
pub mod headers;
pub mod request;
pub mod response;
pub mod static_files;
pub mod writer;

verus! {

/// When working with streams, this crate will try to chunk bytes with
/// this size.
pub const CHUNK_BYTE_SIZE: usize = 64;

} // verus!
