//! Boundary layer of a storage-network client.
//!
//! - `req_id`, `codec`, `ipc_msg`, `ipc`: request identifiers, the byte and
//!   text layout of IPC envelopes, and decoding a message into exactly one
//!   outcome.
//! - `lex`, `mdata`, `object_cache`, `entries`: ordered entries, key sets and
//!   value lists held in a handle-addressed cache.
//! - `bridge`: the queue through which callers hand cache operations to the
//!   session's single worker.
//! - `errors`: every failure as a code and a description.

pub mod bridge;
pub mod codec;
pub mod entries;
pub mod errors;
pub mod ipc;
pub mod ipc_msg;
pub mod lex;
pub mod mdata;
pub mod object_cache;
pub mod req_id;
