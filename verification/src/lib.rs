//! Core of a persistent message-streaming broker: partitioned append-only
//! logs, per-consumer and per-consumer-group offset tracking, and the
//! stream/topic persistence and recovery protocol.
//!
//! All disk and network traffic stays outside this crate: the engine takes
//! directory listings and file contents as plain values and hands back the
//! writes to perform, so every decision it makes is verified.

use vstd::prelude::*;

pub mod commands;
pub mod compression;
pub mod error;
pub mod identifier;
pub mod offsets;
pub mod partition;
pub mod segment;
pub mod stream;
pub mod text;
pub mod topic;

verus! {

/// Path of the HTTP messages endpoint for a stream/topic pair.
pub fn get_path(stream_id: &str, topic_id: &str) -> (r: String)
    ensures
        r@ == "streams/"@ + stream_id@ + "/topics/"@ + topic_id@ + "/messages"@,
{
    let mut path = String::from_str("streams/");
    path.append(stream_id);
    path.append("/topics/");
    path.append(topic_id);
    path.append("/messages");
    path
}

} // verus!
