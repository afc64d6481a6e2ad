//! Error kinds of the engine. Every operation is recoverable at the caller;
//! each filesystem step that can fail during persistence or recovery has a
//! variant of its own so failures stay diagnosable.

use vstd::prelude::*;

verus! {

#[derive(Clone, Copy, Debug, PartialEq, Eq, Structural)]
pub enum Error {
    /// A command carried a malformed or out-of-range field.
    InvalidCommand,
    /// A client id of zero was supplied.
    InvalidClientId,
    /// A store request exceeded the partition's current high-water mark.
    InvalidOffset(u64),
    /// A stream with this id already has a directory on disk.
    StreamAlreadyExists(u32),
    /// No directory exists for a stream with this id.
    StreamNotFound(u32),
    CannotCreateStreamDirectory(u32),
    CannotCreateTopicsDirectory,
    CannotCreateStreamInfo(u32),
    CannotUpdateStreamInfo(u32),
    CannotOpenStreamInfo(u32),
    CannotReadStreamInfo(u32),
    /// The consumer offsets directory of this partition could not be read.
    CannotReadConsumerOffsets(u32),
}

impl Error {
    /// A short stable label for logs and protocol responses.
    pub fn as_code_str(&self) -> (r: &'static str)
        ensures
            self is InvalidCommand ==> r@ == "invalid_command"@,
            self is InvalidClientId ==> r@ == "invalid_client_id"@,
            self is InvalidOffset ==> r@ == "invalid_offset"@,
            self is StreamAlreadyExists ==> r@ == "stream_already_exists"@,
            self is StreamNotFound ==> r@ == "stream_not_found"@,
            self is CannotCreateStreamDirectory ==> r@ == "cannot_create_stream_directory"@,
            self is CannotCreateTopicsDirectory ==> r@ == "cannot_create_topics_directory"@,
            self is CannotCreateStreamInfo ==> r@ == "cannot_create_stream_info"@,
            self is CannotUpdateStreamInfo ==> r@ == "cannot_update_stream_info"@,
            self is CannotOpenStreamInfo ==> r@ == "cannot_open_stream_info"@,
            self is CannotReadStreamInfo ==> r@ == "cannot_read_stream_info"@,
            self is CannotReadConsumerOffsets ==> r@ == "cannot_read_consumer_offsets"@,
    {
        match self {
            Error::InvalidCommand => "invalid_command",
            Error::InvalidClientId => "invalid_client_id",
            Error::InvalidOffset(_) => "invalid_offset",
            Error::StreamAlreadyExists(_) => "stream_already_exists",
            Error::StreamNotFound(_) => "stream_not_found",
            Error::CannotCreateStreamDirectory(_) => "cannot_create_stream_directory",
            Error::CannotCreateTopicsDirectory => "cannot_create_topics_directory",
            Error::CannotCreateStreamInfo(_) => "cannot_create_stream_info",
            Error::CannotUpdateStreamInfo(_) => "cannot_update_stream_info",
            Error::CannotOpenStreamInfo(_) => "cannot_open_stream_info",
            Error::CannotReadStreamInfo(_) => "cannot_read_stream_info",
            Error::CannotReadConsumerOffsets(_) => "cannot_read_consumer_offsets",
        }
    }
}

} // verus!
