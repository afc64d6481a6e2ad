//! Command payloads of the wire protocol that the engine consumes: fetching
//! a client by id and deleting a stream, each with a fixed four-byte
//! little-endian encoding.

use vstd::prelude::*;
use vstd::bytes::{spec_u32_from_le_bytes, spec_u32_to_le_bytes, u32_from_le_bytes, u32_to_le_bytes};
use crate::error::Error;
use crate::text::{parse_u32, parse_u32_ok, parse_u32_val, str_contains_char};

verus! {

/// Request for one client by its id; zero is not a valid client id.
#[derive(Clone, Copy, Debug, PartialEq, Eq, Structural)]
pub struct GetClient {
    pub client_id: u32,
}

impl Default for GetClient {
    fn default() -> (r: Self)
        ensures
            r.client_id == 1,
    {
        GetClient { client_id: 1 }
    }
}

impl GetClient {
    /// Rejects the only malformed value: a client id of zero.
    pub fn validate(&self) -> (r: Result<(), Error>)
        ensures
            r is Ok <==> self.client_id != 0,
            r is Err ==> r == Err::<(), Error>(Error::InvalidClientId),
    {
        if self.client_id == 0 {
            return Err(Error::InvalidClientId);
        }
        Ok(())
    }

    /// Parses the textual form: a single field holding a decimal client id.
    /// Input with a field separator, a non-numeric id, or the id zero is
    /// rejected.
    pub fn from_str(input: &str) -> (r: Result<Self, Error>)
        ensures
            r is Ok <==> (!(exists|i: int| 0 <= i < input@.len() && input@[i] == '|')
                && parse_u32_ok(input@) && parse_u32_val(input@) != 0),
            r is Ok ==> r.unwrap().client_id as nat == parse_u32_val(input@),
            ((exists|i: int| 0 <= i < input@.len() && input@[i] == '|') || !parse_u32_ok(input@))
                ==> r == Err::<GetClient, Error>(Error::InvalidCommand),
            !(exists|i: int| 0 <= i < input@.len() && input@[i] == '|') && parse_u32_ok(input@)
                && parse_u32_val(input@) == 0 ==> r == Err::<GetClient, Error>(
                Error::InvalidClientId,
            ),
    {
        if str_contains_char(input, '|') {
            return Err(Error::InvalidCommand);
        }
        let client_id = match parse_u32(input) {
            None => {
                return Err(Error::InvalidCommand);
            },
            Some(client_id) => client_id,
        };
        let command = GetClient { client_id };
        match command.validate() {
            Err(e) => Err(e),
            Ok(_) => Ok(command),
        }
    }

    /// The wire encoding: the client id as four little-endian bytes.
    pub fn as_bytes(&self) -> (r: Vec<u8>)
        ensures
            r@ == spec_u32_to_le_bytes(self.client_id),
    {
        u32_to_le_bytes(self.client_id)
    }

    /// Decodes the wire encoding: exactly four bytes spelling a non-zero
    /// client id.
    pub fn from_bytes(bytes: &[u8]) -> (r: Result<GetClient, Error>)
        ensures
            bytes@.len() != 4 ==> r == Err::<GetClient, Error>(Error::InvalidCommand),
            bytes@.len() == 4 && spec_u32_from_le_bytes(bytes@) == 0 ==> r == Err::<
                GetClient,
                Error,
            >(Error::InvalidClientId),
            r is Ok <==> (bytes@.len() == 4 && spec_u32_from_le_bytes(bytes@) != 0),
            r is Ok ==> r.unwrap().client_id == spec_u32_from_le_bytes(bytes@),
    {
        if bytes.len() != 4 {
            return Err(Error::InvalidCommand);
        }
        let client_id = u32_from_le_bytes(bytes);
        let command = GetClient { client_id };
        match command.validate() {
            Err(e) => Err(e),
            Ok(_) => Ok(command),
        }
    }
}

/// Request to delete one stream by its numeric id.
#[derive(Clone, Copy, Debug, PartialEq, Eq, Structural)]
pub struct DeleteStream {
    pub stream_id: u32,
}

impl DeleteStream {
    /// Parses the split textual form: exactly one field holding a decimal
    /// stream id.
    pub fn try_from_parts(input: &[&str]) -> (r: Result<Self, Error>)
        ensures
            r is Ok <==> (input@.len() == 1 && parse_u32_ok(input@[0]@)),
            r is Ok ==> r.unwrap().stream_id as nat == parse_u32_val(input@[0]@),
            r is Err ==> r == Err::<DeleteStream, Error>(Error::InvalidCommand),
    {
        if input.len() != 1 {
            return Err(Error::InvalidCommand);
        }
        match parse_u32(input[0]) {
            None => Err(Error::InvalidCommand),
            Some(stream_id) => Ok(DeleteStream { stream_id }),
        }
    }

    /// The wire encoding: the stream id as four little-endian bytes.
    pub fn as_bytes(&self) -> (r: Vec<u8>)
        ensures
            r@ == spec_u32_to_le_bytes(self.stream_id),
    {
        u32_to_le_bytes(self.stream_id)
    }

    /// Decodes the wire encoding: exactly four bytes.
    pub fn from_bytes(bytes: &[u8]) -> (r: Result<DeleteStream, Error>)
        ensures
            r is Ok <==> bytes@.len() == 4,
            r is Ok ==> r.unwrap().stream_id == spec_u32_from_le_bytes(bytes@),
            r is Err ==> r == Err::<DeleteStream, Error>(Error::InvalidCommand),
    {
        if bytes.len() != 4 {
            return Err(Error::InvalidCommand);
        }
        Ok(DeleteStream { stream_id: u32_from_le_bytes(bytes) })
    }
}

} // verus!
