//! Resource identifiers: a tagged value that is either a numeric id or a
//! short textual name, with a stable byte encoding of kind, length and
//! payload.

use vstd::prelude::*;
use vstd::bytes::{spec_u32_from_le_bytes, spec_u32_to_le_bytes, u32_from_le_bytes, u32_to_le_bytes};
use vstd::string::StringSliceAdditionalSpecFns;
use vstd::utf8::{decode_utf8, encode_utf8, valid_utf8};
use crate::error::Error;
use crate::text::{
    decimal_chars, parse_u32, parse_u32_ok, parse_u32_val, str_eq, u32_to_decimal, utf8_lossy,
    utf8_lossy_of,
};

verus! {

/// Whether an identifier carries a numeric id or a textual name.
#[derive(Clone, Copy, Debug, PartialEq, Eq, Structural)]
pub enum IdKind {
    Numeric,
    String,
}

impl IdKind {
    /// The byte tag of this kind in the wire encoding.
    pub fn as_code(&self) -> (r: u8)
        ensures
            self is Numeric ==> r == 1,
            self is String ==> r == 2,
    {
        match self {
            IdKind::Numeric => 1,
            IdKind::String => 2,
        }
    }

    /// Decodes a kind tag; anything but the two known tags is rejected.
    pub fn from_code(code: u8) -> (r: Result<IdKind, Error>)
        ensures
            r is Ok <==> (code == 1 || code == 2),
            code == 1 ==> r == Ok::<IdKind, Error>(IdKind::Numeric),
            code == 2 ==> r == Ok::<IdKind, Error>(IdKind::String),
            r is Err ==> r == Err::<IdKind, Error>(Error::InvalidCommand),
    {
        match code {
            1 => Ok(IdKind::Numeric),
            2 => Ok(IdKind::String),
            _ => Err(Error::InvalidCommand),
        }
    }

    /// Parses the textual spelling of a kind.
    pub fn from_str(input: &str) -> (r: Result<IdKind, Error>)
        ensures
            (input@ == "n"@ || input@ == "numeric"@) ==> r == Ok::<IdKind, Error>(IdKind::Numeric),
            (input@ == "s"@ || input@ == "string"@) ==> r == Ok::<IdKind, Error>(IdKind::String),
            r is Err <==> !(input@ == "n"@ || input@ == "numeric"@ || input@ == "s"@ || input@
                == "string"@),
            r is Err ==> r == Err::<IdKind, Error>(Error::InvalidCommand),
    {
        proof {
            reveal_strlit("n");
            reveal_strlit("numeric");
            reveal_strlit("s");
            reveal_strlit("string");
            assert("n"@[0] == 'n');
            assert("s"@[0] == 's');
            assert("n"@.len() == 1);
            assert("s"@.len() == 1);
            assert("numeric"@.len() == 7);
            assert("string"@.len() == 6);
            assert("n"@ != "s"@);
            assert("n"@ != "string"@);
            assert("numeric"@ != "s"@);
            assert("numeric"@ != "string"@);
        }
        if str_eq(input, "n") || str_eq(input, "numeric") {
            Ok(IdKind::Numeric)
        } else if str_eq(input, "s") || str_eq(input, "string") {
            Ok(IdKind::String)
        } else {
            Err(Error::InvalidCommand)
        }
    }

    /// The textual spelling of this kind.
    pub fn as_string(&self) -> (r: String)
        ensures
            self is Numeric ==> r@ == "numeric"@,
            self is String ==> r@ == "string"@,
    {
        match self {
            IdKind::Numeric => String::from_str("numeric"),
            IdKind::String => String::from_str("string"),
        }
    }
}

impl Default for IdKind {
    fn default() -> (r: Self)
        ensures
            r == IdKind::Numeric,
    {
        IdKind::Numeric
    }
}

/// A dual numeric/textual resource identifier with its wire length and
/// payload bytes.
#[derive(Clone, Debug)]
pub struct Identifier {
    pub kind: IdKind,
    pub length: u8,
    pub value: Vec<u8>,
}

impl Identifier {
    /// The payload length field agrees with the payload.
    pub open spec fn len_consistent(&self) -> bool {
        self.value@.len() == self.length
    }

    /// Well-formed: consistent length, and a numeric identifier carries
    /// exactly four little-endian bytes.
    pub open spec fn wf(&self) -> bool {
        &&& self.len_consistent()
        &&& self.kind is Numeric ==> self.length == 4
    }

    /// The numeric id a numeric identifier's payload spells.
    pub open spec fn spec_u32_value(&self) -> u32 {
        spec_u32_from_le_bytes(self.value@)
    }

    /// The numeric id, rejected unless this is a well-formed numeric
    /// identifier.
    pub fn get_u32_value(&self) -> (r: Result<u32, Error>)
        requires
            self.len_consistent(),
        ensures
            r is Ok <==> (self.kind is Numeric && self.length == 4),
            r is Ok ==> r.unwrap() == self.spec_u32_value(),
            r is Err ==> r == Err::<u32, Error>(Error::InvalidCommand),
    {
        if !matches!(self.kind, IdKind::Numeric) {
            return Err(Error::InvalidCommand);
        }
        if self.length != 4 {
            return Err(Error::InvalidCommand);
        }
        Ok(u32_from_le_bytes(self.value.as_slice()))
    }

    /// The textual name, decoded leniently from the payload bytes; rejected
    /// for numeric identifiers.
    pub fn get_string_value(&self) -> (r: Result<String, Error>)
        ensures
            r is Ok <==> self.kind is String,
            r is Ok ==> r.unwrap()@ == utf8_lossy_of(self.value@),
            r is Ok && valid_utf8(self.value@) ==> r.unwrap()@ == decode_utf8(self.value@),
            r is Err ==> r == Err::<String, Error>(Error::InvalidCommand),
    {
        if !matches!(self.kind, IdKind::String) {
            return Err(Error::InvalidCommand);
        }
        Ok(utf8_lossy(self.value.as_slice()))
    }

    /// The identifier as text: the decimal id, or the name itself.
    pub fn as_string(&self) -> (r: String)
        requires
            self.wf(),
        ensures
            self.kind is Numeric ==> r@ == decimal_chars(self.spec_u32_value() as nat),
            self.kind is String ==> r@ == utf8_lossy_of(self.value@),
            self.kind is String && valid_utf8(self.value@) ==> r@ == decode_utf8(self.value@),
    {
        match self.kind {
            IdKind::Numeric => u32_to_decimal(u32_from_le_bytes(self.value.as_slice())),
            IdKind::String => utf8_lossy(self.value.as_slice()),
        }
    }

    /// Size of the wire encoding: one kind byte, one length byte, payload.
    pub fn get_size_bytes(&self) -> (r: u32)
        ensures
            r == 2 + self.length,
    {
        2 + self.length as u32
    }

    /// A copy of another identifier.
    pub fn from_identifier(identifier: &Identifier) -> (r: Self)
        ensures
            r.kind == identifier.kind,
            r.length == identifier.length,
            r.value@ == identifier.value@,
    {
        Identifier {
            kind: identifier.kind,
            length: identifier.length,
            value: identifier.value.clone(),
        }
    }

    /// Builds an identifier from text: a string of decimal digits becomes a
    /// numeric identifier (zero is rejected), anything else a textual one.
    /// Empty input and input over 255 bytes are rejected.
    pub fn from_str_value(value: &str) -> (r: Result<Self, Error>)
        ensures
            r is Err <==> (encode_utf8(value@).len() == 0 || encode_utf8(value@).len() > 255 || (
            parse_u32_ok(value@) && parse_u32_val(value@) == 0)),
            r is Err ==> r == Err::<Identifier, Error>(Error::InvalidCommand),
            r is Ok ==> r.unwrap().wf(),
            r is Ok && parse_u32_ok(value@) ==> r.unwrap().kind is Numeric
                && r.unwrap().spec_u32_value() as nat == parse_u32_val(value@),
            r is Ok && !parse_u32_ok(value@) ==> r.unwrap().kind is String && r.unwrap().value@
                == encode_utf8(value@),
    {
        let length = value.as_bytes().len();
        proof {
            assert(value.spec_bytes() == encode_utf8(value@));
        }
        if length == 0 || length > 255 {
            return Err(Error::InvalidCommand);
        }
        match parse_u32(value) {
            Some(id) => Identifier::numeric(id),
            None => Identifier::string(value),
        }
    }

    /// A numeric identifier; zero is not a valid id.
    pub fn numeric(value: u32) -> (r: Result<Self, Error>)
        ensures
            r is Err <==> value == 0,
            r is Err ==> r == Err::<Identifier, Error>(Error::InvalidCommand),
            r is Ok ==> r.unwrap().wf() && r.unwrap().kind is Numeric
                && r.unwrap().spec_u32_value() == value && r.unwrap().value@
                == spec_u32_to_le_bytes(value),
    {
        if value == 0 {
            return Err(Error::InvalidCommand);
        }
        proof {
            vstd::bytes::lemma_auto_spec_u32_to_from_le_bytes();
        }
        Ok(Identifier { kind: IdKind::Numeric, length: 4, value: u32_to_le_bytes(value) })
    }

    /// A textual identifier of 1 to 255 bytes.
    pub fn string(value: &str) -> (r: Result<Self, Error>)
        ensures
            r is Err <==> (encode_utf8(value@).len() == 0 || encode_utf8(value@).len() > 255),
            r is Err ==> r == Err::<Identifier, Error>(Error::InvalidCommand),
            r is Ok ==> r.unwrap().wf() && r.unwrap().kind is String && r.unwrap().value@
                == encode_utf8(value@) && r.unwrap().length == encode_utf8(value@).len(),
    {
        let length = value.as_bytes().len();
        proof {
            assert(value.spec_bytes() == encode_utf8(value@));
        }
        if length == 0 || length > 255 {
            return Err(Error::InvalidCommand);
        }
        Ok(Identifier {
            kind: IdKind::String,
            length: length as u8,
            value: value.as_bytes_vec(),
        })
    }

    /// The wire encoding: kind tag, payload length, payload bytes.
    pub fn as_bytes(&self) -> (r: Vec<u8>)
        ensures
            r@ == seq![
                if self.kind is Numeric {
                    1u8
                } else {
                    2u8
                },
                self.length,
            ] + self.value@,
    {
        let mut bytes: Vec<u8> = Vec::new();
        bytes.push(self.kind.as_code());
        bytes.push(self.length);
        bytes.extend_from_slice(self.value.as_slice());
        proof {
            assert(bytes@ =~= seq![
                if self.kind is Numeric {
                    1u8
                } else {
                    2u8
                },
                self.length,
            ] + self.value@);
        }
        bytes
    }

    /// Decodes the wire encoding. Rejected when the input is shorter than a
    /// kind tag, a length and the payload that length announces, or when the
    /// kind tag is unknown.
    pub fn from_bytes(bytes: &[u8]) -> (r: Result<Self, Error>)
        ensures
            r is Ok <==> (bytes@.len() >= 3 && (bytes@[0] == 1 || bytes@[0] == 2) && bytes@.len()
                >= 2 + bytes@[1]),
            r is Err ==> r == Err::<Identifier, Error>(Error::InvalidCommand),
            r is Ok ==> {
                &&& r.unwrap().len_consistent()
                &&& r.unwrap().kind == (if bytes@[0] == 1 {
                    IdKind::Numeric
                } else {
                    IdKind::String
                })
                &&& r.unwrap().length == bytes@[1]
                &&& r.unwrap().value@ == bytes@.subrange(2, 2 + bytes@[1] as int)
            },
    {
        if bytes.len() < 3 {
            return Err(Error::InvalidCommand);
        }
        let kind = match IdKind::from_code(bytes[0]) {
            Ok(kind) => kind,
            Err(e) => {
                return Err(e);
            },
        };
        let length = bytes[1];
        if bytes.len() < 2 + length as usize {
            return Err(Error::InvalidCommand);
        }
        let value = vstd::slice::slice_to_vec(
            vstd::slice::slice_subrange(bytes, 2, 2 + length as usize),
        );
        Ok(Identifier { kind, length, value })
    }
}

/// Decoding inverts encoding: the wire bytes of a consistent identifier with
/// a non-empty payload satisfy every acceptance condition of `from_bytes`,
/// and the fields read back are the identifier's own.
pub proof fn lemma_identifier_bytes_round_trip(id: Identifier, bytes: Seq<u8>)
    requires
        id.len_consistent(),
        id.length >= 1,
        bytes == seq![
            if id.kind is Numeric {
                1u8
            } else {
                2u8
            },
            id.length,
        ] + id.value@,
    ensures
        bytes.len() >= 3,
        bytes[0] == 1 || bytes[0] == 2,
        bytes.len() >= 2 + bytes[1],
        (if bytes[0] == 1 {
            IdKind::Numeric
        } else {
            IdKind::String
        }) == id.kind,
        bytes[1] == id.length,
        bytes.subrange(2, 2 + bytes[1] as int) == id.value@,
{
    assert(bytes.subrange(2, 2 + id.length as int) =~= id.value@);
}

impl Default for Identifier {
    /// The numeric identifier 1.
    fn default() -> (r: Self)
        ensures
            r.wf(),
            r.kind == IdKind::Numeric,
            r.spec_u32_value() == 1,
    {
        proof {
            vstd::bytes::lemma_auto_spec_u32_to_from_le_bytes();
        }
        Identifier { kind: IdKind::Numeric, length: 4, value: u32_to_le_bytes(1) }
    }
}

} // verus!
