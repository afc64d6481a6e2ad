//! The pluggable compression algorithm selector applied to message payloads:
//! either the producer's own choice is kept, or gzip is applied. Only the
//! selection logic lives here; wire serializers write the labels this module
//! defines.

use vstd::prelude::*;
use crate::error::Error;
use crate::text::str_eq;

verus! {

#[derive(Clone, Copy, Debug, PartialEq, Eq, Structural)]
pub enum CompressionAlg {
    Producer,
    Gzip,
}

impl Default for CompressionAlg {
    fn default() -> (r: Self)
        ensures
            r == CompressionAlg::Producer,
    {
        CompressionAlg::Producer
    }
}

impl CompressionAlg {
    /// Parses an algorithm label, in either capitalisation; anything else is
    /// rejected.
    pub fn from_str(s: &str) -> (r: Result<Self, Error>)
        ensures
            (s@ == "Producer"@ || s@ == "producer"@) ==> r == Ok::<CompressionAlg, Error>(
                CompressionAlg::Producer,
            ),
            (s@ == "Gzip"@ || s@ == "gzip"@) ==> r == Ok::<CompressionAlg, Error>(
                CompressionAlg::Gzip,
            ),
            r is Err <==> !(s@ == "Producer"@ || s@ == "producer"@ || s@ == "Gzip"@ || s@
                == "gzip"@),
            r is Err ==> r == Err::<CompressionAlg, Error>(Error::InvalidCommand),
    {
        proof {
            reveal_strlit("Producer");
            reveal_strlit("producer");
            reveal_strlit("Gzip");
            reveal_strlit("gzip");
            assert("Producer"@[0] == 'P');
            assert("producer"@[0] == 'p');
            assert("Gzip"@[0] == 'G');
            assert("gzip"@[0] == 'g');
            assert("Producer"@.len() == 8);
            assert("producer"@.len() == 8);
            assert("Gzip"@.len() == 4);
            assert("gzip"@.len() == 4);
        }
        if str_eq(s, "Producer") || str_eq(s, "producer") {
            Ok(CompressionAlg::Producer)
        } else if str_eq(s, "Gzip") || str_eq(s, "gzip") {
            Ok(CompressionAlg::Gzip)
        } else {
            Err(Error::InvalidCommand)
        }
    }

    /// The canonical lower-case label, as written on the wire.
    pub fn as_code_str(&self) -> (r: &'static str)
        ensures
            self is Producer ==> r@ == "producer"@,
            self is Gzip ==> r@ == "gzip"@,
    {
        match self {
            CompressionAlg::Producer => "producer",
            CompressionAlg::Gzip => "gzip",
        }
    }
}

} // verus!
