//! Socket addresses as terms: a pair of the address written as text and the port number.
//! Turning an address into text and reading it back is left to the caller; what is here
//! is the shape of the term and the range of the port.
use vstd::prelude::*;

use crate::error::{Error, NifResult};
use crate::term::{Term, TermV};
use crate::types::{Decoder, Encoder, string_decoding, string_encoding};

verus! {

/// The term for an address written as `ip` with port `port`.
pub open spec fn address_encoding(ip: Seq<char>, port: int) -> TermV {
    TermV::Tuple(seq![string_encoding(ip), TermV::Int(port)])
}

/// The address text and port that a term holds: a pair of a UTF-8 binary and an integer
/// that fits a port number.
pub open spec fn address_decoding(t: TermV) -> Option<(Seq<char>, int)> {
    match t {
        TermV::Tuple(s) => if s.len() == 2 {
            match (string_decoding(s[0]), s[1]) {
                (Some(ip), TermV::Int(p)) => if 0 <= p <= u16::MAX { Some((ip, p)) } else { None },
                _ => None,
            }
        } else {
            None
        },
        _ => None,
    }
}

/// A socket address becomes the pair of its address's text and its port.
pub fn address_term(ip: &str, port: u16) -> (t: Term)
    ensures
        t@ == address_encoding(ip@, port as int),
{
    (ip, port as i64).encode()
}

/// Reads the address text and port of a socket address; a term of another shape, or a
/// port out of range, is a bad argument.
pub fn address_parts(term: &Term) -> (r: NifResult<(String, u16)>)
    ensures
        r is Ok <==> address_decoding(term@) is Some,
        r matches Ok((ip, port)) ==> address_decoding(term@) == Some((ip@, port as int)),
        r matches Err(e) ==> e is BadArg,
{
    let (ip, port) = match <(String, i64) as Decoder>::decode(term) {
        Ok(parts) => parts,
        Err(e) => return Err(e),
    };
    if 0 <= port && port <= u16::MAX as i64 {
        Ok((ip, port as u16))
    } else {
        Err(Error::BadArg)
    }
}

/// Reading back an address term gives the address text and port it was made from.
pub proof fn lemma_address_roundtrip(ip: Seq<char>, port: u16)
    ensures
        address_decoding(address_encoding(ip, port as int)) == Some((ip, port as int)),
{
    vstd::utf8::encode_utf8_valid_utf8(ip);
    vstd::utf8::encode_utf8_decode_utf8(ip);
}

} // verus!
