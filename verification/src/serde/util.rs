//! Readers of terms for deserialization.
use vstd::prelude::*;

use crate::atom::atom_v;
use crate::serde::atoms;
use crate::serde::error::SerdeError;
use crate::term::{Term, TermV, lemma_terms_view, terms_view};
use crate::types::{Decoder, string_decoding, string_encoding, term_to_string};

verus! {

/// The text a term stands for: an atom's name, or the characters of a UTF-8 binary.
pub open spec fn stringable(t: TermV) -> Option<Seq<char>> {
    match t {
        TermV::Atom(name) => Some(name),
        _ => string_decoding(t),
    }
}

/// The name of an atom, or the text of a UTF-8 binary.
pub fn term_to_str(term: &Term) -> (r: Result<String, SerdeError>)
    ensures
        match stringable(term@) {
            Some(s) => r matches Ok(v) && v@ == s,
            None => r matches Err(e) && e is ExpectedStringable,
        },
{
    if let Ok(s) = atoms::term_to_string(term) {
        return Ok(s);
    }
    if let Ok(s) = term_to_string(term) {
        return Ok(s);
    }
    Err(SerdeError::ExpectedStringable)
}

/// Whether the term is the atom `nil`.
pub fn is_nil(term: &Term) -> (r: bool)
    ensures
        r == (term@ == atom_v("nil"@)),
{
    atoms::named("nil").equals(term)
}

/// Whether the term is the atom `none`.
pub fn is_none(term: &Term) -> (r: bool)
    ensures
        r == (term@ == atom_v("none"@)),
{
    atoms::named("none").equals(term)
}

/// The boolean that the atom `true` or `false` stands for.
pub fn parse_bool(term: &Term) -> (r: Result<bool, SerdeError>)
    ensures
        term@ == atom_v("true"@) ==> r == Ok::<bool, SerdeError>(true),
        term@ == atom_v("false"@) ==> r == Ok::<bool, SerdeError>(false),
        term@ != atom_v("true"@) && term@ != atom_v("false"@) ==> (r matches Err(e) && e is ExpectedBoolean),
{
    proof {
        crate::atom::lemma_names_distinct();
    }
    if atoms::named("true").equals(term) {
        Ok(true)
    } else if atoms::named("false").equals(term) {
        Ok(false)
    } else {
        Err(SerdeError::ExpectedBoolean)
    }
}

/// The bytes of a binary term.
pub fn parse_binary(term: &Term) -> (r: Result<&[u8], SerdeError>)
    ensures
        match term@ {
            TermV::Binary(b) => r matches Ok(s) && s@ == b,
            _ => r matches Err(e) && e is ExpectedBinary,
        },
{
    match term {
        Term::Binary(b) => Ok(b.as_slice()),
        _ => Err(SerdeError::ExpectedBinary),
    }
}

/// Whether a term is a number, an integer or a float.
pub open spec fn is_number(t: TermV) -> bool {
    t is Int || t is Float
}

/// Decodes a number term as `T`.
pub fn parse_number<T: Decoder>(term: &Term) -> (r: Result<T, SerdeError>)
    ensures
        !is_number(term@) ==> (r matches Err(e) && e is InvalidNumber),
        is_number(term@) ==> match T::decoding(term@) {
            Some(m) => r matches Ok(v) && v.model() == m,
            None => r matches Err(e) && e is ExpectedNumber,
        },
{
    match term {
        Term::Int(_) | Term::Float(_) => {},
        _ => {
            return Err(SerdeError::InvalidNumber);
        },
    }
    match T::decode(term) {
        Ok(v) => Ok(v),
        Err(_) => Err(SerdeError::ExpectedNumber),
    }
}

/// The text of a UTF-8 binary term.
pub fn parse_str(term: &Term) -> (r: Result<String, SerdeError>)
    ensures
        !(term@ is Binary) ==> (r matches Err(e) && e is ExpectedBinary),
        term@ is Binary ==> match string_decoding(term@) {
            Some(s) => r matches Ok(v) && v@ == s,
            None => r matches Err(e) && e is ExpectedStringable,
        },
{
    let _bytes = parse_binary(term)?;
    match term_to_string(term) {
        Ok(s) => Ok(s),
        Err(_) => Err(SerdeError::ExpectedStringable),
    }
}

/// Checks that a term is a binary.
pub fn validate_binary(term: &Term) -> (r: Result<(), SerdeError>)
    ensures
        r is Ok <==> term@ is Binary,
        r matches Err(e) ==> e is ExpectedBinary,
{
    match term {
        Term::Binary(_) => Ok(()),
        _ => Err(SerdeError::ExpectedBinary),
    }
}

/// The elements of a tuple term, which must have `len` elements where `len` is given.
pub fn validate_tuple(term: Term, len: Option<usize>) -> (r: Result<Vec<Term>, SerdeError>)
    ensures
        match term@ {
            TermV::Tuple(elems) => match len {
                Some(n) => if elems.len() == n {
                    r matches Ok(v) && terms_view(v@) == elems
                } else {
                    r matches Err(e) && e is InvalidTuple
                },
                None => r matches Ok(v) && terms_view(v@) == elems,
            },
            _ => r matches Err(e) && e is ExpectedTuple,
        },
{
    match term {
        Term::Tuple(items) => {
            proof {
                lemma_terms_view(items@);
            }
            match len {
                None => Ok(items),
                Some(n) => if items.len() == n {
                    Ok(items)
                } else {
                    Err(SerdeError::InvalidTuple)
                },
            }
        },
        _ => Err(SerdeError::ExpectedTuple),
    }
}

/// Reading the text of a serialized string gives the string back.
pub proof fn lemma_str_roundtrip(s: Seq<char>)
    ensures
        stringable(string_encoding(s)) == Some(s),
{
    vstd::utf8::encode_utf8_valid_utf8(s);
    vstd::utf8::encode_utf8_decode_utf8(s);
}

/// Reading the text of a serialized unit variant, an atom, gives its name back.
pub proof fn lemma_atom_name_roundtrip(name: Seq<char>)
    ensures
        stringable(atom_v(name)) == Some(name),
{
}

} // verus!
