//! What the encoders and decoders that `NifRecord`, `NifTuple` and `NifMap` give a
//! struct do with its fields' terms.
use vstd::prelude::*;

use crate::atom::{Atom, atom_v};
use crate::error::{Error, NifResult, atom_name_fits};
use crate::map::{lookup, make_map_from_arrays, zip_entries, distinct_keys};
use crate::term::{Term, TermV, lemma_terms_view, terms_view};
use crate::text::usize_to_decimal;
use crate::types::{Decoder, str_to_term, string_encoding};
use vstd::utf8::encode_utf8_decode_utf8;

verus! {

/// How a field is named in error messages: by its name, or by its position in a tuple
/// struct.
pub fn field_position(ident: Option<&str>, index: usize) -> (s: String)
    ensures
        s@ == match ident {
            Some(n) => n@,
            None => crate::text::decimal(index as nat),
        },
{
    match ident {
        Some(n) => String::from_str(n),
        None => usize_to_decimal(index),
    }
}

// ---------------------------------------------------------------- NifRecord

/// A record: the tuple of the tag atom and the fields, in order.
pub fn record_term(tag: &str, fields: Vec<Term>) -> (t: Term)
    requires
        atom_name_fits(tag@),
    ensures
        t@ == TermV::Tuple(seq![atom_v(tag@)] + terms_view(fields@)),
{
    let mut items: Vec<Term> = Vec::new();
    items.push(Atom::named(tag).to_term());
    let mut rest = fields;
    let ghost f = rest@;
    items.append(&mut rest);
    proof {
        lemma_terms_view(items@);
        lemma_terms_view(f);
        assert(terms_view(items@) =~= seq![atom_v(tag@)] + terms_view(f));
    }
    Term::Tuple(items)
}

/// The fields of a record term `{tag, f1, ..., fn}` with the given tag and `n` fields.
/// A term that is not a tuple raises a message naming the struct; a tuple of the wrong
/// size, or with another tag, raises `invalid_record`; a first element that is not an
/// atom is a bad argument.
pub fn record_fields(term: &Term, tag: &str, struct_name: &str, n: usize) -> (r: NifResult<Vec<Term>>)
    ensures
        match term@ {
            TermV::Tuple(items) => if items.len() != n + 1 {
                r matches Err(Error::RaiseAtom(a)) && a@ == "invalid_record"@
            } else if !(items[0] is Atom) {
                r matches Err(e) && e is BadArg
            } else if items[0] != atom_v(tag@) {
                r matches Err(Error::RaiseAtom(a)) && a@ == "invalid_record"@
            } else {
                r matches Ok(v) && terms_view(v@) == items.subrange(1, items.len() as int)
            },
            _ => r matches Err(Error::RaiseTerm(t)) && t@ == string_encoding(
                "Invalid Record structure for "@ + struct_name@,
            ),
        },
{
    let items = match term {
        Term::Tuple(items) => items,
        _ => {
            let mut msg = String::from_str("Invalid Record structure for ");
            msg.append(struct_name);
            return Err(Error::RaiseTerm(str_to_term(msg.as_str())));
        },
    };
    proof {
        lemma_terms_view(items@);
    }
    if items.len() == 0 || items.len() - 1 != n {
        return Err(Error::RaiseAtom(String::from_str("invalid_record")));
    }
    let first = match &items[0] {
        Term::Atom(a) => a,
        _ => {
            return Err(Error::BadArg);
        },
    };
    let tag_name = String::from_str(tag);
    if !first.eq(&tag_name) {
        return Err(Error::RaiseAtom(String::from_str("invalid_record")));
    }
    let mut v: Vec<Term> = Vec::new();
    let mut i: usize = 1;
    while i < items.len()
        invariant
            1 <= i <= items.len(),
            terms_view(items@).len() == items@.len(),
            forall|k: int| 0 <= k < items@.len() ==> #[trigger] terms_view(items@)[k] == items@[k]@,
            v@.len() == i - 1,
            forall|k: int| 0 <= k < i - 1 ==> (#[trigger] v@[k])@ == items@[k + 1]@,
        decreases items.len() - i,
    {
        v.push(items[i].duplicate());
        i = i + 1;
    }
    proof {
        lemma_terms_view(v@);
        assert(terms_view(v@) =~= terms_view(items@).subrange(1, items@.len() as int));
    }
    Ok(v)
}

/// The error raised when a record's field does not decode.
pub fn record_field_error(pos_in_struct: &str, struct_name: &str) -> (e: Error)
    ensures
        e matches Error::RaiseTerm(t) && t@ == string_encoding(
            "Could not decode field "@ + pos_in_struct@ + " on Record "@ + struct_name@,
        ),
{
    let mut msg = String::from_str("Could not decode field ");
    msg.append(pos_in_struct);
    msg.append(" on Record ");
    msg.append(struct_name);
    Error::RaiseTerm(str_to_term(msg.as_str()))
}

// ---------------------------------------------------------------- NifTuple

/// A tuple struct or a struct encoded as the tuple of its fields.
pub fn tuple_term(fields: Vec<Term>) -> (t: Term)
    ensures
        t@ == TermV::Tuple(terms_view(fields@)),
{
    Term::Tuple(fields)
}

/// The fields of a tuple term with `n` elements; anything else is a bad argument.
pub fn tuple_fields(term: &Term, n: usize) -> (r: NifResult<Vec<Term>>)
    ensures
        match term@ {
            TermV::Tuple(items) => if items.len() == n {
                r matches Ok(v) && terms_view(v@) == items
            } else {
                r matches Err(e) && e is BadArg
            },
            _ => r matches Err(e) && e is BadArg,
        },
{
    match term {
        Term::Tuple(items) => {
            proof {
                lemma_terms_view(items@);
            }
            if items.len() == n {
                Ok(Term::duplicate_all(items))
            } else {
                Err(Error::BadArg)
            }
        },
        _ => Err(Error::BadArg),
    }
}

/// The error raised when a field of a tuple-encoded struct does not decode.
pub fn tuple_field_error(pos_in_struct: &str, struct_name: &str) -> (e: Error)
    ensures
        e matches Error::RaiseTerm(t) && t@ == string_encoding(
            "Could not decode field "@ + pos_in_struct@ + " on "@ + struct_name@,
        ),
{
    let mut msg = String::from_str("Could not decode field ");
    msg.append(pos_in_struct);
    msg.append(" on ");
    msg.append(struct_name);
    Error::RaiseTerm(str_to_term(msg.as_str()))
}

// ---------------------------------------------------------------- NifMap

/// The map keys named after the fields: binaries holding the names' UTF-8 bytes.
pub open spec fn field_keys(names: Seq<String>) -> Seq<TermV> {
    names.map_values(|n: String| string_encoding(n@))
}

/// Whether no two fields share a name.
pub open spec fn distinct_names(names: Seq<String>) -> bool {
    forall|i: int, j: int| 0 <= i < j < names.len() ==> names[i]@ != names[j]@
}

/// Distinct names give distinct keys, so the entries of a map built from them have
/// distinct keys.
proof fn lemma_field_keys_distinct(names: Seq<String>, values: Seq<TermV>)
    requires
        names.len() == values.len(),
        distinct_names(names),
    ensures
        distinct_keys(zip_entries(field_keys(names), values)),
{
    let z = zip_entries(field_keys(names), values);
    assert forall|a: int, b: int| 0 <= a < b < z.len() implies #[trigger] z[a].0 != #[trigger] z[b].0 by {
        assert(names[a]@ != names[b]@);
        encode_utf8_decode_utf8(names[a]@);
        encode_utf8_decode_utf8(names[b]@);
    }
}

/// A struct encoded as a map from its fields' names, as UTF-8 binaries, to their values.
pub fn map_term(names: &Vec<String>, values: Vec<Term>) -> (t: Term)
    requires
        names@.len() == values@.len(),
        distinct_names(names@),
    ensures
        t@ == TermV::MapTerm(zip_entries(field_keys(names@), terms_view(values@))),
{
    let mut keys: Vec<Term> = Vec::new();
    let mut i: usize = 0;
    while i < names.len()
        invariant
            i <= names.len(),
            keys@.len() == i,
            forall|k: int| 0 <= k < i ==> (#[trigger] keys@[k])@ == string_encoding(names@[k]@),
        decreases names.len() - i,
    {
        keys.push(str_to_term(names[i].as_str()));
        i = i + 1;
    }
    proof {
        lemma_terms_view(keys@);
        lemma_terms_view(values@);
        assert(terms_view(keys@) =~= field_keys(names@));
        lemma_field_keys_distinct(names@, terms_view(values@));
    }
    match make_map_from_arrays(keys, values) {
        Ok(t) => t,
        Err(_) => {
            assert(false);
            Term::Int(0)
        },
    }
}

/// The value of a field in a map term; a term that is not a map, or has no such key,
/// is a bad argument.
pub fn map_field(term: &Term, field: &str) -> (r: NifResult<Term>)
    ensures
        r is Ok <==> term@ is MapTerm && lookup(term@->MapTerm_0, string_encoding(field@)) is Some,
        r matches Ok(t) ==> Some(t@) == lookup(term@->MapTerm_0, string_encoding(field@)),
        r matches Err(e) ==> e is BadArg,
{
    term.map_get(str_to_term(field))
}

/// The error raised when a field of a map-encoded struct does not decode.
pub fn map_field_error(field: &str) -> (e: Error)
    ensures
        e matches Error::RaiseTerm(t) && t@ == string_encoding("Could not decode field "@ + field@ + " of map"@),
{
    let mut msg = String::from_str("Could not decode field ");
    msg.append(field);
    msg.append(" of map");
    Error::RaiseTerm(str_to_term(msg.as_str()))
}

/// Reads a field of a map-encoded struct: a term that is not a map, or has no such key,
/// is a bad argument; a value that does not decode raises [`map_field_error`].
pub fn decode_map_field<T: Decoder>(term: &Term, field: &str) -> (r: NifResult<T>)
    ensures
        match term@ {
            TermV::MapTerm(entries) => match lookup(entries, string_encoding(field@)) {
                Some(v) => match T::decoding(v) {
                    Some(m) => r matches Ok(x) && x.model() == m,
                    None => r matches Err(Error::RaiseTerm(t)) && t@ == string_encoding(
                        "Could not decode field "@ + field@ + " of map"@,
                    ),
                },
                None => r matches Err(e) && e is BadArg,
            },
            _ => r matches Err(e) && e is BadArg,
        },
{
    let value = match map_field(term, field) {
        Ok(v) => v,
        Err(e) => return Err(e),
    };
    match T::decode(&value) {
        Ok(x) => Ok(x),
        Err(_) => Err(map_field_error(field)),
    }
}

// ---------------------------------------------------------------- what a read gives back

/// Reading the fields of a record built with the same tag and number of fields gives the
/// fields back.
pub proof fn lemma_record_roundtrip(tag: Seq<char>, fields: Seq<TermV>)
    ensures
        ({
            let items = seq![atom_v(tag)] + fields;
            &&& items.len() == fields.len() + 1
            &&& items[0] is Atom
            &&& items[0] == atom_v(tag)
            &&& items.subrange(1, items.len() as int) == fields
        }),
{
    let items = seq![atom_v(tag)] + fields;
    assert(items.subrange(1, items.len() as int) =~= fields);
}

/// Reading a field of a struct encoded as a map gives the field's value back.
pub proof fn lemma_map_field_roundtrip(names: Seq<String>, values: Seq<TermV>, i: int)
    requires
        names.len() == values.len(),
        distinct_names(names),
        0 <= i < names.len(),
    ensures
        lookup(zip_entries(field_keys(names), values), string_encoding(names[i]@)) == Some(values[i]),
{
    let z = zip_entries(field_keys(names), values);
    lemma_field_keys_distinct(names, values);
    assert(z[i].0 == string_encoding(names[i]@));
    crate::map::lemma_key_index_distinct(z, string_encoding(names[i]@), i);
}

} // verus!
