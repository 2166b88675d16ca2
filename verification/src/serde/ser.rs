//! Serialization into terms: what each kind of value that serde describes becomes.
//!
//! A value's parts are serialized first; the functions here take their results and
//! build the term, or pass on the first error.
use vstd::prelude::*;

use crate::atom::atom_v;
use crate::error::atom_name_fits;
use crate::map::{distinct_keys, make_map_from_arrays, zip_entries};
use crate::serde::atoms;
use crate::serde::error::SerdeError;
use crate::term::{Term, TermV, lemma_terms_view, terms_view};
use crate::text::{char_to_string, ends_with, str_ends_with};
use crate::types::{Encoder, str_to_term, string_encoding};

verus! {

/// Turns the parts of a value into a term.
#[derive(Clone, Copy)]
pub struct Serializer {
    non_finite_float_as_atom: bool,
}

/// The term, or the error, that a part of a value was serialized to.
pub open spec fn part(r: Result<Term, SerdeError>) -> Result<TermV, SerdeError> {
    match r {
        Ok(t) => Ok(t@),
        Err(e) => Err(e),
    }
}

/// The biased exponent of a double, by its bits.
pub open spec fn f64_exponent(bits: u64) -> u64 {
    (bits >> 52u64) & 0x7ffu64
}

/// The fraction of a double, by its bits.
pub open spec fn f64_fraction(bits: u64) -> u64 {
    bits & 0xf_ffff_ffff_ffffu64
}

/// Whether the double with these bits is finite.
pub open spec fn f64_is_finite(bits: u64) -> bool {
    f64_exponent(bits) != 0x7ff
}

/// Whether the double with these bits is not a number.
pub open spec fn f64_is_nan(bits: u64) -> bool {
    f64_exponent(bits) == 0x7ff && f64_fraction(bits) != 0
}

/// Whether the sign bit of the double with these bits is set.
pub open spec fn f64_is_sign_negative(bits: u64) -> bool {
    (bits >> 63u64) == 1
}

/// The tag of the tuple that a newtype variant becomes: `ok` and `error` for the variants
/// of a type named `Result` (or a path ending in `::Result`), else the variant's name.
pub open spec fn newtype_variant_tag(name: Seq<char>, variant: Seq<char>) -> Seq<char> {
    let is_result = name == "Result"@ || ends_with(name, "::Result"@);
    if is_result && variant == "Ok"@ {
        "ok"@
    } else if is_result && variant == "Err"@ {
        "error"@
    } else {
        variant
    }
}

/// The tuple `{tag, v}` that a newtype becomes, given its tag's name and its value's
/// serialization; the tag must make an atom.
pub open spec fn newtype_result(tag: Seq<char>, value: Result<TermV, SerdeError>) -> Result<TermV, SerdeError> {
    if !atom_name_fits(tag) {
        Err(SerdeError::InvalidAtom)
    } else {
        match value {
            Ok(v) => Ok(TermV::Tuple(seq![atom_v(tag), v])),
            Err(e) => Err(e),
        }
    }
}

impl Serializer {
    /// Whether infinite and not-a-number floats become atoms instead of an error.
    pub closed spec fn non_finite_as_atom(self) -> bool {
        self.non_finite_float_as_atom
    }

    /// A serializer that refuses infinite and not-a-number floats.
    pub fn new() -> (s: Serializer)
        ensures
            !s.non_finite_as_atom(),
    {
        Serializer { non_finite_float_as_atom: false }
    }

    /// The same serializer, turning infinite and not-a-number floats into the atoms
    /// `inf`, `neg_inf` and `nan` where `enabled`.
    pub fn with_non_finite_float_as_atom(self, enabled: bool) -> (s: Serializer)
        ensures
            s.non_finite_as_atom() == enabled,
    {
        let mut s = self;
        s.non_finite_float_as_atom = enabled;
        s
    }

    pub fn serialize_bool(self, v: bool) -> (r: Result<Term, SerdeError>)
        ensures
            r matches Ok(t) && t@ == bool::encoding(v),
    {
        Ok(v.encode())
    }

    /// `none`
    pub fn serialize_none(self) -> (r: Result<Term, SerdeError>)
        ensures
            r matches Ok(t) && t@ == atom_v("none"@),
    {
        Ok(atoms::named("none"))
    }

    /// `{some, v}`, given the serialization of the value.
    pub fn serialize_some(self, value: Result<Term, SerdeError>) -> (r: Result<Term, SerdeError>)
        ensures
            part(r) == match part(value) {
                Ok(v) => Ok(TermV::Tuple(seq![atom_v("some"@), v])),
                Err(e) => Err(e),
            },
    {
        let inner = value?;
        Ok(Term::pair(atoms::named("some"), inner))
    }

    pub fn serialize_i8(self, v: i8) -> (r: Result<Term, SerdeError>)
        ensures
            r matches Ok(t) && t@ == TermV::Int(v as int),
    {
        Ok(v.encode())
    }

    pub fn serialize_i16(self, v: i16) -> (r: Result<Term, SerdeError>)
        ensures
            r matches Ok(t) && t@ == TermV::Int(v as int),
    {
        Ok(v.encode())
    }

    pub fn serialize_i32(self, v: i32) -> (r: Result<Term, SerdeError>)
        ensures
            r matches Ok(t) && t@ == TermV::Int(v as int),
    {
        Ok(v.encode())
    }

    pub fn serialize_i64(self, v: i64) -> (r: Result<Term, SerdeError>)
        ensures
            r matches Ok(t) && t@ == TermV::Int(v as int),
    {
        Ok(v.encode())
    }

    pub fn serialize_i128(self, v: i128) -> (r: Result<Term, SerdeError>)
        ensures
            r matches Ok(t) && t@ == TermV::Int(v as int),
    {
        Ok(Term::Int(v))
    }

    pub fn serialize_u8(self, v: u8) -> (r: Result<Term, SerdeError>)
        ensures
            r matches Ok(t) && t@ == TermV::Int(v as int),
    {
        Ok(v.encode())
    }

    pub fn serialize_u16(self, v: u16) -> (r: Result<Term, SerdeError>)
        ensures
            r matches Ok(t) && t@ == TermV::Int(v as int),
    {
        Ok(v.encode())
    }

    pub fn serialize_u32(self, v: u32) -> (r: Result<Term, SerdeError>)
        ensures
            r matches Ok(t) && t@ == TermV::Int(v as int),
    {
        Ok(v.encode())
    }

    pub fn serialize_u64(self, v: u64) -> (r: Result<Term, SerdeError>)
        ensures
            r matches Ok(t) && t@ == TermV::Int(v as int),
    {
        Ok(v.encode())
    }

    /// A double, given by its bits: finite ones become float terms; the others become
    /// `nan`, `inf` or `neg_inf` where the serializer allows it, and an error otherwise.
    pub fn serialize_f64(self, bits: u64) -> (r: Result<Term, SerdeError>)
        ensures
            f64_is_finite(bits) ==> (r matches Ok(t) && t@ == TermV::Float(bits)),
            !f64_is_finite(bits) && self.non_finite_as_atom() ==> (r matches Ok(t) && t@ == atom_v(
                if f64_is_nan(bits) {
                    "nan"@
                } else if !f64_is_sign_negative(bits) {
                    "inf"@
                } else {
                    "neg_inf"@
                },
            )),
            !f64_is_finite(bits) && !self.non_finite_as_atom() ==> (r matches Err(e) && e is NonFiniteFloat),
    {
        let exponent = (bits >> 52u64) & 0x7ffu64;
        assert((bits >> 63u64) <= 1) by (bit_vector);
        if exponent == 0x7ff {
            if self.non_finite_float_as_atom {
                if bits & 0xf_ffff_ffff_ffffu64 != 0 {
                    Ok(atoms::named("nan"))
                } else if (bits >> 63u64) == 0 {
                    Ok(atoms::named("inf"))
                } else {
                    Ok(atoms::named("neg_inf"))
                }
            } else {
                Err(SerdeError::NonFiniteFloat)
            }
        } else {
            Ok(Term::Float(bits))
        }
    }

    /// The UTF-8 bytes of the character, as a binary.
    pub fn serialize_char(self, v: char) -> (r: Result<Term, SerdeError>)
        ensures
            r matches Ok(t) && t@ == string_encoding(seq![v]),
    {
        let s = char_to_string(v);
        self.serialize_str(s.as_str())
    }

    /// The UTF-8 bytes of the string, as a binary.
    pub fn serialize_str(self, v: &str) -> (r: Result<Term, SerdeError>)
        ensures
            r matches Ok(t) && t@ == string_encoding(v@),
    {
        Ok(str_to_term(v))
    }

    /// The bytes, as a binary.
    pub fn serialize_bytes(self, v: &[u8]) -> (r: Result<Term, SerdeError>)
        ensures
            r matches Ok(t) && t@ == TermV::Binary(v@),
    {
        let mut b: Vec<u8> = Vec::new();
        let mut i: usize = 0;
        while i < v.len()
            invariant
                i <= v@.len(),
                b@ =~= v@.subrange(0, i as int),
            decreases v@.len() - i,
        {
            b.push(v[i]);
            i = i + 1;
        }
        assert(b@ =~= v@);
        Ok(Term::Binary(b))
    }

    /// The empty list.
    pub fn serialize_unit(self) -> (r: Result<Term, SerdeError>)
        ensures
            r matches Ok(t) && t@ == TermV::List(Seq::empty()),
    {
        Ok(().encode())
    }

    /// A unit struct is serialized as the unit value.
    pub fn serialize_unit_struct(self, _name: &str) -> (r: Result<Term, SerdeError>)
        ensures
            r matches Ok(t) && t@ == TermV::List(Seq::empty()),
    {
        self.serialize_unit()
    }

    /// The atom named after the variant.
    pub fn serialize_unit_variant(self, _name: &str, _variant_index: u32, variant: &str) -> (r: Result<Term, SerdeError>)
        ensures
            r is Ok <==> atom_name_fits(variant@),
            r matches Ok(t) ==> t@ == atom_v(variant@),
            r matches Err(e) ==> e is InvalidAtom,
    {
        atoms::str_to_term(variant)
    }

    /// `{name, v}`, given the serialization of the value.
    pub fn serialize_newtype_struct(self, name: &str, value: Result<Term, SerdeError>) -> (r: Result<Term, SerdeError>)
        ensures
            part(r) == newtype_result(name@, part(value)),
    {
        let name_term = atoms::str_to_term(name)?;
        let mut ser = SequenceSerializer::new(self, Some(2), Some(name_term));
        let inner = value?;
        ser.add(inner);
        let r = ser.to_tuple();
        proof {
            assert(terms_view(ser.items@) =~= seq![atom_v(name@), inner@]);
        }
        r
    }

    /// `{ok, v}` and `{error, v}` for the variants of `Result`, else `{variant, v}`.
    pub fn serialize_newtype_variant(
        self,
        name: &str,
        _variant_index: u32,
        variant: &str,
        value: Result<Term, SerdeError>,
    ) -> (r: Result<Term, SerdeError>)
        ensures
            part(r) == newtype_result(newtype_variant_tag(name@, variant@), part(value)),
    {
        let is_result = {
            let n = String::from_str(name);
            crate::atom::string_is(&n, "Result") || str_ends_with(name, "::Result")
        };
        let v = String::from_str(variant);
        if is_result && crate::atom::string_is(&v, "Ok") {
            self.serialize_newtype_struct("ok", value)
        } else if is_result && crate::atom::string_is(&v, "Err") {
            self.serialize_newtype_struct("error", value)
        } else {
            self.serialize_newtype_struct(variant, value)
        }
    }

    /// A sequence, to become a list.
    pub fn serialize_seq(self, len: Option<usize>) -> (r: Result<SequenceSerializer, SerdeError>)
        ensures
            r matches Ok(s) && s.items() == Seq::<TermV>::empty() && s.serializer() == self,
    {
        Ok(SequenceSerializer::new(self, len, None))
    }

    /// A tuple, to become a tuple of the same size.
    pub fn serialize_tuple(self, len: usize) -> (r: Result<SequenceSerializer, SerdeError>)
        ensures
            r matches Ok(s) && s.items() == Seq::<TermV>::empty() && s.serializer() == self,
    {
        Ok(SequenceSerializer::new(self, Some(len), None))
    }

    /// A tuple struct, to become a tuple whose first element is its name as an atom.
    pub fn serialize_tuple_struct(self, name: &str, len: usize) -> (r: Result<SequenceSerializer, SerdeError>)
        ensures
            r is Ok <==> atom_name_fits(name@),
            r matches Ok(s) ==> s.items() == seq![atom_v(name@)] && s.serializer() == self,
            r matches Err(e) ==> e is InvalidAtom,
    {
        let name_term = atoms::str_to_term(name)?;
        Ok(SequenceSerializer::new(self, Some(len), Some(name_term)))
    }

    /// A tuple variant, to become a tuple whose first element is the variant's name.
    pub fn serialize_tuple_variant(
        self,
        _name: &str,
        _variant_index: u32,
        variant: &str,
        len: usize,
    ) -> (r: Result<SequenceSerializer, SerdeError>)
        ensures
            r is Ok <==> atom_name_fits(variant@),
            r matches Ok(s) ==> s.items() == seq![atom_v(variant@)] && s.serializer() == self,
            r matches Err(e) ==> e is InvalidAtom,
    {
        self.serialize_tuple_struct(variant, len)
    }

    /// A map.
    pub fn serialize_map(self, len: Option<usize>) -> (r: Result<MapSerializer, SerdeError>)
        ensures
            r matches Ok(m) && m.keys() == Seq::<TermV>::empty() && m.values() == Seq::<TermV>::empty()
                && m.variant_name() is None && m.serializer() == self,
    {
        Ok(MapSerializer::new(self, len))
    }

    /// A struct, to become a map from its field names to their values.
    pub fn serialize_struct(self, _name: &str, len: usize) -> (r: Result<MapSerializer, SerdeError>)
        ensures
            r matches Ok(m) && m.keys() == Seq::<TermV>::empty() && m.values() == Seq::<TermV>::empty()
                && m.variant_name() is None && m.serializer() == self,
    {
        Ok(MapSerializer::new(self, Some(len)))
    }

    /// A struct variant, to become a map that also maps `__struct__` to the variant's name.
    pub fn serialize_struct_variant(
        self,
        _name: &str,
        _variant_index: u32,
        variant: &str,
        len: usize,
    ) -> (r: Result<MapSerializer, SerdeError>)
        requires
            len < usize::MAX,
        ensures
            r is Ok <==> atom_name_fits(variant@),
            r matches Ok(m) ==> m.keys() == Seq::<TermV>::empty() && m.values() == Seq::<TermV>::empty()
                && m.variant_name() == Some(atom_v(variant@)) && m.serializer() == self,
            r matches Err(e) ==> e is InvalidAtom,
    {
        let name_term = atoms::str_to_term(variant)?;
        Ok(MapSerializer::new(self, Some(len + 1)).with_struct_variant_name(name_term))
    }
}

/// Collects the elements of a sequence, a tuple or a tuple struct.
pub struct SequenceSerializer {
    ser: Serializer,
    items: Vec<Term>,
}

impl SequenceSerializer {
    /// The serializer that the elements are serialized with.
    pub closed spec fn serializer(self) -> Serializer {
        self.ser
    }

    /// The elements collected so far, in order.
    pub closed spec fn items(self) -> Seq<TermV> {
        terms_view(self.items@)
    }

    /// An empty collection, which starts with `name` where it is given; `len` is a
    /// capacity hint.
    pub fn new(ser: Serializer, len: Option<usize>, name: Option<Term>) -> (s: SequenceSerializer)
        ensures
            s.serializer() == ser,
            s.items() == match name {
                Some(n) => seq![n@],
                None => Seq::<TermV>::empty(),
            },
    {
        let mut items: Vec<Term> = Vec::new();
        if let Some(name_term) = name {
            items.push(name_term);
        }
        proof {
            lemma_terms_view(items@);
        }
        assert(terms_view(items@) =~= match name {
            Some(n) => seq![n@],
            None => Seq::<TermV>::empty(),
        });
        SequenceSerializer { ser, items }
    }

    /// The serializer that the elements are serialized with.
    pub fn ser(&self) -> (s: Serializer)
        ensures
            s == self.serializer(),
    {
        self.ser
    }

    /// Appends an element.
    pub fn add(&mut self, term: Term)
        ensures
            final(self).items() == old(self).items().push(term@),
            final(self).serializer() == old(self).serializer(),
    {
        self.items.push(term);
        proof {
            lemma_terms_view(old(self).items@);
            lemma_terms_view(self.items@);
        }
        assert(terms_view(self.items@) =~= terms_view(old(self).items@).push(term@));
    }

    /// Appends an element, given its serialization; an error is passed on and nothing
    /// is appended.
    pub fn serialize_element(&mut self, value: Result<Term, SerdeError>) -> (r: Result<(), SerdeError>)
        ensures
            final(self).serializer() == old(self).serializer(),
            match value {
                Ok(t) => r is Ok && final(self).items() == old(self).items().push(t@),
                Err(e) => r == Err::<(), SerdeError>(e) && final(self).items() == old(self).items(),
            },
    {
        let t = value?;
        self.add(t);
        Ok(())
    }

    /// The list of the elements.
    pub fn to_list(&self) -> (r: Result<Term, SerdeError>)
        ensures
            r matches Ok(t) && t@ == TermV::List(self.items()),
    {
        Ok(Term::List(Term::duplicate_all(&self.items)))
    }

    /// The tuple of the elements.
    pub fn to_tuple(&self) -> (r: Result<Term, SerdeError>)
        ensures
            r matches Ok(t) && t@ == TermV::Tuple(self.items()),
    {
        Ok(Term::Tuple(Term::duplicate_all(&self.items)))
    }
}

/// Collects the keys and values of a map, a struct or a struct variant.
pub struct MapSerializer {
    ser: Serializer,
    keys: Vec<Term>,
    values: Vec<Term>,
    struct_variant_name: Option<Term>,
}

/// Whether a count of keys and of values can be reached by adding keys and values in
/// turn: as many of each, or one key more.
pub open spec fn key_value_balance(keys: nat, values: nat) -> bool {
    keys == values || keys == values + 1
}

impl MapSerializer {
    #[verifier::type_invariant]
    closed spec fn balanced(self) -> bool {
        key_value_balance(self.keys@.len(), self.values@.len())
    }

    /// The serializer that keys and values are serialized with.
    pub closed spec fn serializer(self) -> Serializer {
        self.ser
    }

    /// The keys added so far, in order.
    pub closed spec fn keys(self) -> Seq<TermV> {
        terms_view(self.keys@)
    }

    /// The values added so far, in order.
    pub closed spec fn values(self) -> Seq<TermV> {
        terms_view(self.values@)
    }

    /// The name of the struct variant being serialized, if any.
    pub closed spec fn variant_name(self) -> Option<TermV> {
        match self.struct_variant_name {
            Some(t) => Some(t@),
            None => None,
        }
    }

    /// The keys of the map that `to_map` builds: `__struct__` first for a struct variant.
    pub open spec fn map_keys(self) -> Seq<TermV> {
        match self.variant_name() {
            Some(_) => seq![atom_v("__struct__"@)] + self.keys(),
            None => self.keys(),
        }
    }

    /// The values of the map that `to_map` builds: the variant's name first for a struct
    /// variant.
    pub open spec fn map_values(self) -> Seq<TermV> {
        match self.variant_name() {
            Some(n) => seq![n] + self.values(),
            None => self.values(),
        }
    }

    /// An empty map; `len` is a capacity hint.
    pub fn new(ser: Serializer, len: Option<usize>) -> (m: MapSerializer)
        ensures
            m.serializer() == ser,
            m.keys() == Seq::<TermV>::empty(),
            m.values() == Seq::<TermV>::empty(),
            m.variant_name() is None,
    {
        let m = MapSerializer { ser, keys: Vec::new(), values: Vec::new(), struct_variant_name: None };
        assert(terms_view(m.keys@) =~= Seq::<TermV>::empty());
        assert(terms_view(m.values@) =~= Seq::<TermV>::empty());
        m
    }

    /// The same map, for the struct variant named `name`.
    pub fn with_struct_variant_name(self, name: Term) -> (m: MapSerializer)
        ensures
            m.serializer() == self.serializer(),
            m.keys() == self.keys(),
            m.values() == self.values(),
            m.variant_name() == Some(name@),
    {
        proof {
            use_type_invariant(&self);
        }
        let mut m = self;
        m.struct_variant_name = Some(name);
        m
    }

    /// The serializer that keys and values are serialized with.
    pub fn ser(&self) -> (s: Serializer)
        ensures
            s == self.serializer(),
    {
        self.ser
    }

    /// Adds a key; refused when the last key has no value yet.
    pub fn add_key(&mut self, term: Term) -> (r: Result<(), SerdeError>)
        ensures
            final(self).serializer() == old(self).serializer(),
            final(self).variant_name() == old(self).variant_name(),
            final(self).values() == old(self).values(),
            old(self).keys().len() == old(self).values().len() ==> r is Ok && final(self).keys()
                == old(self).keys().push(term@),
            old(self).keys().len() != old(self).values().len() ==> final(self).keys() == old(self).keys()
                && (r matches Err(SerdeError::SerializationError(m)) && m@
                == "MapSerializer::add_key called twice in a row"@),
    {
        proof {
            use_type_invariant(&*self);
            lemma_terms_view(self.keys@);
            lemma_terms_view(self.values@);
        }
        if self.keys.len() == self.values.len() {
            let mut taken = MapSerializer::new(self.ser, None);
            core::mem::swap(self, &mut taken);
            let MapSerializer { ser, mut keys, values, struct_variant_name } = taken;
            keys.push(term);
            proof {
                lemma_terms_view(keys@);
                assert(terms_view(keys@) =~= terms_view(old(self).keys@).push(term@));
            }
            *self = MapSerializer { ser, keys, values, struct_variant_name };
            Ok(())
        } else {
            Err(SerdeError::SerializationError(String::from_str("MapSerializer::add_key called twice in a row")))
        }
    }

    /// Adds the value of the last key; refused when there is no key waiting for one.
    pub fn add_val(&mut self, term: Term) -> (r: Result<(), SerdeError>)
        ensures
            final(self).serializer() == old(self).serializer(),
            final(self).variant_name() == old(self).variant_name(),
            final(self).keys() == old(self).keys(),
            old(self).keys().len() == old(self).values().len() + 1 ==> r is Ok && final(self).values()
                == old(self).values().push(term@),
            old(self).keys().len() != old(self).values().len() + 1 ==> final(self).values() == old(self).values()
                && (r matches Err(SerdeError::SerializationError(m)) && m@
                == "MapSerializer::add_val called incorrectly"@),
    {
        proof {
            use_type_invariant(&*self);
            lemma_terms_view(self.keys@);
            lemma_terms_view(self.values@);
        }
        if self.keys.len() > self.values.len() {
            let mut taken = MapSerializer::new(self.ser, None);
            core::mem::swap(self, &mut taken);
            let MapSerializer { ser, keys, mut values, struct_variant_name } = taken;
            values.push(term);
            proof {
                lemma_terms_view(values@);
                assert(terms_view(values@) =~= terms_view(old(self).values@).push(term@));
            }
            *self = MapSerializer { ser, keys, values, struct_variant_name };
            Ok(())
        } else {
            Err(SerdeError::SerializationError(String::from_str("MapSerializer::add_val called incorrectly")))
        }
    }

    /// Adds a key, given its serialization; an error is passed on and nothing is added.
    pub fn serialize_key(&mut self, key: Result<Term, SerdeError>) -> (r: Result<(), SerdeError>)
        ensures
            final(self).serializer() == old(self).serializer(),
            final(self).variant_name() == old(self).variant_name(),
            final(self).values() == old(self).values(),
            match key {
                Ok(t) => if old(self).keys().len() == old(self).values().len() {
                    r is Ok && final(self).keys() == old(self).keys().push(t@)
                } else {
                    r is Err && final(self).keys() == old(self).keys()
                },
                Err(e) => r == Err::<(), SerdeError>(e) && final(self).keys() == old(self).keys(),
            },
    {
        let t = key?;
        self.add_key(t)
    }

    /// Adds the value of the last key, given its serialization; an error is passed on and
    /// nothing is added.
    pub fn serialize_value(&mut self, value: Result<Term, SerdeError>) -> (r: Result<(), SerdeError>)
        ensures
            final(self).serializer() == old(self).serializer(),
            final(self).variant_name() == old(self).variant_name(),
            final(self).keys() == old(self).keys(),
            match value {
                Ok(t) => if old(self).keys().len() == old(self).values().len() + 1 {
                    r is Ok && final(self).values() == old(self).values().push(t@)
                } else {
                    r is Err && final(self).values() == old(self).values()
                },
                Err(e) => r == Err::<(), SerdeError>(e) && final(self).values() == old(self).values(),
            },
    {
        let t = value?;
        self.add_val(t)
    }

    /// Adds the field `key` (as a string) with its value, given the value's serialization.
    /// The key is added before the value's error, if any, is passed on.
    pub fn serialize_field(&mut self, key: &str, value: Result<Term, SerdeError>) -> (r: Result<(), SerdeError>)
        ensures
            final(self).serializer() == old(self).serializer(),
            final(self).variant_name() == old(self).variant_name(),
            old(self).keys().len() != old(self).values().len() ==> r is Err && final(self).keys()
                == old(self).keys() && final(self).values() == old(self).values(),
            old(self).keys().len() == old(self).values().len() ==> final(self).keys() == old(self).keys().push(
                string_encoding(key@),
            ) && match value {
                Ok(t) => r is Ok && final(self).values() == old(self).values().push(t@),
                Err(e) => r == Err::<(), SerdeError>(e) && final(self).values() == old(self).values(),
            },
    {
        let key_term = str_to_term(key);
        self.add_key(key_term)?;
        let t = value?;
        self.add_val(t)
    }

    /// The map from the keys to the values; a struct variant's map also maps `__struct__`
    /// to the variant's name. Refused when a key has no value or two keys are equal.
    pub fn to_map(&self) -> (r: Result<Term, SerdeError>)
        ensures
            r is Ok <==> self.keys().len() == self.values().len() && distinct_keys(
                zip_entries(self.map_keys(), self.map_values()),
            ),
            r matches Ok(t) ==> t@ == TermV::MapTerm(zip_entries(self.map_keys(), self.map_values())),
            r matches Err(e) ==> e is InvalidMap,
    {
        proof {
            lemma_terms_view(self.keys@);
            lemma_terms_view(self.values@);
        }
        let mut keys: Vec<Term> = Vec::new();
        let mut values: Vec<Term> = Vec::new();
        if let Some(name) = &self.struct_variant_name {
            keys.push(atoms::named("__struct__"));
            values.push(name.duplicate());
        }
        let ghost k0 = keys@;
        let ghost v0 = values@;
        let mut more_keys = Term::duplicate_all(&self.keys);
        let mut more_values = Term::duplicate_all(&self.values);
        let ghost dk = more_keys@;
        let ghost dv = more_values@;
        keys.append(&mut more_keys);
        values.append(&mut more_values);
        proof {
            lemma_terms_view(keys@);
            lemma_terms_view(values@);
            lemma_terms_view(k0);
            lemma_terms_view(v0);
            lemma_terms_view(self.keys@);
            lemma_terms_view(self.values@);
            lemma_terms_view(dk);
            lemma_terms_view(dv);
            assert(keys@ =~= k0 + dk);
            assert(values@ =~= v0 + dv);
            assert forall|i: int| 0 <= i < keys@.len() implies #[trigger] terms_view(keys@)[i] == self.map_keys()[i] by {
                if i >= k0.len() {
                    assert(keys@[i] == dk[i - k0.len()]);
                    assert(terms_view(dk)[i - k0.len()] == terms_view(self.keys@)[i - k0.len()]);
                }
            }
            assert forall|i: int| 0 <= i < values@.len() implies #[trigger] terms_view(values@)[i] == self.map_values()[i] by {
                if i >= v0.len() {
                    assert(values@[i] == dv[i - v0.len()]);
                    assert(terms_view(dv)[i - v0.len()] == terms_view(self.values@)[i - v0.len()]);
                }
            }
            assert(terms_view(keys@) =~= self.map_keys());
            assert(terms_view(values@) =~= self.map_values());
        }
        match make_map_from_arrays(keys, values) {
            Ok(t) => Ok(t),
            Err(_) => Err(SerdeError::InvalidMap),
        }
    }
}

} // verus!
