//! An optional value written the way Erlang APIs write one: the value itself when there
//! is one, the atom `undefined` when there is none.
use vstd::prelude::*;

use crate::atom::{Atom, atom_v, string_is};
use crate::error::{Error, NifResult};
use crate::term::{Term, TermV};
use crate::types::{Decoder, Encoder, Modeled};

verus! {

/// An optional value whose term is the value's own, or `undefined`.
pub struct ErlOption<T> {
    inner: Option<T>,
}

impl<T> ErlOption<T> {
    /// The value held, if any.
    pub closed spec fn spec_inner(&self) -> Option<T> {
        self.inner
    }

    /// Holds `v`.
    pub fn some(v: T) -> (r: ErlOption<T>)
        ensures
            r.spec_inner() == Some(v),
    {
        ErlOption { inner: Some(v) }
    }

    /// Holds nothing.
    pub fn none() -> (r: ErlOption<T>)
        ensures
            r.spec_inner() is None,
    {
        ErlOption { inner: None }
    }

    /// Holds what `o` holds.
    pub fn from_option(o: Option<T>) -> (r: ErlOption<T>)
        ensures
            r.spec_inner() == o,
    {
        ErlOption { inner: o }
    }

    /// The value held, if any, by reference.
    pub fn as_ref(&self) -> (r: Option<&T>)
        ensures
            r == match self.spec_inner() {
                Some(v) => Some(&v),
                None => None::<&T>,
            },
    {
        match &self.inner {
            Some(v) => Some(v),
            None => None,
        }
    }

    /// The value held, if any.
    pub fn into_option(self) -> (r: Option<T>)
        ensures
            r == self.spec_inner(),
    {
        self.inner
    }
}

impl<T: Modeled> Modeled for ErlOption<T> {
    type M = Option<T::M>;

    open spec fn model(&self) -> Option<T::M> {
        match self.spec_inner() {
            Some(v) => Some(v.model()),
            None => None,
        }
    }
}

/// The atom that stands for no value.
pub open spec fn undefined_v() -> TermV {
    atom_v("undefined"@)
}

impl<T: Encoder> Encoder for ErlOption<T> {
    open spec fn encoding(m: Option<T::M>) -> TermV {
        match m {
            Some(x) => T::encoding(x),
            None => undefined_v(),
        }
    }

    fn encode(&self) -> (t: Term) {
        match &self.inner {
            Some(v) => v.encode(),
            None => Atom::named("undefined").to_term(),
        }
    }
}

/// A term is read as the value when it decodes as one; otherwise only `undefined` is
/// accepted, as no value.
impl<T: Decoder> Decoder for ErlOption<T> {
    open spec fn decoding(t: TermV) -> Option<Option<T::M>> {
        match T::decoding(t) {
            Some(x) => Some(Some(x)),
            None => if t == undefined_v() { Some(None) } else { None },
        }
    }

    fn decode(term: &Term) -> (r: NifResult<ErlOption<T>>) {
        match T::decode(term) {
            Ok(v) => Ok(ErlOption::some(v)),
            Err(_) => match term {
                Term::Atom(name) => if string_is(name, "undefined") {
                    Ok(ErlOption::none())
                } else {
                    Err(Error::BadArg)
                },
                _ => Err(Error::BadArg),
            },
        }
    }
}

/// Reading back an encoded optional value gives it back, except where there is no value
/// and the atom `undefined` reads as a value of `T` itself.
pub proof fn lemma_erl_option_roundtrip<T: crate::types::Transcoder>(v: &ErlOption<T>)
    requires
        v.spec_inner() is None ==> T::decoding(undefined_v()) is None,
    ensures
        <ErlOption<T> as Decoder>::decoding(<ErlOption<T> as Encoder>::encoding(v.model())) == Some(v.model()),
{
    match v.spec_inner() {
        Some(x) => T::lemma_decode_encode(&x),
        None => {},
    }
}

} // verus!
