//! Conversion of values that serde can describe into Erlang terms.
use vstd::prelude::*;

use crate::term::Term;

pub mod atoms;
pub mod error;
pub mod ser;
pub mod util;

verus! {

/// A term handed to or taken from serde.
pub struct SerdeTerm(pub Term);

impl SerdeTerm {
    pub fn from_term(term: Term) -> (r: SerdeTerm)
        ensures
            r.0 == term,
    {
        SerdeTerm(term)
    }

    pub fn into_term(self) -> (t: Term)
        ensures
            t == self.0,
    {
        self.0
    }
}

} // verus!
