use vstd::prelude::*;

use crate::atom::{Atom, atom_v};
use crate::error::atom_name_fits;
use crate::serde::error::SerdeError;
use crate::term::{Term, TermV};

verus! {

/// The name of an atom term.
pub fn term_to_string(term: &Term) -> (r: Result<String, SerdeError>)
    ensures
        match term@ {
            TermV::Atom(name) => r matches Ok(s) && s@ == name,
            _ => r matches Err(e) && e is InvalidAtom,
        },
{
    match term {
        Term::Atom(s) => Ok(s.clone()),
        _ => Err(SerdeError::InvalidAtom),
    }
}

/// The atom named `s`; names longer than 255 bytes are refused.
pub fn str_to_term(s: &str) -> (r: Result<Term, SerdeError>)
    ensures
        r is Ok <==> atom_name_fits(s@),
        r matches Ok(t) ==> t@ == atom_v(s@),
        r matches Err(e) ==> e is InvalidAtom,
{
    match Atom::from_str(s) {
        Ok(a) => Ok(a.to_term()),
        Err(_) => Err(SerdeError::InvalidAtom),
    }
}

/// The atom named `s`, for the fixed names below 255 bytes that serialization uses.
pub(crate) fn named(s: &str) -> (t: Term)
    ensures
        t@ == atom_v(s@),
{
    Atom::named(s).to_term()
}

} // verus!
