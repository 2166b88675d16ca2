use vstd::prelude::*;

use crate::error::{Error, NifResult};
use crate::term::{Term, TermV};

verus! {

/// The longest atom name, in bytes, that the VM accepts.
pub const MAX_ATOM_BYTES: usize = 255;

/// An Erlang atom: a name.
pub struct Atom {
    name: String,
}

impl View for Atom {
    type V = Seq<char>;

    closed spec fn view(&self) -> Seq<char> {
        self.name@
    }
}

/// `s` and `lit` spell the same characters.
pub fn string_is(s: &String, lit: &str) -> (r: bool)
    ensures
        r == (s@ == lit@),
{
    let l = String::from_str(lit);
    s.eq(&l)
}

impl Atom {
    /// Makes an atom with the given name; names longer than 255 bytes are refused.
    pub fn from_str(s: &str) -> (r: NifResult<Atom>)
        ensures
            r is Ok <==> crate::error::atom_name_fits(s@),
            r matches Ok(a) ==> a@ == s@,
            r matches Err(e) ==> e is BadArg,
    {
        if s.as_bytes().len() > MAX_ATOM_BYTES {
            Err(Error::BadArg)
        } else {
            Ok(Atom { name: String::from_str(s) })
        }
    }

    /// An atom whose name is known to be short enough.
    pub(crate) fn named(s: &str) -> (a: Atom)
        ensures
            a@ == s@,
    {
        Atom { name: String::from_str(s) }
    }

    /// The atom as a term.
    pub fn to_term(&self) -> (t: Term)
        ensures
            t@ == TermV::Atom(self@),
    {
        Term::Atom(self.name.clone())
    }

    /// The name of the atom.
    pub fn name(&self) -> (s: String)
        ensures
            s@ == self@,
    {
        self.name.clone()
    }

    /// Whether two atoms are the same atom.
    pub fn same(&self, other: &Atom) -> (r: bool)
        ensures
            r == (self@ == other@),
    {
        self.name.eq(&other.name)
    }

    /// Whether the atom is named `lit`.
    pub fn is(&self, lit: &str) -> (r: bool)
        ensures
            r == (self@ == lit@),
    {
        string_is(&self.name, lit)
    }

    /// Reads an atom out of a term.
    pub fn from_term(t: &Term) -> (r: NifResult<Atom>)
        ensures
            r is Ok <==> t@ is Atom,
            r matches Ok(a) ==> t@ == TermV::Atom(a@),
            r matches Err(e) ==> e is BadArg,
    {
        match t {
            Term::Atom(s) => Ok(Atom { name: s.clone() }),
            _ => Err(Error::BadArg),
        }
    }
}

/// An atom term with the given name.
pub open spec fn atom_v(name: Seq<char>) -> TermV {
    TermV::Atom(name)
}

pub fn ok() -> (a: Atom) ensures a@ == "ok"@ { Atom::named("ok") }
pub fn error() -> (a: Atom) ensures a@ == "error"@ { Atom::named("error") }
pub fn some() -> (a: Atom) ensures a@ == "some"@ { Atom::named("some") }
pub fn none() -> (a: Atom) ensures a@ == "none"@ { Atom::named("none") }
pub fn nil() -> (a: Atom) ensures a@ == "nil"@ { Atom::named("nil") }
pub fn true_() -> (a: Atom) ensures a@ == "true"@ { Atom::named("true") }
pub fn false_() -> (a: Atom) ensures a@ == "false"@ { Atom::named("false") }
pub fn nif_panicked() -> (a: Atom) ensures a@ == "nif_panicked"@ { Atom::named("nif_panicked") }

/// The literal names used by the term encodings are pairwise different.
pub proof fn lemma_names_distinct()
    ensures
        "ok"@ != "error"@,
        "some"@ != "none"@,
        "some"@ != "nil"@,
        "none"@ != "nil"@,
        "true"@ != "false"@,
        "bad_arg"@ != "badarg"@,
        "panic"@ != "custom"@,
        "bad_arg"@ != "panic"@,
        "bad_arg"@ != "custom"@,
        "badarg"@ != "panic"@,
        "badarg"@ != "custom"@,
{
    reveal_strlit("ok");
    reveal_strlit("error");
    reveal_strlit("some");
    reveal_strlit("none");
    reveal_strlit("nil");
    reveal_strlit("true");
    reveal_strlit("false");
    reveal_strlit("bad_arg");
    reveal_strlit("badarg");
    reveal_strlit("panic");
    reveal_strlit("custom");
    assert("ok"@.len() != "error"@.len());
    assert("some"@[0] != "none"@[0]);
    assert("some"@.len() != "nil"@.len());
    assert("none"@.len() != "nil"@.len());
    assert("true"@.len() != "false"@.len());
    assert("bad_arg"@.len() != "badarg"@.len());
    assert("panic"@.len() != "custom"@.len());
    assert("bad_arg"@.len() != "panic"@.len());
    assert("bad_arg"@.len() != "custom"@.len());
    assert("badarg"@[0] != "panic"@[0]);
    assert("badarg"@[0] != "custom"@[0]);
}

/// Decodes `true` and `false`.
pub fn decode_bool(t: &Term) -> (r: NifResult<bool>)
    ensures
        r matches Ok(b) ==> t@ == atom_v(if b { "true"@ } else { "false"@ }),
        r is Ok <==> (t@ == atom_v("true"@) || t@ == atom_v("false"@)),
        r matches Err(e) ==> e is BadArg,
{
    proof { lemma_names_distinct(); }
    match t {
        Term::Atom(s) => {
            if string_is(s, "true") {
                Ok(true)
            } else if string_is(s, "false") {
                Ok(false)
            } else {
                Err(Error::BadArg)
            }
        },
        _ => Err(Error::BadArg),
    }
}

} // verus!
