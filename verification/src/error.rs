use vstd::prelude::*;

use crate::atom::{self, Atom, atom_v, string_is};
use crate::returned::{NifReturnable, NifReturned, NifReturnedV, ContinuationV, Continuation};
use crate::term::{Term, TermV, lemma_terms_view};
use crate::types::{
    Decoder, Encoder, Modeled, Transcoder, str_to_term, string_decoding, string_encoding,
    term_to_string,
};

verus! {

broadcast use {vstd::utf8::encode_utf8_decode_utf8, vstd::utf8::encode_utf8_valid_utf8};

/// The errors a NIF can return or raise.
pub enum Error {
    /// The NIF was called with the wrong number or type of arguments.
    BadArg,
    /// Returns `{error, Atom}` (in Gleam, `Error(atom)`).
    Atom(String),
    /// Raises the atom as an exception.
    RaiseAtom(String),
    /// Returns `{error, Term}` (in Gleam, `Error(term)`): a descriptive error with context.
    RaiseTerm(Term),
    /// Returns `{error, Term}` (in Gleam, `Error(term)`).
    Term(Term),
    /// The NIF panicked; carries a readable message.
    Panic(String),
}

pub type NifResult<T> = Result<T, Error>;

/// What returning an error from a NIF does.
pub open spec fn error_outcome(e: Error) -> NifReturnedV {
    match e {
        Error::BadArg => NifReturnedV::BadArg,
        Error::Atom(s) => if atom_name_fits(s@) {
            NifReturnedV::Term(atom_v(s@))
        } else {
            NifReturnedV::BadArg
        },
        Error::RaiseAtom(s) => if atom_name_fits(s@) {
            NifReturnedV::Raise(atom_v(s@))
        } else {
            NifReturnedV::BadArg
        },
        Error::RaiseTerm(t) => NifReturnedV::Term(TermV::Tuple(seq![atom_v("error"@), t@])),
        Error::Term(t) => NifReturnedV::Term(TermV::Tuple(seq![atom_v("error"@), t@])),
        Error::Panic(msg) => NifReturnedV::Raise(
            TermV::Tuple(seq![atom_v("nif_panicked"@), string_encoding(msg@)]),
        ),
    }
}

/// An atom name is accepted when its UTF-8 encoding fits in 255 bytes.
pub open spec fn atom_name_fits(s: Seq<char>) -> bool {
    vstd::utf8::encode_utf8(s).len() <= 255
}

impl Error {
    /// `Error::Term` holding the encoding of `value`.
    pub fn term<T: Encoder>(value: T) -> (r: Error)
        ensures
            r matches Error::Term(t) && t@ == T::encoding(value.model()),
    {
        Error::Term(value.encode())
    }

    /// `Error::RaiseTerm` holding the encoding of `value`.
    pub fn raise_term<T: Encoder>(value: T) -> (r: Error)
        ensures
            r matches Error::RaiseTerm(t) && t@ == T::encoding(value.model()),
    {
        Error::RaiseTerm(value.encode())
    }

    /// The debug form of the error.
    pub fn debug_string(&self) -> (r: String)
        ensures
            r@ == (match self {
                Error::BadArg => "{error, badarg}"@,
                Error::Atom(s) => "{error, "@ + s@ + "}"@,
                Error::RaiseAtom(s) => "throw("@ + s@ + ")"@,
                Error::RaiseTerm(_) => "throw(<term>)"@,
                Error::Term(_) => "{error, <term>}"@,
                Error::Panic(s) => "panic("@ + s@ + ")"@,
            }),
    {
        match self {
            Error::BadArg => String::from_str("{error, badarg}"),
            Error::Atom(s) => {
                let mut r = String::from_str("{error, ");
                r.append(s.as_str());
                r.append("}");
                r
            },
            Error::RaiseAtom(s) => {
                let mut r = String::from_str("throw(");
                r.append(s.as_str());
                r.append(")");
                r
            },
            Error::RaiseTerm(_) => String::from_str("throw(<term>)"),
            Error::Term(_) => String::from_str("{error, <term>}"),
            Error::Panic(s) => {
                let mut r = String::from_str("panic(");
                r.append(s.as_str());
                r.append(")");
                r
            },
        }
    }
}

impl NifReturnable for Error {
    open spec fn yields(&self) -> bool {
        false
    }

    open spec fn outcome(&self, cont: Option<ContinuationV>) -> NifReturnedV {
        error_outcome(*self)
    }

    fn into_returned(self, cont: &Option<Continuation>) -> (r: NifReturned) {
        match self {
            Error::BadArg => NifReturned::BadArg,
            Error::Atom(s) => match Atom::from_str(s.as_str()) {
                Ok(a) => NifReturned::Term(a.to_term()),
                Err(_) => NifReturned::BadArg,
            },
            Error::RaiseAtom(s) => match Atom::from_str(s.as_str()) {
                Ok(a) => NifReturned::Raise(a.to_term()),
                Err(_) => NifReturned::BadArg,
            },
            Error::RaiseTerm(t) => NifReturned::Term(Term::pair(atom::error().to_term(), t)),
            Error::Term(t) => NifReturned::Term(Term::pair(atom::error().to_term(), t)),
            Error::Panic(msg) => NifReturned::Raise(
                Term::pair(atom::nif_panicked().to_term(), str_to_term(msg.as_str())),
            ),
        }
    }
}

/// Errors that a NIF marked `safe` hands back to Gleam as `Error(GleamlerError)`.
#[derive(Debug, Clone, PartialEq, Eq)]
pub enum GleamlerError {
    BadArg,
    Panic(String),
    Custom(String),
}

/// The mathematical value of a [`GleamlerError`].
pub enum GleamlerErrorV {
    BadArg,
    Panic(Seq<char>),
    Custom(Seq<char>),
}

impl Modeled for GleamlerError {
    type M = GleamlerErrorV;

    open spec fn model(&self) -> GleamlerErrorV {
        match self {
            GleamlerError::BadArg => GleamlerErrorV::BadArg,
            GleamlerError::Panic(m) => GleamlerErrorV::Panic(m@),
            GleamlerError::Custom(m) => GleamlerErrorV::Custom(m@),
        }
    }
}

impl Encoder for GleamlerError {
    open spec fn encoding(m: GleamlerErrorV) -> TermV {
        match m {
            GleamlerErrorV::BadArg => atom_v("bad_arg"@),
            GleamlerErrorV::Panic(msg) => TermV::Tuple(seq![atom_v("panic"@), string_encoding(msg)]),
            GleamlerErrorV::Custom(msg) => TermV::Tuple(seq![atom_v("custom"@), string_encoding(msg)]),
        }
    }

    fn encode(&self) -> (t: Term) {
        match self {
            GleamlerError::BadArg => Atom::named("bad_arg").to_term(),
            GleamlerError::Panic(msg) => Term::pair(
                Atom::named("panic").to_term(),
                str_to_term(msg.as_str()),
            ),
            GleamlerError::Custom(msg) => Term::pair(
                Atom::named("custom").to_term(),
                str_to_term(msg.as_str()),
            ),
        }
    }
}

impl Decoder for GleamlerError {
    open spec fn decoding(t: TermV) -> Option<GleamlerErrorV> {
        match t {
            TermV::Atom(a) => if a == "bad_arg"@ || a == "badarg"@ {
                Some(GleamlerErrorV::BadArg)
            } else {
                None
            },
            TermV::Tuple(s) => if s.len() == 2 && s[0] is Atom && string_decoding(s[1]) is Some {
                if s[0]->Atom_0 == "panic"@ {
                    Some(GleamlerErrorV::Panic(string_decoding(s[1])->Some_0))
                } else if s[0]->Atom_0 == "custom"@ {
                    Some(GleamlerErrorV::Custom(string_decoding(s[1])->Some_0))
                } else {
                    None
                }
            } else {
                None
            },
            _ => None,
        }
    }

    fn decode(term: &Term) -> (r: NifResult<GleamlerError>) {
        match term {
            Term::Atom(s) => {
                if string_is(s, "bad_arg") || string_is(s, "badarg") {
                    Ok(GleamlerError::BadArg)
                } else {
                    Err(Error::BadArg)
                }
            },
            Term::Tuple(v) => {
                proof { lemma_terms_view(v@); }
                if v.len() != 2 {
                    return Err(Error::BadArg);
                }
                let tag = match &v[0] {
                    Term::Atom(s) => s,
                    _ => return Err(Error::BadArg),
                };
                let msg = match term_to_string(&v[1]) {
                    Ok(m) => m,
                    Err(e) => return Err(e),
                };
                if string_is(tag, "panic") {
                    Ok(GleamlerError::Panic(msg))
                } else if string_is(tag, "custom") {
                    Ok(GleamlerError::Custom(msg))
                } else {
                    Err(Error::BadArg)
                }
            },
            _ => Err(Error::BadArg),
        }
    }
}

impl Transcoder for GleamlerError {
    proof fn lemma_decode_encode(v: &Self) {
        atom::lemma_names_distinct();
    }
}

} // verus!

verus! {

/// What returning each error does: `RaiseAtom` and `Panic` raise an exception, the others
/// hand a value back. An atom error with a name that fits gives the atom itself, raised
/// for `RaiseAtom` and returned for `Atom`; a term error gives the tuple `{error, Term}`,
/// returned (for `RaiseTerm` too, as its documentation says); a panic raises
/// `{nif_panicked, Message}`.
pub proof fn lemma_raised_or_returned(e: Error)
    ensures
        match e {
            Error::RaiseAtom(s) => atom_name_fits(s@) ==> error_outcome(e) == NifReturnedV::Raise(
                TermV::Atom(s@),
            ),
            Error::Atom(s) => atom_name_fits(s@) ==> error_outcome(e) == NifReturnedV::Term(TermV::Atom(s@)),
            Error::Panic(m) => error_outcome(e) == NifReturnedV::Raise(
                TermV::Tuple(seq![TermV::Atom("nif_panicked"@), TermV::Binary(vstd::utf8::encode_utf8(m@))]),
            ),
            Error::Term(t) => error_outcome(e) == NifReturnedV::Term(
                TermV::Tuple(seq![TermV::Atom("error"@), t@]),
            ),
            Error::RaiseTerm(t) => error_outcome(e) == NifReturnedV::Term(
                TermV::Tuple(seq![TermV::Atom("error"@), t@]),
            ),
            Error::BadArg => error_outcome(e) == NifReturnedV::BadArg,
        },
        (error_outcome(e) is Raise) <==> (e is Panic || (e is RaiseAtom && atom_name_fits(e->RaiseAtom_0@))),
{
}

} // verus!
