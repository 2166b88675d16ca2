use vstd::prelude::*;

use crate::atom;
use crate::error::Error;
use crate::schedule::SchedulerFlags;
use crate::term::{Term, TermV, lemma_terms_view, terms_view};
use crate::types::{Encoder, Modeled};

verus! {

/// What a NIF hands back to the VM.
pub enum NifReturned {
    /// Return this term.
    Term(Term),
    /// Raise this term as an exception.
    Raise(Term),
    /// Raise `badarg`.
    BadArg,
    /// Run the NIF again later, in a fresh timeslice.
    Reschedule { fun_name: String, flags: SchedulerFlags, fun: usize, args: Vec<Term> },
}

/// The mathematical value of a [`NifReturned`].
pub enum NifReturnedV {
    Term(TermV),
    Raise(TermV),
    BadArg,
    Reschedule { fun_name: Seq<char>, flags: SchedulerFlags, fun: usize, args: Seq<TermV> },
}

impl View for NifReturned {
    type V = NifReturnedV;

    open spec fn view(&self) -> NifReturnedV {
        match self {
            NifReturned::Term(t) => NifReturnedV::Term(t@),
            NifReturned::Raise(t) => NifReturnedV::Raise(t@),
            NifReturned::BadArg => NifReturnedV::BadArg,
            NifReturned::Reschedule { fun_name, flags, fun, args } => NifReturnedV::Reschedule {
                fun_name: fun_name@,
                flags: *flags,
                fun: *fun,
                args: terms_view(args@),
            },
        }
    }
}

/// The NIF that is running: its name, its entry point and its arguments, so that it can be
/// scheduled again.
pub struct Continuation {
    pub name: String,
    pub fun: usize,
    pub args: Vec<Term>,
}

/// The mathematical value of a [`Continuation`].
pub struct ContinuationV {
    pub name: Seq<char>,
    pub fun: usize,
    pub args: Seq<TermV>,
}

impl View for Continuation {
    type V = ContinuationV;

    open spec fn view(&self) -> ContinuationV {
        ContinuationV { name: self.name@, fun: self.fun, args: terms_view(self.args@) }
    }
}

pub open spec fn opt_view(c: &Option<Continuation>) -> Option<ContinuationV> {
    match c {
        Some(k) => Some(k@),
        None => None,
    }
}

/// Values a NIF can return.
pub trait NifReturnable: Sized {
    /// Whether returning this value reschedules the NIF (which needs the running NIF's
    /// continuation).
    spec fn yields(&self) -> bool;

    /// What returning this value hands back to the VM.
    spec fn outcome(&self, cont: Option<ContinuationV>) -> NifReturnedV;

    fn into_returned(self, cont: &Option<Continuation>) -> (r: NifReturned)
        requires
            self.yields() ==> cont is Some,
        ensures
            r@ == self.outcome(opt_view(cont)),
    ;
}

impl<T: Encoder> NifReturnable for T {
    open spec fn yields(&self) -> bool {
        false
    }

    open spec fn outcome(&self, cont: Option<ContinuationV>) -> NifReturnedV {
        NifReturnedV::Term(T::encoding(self.model()))
    }

    fn into_returned(self, cont: &Option<Continuation>) -> (r: NifReturned) {
        NifReturned::Term(self.encode())
    }
}

impl<T: NifReturnable> NifReturnable for Result<T, Error> {
    open spec fn yields(&self) -> bool {
        match self {
            Ok(v) => v.yields(),
            Err(_) => false,
        }
    }

    open spec fn outcome(&self, cont: Option<ContinuationV>) -> NifReturnedV {
        match self {
            Ok(v) => v.outcome(cont),
            Err(e) => e.outcome(cont),
        }
    }

    fn into_returned(self, cont: &Option<Continuation>) -> (r: NifReturned) {
        match self {
            Ok(v) => v.into_returned(cont),
            Err(e) => e.into_returned(cont),
        }
    }
}

/// The result of a NIF that may give the scheduler back before it is done.
pub enum NifOutcome<T> {
    /// The NIF is done with this value.
    Done(T),
    /// The NIF wants to run again later, with these scheduler flags.
    Yield(SchedulerFlags),
}

impl<T: NifReturnable> NifReturnable for NifOutcome<T> {
    open spec fn yields(&self) -> bool {
        match self {
            NifOutcome::Done(v) => v.yields(),
            NifOutcome::Yield(_) => true,
        }
    }

    open spec fn outcome(&self, cont: Option<ContinuationV>) -> NifReturnedV {
        match self {
            NifOutcome::Done(v) => v.outcome(cont),
            NifOutcome::Yield(flags) => NifReturnedV::Reschedule {
                fun_name: cont->Some_0.name,
                flags: *flags,
                fun: cont->Some_0.fun,
                args: cont->Some_0.args,
            },
        }
    }

    fn into_returned(self, cont: &Option<Continuation>) -> (r: NifReturned) {
        match self {
            NifOutcome::Done(v) => v.into_returned(cont),
            NifOutcome::Yield(flags) => {
                let k = cont.as_ref().unwrap();
                NifReturned::Reschedule {
                    fun_name: k.name.clone(),
                    flags,
                    fun: k.fun,
                    args: Term::duplicate_all(&k.args),
                }
            },
        }
    }
}

/// What a panic in a NIF call raises: `{nif_panicked, Info}`, with the information captured
/// at the panic (its message and backtrace) as a UTF-8 binary.
pub open spec fn panic_raise(info: Seq<char>) -> NifReturnedV {
    NifReturnedV::Raise(TermV::Tuple(seq![TermV::Atom("nif_panicked"@), crate::types::string_encoding(info)]))
}

/// What a NIF call hands back: its value, or, where it panicked (`Err`, with the
/// information captured at the panic), `{nif_panicked, Info}` raised.
pub fn handle_nif_result<T: NifReturnable>(result: Result<T, String>, cont: &Option<Continuation>) -> (r:
    NifReturned)
    requires
        result matches Ok(v) ==> (v.yields() ==> cont is Some),
    ensures
        r@ == (match result {
            Ok(v) => v.outcome(opt_view(cont)),
            Err(info) => panic_raise(info@),
        }),
{
    match result {
        Ok(v) => v.into_returned(cont),
        Err(info) => NifReturned::Raise(
            Term::pair(atom::nif_panicked().to_term(), crate::types::str_to_term(info.as_str())),
        ),
    }
}

/// The load callback reports success to the VM as 0 and failure, or a panic (`None`), as 1.
pub fn handle_nif_init_call(loaded: Option<bool>) -> (r: i32)
    ensures
        r == (if loaded == Some(true) { 0i32 } else { 1i32 }),
{
    match loaded {
        Some(true) => 0,
        _ => 1,
    }
}

/// NIF versions that a library can ask for as its minimum.
#[derive(Clone, Copy, Debug, PartialEq, Eq, Structural)]
pub enum NifVersion {
    V2_14,
    V2_15,
    V2_16,
    V2_17,
    V2_18,
}

/// The NIF version the library is built for.
pub const NIF_VERSION: NifVersion = NifVersion::V2_17;

/// The oldest Erlang/OTP release that supports a NIF version.
pub open spec fn min_erts_name(version: NifVersion) -> Seq<char> {
    match version {
        NifVersion::V2_18 => "OTP-29.0"@,
        NifVersion::V2_17 => "OTP-26.0"@,
        NifVersion::V2_16 => "OTP-24.0"@,
        NifVersion::V2_15 => "OTP-22.0"@,
        NifVersion::V2_14 => "OTP-21.0"@,
    }
}

/// The oldest Erlang/OTP release that supports a NIF version.
pub fn min_erts_for(version: NifVersion) -> (r: &'static str)
    ensures
        r@ == min_erts_name(version),
        r@ == (match version {
            NifVersion::V2_18 => "OTP-29.0"@,
            NifVersion::V2_17 => "OTP-26.0"@,
            NifVersion::V2_16 => "OTP-24.0"@,
            NifVersion::V2_15 => "OTP-22.0"@,
            NifVersion::V2_14 => "OTP-21.0"@,
        }),
{
    match version {
        NifVersion::V2_18 => "OTP-29.0",
        NifVersion::V2_17 => "OTP-26.0",
        NifVersion::V2_16 => "OTP-24.0",
        NifVersion::V2_15 => "OTP-22.0",
        NifVersion::V2_14 => "OTP-21.0",
    }
}

/// The oldest Erlang/OTP release the library runs on, as the zero-terminated string that
/// the NIF entry carries.
pub fn min_erts() -> (r: Vec<u8>)
    ensures
        r@ == min_erts_name(NIF_VERSION).map_values(|c: char| c as u8).push(0u8),
{
    let s = min_erts_for(NIF_VERSION);
    proof { reveal_strlit("OTP-26.0"); }
    let mut r: Vec<u8> = s.as_bytes_vec();
    r.push(0u8);
    proof {
        vstd::string::is_ascii_spec_bytes(s);
        assert(vstd::string::is_ascii(s));
        assert(r@ =~= s@.map_values(|c: char| c as u8).push(0u8));
    }
    r
}

/// A NIF as the VM sees it: its name, its arity, its scheduling flags and its entry point.
pub struct Nif {
    pub name: String,
    pub arity: u32,
    pub flags: u32,
    pub raw_func: usize,
}

/// A NIF registered for the library's entry table.
pub struct NifRegistration {
    pub nif: Nif,
}

} // verus!
