use vstd::prelude::*;

use crate::error::{Error, NifResult};
use crate::term::{Term, TermV};
use crate::types::{Decoder, Encoder, Modeled, Transcoder};

verus! {

/// The identifier of a process on the local node.
#[derive(Clone, Copy, Debug, PartialEq, Eq, Structural)]
pub struct LocalPid {
    pub(crate) c: u64,
}

impl LocalPid {
    pub closed spec fn id(self) -> u64 {
        self.c
    }

    /// The pid that the VM knows by `c`.
    pub fn from_c_arg(c: u64) -> (p: LocalPid)
        ensures
            p.id() == c,
    {
        LocalPid { c }
    }

    /// The VM's handle for this pid.
    pub fn as_c_arg(&self) -> (r: u64)
        ensures
            r == self.id(),
    {
        self.c
    }
}

impl Modeled for LocalPid {
    type M = u64;

    open spec fn model(&self) -> u64 {
        self.id()
    }
}

impl Encoder for LocalPid {
    open spec fn encoding(m: u64) -> TermV {
        TermV::Pid(m)
    }

    fn encode(&self) -> (t: Term) {
        Term::Pid(self.c)
    }
}

impl Decoder for LocalPid {
    open spec fn decoding(t: TermV) -> Option<u64> {
        match t {
            TermV::Pid(p) => Some(p),
            _ => None,
        }
    }

    fn decode(term: &Term) -> (r: NifResult<LocalPid>) {
        match term {
            Term::Pid(p) => Ok(LocalPid { c: *p }),
            _ => Err(Error::BadArg),
        }
    }
}

impl Transcoder for LocalPid {
    proof fn lemma_decode_encode(v: &Self) {
    }
}

/// A handle to an Erlang port.
#[derive(Clone, Copy, Debug, PartialEq, Eq, PartialOrd, Ord, Structural)]
pub struct LocalPort {
    pub(crate) c: u64,
}

impl LocalPort {
    pub closed spec fn id(self) -> u64 {
        self.c
    }

    /// The VM's handle for this port.
    pub fn as_c_arg(&self) -> (r: u64)
        ensures
            r == self.id(),
    {
        self.c
    }

    /// The port that the VM knows by `erl_nif_port`.
    pub fn from_c_arg(erl_nif_port: u64) -> (p: LocalPort)
        ensures
            p.id() == erl_nif_port,
    {
        LocalPort { c: erl_nif_port }
    }
}

impl Modeled for LocalPort {
    type M = u64;

    open spec fn model(&self) -> u64 {
        self.id()
    }
}

impl Encoder for LocalPort {
    open spec fn encoding(m: u64) -> TermV {
        TermV::Port(m)
    }

    fn encode(&self) -> (t: Term) {
        Term::Port(self.c)
    }
}

impl Decoder for LocalPort {
    open spec fn decoding(t: TermV) -> Option<u64> {
        match t {
            TermV::Port(p) => Some(p),
            _ => None,
        }
    }

    fn decode(term: &Term) -> (r: NifResult<LocalPort>) {
        match term {
            Term::Port(p) => Ok(LocalPort { c: *p }),
            _ => Err(Error::BadArg),
        }
    }
}

impl Transcoder for LocalPort {
    proof fn lemma_decode_encode(v: &Self) {
    }
}

} // verus!
