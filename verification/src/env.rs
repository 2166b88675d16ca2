use vstd::prelude::*;

use crate::atom;
use crate::pid::LocalPid;
use crate::term::{Term, TermV};
use crate::types::Encoder;

verus! {

/// What a NIF environment belongs to.
#[derive(Clone, Copy, Debug, PartialEq, Eq, Structural)]
pub enum EnvKind {
    ProcessBound,
    Callback,
    Init,
    ProcessIndependent,
}

/// A NIF environment: the VM's handle for it, what it belongs to, and how many times
/// the owning [`OwnedEnv`] has been cleared.
#[derive(Clone, Copy)]
pub struct Env {
    pub(crate) kind: EnvKind,
    env: u64,
    generation: u64,
}

/// A send was refused, see `enif_send`.
#[derive(Clone, Copy, Debug)]
pub struct SendError;

/// A message ready to be handed to the VM: `message` goes to `to`.
pub struct Envelope {
    pub to: LocalPid,
    pub from_env: Option<u64>,
    pub message: Term,
}

/// Flags for `Env::make_unique_integer`.
#[derive(Clone, Copy, Debug)]
pub enum UniqueIntegerFlags {
    Positive,
    Monotonic,
}

impl UniqueIntegerFlags {
    /// The value of the flag in the C API (`ERL_NIF_UNIQUE_POSITIVE`, `ERL_NIF_UNIQUE_MONOTONIC`).
    pub fn as_sys(self) -> (r: i32)
        ensures
            r == (match self {
                UniqueIntegerFlags::Positive => 1i32,
                UniqueIntegerFlags::Monotonic => 2i32,
            }),
    {
        match self {
            UniqueIntegerFlags::Positive => 1,
            UniqueIntegerFlags::Monotonic => 2,
        }
    }
}

/// Options for `Env::set_option` (NIF version 2.17 and later).
#[derive(Clone, Copy, Debug)]
pub enum NifOption {
    DelayHalt,
    OnHalt,
}

impl NifOption {
    /// The value of the option in the C API (`ERL_NIF_OPT_DELAY_HALT`, `ERL_NIF_OPT_ON_HALT`).
    pub fn as_sys(self) -> (r: i32)
        ensures
            r == (match self {
                NifOption::DelayHalt => 1i32,
                NifOption::OnHalt => 2i32,
            }),
    {
        match self {
            NifOption::DelayHalt => 1,
            NifOption::OnHalt => 2,
        }
    }
}

impl Env {
    pub closed spec fn kind_of(self) -> EnvKind {
        self.kind
    }

    pub closed spec fn raw(self) -> u64 {
        self.env
    }

    pub closed spec fn spec_generation(self) -> u64 {
        self.generation
    }

    /// The environment of a NIF call, bound to the calling process.
    pub fn new(env: u64) -> (e: Env)
        ensures
            e.kind_of() == EnvKind::ProcessBound,
            e.raw() == env,
            e.spec_generation() == 0,
    {
        Env { kind: EnvKind::ProcessBound, env, generation: 0 }
    }

    /// The environment passed to the `load` callback.
    pub fn new_init_env(env: u64) -> (e: Env)
        ensures
            e.kind_of() == EnvKind::Init,
            e.raw() == env,
            e.spec_generation() == 0,
    {
        Env { kind: EnvKind::Init, env, generation: 0 }
    }

    /// The VM's handle for this environment.
    pub fn as_c_arg(self) -> (r: u64)
        ensures
            r == self.raw(),
    {
        self.env
    }

    /// How many times the owning environment had been cleared when this one was made.
    pub fn generation(self) -> (r: u64)
        ensures
            r == self.spec_generation(),
    {
        self.generation
    }

    /// Two environments are equal when they are the same VM environment.
    pub fn same_env(self, other: Env) -> (r: bool)
        ensures
            r == (self.raw() == other.raw()),
    {
        self.env == other.env
    }

    /// Builds the tuple `{error, Reason}`.
    pub fn error_tuple<T: Encoder>(self, reason: T) -> (t: Term)
        ensures
            t@ == TermV::Tuple(seq![TermV::Atom("error"@), T::encoding(reason.model())]),
    {
        Term::pair(atom::error().to_term(), reason.encode())
    }

    /// Prepares sending `message` to `pid`.
    ///
    /// A message can be sent from a thread that the VM does not manage, from any
    /// environment; the VM then takes no calling environment. On a thread of the VM, it
    /// can be sent only from the environment of a calling process, never from a
    /// process-independent one. Whether the VM delivers it is told by [`send_outcome`].
    pub fn send<T: Encoder>(self, pid: &LocalPid, message: T, on_scheduler_thread: bool) -> (r:
        Result<Envelope, SendError>)
        ensures
            r is Ok <==> !on_scheduler_thread || self.kind_of() != EnvKind::ProcessIndependent,
            r matches Ok(e) ==> e.to == *pid && e.message@ == T::encoding(message.model()) && e.from_env == (
            if on_scheduler_thread {
                Some(self.raw())
            } else {
                None
            }),
    {
        if on_scheduler_thread && self.kind == EnvKind::ProcessIndependent {
            return Err(SendError);
        }
        let message = message.encode();
        let from_env = if on_scheduler_thread {
            Some(self.env)
        } else {
            None
        };
        Ok(Envelope { to: *pid, from_env, message })
    }
}

/// What the VM answered to a send: `enif_send` returns 1 on success.
pub fn send_outcome(code: i32) -> (r: Result<(), SendError>)
    ensures
        r is Ok <==> code == 1,
{
    if code == 1 {
        Ok(())
    } else {
        Err(SendError)
    }
}

/// The generation that follows `g`; it wraps around after `u64::MAX`.
pub open spec fn next_generation(g: u64) -> u64 {
    if g < u64::MAX { (g + 1) as u64 } else { 0 }
}

/// A process-independent environment, where terms can be built outside of a NIF call.
pub struct OwnedEnv {
    env: u64,
    generation: u64,
}

/// A term saved in an [`OwnedEnv`], for use in a later `run` on that environment.
pub struct SavedTerm {
    env: u64,
    generation: u64,
    term: Term,
}

impl OwnedEnv {
    pub closed spec fn raw(&self) -> u64 {
        self.env
    }

    pub closed spec fn spec_generation(&self) -> u64 {
        self.generation
    }

    /// The environment that `run` hands to its closure.
    pub closed spec fn spec_env(&self) -> Env {
        Env { kind: EnvKind::ProcessIndependent, env: self.env, generation: self.generation }
    }

    /// The environment that `run` hands to its closure is process-independent and carries
    /// the handle and the generation of this owned environment.
    pub broadcast proof fn lemma_spec_env(&self)
        ensures
            #[trigger] self.spec_env().kind_of() == EnvKind::ProcessIndependent,
            self.spec_env().raw() == self.raw(),
            self.spec_env().spec_generation() == self.spec_generation(),
    {
    }

    /// Takes over a process-independent environment that the VM allocated.
    pub fn from_raw(env: u64) -> (r: OwnedEnv)
        ensures
            r.raw() == env,
            r.spec_generation() == 0,
    {
        OwnedEnv { env, generation: 0 }
    }

    /// The VM's handle for this environment.
    pub fn as_c_arg(&self) -> (r: u64)
        ensures
            r == self.raw(),
    {
        self.env
    }

    /// The environment in which terms of this owned environment are built.
    pub fn env(&self) -> (e: Env)
        ensures
            e == self.spec_env(),
    {
        Env { kind: EnvKind::ProcessIndependent, env: self.env, generation: self.generation }
    }

    /// Runs `closure` in this environment.
    pub fn run<F, R>(&self, closure: F) -> (r: R)
        where
            F: FnOnce(Env) -> R,
        requires
            closure.requires((self.spec_env(),)),
        ensures
            closure.ensures((self.spec_env(),), r),
    {
        let env = self.env();
        closure(env)
    }

    /// Frees all terms of this environment: terms saved before can no longer be loaded.
    pub fn clear(&mut self)
        ensures
            final(self).raw() == old(self).raw(),
            final(self).spec_generation() == next_generation(old(self).spec_generation()),
    {
        self.generation = self.generation.wrapping_add(1);
    }

    /// Saves a term for use in a later `run` on this environment.
    pub fn save<T: Encoder>(&self, term: T) -> (s: SavedTerm)
        ensures
            s.saved_in() == self.raw(),
            s.saved_generation() == self.spec_generation(),
            s.spec_term() == T::encoding(term.model()),
    {
        SavedTerm { env: self.env, generation: self.generation, term: term.encode() }
    }

    /// Prepares sending the term that `closure` builds to `recipient`, then clears the
    /// environment as `clear` does. Only a thread that the VM does not manage may call this
    /// (the VM refuses it on its own threads), so `on_scheduler_thread` must be false.
    pub fn send_and_clear<F, T>(&mut self, recipient: &LocalPid, closure: F, on_scheduler_thread: bool)
        -> (r: Result<Envelope, SendError>)
        where
            F: FnOnce(Env) -> T,
            T: Encoder,
        requires
            !on_scheduler_thread,
            closure.requires((old(self).spec_env(),)),
        ensures
            r matches Ok(e) && e.to == *recipient && e.from_env == None::<u64> && exists|v: T|
                closure.ensures((old(self).spec_env(),), v) && e.message@ == T::encoding(v.model()),
            final(self).raw() == old(self).raw(),
            final(self).spec_generation() == next_generation(old(self).spec_generation()),
    {
        let v = self.run(closure);
        let message = v.encode();
        self.clear();
        Ok(Envelope { to: *recipient, from_env: None, message })
    }
}

impl SavedTerm {
    pub closed spec fn saved_in(&self) -> u64 {
        self.env
    }

    pub closed spec fn saved_generation(&self) -> u64 {
        self.generation
    }

    pub closed spec fn spec_term(&self) -> TermV {
        self.term@
    }

    /// Whether the term can be loaded into `env`: `env` must be the environment the term
    /// was saved in, not cleared since.
    pub open spec fn loadable_in(&self, env: Env) -> bool {
        env.raw() == self.saved_in() && env.spec_generation() == self.saved_generation()
    }

    /// Loads the saved term back into its environment.
    pub fn load(&self, env: Env) -> (t: Term)
        requires
            self.loadable_in(env),
        ensures
            t@ == self.spec_term(),
    {
        self.term.duplicate()
    }

    /// Loads the saved term if `env` is the environment it was saved in and that environment
    /// has not been cleared since; `None` otherwise.
    pub fn try_load(&self, env: Env) -> (r: Option<Term>)
        ensures
            r is Some <==> self.loadable_in(env),
            r matches Some(t) ==> t@ == self.spec_term(),
    {
        if env.as_c_arg() == self.env && env.generation() == self.generation {
            Some(self.load(env))
        } else {
            None
        }
    }

    /// A copy of this saved term.
    pub fn duplicate(&self) -> (r: SavedTerm)
        ensures
            r.saved_in() == self.saved_in(),
            r.saved_generation() == self.saved_generation(),
            r.spec_term() == self.spec_term(),
    {
        SavedTerm { env: self.env, generation: self.generation, term: self.term.duplicate() }
    }
}

/// A term saved in an owned environment can be loaded in a `run` on that environment,
/// as long as the environment has not been cleared since.
pub proof fn lemma_saved_term_loadable(env: OwnedEnv, s: SavedTerm)
    requires
        s.saved_in() == env.raw(),
        s.saved_generation() == env.spec_generation(),
    ensures
        s.loadable_in(env.spec_env()),
{
}

/// After an owned environment is cleared, no term saved in it before can be loaded there.
pub proof fn lemma_cleared_term_not_loadable(before: OwnedEnv, after: OwnedEnv, s: SavedTerm)
    requires
        s.saved_in() == before.raw(),
        s.saved_generation() == before.spec_generation(),
        after.raw() == before.raw(),
        after.spec_generation() == next_generation(before.spec_generation()),
    ensures
        !s.loadable_in(after.spec_env()),
{
}

} // verus!
