use vstd::prelude::*;

use core::marker::PhantomData;

use crate::atom::{Atom, atom_v, string_is};
use crate::env::{Env, Envelope, OwnedEnv, SavedTerm, SendError, next_generation};
use crate::error::{Error, NifResult};
use crate::pid::LocalPid;
use crate::term::{Term, TermV, lemma_terms_view};
use crate::types::{Decoder, Encoder, Modeled, Transcoder};

verus! {

/// A Gleam `process.Subject(T)`: the process `pid` receives messages `{tag, Message}`.
pub struct Subject<T> {
    pid: LocalPid,
    tag: Term,
    _marker: PhantomData<T>,
}

impl<T> Subject<T> {
    pub closed spec fn spec_pid(&self) -> LocalPid {
        self.pid
    }

    pub closed spec fn spec_tag(&self) -> TermV {
        self.tag@
    }

    /// The subject of `pid` with this tag.
    pub fn new(pid: LocalPid, tag: Term) -> (s: Self)
        ensures
            s.spec_pid() == pid,
            s.spec_tag() == tag@,
    {
        Subject { pid, tag, _marker: PhantomData }
    }

    /// The process that owns the subject.
    pub fn pid(&self) -> (p: LocalPid)
        ensures
            p == self.spec_pid(),
    {
        self.pid
    }

    /// The tag that messages to the subject carry.
    pub fn tag(&self) -> (t: Term)
        ensures
            t@ == self.spec_tag(),
    {
        self.tag.duplicate()
    }

    /// Prepares sending `{tag, message}` to the owning process, as [`Env::send`] sends.
    pub fn send(&self, env: Env, message: T, on_scheduler_thread: bool) -> (r: Result<Envelope, SendError>)
        where
            T: Encoder,
        ensures
            r is Ok <==> !on_scheduler_thread || env.kind_of() != crate::env::EnvKind::ProcessIndependent,
            r matches Ok(e) ==> e.to == self.spec_pid() && e.from_env == (if on_scheduler_thread {
                Some(env.raw())
            } else {
                None
            }) && e.message@ == TermV::Tuple(seq![self.spec_tag(), T::encoding(message.model())]),
    {
        let payload = (self.tag.duplicate(), message);
        env.send(&self.pid, payload, on_scheduler_thread)
    }

    /// Saves the subject into an owned environment, for sending from threads that the VM
    /// does not manage.
    pub fn save(&self, owned_env: &OwnedEnv) -> (s: SavedSubject<T>)
        ensures
            s.spec_pid() == self.spec_pid(),
            s.spec_tag().saved_in() == owned_env.raw(),
            s.spec_tag().saved_generation() == owned_env.spec_generation(),
            s.spec_tag().spec_term() == self.spec_tag(),
    {
        SavedSubject { pid: self.pid, tag: owned_env.save(self.tag.duplicate()), _marker: PhantomData }
    }

    /// A sender that owns the environment holding the tag and the one in which messages are
    /// built, so that it can be moved to another thread and reuse both.
    pub fn to_sender(&self, tag_env: OwnedEnv, msg_env: OwnedEnv) -> (s: SubjectSender<T>)
        ensures
            s.spec_pid() == self.spec_pid(),
            s.spec_tag() == self.spec_tag(),
    {
        let tag = tag_env.save(self.tag.duplicate());
        proof {
            tag_env.lemma_spec_env();
        }
        SubjectSender { pid: self.pid, tag, tag_env, msg_env, _marker: PhantomData }
    }

    /// Prepares sending `{tag, message}` to `pid` from a thread that the VM does not manage,
    /// with the tag saved in `tag_env`; `msg_env` is where the message is built.
    pub fn send_from_owned(
        pid: &LocalPid,
        tag: &SavedTerm,
        tag_env: &OwnedEnv,
        message: T,
        msg_env: OwnedEnv,
        on_scheduler_thread: bool,
    ) -> (r: Result<Envelope, SendError>)
        where
            T: Encoder,
        requires
            tag.loadable_in(tag_env.spec_env()),
        ensures
            r is Ok <==> !on_scheduler_thread,
            r matches Ok(e) ==> e.to == *pid && e.from_env is None
                && e.message@ == TermV::Tuple(seq![tag.spec_term(), T::encoding(message.model())]),
    {
        let mut msg_env = msg_env;
        send_tagged(pid, tag, tag_env, &mut msg_env, message, on_scheduler_thread)
    }
}

/// Loads the tag, then builds `{tag, message}` in `msg_env`, prepares sending it and clears
/// `msg_env`; on a thread of the VM the send is refused and `msg_env` is left as it was.
fn send_tagged<T: Encoder>(
    pid: &LocalPid,
    tag: &SavedTerm,
    tag_env: &OwnedEnv,
    msg_env: &mut OwnedEnv,
    message: T,
    on_scheduler_thread: bool,
) -> (r: Result<Envelope, SendError>)
    requires
        tag.loadable_in(tag_env.spec_env()),
    ensures
        r is Ok <==> !on_scheduler_thread,
        r matches Ok(e) ==> e.to == *pid && e.from_env is None
            && e.message@ == TermV::Tuple(seq![tag.spec_term(), T::encoding(message.model())]),
        final(msg_env).raw() == old(msg_env).raw(),
        final(msg_env).spec_generation() == if on_scheduler_thread {
            old(msg_env).spec_generation()
        } else {
            next_generation(old(msg_env).spec_generation())
        },
{
    if on_scheduler_thread {
        return Err(SendError);
    }
    proof { tag_env.lemma_spec_env(); }
    let loaded = tag.load(tag_env.env());
    let ghost tag_v = loaded@;
    let ghost msg_m = message.model();
    let build = move |_env: Env| -> (p: (Term, T))
        ensures
            p.0@ == tag_v && p.1.model() == msg_m,
        { (loaded, message) };
    msg_env.send_and_clear(pid, build, false)
}

/// A [`Subject`] saved into an [`OwnedEnv`], for sending from threads that the VM does not manage.
pub struct SavedSubject<T> {
    pid: LocalPid,
    tag: SavedTerm,
    _marker: PhantomData<T>,
}

impl<T> SavedSubject<T> {
    pub closed spec fn spec_pid(&self) -> LocalPid {
        self.pid
    }

    pub closed spec fn spec_tag(&self) -> SavedTerm {
        self.tag
    }

    /// The process that owns the subject.
    pub fn pid(&self) -> (p: LocalPid)
        ensures
            p == self.spec_pid(),
    {
        self.pid
    }

    /// The saved tag.
    pub fn tag(&self) -> (t: &SavedTerm)
        ensures
            *t == self.spec_tag(),
    {
        &self.tag
    }

    /// Prepares sending `{tag, message}`, building it in `msg_env`.
    pub fn send(&self, tag_env: &OwnedEnv, message: T, msg_env: OwnedEnv, on_scheduler_thread: bool) -> (r:
        Result<Envelope, SendError>)
        where
            T: Encoder,
        requires
            self.spec_tag().loadable_in(tag_env.spec_env()),
        ensures
            r is Ok <==> !on_scheduler_thread,
            r matches Ok(e) ==> e.to == self.spec_pid() && e.from_env is None
                && e.message@ == TermV::Tuple(seq![self.spec_tag().spec_term(), T::encoding(message.model())]),
    {
        Subject::<T>::send_from_owned(&self.pid, &self.tag, tag_env, message, msg_env, on_scheduler_thread)
    }

    /// Prepares sending `{tag, message}`, reusing `msg_env`: after a send it is cleared, so
    /// terms saved in it before can no longer be loaded; `tag_env` is only read, so the tag
    /// stays loadable and the subject can send again.
    pub fn send_with(
        &self,
        tag_env: &OwnedEnv,
        msg_env: &mut OwnedEnv,
        message: T,
        on_scheduler_thread: bool,
    ) -> (r: Result<Envelope, SendError>)
        where
            T: Encoder,
        requires
            self.spec_tag().loadable_in(tag_env.spec_env()),
        ensures
            r is Ok <==> !on_scheduler_thread,
            r matches Ok(e) ==> e.to == self.spec_pid() && e.from_env is None
                && e.message@ == TermV::Tuple(seq![self.spec_tag().spec_term(), T::encoding(message.model())]),
            final(msg_env).raw() == old(msg_env).raw(),
            final(msg_env).spec_generation() == if on_scheduler_thread {
                old(msg_env).spec_generation()
            } else {
                next_generation(old(msg_env).spec_generation())
            },
            self.spec_tag().loadable_in(tag_env.spec_env()),
    {
        send_tagged(&self.pid, &self.tag, tag_env, msg_env, message, on_scheduler_thread)
    }
}

/// A sender that owns its environments and can be moved to another thread; it reuses the
/// environment in which it builds messages.
pub struct SubjectSender<T> {
    pid: LocalPid,
    tag: SavedTerm,
    tag_env: OwnedEnv,
    msg_env: OwnedEnv,
    _marker: PhantomData<T>,
}

impl<T> SubjectSender<T> {
    /// The tag stays loadable: the environment that holds it is never cleared.
    #[verifier::type_invariant]
    closed spec fn tag_loadable(&self) -> bool {
        self.tag.loadable_in(self.tag_env.spec_env())
    }

    pub closed spec fn spec_pid(&self) -> LocalPid {
        self.pid
    }

    pub closed spec fn spec_tag(&self) -> TermV {
        self.tag.spec_term()
    }

    /// The environment in which messages are built.
    pub closed spec fn spec_msg_env(&self) -> OwnedEnv {
        self.msg_env
    }

    /// The process that owns the subject.
    pub fn pid(&self) -> (p: LocalPid)
        ensures
            p == self.spec_pid(),
    {
        self.pid
    }

    /// Prepares sending `{tag, message}`; after a send the message environment is cleared
    /// for reuse, so the sender can send again and again. On a thread of the VM the send is
    /// refused and nothing changes.
    pub fn send(&mut self, message: T, on_scheduler_thread: bool) -> (r: Result<Envelope, SendError>)
        where
            T: Encoder,
        ensures
            r is Ok <==> !on_scheduler_thread,
            r matches Ok(e) ==> e.to == old(self).spec_pid() && e.from_env is None
                && e.message@ == TermV::Tuple(seq![old(self).spec_tag(), T::encoding(message.model())]),
            final(self).spec_pid() == old(self).spec_pid(),
            final(self).spec_tag() == old(self).spec_tag(),
            final(self).spec_msg_env().raw() == old(self).spec_msg_env().raw(),
            final(self).spec_msg_env().spec_generation() == if on_scheduler_thread {
                old(self).spec_msg_env().spec_generation()
            } else {
                next_generation(old(self).spec_msg_env().spec_generation())
            },
    {
        proof { use_type_invariant(&*self); }
        let mut msg_env = OwnedEnv::from_raw(self.msg_env.as_c_arg());
        core::mem::swap(&mut msg_env, &mut self.msg_env);
        let r = send_tagged(&self.pid, &self.tag, &self.tag_env, &mut msg_env, message, on_scheduler_thread);
        self.msg_env = msg_env;
        r
    }
}

impl<T> Modeled for Subject<T> {
    type M = (u64, TermV);

    open spec fn model(&self) -> (u64, TermV) {
        (self.spec_pid().model(), self.spec_tag())
    }
}

impl<T> Encoder for Subject<T> {
    open spec fn encoding(m: (u64, TermV)) -> TermV {
        TermV::Tuple(seq![atom_v("subject"@), TermV::Pid(m.0), m.1])
    }

    fn encode(&self) -> (t: Term) {
        Term::triple(Atom::named("subject").to_term(), self.pid.encode(), self.tag.duplicate())
    }
}

impl<T> Decoder for Subject<T> {
    open spec fn decoding(t: TermV) -> Option<(u64, TermV)> {
        match t {
            TermV::Tuple(s) => if s.len() == 3 && s[0] == atom_v("subject"@) && s[1] is Pid {
                Some((s[1]->Pid_0, s[2]))
            } else {
                None
            },
            _ => None,
        }
    }

    fn decode(term: &Term) -> (r: NifResult<Subject<T>>) {
        match term {
            Term::Tuple(v) => {
                proof { lemma_terms_view(v@); }
                if v.len() != 3 {
                    return Err(Error::BadArg);
                }
                let is_subject = match &v[0] {
                    Term::Atom(s) => string_is(s, "subject"),
                    _ => false,
                };
                let pid = match LocalPid::decode(&v[1]) {
                    Ok(p) => p,
                    Err(e) => return Err(e),
                };
                if is_subject {
                    Ok(Subject { pid, tag: v[2].duplicate(), _marker: PhantomData })
                } else {
                    Err(Error::BadArg)
                }
            },
            _ => Err(Error::BadArg),
        }
    }
}

impl<T> Transcoder for Subject<T> {
    proof fn lemma_decode_encode(v: &Self) {
    }
}

} // verus!
