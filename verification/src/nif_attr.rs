//! What `#[gleam_nif]` and `init_nifs!` decide: the export name, arity and scheduler of
//! a NIF, the role of each parameter, what the wrapper around a NIF replies, and how
//! the library's entry is put together.
use vstd::prelude::*;

use crate::atom::{atom_v, string_is};
use crate::codegen::{FnParam, ItemFn, NestedMeta, ParamPat, RustType, ident_is, is_env, is_env_type};
use crate::error::{Error, GleamlerError, GleamlerErrorV};
use crate::returned::{
    Continuation, NifReturnable, NifReturned, NifReturnedV, handle_nif_init_call, handle_nif_result,
    opt_view,
};
use crate::schedule::SchedulerFlags;
use crate::term::{Term, TermV};
use crate::types::{Encoder, Modeled, string_encoding};

verus! {

/// Why `#[gleam_nif]` refuses a function.
#[derive(Clone, Copy, Debug, PartialEq, Eq, Structural)]
pub enum NifMacroError {
    /// The attribute's arguments are not a comma-separated list of items.
    BadAttributes,
    /// `alias` without `= "name"`.
    AliasNotNameValue,
    /// `alias = value` where the value is not a string literal.
    AliasNotString,
    /// An item other than `dirty_cpu`, `dirty_io`, `safe` and `alias`.
    UnknownAttribute,
    /// A method with a `self` receiver.
    Receiver,
    /// A parameter bound by a pattern other than a plain name.
    ArgumentPattern,
    /// A parameter of type `&Env` or `&mut Env`.
    EnvReference,
}

/// Where the wrapper takes a parameter's value from.
#[derive(Clone, Copy, Debug, PartialEq, Eq, Structural)]
pub enum ParamRole {
    /// The environment of the call.
    Env,
    /// The Erlang argument at this position, decoded.
    Arg(usize),
}

/// What the attribute's items set.
pub struct NifOptions {
    pub flags: SchedulerFlags,
    pub safe: bool,
    pub alias: Option<String>,
}

/// The options as plain values.
pub struct NifOptionsV {
    pub flags: SchedulerFlags,
    pub safe: bool,
    pub alias: Option<Seq<char>>,
}

/// How `#[gleam_nif]` wraps a function.
pub struct NifPlan {
    /// The name the NIF is exported under: the alias if one is given, else the function's.
    pub export_name: String,
    /// The number of Erlang arguments: the parameters other than the environment.
    pub arity: u32,
    pub flags: SchedulerFlags,
    /// Whether failures are returned as `{error, Reason}` instead of raised.
    pub safe: bool,
    /// For each parameter, in order, where its value comes from.
    pub params: Vec<ParamRole>,
    /// Whether the function's return type is a `Result`, returned as it is in safe mode.
    pub returns_result: bool,
}

/// The options before any item is read.
pub open spec fn default_options() -> NifOptionsV {
    NifOptionsV { flags: SchedulerFlags::Normal, safe: false, alias: None }
}

/// The options after reading one more attribute item.
pub open spec fn apply_item(o: NifOptionsV, m: NestedMeta) -> Result<NifOptionsV, NifMacroError> {
    if ident_is(m.ident, "dirty_cpu"@) {
        Ok(NifOptionsV { flags: SchedulerFlags::DirtyCpu, ..o })
    } else if ident_is(m.ident, "dirty_io"@) {
        Ok(NifOptionsV { flags: SchedulerFlags::DirtyIo, ..o })
    } else if ident_is(m.ident, "safe"@) {
        Ok(NifOptionsV { safe: true, ..o })
    } else if ident_is(m.ident, "alias"@) {
        if !m.is_name_value {
            Err(NifMacroError::AliasNotNameValue)
        } else {
            match m.str_value {
                Some(s) => Ok(NifOptionsV { alias: Some(s@), ..o }),
                None => Err(NifMacroError::AliasNotString),
            }
        }
    } else {
        Err(NifMacroError::UnknownAttribute)
    }
}

/// The options that the attribute's items set, read in order; the first bad item refuses.
pub open spec fn options_of(items: Seq<NestedMeta>) -> Result<NifOptionsV, NifMacroError>
    decreases items.len(),
{
    if items.len() == 0 {
        Ok(default_options())
    } else {
        match options_of(items.subrange(0, items.len() - 1)) {
            Ok(o) => apply_item(o, items[items.len() - 1]),
            Err(e) => Err(e),
        }
    }
}

/// Once an item is refused, the options of every longer list are refused the same way.
proof fn lemma_options_refused(items: Seq<NestedMeta>, i: int)
    requires
        0 <= i <= items.len(),
        options_of(items.subrange(0, i)) is Err,
    ensures
        options_of(items) == options_of(items.subrange(0, i)),
    decreases items.len() - i,
{
    if i == items.len() {
        assert(items.subrange(0, i) =~= items);
    } else {
        let t = items.subrange(0, i + 1);
        assert(t.subrange(0, t.len() - 1) =~= items.subrange(0, i));
        lemma_options_refused(items, i + 1);
    }
}

/// Whether a type is a reference to the environment.
pub open spec fn is_env_reference(t: RustType) -> bool {
    match t {
        RustType::Reference(inner) => is_env(*inner),
        _ => false,
    }
}

/// The roles of the parameters, in order, and the number of Erlang arguments among them;
/// the first parameter that cannot be wrapped refuses.
pub open spec fn roles_of(inputs: Seq<FnParam>) -> Result<(Seq<ParamRole>, nat), NifMacroError>
    decreases inputs.len(),
{
    if inputs.len() == 0 {
        Ok((Seq::empty(), 0))
    } else {
        match roles_of(inputs.subrange(0, inputs.len() - 1)) {
            Err(e) => Err(e),
            Ok((roles, n)) => match inputs[inputs.len() - 1] {
                FnParam::Receiver => Err(NifMacroError::Receiver),
                FnParam::Typed { pat, ty } => match pat {
                    ParamPat::Other => Err(NifMacroError::ArgumentPattern),
                    ParamPat::Ident(_) => if is_env_reference(ty) {
                        Err(NifMacroError::EnvReference)
                    } else if is_env(ty) {
                        Ok((roles.push(ParamRole::Env), n))
                    } else {
                        Ok((roles.push(ParamRole::Arg(n as usize)), n + 1))
                    },
                },
            },
        }
    }
}

/// Once a parameter is refused, the roles of every longer list are refused the same way.
proof fn lemma_roles_refused(inputs: Seq<FnParam>, i: int)
    requires
        0 <= i <= inputs.len(),
        roles_of(inputs.subrange(0, i)) is Err,
    ensures
        roles_of(inputs) == roles_of(inputs.subrange(0, i)),
    decreases inputs.len() - i,
{
    if i == inputs.len() {
        assert(inputs.subrange(0, i) =~= inputs);
    } else {
        let t = inputs.subrange(0, i + 1);
        assert(t.subrange(0, t.len() - 1) =~= inputs.subrange(0, i));
        lemma_roles_refused(inputs, i + 1);
    }
}

/// Whether a function's declared return type is a path ending in `Result`.
pub open spec fn returns_result_type(output: Option<RustType>) -> bool {
    match output {
        Some(RustType::Path(segs)) => segs@.len() > 0 && segs@[segs@.len() - 1].ident@ == "Result"@,
        _ => false,
    }
}

/// Reads the items of `#[gleam_nif(...)]`; `None` stands for arguments that do not parse.
pub fn nif_options(items: &Option<Vec<NestedMeta>>) -> (r: Result<NifOptions, NifMacroError>)
    ensures
        match items {
            None => r == Err::<NifOptions, NifMacroError>(NifMacroError::BadAttributes),
            Some(v) => match options_of(v@) {
                Ok(o) => r matches Ok(x) && x.flags == o.flags && x.safe == o.safe && match x.alias {
                    Some(a) => o.alias == Some(a@),
                    None => o.alias is None,
                },
                Err(e) => r == Err::<NifOptions, NifMacroError>(e),
            },
        },
{
    let v = match items {
        Some(v) => v,
        None => return Err(NifMacroError::BadAttributes),
    };
    let mut flags = SchedulerFlags::Normal;
    let mut safe = false;
    let mut alias: Option<String> = None;
    let mut i: usize = 0;
    assert(v@.subrange(0, 0) =~= Seq::<NestedMeta>::empty());
    while i < v.len()
        invariant
            *items == Some(*v),
            i <= v.len(),
            options_of(v@.subrange(0, i as int)) matches Ok(o) && o.flags == flags && o.safe == safe
                && match alias {
                Some(a) => o.alias == Some(a@),
                None => o.alias is None,
            },
        decreases v.len() - i,
    {
        proof {
            let t = v@.subrange(0, i + 1);
            assert(t.subrange(0, t.len() - 1) =~= v@.subrange(0, i as int));
            assert(t[t.len() - 1] == v@[i as int]);
        }
        let m = &v[i];
        let is = |lit: &str| -> (b: bool)
            ensures
                b == ident_is(m.ident, lit@),
        {
            match &m.ident {
                Some(n) => string_is(n, lit),
                None => false,
            }
        };
        if is("dirty_cpu") {
            flags = SchedulerFlags::DirtyCpu;
        } else if is("dirty_io") {
            flags = SchedulerFlags::DirtyIo;
        } else if is("safe") {
            safe = true;
        } else if is("alias") {
            if !m.is_name_value {
                proof {
                    lemma_options_refused(v@, i + 1);
                }
                return Err(NifMacroError::AliasNotNameValue);
            }
            match &m.str_value {
                Some(s) => {
                    alias = Some(s.clone());
                },
                None => {
                    proof {
                        lemma_options_refused(v@, i + 1);
                    }
                    return Err(NifMacroError::AliasNotString);
                },
            }
        } else {
            proof {
                lemma_options_refused(v@, i + 1);
            }
            return Err(NifMacroError::UnknownAttribute);
        }
        i = i + 1;
    }
    assert(v@.subrange(0, v.len() as int) =~= v@);
    Ok(NifOptions { flags, safe, alias })
}

/// Whether a type is a reference to the environment.
fn is_env_ref_type(ty: &RustType) -> (r: bool)
    ensures
        r == is_env_reference(*ty),
{
    match ty {
        RustType::Reference(inner) => is_env_type(inner),
        _ => false,
    }
}

/// The roles of a function's parameters, in order, and its arity.
pub fn param_roles(inputs: &Vec<FnParam>) -> (r: Result<(Vec<ParamRole>, usize), NifMacroError>)
    ensures
        match roles_of(inputs@) {
            Ok((roles, n)) => r matches Ok((v, k)) && v@ == roles && k == n,
            Err(e) => r == Err::<(Vec<ParamRole>, usize), NifMacroError>(e),
        },
{
    let mut roles: Vec<ParamRole> = Vec::new();
    let mut n: usize = 0;
    let mut i: usize = 0;
    assert(inputs@.subrange(0, 0) =~= Seq::<FnParam>::empty());
    while i < inputs.len()
        invariant
            i <= inputs.len(),
            n <= i,
            roles_of(inputs@.subrange(0, i as int)) == Ok::<(Seq<ParamRole>, nat), NifMacroError>((roles@, n as nat)),
        decreases inputs.len() - i,
    {
        proof {
            let t = inputs@.subrange(0, i + 1);
            assert(t.subrange(0, t.len() - 1) =~= inputs@.subrange(0, i as int));
            assert(t[t.len() - 1] == inputs@[i as int]);
        }
        match &inputs[i] {
            FnParam::Receiver => {
                proof {
                    lemma_roles_refused(inputs@, i + 1);
                }
                return Err(NifMacroError::Receiver);
            },
            FnParam::Typed { pat, ty } => match pat {
                ParamPat::Other => {
                    proof {
                        lemma_roles_refused(inputs@, i + 1);
                    }
                    return Err(NifMacroError::ArgumentPattern);
                },
                ParamPat::Ident(_) => {
                    if is_env_ref_type(ty) {
                        proof {
                            lemma_roles_refused(inputs@, i + 1);
                        }
                        return Err(NifMacroError::EnvReference);
                    } else if is_env_type(ty) {
                        roles.push(ParamRole::Env);
                    } else {
                        roles.push(ParamRole::Arg(n));
                        n = n + 1;
                    }
                },
            },
        }
        i = i + 1;
    }
    assert(inputs@.subrange(0, inputs.len() as int) =~= inputs@);
    Ok((roles, n))
}

/// Whether a function's declared return type is a path ending in `Result`.
fn is_result_return(output: &Option<RustType>) -> (r: bool)
    ensures
        r == returns_result_type(*output),
{
    match output {
        Some(RustType::Path(segs)) => segs.len() > 0 && string_is(&segs[segs.len() - 1].ident, "Result"),
        _ => false,
    }
}

/// How `#[gleam_nif(...)]` wraps `func`, given the items of the attribute (`None` where
/// they do not parse). The attribute is read first, then the parameters, in order; the
/// first fault refuses the function.
pub fn plan_gleam_nif(items: &Option<Vec<NestedMeta>>, func: &ItemFn) -> (r: Result<NifPlan, NifMacroError>)
    requires
        func.inputs@.len() <= u32::MAX,
    ensures
        match items {
            None => r == Err::<NifPlan, NifMacroError>(NifMacroError::BadAttributes),
            Some(v) => match options_of(v@) {
                Err(e) => r == Err::<NifPlan, NifMacroError>(e),
                Ok(o) => match roles_of(func.inputs@) {
                    Err(e) => r == Err::<NifPlan, NifMacroError>(e),
                    Ok((roles, n)) => r matches Ok(p) && p.export_name@ == match o.alias {
                        Some(a) => a,
                        None => func.ident@,
                    } && p.arity == n && p.flags == o.flags && p.safe == o.safe && p.params@ == roles
                        && p.returns_result == returns_result_type(func.output),
                },
            },
        },
{
    let opts = nif_options(items)?;
    let (params, n) = param_roles(&func.inputs)?;
    proof {
        lemma_arity_bound(func.inputs@);
    }
    let export_name = match opts.alias {
        Some(a) => a,
        None => func.ident.clone(),
    };
    Ok(NifPlan {
        export_name,
        arity: n as u32,
        flags: opts.flags,
        safe: opts.safe,
        params,
        returns_result: is_result_return(&func.output),
    })
}

/// The number of roles that take an Erlang argument.
pub open spec fn arg_count(roles: Seq<ParamRole>) -> nat
    decreases roles.len(),
{
    if roles.len() == 0 {
        0
    } else {
        arg_count(roles.subrange(0, roles.len() - 1)) + if roles[roles.len() - 1] is Arg {
            1nat
        } else {
            0nat
        }
    }
}

/// The wrapper decodes each Erlang argument exactly once, in order: the arity is the
/// number of parameters that take an argument, and the `k`-th of them takes argument `k`.
pub proof fn lemma_roles_numbered(inputs: Seq<FnParam>)
    requires
        inputs.len() <= usize::MAX,
    ensures
        roles_of(inputs) matches Ok((roles, n)) ==> n == arg_count(roles) && roles.len() == inputs.len()
            && forall|i: int| 0 <= i < roles.len() ==> (#[trigger] roles[i] matches ParamRole::Arg(k) ==> k == arg_count(
            roles.subrange(0, i),
        )),
    decreases inputs.len(),
{
    if inputs.len() > 0 {
        let init = inputs.subrange(0, inputs.len() - 1);
        lemma_roles_numbered(init);
        lemma_arity_bound(init);
        if let Ok((roles, n)) = roles_of(inputs) {
            let (r0, n0) = roles_of(init)->Ok_0;
            let last = inputs[inputs.len() - 1];
            assert(roles_of(init) is Ok);
            assert(roles.len() == r0.len() + 1);
            assert(roles.subrange(0, roles.len() - 1) =~= r0);
            assert(roles[roles.len() - 1] matches ParamRole::Arg(k) ==> k == n0);
            assert forall|i: int| 0 <= i < roles.len() implies (#[trigger] roles[i] matches ParamRole::Arg(k) ==> k
                == arg_count(roles.subrange(0, i))) by {
                if i < roles.len() - 1 {
                    assert(roles[i] == r0[i]);
                    assert(roles.subrange(0, i) =~= r0.subrange(0, i));
                } else {
                    assert(roles.subrange(0, i) =~= r0);
                }
            }
        }
    }
}

/// A function has no more Erlang arguments than parameters.
proof fn lemma_arity_bound(inputs: Seq<FnParam>)
    ensures
        roles_of(inputs) matches Ok((roles, n)) ==> n <= inputs.len() && roles.len() == inputs.len(),
    decreases inputs.len(),
{
    if inputs.len() > 0 {
        lemma_arity_bound(inputs.subrange(0, inputs.len() - 1));
    }
}

// ---------------------------------------------------------------- the wrapper's reply

/// How a call of a `safe` NIF's function went.
pub enum SafeCall {
    /// The function returned this value, encoded.
    Returned(Term),
    /// An argument did not decode.
    BadArgument,
    /// The function panicked, with this message where the panic carried a string.
    Panicked(Option<String>),
}

/// The message of a panic: the string it carried, else `NIF panicked`.
pub open spec fn panic_message(msg: Option<String>) -> Seq<char> {
    match msg {
        Some(m) => m@,
        None => "NIF panicked"@,
    }
}

/// The term that a `safe` NIF replies with, given its argument count, its arity and how
/// the call went.
pub open spec fn safe_reply_of(argc: int, arity: int, returns_result: bool, call: SafeCall) -> TermV {
    if argc != arity {
        TermV::Tuple(seq![atom_v("error"@), GleamlerError::encoding(GleamlerErrorV::BadArg)])
    } else {
        match call {
            SafeCall::Returned(v) => if returns_result {
                v@
            } else {
                TermV::Tuple(seq![atom_v("ok"@), v@])
            },
            SafeCall::BadArgument => TermV::Tuple(
                seq![atom_v("error"@), GleamlerError::encoding(GleamlerErrorV::BadArg)],
            ),
            SafeCall::Panicked(msg) => TermV::Tuple(
                seq![atom_v("error"@), GleamlerError::encoding(GleamlerErrorV::Panic(panic_message(msg)))],
            ),
        }
    }
}

/// What a `safe` NIF replies: `{error, bad_arg}` when called with the wrong number of
/// arguments or with one that does not decode; `{error, {panic, Msg}}` when its function
/// panicked; otherwise the function's value, as it is where the function returns a
/// `Result` and as `{ok, Value}` where it does not.
pub fn safe_reply(argc: i32, arity: u32, returns_result: bool, call: SafeCall) -> (t: Term)
    ensures
        t@ == safe_reply_of(argc as int, arity as int, returns_result, call),
{
    if argc < 0 || argc as u32 != arity {
        return Term::pair(crate::atom::error().to_term(), GleamlerError::BadArg.encode());
    }
    match call {
        SafeCall::Returned(v) => if returns_result {
            v
        } else {
            Term::pair(crate::atom::ok().to_term(), v)
        },
        SafeCall::BadArgument => Term::pair(crate::atom::error().to_term(), GleamlerError::BadArg.encode()),
        SafeCall::Panicked(msg) => {
            let m = match msg {
                Some(m) => m,
                None => String::from_str("NIF panicked"),
            };
            Term::pair(crate::atom::error().to_term(), GleamlerError::Panic(m).encode())
        },
    }
}

/// What a NIF that is not `safe` hands back: `badarg` when called with the wrong number of
/// arguments, else what its call gives; where it panicked (`Err`, with the information
/// captured at the panic, backtrace included), the exception `{nif_panicked, Info}`.
pub fn call_reply<T: NifReturnable>(
    argc: i32,
    arity: u32,
    result: Result<T, String>,
    cont: &Option<Continuation>,
) -> (r: NifReturned)
    requires
        result matches Ok(v) ==> (v.yields() ==> cont is Some),
    ensures
        argc != arity ==> r@ == NifReturnedV::BadArg,
        argc == arity ==> r@ == (match result {
            Ok(v) => v.outcome(opt_view(cont)),
            Err(info) => crate::returned::panic_raise(info@),
        }),
{
    if argc < 0 || argc as u32 != arity {
        return NifReturned::BadArg;
    }
    handle_nif_result(result, cont)
}

// ---------------------------------------------------------------- the library's entry

/// What `init_nifs!` is given: the module name, the load and upgrade callbacks, and the
/// NIFs to register, by name (none: every NIF registered with `#[gleam_nif]`).
pub struct InitInput {
    pub module: Option<String>,
    pub load: Option<String>,
    pub upgrade: Option<String>,
    pub names: Vec<String>,
}

/// Where the entry's table of NIFs comes from.
pub enum NifTable {
    /// Every NIF registered with `#[gleam_nif]`.
    Collected,
    /// The registrations with these names, in order.
    Listed(Vec<String>),
}

/// How `init_nifs!` puts the library's entry together.
pub struct InitPlan {
    /// The Erlang module, NUL-terminated.
    pub module_name: String,
    pub table: NifTable,
    pub load: Option<String>,
    pub upgrade: Option<String>,
}

/// An optional string, as plain values.
pub open spec fn opt_str(o: Option<String>) -> Option<Seq<char>> {
    match o {
        Some(s) => Some(s@),
        None => None,
    }
}

fn clone_opt(o: &Option<String>) -> (r: Option<String>)
    ensures
        opt_str(r) == opt_str(*o),
{
    match o {
        Some(s) => Some(s.clone()),
        None => None,
    }
}

/// What the load callback reports to the VM, 0 for success. With a load callback of the
/// library's user: failure (1) if registering the resources failed, else what the
/// callback gave (`None` where it panicked). Without one: whether registering succeeded
/// (`None` where it panicked).
pub fn load_reply(registered: Option<bool>, user_load: Option<Option<bool>>) -> (r: i32)
    ensures
        r == match user_load {
            Some(outcome) => if registered != Some(true) {
                1i32
            } else if outcome == Some(true) {
                0i32
            } else {
                1i32
            },
            None => if registered == Some(true) {
                0i32
            } else {
                1i32
            },
        },
{
    match user_load {
        Some(outcome) => {
            if registered != Some(true) {
                return 1;
            }
            handle_nif_init_call(outcome)
        },
        None => handle_nif_init_call(registered),
    }
}

/// The name of the registration constant that `#[gleam_nif]` defines for a function.
pub open spec fn registration_name(f: Seq<char>) -> Seq<char> {
    "__GLEAMLER_NIF_"@ + f
}

/// How `init_nifs!` puts the entry together: the module defaults to `gleamler_nif_ffi`;
/// with no names listed, the table holds every registered NIF.
pub fn plan_init(input: &InitInput) -> (p: InitPlan)
    ensures
        p.module_name@ == match input.module {
            Some(m) => m@ + "\0"@,
            None => "gleamler_nif_ffi\0"@,
        },
        input.names@.len() == 0 ==> p.table is Collected,
        input.names@.len() > 0 ==> (p.table matches NifTable::Listed(v) && v@.len() == input.names@.len()
            && forall|i: int| 0 <= i < v@.len() ==> #[trigger] v@[i]@ == registration_name(input.names@[i]@)),
        opt_str(p.load) == opt_str(input.load),
        opt_str(p.upgrade) == opt_str(input.upgrade),
{
    let module_name = match &input.module {
        Some(m) => {
            let mut s = m.clone();
            s.append("\0");
            s
        },
        None => String::from_str("gleamler_nif_ffi\0"),
    };
    let table = if input.names.len() == 0 {
        NifTable::Collected
    } else {
        let mut v: Vec<String> = Vec::new();
        let mut i: usize = 0;
        while i < input.names.len()
            invariant
                i <= input.names.len(),
                v@.len() == i,
                forall|k: int| 0 <= k < i ==> #[trigger] v@[k]@ == registration_name(input.names@[k]@),
            decreases input.names.len() - i,
        {
            let mut c = String::from_str("__GLEAMLER_NIF_");
            c.append(input.names[i].as_str());
            v.push(c);
            i = i + 1;
        }
        NifTable::Listed(v)
    };
    InitPlan { module_name, table, load: clone_opt(&input.load), upgrade: clone_opt(&input.upgrade) }
}

// ---------------------------------------------------------------- reading `init_nifs!(...)`

/// A token of the input of `init_nifs!`.
pub enum InitToken {
    /// A string literal, by its value.
    Str(String),
    Ident(String),
    /// `=`
    Eq,
    /// `,`
    Comma,
    /// `::`
    PathSep,
    /// `[...]`, with the tokens inside.
    Bracket(Vec<InitToken>),
    /// Any other token.
    Other,
}

/// Why the input of `init_nifs!` does not parse.
#[derive(Clone, Copy, Debug, PartialEq, Eq, Structural)]
pub enum InitParseError {
    /// A key other than `load` or `upgrade` before `=`.
    ExpectedLoadOrUpgrade,
    /// `load =` or `upgrade =` not followed by a path.
    ExpectedPath,
    /// The bracketed list is not a comma-separated list of names.
    ExpectedName,
    /// Something follows the input.
    UnexpectedToken,
}

/// The parsed input, as plain values.
pub struct InitInputV {
    pub module: Option<Seq<char>>,
    pub load: Option<Seq<char>>,
    pub upgrade: Option<Seq<char>>,
    pub names: Seq<Seq<char>>,
}

/// Whether token `p` is `::`.
pub open spec fn is_sep_at(ts: Seq<InitToken>, p: int) -> bool {
    0 <= p < ts.len() && ts[p] is PathSep
}

/// Whether token `p` is an identifier.
pub open spec fn is_ident_at(ts: Seq<InitToken>, p: int) -> bool {
    0 <= p < ts.len() && ts[p] is Ident
}

/// The segments `:: name` that follow position `p`, joined, and the position after them.
pub open spec fn path_rest(ts: Seq<InitToken>, p: int, acc: Seq<char>) -> (Seq<char>, int)
    decreases ts.len() - p,
{
    if 0 <= p && is_sep_at(ts, p) && is_ident_at(ts, p + 1) {
        path_rest(ts, p + 2, acc + "::"@ + ts[p + 1]->Ident_0@)
    } else {
        (acc, p)
    }
}

/// The path that starts at position `p` (an optional leading `::`, then names separated by
/// `::`), as text, and the position after it.
pub open spec fn path_at(ts: Seq<InitToken>, p: int) -> Option<(Seq<char>, int)> {
    if is_ident_at(ts, p) {
        Some(path_rest(ts, p + 1, ts[p]->Ident_0@))
    } else if is_sep_at(ts, p) && is_ident_at(ts, p + 1) {
        Some(path_rest(ts, p + 2, "::"@ + ts[p + 1]->Ident_0@))
    } else {
        None
    }
}

/// The names of a comma-separated list, from position `p`, with an optional comma at the
/// end.
pub open spec fn names_from(ts: Seq<InitToken>, p: int) -> Option<Seq<Seq<char>>>
    decreases ts.len() - p,
{
    if p >= ts.len() || p < 0 {
        Some(Seq::empty())
    } else if is_ident_at(ts, p) {
        if p + 1 >= ts.len() {
            Some(seq![ts[p]->Ident_0@])
        } else if ts[p + 1] is Comma {
            match names_from(ts, p + 2) {
                Some(rest) => Some(seq![ts[p]->Ident_0@] + rest),
                None => None,
            }
        } else {
            None
        }
    } else {
        None
    }
}

/// The position after an optional comma at `p`.
pub open spec fn skip_comma(ts: Seq<InitToken>, p: int) -> int {
    if 0 <= p < ts.len() && ts[p] is Comma { p + 1 } else { p }
}

/// What `init_nifs!` reads from its input: an optional module name (a string), then
/// optionally `load = path` or `upgrade = path`, then optionally a bracketed list of NIF
/// names; each may be followed by a comma, and nothing may follow the list.
pub open spec fn parse_init(ts: Seq<InitToken>) -> Result<InitInputV, InitParseError> {
    let module = if ts.len() > 0 && ts[0] is Str { Some(ts[0]->Str_0@) } else { None };
    let p1 = if module is Some { skip_comma(ts, 1) } else { 0 };
    match callback_at(ts, p1) {
        Err(e) => Err(e),
        Ok((load, upgrade, p2)) => names_and_end(ts, p2, module, load, upgrade),
    }
}

/// The optional `load = path` or `upgrade = path` at position `p`: the paths given, and
/// the position after them and an optional comma.
pub open spec fn callback_at(ts: Seq<InitToken>, p: int) -> Result<
    (Option<Seq<char>>, Option<Seq<char>>, int),
    InitParseError,
> {
    if is_ident_at(ts, p) && p + 1 < ts.len() && ts[p + 1] is Eq {
        let key = ts[p]->Ident_0@;
        if key == "load"@ || key == "upgrade"@ {
            callback_path(ts, key == "load"@, path_at(ts, p + 2))
        } else {
            Err(InitParseError::ExpectedLoadOrUpgrade)
        }
    } else {
        Ok((None, None, p))
    }
}

/// The callback whose path was read as `path`.
pub open spec fn callback_path(ts: Seq<InitToken>, is_load: bool, path: Option<(Seq<char>, int)>) -> Result<
    (Option<Seq<char>>, Option<Seq<char>>, int),
    InitParseError,
> {
    match path {
        Some((text, q)) => if is_load {
            Ok((Some(text), None, skip_comma(ts, q)))
        } else {
            Ok((None, Some(text), skip_comma(ts, q)))
        },
        None => Err(InitParseError::ExpectedPath),
    }
}

/// The optional bracketed list of names at position `p`, which must end the input.
pub open spec fn names_and_end(
    ts: Seq<InitToken>,
    p: int,
    module: Option<Seq<char>>,
    load: Option<Seq<char>>,
    upgrade: Option<Seq<char>>,
) -> Result<InitInputV, InitParseError> {
    if 0 <= p < ts.len() && ts[p] is Bracket {
        match names_from(ts[p]->Bracket_0@, 0) {
            Some(names) => if p + 1 == ts.len() {
                Ok(InitInputV { module, load, upgrade, names })
            } else {
                Err(InitParseError::UnexpectedToken)
            },
            None => Err(InitParseError::ExpectedName),
        }
    } else if p == ts.len() {
        Ok(InitInputV { module, load, upgrade, names: Seq::empty() })
    } else {
        Err(InitParseError::UnexpectedToken)
    }
}

/// The input, as plain values.
pub open spec fn init_input_view(i: InitInput) -> InitInputV {
    InitInputV { module: opt_str(i.module), load: opt_str(i.load), upgrade: opt_str(i.upgrade), names: views_of(i.names@) }
}

pub open spec fn views_of(s: Seq<String>) -> Seq<Seq<char>> {
    s.map_values(|x: String| x@)
}

/// The path at position `p`, as `path_at` reads it.
fn read_path(ts: &Vec<InitToken>, p: usize) -> (r: Option<(String, usize)>)
    requires
        p <= ts.len(),
    ensures
        match path_at(ts@, p as int) {
            Some((path, q)) => r matches Some((s, k)) && s@ == path && k == q,
            None => r is None,
        },
        r matches Some((_, k)) ==> k <= ts.len(),
{
    if p >= ts.len() {
        return None;
    }
    let start: Option<(String, usize)> = match &ts[p] {
        InitToken::Ident(n) => Some((n.clone(), p + 1)),
        InitToken::PathSep => if p + 1 < ts.len() {
            match &ts[p + 1] {
                InitToken::Ident(n) => {
                    let mut t = String::from_str("::");
                    t.append(n.as_str());
                    Some((t, p + 2))
                },
                _ => None,
            }
        } else {
            None
        },
        _ => None,
    };
    let (mut text, mut q) = match start {
        Some(x) => x,
        None => {
            return None;
        },
    };
    assert(path_at(ts@, p as int) == Some(path_rest(ts@, q as int, text@)));
    loop
        invariant
            q <= ts.len(),
            path_at(ts@, p as int) == Some(path_rest(ts@, q as int, text@)),
        decreases ts.len() - q,
    {
        if q < ts.len() && q + 1 < ts.len() {
            if let InitToken::PathSep = &ts[q] {
                if let InitToken::Ident(n) = &ts[q + 1] {
                    let ghost before = text@;
                    proof {
                        assert(is_sep_at(ts@, q as int));
                        assert(is_ident_at(ts@, q + 1));
                        assert(ts@[q + 1]->Ident_0@ == n@);
                        assert(path_rest(ts@, q as int, before) == path_rest(ts@, q + 2, before + "::"@ + n@));
                    }
                    text.append("::");
                    text.append(n.as_str());
                    assert(text@ == before + "::"@ + n@);
                    q = q + 2;
                    continue;
                }
            }
        }
        return Some((text, q));
    }
}

/// The names of a comma-separated list, as `names_from` reads them.
fn read_names(ts: &Vec<InitToken>) -> (r: Option<Vec<String>>)
    ensures
        match names_from(ts@, 0) {
            Some(names) => r matches Some(v) && views_of(v@) == names,
            None => r is None,
        },
{
    let mut out: Vec<String> = Vec::new();
    let mut p: usize = 0;
    loop
        invariant
            p <= ts.len(),
            names_from(ts@, 0) == match names_from(ts@, p as int) {
                Some(rest) => Some(views_of(out@) + rest),
                None => None::<Seq<Seq<char>>>,
            },
        decreases ts.len() - p,
    {
        if p >= ts.len() {
            assert(views_of(out@) + Seq::<Seq<char>>::empty() =~= views_of(out@));
            return Some(out);
        }
        let n = match &ts[p] {
            InitToken::Ident(n) => n,
            _ => {
                return None;
            },
        };
        let ghost before = views_of(out@);
        if p + 1 >= ts.len() {
            out.push(n.clone());
            assert(views_of(out@) =~= before + seq![n@]);
            return Some(out);
        }
        if let InitToken::Comma = &ts[p + 1] {
            out.push(n.clone());
            proof {
                assert(views_of(out@) =~= before.push(n@));
                match names_from(ts@, p + 2) {
                    Some(rest) => {
                        assert(before + (seq![n@] + rest) =~= views_of(out@) + rest);
                    },
                    None => {},
                }
            }
            p = p + 2;
        } else {
            return None;
        }
    }
}

/// Parses the input of `init_nifs!`.
pub fn parse_init_input(ts: &Vec<InitToken>) -> (r: Result<InitInput, InitParseError>)
    ensures
        match parse_init(ts@) {
            Ok(v) => r matches Ok(i) && init_input_view(i) == v,
            Err(e) => r == Err::<InitInput, InitParseError>(e),
        },
{
    let mut module: Option<String> = None;
    let mut p: usize = 0;
    if ts.len() > 0 {
        if let InitToken::Str(s) = &ts[0] {
            module = Some(s.clone());
            p = 1;
            if ts.len() > 1 {
                if let InitToken::Comma = &ts[1] {
                    p = 2;
                }
            }
        }
    }
    let mut load: Option<String> = None;
    let mut upgrade: Option<String> = None;
    if p + 1 < ts.len() {
        if let InitToken::Ident(key) = &ts[p] {
            if let InitToken::Eq = &ts[p + 1] {
                let is_load = string_is(key, "load");
                let is_upgrade = string_is(key, "upgrade");
                if !is_load && !is_upgrade {
                    return Err(InitParseError::ExpectedLoadOrUpgrade);
                }
                let (path, q) = match read_path(ts, p + 2) {
                    Some(x) => x,
                    None => {
                        return Err(InitParseError::ExpectedPath);
                    },
                };
                if is_load {
                    load = Some(path);
                } else {
                    upgrade = Some(path);
                }
                p = q;
                if p < ts.len() {
                    if let InitToken::Comma = &ts[p] {
                        p = p + 1;
                    }
                }
            }
        }
    }
    if p < ts.len() {
        if let InitToken::Bracket(inner) = &ts[p] {
            let names = match read_names(inner) {
                Some(n) => n,
                None => {
                    return Err(InitParseError::ExpectedName);
                },
            };
            if p + 1 != ts.len() {
                return Err(InitParseError::UnexpectedToken);
            }
            return Ok(InitInput { module, load, upgrade, names });
        }
        return Err(InitParseError::UnexpectedToken);
    }
    let r = InitInput { module, load, upgrade, names: Vec::new() };
    assert(views_of(r.names@) =~= Seq::<Seq<char>>::empty());
    Ok(r)
}

} // verus!

verus! {

/// Whether an attribute item chooses a scheduler: `dirty_cpu` or `dirty_io`.
pub open spec fn chooses_scheduler(m: NestedMeta) -> bool {
    ident_is(m.ident, "dirty_cpu"@) || ident_is(m.ident, "dirty_io"@)
}

/// The scheduler follows the last item that chooses one: `dirty_cpu` runs the NIF on the
/// dirty CPU schedulers, `dirty_io` on the dirty I/O ones, and with neither it runs on a
/// normal scheduler.
pub proof fn lemma_last_scheduler_item_decides(items: Seq<NestedMeta>)
    requires
        options_of(items) is Ok,
    ensures
        forall|j: int|
            0 <= j < items.len() && ident_is(#[trigger] items[j].ident, "dirty_cpu"@) && (forall|k: int|
                j < k < items.len() ==> !chooses_scheduler(#[trigger] items[k])) ==> options_of(items)->Ok_0.flags
                == SchedulerFlags::DirtyCpu,
        forall|j: int|
            0 <= j < items.len() && ident_is(#[trigger] items[j].ident, "dirty_io"@) && (forall|k: int|
                j < k < items.len() ==> !chooses_scheduler(#[trigger] items[k])) ==> options_of(items)->Ok_0.flags
                == SchedulerFlags::DirtyIo,
        (forall|k: int| 0 <= k < items.len() ==> !chooses_scheduler(#[trigger] items[k])) ==> options_of(
            items,
        )->Ok_0.flags == SchedulerFlags::Normal,
    decreases items.len(),
{
    reveal_strlit("dirty_cpu");
    reveal_strlit("dirty_io");
    if items.len() > 0 {
        let init = items.subrange(0, items.len() - 1);
        let last = items[items.len() - 1];
        assert(options_of(init) is Ok);
        lemma_last_scheduler_item_decides(init);
        assert forall|k: int| 0 <= k < init.len() implies #[trigger] init[k] == items[k] by {}
        let n = items.len() - 1;
        assert("dirty_cpu"@.len() == 9 && "dirty_io"@.len() == 8);
        let o = options_of(init)->Ok_0;
        assert(options_of(items) == apply_item(o, last));
        if !chooses_scheduler(last) {
            assert(options_of(items)->Ok_0.flags == o.flags);
        }
        assert forall|j: int|
            0 <= j < items.len() && ident_is(#[trigger] items[j].ident, "dirty_cpu"@) && (forall|k: int|
                j < k < items.len() ==> !chooses_scheduler(#[trigger] items[k])) implies options_of(items)->Ok_0.flags
                == SchedulerFlags::DirtyCpu by {
            if j < n {
                assert(!chooses_scheduler(items[n]));
                assert(init[j] == items[j]);
                assert forall|k: int| j < k < init.len() implies !chooses_scheduler(#[trigger] init[k]) by {
                    assert(init[k] == items[k]);
                    assert(!chooses_scheduler(items[k]));
                }
            }
        }
        assert forall|j: int|
            0 <= j < items.len() && ident_is(#[trigger] items[j].ident, "dirty_io"@) && (forall|k: int|
                j < k < items.len() ==> !chooses_scheduler(#[trigger] items[k])) implies options_of(items)->Ok_0.flags
                == SchedulerFlags::DirtyIo by {
            if j < n {
                assert(!chooses_scheduler(items[n]));
                assert(init[j] == items[j]);
                assert forall|k: int| j < k < init.len() implies !chooses_scheduler(#[trigger] init[k]) by {
                    assert(init[k] == items[k]);
                    assert(!chooses_scheduler(items[k]));
                }
            }
        }
    }
}

} // verus!
