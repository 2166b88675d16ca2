use gleamler::codegen::{AttrMeta, Attr, FnParam, GenericArg, ItemFn, NestedMeta, ParamPat, PathArguments, TypeSegment, RustType};
use gleamler::nif_attr::{
    call_reply, load_reply, nif_options, parse_init_input, plan_gleam_nif, plan_init, safe_reply, InitInput,
    InitParseError, InitToken, NifMacroError, NifTable, ParamRole, SafeCall,
};
use gleamler::error::{Error, NifResult};
use gleamler::returned::NifReturned;
use gleamler::schedule::SchedulerFlags;
use gleamler::term::Term;

fn named(ident: &str) -> RustType {
    RustType::Path(vec![TypeSegment { ident: ident.into(), arguments: PathArguments::Plain }])
}

fn param(name: &str, t: RustType) -> FnParam {
    FnParam::Typed { pat: ParamPat::Ident(name.into()), ty: t }
}

fn meta(name: &str) -> NestedMeta {
    NestedMeta { ident: Some(name.into()), str_value: None, is_name_value: false }
}

fn func(inputs: Vec<FnParam>, output: Option<RustType>) -> ItemFn {
    ItemFn { attrs: vec![Attr { ident: Some("gleam_nif".into()), meta: AttrMeta::Path }], ident: "add".into(), inputs, output }
}

fn is_atom(t: &Term, name: &str) -> bool {
    matches!(t, Term::Atom(a) if a == name)
}

#[test]
fn plain_nif_plan() {
    let f = func(vec![param("env", named("Env")), param("a", named("i64")), param("b", named("i64"))], Some(named("i64")));
    let p = plan_gleam_nif(&Some(vec![]), &f).ok().unwrap();
    assert_eq!(p.export_name, "add");
    assert_eq!(p.arity, 2);
    assert_eq!(p.flags, SchedulerFlags::Normal);
    assert!(!p.safe);
    assert_eq!(p.params, vec![ParamRole::Env, ParamRole::Arg(0), ParamRole::Arg(1)]);
    assert!(!p.returns_result);
}

#[test]
fn attribute_items() {
    let alias = NestedMeta { ident: Some("alias".into()), str_value: Some("sum".into()), is_name_value: true };
    let items = Some(vec![meta("dirty_cpu"), meta("safe"), alias, meta("dirty_io")]);
    let f = func(vec![param("a", named("i64"))], Some(RustType::Path(vec![TypeSegment {
        ident: "Result".into(),
        arguments: PathArguments::AngleBracketed(vec![GenericArg::Type(named("i64"))]),
    }])));
    let p = plan_gleam_nif(&items, &f).ok().unwrap();
    assert_eq!(p.export_name, "sum");
    assert_eq!(p.flags, SchedulerFlags::DirtyIo);
    assert!(p.safe);
    assert!(p.returns_result);
    assert!(matches!(nif_options(&None), Err(NifMacroError::BadAttributes)));
    assert!(matches!(nif_options(&Some(vec![meta("fast")])), Err(NifMacroError::UnknownAttribute)));
    assert!(matches!(nif_options(&Some(vec![meta("alias")])), Err(NifMacroError::AliasNotNameValue)));
    let not_str = NestedMeta { ident: Some("alias".into()), str_value: None, is_name_value: true };
    assert!(matches!(nif_options(&Some(vec![not_str])), Err(NifMacroError::AliasNotString)));
}

#[test]
fn refused_parameters() {
    let r = plan_gleam_nif(&Some(vec![]), &func(vec![FnParam::Receiver], None));
    assert!(matches!(r, Err(NifMacroError::Receiver)));
    let r = plan_gleam_nif(&Some(vec![]), &func(vec![FnParam::Typed { pat: ParamPat::Other, ty: named("i64") }], None));
    assert!(matches!(r, Err(NifMacroError::ArgumentPattern)));
    let r = plan_gleam_nif(&Some(vec![]), &func(vec![param("env", RustType::Reference(Box::new(named("Env"))))], None));
    assert!(matches!(r, Err(NifMacroError::EnvReference)));
    let r = plan_gleam_nif(&Some(vec![meta("bogus")]), &func(vec![FnParam::Receiver], None));
    assert!(matches!(r, Err(NifMacroError::UnknownAttribute)));
}

#[test]
fn safe_replies() {
    let ok = safe_reply(1, 1, false, SafeCall::Returned(Term::Int(3)));
    assert!(matches!(&ok, Term::Tuple(v) if is_atom(&v[0], "ok") && matches!(v[1], Term::Int(3))));
    let as_is = safe_reply(1, 1, true, SafeCall::Returned(Term::Int(3)));
    assert!(matches!(as_is, Term::Int(3)));
    let wrong = safe_reply(2, 1, false, SafeCall::Returned(Term::Int(3)));
    assert!(matches!(&wrong, Term::Tuple(v) if is_atom(&v[0], "error") && is_atom(&v[1], "bad_arg")));
    let neg = safe_reply(-1, 0, false, SafeCall::BadArgument);
    assert!(matches!(&neg, Term::Tuple(v) if is_atom(&v[1], "bad_arg")));
    let p = safe_reply(0, 0, false, SafeCall::Panicked(None));
    assert!(matches!(&p, Term::Tuple(v) if is_atom(&v[0], "error")
        && matches!(&v[1], Term::Tuple(w) if is_atom(&w[0], "panic") && matches!(&w[1], Term::Binary(b) if b == b"NIF panicked"))));
}

#[test]
fn unsafe_replies() {
    let r: Result<NifResult<i64>, String> = Ok(Ok(4));
    assert!(matches!(call_reply(1, 2, r, &None), NifReturned::BadArg));
    let r: Result<NifResult<i64>, String> = Ok(Ok(4));
    assert!(matches!(call_reply(2, 2, r, &None), NifReturned::Term(Term::Int(4))));
    let r: Result<NifResult<i64>, String> = Ok(Err(Error::BadArg));
    assert!(matches!(call_reply(0, 0, r, &None), NifReturned::BadArg));
    let r: Result<NifResult<i64>, String> = Err("boom\n   0: my_nif::f".to_string());
    assert!(matches!(call_reply(0, 0, r, &None), NifReturned::Raise(Term::Tuple(v))
        if v.len() == 2 && is_atom(&v[0], "nif_panicked")
        && matches!(&v[1], Term::Binary(b) if b == b"boom\n   0: my_nif::f")));
    let r: Result<NifResult<i64>, String> = Ok(Err(Error::raise_term(7i64)));
    assert!(matches!(call_reply(0, 0, r, &None), NifReturned::Term(Term::Tuple(v))
        if v.len() == 2 && is_atom(&v[0], "error") && matches!(v[1], Term::Int(7))));
}

#[test]
fn library_entry() {
    let p = plan_init(&InitInput { module: None, load: None, upgrade: None, names: vec![] });
    assert_eq!(p.module_name, "gleamler_nif_ffi\0");
    assert!(matches!(p.table, NifTable::Collected));
    let p = plan_init(&InitInput {
        module: Some("my_mod".into()),
        load: Some("on_load".into()),
        upgrade: None,
        names: vec!["add".into(), "sub".into()],
    });
    assert_eq!(p.module_name, "my_mod\0");
    assert_eq!(p.load, Some("on_load".to_string()));
    assert!(matches!(p.table, NifTable::Listed(v) if v == vec!["__GLEAMLER_NIF_add".to_string(), "__GLEAMLER_NIF_sub".to_string()]));
    assert_eq!(load_reply(Some(true), None), 0);
    assert_eq!(load_reply(Some(false), None), 1);
    assert_eq!(load_reply(None, None), 1);
    assert_eq!(load_reply(Some(false), Some(Some(true))), 1);
    assert_eq!(load_reply(Some(true), Some(Some(true))), 0);
    assert_eq!(load_reply(Some(true), Some(None)), 1);
}

fn ident(s: &str) -> InitToken {
    InitToken::Ident(s.into())
}

#[test]
fn init_input_parsing() {
    let empty = parse_init_input(&vec![]).ok().unwrap();
    assert!(empty.module.is_none() && empty.load.is_none() && empty.names.is_empty());

    let full = parse_init_input(&vec![
        InitToken::Str("my_mod".into()),
        InitToken::Comma,
        ident("load"),
        InitToken::Eq,
        InitToken::PathSep,
        ident("crate"),
        InitToken::PathSep,
        ident("on_load"),
        InitToken::Comma,
        InitToken::Bracket(vec![ident("add"), InitToken::Comma, ident("sub"), InitToken::Comma]),
    ])
    .ok()
    .unwrap();
    assert_eq!(full.module, Some("my_mod".to_string()));
    assert_eq!(full.load, Some("::crate::on_load".to_string()));
    assert_eq!(full.upgrade, None);
    assert_eq!(full.names, vec!["add".to_string(), "sub".to_string()]);

    let up = parse_init_input(&vec![ident("upgrade"), InitToken::Eq, ident("up")]).ok().unwrap();
    assert_eq!(up.upgrade, Some("up".to_string()));

    assert!(matches!(
        parse_init_input(&vec![ident("unload"), InitToken::Eq, ident("f")]),
        Err(InitParseError::ExpectedLoadOrUpgrade)
    ));
    assert!(matches!(
        parse_init_input(&vec![ident("load"), InitToken::Eq, InitToken::Other]),
        Err(InitParseError::ExpectedPath)
    ));
    assert!(matches!(
        parse_init_input(&vec![InitToken::Bracket(vec![ident("a"), ident("b")])]),
        Err(InitParseError::ExpectedName)
    ));
    assert!(matches!(
        parse_init_input(&vec![ident("load"), InitToken::Eq, ident("f"), InitToken::Comma, ident("upgrade")]),
        Err(InitParseError::UnexpectedToken)
    ));
    assert!(matches!(
        parse_init_input(&vec![InitToken::Bracket(vec![]), InitToken::Comma]),
        Err(InitParseError::UnexpectedToken)
    ));
}
