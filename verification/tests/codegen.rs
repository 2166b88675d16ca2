use gleamler::codegen::{
    check_erl_names, clean_name, generate_erl, generate_gleam, is_env_type, is_gleam_type,
    parse_nif_function, parse_nif_functions, type_to_gleam, AttrMeta, Attr, ErlNameError,
    FnParam, GenericArg, SourceItem, ItemFn, NestedMeta, NifFunc, ParamPat, PathArguments, TypeSegment,
    RustType,
};
use gleamler::source::{nif_functions_in, CodegenError};

fn seg(ident: &str, args: Vec<GenericArg>) -> TypeSegment {
    TypeSegment {
        ident: ident.into(),
        arguments: if args.is_empty() {
            PathArguments::Plain
        } else {
            PathArguments::AngleBracketed(args)
        },
    }
}

fn named(ident: &str) -> RustType {
    RustType::Path(vec![seg(ident, vec![])])
}

fn generic(ident: &str, args: Vec<GenericArg>) -> RustType {
    RustType::Path(vec![seg(ident, args)])
}

fn ty(t: RustType) -> GenericArg {
    GenericArg::Type(t)
}

fn lt(name: &str) -> GenericArg {
    GenericArg::Lifetime(name.into())
}

fn refer(t: RustType) -> RustType {
    RustType::Reference(Box::new(t))
}

fn tuple(ts: Vec<RustType>) -> RustType {
    RustType::Tuple(ts)
}

fn gleam(t: &RustType) -> String {
    assert!(is_gleam_type(t));
    type_to_gleam(t)
}

fn attr_path(name: &str) -> Attr {
    Attr { ident: Some(name.into()), meta: AttrMeta::Path }
}

fn doc(text: &str) -> Attr {
    Attr { ident: Some("doc".into()), meta: AttrMeta::NameValue(Some(text.into())) }
}

fn param(name: &str, t: RustType) -> FnParam {
    FnParam::Typed { pat: ParamPat::Ident(name.into()), ty: t }
}

fn nif_item(attrs: Vec<Attr>, name: &str, inputs: Vec<FnParam>, output: Option<RustType>) -> SourceItem {
    SourceItem::Fn(ItemFn { attrs, ident: name.into(), inputs, output })
}

// ---------------------------------------------------------------- parsing

#[test]
fn parse_empty_file() {
    assert!(nif_functions_in("// nothing here").ok().unwrap().is_empty());
}

#[test]
fn parse_simple_fn() {
    let src = r#"
#[gleam_nif]
pub fn add(a: i64, b: i64) -> i64 {
    a + b
}
"#;
    let funcs = nif_functions_in(src).ok().unwrap();
    assert_eq!(funcs.len(), 1);
    let f = &funcs[0];
    assert_eq!(f.name, "add");
    assert_eq!(f.arity, 2);
    assert_eq!(f.args, vec![("a".into(), "Int".into()), ("b".into(), "Int".into())]);
    assert_eq!(f.ret, "Int");
}

#[test]
fn parse_env_skipped() {
    let src = r#"
#[gleam_nif]
pub fn foo(env: Env, x: i64, name: String) -> bool {
    true
}
"#;
    let funcs = nif_functions_in(src).ok().unwrap();
    assert_eq!(funcs[0].arity, 2);
    assert_eq!(funcs[0].args[0].0, "x");
    assert_eq!(funcs[0].args[1].0, "name");
    assert_eq!(funcs[0].args[0].1, "Int");
    assert_eq!(funcs[0].args[1].1, "String");
    assert_eq!(funcs[0].ret, "Bool");
}

#[test]
fn parse_dirty_attributes() {
    let src = r#"
#[gleam_nif(dirty_cpu)]
pub fn heavy(n: i64) -> i64 { n }
"#;
    let funcs = nif_functions_in(src).ok().unwrap();
    assert_eq!(funcs[0].name, "heavy");
}

#[test]
fn parse_full_pipeline_complex() {
    let src = r#"
#[gleam_nif]
pub fn complex(
    env: Env,
    items: Vec<Option<i64>>,
    data: &[u8],
    config: HashMap<String, bool>,
) -> Result<(i64, String), String> {
    todo!()
}
"#;
    let funcs = nif_functions_in(src).ok().unwrap();
    assert_eq!(funcs.len(), 1);
    let f = &funcs[0];
    assert_eq!(f.arity, 3);
    assert_eq!(f.args[0], ("items".into(), "List(option.Option(Int))".into()));
    assert_eq!(f.args[1], ("data".into(), "List(Int)".into()));
    assert_eq!(f.args[2], ("config".into(), "dict.Dict(String, Bool)".into()));
    assert_eq!(f.ret, "Result(#(Int, String), String)");
}

#[test]
fn parse_alias_and_docs_from_source() {
    let src = r#"
/// Adds numbers.
#[gleam_nif(dirty_io, alias = "sum")]
fn add_all(_x: u32, kind: &str) {}

fn helper() {}

struct NotAFunction;
"#;
    let funcs = nif_functions_in(src).ok().unwrap();
    assert_eq!(funcs.len(), 1);
    assert_eq!(funcs[0].alias, Some("sum".to_string()));
    assert_eq!(funcs[0].docs, vec!["Adds numbers.".to_string()]);
    assert_eq!(funcs[0].ret, "Nil");
}

#[test]
fn source_that_cannot_be_read() {
    assert_eq!(nif_functions_in("fn (").err(), Some(CodegenError::Unparsable));
    let atom_src = "#[gleam_nif]\nfn name(a: Atom) -> i64 { 0 }\n";
    assert_eq!(nif_functions_in(atom_src).err(), Some(CodegenError::UnsupportedType));
    let not_nif = "fn name(a: Atom) -> i64 { 0 }\n";
    assert!(nif_functions_in(not_nif).ok().unwrap().is_empty());
}

#[test]
fn parse_items_built_by_hand() {
    let items = vec![nif_item(
        vec![attr_path("gleam_nif")],
        "add",
        vec![param("a", named("i64")), param("b", named("i64"))],
        Some(named("i64")),
    )];
    let funcs = parse_nif_functions(&items);
    assert_eq!(funcs.len(), 1);
    assert_eq!(funcs[0].args, vec![("a".into(), "Int".into()), ("b".into(), "Int".into())]);
}

#[test]
fn parse_alias_docs_and_unnamed_params() {
    let attr = Attr {
        ident: Some("gleam_nif".into()),
        meta: AttrMeta::List(Some(vec![
            NestedMeta { ident: Some("dirty_io".into()), str_value: None, is_name_value: false },
            NestedMeta { ident: Some("alias".into()), str_value: Some("sum".into()), is_name_value: true },
        ])),
    };
    let func = ItemFn {
        attrs: vec![doc(" Adds numbers."), attr, doc("No leading space.")],
        ident: "add_all".into(),
        inputs: vec![
            FnParam::Receiver,
            FnParam::Typed { pat: ParamPat::Other, ty: named("u32") },
            param("_type", refer(named("str"))),
        ],
        output: None,
    };
    let f = parse_nif_function(&func).unwrap();
    assert_eq!(f.alias, Some("sum".to_string()));
    assert_eq!(f.docs, vec!["Adds numbers.".to_string(), "No leading space.".to_string()]);
    assert_eq!(f.args, vec![("arg1".into(), "Int".into()), ("_type".into(), "String".into())]);
    assert_eq!(f.ret, "Nil");
    let out = generate_gleam(&vec![f]);
    assert!(out.contains("/// Adds numbers.\n/// No leading space.\n"));
    assert!(out.contains("pub fn rust_sum(arg1: Int, type_: String) -> Nil\n"));
}

#[test]
fn non_nif_items_are_skipped() {
    let items = vec![
        SourceItem::Other,
        nif_item(vec![attr_path("inline")], "helper", vec![], None),
        nif_item(vec![attr_path("gleam_nif")], "ping", vec![], None),
    ];
    let funcs = parse_nif_functions(&items);
    assert_eq!(funcs.len(), 1);
    assert_eq!(funcs[0].name, "ping");
    assert_eq!(funcs[0].arity, 0);
}

#[test]
fn env_types() {
    assert!(is_env_type(&named("Env")));
    assert!(is_env_type(&refer(RustType::Path(vec![seg("gleamler", vec![]), seg("Env", vec![lt("'a")])]))));
    assert!(!is_env_type(&named("Environment")));
    assert!(!is_env_type(&tuple(vec![])));
}

// ---------------------------------------------------------------- the Erlang module

#[test]
fn erl_output_smoke() {
    let funcs = vec![NifFunc {
        name: "add".into(),
        alias: None,
        args: vec![("a".into(), "Int".into()), ("b".into(), "Int".into())],
        ret: "Int".into(),
        arity: 2,
        docs: vec![],
    }];
    let out = generate_erl(&funcs);
    assert!(out.contains("-export([add/2])."));
    assert!(out.contains("add(_Arg0, _Arg1) -> exit(nif_library_not_loaded)."));
    assert!(out.contains("-module(gleamler_nif_ffi)."));
}

#[test]
fn erl_output_aliases_and_many_functions() {
    let funcs = vec![
        NifFunc { name: "a".into(), alias: Some("first".into()), args: vec![], ret: "Nil".into(), arity: 0, docs: vec![] },
        NifFunc { name: "b".into(), alias: None, args: vec![], ret: "Nil".into(), arity: 12, docs: vec![] },
    ];
    let out = generate_erl(&funcs);
    assert!(out.contains("-export([first/0, b/12])."));
    assert!(out.ends_with(
        "first() -> exit(nif_library_not_loaded).\nb(_Arg0, _Arg1, _Arg2, _Arg3, _Arg4, _Arg5, _Arg6, _Arg7, _Arg8, _Arg9, _Arg10, _Arg11) -> exit(nif_library_not_loaded)."
    ));
    assert!(out.contains("    LibName = \"gleamler\",\n"));
}

#[test]
fn erl_name_checks() {
    let f = |name: &str, alias: Option<&str>| NifFunc {
        name: name.into(),
        alias: alias.map(|a| a.to_string()),
        args: vec![],
        ret: "Nil".into(),
        arity: 0,
        docs: vec![],
    };
    assert!(check_erl_names(&vec![f("a", None), f("b", None)]).is_ok());
    assert!(matches!(check_erl_names(&vec![f("a", None), f("init", None)]), Err(ErlNameError::Reserved(n)) if n == "init"));
    assert!(matches!(check_erl_names(&vec![f("x", Some("module_info"))]), Err(ErlNameError::Reserved(_))));
    assert!(matches!(check_erl_names(&vec![f("a", None), f("b", Some("a"))]), Err(ErlNameError::Duplicate(n)) if n == "a"));
}

// ---------------------------------------------------------------- the Gleam module

#[test]
fn gleam_output_basic() {
    let funcs = vec![NifFunc {
        name: "greet".into(),
        alias: None,
        args: vec![("name".into(), "String".into())],
        ret: "String".into(),
        arity: 1,
        docs: vec![],
    }];
    let out = generate_gleam(&funcs);
    assert!(out.contains(r#"@external(erlang, "gleamler_nif_ffi", "greet")"#));
    assert!(out.contains("pub fn rust_greet(name: String) -> String"));
    assert!(!out.contains("import gleam/option"));
    assert!(!out.contains("import gleam/dict"));
}

#[test]
fn gleam_output_complex_types() {
    let funcs = vec![NifFunc {
        name: "calc".into(),
        alias: None,
        args: vec![("items".into(), "List(Int)".into()), ("flag".into(), "option.Option(Bool)".into())],
        ret: "Result(String, Int)".into(),
        arity: 2,
        docs: vec![],
    }];
    let out = generate_gleam(&funcs);
    assert!(out.contains("import gleam/option"));
    assert!(out.contains("items: List(Int)"));
    assert!(out.contains("flag: option.Option(Bool)"));
    assert!(out.contains("Result(String, Int)"));
}

#[test]
fn gleam_tuple_type() {
    let funcs = vec![NifFunc {
        name: "pair".into(),
        alias: None,
        args: vec![("a".into(), "Int".into()), ("b".into(), "String".into())],
        ret: "#(Int, String)".into(),
        arity: 2,
        docs: vec![],
    }];
    let out = generate_gleam(&funcs);
    assert!(out.contains("#(Int, String)"));
}

#[test]
fn gleam_dict_type() {
    let funcs = vec![NifFunc {
        name: "m".into(),
        alias: None,
        args: vec![("x".into(), "dict.Dict(String, Int)".into())],
        ret: "Nil".into(),
        arity: 1,
        docs: vec![],
    }];
    let out = generate_gleam(&funcs);
    assert!(out.contains("dict.Dict(String, Int)"));
    assert!(out.contains("import gleam/dict\n"));
}

#[test]
fn gleam_vec_u8_maps_to_list_int() {
    let funcs = vec![NifFunc {
        name: "bytes".into(),
        alias: None,
        args: vec![("data".into(), "List(Int)".into())],
        ret: "List(Int)".into(),
        arity: 1,
        docs: vec![],
    }];
    let out = generate_gleam(&funcs);
    assert!(out.contains("data: List(Int)"));
    assert!(out.contains("-> List(Int)"));
    assert!(!out.contains("BitArray"));
}

#[test]
fn gleam_slice_maps_to_list() {
    let funcs = vec![NifFunc {
        name: "s".into(),
        alias: None,
        args: vec![("data".into(), "List(Int)".into())],
        ret: "Nil".into(),
        arity: 1,
        docs: vec![],
    }];
    let out = generate_gleam(&funcs);
    assert!(out.contains("data: List(Int)"));
}

#[test]
fn gleam_lifetimes_in_references() {
    let funcs = vec![NifFunc {
        name: "f".into(),
        alias: None,
        args: vec![("s".into(), "String".into()), ("b".into(), "List(Int)".into())],
        ret: "Nil".into(),
        arity: 2,
        docs: vec![],
    }];
    let out = generate_gleam(&funcs);
    assert!(out.contains("s: String"));
    assert!(out.contains("b: List(Int)"));
}

#[test]
fn gleam_lifetimes_in_binary() {
    let funcs = vec![NifFunc {
        name: "f".into(),
        alias: None,
        args: vec![("b".into(), "BitArray".into())],
        ret: "BitArray".into(),
        arity: 1,
        docs: vec![],
    }];
    let out = generate_gleam(&funcs);
    assert!(out.contains("b: BitArray"));
    assert!(out.contains("-> BitArray"));
}

#[test]
fn gleam_lifetimes_in_complex_generics() {
    let funcs = vec![NifFunc {
        name: "f".into(),
        alias: None,
        args: vec![("x".into(), "Foo(T)".into()), ("y".into(), "Bar(T, U)".into())],
        ret: "Nil".into(),
        arity: 2,
        docs: vec![],
    }];
    let out = generate_gleam(&funcs);
    assert!(out.contains("x: Foo(T)"));
    assert!(out.contains("y: Bar(T, U)"));
}

#[test]
fn gleam_tuple_with_nested_generics() {
    let funcs = vec![NifFunc {
        name: "complex".into(),
        alias: None,
        args: vec![],
        ret: "#(dict.Dict(String, Int), Bool)".into(),
        arity: 0,
        docs: vec![],
    }];
    let out = generate_gleam(&funcs);
    assert!(out.contains("#(dict.Dict(String, Int), Bool)"));
}

#[test]
fn gleam_exact_module_text() {
    let funcs = vec![NifFunc {
        name: "greet".into(),
        alias: None,
        args: vec![("_name".into(), "String".into())],
        ret: "String".into(),
        arity: 1,
        docs: vec![],
    }];
    assert_eq!(
        generate_gleam(&funcs),
        "// AUTOGENERATED by gleamler_codegen\n// Do not edit\n\n@external(erlang, \"gleamler_nif_ffi\", \"greet\")\npub fn rust_greet(name: String) -> String\n"
    );
}

#[test]
fn clean_names() {
    assert_eq!(clean_name("__x"), "x");
    assert_eq!(clean_name("type"), "type_");
    assert_eq!(clean_name("_use"), "use_");
    assert_eq!(clean_name("typed"), "typed");
    assert_eq!(clean_name("___"), "");
}

// ---------------------------------------------------------------- Gleam types

#[test]
fn type_to_gleam_primitives() {
    assert_eq!(gleam(&named("i32")), "Int");
    assert_eq!(gleam(&named("u64")), "Int");
    assert_eq!(gleam(&named("i128")), "Int");
    assert_eq!(gleam(&named("u128")), "Int");
    assert_eq!(gleam(&named("usize")), "Int");
    assert_eq!(gleam(&named("f32")), "Float");
    assert_eq!(gleam(&named("f64")), "Float");
    assert_eq!(gleam(&named("bool")), "Bool");
    assert_eq!(gleam(&named("String")), "String");
}

#[test]
fn type_to_gleam_generics() {
    assert_eq!(gleam(&generic("Vec", vec![ty(named("i32"))])), "List(Int)");
    assert_eq!(gleam(&generic("Option", vec![ty(named("String"))])), "option.Option(String)");
    assert_eq!(gleam(&generic("Result", vec![ty(named("i32")), ty(named("String"))])), "Result(Int, String)");
    assert_eq!(gleam(&generic("HashMap", vec![ty(named("String")), ty(named("i32"))])), "dict.Dict(String, Int)");
}

#[test]
fn type_to_gleam_generic_defaults() {
    assert_eq!(gleam(&named("Vec")), "List(Nil)");
    assert_eq!(gleam(&named("Option")), "option.Option(Nil)");
    assert_eq!(gleam(&generic("Result", vec![ty(named("u8"))])), "Result(Int, Nil)");
    assert_eq!(gleam(&named("Result")), "Result(Nil, Nil)");
    assert_eq!(gleam(&generic("BTreeMap", vec![ty(named("u8"))])), "dict.Dict(Nil, Nil)");
    assert_eq!(gleam(&named("ResourceArc")), "Nil");
    assert_eq!(gleam(&RustType::Path(vec![])), "Nil");
}

#[test]
fn type_to_gleam_tuples() {
    assert_eq!(gleam(&tuple(vec![named("i32"), named("String")])), "#(Int, String)");
    assert_eq!(gleam(&tuple(vec![])), "Nil");
    assert_eq!(gleam(&tuple(vec![named("i32"), named("String"), named("bool")])), "#(Int, String, Bool)");
}

#[test]
fn type_to_gleam_references() {
    assert_eq!(gleam(&refer(named("str"))), "String");
    assert_eq!(gleam(&refer(RustType::Slice(Box::new(named("i32"))))), "List(Int)");
    assert_eq!(gleam(&refer(named("String"))), "String");
    assert_eq!(gleam(&refer(generic("Vec", vec![ty(named("i32"))]))), "List(Int)");
}

#[test]
fn type_to_gleam_with_lifetimes() {
    assert_eq!(gleam(&generic("Binary", vec![lt("'a")])), "BitArray");
    assert_eq!(gleam(&generic("Foo", vec![lt("'a"), ty(named("T"))])), "Foo(T)");
    assert_eq!(gleam(&refer(named("str"))), "String");
    assert_eq!(gleam(&refer(RustType::Slice(Box::new(named("u8"))))), "List(Int)");
    assert_eq!(gleam(&generic("Bar", vec![ty(named("T")), lt("'env"), ty(named("U"))])), "Bar(T, U)");
}

#[test]
fn type_to_gleam_nested() {
    assert_eq!(
        gleam(&generic("Vec", vec![ty(generic("Option", vec![ty(named("i32"))]))])),
        "List(option.Option(Int))"
    );
    assert_eq!(
        gleam(&generic("Result", vec![ty(generic("Vec", vec![ty(named("String"))])), ty(named("i32"))])),
        "Result(List(String), Int)"
    );
    assert_eq!(
        gleam(&generic("Option", vec![ty(generic("Result", vec![ty(named("i32")), ty(named("String"))]))])),
        "option.Option(Result(Int, String))"
    );
}

#[test]
fn type_to_gleam_slices_and_arrays() {
    assert_eq!(gleam(&RustType::Slice(Box::new(named("i32")))), "List(Int)");
    assert_eq!(gleam(&RustType::Array(Box::new(named("u8")))), "List(Int)");
}

#[test]
fn type_to_gleam_resource_arc() {
    assert_eq!(gleam(&generic("ResourceArc", vec![ty(named("MyStruct"))])), "MyStruct");
}

#[test]
fn type_to_gleam_custom_type_no_generics() {
    assert_eq!(gleam(&named("MyCustomType")), "MyCustomType");
}

#[test]
fn type_to_gleam_full_path() {
    let t = RustType::Path(vec![
        seg("std", vec![]),
        seg("collections", vec![]),
        seg("HashMap", vec![ty(named("String")), ty(named("i32"))]),
    ]);
    assert_eq!(gleam(&t), "dict.Dict(String, Int)");
    let t = RustType::Path(vec![seg("std", vec![]), seg("string", vec![]), seg("String", vec![])]);
    assert_eq!(gleam(&t), "String");
}

#[test]
fn type_to_gleam_other_types_keep_their_tokens() {
    assert_eq!(gleam(&RustType::Other("fn ( i32 ) -> i32".into())), "fn(i32)->i32");
    assert_eq!(gleam(&RustType::Other("impl Trait".into())), "implTrait");
}

#[test]
fn bare_atom_is_refused() {
    assert!(!is_gleam_type(&named("Atom")));
    assert!(!is_gleam_type(&generic("Vec", vec![ty(named("Atom"))])));
    assert!(!is_gleam_type(&tuple(vec![named("i32"), named("Atom")])));
    assert!(!is_gleam_type(&generic("Foo", vec![ty(named("Atom"))])));
    assert!(is_gleam_type(&generic("Vec", vec![ty(named("i32")), ty(named("Atom"))])));
    assert!(is_gleam_type(&generic("HashMap", vec![ty(named("Atom"))])));
}
