//! Gleam and Erlang stubs for the `#[gleam_nif]` functions of a crate.
//!
//! The functions here work on a plain description of the parsed Rust items: the
//! types below hold what the generator reads of a function's signature and attributes.
use vstd::prelude::*;

use crate::atom::string_is;
use crate::text::{
    contains_seq, decimal, join, join_strings, lemma_views_push, remove_white_space, str_contains,
    strip_white_space, trim_start, trim_start_char, usize_to_decimal, views,
};

verus! {

// ---------------------------------------------------------------- the parsed items

/// A generic argument of a path segment.
pub enum GenericArg {
    /// A type argument, such as `i32` in `Vec<i32>`.
    Type(RustType),
    /// A lifetime argument, such as `'a`.
    Lifetime(String),
    /// Any other argument (a constant, an associated type binding, a constraint).
    Other,
}

/// The arguments of a path segment.
pub enum PathArguments {
    /// No arguments.
    Plain,
    /// `<...>`
    AngleBracketed(Vec<GenericArg>),
    /// `(...) -> ...`, as in `Fn(i32) -> i32`.
    Parenthesized,
}

/// One segment of a type path, such as `HashMap<K, V>` in `std::collections::HashMap<K, V>`.
pub struct TypeSegment {
    pub ident: String,
    pub arguments: PathArguments,
}

/// A Rust type as written in a signature.
pub enum RustType {
    /// A path such as `std::vec::Vec<i32>`, by its segments.
    Path(Vec<TypeSegment>),
    /// `&T`, `&'a T` or `&mut T`.
    Reference(Box<RustType>),
    /// `(A, B, ...)`; the unit type is the empty tuple.
    Tuple(Vec<RustType>),
    /// `[T]`
    Slice(Box<RustType>),
    /// `[T; N]`
    Array(Box<RustType>),
    /// Any other type, by the text of its tokens.
    Other(String),
}

/// The pattern of a function parameter.
pub enum ParamPat {
    /// A plain binding, by its name.
    Ident(String),
    /// Any other pattern (`_`, a tuple pattern, ...).
    Other,
}

/// A parameter of a function.
pub enum FnParam {
    /// `self`, `&self` or `&mut self`.
    Receiver,
    Typed { pat: ParamPat, ty: RustType },
}

/// One item inside the brackets of `#[gleam_nif(...)]`.
pub struct NestedMeta {
    /// The item's path, where it is a single identifier.
    pub ident: Option<String>,
    /// The value of `name = "..."`, where the item has that form with a string literal.
    pub str_value: Option<String>,
    /// Whether the item has the form `name = value`, whatever the value.
    pub is_name_value: bool,
}

/// What follows an attribute's path.
pub enum AttrMeta {
    /// `#[name]`
    Path,
    /// `#[name(...)]`, with the items inside the brackets where they parse as a
    /// comma-separated list of attribute items.
    List(Option<Vec<NestedMeta>>),
    /// `#[name = value]`, with the value where it is a string literal.
    NameValue(Option<String>),
}

/// An outer attribute of a function.
pub struct Attr {
    /// The attribute's path, where it is a single identifier.
    pub ident: Option<String>,
    pub meta: AttrMeta,
}

/// A function item.
pub struct ItemFn {
    pub attrs: Vec<Attr>,
    pub ident: String,
    pub inputs: Vec<FnParam>,
    /// The declared return type; `None` for `-> ()` left out.
    pub output: Option<RustType>,
}

/// A top-level item of a source file.
pub enum SourceItem {
    Fn(ItemFn),
    Other,
}

/// A NIF as the stubs declare it.
pub struct NifFunc {
    pub name: String,
    pub alias: Option<String>,
    pub args: Vec<(String, String)>,
    pub ret: String,
    pub arity: usize,
    pub docs: Vec<String>,
}

// ---------------------------------------------------------------- Gleam types

pub open spec fn is_int_name(s: Seq<char>) -> bool {
    s == "i8"@ || s == "i16"@ || s == "i32"@ || s == "i64"@ || s == "isize"@ || s == "u8"@
        || s == "u16"@ || s == "u32"@ || s == "u64"@ || s == "usize"@ || s == "i128"@
        || s == "u128"@
}

/// `pre + inner + post`, where the inner type has a Gleam name.
pub open spec fn wrap(pre: Seq<char>, inner: Option<Seq<char>>, post: Seq<char>) -> Option<Seq<char>> {
    match inner {
        Some(s) => Some(pre + s + post),
        None => None,
    }
}

/// `pre + a + ", " + b + post`, where both types have Gleam names.
pub open spec fn wrap2(
    pre: Seq<char>,
    a: Option<Seq<char>>,
    b: Option<Seq<char>>,
    post: Seq<char>,
) -> Option<Seq<char>> {
    match (a, b) {
        (Some(x), Some(y)) => Some(pre + x + ", "@ + y + post),
        _ => None,
    }
}

pub open spec fn all_some(s: Seq<Option<Seq<char>>>) -> bool {
    forall|i: int| 0 <= i < s.len() ==> #[trigger] s[i] is Some
}

pub open spec fn unwrap_all(s: Seq<Option<Seq<char>>>) -> Seq<Seq<char>> {
    s.map_values(|o: Option<Seq<char>>| o->0)
}

/// The Gleam name of a path type, given its last segment's identifier and the Gleam
/// names of its type arguments, in order; `None` where the generator refuses the type.
pub open spec fn gleam_of_path(ident: Seq<char>, gs: Seq<Option<Seq<char>>>) -> Option<Seq<char>> {
    if is_int_name(ident) {
        Some("Int"@)
    } else if ident == "f32"@ || ident == "f64"@ {
        Some("Float"@)
    } else if ident == "bool"@ {
        Some("Bool"@)
    } else if ident == "String"@ || ident == "str"@ {
        Some("String"@)
    } else if ident == "Atom"@ {
        None
    } else if ident == "Binary"@ || ident == "OwnedBinary"@ || ident == "NewBinary"@ {
        Some("BitArray"@)
    } else if ident == "Vec"@ {
        if gs.len() > 0 { wrap("List("@, gs[0], ")"@) } else { Some("List(Nil)"@) }
    } else if ident == "Option"@ {
        if gs.len() > 0 {
            wrap("option.Option("@, gs[0], ")"@)
        } else {
            Some("option.Option(Nil)"@)
        }
    } else if ident == "Result"@ {
        if gs.len() == 1 {
            wrap("Result("@, gs[0], ", Nil)"@)
        } else if gs.len() == 2 {
            wrap2("Result("@, gs[0], gs[1], ")"@)
        } else {
            Some("Result(Nil, Nil)"@)
        }
    } else if ident == "HashMap"@ || ident == "BTreeMap"@ {
        if gs.len() == 2 {
            wrap2("dict.Dict("@, gs[0], gs[1], ")"@)
        } else {
            Some("dict.Dict(Nil, Nil)"@)
        }
    } else if ident == "ResourceArc"@ {
        if gs.len() > 0 { gs[0] } else { Some("Nil"@) }
    } else if gs.len() == 0 {
        Some(ident)
    } else if all_some(gs) {
        Some(ident + "("@ + join(unwrap_all(gs), ", "@) + ")"@)
    } else {
        None
    }
}

/// The Gleam name of a type; `None` where the generator refuses it (a bare `Atom`,
/// which Gleam has no type for).
pub open spec fn gleam_of(t: RustType) -> Option<Seq<char>>
    decreases t,
{
    match t {
        RustType::Path(segs) => {
            if segs@.len() == 0 {
                Some("Nil"@)
            } else {
                let seg = segs@[segs@.len() - 1];
                gleam_of_path(seg.ident@, segment_gleam_args(seg))
            }
        },
        RustType::Reference(inner) => gleam_of(*inner),
        RustType::Tuple(elems) => {
            let gs = gleam_list(elems@);
            if elems@.len() == 0 {
                Some("Nil"@)
            } else if all_some(gs) {
                Some("#("@ + join(unwrap_all(gs), ", "@) + ")"@)
            } else {
                None
            }
        },
        RustType::Slice(inner) => wrap("List("@, gleam_of(*inner), ")"@),
        RustType::Array(inner) => wrap("List("@, gleam_of(*inner), ")"@),
        RustType::Other(text) => Some(strip_white_space(text@)),
    }
}

/// The Gleam names of the type arguments among `s`, in order; lifetimes and other
/// arguments are passed over.
pub open spec fn gleam_args(s: Seq<GenericArg>) -> Seq<Option<Seq<char>>>
    decreases s,
{
    if s.len() == 0 {
        Seq::empty()
    } else {
        let init = gleam_args(s.subrange(0, s.len() - 1));
        match s[s.len() - 1] {
            GenericArg::Type(t) => init.push(gleam_of(t)),
            _ => init,
        }
    }
}

/// The Gleam names of the types of `s`, in order.
pub open spec fn gleam_list(s: Seq<RustType>) -> Seq<Option<Seq<char>>>
    decreases s,
{
    if s.len() == 0 {
        Seq::empty()
    } else {
        gleam_list(s.subrange(0, s.len() - 1)).push(gleam_of(s[s.len() - 1]))
    }
}

proof fn lemma_gleam_list(s: Seq<RustType>)
    ensures
        gleam_list(s).len() == s.len(),
        forall|j: int| 0 <= j < s.len() ==> #[trigger] gleam_list(s)[j] == gleam_of(s[j]),
    decreases s.len(),
{
    if s.len() > 0 {
        let init = s.subrange(0, s.len() - 1);
        lemma_gleam_list(init);
        assert forall|j: int| 0 <= j < s.len() implies #[trigger] gleam_list(s)[j] == gleam_of(s[j]) by {
            if j < s.len() - 1 {
                assert(init[j] == s[j]);
            }
        }
    }
}

proof fn lemma_push_view(parts: Seq<String>, g: String, gs: Seq<Option<Seq<char>>>, k: int)
    requires
        0 <= k < gs.len(),
        views(parts) =~= unwrap_all(gs.subrange(0, k)),
        gs[k] == Some(g@),
    ensures
        views(parts.push(g)) =~= unwrap_all(gs.subrange(0, k + 1)),
{
    assert(views(parts).len() == k);
    assert forall|j: int| 0 <= j < k + 1 implies #[trigger] views(parts.push(g))[j] == unwrap_all(gs.subrange(0, k + 1))[j] by {
        if j < k {
            assert(views(parts)[j] == unwrap_all(gs.subrange(0, k))[j]);
        }
    }
}

/// The positions of the type arguments among `args`, in order.
fn type_arg_positions(args: &Vec<GenericArg>) -> (r: Vec<usize>)
    ensures
        r@.len() == gleam_args(args@).len(),
        forall|k: int|
            0 <= k < r@.len() ==> #[trigger] r@[k] < args@.len() && args@[r@[k] as int] is Type
                && gleam_args(args@)[k] == gleam_of(args@[r@[k] as int]->Type_0),
{
    let mut r: Vec<usize> = Vec::new();
    let mut i: usize = 0;
    assert(args@.subrange(0, 0) =~= Seq::<GenericArg>::empty());
    while i < args.len()
        invariant
            i <= args.len(),
            r@.len() == gleam_args(args@.subrange(0, i as int)).len(),
            forall|k: int|
                0 <= k < r@.len() ==> #[trigger] r@[k] < i && args@[r@[k] as int] is Type
                    && gleam_args(args@.subrange(0, i as int))[k] == gleam_of(
                    args@[r@[k] as int]->Type_0,
                ),
        decreases args.len() - i,
    {
        proof {
            let t = args@.subrange(0, i + 1);
            assert(t.subrange(0, t.len() - 1) =~= args@.subrange(0, i as int));
            assert(t[t.len() - 1] == args@[i as int]);
        }
        if let GenericArg::Type(_) = &args[i] {
            r.push(i);
        }
        i = i + 1;
    }
    assert(args@.subrange(0, args.len() as int) =~= args@);
    r
}

fn is_int_ident(s: &String) -> (r: bool)
    ensures
        r == is_int_name(s@),
{
    string_is(s, "i8") || string_is(s, "i16") || string_is(s, "i32") || string_is(s, "i64")
        || string_is(s, "isize") || string_is(s, "u8") || string_is(s, "u16") || string_is(
        s,
        "u32",
    ) || string_is(s, "u64") || string_is(s, "usize") || string_is(s, "i128") || string_is(
        s,
        "u128",
    )
}

/// The Gleam name of a Rust type, as the generated stubs write it.
pub fn type_to_gleam(ty: &RustType) -> (r: String)
    requires
        gleam_of(*ty) is Some,
    ensures
        r@ == gleam_of(*ty)->0,
    decreases ty, 2nat,
{
    match ty {
        RustType::Path(segs) => {
            if segs.len() == 0 {
                return String::from_str("Nil");
            }
            let seg = &segs[segs.len() - 1];
            proof {
                assert(decreases_to!(segs => segs@));
                assert(decreases_to!(segs@ => segs@[segs.len() - 1]));
            }
            path_to_gleam(seg)
        },
        RustType::Reference(inner) => type_to_gleam(inner),
        RustType::Tuple(elems) => {
            if elems.len() == 0 {
                return String::from_str("Nil");
            }
            let mut parts: Vec<String> = Vec::new();
            let mut i: usize = 0;
            assert(elems@.subrange(0, 0) =~= Seq::<RustType>::empty());
            proof {
                lemma_gleam_list(elems@);
            }
            while i < elems.len()
                invariant
                    gleam_of(*ty) is Some,
                    *ty == RustType::Tuple(*elems),
                    all_some(gleam_list(elems@)),
                    i <= elems.len(),
                    parts@.len() == i,
                    gleam_list(elems@.subrange(0, i as int)).len() == i,
                    views(parts@) =~= unwrap_all(gleam_list(elems@.subrange(0, i as int))),
                    forall|j: int| 0 <= j < elems@.len() ==> #[trigger] gleam_list(elems@)[j] == gleam_of(elems@[j]),
                    gleam_list(elems@).len() == elems@.len(),
                decreases elems.len() - i,
            {
                proof {
                    assert(decreases_to!(elems => elems@));
                    assert(decreases_to!(elems@ => elems@[i as int]));
                    assert(gleam_list(elems@)[i as int] is Some);
                }
                let g = type_to_gleam(&elems[i]);
                proof {
                    let t = elems@.subrange(0, i + 1);
                    assert(t.subrange(0, t.len() - 1) =~= elems@.subrange(0, i as int));
                    assert(t[t.len() - 1] == elems@[i as int]);
                    lemma_gleam_list(t);
                    lemma_gleam_list(elems@.subrange(0, i as int));
                    assert(gleam_list(t).subrange(0, i as int) =~= gleam_list(elems@.subrange(0, i as int)));
                    lemma_push_view(parts@, g, gleam_list(t), i as int);
                }
                parts.push(g);
                i = i + 1;
            }
            assert(elems@.subrange(0, elems.len() as int) =~= elems@);
            let mut r = String::from_str("#(");
            let joined = join_strings(&parts, ", ");
            r.append(joined.as_str());
            r.append(")");
            r
        },
        RustType::Slice(inner) | RustType::Array(inner) => {
            let mut r = String::from_str("List(");
            let g = type_to_gleam(inner);
            r.append(g.as_str());
            r.append(")");
            r
        },
        RustType::Other(text) => remove_white_space(text.as_str()),
    }
}

/// The Gleam name of the type argument at position `p` of a segment.
fn type_arg_to_gleam(seg: &TypeSegment, p: usize) -> (r: String)
    requires
        seg.arguments is AngleBracketed,
        p < seg.arguments->AngleBracketed_0@.len(),
        seg.arguments->AngleBracketed_0@[p as int] is Type,
        gleam_of(seg.arguments->AngleBracketed_0@[p as int]->Type_0) is Some,
    ensures
        r@ == gleam_of(seg.arguments->AngleBracketed_0@[p as int]->Type_0)->0,
    decreases seg, 0nat,
{
    match &seg.arguments {
        PathArguments::AngleBracketed(args) => {
            proof {
                assert(decreases_to!(args => args@));
                assert(decreases_to!(args@ => args@[p as int]));
            }
            match &args[p] {
                GenericArg::Type(t) => type_to_gleam(t),
                _ => {
                    assert(false);
                    String::new()
                },
            }
        },
        _ => {
            assert(false);
            String::new()
        },
    }
}

/// The Gleam name of a path type, from its last segment.
fn path_to_gleam(seg: &TypeSegment) -> (r: String)
    requires
        gleam_of_path(seg.ident@, segment_gleam_args(*seg)) is Some,
    ensures
        r@ == gleam_of_path(seg.ident@, segment_gleam_args(*seg))->0,
    decreases seg, 1nat,
{
    let ident = &seg.ident;
    let none: Vec<GenericArg> = Vec::new();
    let args: &Vec<GenericArg> = match &seg.arguments {
        PathArguments::AngleBracketed(a) => a,
        _ => &none,
    };
    assert(gleam_args(args@) == segment_gleam_args(*seg)) by {
        if !(seg.arguments is AngleBracketed) {
            assert(args@ =~= Seq::<GenericArg>::empty());
        }
    }
    let pos = type_arg_positions(args);
    let ghost gs = gleam_args(args@);
    assert(pos.len() > 0 ==> seg.arguments is AngleBracketed && seg.arguments->AngleBracketed_0 == *args);
    if is_int_ident(ident) {
        String::from_str("Int")
    } else if string_is(ident, "f32") || string_is(ident, "f64") {
        String::from_str("Float")
    } else if string_is(ident, "bool") {
        String::from_str("Bool")
    } else if string_is(ident, "String") || string_is(ident, "str") {
        String::from_str("String")
    } else if string_is(ident, "Atom") {
        assert(false);
        String::new()
    } else if string_is(ident, "Binary") || string_is(ident, "OwnedBinary") || string_is(
        ident,
        "NewBinary",
    ) {
        String::from_str("BitArray")
    } else if string_is(ident, "Vec") || string_is(ident, "Option") {
        let is_vec = string_is(ident, "Vec");
        if pos.len() > 0 {
            let mut r = if is_vec {
                String::from_str("List(")
            } else {
                String::from_str("option.Option(")
            };
            let g = type_arg_to_gleam(seg, pos[0]);
            r.append(g.as_str());
            r.append(")");
            r
        } else if is_vec {
            String::from_str("List(Nil)")
        } else {
            String::from_str("option.Option(Nil)")
        }
    } else if string_is(ident, "Result") {
        if pos.len() == 1 {
            let mut r = String::from_str("Result(");
            let g = type_arg_to_gleam(seg, pos[0]);
            r.append(g.as_str());
            r.append(", Nil)");
            r
        } else if pos.len() == 2 {
            let mut r = String::from_str("Result(");
            let a = type_arg_to_gleam(seg, pos[0]);
            let b = type_arg_to_gleam(seg, pos[1]);
            r.append(a.as_str());
            r.append(", ");
            r.append(b.as_str());
            r.append(")");
            r
        } else {
            String::from_str("Result(Nil, Nil)")
        }
    } else if string_is(ident, "HashMap") || string_is(ident, "BTreeMap") {
        if pos.len() == 2 {
            let mut r = String::from_str("dict.Dict(");
            let a = type_arg_to_gleam(seg, pos[0]);
            let b = type_arg_to_gleam(seg, pos[1]);
            r.append(a.as_str());
            r.append(", ");
            r.append(b.as_str());
            r.append(")");
            r
        } else {
            String::from_str("dict.Dict(Nil, Nil)")
        }
    } else if string_is(ident, "ResourceArc") {
        if pos.len() > 0 {
            type_arg_to_gleam(seg, pos[0])
        } else {
            String::from_str("Nil")
        }
    } else if pos.len() == 0 {
        ident.clone()
    } else {
        let mut parts: Vec<String> = Vec::new();
        let mut k: usize = 0;
        while k < pos.len()
            invariant
                seg.arguments is AngleBracketed,
                seg.arguments->AngleBracketed_0 == *args,
                gs == gleam_args(args@),
                all_some(gs),
                pos@.len() == gs.len(),
                forall|j: int|
                    0 <= j < pos@.len() ==> #[trigger] pos@[j] < args@.len() && args@[pos@[j] as int] is Type
                        && gs[j] == gleam_of(args@[pos@[j] as int]->Type_0),
                k <= pos.len(),
                parts@.len() == k,
                views(parts@) =~= unwrap_all(gs.subrange(0, k as int)),
            decreases pos.len() - k,
        {
            assert(pos@[k as int] < args@.len());
            assert(gs[k as int] is Some);
            let g = type_arg_to_gleam(seg, pos[k]);
            proof {
                lemma_push_view(parts@, g, gs, k as int);
            }
            parts.push(g);
            k = k + 1;
        }
        assert(gs.subrange(0, pos.len() as int) =~= gs);
        let mut r = ident.clone();
        r.append("(");
        let joined = join_strings(&parts, ", ");
        r.append(joined.as_str());
        r.append(")");
        r
    }
}

/// Whether the generator accepts `ty`, that is whether it names no bare `Atom` in a
/// place that `type_to_gleam` translates.
pub fn is_gleam_type(ty: &RustType) -> (r: bool)
    ensures
        r == gleam_of(*ty) is Some,
    decreases ty, 2nat,
{
    match ty {
        RustType::Path(segs) => {
            if segs.len() == 0 {
                return true;
            }
            let seg = &segs[segs.len() - 1];
            proof {
                assert(decreases_to!(segs => segs@));
                assert(decreases_to!(segs@ => segs@[segs.len() - 1]));
            }
            is_gleam_path(seg)
        },
        RustType::Reference(inner) => is_gleam_type(inner),
        RustType::Tuple(elems) => {
            proof {
                lemma_gleam_list(elems@);
            }
            let mut i: usize = 0;
            while i < elems.len()
                invariant
                    *ty == RustType::Tuple(*elems),
                    i <= elems.len(),
                    gleam_list(elems@).len() == elems@.len(),
                    forall|j: int| 0 <= j < elems@.len() ==> #[trigger] gleam_list(elems@)[j] == gleam_of(elems@[j]),
                    forall|j: int| 0 <= j < i ==> #[trigger] gleam_list(elems@)[j] is Some,
                decreases elems.len() - i,
            {
                proof {
                    assert(decreases_to!(elems => elems@));
                    assert(decreases_to!(elems@ => elems@[i as int]));
                }
                if !is_gleam_type(&elems[i]) {
                    assert(!(gleam_list(elems@)[i as int] is Some));
                    return false;
                }
                i = i + 1;
            }
            true
        },
        RustType::Slice(inner) | RustType::Array(inner) => is_gleam_type(inner),
        RustType::Other(_) => true,
    }
}

/// Whether the type argument at position `p` of a segment is accepted.
fn is_gleam_type_arg(seg: &TypeSegment, p: usize) -> (r: bool)
    requires
        seg.arguments is AngleBracketed,
        p < seg.arguments->AngleBracketed_0@.len(),
        seg.arguments->AngleBracketed_0@[p as int] is Type,
    ensures
        r == gleam_of(seg.arguments->AngleBracketed_0@[p as int]->Type_0) is Some,
    decreases seg, 0nat,
{
    match &seg.arguments {
        PathArguments::AngleBracketed(args) => {
            proof {
                assert(decreases_to!(args => args@));
                assert(decreases_to!(args@ => args@[p as int]));
            }
            match &args[p] {
                GenericArg::Type(t) => is_gleam_type(t),
                _ => false,
            }
        },
        _ => false,
    }
}

/// Whether the generator accepts the path type whose last segment is `seg`.
fn is_gleam_path(seg: &TypeSegment) -> (r: bool)
    ensures
        r == gleam_of_path(seg.ident@, segment_gleam_args(*seg)) is Some,
    decreases seg, 1nat,
{
    let ident = &seg.ident;
    let none: Vec<GenericArg> = Vec::new();
    let args: &Vec<GenericArg> = match &seg.arguments {
        PathArguments::AngleBracketed(a) => a,
        _ => &none,
    };
    assert(gleam_args(args@) == segment_gleam_args(*seg)) by {
        if !(seg.arguments is AngleBracketed) {
            assert(args@ =~= Seq::<GenericArg>::empty());
        }
    }
    let pos = type_arg_positions(args);
    let ghost gs = gleam_args(args@);
    assert(pos.len() > 0 ==> seg.arguments is AngleBracketed && seg.arguments->AngleBracketed_0 == *args);
    if is_int_ident(ident) || string_is(ident, "f32") || string_is(ident, "f64") || string_is(
        ident,
        "bool",
    ) || string_is(ident, "String") || string_is(ident, "str") {
        true
    } else if string_is(ident, "Atom") {
        false
    } else if string_is(ident, "Binary") || string_is(ident, "OwnedBinary") || string_is(
        ident,
        "NewBinary",
    ) {
        true
    } else if string_is(ident, "Vec") || string_is(ident, "Option") {
        if pos.len() > 0 {
            is_gleam_type_arg(seg, pos[0])
        } else {
            true
        }
    } else if string_is(ident, "Result") {
        if pos.len() == 1 {
            is_gleam_type_arg(seg, pos[0])
        } else if pos.len() == 2 {
            is_gleam_type_arg(seg, pos[0]) && is_gleam_type_arg(seg, pos[1])
        } else {
            true
        }
    } else if string_is(ident, "HashMap") || string_is(ident, "BTreeMap") {
        if pos.len() == 2 {
            is_gleam_type_arg(seg, pos[0]) && is_gleam_type_arg(seg, pos[1])
        } else {
            true
        }
    } else if string_is(ident, "ResourceArc") {
        if pos.len() > 0 {
            is_gleam_type_arg(seg, pos[0])
        } else {
            true
        }
    } else {
        assert(gleam_of_path(seg.ident@, gs) is Some <==> (gs.len() == 0 || all_some(gs)));
        let mut k: usize = 0;
        while k < pos.len()
            invariant
                gleam_of_path(seg.ident@, gs) is Some <==> (gs.len() == 0 || all_some(gs)),
                gs == segment_gleam_args(*seg),
                pos.len() > 0 ==> seg.arguments is AngleBracketed && seg.arguments->AngleBracketed_0 == *args,
                gs == gleam_args(args@),
                pos@.len() == gs.len(),
                forall|j: int|
                    0 <= j < pos@.len() ==> #[trigger] pos@[j] < args@.len() && args@[pos@[j] as int] is Type
                        && gs[j] == gleam_of(args@[pos@[j] as int]->Type_0),
                k <= pos.len(),
                forall|j: int| 0 <= j < k ==> #[trigger] gs[j] is Some,
            decreases pos.len() - k,
        {
            assert(pos@[k as int] < args@.len());
            if !is_gleam_type_arg(seg, pos[k]) {
                return false;
            }
            k = k + 1;
        }
        assert(all_some(gs));
        true
    }
}

/// The Gleam names of the type arguments of a segment, in order.
pub open spec fn segment_gleam_args(seg: TypeSegment) -> Seq<Option<Seq<char>>>
    decreases seg,
{
    match seg.arguments {
        PathArguments::AngleBracketed(args) => gleam_args(args@),
        _ => Seq::empty(),
    }
}

// ---------------------------------------------------------------- reading a function

/// Whether a type names the NIF environment (`Env`, or a reference to it).
pub open spec fn is_env(t: RustType) -> bool
    decreases t,
{
    match t {
        RustType::Path(segs) => segs@.len() > 0 && segs@[segs@.len() - 1].ident@ == "Env"@,
        RustType::Reference(inner) => is_env(*inner),
        _ => false,
    }
}

/// Whether a type names the NIF environment; such parameters are not Gleam arguments.
pub fn is_env_type(ty: &RustType) -> (r: bool)
    ensures
        r == is_env(*ty),
    decreases ty,
{
    match ty {
        RustType::Path(segs) => segs.len() > 0 && string_is(&segs[segs.len() - 1].ident, "Env"),
        RustType::Reference(inner) => is_env_type(inner),
        _ => false,
    }
}

/// The name of the parameter at position `idx`: its binding, else `arg` and the position.
pub open spec fn param_name(pat: ParamPat, idx: nat) -> Seq<char> {
    match pat {
        ParamPat::Ident(n) => n@,
        ParamPat::Other => "arg"@ + decimal(idx),
    }
}

/// Whether every parameter that becomes a Gleam argument has a Gleam type.
pub open spec fn params_ok(inputs: Seq<FnParam>) -> bool {
    forall|i: int|
        0 <= i < inputs.len() ==> match #[trigger] inputs[i] {
            FnParam::Typed { pat, ty } => is_env(ty) || gleam_of(ty) is Some,
            FnParam::Receiver => true,
        }
}

/// The Gleam arguments of a function: its typed parameters other than the environment,
/// each with its name and Gleam type.
pub open spec fn nif_params(inputs: Seq<FnParam>) -> Seq<(Seq<char>, Seq<char>)>
    decreases inputs.len(),
{
    if inputs.len() == 0 {
        Seq::empty()
    } else {
        let init = nif_params(inputs.subrange(0, inputs.len() - 1));
        match inputs[inputs.len() - 1] {
            FnParam::Typed { pat, ty } => if is_env(ty) {
                init
            } else {
                init.push((param_name(pat, (inputs.len() - 1) as nat), gleam_of(ty)->0))
            },
            FnParam::Receiver => init,
        }
    }
}

/// The Gleam return type of a function.
pub open spec fn gleam_ret(output: Option<RustType>) -> Option<Seq<char>> {
    match output {
        Some(t) => gleam_of(t),
        None => Some("Nil"@),
    }
}

/// Whether an optional identifier is `name`.
pub open spec fn ident_is(ident: Option<String>, name: Seq<char>) -> bool {
    match ident {
        Some(n) => n@ == name,
        None => false,
    }
}

/// Whether an optional identifier is `lit`.
fn ident_matches(ident: &Option<String>, lit: &str) -> (r: bool)
    ensures
        r == ident_is(*ident, lit@),
{
    match ident {
        Some(n) => string_is(n, lit),
        None => false,
    }
}

/// The items of an attribute `#[gleam_nif(...)]` whose brackets parse.
pub open spec fn gleam_nif_items(a: Attr) -> Option<Seq<NestedMeta>> {
    if ident_is(a.ident, "gleam_nif"@) {
        match a.meta {
            AttrMeta::List(Some(items)) => Some(items@),
            _ => None,
        }
    } else {
        None
    }
}

/// The items of the first `#[gleam_nif(...)]` attribute whose brackets parse.
pub open spec fn first_gleam_nif_items(attrs: Seq<Attr>) -> Option<Seq<NestedMeta>>
    decreases attrs.len(),
{
    if attrs.len() == 0 {
        None
    } else if gleam_nif_items(attrs[0]) is Some {
        gleam_nif_items(attrs[0])
    } else {
        first_gleam_nif_items(attrs.subrange(1, attrs.len() as int))
    }
}

/// The value of the first item `alias = "..."`.
pub open spec fn first_alias(items: Seq<NestedMeta>) -> Option<Seq<char>>
    decreases items.len(),
{
    if items.len() == 0 {
        None
    } else if ident_is(items[0].ident, "alias"@) && items[0].str_value is Some {
        Some(items[0].str_value->0@)
    } else {
        first_alias(items.subrange(1, items.len() as int))
    }
}

/// The alias that `#[gleam_nif(alias = "...")]` gives a function.
pub open spec fn nif_alias(attrs: Seq<Attr>) -> Option<Seq<char>> {
    match first_gleam_nif_items(attrs) {
        Some(items) => first_alias(items),
        None => None,
    }
}

/// A doc comment line without the one space that follows `///`.
pub open spec fn doc_text(s: Seq<char>) -> Seq<char> {
    if s.len() > 0 && s[0] == ' ' {
        s.subrange(1, s.len() as int)
    } else {
        s
    }
}

/// The doc comment lines of a function, in order.
pub open spec fn doc_lines(attrs: Seq<Attr>) -> Seq<Seq<char>>
    decreases attrs.len(),
{
    if attrs.len() == 0 {
        Seq::empty()
    } else {
        let init = doc_lines(attrs.subrange(0, attrs.len() - 1));
        let a = attrs[attrs.len() - 1];
        match a.meta {
            AttrMeta::NameValue(Some(text)) => if ident_is(a.ident, "doc"@) {
                init.push(doc_text(text@))
            } else {
                init
            },
            _ => init,
        }
    }
}

/// The stub description of a NIF, as plain values.
pub struct NifFuncV {
    pub name: Seq<char>,
    pub alias: Option<Seq<char>>,
    pub args: Seq<(Seq<char>, Seq<char>)>,
    pub ret: Seq<char>,
    pub arity: nat,
    pub docs: Seq<Seq<char>>,
}

pub open spec fn arg_views(args: Seq<(String, String)>) -> Seq<(Seq<char>, Seq<char>)> {
    args.map_values(|a: (String, String)| (a.0@, a.1@))
}

impl View for NifFunc {
    type V = NifFuncV;

    open spec fn view(&self) -> NifFuncV {
        NifFuncV {
            name: self.name@,
            alias: match self.alias {
                Some(a) => Some(a@),
                None => None,
            },
            args: arg_views(self.args@),
            ret: self.ret@,
            arity: self.arity as nat,
            docs: views(self.docs@),
        }
    }
}

/// Whether every type that reading `func` translates has a Gleam name.
pub open spec fn nif_fn_ok(func: ItemFn) -> bool {
    params_ok(func.inputs@) && gleam_ret(func.output) is Some
}

/// What reading a `#[gleam_nif]` function gives.
pub open spec fn nif_func_of(func: ItemFn) -> NifFuncV {
    NifFuncV {
        name: func.ident@,
        alias: nif_alias(func.attrs@),
        args: nif_params(func.inputs@),
        ret: gleam_ret(func.output)->0,
        arity: nif_params(func.inputs@).len(),
        docs: doc_lines(func.attrs@),
    }
}

/// The Gleam return type of a function.
fn ret_to_gleam(output: &Option<RustType>) -> (r: String)
    requires
        gleam_ret(*output) is Some,
    ensures
        r@ == gleam_ret(*output)->0,
{
    match output {
        Some(t) => type_to_gleam(t),
        None => String::from_str("Nil"),
    }
}

/// The alias given by the first `#[gleam_nif(...)]` attribute whose brackets parse.
fn find_alias(attrs: &Vec<Attr>) -> (r: Option<String>)
    ensures
        match r {
            Some(a) => nif_alias(attrs@) == Some(a@),
            None => nif_alias(attrs@) is None,
        },
{
    let mut i: usize = 0;
    assert(attrs@.subrange(0, attrs.len() as int) =~= attrs@);
    while i < attrs.len()
        invariant
            i <= attrs.len(),
            first_gleam_nif_items(attrs@) == first_gleam_nif_items(attrs@.subrange(i as int, attrs.len() as int)),
        decreases attrs.len() - i,
    {
        let a = &attrs[i];
        let is_nif = ident_matches(&a.ident, "gleam_nif");
        proof {
            let rest = attrs@.subrange(i as int, attrs.len() as int);
            assert(rest[0] == attrs@[i as int]);
            assert(rest.subrange(1, rest.len() as int) =~= attrs@.subrange(i + 1, attrs.len() as int));
        }
        if is_nif {
            if let AttrMeta::List(Some(items)) = &a.meta {
                assert(first_gleam_nif_items(attrs@) == Some(items@));
                return alias_in(items);
            }
        }
        i = i + 1;
    }
    None
}

/// The value of the first item `alias = "..."` of a list.
fn alias_in(items: &Vec<NestedMeta>) -> (r: Option<String>)
    ensures
        match r {
            Some(a) => first_alias(items@) == Some(a@),
            None => first_alias(items@) is None,
        },
{
    let mut i: usize = 0;
    assert(items@.subrange(0, items.len() as int) =~= items@);
    while i < items.len()
        invariant
            i <= items.len(),
            first_alias(items@) == first_alias(items@.subrange(i as int, items.len() as int)),
        decreases items.len() - i,
    {
        let m = &items[i];
        proof {
            let rest = items@.subrange(i as int, items.len() as int);
            assert(rest[0] == items@[i as int]);
            assert(rest.subrange(1, rest.len() as int) =~= items@.subrange(i + 1, items.len() as int));
        }
        let is_alias = ident_matches(&m.ident, "alias");
        if is_alias {
            if let Some(v) = &m.str_value {
                return Some(v.clone());
            }
        }
        i = i + 1;
    }
    None
}

/// A doc comment line without the one space that follows `///`.
fn strip_doc_space(s: &String) -> (r: String)
    ensures
        r@ == doc_text(s@),
{
    let n = s.as_str().unicode_len();
    if n > 0 && s.as_str().get_char(0) == ' ' {
        String::from_str(s.as_str().substring_char(1, n))
    } else {
        s.clone()
    }
}

/// The doc comment lines of a function, in order.
fn collect_docs(attrs: &Vec<Attr>) -> (r: Vec<String>)
    ensures
        views(r@) == doc_lines(attrs@),
{
    let mut r: Vec<String> = Vec::new();
    let mut i: usize = 0;
    assert(attrs@.subrange(0, 0) =~= Seq::<Attr>::empty());
    while i < attrs.len()
        invariant
            i <= attrs.len(),
            views(r@) == doc_lines(attrs@.subrange(0, i as int)),
        decreases attrs.len() - i,
    {
        let a = &attrs[i];
        proof {
            let t = attrs@.subrange(0, i + 1);
            assert(t.subrange(0, t.len() - 1) =~= attrs@.subrange(0, i as int));
            assert(t[t.len() - 1] == attrs@[i as int]);
        }
        let is_doc = ident_matches(&a.ident, "doc");
        if is_doc {
            if let AttrMeta::NameValue(Some(text)) = &a.meta {
                let line = strip_doc_space(text);
                proof {
                    assert(views(r@.push(line)) =~= views(r@).push(line@));
                }
                r.push(line);
            }
        }
        i = i + 1;
    }
    assert(attrs@.subrange(0, attrs.len() as int) =~= attrs@);
    r
}

/// Reads the stub description of a `#[gleam_nif]` function.
pub fn parse_nif_function(func: &ItemFn) -> (r: Option<NifFunc>)
    requires
        nif_fn_ok(*func),
    ensures
        r matches Some(f) && f@ == nif_func_of(*func),
{
    let name = func.ident.clone();
    let mut args: Vec<(String, String)> = Vec::new();
    let mut idx: usize = 0;
    assert(func.inputs@.subrange(0, 0) =~= Seq::<FnParam>::empty());
    while idx < func.inputs.len()
        invariant
            params_ok(func.inputs@),
            idx <= func.inputs.len(),
            arg_views(args@) == nif_params(func.inputs@.subrange(0, idx as int)),
        decreases func.inputs.len() - idx,
    {
        proof {
            let t = func.inputs@.subrange(0, idx + 1);
            assert(t.subrange(0, t.len() - 1) =~= func.inputs@.subrange(0, idx as int));
            assert(t[t.len() - 1] == func.inputs@[idx as int]);
        }
        if let FnParam::Typed { pat, ty } = &func.inputs[idx] {
            if !is_env_type(ty) {
                let arg_name = match pat {
                    ParamPat::Ident(n) => n.clone(),
                    ParamPat::Other => {
                        let mut n = String::from_str("arg");
                        let d = usize_to_decimal(idx);
                        n.append(d.as_str());
                        n
                    },
                };
                assert(match func.inputs@[idx as int] {
                    FnParam::Typed { pat, ty } => is_env(ty) || gleam_of(ty) is Some,
                    FnParam::Receiver => true,
                });
                let t = type_to_gleam(ty);
                proof {
                    assert(arg_views(args@.push((arg_name, t))) =~= arg_views(args@).push((arg_name@, t@)));
                }
                args.push((arg_name, t));
            }
        }
        idx = idx + 1;
    }
    assert(func.inputs@.subrange(0, func.inputs.len() as int) =~= func.inputs@);
    let ret = ret_to_gleam(&func.output);
    let alias = find_alias(&func.attrs);
    let arity = args.len();
    let docs = collect_docs(&func.attrs);
    let f = NifFunc { name, alias, args, ret, arity, docs };
    assert(f@.alias == nif_alias(func.attrs@));
    Some(f)
}

/// Whether an item carries `#[gleam_nif]` in any form.
pub open spec fn has_gleam_nif_attr(attrs: Seq<Attr>) -> bool {
    exists|i: int| 0 <= i < attrs.len() && ident_is((#[trigger] attrs[i]).ident, "gleam_nif"@)
}

/// Whether any attribute's path is `gleam_nif`.
pub fn has_gleam_nif(attrs: &Vec<Attr>) -> (r: bool)
    ensures
        r == has_gleam_nif_attr(attrs@),
{
    let mut i: usize = 0;
    while i < attrs.len()
        invariant
            i <= attrs.len(),
            forall|k: int| 0 <= k < i ==> !ident_is((#[trigger] attrs@[k]).ident, "gleam_nif"@),
        decreases attrs.len() - i,
    {
        if ident_matches(&attrs[i].ident, "gleam_nif") {
            return true;
        }
        i = i + 1;
    }
    false
}

/// The `#[gleam_nif]` functions among `items`, as the stubs describe them, in order.
pub open spec fn nif_funcs_of(items: Seq<SourceItem>) -> Seq<NifFuncV>
    decreases items.len(),
{
    if items.len() == 0 {
        Seq::empty()
    } else {
        let init = nif_funcs_of(items.subrange(0, items.len() - 1));
        match items[items.len() - 1] {
            SourceItem::Fn(f) => if has_gleam_nif_attr(f.attrs@) {
                init.push(nif_func_of(f))
            } else {
                init
            },
            SourceItem::Other => init,
        }
    }
}

/// Whether every `#[gleam_nif]` function among `items` can be read.
pub open spec fn nif_items_ok(items: Seq<SourceItem>) -> bool {
    forall|i: int|
        0 <= i < items.len() ==> match #[trigger] items[i] {
            SourceItem::Fn(f) => has_gleam_nif_attr(f.attrs@) ==> nif_fn_ok(f),
            SourceItem::Other => true,
        }
}

/// Whether a `#[gleam_nif]` function's parameters and result all have Gleam types (the
/// environment parameter aside).
pub fn nif_fn_supported(func: &ItemFn) -> (r: bool)
    ensures
        r == nif_fn_ok(*func),
{
    let mut i: usize = 0;
    while i < func.inputs.len()
        invariant
            i <= func.inputs@.len(),
            forall|k: int| 0 <= k < i ==> match #[trigger] func.inputs@[k] {
                FnParam::Typed { pat, ty } => is_env(ty) || gleam_of(ty) is Some,
                FnParam::Receiver => true,
            },
        decreases func.inputs@.len() - i,
    {
        if let FnParam::Typed { ty, .. } = &func.inputs[i] {
            if !is_env_type(ty) && !is_gleam_type(ty) {
                return false;
            }
        }
        i = i + 1;
    }
    match &func.output {
        Some(t) => is_gleam_type(t),
        None => true,
    }
}

/// Whether every `#[gleam_nif]` function among the items can be read.
pub fn nif_items_supported(items: &Vec<SourceItem>) -> (r: bool)
    ensures
        r == nif_items_ok(items@),
{
    let mut i: usize = 0;
    while i < items.len()
        invariant
            i <= items@.len(),
            forall|k: int| 0 <= k < i ==> match #[trigger] items@[k] {
                SourceItem::Fn(f) => has_gleam_nif_attr(f.attrs@) ==> nif_fn_ok(f),
                SourceItem::Other => true,
            },
        decreases items@.len() - i,
    {
        if let SourceItem::Fn(f) = &items[i] {
            if has_gleam_nif(&f.attrs) && !nif_fn_supported(f) {
                return false;
            }
        }
        i = i + 1;
    }
    true
}

/// Reads the `#[gleam_nif]` functions among the items of a source file, in order.
pub fn parse_nif_functions(items: &Vec<SourceItem>) -> (r: Vec<NifFunc>)
    requires
        nif_items_ok(items@),
    ensures
        r@.map_values(|f: NifFunc| f@) == nif_funcs_of(items@),
{
    let mut functions: Vec<NifFunc> = Vec::new();
    let mut i: usize = 0;
    assert(items@.subrange(0, 0) =~= Seq::<SourceItem>::empty());
    while i < items.len()
        invariant
            nif_items_ok(items@),
            i <= items.len(),
            functions@.map_values(|f: NifFunc| f@) == nif_funcs_of(items@.subrange(0, i as int)),
        decreases items.len() - i,
    {
        proof {
            let t = items@.subrange(0, i + 1);
            assert(t.subrange(0, t.len() - 1) =~= items@.subrange(0, i as int));
            assert(t[t.len() - 1] == items@[i as int]);
        }
        if let SourceItem::Fn(func) = &items[i] {
            if has_gleam_nif(&func.attrs) {
                assert(match items@[i as int] {
                    SourceItem::Fn(f) => has_gleam_nif_attr(f.attrs@) ==> nif_fn_ok(f),
                    SourceItem::Other => true,
                });
                if let Some(f) = parse_nif_function(func) {
                    proof {
                        assert(functions@.push(f).map_values(|f: NifFunc| f@) =~= functions@.map_values(|f: NifFunc| f@).push(f@));
                    }
                    functions.push(f);
                }
            }
        }
        i = i + 1;
    }
    assert(items@.subrange(0, items.len() as int) =~= items@);
    functions
}

// ---------------------------------------------------------------- the Erlang module

/// The Erlang name of a NIF: its alias where it has one, else its Rust name.
pub open spec fn erl_name(f: NifFuncV) -> Seq<char> {
    match f.alias {
        Some(a) => a,
        None => f.name,
    }
}

fn erl_name_of(f: &NifFunc) -> (r: &String)
    ensures
        r@ == erl_name(f@),
{
    match &f.alias {
        Some(a) => a,
        None => &f.name,
    }
}

/// `name/arity`, as the export list writes a NIF.
pub open spec fn export_entry(f: NifFuncV) -> Seq<char> {
    erl_name(f) + "/"@ + decimal(f.arity)
}

/// `_Arg0`, `_Arg1`, ... for `n` parameters.
pub open spec fn stub_params(n: nat) -> Seq<Seq<char>> {
    Seq::new(n, |i: int| "_Arg"@ + decimal(i as nat))
}

/// The stub that stands for a NIF until the library is loaded.
pub open spec fn stub_entry(f: NifFuncV) -> Seq<char> {
    erl_name(f) + "("@ + join(stub_params(f.arity), ", "@) + ") -> exit(nif_library_not_loaded)."@
}

/// The text of the Erlang module that loads the NIF library, with an export and a stub
/// for each NIF, in order.
pub open spec fn erl_module(fs: Seq<NifFuncV>) -> Seq<char> {
    "-module(gleamler_nif_ffi).\n-export(["@ + join(fs.map_values(|f: NifFuncV| export_entry(f)), ", "@)
        + "]).\n-on_load(init/0).\ninit() ->\n    PrivDir = case code:which(?MODULE) of\n        non_existing -> {ok, Cwd} = file:get_cwd(), filename:join(Cwd, \"priv\");\n        BeamPath -> filename:join([filename:dirname(BeamPath), \"..\", \"priv\"])\n    end,\n    LibName = \"gleamler\",\n    Path = filename:join(PrivDir, LibName),\n    case erlang:load_nif(Path, 0) of\n        ok -> ok;\n        Error -> io:format(\"[Gleamler NIF] Load error: ~p~n\", [Error]), Error\n    end.\n"@
        + join(fs.map_values(|f: NifFuncV| stub_entry(f)), "\n"@)
}

pub open spec fn func_views(funcs: Seq<NifFunc>) -> Seq<NifFuncV> {
    funcs.map_values(|f: NifFunc| f@)
}

fn export_line(f: &NifFunc) -> (r: String)
    ensures
        r@ == export_entry(f@),
{
    let mut r = erl_name_of(f).clone();
    r.append("/");
    let d = usize_to_decimal(f.arity);
    r.append(d.as_str());
    r
}

fn stub_line(f: &NifFunc) -> (r: String)
    ensures
        r@ == stub_entry(f@),
{
    let mut params: Vec<String> = Vec::new();
    let mut i: usize = 0;
    while i < f.arity
        invariant
            i <= f.arity,
            views(params@) =~= stub_params(f.arity as nat).subrange(0, i as int),
        decreases f.arity - i,
    {
        let mut p = String::from_str("_Arg");
        let d = usize_to_decimal(i);
        p.append(d.as_str());
        proof {
            lemma_views_push(params@, p, stub_params(f.arity as nat), i as int);
        }
        params.push(p);
        i = i + 1;
    }
    assert(stub_params(f.arity as nat).subrange(0, f.arity as int) =~= stub_params(f.arity as nat));
    let mut r = erl_name_of(f).clone();
    r.append("(");
    let joined = join_strings(&params, ", ");
    r.append(joined.as_str());
    r.append(") -> exit(nif_library_not_loaded).");
    r
}

/// The Erlang module that loads the NIF library and stands in for each NIF until then.
pub fn generate_erl(funcs: &Vec<NifFunc>) -> (r: String)
    ensures
        r@ == erl_module(func_views(funcs@)),
{
    let ghost fs = func_views(funcs@);
    let mut exports: Vec<String> = Vec::new();
    let mut stubs: Vec<String> = Vec::new();
    let mut i: usize = 0;
    while i < funcs.len()
        invariant
            fs == func_views(funcs@),
            i <= funcs.len(),
            views(exports@) =~= fs.map_values(|f: NifFuncV| export_entry(f)).subrange(0, i as int),
            views(stubs@) =~= fs.map_values(|f: NifFuncV| stub_entry(f)).subrange(0, i as int),
        decreases funcs.len() - i,
    {
        let e = export_line(&funcs[i]);
        let st = stub_line(&funcs[i]);
        proof {
            lemma_views_push(exports@, e, fs.map_values(|f: NifFuncV| export_entry(f)), i as int);
            lemma_views_push(stubs@, st, fs.map_values(|f: NifFuncV| stub_entry(f)), i as int);
        }
        exports.push(e);
        stubs.push(st);
        i = i + 1;
    }
    assert(fs.map_values(|f: NifFuncV| export_entry(f)).subrange(0, funcs.len() as int) =~= fs.map_values(|f: NifFuncV| export_entry(f)));
    assert(fs.map_values(|f: NifFuncV| stub_entry(f)).subrange(0, funcs.len() as int) =~= fs.map_values(|f: NifFuncV| stub_entry(f)));
    let mut r = String::from_str("-module(gleamler_nif_ffi).\n-export([");
    let ex = join_strings(&exports, ", ");
    r.append(ex.as_str());
    r.append("]).\n-on_load(init/0).\ninit() ->\n    PrivDir = case code:which(?MODULE) of\n        non_existing -> {ok, Cwd} = file:get_cwd(), filename:join(Cwd, \"priv\");\n        BeamPath -> filename:join([filename:dirname(BeamPath), \"..\", \"priv\"])\n    end,\n    LibName = \"gleamler\",\n    Path = filename:join(PrivDir, LibName),\n    case erlang:load_nif(Path, 0) of\n        ok -> ok;\n        Error -> io:format(\"[Gleamler NIF] Load error: ~p~n\", [Error]), Error\n    end.\n");
    let st = join_strings(&stubs, "\n");
    r.append(st.as_str());
    r
}

// ---------------------------------------------------------------- the Gleam module

/// The words that Gleam reserves.
pub open spec fn is_gleam_keyword(s: Seq<char>) -> bool {
    s == "as"@ || s == "assert"@ || s == "auto"@ || s == "case"@ || s == "const"@ || s
        == "delegate"@ || s == "derive"@ || s == "echo"@ || s == "else"@ || s == "fn"@ || s
        == "if"@ || s == "implement"@ || s == "import"@ || s == "let"@ || s == "macro"@ || s
        == "opaque"@ || s == "panic"@ || s == "pub"@ || s == "test"@ || s == "todo"@ || s
        == "type"@ || s == "use"@
}

fn gleam_keyword(s: &String) -> (r: bool)
    ensures
        r == is_gleam_keyword(s@),
{
    string_is(s, "as") || string_is(s, "assert") || string_is(s, "auto") || string_is(s, "case")
        || string_is(s, "const") || string_is(s, "delegate") || string_is(s, "derive")
        || string_is(s, "echo") || string_is(s, "else") || string_is(s, "fn") || string_is(s, "if")
        || string_is(s, "implement") || string_is(s, "import") || string_is(s, "let")
        || string_is(s, "macro") || string_is(s, "opaque") || string_is(s, "panic")
        || string_is(s, "pub") || string_is(s, "test") || string_is(s, "todo")
        || string_is(s, "type") || string_is(s, "use")
}

/// A parameter name as Gleam can take it: leading underscores dropped, and a reserved
/// word followed by one underscore.
pub open spec fn clean_param(n: Seq<char>) -> Seq<char> {
    let name = trim_start(n, '_');
    if is_gleam_keyword(name) {
        name + "_"@
    } else {
        name
    }
}

/// A parameter name as Gleam can take it.
pub fn clean_name(n: &str) -> (r: String)
    ensures
        r@ == clean_param(n@),
{
    let mut name = trim_start_char(n, '_');
    if gleam_keyword(&name) {
        name.append("_");
    }
    name
}

/// Whether `marker` occurs in the return type or in a parameter type of some NIF.
pub open spec fn mentions(fs: Seq<NifFuncV>, marker: Seq<char>) -> bool {
    exists|i: int|
        0 <= i < fs.len() && (contains_seq(#[trigger] fs[i].ret, marker) || exists|j: int|
            0 <= j < fs[i].args.len() && contains_seq(#[trigger] fs[i].args[j].1, marker))
}

/// `name: Type` for each parameter.
pub open spec fn param_texts(args: Seq<(Seq<char>, Seq<char>)>) -> Seq<Seq<char>> {
    args.map_values(|a: (Seq<char>, Seq<char>)| clean_param(a.0) + ": "@ + a.1)
}

/// The doc comment that precedes a function, if it has any doc lines.
pub open spec fn doc_block(docs: Seq<Seq<char>>) -> Seq<char> {
    if docs.len() == 0 {
        Seq::empty()
    } else {
        "/// "@ + join(docs, "\n/// "@) + "\n"@
    }
}

/// The external declaration of one NIF.
pub open spec fn gleam_decl(f: NifFuncV) -> Seq<char> {
    doc_block(f.docs) + "@external(erlang, \"gleamler_nif_ffi\", \""@ + erl_name(f) + "\")\npub fn rust_"@
        + erl_name(f) + "("@ + join(param_texts(f.args), ", "@) + ") -> "@ + f.ret + "\n"@
}

/// The parts, one after another.
pub open spec fn concat(parts: Seq<Seq<char>>) -> Seq<char>
    decreases parts.len(),
{
    if parts.len() == 0 {
        Seq::empty()
    } else {
        concat(parts.subrange(0, parts.len() - 1)) + parts[parts.len() - 1]
    }
}

/// The text of the Gleam module that declares each NIF, in order, importing the
/// option and dict modules where some type needs them.
pub open spec fn gleam_module(fs: Seq<NifFuncV>) -> Seq<char> {
    "// AUTOGENERATED by gleamler_codegen\n// Do not edit\n\n"@ + (if mentions(fs, "option.Option"@) {
        "import gleam/option\n"@
    } else {
        Seq::empty()
    }) + (if mentions(fs, "dict.Dict"@) {
        "import gleam/dict\n"@
    } else {
        Seq::empty()
    }) + concat(fs.map_values(|f: NifFuncV| gleam_decl(f)))
}

/// Whether `marker` occurs in the return type or in a parameter type of some NIF.
fn any_mentions(funcs: &Vec<NifFunc>, marker: &str) -> (r: bool)
    ensures
        r == mentions(func_views(funcs@), marker@),
{
    let ghost fs = func_views(funcs@);
    let mut i: usize = 0;
    while i < funcs.len()
        invariant
            fs == func_views(funcs@),
            fs.len() == funcs.len(),
            i <= funcs.len(),
            forall|k: int|
                0 <= k < i ==> !(contains_seq(#[trigger] fs[k].ret, marker@) || exists|j: int|
                    0 <= j < fs[k].args.len() && contains_seq(#[trigger] fs[k].args[j].1, marker@)),
        decreases funcs.len() - i,
    {
        let f = &funcs[i];
        assert(fs[i as int] == f@);
        if str_contains(f.ret.as_str(), marker) {
            assert(contains_seq(fs[i as int].ret, marker@));
            return true;
        }
        let mut j: usize = 0;
        while j < f.args.len()
            invariant
                fs == func_views(funcs@),
                i < funcs.len(),
                fs[i as int] == f@,
                fs[i as int].args.len() == f.args.len(),
                !contains_seq(fs[i as int].ret, marker@),
                j <= f.args.len(),
                forall|q: int| 0 <= q < j ==> !contains_seq(#[trigger] fs[i as int].args[q].1, marker@),
            decreases f.args.len() - j,
        {
            assert(fs[i as int].args[j as int] == (f.args@[j as int].0@, f.args@[j as int].1@));
            if str_contains(f.args[j].1.as_str(), marker) {
                assert(contains_seq(fs[i as int].args[j as int].1, marker@));
                assert(0 <= i < fs.len() && (contains_seq(fs[i as int].ret, marker@) || exists|q: int|
                    0 <= q < fs[i as int].args.len() && contains_seq(#[trigger] fs[i as int].args[q].1, marker@)));
                return true;
            }
            j = j + 1;
        }
        i = i + 1;
    }
    false
}

/// The external declaration of one NIF.
fn decl_text(f: &NifFunc) -> (r: String)
    ensures
        r@ == gleam_decl(f@),
{
    let mut out = String::new();
    if f.docs.len() > 0 {
        out.append("/// ");
        let d = join_strings(&f.docs, "\n/// ");
        out.append(d.as_str());
        out.append("\n");
    }
    assert(out@ == doc_block(f@.docs));
    let erl = erl_name_of(f);
    let mut params: Vec<String> = Vec::new();
    let mut i: usize = 0;
    while i < f.args.len()
        invariant
            i <= f.args.len(),
            views(params@) =~= param_texts(f@.args).subrange(0, i as int),
        decreases f.args.len() - i,
    {
        let mut p = clean_name(f.args[i].0.as_str());
        p.append(": ");
        p.append(f.args[i].1.as_str());
        proof {
            lemma_views_push(params@, p, param_texts(f@.args), i as int);
        }
        params.push(p);
        i = i + 1;
    }
    assert(param_texts(f@.args).subrange(0, f.args.len() as int) =~= param_texts(f@.args));
    out.append("@external(erlang, \"gleamler_nif_ffi\", \"");
    out.append(erl.as_str());
    out.append("\")\npub fn rust_");
    out.append(erl.as_str());
    out.append("(");
    let joined = join_strings(&params, ", ");
    out.append(joined.as_str());
    out.append(") -> ");
    out.append(f.ret.as_str());
    out.append("\n");
    out
}

/// The Gleam module that declares each NIF as an external function, in order.
pub fn generate_gleam(funcs: &Vec<NifFunc>) -> (r: String)
    ensures
        r@ == gleam_module(func_views(funcs@)),
{
    let ghost fs = func_views(funcs@);
    let has_option = any_mentions(funcs, "option.Option");
    let has_dict = any_mentions(funcs, "dict.Dict");
    let mut out = String::from_str("// AUTOGENERATED by gleamler_codegen\n// Do not edit\n\n");
    if has_option {
        out.append("import gleam/option\n");
    }
    if has_dict {
        out.append("import gleam/dict\n");
    }
    let ghost head = out@;
    let mut i: usize = 0;
    let ghost decls = fs.map_values(|f: NifFuncV| gleam_decl(f));
    assert(decls.subrange(0, 0) =~= Seq::<Seq<char>>::empty());
    while i < funcs.len()
        invariant
            fs == func_views(funcs@),
            decls == fs.map_values(|f: NifFuncV| gleam_decl(f)),
            i <= funcs.len(),
            out@ == head + concat(decls.subrange(0, i as int)),
        decreases funcs.len() - i,
    {
        let d = decl_text(&funcs[i]);
        out.append(d.as_str());
        proof {
            let t = decls.subrange(0, i + 1);
            assert(t.subrange(0, t.len() - 1) =~= decls.subrange(0, i as int));
            assert(out@ =~= head + concat(t));
        }
        i = i + 1;
    }
    assert(decls.subrange(0, funcs.len() as int) =~= decls);
    out
}

// ---------------------------------------------------------------- names in one module

/// Why a set of NIFs cannot share one Erlang module.
pub enum ErlNameError {
    /// The NIF's Erlang name is one that every Erlang module defines itself.
    Reserved(String),
    /// Two NIFs have this Erlang name.
    Duplicate(String),
}

/// The function names that an Erlang module defines for itself.
pub open spec fn is_reserved_erl_name(s: Seq<char>) -> bool {
    s == "init"@ || s == "module_info"@ || s == "record_info"@
}

/// What is wrong with the NIF at position `i`, given those before it.
pub open spec fn name_fault(fs: Seq<NifFuncV>, i: int) -> Option<bool> {
    if is_reserved_erl_name(erl_name(fs[i])) {
        Some(true)
    } else if exists|j: int| 0 <= j < i && erl_name(#[trigger] fs[j]) == erl_name(fs[i]) {
        Some(false)
    } else {
        None
    }
}

/// Checks that no NIF takes a reserved Erlang name and that no two share one; the first
/// NIF, in order, that breaks either rule is reported.
pub fn check_erl_names(funcs: &Vec<NifFunc>) -> (r: Result<(), ErlNameError>)
    ensures
        r is Ok <==> forall|i: int| 0 <= i < funcs@.len() ==> #[trigger] name_fault(func_views(funcs@), i) is None,
        r matches Err(e) ==> exists|i: int|
            0 <= i < funcs@.len() && (forall|k: int| 0 <= k < i ==> #[trigger] name_fault(func_views(funcs@), k) is None)
                && match e {
                ErlNameError::Reserved(n) => n@ == erl_name(funcs@[i]@) && #[trigger] name_fault(func_views(funcs@), i) == Some(true),
                ErlNameError::Duplicate(n) => n@ == erl_name(funcs@[i]@) && name_fault(func_views(funcs@), i) == Some(false),
            },
{
    let ghost fs = func_views(funcs@);
    let mut i: usize = 0;
    while i < funcs.len()
        invariant
            fs == func_views(funcs@),
            i <= funcs.len(),
            forall|k: int| 0 <= k < i ==> #[trigger] name_fault(fs, k) is None,
        decreases funcs.len() - i,
    {
        let name = erl_name_of(&funcs[i]);
        assert(fs[i as int] == funcs@[i as int]@);
        if string_is(name, "init") || string_is(name, "module_info") || string_is(name, "record_info") {
            assert(name_fault(fs, i as int) == Some(true));
            return Err(ErlNameError::Reserved(name.clone()));
        }
        let mut j: usize = 0;
        while j < i
            invariant
                fs == func_views(funcs@),
                i < funcs.len(),
                j <= i,
                name@ == erl_name(fs[i as int]),
                !is_reserved_erl_name(erl_name(fs[i as int])),
                forall|k: int| 0 <= k < i ==> #[trigger] name_fault(fs, k) is None,
                forall|q: int| 0 <= q < j ==> erl_name(#[trigger] fs[q]) != erl_name(fs[i as int]),
            decreases i - j,
        {
            let other = erl_name_of(&funcs[j]);
            assert(fs[j as int] == funcs@[j as int]@);
            if other.eq(name) {
                assert(erl_name(fs[j as int]) == erl_name(fs[i as int]));
                assert(name_fault(fs, i as int) == Some(false));
                return Err(ErlNameError::Duplicate(name.clone()));
            }
            j = j + 1;
        }
        assert(name_fault(fs, i as int) is None);
        i = i + 1;
    }
    Ok(())
}

} // verus!

verus! {

/// A hash map and a B-tree map both become a Gleam `dict.Dict` of the key's Gleam type
/// followed by the value's: `HashMap<K, V>` and `BTreeMap<K, V>` give
/// `dict.Dict(K', V')`, where `K'` and `V'` are the Gleam types of `K` and `V`.
pub proof fn lemma_map_types_are_dicts(t: RustType, k: RustType, v: RustType)
    requires
        t matches RustType::Path(segs) && segs@.len() > 0 && ({
            let seg = segs@[segs@.len() - 1];
            &&& seg.ident@ == "HashMap"@ || seg.ident@ == "BTreeMap"@
            &&& seg.arguments matches PathArguments::AngleBracketed(args)
            &&& args@ == seq![GenericArg::Type(k), GenericArg::Type(v)]
        }),
        gleam_of(k) is Some,
        gleam_of(v) is Some,
    ensures
        gleam_of(t) == Some("dict.Dict("@ + gleam_of(k)->0 + ", "@ + gleam_of(v)->0 + ")"@),
{
    reveal_strlit("HashMap");
    reveal_strlit("BTreeMap");
    reveal_strlit("i8");
    reveal_strlit("i16");
    reveal_strlit("i32");
    reveal_strlit("i64");
    reveal_strlit("isize");
    reveal_strlit("u8");
    reveal_strlit("u16");
    reveal_strlit("u32");
    reveal_strlit("u64");
    reveal_strlit("usize");
    reveal_strlit("i128");
    reveal_strlit("u128");
    reveal_strlit("f32");
    reveal_strlit("f64");
    reveal_strlit("bool");
    reveal_strlit("String");
    reveal_strlit("str");
    reveal_strlit("Atom");
    reveal_strlit("Binary");
    reveal_strlit("OwnedBinary");
    reveal_strlit("NewBinary");
    reveal_strlit("Vec");
    reveal_strlit("Option");
    reveal_strlit("Result");
    if let RustType::Path(segs) = t {
        let seg = segs@[segs@.len() - 1];
        if let PathArguments::AngleBracketed(args) = seg.arguments {
            let s = args@;
            let s1 = s.subrange(0, 1);
            let e = Seq::<GenericArg>::empty();
            assert(gleam_args(e) == Seq::<Option<Seq<char>>>::empty());
            assert(s1.subrange(0, 0) =~= e);
            assert(s1.len() == 1);
            assert(s1[0] == GenericArg::Type(k));
            assert(gleam_args(s1) == gleam_args(s1.subrange(0, 0)).push(gleam_of(k)));
            assert(gleam_args(s1) =~= seq![gleam_of(k)]);
            assert(s.subrange(0, s.len() - 1) =~= s1);
            assert(s[s.len() - 1] == GenericArg::Type(v));
            assert(gleam_args(s) =~= seq![gleam_of(k), gleam_of(v)]);
            assert(segment_gleam_args(seg) =~= seq![gleam_of(k), gleam_of(v)]);
            let id = seg.ident@;
            assert(gleam_of(t) == gleam_of_path(id, segment_gleam_args(seg)));
            assert("HashMap"@.len() == 7 && "BTreeMap"@.len() == 8);
            assert(id.len() == 7 || id.len() == 8);
            assert(!is_int_name(id));
            assert(id != "f32"@ && id != "f64"@ && id != "bool"@ && id != "String"@ && id != "str"@);
            assert(id != "Atom"@ && id != "Binary"@ && id != "OwnedBinary"@ && id != "NewBinary"@);
            assert(id != "Vec"@ && id != "Option"@ && id != "Result"@);
        }
    }
}

/// The generated module imports `gleam/option` whenever some NIF's return type mentions
/// `option.Option`, and `gleam/dict` whenever one mentions `dict.Dict`, whatever its
/// parameters.
pub proof fn lemma_return_types_are_imported(fs: Seq<NifFuncV>, i: int)
    requires
        0 <= i < fs.len(),
    ensures
        contains_seq(fs[i].ret, "option.Option"@) ==> contains_seq(gleam_module(fs), "import gleam/option\n"@),
        contains_seq(fs[i].ret, "dict.Dict"@) ==> contains_seq(gleam_module(fs), "import gleam/dict\n"@),
{
    let head = "// AUTOGENERATED by gleamler_codegen\n// Do not edit\n\n"@;
    let opt = if mentions(fs, "option.Option"@) { "import gleam/option\n"@ } else { Seq::empty() };
    let dict = if mentions(fs, "dict.Dict"@) { "import gleam/dict\n"@ } else { Seq::empty() };
    let rest = concat(fs.map_values(|f: NifFuncV| gleam_decl(f)));
    assert(gleam_module(fs) == head + opt + dict + rest);
    if contains_seq(fs[i].ret, "option.Option"@) {
        assert(mentions(fs, "option.Option"@));
        let m = gleam_module(fs);
        let p = "import gleam/option\n"@;
        let at: int = head.len() as int;
        assert(m.subrange(at, at + p.len()) =~= p);
    }
    if contains_seq(fs[i].ret, "dict.Dict"@) {
        assert(mentions(fs, "dict.Dict"@));
        let m = gleam_module(fs);
        let p = "import gleam/dict\n"@;
        let at: int = (head.len() + opt.len()) as int;
        assert(m.subrange(at, at + p.len()) =~= p);
    }
}

} // verus!
