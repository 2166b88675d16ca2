use vstd::prelude::*;
use vstd::utf8::*;

use crate::atom::{self, Atom, atom_v, string_is};
use crate::error::{Error, NifResult};
use crate::term::{Term, TermV, lemma_terms_view, term_view, terms_view};
use crate::text::char_to_string;

verus! {

broadcast use {encode_utf8_decode_utf8, encode_utf8_valid_utf8};

/// A Rust value with a mathematical model, used to state what encoding and decoding do.
pub trait Modeled {
    type M;

    spec fn model(&self) -> Self::M;
}

/// Rust values that can be turned into Erlang terms.
pub trait Encoder: Modeled {
    /// The term that a value with model `m` becomes.
    spec fn encoding(m: Self::M) -> TermV;

    fn encode(&self) -> (t: Term)
        ensures
            t@ == Self::encoding(self.model()),
    ;
}

/// Rust values that can be read back from Erlang terms.
pub trait Decoder: Modeled + Sized {
    /// The model of the value that a term decodes to, if it decodes at all.
    spec fn decoding(t: TermV) -> Option<Self::M>;

    fn decode(term: &Term) -> (r: NifResult<Self>)
        ensures
            r matches Ok(v) ==> Self::decoding(term@) == Some(v.model()),
            r is Err ==> Self::decoding(term@) is None,
            r matches Err(e) ==> e is BadArg,
    ;
}

/// Types whose encoding loses nothing: decoding an encoded value gives the value back.
pub trait Transcoder: Encoder + Decoder {
    proof fn lemma_decode_encode(v: &Self)
        ensures
            Self::decoding(Self::encoding(v.model())) == Some(v.model()),
    ;
}

/// The term that a string becomes: a binary holding its UTF-8 bytes.
pub open spec fn string_encoding(s: Seq<char>) -> TermV {
    TermV::Binary(encode_utf8(s))
}

/// The string that a term holds, if it is a binary of valid UTF-8.
pub open spec fn string_decoding(t: TermV) -> Option<Seq<char>> {
    match t {
        TermV::Binary(b) => if valid_utf8(b) { Some(decode_utf8(b)) } else { None },
        _ => None,
    }
}

/// Reads bytes as UTF-8; `None` if they are not valid UTF-8.
/// Calls `String::from_utf8`, which the standard library documents to fail exactly on
/// invalid UTF-8 and otherwise to hold the decoded characters.
#[verifier::external_body]
pub(crate) fn string_from_utf8(bytes: Vec<u8>) -> (r: Option<String>)
    ensures
        r is Some <==> valid_utf8(bytes@),
        r matches Some(s) ==> s@ == decode_utf8(bytes@),
{
    String::from_utf8(bytes).ok()
}

/// The UTF-8 bytes of a string, as a binary term.
pub fn str_to_term(s: &str) -> (t: Term)
    ensures
        t@ == string_encoding(s@),
{
    Term::Binary(s.as_bytes_vec())
}

/// Reads a string out of a binary term.
pub fn term_to_string(t: &Term) -> (r: NifResult<String>)
    ensures
        r matches Ok(s) ==> string_decoding(t@) == Some(s@),
        r is Err ==> string_decoding(t@) is None,
        r matches Err(e) ==> e is BadArg,
{
    match t {
        Term::Binary(b) => match string_from_utf8(b.clone()) {
            Some(s) => Ok(s),
            None => Err(Error::BadArg),
        },
        _ => Err(Error::BadArg),
    }
}

// ---------------------------------------------------------------- terms

impl Modeled for Term {
    type M = TermV;

    open spec fn model(&self) -> TermV {
        self@
    }
}

impl Encoder for Term {
    open spec fn encoding(m: TermV) -> TermV {
        m
    }

    fn encode(&self) -> (t: Term) {
        self.duplicate()
    }
}

impl Decoder for Term {
    open spec fn decoding(t: TermV) -> Option<TermV> {
        Some(t)
    }

    fn decode(term: &Term) -> (r: NifResult<Term>) {
        Ok(term.duplicate())
    }
}

impl Transcoder for Term {
    proof fn lemma_decode_encode(v: &Self) {
    }
}

impl Modeled for Atom {
    type M = Seq<char>;

    open spec fn model(&self) -> Seq<char> {
        self@
    }
}

impl Encoder for Atom {
    open spec fn encoding(m: Seq<char>) -> TermV {
        TermV::Atom(m)
    }

    fn encode(&self) -> (t: Term) {
        self.to_term()
    }
}

impl Decoder for Atom {
    open spec fn decoding(t: TermV) -> Option<Seq<char>> {
        match t {
            TermV::Atom(a) => Some(a),
            _ => None,
        }
    }

    fn decode(term: &Term) -> (r: NifResult<Atom>) {
        Atom::from_term(term)
    }
}

impl Transcoder for Atom {
    proof fn lemma_decode_encode(v: &Self) {
    }
}

// ---------------------------------------------------------------- strings

impl Modeled for String {
    type M = Seq<char>;

    open spec fn model(&self) -> Seq<char> {
        self@
    }
}

impl Encoder for String {
    open spec fn encoding(m: Seq<char>) -> TermV {
        string_encoding(m)
    }

    fn encode(&self) -> (t: Term) {
        str_to_term(self.as_str())
    }
}

impl Decoder for String {
    open spec fn decoding(t: TermV) -> Option<Seq<char>> {
        string_decoding(t)
    }

    fn decode(term: &Term) -> (r: NifResult<String>) {
        term_to_string(term)
    }
}

impl Transcoder for String {
    proof fn lemma_decode_encode(v: &Self) {
    }
}

impl Modeled for str {
    type M = Seq<char>;

    open spec fn model(&self) -> Seq<char> {
        self@
    }
}

impl Encoder for str {
    open spec fn encoding(m: Seq<char>) -> TermV {
        string_encoding(m)
    }

    fn encode(&self) -> (t: Term) {
        str_to_term(self)
    }
}

impl Modeled for char {
    type M = char;

    open spec fn model(&self) -> char {
        *self
    }
}

impl Encoder for char {
    open spec fn encoding(m: char) -> TermV {
        string_encoding(seq![m])
    }

    fn encode(&self) -> (t: Term) {
        let s = char_to_string(*self);
        str_to_term(s.as_str())
    }
}

impl Decoder for char {
    open spec fn decoding(t: TermV) -> Option<char> {
        match string_decoding(t) {
            Some(s) => if s.len() == 1 { Some(s[0]) } else { None },
            None => None,
        }
    }

    fn decode(term: &Term) -> (r: NifResult<char>) {
        let s = term_to_string(term)?;
        let st = s.as_str();
        if st.unicode_len() == 1 {
            Ok(st.get_char(0))
        } else {
            Err(Error::BadArg)
        }
    }
}

impl Transcoder for char {
    proof fn lemma_decode_encode(v: &Self) {
    }
}

// ---------------------------------------------------------------- booleans and unit

impl Modeled for bool {
    type M = bool;

    open spec fn model(&self) -> bool {
        *self
    }
}

impl Encoder for bool {
    open spec fn encoding(m: bool) -> TermV {
        if m { atom_v("true"@) } else { atom_v("false"@) }
    }

    fn encode(&self) -> (t: Term) {
        if *self {
            atom::true_().to_term()
        } else {
            atom::false_().to_term()
        }
    }
}

impl Decoder for bool {
    open spec fn decoding(t: TermV) -> Option<bool> {
        if t == atom_v("true"@) {
            Some(true)
        } else if t == atom_v("false"@) {
            Some(false)
        } else {
            None
        }
    }

    fn decode(term: &Term) -> (r: NifResult<bool>) {
        proof { atom::lemma_names_distinct(); }
        atom::decode_bool(term)
    }
}

impl Transcoder for bool {
    proof fn lemma_decode_encode(v: &Self) {
        atom::lemma_names_distinct();
    }
}

impl Modeled for () {
    type M = ();

    open spec fn model(&self) -> () {
        ()
    }
}

impl Encoder for () {
    open spec fn encoding(m: ()) -> TermV {
        TermV::List(Seq::empty())
    }

    fn encode(&self) -> (t: Term) {
        let t = Term::List(Vec::new());
        proof { assert(terms_view(Seq::<Term>::empty()) =~= Seq::empty()); }
        t
    }
}

impl Decoder for () {
    open spec fn decoding(t: TermV) -> Option<()> {
        match t {
            TermV::List(s) => if s.len() == 0 { Some(()) } else { None },
            _ => None,
        }
    }

    fn decode(term: &Term) -> (r: NifResult<()>) {
        match term {
            Term::List(v) => {
                proof { lemma_terms_view(v@); }
                if v.len() == 0 {
                    Ok(())
                } else {
                    Err(Error::BadArg)
                }
            },
            _ => Err(Error::BadArg),
        }
    }
}

impl Transcoder for () {
    proof fn lemma_decode_encode(v: &Self) {
    }
}


// ---------------------------------------------------------------- references

impl<'a, T: Modeled + ?Sized> Modeled for &'a T {
    type M = T::M;

    open spec fn model(&self) -> T::M {
        (**self).model()
    }
}

impl<'a, T: Encoder + ?Sized> Encoder for &'a T {
    open spec fn encoding(m: T::M) -> TermV {
        T::encoding(m)
    }

    fn encode(&self) -> (t: Term) {
        (**self).encode()
    }
}

// ---------------------------------------------------------------- options and results

impl<T: Modeled> Modeled for Option<T> {
    type M = Option<T::M>;

    open spec fn model(&self) -> Option<T::M> {
        match self {
            Some(x) => Some(x.model()),
            None => None,
        }
    }
}

impl<T: Encoder> Encoder for Option<T> {
    open spec fn encoding(m: Option<T::M>) -> TermV {
        match m {
            Some(x) => TermV::Tuple(seq![atom_v("some"@), T::encoding(x)]),
            None => atom_v("none"@),
        }
    }

    fn encode(&self) -> (t: Term) {
        match self {
            Some(v) => Term::pair(atom::some().to_term(), v.encode()),
            None => atom::none().to_term(),
        }
    }
}

impl<T: Decoder> Decoder for Option<T> {
    open spec fn decoding(t: TermV) -> Option<Option<T::M>> {
        match t {
            TermV::Tuple(s) => if s.len() == 2 && s[0] == atom_v("some"@) {
                match T::decoding(s[1]) {
                    Some(x) => Some(Some(x)),
                    None => None,
                }
            } else {
                None
            },
            TermV::Atom(a) => if a == "none"@ || a == "nil"@ { Some(None) } else { None },
            _ => None,
        }
    }

    fn decode(term: &Term) -> (r: NifResult<Option<T>>) {
        match term {
            Term::Tuple(v) => {
                proof { lemma_terms_view(v@); }
                if v.len() == 2 {
                    let is_some = match &v[0] {
                        Term::Atom(s) => string_is(s, "some"),
                        _ => false,
                    };
                    if is_some {
                        match T::decode(&v[1]) {
                            Ok(x) => Ok(Some(x)),
                            Err(e) => Err(e),
                        }
                    } else {
                        Err(Error::BadArg)
                    }
                } else {
                    Err(Error::BadArg)
                }
            },
            Term::Atom(s) => {
                if string_is(s, "none") || string_is(s, "nil") {
                    Ok(None)
                } else {
                    Err(Error::BadArg)
                }
            },
            _ => Err(Error::BadArg),
        }
    }
}

impl<T: Transcoder> Transcoder for Option<T> {
    proof fn lemma_decode_encode(v: &Self) {
        atom::lemma_names_distinct();
        match v {
            Some(x) => T::lemma_decode_encode(x),
            None => {},
        }
    }
}

impl<T: Modeled, E: Modeled> Modeled for Result<T, E> {
    type M = Result<T::M, E::M>;

    open spec fn model(&self) -> Result<T::M, E::M> {
        match self {
            Ok(x) => Ok(x.model()),
            Err(e) => Err(e.model()),
        }
    }
}

impl<T: Encoder, E: Encoder> Encoder for Result<T, E> {
    open spec fn encoding(m: Result<T::M, E::M>) -> TermV {
        match m {
            Ok(x) => TermV::Tuple(seq![atom_v("ok"@), T::encoding(x)]),
            Err(e) => TermV::Tuple(seq![atom_v("error"@), E::encoding(e)]),
        }
    }

    fn encode(&self) -> (t: Term) {
        match self {
            Ok(v) => Term::pair(atom::ok().to_term(), v.encode()),
            Err(e) => Term::pair(atom::error().to_term(), e.encode()),
        }
    }
}

impl<T: Decoder, E: Decoder> Decoder for Result<T, E> {
    open spec fn decoding(t: TermV) -> Option<Result<T::M, E::M>> {
        match t {
            TermV::Tuple(s) => if s.len() == 2 && s[0] == atom_v("ok"@) {
                match T::decoding(s[1]) {
                    Some(x) => Some(Ok(x)),
                    None => None,
                }
            } else if s.len() == 2 && s[0] == atom_v("error"@) {
                match E::decoding(s[1]) {
                    Some(e) => Some(Err(e)),
                    None => None,
                }
            } else {
                None
            },
            _ => None,
        }
    }

    fn decode(term: &Term) -> (r: NifResult<Result<T, E>>) {
        match term {
            Term::Tuple(v) => {
                proof { lemma_terms_view(v@); }
                if v.len() != 2 {
                    return Err(Error::BadArg);
                }
                match &v[0] {
                    Term::Atom(s) => {
                        if string_is(s, "ok") {
                            match T::decode(&v[1]) {
                                Ok(x) => Ok(Ok(x)),
                                Err(e) => Err(e),
                            }
                        } else if string_is(s, "error") {
                            match E::decode(&v[1]) {
                                Ok(x) => Ok(Err(x)),
                                Err(e) => Err(e),
                            }
                        } else {
                            Err(Error::BadArg)
                        }
                    },
                    _ => Err(Error::BadArg),
                }
            },
            _ => Err(Error::BadArg),
        }
    }
}

impl<T: Transcoder, E: Transcoder> Transcoder for Result<T, E> {
    proof fn lemma_decode_encode(v: &Self) {
        atom::lemma_names_distinct();
        match v {
            Ok(x) => T::lemma_decode_encode(x),
            Err(e) => E::lemma_decode_encode(e),
        }
    }
}

// ---------------------------------------------------------------- tuples

impl<A: Modeled, B: Modeled> Modeled for (A, B) {
    type M = (A::M, B::M);

    open spec fn model(&self) -> (A::M, B::M) {
        (self.0.model(), self.1.model())
    }
}

impl<A: Encoder, B: Encoder> Encoder for (A, B) {
    open spec fn encoding(m: (A::M, B::M)) -> TermV {
        TermV::Tuple(seq![A::encoding(m.0), B::encoding(m.1)])
    }

    fn encode(&self) -> (t: Term) {
        Term::pair(self.0.encode(), self.1.encode())
    }
}

impl<A: Decoder, B: Decoder> Decoder for (A, B) {
    open spec fn decoding(t: TermV) -> Option<(A::M, B::M)> {
        match t {
            TermV::Tuple(s) => if s.len() == 2 {
                match (A::decoding(s[0]), B::decoding(s[1])) {
                    (Some(a), Some(b)) => Some((a, b)),
                    _ => None,
                }
            } else {
                None
            },
            _ => None,
        }
    }

    fn decode(term: &Term) -> (r: NifResult<(A, B)>) {
        match term {
            Term::Tuple(v) => {
                proof { lemma_terms_view(v@); }
                if v.len() != 2 {
                    return Err(Error::BadArg);
                }
                let a = match A::decode(&v[0]) {
                    Ok(a) => a,
                    Err(e) => return Err(e),
                };
                let b = match B::decode(&v[1]) {
                    Ok(b) => b,
                    Err(e) => return Err(e),
                };
                Ok((a, b))
            },
            _ => Err(Error::BadArg),
        }
    }
}

impl<A: Transcoder, B: Transcoder> Transcoder for (A, B) {
    proof fn lemma_decode_encode(v: &Self) {
        A::lemma_decode_encode(&v.0);
        B::lemma_decode_encode(&v.1);
    }
}

impl<A: Modeled, B: Modeled, C: Modeled> Modeled for (A, B, C) {
    type M = (A::M, B::M, C::M);

    open spec fn model(&self) -> (A::M, B::M, C::M) {
        (self.0.model(), self.1.model(), self.2.model())
    }
}

impl<A: Encoder, B: Encoder, C: Encoder> Encoder for (A, B, C) {
    open spec fn encoding(m: (A::M, B::M, C::M)) -> TermV {
        TermV::Tuple(seq![A::encoding(m.0), B::encoding(m.1), C::encoding(m.2)])
    }

    fn encode(&self) -> (t: Term) {
        Term::triple(self.0.encode(), self.1.encode(), self.2.encode())
    }
}

impl<A: Decoder, B: Decoder, C: Decoder> Decoder for (A, B, C) {
    open spec fn decoding(t: TermV) -> Option<(A::M, B::M, C::M)> {
        match t {
            TermV::Tuple(s) => if s.len() == 3 {
                match (A::decoding(s[0]), B::decoding(s[1]), C::decoding(s[2])) {
                    (Some(a), Some(b), Some(c)) => Some((a, b, c)),
                    _ => None,
                }
            } else {
                None
            },
            _ => None,
        }
    }

    fn decode(term: &Term) -> (r: NifResult<(A, B, C)>) {
        match term {
            Term::Tuple(v) => {
                proof { lemma_terms_view(v@); }
                if v.len() != 3 {
                    return Err(Error::BadArg);
                }
                let a = match A::decode(&v[0]) {
                    Ok(a) => a,
                    Err(e) => return Err(e),
                };
                let b = match B::decode(&v[1]) {
                    Ok(b) => b,
                    Err(e) => return Err(e),
                };
                let c = match C::decode(&v[2]) {
                    Ok(c) => c,
                    Err(e) => return Err(e),
                };
                Ok((a, b, c))
            },
            _ => Err(Error::BadArg),
        }
    }
}

impl<A: Transcoder, B: Transcoder, C: Transcoder> Transcoder for (A, B, C) {
    proof fn lemma_decode_encode(v: &Self) {
        A::lemma_decode_encode(&v.0);
        B::lemma_decode_encode(&v.1);
        C::lemma_decode_encode(&v.2);
    }
}

// ---------------------------------------------------------------- lists

impl<T: Modeled> Modeled for Vec<T> {
    type M = Seq<T::M>;

    open spec fn model(&self) -> Seq<T::M> {
        Seq::new(self@.len(), |i: int| self@[i].model())
    }
}

impl<T: Encoder> Encoder for Vec<T> {
    open spec fn encoding(m: Seq<T::M>) -> TermV {
        TermV::List(Seq::new(m.len(), |i: int| T::encoding(m[i])))
    }

    fn encode(&self) -> (t: Term) {
        let mut items: Vec<Term> = Vec::new();
        let mut i: usize = 0;
        while i < self.len()
            invariant
                i <= self.len(),
                items.len() == i,
                forall|k: int| 0 <= k < i ==> (#[trigger] items@[k])@ == T::encoding(self@[k].model()),
            decreases self.len() - i,
        {
            items.push(self[i].encode());
            i = i + 1;
        }
        proof {
            lemma_terms_view(items@);
            assert(terms_view(items@) =~= Seq::new(self.model().len(), |k: int| T::encoding(self.model()[k])));
        }
        Term::List(items)
    }
}

impl<T: Decoder> Decoder for Vec<T> {
    open spec fn decoding(t: TermV) -> Option<Seq<T::M>> {
        match t {
            TermV::List(s) => if forall|i: int| 0 <= i < s.len() ==> #[trigger] T::decoding(s[i]) is Some {
                Some(Seq::new(s.len(), |i: int| T::decoding(s[i])->Some_0))
            } else {
                None
            },
            _ => None,
        }
    }

    fn decode(term: &Term) -> (r: NifResult<Vec<T>>) {
        match term {
            Term::List(v) => {
                proof { lemma_terms_view(v@); }
                let ghost s = terms_view(v@);
                let mut out: Vec<T> = Vec::new();
                let mut i: usize = 0;
                while i < v.len()
                    invariant
                        i <= v.len(),
                        out.len() == i,
                        s == terms_view(v@),
                        term@ == TermV::List(s),
                        s.len() == v.len(),
                        forall|k: int| 0 <= k < v.len() ==> #[trigger] s[k] == term_view(v@[k]),
                        forall|k: int| 0 <= k < i ==> T::decoding(s[k]) == Some((#[trigger] out@[k]).model()),
                    decreases v.len() - i,
                {
                    match T::decode(&v[i]) {
                        Ok(x) => out.push(x),
                        Err(e) => {
                            assert(T::decoding(s[i as int]) is None);
                            assert(!(forall|k: int| 0 <= k < s.len() ==> #[trigger] T::decoding(s[k]) is Some));
                            assert(term@ == TermV::List(s));
                            return Err(e);
                        },
                    }
                    i = i + 1;
                }
                assert forall|k: int| 0 <= k < s.len() implies #[trigger] T::decoding(s[k]) is Some by {
                    assert(T::decoding(s[k]) == Some(out@[k].model()));
                }
                proof {
                    assert(out.model() =~= Seq::new(s.len(), |k: int| T::decoding(s[k])->Some_0));
                }
                Ok(out)
            },
            _ => Err(Error::BadArg),
        }
    }
}

impl<T: Transcoder> Transcoder for Vec<T> {
    proof fn lemma_decode_encode(v: &Self) {
        let m = v.model();
        let s = Seq::new(m.len(), |i: int| T::encoding(m[i]));
        assert forall|i: int| 0 <= i < s.len() implies #[trigger] T::decoding(s[i]) == Some(m[i]) by {
            T::lemma_decode_encode(&v@[i]);
        }
        assert(Seq::new(s.len(), |i: int| T::decoding(s[i])->Some_0) =~= m);
    }
}

// ---------------------------------------------------------------- integers

impl Modeled for i8 {
    type M = int;

    open spec fn model(&self) -> int {
        *self as int
    }
}

impl Encoder for i8 {
    open spec fn encoding(m: int) -> TermV {
        TermV::Int(m)
    }

    fn encode(&self) -> (t: Term) {
        Term::Int(*self as i128)
    }
}

impl Decoder for i8 {
    open spec fn decoding(t: TermV) -> Option<int> {
        match t {
            TermV::Int(i) => if i8::MIN as int <= i && i <= i8::MAX as int { Some(i) } else { None },
            _ => None,
        }
    }

    fn decode(term: &Term) -> (r: NifResult<i8>) {
        match term {
            Term::Int(i) => if *i >= i8::MIN as i128 && *i <= i8::MAX as i128 {
                Ok(*i as i8)
            } else {
                Err(Error::BadArg)
            },
            _ => Err(Error::BadArg),
        }
    }
}

impl Transcoder for i8 {
    proof fn lemma_decode_encode(v: &Self) {
    }
}

impl Modeled for i16 {
    type M = int;

    open spec fn model(&self) -> int {
        *self as int
    }
}

impl Encoder for i16 {
    open spec fn encoding(m: int) -> TermV {
        TermV::Int(m)
    }

    fn encode(&self) -> (t: Term) {
        Term::Int(*self as i128)
    }
}

impl Decoder for i16 {
    open spec fn decoding(t: TermV) -> Option<int> {
        match t {
            TermV::Int(i) => if i16::MIN as int <= i && i <= i16::MAX as int { Some(i) } else { None },
            _ => None,
        }
    }

    fn decode(term: &Term) -> (r: NifResult<i16>) {
        match term {
            Term::Int(i) => if *i >= i16::MIN as i128 && *i <= i16::MAX as i128 {
                Ok(*i as i16)
            } else {
                Err(Error::BadArg)
            },
            _ => Err(Error::BadArg),
        }
    }
}

impl Transcoder for i16 {
    proof fn lemma_decode_encode(v: &Self) {
    }
}

impl Modeled for i32 {
    type M = int;

    open spec fn model(&self) -> int {
        *self as int
    }
}

impl Encoder for i32 {
    open spec fn encoding(m: int) -> TermV {
        TermV::Int(m)
    }

    fn encode(&self) -> (t: Term) {
        Term::Int(*self as i128)
    }
}

impl Decoder for i32 {
    open spec fn decoding(t: TermV) -> Option<int> {
        match t {
            TermV::Int(i) => if i32::MIN as int <= i && i <= i32::MAX as int { Some(i) } else { None },
            _ => None,
        }
    }

    fn decode(term: &Term) -> (r: NifResult<i32>) {
        match term {
            Term::Int(i) => if *i >= i32::MIN as i128 && *i <= i32::MAX as i128 {
                Ok(*i as i32)
            } else {
                Err(Error::BadArg)
            },
            _ => Err(Error::BadArg),
        }
    }
}

impl Transcoder for i32 {
    proof fn lemma_decode_encode(v: &Self) {
    }
}

impl Modeled for i64 {
    type M = int;

    open spec fn model(&self) -> int {
        *self as int
    }
}

impl Encoder for i64 {
    open spec fn encoding(m: int) -> TermV {
        TermV::Int(m)
    }

    fn encode(&self) -> (t: Term) {
        Term::Int(*self as i128)
    }
}

impl Decoder for i64 {
    open spec fn decoding(t: TermV) -> Option<int> {
        match t {
            TermV::Int(i) => if i64::MIN as int <= i && i <= i64::MAX as int { Some(i) } else { None },
            _ => None,
        }
    }

    fn decode(term: &Term) -> (r: NifResult<i64>) {
        match term {
            Term::Int(i) => if *i >= i64::MIN as i128 && *i <= i64::MAX as i128 {
                Ok(*i as i64)
            } else {
                Err(Error::BadArg)
            },
            _ => Err(Error::BadArg),
        }
    }
}

impl Transcoder for i64 {
    proof fn lemma_decode_encode(v: &Self) {
    }
}

impl Modeled for i128 {
    type M = int;

    open spec fn model(&self) -> int {
        *self as int
    }
}

impl Encoder for i128 {
    open spec fn encoding(m: int) -> TermV {
        TermV::Int(m)
    }

    fn encode(&self) -> (t: Term) {
        Term::Int(*self as i128)
    }
}

impl Decoder for i128 {
    open spec fn decoding(t: TermV) -> Option<int> {
        match t {
            TermV::Int(i) => if true { Some(i) } else { None },
            _ => None,
        }
    }

    fn decode(term: &Term) -> (r: NifResult<i128>) {
        match term {
            Term::Int(i) => Ok(*i),
            _ => Err(Error::BadArg),
        }
    }
}

impl Transcoder for i128 {
    proof fn lemma_decode_encode(v: &Self) {
    }
}

impl Modeled for isize {
    type M = int;

    open spec fn model(&self) -> int {
        *self as int
    }
}

impl Encoder for isize {
    open spec fn encoding(m: int) -> TermV {
        TermV::Int(m)
    }

    fn encode(&self) -> (t: Term) {
        Term::Int(*self as i128)
    }
}

impl Decoder for isize {
    open spec fn decoding(t: TermV) -> Option<int> {
        match t {
            TermV::Int(i) => if isize::MIN as int <= i && i <= isize::MAX as int { Some(i) } else { None },
            _ => None,
        }
    }

    fn decode(term: &Term) -> (r: NifResult<isize>) {
        match term {
            Term::Int(i) => if *i >= isize::MIN as i128 && *i <= isize::MAX as i128 {
                Ok(*i as isize)
            } else {
                Err(Error::BadArg)
            },
            _ => Err(Error::BadArg),
        }
    }
}

impl Transcoder for isize {
    proof fn lemma_decode_encode(v: &Self) {
    }
}

impl Modeled for u8 {
    type M = int;

    open spec fn model(&self) -> int {
        *self as int
    }
}

impl Encoder for u8 {
    open spec fn encoding(m: int) -> TermV {
        TermV::Int(m)
    }

    fn encode(&self) -> (t: Term) {
        Term::Int(*self as i128)
    }
}

impl Decoder for u8 {
    open spec fn decoding(t: TermV) -> Option<int> {
        match t {
            TermV::Int(i) => if u8::MIN as int <= i && i <= u8::MAX as int { Some(i) } else { None },
            _ => None,
        }
    }

    fn decode(term: &Term) -> (r: NifResult<u8>) {
        match term {
            Term::Int(i) => if *i >= u8::MIN as i128 && *i <= u8::MAX as i128 {
                Ok(*i as u8)
            } else {
                Err(Error::BadArg)
            },
            _ => Err(Error::BadArg),
        }
    }
}

impl Transcoder for u8 {
    proof fn lemma_decode_encode(v: &Self) {
    }
}

impl Modeled for u16 {
    type M = int;

    open spec fn model(&self) -> int {
        *self as int
    }
}

impl Encoder for u16 {
    open spec fn encoding(m: int) -> TermV {
        TermV::Int(m)
    }

    fn encode(&self) -> (t: Term) {
        Term::Int(*self as i128)
    }
}

impl Decoder for u16 {
    open spec fn decoding(t: TermV) -> Option<int> {
        match t {
            TermV::Int(i) => if u16::MIN as int <= i && i <= u16::MAX as int { Some(i) } else { None },
            _ => None,
        }
    }

    fn decode(term: &Term) -> (r: NifResult<u16>) {
        match term {
            Term::Int(i) => if *i >= u16::MIN as i128 && *i <= u16::MAX as i128 {
                Ok(*i as u16)
            } else {
                Err(Error::BadArg)
            },
            _ => Err(Error::BadArg),
        }
    }
}

impl Transcoder for u16 {
    proof fn lemma_decode_encode(v: &Self) {
    }
}

impl Modeled for u32 {
    type M = int;

    open spec fn model(&self) -> int {
        *self as int
    }
}

impl Encoder for u32 {
    open spec fn encoding(m: int) -> TermV {
        TermV::Int(m)
    }

    fn encode(&self) -> (t: Term) {
        Term::Int(*self as i128)
    }
}

impl Decoder for u32 {
    open spec fn decoding(t: TermV) -> Option<int> {
        match t {
            TermV::Int(i) => if u32::MIN as int <= i && i <= u32::MAX as int { Some(i) } else { None },
            _ => None,
        }
    }

    fn decode(term: &Term) -> (r: NifResult<u32>) {
        match term {
            Term::Int(i) => if *i >= u32::MIN as i128 && *i <= u32::MAX as i128 {
                Ok(*i as u32)
            } else {
                Err(Error::BadArg)
            },
            _ => Err(Error::BadArg),
        }
    }
}

impl Transcoder for u32 {
    proof fn lemma_decode_encode(v: &Self) {
    }
}

impl Modeled for u64 {
    type M = int;

    open spec fn model(&self) -> int {
        *self as int
    }
}

impl Encoder for u64 {
    open spec fn encoding(m: int) -> TermV {
        TermV::Int(m)
    }

    fn encode(&self) -> (t: Term) {
        Term::Int(*self as i128)
    }
}

impl Decoder for u64 {
    open spec fn decoding(t: TermV) -> Option<int> {
        match t {
            TermV::Int(i) => if u64::MIN as int <= i && i <= u64::MAX as int { Some(i) } else { None },
            _ => None,
        }
    }

    fn decode(term: &Term) -> (r: NifResult<u64>) {
        match term {
            Term::Int(i) => if *i >= u64::MIN as i128 && *i <= u64::MAX as i128 {
                Ok(*i as u64)
            } else {
                Err(Error::BadArg)
            },
            _ => Err(Error::BadArg),
        }
    }
}

impl Transcoder for u64 {
    proof fn lemma_decode_encode(v: &Self) {
    }
}

impl Modeled for usize {
    type M = int;

    open spec fn model(&self) -> int {
        *self as int
    }
}

impl Encoder for usize {
    open spec fn encoding(m: int) -> TermV {
        TermV::Int(m)
    }

    fn encode(&self) -> (t: Term) {
        Term::Int(*self as i128)
    }
}

impl Decoder for usize {
    open spec fn decoding(t: TermV) -> Option<int> {
        match t {
            TermV::Int(i) => if usize::MIN as int <= i && i <= usize::MAX as int { Some(i) } else { None },
            _ => None,
        }
    }

    fn decode(term: &Term) -> (r: NifResult<usize>) {
        match term {
            Term::Int(i) => if *i >= usize::MIN as i128 && *i <= usize::MAX as i128 {
                Ok(*i as usize)
            } else {
                Err(Error::BadArg)
            },
            _ => Err(Error::BadArg),
        }
    }
}

impl Transcoder for usize {
    proof fn lemma_decode_encode(v: &Self) {
    }
}

} // verus!

verus! {

/// An optional value is read as `None` from the atom `nil` (as Erlang and Elixir callers
/// write no value), exactly as from the atom `none` that `None` is written as; no other
/// atom is read as an optional value.
pub proof fn lemma_nil_reads_as_none<T: Decoder>(a: Seq<char>)
    ensures
        <Option<T> as Decoder>::decoding(TermV::Atom("nil"@)) == Some(None::<T::M>),
        <Option<T> as Decoder>::decoding(TermV::Atom("nil"@)) == <Option<T> as Decoder>::decoding(
            TermV::Atom("none"@),
        ),
        a != "nil"@ && a != "none"@ ==> <Option<T> as Decoder>::decoding(TermV::Atom(a)) is None,
{
}

} // verus!
