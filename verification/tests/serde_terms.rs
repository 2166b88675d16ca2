use gleamler::serde::atoms::{str_to_term, term_to_string};
use gleamler::serde::error::SerdeError;
use gleamler::serde::ser::Serializer;
use gleamler::serde::util::{
    is_nil, is_none, parse_binary, parse_bool, parse_number, parse_str, term_to_str, validate_binary,
    validate_tuple,
};
use gleamler::serde::SerdeTerm;
use gleamler::term::Term;

fn atom(s: &str) -> Term {
    Term::Atom(s.to_string())
}

fn bin(s: &str) -> Term {
    Term::Binary(s.as_bytes().to_vec())
}

fn is_atom(t: &Term, name: &str) -> bool {
    matches!(t, Term::Atom(a) if a == name)
}

#[test]
fn atoms_round_trip() {
    let t = str_to_term("hello").ok().unwrap();
    assert!(is_atom(&t, "hello"));
    assert_eq!(term_to_string(&t).ok(), Some("hello".to_string()));
    assert!(matches!(term_to_string(&bin("hello")), Err(SerdeError::InvalidAtom)));
    let long = "x".repeat(256);
    assert!(matches!(str_to_term(&long), Err(SerdeError::InvalidAtom)));
    assert!(str_to_term(&"x".repeat(255)).is_ok());
}

#[test]
fn stringable_terms() {
    assert_eq!(term_to_str(&atom("abc")).ok(), Some("abc".to_string()));
    assert_eq!(term_to_str(&bin("déf")).ok(), Some("déf".to_string()));
    assert!(matches!(term_to_str(&Term::Binary(vec![0xff])), Err(SerdeError::ExpectedStringable)));
    assert!(matches!(term_to_str(&Term::Int(1)), Err(SerdeError::ExpectedStringable)));
}

#[test]
fn nil_none_and_bools() {
    assert!(is_nil(&atom("nil")));
    assert!(!is_nil(&atom("none")));
    assert!(is_none(&atom("none")));
    assert_eq!(parse_bool(&atom("true")).ok(), Some(true));
    assert_eq!(parse_bool(&atom("false")).ok(), Some(false));
    assert!(matches!(parse_bool(&atom("yes")), Err(SerdeError::ExpectedBoolean)));
}

#[test]
fn binaries_numbers_and_tuples() {
    assert_eq!(parse_binary(&bin("ab")).ok(), Some(&b"ab"[..]));
    assert!(matches!(parse_binary(&Term::Int(3)), Err(SerdeError::ExpectedBinary)));
    assert!(validate_binary(&bin("")).is_ok());
    assert!(matches!(validate_binary(&atom("a")), Err(SerdeError::ExpectedBinary)));
    assert_eq!(parse_str(&bin("ok")).ok(), Some("ok".to_string()));
    assert!(matches!(parse_str(&Term::Binary(vec![0xc3])), Err(SerdeError::ExpectedStringable)));
    assert!(matches!(parse_str(&atom("ok")), Err(SerdeError::ExpectedBinary)));
    assert_eq!(parse_number::<u8>(&Term::Int(7)).ok(), Some(7u8));
    assert!(matches!(parse_number::<u8>(&Term::Int(700)), Err(SerdeError::ExpectedNumber)));
    assert!(matches!(parse_number::<u8>(&atom("7")), Err(SerdeError::InvalidNumber)));
    let t = Term::Tuple(vec![Term::Int(1), Term::Int(2)]);
    assert_eq!(validate_tuple(t.duplicate(), Some(2)).ok().map(|v| v.len()), Some(2));
    assert!(validate_tuple(t.duplicate(), None).is_ok());
    assert!(matches!(validate_tuple(t, Some(3)), Err(SerdeError::InvalidTuple)));
    assert!(matches!(validate_tuple(Term::Int(1), None), Err(SerdeError::ExpectedTuple)));
}

#[test]
fn serde_term_wraps_a_term() {
    let t = SerdeTerm::from_term(Term::Int(5));
    assert!(matches!(t.into_term(), Term::Int(5)));
}

#[test]
fn scalars_serialize() {
    let s = Serializer::new();
    assert!(is_atom(&s.serialize_bool(true).ok().unwrap(), "true"));
    assert!(is_atom(&s.serialize_none().ok().unwrap(), "none"));
    assert!(matches!(s.serialize_i8(-3).ok().unwrap(), Term::Int(-3)));
    assert!(matches!(s.serialize_u64(u64::MAX).ok().unwrap(), Term::Int(n) if n == u64::MAX as i128));
    assert!(matches!(s.serialize_i128(i128::MIN).ok().unwrap(), Term::Int(n) if n == i128::MIN));
    assert!(matches!(s.serialize_char('é').ok().unwrap(), Term::Binary(b) if b == "é".as_bytes()));
    assert!(matches!(s.serialize_str("hi").ok().unwrap(), Term::Binary(b) if b == b"hi"));
    assert!(matches!(s.serialize_bytes(&[1, 2]).ok().unwrap(), Term::Binary(b) if b == vec![1, 2]));
    assert!(matches!(s.serialize_unit().ok().unwrap(), Term::List(v) if v.is_empty()));
    assert!(is_atom(&s.serialize_unit_variant("E", 0, "blue").ok().unwrap(), "blue"));
    let some = s.serialize_some(Ok(Term::Int(1))).ok().unwrap();
    assert!(matches!(&some, Term::Tuple(v) if v.len() == 2 && is_atom(&v[0], "some")));
    assert!(matches!(s.serialize_some(Err(SerdeError::InvalidMap)), Err(SerdeError::InvalidMap)));
}

#[test]
fn floats_serialize_by_their_bits() {
    let s = Serializer::new();
    assert!(matches!(s.serialize_f64(1.5f64.to_bits()).ok().unwrap(), Term::Float(b) if b == 1.5f64.to_bits()));
    assert!(matches!(s.serialize_f64(f64::NAN.to_bits()), Err(SerdeError::NonFiniteFloat)));
    let a = Serializer::new().with_non_finite_float_as_atom(true);
    assert!(is_atom(&a.serialize_f64(f64::NAN.to_bits()).ok().unwrap(), "nan"));
    assert!(is_atom(&a.serialize_f64(f64::INFINITY.to_bits()).ok().unwrap(), "inf"));
    assert!(is_atom(&a.serialize_f64(f64::NEG_INFINITY.to_bits()).ok().unwrap(), "neg_inf"));
}

#[test]
fn newtypes_and_result_variants() {
    let s = Serializer::new();
    let t = s.serialize_newtype_struct("meters", Ok(Term::Int(3))).ok().unwrap();
    assert!(matches!(&t, Term::Tuple(v) if v.len() == 2 && is_atom(&v[0], "meters")));
    let ok = s.serialize_newtype_variant("Result", 0, "Ok", Ok(Term::Int(1))).ok().unwrap();
    assert!(matches!(&ok, Term::Tuple(v) if is_atom(&v[0], "ok")));
    let err = s.serialize_newtype_variant("core::result::Result", 1, "Err", Ok(Term::Int(1))).ok().unwrap();
    assert!(matches!(&err, Term::Tuple(v) if is_atom(&v[0], "error")));
    let other = s.serialize_newtype_variant("Shape", 0, "Ok", Ok(Term::Int(1))).ok().unwrap();
    assert!(matches!(&other, Term::Tuple(v) if is_atom(&v[0], "Ok")));
    let long = "n".repeat(300);
    assert!(matches!(s.serialize_newtype_struct(&long, Ok(Term::Int(1))), Err(SerdeError::InvalidAtom)));
    assert!(matches!(s.serialize_newtype_struct("x", Err(SerdeError::ExpectedTuple)), Err(SerdeError::ExpectedTuple)));
}

#[test]
fn sequences_become_lists_and_tuples() {
    let s = Serializer::new();
    let mut seq = s.serialize_seq(None).ok().unwrap();
    seq.serialize_element(Ok(Term::Int(1))).ok().unwrap();
    seq.add(Term::Int(2));
    assert!(seq.serialize_element(Err(SerdeError::InvalidMap)).is_err());
    assert!(matches!(seq.to_list().ok().unwrap(), Term::List(v) if v.len() == 2));
    let mut ts = s.serialize_tuple_struct("point", 2).ok().unwrap();
    ts.add(Term::Int(1));
    ts.add(Term::Int(2));
    assert!(matches!(&ts.to_tuple().ok().unwrap(), Term::Tuple(v) if v.len() == 3 && is_atom(&v[0], "point")));
    assert!(s.serialize_tuple_variant("E", 0, &"v".repeat(256), 1).is_err());
}

#[test]
fn maps_alternate_keys_and_values() {
    let s = Serializer::new();
    let mut m = s.serialize_map(None).ok().unwrap();
    m.serialize_key(Ok(atom("a"))).ok().unwrap();
    assert!(matches!(m.add_key(atom("b")), Err(SerdeError::SerializationError(msg)) if msg == "MapSerializer::add_key called twice in a row"));
    assert!(matches!(m.to_map(), Err(SerdeError::InvalidMap)));
    m.serialize_value(Ok(Term::Int(1))).ok().unwrap();
    assert!(matches!(m.add_val(Term::Int(2)), Err(SerdeError::SerializationError(msg)) if msg == "MapSerializer::add_val called incorrectly"));
    assert!(matches!(m.to_map().ok().unwrap(), Term::MapTerm(e) if e.len() == 1));
    m.add_key(atom("a")).ok().unwrap();
    m.add_val(Term::Int(3)).ok().unwrap();
    assert!(matches!(m.to_map(), Err(SerdeError::InvalidMap)));
}

#[test]
fn structs_and_struct_variants_become_maps() {
    let s = Serializer::new();
    let mut st = s.serialize_struct("P", 2).ok().unwrap();
    st.serialize_field("x", Ok(Term::Int(1))).ok().unwrap();
    st.serialize_field("y", Ok(Term::Int(2))).ok().unwrap();
    let m = st.to_map().ok().unwrap();
    assert!(matches!(&m, Term::MapTerm(e) if e.len() == 2 && matches!(&e[0].0, Term::Binary(b) if b == b"x")));
    let mut sv = s.serialize_struct_variant("E", 0, "circle", 1).ok().unwrap();
    sv.serialize_field("r", Ok(Term::Int(5))).ok().unwrap();
    let m = sv.to_map().ok().unwrap();
    assert!(matches!(&m, Term::MapTerm(e) if e.len() == 2 && is_atom(&e[0].0, "__struct__") && is_atom(&e[0].1, "circle")));
    let mut bad = s.serialize_struct("P", 1).ok().unwrap();
    assert!(bad.serialize_field("x", Err(SerdeError::InvalidAtom)).is_err());
    assert!(matches!(bad.to_map(), Err(SerdeError::InvalidMap)));
}
