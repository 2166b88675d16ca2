use gleamler::term::Term;
use gleamler::types::{Decoder, Encoder};

#[test]
fn nonzero_decode_zero_would_fail() {
    assert!(std::num::NonZeroU64::new(0).is_none());
    assert!(std::num::NonZeroI32::new(0).is_none());
    assert_eq!(std::num::NonZeroU64::new(42).unwrap().get(), 42);
}

#[test]
fn char_decode_logic() {
    assert_eq!("a".chars().count(), 1);
    assert_eq!("é".chars().count(), 1);
    assert_eq!("".chars().count(), 0);
    assert_eq!("ab".chars().count(), 2);
}

#[test]
fn char_roundtrip_and_refusals() {
    let t = 'é'.encode();
    assert!(matches!(&t, Term::Binary(b) if b == &vec![0xc3, 0xa9]));
    assert_eq!(char::decode(&t).ok(), Some('é'));
    assert!(char::decode(&Term::Binary(b"ab".to_vec())).is_err());
    assert!(char::decode(&Term::Binary(vec![])).is_err());
}

#[test]
fn integer_ranges() {
    assert_eq!(u8::decode(&Term::Int(255)).ok(), Some(255u8));
    assert!(u8::decode(&Term::Int(256)).is_err());
    assert!(u64::decode(&Term::Int(-1)).is_err());
    assert_eq!(i64::decode(&(-5i64).encode()).ok(), Some(-5));
}

#[test]
fn bool_and_unit() {
    assert!(matches!(true.encode(), Term::Atom(ref s) if s == "true"));
    assert_eq!(bool::decode(&Term::Atom("false".to_string())).ok(), Some(false));
    assert!(bool::decode(&Term::Atom("maybe".to_string())).is_err());
    assert!(matches!(().encode(), Term::List(ref v) if v.is_empty()));
}

fn assert_encoder<T: Encoder>() {}
fn assert_decoder<T: Decoder>() {}

#[test]
fn char_impls_exist() {
    assert_encoder::<char>();
    assert_decoder::<char>();
}

#[test]
fn nonzero_impls_exist() {
    // A non-zero integer is encoded as the integer it holds and read as one that is not 0.
    let n = std::num::NonZeroU64::new(42).unwrap();
    assert!(matches!(n.get().encode(), Term::Int(42)));
    let read = u64::decode(&Term::Int(42)).ok().and_then(std::num::NonZeroU64::new);
    assert_eq!(read, Some(n));
    assert!(u64::decode(&Term::Int(0)).ok().and_then(std::num::NonZeroU64::new).is_none());
    let read = i32::decode(&Term::Int(-7)).ok().and_then(std::num::NonZeroI32::new);
    assert_eq!(read.map(|v| v.get()), Some(-7));
    assert!(i32::decode(&Term::Int(0)).ok().and_then(std::num::NonZeroI32::new).is_none());
}
