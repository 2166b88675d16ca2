use gleamler::interop::{Decimal, Uuid};
use gleamler::term::Term;
use gleamler::types::{Decoder, Encoder};

#[test]
fn bytes_buffers_are_binaries() {
    let b = bytes::Bytes::from_static(b"abc");
    let t = b.encode();
    assert!(matches!(&t, Term::Binary(v) if v == b"abc"));
    let back = bytes::Bytes::decode(&t).ok().unwrap();
    assert_eq!(&back[..], b"abc");
    assert!(bytes::Bytes::decode(&Term::Int(1)).is_err());
}

#[test]
fn uuids_are_sixteen_byte_binaries() {
    let raw: Vec<u8> = (0u8..16).collect();
    let u = Uuid::from_slice(&raw).unwrap();
    assert!(matches!(u.encode(), Term::Binary(v) if v == raw));
    assert!(Uuid::from_slice(&raw[..15]).is_none());
    assert!(Uuid::decode(&Term::Binary(vec![1, 2, 3])).is_err());
    let back = Uuid::decode(&Term::Binary(raw.clone())).ok().unwrap();
    assert_eq!(back.bytes.to_vec(), raw);
}

#[test]
fn decimals_are_strings() {
    let d = Decimal::from_parts(-12345, 3).unwrap();
    assert!(matches!(d.encode(), Term::Binary(v) if v == b"-12.345"));
    let back = Decimal::decode(&Term::Binary(b"1.50".to_vec())).ok().unwrap();
    assert_eq!((back.mantissa(), back.scale()), (150, 2));
    assert!(Decimal::decode(&Term::Binary(b"one".to_vec())).is_err());
    assert!(Decimal::from_parts(1, 29).is_none());
}

#[test]
fn decimal_text_edges() {
    let text = |m: i128, s: u32| match Decimal::from_parts(m, s).unwrap().encode() {
        Term::Binary(b) => String::from_utf8(b).unwrap(),
        _ => panic!("a decimal encodes as a binary"),
    };
    assert_eq!(text(5, 3), "0.005");
    assert_eq!(text(0, 2), "0.00");
    assert_eq!(text(0, 0), "0");
    assert_eq!(text(-5, 0), "-5");
    assert_eq!(text(150, 2), "1.50");
    assert_eq!(text(-7, 1), "-0.7");
}
