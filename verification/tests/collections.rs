use gleamler::types::{Decoder, Encoder};
use std::collections::{BTreeMap, BTreeSet, HashMap, HashSet};

use gleamler::address::{address_parts, address_term};
use gleamler::collections::{
    decode_btree_map, decode_btree_set, decode_hash_map, decode_hash_set, encode_btree_map, encode_btree_set,
    encode_hash_map, encode_hash_set,
};
use gleamler::error::Error;
use gleamler::term::Term;

fn bin(s: &str) -> Term {
    Term::Binary(s.as_bytes().to_vec())
}

fn lookup<'a>(t: &'a Term, key: &[u8]) -> Option<&'a Term> {
    match t {
        Term::MapTerm(entries) => entries.iter().find(|(k, _)| matches!(k, Term::Binary(b) if b == key)).map(|(_, v)| v),
        _ => None,
    }
}

#[test]
fn hash_map_round_trip() {
    let mut m: HashMap<String, i64> = HashMap::new();
    m.insert("a".to_string(), 1);
    m.insert("b".to_string(), -2);
    let t = encode_hash_map(&m);
    assert!(matches!(&t, Term::MapTerm(e) if e.len() == 2));
    assert!(matches!(lookup(&t, b"a"), Some(Term::Int(1))));
    assert!(matches!(lookup(&t, b"b"), Some(Term::Int(-2))));
    let back: HashMap<String, i64> = decode_hash_map(&t).ok().unwrap();
    assert_eq!(back, m);
}

#[test]
fn empty_hash_map() {
    let m: HashMap<u64, bool> = HashMap::new();
    let t = encode_hash_map(&m);
    assert!(matches!(&t, Term::MapTerm(e) if e.is_empty()));
    assert!(decode_hash_map::<u64, bool>(&t).ok().unwrap().is_empty());
}

#[test]
fn btree_map_round_trip() {
    let mut m: BTreeMap<u32, String> = BTreeMap::new();
    m.insert(7, "seven".to_string());
    m.insert(3, "three".to_string());
    let t = encode_btree_map(&m);
    assert!(matches!(&t, Term::MapTerm(e) if e.len() == 2
        && e.iter().any(|(k, v)| matches!(k, Term::Int(3)) && matches!(v, Term::Binary(b) if b == b"three"))));
    let back: BTreeMap<u32, String> = decode_btree_map(&t).ok().unwrap();
    assert_eq!(back, m);
}

#[test]
fn maps_that_do_not_decode() {
    assert!(matches!(decode_hash_map::<String, i64>(&Term::Int(1)), Err(Error::BadArg)));
    assert!(matches!(decode_btree_map::<u32, String>(&Term::List(vec![])), Err(Error::BadArg)));
    let bad_value = Term::MapTerm(vec![(bin("a"), Term::Atom("x".into()))]);
    assert!(matches!(decode_hash_map::<String, i64>(&bad_value), Err(Error::BadArg)));
    let bad_key = Term::MapTerm(vec![(Term::Int(-1), bin("x"))]);
    assert!(matches!(decode_btree_map::<u32, String>(&bad_key), Err(Error::BadArg)));
}

#[test]
fn socket_address_terms() {
    let t = address_term("127.0.0.1", 8080);
    assert!(matches!(&t, Term::Tuple(v) if v.len() == 2
        && matches!(&v[0], Term::Binary(b) if b == b"127.0.0.1") && matches!(v[1], Term::Int(8080))));
    let (ip, port) = address_parts(&t).ok().unwrap();
    assert_eq!(ip, "127.0.0.1");
    assert_eq!(port, 8080);
    let v6 = address_term("::1", 443);
    assert_eq!(address_parts(&v6).ok().unwrap(), ("::1".to_string(), 443));
}

#[test]
fn socket_address_ports_out_of_range() {
    let too_big = Term::Tuple(vec![bin("10.0.0.1"), Term::Int(65536)]);
    assert!(matches!(address_parts(&too_big), Err(Error::BadArg)));
    let negative = Term::Tuple(vec![bin("10.0.0.1"), Term::Int(-1)]);
    assert!(matches!(address_parts(&negative), Err(Error::BadArg)));
    let top = Term::Tuple(vec![bin("10.0.0.1"), Term::Int(65535)]);
    assert_eq!(address_parts(&top).ok().unwrap().1, 65535);
    assert!(matches!(address_parts(&bin("10.0.0.1")), Err(Error::BadArg)));
    let three = Term::Tuple(vec![bin("10.0.0.1"), Term::Int(1), Term::Int(2)]);
    assert!(matches!(address_parts(&three), Err(Error::BadArg)));
}

#[test]
fn hash_set_round_trip() {
    let set: HashSet<i64> = [3, -1, 7].into_iter().collect();
    let t = encode_hash_set(&set);
    match &t {
        Term::List(items) => {
            assert_eq!(items.len(), 3);
            for n in [3i128, -1, 7] {
                assert!(items.iter().any(|i| matches!(i, Term::Int(v) if *v == n)));
            }
        },
        _ => panic!("a set encodes as a list"),
    }
    assert_eq!(decode_hash_set::<i64>(&t).ok().unwrap(), set);
}

#[test]
fn btree_set_round_trip_in_order() {
    let set: BTreeSet<String> = ["pear", "apple", "fig"].iter().map(|s| s.to_string()).collect();
    let t = encode_btree_set(&set);
    assert!(matches!(&t, Term::List(items) if items.len() == 3
        && matches!(&items[0], Term::Binary(b) if b == b"apple")
        && matches!(&items[2], Term::Binary(b) if b == b"pear")));
    assert_eq!(decode_btree_set::<String>(&t).ok().unwrap(), set);
}

#[test]
fn sets_fold_repeated_items() {
    let t = Term::List(vec![Term::Int(1), Term::Int(2), Term::Int(1)]);
    let s = decode_hash_set::<u8>(&t).ok().unwrap();
    assert_eq!(s.len(), 2);
    let b = decode_btree_set::<u8>(&t).ok().unwrap();
    assert_eq!(b.into_iter().collect::<Vec<_>>(), vec![1, 2]);
    assert!(matches!(decode_hash_set::<u8>(&Term::List(vec![Term::Int(300)])), Err(Error::BadArg)));
    assert!(matches!(decode_btree_set::<u8>(&Term::Int(1)), Err(Error::BadArg)));
}

#[test]
fn btree_map_trait_impls_exist() {
    let _: fn(&BTreeMap<String, i64>) -> Term = encode_btree_map::<String, i64>;
    let _: fn(&Term) -> Result<BTreeMap<String, i64>, Error> = decode_btree_map::<String, i64>;
    let _: fn(&BTreeMap<i64, String>) -> Term = encode_btree_map::<i64, String>;
    let _: fn(&Term) -> Result<BTreeMap<i64, String>, Error> = decode_btree_map::<i64, String>;
}

#[test]
fn trait_impls_exist() {
    fn assert_encoder<T: Encoder>() {}
    fn assert_decoder<T: Decoder>() {}
    let _: fn(&HashSet<i64>) -> Term = encode_hash_set::<i64>;
    let _: fn(&Term) -> Result<HashSet<i64>, Error> = decode_hash_set::<i64>;
    let _: fn(&BTreeSet<i64>) -> Term = encode_btree_set::<i64>;
    let _: fn(&Term) -> Result<BTreeSet<i64>, Error> = decode_btree_set::<i64>;
    assert_encoder::<std::collections::VecDeque<String>>();
    assert_decoder::<std::collections::VecDeque<String>>();
    // A linked list is encoded and read as the list of its items, through a vector.
    assert_encoder::<Vec<bool>>();
    assert_decoder::<Vec<bool>>();
    let list: std::collections::LinkedList<bool> = [true, false].into_iter().collect();
    let t = list.iter().copied().collect::<Vec<bool>>().encode();
    let back: std::collections::LinkedList<bool> = Vec::<bool>::decode(&t).ok().unwrap().into_iter().collect();
    assert_eq!(back, list);
}
