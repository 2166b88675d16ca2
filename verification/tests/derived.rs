use gleamler::derive::{decode_map_field, map_field_error};
use gleamler::derive::{
    field_position, map_field, map_term, record_field_error, record_fields, record_term, tuple_field_error,
    tuple_fields, tuple_term,
};
use gleamler::error::Error;
use gleamler::term::Term;

fn is_atom(t: &Term, name: &str) -> bool {
    matches!(t, Term::Atom(a) if a == name)
}

#[test]
fn records_round_trip() {
    let t = record_term("point", vec![Term::Int(1), Term::Int(2)]);
    assert!(matches!(&t, Term::Tuple(v) if v.len() == 3 && is_atom(&v[0], "point")));
    let f = record_fields(&t, "point", "Point", 2).ok().unwrap();
    assert!(matches!(f.as_slice(), [Term::Int(1), Term::Int(2)]));
    assert!(matches!(record_fields(&t, "line", "Point", 2), Err(Error::RaiseAtom(a)) if a == "invalid_record"));
    assert!(matches!(record_fields(&t, "point", "Point", 3), Err(Error::RaiseAtom(a)) if a == "invalid_record"));
    assert!(matches!(record_fields(&Term::Int(0), "point", "Point", 2),
        Err(Error::RaiseTerm(Term::Binary(b))) if b == b"Invalid Record structure for Point"));
    let bad_tag = Term::Tuple(vec![Term::Int(0), Term::Int(1), Term::Int(2)]);
    assert!(matches!(record_fields(&bad_tag, "point", "Point", 2), Err(Error::BadArg)));
    assert!(matches!(record_field_error("x", "Point"),
        Error::RaiseTerm(Term::Binary(b)) if b == b"Could not decode field x on Record Point"));
}

#[test]
fn tuples_round_trip() {
    let t = tuple_term(vec![Term::Int(1), Term::Atom("a".into())]);
    assert_eq!(tuple_fields(&t, 2).ok().map(|v| v.len()), Some(2));
    assert!(matches!(tuple_fields(&t, 3), Err(Error::BadArg)));
    assert!(matches!(tuple_fields(&Term::Int(1), 0), Err(Error::BadArg)));
    assert_eq!(field_position(None, 12), "12");
    assert_eq!(field_position(Some("name"), 0), "name");
    assert!(matches!(tuple_field_error("0", "Pair"),
        Error::RaiseTerm(Term::Binary(b)) if b == b"Could not decode field 0 on Pair"));
}

#[test]
fn maps_round_trip() {
    let names = vec!["x".to_string(), "y".to_string()];
    let m = map_term(&names, vec![Term::Int(1), Term::Int(2)]);
    assert!(matches!(&m, Term::MapTerm(e) if e.len() == 2
        && matches!(&e[0], (Term::Binary(k), Term::Int(1)) if k == b"x")
        && matches!(&e[1], (Term::Binary(k), Term::Int(2)) if k == b"y")));
    assert!(matches!(map_field(&m, "y").ok().unwrap(), Term::Int(2)));
    let atom_keyed = Term::MapTerm(vec![(Term::Atom("y".into()), Term::Int(2))]);
    assert!(matches!(map_field(&atom_keyed, "y"), Err(Error::BadArg)));
    assert!(matches!(map_field(&m, "z"), Err(Error::BadArg)));
    assert!(matches!(map_field(&Term::Int(1), "x"), Err(Error::BadArg)));
}

#[test]
fn map_fields_that_do_not_decode() {
    let names = vec!["count".to_string(), "label".to_string()];
    let m = map_term(&names, vec![Term::Int(3), Term::Atom("x".into())]);
    assert_eq!(decode_map_field::<i64>(&m, "count").ok(), Some(3));
    assert!(matches!(decode_map_field::<i64>(&m, "label"),
        Err(Error::RaiseTerm(Term::Binary(b))) if b == b"Could not decode field label of map"));
    assert!(matches!(decode_map_field::<i64>(&m, "missing"), Err(Error::BadArg)));
    assert!(matches!(map_field_error("f"), Error::RaiseTerm(Term::Binary(b)) if b == b"Could not decode field f of map"));
}
