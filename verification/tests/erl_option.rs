use gleamler::atom::Atom;
use gleamler::erl_option::ErlOption;
use gleamler::error::Error;
use gleamler::term::Term;
use gleamler::types::{Decoder, Encoder};

fn is_atom(t: &Term, name: &str) -> bool {
    matches!(t, Term::Atom(a) if a == name)
}

#[test]
fn erl_option_encodes_value_or_undefined() {
    assert!(matches!(ErlOption::some(5i64).encode(), Term::Int(5)));
    assert!(is_atom(&ErlOption::<i64>::none().encode(), "undefined"));
    assert!(matches!(ErlOption::from_option(Some(true)).encode(), Term::Atom(a) if a == "true"));
}

#[test]
fn erl_option_decodes_value_or_undefined() {
    let v = ErlOption::<i64>::decode(&Term::Int(7)).ok().unwrap();
    assert_eq!(v.as_ref().copied(), Some(7));
    let n = ErlOption::<i64>::decode(&Term::Atom("undefined".into())).ok().unwrap();
    assert!(n.into_option().is_none());
    assert!(matches!(ErlOption::<i64>::decode(&Term::Atom("nil".into())), Err(Error::BadArg)));
    assert!(matches!(ErlOption::<i64>::decode(&Term::Binary(vec![1])), Err(Error::BadArg)));
}

#[test]
fn erl_option_of_atoms_reads_undefined_as_a_value() {
    let v = ErlOption::<Atom>::decode(&Term::Atom("undefined".into())).ok().unwrap();
    assert_eq!(v.into_option().map(|a| a.name()), Some("undefined".to_string()));
}
