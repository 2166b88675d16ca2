use gleamler::term::Term;
use gleamler::time::{Duration, ErlangTimestamp, SystemTime};
use gleamler::types::{Decoder, Encoder};

fn ints(t: &Term) -> Vec<i128> {
    match t {
        Term::Tuple(items) => items
            .iter()
            .map(|i| match i {
                Term::Int(n) => *n,
                _ => panic!("not an integer"),
            })
            .collect(),
        _ => panic!("not a tuple"),
    }
}

fn triple(a: i128, b: i128, c: i128) -> Term {
    Term::Tuple(vec![Term::Int(a), Term::Int(b), Term::Int(c)])
}

#[test]
fn erlang_timestamp_decomposition() {
    let ts = ErlangTimestamp(Duration::from_micros(1_000_001));
    assert_eq!(ts.0.as_micros(), 1_000_001);
}

#[test]
fn erlang_timestamp_encodes_mega_secs_micro() {
    let ts = ErlangTimestamp(Duration::from_micros(12_345_678_901_234));
    assert_eq!(ints(&ts.encode()), vec![12, 345_678, 901_234]);
}

#[test]
fn erlang_timestamp_roundtrip() {
    let ts = ErlangTimestamp(Duration::from_micros(1_500_000_123));
    let back = ErlangTimestamp::decode(&ts.encode()).ok().unwrap();
    assert_eq!(back.0.as_micros(), 1_500_000_123);
}

#[test]
fn erlang_timestamp_overflow_is_badarg() {
    let t = triple(u64::MAX as i128, 0, 0);
    assert!(ErlangTimestamp::decode(&t).is_err());
    let t = triple(1, 2, -3);
    assert!(ErlangTimestamp::decode(&t).is_err());
}

#[test]
fn duration_encodes_micros() {
    let d = Duration::from_secs(3).checked_add(Duration::from_micros(7)).unwrap();
    match d.encode() {
        Term::Int(n) => assert_eq!(n, 3_000_007),
        _ => panic!("not an integer"),
    }
    let back = Duration::decode(&Term::Int(42)).ok().unwrap();
    assert_eq!(back.as_micros(), 42);
    assert!(Duration::decode(&Term::Int(-1)).is_err());
}

#[test]
fn duration_arithmetic() {
    let a = Duration::from_micros(1_999_999);
    let b = Duration::from_micros(1);
    let s = a.checked_add(b).unwrap();
    assert_eq!(s.as_secs(), 2);
    assert_eq!(s.subsec_micros(), 0);
    assert!(Duration::from_secs(u64::MAX).checked_add(Duration::from_secs(1)).is_none());
    assert!(b.checked_sub(a).is_none());
    assert_eq!(a.checked_sub(b).unwrap().as_micros(), 1_999_998);
}

#[test]
fn system_time_epoch_zero() {
    let epoch = SystemTime::unix_epoch();
    let dur = epoch.duration_since(SystemTime::unix_epoch()).ok().unwrap();
    assert_eq!(dur.as_secs(), 0);
}

#[test]
fn system_time_future() {
    let future = SystemTime::unix_epoch().add(Duration::from_secs(1_000_000_000));
    let total_micros = future
        .duration_since(SystemTime::unix_epoch())
        .ok()
        .unwrap()
        .as_micros() as u64;
    assert_eq!(total_micros, 1_000_000_000_000_000u64);
}

#[test]
fn system_time_decomposition_identity() {
    let total = 12_345_678_901_234u64;
    let mega = total / 1_000_000_000_000u64;
    let secs = (total % 1_000_000_000_000u64) / 1_000_000u64;
    let micro = total % 1_000_000u64;
    assert_eq!(mega, 12);
    assert_eq!(secs, 345_678);
    assert_eq!(micro, 901_234);
    let reconstructed = mega * 1_000_000_000_000u64 + secs * 1_000_000u64 + micro;
    assert_eq!(reconstructed, total);
    let t = SystemTime::unix_epoch().add(Duration::from_micros(total));
    assert_eq!(ints(&t.encode()), vec![12, 345_678, 901_234]);
}

#[test]
fn system_time_before_epoch_clamped_in_encoder() {
    let before = SystemTime::unix_epoch().sub(Duration::from_micros(1));
    let dur = before.duration_since(SystemTime::unix_epoch());
    assert!(dur.is_err());
    assert_eq!(ints(&before.encode()), vec![0, 0, 0]);
}

#[test]
fn system_time_decoder_from_tuple() {
    let total = 1_000_000u64 + 500_000u64;
    assert_eq!(total, 1_500_000u64);
    let t = SystemTime::decode(&triple(0, 1, 500_000)).ok().unwrap();
    let micros = t.duration_since(SystemTime::unix_epoch()).ok().unwrap().as_micros() as u64;
    assert_eq!(micros, total);
}

#[test]
fn system_time_decoder_from_integer() {
    let micros = 42_000_000u64;
    let t = SystemTime::unix_epoch().add(Duration::from_micros(micros));
    let since_epoch = t.duration_since(SystemTime::unix_epoch()).ok().unwrap();
    assert_eq!(since_epoch.as_secs(), 42);
    let d = SystemTime::decode(&Term::Int(micros as i128)).ok().unwrap();
    assert_eq!(d.duration_since(SystemTime::unix_epoch()).ok().unwrap().as_secs(), 42);
}

#[test]
fn system_time_decoder_refuses_overflow() {
    assert!(SystemTime::decode(&triple(u64::MAX as i128, 0, 0)).is_err());
    assert!(SystemTime::decode(&triple(0, u64::MAX as i128, 0)).is_err());
    assert!(SystemTime::decode(&Term::Atom("now".to_string())).is_err());
}

fn assert_encoder<T: Encoder>() {}
fn assert_decoder<T: Decoder>() {}

#[test]
fn duration_impls_exist() {
    assert_encoder::<Duration>();
    assert_decoder::<Duration>();
    assert_encoder::<ErlangTimestamp>();
    assert_decoder::<ErlangTimestamp>();
}
