use gleamler::error::Error;
use gleamler::resource::{align_alloced_mem_for_struct, get_alloc_size_struct};
use gleamler::returned::{min_erts, min_erts_for, NifVersion};
use std::mem;

#[test]
fn min_erts_matches_feature() {
    let expected: &[u8] = b"OTP-26";
    let erts = min_erts();
    assert!(
        erts.starts_with(expected),
        "expected {:?}, got {:?}",
        std::str::from_utf8(expected),
        std::str::from_utf8(&erts)
    );
}

#[test]
fn min_erts_is_nul_terminated() {
    let erts = min_erts();
    assert_eq!(erts, b"OTP-26.0\0".to_vec());
}

#[test]
fn min_erts_per_version() {
    assert!(min_erts_for(NifVersion::V2_15).starts_with("OTP-22"));
    assert!(min_erts_for(NifVersion::V2_16).starts_with("OTP-24"));
    assert!(min_erts_for(NifVersion::V2_17).starts_with("OTP-26"));
}

#[test]
fn alloc_size_u64() {
    assert_eq!(
        get_alloc_size_struct::<u64>(),
        mem::size_of::<u64>() + mem::align_of::<u64>()
    );
}

#[test]
fn alloc_size_struct_with_padding() {
    struct Padded {
        _a: u8,
        _b: u64,
    }
    assert_eq!(
        get_alloc_size_struct::<Padded>(),
        mem::size_of::<Padded>() + mem::align_of::<Padded>()
    );
}

#[test]
fn align_memory_for_struct() {
    let align = mem::align_of::<u64>();
    let base: usize = 0x1000;
    for offset in 0..align * 3 {
        let addr = align_alloced_mem_for_struct::<u64>(base + offset);
        assert!(addr >= base + offset);
        assert!(addr < base + offset + align);
        assert_eq!(addr % align, 0, "alignment failed for offset {}", offset);
    }
}

#[test]
fn error_debug_formatting() {
    let e = Error::BadArg;
    assert_eq!(e.debug_string(), "{error, badarg}");
}

#[test]
fn error_debug_formatting_other_variants() {
    assert_eq!(Error::Atom("oops".to_string()).debug_string(), "{error, oops}");
    assert_eq!(Error::RaiseAtom("boom".to_string()).debug_string(), "throw(boom)");
    assert_eq!(Error::Panic("bad".to_string()).debug_string(), "panic(bad)");
}
