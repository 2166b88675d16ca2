//! Terms for values of the `bytes`, `uuid` and `rust_decimal` crates.
use vstd::prelude::*;

use crate::error::{Error, NifResult};
use crate::term::{Term, TermV};
use crate::types::{
    Decoder, Encoder, Modeled, Transcoder, str_to_term, string_decoding, string_encoding,
    term_to_string,
};

verus! {

// ---------------------------------------------------------------- bytes::Bytes

#[verifier::external_type_specification]
#[verifier::external_body]
pub struct ExBytes(bytes::Bytes);

/// The bytes a `bytes::Bytes` buffer holds, in order.
pub uninterp spec fn bytes_contents(b: bytes::Bytes) -> Seq<u8>;

/// `bytes::Bytes::copy_from_slice`: a buffer holding a copy of `data` (the crate's source
/// turns `data.to_vec()` into the buffer).
#[verifier::external_body]
fn bytes_copy_from_slice(data: &[u8]) -> (b: bytes::Bytes)
    ensures
        bytes_contents(b) == data@,
{
    bytes::Bytes::copy_from_slice(data)
}

/// The bytes of a buffer, copied out through its `Deref` to `[u8]`, which gives the
/// buffer's contents.
#[verifier::external_body]
fn bytes_to_vec(b: &bytes::Bytes) -> (v: Vec<u8>)
    ensures
        v@ == bytes_contents(*b),
{
    b.as_ref().to_vec()
}

impl Modeled for bytes::Bytes {
    type M = Seq<u8>;

    open spec fn model(&self) -> Seq<u8> {
        bytes_contents(*self)
    }
}

/// A buffer becomes a binary of its bytes.
impl Encoder for bytes::Bytes {
    open spec fn encoding(m: Seq<u8>) -> TermV {
        TermV::Binary(m)
    }

    fn encode(&self) -> (t: Term) {
        Term::Binary(bytes_to_vec(self))
    }
}

/// A buffer is read from a binary.
impl Decoder for bytes::Bytes {
    open spec fn decoding(t: TermV) -> Option<Seq<u8>> {
        match t {
            TermV::Binary(b) => Some(b),
            _ => None,
        }
    }

    fn decode(term: &Term) -> (r: NifResult<bytes::Bytes>) {
        match term {
            Term::Binary(b) => Ok(bytes_copy_from_slice(b.as_slice())),
            _ => Err(Error::BadArg),
        }
    }
}

impl Transcoder for bytes::Bytes {
    proof fn lemma_decode_encode(v: &Self) {
    }
}

// ---------------------------------------------------------------- UUIDs

/// A UUID, by its sixteen bytes.
pub struct Uuid {
    pub bytes: [u8; 16],
}

/// `uuid::Uuid::from_slice` then `as_bytes`: the crate refuses a slice of any length but
/// sixteen, and otherwise holds exactly the given bytes.
#[verifier::external_body]
fn uuid_from_slice(b: &[u8]) -> (r: Option<[u8; 16]>)
    ensures
        r is Some <==> b@.len() == 16,
        r matches Some(a) ==> a@ == b@,
{
    match uuid::Uuid::from_slice(b) {
        Ok(u) => Some(*u.as_bytes()),
        Err(_) => None,
    }
}

impl Uuid {
    /// The UUID whose bytes are `b`, which must be sixteen.
    pub fn from_slice(b: &[u8]) -> (r: Option<Uuid>)
        ensures
            r is Some <==> b@.len() == 16,
            r matches Some(u) ==> u.bytes@ == b@,
    {
        match uuid_from_slice(b) {
            Some(a) => Some(Uuid { bytes: a }),
            None => None,
        }
    }
}

impl Modeled for Uuid {
    type M = Seq<u8>;

    open spec fn model(&self) -> Seq<u8> {
        self.bytes@
    }
}

/// A UUID becomes a binary of its sixteen bytes.
impl Encoder for Uuid {
    open spec fn encoding(m: Seq<u8>) -> TermV {
        TermV::Binary(m)
    }

    fn encode(&self) -> (t: Term) {
        let mut v: Vec<u8> = Vec::new();
        let mut i: usize = 0;
        while i < 16
            invariant
                i <= 16,
                self.bytes@.len() == 16,
                v@ =~= self.bytes@.subrange(0, i as int),
            decreases 16 - i,
        {
            v.push(self.bytes[i]);
            i = i + 1;
        }
        assert(v@ =~= self.bytes@);
        Term::Binary(v)
    }
}

/// A UUID is read from a binary of exactly sixteen bytes.
impl Decoder for Uuid {
    open spec fn decoding(t: TermV) -> Option<Seq<u8>> {
        match t {
            TermV::Binary(b) => if b.len() == 16 { Some(b) } else { None },
            _ => None,
        }
    }

    fn decode(term: &Term) -> (r: NifResult<Uuid>) {
        match term {
            Term::Binary(b) => match Uuid::from_slice(b.as_slice()) {
                Some(u) => Ok(u),
                None => Err(Error::BadArg),
            },
            _ => Err(Error::BadArg),
        }
    }
}

impl Transcoder for Uuid {
    proof fn lemma_decode_encode(v: &Self) {
    }
}

// ---------------------------------------------------------------- decimals

/// The largest magnitude of a decimal's mantissa: 96 bits.
pub open spec fn max_mantissa() -> int {
    0xFFFF_FFFF_FFFF_FFFF_FFFF_FFFF
}

/// Whether a mantissa and a scale make a decimal.
pub open spec fn decimal_parts_ok(mantissa: int, scale: int) -> bool {
    0 <= scale <= 28 && -max_mantissa() <= mantissa <= max_mantissa()
}

/// The decimal digits of a magnitude, with no leading zero: none for 0.
pub open spec fn magnitude_digits(n: nat) -> Seq<char> {
    if n == 0 {
        Seq::empty()
    } else {
        crate::text::decimal(n)
    }
}

/// The text that `rust_decimal` writes for `mantissa * 10^-scale`: the digits of the
/// magnitude, padded with zeros in front to at least `scale` digits, the point `scale`
/// places from the right (with `0` before a point that would come first, and no point at
/// scale 0), `0` for an empty text, and `-` in front of a negative mantissa.
pub open spec fn decimal_text(mantissa: int, scale: int) -> Seq<char> {
    let magnitude: nat = (if mantissa < 0 { -mantissa } else { mantissa }) as nat;
    let ds = magnitude_digits(magnitude);
    let padded = if ds.len() < scale {
        Seq::new((scale - ds.len()) as nat, |_i: int| '0') + ds
    } else {
        ds
    };
    let whole = padded.len() - scale;
    let body = if scale == 0 {
        if padded.len() == 0 { seq!['0'] } else { padded }
    } else {
        (if whole == 0 { seq!['0'] } else { padded.subrange(0, whole) }) + seq!['.'] + padded.subrange(
            whole,
            padded.len() as int,
        )
    };
    if mantissa < 0 { seq!['-'] + body } else { body }
}

/// The mantissa and scale that `rust_decimal` reads from a text, if it reads one.
pub uninterp spec fn decimal_read(text: Seq<char>) -> Option<(int, int)>;

/// `Decimal::from_i128_with_scale(mantissa, scale).to_string()`. The constructor panics
/// on parts out of range, which `requires` leaves out; the text is what `Display` writes
/// (`to_str_internal` with no precision, and a `-` for a negative value).
#[verifier::external_body]
fn decimal_to_string(mantissa: i128, scale: u32) -> (s: String)
    requires
        decimal_parts_ok(mantissa as int, scale as int),
    ensures
        s@ == decimal_text(mantissa as int, scale as int),
{
    rust_decimal::Decimal::from_i128_with_scale(mantissa, scale).to_string()
}

/// Parses a decimal with `rust_decimal`'s `FromStr`, giving its mantissa and scale. What is
/// read is named, not stated; every decimal the crate holds has a scale of at most 28 and a
/// 96-bit mantissa.
#[verifier::external_body]
fn decimal_from_str(s: &str) -> (r: Option<(i128, u32)>)
    ensures
        match r {
            Some((m, sc)) => decimal_read(s@) == Some((m as int, sc as int)) && decimal_parts_ok(
                m as int,
                sc as int,
            ),
            None => decimal_read(s@) is None,
        },
{
    match s.parse::<rust_decimal::Decimal>() {
        Ok(d) => Some((d.mantissa(), d.scale())),
        Err(_) => None,
    }
}

/// A decimal number `mantissa * 10^-scale`.
pub struct Decimal {
    mantissa: i128,
    scale: u32,
}

impl Decimal {
    #[verifier::type_invariant]
    closed spec fn parts_in_range(self) -> bool {
        decimal_parts_ok(self.mantissa as int, self.scale as int)
    }

    pub closed spec fn spec_mantissa(self) -> int {
        self.mantissa as int
    }

    pub closed spec fn spec_scale(self) -> int {
        self.scale as int
    }

    /// The decimal `mantissa * 10^-scale`, if the mantissa fits in 96 bits and the scale is
    /// at most 28.
    pub fn from_parts(mantissa: i128, scale: u32) -> (r: Option<Decimal>)
        ensures
            r is Some <==> decimal_parts_ok(mantissa as int, scale as int),
            r matches Some(d) ==> d.spec_mantissa() == mantissa && d.spec_scale() == scale,
    {
        if scale <= 28 && -0xFFFF_FFFF_FFFF_FFFF_FFFF_FFFFi128 <= mantissa
            && mantissa <= 0xFFFF_FFFF_FFFF_FFFF_FFFF_FFFFi128 {
            Some(Decimal { mantissa, scale })
        } else {
            None
        }
    }

    pub fn mantissa(&self) -> (m: i128)
        ensures
            m == self.spec_mantissa(),
    {
        self.mantissa
    }

    pub fn scale(&self) -> (s: u32)
        ensures
            s == self.spec_scale(),
    {
        self.scale
    }
}

impl Modeled for Decimal {
    type M = (int, int);

    open spec fn model(&self) -> (int, int) {
        (self.spec_mantissa(), self.spec_scale())
    }
}

/// A decimal becomes the string of its text.
impl Encoder for Decimal {
    open spec fn encoding(m: (int, int)) -> TermV {
        string_encoding(decimal_text(m.0, m.1))
    }

    fn encode(&self) -> (t: Term) {
        proof {
            use_type_invariant(self);
        }
        let s = decimal_to_string(self.mantissa, self.scale);
        str_to_term(s.as_str())
    }
}

/// A decimal is read from a string that `rust_decimal` parses.
impl Decoder for Decimal {
    open spec fn decoding(t: TermV) -> Option<(int, int)> {
        match string_decoding(t) {
            Some(s) => decimal_read(s),
            None => None,
        }
    }

    fn decode(term: &Term) -> (r: NifResult<Decimal>) {
        let s = match term_to_string(term) {
            Ok(s) => s,
            Err(e) => return Err(e),
        };
        match decimal_from_str(s.as_str()) {
            Some((m, sc)) => Ok(Decimal { mantissa: m, scale: sc }),
            None => Err(Error::BadArg),
        }
    }
}

} // verus!
