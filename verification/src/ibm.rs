//! The IBM base-16 float codec.
//!
//! Numeric cells are stored as IBM System/360 floating point: a sign bit,
//! a 7-bit base-16 exponent biased by 64, and a 56-bit non-normalized
//! mantissa, big-endian in one to eight bytes.  The reader converts them
//! to IEEE 754 binary64 bit patterns; the writer direction exists as the
//! inverse, used to check the conversion.  A zero mantissa encodes zero,
//! one of the SAS missing values, or nothing legible at all.

use vstd::prelude::*;

use crate::error::XPTError;

verus! {

/// Eight bytes: the input right-padded with zeros.
pub open spec fn padded8(bytes: Seq<u8>) -> Seq<u8> {
    Seq::new(8, |i: int| if i < bytes.len() { bytes[i] } else { 0 })
}

/// The big-endian 64-bit word held by eight bytes.
pub open spec fn be_u64_of(s: Seq<u8>) -> u64 {
    ((s[0] as u64) << 56) | ((s[1] as u64) << 48) | ((s[2] as u64) << 40) | ((s[3] as u64) << 32)
        | ((s[4] as u64) << 24) | ((s[5] as u64) << 16) | ((s[6] as u64) << 8) | (s[7] as u64)
}

/// The eight big-endian bytes of a 64-bit word.
pub open spec fn be_bytes_of(w: u64) -> Seq<u8> {
    seq![
        (w >> 56) as u8,
        (w >> 48) as u8,
        (w >> 40) as u8,
        (w >> 32) as u8,
        (w >> 24) as u8,
        (w >> 16) as u8,
        (w >> 8) as u8,
        w as u8,
    ]
}

/// How far the mantissa must shift right so that its leading bit, if it
/// sits in bits 55..52, lands on bit 52.
pub open spec fn ibm_shift(w: u64) -> u64 {
    if w & 0x0080000000000000 != 0 {
        3
    } else if w & 0x0040000000000000 != 0 {
        2
    } else if w & 0x0020000000000000 != 0 {
        1
    } else {
        0
    }
}

/// The IEEE 754 bit pattern read from an IBM word with nonzero mantissa:
/// shift the mantissa, clear the leading bit, and rebase the exponent
/// from base 16 (bias 65) to base 2 (bias 1023).
pub open spec fn ibm_to_ieee(w: u64) -> u64 {
    let sign = w & 0x8000000000000000;
    let s = ibm_shift(w);
    let m = ((w & 0x00ffffffffffffff) >> s) & 0xffefffffffffffff;
    let e = ((((w >> 56) & 0x7f) * 4 + s + 763) as u64);
    sign | (e << 52) | m
}

/// The decoded meaning of up to eight cell bytes: `Ok(Some(bits))` for a
/// number, `Ok(None)` for a missing value, `Err` for an illegible
/// zero-mantissa word.
pub open spec fn ibm_decode_spec(bytes: Seq<u8>) -> Result<Option<u64>, ()> {
    let w = be_u64_of(padded8(bytes));
    let b0 = padded8(bytes)[0];
    if w & 0x00ffffffffffffff == 0 {
        if b0 == 0x00 {
            Ok(Some(0u64))
        } else if b0 == 0x08 {
            Ok(Some(0x8000000000000000u64))
        } else if b0 == 0x2e || (0x41 <= b0 && b0 <= 0x5a) || b0 == 0x5f {
            Ok(None)
        } else {
            Err(())
        }
    } else {
        Ok(Some(ibm_to_ieee(w)))
    }
}

/// The sign bit of an IEEE 754 binary64 bit pattern.
pub open spec fn ieee_sign(b: u64) -> u64 {
    b & 0x8000000000000000
}

/// The biased exponent field of an IEEE 754 binary64 bit pattern.
pub open spec fn ieee_exp(b: u64) -> u64 {
    (b >> 52) & 0x7ff
}

/// The fraction field of an IEEE 754 binary64 bit pattern.
pub open spec fn ieee_frac(b: u64) -> u64 {
    b & 0x000fffffffffffff
}

/// A double that encodes to all-zero bytes: a zero or a NaN.
pub open spec fn encodes_to_zero(b: u64) -> bool {
    (ieee_exp(b) == 0 && ieee_frac(b) == 0) || (ieee_exp(b) == 0x7ff && ieee_frac(b) != 0)
}

/// A finite, non-denormal double whose magnitude fits the IBM exponent
/// range: the inputs the encoder accepts as proper numbers.
pub open spec fn ibm_encodable(b: u64) -> bool {
    763 <= ieee_exp(b) <= 1271
}

/// The IBM word that encodes an encodable IEEE bit pattern: restore the
/// implicit leading bit, split the base-2 exponent into a base-16
/// exponent and a shift of zero to three, and rebias by 65.
pub open spec fn ieee_to_ibm(b: u64) -> u64 {
    let m = ieee_frac(b) | 0x0010000000000000;
    let d = ((ieee_exp(b) - 763) as u64);
    ieee_sign(b) | ((d >> 2) << 56) | (m << (d & 3))
}

/// Decode up to eight bytes of an IBM-format numeric cell.
///
/// `Ok(Some(bits))` carries the IEEE 754 binary64 bit pattern of the
/// number; `Ok(None)` is a SAS missing value (`.`, `.A`..`.Z`, `._`).
pub fn byte2number(bytearray: &[u8]) -> (r: Result<Option<u64>, XPTError>)
    requires
        bytearray@.len() <= 8,
    ensures
        r matches Ok(v) ==> ibm_decode_spec(bytearray@) == Ok::<Option<u64>, ()>(v),
        r matches Err(e) ==> ibm_decode_spec(bytearray@) == Err::<Option<u64>, ()>(()) && (
        e is ParseError) && e.text() == "unreadable zero-mantissa value"@,
{
    let n = bytearray.len();
    let mut arr: [u8; 8] = [0u8; 8];
    let mut i: usize = 0;
    while i < n
        invariant
            0 <= i <= n <= 8,
            n == bytearray@.len(),
            forall|k: int| 0 <= k < i ==> arr@[k] == bytearray@[k],
            forall|k: int| i <= k < 8 ==> arr@[k] == 0,
        decreases n - i,
    {
        arr[i] = bytearray[i];
        i = i + 1;
    }
    proof {
        assert(arr@ =~= padded8(bytearray@));
    }
    let w: u64 = ((arr[0] as u64) << 56) | ((arr[1] as u64) << 48) | ((arr[2] as u64) << 40) | ((
    arr[3] as u64) << 32) | ((arr[4] as u64) << 24) | ((arr[5] as u64) << 16) | ((arr[6] as u64)
        << 8) | (arr[7] as u64);
    if w & 0x00ffffffffffffff == 0 {
        if arr[0] == 0x00 {
            Ok(Some(0u64))
        } else if arr[0] == 0x08 {
            Ok(Some(0x8000000000000000u64))
        } else if arr[0] == 0x2e || (0x41 <= arr[0] && arr[0] <= 0x5a) || arr[0] == 0x5f {
            Ok(None)
        } else {
            Err(XPTError::ParseError(zero_mantissa_message()))
        }
    } else {
        let sign = w & 0x8000000000000000;
        let bexp = (w >> 56) & 0x7f;
        let s: u64 = if w & 0x0080000000000000 != 0 {
            3
        } else if w & 0x0040000000000000 != 0 {
            2
        } else if w & 0x0020000000000000 != 0 {
            1
        } else {
            0
        };
        let m = ((w & 0x00ffffffffffffff) >> s) & 0xffefffffffffffff;
        proof {
            assert(((w >> 56) & 0x7f) <= 127) by (bit_vector);
        }
        let e = bexp * 4 + s + 763;
        Ok(Some(sign | (e << 52) | m))
    }
}

/// The report used for a zero-mantissa word that is neither a zero nor a
/// missing value.
fn zero_mantissa_message() -> (r: String)
    ensures
        r@ == "unreadable zero-mantissa value"@,
{
    let s = String::from_str("unreadable zero-mantissa value");
    s
}

/// Encode a number (given as IEEE 754 binary64 bits) or a missing value
/// into eight IBM-format bytes.  Missing values, zeros and NaN all encode
/// to all-zero bytes; infinities and magnitudes outside the IBM range are
/// not accepted.
#[allow(non_snake_case)]
pub fn number2Byte(option: Option<u64>) -> (r: Vec<u8>)
    requires
        option matches Some(b) ==> encodes_to_zero(b) || ibm_encodable(b),
    ensures
        r@.len() == 8,
        option is None ==> r@ == be_bytes_of(0u64),
        option matches Some(b) ==> (encodes_to_zero(b) ==> r@ == be_bytes_of(0u64)) && (
        ibm_encodable(b) ==> r@ == be_bytes_of(ieee_to_ibm(b))),
{
    let w: u64 = match option {
        None => 0u64,
        Some(b) => {
            let e = (b >> 52) & 0x7ff;
            let f = b & 0x000fffffffffffff;
            if (e == 0 && f == 0) || (e == 0x7ff && f != 0) {
                0u64
            } else {
                let m = f | 0x0010000000000000;
                let d = e - 763;
                proof {
                    assert((d & 3) < 64u64) by (bit_vector);
                }
                (b & 0x8000000000000000) | ((d >> 2) << 56) | (m << (d & 3))
            }
        },
    };
    let mut out: Vec<u8> = Vec::new();
    out.push((w >> 56) as u8);
    out.push((w >> 48) as u8);
    out.push((w >> 40) as u8);
    out.push((w >> 32) as u8);
    out.push((w >> 24) as u8);
    out.push((w >> 16) as u8);
    out.push((w >> 8) as u8);
    out.push(w as u8);
    proof {
        assert(out@ =~= be_bytes_of(w));
    }
    out
}

/// Law: encoding a finite, non-denormal double whose magnitude fits the
/// IBM exponent range and decoding the resulting eight bytes gives back
/// exactly the same bit pattern.
pub proof fn lemma_ibm_round_trip(b: u64)
    requires
        ibm_encodable(b),
    ensures
        ibm_decode_spec(be_bytes_of(ieee_to_ibm(b))) == Ok::<Option<u64>, ()>(Some(b)),
{
    let e = ieee_exp(b);
    let f = ieee_frac(b);
    let sign = ieee_sign(b);
    let d = ((e - 763) as u64);
    let q = d >> 2;
    let s = d & 3;
    let m = f | 0x0010000000000000;
    let w = ieee_to_ibm(b);
    assert(w == sign | (q << 56) | (m << s));
    assert(e <= 0x7ff && f <= 0x000fffffffffffff && sign & 0x7fffffffffffffff == 0)
        by (bit_vector)
        requires
            e == (b >> 52) & 0x7ff,
            f == b & 0x000fffffffffffff,
            sign == b & 0x8000000000000000,
    ;
    assert(d <= 508);
    assert(q <= 127 && s <= 3 && d == q * 4 + s) by (bit_vector)
        requires
            q == d >> 2,
            s == d & 3,
            d <= 508,
    ;
    assert((w & 0x00ffffffffffffff) == (m << s) && (m << s) != 0 && ((w >> 56) & 0x7f) == q && (w
        & 0x8000000000000000) == sign && (if w & 0x0080000000000000 != 0 {
        3u64
    } else if w & 0x0040000000000000 != 0 {
        2u64
    } else if w & 0x0020000000000000 != 0 {
        1u64
    } else {
        0u64
    }) == s && (((w & 0x00ffffffffffffff) >> s) & 0xffefffffffffffff) == f) by (bit_vector)
        requires
            w == sign | (q << 56) | (m << s),
            sign & 0x7fffffffffffffff == 0,
            q <= 127,
            s <= 3,
            m == f | 0x0010000000000000,
            f <= 0x000fffffffffffff,
    ;
    assert(ibm_shift(w) == s);
    assert(((w >> 56) & 0x7f) * 4 + s + 763 == e);
    assert(ibm_to_ieee(w) == sign | (e << 52) | f);
    assert((b & 0x8000000000000000) | (((b >> 52) & 0x7ff) << 52) | (b & 0x000fffffffffffff) == b)
        by (bit_vector);
    assert(ibm_to_ieee(w) == b);
    let bs = be_bytes_of(w);
    assert(padded8(bs) =~= bs);
    assert(((((w >> 56) as u8) as u64) << 56) | ((((w >> 48) as u8) as u64) << 48) | ((((w >> 40)
        as u8) as u64) << 40) | ((((w >> 32) as u8) as u64) << 32) | ((((w >> 24) as u8) as u64)
        << 24) | ((((w >> 16) as u8) as u64) << 16) | ((((w >> 8) as u8) as u64) << 8) | ((
    w as u8) as u64) == w) by (bit_vector);
    assert(be_u64_of(bs) == w);
}

/// Law: all-zero cell bytes decode to plus zero.
pub proof fn lemma_decode_zero(bytes: Seq<u8>)
    requires
        bytes.len() <= 8,
        forall|i: int| 0 <= i < bytes.len() ==> bytes[i] == 0,
    ensures
        ibm_decode_spec(bytes) == Ok::<Option<u64>, ()>(Some(0u64)),
{
    let p = padded8(bytes);
    assert(forall|i: int| 0 <= i < 8 ==> p[i] == 0);
    assert(((0u8 as u64) << 56) | ((0u8 as u64) << 48) | ((0u8 as u64) << 40) | ((0u8 as u64)
        << 32) | ((0u8 as u64) << 24) | ((0u8 as u64) << 16) | ((0u8 as u64) << 8) | (0u8 as u64)
        == 0u64) by (bit_vector);
    assert(be_u64_of(p) == 0u64);
    assert(0u64 & 0x00ffffffffffffff == 0u64) by (bit_vector);
}

/// Law: a zero-mantissa cell whose first byte is `.`, a letter `A`..`Z`,
/// or `_` decodes to a missing value.
pub proof fn lemma_decode_missing(bytes: Seq<u8>)
    requires
        0 < bytes.len() <= 8,
        be_u64_of(padded8(bytes)) & 0x00ffffffffffffff == 0,
        bytes[0] == 0x2e || (0x41 <= bytes[0] && bytes[0] <= 0x5a) || bytes[0] == 0x5f,
    ensures
        ibm_decode_spec(bytes) == Ok::<Option<u64>, ()>(None),
{
    assert(padded8(bytes)[0] == bytes[0]);
}

} // verus!
