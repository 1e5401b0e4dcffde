//! Fixed-layout, big-endian decoding of structured records.
//!
//! Every multi-byte integer in the transport format is big-endian.  The
//! `FromBytes` trait ties an executable decoder to a specification of
//! every field in terms of the input bytes.

use vstd::prelude::*;

use crate::error::XPTError;
use vstd::slice::{slice_subrange, slice_to_vec};

verus! {

/// The big-endian `u16` stored at `off`.
pub open spec fn be_u16_at(s: Seq<u8>, off: int) -> u16 {
    ((s[off] as u16) * 0x100 + (s[off + 1] as u16)) as u16
}

/// The big-endian `u32` stored at `off`.
pub open spec fn be_u32_at(s: Seq<u8>, off: int) -> u32 {
    ((s[off] as u32) * 0x1000000 + (s[off + 1] as u32) * 0x10000 + (s[off + 2] as u32) * 0x100 + (s[
        off + 3] as u32)) as u32
}

/// Read the big-endian `u16` at `off`.
pub fn read_u16_be(s: &[u8], off: usize) -> (r: u16)
    requires
        off + 2 <= s@.len(),
    ensures
        r == be_u16_at(s@, off as int),
{
    (s[off] as u16) * 0x100 + (s[off + 1] as u16)
}

/// Read the big-endian `u32` at `off`.
pub fn read_u32_be(s: &[u8], off: usize) -> (r: u32)
    requires
        off + 4 <= s@.len(),
    ensures
        r == be_u32_at(s@, off as int),
{
    (s[off] as u32) * 0x1000000 + (s[off + 1] as u32) * 0x10000 + (s[off + 2] as u32) * 0x100 + (
        s[off + 3] as u32)
}

/// Copy the bytes at `[off, off + len)` into an owned vector.
pub fn bytes_at(s: &[u8], off: usize, len: usize) -> (r: Vec<u8>)
    requires
        off + len <= s@.len(),
    ensures
        r@ == s@.subrange(off as int, off + len),
{
    let _n = s.len();
    slice_to_vec(slice_subrange(s, off, off + len))
}

/// Whether two byte slices hold the same bytes.
pub fn bytes_eq(a: &[u8], b: &[u8]) -> (r: bool)
    ensures
        r <==> a@ == b@,
{
    if a.len() != b.len() {
        proof {
            assert(a@ != b@);
        }
        return false;
    }
    let n = a.len();
    let mut i: usize = 0;
    while i < n
        invariant
            0 <= i <= n,
            n == a@.len() && n == b@.len(),
            forall|k: int| 0 <= k < i ==> a@[k] == b@[k],
        decreases n - i,
    {
        if a[i] != b[i] {
            return false;
        }
        i = i + 1;
    }
    proof {
        assert(a@ =~= b@);
    }
    true
}

/// Whether `a` begins with the bytes of `p`.
pub fn bytes_starts_with(a: &[u8], p: &[u8]) -> (r: bool)
    ensures
        r <==> (a@.len() >= p@.len() && a@.subrange(0, p@.len() as int) == p@),
{
    if a.len() < p.len() {
        return false;
    }
    let r = bytes_eq(slice_subrange(a, 0, p.len()), p);
    r
}

/// The report used when a record's input is shorter than its layout.
fn short_slice_message() -> (r: String)
    ensures
        r@ == "short slice"@,
{
    let s = String::from_str("short slice");
    s
}

/// A record decoded from a fixed layout of big-endian fields.
///
/// `models` says what every field of a decoded value holds in terms of
/// the input bytes; `min_input` says how many bytes the layout needs.
pub trait FromBytes: Sized {
    /// The fewest input bytes the layout can decode from.
    spec fn min_input() -> nat;

    /// Every field of `self`, pinned down from the input bytes.
    spec fn models(self, input: Seq<u8>) -> bool;

    /// The layout's length floor, for the runtime test.
    fn input_floor() -> (r: usize)
        ensures
            r as nat == Self::min_input(),
    ;

    /// Decode one record from the start of `input`.
    fn from_bytes(input: &[u8]) -> (r: Self)
        requires
            input@.len() >= Self::min_input(),
        ensures
            r.models(input@),
    ;

    /// Decode one record, rejecting a slice shorter than the layout.
    fn try_from_bytes(input: &[u8]) -> (r: Result<Self, XPTError>)
        ensures
            input@.len() >= Self::min_input() ==> (r matches Ok(v) && v.models(input@)),
            input@.len() < Self::min_input() ==> (r matches Err(e) && e is ParseError && e.text()
                == "short slice"@),
    {
        if input.len() < Self::input_floor() {
            Err(XPTError::ParseError(short_slice_message()))
        } else {
            Ok(Self::from_bytes(input))
        }
    }
}

impl FromBytes for u16 {
    open spec fn min_input() -> nat {
        2
    }

    open spec fn models(self, input: Seq<u8>) -> bool {
        self == be_u16_at(input, 0)
    }

    fn input_floor() -> (r: usize) {
        2
    }

    fn from_bytes(input: &[u8]) -> (r: Self) {
        read_u16_be(input, 0)
    }
}

impl FromBytes for u32 {
    open spec fn min_input() -> nat {
        4
    }

    open spec fn models(self, input: Seq<u8>) -> bool {
        self == be_u32_at(input, 0)
    }

    fn input_floor() -> (r: usize) {
        4
    }

    fn from_bytes(input: &[u8]) -> (r: Self) {
        read_u32_be(input, 0)
    }
}

/// A parsed header record together with nothing else: the payload of a
/// successfully recognized 80-byte card.
pub struct BufferFromByteArray<T>(pub T);

} // verus!
