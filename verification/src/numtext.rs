//! Decimal numbers written in ASCII inside header cards.
//!
//! Counts and lengths are stored as space-padded decimal text; parsing
//! trims surrounding whitespace, accepts an optional leading `+`, and
//! rejects anything else that is not a digit.

use vstd::prelude::*;

verus! {

/// ASCII whitespace, as `str::trim` sees it in single-byte text.
pub open spec fn is_ws(b: u8) -> bool {
    b == 0x20 || b == 0x09 || b == 0x0a || b == 0x0b || b == 0x0c || b == 0x0d
}

/// ASCII decimal digit.
pub open spec fn is_digit(b: u8) -> bool {
    0x30 <= b && b <= 0x39
}

/// Bytes with leading whitespace removed.
pub open spec fn trim_front(s: Seq<u8>) -> Seq<u8>
    decreases s.len(),
{
    if s.len() > 0 && is_ws(s[0]) {
        trim_front(s.drop_first())
    } else {
        s
    }
}

/// Bytes with trailing whitespace removed.
pub open spec fn trim_back(s: Seq<u8>) -> Seq<u8>
    decreases s.len(),
{
    if s.len() > 0 && is_ws(s.last()) {
        trim_back(s.drop_last())
    } else {
        s
    }
}

/// Bytes with whitespace removed from both ends.
pub open spec fn trim_bytes(s: Seq<u8>) -> Seq<u8> {
    trim_back(trim_front(s))
}

/// The digits of a number, past an optional leading `+`.
pub open spec fn dec_digits(s: Seq<u8>) -> Seq<u8> {
    if s.len() > 0 && s[0] == 0x2b {
        s.drop_first()
    } else {
        s
    }
}

/// Whether every byte is a decimal digit.
pub open spec fn all_digits(s: Seq<u8>) -> bool {
    forall|i: int| 0 <= i < s.len() ==> is_digit(s[i])
}

/// The value of one digit byte; non-digits count as zero, though `is_dec`
/// rules them out wherever a value is used.
pub open spec fn digit_of(b: u8) -> nat {
    if is_digit(b) {
        (b - 0x30) as nat
    } else {
        0
    }
}

/// The value of a sequence of decimal digits.
pub open spec fn digits_val(s: Seq<u8>) -> nat
    decreases s.len(),
{
    if s.len() == 0 {
        0
    } else {
        digits_val(s.drop_last()) * 10 + digit_of(s.last())
    }
}

/// Whether `s`, trimmed, is a decimal number (digits after an optional `+`).
pub open spec fn is_dec(s: Seq<u8>) -> bool {
    let d = dec_digits(trim_bytes(s));
    d.len() > 0 && all_digits(d)
}

/// The value of the decimal number written in `s`.
pub open spec fn dec_val(s: Seq<u8>) -> nat {
    digits_val(dec_digits(trim_bytes(s)))
}

/// Runtime test for `is_ws`.
fn ws_byte(b: u8) -> (r: bool)
    ensures
        r == is_ws(b),
{
    b == 0x20 || b == 0x09 || b == 0x0a || b == 0x0b || b == 0x0c || b == 0x0d
}

proof fn lemma_trim_front_is_subrange(s: Seq<u8>, i: int)
    requires
        0 <= i <= s.len(),
        forall|k: int| 0 <= k < i ==> is_ws(s[k]),
        i < s.len() ==> !is_ws(s[i]),
    ensures
        trim_front(s) == s.subrange(i, s.len() as int),
    decreases i,
{
    if i == 0 {
        assert(s.subrange(0, s.len() as int) =~= s);
    } else {
        lemma_trim_front_is_subrange(s.drop_first(), i - 1);
        assert(s.drop_first().subrange(i - 1, s.drop_first().len() as int) =~= s.subrange(
            i,
            s.len() as int,
        ));
    }
}

proof fn lemma_trim_back_is_subrange(s: Seq<u8>, j: int)
    requires
        0 <= j <= s.len(),
        forall|k: int| j <= k < s.len() ==> is_ws(s[k]),
        j > 0 ==> !is_ws(s[j - 1]),
    ensures
        trim_back(s) == s.subrange(0, j),
    decreases s.len() - j,
{
    if j == s.len() {
        assert(s.subrange(0, s.len() as int) =~= s);
    } else {
        lemma_trim_back_is_subrange(s.drop_last(), j);
        assert(s.drop_last().subrange(0, j) =~= s.subrange(0, j));
    }
}

/// Appending a digit multiplies the value by ten and adds the digit.
proof fn lemma_digits_val_push(s: Seq<u8>, b: u8)
    ensures
        digits_val(s.push(b)) == digits_val(s) * 10 + digit_of(b),
{
    assert(s.push(b).drop_last() =~= s);
}

/// The whole slice, trimmed and parsed: `Some` exactly when the text is a
/// decimal number whose value fits in `u64`.
pub fn parse_u64_dec(s: &[u8]) -> (r: Option<u64>)
    ensures
        r is Some <==> (is_dec(s@) && dec_val(s@) <= u64::MAX),
        r matches Some(v) ==> v == dec_val(s@),
{
    let n = s.len();
    let mut i: usize = 0;
    while i < n && ws_byte(s[i])
        invariant
            0 <= i <= n,
            n == s@.len(),
            forall|k: int| 0 <= k < i ==> is_ws(s@[k]),
        decreases n - i,
    {
        i = i + 1;
    }
    let mut j: usize = n;
    while j > i && ws_byte(s[j - 1])
        invariant
            0 <= i <= j <= n,
            n == s@.len(),
            forall|k: int| j <= k < n ==> is_ws(s@[k]),
        decreases j,
    {
        j = j - 1;
    }
    proof {
        lemma_trim_front_is_subrange(s@, i as int);
        if j == i {
            lemma_trim_back_is_subrange(s@.subrange(i as int, n as int), 0);
        } else {
            lemma_trim_back_is_subrange(s@.subrange(i as int, n as int), j - i);
        }
        assert(trim_bytes(s@) =~= s@.subrange(i as int, j as int));
    }
    let mut k: usize = i;
    if k < j && s[k] == 0x2b {
        k = k + 1;
        proof {
            assert(dec_digits(trim_bytes(s@)) =~= s@.subrange(k as int, j as int));
        }
    } else {
        proof {
            assert(dec_digits(trim_bytes(s@)) =~= s@.subrange(k as int, j as int));
        }
    }
    if k == j {
        return None;
    }
    let ghost digits = s@.subrange(k as int, j as int);
    proof {
        assert(dec_digits(trim_bytes(s@)) == digits);
    }
    let mut acc: u64 = 0;
    let mut p: usize = k;
    while p < j
        invariant
            k <= p <= j <= n,
            n == s@.len(),
            digits == s@.subrange(k as int, j as int),
            dec_digits(trim_bytes(s@)) == digits,
            all_digits(s@.subrange(k as int, p as int)),
            acc == digits_val(s@.subrange(k as int, p as int)),
        decreases j - p,
    {
        let b = s[p];
        if b < 0x30 || b > 0x39 {
            proof {
                assert(digits[p - k] == s@[p as int]);
            }
            return None;
        }
        let d: u64 = (b - 0x30) as u64;
        proof {
            assert(s@.subrange(k as int, p + 1) =~= s@.subrange(k as int, p as int).push(s@[p as int]));
            lemma_digits_val_push(s@.subrange(k as int, p as int), s@[p as int]);
        }
        if acc > (u64::MAX - d) / 10 {
            proof {
                assert(acc * 10 + d > u64::MAX) by (nonlinear_arith)
                    requires
                        acc > (u64::MAX - d) / 10,
                        d <= 9,
                        acc <= u64::MAX,
                ;
                if all_digits(digits) {
                    lemma_digits_val_prefix(digits, p + 1 - k);
                    assert(s@.subrange(k as int, p + 1) =~= digits.subrange(0, p + 1 - k));
                }
            }
            return None;
        }
        acc = acc * 10 + d;
        p = p + 1;
    }
    proof {
        assert(s@.subrange(k as int, j as int) =~= digits);
    }
    Some(acc)
}

/// A digit prefix never has a larger value than the whole.
proof fn lemma_digits_val_prefix(s: Seq<u8>, i: int)
    requires
        0 <= i <= s.len(),
        all_digits(s),
    ensures
        digits_val(s.subrange(0, i)) <= digits_val(s),
    decreases s.len() - i,
{
    if i < s.len() {
        lemma_digits_val_prefix(s, i + 1);
        assert(s.subrange(0, i + 1).drop_last() =~= s.subrange(0, i));
        assert(digits_val(s.subrange(0, i + 1)) == digits_val(s.subrange(0, i)) * 10 + digit_of(
            s[i],
        ));
    } else {
        assert(s.subrange(0, i) =~= s);
    }
}

/// The whole slice, trimmed and parsed as a `u16`.
pub fn parse_u16_dec(s: &[u8]) -> (r: Option<u16>)
    ensures
        r is Some <==> (is_dec(s@) && dec_val(s@) <= u16::MAX),
        r matches Some(v) ==> v == dec_val(s@),
{
    match parse_u64_dec(s) {
        Some(v) => {
            if v <= 0xffff {
                Some(v as u16)
            } else {
                None
            }
        },
        None => None,
    }
}

} // verus!
