//! Recognizing the 80-byte "HEADER RECORD" cards.
//!
//! Every section of a transport file is announced by an 80-byte ASCII
//! card.  Its title is the 28 bytes starting at offset 20, cut at the
//! first `!`; its body is the 32 bytes from offset 48.

use vstd::prelude::*;

use crate::deserialize::bytes_at;

verus! {

/// The title bytes before the first `!`.
pub open spec fn before_bang(s: Seq<u8>) -> Seq<u8>
    decreases s.len(),
{
    if s.len() == 0 {
        s
    } else if s[0] == 0x21 {
        Seq::empty()
    } else {
        seq![s[0]] + before_bang(s.drop_first())
    }
}

/// The title of a card: bytes 20..48, cut at the first `!`.
pub open spec fn card_title(card: Seq<u8>) -> Seq<u8> {
    before_bang(card.subrange(20, 48))
}

/// The body of a card: bytes 48..80.
pub open spec fn card_body(card: Seq<u8>) -> Seq<u8> {
    card.subrange(48, 80)
}

proof fn lemma_before_bang_is_subrange(s: Seq<u8>, i: int)
    requires
        0 <= i <= s.len(),
        forall|k: int| 0 <= k < i ==> s[k] != 0x21,
        i < s.len() ==> s[i] == 0x21,
    ensures
        before_bang(s) == s.subrange(0, i),
    decreases i,
{
    if s.len() == 0 {
        assert(s.subrange(0, 0) =~= s);
    } else if i == 0 {
        if s[0] == 0x21 {
            assert(s.subrange(0, 0) =~= Seq::<u8>::empty());
        } else {
            assert(s.subrange(0, 0) =~= Seq::<u8>::empty());
        }
    } else {
        lemma_before_bang_is_subrange(s.drop_first(), i - 1);
        assert(seq![s[0]] + s.drop_first().subrange(0, i - 1) =~= s.subrange(0, i));
    }
}

/// Split an 80-byte card into its title (cut at the first `!`) and body.
pub fn split_card(card: &[u8]) -> (r: (Vec<u8>, Vec<u8>))
    requires
        card@.len() == 80,
    ensures
        r.0@ == card_title(card@),
        r.1@ == card_body(card@),
{
    let mut t: usize = 20;
    while t < 48 && card[t] != 0x21
        invariant
            20 <= t <= 48,
            card@.len() == 80,
            forall|k: int| 20 <= k < t ==> card@[k] != 0x21,
        decreases 48 - t,
    {
        t = t + 1;
    }
    proof {
        lemma_before_bang_is_subrange(card@.subrange(20, 48), t - 20);
        assert(card@.subrange(20, 48).subrange(0, t - 20) =~= card@.subrange(20, t as int));
    }
    let title = bytes_at(card, 20, t - 20);
    let bodyv = bytes_at(card, 48, 32);
    (title, bodyv)
}

/// The card title `LIBRARY HEADER RECORD`.
pub open spec fn spec_title_library() -> Seq<u8> {
    seq![0x4c, 0x49, 0x42, 0x52, 0x41, 0x52, 0x59, 0x20, 0x48, 0x45, 0x41, 0x44, 0x45, 0x52, 0x20, 0x52, 0x45, 0x43, 0x4f, 0x52, 0x44]
}

/// Runtime copy of `spec_title_library`.
pub fn title_library() -> (r: Vec<u8>)
    ensures
        r@ == spec_title_library(),
{
    vec![0x4c, 0x49, 0x42, 0x52, 0x41, 0x52, 0x59, 0x20, 0x48, 0x45, 0x41, 0x44, 0x45, 0x52, 0x20, 0x52, 0x45, 0x43, 0x4f, 0x52, 0x44]
}

/// The card title `LIBV8   HEADER RECORD`.
pub open spec fn spec_title_libv8() -> Seq<u8> {
    seq![0x4c, 0x49, 0x42, 0x56, 0x38, 0x20, 0x20, 0x20, 0x48, 0x45, 0x41, 0x44, 0x45, 0x52, 0x20, 0x52, 0x45, 0x43, 0x4f, 0x52, 0x44]
}

/// Runtime copy of `spec_title_libv8`.
pub fn title_libv8() -> (r: Vec<u8>)
    ensures
        r@ == spec_title_libv8(),
{
    vec![0x4c, 0x49, 0x42, 0x56, 0x38, 0x20, 0x20, 0x20, 0x48, 0x45, 0x41, 0x44, 0x45, 0x52, 0x20, 0x52, 0x45, 0x43, 0x4f, 0x52, 0x44]
}

/// The card title `MEMBER  HEADER RECORD`.
pub open spec fn spec_title_member() -> Seq<u8> {
    seq![0x4d, 0x45, 0x4d, 0x42, 0x45, 0x52, 0x20, 0x20, 0x48, 0x45, 0x41, 0x44, 0x45, 0x52, 0x20, 0x52, 0x45, 0x43, 0x4f, 0x52, 0x44]
}

/// Runtime copy of `spec_title_member`.
pub fn title_member() -> (r: Vec<u8>)
    ensures
        r@ == spec_title_member(),
{
    vec![0x4d, 0x45, 0x4d, 0x42, 0x45, 0x52, 0x20, 0x20, 0x48, 0x45, 0x41, 0x44, 0x45, 0x52, 0x20, 0x52, 0x45, 0x43, 0x4f, 0x52, 0x44]
}

/// The card title `MEMBV8  HEADER RECORD`.
pub open spec fn spec_title_membv8() -> Seq<u8> {
    seq![0x4d, 0x45, 0x4d, 0x42, 0x56, 0x38, 0x20, 0x20, 0x48, 0x45, 0x41, 0x44, 0x45, 0x52, 0x20, 0x52, 0x45, 0x43, 0x4f, 0x52, 0x44]
}

/// Runtime copy of `spec_title_membv8`.
pub fn title_membv8() -> (r: Vec<u8>)
    ensures
        r@ == spec_title_membv8(),
{
    vec![0x4d, 0x45, 0x4d, 0x42, 0x56, 0x38, 0x20, 0x20, 0x48, 0x45, 0x41, 0x44, 0x45, 0x52, 0x20, 0x52, 0x45, 0x43, 0x4f, 0x52, 0x44]
}

/// The card title `NAMESTR HEADER RECORD`.
pub open spec fn spec_title_namestr() -> Seq<u8> {
    seq![0x4e, 0x41, 0x4d, 0x45, 0x53, 0x54, 0x52, 0x20, 0x48, 0x45, 0x41, 0x44, 0x45, 0x52, 0x20, 0x52, 0x45, 0x43, 0x4f, 0x52, 0x44]
}

/// Runtime copy of `spec_title_namestr`.
pub fn title_namestr() -> (r: Vec<u8>)
    ensures
        r@ == spec_title_namestr(),
{
    vec![0x4e, 0x41, 0x4d, 0x45, 0x53, 0x54, 0x52, 0x20, 0x48, 0x45, 0x41, 0x44, 0x45, 0x52, 0x20, 0x52, 0x45, 0x43, 0x4f, 0x52, 0x44]
}

/// The card title `NAMSTV8 HEADER RECORD`.
pub open spec fn spec_title_namstv8() -> Seq<u8> {
    seq![0x4e, 0x41, 0x4d, 0x53, 0x54, 0x56, 0x38, 0x20, 0x48, 0x45, 0x41, 0x44, 0x45, 0x52, 0x20, 0x52, 0x45, 0x43, 0x4f, 0x52, 0x44]
}

/// Runtime copy of `spec_title_namstv8`.
pub fn title_namstv8() -> (r: Vec<u8>)
    ensures
        r@ == spec_title_namstv8(),
{
    vec![0x4e, 0x41, 0x4d, 0x53, 0x54, 0x56, 0x38, 0x20, 0x48, 0x45, 0x41, 0x44, 0x45, 0x52, 0x20, 0x52, 0x45, 0x43, 0x4f, 0x52, 0x44]
}

/// The card title `OBSV8   HEADER RECORD`.
pub open spec fn spec_title_obsv8() -> Seq<u8> {
    seq![0x4f, 0x42, 0x53, 0x56, 0x38, 0x20, 0x20, 0x20, 0x48, 0x45, 0x41, 0x44, 0x45, 0x52, 0x20, 0x52, 0x45, 0x43, 0x4f, 0x52, 0x44]
}

/// Runtime copy of `spec_title_obsv8`.
pub fn title_obsv8() -> (r: Vec<u8>)
    ensures
        r@ == spec_title_obsv8(),
{
    vec![0x4f, 0x42, 0x53, 0x56, 0x38, 0x20, 0x20, 0x20, 0x48, 0x45, 0x41, 0x44, 0x45, 0x52, 0x20, 0x52, 0x45, 0x43, 0x4f, 0x52, 0x44]
}

/// The card title `LABELV8 HEADER RECORD`.
pub open spec fn spec_title_labelv8() -> Seq<u8> {
    seq![0x4c, 0x41, 0x42, 0x45, 0x4c, 0x56, 0x38, 0x20, 0x48, 0x45, 0x41, 0x44, 0x45, 0x52, 0x20, 0x52, 0x45, 0x43, 0x4f, 0x52, 0x44]
}

/// Runtime copy of `spec_title_labelv8`.
pub fn title_labelv8() -> (r: Vec<u8>)
    ensures
        r@ == spec_title_labelv8(),
{
    vec![0x4c, 0x41, 0x42, 0x45, 0x4c, 0x56, 0x38, 0x20, 0x48, 0x45, 0x41, 0x44, 0x45, 0x52, 0x20, 0x52, 0x45, 0x43, 0x4f, 0x52, 0x44]
}

/// The body demanded of a library card: thirty zeros and two spaces.
pub open spec fn spec_body_zeros() -> Seq<u8> {
    seq![0x30, 0x30, 0x30, 0x30, 0x30, 0x30, 0x30, 0x30, 0x30, 0x30, 0x30, 0x30, 0x30, 0x30, 0x30, 0x30, 0x30, 0x30, 0x30, 0x30, 0x30, 0x30, 0x30, 0x30, 0x30, 0x30, 0x30, 0x30, 0x30, 0x30, 0x20, 0x20]
}

/// Runtime copy of `spec_body_zeros`.
pub fn body_zeros() -> (r: Vec<u8>)
    ensures
        r@ == spec_body_zeros(),
{
    vec![0x30, 0x30, 0x30, 0x30, 0x30, 0x30, 0x30, 0x30, 0x30, 0x30, 0x30, 0x30, 0x30, 0x30, 0x30, 0x30, 0x30, 0x30, 0x30, 0x30, 0x30, 0x30, 0x30, 0x30, 0x30, 0x30, 0x30, 0x30, 0x30, 0x30, 0x20, 0x20]
}

/// The fixed prefix demanded of a member card body.
pub open spec fn spec_member_body_prefix() -> Seq<u8> {
    seq![0x30, 0x30, 0x30, 0x30, 0x30, 0x30, 0x30, 0x30, 0x30, 0x30, 0x30, 0x30, 0x30, 0x30, 0x30, 0x30, 0x30, 0x31, 0x36, 0x30, 0x30, 0x30, 0x30, 0x30, 0x30, 0x30, 0x30]
}

/// Runtime copy of `spec_member_body_prefix`.
pub fn member_body_prefix() -> (r: Vec<u8>)
    ensures
        r@ == spec_member_body_prefix(),
{
    vec![0x30, 0x30, 0x30, 0x30, 0x30, 0x30, 0x30, 0x30, 0x30, 0x30, 0x30, 0x30, 0x30, 0x30, 0x30, 0x30, 0x30, 0x31, 0x36, 0x30, 0x30, 0x30, 0x30, 0x30, 0x30, 0x30, 0x30]
}

} // verus!
