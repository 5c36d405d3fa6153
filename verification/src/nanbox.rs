//! The NaN-boxed tagged value: one 64-bit cell holding nil, a double, or an
//! object reference.
//!
//! Bits 48..64 of the word (its "tag") classify it: the two extreme tags mark
//! the low and high halves of the canonical address range, every tag strictly
//! inside `TAG_DOUBLE_MIN..=TAG_DOUBLE_MAX` marks a double stored through a
//! reversible bit transform, and the all-zero word is nil. Nil is checked
//! before the pointer classification because its tag coincides with the low
//! pointer tag.

use vstd::prelude::*;

verus! {

/// Tag of a word in the low half of the canonical address range.
pub const TAG_POINTER_LO: u16 = 0x0000;
/// Smallest tag the double transform produces on a finite double.
pub const TAG_DOUBLE_MIN: u16 = 0x0007;
/// Largest tag the double transform produces on a finite double.
pub const TAG_DOUBLE_MAX: u16 = 0xFFF8;
/// Tag of a word in the high half of the canonical address range.
pub const TAG_POINTER_HI: u16 = 0xFFFF;

/// The tag of a word: its top 16 bits.
pub open spec fn spec_tag(val: u64) -> u16 {
    (val >> 48) as u16
}

/// The all-zero word is the distinguished nil value.
pub open spec fn spec_is_nil(val: u64) -> bool {
    val == 0
}

/// A word is an object reference when it is not nil and carries one of the
/// two pointer tags.
pub open spec fn spec_is_ptr(val: u64) -> bool {
    !spec_is_nil(val) && (spec_tag(val) == TAG_POINTER_LO || spec_tag(val) == TAG_POINTER_HI)
}

/// A word is a stored double when its tag lies in the double range.
pub open spec fn spec_is_double(val: u64) -> bool {
    TAG_DOUBLE_MIN <= spec_tag(val) <= TAG_DOUBLE_MAX
}

/// The reversible bit transform applied to a double's IEEE-754 bit pattern
/// on the way into and out of a cell: words with a clear sign bit have their
/// low 63 bits inverted, words with a set sign bit pass through unchanged.
/// The same function both encodes and decodes.
pub open spec fn spec_transform(val: u64) -> u64 {
    if val < 0x8000_0000_0000_0000 {
        val ^ 0x7FFF_FFFF_FFFF_FFFF
    } else {
        val
    }
}

/// An IEEE-754 bit pattern is finite when its exponent bits are not all ones.
pub open spec fn spec_is_finite_bits(val: u64) -> bool {
    (val >> 52) & 0x7FF != 0x7FF
}

/// The executable double transform, written as a branch-free mask: the mask
/// is all-ones-but-the-sign-bit exactly when the sign bit of `val` is clear.
#[inline]
pub fn invert_non_negative(val: u64) -> (r: u64)
    ensures
        r == spec_transform(val),
{
    let mask: u64 = (((!val) as i64) >> 63) as u64 & !(1u64 << 63);
    proof {
        assert(val ^ ((((!val) as i64) >> 63) as u64 & !(1u64 << 63)) == spec_transform(val))
            by (bit_vector);
    }
    val ^ mask
}

/// Law: the double transform is an involution on every 64-bit pattern.
pub proof fn lemma_transform_involution(b: u64)
    ensures
        spec_transform(spec_transform(b)) == b,
{
    assert(spec_transform(spec_transform(b)) == b) by (bit_vector);
}

/// Law: the transform sends every finite double's bit pattern to a word
/// whose tag lies in the double range, leaving the extreme tags free for
/// pointers and nil.
pub proof fn lemma_transform_finite_in_double_range(b: u64)
    requires
        spec_is_finite_bits(b),
    ensures
        spec_is_double(spec_transform(b)),
{
    assert(spec_is_finite_bits(b) ==> spec_is_double(spec_transform(b))) by (bit_vector);
}

/// Law: round trip of the double encoding. Encoding a finite double gives a
/// word classified as a double, and decoding that word recovers the original
/// bit pattern exactly.
pub proof fn lemma_double_round_trip(b: u64)
    requires
        spec_is_finite_bits(b),
    ensures
        spec_is_double(spec_transform(b)),
        spec_transform(spec_transform(b)) == b,
{
    lemma_transform_finite_in_double_range(b);
    lemma_transform_involution(b);
}

/// Law: the all-zero word is nil and not a pointer, even though its tag
/// equals the low pointer tag; nil takes precedence.
pub proof fn lemma_nil_precedence()
    ensures
        spec_is_nil(0),
        !spec_is_ptr(0),
        spec_tag(0) == TAG_POINTER_LO,
{
    assert(((0u64 >> 48) as u16) == 0) by (bit_vector);
}

/// Law: the three classifications are pairwise exclusive; no word is two of
/// {nil, double, pointer} at once.
pub proof fn lemma_classification_exclusive(v: u64)
    ensures
        !(spec_is_nil(v) && spec_is_double(v)),
        !(spec_is_nil(v) && spec_is_ptr(v)),
        !(spec_is_double(v) && spec_is_ptr(v)),
{
    assert(((0u64 >> 48) as u16) == 0) by (bit_vector);
}

/// A single 64-bit cell that holds one tagged value. Cells that live in a
/// registered root table are the values the collector can see and rewrite.
#[derive(Clone, Copy)]
pub struct NanBox {
    val: u64,
}

impl View for NanBox {
    type V = u64;

    closed spec fn view(&self) -> u64 {
        self.val
    }
}

impl NanBox {
    /// A fresh cell holding nil, the zero-initialized state of root slots.
    pub fn new() -> (r: NanBox)
        ensures
            r@ == 0,
            spec_is_nil(r@),
    {
        NanBox { val: 0 }
    }

    /// A cell holding the given raw word, however it classifies: what a
    /// cell found in shared memory holds after the collector, or anyone
    /// else, wrote it.
    pub fn from_bits(bits: u64) -> (r: NanBox)
        ensures
            r@ == bits,
    {
        NanBox { val: bits }
    }

    /// A cell holding the object reference `addr`. Addresses in the low
    /// half of the canonical range carry the low pointer tag, and a nonzero
    /// address keeps the word distinct from nil.
    pub fn from_ptr_bits(addr: u64) -> (r: NanBox)
        requires
            0 < addr < 0x1_0000_0000_0000,
        ensures
            r@ == addr,
            spec_is_ptr(r@),
    {
        proof {
            assert(addr < 0x1_0000_0000_0000 ==> (addr >> 48) as u16 == 0) by (bit_vector);
        }
        NanBox { val: addr }
    }

    /// The raw 64-bit word of the cell.
    pub fn bits(&self) -> (r: u64)
        ensures
            r == self@,
    {
        self.val
    }

    /// The tag of the cell: bits 48..64.
    #[inline]
    pub fn tag(&self) -> (t: u16)
        ensures
            t == spec_tag(self@),
    {
        proof {
            let v = self.val;
            assert((v >> 48 & 0xFFFF) as u16 == (v >> 48) as u16) by (bit_vector);
        }
        (self.val >> 48 & 0xFFFF) as u16
    }

    /// Whether the cell holds an object reference. Nil is checked first
    /// because its tag matches the low pointer tag.
    #[inline]
    pub fn is_ptr(&self) -> (r: bool)
        ensures
            r == spec_is_ptr(self@),
    {
        !self.is_nil() && (self.tag() == TAG_POINTER_LO || self.tag() == TAG_POINTER_HI)
    }

    /// Whether the cell holds nil.
    #[inline]
    pub fn is_nil(&self) -> (r: bool)
        ensures
            r == spec_is_nil(self@),
    {
        self.val == 0
    }

    /// Whether the cell holds a stored double.
    #[inline]
    pub fn is_double(&self) -> (r: bool)
        ensures
            r == spec_is_double(self@),
    {
        let t = self.tag();
        TAG_DOUBLE_MIN <= t && t <= TAG_DOUBLE_MAX
    }

    /// Overwrites the cell with nil.
    pub fn store_nil(&mut self)
        ensures
            final(self)@ == 0,
            spec_is_nil(final(self)@),
    {
        self.val = 0;
    }

    /// Overwrites the cell with the double whose IEEE-754 bit pattern is
    /// `bits`. The input is restricted to patterns whose transformed tag
    /// lands in the double range — every finite double qualifies (see
    /// [`lemma_transform_finite_in_double_range`]) — so the stored word is
    /// always classified as a double.
    pub fn store_double_bits(&mut self, bits: u64)
        requires
            spec_is_double(spec_transform(bits)),
        ensures
            final(self)@ == spec_transform(bits),
            spec_is_double(final(self)@),
    {
        self.val = invert_non_negative(bits);
    }

    /// Reads the cell as a double, returning the decoded IEEE-754 bit
    /// pattern.
    pub fn load_double_bits(&self) -> (r: u64)
        requires
            spec_is_double(self@),
        ensures
            r == spec_transform(self@),
    {
        invert_non_negative(self.val)
    }

    /// Snapshot-copies another live cell into this one. In this verified
    /// single-thread model the copy is one word assignment; the process edge
    /// that races with a relocating collector re-reads the source and
    /// retries until the copy matches, which preserves exactly this
    /// postcondition: the result equals one single instant's value of
    /// `other`, never a torn mix of two words.
    pub fn copy_from(&mut self, other: &NanBox)
        ensures
            final(self)@ == other@,
    {
        self.val = other.val;
    }

    /// Overwrites the cell with the object reference held by another live
    /// cell.
    pub fn store_ptr(&mut self, other: &NanBox)
        requires
            spec_is_ptr(other@),
        ensures
            final(self)@ == other@,
            spec_is_ptr(final(self)@),
    {
        self.copy_from(other);
    }
}

} // verus!
