//! The object header and format protocol: the binary layout of heap records
//! and the five operations the collector drives over a region of them —
//! scan, skip, forward, is-forwarded, pad.
//!
//! A region is a bounded, eight-byte-aligned span of memory, modelled word
//! by word. Each record starts with one header word packing a content kind,
//! a 16-bit class id and a 32-bit total byte size (header included);
//! `size/8 - 1` field words follow. Forward records store the new address in
//! their first field slot; padding records matter only for their size.
//!
//! Scanning is parameterized by a mask/pattern pair — the descriptor handed
//! to the collector's generic tagged-area scanner — that tells which bit
//! patterns inside a field identify it as a followable reference.

use vstd::prelude::*;

use crate::errors::RES_OK;
use crate::nanbox::NanBox;

verus! {

/// Content kind of a heap record.
#[derive(Clone, Copy, Debug, PartialEq, Eq, Structural)]
pub enum Content {
    Padding,
    Forward,
    Object,
}

/// Code of a padding record in the header's content byte.
pub const CONTENT_PADDING: u8 = 0;
/// Code of a forwarding record in the header's content byte.
pub const CONTENT_FORWARD: u8 = 1;
/// Code of an ordinary object record in the header's content byte.
pub const CONTENT_OBJECT: u8 = 2;

/// The byte the header's content byte carries for each kind.
pub open spec fn spec_content_code(c: Content) -> u8 {
    match c {
        Content::Padding => CONTENT_PADDING,
        Content::Forward => CONTENT_FORWARD,
        Content::Object => CONTENT_OBJECT,
    }
}

/// A record header: content kind, class id, and the record's total byte
/// size including the header itself.
#[derive(Clone, Copy, Debug, PartialEq, Eq, Structural)]
pub struct Header {
    pub content: Content,
    pub class: u16,
    pub length: u32,
}

/// The packed header word: content byte, a reserved zero byte, the class id
/// in bits 16..32 and the byte length in the high half.
pub open spec fn spec_header_word(h: Header) -> u64 {
    (spec_content_code(h.content) as u64) | ((h.class as u64) << 16) | ((h.length as u64) << 32)
}

/// The content byte of a packed header word.
pub open spec fn spec_code_of(w: u64) -> u8 {
    (w & 0xFF) as u8
}

/// The class id of a packed header word.
pub open spec fn spec_class_of(w: u64) -> u16 {
    ((w >> 16) & 0xFFFF) as u16
}

/// The byte length of a packed header word.
pub open spec fn spec_length_of(w: u64) -> u32 {
    ((w >> 32) & 0xFFFF_FFFF) as u32
}

/// Law: unpacking a packed header recovers its fields exactly.
pub proof fn lemma_header_word_fields(h: Header)
    ensures
        spec_code_of(spec_header_word(h)) == spec_content_code(h.content),
        spec_class_of(spec_header_word(h)) == h.class,
        spec_length_of(spec_header_word(h)) == h.length,
{
    let c = spec_content_code(h.content);
    let k = h.class;
    let l = h.length;
    assert(((((c as u64) | ((k as u64) << 16) | ((l as u64) << 32)) & 0xFF) as u8) == c)
        by (bit_vector);
    assert((((((c as u64) | ((k as u64) << 16) | ((l as u64) << 32)) >> 16) & 0xFFFF) as u16) == k)
        by (bit_vector);
    assert((((((c as u64) | ((k as u64) << 16) | ((l as u64) << 32)) >> 32) & 0xFFFF_FFFF) as u32)
        == l) by (bit_vector);
}

/// Packs a header into its word.
pub fn pack_header(h: &Header) -> (w: u64)
    ensures
        w == spec_header_word(*h),
{
    let code: u8 = match h.content {
        Content::Padding => CONTENT_PADDING,
        Content::Forward => CONTENT_FORWARD,
        Content::Object => CONTENT_OBJECT,
    };
    (code as u64) | ((h.class as u64) << 16) | ((h.length as u64) << 32)
}

/// Unpacks a header word. A content byte outside the three known codes is
/// header corruption, a fatal condition, and is excluded by precondition.
pub fn unpack_header(w: u64) -> (h: Header)
    requires
        spec_code_of(w) <= CONTENT_OBJECT,
    ensures
        spec_content_code(h.content) == spec_code_of(w),
        h.class == spec_class_of(w),
        h.length == spec_length_of(w),
{
    let code = (w & 0xFF) as u8;
    let content = if code == CONTENT_PADDING {
        Content::Padding
    } else if code == CONTENT_FORWARD {
        Content::Forward
    } else {
        Content::Object
    };
    Header { content, class: ((w >> 16) & 0xFFFF) as u16, length: ((w >> 32) & 0xFFFF_FFFF) as u32 }
}

/// The byte length of a region given as its words.
pub open spec fn spec_byte_len(s: Seq<u64>) -> int {
    s.len() as int * 8
}

/// A well-formed record header lies at byte offset `base`, wholly inside
/// `[0, limit)`: aligned, carrying a known content code, and claiming a
/// nonzero multiple-of-eight size that stays inside the limit. A forwarding
/// record needs at least one field slot for the new address.
pub open spec fn spec_wf_header(s: Seq<u64>, base: int, limit: int) -> bool {
    &&& 0 <= base
    &&& base % 8 == 0
    &&& base + 8 <= limit
    &&& limit <= spec_byte_len(s)
    &&& spec_code_of(s[base / 8]) <= CONTENT_OBJECT
    &&& spec_length_of(s[base / 8]) >= 8
    &&& spec_length_of(s[base / 8]) % 8 == 0
    &&& base + spec_length_of(s[base / 8]) <= limit
    &&& (spec_code_of(s[base / 8]) == CONTENT_FORWARD ==> spec_length_of(s[base / 8]) >= 16)
}

/// The byte offset just past the record at `base`.
pub open spec fn spec_skip(s: Seq<u64>, base: int) -> int {
    base + spec_length_of(s[base / 8])
}

/// The whole byte range `[base, limit)` is a gapless sequence of
/// well-formed records.
pub open spec fn spec_wf_range(s: Seq<u64>, base: int, limit: int) -> bool
    decreases limit - base,
{
    if base >= limit {
        base == limit
    } else if !spec_wf_header(s, base, limit) {
        false
    } else {
        spec_wf_range(s, spec_skip(s, base), limit)
    }
}

/// The number of records in a well-formed range.
pub open spec fn spec_record_count(s: Seq<u64>, base: int, limit: int) -> nat
    decreases limit - base,
{
    if base >= limit || !spec_wf_header(s, base, limit) {
        0
    } else {
        1 + spec_record_count(s, spec_skip(s, base), limit)
    }
}

/// `skip` applied `n` times starting from `base`.
pub open spec fn spec_skip_iter(s: Seq<u64>, base: int, n: nat) -> int
    decreases n,
{
    if n == 0 {
        base
    } else {
        spec_skip_iter(s, spec_skip(s, base), (n - 1) as nat)
    }
}

/// Law: over a well-formed region, starting at its base and applying `skip`
/// once per record lands exactly on the region's limit — the walk visits
/// every record and nothing else.
pub proof fn lemma_skip_traversal(s: Seq<u64>, base: int, limit: int)
    requires
        spec_wf_range(s, base, limit),
    ensures
        spec_skip_iter(s, base, spec_record_count(s, base, limit)) == limit,
    decreases limit - base,
{
    if base >= limit {
    } else {
        lemma_skip_traversal(s, spec_skip(s, base), limit);
        assert(spec_record_count(s, base, limit) == 1 + spec_record_count(
            s,
            spec_skip(s, base),
            limit,
        ));
    }
}

/// A well-formed range stays well formed when the region grows past it
/// without touching its words.
pub proof fn lemma_wf_range_prefix_stable(s1: Seq<u64>, s2: Seq<u64>, base: int, limit: int)
    requires
        s1.len() <= s2.len(),
        forall|i: int| 0 <= i < s1.len() ==> s2[i] == s1[i],
        spec_wf_range(s1, base, limit),
    ensures
        spec_wf_range(s2, base, limit),
    decreases limit - base,
{
    if base >= limit {
    } else {
        assert(s2[base / 8] == s1[base / 8]);
        lemma_wf_range_prefix_stable(s1, s2, spec_skip(s1, base), limit);
    }
}

/// Two adjacent well-formed ranges form one well-formed range.
pub proof fn lemma_wf_range_concat(s: Seq<u64>, a: int, b: int, c: int)
    requires
        spec_wf_range(s, a, b),
        spec_wf_range(s, b, c),
        b <= c,
    ensures
        spec_wf_range(s, a, c),
    decreases b - a,
{
    if a >= b {
    } else {
        lemma_wf_range_concat(s, spec_skip(s, a), b, c);
    }
}

/// `base` is the start of one of the records visited by the walk of
/// `[lo, limit)`.
pub open spec fn spec_is_record_start(s: Seq<u64>, lo: int, limit: int, base: int) -> bool
    decreases limit - lo,
{
    if lo >= limit || !spec_wf_header(s, lo, limit) {
        false
    } else if lo == base {
        true
    } else {
        spec_is_record_start(s, spec_skip(s, lo), limit, base)
    }
}

/// Every record start of a walk lies at or past the walk's base and heads
/// a well-formed record.
pub proof fn lemma_record_start_props(s: Seq<u64>, lo: int, limit: int, base: int)
    requires
        spec_is_record_start(s, lo, limit, base),
    ensures
        lo <= base,
        spec_wf_header(s, base, limit),
    decreases limit - lo,
{
    if lo == base {
    } else {
        lemma_record_start_props(s, spec_skip(s, lo), limit, base);
    }
}

/// A well-formed range only reads words at or past its own base, so it is
/// untouched by changes before that.
pub proof fn lemma_wf_range_agree(s1: Seq<u64>, s2: Seq<u64>, base: int, limit: int)
    requires
        s2.len() == s1.len(),
        forall|i: int| base / 8 <= i < s1.len() ==> s2[i] == s1[i],
        spec_wf_range(s1, base, limit),
    ensures
        spec_wf_range(s2, base, limit),
        spec_record_count(s2, base, limit) == spec_record_count(s1, base, limit),
    decreases limit - base,
{
    if base >= limit {
    } else {
        assert(s2[base / 8] == s1[base / 8]);
        lemma_wf_range_agree(s1, s2, spec_skip(s1, base), limit);
    }
}

/// Law: a store into a field of one of a well-formed region's records
/// leaves the region well formed, with the same records: field words never
/// carry the walk, so mutator stores and the collector's pointer rewriting
/// cannot derail scanning.
pub proof fn lemma_wf_range_field_write(
    s: Seq<u64>,
    lo: int,
    limit: int,
    base: int,
    idx: int,
    v: u64,
)
    requires
        spec_wf_range(s, lo, limit),
        spec_is_record_start(s, lo, limit, base),
        0 <= idx < spec_length_of(s[base / 8]) as int / 8 - 1,
    ensures
        spec_wf_range(s.update(base / 8 + 1 + idx, v), lo, limit),
        spec_record_count(s.update(base / 8 + 1 + idx, v), lo, limit) == spec_record_count(
            s,
            lo,
            limit,
        ),
    decreases limit - lo,
{
    let w = base / 8 + 1 + idx;
    let s2 = s.update(w, v);
    lemma_record_start_props(s, lo, limit, base);
    assert(base + spec_length_of(s[base / 8]) <= limit <= s.len() * 8);
    assert(base / 8 + spec_length_of(s[base / 8]) as int / 8 <= s.len());
    assert(base / 8 < w < s.len());
    if lo == base {
        assert(s2[lo / 8] == s[lo / 8]);
        lemma_wf_range_agree(s, s2, spec_skip(s, lo), limit);
    } else {
        lemma_record_start_props(s, spec_skip(s, lo), limit, base);
        assert(lo + 8 <= spec_skip(s, lo) <= base);
        assert(lo / 8 + 1 <= base / 8);
        assert(s2[lo / 8] == s[lo / 8]);
        lemma_wf_range_field_write(s, spec_skip(s, lo), limit, base, idx, v);
    }
}

/// Law: turning one of a well-formed region's records into a forwarding
/// record — the collector's relocation marker — leaves the region well
/// formed, with the same records: the record keeps its size, and the new
/// address lands in its first field slot.
pub proof fn lemma_wf_range_fwd(s: Seq<u64>, lo: int, limit: int, base: int, new_addr: u64)
    requires
        spec_wf_range(s, lo, limit),
        spec_is_record_start(s, lo, limit, base),
        spec_length_of(s[base / 8]) >= 16,
    ensures
        ({
            let s2 = s.update(
                base / 8,
                (s[base / 8] & 0xFFFF_FFFF_FFFF_FF00) | (CONTENT_FORWARD as u64),
            ).update(base / 8 + 1, new_addr);
            &&& spec_wf_range(s2, lo, limit)
            &&& spec_record_count(s2, lo, limit) == spec_record_count(s, lo, limit)
        }),
    decreases limit - lo,
{
    let h = s[base / 8];
    let h2 = (h & 0xFFFF_FFFF_FFFF_FF00) | (CONTENT_FORWARD as u64);
    let s2 = s.update(base / 8, h2).update(base / 8 + 1, new_addr);
    assert(spec_code_of(h2) == CONTENT_FORWARD && spec_length_of(h2) == spec_length_of(h)) by {
        assert((((h & 0xFFFF_FFFF_FFFF_FF00) | 1u64) & 0xFF) as u8 == 1) by (bit_vector);
        assert(((((h & 0xFFFF_FFFF_FFFF_FF00) | 1u64) >> 32) & 0xFFFF_FFFF) as u32 == ((h >> 32)
            & 0xFFFF_FFFF) as u32) by (bit_vector);
    }
    lemma_record_start_props(s, lo, limit, base);
    assert(base + spec_length_of(s[base / 8]) <= limit <= s.len() * 8);
    assert(base / 8 + 2 <= s.len());
    if lo == base {
        assert(s2[lo / 8] == h2);
        assert(spec_wf_header(s2, lo, limit));
        assert(spec_skip(s2, lo) == spec_skip(s, lo));
        lemma_wf_range_agree(s, s2, spec_skip(s, lo), limit);
    } else {
        lemma_record_start_props(s, spec_skip(s, lo), limit, base);
        assert(lo + 8 <= spec_skip(s, lo) <= base);
        assert(lo / 8 + 1 <= base / 8);
        assert(s2[lo / 8] == s[lo / 8]);
        lemma_wf_range_fwd(s, spec_skip(s, lo), limit, base, new_addr);
    }
}

/// A bounded, eight-byte-aligned span of heap memory holding
/// header-delimited records, modelled word by word.
pub struct Region {
    words: Vec<u64>,
}

impl View for Region {
    type V = Seq<u64>;

    closed spec fn view(&self) -> Seq<u64> {
        self.words@
    }
}

impl Region {
    /// The region's byte length stays representable, so byte offsets fit
    /// the machine word.
    pub open spec fn wf(&self) -> bool {
        spec_byte_len(self@) <= usize::MAX
    }

    /// An empty region.
    pub fn new() -> (r: Region)
        ensures
            r@.len() == 0,
            r.wf(),
    {
        Region { words: Vec::new() }
    }

    /// A region over the given words.
    pub fn from_words(words: Vec<u64>) -> (r: Region)
        requires
            words@.len() * 8 <= usize::MAX,
        ensures
            r@ == words@,
            r.wf(),
    {
        Region { words }
    }

    /// The region's byte length.
    pub fn byte_len(&self) -> (r: usize)
        requires
            self.wf(),
        ensures
            r == spec_byte_len(self@),
    {
        self.words.len() * 8
    }

    /// The word at a byte offset.
    pub fn word_at(&self, base: usize) -> (r: u64)
        requires
            base % 8 == 0,
            base + 8 <= spec_byte_len(self@),
        ensures
            r == self@[base as int / 8],
    {
        self.words[base / 8]
    }

    /// The unpacked header of the record at `base`.
    pub fn header_at(&self, base: usize) -> (h: Header)
        requires
            self.wf(),
            spec_wf_header(self@, base as int, spec_byte_len(self@)),
        ensures
            spec_content_code(h.content) == spec_code_of(self@[base as int / 8]),
            h.class == spec_class_of(self@[base as int / 8]),
            h.length == spec_length_of(self@[base as int / 8]),
    {
        unpack_header(self.words[base / 8])
    }

    /// How many fields the record at `base` has: its size in words, less
    /// the header.
    pub fn field_count_at(&self, base: usize) -> (r: usize)
        requires
            self.wf(),
            spec_wf_header(self@, base as int, spec_byte_len(self@)),
        ensures
            r == spec_length_of(self@[base as int / 8]) as int / 8 - 1,
    {
        let h = self.header_at(base);
        (h.length / 8) as usize - 1
    }

    /// Reads a field of the record at `base`, as a header-relative offset:
    /// field `index` is the word `index + 1` words past the record base.
    pub fn field_at(&self, base: usize, index: usize) -> (r: u64)
        requires
            self.wf(),
            spec_wf_header(self@, base as int, spec_byte_len(self@)),
            index < spec_length_of(self@[base as int / 8]) as int / 8 - 1,
        ensures
            r == self@[base as int / 8 + 1 + index],
    {
        self.words[base / 8 + 1 + index]
    }

    /// Overwrites a field of the record at `base`.
    pub fn set_field(&mut self, base: usize, index: usize, value: u64)
        requires
            old(self).wf(),
            spec_wf_header(old(self)@, base as int, spec_byte_len(old(self)@)),
            index < spec_length_of(old(self)@[base as int / 8]) as int / 8 - 1,
        ensures
            final(self).wf(),
            final(self)@ == old(self)@.update(base as int / 8 + 1 + index, value),
    {
        self.words[base / 8 + 1 + index] = value;
    }

    /// The byte offset just past the record at `base`: `base` plus the
    /// record's total size.
    pub fn skip(&self, base: usize) -> (r: usize)
        requires
            self.wf(),
            spec_wf_header(self@, base as int, spec_byte_len(self@)),
        ensures
            r == spec_skip(self@, base as int),
            r <= spec_byte_len(self@),
    {
        let h = self.header_at(base);
        base + h.length as usize
    }

    /// If the record at `base` is a forwarding record, the new address it
    /// stores in its first field slot; otherwise nothing.
    pub fn isfwd(&self, base: usize) -> (r: Option<u64>)
        requires
            self.wf(),
            spec_wf_header(self@, base as int, spec_byte_len(self@)),
        ensures
            match r {
                Some(a) => spec_code_of(self@[base as int / 8]) == CONTENT_FORWARD && a == self@[
                    base as int / 8 + 1
                ],
                None => spec_code_of(self@[base as int / 8]) != CONTENT_FORWARD,
            },
    {
        let h = self.header_at(base);
        match h.content {
            Content::Forward => Some(self.words[base / 8 + 1]),
            _ => None,
        }
    }

    /// Turns the record at `base` into a forwarding record pointing at
    /// `new_addr`: the content byte becomes the forward code, class and
    /// length stay, and the new address lands in the first field slot.
    pub fn fwd(&mut self, base: usize, new_addr: u64)
        requires
            old(self).wf(),
            spec_wf_header(old(self)@, base as int, spec_byte_len(old(self)@)),
            spec_length_of(old(self)@[base as int / 8]) >= 16,
        ensures
            final(self).wf(),
            final(self)@.len() == old(self)@.len(),
            spec_code_of(final(self)@[base as int / 8]) == CONTENT_FORWARD,
            spec_class_of(final(self)@[base as int / 8]) == spec_class_of(
                old(self)@[base as int / 8],
            ),
            spec_length_of(final(self)@[base as int / 8]) == spec_length_of(
                old(self)@[base as int / 8],
            ),
            final(self)@[base as int / 8 + 1] == new_addr,
            forall|i: int|
                0 <= i < old(self)@.len() && i != base as int / 8 && i != base as int / 8 + 1
                    ==> final(self)@[i] == old(self)@[i],
            final(self)@ == old(self)@.update(
                base as int / 8,
                (old(self)@[base as int / 8] & 0xFFFF_FFFF_FFFF_FF00) | (CONTENT_FORWARD as u64),
            ).update(base as int / 8 + 1, new_addr),
    {
        let w = self.words[base / 8];
        let w2 = (w & 0xFFFF_FFFF_FFFF_FF00) | (CONTENT_FORWARD as u64);
        proof {
            assert((((w & 0xFFFF_FFFF_FFFF_FF00) | 1u64) & 0xFF) as u8 == 1) by (bit_vector);
            assert(((((w & 0xFFFF_FFFF_FFFF_FF00) | 1u64) >> 16) & 0xFFFF) as u16 == ((w >> 16)
                & 0xFFFF) as u16) by (bit_vector);
            assert(((((w & 0xFFFF_FFFF_FFFF_FF00) | 1u64) >> 32) & 0xFFFF_FFFF) as u32 == ((w
                >> 32) & 0xFFFF_FFFF) as u32) by (bit_vector);
        }
        self.words[base / 8] = w2;
        self.words[base / 8 + 1] = new_addr;
    }

    /// Overwrites whatever lies at `base` with a padding header claiming
    /// `length` bytes, leaving the class bits as they were; the collector
    /// uses this to fill gaps after compaction.
    pub fn pad(&mut self, base: usize, length: u32)
        requires
            old(self).wf(),
            base % 8 == 0,
            base + 8 <= spec_byte_len(old(self)@),
            length >= 8,
            length as int % 8 == 0,
            base + length <= spec_byte_len(old(self)@),
        ensures
            final(self).wf(),
            final(self)@.len() == old(self)@.len(),
            spec_code_of(final(self)@[base as int / 8]) == CONTENT_PADDING,
            spec_class_of(final(self)@[base as int / 8]) == spec_class_of(
                old(self)@[base as int / 8],
            ),
            spec_length_of(final(self)@[base as int / 8]) == length,
            forall|i: int|
                0 <= i < old(self)@.len() && i != base as int / 8 ==> final(self)@[i] == old(
                    self,
                )@[i],
            spec_wf_header(final(self)@, base as int, spec_byte_len(final(self)@)),
    {
        let w = self.words[base / 8];
        let w2 = (w & 0x0000_0000_FFFF_FF00) | ((length as u64) << 32);
        proof {
            let l = length;
            assert((((w & 0x0000_0000_FFFF_FF00) | ((l as u64) << 32)) & 0xFF) as u8 == 0)
                by (bit_vector);
            assert(((((w & 0x0000_0000_FFFF_FF00) | ((l as u64) << 32)) >> 16) & 0xFFFF) as u16
                == ((w >> 16) & 0xFFFF) as u16) by (bit_vector);
            assert(((((w & 0x0000_0000_FFFF_FF00) | ((l as u64) << 32)) >> 32) & 0xFFFF_FFFF)
                as u32 == l) by (bit_vector);
        }
        self.words[base / 8] = w2;
    }

    /// Appends one record — a header followed by zeroed field words — to
    /// the end of the region and returns the new record's reference: the
    /// address of its first field, eight bytes past the record base.
    pub fn append_record(&mut self, content: Content, class: u16, size: u32) -> (addr: u64)
        requires
            old(self).wf(),
            size >= 8,
            size as int % 8 == 0,
            content == Content::Forward ==> size >= 16,
            spec_byte_len(old(self)@) + size <= usize::MAX,
            spec_byte_len(old(self)@) + size < 0x1_0000_0000_0000,
        ensures
            final(self).wf(),
            final(self)@.len() == old(self)@.len() + size as int / 8,
            forall|i: int| 0 <= i < old(self)@.len() ==> final(self)@[i] == old(self)@[i],
            final(self)@[old(self)@.len() as int] == spec_header_word(
                Header { content, class, length: size },
            ),
            forall|i: int|
                old(self)@.len() < i < final(self)@.len() ==> final(self)@[i] == 0,
            spec_wf_header(final(self)@, spec_byte_len(old(self)@), spec_byte_len(final(self)@)),
            spec_code_of(final(self)@[old(self)@.len() as int]) == spec_content_code(content),
            spec_class_of(final(self)@[old(self)@.len() as int]) == class,
            spec_length_of(final(self)@[old(self)@.len() as int]) == size,
            addr == spec_byte_len(old(self)@) + 8,
            spec_wf_range(old(self)@, 0, spec_byte_len(old(self)@)) ==> spec_wf_range(
                final(self)@,
                0,
                spec_byte_len(final(self)@),
            ),
    {
        let ghost s0 = self@;
        let base = self.words.len() * 8;
        let h = Header { content, class, length: size };
        let hw = pack_header(&h);
        proof {
            lemma_header_word_fields(h);
        }
        self.words.push(hw);
        let total_words = (size / 8) as usize;
        let mut j: usize = 1;
        while j < total_words
            invariant
                1 <= j <= total_words,
                total_words == size as int / 8,
                self.words@.len() == s0.len() + j,
                forall|i: int| 0 <= i < s0.len() ==> self.words@[i] == s0[i],
                self.words@[s0.len() as int] == hw,
                forall|i: int| s0.len() < i < self.words@.len() ==> self.words@[i] == 0,
            decreases total_words - j,
        {
            self.words.push(0);
            j = j + 1;
        }
        proof {
            let s1 = self@;
            let b = base as int;
            let limit = spec_byte_len(s1);
            assert(spec_wf_header(s1, b, limit));
            if spec_wf_range(s0, 0, b) {
                lemma_wf_range_prefix_stable(s0, s1, 0, b);
                assert(spec_skip(s1, b) == limit);
                assert(spec_wf_range(s1, limit, limit));
                assert(spec_wf_range(s1, b, limit));
                lemma_wf_range_concat(s1, 0, b, limit);
            }
        }
        (base as u64) + 8
    }
}

/// The mask/pattern descriptor for tagged references: a field word is a
/// followable reference exactly when `word & mask == pattern`. This pair is
/// what the process edge hands to the collector's generic tagged-area
/// scanner together with the five record operations.
pub struct AreaFormat {
    mask: u64,
    pattern: u64,
}

/// Describes the format of a tagged reference: which bits carry the tag and
/// which tag value marks a word as a reference.
pub trait ReferenceTag {
    /// Mask extracting the tag bits from a tagged reference.
    spec fn spec_mask() -> u64;

    /// A word is a reference only if its masked bits equal this pattern.
    spec fn spec_pattern() -> u64;

    /// Mask extracting the tag bits from a tagged reference.
    fn mask() -> (r: u64)
        ensures
            r == Self::spec_mask(),
    ;

    /// A word is a reference only if its masked bits equal this pattern.
    fn pattern() -> (r: u64)
        ensures
            r == Self::spec_pattern(),
    ;
}

/// The cell scheme of this library: references carry the low pointer tag,
/// so a word is followable when its top sixteen bits are zero (and the
/// collector ignores nil on its own).
impl ReferenceTag for NanBox {
    open spec fn spec_mask() -> u64 {
        0xFFFF_0000_0000_0000
    }

    open spec fn spec_pattern() -> u64 {
        0
    }

    fn mask() -> u64 {
        0xFFFF_0000_0000_0000
    }

    fn pattern() -> u64 {
        0
    }
}

/// The byte offsets in `[lo, hi)`, stepping word by word, whose word
/// matches the mask/pattern test — the references the collector's
/// tagged-area scanner would fix in that range.
pub open spec fn spec_range_refs(s: Seq<u64>, mask: u64, pattern: u64, lo: int, hi: int) -> Seq<
    int,
>
    decreases hi - lo,
{
    if lo + 8 > hi {
        Seq::empty()
    } else {
        let rest = spec_range_refs(s, mask, pattern, lo + 8, hi);
        if s[lo / 8] & mask == pattern {
            seq![lo] + rest
        } else {
            rest
        }
    }
}

/// The byte offsets of every reference-matching field word inside every
/// Object record of the well-formed range `[base, limit)`, in address
/// order. Padding and forwarding records contribute nothing.
pub open spec fn spec_scan_refs(s: Seq<u64>, mask: u64, pattern: u64, base: int, limit: int) -> Seq<
    int,
>
    decreases limit - base,
{
    if base >= limit || !spec_wf_header(s, base, limit) {
        Seq::empty()
    } else {
        let rest = spec_scan_refs(s, mask, pattern, spec_skip(s, base), limit);
        if spec_code_of(s[base / 8]) == CONTENT_OBJECT {
            spec_range_refs(s, mask, pattern, base + 8, spec_skip(s, base)) + rest
        } else {
            rest
        }
    }
}

/// The field ranges of the Object records in the well-formed range
/// `[base, limit)`, in order: for each such record the byte range from just
/// past its header to its end. These are exactly the ranges the scan
/// operation hands to the collector's tagged-area scanner.
pub open spec fn spec_scan_plan(s: Seq<u64>, base: int, limit: int) -> Seq<(int, int)>
    decreases limit - base,
{
    if base >= limit || !spec_wf_header(s, base, limit) {
        Seq::empty()
    } else {
        let rest = spec_scan_plan(s, spec_skip(s, base), limit);
        if spec_code_of(s[base / 8]) == CONTENT_OBJECT {
            seq![(base + 8, spec_skip(s, base))] + rest
        } else {
            rest
        }
    }
}

impl AreaFormat {
    /// The mask of the descriptor.
    pub closed spec fn spec_mask(&self) -> u64 {
        self.mask
    }

    /// The pattern of the descriptor.
    pub closed spec fn spec_pattern(&self) -> u64 {
        self.pattern
    }

    /// An area format using the reference scheme `R`, the descriptor the
    /// process edge registers with the collector.
    pub fn tagged<R: ReferenceTag>() -> (r: AreaFormat)
        ensures
            r.spec_mask() == R::spec_mask(),
            r.spec_pattern() == R::spec_pattern(),
    {
        AreaFormat { mask: R::mask(), pattern: R::pattern() }
    }

    /// The mask of the descriptor.
    pub fn mask(&self) -> (r: u64)
        ensures
            r == self.spec_mask(),
    {
        self.mask
    }

    /// The pattern of the descriptor.
    pub fn pattern(&self) -> (r: u64)
        ensures
            r == self.spec_pattern(),
    {
        self.pattern
    }

    /// Whether a field word is a followable reference under this
    /// descriptor.
    pub fn matches(&self, word: u64) -> (r: bool)
        ensures
            r == (word & self.spec_mask() == self.spec_pattern()),
    {
        word & self.mask == self.pattern
    }

    /// The reference-matching word offsets in the byte range `[lo, hi)` —
    /// the model of one call of the collector's tagged-area scanner.
    pub fn find_refs(&self, region: &Region, lo: usize, hi: usize) -> (refs: Vec<usize>)
        requires
            region.wf(),
            lo % 8 == 0,
            hi % 8 == 0,
            lo <= hi,
            hi <= spec_byte_len(region@),
        ensures
            refs@.map_values(|o: usize| o as int) == spec_range_refs(
                region@,
                self.spec_mask(),
                self.spec_pattern(),
                lo as int,
                hi as int,
            ),
    {
        let ghost s = region@;
        let ghost m = self.spec_mask();
        let ghost p = self.spec_pattern();
        let ghost full = spec_range_refs(s, m, p, lo as int, hi as int);
        let mut refs: Vec<usize> = Vec::new();
        let mut o = lo;
        while o < hi
            invariant
                region.wf(),
                s == region@,
                lo <= o <= hi,
                hi <= spec_byte_len(s),
                o % 8 == 0,
                hi % 8 == 0,
                m == self.spec_mask(),
                p == self.spec_pattern(),
                full == spec_range_refs(s, m, p, lo as int, hi as int),
                full =~= refs@.map_values(|x: usize| x as int) + spec_range_refs(
                    s,
                    m,
                    p,
                    o as int,
                    hi as int,
                ),
            decreases hi - o,
        {
            let ghost refs0 = refs@;
            proof {
                assert(o as int + 8 <= hi as int);
            }
            let w = region.word_at(o);
            if w & self.mask == self.pattern {
                refs.push(o);
                proof {
                    assert(refs@.map_values(|x: usize| x as int) =~= refs0.map_values(
                        |x: usize| x as int,
                    ) + seq![o as int]);
                    assert(spec_range_refs(s, m, p, o as int, hi as int) == seq![o as int]
                        + spec_range_refs(s, m, p, o as int + 8, hi as int));
                    assert(full =~= refs@.map_values(|x: usize| x as int) + spec_range_refs(
                        s,
                        m,
                        p,
                        o as int + 8,
                        hi as int,
                    ));
                }
            } else {
                proof {
                    assert(spec_range_refs(s, m, p, o as int, hi as int) == spec_range_refs(
                        s,
                        m,
                        p,
                        o as int + 8,
                        hi as int,
                    ));
                }
            }
            o = o + 8;
        }
        proof {
            assert(full =~= refs@.map_values(|x: usize| x as int));
        }
        refs
    }

    /// Walks every record of the well-formed range `[base, limit)` and
    /// collects, for each Object record, the reference-matching offsets of
    /// its field range — the complete outcome of one scan of the region
    /// when every delegated area scan succeeds. The process-edge callback
    /// performs the same walk, hands each field range to the collector's
    /// scanner, and aborts on the first non-success outcome without
    /// touching further records.
    pub fn scan(&self, region: &Region, base: usize, limit: usize) -> (refs: Vec<usize>)
        requires
            region.wf(),
            limit <= spec_byte_len(region@),
            spec_wf_range(region@, base as int, limit as int),
        ensures
            refs@.map_values(|o: usize| o as int) == spec_scan_refs(
                region@,
                self.spec_mask(),
                self.spec_pattern(),
                base as int,
                limit as int,
            ),
    {
        let ghost s = region@;
        let ghost m = self.spec_mask();
        let ghost p = self.spec_pattern();
        let ghost full = spec_scan_refs(s, m, p, base as int, limit as int);
        let mut refs: Vec<usize> = Vec::new();
        let mut cur = base;
        while cur < limit
            invariant
                region.wf(),
                s == region@,
                limit <= spec_byte_len(s),
                m == self.spec_mask(),
                p == self.spec_pattern(),
                spec_wf_range(s, cur as int, limit as int),
                full == spec_scan_refs(s, m, p, base as int, limit as int),
                full =~= refs@.map_values(|x: usize| x as int) + spec_scan_refs(
                    s,
                    m,
                    p,
                    cur as int,
                    limit as int,
                ),
            decreases limit - cur,
        {
            let ghost refs0 = refs@;
            let h = region.header_at(cur);
            let next = cur + h.length as usize;
            match h.content {
                Content::Object => {
                    let mut found = self.find_refs(region, cur + 8, next);
                    proof {
                        assert(spec_scan_refs(s, m, p, cur as int, limit as int)
                            == spec_range_refs(s, m, p, cur as int + 8, next as int)
                            + spec_scan_refs(s, m, p, next as int, limit as int));
                    }
                    let ghost found_view = found@;
                    refs.append(&mut found);
                    proof {
                        assert(refs@.map_values(|x: usize| x as int) =~= refs0.map_values(
                            |x: usize| x as int,
                        ) + found_view.map_values(|x: usize| x as int));
                        assert(full =~= refs@.map_values(|x: usize| x as int) + spec_scan_refs(
                            s,
                            m,
                            p,
                            next as int,
                            limit as int,
                        ));
                    }
                },
                _ => {
                    proof {
                        assert(spec_scan_refs(s, m, p, cur as int, limit as int)
                            == spec_scan_refs(s, m, p, next as int, limit as int));
                    }
                },
            }
            cur = next;
        }
        proof {
            assert(full =~= refs@.map_values(|x: usize| x as int));
        }
        refs
    }

}

/// The index of the first non-success outcome among the delegated area
/// scans, if any.
pub open spec fn spec_first_failure(outcomes: Seq<i32>) -> Option<int> {
    if exists|i: int| 0 <= i < outcomes.len() && outcomes[i] != RES_OK {
        Some(choose|i: int|
            0 <= i < outcomes.len() && outcomes[i] != RES_OK && forall|j: int|
                0 <= j < i ==> outcomes[j] == RES_OK)
    } else {
        None
    }
}

/// The abort rule of the scan operation: the outcomes of the area scans
/// delegated for one region, in record order, collapse to the first
/// non-success among them, propagated immediately — the scans after it
/// never ran — or to success when every one succeeded.
pub fn scan_outcome(outcomes: &Vec<i32>) -> (r: i32)
    ensures
        match spec_first_failure(outcomes@) {
            Some(i) => r == outcomes@[i] && r != RES_OK,
            None => r == RES_OK,
        },
{
    let n = outcomes.len();
    let mut k: usize = 0;
    while k < n
        invariant
            k <= n,
            n == outcomes@.len(),
            forall|j: int| 0 <= j < k ==> outcomes@[j] == RES_OK,
        decreases n - k,
    {
        if outcomes[k] != RES_OK {
            proof {
                let i = choose|i: int|
                    0 <= i < outcomes@.len() && outcomes@[i] != RES_OK && forall|j: int|
                        0 <= j < i ==> outcomes@[j] == RES_OK;
                assert(0 <= k < outcomes@.len() && outcomes@[k as int] != RES_OK && forall|
                    j: int,
                |
                    0 <= j < k ==> outcomes@[j] == RES_OK);
                if i != k {
                    assert(outcomes@[i] != RES_OK);
                    assert(outcomes@[k as int] != RES_OK);
                    if i < k {
                        assert(outcomes@[i] == RES_OK);
                    } else {
                        assert(outcomes@[k as int] == RES_OK);
                    }
                    assert(false);
                }
            }
            return outcomes[k];
        }
        k = k + 1;
    }
    RES_OK
}

/// The record walk the scan operation performs, as a plan: the field range
/// of every Object record in the well-formed range `[base, limit)`, in
/// order. The process edge iterates this plan, delegating each range to the
/// collector's tagged-area scanner and propagating its first non-success
/// outcome.
pub fn scan_plan(region: &Region, base: usize, limit: usize) -> (plan: Vec<(usize, usize)>)
    requires
        region.wf(),
        limit <= spec_byte_len(region@),
        spec_wf_range(region@, base as int, limit as int),
    ensures
        plan@.map_values(|r: (usize, usize)| (r.0 as int, r.1 as int)) == spec_scan_plan(
            region@,
            base as int,
            limit as int,
        ),
{
    let ghost s = region@;
    let ghost full = spec_scan_plan(s, base as int, limit as int);
    let mut plan: Vec<(usize, usize)> = Vec::new();
    let mut cur = base;
    while cur < limit
        invariant
            region.wf(),
            s == region@,
            limit <= spec_byte_len(s),
            spec_wf_range(s, cur as int, limit as int),
            full == spec_scan_plan(s, base as int, limit as int),
            full =~= plan@.map_values(|r: (usize, usize)| (r.0 as int, r.1 as int))
                + spec_scan_plan(s, cur as int, limit as int),
        decreases limit - cur,
    {
        let ghost plan0 = plan@;
        let h = region.header_at(cur);
        let next = cur + h.length as usize;
        match h.content {
            Content::Object => {
                plan.push((cur + 8, next));
                proof {
                    assert(plan@.map_values(|r: (usize, usize)| (r.0 as int, r.1 as int))
                        =~= plan0.map_values(|r: (usize, usize)| (r.0 as int, r.1 as int))
                        + seq![(cur as int + 8, next as int)]);
                    assert(spec_scan_plan(s, cur as int, limit as int) == seq![
                        (cur as int + 8, next as int),
                    ] + spec_scan_plan(s, next as int, limit as int));
                    assert(full =~= plan@.map_values(
                        |r: (usize, usize)| (r.0 as int, r.1 as int),
                    ) + spec_scan_plan(s, next as int, limit as int));
                }
            },
            _ => {
                proof {
                    assert(spec_scan_plan(s, cur as int, limit as int) == spec_scan_plan(
                        s,
                        next as int,
                        limit as int,
                    ));
                }
            },
        }
        cur = next;
    }
    proof {
        assert(full =~= plan@.map_values(|r: (usize, usize)| (r.0 as int, r.1 as int)));
    }
    plan
}

} // verus!
