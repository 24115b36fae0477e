//! Compressed-texture capabilities as a bit set.

use vstd::prelude::*;

verus! {

/// A hardware texture-compression scheme.
#[derive(Clone, Copy, Debug, PartialEq, Eq, Structural)]
pub enum Compression {
    AstcLdr,
    Bc,
    Etc2,
}

/// The bit that stands for a scheme inside a [`FormatSet`].
pub open spec fn flag(c: Compression) -> u32 {
    match c {
        Compression::AstcLdr => 1,
        Compression::Bc => 2,
        Compression::Etc2 => 4,
    }
}

/// All bits that stand for some scheme.
pub const KNOWN_BITS: u32 = 7;

/// The schemes whose bits are set in `bits`.
pub open spec fn schemes_of(bits: u32) -> Set<Compression> {
    Set::new(|c: Compression| bits & flag(c) != 0)
}

/// A set of compression schemes: what a device supports, or what an
/// encoding requires. The empty set is what an uncompressed encoding
/// requires and what a device without compression support offers.
#[derive(Clone, Copy, Debug, PartialEq, Eq, Structural)]
pub struct FormatSet {
    bits: u32,
}

impl View for FormatSet {
    type V = Set<Compression>;

    closed spec fn view(&self) -> Set<Compression> {
        schemes_of(self.bits)
    }
}

impl FormatSet {
    #[verifier::type_invariant]
    spec fn only_known_bits(self) -> bool {
        self.bits <= KNOWN_BITS
    }

    /// The bits that represent the set, as `bits()` returns them.
    pub closed spec fn spec_bits(self) -> u32 {
        self.bits
    }

    /// The set without any scheme.
    pub fn none() -> (r: FormatSet)
        ensures
            r@ == Set::<Compression>::empty(),
            r.spec_bits() == 0,
    {
        let r = FormatSet { bits: 0 };
        proof {
            lemma_schemes_of_zero();
        }
        r
    }

    /// The set that holds `c` and nothing else.
    pub fn single(c: Compression) -> (r: FormatSet)
        ensures
            r@ == set![c],
            r.spec_bits() == flag(c),
    {
        let bits: u32 = match c {
            Compression::AstcLdr => 1,
            Compression::Bc => 2,
            Compression::Etc2 => 4,
        };
        proof {
            lemma_schemes_of_flag(c);
        }
        FormatSet { bits }
    }

    /// The set of the schemes whose bits are set in `bits`; bits that stand
    /// for no scheme are dropped.
    pub fn from_bits_truncate(bits: u32) -> (r: FormatSet)
        ensures
            r@ == schemes_of(bits),
            r.spec_bits() == bits & KNOWN_BITS,
    {
        let kept: u32 = bits & KNOWN_BITS;
        proof {
            lemma_truncate_keeps_schemes(bits);
        }
        FormatSet { bits: kept }
    }

    /// One bit per scheme of the set: bit 0 for ASTC LDR, bit 1 for BC,
    /// bit 2 for ETC2.
    pub fn bits(&self) -> (r: u32)
        ensures
            r == self.spec_bits(),
            r <= KNOWN_BITS,
            schemes_of(r) == self@,
    {
        proof {
            use_type_invariant(self);
        }
        self.bits
    }

    /// The schemes of either set.
    pub fn union(self, other: FormatSet) -> (r: FormatSet)
        ensures
            r@ == self@.union(other@),
    {
        proof {
            use_type_invariant(self);
            use_type_invariant(other);
            lemma_or_is_union(self.bits, other.bits);
        }
        FormatSet { bits: self.bits | other.bits }
    }

    /// Whether every scheme of `required` is in this set.
    pub fn contains(&self, required: FormatSet) -> (r: bool)
        ensures
            r == required@.subset_of(self@),
    {
        proof {
            use_type_invariant(self);
            use_type_invariant(required);
            lemma_mask_test_is_subset(self.bits, required.bits);
        }
        self.bits & required.bits == required.bits
    }

    /// Whether the set holds no scheme.
    pub fn is_empty(&self) -> (r: bool)
        ensures
            r == (self@ == Set::<Compression>::empty()),
    {
        proof {
            use_type_invariant(self);
            lemma_zero_iff_empty(self.bits);
        }
        self.bits == 0
    }
}

proof fn lemma_schemes_of_zero()
    ensures
        schemes_of(0) == Set::<Compression>::empty(),
{
    assert(0u32 & 1 == 0 && 0u32 & 2 == 0 && 0u32 & 4 == 0) by (bit_vector);
    assert(schemes_of(0) =~= Set::<Compression>::empty());
}

proof fn lemma_schemes_of_flag(c: Compression)
    ensures
        schemes_of(flag(c)) == set![c],
{
    assert(1u32 & 1 != 0 && 1u32 & 2 == 0 && 1u32 & 4 == 0) by (bit_vector);
    assert(2u32 & 1 == 0 && 2u32 & 2 != 0 && 2u32 & 4 == 0) by (bit_vector);
    assert(4u32 & 1 == 0 && 4u32 & 2 == 0 && 4u32 & 4 != 0) by (bit_vector);
    assert(schemes_of(flag(c)) =~= set![c]);
}

proof fn lemma_truncate_keeps_schemes(bits: u32)
    ensures
        bits & KNOWN_BITS <= KNOWN_BITS,
        schemes_of(bits & KNOWN_BITS) == schemes_of(bits),
{
    assert(bits & 7 <= 7 && ((bits & 7) & 1 == bits & 1) && ((bits & 7) & 2 == bits & 2) && ((bits
        & 7) & 4 == bits & 4)) by (bit_vector);
    assert(schemes_of(bits & KNOWN_BITS) =~= schemes_of(bits));
}

proof fn lemma_or_is_union(a: u32, b: u32)
    requires
        a <= KNOWN_BITS,
        b <= KNOWN_BITS,
    ensures
        a | b <= KNOWN_BITS,
        schemes_of(a | b) == schemes_of(a).union(schemes_of(b)),
{
    assert(a | b <= 7) by (bit_vector)
        requires
            a <= 7,
            b <= 7,
    ;
    assert((((a | b) & 1 != 0) == (a & 1 != 0 || b & 1 != 0)) && (((a | b) & 2 != 0) == (a & 2 != 0
        || b & 2 != 0)) && (((a | b) & 4 != 0) == (a & 4 != 0 || b & 4 != 0))) by (bit_vector);
    assert(schemes_of(a | b) =~= schemes_of(a).union(schemes_of(b)));
}

proof fn lemma_mask_test_is_subset(have: u32, need: u32)
    requires
        have <= KNOWN_BITS,
        need <= KNOWN_BITS,
    ensures
        (have & need == need) == schemes_of(need).subset_of(schemes_of(have)),
{
    if have & need == need {
        assert((need & 1 != 0 ==> have & 1 != 0) && (need & 2 != 0 ==> have & 2 != 0) && (need & 4
            != 0 ==> have & 4 != 0)) by (bit_vector)
            requires
                have & need == need,
        ;
        assert(schemes_of(need).subset_of(schemes_of(have)));
    }
    if schemes_of(need).subset_of(schemes_of(have)) {
        assert(schemes_of(need).contains(Compression::AstcLdr) ==> schemes_of(have).contains(
            Compression::AstcLdr,
        ));
        assert(schemes_of(need).contains(Compression::Bc) ==> schemes_of(have).contains(
            Compression::Bc,
        ));
        assert(schemes_of(need).contains(Compression::Etc2) ==> schemes_of(have).contains(
            Compression::Etc2,
        ));
        assert(have & need == need) by (bit_vector)
            requires
                need <= 7,
                need & 1 != 0 ==> have & 1 != 0,
                need & 2 != 0 ==> have & 2 != 0,
                need & 4 != 0 ==> have & 4 != 0,
        ;
    }
}

proof fn lemma_zero_iff_empty(bits: u32)
    requires
        bits <= KNOWN_BITS,
    ensures
        (bits == 0) == (schemes_of(bits) == Set::<Compression>::empty()),
{
    if bits == 0 {
        lemma_schemes_of_zero();
    }
    if schemes_of(bits) == Set::<Compression>::empty() {
        assert(!schemes_of(bits).contains(Compression::AstcLdr));
        assert(!schemes_of(bits).contains(Compression::Bc));
        assert(!schemes_of(bits).contains(Compression::Etc2));
        assert(bits == 0) by (bit_vector)
            requires
                bits <= 7,
                bits & 1 == 0,
                bits & 2 == 0,
                bits & 4 == 0,
        ;
    }
}

} // verus!
