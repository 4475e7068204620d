use vstd::prelude::*;

verus! {

/// Every bit that names an operation flag.
pub const ALL_BITS: u32 = 0x1ff_ffff;

/// A set of operation flags, passed to the kernel as one integer word.
#[derive(Clone, Copy, Debug, PartialEq, Eq, Structural)]
pub struct OpCodes {
    bits: u32,
}

impl OpCodes {
    /// The flag word as a number.
    pub closed spec fn view(self) -> u32 {
        self.bits
    }

    /// Only named flag bits are set.
    pub open spec fn wf(self) -> bool {
        self@ & !ALL_BITS == 0
    }

    // The named flags, as words for `OpCodes::new`.
    pub const NOTRANS: u32 = 0;
    pub const NONE: u32 = 0;
    pub const LOWER: u32 = 0x1;
    pub const UPPER: u32 = 0x2;
    pub const SYMM: u32 = 0x4;
    pub const HERM: u32 = 0x8;
    pub const UNIT: u32 = 0x10;
    pub const LEFT: u32 = 0x20;
    pub const RIGHT: u32 = 0x40;
    pub const TRANSA: u32 = 0x80;
    pub const TRANS: u32 = 0x80;
    pub const TRANSB: u32 = 0x100;
    pub const CTRANSA: u32 = 0x200;
    pub const CTRANS: u32 = 0x200;
    pub const CTRANSB: u32 = 0x400;
    pub const MULTQ: u32 = 0x800;
    pub const MULTP: u32 = 0x1000;
    pub const WANTQ: u32 = 0x2000;
    pub const WANTP: u32 = 0x4000;
    pub const WANTU: u32 = 0x8000;
    pub const WANTV: u32 = 0x10000;
    pub const FORWARD: u32 = 0x20000;
    pub const BACKWARD: u32 = 0x40000;
    pub const ABSA: u32 = 0x80000;
    pub const ABS: u32 = 0x80000;
    pub const ABSB: u32 = 0x100000;
    pub const CONJA: u32 = 0x200000;
    pub const CONJ: u32 = 0x200000;
    pub const CONJB: u32 = 0x400000;
    pub const HHNEGATIVE: u32 = 0x800000;
    pub const NONNEG: u32 = 0x1000000;

    /// The flags named in a word, with the bits that name no flag dropped.
    pub fn new(bits: u32) -> (r: OpCodes)
        ensures
            r@ == bits & ALL_BITS,
            r.wf(),
    {
        let b = bits & ALL_BITS;
        assert(b == bits & ALL_BITS ==> b & !ALL_BITS == 0) by (bit_vector);
        OpCodes { bits: b }
    }

    /// The empty set of flags.
    pub fn empty() -> (r: OpCodes)
        ensures
            r@ == 0,
            r.wf(),
    {
        assert(0u32 & !ALL_BITS == 0) by (bit_vector);
        OpCodes { bits: 0 }
    }

    /// Every named flag.
    pub fn all() -> (r: OpCodes)
        ensures
            r@ == ALL_BITS,
            r.wf(),
    {
        assert(ALL_BITS & !ALL_BITS == 0) by (bit_vector);
        OpCodes { bits: ALL_BITS }
    }

    /// The flag word in the integer form that the kernel takes.
    pub fn bits(&self) -> (r: i32)
        ensures
            r == self@ as i32,
            self.wf() ==> r as int == self@ as int,
    {
        let b = self.bits;
        assert(b & !ALL_BITS == 0 ==> b <= 0x1ff_ffff) by (bit_vector);
        b as i32
    }

    /// The flags of a word, or `None` where it holds a bit that names no flag.
    pub fn from_bits(bits: i32) -> (r: Option<OpCodes>)
        ensures
            r.is_some() <==> 0 <= bits && (bits as u32) & !ALL_BITS == 0,
            r matches Some(f) ==> f@ == bits as u32 && f.wf(),
    {
        if bits >= 0 && (bits as u32) & !ALL_BITS == 0 {
            Some(OpCodes { bits: bits as u32 })
        } else {
            None
        }
    }

    /// The flags of a word, with the bits that name no flag dropped.
    pub fn from_bits_truncate(bits: i32) -> (r: OpCodes)
        ensures
            r@ == (bits as u32) & ALL_BITS,
            r.wf(),
    {
        let b = (bits as u32) & ALL_BITS;
        assert(b == (bits as u32) & ALL_BITS ==> b & !ALL_BITS == 0) by (bit_vector);
        OpCodes { bits: b }
    }

    /// No flag is set.
    pub fn is_empty(&self) -> (r: bool)
        ensures
            r == (self@ == 0),
    {
        self.bits == 0
    }

    /// Every flag of `other` is set in `self`.
    pub fn contains(&self, other: OpCodes) -> (r: bool)
        ensures
            r == (self@ & other@ == other@),
    {
        self.bits & other.bits == other.bits
    }

    /// Some flag is set in both.
    pub fn intersects(&self, other: OpCodes) -> (r: bool)
        ensures
            r == (self@ & other@ != 0),
    {
        self.bits & other.bits != 0
    }

    /// The flags set in either.
    pub fn union(&self, other: OpCodes) -> (r: OpCodes)
        ensures
            r@ == self@ | other@,
            self.wf() && other.wf() ==> r.wf(),
    {
        let a = self.bits;
        let b = other.bits;
        assert(a & !ALL_BITS == 0 && b & !ALL_BITS == 0 ==> (a | b) & !ALL_BITS == 0)
            by (bit_vector);
        OpCodes { bits: a | b }
    }

    /// The flags set in both.
    pub fn intersection(&self, other: OpCodes) -> (r: OpCodes)
        ensures
            r@ == self@ & other@,
            self.wf() ==> r.wf(),
    {
        let a = self.bits;
        let b = other.bits;
        assert(a & !ALL_BITS == 0 ==> (a & b) & !ALL_BITS == 0) by (bit_vector);
        OpCodes { bits: a & b }
    }

    /// The flags of `self` that are not set in `other`.
    pub fn difference(&self, other: OpCodes) -> (r: OpCodes)
        ensures
            r@ == self@ & !other@,
            self.wf() ==> r.wf(),
    {
        let a = self.bits;
        let b = other.bits;
        assert(a & !ALL_BITS == 0 ==> (a & !b) & !ALL_BITS == 0) by (bit_vector);
        OpCodes { bits: a & !b }
    }

    /// Sets the flags of `other`.
    pub fn insert(&mut self, other: OpCodes)
        ensures
            final(self)@ == old(self)@ | other@,
            old(self).wf() && other.wf() ==> final(self).wf(),
    {
        *self = self.union(other);
    }

    /// Clears the flags of `other`.
    pub fn remove(&mut self, other: OpCodes)
        ensures
            final(self)@ == old(self)@ & !other@,
            old(self).wf() ==> final(self).wf(),
    {
        *self = self.difference(other);
    }
}

/// The flag word handed to the kernel for optional flags: no flags at all
/// where none are given.
pub fn op_bits(ops: Option<OpCodes>) -> (r: i32)
    ensures
        r == match ops {
            Some(f) => f@ as i32,
            None => 0i32,
        },
{
    match ops {
        Some(f) => f.bits(),
        None => 0,
    }
}

} // verus!
