//! Big-endian integers out of byte slices.
use vstd::prelude::*;

verus! {

/// The number that four bytes spell, most significant byte first.
pub open spec fn be_u32(b: Seq<u8>) -> int
    recommends
        b.len() == 4,
{
    b[0] as int * 0x100_0000 + b[1] as int * 0x1_0000 + b[2] as int * 0x100 + b[3] as int
}

/// Reading a four-byte slice as one big-endian unsigned integer.
pub trait ArrayAsInt {
    /// The bytes of the value.
    spec fn octets(&self) -> Seq<u8>;

    fn as_usize(&self) -> (r: usize)
        requires
            self.octets().len() == 4,
        ensures
            r as int == be_u32(self.octets()),
    ;

    fn as_u32(&self) -> (r: u32)
        requires
            self.octets().len() == 4,
        ensures
            r as int == be_u32(self.octets()),
    ;
}

impl ArrayAsInt for [u8] {
    open spec fn octets(&self) -> Seq<u8> {
        self@
    }

    fn as_usize(&self) -> (r: usize) {
        let v: u32 = self.as_u32();
        v as usize
    }

    fn as_u32(&self) -> (r: u32) {
        let b0: u32 = self[0] as u32;
        let b1: u32 = self[1] as u32;
        let b2: u32 = self[2] as u32;
        let b3: u32 = self[3] as u32;
        b0 * 0x100_0000 + b1 * 0x1_0000 + b2 * 0x100 + b3
    }
}

} // verus!
