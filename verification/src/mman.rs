//! The bitmasks that `mmap` takes from user space, decoded into sets of
//! named capabilities, and the permissions that a mapping is committed with.

#![allow(unused_imports)]

use vstd::prelude::*;
use vstd::std_specs::convert::FromSpecImpl;

verus! {

/// Pages may be read.
pub const PROT_READ: i32 = 0x1;

/// Pages may be written.
pub const PROT_WRITE: i32 = 0x2;

/// Pages may be executed.
pub const PROT_EXEC: i32 = 0x4;

/// Share changes.
pub const MAP_SHARED: i32 = 0x1;

/// Changes are private; pages are copied on write.
pub const MAP_PRIVATE: i32 = 0x2;

/// The mapping must lie exactly at the requested address.
pub const MAP_FIXED: i32 = 0x10;

/// The mapping is not backed by a file.
pub const MAP_ANONYMOUS: i32 = 0x20;

/// Do not check for reservations.
pub const MAP_NORESERVE: i32 = 0x4000;

/// The mapping is for a stack.
pub const MAP_STACK: i32 = 0x20000;

/// Whether `bits` has every bit of `mask` set.
pub open spec fn has_bits(bits: i32, mask: i32) -> bool {
    bits & mask == mask
}

/// The protection that a caller of `mmap` asks for.
#[derive(Clone, Copy, Debug, PartialEq, Eq, Structural)]
pub struct MmapProt {
    pub read: bool,
    pub write: bool,
    pub execute: bool,
}

impl MmapProt {
    /// The protections that a bitmask names. Bits without a meaning are
    /// ignored.
    pub open spec fn decode(bits: i32) -> MmapProt {
        MmapProt {
            read: has_bits(bits, PROT_READ),
            write: has_bits(bits, PROT_WRITE),
            execute: has_bits(bits, PROT_EXEC),
        }
    }

    /// The bitmask that names exactly these protections.
    pub open spec fn encode(self) -> int {
        (if self.read { 1int } else { 0 }) + (if self.write { 2int } else { 0 })
            + (if self.execute { 4int } else { 0 })
    }

    /// Decodes a protection bitmask, dropping the bits that name nothing.
    pub fn from_bits_truncate(bits: i32) -> (prot: Self)
        ensures
            prot == Self::decode(bits),
    {
        MmapProt {
            read: bits & PROT_READ == PROT_READ,
            write: bits & PROT_WRITE == PROT_WRITE,
            execute: bits & PROT_EXEC == PROT_EXEC,
        }
    }

    /// The bitmask of these protections.
    pub fn bits(&self) -> (bits: i32)
        ensures
            bits == self.encode(),
    {
        let r: i32 = if self.read { PROT_READ } else { 0 };
        let w: i32 = if self.write { PROT_WRITE } else { 0 };
        let x: i32 = if self.execute { PROT_EXEC } else { 0 };
        r + w + x
    }
}

/// The mapping bits that a caller of `mmap` passes. They are decoded and
/// carried; no decision depends on them.
#[derive(Clone, Copy, Debug, PartialEq, Eq, Structural)]
pub struct MmapFlags {
    pub shared: bool,
    pub private: bool,
    pub fixed: bool,
    pub anonymous: bool,
    pub noreserve: bool,
    pub stack: bool,
}

impl MmapFlags {
    /// The mapping flags that a bitmask names. Bits without a meaning are
    /// ignored.
    pub open spec fn decode(bits: i32) -> MmapFlags {
        MmapFlags {
            shared: has_bits(bits, MAP_SHARED),
            private: has_bits(bits, MAP_PRIVATE),
            fixed: has_bits(bits, MAP_FIXED),
            anonymous: has_bits(bits, MAP_ANONYMOUS),
            noreserve: has_bits(bits, MAP_NORESERVE),
            stack: has_bits(bits, MAP_STACK),
        }
    }

    /// The bitmask that names exactly these flags.
    pub open spec fn encode(self) -> int {
        (if self.shared { 0x1int } else { 0 }) + (if self.private { 0x2int } else { 0 })
            + (if self.fixed { 0x10int } else { 0 }) + (if self.anonymous { 0x20int } else { 0 })
            + (if self.noreserve { 0x4000int } else { 0 }) + (if self.stack { 0x20000int } else { 0 })
    }

    /// Decodes a mapping bitmask, dropping the bits that name nothing.
    pub fn from_bits_truncate(bits: i32) -> (flags: Self)
        ensures
            flags == Self::decode(bits),
    {
        MmapFlags {
            shared: bits & MAP_SHARED == MAP_SHARED,
            private: bits & MAP_PRIVATE == MAP_PRIVATE,
            fixed: bits & MAP_FIXED == MAP_FIXED,
            anonymous: bits & MAP_ANONYMOUS == MAP_ANONYMOUS,
            noreserve: bits & MAP_NORESERVE == MAP_NORESERVE,
            stack: bits & MAP_STACK == MAP_STACK,
        }
    }

    /// The bitmask of these flags.
    pub fn bits(&self) -> (bits: i32)
        ensures
            bits == self.encode(),
    {
        let a: i32 = if self.shared { MAP_SHARED } else { 0 };
        let b: i32 = if self.private { MAP_PRIVATE } else { 0 };
        let c: i32 = if self.fixed { MAP_FIXED } else { 0 };
        let d: i32 = if self.anonymous { MAP_ANONYMOUS } else { 0 };
        let e: i32 = if self.noreserve { MAP_NORESERVE } else { 0 };
        let f: i32 = if self.stack { MAP_STACK } else { 0 };
        a + b + c + d + e + f
    }
}

/// What a committed mapping permits.
#[derive(Clone, Copy, Debug, PartialEq, Eq, Structural)]
pub struct MappingFlags {
    pub read: bool,
    pub write: bool,
    pub execute: bool,
    /// The memory is accessible from user mode.
    pub user: bool,
}

impl From<MmapProt> for MappingFlags {
    /// Every mapping made for a user is accessible to the user; beyond that
    /// it permits what the protection asks for.
    fn from(value: MmapProt) -> (flags: Self) {
        MappingFlags { read: value.read, write: value.write, execute: value.execute, user: true }
    }
}

impl FromSpecImpl<MmapProt> for MappingFlags {
    open spec fn obeys_from_spec() -> bool {
        true
    }

    open spec fn from_spec(value: MmapProt) -> MappingFlags {
        MappingFlags { read: value.read, write: value.write, execute: value.execute, user: true }
    }
}

/// Decoding protection bits is the inverse of encoding them, and decoding
/// followed by encoding keeps exactly the three low bits.
pub proof fn lemma_prot_round_trip(prot: MmapProt, bits: i32)
    ensures
        0 <= prot.encode() <= 7,
        MmapProt::decode(prot.encode() as i32) == prot,
        MmapProt::decode(bits).encode() == (bits & 7),
{
    let r: i32 = if prot.read { 1 } else { 0 };
    let w: i32 = if prot.write { 2 } else { 0 };
    let x: i32 = if prot.execute { 4 } else { 0 };
    let sum: i32 = (r + w + x) as i32;
    assert(sum & 1 == r && sum & 2 == w && sum & 4 == x) by (bit_vector)
        requires
            r == 0 || r == 1,
            w == 0 || w == 2,
            x == 0 || x == 4,
            sum == r + w + x,
    ;
    assert((bits & 7) == (if bits & 1 == 1 { 1i32 } else { 0 }) + (if bits & 2 == 2 { 2i32 } else { 0 })
        + (if bits & 4 == 4 { 4i32 } else { 0 })) by (bit_vector);
}

/// Decoding mapping bits is the inverse of encoding them, and decoding
/// followed by encoding keeps exactly the six bits that have a meaning.
pub proof fn lemma_flags_round_trip(flags: MmapFlags, bits: i32)
    ensures
        0 <= flags.encode() <= 0x24033,
        MmapFlags::decode(flags.encode() as i32) == flags,
        MmapFlags::decode(bits).encode() == (bits & 0x24033),
{
    let a: i32 = if flags.shared { 0x1 } else { 0 };
    let b: i32 = if flags.private { 0x2 } else { 0 };
    let c: i32 = if flags.fixed { 0x10 } else { 0 };
    let d: i32 = if flags.anonymous { 0x20 } else { 0 };
    let e: i32 = if flags.noreserve { 0x4000 } else { 0 };
    let f: i32 = if flags.stack { 0x20000 } else { 0 };
    let sum: i32 = (a + b + c + d + e + f) as i32;
    assert(sum & 0x1 == a && sum & 0x2 == b && sum & 0x10 == c && sum & 0x20 == d && sum & 0x4000
        == e && sum & 0x20000 == f) by (bit_vector)
        requires
            a == 0 || a == 0x1,
            b == 0 || b == 0x2,
            c == 0 || c == 0x10,
            d == 0 || d == 0x20,
            e == 0 || e == 0x4000,
            f == 0 || f == 0x20000,
            sum == a + b + c + d + e + f,
    ;
    assert((bits & 0x24033) == (if bits & 0x1 == 0x1 { 0x1i32 } else { 0 }) + (if bits & 0x2 == 0x2 {
        0x2i32
    } else {
        0
    }) + (if bits & 0x10 == 0x10 { 0x10i32 } else { 0 }) + (if bits & 0x20 == 0x20 {
        0x20i32
    } else {
        0
    }) + (if bits & 0x4000 == 0x4000 { 0x4000i32 } else { 0 }) + (if bits & 0x20000 == 0x20000 {
        0x20000i32
    } else {
        0
    })) by (bit_vector);
}

} // verus!
