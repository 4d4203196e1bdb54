//! The basic memory information tag.

use crate::memory::Memory;
use vstd::prelude::*;

verus! {

/// The basic memory information tag: how much memory lies below and above the first MiB.
#[derive(Clone, Copy, Debug, PartialEq, Eq, Structural)]
pub struct BasicMemoryInfoTag {
    pub tag_type: u32,
    pub size: u32,
    pub mem_lower: u32,
    pub mem_upper: u32,
}

impl BasicMemoryInfoTag {
    /// The tag that the 16 bytes from `addr` on spell.
    pub open spec fn at(mem: Memory, addr: int) -> BasicMemoryInfoTag {
        BasicMemoryInfoTag {
            tag_type: mem.u32_at(addr),
            size: mem.u32_at(addr + 4),
            mem_lower: mem.u32_at(addr + 8),
            mem_upper: mem.u32_at(addr + 12),
        }
    }

    /// Reads the tag that the 16 bytes from `addr` on spell.
    pub fn read(mem: &Memory, addr: usize) -> (tag: BasicMemoryInfoTag)
        requires
            mem.holds(addr as int, 16),
        ensures
            tag == BasicMemoryInfoTag::at(*mem, addr as int),
    {
        proof {
            use_type_invariant(mem);
        }
        BasicMemoryInfoTag {
            tag_type: mem.read_u32(addr),
            size: mem.read_u32(addr + 4),
            mem_lower: mem.read_u32(addr + 8),
            mem_upper: mem.read_u32(addr + 12),
        }
    }

    /// The amount of memory below the first MiB, in KiB.
    pub fn get_mem_lower(&self) -> (kib: u32)
        ensures
            kib == self.mem_lower,
    {
        self.mem_lower
    }

    /// The amount of memory above the first MiB, in KiB.
    pub fn get_mem_upper(&self) -> (kib: u32)
        ensures
            kib == self.mem_upper,
    {
        self.mem_upper
    }
}

} // verus!
