//! Target memory held in the debugger: regions of bytes captured from a
//! target, or built by hand.

use vstd::prelude::*;
use crate::memory;
use crate::memory::MemorySource;

verus! {

/// A run of bytes and the address of its first byte.
#[derive(Debug, PartialEq, Eq)]
pub struct MemoryRegion {
    pub base: u64,
    pub bytes: Vec<u8>,
}

/// A set of regions. Where regions overlap, the one added first is read.
#[derive(Debug)]
pub struct MemorySnapshot {
    regions: Vec<MemoryRegion>,
}

/// Whether the region holds the address.
pub open spec fn region_holds(region: MemoryRegion, addr: u64) -> bool {
    region.base <= addr && addr - region.base < region.bytes@.len()
}

/// The index of the first region from `from` on that holds `addr`, or
/// the number of regions.
pub open spec fn region_of(regions: Seq<MemoryRegion>, addr: u64, from: int) -> int
    decreases regions.len() - from,
{
    if from < 0 || from >= regions.len() {
        regions.len() as int
    } else if region_holds(regions[from], addr) {
        from
    } else {
        region_of(regions, addr, from + 1)
    }
}

/// The memory that a list of regions stands for.
pub open spec fn memory_of(regions: Seq<MemoryRegion>) -> Map<u64, u8> {
    Map::new(
        |a: u64| region_of(regions, a, 0) < regions.len(),
        |a: u64| regions[region_of(regions, a, 0)].bytes@[a - regions[region_of(regions, a, 0)].base],
    )
}

impl MemorySnapshot {
    /// The regions in the order in which they were added.
    pub closed spec fn regions(&self) -> Seq<MemoryRegion> {
        self.regions@
    }

    /// A snapshot without memory.
    pub fn new() -> (s: MemorySnapshot)
        ensures
            s.regions().len() == 0,
    {
        MemorySnapshot { regions: Vec::new() }
    }

    /// Adds the bytes `bytes` at the address `base`.
    pub fn add_region(&mut self, base: u64, bytes: Vec<u8>)
        ensures
            final(self).regions() == old(self).regions().push(MemoryRegion { base, bytes }),
    {
        self.regions.push(MemoryRegion { base, bytes });
    }

    /// The byte at `addr`, if a region holds it.
    pub fn byte_at(&self, addr: u64) -> (r: Option<u8>)
        ensures
            r == (if memory_of(self.regions()).contains_key(addr) {
                Some(memory_of(self.regions())[addr])
            } else {
                None
            }),
    {
        let mut i: usize = 0;
        while i < self.regions.len()
            invariant
                i <= self.regions.len(),
                region_of(self.regions@, addr, 0) == region_of(self.regions@, addr, i as int),
            decreases self.regions.len() - i,
        {
            let region = &self.regions[i];
            if region.base <= addr && addr - region.base < region.bytes.len() as u64 {
                return Some(region.bytes[(addr - region.base) as usize]);
            }
            i = i + 1;
        }
        None
    }
}

impl MemorySource for MemorySnapshot {
    closed spec fn view(&self) -> Map<u64, u8> {
        memory_of(self.regions@)
    }

    fn read_memory(&self, address: u64, len: usize) -> (data: Vec<Option<u8>>) {
        let mut data: Vec<Option<u8>> = Vec::new();
        let mut i: usize = 0;
        while i < len
            invariant
                i <= len,
                data@ == memory::gaps_at(self.view(), address as int, i as nat),
            decreases len - i,
        {
            let entry = if i as u64 <= u64::MAX - address {
                self.byte_at(address + i as u64)
            } else {
                None
            };
            data.push(entry);
            proof {
                assert(data@ =~= memory::gaps_at(self.view(), address as int, (i + 1) as nat));
            }
            i = i + 1;
        }
        data
    }

    fn read_raw_memory(&self, address: u64, len: usize) -> (bytes: Vec<u8>) {
        let mut bytes: Vec<u8> = Vec::new();
        let mut i: usize = 0;
        while i < len
            invariant
                i <= len,
                memory::range_readable(self.view(), address as int, i as int),
                bytes@ == memory::bytes_at(self.view(), address as int, i as nat),
            decreases len - i,
        {
            let entry = if i as u64 <= u64::MAX - address {
                self.byte_at(address + i as u64)
            } else {
                None
            };
            match entry {
                Some(b) => {
                    bytes.push(b);
                    proof {
                        assert(memory::readable(self.view(), address + i));
                        assert(bytes@ =~= memory::bytes_at(
                            self.view(),
                            address as int,
                            (i + 1) as nat,
                        ));
                    }
                },
                None => {
                    proof {
                        assert(!memory::readable(self.view(), address + i));
                        memory::lemma_readable_prefix_unique(
                            self.view(),
                            address as int,
                            len as nat,
                            i as nat,
                        );
                    }
                    return bytes;
                },
            }
            i = i + 1;
        }
        proof {
            memory::lemma_readable_prefix_unique(self.view(), address as int, len as nat, i as nat);
        }
        bytes
    }
}

} // verus!
