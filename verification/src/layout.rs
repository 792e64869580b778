//! The address map of the target: named regions with their permissions.

use vstd::prelude::*;

verus! {

/// What the target may do with the bytes of a region.
#[derive(Clone, Copy, Debug, PartialEq, Eq, Structural)]
pub enum Permission {
    /// Read and execute.
    ReadExec,
    /// Read and write.
    ReadWrite,
    /// Read, write and execute.
    All,
}

impl Permission {
    /// Whether bytes of the region may be written.
    pub fn allows_write(&self) -> (yes: bool)
        ensures
            yes == !(*self is ReadExec),
    {
        match self {
            Permission::ReadExec => false,
            Permission::ReadWrite => true,
            Permission::All => true,
        }
    }

    /// Whether bytes of the region may be executed.
    pub fn allows_exec(&self) -> (yes: bool)
        ensures
            yes == !(*self is ReadWrite),
    {
        match self {
            Permission::ReadExec => true,
            Permission::ReadWrite => false,
            Permission::All => true,
        }
    }
}

/// A named stretch of the address space.
#[derive(Clone, Copy, Debug)]
pub struct MemoryRegion {
    pub name: &'static str,
    pub base: u64,
    pub size: u64,
    pub permissions: Permission,
}

impl MemoryRegion {
    /// The first address after the region.
    pub open spec fn end(self) -> int {
        self.base + self.size
    }

    /// Whether `address` lies in the region.
    pub open spec fn contains(self, address: int) -> bool {
        self.base <= address < self.end()
    }

    /// Whether the `len` bytes from `address` on all lie in the region.
    pub open spec fn covers(self, address: int, len: int) -> bool {
        self.base <= address && address + len <= self.end()
    }

    /// Whether the two regions have an address in common.
    pub open spec fn overlaps(self, other: MemoryRegion) -> bool {
        exists|address: int| self.contains(address) && #[trigger] other.contains(address)
    }

    /// Whether the two regions have an address in common.
    pub fn intersects(&self, other: &MemoryRegion) -> (yes: bool)
        ensures
            yes == self.overlaps(*other),
    {
        let low: u64 = if self.base >= other.base {
            self.base
        } else {
            other.base
        };
        let self_end: u128 = self.base as u128 + self.size as u128;
        let other_end: u128 = other.base as u128 + other.size as u128;
        let high: u128 = if self_end <= other_end {
            self_end
        } else {
            other_end
        };
        proof {
            if (low as int) < (high as int) {
                assert(self.contains(low as int) && other.contains(low as int));
            }
        }
        (low as u128) < high
    }

    /// Whether the `len` bytes from `address` on all lie in the region.
    pub fn holds(&self, address: u64, len: u64) -> (yes: bool)
        ensures
            yes == self.covers(address as int, len as int),
    {
        self.base <= address && address as u128 + len as u128 <= self.base as u128
            + self.size as u128
    }
}

/// Why a machine could not be set up.
#[derive(Clone, Copy, Debug, PartialEq, Eq, Structural)]
pub enum MapError {
    /// Two regions of the layout, given by their places in it, share an address.
    RegionOverlap { first: usize, second: usize },
    /// The engine refused to map the region at place `index`.
    MapFailure { index: usize, base: u64 },
}

/// No two regions have an address in common.
pub open spec fn disjoint(regions: Seq<MemoryRegion>) -> bool {
    forall|i: int, j: int|
        0 <= i < j < regions.len() ==> !(#[trigger] regions[i]).overlaps(#[trigger] regions[j])
}

/// Whether some region holds all of the `len` bytes from `address` on.
pub open spec fn covered(regions: Seq<MemoryRegion>, address: int, len: int) -> bool {
    exists|i: int| 0 <= i < regions.len() && (#[trigger] regions[i]).covers(address, len)
}

/// The address map of the RP2040: boot ROM, flash seen through XIP, SRAM, the
/// two peripheral windows, the single-cycle I/O block and the private
/// peripheral bus of the cores.
pub open spec fn rp2040_regions() -> Seq<MemoryRegion> {
    seq![
        MemoryRegion {
            name: "Boot ROM",
            base: 0x0000_0000,
            size: 0x4000,
            permissions: Permission::ReadExec,
        },
        MemoryRegion {
            name: "XIP Flash",
            base: 0x1000_0000,
            size: 0x1000_0000,
            permissions: Permission::ReadExec,
        },
        MemoryRegion {
            name: "SRAM",
            base: 0x2000_0000,
            size: 0x1000_0000,
            permissions: Permission::All,
        },
        MemoryRegion {
            name: "APB Peripherals",
            base: 0x4000_0000,
            size: 0x1000_0000,
            permissions: Permission::ReadWrite,
        },
        MemoryRegion {
            name: "APB Lite Peripherals",
            base: 0x5000_0000,
            size: 0x1000_0000,
            permissions: Permission::ReadWrite,
        },
        MemoryRegion {
            name: "SIO",
            base: 0xd000_0000,
            size: 0x1000_0000,
            permissions: Permission::ReadWrite,
        },
        MemoryRegion {
            name: "Private Peripheral Bus (PPB)",
            base: 0xe000_0000,
            size: 0x2000_0000,
            permissions: Permission::ReadWrite,
        },
    ]
}

/// The regions of the RP2040 keep clear of each other.
pub proof fn lemma_rp2040_regions_disjoint()
    ensures
        disjoint(rp2040_regions()),
{
}

/// An address map whose regions keep clear of each other.
#[derive(Debug)]
pub struct AddressSpaceLayout {
    regions: Vec<MemoryRegion>,
}

impl AddressSpaceLayout {
    #[verifier::type_invariant]
    spec fn keeps_clear(self) -> bool {
        disjoint(self.regions@)
    }

    /// The regions, in table order.
    pub closed spec fn view(&self) -> Seq<MemoryRegion> {
        self.regions@
    }

    /// The layout with the given regions, in their order. Where two of them
    /// share an address, the error names the first such pair: the one with the
    /// least first place and, for that, the least second place.
    pub fn new(regions: Vec<MemoryRegion>) -> (r: Result<Self, MapError>)
        ensures
            disjoint(regions@) ==> r is Ok && r->Ok_0@ == regions@,
            !disjoint(regions@) ==> r is Err && r->Err_0 is RegionOverlap,
            r is Err ==> {
                let first = r->Err_0->first as int;
                let second = r->Err_0->second as int;
                &&& 0 <= first < second < regions@.len()
                &&& regions@[first].overlaps(regions@[second])
                &&& forall|i: int, j: int|
                    0 <= i < j < regions@.len() && (i < first || (i == first && j < second))
                        ==> !(#[trigger] regions@[i]).overlaps(#[trigger] regions@[j])
            },
    {
        let n = regions.len();
        let mut i: usize = 0;
        while i < n
            invariant
                n == regions@.len(),
                i <= n,
                forall|a: int, b: int|
                    0 <= a < b < n && a < i ==> !(#[trigger] regions@[a]).overlaps(
                        #[trigger] regions@[b],
                    ),
            decreases n - i,
        {
            let mut j: usize = i + 1;
            while j < n
                invariant
                    n == regions@.len(),
                    i < n,
                    i < j <= n,
                    forall|a: int, b: int|
                        0 <= a < b < n && a < i ==> !(#[trigger] regions@[a]).overlaps(
                            #[trigger] regions@[b],
                        ),
                    forall|b: int|
                        i < b < j ==> !regions@[i as int].overlaps(#[trigger] regions@[b]),
                decreases n - j,
            {
                if regions[i].intersects(&regions[j]) {
                    return Err(MapError::RegionOverlap { first: i, second: j });
                }
                j = j + 1;
            }
            i = i + 1;
        }
        Ok(AddressSpaceLayout { regions })
    }

    /// The address map of the RP2040.
    pub fn rp2040() -> (layout: Self)
        ensures
            layout@ == rp2040_regions(),
    {
        let regions = vec![
            MemoryRegion {
                name: "Boot ROM",
                base: 0x0000_0000,
                size: 0x4000,
                permissions: Permission::ReadExec,
            },
            MemoryRegion {
                name: "XIP Flash",
                base: 0x1000_0000,
                size: 0x1000_0000,
                permissions: Permission::ReadExec,
            },
            MemoryRegion {
                name: "SRAM",
                base: 0x2000_0000,
                size: 0x1000_0000,
                permissions: Permission::All,
            },
            MemoryRegion {
                name: "APB Peripherals",
                base: 0x4000_0000,
                size: 0x1000_0000,
                permissions: Permission::ReadWrite,
            },
            MemoryRegion {
                name: "APB Lite Peripherals",
                base: 0x5000_0000,
                size: 0x1000_0000,
                permissions: Permission::ReadWrite,
            },
            MemoryRegion {
                name: "SIO",
                base: 0xd000_0000,
                size: 0x1000_0000,
                permissions: Permission::ReadWrite,
            },
            MemoryRegion {
                name: "Private Peripheral Bus (PPB)",
                base: 0xe000_0000,
                size: 0x2000_0000,
                permissions: Permission::ReadWrite,
            },
        ];
        proof {
            lemma_rp2040_regions_disjoint();
            assert(regions@ =~= rp2040_regions());
        }
        AddressSpaceLayout { regions }
    }

    /// The regions, in table order.
    pub fn regions(&self) -> (regions: &Vec<MemoryRegion>)
        ensures
            regions@ == self@,
            disjoint(self@),
    {
        proof {
            use_type_invariant(self);
        }
        &self.regions
    }

    /// The place of the first region that holds all of the `len` bytes from
    /// `address` on; `None` where no region does.
    pub fn covering_region(&self, address: u64, len: u64) -> (place: Option<usize>)
        ensures
            place is Some <==> covered(self@, address as int, len as int),
            place is Some ==> {
                let i = place->Some_0 as int;
                &&& 0 <= i < self@.len()
                &&& self@[i].covers(address as int, len as int)
                &&& forall|j: int|
                    0 <= j < i ==> !(#[trigger] self@[j]).covers(address as int, len as int)
            },
    {
        let n = self.regions.len();
        let mut i: usize = 0;
        while i < n
            invariant
                n == self.regions@.len(),
                i <= n,
                forall|j: int|
                    0 <= j < i ==> !(#[trigger] self@[j]).covers(address as int, len as int),
            decreases n - i,
        {
            if self.regions[i].holds(address, len) {
                return Some(i);
            }
            i = i + 1;
        }
        None
    }
}

} // verus!
