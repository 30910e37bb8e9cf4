//! Hand-off block records: resource descriptors of both generations and
//! memory allocations, as decoded from a snapshot.
use vstd::prelude::*;

use crate::interval::{Interval, Span};

verus! {

/// Resource type of an I/O range.
pub const EFI_RESOURCE_IO: u32 = 0x2;

/// Resource type of a reserved I/O range.
pub const EFI_RESOURCE_IO_RESERVED: u32 = 0x6;

/// Size of a page of physical memory.
pub const UEFI_PAGE_SIZE: usize = 0x1000;

/// Last address of page zero.
pub const PAGE_ZERO_END: u64 = 0xfff;

/// Uncacheable.
pub const MEMORY_UC: u64 = 0x1;

/// Write-combining.
pub const MEMORY_WC: u64 = 0x2;

/// Write-through.
pub const MEMORY_WT: u64 = 0x4;

/// Write-back.
pub const MEMORY_WB: u64 = 0x8;

/// Uncacheable, exported: deprecated.
pub const MEMORY_UCE: u64 = 0x10;

/// Write-protected.
pub const MEMORY_WP: u64 = 0x1000;

/// A memory-allocation record.
#[derive(Clone, Debug, PartialEq, Eq)]
pub struct MemAllocDescriptorSerDe {
    /// Owner identity, as a hyphenated GUID string.
    pub name: String,
    pub memory_base_address: u64,
    pub memory_length: u64,
    pub memory_type: u32,
}

/// A resource descriptor: one physical range with its owner, type and
/// attributes.
#[derive(Clone, Debug, PartialEq, Eq)]
pub struct ResourceDescriptorSerDe {
    /// Owner identity, as a hyphenated GUID string.
    pub owner: String,
    pub resource_type: u32,
    pub resource_attribute: u32,
    pub physical_start: u64,
    pub resource_length: u64,
}

/// One hand-off block of the snapshot.
#[derive(Clone, Debug, PartialEq, Eq)]
pub enum HobSerDe {
    Handoff {
        version: u32,
        memory_top: u64,
        memory_bottom: u64,
        free_memory_top: u64,
        free_memory_bottom: u64,
        end_of_hob_list: u64,
    },
    MemoryAllocation { alloc_descriptor: MemAllocDescriptorSerDe },
    /// A resource descriptor of the first generation.
    ResourceDescriptor(ResourceDescriptorSerDe),
    /// A resource descriptor of the second generation: the first-generation
    /// fields and an extended attribute mask.
    ResourceDescriptorV2 { v1: ResourceDescriptorSerDe, attributes: u64 },
    GuidExtension { name: String },
    FirmwareVolume { base_address: u64, length: u64 },
    Cpu { size_of_memory_space: u8, size_of_io_space: u8 },
    UnknownHob,
}

/// The list of hand-off blocks of a snapshot.
#[derive(Clone, Debug, PartialEq, Eq)]
pub struct HobListSerDe {
    pub hobs: Vec<HobSerDe>,
}

/// The resource type is I/O or reserved I/O.
pub open spec fn spec_is_io(resource_type: u32) -> bool {
    resource_type == EFI_RESOURCE_IO || resource_type == EFI_RESOURCE_IO_RESERVED
}

/// The resource type is I/O or reserved I/O.
pub fn is_io(resource_type: u32) -> (r: bool)
    ensures
        r == spec_is_io(resource_type),
{
    resource_type == EFI_RESOURCE_IO || resource_type == EFI_RESOURCE_IO_RESERVED
}

impl ResourceDescriptorSerDe {
    /// A copy of the descriptor.
    pub fn copied(&self) -> (r: Self)
        ensures
            r == *self,
    {
        ResourceDescriptorSerDe {
            owner: self.owner.clone(),
            resource_type: self.resource_type,
            resource_attribute: self.resource_attribute,
            physical_start: self.physical_start,
            resource_length: self.resource_length,
        }
    }
}

impl MemAllocDescriptorSerDe {
    /// A copy of the descriptor.
    pub fn copied(&self) -> (r: Self)
        ensures
            r == *self,
    {
        MemAllocDescriptorSerDe {
            name: self.name.clone(),
            memory_base_address: self.memory_base_address,
            memory_length: self.memory_length,
            memory_type: self.memory_type,
        }
    }
}

impl Interval for ResourceDescriptorSerDe {
    open spec fn spec_span(&self) -> Span {
        Span {
            start: self.physical_start,
            end: (self.physical_start + self.resource_length) as u128,
        }
    }

    fn start(&self) -> (r: u64) {
        self.physical_start
    }

    fn end(&self) -> (r: u128) {
        self.physical_start as u128 + self.resource_length as u128
    }
}

impl Interval for MemAllocDescriptorSerDe {
    open spec fn spec_span(&self) -> Span {
        Span {
            start: self.memory_base_address,
            end: (self.memory_base_address + self.memory_length) as u128,
        }
    }

    fn start(&self) -> (r: u64) {
        self.memory_base_address
    }

    fn end(&self) -> (r: u128) {
        self.memory_base_address as u128 + self.memory_length as u128
    }
}

} // verus!
