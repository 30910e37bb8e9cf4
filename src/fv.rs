//! Firmware-volume records: volumes, the files in them and the sections of
//! each file, as decoded from a snapshot.
use vstd::prelude::*;

verus! {

/// Machine type of an image built for 64-bit ARM.
pub const COFF_MACHINE_ARM64: u16 = 0xaa64;

/// Subsystem of an image that is an EFI runtime driver.
pub const IMAGE_SUBSYSTEM_EFI_RUNTIME_DRIVER: u16 = 12;

/// Section alignment that a 64-bit ARM runtime driver needs.
pub const FV_ARM64_RUNTIME_DRIVER_ALIGNMENT: usize = 0x10000;

/// Header facts of an executable image section.
#[derive(Clone, Copy, Debug, PartialEq, Eq, Structural)]
pub struct PeHeaderInfo {
    pub section_alignment: u32,
    pub machine: u16,
    pub subsystem: u16,
}

/// One section of a firmware file.
#[derive(Clone, Debug, PartialEq, Eq)]
pub struct FirmwareSectionSerDe {
    pub section_type: String,
    pub length: usize,
    /// Compression scheme, as a label such as "uncompressed" or
    /// "LZMA Compressed".
    pub compression_type: String,
    /// Image header facts, for executable image sections.
    pub pe_info: Option<PeHeaderInfo>,
}

/// One file of a firmware volume.
#[derive(Clone, Debug, PartialEq, Eq)]
pub struct FirmwareFileSerDe {
    /// File identity, as a hyphenated GUID string.
    pub name: String,
    /// Module kind, such as "Driver" or "MmCore".
    pub file_type: String,
    pub length: usize,
    pub attributes: u32,
    pub sections: Vec<FirmwareSectionSerDe>,
}

/// A firmware volume and its files.
#[derive(Clone, Debug, PartialEq, Eq)]
pub struct FirmwareVolumeSerDe {
    pub fv_name: String,
    pub fv_length: usize,
    pub fv_base_address: u64,
    pub fv_attributes: u32,
    pub files: Vec<FirmwareFileSerDe>,
}

impl FirmwareSectionSerDe {
    /// A copy of the section.
    pub fn copied(&self) -> (r: Self)
        ensures
            r == *self,
    {
        FirmwareSectionSerDe {
            section_type: self.section_type.clone(),
            length: self.length,
            compression_type: self.compression_type.clone(),
            pe_info: self.pe_info,
        }
    }
}

} // verus!
