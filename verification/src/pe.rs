//! The structures of a PE image that the debugger reads from the target,
//! each with its layout in memory.

use vstd::prelude::*;
use crate::memory;
use crate::memory::Pod;

verus! {

/// The machine type of x86-64 images.
pub const IMAGE_FILE_MACHINE_AMD64: u16 = 0x8664;

/// The numbers of the data directories that the debugger reads.
pub const IMAGE_DIRECTORY_ENTRY_EXPORT: usize = 0;

pub const IMAGE_DIRECTORY_ENTRY_EXCEPTION: usize = 3;

pub const IMAGE_DIRECTORY_ENTRY_DEBUG: usize = 6;

/// The debug directory type of CodeView records.
pub const IMAGE_DEBUG_TYPE_CODEVIEW: u32 = 2;

/// The DOS header, of which only the place of the PE header matters.
#[derive(Clone, Copy, Debug, PartialEq, Eq, Structural)]
pub struct DosHeader {
    /// Offset of the PE header from the image base, a signed 32-bit number
    /// held as its bit pattern.
    pub e_lfanew: u32,
}

/// Place and size of one of the image's tables, relative to the image base.
#[derive(Clone, Copy, Debug, PartialEq, Eq, Structural)]
pub struct DataDirectory {
    pub virtual_address: u32,
    pub size: u32,
}

/// What the debugger keeps of the PE header of a 64-bit image.
#[derive(Clone, Copy, Debug)]
pub struct PeHeader {
    pub machine: u16,
    pub size_of_image: u32,
    pub data_directories: [DataDirectory; 16],
}

/// One entry of the debug directory.
#[derive(Clone, Copy, Debug, PartialEq, Eq, Structural)]
pub struct DebugDirectoryEntry {
    pub kind: u32,
    pub size_of_data: u32,
    pub address_of_raw_data: u32,
}

/// The head of the export directory.
#[derive(Clone, Copy, Debug, PartialEq, Eq, Structural)]
pub struct ExportDirectory {
    pub name: u32,
    pub base: u32,
    pub number_of_functions: u32,
    pub number_of_names: u32,
    pub address_of_functions: u32,
    pub address_of_names: u32,
    pub address_of_name_ordinals: u32,
}

/// A GUID in its four parts.
#[derive(Clone, Copy, Debug)]
pub struct Guid {
    pub data1: u32,
    pub data2: u16,
    pub data3: u16,
    pub data4: [u8; 8],
}

/// The fixed head of a CodeView record; the path of the symbol file
/// follows it in memory.
#[derive(Clone, Copy, Debug)]
pub struct PdbInfo {
    pub signature: u32,
    pub guid: Guid,
    pub age: u32,
}

/// The 32-bit field at `offset` of a structure's bytes.
pub open spec fn field_u32(bytes: Seq<u8>, offset: int) -> u32 {
    memory::le_u32(bytes.subrange(offset, offset + 4))
}

/// The 16-bit field at `offset` of a structure's bytes.
pub open spec fn field_u16(bytes: Seq<u8>, offset: int) -> u16 {
    memory::le_u16(bytes.subrange(offset, offset + 2))
}

/// The data directory entry at `offset` of a structure's bytes.
pub open spec fn field_directory(bytes: Seq<u8>, offset: int) -> DataDirectory {
    DataDirectory {
        virtual_address: field_u32(bytes, offset),
        size: field_u32(bytes, offset + 4),
    }
}

/// The 32-bit field at `offset` of the structure at `bytes[start..]`.
fn get_u32(bytes: &Vec<u8>, start: usize, offset: usize, Ghost(size): Ghost<int>) -> (v: u32)
    requires
        offset + 4 <= size,
        start + size <= bytes.len(),
    ensures
        v == field_u32(bytes@.subrange(start as int, start + size), offset as int),
{
    proof {
        let b = bytes@.subrange(start as int, start + size);
        assert(b.subrange(offset as int, offset + 4) =~= bytes@.subrange(
            start + offset,
            start + offset + 4,
        ));
    }
    memory::u32_at(bytes, start + offset)
}

/// The 16-bit field at `offset` of the structure at `bytes[start..]`.
fn get_u16(bytes: &Vec<u8>, start: usize, offset: usize, Ghost(size): Ghost<int>) -> (v: u16)
    requires
        offset + 2 <= size,
        start + size <= bytes.len(),
    ensures
        v == field_u16(bytes@.subrange(start as int, start + size), offset as int),
{
    proof {
        let b = bytes@.subrange(start as int, start + size);
        assert(b.subrange(offset as int, offset + 2) =~= bytes@.subrange(
            start + offset,
            start + offset + 2,
        ));
    }
    memory::u16_at(bytes, start + offset)
}

/// The data directory entry at `offset` of the structure at `bytes[start..]`.
fn get_directory(bytes: &Vec<u8>, start: usize, offset: usize, Ghost(size): Ghost<int>) -> (v:
    DataDirectory)
    requires
        offset + 8 <= size,
        start + size <= bytes.len(),
    ensures
        v == field_directory(bytes@.subrange(start as int, start + size), offset as int),
{
    DataDirectory {
        virtual_address: get_u32(bytes, start, offset, Ghost(size)),
        size: get_u32(bytes, start, offset + 4, Ghost(size)),
    }
}

impl Pod for DosHeader {
    open spec fn size() -> nat {
        64
    }

    open spec fn decode(bytes: Seq<u8>) -> DosHeader {
        DosHeader { e_lfanew: field_u32(bytes, 60) }
    }

    proof fn lemma_size() {
    }

    fn byte_size() -> (n: usize) {
        64
    }

    fn from_bytes(bytes: &Vec<u8>, offset: usize) -> (v: DosHeader) {
        DosHeader { e_lfanew: get_u32(bytes, offset, 60, Ghost(64)) }
    }
}

impl Pod for PeHeader {
    open spec fn size() -> nat {
        264
    }

    open spec fn decode(bytes: Seq<u8>) -> PeHeader {
        PeHeader {
            machine: field_u16(bytes, 4),
            size_of_image: field_u32(bytes, 80),
            data_directories: [
                field_directory(bytes, 136),
                field_directory(bytes, 144),
                field_directory(bytes, 152),
                field_directory(bytes, 160),
                field_directory(bytes, 168),
                field_directory(bytes, 176),
                field_directory(bytes, 184),
                field_directory(bytes, 192),
                field_directory(bytes, 200),
                field_directory(bytes, 208),
                field_directory(bytes, 216),
                field_directory(bytes, 224),
                field_directory(bytes, 232),
                field_directory(bytes, 240),
                field_directory(bytes, 248),
                field_directory(bytes, 256),
            ],
        }
    }

    proof fn lemma_size() {
    }

    fn byte_size() -> (n: usize) {
        264
    }

    fn from_bytes(bytes: &Vec<u8>, offset: usize) -> (v: PeHeader) {
        let g: Ghost<int> = Ghost(264);
        PeHeader {
            machine: get_u16(bytes, offset, 4, g),
            size_of_image: get_u32(bytes, offset, 80, g),
            data_directories: [
                get_directory(bytes, offset, 136, g),
                get_directory(bytes, offset, 144, g),
                get_directory(bytes, offset, 152, g),
                get_directory(bytes, offset, 160, g),
                get_directory(bytes, offset, 168, g),
                get_directory(bytes, offset, 176, g),
                get_directory(bytes, offset, 184, g),
                get_directory(bytes, offset, 192, g),
                get_directory(bytes, offset, 200, g),
                get_directory(bytes, offset, 208, g),
                get_directory(bytes, offset, 216, g),
                get_directory(bytes, offset, 224, g),
                get_directory(bytes, offset, 232, g),
                get_directory(bytes, offset, 240, g),
                get_directory(bytes, offset, 248, g),
                get_directory(bytes, offset, 256, g),
            ],
        }
    }
}

impl Pod for DebugDirectoryEntry {
    open spec fn size() -> nat {
        28
    }

    open spec fn decode(bytes: Seq<u8>) -> DebugDirectoryEntry {
        DebugDirectoryEntry {
            kind: field_u32(bytes, 12),
            size_of_data: field_u32(bytes, 16),
            address_of_raw_data: field_u32(bytes, 20),
        }
    }

    proof fn lemma_size() {
    }

    fn byte_size() -> (n: usize) {
        28
    }

    fn from_bytes(bytes: &Vec<u8>, offset: usize) -> (v: DebugDirectoryEntry) {
        let g: Ghost<int> = Ghost(28);
        DebugDirectoryEntry {
            kind: get_u32(bytes, offset, 12, g),
            size_of_data: get_u32(bytes, offset, 16, g),
            address_of_raw_data: get_u32(bytes, offset, 20, g),
        }
    }
}

impl Pod for ExportDirectory {
    open spec fn size() -> nat {
        40
    }

    open spec fn decode(bytes: Seq<u8>) -> ExportDirectory {
        ExportDirectory {
            name: field_u32(bytes, 12),
            base: field_u32(bytes, 16),
            number_of_functions: field_u32(bytes, 20),
            number_of_names: field_u32(bytes, 24),
            address_of_functions: field_u32(bytes, 28),
            address_of_names: field_u32(bytes, 32),
            address_of_name_ordinals: field_u32(bytes, 36),
        }
    }

    proof fn lemma_size() {
    }

    fn byte_size() -> (n: usize) {
        40
    }

    fn from_bytes(bytes: &Vec<u8>, offset: usize) -> (v: ExportDirectory) {
        let g: Ghost<int> = Ghost(40);
        ExportDirectory {
            name: get_u32(bytes, offset, 12, g),
            base: get_u32(bytes, offset, 16, g),
            number_of_functions: get_u32(bytes, offset, 20, g),
            number_of_names: get_u32(bytes, offset, 24, g),
            address_of_functions: get_u32(bytes, offset, 28, g),
            address_of_names: get_u32(bytes, offset, 32, g),
            address_of_name_ordinals: get_u32(bytes, offset, 36, g),
        }
    }
}

impl Pod for PdbInfo {
    open spec fn size() -> nat {
        24
    }

    open spec fn decode(bytes: Seq<u8>) -> PdbInfo {
        PdbInfo {
            signature: field_u32(bytes, 0),
            guid: Guid {
                data1: field_u32(bytes, 4),
                data2: field_u16(bytes, 8),
                data3: field_u16(bytes, 10),
                data4: [
                    bytes[12],
                    bytes[13],
                    bytes[14],
                    bytes[15],
                    bytes[16],
                    bytes[17],
                    bytes[18],
                    bytes[19],
                ],
            },
            age: field_u32(bytes, 20),
        }
    }

    proof fn lemma_size() {
    }

    fn byte_size() -> (n: usize) {
        24
    }

    fn from_bytes(bytes: &Vec<u8>, offset: usize) -> (v: PdbInfo) {
        let g: Ghost<int> = Ghost(24);
        PdbInfo {
            signature: get_u32(bytes, offset, 0, g),
            guid: Guid {
                data1: get_u32(bytes, offset, 4, g),
                data2: get_u16(bytes, offset, 8, g),
                data3: get_u16(bytes, offset, 10, g),
                data4: [
                    bytes[offset + 12],
                    bytes[offset + 13],
                    bytes[offset + 14],
                    bytes[offset + 15],
                    bytes[offset + 16],
                    bytes[offset + 17],
                    bytes[offset + 18],
                    bytes[offset + 19],
                ],
            },
            age: get_u32(bytes, offset, 20, g),
        }
    }
}

} // verus!
