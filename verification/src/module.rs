//! A loaded image of the target, read from the target's memory.

use vstd::prelude::*;
use crate::error::DebugError;
use crate::memory;
use crate::memory::MemorySource;
use crate::pe;
use crate::pe::{DataDirectory, DebugDirectoryEntry, DosHeader, ExportDirectory, PeHeader};
pub use crate::pe::PdbInfo;
use crate::symbols::SymbolTable;
use crate::text;

verus! {

/// The highest base address at which an image is read. Image bases lie in
/// the lower half of the address space, so every address computed from a
/// base and 32-bit image fields stays inside 64 bits.
pub const MAX_MODULE_ADDRESS: u64 = 0x7fff_ffff_ffff_ffff;

/// Where an export leads.
#[derive(Debug, PartialEq, Eq)]
pub enum ExportTarget {
    /// Code or data of this image, at this offset from the image base.
    RVA(u64),
    /// An export of another image, named as `module.function`.
    Forwarder(String),
}

/// One slot of the export table.
#[derive(Debug, PartialEq, Eq)]
pub struct Export {
    pub name: Option<String>,
    /// The slot's index plus the ordinal base of the table.
    pub ordinal: u32,
    pub target: ExportTarget,
}

/// An export target as a value of the specification.
pub enum ExportTargetView {
    RVA(u64),
    Forwarder(Seq<char>),
}

/// An export as a value of the specification.
pub struct ExportView {
    pub name: Option<Seq<char>>,
    pub ordinal: u32,
    pub target: ExportTargetView,
}

impl View for ExportTarget {
    type V = ExportTargetView;

    open spec fn view(&self) -> ExportTargetView {
        match self {
            ExportTarget::RVA(rva) => ExportTargetView::RVA(*rva),
            ExportTarget::Forwarder(name) => ExportTargetView::Forwarder(name@),
        }
    }
}

impl View for Export {
    type V = ExportView;

    open spec fn view(&self) -> ExportView {
        ExportView {
            name: match self.name {
                Some(n) => Some(n@),
                None => None,
            },
            ordinal: self.ordinal,
            target: self.target@,
        }
    }
}

/// The views of a list of exports.
pub open spec fn export_views(exports: Seq<Export>) -> Seq<ExportView> {
    Seq::new(exports.len(), |i: int| exports[i]@)
}

/// The name an export is shown under: its own, or `Ordinal` and its number.
pub open spec fn export_label(export: ExportView) -> Seq<char> {
    match export.name {
        Some(n) => n,
        None => "Ordinal"@ + text::dec_digits(export.ordinal as nat),
    }
}

impl Export {
    /// The name the export is shown under.
    pub fn to_string(&self) -> (s: String)
        ensures
            s@ == export_label(self@),
    {
        let mut s = String::new();
        match &self.name {
            Some(n) => {
                text::push_str(&mut s, n.as_str());
                assert(s@ =~= n@);
            },
            None => {
                text::push_str(&mut s, "Ordinal");
                text::push_dec(&mut s, self.ordinal as u64, 0);
                assert(s@ =~= "Ordinal"@ + text::dec_digits(self.ordinal as nat));
            },
        }
        s
    }
}

/// A loaded image: where it lies, what it exports, and where its symbols are.
#[derive(Debug)]
pub struct Module {
    pub name: String,
    pub address: u64,
    pub size: u64,
    pub exports: Vec<Export>,
    pub pdb_name: Option<String>,
    pub pdb_info: Option<PdbInfo>,
    /// The records of the image's symbol file, once the host has loaded them.
    pub symbols: Option<SymbolTable>,
    /// What was kept of the image's PE header.
    pub pe_header: PeHeader,
}

/// The link from an image to its symbol file.
pub struct DebugLink {
    pub info: PdbInfo,
    pub name: Seq<char>,
}

/// What an image's export directory holds.
pub struct ExportTable {
    pub exports: Seq<ExportView>,
    /// The image's own name, as the export directory records it.
    pub module_name: Option<Seq<char>>,
}

/// What is read of an image at load.
pub struct ModuleImage {
    pub name: Seq<char>,
    pub address: u64,
    pub size: u64,
    pub exports: Seq<ExportView>,
    pub link: Option<DebugLink>,
    pub header: PeHeader,
}

/// The offset of the PE header as a signed number.
pub open spec fn signed_offset(e_lfanew: u32) -> int {
    if e_lfanew < 0x8000_0000 {
        e_lfanew as int
    } else {
        e_lfanew - 0x1_0000_0000
    }
}

/// The PE header of the image at `base`.
pub open spec fn header_at(mem: Map<u64, u8>, base: u64) -> Result<PeHeader, DebugError> {
    match memory::data_at::<DosHeader>(mem, base as int) {
        Err(e) => Err(e),
        Ok(dos) => {
            let addr = base + signed_offset(dos.e_lfanew);
            if addr < 0 {
                Err(DebugError::AddressOutOfRange)
            } else {
                match memory::data_at::<PeHeader>(mem, addr) {
                    Err(e) => Err(e),
                    Ok(header) => if header.machine != pe::IMAGE_FILE_MACHINE_AMD64 {
                        Err(DebugError::UnsupportedMachine)
                    } else {
                        Ok(header)
                    },
                }
            }
        },
    }
}

/// How many entries of the debug directory are looked at: all, up to twenty.
pub open spec fn debug_entry_count(dir: DataDirectory) -> int {
    if dir.virtual_address == 0 {
        0
    } else if dir.size / 28 < 20 {
        (dir.size / 28) as int
    } else {
        20
    }
}

/// The link that the debug directory entries from `index` on leave, given
/// the link `found` so far: the last CodeView entry wins.
pub open spec fn debug_link_from(
    mem: Map<u64, u8>,
    base: u64,
    dir: DataDirectory,
    index: int,
    found: Option<DebugLink>,
) -> Result<Option<DebugLink>, DebugError>
    decreases debug_entry_count(dir) - index,
{
    if index < 0 || index >= debug_entry_count(dir) {
        Ok(found)
    } else {
        match memory::data_at::<DebugDirectoryEntry>(
            mem,
            base + dir.virtual_address + index * 28,
        ) {
            Err(e) => Err(e),
            Ok(entry) => if entry.kind != pe::IMAGE_DEBUG_TYPE_CODEVIEW {
                debug_link_from(mem, base, dir, index + 1, found)
            } else {
                match memory::data_at::<PdbInfo>(mem, base + entry.address_of_raw_data) {
                    Err(e) => Err(e),
                    Ok(info) => if entry.size_of_data < 24 {
                        Err(DebugError::DebugRecordTooShort)
                    } else {
                        debug_link_from(
                            mem,
                            base,
                            dir,
                            index + 1,
                            Some(
                                DebugLink {
                                    info,
                                    name: memory::string_at(
                                        mem,
                                        base + entry.address_of_raw_data + 24,
                                        (entry.size_of_data - 24) as nat,
                                        false,
                                    ),
                                },
                            ),
                        )
                    },
                }
            },
        }
    }
}

/// The name of export slot `i`: the string that the name table gives for
/// the first entry of the ordinal table that equals `i`.
pub open spec fn export_name_at(
    mem: Map<u64, u8>,
    base: u64,
    ordinals: Seq<u16>,
    names: Seq<u32>,
    i: int,
) -> Option<Seq<char>> {
    let p = memory::stop_index(ordinals, i as u16, 0);
    if i < 0x1_0000 && p < ordinals.len() && p < names.len() {
        Some(memory::string_at(mem, base + names[p], 4096, false))
    } else {
        None
    }
}

/// Where the export with target `rva` leads: to another image if `rva`
/// lies inside the export directory itself, else to `rva`.
pub open spec fn export_target_at(mem: Map<u64, u8>, base: u64, dir: DataDirectory, rva: u32)
    -> ExportTargetView {
    if dir.virtual_address <= rva && rva < dir.virtual_address + dir.size {
        ExportTargetView::Forwarder(memory::string_at(mem, base + rva, 4096, false))
    } else {
        ExportTargetView::RVA(rva as u64)
    }
}

/// Export slot `i`.
pub open spec fn export_at(
    mem: Map<u64, u8>,
    base: u64,
    dir: DataDirectory,
    ordinal_base: u32,
    ordinals: Seq<u16>,
    names: Seq<u32>,
    functions: Seq<u32>,
    i: int,
) -> ExportView {
    ExportView {
        name: export_name_at(mem, base, ordinals, names, i),
        ordinal: (ordinal_base + i) as u32,
        target: export_target_at(mem, base, dir, functions[i]),
    }
}

/// The export table of the image at `base`, whose export directory is `dir`.
pub open spec fn exports_at(mem: Map<u64, u8>, base: u64, dir: DataDirectory) -> Result<
    ExportTable,
    DebugError,
> {
    if dir.virtual_address == 0 {
        Ok(ExportTable { exports: Seq::empty(), module_name: None })
    } else {
        match memory::data_at::<ExportDirectory>(mem, base + dir.virtual_address) {
            Err(e) => Err(e),
            Ok(ed) => match memory::full_array_at::<u16>(
                mem,
                base + ed.address_of_name_ordinals,
                ed.number_of_names as nat,
            ) {
                Err(e) => Err(e),
                Ok(ordinals) => match memory::full_array_at::<u32>(
                    mem,
                    base + ed.address_of_names,
                    ed.number_of_names as nat,
                ) {
                    Err(e) => Err(e),
                    Ok(names) => match memory::full_array_at::<u32>(
                        mem,
                        base + ed.address_of_functions,
                        ed.number_of_functions as nat,
                    ) {
                        Err(e) => Err(e),
                        Ok(functions) => if ed.base + ed.number_of_functions > 0x1_0000_0000 {
                            Err(DebugError::OrdinalOutOfRange)
                        } else {
                            Ok(
                                ExportTable {
                                    exports: Seq::new(
                                        functions.len(),
                                        |i: int|
                                            export_at(
                                                mem,
                                                base,
                                                dir,
                                                ed.base,
                                                ordinals,
                                                names,
                                                functions,
                                                i,
                                            ),
                                    ),
                                    module_name: if ed.name != 0 {
                                        Some(memory::string_at(mem, base + ed.name, 512, false))
                                    } else {
                                        None
                                    },
                                },
                            )
                        },
                    },
                },
            },
        }
    }
}

/// The name a module goes by: the one the loader reported, else the one
/// in its export directory, else `module_` and its base in hexadecimal.
pub open spec fn module_name_of(
    reported: Option<Seq<char>>,
    exported: Option<Seq<char>>,
    base: u64,
) -> Seq<char> {
    match reported {
        Some(n) => n,
        None => match exported {
            Some(n) => n,
            None => "module_"@ + text::hex_digits(base as nat, true),
        },
    }
}

/// The image at `base`, as the target's memory shows it.
pub open spec fn module_at(mem: Map<u64, u8>, base: u64, reported: Option<Seq<char>>) -> Result<
    ModuleImage,
    DebugError,
> {
    if base > MAX_MODULE_ADDRESS {
        Err(DebugError::AddressOutOfRange)
    } else {
        match header_at(mem, base) {
            Err(e) => Err(e),
            Ok(header) => match debug_link_from(
                mem,
                base,
                header.data_directories[pe::IMAGE_DIRECTORY_ENTRY_DEBUG as int],
                0,
                None,
            ) {
                Err(e) => Err(e),
                Ok(link) => match exports_at(
                    mem,
                    base,
                    header.data_directories[pe::IMAGE_DIRECTORY_ENTRY_EXPORT as int],
                ) {
                    Err(e) => Err(e),
                    Ok(table) => Ok(
                        ModuleImage {
                            name: module_name_of(reported, table.module_name, base),
                            address: base,
                            size: header.size_of_image as u64,
                            exports: table.exports,
                            link,
                            header,
                        },
                    ),
                },
            },
        }
    }
}

/// The view of an optional string.
pub open spec fn opt_view(s: Option<String>) -> Option<Seq<char>> {
    match s {
        Some(n) => Some(n@),
        None => None,
    }
}

/// The index of the first `x` in `items`, or the length of `items`.
fn position_of(items: &Vec<u16>, x: u16) -> (p: usize)
    ensures
        p == memory::stop_index(items@, x, 0),
        p <= items.len(),
{
    let mut i: usize = 0;
    while i < items.len() && items[i] != x
        invariant
            i <= items.len(),
            memory::stop_index(items@, x, 0) == memory::stop_index(items@, x, i as int),
        decreases items.len() - i,
    {
        i = i + 1;
    }
    i
}

impl Module {
    /// The address range of the module holds `address`.
    pub open spec fn spec_contains_address(&self, address: u64) -> bool {
        self.address <= address && address < self.address + self.size
    }

    /// Whether this module is the image `image`, with no symbols loaded.
    pub open spec fn is_image(&self, image: ModuleImage) -> bool {
        &&& self.name@ == image.name
        &&& self.address == image.address
        &&& self.size == image.size
        &&& export_views(self.exports@) == image.exports
        &&& match image.link {
            Some(link) => self.pdb_name is Some && self.pdb_name->Some_0@ == link.name
                && self.pdb_info is Some && self.pdb_info->Some_0 == link.info,
            None => self.pdb_name is None && self.pdb_info is None,
        }
        &&& self.symbols is None
        &&& self.pe_header == image.header
    }

    /// Reads the image at `module_address` from the target: the headers,
    /// the link to the symbol file and the export table. `module_name` is
    /// the name the loader reported, if it reported one. Images for
    /// another machine than x86-64 are refused; so is an image of which a
    /// needed structure cannot be read.
    pub fn from_memory_view<M: MemorySource + ?Sized>(
        module_address: u64,
        module_name: Option<String>,
        memory_source: &M,
    ) -> (r: Result<Module, DebugError>)
        ensures
            match module_at(memory_source.view(), module_address, opt_view(module_name)) {
                Ok(image) => r is Ok && r->Ok_0.is_image(image),
                Err(e) => r is Err && r->Err_0 == e,
            },
    {
        if module_address > MAX_MODULE_ADDRESS {
            return Err(DebugError::AddressOutOfRange);
        }
        let pe_header = match Module::read_header(module_address, memory_source) {
            Ok(h) => h,
            Err(e) => { return Err(e); },
        };
        let size = pe_header.size_of_image as u64;
        let (pdb_info, pdb_name) = match Module::read_debug_info(
            &pe_header,
            module_address,
            memory_source,
        ) {
            Ok(link) => link,
            Err(e) => { return Err(e); },
        };
        let (exports, export_table_module_name) = match Module::read_exports(
            &pe_header,
            module_address,
            memory_source,
        ) {
            Ok(table) => table,
            Err(e) => { return Err(e); },
        };
        let name = match module_name {
            Some(s) => s,
            None => match export_table_module_name {
                Some(s) => s,
                None => {
                    let mut s = String::new();
                    text::push_str(&mut s, "module_");
                    text::push_hex(&mut s, module_address, 0, true);
                    assert(s@ =~= "module_"@ + text::hex_digits(module_address as nat, true));
                    s
                },
            },
        };
        Ok(
            Module {
                name,
                address: module_address,
                size,
                exports,
                pdb_info,
                pdb_name,
                symbols: None,
                pe_header,
            },
        )
    }

    /// The PE header of the image at `module_address`, found through the
    /// DOS header; only headers of x86-64 images are accepted.
    fn read_header<M: MemorySource + ?Sized>(module_address: u64, memory_source: &M) -> (r: Result<
        PeHeader,
        DebugError,
    >)
        requires
            module_address <= MAX_MODULE_ADDRESS,
        ensures
            r == header_at(memory_source.view(), module_address),
    {
        let dos_header = match memory::read_memory_data::<DosHeader, M>(
            memory_source,
            module_address,
        ) {
            Ok(h) => h,
            Err(e) => { return Err(e); },
        };
        let pe_header_addr: u64 = if dos_header.e_lfanew < 0x8000_0000 {
            module_address + dos_header.e_lfanew as u64
        } else {
            let back: u64 = 0x1_0000_0000 - dos_header.e_lfanew as u64;
            if back > module_address {
                return Err(DebugError::AddressOutOfRange);
            }
            module_address - back
        };
        let pe_header = match memory::read_memory_data::<PeHeader, M>(
            memory_source,
            pe_header_addr,
        ) {
            Ok(h) => h,
            Err(e) => { return Err(e); },
        };
        if pe_header.machine != pe::IMAGE_FILE_MACHINE_AMD64 {
            return Err(DebugError::UnsupportedMachine);
        }
        Ok(pe_header)
    }

    /// Whether `address` lies in the module: at or after its base and
    /// before its base plus its size.
    #[verifier::when_used_as_spec(spec_contains_address)]
    pub fn contains_address(&self, address: u64) -> (r: bool)
        ensures
            r == self.spec_contains_address(address),
    {
        self.address <= address && address - self.address < self.size
    }

    /// The link to the symbol file: the fixed head of the last CodeView
    /// record of the debug directory, and the path that follows it.
    fn read_debug_info<M: MemorySource + ?Sized>(
        pe_header: &PeHeader,
        module_address: u64,
        memory_source: &M,
    ) -> (r: Result<(Option<PdbInfo>, Option<String>), DebugError>)
        requires
            module_address <= MAX_MODULE_ADDRESS,
        ensures
            match debug_link_from(
                memory_source.view(),
                module_address,
                pe_header.data_directories[pe::IMAGE_DIRECTORY_ENTRY_DEBUG as int],
                0,
                None,
            ) {
                Ok(Some(link)) => r is Ok && r->Ok_0.0 is Some && r->Ok_0.0->Some_0 == link.info
                    && r->Ok_0.1 is Some && r->Ok_0.1->Some_0@ == link.name,
                Ok(None) => r is Ok && r->Ok_0.0 is None && r->Ok_0.1 is None,
                Err(e) => r is Err && r->Err_0 == e,
            },
    {
        let mut pdb_info: Option<PdbInfo> = None;
        let mut pdb_name: Option<String> = None;
        let debug_table_info = pe_header.data_directories[pe::IMAGE_DIRECTORY_ENTRY_DEBUG];
        let ghost mem = memory_source.view();
        let ghost found: Option<DebugLink> = None;
        if debug_table_info.virtual_address != 0 {
            let dir_size: u64 = 28;
            let entries: u64 = debug_table_info.size as u64 / dir_size;
            let count: u64 = if entries < 20 {
                entries
            } else {
                20
            };
            let mut dir_index: u64 = 0;
            while dir_index < count
                invariant
                    dir_index <= count,
                    count == debug_entry_count(debug_table_info),
                    debug_table_info
                        == pe_header.data_directories[pe::IMAGE_DIRECTORY_ENTRY_DEBUG as int],
                    module_address <= MAX_MODULE_ADDRESS,
                    mem == memory_source.view(),
                    dir_size == 28,
                    debug_link_from(mem, module_address, debug_table_info, 0, None)
                        == debug_link_from(
                        mem,
                        module_address,
                        debug_table_info,
                        dir_index as int,
                        found,
                    ),
                    match found {
                        Some(link) => pdb_info is Some && pdb_info->Some_0 == link.info
                            && pdb_name is Some && pdb_name->Some_0@ == link.name,
                        None => pdb_info is None && pdb_name is None,
                    },
                decreases count - dir_index,
            {
                let debug_directory_address = module_address + (
                debug_table_info.virtual_address as u64) + (dir_index * dir_size);
                let debug_directory = match memory::read_memory_data::<DebugDirectoryEntry, M>(
                    memory_source,
                    debug_directory_address,
                ) {
                    Ok(d) => d,
                    Err(e) => { return Err(e); },
                };
                if debug_directory.kind == pe::IMAGE_DEBUG_TYPE_CODEVIEW {
                    let pdb_info_address = debug_directory.address_of_raw_data as u64
                        + module_address;
                    let info = match memory::read_memory_data::<PdbInfo, M>(
                        memory_source,
                        pdb_info_address,
                    ) {
                        Ok(i) => i,
                        Err(e) => { return Err(e); },
                    };
                    if debug_directory.size_of_data < 24 {
                        return Err(DebugError::DebugRecordTooShort);
                    }
                    let pdb_name_address = pdb_info_address + 24;
                    let max_size = (debug_directory.size_of_data - 24) as usize;
                    let name = match memory::read_memory_string(
                        memory_source,
                        pdb_name_address,
                        max_size,
                        false,
                    ) {
                        Ok(n) => n,
                        Err(e) => { return Err(e); },
                    };
                    proof {
                        found = Some(DebugLink { info, name: name@ });
                    }
                    pdb_info = Some(info);
                    pdb_name = Some(name);
                }
                dir_index = dir_index + 1;
            }
        }
        Ok((pdb_info, pdb_name))
    }

    /// One of the sixteen tables of the image; `entry` is the table's number.
    pub fn get_data_directory(&self, entry: usize) -> (d: DataDirectory)
        requires
            entry < 16,
        ensures
            d == self.pe_header.data_directories[entry as int],
    {
        self.pe_header.data_directories[entry]
    }

    /// The export table: one export per slot of the function table, in
    /// the order of the table, and the image's own name if the table has it.
    fn read_exports<M: MemorySource + ?Sized>(
        pe_header: &PeHeader,
        module_address: u64,
        memory_source: &M,
    ) -> (r: Result<(Vec<Export>, Option<String>), DebugError>)
        requires
            module_address <= MAX_MODULE_ADDRESS,
        ensures
            match exports_at(
                memory_source.view(),
                module_address,
                pe_header.data_directories[pe::IMAGE_DIRECTORY_ENTRY_EXPORT as int],
            ) {
                Ok(table) => r is Ok && export_views(r->Ok_0.0@) == table.exports && opt_view(
                    r->Ok_0.1,
                ) == table.module_name,
                Err(e) => r is Err && r->Err_0 == e,
            },
    {
        let mut exports: Vec<Export> = Vec::new();
        let mut module_name: Option<String> = None;
        let export_table_info = pe_header.data_directories[pe::IMAGE_DIRECTORY_ENTRY_EXPORT];
        let ghost mem = memory_source.view();
        if export_table_info.virtual_address != 0 {
            let export_table_addr = module_address + export_table_info.virtual_address as u64;
            let export_directory = match memory::read_memory_data::<ExportDirectory, M>(
                memory_source,
                export_table_addr,
            ) {
                Ok(d) => d,
                Err(e) => { return Err(e); },
            };
            let ordinal_array_address = module_address
                + export_directory.address_of_name_ordinals as u64;
            let ordinal_array = match memory::read_memory_full_array::<u16, M>(
                memory_source,
                ordinal_array_address,
                export_directory.number_of_names as usize,
            ) {
                Ok(a) => a,
                Err(e) => { return Err(e); },
            };
            let name_array_address = module_address + export_directory.address_of_names as u64;
            let name_array = match memory::read_memory_full_array::<u32, M>(
                memory_source,
                name_array_address,
                export_directory.number_of_names as usize,
            ) {
                Ok(a) => a,
                Err(e) => { return Err(e); },
            };
            let address_table_address = module_address
                + export_directory.address_of_functions as u64;
            let address_table = match memory::read_memory_full_array::<u32, M>(
                memory_source,
                address_table_address,
                export_directory.number_of_functions as usize,
            ) {
                Ok(a) => a,
                Err(e) => { return Err(e); },
            };
            if export_directory.base as u64 + export_directory.number_of_functions as u64
                > 0x1_0000_0000 {
                return Err(DebugError::OrdinalOutOfRange);
            }
            // The image's own name serves where the loader reported none.
            if export_directory.name != 0 {
                let name_addr = module_address + export_directory.name as u64;
                match memory::read_memory_string(memory_source, name_addr, 512, false) {
                    Ok(n) => { module_name = Some(n); },
                    Err(e) => { return Err(e); },
                }
            }
            let table_end: u64 = export_table_info.virtual_address as u64
                + export_table_info.size as u64;
            let mut i: usize = 0;
            while i < address_table.len()
                invariant
                    i <= address_table.len(),
                    exports.len() == i,
                    export_table_info
                        == pe_header.data_directories[pe::IMAGE_DIRECTORY_ENTRY_EXPORT as int],
                    export_table_info.virtual_address != 0,
                    memory::data_at::<ExportDirectory>(
                        mem,
                        module_address + export_table_info.virtual_address,
                    ) == Ok::<ExportDirectory, DebugError>(export_directory),
                    memory::full_array_at::<u16>(
                        mem,
                        module_address + export_directory.address_of_name_ordinals,
                        export_directory.number_of_names as nat,
                    ) == Ok::<Seq<u16>, DebugError>(ordinal_array@),
                    memory::full_array_at::<u32>(
                        mem,
                        module_address + export_directory.address_of_names,
                        export_directory.number_of_names as nat,
                    ) == Ok::<Seq<u32>, DebugError>(name_array@),
                    memory::full_array_at::<u32>(
                        mem,
                        module_address + export_directory.address_of_functions,
                        export_directory.number_of_functions as nat,
                    ) == Ok::<Seq<u32>, DebugError>(address_table@),
                    address_table.len() == export_directory.number_of_functions,
                    ordinal_array.len() == name_array.len(),
                    export_directory.base + export_directory.number_of_functions <= 0x1_0000_0000,
                    module_address <= MAX_MODULE_ADDRESS,
                    mem == memory_source.view(),
                    table_end == export_table_info.virtual_address + export_table_info.size,
                    export_views(exports@) == Seq::new(
                        i as nat,
                        |k: int|
                            export_at(
                                mem,
                                module_address,
                                export_table_info,
                                export_directory.base,
                                ordinal_array@,
                                name_array@,
                                address_table@,
                                k,
                            ),
                    ),
                decreases address_table.len() - i,
            {
                let function_address: u32 = address_table[i];
                let ordinal: u32 = (export_directory.base as u64 + i as u64) as u32;
                let export_name: Option<String> = if i < 0x1_0000 {
                    let name_index = position_of(&ordinal_array, i as u16);
                    if name_index < ordinal_array.len() {
                        let name_address = module_address + name_array[name_index] as u64;
                        match memory::read_memory_string(memory_source, name_address, 4096, false) {
                            Ok(n) => Some(n),
                            Err(e) => { return Err(e); },
                        }
                    } else {
                        None
                    }
                } else {
                    None
                };
                // A target inside the export directory is the name of a forwarder.
                let target = if function_address as u64 >= export_table_info.virtual_address as u64
                    && (function_address as u64) < table_end {
                    let target_address = module_address + function_address as u64;
                    match memory::read_memory_string(memory_source, target_address, 4096, false) {
                        Ok(n) => ExportTarget::Forwarder(n),
                        Err(e) => { return Err(e); },
                    }
                } else {
                    ExportTarget::RVA(function_address as u64)
                };
                proof {
                    assert(opt_view(export_name) == export_name_at(
                        mem,
                        module_address,
                        ordinal_array@,
                        name_array@,
                        i as int,
                    ));
                    assert(target@ == export_target_at(
                        mem,
                        module_address,
                        export_table_info,
                        function_address,
                    ));
                }
                let ghost before = exports@;
                exports.push(Export { name: export_name, ordinal, target });
                proof {
                    let next = Seq::new(
                        (i + 1) as nat,
                        |k: int|
                            export_at(
                                mem,
                                module_address,
                                export_table_info,
                                export_directory.base,
                                ordinal_array@,
                                name_array@,
                                address_table@,
                                k,
                            ),
                    );
                    assert(exports@[i as int]@ == next[i as int]);
                    assert forall|k: int| 0 <= k < i implies export_views(exports@)[k] == next[k] by {
                        assert(exports@[k] == before[k]);
                        assert(export_views(before)[k] == before[k]@);
                    }
                    assert(export_views(exports@) =~= next);
                }
                i = i + 1;
            }
        }
        Ok((exports, module_name))
    }

    /// Attaches the records of the module's symbol file.
    pub fn set_symbols(&mut self, symbols: SymbolTable)
        ensures
            final(self).symbols == Some(symbols),
            final(self).name == old(self).name,
            final(self).address == old(self).address,
            final(self).size == old(self).size,
            final(self).exports == old(self).exports,
            final(self).pdb_name == old(self).pdb_name,
            final(self).pdb_info == old(self).pdb_info,
            final(self).pe_header == old(self).pe_header,
    {
        self.symbols = Some(symbols);
    }
}

} // verus!
