//! The ELF sections tag: its table of section headers, in either of the two widths that the
//! ELF format defines, and the cursor that walks the table.

use crate::memory::Memory;
use crate::tag::{spec_align8, tag_at, Tag, TagView};
use vstd::prelude::*;
use vstd::string::StringSliceAdditionalSpecFns;
use vstd::utf8::{decode_utf8, valid_utf8};

verus! {

/// The length in bytes of a section header of a 32-bit ELF file.
pub const NARROW_ENTRY_SIZE: u32 = 40;

/// The length in bytes of a section header of a 64-bit ELF file.
pub const WIDE_ENTRY_SIZE: u32 = 64;

/// What a section is for, as its header's type field says.
#[derive(Clone, Copy, Debug, PartialEq, Eq, Structural)]
pub enum SectionType {
    Unused,
    Program,
    SymbolTable,
    StringTable,
    RelaRelocation,
    SymbolHashTable,
    DynamicLinkTable,
    Note,
    Uninitialized,
    RelRelocation,
    Reserved,
    EnvironmentSpecific,
    ProcessorSpecific,
}

/// The section type that the number `code` stands for, if it stands for one.
pub open spec fn section_type_of(code: u32) -> Option<SectionType> {
    if code == 0 {
        Some(SectionType::Unused)
    } else if code == 1 {
        Some(SectionType::Program)
    } else if code == 2 {
        Some(SectionType::SymbolTable)
    } else if code == 3 {
        Some(SectionType::StringTable)
    } else if code == 4 {
        Some(SectionType::RelaRelocation)
    } else if code == 5 {
        Some(SectionType::SymbolHashTable)
    } else if code == 6 {
        Some(SectionType::DynamicLinkTable)
    } else if code == 7 {
        Some(SectionType::Note)
    } else if code == 8 {
        Some(SectionType::Uninitialized)
    } else if code == 9 {
        Some(SectionType::RelRelocation)
    } else if code == 10 {
        Some(SectionType::Reserved)
    } else if 0x6000_0000 <= code <= 0x6FFF_FFFF {
        Some(SectionType::EnvironmentSpecific)
    } else if 0x7000_0000 <= code <= 0x7FFF_FFFF {
        Some(SectionType::ProcessorSpecific)
    } else {
        None
    }
}

impl SectionType {
    /// The section type that the number `code` stands for, if it stands for one.
    pub fn from_code(code: u32) -> (section_type: Option<SectionType>)
        ensures
            section_type == section_type_of(code),
    {
        match code {
            0 => Some(SectionType::Unused),
            1 => Some(SectionType::Program),
            2 => Some(SectionType::SymbolTable),
            3 => Some(SectionType::StringTable),
            4 => Some(SectionType::RelaRelocation),
            5 => Some(SectionType::SymbolHashTable),
            6 => Some(SectionType::DynamicLinkTable),
            7 => Some(SectionType::Note),
            8 => Some(SectionType::Uninitialized),
            9 => Some(SectionType::RelRelocation),
            10 => Some(SectionType::Reserved),
            0x6000_0000..=0x6FFF_FFFF => Some(SectionType::EnvironmentSpecific),
            0x7000_0000..=0x7FFF_FFFF => Some(SectionType::ProcessorSpecific),
            _ => None,
        }
    }
}

/// The attributes of a section that this library knows: a set of flags.
#[derive(Clone, Copy, Debug, PartialEq, Eq, Structural)]
pub struct SectionFlags {
    bits: u64,
}

impl View for SectionFlags {
    type V = u64;

    closed spec fn view(&self) -> u64 {
        self.bits
    }
}

impl SectionFlags {
    /// The bit of the flag "can be written while the program runs".
    pub const WRITABLE: u64 = 0x1;

    /// The bit of the flag "takes up memory while the program runs".
    pub const ALLOCATED: u64 = 0x2;

    /// The bit of the flag "holds machine instructions".
    pub const EXECUTABLE: u64 = 0x4;

    /// The bits of all the flags that this library knows.
    pub const ALL: u64 = 0x7;

    /// The flags among `bits` that this library knows; the other bits are dropped.
    pub fn from_bits_truncate(bits: u64) -> (flags: SectionFlags)
        ensures
            flags@ == bits & Self::ALL,
            flags@ == bits % 8,
    {
        assert(bits & 0x7 == bits % 8) by (bit_vector);
        SectionFlags { bits: bits & Self::ALL }
    }

    /// The flags as a number, one bit for each flag that is set.
    pub fn bits(&self) -> (bits: u64)
        ensures
            bits == self@,
    {
        self.bits
    }

    /// Whether every flag of `other` is set in `self`.
    pub fn contains(&self, other: SectionFlags) -> (all: bool)
        ensures
            all == (self@ & other@ == other@),
    {
        self.bits & other.bits == other.bits
    }
}

/// A section header of a 32-bit ELF file, as its 40 bytes spell it.
#[derive(Clone, Copy, Debug, PartialEq, Eq, Structural)]
pub struct Entry32 {
    pub name_index: u32,
    pub entry_type: u32,
    pub flags: u32,
    pub address: u32,
    pub offset: u32,
    pub size: u32,
    pub link: u32,
    pub info: u32,
    pub addr_align: u32,
    pub entry_size: u32,
}

/// A section header of a 64-bit ELF file, as its 64 bytes spell it.
#[derive(Clone, Copy, Debug, PartialEq, Eq, Structural)]
pub struct Entry64 {
    pub name_index: u32,
    pub entry_type: u32,
    pub flags: u64,
    pub address: u64,
    pub offset: u64,
    pub size: u64,
    pub link: u32,
    pub info: u32,
    pub addr_align: u64,
    pub entry_size: u64,
}

impl Entry32 {
    /// The header that the 40 bytes from `addr` on spell.
    pub open spec fn at(mem: Memory, addr: int) -> Entry32 {
        Entry32 {
            name_index: mem.u32_at(addr),
            entry_type: mem.u32_at(addr + 4),
            flags: mem.u32_at(addr + 8),
            address: mem.u32_at(addr + 12),
            offset: mem.u32_at(addr + 16),
            size: mem.u32_at(addr + 20),
            link: mem.u32_at(addr + 24),
            info: mem.u32_at(addr + 28),
            addr_align: mem.u32_at(addr + 32),
            entry_size: mem.u32_at(addr + 36),
        }
    }

    /// Reads the header that the 40 bytes from `addr` on spell.
    pub fn read(mem: &Memory, addr: usize) -> (entry: Entry32)
        requires
            mem.holds(addr as int, 40),
        ensures
            entry == Entry32::at(*mem, addr as int),
    {
        proof {
            use_type_invariant(mem);
        }
        Entry32 {
            name_index: mem.read_u32(addr),
            entry_type: mem.read_u32(addr + 4),
            flags: mem.read_u32(addr + 8),
            address: mem.read_u32(addr + 12),
            offset: mem.read_u32(addr + 16),
            size: mem.read_u32(addr + 20),
            link: mem.read_u32(addr + 24),
            info: mem.read_u32(addr + 28),
            addr_align: mem.read_u32(addr + 32),
            entry_size: mem.read_u32(addr + 36),
        }
    }

    /// Where in the string table the section's name starts.
    pub fn get_name_index(&self) -> (index: u32)
        ensures
            index == self.name_index,
    {
        self.name_index
    }

    /// The number that stands for the section's type.
    pub fn get_type(&self) -> (code: u32)
        ensures
            code == self.entry_type,
    {
        self.entry_type
    }

    /// The section's flags, widened to 64 bits.
    pub fn get_flags(&self) -> (flags: u64)
        ensures
            flags == self.flags,
    {
        self.flags as u64
    }

    /// The address at which the section lies, widened to 64 bits.
    pub fn get_address(&self) -> (address: u64)
        ensures
            address == self.address,
    {
        self.address as u64
    }

    /// The section's length in bytes, widened to 64 bits.
    pub fn get_size(&self) -> (size: u64)
        ensures
            size == self.size,
    {
        self.size as u64
    }
}

impl Entry64 {
    /// The header that the 64 bytes from `addr` on spell.
    pub open spec fn at(mem: Memory, addr: int) -> Entry64 {
        Entry64 {
            name_index: mem.u32_at(addr),
            entry_type: mem.u32_at(addr + 4),
            flags: mem.u64_at(addr + 8),
            address: mem.u64_at(addr + 16),
            offset: mem.u64_at(addr + 24),
            size: mem.u64_at(addr + 32),
            link: mem.u32_at(addr + 40),
            info: mem.u32_at(addr + 44),
            addr_align: mem.u64_at(addr + 48),
            entry_size: mem.u64_at(addr + 56),
        }
    }

    /// Reads the header that the 64 bytes from `addr` on spell.
    pub fn read(mem: &Memory, addr: usize) -> (entry: Entry64)
        requires
            mem.holds(addr as int, 64),
        ensures
            entry == Entry64::at(*mem, addr as int),
    {
        proof {
            use_type_invariant(mem);
        }
        Entry64 {
            name_index: mem.read_u32(addr),
            entry_type: mem.read_u32(addr + 4),
            flags: mem.read_u64(addr + 8),
            address: mem.read_u64(addr + 16),
            offset: mem.read_u64(addr + 24),
            size: mem.read_u64(addr + 32),
            link: mem.read_u32(addr + 40),
            info: mem.read_u32(addr + 44),
            addr_align: mem.read_u64(addr + 48),
            entry_size: mem.read_u64(addr + 56),
        }
    }

    /// Where in the string table the section's name starts.
    pub fn get_name_index(&self) -> (index: u32)
        ensures
            index == self.name_index,
    {
        self.name_index
    }

    /// The number that stands for the section's type.
    pub fn get_type(&self) -> (code: u32)
        ensures
            code == self.entry_type,
    {
        self.entry_type
    }

    /// The section's flags.
    pub fn get_flags(&self) -> (flags: u64)
        ensures
            flags == self.flags,
    {
        self.flags
    }

    /// The address at which the section lies.
    pub fn get_address(&self) -> (address: u64)
        ensures
            address == self.address,
    {
        self.address
    }

    /// The section's length in bytes.
    pub fn get_size(&self) -> (size: u64)
        ensures
            size == self.size,
    {
        self.size
    }
}

/// A section header of either width. Its five readings mean the same whatever the width:
/// the narrow header's fields are widened to what the wide header holds.
#[derive(Clone, Copy, Debug, PartialEq, Eq, Structural)]
pub enum Entry {
    Narrow(Entry32),
    Wide(Entry64),
}

impl Entry {
    /// The header of `entry_size` bytes at `addr`: narrow for 40, wide for any other size.
    pub open spec fn at(mem: Memory, addr: int, entry_size: u32) -> Entry {
        if entry_size == NARROW_ENTRY_SIZE {
            Entry::Narrow(Entry32::at(mem, addr))
        } else {
            Entry::Wide(Entry64::at(mem, addr))
        }
    }

    /// Where in the string table the section's name starts.
    pub open spec fn name_index(self) -> u32 {
        match self {
            Entry::Narrow(e) => e.name_index,
            Entry::Wide(e) => e.name_index,
        }
    }

    /// The number that stands for the section's type.
    pub open spec fn type_code(self) -> u32 {
        match self {
            Entry::Narrow(e) => e.entry_type,
            Entry::Wide(e) => e.entry_type,
        }
    }

    /// The section's flags, as a number of 64 bits.
    pub open spec fn flags(self) -> u64 {
        match self {
            Entry::Narrow(e) => e.flags as u64,
            Entry::Wide(e) => e.flags,
        }
    }

    /// The address at which the section lies, as a number of 64 bits.
    pub open spec fn address(self) -> u64 {
        match self {
            Entry::Narrow(e) => e.address as u64,
            Entry::Wide(e) => e.address,
        }
    }

    /// The section's length in bytes, as a number of 64 bits.
    pub open spec fn size(self) -> u64 {
        match self {
            Entry::Narrow(e) => e.size as u64,
            Entry::Wide(e) => e.size,
        }
    }

    /// Where in the string table the section's name starts.
    pub fn get_name_index(&self) -> (index: u32)
        ensures
            index == self.name_index(),
    {
        match self {
            Entry::Narrow(e) => e.get_name_index(),
            Entry::Wide(e) => e.get_name_index(),
        }
    }

    /// The number that stands for the section's type.
    pub fn get_type(&self) -> (code: u32)
        ensures
            code == self.type_code(),
    {
        match self {
            Entry::Narrow(e) => e.get_type(),
            Entry::Wide(e) => e.get_type(),
        }
    }

    /// The section's flags.
    pub fn get_flags(&self) -> (flags: u64)
        ensures
            flags == self.flags(),
    {
        match self {
            Entry::Narrow(e) => e.get_flags(),
            Entry::Wide(e) => e.get_flags(),
        }
    }

    /// The address at which the section lies.
    pub fn get_address(&self) -> (address: u64)
        ensures
            address == self.address(),
    {
        match self {
            Entry::Narrow(e) => e.get_address(),
            Entry::Wide(e) => e.get_address(),
        }
    }

    /// The section's length in bytes.
    pub fn get_size(&self) -> (size: u64)
        ensures
            size == self.size(),
    {
        match self {
            Entry::Narrow(e) => e.get_size(),
            Entry::Wide(e) => e.get_size(),
        }
    }
}

/// A narrow and a wide header whose type, flags, address, size and name index are the same
/// numbers read the same: the width of a table does not show in what its sections are.
pub proof fn lemma_width_does_not_show(narrow: Entry32, wide: Entry64)
    requires
        narrow.name_index == wide.name_index,
        narrow.entry_type == wide.entry_type,
        narrow.flags == wide.flags,
        narrow.address == wide.address,
        narrow.size == wide.size,
    ensures
        Entry::Narrow(narrow).name_index() == Entry::Wide(wide).name_index(),
        Entry::Narrow(narrow).type_code() == Entry::Wide(wide).type_code(),
        Entry::Narrow(narrow).flags() == Entry::Wide(wide).flags(),
        Entry::Narrow(narrow).address() == Entry::Wide(wide).address(),
        Entry::Narrow(narrow).size() == Entry::Wide(wide).size(),
        section_type_of(Entry::Narrow(narrow).type_code()) == section_type_of(
            Entry::Wide(wide).type_code(),
        ),
        Entry::Narrow(narrow).flags() & SectionFlags::ALL == Entry::Wide(wide).flags()
            & SectionFlags::ALL,
{
}

/// One section of the table, as a view: where its header lies, where the header of the
/// string table lies, and how long the headers of the table are.
pub struct SectionView {
    pub entry: int,
    pub string_table: int,
    pub size: u32,
}

/// One section of the table. Nothing of the header is kept: every reading decodes it anew.
#[derive(Clone, Copy, Debug)]
pub struct Section<'a> {
    entry: usize,
    string_table: usize,
    size: u32,
    mem: Memory<'a>,
}

impl<'a> View for Section<'a> {
    type V = SectionView;

    closed spec fn view(&self) -> SectionView {
        SectionView {
            entry: self.entry as int,
            string_table: self.string_table as int,
            size: self.size,
        }
    }
}

/// The header of the section `section` in `mem`.
pub open spec fn header_of(mem: Memory, section: SectionView) -> Entry {
    Entry::at(mem, section.entry, section.size)
}

/// The section `section` in `mem` is in use: its type is not 0.
pub open spec fn is_used(mem: Memory, section: SectionView) -> bool {
    header_of(mem, section).type_code() != 0
}

/// Converts bytes to a string slice with `core::str::from_utf8`. The call succeeds exactly
/// on well-formed UTF-8, and the string it gives is made of the very bytes it was given.
#[verifier::external_body]
fn str_from_utf8<'a>(bytes: &'a [u8]) -> (text: Option<&'a str>)
    ensures
        text is Some <==> valid_utf8(bytes@),
        text matches Some(t) ==> t.spec_bytes() == bytes@,
{
    core::str::from_utf8(bytes).ok()
}

impl<'a> Section<'a> {
    /// The memory that the section's header lies in.
    pub closed spec fn memory(self) -> Memory<'a> {
        self.mem
    }

    /// The headers are of one of the two widths, and the memory holds the section's header
    /// and that of the string table.
    #[verifier::type_invariant]
    pub open spec fn wf(self) -> bool {
        &&& self.memory().wf()
        &&& self@.size == NARROW_ENTRY_SIZE || self@.size == WIDE_ENTRY_SIZE
        &&& self.memory().holds(self@.entry, self@.size as int)
        &&& self.memory().holds(self@.string_table, self@.size as int)
    }

    /// The section's header.
    pub open spec fn header(self) -> Entry {
        header_of(self.memory(), self@)
    }

    /// The address of the table of names: the address field of the string table's header.
    pub open spec fn names_address(self) -> u64 {
        Entry::at(self.memory(), self@.string_table, self@.size).address()
    }

    /// The bytes of the section's name: those from the section's place in the table of
    /// names up to the first zero byte. `None` where the memory does not hold them.
    pub open spec fn name_bytes(self) -> Option<Seq<u8>> {
        self.memory().c_string_at(self.names_address() + self.header().name_index())
    }

    /// The section's name can be read: the memory holds its bytes up to a zero byte, and
    /// they are well-formed UTF-8.
    pub open spec fn has_name(self) -> bool {
        self.name_bytes() matches Some(bytes) && valid_utf8(bytes)
    }

    /// What the section is for. The number in the header's type field has to stand for a
    /// section type; `get_section_type` gives the number itself, whatever it is.
    pub fn get_type(&self) -> (section_type: SectionType)
        requires
            section_type_of(self.header().type_code()) is Some,
        ensures
            Some(section_type) == section_type_of(self.header().type_code()),
    {
        SectionType::from_code(self.get().get_type()).unwrap()
    }

    /// The section's name, where it can be read.
    pub fn try_get_name(&self) -> (name: Option<&'a str>)
        ensures
            name is Some <==> self.has_name(),
            name matches Some(n) ==> n@ == decode_utf8(self.name_bytes()->0),
    {
        match self.get_name_bytes() {
            Some(bytes) => {
                let text = str_from_utf8(bytes);
                proof {
                    if let Some(t) = text {
                        vstd::utf8::encode_utf8_decode_utf8(t@);
                    }
                }
                text
            },
            None => None,
        }
    }

    /// The section's name: the bytes from the section's place in the table of names up to
    /// the first zero byte, decoded as UTF-8. The name has to be one that can be read;
    /// `try_get_name` tells whether it is.
    pub fn get_name(&self) -> (name: &'a str)
        requires
            self.has_name(),
        ensures
            name@ == decode_utf8(self.name_bytes()->0),
    {
        self.try_get_name().unwrap()
    }

    /// The bytes of the section's name, where the memory holds them up to a zero byte.
    pub fn get_name_bytes(&self) -> (bytes: Option<&'a [u8]>)
        ensures
            bytes is Some <==> self.name_bytes() is Some,
            bytes matches Some(b) ==> self.name_bytes() == Some(b@),
    {
        let names: u64 = self.get_string_table();
        let index: u64 = self.get().get_name_index() as u64;
        if names > usize::MAX as u64 - index {
            proof {
                use_type_invariant(self);
            }
            return None;
        }
        self.mem.read_c_string((names + index) as usize)
    }

    /// The address at which the section lies.
    pub fn get_start_addr(&self) -> (address: u64)
        ensures
            address == self.header().address(),
    {
        self.get().get_address()
    }

    /// The address just behind the section: where it lies, plus its length. The sum has to
    /// be a number of 64 bits.
    pub fn get_end_addr(&self) -> (address: u64)
        requires
            self.header().address() + self.header().size() <= u64::MAX,
        ensures
            address == self.header().address() + self.header().size(),
    {
        self.get().get_address() + self.get().get_size()
    }

    /// The section's length in bytes.
    pub fn get_size(&self) -> (size: u64)
        ensures
            size == self.header().size(),
    {
        self.get().get_size()
    }

    /// The flags of the section that this library knows.
    pub fn get_flags(&self) -> (flags: SectionFlags)
        ensures
            flags@ == self.header().flags() & SectionFlags::ALL,
            flags@ == self.header().flags() % 8,
    {
        SectionFlags::from_bits_truncate(self.get().get_flags())
    }

    /// The number that stands for the section's type.
    pub fn get_section_type(&self) -> (code: u32)
        ensures
            code == self.header().type_code(),
    {
        self.get().get_type()
    }

    /// Decodes the section's header, in the width of the table.
    pub fn get(&self) -> (entry: Entry)
        ensures
            entry == self.header(),
    {
        proof {
            use_type_invariant(self);
        }
        if self.size == NARROW_ENTRY_SIZE {
            Entry::Narrow(Entry32::read(&self.mem, self.entry))
        } else {
            Entry::Wide(Entry64::read(&self.mem, self.entry))
        }
    }

    /// The address of the table of names, from the string table's header.
    pub fn get_string_table(&self) -> (address: u64)
        ensures
            address == self.names_address(),
    {
        proof {
            use_type_invariant(self);
        }
        if self.size == NARROW_ENTRY_SIZE {
            Entry32::read(&self.mem, self.string_table).get_address()
        } else {
            Entry64::read(&self.mem, self.string_table).get_address()
        }
    }
}

/// The sections whose headers are the `count` headers of `size` bytes each from `addr` on,
/// in the order of the headers.
pub open spec fn table_at(addr: int, count: nat, size: u32, string_table: int) -> Seq<
    SectionView,
>
    decreases count,
{
    if count == 0 {
        Seq::empty()
    } else {
        seq![SectionView { entry: addr, string_table, size }] + table_at(
            addr + size,
            (count - 1) as nat,
            size,
            string_table,
        )
    }
}

/// The test that a section of `mem` is in use.
pub open spec fn used_in(mem: Memory) -> spec_fn(SectionView) -> bool {
    |section: SectionView| is_used(mem, section)
}

/// The three numbers at the start of the tag: how many section headers follow, how long
/// each is, and which of them is the string table's.
#[derive(Clone, Copy, Debug, PartialEq, Eq, Structural)]
pub struct ElfSectionsInfo {
    pub num: u32,
    pub entry_size: u32,
    pub shndx: u32,
}

impl ElfSectionsInfo {
    /// The numbers that the 12 bytes from `addr` on spell.
    pub open spec fn at(mem: Memory, addr: int) -> ElfSectionsInfo {
        ElfSectionsInfo {
            num: mem.u32_at(addr),
            entry_size: mem.u32_at(addr + 4),
            shndx: mem.u32_at(addr + 8),
        }
    }

    /// Reads the numbers that the 12 bytes from `addr` on spell.
    pub fn read(mem: &Memory, addr: usize) -> (info: ElfSectionsInfo)
        requires
            mem.holds(addr as int, 12),
        ensures
            info == ElfSectionsInfo::at(*mem, addr as int),
    {
        proof {
            use_type_invariant(mem);
        }
        ElfSectionsInfo {
            num: mem.read_u32(addr),
            entry_size: mem.read_u32(addr + 4),
            shndx: mem.read_u32(addr + 8),
        }
    }
}

/// A tag read as an ELF sections tag.
#[derive(Clone, Copy, Debug)]
pub struct ElfSectionsTag<'a> {
    tag: Tag<'a>,
}

impl<'a> View for ElfSectionsTag<'a> {
    type V = TagView;

    closed spec fn view(&self) -> TagView {
        self.tag@
    }
}

/// Reads `tag` as an ELF sections tag.
pub fn get_elf_sections_tag<'a>(tag: &Tag<'a>) -> (elf_tag: ElfSectionsTag<'a>)
    ensures
        elf_tag@ == tag@,
        elf_tag.memory() == tag.memory(),
{
    proof {
        use_type_invariant(tag);
    }
    ElfSectionsTag { tag: *tag }
}

impl<'a> ElfSectionsTag<'a> {
    /// The memory that the tag lies in.
    pub closed spec fn memory(self) -> Memory<'a> {
        self.tag.memory()
    }

    /// The tag is one that its memory holds, as every tag is.
    #[verifier::type_invariant]
    pub open spec fn wf(self) -> bool {
        &&& self.memory().wf()
        &&& self@ == tag_at(self.memory(), self@.address)
        &&& self@.size >= 8
        &&& self.memory().holds(self@.address, spec_align8(self@.size as int) + 8)
    }

    /// The three numbers at the start of the tag.
    pub open spec fn info(self) -> ElfSectionsInfo {
        ElfSectionsInfo::at(self.memory(), self@.address + 8)
    }

    /// The address of the first section header.
    pub open spec fn first_entry(self) -> int {
        self@.address + 20
    }

    /// The address of the string table's header.
    pub open spec fn string_table_entry(self) -> int {
        self.first_entry() + self.info().shndx * self.info().entry_size
    }

    /// The tag holds a table that can be walked: its three numbers, headers of one of the
    /// two widths, all of them inside the tag, and the string table's among them.
    pub open spec fn well_formed(self) -> bool {
        &&& self@.size >= 20
        &&& self.info().entry_size == NARROW_ENTRY_SIZE || self.info().entry_size
            == WIDE_ENTRY_SIZE
        &&& self.info().shndx < self.info().num
        &&& 20 + self.info().num * self.info().entry_size <= self@.size
    }

    /// The sections of the table, in the order of their headers. The first header of a table
    /// is a placeholder that stands for no section: the sections are those of the other
    /// `num - 1` headers.
    pub open spec fn table(self) -> Seq<SectionView> {
        table_at(
            self.first_entry() + self.info().entry_size,
            (self.info().num - 1) as nat,
            self.info().entry_size,
            self.string_table_entry(),
        )
    }

    /// The sections of the table that are in use, in the order of their headers.
    pub open spec fn sections(self) -> Seq<SectionView> {
        self.table().filter(used_in(self.memory()))
    }

    /// Whether the tag holds a table that can be walked.
    pub fn is_well_formed(&self) -> (well_formed: bool)
        ensures
            well_formed == self.well_formed(),
    {
        if self.tag.size() < 20 {
            return false;
        }
        let info = self.get();
        if info.entry_size != NARROW_ENTRY_SIZE && info.entry_size != WIDE_ENTRY_SIZE {
            return false;
        }
        info.shndx < info.num && 20 + (info.num as u64) * (info.entry_size as u64)
            <= self.tag.size() as u64
    }

    /// The address of the first section header.
    fn first_section(&self) -> (address: usize)
        requires
            self@.size >= 20,
        ensures
            address == self.first_entry(),
    {
        proof {
            use_type_invariant(self);
        }
        self.tag.address() + 20
    }

    /// A cursor over the sections of the table that are in use. It starts behind the first
    /// header, the placeholder, with the other `num - 1` headers to look at. The tag has to
    /// hold a table that can be walked; `is_well_formed` tells whether it does.
    pub fn get_sections(&self) -> (cursor: ElfSectionsIterator<'a>)
        requires
            self.well_formed(),
        ensures
            cursor.memory() == self.memory(),
            cursor.position() == self.first_entry() + self.info().entry_size,
            cursor.count() == self.info().num - 1,
            cursor.entry_size() == self.info().entry_size,
            cursor.string_table() == self.string_table_entry(),
            cursor.remaining() == self.sections(),
    {
        let info = self.get();
        let first: usize = self.first_section();
        proof {
            use_type_invariant(self);
            lemma_table_fits(info.shndx as int, info.num as int, info.entry_size as int);
        }
        let size: usize = info.entry_size as usize;
        let string_table: usize = first + info.shndx as usize * size;
        ElfSectionsIterator {
            current_section: first + size,
            remaining: info.num - 1,
            entry_size: info.entry_size,
            string_table,
            mem: self.tag.mem(),
        }
    }

    /// Reads the three numbers at the start of the tag.
    fn get(&self) -> (info: ElfSectionsInfo)
        requires
            self@.size >= 20,
        ensures
            info == self.info(),
    {
        proof {
            use_type_invariant(self);
        }
        ElfSectionsInfo::read(&self.tag.mem(), self.tag.address() + 8)
    }
}

/// Header `index` of `count` headers of `size` bytes each lies among them.
proof fn lemma_table_fits(index: int, count: int, size: int)
    requires
        0 <= index < count,
        0 <= size,
    ensures
        0 <= index * size,
        index * size + size <= count * size,
        (count - 1) * size == count * size - size,
{
    assert((count - 1) * size == count * size - size) by (nonlinear_arith);
    assert(index * size + size == (index + 1) * size) by (nonlinear_arith);
    assert((index + 1) * size <= count * size) by (nonlinear_arith)
        requires
            index + 1 <= count,
            0 <= size,
    ;
    assert(0 <= index * size) by (nonlinear_arith)
        requires
            0 <= index,
            0 <= size,
    ;
}

/// A cursor over a table of section headers: it hands out the sections that are in use,
/// one by one.
#[derive(Clone, Copy, Debug)]
pub struct ElfSectionsIterator<'a> {
    current_section: usize,
    remaining: u32,
    entry_size: u32,
    string_table: usize,
    mem: Memory<'a>,
}

impl<'a> ElfSectionsIterator<'a> {
    /// The memory that the cursor reads.
    pub closed spec fn memory(self) -> Memory<'a> {
        self.mem
    }

    /// The address of the header that the cursor stands on.
    pub closed spec fn position(self) -> int {
        self.current_section as int
    }

    /// How many headers the cursor has yet to look at.
    pub closed spec fn count(self) -> nat {
        self.remaining as nat
    }

    /// The length of each header.
    pub closed spec fn entry_size(self) -> u32 {
        self.entry_size
    }

    /// The address of the string table's header.
    pub closed spec fn string_table(self) -> int {
        self.string_table as int
    }

    /// The headers are of one of the two widths, and the memory holds those that the cursor
    /// has yet to look at and that of the string table.
    #[verifier::type_invariant]
    pub open spec fn wf(self) -> bool {
        &&& self.memory().wf()
        &&& self.entry_size() == NARROW_ENTRY_SIZE || self.entry_size() == WIDE_ENTRY_SIZE
        &&& self.memory().holds(self.position(), self.count() * self.entry_size())
        &&& self.memory().holds(self.string_table(), self.entry_size() as int)
    }

    /// The sections that the cursor has yet to hand out, in order.
    pub open spec fn remaining(self) -> Seq<SectionView> {
        table_at(self.position(), self.count(), self.entry_size(), self.string_table()).filter(
            used_in(self.memory()),
        )
    }

    /// Hands out the next section that is in use and moves behind it; where none is left it
    /// hands out nothing.
    pub fn next(&mut self) -> (section: Option<Section<'a>>)
        ensures
            final(self).memory() == old(self).memory(),
            final(self).entry_size() == old(self).entry_size(),
            final(self).string_table() == old(self).string_table(),
            final(self).position() + final(self).count() * final(self).entry_size() == old(
                self,
            ).position() + old(self).count() * old(self).entry_size(),
            old(self).remaining().len() == 0 ==> {
                &&& section is None
                &&& final(self).count() == 0
                &&& final(self).remaining().len() == 0
            },
            old(self).remaining().len() > 0 ==> {
                &&& section matches Some(s)
                &&& s@ == old(self).remaining()[0]
                &&& s.memory() == old(self).memory()
                &&& s.wf()
                &&& is_used(s.memory(), s@)
                &&& final(self).position() == s@.entry + s@.size
                &&& final(self).remaining() == old(self).remaining().drop_first()
            },
    {
        proof {
            use_type_invariant(&*self);
        }
        while self.remaining > 0
            invariant
                self.wf(),
                self.memory() == old(self).memory(),
                self.entry_size() == old(self).entry_size(),
                self.string_table() == old(self).string_table(),
                self.position() + self.count() * self.entry_size() == old(self).position() + old(
                    self,
                ).count() * old(self).entry_size(),
                self.remaining() == old(self).remaining(),
            decreases self.remaining,
        {
            proof {
                lemma_table_fits(0, self.remaining as int, self.entry_size as int);
            }
            let ghost before = *self;
            let section = Section {
                entry: self.current_section,
                string_table: self.string_table,
                size: self.entry_size,
                mem: self.mem,
            };
            *self = ElfSectionsIterator {
                current_section: self.current_section + self.entry_size as usize,
                remaining: self.remaining - 1,
                entry_size: self.entry_size,
                string_table: self.string_table,
                mem: self.mem,
            };
            proof {
                lemma_used_split(
                    before.mem,
                    before.position(),
                    before.count(),
                    before.entry_size,
                    before.string_table(),
                );
            }
            if section.get_section_type() != 0 {
                return Some(section);
            }
        }
        None
    }
}

/// The sections in use of a table that is not empty are the first section, if it is in
/// use, and then those of the rest of the table; an empty table has none.
pub proof fn lemma_used_split(mem: Memory, addr: int, count: nat, size: u32, string_table: int)
    ensures
        ({
            let first = SectionView { entry: addr, string_table, size };
            let rest = table_at(addr + size, (count - 1) as nat, size, string_table).filter(
                used_in(mem),
            );
            table_at(addr, count, size, string_table).filter(used_in(mem)) == if count == 0 {
                Seq::empty()
            } else if is_used(mem, first) {
                seq![first] + rest
            } else {
                rest
            }
        }),
{
    let table = table_at(addr, count, size, string_table);
    table.lemma_filter_eq_filter_alt(used_in(mem));
    if count > 0 {
        let first = SectionView { entry: addr, string_table, size };
        let tail = table_at(addr + size, (count - 1) as nat, size, string_table);
        assert(table == seq![first] + tail);
        assert(table.drop_first() =~= tail);
    }
}

/// The table holds `count` sections, one header behind the other: the header of section
/// `i` lies `i` headers behind `addr`.
pub proof fn lemma_table_in_order(addr: int, count: nat, size: u32, string_table: int)
    ensures
        table_at(addr, count, size, string_table).len() == count,
        forall|i: int|
            0 <= i < count ==> #[trigger] table_at(addr, count, size, string_table)[i]
                == (SectionView { entry: addr + i * size, string_table, size }),
    decreases count,
{
    let table = table_at(addr, count, size, string_table);
    if count > 0 {
        let tail = table_at(addr + size, (count - 1) as nat, size, string_table);
        lemma_table_in_order(addr + size, (count - 1) as nat, size, string_table);
        assert(table == seq![SectionView { entry: addr, string_table, size }] + tail);
        assert forall|i: int| 0 <= i < count implies #[trigger] table[i] == (SectionView {
            entry: addr + i * size,
            string_table,
            size,
        }) by {
            if i > 0 {
                assert(table[i] == tail[i - 1]);
                assert((i - 1) * size + size == i * size) by (nonlinear_arith);
            }
        }
    }
}

/// The cursor never hands out a section whose type is 0, and it leaves out no section that
/// is in use: the sections it hands out are all in use, every section of the table that is
/// in use is among them, and they are no more than the table has.
pub proof fn lemma_sections_are_in_use(mem: Memory, table: Seq<SectionView>)
    ensures
        ({
            let used = table.filter(used_in(mem));
            &&& used.len() <= table.len()
            &&& forall|i: int|
                0 <= i < used.len() ==> header_of(mem, #[trigger] used[i]).type_code() != 0
            &&& forall|i: int|
                0 <= i < table.len() && is_used(mem, table[i]) ==> used.contains(
                    #[trigger] table[i],
                )
        }),
{
    let used = table.filter(used_in(mem));
    table.lemma_filter_len(used_in(mem));
    assert forall|i: int| 0 <= i < used.len() implies header_of(
        mem,
        #[trigger] used[i],
    ).type_code() != 0 by {
        table.lemma_filter_pred(used_in(mem), i);
    }
    assert forall|i: int| 0 <= i < table.len() && is_used(mem, table[i]) implies used.contains(
        #[trigger] table[i],
    ) by {
        table.lemma_filter_contains(used_in(mem), i);
    }
}

} // verus!
