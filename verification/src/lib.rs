//! A decoder for the boot information that a multiboot2 loader hands to a kernel: a header,
//! then a list of tags that an end tag closes.
//!
//! The decoder reads a [`Memory`], a window onto physical memory, and never writes it. A
//! [`Multiboot2Info`] is the root view of a boot information in such a window; [`load`]
//! makes one where the tag list can be walked, which [`is_valid_info`] tests. From the root
//! view come the tags, one by one through a [`TagIterator`] or looked up by type, and from
//! the tags the tables they hold: the free areas of the memory map and the sections of an
//! ELF file. Every view borrows the window and copies nothing but the numbers it hands out.

pub mod basic_info;
pub mod elf_sections;
pub mod memory;
pub mod memory_map;
pub mod tag;

use crate::basic_info::BasicMemoryInfoTag;
use crate::memory::Memory;
use crate::memory_map::MemoryMapTag;
use crate::tag::{
    align8, first_of_type, lemma_first_of_type, tag_list_at, tags_at, Tag, TagIterator, TagType,
    TagView,
};
use vstd::prelude::*;

verus! {

/// The header of the boot information: its length in bytes, header and tags together, and
/// a field that is not used.
#[derive(Clone, Copy, Debug, PartialEq, Eq, Structural)]
pub struct Multiboot2Fixed {
    pub total_size: u32,
    pub reserved: u32,
}

impl Multiboot2Fixed {
    /// The header that the 8 bytes from `addr` on spell.
    pub open spec fn at(mem: Memory, addr: int) -> Multiboot2Fixed {
        Multiboot2Fixed { total_size: mem.u32_at(addr), reserved: mem.u32_at(addr + 4) }
    }
}

/// The boot information at `start` is one that can be walked: the memory holds all the
/// bytes that its header counts, and its tags come to an end tag within them.
pub open spec fn valid_info(mem: Memory, start: int) -> bool {
    &&& mem.holds(start, 8)
    &&& mem.holds(start, Multiboot2Fixed::at(mem, start).total_size as int)
    &&& tag_list_at(mem, start + 8, start + Multiboot2Fixed::at(mem, start).total_size)
}

/// Whether the boot information at `start_address` is one that can be walked.
pub fn is_valid_info(mem: &Memory, start_address: usize) -> (valid: bool)
    ensures
        valid == valid_info(*mem, start_address as int),
{
    proof {
        use_type_invariant(mem);
    }
    if !mem.contains(start_address, 8) {
        return false;
    }
    let total_size: usize = mem.read_u32(start_address) as usize;
    if !mem.contains(start_address, total_size) {
        return false;
    }
    let end: usize = start_address + total_size;
    let mut at: usize = start_address + 8;
    loop
        invariant
            mem.wf(),
            mem.holds(start_address as int, total_size as int),
            end == start_address + total_size,
            start_address + 8 <= at,
            valid_info(*mem, start_address as int) == tag_list_at(*mem, at as int, end as int),
        decreases end - at,
    {
        if at > end || end - at < 8 {
            return false;
        }
        let tag_type: u32 = mem.read_u32(at);
        let size: u32 = mem.read_u32(at + 4);
        if tag_type == 0 && size == 8 {
            return true;
        }
        if size < 8 {
            return false;
        }
        let stride: u64 = align8(size);
        if stride >= (end - at) as u64 {
            return false;
        }
        at = at + stride as usize;
    }
}

/// The view of the boot information at `start_address`. The boot information has to be one
/// that can be walked; `is_valid_info` tells whether it is, and `try_load` asks first.
pub fn load<'a>(mem: Memory<'a>, start_address: usize) -> (info: Multiboot2Info<'a>)
    requires
        valid_info(mem, start_address as int),
    ensures
        info.memory() == mem,
        info.start_address() == start_address,
{
    proof {
        use_type_invariant(&mem);
    }
    Multiboot2Info { start: start_address, mem }
}

/// The view of the boot information at `start_address`, where it is one that can be walked.
pub fn try_load<'a>(mem: Memory<'a>, start_address: usize) -> (info: Option<Multiboot2Info<'a>>)
    ensures
        info is Some <==> valid_info(mem, start_address as int),
        info matches Some(i) ==> i.memory() == mem && i.start_address() == start_address,
{
    if is_valid_info(&mem, start_address) {
        Some(load(mem, start_address))
    } else {
        None
    }
}

/// Walking the tags changes nothing that a later walk reads: every cursor that starts on the
/// first tag of a boot information has the tags of that boot information to hand out, so a
/// second walk hands out what the first one did, in the same order.
pub proof fn lemma_fresh_cursors_agree(
    info: Multiboot2Info,
    first: TagIterator,
    second: TagIterator,
)
    requires
        info.wf(),
        first.memory() == info.memory(),
        first.position() == info.start_address() + 8,
        first.end() == info.end_address(),
        second.memory() == info.memory(),
        second.position() == info.start_address() + 8,
        second.end() == info.end_address(),
    ensures
        first.remaining() == info.tags(),
        second.remaining() == first.remaining(),
{
}

/// The tags of a boot information are a matter of the memory and of the address alone: two
/// views of the same memory at the same address have the same tags.
pub proof fn lemma_views_agree(one: Multiboot2Info, other: Multiboot2Info)
    requires
        one.memory() == other.memory(),
        one.start_address() == other.start_address(),
    ensures
        one.tags() == other.tags(),
        one.total_size() == other.total_size(),
        one.end_address() == other.end_address(),
{
}

/// The root view of the boot information: where it starts, and the memory it lies in.
#[derive(Clone, Copy, Debug)]
pub struct Multiboot2Info<'a> {
    start: usize,
    mem: Memory<'a>,
}

impl<'a> Multiboot2Info<'a> {
    /// The memory that the boot information lies in.
    pub closed spec fn memory(self) -> Memory<'a> {
        self.mem
    }

    /// The address of the first byte of the boot information.
    pub closed spec fn spec_start_address(&self) -> usize {
        self.start
    }

    /// The length of the boot information in bytes, as its header says it.
    pub open spec fn spec_total_size(&self) -> usize {
        Multiboot2Fixed::at(self.memory(), self.start_address() as int).total_size as usize
    }

    /// The address just behind the boot information.
    pub open spec fn spec_end_address(&self) -> usize {
        (self.start_address() + self.total_size()) as usize
    }

    /// The boot information is one that can be walked.
    #[verifier::type_invariant]
    pub open spec fn wf(self) -> bool {
        &&& self.memory().wf()
        &&& valid_info(self.memory(), self.start_address() as int)
    }

    /// The tags of the boot information, in the order of their addresses, without the end
    /// tag.
    pub open spec fn tags(self) -> Seq<TagView> {
        tags_at(self.memory(), self.start_address() + 8, self.start_address() + self.total_size())
    }

    /// The address of the first byte of the boot information.
    #[verifier::when_used_as_spec(spec_start_address)]
    pub fn start_address(&self) -> (address: usize)
        ensures
            address == self.spec_start_address(),
    {
        self.start
    }

    /// The length of the boot information in bytes, as its header says it.
    #[verifier::when_used_as_spec(spec_total_size)]
    pub fn total_size(&self) -> (size: usize)
        ensures
            size == self.spec_total_size(),
    {
        self.get_header().total_size as usize
    }

    /// The address just behind the boot information.
    #[verifier::when_used_as_spec(spec_end_address)]
    pub fn end_address(&self) -> (address: usize)
        ensures
            address == self.spec_end_address(),
            address == self.start_address() + self.total_size(),
    {
        proof {
            use_type_invariant(self);
        }
        self.start_address() + self.total_size()
    }

    /// The basic memory information tag, where the boot information has one: the first tag
    /// of that type, read as such.
    pub fn get_basic_mem(&self) -> (tag: Option<BasicMemoryInfoTag>)
        ensures
            tag == match first_of_type(self.tags(), TagType::BasicMemoryInfo.spec_code()) {
                Some(t) => Some(BasicMemoryInfoTag::at(self.memory(), t.address)),
                None => None,
            },
            tag matches Some(b) ==> b.tag_type == TagType::BasicMemoryInfo.spec_code(),
    {
        match self.get_tag(TagType::BasicMemoryInfo.code()) {
            Some(tag) => {
                proof {
                    use_type_invariant(&tag);
                }
                Some(BasicMemoryInfoTag::read(&tag.mem(), tag.address()))
            },
            None => None,
        }
    }

    /// The memory map tag, where the boot information has one: the first tag of that type,
    /// read as such.
    pub fn get_mem_map(&self) -> (tag: Option<MemoryMapTag<'a>>)
        ensures
            match first_of_type(self.tags(), TagType::MemoryMap.spec_code()) {
                Some(t) => tag matches Some(m) && m@ == t && m.memory() == self.memory() && m.wf(),
                None => tag is None,
            },
            tag matches Some(m) ==> m@.tag_type == TagType::MemoryMap.spec_code()
                && self.tags().contains(m@),
    {
        match self.get_tag(TagType::MemoryMap.code()) {
            Some(tag) => Some(MemoryMapTag::from_tag(&tag)),
            None => None,
        }
    }

    /// Reads the header of the boot information.
    pub fn get_header(&self) -> (header: Multiboot2Fixed)
        ensures
            header == Multiboot2Fixed::at(self.memory(), self.start_address() as int),
    {
        proof {
            use_type_invariant(self);
        }
        Multiboot2Fixed {
            total_size: self.mem.read_u32(self.start),
            reserved: self.mem.read_u32(self.start + 4),
        }
    }

    /// The first tag of the type `search_type`, where the boot information has one.
    pub fn get_tag(&self, search_type: u32) -> (found: Option<Tag<'a>>)
        ensures
            match first_of_type(self.tags(), search_type) {
                Some(t) => found matches Some(f) && f@ == t && f.memory() == self.memory()
                    && f.wf(),
                None => found is None,
            },
            found matches Some(f) ==> f@.tag_type == search_type && self.tags().contains(f@),
            (forall|i: int| 0 <= i < self.tags().len() ==> self.tags()[i].tag_type != search_type)
                ==> found is None,
    {
        let mut cursor = self.get_tags();
        loop
            invariant
                cursor.memory() == self.memory(),
                first_of_type(cursor.remaining(), search_type) == first_of_type(
                    self.tags(),
                    search_type,
                ),
            decreases cursor.remaining().len(),
        {
            match cursor.next() {
                Some(tag) => {
                    if tag.tag_type() == search_type {
                        proof {
                            lemma_first_of_type(self.tags(), search_type);
                        }
                        return Some(tag);
                    }
                },
                None => {
                    return None;
                },
            }
        }
    }

    /// A cursor on the first tag of the boot information.
    pub fn get_tags(&self) -> (cursor: TagIterator<'a>)
        ensures
            cursor.memory() == self.memory(),
            cursor.position() == self.start_address() + 8,
            cursor.end() == self.end_address(),
            cursor.remaining() == self.tags(),
    {
        proof {
            use_type_invariant(self);
        }
        TagIterator::new(self.mem, self.start + 8, self.end_address())
    }
}

} // verus!
