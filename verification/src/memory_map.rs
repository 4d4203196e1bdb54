//! The memory map tag: its table of memory areas and the cursor that walks the table.

use crate::memory::Memory;
use crate::tag::{spec_align8, tag_at, Tag, TagView};
use vstd::prelude::*;

verus! {

/// The length in bytes of the fields of a memory area.
pub const AREA_FIELDS_SIZE: u32 = 24;

/// What a memory area may be used for.
#[derive(Clone, Copy, Debug, PartialEq, Eq, Structural)]
pub enum MemoryMapType {
    Available,
    AvailableWithACPI,
    Reserved,
}

/// The use that the number `code` stands for: 1 is free memory, 3 is memory that holds ACPI
/// tables and is free once they are read, and every other number is memory to keep off.
pub open spec fn memory_map_type_of(code: u32) -> MemoryMapType {
    if code == 1 {
        MemoryMapType::Available
    } else if code == 3 {
        MemoryMapType::AvailableWithACPI
    } else {
        MemoryMapType::Reserved
    }
}

/// One area of the memory map, as its 24 bytes spell it.
#[derive(Clone, Copy, Debug, PartialEq, Eq, Structural)]
pub struct MemoryMap {
    pub base_address: u64,
    pub length: u64,
    pub entry_type: u32,
    pub reserved: u32,
}

impl MemoryMap {
    /// The area that the 24 bytes from `addr` on spell.
    pub open spec fn at(mem: Memory, addr: int) -> MemoryMap {
        MemoryMap {
            base_address: mem.u64_at(addr),
            length: mem.u64_at(addr + 8),
            entry_type: mem.u32_at(addr + 16),
            reserved: mem.u32_at(addr + 20),
        }
    }

    /// The area is free memory.
    pub open spec fn available(self) -> bool {
        self.entry_type == 1
    }

    /// Reads the area that the 24 bytes from `addr` on spell.
    pub fn read(mem: &Memory, addr: usize) -> (area: MemoryMap)
        requires
            mem.holds(addr as int, 24),
        ensures
            area == MemoryMap::at(*mem, addr as int),
    {
        proof {
            use_type_invariant(mem);
        }
        MemoryMap {
            base_address: mem.read_u64(addr),
            length: mem.read_u64(addr + 8),
            entry_type: mem.read_u32(addr + 16),
            reserved: mem.read_u32(addr + 20),
        }
    }

    /// The address of the area's first byte, as far as an address of this machine holds it.
    pub fn base_address(&self) -> (address: usize)
        ensures
            address == self.base_address as usize,
    {
        self.base_address as usize
    }

    /// The area's length in bytes, as far as a length of this machine holds it.
    pub fn length(&self) -> (length: usize)
        ensures
            length == self.length as usize,
    {
        self.length as usize
    }

    /// The address just behind the area, as far as an address of this machine holds it. The
    /// sum of the area's address and length has to be a number of 64 bits.
    pub fn end_address(&self) -> (address: usize)
        requires
            self.base_address + self.length <= u64::MAX,
        ensures
            address == (self.base_address + self.length) as usize,
    {
        (self.base_address + self.length) as usize
    }

    /// What the area may be used for.
    pub fn entry_type(&self) -> (entry_type: MemoryMapType)
        ensures
            entry_type == memory_map_type_of(self.entry_type),
    {
        match self.entry_type {
            1 => MemoryMapType::Available,
            3 => MemoryMapType::AvailableWithACPI,
            _ => MemoryMapType::Reserved,
        }
    }

    /// Whether the area is free memory.
    pub fn is_availabe(&self) -> (available: bool)
        ensures
            available == self.available(),
    {
        self.entry_type() == MemoryMapType::Available
    }
}

/// The areas of `entry_size` bytes each that start at `addr` and at every further multiple
/// of `entry_size` behind it, as long as the start is not behind `last`.
pub open spec fn areas_at(mem: Memory, addr: int, entry_size: u32, last: int) -> Seq<MemoryMap>
    decreases last - addr + entry_size,
{
    if entry_size > 0 && addr <= last {
        seq![MemoryMap::at(mem, addr)] + areas_at(mem, addr + entry_size, entry_size, last)
    } else {
        Seq::empty()
    }
}

/// The address of the first free area at or behind `addr`; where no area up to `last` is
/// free, the first address behind `last` at which an area would start.
pub open spec fn next_free_at(mem: Memory, addr: int, entry_size: u32, last: int) -> int
    decreases last - addr + entry_size,
{
    if entry_size > 0 && addr <= last && !MemoryMap::at(mem, addr).available() {
        next_free_at(mem, addr + entry_size, entry_size, last)
    } else {
        addr
    }
}

/// The test that an area is free memory.
pub open spec fn is_free() -> spec_fn(MemoryMap) -> bool {
    |area: MemoryMap| area.available()
}

/// A tag read as the memory map tag.
#[derive(Clone, Copy, Debug)]
pub struct MemoryMapTag<'a> {
    tag: Tag<'a>,
}

impl<'a> View for MemoryMapTag<'a> {
    type V = TagView;

    closed spec fn view(&self) -> TagView {
        self.tag@
    }
}

impl<'a> MemoryMapTag<'a> {
    /// The memory that the tag lies in.
    pub closed spec fn memory(self) -> Memory<'a> {
        self.tag.memory()
    }

    /// The tag is one that its memory holds, as every tag is.
    #[verifier::type_invariant]
    pub open spec fn wf(self) -> bool {
        &&& self.memory().wf()
        &&& self@ == tag_at(self.memory(), self@.address)
        &&& self@.size >= 8
        &&& self.memory().holds(self@.address, spec_align8(self@.size as int) + 8)
    }

    /// The length of each area of the table, as the tag says it.
    pub open spec fn spec_entry_size(&self) -> u32 {
        self.memory().u32_at(self@.address + 8)
    }

    /// The version of the table's layout, as the tag says it.
    pub open spec fn spec_entry_version(&self) -> u32 {
        self.memory().u32_at(self@.address + 12)
    }

    /// The address of the first area of the table.
    pub open spec fn first_area(self) -> int {
        self@.address + 16
    }

    /// The address of the last area that still lies in the tag.
    pub open spec fn last_area(self) -> int {
        self@.address + self@.size - self.spec_entry_size()
    }

    /// All the areas of the table, in the order in which they lie in the tag.
    pub open spec fn entries(self) -> Seq<MemoryMap> {
        areas_at(self.memory(), self.first_area(), self.spec_entry_size(), self.last_area())
    }

    /// The areas of the table that are free memory, in the order in which they lie in the tag.
    pub open spec fn areas(self) -> Seq<MemoryMap> {
        self.entries().filter(is_free())
    }

    /// Reads `tag` as the memory map tag.
    pub fn from_tag(tag: &Tag<'a>) -> (map_tag: MemoryMapTag<'a>)
        ensures
            map_tag@ == tag@,
            map_tag.memory() == tag.memory(),
    {
        proof {
            use_type_invariant(tag);
        }
        MemoryMapTag { tag: *tag }
    }

    /// The length of each area of the table, as the tag says it.
    #[verifier::when_used_as_spec(spec_entry_size)]
    pub fn entry_size(&self) -> (entry_size: u32)
        ensures
            entry_size == self.spec_entry_size(),
    {
        proof {
            use_type_invariant(self);
        }
        self.tag.mem().read_u32(self.tag.address() + 8)
    }

    /// The version of the table's layout, as the tag says it.
    #[verifier::when_used_as_spec(spec_entry_version)]
    pub fn entry_version(&self) -> (entry_version: u32)
        ensures
            entry_version == self.spec_entry_version(),
    {
        proof {
            use_type_invariant(self);
        }
        self.tag.mem().read_u32(self.tag.address() + 12)
    }

    /// A cursor over the areas of the table that are free memory. The areas have to be long
    /// enough for their fields; `entry_size` gives their length.
    pub fn memory_areas(&self) -> (cursor: MemoryMapIterator<'a>)
        requires
            self.entry_size() >= AREA_FIELDS_SIZE,
        ensures
            cursor.memory() == self.memory(),
            cursor.position() == self.first_area(),
            cursor.last_area() == self.last_area(),
            cursor.entry_size() == self.entry_size(),
            cursor.remaining() == self.areas(),
    {
        proof {
            use_type_invariant(self);
        }
        let start: usize = self.tag.address();
        MemoryMapIterator {
            current_area: start + 16,
            end: start + self.tag.size() as usize,
            entry_size: self.entry_size(),
            mem: self.tag.mem(),
        }
    }
}

/// A cursor over a table of memory areas: it hands out the areas that are free memory, one
/// by one.
#[derive(Clone, Copy, Debug)]
pub struct MemoryMapIterator<'a> {
    current_area: usize,
    end: usize,
    entry_size: u32,
    mem: Memory<'a>,
}

impl<'a> MemoryMapIterator<'a> {
    /// The memory that the cursor reads.
    pub closed spec fn memory(self) -> Memory<'a> {
        self.mem
    }

    /// The address of the area that the cursor stands on.
    pub closed spec fn position(self) -> int {
        self.current_area as int
    }

    /// The address of the last area that the cursor may hand out.
    pub closed spec fn last_area(self) -> int {
        self.end - self.entry_size
    }

    /// The length of each area.
    pub closed spec fn entry_size(self) -> u32 {
        self.entry_size
    }

    /// An area is long enough for its fields, and the memory holds every area from the
    /// cursor's to the last.
    #[verifier::type_invariant]
    pub open spec fn wf(self) -> bool {
        &&& self.memory().wf()
        &&& self.entry_size() >= AREA_FIELDS_SIZE
        &&& self.memory().base() <= self.position()
        &&& self.last_area() + self.entry_size() <= self.memory().end()
    }

    /// The address of the area that the cursor hands out next; behind the last area where
    /// it has none to hand out.
    pub open spec fn next_free(self) -> int {
        next_free_at(self.memory(), self.position(), self.entry_size(), self.last_area())
    }

    /// The areas that the cursor has yet to hand out, in order.
    pub open spec fn remaining(self) -> Seq<MemoryMap> {
        areas_at(self.memory(), self.position(), self.entry_size(), self.last_area()).filter(
            is_free(),
        )
    }

    /// Hands out the next area that is free memory and moves behind it; where none is left
    /// it hands out nothing.
    pub fn next(&mut self) -> (area: Option<MemoryMap>)
        ensures
            final(self).memory() == old(self).memory(),
            final(self).entry_size() == old(self).entry_size(),
            final(self).last_area() == old(self).last_area(),
            old(self).remaining().len() == 0 ==> {
                &&& area is None
                &&& final(self).position() == old(self).next_free()
                &&& final(self).position() > final(self).last_area()
                &&& final(self).remaining().len() == 0
            },
            old(self).remaining().len() > 0 ==> {
                &&& area == Some(old(self).remaining()[0])
                &&& area == Some(MemoryMap::at(old(self).memory(), old(self).next_free()))
                &&& old(self).next_free() <= old(self).last_area()
                &&& final(self).position() == old(self).next_free() + old(self).entry_size()
                &&& final(self).remaining() == old(self).remaining().drop_first()
            },
            area matches Some(a) ==> a.available(),
    {
        proof {
            use_type_invariant(&*self);
        }
        while self.current_area <= self.end && self.end - self.current_area
            >= self.entry_size as usize
            invariant
                self.wf(),
                self.memory() == old(self).memory(),
                self.entry_size() == old(self).entry_size(),
                self.last_area() == old(self).last_area(),
                self.next_free() == old(self).next_free(),
                self.remaining() == old(self).remaining(),
            decreases self.end - self.current_area,
        {
            let ghost before = *self;
            let area = MemoryMap::read(&self.mem, self.current_area);
            self.current_area = self.current_area + self.entry_size as usize;
            proof {
                lemma_free_split(
                    before.mem,
                    before.position(),
                    before.entry_size,
                    before.last_area(),
                );
            }
            if area.is_availabe() {
                return Some(area);
            }
        }
        None
    }
}

/// The free areas of a table that is not empty are the first area, if it is free, and then
/// those of the rest of the table; a table whose first area would start behind the last one
/// has none.
pub proof fn lemma_free_split(mem: Memory, addr: int, entry_size: u32, last: int)
    requires
        entry_size > 0,
    ensures
        ({
            let first = MemoryMap::at(mem, addr);
            let rest = areas_at(mem, addr + entry_size, entry_size, last).filter(is_free());
            areas_at(mem, addr, entry_size, last).filter(is_free()) == if addr > last {
                Seq::empty()
            } else if first.available() {
                seq![first] + rest
            } else {
                rest
            }
        }),
{
    let table = areas_at(mem, addr, entry_size, last);
    table.lemma_filter_eq_filter_alt(is_free());
    if addr <= last {
        let first = MemoryMap::at(mem, addr);
        let tail = areas_at(mem, addr + entry_size, entry_size, last);
        assert(table == seq![first] + tail);
        assert(table.drop_first() =~= tail);
    }
}

/// The table holds, one behind the other, the areas at `addr`, at `addr + entry_size` and
/// so on up to `last`: area `i` is the one that the bytes at `addr + i * entry_size` spell,
/// and the area behind the last of them would start behind `last`.
pub proof fn lemma_areas_in_order(mem: Memory, addr: int, entry_size: u32, last: int)
    requires
        entry_size > 0,
    ensures
        ({
            let table = areas_at(mem, addr, entry_size, last);
            &&& forall|i: int|
                0 <= i < table.len() ==> {
                    &&& #[trigger] table[i] == MemoryMap::at(mem, addr + i * entry_size)
                    &&& addr + i * entry_size <= last
                }
            &&& addr + table.len() * entry_size > last
        }),
    decreases last - addr + entry_size,
{
    let table = areas_at(mem, addr, entry_size, last);
    if addr <= last {
        let tail = areas_at(mem, addr + entry_size, entry_size, last);
        lemma_areas_in_order(mem, addr + entry_size, entry_size, last);
        assert(table == seq![MemoryMap::at(mem, addr)] + tail);
        assert forall|i: int| 0 <= i < table.len() implies {
            &&& #[trigger] table[i] == MemoryMap::at(mem, addr + i * entry_size)
            &&& addr + i * entry_size <= last
        } by {
            if i > 0 {
                assert(table[i] == tail[i - 1]);
                assert((i - 1) * entry_size + entry_size == i * entry_size) by (nonlinear_arith);
            }
        }
        assert(tail.len() * entry_size + entry_size == table.len() * entry_size)
            by (nonlinear_arith)
            requires
                table.len() == tail.len() + 1,
        ;
    }
}

/// The cursor never hands out an area that is not free memory, and it leaves out no area
/// that is: the areas it hands out are all free, every free area of the table is among
/// them, and they are no more than the table has.
pub proof fn lemma_areas_are_free(mem: Memory, addr: int, entry_size: u32, last: int)
    ensures
        ({
            let table = areas_at(mem, addr, entry_size, last);
            let free = table.filter(is_free());
            &&& free.len() <= table.len()
            &&& forall|i: int| 0 <= i < free.len() ==> (#[trigger] free[i]).available()
            &&& forall|i: int|
                0 <= i < table.len() && table[i].available() ==> free.contains(
                    #[trigger] table[i],
                )
        }),
{
    let table = areas_at(mem, addr, entry_size, last);
    let free = table.filter(is_free());
    table.lemma_filter_len(is_free());
    assert forall|i: int| 0 <= i < free.len() implies (#[trigger] free[i]).available() by {
        table.lemma_filter_pred(is_free(), i);
    }
    assert forall|i: int| 0 <= i < table.len() && table[i].available() implies free.contains(
        #[trigger] table[i],
    ) by {
        table.lemma_filter_contains(is_free(), i);
    }
}

} // verus!
