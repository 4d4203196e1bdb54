//! The tags of the boot information and the cursor that walks them.

use crate::memory::Memory;
use vstd::prelude::*;

verus! {

/// The tag types that the root view looks up.
#[derive(Clone, Copy, Debug, PartialEq, Eq, Structural)]
pub enum TagType {
    BasicMemoryInfo,
    MemoryMap,
}

impl TagType {
    /// The number that stands for this tag type in a tag's first field.
    pub open spec fn spec_code(self) -> u32 {
        match self {
            TagType::BasicMemoryInfo => 4,
            TagType::MemoryMap => 6,
        }
    }

    /// The number that stands for this tag type in a tag's first field.
    pub fn code(&self) -> (code: u32)
        ensures
            code == self.spec_code(),
    {
        match self {
            TagType::BasicMemoryInfo => 4,
            TagType::MemoryMap => 6,
        }
    }
}

/// The least multiple of 8 that is not below `size`.
pub open spec fn spec_align8(size: int) -> int {
    (size + 7) / 8 * 8
}

/// The distance from the start of a tag of `size` bytes to the start of the next one:
/// `size` rounded up to the next multiple of 8.
pub fn align8(size: u32) -> (stride: u64)
    ensures
        stride == spec_align8(size as int),
        stride % 8 == 0,
        size <= stride < size + 8,
{
    let padded: u64 = size as u64 + 7;
    assert((padded & !7u64) == padded / 8 * 8) by (bit_vector);
    padded & !7u64
}

/// What a tag is, apart from the memory it lies in: its address and its two header fields.
pub struct TagView {
    pub address: int,
    pub tag_type: u32,
    pub size: u32,
}

/// The tag that the header at `addr` describes.
pub open spec fn tag_at(mem: Memory, addr: int) -> TagView {
    TagView { address: addr, tag_type: mem.u32_at(addr), size: mem.u32_at(addr + 4) }
}

/// The tag at `addr` is the one that ends a tag list: type 0, size 8.
pub open spec fn is_end_tag(mem: Memory, addr: int) -> bool {
    tag_at(mem, addr).tag_type == 0 && tag_at(mem, addr).size == 8
}

/// A tag list starts at `addr` and reaches its end tag before `end`: every header on the way,
/// the end tag's too, lies below `end`, and every tag before the end tag is at least as long
/// as its header.
pub open spec fn tag_list_at(mem: Memory, addr: int, end: int) -> bool
    decreases end - addr,
{
    &&& addr + 8 <= end
    &&& (is_end_tag(mem, addr) || {
        let size = tag_at(mem, addr).size;
        &&& size >= 8
        &&& addr + spec_align8(size as int) < end
        &&& tag_list_at(mem, addr + spec_align8(size as int), end)
    })
}

/// The tags of the list at `addr`, in the order of their addresses, without the end tag.
pub open spec fn tags_at(mem: Memory, addr: int, end: int) -> Seq<TagView>
    decreases end - addr,
{
    if tag_list_at(mem, addr, end) && !is_end_tag(mem, addr) {
        seq![tag_at(mem, addr)] + tags_at(
            mem,
            addr + spec_align8(tag_at(mem, addr).size as int),
            end,
        )
    } else {
        Seq::empty()
    }
}

/// The address at which the list at `addr` has its end tag.
pub open spec fn end_tag_of(mem: Memory, addr: int, end: int) -> int
    decreases end - addr,
{
    if tag_list_at(mem, addr, end) && !is_end_tag(mem, addr) {
        end_tag_of(mem, addr + spec_align8(tag_at(mem, addr).size as int), end)
    } else {
        addr
    }
}

/// The first of `tags` that has the type `tag_type`.
pub open spec fn first_of_type(tags: Seq<TagView>, tag_type: u32) -> Option<TagView>
    decreases tags.len(),
{
    if tags.len() == 0 {
        None
    } else if tags[0].tag_type == tag_type {
        Some(tags[0])
    } else {
        first_of_type(tags.drop_first(), tag_type)
    }
}

/// What `first_of_type` finds has the type asked for and no tag of that type before it; it
/// finds nothing only where no tag has that type.
pub proof fn lemma_first_of_type(tags: Seq<TagView>, tag_type: u32)
    ensures
        match first_of_type(tags, tag_type) {
            Some(t) => exists|i: int|
                {
                    &&& 0 <= i < tags.len()
                    &&& #[trigger] tags[i] == t
                    &&& t.tag_type == tag_type
                    &&& forall|j: int| 0 <= j < i ==> tags[j].tag_type != tag_type
                },
            None => forall|i: int| 0 <= i < tags.len() ==> tags[i].tag_type != tag_type,
        },
    decreases tags.len(),
{
    if tags.len() > 0 && tags[0].tag_type != tag_type {
        let rest = tags.drop_first();
        lemma_first_of_type(rest, tag_type);
        assert(forall|i: int| 0 <= i < rest.len() ==> rest[i] == tags[i + 1]);
        match first_of_type(rest, tag_type) {
            Some(t) => {
                let i = choose|i: int|
                    {
                        &&& 0 <= i < rest.len()
                        &&& #[trigger] rest[i] == t
                        &&& t.tag_type == tag_type
                        &&& forall|j: int| 0 <= j < i ==> rest[j].tag_type != tag_type
                    };
                assert(tags[i + 1] == t);
                assert forall|j: int| 0 <= j < i + 1 implies tags[j].tag_type != tag_type by {
                    if j > 0 {
                        assert(rest[j - 1] == tags[j]);
                    }
                }
            },
            None => {
                assert forall|i: int| 0 <= i < tags.len() implies tags[i].tag_type
                    != tag_type by {
                    if i > 0 {
                        assert(rest[i - 1] == tags[i]);
                    }
                }
            },
        }
    } else if tags.len() > 0 {
        assert(tags[0] == tags[0]);
    }
}

/// The tags of a list are exactly the tags that lie before its end tag, in the order of
/// their addresses: the first lies where the list starts, each of the others where the
/// stride of the one before it ends, none of them is an end tag, and behind the last of
/// them, still below `end`, lies the end tag.
pub proof fn lemma_tags_before_end_tag(mem: Memory, addr: int, end: int)
    requires
        tag_list_at(mem, addr, end),
    ensures
        ({
            let tags = tags_at(mem, addr, end);
            &&& forall|i: int|
                0 <= i < tags.len() ==> {
                    &&& #[trigger] tags[i] == tag_at(mem, tags[i].address)
                    &&& !is_end_tag(mem, tags[i].address)
                    &&& tags[i].size >= 8
                    &&& addr <= tags[i].address
                    &&& tags[i].address + spec_align8(tags[i].size as int) + 8 <= end
                }
            &&& tags.len() > 0 ==> tags[0].address == addr
            &&& forall|i: int|
                0 < i < tags.len() ==> (#[trigger] tags[i]).address == tags[i - 1].address
                    + spec_align8(tags[i - 1].size as int)
            &&& end_tag_of(mem, addr, end) == if tags.len() == 0 {
                addr
            } else {
                tags.last().address + spec_align8(tags.last().size as int)
            }
            &&& is_end_tag(mem, end_tag_of(mem, addr, end))
            &&& end_tag_of(mem, addr, end) + 8 <= end
        }),
    decreases end - addr,
{
    if !is_end_tag(mem, addr) {
        let next = addr + spec_align8(tag_at(mem, addr).size as int);
        lemma_tags_before_end_tag(mem, next, end);
        let tags = tags_at(mem, addr, end);
        let rest = tags_at(mem, next, end);
        assert(tags == seq![tag_at(mem, addr)] + rest);
        assert forall|i: int| 0 <= i < tags.len() implies {
            &&& #[trigger] tags[i] == tag_at(mem, tags[i].address)
            &&& !is_end_tag(mem, tags[i].address)
            &&& tags[i].size >= 8
            &&& addr <= tags[i].address
            &&& tags[i].address + spec_align8(tags[i].size as int) + 8 <= end
        } by {
            if i > 0 {
                assert(tags[i] == rest[i - 1]);
            }
        }
        assert forall|i: int| 0 < i < tags.len() implies (#[trigger] tags[i]).address == tags[i
            - 1].address + spec_align8(tags[i - 1].size as int) by {
            assert(tags[i] == rest[i - 1]);
            if i > 1 {
                assert(tags[i - 1] == rest[i - 2]);
            }
        }
        if rest.len() > 0 {
            assert(tags.last() == rest.last());
        }
    }
}

/// One tag of the boot information: a header of type and size, and the memory it lies in.
#[derive(Clone, Copy, Debug)]
pub struct Tag<'a> {
    tag_type: u32,
    size: u32,
    address: usize,
    mem: Memory<'a>,
}

impl<'a> View for Tag<'a> {
    type V = TagView;

    closed spec fn view(&self) -> TagView {
        TagView { address: self.address as int, tag_type: self.tag_type, size: self.size }
    }
}

impl<'a> Tag<'a> {
    /// The memory that the tag lies in.
    pub closed spec fn memory(self) -> Memory<'a> {
        self.mem
    }

    /// The tag is the one that its memory holds at its address, it is at least as long as its
    /// header, and the memory reaches to the end of the header that follows it.
    #[verifier::type_invariant]
    pub open spec fn wf(self) -> bool {
        &&& self.memory().wf()
        &&& self@ == tag_at(self.memory(), self@.address)
        &&& self@.size >= 8
        &&& self.memory().holds(self@.address, spec_align8(self@.size as int) + 8)
    }

    /// The memory that the tag lies in.
    pub fn mem(&self) -> (mem: Memory<'a>)
        ensures
            mem == self.memory(),
    {
        self.mem
    }

    /// The tag's type.
    pub fn tag_type(&self) -> (tag_type: u32)
        ensures
            tag_type == self@.tag_type,
    {
        self.tag_type
    }

    /// The tag's length in bytes, header included.
    pub fn size(&self) -> (size: u32)
        ensures
            size == self@.size,
    {
        self.size
    }

    /// The address of the tag's first byte.
    pub fn address(&self) -> (address: usize)
        ensures
            address == self@.address,
    {
        self.address
    }
}

/// A cursor over a tag list: it hands out the tags one by one and stops at the end tag.
#[derive(Clone, Copy, Debug)]
pub struct TagIterator<'a> {
    current_tag: usize,
    end: usize,
    mem: Memory<'a>,
}

impl<'a> TagIterator<'a> {
    /// The memory that the cursor reads.
    pub closed spec fn memory(self) -> Memory<'a> {
        self.mem
    }

    /// The address of the tag that the cursor stands on.
    pub closed spec fn position(self) -> int {
        self.current_tag as int
    }

    /// The address below which the whole tag list lies.
    pub closed spec fn end(self) -> int {
        self.end as int
    }

    /// The cursor stands on a tag of a list that ends below `end`, inside the memory.
    #[verifier::type_invariant]
    pub open spec fn wf(self) -> bool {
        &&& self.memory().wf()
        &&& self.memory().base() <= self.position()
        &&& self.end() <= self.memory().end()
        &&& tag_list_at(self.memory(), self.position(), self.end())
    }

    /// The tags that the cursor has yet to hand out, in order.
    pub open spec fn remaining(self) -> Seq<TagView> {
        tags_at(self.memory(), self.position(), self.end())
    }

    /// A cursor on the tag at `addr`.
    pub(crate) fn new(mem: Memory<'a>, addr: usize, end: usize) -> (cursor: Self)
        requires
            mem.base() <= addr,
            end <= mem.end(),
            tag_list_at(mem, addr as int, end as int),
        ensures
            cursor.memory() == mem,
            cursor.position() == addr,
            cursor.end() == end,
    {
        proof {
            use_type_invariant(&mem);
        }
        TagIterator { current_tag: addr, end, mem }
    }

    /// The address of the tag that the cursor stands on.
    pub fn current_tag(&self) -> (address: usize)
        ensures
            address == self.position(),
    {
        self.current_tag
    }

    /// Hands out the tag that the cursor stands on and moves to the next one; on the end tag
    /// it hands out nothing and stays.
    pub fn next(&mut self) -> (tag: Option<Tag<'a>>)
        ensures
            final(self).memory() == old(self).memory(),
            final(self).end() == old(self).end(),
            old(self).remaining().len() == 0 ==> {
                &&& tag is None
                &&& final(self).position() == old(self).position()
                &&& is_end_tag(old(self).memory(), old(self).position())
            },
            old(self).remaining().len() > 0 ==> {
                &&& tag matches Some(t)
                &&& t@ == old(self).remaining()[0]
                &&& t.memory() == old(self).memory()
                &&& t.wf()
                &&& !is_end_tag(t.memory(), t@.address)
                &&& final(self).position() == t@.address + spec_align8(t@.size as int)
                &&& final(self).remaining() == old(self).remaining().drop_first()
            },
    {
        proof {
            use_type_invariant(&*self);
        }
        let tag_type: u32 = self.mem.read_u32(self.current_tag);
        let size: u32 = self.mem.read_u32(self.current_tag + 4);
        if tag_type == 0 && size == 8 {
            return None;
        }
        let stride: u64 = align8(size);
        proof {
            let next = self.current_tag + spec_align8(size as int);
            assert(tag_list_at(self.mem, next, self.end as int));
            assert(next + 8 <= self.end);
        }
        let tag = Tag { tag_type, size, address: self.current_tag, mem: self.mem };
        self.current_tag = self.current_tag + stride as usize;
        proof {
            assert(old(self).remaining().drop_first() =~= self.remaining());
        }
        Some(tag)
    }
}

} // verus!
