//! A read-only window onto physical memory, addressed by absolute address. Numbers are read
//! little-endian, as the machines that multiboot2 loaders start store them.

use vstd::prelude::*;

verus! {

/// The bytes of physical memory from `base` on: `bytes[i]` is the byte at address `base + i`.
#[derive(Clone, Copy, Debug)]
pub struct Memory<'a> {
    base: usize,
    bytes: &'a [u8],
}

impl<'a> Memory<'a> {
    /// The address of the first byte of the window.
    pub closed spec fn base(self) -> int {
        self.base as int
    }

    /// The bytes of the window, in address order.
    pub closed spec fn bytes(self) -> Seq<u8> {
        self.bytes@
    }

    /// The address just behind the last byte of the window.
    pub open spec fn end(self) -> int {
        self.base() + self.bytes().len()
    }

    /// Every byte of the window has an address that the machine can form.
    #[verifier::type_invariant]
    pub open spec fn wf(self) -> bool {
        0 <= self.base() && self.end() <= usize::MAX
    }

    /// All of the `len` bytes from `addr` on lie in the window.
    pub open spec fn holds(self, addr: int, len: int) -> bool {
        self.base() <= addr && 0 <= len && addr + len <= self.end()
    }

    /// The byte at address `addr`.
    pub open spec fn byte_at(self, addr: int) -> u8 {
        self.bytes()[addr - self.base()]
    }

    /// The little-endian number in the four bytes from `addr` on.
    pub open spec fn u32_at(self, addr: int) -> u32 {
        (self.byte_at(addr) as int + 0x100 * (self.byte_at(addr + 1) as int) + 0x1_0000 * (
        self.byte_at(addr + 2) as int) + 0x100_0000 * (self.byte_at(addr + 3) as int)) as u32
    }

    /// The little-endian number in the eight bytes from `addr` on.
    pub open spec fn u64_at(self, addr: int) -> u64 {
        (self.u32_at(addr) as int + 0x1_0000_0000 * (self.u32_at(addr + 4) as int)) as u64
    }

    /// The bytes from `addr` up to the first zero byte, without that byte; `None` where the
    /// window ends before a zero byte comes, or does not hold `addr`.
    pub open spec fn c_string_at(self, addr: int) -> Option<Seq<u8>>
        decreases self.end() - addr,
    {
        if !self.holds(addr, 1) {
            None
        } else if self.byte_at(addr) == 0 {
            Some(Seq::empty())
        } else {
            match self.c_string_at(addr + 1) {
                Some(rest) => Some(seq![self.byte_at(addr)] + rest),
                None => None,
            }
        }
    }

    /// A window whose first byte has the address `base`. The window has to end at or before
    /// the last address of the machine.
    pub fn new(base: usize, bytes: &'a [u8]) -> (mem: Self)
        requires
            base + bytes@.len() <= usize::MAX,
        ensures
            mem.wf(),
            mem.base() == base,
            mem.bytes() == bytes@,
    {
        Memory { base, bytes }
    }

    /// Whether all of the `len` bytes from `addr` on lie in the window.
    pub fn contains(&self, addr: usize, len: usize) -> (inside: bool)
        ensures
            inside == self.holds(addr as int, len as int),
    {
        proof {
            use_type_invariant(self);
        }
        addr >= self.base && len <= self.bytes.len() && addr - self.base <= self.bytes.len() - len
    }

    /// Reads the byte at `addr`, which the window has to hold.
    pub fn read_u8(&self, addr: usize) -> (value: u8)
        requires
            self.holds(addr as int, 1),
        ensures
            value == self.byte_at(addr as int),
    {
        self.bytes[addr - self.base]
    }

    /// Reads the little-endian number in the four bytes from `addr` on, which the window has
    /// to hold.
    pub fn read_u32(&self, addr: usize) -> (value: u32)
        requires
            self.holds(addr as int, 4),
        ensures
            value == self.u32_at(addr as int),
    {
        let at: usize = addr - self.base;
        let b0: u32 = self.bytes[at] as u32;
        let b1: u32 = self.bytes[at + 1] as u32;
        let b2: u32 = self.bytes[at + 2] as u32;
        let b3: u32 = self.bytes[at + 3] as u32;
        b0 + 0x100 * b1 + 0x1_0000 * b2 + 0x100_0000 * b3
    }

    /// Reads the little-endian number in the eight bytes from `addr` on, which the window has
    /// to hold.
    pub fn read_u64(&self, addr: usize) -> (value: u64)
        requires
            self.holds(addr as int, 8),
        ensures
            value == self.u64_at(addr as int),
    {
        proof {
            use_type_invariant(self);
        }
        let low: u64 = self.read_u32(addr) as u64;
        let high: u64 = self.read_u32(addr + 4) as u64;
        low + 0x1_0000_0000 * high
    }

    /// Reads the bytes from `addr` up to the first zero byte, without that byte.
    pub fn read_c_string(&self, addr: usize) -> (run: Option<&'a [u8]>)
        ensures
            run is Some <==> self.c_string_at(addr as int) is Some,
            run matches Some(r) ==> self.c_string_at(addr as int) == Some(r@),
    {
        if !self.contains(addr, 1) {
            return None;
        }
        let first: usize = addr - self.base;
        let mut at: usize = first;
        while at < self.bytes.len() && self.bytes[at] != 0
            invariant
                first <= at <= self.bytes@.len(),
                forall|i: int| first <= i < at ==> self.bytes@[i] != 0,
            decreases self.bytes@.len() - at,
        {
            at = at + 1;
        }
        proof {
            self.lemma_c_string_scan(addr as int, at - first);
        }
        if at == self.bytes.len() {
            None
        } else {
            Some(vstd::slice::slice_subrange(self.bytes, first, at))
        }
    }

    /// The string at `addr` is the run of bytes before the first zero byte at or behind
    /// `addr`: the window holds the run and the zero byte, the run holds no zero byte, and
    /// its bytes are those of the window, in order.
    pub proof fn lemma_c_string_is_run_before_zero(self, addr: int)
        requires
            self.c_string_at(addr) is Some,
        ensures
            ({
                let run = self.c_string_at(addr)->0;
                &&& self.holds(addr, run.len() as int + 1)
                &&& self.byte_at(addr + run.len()) == 0
                &&& forall|i: int|
                    0 <= i < run.len() ==> #[trigger] run[i] == self.byte_at(addr + i) && run[i]
                        != 0
            }),
        decreases self.end() - addr,
    {
        if self.byte_at(addr) != 0 {
            self.lemma_c_string_is_run_before_zero(addr + 1);
            let run = self.c_string_at(addr)->0;
            let rest = self.c_string_at(addr + 1)->0;
            assert forall|i: int| 0 <= i < run.len() implies #[trigger] run[i] == self.byte_at(
                addr + i,
            ) && run[i] != 0 by {
                if i > 0 {
                    assert(run[i] == rest[i - 1]);
                }
            }
        }
    }

    /// A run of `len` bytes at `addr` without a zero byte is the start of the string at
    /// `addr`: the string is that run where a zero byte follows it, and there is none where
    /// the window ends with it.
    proof fn lemma_c_string_scan(self, addr: int, len: int)
        requires
            self.holds(addr, len),
            forall|i: int| addr <= i < addr + len ==> self.byte_at(i) != 0,
        ensures
            addr + len == self.end() ==> self.c_string_at(addr) is None,
            addr + len < self.end() && self.byte_at(addr + len) == 0 ==> self.c_string_at(addr)
                == Some(self.bytes().subrange(addr - self.base(), addr + len - self.base())),
        decreases len,
    {
        if len > 0 {
            self.lemma_c_string_scan(addr + 1, len - 1);
            if addr + len < self.end() && self.byte_at(addr + len) == 0 {
                assert(seq![self.byte_at(addr)] + self.bytes().subrange(
                    addr + 1 - self.base(),
                    addr + len - self.base(),
                ) =~= self.bytes().subrange(addr - self.base(), addr + len - self.base()));
            }
        } else {
            if addr + len < self.end() && self.byte_at(addr + len) == 0 {
                assert(self.bytes().subrange(addr - self.base(), addr + len - self.base())
                    =~= Seq::<u8>::empty());
            }
        }
    }
}

} // verus!
