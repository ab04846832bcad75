//! Memory management for guest programs.
use vstd::prelude::*;
use vstd::slice::slice_subrange;
use memmap2::MmapMut;
use crate::config::PAGE_SIZE;
use crate::elf::{ElfHeader, ProgramHeader, EHDR_SIZE, PF_R, PF_W, PF_X, PHDR_SIZE, PT_LOAD};
use crate::error::{Breach, Error};
use crate::hostmem::{mmap_anon, mmap_bytes, mmap_fill, mmap_get, mmap_len, mmap_set};
use crate::utils::{
    le_bytes, le_u16, le_u32, le_u64, lemma_le_u16_round_trip, lemma_le_u32_round_trip,
    lemma_le_u64_round_trip, lemma_round_down, lemma_round_up, round_down, round_down_spec,
    round_up, round_up_spec, u16_from_le, u16_to_le, u32_from_le, u32_to_le, u64_from_le, u64_to_le,
};

verus! {

#[derive(Debug, Clone, Copy, PartialEq, Eq, Structural)]
pub enum MemAccess {
    Read,
    Write,
    Execute,
}

/// The kinds of access that a segment grants.
#[derive(Debug, Clone, Copy, PartialEq, Eq, Structural)]
pub struct MemFlags {
    pub read: bool,
    pub write: bool,
    pub execute: bool,
}

impl MemFlags {
    /// Whether the flags grant `access`.
    pub open spec fn allows(self, access: MemAccess) -> bool {
        match access {
            MemAccess::Read => self.read,
            MemAccess::Write => self.write,
            MemAccess::Execute => self.execute,
        }
    }

    /// The flags that grant what either `self` or `other` grants.
    pub open spec fn union_spec(self, other: MemFlags) -> MemFlags {
        MemFlags {
            read: self.read || other.read,
            write: self.write || other.write,
            execute: self.execute || other.execute,
        }
    }

    /// Whether every access that `other` grants is granted by `self`.
    pub open spec fn contains_spec(self, other: MemFlags) -> bool {
        (other.read ==> self.read) && (other.write ==> self.write) && (other.execute
            ==> self.execute)
    }

    /// The flags as a mask: bit 0 for read, bit 1 for write, bit 2 for
    /// execute.
    pub open spec fn bits_spec(self) -> int {
        (if self.read {
            1int
        } else {
            0
        }) + (if self.write {
            2int
        } else {
            0
        }) + (if self.execute {
            4int
        } else {
            0
        })
    }

    pub fn none() -> (r: MemFlags)
        ensures
            r == (MemFlags { read: false, write: false, execute: false }),
    {
        MemFlags { read: false, write: false, execute: false }
    }

    pub fn read() -> (r: MemFlags)
        ensures
            r == (MemFlags { read: true, write: false, execute: false }),
    {
        MemFlags { read: true, write: false, execute: false }
    }

    pub fn write() -> (r: MemFlags)
        ensures
            r == (MemFlags { read: false, write: true, execute: false }),
    {
        MemFlags { read: false, write: true, execute: false }
    }

    pub fn execute() -> (r: MemFlags)
        ensures
            r == (MemFlags { read: false, write: false, execute: true }),
    {
        MemFlags { read: false, write: false, execute: true }
    }

    /// The flags that the permission bits of a program header stand for.
    pub fn from_p_flags(p_flags: u32) -> (r: MemFlags)
        ensures
            r == (MemFlags {
                read: p_flags & PF_R != 0,
                write: p_flags & PF_W != 0,
                execute: p_flags & PF_X != 0,
            }),
    {
        let mut flags = MemFlags::none();
        if p_flags & PF_R != 0 {
            flags.insert(MemFlags::read());
        }
        if p_flags & PF_W != 0 {
            flags.insert(MemFlags::write());
        }
        if p_flags & PF_X != 0 {
            flags.insert(MemFlags::execute());
        }
        flags
    }

    pub fn union(self, other: MemFlags) -> (r: MemFlags)
        ensures
            r == self.union_spec(other),
    {
        MemFlags {
            read: self.read || other.read,
            write: self.write || other.write,
            execute: self.execute || other.execute,
        }
    }

    pub fn insert(&mut self, other: MemFlags)
        ensures
            *final(self) == old(self).union_spec(other),
    {
        *self = self.union(other);
    }

    pub fn contains(&self, other: MemFlags) -> (r: bool)
        ensures
            r == self.contains_spec(other),
    {
        (!other.read || self.read) && (!other.write || self.write) && (!other.execute
            || self.execute)
    }

    pub fn is_empty(&self) -> (r: bool)
        ensures
            r == (*self == MemFlags { read: false, write: false, execute: false }),
    {
        !self.read && !self.write && !self.execute
    }

    pub fn bits(&self) -> (r: u8)
        ensures
            r == self.bits_spec(),
    {
        let r: u8 = if self.read { 1 } else { 0 };
        let w: u8 = if self.write { 2 } else { 0 };
        let x: u8 = if self.execute { 4 } else { 0 };
        r + w + x
    }

    /// Whether the flags grant `access`.
    pub fn permits(&self, access: MemAccess) -> (r: bool)
        ensures
            r == self.allows(access),
    {
        match access {
            MemAccess::Read => self.read,
            MemAccess::Write => self.write,
            MemAccess::Execute => self.execute,
        }
    }
}

impl std::ops::BitOr for MemFlags {
    type Output = MemFlags;

    fn bitor(self, rhs: MemFlags) -> (r: MemFlags) {
        self.union(rhs)
    }
}

impl vstd::std_specs::ops::BitOrSpecImpl for MemFlags {
    open spec fn obeys_bitor_spec() -> bool {
        true
    }

    open spec fn bitor_req(self, rhs: MemFlags) -> bool {
        true
    }

    open spec fn bitor_spec(self, rhs: MemFlags) -> MemFlags {
        self.union_spec(rhs)
    }
}

/// A segment as plain values: its two address ranges, its flags and the
/// bytes of its page-aligned range.
pub struct SegmentView {
    pub gaddr_start: u64,
    pub gaddr_end: u64,
    pub m_gaddr_start: u64,
    pub m_gaddr_end: u64,
    pub flags: MemFlags,
    pub data: Seq<u8>,
}

impl SegmentView {
    pub open spec fn wf(self) -> bool {
        &&& self.gaddr_start < self.gaddr_end
        &&& self.m_gaddr_start <= self.gaddr_start
        &&& self.gaddr_end <= self.m_gaddr_end
        &&& self.m_gaddr_start as int % PAGE_SIZE as int == 0
        &&& self.m_gaddr_end as int % PAGE_SIZE as int == 0
        &&& self.data.len() == self.m_gaddr_end - self.m_gaddr_start
    }

    /// Whether `gaddr` lies in the page-aligned range.
    pub open spec fn contains(self, gaddr: u64) -> bool {
        self.m_gaddr_start <= gaddr < self.m_gaddr_end
    }

    /// The byte at `gaddr`.
    pub open spec fn byte(self, gaddr: u64) -> u8 {
        self.data[gaddr - self.m_gaddr_start]
    }

    /// The segment with `value` at `gaddr`.
    pub open spec fn with_byte(self, gaddr: u64, value: u8) -> SegmentView {
        SegmentView { data: self.data.update(gaddr - self.m_gaddr_start, value), ..self }
    }

    /// The segment that covers `len` bytes from `gaddr_start`: its
    /// page-aligned range is the smallest that holds them, and its bytes
    /// are those of `init` from `gaddr_start` on and zero everywhere else.
    pub open spec fn fresh(
        gaddr_start: u64,
        len: usize,
        flags: MemFlags,
        init: Option<Seq<u8>>,
    ) -> SegmentView {
        let m_start = round_down_spec(gaddr_start as int, PAGE_SIZE as int);
        let m_end = round_up_spec(gaddr_start + len, PAGE_SIZE as int);
        SegmentView {
            gaddr_start,
            gaddr_end: (gaddr_start + len) as u64,
            m_gaddr_start: m_start as u64,
            m_gaddr_end: m_end as u64,
            flags,
            data: Seq::new(
                (m_end - m_start) as nat,
                |i: int| Self::fresh_byte(i - (gaddr_start - m_start), init),
            ),
        }
    }

    /// Byte `k` of a new segment, counted from its first address.
    pub open spec fn fresh_byte(k: int, init: Option<Seq<u8>>) -> u8 {
        match init {
            Some(data) => if 0 <= k < data.len() { data[k] } else { 0u8 },
            None => 0u8,
        }
    }
}

/// Guest memory as plain values: the segments in the order of their
/// addresses, the program break and the stack.
pub struct GuestView {
    pub segments: Seq<SegmentView>,
    pub init_brk: u64,
    pub cur_brk: u64,
    pub stk_base: u64,
    pub stk_size: usize,
}

/// The greatest `m_gaddr_end` among `segments`, 0 when there is none.
pub open spec fn max_end(segments: Seq<SegmentView>) -> u64
    decreases segments.len(),
{
    if segments.len() == 0 {
        0
    } else {
        let rest = max_end(segments.drop_last());
        if segments.last().m_gaddr_end > rest {
            segments.last().m_gaddr_end
        } else {
            rest
        }
    }
}

/// Where a segment that starts at `key` goes among `segments`: behind the
/// last one that starts below `key`.
pub open spec fn rank(segments: Seq<SegmentView>, key: u64) -> int
    decreases segments.len(),
{
    if segments.len() == 0 {
        0
    } else if segments.last().m_gaddr_start < key {
        segments.len() as int
    } else {
        rank(segments.drop_last(), key)
    }
}

impl GuestView {
    pub open spec fn empty() -> GuestView {
        GuestView { segments: Seq::empty(), init_brk: 0, cur_brk: 0, stk_base: 0, stk_size: 0 }
    }

    /// Every segment is well formed, and the page-aligned ranges follow
    /// one another without overlap.
    pub open spec fn wf(self) -> bool {
        &&& forall|i: int| 0 <= i < self.segments.len() ==> (#[trigger] self.segments[i]).wf()
        &&& forall|i: int, j: int|
            0 <= i < j < self.segments.len() ==> (#[trigger] self.segments[i]).m_gaddr_end <= (
            #[trigger] self.segments[j]).m_gaddr_start
    }

    /// Whether some segment holds `gaddr`.
    pub open spec fn mapped(self, gaddr: u64) -> bool {
        exists|i: int| 0 <= i < self.segments.len() && (#[trigger] self.segments[i]).contains(gaddr)
    }

    /// The index of the segment that holds `gaddr`.
    pub open spec fn index_of(self, gaddr: u64) -> int {
        choose|i: int| 0 <= i < self.segments.len() && (#[trigger] self.segments[i]).contains(gaddr)
    }

    /// The segment that serves `access` at `gaddr`, or the reason why none
    /// does.
    pub open spec fn decompose(self, gaddr: u64, access: MemAccess) -> Result<int, Error> {
        if !self.mapped(gaddr) {
            Err(Error::MemAccessFault(access, gaddr))
        } else if !self.segments[self.index_of(gaddr)].flags.allows(access) {
            Err(Error::PermissionDenied)
        } else {
            Ok(self.index_of(gaddr))
        }
    }

    /// What an `access` to the byte at `gaddr` finds.
    pub open spec fn load(self, gaddr: u64, access: MemAccess) -> Result<u8, Error> {
        match self.decompose(gaddr, access) {
            Ok(i) => Ok(self.segments[i].byte(gaddr)),
            Err(e) => Err(e),
        }
    }

    /// Memory after an attempt to write `value` at `gaddr`, and how the
    /// attempt ends. A failed write changes nothing.
    pub open spec fn store(self, gaddr: u64, value: u8) -> (GuestView, Result<(), Error>) {
        match self.decompose(gaddr, MemAccess::Write) {
            Ok(i) => (
                GuestView {
                    segments: self.segments.update(i, self.segments[i].with_byte(gaddr, value)),
                    ..self
                },
                Ok(()),
            ),
            Err(e) => (self, Err(e)),
        }
    }

    /// What `access` finds in the `n` bytes from `gaddr`, taken one by one
    /// in rising order: the bytes, or the error of the first byte that
    /// cannot be had.
    pub open spec fn load_bytes(
        self,
        gaddr: u64,
        n: nat,
        access: MemAccess,
    ) -> Result<Seq<u8>, Error>
        decreases n,
    {
        if n == 0 {
            Ok(Seq::empty())
        } else {
            match self.load_bytes(gaddr, (n - 1) as nat, access) {
                Err(e) => Err(e),
                Ok(head) => match self.load((gaddr + n - 1) as u64, access) {
                    Err(e) => Err(e),
                    Ok(b) => Ok(head.push(b)),
                },
            }
        }
    }

    /// Memory after writing `bytes` from `gaddr` on, one by one in rising
    /// order, and how that ends. At the first byte that cannot be written
    /// the bytes before it stay written and the rest is left alone.
    pub open spec fn store_bytes(self, gaddr: u64, bytes: Seq<u8>) -> (GuestView, Result<(), Error>)
        decreases bytes.len(),
    {
        if bytes.len() == 0 {
            (self, Ok(()))
        } else {
            let (mem, r) = self.store_bytes(gaddr, bytes.drop_last());
            if r is Err {
                (mem, r)
            } else {
                mem.store((gaddr + bytes.len() - 1) as u64, bytes.last())
            }
        }
    }

    /// The halfword that `access` finds at `gaddr`, low byte first.
    pub open spec fn load_u16(self, gaddr: u64, access: MemAccess) -> Result<u16, Error> {
        match self.load_bytes(gaddr, 2, access) {
            Ok(b) => Ok(le_u16(b, 0) as u16),
            Err(e) => Err(e),
        }
    }

    /// The word that `access` finds at `gaddr`, low byte first.
    pub open spec fn load_u32(self, gaddr: u64, access: MemAccess) -> Result<u32, Error> {
        match self.load_bytes(gaddr, 4, access) {
            Ok(b) => Ok(le_u32(b, 0) as u32),
            Err(e) => Err(e),
        }
    }

    /// The doubleword that `access` finds at `gaddr`, low byte first.
    pub open spec fn load_u64(self, gaddr: u64, access: MemAccess) -> Result<u64, Error> {
        match self.load_bytes(gaddr, 8, access) {
            Ok(b) => Ok(le_u64(b, 0) as u64),
            Err(e) => Err(e),
        }
    }

    /// Whether the range from `m_start` to `m_end` meets the page-aligned
    /// range of some segment.
    pub open spec fn overlaps(self, m_start: int, m_end: int) -> bool {
        exists|i: int|
            0 <= i < self.segments.len() && (#[trigger] self.segments[i]).m_gaddr_start < m_end
                && m_start < self.segments[i].m_gaddr_end
    }

    /// Whether a segment of `len` bytes at `gaddr_start` with the initial
    /// bytes `init` can be added, and why not.
    pub open spec fn check_segment(
        self,
        gaddr_start: u64,
        len: usize,
        init: Option<Seq<u8>>,
    ) -> Result<(), Error> {
        let m_start = round_down_spec(gaddr_start as int, PAGE_SIZE as int);
        let m_end = round_up_spec(gaddr_start + len, PAGE_SIZE as int);
        if len == 0 || m_end > u64::MAX {
            Err(Error::InvalidSegment)
        } else if self.overlaps(m_start, m_end) {
            Err(Error::SegmentOverlap)
        } else if init is Some && init->0.len() > len {
            Err(Error::OutOfBounds)
        } else {
            Ok(())
        }
    }

    /// Memory with `seg` added at its place in address order.
    pub open spec fn with_segment(self, seg: SegmentView) -> GuestView {
        GuestView {
            segments: self.segments.insert(rank(self.segments, seg.m_gaddr_start), seg),
            ..self
        }
    }

    /// Memory after the program header at `at` in `elf` is handled, and
    /// how that ends. A header of another type than `PT_LOAD` changes
    /// nothing. A loadable one adds a segment at `p_vaddr` of `p_memsz`
    /// bytes, which holds the `p_filesz` bytes at `p_offset`. A header
    /// that reaches past the file, and one whose segment cannot be added,
    /// make the file invalid.
    pub open spec fn load_segment(self, elf: Seq<u8>, at: int) -> (GuestView, Result<(), Error>) {
        if at + PHDR_SIZE > elf.len() {
            (self, Err(Error::InvalidElf))
        } else {
            let ph = ProgramHeader::parse(elf.subrange(at, at + PHDR_SIZE));
            if ph.p_type != PT_LOAD {
                (self, Ok(()))
            } else if ph.p_offset + ph.p_filesz > elf.len() || ph.p_memsz > usize::MAX {
                (self, Err(Error::InvalidElf))
            } else {
                let init = Some(elf.subrange(ph.p_offset as int, ph.p_offset + ph.p_filesz));
                let flags = MemFlags {
                    read: ph.p_flags & PF_R != 0,
                    write: ph.p_flags & PF_W != 0,
                    execute: ph.p_flags & PF_X != 0,
                };
                match self.check_segment(ph.p_vaddr, ph.p_memsz as usize, init) {
                    Err(_) => (self, Err(Error::InvalidElf)),
                    Ok(()) => (
                        self.with_segment(
                            SegmentView::fresh(ph.p_vaddr, ph.p_memsz as usize, flags, init),
                        ),
                        Ok(()),
                    ),
                }
            }
        }
    }

    /// Memory after the first `n` program headers of the table at `phoff`
    /// are handled in turn, and how that ends: at the first header that
    /// fails, with its error.
    pub open spec fn load_segments(
        self,
        elf: Seq<u8>,
        phoff: u64,
        n: nat,
    ) -> (GuestView, Result<(), Error>)
        decreases n,
    {
        if n == 0 {
            (self, Ok(()))
        } else {
            let (mem, r) = self.load_segments(elf, phoff, (n - 1) as nat);
            if r is Err {
                (mem, r)
            } else {
                mem.load_segment(elf, phoff + (n - 1) * PHDR_SIZE)
            }
        }
    }

    /// Whether program header `k` of the table at `phoff` asks the host
    /// for memory when the headers before it left `after`: all headers
    /// before it were handled with success, and the header itself is one
    /// that adds a segment.
    pub open spec fn asks_host_at(self, elf: Seq<u8>, phoff: u64, k: nat, after: GuestView) -> bool {
        &&& self.load_segments(elf, phoff, k) == (after, Ok::<(), Error>(()))
        &&& after.load_segment(elf, phoff + k * PHDR_SIZE).1 is Ok
        &&& after.load_segment(elf, phoff + k * PHDR_SIZE).0 != after
    }

    /// Whether `after` is memory as it stands when the host gives no
    /// memory for the segment of one of the first `n` program headers.
    pub open spec fn stopped_short(
        self,
        elf: Seq<u8>,
        phoff: u64,
        n: nat,
        after: GuestView,
    ) -> bool {
        exists|k: nat| k < n && #[trigger] self.asks_host_at(elf, phoff, k, after)
    }

    /// Whether `after` is memory as a load of `elf` leaves it that stops
    /// because the host gives no memory for the segment of one of the
    /// program headers.
    pub open spec fn load_elf_stopped_short(self, elf: Seq<u8>, after: GuestView) -> bool {
        let hdr = elf.subrange(0, EHDR_SIZE as int);
        &&& elf.len() >= EHDR_SIZE
        &&& ElfHeader::valid_image(hdr)
        &&& self.stopped_short(elf, le_u64(hdr, 32) as u64, le_u16(hdr, 56) as nat, after)
    }

    /// Memory after the ELF file `elf` is loaded, and the entry point or
    /// the reason why the file was refused. After a full load both program
    /// breaks stand at the greatest end of any segment.
    pub open spec fn load_elf(self, elf: Seq<u8>) -> (GuestView, Result<u64, Error>) {
        if elf.len() < EHDR_SIZE || !ElfHeader::valid_image(elf.subrange(0, EHDR_SIZE as int)) {
            (self, Err(Error::InvalidElf))
        } else {
            let hdr = elf.subrange(0, EHDR_SIZE as int);
            let (mem, r) = self.load_segments(elf, le_u64(hdr, 32) as u64, le_u16(hdr, 56) as nat);
            match r {
                Err(e) => (mem, Err(e)),
                Ok(()) => (mem.with_brk(max_end(mem.segments)), Ok(le_u64(hdr, 24) as u64)),
            }
        }
    }

    /// Memory with both program breaks at `brk`.
    pub open spec fn with_brk(self, brk: u64) -> GuestView {
        GuestView { init_brk: brk, cur_brk: brk, ..self }
    }

    /// Memory with the stack recorded at `base`, `size` bytes long.
    pub open spec fn with_stack(self, base: u64, size: usize) -> GuestView {
        GuestView { stk_base: base, stk_size: size, ..self }
    }
}

/// In well-formed memory an address lies in at most one segment.
pub proof fn lemma_index_of(mem: GuestView, i: int, gaddr: u64)
    requires
        mem.wf(),
        0 <= i < mem.segments.len(),
        mem.segments[i].contains(gaddr),
    ensures
        mem.mapped(gaddr),
        mem.index_of(gaddr) == i,
{
    let j = mem.index_of(gaddr);
    assert(mem.segments[j].contains(gaddr));
    if j < i {
        assert(mem.segments[j].m_gaddr_end <= mem.segments[i].m_gaddr_start);
    } else if i < j {
        assert(mem.segments[i].m_gaddr_end <= mem.segments[j].m_gaddr_start);
    }
}

/// The segments of well-formed memory start at strictly rising addresses.
pub proof fn lemma_starts_rise(mem: GuestView, i: int, j: int)
    requires
        mem.wf(),
        0 <= i < j < mem.segments.len(),
    ensures
        mem.segments[i].m_gaddr_start < mem.segments[j].m_gaddr_start,
{
    assert(mem.segments[i].wf());
    assert(mem.segments[i].m_gaddr_end <= mem.segments[j].m_gaddr_start);
}

/// Only addresses below the greatest one are ever mapped.
pub proof fn lemma_mapped_below_max(mem: GuestView, gaddr: u64)
    requires
        mem.mapped(gaddr),
    ensures
        gaddr < u64::MAX,
{
    let i = mem.index_of(gaddr);
    assert(mem.segments[i].contains(gaddr));
}

/// Once a byte could not be had, asking for more bytes gives the same
/// error.
pub proof fn lemma_load_bytes_stops(mem: GuestView, gaddr: u64, k: nat, n: nat, access: MemAccess)
    requires
        k <= n,
        mem.load_bytes(gaddr, k, access) is Err,
    ensures
        mem.load_bytes(gaddr, n, access) == mem.load_bytes(gaddr, k, access),
    decreases n - k,
{
    if k < n {
        lemma_load_bytes_stops(mem, gaddr, k, (n - 1) as nat, access);
    }
}

/// Once a byte could not be written, a longer write ends in the same way.
pub proof fn lemma_store_bytes_stops(mem: GuestView, gaddr: u64, bytes: Seq<u8>, k: int)
    requires
        0 <= k <= bytes.len(),
        mem.store_bytes(gaddr, bytes.subrange(0, k)).1 is Err,
    ensures
        mem.store_bytes(gaddr, bytes) == mem.store_bytes(gaddr, bytes.subrange(0, k)),
    decreases bytes.len() - k,
{
    if k < bytes.len() {
        assert(bytes.drop_last().subrange(0, k) =~= bytes.subrange(0, k));
        lemma_store_bytes_stops(mem, gaddr, bytes.drop_last(), k);
    } else {
        assert(bytes.subrange(0, k) =~= bytes);
    }
}

/// A read of bytes fails only for an address that is not mapped or for an
/// access that is not granted.
pub proof fn lemma_load_bytes_error(mem: GuestView, gaddr: u64, n: nat, access: MemAccess)
    ensures
        mem.load_bytes(gaddr, n, access) matches Err(e) ==> e is MemAccessFault
            || e is PermissionDenied,
    decreases n,
{
    if n > 0 {
        lemma_load_bytes_error(mem, gaddr, (n - 1) as nat, access);
    }
}

/// A write of bytes fails only for an address that is not mapped or for
/// an access that is not granted.
pub proof fn lemma_store_bytes_error(mem: GuestView, gaddr: u64, bytes: Seq<u8>)
    ensures
        mem.store_bytes(gaddr, bytes).1 matches Err(e) ==> e is MemAccessFault
            || e is PermissionDenied,
    decreases bytes.len(),
{
    if bytes.len() > 0 {
        lemma_store_bytes_error(mem, gaddr, bytes.drop_last());
    }
}

/// A write changes neither the ranges nor the flags of any segment, so
/// memory stays well formed and the same addresses stay mapped.
pub proof fn lemma_store_keeps_shape(mem: GuestView, gaddr: u64, value: u8)
    requires
        mem.wf(),
    ensures
        mem.store(gaddr, value).0.wf(),
        same_shape(mem, mem.store(gaddr, value).0),
{
    let after = mem.store(gaddr, value).0;
    if mem.decompose(gaddr, MemAccess::Write) is Ok {
        let i = mem.index_of(gaddr);
        assert(mem.segments[i].contains(gaddr));
        assert forall|j: int| 0 <= j < after.segments.len() implies (
        #[trigger] after.segments[j]).wf() by {
            assert(mem.segments[j].wf());
        }
        assert forall|j: int, k: int| 0 <= j < k < after.segments.len() implies (
        #[trigger] after.segments[j]).m_gaddr_end <= (#[trigger] after.segments[k]).m_gaddr_start by {
            assert(mem.segments[j].m_gaddr_end <= mem.segments[k].m_gaddr_start);
        }
    }
}

/// Two memories with the same segments but for the bytes they hold.
pub open spec fn same_shape(a: GuestView, b: GuestView) -> bool {
    &&& a.segments.len() == b.segments.len()
    &&& forall|i: int|
        0 <= i < a.segments.len() ==> {
            &&& (#[trigger] a.segments[i]).gaddr_start == b.segments[i].gaddr_start
            &&& a.segments[i].gaddr_end == b.segments[i].gaddr_end
            &&& a.segments[i].m_gaddr_start == b.segments[i].m_gaddr_start
            &&& a.segments[i].m_gaddr_end == b.segments[i].m_gaddr_end
            &&& a.segments[i].flags == b.segments[i].flags
        }
    &&& a.init_brk == b.init_brk
    &&& a.cur_brk == b.cur_brk
    &&& a.stk_base == b.stk_base
    &&& a.stk_size == b.stk_size
}

/// The initial bytes of a segment as a sequence.
pub open spec fn init_bytes(init_data: Option<&[u8]>) -> Option<Seq<u8>> {
    match init_data {
        Some(data) => Some(data@),
        None => None,
    }
}

/// Where `rank` puts a key among rising starts: every segment before
/// that place starts below the key and every other at or above it.
pub proof fn lemma_rank(mem: GuestView, key: u64)
    requires
        mem.wf(),
    ensures
        0 <= rank(mem.segments, key) <= mem.segments.len(),
        forall|i: int| 0 <= i < rank(mem.segments, key) ==> (#[trigger] mem.segments[i]).m_gaddr_start < key,
        forall|i: int|
            rank(mem.segments, key) <= i < mem.segments.len() ==> (#[trigger] mem.segments[i]).m_gaddr_start
                >= key,
    decreases mem.segments.len(),
{
    let segs = mem.segments;
    if segs.len() == 0 {
    } else if segs.last().m_gaddr_start < key {
        assert forall|i: int| 0 <= i < segs.len() implies (#[trigger] segs[i]).m_gaddr_start < key by {
            if i < segs.len() - 1 {
                lemma_starts_rise(mem, i, segs.len() - 1);
            }
        }
    } else {
        let rest = GuestView { segments: segs.drop_last(), ..mem };
        assert(rest.wf()) by {
            assert forall|i: int| 0 <= i < rest.segments.len() implies (#[trigger] rest.segments[i]).wf() by {
                assert(segs[i].wf());
            }
            assert forall|i: int, j: int| 0 <= i < j < rest.segments.len() implies (
            #[trigger] rest.segments[i]).m_gaddr_end <= (#[trigger] rest.segments[j]).m_gaddr_start by {
                assert(segs[i].m_gaddr_end <= segs[j].m_gaddr_start);
            }
        }
        lemma_rank(rest, key);
        assert forall|i: int| 0 <= i < rank(segs, key) implies (#[trigger] segs[i]).m_gaddr_start < key by {
            assert(rest.segments[i].m_gaddr_start < key);
        }
        assert forall|i: int| rank(segs, key) <= i < segs.len() implies (#[trigger] segs[i]).m_gaddr_start
            >= key by {
            if i < segs.len() - 1 {
                assert(rest.segments[i].m_gaddr_start >= key);
            }
        }
    }
}

/// A well-formed segment that meets none of the others keeps memory well
/// formed when it is added.
pub proof fn lemma_with_segment_wf(mem: GuestView, seg: SegmentView)
    requires
        mem.wf(),
        seg.wf(),
        !mem.overlaps(seg.m_gaddr_start as int, seg.m_gaddr_end as int),
    ensures
        mem.with_segment(seg).wf(),
{
    let p = rank(mem.segments, seg.m_gaddr_start);
    lemma_rank(mem, seg.m_gaddr_start);
    let after = mem.with_segment(seg);
    assert forall|i: int| 0 <= i < mem.segments.len() implies (#[trigger] mem.segments[i]).m_gaddr_start
        >= seg.m_gaddr_end || seg.m_gaddr_start >= mem.segments[i].m_gaddr_end by {
        if !(mem.segments[i].m_gaddr_start >= seg.m_gaddr_end || seg.m_gaddr_start
            >= mem.segments[i].m_gaddr_end) {
            assert(mem.segments[i].m_gaddr_start < seg.m_gaddr_end && seg.m_gaddr_start
                < mem.segments[i].m_gaddr_end);
            assert(mem.overlaps(seg.m_gaddr_start as int, seg.m_gaddr_end as int));
        }
    }
    assert forall|i: int| 0 <= i < after.segments.len() implies (#[trigger] after.segments[i]).wf() by {
        if i < p {
            assert(mem.segments[i].wf());
        } else if i > p {
            assert(mem.segments[i - 1].wf());
        }
    }
    assert forall|i: int, j: int| 0 <= i < j < after.segments.len() implies (
    #[trigger] after.segments[i]).m_gaddr_end <= (#[trigger] after.segments[j]).m_gaddr_start by {
        if j < p {
            assert(mem.segments[i].m_gaddr_end <= mem.segments[j].m_gaddr_start);
        } else if j == p {
            assert(mem.segments[i].wf());
            assert(mem.segments[i].m_gaddr_start < seg.m_gaddr_start);
        } else if i < p {
            assert(mem.segments[i].m_gaddr_end <= mem.segments[j - 1].m_gaddr_start);
        } else if i == p {
            assert(mem.segments[j - 1].wf());
            assert(mem.segments[j - 1].m_gaddr_start >= seg.m_gaddr_start);
        } else {
            assert(mem.segments[i - 1].m_gaddr_end <= mem.segments[j - 1].m_gaddr_start);
        }
    }
}

/// A new segment of at least one byte that ends inside the address space
/// is well formed.
pub proof fn lemma_fresh_wf(gaddr_start: u64, len: usize, flags: MemFlags, init: Option<Seq<u8>>)
    requires
        len > 0,
        round_up_spec(gaddr_start + len, PAGE_SIZE as int) <= u64::MAX,
    ensures
        SegmentView::fresh(gaddr_start, len, flags, init).wf(),
{
    lemma_round_down(gaddr_start as int, PAGE_SIZE as int);
    lemma_round_up(gaddr_start + len, PAGE_SIZE as int);
}

/// Once a program header was refused, handling more headers ends in the
/// same way.
pub proof fn lemma_load_segments_stops(mem: GuestView, elf: Seq<u8>, phoff: u64, k: nat, n: nat)
    requires
        k <= n,
        mem.load_segments(elf, phoff, k).1 is Err,
    ensures
        mem.load_segments(elf, phoff, n) == mem.load_segments(elf, phoff, k),
    decreases n - k,
{
    if k < n {
        lemma_load_segments_stops(mem, elf, phoff, k, (n - 1) as nat);
    }
}

/// A segment of guest memory together with the host memory behind it.
#[derive(Debug)]
pub struct MemSegment {
    // [gaddr_start, gaddr_end)
    gaddr_start: u64,
    gaddr_end: u64,
    // 'm' means page-aligned.
    // for bss/sbss segments, it additionally indicates more memory pages.
    m_gaddr_start: u64,
    m_gaddr_end: u64,
    host_mmap: MmapMut,
    flags: MemFlags,
}

impl View for MemSegment {
    type V = SegmentView;

    closed spec fn view(&self) -> SegmentView {
        SegmentView {
            gaddr_start: self.gaddr_start,
            gaddr_end: self.gaddr_end,
            m_gaddr_start: self.m_gaddr_start,
            m_gaddr_end: self.m_gaddr_end,
            flags: self.flags,
            data: mmap_bytes(self.host_mmap),
        }
    }
}

impl MemSegment {
    /// The ranges are as a segment's must be, the host mapping is as long
    /// as the page-aligned range, and that length fits the host.
    pub open spec fn wf(&self) -> bool {
        &&& self@.wf()
        &&& self@.m_gaddr_end - self@.m_gaddr_start <= usize::MAX
    }

    pub fn new(
        gaddr_start: u64,
        gaddr_end: u64,
        m_gaddr_start: u64,
        m_gaddr_end: u64,
        host_mmap: MmapMut,
        flags: MemFlags,
    ) -> (seg: MemSegment)
        requires
            gaddr_start < gaddr_end,
        ensures
            seg@ == (SegmentView {
                gaddr_start,
                gaddr_end,
                m_gaddr_start,
                m_gaddr_end,
                flags,
                data: mmap_bytes(host_mmap),
            }),
    {
        MemSegment { gaddr_start, gaddr_end, m_gaddr_start, m_gaddr_end, host_mmap, flags }
    }

    pub fn num_pages(&self) -> (n: usize)
        requires
            self.wf(),
        ensures
            n == (self@.m_gaddr_end - self@.m_gaddr_start) / PAGE_SIZE as int,
    {
        ((self.m_gaddr_end - self.m_gaddr_start) / PAGE_SIZE) as usize
    }

    pub fn contains(&self, guest_addr: u64) -> (r: bool)
        ensures
            r == self@.contains(guest_addr),
    {
        guest_addr >= self.m_gaddr_start && guest_addr < self.m_gaddr_end
    }

    pub fn allows(&self, access: MemAccess) -> (r: bool)
        ensures
            r == self@.flags.allows(access),
    {
        self.flags.permits(access)
    }

    pub fn flags(&self) -> (r: MemFlags)
        ensures
            r == self@.flags,
    {
        self.flags
    }

    /// First address of the page-aligned range.
    pub fn base(&self) -> (r: u64)
        ensures
            r == self@.m_gaddr_start,
    {
        self.m_gaddr_start
    }

    /// The address one past the page-aligned range.
    pub fn end(&self) -> (r: u64)
        ensures
            r == self@.m_gaddr_end,
    {
        self.m_gaddr_end
    }

    /// The byte at `gaddr`, whatever the flags say.
    pub fn peek(&self, gaddr: u64) -> (b: u8)
        requires
            self.wf(),
            self@.contains(gaddr),
        ensures
            b == self@.byte(gaddr),
    {
        mmap_get(&self.host_mmap, (gaddr - self.m_gaddr_start) as usize)
    }

    /// Puts `value` at `gaddr`, whatever the flags say.
    pub fn poke(&mut self, gaddr: u64, value: u8)
        requires
            old(self).wf(),
            old(self)@.contains(gaddr),
        ensures
            final(self).wf(),
            final(self)@ == old(self)@.with_byte(gaddr, value),
    {
        mmap_set(&mut self.host_mmap, (gaddr - self.m_gaddr_start) as usize, value);
    }
}

#[derive(Debug)]
pub struct GuestMem {
    /// The segments, in the order of their base addresses. They are kept
    /// in a sorted `Vec`: the search for the last segment at or below an
    /// address, and the write into a segment that was found, are what an
    /// ordered map of std would do with `range` and `range_mut`, for which
    /// vstd has no specification.
    segments: Vec<MemSegment>,
    init_brk_gaddr: u64,
    cur_brk_gaddr: u64,
    stk_base_gaddr: u64,
    stk_size: usize,
}

impl View for GuestMem {
    type V = GuestView;

    closed spec fn view(&self) -> GuestView {
        GuestView {
            segments: Seq::new(self.segments@.len(), |i: int| self.segments@[i]@),
            init_brk: self.init_brk_gaddr,
            cur_brk: self.cur_brk_gaddr,
            stk_base: self.stk_base_gaddr,
            stk_size: self.stk_size,
        }
    }
}

impl GuestMem {
    /// The memory is well formed as plain values, and every host mapping
    /// is as long as its segment's page-aligned range.
    pub closed spec fn wf(&self) -> bool {
        &&& self@.wf()
        &&& forall|i: int| 0 <= i < self.segments@.len() ==> (#[trigger] self.segments@[i]).wf()
    }

    /// Memory that is well formed is well formed as plain values, so what
    /// is proved of such values holds of it.
    pub proof fn lemma_wf_view(&self)
        requires
            self.wf(),
        ensures
            self@.wf(),
    {
    }

    pub fn new() -> (mem: GuestMem)
        ensures
            mem.wf(),
            mem@ == GuestView::empty(),
    {
        let mem = GuestMem {
            segments: Vec::new(),
            init_brk_gaddr: 0,
            cur_brk_gaddr: 0,
            stk_base_gaddr: 0,
            stk_size: 0,
        };
        assert(mem@.segments =~= Seq::empty());
        mem
    }

    /// Finds the segment that serves `access` at `gaddr` by a binary
    /// search for the last segment that starts at or below `gaddr`.
    fn locate(&self, gaddr: u64, access: MemAccess) -> (r: Result<usize, Error>)
        requires
            self.wf(),
        ensures
            match r {
                Ok(i) => i < self.segments@.len() && self@.decompose(gaddr, access) == Ok::<
                    int,
                    Error,
                >(i as int),
                Err(e) => self@.decompose(gaddr, access) == Err::<int, Error>(e),
            },
    {
        let mut lo: usize = 0;
        let mut hi: usize = self.segments.len();
        while lo < hi
            invariant
                self.wf(),
                0 <= lo <= hi <= self.segments@.len(),
                forall|j: int| 0 <= j < lo ==> (#[trigger] self@.segments[j]).m_gaddr_start <= gaddr,
                forall|j: int|
                    hi <= j < self.segments@.len() ==> (#[trigger] self@.segments[j]).m_gaddr_start
                        > gaddr,
            decreases hi - lo,
        {
            let mid = lo + (hi - lo) / 2;
            if self.segments[mid].m_gaddr_start <= gaddr {
                proof {
                    assert forall|j: int| 0 <= j < mid + 1 implies (
                    #[trigger] self@.segments[j]).m_gaddr_start <= gaddr by {
                        if j < mid {
                            lemma_starts_rise(self@, j, mid as int);
                        }
                    }
                }
                lo = mid + 1;
            } else {
                proof {
                    assert forall|j: int| mid <= j < self.segments@.len() implies (
                    #[trigger] self@.segments[j]).m_gaddr_start > gaddr by {
                        if mid < j {
                            lemma_starts_rise(self@, mid as int, j);
                        }
                    }
                }
                hi = mid;
            }
        }
        if lo > 0 && self.segments[lo - 1].contains(gaddr) {
            proof {
                lemma_index_of(self@, lo - 1, gaddr);
            }
            if self.segments[lo - 1].allows(access) {
                Ok(lo - 1)
            } else {
                Err(Error::PermissionDenied)
            }
        } else {
            proof {
                assert forall|j: int| 0 <= j < self.segments@.len() implies !(
                #[trigger] self@.segments[j]).contains(gaddr) by {
                    if j < lo - 1 {
                        assert(self@.segments[j].m_gaddr_end <= self@.segments[lo - 1].m_gaddr_start);
                    }
                }
            }
            Err(Error::MemAccessFault(access, gaddr))
        }
    }

    /// Decomposes a guest address into its segment and checks access permissions.
    pub fn decompose(&self, gaddr: u64, access: MemAccess) -> (r: Result<(u64, &MemSegment), Error>)
        requires
            self.wf(),
        ensures
            match r {
                Ok((base, seg)) => {
                    &&& self@.decompose(gaddr, access) matches Ok(i)
                    &&& seg@ == self@.segments[i]
                    &&& base == seg@.m_gaddr_start
                    &&& seg.wf()
                },
                Err(e) => self@.decompose(gaddr, access) == Err::<int, Error>(e),
            },
    {
        match self.locate(gaddr, access) {
            Ok(i) => Ok((self.segments[i].m_gaddr_start, &self.segments[i])),
            Err(e) => Err(e),
        }
    }

    /// Decomposes a guest address into its segment, for changing it, and
    /// checks access permissions. Memory is what it was but for the
    /// segment, which is what the caller leaves behind.
    pub fn decompose_mut(&mut self, gaddr: u64, access: MemAccess) -> (r: Result<
        (u64, &mut MemSegment),
        Error,
    >)
        requires
            old(self).wf(),
        ensures
            match r {
                Ok((base, seg)) => {
                    &&& old(self)@.decompose(gaddr, access) matches Ok(i)
                    &&& seg@ == old(self)@.segments[i]
                    &&& base == seg@.m_gaddr_start
                    &&& seg.wf()
                    &&& final(self)@.segments =~= old(self)@.segments.update(i, final(seg)@)
                    &&& final(self)@.init_brk == old(self)@.init_brk
                    &&& final(self)@.cur_brk == old(self)@.cur_brk
                    &&& final(self)@.stk_base == old(self)@.stk_base
                    &&& final(self)@.stk_size == old(self)@.stk_size
                    &&& final(seg).wf() && final(seg)@.m_gaddr_start == seg@.m_gaddr_start
                        && final(seg)@.m_gaddr_end == seg@.m_gaddr_end ==> final(self).wf()
                },
                Err(e) => old(self)@.decompose(gaddr, access) == Err::<int, Error>(e) && final(self)@
                    == old(self)@,
            },
    {
        match self.locate(gaddr, access) {
            Ok(i) => {
                let base = self.segments[i].m_gaddr_start;
                proof {
                    let segs = self.segments@;
                    assert forall|other: GuestMem|
                        other.segments@.len() == segs.len() && (forall|j: int|
                            0 <= j < segs.len() && j != i ==> other.segments@[j] == segs[j]) && (
                        #[trigger] other.segments@[i as int]).wf() && other.segments@[i as int]@.m_gaddr_start
                            == segs[i as int]@.m_gaddr_start && other.segments@[i as int]@.m_gaddr_end
                            == segs[i as int]@.m_gaddr_end implies other.wf() by {
                        assert forall|j: int| 0 <= j < other.segments@.len() implies (
                        #[trigger] other.segments@[j]).wf() by {
                            if j != i {
                                assert(segs[j].wf());
                            }
                        }
                        assert forall|j: int| 0 <= j < other@.segments.len() implies (
                        #[trigger] other@.segments[j]).wf() by {
                            assert(other.segments@[j].wf());
                        }
                        assert forall|j: int, k: int| 0 <= j < k < other@.segments.len() implies (
                        #[trigger] other@.segments[j]).m_gaddr_end <= (
                        #[trigger] other@.segments[k]).m_gaddr_start by {
                            assert(self@.segments[j].m_gaddr_end <= self@.segments[k].m_gaddr_start);
                        }
                    }
                }
                let seg = &mut self.segments[i];
                Ok((base, seg))
            },
            Err(e) => Err(e),
        }
    }

    /// Reads the byte at `gaddr` for `access`.
    fn load(&self, gaddr: u64, access: MemAccess) -> (r: Result<u8, Error>)
        requires
            self.wf(),
        ensures
            r == self@.load(gaddr, access),
    {
        match self.locate(gaddr, access) {
            Ok(i) => Ok(self.segments[i].peek(gaddr)),
            Err(e) => Err(e),
        }
    }

    pub fn read_u8(&self, gaddr: u64) -> (r: Result<u8, Error>)
        requires
            self.wf(),
        ensures
            r == self@.load(gaddr, MemAccess::Read),
    {
        self.load(gaddr, MemAccess::Read)
    }

    pub fn write_u8(&mut self, gaddr: u64, value: u8) -> (r: Result<(), Error>)
        requires
            old(self).wf(),
        ensures
            final(self).wf(),
            (final(self)@, r) == old(self)@.store(gaddr, value),
    {
        match self.locate(gaddr, MemAccess::Write) {
            Ok(i) => {
                self.segments[i].poke(gaddr, value);
                proof {
                    assert(self@.segments =~= old(self)@.segments.update(
                        i as int,
                        old(self)@.segments[i as int].with_byte(gaddr, value),
                    ));
                }
                Ok(())
            },
            Err(e) => Err(e),
        }
    }

    /// Reads `n` bytes from `gaddr` on for `access`, one by one, into the
    /// front of a buffer.
    fn load_bytes(&self, gaddr: u64, n: usize, access: MemAccess) -> (r: Result<[u8; 8], Error>)
        requires
            self.wf(),
            n <= 8,
        ensures
            match r {
                Ok(buf) => self@.load_bytes(gaddr, n as nat, access) == Ok::<Seq<u8>, Error>(
                    buf@.subrange(0, n as int),
                ),
                Err(e) => self@.load_bytes(gaddr, n as nat, access) == Err::<Seq<u8>, Error>(e),
            },
    {
        let mut buf = [0u8; 8];
        let mut i: usize = 0;
        assert(buf@.subrange(0, 0) =~= Seq::<u8>::empty());
        while i < n
            invariant
                self.wf(),
                0 <= i <= n <= 8,
                i > 0 ==> gaddr + i <= u64::MAX,
                self@.load_bytes(gaddr, i as nat, access) == Ok::<Seq<u8>, Error>(
                    buf@.subrange(0, i as int),
                ),
            decreases n - i,
        {
            let ghost head = buf@.subrange(0, i as int);
            match self.load(gaddr + i as u64, access) {
                Ok(b) => {
                    buf[i] = b;
                    proof {
                        lemma_mapped_below_max(self@, (gaddr + i) as u64);
                        assert(buf@.subrange(0, i + 1) =~= head.push(b));
                    }
                },
                Err(e) => {
                    proof {
                        lemma_load_bytes_stops(self@, gaddr, (i + 1) as nat, n as nat, access);
                    }
                    return Err(e);
                },
            }
            i += 1;
        }
        Ok(buf)
    }

    /// Writes `bytes` from `gaddr` on, one by one, and stops at the first
    /// byte that cannot be written.
    pub fn write_bytes(&mut self, gaddr: u64, bytes: &[u8]) -> (r: Result<(), Error>)
        requires
            old(self).wf(),
        ensures
            final(self).wf(),
            (final(self)@, r) == old(self)@.store_bytes(gaddr, bytes@),
    {
        let mut i: usize = 0;
        assert(bytes@.subrange(0, 0) =~= Seq::<u8>::empty());
        while i < bytes.len()
            invariant
                self.wf(),
                0 <= i <= bytes@.len(),
                i > 0 ==> gaddr + i <= u64::MAX,
                (self@, Ok::<(), Error>(())) == old(self)@.store_bytes(
                    gaddr,
                    bytes@.subrange(0, i as int),
                ),
            decreases bytes@.len() - i,
        {
            let ghost before = self@;
            proof {
                assert(bytes@.subrange(0, i + 1).drop_last() =~= bytes@.subrange(0, i as int));
            }
            match self.write_u8(gaddr + i as u64, bytes[i]) {
                Ok(()) => {
                    proof {
                        lemma_mapped_below_max(before, (gaddr + i) as u64);
                    }
                },
                Err(e) => {
                    proof {
                        lemma_store_bytes_stops(old(self)@, gaddr, bytes@, i + 1);
                    }
                    return Err(e);
                },
            }
            i += 1;
        }
        proof {
            assert(bytes@.subrange(0, i as int) =~= bytes@);
        }
        Ok(())
    }

    pub fn read_u16(&self, gaddr: u64) -> (r: Result<u16, Error>)
        requires
            self.wf(),
        ensures
            r == self@.load_u16(gaddr, MemAccess::Read),
    {
        // We can't ensure the address is aligned, so we read byte by byte.
        match self.load_bytes(gaddr, 2, MemAccess::Read) {
            Ok(buf) => {
                let v = u16_from_le(buf[0], buf[1]);
                assert(le_u16(seq![buf[0], buf[1]], 0) == le_u16(buf@.subrange(0, 2), 0));
                Ok(v)
            },
            Err(e) => Err(e),
        }
    }

    pub fn write_u16(&mut self, gaddr: u64, value: u16) -> (r: Result<(), Error>)
        requires
            old(self).wf(),
        ensures
            final(self).wf(),
            (final(self)@, r) == old(self)@.store_bytes(gaddr, le_bytes(value as int, 2)),
    {
        let bytes = u16_to_le(value);
        self.write_bytes(gaddr, bytes.as_slice())
    }

    /// Reads a word for `access`.
    fn load_u32(&self, gaddr: u64, access: MemAccess) -> (r: Result<u32, Error>)
        requires
            self.wf(),
        ensures
            r == self@.load_u32(gaddr, access),
    {
        match self.load_bytes(gaddr, 4, access) {
            Ok(buf) => {
                let word = [buf[0], buf[1], buf[2], buf[3]];
                let v = u32_from_le(&word);
                assert(le_u32(word@, 0) == le_u32(buf@.subrange(0, 4), 0));
                Ok(v)
            },
            Err(e) => Err(e),
        }
    }

    pub fn read_u32(&self, gaddr: u64) -> (r: Result<u32, Error>)
        requires
            self.wf(),
        ensures
            r == self@.load_u32(gaddr, MemAccess::Read),
    {
        self.load_u32(gaddr, MemAccess::Read)
    }

    pub fn write_u32(&mut self, gaddr: u64, value: u32) -> (r: Result<(), Error>)
        requires
            old(self).wf(),
        ensures
            final(self).wf(),
            (final(self)@, r) == old(self)@.store_bytes(gaddr, le_bytes(value as int, 4)),
    {
        let bytes = u32_to_le(value);
        self.write_bytes(gaddr, bytes.as_slice())
    }

    pub fn read_u64(&self, gaddr: u64) -> (r: Result<u64, Error>)
        requires
            self.wf(),
        ensures
            r == self@.load_u64(gaddr, MemAccess::Read),
    {
        match self.load_bytes(gaddr, 8, MemAccess::Read) {
            Ok(buf) => {
                let v = u64_from_le(&buf);
                assert(le_u64(buf@, 0) == le_u64(buf@.subrange(0, 8), 0));
                Ok(v)
            },
            Err(e) => Err(e),
        }
    }

    pub fn write_u64(&mut self, gaddr: u64, value: u64) -> (r: Result<(), Error>)
        requires
            old(self).wf(),
        ensures
            final(self).wf(),
            (final(self)@, r) == old(self)@.store_bytes(gaddr, le_bytes(value as int, 8)),
    {
        let bytes = u64_to_le(value);
        self.write_bytes(gaddr, bytes.as_slice())
    }

    /// Fetches the instruction word at `pc`: four bytes, read with execute
    /// access.
    pub fn fetch_insn(&self, pc: u64) -> (r: Result<u32, Error>)
        requires
            self.wf(),
        ensures
            r == self@.load_u32(pc, MemAccess::Execute),
    {
        self.load_u32(pc, MemAccess::Execute)
    }

    /// Checks whether a segment can be added, and gives its page-aligned
    /// range.
    fn check_segment(&self, gaddr_start: u64, len: usize, init_data: Option<&[u8]>) -> (r: Result<
        (u64, u64),
        Error,
    >)
        requires
            self.wf(),
        ensures
            match r {
                Ok((m_start, m_end)) => {
                    &&& self@.check_segment(gaddr_start, len, init_bytes(init_data)) is Ok
                    &&& m_start == round_down_spec(gaddr_start as int, PAGE_SIZE as int)
                    &&& m_end == round_up_spec(gaddr_start + len, PAGE_SIZE as int)
                },
                Err(e) => self@.check_segment(gaddr_start, len, init_bytes(init_data)) == Err::<
                    (),
                    Error,
                >(e),
            },
    {
        if len == 0 {
            return Err(Error::InvalidSegment);
        }
        proof {
            lemma_round_up(gaddr_start + len, PAGE_SIZE as int);
        }
        let gaddr_end = match gaddr_start.checked_add(len as u64) {
            Some(end) => end,
            None => {
                return Err(Error::InvalidSegment);
            },
        };
        let rem = gaddr_end % PAGE_SIZE;
        if rem != 0 && gaddr_end - rem > u64::MAX - PAGE_SIZE {
            return Err(Error::InvalidSegment);
        }
        let m_gaddr_start = round_down(gaddr_start, PAGE_SIZE);
        let m_gaddr_end = round_up(gaddr_end, PAGE_SIZE);
        // Check if the segment overlaps with existing segments
        let mut i: usize = 0;
        while i < self.segments.len()
            invariant
                0 <= i <= self.segments@.len(),
                len > 0,
                m_gaddr_start == round_down_spec(gaddr_start as int, PAGE_SIZE as int),
                m_gaddr_end == round_up_spec(gaddr_start + len, PAGE_SIZE as int),
                forall|j: int|
                    0 <= j < i ==> !((#[trigger] self@.segments[j]).m_gaddr_start < m_gaddr_end
                        && m_gaddr_start < self@.segments[j].m_gaddr_end),
            decreases self.segments@.len() - i,
        {
            if self.segments[i].m_gaddr_start < m_gaddr_end && m_gaddr_start
                < self.segments[i].m_gaddr_end {
                assert(self@.segments[i as int].m_gaddr_start < m_gaddr_end);
                assert(self@.overlaps(m_gaddr_start as int, m_gaddr_end as int));
                return Err(Error::SegmentOverlap);
            }
            i += 1;
        }
        if let Some(data) = init_data {
            if data.len() > len {
                return Err(Error::OutOfBounds);
            }
        }
        Ok((m_gaddr_start, m_gaddr_end))
    }

    /// Puts a segment that passed the checks into the table, on the host
    /// memory `host`.
    fn place(
        &mut self,
        gaddr_start: u64,
        len: usize,
        flags: MemFlags,
        init_data: Option<&[u8]>,
        host: MmapMut,
    )
        requires
            old(self).wf(),
            old(self)@.check_segment(gaddr_start, len, init_bytes(init_data)) is Ok,
            mmap_bytes(host).len() == round_up_spec(gaddr_start + len, PAGE_SIZE as int)
                - round_down_spec(gaddr_start as int, PAGE_SIZE as int),
            mmap_bytes(host).len() <= usize::MAX,
        ensures
            final(self).wf(),
            final(self)@ == old(self)@.with_segment(
                SegmentView::fresh(gaddr_start, len, flags, init_bytes(init_data)),
            ),
    {
        let mut host = host;
        proof {
            lemma_round_down(gaddr_start as int, PAGE_SIZE as int);
            lemma_round_up(gaddr_start + len, PAGE_SIZE as int);
            lemma_fresh_wf(gaddr_start, len, flags, init_bytes(init_data));
        }
        let gaddr_end = gaddr_start + len as u64;
        let m_gaddr_start = round_down(gaddr_start, PAGE_SIZE);
        let m_gaddr_end = round_up(gaddr_end, PAGE_SIZE);
        let offset = (gaddr_start - m_gaddr_start) as usize;
        let ghost m_len = mmap_bytes(host).len();
        // zero the mapping, then copy init data
        mmap_fill(&mut host, 0);
        if let Some(data) = init_data {
            let mut k: usize = 0;
            while k < data.len()
                invariant
                    0 <= k <= data@.len(),
                    data@.len() <= len,
                    offset + len <= m_len,
                    m_len <= usize::MAX,
                    mmap_bytes(host) == Seq::new(
                        m_len,
                        |i: int|
                            if offset <= i < offset + k {
                                data@[i - offset]
                            } else {
                                0u8
                            },
                    ),
                decreases data@.len() - k,
            {
                mmap_set(&mut host, offset + k, data[k]);
                k += 1;
                assert(mmap_bytes(host) =~= Seq::new(
                    m_len,
                    |i: int|
                        if offset <= i < offset + k {
                            data@[i - offset]
                        } else {
                            0u8
                        },
                ));
            }
        }
        let ghost fresh = SegmentView::fresh(gaddr_start, len, flags, init_bytes(init_data));
        assert(mmap_bytes(host) =~= fresh.data);
        let segment = MemSegment::new(
            gaddr_start,
            gaddr_end,
            m_gaddr_start,
            m_gaddr_end,
            host,
            flags,
        );
        assert(segment@ == fresh);
        let mut pos: usize = self.segments.len();
        assert(self@.segments.subrange(0, pos as int) =~= self@.segments);
        while pos > 0 && self.segments[pos - 1].m_gaddr_start >= m_gaddr_start
            invariant
                0 <= pos <= self.segments@.len(),
                rank(self@.segments, m_gaddr_start) == rank(
                    self@.segments.subrange(0, pos as int),
                    m_gaddr_start,
                ),
            decreases pos,
        {
            assert(self@.segments.subrange(0, pos as int).drop_last() =~= self@.segments.subrange(
                0,
                pos - 1,
            ));
            pos -= 1;
        }
        assert(rank(self@.segments.subrange(0, pos as int), m_gaddr_start) == pos) by {
            if pos > 0 {
                assert(self@.segments.subrange(0, pos as int).last() == self@.segments[pos - 1]);
            }
        }
        self.segments.insert(pos, segment);
        proof {
            assert(self@.segments =~= old(self)@.segments.insert(pos as int, fresh));
            lemma_with_segment_wf(old(self)@, fresh);
            assert forall|i: int| 0 <= i < self.segments@.len() implies (
            #[trigger] self.segments@[i]).wf() by {
                if i < pos {
                    assert(self.segments@[i] == old(self).segments@[i]);
                } else if i > pos {
                    assert(self.segments@[i] == old(self).segments@[i - 1]);
                }
            }
        }
    }

    /// Adds a segment on the host memory that `host` brings. Fails with
    /// `InvalidSegment` when `len` is 0 or the segment would reach past
    /// the address space, with `SegmentOverlap` when its page-aligned
    /// range meets that of another segment, with `OutOfBounds` when
    /// `init_data` is longer than `len`, and with an internal error when
    /// `host` is an error or a mapping of another length than the
    /// page-aligned range. A failed call changes nothing.
    pub fn install_segment(
        &mut self,
        gaddr_start: u64,
        len: usize,
        flags: MemFlags,
        init_data: Option<&[u8]>,
        host: Result<MmapMut, std::io::Error>,
    ) -> (r: Result<(), Error>)
        requires
            old(self).wf(),
        ensures
            final(self).wf(),
            match old(self)@.check_segment(gaddr_start, len, init_bytes(init_data)) {
                Err(e) => r == Err::<(), Error>(e) && final(self)@ == old(self)@,
                Ok(()) => if host matches Ok(m) && mmap_bytes(m).len() == round_up_spec(
                    gaddr_start + len,
                    PAGE_SIZE as int,
                ) - round_down_spec(gaddr_start as int, PAGE_SIZE as int) {
                    r == Ok::<(), Error>(()) && final(self)@ == old(self)@.with_segment(
                        SegmentView::fresh(gaddr_start, len, flags, init_bytes(init_data)),
                    )
                } else {
                    r == Err::<(), Error>(Error::InternalError(Breach::HostMapping)) && final(self)@
                        == old(self)@
                },
            },
    {
        let (m_gaddr_start, m_gaddr_end) = match self.check_segment(gaddr_start, len, init_data) {
            Ok(range) => range,
            Err(e) => {
                return Err(e);
            },
        };
        proof {
            lemma_round_down(gaddr_start as int, PAGE_SIZE as int);
            lemma_round_up(gaddr_start + len, PAGE_SIZE as int);
        }
        match host {
            Ok(m) => {
                if mmap_len(&m) as u64 == m_gaddr_end - m_gaddr_start {
                    self.place(gaddr_start, len, flags, init_data, m);
                    Ok(())
                } else {
                    Err(Error::InternalError(Breach::HostMapping))
                }
            },
            Err(_) => Err(Error::InternalError(Breach::HostMapping)),
        }
    }

    /// Adds a segment of `len` bytes at `gaddr_start` on fresh host memory.
    /// The page-aligned range is the smallest that holds the segment; its
    /// bytes are those of `init_data` from `gaddr_start` on and zero
    /// everywhere else. Fails as `install_segment` does; whether the host
    /// provides the memory is not for this function to decide.
    pub fn add_segment(
        &mut self,
        gaddr_start: u64,
        len: usize,
        flags: MemFlags,
        init_data: Option<&[u8]>,
    ) -> (r: Result<(), Error>)
        requires
            old(self).wf(),
        ensures
            final(self).wf(),
            match old(self)@.check_segment(gaddr_start, len, init_bytes(init_data)) {
                Err(e) => r == Err::<(), Error>(e) && final(self)@ == old(self)@,
                Ok(()) => {
                    ||| r == Ok::<(), Error>(()) && final(self)@ == old(self)@.with_segment(
                        SegmentView::fresh(gaddr_start, len, flags, init_bytes(init_data)),
                    )
                    ||| r == Err::<(), Error>(Error::InternalError(Breach::HostMapping))
                        && final(self)@ == old(self)@
                },
            },
    {
        let (m_gaddr_start, m_gaddr_end) = match self.check_segment(gaddr_start, len, init_data) {
            Ok(range) => range,
            Err(e) => {
                return Err(e);
            },
        };
        proof {
            lemma_round_down(gaddr_start as int, PAGE_SIZE as int);
            lemma_round_up(gaddr_start + len, PAGE_SIZE as int);
        }
        let m_len = m_gaddr_end - m_gaddr_start;
        if m_len > usize::MAX as u64 {
            return Err(Error::InternalError(Breach::HostMapping));
        }
        match mmap_anon(m_len as usize) {
            Ok(m) => {
                self.place(gaddr_start, len, flags, init_data, m);
                Ok(())
            },
            Err(_) => Err(Error::InternalError(Breach::HostMapping)),
        }
    }

    /// Handles program header `index` of the table at `phoff`.
    fn load_segment(&mut self, elf: &[u8], phoff: u64, index: u16) -> (r: Result<(), Error>)
        requires
            old(self).wf(),
        ensures
            final(self).wf(),
            r matches Err(e) ==> e == Error::InvalidElf,
            (final(self)@, r) == old(self)@.load_segment(elf@, phoff + index * PHDR_SIZE) || {
                &&& r is Err
                &&& final(self)@ == old(self)@
                &&& old(self)@.load_segment(elf@, phoff + index * PHDR_SIZE).1 is Ok
                &&& old(self)@.load_segment(elf@, phoff + index * PHDR_SIZE).0 != old(self)@
            },
    {
        let elf_len = elf.len() as u64;
        let at = match phoff.checked_add(index as u64 * PHDR_SIZE as u64) {
            Some(at) => at,
            None => {
                return Err(Error::InvalidElf);
            },
        };
        if at > elf_len || elf_len - at < PHDR_SIZE as u64 {
            return Err(Error::InvalidElf);
        }
        let at = at as usize;
        let phdr = match ProgramHeader::from_bytes(slice_subrange(elf, at, at + PHDR_SIZE)) {
            Ok(phdr) => phdr,
            Err(e) => {
                return Err(e);
            },
        };
        if phdr.p_type != PT_LOAD {
            return Ok(());
        }
        let end = match phdr.p_offset.checked_add(phdr.p_filesz) {
            Some(end) => end,
            None => {
                return Err(Error::InvalidElf);
            },
        };
        if end > elf_len || phdr.p_memsz > usize::MAX as u64 {
            return Err(Error::InvalidElf);
        }
        let flags = MemFlags::from_p_flags(phdr.p_flags);
        let init_data = slice_subrange(elf, phdr.p_offset as usize, end as usize);
        proof {
            let init = Some(init_data@);
            if self@.check_segment(phdr.p_vaddr, phdr.p_memsz as usize, init) is Ok {
                let added = self@.with_segment(
                    SegmentView::fresh(phdr.p_vaddr, phdr.p_memsz as usize, flags, init),
                );
                lemma_rank(self@, round_down_spec(phdr.p_vaddr as int, PAGE_SIZE as int) as u64);
                assert(added.segments.len() == self@.segments.len() + 1);
            }
        }
        match self.add_segment(phdr.p_vaddr, phdr.p_memsz as usize, flags, Some(init_data)) {
            Ok(()) => Ok(()),
            Err(_) => Err(Error::InvalidElf),
        }
    }

    /// Handles the `phnum` program headers of the table at `phoff` in turn.
    fn load_segments(&mut self, elf: &[u8], phoff: u64, phnum: u16) -> (r: Result<(), Error>)
        requires
            old(self).wf(),
        ensures
            final(self).wf(),
            r matches Err(e) ==> e == Error::InvalidElf,
            (final(self)@, r) == old(self)@.load_segments(elf@, phoff, phnum as nat) || (r is Err
                && old(self)@.stopped_short(elf@, phoff, phnum as nat, final(self)@)),
    {
        let mut i: u16 = 0;
        while i < phnum
            invariant
                self.wf(),
                0 <= i <= phnum,
                (self@, Ok::<(), Error>(())) == old(self)@.load_segments(elf@, phoff, i as nat),
            decreases phnum - i,
        {
            let ghost before = self@;
            let r = self.load_segment(elf, phoff, i);
            proof {
                assert(old(self)@.load_segments(elf@, phoff, (i + 1) as nat)
                    == before.load_segment(elf@, phoff + i * PHDR_SIZE));
                if (self@, r) == before.load_segment(elf@, phoff + i * PHDR_SIZE) {
                    if r is Err {
                        lemma_load_segments_stops(
                            old(self)@,
                            elf@,
                            phoff,
                            (i + 1) as nat,
                            phnum as nat,
                        );
                    }
                } else {
                    assert(old(self)@.asks_host_at(elf@, phoff, i as nat, self@));
                }
            }
            match r {
                Ok(()) => {},
                Err(e) => {
                    return Err(e);
                },
            }
            i += 1;
        }
        Ok(())
    }

    /// The greatest end of any segment, 0 when there is none.
    fn max_end(&self) -> (r: u64)
        ensures
            r == max_end(self@.segments),
    {
        let mut brk: u64 = 0;
        let mut i: usize = 0;
        assert(self@.segments.subrange(0, 0) =~= Seq::<SegmentView>::empty());
        while i < self.segments.len()
            invariant
                0 <= i <= self.segments@.len(),
                brk == max_end(self@.segments.subrange(0, i as int)),
            decreases self.segments@.len() - i,
        {
            assert(self@.segments.subrange(0, i + 1).drop_last() =~= self@.segments.subrange(
                0,
                i as int,
            ));
            if self.segments[i].m_gaddr_end > brk {
                brk = self.segments[i].m_gaddr_end;
            }
            i += 1;
        }
        assert(self@.segments.subrange(0, i as int) =~= self@.segments);
        brk
    }

    /// Loads the loadable segments of the ELF file `elf`, sets both
    /// program breaks to the greatest end of any segment and gives the
    /// entry point. A file that is too short, has a wrong magic number,
    /// class or machine, a program header that reaches past its end, or a
    /// segment that cannot be added is refused with `InvalidElf`. Segments
    /// that were added before the failure stay. The host is asked for
    /// memory only for a loadable header that passed every check; where
    /// it gives none, the segment cannot be added, and memory holds the
    /// segments of the program headers before that one. No other error
    /// than `InvalidElf` is returned.
    pub fn load_elf(&mut self, elf: &[u8]) -> (r: Result<u64, Error>)
        requires
            old(self).wf(),
        ensures
            final(self).wf(),
            r matches Err(e) ==> e == Error::InvalidElf,
            (final(self)@, r) == old(self)@.load_elf(elf@) || (r is Err && old(self)@
                .load_elf_stopped_short(elf@, final(self)@)),
    {
        if elf.len() < EHDR_SIZE {
            return Err(Error::InvalidElf);
        }
        let ehdr = match ElfHeader::from_bytes(slice_subrange(elf, 0, EHDR_SIZE)) {
            Ok(ehdr) => ehdr,
            Err(e) => {
                return Err(e);
            },
        };
        let entry = ehdr.e_entry;
        match self.load_segments(elf, ehdr.e_phoff, ehdr.e_phnum) {
            Ok(()) => {},
            Err(e) => {
                return Err(e);
            },
        }
        let init_brk_gaddr = self.max_end();
        self.init_brk_gaddr = init_brk_gaddr;
        self.cur_brk_gaddr = init_brk_gaddr;
        Ok(entry)
    }

    /// The program break as the loader left it.
    pub fn init_brk(&self) -> (r: u64)
        ensures
            r == self@.init_brk,
    {
        self.init_brk_gaddr
    }

    /// The program break as it stands.
    pub fn cur_brk(&self) -> (r: u64)
        ensures
            r == self@.cur_brk,
    {
        self.cur_brk_gaddr
    }

    /// Lowest address of the stack.
    pub fn stack_base(&self) -> (r: u64)
        ensures
            r == self@.stk_base,
    {
        self.stk_base_gaddr
    }

    /// Size of the stack in bytes.
    pub fn stack_size(&self) -> (r: usize)
        ensures
            r == self@.stk_size,
    {
        self.stk_size
    }

    /// Records where the stack lies.
    pub fn set_stack(&mut self, base: u64, size: usize)
        requires
            old(self).wf(),
        ensures
            final(self).wf(),
            final(self)@ == old(self)@.with_stack(base, size),
    {
        self.stk_base_gaddr = base;
        self.stk_size = size;
        assert(self@.segments =~= old(self)@.segments);
    }

    /// Number of segments.
    pub fn num_segments(&self) -> (r: usize)
        ensures
            r == self@.segments.len(),
    {
        self.segments.len()
    }
}

/// An address inside a segment is served by that segment: an access that
/// the segment's flags grant finds the byte there, and any other access is
/// refused with `PermissionDenied`.
pub proof fn lemma_access_inside(mem: GuestView, i: int, gaddr: u64, access: MemAccess)
    requires
        mem.wf(),
        0 <= i < mem.segments.len(),
        mem.segments[i].contains(gaddr),
    ensures
        mem.segments[i].flags.allows(access) ==> mem.decompose(gaddr, access) == Ok::<int, Error>(i)
            && mem.load(gaddr, access) == Ok::<u8, Error>(mem.segments[i].byte(gaddr)),
        !mem.segments[i].flags.allows(access) ==> mem.load(gaddr, access) == Err::<u8, Error>(
            Error::PermissionDenied,
        ),
{
    lemma_index_of(mem, i, gaddr);
}

/// An address outside every segment is served by none: any access ends in
/// a fault at that address.
pub proof fn lemma_access_outside(mem: GuestView, gaddr: u64, access: MemAccess)
    requires
        forall|i: int| 0 <= i < mem.segments.len() ==> !(#[trigger] mem.segments[i]).contains(gaddr),
    ensures
        mem.load(gaddr, access) == Err::<u8, Error>(Error::MemAccessFault(access, gaddr)),
        mem.store(gaddr, 0).1 == Err::<(), Error>(Error::MemAccessFault(MemAccess::Write, gaddr)),
{
}

/// After a segment was added, every address of its page-aligned range is
/// served by it for every access that its flags grant.
pub proof fn lemma_added_segment_serves(
    mem: GuestView,
    gaddr_start: u64,
    len: usize,
    flags: MemFlags,
    init: Option<Seq<u8>>,
    gaddr: u64,
    access: MemAccess,
)
    requires
        mem.wf(),
        mem.check_segment(gaddr_start, len, init) is Ok,
        SegmentView::fresh(gaddr_start, len, flags, init).contains(gaddr),
        flags.allows(access),
    ensures
        ({
            let seg = SegmentView::fresh(gaddr_start, len, flags, init);
            let after = mem.with_segment(seg);
            &&& after.wf()
            &&& after.decompose(gaddr, access) matches Ok(i)
            &&& after.segments[i] == seg
            &&& after.load(gaddr, access) == Ok::<u8, Error>(
                SegmentView::fresh_byte(gaddr - gaddr_start, init),
            )
        }),
{
    let seg = SegmentView::fresh(gaddr_start, len, flags, init);
    let after = mem.with_segment(seg);
    lemma_fresh_wf(gaddr_start, len, flags, init);
    lemma_with_segment_wf(mem, seg);
    lemma_rank(mem, seg.m_gaddr_start);
    let p = rank(mem.segments, seg.m_gaddr_start);
    assert(after.segments[p] == seg);
    lemma_index_of(after, p, gaddr);
}

/// After a segment was added, every byte of its page-aligned range that
/// lies before its first address or behind its initial bytes reads as
/// zero.
pub proof fn lemma_added_segment_is_zero_filled(
    mem: GuestView,
    gaddr_start: u64,
    len: usize,
    flags: MemFlags,
    init: Option<Seq<u8>>,
    gaddr: u64,
)
    requires
        mem.wf(),
        mem.check_segment(gaddr_start, len, init) is Ok,
        SegmentView::fresh(gaddr_start, len, flags, init).contains(gaddr),
        flags.read,
        gaddr < gaddr_start || init is None || gaddr - gaddr_start >= init.unwrap().len(),
    ensures
        mem.with_segment(SegmentView::fresh(gaddr_start, len, flags, init)).load(
            gaddr,
            MemAccess::Read,
        ) == Ok::<u8, Error>(0),
{
    lemma_added_segment_serves(mem, gaddr_start, len, flags, init, gaddr, MemAccess::Read);
}

/// A write that succeeds is seen by a read of the same address, and no
/// access to another address sees any difference.
pub proof fn lemma_load_after_store(
    mem: GuestView,
    at: u64,
    value: u8,
    gaddr: u64,
    access: MemAccess,
)
    requires
        mem.wf(),
    ensures
        mem.store(at, value).0.load(gaddr, access) == if at == gaddr && mem.store(at, value).1 is Ok
            && mem.load(gaddr, access) is Ok {
            Ok::<u8, Error>(value)
        } else {
            mem.load(gaddr, access)
        },
{
    let after = mem.store(at, value).0;
    lemma_store_keeps_shape(mem, at, value);
    if mem.store(at, value).1 is Ok {
        let i = mem.index_of(at);
        assert(mem.segments[i].contains(at));
        if mem.mapped(gaddr) {
            let j = mem.index_of(gaddr);
            assert(mem.segments[j].contains(gaddr));
            assert(after.segments[j].contains(gaddr));
            lemma_index_of(after, j, gaddr);
            if at == gaddr {
                lemma_index_of(mem, i, gaddr);
            } else if i == j {
            }
        } else {
            if after.mapped(gaddr) {
                let j = after.index_of(gaddr);
                assert(after.segments[j].contains(gaddr));
                assert(mem.segments[j].contains(gaddr));
            }
        }
    }
}

/// A write to an address outside a range of bytes leaves what any access
/// finds in the range as it was.
pub proof fn lemma_load_bytes_after_store(
    mem: GuestView,
    at: u64,
    value: u8,
    gaddr: u64,
    n: nat,
    access: MemAccess,
)
    requires
        mem.wf(),
        gaddr + n <= u64::MAX,
        at < gaddr || at >= gaddr + n,
    ensures
        mem.store(at, value).0.load_bytes(gaddr, n, access) == mem.load_bytes(gaddr, n, access),
    decreases n,
{
    if n > 0 {
        lemma_load_bytes_after_store(mem, at, value, gaddr, (n - 1) as nat, access);
        lemma_load_after_store(mem, at, value, (gaddr + n - 1) as u64, access);
    }
}

/// Bytes written to a range inside one segment that grants reading and
/// writing are all written, and a read of the range gives them back.
pub proof fn lemma_store_load_bytes(mem: GuestView, i: int, gaddr: u64, bytes: Seq<u8>)
    requires
        mem.wf(),
        0 <= i < mem.segments.len(),
        mem.segments[i].flags.read,
        mem.segments[i].flags.write,
        mem.segments[i].m_gaddr_start <= gaddr,
        gaddr + bytes.len() <= mem.segments[i].m_gaddr_end,
    ensures
        mem.store_bytes(gaddr, bytes).1 is Ok,
        mem.store_bytes(gaddr, bytes).0.wf(),
        same_shape(mem, mem.store_bytes(gaddr, bytes).0),
        mem.store_bytes(gaddr, bytes).0.load_bytes(gaddr, bytes.len(), MemAccess::Read) == Ok::<
            Seq<u8>,
            Error,
        >(bytes),
    decreases bytes.len(),
{
    if bytes.len() == 0 {
        assert(bytes =~= Seq::<u8>::empty());
    } else {
        let n = bytes.len();
        let head = bytes.drop_last();
        lemma_store_load_bytes(mem, i, gaddr, head);
        let (m1, r1) = mem.store_bytes(gaddr, head);
        let at = (gaddr + n - 1) as u64;
        assert(m1.segments[i].contains(at));
        lemma_index_of(m1, i, at);
        lemma_store_keeps_shape(m1, at, bytes.last());
        let (m2, r2) = m1.store(at, bytes.last());
        assert(mem.store_bytes(gaddr, bytes) == (m2, r2));
        assert(m2.segments[i].contains(at));
        lemma_index_of(m2, i, at);
        lemma_load_bytes_after_store(m1, at, bytes.last(), gaddr, (n - 1) as nat, MemAccess::Read);
        lemma_load_after_store(m1, at, bytes.last(), at, MemAccess::Read);
        assert(head.push(bytes.last()) =~= bytes);
    }
}

/// A byte written inside a segment that grants reading and writing is
/// read back.
pub proof fn lemma_write_read_u8(mem: GuestView, i: int, gaddr: u64, value: u8)
    requires
        mem.wf(),
        0 <= i < mem.segments.len(),
        mem.segments[i].flags.read,
        mem.segments[i].flags.write,
        mem.segments[i].contains(gaddr),
    ensures
        mem.store(gaddr, value).1 is Ok,
        mem.store(gaddr, value).0.load(gaddr, MemAccess::Read) == Ok::<u8, Error>(value),
{
    lemma_index_of(mem, i, gaddr);
    lemma_load_after_store(mem, gaddr, value, gaddr, MemAccess::Read);
}

/// A halfword written inside a segment that grants reading and writing is
/// read back.
pub proof fn lemma_write_read_u16(mem: GuestView, i: int, gaddr: u64, value: u16)
    requires
        mem.wf(),
        0 <= i < mem.segments.len(),
        mem.segments[i].flags.read,
        mem.segments[i].flags.write,
        mem.segments[i].m_gaddr_start <= gaddr,
        gaddr + 2 <= mem.segments[i].m_gaddr_end,
    ensures
        mem.store_bytes(gaddr, le_bytes(value as int, 2)).1 is Ok,
        mem.store_bytes(gaddr, le_bytes(value as int, 2)).0.load_u16(gaddr, MemAccess::Read) == Ok::<
            u16,
            Error,
        >(value),
{
    lemma_store_load_bytes(mem, i, gaddr, le_bytes(value as int, 2));
    lemma_le_u16_round_trip(value);
}

/// A word written inside a segment that grants reading and writing is
/// read back.
pub proof fn lemma_write_read_u32(mem: GuestView, i: int, gaddr: u64, value: u32)
    requires
        mem.wf(),
        0 <= i < mem.segments.len(),
        mem.segments[i].flags.read,
        mem.segments[i].flags.write,
        mem.segments[i].m_gaddr_start <= gaddr,
        gaddr + 4 <= mem.segments[i].m_gaddr_end,
    ensures
        mem.store_bytes(gaddr, le_bytes(value as int, 4)).1 is Ok,
        mem.store_bytes(gaddr, le_bytes(value as int, 4)).0.load_u32(gaddr, MemAccess::Read) == Ok::<
            u32,
            Error,
        >(value),
{
    lemma_store_load_bytes(mem, i, gaddr, le_bytes(value as int, 4));
    lemma_le_u32_round_trip(value);
}

/// A doubleword written inside a segment that grants reading and writing
/// is read back.
pub proof fn lemma_write_read_u64(mem: GuestView, i: int, gaddr: u64, value: u64)
    requires
        mem.wf(),
        0 <= i < mem.segments.len(),
        mem.segments[i].flags.read,
        mem.segments[i].flags.write,
        mem.segments[i].m_gaddr_start <= gaddr,
        gaddr + 8 <= mem.segments[i].m_gaddr_end,
    ensures
        mem.store_bytes(gaddr, le_bytes(value as int, 8)).1 is Ok,
        mem.store_bytes(gaddr, le_bytes(value as int, 8)).0.load_u64(gaddr, MemAccess::Read) == Ok::<
            u64,
            Error,
        >(value),
{
    lemma_store_load_bytes(mem, i, gaddr, le_bytes(value as int, 8));
    lemma_le_u64_round_trip(value);
}

} // verus!
