//! The memory of a ring buffer: one page of bookkeeping, then the data region, mapped twice.

use crate::mpscbuf::error::MpscBufError;
use vstd::arithmetic::div_mod::*;
use vstd::arithmetic::power2::*;
use vstd::prelude::*;

verus! {

/// Whether `n` is a power of two.
pub open spec fn is_pow2(n: int) -> bool {
    exists|k: nat| n == #[trigger] pow2(k)
}

/// Tells whether `n` is a power of two.
pub fn is_power_of_two(n: usize) -> (r: bool)
    ensures
        r == is_pow2(n as int),
{
    let ghost n0: int = n as int;
    proof {
        lemma2_to64();
    }
    if n == 0 {
        assert forall|k: nat| 0 != #[trigger] pow2(k) by {
            lemma_pow2_pos(k);
        }
        return false;
    }
    let mut m: usize = n;
    let ghost mut shift: nat = 0;
    while m % 2 == 0
        invariant
            m > 0,
            n0 == m * pow2(shift),
        decreases m,
    {
        proof {
            lemma_pow2_unfold((shift + 1) as nat);
            let h: int = (m / 2) as int;
            assert(m == 2 * h);
            assert(2 * h * pow2(shift) == h * (2 * pow2(shift))) by (nonlinear_arith);
            shift = shift + 1;
        }
        m = m / 2;
    }
    proof {
        if m == 1 {
            assert(n0 == pow2(shift));
        } else {
            assert forall|k: nat| n0 != #[trigger] pow2(k) by {
                if n0 == pow2(k) {
                    lemma_pow2_pos(shift);
                    if k <= shift {
                        if k < shift {
                            lemma_pow2_strictly_increases(k, shift);
                        }
                        assert(m * pow2(shift) > pow2(shift)) by (nonlinear_arith)
                            requires
                                m > 1,
                                pow2(shift) > 0,
                        ;
                    } else {
                        let d: nat = (k - shift) as nat;
                        lemma_pow2_adds(d, shift);
                        assert(m == pow2(d)) by (nonlinear_arith)
                            requires
                                m * pow2(shift) == pow2(d) * pow2(shift),
                                pow2(shift) > 0,
                        ;
                        lemma_pow2_unfold(d);
                    }
                }
            }
        }
    }
    m == 1
}

/// Keeping the bits of `x` below a power of two is taking the remainder.
pub proof fn mask_is_remainder(x: u64, capacity: u64)
    requires
        is_pow2(capacity as int),
    ensures
        x & ((capacity - 1) as u64) == x % capacity,
        capacity > 0,
{
    let k = choose|k: nat| capacity == #[trigger] pow2(k);
    lemma2_to64();
    lemma_pow2_pos(k);
    if k >= 64 {
        if k > 64 {
            lemma_pow2_strictly_increases(64, k);
        }
    }
    vstd::bits::lemma_u64_low_bits_mask_is_mod(x, k);
    vstd::bits::lemma_low_bits_mask_values();
}

/// Sizes and offsets of the mapping of a ring buffer.
pub struct MemoryLayout {
    /// Bytes of the data region.
    pub data_size: usize,
    /// Bytes of the bookkeeping page in front of it.
    pub page_size: usize,
    /// Bytes of the backing file: the page and the data region.
    pub total_size: usize,
    /// Bytes of address space: the page and the data region twice.
    pub virtual_size: usize,
}

impl MemoryLayout {
    /// The sizes fit together.
    pub open spec fn wf(self) -> bool {
        &&& is_pow2(self.data_size as int)
        &&& self.page_size <= self.data_size
        &&& self.data_size > 0
        &&& self.total_size == self.page_size + self.data_size
        &&& self.virtual_size == self.page_size + 2 * self.data_size
    }

    /// The byte of the backing file that the address `addr` of the mapping reaches: the second
    /// mapping starts at `total_size` and shows the file from `page_size` on.
    pub open spec fn file_offset_spec(self, addr: int) -> int {
        if addr < self.total_size {
            addr
        } else {
            addr - self.total_size + self.page_size
        }
    }

    /// The byte of the backing file that the address `addr` of the mapping reaches.
    pub fn file_offset(&self, addr: usize) -> (offset: usize)
        requires
            self.wf(),
            addr < self.virtual_size,
        ensures
            offset == self.file_offset_spec(addr as int),
            offset < self.total_size,
    {
        if addr < self.total_size {
            addr
        } else {
            addr - self.total_size + self.page_size
        }
    }
}

/// Lays out a ring buffer with a data region of `data_size` bytes. The data region must be a
/// power of two and no smaller than a page.
pub fn plan_layout(data_size: usize, page_size: usize) -> (r: Result<MemoryLayout, MpscBufError>)
    requires
        is_pow2(data_size as int) && data_size >= page_size ==> page_size + 2 * data_size
            <= usize::MAX,
    ensures
        !is_pow2(data_size as int) <==> r == Err::<MemoryLayout, _>(
            MpscBufError::SizeNotAligned(data_size),
        ),
        is_pow2(data_size as int) && data_size < page_size <==> r == Err::<MemoryLayout, _>(
            MpscBufError::SizeTooSmall(page_size),
        ),
        r is Ok <==> is_pow2(data_size as int) && data_size >= page_size,
        r matches Ok(l) ==> l.wf() && l.data_size == data_size && l.page_size == page_size,
{
    if !is_power_of_two(data_size) {
        return Err(MpscBufError::SizeNotAligned(data_size));
    }
    if data_size < page_size {
        return Err(MpscBufError::SizeTooSmall(page_size));
    }
    proof {
        let k = choose|k: nat| data_size == #[trigger] pow2(k);
        lemma_pow2_pos(k);
    }
    Ok(
        MemoryLayout {
            data_size,
            page_size,
            total_size: data_size + page_size,
            virtual_size: page_size + 2 * data_size,
        },
    )
}

/// The memory of one ring buffer, addressed as the mapping is.
pub struct Memory {
    bytes: Vec<u8>,
    layout: MemoryLayout,
}

/// Two positions that lie `k` apart modulo `capacity` name the same byte where `k` is the
/// remainder of their distance.
proof fn same_slot(p: int, a: int, k: int, capacity: int)
    requires
        capacity > 0,
        0 <= k < capacity,
    ensures
        p % capacity == (a + k) % capacity <==> (p - a) % capacity == k,
{
    lemma_mod_equivalence(p, a + k, capacity);
    lemma_mod_equivalence(p - a, k, capacity);
    lemma_small_mod(k as nat, capacity as nat);
    assert(p - (a + k) == p - a - k);
}

impl Memory {
    pub closed spec fn wf(self) -> bool {
        &&& self.layout.wf()
        &&& self.bytes@.len() == self.layout.total_size
    }

    /// The contents of the backing file.
    pub closed spec fn file(self) -> Seq<u8> {
        self.bytes@
    }

    /// Bytes of the data region.
    pub closed spec fn capacity(self) -> int {
        self.layout.data_size as int
    }

    /// Bytes of the bookkeeping page.
    pub closed spec fn page(self) -> int {
        self.layout.page_size as int
    }

    /// The byte at the address `addr` of the mapping.
    pub closed spec fn at(self, addr: int) -> u8 {
        self.bytes@[self.layout.file_offset_spec(addr)]
    }

    /// The byte that position `p` of the endless stream of records has in the data region.
    pub open spec fn stream(self, p: int) -> u8 {
        self.at(self.page() + p % self.capacity())
    }

    /// `n` bytes of the stream from position `p` on.
    pub open spec fn range(self, p: int, n: int) -> Seq<u8> {
        Seq::new(n as nat, |k: int| self.stream(p + k))
    }

    /// Fresh memory, all zero, for a data region of `data_size` bytes.
    pub fn new(data_size: usize, page_size: usize) -> (r: Result<Memory, MpscBufError>)
        requires
            is_pow2(data_size as int) && data_size >= page_size ==> page_size + 2 * data_size
                <= usize::MAX,
        ensures
            !is_pow2(data_size as int) <==> r == Err::<Memory, _>(
                MpscBufError::SizeNotAligned(data_size),
            ),
            is_pow2(data_size as int) && data_size < page_size <==> r == Err::<Memory, _>(
                MpscBufError::SizeTooSmall(page_size),
            ),
            r is Ok <==> is_pow2(data_size as int) && data_size >= page_size,
            r matches Ok(m) ==> m.wf() && m.capacity() == data_size && m.page() == page_size
                && m.file() == Seq::new((data_size + page_size) as nat, |i: int| 0u8),
    {
        match plan_layout(data_size, page_size) {
            Ok(layout) => {
                let bytes: Vec<u8> = vec![0u8; layout.total_size];
                assert(bytes@ =~= Seq::new((data_size + page_size) as nat, |i: int| 0u8));
                Ok(Memory { bytes, layout })
            },
            Err(e) => Err(e),
        }
    }

    /// Address of the bookkeeping page.
    pub fn metadata_ptr(&self) -> (addr: usize)
        ensures
            addr == 0,
    {
        0
    }

    /// Address of the data region.
    pub fn data_ptr(&self) -> (addr: usize)
        ensures
            addr == self.page(),
    {
        self.layout.page_size
    }

    /// Bytes of the data region.
    pub fn data_size(&self) -> (size: usize)
        ensures
            size == self.capacity(),
    {
        self.layout.data_size
    }

    /// The byte at the address `addr`.
    pub fn read(&self, addr: usize) -> (b: u8)
        requires
            self.wf(),
            addr < self.page() + 2 * self.capacity(),
        ensures
            b == self.at(addr as int),
    {
        let offset: usize = self.layout.file_offset(addr);
        self.bytes[offset]
    }

    /// Writes `b` at the address `addr`. The address `capacity` further on, or back, shows it
    /// too where both lie in the two mappings of the data region; no other address does.
    pub fn write(&mut self, addr: usize, b: u8)
        requires
            old(self).wf(),
            addr < old(self).page() + 2 * old(self).capacity(),
        ensures
            final(self).wf(),
            final(self).capacity() == old(self).capacity(),
            final(self).page() == old(self).page(),
            forall|a: int|
                0 <= a < old(self).page() + 2 * old(self).capacity() ==> #[trigger] final(self).at(a)
                    == if a == addr || (a >= old(self).page() && addr >= old(self).page() && (a
                    == addr + old(self).capacity() || addr == a + old(self).capacity())) {
                    b
                } else {
                    old(self).at(a)
                },
    {
        let offset: usize = self.layout.file_offset(addr);
        self.bytes.set(offset, b);
    }

    /// Reads the `n` bytes of the stream from position `pos` on; `offset` is the position's
    /// place in the data region.
    pub(crate) fn read_range(&self, Ghost(pos): Ghost<int>, offset: usize, n: usize) -> (out: Vec<u8>)
        requires
            self.wf(),
            0 <= pos,
            offset == pos % self.capacity(),
            n <= self.capacity(),
        ensures
            out@ == self.range(pos, n as int),
    {
        let mut out: Vec<u8> = Vec::new();
        let mut k: usize = 0;
        while k < n
            invariant
                self.wf(),
                0 <= pos,
                0 <= offset < self.capacity(),
                offset == pos % self.capacity(),
                k <= n <= self.capacity(),
                out@ == self.range(pos, k as int),
            decreases n - k,
        {
            proof {
                self.lemma_stream_address(pos, offset as int, k as int);
            }
            let addr: usize = self.layout.page_size + offset + k;
            out.push(self.read(addr));
            k += 1;
            assert(out@ =~= self.range(pos, k as int));
        }
        out
    }

    /// Writes `bytes` into the stream from position `pos` on; `offset` is the position's place
    /// in the data region. No other position of the stream changes, up to whole turns.
    pub(crate) fn write_range(&mut self, Ghost(pos): Ghost<int>, offset: usize, bytes: &[u8])
        requires
            old(self).wf(),
            0 <= pos,
            offset == pos % old(self).capacity(),
            bytes@.len() <= old(self).capacity(),
        ensures
            final(self).wf(),
            final(self).capacity() == old(self).capacity(),
            final(self).page() == old(self).page(),
            forall|p: int| #[trigger]
                final(self).stream(p) == if (p - pos) % old(self).capacity() < bytes@.len() {
                    bytes@[(p - pos) % old(self).capacity()]
                } else {
                    old(self).stream(p)
                },
    {
        let ghost cap = self.capacity();
        let mut k: usize = 0;
        while k < bytes.len()
            invariant
                self.wf(),
                cap == self.capacity(),
                cap == old(self).capacity(),
                self.page() == old(self).page(),
                0 <= pos,
                cap > 0,
                0 <= offset < cap,
                offset == pos % cap,
                k <= bytes@.len() <= cap,
                forall|p: int| #[trigger]
                    self.stream(p) == if (p - pos) % cap < k {
                        bytes@[(p - pos) % cap]
                    } else {
                        old(self).stream(p)
                    },
            decreases bytes@.len() - k,
        {
            let ghost before = *self;
            proof {
                self.lemma_stream_address(pos, offset as int, k as int);
            }
            let addr: usize = self.layout.page_size + offset + k;
            self.write(addr, bytes[k]);
            proof {
                assert forall|p: int| #[trigger]
                    self.stream(p) == if (p - pos) % cap < k + 1 {
                        bytes@[(p - pos) % cap]
                    } else {
                        old(self).stream(p)
                    } by {
                    same_slot(p, pos, k as int, cap);
                    lemma_mod_bound(p, cap);
                    lemma_mod_bound(p - pos, cap);
                    lemma_mod_bound(pos + k, cap);
                    lemma_add_mod_noop(pos, k as int, cap);
                    lemma_small_mod(k as nat, cap as nat);
                    self.lemma_wrap(offset + k);
                    assert(before.stream(p) == if (p - pos) % cap < k {
                        bytes@[(p - pos) % cap]
                    } else {
                        old(self).stream(p)
                    });
                }
            }
            k += 1;
        }
    }

    /// Where an address in the two mappings of the data region lands in the first one.
    proof fn lemma_wrap(self, o: int)
        requires
            self.wf(),
            0 <= o < 2 * self.capacity(),
        ensures
            o % self.capacity() == if o < self.capacity() {
                o
            } else {
                o - self.capacity()
            },
    {
        let cap = self.capacity();
        if o < cap {
            lemma_small_mod(o as nat, cap as nat);
        } else {
            lemma_mod_add_multiples_vanish(o - cap, cap);
            lemma_small_mod((o - cap) as nat, cap as nat);
        }
    }

    proof fn lemma_stream_address(self, pos: int, offset: int, k: int)
        requires
            self.wf(),
            0 <= pos,
            offset == pos % self.capacity(),
            0 <= k < self.capacity(),
        ensures
            0 <= offset < self.capacity(),
            self.page() + offset + k < self.page() + 2 * self.capacity() <= usize::MAX,
            self.stream(pos + k) == self.at(self.page() + offset + k),
    {
        let cap = self.capacity();
        lemma_mod_bound(pos, cap);
        self.lemma_wrap(offset + k);
        lemma_add_mod_noop(pos, k, cap);
        lemma_small_mod(k as nat, cap as nat);
        lemma_mod_bound(pos + k, cap);
    }
}

/// A write into the stream is read back, and leaves the ranges next to it as they were: those
/// that end where it starts or start where it ends, within one turn of the ring.
pub proof fn write_range_frame(before: Memory, after: Memory, pos: int, bytes: Seq<u8>)
    requires
        before.capacity() == after.capacity(),
        before.capacity() > 0,
        bytes.len() <= before.capacity(),
        forall|p: int| #[trigger]
            after.stream(p) == if (p - pos) % before.capacity() < bytes.len() {
                bytes[(p - pos) % before.capacity()]
            } else {
                before.stream(p)
            },
    ensures
        after.range(pos, bytes.len() as int) == bytes,
        forall|q: int, n: int|
            #![trigger after.range(q, n)]
            0 <= n && ((q + n <= pos && pos + bytes.len() <= q + before.capacity()) || (pos
                + bytes.len() <= q && q + n <= pos + before.capacity())) ==> after.range(q, n)
                == before.range(q, n),
{
    let cap = before.capacity();
    assert forall|k: int| 0 <= k < bytes.len() implies #[trigger] after.stream(pos + k)
        == bytes[k] by {
        lemma_small_mod(k as nat, cap as nat);
    }
    assert(after.range(pos, bytes.len() as int) =~= bytes);
    assert forall|q: int, n: int|
        #![trigger after.range(q, n)]
        0 <= n && ((q + n <= pos && pos + bytes.len() <= q + cap) || (pos + bytes.len() <= q && q
            + n <= pos + cap)) implies after.range(q, n) == before.range(q, n) by {
        assert forall|k: int| 0 <= k < n implies #[trigger] after.stream(q + k) == before.stream(
            q + k,
        ) by {
            let d = q + k - pos;
            if d < 0 {
                lemma_mod_add_multiples_vanish(d, cap);
                lemma_small_mod((d + cap) as nat, cap as nat);
            } else {
                lemma_small_mod(d as nat, cap as nat);
            }
        }
        assert(after.range(q, n) =~= before.range(q, n));
    }
}

} // verus!
