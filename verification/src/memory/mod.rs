//! Guest memory: mapped segments, page arithmetic and the program break.
//!
//! Each mapping is a segment of bytes at a guest address. Segments are kept in the
//! order they were mapped and may overlap; an access goes to the first segment (in
//! that order) that holds the address it starts at.

use vstd::prelude::*;
use crate::text::{concat, hex_text, dec_text, hex_text_spec, dec_text_spec};
use crate::Error;

verus! {

pub const PAGE_SIZE: usize = 4096;

/// Page may be read.
pub const PROT_READ: u32 = 1;
/// Page may be written.
pub const PROT_WRITE: u32 = 2;
/// Page may be executed.
pub const PROT_EXEC: u32 = 4;

/// Guest address of the first mapping placed by the manager itself.
pub const MMAP_BASE: u64 = 0x7000_0000_0000;

/// Rounds an address down to its page boundary.
pub fn align_down_page(addr: u64) -> (r: u64)
    ensures
        r == addr - addr % 4096,
        r % 4096 == 0,
{
    let r = addr & !0xfffu64;
    assert(addr & !0xfffu64 == addr - addr % 4096) by (bit_vector);
    assert((addr - addr % 4096) % 4096 == 0) by (nonlinear_arith);
    r
}

/// Rounds an address up to the next page boundary (an aligned address stays).
pub fn align_up_page(addr: u64) -> (r: u64)
    requires
        addr <= u64::MAX - 4095,
    ensures
        r == align_up_spec(addr as int),
        r % 4096 == 0,
        addr <= r < addr + 4096,
        addr % 4096 == 0 ==> r == addr,
{
    let s = addr + 4095;
    let r = s & !0xfffu64;
    assert(s & !0xfffu64 == s - s % 4096) by (bit_vector);
    assert((s - s % 4096) % 4096 == 0) by (nonlinear_arith);
    assert(addr % 4096 == 0 ==> (addr + 4095) % 4096 == 4095) by (nonlinear_arith);
    r
}

/// The page-aligned address at or above `a`.
pub open spec fn align_up_spec(a: int) -> int {
    (a + 4095) - (a + 4095) % 4096
}

/// What a segment holds, as a mathematical value.
pub ghost struct SegView {
    pub addr: int,
    pub bytes: Seq<u8>,
    pub prot: u32,
}

/// One mapping of guest memory.
pub struct MemorySegment {
    pub addr: u64,
    pub size: usize,
    pub prot: u32,
    pub data: Vec<u8>,
}

impl MemorySegment {
    pub open spec fn view_seg(&self) -> SegView {
        SegView { addr: self.addr as int, bytes: self.data@, prot: self.prot }
    }

    /// The segment holds `size` bytes and ends within the address space.
    pub open spec fn wf(&self) -> bool {
        &&& self.data@.len() == self.size
        &&& self.addr + self.size <= u64::MAX
    }

    /// Stores `data[from..from + n]` at offset `off`.
    fn store(&mut self, off: usize, data: &[u8], from: usize, n: usize)
        requires
            old(self).data@.len() == old(self).size,
            off + n <= old(self).size,
            from + n <= data@.len(),
            from + n <= usize::MAX,
        ensures
            final(self).view_seg() == store_bytes(old(self).view_seg(), off as int, data@.subrange(from as int, from + n)),
            final(self).addr == old(self).addr,
            final(self).size == old(self).size,
            final(self).prot == old(self).prot,
            final(self).data@.len() == old(self).data@.len(),
    {
        let ghost old_data = self.data@;
        let mut k: usize = 0;
        while k < n
            invariant
                0 <= k <= n,
                off + n <= old_data.len(),
                from + n <= data@.len(),
                off + n <= usize::MAX,
                from + n <= usize::MAX,
                self.data@.len() == old_data.len(),
                self.addr == old(self).addr,
                self.size == old(self).size,
                self.prot == old(self).prot,
                old_data == old(self).data@,
                forall|i: int| 0 <= i < off || off + k <= i < old_data.len() ==> self.data@[i] == old_data[i],
                forall|i: int| off <= i < off + k ==> self.data@[i] == data@[from + (i - off)],
            decreases n - k,
        {
            self.data.set(off + k, data[from + k]);
            k = k + 1;
        }
        assert(self.data@ =~= old_data.subrange(0, off as int) + data@.subrange(from as int, from + n)
            + old_data.subrange(off + n, old_data.len() as int));
    }

    /// The bytes of the segment.
    pub fn as_slice(&self) -> (r: &[u8])
        ensures
            r@ == self.view_seg().bytes,
    {
        self.data.as_slice()
    }

    /// The bytes of the segment, to be changed in place.
    pub fn as_mut_slice(&mut self) -> (r: &mut [u8])
        ensures
            r@ == old(self).data@,
            final(r)@ == final(self).data@,
            final(self).addr == old(self).addr,
            final(self).size == old(self).size,
            final(self).prot == old(self).prot,
    {
        self.data.as_mut_slice()
    }
}

/// Address `a` lies in segment `s`.
pub open spec fn contains(s: SegView, a: int) -> bool {
    s.addr <= a < s.addr + s.bytes.len()
}

/// The first segment at or after index `i` that holds address `a`.
pub open spec fn find_seg_from(segs: Seq<SegView>, a: int, i: int) -> Option<int>
    decreases segs.len() - i,
{
    if i < 0 || i >= segs.len() {
        None
    } else if contains(segs[i], a) {
        Some(i)
    } else {
        find_seg_from(segs, a, i + 1)
    }
}

/// The first segment that holds address `a`.
pub open spec fn find_seg(segs: Seq<SegView>, a: int) -> Option<int> {
    find_seg_from(segs, a, 0)
}

/// The whole range `[a, a + len)` lies in segment `s`.
pub open spec fn covers(s: SegView, a: int, len: int) -> bool {
    s.addr <= a && a + len <= s.addr + s.bytes.len()
}

/// The first segment at or after index `i` that holds the whole range.
pub open spec fn find_cover_from(segs: Seq<SegView>, a: int, len: int, i: int) -> Option<int>
    decreases segs.len() - i,
{
    if i < 0 || i >= segs.len() {
        None
    } else if covers(segs[i], a, len) {
        Some(i)
    } else {
        find_cover_from(segs, a, len, i + 1)
    }
}

/// The byte a one-byte access at `a` sees.
pub open spec fn byte_at(segs: Seq<SegView>, a: int) -> Option<u8> {
    match find_seg(segs, a) {
        Some(j) => Some(segs[j].bytes[a - segs[j].addr]),
        None => None,
    }
}

/// How many bytes of a `rem`-byte access at `cur` the segment `s` (which holds `cur`) takes.
pub open spec fn chunk_len(s: SegView, cur: int, rem: int) -> int {
    let avail = s.addr + s.bytes.len() - cur;
    if rem < avail {
        rem
    } else {
        avail
    }
}

/// A read that walks the range piecewise: each piece comes from the first segment
/// holding the piece's start, up to that segment's end.
pub open spec fn chunk_read(segs: Seq<SegView>, cur: int, rem: nat) -> Option<Seq<u8>>
    decreases rem,
{
    if rem == 0 {
        Some(Seq::empty())
    } else {
        match find_seg(segs, cur) {
            None => None,
            Some(j) => {
                let s = segs[j];
                let n = chunk_len(s, cur, rem as int);
                if n <= 0 {
                    None
                } else {
                    let off = cur - s.addr;
                    match chunk_read(segs, cur + n, (rem - n) as nat) {
                        None => None,
                        Some(rest) => Some(s.bytes.subrange(off, off + n) + rest),
                    }
                }
            }
        }
    }
}

/// What `read(addr, len)` gives: nothing for an empty range; else the slice of the
/// first segment holding the whole range; else the piecewise read. `None` is a fault.
pub open spec fn read_spec(segs: Seq<SegView>, addr: int, len: nat) -> Option<Seq<u8>> {
    if len == 0 {
        Some(Seq::empty())
    } else if addr + len > u64::MAX {
        None
    } else {
        match find_cover_from(segs, addr, len as int, 0) {
            Some(j) => {
                let off = addr - segs[j].addr;
                Some(segs[j].bytes.subrange(off, off + len))
            },
            None => chunk_read(segs, addr, len),
        }
    }
}

/// Segment `s` with `data` stored at offset `off`.
pub open spec fn store_bytes(s: SegView, off: int, data: Seq<u8>) -> SegView {
    SegView {
        bytes: s.bytes.subrange(0, off) + data + s.bytes.subrange(off + data.len(), s.bytes.len() as int),
        ..s
    }
}

/// A write that walks the range piecewise, storing each piece into the first segment
/// holding its start. Gives the segments after the write and whether the whole range
/// was stored (a fault leaves the pieces already stored in place).
pub open spec fn chunk_write(segs: Seq<SegView>, cur: int, data: Seq<u8>) -> (Seq<SegView>, bool)
    decreases data.len(),
{
    if data.len() == 0 {
        (segs, true)
    } else {
        match find_seg(segs, cur) {
            None => (segs, false),
            Some(j) => {
                let s = segs[j];
                let n = chunk_len(s, cur, data.len() as int);
                if n <= 0 {
                    (segs, false)
                } else {
                    let off = cur - s.addr;
                    let segs2 = segs.update(j, store_bytes(s, off, data.subrange(0, n)));
                    chunk_write(segs2, cur + n, data.subrange(n, data.len() as int))
                }
            }
        }
    }
}

/// The text `[0x<start>..0x<end>]` describing one segment.
pub open spec fn seg_range_text(s: SegView) -> Seq<char> {
    "["@ + hex_text_spec(s.addr as nat) + ".."@ + hex_text_spec((s.addr + s.bytes.len()) as nat) + "]"@
}

/// The segment descriptions joined with `, `.
pub open spec fn segs_text(segs: Seq<SegView>) -> Seq<char>
    decreases segs.len(),
{
    if segs.len() == 0 {
        Seq::empty()
    } else if segs.len() == 1 {
        seg_range_text(segs[0])
    } else {
        segs_text(segs.drop_last()) + ", "@ + seg_range_text(segs.last())
    }
}

/// The message of a fault on an access of `len` bytes at `addr`.
pub open spec fn bounds_message(segs: Seq<SegView>, addr: u64, len: nat) -> Seq<char> {
    "Address "@ + hex_text_spec(addr as nat) + " (len "@ + dec_text_spec(len) + ") out of mapped bounds. Segments: "@
        + segs_text(segs)
}

/// Error `e` is a memory error with message `m`.
pub open spec fn is_memory_error(e: Error, m: Seq<char>) -> bool {
    match e {
        Error::MemoryError(s) => s@ == m,
        _ => false,
    }
}

/// What the search for the first segment holding an address finds.
pub proof fn lemma_find_seg_from(segs: Seq<SegView>, a: int, i: int)
    requires
        0 <= i,
    ensures
        match find_seg_from(segs, a, i) {
            Some(j) => i <= j < segs.len() && contains(segs[j], a) && forall|k: int|
                i <= k < j ==> !contains(#[trigger] segs[k], a),
            None => forall|k: int| i <= k < segs.len() ==> !contains(#[trigger] segs[k], a),
        },
    decreases segs.len() - i,
{
    if i < segs.len() && !contains(segs[i], a) {
        lemma_find_seg_from(segs, a, i + 1);
    }
}

/// What the search for the first segment holding a whole range finds.
pub proof fn lemma_find_cover_from(segs: Seq<SegView>, a: int, len: int, i: int)
    requires
        0 <= i,
    ensures
        match find_cover_from(segs, a, len, i) {
            Some(j) => i <= j < segs.len() && covers(segs[j], a, len) && forall|k: int|
                i <= k < j ==> !covers(#[trigger] segs[k], a, len),
            None => forall|k: int| i <= k < segs.len() ==> !covers(#[trigger] segs[k], a, len),
        },
    decreases segs.len() - i,
{
    if i < segs.len() && !covers(segs[i], a, len) {
        lemma_find_cover_from(segs, a, len, i + 1);
    }
}

/// No address lies in two segments.
pub open spec fn disjoint(segs: Seq<SegView>) -> bool {
    forall|i: int, j: int, a: int|
        0 <= i < segs.len() && 0 <= j < segs.len() && i != j && #[trigger] contains(segs[i], a)
            ==> !#[trigger] contains(segs[j], a)
}

/// Every segment ends within the address space.
pub open spec fn bounded(segs: Seq<SegView>) -> bool {
    forall|i: int| 0 <= i < segs.len() ==> 0 <= (#[trigger] segs[i]).addr && segs[i].addr + segs[i].bytes.len() <= u64::MAX
}

/// Two segment lists agree on where each segment lies, how long it is and how it is protected.
pub open spec fn same_shape(s1: Seq<SegView>, s2: Seq<SegView>) -> bool {
    &&& s1.len() == s2.len()
    &&& forall|i: int| 0 <= i < s1.len() ==> (#[trigger] s1[i]).addr == s2[i].addr
        && s1[i].bytes.len() == s2[i].bytes.len() && s1[i].prot == s2[i].prot
}

/// Disjointness depends only on where segments lie and how long they are.
pub proof fn lemma_shape_disjoint(s1: Seq<SegView>, s2: Seq<SegView>)
    requires
        same_shape(s1, s2),
        disjoint(s1),
    ensures
        disjoint(s2),
{
    assert forall|i: int, k: int, a: int|
        0 <= i < s2.len() && 0 <= k < s2.len() && i != k && #[trigger] contains(s2[i], a)
        implies !#[trigger] contains(s2[k], a) by {
        assert(s1[i].addr == s2[i].addr && s1[i].bytes.len() == s2[i].bytes.len());
        assert(s1[k].addr == s2[k].addr && s1[k].bytes.len() == s2[k].bytes.len());
        assert(contains(s1[i], a));
        assert(!contains(s1[k], a));
    }
}

/// Storing a piece that fits keeps the segment's place and length.
pub proof fn lemma_store_shape(s: SegView, off: int, d: Seq<u8>)
    requires
        0 <= off,
        off + d.len() <= s.bytes.len(),
    ensures
        store_bytes(s, off, d).bytes.len() == s.bytes.len(),
        store_bytes(s, off, d).addr == s.addr,
        store_bytes(s, off, d).prot == s.prot,
        forall|o: int| 0 <= o < s.bytes.len() && !(off <= o < off + d.len()) ==> #[trigger] store_bytes(s, off, d).bytes[o] == s.bytes[o],
        forall|o: int| off <= o < off + d.len() ==> #[trigger] store_bytes(s, off, d).bytes[o] == d[o - off],
{
}

/// With disjoint segments, the segment holding an address is the one an access finds.
pub proof fn lemma_disjoint_find(segs: Seq<SegView>, j: int, a: int)
    requires
        disjoint(segs),
        0 <= j < segs.len(),
        contains(segs[j], a),
    ensures
        find_seg(segs, a) == Some(j),
        byte_at(segs, a) == Some(segs[j].bytes[a - segs[j].addr]),
{
    lemma_find_seg_from(segs, a, 0);
    match find_seg(segs, a) {
        Some(k) => {
            if k != j {
                assert(contains(segs[k], a));
            }
        },
        None => {
            assert(!contains(segs[j], a));
        },
    }
}

/// A piecewise write changes only the bytes of the range it writes, and never where
/// segments lie or how long they are.
pub proof fn lemma_chunk_write_frame(segs: Seq<SegView>, cur: int, d: Seq<u8>)
    ensures
        same_shape(segs, chunk_write(segs, cur, d).0),
        forall|i: int, o: int|
            0 <= i < segs.len() && 0 <= o < segs[i].bytes.len() && !(cur <= segs[i].addr + o < cur + d.len())
                ==> (#[trigger] chunk_write(segs, cur, d).0[i].bytes[o]) == segs[i].bytes[o],
    decreases d.len(),
{
    if d.len() > 0 {
        lemma_find_seg_from(segs, cur, 0);
        match find_seg(segs, cur) {
            None => {},
            Some(j) => {
                let s = segs[j];
                let n = chunk_len(s, cur, d.len() as int);
                if n > 0 {
                    let off = cur - s.addr;
                    lemma_store_shape(s, off, d.subrange(0, n));
                    let segs2 = segs.update(j, store_bytes(s, off, d.subrange(0, n)));
                    let d2 = d.subrange(n, d.len() as int);
                    lemma_chunk_write_frame(segs2, cur + n, d2);
                    assert(same_shape(segs, segs2));
                    let fin = chunk_write(segs2, cur + n, d2).0;
                    assert(chunk_write(segs, cur, d).0 == fin);
                    assert forall|i: int, o: int|
                        0 <= i < segs.len() && 0 <= o < segs[i].bytes.len() && !(cur <= segs[i].addr + o < cur + d.len())
                        implies (#[trigger] chunk_write(segs, cur, d).0[i].bytes[o]) == segs[i].bytes[o] by {
                        assert(segs2[i].bytes.len() == segs[i].bytes.len());
                        assert(segs2[i].addr == segs[i].addr);
                        assert(!(cur + n <= segs2[i].addr + o < cur + n + d2.len()));
                        assert(fin[i].bytes[o] == segs2[i].bytes[o]);
                        if i == j {
                            assert(!(off <= o < off + n));
                        }
                    }
                }
            },
        }
    }
}

/// With disjoint segments, a complete piecewise write leaves each address of its range
/// holding the byte written there.
pub proof fn lemma_chunk_write_content(segs: Seq<SegView>, cur: int, d: Seq<u8>)
    requires
        disjoint(segs),
        chunk_write(segs, cur, d).1,
    ensures
        forall|a: int| cur <= a < cur + d.len() ==> #[trigger] byte_at(chunk_write(segs, cur, d).0, a) == Some(d[a - cur]),
    decreases d.len(),
{
    if d.len() > 0 {
        lemma_find_seg_from(segs, cur, 0);
        let j = find_seg(segs, cur).unwrap();
        let s = segs[j];
        let n = chunk_len(s, cur, d.len() as int);
        let off = cur - s.addr;
        lemma_store_shape(s, off, d.subrange(0, n));
        let segs2 = segs.update(j, store_bytes(s, off, d.subrange(0, n)));
        let d2 = d.subrange(n, d.len() as int);
        let fin = chunk_write(segs2, cur + n, d2).0;
        assert(same_shape(segs, segs2));
        lemma_shape_disjoint(segs, segs2);
        lemma_chunk_write_content(segs2, cur + n, d2);
        lemma_chunk_write_frame(segs2, cur + n, d2);
        lemma_shape_disjoint(segs2, fin);
        assert forall|a: int| cur <= a < cur + d.len() implies #[trigger] byte_at(chunk_write(segs, cur, d).0, a) == Some(d[a - cur]) by {
            assert(chunk_write(segs, cur, d).0 == fin);
            if a < cur + n {
                assert(contains(fin[j], a));
                lemma_disjoint_find(fin, j, a);
                assert(fin[j].bytes[a - s.addr] == segs2[j].bytes[a - s.addr]);
            } else {
                assert(d2[a - (cur + n)] == d[a - cur]);
            }
        }
    }
}

/// With disjoint segments, a piecewise read of a range returns the bytes its addresses hold.
pub proof fn lemma_chunk_read_content(segs: Seq<SegView>, cur: int, d: Seq<u8>)
    requires
        disjoint(segs),
        forall|a: int| cur <= a < cur + d.len() ==> #[trigger] byte_at(segs, a) == Some(d[a - cur]),
    ensures
        chunk_read(segs, cur, d.len()) == Some(d),
    decreases d.len(),
{
    if d.len() == 0 {
        assert(d =~= Seq::<u8>::empty());
    } else {
        assert(byte_at(segs, cur) == Some(d[0]));
        lemma_find_seg_from(segs, cur, 0);
        let j = find_seg(segs, cur).unwrap();
        let s = segs[j];
        let n = chunk_len(s, cur, d.len() as int);
        let off = cur - s.addr;
        let d2 = d.subrange(n, d.len() as int);
        assert forall|a: int| cur + n <= a < cur + n + d2.len() implies #[trigger] byte_at(segs, a) == Some(d2[a - (cur + n)]) by {
            assert(byte_at(segs, a) == Some(d[a - cur]));
        }
        lemma_chunk_read_content(segs, cur + n, d2);
        assert(s.bytes.subrange(off, off + n) =~= d.subrange(0, n)) by {
            assert forall|k: int| 0 <= k < n implies s.bytes.subrange(off, off + n)[k] == d.subrange(0, n)[k] by {
                assert(contains(s, cur + k));
                lemma_disjoint_find(segs, j, cur + k);
                assert(byte_at(segs, cur + k) == Some(d[k]));
            }
        }
        assert(d.subrange(0, n) + d2 =~= d);
    }
}

/// With disjoint segments, `read` of a range returns the bytes its addresses hold.
pub proof fn lemma_read_content(segs: Seq<SegView>, addr: int, d: Seq<u8>)
    requires
        disjoint(segs),
        addr + d.len() <= u64::MAX,
        forall|a: int| addr <= a < addr + d.len() ==> #[trigger] byte_at(segs, a) == Some(d[a - addr]),
    ensures
        read_spec(segs, addr, d.len()) == Some(d),
{
    if d.len() == 0 {
        assert(d =~= Seq::<u8>::empty());
    } else {
        lemma_find_cover_from(segs, addr, d.len() as int, 0);
        match find_cover_from(segs, addr, d.len() as int, 0) {
            Some(j) => {
                let s = segs[j];
                let off = addr - s.addr;
                assert(s.bytes.subrange(off, off + d.len()) =~= d) by {
                    assert forall|k: int| 0 <= k < d.len() implies s.bytes.subrange(off, off + d.len())[k] == d[k] by {
                        assert(contains(s, addr + k));
                        lemma_disjoint_find(segs, j, addr + k);
                        assert(byte_at(segs, addr + k) == Some(d[k]));
                    }
                }
            },
            None => {
                lemma_chunk_read_content(segs, addr, d);
            },
        }
    }
}

/// A piecewise read that succeeds gives as many bytes as were asked for.
pub proof fn lemma_chunk_read_len(segs: Seq<SegView>, cur: int, rem: nat)
    ensures
        chunk_read(segs, cur, rem) matches Some(v) ==> v.len() == rem,
    decreases rem,
{
    if rem > 0 {
        lemma_find_seg_from(segs, cur, 0);
        match find_seg(segs, cur) {
            Some(j) => {
                let n = chunk_len(segs[j], cur, rem as int);
                if n > 0 {
                    lemma_chunk_read_len(segs, cur + n, (rem - n) as nat);
                }
            },
            None => {},
        }
    }
}

/// A read that succeeds gives as many bytes as were asked for.
pub proof fn lemma_read_len(segs: Seq<SegView>, addr: int, len: nat)
    ensures
        read_spec(segs, addr, len) matches Some(v) ==> v.len() == len,
{
    if len > 0 && addr + len <= u64::MAX {
        lemma_find_cover_from(segs, addr, len as int, 0);
        if find_cover_from(segs, addr, len as int, 0) is None {
            lemma_chunk_read_len(segs, addr, len);
        }
    }
}

/// Law: when no two segments overlap, reading a range right after a successful write
/// of `data` there gives back `data`.
pub proof fn law_read_after_write(segs: Seq<SegView>, addr: int, data: Seq<u8>)
    requires
        disjoint(segs),
        bounded(segs),
        0 <= addr,
        chunk_write(segs, addr, data).1,
    ensures
        read_spec(chunk_write(segs, addr, data).0, addr, data.len()) == Some(data),
{
    let fin = chunk_write(segs, addr, data).0;
    lemma_chunk_write_frame(segs, addr, data);
    lemma_chunk_write_content(segs, addr, data);
    lemma_shape_disjoint(segs, fin);
    if data.len() > 0 {
        let last = addr + data.len() - 1;
        assert(byte_at(fin, last) == Some(data[last - addr]));
        lemma_find_seg_from(fin, last, 0);
        let j = find_seg(fin, last).unwrap();
        assert(segs[j].addr + segs[j].bytes.len() <= u64::MAX);
        assert(fin[j].addr == segs[j].addr && fin[j].bytes.len() == segs[j].bytes.len());
        assert(contains(fin[j], last));
        assert(addr + data.len() <= u64::MAX);
        lemma_read_content(fin, addr, data);
    } else {
        assert(data =~= Seq::<u8>::empty());
    }
}

/// The search for the segment holding an address sees only where segments lie.
proof fn lemma_find_shape(s1: Seq<SegView>, s2: Seq<SegView>, a: int, i: int)
    requires
        same_shape(s1, s2),
        0 <= i,
    ensures
        find_seg_from(s1, a, i) == find_seg_from(s2, a, i),
    decreases s1.len() - i,
{
    if i < s1.len() {
        assert(s1[i].addr == s2[i].addr && s1[i].bytes.len() == s2[i].bytes.len());
        lemma_find_shape(s1, s2, a, i + 1);
    }
}

/// Law: a write, whole or cut short by a fault, leaves every byte outside its range as
/// it was.
pub proof fn law_write_frame(segs: Seq<SegView>, addr: int, data: Seq<u8>, a: int)
    requires
        !(addr <= a < addr + data.len()),
    ensures
        byte_at(chunk_write(segs, addr, data).0, a) == byte_at(segs, a),
{
    let fin = chunk_write(segs, addr, data).0;
    lemma_chunk_write_frame(segs, addr, data);
    lemma_find_shape(segs, fin, a, 0);
    lemma_find_seg_from(segs, a, 0);
    match find_seg(segs, a) {
        Some(j) => {
            assert(fin[j].bytes[a - fin[j].addr] == segs[j].bytes[a - segs[j].addr]);
        },
        None => {},
    }
}

/// `size` zero bytes.
pub open spec fn zeros(size: nat) -> Seq<u8> {
    Seq::new(size, |i: int| 0u8)
}

/// The outcome of mapping `size` bytes at `target` (or, for target zero, at the
/// manager's own cursor `cursor`): the new segments, the new cursor and the address of
/// the mapping; `None` when the mapping is refused.
pub open spec fn map_effect(segs: Seq<SegView>, cursor: u64, target: u64, size: nat, prot: u32) -> Option<(Seq<SegView>, u64, u64)> {
    let base = if target != 0 { target } else { cursor };
    if size == 0 || base + size > u64::MAX || (target == 0 && base + size > u64::MAX - 4095) {
        None
    } else {
        let seg = SegView { addr: base as int, bytes: zeros(size), prot };
        let cursor2 = if target == 0 { align_up_spec(base + size) as u64 } else { cursor };
        Some((segs.push(seg), cursor2, base))
    }
}

/// Law: when the new mapping overlaps no other, reading it right after it was made
/// gives `size` zero bytes.
pub proof fn law_fresh_mapping_reads_zero(segs: Seq<SegView>, cursor: u64, target: u64, size: nat, prot: u32)
    requires
        map_effect(segs, cursor, target, size, prot) is Some,
        disjoint(map_effect(segs, cursor, target, size, prot).unwrap().0),
    ensures
        read_spec(map_effect(segs, cursor, target, size, prot).unwrap().0, map_effect(segs, cursor, target, size, prot).unwrap().2 as int, size)
            == Some(zeros(size)),
{
    let (segs2, _, base) = map_effect(segs, cursor, target, size, prot)->0;
    let j = segs.len() as int;
    assert(segs2[j].bytes == zeros(size));
    assert forall|a: int| base <= a < base + size implies #[trigger] byte_at(segs2, a) == Some(zeros(size)[a - base]) by {
        assert(contains(segs2[j], a));
        lemma_disjoint_find(segs2, j, a);
    }
    lemma_read_content(segs2, base as int, zeros(size));
}

/// The message a refused mapping reports.
pub open spec fn map_refusal_message(size: nat) -> Seq<char> {
    if size == 0 {
        "Size cannot be zero"@
    } else {
        "ENOMEM: Cannot allocate memory"@
    }
}

/// The first segment at or after `i` that starts at `a` and holds at least `size` bytes.
pub open spec fn find_prot_seg_from(segs: Seq<SegView>, a: int, size: int, i: int) -> Option<int>
    decreases segs.len() - i,
{
    if i < 0 || i >= segs.len() {
        None
    } else if segs[i].addr == a && segs[i].bytes.len() >= size {
        Some(i)
    } else {
        find_prot_seg_from(segs, a, size, i + 1)
    }
}

/// The first segment at or after `i` that starts at `a`.
pub open spec fn find_start_from(segs: Seq<SegView>, a: int, i: int) -> Option<int>
    decreases segs.len() - i,
{
    if i < 0 || i >= segs.len() {
        None
    } else if segs[i].addr == a {
        Some(i)
    } else {
        find_start_from(segs, a, i + 1)
    }
}

/// The page range `[align_down(addr), align_up(addr + size))` as start and length.
pub open spec fn page_span(addr: u64, size: u64) -> (int, int) {
    let start = addr - addr % 4096;
    (start, align_up_spec(addr + size) - start)
}

/// The search for a segment starting at `a` past the segments it has already passed.
proof fn lemma_find_start_push(segs: Seq<SegView>, seg: SegView, a: int, i: int)
    requires
        0 <= i <= segs.len(),
        find_start_from(segs, a, i) is None,
        seg.addr == a,
    ensures
        find_start_from(segs.push(seg), a, i) == Some(segs.len() as int),
    decreases segs.len() - i,
{
    if i < segs.len() {
        assert(segs.push(seg)[i] == segs[i]);
        lemma_find_start_push(segs, seg, a, i + 1);
    }
}

/// Law: unmapping a fresh page-aligned mapping at a fixed address, where no other
/// segment starts, removes exactly that mapping: `munmap` finds it, its page range is
/// not empty, and the segments left are those from before the mapping.
pub proof fn law_unmap_undoes_map(segs: Seq<SegView>, cursor: u64, target: u64, size: nat, prot: u32)
    requires
        target != 0,
        target % 4096 == 0,
        map_effect(segs, cursor, target, size, prot) is Some,
        find_start_from(segs, target as int, 0) is None,
        target + size <= u64::MAX - 4095,
    ensures
        page_span(target, size as u64).0 == target,
        page_span(target, size as u64).1 != 0,
        find_start_from(map_effect(segs, cursor, target, size, prot).unwrap().0, target as int, 0) == Some(segs.len() as int),
        map_effect(segs, cursor, target, size, prot).unwrap().0.remove(segs.len() as int) == segs,
{
    let seg = SegView { addr: target as int, bytes: zeros(size), prot };
    lemma_find_start_push(segs, seg, target as int, 0);
    assert(segs.push(seg).remove(segs.len() as int) =~= segs);
}

/// The bytes from `a` up to (not including) the first zero byte, if every byte before
/// that zero is mapped.
pub open spec fn cstring_at(segs: Seq<SegView>, a: int, v: Seq<u8>) -> bool {
    &&& forall|k: int| 0 <= k < v.len() ==> #[trigger] byte_at(segs, a + k) == Some(v[k]) && v[k] != 0
    &&& byte_at(segs, a + v.len()) == Some(0u8)
}

/// A run of `n` mapped non-zero bytes from `a` ends at an unmapped address.
pub open spec fn cstring_fault(segs: Seq<SegView>, a: int, n: int) -> bool {
    &&& forall|k: int| 0 <= k < n ==> (#[trigger] byte_at(segs, a + k)) is Some && byte_at(segs, a + k) != Some(0u8)
    &&& byte_at(segs, a + n) is None
}

/// A string read at `a` either ends at a zero byte or runs into an unmapped byte, not both.
pub proof fn lemma_cstring_unique(segs: Seq<SegView>, a: int, v: Seq<u8>, n: int)
    requires
        cstring_at(segs, a, v),
        0 <= n,
    ensures
        !cstring_fault(segs, a, n),
{
    if cstring_fault(segs, a, n) {
        if n < v.len() {
            assert(byte_at(segs, a + n) == Some(v[n]));
        } else if n > v.len() {
            let k = v.len() as int;
            assert(0 <= k < n);
            assert(byte_at(segs, a + k) != Some(0u8));
        }
    }
}

/// A one-byte read sees the byte the first segment holding the address holds.
pub proof fn lemma_read_one(segs: Seq<SegView>, a: int)
    requires
        0 <= a,
    ensures
        a + 1 <= u64::MAX ==> read_spec(segs, a, 1) == match byte_at(segs, a) {
            Some(b) => Some(seq![b]),
            None => None::<Seq<u8>>,
        },
        a + 1 > u64::MAX ==> read_spec(segs, a, 1) is None,
{
    lemma_find_seg_from(segs, a, 0);
    lemma_find_cover_from(segs, a, 1, 0);
    if a + 1 <= u64::MAX {
        match find_cover_from(segs, a, 1, 0) {
            Some(j) => {
                assert(contains(segs[j], a));
                if find_seg(segs, a) != Some(j) {
                    let k = find_seg(segs, a).unwrap();
                    assert(covers(segs[k], a, 1));
                }
                assert(segs[j].bytes.subrange(a - segs[j].addr, a - segs[j].addr + 1) =~= seq![segs[j].bytes[a - segs[j].addr]]);
            },
            None => {
                match find_seg(segs, a) {
                    Some(k) => {
                        assert(covers(segs[k], a, 1));
                    },
                    None => {},
                }
            },
        }
    }
}

/// The memory manager as plain values: its segments and its bookkeeping.
pub ghost struct MemView {
    pub segs: Seq<SegView>,
    pub brk_base: u64,
    pub brk_current: u64,
    pub brk_mapped_end: u64,
    pub mmap_current: u64,
}

/// The manager after mapping `size` bytes with protection `prot` at `target` (at its
/// cursor for target zero), and the mapping's address or the refusal's message.
pub open spec fn map_outcome(m: MemView, target: u64, size: nat, prot: u32) -> (MemView, Result<u64, Seq<char>>) {
    match map_effect(m.segs, m.mmap_current, target, size, prot) {
        Some((segs, cursor, base)) => (MemView { segs, mmap_current: cursor, ..m }, Ok(base)),
        None => (m, Err(map_refusal_message(size))),
    }
}

/// The manager after moving the program break to `new_brk`, and the answer or the
/// refusal's message (see `set_brk`).
pub open spec fn brk_outcome(m: MemView, new_brk: u64) -> (MemView, Result<u64, Seq<char>>) {
    if new_brk == 0 || new_brk < m.brk_base {
        (m, Ok(m.brk_current))
    } else if new_brk <= m.brk_mapped_end {
        (MemView { brk_current: new_brk, ..m }, Ok(new_brk))
    } else if new_brk > u64::MAX - 4095 || align_up_spec(new_brk as int) - m.brk_mapped_end > usize::MAX {
        (m, Err("ENOMEM: Cannot allocate memory"@))
    } else {
        let size = (align_up_spec(new_brk as int) - m.brk_mapped_end) as nat;
        match map_outcome(m, m.brk_mapped_end, size, PROT_READ | PROT_WRITE) {
            (m2, Ok(_)) => (MemView { brk_current: new_brk, brk_mapped_end: align_up_spec(new_brk as int) as u64, ..m2 }, Ok(new_brk)),
            (_, Err(e)) => (m, Err(e)),
        }
    }
}

/// Law: moving the program break keeps its base fixed and the break between the base
/// and the end of what is mapped for it, and never shrinks that mapping.
pub proof fn law_brk_bounds(m: MemView, new_brk: u64)
    requires
        m.brk_base <= m.brk_current <= m.brk_mapped_end,
    ensures
        brk_outcome(m, new_brk).0.brk_base == m.brk_base,
        brk_outcome(m, new_brk).0.brk_base <= brk_outcome(m, new_brk).0.brk_current
            <= brk_outcome(m, new_brk).0.brk_mapped_end,
        brk_outcome(m, new_brk).0.brk_mapped_end >= m.brk_mapped_end,
{
}

/// `r` is the value `v`, or the memory error with message `m`.
pub open spec fn mem_result<T>(r: Result<T, Error>, o: Result<T, Seq<char>>) -> bool {
    match o {
        Ok(v) => r == Ok::<T, Error>(v),
        Err(m) => r is Err && is_memory_error(r->Err_0, m),
    }
}

/// Guest memory and the program-break bookkeeping.
pub struct MemoryManager {
    pub segments: Vec<MemorySegment>,
    pub brk_base: u64,
    pub brk_current: u64,
    pub brk_mapped_end: u64,
    pub mmap_current: u64,
}

impl View for MemoryManager {
    type V = MemView;

    open spec fn view(&self) -> MemView {
        MemView {
            segs: self.segs(),
            brk_base: self.brk_base,
            brk_current: self.brk_current,
            brk_mapped_end: self.brk_mapped_end,
            mmap_current: self.mmap_current,
        }
    }
}

impl MemoryManager {
    /// The mapped segments, in mapping order.
    pub open spec fn segs(&self) -> Seq<SegView> {
        self.segments@.map_values(|s: MemorySegment| s.view_seg())
    }

    /// Every segment holds as many bytes as its size and ends within the address space.
    pub open spec fn wf(&self) -> bool {
        forall|i: int| 0 <= i < self.segments@.len() ==> (#[trigger] self.segments@[i]).wf()
    }

    /// Facts every well-formed manager gives about its segments.
    pub proof fn lemma_wf(&self)
        requires
            self.wf(),
        ensures
            forall|i: int| 0 <= i < self.segs().len() ==> (#[trigger] self.segs()[i]).addr >= 0
                && self.segs()[i].addr + self.segs()[i].bytes.len() <= u64::MAX,
    {
        assert forall|i: int| 0 <= i < self.segs().len() implies (#[trigger] self.segs()[i]).addr >= 0
            && self.segs()[i].addr + self.segs()[i].bytes.len() <= u64::MAX by {
            assert(self.segments@[i].wf());
        }
    }

    /// An empty address space; the manager's own mappings start at `MMAP_BASE`.
    pub fn new() -> (r: Self)
        ensures
            r.wf(),
            r.segs() == Seq::<SegView>::empty(),
            r.brk_base == 0,
            r.brk_current == 0,
            r.brk_mapped_end == 0,
            r.mmap_current == MMAP_BASE,
    {
        let r = MemoryManager {
            segments: Vec::new(),
            brk_base: 0,
            brk_current: 0,
            brk_mapped_end: 0,
            mmap_current: MMAP_BASE,
        };
        assert(r.segs() =~= Seq::<SegView>::empty());
        r
    }

    /// Index of the first segment holding address `a`.
    fn find_seg_index(&self, a: u64) -> (r: Option<usize>)
        requires
            self.wf(),
        ensures
            match r {
                Some(j) => find_seg(self.segs(), a as int) == Some(j as int) && j < self.segments@.len(),
                None => find_seg(self.segs(), a as int) is None,
            },
    {
        let mut i: usize = 0;
        while i < self.segments.len()
            invariant
                self.wf(),
                0 <= i <= self.segments@.len(),
                find_seg_from(self.segs(), a as int, 0) == find_seg_from(self.segs(), a as int, i as int),
            decreases self.segments@.len() - i,
        {
            let seg = &self.segments[i];
            assert(self.segs()[i as int] == seg.view_seg());
            assert(self.segments@[i as int].wf());
            if a >= seg.addr && a < seg.addr + (seg.size as u64) {
                return Some(i);
            }
            i = i + 1;
        }
        None
    }

    /// Index of the first segment holding the whole range `[a, a + len)`.
    fn find_cover_index(&self, a: u64, len: u64) -> (r: Option<usize>)
        requires
            self.wf(),
            a + len <= u64::MAX,
        ensures
            match r {
                Some(j) => find_cover_from(self.segs(), a as int, len as int, 0) == Some(j as int)
                    && j < self.segments@.len(),
                None => find_cover_from(self.segs(), a as int, len as int, 0) is None,
            },
    {
        let mut i: usize = 0;
        while i < self.segments.len()
            invariant
                self.wf(),
                a + len <= u64::MAX,
                0 <= i <= self.segments@.len(),
                find_cover_from(self.segs(), a as int, len as int, 0) == find_cover_from(self.segs(), a as int, len as int, i as int),
            decreases self.segments@.len() - i,
        {
            let seg = &self.segments[i];
            assert(self.segs()[i as int] == seg.view_seg());
            assert(self.segments@[i as int].wf());
            if a >= seg.addr && a + len <= seg.addr + (seg.size as u64) {
                return Some(i);
            }
            i = i + 1;
        }
        None
    }

    /// The description of all segments, `[0x..0x..]` joined with `, `.
    fn segments_text(&self) -> (t: String)
        requires
            self.wf(),
        ensures
            t@ == segs_text(self.segs()),
    {
        let mut t = String::new();
        let mut i: usize = 0;
        while i < self.segments.len()
            invariant
                self.wf(),
                0 <= i <= self.segments@.len(),
                t@ == segs_text(self.segs().subrange(0, i as int)),
            decreases self.segments@.len() - i,
        {
            let seg = &self.segments[i];
            assert(self.segments@[i as int].wf());
            assert(self.segs()[i as int] == seg.view_seg());
            let ghost before = self.segs().subrange(0, i as int);
            let ghost after = self.segs().subrange(0, i as int + 1);
            assert(after.drop_last() =~= before);
            assert(after.last() == seg.view_seg());
            if i > 0 {
                t.push_str(", ");
            }
            t.push_str("[");
            let h1 = hex_text(seg.addr);
            t.push_str(h1.as_str());
            t.push_str("..");
            let h2 = hex_text(seg.addr + (seg.size as u64));
            t.push_str(h2.as_str());
            t.push_str("]");
            assert(i == 0 ==> before =~= Seq::<SegView>::empty());
            assert(t@ == segs_text(after));
            i = i + 1;
        }
        assert(self.segs().subrange(0, self.segments@.len() as int) =~= self.segs());
        t
    }

    /// The fault reported for an access of `len` bytes at `addr`.
    fn bounds_error(&self, addr: u64, len: usize) -> (e: Error)
        requires
            self.wf(),
        ensures
            is_memory_error(e, bounds_message(self.segs(), addr, len as nat)),
    {
        let mut m = String::new();
        m.push_str("Address ");
        let h = hex_text(addr);
        m.push_str(h.as_str());
        m.push_str(" (len ");
        let d = dec_text(len as u64);
        m.push_str(d.as_str());
        m.push_str(") out of mapped bounds. Segments: ");
        let st = self.segments_text();
        m.push_str(st.as_str());
        Error::MemoryError(m)
    }

    /// Reads `len` bytes at `addr`. An empty read gives nothing; a read that one
    /// segment holds entirely comes from the first such segment; any other read is
    /// assembled piece by piece. A byte that no segment holds is a fault.
    pub fn read(&self, addr: u64, len: usize) -> (r: Result<Vec<u8>, Error>)
        requires
            self.wf(),
        ensures
            match read_spec(self.segs(), addr as int, len as nat) {
                Some(v) => r is Ok && r->Ok_0@ == v,
                None => r is Err && is_memory_error(r->Err_0, bounds_message(self.segs(), addr, len as nat)),
            },
    {
        if len == 0 {
            return Ok(Vec::new());
        }
        if len as u64 > u64::MAX - addr {
            return Err(self.bounds_error(addr, len));
        }
        let end = addr + len as u64;
        match self.find_cover_index(addr, len as u64) {
            Some(j) => {
                let seg = &self.segments[j];
                assert(self.segments@[j as int].wf());
                assert(self.segs()[j as int] == seg.view_seg());
                proof { lemma_find_cover_from(self.segs(), addr as int, len as int, 0); }
                let off = (addr - seg.addr) as usize;
                let mut out: Vec<u8> = Vec::new();
                let mut k: usize = 0;
                while k < len
                    invariant
                        self.wf(),
                        j < self.segments@.len(),
                        seg == &self.segments@[j as int],
                        seg.data@.len() == seg.size,
                        off + len <= seg.size,
                        0 <= k <= len,
                        out@ == seg.data@.subrange(off as int, off + k),
                    decreases len - k,
                {
                    out.push(seg.data[off + k]);
                    k = k + 1;
                    assert(out@ =~= seg.data@.subrange(off as int, off + k));
                }
                Ok(out)
            },
            None => {
                let mut buf: Vec<u8> = Vec::new();
                let mut cur = addr;
                let mut done: usize = 0;
                while done < len
                    invariant
                        self.wf(),
                        0 <= done <= len,
                        cur == addr + done,
                        addr + len <= u64::MAX,
                        len > 0,
                        find_cover_from(self.segs(), addr as int, len as int, 0) is None,
                        buf@.len() == done,
                        chunk_read(self.segs(), addr as int, len as nat) == match chunk_read(
                            self.segs(),
                            cur as int,
                            (len - done) as nat,
                        ) {
                            Some(rest) => Some(buf@ + rest),
                            None => None::<Seq<u8>>,
                        },
                    decreases len - done,
                {
                    let rem = len - done;
                    match self.find_seg_index(cur) {
                        None => {
                            assert(chunk_read(self.segs(), cur as int, rem as nat) is None);
                            assert(chunk_read(self.segs(), addr as int, len as nat) is None);
                            assert(read_spec(self.segs(), addr as int, len as nat) is None);
                            return Err(self.bounds_error(addr, len));
                        },
                        Some(j) => {
                            let seg = &self.segments[j];
                            assert(self.segments@[j as int].wf());
                            assert(self.segs()[j as int] == seg.view_seg());
                            proof { lemma_find_seg_from(self.segs(), cur as int, 0); }
                            let off = (cur - seg.addr) as usize;
                            let avail = seg.size - off;
                            let n = if rem < avail { rem } else { avail };
                            let ghost before = buf@;
                            let mut k: usize = 0;
                            while k < n
                                invariant
                                    self.wf(),
                                    j < self.segments@.len(),
                                    seg == &self.segments@[j as int],
                                    seg.data@.len() == seg.size,
                                    off + n <= seg.size,
                                    0 <= k <= n,
                                    buf@ == before + seg.data@.subrange(off as int, off + k),
                                decreases n - k,
                            {
                                buf.push(seg.data[off + k]);
                                k = k + 1;
                                assert(buf@ =~= before + seg.data@.subrange(off as int, off + k));
                            }
                            proof {
                                let rest = chunk_read(self.segs(), cur + n, (rem - n) as nat);
                                assert(chunk_len(seg.view_seg(), cur as int, rem as int) == n);
                                match rest {
                                    Some(rr) => {
                                        assert(before + (seg.data@.subrange(off as int, off + n) + rr)
                                            =~= buf@ + rr);
                                    },
                                    None => {},
                                }
                            }
                            done = done + n;
                            cur = cur + n as u64;
                        },
                    }
                }
                assert(buf@ + Seq::<u8>::empty() =~= buf@);
                Ok(buf)
            },
        }
    }

    /// Writes `data` at `addr`, piece by piece: each piece goes to the first segment
    /// holding the piece's start, up to that segment's end. A byte that no segment holds
    /// is a fault; the pieces stored before it stay stored.
    pub fn write(&mut self, addr: u64, data: &[u8]) -> (r: Result<(), Error>)
        requires
            old(self).wf(),
        ensures
            final(self).wf(),
            final(self).segs() == chunk_write(old(self).segs(), addr as int, data@).0,
            r is Ok <==> chunk_write(old(self).segs(), addr as int, data@).1,
            r is Err ==> is_memory_error(r->Err_0, bounds_message(final(self).segs(), addr, data@.len())),
            final(self).brk_base == old(self).brk_base,
            final(self).brk_current == old(self).brk_current,
            final(self).brk_mapped_end == old(self).brk_mapped_end,
            final(self).mmap_current == old(self).mmap_current,
    {
        let len = data.len();
        let mut written: usize = 0;
        let mut cur = addr;
        assert(data@.subrange(0, len as int) =~= data@);
        while written < len
            invariant
                self.wf(),
                0 <= written <= len,
                len == data@.len(),
                cur as int == addr + written,
                chunk_write(old(self).segs(), addr as int, data@) == chunk_write(
                    self.segs(),
                    cur as int,
                    data@.subrange(written as int, len as int),
                ),
                self.brk_base == old(self).brk_base,
                self.brk_current == old(self).brk_current,
                self.brk_mapped_end == old(self).brk_mapped_end,
                self.mmap_current == old(self).mmap_current,
                self.segments@.len() == old(self).segments@.len(),
            decreases len - written,
        {
            let rem = len - written;
            match self.find_seg_index(cur) {
                None => {
                    assert(data@.subrange(written as int, len as int).len() > 0);
                    return Err(self.bounds_error(addr, len));
                },
                Some(j) => {
                    proof { lemma_find_seg_from(self.segs(), cur as int, 0); }
                    assert(self.segments@[j as int].wf());
                    let seg_addr = self.segments[j].addr;
                    let seg_size = self.segments[j].size;
                    let off = (cur - seg_addr) as usize;
                    let avail = seg_size - off;
                    let n = if rem < avail { rem } else { avail };
                    let ghost segs0 = self.segs();
                    let ghost s0 = self.segs()[j as int];
                    let ghost tail = data@.subrange(written as int, len as int);
                    assert(tail.subrange(0, n as int) =~= data@.subrange(written as int, written + n));
                    assert(tail.subrange(n as int, tail.len() as int) =~= data@.subrange(written + n, len as int));
                    self.segments[j].store(off, data, written, n);
                    proof {
                        assert(self.segs() =~= segs0.update(j as int, store_bytes(s0, off as int, tail.subrange(0, n as int))));
                        assert forall|i: int| 0 <= i < self.segments@.len() implies (#[trigger] self.segments@[i]).wf() by {
                            if i != j {
                                assert(self.segments@[i] == old(self).segments@[i] || true);
                            }
                        }
                    }
                    written = written + n;
                    cur = cur + n as u64;
                },
            }
        }
        Ok(())
    }

    /// Maps `size` zero bytes with protection `prot` at `target_addr`, or, for a zero
    /// target, at the manager's own cursor (which then moves past the mapping, page
    /// aligned). A zero size is refused, and so is a mapping that would run past the end
    /// of the address space. Returns the address of the mapping.
    pub fn map_anonymous_prot(&mut self, target_addr: u64, size: usize, prot: u32) -> (r: Result<u64, Error>)
        requires
            old(self).wf(),
        ensures
            final(self).wf(),
            match map_effect(old(self).segs(), old(self).mmap_current, target_addr, size as nat, prot) {
                Some((segs, cursor, base)) => r == Ok::<u64, Error>(base) && final(self).segs() == segs
                    && final(self).mmap_current == cursor,
                None => r is Err && is_memory_error(r->Err_0, map_refusal_message(size as nat))
                    && final(self).segs() == old(self).segs() && final(self).mmap_current == old(self).mmap_current,
            },
            final(self).brk_base == old(self).brk_base,
            final(self).brk_current == old(self).brk_current,
            final(self).brk_mapped_end == old(self).brk_mapped_end,
    {
        if size == 0 {
            return Err(Error::MemoryError("Size cannot be zero".to_owned()));
        }
        let base = if target_addr != 0 { target_addr } else { self.mmap_current };
        if size as u64 > u64::MAX - base || (target_addr == 0 && (base > u64::MAX - 4095 || size as u64 > u64::MAX - 4095 - base)) {
            return Err(Error::MemoryError("ENOMEM: Cannot allocate memory".to_owned()));
        }
        let data = vec![0u8; size];
        assert(data@ =~= zeros(size as nat));
        let seg = MemorySegment { addr: base, size, prot, data };
        let ghost old_segs = self.segs();
        self.segments.push(seg);
        assert(self.segs() =~= old_segs.push(seg.view_seg()));
        assert forall|i: int| 0 <= i < self.segments@.len() implies (#[trigger] self.segments@[i]).wf() by {
            if i < old(self).segments@.len() {
                assert(self.segments@[i] == old(self).segments@[i]);
            }
        }
        if target_addr == 0 {
            self.mmap_current = align_up_page(base + size as u64);
        }
        Ok(base)
    }

    /// Maps `size` zero bytes, readable, writable and executable, at `target_addr`.
    pub fn map_anonymous(&mut self, target_addr: u64, size: usize) -> (r: Result<u64, Error>)
        requires
            old(self).wf(),
        ensures
            final(self).wf(),
            final(self)@ == map_outcome(old(self)@, target_addr, size as nat, PROT_READ | PROT_WRITE | PROT_EXEC).0,
            mem_result(r, map_outcome(old(self)@, target_addr, size as nat, PROT_READ | PROT_WRITE | PROT_EXEC).1),
            match map_effect(old(self).segs(), old(self).mmap_current, target_addr, size as nat, PROT_READ | PROT_WRITE | PROT_EXEC) {
                Some((segs, cursor, base)) => r == Ok::<u64, Error>(base) && final(self).segs() == segs
                    && final(self).mmap_current == cursor,
                None => r is Err && is_memory_error(r->Err_0, map_refusal_message(size as nat))
                    && final(self).segs() == old(self).segs() && final(self).mmap_current == old(self).mmap_current,
            },
            final(self).brk_base == old(self).brk_base,
            final(self).brk_current == old(self).brk_current,
            final(self).brk_mapped_end == old(self).brk_mapped_end,
    {
        self.map_anonymous_prot(target_addr, size, PROT_READ | PROT_WRITE | PROT_EXEC)
    }

    /// The page range covering `[addr, addr + size)`: its aligned start and length.
    fn page_range(addr: u64, size: usize) -> (r: (u64, u64))
        requires
            addr + size <= u64::MAX - 4095,
        ensures
            r.0 == page_span(addr, size as u64).0,
            r.1 == page_span(addr, size as u64).1,
    {
        let aligned_addr = align_down_page(addr);
        let end = align_up_page(addr + size as u64);
        let aligned_size = end - aligned_addr;
        (aligned_addr, aligned_size)
    }

    /// Sets the protection of the first segment that starts at the page of `addr` and
    /// holds the whole page range of `[addr, addr + size)`.
    pub fn mprotect(&mut self, addr: u64, size: usize, prot: u32) -> (r: Result<(), Error>)
        requires
            old(self).wf(),
            addr + size <= u64::MAX - 4095,
        ensures
            final(self).wf(),
            match find_prot_seg_from(old(self).segs(), page_span(addr, size as u64).0, page_span(addr, size as u64).1, 0) {
                Some(i) => r is Ok && final(self).segs() == old(self).segs().update(i, SegView { prot, ..old(self).segs()[i] }),
                None => r is Err && final(self).segs() == old(self).segs() && is_memory_error(
                    r->Err_0,
                    "No mapped segment matching address "@ + hex_text_spec(addr as nat),
                ),
            },
            final(self).brk_base == old(self).brk_base,
            final(self).brk_current == old(self).brk_current,
            final(self).brk_mapped_end == old(self).brk_mapped_end,
            final(self).mmap_current == old(self).mmap_current,
    {
        let (aligned_addr, aligned_size) = Self::page_range(addr, size);
        let mut i: usize = 0;
        while i < self.segments.len()
            invariant
                self.wf(),
                self == old(self),
                aligned_size == page_span(addr, size as u64).1,
                aligned_addr == page_span(addr, size as u64).0,
                0 <= i <= self.segments@.len(),
                find_prot_seg_from(self.segs(), aligned_addr as int, aligned_size as int, 0)
                    == find_prot_seg_from(self.segs(), aligned_addr as int, aligned_size as int, i as int),
            decreases self.segments@.len() - i,
        {
            assert(self.segs()[i as int] == self.segments@[i as int].view_seg());
            assert(self.segments@[i as int].wf());
            if self.segments[i].addr == aligned_addr && self.segments[i].size as u64 >= aligned_size {
                let ghost segs0 = self.segs();
                self.segments[i].prot = prot;
                assert(self.segs() =~= segs0.update(i as int, SegView { prot, ..segs0[i as int] }));
                assert forall|k: int| 0 <= k < self.segments@.len() implies (#[trigger] self.segments@[k]).wf() by {
                    assert(old(self).segments@[k].wf());
                }
                return Ok(());
            }
            i = i + 1;
        }
        let h = hex_text(addr);
        Err(Error::MemoryError(concat("No mapped segment matching address ", h.as_str())))
    }

    /// Unmaps the first segment that starts at the page of `addr`. Releasing an empty
    /// page range (an aligned `addr` with `size` zero) is refused as an invalid argument
    /// after the segment has been dropped.
    pub fn munmap(&mut self, addr: u64, size: usize) -> (r: Result<(), Error>)
        requires
            old(self).wf(),
            addr + size <= u64::MAX - 4095,
        ensures
            final(self).wf(),
            match find_start_from(old(self).segs(), page_span(addr, size as u64).0, 0) {
                Some(i) => final(self).segs() == old(self).segs().remove(i) && (if page_span(addr, size as u64).1 == 0 {
                    r is Err && is_memory_error(r->Err_0, "EINVAL: Invalid argument"@)
                } else {
                    r is Ok
                }),
                None => r is Err && final(self).segs() == old(self).segs() && is_memory_error(
                    r->Err_0,
                    "No mapped segment to unmap at "@ + hex_text_spec(addr as nat),
                ),
            },
            final(self).brk_base == old(self).brk_base,
            final(self).brk_current == old(self).brk_current,
            final(self).brk_mapped_end == old(self).brk_mapped_end,
            final(self).mmap_current == old(self).mmap_current,
    {
        let (aligned_addr, aligned_size) = Self::page_range(addr, size);
        let mut i: usize = 0;
        while i < self.segments.len()
            invariant
                self.wf(),
                self == old(self),
                aligned_size == page_span(addr, size as u64).1,
                aligned_addr == page_span(addr, size as u64).0,
                0 <= i <= self.segments@.len(),
                find_start_from(self.segs(), aligned_addr as int, 0) == find_start_from(self.segs(), aligned_addr as int, i as int),
            decreases self.segments@.len() - i,
        {
            assert(self.segs()[i as int] == self.segments@[i as int].view_seg());
            if self.segments[i].addr == aligned_addr {
                let ghost segs0 = self.segs();
                let _seg = self.segments.remove(i);
                assert(self.segs() =~= segs0.remove(i as int));
                assert forall|k: int| 0 <= k < self.segments@.len() implies (#[trigger] self.segments@[k]).wf() by {
                    if k < i {
                        assert(old(self).segments@[k].wf());
                    } else {
                        assert(old(self).segments@[k + 1].wf());
                    }
                }
                if aligned_size == 0 {
                    return Err(Error::MemoryError("EINVAL: Invalid argument".to_owned()));
                }
                return Ok(());
            }
            i = i + 1;
        }
        let h = hex_text(addr);
        Err(Error::MemoryError(concat("No mapped segment to unmap at ", h.as_str())))
    }

    /// Places the program break, and its mapped end, at the page boundary at or above `base`.
    pub fn set_brk_base(&mut self, base: u64)
        requires
            base <= u64::MAX - 4095,
        ensures
            final(self).brk_base == align_up_spec(base as int),
            final(self).brk_current == align_up_spec(base as int),
            final(self).brk_mapped_end == align_up_spec(base as int),
            final(self).segments == old(self).segments,
            final(self).mmap_current == old(self).mmap_current,
    {
        let aligned_base = align_up_page(base);
        self.brk_base = aligned_base;
        self.brk_current = aligned_base;
        self.brk_mapped_end = aligned_base;
    }

    /// Moves the program break. A zero request or one below the break's base leaves it
    /// and answers its current place. A request past the mapped end maps the pages up to
    /// the page boundary at or above it, readable and writable; a request within one
    /// page of the end of the address space is refused.
    pub fn set_brk(&mut self, new_brk: u64) -> (r: Result<u64, Error>)
        requires
            old(self).wf(),
        ensures
            final(self).wf(),
            final(self)@ == brk_outcome(old(self)@, new_brk).0,
            mem_result(r, brk_outcome(old(self)@, new_brk).1),
            final(self).brk_base == old(self).brk_base,
            new_brk == 0 || new_brk < old(self).brk_base ==> r == Ok::<u64, Error>(old(self).brk_current)
                && final(self).segs() == old(self).segs() && final(self).brk_current == old(self).brk_current
                && final(self).brk_mapped_end == old(self).brk_mapped_end && final(self).mmap_current == old(self).mmap_current,
            !(new_brk == 0 || new_brk < old(self).brk_base) && new_brk <= old(self).brk_mapped_end ==>
                r == Ok::<u64, Error>(new_brk) && final(self).segs() == old(self).segs() && final(self).brk_current == new_brk
                && final(self).brk_mapped_end == old(self).brk_mapped_end && final(self).mmap_current == old(self).mmap_current,
            !(new_brk == 0 || new_brk < old(self).brk_base) && new_brk > old(self).brk_mapped_end && new_brk > u64::MAX - 4095 ==>
                r is Err && is_memory_error(r->Err_0, "ENOMEM: Cannot allocate memory"@) && final(self).segs() == old(self).segs()
                && final(self).brk_current == old(self).brk_current && final(self).brk_mapped_end == old(self).brk_mapped_end
                && final(self).mmap_current == old(self).mmap_current,
            !(new_brk == 0 || new_brk < old(self).brk_base) && new_brk > old(self).brk_mapped_end && new_brk <= u64::MAX - 4095
                && align_up_spec(new_brk as int) - old(self).brk_mapped_end > usize::MAX ==>
                r is Err && is_memory_error(r->Err_0, "ENOMEM: Cannot allocate memory"@) && final(self).segs() == old(self).segs()
                && final(self).brk_current == old(self).brk_current && final(self).brk_mapped_end == old(self).brk_mapped_end
                && final(self).mmap_current == old(self).mmap_current,
            !(new_brk == 0 || new_brk < old(self).brk_base) && new_brk > old(self).brk_mapped_end && new_brk <= u64::MAX - 4095
                && align_up_spec(new_brk as int) - old(self).brk_mapped_end <= usize::MAX ==>
                match map_effect(old(self).segs(), old(self).mmap_current, old(self).brk_mapped_end,
                    (align_up_spec(new_brk as int) - old(self).brk_mapped_end) as nat, PROT_READ | PROT_WRITE) {
                    Some((segs, cursor, base)) => r == Ok::<u64, Error>(new_brk) && final(self).segs() == segs
                        && final(self).mmap_current == cursor && final(self).brk_current == new_brk
                        && final(self).brk_mapped_end == align_up_spec(new_brk as int),
                    None => r is Err && final(self).segs() == old(self).segs() && final(self).brk_current == old(self).brk_current
                        && final(self).brk_mapped_end == old(self).brk_mapped_end && final(self).mmap_current == old(self).mmap_current
                        && is_memory_error(r->Err_0, map_refusal_message((align_up_spec(new_brk as int) - old(self).brk_mapped_end) as nat)),
                },
    {
        if new_brk == 0 || new_brk < self.brk_base {
            return Ok(self.brk_current);
        }
        if new_brk > self.brk_mapped_end {
            if new_brk > u64::MAX - 4095 {
                return Err(Error::MemoryError("ENOMEM: Cannot allocate memory".to_owned()));
            }
            let cur_mapped = self.brk_mapped_end;
            let new_mapped = align_up_page(new_brk);
            let expand = new_mapped - cur_mapped;
            if expand > usize::MAX as u64 {
                return Err(Error::MemoryError("ENOMEM: Cannot allocate memory".to_owned()));
            }
            let expand_size = expand as usize;
            match self.map_anonymous_prot(cur_mapped, expand_size, PROT_READ | PROT_WRITE) {
                Ok(_mapped) => {
                    self.brk_mapped_end = new_mapped;
                },
                Err(e) => {
                    return Err(e);
                },
            }
        }
        self.brk_current = new_brk;
        Ok(self.brk_current)
    }

    /// Reads the bytes from `addr` up to the first zero byte (which is not included),
    /// one byte at a time; an unmapped byte before the zero is a fault.
    pub fn read_string(&self, addr: u64) -> (r: Result<Vec<u8>, Error>)
        requires
            self.wf(),
        ensures
            match r {
                Ok(v) => cstring_at(self.segs(), addr as int, v@),
                Err(e) => exists|n: int| 0 <= n && addr + n <= u64::MAX && #[trigger] cstring_fault(self.segs(), addr as int, n)
                    && is_memory_error(e, bounds_message(self.segs(), (addr + n) as u64, 1)),
            },
    {
        let mut cur = addr;
        let mut bytes: Vec<u8> = Vec::new();
        loop
            invariant
                self.wf(),
                cur as int == addr + bytes@.len(),
                forall|k: int| 0 <= k < bytes@.len() ==> #[trigger] byte_at(self.segs(), addr + k) == Some(bytes@[k]) && bytes@[k] != 0,
            decreases u64::MAX - cur,
        {
            let ghost n = bytes@.len() as int;
            proof {
                lemma_read_one(self.segs(), cur as int);
                lemma_find_seg_from(self.segs(), cur as int, 0);
                self.lemma_wf();
            }
            let b = match self.read(cur, 1) {
                Ok(v) => v[0],
                Err(e) => {
                    assert(cstring_fault(self.segs(), addr as int, n));
                    return Err(e);
                },
            };
            if b == 0 {
                return Ok(bytes);
            }
            proof {
                lemma_find_seg_from(self.segs(), cur as int, 0);
                self.lemma_wf();
            }
            bytes.push(b);
            cur = cur + 1;
        }
    }
}

} // verus!
