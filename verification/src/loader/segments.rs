//! Placing an image's segments and resolving its dynamic relocations.

use vstd::prelude::*;
use crate::interp::{le_bytes, wadd};
use crate::interp::memops::le_bytes_vec;
use crate::loader::layout::{steps, LayoutOp, StepView};
use crate::loader::object_file::{
    file_segment_data, file_segments, parse_failure, segment_data_of, segments_of,
};
use crate::memory::zeros;
use crate::text::concat;

verus! {

/// The page-rounded length covering `size` bytes that start `offset` bytes into a page
/// (the sum taken modulo the width of `usize`).
pub open spec fn page_total(size: usize, offset: usize) -> usize {
    let sum = vstd::wrapping::usize_specs::wrapping_add(vstd::wrapping::usize_specs::wrapping_add(size, offset), 4095);
    ((sum / 4096) * 4096) as usize
}

/// The steps for segment `i` on of the segments `segs` (address and size of each) whose
/// data are `datas`, and the highest end address seen (from `max`): each segment of
/// nonzero size (truncated to `usize`) at its address plus `bias` gets its pages mapped,
/// its data written and the rest up to its size zeroed; a segment whose data cannot be
/// read stops the layout with a load error. Also says whether it stopped.
pub open spec fn seg_steps_from(
    segs: Seq<(u64, u64)>,
    datas: Seq<Result<Seq<u8>, Seq<char>>>,
    bias: u64,
    i: int,
    max: u64,
) -> (Seq<StepView>, u64, bool)
    decreases segs.len() - i,
{
    if i < 0 || i >= segs.len() {
        (Seq::empty(), max, false)
    } else {
        let vaddr = wadd(segs[i].0, bias);
        let size = segs[i].1 as usize;
        if size == 0 {
            seg_steps_from(segs, datas, bias, i + 1, max)
        } else {
            match datas[i] {
                Err(m) => (seq![StepView::Fail("Segment data error: "@ + m)], max, true),
                Ok(d) => {
                    let aligned = vaddr & !4095u64;
                    let offset = (vaddr - aligned) as usize;
                    let here = seq![
                        StepView::MapZero { addr: aligned, size: page_total(size, offset) as nat, required: true },
                        StepView::Write { addr: vaddr, data: d, required: true },
                    ] + if size > d.len() {
                        seq![StepView::Write { addr: wadd(vaddr, d.len() as u64), data: zeros((size - d.len()) as nat), required: true }]
                    } else {
                        Seq::empty()
                    };
                    let end = wadd(vaddr, size as u64);
                    let (rest, mx, stop) = seg_steps_from(segs, datas, bias, i + 1, if end > max { end } else { max });
                    (here + rest, mx, stop)
                },
            }
        }
    }
}

/// The data of each segment of an image, as `ObjectSegment::data` gives it.
pub open spec fn seg_datas(data: Seq<u8>) -> Seq<Result<Seq<u8>, Seq<char>>> {
    Seq::new(segments_of(data).len(), |k: int| segment_data_of(data, k))
}

/// The steps for the image's segments `i` on (see `seg_steps_from`).
pub open spec fn seg_steps(data: Seq<u8>, bias: u64, i: int, max: u64) -> (Seq<StepView>, u64, bool) {
    seg_steps_from(segments_of(data), seg_datas(data), bias, i, max)
}

/// Segment data results as plain values.
pub open spec fn datas_view(datas: Seq<Result<Vec<u8>, String>>) -> Seq<Result<Seq<u8>, Seq<char>>> {
    Seq::new(datas.len(), |k: int| match datas[k] {
        Ok(v) => Ok::<Seq<u8>, Seq<char>>(v@),
        Err(e) => Err::<Seq<u8>, Seq<char>>(e@),
    })
}

/// Appends the steps for the segments `segs` whose data are `datas`; returns the highest
/// end address and whether a segment stopped the layout.
pub fn push_segment_steps_from(
    ops: &mut Vec<LayoutOp>,
    segs: &Vec<(u64, u64)>,
    datas: &Vec<Result<Vec<u8>, String>>,
    bias: u64,
) -> (r: (u64, bool))
    requires
        datas.len() == segs.len(),
    ensures
        steps(final(ops)@) == steps(old(ops)@) + seg_steps_from(segs@, datas_view(datas@), bias, 0, 0).0,
        r == (seg_steps_from(segs@, datas_view(datas@), bias, 0, 0).1, seg_steps_from(segs@, datas_view(datas@), bias, 0, 0).2),
{
    let ghost dv = datas_view(datas@);
    let ghost goal = seg_steps_from(segs@, dv, bias, 0, 0);
    let ghost start = steps(ops@);
    let mut max: u64 = 0;
    let mut i: usize = 0;
    while i < segs.len()
        invariant
            datas.len() == segs.len(),
            dv == datas_view(datas@),
            0 <= i <= segs.len(),
            goal == seg_steps_from(segs@, dv, bias, 0, 0),
            start == steps(old(ops)@),
            steps(ops@) + seg_steps_from(segs@, dv, bias, i as int, max).0 == start + goal.0,
            seg_steps_from(segs@, dv, bias, i as int, max).1 == goal.1,
            seg_steps_from(segs@, dv, bias, i as int, max).2 == goal.2,
        decreases segs.len() - i,
    {
        let (address, size64) = segs[i];
        let vaddr = address.wrapping_add(bias);
        let size = size64 as usize;
        if size != 0 {
            let ghost before = steps(ops@);
            match &datas[i] {
                Err(m) => {
                    ops.push(LayoutOp::Fail(concat("Segment data error: ", m.as_str())));
                    assert(steps(ops@) =~= before.push(StepView::Fail("Segment data error: "@ + m@)));
                    assert(seg_steps_from(segs@, dv, bias, i as int, max).0 =~= seq![StepView::Fail("Segment data error: "@ + m@)]);
                    assert(steps(ops@) =~= before + seg_steps_from(segs@, dv, bias, i as int, max).0);
                    return (max, true);
                },
                Ok(d) => {
                    let d = d.clone();
                    assert(d@ == dv[i as int]->Ok_0);
                    let aligned = vaddr & !4095u64;
                    assert(aligned <= vaddr) by (bit_vector)
                        requires
                            aligned == vaddr & !4095u64,
                    ;
                    let offset = (vaddr - aligned) as usize;
                    let total = (size.wrapping_add(offset).wrapping_add(4095) / 4096) * 4096;
                    let dlen = d.len();
                    let ghost dseq = d@;
                    ops.push(LayoutOp::MapZero { addr: aligned, size: total, required: true });
                    ops.push(LayoutOp::Write { addr: vaddr, data: d, required: true });
                    if size > dlen {
                        let mut z: Vec<u8> = Vec::new();
                        let mut k: usize = 0;
                        while k < size - dlen
                            invariant
                                0 <= k <= size - dlen,
                                z@ == zeros(k as nat),
                            decreases size - dlen - k,
                        {
                            z.push(0);
                            k = k + 1;
                            assert(z@ =~= zeros(k as nat));
                        }
                        ops.push(LayoutOp::Write { addr: vaddr.wrapping_add(dlen as u64), data: z, required: true });
                    }
                    let end = vaddr.wrapping_add(size as u64);
                    let ghost old_max = max;
                    if end > max {
                        max = end;
                    }
                    proof {
                        let here = seq![
                            StepView::MapZero { addr: aligned, size: page_total(size, offset) as nat, required: true },
                            StepView::Write { addr: vaddr, data: dseq, required: true },
                        ] + if size > dlen {
                            seq![StepView::Write { addr: wadd(vaddr, dlen as u64), data: zeros((size - dlen) as nat), required: true }]
                        } else {
                            Seq::empty()
                        };
                        assert(steps(ops@) =~= before + here);
                        assert(seg_steps_from(segs@, dv, bias, i as int, old_max).0 =~= here + seg_steps_from(segs@, dv, bias, i + 1, max).0);
                        assert(steps(ops@) + seg_steps_from(segs@, dv, bias, i + 1, max).0 =~= before + seg_steps_from(segs@, dv, bias, i as int, old_max).0);
                    }
                },
            }
        }
        i = i + 1;
    }
    assert(seg_steps_from(segs@, dv, bias, i as int, max).0 =~= Seq::<StepView>::empty());
    assert(steps(ops@) =~= start + goal.0);
    (max, false)
}

/// Appends the steps for the image's segments; returns the highest end address and
/// whether a segment stopped the layout.
pub fn push_segment_steps(ops: &mut Vec<LayoutOp>, data: &[u8], bias: u64) -> (r: (u64, bool))
    requires
        parse_failure(data@) is None,
    ensures
        steps(final(ops)@) == steps(old(ops)@) + seg_steps(data@, bias, 0, 0).0,
        r == (seg_steps(data@, bias, 0, 0).1, seg_steps(data@, bias, 0, 0).2),
{
    let segs = file_segments(data);
    let mut datas: Vec<Result<Vec<u8>, String>> = Vec::new();
    let mut i: usize = 0;
    while i < segs.len()
        invariant
            parse_failure(data@) is None,
            segs@ == segments_of(data@),
            0 <= i <= segs.len(),
            datas.len() == i,
            forall|k: int| 0 <= k < i ==> #[trigger] datas_view(datas@)[k] == segment_data_of(data@, k),
        decreases segs.len() - i,
    {
        let d = file_segment_data(data, i);
        let ghost before = datas@;
        datas.push(d);
        proof {
            assert forall|k: int| 0 <= k < i + 1 implies #[trigger] datas_view(datas@)[k] == segment_data_of(data@, k) by {
                if k < i {
                    assert(datas@[k] == before[k]);
                    assert(datas_view(before)[k] == segment_data_of(data@, k));
                }
            }
        }
        i = i + 1;
    }
    assert(datas_view(datas@) =~= seg_datas(data@));
    push_segment_steps_from(ops, &segs, &datas, bias)
}

// Dynamic relocations ----------------------------------------------------------------

/// Where the emulator keeps the data objects a program may import: `stdout`, `stderr`,
/// `stdin`, `optind`, `optarg`, `opterr`, `optopt`, `environ`; 0 for any other name.
pub open spec fn data_symbol_value(n: Seq<char>) -> u64 {
    if n == "stdout"@ {
        0x7f010000
    } else if n == "stderr"@ {
        0x7f010100
    } else if n == "stdin"@ {
        0x7f010200
    } else if n == "optind"@ {
        0x7f010300
    } else if n == "optarg"@ {
        0x7f010308
    } else if n == "opterr"@ {
        0x7f010310
    } else if n == "optopt"@ {
        0x7f010318
    } else if n == "environ"@ {
        0x7f010400
    } else {
        0
    }
}

/// The position of the first thunk named `n`.
pub open spec fn thunk_index(thunks: Seq<(u64, Seq<char>)>, n: Seq<char>, k: int) -> Option<int>
    decreases thunks.len() - k,
{
    if k < 0 || k >= thunks.len() {
        None
    } else if thunks[k].1 == n {
        Some(k)
    } else {
        thunk_index(thunks, n, k + 1)
    }
}

/// The trampoline of an imported function: the one it already has, or the next free
/// slot (8 bytes each from 0x7f000000, modulo 2^64), which is then recorded.
pub open spec fn thunk_for(thunks: Seq<(u64, Seq<char>)>, n: Seq<char>) -> (u64, Seq<(u64, Seq<char>)>) {
    match thunk_index(thunks, n, 0) {
        Some(k) => (thunks[k].0, thunks),
        None => {
            let a = wadd(0x7f000000, crate::interp::wmul(thunks.len() as u64, 8));
            (a, thunks.push((a, n)))
        },
    }
}

/// What the search for a name in the trampoline table finds: the first entry at or after
/// `k` with that name.
proof fn lemma_thunk_index(thunks: Seq<(u64, Seq<char>)>, n: Seq<char>, k: int)
    requires
        0 <= k,
    ensures
        match thunk_index(thunks, n, k) {
            Some(j) => k <= j < thunks.len() && thunks[j].1 == n
                && forall|i: int| k <= i < j ==> #[trigger] thunks[i].1 != n,
            None => forall|i: int| k <= i < thunks.len() ==> #[trigger] thunks[i].1 != n,
        },
    decreases thunks.len() - k,
{
    if k < thunks.len() && thunks[k].1 != n {
        lemma_thunk_index(thunks, n, k + 1);
    }
}

/// A trampoline table as the loaders build it: entry `i` sits at 0x7f000000 + 8i
/// (modulo 2^64) and no name occurs twice.
pub open spec fn thunks_wf(thunks: Seq<(u64, Seq<char>)>) -> bool {
    &&& forall|i: int| 0 <= i < thunks.len() ==> (#[trigger] thunks[i]).0 == wadd(0x7f000000, crate::interp::wmul(i as u64, 8))
    &&& forall|i: int, j: int| 0 <= i < j < thunks.len() ==> (#[trigger] thunks[i]).1 != (#[trigger] thunks[j]).1
}

/// Law: asking for the trampoline of a function keeps the table well formed, records
/// the function under the address it answers, and asking again gives the same address
/// and leaves the table as it is.
pub proof fn law_thunk_for_stable(thunks: Seq<(u64, Seq<char>)>, n: Seq<char>)
    requires
        thunks_wf(thunks),
    ensures
        thunks_wf(thunk_for(thunks, n).1),
        thunk_index(thunk_for(thunks, n).1, n, 0) matches Some(j)
            && thunk_for(thunks, n).1[j] == (thunk_for(thunks, n).0, n),
        thunk_for(thunk_for(thunks, n).1, n) == thunk_for(thunks, n),
{
    lemma_thunk_index(thunks, n, 0);
    let (a, t2) = thunk_for(thunks, n);
    lemma_thunk_index(t2, n, 0);
    match thunk_index(thunks, n, 0) {
        Some(k) => {},
        None => {
            let len = thunks.len() as int;
            assert(t2[len] == (a, n));
            assert forall|i: int, j: int| 0 <= i < j < t2.len() implies (#[trigger] t2[i]).1 != (#[trigger] t2[j]).1 by {
                if j == len {
                    assert(t2[i] == thunks[i]);
                } else {
                    assert(t2[i] == thunks[i] && t2[j] == thunks[j]);
                }
            }
            assert forall|i: int| 0 <= i < t2.len() implies (#[trigger] t2[i]).0 == wadd(0x7f000000, crate::interp::wmul(i as u64, 8)) by {
                if i < len {
                    assert(t2[i] == thunks[i]);
                }
            }
        },
    }
}

/// The value a relocation stores and the thunks after it. Against an undefined symbol
/// with a nonempty readable name: the data object's address, or the function's
/// trampoline. Against a defined symbol at a nonzero address: that address plus the bias
/// and the addend. Otherwise the bias plus the addend. Sums wrap modulo 2^64.
pub open spec fn reloc_value(
    syms: Seq<(u64, bool, Option<Seq<char>>)>,
    target: Option<usize>,
    addend: i64,
    bias: u64,
    thunks: Seq<(u64, Seq<char>)>,
) -> (u64, Seq<(u64, Seq<char>)>) {
    let plain = (wadd(bias, addend as u64), thunks);
    match target {
        Some(idx) => if idx < syms.len() {
            let (saddr, undef, name) = syms[idx as int];
            if undef {
                match name {
                    Some(n) => if n.len() > 0 {
                        if data_symbol_value(n) != 0 { (data_symbol_value(n), thunks) } else { thunk_for(thunks, n) }
                    } else {
                        plain
                    },
                    None => plain,
                }
            } else if saddr != 0 {
                (wadd(wadd(saddr, bias), addend as u64), thunks)
            } else {
                plain
            }
        } else {
            plain
        },
        None => plain,
    }
}

/// The writes of relocations `i` on (each stores its value, 8 bytes little endian, at
/// its offset plus the bias, faults ignored) and the thunks they leave.
pub open spec fn reloc_steps(
    syms: Seq<(u64, bool, Option<Seq<char>>)>,
    relocs: Seq<(u64, Option<usize>, i64)>,
    bias: u64,
    i: int,
    thunks: Seq<(u64, Seq<char>)>,
) -> (Seq<StepView>, Seq<(u64, Seq<char>)>)
    decreases relocs.len() - i,
{
    if i < 0 || i >= relocs.len() {
        (Seq::empty(), thunks)
    } else {
        let (off, target, addend) = relocs[i];
        let (v, thunks2) = reloc_value(syms, target, addend, bias, thunks);
        let (rest, fin) = reloc_steps(syms, relocs, bias, i + 1, thunks2);
        (seq![StepView::Write { addr: wadd(off, bias), data: le_bytes(v, 8), required: false }] + rest, fin)
    }
}

/// The value of a name among the data objects.
fn data_symbol_value_of(n: &String) -> (r: u64)
    ensures
        r == data_symbol_value(n@),
{
    if *n == "stdout".to_owned() {
        0x7f010000
    } else if *n == "stderr".to_owned() {
        0x7f010100
    } else if *n == "stdin".to_owned() {
        0x7f010200
    } else if *n == "optind".to_owned() {
        0x7f010300
    } else if *n == "optarg".to_owned() {
        0x7f010308
    } else if *n == "opterr".to_owned() {
        0x7f010310
    } else if *n == "optopt".to_owned() {
        0x7f010318
    } else if *n == "environ".to_owned() {
        0x7f010400
    } else {
        0
    }
}

/// The trampoline for `n`, recording a new one in `thunks` when needed.
pub fn thunk_for_exec(thunks: &mut Vec<(u64, String)>, n: &String) -> (r: u64)
    ensures
        (r, final(thunks).deep_view()) == thunk_for(old(thunks).deep_view(), n@),
{
    let ghost tv = thunks.deep_view();
    let mut k: usize = 0;
    while k < thunks.len()
        invariant
            0 <= k <= thunks.len(),
            tv == thunks.deep_view(),
            tv.len() == thunks.len(),
            thunk_index(tv, n@, 0) == thunk_index(tv, n@, k as int),
        decreases thunks.len() - k,
    {
        assert(tv[k as int] == (thunks@[k as int].0, thunks@[k as int].1@));
        if thunks[k].1 == *n {
            return thunks[k].0;
        }
        k = k + 1;
    }
    let a = 0x7f000000u64.wrapping_add((thunks.len() as u64).wrapping_mul(8));
    thunks.push((a, n.clone()));
    assert(thunks.deep_view() =~= tv.push((a, n@)));
    a
}

/// Appends the writes of the relocations; returns the thunks they leave.
pub fn push_reloc_steps(
    ops: &mut Vec<LayoutOp>,
    syms: &Vec<(u64, bool, Option<String>)>,
    relocs: &Vec<(u64, Option<usize>, i64)>,
    bias: u64,
) -> (r: Vec<(u64, String)>)
    ensures
        steps(final(ops)@) == steps(old(ops)@) + reloc_steps(syms.deep_view(), relocs.deep_view(), bias, 0, Seq::empty()).0,
        r.deep_view() == reloc_steps(syms.deep_view(), relocs.deep_view(), bias, 0, Seq::empty()).1,
{
    let ghost sv = syms.deep_view();
    let ghost rv = relocs.deep_view();
    let ghost goal = reloc_steps(sv, rv, bias, 0, Seq::empty());
    let ghost start = steps(ops@);
    let mut thunks: Vec<(u64, String)> = Vec::new();
    assert(thunks.deep_view() =~= Seq::<(u64, Seq<char>)>::empty());
    let mut i: usize = 0;
    while i < relocs.len()
        invariant
            0 <= i <= relocs.len(),
            sv == syms.deep_view(),
            rv == relocs.deep_view(),
            rv.len() == relocs.len(),
            sv.len() == syms.len(),
            start == steps(old(ops)@),
            goal == reloc_steps(sv, rv, bias, 0, Seq::empty()),
            steps(ops@) + reloc_steps(sv, rv, bias, i as int, thunks.deep_view()).0 == start + goal.0,
            reloc_steps(sv, rv, bias, i as int, thunks.deep_view()).1 == goal.1,
        decreases relocs.len() - i,
    {
        let (off, target, addend) = relocs[i];
        assert(rv[i as int] == relocs@[i as int]);
        let ghost tv = thunks.deep_view();
        assert(tv.len() == thunks@.len());
        let plain = bias.wrapping_add(addend as u64);
        let v = match target {
            Some(idx) => if idx < syms.len() {
                assert(sv[idx as int] == (syms@[idx as int].0, syms@[idx as int].1, syms@[idx as int].2.deep_view()));
                let saddr = syms[idx].0;
                if syms[idx].1 {
                    match &syms[idx].2 {
                        Some(n) => if n.as_str().unicode_len() > 0 {
                            let dv = data_symbol_value_of(n);
                            if dv != 0 { dv } else { thunk_for_exec(&mut thunks, n) }
                        } else {
                            plain
                        },
                        None => plain,
                    }
                } else if saddr != 0 {
                    saddr.wrapping_add(bias).wrapping_add(addend as u64)
                } else {
                    plain
                }
            } else {
                plain
            },
            None => plain,
        };
        assert((v, thunks.deep_view()) == reloc_value(sv, target, addend, bias, tv));
        let ghost before = steps(ops@);
        ops.push(LayoutOp::Write { addr: off.wrapping_add(bias), data: le_bytes_vec(v, 8), required: false });
        assert(steps(ops@) =~= before.push(StepView::Write { addr: wadd(off, bias), data: le_bytes(v, 8), required: false }));
        assert(steps(ops@) + reloc_steps(sv, rv, bias, i + 1, thunks.deep_view()).0 =~= before
            + reloc_steps(sv, rv, bias, i as int, tv).0);
        i = i + 1;
    }
    assert(reloc_steps(sv, rv, bias, i as int, thunks.deep_view()).0 =~= Seq::<StepView>::empty());
    assert(steps(ops@) =~= start + goal.0);
    thunks
}

} // verus!
