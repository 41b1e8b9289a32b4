//! Laying an image out in guest memory: a list of mapping, writing and break steps,
//! and their effect.

use vstd::prelude::*;
use crate::memory::{
    align_up_spec, bounded, bounds_message, chunk_write, disjoint, is_memory_error, law_read_after_write,
    lemma_chunk_write_frame, lemma_shape_disjoint, map_outcome, read_spec, same_shape, MemView, MemoryManager,
    PROT_EXEC, PROT_READ, PROT_WRITE,
};
use crate::Error;

verus! {

/// One step of laying an image out.
pub enum LayoutOp {
    /// Map `size` bytes, readable, writable and executable, at `addr`; a refusal is an
    /// error when `required`.
    MapZero { addr: u64, size: usize, required: bool },
    /// Write `data` at `addr`; a fault is an error when `required`.
    Write { addr: u64, data: Vec<u8>, required: bool },
    /// Place the program break at the page boundary at or above the address (which
    /// wraps to zero within the last page of the address space).
    BrkBase(u64),
    /// Stop with a load error carrying the message.
    Fail(String),
}

/// A layout step as plain values.
pub ghost enum StepView {
    MapZero { addr: u64, size: nat, required: bool },
    Write { addr: u64, data: Seq<u8>, required: bool },
    BrkBase(u64),
    Fail(Seq<char>),
}

impl LayoutOp {
    pub open spec fn step(&self) -> StepView {
        match self {
            LayoutOp::MapZero { addr, size, required } => StepView::MapZero { addr: *addr, size: *size as nat, required: *required },
            LayoutOp::Write { addr, data, required } => StepView::Write { addr: *addr, data: data@, required: *required },
            LayoutOp::BrkBase(b) => StepView::BrkBase(*b),
            LayoutOp::Fail(m) => StepView::Fail(m@),
        }
    }
}

/// The steps of a list, as plain values.
pub open spec fn steps(ops: Seq<LayoutOp>) -> Seq<StepView> {
    ops.map_values(|o: LayoutOp| o.step())
}

/// Why laying out stopped: a memory error or a load error, with its message.
pub ghost enum LayoutFault {
    Memory(Seq<char>),
    Load(Seq<char>),
}

/// `e` is the error of fault `f`.
pub open spec fn is_layout_error(e: Error, f: LayoutFault) -> bool {
    match f {
        LayoutFault::Memory(m) => is_memory_error(e, m),
        LayoutFault::Load(m) => e matches Error::LoadError(s) && s@ == m,
    }
}

/// Where the program break goes for a base address.
pub open spec fn brk_base_value(b: u64) -> u64 {
    if b > u64::MAX - 4095 { 0 } else { align_up_spec(b as int) as u64 }
}

/// The effect of the steps from `i` on: the manager after them and the fault that
/// stopped them, if any.
pub open spec fn apply_from(m: MemView, ops: Seq<StepView>, i: int) -> (MemView, Option<LayoutFault>)
    decreases ops.len() - i,
{
    if i < 0 || i >= ops.len() {
        (m, None)
    } else {
        match ops[i] {
            StepView::MapZero { addr, size, required } => {
                let (m2, o) = map_outcome(m, addr, size, PROT_READ | PROT_WRITE | PROT_EXEC);
                match o {
                    Err(msg) => if required { (m2, Some(LayoutFault::Memory(msg))) } else { apply_from(m2, ops, i + 1) },
                    Ok(_) => apply_from(m2, ops, i + 1),
                }
            },
            StepView::Write { addr, data, required } => {
                let (s2, ok) = chunk_write(m.segs, addr as int, data);
                let m2 = MemView { segs: s2, ..m };
                if !ok && required {
                    (m2, Some(LayoutFault::Memory(bounds_message(s2, addr, data.len()))))
                } else {
                    apply_from(m2, ops, i + 1)
                }
            },
            StepView::BrkBase(b) => {
                let v = brk_base_value(b);
                apply_from(MemView { brk_base: v, brk_current: v, brk_mapped_end: v, ..m }, ops, i + 1)
            },
            StepView::Fail(msg) => (m, Some(LayoutFault::Load(msg))),
        }
    }
}

/// Running the steps with one more at the end: the steps before it, then it (unless
/// they already stopped).
proof fn lemma_apply_push(m: MemView, s: Seq<StepView>, x: StepView, i: int)
    requires
        0 <= i <= s.len(),
    ensures
        apply_from(m, s.push(x), i) == (if apply_from(m, s, i).1 is Some {
            apply_from(m, s, i)
        } else {
            apply_from(apply_from(m, s, i).0, seq![x], 0)
        }),
    decreases s.len() - i,
{
    let t = s.push(x);
    if i == s.len() {
        assert(t[i] == x);
        assert(seq![x][0] == x);
        match x {
            StepView::MapZero { addr, size, required } => {
                let (m2, o) = map_outcome(m, addr, size, PROT_READ | PROT_WRITE | PROT_EXEC);
                assert(apply_from(m2, t, i + 1) == (m2, None::<LayoutFault>));
                assert(apply_from(m2, seq![x], 1) == (m2, None::<LayoutFault>));
            },
            StepView::Write { addr, data, required } => {
                let m2 = MemView { segs: chunk_write(m.segs, addr as int, data).0, ..m };
                assert(apply_from(m2, t, i + 1) == (m2, None::<LayoutFault>));
                assert(apply_from(m2, seq![x], 1) == (m2, None::<LayoutFault>));
            },
            StepView::BrkBase(b) => {
                let v = brk_base_value(b);
                let m2 = MemView { brk_base: v, brk_current: v, brk_mapped_end: v, ..m };
                assert(apply_from(m2, t, i + 1) == (m2, None::<LayoutFault>));
                assert(apply_from(m2, seq![x], 1) == (m2, None::<LayoutFault>));
            },
            StepView::Fail(msg) => {},
        }
    } else {
        assert(t[i] == s[i]);
        match s[i] {
            StepView::MapZero { addr, size, required } => {
                let (m2, o) = map_outcome(m, addr, size, PROT_READ | PROT_WRITE | PROT_EXEC);
                lemma_apply_push(m2, s, x, i + 1);
            },
            StepView::Write { addr, data, required } => {
                let m2 = MemView { segs: chunk_write(m.segs, addr as int, data).0, ..m };
                lemma_apply_push(m2, s, x, i + 1);
            },
            StepView::BrkBase(b) => {
                let v = brk_base_value(b);
                lemma_apply_push(MemView { brk_base: v, brk_current: v, brk_mapped_end: v, ..m }, s, x, i + 1);
            },
            StepView::Fail(msg) => {},
        }
    }
}

/// Law: when a layout ending in a required write succeeds and leaves segments that do
/// not overlap, the bytes of that last write are in memory where it wrote them.
pub proof fn law_last_write_lands(m: MemView, s: Seq<StepView>, addr: u64, data: Seq<u8>)
    requires
        apply_from(m, s.push(StepView::Write { addr, data, required: true }), 0).1 is None,
        disjoint(apply_from(m, s.push(StepView::Write { addr, data, required: true }), 0).0.segs),
        bounded(apply_from(m, s.push(StepView::Write { addr, data, required: true }), 0).0.segs),
    ensures
        read_spec(apply_from(m, s.push(StepView::Write { addr, data, required: true }), 0).0.segs, addr as int, data.len())
            == Some(data),
{
    let x = StepView::Write { addr, data, required: true };
    lemma_apply_push(m, s, x, 0);
    let mp = apply_from(m, s, 0).0;
    let w = chunk_write(mp.segs, addr as int, data);
    assert(apply_from(MemView { segs: w.0, ..mp }, seq![x], 1) == (MemView { segs: w.0, ..mp }, None::<LayoutFault>));
    assert(w.1);
    let fin = w.0;
    lemma_chunk_write_frame(mp.segs, addr as int, data);
    assert(same_shape(fin, mp.segs));
    lemma_shape_disjoint(fin, mp.segs);
    assert(bounded(mp.segs)) by {
        assert forall|i: int| 0 <= i < mp.segs.len() implies 0 <= (#[trigger] mp.segs[i]).addr
            && mp.segs[i].addr + mp.segs[i].bytes.len() <= u64::MAX by {
            assert(fin[i].addr == mp.segs[i].addr && fin[i].bytes.len() == mp.segs[i].bytes.len());
        }
    }
    law_read_after_write(mp.segs, addr as int, data);
}

/// Carries out the steps in order, stopping at the first required step that fails.
pub fn apply_layout(mem: &mut MemoryManager, ops: &Vec<LayoutOp>) -> (r: Result<(), Error>)
    requires
        old(mem).wf(),
    ensures
        final(mem).wf(),
        final(mem)@ == apply_from(old(mem)@, steps(ops@), 0).0,
        match apply_from(old(mem)@, steps(ops@), 0).1 {
            None => r is Ok,
            Some(f) => r is Err && is_layout_error(r->Err_0, f),
        },
{
    let ghost all = steps(ops@);
    let ghost goal = apply_from(old(mem)@, all, 0);
    let mut i: usize = 0;
    while i < ops.len()
        invariant
            mem.wf(),
            all == steps(ops@),
            0 <= i <= ops.len(),
            goal == apply_from(mem@, all, i as int),
            goal == apply_from(old(mem)@, all, 0),
        decreases ops.len() - i,
    {
        assert(all[i as int] == ops@[i as int].step());
        match &ops[i] {
            LayoutOp::MapZero { addr, size, required } => {
                let ghost before = mem@;
                match mem.map_anonymous(*addr, *size) {
                    Ok(_) => {},
                    Err(e) => {
                        if *required {
                            assert(map_outcome(before, *addr, *size as nat, PROT_READ | PROT_WRITE | PROT_EXEC).1 is Err);
                            return Err(e);
                        }
                    },
                }
            },
            LayoutOp::Write { addr, data, required } => {
                match mem.write(*addr, data.as_slice()) {
                    Ok(()) => {},
                    Err(e) => {
                        if *required {
                            return Err(e);
                        }
                    },
                }
            },
            LayoutOp::BrkBase(b) => {
                let base = if *b > u64::MAX - 4095 { 0 } else { *b };
                mem.set_brk_base(base);
                assert(align_up_spec(0) == 0);
            },
            LayoutOp::Fail(m) => {
                return Err(Error::LoadError(m.clone()));
            },
        }
        i = i + 1;
    }
    Ok(())
}

} // verus!
