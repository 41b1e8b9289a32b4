//! Building the initial process stack: strings, then pointer vectors and counts.

use vstd::prelude::*;
use crate::interp::le_bytes;
use crate::interp::memops::le_bytes_vec;
use crate::loader::layout::{steps, LayoutOp, StepView};

verus! {

/// A stack under construction: the stack pointer and the layout steps so far.
pub type StackState = (u64, Seq<StepView>);

/// `x - y` modulo 2^64.
pub open spec fn wsub64(x: u64, y: u64) -> u64 {
    vstd::wrapping::u64_specs::wrapping_sub(x, y)
}

/// Pushing a string: the stack pointer drops by its length plus one (modulo 2^64); the
/// bytes and a terminating zero are written there.
pub open spec fn push_string(st: StackState, s: Seq<u8>) -> StackState {
    let sp = wsub64(st.0, crate::interp::wadd(s.len() as u64, 1));
    (sp, st.1 + seq![
        StepView::Write { addr: sp, data: s, required: true },
        StepView::Write { addr: crate::interp::wadd(sp, s.len() as u64), data: seq![0u8], required: true },
    ])
}

/// Pushing the first `n` strings, in order.
pub open spec fn push_strings(st: StackState, strs: Seq<Seq<u8>>, n: int) -> StackState
    decreases n,
{
    if n <= 0 {
        st
    } else {
        push_string(push_strings(st, strs, n - 1), strs[n - 1])
    }
}

/// Where each string ends up when all are pushed in order.
pub open spec fn str_ptrs(st: StackState, strs: Seq<Seq<u8>>) -> Seq<u64> {
    Seq::new(strs.len(), |i: int| push_strings(st, strs, i + 1).0)
}

/// Pushing a word: the stack pointer drops by 8; the word is written there.
pub open spec fn push_word(st: StackState, w: u64) -> StackState {
    let sp = wsub64(st.0, 8);
    (sp, st.1.push(StepView::Write { addr: sp, data: le_bytes(w, 8), required: true }))
}

/// Pushing the last `k` words of `ws`, last first (so that the words end up in order
/// from the final stack pointer up).
pub open spec fn push_rev(st: StackState, ws: Seq<u64>, k: int) -> StackState
    decreases k,
{
    if k <= 0 {
        st
    } else {
        push_word(push_rev(st, ws, k - 1), ws[ws.len() - k])
    }
}

/// Pushes a string onto the stack whose pointer is `sp`; returns the new pointer.
pub fn push_string_exec(ops: &mut Vec<LayoutOp>, sp: u64, s: &Vec<u8>) -> (r: u64)
    ensures
        (r, steps(final(ops)@)) == push_string((sp, steps(old(ops)@)), s@),
{
    let len = s.len() as u64;
    let new_sp = sp.wrapping_sub(len.wrapping_add(1));
    let ghost before = steps(ops@);
    ops.push(LayoutOp::Write { addr: new_sp, data: s.clone(), required: true });
    let mut zero: Vec<u8> = Vec::new();
    zero.push(0);
    ops.push(LayoutOp::Write { addr: new_sp.wrapping_add(len), data: zero, required: true });
    assert(steps(ops@) =~= before + seq![
        StepView::Write { addr: new_sp, data: s@, required: true },
        StepView::Write { addr: crate::interp::wadd(new_sp, s@.len() as u64), data: seq![0u8], required: true },
    ]);
    new_sp
}

/// Pushes a word onto the stack whose pointer is `sp`; returns the new pointer.
pub fn push_word_exec(ops: &mut Vec<LayoutOp>, sp: u64, w: u64) -> (r: u64)
    ensures
        (r, steps(final(ops)@)) == push_word((sp, steps(old(ops)@)), w),
{
    let new_sp = sp.wrapping_sub(8);
    let ghost before = steps(ops@);
    ops.push(LayoutOp::Write { addr: new_sp, data: le_bytes_vec(w, 8), required: true });
    assert(steps(ops@) =~= before.push(StepView::Write { addr: new_sp, data: le_bytes(w, 8), required: true }));
    new_sp
}

/// Pushes the strings in order; returns the new pointer and where each string went.
pub fn push_strings_exec(ops: &mut Vec<LayoutOp>, sp: u64, strs: &Vec<Vec<u8>>) -> (r: (u64, Vec<u64>))
    ensures
        (r.0, steps(final(ops)@)) == push_strings((sp, steps(old(ops)@)), strs.deep_view(), strs.len() as int),
        r.1@ == str_ptrs((sp, steps(old(ops)@)), strs.deep_view()),
{
    let ghost st0 = (sp, steps(old(ops)@));
    let ghost all = strs.deep_view();
    let mut cur = sp;
    let mut ptrs: Vec<u64> = Vec::new();
    let mut i: usize = 0;
    while i < strs.len()
        invariant
            0 <= i <= strs.len(),
            all == strs.deep_view(),
            all.len() == strs.len(),
            st0 == (sp, steps(old(ops)@)),
            (cur, steps(ops@)) == push_strings(st0, all, i as int),
            ptrs@ == str_ptrs(st0, all).subrange(0, i as int),
        decreases strs.len() - i,
    {
        assert(all[i as int] == strs@[i as int]@);
        cur = push_string_exec(ops, cur, &strs[i]);
        ptrs.push(cur);
        i = i + 1;
        assert(ptrs@ =~= str_ptrs(st0, all).subrange(0, i as int));
    }
    assert(str_ptrs(st0, all).subrange(0, strs.len() as int) =~= str_ptrs(st0, all));
    (cur, ptrs)
}

/// Pushes all the words of `ws`, last first; returns the new pointer.
pub fn push_rev_exec(ops: &mut Vec<LayoutOp>, sp: u64, ws: &Vec<u64>) -> (r: u64)
    ensures
        (r, steps(final(ops)@)) == push_rev((sp, steps(old(ops)@)), ws@, ws.len() as int),
{
    let ghost st0 = (sp, steps(old(ops)@));
    let mut cur = sp;
    let mut k: usize = 0;
    while k < ws.len()
        invariant
            0 <= k <= ws.len(),
            st0 == (sp, steps(old(ops)@)),
            (cur, steps(ops@)) == push_rev(st0, ws@, k as int),
        decreases ws.len() - k,
    {
        cur = push_word_exec(ops, cur, ws[ws.len() - 1 - k]);
        k = k + 1;
    }
    cur
}

/// The deep view of a byte vector is its view.
pub proof fn lemma_bytes_view(v: Vec<u8>)
    ensures
        v.deep_view() == v@,
{
    assert(v.deep_view() =~= v@);
}

} // verus!
