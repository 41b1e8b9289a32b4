//! Lane-wise arithmetic on 16-byte SIMD registers.

use vstd::prelude::*;
use crate::interp::{le_value, le_value_of, le_bytes, lane, put_le, wadd};

verus! {

/// Byte `j` of `val`, little endian.
pub open spec fn lane_byte(val: u64, j: int) -> u8 {
    ((val >> ((8 * j) as u64)) & 0xff) as u8
}

/// All ones in a lane of `esz` bytes.
pub open spec fn lane_mask(esz: int) -> u64 {
    if esz == 1 {
        0xff
    } else if esz == 2 {
        0xffff
    } else if esz == 4 {
        0xffff_ffff
    } else {
        0xffff_ffff_ffff_ffff
    }
}

/// A valid element size.
pub open spec fn esz_ok(esz: int) -> bool {
    esz == 1 || esz == 2 || esz == 4 || esz == 8
}

/// How one result lane is computed from the corresponding lane `a` and operand `b`.
#[derive(Clone, Copy, PartialEq, Eq, Structural, Debug)]
pub enum LaneKind {
    /// Wrapping addition.
    Add,
    /// Shift left by a signed amount (right when negative). The amount is the signed
    /// value of the `b` lane when `from_vec`, else `b` truncated to 32 bits.
    Shl { from_vec: bool },
    CmEq,
    CmHi,
    CmHs,
    CmGt,
    CmGe,
    CmTst,
    /// Every lane takes `b` truncated to the lane.
    Splat,
}

/// The signed shift amount taken from lane `b`.
pub open spec fn lane_shift_amount(b: u64, esz: int, from_vec: bool) -> i32 {
    if !from_vec {
        b as i32
    } else if esz == 1 {
        (b as u8) as i8 as i32
    } else if esz == 2 {
        (b as u16) as i16 as i32
    } else if esz == 4 {
        (b as u32) as i32
    } else {
        (b as i64) as i32
    }
}

/// `a` (a lane of `esz` bytes) shifted by the signed amount `s`, wrapping the amount
/// modulo the lane width as the lane type's wrapping shifts do.
pub open spec fn lane_shift(a: u64, s: i32, esz: int) -> u64 {
    let bits = (8 * esz) as u32;
    if s >= 0 {
        (a << ((s as u32) % bits)) & lane_mask(esz)
    } else {
        a >> ((vstd::wrapping::i32_specs::wrapping_sub(0, s) as u32) % bits)
    }
}

/// Signed greater-than of two lanes of `esz` bytes.
pub open spec fn lane_gt_signed(a: u64, b: u64, esz: int) -> bool {
    if esz == 1 {
        (a as i8) > (b as i8)
    } else if esz == 2 {
        (a as i16) > (b as i16)
    } else if esz == 4 {
        (a as i32) > (b as i32)
    } else {
        (a as i64) > (b as i64)
    }
}

/// Signed greater-or-equal of two lanes of `esz` bytes.
pub open spec fn lane_ge_signed(a: u64, b: u64, esz: int) -> bool {
    if esz == 1 {
        (a as i8) >= (b as i8)
    } else if esz == 2 {
        (a as i16) >= (b as i16)
    } else if esz == 4 {
        (a as i32) >= (b as i32)
    } else {
        (a as i64) >= (b as i64)
    }
}

/// The value of one result lane.
pub open spec fn lane_calc_spec(kind: LaneKind, a: u64, b: u64, esz: int) -> u64 {
    match kind {
        LaneKind::Add => wadd(a, b),
        LaneKind::Shl { from_vec } => lane_shift(a, lane_shift_amount(b, esz, from_vec), esz),
        LaneKind::CmEq => if a == b { lane_mask(esz) } else { 0 },
        LaneKind::CmHi => if a > b { lane_mask(esz) } else { 0 },
        LaneKind::CmHs => if a >= b { lane_mask(esz) } else { 0 },
        LaneKind::CmGt => if lane_gt_signed(a, b, esz) { lane_mask(esz) } else { 0 },
        LaneKind::CmGe => if lane_ge_signed(a, b, esz) { lane_mask(esz) } else { 0 },
        LaneKind::CmTst => if a & b != 0 { lane_mask(esz) } else { 0 },
        LaneKind::Splat => b & lane_mask(esz),
    }
}

fn lane_mask_of(esz: usize) -> (r: u64)
    ensures
        r == lane_mask(esz as int),
{
    if esz == 1 {
        0xff
    } else if esz == 2 {
        0xffff
    } else if esz == 4 {
        0xffff_ffff
    } else {
        0xffff_ffff_ffff_ffff
    }
}

fn lane_calc(kind: LaneKind, a: u64, b: u64, esz: usize) -> (r: u64)
    requires
        esz_ok(esz as int),
    ensures
        r == lane_calc_spec(kind, a, b, esz as int),
{
    match kind {
        LaneKind::Add => a.wrapping_add(b),
        LaneKind::Shl { from_vec } => {
            let s: i32 = if !from_vec {
                b as i32
            } else if esz == 1 {
                (b as u8) as i8 as i32
            } else if esz == 2 {
                (b as u16) as i16 as i32
            } else if esz == 4 {
                (b as u32) as i32
            } else {
                (b as i64) as i32
            };
            let bits = (8 * esz) as u32;
            if s >= 0 {
                (a << ((s as u32) % bits)) & lane_mask_of(esz)
            } else {
                a >> ((0i32.wrapping_sub(s) as u32) % bits)
            }
        },
        LaneKind::CmEq => if a == b { lane_mask_of(esz) } else { 0 },
        LaneKind::CmHi => if a > b { lane_mask_of(esz) } else { 0 },
        LaneKind::CmHs => if a >= b { lane_mask_of(esz) } else { 0 },
        LaneKind::CmGt => {
            let gt = if esz == 1 {
                (a as i8) > (b as i8)
            } else if esz == 2 {
                (a as i16) > (b as i16)
            } else if esz == 4 {
                (a as i32) > (b as i32)
            } else {
                (a as i64) > (b as i64)
            };
            if gt { lane_mask_of(esz) } else { 0 }
        },
        LaneKind::CmGe => {
            let ge = if esz == 1 {
                (a as i8) >= (b as i8)
            } else if esz == 2 {
                (a as i16) >= (b as i16)
            } else if esz == 4 {
                (a as i32) >= (b as i32)
            } else {
                (a as i64) >= (b as i64)
            };
            if ge { lane_mask_of(esz) } else { 0 }
        },
        LaneKind::CmTst => if a & b != 0 { lane_mask_of(esz) } else { 0 },
        LaneKind::Splat => b & lane_mask_of(esz),
    }
}

/// The second operand of a lane: the lane of `v2` when there is a vector, else `imm`.
pub open spec fn lane_b(v2: Option<Seq<u8>>, imm: u64, i: int, esz: int) -> u64 {
    match v2 {
        Some(v) => lane(v, i, esz),
        None => imm,
    }
}

/// The 16 result bytes of a lane-wise operation.
pub open spec fn lanewise_spec(kind: LaneKind, v1: Seq<u8>, v2: Option<Seq<u8>>, imm: u64, esz: int) -> Seq<u8> {
    Seq::new(16, |k: int| lane_byte(lane_calc_spec(kind, lane(v1, k / esz, esz), lane_b(v2, imm, k / esz, esz), esz), k % esz))
}

/// Position `i * esz + j` of a lane-structured register is byte `j` of lane `i`.
pub proof fn lemma_lane_pos(i: int, j: int, esz: int)
    requires
        esz > 0,
        0 <= j < esz,
        0 <= i,
    ensures
        (i * esz + j) / esz == i,
        (i * esz + j) % esz == j,
{
    vstd::arithmetic::div_mod::lemma_fundamental_div_mod_converse(i * esz + j, esz, i, j);
}

/// Applies a lane-wise operation to every lane of `v1` (and `v2` or `imm`).
pub fn lanewise(kind: LaneKind, v1: &[u8; 16], v2: Option<&[u8; 16]>, imm: u64, esz: usize) -> (r: [u8; 16])
    requires
        esz_ok(esz as int),
    ensures
        r@ == lanewise_spec(kind, v1@, match v2 { Some(v) => Some(v@), None => None }, imm, esz as int),
{
    let ghost v2s = match v2 { Some(v) => Some(v@), None => None::<Seq<u8>> };
    let mut res = [0u8; 16];
    let n = 16 / esz;
    let mut i: usize = 0;
    while i < n
        invariant
            esz_ok(esz as int),
            n == 16usize / esz,
            n * esz == 16,
            0 <= i <= n,
            v2s == match v2 { Some(v) => Some(v@), None => None::<Seq<u8>> },
            forall|k: int| 0 <= k < i * esz ==> res@[k] == #[trigger] lanewise_spec(kind, v1@, v2s, imm, esz as int)[k],
        decreases n - i,
    {
        assert(i * esz + esz <= 16) by (nonlinear_arith)
            requires
                i < n,
                n * esz == 16,
                esz > 0,
        ;
        let start = i * esz;
        let a = le_value_of(v1, start, esz);
        let b = match v2 {
            Some(v) => le_value_of(v, start, esz),
            None => imm,
        };
        let x = lane_calc(kind, a, b, esz);
        let ghost before = res@;
        put_le(&mut res, start, esz, x);
        assert forall|k: int| 0 <= k < (i + 1) * esz implies res@[k] == #[trigger] lanewise_spec(kind, v1@, v2s, imm, esz as int)[k] by {
            assert((i + 1) * esz == i * esz + esz) by (nonlinear_arith);
            if k >= start {
                let j = k - start;
                lemma_lane_pos(i as int, j, esz as int);
                assert(res@[k] == le_bytes(x, esz as int)[j]);
            }
        }
        i = i + 1;
    }
    assert(res@ =~= lanewise_spec(kind, v1@, v2s, imm, esz as int));
    res
}

} // verus!
