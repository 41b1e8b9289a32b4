//! Loading Mach-O images, including the AArch64 slice of a universal binary.

use vstd::prelude::*;
use vstd::string::StringSliceAdditionalSpecFns;
use crate::interp::{le_bytes, wadd};
use crate::loader::{lemma_fail_faults, lemma_seg_steps_stop, load_result, stack_start, LoadedBinary, TargetOs};
use crate::loader::layout::{apply_layout, law_last_write_lands, steps, LayoutOp, StepView};
use crate::loader::object_file::{entry_of, file_entry, file_symbols, parse_check, parse_failure, symbols_of};
use crate::loader::segments::{push_segment_steps, seg_steps, thunk_for, thunk_for_exec};
use crate::loader::stack::{
    push_rev, push_rev_exec, push_strings, push_strings_exec, push_word, push_word_exec, str_ptrs, StackState,
};
use crate::memory::{bounded, disjoint, read_spec, MemView, MemoryManager};
use crate::text::concat;
use crate::Error;

verus! {

/// Loader of Mach-O images.
pub struct MachOLoader;

/// The big-endian 32-bit value at byte `i`.
pub open spec fn be32(s: Seq<u8>, i: int) -> u32 {
    ((s[i] as u32) << 24u32 | (s[i + 1] as u32) << 16u32 | (s[i + 2] as u32) << 8u32 | (s[i + 3] as u32)) as u32
}

/// The first AArch64 slice (CPU type 0x0100000C or 0x0100000E) among the architecture
/// records `k..n` of a universal binary, the record `k` at byte `offset`, whose slice lies
/// within the file; the search stops at a record that does not fit.
pub open spec fn fat_slice_from(raw: Seq<u8>, k: int, n: int, offset: int) -> Option<Seq<u8>>
    decreases n - k,
{
    if k >= n || offset + 20 > raw.len() {
        None
    } else {
        let cpu = be32(raw, offset);
        let so = be32(raw, offset + 8) as int;
        let ss = be32(raw, offset + 12) as int;
        if (cpu == 0x0100_000Cu32 || cpu == 0x0100_000Eu32) && so + ss <= raw.len() {
            Some(raw.subrange(so, so + ss))
        } else {
            fat_slice_from(raw, k + 1, n, offset + 20)
        }
    }
}

/// The image to load from a file: for a universal binary (magic 0xcafebabe or
/// 0xbebafeca, big endian) its AArch64 slice when it has one; otherwise the file itself.
pub open spec fn arm64_slice(raw: Seq<u8>) -> Seq<u8> {
    if raw.len() < 8 {
        raw
    } else {
        let magic = be32(raw, 0);
        if magic == 0xcafe_babeu32 || magic == 0xbeba_feca_u32 {
            match fat_slice_from(raw, 0, be32(raw, 4) as int, 8) {
                Some(s) => s,
                None => raw,
            }
        } else {
            raw
        }
    }
}

fn be32_at(raw: &[u8], i: usize) -> (r: u32)
    requires
        i + 4 <= raw@.len(),
    ensures
        r == be32(raw@, i as int),
{
    ((raw[i] as u32) << 24u32 | (raw[i + 1] as u32) << 16u32 | (raw[i + 2] as u32) << 8u32 | (raw[i + 3] as u32)) as u32
}

pub(crate) fn copy_range(raw: &[u8], from: usize, to: usize) -> (r: Vec<u8>)
    requires
        from <= to <= raw@.len(),
    ensures
        r@ == raw@.subrange(from as int, to as int),
{
    let mut v: Vec<u8> = Vec::new();
    let mut i = from;
    while i < to
        invariant
            from <= i <= to <= raw@.len(),
            v@ == raw@.subrange(from as int, i as int),
        decreases to - i,
    {
        v.push(raw[i]);
        i = i + 1;
        assert(v@ =~= raw@.subrange(from as int, i as int));
    }
    v
}

/// The Darwin environment a process starts with.
pub open spec fn darwin_env() -> Seq<Seq<u8>> {
    seq!["PATH=/usr/local/bin:/usr/bin:/bin".spec_bytes(), "USER=root".spec_bytes(), "HOME=/root".spec_bytes()]
}

/// The Darwin process stack above `pre`: environment strings, the "apple" strings (the
/// executable's path and a fixed `pf_random`), then argument strings are stored
/// downwards; the pointer is aligned to 16; then, from the top down, a zero, the apple
/// pointers, a zero, the environment pointers, a zero, the argument pointers and the
/// argument count.
pub open spec fn darwin_stack(args: Seq<Seq<u8>>, exec_path: Seq<u8>, pre: Seq<StepView>) -> StackState {
    let apple = seq![exec_path, "pf_random=0123456789abcdef".spec_bytes()];
    let st0 = stack_start(pre);
    let st1 = push_strings(st0, darwin_env(), 3);
    let st2 = push_strings(st1, apple, 2);
    let st3 = push_strings(st2, args, args.len() as int);
    let st5 = push_word((st3.0 & !0xfu64, st3.1), 0);
    let st6 = push_rev(st5, str_ptrs(st1, apple), 2);
    let st7 = push_word(st6, 0);
    let st8 = push_rev(st7, str_ptrs(st0, darwin_env()), 3);
    let st9 = push_word(st8, 0);
    let st10 = push_rev(st9, str_ptrs(st2, args), args.len() as int);
    push_word(st10, args.len() as u64)
}

/// The last step of a Darwin stack writes the argument count at the final pointer.
proof fn lemma_darwin_stack_last(args: Seq<Seq<u8>>, exec_path: Seq<u8>, pre: Seq<StepView>)
    ensures
        exists|s: Seq<StepView>| darwin_stack(args, exec_path, pre).1 == #[trigger] s.push(StepView::Write {
            addr: darwin_stack(args, exec_path, pre).0,
            data: le_bytes(args.len() as u64, 8),
            required: true,
        }),
{
    let apple = seq![exec_path, "pf_random=0123456789abcdef".spec_bytes()];
    let st0 = stack_start(pre);
    let st1 = push_strings(st0, darwin_env(), 3);
    let st2 = push_strings(st1, apple, 2);
    let st3 = push_strings(st2, args, args.len() as int);
    let st5 = push_word((st3.0 & !0xfu64, st3.1), 0);
    let st6 = push_rev(st5, str_ptrs(st1, apple), 2);
    let st7 = push_word(st6, 0);
    let st8 = push_rev(st7, str_ptrs(st0, darwin_env()), 3);
    let st9 = push_word(st8, 0);
    let st10 = push_rev(st9, str_ptrs(st2, args), args.len() as int);
    let fin = push_word(st10, args.len() as u64);
    assert(fin.1 == st10.1.push(StepView::Write { addr: fin.0, data: le_bytes(args.len() as u64, 8), required: true }));
}

/// Law: after a Mach-O image is loaded, when no two segments overlap, the stack pointer
/// handed to the guest points at the argument count.
#[verifier::rlimit(40)]
pub proof fn law_macho_argc_on_stack(raw: Seq<u8>, exec_path: Seq<u8>, args: Seq<Seq<u8>>, m0: MemView, m1: MemView, r: Result<LoadedBinary, Error>)
    requires
        macho_loaded(raw, exec_path, args, m0, m1, r),
        r is Ok,
        disjoint(m1.segs),
        bounded(m1.segs),
    ensures
        read_spec(m1.segs, r->Ok_0.stack_pointer as int, 8) == Some(le_bytes(args.len() as u64, 8)),
{
    let data = arm64_slice(raw);
    let bias = 0x1_0000_0000u64;
    let l = macho_layout(data, exec_path, args);
    if seg_steps(data, bias, 0, 0).2 {
        lemma_seg_steps_stop(data, bias, 0, 0);
        lemma_fail_faults(m0, l.0, 0, l.0.len() - 1);
    } else {
        let (ss, max, stop) = seg_steps(data, bias, 0, 0);
        let pre = ss + seq![
            StepView::MapZero { addr: 0x7f00_0000, size: 0x2_0000, required: false },
            StepView::MapZero { addr: 0x7f02_0000, size: 0x1_0000, required: false },
            StepView::BrkBase(max),
        ];
        lemma_darwin_stack_last(args, exec_path, pre);
        let st = darwin_stack(args, exec_path, pre);
        assert(l.0 == st.1 && l.2 == st.0);
        let s = choose|s: Seq<StepView>| st.1 == #[trigger] s.push(StepView::Write {
            addr: st.0,
            data: le_bytes(args.len() as u64, 8),
            required: true,
        });
        law_last_write_lands(m0, s, st.0, le_bytes(args.len() as u64, 8));
    }
}

/// A symbol name without one leading underscore.
pub open spec fn strip_underscore(n: Seq<char>) -> Seq<char> {
    if n.len() > 0 && n[0] == '_' { n.drop_first() } else { n }
}

/// The thunks for symbols `i` on: each undefined symbol with a nonempty readable name
/// gets a trampoline under its name without the leading underscore.
pub open spec fn macho_thunks(syms: Seq<(bool, Option<Seq<char>>)>, i: int, thunks: Seq<(u64, Seq<char>)>) -> Seq<(u64, Seq<char>)>
    decreases syms.len() - i,
{
    if i < 0 || i >= syms.len() {
        thunks
    } else {
        let next = if syms[i].0 && syms[i].1 is Some && syms[i].1->0.len() > 0 {
            thunk_for(thunks, strip_underscore(syms[i].1->0)).1
        } else {
            thunks
        };
        macho_thunks(syms, i + 1, next)
    }
}

/// How a Mach-O image that parses is laid out: segments at a bias of 0x100000000
/// (stopping at one whose data cannot be read), the trampoline and TLS pages (refusals
/// ignored), the program break after the highest segment end, then the stack. Gives the
/// steps, entry point, final stack pointer and thunks.
pub open spec fn macho_layout(data: Seq<u8>, exec_path: Seq<u8>, args: Seq<Seq<u8>>) -> (Seq<StepView>, u64, u64, Seq<(u64, Seq<char>)>) {
    let bias = 0x1_0000_0000u64;
    let entry = wadd(entry_of(data), bias);
    let (ss, max, stop) = seg_steps(data, bias, 0, 0);
    if stop {
        (ss, entry, 0, Seq::empty())
    } else {
        let pre = ss + seq![
            StepView::MapZero { addr: 0x7f00_0000, size: 0x2_0000, required: false },
            StepView::MapZero { addr: 0x7f02_0000, size: 0x1_0000, required: false },
            StepView::BrkBase(max),
        ];
        let (sp, all) = darwin_stack(args, exec_path, pre);
        (all, entry, sp, macho_thunks(symbols_of(data), 0, Seq::empty()))
    }
}

/// Searches the architecture records of a universal binary for its AArch64 slice and
/// gives the slice's byte range.
fn find_fat_slice(raw: &[u8], n: u32) -> (r: Option<(usize, usize)>)
    requires
        8 <= raw@.len(),
    ensures
        match r {
            Some((from, to)) => from <= to <= raw@.len()
                && fat_slice_from(raw@, 0, n as int, 8) == Some(raw@.subrange(from as int, to as int)),
            None => fat_slice_from(raw@, 0, n as int, 8) is None,
        },
{
    let mut offset: usize = 8;
    let mut k: u32 = 0;
    while k < n
        invariant
            8 <= raw@.len(),
            k <= n,
            offset == 8 + 20 * k,
            offset <= raw@.len() + 20,
            fat_slice_from(raw@, 0, n as int, 8) == fat_slice_from(raw@, k as int, n as int, offset as int),
        decreases n - k,
    {
        if raw.len() < 20 || offset > raw.len() - 20 {
            return None;
        }
        let cpu = be32_at(raw, offset);
        let so = be32_at(raw, offset + 8) as usize;
        let ss = be32_at(raw, offset + 12) as usize;
        if (cpu == 0x0100_000Cu32 || cpu == 0x0100_000Eu32) && (so as u64) + (ss as u64) <= raw.len() as u64 {
            return Some((so, so + ss));
        }
        offset = offset + 20;
        k = k + 1;
    }
    None
}

/// What loading the Mach-O file `raw` does: its image (the AArch64 slice of a universal
/// binary, or the file itself) is refused with the parser's message and memory untouched
/// when it does not parse, and is laid out by `macho_layout` when it does.
pub open spec fn macho_loaded(raw: Seq<u8>, exec_path: Seq<u8>, args: Seq<Seq<u8>>, m0: MemView, m1: MemView, r: Result<LoadedBinary, Error>) -> bool {
    match parse_failure(arm64_slice(raw)) {
        Some(m) => m1 == m0 && (r matches Err(Error::LoadError(s)) && s@ == "Mach-O parse error: "@ + m),
        None => {
            let l = macho_layout(arm64_slice(raw), exec_path, args);
            load_result(r, m0, m1, l.0, l.1, l.2, l.3, TargetOs::Darwin)
        },
    }
}

impl MachOLoader {
    /// The AArch64 slice of a universal binary, or the file itself.
    pub fn extract_arm64_slice(raw: &[u8]) -> (r: Result<Vec<u8>, Error>)
        ensures
            r matches Ok(v) && v@ == arm64_slice(raw@),
    {
        assert(raw@.subrange(0, raw@.len() as int) =~= raw@);
        if raw.len() < 8 {
            return Ok(copy_range(raw, 0, raw.len()));
        }
        let magic = be32_at(raw, 0);
        if magic == 0xcafe_babeu32 || magic == 0xbeba_feca_u32 {
            let n = be32_at(raw, 4);
            if let Some((from, to)) = find_fat_slice(raw, n) {
                return Ok(copy_range(raw, from, to));
            }
        }
        Ok(copy_range(raw, 0, raw.len()))
    }

    /// Loads a Mach-O image (or the AArch64 slice of a universal binary) given as bytes;
    /// `exec_path` is the executable's path as bytes, `args` the arguments.
    pub fn load_image(raw: &[u8], exec_path: &Vec<u8>, args: &Vec<Vec<u8>>, mem: &mut MemoryManager) -> (r: Result<LoadedBinary, Error>)
        requires
            old(mem).wf(),
        ensures
            final(mem).wf(),
            macho_loaded(raw@, exec_path@, args.deep_view(), old(mem)@, final(mem)@, r),
    {
        let data = match Self::extract_arm64_slice(raw) {
            Ok(d) => d,
            Err(e) => {
                return Err(e);
            },
        };
        let data = data.as_slice();
        match parse_check(data) {
            Err(m) => {
                return Err(Error::LoadError(concat("Mach-O parse error: ", m.as_str())));
            },
            Ok(()) => {},
        }
        let bias: u64 = 0x1_0000_0000;
        let entry = file_entry(data).wrapping_add(bias);
        let mut ops: Vec<LayoutOp> = Vec::new();
        assert(steps(ops@) =~= Seq::<StepView>::empty());
        let (max, stop) = push_segment_steps(&mut ops, data, bias);
        let ghost layout = macho_layout(data@, exec_path@, args.deep_view());
        if stop {
            assert(steps(ops@) =~= layout.0);
            let r = apply_layout(mem, &ops);
            proof {
                let s = seg_steps(data@, bias, 0, 0).0;
                lemma_seg_steps_stop(data@, bias, 0, 0);
                lemma_fail_faults(old(mem)@, steps(ops@), 0, s.len() - 1);
            }
            return match r {
                Err(e) => Err(e),
                Ok(()) => Err(Error::LoadError(String::new())),
            };
        }
        let ghost s0 = steps(ops@);
        ops.push(LayoutOp::MapZero { addr: 0x7f00_0000, size: 0x2_0000, required: false });
        ops.push(LayoutOp::MapZero { addr: 0x7f02_0000, size: 0x1_0000, required: false });
        ops.push(LayoutOp::BrkBase(max));
        assert(steps(ops@) =~= s0 + seq![
            StepView::MapZero { addr: 0x7f00_0000, size: 0x2_0000, required: false },
            StepView::MapZero { addr: 0x7f02_0000, size: 0x1_0000, required: false },
            StepView::BrkBase(max),
        ]);
        let syms = file_symbols(data);
        let ghost sv = syms.deep_view();
        let mut thunks: Vec<(u64, String)> = Vec::new();
        assert(thunks.deep_view() =~= Seq::<(u64, Seq<char>)>::empty());
        let mut i: usize = 0;
        while i < syms.len()
            invariant
                0 <= i <= syms.len(),
                sv == syms.deep_view(),
                sv.len() == syms.len(),
                macho_thunks(sv, 0, Seq::empty()) == macho_thunks(sv, i as int, thunks.deep_view()),
            decreases syms.len() - i,
        {
            assert(sv[i as int] == (syms@[i as int].0, syms@[i as int].1.deep_view()));
            if syms[i].0 {
                if let Some(n) = &syms[i].1 {
                    let s = n.as_str();
                    let len = s.unicode_len();
                    if len > 0 {
                        let clean = if s.get_char(0) == '_' { s.substring_char(1, len).to_owned() } else { n.clone() };
                        assert(clean@ == strip_underscore(n@)) by {
                            if n@[0] == '_' {
                                assert(n@.subrange(1, len as int) =~= n@.drop_first());
                            }
                        }
                        let _ = thunk_for_exec(&mut thunks, &clean);
                    }
                }
            }
            i = i + 1;
        }
        let sp = push_darwin_stack(&mut ops, args, exec_path);
        assert(steps(ops@) == layout.0);
        apply_layout(mem, &ops)?;
        Ok(LoadedBinary { entry_point: entry, stack_pointer: sp, dynamic_thunks: thunks, target_os: TargetOs::Darwin })
    }
}

/// Pushes the Darwin stack above the steps already in `ops`; returns the final pointer.
fn push_darwin_stack(ops: &mut Vec<LayoutOp>, args: &Vec<Vec<u8>>, exec_path: &Vec<u8>) -> (r: u64)
    ensures
        (r, steps(final(ops)@)) == darwin_stack(args.deep_view(), exec_path@, steps(old(ops)@)),
{
    let ghost pre = steps(ops@);
    ops.push(LayoutOp::MapZero { addr: 0x7fff_efe0_0000, size: 0x20_0000, required: true });
    assert(steps(ops@) =~= pre.push(StepView::MapZero { addr: 0x7fff_efe0_0000, size: 0x20_0000, required: true }));
    let sp0: u64 = 0x7fff_efff_f000;
    let mut env: Vec<Vec<u8>> = Vec::new();
    env.push("PATH=/usr/local/bin:/usr/bin:/bin".as_bytes_vec());
    env.push("USER=root".as_bytes_vec());
    env.push("HOME=/root".as_bytes_vec());
    assert(env.deep_view() =~= darwin_env()) by {
        crate::loader::stack::lemma_bytes_view(env@[0]);
        crate::loader::stack::lemma_bytes_view(env@[1]);
        crate::loader::stack::lemma_bytes_view(env@[2]);
    }
    let (sp1, env_ptrs) = push_strings_exec(ops, sp0, &env);
    let mut apple: Vec<Vec<u8>> = Vec::new();
    apple.push(exec_path.clone());
    apple.push("pf_random=0123456789abcdef".as_bytes_vec());
    assert(apple.deep_view() =~= seq![exec_path@, "pf_random=0123456789abcdef".spec_bytes()]) by {
        crate::loader::stack::lemma_bytes_view(apple@[0]);
        crate::loader::stack::lemma_bytes_view(apple@[1]);
    }
    let (sp2, apple_ptrs) = push_strings_exec(ops, sp1, &apple);
    let (sp3, arg_ptrs) = push_strings_exec(ops, sp2, args);
    let sp5 = push_word_exec(ops, sp3 & !0xfu64, 0);
    let sp6 = push_rev_exec(ops, sp5, &apple_ptrs);
    let sp7 = push_word_exec(ops, sp6, 0);
    let sp8 = push_rev_exec(ops, sp7, &env_ptrs);
    let sp9 = push_word_exec(ops, sp8, 0);
    let sp10 = push_rev_exec(ops, sp9, &arg_ptrs);
    push_word_exec(ops, sp10, args.len() as u64)
}

} // verus!
