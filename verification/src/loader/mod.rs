//! Layout of executable images in guest memory.
//!
//! Reading the image file is left to the caller; the loaders take its bytes.

pub mod layout;
pub mod macho;
pub mod object_file;
pub mod segments;
pub mod stack;

use vstd::prelude::*;
use vstd::string::StringSliceAdditionalSpecFns;
use crate::interp::{le_bytes, le_value, wadd};
use crate::interp::memops::{le_bytes_vec, le_value_vec};
use crate::loader::layout::{apply_from, apply_layout, is_layout_error, law_last_write_lands, steps, LayoutFault, LayoutOp, StepView};
use crate::loader::object_file::{
    dynamic_relocations_of, dynamic_symbols_of, entry_of, file_dynamic_relocations, file_dynamic_symbols, file_entry,
    file_segments, parse_check, parse_failure, segments_of,
};
use crate::loader::segments::{push_reloc_steps, push_segment_steps, reloc_steps, seg_datas, seg_steps, seg_steps_from};
use crate::loader::stack::{
    push_rev, push_rev_exec, push_string, push_strings, push_strings_exec, push_word, push_word_exec, str_ptrs, wsub64,
    StackState,
};
use crate::memory::{bounded, disjoint, read_spec, MemView, MemoryManager};
use crate::text::concat;
use crate::Error;

pub use crate::loader::macho::{macho_loaded, MachOLoader};

verus! {

/// Operating system whose binary conventions an image follows.
#[derive(Clone, Copy, PartialEq, Eq, Structural, Debug)]
pub enum TargetOs {
    Linux,
    Darwin,
    Android,
}

/// What loading an image produced.
#[derive(Debug)]
pub struct LoadedBinary {
    pub entry_point: u64,
    pub stack_pointer: u64,
    /// Trampoline address and name of each imported function.
    pub dynamic_thunks: Vec<(u64, String)>,
    pub target_os: TargetOs,
}

/// Loader of ELF images.
pub struct ElfLoader;

/// Loader that picks the format from the image's magic bytes.
pub struct AutoLoader;

/// The steps that set the stack up: its 2 MiB mapped below the top, the pointer 4 KiB
/// below the top.
pub open spec fn stack_start(pre: Seq<StepView>) -> StackState {
    (0x7fff_efff_f000u64, pre.push(StepView::MapZero { addr: 0x7fff_efe0_0000, size: 0x20_0000, required: true }))
}

/// The environment a Linux process starts with.
pub open spec fn linux_env() -> Seq<Seq<u8>> {
    seq![
        "PATH=/usr/local/bin:/usr/bin:/bin".spec_bytes(),
        "TERM=xterm-256color".spec_bytes(),
        "HOME=/root".spec_bytes(),
        "SHELL=/bin/sh".spec_bytes(),
        "PWD=/".spec_bytes(),
    ]
}

/// `aarch64` and a terminating zero.
pub open spec fn platform_bytes() -> Seq<u8> {
    seq![97u8, 97u8, 114u8, 99u8, 104u8, 54u8, 52u8, 0u8]
}

/// The auxiliary vector, as key and value words: program headers (address, entry size,
/// count), page size, base, flags, entry, the user and group identifiers (0), platform
/// string, hardware capabilities (0), clock ticks (100), secure mode (0), random bytes,
/// second hardware capabilities (0), and the terminating pair.
pub open spec fn auxv_words(phdr: u64, phent: u64, phnum: u64, entry: u64, platform: u64, random: u64) -> Seq<u64> {
    seq![
        3, phdr, 4, phent, 5, phnum, 6, 4096, 7, 0, 8, 0, 9, entry, 11, 0, 12, 0, 13, 0, 14, 0, 15, platform, 16, 0,
        17, 100, 23, 0, 25, random, 26, 0, 0, 0,
    ]
}

/// The Linux process stack above the steps `pre`: argument strings, environment
/// strings, the platform string and 16 random bytes (0x42) are stored downwards; the
/// pointer is aligned to 16 (and lowered by 8 more when the word count below is odd);
/// then, from the top down, the auxiliary vector, a zero, the environment pointers, a
/// zero, the argument pointers and the argument count. Gives the final pointer and all
/// steps.
pub open spec fn linux_stack(args: Seq<Seq<u8>>, entry: u64, phoff: u64, phent: u64, phnum: u64, pre: Seq<StepView>) -> StackState {
    let st0 = stack_start(pre);
    let st1 = push_strings(st0, args, args.len() as int);
    let st2 = push_strings(st1, linux_env(), 5);
    let plat = wsub64(st2.0, 8);
    let st3 = (plat, st2.1.push(StepView::Write { addr: plat, data: platform_bytes(), required: true }));
    let rnd = wsub64(plat, 16);
    let st4 = (rnd, st3.1.push(StepView::Write { addr: rnd, data: Seq::new(16, |i: int| 0x42u8), required: true }));
    let sp5 = rnd & !0xfu64;
    let total = 1 + args.len() + 1 + 5 + 1 + 36;
    let sp6 = if total % 2 != 0 { wsub64(sp5, 8) } else { sp5 };
    let words = auxv_words(wadd(0x40_0000, phoff), phent, phnum, entry, plat, rnd);
    let st7 = push_rev((sp6, st4.1), words, 36);
    let st8 = push_word(st7, 0);
    let st9 = push_rev(st8, str_ptrs(st1, linux_env()), 5);
    let st10 = push_word(st9, 0);
    let st11 = push_rev(st10, str_ptrs(st0, args), args.len() as int);
    push_word(st11, args.len() as u64)
}

/// The load bias of an ELF image: 0x400000 when its first segment is at address zero
/// (or it has none), else none.
pub open spec fn elf_bias(segs: Seq<(u64, u64)>) -> u64 {
    if segs.len() == 0 || segs[0].0 == 0 { 0x40_0000 } else { 0 }
}

/// How an ELF image that parses is laid out: its steps, entry point, final stack
/// pointer and thunks. Segments first (stopping at a segment whose data cannot be read);
/// then the trampoline and TLS pages (refusals ignored) and the `optind` and `opterr`
/// words set to 1; for a biased image the dynamic relocations; the program break after
/// the highest segment end; then the stack. The program-header fields come from the
/// file header (offset at bytes 32..40, entry size at 54..56, count at 56..58).
pub open spec fn elf_layout(data: Seq<u8>, args: Seq<Seq<u8>>) -> (Seq<StepView>, u64, u64, Seq<(u64, Seq<char>)>) {
    let bias = elf_bias(segments_of(data));
    let entry = wadd(entry_of(data), bias);
    let (ss, max, stop) = seg_steps(data, bias, 0, 0);
    if stop {
        (ss, entry, 0, Seq::empty())
    } else {
        let fixed = ss + seq![
            StepView::MapZero { addr: 0x7f00_0000, size: 0x2_0000, required: false },
            StepView::MapZero { addr: 0x7f02_0000, size: 0x1_0000, required: false },
            StepView::Write { addr: 0x7f01_0300, data: le_bytes(1, 4), required: false },
            StepView::Write { addr: 0x7f01_0310, data: le_bytes(1, 4), required: false },
        ];
        let (rs, thunks) = if bias > 0 && dynamic_relocations_of(data) is Some {
            reloc_steps(dynamic_symbols_of(data), dynamic_relocations_of(data)->0, bias, 0, Seq::empty())
        } else {
            (Seq::empty(), Seq::empty())
        };
        let pre = fixed + rs + seq![StepView::BrkBase(max)];
        let (sp, all) = linux_stack(args, entry, le_value(data.subrange(32, 40), 8), le_value(data.subrange(54, 56), 2),
            le_value(data.subrange(56, 58), 2), pre);
        (all, entry, sp, thunks)
    }
}

/// `r` reports laying out `st` on `m0` giving `m1`, with the values when it succeeded.
pub open spec fn load_result(
    r: Result<LoadedBinary, Error>,
    m0: MemView,
    m1: MemView,
    st: Seq<StepView>,
    entry: u64,
    sp: u64,
    thunks: Seq<(u64, Seq<char>)>,
    os: TargetOs,
) -> bool {
    &&& m1 == apply_from(m0, st, 0).0
    &&& match apply_from(m0, st, 0).1 {
        None => r matches Ok(b) && b.entry_point == entry && b.stack_pointer == sp && b.dynamic_thunks.deep_view() == thunks
            && b.target_os == os,
        Some(f) => r is Err && is_layout_error(r->Err_0, f),
    }
}

/// What loading the ELF image `data` does: an image that does not parse is refused with
/// the parser's message and memory untouched; one that parses is laid out by
/// `elf_layout`.
pub open spec fn elf_loaded(data: Seq<u8>, args: Seq<Seq<u8>>, m0: MemView, m1: MemView, r: Result<LoadedBinary, Error>) -> bool {
    match parse_failure(data) {
        Some(m) => m1 == m0 && (r matches Err(Error::LoadError(s)) && s@ == "ELF parse error: "@ + m),
        None => {
            let l = elf_layout(data, args);
            load_result(r, m0, m1, l.0, l.1, l.2, l.3, TargetOs::Linux)
        },
    }
}

/// The first four bytes of a Mach-O image or of a universal binary.
pub open spec fn is_macho_magic(data: Seq<u8>) -> bool {
    &&& data.len() >= 4
    &&& {
        ||| data[0] == 0xcf && data[1] == 0xfa && data[2] == 0xed && data[3] == 0xfe
        ||| data[0] == 0xfe && data[1] == 0xed && data[2] == 0xfa && data[3] == 0xcf
        ||| data[0] == 0xca && data[1] == 0xfe && data[2] == 0xba && data[3] == 0xbe
    }
}

/// Moving a pointer that is a multiple of 8 down by 8 flips it between the two
/// residues 0 and 8 modulo 16.
proof fn lemma_word_step_residue(x: u64)
    requires
        x % 8 == 0,
    ensures
        wsub64(x, 8) % 8 == 0,
        x % 16 == 0 || x % 16 == 8,
        wsub64(x, 8) % 16 == 8 - x % 16,
{
    assert(x % 16 == 0 || x % 16 == 8) by (bit_vector)
        requires
            x % 8 == 0,
    ;
    if x >= 8 {
        let y = (x - 8) as u64;
        assert(y % 8 == 0 && y % 16 == 8 - x % 16) by (bit_vector)
            requires
                x % 8 == 0,
                x >= 8,
                y == x - 8,
        ;
    }
}

/// After `k` words are pushed from a multiple of 8, the pointer is still a multiple of
/// 8 and its residue modulo 16 has flipped `k` times.
proof fn lemma_push_rev_residue(st: StackState, ws: Seq<u64>, k: int)
    requires
        st.0 % 8 == 0,
        k >= 0,
    ensures
        push_rev(st, ws, k).0 % 8 == 0,
        push_rev(st, ws, k).0 % 16 == if k % 2 == 0 { (st.0 % 16) as int } else { 8 - st.0 % 16 },
    decreases k,
{
    lemma_word_step_residue(st.0);
    if k > 0 {
        lemma_push_rev_residue(st, ws, k - 1);
        lemma_word_step_residue(push_rev(st, ws, k - 1).0);
    }
}

/// Law: the stack pointer a Linux process starts with is aligned to 16 bytes, as the
/// AArch64 procedure-call standard asks.
#[verifier::rlimit(40)]
pub proof fn law_linux_stack_aligned(args: Seq<Seq<u8>>, entry: u64, phoff: u64, phent: u64, phnum: u64, pre: Seq<StepView>)
    ensures
        linux_stack(args, entry, phoff, phent, phnum, pre).0 % 16 == 0,
{
    let st0 = stack_start(pre);
    let st1 = push_strings(st0, args, args.len() as int);
    let st2 = push_strings(st1, linux_env(), 5);
    let plat = wsub64(st2.0, 8);
    let rnd = wsub64(plat, 16);
    let sp5 = rnd & !0xfu64;
    assert(sp5 % 16 == 0 && sp5 % 8 == 0) by (bit_vector)
        requires
            sp5 == rnd & !0xfu64,
    ;
    let n = args.len() as int;
    let total = 1 + n + 1 + 5 + 1 + 36;
    let sp6 = if total % 2 != 0 { wsub64(sp5, 8) } else { sp5 };
    lemma_word_step_residue(sp5);
    let words = auxv_words(wadd(0x40_0000, phoff), phent, phnum, entry, plat, rnd);
    let st3 = (plat, st2.1.push(StepView::Write { addr: plat, data: platform_bytes(), required: true }));
    let st4 = (rnd, st3.1.push(StepView::Write { addr: rnd, data: Seq::new(16, |i: int| 0x42u8), required: true }));
    let st7 = push_rev((sp6, st4.1), words, 36);
    lemma_push_rev_residue((sp6, st4.1), words, 36);
    let st8 = push_word(st7, 0);
    lemma_word_step_residue(st7.0);
    let st9 = push_rev(st8, str_ptrs(st1, linux_env()), 5);
    lemma_push_rev_residue(st8, str_ptrs(st1, linux_env()), 5);
    let st10 = push_word(st9, 0);
    lemma_word_step_residue(st9.0);
    let st11 = push_rev(st10, str_ptrs(st0, args), n);
    lemma_push_rev_residue(st10, str_ptrs(st0, args), n);
    lemma_word_step_residue(st11.0);
}

/// The last step of a Linux stack writes the argument count at the final pointer.
proof fn lemma_linux_stack_last(args: Seq<Seq<u8>>, entry: u64, phoff: u64, phent: u64, phnum: u64, pre: Seq<StepView>)
    ensures
        exists|s: Seq<StepView>| linux_stack(args, entry, phoff, phent, phnum, pre).1 == #[trigger] s.push(StepView::Write {
            addr: linux_stack(args, entry, phoff, phent, phnum, pre).0,
            data: le_bytes(args.len() as u64, 8),
            required: true,
        }),
{
    let st0 = stack_start(pre);
    let st1 = push_strings(st0, args, args.len() as int);
    let st2 = push_strings(st1, linux_env(), 5);
    let plat = wsub64(st2.0, 8);
    let st3 = (plat, st2.1.push(StepView::Write { addr: plat, data: platform_bytes(), required: true }));
    let rnd = wsub64(plat, 16);
    let st4 = (rnd, st3.1.push(StepView::Write { addr: rnd, data: Seq::new(16, |i: int| 0x42u8), required: true }));
    let sp5 = rnd & !0xfu64;
    let total = 1 + args.len() + 1 + 5 + 1 + 36;
    let sp6 = if total % 2 != 0 { wsub64(sp5, 8) } else { sp5 };
    let words = auxv_words(wadd(0x40_0000, phoff), phent, phnum, entry, plat, rnd);
    let st7 = push_rev((sp6, st4.1), words, 36);
    let st8 = push_word(st7, 0);
    let st9 = push_rev(st8, str_ptrs(st1, linux_env()), 5);
    let st10 = push_word(st9, 0);
    let st11 = push_rev(st10, str_ptrs(st0, args), args.len() as int);
    let fin = push_word(st11, args.len() as u64);
    assert(fin.1 == st11.1.push(StepView::Write { addr: fin.0, data: le_bytes(args.len() as u64, 8), required: true }));
}

/// Law: after an ELF image is loaded, when no two segments overlap, the stack pointer
/// handed to the guest points at the argument count.
#[verifier::rlimit(40)]
pub proof fn law_elf_argc_on_stack(data: Seq<u8>, args: Seq<Seq<u8>>, m0: MemView, m1: MemView, r: Result<LoadedBinary, Error>)
    requires
        elf_loaded(data, args, m0, m1, r),
        r is Ok,
        disjoint(m1.segs),
        bounded(m1.segs),
    ensures
        read_spec(m1.segs, r->Ok_0.stack_pointer as int, 8) == Some(le_bytes(args.len() as u64, 8)),
{
    let bias = elf_bias(segments_of(data));
    let l = elf_layout(data, args);
    if seg_steps(data, bias, 0, 0).2 {
        lemma_seg_steps_stop(data, bias, 0, 0);
        lemma_fail_faults(m0, l.0, 0, l.0.len() - 1);
    } else {
        let entry = wadd(entry_of(data), bias);
        let (ss, max, stop) = seg_steps(data, bias, 0, 0);
        let fixed = ss + seq![
            StepView::MapZero { addr: 0x7f00_0000, size: 0x2_0000, required: false },
            StepView::MapZero { addr: 0x7f02_0000, size: 0x1_0000, required: false },
            StepView::Write { addr: 0x7f01_0300, data: le_bytes(1, 4), required: false },
            StepView::Write { addr: 0x7f01_0310, data: le_bytes(1, 4), required: false },
        ];
        let (rs, thunks) = if bias > 0 && dynamic_relocations_of(data) is Some {
            reloc_steps(dynamic_symbols_of(data), dynamic_relocations_of(data)->0, bias, 0, Seq::empty())
        } else {
            (Seq::empty(), Seq::empty())
        };
        let pre = fixed + rs + seq![StepView::BrkBase(max)];
        let phoff = le_value(data.subrange(32, 40), 8);
        let phent = le_value(data.subrange(54, 56), 2);
        let phnum = le_value(data.subrange(56, 58), 2);
        lemma_linux_stack_last(args, entry, phoff, phent, phnum, pre);
        let st = linux_stack(args, entry, phoff, phent, phnum, pre);
        assert(l.0 == st.1 && l.2 == st.0);
        let s = choose|s: Seq<StepView>| st.1 == #[trigger] s.push(StepView::Write {
            addr: st.0,
            data: le_bytes(args.len() as u64, 8),
            required: true,
        });
        law_last_write_lands(m0, s, st.0, le_bytes(args.len() as u64, 8));
    }
}

/// A step list with a failure at or after `i` stops with a fault.
pub proof fn lemma_fail_faults(m: MemView, ops: Seq<StepView>, i: int, j: int)
    requires
        0 <= i <= j < ops.len(),
        ops[j] is Fail,
    ensures
        apply_from(m, ops, i).1 is Some,
    decreases j - i,
{
    if i < j {
        match ops[i] {
            StepView::MapZero { addr, size, required } => {
                let (m2, o) = crate::memory::map_outcome(m, addr, size, crate::memory::PROT_READ | crate::memory::PROT_WRITE
                    | crate::memory::PROT_EXEC);
                lemma_fail_faults(m2, ops, i + 1, j);
            },
            StepView::Write { addr, data, required } => {
                let (s2, ok) = crate::memory::chunk_write(m.segs, addr as int, data);
                lemma_fail_faults(MemView { segs: s2, ..m }, ops, i + 1, j);
            },
            StepView::BrkBase(b) => {
                let v = crate::loader::layout::brk_base_value(b);
                lemma_fail_faults(MemView { brk_base: v, brk_current: v, brk_mapped_end: v, ..m }, ops, i + 1, j);
            },
            StepView::Fail(_) => {},
        }
    }
}

/// Pushes the Linux stack above the steps already in `ops`; returns the final pointer.
fn push_linux_stack(ops: &mut Vec<LayoutOp>, args: &Vec<Vec<u8>>, entry: u64, phoff: u64, phent: u64, phnum: u64) -> (r: u64)
    ensures
        (r, steps(final(ops)@)) == linux_stack(args.deep_view(), entry, phoff, phent, phnum, steps(old(ops)@)),
{
    let ghost pre = steps(ops@);
    ops.push(LayoutOp::MapZero { addr: 0x7fff_efe0_0000, size: 0x20_0000, required: true });
    assert(steps(ops@) =~= pre.push(StepView::MapZero { addr: 0x7fff_efe0_0000, size: 0x20_0000, required: true }));
    let sp0: u64 = 0x7fff_efff_f000;
    let (sp1, arg_ptrs) = push_strings_exec(ops, sp0, args);
    let mut env: Vec<Vec<u8>> = Vec::new();
    env.push("PATH=/usr/local/bin:/usr/bin:/bin".as_bytes_vec());
    env.push("TERM=xterm-256color".as_bytes_vec());
    env.push("HOME=/root".as_bytes_vec());
    env.push("SHELL=/bin/sh".as_bytes_vec());
    env.push("PWD=/".as_bytes_vec());
    assert(env.deep_view() =~= linux_env()) by {
        crate::loader::stack::lemma_bytes_view(env@[0]);
        crate::loader::stack::lemma_bytes_view(env@[1]);
        crate::loader::stack::lemma_bytes_view(env@[2]);
        crate::loader::stack::lemma_bytes_view(env@[3]);
        crate::loader::stack::lemma_bytes_view(env@[4]);
    }
    let ghost st1 = (sp1, steps(ops@));
    let (sp2, env_ptrs) = push_strings_exec(ops, sp1, &env);
    let plat = sp2.wrapping_sub(8);
    let pb: Vec<u8> = vec![97u8, 97u8, 114u8, 99u8, 104u8, 54u8, 52u8, 0u8];
    assert(pb@ =~= platform_bytes());
    let ghost s2 = steps(ops@);
    ops.push(LayoutOp::Write { addr: plat, data: pb, required: true });
    let rnd = plat.wrapping_sub(16);
    let rb: Vec<u8> = vec![0x42u8; 16];
    assert(rb@ =~= Seq::new(16, |i: int| 0x42u8));
    ops.push(LayoutOp::Write { addr: rnd, data: rb, required: true });
    assert(steps(ops@) =~= s2.push(StepView::Write { addr: plat, data: platform_bytes(), required: true })
        .push(StepView::Write { addr: rnd, data: Seq::new(16, |i: int| 0x42u8), required: true }));
    let sp5 = rnd & !0xfu64;
    let sp6 = if args.len() % 2 != 0 { sp5.wrapping_sub(8) } else { sp5 };
    let words: Vec<u64> = vec![
        3, 0x40_0000u64.wrapping_add(phoff), 4, phent, 5, phnum, 6, 4096, 7, 0, 8, 0, 9, entry, 11, 0, 12, 0, 13, 0, 14,
        0, 15, plat, 16, 0, 17, 100, 23, 0, 25, rnd, 26, 0, 0, 0,
    ];
    assert(words@ =~= auxv_words(wadd(0x40_0000, phoff), phent, phnum, entry, plat, rnd));
    let sp7 = push_rev_exec(ops, sp6, &words);
    let sp8 = push_word_exec(ops, sp7, 0);
    let sp9 = push_rev_exec(ops, sp8, &env_ptrs);
    let sp10 = push_word_exec(ops, sp9, 0);
    let sp11 = push_rev_exec(ops, sp10, &arg_ptrs);
    push_word_exec(ops, sp11, args.len() as u64)
}

/// The layout steps, entry point, stack pointer and thunks of an ELF image that parses.
fn elf_plan(data: &[u8], args: &Vec<Vec<u8>>) -> (r: (Vec<LayoutOp>, u64, u64, Vec<(u64, String)>))
    requires
        parse_failure(data@) is None,
        data@.len() >= 58,
    ensures
        steps(r.0@) == elf_layout(data@, args.deep_view()).0,
        r.1 == elf_layout(data@, args.deep_view()).1,
        r.2 == elf_layout(data@, args.deep_view()).2,
        r.3.deep_view() == elf_layout(data@, args.deep_view()).3,
{
    let segs = file_segments(data);
    let bias: u64 = if segs.len() == 0 || segs[0].0 == 0 { 0x40_0000 } else { 0 };
    let entry = file_entry(data).wrapping_add(bias);
    let mut ops: Vec<LayoutOp> = Vec::new();
    assert(steps(ops@) =~= Seq::<StepView>::empty());
    let (max, stop) = push_segment_steps(&mut ops, data, bias);
    let ghost layout = elf_layout(data@, args.deep_view());
    let empty: Vec<(u64, String)> = Vec::new();
    assert(empty.deep_view() =~= Seq::<(u64, Seq<char>)>::empty());
    if stop {
        assert(steps(ops@) =~= layout.0);
        return (ops, entry, 0, empty);
    }
    let ghost s0 = steps(ops@);
    ops.push(LayoutOp::MapZero { addr: 0x7f00_0000, size: 0x2_0000, required: false });
    ops.push(LayoutOp::MapZero { addr: 0x7f02_0000, size: 0x1_0000, required: false });
    ops.push(LayoutOp::Write { addr: 0x7f01_0300, data: le_bytes_vec(1, 4), required: false });
    ops.push(LayoutOp::Write { addr: 0x7f01_0310, data: le_bytes_vec(1, 4), required: false });
    let ghost fixed = s0 + seq![
        StepView::MapZero { addr: 0x7f00_0000, size: 0x2_0000, required: false },
        StepView::MapZero { addr: 0x7f02_0000, size: 0x1_0000, required: false },
        StepView::Write { addr: 0x7f01_0300, data: le_bytes(1, 4), required: false },
        StepView::Write { addr: 0x7f01_0310, data: le_bytes(1, 4), required: false },
    ];
    assert(steps(ops@) =~= fixed);
    let thunks = if bias > 0 {
        match file_dynamic_relocations(data) {
            Some(relocs) => {
                let syms = file_dynamic_symbols(data);
                push_reloc_steps(&mut ops, &syms, &relocs, bias)
            },
            None => {
                assert(steps(ops@) =~= fixed + Seq::<StepView>::empty());
                empty
            },
        }
    } else {
        assert(steps(ops@) =~= fixed + Seq::<StepView>::empty());
        empty
    };
    let ghost rs = if bias > 0 && dynamic_relocations_of(data@) is Some {
        reloc_steps(dynamic_symbols_of(data@), dynamic_relocations_of(data@)->0, bias, 0, Seq::empty())
    } else {
        (Seq::empty(), Seq::empty())
    };
    assert(steps(ops@) == fixed + rs.0);
    assert(thunks.deep_view() == rs.1);
    let ghost s1 = steps(ops@);
    ops.push(LayoutOp::BrkBase(max));
    assert(steps(ops@) =~= s1.push(StepView::BrkBase(max)));
    assert(steps(ops@) =~= fixed + rs.0 + seq![StepView::BrkBase(max)]);
    let phoff = le_value_vec(&crate::loader::macho::copy_range(data, 32, 40), 8);
    let phent = le_value_vec(&crate::loader::macho::copy_range(data, 54, 56), 2);
    let phnum = le_value_vec(&crate::loader::macho::copy_range(data, 56, 58), 2);
    let sp = push_linux_stack(&mut ops, args, entry, phoff, phent, phnum);
    (ops, entry, sp, thunks)
}

impl ElfLoader {
    /// Loads an ELF image given as bytes, with the arguments `args` (as bytes), and
    /// returns its entry point, initial stack pointer and imported-function thunks.
    pub fn load_image(data: &[u8], args: &Vec<Vec<u8>>, mem: &mut MemoryManager) -> (r: Result<LoadedBinary, Error>)
        requires
            old(mem).wf(),
            parse_failure(data@) is None ==> data@.len() >= 58,
        ensures
            final(mem).wf(),
            elf_loaded(data@, args.deep_view(), old(mem)@, final(mem)@, r),
    {
        match parse_check(data) {
            Err(m) => {
                return Err(Error::LoadError(concat("ELF parse error: ", m.as_str())));
            },
            Ok(()) => {},
        }
        let (ops, entry, sp, thunks) = elf_plan(data, args);
        let ghost bias = elf_bias(segments_of(data@));
        proof {
            if seg_steps(data@, bias, 0, 0).2 {
                lemma_seg_steps_stop(data@, bias, 0, 0);
                lemma_fail_faults(old(mem)@, steps(ops@), 0, steps(ops@).len() - 1);
            }
        }
        match apply_layout(mem, &ops) {
            Err(e) => Err(e),
            Ok(()) => Ok(LoadedBinary { entry_point: entry, stack_pointer: sp, dynamic_thunks: thunks, target_os: TargetOs::Linux }),
        }
    }
}

/// What loading with the format chosen from the first four bytes does: a file shorter
/// than four bytes is refused and memory untouched; the Mach-O and universal-binary
/// magics are loaded as Mach-O; anything else as ELF, except that an ELF image that
/// parses but is shorter than its 64-bit header gives `None` with memory untouched.
pub open spec fn auto_loaded(data: Seq<u8>, exec_path: Seq<u8>, args: Seq<Seq<u8>>, m0: MemView, m1: MemView, r: Option<Result<LoadedBinary, Error>>) -> bool {
    if data.len() < 4 {
        m1 == m0 && (r matches Some(Err(Error::LoadError(s))) && s@ == "Binary file too small"@)
    } else if is_macho_magic(data) {
        r matches Some(x) && macho_loaded(data, exec_path, args, m0, m1, x)
    } else if parse_failure(data) is None && data.len() < 58 {
        r is None && m1 == m0
    } else {
        r matches Some(x) && elf_loaded(data, args, m0, m1, x)
    }
}

/// Law: the loader picked from the magic bytes is the one whose outcome the automatic
/// load has: Mach-O and universal-binary magics (`cf fa ed fe`, `fe ed fa cf`,
/// `ca fe ba be`) give the Mach-O loader's outcome; every other prefix of four or more
/// bytes, the ELF magic among them, gives the ELF loader's (or `None` where the ELF
/// loader cannot read the header); a shorter file is refused without touching memory.
pub proof fn law_auto_loader_dispatch(data: Seq<u8>, exec_path: Seq<u8>, args: Seq<Seq<u8>>, m0: MemView, m1: MemView, r: Option<Result<LoadedBinary, Error>>)
    requires
        auto_loaded(data, exec_path, args, m0, m1, r),
    ensures
        data.len() < 4 ==> m1 == m0 && (r matches Some(Err(Error::LoadError(_)))),
        data.len() >= 4 && is_macho_magic(data) ==> (r matches Some(x) && macho_loaded(data, exec_path, args, m0, m1, x)),
        data.len() >= 4 && data[0] == 0x7f && data[1] == 0x45 && data[2] == 0x4c && data[3] == 0x46 ==> !is_macho_magic(data),
        data.len() >= 4 && !is_macho_magic(data) ==> match r {
            Some(x) => elf_loaded(data, args, m0, m1, x),
            None => m1 == m0 && parse_failure(data) is None && data.len() < 58,
        },
{
}

impl AutoLoader {
    /// Loads an image given as bytes, choosing the format from its first four bytes:
    /// the Mach-O and universal-binary magics go to the Mach-O loader, anything else to
    /// the ELF loader. Gives `None`, without touching memory, for an ELF image that
    /// parses but is shorter than its 64-bit header, whose program-header fields cannot
    /// be read.
    pub fn load_image(data: &[u8], exec_path: &Vec<u8>, args: &Vec<Vec<u8>>, mem: &mut MemoryManager) -> (r: Option<Result<LoadedBinary, Error>>)
        requires
            old(mem).wf(),
        ensures
            final(mem).wf(),
            auto_loaded(data@, exec_path@, args.deep_view(), old(mem)@, final(mem)@, r),
    {
        if data.len() < 4 {
            return Some(Err(Error::LoadError("Binary file too small".to_string())));
        }
        let m0 = data[0];
        let m1 = data[1];
        let m2 = data[2];
        let m3 = data[3];
        let macho = (m0 == 0xcf && m1 == 0xfa && m2 == 0xed && m3 == 0xfe)
            || (m0 == 0xfe && m1 == 0xed && m2 == 0xfa && m3 == 0xcf)
            || (m0 == 0xca && m1 == 0xfe && m2 == 0xba && m3 == 0xbe);
        if macho {
            Some(MachOLoader::load_image(data, exec_path, args, mem))
        } else {
            if data.len() < 58 {
                if let Ok(()) = parse_check(data) {
                    return None;
                }
            }
            Some(ElfLoader::load_image(data, args, mem))
        }
    }
}

/// A segment layout that stops ends with its failure step.
pub proof fn lemma_seg_steps_from_stop(segs: Seq<(u64, u64)>, datas: Seq<Result<Seq<u8>, Seq<char>>>, bias: u64, i: int, max: u64)
    ensures
        seg_steps_from(segs, datas, bias, i, max).2 ==> seg_steps_from(segs, datas, bias, i, max).0.len() > 0
            && seg_steps_from(segs, datas, bias, i, max).0.last() is Fail,
    decreases segs.len() - i,
{
    if 0 <= i < segs.len() {
        let vaddr = wadd(segs[i].0, bias);
        let size = segs[i].1 as usize;
        if size == 0 {
            lemma_seg_steps_from_stop(segs, datas, bias, i + 1, max);
        } else {
            match datas[i] {
                Err(m) => {},
                Ok(d) => {
                    let end = wadd(vaddr, size as u64);
                    lemma_seg_steps_from_stop(segs, datas, bias, i + 1, if end > max { end } else { max });
                },
            }
        }
    }
}

/// A layout that stops at a segment ends with its failure step.
pub proof fn lemma_seg_steps_stop(data: Seq<u8>, bias: u64, i: int, max: u64)
    ensures
        seg_steps(data, bias, i, max).2 ==> seg_steps(data, bias, i, max).0.len() > 0
            && seg_steps(data, bias, i, max).0.last() is Fail,
{
    lemma_seg_steps_from_stop(segments_of(data), seg_datas(data), bias, i, max);
}

} // verus!
