//! Instruction-level gadgets of the reference backend and the selector that
//! picks the first one that applies, in priority order.
use vstd::prelude::*;

use crate::gadgets::{
    add_one_each, add_one_in_place, copy_bytes, has_bit, invert_each, invert_in_place,
    sub_one_each, sub_one_in_place, swap_pairs, swap_pairs_in_place, xor_each, xor_in_place,
    AvailableTransforms, ARITHMETIC_PARTITIONING, LOGICAL_INVERSE, LOGICAL_PARTITIONING,
    OFFSET_MUTATION, PARTITION_MASK, REGISTER_SWAP,
};
use crate::model::{InstrView, Instruction, MnemonicClass};

verus! {

/// The gadget kinds, highest priority first: operand gadgets, then the
/// memory-offset gadget, then register swapping.
#[derive(Clone, Copy, PartialEq, Eq, Structural, Debug)]
pub enum GadgetKind {
    ArithmeticPartitioning,
    LogicalInverse,
    LogicalPartitioning,
    OffsetMutation,
    RegisterSwap,
}

impl GadgetKind {
    /// The name under which an application is logged.
    pub fn name(&self) -> (r: &'static str)
        ensures
            r@ == kind_name(*self),
    {
        match self {
            GadgetKind::ArithmeticPartitioning => "ArithmeticPartitioning",
            GadgetKind::LogicalInverse => "LogicalInverse",
            GadgetKind::LogicalPartitioning => "LogicalPartitioning",
            GadgetKind::OffsetMutation => "OffsetMutation",
            GadgetKind::RegisterSwap => "RegisterSwap",
        }
    }
}

pub open spec fn kind_name(k: GadgetKind) -> Seq<char> {
    match k {
        GadgetKind::ArithmeticPartitioning => "ArithmeticPartitioning"@,
        GadgetKind::LogicalInverse => "LogicalInverse"@,
        GadgetKind::LogicalPartitioning => "LogicalPartitioning"@,
        GadgetKind::OffsetMutation => "OffsetMutation"@,
        GadgetKind::RegisterSwap => "RegisterSwap"@,
    }
}

/// Why a gadget produced nothing.
#[derive(Clone, Copy, PartialEq, Eq, Structural, Debug)]
pub enum GadgetError {
    /// The gadget cannot rewrite this instruction; the next one is tried.
    NotApplicable,
}

/// Whether gadget `k` can rewrite `x`: only instructions that fall through
/// are rewritten (branch words keep their targets), and swapping needs two
/// bytes.
pub open spec fn gadget_applies(k: GadgetKind, x: InstrView) -> bool {
    &&& x.class == MnemonicClass::Other
    &&& x.raw.len() > 0
    &&& (k == GadgetKind::RegisterSwap ==> x.raw.len() >= 2)
}

/// The bytes that gadget `k` makes of `raw`.
pub open spec fn gadget_bytes(k: GadgetKind, raw: Seq<u8>) -> Seq<u8> {
    match k {
        GadgetKind::ArithmeticPartitioning => add_one_each(raw),
        GadgetKind::LogicalInverse => invert_each(raw),
        GadgetKind::LogicalPartitioning => xor_each(raw, PARTITION_MASK),
        GadgetKind::OffsetMutation => sub_one_each(raw),
        GadgetKind::RegisterSwap => swap_pairs(raw),
    }
}

/// The replacement of `x` by gadget `k`: same place and shape, new bytes.
pub open spec fn gadget_output(k: GadgetKind, x: InstrView) -> InstrView {
    InstrView { raw: gadget_bytes(k, x.raw), ..x }
}

/// The first gadget, in priority order, that the mask enables and that
/// applies to `x`.
pub open spec fn select_spec(bits: u8, x: InstrView) -> Option<GadgetKind> {
    if has_bit(bits, ARITHMETIC_PARTITIONING) && gadget_applies(
        GadgetKind::ArithmeticPartitioning,
        x,
    ) {
        Some(GadgetKind::ArithmeticPartitioning)
    } else if has_bit(bits, LOGICAL_INVERSE) && gadget_applies(GadgetKind::LogicalInverse, x) {
        Some(GadgetKind::LogicalInverse)
    } else if has_bit(bits, LOGICAL_PARTITIONING) && gadget_applies(
        GadgetKind::LogicalPartitioning,
        x,
    ) {
        Some(GadgetKind::LogicalPartitioning)
    } else if has_bit(bits, OFFSET_MUTATION) && gadget_applies(GadgetKind::OffsetMutation, x) {
        Some(GadgetKind::OffsetMutation)
    } else if has_bit(bits, REGISTER_SWAP) && gadget_applies(GadgetKind::RegisterSwap, x) {
        Some(GadgetKind::RegisterSwap)
    } else {
        None
    }
}

/// A copy of an instruction, bytes included.
pub fn copy_instruction(x: &Instruction) -> (r: Instruction)
    ensures
        r@ == x@,
{
    Instruction {
        address: x.address,
        length: x.length,
        raw: copy_bytes(&x.raw),
        operand_count: x.operand_count,
        class: x.class,
        near_branch_target: x.near_branch_target,
    }
}

/// Runs one gadget on its own copy of the instruction, so that a failed
/// attempt leaves nothing behind.
pub fn try_gadget(k: GadgetKind, x: &Instruction) -> (r: Result<Vec<Instruction>, GadgetError>)
    ensures
        r is Ok <==> gadget_applies(k, x@),
        r is Err ==> r == Err::<Vec<Instruction>, GadgetError>(GadgetError::NotApplicable),
        r is Ok ==> r->Ok_0@.len() == 1 && r->Ok_0@[0]@ == gadget_output(k, x@),
{
    let n = x.raw.len();
    let applies = x.class == MnemonicClass::Other && n > 0 && (k != GadgetKind::RegisterSwap
        || n >= 2);
    if !applies {
        return Err(GadgetError::NotApplicable);
    }
    let mut y = copy_instruction(x);
    gadget_on_bytes(k, &mut y.raw);
    let mut out: Vec<Instruction> = Vec::new();
    out.push(y);
    Ok(out)
}

/// Tries the enabled gadgets in priority order and returns the first
/// replacement, with the gadget that made it.
pub fn select_transform(x: &Instruction, mask: AvailableTransforms) -> (r: Option<
    (GadgetKind, Vec<Instruction>),
>)
    ensures
        r is None <==> select_spec(mask.bits, x@) is None,
        r is Some ==> {
            let (k, v) = r->Some_0;
            &&& select_spec(mask.bits, x@) == Some(k)
            &&& v@.len() == 1
            &&& v@[0]@ == gadget_output(k, x@)
        },
{
    if mask.contains(ARITHMETIC_PARTITIONING) {
        if let Ok(v) = try_gadget(GadgetKind::ArithmeticPartitioning, x) {
            return Some((GadgetKind::ArithmeticPartitioning, v));
        }
    }
    if mask.contains(LOGICAL_INVERSE) {
        if let Ok(v) = try_gadget(GadgetKind::LogicalInverse, x) {
            return Some((GadgetKind::LogicalInverse, v));
        }
    }
    if mask.contains(LOGICAL_PARTITIONING) {
        if let Ok(v) = try_gadget(GadgetKind::LogicalPartitioning, x) {
            return Some((GadgetKind::LogicalPartitioning, v));
        }
    }
    if mask.contains(OFFSET_MUTATION) {
        if let Ok(v) = try_gadget(GadgetKind::OffsetMutation, x) {
            return Some((GadgetKind::OffsetMutation, v));
        }
    }
    if mask.contains(REGISTER_SWAP) {
        if let Ok(v) = try_gadget(GadgetKind::RegisterSwap, x) {
            return Some((GadgetKind::RegisterSwap, v));
        }
    }
    None
}

/// Runs gadget `k` over a buffer.
pub fn gadget_on_bytes(k: GadgetKind, v: &mut Vec<u8>)
    ensures
        final(v)@ == gadget_bytes(k, old(v)@),
{
    match k {
        GadgetKind::ArithmeticPartitioning => add_one_in_place(v),
        GadgetKind::LogicalInverse => invert_in_place(v),
        GadgetKind::LogicalPartitioning => xor_in_place(v, PARTITION_MASK),
        GadgetKind::OffsetMutation => sub_one_in_place(v),
        GadgetKind::RegisterSwap => swap_pairs_in_place(v),
    }
}

/// The first gadget, in priority order, that `bits` enables and that can
/// rewrite an instruction of `n` bytes (every gadget needs a byte, swapping
/// needs two).
pub open spec fn first_enabled(bits: u8, n: nat) -> Option<GadgetKind> {
    if n == 0 {
        None
    } else if has_bit(bits, ARITHMETIC_PARTITIONING) {
        Some(GadgetKind::ArithmeticPartitioning)
    } else if has_bit(bits, LOGICAL_INVERSE) {
        Some(GadgetKind::LogicalInverse)
    } else if has_bit(bits, LOGICAL_PARTITIONING) {
        Some(GadgetKind::LogicalPartitioning)
    } else if has_bit(bits, OFFSET_MUTATION) {
        Some(GadgetKind::OffsetMutation)
    } else if has_bit(bits, REGISTER_SWAP) && n >= 2 {
        Some(GadgetKind::RegisterSwap)
    } else {
        None
    }
}

pub fn first_enabled_gadget(mask: AvailableTransforms, n: usize) -> (r: Option<GadgetKind>)
    ensures
        r == first_enabled(mask.bits, n as nat),
{
    if n == 0 {
        None
    } else if mask.contains(ARITHMETIC_PARTITIONING) {
        Some(GadgetKind::ArithmeticPartitioning)
    } else if mask.contains(LOGICAL_INVERSE) {
        Some(GadgetKind::LogicalInverse)
    } else if mask.contains(LOGICAL_PARTITIONING) {
        Some(GadgetKind::LogicalPartitioning)
    } else if mask.contains(OFFSET_MUTATION) {
        Some(GadgetKind::OffsetMutation)
    } else if mask.contains(REGISTER_SWAP) && n >= 2 {
        Some(GadgetKind::RegisterSwap)
    } else {
        None
    }
}

/// Width of the instructions of the fixed-width backends, in bytes.
pub const WORD_WIDTH: usize = 4;

/// Bytes of the first instruction of a fixed-width buffer: four, or what is
/// left.
pub open spec fn word_len(n: nat) -> nat {
    if n < 4 {
        n
    } else {
        4
    }
}

/// What one gadget pass makes of the instruction `w`: the first enabled
/// gadget that applies rewrites it, and no other gadget touches it.
pub open spec fn word_out(bits: u8, w: Seq<u8>) -> Seq<u8> {
    match first_enabled(bits, w.len()) {
        Some(k) => gadget_bytes(k, w),
        None => w,
    }
}

/// One pass of the fixed-width backends: each four-byte instruction (the
/// last one possibly shorter) gets exactly one gadget, the first in
/// priority order that the mask enables.
pub open spec fn word_pass(bits: u8, s: Seq<u8>) -> Seq<u8>
    decreases s.len(),
{
    if s.len() == 0 {
        Seq::empty()
    } else {
        let n = word_len(s.len());
        word_out(bits, s.subrange(0, n as int)) + word_pass(bits, s.subrange(n as int, s.len() as int))
    }
}

pub fn apply_per_word(mask: AvailableTransforms, v: &mut Vec<u8>)
    ensures
        final(v)@ == word_pass(mask.bits, old(v)@),
{
    let ghost s = v@;
    let n = v.len();
    let mut out: Vec<u8> = Vec::new();
    let mut off: usize = 0;
    assert(s.subrange(0, n as int) =~= s);
    while off < n
        invariant
            n == s.len(),
            v@ == s,
            off <= n,
            out@ + word_pass(mask.bits, s.subrange(off as int, n as int)) == word_pass(mask.bits, s),
        decreases n - off,
    {
        let len: usize = if n - off < WORD_WIDTH {
            n - off
        } else {
            WORD_WIDTH
        };
        let mut w: Vec<u8> = Vec::new();
        let mut i: usize = 0;
        while i < len
            invariant
                off + len <= n,
                n == v@.len(),
                i <= len,
                w@ == v@.subrange(off as int, off + i),
            decreases len - i,
        {
            w.push(v[off + i]);
            i += 1;
        }
        let ghost word = w@;
        match first_enabled_gadget(mask, len) {
            Some(k) => gadget_on_bytes(k, &mut w),
            None => {},
        }
        let ghost old_out = out@;
        let mut j: usize = 0;
        while j < w.len()
            invariant
                j <= w@.len(),
                out@ == old_out + w@.subrange(0, j as int),
            decreases w@.len() - j,
        {
            out.push(w[j]);
            j += 1;
        }
        proof {
            let rest = s.subrange(off as int, n as int);
            assert(rest.subrange(0, len as int) =~= word);
            assert(rest.subrange(len as int, rest.len() as int) =~= s.subrange(off + len, n as int));
            assert(w@.subrange(0, j as int) =~= w@);
            assert(w@ == word_out(mask.bits, word));
            assert(out@ + word_pass(mask.bits, s.subrange(off + len, n as int)) =~= old_out + (
            word_out(mask.bits, word) + word_pass(mask.bits, s.subrange(off + len, n as int))));
        }
        off += len;
    }
    assert(s.subrange(off as int, n as int) =~= Seq::<u8>::empty());
    assert(out@ + Seq::<u8>::empty() =~= out@);
    *v = out;
}

/// With no gadget enabled a fixed-width pass leaves the buffer as it was.
pub proof fn lemma_word_pass_empty_mask(s: Seq<u8>)
    ensures
        word_pass(0, s) == s,
    decreases s.len(),
{
    assert(!has_bit(0, ARITHMETIC_PARTITIONING)) by (bit_vector);
    assert(!has_bit(0, LOGICAL_INVERSE)) by (bit_vector);
    assert(!has_bit(0, LOGICAL_PARTITIONING)) by (bit_vector);
    assert(!has_bit(0, OFFSET_MUTATION)) by (bit_vector);
    assert(!has_bit(0, REGISTER_SWAP)) by (bit_vector);
    if s.len() > 0 {
        let n = word_len(s.len());
        lemma_word_pass_empty_mask(s.subrange(n as int, s.len() as int));
        assert(s.subrange(0, n as int) + s.subrange(n as int, s.len() as int) =~= s);
    }
}

/// With every gadget enabled, each instruction gets arithmetic partitioning
/// and nothing else: every byte is incremented once.
pub proof fn lemma_word_pass_all_gadgets(s: Seq<u8>)
    ensures
        word_pass(0xff, s) == add_one_each(s),
    decreases s.len(),
{
    assert(has_bit(0xff, ARITHMETIC_PARTITIONING)) by (bit_vector);
    if s.len() > 0 {
        let n = word_len(s.len());
        let rest = s.subrange(n as int, s.len() as int);
        lemma_word_pass_all_gadgets(rest);
        assert(add_one_each(s.subrange(0, n as int)) + add_one_each(rest) =~= add_one_each(s));
    }
}

} // verus!
