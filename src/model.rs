//! The architecture-neutral instruction model, the word decoder and encoder
//! of the reference backend, and the address tables built from a stream.
use std::collections::HashSet;
use vstd::prelude::*;

use crate::gadgets::le_word;

verus! {

broadcast use vstd::std_specs::hash::group_hash_axioms;

/// What an instruction does to the flow of control.
#[derive(Clone, Copy, PartialEq, Eq, Structural, Debug)]
pub enum MnemonicClass {
    Return,
    Jump,
    ConditionalBranch,
    Other,
}

/// One decoded instruction.
#[derive(Clone, Debug)]
pub struct Instruction {
    pub address: u64,
    pub length: u8,
    pub raw: Vec<u8>,
    pub operand_count: u8,
    pub class: MnemonicClass,
    pub near_branch_target: Option<u64>,
}

/// The mathematical value of an [`Instruction`].
pub struct InstrView {
    pub address: u64,
    pub length: u8,
    pub raw: Seq<u8>,
    pub operand_count: u8,
    pub class: MnemonicClass,
    pub near_branch_target: Option<u64>,
}

impl View for Instruction {
    type V = InstrView;

    open spec fn view(&self) -> InstrView {
        InstrView {
            address: self.address,
            length: self.length,
            raw: self.raw@,
            operand_count: self.operand_count,
            class: self.class,
            near_branch_target: self.near_branch_target,
        }
    }
}

pub open spec fn views(s: Seq<Instruction>) -> Seq<InstrView> {
    s.map_values(|i: Instruction| i@)
}

/// Why a buffer could not be decoded.
#[derive(Clone, Copy, PartialEq, Eq, Structural, Debug)]
pub enum DecodeError {
    EmptyInput,
    TruncatedInstruction,
}

/// The return instruction (`bx lr`).
pub const RETURN_WORD: u32 = 0xE12F_FF1E;

/// How a 32-bit word steers control: `bx lr` returns; a branch with the
/// always condition and no link jumps; a branch under any other condition
/// than "always" (or "never") is conditional; everything else, calls
/// included, falls through.
pub open spec fn word_class(w: u32) -> MnemonicClass {
    if w == RETURN_WORD {
        MnemonicClass::Return
    } else if (w >> 25u32) & 7 == 5 && (w >> 28u32) == 0xE && (w >> 24u32) & 1 == 0 {
        MnemonicClass::Jump
    } else if (w >> 25u32) & 7 == 5 && (w >> 28u32) < 0xE {
        MnemonicClass::ConditionalBranch
    } else {
        MnemonicClass::Other
    }
}

/// The signed word offset held in a branch's low 24 bits.
pub open spec fn branch_offset(w: u32) -> int {
    let imm = (w & 0xFF_FFFF) as int;
    if imm >= 0x80_0000 {
        imm - 0x100_0000
    } else {
        imm
    }
}

/// Where a branch at `addr` lands (eight bytes ahead plus four times the
/// offset), when that is an address at all.
pub open spec fn word_target(addr: u64, w: u32) -> Option<u64> {
    let t = addr + 8 + 4 * branch_offset(w);
    if (w >> 25u32) & 7 == 5 && (w >> 28u32) < 0xF && 0 <= t <= u64::MAX {
        Some(t as u64)
    } else {
        None
    }
}

pub open spec fn class_operands(c: MnemonicClass) -> u8 {
    match c {
        MnemonicClass::Return => 0,
        MnemonicClass::Jump => 1,
        MnemonicClass::ConditionalBranch => 1,
        MnemonicClass::Other => 2,
    }
}

/// The `k`-th instruction of buffer `b` loaded at `start`.
pub open spec fn decoded_at(b: Seq<u8>, start: u64, k: int) -> InstrView {
    let addr = (start + 4 * k) as u64;
    let w = le_word(b, k);
    InstrView {
        address: addr,
        length: 4,
        raw: b.subrange(4 * k, 4 * k + 4),
        operand_count: class_operands(word_class(w)),
        class: word_class(w),
        near_branch_target: word_target(addr, w),
    }
}

/// The whole decoded stream of a buffer whose length is a multiple of four.
pub open spec fn decode_spec(b: Seq<u8>, start: u64) -> Seq<InstrView> {
    Seq::new(b.len() / 4, |k: int| decoded_at(b, start, k))
}

/// The bytes of a stream, instruction after instruction.
pub open spec fn concat_raw(s: Seq<InstrView>) -> Seq<u8>
    decreases s.len(),
{
    if s.len() == 0 {
        Seq::empty()
    } else {
        concat_raw(s.drop_last()) + s.last().raw
    }
}

fn classify(w: u32) -> (r: MnemonicClass)
    ensures
        r == word_class(w),
{
    if w == RETURN_WORD {
        MnemonicClass::Return
    } else if (w >> 25u32) & 7 == 5 && (w >> 28u32) == 0xE && (w >> 24u32) & 1 == 0 {
        MnemonicClass::Jump
    } else if (w >> 25u32) & 7 == 5 && (w >> 28u32) < 0xE {
        MnemonicClass::ConditionalBranch
    } else {
        MnemonicClass::Other
    }
}

fn target_of(addr: u64, w: u32) -> (r: Option<u64>)
    ensures
        r == word_target(addr, w),
{
    let imm = (w & 0xFF_FFFF) as i128;
    let off: i128 = if imm >= 0x80_0000 {
        imm - 0x100_0000
    } else {
        imm
    };
    let t: i128 = addr as i128 + 8 + 4 * off;
    if (w >> 25u32) & 7 == 5 && (w >> 28u32) < 0xF && 0 <= t && t <= u64::MAX as i128 {
        Some(t as u64)
    } else {
        None
    }
}

fn operands_of(c: MnemonicClass) -> (r: u8)
    ensures
        r == class_operands(c),
{
    match c {
        MnemonicClass::Return => 0,
        MnemonicClass::Jump => 1,
        MnemonicClass::ConditionalBranch => 1,
        MnemonicClass::Other => 2,
    }
}

/// Decodes a buffer loaded at `start` into its instruction stream. An empty
/// buffer and one that ends inside an instruction are refused.
pub fn decode(binary: &[u8], start: u64) -> (r: Result<Vec<Instruction>, DecodeError>)
    requires
        start + binary@.len() <= u64::MAX,
    ensures
        binary@.len() == 0 <==> r == Err::<Vec<Instruction>, DecodeError>(DecodeError::EmptyInput),
        (binary@.len() > 0 && binary@.len() % 4 != 0) <==> r == Err::<
            Vec<Instruction>,
            DecodeError,
        >(DecodeError::TruncatedInstruction),
        r is Ok <==> (binary@.len() > 0 && binary@.len() % 4 == 0),
        r is Ok ==> views(r->Ok_0@) == decode_spec(binary@, start),
{
    let n = binary.len();
    if n == 0 {
        return Err(DecodeError::EmptyInput);
    }
    if n % 4 != 0 {
        return Err(DecodeError::TruncatedInstruction);
    }
    let mut out: Vec<Instruction> = Vec::new();
    let mut k: usize = 0;
    while k < n / 4
        invariant
            n == binary@.len(),
            n % 4 == 0,
            start + n <= u64::MAX,
            k <= n / 4,
            out@.len() == k,
            forall|j: int| 0 <= j < k ==> (#[trigger] out@[j])@ == decoded_at(binary@, start, j),
        decreases n / 4 - k,
    {
        let b0 = binary[4 * k];
        let b1 = binary[4 * k + 1];
        let b2 = binary[4 * k + 2];
        let b3 = binary[4 * k + 3];
        let w = b0 as u32 + b1 as u32 * 0x100 + b2 as u32 * 0x10000 + b3 as u32 * 0x1000000;
        let addr = start + 4 * k as u64;
        let class = classify(w);
        let raw = vec![b0, b1, b2, b3];
        let inst = Instruction {
            address: addr,
            length: 4,
            raw,
            operand_count: operands_of(class),
            class,
            near_branch_target: target_of(addr, w),
        };
        assert(inst.raw@ =~= binary@.subrange(4 * k, 4 * k + 4));
        out.push(inst);
        k += 1;
    }
    assert(views(out@) =~= decode_spec(binary@, start));
    Ok(out)
}

/// Re-encodes a stream: the bytes of each instruction, in order.
pub fn encode(stream: &Vec<Instruction>) -> (r: Vec<u8>)
    ensures
        r@ == concat_raw(views(stream@)),
{
    let mut out: Vec<u8> = Vec::new();
    let mut k: usize = 0;
    while k < stream.len()
        invariant
            k <= stream@.len(),
            out@ == concat_raw(views(stream@.subrange(0, k as int))),
        decreases stream@.len() - k,
    {
        let raw = &stream[k].raw;
        let mut i: usize = 0;
        let ghost before = out@;
        while i < raw.len()
            invariant
                i <= raw@.len(),
                out@ == before + raw@.subrange(0, i as int),
            decreases raw@.len() - i,
        {
            out.push(raw[i]);
            i += 1;
        }
        proof {
            let s = views(stream@.subrange(0, k + 1));
            assert(s.drop_last() =~= views(stream@.subrange(0, k as int)));
            assert(raw@.subrange(0, i as int) =~= raw@);
        }
        k += 1;
    }
    assert(stream@.subrange(0, k as int) =~= stream@);
    out
}

/// A stream whose instructions hold the consecutive four-byte pieces of `b`
/// encodes back to `b`.
proof fn lemma_concat_words(s: Seq<InstrView>, b: Seq<u8>)
    requires
        s.len() * 4 == b.len(),
        forall|k: int| 0 <= k < s.len() ==> (#[trigger] s[k]).raw == b.subrange(4 * k, 4 * k + 4),
    ensures
        concat_raw(s) == b,
    decreases s.len(),
{
    if s.len() > 0 {
        let p = b.subrange(0, b.len() - 4);
        let t = s.drop_last();
        assert forall|k: int| 0 <= k < t.len() implies (#[trigger] t[k]).raw == p.subrange(
            4 * k,
            4 * k + 4,
        ) by {
            assert(s[k].raw == b.subrange(4 * k, 4 * k + 4));
            assert(b.subrange(4 * k, 4 * k + 4) =~= p.subrange(4 * k, 4 * k + 4));
        }
        lemma_concat_words(t, p);
        assert(s[s.len() - 1].raw == b.subrange(b.len() - 4, b.len() as int));
        assert(concat_raw(s) =~= b);
    }
}

/// Encoding the decoded stream of a buffer gives the buffer back, byte for
/// byte.
pub proof fn lemma_round_trip(b: Seq<u8>, start: u64)
    requires
        b.len() % 4 == 0,
    ensures
        concat_raw(decode_spec(b, start)) == b,
{
    let d = decode_spec(b, start);
    assert forall|k: int| 0 <= k < d.len() implies (#[trigger] d[k]).raw == b.subrange(
        4 * k,
        4 * k + 4,
    ) by {}
    lemma_concat_words(d, b);
}

} // verus!
