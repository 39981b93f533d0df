//! The ARM backend: fixed 32-bit words, byte-level gadgets, identity encoding.
use vstd::prelude::*;
use vstd::string::*;

use crate::gadgets::{
    add_one_each, add_one_in_place, copy_bytes, decode_words, invert_each,
    invert_in_place, le_word, sub_one_each, sub_one_in_place, swap_pairs,
    swap_pairs_in_place, xor_each, xor_in_place, AvailableTransforms, WordDecodeError,
    PARTITION_MASK,
};
use crate::selector::{apply_per_word, word_pass};

verus! {

/// The error of an empty buffer.
pub const EMPTY_MESSAGE: &'static str = "Binary data is empty.";

/// The error of a buffer that ends inside an instruction.
pub const INCOMPLETE_MESSAGE: &'static str = "Incomplete instruction data.";

/// One decoded ARM instruction word.
pub struct ArmInstruction {
    pub opcode: u32,
    pub operands: Vec<String>,
}

/// Collects the instruction words of the buffers it is given.
pub struct ArmAnalyzer {
    pub instructions: Vec<ArmInstruction>,
}

impl ArmAnalyzer {
    pub fn new() -> (r: Self)
        ensures
            r.instructions@.len() == 0,
    {
        ArmAnalyzer { instructions: Vec::new() }
    }

    /// Replaces the held words with those of `binary`; an empty buffer or
    /// one whose length is not a multiple of four is refused and the held
    /// words are kept.
    pub fn analyze(&mut self, binary: &[u8]) -> (r: Result<(), String>)
        ensures
            r is Err <==> (binary@.len() == 0 || binary@.len() % 4 != 0),
            binary@.len() == 0 ==> r is Err && r->Err_0@ == EMPTY_MESSAGE@,
            binary@.len() > 0 && binary@.len() % 4 != 0 ==> r is Err && r->Err_0@
                == INCOMPLETE_MESSAGE@,
            r is Err ==> final(self).instructions@ == old(self).instructions@,
            r is Ok ==> {
                &&& final(self).instructions@.len() * 4 == binary@.len()
                &&& forall|k: int|
                    0 <= k < binary@.len() / 4 ==> {
                        &&& (#[trigger] final(self).instructions@[k]).opcode == le_word(
                            binary@,
                            k,
                        )
                        &&& final(self).instructions@[k].operands@.len() == 0
                    }
            },
    {
        match decode_words(binary) {
            Err(WordDecodeError::EmptyInput) => Err(String::from_str(EMPTY_MESSAGE)),
            Err(WordDecodeError::TruncatedInstruction) => Err(String::from_str(INCOMPLETE_MESSAGE)),
            Ok(words) => {
                let mut fresh: Vec<ArmInstruction> = Vec::new();
                let mut k: usize = 0;
                while k < words.len()
                    invariant
                        k <= words@.len(),
                        words@.len() * 4 == binary@.len(),
                        forall|i: int| 0 <= i < words@.len() ==> words@[i] == le_word(binary@, i),
                        fresh@.len() == k,
                        forall|i: int|
                            0 <= i < k ==> {
                                &&& (#[trigger] fresh@[i]).opcode == le_word(binary@, i)
                                &&& fresh@[i].operands@.len() == 0
                            },
                    decreases words@.len() - k,
                {
                    fresh.push(ArmInstruction { opcode: words[k], operands: Vec::new() });
                    k += 1;
                }
                self.instructions = fresh;
                Ok(())
            },
        }
    }
}

/// The ARM gadgets, each over a whole buffer.
pub struct ArmTransform;

/// The flattened layout: a leading zero byte, then each byte followed by its
/// position modulo 256.
pub open spec fn flattened(s: Seq<u8>) -> Seq<u8> {
    Seq::new(
        2 * s.len() + 1,
        |i: int|
            if i == 0 {
                0u8
            } else if i % 2 == 1 {
                s[(i - 1) / 2]
            } else {
                (((i - 2) / 2) % 256) as u8
            },
    )
}

impl ArmTransform {
    pub fn arithmetic_partitioning(instructions: &mut Vec<u8>)
        ensures
            final(instructions)@ == add_one_each(old(instructions)@),
    {
        add_one_in_place(instructions);
    }

    pub fn logical_inverse(instructions: &mut Vec<u8>)
        ensures
            final(instructions)@ == invert_each(old(instructions)@),
    {
        invert_in_place(instructions);
    }

    pub fn logical_partitioning(instructions: &mut Vec<u8>)
        ensures
            final(instructions)@ == xor_each(old(instructions)@, PARTITION_MASK),
    {
        xor_in_place(instructions, PARTITION_MASK);
    }

    pub fn offset_mutation(instructions: &mut Vec<u8>)
        ensures
            final(instructions)@ == sub_one_each(old(instructions)@),
    {
        sub_one_in_place(instructions);
    }

    pub fn register_swap(instructions: &mut Vec<u8>)
        ensures
            final(instructions)@ == swap_pairs(old(instructions)@),
    {
        swap_pairs_in_place(instructions);
    }

    /// Rewrites the buffer into a dispatcher layout: a leading zero byte,
    /// then each input byte paired with its index (modulo 256).
    pub fn control_flow_flattening(instructions: &mut Vec<u8>)
        requires
            2 * old(instructions)@.len() + 1 <= usize::MAX,
        ensures
            final(instructions)@ == flattened(old(instructions)@),
    {
        let n = instructions.len();
        let mut out: Vec<u8> = Vec::new();
        out.push(0u8);
        let mut i: usize = 0;
        while i < n
            invariant
                n == instructions@.len(),
                2 * n + 1 <= usize::MAX,
                i <= n,
                out@.len() == 2 * i + 1,
                forall|j: int| 0 <= j < 2 * i + 1 ==> out@[j] == flattened(instructions@)[j],
            decreases n - i,
        {
            out.push(instructions[i]);
            out.push((i % 256) as u8);
            i += 1;
        }
        assert(out@ =~= flattened(instructions@));
        *instructions = out;
    }
}

/// Re-encodes transformed ARM buffers.
pub struct ArmEncoder;

impl ArmEncoder {
    /// Fixed-width words need no relocation: the bytes come back unchanged.
    pub fn encode(instructions: &Vec<u8>) -> (r: Result<Vec<u8>, String>)
        ensures
            r is Ok,
            r->Ok_0@ == instructions@,
    {
        Ok(copy_bytes(instructions))
    }
}

#[derive(Debug, Clone, Copy, PartialEq, Eq, Structural)]
pub enum ArmDeoptimizerError {
    InvalidInstruction,
    EncodingFail,
}

/// Runs analyze, transform and encode for ARM buffers.
pub struct ArmDeoptimizer {
    pub transforms: AvailableTransforms,
    pub analyzer: ArmAnalyzer,
}

impl ArmDeoptimizer {
    pub fn new() -> (r: Self)
        ensures
            r.transforms.bits == 0xff,
            r.analyzer.instructions@.len() == 0,
    {
        ArmDeoptimizer { transforms: AvailableTransforms::all(), analyzer: ArmAnalyzer::new() }
    }

    pub fn set_transform_gadgets(&mut self, gadgets: AvailableTransforms)
        ensures
            final(self).transforms == gadgets,
            final(self).analyzer == old(self).analyzer,
    {
        self.transforms = gadgets;
    }

    pub fn analyze(&mut self, binary: &[u8]) -> (r: Result<(), ArmDeoptimizerError>)
        ensures
            r is Err <==> (binary@.len() == 0 || binary@.len() % 4 != 0),
            r is Err ==> r == Err::<(), ArmDeoptimizerError>(
                ArmDeoptimizerError::InvalidInstruction,
            ),
            final(self).transforms == old(self).transforms,
            r is Err ==> final(self).analyzer.instructions@ == old(
                self,
            ).analyzer.instructions@,
            r is Ok ==> {
                &&& final(self).analyzer.instructions@.len() * 4 == binary@.len()
                &&& forall|k: int|
                    0 <= k < binary@.len() / 4 ==> (#[trigger] final(self).analyzer.instructions@[k]).opcode == le_word(binary@, k)
            },
    {
        match self.analyzer.analyze(binary) {
            Ok(()) => Ok(()),
            Err(_) => Err(ArmDeoptimizerError::InvalidInstruction),
        }
    }

    /// Rewrites each four-byte instruction with the first enabled gadget,
    /// in priority order; an instruction gets one gadget at most.
    pub fn transform(&self, instructions: &mut Vec<u8>) -> (r: Result<(), ArmDeoptimizerError>)
        ensures
            r is Ok,
            final(instructions)@ == word_pass(self.transforms.bits, old(instructions)@),
    {
        apply_per_word(self.transforms, instructions);
        Ok(())
    }

    pub fn encode(&self, instructions: &Vec<u8>) -> (r: Result<Vec<u8>, ArmDeoptimizerError>)
        ensures
            r is Ok,
            r->Ok_0@ == instructions@,
    {
        match ArmEncoder::encode(instructions) {
            Ok(bytes) => Ok(bytes),
            Err(_) => Err(ArmDeoptimizerError::EncodingFail),
        }
    }
}

} // verus!
